use vstd::prelude::*;

use crate::keystroke::{opt_chars, Keystroke, KeystrokeView};
use crate::modifiers::Modifiers;
use crate::text::str_eq;

verus! {

/// The tokens of a character sequence split at every '-'. A sequence without
/// a dash is one token; each dash separates two (possibly empty) tokens, so
/// the result is never empty.
pub open spec fn split_dash(s: Seq<char>) -> Seq<Seq<char>>
    decreases s.len(),
{
    if s.len() == 0 {
        seq![Seq::<char>::empty()]
    } else if s[0] == '-' {
        seq![Seq::<char>::empty()] + split_dash(s.drop_first())
    } else {
        let rest = split_dash(s.drop_first());
        seq![seq![s[0]] + rest.first()] + rest.drop_first()
    }
}

/// Splitting never yields an empty token list.
pub proof fn lemma_split_dash_len(s: Seq<char>)
    ensures
        split_dash(s).len() >= 1,
    decreases s.len(),
{
    if s.len() != 0 {
        lemma_split_dash_len(s.drop_first());
    }
}

/// Splitting a sequence whose first dash stands at position `k` (or that has
/// none, when `k` is the length) yields the prefix before `k` as the first
/// token, followed by the tokens of what stands after the dash.
pub proof fn lemma_split_dash_at(s: Seq<char>, k: int)
    requires
        0 <= k <= s.len(),
        forall|j: int| 0 <= j < k ==> s[j] != '-',
        k < s.len() ==> s[k] == '-',
    ensures
        k == s.len() ==> split_dash(s) == seq![s],
        k < s.len() ==> split_dash(s) == seq![s.take(k)] + split_dash(s.skip(k + 1)),
    decreases k,
{
    if k == 0 {
        if 0 < s.len() {
            lemma_split_dash_len(s.drop_first());
            assert(s.take(0) =~= Seq::<char>::empty());
            assert(s.skip(1) =~= s.drop_first());
        } else {
            assert(s =~= Seq::<char>::empty());
        }
    } else {
        let d = s.drop_first();
        lemma_split_dash_len(d);
        assert(forall|j: int| 0 <= j < k - 1 ==> d[j] == s[j + 1] && d[j] != '-');
        lemma_split_dash_at(d, k - 1);
        if k == s.len() {
            assert(seq![s[0]] + d =~= s);
            assert(split_dash(s) =~= seq![s]);
        } else {
            assert(seq![s[0]] + d.take(k - 1) =~= s.take(k));
            assert(d.skip(k) =~= s.skip(k + 1));
            assert(split_dash(s) =~= seq![s.take(k)] + split_dash(s.skip(k + 1)));
        }
    }
}

/// Splitting a sequence that starts with a dash-free token followed by a
/// dash peels that token off the front.
pub proof fn lemma_split_dash_peel(t: Seq<char>, rest: Seq<char>)
    requires
        !t.contains('-'),
    ensures
        split_dash(t + seq!['-'] + rest) == seq![t] + split_dash(rest),
{
    let s = t + seq!['-'] + rest;
    let k = t.len() as int;
    assert forall|j: int| 0 <= j < k implies s[j] != '-' by {
        assert(s[j] == t[j]);
        if t[j] == '-' {
            assert(t.contains('-'));
        }
    }
    assert(s[k] == '-');
    lemma_split_dash_at(s, k);
    assert(s.take(k) =~= t);
    assert(s.skip(k + 1) =~= rest);
}

/// The flags and labels accumulated while walking the tokens of a chord.
pub ghost struct ParseState {
    pub modifiers: Modifiers,
    pub key: Option<Seq<char>>,
    pub ime_key: Option<Seq<char>>,
}

/// The state a parse starts from: no flags, no key, no IME label.
pub open spec fn initial_state() -> ParseState {
    ParseState {
        modifiers: Modifiers {
            control: false,
            alt: false,
            shift: false,
            command: false,
            function: false,
        },
        key: None,
        ime_key: None,
    }
}

/// One left-to-right pass over the tokens of the source `s`, with one token
/// of lookahead. A modifier keyword sets its flag. Any other token becomes
/// the key: verbatim when it is the last token; the literal "-" when the next
/// token is empty and the source ends with a dash (the rest of the tokens are
/// then discarded); with the remainder of a following '>'-marked token as the
/// IME label. Any other continuation is a parse failure.
pub open spec fn walk(s: Seq<char>, ts: Seq<Seq<char>>, st: ParseState) -> Option<ParseState>
    decreases ts.len(),
{
    if ts.len() == 0 {
        Some(st)
    } else {
        let t = ts[0];
        if t == "ctrl"@ {
            walk(
                s,
                ts.drop_first(),
                ParseState { modifiers: Modifiers { control: true, ..st.modifiers }, ..st },
            )
        } else if t == "alt"@ {
            walk(
                s,
                ts.drop_first(),
                ParseState { modifiers: Modifiers { alt: true, ..st.modifiers }, ..st },
            )
        } else if t == "shift"@ {
            walk(
                s,
                ts.drop_first(),
                ParseState { modifiers: Modifiers { shift: true, ..st.modifiers }, ..st },
            )
        } else if t == "cmd"@ {
            walk(
                s,
                ts.drop_first(),
                ParseState { modifiers: Modifiers { command: true, ..st.modifiers }, ..st },
            )
        } else if t == "fn"@ {
            walk(
                s,
                ts.drop_first(),
                ParseState { modifiers: Modifiers { function: true, ..st.modifiers }, ..st },
            )
        } else if ts.len() == 1 {
            Some(ParseState { key: Some(t), ..st })
        } else if ts[1].len() == 0 && s.len() > 0 && s.last() == '-' {
            Some(ParseState { key: Some(seq!['-']), ..st })
        } else if ts[1].len() > 1 && ts[1][0] == '>' {
            walk(
                s,
                ts.skip(2),
                ParseState { key: Some(t), ime_key: Some(ts[1].drop_first()), ..st },
            )
        } else {
            None
        }
    }
}

/// What a whole parse of the source `s` yields: the walk over its tokens,
/// accepted only when it succeeds and found a non-empty key.
pub open spec fn parse_spec(s: Seq<char>) -> Option<KeystrokeView> {
    match walk(s, split_dash(s), initial_state()) {
        None => None,
        Some(st) => match st.key {
            Some(k) => if k.len() > 0 {
                Some(KeystrokeView { modifiers: st.modifiers, key: k, ime_key: st.ime_key })
            } else {
                None
            },
            None => None,
        },
    }
}

/// The views of a list of tokens, in order.
pub open spec fn token_views(ts: Seq<String>) -> Seq<Seq<char>> {
    ts.map_values(|t: String| t@)
}

/// The error returned when a keystroke description cannot be parsed. It
/// carries the offending source text.
#[derive(Clone, Debug)]
pub struct ParseError {
    /// The source text that failed to parse.
    pub input: String,
}

impl ParseError {
    /// The human-readable description of the failure, quoting the source.
    pub fn message(&self) -> (r: String)
        ensures
            r@ == "Invalid keystroke `"@ + self.input@ + "`"@,
    {
        let mut m = String::from_str("Invalid keystroke `");
        m.append(self.input.as_str());
        m.append("`");
        m
    }
}

/// The index of the first '-' at or after `from`, or the length when there
/// is none.
fn find_dash(source: &str, from: usize) -> (r: usize)
    requires
        from <= source@.len(),
    ensures
        from <= r <= source@.len(),
        forall|j: int| from <= j < r ==> source@[j] != '-',
        r < source@.len() ==> source@[r as int] == '-',
{
    let n = source.unicode_len();
    let mut i: usize = from;
    while i < n
        invariant
            from <= i <= n,
            n == source@.len(),
            forall|j: int| from <= j < i ==> source@[j] != '-',
        decreases n - i,
    {
        if source.get_char(i) == '-' {
            return i;
        }
        i += 1;
    }
    n
}

/// The tokens of the source split at every '-', as owned strings.
fn tokenize(source: &str) -> (toks: Vec<String>)
    ensures
        token_views(toks@) == split_dash(source@),
{
    let n = source.unicode_len();
    let mut toks: Vec<String> = Vec::new();
    let mut pos: usize = 0;
    proof {
        assert(token_views(toks@) =~= Seq::<Seq<char>>::empty());
        assert(source@.skip(0) =~= source@);
        assert(Seq::<Seq<char>>::empty() + split_dash(source@) =~= split_dash(source@));
    }
    loop
        invariant_except_break
            pos <= n,
            n == source@.len(),
            split_dash(source@) == token_views(toks@) + split_dash(source@.skip(pos as int)),
        ensures
            token_views(toks@) == split_dash(source@),
        decreases n - pos,
    {
        let fd = find_dash(source, pos);
        let t = source.substring_char(pos, fd);
        let tok = String::from_str(t);
        proof {
            let rest = source@.skip(pos as int);
            assert(forall|j: int| 0 <= j < fd - pos ==> rest[j] == source@[pos + j]);
            lemma_split_dash_at(rest, fd - pos as int);
            if fd == n {
                assert(rest.len() == fd - pos);
                assert(tok@ =~= rest);
                assert(token_views(toks@.push(tok)) =~= token_views(toks@) + seq![rest]);
            } else {
                assert(rest.take(fd - pos as int) =~= tok@);
                assert(rest.skip(fd - pos as int + 1) =~= source@.skip(fd + 1));
                assert(token_views(toks@.push(tok)) =~= token_views(toks@) + seq![tok@]);
            }
        }
        toks.push(tok);
        if fd == n {
            break;
        }
        pos = fd + 1;
    }
    toks
}

impl Keystroke {
    /// Parses a textual chord, `[ctrl-][alt-][shift-][cmd-][fn-]key[->ime_key]`,
    /// into a keystroke. The result is exactly what the grammar walk over the
    /// source's '-'-separated tokens yields; an input on which that walk fails
    /// or finds no non-empty key is rejected with an error carrying the source.
    pub fn parse(source: &str) -> (r: Result<Keystroke, ParseError>)
        ensures
            match r {
                Ok(k) => parse_spec(source@) == Some(k@),
                Err(e) => parse_spec(source@) is None && e.input@ == source@,
            },
    {
        let toks = tokenize(source);
        let n = source.unicode_len();
        let mut control = false;
        let mut alt = false;
        let mut shift = false;
        let mut command = false;
        let mut function = false;
        let mut key: Option<String> = None;
        let mut ime_key: Option<String> = None;
        let mut i: usize = 0;
        let ghost s = source@;
        let ghost ts = token_views(toks@);
        proof {
            assert(ts.skip(0) =~= ts);
        }
        loop
            invariant_except_break
                i <= toks@.len(),
                ts == token_views(toks@),
                n == s.len(),
                s == source@,
                ts == split_dash(s),
                walk(s, ts, initial_state()) == walk(
                    s,
                    ts.skip(i as int),
                    (ParseState {
                        modifiers: Modifiers { control, alt, shift, command, function },
                        key: opt_chars(key),
                        ime_key: opt_chars(ime_key),
                    }),
                ),
            ensures
                s == source@,
                ts == split_dash(s),
                walk(s, ts, initial_state()) == Some(
                    ParseState {
                        modifiers: Modifiers { control, alt, shift, command, function },
                        key: opt_chars(key),
                        ime_key: opt_chars(ime_key),
                    },
                ),
            decreases toks@.len() - i,
        {
            if i >= toks.len() {
                proof {
                    assert(ts.skip(i as int) =~= Seq::<Seq<char>>::empty());
                }
                break;
            }
            proof {
                assert(ts.skip(i as int)[0] == ts[i as int]);
                assert(ts.skip(i as int).drop_first() =~= ts.skip(i as int + 1));
            }
            if str_eq(toks[i].as_str(), "ctrl") {
                control = true;
                i += 1;
            } else if str_eq(toks[i].as_str(), "alt") {
                alt = true;
                i += 1;
            } else if str_eq(toks[i].as_str(), "shift") {
                shift = true;
                i += 1;
            } else if str_eq(toks[i].as_str(), "cmd") {
                command = true;
                i += 1;
            } else if str_eq(toks[i].as_str(), "fn") {
                function = true;
                i += 1;
            } else if i + 1 == toks.len() {
                key = Some(toks[i].clone());
                i += 1;
            } else {
                proof {
                    assert(ts.skip(i as int)[1] == ts[i as int + 1]);
                }
                let next_len = toks[i + 1].as_str().unicode_len();
                if next_len == 0 && n > 0 && source.get_char(n - 1) == '-' {
                    key = Some(String::from_str("-"));
                    proof {
                        reveal_strlit("-");
                        assert("-"@ =~= seq!['-']);
                    }
                    break;
                } else if next_len > 1 && toks[i + 1].as_str().get_char(0) == '>' {
                    let imepart = toks[i + 1].as_str().substring_char(1, next_len);
                    key = Some(toks[i].clone());
                    ime_key = Some(String::from_str(imepart));
                    proof {
                        assert(imepart@ =~= ts[i as int + 1].drop_first());
                        assert(ts.skip(i as int).skip(2) =~= ts.skip(i as int + 2));
                    }
                    i += 2;
                } else {
                    return Err(ParseError { input: String::from_str(source) });
                }
            }
        }
        match key {
            None => Err(ParseError { input: String::from_str(source) }),
            Some(k) => {
                if k.as_str().unicode_len() == 0 {
                    Err(ParseError { input: String::from_str(source) })
                } else {
                    Ok(
                        Keystroke {
                            modifiers: Modifiers { control, alt, shift, command, function },
                            key: k,
                            ime_key,
                        },
                    )
                }
            },
        }
    }
}

} // verus!
