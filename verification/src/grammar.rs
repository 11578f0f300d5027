use vstd::prelude::*;

use crate::keystroke::{Keystroke, KeystrokeView};
use crate::modifiers::Modifiers;
use crate::parse::{
    initial_state, lemma_split_dash_at, lemma_split_dash_peel, parse_spec, split_dash, walk,
    ParseState,
};

verus! {

/// True of the five modifier keywords of the chord grammar.
pub open spec fn is_modifier_token(t: Seq<char>) -> bool {
    t == "ctrl"@ || t == "alt"@ || t == "shift"@ || t == "cmd"@ || t == "fn"@
}

/// The grammar encoding of a keystroke value: each active modifier keyword
/// with a trailing dash in fixed order, then the key label, then the IME
/// label behind a `->` marker when one is present. This is the inverse
/// encoding that the parser reads, not the display form.
pub open spec fn grammar_encoding(v: KeystrokeView) -> Seq<char> {
    (if v.modifiers.control {
        "ctrl-"@
    } else {
        Seq::<char>::empty()
    }) + (if v.modifiers.alt {
        "alt-"@
    } else {
        Seq::<char>::empty()
    }) + (if v.modifiers.shift {
        "shift-"@
    } else {
        Seq::<char>::empty()
    }) + (if v.modifiers.command {
        "cmd-"@
    } else {
        Seq::<char>::empty()
    }) + (if v.modifiers.function {
        "fn-"@
    } else {
        Seq::<char>::empty()
    }) + v.key + (if v.ime_key is Some {
        "->"@ + v.ime_key->0
    } else {
        Seq::<char>::empty()
    })
}

/// The tokens an IME-free encoding splits into at the key: a bare dash key
/// stands as two empty tokens, any other key as itself.
pub open spec fn key_tokens(key: Seq<char>) -> Seq<Seq<char>> {
    if key == seq!['-'] {
        seq![Seq::<char>::empty(), Seq::<char>::empty()]
    } else {
        seq![key]
    }
}

/// The tokens an IME-free encoding splits into: one per active modifier, in
/// fixed order, then the key's.
pub open spec fn encoding_tokens(v: KeystrokeView) -> Seq<Seq<char>> {
    (if v.modifiers.control {
        seq!["ctrl"@]
    } else {
        Seq::<Seq<char>>::empty()
    }) + (if v.modifiers.alt {
        seq!["alt"@]
    } else {
        Seq::<Seq<char>>::empty()
    }) + (if v.modifiers.shift {
        seq!["shift"@]
    } else {
        Seq::<Seq<char>>::empty()
    }) + (if v.modifiers.command {
        seq!["cmd"@]
    } else {
        Seq::<Seq<char>>::empty()
    }) + (if v.modifiers.function {
        seq!["fn"@]
    } else {
        Seq::<Seq<char>>::empty()
    }) + key_tokens(v.key)
}

impl Keystroke {
    /// Writes the keystroke in the textual grammar the parser reads.
    pub fn format_as_grammar(&self) -> (r: String)
        ensures
            r@ == grammar_encoding(self@),
    {
        let mut out = String::new();
        if self.modifiers.control {
            out.append("ctrl-");
        }
        if self.modifiers.alt {
            out.append("alt-");
        }
        if self.modifiers.shift {
            out.append("shift-");
        }
        if self.modifiers.command {
            out.append("cmd-");
        }
        if self.modifiers.function {
            out.append("fn-");
        }
        out.append(self.key.as_str());
        if let Some(ime) = &self.ime_key {
            out.append("->");
            out.append(ime.as_str());
        }
        proof {
            assert(out@ =~= grammar_encoding(self@));
        }
        out
    }
}

proof fn lemma_keywords_dash_free()
    ensures
        !"ctrl"@.contains('-'),
        !"alt"@.contains('-'),
        !"shift"@.contains('-'),
        !"cmd"@.contains('-'),
        !"fn"@.contains('-'),
{
    reveal_strlit("ctrl");
    reveal_strlit("alt");
    reveal_strlit("shift");
    reveal_strlit("cmd");
    reveal_strlit("fn");
    assert(forall|j: int| 0 <= j < "ctrl"@.len() ==> "ctrl"@[j] != '-');
    assert(forall|j: int| 0 <= j < "alt"@.len() ==> "alt"@[j] != '-');
    assert(forall|j: int| 0 <= j < "shift"@.len() ==> "shift"@[j] != '-');
    assert(forall|j: int| 0 <= j < "cmd"@.len() ==> "cmd"@[j] != '-');
    assert(forall|j: int| 0 <= j < "fn"@.len() ==> "fn"@[j] != '-');
}

/// An IME-free encoding splits into one token per active modifier followed
/// by the key's tokens, provided the key is the bare dash or holds no dash.
#[verifier::rlimit(100)]
proof fn lemma_encoding_splits(v: KeystrokeView)
    requires
        v.ime_key is None,
        v.key == seq!['-'] || !v.key.contains('-'),
    ensures
        split_dash(grammar_encoding(v)) == encoding_tokens(v),
{
    reveal_strlit("ctrl-");
    reveal_strlit("alt-");
    reveal_strlit("shift-");
    reveal_strlit("cmd-");
    reveal_strlit("fn-");
    reveal_strlit("ctrl");
    reveal_strlit("alt");
    reveal_strlit("shift");
    reveal_strlit("cmd");
    reveal_strlit("fn");
    lemma_keywords_dash_free();

    let p5 = v.key;
    let p4 = (if v.modifiers.function {
        "fn-"@
    } else {
        Seq::<char>::empty()
    }) + p5;
    let p3 = (if v.modifiers.command {
        "cmd-"@
    } else {
        Seq::<char>::empty()
    }) + p4;
    let p2 = (if v.modifiers.shift {
        "shift-"@
    } else {
        Seq::<char>::empty()
    }) + p3;
    let p1 = (if v.modifiers.alt {
        "alt-"@
    } else {
        Seq::<char>::empty()
    }) + p2;
    let p0 = (if v.modifiers.control {
        "ctrl-"@
    } else {
        Seq::<char>::empty()
    }) + p1;
    assert(grammar_encoding(v) =~= p0);

    let t5 = split_dash(p5);
    let m5 = (if v.modifiers.function {
        seq!["fn"@]
    } else {
        Seq::<Seq<char>>::empty()
    }) + t5;
    let m4 = (if v.modifiers.command {
        seq!["cmd"@]
    } else {
        Seq::<Seq<char>>::empty()
    }) + m5;
    let m3 = (if v.modifiers.shift {
        seq!["shift"@]
    } else {
        Seq::<Seq<char>>::empty()
    }) + m4;
    let m2 = (if v.modifiers.alt {
        seq!["alt"@]
    } else {
        Seq::<Seq<char>>::empty()
    }) + m3;
    let m1 = (if v.modifiers.control {
        seq!["ctrl"@]
    } else {
        Seq::<Seq<char>>::empty()
    }) + m2;

    if v.key == seq!['-'] {
        lemma_split_dash_peel(Seq::<char>::empty(), Seq::<char>::empty());
        assert(Seq::<char>::empty() + seq!['-'] + Seq::<char>::empty() =~= seq!['-']);
        assert(t5 == key_tokens(v.key));
    } else {
        assert(forall|j: int| 0 <= j < p5.len() ==> p5[j] != '-') by {
            if exists|j: int| 0 <= j < p5.len() && p5[j] == '-' {
                assert(p5.contains('-'));
            }
        }
        lemma_split_dash_at(p5, p5.len() as int);
        assert(t5 == key_tokens(v.key));
    }

    assert(split_dash(p4) == m5) by {
        if v.modifiers.function {
            assert(p4 =~= "fn"@ + seq!['-'] + p5);
            lemma_split_dash_peel("fn"@, p5);
        } else {
            assert(p4 =~= p5);
            assert(m5 =~= t5);
        }
    }
    assert(split_dash(p3) == m4) by {
        if v.modifiers.command {
            assert(p3 =~= "cmd"@ + seq!['-'] + p4);
            lemma_split_dash_peel("cmd"@, p4);
            assert(seq!["cmd"@] + split_dash(p4) =~= m4);
        } else {
            assert(p3 =~= p4);
            assert(m4 =~= m5);
        }
    }
    assert(split_dash(p2) == m3) by {
        if v.modifiers.shift {
            assert(p2 =~= "shift"@ + seq!['-'] + p3);
            lemma_split_dash_peel("shift"@, p3);
            assert(seq!["shift"@] + split_dash(p3) =~= m3);
        } else {
            assert(p2 =~= p3);
            assert(m3 =~= m4);
        }
    }
    assert(split_dash(p1) == m2) by {
        if v.modifiers.alt {
            assert(p1 =~= "alt"@ + seq!['-'] + p2);
            lemma_split_dash_peel("alt"@, p2);
            assert(seq!["alt"@] + split_dash(p2) =~= m2);
        } else {
            assert(p1 =~= p2);
            assert(m2 =~= m3);
        }
    }
    assert(split_dash(p0) == m1) by {
        if v.modifiers.control {
            assert(p0 =~= "ctrl"@ + seq!['-'] + p1);
            lemma_split_dash_peel("ctrl"@, p1);
            assert(seq!["ctrl"@] + split_dash(p1) =~= m1);
        } else {
            assert(p0 =~= p1);
            assert(m1 =~= m2);
        }
    }
    assert(encoding_tokens(v) =~= m1);
}

proof fn lemma_walk_ctrl(s: Seq<char>, rest: Seq<Seq<char>>, st: ParseState)
    ensures
        walk(s, seq!["ctrl"@] + rest, st) == walk(
            s,
            rest,
            ParseState { modifiers: Modifiers { control: true, ..st.modifiers }, ..st },
        ),
{
    let ts = seq!["ctrl"@] + rest;
    assert(ts[0] == "ctrl"@);
    assert(ts.drop_first() =~= rest);
}

proof fn lemma_walk_alt(s: Seq<char>, rest: Seq<Seq<char>>, st: ParseState)
    ensures
        walk(s, seq!["alt"@] + rest, st) == walk(
            s,
            rest,
            ParseState { modifiers: Modifiers { alt: true, ..st.modifiers }, ..st },
        ),
{
    reveal_strlit("ctrl");
    reveal_strlit("alt");
    let ts = seq!["alt"@] + rest;
    assert(ts[0] == "alt"@);
    assert(ts.drop_first() =~= rest);
}

proof fn lemma_walk_shift(s: Seq<char>, rest: Seq<Seq<char>>, st: ParseState)
    ensures
        walk(s, seq!["shift"@] + rest, st) == walk(
            s,
            rest,
            ParseState { modifiers: Modifiers { shift: true, ..st.modifiers }, ..st },
        ),
{
    reveal_strlit("ctrl");
    reveal_strlit("alt");
    reveal_strlit("shift");
    let ts = seq!["shift"@] + rest;
    assert(ts[0] == "shift"@);
    assert(ts.drop_first() =~= rest);
}

proof fn lemma_walk_cmd(s: Seq<char>, rest: Seq<Seq<char>>, st: ParseState)
    ensures
        walk(s, seq!["cmd"@] + rest, st) == walk(
            s,
            rest,
            ParseState { modifiers: Modifiers { command: true, ..st.modifiers }, ..st },
        ),
{
    reveal_strlit("ctrl");
    reveal_strlit("alt");
    reveal_strlit("shift");
    reveal_strlit("cmd");
    assert("cmd"@[0] == 'c' && "alt"@[0] == 'a');
    let ts = seq!["cmd"@] + rest;
    assert(ts[0] == "cmd"@);
    assert(ts.drop_first() =~= rest);
}

proof fn lemma_walk_fn_key(s: Seq<char>, rest: Seq<Seq<char>>, st: ParseState)
    ensures
        walk(s, seq!["fn"@] + rest, st) == walk(
            s,
            rest,
            ParseState { modifiers: Modifiers { function: true, ..st.modifiers }, ..st },
        ),
{
    reveal_strlit("ctrl");
    reveal_strlit("alt");
    reveal_strlit("shift");
    reveal_strlit("cmd");
    reveal_strlit("fn");
    let ts = seq!["fn"@] + rest;
    assert(ts[0] == "fn"@);
    assert(ts.drop_first() =~= rest);
}

proof fn lemma_walk_last_key(s: Seq<char>, t: Seq<char>, st: ParseState)
    requires
        !is_modifier_token(t),
    ensures
        walk(s, seq![t], st) == Some(ParseState { key: Some(t), ..st }),
{
    assert(seq![t][0] == t);
}

proof fn lemma_walk_dash_key(s: Seq<char>, st: ParseState)
    requires
        s.len() > 0,
        s.last() == '-',
    ensures
        walk(s, seq![Seq::<char>::empty(), Seq::<char>::empty()], st) == Some(
            ParseState { key: Some(seq!['-']), ..st },
        ),
{
    reveal_strlit("ctrl");
    reveal_strlit("alt");
    reveal_strlit("shift");
    reveal_strlit("cmd");
    reveal_strlit("fn");
    let ts = seq![Seq::<char>::empty(), Seq::<char>::empty()];
    assert(ts[0] == Seq::<char>::empty());
    assert(ts[1] == Seq::<char>::empty());
}

/// Walking the tokens of an IME-free encoding sets exactly the active
/// modifier flags and then takes the key.
#[verifier::rlimit(100)]
proof fn lemma_walk_encoding_tokens(s: Seq<char>, v: KeystrokeView)
    requires
        !is_modifier_token(v.key),
        v.key == seq!['-'] ==> s.len() > 0 && s.last() == '-',
    ensures
        walk(s, encoding_tokens(v), initial_state()) == Some(
            ParseState { modifiers: v.modifiers, key: Some(v.key), ime_key: None },
        ),
{
    let tail = key_tokens(v.key);
    let m5 = (if v.modifiers.function {
        seq!["fn"@]
    } else {
        Seq::<Seq<char>>::empty()
    }) + tail;
    let m4 = (if v.modifiers.command {
        seq!["cmd"@]
    } else {
        Seq::<Seq<char>>::empty()
    }) + m5;
    let m3 = (if v.modifiers.shift {
        seq!["shift"@]
    } else {
        Seq::<Seq<char>>::empty()
    }) + m4;
    let m2 = (if v.modifiers.alt {
        seq!["alt"@]
    } else {
        Seq::<Seq<char>>::empty()
    }) + m3;
    let m1 = (if v.modifiers.control {
        seq!["ctrl"@]
    } else {
        Seq::<Seq<char>>::empty()
    }) + m2;
    assert(encoding_tokens(v) =~= m1);

    let st0 = initial_state();
    let st1 = if v.modifiers.control {
        ParseState { modifiers: Modifiers { control: true, ..st0.modifiers }, ..st0 }
    } else {
        st0
    };
    let st2 = if v.modifiers.alt {
        ParseState { modifiers: Modifiers { alt: true, ..st1.modifiers }, ..st1 }
    } else {
        st1
    };
    let st3 = if v.modifiers.shift {
        ParseState { modifiers: Modifiers { shift: true, ..st2.modifiers }, ..st2 }
    } else {
        st2
    };
    let st4 = if v.modifiers.command {
        ParseState { modifiers: Modifiers { command: true, ..st3.modifiers }, ..st3 }
    } else {
        st3
    };
    let st5 = if v.modifiers.function {
        ParseState { modifiers: Modifiers { function: true, ..st4.modifiers }, ..st4 }
    } else {
        st4
    };
    assert(st5.modifiers == v.modifiers);
    assert(st5.key is None && st5.ime_key is None);

    assert(walk(s, m1, st0) == walk(s, m2, st1)) by {
        if v.modifiers.control {
            lemma_walk_ctrl(s, m2, st0);
        } else {
            assert(m1 =~= m2);
        }
    }
    assert(walk(s, m2, st1) == walk(s, m3, st2)) by {
        if v.modifiers.alt {
            lemma_walk_alt(s, m3, st1);
        } else {
            assert(m2 =~= m3);
        }
    }
    assert(walk(s, m3, st2) == walk(s, m4, st3)) by {
        if v.modifiers.shift {
            lemma_walk_shift(s, m4, st2);
        } else {
            assert(m3 =~= m4);
        }
    }
    assert(walk(s, m4, st3) == walk(s, m5, st4)) by {
        if v.modifiers.command {
            lemma_walk_cmd(s, m5, st3);
        } else {
            assert(m4 =~= m5);
        }
    }
    assert(walk(s, m5, st4) == walk(s, tail, st5)) by {
        if v.modifiers.function {
            lemma_walk_fn_key(s, tail, st4);
        } else {
            assert(m5 =~= tail);
        }
    }

    if v.key == seq!['-'] {
        lemma_walk_dash_key(s, st5);
        assert(walk(s, tail, st5) == Some(ParseState { key: Some(v.key), ..st5 }));
    } else {
        assert(tail == seq![v.key]);
        lemma_walk_last_key(s, v.key, st5);
    }
    assert(walk(s, encoding_tokens(v), st0) == Some(ParseState { key: Some(v.key), ..st5 }));
    assert((ParseState { key: Some(v.key), ..st5 }) == (ParseState {
        modifiers: v.modifiers,
        key: Some(v.key),
        ime_key: None,
    }));
}

/// Round-trip of unambiguous chords: a keystroke value without an IME label
/// whose key is a single character, or a multi-character name that holds no
/// dash and is not a modifier keyword, parses back from its own grammar
/// encoding unchanged.
pub proof fn lemma_parse_round_trip(v: KeystrokeView)
    requires
        v.ime_key is None,
        v.key.len() > 0,
        v.key.len() == 1 || (!v.key.contains('-') && !is_modifier_token(v.key)),
    ensures
        parse_spec(grammar_encoding(v)) == Some(v),
{
    reveal_strlit("ctrl");
    reveal_strlit("alt");
    reveal_strlit("shift");
    reveal_strlit("cmd");
    reveal_strlit("fn");
    let s = grammar_encoding(v);
    let dash_key = v.key.len() == 1 && v.key[0] == '-';
    assert(dash_key ==> v.key =~= seq!['-']);
    if v.key.len() == 1 && !dash_key {
        assert(!v.key.contains('-')) by {
            if v.key.contains('-') {
                let i = choose|i: int| 0 <= i < v.key.len() && v.key[i] == '-';
                assert(v.key[i] == '-');
            }
        }
        assert(v.key != seq!['-']);
    }
    assert(!is_modifier_token(v.key));
    assert(v.key == seq!['-'] || !v.key.contains('-'));
    lemma_encoding_splits(v);

    if v.key == seq!['-'] {
        let x = (if v.modifiers.control {
            "ctrl-"@
        } else {
            Seq::<char>::empty()
        }) + (if v.modifiers.alt {
            "alt-"@
        } else {
            Seq::<char>::empty()
        }) + (if v.modifiers.shift {
            "shift-"@
        } else {
            Seq::<char>::empty()
        }) + (if v.modifiers.command {
            "cmd-"@
        } else {
            Seq::<char>::empty()
        }) + (if v.modifiers.function {
            "fn-"@
        } else {
            Seq::<char>::empty()
        });
        assert(s == x + v.key + Seq::<char>::empty());
        assert(s.len() == x.len() + 1);
        assert(s[s.len() - 1] == v.key[0]);
        assert(s.len() > 0 && s.last() == '-');
    }
    lemma_walk_encoding_tokens(s, v);
    assert(parse_spec(s) == Some(v));
}

} // verus!
