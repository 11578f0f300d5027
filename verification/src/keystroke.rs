use vstd::prelude::*;

use crate::modifiers::Modifiers;
use crate::text::{str_eq, upper_of, uppercased};

verus! {

/// A keystroke and associated metadata generated by the platform.
#[derive(Clone, Debug, Eq, Hash)]
pub struct Keystroke {
    /// The state of the modifier keys at the time the keystroke was generated.
    pub modifiers: Modifiers,
    /// The character printed on the key that was pressed,
    /// e.g. for option-s, key is "s".
    pub key: String,
    /// The character inserted by the IME engine when that key was pressed,
    /// e.g. for option-s, ime_key is "ß".
    pub ime_key: Option<String>,
}

/// The characters of an optional string.
pub open spec fn opt_chars(o: Option<String>) -> Option<Seq<char>> {
    match o {
        Some(s) => Some(s@),
        None => None,
    }
}

/// The mathematical value of a keystroke: the modifier flags, the characters
/// of the key label, and the characters of the IME-composed label, if any.
#[verifier::ext_equal]
pub ghost struct KeystrokeView {
    pub modifiers: Modifiers,
    pub key: Seq<char>,
    pub ime_key: Option<Seq<char>>,
}

impl View for Keystroke {
    type V = KeystrokeView;

    open spec fn view(&self) -> KeystrokeView {
        KeystrokeView {
            modifiers: self.modifiers,
            key: self.key@,
            ime_key: opt_chars(self.ime_key),
        }
    }
}

/// The first candidate emitted for a keystroke whose IME label differs from
/// its key label: the IME-composed string becomes the key, the IME label is
/// cleared, and every modifier except control is forced off.
pub open spec fn stripped_candidate(v: KeystrokeView) -> KeystrokeView {
    KeystrokeView {
        modifiers: Modifiers {
            control: v.modifiers.control,
            alt: false,
            shift: false,
            command: false,
            function: false,
        },
        key: v.ime_key->0,
        ime_key: None,
    }
}

/// The fallback candidate: the keystroke itself with the IME label cleared.
pub open spec fn literal_candidate(v: KeystrokeView) -> KeystrokeView {
    KeystrokeView { ime_key: None, ..v }
}

/// The ordered list of keystroke shapes a keybinding resolver should try for
/// a physical press: the IME interpretation first where it exists and says
/// something new, then the literal key.
pub open spec fn candidates_of(v: KeystrokeView) -> Seq<KeystrokeView> {
    match v.ime_key {
        None => seq![v],
        Some(ime) => if ime == v.key {
            seq![literal_candidate(v)]
        } else {
            seq![stripped_candidate(v), literal_candidate(v)]
        },
    }
}

/// The views of a list of keystrokes, in order.
pub open spec fn views_of(s: Seq<Keystroke>) -> Seq<KeystrokeView> {
    s.map_values(|k: Keystroke| k@)
}

/// Keys that never produce composed text under IME simulation: named
/// navigation and function keys.
pub open spec fn is_no_text_key(k: Seq<char>) -> bool {
    ||| k == "up"@
    ||| k == "down"@
    ||| k == "left"@
    ||| k == "right"@
    ||| k == "pageup"@
    ||| k == "pagedown"@
    ||| k == "home"@
    ||| k == "end"@
    ||| k == "delete"@
    ||| k == "escape"@
    ||| k == "backspace"@
    ||| k == "f1"@
    ||| k == "f2"@
    ||| k == "f3"@
    ||| k == "f4"@
    ||| k == "f5"@
    ||| k == "f6"@
    ||| k == "f7"@
    ||| k == "f8"@
    ||| k == "f9"@
    ||| k == "f10"@
    ||| k == "f11"@
    ||| k == "f12"@
}

/// The IME label that simulation fills in for a key pressed without
/// command, control, function or alt: a few named keys map to the text they
/// type, named navigation and function keys produce no text, and any other
/// label is taken verbatim, upper-cased when shift is held.
pub open spec fn simulated_ime_of(v: KeystrokeView) -> Option<Seq<char>> {
    if v.key == "space"@ {
        Some(" "@)
    } else if v.key == "tab"@ {
        Some("\t"@)
    } else if v.key == "enter"@ {
        Some("\n"@)
    } else if is_no_text_key(v.key) {
        None
    } else if v.modifiers.shift {
        Some(upper_of(v.key))
    } else {
        Some(v.key)
    }
}

/// What `with_simulated_ime` returns: the IME label is filled in only when
/// none is present and none of command, control, function or alt is held;
/// otherwise the keystroke is unchanged.
pub open spec fn simulate_ime(v: KeystrokeView) -> KeystrokeView {
    if v.ime_key is None && !v.modifiers.command && !v.modifiers.control && !v.modifiers.function
        && !v.modifiers.alt {
        KeystrokeView { ime_key: simulated_ime_of(v), ..v }
    } else {
        v
    }
}

impl Keystroke {
    /// When matching a key we cannot know whether the user intended to type
    /// the ime_key or the key itself, so this method generates the list of
    /// potential keystroke candidates that could be matched against when
    /// resolving a keybinding.
    ///
    /// The contract carries the candidate laws: exactly one candidate when
    /// the IME label is absent or equal to the key, exactly two otherwise;
    /// and when two are emitted, the stripped IME candidate comes first and
    /// the literal-key candidate second.
    pub fn match_candidates(&self) -> (r: Vec<Keystroke>)
        ensures
            views_of(r@) == candidates_of(self@),
            r@.len() == candidates_of(self@).len(),
            forall|i: int| 0 <= i < r@.len() ==> r@[i]@ == candidates_of(self@)[i],
            (self@.ime_key is None || self@.ime_key->0 == self@.key) ==> r@.len() == 1,
            (self@.ime_key is Some && self@.ime_key->0 != self@.key) ==> r@.len() == 2,
            r@.len() == 2 ==> r@[0]@ == stripped_candidate(self@) && r@[1]@ == literal_candidate(
                self@,
            ),
    {
        let mut possibilities: Vec<Keystroke> = Vec::new();
        match &self.ime_key {
            Some(ime_key) => {
                if !str_eq(ime_key.as_str(), self.key.as_str()) {
                    possibilities.push(
                        Keystroke {
                            modifiers: Modifiers {
                                control: self.modifiers.control,
                                alt: false,
                                shift: false,
                                command: false,
                                function: false,
                            },
                            key: ime_key.clone(),
                            ime_key: None,
                        },
                    );
                }
                possibilities.push(
                    Keystroke { modifiers: self.modifiers, key: self.key.clone(), ime_key: None },
                );
            },
            None => {
                possibilities.push(
                    Keystroke { modifiers: self.modifiers, key: self.key.clone(), ime_key: None },
                );
            },
        }
        proof {
            assert(views_of(possibilities@) =~= candidates_of(self@));
            assert forall|i: int| 0 <= i < possibilities@.len() implies possibilities@[i]@
                == candidates_of(self@)[i] by {
                assert(views_of(possibilities@)[i] == possibilities@[i]@);
            }
        }
        possibilities
    }

    /// Returns a new keystroke with the ime_key filled, so that callers can
    /// simulate typing "space" and the like.
    pub fn with_simulated_ime(self) -> (r: Keystroke)
        ensures
            r@ == simulate_ime(self@),
    {
        if self.ime_key.is_none() && !self.modifiers.command && !self.modifiers.control
            && !self.modifiers.function && !self.modifiers.alt {
            let ime: Option<String> = if str_eq(self.key.as_str(), "space") {
                Some(String::from_str(" "))
            } else if str_eq(self.key.as_str(), "tab") {
                Some(String::from_str("\t"))
            } else if str_eq(self.key.as_str(), "enter") {
                Some(String::from_str("\n"))
            } else if is_named_no_text_key(self.key.as_str()) {
                None
            } else if self.modifiers.shift {
                Some(uppercased(self.key.as_str()))
            } else {
                Some(self.key.clone())
            };
            Keystroke { modifiers: self.modifiers, key: self.key, ime_key: ime }
        } else {
            self
        }
    }
}

/// True exactly when the label is one of the named keys that produce no
/// composed text under IME simulation.
pub fn is_named_no_text_key(k: &str) -> (r: bool)
    ensures
        r == is_no_text_key(k@),
{
    str_eq(k, "up") || str_eq(k, "down") || str_eq(k, "left") || str_eq(k, "right") || str_eq(
        k,
        "pageup",
    ) || str_eq(k, "pagedown") || str_eq(k, "home") || str_eq(k, "end") || str_eq(k, "delete")
        || str_eq(k, "escape") || str_eq(k, "backspace") || str_eq(k, "f1") || str_eq(k, "f2")
        || str_eq(k, "f3") || str_eq(k, "f4") || str_eq(k, "f5") || str_eq(k, "f6") || str_eq(
        k,
        "f7",
    ) || str_eq(k, "f8") || str_eq(k, "f9") || str_eq(k, "f10") || str_eq(k, "f11") || str_eq(
        k,
        "f12",
    )
}

impl PartialEq for Keystroke {
    fn eq(&self, other: &Keystroke) -> (r: bool) {
        let keys_eq = str_eq(self.key.as_str(), other.key.as_str());
        let ime_eq = match (&self.ime_key, &other.ime_key) {
            (Some(a), Some(b)) => str_eq(a.as_str(), b.as_str()),
            (None, None) => true,
            _ => false,
        };
        self.modifiers == other.modifiers && keys_eq && ime_eq
    }
}

impl vstd::std_specs::cmp::PartialEqSpecImpl for Keystroke {
    open spec fn obeys_eq_spec() -> bool {
        true
    }

    open spec fn eq_spec(&self, other: &Keystroke) -> bool {
        self@ == other@
    }
}

impl Default for Keystroke {
    /// A default-constructed Keystroke has no modifiers, an empty key label
    /// and no IME label.
    fn default() -> (r: Keystroke)
        ensures
            r@.modifiers == (Modifiers {
                control: false,
                alt: false,
                shift: false,
                command: false,
                function: false,
            }),
            r@.key == Seq::<char>::empty(),
            r@.ime_key is None,
    {
        Keystroke { modifiers: Modifiers::none(), key: String::new(), ime_key: None }
    }
}

} // verus!
