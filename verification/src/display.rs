use vstd::prelude::*;

use crate::keystroke::{Keystroke, KeystrokeView};
use crate::text::{push_char, str_eq, to_upper_ascii, upper_ascii};

verus! {

/// The glyphs for a key label: a few named keys map to a single iconographic
/// character; any other one-character label is ASCII-upper-cased; any other
/// label is rendered verbatim.
pub open spec fn key_glyphs(k: Seq<char>) -> Seq<char> {
    if k == "backspace"@ {
        seq!['⌫']
    } else if k == "up"@ {
        seq!['↑']
    } else if k == "down"@ {
        seq!['↓']
    } else if k == "left"@ {
        seq!['←']
    } else if k == "right"@ {
        seq!['→']
    } else if k == "tab"@ {
        seq!['⇥']
    } else if k == "escape"@ {
        seq!['⎋']
    } else if k.len() == 1 {
        seq![to_upper_ascii(k[0])]
    } else {
        k
    }
}

/// The rendered form of a keystroke: one glyph per active modifier in fixed
/// order (control, alt, command, shift; function has no glyph), then the key
/// glyphs.
pub open spec fn display_chars(v: KeystrokeView) -> Seq<char> {
    (if v.modifiers.control {
        seq!['^']
    } else {
        Seq::<char>::empty()
    }) + (if v.modifiers.alt {
        seq!['⌥']
    } else {
        Seq::<char>::empty()
    }) + (if v.modifiers.command {
        seq!['⌘']
    } else {
        Seq::<char>::empty()
    }) + (if v.modifiers.shift {
        seq!['⇧']
    } else {
        Seq::<char>::empty()
    }) + key_glyphs(v.key)
}

impl Keystroke {
    /// Renders the keystroke as the short human-readable glyph string used in
    /// menus and tooltips. This form is for presentation and does not round-trip
    /// through the parser.
    pub fn display_string(&self) -> (r: String)
        ensures
            r@ == display_chars(self@),
    {
        let mut out = String::new();
        if self.modifiers.control {
            push_char(&mut out, '^');
        }
        if self.modifiers.alt {
            push_char(&mut out, '⌥');
        }
        if self.modifiers.command {
            push_char(&mut out, '⌘');
        }
        if self.modifiers.shift {
            push_char(&mut out, '⇧');
        }
        let k = self.key.as_str();
        if str_eq(k, "backspace") {
            push_char(&mut out, '⌫');
        } else if str_eq(k, "up") {
            push_char(&mut out, '↑');
        } else if str_eq(k, "down") {
            push_char(&mut out, '↓');
        } else if str_eq(k, "left") {
            push_char(&mut out, '←');
        } else if str_eq(k, "right") {
            push_char(&mut out, '→');
        } else if str_eq(k, "tab") {
            push_char(&mut out, '⇥');
        } else if str_eq(k, "escape") {
            push_char(&mut out, '⎋');
        } else if k.unicode_len() == 1 {
            let c = k.get_char(0);
            push_char(&mut out, upper_ascii(c));
            proof {
                assert(self.key@ =~= seq![self.key@[0]]);
            }
        } else {
            out.append(k);
        }
        proof {
            assert(out@ =~= display_chars(self@));
        }
        out
    }
}

} // verus!
