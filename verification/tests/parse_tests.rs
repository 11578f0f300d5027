use keystroke::{Keystroke, Modifiers};

fn mods(control: bool, alt: bool, shift: bool, command: bool, function: bool) -> Modifiers {
    Modifiers { control, alt, shift, command, function }
}

fn plain(key: &str) -> Keystroke {
    Keystroke { modifiers: Modifiers::none(), key: String::from(key), ime_key: None }
}

#[test]
fn parse_ctrl_s() {
    let k = Keystroke::parse("ctrl-s").unwrap();
    assert_eq!(k.modifiers, mods(true, false, false, false, false));
    assert_eq!(k.key, String::from("s"));
    assert_eq!(k.ime_key, None);
}

#[test]
fn parse_cmd_shift_p() {
    let k = Keystroke::parse("cmd-shift-p").unwrap();
    assert_eq!(k.modifiers, mods(false, false, true, true, false));
    assert_eq!(k.key, String::from("p"));
    assert_eq!(k.ime_key, None);
}

#[test]
fn parse_all_modifiers() {
    let k = Keystroke::parse("ctrl-alt-shift-cmd-fn-k").unwrap();
    assert_eq!(k.modifiers, mods(true, true, true, true, true));
    assert_eq!(k.key, String::from("k"));
    assert_eq!(k.ime_key, None);
}

#[test]
fn parse_ime_marker() {
    let k = Keystroke::parse("a->å").unwrap();
    assert_eq!(k.modifiers, Modifiers::none());
    assert_eq!(k.key, String::from("a"));
    assert_eq!(k.ime_key, Some(String::from("å")));
}

#[test]
fn parse_bare_hyphen() {
    let k = Keystroke::parse("-").unwrap();
    assert_eq!(k.modifiers, Modifiers::none());
    assert_eq!(k.key, String::from("-"));
    assert_eq!(k.ime_key, None);
}

#[test]
fn parse_trailing_hyphen_after_modifier() {
    let k = Keystroke::parse("ctrl--").unwrap();
    assert_eq!(k.modifiers, mods(true, false, false, false, false));
    assert_eq!(k.key, String::from("-"));
    assert_eq!(k.ime_key, None);
}

#[test]
fn parse_duplicate_modifier_is_harmless() {
    let k = Keystroke::parse("ctrl-ctrl-s").unwrap();
    assert_eq!(k.modifiers, mods(true, false, false, false, false));
    assert_eq!(k.key, String::from("s"));
}

#[test]
fn parse_named_key() {
    let k = Keystroke::parse("cmd-space").unwrap();
    assert_eq!(k.modifiers, mods(false, false, false, true, false));
    assert_eq!(k.key, String::from("space"));
}

#[test]
fn parse_later_token_overwrites_key() {
    // The walk keeps going after an IME pair; a later token becomes the key.
    let k = Keystroke::parse("a->å-b").unwrap();
    assert_eq!(k.key, String::from("b"));
    assert_eq!(k.ime_key, Some(String::from("å")));
}

#[test]
fn parse_trailing_hyphen_discards_earlier_key() {
    let k = Keystroke::parse("a--").unwrap();
    assert_eq!(k.key, String::from("-"));
    assert_eq!(k.ime_key, None);
}

#[test]
fn parse_rejects_modifier_only() {
    assert!(Keystroke::parse("ctrl").is_err());
}

#[test]
fn parse_rejects_modifier_with_empty_key() {
    assert!(Keystroke::parse("ctrl-").is_err());
}

#[test]
fn parse_rejects_empty_source() {
    assert!(Keystroke::parse("").is_err());
}

#[test]
fn parse_rejects_two_plain_tokens() {
    assert!(Keystroke::parse("x-y").is_err());
}

#[test]
fn parse_rejects_bare_ime_marker() {
    // The token after the key is ">" alone, too short for an IME marker.
    assert!(Keystroke::parse("a->").is_err());
}

#[test]
fn parse_rejects_empty_token_in_the_middle() {
    assert!(Keystroke::parse("a-->b").is_err());
}

#[test]
fn parse_error_carries_source_and_message() {
    let e = Keystroke::parse("ctrl").unwrap_err();
    assert_eq!(e.input, String::from("ctrl"));
    assert_eq!(e.message(), String::from("Invalid keystroke `ctrl`"));
}

#[test]
fn format_as_grammar_writes_modifiers_in_order() {
    let k = Keystroke {
        modifiers: mods(true, true, true, true, true),
        key: String::from("k"),
        ime_key: None,
    };
    assert_eq!(k.format_as_grammar(), String::from("ctrl-alt-shift-cmd-fn-k"));
}

#[test]
fn format_as_grammar_writes_ime_marker() {
    let k = Keystroke {
        modifiers: Modifiers::none(),
        key: String::from("a"),
        ime_key: Some(String::from("å")),
    };
    assert_eq!(k.format_as_grammar(), String::from("a->å"));
}

#[test]
fn round_trip_single_char_chord() {
    let k = Keystroke {
        modifiers: Modifiers::command_shift(),
        key: String::from("p"),
        ime_key: None,
    };
    let text = k.format_as_grammar();
    assert_eq!(text, String::from("shift-cmd-p"));
    assert_eq!(Keystroke::parse(&text).unwrap(), k);
}

#[test]
fn round_trip_named_key_chord() {
    let k = Keystroke {
        modifiers: mods(true, false, false, false, true),
        key: String::from("pageup"),
        ime_key: None,
    };
    let text = k.format_as_grammar();
    assert_eq!(text, String::from("ctrl-fn-pageup"));
    assert_eq!(Keystroke::parse(&text).unwrap(), k);
}

#[test]
fn round_trip_hyphen_key_chord() {
    let k = Keystroke {
        modifiers: mods(true, false, false, false, false),
        key: String::from("-"),
        ime_key: None,
    };
    let text = k.format_as_grammar();
    assert_eq!(text, String::from("ctrl--"));
    assert_eq!(Keystroke::parse(&text).unwrap(), k);
}

#[test]
fn round_trip_unmodified_hyphen_key() {
    let k = plain("-");
    assert_eq!(k.format_as_grammar(), String::from("-"));
    assert_eq!(Keystroke::parse("-").unwrap(), k);
}
