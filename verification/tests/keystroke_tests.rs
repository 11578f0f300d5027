use keystroke::{Keystroke, Modifiers};

fn with_mods(m: Modifiers, key: &str) -> Keystroke {
    Keystroke { modifiers: m, key: String::from(key), ime_key: None }
}

fn plain_key(key: &str) -> Keystroke {
    with_mods(Modifiers::none(), key)
}

#[test]
fn candidates_single_without_ime() {
    let k = with_mods(Modifiers::command(), "s");
    let c = k.match_candidates();
    assert_eq!(c.len(), 1);
    assert_eq!(c[0], k);
}

#[test]
fn candidates_single_when_ime_equals_key() {
    let mut k = plain_key("a");
    k.ime_key = Some(String::from("a"));
    let c = k.match_candidates();
    assert_eq!(c.len(), 1);
    assert_eq!(c[0], plain_key("a"));
}

#[test]
fn candidates_pair_when_ime_differs() {
    let k = Keystroke {
        modifiers: Modifiers { control: true, alt: true, shift: true, command: true, function: true },
        key: String::from("s"),
        ime_key: Some(String::from("ß")),
    };
    let c = k.match_candidates();
    assert_eq!(c.len(), 2);
    // First: the IME-composed candidate, only control kept.
    assert_eq!(
        c[0],
        Keystroke {
            modifiers: Modifiers {
                control: true,
                alt: false,
                shift: false,
                command: false,
                function: false,
            },
            key: String::from("ß"),
            ime_key: None,
        },
    );
    // Second: the literal key with the original modifiers, IME label cleared.
    assert_eq!(
        c[1],
        Keystroke {
            modifiers: Modifiers { control: true, alt: true, shift: true, command: true, function: true },
            key: String::from("s"),
            ime_key: None,
        },
    );
}

#[test]
fn candidates_pair_without_control() {
    let mut k = with_mods(Modifiers::shift(), "2");
    k.ime_key = Some(String::from("@"));
    let c = k.match_candidates();
    assert_eq!(c.len(), 2);
    assert_eq!(c[0], plain_key("@"));
    let mut literal = with_mods(Modifiers::shift(), "2");
    literal.ime_key = None;
    assert_eq!(c[1], literal);
}

#[test]
fn simulated_ime_space() {
    let k = plain_key("space").with_simulated_ime();
    assert_eq!(k.ime_key, Some(String::from(" ")));
}

#[test]
fn simulated_ime_tab_and_enter() {
    assert_eq!(plain_key("tab").with_simulated_ime().ime_key, Some(String::from("\t")));
    assert_eq!(plain_key("enter").with_simulated_ime().ime_key, Some(String::from("\n")));
}

#[test]
fn simulated_ime_shifted_letter_is_uppercased() {
    let k = with_mods(Modifiers::shift(), "a").with_simulated_ime();
    assert_eq!(k.ime_key, Some(String::from("A")));
}

#[test]
fn simulated_ime_uppercases_beyond_ascii() {
    let k = with_mods(Modifiers::shift(), "ß").with_simulated_ime();
    assert_eq!(k.ime_key, Some(String::from("SS")));
}

#[test]
fn simulated_ime_plain_letter_is_verbatim() {
    let k = plain_key("a").with_simulated_ime();
    assert_eq!(k.ime_key, Some(String::from("a")));
}

#[test]
fn simulated_ime_function_key_produces_no_text() {
    assert_eq!(plain_key("f5").with_simulated_ime().ime_key, None);
    assert_eq!(plain_key("escape").with_simulated_ime().ime_key, None);
    assert_eq!(plain_key("pagedown").with_simulated_ime().ime_key, None);
}

#[test]
fn simulated_ime_skipped_under_command() {
    let k = with_mods(Modifiers::command(), "space").with_simulated_ime();
    assert_eq!(k.ime_key, None);
}

#[test]
fn simulated_ime_skipped_when_already_set() {
    let mut k = plain_key("a");
    k.ime_key = Some(String::from("å"));
    let out = k.clone().with_simulated_ime();
    assert_eq!(out, k);
}

#[test]
fn display_control_letter() {
    let k = with_mods(
        Modifiers { control: true, alt: false, shift: false, command: false, function: false },
        "s",
    );
    assert_eq!(k.display_string(), String::from("^S"));
}

#[test]
fn display_backspace_glyph() {
    assert_eq!(plain_key("backspace").display_string(), String::from("⌫"));
}

#[test]
fn display_named_key_verbatim() {
    assert_eq!(plain_key("space").display_string(), String::from("space"));
    assert_eq!(plain_key("f5").display_string(), String::from("f5"));
}

#[test]
fn display_arrow_glyphs() {
    assert_eq!(plain_key("up").display_string(), String::from("↑"));
    assert_eq!(plain_key("down").display_string(), String::from("↓"));
    assert_eq!(plain_key("left").display_string(), String::from("←"));
    assert_eq!(plain_key("right").display_string(), String::from("→"));
    assert_eq!(plain_key("tab").display_string(), String::from("⇥"));
    assert_eq!(plain_key("escape").display_string(), String::from("⎋"));
}

#[test]
fn display_all_modifier_glyphs_in_order() {
    let k = with_mods(
        Modifiers { control: true, alt: true, shift: true, command: true, function: true },
        "a",
    );
    // function has no glyph; the others come in fixed order.
    assert_eq!(k.display_string(), String::from("^⌥⌘⇧A"));
}

#[test]
fn display_single_non_ascii_char_unchanged() {
    assert_eq!(plain_key("ß").display_string(), String::from("ß"));
}

#[test]
fn equality_is_structural_over_ime_key() {
    let a = plain_key("s");
    let mut b = plain_key("s");
    assert_eq!(a, b);
    b.ime_key = Some(String::from("s"));
    assert_ne!(a, b);
}

#[test]
fn modifiers_helpers() {
    assert_eq!(
        Modifiers::none(),
        Modifiers { control: false, alt: false, shift: false, command: false, function: false },
    );
    assert_eq!(
        Modifiers::command(),
        Modifiers { control: false, alt: false, shift: false, command: true, function: false },
    );
    assert_eq!(
        Modifiers::shift(),
        Modifiers { control: false, alt: false, shift: true, command: false, function: false },
    );
    assert_eq!(
        Modifiers::command_shift(),
        Modifiers { control: false, alt: false, shift: true, command: true, function: false },
    );
    assert_eq!(Modifiers::default(), Modifiers::none());
}

#[test]
fn modified_reports_any_flag() {
    assert!(!Modifiers::none().modified());
    assert!(Modifiers::command().modified());
    assert!(Modifiers { control: false, alt: false, shift: false, command: false, function: true }
        .modified());
}

#[test]
fn default_keystroke_is_empty() {
    let k = Keystroke::default();
    assert_eq!(k.modifiers, Modifiers::none());
    assert_eq!(k.key, String::new());
    assert_eq!(k.ime_key, None);
}
