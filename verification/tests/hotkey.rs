use lindiction::hotkey::{parse_binding, parse_key_token, BindingError, Code, Modifiers};

fn mods(control: bool, alt: bool, shift: bool, meta: bool) -> Modifiers {
    Modifiers {
        control,
        alt,
        shift,
        meta,
    }
}

#[test]
fn parse_canonical_ctrl_alt_space() {
    let (m, code) = parse_binding("ctrl+alt+space").expect("parse");
    assert_eq!(m, mods(true, true, false, false));
    assert_eq!(code, Code::Space);
}

#[test]
fn parse_is_case_insensitive() {
    let (m, code) = parse_binding("CTRL+Alt+SPACE").expect("parse");
    assert_eq!(m, mods(true, true, false, false));
    assert_eq!(code, Code::Space);
}

#[test]
fn parse_single_fn_key_no_modifiers() {
    let (m, code) = parse_binding("f12").expect("parse");
    assert_eq!(m, Modifiers::empty());
    assert_eq!(code, Code::F12);
}

#[test]
fn parse_meta_alias_for_super() {
    let (m, code) = parse_binding("meta+k").expect("parse");
    assert_eq!(m, mods(false, false, false, true));
    assert_eq!(code, Code::KeyK);
}

#[test]
fn parse_digit_and_arrow() {
    let (_, code) = parse_binding("ctrl+7").expect("parse");
    assert_eq!(code, Code::Digit7);
    let (_, code) = parse_binding("alt+right").expect("parse");
    assert_eq!(code, Code::ArrowRight);
}

#[test]
fn parse_unknown_modifier_errors() {
    let err = parse_binding("nope+space").expect_err("should fail");
    let msg = err.message();
    assert!(msg.to_lowercase().contains("modifier"), "msg was: {msg}");
    assert_eq!(
        msg,
        "Unknown hotkey modifier `nope`. Valid modifiers: ctrl (alias: control), alt, shift, \
         super (alias: meta)."
    );
}

#[test]
fn parse_unknown_key_errors() {
    let err = parse_binding("ctrl+nonsense").expect_err("should fail");
    let msg = err.message();
    assert!(msg.to_lowercase().contains("key"), "msg was: {msg}");
    assert_eq!(
        msg,
        "Unknown hotkey key `nonsense`. Valid keys: letters a-z, digits 0-9, space, \
         enter (alias: return), tab, escape (alias: esc), backspace, f1-f24, \
         arrow keys (up, down, left, right)."
    );
}

#[test]
fn parse_empty_string_errors() {
    assert!(parse_binding("").is_err());
}

#[test]
fn parse_leading_zero_fkey_errors() {
    assert!(parse_binding("f01").is_err());
    assert!(parse_binding("f024").is_err());
    assert!(parse_binding("f1").is_ok());
    assert!(parse_binding("f24").is_ok());
}

#[test]
fn every_letter_and_digit_is_a_key_of_its_own() {
    let mut seen: Vec<Code> = Vec::new();
    for c in ('a'..='z').chain('0'..='9') {
        let code = parse_key_token(&c.to_string()).unwrap();
        assert!(!seen.contains(&code), "{c} collides");
        seen.push(code);
    }
    assert_eq!(seen.first(), Some(&Code::KeyA));
    assert_eq!(seen.get(25), Some(&Code::KeyZ));
    assert_eq!(seen.last(), Some(&Code::Digit9));
}

#[test]
fn function_keys_end_at_24() {
    assert_eq!(parse_key_token("f24").unwrap(), Code::F24);
    for bad in ["f25", "f0", "f1x", "f99999999999999999999999", "f+5"] {
        assert_eq!(
            parse_key_token(bad).unwrap_err(),
            BindingError::UnknownKey {
                token: bad.to_string()
            }
        );
    }
    assert_eq!(parse_key_token("fx").is_err(), true);
}

#[test]
fn named_keys_and_aliases() {
    for (name, code) in [
        ("space", Code::Space),
        ("enter", Code::Enter),
        ("return", Code::Enter),
        ("tab", Code::Tab),
        ("escape", Code::Escape),
        ("esc", Code::Escape),
        ("backspace", Code::Backspace),
        ("up", Code::ArrowUp),
        ("down", Code::ArrowDown),
        ("left", Code::ArrowLeft),
        ("right", Code::ArrowRight),
    ] {
        assert_eq!(parse_key_token(name).unwrap(), code);
    }
}

#[test]
fn white_space_around_tokens_is_ignored() {
    let (m, code) = parse_binding(" shift + control +\tF5 ").expect("parse");
    assert_eq!(m, mods(true, false, true, false));
    assert_eq!(code, Code::F5);
}

#[test]
fn empty_tokens_are_reported_with_the_binding() {
    for bad in ["", "ctrl++a", "+a", "ctrl+", "ctrl+ "] {
        let err = parse_binding(bad).unwrap_err();
        assert_eq!(
            err.message(),
            format!("empty hotkey binding or empty `+`-separated token in `{bad}`")
        );
    }
}

#[test]
fn repeated_modifiers_count_once_and_the_first_bad_one_is_named() {
    let (m, _) = parse_binding("ctrl+control+super+meta+a").unwrap();
    assert_eq!(m, mods(true, false, false, true));
    assert_eq!(
        parse_binding("ctrl+Foo+BAR+nokey").unwrap_err(),
        BindingError::UnknownModifier {
            token: "foo".to_string()
        }
    );
}

#[test]
fn letters_outside_ascii_are_lowered_too() {
    let (_, code) = parse_binding("ctrl+\u{212A}").unwrap();
    assert_eq!(code, Code::KeyK);
    assert!(parse_binding("ctrl+É").is_err());
}
