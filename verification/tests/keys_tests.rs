use mdv::keys::{KeyBinding, KeyBindings, KeyCode, KeyEvent, KeyModifiers};

#[test]
fn parse_simple_char() {
    let kb = KeyBinding::parse("q").unwrap();
    assert_eq!(kb.code, KeyCode::Char('q'));
    assert_eq!(kb.modifiers, KeyModifiers::none());
}

#[test]
fn parse_uppercase_char() {
    let kb = KeyBinding::parse("G").unwrap();
    assert_eq!(kb.code, KeyCode::Char('G'));
    assert_eq!(kb.modifiers, KeyModifiers::none());
}

#[test]
fn parse_ctrl_key() {
    let kb = KeyBinding::parse("ctrl+d").unwrap();
    assert_eq!(kb.code, KeyCode::Char('d'));
    assert_eq!(kb.modifiers, KeyModifiers::control());
}

#[test]
fn parse_special_keys() {
    assert_eq!(KeyBinding::parse("esc").unwrap().code, KeyCode::Esc);
    assert_eq!(KeyBinding::parse("enter").unwrap().code, KeyCode::Enter);
    assert_eq!(KeyBinding::parse("space").unwrap().code, KeyCode::Char(' '));
    assert_eq!(KeyBinding::parse("backspace").unwrap().code, KeyCode::Backspace);
    assert_eq!(KeyBinding::parse("pageup").unwrap().code, KeyCode::PageUp);
    assert_eq!(KeyBinding::parse("pagedown").unwrap().code, KeyCode::PageDown);
    assert_eq!(KeyBinding::parse("home").unwrap().code, KeyCode::Home);
    assert_eq!(KeyBinding::parse("end").unwrap().code, KeyCode::End);
}

#[test]
fn parse_arrow_keys() {
    assert_eq!(KeyBinding::parse("up").unwrap().code, KeyCode::Up);
    assert_eq!(KeyBinding::parse("down").unwrap().code, KeyCode::Down);
    assert_eq!(KeyBinding::parse("left").unwrap().code, KeyCode::Left);
    assert_eq!(KeyBinding::parse("right").unwrap().code, KeyCode::Right);
}

#[test]
fn parse_symbols() {
    assert_eq!(KeyBinding::parse("/").unwrap().code, KeyCode::Char('/'));
    assert_eq!(KeyBinding::parse("?").unwrap().code, KeyCode::Char('?'));
    assert_eq!(KeyBinding::parse("$").unwrap().code, KeyCode::Char('$'));
    assert_eq!(KeyBinding::parse("0").unwrap().code, KeyCode::Char('0'));
}

#[test]
fn parse_invalid_key() {
    assert!(KeyBinding::parse("ctrl+").is_err());
    assert!(KeyBinding::parse("").is_err());
    assert!(KeyBinding::parse("ctrl+abc").is_err());
}

#[test]
fn matches_simple_char() {
    let kb = KeyBinding::parse("q").unwrap();
    let event = KeyEvent::new(KeyCode::Char('q'), KeyModifiers::none());
    assert!(kb.matches(&event));
}

#[test]
fn matches_char_ignores_shift() {
    let kb = KeyBinding::parse("G").unwrap();
    let event = KeyEvent::new(KeyCode::Char('G'), KeyModifiers::shift());
    assert!(kb.matches(&event));
}

#[test]
fn matches_ctrl_key() {
    let kb = KeyBinding::parse("ctrl+d").unwrap();
    let yes = KeyEvent::new(KeyCode::Char('d'), KeyModifiers::control());
    let no = KeyEvent::new(KeyCode::Char('d'), KeyModifiers::none());
    assert!(kb.matches(&yes));
    assert!(!kb.matches(&no));
}

#[test]
fn simple_char_does_not_match_ctrl_variant() {
    let kb = KeyBinding::parse("d").unwrap();
    let ctrl_d = KeyEvent::new(KeyCode::Char('d'), KeyModifiers::control());
    assert!(!kb.matches(&ctrl_d));
}

#[test]
fn keybindings_matches_any() {
    let bindings = KeyBindings(vec![
        KeyBinding::parse("q").unwrap(),
        KeyBinding::parse("esc").unwrap(),
    ]);
    let q = KeyEvent::new(KeyCode::Char('q'), KeyModifiers::none());
    let esc = KeyEvent::new(KeyCode::Esc, KeyModifiers::none());
    let j = KeyEvent::new(KeyCode::Char('j'), KeyModifiers::none());
    assert!(bindings.matches(&q));
    assert!(bindings.matches(&esc));
    assert!(!bindings.matches(&j));
}



#[test]
fn parse_ctrl_dash_form() {
    let kb = KeyBinding::parse("ctrl-d").unwrap();
    assert_eq!(kb.code, KeyCode::Char('d'));
    assert_eq!(kb.modifiers, KeyModifiers::control());
    let kb = KeyBinding::parse("ctrl+U").unwrap();
    assert_eq!(kb.code, KeyCode::Char('U'));
    assert_eq!(kb.modifiers, KeyModifiers::control());
    // the prefix is written in lower case
    assert!(KeyBinding::parse("Ctrl+u").is_err());
    assert!(KeyBinding::parse("CTRL-d").is_err());
    assert!(KeyBinding::parse("ctrl-").is_err());
    assert!(KeyBinding::parse("ctrl-abc").is_err());
}

#[test]
fn parse_capitalised_key_names() {
    assert_eq!(KeyBinding::parse("Down").unwrap().code, KeyCode::Down);
    assert_eq!(KeyBinding::parse("Up").unwrap().code, KeyCode::Up);
    assert_eq!(KeyBinding::parse("PageDown").unwrap().code, KeyCode::PageDown);
    assert_eq!(KeyBinding::parse("PageUp").unwrap().code, KeyCode::PageUp);
    assert_eq!(KeyBinding::parse("Enter").unwrap().code, KeyCode::Enter);
    assert_eq!(KeyBinding::parse("Escape").unwrap().code, KeyCode::Esc);
    assert_eq!(KeyBinding::parse("escape").unwrap().code, KeyCode::Esc);
    assert_eq!(KeyBinding::parse("Down").unwrap().modifiers, KeyModifiers::none());
    // a single letter keeps its case
    assert_eq!(KeyBinding::parse("N").unwrap().code, KeyCode::Char('N'));
    assert!(KeyBinding::parse("Escapes").is_err());
}
