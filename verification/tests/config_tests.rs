use mdv::config::{resolve_theme, KeysConfig, NormalKeys, ResolvedKeys};
use mdv::keys::{KeyBindings, KeyCode, KeyEvent, KeyModifiers};
use mdv::theme::{Color, ColorsConfig};

#[test]
fn defaults_are_sane() {
    let choice = resolve_theme(&None, None, &None);
    let keys = ResolvedKeys::with_overrides(&None);
    assert_eq!(choice.theme.status_bar_view, Color::Rgb(40, 60, 120));
    let q = KeyEvent::new(KeyCode::Char('q'), KeyModifiers::none());
    assert!(keys.normal.quit.matches(&q));
}

#[test]
fn theme_override_from_cli() {
    let choice = resolve_theme(&None, Some("catppuccin-mocha"), &None);
    assert_ne!(choice.theme.status_bar_view, Color::Rgb(40, 60, 120));
}

#[test]
fn key_override_merges() {
    let quit = KeyBindings::from_names(&vec!["x".to_string()]).unwrap();
    let config = Some(KeysConfig {
        normal: Some(NormalKeys { quit: Some(quit), ..Default::default() }),
        ..Default::default()
    });
    let keys = ResolvedKeys::with_overrides(&config);
    let x = KeyEvent::new(KeyCode::Char('x'), KeyModifiers::none());
    let q = KeyEvent::new(KeyCode::Char('q'), KeyModifiers::none());
    assert!(keys.normal.quit.matches(&x));
    assert!(!keys.normal.quit.matches(&q));
    let j = KeyEvent::new(KeyCode::Char('j'), KeyModifiers::none());
    assert!(keys.normal.scroll_down.matches(&j));
}

#[test]
fn unknown_theme_falls_back_to_default() {
    let choice = resolve_theme(&Some("nonexistent".to_string()), None, &None);
    assert_eq!(choice.unknown_name.as_deref(), Some("nonexistent"));
    assert_eq!(choice.theme.status_bar_view, Color::Rgb(40, 60, 120));
}

#[test]
fn cli_theme_wins_over_config_theme() {
    let choice = resolve_theme(&Some("nonexistent".to_string()), Some("default"), &None);
    assert!(choice.unknown_name.is_none());
}

#[test]
fn configured_colors_apply_over_the_theme() {
    let colors = ColorsConfig { status_bar_view: Some("#102030".to_string()), ..Default::default() };
    let choice = resolve_theme(&None, None, &Some(colors));
    assert_eq!(choice.theme.status_bar_view, Color::Rgb(0x10, 0x20, 0x30));
    assert!(choice.invalid_colors.is_empty());
}

#[test]
fn default_key_map_matches_documented_keys() {
    let keys = ResolvedKeys::with_overrides(&None);
    let none = KeyModifiers::none();
    assert!(keys.normal.page_down.matches(&KeyEvent::new(KeyCode::PageDown, none)));
    assert!(keys.normal.top.matches(&KeyEvent::new(KeyCode::Home, none)));
    assert!(keys.normal.bottom.matches(&KeyEvent::new(KeyCode::Char('G'), KeyModifiers::shift())));
    assert!(keys.source.line_end.matches(&KeyEvent::new(KeyCode::Char('$'), none)));
    assert!(keys.search.confirm.matches(&KeyEvent::new(KeyCode::Enter, none)));
    assert!(!keys.search.cancel.matches(&KeyEvent::new(KeyCode::Enter, none)));
}

#[test]
fn refused_binding_list_reports_first_error() {
    let names = vec!["q".to_string(), "ctrl+".to_string(), "bogus".to_string()];
    assert!(KeyBindings::from_names(&names).is_err());
    let ok = KeyBindings::from_names(&vec!["q".to_string(), "esc".to_string()]).unwrap();
    assert_eq!(ok.0.len(), 2);
}
