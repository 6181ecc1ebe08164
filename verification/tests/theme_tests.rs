use mdv::theme::{builtin, builtin_names, color_to_rgb, parse_hex_color, Color, ColorsConfig};

#[test]
fn parse_hex_6digit() {
    assert_eq!(parse_hex_color("#FF0000"), Some(Color::Rgb(255, 0, 0)));
    assert_eq!(parse_hex_color("#00ff00"), Some(Color::Rgb(0, 255, 0)));
}

#[test]
fn parse_hex_invalid() {
    assert_eq!(parse_hex_color("red"), None);
    assert_eq!(parse_hex_color("#GG0000"), None);
    assert_eq!(parse_hex_color("#FF00"), None);
}

#[test]
fn builtin_default_exists() {
    assert!(builtin("default").is_some());
}

#[test]
fn builtin_catppuccin_mocha_exists() {
    assert!(builtin("catppuccin-mocha").is_some());
}

#[test]
fn builtin_unknown_returns_none() {
    assert!(builtin("nonexistent").is_none());
}

#[test]
fn builtin_names_includes_default() {
    assert!(builtin_names().contains(&"default"));
}

#[test]
fn apply_overrides_changes_color() {
    let mut theme = builtin("default").unwrap();
    let before = theme.status_bar_view;
    let overrides = ColorsConfig {
        status_bar_view: Some("#FF0000".to_string()),
        ..Default::default()
    };
    theme.apply_overrides(&overrides);
    assert_eq!(theme.status_bar_view, Color::Rgb(255, 0, 0));
    assert_ne!(theme.status_bar_view, before);
}

#[test]
fn apply_overrides_heading_text() {
    let mut theme = builtin("default").unwrap();
    let overrides = ColorsConfig {
        heading_text: Some("#AABBCC".to_string()),
        ..Default::default()
    };
    theme.apply_overrides(&overrides);
    assert_eq!(theme.heading_text, Color::Rgb(0xAA, 0xBB, 0xCC));
}

#[test]
fn every_builtin_name_has_a_theme() {
    for name in builtin_names() {
        assert!(builtin(name).is_some(), "missing theme {}", name);
    }
    assert_eq!(builtin_names().len(), 9);
}

#[test]
fn hex_color_takes_hex_digits_only() {
    assert_eq!(parse_hex_color("#+F+F+F"), None);
    assert_eq!(parse_hex_color("#0a0B0c"), Some(Color::Rgb(10, 11, 12)));
    assert_eq!(parse_hex_color("#-F0000"), None);
    assert_eq!(parse_hex_color("FF0000#"), None);
    assert_eq!(parse_hex_color("#FF00000"), None);
}

#[test]
fn named_colors_read_as_white() {
    assert_eq!(color_to_rgb(Color::Black), [255, 255, 255]);
    assert_eq!(color_to_rgb(Color::White), [255, 255, 255]);
    assert_eq!(color_to_rgb(Color::Rgb(1, 2, 3)), [1, 2, 3]);
}

#[test]
fn invalid_overrides_are_reported_and_ignored() {
    let mut theme = builtin("default").unwrap();
    let before = theme.link;
    let overrides = ColorsConfig {
        link: Some("blue".to_string()),
        hr: Some("#010203".to_string()),
        ..Default::default()
    };
    let invalid = theme.apply_overrides(&overrides);
    assert_eq!(theme.link, before);
    assert_eq!(theme.hr, Color::Rgb(1, 2, 3));
    assert_eq!(invalid.len(), 1);
    assert_eq!(invalid[0].field, "link");
    assert_eq!(invalid[0].value, "blue");
}

#[test]
fn syntax_theme_follows_heading_luminance() {
    let mut theme = builtin("default").unwrap();
    assert_eq!(theme.syntax_theme_name(), "base16-ocean.dark");
    theme.heading_text = Color::Rgb(20, 20, 20);
    assert_eq!(theme.syntax_theme_name(), "InspiredGitHub");
    theme.heading_text = Color::Rgb(0, 0, 0);
    assert_eq!(theme.syntax_theme_name(), "InspiredGitHub");
    theme.heading_text = Color::White;
    assert_eq!(theme.syntax_theme_name(), "base16-ocean.dark");
}
