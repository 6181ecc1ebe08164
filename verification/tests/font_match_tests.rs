use mdv::font_match::{configured_font, eq_ignore_ascii_case, match_font_family, remove_all_of};

fn chars(s: &str) -> Vec<char> {
    s.chars().collect()
}

fn families(names: &[&str]) -> Vec<String> {
    names.iter().map(|n| n.to_string()).collect()
}

#[test]
fn exact_family_wins_regardless_of_ascii_case() {
    let fams = families(&["JetBrains Mono", "Fira Code"]);
    assert_eq!(match_font_family(&fams, "fira code"), "Fira Code");
}

#[test]
fn nerd_font_suffix_is_dropped() {
    let fams = families(&["DejaVu Sans", "JetBrains Mono"]);
    assert_eq!(match_font_family(&fams, "JetBrainsMono Nerd Font"), "JetBrains Mono");
}

#[test]
fn a_later_plain_match_beats_an_earlier_prefix_match() {
    let fams = families(&["Hack Extra", "Hack"]);
    assert_eq!(match_font_family(&fams, "Hack NF"), "Hack");
}

#[test]
fn prefix_match_when_no_plain_one() {
    let fams = families(&["Iosevka Term", "Menlo"]);
    assert_eq!(match_font_family(&fams, "Iosevka"), "Iosevka Term");
}

#[test]
fn unknown_font_keeps_its_name() {
    let fams = families(&["Menlo"]);
    assert_eq!(match_font_family(&fams, "Comic Code"), "Comic Code");
}

#[test]
fn ascii_case_comparison() {
    assert!(eq_ignore_ascii_case(&chars("MoNo"), &chars("mono")));
    assert!(!eq_ignore_ascii_case(&chars("mono"), &chars("mono ")));
    assert!(!eq_ignore_ascii_case(&chars("É"), &chars("é")));
}

#[test]
fn removing_every_occurrence() {
    assert_eq!(remove_all_of(&chars("a mono b mono"), &chars(" mono")), chars("a b"));
    assert_eq!(remove_all_of(&chars("aaa"), &chars("aa")), chars("a"));
}

#[test]
fn ghostty_font_family_setting() {
    let conf = "theme = dark\n  font-family = Berkeley Mono  \nfont-family = Other\n";
    assert_eq!(configured_font(conf, "font-family", true), Some("Berkeley Mono".to_string()));
}

#[test]
fn ghostty_empty_font_family_is_skipped() {
    let conf = "font-family =\nfont-family = Iosevka\n";
    assert_eq!(configured_font(conf, "font-family", true), Some("Iosevka".to_string()));
}

#[test]
fn ghostty_value_stops_at_a_second_equals_sign() {
    assert_eq!(configured_font("font-family = A=B", "font-family", true), Some("A".to_string()));
}

#[test]
fn kitty_font_family_setting() {
    let conf = "# comment\nfont_family      Fira Code Retina\r\n";
    assert_eq!(configured_font(conf, "font_family", false), Some("Fira Code Retina".to_string()));
}

#[test]
fn no_font_setting() {
    assert_eq!(configured_font("font_size 12\n", "font_family", false), None);
}
