use flightrelay::text::{strip_suffix, trim, white_space};

#[test]
fn trim_removes_unicode_whitespace() {
    assert_eq!(trim("  180.5m \t\n"), "180.5m");
    assert_eq!(trim("\u{3000}\u{a0}x y\u{2029}"), "x y");
    assert_eq!(trim("   "), "");
    assert_eq!(trim(""), "");
    assert_eq!(trim("abc"), "abc");
}

#[test]
fn trim_agrees_with_std() {
    for s in ["\u{85}a\u{2000}", " \u{200b}b ", "\u{1680}c\u{205f}", "\u{0b}d\u{0c}"] {
        assert_eq!(trim(s), s.trim());
    }
}

#[test]
fn white_space_classes() {
    assert!(white_space(' '));
    assert!(white_space('\u{202f}'));
    assert!(!white_space('\u{200b}'));
    assert!(!white_space('m'));
}

#[test]
fn strip_suffix_cases() {
    assert_eq!(strip_suffix("180.5mm", "mm"), Some("180.5"));
    assert_eq!(strip_suffix("180.5m", "mm"), None);
    assert_eq!(strip_suffix("m", "mm"), None);
    assert_eq!(strip_suffix("mm", "mm"), Some(""));
    assert_eq!(strip_suffix("Ünïcode", "de"), Some("Ünïco"));
}
