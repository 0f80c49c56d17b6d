use trans_core::text::{decimal_string, eq_ignore_ascii_case, is_blank, join, same_text, trim, white_space};

#[test]
fn trim_drops_surrounding_white_space() {
    assert_eq!(trim("  kata \t\n"), "kata");
    assert_eq!(trim("\u{3000}kata\u{a0}"), "kata");
    assert_eq!(trim("a b"), "a b");
    assert_eq!(trim("   "), "");
    assert_eq!(trim(""), "");
}

#[test]
fn white_space_matches_std() {
    for c in ['\t', '\n', ' ', '\u{85}', '\u{a0}', '\u{1680}', '\u{2000}', '\u{200a}', '\u{2028}', '\u{2029}', '\u{202f}', '\u{205f}', '\u{3000}', 'a', '\u{200b}', '\u{feff}', '0'] {
        assert_eq!(white_space(c), c.is_whitespace(), "{:?}", c);
    }
}

#[test]
fn blank_lines() {
    assert!(is_blank(""));
    assert!(is_blank(" \t\r"));
    assert!(!is_blank(" x "));
}

#[test]
fn ascii_case_insensitive_equality() {
    assert!(eq_ignore_ascii_case("Rumah", "rUMAH"));
    assert!(!eq_ignore_ascii_case("Ärger", "ärger"));
    assert!(!eq_ignore_ascii_case("rumah", "rumahku"));
    assert!(eq_ignore_ascii_case("", ""));
}

#[test]
fn join_with_separator() {
    let parts = vec!["a".to_string(), "b".to_string(), "c".to_string()];
    assert_eq!(join(&parts, ", "), "a, b, c");
    assert_eq!(join(&vec!["solo".to_string()], ", "), "solo");
    assert_eq!(join(&vec![], ", "), "");
}

#[test]
fn decimal_notation() {
    assert_eq!(decimal_string(0), "0");
    assert_eq!(decimal_string(7), "7");
    assert_eq!(decimal_string(10), "10");
    assert_eq!(decimal_string(1204), "1204");
    assert_eq!(decimal_string(usize::MAX), usize::MAX.to_string());
}

#[test]
fn text_equality() {
    assert!(same_text("kata", "kata"));
    assert!(!same_text("kata", "Kata"));
}

#[test]
fn trimming_twice_is_trimming_once() {
    let once = trim("\u{3000} kata \t\n");
    assert_eq!(once, "kata");
    assert_eq!(trim(&once), once);
}
