use css2mp4_core::text::{decimal_string, ends_with, replace_char, text_eq, to_ascii_lowercase};

#[test]
fn lowercasing_ascii_only() {
    assert_eq!(to_ascii_lowercase("WebM-É"), "webm-É");
}

#[test]
fn text_equality() {
    assert!(text_eq("mp4", "mp4"));
    assert!(!text_eq("mp4", "mp3"));
    assert!(!text_eq("mp4", "mp44"));
}

#[test]
fn suffixes() {
    assert!(ends_with("a.webm", ".webm"));
    assert!(!ends_with("webm", ".webm"));
    assert!(ends_with("x", ""));
}

#[test]
fn decimals() {
    assert_eq!(decimal_string(0), "0");
    assert_eq!(decimal_string(60), "60");
    assert_eq!(decimal_string(u64::MAX), u64::MAX.to_string());
}

#[test]
fn char_replacement() {
    assert_eq!(replace_char("a\\b\\c", '\\', '/'), "a/b/c");
}
