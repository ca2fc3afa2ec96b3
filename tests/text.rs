use backend::text::{find_first, same_text, strip_suffixes_text, trim_text};

#[test]
fn trim_removes_unicode_white_space() {
    assert_eq!(trim_text("\u{3000}\t abc d \u{A0}\n"), "abc d");
    assert_eq!(trim_text("   "), "");
    assert_eq!(trim_text(""), "");
    assert_eq!(trim_text("x"), "x");
}

#[test]
fn strip_removes_every_trailing_copy() {
    assert_eq!(strip_suffixes_text("/api/tracks///", "/"), "/api/tracks");
    assert_eq!(strip_suffixes_text("a.wav.wav", ".wav"), "a");
    assert_eq!(strip_suffixes_text(".wav", ".wav"), "");
    assert_eq!(strip_suffixes_text("a.wav ", ".wav"), "a.wav ");
}

#[test]
fn find_gives_leftmost_position_in_characters() {
    assert_eq!(find_first("é - x - y", " - "), Some(1));
    assert_eq!(find_first("abc", " - "), None);
    assert_eq!(find_first("abc", ""), Some(0));
    assert!(same_text("SYM1", "SYM1"));
    assert!(!same_text("SYM1", "SYM"));
}
