use modelcheck::text::{
    after_last, chars_of, char_is_white_space, contains, find, list_contains, replace_all,
    starts_with, str_eq, trim, trim_end, trim_start,
};

#[test]
fn trim_removes_unicode_white_space() {
    assert_eq!(trim(" \t hi there \n"), "hi there");
    assert_eq!(trim("\u{3000}x\u{2009}"), "x");
    assert_eq!(trim("   "), "");
    assert_eq!(trim_start("  a b "), "a b ");
    assert_eq!(trim_end("  a b "), "  a b");
}

#[test]
fn white_space_matches_std() {
    for c in ['\t', '\n', ' ', '\u{85}', '\u{a0}', '\u{1680}', '\u{2000}', '\u{200a}', '\u{2028}', '\u{3000}', 'a', '\u{200b}', '_'] {
        assert_eq!(char_is_white_space(c), c.is_whitespace(), "{:?}", c);
    }
}

#[test]
fn find_counts_characters() {
    assert_eq!(find("héllo</think>x", "</think>"), Some(5));
    assert_eq!(find("abc", "d"), None);
    assert_eq!(find("abc", ""), Some(0));
    assert!(contains("a<think>b", "<think>"));
    assert!(!contains("a<thin", "<think>"));
}

#[test]
fn replace_all_replaces_every_match() {
    assert_eq!(replace_all("past_key_values.0.key", "past_", "present_"), "present_key_values.0.key");
    assert_eq!(replace_all("past_key_values.0.key", "past_key_values", "present"), "present.0.key");
    assert_eq!(replace_all("aaa", "aa", "b"), "ba");
    assert_eq!(replace_all("xyz", "q", "r"), "xyz");
}

#[test]
fn after_last_takes_last_piece() {
    assert_eq!(after_last("https://h/a/b/model.onnx", '/'), "model.onnx");
    assert_eq!(after_last("file", '/'), "file");
    assert_eq!(after_last("dir/", '/'), "");
}

#[test]
fn string_helpers() {
    assert!(starts_with("past_key", "past_"));
    assert!(!starts_with("pas", "past_"));
    assert!(str_eq("abc", "abc"));
    assert!(!str_eq("abc", "abd"));
    assert_eq!(chars_of("hé"), vec!['h', 'é']);
    let v = vec!["a".to_string(), "bc".to_string()];
    assert!(list_contains(&v, "bc"));
    assert!(!list_contains(&v, "b"));
}
