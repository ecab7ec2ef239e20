use beacon_probe::strings::{replace_all, split_char, str_eq, trim_trailing};

#[test]
fn equality_compares_characters() {
    assert!(str_eq("abc", "abc"));
    assert!(!str_eq("abc", "abd"));
    assert!(!str_eq("abc", "ab"));
    assert!(str_eq("", ""));
}

#[test]
fn trimming_removes_only_trailing_separators() {
    assert_eq!(trim_trailing("/api//", '/'), "/api");
    assert_eq!(trim_trailing("/", '/'), "");
    assert_eq!(trim_trailing("/a/b", '/'), "/a/b");
}

#[test]
fn splitting_keeps_empty_pieces() {
    assert_eq!(split_char("/a/b", '/'), vec!["", "a", "b"]);
    assert_eq!(split_char("a//b/", '/'), vec!["a", "", "b", ""]);
    assert_eq!(split_char("", '/'), vec![""]);
}

#[test]
fn replacement_scans_left_to_right_without_overlap() {
    assert_eq!(replace_all("x%7Bid%7Dy%7Bid%7D", "%7Bid%7D", "42"), "x42y42");
    assert_eq!(replace_all("aaa", "aa", "b"), "ba");
    assert_eq!(replace_all("abc", "", "z"), "abc");
    assert_eq!(replace_all("abc", "d", "z"), "abc");
}
