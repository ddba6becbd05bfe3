use korlap::keyed::KeyedVec;
use korlap::text::{
    chars_of, find_seq, lines_from, str_contains, str_starts_with, string_of_range,
};

#[test]
fn keyed_values_replace_and_remove() {
    let mut m: KeyedVec<u32> = KeyedVec::new();
    assert!(!m.contains("a"));
    m.insert("a".to_string(), 1);
    m.insert("b".to_string(), 2);
    m.insert("a".to_string(), 3);
    assert!(m.contains("a"));
    assert_eq!(m.remove("a"), Some(3));
    assert_eq!(m.remove("a"), None);
    assert_eq!(m.remove("b"), Some(2));
    assert!(!m.contains("b"));
}

#[test]
fn searching_characters() {
    let hay = chars_of("abcabc");
    assert_eq!(find_seq(&hay, &chars_of("ca"), 0), Some(2));
    assert_eq!(find_seq(&hay, &chars_of("bc"), 2), Some(4));
    assert_eq!(find_seq(&hay, &chars_of("x"), 0), None);
    assert_eq!(find_seq(&hay, &chars_of(""), 3), Some(3));
    assert!(str_contains("UNIQUE constraint failed: x", "constraint"));
    assert!(!str_contains("abc", "abcd"));
    assert!(str_starts_with("[1,2]", "["));
    assert!(!str_starts_with("", "["));
}

#[test]
fn trimming_and_lines() {
    let v = chars_of("one\r\ntwo\n\nthree");
    assert_eq!(lines_from(&v, 0), vec!["one", "two", "", "three"]);
    assert_eq!(lines_from(&chars_of("a\n"), 0), vec!["a"]);
    assert!(lines_from(&chars_of(""), 0).is_empty());
    assert_eq!(string_of_range(&chars_of("héllo"), 1, 3), "él");
}
