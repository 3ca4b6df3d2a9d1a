use hdd::text::{same_text, split_whitespace, starts_with};

#[test]
fn prefixes() {
    assert!(starts_with("DEVTYPE=disk", "DEVTYPE="));
    assert!(starts_with("abc", ""));
    assert!(starts_with("abc", "abc"));
    assert!(!starts_with("abc", "abcd"));
    assert!(!starts_with("abc", "b"));
    assert!(!starts_with("", "a"));
    assert!(starts_with("", ""));
    assert!(starts_with("µm", "µ"));
}

#[test]
fn equal_texts() {
    assert!(same_text("", ""));
    assert!(same_text("-v", "-v"));
    assert!(!same_text("-v", "-vv"));
    assert!(!same_text("-vv", "-v"));
    assert!(!same_text("-v", "-x"));
}

#[test]
fn words_of_a_line() {
    assert_eq!(split_whitespace(""), Vec::<String>::new());
    assert_eq!(split_whitespace("  \t "), Vec::<String>::new());
    assert_eq!(split_whitespace("one"), vec!["one".to_string()]);
    assert_eq!(
        split_whitespace("  one two\tthree\n"),
        vec!["one".to_string(), "two".to_string(), "three".to_string()]
    );
    assert_eq!(
        split_whitespace("a\u{a0}b\u{2028}c\u{200b}d"),
        vec!["a".to_string(), "b".to_string(), "c\u{200b}d".to_string()]
    );
}

#[test]
fn words_agree_with_the_standard_library() {
    for line in ["", " ", "a", " a  b ", "-v 1,raw48 -x foo", "\u{1680}x\u{85}y\u{feff}z \u{180e}"] {
        let expected: Vec<String> = line.split_whitespace().map(|w| w.to_string()).collect();
        assert_eq!(split_whitespace(line), expected);
    }
}
