use aura::text::{
    concat_str, contains_char, contains_str, join_strings, lines_of, replace_str, starts_with_str,
    str_equal,
};

#[test]
fn lines_like_std() {
    for s in ["", "a", "a\n", "a\r\nb", "a\rb\n", "\n\n", "x\r", "one\ntwo\r\n\r\nthree"] {
        let expected: Vec<String> = s.lines().map(|l| l.to_string()).collect();
        assert_eq!(lines_of(s), expected, "input {:?}", s);
    }
}

#[test]
fn replace_like_std() {
    for s in ["http://a/http://b", "xhttp://", "http:/http://", "", "hhttp://x"] {
        assert_eq!(replace_str(s, "http://", "https://"), s.replace("http://", "https://"));
    }
    assert_eq!(replace_str("aaa", "aa", "b"), "ba");
}

#[test]
fn join_and_search() {
    let parts = vec!["a".to_string(), "b".to_string(), "c".to_string()];
    assert_eq!(join_strings(&parts, ", "), "a, b, c");
    assert_eq!(join_strings(&vec![], ", "), "");
    assert!(contains_char("a b", ' '));
    assert!(!contains_char("ab", ' '));
    assert!(contains_str("x://y", "://"));
    assert!(contains_str("abc", ""));
    assert!(!contains_str("ab", "abc"));
    assert!(starts_with_str("localhost:3000", "localhost"));
    assert!(!starts_with_str("local", "localhost"));
    assert!(str_equal("http", "http"));
    assert!(!str_equal("http", "https"));
    assert_eq!(concat_str("a", "b"), "ab");
}

#[test]
fn whitespace_like_std() {
    for v in 0u32..=0x10FFFF {
        if let Some(c) = char::from_u32(v) {
            assert_eq!(aura::text::is_whitespace(c), c.is_whitespace(), "char {:#x}", v);
        }
    }
}
