//! Operations on text.
use g3::text::{
    blank, char_is_white_space, chars_of, decimal_string, find_chars, has, has_char, has_ended, has_name, holds,
    last_index_of, lines_of, parse_u32, push_repeated, same, skip_bytes, string_of, take_text, trim,
};

fn samples() -> Vec<&'static str> {
    vec![
        "",
        " ",
        "a",
        "  a b  ",
        "\u{2003}wide\u{3000}",
        "\u{feff}mark\u{200b}",
        "line one\nline two\r\nline three",
        "\n",
        "\r\n",
        "\n\n",
        "ends\n",
        "ends\r",
        "a\rb\n\rc",
        "\u{1F4CB} plan",
    ]
}

#[test]
fn white_space_is_what_the_standard_library_says() {
    let mut n: u32 = 0;
    while n <= 0x10ffff {
        if let Some(c) = char::from_u32(n) {
            assert_eq!(char_is_white_space(c), c.is_whitespace(), "{:?}", c);
        }
        n += 1;
    }
}

#[test]
fn trimming_and_blankness_agree_with_the_standard_library() {
    for s in samples() {
        assert_eq!(trim(s), s.trim());
        assert_eq!(blank(s), s.trim().is_empty());
        assert_eq!(trim(&trim(s)), trim(s));
    }
}

#[test]
fn lines_agree_with_the_standard_library() {
    for s in samples() {
        let expected: Vec<&str> = s.lines().collect();
        assert_eq!(lines_of(s), expected);
    }
}

#[test]
fn numbers_are_read_as_the_standard_library_reads_them() {
    for s in [
        "", "0", "7", "42", "+42", "-1", "++1", "+", "007", "4294967295", "4294967296",
        "99999999999999999999", "1a", " 1", "1 ", "\u{0661}",
    ] {
        let v = chars_of(s);
        assert_eq!(parse_u32(&v, 0, v.len()), s.parse::<u32>().ok(), "{:?}", s);
    }
    assert_eq!(parse_u32(&chars_of("x12y"), 1, 3), Some(12));
}

#[test]
fn numbers_are_written_in_decimal() {
    for n in [0u64, 9, 10, 99, 100, 4294967295, u64::MAX] {
        assert_eq!(decimal_string(n), n.to_string());
    }
}

#[test]
fn searching_finds_the_first_and_the_last() {
    let v = chars_of("a::b::c");
    assert_eq!(find_chars(&v, &chars_of("::")), Some(1));
    assert_eq!(find_chars(&v, &chars_of("c")), Some(6));
    assert_eq!(find_chars(&v, &chars_of("d")), None);
    assert_eq!(find_chars(&v, &chars_of("")), Some(0));
    assert_eq!(find_chars(&chars_of(""), &chars_of("")), Some(0));
    assert_eq!(last_index_of(&v, ':'), Some(5));
    assert_eq!(last_index_of(&v, 'z'), None);
    assert!(has("fn test_x() {}", "fn test_x"));
    assert!(!has("fn", "fn "));
    assert!(has_char(&v, 'b'));
    assert!(!has_char(&v, 'z'));
    assert_eq!(string_of(&v, 3, 4), "b");
    assert!(same("a", "a"));
    assert!(!same("a", "A"));
}

#[test]
fn bytes_are_skipped_up_to_a_character() {
    assert_eq!(skip_bytes("?? a.txt", 3), Some("a.txt".to_string()));
    assert_eq!(skip_bytes("abc", 3), Some(String::new()));
    assert_eq!(skip_bytes("ab", 3), None);
    assert_eq!(skip_bytes("\u{e9}xy", 2), Some("xy".to_string()));
    assert_eq!(skip_bytes("\u{e9}xy", 1), None);
    assert_eq!(skip_bytes("\u{1F4CB}!", 4), Some("!".to_string()));
    assert_eq!(skip_bytes("\u{20ac}!", 3), Some("!".to_string()));
}

#[test]
fn copies_are_appended() {
    let mut out = "-".to_string();
    push_repeated(&mut out, "ab", 3);
    assert_eq!(out, "-ababab");
    push_repeated(&mut out, "x", 0);
    assert_eq!(out, "-ababab");
}

#[test]
fn a_list_holds_what_is_in_it() {
    let list = vec!["a".to_string(), "b".to_string()];
    assert!(holds(&list, &"b".to_string()));
    assert!(!holds(&list, &"c".to_string()));
}

#[test]
fn names_are_told_from_longer_names() {
    assert!(has_ended("my_test", "test"));
    assert!(!has_ended("tests", "test"));
    assert!(has_ended("tests test", "test"));
    assert!(!has_name("my_test", "test"));
    assert!(has_name("(test)", "test"));
    assert!(has_name("test", "test"));
    assert!(!has_name("test1", "test"));
    assert!(!has_name("test\u{e9}", "test"));
    assert!(has_name("test\u{2014}", "test"));
    assert!(!has_name("tes", "test"));
    assert!(has_name("", ""));
}

#[test]
fn text_is_taken_off_bytes() {
    let mut bytes = "a\u{e9}".as_bytes().to_vec();
    assert_eq!(take_text(&mut bytes), Some("a\u{e9}".to_string()));
    assert!(bytes.is_empty());
    assert_eq!(take_text(&mut bytes), None);
    let mut bytes = vec![b'a', b'b', 0xff, b'c'];
    assert_eq!(take_text(&mut bytes), Some("ab".to_string()));
    assert_eq!(bytes, vec![0xff, b'c']);
    assert_eq!(take_text(&mut bytes), None);
    assert_eq!(bytes, vec![0xff, b'c']);
}
