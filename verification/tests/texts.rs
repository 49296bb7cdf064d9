use devtools::text::{
    append_all, chars_of, contains, decimal, ends_with, glued, joined, matches_at, parse_i32,
    same_text, split, starts_with,
};

#[test]
fn chars_are_kept_in_order() {
    assert_eq!(chars_of(""), Vec::<char>::new());
    assert_eq!(chars_of("aé:b"), vec!['a', 'é', ':', 'b']);
}

#[test]
fn pattern_is_matched_at_a_place() {
    let text = chars_of("abcabc");
    let pat = chars_of("bc");
    assert!(!matches_at(&text, &pat, 0));
    assert!(matches_at(&text, &pat, 1));
    assert!(matches_at(&text, &pat, 4));
    assert!(matches_at(&text, &chars_of(""), 6));
}

#[test]
fn contains_finds_a_pattern_anywhere() {
    assert!(contains("public-attrib", "-attrib"));
    assert!(contains("public-attrib", "public"));
    assert!(contains("abc", ""));
    assert!(contains("", ""));
    assert!(contains("abc", "abc"));
    assert!(contains("aab", "ab"));
    assert!(!contains("abc", "abcd"));
    assert!(!contains("abc", "ca"));
    assert!(!contains("", "a"));
    assert!(contains("héllo wörld", "o wö"));
}

#[test]
fn prefixes_and_suffixes() {
    assert!(starts_with("m_count", "m_"));
    assert!(!starts_with("count", "m_"));
    assert!(!starts_with("m", "m_"));
    assert!(starts_with("m_", "m_"));
    assert!(starts_with("x", ""));
    assert!(ends_with("class_a.xml", ".xml"));
    assert!(!ends_with("class_a.xml2", ".xml"));
    assert!(!ends_with("ml", ".xml"));
    assert!(ends_with("", ""));
}

#[test]
fn texts_are_compared_whole() {
    assert!(same_text("inout", "inout"));
    assert!(!same_text("inout", "in"));
    assert!(!same_text("in", "inout"));
    assert!(!same_text("in", "iN"));
    assert!(same_text("", ""));
}

#[test]
fn texts_are_joined() {
    assert_eq!(joined("ab", "cd"), "abcd");
    assert_eq!(joined("", ""), "");
}

#[test]
fn numbers_are_written_in_decimal() {
    assert_eq!(decimal(0), "0");
    assert_eq!(decimal(7), "7");
    assert_eq!(decimal(10), "10");
    assert_eq!(decimal(1234567890), "1234567890");
    assert_eq!(decimal(-1), "-1");
    assert_eq!(decimal(-2), "-2");
    assert_eq!(decimal(i32::MAX), "2147483647");
    assert_eq!(decimal(i32::MIN), "-2147483648");
    for n in [-100_001, -999, -10, 9, 99, 100, 101, 65_536] {
        assert_eq!(decimal(n), n.to_string());
    }
}

#[test]
fn texts_are_glued_in_order() {
    assert_eq!(glued(&vec![]), "");
    assert_eq!(glued(&vec!["a"]), "a");
    assert_eq!(glued(&vec!["Class ", "Ab", "", " has"]), "Class Ab has");
}

#[test]
fn texts_are_appended_in_order() {
    let mut text = String::from("x");
    append_all(&mut text, &vec![]);
    assert_eq!(text, "x");
    append_all(&mut text, &vec!["<", "é", ">"]);
    assert_eq!(text, "x<é>");
}

#[test]
fn integers_are_read_from_decimal() {
    assert_eq!(parse_i32("0"), Some(0));
    assert_eq!(parse_i32("12"), Some(12));
    assert_eq!(parse_i32("+12"), Some(12));
    assert_eq!(parse_i32("-12"), Some(-12));
    assert_eq!(parse_i32("007"), Some(7));
    assert_eq!(parse_i32("-0"), Some(0));
    assert_eq!(parse_i32("2147483647"), Some(i32::MAX));
    assert_eq!(parse_i32("-2147483648"), Some(i32::MIN));
    assert_eq!(parse_i32("2147483648"), None);
    assert_eq!(parse_i32("-2147483649"), None);
    assert_eq!(parse_i32("99999999999999999999999999"), None);
    assert_eq!(parse_i32(""), None);
    assert_eq!(parse_i32("-"), None);
    assert_eq!(parse_i32("+"), None);
    assert_eq!(parse_i32("+-1"), None);
    assert_eq!(parse_i32(" 1"), None);
    assert_eq!(parse_i32("1 "), None);
    assert_eq!(parse_i32("1a"), None);
    assert_eq!(parse_i32("a1"), None);
    assert_eq!(parse_i32("１"), None);
    assert_eq!(parse_i32("1.0"), None);
}

#[test]
fn reading_agrees_with_the_standard_library() {
    for text in ["5", "-5", "+5", "00", "--5", "2147483647", "2147483648", "-2147483648", "x", "", "1_0", "0x10"] {
        assert_eq!(parse_i32(text), text.parse::<i32>().ok(), "{text:?}");
    }
    for n in [i32::MIN, -1000, -1, 0, 1, 999, i32::MAX] {
        assert_eq!(parse_i32(&decimal(n)), Some(n));
    }
}

#[test]
fn text_is_parted_at_every_separator() {
    assert_eq!(split("a,b,c", ','), vec!["a", "b", "c"]);
    assert_eq!(split("abc", ','), vec!["abc"]);
    assert_eq!(split("", ','), vec![""]);
    assert_eq!(split(",", ','), vec!["", ""]);
    assert_eq!(split(",a,,b,", ','), vec!["", "a", "", "b", ""]);
    assert_eq!(split("é è", ' '), vec!["é", "è"]);
    for text in ["", " ", "a b", "  a  ", "x y z ", "ab"] {
        let expected: Vec<&str> = text.split(' ').collect();
        assert_eq!(split(text, ' '), expected);
    }
}
