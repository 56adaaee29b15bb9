use droppa::decimal::{push_decimal, read_size, to_digit};
use droppa::text::{chars_of, contains_text, find_chars, matches_at, push_chars, push_text};

#[test]
fn sizes_are_read() {
    assert_eq!(read_size("0"), Some(0));
    assert_eq!(read_size("7"), Some(7));
    assert_eq!(read_size("1048576"), Some(1_048_576));
    assert_eq!(read_size("+5"), Some(5));
    assert_eq!(read_size("007"), Some(7));
    assert_eq!(read_size(&usize::MAX.to_string()), Some(usize::MAX));
}

#[test]
fn other_texts_are_not_sizes() {
    assert_eq!(read_size(""), None);
    assert_eq!(read_size("+"), None);
    assert_eq!(read_size("-1"), None);
    assert_eq!(read_size("++1"), None);
    assert_eq!(read_size("1+"), None);
    assert_eq!(read_size(" 1"), None);
    assert_eq!(read_size("1 "), None);
    assert_eq!(read_size("1.5"), None);
    assert_eq!(read_size("12a"), None);
    assert_eq!(read_size("\u{661}\u{662}"), None);
    assert_eq!(read_size("18446744073709551616"), None);
    assert_eq!(read_size("99999999999999999999999999"), None);
}

#[test]
fn reading_agrees_with_the_standard_parser() {
    for text in ["0", "10", "+10", "-0", "", "+", "0x10", "4294967296", "1e3", "00"] {
        assert_eq!(read_size(text), text.parse::<usize>().ok());
    }
}

#[test]
fn numbers_are_written_without_leading_zeros() {
    for value in [0usize, 5, 9, 10, 99, 100, 1_048_576, usize::MAX] {
        let mut out = vec!['x'];
        push_decimal(&mut out, value);
        let text: String = out.iter().collect();
        assert_eq!(text, format!("x{}", value));
        assert_eq!(read_size(&text[1..]), Some(value));
    }
    assert_eq!(to_digit(0), '0');
    assert_eq!(to_digit(9), '9');
}

#[test]
fn text_is_searched_by_characters() {
    let hay = chars_of("h\u{e9}llo w\u{f6}rld");
    assert_eq!(hay.len(), 11);
    assert_eq!(find_chars(&hay, &chars_of("llo")), Some(2));
    assert_eq!(find_chars(&hay, &chars_of("w\u{f6}")), Some(6));
    assert_eq!(find_chars(&hay, &chars_of("")), Some(0));
    assert_eq!(find_chars(&hay, &chars_of("worlds")), None);
    assert_eq!(find_chars(&chars_of(""), &chars_of("a")), None);
    assert_eq!(find_chars(&chars_of("aab"), &chars_of("ab")), Some(1));
    assert!(matches_at(&hay, &chars_of("rld"), 8));
    assert!(!matches_at(&hay, &chars_of("rld"), 9));
    assert!(!matches_at(&hay, &chars_of("rld"), 100));
    assert!(contains_text(&hay, "o w"));
    assert!(!contains_text(&hay, "ow"));
}

#[test]
fn text_is_appended() {
    let mut out = chars_of("ab");
    push_text(&mut out, "c\u{e9}");
    push_chars(&mut out, &vec!['!', '?']);
    assert_eq!(out, vec!['a', 'b', 'c', '\u{e9}', '!', '?']);
}
