use custom_http_server::text::{
    chars_of, decimal_string, digit_to_char, find_char, is_whitespace, signed_decimal_string,
    split, string_of, trim_bounds, Lines,
};

#[test]
fn chars_and_back() {
    let chars = chars_of("a\u{e9}z");
    assert_eq!(chars, vec!['a', '\u{e9}', 'z']);
    assert_eq!(string_of(&chars, 0, 3), "a\u{e9}z");
    assert_eq!(string_of(&chars, 1, 2), "\u{e9}");
    assert_eq!(string_of(&chars, 2, 2), "");
    assert_eq!(chars_of(""), Vec::<char>::new());
}

#[test]
fn whitespace_is_what_trim_removes() {
    for c in ['\t', '\n', '\u{b}', '\u{c}', '\r', ' ', '\u{85}', '\u{a0}', '\u{1680}', '\u{2000}',
        '\u{200a}', '\u{2028}', '\u{2029}', '\u{202f}', '\u{205f}', '\u{3000}']
    {
        assert!(is_whitespace(c), "{:?}", c);
    }
    for c in ['a', '0', ':', '\u{8}', '\u{e}', '\u{200b}', '\u{1f}', '\u{feff}', '\u{0}'] {
        assert!(!is_whitespace(c), "{:?}", c);
    }
    for code in 0u32..0x3100 {
        if let Some(c) = char::from_u32(code) {
            assert_eq!(is_whitespace(c), c.is_whitespace(), "{:?}", c);
        }
    }
}

#[test]
fn trim_bounds_match_trim() {
    for text in ["", " ", "   ", "a", " a", "a ", "  a b  ", "\t a\r\n", "\u{3000}x\u{a0}", "a  b"] {
        let chars = chars_of(text);
        let (a, b) = trim_bounds(&chars, 0, chars.len());
        assert_eq!(string_of(&chars, a, b), text.trim(), "{:?}", text);
    }
    let chars = chars_of("ab  cd  ef");
    assert_eq!(trim_bounds(&chars, 2, 8), (4, 6));
    assert_eq!(trim_bounds(&chars, 2, 4), (4, 4));
}

#[test]
fn find_char_gives_first_index() {
    let chars = chars_of("a:b:c");
    assert_eq!(find_char(&chars, 0, ':'), 1);
    assert_eq!(find_char(&chars, 1, ':'), 1);
    assert_eq!(find_char(&chars, 2, ':'), 3);
    assert_eq!(find_char(&chars, 4, ':'), 5);
    assert_eq!(find_char(&chars, 5, ':'), 5);
    assert_eq!(find_char(&chars, 0, 'x'), 5);
}

#[test]
fn split_keeps_empty_pieces() {
    assert_eq!(split("GET /index HTTP/1.1", ' '), vec!["GET", "/index", "HTTP/1.1"]);
    assert_eq!(split("", ' '), vec![""]);
    assert_eq!(split(" ", ' '), vec!["", ""]);
    assert_eq!(split("a  b", ' '), vec!["a", "", "b"]);
    assert_eq!(split("a b ", ' '), vec!["a", "b", ""]);
    assert_eq!(split("abc", ' '), vec!["abc"]);
    for text in ["x y z", "  ", "one", " lead", "trail ", "a\u{e9} b"] {
        let expected: Vec<String> = text.split(' ').map(String::from).collect();
        assert_eq!(split(text, ' '), expected);
    }
}

fn all_lines(text: &str) -> Vec<String> {
    let mut lines = Lines::new(text);
    let mut out = Vec::new();
    while let Some(line) = lines.next_line() {
        out.push(line);
    }
    assert!(lines.is_exhausted());
    assert_eq!(lines.next_line(), None);
    out
}

#[test]
fn lines_end_at_line_feeds() {
    assert_eq!(all_lines(""), Vec::<String>::new());
    assert_eq!(all_lines("a"), vec!["a"]);
    assert_eq!(all_lines("a\n"), vec!["a"]);
    assert_eq!(all_lines("a\nb"), vec!["a", "b"]);
    assert_eq!(all_lines("a\n\nb\n"), vec!["a", "", "b"]);
    assert_eq!(all_lines("\n"), vec![""]);
    assert_eq!(all_lines("a\r\nb\r\n"), vec!["a", "b"]);
    assert_eq!(all_lines("a\r\n\r\n"), vec!["a", ""]);
    assert_eq!(all_lines("a\rb\n"), vec!["a\rb"]);
    assert_eq!(all_lines("a\r"), vec!["a\r"]);
    assert_eq!(all_lines("a\r\r\n"), vec!["a\r"]);
    for text in ["x\ny\r\nz", "\r\n\r\n", "one\n\ntwo\r", "\n\n\n", "end\r\n"] {
        let expected: Vec<String> = text.lines().map(String::from).collect();
        assert_eq!(all_lines(text), expected, "{:?}", text);
    }
}

#[test]
fn take_rest_gives_what_is_left() {
    let mut lines = Lines::new("first\nsecond\nthird\n");
    assert!(!lines.is_exhausted());
    assert_eq!(lines.next_line(), Some(String::from("first")));
    assert_eq!(lines.take_rest(), "second\nthird\n");
    assert!(lines.is_exhausted());
    assert_eq!(lines.take_rest(), "");
}

#[test]
fn decimal_text_of_numbers() {
    assert_eq!(decimal_string(0), "0");
    assert_eq!(decimal_string(7), "7");
    assert_eq!(decimal_string(10), "10");
    assert_eq!(decimal_string(1024), "1024");
    assert_eq!(decimal_string(u64::MAX), "18446744073709551615");
    assert_eq!(signed_decimal_string(0), "0");
    assert_eq!(signed_decimal_string(200), "200");
    assert_eq!(signed_decimal_string(-1), "-1");
    assert_eq!(signed_decimal_string(-450), "-450");
    assert_eq!(signed_decimal_string(i64::MAX), "9223372036854775807");
    assert_eq!(signed_decimal_string(i64::MIN), "-9223372036854775808");
    for d in 0u8..10 {
        assert_eq!(digit_to_char(d), char::from(b'0' + d));
    }
}
