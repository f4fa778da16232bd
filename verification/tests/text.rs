use chapters::text::{chars_of, is_digit, is_whitespace, parse_u32, same_text, trim};

#[test]
fn whitespace_is_what_std_calls_whitespace() {
    let mut code: u32 = 0;
    while code <= 0x10FFFF {
        if let Some(c) = char::from_u32(code) {
            assert_eq!(is_whitespace(c), c.is_whitespace(), "code point {:#x}", code);
        }
        code += 1;
    }
}

#[test]
fn digits_are_the_ten_ascii_digits() {
    let mut code: u32 = 0;
    while code <= 0x10FFFF {
        if let Some(c) = char::from_u32(code) {
            assert_eq!(is_digit(c), c.is_ascii_digit(), "code point {:#x}", code);
        }
        code += 1;
    }
}

#[test]
fn chars_of_lists_the_characters_in_order() {
    assert_eq!(chars_of(""), Vec::<char>::new());
    assert_eq!(chars_of("a b"), vec!['a', ' ', 'b']);
    assert_eq!(chars_of("h\u{e9}\u{3000}!"), vec!['h', '\u{e9}', '\u{3000}', '!']);
}

#[test]
fn trim_removes_the_white_space_around_a_text() {
    assert_eq!(trim("  hello  "), "hello");
    assert_eq!(trim("hello\n"), "hello");
    assert_eq!(trim("\t\r\n hello world \x0b\x0c"), "hello world");
    assert_eq!(trim("\u{3000}stop\u{2003}\u{a0}"), "stop");
    assert_eq!(trim("\u{85}x\u{1680}"), "x");
}

#[test]
fn trim_keeps_inner_white_space() {
    assert_eq!(trim(" a  b\tc "), "a  b\tc");
}

#[test]
fn trim_of_blank_text_is_empty() {
    assert_eq!(trim(""), "");
    assert_eq!(trim(" "), "");
    assert_eq!(trim(" \t\r\n\u{2028}\u{2029}\u{202f}\u{205f}"), "");
}

#[test]
fn trim_leaves_a_trimmed_text_alone() {
    assert_eq!(trim("a"), "a");
    assert_eq!(trim("stop"), "stop");
    assert_eq!(trim("\u{200b}x\u{200b}"), "\u{200b}x\u{200b}");
    assert_eq!(trim("\u{180e}x"), "\u{180e}x");
}

#[test]
fn trim_agrees_with_std() {
    let samples = [
        "",
        " ",
        "x",
        " x",
        "x ",
        "  x y  ",
        "\n\n",
        "\u{2000}\u{2001}\u{2002}q\u{2003}\u{2004}\u{2005}",
        "\u{2006}\u{2007}\u{2008}\u{2009}\u{200a}",
        "\u{feff}w ",
        " \u{e9}t\u{e9} ",
        "42\r\n",
    ];
    for sample in samples {
        assert_eq!(trim(sample), sample.trim(), "sample {:?}", sample);
    }
}

#[test]
fn same_text_compares_character_by_character() {
    assert!(same_text("", ""));
    assert!(same_text("stop", "stop"));
    assert!(!same_text("stop", "stop "));
    assert!(!same_text("stop", "Stop"));
    assert!(!same_text("stop", "sto"));
    assert!(!same_text("", "a"));
    assert!(same_text("h\u{e9}", "h\u{e9}"));
    assert!(!same_text("abcd", "abce"));
}

#[test]
fn parse_u32_reads_decimal_numbers() {
    assert_eq!(parse_u32("0"), Some(0));
    assert_eq!(parse_u32("7"), Some(7));
    assert_eq!(parse_u32("42"), Some(42));
    assert_eq!(parse_u32("100"), Some(100));
    assert_eq!(parse_u32("1234567890"), Some(1234567890));
}

#[test]
fn parse_u32_accepts_one_plus_sign_and_leading_zeros() {
    assert_eq!(parse_u32("+7"), Some(7));
    assert_eq!(parse_u32("007"), Some(7));
    assert_eq!(parse_u32("+000"), Some(0));
    assert_eq!(parse_u32("000000000000000000004294967295"), Some(4294967295));
}

#[test]
fn parse_u32_knows_the_largest_number() {
    assert_eq!(parse_u32("4294967295"), Some(u32::MAX));
    assert_eq!(parse_u32("4294967296"), None);
    assert_eq!(parse_u32("4294967300"), None);
    assert_eq!(parse_u32("42949672950"), None);
    assert_eq!(parse_u32("99999999999999999999999999"), None);
}

#[test]
fn parse_u32_refuses_what_is_no_number() {
    assert_eq!(parse_u32(""), None);
    assert_eq!(parse_u32("+"), None);
    assert_eq!(parse_u32("-"), None);
    assert_eq!(parse_u32("-1"), None);
    assert_eq!(parse_u32("++1"), None);
    assert_eq!(parse_u32("1+"), None);
    assert_eq!(parse_u32(" 1"), None);
    assert_eq!(parse_u32("1 "), None);
    assert_eq!(parse_u32("4 2"), None);
    assert_eq!(parse_u32("1_000"), None);
    assert_eq!(parse_u32("12a"), None);
    assert_eq!(parse_u32("abc"), None);
    assert_eq!(parse_u32("1.5"), None);
    assert_eq!(parse_u32("0x10"), None);
    assert_eq!(parse_u32("\u{661}\u{662}"), None);
    assert_eq!(parse_u32("\u{ff11}"), None);
}

#[test]
fn parse_u32_agrees_with_std() {
    let samples = [
        "", "0", "+0", "-0", "1", "+1", "+", "++", "+-1", "10", "010", "99", "100", "101",
        "4294967294", "4294967295", "4294967296", "5000000000", "18446744073709551616", "a",
        "1a", "a1", " 5", "5 ", "5\n", "+ 5", "1e3", "\u{663}", "/", ":", "09", "9/",
    ];
    for sample in samples {
        assert_eq!(parse_u32(sample), sample.parse::<u32>().ok(), "sample {:?}", sample);
    }
}
