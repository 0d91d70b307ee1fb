use ultramap::chars::{from_digit, is_whitespace, to_digit};
use ultramap::level::{is_valid_level, parse_level, push_level_token, MAX_LEVEL, MIN_LEVEL};

fn read(literal: &str) -> Option<i8> {
    let chars: Vec<char> = literal.chars().collect();
    parse_level(&chars)
}

fn token(level: i8) -> String {
    let mut out = String::new();
    push_level_token(&mut out, level);
    out
}

#[test]
fn white_space_is_what_the_standard_library_calls_so() {
    for code in 0..=0x10FFFFu32 {
        if let Some(c) = char::from_u32(code) {
            assert_eq!(is_whitespace(c), c.is_whitespace(), "U+{:04X}", code);
        }
    }
}

#[test]
fn white_space_examples() {
    assert!(is_whitespace(' '));
    assert!(is_whitespace('\n'));
    assert!(is_whitespace('\r'));
    assert!(is_whitespace('\t'));
    assert!(is_whitespace('\u{a0}'));
    assert!(is_whitespace('\u{3000}'));
    assert!(!is_whitespace('0'));
    assert!(!is_whitespace('('));
    assert!(!is_whitespace(')'));
    assert!(!is_whitespace('-'));
    assert!(!is_whitespace('\u{200b}'));
}

#[test]
fn digits_are_read_like_the_standard_library_reads_them() {
    for code in 0..=0x10FFFFu32 {
        if let Some(c) = char::from_u32(code) {
            let expected = c.to_digit(10).map(|d| d as i8);
            assert_eq!(to_digit(c), expected, "U+{:04X}", code);
        }
    }
}

#[test]
fn digit_examples() {
    assert_eq!(to_digit('0'), Some(0));
    assert_eq!(to_digit('7'), Some(7));
    assert_eq!(to_digit('9'), Some(9));
    assert_eq!(to_digit('a'), None);
    assert_eq!(to_digit('/'), None);
    assert_eq!(to_digit(':'), None);
    assert_eq!(to_digit('\u{661}'), None);
}

#[test]
fn digits_are_written_and_read_back() {
    for d in 0..10u8 {
        let c = from_digit(d);
        assert_eq!(Some(c), char::from_digit(d as u32, 10));
        assert_eq!(to_digit(c), Some(d as i8));
    }
}

#[test]
fn valid_levels_are_those_from_minus_fifty_to_fifty() {
    assert_eq!(MIN_LEVEL, -50);
    assert_eq!(MAX_LEVEL, 50);
    for level in i8::MIN..=i8::MAX {
        assert_eq!(is_valid_level(level), (-50..=50).contains(&level));
    }
}

#[test]
fn literals_at_the_ends_of_the_range() {
    assert_eq!(read("-50"), Some(-50));
    assert_eq!(read("50"), Some(50));
    assert_eq!(read("51"), None);
    assert_eq!(read("-51"), None);
    assert_eq!(read("127"), None);
    assert_eq!(read("128"), None);
    assert_eq!(read("-128"), None);
    assert_eq!(read("-129"), None);
}

#[test]
fn literals_with_signs_and_leading_zeros() {
    assert_eq!(read("5"), Some(5));
    assert_eq!(read("+5"), Some(5));
    assert_eq!(read("-5"), Some(-5));
    assert_eq!(read("-0"), Some(0));
    assert_eq!(read("+0"), Some(0));
    assert_eq!(read("007"), Some(7));
    assert_eq!(read("-012"), Some(-12));
    assert_eq!(read("00000000000000000000000000000000000050"), Some(50));
    assert_eq!(read("00000000000000000000000000000000000051"), None);
}

#[test]
fn texts_that_are_no_literals() {
    assert_eq!(read(""), None);
    assert_eq!(read("-"), None);
    assert_eq!(read("+"), None);
    assert_eq!(read("--1"), None);
    assert_eq!(read("+-1"), None);
    assert_eq!(read("1-"), None);
    assert_eq!(read("1a"), None);
    assert_eq!(read("a1"), None);
    assert_eq!(read(" 1"), None);
    assert_eq!(read("1 "), None);
    assert_eq!(read("1_0"), None);
    assert_eq!(read("1.0"), None);
    assert_eq!(read("(1"), None);
    assert_eq!(read("\u{661}"), None);
    assert_eq!(read("99999999999999999999999x"), None);
}

#[test]
fn literals_are_read_like_the_standard_library_reads_them() {
    let mut texts: Vec<String> = Vec::new();
    for value in -300..=300i32 {
        texts.push(format!("{}", value));
        texts.push(format!("+{}", value));
        texts.push(format!("{:04}", value));
        texts.push(format!("{}x", value));
        texts.push(format!(" {}", value));
    }
    for text in texts {
        let expected = text.parse::<i8>().ok().filter(|v| (-50..=50).contains(v));
        assert_eq!(read(&text), expected, "{:?}", text);
    }
}

#[test]
fn tokens_of_single_digits_are_bare() {
    assert_eq!(token(0), "0");
    assert_eq!(token(1), "1");
    assert_eq!(token(9), "9");
}

#[test]
fn tokens_of_other_levels_are_in_parentheses() {
    assert_eq!(token(10), "(10)");
    assert_eq!(token(50), "(50)");
    assert_eq!(token(-1), "(-1)");
    assert_eq!(token(-9), "(-9)");
    assert_eq!(token(-12), "(-12)");
    assert_eq!(token(-50), "(-50)");
    assert_eq!(token(99), "(99)");
    assert_eq!(token(100), "(100)");
    assert_eq!(token(127), "(127)");
    assert_eq!(token(-100), "(-100)");
    assert_eq!(token(-128), "(-128)");
}

#[test]
fn tokens_follow_the_length_of_the_decimal_text() {
    for level in i8::MIN..=i8::MAX {
        let text = level.to_string();
        let expected = if text.len() > 1 { format!("({})", text) } else { text };
        assert_eq!(token(level), expected);
    }
}

#[test]
fn token_is_added_after_what_is_there() {
    let mut out = String::from("ab");
    push_level_token(&mut out, -7);
    push_level_token(&mut out, 3);
    assert_eq!(out, "ab(-7)3");
}

#[test]
fn literal_of_every_level_reads_back() {
    for level in -50..=50i8 {
        assert_eq!(read(&level.to_string()), Some(level));
    }
}
