use rust_basics::decimal::{decimal_text, is_digit_char, parse_u32_at};
use rust_basics::text::{chars_of, is_white_char, trim_bounds};

#[test]
fn white_space_agrees_with_std() {
    for code in 0u32..0x3100 {
        if let Some(c) = char::from_u32(code) {
            assert_eq!(is_white_char(c), c.is_whitespace(), "on U+{:04X}", code);
        }
    }
    assert!(!is_white_char('\u{feff}'));
    assert!(!is_white_char('\u{200b}'));
}

#[test]
fn trim_bounds_cut_both_ends() {
    let cs = chars_of(" \t ab c\r\n");
    assert_eq!(cs.len(), 9);
    assert_eq!(trim_bounds(&cs), (3, 7));
    assert_eq!(trim_bounds(&chars_of("   ")), (3, 3));
    assert_eq!(trim_bounds(&chars_of("")), (0, 0));
    assert_eq!(trim_bounds(&chars_of("x")), (0, 1));
}

#[test]
fn chars_of_keeps_characters() {
    assert_eq!(chars_of("héllo"), vec!['h', 'é', 'l', 'l', 'o']);
}

#[test]
fn decimal_text_agrees_with_std() {
    for n in [0u32, 7, 9, 10, 23, 100, 65535, 1_000_000, u32::MAX - 1, u32::MAX] {
        assert_eq!(decimal_text(n), n.to_string());
    }
}

#[test]
fn digits() {
    assert!(is_digit_char('0') && is_digit_char('9'));
    assert!(!is_digit_char('a') && !is_digit_char('/') && !is_digit_char(':'));
}

#[test]
fn parse_u32_at_reads_a_window() {
    let cs = chars_of("x+123y");
    assert_eq!(parse_u32_at(&cs, 1, 5), Some(123));
    assert_eq!(parse_u32_at(&cs, 2, 4), Some(12));
    assert_eq!(parse_u32_at(&cs, 0, 5), None);
    assert_eq!(parse_u32_at(&cs, 3, 3), None);
}
