use tiltak_interface::number::decimal_text;
use tiltak_interface::number::digit;
use tiltak_interface::number::parse_i8;
use tiltak_interface::number::parse_u32;
use tiltak_interface::number::parse_u64;
use tiltak_interface::number::parse_usize;
use tiltak_interface::number::read_numeral;
use tiltak_interface::number::signed_decimal_text;

#[test]
fn unsigned_numbers_are_read() {
    assert_eq!(parse_u64("0"), Some(0));
    assert_eq!(parse_u64("+17"), Some(17));
    assert_eq!(parse_u64("007"), Some(7));
    assert_eq!(parse_u64("18446744073709551615"), Some(u64::MAX));
    assert_eq!(parse_u64("18446744073709551616"), None);
    assert_eq!(parse_u32("4294967295"), Some(u32::MAX));
    assert_eq!(parse_u32("4294967296"), None);
    assert_eq!(parse_usize("6"), Some(6));
    assert_eq!(parse_usize("six"), None);
}

#[test]
fn what_is_no_number_is_refused() {
    for text in ["", "+", "-", "-1", "++1", "1 ", " 1", "1.0", "0x1", "٣"] {
        assert_eq!(parse_u64(text), text.parse::<u64>().ok());
        assert_eq!(parse_u64(text), None);
    }
}

#[test]
fn small_signed_numbers_are_read() {
    for text in ["-128", "127", "-0", "+5", "0", "-129", "128", "-", "--1", "+-1", "1-"] {
        assert_eq!(parse_i8(text), text.parse::<i8>().ok());
    }
    assert_eq!(parse_i8("-128"), Some(-128));
    assert_eq!(parse_i8("-129"), None);
}

#[test]
fn numerals_are_held_to_their_limit() {
    let digits: Vec<char> = "255".chars().collect();
    assert_eq!(read_numeral(&digits, 255), Some(255));
    assert_eq!(read_numeral(&digits, 254), None);
    assert_eq!(read_numeral(&[], 255), None);
    assert_eq!(read_numeral(&['+', '1'], 255), None);
}

#[test]
fn what_was_written_is_read_back() {
    for n in [0u64, 9, 10, 99, 100, 65536, u64::MAX] {
        let text = decimal_text(n as u128);
        assert_eq!(text, n.to_string());
        assert_eq!(parse_u64(&text), Some(n));
    }
    assert_eq!(decimal_text(u128::MAX), u128::MAX.to_string());
}

#[test]
fn what_was_written_with_a_sign_is_read_back() {
    for n in i8::MIN..=i8::MAX {
        assert_eq!(parse_i8(&signed_decimal_text(n as i64)), Some(n));
    }
    assert_eq!(signed_decimal_text(i64::MIN), i64::MIN.to_string());
    assert_eq!(signed_decimal_text(-7), "-7");
}

#[test]
fn digits_are_ascii_digits() {
    assert!(digit('0') && digit('9'));
    assert!(!digit('/') && !digit(':') && !digit('٣'));
}
