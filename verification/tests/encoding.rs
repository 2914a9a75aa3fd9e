use zkp_auth::bignum::BigNum;
use zkp_auth::encoding::{from_hex, to_hex};

fn hex_value(text: &str) -> Option<String> {
    from_hex(text).map(|n| to_hex(&n))
}

#[test]
fn to_hex_writes_lower_case_digits() {
    assert_eq!(to_hex(&BigNum::from_u64(255)), "ff");
    assert_eq!(to_hex(&BigNum::from_u64(0xabcdef)), "abcdef");
    assert_eq!(to_hex(&BigNum::from_u64(16)), "10");
}

#[test]
fn to_hex_of_zero_is_one_digit() {
    assert_eq!(to_hex(&BigNum::from_u64(0)), "0");
}

#[test]
fn to_hex_of_a_negative_number_starts_with_minus() {
    assert_eq!(to_hex(&BigNum { bytes: vec![0xff] }), "-1");
    assert_eq!(to_hex(&BigNum { bytes: vec![0x01, 0xff] }), "-ff");
}

#[test]
fn to_hex_does_not_hand_back_its_argument() {
    assert_eq!(to_hex(&BigNum::from_u64(u64::MAX)), "ffffffffffffffff");
}

#[test]
fn from_hex_reads_digits() {
    assert!(from_hex("ff") == Some(BigNum::from_u64(255)));
    assert!(from_hex("0") == Some(BigNum::from_u64(0)));
    assert!(from_hex("0010") == Some(BigNum::from_u64(16)));
}

#[test]
fn from_hex_reads_upper_case_digits() {
    assert!(from_hex("FF") == Some(BigNum::from_u64(255)));
    assert!(from_hex("aB") == Some(BigNum::from_u64(0xab)));
}

#[test]
fn from_hex_reads_signs() {
    assert_eq!(hex_value("-ff"), Some("-ff".to_string()));
    assert_eq!(hex_value("+ff"), Some("ff".to_string()));
    assert_eq!(hex_value("-0"), Some("0".to_string()));
}

#[test]
fn from_hex_skips_underscores_after_the_first_digit() {
    assert!(from_hex("f_f") == Some(BigNum::from_u64(255)));
    assert!(from_hex("5_") == Some(BigNum::from_u64(5)));
    assert!(from_hex("5__3") == Some(BigNum::from_u64(0x53)));
}

#[test]
fn from_hex_rejects_a_leading_underscore() {
    assert!(from_hex("_5").is_none());
    assert!(from_hex("-_5").is_none());
    assert!(from_hex("+_5").is_none());
}

#[test]
fn from_hex_rejects_empty_texts() {
    assert!(from_hex("").is_none());
    assert!(from_hex("-").is_none());
    assert!(from_hex("+").is_none());
}

#[test]
fn from_hex_rejects_doubled_or_mixed_signs() {
    assert!(from_hex("++5").is_none());
    assert!(from_hex("-+5").is_none());
    assert!(from_hex("+-5").is_none());
    assert!(from_hex("--5").is_none());
}

#[test]
fn from_hex_rejects_characters_that_are_no_digits() {
    assert!(from_hex("fg").is_none());
    assert!(from_hex("0x10").is_none());
    assert!(from_hex("1 2").is_none());
    assert!(from_hex("z").is_none());
    assert!(from_hex("12\u{e9}").is_none());
}

#[test]
fn from_hex_rejects_the_reserved_texts() {
    assert!(from_hex("UserNotRegistered").is_none());
    assert!(from_hex("WrongCredentials").is_none());
}

#[test]
fn reading_gives_back_what_was_written() {
    let values = [0u64, 1, 9, 10, 15, 16, 255, 256, 4095, 65_536, u64::MAX];
    for value in values {
        let n = BigNum::from_u64(value);
        assert!(from_hex(&to_hex(&n)) == Some(n));
    }
    let negative = BigNum { bytes: vec![0x00, 0x80] };
    assert!(from_hex(&to_hex(&negative)) == Some(negative));
}
