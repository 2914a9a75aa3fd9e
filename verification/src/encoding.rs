//! Integers as text.
//!
//! Protocol messages carry every integer as base-16 text. This module says
//! what text an integer is written as and which texts are read as integers,
//! and proves that reading gives back what was written. The conversions
//! themselves are `num_bigint`'s.

use vstd::prelude::*;
use vstd::arithmetic::div_mod::{lemma_fundamental_div_mod, lemma_mod_bound};
use crate::bignum::BigNum;

verus! {

/// The radix of integers in protocol messages.
pub const WIRE_RADIX: u32 = 16;

/// The character for the digit `d`: `0` to `9`, then `a` to `z`.
pub open spec fn digit_char(d: int) -> char {
    if d < 10 {
        ('0' as int + d) as char
    } else {
        ('a' as int + d - 10) as char
    }
}

/// The digits of `n` in the given radix, most significant first, without
/// leading zeros; zero is the single digit `0`.
pub open spec fn radix_magnitude(n: nat, radix: int) -> Seq<char>
    decreases n,
    when radix >= 2
    via radix_magnitude_terminates
{
    if n < radix {
        seq![digit_char(n as int)]
    } else {
        radix_magnitude((n as int / radix) as nat, radix).push(digit_char(n as int % radix))
    }
}

#[via_fn]
proof fn radix_magnitude_terminates(n: nat, radix: int) {
    if n >= radix {
        lemma_quotient_smaller(n, radix);
    }
}

/// Dividing a number by a radix that does not exceed it gives less.
pub proof fn lemma_quotient_smaller(n: nat, radix: int)
    requires
        2 <= radix <= n,
    ensures
        0 <= n as int / radix < n,
{
    lemma_fundamental_div_mod(n as int, radix);
    lemma_mod_bound(n as int, radix);
    let quotient = n as int / radix;
    let low = n as int % radix;
    assert(0 <= quotient < n) by (nonlinear_arith)
        requires
            n == radix * quotient + low,
            0 <= low < radix,
            2 <= radix <= n,
    ;
}

/// The text an integer is written as: its digits, after a `-` if it is negative.
pub open spec fn radix_text(v: int, radix: int) -> Seq<char> {
    if v < 0 {
        seq!['-'] + radix_magnitude((-v) as nat, radix)
    } else {
        radix_magnitude(v as nat, radix)
    }
}

/// The value of a character as a digit in the given radix, if it is one.
/// Letters count from ten, in either case.
pub open spec fn digit_value(c: char, radix: int) -> Option<int> {
    let d = if '0' <= c <= '9' {
        c as int - '0' as int
    } else if 'a' <= c <= 'z' {
        c as int - 'a' as int + 10
    } else if 'A' <= c <= 'Z' {
        c as int - 'A' as int + 10
    } else {
        radix
    };
    if d < radix {
        Some(d)
    } else {
        None
    }
}

/// Digits may be separated by underscores, but the first character is a
/// digit and there is at least one.
pub open spec fn digits_well_formed(s: Seq<char>, radix: int) -> bool {
    &&& s.len() > 0
    &&& s[0] != '_'
    &&& forall|i: int| 0 <= i < s.len() ==> s[i] == '_' || digit_value(#[trigger] s[i], radix).is_some()
}

/// The number that well-formed digits denote; underscores are skipped.
pub open spec fn digits_value(s: Seq<char>, radix: int) -> int
    decreases s.len(),
{
    if s.len() == 0 {
        0
    } else if s.last() == '_' {
        digits_value(s.drop_last(), radix)
    } else {
        digits_value(s.drop_last(), radix) * radix + digit_value(s.last(), radix).unwrap()
    }
}

/// The text without one leading `+`, unless a second `+` follows it.
pub open spec fn without_plus(s: Seq<char>) -> Seq<char> {
    if s.len() > 0 && s[0] == '+' && !(s.len() > 1 && s[1] == '+') {
        s.skip(1)
    } else {
        s
    }
}

/// The number that an unsigned text denotes, if it is well formed.
pub open spec fn magnitude_value(s: Seq<char>, radix: int) -> Option<int> {
    let digits = without_plus(s);
    if digits_well_formed(digits, radix) {
        Some(digits_value(digits, radix))
    } else {
        None
    }
}

/// The integer that a text is read as, if it is well formed: an optional
/// `-`, an optional `+`, then digits.
pub open spec fn radix_value(s: Seq<char>, radix: int) -> Option<int> {
    if s.len() > 0 && s[0] == '-' {
        let body = if s.len() > 1 && s[1] == '+' {
            s
        } else {
            s.skip(1)
        };
        match magnitude_value(body, radix) {
            Some(m) => Some(-m),
            None => None,
        }
    } else {
        magnitude_value(s, radix)
    }
}

/// Writes an integer with `num_bigint`'s `BigInt::to_str_radix`, which
/// panics on a radix outside 2 to 36. The contract claims that the text is
/// the integer's digits in that radix, lower case, most significant first,
/// without leading zeros, after a `-` for a negative integer.
#[verifier::external_body]
pub(crate) fn big_to_str_radix(n: &BigNum, radix: u32) -> (text: String)
    requires
        2 <= radix <= 36,
    ensures
        text@ == radix_text(n@, radix as int),
{
    num_bigint::BigInt::from_signed_bytes_le(&n.bytes).to_str_radix(radix)
}

/// Reads an integer with `num::Num::from_str_radix` for `BigInt`, which
/// panics on a radix outside 2 to 36. The contract claims that a text is
/// accepted exactly when it is an optional `-`, an optional `+`, and digits
/// of that radix in either case that start with a digit and may hold
/// underscores, and that the result is the integer so denoted.
#[verifier::external_body]
pub(crate) fn big_from_str_radix(text: &str, radix: u32) -> (r: Option<BigNum>)
    requires
        2 <= radix <= 36,
    ensures
        r.is_some() == radix_value(text@, radix as int).is_some(),
        r matches Some(n) ==> radix_value(text@, radix as int) == Some(n@),
{
    let parsed: Result<num_bigint::BigInt, num_bigint::ParseBigIntError> =
        num::Num::from_str_radix(text, radix);
    match parsed {
        Ok(n) => Some(BigNum { bytes: n.to_signed_bytes_le() }),
        Err(_) => None,
    }
}

/// The integer as base-16 text.
pub fn to_hex(n: &BigNum) -> (text: String)
    ensures
        text@ == radix_text(n@, 16),
{
    big_to_str_radix(n, WIRE_RADIX)
}

/// The integer that a base-16 text denotes, or `None` if the text is malformed.
pub fn from_hex(text: &str) -> (r: Option<BigNum>)
    ensures
        (match r {
            Some(n) => radix_value(text@, 16) == Some(n@),
            None => radix_value(text@, 16).is_none(),
        }),
{
    big_from_str_radix(text, WIRE_RADIX)
}

/// A digit's character is read as that digit, and is none of the
/// characters with a special meaning.
pub proof fn lemma_digit_char(d: int, radix: int)
    requires
        2 <= radix <= 36,
        0 <= d < radix,
    ensures
        digit_value(digit_char(d), radix) == Some(d),
        digit_char(d) != '_',
        digit_char(d) != '+',
        digit_char(d) != '-',
        '0' <= digit_char(d) <= '9' || 'a' <= digit_char(d) <= 'z',
{
}

/// The digits written for a number are well formed and denote that number.
pub proof fn lemma_magnitude_round_trip(n: nat, radix: int)
    requires
        2 <= radix <= 36,
    ensures
        digits_well_formed(radix_magnitude(n, radix), radix),
        digits_value(radix_magnitude(n, radix), radix) == n,
        radix_magnitude(n, radix)[0] != '+',
        radix_magnitude(n, radix)[0] != '-',
    decreases n,
{
    let s = radix_magnitude(n, radix);
    if n < radix {
        lemma_digit_char(n as int, radix);
        assert(digits_value(s.drop_last(), radix) == 0);
    } else {
        let high = (n as int / radix) as nat;
        let low = n as int % radix;
        lemma_fundamental_div_mod(n as int, radix);
        lemma_mod_bound(n as int, radix);
        lemma_quotient_smaller(n, radix);
        lemma_magnitude_round_trip(high, radix);
        lemma_digit_char(low, radix);
        let prefix = radix_magnitude(high, radix);
        assert(s.drop_last() =~= prefix);
        assert forall|i: int| 0 <= i < s.len() implies s[i] == '_' || digit_value(
            #[trigger] s[i],
            radix,
        ).is_some() by {
            if i < prefix.len() {
                assert(s[i] == prefix[i]);
            }
        }
        assert(high * radix + low == n) by (nonlinear_arith)
            requires
                n == radix * (n as int / radix) + low,
                high == n as int / radix,
        ;
    }
}

/// The text of an integer starts with `-`, a decimal digit or a lower-case letter.
pub proof fn lemma_radix_text_head(v: int, radix: int)
    requires
        2 <= radix <= 36,
    ensures
        radix_text(v, radix).len() > 0,
        ({
            let head = radix_text(v, radix)[0];
            head == '-' || '0' <= head <= '9' || 'a' <= head <= 'z'
        }),
{
    if v >= 0 {
        lemma_magnitude_head(v as nat, radix);
    }
}

/// The digits of a number start with a decimal digit or a lower-case letter.
pub proof fn lemma_magnitude_head(n: nat, radix: int)
    requires
        2 <= radix <= 36,
    ensures
        radix_magnitude(n, radix).len() > 0,
        ({
            let head = radix_magnitude(n, radix)[0];
            '0' <= head <= '9' || 'a' <= head <= 'z'
        }),
    decreases n,
{
    if n < radix {
        lemma_digit_char(n as int, radix);
    } else {
        lemma_quotient_smaller(n, radix);
        let high = (n as int / radix) as nat;
        lemma_magnitude_head(high, radix);
    }
}

/// Reading the text that an integer is written as gives the integer back.
pub proof fn lemma_radix_round_trip(v: int, radix: int)
    requires
        2 <= radix <= 36,
    ensures
        radix_value(radix_text(v, radix), radix) == Some(v),
{
    if v < 0 {
        lemma_magnitude_round_trip((-v) as nat, radix);
        assert(radix_text(v, radix).skip(1) =~= radix_magnitude((-v) as nat, radix));
    } else {
        lemma_magnitude_round_trip(v as nat, radix);
    }
}

} // verus!
