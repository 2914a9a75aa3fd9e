//! Arbitrary-precision integers.
//!
//! A [`BigNum`] holds an integer as little-endian two's-complement bytes and
//! is viewed as the mathematical integer those bytes denote. Construction
//! from machine integers and byte strings is verified here; arithmetic and
//! comparison are delegated to `num_bigint::BigInt`, each operation behind
//! one trusted function whose contract is stated over the views.

use vstd::prelude::*;
use vstd::arithmetic::power::{lemma_pow0, lemma_pow1, lemma_pow_adds, lemma_pow_positive, pow};

verus! {

/// The natural number whose base-256 digits, least significant first, are `bytes`.
pub open spec fn unsigned_le(bytes: Seq<u8>) -> nat
    decreases bytes.len(),
{
    if bytes.len() == 0 {
        0
    } else {
        (unsigned_le(bytes.drop_last()) + bytes.last() as nat * pow(
            256,
            (bytes.len() - 1) as nat,
        )) as nat
    }
}

/// The integer that `bytes` denote in two's complement, least significant
/// byte first. The empty sequence denotes zero.
pub open spec fn signed_le(bytes: Seq<u8>) -> int {
    if bytes.len() > 0 && bytes.last() >= 0x80 {
        unsigned_le(bytes) - pow(256, bytes.len())
    } else {
        unsigned_le(bytes) as int
    }
}

/// Remainder of the division that rounds its quotient toward zero: it has
/// the sign of the dividend and a magnitude below that of the divisor.
pub open spec fn truncated_rem(a: int, m: int) -> int {
    if a >= 0 {
        a % m
    } else {
        -((-a) % m)
    }
}

/// Appending a digit adds that digit, scaled by its place value.
pub proof fn lemma_unsigned_le_push(bytes: Seq<u8>, digit: u8)
    ensures
        unsigned_le(bytes.push(digit)) == unsigned_le(bytes) + digit * pow(256, bytes.len()),
{
    let longer = bytes.push(digit);
    assert(longer.drop_last() =~= bytes);
    assert(pow(256, bytes.len()) >= 0) by {
        lemma_pow_positive(256, bytes.len());
    }
    assert(digit * pow(256, bytes.len()) >= 0) by (nonlinear_arith)
        requires
            pow(256, bytes.len()) >= 0,
            digit >= 0,
    ;
}

/// An integer of any size.
#[derive(Debug)]
pub struct BigNum {
    /// Two's-complement representation, least significant byte first.
    pub bytes: Vec<u8>,
}

impl View for BigNum {
    type V = int;

    open spec fn view(&self) -> int {
        signed_le(self.bytes@)
    }
}

impl BigNum {
    /// The integer equal to `value`.
    pub fn from_u64(value: u64) -> (r: BigNum)
        ensures
            r@ == value,
    {
        let mut bytes: Vec<u8> = Vec::new();
        let mut rest: u64 = value;
        proof {
            lemma_pow0(256);
        }
        while rest > 0
            invariant
                unsigned_le(bytes@) + rest * pow(256, bytes@.len()) == value,
            decreases rest,
        {
            let low: u8 = (rest % 256) as u8;
            proof {
                let place = pow(256, bytes@.len());
                lemma_unsigned_le_push(bytes@, low);
                assert(pow(256, (bytes@.len() + 1) as nat) == 256 * place) by {
                    lemma_pow_adds(256, 1, bytes@.len());
                    lemma_pow1(256);
                }
                assert(low * place + (rest / 256) * (256 * place) == rest * place)
                    by (nonlinear_arith)
                    requires
                        low == rest % 256,
                ;
            }
            bytes.push(low);
            rest = rest / 256;
        }
        proof {
            lemma_unsigned_le_push(bytes@, 0);
        }
        bytes.push(0);
        BigNum { bytes }
    }

    /// The non-negative integer whose base-256 digits, least significant
    /// first, are `bytes`.
    pub fn from_le_bytes(bytes: Vec<u8>) -> (r: BigNum)
        ensures
            r@ == unsigned_le(bytes@),
    {
        let mut bytes = bytes;
        proof {
            lemma_unsigned_le_push(bytes@, 0);
        }
        bytes.push(0);
        BigNum { bytes }
    }

    /// Whether the two integers are equal, whatever their representations.
    pub fn equals(&self, other: &BigNum) -> (r: bool)
        ensures
            r == (self@ == other@),
    {
        big_eq(self, other)
    }

    /// Whether this integer is strictly below `other`.
    pub fn less_than(&self, other: &BigNum) -> (r: bool)
        ensures
            r == (self@ < other@),
    {
        big_lt(self, other)
    }
}

impl Clone for BigNum {
    fn clone(&self) -> (r: BigNum)
        ensures
            r@ == self@,
    {
        let bytes = self.bytes.clone();
        BigNum { bytes }
    }
}

impl PartialEq for BigNum {
    fn eq(&self, other: &BigNum) -> (r: bool) {
        big_eq(self, other)
    }
}

impl vstd::std_specs::cmp::PartialEqSpecImpl for BigNum {
    open spec fn obeys_eq_spec() -> bool {
        true
    }

    open spec fn eq_spec(&self, other: &BigNum) -> bool {
        self@ == other@
    }
}

// Each function below hands its arguments to `num_bigint` through
// `BigInt::from_signed_bytes_le` and takes the result back through
// `BigInt::to_signed_bytes_le`, which read and write the two's-complement
// bytes that the view is defined on. Their contracts are believed, not proved.

/// Sum of two integers, computed by `num_bigint`'s `Add` for `BigInt`.
/// The contract claims that the result denotes the exact sum.
#[verifier::external_body]
pub(crate) fn big_add(a: &BigNum, b: &BigNum) -> (r: BigNum)
    ensures
        r@ == a@ + b@,
{
    let x = num_bigint::BigInt::from_signed_bytes_le(&a.bytes);
    let y = num_bigint::BigInt::from_signed_bytes_le(&b.bytes);
    BigNum { bytes: (x + y).to_signed_bytes_le() }
}

/// Difference of two integers, computed by `num_bigint`'s `Sub` for `BigInt`.
/// The contract claims that the result denotes the exact difference.
#[verifier::external_body]
pub(crate) fn big_sub(a: &BigNum, b: &BigNum) -> (r: BigNum)
    ensures
        r@ == a@ - b@,
{
    let x = num_bigint::BigInt::from_signed_bytes_le(&a.bytes);
    let y = num_bigint::BigInt::from_signed_bytes_le(&b.bytes);
    BigNum { bytes: (x - y).to_signed_bytes_le() }
}

/// Product of two integers, computed by `num_bigint`'s `Mul` for `BigInt`.
/// The contract claims that the result denotes the exact product.
#[verifier::external_body]
pub(crate) fn big_mul(a: &BigNum, b: &BigNum) -> (r: BigNum)
    ensures
        r@ == a@ * b@,
{
    let x = num_bigint::BigInt::from_signed_bytes_le(&a.bytes);
    let y = num_bigint::BigInt::from_signed_bytes_le(&b.bytes);
    BigNum { bytes: (x * y).to_signed_bytes_le() }
}

/// Remainder of two integers, computed by `num_bigint`'s `Rem` for `BigInt`,
/// which panics on a zero divisor. The contract claims that the result is
/// the remainder of truncating division: it takes the dividend's sign.
#[verifier::external_body]
pub(crate) fn big_rem(a: &BigNum, m: &BigNum) -> (r: BigNum)
    requires
        m@ != 0,
    ensures
        r@ == truncated_rem(a@, m@),
{
    let x = num_bigint::BigInt::from_signed_bytes_le(&a.bytes);
    let y = num_bigint::BigInt::from_signed_bytes_le(&m.bytes);
    BigNum { bytes: (x % y).to_signed_bytes_le() }
}

/// Right shift, computed by `num_bigint`'s `Shr<u32>` for `BigInt`. The
/// contract claims that the result is the quotient by two to the power
/// `bits`, rounded toward negative infinity.
#[verifier::external_body]
pub(crate) fn big_shr(a: &BigNum, bits: u32) -> (r: BigNum)
    ensures
        r@ == a@ / pow(2, bits as nat),
{
    let x = num_bigint::BigInt::from_signed_bytes_le(&a.bytes);
    BigNum { bytes: (x >> bits).to_signed_bytes_le() }
}

/// Equality, decided by `num_bigint`'s `PartialEq` for `BigInt`. The
/// contract claims that it holds exactly when both denote the same integer.
#[verifier::external_body]
pub(crate) fn big_eq(a: &BigNum, b: &BigNum) -> (r: bool)
    ensures
        r == (a@ == b@),
{
    let x = num_bigint::BigInt::from_signed_bytes_le(&a.bytes);
    let y = num_bigint::BigInt::from_signed_bytes_le(&b.bytes);
    x == y
}

/// Strict order, decided by `num_bigint`'s `PartialOrd` for `BigInt`. The
/// contract claims that it is the order of the integers denoted.
#[verifier::external_body]
pub(crate) fn big_lt(a: &BigNum, b: &BigNum) -> (r: bool)
    ensures
        r == (a@ < b@),
{
    let x = num_bigint::BigInt::from_signed_bytes_le(&a.bytes);
    let y = num_bigint::BigInt::from_signed_bytes_le(&b.bytes);
    x < y
}

} // verus!
