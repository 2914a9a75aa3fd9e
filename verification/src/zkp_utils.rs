//! Modular exponentiation, random sampling and identity keys.

use std::collections::hash_map::DefaultHasher;
use std::hash::Hasher;
use vstd::prelude::*;
use vstd::arithmetic::power::{lemma_pow0, lemma_pow1, pow};
use vstd::std_specs::hash::DefaultHasherAdditionalSpecFns;
use vstd::utf8::encode_utf8;
use crate::bignum::{big_add, big_eq, big_lt, big_mul, big_rem, big_shr, BigNum};
use crate::encoding::{radix_text, to_hex};
use crate::messages::{AuthenticationAnswerRequest, AuthenticationChallengeRequest, RegisterRequest};
use crate::modular::{
    effective_exponent,
    lemma_mod_pow_range,
    lemma_normalize,
    lemma_pow_congruent,
    lemma_square_and_multiply_step,
    lemma_truncated_rem,
    mod_pow,
};
use crate::parameters::GroupParameters;
use crate::protocol::commitments;

verus! {

/// Computes `g` to the power `x` modulo `q` by binary exponentiation, from
/// the least significant bit of the exponent upward. The result is the
/// representative in `[0, q)`, also for a negative base. A negative
/// exponent counts as zero.
pub fn mod_exp(g: &BigNum, x: &BigNum, q: &BigNum) -> (r: BigNum)
    requires
        q@ >= 1,
    ensures
        r@ == mod_pow(g@, x@, q@),
        0 <= r@ < q@,
{
    let one = BigNum::from_u64(1);
    let zero = BigNum::from_u64(0);
    let two = big_add(&one, &one);
    proof {
        lemma_mod_pow_range(g@, x@, q@);
    }
    if big_eq(q, &one) {
        return zero;
    }
    let mut result = BigNum::from_u64(1);
    let mut base = big_rem(g, q);
    let mut exp = x.clone();
    proof {
        lemma_truncated_rem(g@, q@);
        lemma_pow_congruent(base@, g@, effective_exponent(x@), q@);
    }
    while big_lt(&zero, &exp)
        invariant
            q@ > 1,
            zero@ == 0,
            one@ == 1,
            two@ == 2,
            -q@ < result@ < q@,
            (result@ * pow(base@, effective_exponent(exp@))) % q@ == mod_pow(g@, x@, q@),
        decreases exp@,
    {
        let ghost acc = result@;
        let ghost old_base = base@;
        let ghost e = exp@ as nat;
        let bit = big_rem(&exp, &two);
        proof {
            lemma_truncated_rem(exp@, 2);
        }
        if big_eq(&bit, &one) {
            result = big_rem(&big_mul(&result, &base), q);
            proof {
                lemma_truncated_rem(acc * old_base, q@);
            }
        }
        exp = big_shr(&exp, 1);
        base = big_rem(&big_mul(&base, &base), q);
        proof {
            lemma_pow1(2);
            lemma_truncated_rem(old_base * old_base, q@);
            lemma_square_and_multiply_step(acc, old_base, e, q@, result@, base@);
        }
    }
    proof {
        lemma_pow0(base@);
        lemma_normalize(result@, q@);
    }
    big_rem(&big_add(&result, q), q)
}

/// Draws an integer from `[from, to)` with `num_bigint`'s
/// `RandBigInt::gen_bigint_range` on `rand::thread_rng()`, which panics
/// unless `from` is below `to`. The contract claims that the result lies in
/// that range; that each value is equally likely is not stated.
#[verifier::external_body]
pub fn random_big_int(from: BigNum, to: BigNum) -> (r: BigNum)
    requires
        from@ < to@,
    ensures
        from@ <= r@ < to@,
{
    let low = num_bigint::BigInt::from_signed_bytes_le(&from.bytes);
    let high = num_bigint::BigInt::from_signed_bytes_le(&to.bytes);
    let drawn = num_bigint::RandBigInt::gen_bigint_range(&mut rand::thread_rng(), &low, &high);
    BigNum { bytes: drawn.to_signed_bytes_le() }
}

/// What the standard library's default hasher, created without a seed,
/// gives for a text: the digest of the text's UTF-8 bytes followed by one
/// byte `0xff`, as the hasher is fed by the hash of a string.
pub open spec fn default_hash_value(text: Seq<char>) -> u64 {
    DefaultHasher::spec_finish(seq![encode_utf8(text), seq![0xffu8]])
}

/// The hash of a name as an integer.
pub fn default_hash(name: &str) -> (r: BigNum)
    ensures
        r@ == default_hash_value(name@),
{
    let mut hasher = DefaultHasher::new();
    hasher.write(name.as_bytes());
    let terminator: [u8; 1] = [0xff];
    let end = terminator.as_slice();
    assert(end@ =~= seq![0xffu8]);
    hasher.write(end);
    assert(hasher@ =~= seq![encode_utf8(name@), seq![0xffu8]]);
    BigNum::from_u64(hasher.finish())
}

/// The key under which all state of a user is kept: the hash of the name
/// as base-16 text.
pub open spec fn identity_key_of(name: Seq<char>) -> Seq<char> {
    radix_text(default_hash_value(name) as int, 16)
}

/// The key under which all state of the user `name` is kept.
pub fn identity_key(name: &str) -> (key: String)
    ensures
        key@ == identity_key_of(name@),
{
    to_hex(&default_hash(name))
}

/// The commitments to an exponent: `g` and `h` raised to it modulo `p`.
pub fn compute_commitments(params: &GroupParameters, exponent: &BigNum) -> (r: (BigNum, BigNum))
    ensures
        (r.0@, r.1@) == commitments(params@, exponent@),
        0 <= r.0@ < params@.p,
        0 <= r.1@ < params@.p,
{
    proof {
        use_type_invariant(params);
    }
    let p = params.modulus();
    (mod_exp(params.generator_g(), exponent, p), mod_exp(params.generator_h(), exponent, p))
}

/// The registration request of `username` for the secret `x`: the
/// commitments `g^x` and `h^x` modulo `p`, as text.
pub fn zkp_register(params: &GroupParameters, username: &String, x: &BigNum) -> (request:
    RegisterRequest)
    ensures
        request.user@ == username@,
        request.y1@ == radix_text(commitments(params@, x@).0, 16),
        request.y2@ == radix_text(commitments(params@, x@).1, 16),
{
    let (y1, y2) = compute_commitments(params, x);
    RegisterRequest { user: username.clone(), y1: to_hex(&y1), y2: to_hex(&y2) }
}

/// The request that opens a login attempt of `username` with the random
/// exponent `k`: the commitments `g^k` and `h^k` modulo `p`, as text.
pub fn zkp_authentication_challenge(params: &GroupParameters, username: &String, k: &BigNum) -> (request:
    AuthenticationChallengeRequest)
    ensures
        request.user@ == username@,
        request.r1@ == radix_text(commitments(params@, k@).0, 16),
        request.r2@ == radix_text(commitments(params@, k@).1, 16),
{
    let (r1, r2) = compute_commitments(params, k);
    AuthenticationChallengeRequest { user: username.clone(), r1: to_hex(&r1), r2: to_hex(&r2) }
}

/// The answer that carries the response `s` to the challenge issued under
/// `auth_id`.
pub fn zkp_verify_authentication(s: &BigNum, auth_id: &str) -> (request: AuthenticationAnswerRequest)
    ensures
        request.auth_id@ == auth_id@,
        request.s@ == radix_text(s@, 16),
{
    AuthenticationAnswerRequest { auth_id: auth_id.to_owned(), s: to_hex(s) }
}

} // verus!
