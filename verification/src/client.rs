//! The prover: the secret, the exponent of an attempt, and the response to
//! a challenge.

use vstd::prelude::*;
use vstd::slice::slice_to_vec;
use vstd::utf8::encode_utf8;
use crate::bignum::{big_add, big_mul, big_rem, big_sub, unsigned_le, BigNum};
use crate::encoding::{from_hex, radix_text, radix_value};
use crate::messages::{
    AuthenticationAnswerRequest,
    AuthenticationAnswerResponse,
    AuthenticationChallengeResponse,
    NOT_REGISTERED,
    WRONG_CREDENTIALS,
};
use crate::modular::{lemma_normalize, lemma_truncated_rem};
use crate::parameters::GroupParameters;
use crate::protocol::response;
use crate::zkp_utils::{random_big_int, zkp_verify_authentication};

verus! {

/// Why a login attempt ended before an answer was sent.
#[derive(Clone, Copy, Debug, PartialEq, Eq, Structural)]
pub enum LoginError {
    /// The verifier knows no registration of the user.
    NotRegistered,
    /// The challenge is not the text of an integer.
    MalformedChallenge,
}

/// The secret that a passphrase stands for: its UTF-8 bytes read as a
/// number, least significant byte first.
pub fn secret_from_passphrase(passphrase: &str) -> (x: BigNum)
    ensures
        x@ == unsigned_le(encode_utf8(passphrase@)),
{
    BigNum::from_le_bytes(slice_to_vec(passphrase.as_bytes()))
}

/// Draws the exponent of a login attempt from `[2, q - 2)`.
pub fn commitment_secret(params: &GroupParameters) -> (k: BigNum)
    ensures
        2 <= k@ < params@.q - 2,
{
    proof {
        use_type_invariant(params);
    }
    let two = BigNum::from_u64(2);
    let end = big_sub(params.subgroup_order(), &two);
    random_big_int(two, end)
}

/// The response to the challenge `c` from the exponent `k` of the attempt
/// and the secret `x`.
pub fn compute_response(params: &GroupParameters, k: &BigNum, c: &BigNum, x: &BigNum) -> (s: BigNum)
    ensures
        s@ == response(params@, k@, c@, x@),
        0 <= s@ < params@.q,
{
    proof {
        use_type_invariant(params);
    }
    let q = params.subgroup_order();
    let difference = big_sub(k, &big_mul(c, x));
    let remainder = big_rem(&difference, q);
    proof {
        lemma_truncated_rem(difference@, q@);
        lemma_normalize(remainder@, q@);
        vstd::arithmetic::div_mod::lemma_mod_bound(difference@, q@);
    }
    big_rem(&big_add(&remainder, q), q)
}

/// What the prover sends after the verifier's reply to the challenge
/// request: nothing if the user is not registered or the challenge is
/// malformed, and else the answer with the response.
pub fn answer_challenge(
    params: &GroupParameters,
    k: &BigNum,
    x: &BigNum,
    reply: &AuthenticationChallengeResponse,
) -> (r: Result<AuthenticationAnswerRequest, LoginError>)
    ensures
        reply.auth_id@ == NOT_REGISTERED@ ==> r == Err::<AuthenticationAnswerRequest, LoginError>(
            LoginError::NotRegistered,
        ),
        reply.auth_id@ != NOT_REGISTERED@ ==> (match radix_value(reply.c@, 16) {
            None => r == Err::<AuthenticationAnswerRequest, LoginError>(
                LoginError::MalformedChallenge,
            ),
            Some(c) => {
                &&& r matches Ok(answer)
                &&& answer.auth_id@ == reply.auth_id@
                &&& answer.s@ == radix_text(response(params@, k@, c, x@), 16)
            },
        }),
{
    let not_registered = NOT_REGISTERED.to_owned();
    if reply.auth_id == not_registered {
        return Err(LoginError::NotRegistered);
    }
    match from_hex(reply.c.as_str()) {
        None => Err(LoginError::MalformedChallenge),
        Some(c) => {
            let s = compute_response(params, k, &c, x);
            Ok(zkp_verify_authentication(&s, reply.auth_id.as_str()))
        },
    }
}

/// Whether the verifier's reply to an answer opens a session.
pub fn login_succeeded(reply: &AuthenticationAnswerResponse) -> (r: bool)
    ensures
        r == (reply.session_id@ != WRONG_CREDENTIALS@),
{
    let wrong_credentials = WRONG_CREDENTIALS.to_owned();
    reply.session_id != wrong_credentials
}

} // verus!
