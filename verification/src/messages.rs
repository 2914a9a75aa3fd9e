//! The messages that prover and verifier exchange.
//!
//! Every integer travels as base-16 text. Two reserved texts signal the
//! failure of a phase; neither can be mistaken for an integer.

use vstd::prelude::*;
use crate::encoding::{digit_value, lemma_radix_text_head, radix_text, radix_value};

verus! {

/// The `auth_id` of a challenge for a user who is not registered.
pub const NOT_REGISTERED: &'static str = "UserNotRegistered";

/// The `session_id` of an answer that was not accepted.
pub const WRONG_CREDENTIALS: &'static str = "WrongCredentials";

/// Asks to register `user` with the commitments `y1` and `y2` to the secret.
#[derive(Debug, PartialEq, Eq)]
pub struct RegisterRequest {
    pub user: String,
    pub y1: String,
    pub y2: String,
}

/// Opens a login attempt of `user` with the commitments `r1` and `r2` to a
/// fresh random exponent.
#[derive(Debug, PartialEq, Eq)]
pub struct AuthenticationChallengeRequest {
    pub user: String,
    pub r1: String,
    pub r2: String,
}

/// The challenge `c` for the attempt, and the key `auth_id` under which
/// the answer is expected, or [`NOT_REGISTERED`].
#[derive(Debug, PartialEq, Eq)]
pub struct AuthenticationChallengeResponse {
    pub auth_id: String,
    pub c: String,
}

/// The response `s` to the challenge that was issued under `auth_id`.
#[derive(Debug, PartialEq, Eq)]
pub struct AuthenticationAnswerRequest {
    pub auth_id: String,
    pub s: String,
}

/// The token of the session that a successful login opens, or
/// [`WRONG_CREDENTIALS`].
#[derive(Debug, PartialEq, Eq)]
pub struct AuthenticationAnswerResponse {
    pub session_id: String,
}

/// The text of an integer is neither of the reserved texts.
pub proof fn lemma_integer_text_is_no_sentinel(v: int)
    ensures
        radix_text(v, 16) != NOT_REGISTERED@,
        radix_text(v, 16) != WRONG_CREDENTIALS@,
{
    reveal_strlit("UserNotRegistered");
    reveal_strlit("WrongCredentials");
    lemma_radix_text_head(v, 16);
}

/// Neither of the reserved texts is read as an integer.
pub proof fn lemma_sentinel_is_no_integer()
    ensures
        radix_value(NOT_REGISTERED@, 16) is None,
        radix_value(WRONG_CREDENTIALS@, 16) is None,
{
    reveal_strlit("UserNotRegistered");
    reveal_strlit("WrongCredentials");
}

} // verus!
