//! The verifier: registration, challenges and the verdict on answers.
//!
//! The engine keeps nothing itself. Each operation takes the state of the
//! identity that the request is about, moves it, and returns the reply.
//! Whoever stores the state loads it before the call and stores it after.
//!
//! Only one attempt per identity can be pending: a new challenge replaces
//! an unanswered one. Of two logins that race for one identity at most one
//! succeeds, and none succeeds on the state of the other.

use vstd::prelude::*;
use vstd::arithmetic::div_mod::lemma_mod_twice;
use crate::bignum::{big_add, big_mul, big_rem, big_sub, BigNum};
use crate::encoding::{from_hex, radix_text, radix_value, to_hex};
use crate::identity::IdentityState;
use crate::messages::{
    AuthenticationAnswerRequest,
    AuthenticationAnswerResponse,
    AuthenticationChallengeRequest,
    AuthenticationChallengeResponse,
    lemma_integer_text_is_no_sentinel,
    RegisterRequest,
    NOT_REGISTERED,
    WRONG_CREDENTIALS,
};
use crate::modular::{lemma_normalize, lemma_truncated_rem, mod_pow};
use crate::parameters::{Group, GroupParameters};
use crate::protocol::{
    answer_step,
    challenge_step,
    register_step,
    IdentityView,
    ProtocolError,
    RegisterOutcome,
    Verdict,
};
use crate::zkp_utils::{identity_key, identity_key_of, mod_exp, random_big_int};

verus! {

/// The number of values that a session token is drawn from: two to the power 128.
pub open spec fn session_token_bound() -> int {
    0x1_0000_0000_0000_0000_0000_0000_0000_0000int
}

/// A session token is the base-16 text of a number below [`session_token_bound`].
pub open spec fn is_session_token(text: Seq<char>) -> bool {
    exists|t: int| 0 <= t < session_token_bound() && text == #[trigger] radix_text(t, 16)
}

/// How the reply to a challenge request relates to the step that the
/// state took: an error is passed on, and otherwise the reply carries the
/// challenge and either the identity's key or [`NOT_REGISTERED`].
pub open spec fn challenge_reply_matches(
    request: AuthenticationChallengeRequest,
    c: int,
    step: Result<bool, ProtocolError>,
    reply: Result<AuthenticationChallengeResponse, ProtocolError>,
) -> bool {
    match step {
        Err(e) => reply == Err::<AuthenticationChallengeResponse, ProtocolError>(e),
        Ok(issued) => {
            &&& reply matches Ok(message)
            &&& message.c@ == radix_text(c, 16)
            &&& message.auth_id@ == if issued {
                identity_key_of(request.user@)
            } else {
                NOT_REGISTERED@
            }
        },
    }
}

/// What is sent back for a judged answer: an error is passed on, a
/// failure is reported as [`WRONG_CREDENTIALS`], and a success carries a
/// session token.
pub open spec fn answer_reply_matches(
    verdict: Result<Verdict, ProtocolError>,
    reply: Result<AuthenticationAnswerResponse, ProtocolError>,
) -> bool {
    match verdict {
        Err(e) => reply == Err::<AuthenticationAnswerResponse, ProtocolError>(e),
        Ok(Verdict::Failed) => reply matches Ok(message) && message.session_id@
            == WRONG_CREDENTIALS@,
        Ok(Verdict::Verified) => reply matches Ok(message) && is_session_token(
            message.session_id@,
        ),
    }
}

/// What handling a challenge request with the challenge `c` does to the
/// state and sends back.
pub open spec fn challenge_handled(
    before: IdentityView,
    request: AuthenticationChallengeRequest,
    c: int,
    after: IdentityView,
    reply: Result<AuthenticationChallengeResponse, ProtocolError>,
) -> bool {
    let step = challenge_step(
        before,
        radix_value(request.r1@, 16),
        radix_value(request.r2@, 16),
        c,
    );
    after == step.0 && challenge_reply_matches(request, c, step.1, reply)
}

/// What handling an answer does to the state and sends back.
pub open spec fn answer_handled(
    grp: Group,
    before: IdentityView,
    request: AuthenticationAnswerRequest,
    after: IdentityView,
    reply: Result<AuthenticationAnswerResponse, ProtocolError>,
) -> bool {
    let step = answer_step(grp, before, radix_value(request.s@, 16));
    after == step.0 && answer_reply_matches(step.1, reply)
}

/// The verifier's side of the protocol for one group.
pub struct AuthZKP {
    params: GroupParameters,
}

impl AuthZKP {
    /// The group that this verifier works in.
    pub closed spec fn group(&self) -> Group {
        self.params@
    }

    /// A verifier for the given group.
    pub fn new(params: GroupParameters) -> (r: AuthZKP)
        ensures
            r.group() == params@,
    {
        AuthZKP { params }
    }

    /// The group description.
    pub fn params(&self) -> (r: &GroupParameters)
        ensures
            r@ == self.group(),
    {
        &self.params
    }

    /// Handles a registration request for the identity whose state is
    /// `state`.
    pub fn register(&self, state: &mut IdentityState, request: &RegisterRequest) -> (r: Result<
        RegisterOutcome,
        ProtocolError,
    >)
        ensures
            (final(state)@, r) == register_step(
                old(state)@,
                radix_value(request.y1@, 16),
                radix_value(request.y2@, 16),
            ),
    {
        if state.is_registered() {
            return Ok(RegisterOutcome::AlreadyRegistered);
        }
        match (from_hex(request.y1.as_str()), from_hex(request.y2.as_str())) {
            (Some(y1), Some(y2)) => Ok(state.put_registration(y1, y2)),
            _ => Err(ProtocolError::MalformedInteger),
        }
    }

    /// Draws a challenge: an integer from 2 to `q - 2`.
    pub fn sample_challenge(&self) -> (c: BigNum)
        ensures
            2 <= c@ <= self.group().q - 2,
    {
        proof {
            use_type_invariant(&self.params);
        }
        let two = BigNum::from_u64(2);
        let one = BigNum::from_u64(1);
        let end = big_sub(self.params.subgroup_order(), &one);
        random_big_int(two, end)
    }

    /// Handles a challenge request with the challenge `c` for the identity
    /// whose state is `state`.
    pub fn issue_challenge(
        &self,
        state: &mut IdentityState,
        request: &AuthenticationChallengeRequest,
        c: BigNum,
    ) -> (r: Result<AuthenticationChallengeResponse, ProtocolError>)
        ensures
            challenge_handled(old(state)@, *request, c@, final(state)@, r),
    {
        let c_hex = to_hex(&c);
        if !state.is_registered() {
            return Ok(
                AuthenticationChallengeResponse { auth_id: NOT_REGISTERED.to_owned(), c: c_hex },
            );
        }
        match (from_hex(request.r1.as_str()), from_hex(request.r2.as_str())) {
            (Some(r1), Some(r2)) => {
                state.upsert_pending(r1, r2, c);
                Ok(
                    AuthenticationChallengeResponse {
                        auth_id: identity_key(request.user.as_str()),
                        c: c_hex,
                    },
                )
            },
            _ => Err(ProtocolError::MalformedInteger),
        }
    }

    /// Handles a challenge request for the identity whose state is `state`,
    /// with a freshly drawn challenge.
    pub fn create_authentication_challenge(
        &self,
        state: &mut IdentityState,
        request: &AuthenticationChallengeRequest,
    ) -> (r: Result<AuthenticationChallengeResponse, ProtocolError>)
        ensures
            exists|c: int|
                2 <= c <= self.group().q - 2 && #[trigger] challenge_handled(
                    old(state)@,
                    *request,
                    c,
                    final(state)@,
                    r,
                ),
    {
        let c = self.sample_challenge();
        self.issue_challenge(state, request, c)
    }

    /// Judges the response `s` against the pending attempt of the identity
    /// whose state is `state`, and uses that attempt up.
    pub fn verify_response(&self, state: &mut IdentityState, s: &BigNum) -> (r: Result<
        Verdict,
        ProtocolError,
    >)
        ensures
            (final(state)@, r) == answer_step(self.group(), old(state)@, Some(s@)),
    {
        if !state.is_registered() {
            return Err(ProtocolError::NotRegistered);
        }
        let pending = state.take_pending();
        match (pending, state.registration()) {
            (Some((r1, r2, c)), Some((y1, y2))) => {
                proof {
                    use_type_invariant(&self.params);
                }
                let p = self.params.modulus();
                let first = recombine(self.params.generator_g(), s, y1, &c, p);
                let second = recombine(self.params.generator_h(), s, y2, &c, p);
                if r1.equals(&first) && r2.equals(&second) {
                    Ok(Verdict::Verified)
                } else {
                    Ok(Verdict::Failed)
                }
            },
            _ => Ok(Verdict::Failed),
        }
    }

    /// Handles an answer for the identity whose state is `state`, up to
    /// the verdict.
    pub fn check_answer(&self, state: &mut IdentityState, request: &AuthenticationAnswerRequest) -> (r:
        Result<Verdict, ProtocolError>)
        ensures
            (final(state)@, r) == answer_step(
                self.group(),
                old(state)@,
                radix_value(request.s@, 16),
            ),
    {
        if !state.is_registered() {
            return Err(ProtocolError::NotRegistered);
        }
        match from_hex(request.s.as_str()) {
            Some(s) => self.verify_response(state, &s),
            None => {
                state.take_pending();
                Err(ProtocolError::MalformedInteger)
            },
        }
    }

    /// Handles an answer for the identity whose state is `state`.
    pub fn verify_authentication(
        &self,
        state: &mut IdentityState,
        request: &AuthenticationAnswerRequest,
    ) -> (r: Result<AuthenticationAnswerResponse, ProtocolError>)
        ensures
            answer_handled(self.group(), old(state)@, *request, final(state)@, r),
    {
        let verdict = self.check_answer(state, request);
        answer_reply(verdict, session_token())
    }
}

/// What is sent back once the verdict is known: a success carries the
/// session token `token`, a failure the reserved text, and an error is
/// passed on.
pub fn answer_reply(verdict: Result<Verdict, ProtocolError>, token: String) -> (r: Result<
    AuthenticationAnswerResponse,
    ProtocolError,
>)
    ensures
        (match verdict {
            Err(e) => r == Err::<AuthenticationAnswerResponse, ProtocolError>(e),
            Ok(Verdict::Failed) => r matches Ok(message) && message.session_id@
                == WRONG_CREDENTIALS@,
            Ok(Verdict::Verified) => r matches Ok(message) && message.session_id@ == token@,
        }),
{
    match verdict {
        Err(e) => Err(e),
        Ok(Verdict::Failed) => Ok(
            AuthenticationAnswerResponse { session_id: WRONG_CREDENTIALS.to_owned() },
        ),
        Ok(Verdict::Verified) => Ok(AuthenticationAnswerResponse { session_id: token }),
    }
}

/// `base1^e1 * base2^e2` modulo `p`, normalized into `[0, p)`.
fn recombine(base1: &BigNum, e1: &BigNum, base2: &BigNum, e2: &BigNum, p: &BigNum) -> (r: BigNum)
    requires
        p@ >= 1,
    ensures
        r@ == (mod_pow(base1@, e1@, p@) * mod_pow(base2@, e2@, p@)) % p@,
{
    let left = mod_exp(base1, e1, p);
    let right = mod_exp(base2, e2, p);
    let product = big_mul(&left, &right);
    proof {
        assert(left@ * right@ >= 0) by (nonlinear_arith)
            requires
                left@ >= 0,
                right@ >= 0,
        ;
        lemma_truncated_rem(product@, p@);
        lemma_normalize(product@ % p@, p@);
        lemma_mod_twice(product@, p@);
    }
    big_rem(&big_add(&big_rem(&product, p), p), p)
}

/// A fresh session token.
pub fn session_token() -> (token: String)
    ensures
        is_session_token(token@),
        token@ != WRONG_CREDENTIALS@,
{
    let word = BigNum::from_u64(0x1_0000_0000);
    let half = big_mul(&word, &word);
    let bound = big_mul(&half, &half);
    proof {
        assert(half@ == 0x1_0000_0000_0000_0000int) by (nonlinear_arith)
            requires
                half@ == word@ * word@,
                word@ == 0x1_0000_0000int,
        ;
        assert(bound@ == session_token_bound()) by (nonlinear_arith)
            requires
                bound@ == half@ * half@,
                half@ == 0x1_0000_0000_0000_0000int,
                session_token_bound() == 0x1_0000_0000_0000_0000_0000_0000_0000_0000int,
        ;
    }
    let drawn = random_big_int(BigNum::from_u64(0), bound);
    let token = to_hex(&drawn);
    proof {
        lemma_integer_text_is_no_sentinel(drawn@);
    }
    token
}

} // verus!
