//! What the protocol guarantees, proved over its mathematical description.

use vstd::prelude::*;
use vstd::arithmetic::div_mod::{lemma_mod_bound, lemma_mod_equivalence, lemma_small_mod};
use vstd::arithmetic::power::pow;
use crate::encoding::{lemma_radix_round_trip, radix_text, radix_value};
use crate::messages::{
    lemma_integer_text_is_no_sentinel,
    AuthenticationChallengeRequest,
    AuthenticationChallengeResponse,
    NOT_REGISTERED,
};
use crate::modular::{
    is_prime,
    lemma_commitment_recovered,
    lemma_order_of_prime_power,
    lemma_pow_exponent_congruent,
    lemma_pow_reduce_exponent,
    lemma_power_cancels,
    lemma_prime_divides_product,
    lemma_recombined_power,
    lemma_response_exponent,
    mod_pow,
};
use crate::parameters::Group;
use crate::protocol::{
    accepts,
    answer_step,
    challenge_step,
    commitments,
    register_step,
    response,
    IdentityView,
    ProtocolError,
    RegisterOutcome,
    Verdict,
};
use crate::server::challenge_handled;
use crate::zkp_utils::{default_hash_value, identity_key_of};

verus! {

/// Completeness: whatever the secret, the exponent of the attempt and the
/// challenge, the response of a prover who follows the protocol passes the
/// verifier's test.
pub proof fn lemma_honest_prover_accepted(grp: Group, x: int, k: int, c: int)
    requires
        grp.wf(),
        x >= 0,
        k >= 0,
        c >= 0,
    ensures
        accepts(
            grp,
            commitments(grp, x).0,
            commitments(grp, x).1,
            commitments(grp, k).0,
            commitments(grp, k).1,
            c,
            response(grp, k, c, x),
        ),
{
    lemma_commitment_recovered(grp.g, grp.p, grp.q, x, k, c);
    lemma_commitment_recovered(grp.h, grp.p, grp.q, x, k, c);
}

/// Completeness of a whole login: for an identity registered with the
/// commitments to `x`, a challenge request and the honest answer to the
/// challenge end in `Verified`.
pub proof fn lemma_honest_login_verified(grp: Group, before: IdentityView, x: int, k: int, c: int)
    requires
        grp.wf(),
        x >= 0,
        k >= 0,
        c >= 0,
        before.settled() == (IdentityView::Registered {
            y1: commitments(grp, x).0,
            y2: commitments(grp, x).1,
        }),
    ensures
        ({
            let opened = challenge_step(
                before,
                Some(commitments(grp, k).0),
                Some(commitments(grp, k).1),
                c,
            );
            let answered = answer_step(grp, opened.0, Some(response(grp, k, c, x)));
            &&& opened.1 == Ok::<bool, ProtocolError>(true)
            &&& answered.1 == Ok::<Verdict, ProtocolError>(Verdict::Verified)
            &&& answered.0 == before.settled()
        }),
{
    lemma_honest_prover_accepted(grp, x, k, c);
}

/// Soundness against a wrong secret: a response computed from an exponent
/// that is not congruent to the secret modulo `q` fails the verifier's test
/// for every challenge strictly between zero and `q`, provided `q` is prime.
pub proof fn lemma_wrong_secret_rejected(grp: Group, x: int, guess: int, k: int, c: int)
    requires
        grp.wf(),
        is_prime(grp.q),
        x >= 0,
        guess >= 0,
        k >= 0,
        0 < c < grp.q,
        x % grp.q != guess % grp.q,
    ensures
        !accepts(
            grp,
            commitments(grp, x).0,
            commitments(grp, x).1,
            commitments(grp, k).0,
            commitments(grp, k).1,
            c,
            response(grp, k, c, guess),
        ),
{
    let g = grp.g;
    let p = grp.p;
    let q = grp.q;
    let s = (k - c * guess) % q;
    let claimed = (s + c * x) as nat;
    let honest = (s + c * guess) as nat;
    lemma_response_exponent(q, k, c, guess);
    lemma_recombined_power(g, p, s, x, c);
    lemma_recombined_power(g, p, s, guess, c);
    lemma_pow_exponent_congruent(g, q as nat, honest, k as nat, p);
    if (mod_pow(g, s, p) * mod_pow(mod_pow(g, x, p), c, p)) % p == mod_pow(g, k, p) {
        lemma_pow_reduce_exponent(g, q as nat, claimed, p);
        lemma_pow_reduce_exponent(g, q as nat, honest, p);
        let a = claimed as int % q;
        let b = honest as int % q;
        lemma_mod_bound(claimed as int, q);
        lemma_mod_bound(honest as int, q);
        assert(a != b) by {
            if a == b {
                lemma_mod_equivalence(claimed as int, honest as int, q);
                assert(claimed - honest == c * (x - guess)) by (nonlinear_arith)
                    requires
                        claimed == s + c * x,
                        honest == s + c * guess,
                ;
                lemma_prime_divides_product(q, c, x - guess);
                lemma_mod_equivalence(x, guess, q);
            }
        }
        if a < b {
            lemma_power_cancels(g, p, q, a, b);
            lemma_order_of_prime_power(g, p, q, b - a);
        } else {
            lemma_power_cancels(g, p, q, b, a);
            lemma_order_of_prime_power(g, p, q, a - b);
        }
        lemma_small_mod(g as nat, p as nat);
    }
}

/// Single use: once an answer was handled for an identity, whether it was
/// accepted, failed or was malformed, no attempt is pending, and no further
/// answer is accepted until a new challenge is issued.
pub proof fn lemma_attempt_is_single_use(
    grp: Group,
    before: IdentityView,
    first: Option<int>,
    second: Option<int>,
)
    ensures
        ({
            let after = answer_step(grp, before, first).0;
            let again = answer_step(grp, after, second);
            &&& !(after is ChallengeIssued)
            &&& again.1 != Ok::<Verdict, ProtocolError>(Verdict::Verified)
            &&& again.0 == after
        }),
{
}

/// Idempotent registration: a second registration of an identity, whatever
/// it holds, is reported as such without an error and leaves the record of
/// the first.
pub proof fn lemma_registration_is_idempotent(
    before: IdentityView,
    first: (Option<int>, Option<int>),
    second: (Option<int>, Option<int>),
)
    ensures
        ({
            let once = register_step(before, first.0, first.1);
            let twice = register_step(once.0, second.0, second.1);
            once.1 is Ok ==> {
                &&& twice.0 == once.0
                &&& twice.1 == Ok::<RegisterOutcome, ProtocolError>(
                    RegisterOutcome::AlreadyRegistered,
                )
            }
        }),
{
}

/// The registration record is permanent: neither a challenge request nor
/// an answer changes it.
pub proof fn lemma_registration_is_permanent(
    grp: Group,
    before: IdentityView,
    r1: Option<int>,
    r2: Option<int>,
    c: int,
    s: Option<int>,
)
    ensures
        challenge_step(before, r1, r2, c).0.settled() == before.settled(),
        answer_step(grp, before, s).0.settled() == before.settled(),
{
}

/// The not-registered path: handling a challenge request for an identity
/// without a registration leaves no trace in its state, and the reply
/// carries the reserved text in place of a key.
pub proof fn lemma_unregistered_gets_no_challenge(
    request: AuthenticationChallengeRequest,
    c: int,
    after: IdentityView,
    reply: Result<AuthenticationChallengeResponse, ProtocolError>,
)
    requires
        challenge_handled(IdentityView::Unregistered, request, c, after, reply),
    ensures
        after == IdentityView::Unregistered,
        reply matches Ok(message) && message.auth_id@ == NOT_REGISTERED@,
{
}

/// The reserved text that stands for "not registered" is the key of no user.
pub proof fn lemma_reserved_text_is_no_key(name: Seq<char>)
    ensures
        identity_key_of(name) != NOT_REGISTERED@,
{
    lemma_integer_text_is_no_sentinel(default_hash_value(name) as int);
}

/// The text of an integer is read back as that integer, so what one party
/// writes into a message is what the other computes with.
pub proof fn lemma_wire_round_trip(v: int)
    ensures
        radix_value(radix_text(v, 16), 16) == Some(v),
{
    lemma_radix_round_trip(v, 16);
}

} // verus!
