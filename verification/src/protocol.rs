//! The protocol as mathematics: what each party computes, and how the
//! state that the verifier keeps for one identity moves.

use vstd::prelude::*;
use crate::modular::mod_pow;
use crate::parameters::Group;

verus! {

/// Why a request was turned down rather than answered.
#[derive(Clone, Copy, Debug, PartialEq, Eq, Structural)]
pub enum ProtocolError {
    /// A text in the request does not denote an integer.
    MalformedInteger,
    /// An answer was sent for an identity that has no registration.
    NotRegistered,
}

/// What a registration request led to.
#[derive(Clone, Copy, Debug, PartialEq, Eq, Structural)]
pub enum RegisterOutcome {
    /// The registration record was created.
    Created,
    /// The identity had a record already, which was left as it was.
    AlreadyRegistered,
}

/// Whether an answer proved knowledge of the secret.
#[derive(Clone, Copy, Debug, PartialEq, Eq, Structural)]
pub enum Verdict {
    Verified,
    Failed,
}

/// The pair of commitments to an exponent: `g` and `h` raised to it.
pub open spec fn commitments(grp: Group, exponent: int) -> (int, int) {
    (mod_pow(grp.g, exponent, grp.p), mod_pow(grp.h, exponent, grp.p))
}

/// The prover's response to the challenge `c`, from the exponent `k` of
/// the attempt and the secret `x`: `k - c * x` reduced into `[0, q)`.
pub open spec fn response(grp: Group, k: int, c: int, x: int) -> int {
    (k - c * x) % grp.q
}

/// The verifier's test of the response `s`: both commitments of the attempt
/// are recovered from the registered ones.
pub open spec fn accepts(grp: Group, y1: int, y2: int, r1: int, r2: int, c: int, s: int) -> bool {
    &&& (mod_pow(grp.g, s, grp.p) * mod_pow(y1, c, grp.p)) % grp.p == r1
    &&& (mod_pow(grp.h, s, grp.p) * mod_pow(y2, c, grp.p)) % grp.p == r2
}

/// All that the verifier keeps for one identity, as mathematical integers.
pub enum IdentityView {
    /// No registration record.
    Unregistered,
    /// A registration record and no pending attempt.
    Registered { y1: int, y2: int },
    /// A registration record and the commitment and challenge of the one
    /// pending attempt.
    ChallengeIssued { y1: int, y2: int, r1: int, r2: int, c: int },
}

impl IdentityView {
    /// The state after a registration with the commitments `y1` and `y2`:
    /// a record that exists stays as it is.
    pub open spec fn with_registration(self, y1: int, y2: int) -> IdentityView {
        if self is Unregistered {
            IdentityView::Registered { y1, y2 }
        } else {
            self
        }
    }

    /// The state after an attempt was opened: the new attempt replaces a
    /// pending one, and an unregistered identity gets none.
    pub open spec fn with_pending(self, r1: int, r2: int, c: int) -> IdentityView {
        match self {
            IdentityView::Unregistered => self,
            IdentityView::Registered { y1, y2 } | IdentityView::ChallengeIssued { y1, y2, .. } => {
                IdentityView::ChallengeIssued { y1, y2, r1, r2, c }
            },
        }
    }

    /// The state without its pending attempt, if it has one.
    pub open spec fn settled(self) -> IdentityView {
        match self {
            IdentityView::ChallengeIssued { y1, y2, .. } => IdentityView::Registered { y1, y2 },
            _ => self,
        }
    }

    /// The verdict on the response `s`: without a pending attempt it fails.
    pub open spec fn verdict(self, grp: Group, s: int) -> Verdict {
        match self {
            IdentityView::ChallengeIssued { y1, y2, r1, r2, c } => if accepts(
                grp,
                y1,
                y2,
                r1,
                r2,
                c,
                s,
            ) {
                Verdict::Verified
            } else {
                Verdict::Failed
            },
            _ => Verdict::Failed,
        }
    }
}

/// The state that the stored records of an identity amount to: the
/// registration record, and the commitments and the challenge of an attempt.
pub open spec fn records_view(
    registration: Option<(int, int)>,
    commitment: Option<(int, int)>,
    challenge: Option<int>,
) -> IdentityView {
    match registration {
        None => IdentityView::Unregistered,
        Some((y1, y2)) => match (commitment, challenge) {
            (Some((r1, r2)), Some(c)) => IdentityView::ChallengeIssued { y1, y2, r1, r2, c },
            _ => IdentityView::Registered { y1, y2 },
        },
    }
}

/// Registration. A registered identity is left as it is, whatever the
/// request holds; otherwise both commitments must be integers, and become
/// the record.
pub open spec fn register_step(before: IdentityView, y1: Option<int>, y2: Option<int>) -> (
    IdentityView,
    Result<RegisterOutcome, ProtocolError>,
) {
    if !(before is Unregistered) {
        (before, Ok(RegisterOutcome::AlreadyRegistered))
    } else if y1 is None || y2 is None {
        (before, Err(ProtocolError::MalformedInteger))
    } else {
        (before.with_registration(y1.unwrap(), y2.unwrap()), Ok(RegisterOutcome::Created))
    }
}

/// The state after the challenge `c` was asked for with the commitments
/// `r1` and `r2`, and whether a challenge was issued. An unregistered
/// identity gets none and keeps no trace of the request, whatever the
/// request holds; otherwise both commitments must be integers.
pub open spec fn challenge_step(before: IdentityView, r1: Option<int>, r2: Option<int>, c: int) -> (
    IdentityView,
    Result<bool, ProtocolError>,
) {
    if before is Unregistered {
        (before, Ok(false))
    } else if r1 is None || r2 is None {
        (before, Err(ProtocolError::MalformedInteger))
    } else {
        (before.with_pending(r1.unwrap(), r2.unwrap(), c), Ok(true))
    }
}

/// The state after an answer with the response `s`, and the verdict. An
/// answer for an unregistered identity is turned down. Any other answer
/// uses up the pending attempt, even when its response is no integer.
pub open spec fn answer_step(grp: Group, before: IdentityView, s: Option<int>) -> (
    IdentityView,
    Result<Verdict, ProtocolError>,
) {
    if before is Unregistered {
        (before, Err(ProtocolError::NotRegistered))
    } else {
        match s {
            None => (before.settled(), Err(ProtocolError::MalformedInteger)),
            Some(s) => (before.settled(), Ok(before.verdict(grp, s))),
        }
    }
}

} // verus!
