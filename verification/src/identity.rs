//! The state that the verifier keeps for one identity, and the operations
//! of the identity directory on it.

use vstd::prelude::*;
use crate::bignum::BigNum;
use crate::protocol::{records_view, IdentityView, RegisterOutcome};

verus! {

/// The integers that an optional pair of numbers denotes.
pub open spec fn pair_view(pair: Option<(BigNum, BigNum)>) -> Option<(int, int)> {
    match pair {
        Some(pair) => Some((pair.0@, pair.1@)),
        None => None,
    }
}

/// The integer that an optional number denotes.
pub open spec fn number_view(number: Option<BigNum>) -> Option<int> {
    match number {
        Some(number) => Some(number@),
        None => None,
    }
}

/// All that the verifier keeps for one identity.
#[derive(Debug)]
pub enum IdentityState {
    /// No registration record.
    Unregistered,
    /// A registration record and no pending attempt.
    Registered { y1: BigNum, y2: BigNum },
    /// A registration record and the commitment and challenge of the one
    /// pending attempt.
    ChallengeIssued { y1: BigNum, y2: BigNum, r1: BigNum, r2: BigNum, c: BigNum },
}

impl View for IdentityState {
    type V = IdentityView;

    open spec fn view(&self) -> IdentityView {
        match self {
            IdentityState::Unregistered => IdentityView::Unregistered,
            IdentityState::Registered { y1, y2 } => IdentityView::Registered { y1: y1@, y2: y2@ },
            IdentityState::ChallengeIssued { y1, y2, r1, r2, c } => IdentityView::ChallengeIssued {
                y1: y1@,
                y2: y2@,
                r1: r1@,
                r2: r2@,
                c: c@,
            },
        }
    }
}

impl Clone for IdentityState {
    fn clone(&self) -> (r: IdentityState)
        ensures
            r@ == self@,
    {
        match self {
            IdentityState::Unregistered => IdentityState::Unregistered,
            IdentityState::Registered { y1, y2 } => IdentityState::Registered {
                y1: y1.clone(),
                y2: y2.clone(),
            },
            IdentityState::ChallengeIssued { y1, y2, r1, r2, c } => IdentityState::ChallengeIssued {
                y1: y1.clone(),
                y2: y2.clone(),
                r1: r1.clone(),
                r2: r2.clone(),
                c: c.clone(),
            },
        }
    }
}

impl PartialEq for IdentityState {
    fn eq(&self, other: &IdentityState) -> (r: bool) {
        match (self, other) {
            (IdentityState::Unregistered, IdentityState::Unregistered) => true,
            (
                IdentityState::Registered { y1, y2 },
                IdentityState::Registered { y1: other_y1, y2: other_y2 },
            ) => y1.equals(other_y1) && y2.equals(other_y2),
            (
                IdentityState::ChallengeIssued { y1, y2, r1, r2, c },
                IdentityState::ChallengeIssued {
                    y1: other_y1,
                    y2: other_y2,
                    r1: other_r1,
                    r2: other_r2,
                    c: other_c,
                },
            ) => {
                y1.equals(other_y1) && y2.equals(other_y2) && r1.equals(other_r1) && r2.equals(
                    other_r2,
                ) && c.equals(other_c)
            },
            _ => false,
        }
    }
}

impl vstd::std_specs::cmp::PartialEqSpecImpl for IdentityState {
    open spec fn obeys_eq_spec() -> bool {
        true
    }

    open spec fn eq_spec(&self, other: &IdentityState) -> bool {
        self@ == other@
    }
}

impl IdentityState {
    /// The state that the stored records of an identity amount to. An
    /// attempt is pending only where its commitments and its challenge are
    /// both there, and only for a registered identity.
    pub fn from_records(
        registration: Option<(BigNum, BigNum)>,
        commitment: Option<(BigNum, BigNum)>,
        challenge: Option<BigNum>,
    ) -> (r: IdentityState)
        ensures
            r@ == records_view(pair_view(registration), pair_view(commitment), number_view(challenge)),
    {
        match (registration, commitment, challenge) {
            (None, _, _) => IdentityState::Unregistered,
            (Some((y1, y2)), Some((r1, r2)), Some(c)) => IdentityState::ChallengeIssued {
                y1,
                y2,
                r1,
                r2,
                c,
            },
            (Some((y1, y2)), _, _) => IdentityState::Registered { y1, y2 },
        }
    }

    /// Whether the identity has a registration record.
    pub fn is_registered(&self) -> (r: bool)
        ensures
            r == !(self@ is Unregistered),
    {
        match self {
            IdentityState::Unregistered => false,
            _ => true,
        }
    }

    /// Whether an attempt is pending.
    pub fn has_pending(&self) -> (r: bool)
        ensures
            r == (self@ is ChallengeIssued),
    {
        match self {
            IdentityState::ChallengeIssued { .. } => true,
            _ => false,
        }
    }

    /// The registered commitments, if the identity has a record.
    pub fn registration(&self) -> (r: Option<(&BigNum, &BigNum)>)
        ensures
            (match self@ {
                IdentityView::Unregistered => r is None,
                IdentityView::Registered { y1, y2 } | IdentityView::ChallengeIssued { y1, y2, .. } => {
                    r matches Some(pair) && pair.0@ == y1 && pair.1@ == y2
                },
            }),
    {
        match self {
            IdentityState::Unregistered => None,
            IdentityState::Registered { y1, y2 } => Some((y1, y2)),
            IdentityState::ChallengeIssued { y1, y2, .. } => Some((y1, y2)),
        }
    }

    /// The commitments and the challenge of the pending attempt, if there is one.
    pub fn pending(&self) -> (r: Option<(&BigNum, &BigNum, &BigNum)>)
        ensures
            (match self@ {
                IdentityView::ChallengeIssued { r1, r2, c, .. } => {
                    r matches Some(attempt) && attempt.0@ == r1 && attempt.1@ == r2 && attempt.2@
                        == c
                },
                _ => r is None,
            }),
    {
        match self {
            IdentityState::ChallengeIssued { r1, r2, c, .. } => Some((r1, r2, c)),
            _ => None,
        }
    }

    /// Creates the registration record unless there is one.
    pub fn put_registration(&mut self, y1: BigNum, y2: BigNum) -> (r: RegisterOutcome)
        ensures
            final(self)@ == old(self)@.with_registration(y1@, y2@),
            r == (if old(self)@ is Unregistered {
                RegisterOutcome::Created
            } else {
                RegisterOutcome::AlreadyRegistered
            }),
    {
        if self.is_registered() {
            RegisterOutcome::AlreadyRegistered
        } else {
            *self = IdentityState::Registered { y1, y2 };
            RegisterOutcome::Created
        }
    }

    /// Stores the commitment and challenge of a new attempt in place of a
    /// pending one; does nothing without a registration record.
    pub fn upsert_pending(&mut self, r1: BigNum, r2: BigNum, c: BigNum) -> (stored: bool)
        ensures
            final(self)@ == old(self)@.with_pending(r1@, r2@, c@),
            stored == !(old(self)@ is Unregistered),
    {
        let mut current = IdentityState::Unregistered;
        std::mem::swap(self, &mut current);
        match current {
            IdentityState::Unregistered => false,
            IdentityState::Registered { y1, y2 } | IdentityState::ChallengeIssued { y1, y2, .. } => {
                *self = IdentityState::ChallengeIssued { y1, y2, r1, r2, c };
                true
            },
        }
    }

    /// Removes the pending attempt and returns its commitments and challenge.
    pub fn take_pending(&mut self) -> (r: Option<(BigNum, BigNum, BigNum)>)
        ensures
            final(self)@ == old(self)@.settled(),
            (match old(self)@ {
                IdentityView::ChallengeIssued { r1, r2, c, .. } => {
                    r matches Some(pending) && pending.0@ == r1 && pending.1@ == r2 && pending.2@
                        == c
                },
                _ => r is None,
            }),
    {
        let mut current = IdentityState::Unregistered;
        std::mem::swap(self, &mut current);
        match current {
            IdentityState::ChallengeIssued { y1, y2, r1, r2, c } => {
                *self = IdentityState::Registered { y1, y2 };
                Some((r1, r2, c))
            },
            other => {
                *self = other;
                None
            },
        }
    }
}

} // verus!
