//! The public description of the group that the protocol computes in.

use vstd::prelude::*;
use crate::bignum::{big_rem, big_sub, BigNum};
use crate::modular::mod_pow;
use crate::zkp_utils::mod_exp;

verus! {

/// A group description as mathematical integers: the modulus `p`, the order
/// `q` of the subgroup, and two generators `g` and `h` of that subgroup.
pub struct Group {
    pub p: int,
    pub q: int,
    pub g: int,
    pub h: int,
}

impl Group {
    /// What can be checked of a group description: `q` divides `p - 1` and
    /// is large enough that the ranges from which commitments and challenges
    /// are drawn are not empty, and `g` and `h` are residues other than one
    /// whose `q`-th power is one. For a prime `q` the last says that both
    /// have order `q`.
    pub open spec fn wf(self) -> bool {
        &&& self.p >= 2
        &&& self.q >= 5
        &&& (self.p - 1) % self.q == 0
        &&& 1 < self.g < self.p
        &&& 1 < self.h < self.p
        &&& mod_pow(self.g, self.q, self.p) == 1
        &&& mod_pow(self.h, self.q, self.p) == 1
    }
}

/// A well-formed group description. It is checked once, when it is made,
/// and cannot change afterwards.
pub struct GroupParameters {
    p: BigNum,
    q: BigNum,
    g: BigNum,
    h: BigNum,
}

impl View for GroupParameters {
    type V = Group;

    closed spec fn view(&self) -> Group {
        Group { p: self.p@, q: self.q@, g: self.g@, h: self.h@ }
    }
}

impl GroupParameters {
    /// Holds of every value of this type.
    #[verifier::type_invariant]
    pub open spec fn well_formed(&self) -> bool {
        self@.wf()
    }

    /// Accepts the description exactly when it is well formed.
    pub fn new(p: BigNum, q: BigNum, g: BigNum, h: BigNum) -> (r: Option<GroupParameters>)
        ensures
            r.is_some() == (Group { p: p@, q: q@, g: g@, h: h@ }).wf(),
            r matches Some(params) ==> params@ == (Group { p: p@, q: q@, g: g@, h: h@ }),
    {
        let one = BigNum::from_u64(1);
        let two = BigNum::from_u64(2);
        let five = BigNum::from_u64(5);
        if p.less_than(&two) || q.less_than(&five) {
            return None;
        }
        let zero = BigNum::from_u64(0);
        let cofactor_rest = big_rem(&big_sub(&p, &one), &q);
        if !cofactor_rest.equals(&zero) {
            return None;
        }
        if !one.less_than(&g) || !g.less_than(&p) || !one.less_than(&h) || !h.less_than(&p) {
            return None;
        }
        if !mod_exp(&g, &q, &p).equals(&one) || !mod_exp(&h, &q, &p).equals(&one) {
            return None;
        }
        Some(GroupParameters { p, q, g, h })
    }

    /// The modulus `p`.
    pub fn modulus(&self) -> (r: &BigNum)
        ensures
            r@ == self@.p,
    {
        &self.p
    }

    /// The order `q` of the subgroup.
    pub fn subgroup_order(&self) -> (r: &BigNum)
        ensures
            r@ == self@.q,
    {
        &self.q
    }

    /// The first generator `g`.
    pub fn generator_g(&self) -> (r: &BigNum)
        ensures
            r@ == self@.g,
    {
        &self.g
    }

    /// The second generator `h`.
    pub fn generator_h(&self) -> (r: &BigNum)
        ensures
            r@ == self@.h,
    {
        &self.h
    }
}

} // verus!
