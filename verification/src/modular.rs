//! Modular powers: the congruences that binary exponentiation rests on, and
//! the facts about exponents and orders that the protocol rests on.

use vstd::prelude::*;
use vstd::arithmetic::div_mod::{
    lemma_add_mod_noop,
    lemma_fundamental_div_mod,
    lemma_mod_bound,
    lemma_mod_multiples_basic,
    lemma_mod_multiples_vanish,
    lemma_mod_twice,
    lemma_mul_mod_noop,
    lemma_mul_mod_noop_general,
    lemma_small_mod,
};
use vstd::arithmetic::power::{
    lemma1_pow,
    lemma_pow0,
    lemma_pow1,
    lemma_pow_adds,
    lemma_pow_mod_noop,
    lemma_pow_multiplies,
    pow,
};
use crate::bignum::truncated_rem;

verus! {

/// The exponent that a modular power is taken to: a negative one counts as zero.
pub open spec fn effective_exponent(exponent: int) -> nat {
    if exponent > 0 {
        exponent as nat
    } else {
        0
    }
}

/// `base` to the power `exponent`, reduced into `[0, modulus)`.
pub open spec fn mod_pow(base: int, exponent: int, modulus: int) -> int {
    pow(base, effective_exponent(exponent)) % modulus
}

/// A modular power lies in `[0, modulus)`.
pub proof fn lemma_mod_pow_range(base: int, exponent: int, modulus: int)
    requires
        modulus >= 1,
    ensures
        0 <= mod_pow(base, exponent, modulus) < modulus,
{
    lemma_mod_bound(pow(base, effective_exponent(exponent)), modulus);
}

/// The truncated remainder is congruent to the dividend and smaller in
/// magnitude than the divisor.
pub proof fn lemma_truncated_rem(a: int, m: int)
    requires
        m > 0,
    ensures
        truncated_rem(a, m) % m == a % m,
        -m < truncated_rem(a, m) < m,
        a >= 0 ==> truncated_rem(a, m) == a % m,
{
    if a >= 0 {
        lemma_mod_bound(a, m);
        lemma_mod_twice(a, m);
    } else {
        let t = (-a) % m;
        let k = (-a) / m;
        lemma_mod_bound(-a, m);
        lemma_fundamental_div_mod(-a, m);
        assert(a == m * (-k) + (-t)) by (nonlinear_arith)
            requires
                -a == m * k + t,
        ;
        lemma_mod_multiples_vanish(-k, -t, m);
    }
}

/// Congruent bases have congruent powers.
pub proof fn lemma_pow_congruent(a: int, b: int, e: nat, m: int)
    requires
        m > 0,
        a % m == b % m,
    ensures
        pow(a, e) % m == pow(b, e) % m,
{
    lemma_pow_mod_noop(a, e, m);
    lemma_pow_mod_noop(b, e, m);
}

/// Congruent factors have congruent products.
pub proof fn lemma_mul_congruent(a: int, b: int, c: int, d: int, m: int)
    requires
        m > 0,
        a % m == c % m,
        b % m == d % m,
    ensures
        (a * b) % m == (c * d) % m,
{
    lemma_mul_mod_noop_general(a, b, m);
    lemma_mul_mod_noop_general(c, d, m);
}

/// Halving the exponent squares the base; an odd exponent leaves one factor over.
pub proof fn lemma_pow_halve(b: int, e: nat)
    ensures
        e % 2 == 0 ==> pow(b, e) == pow(b * b, e / 2),
        e % 2 == 1 ==> pow(b, e) == b * pow(b * b, e / 2),
{
    let half: nat = e / 2;
    assert(pow(b, 2) == b * b) by {
        lemma_pow_adds(b, 1, 1);
        lemma_pow1(b);
    }
    assert(pow(b * b, half) == pow(b, 2 * half)) by {
        lemma_pow_multiplies(b, 2, half);
    }
    if e % 2 == 1 {
        lemma_pow_adds(b, 1, 2 * half);
        lemma_pow1(b);
    }
}

/// One round of square-and-multiply keeps `acc * base^e` unchanged modulo `m`.
pub proof fn lemma_square_and_multiply_step(
    acc: int,
    base: int,
    e: nat,
    m: int,
    next_acc: int,
    next_base: int,
)
    requires
        m > 0,
        e > 0,
        next_base % m == (base * base) % m,
        e % 2 == 1 ==> next_acc % m == (acc * base) % m,
        e % 2 == 0 ==> next_acc == acc,
    ensures
        (next_acc * pow(next_base, e / 2)) % m == (acc * pow(base, e)) % m,
{
    let half: nat = e / 2;
    lemma_pow_halve(base, e);
    lemma_pow_congruent(next_base, base * base, half, m);
    let squares = pow(base * base, half);
    if e % 2 == 1 {
        lemma_mul_congruent(next_acc, pow(next_base, half), acc * base, squares, m);
        assert((acc * base) * squares == acc * (base * squares)) by (nonlinear_arith);
    } else {
        lemma_mul_congruent(next_acc, pow(next_base, half), acc, squares, m);
    }
}

/// Adding the modulus to a value of magnitude below it and reducing gives
/// the value's residue.
pub proof fn lemma_normalize(r: int, m: int)
    requires
        m > 0,
        -m < r < m,
    ensures
        truncated_rem(r + m, m) == r % m,
{
    lemma_mod_multiples_vanish(1, r, m);
}

/// Multiplying an exponent by the order of the base does not move the power
/// away from one.
pub proof fn lemma_pow_order_multiple(b: int, order: nat, t: nat, m: int)
    requires
        m > 1,
        pow(b, order) % m == 1,
    ensures
        pow(b, order * t) % m == 1,
{
    lemma_pow_multiplies(b, order, t);
    lemma_pow_mod_noop(pow(b, order), t, m);
    lemma1_pow(t);
    lemma_small_mod(1, m as nat);
}

/// Exponents that are congruent modulo the order give the same power.
pub proof fn lemma_pow_exponent_congruent(b: int, order: nat, e1: nat, e2: nat, m: int)
    requires
        m > 1,
        order > 0,
        pow(b, order) % m == 1,
        e1 % order == e2 % order,
    ensures
        pow(b, e1) % m == pow(b, e2) % m,
{
    lemma_pow_reduce_exponent(b, order, e1, m);
    lemma_pow_reduce_exponent(b, order, e2, m);
}

/// An exponent may be reduced modulo the order of the base.
pub proof fn lemma_pow_reduce_exponent(b: int, order: nat, e: nat, m: int)
    requires
        m > 1,
        order > 0,
        pow(b, order) % m == 1,
    ensures
        pow(b, e) % m == pow(b, e % order) % m,
{
    let t: nat = e / order;
    let r: nat = e % order;
    lemma_fundamental_div_mod(e as int, order as int);
    lemma_pow_adds(b, order * t, r);
    lemma_pow_order_multiple(b, order, t, m);
    lemma_mul_mod_noop_general(pow(b, order * t), pow(b, r), m);
    lemma_pow0(b);
}

/// A number above one that no number strictly between one and itself divides.
pub open spec fn is_prime(n: int) -> bool {
    &&& n >= 2
    &&& forall|d: int| 1 < d < n ==> #[trigger] (n % d) != 0
}

/// The verifier's recombination `b^s * (b^x)^c` is the single power `b^(s + c*x)`.
pub proof fn lemma_recombined_power(b: int, p: int, s: int, x: int, c: int)
    requires
        p >= 1,
        s >= 0,
        x >= 0,
        c >= 0,
    ensures
        s + c * x >= 0,
        (mod_pow(b, s, p) * mod_pow(mod_pow(b, x, p), c, p)) % p == pow(b, (s + c * x) as nat) % p,
{
    let xn = x as nat;
    let cn = c as nat;
    let sn = s as nat;
    assert(c * x >= 0) by (nonlinear_arith)
        requires
            x >= 0,
            c >= 0,
    ;
    assert(xn * cn == c * x) by (nonlinear_arith)
        requires
            xn == x,
            cn == c,
    ;
    lemma_pow_mod_noop(pow(b, xn), cn, p);
    lemma_pow_multiplies(b, xn, cn);
    lemma_mul_mod_noop(pow(b, sn), pow(b, xn * cn), p);
    lemma_pow_adds(b, sn, xn * cn);
}

/// The exponent that an honest response recombines to is congruent to the
/// exponent of the attempt.
pub proof fn lemma_response_exponent(q: int, k: int, c: int, x: int)
    requires
        q >= 1,
    ensures
        0 <= (k - c * x) % q < q,
        ((k - c * x) % q + c * x) % q == k % q,
{
    lemma_mod_bound(k - c * x, q);
    lemma_add_mod_noop(k - c * x, c * x, q);
    lemma_add_mod_noop((k - c * x) % q, c * x, q);
    lemma_mod_twice(k - c * x, q);
}

/// One generator's half of completeness: the recombination gives back the
/// commitment of the attempt.
pub proof fn lemma_commitment_recovered(b: int, p: int, q: int, x: int, k: int, c: int)
    requires
        p >= 2,
        q >= 1,
        mod_pow(b, q, p) == 1,
        x >= 0,
        k >= 0,
        c >= 0,
    ensures
        (mod_pow(b, (k - c * x) % q, p) * mod_pow(mod_pow(b, x, p), c, p)) % p == mod_pow(b, k, p),
{
    let s = (k - c * x) % q;
    lemma_response_exponent(q, k, c, x);
    lemma_recombined_power(b, p, s, x, c);
    lemma_pow_exponent_congruent(b, q as nat, (s + c * x) as nat, k as nat, p);
}

/// A prime that divides a product with a factor below it divides the other factor.
pub proof fn lemma_prime_divides_product(q: int, c: int, m: int)
    requires
        is_prime(q),
        0 < c < q,
        (c * m) % q == 0,
    ensures
        m % q == 0,
    decreases c,
{
    if c > 1 {
        // With q = c * t + r and c * m = q * u, the remainder r is not zero
        // and r * m = q * (m - t * u): the prime divides r * m as well.
        let r = q % c;
        let t = q / c;
        let u = (c * m) / q;
        lemma_fundamental_div_mod(q, c);
        lemma_mod_bound(q, c);
        lemma_fundamental_div_mod(c * m, q);
        assert(r * m == q * (m - t * u)) by (nonlinear_arith)
            requires
                q == c * t + r,
                c * m == q * u,
        ;
        lemma_mod_multiples_basic(m - t * u, q);
        assert((m - t * u) * q == q * (m - t * u)) by (nonlinear_arith);
        lemma_prime_divides_product(q, r, m);
    }
}

/// If a power of `b` with a positive exponent below the prime `q` is one,
/// and so is the `q`-th power, then `b` itself is one.
pub proof fn lemma_order_of_prime_power(b: int, p: int, q: int, d: int)
    requires
        p >= 2,
        is_prime(q),
        mod_pow(b, q, p) == 1,
        0 < d < q,
        mod_pow(b, d, p) == 1,
    ensures
        b % p == 1,
    decreases d,
{
    if d == 1 {
        lemma_pow1(b);
    } else {
        // The remainder of q by d is not zero, since q is prime, and the
        // power at it is one as well: descend to it.
        lemma_mod_bound(q, d);
        lemma_pow_reduce_exponent(b, d as nat, q as nat, p);
        lemma_order_of_prime_power(b, p, q, q % d);
    }
}

/// Powers of `b` that agree at two different exponents below `q` make the
/// power at their difference one, when the `q`-th power is one.
pub proof fn lemma_power_cancels(b: int, p: int, q: int, low: int, high: int)
    requires
        p >= 2,
        q >= 1,
        mod_pow(b, q, p) == 1,
        0 <= low < high < q,
        mod_pow(b, low, p) == mod_pow(b, high, p),
    ensures
        mod_pow(b, high - low, p) == 1,
{
    // Multiply both powers by b^(q - low): one becomes b^q, the other
    // b^q * b^(high - low).
    let rest = (q - low) as nat;
    let d = (high - low) as nat;
    lemma_mul_congruent(pow(b, rest), pow(b, low as nat), pow(b, rest), pow(b, high as nat), p);
    lemma_pow_adds(b, rest, low as nat);
    lemma_pow_adds(b, rest, high as nat);
    lemma_pow_adds(b, q as nat, d);
    lemma_mul_mod_noop(pow(b, q as nat), pow(b, d), p);
    lemma_small_mod(1, p as nat);
    lemma_mod_twice(pow(b, d), p);
}

} // verus!
