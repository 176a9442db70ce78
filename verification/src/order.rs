//! Exponents that give `1`: the tools for finding the multiplicative order
//! of a residue.

use crate::modular::{congruent, fp_mul, fp_pow, lemma_mul_congruent, lemma_pow_congruent};
use vstd::arithmetic::div_mod::{
    lemma_fundamental_div_mod, lemma_mod_multiples_basic, lemma_mod_self_0,
    lemma_mod_sub_multiples_vanish, lemma_small_mod,
};
use vstd::arithmetic::mul::{
    lemma_mul_equality_converse, lemma_mul_is_associative, lemma_mul_is_commutative,
    lemma_mul_is_distributive_add, lemma_mul_is_distributive_add_other_way,
    lemma_mul_is_distributive_sub,
};
use vstd::arithmetic::power::{lemma1_pow, lemma_pow_adds, lemma_pow_multiplies, pow};
use vstd::arithmetic::power2::{lemma2_to64, lemma_pow2_unfold, pow2};
use vstd::prelude::*;

verus! {

/// One step of an addition chain: the residue of `b^(e1+e2)` from those of
/// `b^e1` and `b^e2`.
pub proof fn lemma_pow_step(b: int, e1: nat, e2: nat, r1: int, r2: int, r: int)
    requires
        congruent(pow(b, e1), r1),
        congruent(pow(b, e2), r2),
        congruent(r1 * r2, r),
    ensures
        congruent(pow(b, e1 + e2), r),
{
    lemma_pow_adds(b, e1, e2);
    lemma_mul_congruent(pow(b, e1), r1, pow(b, e2), r2);
}

/// The power of a sum of exponents is the product of the powers.
pub proof fn lemma_fp_pow_adds(b: int, i: nat, j: nat)
    ensures
        fp_pow(b, i + j) == fp_mul(fp_pow(b, i), fp_pow(b, j)),
{
    lemma_pow_adds(b, i, j);
    lemma_mul_congruent(pow(b, i), fp_pow(b, i), pow(b, j), fp_pow(b, j));
}

/// A multiple of an exponent that gives `1` gives `1`.
pub proof fn lemma_period_multiple(b: int, e: nat, j: nat)
    requires
        fp_pow(b, e) == 1,
    ensures
        fp_pow(b, e * j) == 1,
{
    lemma_pow_multiplies(b, e, j);
    lemma_pow_congruent(pow(b, e), 1, j);
    lemma1_pow(j);
}

/// The remainder of two exponents that give `1` gives `1`.
pub proof fn lemma_period_mod(b: int, n: nat, d: nat)
    requires
        fp_pow(b, n) == 1,
        fp_pow(b, d) == 1,
        d > 0,
    ensures
        fp_pow(b, n % d) == 1,
    decreases n,
{
    if n < d {
        lemma_small_mod(n, d);
    } else {
        let rest = (n - d) as nat;
        lemma_fp_pow_adds(b, rest, d);
        assert(fp_pow(b, rest) * 1 == fp_pow(b, rest));
        lemma_period_mod(b, rest, d);
        lemma_mod_sub_multiples_vanish(n as int, d as int);
    }
}

/// A multiple of `e` plus a multiple of `e` is a multiple of `e`.
pub proof fn lemma_divides_combination(e: int, b: int, q: int, r: int)
    requires
        e > 0,
        b % e == 0,
        r % e == 0,
    ensures
        (b * q + r) % e == 0,
{
    lemma_fundamental_div_mod(b, e);
    lemma_fundamental_div_mod(r, e);
    let kb = b / e;
    let kr = r / e;
    assert(b * q + r == (kb * q + kr) * e) by {
        lemma_mul_is_associative(e, kb, q);
        lemma_mul_is_distributive_add(e, kb * q, kr);
        lemma_mul_is_commutative(e, kb * q + kr);
    }
    lemma_mod_multiples_basic(kb * q + kr, e);
}

/// By Euclid's algorithm, two exponents that give `1` have a common
/// divisor that gives `1`.
pub proof fn lemma_common_period(b: int, n: nat, d: nat) -> (e: nat)
    requires
        fp_pow(b, n) == 1,
        fp_pow(b, d) == 1,
        n > 0,
    ensures
        e > 0,
        fp_pow(b, e) == 1,
        n % e == 0,
        d % e == 0,
    decreases d,
{
    if d == 0 {
        lemma_mod_self_0(n as int);
        n
    } else {
        lemma_period_mod(b, n, d);
        let r = n % d;
        let e = lemma_common_period(b, d, r);
        lemma_fundamental_div_mod(n as int, d as int);
        lemma_divides_combination(e as int, d as int, n as int / d as int, r as int);
        e
    }
}

/// For a prime `q` that does not divide `m`: if `q` divides `m·c`, it
/// divides `c`.
pub proof fn lemma_cofactor(q: int, m: int, c: int, h: int)
    requires
        q == 2 || q == 3 || q == 5,
        m % q != 0,
        m * c == q * h,
    ensures
        c % q == 0,
        m * (c / q) == h,
{
    let a = m / q;
    let r = m % q;
    let b = c / q;
    let s = c % q;
    lemma_fundamental_div_mod(m, q);
    lemma_fundamental_div_mod(c, q);
    // m·c = q·(m·b) + q·(a·s) + r·s
    lemma_mul_is_distributive_add(m, q * b, s);
    lemma_mul_is_associative(m, q, b);
    lemma_mul_is_commutative(m, q);
    lemma_mul_is_associative(q, m, b);
    lemma_mul_is_distributive_add_other_way(s, q * a, r);
    lemma_mul_is_associative(q, a, s);
    let t = h - m * b - a * s;
    assert(r * s == q * t) by {
        lemma_mul_is_distributive_sub(q, h, m * b);
        lemma_mul_is_distributive_sub(q, h - m * b, a * s);
    }
    assert(s == 0) by {
        if r == 1 {
            assert(r * s == s) by (nonlinear_arith)
                requires
                    r == 1,
            ;
        } else if r == 2 {
            assert(r * s == 2 * s) by (nonlinear_arith)
                requires
                    r == 2,
            ;
        } else if r == 3 {
            assert(r * s == 3 * s) by (nonlinear_arith)
                requires
                    r == 3,
            ;
        } else {
            assert(r * s == 4 * s) by (nonlinear_arith)
                requires
                    r == 4,
            ;
        }
    }
    assert(q * (m * b) == q * h);
    lemma_mul_equality_converse(q, m * b, h);
}

/// An odd divisor of `2^k · h` divides `h`.
pub proof fn lemma_strip_twos(m: int, c: int, h: int, k: nat) -> (c2: int)
    requires
        m % 2 != 0,
        m * c == pow2(k) * h,
    ensures
        m * c2 == h,
    decreases k,
{
    if k == 0 {
        lemma2_to64();
        c
    } else {
        lemma_pow2_unfold(k);
        lemma_mul_is_associative(2, pow2((k - 1) as nat) as int, h);
        lemma_cofactor(2, m, c, pow2((k - 1) as nat) * h);
        lemma_strip_twos(m, c / 2, h, (k - 1) as nat)
    }
}

} // verus!
