//! The algebra of the folded product over the integers.
//!
//! Polynomials are treated as vectors of four integers.  The product of `a`
//! and `b` is the combination of `b` and its first three shifts (products
//! with `x`) whose weights are the coefficients of `a`; the laws of the
//! product then follow from those of sums, scalings and shifts.

use crate::modular::{congruent, lemma_mul_congruent};
use crate::poly::{poly_mul, Poly};
use vstd::arithmetic::mul::*;
use vstd::prelude::*;

verus! {

/// The sum of two polynomials over the integers.
pub open spec fn poly_add(u: Poly, v: Poly) -> Poly {
    Poly { c0: u.c0 + v.c0, c1: u.c1 + v.c1, c2: u.c2 + v.c2, c3: u.c3 + v.c3 }
}

/// The polynomial `u` with every coefficient multiplied by `s`.
pub open spec fn poly_scale(s: int, u: Poly) -> Poly {
    Poly { c0: s * u.c0, c1: s * u.c1, c2: s * u.c2, c3: s * u.c3 }
}

/// The product of `u` and `x`, folded by `x^4 = w`.
pub open spec fn poly_shift(u: Poly, w: int) -> Poly {
    Poly { c0: w * u.c3, c1: u.c0, c2: u.c1, c3: u.c2 }
}

/// The combination of `b` and its shifts weighted by the coefficients of `a`.
pub open spec fn shift_sum(a: Poly, b: Poly, w: int) -> Poly {
    let b1 = poly_shift(b, w);
    let b2 = poly_shift(b1, w);
    let b3 = poly_shift(b2, w);
    poly_add(
        poly_add(poly_add(poly_scale(a.c0, b), poly_scale(a.c1, b1)), poly_scale(a.c2, b2)),
        poly_scale(a.c3, b3),
    )
}

/// Two polynomials whose coefficients are congruent one by one.
pub open spec fn poly_congruent(a: Poly, b: Poly) -> bool {
    &&& congruent(a.c0, b.c0)
    &&& congruent(a.c1, b.c1)
    &&& congruent(a.c2, b.c2)
    &&& congruent(a.c3, b.c3)
}

/// A factor can be moved past another: `x·(w·y) = w·(x·y)`.
pub proof fn lemma_mul_swap(x: int, w: int, y: int)
    ensures
        x * (w * y) == w * (x * y),
{
    lemma_mul_is_associative(x, w, y);
    lemma_mul_is_commutative(x, w);
    lemma_mul_is_associative(w, x, y);
}

/// Scaling distributes over the sum of polynomials.
pub proof fn lemma_scale_add(s: int, u: Poly, v: Poly)
    ensures
        poly_scale(s, poly_add(u, v)) == poly_add(poly_scale(s, u), poly_scale(s, v)),
{
    lemma_mul_is_distributive_add(s, u.c0, v.c0);
    lemma_mul_is_distributive_add(s, u.c1, v.c1);
    lemma_mul_is_distributive_add(s, u.c2, v.c2);
    lemma_mul_is_distributive_add(s, u.c3, v.c3);
}

/// Scaling twice is scaling by the product.
pub proof fn lemma_scale_scale(s: int, t: int, u: Poly)
    ensures
        poly_scale(s, poly_scale(t, u)) == poly_scale(s * t, u),
{
    lemma_mul_is_associative(s, t, u.c0);
    lemma_mul_is_associative(s, t, u.c1);
    lemma_mul_is_associative(s, t, u.c2);
    lemma_mul_is_associative(s, t, u.c3);
}

/// Scaling by a sum is the sum of the scalings.
pub proof fn lemma_add_scale(s: int, t: int, u: Poly)
    ensures
        poly_scale(s + t, u) == poly_add(poly_scale(s, u), poly_scale(t, u)),
{
    lemma_mul_is_distributive_add_other_way(u.c0, s, t);
    lemma_mul_is_distributive_add_other_way(u.c1, s, t);
    lemma_mul_is_distributive_add_other_way(u.c2, s, t);
    lemma_mul_is_distributive_add_other_way(u.c3, s, t);
}

/// Shifting distributes over the sum of polynomials.
pub proof fn lemma_shift_add(u: Poly, v: Poly, w: int)
    ensures
        poly_shift(poly_add(u, v), w) == poly_add(poly_shift(u, w), poly_shift(v, w)),
{
    lemma_mul_is_distributive_add(w, u.c3, v.c3);
}

/// Shifting commutes with scaling.
pub proof fn lemma_shift_scale(s: int, u: Poly, w: int)
    ensures
        poly_shift(poly_scale(s, u), w) == poly_scale(s, poly_shift(u, w)),
{
    lemma_mul_swap(s, w, u.c3);
}

/// The folded product is the weighted sum of the shifts of its right factor.
pub proof fn lemma_mul_as_shifts(a: Poly, b: Poly, w: int)
    ensures
        poly_mul(a, b, w) == shift_sum(a, b, w),
{
    lemma_mul_swap(a.c1, w, b.c3);
    lemma_mul_swap(a.c2, w, b.c2);
    lemma_mul_swap(a.c3, w, b.c1);
    lemma_mul_swap(a.c2, w, b.c3);
    lemma_mul_swap(a.c3, w, b.c2);
    lemma_mul_swap(a.c3, w, b.c3);
    lemma_mul_is_distributive_add(w, a.c1 * b.c3 + a.c2 * b.c2, a.c3 * b.c1);
    lemma_mul_is_distributive_add(w, a.c1 * b.c3, a.c2 * b.c2);
    lemma_mul_is_distributive_add(w, a.c2 * b.c3, a.c3 * b.c2);
}

/// The folded product is additive in its left factor.
pub proof fn lemma_mul_left_add(u: Poly, v: Poly, c: Poly, w: int)
    ensures
        poly_mul(poly_add(u, v), c, w) == poly_add(poly_mul(u, c, w), poly_mul(v, c, w)),
{
    let c1 = poly_shift(c, w);
    let c2 = poly_shift(c1, w);
    let c3 = poly_shift(c2, w);
    lemma_mul_as_shifts(poly_add(u, v), c, w);
    lemma_mul_as_shifts(u, c, w);
    lemma_mul_as_shifts(v, c, w);
    lemma_add_scale(u.c0, v.c0, c);
    lemma_add_scale(u.c1, v.c1, c1);
    lemma_add_scale(u.c2, v.c2, c2);
    lemma_add_scale(u.c3, v.c3, c3);
}

/// The folded product is homogeneous in its left factor.
pub proof fn lemma_mul_left_scale(s: int, u: Poly, c: Poly, w: int)
    ensures
        poly_mul(poly_scale(s, u), c, w) == poly_scale(s, poly_mul(u, c, w)),
{
    let c1 = poly_shift(c, w);
    let c2 = poly_shift(c1, w);
    let c3 = poly_shift(c2, w);
    let t0 = poly_scale(u.c0, c);
    let t1 = poly_scale(u.c1, c1);
    let t2 = poly_scale(u.c2, c2);
    let t3 = poly_scale(u.c3, c3);
    lemma_mul_as_shifts(poly_scale(s, u), c, w);
    lemma_mul_as_shifts(u, c, w);
    lemma_scale_scale(s, u.c0, c);
    lemma_scale_scale(s, u.c1, c1);
    lemma_scale_scale(s, u.c2, c2);
    lemma_scale_scale(s, u.c3, c3);
    lemma_scale_add(s, poly_add(poly_add(t0, t1), t2), t3);
    lemma_scale_add(s, poly_add(t0, t1), t2);
    lemma_scale_add(s, t0, t1);
}

/// Multiplying the left factor by `x` multiplies the product by `x`.
pub proof fn lemma_mul_left_shift(u: Poly, c: Poly, w: int)
    ensures
        poly_mul(poly_shift(u, w), c, w) == poly_shift(poly_mul(u, c, w), w),
{
    let c1 = poly_shift(c, w);
    let c2 = poly_shift(c1, w);
    let c3 = poly_shift(c2, w);
    let t0 = poly_scale(u.c0, c);
    let t1 = poly_scale(u.c1, c1);
    let t2 = poly_scale(u.c2, c2);
    let t3 = poly_scale(u.c3, c3);
    lemma_mul_as_shifts(poly_shift(u, w), c, w);
    lemma_mul_as_shifts(u, c, w);
    lemma_shift_add(poly_add(poly_add(t0, t1), t2), t3, w);
    lemma_shift_add(poly_add(t0, t1), t2, w);
    lemma_shift_add(t0, t1, w);
    lemma_shift_scale(u.c0, c, w);
    lemma_shift_scale(u.c1, c1, w);
    lemma_shift_scale(u.c2, c2, w);
    lemma_shift_scale(u.c3, c3, w);
    assert(poly_shift(c3, w) == poly_scale(w, c));
    lemma_scale_scale(u.c3, w, c);
    lemma_mul_is_commutative(u.c3, w);
}

/// Over the integers, the folded product is associative, whatever `w` is.
pub proof fn lemma_poly_mul_associative(a: Poly, b: Poly, c: Poly, w: int)
    ensures
        poly_mul(poly_mul(a, b, w), c, w) == poly_mul(a, poly_mul(b, c, w), w),
{
    let b1 = poly_shift(b, w);
    let b2 = poly_shift(b1, w);
    let b3 = poly_shift(b2, w);
    let t0 = poly_scale(a.c0, b);
    let t1 = poly_scale(a.c1, b1);
    let t2 = poly_scale(a.c2, b2);
    let t3 = poly_scale(a.c3, b3);
    lemma_mul_as_shifts(a, b, w);
    lemma_mul_left_add(poly_add(poly_add(t0, t1), t2), t3, c, w);
    lemma_mul_left_add(poly_add(t0, t1), t2, c, w);
    lemma_mul_left_add(t0, t1, c, w);
    lemma_mul_left_scale(a.c0, b, c, w);
    lemma_mul_left_scale(a.c1, b1, c, w);
    lemma_mul_left_scale(a.c2, b2, c, w);
    lemma_mul_left_scale(a.c3, b3, c, w);
    lemma_mul_left_shift(b, c, w);
    lemma_mul_left_shift(b1, c, w);
    lemma_mul_left_shift(b2, c, w);
    lemma_mul_as_shifts(a, poly_mul(b, c, w), w);
}

/// Over the integers, the folded product is commutative.
pub proof fn lemma_poly_mul_commutative(a: Poly, b: Poly, w: int)
    ensures
        poly_mul(a, b, w) == poly_mul(b, a, w),
{
    lemma_mul_is_commutative(a.c0, b.c0);
    lemma_mul_is_commutative(a.c0, b.c1);
    lemma_mul_is_commutative(a.c0, b.c2);
    lemma_mul_is_commutative(a.c0, b.c3);
    lemma_mul_is_commutative(a.c1, b.c0);
    lemma_mul_is_commutative(a.c1, b.c1);
    lemma_mul_is_commutative(a.c1, b.c2);
    lemma_mul_is_commutative(a.c1, b.c3);
    lemma_mul_is_commutative(a.c2, b.c0);
    lemma_mul_is_commutative(a.c2, b.c1);
    lemma_mul_is_commutative(a.c2, b.c2);
    lemma_mul_is_commutative(a.c2, b.c3);
    lemma_mul_is_commutative(a.c3, b.c0);
    lemma_mul_is_commutative(a.c3, b.c1);
    lemma_mul_is_commutative(a.c3, b.c2);
    lemma_mul_is_commutative(a.c3, b.c3);
    assert(a.c1 * b.c3 + a.c2 * b.c2 + a.c3 * b.c1 == b.c1 * a.c3 + b.c2 * a.c2 + b.c3 * a.c1);
    assert(a.c2 * b.c3 + a.c3 * b.c2 == b.c2 * a.c3 + b.c3 * a.c2);
}

/// Over the integers, the folded product distributes over the sum.
pub proof fn lemma_poly_mul_distributive(a: Poly, b: Poly, c: Poly, w: int)
    ensures
        poly_mul(a, poly_add(b, c), w) == poly_add(poly_mul(a, b, w), poly_mul(a, c, w)),
{
    lemma_poly_mul_commutative(a, poly_add(b, c), w);
    lemma_mul_left_add(b, c, a, w);
    lemma_poly_mul_commutative(b, a, w);
    lemma_poly_mul_commutative(c, a, w);
}

/// Congruent factors give congruent folded products.
pub proof fn lemma_poly_mul_congruent(a1: Poly, a2: Poly, b1: Poly, b2: Poly, w1: int, w2: int)
    requires
        poly_congruent(a1, a2),
        poly_congruent(b1, b2),
        congruent(w1, w2),
    ensures
        poly_congruent(poly_mul(a1, b1, w1), poly_mul(a2, b2, w2)),
{
    lemma_mul_congruent(a1.c0, a2.c0, b1.c0, b2.c0);
    lemma_mul_congruent(a1.c0, a2.c0, b1.c1, b2.c1);
    lemma_mul_congruent(a1.c0, a2.c0, b1.c2, b2.c2);
    lemma_mul_congruent(a1.c0, a2.c0, b1.c3, b2.c3);
    lemma_mul_congruent(a1.c1, a2.c1, b1.c0, b2.c0);
    lemma_mul_congruent(a1.c1, a2.c1, b1.c1, b2.c1);
    lemma_mul_congruent(a1.c1, a2.c1, b1.c2, b2.c2);
    lemma_mul_congruent(a1.c1, a2.c1, b1.c3, b2.c3);
    lemma_mul_congruent(a1.c2, a2.c2, b1.c0, b2.c0);
    lemma_mul_congruent(a1.c2, a2.c2, b1.c1, b2.c1);
    lemma_mul_congruent(a1.c2, a2.c2, b1.c2, b2.c2);
    lemma_mul_congruent(a1.c2, a2.c2, b1.c3, b2.c3);
    lemma_mul_congruent(a1.c3, a2.c3, b1.c0, b2.c0);
    lemma_mul_congruent(a1.c3, a2.c3, b1.c1, b2.c1);
    lemma_mul_congruent(a1.c3, a2.c3, b1.c2, b2.c2);
    lemma_mul_congruent(a1.c3, a2.c3, b1.c3, b2.c3);
    lemma_mul_congruent(
        w1,
        w2,
        a1.c1 * b1.c3 + a1.c2 * b1.c2 + a1.c3 * b1.c1,
        a2.c1 * b2.c3 + a2.c2 * b2.c2 + a2.c3 * b2.c1,
    );
    lemma_mul_congruent(
        w1,
        w2,
        a1.c2 * b1.c3 + a1.c3 * b1.c2,
        a2.c2 * b2.c3 + a2.c3 * b2.c2,
    );
    lemma_mul_congruent(w1, w2, a1.c3 * b1.c3, a2.c3 * b2.c3);
}

} // verus!
