//! The laws of the extension field: it is a commutative ring in which every
//! non-zero element has an inverse, and the base field embeds in it.

use crate::modular::{congruent, fp_inv, fp_mul, lemma_add_congruent, lemma_mul_congruent, P};
use crate::poly::{
    conj_c0, conj_c2, ext_add, ext_inv, ext_mul, ext_pow, norm, poly_mul, Poly, NBETA,
};
use crate::poly_ring::{
    lemma_mul_swap, lemma_poly_mul_associative, lemma_poly_mul_commutative,
    lemma_poly_mul_congruent, lemma_poly_mul_distributive, poly_add,
};
use crate::residues::{lemma_inverse, lemma_only_trivial_zero};
use vstd::arithmetic::div_mod::lemma_add_mod_noop;
use vstd::arithmetic::mul::{
    lemma_mul_cancels_negatives, lemma_mul_is_associative, lemma_mul_is_commutative,
    lemma_mul_is_distributive_add, lemma_mul_unary_negation,
};
use vstd::prelude::*;

verus! {

/// The product is commutative.
pub proof fn lemma_ext_mul_commutative(a: Poly, b: Poly)
    ensures
        ext_mul(a, b) == ext_mul(b, a),
{
    lemma_poly_mul_commutative(a, b, NBETA as int);
}

/// The product is associative.
pub proof fn lemma_ext_mul_associative(a: Poly, b: Poly, c: Poly)
    ensures
        ext_mul(ext_mul(a, b), c) == ext_mul(a, ext_mul(b, c)),
{
    let w = NBETA as int;
    let m = poly_mul(a, b, w);
    let n = poly_mul(b, c, w);
    lemma_poly_mul_congruent(m.reduce(), m, c, c, w, w);
    lemma_poly_mul_congruent(a, a, n.reduce(), n, w, w);
    lemma_poly_mul_associative(a, b, c, w);
}

/// Reducing a sum of polynomials is adding the reduced polynomials.
proof fn lemma_reduce_add(u: Poly, v: Poly)
    ensures
        poly_add(u, v).reduce() == ext_add(u.reduce(), v.reduce()),
        ext_add(u.reduce(), v.reduce()) == ext_add(u, v),
{
    lemma_add_mod_noop(u.c0, v.c0, P as int);
    lemma_add_mod_noop(u.c1, v.c1, P as int);
    lemma_add_mod_noop(u.c2, v.c2, P as int);
    lemma_add_mod_noop(u.c3, v.c3, P as int);
}

/// The product distributes over the sum.
pub proof fn lemma_ext_distributive(a: Poly, b: Poly, c: Poly)
    ensures
        ext_mul(a, ext_add(b, c)) == ext_add(ext_mul(a, b), ext_mul(a, c)),
{
    let w = NBETA as int;
    let ab = poly_mul(a, b, w);
    let ac = poly_mul(a, c, w);
    assert(ext_add(b, c) == poly_add(b, c).reduce());
    lemma_poly_mul_congruent(a, a, ext_add(b, c), poly_add(b, c), w, w);
    assert(ext_mul(a, ext_add(b, c)) == poly_mul(a, poly_add(b, c), w).reduce());
    lemma_poly_mul_distributive(a, b, c, w);
    lemma_reduce_add(ab, ac);
}

/// One is the identity of the product.
pub proof fn lemma_ext_mul_one(a: Poly)
    requires
        a.canonical(),
    ensures
        ext_mul(Poly::one(), a) == a,
        ext_mul(a, Poly::one()) == a,
{
    lemma_ext_mul_commutative(a, Poly::one());
}

/// Squaring the base halves an even exponent.
pub proof fn lemma_ext_pow_double(a: Poly, k: nat)
    ensures
        ext_pow(a, 2 * k) == ext_pow(ext_mul(a, a), k),
    decreases k,
{
    if k > 0 {
        lemma_ext_pow_double(a, (k - 1) as nat);
        let r = ext_pow(a, (2 * k - 2) as nat);
        assert(ext_pow(a, 2 * k) == ext_mul(a, ext_mul(a, r))) by {
            reveal_with_fuel(ext_pow, 3);
        }
        lemma_ext_mul_associative(a, a, r);
    }
}

/// Every power is canonical.
pub proof fn lemma_ext_pow_canonical(a: Poly, n: nat)
    ensures
        ext_pow(a, n).canonical(),
{
}

/// The conjugate of `a`: its odd coefficients negated.
pub open spec fn poly_conj(a: Poly) -> Poly {
    Poly { c0: a.c0, c1: -a.c1, c2: a.c2, c3: -a.c3 }
}

/// The constant coefficient of `a` times its conjugate, over the integers.
pub open spec fn conj_c0_int(a: Poly) -> int {
    a.c0 * a.c0 + 11 * (2 * (a.c1 * a.c3) - a.c2 * a.c2)
}

/// The coefficient of `x^2` of `a` times its conjugate, over the integers.
pub open spec fn conj_c2_int(a: Poly) -> int {
    2 * (a.c0 * a.c2) - a.c1 * a.c1 + 11 * (a.c3 * a.c3)
}

/// `(x·y)·z = y·(x·z)`.
proof fn lemma_mul_rotate(x: int, y: int, z: int)
    ensures
        (x * y) * z == y * (x * z),
{
    lemma_mul_is_commutative(x, y);
    lemma_mul_is_associative(y, x, z);
}

/// The product of `a` and its conjugate has no odd coefficients.
proof fn lemma_conj_product(a: Poly)
    ensures
        poly_mul(a, poly_conj(a), -11) == (Poly {
            c0: conj_c0_int(a),
            c1: 0,
            c2: conj_c2_int(a),
            c3: 0,
        }),
{
    lemma_mul_unary_negation(a.c1, a.c3);
    lemma_mul_unary_negation(a.c3, a.c1);
    lemma_mul_is_commutative(a.c3, a.c1);
    lemma_mul_unary_negation(a.c0, a.c1);
    lemma_mul_is_commutative(a.c1, a.c0);
    lemma_mul_unary_negation(a.c2, a.c3);
    lemma_mul_is_commutative(a.c3, a.c2);
    lemma_mul_unary_negation(a.c1, a.c1);
    lemma_mul_is_commutative(a.c2, a.c0);
    lemma_mul_unary_negation(a.c3, a.c3);
    lemma_mul_unary_negation(a.c0, a.c3);
    lemma_mul_is_commutative(a.c3, a.c0);
    lemma_mul_unary_negation(a.c2, a.c1);
    lemma_mul_is_commutative(a.c2, a.c1);
}

/// The conjugate of `a` times `s0 - s2·x^2`.
proof fn lemma_conj_times_pair(a: Poly, s0: int, s2: int)
    ensures
        poly_mul(poly_conj(a), Poly { c0: s0, c1: 0, c2: -s2, c3: 0 }, -11) == (Poly {
            c0: a.c0 * s0 + 11 * (a.c2 * s2),
            c1: -(a.c1 * s0) - 11 * (a.c3 * s2),
            c2: a.c2 * s0 - a.c0 * s2,
            c3: a.c1 * s2 - a.c3 * s0,
        }),
{
    lemma_mul_unary_negation(a.c2, s2);
    lemma_mul_unary_negation(a.c1, s0);
    lemma_mul_cancels_negatives(a.c3, s2);
    lemma_mul_unary_negation(a.c0, s2);
    lemma_mul_cancels_negatives(a.c1, s2);
    lemma_mul_unary_negation(a.c3, s0);
}

/// The product of `s0 - s2·x^2` and `b0 + b2·x^2`.
proof fn lemma_pair_product(s0: int, s2: int, b0: int, b2: int)
    ensures
        poly_mul(
            Poly { c0: s0, c1: 0, c2: -s2, c3: 0 },
            Poly { c0: b0, c1: 0, c2: b2, c3: 0 },
            -11,
        ) == (Poly { c0: s0 * b0 + 11 * (s2 * b2), c1: 0, c2: s0 * b2 - s2 * b0, c3: 0 }),
{
    lemma_mul_unary_negation(s2, b2);
    lemma_mul_unary_negation(s2, b0);
}

/// An element whose norm is not zero has the inverse that `ext_inv` gives.
pub proof fn lemma_ext_inverse_by_norm(a: Poly)
    requires
        norm(a) != 0,
    ensures
        ext_mul(ext_inv(a), a) == Poly::one(),
{
    let ic = fp_inv(norm(a));
    let b0 = conj_c0(a);
    let b2 = conj_c2(a);
    let big0 = conj_c0_int(a);
    let big2 = conj_c2_int(a);
    let s0 = fp_mul(b0, ic);
    let s2 = fp_mul(b2, ic);
    let pair = Poly { c0: s0, c1: 0, c2: -s2, c3: 0 };
    let conj = poly_conj(a);
    // inv(a)·a = (conj·pair)·a = pair·(a·conj)
    lemma_conj_times_pair(a, s0, s2);
    assert(ext_inv(a) == poly_mul(conj, pair, -11).reduce());
    lemma_poly_mul_congruent(ext_inv(a), poly_mul(conj, pair, -11), a, a, NBETA as int, -11);
    lemma_poly_mul_commutative(conj, pair, -11);
    lemma_poly_mul_associative(pair, conj, a, -11);
    lemma_poly_mul_commutative(conj, a, -11);
    lemma_conj_product(a);
    lemma_pair_product(s0, s2, big0, big2);
    let prod = poly_mul(ext_inv(a), a, NBETA as int);
    assert(congruent(prod.c0, s0 * big0 + 11 * (s2 * big2)));
    assert(congruent(prod.c2, s0 * big2 - s2 * big0));
    assert(prod.c1 % (P as int) == 0);
    assert(prod.c3 % (P as int) == 0);
    // the constant coefficient is ic·norm(a) = 1
    lemma_mul_congruent(s0, b0 * ic, big0, b0);
    lemma_mul_congruent(s2, b2 * ic, big2, b2);
    lemma_mul_rotate(b0, ic, b0);
    lemma_mul_rotate(b2, ic, b2);
    lemma_mul_is_distributive_add(ic, b0 * b0, 11 * (b2 * b2));
    lemma_mul_swap(ic, 11, b2 * b2);
    lemma_mul_congruent(ic, ic, b0 * b0 + 11 * (b2 * b2), norm(a));
    lemma_inverse(norm(a));
    lemma_mul_congruent(11, 11, s2 * big2, ic * (b2 * b2));
    lemma_add_congruent(s0 * big0, ic * (b0 * b0), 11 * (s2 * big2), 11 * (ic * (b2 * b2)));
    assert(congruent(prod.c0, 1));
    // the coefficient of x^2 is ic·(b0·b2 - b2·b0) = 0
    lemma_mul_congruent(s0, b0 * ic, big2, b2);
    lemma_mul_congruent(s2, b2 * ic, big0, b0);
    lemma_mul_rotate(b0, ic, b2);
    lemma_mul_rotate(b2, ic, b0);
    lemma_mul_is_commutative(b0, b2);
    lemma_add_congruent(s0 * big2, ic * (b0 * b2), s2 * big0, ic * (b0 * b2));
    assert(congruent(prod.c2, 0));
}

/// `(x - 11y)² + 11·(2z)² = (x + 11y)²` when `z² = x·y`.
proof fn lemma_norm_identity(x: int, y: int, z: int)
    requires
        z * z == x * y,
    ensures
        (x - 11 * y) * (x - 11 * y) + 11 * ((2 * z) * (2 * z)) == (x + 11 * y) * (x + 11 * y),
        (22 * z) * (22 * z) + 11 * ((x - 11 * y) * (x - 11 * y)) == 11 * ((x + 11 * y) * (x + 11
            * y)),
{
    let m = x * y;
    assert((2 * z) * (2 * z) == 4 * m) by (nonlinear_arith)
        requires
            z * z == m,
    ;
    assert((22 * z) * (22 * z) == 484 * m) by (nonlinear_arith)
        requires
            z * z == m,
    ;
    assert((x - 11 * y) * (x - 11 * y) == x * x - 22 * m + 121 * (y * y)) by (nonlinear_arith)
        requires
            m == x * y,
    ;
    assert((x + 11 * y) * (x + 11 * y) == x * x + 22 * m + 121 * (y * y)) by (nonlinear_arith)
        requires
            m == x * y,
    ;
}

/// `(x·y)² = x²·y²`.
proof fn lemma_square_of_product(x: int, y: int)
    ensures
        (x * y) * (x * y) == (x * x) * (y * y),
{
    lemma_mul_is_associative(x * y, x, y);
    lemma_mul_is_associative(x, y, x);
    lemma_mul_is_commutative(y, x);
    lemma_mul_is_associative(x, x, y);
    lemma_mul_is_associative(x * x, y, y);
}

/// The norm is zero only for zero.
pub proof fn lemma_norm_nonzero(a: Poly)
    requires
        a.reduce() != Poly::zero(),
    ensures
        norm(a) != 0,
{
    if norm(a) == 0 {
        let b0 = conj_c0(a);
        let b2 = conj_c2(a);
        assert(congruent(b0 * b0, (-11) * (b2 * b2)));
        lemma_only_trivial_zero(b0, b2, -11);
        let x0 = a.c0 * a.c0;
        let y0 = a.c2 * a.c2;
        let z0 = a.c0 * a.c2;
        let x1 = a.c1 * a.c1;
        let y1 = a.c3 * a.c3;
        let z1 = a.c1 * a.c3;
        // both conjugate coefficients vanish, so
        // a0² - 11·a2² = -22·a1·a3 and 2·a0·a2 = a1² - 11·a3² in the field
        let p = x0 - 11 * y0;
        let q = 2 * z0;
        let pr = -(22 * z1);
        let qr = x1 - 11 * y1;
        assert(congruent(p, pr));
        assert(congruent(q, qr));
        lemma_mul_congruent(p, pr, p, pr);
        lemma_mul_congruent(q, qr, q, qr);
        lemma_mul_congruent(11, 11, q * q, qr * qr);
        lemma_add_congruent(p * p, pr * pr, 11 * (q * q), 11 * (qr * qr));
        lemma_square_of_product(a.c0, a.c2);
        lemma_square_of_product(a.c1, a.c3);
        lemma_norm_identity(x0, y0, z0);
        lemma_norm_identity(x1, y1, z1);
        lemma_mul_cancels_negatives(22 * z1, 22 * z1);
        let u = x0 + 11 * y0;
        let v = x1 + 11 * y1;
        assert(congruent(u * u, 11 * (v * v)));
        lemma_only_trivial_zero(u, v, 11);
        assert(congruent(a.c0 * a.c0, (-11) * (a.c2 * a.c2)));
        assert(congruent(a.c1 * a.c1, (-11) * (a.c3 * a.c3)));
        lemma_only_trivial_zero(a.c0, a.c2, -11);
        lemma_only_trivial_zero(a.c1, a.c3, -11);
    }
}

/// Every element other than zero has the inverse that `ext_inv` gives.
pub proof fn lemma_ext_inverse(a: Poly)
    requires
        a.reduce() != Poly::zero(),
    ensures
        ext_mul(ext_inv(a), a) == Poly::one(),
{
    lemma_norm_nonzero(a);
    lemma_ext_inverse_by_norm(a);
}

} // verus!
