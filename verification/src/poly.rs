//! The mathematical model of the extension field: polynomials of degree at
//! most three with integer coefficients.  Products are folded by the rule
//! `x^4 = NBETA`, that is, reduced modulo `x^4 + β`, which has no root and no
//! quadratic factor over the base field.

use crate::modular::{fp_add, fp_inv, fp_mul, fp_sub, P};
use vstd::prelude::*;

verus! {

/// The constant `β` of the reduction polynomial.
pub const BETA: u32 = 11;

/// The additive inverse of `β` in the base field, `P - 11`.  Powers of `x`
/// from the fourth on fold back by the rule `x^4 = NBETA`.
pub const NBETA: u32 = 2013265910;

/// The polynomial `c0 + c1·x + c2·x^2 + c3·x^3`.
pub struct Poly {
    pub c0: int,
    pub c1: int,
    pub c2: int,
    pub c3: int,
}

impl Poly {
    /// Every coefficient is a canonical representative.
    pub open spec fn canonical(self) -> bool {
        &&& 0 <= self.c0 < P
        &&& 0 <= self.c1 < P
        &&& 0 <= self.c2 < P
        &&& 0 <= self.c3 < P
    }

    /// The polynomial with every coefficient reduced modulo `P`.
    pub open spec fn reduce(self) -> Poly {
        Poly {
            c0: self.c0 % (P as int),
            c1: self.c1 % (P as int),
            c2: self.c2 % (P as int),
            c3: self.c3 % (P as int),
        }
    }

    /// The constant polynomial that the base-field value `v` embeds as.
    pub open spec fn embed(v: int) -> Poly {
        Poly { c0: v % (P as int), c1: 0, c2: 0, c3: 0 }
    }

    /// The additive identity.
    pub open spec fn zero() -> Poly {
        Poly { c0: 0, c1: 0, c2: 0, c3: 0 }
    }

    /// The multiplicative identity.
    pub open spec fn one() -> Poly {
        Poly { c0: 1, c1: 0, c2: 0, c3: 0 }
    }
}

/// The product of two polynomials over the integers, folded by `x^4 = w`.
pub open spec fn poly_mul(a: Poly, b: Poly, w: int) -> Poly {
    Poly {
        c0: a.c0 * b.c0 + w * (a.c1 * b.c3 + a.c2 * b.c2 + a.c3 * b.c1),
        c1: a.c0 * b.c1 + a.c1 * b.c0 + w * (a.c2 * b.c3 + a.c3 * b.c2),
        c2: a.c0 * b.c2 + a.c1 * b.c1 + a.c2 * b.c0 + w * (a.c3 * b.c3),
        c3: a.c0 * b.c3 + a.c1 * b.c2 + a.c2 * b.c1 + a.c3 * b.c0,
    }
}

/// The sum in the extension field: coefficient by coefficient.
pub open spec fn ext_add(a: Poly, b: Poly) -> Poly {
    Poly {
        c0: fp_add(a.c0, b.c0),
        c1: fp_add(a.c1, b.c1),
        c2: fp_add(a.c2, b.c2),
        c3: fp_add(a.c3, b.c3),
    }
}

/// The difference in the extension field: coefficient by coefficient.
pub open spec fn ext_sub(a: Poly, b: Poly) -> Poly {
    Poly {
        c0: fp_sub(a.c0, b.c0),
        c1: fp_sub(a.c1, b.c1),
        c2: fp_sub(a.c2, b.c2),
        c3: fp_sub(a.c3, b.c3),
    }
}

/// The additive inverse in the extension field, `0 - a`.
pub open spec fn ext_neg(a: Poly) -> Poly {
    ext_sub(Poly::zero(), a)
}

/// The product of `a` and the base-field scalar `s`.
pub open spec fn ext_scale(a: Poly, s: int) -> Poly {
    Poly {
        c0: fp_mul(a.c0, s),
        c1: fp_mul(a.c1, s),
        c2: fp_mul(a.c2, s),
        c3: fp_mul(a.c3, s),
    }
}

/// The product in the extension field.
pub open spec fn ext_mul(a: Poly, b: Poly) -> Poly {
    poly_mul(a, b, NBETA as int).reduce()
}

/// `a` raised to the power `n` in the extension field.
pub open spec fn ext_pow(a: Poly, n: nat) -> Poly
    decreases n,
{
    if n == 0 {
        Poly::one()
    } else {
        ext_mul(a, ext_pow(a, (n - 1) as nat))
    }
}

/// The first half of the norm of `a`: the constant coefficient of the
/// product of `a` with its conjugate (odd coefficients negated).
pub open spec fn conj_c0(a: Poly) -> int {
    (a.c0 * a.c0 + BETA * (2 * (a.c1 * a.c3) - a.c2 * a.c2)) % (P as int)
}

/// The second half: the coefficient of `x^2` of the same product.
pub open spec fn conj_c2(a: Poly) -> int {
    (2 * (a.c0 * a.c2) - a.c1 * a.c1 + BETA * (a.c3 * a.c3)) % (P as int)
}

/// The norm of `a`, an element of the base field that is zero only for `a == 0`.
pub open spec fn norm(a: Poly) -> int {
    (conj_c0(a) * conj_c0(a) + BETA * (conj_c2(a) * conj_c2(a))) % (P as int)
}

/// The conjugate of `a` (odd coefficients negated) times `s0 - s2·x^2`.
pub open spec fn conj_product(a: Poly, s0: int, s2: int) -> Poly {
    Poly {
        c0: (a.c0 * s0 + BETA * (a.c2 * s2)) % (P as int),
        c1: (-(a.c1 * s0) - BETA * (a.c3 * s2)) % (P as int),
        c2: (a.c2 * s0 - a.c0 * s2) % (P as int),
        c3: (a.c1 * s2 - a.c3 * s0) % (P as int),
    }
}

/// The extension field's convention for inversion: the conjugates of `a`
/// divided by its norm.  It is the multiplicative inverse of a non-zero `a`,
/// and zero for zero.
pub open spec fn ext_inv(a: Poly) -> Poly {
    let ic = fp_inv(norm(a));
    conj_product(a, fp_mul(conj_c0(a), ic), fp_mul(conj_c2(a), ic))
}

} // verus!
