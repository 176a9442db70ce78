//! Elements of the degree-4 extension field.

use crate::elem::Elem;
use crate::ext_laws::{
    lemma_ext_inverse, lemma_ext_mul_associative, lemma_ext_mul_one, lemma_ext_pow_canonical,
    lemma_ext_pow_double,
};
use crate::modular::{
    congruent, fp_add, fp_mul, fp_neg, fp_sub, lemma_add_congruent, lemma_mul_congruent, P,
};
use crate::poly::{
    conj_c0, conj_c2, conj_product, ext_add, ext_inv, ext_mul, ext_neg, ext_pow, ext_scale,
    ext_sub, Poly, BETA, NBETA,
};
use core::ops::Neg;
use vstd::arithmetic::mul::{
    lemma_mul_is_associative, lemma_mul_is_distributive_add, lemma_mul_unary_negation,
};
use vstd::arithmetic::power::lemma0_pow;
use vstd::prelude::*;
use vstd::std_specs::cmp::PartialEqSpecImpl;
use vstd::std_specs::convert::FromSpecImpl;
use vstd::std_specs::ops::{AddSpecImpl, MulSpecImpl, NegSpecImpl, SubSpecImpl};

verus! {

/// The number of base-field coefficients of an extension-field element.
pub const EXT_SIZE: usize = 4;

/// An element of the extension field: the polynomial
/// `a0 + a1·x + a2·x^2 + a3·x^3` over the base field, held as the array of
/// its coefficients in that order.
#[derive(Clone, Copy, Debug, Eq)]
pub struct ExtElem([Elem; 4]);

impl PartialEqSpecImpl for ExtElem {
    open spec fn obeys_eq_spec() -> bool {
        true
    }

    open spec fn eq_spec(&self, other: &ExtElem) -> bool {
        *self == *other
    }
}

impl PartialEq for ExtElem {
    /// Two elements are equal when all four coefficients are.
    fn eq(&self, other: &ExtElem) -> (r: bool) {
        let same = self.0[0] == other.0[0] && self.0[1] == other.0[1] && self.0[2] == other.0[2]
            && self.0[3] == other.0[3];
        proof {
            if same {
                assert(self.0 =~= other.0);
            }
        }
        same
    }
}

impl ExtElem {
    /// The polynomial of the coefficients' canonical representatives.
    pub closed spec fn view(self) -> Poly {
        Poly { c0: self.0[0]@, c1: self.0[1]@, c2: self.0[2]@, c3: self.0[3]@ }
    }

    /// The representation invariant: every coefficient is canonical.
    #[verifier::type_invariant]
    pub open spec fn canonical(self) -> bool {
        self@.canonical()
    }

    /// The element whose coefficients are those of `p`, reduced modulo `P`.
    pub closed spec fn of_poly(p: Poly) -> ExtElem {
        ExtElem([Elem::of_int(p.c0), Elem::of_int(p.c1), Elem::of_int(p.c2), Elem::of_int(p.c3)])
    }

    /// `of_poly` yields the canonical element of the reduced polynomial.
    pub broadcast proof fn lemma_of_poly(p: Poly)
        ensures
            (#[trigger] ExtElem::of_poly(p))@ == p.reduce(),
            ExtElem::of_poly(p).canonical(),
    {
        Elem::lemma_of_int(p.c0);
        Elem::lemma_of_int(p.c1);
        Elem::lemma_of_int(p.c2);
        Elem::lemma_of_int(p.c3);
    }

    /// Two elements with the same coefficients are the same element.
    pub broadcast proof fn lemma_view_injective(a: ExtElem, b: ExtElem)
        ensures
            #![trigger a@, b@]
            a@ == b@ <==> a == b,
    {
        if a@ == b@ {
            Elem::lemma_view_injective(a.0[0], b.0[0]);
            Elem::lemma_view_injective(a.0[1], b.0[1]);
            Elem::lemma_view_injective(a.0[2], b.0[2]);
            Elem::lemma_view_injective(a.0[3], b.0[3]);
            assert(a.0 =~= b.0);
        }
    }

    /// A canonical element is the one that `of_poly` builds from its view.
    proof fn lemma_is_of_poly(self, p: Poly)
        requires
            self.canonical(),
            self@ == p.reduce(),
        ensures
            self == ExtElem::of_poly(p),
    {
        ExtElem::lemma_of_poly(p);
        ExtElem::lemma_view_injective(self, ExtElem::of_poly(p));
    }

    /// Builds an element from its four coefficients.
    pub fn new(x0: Elem, x1: Elem, x2: Elem, x3: Elem) -> (r: ExtElem)
        ensures
            r@ == (Poly { c0: x0@, c1: x1@, c2: x2@, c3: x3@ }),
    {
        proof {
            use_type_invariant(&x0);
            use_type_invariant(&x1);
            use_type_invariant(&x2);
            use_type_invariant(&x3);
        }
        ExtElem([x0, x1, x2, x3])
    }

    /// Embeds a base-field element as a constant polynomial.
    pub fn from_fp(x: Elem) -> (r: ExtElem)
        ensures
            r@ == Poly::embed(x@),
    {
        proof {
            use_type_invariant(&x);
        }
        ExtElem::new(x, Elem::new(0), Elem::new(0), Elem::new(0))
    }

    /// Embeds an element of the subfield as a constant polynomial.
    pub fn from_subfield(elem: &Elem) -> (r: ExtElem)
        ensures
            r@ == Poly::embed(elem@),
    {
        ExtElem::from_fp(*elem)
    }

    /// Embeds a raw integer, reduced modulo `P`, as a constant polynomial.
    pub fn from_u32(x0: u32) -> (r: ExtElem)
        ensures
            r@ == Poly::embed(x0 as int),
    {
        ExtElem::new(Elem::new(x0), Elem::new(0), Elem::new(0), Elem::new(0))
    }

    /// The additive identity.
    pub fn zero() -> (r: ExtElem)
        ensures
            r@ == Poly::zero(),
    {
        ExtElem::from_u32(0)
    }

    /// The multiplicative identity.
    pub fn one() -> (r: ExtElem)
        ensures
            r@ == Poly::one(),
    {
        ExtElem::from_u32(1)
    }

    /// Raises the element to the power `n` by square-and-multiply.
    pub fn pow(self, n: usize) -> (r: ExtElem)
        ensures
            r@ == ext_pow(self@, n as nat),
    {
        let ghost n0 = n as nat;
        let mut n: usize = n;
        let mut tot = ExtElem::one();
        let mut x = self;
        proof {
            lemma_ext_pow_canonical(self@, n0);
            lemma_ext_mul_one(ext_pow(self@, n0));
        }
        while n != 0
            invariant
                ext_mul(tot@, ext_pow(x@, n as nat)) == ext_pow(self@, n0),
            decreases n,
        {
            let ghost k = (n / 2) as nat;
            let ghost rest = ext_pow(ext_mul(x@, x@), k);
            proof {
                lemma_ext_pow_double(x@, k);
            }
            if n % 2 == 1 {
                proof {
                    assert(ext_pow(x@, n as nat) == ext_mul(x@, rest)) by {
                        reveal_with_fuel(ext_pow, 2);
                    }
                    lemma_ext_mul_associative(tot@, x@, rest);
                }
                tot = tot * x;
            }
            n = n / 2;
            x = x * x;
        }
        proof {
            use_type_invariant(&tot);
            lemma_ext_mul_one(tot@);
        }
        tot
    }

    /// The product of two polynomials, folded by `x^4 = NBETA`: powers of
    /// `x` from the fourth on shift back by four places and pick up the
    /// factor `NBETA`.
    fn folded_product(&self, rhs: &ExtElem) -> (r: ExtElem)
        ensures
            r@ == ext_mul(self@, rhs@),
    {
        let a = &self.0;
        let b = &rhs.0;
        let ghost x = self@;
        let ghost y = rhs@;
        let ghost w = NBETA as int;
        let nbeta = Elem::new(NBETA);
        let r0 = a[0] * b[0] + nbeta * (a[1] * b[3] + a[2] * b[2] + a[3] * b[1]);
        proof {
            lemma_fold_1_3(x.c0 * y.c0, w, x.c1 * y.c3, x.c2 * y.c2, x.c3 * y.c1);
        }
        let r1 = a[0] * b[1] + a[1] * b[0] + nbeta * (a[2] * b[3] + a[3] * b[2]);
        proof {
            lemma_fold_2_2(x.c0 * y.c1, x.c1 * y.c0, w, x.c2 * y.c3, x.c3 * y.c2);
        }
        let r2 = a[0] * b[2] + a[1] * b[1] + a[2] * b[0] + nbeta * (a[3] * b[3]);
        proof {
            lemma_fold_3_1(x.c0 * y.c2, x.c1 * y.c1, x.c2 * y.c0, w, x.c3 * y.c3);
        }
        let r3 = a[0] * b[3] + a[1] * b[2] + a[2] * b[1] + a[3] * b[0];
        proof {
            lemma_fold_4(x.c0 * y.c3, x.c1 * y.c2, x.c2 * y.c1, x.c3 * y.c0);
        }
        ExtElem::new(r0, r1, r2, r3)
    }

    /// The two coefficients of the element times its conjugate that are
    /// not zero: the constant one and that of `x^2`.
    fn conj_parts(&self) -> (b: (Elem, Elem))
        ensures
            b.0@ == conj_c0(self@),
            b.1@ == conj_c2(self@),
    {
        let a = &self.0;
        let ghost p = self@;
        let beta = Elem::new(BETA);
        let b0 = a[0] * a[0] + beta * (a[1] * (a[3] + a[3]) - a[2] * a[2]);
        proof {
            lemma_fold_conj_c0(p.c0, p.c1, p.c2, p.c3);
        }
        let b2 = a[0] * (a[2] + a[2]) - a[1] * a[1] + beta * (a[3] * a[3]);
        proof {
            lemma_fold_conj_c2(p.c0, p.c1, p.c2, p.c3);
        }
        (b0, b2)
    }

    /// The conjugate of the element times `s0 - s2·x^2`.
    fn conj_times(&self, s0: Elem, s2: Elem) -> (r: ExtElem)
        ensures
            r@ == conj_product(self@, s0@, s2@),
    {
        let a = &self.0;
        let ghost p = self@;
        let beta = Elem::new(BETA);
        let nbeta = Elem::new(NBETA);
        let r0 = a[0] * s0 + beta * a[2] * s2;
        let r1 = a[1].neg() * s0 + nbeta * a[3] * s2;
        proof {
            lemma_fold_inv_even(p.c0, p.c2, s0@, s2@);
        }
        let r2 = a[0].neg() * s2 + a[2] * s0;
        let r3 = a[1] * s2 - a[3] * s0;
        proof {
            lemma_fold_inv_odd(p.c1, p.c3, s0@, s2@);
        }
        ExtElem::new(r0, r1, r2, r3)
    }

    /// Inverts the element: its conjugates, divided by its norm.  The norm is
    /// inverted in the base field, so the result for zero is zero.
    pub fn inv(self) -> (r: ExtElem)
        ensures
            r@ == ext_inv(self@),
            self@ != Poly::zero() ==> ext_mul(r@, self@) == Poly::one(),
            self@ == Poly::zero() ==> r@ == Poly::zero(),
    {
        proof {
            use_type_invariant(&self);
            if self@ != Poly::zero() {
                lemma_ext_inverse(self@);
            } else {
                lemma0_pow((P - 2) as nat);
            }
        }
        let beta = Elem::new(BETA);
        let (b0, b2) = self.conj_parts();
        let c = b0 * b0 + beta * b2 * b2;
        proof {
            lemma_fold_norm(b0@, b2@);
        }
        let ic = c.inv();
        let s0 = b0 * ic;
        let s2 = b2 * ic;
        self.conj_times(s0, s2)
    }

    /// The constant coefficient.
    pub fn const_part(self) -> (r: Elem)
        ensures
            r@ == self@.c0,
    {
        self.0[0]
    }

    /// The four coefficients, lowest degree first.
    pub fn elems(&self) -> (r: &[Elem])
        ensures
            r@.len() == 4,
            r@[0]@ == self@.c0,
            r@[1]@ == self@.c1,
            r@[2]@ == self@.c2,
            r@[3]@ == self@.c3,
    {
        self.0.as_slice()
    }
}

impl AddSpecImpl for ExtElem {
    open spec fn obeys_add_spec() -> bool {
        true
    }

    open spec fn add_req(self, rhs: ExtElem) -> bool {
        true
    }

    open spec fn add_spec(self, rhs: ExtElem) -> ExtElem {
        ExtElem::of_poly(ext_add(self@, rhs@))
    }
}

impl core::ops::Add for ExtElem {
    type Output = ExtElem;

    /// Addition in the extension field.
    fn add(self, rhs: ExtElem) -> (r: ExtElem)
        ensures
            r@ == ext_add(self@, rhs@),
    {
        let r = ExtElem::new(
            self.0[0] + rhs.0[0],
            self.0[1] + rhs.0[1],
            self.0[2] + rhs.0[2],
            self.0[3] + rhs.0[3],
        );
        proof {
            use_type_invariant(&r);
            r.lemma_is_of_poly(ext_add(self@, rhs@));
        }
        r
    }
}

impl core::ops::AddAssign for ExtElem {
    /// Addition in the extension field, in place.
    fn add_assign(&mut self, rhs: ExtElem)
        ensures
            final(self)@ == ext_add(old(self)@, rhs@),
    {
        *self = *self + rhs;
    }
}

impl SubSpecImpl for ExtElem {
    open spec fn obeys_sub_spec() -> bool {
        true
    }

    open spec fn sub_req(self, rhs: ExtElem) -> bool {
        true
    }

    open spec fn sub_spec(self, rhs: ExtElem) -> ExtElem {
        ExtElem::of_poly(ext_sub(self@, rhs@))
    }
}

impl core::ops::Sub for ExtElem {
    type Output = ExtElem;

    /// Subtraction in the extension field.
    fn sub(self, rhs: ExtElem) -> (r: ExtElem)
        ensures
            r@ == ext_sub(self@, rhs@),
    {
        let r = ExtElem::new(
            self.0[0] - rhs.0[0],
            self.0[1] - rhs.0[1],
            self.0[2] - rhs.0[2],
            self.0[3] - rhs.0[3],
        );
        proof {
            use_type_invariant(&r);
            r.lemma_is_of_poly(ext_sub(self@, rhs@));
        }
        r
    }
}

impl core::ops::SubAssign for ExtElem {
    /// Subtraction in the extension field, in place.
    fn sub_assign(&mut self, rhs: ExtElem)
        ensures
            final(self)@ == ext_sub(old(self)@, rhs@),
    {
        *self = *self - rhs;
    }
}

impl NegSpecImpl for ExtElem {
    open spec fn obeys_neg_spec() -> bool {
        true
    }

    open spec fn neg_req(self) -> bool {
        true
    }

    open spec fn neg_spec(self) -> ExtElem {
        ExtElem::of_poly(ext_neg(self@))
    }
}

impl core::ops::Neg for ExtElem {
    type Output = ExtElem;

    /// Negation in the extension field: `0 - self`.
    fn neg(self) -> (r: ExtElem)
        ensures
            r@ == ext_neg(self@),
    {
        let r = ExtElem::zero() - self;
        proof {
            use_type_invariant(&r);
            r.lemma_is_of_poly(ext_neg(self@));
        }
        r
    }
}

impl MulSpecImpl<Elem> for ExtElem {
    open spec fn obeys_mul_spec() -> bool {
        true
    }

    open spec fn mul_req(self, rhs: Elem) -> bool {
        true
    }

    open spec fn mul_spec(self, rhs: Elem) -> ExtElem {
        ExtElem::of_poly(ext_scale(self@, rhs@))
    }
}

impl core::ops::Mul<Elem> for ExtElem {
    type Output = ExtElem;

    /// Multiplication by a scalar of the base field.
    fn mul(self, rhs: Elem) -> (r: ExtElem)
        ensures
            r@ == ext_scale(self@, rhs@),
    {
        let r = ExtElem::new(self.0[0] * rhs, self.0[1] * rhs, self.0[2] * rhs, self.0[3] * rhs);
        proof {
            use_type_invariant(&r);
            r.lemma_is_of_poly(ext_scale(self@, rhs@));
        }
        r
    }
}

impl core::ops::MulAssign<Elem> for ExtElem {
    /// Multiplication by a scalar of the base field, in place.
    fn mul_assign(&mut self, rhs: Elem)
        ensures
            final(self)@ == ext_scale(old(self)@, rhs@),
    {
        *self = *self * rhs;
    }
}

impl MulSpecImpl<ExtElem> for Elem {
    open spec fn obeys_mul_spec() -> bool {
        true
    }

    open spec fn mul_req(self, rhs: ExtElem) -> bool {
        true
    }

    open spec fn mul_spec(self, rhs: ExtElem) -> ExtElem {
        ExtElem::of_poly(ext_scale(rhs@, self@))
    }
}

impl core::ops::Mul<ExtElem> for Elem {
    type Output = ExtElem;

    /// Multiplication of a scalar of the base field by an extension element.
    fn mul(self, rhs: ExtElem) -> (r: ExtElem)
        ensures
            r@ == ext_scale(rhs@, self@),
    {
        rhs * self
    }
}

impl MulSpecImpl for ExtElem {
    open spec fn obeys_mul_spec() -> bool {
        true
    }

    open spec fn mul_req(self, rhs: ExtElem) -> bool {
        true
    }

    open spec fn mul_spec(self, rhs: ExtElem) -> ExtElem {
        ExtElem::of_poly(ext_mul(self@, rhs@))
    }
}

impl core::ops::Mul for ExtElem {
    type Output = ExtElem;

    /// Multiplication in the extension field.
    fn mul(self, rhs: ExtElem) -> (r: ExtElem)
        ensures
            r@ == ext_mul(self@, rhs@),
    {
        let r = self.folded_product(&rhs);
        proof {
            use_type_invariant(&r);
            r.lemma_is_of_poly(ext_mul(self@, rhs@));
        }
        r
    }
}

impl core::ops::MulAssign for ExtElem {
    /// Multiplication in the extension field, in place.
    fn mul_assign(&mut self, rhs: ExtElem)
        ensures
            final(self)@ == ext_mul(old(self)@, rhs@),
    {
        *self = *self * rhs;
    }
}

impl Default for ExtElem {
    /// The default element is zero.
    fn default() -> (r: ExtElem)
        ensures
            r@ == Poly::zero(),
    {
        ExtElem::zero()
    }
}

impl FromSpecImpl<[Elem; 4]> for ExtElem {
    open spec fn obeys_from_spec() -> bool {
        true
    }

    open spec fn from_spec(val: [Elem; 4]) -> ExtElem {
        ExtElem::of_poly(Poly { c0: val[0]@, c1: val[1]@, c2: val[2]@, c3: val[3]@ })
    }
}

impl From<[Elem; 4]> for ExtElem {
    /// Builds an element from the array of its coefficients.
    fn from(val: [Elem; 4]) -> (r: ExtElem)
        ensures
            r@ == (Poly { c0: val[0]@, c1: val[1]@, c2: val[2]@, c3: val[3]@ }),
    {
        let r = ExtElem::new(val[0], val[1], val[2], val[3]);
        proof {
            use_type_invariant(&r);
            r.lemma_is_of_poly(r@);
        }
        r
    }
}

impl FromSpecImpl<u32> for ExtElem {
    open spec fn obeys_from_spec() -> bool {
        true
    }

    open spec fn from_spec(x: u32) -> ExtElem {
        ExtElem::of_poly(Poly::embed(x as int))
    }
}

impl From<u32> for ExtElem {
    /// Embeds a raw integer, reduced modulo `P`, as a constant polynomial.
    fn from(x: u32) -> (r: ExtElem)
        ensures
            r@ == Poly::embed(x as int),
    {
        let r = ExtElem::from_u32(x);
        proof {
            use_type_invariant(&r);
            r.lemma_is_of_poly(Poly::embed(x as int));
        }
        r
    }
}

impl FromSpecImpl<Elem> for ExtElem {
    open spec fn obeys_from_spec() -> bool {
        true
    }

    open spec fn from_spec(x: Elem) -> ExtElem {
        ExtElem::of_poly(Poly::embed(x@))
    }
}

impl From<Elem> for ExtElem {
    /// Embeds a base-field element as a constant polynomial.
    fn from(x: Elem) -> (r: ExtElem)
        ensures
            r@ == Poly::embed(x@),
    {
        let r = ExtElem::from_fp(x);
        proof {
            use_type_invariant(&r);
            r.lemma_is_of_poly(Poly::embed(x@));
        }
        r
    }
}

/// `x` reduced modulo `P`.
spec fn red(x: int) -> int {
    x % (P as int)
}

/// One reduced term plus `w` times three: the sum may be reduced at the end.
proof fn lemma_fold_1_3(u0: int, w: int, v0: int, v1: int, v2: int)
    ensures
        fp_add(red(u0), fp_mul(red(w), fp_add(fp_add(red(v0), red(v1)), red(v2)))) == red(
            u0 + w * (v0 + v1 + v2),
        ),
{
    let s = fp_add(fp_add(red(v0), red(v1)), red(v2));
    lemma_add_congruent(red(v0), v0, red(v1), v1);
    lemma_add_congruent(fp_add(red(v0), red(v1)), v0 + v1, red(v2), v2);
    lemma_mul_congruent(red(w), w, s, v0 + v1 + v2);
    lemma_add_congruent(red(u0), u0, fp_mul(red(w), s), w * (v0 + v1 + v2));
}

/// Two reduced terms plus `w` times two.
proof fn lemma_fold_2_2(u0: int, u1: int, w: int, v0: int, v1: int)
    ensures
        fp_add(fp_add(red(u0), red(u1)), fp_mul(red(w), fp_add(red(v0), red(v1)))) == red(
            u0 + u1 + w * (v0 + v1),
        ),
{
    let s = fp_add(red(v0), red(v1));
    lemma_add_congruent(red(v0), v0, red(v1), v1);
    lemma_mul_congruent(red(w), w, s, v0 + v1);
    lemma_add_congruent(red(u0), u0, red(u1), u1);
    lemma_add_congruent(fp_add(red(u0), red(u1)), u0 + u1, fp_mul(red(w), s), w * (v0 + v1));
}

/// Three reduced terms plus `w` times one.
proof fn lemma_fold_3_1(u0: int, u1: int, u2: int, w: int, v0: int)
    ensures
        fp_add(fp_add(fp_add(red(u0), red(u1)), red(u2)), fp_mul(red(w), red(v0))) == red(
            u0 + u1 + u2 + w * v0,
        ),
{
    lemma_mul_congruent(red(w), w, red(v0), v0);
    lemma_add_congruent(red(u0), u0, red(u1), u1);
    lemma_add_congruent(fp_add(red(u0), red(u1)), u0 + u1, red(u2), u2);
    lemma_add_congruent(
        fp_add(fp_add(red(u0), red(u1)), red(u2)),
        u0 + u1 + u2,
        fp_mul(red(w), red(v0)),
        w * v0,
    );
}

/// Four reduced terms.
proof fn lemma_fold_4(u0: int, u1: int, u2: int, u3: int)
    ensures
        fp_add(fp_add(fp_add(red(u0), red(u1)), red(u2)), red(u3)) == red(u0 + u1 + u2 + u3),
{
    lemma_add_congruent(red(u0), u0, red(u1), u1);
    lemma_add_congruent(fp_add(red(u0), red(u1)), u0 + u1, red(u2), u2);
    lemma_add_congruent(fp_add(fp_add(red(u0), red(u1)), red(u2)), u0 + u1 + u2, red(u3), u3);
}

/// The constant coefficient of an element times its conjugate, as computed.
proof fn lemma_fold_conj_c0(a0: int, a1: int, a2: int, a3: int)
    ensures
        fp_add(fp_mul(a0, a0), fp_mul(11, fp_sub(fp_mul(a1, fp_add(a3, a3)), fp_mul(a2, a2))))
            == red(a0 * a0 + 11 * (2 * (a1 * a3) - a2 * a2)),
{
    let t = fp_mul(a1, fp_add(a3, a3));
    lemma_mul_congruent(a1, a1, fp_add(a3, a3), a3 + a3);
    lemma_mul_is_distributive_add(a1, a3, a3);
    assert(congruent(t, 2 * (a1 * a3)));
    let d = fp_sub(t, fp_mul(a2, a2));
    lemma_add_congruent(t, 2 * (a1 * a3), fp_mul(a2, a2), a2 * a2);
    lemma_mul_congruent(11, 11, d, 2 * (a1 * a3) - a2 * a2);
    lemma_add_congruent(fp_mul(a0, a0), a0 * a0, fp_mul(11, d), 11 * (2 * (a1 * a3) - a2 * a2));
}

/// The coefficient of `x^2` of an element times its conjugate, as computed.
proof fn lemma_fold_conj_c2(a0: int, a1: int, a2: int, a3: int)
    ensures
        fp_add(fp_sub(fp_mul(a0, fp_add(a2, a2)), fp_mul(a1, a1)), fp_mul(11, fp_mul(a3, a3)))
            == red(2 * (a0 * a2) - a1 * a1 + 11 * (a3 * a3)),
{
    let t = fp_mul(a0, fp_add(a2, a2));
    lemma_mul_congruent(a0, a0, fp_add(a2, a2), a2 + a2);
    lemma_mul_is_distributive_add(a0, a2, a2);
    assert(congruent(t, 2 * (a0 * a2)));
    let d = fp_sub(t, fp_mul(a1, a1));
    lemma_add_congruent(t, 2 * (a0 * a2), fp_mul(a1, a1), a1 * a1);
    lemma_mul_congruent(11, 11, fp_mul(a3, a3), a3 * a3);
    lemma_add_congruent(d, 2 * (a0 * a2) - a1 * a1, fp_mul(11, fp_mul(a3, a3)), 11 * (a3 * a3));
}

/// A product with a constant on the left of one factor, as computed.
proof fn lemma_fold_scaled(k: int, kr: int, x: int, y: int)
    requires
        congruent(kr, k),
    ensures
        congruent(fp_mul(fp_mul(kr, x), y), k * (x * y)),
{
    lemma_mul_congruent(kr, k, x, x);
    lemma_mul_congruent(fp_mul(kr, x), k * x, y, y);
    lemma_mul_is_associative(k, x, y);
}

/// A product with one factor negated, as computed.
proof fn lemma_fold_negated(x: int, y: int)
    ensures
        congruent(fp_mul(fp_neg(x), y), -(x * y)),
{
    lemma_mul_congruent(fp_neg(x), -x, y, y);
    lemma_mul_unary_negation(x, y);
}

/// The norm, as computed from the two conjugate coefficients.
proof fn lemma_fold_norm(b0: int, b2: int)
    ensures
        fp_add(fp_mul(b0, b0), fp_mul(fp_mul(11, b2), b2)) == red(b0 * b0 + 11 * (b2 * b2)),
{
    lemma_fold_scaled(11, 11, b2, b2);
    lemma_add_congruent(fp_mul(b0, b0), b0 * b0, fp_mul(fp_mul(11, b2), b2), 11 * (b2 * b2));
}

/// The even coefficients of the inverse, as computed.
proof fn lemma_fold_inv_even(a0: int, a2: int, s0: int, s2: int)
    ensures
        fp_add(fp_mul(a0, s0), fp_mul(fp_mul(11, a2), s2)) == red(a0 * s0 + 11 * (a2 * s2)),
        fp_add(fp_mul(fp_neg(a0), s2), fp_mul(a2, s0)) == red(a2 * s0 - a0 * s2),
{
    lemma_fold_scaled(11, 11, a2, s2);
    lemma_add_congruent(fp_mul(a0, s0), a0 * s0, fp_mul(fp_mul(11, a2), s2), 11 * (a2 * s2));
    lemma_fold_negated(a0, s2);
    lemma_add_congruent(fp_mul(fp_neg(a0), s2), -(a0 * s2), fp_mul(a2, s0), a2 * s0);
}

/// The odd coefficients of the inverse, as computed.
proof fn lemma_fold_inv_odd(a1: int, a3: int, s0: int, s2: int)
    ensures
        fp_add(fp_mul(fp_neg(a1), s0), fp_mul(fp_mul(NBETA as int, a3), s2)) == red(
            -(a1 * s0) - 11 * (a3 * s2),
        ),
        fp_sub(fp_mul(a1, s2), fp_mul(a3, s0)) == red(a1 * s2 - a3 * s0),
{
    lemma_fold_negated(a1, s0);
    lemma_fold_scaled(-11, NBETA as int, a3, s2);
    lemma_add_congruent(
        fp_mul(fp_neg(a1), s0),
        -(a1 * s0),
        fp_mul(fp_mul(NBETA as int, a3), s2),
        (-11) * (a3 * s2),
    );
    lemma_add_congruent(fp_mul(a1, s2), a1 * s2, fp_mul(a3, s0), a3 * s0);
}

} // verus!
