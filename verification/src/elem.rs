//! Elements of the base field.

use crate::modular::{
    congruent, fp_add, fp_inv, fp_mul, fp_neg, fp_pow, fp_sub, lemma_mul_congruent,
    lemma_pow_congruent, lemma_pow_square, P, P_U64, REJECT_CUTOFF,
};
use crate::residues::lemma_inverse;
use vstd::arithmetic::power::{lemma0_pow, pow};
use vstd::prelude::*;
use vstd::std_specs::convert::FromSpecImpl;
use vstd::std_specs::ops::{AddSpecImpl, MulSpecImpl, NegSpecImpl, SubSpecImpl};

verus! {

/// An element of the prime field of order [`P`], held as its canonical
/// representative: the unique integer in `[0, P)` of its residue class.
///
/// Equal elements hold the same integer, so `==` on elements is equality in
/// the field.
#[derive(Clone, Copy, Debug, PartialEq, Eq, Structural)]
pub struct Elem(u32);

/// Adds two canonical representatives.
pub fn add(lhs: u32, rhs: u32) -> (r: u32)
    requires
        lhs < P,
        rhs < P,
    ensures
        r == fp_add(lhs as int, rhs as int),
        r < P,
{
    let x: u32 = lhs + rhs;
    if x >= P {
        x - P
    } else {
        x
    }
}

/// Subtracts one canonical representative from another.
pub fn sub(lhs: u32, rhs: u32) -> (r: u32)
    requires
        lhs < P,
        rhs < P,
    ensures
        r == fp_sub(lhs as int, rhs as int),
        r < P,
{
    let x: u32 = lhs.wrapping_sub(rhs);
    if x > P {
        x.wrapping_add(P)
    } else {
        x
    }
}

/// Multiplies two canonical representatives.
pub fn mul(lhs: u32, rhs: u32) -> (r: u32)
    requires
        lhs < P,
        rhs < P,
    ensures
        r == fp_mul(lhs as int, rhs as int),
        r < P,
{
    assert((lhs as int) * (rhs as int) <= (P as int) * (P as int)) by (nonlinear_arith)
        requires
            0 <= lhs < P,
            0 <= rhs < P,
    ;
    (((lhs as u64) * (rhs as u64)) % P_U64) as u32
}

impl Elem {
    /// The integer in `[0, P)` that stands for this element.
    pub closed spec fn view(self) -> int {
        self.0 as int
    }

    /// The representation invariant: the representative lies in `[0, P)`.
    #[verifier::type_invariant]
    pub open spec fn canonical(self) -> bool {
        0 <= self@ < P
    }

    /// The element whose representative is the residue of `v` modulo `P`.
    pub closed spec fn of_int(v: int) -> Elem {
        Elem((v % (P as int)) as u32)
    }

    /// Two elements with the same representative are the same element.
    pub broadcast proof fn lemma_view_injective(a: Elem, b: Elem)
        ensures
            #![trigger a@, b@]
            a@ == b@ <==> a == b,
    {
    }

    /// `of_int` yields the canonical element of the residue class of `v`.
    pub broadcast proof fn lemma_of_int(v: int)
        ensures
            (#[trigger] Elem::of_int(v))@ == v % (P as int),
            Elem::of_int(v).canonical(),
    {
    }

    /// Creates an element from a raw integer, reducing it modulo `P`.
    pub fn new(x: u32) -> (r: Elem)
        ensures
            r@ == x as int % P as int,
            r == Elem::of_int(x as int),
    {
        Elem(x % P)
    }

    /// The additive identity.
    pub fn zero() -> (r: Elem)
        ensures
            r@ == 0,
    {
        Elem(0)
    }

    /// The multiplicative identity.
    pub fn one() -> (r: Elem)
        ensures
            r@ == 1,
    {
        Elem(1)
    }

    /// Raises the element to the power `n` by square-and-multiply.
    pub fn pow(self, n: usize) -> (r: Elem)
        ensures
            r@ == fp_pow(self@, n as nat),
    {
        proof {
            use_type_invariant(&self);
        }
        let mut n: usize = n;
        let ghost n0 = n;
        let mut tot: u32 = 1;
        let mut x: u32 = self.0;
        while n != 0
            invariant
                tot < P,
                x < P,
                congruent(tot as int * pow(x as int, n as nat), pow(self@, n0 as nat)),
            decreases n,
        {
            let ghost k = (n / 2) as nat;
            let ghost t = tot as int;
            let ghost xi = x as int;
            let tot_next: u32 = if n % 2 == 1 { self::mul(tot, x) } else { tot };
            let x_next: u32 = self::mul(x, x);
            proof {
                lemma_pow_square(xi, k);
                lemma_pow_congruent(x_next as int, xi * xi, k);
                if n % 2 == 1 {
                    // t * (xi * y) with y = pow(xi * xi, k)
                    let y = pow(xi * xi, k);
                    assert(t * (xi * y) == (t * xi) * y) by (nonlinear_arith);
                    lemma_mul_congruent(tot_next as int, t * xi, pow(x_next as int, k), y);
                } else {
                    lemma_mul_congruent(t, t, pow(x_next as int, k), pow(xi * xi, k));
                }
            }
            tot = tot_next;
            x = x_next;
            n = n / 2;
        }
        proof {
            reveal(pow);
        }
        Elem(tot)
    }

    /// Inverts the element by Fermat's little theorem, as `self^(P-2)`.
    /// The result for zero is zero.
    pub fn inv(self) -> (r: Elem)
        ensures
            r@ == fp_inv(self@),
            self@ != 0 ==> fp_mul(r@, self@) == 1,
            self@ == 0 ==> r@ == 0,
    {
        proof {
            use_type_invariant(&self);
            if self@ != 0 {
                lemma_inverse(self@);
            } else {
                lemma0_pow((P - 2) as nat);
            }
        }
        self.pow((P - 2) as usize)
    }

    /// Decides one step of rejection sampling on a raw 32-bit draw.
    ///
    /// A draw below [`REJECT_CUTOFF`] is accepted and reduced modulo `P`; any
    /// other draw is rejected.  The accepted draws cover every residue the
    /// same number of times, so a uniform draw gives a uniform element.
    pub fn from_sample(val: u32) -> (r: Option<Elem>)
        ensures
            r is Some <==> val < REJECT_CUTOFF,
            r matches Some(e) ==> e@ == val as int % P as int,
    {
        if val >= REJECT_CUTOFF {
            None
        } else {
            Some(Elem(val % P))
        }
    }
}

impl Default for Elem {
    /// The default element is zero.
    fn default() -> (r: Elem)
        ensures
            r@ == 0,
    {
        Elem(0)
    }
}

impl AddSpecImpl for Elem {
    open spec fn obeys_add_spec() -> bool {
        true
    }

    open spec fn add_req(self, rhs: Elem) -> bool {
        true
    }

    open spec fn add_spec(self, rhs: Elem) -> Elem {
        Elem::of_int(self@ + rhs@)
    }
}

impl core::ops::Add for Elem {
    type Output = Elem;

    /// Addition in the field.
    fn add(self, rhs: Elem) -> (r: Elem)
        ensures
            r@ == fp_add(self@, rhs@),
    {
        proof {
            use_type_invariant(&self);
            use_type_invariant(&rhs);
        }
        Elem(self::add(self.0, rhs.0))
    }
}

impl core::ops::AddAssign for Elem {
    /// Addition in the field, in place.
    fn add_assign(&mut self, rhs: Elem)
        ensures
            final(self)@ == fp_add(old(self)@, rhs@),
    {
        proof {
            use_type_invariant(&*self);
            use_type_invariant(&rhs);
        }
        self.0 = self::add(self.0, rhs.0);
    }
}

impl SubSpecImpl for Elem {
    open spec fn obeys_sub_spec() -> bool {
        true
    }

    open spec fn sub_req(self, rhs: Elem) -> bool {
        true
    }

    open spec fn sub_spec(self, rhs: Elem) -> Elem {
        Elem::of_int(self@ - rhs@)
    }
}

impl core::ops::Sub for Elem {
    type Output = Elem;

    /// Subtraction in the field.
    fn sub(self, rhs: Elem) -> (r: Elem)
        ensures
            r@ == fp_sub(self@, rhs@),
    {
        proof {
            use_type_invariant(&self);
            use_type_invariant(&rhs);
        }
        Elem(self::sub(self.0, rhs.0))
    }
}

impl core::ops::SubAssign for Elem {
    /// Subtraction in the field, in place.
    fn sub_assign(&mut self, rhs: Elem)
        ensures
            final(self)@ == fp_sub(old(self)@, rhs@),
    {
        proof {
            use_type_invariant(&*self);
            use_type_invariant(&rhs);
        }
        self.0 = self::sub(self.0, rhs.0);
    }
}

impl MulSpecImpl for Elem {
    open spec fn obeys_mul_spec() -> bool {
        true
    }

    open spec fn mul_req(self, rhs: Elem) -> bool {
        true
    }

    open spec fn mul_spec(self, rhs: Elem) -> Elem {
        Elem::of_int(self@ * rhs@)
    }
}

impl core::ops::Mul for Elem {
    type Output = Elem;

    /// Multiplication in the field.
    fn mul(self, rhs: Elem) -> (r: Elem)
        ensures
            r@ == fp_mul(self@, rhs@),
    {
        proof {
            use_type_invariant(&self);
            use_type_invariant(&rhs);
        }
        Elem(self::mul(self.0, rhs.0))
    }
}

impl core::ops::MulAssign for Elem {
    /// Multiplication in the field, in place.
    fn mul_assign(&mut self, rhs: Elem)
        ensures
            final(self)@ == fp_mul(old(self)@, rhs@),
    {
        proof {
            use_type_invariant(&*self);
            use_type_invariant(&rhs);
        }
        self.0 = self::mul(self.0, rhs.0);
    }
}

impl NegSpecImpl for Elem {
    open spec fn obeys_neg_spec() -> bool {
        true
    }

    open spec fn neg_req(self) -> bool {
        true
    }

    open spec fn neg_spec(self) -> Elem {
        Elem::of_int(-self@)
    }
}

impl core::ops::Neg for Elem {
    type Output = Elem;

    /// Negation in the field: `0 - self`.
    fn neg(self) -> (r: Elem)
        ensures
            r@ == fp_neg(self@),
            r@ == fp_sub(0, self@),
    {
        Elem(0) - self
    }
}

impl FromSpecImpl<u32> for Elem {
    open spec fn obeys_from_spec() -> bool {
        true
    }

    open spec fn from_spec(x: u32) -> Elem {
        Elem::of_int(x as int)
    }
}

impl From<u32> for Elem {
    /// Reduces `x` modulo `P`.
    fn from(x: u32) -> (r: Elem)
        ensures
            r@ == x as int % P as int,
    {
        Elem(x % P)
    }
}

impl FromSpecImpl<u64> for Elem {
    open spec fn obeys_from_spec() -> bool {
        true
    }

    open spec fn from_spec(x: u64) -> Elem {
        Elem::of_int(x as int)
    }
}

impl From<u64> for Elem {
    /// Reduces `x` modulo `P`.
    fn from(x: u64) -> (r: Elem)
        ensures
            r@ == x as int % P as int,
    {
        Elem((x % P_U64) as u32)
    }
}

impl FromSpecImpl<Elem> for u32 {
    open spec fn obeys_from_spec() -> bool {
        true
    }

    open spec fn from_spec(x: Elem) -> u32 {
        x@ as u32
    }
}

impl From<Elem> for u32 {
    /// The canonical representative of `x`.
    fn from(x: Elem) -> (r: u32)
        ensures
            r == x@,
            r < P,
    {
        proof {
            use_type_invariant(&x);
        }
        x.0
    }
}

impl<'a> FromSpecImpl<&'a Elem> for u32 {
    open spec fn obeys_from_spec() -> bool {
        true
    }

    open spec fn from_spec(x: &'a Elem) -> u32 {
        x@ as u32
    }
}

impl<'a> From<&'a Elem> for u32 {
    /// The canonical representative of `x`.
    fn from(x: &'a Elem) -> (r: u32)
        ensures
            r == x@,
            r < P,
    {
        proof {
            use_type_invariant(x);
        }
        x.0
    }
}

impl FromSpecImpl<Elem> for u64 {
    open spec fn obeys_from_spec() -> bool {
        true
    }

    open spec fn from_spec(x: Elem) -> u64 {
        x@ as u64
    }
}

impl From<Elem> for u64 {
    /// The canonical representative of `x`.
    fn from(x: Elem) -> (r: u64)
        ensures
            r == x@,
            r < P,
    {
        proof {
            use_type_invariant(&x);
        }
        x.0 as u64
    }
}

} // verus!
