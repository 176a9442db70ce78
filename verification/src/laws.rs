//! The field laws, stated of elements.
//!
//! Each law speaks of the views of its arguments and of the functions that
//! the contracts of the operations are stated with: what it says of
//! `fp_mul(a@, b@)` it says of the view of `a * b`.

use crate::elem::Elem;
use crate::ext::ExtElem;
use crate::ext_laws::{
    lemma_ext_distributive, lemma_ext_inverse, lemma_ext_mul_associative,
    lemma_ext_mul_commutative, lemma_ext_mul_one,
};
use crate::fermat::lemma_fermat;
use crate::modular::{
    fp_add, fp_inv, fp_mul, fp_neg, fp_pow, fp_sub, lemma_add_congruent, lemma_mul_congruent, P,
    REJECT_CUTOFF,
};
use crate::poly::{ext_add, ext_inv, ext_mul, ext_neg, ext_pow, ext_scale, ext_sub, Poly};
use crate::residues::lemma_inverse;
use vstd::arithmetic::mul::{
    lemma_mul_is_associative, lemma_mul_is_commutative, lemma_mul_is_distributive_add,
};
use vstd::arithmetic::power::lemma0_pow;
use vstd::prelude::*;

verus! {

/// Every result of an operation of the base field is a canonical
/// representative, whatever the operands are.
pub proof fn lemma_elem_results_canonical(a: int, b: int, n: nat)
    ensures
        0 <= fp_add(a, b) < P,
        0 <= fp_sub(a, b) < P,
        0 <= fp_mul(a, b) < P,
        0 <= fp_neg(a) < P,
        0 <= fp_pow(a, n) < P,
        0 <= fp_inv(a) < P,
{
}

/// Every result of an operation of the extension field has canonical
/// coefficients, whatever the operands are.
pub proof fn lemma_ext_results_canonical(a: Poly, b: Poly, s: int, n: nat)
    ensures
        ext_add(a, b).canonical(),
        ext_sub(a, b).canonical(),
        ext_neg(a).canonical(),
        ext_scale(a, s).canonical(),
        ext_mul(a, b).canonical(),
        ext_pow(a, n).canonical(),
        ext_inv(a).canonical(),
        Poly::embed(s).canonical(),
{
}

/// Addition in the base field is commutative.
pub proof fn lemma_elem_add_commutative(a: Elem, b: Elem)
    ensures
        fp_add(a@, b@) == fp_add(b@, a@),
{
}

/// Addition in the base field is associative.
pub proof fn lemma_elem_add_associative(a: Elem, b: Elem, c: Elem)
    ensures
        fp_add(fp_add(a@, b@), c@) == fp_add(a@, fp_add(b@, c@)),
{
    lemma_add_congruent(fp_add(a@, b@), a@ + b@, c@, c@);
    lemma_add_congruent(a@, a@, fp_add(b@, c@), b@ + c@);
}

/// Multiplication in the base field is commutative.
pub proof fn lemma_elem_mul_commutative(a: Elem, b: Elem)
    ensures
        fp_mul(a@, b@) == fp_mul(b@, a@),
{
    lemma_mul_is_commutative(a@, b@);
}

/// Multiplication in the base field is associative.
pub proof fn lemma_elem_mul_associative(a: Elem, b: Elem, c: Elem)
    ensures
        fp_mul(fp_mul(a@, b@), c@) == fp_mul(a@, fp_mul(b@, c@)),
{
    lemma_mul_congruent(fp_mul(a@, b@), a@ * b@, c@, c@);
    lemma_mul_congruent(a@, a@, fp_mul(b@, c@), b@ * c@);
    lemma_mul_is_associative(a@, b@, c@);
}

/// Multiplication in the base field distributes over addition.
pub proof fn lemma_elem_distributive(a: Elem, b: Elem, c: Elem)
    ensures
        fp_mul(a@, fp_add(b@, c@)) == fp_add(fp_mul(a@, b@), fp_mul(a@, c@)),
{
    lemma_mul_congruent(a@, a@, fp_add(b@, c@), b@ + c@);
    lemma_mul_is_distributive_add(a@, b@, c@);
    lemma_add_congruent(fp_mul(a@, b@), a@ * b@, fp_mul(a@, c@), a@ * c@);
}

/// An element of the base field and its negation add up to zero.
pub proof fn lemma_elem_add_negation(a: Elem)
    ensures
        fp_add(a@, fp_neg(a@)) == 0,
{
    lemma_add_congruent(a@, a@, fp_neg(a@), -a@);
}

/// Negating an element of the base field is subtracting it from zero.
pub proof fn lemma_elem_sub_from_zero(a: Elem)
    ensures
        fp_sub(0, a@) == fp_neg(a@),
{
}

/// Zero and one are the identities of addition and multiplication in the
/// base field.
pub proof fn lemma_elem_identities(a: Elem)
    requires
        a.canonical(),
    ensures
        fp_add(a@, 0) == a@,
        fp_mul(a@, 1) == a@,
{
}

/// Fermat's little theorem: a non-zero element of the base field raised to
/// the power `P - 1` is one, and raised to the power `P - 2` it is the
/// element's inverse.
pub proof fn lemma_elem_fermat(a: Elem)
    requires
        a.canonical(),
        a@ != 0,
    ensures
        fp_pow(a@, (P - 1) as nat) == 1,
        fp_mul(fp_pow(a@, (P - 2) as nat), a@) == 1,
{
    lemma_fermat(a@);
    lemma_inverse(a@);
}

/// The inverse of a non-zero element of the base field, multiplied by the
/// element, is one.
pub proof fn lemma_elem_inverse(a: Elem)
    requires
        a.canonical(),
        a@ != 0,
    ensures
        fp_mul(fp_inv(a@), a@) == 1,
{
    lemma_inverse(a@);
}

/// The inverse of zero in the base field is zero.
pub proof fn lemma_elem_inverse_of_zero()
    ensures
        fp_inv(0) == 0,
{
    lemma0_pow((P - 2) as nat);
}

/// Rejection sampling is uniform: every canonical representative `r` is
/// what exactly two of the accepted raw draws reduce to, `r` and `r + P`.
pub proof fn lemma_sampling_uniform(r: Elem, val: u32)
    requires
        r.canonical(),
    ensures
        (val < REJECT_CUTOFF && val as int % P as int == r@) <==> (val == r@ || val == r@ + P),
        REJECT_CUTOFF == (u32::MAX / P) * P,
{
}

/// Addition in the extension field is commutative.
pub proof fn lemma_ext_elem_add_commutative(a: ExtElem, b: ExtElem)
    ensures
        ext_add(a@, b@) == ext_add(b@, a@),
{
}

/// Addition in the extension field is associative.
pub proof fn lemma_ext_elem_add_associative(a: ExtElem, b: ExtElem, c: ExtElem)
    ensures
        ext_add(ext_add(a@, b@), c@) == ext_add(a@, ext_add(b@, c@)),
{
    let x = a@;
    let y = b@;
    let z = c@;
    lemma_add_congruent(fp_add(x.c0, y.c0), x.c0 + y.c0, z.c0, z.c0);
    lemma_add_congruent(x.c0, x.c0, fp_add(y.c0, z.c0), y.c0 + z.c0);
    lemma_add_congruent(fp_add(x.c1, y.c1), x.c1 + y.c1, z.c1, z.c1);
    lemma_add_congruent(x.c1, x.c1, fp_add(y.c1, z.c1), y.c1 + z.c1);
    lemma_add_congruent(fp_add(x.c2, y.c2), x.c2 + y.c2, z.c2, z.c2);
    lemma_add_congruent(x.c2, x.c2, fp_add(y.c2, z.c2), y.c2 + z.c2);
    lemma_add_congruent(fp_add(x.c3, y.c3), x.c3 + y.c3, z.c3, z.c3);
    lemma_add_congruent(x.c3, x.c3, fp_add(y.c3, z.c3), y.c3 + z.c3);
}

/// Multiplication in the extension field is commutative.
pub proof fn lemma_ext_elem_mul_commutative(a: ExtElem, b: ExtElem)
    ensures
        ext_mul(a@, b@) == ext_mul(b@, a@),
{
    lemma_ext_mul_commutative(a@, b@);
}

/// Multiplication in the extension field is associative.
pub proof fn lemma_ext_elem_mul_associative(a: ExtElem, b: ExtElem, c: ExtElem)
    ensures
        ext_mul(ext_mul(a@, b@), c@) == ext_mul(a@, ext_mul(b@, c@)),
{
    lemma_ext_mul_associative(a@, b@, c@);
}

/// Multiplication in the extension field distributes over addition.
pub proof fn lemma_ext_elem_distributive(a: ExtElem, b: ExtElem, c: ExtElem)
    ensures
        ext_mul(a@, ext_add(b@, c@)) == ext_add(ext_mul(a@, b@), ext_mul(a@, c@)),
{
    lemma_ext_distributive(a@, b@, c@);
}

/// An element of the extension field and its negation add up to zero.
pub proof fn lemma_ext_elem_add_negation(a: ExtElem)
    ensures
        ext_add(a@, ext_neg(a@)) == Poly::zero(),
{
    let x = a@;
    lemma_add_congruent(x.c0, x.c0, fp_sub(0, x.c0), -x.c0);
    lemma_add_congruent(x.c1, x.c1, fp_sub(0, x.c1), -x.c1);
    lemma_add_congruent(x.c2, x.c2, fp_sub(0, x.c2), -x.c2);
    lemma_add_congruent(x.c3, x.c3, fp_sub(0, x.c3), -x.c3);
}

/// Negating an element of the extension field is subtracting it from zero.
pub proof fn lemma_ext_elem_sub_from_zero(a: ExtElem)
    ensures
        ext_sub(Poly::zero(), a@) == ext_neg(a@),
{
}

/// One is the identity of multiplication in the extension field: the
/// product of the embedded one and any element is that element.
pub proof fn lemma_ext_elem_mul_identity(a: ExtElem)
    requires
        a.canonical(),
    ensures
        ext_mul(Poly::one(), a@) == a@,
        ext_mul(a@, Poly::one()) == a@,
{
    lemma_ext_mul_one(a@);
}

/// The inverse of a non-zero element of the extension field, multiplied by
/// the element, is one.
pub proof fn lemma_ext_elem_inverse(a: ExtElem)
    requires
        a.canonical(),
        a@ != Poly::zero(),
    ensures
        ext_mul(ext_inv(a@), a@) == Poly::one(),
{
    lemma_ext_inverse(a@);
}

/// The inverse of zero in the extension field is zero.
pub proof fn lemma_ext_elem_inverse_of_zero()
    ensures
        ext_inv(Poly::zero()) == Poly::zero(),
{
    lemma0_pow((P - 2) as nat);
}

/// The embedding of the base field preserves sums and products, zero and
/// one: it is a homomorphism of rings.
pub proof fn lemma_embedding_homomorphism(a: Elem, b: Elem)
    ensures
        ext_add(Poly::embed(a@), Poly::embed(b@)) == Poly::embed(fp_add(a@, b@)),
        ext_mul(Poly::embed(a@), Poly::embed(b@)) == Poly::embed(fp_mul(a@, b@)),
        Poly::embed(0) == Poly::zero(),
        Poly::embed(1) == Poly::one(),
{
    let p = P as int;
    lemma_add_congruent(a@ % p, a@, b@ % p, b@);
    lemma_mul_congruent(a@ % p, a@, b@ % p, b@);
}

/// Multiplying by a scalar is multiplying by the embedded scalar, on either
/// side.
pub proof fn lemma_scale_is_embedded_product(a: ExtElem, s: Elem)
    ensures
        ext_scale(a@, s@) == ext_mul(a@, Poly::embed(s@)),
        ext_scale(a@, s@) == ext_mul(Poly::embed(s@), a@),
{
    let p = P as int;
    let x = a@;
    lemma_mul_congruent(x.c0, x.c0, s@ % p, s@);
    lemma_mul_congruent(x.c1, x.c1, s@ % p, s@);
    lemma_mul_congruent(x.c2, x.c2, s@ % p, s@);
    lemma_mul_congruent(x.c3, x.c3, s@ % p, s@);
    lemma_ext_mul_commutative(a@, Poly::embed(s@));
}

} // verus!
