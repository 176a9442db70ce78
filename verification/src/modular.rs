//! Arithmetic modulo the field characteristic, over mathematical integers.
//!
//! Every contract of the crate is stated over the functions defined here, and
//! the lemmas below are the congruence facts that the proofs are built from.

use vstd::arithmetic::div_mod::*;
use vstd::arithmetic::power::*;
use vstd::prelude::*;

verus! {

/// The field characteristic, `15 * 2^27 + 1`.
pub const P: u32 = 2013265921;

/// `P` as a 64-bit integer.
pub const P_U64: u64 = 2013265921;

/// The first raw 32-bit draw that rejection sampling discards: the largest
/// multiple of `P` that a `u32` can hold, `(u32::MAX / P) * P`.
pub const REJECT_CUTOFF: u32 = 4026531842;

/// The sum of `a` and `b` in the field.
pub open spec fn fp_add(a: int, b: int) -> int {
    (a + b) % (P as int)
}

/// The difference of `a` and `b` in the field.
pub open spec fn fp_sub(a: int, b: int) -> int {
    (a - b) % (P as int)
}

/// The product of `a` and `b` in the field.
pub open spec fn fp_mul(a: int, b: int) -> int {
    (a * b) % (P as int)
}

/// The additive inverse of `a` in the field.
pub open spec fn fp_neg(a: int) -> int {
    (-a) % (P as int)
}

/// `a` raised to the power `n` in the field; `fp_pow(a, 0)` is `1` for every `a`.
pub open spec fn fp_pow(a: int, n: nat) -> int {
    pow(a, n) % (P as int)
}

/// The field's convention for inversion, `a^(P-2)`: the multiplicative inverse
/// of a non-zero `a`, and `0` for `a == 0`.
pub open spec fn fp_inv(a: int) -> int {
    fp_pow(a, (P - 2) as nat)
}

/// `x` and `y` have the same residue modulo `P`.
pub open spec fn congruent(x: int, y: int) -> bool {
    x % (P as int) == y % (P as int)
}

/// Congruence is compatible with multiplication.
pub proof fn lemma_mul_congruent(x1: int, x2: int, y1: int, y2: int)
    requires
        congruent(x1, x2),
        congruent(y1, y2),
    ensures
        congruent(x1 * y1, x2 * y2),
{
    lemma_mul_mod_noop_general(x1, y1, P as int);
    lemma_mul_mod_noop_general(x2, y2, P as int);
}

/// Congruence is compatible with addition and subtraction.
pub proof fn lemma_add_congruent(x1: int, x2: int, y1: int, y2: int)
    requires
        congruent(x1, x2),
        congruent(y1, y2),
    ensures
        congruent(x1 + y1, x2 + y2),
        congruent(x1 - y1, x2 - y2),
{
    lemma_add_mod_noop(x1, y1, P as int);
    lemma_add_mod_noop(x2, y2, P as int);
    lemma_sub_mod_noop(x1, y1, P as int);
    lemma_sub_mod_noop(x2, y2, P as int);
}

/// Congruence is compatible with exponentiation.
pub proof fn lemma_pow_congruent(x1: int, x2: int, n: nat)
    requires
        congruent(x1, x2),
    ensures
        congruent(pow(x1, n), pow(x2, n)),
{
    lemma_pow_mod_noop(x1, n, P as int);
    lemma_pow_mod_noop(x2, n, P as int);
}

/// Squaring the base halves an even exponent.
pub proof fn lemma_pow_square(x: int, k: nat)
    ensures
        pow(x * x, k) == pow(x, 2 * k),
        pow(x, 2 * k + 1) == x * pow(x * x, k),
{
    lemma_square_is_pow2(x);
    lemma_pow_multiplies(x, 2, k);
    reveal(pow);
}

} // verus!
