//! Fermat's little theorem for the field characteristic: every non-zero
//! residue raised to the power `P - 1` is `1`.
//!
//! The proof goes through a generator of the multiplicative group.  The
//! powers of `31` below `P - 1` are pairwise distinct, because `31^(P-1)` is
//! `1` while `31^((P-1)/q)` is not for any prime `q` that divides `P - 1`;
//! there are as many of them as non-zero residues, so every non-zero residue
//! is one of them.

use crate::modular::{congruent, fp_pow, lemma_pow_congruent, P};
use crate::order::{
    lemma_cofactor, lemma_common_period, lemma_fp_pow_adds, lemma_period_multiple,
    lemma_pow_step, lemma_strip_twos,
};
use vstd::arithmetic::div_mod::lemma_fundamental_div_mod;
use vstd::arithmetic::mul::{lemma_mul_is_associative, lemma_mul_is_commutative};
use vstd::arithmetic::power::{lemma_pow1, lemma_pow_multiplies, pow};
use vstd::arithmetic::power2::{lemma2_to64, pow2};
use vstd::prelude::*;
use vstd::relations::injective_on;
use vstd::set_lib::{lemma_int_range, lemma_map_size, lemma_subset_equality, set_int_range};

verus! {

/// The order of the multiplicative group, `P - 1 = 2^27 * 3 * 5`.
pub open spec fn group_order() -> nat {
    (P - 1) as nat
}

/// The residue of `31^(2^14)`.
proof fn lemma_generator_chain_low()
    ensures
        congruent(pow(31, 16384), 235347371),
{
    lemma_pow1(31);
    lemma_pow_step(31, 1, 1, 31, 31, 961);
    lemma_pow_step(31, 2, 2, 961, 961, 923521);
    lemma_pow_step(31, 4, 4, 923521, 923521, 1279552858);
    lemma_pow_step(31, 8, 8, 1279552858, 1279552858, 1577897433);
    lemma_pow_step(31, 16, 16, 1577897433, 1577897433, 1411845927);
    lemma_pow_step(31, 32, 32, 1411845927, 1411845927, 331616158);
    lemma_pow_step(31, 64, 64, 331616158, 331616158, 732065034);
    lemma_pow_step(31, 128, 128, 732065034, 732065034, 54245443);
    lemma_pow_step(31, 256, 256, 54245443, 54245443, 762057780);
    lemma_pow_step(31, 512, 512, 762057780, 762057780, 877050386);
    lemma_pow_step(31, 1024, 1024, 877050386, 877050386, 709896991);
    lemma_pow_step(31, 2048, 2048, 709896991, 709896991, 532145872);
    lemma_pow_step(31, 4096, 4096, 532145872, 532145872, 1159211260);
    lemma_pow_step(31, 8192, 8192, 1159211260, 1159211260, 235347371);
}

/// The residue of `31^(2^27)`.
proof fn lemma_generator_chain_high()
    ensures
        congruent(pow(31, 67108864), 1520628512),
        congruent(pow(31, 134217728), 1995471372),
{
    lemma_generator_chain_low();
    lemma_pow_step(31, 16384, 16384, 235347371, 235347371, 891708573);
    lemma_pow_step(31, 32768, 32768, 891708573, 891708573, 10258823);
    lemma_pow_step(31, 65536, 65536, 10258823, 10258823, 1986590975);
    lemma_pow_step(31, 131072, 131072, 1986590975, 1986590975, 143112044);
    lemma_pow_step(31, 262144, 262144, 143112044, 143112044, 246962965);
    lemma_pow_step(31, 524288, 524288, 246962965, 246962965, 818523694);
    lemma_pow_step(31, 1048576, 1048576, 818523694, 818523694, 250130935);
    lemma_pow_step(31, 2097152, 2097152, 250130935, 250130935, 764234573);
    lemma_pow_step(31, 4194304, 4194304, 764234573, 764234573, 1101895250);
    lemma_pow_step(31, 8388608, 8388608, 1101895250, 1101895250, 455464017);
    lemma_pow_step(31, 16777216, 16777216, 455464017, 455464017, 660339856);
    lemma_pow_step(31, 33554432, 33554432, 660339856, 660339856, 1520628512);
    lemma_pow_step(31, 67108864, 67108864, 1520628512, 1520628512, 1995471372);
}

/// The certificate that `31` generates the multiplicative group: its power
/// `P - 1` is `1`, and its powers `(P-1)/2`, `(P-1)/3` and `(P-1)/5` are not.
pub proof fn lemma_generator_certificate()
    ensures
        fp_pow(31, group_order()) == 1,
        fp_pow(31, group_order() / 2) != 1,
        fp_pow(31, group_order() / 3) != 1,
        fp_pow(31, group_order() / 5) != 1,
{
    lemma_generator_chain_high();
    lemma_pow_step(31, 134217728, 134217728, 1995471372, 1995471372, 1523324442);
    lemma_pow_step(31, 268435456, 134217728, 1523324442, 1995471372, 645581151);
    lemma_pow_step(31, 402653184, 268435456, 645581151, 1523324442, 1314723123);
    lemma_pow_step(31, 671088640, 671088640, 1314723123, 1314723123, 698542797);
    lemma_pow_step(31, 1342177280, 671088640, 698542797, 1314723123, 1);
    lemma_pow_step(31, 134217728, 67108864, 1995471372, 1520628512, 1403701133);
    lemma_pow_step(31, 201326592, 134217728, 1403701133, 1995471372, 1314723124);
    lemma_pow_step(31, 671088640, 335544320, 1314723123, 1314723124, 2013265920);
}

/// Every divisor of `P - 1` other than `1` is divisible by `2`, `3` or `5`.
proof fn lemma_smooth_divisor(m: int, c: int)
    requires
        m >= 2,
        m * c == P - 1,
    ensures
        m % 2 == 0 || m % 3 == 0 || m % 5 == 0,
{
    if m % 2 != 0 && m % 3 != 0 && m % 5 != 0 {
        lemma2_to64();
        assert(pow2(27) * 15 == P - 1);
        let c1 = lemma_strip_twos(m, c, 15, 27);
        lemma_cofactor(3, m, c1, 5);
        lemma_cofactor(5, m, c1 / 3, 1);
        let x = c1 / 3 / 5;
        assert(false) by (nonlinear_arith)
            requires
                m >= 2,
                m * x == 1,
        ;
    }
}

/// No exponent strictly between `0` and `P - 1` gives `1`: the order of
/// the generator is `P - 1`.
proof fn lemma_generator_order(d: nat)
    requires
        0 < d < group_order(),
    ensures
        fp_pow(31, d) != 1,
{
    if fp_pow(31, d) == 1 {
        lemma_generator_certificate();
        let n = group_order();
        let e = lemma_common_period(31, n, d);
        lemma_fundamental_div_mod(d as int, e as int);
        lemma_fundamental_div_mod(n as int, e as int);
        let m = n as int / e as int;
        let dq = d as int / e as int;
        assert(e <= d) by (nonlinear_arith)
            requires
                d == e * dq,
                d > 0,
                e > 0,
        ;
        assert(m >= 2) by (nonlinear_arith)
            requires
                n == e * m,
                e < n,
                e > 0,
        ;
        lemma_mul_is_commutative(e as int, m);
        lemma_smooth_divisor(m, e as int);
        let q: int = if m % 2 == 0 {
            2
        } else if m % 3 == 0 {
            3
        } else {
            5
        };
        lemma_fundamental_div_mod(m, q);
        let j = m / q;
        assert(j >= 0);
        // n = e·(q·j) = q·(e·j)
        lemma_mul_is_associative(e as int, q, j);
        lemma_mul_is_commutative(e as int, q);
        lemma_mul_is_associative(q, e as int, j);
        assert(n == q * (e * j));
        assert(e * j >= 0) by (nonlinear_arith)
            requires
                e > 0,
                j >= 0,
        ;
        assert(n as int / q == e * j);
        lemma_period_multiple(31, e, j as nat);
    }
}

/// The powers of the generator below `P - 1` are pairwise distinct.
proof fn lemma_gen_pow_injective(i: nat, j: nat)
    requires
        i < j < group_order(),
    ensures
        fp_pow(31, i) != fp_pow(31, j),
{
    if fp_pow(31, i) == fp_pow(31, j) {
        let n = group_order();
        let d = (j - i) as nat;
        let c = (n - i) as nat;
        lemma_generator_certificate();
        lemma_generator_order(d);
        // g^j·g^(n-i) is both g^(j-i)·g^n and g^i·g^(n-i) = g^n
        lemma_fp_pow_adds(31, i, c);
        lemma_fp_pow_adds(31, j, c);
        lemma_fp_pow_adds(31, d, n);
        assert(fp_pow(31, d) * 1 == fp_pow(31, d));
        assert(j + c == d + n);
    }
}

/// No power of the generator is zero.
proof fn lemma_gen_pow_nonzero(k: nat)
    requires
        k < group_order(),
    ensures
        0 < fp_pow(31, k) < P,
{
    if fp_pow(31, k) == 0 {
        let c = (group_order() - k) as nat;
        lemma_generator_certificate();
        lemma_fp_pow_adds(31, k, c);
        assert(0 * fp_pow(31, c) == 0);
    }
}

/// Every non-zero residue is a power of the generator.
pub proof fn lemma_generator_reaches(r: int) -> (k: nat)
    requires
        0 < r < P,
    ensures
        k < group_order(),
        fp_pow(31, k) == r,
{
    let n = group_order() as int;
    let dom = set_int_range(0, n);
    let f = |i: int| fp_pow(31, i as nat);
    let img = dom.map(f);
    let all = set_int_range(1, P as int);
    lemma_int_range(0, n);
    lemma_int_range(1, P as int);
    assert(injective_on(f, dom)) by {
        assert forall|x1: int, x2: int|
            dom.contains(x1) && dom.contains(x2) && #[trigger] f(x1) == #[trigger] f(
                x2,
            ) implies x1 == x2 by {
            if x1 < x2 {
                lemma_gen_pow_injective(x1 as nat, x2 as nat);
            } else if x2 < x1 {
                lemma_gen_pow_injective(x2 as nat, x1 as nat);
            }
        }
    }
    lemma_map_size(dom, img, f);
    assert(img.subset_of(all)) by {
        assert forall|v: int| img.contains(v) implies all.contains(v) by {
            let x = choose|x: int| dom.contains(x) && v == f(x);
            lemma_gen_pow_nonzero(x as nat);
        }
    }
    lemma_subset_equality(img, all);
    assert(all.contains(r));
    assert(img.contains(r));
    let x = choose|x: int| dom.contains(x) && r == f(x);
    x as nat
}

/// Fermat's little theorem: a residue that is not zero, raised to the power
/// `P - 1`, is `1`.
pub proof fn lemma_fermat(a: int)
    requires
        a % (P as int) != 0,
    ensures
        pow(a, group_order()) % (P as int) == 1,
{
    let n = group_order();
    let r = a % (P as int);
    let k = lemma_generator_reaches(r);
    lemma_generator_certificate();
    lemma_pow_congruent(a, r, n);
    lemma_pow_congruent(r, pow(31, k), n);
    lemma_pow_multiplies(31, k, n);
    lemma_mul_is_commutative(k as int, n as int);
    lemma_period_multiple(31, n, k);
}

} // verus!
