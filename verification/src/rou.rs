//! Roots of unity of the base field.

use crate::elem::Elem;
use crate::modular::{fp_mul, fp_pow, lemma_pow_congruent, lemma_pow_square, P};
use crate::order::{lemma_common_period, lemma_period_multiple, lemma_strip_twos};
use vstd::arithmetic::div_mod::lemma_fundamental_div_mod;
use vstd::arithmetic::mul::{lemma_mul_is_associative, lemma_mul_is_commutative};
use vstd::arithmetic::power::lemma_pow1;
use vstd::arithmetic::power2::{lemma2_to64, lemma_pow2_unfold, pow2};
use vstd::prelude::*;

verus! {

/// The largest `i` for which the field has a primitive `2^i`-th root of unity.
pub const MAX_ROU_PO2: usize = 27;

/// `ROU_FWD[i]` is the canonical representative of a primitive `2^i`-th root
/// of unity.
pub const ROU_FWD: [u32; 28] = [
    1, 2013265920, 284861408, 1801542727, 567209306, 740045640, 918899846, 1881002012,
    1453957774, 65325759, 1538055801, 515192888, 483885487, 157393079, 1695124103, 2005211659,
    1540072241, 88064245, 1542985445, 1269900459, 1461624142, 825701067, 682402162, 1311873874,
    1164520853, 352275361, 18769, 137,
];

/// `ROU_REV[i]` is the canonical representative of the inverse of `ROU_FWD[i]`.
pub const ROU_REV: [u32; 28] = [
    1, 2013265920, 1728404513, 1592366214, 196396260, 1253260071, 72041623, 1091445674,
    145223211, 1446820157, 1030796471, 2010749425, 1827366325, 1239938613, 246299276, 596347512,
    1893145354, 246074437, 1525739923, 1194341128, 1463599021, 704606912, 95395244, 15672543,
    647517488, 584175179, 137728885, 749463956,
];

/// The forward root for transforms of size `2^po2`.
pub fn rou_fwd(po2: usize) -> (r: Elem)
    requires
        po2 <= MAX_ROU_PO2,
    ensures
        r@ == ROU_FWD@[po2 as int],
{
    Elem::new(ROU_FWD[po2])
}

/// The inverse root for transforms of size `2^po2`.
pub fn rou_rev(po2: usize) -> (r: Elem)
    requires
        po2 <= MAX_ROU_PO2,
    ensures
        r@ == ROU_REV@[po2 as int],
{
    Elem::new(ROU_REV[po2])
}

/// Each forward root is the square of the next one.
proof fn lemma_rou_squares(i: int)
    requires
        1 <= i <= MAX_ROU_PO2,
    ensures
        fp_mul(ROU_FWD@[i] as int, ROU_FWD@[i] as int) == ROU_FWD@[i - 1],
{
    assert(fp_mul(2013265920, 2013265920) == 1);
    assert(fp_mul(284861408, 284861408) == 2013265920);
    assert(fp_mul(1801542727, 1801542727) == 284861408);
    assert(fp_mul(567209306, 567209306) == 1801542727);
    assert(fp_mul(740045640, 740045640) == 567209306);
    assert(fp_mul(918899846, 918899846) == 740045640);
    assert(fp_mul(1881002012, 1881002012) == 918899846);
    assert(fp_mul(1453957774, 1453957774) == 1881002012);
    assert(fp_mul(65325759, 65325759) == 1453957774);
    assert(fp_mul(1538055801, 1538055801) == 65325759);
    assert(fp_mul(515192888, 515192888) == 1538055801);
    assert(fp_mul(483885487, 483885487) == 515192888);
    assert(fp_mul(157393079, 157393079) == 483885487);
    assert(fp_mul(1695124103, 1695124103) == 157393079);
    assert(fp_mul(2005211659, 2005211659) == 1695124103);
    assert(fp_mul(1540072241, 1540072241) == 2005211659);
    assert(fp_mul(88064245, 88064245) == 1540072241);
    assert(fp_mul(1542985445, 1542985445) == 88064245);
    assert(fp_mul(1269900459, 1269900459) == 1542985445);
    assert(fp_mul(1461624142, 1461624142) == 1269900459);
    assert(fp_mul(825701067, 825701067) == 1461624142);
    assert(fp_mul(682402162, 682402162) == 825701067);
    assert(fp_mul(1311873874, 1311873874) == 682402162);
    assert(fp_mul(1164520853, 1164520853) == 1311873874);
    assert(fp_mul(352275361, 352275361) == 1164520853);
    assert(fp_mul(18769, 18769) == 352275361);
    assert(fp_mul(137, 137) == 18769);
}

/// Squaring a forward root `k` times walks `k` places down the table.
proof fn lemma_rou_repeated_square(i: nat, k: nat)
    requires
        k <= i <= MAX_ROU_PO2,
    ensures
        fp_pow(ROU_FWD@[i as int] as int, pow2(k)) == ROU_FWD@[i - k],
    decreases k,
{
    let x = ROU_FWD@[i as int] as int;
    if k == 0 {
        lemma2_to64();
        lemma_pow1(x);
    } else {
        let h = pow2((k - 1) as nat);
        lemma_pow2_unfold(k);
        lemma_pow_square(x, h);
        lemma_rou_squares(i as int);
        lemma_pow_congruent(x * x, ROU_FWD@[i - 1] as int, h);
        lemma_rou_repeated_square((i - 1) as nat, (k - 1) as nat);
    }
}

/// `ROU_FWD[i]` is a primitive `2^i`-th root of unity: its power `2^i` is
/// one, and its power `2^(i-1)` is not.
pub proof fn lemma_rou_primitive(i: nat)
    requires
        i <= MAX_ROU_PO2,
    ensures
        fp_pow(ROU_FWD@[i as int] as int, pow2(i)) == 1,
        i >= 1 ==> fp_pow(ROU_FWD@[i as int] as int, pow2((i - 1) as nat)) != 1,
{
    lemma_rou_repeated_square(i, i);
    if i >= 1 {
        lemma_rou_repeated_square(i, (i - 1) as nat);
    }
}

/// The order of `ROU_FWD[i]` is exactly `2^i`: no smaller positive power
/// of it is one.
pub proof fn lemma_rou_order(i: nat, k: nat)
    requires
        i <= MAX_ROU_PO2,
        0 < k < pow2(i),
    ensures
        fp_pow(ROU_FWD@[i as int] as int, k) != 1,
{
    let x = ROU_FWD@[i as int] as int;
    if fp_pow(x, k) == 1 {
        let n = pow2(i);
        lemma_rou_primitive(i);
        lemma2_to64();
        assert(i >= 1);
        // a common divisor `e` of `2^i` and `k` gives one as well
        let e = lemma_common_period(x, n, k);
        lemma_fundamental_div_mod(k as int, e as int);
        lemma_fundamental_div_mod(n as int, e as int);
        let m = n as int / e as int;
        let kq = k as int / e as int;
        assert(e <= k) by (nonlinear_arith)
            requires
                k == e * kq,
                k > 0,
                e > 0,
        ;
        assert(m >= 2) by (nonlinear_arith)
            requires
                n == e * m,
                e < n,
                e > 0,
        ;
        lemma_mul_is_commutative(e as int, m);
        if m % 2 != 0 {
            let c = lemma_strip_twos(m, e as int, 1, i);
            assert(false) by (nonlinear_arith)
                requires
                    m >= 2,
                    m * c == 1,
            ;
        }
        // `e` divides `2^(i-1)`
        let j = m / 2;
        lemma_pow2_unfold(i);
        lemma_mul_is_associative(e as int, 2, j);
        lemma_mul_is_commutative(e as int, 2);
        lemma_mul_is_associative(2, e as int, j);
        assert(e * j == pow2((i - 1) as nat));
        lemma_period_multiple(x, e, j as nat);
    }
}

/// Transforms of size `2^27` are the largest that the field supports:
/// `P - 1` is `15 · 2^27`, and `15` is odd.
pub proof fn lemma_max_rou_po2()
    ensures
        P - 1 == 15 * pow2(MAX_ROU_PO2 as nat),
{
    lemma2_to64();
}

/// `ROU_REV[i]` is the inverse of `ROU_FWD[i]`.
pub proof fn lemma_rou_inverse(i: nat)
    requires
        i <= MAX_ROU_PO2,
    ensures
        fp_mul(ROU_FWD@[i as int] as int, ROU_REV@[i as int] as int) == 1,
{
    assert(fp_mul(1, 1) == 1);
    assert(fp_mul(2013265920, 2013265920) == 1);
    assert(fp_mul(284861408, 1728404513) == 1);
    assert(fp_mul(1801542727, 1592366214) == 1);
    assert(fp_mul(567209306, 196396260) == 1);
    assert(fp_mul(740045640, 1253260071) == 1);
    assert(fp_mul(918899846, 72041623) == 1);
    assert(fp_mul(1881002012, 1091445674) == 1);
    assert(fp_mul(1453957774, 145223211) == 1);
    assert(fp_mul(65325759, 1446820157) == 1);
    assert(fp_mul(1538055801, 1030796471) == 1);
    assert(fp_mul(515192888, 2010749425) == 1);
    assert(fp_mul(483885487, 1827366325) == 1);
    assert(fp_mul(157393079, 1239938613) == 1);
    assert(fp_mul(1695124103, 246299276) == 1);
    assert(fp_mul(2005211659, 596347512) == 1);
    assert(fp_mul(1540072241, 1893145354) == 1);
    assert(fp_mul(88064245, 246074437) == 1);
    assert(fp_mul(1542985445, 1525739923) == 1);
    assert(fp_mul(1269900459, 1194341128) == 1);
    assert(fp_mul(1461624142, 1463599021) == 1);
    assert(fp_mul(825701067, 704606912) == 1);
    assert(fp_mul(682402162, 95395244) == 1);
    assert(fp_mul(1311873874, 15672543) == 1);
    assert(fp_mul(1164520853, 647517488) == 1);
    assert(fp_mul(352275361, 584175179) == 1);
    assert(fp_mul(18769, 137728885) == 1);
    assert(fp_mul(137, 749463956) == 1);
}

/// The table holds canonical representatives only.
pub proof fn lemma_rou_canonical(i: nat)
    requires
        i <= MAX_ROU_PO2,
    ensures
        ROU_FWD@[i as int] < P,
        ROU_REV@[i as int] < P,
{
}

} // verus!
