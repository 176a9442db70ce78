//! Inverses and squares in the base field: what follows from Fermat's
//! little theorem.

use crate::fermat::{group_order, lemma_fermat};
use crate::modular::{
    congruent, fp_inv, lemma_mul_congruent, lemma_pow_congruent, lemma_pow_square, P,
};
use crate::order::lemma_pow_step;
use vstd::arithmetic::mul::{lemma_mul_is_associative, lemma_mul_is_commutative};
use vstd::arithmetic::power::{lemma1_pow, lemma_pow1, lemma_pow_distributes, pow};
use vstd::prelude::*;

verus! {

/// The inverse of a non-zero residue: `a^(P-2) · a` is `1`.
pub proof fn lemma_inverse(a: int)
    requires
        a % (P as int) != 0,
    ensures
        congruent(fp_inv(a) * a, 1),
        congruent(a * fp_inv(a), 1),
{
    let e = (P - 2) as nat;
    lemma_fermat(a);
    lemma_mul_congruent(fp_inv(a), pow(a, e), a, a);
    assert(pow(a, e) * a == pow(a, group_order())) by {
        reveal(pow);
        lemma_mul_is_commutative(pow(a, e), a);
    }
    lemma_mul_is_commutative(fp_inv(a), a);
}

/// The field has no zero divisors.
pub proof fn lemma_no_zero_divisors(x: int, y: int)
    requires
        congruent(x * y, 0),
    ensures
        x % (P as int) == 0 || y % (P as int) == 0,
{
    if x % (P as int) != 0 {
        let ix = fp_inv(x);
        lemma_inverse(x);
        lemma_mul_congruent(ix * x, 1, y, y);
        lemma_mul_is_associative(ix, x, y);
        lemma_mul_congruent(ix, ix, x * y, 0);
        assert(ix * 0 == 0);
    }
}

/// The residue of `11^(2^13)`.
proof fn lemma_eleven_chain_low()
    ensures
        congruent(pow(11, 8192), 1667504165),
{
    lemma_pow1(11);
    lemma_pow_step(11, 1, 1, 11, 11, 121);
    lemma_pow_step(11, 2, 2, 121, 121, 14641);
    lemma_pow_step(11, 4, 4, 14641, 14641, 214358881);
    lemma_pow_step(11, 8, 8, 214358881, 214358881, 1420744844);
    lemma_pow_step(11, 16, 16, 1420744844, 1420744844, 1236924478);
    lemma_pow_step(11, 32, 32, 1236924478, 1236924478, 822625003);
    lemma_pow_step(11, 64, 64, 822625003, 822625003, 841294295);
    lemma_pow_step(11, 128, 128, 841294295, 841294295, 195743798);
    lemma_pow_step(11, 256, 256, 195743798, 195743798, 1005413703);
    lemma_pow_step(11, 512, 512, 1005413703, 1005413703, 295285128);
    lemma_pow_step(11, 1024, 1024, 295285128, 295285128, 1964539641);
    lemma_pow_step(11, 2048, 2048, 1964539641, 1964539641, 1835471258);
    lemma_pow_step(11, 4096, 4096, 1835471258, 1835471258, 1667504165);
}

/// The residue of `11^(2^26)`.
proof fn lemma_eleven_chain_high()
    ensures
        congruent(pow(11, 67108864), 1367684770),
{
    lemma_eleven_chain_low();
    lemma_pow_step(11, 8192, 8192, 1667504165, 1667504165, 719105337);
    lemma_pow_step(11, 16384, 16384, 719105337, 719105337, 64935019);
    lemma_pow_step(11, 32768, 32768, 64935019, 64935019, 733310855);
    lemma_pow_step(11, 65536, 65536, 733310855, 733310855, 798013169);
    lemma_pow_step(11, 131072, 131072, 798013169, 798013169, 1962998714);
    lemma_pow_step(11, 262144, 262144, 1962998714, 1962998714, 426845458);
    lemma_pow_step(11, 524288, 524288, 426845458, 426845458, 366825593);
    lemma_pow_step(11, 1048576, 1048576, 366825593, 366825593, 943324790);
    lemma_pow_step(11, 2097152, 2097152, 943324790, 943324790, 723648393);
    lemma_pow_step(11, 4194304, 4194304, 723648393, 723648393, 1726171039);
    lemma_pow_step(11, 8388608, 8388608, 1726171039, 1726171039, 63722223);
    lemma_pow_step(11, 16777216, 16777216, 63722223, 63722223, 1906783407);
    lemma_pow_step(11, 33554432, 33554432, 1906783407, 1906783407, 1367684770);
}

/// Euler's criterion for `11`: its power `(P-1)/2` is `-1`.
proof fn lemma_eleven_half_power()
    ensures
        congruent(pow(11, group_order() / 2), -1),
{
    lemma_eleven_chain_high();
    lemma_pow_step(11, 67108864, 67108864, 1367684770, 1367684770, 1956349769);
    lemma_pow_step(11, 134217728, 67108864, 1956349769, 1367684770, 1403701133);
    lemma_pow_step(11, 201326592, 134217728, 1403701133, 1956349769, 2013265920);
    lemma_pow_step(11, 335544320, 335544320, 2013265920, 2013265920, 1);
    lemma_pow_step(11, 671088640, 335544320, 1, 2013265920, 2013265920);
}

/// Euler's criterion for `-11`: its power `(P-1)/2` is `-1` too, because
/// `(P-1)/2` is even.
proof fn lemma_minus_eleven_half_power()
    ensures
        congruent(pow(-11, group_order() / 2), -1),
{
    let h = group_order() / 2;
    let q = group_order() / 4;
    lemma_eleven_half_power();
    assert((-1) * 11 == -11);
    lemma_pow_distributes(-1, 11, h);
    assert(h == 2 * q);
    lemma_pow_square(-1, q);
    assert((-1) * (-1) == 1);
    lemma1_pow(q);
    assert(1 * pow(11, h) == pow(11, h));
}

/// Neither `11` nor `-11` is a square in the field.
pub proof fn lemma_not_a_square(z: int, w: int)
    requires
        w == 11 || w == -11,
    ensures
        !congruent(z * z, w),
{
    if congruent(z * z, w) {
        let h = group_order() / 2;
        if z % (P as int) == 0 {
            lemma_mul_congruent(z, 0, z, 0);
        } else {
            lemma_fermat(z);
            assert(group_order() == 2 * h);
            lemma_pow_square(z, h);
            lemma_pow_congruent(z * z, w, h);
            if w == 11 {
                lemma_eleven_half_power();
            } else {
                lemma_minus_eleven_half_power();
            }
        }
    }
}

/// For `w` one of `11` and `-11`, `x² = w·y²` holds in the field only for
/// `x = y = 0`.
pub proof fn lemma_only_trivial_zero(x: int, y: int, w: int)
    requires
        w == 11 || w == -11,
        congruent(x * x, w * (y * y)),
    ensures
        x % (P as int) == 0,
        y % (P as int) == 0,
{
    if y % (P as int) != 0 {
        let iy = fp_inv(y);
        let z = x * iy;
        lemma_inverse(y);
        // z² = x²·iy² = w·(y·iy)² = w
        assert(z * z == (x * x) * (iy * iy)) by {
            lemma_mul_is_associative(x * iy, x, iy);
            lemma_mul_is_associative(x, iy, x);
            lemma_mul_is_commutative(iy, x);
            lemma_mul_is_associative(x, x, iy);
            lemma_mul_is_associative(x * x, iy, iy);
        }
        assert((y * y) * (iy * iy) == (y * iy) * (y * iy)) by {
            lemma_mul_is_associative(y * iy, y, iy);
            lemma_mul_is_associative(y, iy, y);
            lemma_mul_is_commutative(iy, y);
            lemma_mul_is_associative(y, y, iy);
            lemma_mul_is_associative(y * y, iy, iy);
        }
        lemma_mul_congruent(x * x, w * (y * y), iy * iy, iy * iy);
        lemma_mul_is_associative(w, y * y, iy * iy);
        lemma_mul_congruent(y * iy, 1, y * iy, 1);
        lemma_mul_congruent(w, w, (y * iy) * (y * iy), 1);
        lemma_not_a_square(z, w);
    } else {
        lemma_mul_congruent(y, 0, y, 0);
        lemma_mul_congruent(w, w, y * y, 0);
        assert(w * 0 == 0);
        lemma_no_zero_divisors(x, x);
    }
}

} // verus!
