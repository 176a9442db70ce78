use baby_bear::ext::EXT_SIZE;
use baby_bear::poly::{BETA, NBETA};
use baby_bear::{Elem, ExtElem, P};
use rand::rngs::SmallRng;
use rand::SeedableRng;

fn ext(c0: u32, c1: u32, c2: u32, c3: u32) -> ExtElem {
    ExtElem::new(Elem::new(c0), Elem::new(c1), Elem::new(c2), Elem::new(c3))
}

fn coeffs(x: ExtElem) -> [u32; 4] {
    let e = x.elems();
    [u32::from(e[0]), u32::from(e[1]), u32::from(e[2]), u32::from(e[3])]
}

#[test]
fn constants_of_the_reduction_polynomial() {
    assert_eq!(BETA, 11);
    assert_eq!(NBETA, P - 11);
    assert_eq!(EXT_SIZE, 4);
}

#[test]
fn constructors_place_coefficients_in_order() {
    let x = ext(1, 2, 3, 4);
    assert_eq!(coeffs(x), [1, 2, 3, 4]);
    assert_eq!(x.elems().len(), 4);
    assert_eq!(x.const_part(), Elem::new(1));
    assert_eq!(coeffs(ExtElem::from_fp(Elem::new(9))), [9, 0, 0, 0]);
    assert_eq!(coeffs(ExtElem::from_subfield(&Elem::new(9))), [9, 0, 0, 0]);
    assert_eq!(coeffs(ExtElem::from_u32(P + 3)), [3, 0, 0, 0]);
    assert_eq!(coeffs(ExtElem::from(P + 3)), [3, 0, 0, 0]);
    assert_eq!(coeffs(ExtElem::from(Elem::new(8))), [8, 0, 0, 0]);
    let arr = [Elem::new(4), Elem::new(3), Elem::new(2), Elem::new(1)];
    assert_eq!(coeffs(ExtElem::from(arr)), [4, 3, 2, 1]);
    assert_eq!(coeffs(ExtElem::zero()), [0, 0, 0, 0]);
    assert_eq!(coeffs(ExtElem::one()), [1, 0, 0, 0]);
    assert_eq!(ExtElem::default(), ExtElem::zero());
}

#[test]
fn equality_compares_every_coefficient() {
    assert_eq!(ext(1, 2, 3, 4), ext(1, 2, 3, 4));
    assert_ne!(ext(1, 2, 3, 4), ext(0, 2, 3, 4));
    assert_ne!(ext(1, 2, 3, 4), ext(1, 0, 3, 4));
    assert_ne!(ext(1, 2, 3, 4), ext(1, 2, 0, 4));
    assert_ne!(ext(1, 2, 3, 4), ext(1, 2, 3, 0));
    assert_eq!(ext(P + 1, 2, 3, 4), ext(1, 2, 3, 4));
}

#[test]
fn addition_and_subtraction_are_coefficient_wise() {
    let a = ext(P - 1, 2, 3, 4);
    let b = ext(1, P - 2, 5, 6);
    assert_eq!(coeffs(a + b), [0, 0, 8, 10]);
    assert_eq!(coeffs(a - b), [P - 2, 4, P - 2, P - 2]);
    assert_eq!(coeffs(-a), [1, P - 2, P - 3, P - 4]);
    let mut c = a;
    c += b;
    assert_eq!(c, a + b);
    c -= b;
    assert_eq!(c, a);
}

#[test]
fn scalar_multiplication_scales_every_coefficient() {
    let a = ext(P - 1, 2, 3, 4);
    let s = Elem::new(7);
    assert_eq!(coeffs(a * s), [2013265914, 14, 21, 28]);
    assert_eq!(s * a, a * s);
    assert_eq!(a * s, a * ExtElem::from_fp(s));
    assert_eq!(a * s, ExtElem::from_fp(s) * a);
    let mut b = a;
    b *= s;
    assert_eq!(b, a * s);
}

#[test]
fn product_follows_the_bilinear_forms() {
    let a = ext(1, 2, 3, 4);
    let b = ext(5, 6, 7, 8);
    assert_eq!(coeffs(a * b), [2013265255, 2013265365, 2013265603, 60]);
    let mut c = a;
    c *= b;
    assert_eq!(c, a * b);
}

#[test]
fn fourth_power_of_x_is_minus_beta() {
    let x = ext(0, 1, 0, 0);
    assert_eq!(coeffs(x * x), [0, 0, 1, 0]);
    assert_eq!(coeffs(x * x * x), [0, 0, 0, 1]);
    assert_eq!(coeffs(x * x * x * x), [NBETA, 0, 0, 0]);
    assert_eq!(x.pow(4), ExtElem::from_u32(NBETA));
    assert_eq!(x.pow(5), ext(0, NBETA, 0, 0));
}

#[test]
fn one_is_the_identity_of_the_product() {
    let mut rng = SmallRng::seed_from_u64(5);
    for _ in 0..100 {
        let x = ExtElem::random(&mut rng, 1 << 20).unwrap();
        assert_eq!(ExtElem::new(Elem::one(), Elem::zero(), Elem::zero(), Elem::zero()) * x, x);
        assert_eq!(x * ExtElem::one(), x);
    }
}

#[test]
fn embedded_scalars_behave_like_scalars() {
    assert_eq!(ExtElem::from(5) * ExtElem::from(5), ExtElem::from(25));
    assert_eq!(ExtElem::from(P - 1) + ExtElem::from(1), ExtElem::zero());
    assert_eq!(ExtElem::from(P - 1) * ExtElem::from(P - 1), ExtElem::one());
    let mut rng = SmallRng::seed_from_u64(9);
    for _ in 0..100 {
        let a = Elem::random(&mut rng, 1 << 20).unwrap();
        let b = Elem::random(&mut rng, 1 << 20).unwrap();
        assert_eq!(ExtElem::from_fp(a) + ExtElem::from_fp(b), ExtElem::from_fp(a + b));
        assert_eq!(ExtElem::from_fp(a) * ExtElem::from_fp(b), ExtElem::from_fp(a * b));
    }
}

#[test]
fn power_by_squaring_matches_repeated_product() {
    let a = ext(1, 2, 3, 4);
    assert_eq!(a.pow(0), ExtElem::one());
    assert_eq!(a.pow(1), a);
    assert_eq!(a.pow(2), a * a);
    assert_eq!(coeffs(a.pow(5)), [1996923937, 2003983889, 2010194369, 575696]);
    assert_eq!(ExtElem::zero().pow(0), ExtElem::one());
    assert_eq!(ExtElem::zero().pow(3), ExtElem::zero());
}

#[test]
fn inversion_by_conjugates_and_norm() {
    let a = ext(1, 2, 3, 4);
    assert_eq!(coeffs(a.inv()), [913204995, 645615856, 471318424, 1520759288]);
    assert_eq!(a.inv() * a, ExtElem::one());
    assert_eq!(ExtElem::zero().inv(), ExtElem::zero());
    assert_eq!(ExtElem::one().inv(), ExtElem::one());
    assert_eq!(ExtElem::from_u32(5).inv(), ExtElem::from_fp(Elem::new(5).inv()));
    let x = ext(0, 1, 0, 0);
    assert_eq!(x.inv() * x, ExtElem::one());
}

#[test]
fn random_extension_elements() {
    let mut rng = SmallRng::seed_from_u64(1);
    assert_eq!(ExtElem::random(&mut rng, 0), None);
    let mut rng1 = SmallRng::seed_from_u64(4);
    let mut rng2 = SmallRng::seed_from_u64(4);
    for _ in 0..100 {
        let x = ExtElem::random(&mut rng1, 1 << 20).unwrap();
        for c in coeffs(x) {
            assert!(c < P);
        }
        // The coefficients are drawn lowest degree first.
        let c0 = Elem::random(&mut rng2, 1 << 20).unwrap();
        let c1 = Elem::random(&mut rng2, 1 << 20).unwrap();
        let c2 = Elem::random(&mut rng2, 1 << 20).unwrap();
        let c3 = Elem::random(&mut rng2, 1 << 20).unwrap();
        assert_eq!(x, ExtElem::new(c0, c1, c2, c3));
    }
}
