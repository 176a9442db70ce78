use baby_bear::elem;
use baby_bear::modular::REJECT_CUTOFF;
use baby_bear::{Elem, P, P_U64};
use rand::rngs::SmallRng;
use rand::SeedableRng;

fn draw(rng: &mut SmallRng) -> Elem {
    Elem::random(rng, 1 << 20).unwrap()
}

#[test]
fn modulus_is_fifteen_times_two_to_27_plus_one() {
    assert_eq!(P, 2013265921);
    assert_eq!(P, 15 * (1 << 27) + 1);
    assert_eq!(P_U64, P as u64);
}

#[test]
fn new_reduces_to_canonical_range() {
    assert_eq!(u32::from(Elem::new(0)), 0);
    assert_eq!(u32::from(Elem::new(P - 1)), P - 1);
    assert_eq!(u32::from(Elem::new(P)), 0);
    assert_eq!(u32::from(Elem::new(P + 1)), 1);
    assert_eq!(u32::from(Elem::new(1 << 31)), 134217727);
    assert_eq!(u32::from(Elem::new(u32::MAX)), 268435453);
}

#[test]
fn conversions_reduce_modulo_p() {
    assert_eq!(Elem::from(P + 7), Elem::new(7));
    assert_eq!(Elem::from(u32::MAX), Elem::new(268435453));
    assert_eq!(Elem::from(P_U64 * 3 + 2), Elem::new(2));
    assert_eq!(Elem::from(u64::MAX), Elem::new(1172168162));
    assert_eq!(u64::from(Elem::new(P + 9)), 9);
    assert_eq!(u32::from(&Elem::new(12)), 12);
    let x: u32 = Elem::new(P - 1).into();
    assert_eq!(x, 2013265920);
}

#[test]
fn default_is_zero() {
    assert_eq!(Elem::default(), Elem::zero());
    assert_eq!(u32::from(Elem::default()), 0);
    assert_eq!(u32::from(Elem::one()), 1);
}

#[test]
fn addition_wraps_at_p() {
    assert_eq!(Elem::new(P - 1) + Elem::new(1), Elem::zero());
    assert_eq!(Elem::new(P - 1) + Elem::new(P - 1), Elem::new(P - 2));
    assert_eq!(Elem::new(3) + Elem::new(4), Elem::new(7));
    let mut x = Elem::new(P - 2);
    x += Elem::new(5);
    assert_eq!(x, Elem::new(3));
}

#[test]
fn subtraction_wraps_below_zero() {
    assert_eq!(Elem::new(3) - Elem::new(5), Elem::new(2013265919));
    assert_eq!(Elem::zero() - Elem::new(1), Elem::new(P - 1));
    assert_eq!(Elem::new(5) - Elem::new(5), Elem::zero());
    assert_eq!(Elem::zero() - Elem::new(P - 1), Elem::one());
    let mut x = Elem::new(1);
    x -= Elem::new(2);
    assert_eq!(x, Elem::new(P - 1));
}

#[test]
fn multiplication_uses_the_wide_product() {
    assert_eq!(Elem::new(P - 1) * Elem::new(P - 1), Elem::one());
    assert_eq!(Elem::new(1 << 16) * Elem::new(1 << 16), Elem::new(268435454));
    assert_eq!(Elem::new(0) * Elem::new(P - 1), Elem::zero());
    let mut x = Elem::new(6);
    x *= Elem::new(7);
    assert_eq!(x, Elem::new(42));
}

#[test]
fn negation_is_subtraction_from_zero() {
    assert_eq!(-Elem::new(1), Elem::new(2013265920));
    assert_eq!(-Elem::zero(), Elem::zero());
    assert_eq!(-Elem::new(P - 1), Elem::one());
}

#[test]
fn raw_operations_on_representatives() {
    assert_eq!(elem::add(2013265920, 2013265920), 2013265919);
    assert_eq!(elem::add(0, 0), 0);
    assert_eq!(elem::sub(0, 2013265920), 1);
    assert_eq!(elem::sub(0, 1), 2013265920);
    assert_eq!(elem::sub(7, 7), 0);
    assert_eq!(elem::mul(2013265920, 2), 2013265919);
    assert_eq!(elem::mul(65536, 65536), 268435454);
}

#[test]
fn power_zero_is_one_even_of_zero() {
    assert_eq!(Elem::zero().pow(0), Elem::one());
    assert_eq!(Elem::zero().pow(5), Elem::zero());
    assert_eq!(Elem::new(2).pow(31), Elem::new(134217727));
    assert_eq!(Elem::new(P - 1).pow(3), Elem::new(P - 1));
}

#[test]
fn inverse_of_zero_is_zero() {
    assert_eq!(Elem::zero().inv(), Elem::zero());
    assert_eq!(Elem::one().inv(), Elem::one());
    assert_eq!(Elem::new(5).inv(), Elem::new(1610612737));
    assert_eq!(Elem::new(3).inv(), Elem::new(1342177281));
}

#[test]
fn fermat_on_sample_values() {
    for raw in [1u32, 2, 5, 31, 137, 1 << 20, P - 2, P - 1] {
        let a = Elem::new(raw);
        assert_eq!(a.pow((P - 1) as usize), Elem::one());
        assert_eq!(a.pow((P - 2) as usize) * a, Elem::one());
        assert_eq!(a.inv() * a, Elem::one());
    }
}

#[test]
fn base_field_axioms_on_random_triples() {
    let mut rng = SmallRng::seed_from_u64(7);
    for _ in 0..1000 {
        let a = draw(&mut rng);
        let b = draw(&mut rng);
        let c = draw(&mut rng);
        assert_eq!(a + b, b + a);
        assert_eq!(a * b, b * a);
        assert_eq!(a + (b + c), (a + b) + c);
        assert_eq!(a * (b * c), (a * b) * c);
        assert_eq!(a * (b + c), a * b + a * c);
        assert_eq!(a + (-a), Elem::zero());
        assert_eq!(Elem::zero() - a, -a);
        assert_eq!(a + Elem::zero(), a);
        assert_eq!(a * Elem::one(), a);
        if a != Elem::zero() {
            assert_eq!(a.inv() * a, Elem::one());
        }
    }
}

#[test]
fn reject_cutoff_is_the_largest_multiple_of_p() {
    assert_eq!(REJECT_CUTOFF, (u32::MAX / P) * P);
    assert_eq!(REJECT_CUTOFF, 4026531842);
}

#[test]
fn from_sample_accepts_below_the_cutoff_only() {
    assert_eq!(Elem::from_sample(0), Some(Elem::zero()));
    assert_eq!(Elem::from_sample(P - 1), Some(Elem::new(P - 1)));
    assert_eq!(Elem::from_sample(P), Some(Elem::zero()));
    assert_eq!(Elem::from_sample(P + 5), Some(Elem::new(5)));
    assert_eq!(Elem::from_sample(REJECT_CUTOFF - 1), Some(Elem::new(P - 1)));
    assert_eq!(Elem::from_sample(REJECT_CUTOFF), None);
    assert_eq!(Elem::from_sample(REJECT_CUTOFF + 1), None);
    assert_eq!(Elem::from_sample(u32::MAX), None);
}

#[test]
fn random_without_attempts_gives_nothing() {
    let mut rng = SmallRng::seed_from_u64(1);
    assert_eq!(Elem::random(&mut rng, 0), None);
}

#[test]
fn random_stays_below_p_and_varies() {
    let mut rng = SmallRng::seed_from_u64(3);
    let mut buckets = [0u32; 16];
    let mut first: Option<Elem> = None;
    let mut varied = false;
    for _ in 0..16_000 {
        let x = draw(&mut rng);
        let raw = u32::from(x);
        assert!(raw < P);
        buckets[(raw as u64 * 16 / P_U64) as usize] += 1;
        match first {
            None => first = Some(x),
            Some(f) => varied = varied || f != x,
        }
    }
    assert!(varied);
    // Sixteen equal slices of the range: about a thousand draws in each.
    for count in buckets {
        assert!(count > 800 && count < 1200);
    }
}

#[test]
fn random_is_reproducible_from_the_seed() {
    let mut rng1 = SmallRng::seed_from_u64(11);
    let mut rng2 = SmallRng::seed_from_u64(11);
    for _ in 0..100 {
        assert_eq!(Elem::random(&mut rng1, 64), Elem::random(&mut rng2, 64));
    }
}
