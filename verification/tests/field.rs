use baby_bear::rou::{rou_fwd, MAX_ROU_PO2, ROU_FWD, ROU_REV};
use baby_bear::{Elem, ExtElem, P, P_U64};
use rand::rngs::SmallRng;
use rand::SeedableRng;

fn random_elem(rng: &mut SmallRng) -> Elem {
    Elem::random(rng, 1 << 20).unwrap()
}

fn random_ext(rng: &mut SmallRng) -> ExtElem {
    ExtElem::random(rng, 1 << 20).unwrap()
}

#[test]
fn roots_of_unity() {
    let mut cur: Option<Elem> = None;
    for &raw in ROU_FWD.iter().rev() {
        let rou = Elem::new(raw);
        if let Some(ref mut curval) = &mut cur {
            *curval *= *curval;
            assert_eq!(*curval, rou);
        } else {
            cur = Some(rou);
        }
    }
    assert_eq!(cur, Some(Elem::one()));

    for (&fwd, &rev) in ROU_FWD.iter().zip(ROU_REV.iter()) {
        assert_eq!(Elem::new(fwd) * Elem::new(rev), Elem::one());
    }
    assert_eq!(ROU_FWD.len(), MAX_ROU_PO2 + 1);
    assert_eq!(ROU_REV.len(), MAX_ROU_PO2 + 1);
    assert_eq!(rou_fwd(27), Elem::new(137));
}

#[test]
fn field_ops() {
    let p_u64 = P_U64;
    // 128-bit arithmetic, so that nothing overflows.
    let p: u128 = p_u64 as u128;

    assert_eq!(Elem::from(0u64), Elem::zero());
    assert_eq!(Elem::from(p_u64), Elem::zero());
    assert_eq!(Elem::from(1u64), Elem::one());
    assert_eq!(Elem::from(p_u64 - 1) + Elem::from(1u64), Elem::zero());

    assert_eq!(Elem::zero().inv(), Elem::zero());
    assert_eq!(Elem::one().inv(), Elem::one());

    let mut rng = SmallRng::seed_from_u64(2);

    for _ in 0..1000 {
        let x = random_elem(&mut rng);
        let y = random_elem(&mut rng);
        let xi: u128 = u64::from(x) as u128;
        let yi: u128 = u64::from(y) as u128;

        assert_eq!(u64::from(x + y) as u128, (xi + yi) % p);
        assert_eq!(u64::from(x * y) as u128, (xi * yi) % p);
        assert_eq!(u64::from(x - y) as u128, (xi + p - yi) % p);

        let z = x.inv();
        if x != Elem::zero() {
            assert_eq!(u64::from(x * z), 1);
        }
    }

    for _ in 0..1000 {
        let x = random_elem(&mut rng);
        let xi: u128 = u64::from(x) as u128;

        let mut val: u128 = 1;
        for exp in 0..10usize {
            assert_eq!(u64::from(x.pow(exp)) as u128, val);
            val = (val * xi) % p;
        }
    }
}

#[test]
fn isa_field() {
    let mut rng = SmallRng::seed_from_u64(2);
    // Pick random sets of 3 elements of ExtElem, and verify they meet the
    // requirements of a field.
    for _ in 0..1_000 {
        let a = random_ext(&mut rng);
        let b = random_ext(&mut rng);
        let c = random_ext(&mut rng);
        // Addition + multiplication commute
        assert_eq!(a + b, b + a);
        assert_eq!(a * b, b * a);
        // Addition + multiplication are associative
        assert_eq!(a + (b + c), (a + b) + c);
        assert_eq!(a * (b * c), (a * b) * c);
        // Distributive property
        assert_eq!(a * (b + c), a * b + a * c);
        // Inverses
        if a != ExtElem::zero() {
            assert_eq!(a.inv() * a, ExtElem::from(1));
        }
        assert_eq!(ExtElem::zero() - a, -a);
        assert_eq!(a + (-a), ExtElem::zero());
    }
}

#[test]
fn inv() {
    // Smoke test for inv
    assert_eq!(Elem::new(5).inv() * Elem::new(5), Elem::new(1));
}

#[test]
fn pow() {
    // Smoke tests for pow
    assert_eq!(Elem::new(5).pow(0), Elem::new(1));
    assert_eq!(Elem::new(5).pow(1), Elem::new(5));
    assert_eq!(Elem::new(5).pow(2), Elem::new(25));
    // Mathematica says PowerMod[5, 1000, 15*2^27 + 1] == 589699054
    assert_eq!(Elem::new(5).pow(1000), Elem::new(589699054));
    assert_eq!(Elem::new(5).pow((P - 2) as usize) * Elem::new(5), Elem::new(1));
    assert_eq!(Elem::new(5).pow((P - 1) as usize), Elem::new(1));
}

#[test]
fn compare_native() {
    // Compare core operations against simple % P implementations
    let mut rng = SmallRng::seed_from_u64(2);
    for _ in 0..100_000 {
        let fa = random_elem(&mut rng);
        let fb = random_elem(&mut rng);
        let a: u64 = fa.into();
        let b: u64 = fb.into();
        assert_eq!(fa + fb, Elem::from(a + b));
        assert_eq!(fa - fb, Elem::from(a + (P_U64 - b)));
        assert_eq!(fa * fb, Elem::from(a * b));
    }
}
