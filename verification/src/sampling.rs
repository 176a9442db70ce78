//! Uniform random field elements, drawn by rejection sampling.

use crate::elem::Elem;
use crate::ext::ExtElem;
use rand::rngs::SmallRng;
use rand::Rng;
use vstd::prelude::*;

verus! {

/// `rand::rngs::SmallRng`, a small and fast generator of pseudo-random
/// numbers.  Its state is opaque to the library: a generator is only handed
/// on to [`draw_u32`].
#[verifier::external_type_specification]
#[verifier::external_body]
pub struct ExSmallRng(rand::rngs::SmallRng);

/// Draws 32 bits from the generator with `rand::Rng::gen::<u32>`.
///
/// Nothing is claimed of the value drawn: it depends on the state of the
/// generator, which the library does not model.
#[verifier::external_body]
fn draw_u32(rng: &mut SmallRng) -> (val: u32) {
    rng.gen()
}

impl Elem {
    /// Draws raw 32-bit values until one is accepted by
    /// [`Elem::from_sample`], at most `attempts` times, and returns the
    /// element it stands for.
    ///
    /// A draw is rejected with probability 1/16, so `None` means in practice
    /// that `attempts` was too small.  Whatever the generator hands out, an
    /// element that is returned is canonical.
    pub fn random(rng: &mut SmallRng, attempts: usize) -> (r: Option<Elem>)
        ensures
            attempts == 0 ==> r is None,
            r matches Some(e) ==> e.canonical(),
    {
        let mut left: usize = attempts;
        while left > 0
            invariant
                left <= attempts,
            decreases left,
        {
            let val: u32 = draw_u32(rng);
            match Elem::from_sample(val) {
                Some(e) => {
                    proof {
                        use_type_invariant(&e);
                    }
                    return Some(e);
                },
                None => {},
            }
            left = left - 1;
        }
        None
    }
}

impl ExtElem {
    /// Draws the four coefficients one after the other, lowest degree first,
    /// each with at most `attempts` raw draws.
    pub fn random(rng: &mut SmallRng, attempts: usize) -> (r: Option<ExtElem>)
        ensures
            attempts == 0 ==> r is None,
            r matches Some(e) ==> e.canonical(),
    {
        let x0 = match Elem::random(rng, attempts) {
            Some(e) => e,
            None => {
                return None;
            },
        };
        let x1 = match Elem::random(rng, attempts) {
            Some(e) => e,
            None => {
                return None;
            },
        };
        let x2 = match Elem::random(rng, attempts) {
            Some(e) => e,
            None => {
                return None;
            },
        };
        let x3 = match Elem::random(rng, attempts) {
            Some(e) => e,
            None => {
                return None;
            },
        };
        let r = ExtElem::new(x0, x1, x2, x3);
        proof {
            use_type_invariant(&r);
        }
        Some(r)
    }
}

} // verus!
