//! The Baby Bear prime field (order `15 * 2^27 + 1`), its degree-4 extension,
//! and the roots of unity that number-theoretic transforms over it need.
//!
//! * [`modular`]: the arithmetic modulo `P` that the contracts speak of.
//! * [`elem`]: [`Elem`], an element of the base field.
//! * [`poly`]: the polynomials that model the extension field.
//! * [`ext`]: [`ExtElem`], an element of the extension field.
//! * [`sampling`]: uniform random elements.
//! * [`rou`]: the tables of roots of unity.
//! * [`laws`]: the field laws of both types.
//! * [`order`], [`fermat`], [`residues`], [`poly_ring`], [`ext_laws`]: the
//!   number theory and algebra that the laws are proved from.
//! * [`channel`]: the guest's position in the words that its host sends.

pub mod channel;
pub mod elem;
pub mod ext;
pub mod ext_laws;
pub mod fermat;
pub mod laws;
pub mod modular;
pub mod order;
pub mod poly;
pub mod poly_ring;
pub mod residues;
pub mod rou;
pub mod sampling;

pub use crate::elem::Elem;
pub use crate::ext::ExtElem;
pub use crate::modular::{P, P_U64};
