//! Generic numeric algorithms over an abstract algebraic classification.
//!
//! The library provides three engine families, each generic over small
//! capability traits that a caller's numeric type implements:
//!
//! * generalized exponentiation / multiplication-by-scalar by repeated
//!   squaring and repeated doubling (`group_like`),
//! * the Euclidean algorithm for greatest common divisors and Bezout
//!   coefficients (`ring_like`),
//! * a deterministic Miller-Rabin primality test over arbitrary naturals
//!   (`primality`).
//!
//! Every engine carries a contract that pins its result down to a
//! mathematical specification function, and the algebraic laws the engines
//! rely on are stated as proof obligations on the capability traits.

use vstd::prelude::*;

pub mod ops;
pub mod natural;
pub mod machine_naturals;
pub mod group_like;
pub mod ring_like;
pub mod machine_rings;
pub mod machine_integers;
pub mod gcd_nat;
pub mod factor;
pub mod sign;
pub mod bound;
pub mod vector;
pub mod module_like;
pub mod primality;

verus! {

/// Conversion into another classification of the same value.
pub trait IntoClass<Destination> {
    fn into(self) -> Destination;
}

/// Conversion from another classification of the same value.
pub trait FromClass<Origin>: Sized {
    fn from(origin: Origin) -> Self;
}

} // verus!
