//! Capability traits for bilinear and sesquilinear forms over a module.
//!
//! These are scaffolding for callers that pair the algebraic capabilities
//! with an inner-product-like structure; the crate supplies no
//! implementations of its own.

use vstd::prelude::*;

use crate::group_like::{AddAbelianGroup, Zero};
use crate::ring_like::UnitalRing;

verus! {

/// A form on a module `M` over the ring `R`, linear in the first argument
/// and twisted by the automorphism `sigma` in the second.
pub trait SesquilinearForm<R: UnitalRing, M: AddAbelianGroup>: Sized {
    /// The product of two module elements under the form.
    fn product_of(&self, v1: M, v2: M) -> R;

    /// The twisting automorphism; the identity for bilinear forms.
    fn sigma(&self, x: R) -> R {
        x
    }

    /// The inverse of the twisting automorphism.
    fn sigma_inv(&self, x: R) -> R {
        x
    }

    /// The square of an element under the form.
    fn square(&self, x: M) -> R {
        self.product_of(x, x)
    }

    /// Whether an element squares to zero under the form.
    fn is_null(&self, x: M) -> bool {
        self.square(x).is_zero()
    }

    /// Whether two elements are orthogonal under the form.
    fn orthogonal(&self, x: M, y: M) -> bool {
        self.product_of(x, y).is_zero()
    }
}

/// A `SesquilinearForm` where `x . y == 0` implies `y . x == 0`.
pub trait ReflexiveForm<R: UnitalRing, M: AddAbelianGroup>: SesquilinearForm<R, M> {

}

/// A reflexive form symmetric up to the twisting automorphism.
pub trait SymSesquilinearForm<R: UnitalRing, M: AddAbelianGroup>: ReflexiveForm<R, M> {

}

/// A reflexive form antisymmetric up to the twisting automorphism.
pub trait SkewSesquilinearForm<R: UnitalRing, M: AddAbelianGroup>: ReflexiveForm<R, M> {

}

/// A form whose twisting automorphism is the identity.
pub trait BilinearForm<R: UnitalRing, M: AddAbelianGroup>: SesquilinearForm<R, M> {

}

/// A form whose twisting automorphism is a conjugation of order two.
pub trait ComplexSesquilinearForm<R: UnitalRing, M: AddAbelianGroup>: SesquilinearForm<R, M> {

}

} // verus!
