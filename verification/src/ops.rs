//! Capability traits for the basic arithmetic operations.
//!
//! These stand in for the built-in operator traits so that blanket
//! capability bounds can be stated over them, and so that every operation
//! carries a specification: each executable method is pinned to a
//! specification function of the same operation, which the algebraic
//! axiom traits in `group_like` and `ring_like` then constrain.

use vstd::prelude::*;

verus! {

/// An addition operation together with its specification.
pub trait Add: Sized + Copy {
    /// What `add` returns.
    spec fn add_spec(self, rhs: Self) -> Self;

    fn add(self, rhs: Self) -> (r: Self)
        ensures
            r == self.add_spec(rhs),
    ;
}

/// A subtraction operation together with its specification.
pub trait Sub: Sized + Copy {
    /// What `sub` returns.
    spec fn sub_spec(self, rhs: Self) -> Self;

    fn sub(self, rhs: Self) -> (r: Self)
        ensures
            r == self.sub_spec(rhs),
    ;
}

/// An additive-inverse operation together with its specification.
pub trait Neg: Sized + Copy {
    /// What `neg` returns.
    spec fn neg_spec(self) -> Self;

    fn neg(self) -> (r: Self)
        ensures
            r == self.neg_spec(),
    ;
}

/// A multiplicative-inverse operation together with its specification.
pub trait Inv: Sized + Copy {
    /// What `inv` returns.
    spec fn inv_spec(self) -> Self;

    fn inv(self) -> (r: Self)
        ensures
            r == self.inv_spec(),
    ;
}

/// A multiplication operation together with its specification.
pub trait Mul: Sized + Copy {
    /// What `mul` returns.
    spec fn mul_spec(self, rhs: Self) -> Self;

    fn mul(self, rhs: Self) -> (r: Self)
        ensures
            r == self.mul_spec(rhs),
    ;
}

/// A division operation together with its specification.
///
/// Division is partial: `div_ok` says on which pairs the operation is
/// defined (a field excludes only the zero divisor, machine integers also
/// exclude quotients their range cannot hold).
pub trait Div: Sized + Copy {
    /// On which operands `div` may be called.
    spec fn div_ok(self, rhs: Self) -> bool;

    /// What `div` returns.
    spec fn div_spec(self, rhs: Self) -> Self;

    fn div(self, rhs: Self) -> (r: Self)
        requires
            self.div_ok(rhs),
        ensures
            r == self.div_spec(rhs),
    ;
}

/// In-place addition, tied to the same specification as `Add`.
pub trait AddAssign: Add {
    fn add_assign(&mut self, rhs: Self)
        ensures
            *final(self) == old(self).add_spec(rhs),
    ;
}

/// In-place subtraction, tied to the same specification as `Sub`.
pub trait SubAssign: Sub {
    fn sub_assign(&mut self, rhs: Self)
        ensures
            *final(self) == old(self).sub_spec(rhs),
    ;
}

/// In-place multiplication, tied to the same specification as `Mul`.
pub trait MulAssign: Mul {
    fn mul_assign(&mut self, rhs: Self)
        ensures
            *final(self) == old(self).mul_spec(rhs),
    ;
}

/// In-place division, tied to the same specification as `Div`.
pub trait DivAssign: Div {
    fn div_assign(&mut self, rhs: Self)
        requires
            old(self).div_ok(rhs),
        ensures
            *final(self) == old(self).div_spec(rhs),
    ;
}

} // verus!
