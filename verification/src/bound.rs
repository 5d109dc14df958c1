//! A transparent wrapper that carries blanket capability methods.
//!
//! Wrapping a value in `Bound` gives callers a single place to hang
//! derived functionality: a user implements the base capabilities for a
//! type, and `value.b()` offers everything derivable from them.

use vstd::prelude::*;

use crate::ops::{Add, AddAssign, Div, DivAssign, Mul, MulAssign, Sub, SubAssign};

verus! {

/// A transparent wrapper around a single value.
#[derive(Debug, Clone, Copy)]
pub struct Bound<T>(T);

impl<T> Bound<T> {
    /// The wrapped value.
    pub closed spec fn inner(self) -> T {
        self.0
    }

    /// Unwraps the value.
    pub fn u(self) -> (r: T)
        ensures
            r == self.inner(),
    {
        self.0
    }

    /// Borrows the wrapped value.
    pub fn ur(&self) -> (r: &T)
        ensures
            *r == self.inner(),
    {
        &self.0
    }
}

/// Wraps any value in `Bound`.
pub trait B: Sized {
    fn b(self) -> (r: Bound<Self>)
        ensures
            r.inner() == self,
    {
        Bound(self)
    }
}

impl<T> B for T {

}

impl<A: Add> Add for Bound<A> {
    closed spec fn add_spec(self, rhs: Bound<A>) -> Bound<A> {
        Bound(self.0.add_spec(rhs.0))
    }

    fn add(self, rhs: Bound<A>) -> (r: Bound<A>) {
        Bound(self.0.add(rhs.0))
    }
}

impl<A: Sub> Sub for Bound<A> {
    closed spec fn sub_spec(self, rhs: Bound<A>) -> Bound<A> {
        Bound(self.0.sub_spec(rhs.0))
    }

    fn sub(self, rhs: Bound<A>) -> (r: Bound<A>) {
        Bound(self.0.sub(rhs.0))
    }
}

impl<A: Mul> Mul for Bound<A> {
    closed spec fn mul_spec(self, rhs: Bound<A>) -> Bound<A> {
        Bound(self.0.mul_spec(rhs.0))
    }

    fn mul(self, rhs: Bound<A>) -> (r: Bound<A>) {
        Bound(self.0.mul(rhs.0))
    }
}

impl<A: Div> Div for Bound<A> {
    closed spec fn div_ok(self, rhs: Bound<A>) -> bool {
        self.0.div_ok(rhs.0)
    }

    closed spec fn div_spec(self, rhs: Bound<A>) -> Bound<A> {
        Bound(self.0.div_spec(rhs.0))
    }

    fn div(self, rhs: Bound<A>) -> (r: Bound<A>) {
        Bound(self.0.div(rhs.0))
    }
}

/// The forwarded operations act on the wrapped value: each operation of
/// `Bound<A>` is the corresponding operation of `A` under `inner`.
pub proof fn lemma_bound_ops<A: Add + Sub + Mul + Div>(x: Bound<A>, y: Bound<A>)
    ensures
        x.add_spec(y).inner() == x.inner().add_spec(y.inner()),
        x.sub_spec(y).inner() == x.inner().sub_spec(y.inner()),
        x.mul_spec(y).inner() == x.inner().mul_spec(y.inner()),
        x.div_ok(y) == x.inner().div_ok(y.inner()),
        x.div_ok(y) ==> x.div_spec(y).inner() == x.inner().div_spec(y.inner()),
{
}

impl<A: Add> AddAssign for Bound<A> {
    fn add_assign(&mut self, rhs: Bound<A>) {
        let v = Add::add(Bound(self.0), rhs);
        *self = v;
    }
}

impl<A: Sub> SubAssign for Bound<A> {
    fn sub_assign(&mut self, rhs: Bound<A>) {
        let v = Sub::sub(Bound(self.0), rhs);
        *self = v;
    }
}

impl<A: Mul> MulAssign for Bound<A> {
    fn mul_assign(&mut self, rhs: Bound<A>) {
        let v = Mul::mul(Bound(self.0), rhs);
        *self = v;
    }
}

impl<A: Div> DivAssign for Bound<A> {
    fn div_assign(&mut self, rhs: Bound<A>) {
        let v = Div::div(Bound(self.0), rhs);
        *self = v;
    }
}

} // verus!
