//! The `Natural` and `IntegerSubset` capabilities.
//!
//! A `Natural` is an unsigned, well-ordered numeric capability: zero, one
//! and two, comparison, parity, halving, and modular multiplication. It is
//! the exponent type of the exponentiation engine and the operand type of
//! the primality engine. An `IntegerSubset` is a signed capability adding a
//! sign query and an absolute value on top of a `Natural` magnitude type.

use vstd::prelude::*;

verus! {

/// An unsigned, well-ordered numeric capability.
///
/// `nat_of` is the mathematical natural a term stands for; every contract
/// of the trait speaks of values through it. `fits_spec` says which
/// naturals the type can represent at all, so that conversions can state
/// exactly when they succeed.
pub trait Natural: Sized + Copy {
    /// The mathematical value of this term.
    spec fn nat_of(&self) -> nat;

    /// Whether the type can represent the natural `w`.
    spec fn fits_spec(w: nat) -> bool;

    /// Every value of the type is representable.
    proof fn lemma_fits(&self)
        ensures
            Self::fits_spec(self.nat_of()),
    ;

    /// Representability is downward closed.
    proof fn lemma_fits_down(v: nat, w: nat)
        requires
            v <= w,
            Self::fits_spec(w),
        ensures
            Self::fits_spec(v),
    ;

    /// The type holds at least the naturals up to 255.
    proof fn lemma_fits_255()
        ensures
            Self::fits_spec(255),
    ;

    fn zero() -> (r: Self)
        ensures
            r.nat_of() == 0,
    ;

    fn one() -> (r: Self)
        ensures
            r.nat_of() == 1,
    ;

    fn two() -> (r: Self)
        ensures
            r.nat_of() == 2,
    ;

    /// Conversion from a 32-bit literal; `None` exactly when it does not fit.
    fn from_u32(w: u32) -> (r: Option<Self>)
        ensures
            match r {
                Some(v) => v.nat_of() == w as nat,
                None => !Self::fits_spec(w as nat),
            },
    ;

    /// Conversion from a 64-bit literal; `None` exactly when it does not fit.
    fn from_u64(w: u64) -> (r: Option<Self>)
        ensures
            match r {
                Some(v) => v.nat_of() == w as nat,
                None => !Self::fits_spec(w as nat),
            },
    ;

    /// Conversion from a 128-bit literal; `None` exactly when it does not fit.
    fn from_u128(w: u128) -> (r: Option<Self>)
        ensures
            match r {
                Some(v) => v.nat_of() == w as nat,
                None => !Self::fits_spec(w as nat),
            },
    ;

    fn eq_val(&self, rhs: &Self) -> (r: bool)
        ensures
            r == (self.nat_of() == rhs.nat_of()),
    ;

    fn lt(&self, rhs: &Self) -> (r: bool)
        ensures
            r == (self.nat_of() < rhs.nat_of()),
    ;

    fn is_zero(&self) -> (r: bool)
        ensures
            r == (self.nat_of() == 0),
    ;

    fn is_one(&self) -> (r: bool)
        ensures
            r == (self.nat_of() == 1),
    ;

    fn even(&self) -> (r: bool)
        ensures
            r == (self.nat_of() % 2 == 0),
    ;

    fn div_two(self) -> (r: Self)
        ensures
            r.nat_of() == self.nat_of() / 2,
    ;

    fn add_one(self) -> (r: Self)
        requires
            Self::fits_spec(self.nat_of() + 1),
        ensures
            r.nat_of() == self.nat_of() + 1,
    ;

    fn sub_one(self) -> (r: Self)
        requires
            self.nat_of() >= 1,
        ensures
            r.nat_of() == (self.nat_of() - 1) as nat,
    ;

    /// The remainder of this value modulo `m`.
    fn modulo(self, m: &Self) -> (r: Self)
        requires
            m.nat_of() > 0,
        ensures
            r.nat_of() == self.nat_of() % m.nat_of(),
    ;

    /// Modular multiplication: the product of two values reduced modulo `m`,
    /// computed without overflowing the carrier type.
    fn mul_mod(self, rhs: &Self, m: &Self) -> (r: Self)
        requires
            m.nat_of() > 0,
        ensures
            r.nat_of() == (self.nat_of() * rhs.nat_of()) % m.nat_of(),
    ;

    /// Tripling plus one with an exactness guarantee: `None` exactly when
    /// `3 * self + 1` does not fit the type. The primality engine iterates
    /// this to compare powers of three against its operand without
    /// floating-point logarithms.
    fn mul3_add1(self) -> (r: Option<Self>)
        ensures
            match r {
                Some(v) => v.nat_of() == 3 * self.nat_of() + 1,
                None => !Self::fits_spec(3 * self.nat_of() + 1),
            },
    ;
}

/// A signed numeric capability: a sign query and an absolute value whose
/// magnitudes live in an associated `Natural` type.
pub trait IntegerSubset: Sized + Copy {
    /// The unsigned capability that carries this type's magnitudes.
    type Magnitude: Natural;

    /// The mathematical integer of this term.
    spec fn int_of(&self) -> int;

    fn negative(&self) -> (r: bool)
        ensures
            r == (self.int_of() < 0),
    ;

    /// The absolute value, as a magnitude.
    fn abs_unsigned(self) -> (r: Self::Magnitude)
        ensures
            r.nat_of() == (if self.int_of() < 0 { -self.int_of() } else { self.int_of() }),
    ;

    /// A non-negative value, as a magnitude.
    fn as_unsigned(self) -> (r: Self::Magnitude)
        requires
            self.int_of() >= 0,
        ensures
            r.nat_of() == self.int_of(),
    ;
}

} // verus!
