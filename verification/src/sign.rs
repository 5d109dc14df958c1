//! The group of signs: the smallest multiplicative group.
//!
//! It exercises the group-side contracts of the exponentiation engine
//! (`repeated_squaring_inv`, `pow_z`) on a type where every element has an
//! inverse, which no machine integer under wrapping multiplication offers.

use vstd::prelude::*;

use crate::group_like::{IsZero, Invertable, MulAssociative, MulCommutative, One};
use crate::ops::{Div, DivAssign, Inv, Mul, MulAssign};

verus! {

/// A sign: plus or minus one, under multiplication.
#[derive(Clone, Copy, PartialEq, Eq, Structural, Debug)]
pub enum Sign {
    Plus,
    Minus,
}

impl Mul for Sign {
    open spec fn mul_spec(self, rhs: Sign) -> Sign {
        if self == rhs {
            Sign::Plus
        } else {
            Sign::Minus
        }
    }

    fn mul(self, rhs: Sign) -> (r: Sign) {
        if self == rhs {
            Sign::Plus
        } else {
            Sign::Minus
        }
    }
}

impl MulAssign for Sign {
    fn mul_assign(&mut self, rhs: Sign) {
        let v = Mul::mul(*self, rhs);
        *self = v;
    }
}

impl MulAssociative for Sign {
    proof fn mul_assoc(a: Sign, b: Sign, c: Sign) {
    }
}

impl MulCommutative for Sign {
    proof fn mul_comm(a: Sign, b: Sign) {
    }
}

impl One for Sign {
    open spec fn one_spec() -> Sign {
        Sign::Plus
    }

    proof fn mul_one(a: Sign) {
    }

    fn one() -> Sign {
        Sign::Plus
    }

    fn is_one(&self) -> bool {
        *self == Sign::Plus
    }
}

impl Inv for Sign {
    open spec fn inv_spec(self) -> Sign {
        self
    }

    fn inv(self) -> (r: Sign) {
        self
    }
}

impl Div for Sign {
    open spec fn div_ok(self, rhs: Sign) -> bool {
        true
    }

    open spec fn div_spec(self, rhs: Sign) -> Sign {
        self.mul_spec(rhs)
    }

    fn div(self, rhs: Sign) -> (r: Sign) {
        Mul::mul(self, rhs)
    }
}

impl DivAssign for Sign {
    fn div_assign(&mut self, rhs: Sign) {
        let v = Div::div(*self, rhs);
        *self = v;
    }
}

impl Invertable for Sign {
    proof fn mul_inv(a: Sign) {
    }
}

impl IsZero for Sign {
    open spec fn zero_probe_spec(&self) -> bool {
        false
    }

    fn zero_probe(&self) -> bool {
        false
    }
}

} // verus!
