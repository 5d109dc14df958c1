//! The machine unsigned integers as `Natural` capabilities.

use vstd::prelude::*;
use vstd::arithmetic::div_mod::{
    lemma_add_mod_noop, lemma_mod_bound, lemma_mod_equivalence, lemma_mod_self_0,
    lemma_mul_mod_noop_general, lemma_mul_mod_noop_left, lemma_small_mod,
};

use crate::natural::Natural;

verus! {

/// Sums of terms congruent modulo `m` stay congruent.
proof fn lemma_cong_add_mod(x1: int, x2: int, y1: int, y2: int, m: int)
    requires
        m > 0,
        (x1 - x2) % m == 0,
        (y1 - y2) % m == 0,
    ensures
        ((x1 + y1) - (x2 + y2)) % m == 0,
{
    lemma_mod_equivalence(x1, x2, m);
    lemma_mod_equivalence(y1, y2, m);
    lemma_add_mod_noop(x1, y1, m);
    lemma_add_mod_noop(x2, y2, m);
    lemma_mod_equivalence(x1 + y1, x2 + y2, m);
}

/// Products of factors congruent modulo `m` stay congruent.
proof fn lemma_cong_mul_mod(x1: int, x2: int, y1: int, y2: int, m: int)
    requires
        m > 0,
        (x1 - x2) % m == 0,
        (y1 - y2) % m == 0,
    ensures
        ((x1 * y1) - (x2 * y2)) % m == 0,
{
    lemma_mod_equivalence(x1, x2, m);
    lemma_mod_equivalence(y1, y2, m);
    lemma_mul_mod_noop_general(x1, y1, m);
    lemma_mul_mod_noop_general(x2, y2, m);
    lemma_mod_equivalence(x1 * y1, x2 * y2, m);
}

/// A term is congruent to itself.
proof fn lemma_cong_refl(t: int, m: int)
    requires
        m > 0,
    ensures
        (t - t) % m == 0,
{
    lemma_small_mod(0nat, m as nat);
}

/// Modular addition of two reduced 128-bit values, without overflow.
fn add_mod_u128(a: u128, b: u128, m: u128) -> (r: u128)
    requires
        m > 0,
        a < m,
        b < m,
    ensures
        r as nat == (a as nat + b as nat) % m as nat,
{
    if b > 0 && a >= m - b {
        proof {
            lemma_mod_self_0(m as int);
            lemma_mod_equivalence(a as int + b as int, a as int + b as int - m as int, m as int);
            lemma_small_mod((a as int + b as int - m as int) as nat, m as nat);
        }
        a - (m - b)
    } else {
        proof {
            lemma_small_mod((a + b) as nat, m as nat);
        }
        a + b
    }
}

/// Modular multiplication of 128-bit values by doubling and adding, so
/// that no intermediate exceeds the carrier type.
pub fn mul_mod_u128(a: u128, b: u128, m: u128) -> (r: u128)
    requires
        m > 0,
    ensures
        r as nat == (a as nat * b as nat) % m as nat,
{
    let a0 = a % m;
    let mut x = a0;
    let mut y = b;
    let mut acc: u128 = 0;
    proof {
        lemma_mul_mod_noop_left(a as int, b as int, m as int);
        lemma_mod_bound(a as int, m as int);
    }
    while y > 0
        invariant
            m > 0,
            x < m,
            acc < m,
            (acc as int + x as int * y as int) % (m as int) == (a as int * b as int) % (m as int),
        decreases y,
    {
        let ghost acc0 = acc as int;
        let ghost x0 = x as int;
        let ghost y0 = y as int;
        let ghost mi = m as int;
        if y % 2 == 1 {
            acc = add_mod_u128(acc, x, m);
            proof {
                lemma_mod_equivalence(acc as int, acc0 + x0, mi);
                lemma_small_mod(acc as nat, m as nat);
                lemma_cong_refl(x0 * (y0 - 1), mi);
                lemma_cong_add_mod(acc as int, acc0 + x0, x0 * (y0 - 1), x0 * (y0 - 1), mi);
                assert(x0 + x0 * (y0 - 1) == x0 * y0) by (nonlinear_arith);
                lemma_mod_equivalence(acc as int + x0 * (y0 - 1), acc0 + x0 * y0, mi);
            }
        }
        let ghost acc1 = acc as int;
        let ghost y1 = if y0 % 2 == 1 { y0 - 1 } else { y0 };
        proof {
            assert((acc1 + x0 * y1) % mi == (a as int * b as int) % mi);
        }
        let x2 = add_mod_u128(x, x, m);
        x = x2;
        y = y / 2;
        proof {
            // after halving, the doubled base times the halved count is the
            // same product
            lemma_mod_equivalence(x as int, 2 * x0, mi);
            lemma_small_mod(x as nat, m as nat);
            lemma_cong_refl(y as int, mi);
            lemma_cong_mul_mod(x as int, 2 * x0, y as int, y as int, mi);
            assert((2 * x0) * (y as int) == x0 * y1) by (nonlinear_arith)
                requires
                    2 * (y as int) == y1,
            ;
            lemma_cong_refl(acc1, mi);
            lemma_cong_add_mod(acc1, acc1, x as int * y as int, x0 * y1, mi);
            lemma_mod_equivalence(acc1 + x as int * y as int, acc1 + x0 * y1, mi);
        }
    }
    proof {
        assert(x as int * 0 == 0) by (nonlinear_arith);
        lemma_small_mod(acc as nat, m as nat);
    }
    acc
}

impl Natural for u64 {
    open spec fn nat_of(&self) -> nat {
        *self as nat
    }

    open spec fn fits_spec(w: nat) -> bool {
        w <= u64::MAX as nat
    }

    proof fn lemma_fits(&self) {
    }

    proof fn lemma_fits_down(v: nat, w: nat) {
    }

    proof fn lemma_fits_255() {
    }

    fn zero() -> u64 {
        0
    }

    fn one() -> u64 {
        1
    }

    fn two() -> u64 {
        2
    }

    fn from_u32(w: u32) -> Option<u64> {
        Some(w as u64)
    }

    fn from_u64(w: u64) -> Option<u64> {
        Some(w)
    }

    fn from_u128(w: u128) -> Option<u64> {
        if w <= u64::MAX as u128 {
            Some(w as u64)
        } else {
            None
        }
    }

    fn eq_val(&self, rhs: &u64) -> bool {
        *self == *rhs
    }

    fn lt(&self, rhs: &u64) -> bool {
        *self < *rhs
    }

    fn is_zero(&self) -> bool {
        *self == 0
    }

    fn is_one(&self) -> bool {
        *self == 1
    }

    fn even(&self) -> bool {
        *self % 2 == 0
    }

    fn div_two(self) -> u64 {
        self / 2
    }

    fn add_one(self) -> u64 {
        self + 1
    }

    fn sub_one(self) -> u64 {
        self - 1
    }

    fn modulo(self, m: &u64) -> u64 {
        self % *m
    }

    fn mul_mod(self, rhs: &u64, m: &u64) -> (r: u64) {
        proof {
            assert(self as nat * *rhs as nat <= u64::MAX as nat * u64::MAX as nat)
                by (nonlinear_arith)
                requires
                    self <= u64::MAX,
                    *rhs <= u64::MAX,
            ;
        }
        let wide = (self as u128) * (*rhs as u128) % (*m as u128);
        wide as u64
    }

    fn mul3_add1(self) -> (r: Option<u64>) {
        if self <= (u64::MAX - 1) / 3 {
            Some(3 * self + 1)
        } else {
            None
        }
    }
}

impl Natural for u8 {
    open spec fn nat_of(&self) -> nat {
        *self as nat
    }

    open spec fn fits_spec(w: nat) -> bool {
        w <= u8::MAX as nat
    }

    proof fn lemma_fits(&self) {
    }

    proof fn lemma_fits_down(v: nat, w: nat) {
    }

    proof fn lemma_fits_255() {
    }

    fn zero() -> u8 {
        0
    }

    fn one() -> u8 {
        1
    }

    fn two() -> u8 {
        2
    }

    fn from_u32(w: u32) -> Option<u8> {
        if w <= u8::MAX as u32 {
            Some(w as u8)
        } else {
            None
        }
    }

    fn from_u64(w: u64) -> Option<u8> {
        if w <= u8::MAX as u64 {
            Some(w as u8)
        } else {
            None
        }
    }

    fn from_u128(w: u128) -> Option<u8> {
        if w <= u8::MAX as u128 {
            Some(w as u8)
        } else {
            None
        }
    }

    fn eq_val(&self, rhs: &u8) -> bool {
        *self == *rhs
    }

    fn lt(&self, rhs: &u8) -> bool {
        *self < *rhs
    }

    fn is_zero(&self) -> bool {
        *self == 0
    }

    fn is_one(&self) -> bool {
        *self == 1
    }

    fn even(&self) -> bool {
        *self % 2 == 0
    }

    fn div_two(self) -> u8 {
        self / 2
    }

    fn add_one(self) -> u8 {
        self + 1
    }

    fn sub_one(self) -> u8 {
        self - 1
    }

    fn modulo(self, m: &u8) -> u8 {
        self % *m
    }

    fn mul_mod(self, rhs: &u8, m: &u8) -> (r: u8) {
        proof {
            assert(self as nat * *rhs as nat <= u8::MAX as nat * u8::MAX as nat)
                by (nonlinear_arith)
                requires
                    self <= u8::MAX,
                    *rhs <= u8::MAX,
            ;
        }
        let wide = (self as u32) * (*rhs as u32) % (*m as u32);
        wide as u8
    }

    fn mul3_add1(self) -> (r: Option<u8>) {
        if self <= (u8::MAX - 1) / 3 {
            Some(3 * self + 1)
        } else {
            None
        }
    }
}

impl Natural for u16 {
    open spec fn nat_of(&self) -> nat {
        *self as nat
    }

    open spec fn fits_spec(w: nat) -> bool {
        w <= u16::MAX as nat
    }

    proof fn lemma_fits(&self) {
    }

    proof fn lemma_fits_down(v: nat, w: nat) {
    }

    proof fn lemma_fits_255() {
    }

    fn zero() -> u16 {
        0
    }

    fn one() -> u16 {
        1
    }

    fn two() -> u16 {
        2
    }

    fn from_u32(w: u32) -> Option<u16> {
        if w <= u16::MAX as u32 {
            Some(w as u16)
        } else {
            None
        }
    }

    fn from_u64(w: u64) -> Option<u16> {
        if w <= u16::MAX as u64 {
            Some(w as u16)
        } else {
            None
        }
    }

    fn from_u128(w: u128) -> Option<u16> {
        if w <= u16::MAX as u128 {
            Some(w as u16)
        } else {
            None
        }
    }

    fn eq_val(&self, rhs: &u16) -> bool {
        *self == *rhs
    }

    fn lt(&self, rhs: &u16) -> bool {
        *self < *rhs
    }

    fn is_zero(&self) -> bool {
        *self == 0
    }

    fn is_one(&self) -> bool {
        *self == 1
    }

    fn even(&self) -> bool {
        *self % 2 == 0
    }

    fn div_two(self) -> u16 {
        self / 2
    }

    fn add_one(self) -> u16 {
        self + 1
    }

    fn sub_one(self) -> u16 {
        self - 1
    }

    fn modulo(self, m: &u16) -> u16 {
        self % *m
    }

    fn mul_mod(self, rhs: &u16, m: &u16) -> (r: u16) {
        proof {
            assert(self as nat * *rhs as nat <= u16::MAX as nat * u16::MAX as nat)
                by (nonlinear_arith)
                requires
                    self <= u16::MAX,
                    *rhs <= u16::MAX,
            ;
        }
        let wide = (self as u32) * (*rhs as u32) % (*m as u32);
        wide as u16
    }

    fn mul3_add1(self) -> (r: Option<u16>) {
        if self <= (u16::MAX - 1) / 3 {
            Some(3 * self + 1)
        } else {
            None
        }
    }
}

impl Natural for u32 {
    open spec fn nat_of(&self) -> nat {
        *self as nat
    }

    open spec fn fits_spec(w: nat) -> bool {
        w <= u32::MAX as nat
    }

    proof fn lemma_fits(&self) {
    }

    proof fn lemma_fits_down(v: nat, w: nat) {
    }

    proof fn lemma_fits_255() {
    }

    fn zero() -> u32 {
        0
    }

    fn one() -> u32 {
        1
    }

    fn two() -> u32 {
        2
    }

    fn from_u32(w: u32) -> Option<u32> {
        Some(w)
    }

    fn from_u64(w: u64) -> Option<u32> {
        if w <= u32::MAX as u64 {
            Some(w as u32)
        } else {
            None
        }
    }

    fn from_u128(w: u128) -> Option<u32> {
        if w <= u32::MAX as u128 {
            Some(w as u32)
        } else {
            None
        }
    }

    fn eq_val(&self, rhs: &u32) -> bool {
        *self == *rhs
    }

    fn lt(&self, rhs: &u32) -> bool {
        *self < *rhs
    }

    fn is_zero(&self) -> bool {
        *self == 0
    }

    fn is_one(&self) -> bool {
        *self == 1
    }

    fn even(&self) -> bool {
        *self % 2 == 0
    }

    fn div_two(self) -> u32 {
        self / 2
    }

    fn add_one(self) -> u32 {
        self + 1
    }

    fn sub_one(self) -> u32 {
        self - 1
    }

    fn modulo(self, m: &u32) -> u32 {
        self % *m
    }

    fn mul_mod(self, rhs: &u32, m: &u32) -> (r: u32) {
        proof {
            assert(self as nat * *rhs as nat <= u32::MAX as nat * u32::MAX as nat)
                by (nonlinear_arith)
                requires
                    self <= u32::MAX,
                    *rhs <= u32::MAX,
            ;
        }
        let wide = (self as u64) * (*rhs as u64) % (*m as u64);
        wide as u32
    }

    fn mul3_add1(self) -> (r: Option<u32>) {
        if self <= (u32::MAX - 1) / 3 {
            Some(3 * self + 1)
        } else {
            None
        }
    }
}

impl Natural for u128 {
    open spec fn nat_of(&self) -> nat {
        *self as nat
    }

    open spec fn fits_spec(w: nat) -> bool {
        w <= u128::MAX as nat
    }

    proof fn lemma_fits(&self) {
    }

    proof fn lemma_fits_down(v: nat, w: nat) {
    }

    proof fn lemma_fits_255() {
    }

    fn zero() -> u128 {
        0
    }

    fn one() -> u128 {
        1
    }

    fn two() -> u128 {
        2
    }

    fn from_u32(w: u32) -> Option<u128> {
        Some(w as u128)
    }

    fn from_u64(w: u64) -> Option<u128> {
        Some(w as u128)
    }

    fn from_u128(w: u128) -> Option<u128> {
        Some(w)
    }

    fn eq_val(&self, rhs: &u128) -> bool {
        *self == *rhs
    }

    fn lt(&self, rhs: &u128) -> bool {
        *self < *rhs
    }

    fn is_zero(&self) -> bool {
        *self == 0
    }

    fn is_one(&self) -> bool {
        *self == 1
    }

    fn even(&self) -> bool {
        *self % 2 == 0
    }

    fn div_two(self) -> u128 {
        self / 2
    }

    fn add_one(self) -> u128 {
        self + 1
    }

    fn sub_one(self) -> u128 {
        self - 1
    }

    fn modulo(self, m: &u128) -> u128 {
        self % *m
    }

    fn mul_mod(self, rhs: &u128, m: &u128) -> (r: u128) {
        mul_mod_u128(self, *rhs, *m)
    }

    fn mul3_add1(self) -> (r: Option<u128>) {
        if self <= (u128::MAX - 1) / 3 {
            Some(3 * self + 1)
        } else {
            None
        }
    }
}

} // verus!
