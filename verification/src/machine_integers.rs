//! The signed machine integers as ring-like capabilities.
//!
//! A signed fixed-width integer stands for the residue ring of the
//! integers modulo `2^width` in two's-complement representation: the
//! operations wrap, so they are total and satisfy the ring axioms
//! exactly. Division with remainder truncates toward zero on the
//! representative values, with the absolute value as Euclidean norm.

use vstd::prelude::*;
use vstd::arithmetic::div_mod::{
    lemma_fundamental_div_mod, lemma_mod_bound, lemma_mod_equivalence, lemma_small_mod,
};

use crate::group_like::{
    AddAssociative, AddCommutative, IsZero, MulAssociative, MulCommutative, Negatable, One, Zero,
};
use crate::machine_rings::{lemma_cong_add, lemma_cong_mul, TWO_POW_64};
use crate::natural::{IntegerSubset, Natural};
use crate::ops::{Add, AddAssign, Mul, MulAssign, Neg, Sub, SubAssign};
use crate::gcd_nat::{gcd_nat, lemma_gcd_nat_divides};
use crate::ring_like::{euclidean, euclidean_spec, extended_euclidean, Bezout, EuclideanDiv, GCD};

verus! {

/// The residue of `x` in the signed 64-bit two's-complement
/// representation.
pub open spec fn wrap_i64(x: int) -> i64 {
    if x % (TWO_POW_64 as int) > i64::MAX as int {
        (x % (TWO_POW_64 as int) - TWO_POW_64 as int) as i64
    } else {
        (x % (TWO_POW_64 as int)) as i64
    }
}

/// Wrapping is the identity on values already in range.
proof fn lemma_wrap_i64_identity(a: i64)
    ensures
        wrap_i64(a as int) == a,
{
    let m = TWO_POW_64 as int;
    if a >= 0 {
        lemma_small_mod(a as nat, TWO_POW_64 as nat);
    } else {
        lemma_mod_equivalence(a as int, a as int + m, m);
        lemma_small_mod((a as int + m) as nat, TWO_POW_64 as nat);
    }
}

/// The wrapped value is congruent to the value itself.
proof fn lemma_wrap_i64_congruence(x: int)
    ensures
        (wrap_i64(x) - x) % (TWO_POW_64 as int) == 0,
{
    let m = TWO_POW_64 as int;
    lemma_mod_bound(x, m);
    lemma_small_mod((x % m) as nat, TWO_POW_64 as nat);
    lemma_mod_equivalence(x % m, x, m);
    if x % m > i64::MAX as int {
        lemma_mod_equivalence(x % m - m, x % m, m);
        lemma_mod_equivalence(x % m - m, x, m);
    }
}

/// Congruent integers wrap to the same representative.
proof fn lemma_wrap_i64_congruent(x: int, y: int)
    requires
        (x - y) % (TWO_POW_64 as int) == 0,
    ensures
        wrap_i64(x) == wrap_i64(y),
{
    lemma_mod_equivalence(x, y, TWO_POW_64 as int);
}

/// Two in-range integers congruent modulo `2^64` are equal.
proof fn lemma_i64_range_unique(x: int, y: int)
    requires
        i64::MIN <= x <= i64::MAX,
        i64::MIN <= y <= i64::MAX,
        (x - y) % (TWO_POW_64 as int) == 0,
    ensures
        x == y,
{
    let m = TWO_POW_64 as int;
    if x - y >= 0 {
        lemma_small_mod((x - y) as nat, TWO_POW_64 as nat);
    } else {
        lemma_mod_equivalence(x - y, x - y + m, m);
        lemma_small_mod((x - y + m) as nat, TWO_POW_64 as nat);
    }
}

/// An in-range integer congruent to `x` is the wrap of `x`.
proof fn lemma_wrap_i64_of_congruent(x: int, v: i64)
    requires
        (v - x) % (TWO_POW_64 as int) == 0,
    ensures
        wrap_i64(x) == v,
{
    lemma_wrap_i64_congruence(x);
    let w = wrap_i64(x);
    let m = TWO_POW_64 as int;
    lemma_mod_equivalence(w as int, x, m);
    lemma_mod_equivalence(v as int, x, m);
    lemma_mod_equivalence(w as int, v as int, m);
    lemma_i64_range_unique(w as int, v as int);
}

impl Add for i64 {
    open spec fn add_spec(self, rhs: i64) -> i64 {
        wrap_i64(self as int + rhs as int)
    }

    fn add(self, rhs: i64) -> (r: i64) {
        let wide = self as i128 + rhs as i128;
        let out: i64 = if wide > i64::MAX as i128 {
            (wide - TWO_POW_64 as i128) as i64
        } else if wide < i64::MIN as i128 {
            (wide + TWO_POW_64 as i128) as i64
        } else {
            wide as i64
        };
        proof {
            let m = TWO_POW_64 as int;
            lemma_mod_equivalence(out as int, wide as int, m);
            lemma_wrap_i64_of_congruent(self as int + rhs as int, out);
        }
        out
    }
}

impl AddAssign for i64 {
    fn add_assign(&mut self, rhs: i64) {
        let v = Add::add(*self, rhs);
        *self = v;
    }
}

impl Sub for i64 {
    open spec fn sub_spec(self, rhs: i64) -> i64 {
        wrap_i64(self as int - rhs as int)
    }

    fn sub(self, rhs: i64) -> (r: i64) {
        let wide = self as i128 - rhs as i128;
        let out: i64 = if wide > i64::MAX as i128 {
            (wide - TWO_POW_64 as i128) as i64
        } else if wide < i64::MIN as i128 {
            (wide + TWO_POW_64 as i128) as i64
        } else {
            wide as i64
        };
        proof {
            let m = TWO_POW_64 as int;
            lemma_mod_equivalence(out as int, wide as int, m);
            lemma_wrap_i64_of_congruent(self as int - rhs as int, out);
        }
        out
    }
}

impl SubAssign for i64 {
    fn sub_assign(&mut self, rhs: i64) {
        let v = Sub::sub(*self, rhs);
        *self = v;
    }
}

impl Neg for i64 {
    open spec fn neg_spec(self) -> i64 {
        wrap_i64(-(self as int))
    }

    fn neg(self) -> (r: i64) {
        let out: i64 = if self == i64::MIN {
            i64::MIN
        } else {
            -self
        };
        proof {
            let m = TWO_POW_64 as int;
            lemma_mod_equivalence(out as int, -(self as int), m);
            lemma_wrap_i64_of_congruent(-(self as int), out);
        }
        out
    }
}

impl Mul for i64 {
    open spec fn mul_spec(self, rhs: i64) -> i64 {
        wrap_i64(self as int * rhs as int)
    }

    fn mul(self, rhs: i64) -> (r: i64) {
        proof {
            assert(i64::MIN as int * i64::MIN as int <= i128::MAX as int) by (nonlinear_arith);
            assert((self as int) * (rhs as int) <= i64::MIN as int * i64::MIN as int
                && (self as int) * (rhs as int) >= i64::MIN as int * i64::MAX as int)
                by (nonlinear_arith)
                requires
                    i64::MIN as int <= self as int <= i64::MAX as int,
                    i64::MIN as int <= rhs as int <= i64::MAX as int,
            ;
        }
        let wide = self as i128 * rhs as i128;
        let m128 = TWO_POW_64 as i128;
        let folded = wide % m128;
        let out: i64 = if folded > i64::MAX as i128 {
            (folded - m128) as i64
        } else if folded < i64::MIN as i128 {
            (folded + m128) as i64
        } else {
            folded as i64
        };
        proof {
            let m = TWO_POW_64 as int;
            // the truncated i128 remainder is congruent to the product
            if wide >= 0 {
                lemma_mod_bound(wide as int, m);
                lemma_small_mod((wide as int % m) as nat, TWO_POW_64 as nat);
                lemma_mod_equivalence(folded as int, wide as int, m);
            } else {
                let wneg = -(wide as int);
                assert(folded as int == -(wneg % m));
                lemma_mod_bound(wneg, m);
                lemma_small_mod((wneg % m) as nat, TWO_POW_64 as nat);
                lemma_mod_equivalence(wneg % m, wneg, m);
                assert((folded as int - wide as int) == (wneg - wneg % m));
                lemma_mod_equivalence(folded as int, wide as int, m);
            }
            lemma_mod_equivalence(out as int, folded as int, m);
            lemma_mod_equivalence(out as int, wide as int, m);
            lemma_wrap_i64_of_congruent(self as int * rhs as int, out);
        }
        out
    }
}

impl MulAssign for i64 {
    fn mul_assign(&mut self, rhs: i64) {
        let v = Mul::mul(*self, rhs);
        *self = v;
    }
}

impl AddAssociative for i64 {
    proof fn add_assoc(a: i64, b: i64, c: i64) {
        lemma_wrap_i64_congruence(a as int + b as int);
        lemma_wrap_i64_congruence(b as int + c as int);
        lemma_cong_add(wrap_i64(a as int + b as int) as int, a as int + b as int, c as int,
            c as int);
        lemma_cong_add(a as int, a as int, wrap_i64(b as int + c as int) as int,
            b as int + c as int);
        lemma_wrap_i64_congruent(wrap_i64(a as int + b as int) as int + c as int,
            a as int + b as int + c as int);
        lemma_wrap_i64_congruent(a as int + wrap_i64(b as int + c as int) as int,
            a as int + (b as int + c as int));
    }
}

impl AddCommutative for i64 {
    proof fn add_comm(a: i64, b: i64) {
    }
}

impl MulAssociative for i64 {
    proof fn mul_assoc(a: i64, b: i64, c: i64) {
        lemma_wrap_i64_congruence(a as int * b as int);
        lemma_wrap_i64_congruence(b as int * c as int);
        lemma_cong_mul(wrap_i64(a as int * b as int) as int, a as int * b as int, c as int,
            c as int);
        lemma_cong_mul(a as int, a as int, wrap_i64(b as int * c as int) as int,
            b as int * c as int);
        assert((a as int * b as int) * c as int == a as int * (b as int * c as int))
            by (nonlinear_arith);
        lemma_wrap_i64_congruent(wrap_i64(a as int * b as int) as int * c as int,
            (a as int * b as int) * c as int);
        lemma_wrap_i64_congruent(a as int * wrap_i64(b as int * c as int) as int,
            a as int * (b as int * c as int));
    }
}

impl MulCommutative for i64 {
    proof fn mul_comm(a: i64, b: i64) {
        assert(a as int * b as int == b as int * a as int) by (nonlinear_arith);
    }
}

impl crate::ring_like::Distributive for i64 {
    proof fn mul_distributes(a: i64, b: i64, c: i64) {
        lemma_wrap_i64_congruence(b as int + c as int);
        lemma_cong_mul(a as int, a as int, wrap_i64(b as int + c as int) as int,
            b as int + c as int);
        assert(a as int * (b as int + c as int) == a as int * b as int + a as int * c as int)
            by (nonlinear_arith);
        lemma_wrap_i64_congruent(a as int * wrap_i64(b as int + c as int) as int,
            a as int * b as int + a as int * c as int);
        lemma_wrap_i64_congruence(a as int * b as int);
        lemma_wrap_i64_congruence(a as int * c as int);
        lemma_cong_add(wrap_i64(a as int * b as int) as int, a as int * b as int,
            wrap_i64(a as int * c as int) as int, a as int * c as int);
        lemma_wrap_i64_congruent(
            wrap_i64(a as int * b as int) as int + wrap_i64(a as int * c as int) as int,
            a as int * b as int + a as int * c as int,
        );
        lemma_wrap_i64_congruence(a as int + b as int);
        lemma_cong_mul(wrap_i64(a as int + b as int) as int, a as int + b as int, c as int,
            c as int);
        assert((a as int + b as int) * c as int == a as int * c as int + b as int * c as int)
            by (nonlinear_arith);
        lemma_wrap_i64_congruent(wrap_i64(a as int + b as int) as int * c as int,
            a as int * c as int + b as int * c as int);
        lemma_wrap_i64_congruence(b as int * c as int);
        lemma_cong_add(wrap_i64(a as int * c as int) as int, a as int * c as int,
            wrap_i64(b as int * c as int) as int, b as int * c as int);
        lemma_wrap_i64_congruent(
            wrap_i64(a as int * c as int) as int + wrap_i64(b as int * c as int) as int,
            a as int * c as int + b as int * c as int,
        );
    }
}

impl Zero for i64 {
    open spec fn zero_spec() -> i64 {
        0
    }

    proof fn add_zero(a: i64) {
        lemma_wrap_i64_identity(a);
    }

    fn zero() -> i64 {
        0
    }

    fn is_zero(&self) -> bool {
        *self == 0
    }
}

impl One for i64 {
    open spec fn one_spec() -> i64 {
        1
    }

    proof fn mul_one(a: i64) {
        assert(a as int * 1 == a as int) by (nonlinear_arith);
        assert(1 * (a as int) == a as int) by (nonlinear_arith);
        lemma_wrap_i64_identity(a);
    }

    fn one() -> i64 {
        1
    }

    fn is_one(&self) -> bool {
        *self == 1
    }
}

impl Negatable for i64 {
    proof fn add_neg(a: i64) {
        lemma_wrap_i64_congruence(-(a as int));
        lemma_cong_add(a as int, a as int, wrap_i64(-(a as int)) as int, -(a as int));
        lemma_wrap_i64_of_congruent(a as int + wrap_i64(-(a as int)) as int, 0i64);
        lemma_cong_add(wrap_i64(-(a as int)) as int, -(a as int), a as int, a as int);
        lemma_wrap_i64_of_congruent(wrap_i64(-(a as int)) as int + a as int, 0i64);
    }

    proof fn sub_is_add_neg(a: i64, b: i64) {
        lemma_wrap_i64_congruence(-(b as int));
        lemma_cong_add(a as int, a as int, wrap_i64(-(b as int)) as int, -(b as int));
        lemma_wrap_i64_congruent(a as int + wrap_i64(-(b as int)) as int, a as int - b as int);
    }
}

impl IsZero for i64 {
    open spec fn zero_probe_spec(&self) -> bool {
        *self == 0
    }

    fn zero_probe(&self) -> bool {
        *self == 0
    }
}

/// The absolute value of an integer.
pub open spec fn abs_int(a: int) -> int {
    if a < 0 {
        -a
    } else {
        a
    }
}

/// The truncated quotient of two integers, as a mathematical integer.
pub open spec fn quot_int(a: int, b: int) -> int {
    if (a < 0) == (b < 0) {
        abs_int(a) / abs_int(b)
    } else {
        -(abs_int(a) / abs_int(b))
    }
}

/// The truncated remainder of two integers: it carries the dividend's
/// sign.
pub open spec fn rem_int(a: int, b: int) -> int {
    if a < 0 {
        -(abs_int(a) % abs_int(b))
    } else {
        abs_int(a) % abs_int(b)
    }
}

/// Truncated division with remainder reconstructs the dividend exactly.
proof fn lemma_trunc_div_exact(a: int, b: int)
    requires
        b != 0,
    ensures
        quot_int(a, b) * b + rem_int(a, b) == a,
        abs_int(rem_int(a, b)) < abs_int(b),
{
    let aa = abs_int(a);
    let ab = abs_int(b);
    lemma_fundamental_div_mod(aa, ab);
    lemma_mod_bound(aa, ab);
    let q0 = aa / ab;
    let r0 = aa % ab;
    assert(q0 >= 0) by (nonlinear_arith)
        requires
            ab > 0,
            aa >= 0,
            aa == ab * q0 + r0,
            0 <= r0 < ab,
    ;
    if a >= 0 && b >= 0 {
        assert(q0 * b + r0 == a) by (nonlinear_arith)
            requires
                aa == ab * q0 + r0 && aa == a && ab == b,
        ;
    } else if a >= 0 && b < 0 {
        assert((-q0) * b + r0 == a) by (nonlinear_arith)
            requires
                aa == ab * q0 + r0 && aa == a && ab == -b,
        ;
    } else if a < 0 && b >= 0 {
        assert((-q0) * b + (-r0) == a) by (nonlinear_arith)
            requires
                aa == ab * q0 + r0 && aa == -a && ab == b,
        ;
    } else {
        assert(q0 * b + (-r0) == a) by (nonlinear_arith)
            requires
                aa == ab * q0 + r0 && aa == -a && ab == -b,
        ;
    }
}

impl EuclideanDiv for i64 {
    type Naturals = u64;

    open spec fn norm_spec(&self) -> nat {
        abs_int(*self as int) as nat
    }

    open spec fn quot_spec(self, rhs: i64) -> i64 {
        wrap_i64(quot_int(self as int, rhs as int))
    }

    open spec fn rem_spec(self, rhs: i64) -> i64 {
        rem_int(self as int, rhs as int) as i64
    }

    proof fn lemma_div_alg(a: i64, b: i64) {
        let m = TWO_POW_64 as int;
        lemma_trunc_div_exact(a as int, b as int);
        let q = quot_int(a as int, b as int);
        let r = rem_int(a as int, b as int);
        // the wrapped quotient times b plus r is congruent to a, and a is
        // in range, so the wrapped arithmetic reconstructs a exactly
        lemma_wrap_i64_congruence(q);
        lemma_cong_mul(wrap_i64(q) as int, q, b as int, b as int);
        lemma_wrap_i64_congruence(wrap_i64(q) as int * b as int);
        lemma_cong_add(wrap_i64(wrap_i64(q) as int * b as int) as int,
            wrap_i64(q) as int * b as int, r, r);
        assert((wrap_i64(wrap_i64(q) as int * b as int) as int + r - (q * b as int + r)) % m == 0);
        lemma_wrap_i64_of_congruent(wrap_i64(wrap_i64(q) as int * b as int) as int + r, a);
    }

    proof fn lemma_norm_zero(a: i64) {
    }

    fn euclid_norm(&self) -> (r: u64) {
        let out: u64 = if *self == i64::MIN {
            9223372036854775808u64
        } else if *self < 0 {
            (-*self) as u64
        } else {
            *self as u64
        };
        proof {
            assert(out.nat_of() == abs_int(*self as int) as nat);
            assert(out.nat_of() == self.norm_spec());
        }
        out
    }

    fn div_euc(self, rhs: i64) -> (r: i64) {
        let (q, _r) = self.div_alg(rhs);
        q
    }

    fn rem_euc(self, rhs: i64) -> (r: i64) {
        let (_q, r) = self.div_alg(rhs);
        r
    }

    fn div_alg(self, rhs: i64) -> (r: (i64, i64)) {
        let a_abs: u64 = if self == i64::MIN {
            9223372036854775808u64
        } else if self < 0 {
            (-self) as u64
        } else {
            self as u64
        };
        let b_abs: u64 = if rhs == i64::MIN {
            9223372036854775808u64
        } else if rhs < 0 {
            (-rhs) as u64
        } else {
            rhs as u64
        };
        let q0 = a_abs / b_abs;
        let r0 = a_abs % b_abs;
        let q: i64 = if (self < 0) != (rhs < 0) {
            if q0 == 9223372036854775808u64 {
                i64::MIN
            } else {
                -(q0 as i64)
            }
        } else {
            if q0 == 9223372036854775808u64 {
                proof {
                    let m = TWO_POW_64 as int;
                    lemma_mod_equivalence(i64::MIN as int, q0 as int, m);
                    lemma_wrap_i64_of_congruent(quot_int(self as int, rhs as int), i64::MIN);
                }
                i64::MIN
            } else {
                q0 as i64
            }
        };
        let r: i64 = if self < 0 {
            -(r0 as i64)
        } else {
            r0 as i64
        };
        proof {
            lemma_mod_bound(a_abs as int, b_abs as int);
            if (self < 0) == (rhs < 0) && q0 != 9223372036854775808u64 {
                lemma_wrap_i64_identity(q);
            }
            if (self < 0) != (rhs < 0) {
                if q0 == 9223372036854775808u64 {
                    lemma_wrap_i64_of_congruent(quot_int(self as int, rhs as int), i64::MIN);
                } else {
                    lemma_wrap_i64_identity(q);
                }
            }
        }
        (q, r)
    }
}

impl IntegerSubset for i64 {
    type Magnitude = u64;

    open spec fn int_of(&self) -> int {
        *self as int
    }

    fn negative(&self) -> bool {
        *self < 0
    }

    fn abs_unsigned(self) -> (r: u64) {
        if self == i64::MIN {
            9223372036854775808u64
        } else if self < 0 {
            (-self) as u64
        } else {
            self as u64
        }
    }

    fn as_unsigned(self) -> (r: u64) {
        self as u64
    }
}

impl GCD for i64 {
    open spec fn gcd_spec(self, rhs: i64) -> i64 {
        euclidean_spec(self, rhs)
    }

    open spec fn lcm_ok(self, rhs: i64) -> bool {
        self > 0 && rhs > 0 && (self as nat / gcd_nat(self as nat, rhs as nat)) * (rhs as nat)
            <= i64::MAX as nat
    }

    open spec fn lcm_spec(self, rhs: i64) -> i64 {
        ((self as nat / gcd_nat(self as nat, rhs as nat)) * (rhs as nat)) as i64
    }

    fn gcd(self, rhs: i64) -> (r: i64) {
        euclidean(self, rhs)
    }

    fn lcm(self, rhs: i64) -> (r: i64) {
        let au = self as u64;
        let bu = rhs as u64;
        let g = GCD::gcd(au, bu);
        proof {
            lemma_gcd_nat_divides(au as nat, bu as nat);
        }
        ((au / g) * bu) as i64
    }
}

impl Bezout for i64 {
    fn bezout_with_gcd(self, rhs: i64) -> (r: (i64, i64, i64)) {
        extended_euclidean(self, rhs)
    }
}


impl IntegerSubset for i8 {
    type Magnitude = u8;

    open spec fn int_of(&self) -> int {
        *self as int
    }

    fn negative(&self) -> bool {
        *self < 0
    }

    fn abs_unsigned(self) -> (r: u8) {
        if self == i8::MIN {
            128u8
        } else if self < 0 {
            (-self) as u8
        } else {
            self as u8
        }
    }

    fn as_unsigned(self) -> (r: u8) {
        self as u8
    }
}

impl IntegerSubset for i16 {
    type Magnitude = u16;

    open spec fn int_of(&self) -> int {
        *self as int
    }

    fn negative(&self) -> bool {
        *self < 0
    }

    fn abs_unsigned(self) -> (r: u16) {
        if self == i16::MIN {
            32768u16
        } else if self < 0 {
            (-self) as u16
        } else {
            self as u16
        }
    }

    fn as_unsigned(self) -> (r: u16) {
        self as u16
    }
}

impl IntegerSubset for i32 {
    type Magnitude = u32;

    open spec fn int_of(&self) -> int {
        *self as int
    }

    fn negative(&self) -> bool {
        *self < 0
    }

    fn abs_unsigned(self) -> (r: u32) {
        if self == i32::MIN {
            2147483648u32
        } else if self < 0 {
            (-self) as u32
        } else {
            self as u32
        }
    }

    fn as_unsigned(self) -> (r: u32) {
        self as u32
    }
}

impl IntegerSubset for i128 {
    type Magnitude = u128;

    open spec fn int_of(&self) -> int {
        *self as int
    }

    fn negative(&self) -> bool {
        *self < 0
    }

    fn abs_unsigned(self) -> (r: u128) {
        if self == i128::MIN {
            170141183460469231731687303715884105728u128
        } else if self < 0 {
            (-self) as u128
        } else {
            self as u128
        }
    }

    fn as_unsigned(self) -> (r: u128) {
        self as u128
    }
}

} // verus!
