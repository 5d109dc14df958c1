//! The machine integers as ring-like capabilities.
//!
//! A fixed-width machine integer type stands for the residue ring of the
//! integers modulo `2^width`: addition and multiplication wrap, which is
//! what makes them total, associative, commutative and distributive, and
//! so lets the types satisfy the algebraic axioms exactly. Division with
//! remainder and the Euclidean norm act on the representative values, as
//! they do for the mathematical integers whenever no operation wraps.

use vstd::prelude::*;
use vstd::arithmetic::div_mod::{
    lemma_add_mod_noop, lemma_fundamental_div_mod, lemma_mod_bound, lemma_mod_equivalence,
    lemma_mul_mod_noop_general, lemma_small_mod,
};

use crate::gcd_nat::{
    gcd_nat, lemma_gcd_nat_divides, lemma_gcd_nat_lcm_product, lemma_gcd_nat_sym,
    lemma_gcd_rec_u64,
};
use crate::group_like::{
    AddAssociative, AddCommutative, IsZero, MulAssociative, MulCommutative, One, Zero,
};
use crate::ops::{Add, AddAssign, Mul, MulAssign};
use crate::ring_like::{euclidean, Distributive, EuclideanDiv, GCD};

verus! {

/// The modulus of the 64-bit machine integers.
pub const TWO_POW_64: u128 = 0x1_0000_0000_0000_0000;

/// The residue of `x` in the unsigned 64-bit representation.
pub open spec fn wrap_u64(x: int) -> u64 {
    (x % (TWO_POW_64 as int)) as u64
}

/// Wrapping is the identity on values already in range.
proof fn lemma_wrap_u64_identity(a: u64)
    ensures
        wrap_u64(a as int) == a,
{
    lemma_small_mod(a as nat, TWO_POW_64 as nat);
}

/// Congruent integers wrap to the same representative.
proof fn lemma_wrap_u64_congruent(x: int, y: int)
    requires
        (x - y) % (TWO_POW_64 as int) == 0,
    ensures
        wrap_u64(x) == wrap_u64(y),
{
    lemma_mod_equivalence(x, y, TWO_POW_64 as int);
}

/// The wrapped value is congruent to the value itself.
proof fn lemma_wrap_u64_congruence(x: int)
    ensures
        (wrap_u64(x) - x) % (TWO_POW_64 as int) == 0,
{
    lemma_mod_equivalence(wrap_u64(x) as int, x, TWO_POW_64 as int);
    lemma_small_mod(wrap_u64(x) as nat, TWO_POW_64 as nat);
}

/// Sums of congruent terms stay congruent.
pub(crate) proof fn lemma_cong_add(x1: int, x2: int, y1: int, y2: int)
    requires
        (x1 - x2) % (TWO_POW_64 as int) == 0,
        (y1 - y2) % (TWO_POW_64 as int) == 0,
    ensures
        ((x1 + y1) - (x2 + y2)) % (TWO_POW_64 as int) == 0,
{
    let m = TWO_POW_64 as int;
    lemma_mod_equivalence(x1, x2, m);
    lemma_mod_equivalence(y1, y2, m);
    lemma_add_mod_noop(x1, y1, m);
    lemma_add_mod_noop(x2, y2, m);
    lemma_mod_equivalence(x1 + y1, x2 + y2, m);
}

/// Products of congruent factors stay congruent.
pub(crate) proof fn lemma_cong_mul(x1: int, x2: int, y1: int, y2: int)
    requires
        (x1 - x2) % (TWO_POW_64 as int) == 0,
        (y1 - y2) % (TWO_POW_64 as int) == 0,
    ensures
        ((x1 * y1) - (x2 * y2)) % (TWO_POW_64 as int) == 0,
{
    let m = TWO_POW_64 as int;
    lemma_mod_equivalence(x1, x2, m);
    lemma_mod_equivalence(y1, y2, m);
    lemma_mul_mod_noop_general(x1, y1, m);
    lemma_mul_mod_noop_general(x2, y2, m);
    lemma_mod_equivalence(x1 * y1, x2 * y2, m);
}

impl Add for u64 {
    open spec fn add_spec(self, rhs: u64) -> u64 {
        wrap_u64(self as int + rhs as int)
    }

    fn add(self, rhs: u64) -> (r: u64) {
        proof {
            if self as int + rhs as int <= u64::MAX as int {
                lemma_small_mod((self + rhs) as nat, TWO_POW_64 as nat);
            } else {
                lemma_small_mod((self as int + rhs as int - TWO_POW_64 as int) as nat,
                    TWO_POW_64 as nat);
                lemma_mod_equivalence(self as int + rhs as int,
                    self as int + rhs as int - TWO_POW_64 as int, TWO_POW_64 as int);
            }
        }
        self.wrapping_add(rhs)
    }
}

impl AddAssign for u64 {
    fn add_assign(&mut self, rhs: u64) {
        let v = Add::add(*self, rhs);
        *self = v;
    }
}

impl Mul for u64 {
    open spec fn mul_spec(self, rhs: u64) -> u64 {
        wrap_u64(self as int * rhs as int)
    }

    fn mul(self, rhs: u64) -> (r: u64) {
        self.wrapping_mul(rhs)
    }
}

impl MulAssign for u64 {
    fn mul_assign(&mut self, rhs: u64) {
        let v = Mul::mul(*self, rhs);
        *self = v;
    }
}

impl AddAssociative for u64 {
    proof fn add_assoc(a: u64, b: u64, c: u64) {
        let m = TWO_POW_64 as int;
        lemma_wrap_u64_congruence(a as int + b as int);
        lemma_wrap_u64_congruence(b as int + c as int);
        lemma_cong_add(wrap_u64(a as int + b as int) as int, a as int + b as int, c as int,
            c as int);
        lemma_cong_add(a as int, a as int, wrap_u64(b as int + c as int) as int,
            b as int + c as int);
        lemma_wrap_u64_congruent(wrap_u64(a as int + b as int) as int + c as int,
            a as int + b as int + c as int);
        lemma_wrap_u64_congruent(a as int + wrap_u64(b as int + c as int) as int,
            a as int + (b as int + c as int));
    }
}

impl AddCommutative for u64 {
    proof fn add_comm(a: u64, b: u64) {
    }
}

impl MulAssociative for u64 {
    proof fn mul_assoc(a: u64, b: u64, c: u64) {
        lemma_wrap_u64_congruence(a as int * b as int);
        lemma_wrap_u64_congruence(b as int * c as int);
        lemma_cong_mul(wrap_u64(a as int * b as int) as int, a as int * b as int, c as int,
            c as int);
        lemma_cong_mul(a as int, a as int, wrap_u64(b as int * c as int) as int,
            b as int * c as int);
        assert((a as int * b as int) * c as int == a as int * (b as int * c as int))
            by (nonlinear_arith);
        lemma_wrap_u64_congruent(wrap_u64(a as int * b as int) as int * c as int,
            (a as int * b as int) * c as int);
        lemma_wrap_u64_congruent(a as int * wrap_u64(b as int * c as int) as int,
            a as int * (b as int * c as int));
    }
}

impl MulCommutative for u64 {
    proof fn mul_comm(a: u64, b: u64) {
        assert(a as int * b as int == b as int * a as int) by (nonlinear_arith);
    }
}

impl Distributive for u64 {
    proof fn mul_distributes(a: u64, b: u64, c: u64) {
        lemma_wrap_u64_congruence(b as int + c as int);
        lemma_cong_mul(a as int, a as int, wrap_u64(b as int + c as int) as int,
            b as int + c as int);
        assert(a as int * (b as int + c as int) == a as int * b as int + a as int * c as int)
            by (nonlinear_arith);
        lemma_wrap_u64_congruent(a as int * wrap_u64(b as int + c as int) as int,
            a as int * b as int + a as int * c as int);
        lemma_wrap_u64_congruence(a as int * b as int);
        lemma_wrap_u64_congruence(a as int * c as int);
        lemma_cong_add(wrap_u64(a as int * b as int) as int, a as int * b as int,
            wrap_u64(a as int * c as int) as int, a as int * c as int);
        lemma_wrap_u64_congruent(
            wrap_u64(a as int * b as int) as int + wrap_u64(a as int * c as int) as int,
            a as int * b as int + a as int * c as int,
        );
        lemma_wrap_u64_congruence(a as int + b as int);
        lemma_cong_mul(wrap_u64(a as int + b as int) as int, a as int + b as int, c as int,
            c as int);
        assert((a as int + b as int) * c as int == a as int * c as int + b as int * c as int)
            by (nonlinear_arith);
        lemma_wrap_u64_congruent(wrap_u64(a as int + b as int) as int * c as int,
            a as int * c as int + b as int * c as int);
        lemma_wrap_u64_congruence(b as int * c as int);
        lemma_cong_add(wrap_u64(a as int * c as int) as int, a as int * c as int,
            wrap_u64(b as int * c as int) as int, b as int * c as int);
        lemma_wrap_u64_congruent(
            wrap_u64(a as int * c as int) as int + wrap_u64(b as int * c as int) as int,
            a as int * c as int + b as int * c as int,
        );
    }
}

impl Zero for u64 {
    open spec fn zero_spec() -> u64 {
        0
    }

    proof fn add_zero(a: u64) {
        lemma_wrap_u64_identity(a);
    }

    fn zero() -> u64 {
        0
    }

    fn is_zero(&self) -> bool {
        *self == 0
    }
}

impl One for u64 {
    open spec fn one_spec() -> u64 {
        1
    }

    proof fn mul_one(a: u64) {
        assert(a as int * 1 == a as int) by (nonlinear_arith);
        assert(1 * (a as int) == a as int) by (nonlinear_arith);
        lemma_wrap_u64_identity(a);
    }

    fn one() -> u64 {
        1
    }

    fn is_one(&self) -> bool {
        *self == 1
    }
}

impl IsZero for u64 {
    open spec fn zero_probe_spec(&self) -> bool {
        *self == 0
    }

    fn zero_probe(&self) -> bool {
        *self == 0
    }
}

impl EuclideanDiv for u64 {
    type Naturals = u64;

    open spec fn norm_spec(&self) -> nat {
        *self as nat
    }

    open spec fn quot_spec(self, rhs: u64) -> u64 {
        (self as int / rhs as int) as u64
    }

    open spec fn rem_spec(self, rhs: u64) -> u64 {
        (self as int % rhs as int) as u64
    }

    proof fn lemma_div_alg(a: u64, b: u64) {
        lemma_fundamental_div_mod(a as int, b as int);
        lemma_mod_bound(a as int, b as int);
        let q = a as int / b as int;
        let r = a as int % b as int;
        assert(q * b as int <= a as int) by (nonlinear_arith)
            requires
                b as int > 0,
                a as int == q * b as int + r,
                r >= 0,
                q >= 0,
        ;
        assert(q >= 0) by (nonlinear_arith)
            requires
                b as int > 0,
                a as int >= 0,
                a as int == q * b as int + r,
                r < b as int,
        ;
        assert(q <= q * b as int) by (nonlinear_arith)
            requires
                b as int >= 1,
                q >= 0,
        ;
        lemma_small_mod((q * b as int) as nat, TWO_POW_64 as nat);
        lemma_small_mod(q as nat, TWO_POW_64 as nat);
        lemma_small_mod(a as nat, TWO_POW_64 as nat);
        assert(q * b as int == b as int * q) by (nonlinear_arith);
        assert(a as int == q * b as int + r);
        assert(a.quot_spec(b) as int == q);
        assert(a.quot_spec(b).mul_spec(b) as int == q * b as int);
        assert(a.quot_spec(b).mul_spec(b).add_spec(a.rem_spec(b)) as int == wrap_u64(
            q * b as int + r,
        ) as int);
    }

    proof fn lemma_norm_zero(a: u64) {
    }

    fn euclid_norm(&self) -> u64 {
        *self
    }

    fn div_euc(self, rhs: u64) -> u64 {
        self / rhs
    }

    fn rem_euc(self, rhs: u64) -> u64 {
        self % rhs
    }

    fn div_alg(self, rhs: u64) -> (u64, u64) {
        (self / rhs, self % rhs)
    }
}

impl GCD for u64 {
    open spec fn gcd_spec(self, rhs: u64) -> u64 {
        if self == 0 || rhs == 0 {
            0
        } else {
            gcd_nat(self as nat, rhs as nat) as u64
        }
    }

    open spec fn lcm_ok(self, rhs: u64) -> bool {
        self > 0 && rhs > 0 && (self as nat / gcd_nat(self as nat, rhs as nat)) * (rhs as nat)
            <= u64::MAX as nat
    }

    open spec fn lcm_spec(self, rhs: u64) -> u64 {
        ((self as nat / gcd_nat(self as nat, rhs as nat)) * (rhs as nat)) as u64
    }

    fn gcd(self, rhs: u64) -> (r: u64) {
        let g = euclidean(self, rhs);
        proof {
            if self != 0 && rhs != 0 {
                lemma_gcd_nat_divides(self as nat, rhs as nat);
                if self >= rhs {
                    lemma_gcd_rec_u64(self, rhs);
                } else {
                    lemma_gcd_rec_u64(rhs, self);
                    lemma_gcd_nat_sym(self as nat, rhs as nat);
                }
            }
        }
        g
    }

    fn lcm(self, rhs: u64) -> (r: u64) {
        let g = self.gcd(rhs);
        proof {
            lemma_gcd_nat_divides(self as nat, rhs as nat);
        }
        (self / g) * rhs
    }
}

/// The defining product law of gcd and lcm: `gcd(a,b) * lcm(a,b)` is
/// exactly `a * b` wherever the least common multiple is defined.
pub proof fn lemma_gcd_lcm_product(a: u64, b: u64)
    requires
        a.lcm_ok(b),
    ensures
        (a.gcd_spec(b) as nat) * (a.lcm_spec(b) as nat) == (a as nat) * (b as nat),
{
    lemma_gcd_nat_divides(a as nat, b as nat);
    lemma_gcd_nat_lcm_product(a as nat, b as nat);
}

/// Determinism of the gcd: argument order is irrelevant.
pub proof fn lemma_gcd_u64_commutes(a: u64, b: u64)
    ensures
        a.gcd_spec(b) == b.gcd_spec(a),
{
    lemma_gcd_nat_sym(a as nat, b as nat);
}

} // verus!
