//! The greatest common divisor over the natural numbers, and its laws.
//!
//! `gcd_nat` is the mathematical remainder chain; the machine-integer
//! implementations of the `GCD` capability pin their results to it, and
//! the laws here (symmetry, divisibility, the product identity with the
//! least common multiple) transfer to those implementations.

use vstd::prelude::*;
use vstd::arithmetic::div_mod::{
    lemma_add_mod_noop, lemma_fundamental_div_mod, lemma_mod_bound, lemma_mod_self_0,
    lemma_mul_mod_noop_left, lemma_small_mod,
};

use crate::ring_like::{gcd_rec, EuclideanDiv};

verus! {

/// The greatest common divisor of two naturals, by Euclid's remainder
/// chain; `gcd_nat(a, 0) == a`.
pub open spec fn gcd_nat(a: nat, b: nat) -> nat
    decreases b,
{
    if b == 0 {
        a
    } else {
        gcd_nat(b, a % b)
    }
}

/// The gcd divides both operands, is positive when one of them is, and is
/// bounded by each positive operand.
pub proof fn lemma_gcd_nat_divides(a: nat, b: nat)
    requires
        a > 0 || b > 0,
    ensures
        gcd_nat(a, b) > 0,
        a % gcd_nat(a, b) == 0,
        b % gcd_nat(a, b) == 0,
        a > 0 ==> gcd_nat(a, b) <= a,
        b > 0 ==> gcd_nat(a, b) <= b,
    decreases b,
{
    if b == 0 {
        lemma_mod_self_0(a as int);
        lemma_small_mod(0nat, a);
    } else {
        lemma_mod_bound(a as int, b as int);
        lemma_gcd_nat_divides(b, a % b);
        let g = gcd_nat(b, a % b);
        // a == b*(a/b) + a%b, and both summands vanish modulo g
        lemma_fundamental_div_mod(a as int, b as int);
        lemma_mul_mod_noop_left(b as int, a as int / b as int, g as int);
        assert((0int * (a as int / b as int)) % (g as int) == 0) by (nonlinear_arith)
            requires
                g > 0,
        ;
        lemma_add_mod_noop(b as int * (a as int / b as int), (a % b) as int, g as int);
        lemma_small_mod(0nat, g);
        // the bound: a positive multiple of g is at least g
        if a > 0 {
            lemma_fundamental_div_mod(a as int, g as int);
            assert(g as int * (a as int / g as int) >= g) by (nonlinear_arith)
                requires
                    g > 0,
                    a as int == g as int * (a as int / g as int),
                    a > 0,
            ;
        }
    }
}

/// The gcd is symmetric in its operands.
pub proof fn lemma_gcd_nat_sym(a: nat, b: nat)
    ensures
        gcd_nat(a, b) == gcd_nat(b, a),
    decreases a + b,
{
    if a == 0 || b == 0 || a == b {
        if a == 0 && b > 0 {
            lemma_small_mod(0nat, b);
        }
        if b == 0 && a > 0 {
            lemma_small_mod(0nat, a);
        }
        if a == b && a > 0 {
            lemma_mod_self_0(a as int);
        }
    } else if a < b {
        lemma_small_mod(a, b);
        assert(gcd_nat(a, b) == gcd_nat(b, a % b));
    } else {
        lemma_small_mod(b, a);
        assert(gcd_nat(b, a) == gcd_nat(a, b % a));
    }
}

/// Over `u64`, the generic remainder chain computes the mathematical gcd.
pub proof fn lemma_gcd_rec_u64(a: u64, b: u64)
    requires
        b > 0,
    ensures
        gcd_rec(a, b) as nat == gcd_nat(a as nat, b as nat),
    decreases b,
{
    lemma_mod_bound(a as int, b as int);
    assert(a.rem_spec(b) == (a as nat % b as nat) as u64);
    assert(gcd_nat(a as nat, b as nat) == gcd_nat(b as nat, a as nat % b as nat));
    if a % b == 0 {
        lemma_small_mod(0nat, b as nat);
        assert(gcd_nat(b as nat, 0) == b as nat);
        assert(gcd_rec(a, b) == b);
    } else {
        lemma_gcd_rec_u64(b, a % b);
        assert(gcd_rec(a, b) == gcd_rec(b, a % b));
    }
}

/// The gcd times the least common multiple `(a / g) * b` is exactly the
/// product of the operands.
pub proof fn lemma_gcd_nat_lcm_product(a: nat, b: nat)
    requires
        a > 0,
        b > 0,
    ensures
        gcd_nat(a, b) * ((a / gcd_nat(a, b)) * b) == a * b,
{
    let g = gcd_nat(a, b);
    lemma_gcd_nat_divides(a, b);
    lemma_fundamental_div_mod(a as int, g as int);
    assert(g as int * ((a as int / g as int) * b as int) == (g as int * (a as int / g as int))
        * b as int) by (nonlinear_arith);
    assert((a / g) as int == a as int / g as int);
}

} // verus!
