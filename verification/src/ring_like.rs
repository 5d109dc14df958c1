//! Capability traits for ring-like structures, and the Euclidean engine.
//!
//! `euclidean` computes greatest common divisors by repeated division with
//! remainder over any commutative semiring that offers a Euclidean norm;
//! `extended_euclidean` additionally returns Bezout coefficients, proved to
//! satisfy `x*a + y*b == g` exactly from the ring axioms alone. Both are
//! recursive like the remainder chain they follow; the recursion depth is
//! bounded by the strictly decreasing Euclidean norm.

use vstd::prelude::*;

use crate::group_like::{
    AddAbelianGroup, AddCommutative, AddGroup, AddMonoid, MulCommutative, MulGroup, MulMonoid,
    MulSemigroup, One, Zero,
};
use crate::natural::Natural;
use crate::ops::{Add, Mul};

verus! {

/// Multiplication distributes over addition, on both sides.
pub trait Distributive: Add + Mul {
    proof fn mul_distributes(a: Self, b: Self, c: Self)
        ensures
            a.mul_spec(b.add_spec(c)) == a.mul_spec(b).add_spec(a.mul_spec(c)),
            (a.add_spec(b)).mul_spec(c) == a.mul_spec(c).add_spec(b.mul_spec(c)),
    ;
}

/// Divisibility queries of a ring element; each implementation pins the
/// executable answers to its own specification functions.
pub trait Divisibility: Sized {
    /// Whether some element `x` satisfies `self * x == rhs`.
    spec fn divides_spec(self, rhs: Self) -> bool;

    /// The witness `divide` returns, when one exists.
    spec fn divide_spec(self, rhs: Self) -> Option<Self>;

    /// Whether this element has a multiplicative inverse.
    spec fn unit_spec(&self) -> bool;

    /// The inverse `inverse` returns, when one exists.
    spec fn inverse_spec(self) -> Option<Self>;

    /// Determines if there exists an element `x` such that `self*x` = `rhs`.
    fn divides(self, rhs: Self) -> (r: bool)
        ensures
            r == self.divides_spec(rhs),
    ;

    /// Finds an element `x` such that `self*x` = `rhs` if such an element
    /// exists.
    fn divide(self, rhs: Self) -> (r: Option<Self>)
        ensures
            r == self.divide_spec(rhs),
    ;

    /// Determines if this element has a multiplicative inverse.
    fn unit(&self) -> (r: bool)
        ensures
            r == self.unit_spec(),
    ;

    /// Finds this element's multiplicative inverse if it exists.
    fn inverse(self) -> (r: Option<Self>)
        ensures
            r == self.inverse_spec(),
    ;
}

/// Primality and irreducibility queries, pinned per implementation.
pub trait Primality: Divisibility {
    spec fn irreducible_spec(&self) -> bool;

    spec fn prime_spec(&self) -> bool;

    fn irreducible(&self) -> (r: bool)
        ensures
            r == self.irreducible_spec(),
    ;

    fn prime(&self) -> (r: bool)
        ensures
            r == self.prime_spec(),
    ;
}

/// A marker promising that no two nonzero elements multiply to zero.
///
/// The promise concerns the idealized value domain a type stands for and
/// carries no proof obligation here.
pub trait NoZeroDivisors {

}

/// A marker promising factorizations are unique up to units.
pub trait UniquelyFactorizable: Sized {

}

/// A trait for finding the greatest common divisor and least common
/// multiple of two elements.
pub trait GCD: Sized {
    /// What `gcd` returns.
    spec fn gcd_spec(self, rhs: Self) -> Self;

    /// On which operands the least common multiple is defined and fits.
    spec fn lcm_ok(self, rhs: Self) -> bool;

    /// What `lcm` returns.
    spec fn lcm_spec(self, rhs: Self) -> Self;

    fn gcd(self, rhs: Self) -> (r: Self)
        ensures
            r == self.gcd_spec(rhs),
    ;

    fn lcm(self, rhs: Self) -> (r: Self)
        requires
            self.lcm_ok(rhs),
        ensures
            r == self.lcm_spec(rhs),
    ;
}

/// A trait for finding the Bezout coefficients of a pair of elements: a
/// weighted sum of the operands that reaches their greatest common divisor
/// exactly.
pub trait Bezout: GCD + Add + Mul {
    fn bezout_with_gcd(self, rhs: Self) -> (r: (Self, Self, Self))
        ensures
            r.2 == self.gcd_spec(rhs),
            r.0.mul_spec(self).add_spec(r.1.mul_spec(rhs)) == r.2,
    ;

    fn bezout_coefficients(self, rhs: Self) -> (r: (Self, Self))
        ensures
            r.0.mul_spec(self).add_spec(r.1.mul_spec(rhs)) == self.gcd_spec(rhs),
    {
        let (a, b, _g) = self.bezout_with_gcd(rhs);
        (a, b)
    }
}

/// Factorization into irreducible elements, pinned per implementation.
pub trait Factorizable: Sized {
    /// The factor list `factors` returns.
    spec fn factors_spec(self) -> Seq<Self>;

    fn factors(self) -> (r: Vec<Self>)
        ensures
            r@ == self.factors_spec(),
    ;
}

/// A trait for performing division with remainder.
///
/// The norm is a non-negative, well-ordered size that vanishes exactly on
/// zero and strictly shrinks along the remainder chain, which is what
/// terminates the Euclidean algorithm.
pub trait EuclideanDiv: Zero + Mul + Copy {
    /// The unsigned capability carrying the norm.
    type Naturals: Natural;

    /// The Euclidean norm of this element.
    spec fn norm_spec(&self) -> nat;

    /// The quotient of division with remainder.
    spec fn quot_spec(self, rhs: Self) -> Self;

    /// The remainder of division with remainder.
    spec fn rem_spec(self, rhs: Self) -> Self;

    /// Division with remainder reconstructs the dividend, and the
    /// remainder is strictly smaller in norm than the divisor.
    proof fn lemma_div_alg(a: Self, b: Self)
        requires
            b.norm_spec() > 0,
        ensures
            a == a.quot_spec(b).mul_spec(b).add_spec(a.rem_spec(b)),
            a.rem_spec(b).norm_spec() < b.norm_spec(),
    ;

    /// The norm vanishes exactly on zero.
    proof fn lemma_norm_zero(a: Self)
        ensures
            (a.norm_spec() == 0) == (a == Self::zero_spec()),
    ;

    fn euclid_norm(&self) -> (r: Self::Naturals)
        ensures
            r.nat_of() == self.norm_spec(),
    ;

    fn div_euc(self, rhs: Self) -> (r: Self)
        requires
            rhs.norm_spec() > 0,
        ensures
            r == self.quot_spec(rhs),
    ;

    fn rem_euc(self, rhs: Self) -> (r: Self)
        requires
            rhs.norm_spec() > 0,
        ensures
            r == self.rem_spec(rhs),
    ;

    fn div_alg(self, rhs: Self) -> (r: (Self, Self))
        requires
            rhs.norm_spec() > 0,
        ensures
            r.0 == self.quot_spec(rhs),
            r.1 == self.rem_spec(rhs),
    ;
}

/// The exponential of a ring element.
///
/// `exp(x)` is defined so that `exp(x+y) == exp(x)*exp(y)` whenever `x`
/// and `y` commute, `exp(x) != 0`, and `exp` is continuous where
/// continuity applies; `try_ln` is an inverse with `ln(1) == 0`, `None`
/// where no inverse exists. No machine type of this crate implements it.
pub trait Exponential: Sized {
    fn exp(self) -> Self;

    fn try_ln(self) -> Option<Self>;
}

/// A commutative and additive monoid with a distributive and associative
/// multiplication operation.
pub trait Semiring: Distributive + AddMonoid + AddCommutative + MulSemigroup {

}

impl<T: Distributive + AddMonoid + AddCommutative + MulSemigroup> Semiring for T {

}

/// A semiring with an identity element.
pub trait UnitalSemiring: Semiring + MulMonoid {

}

impl<T: Semiring + MulMonoid> UnitalSemiring for T {

}

/// A unital semiring where multiplication is commutative.
pub trait CommutativeSemiring: UnitalSemiring + MulCommutative {

}

impl<T: UnitalSemiring + MulCommutative> CommutativeSemiring for T {

}

/// A semiring with a multiplicative inverse.
pub trait DivisionSemiring: UnitalSemiring + MulGroup {

}

impl<T: UnitalSemiring + MulGroup> DivisionSemiring for T {

}

/// An additive abelian group with a distributive and associative
/// multiplication operation.
pub trait Ring: Distributive + AddAbelianGroup + MulSemigroup {

}

impl<T: Distributive + AddAbelianGroup + MulSemigroup> Ring for T {

}

/// A ring with an identity element.
pub trait UnitalRing: Ring + MulMonoid {

}

impl<T: Ring + MulMonoid> UnitalRing for T {

}

/// A unital ring where multiplication is commutative.
pub trait CommutativeRing: UnitalRing + MulCommutative {

}

impl<T: UnitalRing + MulCommutative> CommutativeRing for T {

}

/// A ring with a multiplicative inverse.
pub trait DivisionRing: UnitalRing + MulGroup {

}

impl<T: UnitalRing + MulGroup> DivisionRing for T {

}

/// A ring with an exponential operation.
pub trait ExponentialRing: UnitalRing + Exponential {

}

impl<T: UnitalRing + Exponential> ExponentialRing for T {

}

/// A unital semiring with no pairs of nonzero elements that multiply to
/// zero.
pub trait Semidomain: UnitalSemiring + Divisibility + NoZeroDivisors {

}

impl<T: UnitalSemiring + Divisibility + NoZeroDivisors> Semidomain for T {

}

/// A semidomain that is commutative.
pub trait IntegralSemidomain: Semidomain + MulCommutative {

}

impl<T: Semidomain + MulCommutative> IntegralSemidomain for T {

}

/// An integral semidomain where every pair of elements has a greatest
/// common divisor.
pub trait GCDSemidomain: IntegralSemidomain + GCD {

}

impl<T: IntegralSemidomain + GCD> GCDSemidomain for T {

}

/// A GCD semidomain where every pair of elements factors uniquely into
/// irreducible elements, up to units.
pub trait UFSemidomain: GCDSemidomain + UniquelyFactorizable {

}

impl<T: GCDSemidomain + UniquelyFactorizable> UFSemidomain for T {

}

/// A UF semidomain with a division algorithm for dividing with remainder.
pub trait EuclideanSemidomain: UFSemidomain + EuclideanDiv {

}

impl<T: UFSemidomain + EuclideanDiv> EuclideanSemidomain for T {

}

/// A unital ring with no pairs of nonzero elements that multiply to zero.
pub trait Domain: UnitalRing + Divisibility + NoZeroDivisors {

}

impl<T: UnitalRing + Divisibility + NoZeroDivisors> Domain for T {

}

/// A domain that is commutative.
pub trait IntegralDomain: Domain + MulCommutative {

}

impl<T: Domain + MulCommutative> IntegralDomain for T {

}

/// A commutative ring where every pair of elements has a greatest common
/// divisor.
pub trait GCDDomain: IntegralDomain + GCD {

}

impl<T: IntegralDomain + GCD> GCDDomain for T {

}

/// A commutative ring where every pair of elements has a weighted sum to
/// their GCD.
pub trait BezoutDomain: GCDDomain + Bezout {

}

impl<T: GCDDomain + Bezout> BezoutDomain for T {

}

/// A commutative ring that factors uniquely into irreducibles, up to
/// units.
pub trait UFD: GCDDomain + UniquelyFactorizable {

}

impl<T: GCDDomain + UniquelyFactorizable> UFD for T {

}

/// An integral domain where every ideal is generated by one element: a
/// UFD that is Bezout.
pub trait PID: UFD + BezoutDomain {

}

impl<T: UFD + BezoutDomain> PID for T {

}

/// A commutative ring with a division algorithm for dividing with
/// remainder.
pub trait EuclideanDomain: PID + EuclideanDiv {

}

impl<T: PID + EuclideanDiv> EuclideanDomain for T {

}

/// A set that is both an additive and multiplicative abelian group where
/// multiplication distributes.
pub trait Field: CommutativeRing + MulGroup {

}

impl<T: CommutativeRing + MulGroup> Field for T {

}

/// A field with an exponential operation.
pub trait ExponentialField: Field + Exponential {

}

impl<T: Field + Exponential> ExponentialField for T {

}

/// The remainder chain of the Euclidean algorithm: the last divisor whose
/// remainder vanishes.
pub open spec fn gcd_rec<T: EuclideanDiv>(a: T, b: T) -> T
    decreases b.norm_spec(),
        when b.norm_spec() > 0
        via gcd_rec_decreases::<T>
{
    if a.rem_spec(b) == T::zero_spec() {
        b
    } else {
        gcd_rec(b, a.rem_spec(b))
    }
}

#[via_fn]
proof fn gcd_rec_decreases<T: EuclideanDiv>(a: T, b: T) {
    T::lemma_div_alg(a, b);
    if a.rem_spec(b) != T::zero_spec() {
        T::lemma_norm_zero(a.rem_spec(b));
    }
}

/// What `euclidean` returns: zero when either operand is zero (a
/// deliberate convention of this library), otherwise the remainder chain
/// seeded with the operand of larger norm first.
pub open spec fn euclidean_spec<T: CommutativeSemiring + EuclideanDiv>(lhs: T, rhs: T) -> T {
    if lhs == T::zero_spec() || rhs == T::zero_spec() {
        T::zero_spec()
    } else if lhs.norm_spec() >= rhs.norm_spec() {
        gcd_rec(lhs, rhs)
    } else {
        gcd_rec(rhs, lhs)
    }
}

fn euclid<U: CommutativeSemiring + EuclideanDiv>(a: U, b: U) -> (r: U)
    requires
        b.norm_spec() > 0,
    ensures
        r == gcd_rec(a, b),
    decreases b.norm_spec(),
{
    proof {
        U::lemma_div_alg(a, b);
        U::lemma_norm_zero(a.rem_spec(b));
    }
    let r = a.rem_euc(b);
    if r.is_zero() {
        b
    } else {
        euclid(b, r)
    }
}

/// Uses the Euclidean algorithm to find the greatest common divisor of two
/// ring elements using division with remainder.
///
/// A zero operand short-circuits to zero: the GCD of anything with zero is
/// defined here as zero, not the other operand, a deliberate convention
/// callers must be aware of.
pub fn euclidean<T: CommutativeSemiring + EuclideanDiv>(lhs: T, rhs: T) -> (r: T)
    ensures
        r == euclidean_spec(lhs, rhs),
{
    if lhs.is_zero() || rhs.is_zero() {
        return T::zero();
    }
    proof {
        T::lemma_norm_zero(lhs);
        T::lemma_norm_zero(rhs);
    }
    let nl = lhs.euclid_norm();
    let nr = rhs.euclid_norm();
    if !nl.lt(&nr) {
        euclid(lhs, rhs)
    } else {
        euclid(rhs, lhs)
    }
}

/// Adding a common term on the right cancels.
proof fn lemma_add_cancel<T: AddGroup>(x: T, y: T, c: T)
    requires
        x.add_spec(c) == y.add_spec(c),
    ensures
        x == y,
{
    T::add_assoc(x, c, c.neg_spec());
    T::add_assoc(y, c, c.neg_spec());
    T::add_neg(c);
    T::add_zero(x);
    T::add_zero(y);
}

/// Zero annihilates under multiplication in any ring.
proof fn lemma_zero_mul<T: Ring>(a: T)
    ensures
        T::zero_spec().mul_spec(a) == T::zero_spec(),
        a.mul_spec(T::zero_spec()) == T::zero_spec(),
{
    let z = T::zero_spec();
    T::add_zero(z);
    // z*a == (z+z)*a == z*a + z*a, so z*a + z == z*a + z*a, and cancellation
    // (using commutativity to cancel on the right) gives z == z*a
    T::mul_distributes(z, z, a);
    T::add_zero(z.mul_spec(a));
    T::add_comm(z, z.mul_spec(a));
    lemma_add_cancel(z.mul_spec(a), z, z.mul_spec(a));
    T::mul_distributes(a, z, z);
    T::add_zero(a.mul_spec(z));
    T::add_comm(z, a.mul_spec(z));
    lemma_add_cancel(a.mul_spec(z), z, a.mul_spec(z));
}

/// A negated factor negates the product.
proof fn lemma_neg_mul<T: Ring>(u: T, v: T)
    ensures
        u.neg_spec().mul_spec(v) == u.mul_spec(v).neg_spec(),
{
    let t = u.neg_spec().mul_spec(v);
    let s = u.mul_spec(v);
    // (−u + u)·v == 0·v == 0, so t + s == 0
    T::mul_distributes(u.neg_spec(), u, v);
    T::add_neg(u);
    lemma_zero_mul::<T>(v);
    // t == t + (s + −s) == (t + s) + −s == 0 + −s == −s
    T::add_neg(s);
    T::add_zero(t);
    T::add_assoc(t, s, s.neg_spec());
    T::add_zero(s.neg_spec());
}

/// One unwinding step of the extended Euclidean algorithm preserves the
/// Bezout identity: from `a == q*b + rem` and `x1*b + y1*rem == g` it
/// follows that `y1*a + (x1 - q*y1)*b == g`.
proof fn lemma_bezout_step<U: CommutativeRing + EuclideanDiv>(
    a: U,
    b: U,
    q: U,
    rem: U,
    x1: U,
    y1: U,
    g: U,
)
    requires
        a == q.mul_spec(b).add_spec(rem),
        x1.mul_spec(b).add_spec(y1.mul_spec(rem)) == g,
    ensures
        y1.mul_spec(a).add_spec((x1.sub_spec(q.mul_spec(y1))).mul_spec(b)) == g,
{
    let qb = q.mul_spec(b);
    let yr = y1.mul_spec(rem);
    let qy = q.mul_spec(y1);
    let xb = x1.mul_spec(b);
    let wb = qy.mul_spec(b);
    let nw = wb.neg_spec();

    // y1·a == y1·(q·b) + y1·rem, and y1·(q·b) == (q·y1)·b == wb
    U::mul_distributes(y1, qb, rem);
    U::mul_assoc(y1, q, b);
    U::mul_comm(y1, q);
    assert(y1.mul_spec(a) == wb.add_spec(yr));

    // (x1 − q·y1)·b == x1·b + (−(q·y1))·b == xb + (−wb)
    U::sub_is_add_neg(x1, qy);
    U::mul_distributes(x1, qy.neg_spec(), b);
    lemma_neg_mul::<U>(qy, b);
    assert((x1.sub_spec(qy)).mul_spec(b) == xb.add_spec(nw));

    // (wb + yr) + (xb + nw) == (xb + yr) + (wb + nw) == g + 0 == g
    U::add_assoc(wb.add_spec(yr), xb, nw);
    U::add_comm(wb, yr);
    U::add_assoc(yr, wb, xb);
    U::add_comm(wb, xb);
    U::add_assoc(yr, xb, wb);
    assert((wb.add_spec(yr)).add_spec(xb) == (yr.add_spec(xb)).add_spec(wb));
    U::add_assoc(yr.add_spec(xb), wb, nw);
    U::add_neg(wb);
    U::add_zero(yr.add_spec(xb));
    U::add_comm(yr, xb);
    assert((wb.add_spec(yr)).add_spec(xb.add_spec(nw)) == g);
}

fn euclid_ext<U: CommutativeRing + EuclideanDiv>(a: U, b: U) -> (r: (U, U, U))
    requires
        b.norm_spec() > 0,
    ensures
        r.2 == gcd_rec(a, b),
        r.0.mul_spec(a).add_spec(r.1.mul_spec(b)) == r.2,
    decreases b.norm_spec(),
{
    proof {
        U::lemma_div_alg(a, b);
        U::lemma_norm_zero(a.rem_spec(b));
    }
    let (q, rem) = a.div_alg(b);
    if rem.is_zero() {
        proof {
            // 0·a + 1·b == 0 + b == b
            lemma_zero_mul::<U>(a);
            U::mul_one(b);
            U::add_zero(b);
        }
        (U::zero(), U::one(), b)
    } else {
        let (x1, y1, g) = euclid_ext(b, rem);
        let qy = q.mul(y1);
        let x2 = x1.sub(qy);
        proof {
            lemma_bezout_step(a, b, q, rem, x1, y1, g);
        }
        (y1, x2, g)
    }
}

/// Uses the extended Euclidean algorithm to find the greatest common
/// divisor of two ring elements and their Bezout coefficients using
/// division with remainder: the result `(x, y, g)` satisfies
/// `x*lhs + y*rhs == g` exactly.
///
/// Like `euclidean`, a zero operand short-circuits to an all-zero result.
pub fn extended_euclidean<T: CommutativeRing + EuclideanDiv>(lhs: T, rhs: T) -> (r: (T, T, T))
    ensures
        r.2 == euclidean_spec(lhs, rhs),
        r.0.mul_spec(lhs).add_spec(r.1.mul_spec(rhs)) == r.2,
{
    if lhs.is_zero() || rhs.is_zero() {
        proof {
            lemma_zero_mul::<T>(lhs);
            lemma_zero_mul::<T>(rhs);
            T::add_zero(T::zero_spec());
        }
        return (T::zero(), T::zero(), T::zero());
    }
    proof {
        T::lemma_norm_zero(lhs);
        T::lemma_norm_zero(rhs);
    }
    let nl = lhs.euclid_norm();
    let nr = rhs.euclid_norm();
    if !nl.lt(&nr) {
        euclid_ext(lhs, rhs)
    } else {
        let (y, x, g) = euclid_ext(rhs, lhs);
        proof {
            T::add_comm(y.mul_spec(rhs), x.mul_spec(lhs));
        }
        (x, y, g)
    }
}

/// The Euclidean GCD is insensitive to argument order whenever the two
/// norms differ or the operands are equal: both orders reduce the operand
/// of larger norm first. (With equal norms on distinct operands the two
/// orders may return different associates of the same divisor.)
pub proof fn lemma_euclidean_commutes<T: CommutativeSemiring + EuclideanDiv>(a: T, b: T)
    requires
        a.norm_spec() != b.norm_spec() || a == b,
    ensures
        euclidean_spec(a, b) == euclidean_spec(b, a),
{
}

} // verus!
