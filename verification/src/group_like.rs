//! Capability traits for group-like structures, and the generalized
//! exponentiation engine.
//!
//! The additive and multiplicative hierarchies mirror one another: a magma
//! supplies the operation, the `*Associative` / `*Commutative` traits carry
//! the corresponding laws as proof obligations, `Zero` / `One` supply
//! identities, and `Negatable` / `Invertable` supply inverses. The engine
//! computes `b` combined with itself `p` times in `O(log p)` applications
//! of the operation, for any associative operation.

use vstd::prelude::*;

use crate::natural::{IntegerSubset, Natural};
use crate::ops::{Add, AddAssign, Div, DivAssign, Inv, Mul, MulAssign, Neg, Sub, SubAssign};

verus! {

/// An addition whose specification is associative.
pub trait AddAssociative: Add {
    proof fn add_assoc(a: Self, b: Self, c: Self)
        ensures
            (a.add_spec(b)).add_spec(c) == a.add_spec(b.add_spec(c)),
    ;
}

/// An addition whose specification is commutative.
pub trait AddCommutative: Add {
    proof fn add_comm(a: Self, b: Self)
        ensures
            a.add_spec(b) == b.add_spec(a),
    ;
}

/// An additive identity element.
pub trait Zero: Add {
    spec fn zero_spec() -> Self;

    proof fn add_zero(a: Self)
        ensures
            a.add_spec(Self::zero_spec()) == a,
            Self::zero_spec().add_spec(a) == a,
    ;

    fn zero() -> (r: Self)
        ensures
            r == Self::zero_spec(),
    ;

    fn is_zero(&self) -> (r: bool)
        ensures
            r == (*self == Self::zero_spec()),
    ;
}

/// A fully described additive inverse.
pub trait Negatable: Zero + Sub + SubAssign + Neg {
    proof fn add_neg(a: Self)
        ensures
            a.add_spec(a.neg_spec()) == Self::zero_spec(),
            a.neg_spec().add_spec(a) == Self::zero_spec(),
    ;

    proof fn sub_is_add_neg(a: Self, b: Self)
        ensures
            a.sub_spec(b) == a.add_spec(b.neg_spec()),
    ;
}

/// A multiplication whose specification is associative.
pub trait MulAssociative: Mul {
    proof fn mul_assoc(a: Self, b: Self, c: Self)
        ensures
            (a.mul_spec(b)).mul_spec(c) == a.mul_spec(b.mul_spec(c)),
    ;
}

/// A multiplication whose specification is commutative.
pub trait MulCommutative: Mul {
    proof fn mul_comm(a: Self, b: Self)
        ensures
            a.mul_spec(b) == b.mul_spec(a),
    ;
}

/// A multiplicative identity element.
pub trait One: Mul {
    spec fn one_spec() -> Self;

    proof fn mul_one(a: Self)
        ensures
            a.mul_spec(Self::one_spec()) == a,
            Self::one_spec().mul_spec(a) == a,
    ;

    fn one() -> (r: Self)
        ensures
            r == Self::one_spec(),
    ;

    fn is_one(&self) -> (r: bool)
        ensures
            r == (*self == Self::one_spec()),
    ;
}

/// A fully described multiplicative inverse: every element of the type has
/// one, as in the nonzero part of a field or the sign group.
pub trait Invertable: One + Div + DivAssign + Inv {
    proof fn mul_inv(a: Self)
        ensures
            a.mul_spec(a.inv_spec()) == Self::one_spec(),
            a.inv_spec().mul_spec(a) == Self::one_spec(),
    ;
}

/// The zero probe behind the `0^0` check of the exponentiation engine.
///
/// A type that carries an additive zero reports it here; a type without
/// one answers `false` for every value, which leaves the engine's
/// power-of-zero contract trivially satisfied.
pub trait IsZero: Sized {
    spec fn zero_probe_spec(&self) -> bool;

    fn zero_probe(&self) -> (r: bool)
        ensures
            r == self.zero_probe_spec(),
    ;
}

/// A set with an addition operation.
pub trait AddMagma: Add + AddAssign {

}

impl<T: Add + AddAssign> AddMagma for T {

}

/// An associative additive magma.
pub trait AddSemigroup: AddMagma + AddAssociative {

}

impl<T: AddMagma + AddAssociative> AddSemigroup for T {

}

/// An additive semigroup with an identity element.
pub trait AddMonoid: AddSemigroup + Zero {

}

impl<T: AddSemigroup + Zero> AddMonoid for T {

}

/// An additive magma with an inverse operation and identity.
pub trait AddLoop: AddMagma + Negatable {

}

impl<T: AddMagma + Negatable> AddLoop for T {

}

/// An additive monoid with an inverse operation.
pub trait AddGroup: AddSemigroup + Negatable {

}

impl<T: AddSemigroup + Negatable> AddGroup for T {

}

/// A commutative additive group.
pub trait AddAbelianGroup: AddGroup + AddCommutative {

}

impl<T: AddGroup + AddCommutative> AddAbelianGroup for T {

}

/// A set with a multiplication operation.
pub trait MulMagma: Mul + MulAssign {

}

impl<T: Mul + MulAssign> MulMagma for T {

}

/// An associative multiplicative magma.
pub trait MulSemigroup: MulMagma + MulAssociative {

}

impl<T: MulMagma + MulAssociative> MulSemigroup for T {

}

/// A multiplicative semigroup with an identity element.
pub trait MulMonoid: MulSemigroup + One {

}

impl<T: MulSemigroup + One> MulMonoid for T {

}

/// A multiplicative magma with an inverse operation and identity.
pub trait MulLoop: MulMagma + Invertable {

}

impl<T: MulMagma + Invertable> MulLoop for T {

}

/// A multiplicative monoid with an inverse operation.
pub trait MulGroup: MulSemigroup + Invertable {

}

impl<T: MulSemigroup + Invertable> MulGroup for T {

}

/// A commutative multiplicative group.
pub trait MulAbelianGroup: MulGroup + MulCommutative {

}

impl<T: MulGroup + MulCommutative> MulAbelianGroup for T {

}

/// `b` raised to the `p`-th power under the type's multiplication, with
/// the zeroth power defined as the identity.
pub open spec fn pow_n_spec<R: MulMonoid>(b: R, p: nat) -> R
    decreases p,
{
    if p == 0 {
        R::one_spec()
    } else {
        pow_n_spec(b, (p - 1) as nat).mul_spec(b)
    }
}

/// `b` added to itself `p` times, with the zeroth multiple defined as zero.
pub open spec fn mul_n_spec<R: AddMonoid>(b: R, p: nat) -> R
    decreases p,
{
    if p == 0 {
        R::zero_spec()
    } else {
        mul_n_spec(b, (p - 1) as nat).add_spec(b)
    }
}

/// `b` raised to an integer power: negative exponents invert the positive
/// power.
pub open spec fn pow_z_spec<R: MulGroup>(b: R, p: int) -> R {
    if p >= 0 {
        pow_n_spec(b, p as nat)
    } else {
        pow_n_spec(b, (-p) as nat).inv_spec()
    }
}

/// `b` multiplied by an integer: negative multipliers negate the positive
/// multiple.
pub open spec fn mul_z_spec<R: AddGroup>(b: R, p: int) -> R {
    if p >= 0 {
        mul_n_spec(b, p as nat)
    } else {
        mul_n_spec(b, (-p) as nat).neg_spec()
    }
}

/// A binary operation bundled with its specification and associativity
/// law; it parameterizes the shared repeated-squaring/doubling loop by the
/// semigroup operation.
pub trait PowOp: Sized {
    type Elem: Copy;

    spec fn op_spec(a: Self::Elem, b: Self::Elem) -> Self::Elem;

    proof fn op_assoc(a: Self::Elem, b: Self::Elem, c: Self::Elem)
        ensures
            Self::op_spec(Self::op_spec(a, b), c) == Self::op_spec(a, Self::op_spec(b, c)),
    ;

    fn apply(a: Self::Elem, b: Self::Elem) -> (r: Self::Elem)
        ensures
            r == Self::op_spec(a, b),
    ;
}

/// `b` combined with itself `p` times under the bundled operation, for
/// `p >= 1`.
pub open spec fn op_pow<P: PowOp>(b: P::Elem, p: nat) -> P::Elem
    decreases p,
{
    if p <= 1 {
        b
    } else {
        P::op_spec(op_pow::<P>(b, (p - 1) as nat), b)
    }
}

/// An element commutes with its own powers.
proof fn lemma_op_pow_commutes<P: PowOp>(b: P::Elem, p: nat)
    requires
        p >= 1,
    ensures
        P::op_spec(b, op_pow::<P>(b, p)) == P::op_spec(op_pow::<P>(b, p), b),
    decreases p,
{
    if p > 1 {
        lemma_op_pow_commutes::<P>(b, (p - 1) as nat);
        P::op_assoc(b, op_pow::<P>(b, (p - 1) as nat), b);
    }
}

/// Squaring the base halves the exponent.
proof fn lemma_op_pow_square<P: PowOp>(b: P::Elem, k: nat)
    requires
        k >= 1,
    ensures
        op_pow::<P>(P::op_spec(b, b), k) == op_pow::<P>(b, 2 * k),
    decreases k,
{
    if k == 1 {
        assert(op_pow::<P>(b, 2) == P::op_spec(op_pow::<P>(b, 1), b));
    } else {
        lemma_op_pow_square::<P>(b, (k - 1) as nat);
        lemma_op_pow_commutes::<P>(b, (2 * k - 2) as nat);
        assert(op_pow::<P>(P::op_spec(b, b), k) == P::op_spec(
            op_pow::<P>(P::op_spec(b, b), (k - 1) as nat),
            P::op_spec(b, b),
        ));
        P::op_assoc(op_pow::<P>(b, (2 * k - 2) as nat), b, b);
        assert(op_pow::<P>(b, (2 * k - 1) as nat) == P::op_spec(
            op_pow::<P>(b, (2 * k - 2) as nat),
            b,
        ));
        assert(op_pow::<P>(b, 2 * k) == P::op_spec(op_pow::<P>(b, (2 * k - 1) as nat), b));
    }
}

/// The shared repeated-squaring/repeated-doubling loop: combines `b` with
/// itself `p` times in a logarithmic number of applications by squaring
/// the base on even remaining counts and folding it into the accumulator
/// on odd ones.
pub fn mul_pow_helper<E: Natural, P: PowOp>(b: P::Elem, p: E) -> (r: P::Elem)
    requires
        p.nat_of() >= 1,
    ensures
        r == op_pow::<P>(b, p.nat_of()),
{
    let ghost p0 = p.nat_of();
    let mut res = b;
    let mut base = b;
    proof {
        if p0 >= 2 {
            lemma_op_pow_commutes::<P>(b, (p0 - 1) as nat);
        }
    }
    let mut q = p.sub_one();
    while !q.is_zero()
        invariant
            q.nat_of() >= 1 ==> P::op_spec(res, op_pow::<P>(base, q.nat_of())) == op_pow::<P>(
                b,
                p0,
            ),
            q.nat_of() == 0 ==> res == op_pow::<P>(b, p0),
        decreases q.nat_of(),
    {
        if q.even() {
            proof {
                lemma_op_pow_square::<P>(base, q.nat_of() / 2);
            }
            base = P::apply(base, base);
            q = q.div_two();
        } else {
            proof {
                let qv = q.nat_of();
                if qv > 1 {
                    lemma_op_pow_commutes::<P>(base, (qv - 1) as nat);
                    P::op_assoc(res, base, op_pow::<P>(base, (qv - 1) as nat));
                    P::op_assoc(res, op_pow::<P>(base, (qv - 1) as nat), base);
                }
            }
            res = P::apply(res, base);
            q = q.sub_one();
        }
    }
    res
}

/// The multiplication of `R`, bundled for the engine.
pub struct MulOp<R>(core::marker::PhantomData<R>);

impl<R: MulSemigroup> PowOp for MulOp<R> {
    type Elem = R;

    open spec fn op_spec(a: R, b: R) -> R {
        a.mul_spec(b)
    }

    proof fn op_assoc(a: R, b: R, c: R) {
        R::mul_assoc(a, b, c);
    }

    fn apply(a: R, b: R) -> R {
        a.mul(b)
    }
}

/// The addition of `R`, bundled for the engine.
pub struct AddOp<R>(core::marker::PhantomData<R>);

impl<R: AddSemigroup> PowOp for AddOp<R> {
    type Elem = R;

    open spec fn op_spec(a: R, b: R) -> R {
        a.add_spec(b)
    }

    proof fn op_assoc(a: R, b: R, c: R) {
        R::add_assoc(a, b, c);
    }

    fn apply(a: R, b: R) -> R {
        a.add(b)
    }
}

/// For positive exponents the engine's fold agrees with `pow_n_spec`.
proof fn lemma_op_pow_is_pow_n<R: MulMonoid>(b: R, p: nat)
    requires
        p >= 1,
    ensures
        op_pow::<MulOp<R>>(b, p) == pow_n_spec(b, p),
    decreases p,
{
    if p == 1 {
        R::mul_one(b);
        assert(op_pow::<MulOp<R>>(b, 1) == b);
        assert(pow_n_spec(b, 1) == pow_n_spec(b, 0).mul_spec(b));
        assert(pow_n_spec(b, 0) == R::one_spec());
    } else {
        lemma_op_pow_is_pow_n(b, (p - 1) as nat);
        assert(op_pow::<MulOp<R>>(b, p) == MulOp::<R>::op_spec(
            op_pow::<MulOp<R>>(b, (p - 1) as nat),
            b,
        ));
        assert(MulOp::<R>::op_spec(op_pow::<MulOp<R>>(b, (p - 1) as nat), b) == op_pow::<MulOp<
            R,
        >>(b, (p - 1) as nat).mul_spec(b));
        assert(pow_n_spec(b, p) == pow_n_spec(b, (p - 1) as nat).mul_spec(b));
    }
}

/// For positive multipliers the engine's fold agrees with `mul_n_spec`.
proof fn lemma_op_pow_is_mul_n<R: AddMonoid>(b: R, p: nat)
    requires
        p >= 1,
    ensures
        op_pow::<AddOp<R>>(b, p) == mul_n_spec(b, p),
    decreases p,
{
    if p == 1 {
        R::add_zero(b);
        assert(op_pow::<AddOp<R>>(b, 1) == b);
        assert(mul_n_spec(b, 1) == mul_n_spec(b, 0).add_spec(b));
        assert(mul_n_spec(b, 0) == R::zero_spec());
    } else {
        lemma_op_pow_is_mul_n(b, (p - 1) as nat);
        assert(op_pow::<AddOp<R>>(b, p) == AddOp::<R>::op_spec(
            op_pow::<AddOp<R>>(b, (p - 1) as nat),
            b,
        ));
        assert(AddOp::<R>::op_spec(op_pow::<AddOp<R>>(b, (p - 1) as nat), b) == op_pow::<AddOp<
            R,
        >>(b, (p - 1) as nat).add_spec(b));
        assert(mul_n_spec(b, p) == mul_n_spec(b, (p - 1) as nat).add_spec(b));
    }
}

/// Raises a monoid element to a natural power by repeated squaring.
///
/// Raising a ring's additive zero to the zeroth power is the engine's one
/// undefined case; the precondition excludes it, so well-typed verified
/// callers never reach the abort the operation would otherwise owe.
pub fn repeated_squaring<E: Natural, R: MulMonoid + IsZero>(b: R, p: E) -> (r: R)
    requires
        p.nat_of() == 0 ==> !b.zero_probe_spec(),
    ensures
        r == pow_n_spec(b, p.nat_of()),
{
    if p.is_zero() {
        R::one()
    } else {
        proof {
            lemma_op_pow_is_pow_n(b, p.nat_of());
        }
        mul_pow_helper::<E, MulOp<R>>(b, p)
    }
}

/// Raises a group element to an integer power: a negative exponent inverts
/// the result of the positive one.
pub fn repeated_squaring_inv<E: IntegerSubset, R: MulGroup + IsZero>(b: R, p: E) -> (r: R)
    requires
        p.int_of() == 0 ==> !b.zero_probe_spec(),
    ensures
        r == pow_z_spec(b, p.int_of()),
{
    if p.negative() {
        repeated_squaring(b, p.abs_unsigned()).inv()
    } else {
        repeated_squaring(b, p.as_unsigned())
    }
}

/// Multiplies a monoid element by a natural using repeated doublings.
pub fn repeated_doubling<E: Natural, R: AddMonoid>(b: R, p: E) -> (r: R)
    ensures
        r == mul_n_spec(b, p.nat_of()),
{
    if p.is_zero() {
        R::zero()
    } else {
        proof {
            lemma_op_pow_is_mul_n(b, p.nat_of());
        }
        mul_pow_helper::<E, AddOp<R>>(b, p)
    }
}

/// Multiplies a group element by an integer using negation and repeated
/// doublings.
pub fn repeated_doubling_neg<E: IntegerSubset, R: AddGroup>(b: R, p: E) -> (r: R)
    ensures
        r == mul_z_spec(b, p.int_of()),
{
    if p.negative() {
        repeated_doubling(b, p.abs_unsigned()).neg()
    } else {
        repeated_doubling(b, p.as_unsigned())
    }
}

/// Multiplication of a monoid element by a natural number.
///
/// The provided body is the generic repeated-doubling fallback; a type
/// with a native fast path may override it, and the contract pins the
/// result either way.
pub trait MulN: AddMonoid {
    fn mul_n<N: Natural>(self, n: N) -> (r: Self)
        ensures
            r == mul_n_spec(self, n.nat_of()),
    {
        repeated_doubling(self, n)
    }
}

impl<G: AddMonoid> MulN for G {

}

/// Multiplication of a group element by an integer.
///
/// The provided body is the generic fallback over repeated doubling; a
/// type with a native fast path may override it.
pub trait MulZ: AddGroup {
    fn mul_z<N: IntegerSubset>(self, n: N) -> (r: Self)
        ensures
            r == mul_z_spec(self, n.int_of()),
    {
        repeated_doubling_neg(self, n)
    }
}

impl<G: AddGroup> MulZ for G {

}

/// A natural power of a monoid element.
///
/// The provided body is the generic repeated-squaring fallback; a type
/// with a native fast path may override it.
pub trait PowN: MulMonoid + IsZero {
    fn pow_n<N: Natural>(self, n: N) -> (r: Self)
        requires
            n.nat_of() == 0 ==> !self.zero_probe_spec(),
        ensures
            r == pow_n_spec(self, n.nat_of()),
    {
        repeated_squaring(self, n)
    }
}

impl<G: MulMonoid + IsZero> PowN for G {

}

/// An integer power of a group element.
///
/// The provided body is the generic fallback over repeated squaring; a
/// type with a native fast path may override it.
pub trait PowZ: MulGroup + IsZero {
    fn pow_z<N: IntegerSubset>(self, n: N) -> (r: Self)
        requires
            n.int_of() == 0 ==> !self.zero_probe_spec(),
        ensures
            r == pow_z_spec(self, n.int_of()),
    {
        repeated_squaring_inv(self, n)
    }
}

impl<G: MulGroup + IsZero> PowZ for G {

}

/// The homomorphism law of exponentiation: powers of a common base
/// multiply by adding exponents.
pub proof fn lemma_pow_n_homomorphism<R: MulMonoid>(b: R, p: nat, q: nat)
    ensures
        pow_n_spec(b, p + q) == pow_n_spec(b, p).mul_spec(pow_n_spec(b, q)),
    decreases q,
{
    if q == 0 {
        R::mul_one(pow_n_spec(b, p));
    } else {
        lemma_pow_n_homomorphism(b, p, (q - 1) as nat);
        R::mul_assoc(pow_n_spec(b, p), pow_n_spec(b, (q - 1) as nat), b);
        assert(p + q - 1 == p + (q - 1) as nat);
    }
}

/// The homomorphism law of scalar multiplication: multiples of a common
/// element add by adding multipliers.
pub proof fn lemma_mul_n_homomorphism<R: AddMonoid>(b: R, p: nat, q: nat)
    ensures
        mul_n_spec(b, p + q) == mul_n_spec(b, p).add_spec(mul_n_spec(b, q)),
    decreases q,
{
    if q == 0 {
        R::add_zero(mul_n_spec(b, p));
    } else {
        lemma_mul_n_homomorphism(b, p, (q - 1) as nat);
        R::add_assoc(mul_n_spec(b, p), mul_n_spec(b, (q - 1) as nat), b);
        assert(p + q - 1 == p + (q - 1) as nat);
    }
}

/// The zeroth power of every element is the identity. (The engine's one
/// excluded input, the additive zero raised to the zeroth power, is ruled
/// out by `repeated_squaring`'s precondition rather than decided here.)
pub proof fn lemma_pow_n_zero<R: MulMonoid>(b: R)
    ensures
        pow_n_spec(b, 0) == R::one_spec(),
{
}

/// The zeroth multiple of every element is zero.
pub proof fn lemma_mul_n_zero<R: AddMonoid>(b: R)
    ensures
        mul_n_spec(b, 0) == R::zero_spec(),
{
}

/// The identity's inverse is the identity.
pub proof fn lemma_inv_one<R: MulGroup>()
    ensures
        R::one_spec().inv_spec() == R::one_spec(),
{
    R::mul_inv(R::one_spec());
    R::mul_one(R::one_spec().inv_spec());
}

/// Inversion is an involution.
pub proof fn lemma_inv_involutive<R: MulGroup>(a: R)
    ensures
        a.inv_spec().inv_spec() == a,
{
    let i = a.inv_spec();
    let ii = i.inv_spec();
    R::mul_inv(a);
    R::mul_inv(i);
    R::mul_one(ii);
    R::mul_assoc(a, i, ii);
    R::mul_one(a);
}

/// The zero's negation is zero.
pub proof fn lemma_neg_zero<R: AddGroup>()
    ensures
        R::zero_spec().neg_spec() == R::zero_spec(),
{
    R::add_neg(R::zero_spec());
    R::add_zero(R::zero_spec().neg_spec());
}

/// Negation is an involution.
pub proof fn lemma_neg_involutive<R: AddGroup>(a: R)
    ensures
        a.neg_spec().neg_spec() == a,
{
    let i = a.neg_spec();
    let ii = i.neg_spec();
    R::add_neg(a);
    R::add_neg(i);
    R::add_zero(ii);
    R::add_assoc(a, i, ii);
    R::add_zero(a);
}

/// The inverse law of integer exponentiation: negating the exponent
/// inverts the power.
pub proof fn lemma_pow_z_inverse<R: MulGroup>(b: R, p: int)
    ensures
        pow_z_spec(b, -p) == pow_z_spec(b, p).inv_spec(),
{
    if p == 0 {
        lemma_inv_one::<R>();
    } else if p < 0 {
        lemma_inv_involutive(pow_n_spec(b, (-p) as nat));
    }
}

/// The inverse law of integer scalar multiplication: negating the
/// multiplier negates the multiple.
pub proof fn lemma_mul_z_inverse<R: AddGroup>(b: R, p: int)
    ensures
        mul_z_spec(b, -p) == mul_z_spec(b, p).neg_spec(),
{
    if p == 0 {
        lemma_neg_zero::<R>();
    } else if p < 0 {
        lemma_neg_involutive(mul_n_spec(b, (-p) as nat));
    }
}

} // verus!
