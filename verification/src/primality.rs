//! Deterministic Miller-Rabin primality testing over any `Natural`.
//!
//! The test decomposes `n - 1` into `d * 2^s` with `d` odd and checks, for
//! each witness `a` of a deterministic witness set, whether
//! `a^d == 1 (mod n)` or `a^(d * 2^j) == n - 1 (mod n)` for some `j < s`.
//! Witness sets are selected from a fixed table of published thresholds;
//! above the last tabulated threshold every witness below an exact
//! power-of-three bound is tested, which is where correctness becomes
//! conditional on the standard number-theoretic conjecture behind
//! exhaustive small-witness testing.

use vstd::prelude::*;
use vstd::arithmetic::power::{
    pow, lemma_pow0, lemma_pow1, lemma_pow_adds, lemma_pow_multiplies, lemma_pow_increases,
    lemma_pow_mod_noop,
};
use vstd::arithmetic::power2::{pow2, lemma_pow2_unfold, lemma2_to64};
use vstd::arithmetic::div_mod::{lemma_small_mod, lemma_mul_mod_noop_general};
use vstd::arithmetic::mul::{lemma_mul_inequality, lemma_mul_is_commutative};

use crate::natural::Natural;

verus! {

/// The odd factor of `m`: `m` with every factor of two divided out.
pub open spec fn odd_part(m: nat) -> nat
    decreases m,
{
    if m == 0 {
        0
    } else if m % 2 == 1 {
        m
    } else {
        odd_part(m / 2)
    }
}

/// How many factors of two `m` holds.
pub open spec fn two_exp(m: nat) -> nat
    decreases m,
{
    if m == 0 {
        0
    } else if m % 2 == 1 {
        0
    } else {
        1 + two_exp(m / 2)
    }
}

/// `m >= 1` splits uniquely as its odd part times a power of two.
pub proof fn lemma_decompose(m: nat)
    requires
        m >= 1,
    ensures
        odd_part(m) % 2 == 1,
        odd_part(m) >= 1,
        odd_part(m) * pow2(two_exp(m)) == m,
    decreases m,
{
    lemma2_to64();
    if m % 2 == 1 {
        assert(odd_part(m) == m);
        assert(two_exp(m) == 0);
        assert(pow2(0) == 1);
        assert(m * pow2(0) == m) by (nonlinear_arith)
            requires
                pow2(0) == 1,
        ;
    } else {
        lemma_decompose(m / 2);
        let k = two_exp(m / 2);
        let o = odd_part(m / 2);
        assert(two_exp(m) == 1 + k);
        assert(odd_part(m) == o);
        lemma_pow2_unfold(1 + k);
        assert(pow2(1 + k) == 2 * pow2(k));
        assert(o * (2 * pow2(k)) == 2 * (o * pow2(k))) by (nonlinear_arith);
        assert(o * pow2(1 + k) == 2 * (m / 2));
        assert(2 * (m / 2) == m);
    }
}

/// Whether the Miller-Rabin round with witness `a` declines to prove `n`
/// composite: `a^d` is `1` modulo `n`, or some `a^(d * 2^j)` with `j < s`
/// is `n - 1` modulo `n`, where `n - 1 == d * 2^s` with `d` odd.
pub open spec fn mr_witness_passes(a: nat, n: nat) -> bool {
    let d = odd_part((n - 1) as nat);
    let s = two_exp((n - 1) as nat);
    pow(a as int, d) % (n as int) == 1 || exists|j: nat|
        j < s && #[trigger] pow(a as int, d * pow2(j)) % (n as int) == n - 1
}

/// What the primality engine decides for the natural `n`: trivial cases,
/// then the witness set of the smallest tabulated threshold exceeding `n`,
/// and past the last threshold every witness `a` with `3^(a/2) < 2n`.
pub open spec fn mr_spec(n: nat) -> bool {
    if n <= 1 {
        false
    } else if n == 2 {
        true
    } else if n % 2 == 0 {
        false
    } else if n < 2047 {
        mr_witness_passes(2, n)
    } else if n < 1373653 {
        mr_witness_passes(2, n) && mr_witness_passes(3, n)
    } else if n < 9080191 {
        mr_witness_passes(31, n) && mr_witness_passes(73, n)
    } else if n < 25326001 {
        mr_witness_passes(2, n) && mr_witness_passes(3, n) && mr_witness_passes(5, n)
    } else if n < 3215031751 {
        mr_witness_passes(2, n) && mr_witness_passes(3, n) && mr_witness_passes(5, n)
            && mr_witness_passes(7, n)
    } else if n < 4759123141 {
        mr_witness_passes(2, n) && mr_witness_passes(7, n) && mr_witness_passes(61, n)
    } else if n < 1122004669633 {
        mr_witness_passes(2, n) && mr_witness_passes(13, n) && mr_witness_passes(23, n)
            && mr_witness_passes(1662803, n)
    } else if n < 3317044064679887385961981 {
        mr_witness_passes(2, n) && mr_witness_passes(3, n) && mr_witness_passes(5, n)
            && mr_witness_passes(7, n) && mr_witness_passes(11, n)
            && (n >= 2152302898747 ==> mr_witness_passes(13, n))
            && (n >= 3474749660383 ==> mr_witness_passes(17, n))
            && (n >= 341550071728321 ==> mr_witness_passes(19, n) && mr_witness_passes(23, n))
            && (n >= 3825123056546413051 ==> mr_witness_passes(29, n) && mr_witness_passes(31, n)
                && mr_witness_passes(37, n))
            && (n >= 318665857834031151167461 ==> mr_witness_passes(41, n))
    } else {
        forall|a: nat| 2 <= a && pow(3, a / 2) < 2 * n ==> #[trigger] mr_witness_passes(a, n)
    }
}

/// One Miller-Rabin round: whether the witness `a` declines to prove `n`
/// composite. The modular power `a^d mod n` is computed by repeated
/// squaring under modular multiplication, then squared up to `s - 1` more
/// times looking for `n - 1`.
fn mr_witness<Z: Natural>(a: Z, d: &Z, s: &Z, n: &Z) -> (res: bool)
    requires
        n.nat_of() >= 3,
        n.nat_of() % 2 == 1,
        d.nat_of() == odd_part((n.nat_of() - 1) as nat),
        s.nat_of() == two_exp((n.nat_of() - 1) as nat),
    ensures
        res == mr_witness_passes(a.nat_of(), n.nat_of()),
{
    let ghost nn = n.nat_of() as int;
    let ghost a0 = a.nat_of() as int;
    let ghost d0 = d.nat_of();
    let ghost s0 = s.nat_of();
    proof {
        lemma_decompose((n.nat_of() - 1) as nat);
    }
    // compute x^d mod n by repeated squaring, seeded with one factor of x
    let mut x = a.modulo(n);
    let mut r = x;
    proof {
        lemma_pow_mod_noop(a0, d0, nn);
        lemma_pow1(x.nat_of() as int);
        lemma_pow_adds(x.nat_of() as int, 1, (d0 - 1) as nat);
        lemma_mul_mod_noop_general(r.nat_of() as int, pow(x.nat_of() as int, (d0 - 1) as nat), nn);
        lemma_pow_mod_noop(x.nat_of() as int, d0, nn);
    }
    let mut dd = d.sub_one();
    while !dd.is_zero()
        invariant
            n.nat_of() >= 3,
            nn == n.nat_of() as int,
            x.nat_of() < n.nat_of(),
            r.nat_of() < n.nat_of(),
            (r.nat_of() * pow(x.nat_of() as int, dd.nat_of())) % nn == pow(a0, d0) % nn,
        decreases dd.nat_of(),
    {
        let ghost xv = x.nat_of() as int;
        let ghost rv = r.nat_of() as int;
        let ghost ddv = dd.nat_of();
        if dd.even() {
            x = x.mul_mod(&x, n);
            dd = dd.div_two();
            proof {
                // pow(x^2 mod n, dd/2) == pow(x, dd) modulo n
                let x2 = (xv * xv) % nn;
                lemma_pow_mod_noop(xv * xv, ddv / 2, nn);
                lemma_pow_multiplies(xv, 2, ddv / 2);
                lemma_pow1(xv);
                lemma_pow_adds(xv, 1, 1);
                assert(pow(xv, 2) == xv * xv);
                assert(2 * (ddv / 2) == ddv);
                assert(pow(x2, ddv / 2) % nn == pow(xv, ddv) % nn);
                // fold the accumulator back in
                lemma_mul_mod_noop_general(rv, pow(x2, ddv / 2), nn);
                lemma_mul_mod_noop_general(rv, pow(xv, ddv), nn);
            }
        } else {
            r = r.mul_mod(&x, n);
            dd = dd.sub_one();
            proof {
                // r*x * pow(x, dd-1) == r * pow(x, dd)
                lemma_pow1(xv);
                lemma_pow_adds(xv, 1, (ddv - 1) as nat);
                assert(pow(xv, ddv) == xv * pow(xv, (ddv - 1) as nat));
                let p1 = pow(xv, (ddv - 1) as nat);
                lemma_mul_mod_noop_general(rv * xv, p1, nn);
                assert((rv * xv) * p1 == rv * (xv * p1)) by (nonlinear_arith);
                lemma_mul_mod_noop_general(rv, xv * p1, nn);
                lemma_mul_mod_noop_general(((rv * xv) % nn) as int, p1, nn);
            }
        }
    }
    proof {
        lemma_pow0(x.nat_of() as int);
        lemma_small_mod(r.nat_of(), n.nat_of());
    }
    // r == a^d mod n
    if r.is_one() {
        return true;
    }
    let nm1 = n.sub_one();
    let mut k = *s;
    proof {
        lemma2_to64();
        assert(d0 * pow2(0) == d0);
    }
    while !k.is_zero()
        invariant
            n.nat_of() >= 3,
            nn == n.nat_of() as int,
            a0 == a.nat_of() as int,
            nm1.nat_of() == n.nat_of() - 1,
            d0 == odd_part((n.nat_of() - 1) as nat),
            s0 == two_exp((n.nat_of() - 1) as nat),
            k.nat_of() <= s0,
            pow(a0, d0) % nn != 1,
            k.nat_of() > 0 ==> r.nat_of() < n.nat_of() && r.nat_of() as int == pow(
                a0,
                d0 * pow2((s0 - k.nat_of()) as nat),
            ) % nn,
            forall|j: nat|
                j < s0 - k.nat_of() ==> #[trigger] pow(a0, d0 * pow2(j)) % nn != n.nat_of() - 1,
        decreases k.nat_of(),
    {
        let ghost j_cur = (s0 - k.nat_of()) as nat;
        if r.eq_val(&nm1) {
            proof {
                assert(j_cur < s0);
                assert(pow(a0, d0 * pow2(j_cur)) % nn == n.nat_of() - 1);
            }
            return true;
        }
        k = k.sub_one();
        if !k.is_zero() {
            r = r.mul_mod(&r, n);
            proof {
                // squaring advances the exponent by one factor of two
                let e = d0 * pow2(j_cur);
                lemma_pow_adds(a0, e, e);
                lemma_mul_mod_noop_general(pow(a0, e), pow(a0, e), nn);
                lemma_pow2_unfold(j_cur + 1);
                assert(d0 * pow2(j_cur + 1) == d0 * (2 * pow2(j_cur)));
                assert(d0 * (2 * pow2(j_cur)) == d0 * pow2(j_cur) + d0 * pow2(j_cur))
                    by (nonlinear_arith);
                assert((s0 - k.nat_of()) as nat == j_cur + 1);
            }
        }
        proof {
            assert(pow(a0, d0 * pow2(j_cur)) % nn != n.nat_of() - 1);
            assert(forall|j: nat|
                j < s0 - k.nat_of() ==> #[trigger] pow(a0, d0 * pow2(j)) % nn != n.nat_of() - 1);
        }
    }
    proof {
        assert(forall|j: nat| j < s0 ==> #[trigger] pow(a0, d0 * pow2(j)) % nn != n.nat_of() - 1);
        assert(!mr_witness_passes(a.nat_of(), n.nat_of()));
    }
    false
}

/// One tabulated witness, given as a wide literal and converted into the
/// operand type; the conversion succeeds because every branch only tests
/// witnesses below its own threshold.
fn check_witness<Z: Natural>(w: u128, d: &Z, s: &Z, n: &Z) -> (res: bool)
    requires
        n.nat_of() >= 3,
        n.nat_of() % 2 == 1,
        (w as nat) < n.nat_of(),
        d.nat_of() == odd_part((n.nat_of() - 1) as nat),
        s.nat_of() == two_exp((n.nat_of() - 1) as nat),
    ensures
        res == mr_witness_passes(w as nat, n.nat_of()),
{
    match Z::from_u128(w) {
        Some(a) => mr_witness(a, d, s, n),
        None => {
            proof {
                n.lemma_fits();
                Z::lemma_fits_down(w as nat, n.nat_of());
                assert(false);
            }
            false
        },
    }
}

/// Whether `n` lies below the tabulated threshold `w`, whose conversion
/// into the operand type is handed in: a threshold the type cannot hold
/// lies above every operand.
fn below_bound<Z: Natural>(n: &Z, c: Option<Z>, Ghost(w): Ghost<nat>) -> (res: bool)
    requires
        match c {
            Some(x) => x.nat_of() == w,
            None => !Z::fits_spec(w),
        },
    ensures
        res == (n.nat_of() < w),
{
    match c {
        Some(x) => n.lt(&x),
        None => {
            proof {
                n.lemma_fits();
                if n.nat_of() >= w {
                    Z::lemma_fits_down(w, n.nat_of());
                }
            }
            true
        },
    }
}

/// `3^(e+1) == 3 * 3^e`.
proof fn lemma_pow3_unfold(e: nat)
    ensures
        pow(3, e + 1) == 3 * pow(3, e),
{
    lemma_pow1(3);
    lemma_pow_adds(3, 1, e);
}

/// A power of three exceeds its exponent.
proof fn lemma_pow3_gt(k: nat)
    ensures
        pow(3, k) > k,
    decreases k,
{
    if k == 0 {
        lemma_pow0(3);
    } else {
        lemma_pow3_gt((k - 1) as nat);
        lemma_pow3_unfold((k - 1) as nat);
    }
}

/// A power of three dominates the square of its exponent.
proof fn lemma_pow3_ge_sq(k: nat)
    requires
        k >= 1,
    ensures
        pow(3, k) >= k * k,
    decreases k,
{
    if k == 1 {
        lemma_pow1(3);
        assert(pow(3, k) >= k * k);
    } else if k == 2 {
        lemma_pow1(3);
        lemma_pow3_unfold(1);
        assert(pow(3, k) == 9);
        assert(pow(3, k) >= k * k);
    } else {
        lemma_pow3_ge_sq((k - 1) as nat);
        lemma_pow3_unfold((k - 1) as nat);
        assert(pow(3, k) == 3 * pow(3, (k - 1) as nat));
        assert(pow(3, (k - 1) as nat) >= (k - 1) * (k - 1));
        assert(pow(3, k) >= 3 * ((k - 1) * (k - 1)));
        assert(3 * ((k - 1) * (k - 1)) >= k * k) by (nonlinear_arith)
            requires
                k >= 3,
        ;
        assert(pow(3, k) >= k * k);
    }
}

/// Whether `3^(a/2) < 2 * n`, decided in exact integer arithmetic: since
/// `3^k` is odd, `3^k < 2n` holds exactly when `(3^k - 1) / 2 < n`, and
/// that half is computed by iterating `h := 3h + 1`; when the iterate
/// overflows the carrier type it already exceeds `n`.
fn more_fallback_witnesses<Z: Natural>(a: &Z, n: &Z) -> (res: bool)
    requires
        n.nat_of() >= 3,
    ensures
        res == (pow(3, a.nat_of() / 2) < 2 * n.nat_of()),
{
    let k = a.div_two();
    if k.is_zero() {
        proof {
            lemma_pow0(3);
        }
        return true;
    }
    let mut h = Z::one();
    let mut i = Z::one();
    proof {
        lemma_pow1(3);
    }
    while i.lt(&k)
        invariant
            n.nat_of() >= 3,
            k.nat_of() == a.nat_of() / 2,
            1 <= i.nat_of() <= k.nat_of(),
            2 * h.nat_of() + 1 == pow(3, i.nat_of()),
        decreases k.nat_of() - i.nat_of(),
    {
        match h.mul3_add1() {
            Some(h2) => {
                proof {
                    lemma_pow3_unfold(i.nat_of());
                    k.lemma_fits();
                    Z::lemma_fits_down(i.nat_of() + 1, k.nat_of());
                }
                h = h2;
                i = i.add_one();
            },
            None => {
                proof {
                    // the next iterate exceeds the type, so it exceeds n
                    n.lemma_fits();
                    if 3 * h.nat_of() + 1 <= n.nat_of() {
                        Z::lemma_fits_down(3 * h.nat_of() + 1, n.nat_of());
                    }
                    lemma_pow3_unfold(i.nat_of());
                    lemma_pow_increases(3, i.nat_of() + 1, k.nat_of());
                }
                return false;
            },
        }
    }
    // i == k, so 2h + 1 == 3^k and 3^k < 2n exactly when h < n
    h.lt(n)
}

/// Determines whether a natural number is prime using the deterministic
/// Miller-Rabin primality test.
///
/// For operands below the largest tabulated threshold the published witness
/// sets make the answer unconditional; past it, testing every witness below
/// the exact power-of-three bound is justified by the standard
/// number-theoretic conjecture, which callers of arbitrary-width types must
/// take as an assumption.
pub fn miller_rabin<Z: Natural>(n: Z) -> (res: bool)
    ensures
        res == mr_spec(n.nat_of()),
{
    let one_z = Z::one();
    if !one_z.lt(&n) {
        return false;
    }
    let two_z = Z::two();
    if n.eq_val(&two_z) {
        return true;
    }
    if n.even() {
        return false;
    }
    let ghost n0 = n.nat_of();
    proof {
        lemma_decompose((n0 - 1) as nat);
        lemma2_to64();
    }
    // decompose n - 1 into d * 2^s with d odd
    let mut d = n.sub_one();
    let mut s = Z::zero();
    while d.even()
        invariant
            n.nat_of() == n0,
            n0 >= 3,
            n0 % 2 == 1,
            d.nat_of() >= 1,
            odd_part((n0 - 1) as nat) == odd_part(d.nat_of()),
            two_exp((n0 - 1) as nat) == s.nat_of() + two_exp(d.nat_of()),
            d.nat_of() * pow2(s.nat_of()) == n0 - 1,
        decreases d.nat_of(),
    {
        proof {
            let dv = d.nat_of();
            let sv = s.nat_of();
            // s fits after the increment: 2^s stays below n
            lemma_exp_lt_pow2(sv);
            lemma_mul_inequality(1, dv as int, pow2(sv) as int);
            lemma_mul_is_commutative(dv as int, pow2(sv) as int);
            n.lemma_fits();
            Z::lemma_fits_down(sv + 1, n0);
            // halving keeps the decomposition
            lemma_pow2_unfold(sv + 1);
            assert((dv / 2) * (2 * pow2(sv)) == dv * pow2(sv)) by (nonlinear_arith)
                requires
                    dv % 2 == 0,
            ;
        }
        s = s.add_one();
        d = d.div_two();
    }
    let ghost dd = d.nat_of();
    let ghost ss = s.nat_of();
    proof {
        assert(odd_part(dd) == dd);
        assert(two_exp(dd) == 0);
    }
    if below_bound(&n, Z::from_u32(2047), Ghost(2047nat)) {
        check_witness(2, &d, &s, &n)
    } else if below_bound(&n, Z::from_u32(1373653), Ghost(1373653nat)) {
        check_witness(2, &d, &s, &n) && check_witness(3, &d, &s, &n)
    } else if below_bound(&n, Z::from_u32(9080191), Ghost(9080191nat)) {
        check_witness(31, &d, &s, &n) && check_witness(73, &d, &s, &n)
    } else if below_bound(&n, Z::from_u32(25326001), Ghost(25326001nat)) {
        check_witness(2, &d, &s, &n) && check_witness(3, &d, &s, &n) && check_witness(
            5,
            &d,
            &s,
            &n,
        )
    } else if below_bound(&n, Z::from_u64(3215031751), Ghost(3215031751nat)) {
        check_witness(2, &d, &s, &n) && check_witness(3, &d, &s, &n) && check_witness(5, &d, &s, &n)
            && check_witness(7, &d, &s, &n)
    } else if below_bound(&n, Z::from_u64(4759123141), Ghost(4759123141nat)) {
        check_witness(2, &d, &s, &n) && check_witness(7, &d, &s, &n) && check_witness(
            61,
            &d,
            &s,
            &n,
        )
    } else if below_bound(&n, Z::from_u64(1122004669633), Ghost(1122004669633nat)) {
        check_witness(2, &d, &s, &n) && check_witness(13, &d, &s, &n) && check_witness(
            23,
            &d,
            &s,
            &n,
        ) && check_witness(1662803, &d, &s, &n)
    } else if below_bound(
        &n,
        Z::from_u128(3317044064679887385961981),
        Ghost(3317044064679887385961981nat),
    ) {
        check_witness(2, &d, &s, &n) && check_witness(3, &d, &s, &n) && check_witness(5, &d, &s, &n)
            && check_witness(7, &d, &s, &n) && check_witness(11, &d, &s, &n) && (if !below_bound(
            &n,
            Z::from_u64(2152302898747),
            Ghost(2152302898747nat),
        ) {
            check_witness(13, &d, &s, &n)
        } else {
            true
        }) && (if !below_bound(&n, Z::from_u64(3474749660383), Ghost(3474749660383nat)) {
            check_witness(17, &d, &s, &n)
        } else {
            true
        }) && (if !below_bound(&n, Z::from_u64(341550071728321), Ghost(341550071728321nat)) {
            check_witness(19, &d, &s, &n) && check_witness(23, &d, &s, &n)
        } else {
            true
        }) && (if !below_bound(&n, Z::from_u64(3825123056546413051), Ghost(3825123056546413051nat)) {
            check_witness(29, &d, &s, &n) && check_witness(31, &d, &s, &n) && check_witness(
                37,
                &d,
                &s,
                &n,
            )
        } else {
            true
        }) && (if !below_bound(
            &n,
            Z::from_u128(318665857834031151167461),
            Ghost(318665857834031151167461nat),
        ) {
            check_witness(41, &d, &s, &n)
        } else {
            true
        })
    } else {
        // past the tabulated thresholds: every witness below the bound
        let mut a = Z::two();
        while more_fallback_witnesses(&a, &n)
            invariant
                n.nat_of() == n0,
                n0 >= 3,
                n0 % 2 == 1,
                n0 >= 3317044064679887385961981,
                dd == odd_part((n0 - 1) as nat),
                ss == two_exp((n0 - 1) as nat),
                d.nat_of() == dd,
                s.nat_of() == ss,
                a.nat_of() >= 2,
                forall|b: nat|
                    2 <= b < a.nat_of() ==> #[trigger] mr_witness_passes(b, n0),
            decreases 4 * n0 + 2 - a.nat_of(),
        {
            proof {
                // the loop guard bounds the witness counter
                lemma_pow3_gt(a.nat_of() / 2);
            }
            if !mr_witness(a, &d, &s, &n) {
                proof {
                    assert(2 <= a.nat_of() && pow(3, a.nat_of() / 2) < 2 * n0
                        && !mr_witness_passes(a.nat_of(), n0));
                    assert(!mr_spec(n0));
                }
                return false;
            }
            proof {
                // the next counter value still fits the type
                if !Z::fits_spec(a.nat_of() + 1) {
                    Z::lemma_fits_255();
                    if a.nat_of() + 1 <= 255 {
                        Z::lemma_fits_down(a.nat_of() + 1, 255);
                    }
                    n.lemma_fits();
                    if n0 >= a.nat_of() + 1 {
                        Z::lemma_fits_down(a.nat_of() + 1, n0);
                    }
                    let kw = a.nat_of() / 2;
                    lemma_pow3_ge_sq(kw);
                    assert(kw * kw > 4 * kw + 2) by (nonlinear_arith)
                        requires
                            kw >= 127,
                    ;
                    assert(false);
                }
            }
            a = a.add_one();
        }
        proof {
            // every witness the bound admits was already tested
            assert forall|b: nat| 2 <= b && pow(3, b / 2) < 2 * n0 implies #[trigger] mr_witness_passes(
                b,
                n0,
            ) by {
                if b >= a.nat_of() {
                    lemma_pow_increases(3, a.nat_of() / 2, b / 2);
                }
            }
        }
        true
    }
}

/// The exponent of a power of two is smaller than the power.
proof fn lemma_exp_lt_pow2(e: nat)
    ensures
        e < pow2(e),
    decreases e,
{
    lemma2_to64();
    if e > 0 {
        lemma_exp_lt_pow2((e - 1) as nat);
        lemma_pow2_unfold(e);
    }
}

} // verus!
