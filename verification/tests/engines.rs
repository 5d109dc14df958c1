use traitor::bound::B;
use traitor::group_like::{
    repeated_doubling, repeated_doubling_neg, repeated_squaring, repeated_squaring_inv, MulN, MulZ,
    PowN, PowZ,
};
use traitor::primality::miller_rabin;
use traitor::ring_like::{euclidean, extended_euclidean, Bezout, Divisibility, Factorizable, GCD};
use traitor::sign::Sign;

#[test]
fn squaring_computes_powers() {
    assert_eq!(repeated_squaring(3u64, 5u32), 243);
    assert_eq!(repeated_squaring(2u64, 10u32), 1024);
    assert_eq!(repeated_squaring(7u64, 1u32), 7);
    assert_eq!(repeated_squaring(10u64, 19u64), 10_000_000_000_000_000_000);
}

#[test]
fn exponent_homomorphism() {
    // exp(b, p) * exp(b, q) == exp(b, p + q)
    let lhs = repeated_squaring(3u64, 2u32) * repeated_squaring(3u64, 3u32);
    assert_eq!(lhs, repeated_squaring(3u64, 5u32));
    let lhs = repeated_doubling(7u64, 11u32) + repeated_doubling(7u64, 6u32);
    assert_eq!(lhs, repeated_doubling(7u64, 17u32));
}

#[test]
fn zeroth_power_is_identity() {
    assert_eq!(repeated_squaring(7u64, 0u32), 1);
    assert_eq!(repeated_squaring(1u64, 0u32), 1);
    assert_eq!(repeated_doubling(7u64, 0u32), 0);
    // the additive case has no irregularity at zero
    assert_eq!(repeated_doubling(0u64, 0u32), 0);
}

#[test]
fn negative_exponents_invert() {
    // exp(b, -p) == inverse(exp(b, p))
    assert_eq!(
        repeated_squaring_inv(Sign::Minus, -3i64),
        Sign::Minus
    );
    assert_eq!(
        repeated_squaring_inv(Sign::Minus, 3i64),
        Sign::Minus
    );
    assert_eq!(repeated_squaring_inv(Sign::Minus, -4i64), Sign::Plus);
    assert_eq!(repeated_doubling_neg(5i64, -4i64), -20);
    assert_eq!(repeated_doubling_neg(5i64, 4i64), 20);
    assert_eq!(repeated_doubling_neg(-3i64, -7i64), 21);
    assert_eq!(repeated_doubling_neg(7i64, 0i64), 0);
}

#[test]
fn capability_dispatch_methods() {
    assert_eq!(5u64.mul_n(3u32), 15);
    assert_eq!(2u64.pow_n(10u32), 1024);
    assert_eq!(5i64.mul_z(-3i64), -15);
    assert_eq!(Sign::Minus.pow_z(-2i64), Sign::Plus);
    assert_eq!(Sign::Minus.pow_z(5i64), Sign::Minus);
}

#[test]
fn euclidean_gcd() {
    assert_eq!(euclidean(12u64, 18u64), 6);
    assert_eq!(euclidean(18u64, 12u64), 6);
    assert_eq!(euclidean(240u64, 46u64), 2);
    assert_eq!(euclidean(7u64, 7u64), 7);
    assert_eq!(euclidean(1u64, 999u64), 1);
    // the documented zero convention: a zero operand yields zero
    assert_eq!(euclidean(0u64, 5u64), 0);
    assert_eq!(euclidean(5u64, 0u64), 0);
    // signed operands
    assert_eq!(euclidean(240i64, 46i64), 2);
    assert_eq!(euclidean(-240i64, 46i64), 2);
    // with equal norms the result follows the first operand's associate
    assert_eq!(euclidean(6i64, -6i64), -6);
    assert_eq!(euclidean(-6i64, 6i64), 6);
}

#[test]
fn gcd_is_symmetric() {
    let pairs: [(u64, u64); 4] = [(12, 18), (240, 46), (1, 999), (360, 48)];
    for (a, b) in pairs {
        assert_eq!(a.gcd(b), b.gcd(a));
    }
}

#[test]
fn gcd_lcm_product() {
    // gcd(a,b) * lcm(a,b) == a * b
    assert_eq!(12u64.gcd(18), 6);
    assert_eq!(12u64.lcm(18), 36);
    assert_eq!(12u64.gcd(18) * 12u64.lcm(18), 12 * 18);
    assert_eq!(35u64.gcd(64), 1);
    assert_eq!(35u64.lcm(64) * 35u64.gcd(64), 35 * 64);
    assert_eq!(4i64.lcm(6), 12);
}

#[test]
fn bezout_identity() {
    // extended_euclidean(a, b) == (x, y, g) with x*a + y*b == g
    let (x, y, g) = extended_euclidean(240i64, 46i64);
    assert_eq!(g, 2);
    assert_eq!(x * 240 + y * 46, g);
    let (x, y, g) = extended_euclidean(46i64, 240i64);
    assert_eq!(g, 2);
    assert_eq!(x * 46 + y * 240, g);
    let (x, y, g) = extended_euclidean(17i64, 13i64);
    assert_eq!(g, 1);
    assert_eq!(x * 17 + y * 13, g);
    let (x, y, g) = extended_euclidean(-240i64, 46i64);
    assert_eq!(x * -240 + y * 46, g);
    // the zero convention propagates
    assert_eq!(extended_euclidean(0i64, 5i64), (0, 0, 0));

    let (x, y, g) = 240i64.bezout_with_gcd(46);
    assert_eq!(x * 240 + y * 46, g);
    let (x, y) = 240i64.bezout_coefficients(46);
    assert_eq!(x * 240 + y * 46, 2);
}

#[test]
fn primality_fixtures() {
    assert!(miller_rabin(2u64));
    assert!(!miller_rabin(1u64));
    assert!(!miller_rabin(0u64));
    assert!(!miller_rabin(341550071728320u64));
    assert!(miller_rabin(18446744073709551557u64));
    assert!(!miller_rabin(18446744073709551559u64));
    assert!(!miller_rabin(91u64));
    assert!(miller_rabin(2305843009213693951u64));
}

#[test]
fn witness_table_boundaries() {
    // every tabulated threshold is an odd composite (the least strong
    // pseudoprime defeating the previous witness set), so the engine must
    // reject it and its even neighbors on both sides
    let thresholds: [u64; 11] = [
        2047,
        1373653,
        9080191,
        25326001,
        3215031751,
        4759123141,
        1122004669633,
        2152302898747,
        3474749660383,
        341550071728321,
        3825123056546413051,
    ];
    for t in thresholds {
        assert!(!miller_rabin(t - 1), "{} - 1", t);
        assert!(!miller_rabin(t), "{}", t);
        assert!(!miller_rabin(t + 1), "{} + 1", t);
    }
    let wide_thresholds: [u128; 2] = [318665857834031151167461, 3317044064679887385961981];
    for t in wide_thresholds {
        assert!(!miller_rabin(t - 1), "{} - 1", t);
        assert!(!miller_rabin(t), "{}", t);
        assert!(!miller_rabin(t + 1), "{} + 1", t);
    }
    // primes on both sides of the first boundary select different witness
    // sets and survive both
    assert!(miller_rabin(2039u64));
    assert!(miller_rabin(2053u64));
    // a prime past the last tabulated threshold takes the exhaustive path
    assert!(miller_rabin(618970019642690137449562111u128));
    assert!(!miller_rabin(618970019642690137449562113u128));
}

#[test]
fn repeated_invocation_is_identical() {
    assert_eq!(euclidean(240u64, 46u64), euclidean(240u64, 46u64));
    assert_eq!(miller_rabin(65521u16), miller_rabin(65521u16));
    assert_eq!(1971813u32.factors(), 1971813u32.factors());
    assert_eq!(
        extended_euclidean(240i64, 46i64),
        extended_euclidean(240i64, 46i64)
    );
}

#[test]
fn divisibility_queries() {
    assert!(3u64.divides(12));
    assert!(!5u64.divides(12));
    assert!(0u64.divides(0));
    assert!(!0u64.divides(7));
    assert_eq!(3u64.divide(12), Some(4));
    assert_eq!(5u64.divide(12), None);
    assert!(1u64.unit());
    assert!(!2u64.unit());
    assert_eq!(1u64.inverse(), Some(1));
    assert_eq!(6u64.inverse(), None);
}

#[test]
fn factor_edges() {
    assert_eq!(0u64.factors(), vec![0]);
    assert_eq!(1u64.factors(), Vec::<u64>::new());
    assert_eq!(2u64.factors(), vec![2]);
    assert_eq!(97u64.factors(), vec![97]);
    assert_eq!((-128i8).factors(), vec![-1, 2, 2, 2, 2, 2, 2, 2]);
    let min_factors = i64::MIN.factors();
    assert_eq!(min_factors.len(), 64);
    assert_eq!(min_factors[0], -1);
    for f in &min_factors[1..] {
        assert_eq!(*f, 2);
    }
}

#[test]
fn bound_wrapping_round_trip() {
    let b = 5u64.b();
    assert_eq!(*b.ur(), 5);
    assert_eq!(b.u(), 5);
}
