//! Factorization into primes by trial division, and the divisibility and
//! primality capabilities of the machine integers.
//!
//! The factorization of a natural is pinned to `prime_factors`, the chain
//! of least divisors: each returned factor is the smallest divisor of the
//! remaining cofactor, which is what makes the list ascending and every
//! entry prime. Zero factors as the single entry zero, one as the empty
//! list, and a negative operand contributes a leading negative unit.

use vstd::prelude::*;
use vstd::arithmetic::div_mod::{
    lemma_div_decreases, lemma_div_non_zero, lemma_fundamental_div_mod, lemma_mod_bound,
    lemma_mod_multiples_basic,
};
use vstd::assert_seqs_equal;

use crate::primality::{miller_rabin, mr_spec};
use crate::ring_like::{Divisibility, Factorizable, Primality};

verus! {

/// The least divisor of `n` that is at least `c`; `n` itself when no
/// smaller one exists.
pub open spec fn least_factor(n: nat, c: nat) -> nat
    decreases n - c,
        when 2 <= c <= n
{
    if n % c == 0 {
        c
    } else if c < n {
        least_factor(n, c + 1)
    } else {
        n
    }
}

/// The least factor lies between its starting point and `n`, and divides
/// `n`.
pub proof fn lemma_least_factor_bounds(n: nat, c: nat)
    requires
        2 <= c <= n,
    ensures
        c <= least_factor(n, c) <= n,
        n % least_factor(n, c) == 0,
    decreases n - c,
{
    if n % c == 0 {
    } else if c < n {
        lemma_least_factor_bounds(n, c + 1);
    } else {
        lemma_mod_self_0_local(n);
        assert(false);
    }
}

/// A divisor below which no divisor exists is the least factor.
pub proof fn lemma_least_factor_is(n: nat, c: nat, d: nat)
    requires
        2 <= c <= d <= n,
        n % d == 0,
        forall|e: nat| c <= e < d ==> #[trigger] (n % e) != 0,
    ensures
        least_factor(n, c) == d,
    decreases d - c,
{
    if c == d {
    } else {
        lemma_least_factor_is(n, c + 1, d);
    }
}

/// The prime factorization of a natural, in ascending order with
/// multiplicity: the chain of least divisors of the successive cofactors.
/// Zero and one have no factors here; callers treat zero specially.
pub open spec fn prime_factors(n: nat) -> Seq<nat>
    decreases n,
        via prime_factors_decreases
{
    if n <= 1 {
        Seq::empty()
    } else {
        seq![least_factor(n, 2)] + prime_factors(n / least_factor(n, 2))
    }
}

#[via_fn]
proof fn prime_factors_decreases(n: nat) {
    if n > 1 {
        lemma_least_factor_bounds(n, 2);
        lemma_div_decreases(n as int, least_factor(n, 2) as int);
    }
}

/// Divisibility is transitive.
proof fn lemma_divides_trans(e: nat, k: nat, n: nat)
    requires
        e > 0,
        k > 0,
        k % e == 0,
        n % k == 0,
    ensures
        n % e == 0,
{
    lemma_fundamental_div_mod(k as int, e as int);
    lemma_fundamental_div_mod(n as int, k as int);
    let ke = k as int / e as int;
    let nk = n as int / k as int;
    assert(n as int == e as int * (ke * nk)) by (nonlinear_arith)
        requires
            k as int == e as int * ke,
            n as int == k as int * nk,
    ;
    lemma_mod_multiples_basic(ke * nk, e as int);
    assert((e as int * (ke * nk)) % (e as int) == ((ke * nk) * e as int) % (e as int))
        by (nonlinear_arith);
}

/// Every entry of the factorization is at most the number itself.
pub proof fn lemma_prime_factors_le(n: nat)
    ensures
        forall|i: int| 0 <= i < prime_factors(n).len() ==> #[trigger] prime_factors(n)[i] <= n,
    decreases n,
{
    if n > 1 {
        lemma_least_factor_bounds(n, 2);
        let p = least_factor(n, 2);
        lemma_div_decreases(n as int, p as int);
        lemma_prime_factors_le(n / p);
        assert(forall|i: int|
            0 <= i < prime_factors(n).len() ==> #[trigger] prime_factors(n)[i] <= n) by {
            assert forall|i: int| 0 <= i < prime_factors(n).len() implies #[trigger] prime_factors(
                n,
            )[i] <= n by {
                if i > 0 {
                    assert(prime_factors(n)[i] == prime_factors(n / p)[i - 1]);
                }
            }
        }
    }
}

/// A natural is prime when it is at least two and nothing between two and
/// itself divides it.
pub open spec fn is_prime_nat(p: nat) -> bool {
    p >= 2 && forall|d: nat| 2 <= d < p ==> #[trigger] (p % d) != 0
}

/// The product of a sequence of naturals.
pub open spec fn seq_product(s: Seq<nat>) -> nat
    decreases s.len(),
{
    if s.len() == 0 {
        1
    } else {
        s[0] * seq_product(s.subrange(1, s.len() as int))
    }
}

/// Nothing below the least factor divides the number.
proof fn lemma_least_factor_no_smaller(n: nat, c: nat)
    requires
        2 <= c <= n,
    ensures
        forall|e: nat| c <= e < least_factor(n, c) ==> #[trigger] (n % e) != 0,
    decreases n - c,
{
    if n % c == 0 {
    } else if c < n {
        lemma_least_factor_no_smaller(n, c + 1);
    }
}

/// The least factor of a number is prime: a smaller divisor of it would
/// divide the number itself.
proof fn lemma_least_factor_prime(n: nat)
    requires
        n >= 2,
    ensures
        is_prime_nat(least_factor(n, 2)),
{
    let p = least_factor(n, 2);
    lemma_least_factor_bounds(n, 2);
    lemma_least_factor_no_smaller(n, 2);
    assert forall|d: nat| 2 <= d < p implies #[trigger] (p % d) != 0 by {
        if p % d == 0 {
            lemma_divides_trans(d, p, n);
        }
    }
}

/// The factorization multiplies back to the number.
pub proof fn lemma_prime_factors_product(n: nat)
    requires
        n >= 1,
    ensures
        seq_product(prime_factors(n)) == n,
    decreases n,
{
    if n >= 2 {
        let p = least_factor(n, 2);
        lemma_least_factor_bounds(n, 2);
        lemma_div_decreases(n as int, p as int);
        lemma_div_non_zero(n as int, p as int);
        lemma_prime_factors_product(n / p);
        let s = prime_factors(n);
        assert(s[0] == p);
        assert_seqs_equal!(s.subrange(1, s.len() as int) == prime_factors(n / p));
        lemma_fundamental_div_mod(n as int, p as int);
        assert(p * (n / p) == n);
    }
}

/// Every entry of the factorization is prime.
pub proof fn lemma_prime_factors_prime(n: nat)
    ensures
        forall|i: int|
            0 <= i < prime_factors(n).len() ==> is_prime_nat(#[trigger] prime_factors(n)[i]),
    decreases n,
{
    if n >= 2 {
        let p = least_factor(n, 2);
        lemma_least_factor_bounds(n, 2);
        lemma_least_factor_prime(n);
        lemma_div_decreases(n as int, p as int);
        lemma_prime_factors_prime(n / p);
        assert forall|i: int|
            0 <= i < prime_factors(n).len() implies is_prime_nat(
            #[trigger] prime_factors(n)[i],
        ) by {
            if i > 0 {
                assert(prime_factors(n)[i] == prime_factors(n / p)[i - 1]);
            }
        }
    }
}

/// Every entry of the factorization divides the number.
pub proof fn lemma_prime_factors_divide(n: nat)
    ensures
        forall|i: int|
            0 <= i < prime_factors(n).len() ==> n % (#[trigger] prime_factors(n)[i]) == 0,
    decreases n,
{
    if n >= 2 {
        let p = least_factor(n, 2);
        lemma_least_factor_bounds(n, 2);
        lemma_div_decreases(n as int, p as int);
        lemma_div_non_zero(n as int, p as int);
        lemma_prime_factors_divide(n / p);
        lemma_prime_factors_prime(n / p);
        lemma_fundamental_div_mod(n as int, p as int);
        lemma_mod_multiples_basic(p as int, (n / p) as int);
        assert(n % (n / p) == 0);
        assert forall|i: int|
            0 <= i < prime_factors(n).len() implies n % (#[trigger] prime_factors(n)[i])
            == 0 by {
            if i > 0 {
                let x = prime_factors(n / p)[i - 1];
                assert(prime_factors(n)[i] == x);
                assert((n / p) % x == 0);
                assert(is_prime_nat(x));
                lemma_divides_trans(x, n / p, n);
            }
        }
    }
}

/// The factorization is ascending: each entry is the least divisor of what
/// remains, so no later entry can drop below an earlier one.
pub proof fn lemma_prime_factors_sorted(n: nat)
    ensures
        forall|i: int, j: int|
            0 <= i < j < prime_factors(n).len() ==> #[trigger] prime_factors(n)[i]
                <= #[trigger] prime_factors(n)[j],
    decreases n,
{
    if n >= 2 {
        let p = least_factor(n, 2);
        lemma_least_factor_bounds(n, 2);
        lemma_least_factor_no_smaller(n, 2);
        lemma_div_decreases(n as int, p as int);
        lemma_div_non_zero(n as int, p as int);
        lemma_prime_factors_sorted(n / p);
        lemma_prime_factors_divide(n / p);
        lemma_prime_factors_prime(n / p);
        lemma_fundamental_div_mod(n as int, p as int);
        lemma_mod_multiples_basic(p as int, (n / p) as int);
        assert(n % (n / p) == 0);
        assert forall|i: int, j: int|
            0 <= i < j < prime_factors(n).len() implies #[trigger] prime_factors(n)[i]
            <= #[trigger] prime_factors(n)[j] by {
            assert(prime_factors(n)[j] == prime_factors(n / p)[j - 1]);
            let y = prime_factors(n / p)[j - 1];
            if i == 0 {
                // a later entry divides the cofactor, hence the number, so
                // it cannot lie below the least factor
                assert((n / p) % y == 0);
                assert(is_prime_nat(y));
                lemma_divides_trans(y, n / p, n);
                if y < p {
                    assert(n % y != 0);
                }
            } else {
                assert(prime_factors(n)[i] == prime_factors(n / p)[i - 1]);
            }
        }
    }
}

/// Factors a 64-bit natural into its ascending prime factorization by
/// trial division; zero yields the single factor zero.
pub fn factor_u64(n: u64) -> (r: Vec<u64>)
    ensures
        n == 0 ==> r@ == seq![0u64],
        n > 0 ==> r@.map(|i: int, v: u64| v as nat) == prime_factors(n as nat),
{
    let mut out: Vec<u64> = Vec::new();
    if n == 0 {
        out.push(0);
        proof {
            assert_seqs_equal!(out@ == seq![0u64]);
        }
        return out;
    }
    let mut m = n;
    let mut d: u64 = 2;
    proof {
        assert(prime_factors(n as nat) == Seq::<nat>::empty() + prime_factors(n as nat));
        assert_seqs_equal!(
            out@.map(|i: int, v: u64| v as nat) == Seq::<nat>::empty()
        );
    }
    while d <= m / d
        invariant
            1 <= m <= n,
            2 <= d,
            prime_factors(n as nat) == out@.map(|i: int, v: u64| v as nat) + prime_factors(
                m as nat,
            ),
            forall|e: nat| 2 <= e < d as nat ==> #[trigger] ((m as nat) % e) != 0,
        decreases m, m as int - d as int,
    {
        proof {
            // d fits a square below m, so neither d + 1 nor the division
            // below can misbehave
            lemma_fundamental_div_mod(m as int, d as int);
            lemma_mod_bound(m as int, d as int);
            assert(d as int * d as int <= m as int) by (nonlinear_arith)
                requires
                    d as int <= m as int / d as int,
                    d >= 2,
                    m as int == d as int * (m as int / d as int) + m as int % d as int,
                    0 <= m as int % d as int,
            ;
            assert(d < u64::MAX) by (nonlinear_arith)
                requires
                    d as int * d as int <= u64::MAX as int,
                    d >= 2,
            ;
        }
        if m % d == 0 {
            let ghost m_old = m as nat;
            let ghost out_old = out@;
            out.push(d);
            m = m / d;
            proof {
                lemma_mod_bound(m_old as int, d as int);
                lemma_least_factor_is(m_old, 2, d as nat);
                assert(prime_factors(m_old) == seq![d as nat] + prime_factors(m_old / (d as nat)));
                assert(m as nat == m_old / (d as nat));
                lemma_div_decreases(m_old as int, d as int);
                assert(d as nat <= m_old) by (nonlinear_arith)
                    requires
                        d as nat * d as nat <= m_old,
                        d >= 2,
                ;
                lemma_div_non_zero(m_old as int, d as int);
                assert_seqs_equal!(
                    out@.map(|i: int, v: u64| v as nat)
                        == out_old.map(|i: int, v: u64| v as nat) + seq![d as nat]
                );
                assert_seqs_equal!(
                    out_old.map(|i: int, v: u64| v as nat) + prime_factors(m_old)
                        == out@.map(|i: int, v: u64| v as nat) + prime_factors(m as nat)
                );
                // no divisor below d survives the division
                assert forall|e: nat| 2 <= e < d as nat implies #[trigger] ((m as nat) % e) != 0 by {
                    if (m as nat) % e == 0 {
                        lemma_fundamental_div_mod(m_old as int, d as int);
                        lemma_mod_multiples_basic(d as int, m as int);
                        assert(m_old as int == (d as int) * (m as int));
                        assert(m_old % (m as nat) == 0);
                        lemma_divides_trans(e, m as nat, m_old);
                    }
                }
            }
        } else {
            proof {
                assert(2 * d as int <= d as int * d as int) by (nonlinear_arith)
                    requires
                        d >= 2,
                ;
            }
            d = d + 1;
        }
    }
    // what remains has no divisor up to its square root, so it is prime
    if m > 1 {
        let ghost m_fin = m as nat;
        proof {
            assert forall|e: nat| 2 <= e < m_fin implies #[trigger] (m_fin % e) != 0 by {
                if m_fin % e == 0 {
                    if e >= d as nat {
                        lemma_fundamental_div_mod(m_fin as int, e as int);
                        lemma_mod_bound(m_fin as int, e as int);
                        lemma_fundamental_div_mod(m_fin as int, d as int);
                        lemma_mod_bound(m_fin as int, d as int);
                        let c = m_fin / e;
                        assert(c >= 2 && c < d as nat) by (nonlinear_arith)
                            requires
                                m_fin as int == e as int * (m_fin as int / e as int) + m_fin as int
                                    % e as int,
                                m_fin % e == 0,
                                c == m_fin / e,
                                2 <= e < m_fin,
                                e >= d as nat,
                                d as nat > m_fin / (d as nat),
                                m_fin as int == d as int * (m_fin as int / d as int) + m_fin as int
                                    % d as int,
                                0 <= m_fin as int % (d as int),
                                m_fin as int % (d as int) < d as int,
                                d >= 2,
                        ;
                        lemma_mod_multiples_basic(e as int, c as int);
                        assert(m_fin % c == 0);
                    }
                }
            }
            lemma_least_factor_is(m_fin, 2, m_fin);
            lemma_mod_self_0_local(m_fin);
            assert(prime_factors(m_fin) == seq![m_fin] + prime_factors(m_fin / m_fin));
            assert(m_fin / m_fin == 1) by (nonlinear_arith)
                requires
                    m_fin >= 2,
            ;
        }
        let ghost out_old = out@;
        out.push(m);
        proof {
            assert_seqs_equal!(
                out@.map(|i: int, v: u64| v as nat)
                    == out_old.map(|i: int, v: u64| v as nat) + seq![m as nat]
            );
            assert_seqs_equal!(
                out@.map(|i: int, v: u64| v as nat) == prime_factors(n as nat)
            );
        }
    } else {
        proof {
            assert_seqs_equal!(
                out@.map(|i: int, v: u64| v as nat) == prime_factors(n as nat)
            );
        }
    }
    out
}

/// A number divides itself.
proof fn lemma_mod_self_0_local(n: nat)
    requires
        n > 0,
    ensures
        n % n == 0,
{
    lemma_mod_multiples_basic(1, n as int);
    assert(1 * n as int == n as int) by (nonlinear_arith);
}


/// An even number's factorization starts with two.
pub proof fn lemma_prime_factors_even(n: nat)
    requires
        n >= 2,
        n % 2 == 0,
    ensures
        prime_factors(n) == seq![2nat] + prime_factors(n / 2),
{
    assert(least_factor(n, 2) == 2);
}

impl Factorizable for u64 {
    open spec fn factors_spec(self) -> Seq<u64> {
        if self == 0 {
            seq![0u64]
        } else {
            prime_factors(self as nat).map(|i: int, v: nat| v as u64)
        }
    }

    fn factors(self) -> (r: Vec<u64>) {
        let out = factor_u64(self);
        proof {
            if self > 0 {
                lemma_prime_factors_le(self as nat);
                assert_seqs_equal!(out@ == self.factors_spec(), i => {
                    assert(out@.map(|j: int, v: u64| v as nat)[i]
                        == prime_factors(self as nat)[i]);
                });
            }
        }
        out
    }
}

impl Factorizable for u8 {
    open spec fn factors_spec(self) -> Seq<u8> {
        if self == 0 {
            seq![0u8]
        } else {
            prime_factors(self as nat).map(|i: int, v: nat| v as u8)
        }
    }

    fn factors(self) -> (r: Vec<u8>) {
        let mut out: Vec<u8> = Vec::new();
        if self == 0 {
            out.push(0);
            proof {
                assert_seqs_equal!(out@ == self.factors_spec());
            }
            return out;
        }
        let ghost target = self.factors_spec();
        let v = factor_u64(self as u64);
        proof {
            lemma_prime_factors_le(self as nat);
            assert_seqs_equal!(out@ == target.subrange(0, 0));
        }
        let mut i: usize = 0;
        while i < v.len()
            invariant
                self > 0,
                v@.map(|j: int, x: u64| x as nat) == prime_factors(self as nat),
                forall|j: int|
                    0 <= j < prime_factors(self as nat).len() ==> #[trigger] prime_factors(
                        self as nat,
                    )[j] <= self as nat,
                target == self.factors_spec(),
                i <= v@.len(),
                out@ == target.subrange(0, i as int),
            decreases v@.len() - i,
        {
            let x = v[i];
            proof {
                assert(x as nat == prime_factors(self as nat)[i as int]);
                assert(x <= 255);
                assert(target[i as int] == x as u8);
            }
            out.push(x as u8);
            proof {
                assert_seqs_equal!(out@ == target.subrange(0, i as int + 1));
            }
            i = i + 1;
        }
        proof {
            assert_seqs_equal!(out@ == target);
        }
        out
    }
}

impl Factorizable for u16 {
    open spec fn factors_spec(self) -> Seq<u16> {
        if self == 0 {
            seq![0u16]
        } else {
            prime_factors(self as nat).map(|i: int, v: nat| v as u16)
        }
    }

    fn factors(self) -> (r: Vec<u16>) {
        let mut out: Vec<u16> = Vec::new();
        if self == 0 {
            out.push(0);
            proof {
                assert_seqs_equal!(out@ == self.factors_spec());
            }
            return out;
        }
        let ghost target = self.factors_spec();
        let v = factor_u64(self as u64);
        proof {
            lemma_prime_factors_le(self as nat);
            assert_seqs_equal!(out@ == target.subrange(0, 0));
        }
        let mut i: usize = 0;
        while i < v.len()
            invariant
                self > 0,
                v@.map(|j: int, x: u64| x as nat) == prime_factors(self as nat),
                forall|j: int|
                    0 <= j < prime_factors(self as nat).len() ==> #[trigger] prime_factors(
                        self as nat,
                    )[j] <= self as nat,
                target == self.factors_spec(),
                i <= v@.len(),
                out@ == target.subrange(0, i as int),
            decreases v@.len() - i,
        {
            let x = v[i];
            proof {
                assert(x as nat == prime_factors(self as nat)[i as int]);
                assert(x <= 65535);
                assert(target[i as int] == x as u16);
            }
            out.push(x as u16);
            proof {
                assert_seqs_equal!(out@ == target.subrange(0, i as int + 1));
            }
            i = i + 1;
        }
        proof {
            assert_seqs_equal!(out@ == target);
        }
        out
    }
}

impl Factorizable for u32 {
    open spec fn factors_spec(self) -> Seq<u32> {
        if self == 0 {
            seq![0u32]
        } else {
            prime_factors(self as nat).map(|i: int, v: nat| v as u32)
        }
    }

    fn factors(self) -> (r: Vec<u32>) {
        let mut out: Vec<u32> = Vec::new();
        if self == 0 {
            out.push(0);
            proof {
                assert_seqs_equal!(out@ == self.factors_spec());
            }
            return out;
        }
        let ghost target = self.factors_spec();
        let v = factor_u64(self as u64);
        proof {
            lemma_prime_factors_le(self as nat);
            assert_seqs_equal!(out@ == target.subrange(0, 0));
        }
        let mut i: usize = 0;
        while i < v.len()
            invariant
                self > 0,
                v@.map(|j: int, x: u64| x as nat) == prime_factors(self as nat),
                forall|j: int|
                    0 <= j < prime_factors(self as nat).len() ==> #[trigger] prime_factors(
                        self as nat,
                    )[j] <= self as nat,
                target == self.factors_spec(),
                i <= v@.len(),
                out@ == target.subrange(0, i as int),
            decreases v@.len() - i,
        {
            let x = v[i];
            proof {
                assert(x as nat == prime_factors(self as nat)[i as int]);
                assert(x <= 4294967295);
                assert(target[i as int] == x as u32);
            }
            out.push(x as u32);
            proof {
                assert_seqs_equal!(out@ == target.subrange(0, i as int + 1));
            }
            i = i + 1;
        }
        proof {
            assert_seqs_equal!(out@ == target);
        }
        out
    }
}

impl Factorizable for i8 {
    open spec fn factors_spec(self) -> Seq<i8> {
        if self == 0 {
            seq![0i8]
        } else if self > 0 {
            prime_factors(self as nat).map(|i: int, v: nat| v as i8)
        } else {
            seq![-1i8] + prime_factors((-(self as int)) as nat).map(|i: int, v: nat| v as i8)
        }
    }

    fn factors(self) -> (r: Vec<i8>) {
        let mut out: Vec<i8> = Vec::new();
        if self == 0 {
            out.push(0);
            proof {
                assert_seqs_equal!(out@ == self.factors_spec());
            }
            return out;
        }
        let ghost target = self.factors_spec();
        let ghost pre: int = if self < 0 { 1 } else { 0 };
        if self < 0 {
            out.push(-1);
        }
        let mag: u64 = if self == i8::MIN {
            128u64
        } else if self < 0 {
            (-self) as u64
        } else {
            self as u64
        };
        proof {
            lemma_prime_factors_le(mag as nat);
            if self == i8::MIN {
                lemma_prime_factors_even(mag as nat);
                lemma_prime_factors_le((mag as nat) / 2);
            }
            assert forall|j: int|
                0 <= j < prime_factors(mag as nat).len() implies #[trigger] prime_factors(
                mag as nat,
            )[j] <= 127 as nat by {
                if self == i8::MIN && j > 0 {
                    assert(prime_factors(mag as nat)[j] == prime_factors((mag as nat) / 2)[j - 1]);
                }
            }
            assert_seqs_equal!(out@ == target.subrange(0, pre));
        }
        let v = factor_u64(mag);
        let mut i: usize = 0;
        while i < v.len()
            invariant
                self != 0,
                pre == (if self < 0 { 1int } else { 0int }),
                mag as nat == (if self > 0 { self as nat } else { (-(self as int)) as nat }),
                mag >= 1,
                v@.map(|j: int, x: u64| x as nat) == prime_factors(mag as nat),
                forall|j: int|
                    0 <= j < prime_factors(mag as nat).len() ==> #[trigger] prime_factors(
                        mag as nat,
                    )[j] <= 127 as nat,
                target == self.factors_spec(),
                target.len() == pre + v@.len(),
                i <= v@.len(),
                out@ == target.subrange(0, pre + i as int),
            decreases v@.len() - i,
        {
            let x = v[i];
            proof {
                assert(x as nat == prime_factors(mag as nat)[i as int]);
                assert(x <= 127);
                assert(target[pre + i as int] == x as i8);
            }
            out.push(x as i8);
            proof {
                assert_seqs_equal!(out@ == target.subrange(0, pre + i as int + 1));
            }
            i = i + 1;
        }
        proof {
            assert_seqs_equal!(out@ == target);
        }
        out
    }
}

impl Factorizable for i16 {
    open spec fn factors_spec(self) -> Seq<i16> {
        if self == 0 {
            seq![0i16]
        } else if self > 0 {
            prime_factors(self as nat).map(|i: int, v: nat| v as i16)
        } else {
            seq![-1i16] + prime_factors((-(self as int)) as nat).map(|i: int, v: nat| v as i16)
        }
    }

    fn factors(self) -> (r: Vec<i16>) {
        let mut out: Vec<i16> = Vec::new();
        if self == 0 {
            out.push(0);
            proof {
                assert_seqs_equal!(out@ == self.factors_spec());
            }
            return out;
        }
        let ghost target = self.factors_spec();
        let ghost pre: int = if self < 0 { 1 } else { 0 };
        if self < 0 {
            out.push(-1);
        }
        let mag: u64 = if self == i16::MIN {
            32768u64
        } else if self < 0 {
            (-self) as u64
        } else {
            self as u64
        };
        proof {
            lemma_prime_factors_le(mag as nat);
            if self == i16::MIN {
                lemma_prime_factors_even(mag as nat);
                lemma_prime_factors_le((mag as nat) / 2);
            }
            assert forall|j: int|
                0 <= j < prime_factors(mag as nat).len() implies #[trigger] prime_factors(
                mag as nat,
            )[j] <= 32767 as nat by {
                if self == i16::MIN && j > 0 {
                    assert(prime_factors(mag as nat)[j] == prime_factors((mag as nat) / 2)[j - 1]);
                }
            }
            assert_seqs_equal!(out@ == target.subrange(0, pre));
        }
        let v = factor_u64(mag);
        let mut i: usize = 0;
        while i < v.len()
            invariant
                self != 0,
                pre == (if self < 0 { 1int } else { 0int }),
                mag as nat == (if self > 0 { self as nat } else { (-(self as int)) as nat }),
                mag >= 1,
                v@.map(|j: int, x: u64| x as nat) == prime_factors(mag as nat),
                forall|j: int|
                    0 <= j < prime_factors(mag as nat).len() ==> #[trigger] prime_factors(
                        mag as nat,
                    )[j] <= 32767 as nat,
                target == self.factors_spec(),
                target.len() == pre + v@.len(),
                i <= v@.len(),
                out@ == target.subrange(0, pre + i as int),
            decreases v@.len() - i,
        {
            let x = v[i];
            proof {
                assert(x as nat == prime_factors(mag as nat)[i as int]);
                assert(x <= 32767);
                assert(target[pre + i as int] == x as i16);
            }
            out.push(x as i16);
            proof {
                assert_seqs_equal!(out@ == target.subrange(0, pre + i as int + 1));
            }
            i = i + 1;
        }
        proof {
            assert_seqs_equal!(out@ == target);
        }
        out
    }
}

impl Factorizable for i32 {
    open spec fn factors_spec(self) -> Seq<i32> {
        if self == 0 {
            seq![0i32]
        } else if self > 0 {
            prime_factors(self as nat).map(|i: int, v: nat| v as i32)
        } else {
            seq![-1i32] + prime_factors((-(self as int)) as nat).map(|i: int, v: nat| v as i32)
        }
    }

    fn factors(self) -> (r: Vec<i32>) {
        let mut out: Vec<i32> = Vec::new();
        if self == 0 {
            out.push(0);
            proof {
                assert_seqs_equal!(out@ == self.factors_spec());
            }
            return out;
        }
        let ghost target = self.factors_spec();
        let ghost pre: int = if self < 0 { 1 } else { 0 };
        if self < 0 {
            out.push(-1);
        }
        let mag: u64 = if self == i32::MIN {
            2147483648u64
        } else if self < 0 {
            (-self) as u64
        } else {
            self as u64
        };
        proof {
            lemma_prime_factors_le(mag as nat);
            if self == i32::MIN {
                lemma_prime_factors_even(mag as nat);
                lemma_prime_factors_le((mag as nat) / 2);
            }
            assert forall|j: int|
                0 <= j < prime_factors(mag as nat).len() implies #[trigger] prime_factors(
                mag as nat,
            )[j] <= 2147483647 as nat by {
                if self == i32::MIN && j > 0 {
                    assert(prime_factors(mag as nat)[j] == prime_factors((mag as nat) / 2)[j - 1]);
                }
            }
            assert_seqs_equal!(out@ == target.subrange(0, pre));
        }
        let v = factor_u64(mag);
        let mut i: usize = 0;
        while i < v.len()
            invariant
                self != 0,
                pre == (if self < 0 { 1int } else { 0int }),
                mag as nat == (if self > 0 { self as nat } else { (-(self as int)) as nat }),
                mag >= 1,
                v@.map(|j: int, x: u64| x as nat) == prime_factors(mag as nat),
                forall|j: int|
                    0 <= j < prime_factors(mag as nat).len() ==> #[trigger] prime_factors(
                        mag as nat,
                    )[j] <= 2147483647 as nat,
                target == self.factors_spec(),
                target.len() == pre + v@.len(),
                i <= v@.len(),
                out@ == target.subrange(0, pre + i as int),
            decreases v@.len() - i,
        {
            let x = v[i];
            proof {
                assert(x as nat == prime_factors(mag as nat)[i as int]);
                assert(x <= 2147483647);
                assert(target[pre + i as int] == x as i32);
            }
            out.push(x as i32);
            proof {
                assert_seqs_equal!(out@ == target.subrange(0, pre + i as int + 1));
            }
            i = i + 1;
        }
        proof {
            assert_seqs_equal!(out@ == target);
        }
        out
    }
}

impl Factorizable for i64 {
    open spec fn factors_spec(self) -> Seq<i64> {
        if self == 0 {
            seq![0i64]
        } else if self > 0 {
            prime_factors(self as nat).map(|i: int, v: nat| v as i64)
        } else {
            seq![-1i64] + prime_factors((-(self as int)) as nat).map(|i: int, v: nat| v as i64)
        }
    }

    fn factors(self) -> (r: Vec<i64>) {
        let mut out: Vec<i64> = Vec::new();
        if self == 0 {
            out.push(0);
            proof {
                assert_seqs_equal!(out@ == self.factors_spec());
            }
            return out;
        }
        let ghost target = self.factors_spec();
        let ghost pre: int = if self < 0 { 1 } else { 0 };
        if self < 0 {
            out.push(-1);
        }
        let mag: u64 = if self == i64::MIN {
            9223372036854775808u64
        } else if self < 0 {
            (-self) as u64
        } else {
            self as u64
        };
        proof {
            lemma_prime_factors_le(mag as nat);
            if self == i64::MIN {
                lemma_prime_factors_even(mag as nat);
                lemma_prime_factors_le((mag as nat) / 2);
            }
            assert forall|j: int|
                0 <= j < prime_factors(mag as nat).len() implies #[trigger] prime_factors(
                mag as nat,
            )[j] <= 9223372036854775807 as nat by {
                if self == i64::MIN && j > 0 {
                    assert(prime_factors(mag as nat)[j] == prime_factors((mag as nat) / 2)[j - 1]);
                }
            }
            assert_seqs_equal!(out@ == target.subrange(0, pre));
        }
        let v = factor_u64(mag);
        let mut i: usize = 0;
        while i < v.len()
            invariant
                self != 0,
                pre == (if self < 0 { 1int } else { 0int }),
                mag as nat == (if self > 0 { self as nat } else { (-(self as int)) as nat }),
                mag >= 1,
                v@.map(|j: int, x: u64| x as nat) == prime_factors(mag as nat),
                forall|j: int|
                    0 <= j < prime_factors(mag as nat).len() ==> #[trigger] prime_factors(
                        mag as nat,
                    )[j] <= 9223372036854775807 as nat,
                target == self.factors_spec(),
                target.len() == pre + v@.len(),
                i <= v@.len(),
                out@ == target.subrange(0, pre + i as int),
            decreases v@.len() - i,
        {
            let x = v[i];
            proof {
                assert(x as nat == prime_factors(mag as nat)[i as int]);
                assert(x <= 9223372036854775807);
                assert(target[pre + i as int] == x as i64);
            }
            out.push(x as i64);
            proof {
                assert_seqs_equal!(out@ == target.subrange(0, pre + i as int + 1));
            }
            i = i + 1;
        }
        proof {
            assert_seqs_equal!(out@ == target);
        }
        out
    }
}

impl Divisibility for u8 {
    open spec fn divides_spec(self, rhs: u8) -> bool {
        if self == 0 {
            rhs == 0
        } else {
            rhs % self == 0
        }
    }

    open spec fn divide_spec(self, rhs: u8) -> Option<u8> {
        if self == 0 {
            if rhs == 0 {
                Some(0u8)
            } else {
                None
            }
        } else if rhs % self == 0 {
            Some((rhs / self) as u8)
        } else {
            None
        }
    }

    open spec fn unit_spec(&self) -> bool {
        *self == 1
    }

    open spec fn inverse_spec(self) -> Option<u8> {
        if self == 1 {
            Some(1u8)
        } else {
            None
        }
    }

    fn divides(self, rhs: u8) -> (r: bool) {
        if self == 0 {
            rhs == 0
        } else {
            rhs % self == 0
        }
    }

    fn divide(self, rhs: u8) -> (r: Option<u8>) {
        if self == 0 {
            if rhs == 0 {
                Some(0)
            } else {
                None
            }
        } else if rhs % self == 0 {
            Some(rhs / self)
        } else {
            None
        }
    }

    fn unit(&self) -> (r: bool) {
        *self == 1
    }

    fn inverse(self) -> (r: Option<u8>) {
        if self == 1 {
            Some(1)
        } else {
            None
        }
    }
}

impl Primality for u8 {
    open spec fn irreducible_spec(&self) -> bool {
        mr_spec(*self as nat)
    }

    open spec fn prime_spec(&self) -> bool {
        mr_spec(*self as nat)
    }

    fn irreducible(&self) -> (r: bool) {
        miller_rabin(*self)
    }

    fn prime(&self) -> (r: bool) {
        miller_rabin(*self)
    }
}

impl Divisibility for u16 {
    open spec fn divides_spec(self, rhs: u16) -> bool {
        if self == 0 {
            rhs == 0
        } else {
            rhs % self == 0
        }
    }

    open spec fn divide_spec(self, rhs: u16) -> Option<u16> {
        if self == 0 {
            if rhs == 0 {
                Some(0u16)
            } else {
                None
            }
        } else if rhs % self == 0 {
            Some((rhs / self) as u16)
        } else {
            None
        }
    }

    open spec fn unit_spec(&self) -> bool {
        *self == 1
    }

    open spec fn inverse_spec(self) -> Option<u16> {
        if self == 1 {
            Some(1u16)
        } else {
            None
        }
    }

    fn divides(self, rhs: u16) -> (r: bool) {
        if self == 0 {
            rhs == 0
        } else {
            rhs % self == 0
        }
    }

    fn divide(self, rhs: u16) -> (r: Option<u16>) {
        if self == 0 {
            if rhs == 0 {
                Some(0)
            } else {
                None
            }
        } else if rhs % self == 0 {
            Some(rhs / self)
        } else {
            None
        }
    }

    fn unit(&self) -> (r: bool) {
        *self == 1
    }

    fn inverse(self) -> (r: Option<u16>) {
        if self == 1 {
            Some(1)
        } else {
            None
        }
    }
}

impl Primality for u16 {
    open spec fn irreducible_spec(&self) -> bool {
        mr_spec(*self as nat)
    }

    open spec fn prime_spec(&self) -> bool {
        mr_spec(*self as nat)
    }

    fn irreducible(&self) -> (r: bool) {
        miller_rabin(*self)
    }

    fn prime(&self) -> (r: bool) {
        miller_rabin(*self)
    }
}

impl Divisibility for u32 {
    open spec fn divides_spec(self, rhs: u32) -> bool {
        if self == 0 {
            rhs == 0
        } else {
            rhs % self == 0
        }
    }

    open spec fn divide_spec(self, rhs: u32) -> Option<u32> {
        if self == 0 {
            if rhs == 0 {
                Some(0u32)
            } else {
                None
            }
        } else if rhs % self == 0 {
            Some((rhs / self) as u32)
        } else {
            None
        }
    }

    open spec fn unit_spec(&self) -> bool {
        *self == 1
    }

    open spec fn inverse_spec(self) -> Option<u32> {
        if self == 1 {
            Some(1u32)
        } else {
            None
        }
    }

    fn divides(self, rhs: u32) -> (r: bool) {
        if self == 0 {
            rhs == 0
        } else {
            rhs % self == 0
        }
    }

    fn divide(self, rhs: u32) -> (r: Option<u32>) {
        if self == 0 {
            if rhs == 0 {
                Some(0)
            } else {
                None
            }
        } else if rhs % self == 0 {
            Some(rhs / self)
        } else {
            None
        }
    }

    fn unit(&self) -> (r: bool) {
        *self == 1
    }

    fn inverse(self) -> (r: Option<u32>) {
        if self == 1 {
            Some(1)
        } else {
            None
        }
    }
}

impl Primality for u32 {
    open spec fn irreducible_spec(&self) -> bool {
        mr_spec(*self as nat)
    }

    open spec fn prime_spec(&self) -> bool {
        mr_spec(*self as nat)
    }

    fn irreducible(&self) -> (r: bool) {
        miller_rabin(*self)
    }

    fn prime(&self) -> (r: bool) {
        miller_rabin(*self)
    }
}

impl Divisibility for u64 {
    open spec fn divides_spec(self, rhs: u64) -> bool {
        if self == 0 {
            rhs == 0
        } else {
            rhs % self == 0
        }
    }

    open spec fn divide_spec(self, rhs: u64) -> Option<u64> {
        if self == 0 {
            if rhs == 0 {
                Some(0u64)
            } else {
                None
            }
        } else if rhs % self == 0 {
            Some((rhs / self) as u64)
        } else {
            None
        }
    }

    open spec fn unit_spec(&self) -> bool {
        *self == 1
    }

    open spec fn inverse_spec(self) -> Option<u64> {
        if self == 1 {
            Some(1u64)
        } else {
            None
        }
    }

    fn divides(self, rhs: u64) -> (r: bool) {
        if self == 0 {
            rhs == 0
        } else {
            rhs % self == 0
        }
    }

    fn divide(self, rhs: u64) -> (r: Option<u64>) {
        if self == 0 {
            if rhs == 0 {
                Some(0)
            } else {
                None
            }
        } else if rhs % self == 0 {
            Some(rhs / self)
        } else {
            None
        }
    }

    fn unit(&self) -> (r: bool) {
        *self == 1
    }

    fn inverse(self) -> (r: Option<u64>) {
        if self == 1 {
            Some(1)
        } else {
            None
        }
    }
}

impl Primality for u64 {
    open spec fn irreducible_spec(&self) -> bool {
        mr_spec(*self as nat)
    }

    open spec fn prime_spec(&self) -> bool {
        mr_spec(*self as nat)
    }

    fn irreducible(&self) -> (r: bool) {
        miller_rabin(*self)
    }

    fn prime(&self) -> (r: bool) {
        miller_rabin(*self)
    }
}

} // verus!
