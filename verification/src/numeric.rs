//! Exact integer arithmetic that the demonstration is built on: rationals
//! with a positive denominator, division rounded to the nearest integer,
//! and floor k-th roots.

use vstd::prelude::*;
use vstd::arithmetic::power::pow;
use vstd::arithmetic::power::lemma_pow0;
use vstd::arithmetic::power::lemma_pow1;
use vstd::math::abs;

verus! {

/// A rational number `num / den` with a positive denominator.
///
/// Derived quantities of the demonstration (volume, pressure, temperature,
/// energy, work, wall transforms) are exact values of this type.
#[derive(Clone, Copy, Debug)]
pub struct Frac {
    pub num: i64,
    pub den: i64,
}

impl Frac {
    /// A `Frac` is well formed when its denominator is positive.
    pub open spec fn wf(self) -> bool {
        self.den > 0
    }

    /// The two rationals are equal as numbers.
    pub open spec fn eq_frac(self, other: Frac) -> bool {
        self.num * other.den == other.num * self.den
    }

    /// Builds `num / den`.
    pub fn new(num: i64, den: i64) -> (r: Frac)
        requires
            den > 0,
        ensures
            r.num == num,
            r.den == den,
            r.wf(),
    {
        Frac { num, den }
    }

    /// Decides whether the two rationals are equal as numbers, by
    /// cross-multiplication.
    pub fn eq_value(&self, other: &Frac) -> (r: bool)
        ensures
            r == self.eq_frac(*other),
    {
        proof {
            assert(-0x4000_0000_0000_0000_0000_0000_0000_0000 <= (self.num as int) * (
            other.den as int) <= 0x4000_0000_0000_0000_0000_0000_0000_0000 &&
            -0x4000_0000_0000_0000_0000_0000_0000_0000 <= (other.num as int) * (self.den as int)
                <= 0x4000_0000_0000_0000_0000_0000_0000_0000) by (nonlinear_arith)
                requires
                    -0x8000_0000_0000_0000 <= self.num < 0x8000_0000_0000_0000,
                    -0x8000_0000_0000_0000 <= other.num < 0x8000_0000_0000_0000,
                    -0x8000_0000_0000_0000 <= self.den < 0x8000_0000_0000_0000,
                    -0x8000_0000_0000_0000 <= other.den < 0x8000_0000_0000_0000,
            ;
        }
        let a = (self.num as i128) * (other.den as i128);
        let b = (other.num as i128) * (self.den as i128);
        a == b
    }
}

/// `n / d` rounded to the nearest integer, halves away from zero.
pub open spec fn div_round(n: int, d: int) -> int
    recommends
        d > 0,
{
    if n >= 0 {
        (n + d / 2) / d
    } else {
        -((-n + d / 2) / d)
    }
}

/// Rounding to the nearest integer moves the value by at most half the
/// divisor: `2 * |div_round(n, d) * d - n| <= d + 1`.
pub proof fn lemma_div_round_close(n: int, d: int)
    requires
        d > 0,
    ensures
        2 * abs(div_round(n, d) * d - n) <= d + 1,
{
    if n >= 0 {
        lemma_div_round_close_nonneg(n, d);
    } else {
        let m = -n;
        let q = (m + d / 2) / d;
        lemma_div_round_close_nonneg(m, d);
        assert(div_round(n, d) * d - n == -(q * d - m)) by (nonlinear_arith)
            requires
                div_round(n, d) == -q,
                n == -m,
        ;
        assert(abs(-(q * d - m)) == abs(q * d - m));
    }
}

proof fn lemma_div_round_close_nonneg(n: int, d: int)
    requires
        d > 0,
        n >= 0,
    ensures
        2 * abs(((n + d / 2) / d) * d - n) <= d + 1,
{
    let q = (n + d / 2) / d;
    vstd::arithmetic::div_mod::lemma_fundamental_div_mod(n + d / 2, d);
    vstd::arithmetic::div_mod::lemma_fundamental_div_mod(d, 2);
    assert(q * d <= n + d / 2 < q * d + d) by (nonlinear_arith)
        requires
            d > 0,
            n + d / 2 == d * q + (n + d / 2) % d,
            0 <= (n + d / 2) % d < d,
    ;
}

/// An exact multiple divides back to itself: `div_round(a * d, d) == a`.
pub proof fn lemma_div_round_exact(a: int, d: int)
    requires
        d > 0,
    ensures
        div_round(a * d, d) == a,
{
    if a >= 0 {
        assert(a * d >= 0) by (nonlinear_arith)
            requires
                a >= 0,
                d > 0,
        ;
        lemma_div_round_exact_nonneg(a, d);
    } else {
        assert(a * d < 0 && -(a * d) == (-a) * d) by (nonlinear_arith)
            requires
                a < 0,
                d > 0,
        ;
        lemma_div_round_exact_nonneg(-a, d);
    }
}

proof fn lemma_div_round_exact_nonneg(a: int, d: int)
    requires
        d > 0,
        a >= 0,
    ensures
        (a * d + d / 2) / d == a,
{
    vstd::arithmetic::div_mod::lemma_fundamental_div_mod(d, 2);
    assert((a * d + d / 2) / d == a) by (nonlinear_arith)
        requires
            d > 0,
            a >= 0,
            0 <= d / 2 < d,
    {
        vstd::arithmetic::div_mod::lemma_div_multiples_vanish_fancy(a, d / 2, d);
    }
}

/// Division of `n` by `d`, rounded to the nearest integer (halves away
/// from zero).
pub fn div_round_i64(n: i64, d: i64) -> (r: i64)
    requires
        0 < d < 0x4000_0000_0000_0000,
        -0x4000_0000_0000_0000 < n < 0x4000_0000_0000_0000,
    ensures
        r == div_round(n as int, d as int),
        abs(r as int) <= abs(n as int),
{
    proof {
        lemma_round_quotient_bound(if n >= 0 { n as int } else { -n as int }, d as int);
    }
    if n >= 0 {
        (n + d / 2) / d
    } else {
        let m = -n;
        -((m + d / 2) / d)
    }
}

proof fn lemma_round_quotient_bound(m: int, d: int)
    requires
        m >= 0,
        d > 0,
    ensures
        0 <= (m + d / 2) / d <= m,
{
    vstd::arithmetic::div_mod::lemma_fundamental_div_mod(d, 2);
    vstd::arithmetic::div_mod::lemma_div_pos_is_pos(m + d / 2, d);
    assert((m + d / 2) / d <= m) by (nonlinear_arith)
        requires
            m >= 0,
            d > 0,
            0 <= d / 2 < d,
    {
        vstd::arithmetic::div_mod::lemma_fundamental_div_mod(m + d / 2, d);
    }
}

/// Rounded division of `a * b` by a divisor at least `b` stays between
/// `0` and `a`.
pub proof fn lemma_div_round_range(a: int, b: int, d: int)
    requires
        0 <= a,
        1 <= b <= d,
    ensures
        0 <= div_round(a * b, d) <= a,
{
    let n = a * b;
    assert(0 <= a * b <= a * d) by (nonlinear_arith)
        requires
            0 <= a,
            1 <= b <= d,
    ;
    vstd::arithmetic::div_mod::lemma_fundamental_div_mod(d, 2);
    vstd::arithmetic::div_mod::lemma_div_pos_is_pos(n + d / 2, d);
    vstd::arithmetic::div_mod::lemma_div_is_ordered(n + d / 2, a * d + d / 2, d);
    assert((a * d + d / 2) / d == a) by (nonlinear_arith)
        requires
            d > 0,
            a >= 0,
            0 <= d / 2 < d,
    {
        vstd::arithmetic::div_mod::lemma_div_multiples_vanish_fancy(a, d / 2, d);
    }
}

/// One unfolding of `pow` for a positive exponent.
proof fn lemma_pow_unfold(b: int, e: nat)
    requires
        e >= 1,
    ensures
        pow(b, e) == b * pow(b, (e - 1) as nat),
{
    reveal(pow);
}

/// A natural base raised to any power is nonnegative.
proof fn lemma_pow_nat_nonneg(a: nat, e: nat)
    ensures
        pow(a as int, e) >= 0,
{
    if a == 0 {
        if e == 0 {
            lemma_pow0(a as int);
        } else {
            vstd::arithmetic::power::lemma0_pow(e);
        }
    } else {
        vstd::arithmetic::power::lemma_pow_positive(a as int, e);
    }
}

/// `pow` is monotone in its base over the naturals.
pub proof fn lemma_pow_base_monotone(a: nat, b: nat, k: nat)
    requires
        a <= b,
    ensures
        pow(a as int, k) <= pow(b as int, k),
    decreases k,
{
    if k == 0 {
        lemma_pow0(a as int);
        lemma_pow0(b as int);
    } else {
        lemma_pow_base_monotone(a, b, (k - 1) as nat);
        lemma_pow_unfold(a as int, k);
        lemma_pow_unfold(b as int, k);
        lemma_pow_nat_nonneg(a, (k - 1) as nat);
        lemma_pow_nat_nonneg(b, (k - 1) as nat);
        assert(a * pow(a as int, (k - 1) as nat) <= b * pow(b as int, (k - 1) as nat))
            by (nonlinear_arith)
            requires
                a <= b,
                0 <= pow(a as int, (k - 1) as nat) <= pow(b as int, (k - 1) as nat),
        ;
    }
}

/// `pow` is strictly monotone in its base for a positive exponent.
pub proof fn lemma_pow_base_strict(a: nat, b: nat, k: nat)
    requires
        a < b,
        k >= 1,
    ensures
        pow(a as int, k) < pow(b as int, k),
    decreases k,
{
    if k == 1 {
        lemma_pow1(a as int);
        lemma_pow1(b as int);
    } else {
        lemma_pow_base_strict(a, b, (k - 1) as nat);
        lemma_pow_unfold(a as int, k);
        lemma_pow_unfold(b as int, k);
        vstd::arithmetic::power::lemma_pow_positive(b as int, (k - 1) as nat);
        lemma_pow_nat_nonneg(a, (k - 1) as nat);
        assert(a * pow(a as int, (k - 1) as nat) < b * pow(b as int, (k - 1) as nat))
            by (nonlinear_arith)
            requires
                a < b,
                0 < pow(b as int, (k - 1) as nat),
                pow(a as int, (k - 1) as nat) < pow(b as int, (k - 1) as nat),
                pow(a as int, (k - 1) as nat) >= 0,
        ;
    }
}

/// The cube of a small value, tied to `pow`.
pub fn pow3_u128(b: u128) -> (r: u128)
    requires
        b <= 0x1_0000_0000,
    ensures
        r == pow(b as int, 3),
        r <= 0x1_0000_0000_0000_0000_0000_0000,
        b <= 4096 ==> r <= 0x10_0000_0000,
{
    proof {
        lemma_pow0(b as int);
        lemma_pow_unfold(b as int, 1);
        lemma_pow_unfold(b as int, 2);
        lemma_pow_unfold(b as int, 3);
        assert(b * b <= 0x1_0000_0000_0000_0000 && (b * b) * b
            <= 0x1_0000_0000_0000_0000_0000_0000) by (nonlinear_arith)
            requires
                b <= 0x1_0000_0000,
        ;
        assert(b <= 4096 ==> (b * b) * b <= 0x10_0000_0000) by (nonlinear_arith);
        assert(pow(b as int, 3) == (b * b) * b) by (nonlinear_arith)
            requires
                pow(b as int, 3) == b * (b * (b * 1)),
        ;
    }
    b * b * b
}

/// The fifth power of a small value, tied to `pow`.
pub fn pow5_u128(b: u128) -> (r: u128)
    requires
        b <= 0x10_0000,
    ensures
        r == pow(b as int, 5),
        r <= 0x10_0000_0000_0000_0000_0000_0000,
        b <= 4096 ==> r <= 0x1000_0000_0000_0000,
{
    proof {
        lemma_pow0(b as int);
        lemma_pow_unfold(b as int, 1);
        lemma_pow_unfold(b as int, 2);
        lemma_pow_unfold(b as int, 3);
        lemma_pow_unfold(b as int, 4);
        lemma_pow_unfold(b as int, 5);
        assert(b * b <= 0x100_0000_0000 && (b * b) * b <= 0x1000_0000_0000_0000 && ((b * b) * b)
            * b <= 0x1_0000_0000_0000_0000_0000 && (((b * b) * b) * b) * b
            <= 0x10_0000_0000_0000_0000_0000_0000) by (nonlinear_arith)
            requires
                b <= 0x10_0000,
        ;
        assert(b <= 4096 ==> (((b * b) * b) * b) * b <= 0x1000_0000_0000_0000)
            by (nonlinear_arith);
        assert(pow(b as int, 5) == (((b * b) * b) * b) * b) by (nonlinear_arith)
            requires
                pow(b as int, 5) == b * (b * (b * (b * (b * 1)))),
        ;
    }
    b * b * b * b * b
}

/// Decides whether `b^k <= n` without ever overflowing.
fn pow_le(b: u128, k: u32, n: u128) -> (r: bool)
    requires
        k >= 1,
    ensures
        r <==> pow(b as int, k as nat) <= n,
{
    if b == 0 {
        proof {
            vstd::arithmetic::power::lemma0_pow(k as nat);
        }
        return true;
    }
    if b == 1 {
        proof {
            vstd::arithmetic::power::lemma1_pow(k as nat);
        }
        return 1 <= n;
    }
    if n < b {
        proof {
            lemma_pow1(b as int);
            vstd::arithmetic::power::lemma_pow_increases(b as nat, 1, k as nat);
        }
        return false;
    }
    let mut acc: u128 = 1;
    let mut i: u32 = 0;
    proof {
        lemma_pow0(b as int);
    }
    while i < k
        invariant
            2 <= b <= n,
            i <= k,
            acc == pow(b as int, i as nat),
            acc <= n,
        decreases k - i,
    {
        if acc > n / b {
            proof {
                vstd::arithmetic::div_mod::lemma_fundamental_div_mod(n as int, b as int);
                assert(acc * b > n) by (nonlinear_arith)
                    requires
                        b >= 2,
                        acc > n / b,
                        n == b * (n / b) + n % b,
                        0 <= n % b < b,
                ;
                lemma_pow_unfold(b as int, (i + 1) as nat);
                vstd::arithmetic::power::lemma_pow_increases(b as nat, (i + 1) as nat, k as nat);
                assert(pow(b as int, (i + 1) as nat) == acc * b) by (nonlinear_arith)
                    requires
                        pow(b as int, (i + 1) as nat) == b * pow(b as int, i as nat),
                        acc == pow(b as int, i as nat),
                ;
            }
            return false;
        }
        proof {
            vstd::arithmetic::div_mod::lemma_fundamental_div_mod(n as int, b as int);
            assert(acc * b <= n) by (nonlinear_arith)
                requires
                    b >= 2,
                    acc <= n / b,
                    n == b * (n / b) + n % b,
                    0 <= n % b,
            ;
            lemma_pow_unfold(b as int, (i + 1) as nat);
            assert(pow(b as int, (i + 1) as nat) == acc * b) by (nonlinear_arith)
                requires
                    pow(b as int, (i + 1) as nat) == b * pow(b as int, i as nat),
                    acc == pow(b as int, i as nat),
            ;
        }
        acc = acc * b;
        i = i + 1;
    }
    true
}

/// The floor of the `k`-th root: the largest `r` with `r^k <= n`.
pub fn root_floor(n: u128, k: u32) -> (r: u128)
    requires
        1 <= k,
        n < u128::MAX,
    ensures
        pow(r as int, k as nat) <= n < pow((r + 1) as int, k as nat),
{
    let mut lo: u128 = 0;
    let mut hi: u128 = n + 1;
    proof {
        vstd::arithmetic::power::lemma0_pow(k as nat);
        lemma_pow1((n + 1) as int);
        vstd::arithmetic::power::lemma_pow_increases((n + 1) as nat, 1, k as nat);
    }
    while hi - lo > 1
        invariant
            lo < hi,
            1 <= k,
            pow(lo as int, k as nat) <= n,
            n < pow(hi as int, k as nat),
        decreases hi - lo,
    {
        let mid = lo + (hi - lo) / 2;
        if pow_le(mid, k, n) {
            lo = mid;
        } else {
            hi = mid;
        }
    }
    lo
}

/// The floor `k`-th root of an exact `k`-th power is its base.
pub proof fn lemma_root_of_power(r: nat, a: nat, k: nat)
    requires
        k >= 1,
        pow(r as int, k) <= pow(a as int, k) < pow((r + 1) as int, k),
    ensures
        r == a,
{
    if r < a {
        lemma_pow_base_monotone((r + 1) as nat, a, k);
    }
    if r > a {
        lemma_pow_base_strict(a, r, k);
    }
}

} // verus!
