//! Powers of ten, digit counts and rounding division on the integers.

use crate::error::PlotError;
use vstd::prelude::*;

verus! {

/// Ten raised to the power `n`.
pub open spec fn pow10(n: nat) -> nat
    decreases n,
{
    if n == 0 {
        1
    } else {
        10 * pow10((n - 1) as nat)
    }
}

/// The absolute value of `x`.
pub open spec fn magnitude(x: int) -> nat {
    if x < 0 {
        (-x) as nat
    } else {
        x as nat
    }
}

/// The number of digits in the decimal numeral of `m`; zero has one digit.
pub open spec fn decimal_digits(m: nat) -> nat
    decreases m,
{
    if m < 10 {
        1
    } else {
        1 + decimal_digits(m / 10)
    }
}

/// The integer nearest to the decimal logarithm of `m`, for `m >= 1`.
///
/// With `d` the number of digits of `m`, the logarithm lies between `d - 1`
/// and `d`; it is nearer to `d - 1` exactly when `m` is below
/// `10^(d - 1/2)`, that is when `m * m < 10^(2d - 1)`.
pub open spec fn round_log10(m: nat) -> nat {
    let d = decimal_digits(m);
    if m * m < pow10((2 * d - 1) as nat) {
        (d - 1) as nat
    } else {
        d
    }
}

/// Whether `v` fits a signed sixty-four-bit integer.
pub open spec fn fits_i64(v: int) -> bool {
    i64::MIN <= v <= i64::MAX
}

/// `a / b` rounded to the nearest integer, halves upwards, for `b > 0`.
pub open spec fn round_div(a: nat, b: nat) -> nat {
    (2 * a + b) / (2 * b)
}

/// A power of ten is at least one.
pub proof fn lemma_pow10_positive(n: nat)
    ensures
        pow10(n) >= 1,
    decreases n,
{
    if n > 0 {
        lemma_pow10_positive((n - 1) as nat);
    }
}

/// A larger exponent gives a power of ten that is not smaller.
pub proof fn lemma_pow10_increases(a: nat, b: nat)
    requires
        a <= b,
    ensures
        pow10(a) <= pow10(b),
    decreases b,
{
    if a < b {
        lemma_pow10_increases(a, (b - 1) as nat);
        lemma_pow10_positive((b - 1) as nat);
    }
}

/// The product of two powers of ten is the power of the sum of their
/// exponents.
pub proof fn lemma_pow10_adds(a: nat, b: nat)
    ensures
        pow10(a + b) == pow10(a) * pow10(b),
    decreases a,
{
    if a == 0 {
        assert(pow10(0) == 1);
        assert(1 * pow10(b) == pow10(b));
    } else {
        lemma_pow10_adds((a - 1) as nat, b);
        assert(pow10(a + b) == 10 * pow10((a - 1 + b) as nat));
        assert(10 * (pow10((a - 1) as nat) * pow10(b)) == (10 * pow10((a - 1) as nat)) * pow10(b))
            by (nonlinear_arith);
    }
}

/// The powers of ten up to the thirty-eighth.
pub proof fn lemma_pow10_values()
    ensures
        pow10(0) == 1,
        pow10(1) == 10,
        pow10(2) == 100,
        pow10(3) == 1000,
        pow10(4) == 10000,
        pow10(5) == 100000,
        pow10(6) == 1000000,
        pow10(7) == 10000000,
        pow10(8) == 100000000,
        pow10(9) == 1000000000,
        pow10(10) == 10000000000,
        pow10(11) == 100000000000,
        pow10(12) == 1000000000000,
        pow10(13) == 10000000000000,
        pow10(14) == 100000000000000,
        pow10(15) == 1000000000000000,
        pow10(16) == 10000000000000000,
        pow10(17) == 100000000000000000,
        pow10(18) == 1000000000000000000,
        pow10(19) == 10000000000000000000,
        pow10(20) == 100000000000000000000,
        pow10(21) == 1000000000000000000000,
        pow10(22) == 10000000000000000000000,
        pow10(23) == 100000000000000000000000,
        pow10(24) == 1000000000000000000000000,
        pow10(25) == 10000000000000000000000000,
        pow10(26) == 100000000000000000000000000,
        pow10(27) == 1000000000000000000000000000,
        pow10(28) == 10000000000000000000000000000,
        pow10(29) == 100000000000000000000000000000,
        pow10(30) == 1000000000000000000000000000000,
        pow10(31) == 10000000000000000000000000000000,
        pow10(32) == 100000000000000000000000000000000,
        pow10(33) == 1000000000000000000000000000000000,
        pow10(34) == 10000000000000000000000000000000000,
        pow10(35) == 100000000000000000000000000000000000,
        pow10(36) == 1000000000000000000000000000000000000,
        pow10(37) == 10000000000000000000000000000000000000,
        pow10(38) == 100000000000000000000000000000000000000,
{
    reveal_with_fuel(pow10, 40);
}

/// A number with `d` digits lies between `10^(d-1)` and `10^d`.
pub proof fn lemma_decimal_digits_bounds(m: nat)
    requires
        m >= 1,
    ensures
        decimal_digits(m) >= 1,
        pow10((decimal_digits(m) - 1) as nat) <= m < pow10(decimal_digits(m)),
    decreases m,
{
    if m >= 10 {
        lemma_decimal_digits_bounds(m / 10);
        let d = decimal_digits(m / 10);
        assert(decimal_digits(m) == d + 1);
        assert(pow10(d) == 10 * pow10((d - 1) as nat));
        assert(pow10(d + 1) == 10 * pow10(d));
    } else {
        assert(pow10(1) == 10) by {
            reveal_with_fuel(pow10, 2);
        }
    }
}

/// The digit count is the only `d` with `10^(d-1) <= m < 10^d`.
pub proof fn lemma_decimal_digits_unique(m: nat, d: nat)
    requires
        d >= 1,
        pow10((d - 1) as nat) <= m < pow10(d),
    ensures
        decimal_digits(m) == d,
{
    lemma_pow10_positive((d - 1) as nat);
    lemma_decimal_digits_bounds(m);
    let e = decimal_digits(m);
    if e < d {
        lemma_pow10_increases(e, (d - 1) as nat);
    } else if e > d {
        lemma_pow10_increases(d, (e - 1) as nat);
    }
}

/// The nearest integer to the decimal logarithm of `m` is `n` where `m`
/// lies between `10^(n - 1/2)` and `10^(n + 1/2)`.
pub proof fn lemma_round_log10_nearest(m: nat)
    requires
        m >= 1,
    ensures
        m * m < pow10(2 * round_log10(m) + 1),
        round_log10(m) >= 1 ==> pow10((2 * round_log10(m) - 1) as nat) <= m * m,
{
    let d = decimal_digits(m);
    lemma_decimal_digits_bounds(m);
    let low = pow10((d - 1) as nat);
    let high = pow10(d);
    lemma_pow10_adds((d - 1) as nat, (d - 1) as nat);
    lemma_pow10_adds(d, d);
    assert(low * low <= m * m) by (nonlinear_arith)
        requires
            low <= m,
    ;
    assert(m * m < high * high) by (nonlinear_arith)
        requires
            m < high,
    ;
    if m * m < pow10((2 * d - 1) as nat) {
        if d >= 2 {
            lemma_pow10_increases((2 * d - 3) as nat, (2 * d - 2) as nat);
        }
    } else {
        lemma_pow10_increases(2 * d, 2 * d + 1);
    }
}

/// A number of at least `10^(k - 1/2)` has a decimal logarithm that rounds
/// to `k` or more.
pub proof fn lemma_round_log10_at_least(m: nat, k: nat)
    requires
        m >= 1,
        k >= 1,
        pow10((2 * k - 1) as nat) <= m * m,
    ensures
        round_log10(m) >= k,
{
    lemma_round_log10_nearest(m);
    let n = round_log10(m);
    if n < k {
        lemma_pow10_increases(2 * n + 1, (2 * k - 1) as nat);
    }
}

/// For a positive divisor, the quotient of a negative number is rounded
/// down, away from zero.
pub proof fn lemma_div_of_negative(a: int, t: int)
    requires
        a >= 0,
        t > 0,
    ensures
        (-a) / t == (if a % t == 0 {
            -(a / t)
        } else {
            -(a / t) - 1
        }),
{
    let q = a / t;
    let r = a % t;
    vstd::arithmetic::div_mod::lemma_fundamental_div_mod(a, t);
    assert(t * q == q * t) by (nonlinear_arith);
    if r == 0 {
        assert((-q) * t == -(q * t)) by (nonlinear_arith);
        vstd::arithmetic::div_mod::lemma_fundamental_div_mod_converse(-a, t, -q, 0);
    } else {
        assert((-q - 1) * t == -(q * t) - t) by (nonlinear_arith);
        vstd::arithmetic::div_mod::lemma_fundamental_div_mod_converse(-a, t, -q - 1, t - r);
    }
}

/// The absolute value of `v`.
pub fn magnitude_of(v: i64) -> (m: u64)
    ensures
        m == magnitude(v as int),
{
    if v >= 0 {
        v as u64
    } else if v == i64::MIN {
        9_223_372_036_854_775_808u64
    } else {
        (-v) as u64
    }
}

/// Ten raised to the power `n`, as far as it fits sixty-four bits.
pub fn pow10_of(n: u32) -> (p: u64)
    requires
        n <= 19,
    ensures
        p == pow10(n as nat),
{
    proof {
        lemma_pow10_values();
    }
    let mut p: u64 = 1;
    let mut k: u32 = 0;
    while k < n
        invariant
            k <= n <= 19,
            p == pow10(k as nat),
        decreases n - k,
    {
        proof {
            lemma_pow10_values();
            lemma_pow10_increases((k + 1) as nat, 19);
            assert(pow10((k + 1) as nat) == 10 * pow10(k as nat));
        }
        p = 10 * p;
        k = k + 1;
    }
    p
}

/// The number of decimal digits of `m`, with the power of ten that has as
/// many digits.
pub fn decimal_digits_of(m: u64) -> (r: (u32, u64))
    requires
        m >= 1,
    ensures
        r.0 == decimal_digits(m as nat),
        r.1 == pow10((r.0 - 1) as nat),
        1 <= r.0 <= 20,
        r.1 <= m,
{
    proof {
        lemma_pow10_values();
    }
    let mut p: u64 = 1;
    let mut d: u32 = 1;
    while m / 10 >= p
        invariant
            1 <= d <= 20,
            p == pow10((d - 1) as nat),
            1 <= p <= m,
        decreases m - p,
    {
        proof {
            lemma_pow10_values();
            assert(pow10(d as nat) == 10 * pow10((d - 1) as nat));
            if d >= 20 {
                lemma_pow10_increases(20, d as nat);
            }
        }
        p = 10 * p;
        d = d + 1;
    }
    proof {
        assert(pow10(d as nat) == 10 * pow10((d - 1) as nat));
        lemma_decimal_digits_unique(m as nat, d as nat);
    }
    (d, p)
}

/// The integer nearest to the decimal logarithm of `m`.
pub fn round_log10_of(m: u64) -> (n: u32)
    requires
        m >= 1,
    ensures
        n == round_log10(m as nat),
        n <= 20,
{
    let (d, p) = decimal_digits_of(m);
    let wide: u128 = m as u128;
    let base: u128 = p as u128;
    assert(wide * wide <= 0xFFFF_FFFF_FFFF_FFFF * 0xFFFF_FFFF_FFFF_FFFF) by (nonlinear_arith)
        requires
            wide <= 0xFFFF_FFFF_FFFF_FFFF,
    ;
    assert(base * base <= wide * wide) by (nonlinear_arith)
        requires
            base <= wide,
    ;
    let square: u128 = wide * wide;
    let base_square: u128 = base * base;
    proof {
        lemma_pow10_adds((d - 1) as nat, (d - 1) as nat);
        assert(pow10((2 * d - 1) as nat) == 10 * pow10((2 * d - 2) as nat));
    }
    if square / 10 < base_square {
        d - 1
    } else {
        d
    }
}

/// `v` as a signed sixty-four-bit number, where it fits.
pub fn to_i64(v: i128) -> (r: Result<i64, PlotError>)
    ensures
        r == (if fits_i64(v as int) {
            Ok::<i64, PlotError>(v as i64)
        } else {
            Err::<i64, PlotError>(PlotError::NumericOverflow)
        }),
{
    if v < i64::MIN as i128 || v > i64::MAX as i128 {
        Err(PlotError::NumericOverflow)
    } else {
        Ok(v as i64)
    }
}

/// `v` as an unsigned sixty-four-bit number, where it fits: a number below
/// zero does not, nor does one above the largest such number.
pub fn to_u64(v: i128) -> (r: Result<u64, PlotError>)
    ensures
        r == (if 0 <= v <= u64::MAX {
            Ok::<u64, PlotError>(v as u64)
        } else {
            Err::<u64, PlotError>(PlotError::NumericOverflow)
        }),
{
    if v < 0 || v > u64::MAX as i128 {
        Err(PlotError::NumericOverflow)
    } else {
        Ok(v as u64)
    }
}

/// `a / b` rounded down.
pub fn floor_div_of(a: i128, b: i128) -> (q: i128)
    requires
        b > 0,
        a > i128::MIN,
    ensures
        q == (a as int) / (b as int),
{
    if a >= 0 {
        a / b
    } else {
        let size: i128 = -a;
        let q: i128 = size / b;
        let r: i128 = size % b;
        proof {
            lemma_div_of_negative(size as int, b as int);
        }
        assert(0 <= q <= size) by (nonlinear_arith)
            requires
                q == (size as int) / (b as int),
                size >= 0,
                b >= 1,
        ;
        if r == 0 {
            -q
        } else {
            -q - 1
        }
    }
}

/// `a / b` rounded to the nearest integer, halves upwards.
pub fn round_div_of(a: u64, b: u64) -> (q: u64)
    requires
        b >= 1,
    ensures
        q == round_div(a as nat, b as nat),
{
    let twice: u128 = 2 * (a as u128) + (b as u128);
    let q: u128 = twice / (2 * (b as u128));
    assert(q <= 0xFFFF_FFFF_FFFF_FFFF) by (nonlinear_arith)
        requires
            q == (2 * a + b) / (2 * b),
            b >= 1,
            a <= 0xFFFF_FFFF_FFFF_FFFF,
            b <= 0xFFFF_FFFF_FFFF_FFFF,
    ;
    q as u64
}

} // verus!
