//! Writing tick values as decimal numerals.
//!
//! A tick value is a whole number `v` of units of `10^exponent`. Its label is
//! the numeral of `v * 10^exponent` in fixed-point or in scientific notation,
//! rounded to a given number of digits after the decimal point; where a digit
//! sequence is cut exactly in the middle between two neighbours, the even
//! neighbour is taken.

use crate::numeric::{
    decimal_digits, decimal_digits_of, lemma_decimal_digits_bounds, lemma_pow10_increases,
    lemma_pow10_positive, lemma_pow10_values, magnitude, magnitude_of, pow10,
};
use vstd::prelude::*;
use vstd::string::*;

verus! {

/// The character for the digit `d`.
pub open spec fn digit_char(d: nat) -> char {
    if d == 0 {
        '0'
    } else if d == 1 {
        '1'
    } else if d == 2 {
        '2'
    } else if d == 3 {
        '3'
    } else if d == 4 {
        '4'
    } else if d == 5 {
        '5'
    } else if d == 6 {
        '6'
    } else if d == 7 {
        '7'
    } else if d == 8 {
        '8'
    } else {
        '9'
    }
}

/// The decimal numeral of `m`, without leading zeros.
pub open spec fn decimal_numeral(m: nat) -> Seq<char>
    decreases m,
{
    if m < 10 {
        seq![digit_char(m)]
    } else {
        decimal_numeral(m / 10).push(digit_char(m % 10))
    }
}

/// The last `width` digits of `m`, with leading zeros.
pub open spec fn padded_numeral(m: nat, width: nat) -> Seq<char>
    decreases width,
{
    if width == 0 {
        Seq::<char>::empty()
    } else {
        padded_numeral(m / 10, (width - 1) as nat).push(digit_char(m % 10))
    }
}

/// The numeral of a whole number with its sign.
pub open spec fn signed_numeral(v: int) -> Seq<char> {
    if v < 0 {
        seq!['-'] + decimal_numeral(magnitude(v))
    } else {
        decimal_numeral(magnitude(v))
    }
}

/// The numeral of `scaled / 10^places` with `places` digits after the
/// decimal point, and a minus sign in front where `negative` is set. With no
/// places there is no decimal point.
pub open spec fn fixed_numeral(negative: bool, scaled: nat, places: nat) -> Seq<char> {
    let sign = if negative {
        seq!['-']
    } else {
        Seq::<char>::empty()
    };
    let whole = decimal_numeral(scaled / pow10(places));
    let fraction = if places == 0 {
        Seq::<char>::empty()
    } else {
        seq!['.'] + padded_numeral(scaled % pow10(places), places)
    };
    sign + whole + fraction
}

/// `a / b` rounded to the nearest integer, a half to the even neighbour.
pub open spec fn round_half_even(a: nat, b: nat) -> nat {
    let q = a / b;
    let r = a % b;
    if 2 * r < b {
        q
    } else if 2 * r > b {
        q + 1
    } else if q % 2 == 0 {
        q
    } else {
        q + 1
    }
}

/// `m * 10^shift`, rounded to a whole number.
pub open spec fn scale_by_pow10(m: nat, shift: int) -> nat {
    if shift >= 0 {
        m * pow10(shift as nat)
    } else {
        round_half_even(m, pow10((-shift) as nat))
    }
}

/// The fixed-point numeral of `v * 10^exponent` with `places` digits after
/// the decimal point.
pub open spec fn fixed_label(v: int, exponent: int, places: nat) -> Seq<char> {
    fixed_numeral(v < 0, scale_by_pow10(magnitude(v), exponent + places), places)
}

/// The leading digits of `m`, one before and `places` after the decimal
/// point, as a whole number of units of `10^-places`, before a carry into a
/// further digit is taken care of.
pub open spec fn leading_digits(m: nat, places: nat) -> nat {
    scale_by_pow10(m, places - (decimal_digits(m) - 1))
}

/// Whether rounding the leading digits of `m` carries into a further digit,
/// as it does from `9.96` to `10.0`.
pub open spec fn rounds_up_a_digit(m: nat, places: nat) -> bool {
    leading_digits(m, places) >= pow10(places + 1)
}

/// The numeral of `v * 10^exponent` in scientific notation: one digit, the
/// decimal point, `places` digits, the letter `e` and the power of ten. The
/// power of ten of zero is zero.
pub open spec fn scientific_label(v: int, exponent: int, places: nat) -> Seq<char> {
    let m = magnitude(v);
    let power = if m == 0 {
        0
    } else {
        decimal_digits(m) - 1 + exponent
    };
    if rounds_up_a_digit(m, places) {
        fixed_numeral(v < 0, pow10(places), places) + seq!['e'] + signed_numeral(power + 1)
    } else {
        fixed_numeral(v < 0, leading_digits(m, places), places) + seq!['e'] + signed_numeral(
            power,
        )
    }
}

/// How the tick values of one axis are written.
#[derive(Clone, Copy, Debug, PartialEq, Eq, Structural)]
pub enum LabelStyle {
    /// Fixed-point notation with `places` digits after the decimal point.
    Fixed { places: u32 },
    /// Scientific notation with `places` digits after the decimal point.
    Scientific { places: u32 },
}

/// The least `q` for which `b * 10^q` is at least `a`: the decimal logarithm
/// of `a / b`, rounded up, for `a >= b >= 1`.
pub open spec fn ceil_log10_ratio(a: nat, b: nat) -> nat
    decreases
            (if a > b {
                a - b
            } else {
                0
            }),
{
    if b == 0 || b >= a {
        0
    } else {
        1 + ceil_log10_ratio(a, 10 * b)
    }
}

/// Whether `m * 10^exponent` is less than `10^k`, for `k >= 0`.
pub open spec fn below_pow10(m: nat, exponent: int, k: nat) -> bool {
    m == 0 || decimal_digits(m) + exponent <= k
}

/// The style in which the ticks of an axis are written, from its unsigned
/// tick interval `t >= 1`, the larger `top` of the sizes of its two limits,
/// and its exponent.
///
/// An interval below one is written in fixed-point notation with as many
/// places as bring its first digit into view. Else, values below ten
/// thousand are written with two places. Else the notation is scientific,
/// with one place fewer than there are powers of ten between the interval
/// and the largest limit, and at least one.
pub open spec fn spec_label_style(t: nat, top: nat, exponent: int) -> LabelStyle {
    if below_pow10(t, exponent, 0) {
        LabelStyle::Fixed { places: (1 - exponent - decimal_digits(t)) as u32 }
    } else if below_pow10(top, exponent, 4) {
        LabelStyle::Fixed { places: 2 }
    } else {
        let between = if top >= t {
            ceil_log10_ratio(top, t)
        } else {
            ceil_log10_ratio(t, top)
        };
        LabelStyle::Scientific {
            places: if between >= 2 {
                (between - 1) as u32
            } else {
                1
            },
        }
    }
}

/// The label of the tick value `v * 10^exponent` in the given style. Zero is
/// always written as a bare `0`.
pub open spec fn spec_label(v: int, exponent: int, style: LabelStyle) -> Seq<char> {
    if v == 0 {
        seq!['0']
    } else {
        match style {
            LabelStyle::Fixed { places } => fixed_label(v, exponent, places as nat),
            LabelStyle::Scientific { places } => scientific_label(v, exponent, places as nat),
        }
    }
}

/// The digit that a character stands for; other characters stand for zero.
pub open spec fn digit_value(c: char) -> nat {
    if c == '1' {
        1
    } else if c == '2' {
        2
    } else if c == '3' {
        3
    } else if c == '4' {
        4
    } else if c == '5' {
        5
    } else if c == '6' {
        6
    } else if c == '7' {
        7
    } else if c == '8' {
        8
    } else if c == '9' {
        9
    } else {
        0
    }
}

/// The number that a sequence of digits stands for.
pub open spec fn numeral_value(digits: Seq<char>) -> nat
    decreases digits.len(),
{
    if digits.len() == 0 {
        0
    } else {
        10 * numeral_value(digits.drop_last()) + digit_value(digits.last())
    }
}

/// The decimal numeral of a number stands for that number, and has as many
/// digits as the number has.
pub proof fn lemma_decimal_numeral_value(m: nat)
    ensures
        numeral_value(decimal_numeral(m)) == m,
        decimal_numeral(m).len() == decimal_digits(m),
    decreases m,
{
    if m < 10 {
        assert(seq![digit_char(m)].drop_last() =~= Seq::<char>::empty());
        assert(numeral_value(Seq::<char>::empty()) == 0);
    } else {
        lemma_decimal_numeral_value(m / 10);
        assert(decimal_numeral(m).drop_last() =~= decimal_numeral(m / 10));
    }
}

/// The last `width` digits of a number stand for the remainder of the
/// number by `10^width`, and are `width` digits.
pub proof fn lemma_padded_numeral_value(m: nat, width: nat)
    ensures
        numeral_value(padded_numeral(m, width)) == m % pow10(width),
        padded_numeral(m, width).len() == width,
    decreases width,
{
    if width == 0 {
        assert(pow10(0) == 1);
    } else {
        let rest = (width - 1) as nat;
        lemma_padded_numeral_value(m / 10, rest);
        assert(padded_numeral(m, width).drop_last() =~= padded_numeral(m / 10, rest));
        lemma_pow10_positive(rest);
        assert(pow10(width) == 10 * pow10(rest));
        vstd::arithmetic::div_mod::lemma_breakdown(m as int, 10, pow10(rest) as int);
        assert(10 * pow10(rest) == pow10(rest) * 10) by (nonlinear_arith);
        assert(10 * ((m / 10) % pow10(rest)) == 10 * (((m as int) / 10) % (pow10(rest) as int)));
    }
}

/// A fixed-point numeral with places has its decimal point before the last
/// `places` characters.
pub proof fn lemma_fixed_numeral_places(negative: bool, scaled: nat, places: nat)
    requires
        places >= 1,
    ensures
        ({
            let numeral = fixed_numeral(negative, scaled, places);
            &&& numeral.len() >= places + 2
            &&& numeral[numeral.len() - places - 1] == '.'
            &&& numeral.subrange(numeral.len() - places, numeral.len() as int) == padded_numeral(
                scaled % pow10(places),
                places,
            )
        }),
{
    lemma_padded_numeral_value(scaled % pow10(places), places);
    lemma_decimal_numeral_value(scaled / pow10(places));
    let numeral = fixed_numeral(negative, scaled, places);
    assert(numeral.subrange(numeral.len() - places, numeral.len() as int) =~= padded_numeral(
        scaled % pow10(places),
        places,
    ));
}

/// Rounding to the even neighbour gives a quotient within half of the
/// divisor of the dividend.
pub proof fn lemma_round_half_even_is_nearest(a: nat, b: nat)
    requires
        b >= 1,
    ensures
        -(b as int) <= 2 * (a - round_half_even(a, b) * b) <= b,
{
    let q = a / b;
    let r = a % b;
    vstd::arithmetic::div_mod::lemma_fundamental_div_mod(a as int, b as int);
    assert(b * q == q * b) by (nonlinear_arith);
    assert((q + 1) * b == q * b + b) by (nonlinear_arith);
}

/// Zero is written as a bare `0`, whatever the exponent and the style.
pub proof fn lemma_zero_is_written_bare(exponent: int, style: LabelStyle)
    ensures
        spec_label(0, exponent, style) == seq!['0'],
{
}

/// A number `m >= 1` of units of `10^exponent` is below `10^k` exactly when
/// `m` is below `10^(k - exponent)`.
pub proof fn lemma_below_pow10(m: nat, exponent: int, k: nat)
    requires
        m >= 1,
    ensures
        below_pow10(m, exponent, k) <==> (exponent <= k && m < pow10((k - exponent) as nat)),
{
    let d = decimal_digits(m);
    lemma_decimal_digits_bounds(m);
    if d + exponent <= k {
        lemma_pow10_increases(d, (k - exponent) as nat);
    } else if exponent <= k {
        lemma_pow10_increases((k - exponent) as nat, (d - 1) as nat);
    }
}

/// An interval below one is written in fixed-point notation, whatever the
/// limits are, with as many places as put its first digit into the last
/// place: with `p` places, the interval is at least `10^-p` and less than
/// ten times as much.
pub proof fn lemma_small_interval_places(t: nat, top: nat, exponent: int)
    requires
        t >= 1,
        below_pow10(t, exponent, 0),
    ensures
        ({
            let p = 1 - exponent - decimal_digits(t);
            &&& p >= 1
            &&& spec_label_style(t, top, exponent) == (LabelStyle::Fixed { places: p as u32 })
            &&& pow10((-exponent - p) as nat) <= t < pow10((-exponent - p + 1) as nat)
        }),
{
    lemma_decimal_digits_bounds(t);
}

/// The rounded-up logarithm `q` of `a / b` is the least number of powers of
/// ten that bring `b` up to `a`: `b * 10^q >= a`, and `b * 10^(q-1) < a`
/// where `q` is not zero.
pub proof fn lemma_ceil_log10_ratio_is_least(a: nat, b: nat)
    requires
        b >= 1,
    ensures
        b * pow10(ceil_log10_ratio(a, b)) >= a,
        ceil_log10_ratio(a, b) >= 1 ==> b * pow10((ceil_log10_ratio(a, b) - 1) as nat) < a,
    decreases
            (if a > b {
                a - b
            } else {
                0
            }),
{
    if b >= a {
        assert(pow10(0) == 1);
        assert(b * 1 == b);
    } else {
        let q = ceil_log10_ratio(a, 10 * b);
        lemma_ceil_log10_ratio_is_least(a, 10 * b);
        assert(pow10(q + 1) == 10 * pow10(q));
        assert((10 * b) * pow10(q) == b * (10 * pow10(q))) by (nonlinear_arith);
        if q >= 1 {
            assert(pow10(q) == 10 * pow10((q - 1) as nat));
            assert((10 * b) * pow10((q - 1) as nat) == b * (10 * pow10((q - 1) as nat)))
                by (nonlinear_arith);
        } else {
            assert(pow10(0) == 1);
            assert(b * 1 == b);
        }
    }
}

/// The exponents for which labels are written: those from `-19` to `17`.
pub open spec fn label_exponent(exponent: int) -> bool {
    -19 <= exponent <= 17
}

/// The one-character string of the digit `d`.
fn digit_str(d: u8) -> (s: &'static str)
    requires
        d < 10,
    ensures
        s@ == seq![digit_char(d as nat)],
{
    if d == 0 {
        proof {
            reveal_strlit("0");
        }
        assert("0"@ =~= seq![digit_char(0)]);
        "0"
    } else if d == 1 {
        proof {
            reveal_strlit("1");
        }
        assert("1"@ =~= seq![digit_char(1)]);
        "1"
    } else if d == 2 {
        proof {
            reveal_strlit("2");
        }
        assert("2"@ =~= seq![digit_char(2)]);
        "2"
    } else if d == 3 {
        proof {
            reveal_strlit("3");
        }
        assert("3"@ =~= seq![digit_char(3)]);
        "3"
    } else if d == 4 {
        proof {
            reveal_strlit("4");
        }
        assert("4"@ =~= seq![digit_char(4)]);
        "4"
    } else if d == 5 {
        proof {
            reveal_strlit("5");
        }
        assert("5"@ =~= seq![digit_char(5)]);
        "5"
    } else if d == 6 {
        proof {
            reveal_strlit("6");
        }
        assert("6"@ =~= seq![digit_char(6)]);
        "6"
    } else if d == 7 {
        proof {
            reveal_strlit("7");
        }
        assert("7"@ =~= seq![digit_char(7)]);
        "7"
    } else if d == 8 {
        proof {
            reveal_strlit("8");
        }
        assert("8"@ =~= seq![digit_char(8)]);
        "8"
    } else {
        proof {
            reveal_strlit("9");
        }
        assert("9"@ =~= seq![digit_char(9)]);
        "9"
    }
}

/// Appends the decimal numeral of `m`.
fn push_numeral(out: &mut String, m: u128)
    ensures
        final(out)@ == old(out)@ + decimal_numeral(m as nat),
    decreases m,
{
    if m >= 10 {
        push_numeral(out, m / 10);
    }
    out.append(digit_str((m % 10) as u8));
    assert(out@ =~= old(out)@ + decimal_numeral(m as nat));
}

/// Appends the last `width` digits of `m`.
fn push_padded(out: &mut String, m: u128, width: u32)
    ensures
        final(out)@ == old(out)@ + padded_numeral(m as nat, width as nat),
    decreases width,
{
    if width > 0 {
        push_padded(out, m / 10, width - 1);
        out.append(digit_str((m % 10) as u8));
    }
    assert(out@ =~= old(out)@ + padded_numeral(m as nat, width as nat));
}

/// Ten raised to the power `n`, as far as it fits a hundred and twenty-eight
/// bits.
fn pow10_wide(n: u32) -> (p: u128)
    requires
        n <= 38,
    ensures
        p == pow10(n as nat),
{
    let mut p: u128 = 1;
    let mut k: u32 = 0;
    while k < n
        invariant
            k <= n <= 38,
            p == pow10(k as nat),
        decreases n - k,
    {
        proof {
            lemma_pow10_values();
            lemma_pow10_increases((k + 1) as nat, 38);
            assert(pow10((k + 1) as nat) == 10 * pow10(k as nat));
        }
        p = 10 * p;
        k = k + 1;
    }
    p
}

/// Appends the numeral of `scaled / 10^places` with `places` digits after the
/// decimal point.
fn push_fixed(out: &mut String, negative: bool, scaled: u128, places: u32)
    requires
        places <= 38,
    ensures
        final(out)@ == old(out)@ + fixed_numeral(negative, scaled as nat, places as nat),
{
    if negative {
        proof {
            reveal_strlit("-");
        }
        assert("-"@ =~= seq!['-']);
        out.append("-");
    }
    let unit: u128 = pow10_wide(places);
    proof {
        lemma_pow10_positive(places as nat);
    }
    push_numeral(out, scaled / unit);
    if places > 0 {
        proof {
            reveal_strlit(".");
        }
        assert("."@ =~= seq!['.']);
        out.append(".");
        push_padded(out, scaled % unit, places);
    }
    assert(out@ =~= old(out)@ + fixed_numeral(negative, scaled as nat, places as nat));
}

/// Appends the numeral of a whole number with its sign.
fn push_signed(out: &mut String, v: i64)
    ensures
        final(out)@ == old(out)@ + signed_numeral(v as int),
{
    if v < 0 {
        proof {
            reveal_strlit("-");
        }
        assert("-"@ =~= seq!['-']);
        out.append("-");
    }
    push_numeral(out, magnitude_of(v) as u128);
    assert(out@ =~= old(out)@ + signed_numeral(v as int));
}

/// `a / b` rounded to the nearest integer, a half to the even neighbour.
fn round_half_even_of(a: u128, b: u128) -> (q: u128)
    requires
        b >= 1,
        a <= u64::MAX,
    ensures
        q == round_half_even(a as nat, b as nat),
        q <= a + 1,
{
    let q: u128 = a / b;
    let r: u128 = a % b;
    assert(q <= a) by (nonlinear_arith)
        requires
            q == a / b,
            b >= 1,
    ;
    if r < b - r {
        q
    } else if r > b - r {
        q + 1
    } else if q % 2 == 0 {
        q
    } else {
        q + 1
    }
}

/// `m * 10^shift`, rounded to a whole number.
fn scale_by_pow10_of(m: u64, shift: i32) -> (r: u128)
    requires
        -38 <= shift <= 19,
    ensures
        r == scale_by_pow10(m as nat, shift as int),
{
    proof {
        lemma_pow10_values();
    }
    if shift >= 0 {
        let unit: u128 = pow10_wide(shift as u32);
        proof {
            lemma_pow10_increases(shift as nat, 19);
        }
        assert(m * unit <= 0xFFFF_FFFF_FFFF_FFFF * 10_000_000_000_000_000_000) by (nonlinear_arith)
            requires
                m <= 0xFFFF_FFFF_FFFF_FFFF,
                unit <= 10_000_000_000_000_000_000,
        ;
        (m as u128) * unit
    } else {
        let unit: u128 = pow10_wide((-shift) as u32);
        proof {
            lemma_pow10_positive((-shift) as nat);
        }
        round_half_even_of(m as u128, unit)
    }
}

/// Whether the fixed-point numeral with `places` places of a value counted
/// in units of `10^exponent` can be worked out in a hundred and twenty-eight
/// bits.
pub open spec fn fixed_label_fits(exponent: int, places: nat) -> bool {
    -19 <= exponent && places <= 19 && exponent + places <= 19
}

/// Writes `v * 10^exponent` in fixed-point notation with `places` digits
/// after the decimal point.
pub fn format_fixed(v: i64, exponent: i32, places: u32) -> (label: String)
    requires
        fixed_label_fits(exponent as int, places as nat),
    ensures
        label@ == fixed_label(v as int, exponent as int, places as nat),
{
    let mut label = String::new();
    let scaled: u128 = scale_by_pow10_of(magnitude_of(v), exponent + places as i32);
    push_fixed(&mut label, v < 0, scaled, places);
    assert(label@ =~= fixed_label(v as int, exponent as int, places as nat));
    label
}

/// Writes `v * 10^exponent` in scientific notation with `places` digits
/// after the decimal point.
pub fn format_scientific(v: i64, exponent: i32, places: u32) -> (label: String)
    requires
        places <= 19,
    ensures
        label@ == scientific_label(v as int, exponent as int, places as nat),
{
    let m: u64 = magnitude_of(v);
    let digits: u32 = if m == 0 {
        1
    } else {
        decimal_digits_of(m).0
    };
    let leading: u128 = scale_by_pow10_of(m, places as i32 - (digits as i32 - 1));
    let carry: u128 = pow10_wide(places + 1);
    let power: i64 = if m == 0 {
        0
    } else {
        digits as i64 - 1 + exponent as i64
    };
    let mut label = String::new();
    proof {
        reveal_strlit("e");
    }
    assert("e"@ =~= seq!['e']);
    if leading >= carry {
        push_fixed(&mut label, v < 0, pow10_wide(places), places);
        label.append("e");
        push_signed(&mut label, power + 1);
    } else {
        push_fixed(&mut label, v < 0, leading, places);
        label.append("e");
        push_signed(&mut label, power);
    }
    assert(label@ =~= scientific_label(v as int, exponent as int, places as nat));
    label
}

/// The least `q` for which `b * 10^q` is at least `a`.
fn ceil_log10_ratio_of(a: u64, b: u64) -> (q: u32)
    requires
        b >= 1,
    ensures
        q == ceil_log10_ratio(a as nat, b as nat),
        q <= 20,
{
    let mut q: u32 = 0;
    let mut scaled: u128 = b as u128;
    while scaled < a as u128
        invariant
            q <= 20,
            scaled >= 1,
            scaled >= pow10(q as nat),
            q + ceil_log10_ratio(a as nat, scaled as nat) == ceil_log10_ratio(a as nat, b as nat),
        decreases 20 - q,
    {
        proof {
            lemma_pow10_values();
            if q >= 20 {
                lemma_pow10_increases(20, q as nat);
            }
            assert(pow10((q + 1) as nat) == 10 * pow10(q as nat));
        }
        scaled = 10 * scaled;
        q = q + 1;
    }
    q
}

/// The larger of the sizes of the two limits of an axis.
pub open spec fn largest_limit(limits: (i64, i64)) -> nat {
    if magnitude(limits.0 as int) >= magnitude(limits.1 as int) {
        magnitude(limits.0 as int)
    } else {
        magnitude(limits.1 as int)
    }
}

/// Chooses the style in which the ticks of an axis are written.
pub fn label_style(tick_interval: i64, limits: (i64, i64), exponent: i32) -> (style: LabelStyle)
    requires
        tick_interval != 0,
        label_exponent(exponent as int),
    ensures
        style == spec_label_style(
            magnitude(tick_interval as int),
            largest_limit(limits),
            exponent as int,
        ),
        match style {
            LabelStyle::Fixed { places } => fixed_label_fits(exponent as int, places as nat),
            LabelStyle::Scientific { places } => 1 <= places <= 19,
        },
{
    let t: u64 = magnitude_of(tick_interval);
    let first: u64 = magnitude_of(limits.0);
    let second: u64 = magnitude_of(limits.1);
    let top: u64 = if first >= second {
        first
    } else {
        second
    };
    let (t_digits, _) = decimal_digits_of(t);
    if t_digits as i32 + exponent <= 0 {
        return LabelStyle::Fixed { places: (1 - exponent - t_digits as i32) as u32 };
    }
    if top == 0 {
        return LabelStyle::Fixed { places: 2 };
    }
    let (top_digits, _) = decimal_digits_of(top);
    if top_digits as i32 + exponent <= 4 {
        return LabelStyle::Fixed { places: 2 };
    }
    let between: u32 = if top >= t {
        ceil_log10_ratio_of(top, t)
    } else {
        ceil_log10_ratio_of(t, top)
    };
    LabelStyle::Scientific {
        places: if between >= 2 {
            between - 1
        } else {
            1
        },
    }
}

/// Writes the label of the tick value `v * 10^exponent` in the given style.
pub fn format_label(v: i64, exponent: i32, style: LabelStyle) -> (label: String)
    requires
        match style {
            LabelStyle::Fixed { places } => fixed_label_fits(exponent as int, places as nat),
            LabelStyle::Scientific { places } => places <= 19,
        },
    ensures
        label@ == spec_label(v as int, exponent as int, style),
{
    if v == 0 {
        proof {
            reveal_strlit("0");
        }
        assert("0"@ =~= seq!['0']);
        String::from_str("0")
    } else {
        match style {
            LabelStyle::Fixed { places } => format_fixed(v, exponent, places),
            LabelStyle::Scientific { places } => format_scientific(v, exponent, places),
        }
    }
}

} // verus!
