//! Choosing a tick interval for a range of values.
//!
//! The interval is a power of ten scaled by one, two or five, picked so that
//! about five of them span the range.

use crate::error::PlotError;
use crate::numeric::{
    fits_i64, floor_div_of, lemma_pow10_increases, lemma_pow10_values,
    lemma_round_log10_at_least, magnitude,
    magnitude_of, pow10, pow10_of, round_div, round_div_of, round_log10, round_log10_of, to_i64,
    to_u64,
};
use vstd::prelude::*;

verus! {

/// The five intervals on offer around the power of ten `power`, smallest
/// first: a tenth, a fifth and a half of it, the power itself, and its double.
pub open spec fn tick_candidate(power: nat, i: int) -> nat {
    if i == 0 {
        power / 10
    } else if i == 1 {
        power / 5
    } else if i == 2 {
        power / 2
    } else if i == 3 {
        power
    } else {
        2 * power
    }
}

/// How far a number of ticks is from five.
pub open spec fn distance_to_five(count: nat) -> nat {
    magnitude(count - 5)
}

/// How far from five the number of intervals is that candidate `i` lays
/// over a range of size `m`.
pub open spec fn tick_distance(m: nat, power: nat, i: int) -> nat {
    distance_to_five(round_div(m, tick_candidate(power, i)))
}

/// The first of the candidates `0..=k` that comes nearest to five intervals.
pub open spec fn best_candidate_upto(m: nat, power: nat, k: int) -> int
    decreases k,
{
    if k <= 0 {
        0
    } else {
        let earlier = best_candidate_upto(m, power, k - 1);
        if tick_distance(m, power, k) < tick_distance(m, power, earlier) {
            k
        } else {
            earlier
        }
    }
}

/// The first of the five candidates that comes nearest to five intervals.
pub open spec fn best_candidate(m: nat, power: nat) -> int {
    best_candidate_upto(m, power, 4)
}

/// Whether a tick interval can be given for `range`: the range is not empty,
/// a tenth of its order of magnitude is a whole number, and the double of its
/// order of magnitude fits sixty-four bits.
pub open spec fn tick_interval_defined(range: int) -> bool {
    magnitude(range) >= 1 && 1 <= round_log10(magnitude(range)) <= 18
}

/// The order of magnitude of `range`: the power of ten nearest to its size
/// on a logarithmic scale.
pub open spec fn order_of_magnitude(range: int) -> nat {
    pow10(round_log10(magnitude(range)))
}

/// The tick interval for `range`.
pub open spec fn spec_tick_interval(range: int) -> nat {
    tick_candidate(
        order_of_magnitude(range),
        best_candidate(magnitude(range), order_of_magnitude(range)),
    )
}

/// The best candidate is one of the five, none comes nearer to five
/// intervals, and every earlier one is strictly farther.
pub proof fn lemma_best_candidate_upto(m: nat, power: nat, k: int)
    requires
        0 <= k,
    ensures
        0 <= best_candidate_upto(m, power, k) <= k,
        forall|j: int|
            0 <= j <= k ==> tick_distance(m, power, best_candidate_upto(m, power, k))
                <= #[trigger] tick_distance(m, power, j),
        forall|j: int|
            0 <= j < best_candidate_upto(m, power, k) ==> tick_distance(
                m,
                power,
                best_candidate_upto(m, power, k),
            ) < #[trigger] tick_distance(m, power, j),
    decreases k,
{
    if k > 0 {
        lemma_best_candidate_upto(m, power, k - 1);
    }
}

/// The tick interval for a range brings the number of intervals as near to
/// five as any of the five candidates does, and is the smallest candidate
/// that does so.
pub proof fn lemma_tick_interval_nearest_to_five(range: int)
    ensures
        forall|j: int|
            0 <= j < 5 ==> distance_to_five(round_div(magnitude(range), spec_tick_interval(range)))
                <= #[trigger] tick_distance(magnitude(range), order_of_magnitude(range), j),
        forall|j: int|
            0 <= j < best_candidate(magnitude(range), order_of_magnitude(range))
                ==> distance_to_five(round_div(magnitude(range), spec_tick_interval(range)))
                < #[trigger] tick_distance(magnitude(range), order_of_magnitude(range), j),
{
    lemma_best_candidate_upto(magnitude(range), order_of_magnitude(range), 4);
}

/// Candidate `i` around the power of ten `power`.
fn tick_candidate_of(power: u64, i: usize) -> (c: u64)
    requires
        i < 5,
        power <= 1_000_000_000_000_000_000,
    ensures
        c == tick_candidate(power as nat, i as int),
{
    if i == 0 {
        power / 10
    } else if i == 1 {
        power / 5
    } else if i == 2 {
        power / 2
    } else if i == 3 {
        power
    } else {
        2 * power
    }
}

/// How far `count` is from five.
fn distance_to_five_of(count: u64) -> (d: u64)
    ensures
        d == distance_to_five(count as nat),
{
    if count >= 5 {
        count - 5
    } else {
        5 - count
    }
}

/// Chooses the tick interval for a range of values.
///
/// The sign of `range` is ignored. With `p` the power of ten nearest to the
/// size of the range on a logarithmic scale, the interval is the first of
/// `p/10`, `p/5`, `p/2`, `p`, `2p` for which the rounded number of intervals
/// in the range is nearest to five. The range and the interval are counted in
/// the same unit.
///
/// Fails where the range is empty, where `p/10` would not be a whole number
/// (a range of up to three units), and where `2p` does not fit.
pub fn compute_tick_interval(range: i64) -> (r: Result<i64, PlotError>)
    ensures
        match r {
            Ok(t) => tick_interval_defined(range as int) && t == spec_tick_interval(range as int),
            Err(e) => !tick_interval_defined(range as int) && e == PlotError::NumericOverflow,
        },
        r is Ok ==> forall|j: int|
            0 <= j < 5 ==> distance_to_five(
                round_div(magnitude(range as int), r->Ok_0 as nat),
            ) <= #[trigger] tick_distance(
                magnitude(range as int),
                order_of_magnitude(range as int),
                j,
            ),
{
    proof {
        lemma_tick_interval_nearest_to_five(range as int);
    }
    let m: u64 = magnitude_of(range);
    if m == 0 {
        return Err(PlotError::NumericOverflow);
    }
    let n: u32 = round_log10_of(m);
    if n == 0 || n > 18 {
        return Err(PlotError::NumericOverflow);
    }
    proof {
        lemma_pow10_values();
        lemma_pow10_increases(1, n as nat);
        lemma_pow10_increases(n as nat, 18);
    }
    let power: u64 = pow10_of(n);
    let mut best: usize = 0;
    let mut least: u64 = distance_to_five_of(round_div_of(m, tick_candidate_of(power, 0)));
    let mut i: usize = 1;
    while i < 5
        invariant
            1 <= i <= 5,
            10 <= power <= 1_000_000_000_000_000_000,
            best == best_candidate_upto(m as nat, power as nat, i - 1),
            least == tick_distance(m as nat, power as nat, best as int),
            best < i,
        decreases 5 - i,
    {
        let distance: u64 = distance_to_five_of(round_div_of(m, tick_candidate_of(power, i)));
        if distance < least {
            best = i;
            least = distance;
        }
        i = i + 1;
    }
    let chosen: u64 = tick_candidate_of(power, best);
    Ok(chosen as i64)
}

/// Limits, tick interval and number of ticks of one axis.
#[derive(Clone, Copy, Debug, PartialEq, Eq)]
pub struct TickPlan {
    /// The values at the two ends of the axis, the first at the origin.
    pub limits: (i64, i64),
    /// The step from one tick to the next, negative where the axis runs
    /// from a larger value to a smaller one.
    pub tick_interval: i64,
    /// The number of ticks, at least one.
    pub num_ticks: u64,
}

/// The largest multiple of `t` that is at most `v`, for `t > 0`.
pub open spec fn snap_down(v: int, t: int) -> int {
    (v / t) * t
}

/// The smallest multiple of `t` that is at least `v`, for `t > 0`.
pub open spec fn snap_up(v: int, t: int) -> int {
    -(((-v) / t) * t)
}

/// The interval `t` with the sign of the step from the first limit to the
/// second: negative where the axis runs downwards, else positive.
pub open spec fn signed_interval(limits: (i64, i64), t: int) -> int {
    if limits.1 < limits.0 {
        -t
    } else {
        t
    }
}

/// The unsigned tick interval for an axis that spans `range`: the pinned
/// one where there is one, else the one chosen for the range.
pub open spec fn spec_interval_for(pinned: Option<i64>, range: int) -> Result<int, PlotError> {
    match pinned {
        Some(t) => if t > 0 {
            Ok(t as int)
        } else {
            Err(PlotError::NumericOverflow)
        },
        None => if tick_interval_defined(range) {
            Ok(spec_tick_interval(range) as int)
        } else {
            Err(PlotError::NumericOverflow)
        },
    }
}

/// The limits of an axis: the pinned ones where there are any, else the
/// extent of the data widened to multiples of the tick interval that suits
/// that extent.
pub open spec fn spec_limits(
    extent: Option<(i64, i64)>,
    pinned_limits: Option<(i64, i64)>,
    pinned_interval: Option<i64>,
) -> Result<(i64, i64), PlotError> {
    match pinned_limits {
        Some(limits) => Ok(limits),
        None => match extent {
            None => Err(PlotError::Configuration),
            Some(e) => match spec_interval_for(pinned_interval, e.1 - e.0) {
                Err(error) => Err(error),
                Ok(t) => if fits_i64(snap_down(e.0 as int, t)) && fits_i64(
                    snap_up(e.1 as int, t),
                ) {
                    Ok((snap_down(e.0 as int, t) as i64, snap_up(e.1 as int, t) as i64))
                } else {
                    Err(PlotError::NumericOverflow)
                },
            },
        },
    }
}

/// The number of ticks on an axis with the given limits and unsigned
/// interval: one more than the rounded number of intervals between the limits.
pub open spec fn spec_num_ticks(limits: (i64, i64), t: int) -> int {
    (round_div(magnitude(limits.1 - limits.0), t as nat) + 1) as int
}

/// The value at the last tick of an axis.
pub open spec fn last_tick(limits: (i64, i64), t: int) -> int {
    limits.0 + (spec_num_ticks(limits, t) - 1) * signed_interval(limits, t)
}

/// The plan for one axis.
///
/// An axis needs pinned limits or an extent of data. A pinned interval must
/// be positive. The interval is chosen twice where it is not pinned: first
/// for the extent of the data, to widen the extent to the limits, and then
/// for the limits themselves. The number of ticks and the value at the last
/// tick must fit.
pub open spec fn spec_plan_ticks(
    extent: Option<(i64, i64)>,
    pinned_limits: Option<(i64, i64)>,
    pinned_interval: Option<i64>,
) -> Result<TickPlan, PlotError> {
    if pinned_limits is None && extent is None {
        Err(PlotError::Configuration)
    } else if pinned_interval is Some && pinned_interval->0 <= 0 {
        Err(PlotError::NumericOverflow)
    } else {
        match spec_limits(extent, pinned_limits, pinned_interval) {
            Err(error) => Err(error),
            Ok(limits) => match spec_interval_for(pinned_interval, limits.1 - limits.0) {
                Err(error) => Err(error),
                Ok(t) => if spec_num_ticks(limits, t) <= u64::MAX && fits_i64(
                    last_tick(limits, t),
                ) {
                    Ok(
                        TickPlan {
                            limits,
                            tick_interval: signed_interval(limits, t) as i64,
                            num_ticks: spec_num_ticks(limits, t) as u64,
                        },
                    )
                } else {
                    Err(PlotError::NumericOverflow)
                },
            },
        }
    }
}

/// No tick interval is defined for a range that does not fit sixty-four
/// bits.
pub proof fn lemma_wide_range_has_no_interval(range: int)
    requires
        !fits_i64(range),
    ensures
        !tick_interval_defined(range),
{
    let m = magnitude(range);
    lemma_pow10_values();
    assert(m * m >= 9_223_372_036_854_775_808 * 9_223_372_036_854_775_808) by (nonlinear_arith)
        requires
            m >= 9_223_372_036_854_775_808,
    ;
    lemma_round_log10_at_least(m, 19);
}

/// The largest multiple of `t` that is at most `v`.
fn snap_down_of(v: i64, t: i64) -> (r: i128)
    requires
        t > 0,
    ensures
        r == snap_down(v as int, t as int),
{
    let wide: i128 = v as i128;
    let step: i128 = t as i128;
    let quotient: i128 = floor_div_of(wide, step);
    assert(-0x8000_0000_0000_0000 <= quotient <= 0x8000_0000_0000_0000) by (nonlinear_arith)
        requires
            quotient == (wide as int) / (step as int),
            step >= 1,
            -0x8000_0000_0000_0000 <= wide <= 0x8000_0000_0000_0000,
    ;
    assert(-0x4000_0000_0000_0000_0000_0000_0000_0000 <= quotient * step
        <= 0x4000_0000_0000_0000_0000_0000_0000_0000) by (nonlinear_arith)
        requires
            -0x8000_0000_0000_0000 <= quotient <= 0x8000_0000_0000_0000,
            1 <= step <= 0x8000_0000_0000_0000,
    ;
    quotient * step
}

/// The smallest multiple of `t` that is at least `v`.
fn snap_up_of(v: i64, t: i64) -> (r: i128)
    requires
        t > 0,
    ensures
        r == snap_up(v as int, t as int),
{
    let wide: i128 = -(v as i128);
    let step: i128 = t as i128;
    let quotient: i128 = floor_div_of(wide, step);
    assert(-0x8000_0000_0000_0000 <= quotient <= 0x8000_0000_0000_0000) by (nonlinear_arith)
        requires
            quotient == (wide as int) / (step as int),
            step >= 1,
            -0x8000_0000_0000_0000 <= wide <= 0x8000_0000_0000_0000,
    ;
    assert(-0x4000_0000_0000_0000_0000_0000_0000_0000 <= quotient * step
        <= 0x4000_0000_0000_0000_0000_0000_0000_0000) by (nonlinear_arith)
        requires
            -0x8000_0000_0000_0000 <= quotient <= 0x8000_0000_0000_0000,
            1 <= step <= 0x8000_0000_0000_0000,
    ;
    -(quotient * step)
}

/// The unsigned tick interval for an axis from `low` to `high`.
fn interval_for(pinned: Option<i64>, low: i64, high: i64) -> (r: Result<i64, PlotError>)
    ensures
        match r {
            Ok(t) => spec_interval_for(pinned, high - low) == Ok::<int, PlotError>(t as int),
            Err(e) => spec_interval_for(pinned, high - low) == Err::<int, PlotError>(e),
        },
        r is Ok ==> r->Ok_0 > 0,
{
    match pinned {
        Some(t) => {
            if t > 0 {
                Ok(t)
            } else {
                Err(PlotError::NumericOverflow)
            }
        },
        None => {
            match high.checked_sub(low) {
                Some(range) => {
                    let r = compute_tick_interval(range);
                    proof {
                        if r is Ok {
                            lemma_tick_interval_positive(range as int);
                        }
                    }
                    r
                },
                None => {
                    proof {
                        lemma_wide_range_has_no_interval(high - low);
                    }
                    Err(PlotError::NumericOverflow)
                },
            }
        },
    }
}

/// A tick interval is at least one, and at most twice the eighteenth power
/// of ten.
pub proof fn lemma_tick_interval_positive(range: int)
    requires
        tick_interval_defined(range),
    ensures
        1 <= spec_tick_interval(range) <= 2_000_000_000_000_000_000,
{
    let n = round_log10(magnitude(range));
    lemma_pow10_values();
    lemma_pow10_increases(1, n);
    lemma_pow10_increases(n, 18);
    lemma_best_candidate_upto(magnitude(range), order_of_magnitude(range), 4);
}

/// The unsigned interval of an axis is positive and fits.
pub proof fn lemma_interval_for_positive(pinned: Option<i64>, range: int)
    requires
        spec_interval_for(pinned, range) is Ok,
    ensures
        1 <= spec_interval_for(pinned, range)->Ok_0 <= i64::MAX,
{
    if pinned is None {
        lemma_tick_interval_positive(range);
    }
}

/// The rounded quotient of `a` by `t` lies within half of `t` of `a`.
pub proof fn lemma_round_div_within_half(a: nat, t: nat)
    requires
        t >= 1,
    ensures
        -(t as int) <= 2 * (a - round_div(a, t) * t) < t,
{
    let q = round_div(a, t);
    vstd::arithmetic::div_mod::lemma_fundamental_div_mod((2 * a + t) as int, (2 * t) as int);
    let r = ((2 * a + t) as int) % ((2 * t) as int);
    assert(0 <= r < 2 * t);
    assert((2 * t) * q == 2 * (q * t)) by (nonlinear_arith);
}

/// The tick interval of a planned axis points from the first limit to the
/// second: it is negative where the second limit is below the first, and
/// positive otherwise.
pub proof fn lemma_plan_direction(
    extent: Option<(i64, i64)>,
    pinned_limits: Option<(i64, i64)>,
    pinned_interval: Option<i64>,
)
    requires
        spec_plan_ticks(extent, pinned_limits, pinned_interval) is Ok,
    ensures
        ({
            let plan = spec_plan_ticks(extent, pinned_limits, pinned_interval)->Ok_0;
            &&& plan.limits.1 >= plan.limits.0 ==> plan.tick_interval > 0
            &&& plan.limits.1 < plan.limits.0 ==> plan.tick_interval < 0
        }),
{
    let limits = spec_limits(extent, pinned_limits, pinned_interval)->Ok_0;
    lemma_interval_for_positive(pinned_interval, limits.1 - limits.0);
}

/// A planned axis has at least one tick, and its last tick, the first limit
/// plus one interval for each further tick, lies within half an interval of
/// the second limit.
pub proof fn lemma_plan_last_tick(
    extent: Option<(i64, i64)>,
    pinned_limits: Option<(i64, i64)>,
    pinned_interval: Option<i64>,
)
    requires
        spec_plan_ticks(extent, pinned_limits, pinned_interval) is Ok,
    ensures
        ({
            let plan = spec_plan_ticks(extent, pinned_limits, pinned_interval)->Ok_0;
            let last = plan.limits.0 + (plan.num_ticks - 1) * plan.tick_interval;
            &&& plan.num_ticks >= 1
            &&& fits_i64(last)
            &&& 2 * magnitude(last - plan.limits.1) <= magnitude(plan.tick_interval as int)
        }),
{
    let plan = spec_plan_ticks(extent, pinned_limits, pinned_interval)->Ok_0;
    let limits = spec_limits(extent, pinned_limits, pinned_interval)->Ok_0;
    let t = spec_interval_for(pinned_interval, limits.1 - limits.0)->Ok_0;
    lemma_interval_for_positive(pinned_interval, limits.1 - limits.0);
    let size = magnitude(limits.1 - limits.0);
    let q = round_div(size, t as nat);
    lemma_round_div_within_half(size, t as nat);
    assert(plan.num_ticks - 1 == q);
    if limits.1 < limits.0 {
        assert(q * (-t) == -(q * t)) by (nonlinear_arith);
    }
}

/// Limits that were taken from the data are multiples of the interval that
/// suits the extent of the data, and hold that extent between them.
pub proof fn lemma_inferred_limits_bracket(extent: (i64, i64), pinned_interval: Option<i64>)
    requires
        spec_limits(Some(extent), None, pinned_interval) is Ok,
    ensures
        ({
            let limits = spec_limits(Some(extent), None, pinned_interval)->Ok_0;
            let t = spec_interval_for(pinned_interval, extent.1 - extent.0)->Ok_0;
            &&& t >= 1
            &&& limits.0 <= extent.0 < limits.0 + t
            &&& limits.1 - t < extent.1 <= limits.1
            &&& (limits.0 as int) % t == 0
            &&& (limits.1 as int) % t == 0
        }),
{
    let t = spec_interval_for(pinned_interval, extent.1 - extent.0)->Ok_0;
    lemma_interval_for_positive(pinned_interval, extent.1 - extent.0);
    let low = extent.0 as int;
    let high = extent.1 as int;
    vstd::arithmetic::div_mod::lemma_fundamental_div_mod(low, t);
    vstd::arithmetic::div_mod::lemma_fundamental_div_mod(-high, t);
    assert(t * (low / t) == (low / t) * t) by (nonlinear_arith);
    assert(t * ((-high) / t) == ((-high) / t) * t) by (nonlinear_arith);
    vstd::arithmetic::div_mod::lemma_mod_multiples_basic(low / t, t);
    vstd::arithmetic::div_mod::lemma_mod_multiples_basic(-((-high) / t), t);
    assert((-((-high) / t)) * t == -(((-high) / t) * t)) by (nonlinear_arith);
}

/// Plans one axis: its limits, its tick interval and its number of ticks.
///
/// `extent` holds the least and the greatest value of the data, if there is
/// any data; `pinned_limits` and `pinned_interval` are what the caller has
/// fixed. All values are counted in one unit.
pub fn plan_ticks(
    extent: Option<(i64, i64)>,
    pinned_limits: Option<(i64, i64)>,
    pinned_interval: Option<i64>,
) -> (r: Result<TickPlan, PlotError>)
    ensures
        r == spec_plan_ticks(extent, pinned_limits, pinned_interval),
{
    if pinned_limits.is_none() && extent.is_none() {
        return Err(PlotError::Configuration);
    }
    if let Some(t) = pinned_interval {
        if t <= 0 {
            return Err(PlotError::NumericOverflow);
        }
    }
    let limits: (i64, i64) = match pinned_limits {
        Some(limits) => limits,
        None => {
            let e: (i64, i64) = extent.unwrap();
            let first: i64 = match interval_for(pinned_interval, e.0, e.1) {
                Ok(t) => t,
                Err(error) => {
                    return Err(error);
                },
            };
            let low: i64 = to_i64(snap_down_of(e.0, first))?;
            let high: i64 = to_i64(snap_up_of(e.1, first))?;
            (low, high)
        },
    };
    let t: i64 = match interval_for(pinned_interval, limits.0, limits.1) {
        Ok(t) => t,
        Err(error) => {
            return Err(error);
        },
    };
    let span: i128 = limits.1 as i128 - limits.0 as i128;
    let size: u128 = if span < 0 {
        (-span) as u128
    } else {
        span as u128
    };
    let step: u128 = t as u128;
    let intervals: u128 = (2 * size + step) / (2 * step);
    assert(intervals <= 0xFFFF_FFFF_FFFF_FFFF) by (nonlinear_arith)
        requires
            intervals == (2 * size + step) / (2 * step),
            step >= 1,
            size <= 0xFFFF_FFFF_FFFF_FFFF,
    ;
    let num_ticks: u64 = to_u64(intervals as i128 + 1)?;
    let signed: i128 = if limits.1 < limits.0 {
        -(t as i128)
    } else {
        t as i128
    };
    assert(-0x7FFF_FFFF_FFFF_FFFF_8000_0000_0000_0000 <= intervals * signed
        <= 0x7FFF_FFFF_FFFF_FFFF_8000_0000_0000_0000) by (nonlinear_arith)
        requires
            0 <= intervals <= 0xFFFF_FFFF_FFFF_FFFF,
            -0x8000_0000_0000_0000 <= signed <= 0x8000_0000_0000_0000,
    ;
    let last: i128 = limits.0 as i128 + (intervals as i128) * signed;
    proof {
        assert(size == magnitude(limits.1 - limits.0));
        assert(intervals == round_div(size as nat, t as nat));
        assert(spec_num_ticks(limits, t as int) == intervals + 1);
        assert(signed == signed_interval(limits, t as int));
        assert(last == last_tick(limits, t as int));
    }
    to_i64(last)?;
    Ok(TickPlan { limits, tick_interval: signed as i64, num_ticks })
}

} // verus!
