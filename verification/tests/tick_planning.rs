use pdfplot::error::PlotError;
use pdfplot::numeric::{
    decimal_digits_of, floor_div_of, magnitude_of, pow10_of, round_div_of, round_log10_of, to_i64,
    to_u64,
};
use pdfplot::ticks::{compute_tick_interval, plan_ticks};

fn counts_distance(range: u64, interval: u64) -> u64 {
    let count = (2 * range + interval) / (2 * interval);
    if count >= 5 {
        count - 5
    } else {
        5 - count
    }
}

#[test]
fn the_interval_is_as_near_to_five_ticks_as_any_candidate() {
    let mut ranges: Vec<u64> = Vec::new();
    let mut power: u64 = 10;
    while power <= 10_000_000_000 {
        for step in 4..100 {
            ranges.push(step * power / 10);
        }
        power *= 10;
    }
    for range in ranges {
        let chosen = compute_tick_interval(range as i64).unwrap() as u64;
        let magnitude = 10u64.pow(round_log10_of(range));
        let candidates =
            [magnitude / 10, magnitude / 5, magnitude / 2, magnitude, magnitude * 2];
        assert!(candidates.contains(&chosen), "range {}", range);
        let best = candidates.iter().map(|c| counts_distance(range, *c)).min().unwrap();
        assert_eq!(counts_distance(range, chosen), best, "range {}", range);
        let first =
            candidates.iter().find(|c| counts_distance(range, **c) == best).unwrap();
        assert_eq!(chosen, *first, "range {}", range);
    }
}

#[test]
fn intervals_for_some_ranges() {
    assert_eq!(compute_tick_interval(10), Ok(2));
    assert_eq!(compute_tick_interval(70), Ok(20));
    assert_eq!(compute_tick_interval(260), Ok(50));
    assert_eq!(compute_tick_interval(350), Ok(100));
    assert_eq!(compute_tick_interval(6_000), Ok(1_000));
    assert_eq!(compute_tick_interval(1_000_000), Ok(200_000));
}

#[test]
fn the_order_of_magnitude_turns_at_the_root_of_ten() {
    assert_eq!(round_log10_of(1), 0);
    assert_eq!(round_log10_of(3), 0);
    assert_eq!(round_log10_of(4), 1);
    assert_eq!(round_log10_of(31), 1);
    assert_eq!(round_log10_of(32), 2);
    assert_eq!(round_log10_of(316), 2);
    assert_eq!(round_log10_of(317), 3);
    assert_eq!(round_log10_of(3_162_277_660_168_379_331), 18);
    assert_eq!(round_log10_of(3_162_277_660_168_379_332), 19);
    assert_eq!(round_log10_of(u64::MAX), 19);
}

#[test]
fn the_largest_ranges_have_no_interval() {
    assert_eq!(compute_tick_interval(3_162_277_660_168_379_331), Ok(500_000_000_000_000_000));
    assert_eq!(
        compute_tick_interval(3_162_277_660_168_379_332),
        Err(PlotError::NumericOverflow)
    );
    assert_eq!(compute_tick_interval(i64::MIN), Err(PlotError::NumericOverflow));
    assert_eq!(compute_tick_interval(i64::MAX), Err(PlotError::NumericOverflow));
}

#[test]
fn an_axis_needs_limits_or_data() {
    assert_eq!(plan_ticks(None, None, None), Err(PlotError::Configuration));
    assert_eq!(plan_ticks(None, None, Some(10)), Err(PlotError::Configuration));
}

#[test]
fn pinned_limits_are_kept() {
    let plan = plan_ticks(Some((0, 1_000)), Some((15, 385)), None).unwrap();
    assert_eq!(plan.limits, (15, 385));
    assert_eq!(plan.tick_interval, 100);
    assert_eq!(plan.num_ticks, 5);
}

#[test]
fn a_pinned_interval_is_used_for_snapping_and_for_the_ticks() {
    let plan = plan_ticks(Some((-7, 22)), None, Some(4)).unwrap();
    assert_eq!(plan.limits, (-8, 24));
    assert_eq!(plan.tick_interval, 4);
    assert_eq!(plan.num_ticks, 9);
}

#[test]
fn limits_snap_outwards_below_zero() {
    let plan = plan_ticks(Some((-160, -10)), None, None).unwrap();
    assert_eq!(plan.limits, (-200, 0));
    assert_eq!(plan.tick_interval, 50);
    assert_eq!(plan.num_ticks, 5);
}

#[test]
fn the_interval_is_chosen_again_for_the_snapped_limits() {
    let plan = plan_ticks(Some((0, 310)), None, None).unwrap();
    assert_eq!(plan.limits, (0, 350));
    assert_eq!(plan.tick_interval, 100);
    assert_eq!(plan.num_ticks, 5);
}

#[test]
fn the_last_tick_lies_within_half_an_interval_of_the_second_limit() {
    let cases = [
        (Some((0, 310)), None, None),
        (None, Some((15, 385)), None),
        (None, Some((385, 15)), None),
        (None, Some((0, 100)), Some(30)),
        (Some((-7, 22)), None, Some(4)),
        (Some((-1_234, 98_765)), None, None),
    ];
    for (extent, limits, interval) in cases {
        let plan = plan_ticks(extent, limits, interval).unwrap();
        let last = plan.limits.0 + (plan.num_ticks as i64 - 1) * plan.tick_interval;
        assert!(2 * (last - plan.limits.1).abs() <= plan.tick_interval.abs());
        assert!(plan.num_ticks >= 1);
        assert_eq!(plan.tick_interval > 0, plan.limits.1 >= plan.limits.0);
    }
}

#[test]
fn the_interval_points_from_the_first_limit_to_the_second() {
    assert_eq!(plan_ticks(None, Some((100, 0)), None).unwrap().tick_interval, -20);
    assert_eq!(plan_ticks(None, Some((0, 100)), None).unwrap().tick_interval, 20);
    assert_eq!(plan_ticks(None, Some((7, 7)), Some(3)).unwrap().tick_interval, 3);
    assert_eq!(plan_ticks(None, Some((7, 7)), Some(3)).unwrap().num_ticks, 1);
}

#[test]
fn equal_limits_without_a_pinned_interval_overflow() {
    assert_eq!(plan_ticks(None, Some((7, 7)), None), Err(PlotError::NumericOverflow));
    assert_eq!(plan_ticks(Some((7, 7)), None, None), Err(PlotError::NumericOverflow));
}

#[test]
fn limits_that_snap_out_of_range_overflow() {
    assert_eq!(
        plan_ticks(Some((i64::MIN + 1, 0)), None, Some(1_000)),
        Err(PlotError::NumericOverflow)
    );
    assert_eq!(
        plan_ticks(None, Some((i64::MIN, i64::MAX)), Some(1)),
        Err(PlotError::NumericOverflow)
    );
}

#[test]
fn a_last_tick_out_of_range_overflows() {
    assert_eq!(
        plan_ticks(None, Some((0, i64::MAX)), Some(i64::MAX - 1)),
        Ok(pdfplot::ticks::TickPlan {
            limits: (0, i64::MAX),
            tick_interval: i64::MAX - 1,
            num_ticks: 2
        })
    );
    assert_eq!(
        plan_ticks(None, Some((2, i64::MAX)), Some(i64::MAX - 1)),
        Err(PlotError::NumericOverflow)
    );
}

#[test]
fn whole_number_helpers() {
    assert_eq!(magnitude_of(-5), 5);
    assert_eq!(magnitude_of(5), 5);
    assert_eq!(magnitude_of(i64::MIN), 9_223_372_036_854_775_808);
    assert_eq!(pow10_of(0), 1);
    assert_eq!(pow10_of(19), 10_000_000_000_000_000_000);
    assert_eq!(decimal_digits_of(9), (1, 1));
    assert_eq!(decimal_digits_of(10), (2, 10));
    assert_eq!(decimal_digits_of(u64::MAX), (20, 10_000_000_000_000_000_000));
    assert_eq!(round_div_of(7, 2), 4);
    assert_eq!(round_div_of(5, 4), 1);
    assert_eq!(round_div_of(6, 4), 2);
    assert_eq!(floor_div_of(7, 2), 3);
    assert_eq!(floor_div_of(-7, 2), -4);
    assert_eq!(floor_div_of(-8, 2), -4);
}

#[test]
fn conversions_fail_out_of_range() {
    assert_eq!(to_u64(-1), Err(PlotError::NumericOverflow));
    assert_eq!(to_u64(0), Ok(0));
    assert_eq!(to_u64(u64::MAX as i128), Ok(u64::MAX));
    assert_eq!(to_u64(u64::MAX as i128 + 1), Err(PlotError::NumericOverflow));
    assert_eq!(to_i64(i64::MIN as i128), Ok(i64::MIN));
    assert_eq!(to_i64(i64::MIN as i128 - 1), Err(PlotError::NumericOverflow));
    assert_eq!(to_i64(i64::MAX as i128 + 1), Err(PlotError::NumericOverflow));
}

#[test]
fn errors_say_what_went_wrong() {
    assert_eq!(
        PlotError::Configuration.message(),
        "an axis has neither pinned limits nor data, or a buffer has the wrong length"
    );
    assert_eq!(
        PlotError::NumericOverflow.message(),
        "a quantity does not fit the integers that hold it"
    );
}
