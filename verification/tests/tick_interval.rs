use pdfplot::error::PlotError;
use pdfplot::ticks::{compute_tick_interval, plan_ticks};

#[test]
fn interval_for_a_range_of_four_units_in_tenths() {
    assert_eq!(compute_tick_interval(40), Ok(10));
}

#[test]
fn interval_for_a_range_of_sixteen_units_in_tenths() {
    assert_eq!(compute_tick_interval(160), Ok(50));
}

#[test]
fn interval_ignores_the_sign_of_the_range() {
    assert_eq!(compute_tick_interval(-160), Ok(50));
}

#[test]
fn interval_is_undefined_for_an_empty_range() {
    assert_eq!(compute_tick_interval(0), Err(PlotError::NumericOverflow));
}

#[test]
fn interval_is_undefined_below_four_units() {
    assert_eq!(compute_tick_interval(3), Err(PlotError::NumericOverflow));
    assert_eq!(compute_tick_interval(4), Ok(1));
}

#[test]
fn plan_from_data_snaps_the_limits() {
    let plan = plan_ticks(Some((0, 160)), None, None).unwrap();
    assert_eq!(plan.limits, (0, 200));
    assert_eq!(plan.tick_interval, 50);
    assert_eq!(plan.num_ticks, 5);
}
