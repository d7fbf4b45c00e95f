use pdfplot::error::PlotError;
use pdfplot::layout::{LabelWidths, Point, Size};
use pdfplot::plot::Plot;
use pdfplot::render::{Alignment, DrawOp};

fn widths(x: usize, y: usize) -> LabelWidths {
    LabelWidths { x_tick_labels: vec![1_000; x], y_tick_labels: vec![1_000; y] }
}

#[test]
fn squares_of_the_first_integers_give_five_ticks_on_each_axis() {
    let plot = Plot::new();
    let (xaxis, yaxis) =
        plot.digest_tick_settings(&vec![0, 1, 2, 3, 4], &vec![0, 1, 4, 9, 16]).unwrap();
    assert_eq!(xaxis.exponent, -1);
    assert_eq!(xaxis.limits, (0, 40));
    assert_eq!(xaxis.tick_interval, 10);
    assert_eq!(xaxis.num_ticks, 5);
    assert_eq!(xaxis.tick_labels, vec!["0", "1.00", "2.00", "3.00", "4.00"]);
    assert_eq!(yaxis.exponent, -1);
    assert_eq!(yaxis.limits, (0, 200));
    assert_eq!(yaxis.tick_interval, 50);
    assert_eq!(yaxis.num_ticks, 5);
    assert_eq!(yaxis.tick_labels, vec!["0", "5.00", "10.00", "15.00", "20.00"]);
    assert!(yaxis.limits.0 <= 0 && 160 <= yaxis.limits.1);
    assert_eq!(yaxis.limits.0 % yaxis.tick_interval, 0);
    assert_eq!(yaxis.limits.1 % yaxis.tick_interval, 0);
}

#[test]
fn a_pinned_horizontal_axis_without_data_is_a_configuration_error() {
    let mut plot = Plot::new();
    plot.xlim(0, 600);
    assert_eq!(
        plot.digest_tick_settings(&vec![], &vec![]).err(),
        Some(PlotError::Configuration)
    );
    assert_eq!(plot.plot(&vec![], &vec![], &widths(1, 1)), Err(PlotError::Configuration));
    assert!(plot.pages.is_empty());
}

#[test]
fn no_data_and_nothing_pinned_is_a_configuration_error() {
    let mut plot = Plot::new();
    assert_eq!(plot.plot(&vec![], &vec![], &widths(0, 0)), Err(PlotError::Configuration));
    assert!(plot.pages.is_empty());
}

#[test]
fn values_without_partners_are_ignored() {
    let mut plot = Plot::new();
    plot.ylim(0, 1);
    assert_eq!(
        plot.digest_tick_settings(&vec![1, 2, 3], &vec![]).err(),
        Some(PlotError::Configuration)
    );
    let (xaxis, _) = plot.digest_tick_settings(&vec![0, 4, 100], &vec![7, 7]).unwrap();
    assert_eq!(xaxis.limits, (0, 40));
}

#[test]
fn a_single_value_has_no_range_to_plan_from() {
    let plot = Plot::new();
    assert_eq!(
        plot.digest_tick_settings(&vec![3], &vec![5]).err(),
        Some(PlotError::NumericOverflow)
    );
}

#[test]
fn a_pinned_interval_must_be_positive() {
    let mut plot = Plot::new();
    plot.xlim(0, 10).ylim(0, 10).x_tick_interval(0);
    assert_eq!(
        plot.digest_tick_settings(&vec![], &vec![]).err(),
        Some(PlotError::NumericOverflow)
    );
    plot.x_tick_interval(-2);
    assert_eq!(
        plot.digest_tick_settings(&vec![], &vec![]).err(),
        Some(PlotError::NumericOverflow)
    );
    plot.x_tick_interval(2);
    assert!(plot.digest_tick_settings(&vec![], &vec![]).is_ok());
}

#[test]
fn an_axis_may_run_downwards() {
    let mut plot = Plot::new();
    plot.xlim(10, 0).ylim(0, 10);
    let (xaxis, yaxis) = plot.digest_tick_settings(&vec![], &vec![]).unwrap();
    assert_eq!(xaxis.limits, (100, 0));
    assert_eq!(xaxis.tick_interval, -20);
    assert_eq!(xaxis.num_ticks, 6);
    assert_eq!(xaxis.tick_labels, vec!["10.00", "8.00", "6.00", "4.00", "2.00", "0"]);
    assert_eq!(yaxis.tick_interval, 20);
}

#[test]
fn values_that_do_not_fit_when_taken_times_ten_overflow() {
    let mut plot = Plot::new();
    plot.xlim(0, i64::MAX).ylim(0, 1);
    assert_eq!(
        plot.digest_tick_settings(&vec![], &vec![]).err(),
        Some(PlotError::NumericOverflow)
    );
}

#[test]
fn an_exponent_out_of_range_overflows() {
    let mut plot = Plot::new();
    plot.xlim(0, 10).ylim(0, 10).x_exponent(19);
    assert_eq!(
        plot.digest_tick_settings(&vec![], &vec![]).err(),
        Some(PlotError::NumericOverflow)
    );
    plot.x_exponent(18);
    assert!(plot.digest_tick_settings(&vec![], &vec![]).is_ok());
    plot.x_exponent(-19);
    assert_eq!(
        plot.digest_tick_settings(&vec![], &vec![]).err(),
        Some(PlotError::NumericOverflow)
    );
}

#[test]
fn the_page_of_a_series_lists_border_ticks_and_line() {
    let mut plot = Plot::new();
    plot.plot(&vec![0, 1, 2, 3, 4], &vec![0, 1, 4, 9, 16], &widths(5, 5)).unwrap();
    assert_eq!(plot.pages.len(), 1);
    let page = &plot.pages[0];
    assert_eq!(page.size, Size { width: 81_000, height: 63_000 });
    let ops = &page.ops;
    assert_eq!(ops.len(), 28);
    assert_eq!(ops[0], DrawOp::SetColor { red: 0, green: 0, blue: 0 });
    assert_eq!(ops[1], DrawOp::SetLineWidth { width: 100 });
    assert_eq!(
        ops[2],
        DrawOp::Rectangle {
            origin: Point { x: 8_000, y: 8_000 },
            size: Size { width: 72_000, height: 53_000 },
        }
    );
    assert_eq!(
        ops[5],
        DrawOp::Line { from: Point { x: 26_000, y: 8_000 }, to: Point { x: 26_000, y: 7_000 } }
    );
    assert_eq!(
        ops[6],
        DrawOp::Text {
            at: Point { x: 26_000, y: 7_000 },
            alignment: Alignment::TopCenter,
            text: "1.00".to_string(),
        }
    );
    assert_eq!(
        ops[21],
        DrawOp::Line { from: Point { x: 8_000, y: 61_000 }, to: Point { x: 7_000, y: 61_000 } }
    );
    assert_eq!(
        ops[22],
        DrawOp::Text {
            at: Point { x: 6_800, y: 61_000 },
            alignment: Alignment::CenterRight,
            text: "20.00".to_string(),
        }
    );
    assert_eq!(
        ops[23],
        DrawOp::ClipBox {
            origin: Point { x: 7_800, y: 7_800 },
            size: Size { width: 72_400, height: 53_400 },
        }
    );
    assert_eq!(ops[24], DrawOp::SetLineWidth { width: 150 });
    assert_eq!(ops[25], DrawOp::SetColor { red: 31, green: 119, blue: 180 });
    assert_eq!(
        ops[26],
        DrawOp::Polyline {
            points: vec![
                Point { x: 8_000, y: 8_000 },
                Point { x: 26_000, y: 10_650 },
                Point { x: 44_000, y: 18_600 },
                Point { x: 62_000, y: 31_850 },
                Point { x: 80_000, y: 50_400 },
            ],
        }
    );
    assert_eq!(ops[27], DrawOp::SetColor { red: 0, green: 0, blue: 0 });
}

#[test]
fn titles_are_drawn_after_the_ticks() {
    let mut plot = Plot::new();
    plot.xlim(0, 4).ylim(0, 20).xlabel("time").ylabel("height");
    plot.plot(&vec![], &vec![], &widths(5, 5)).unwrap();
    let ops = &plot.pages[0].ops;
    assert_eq!(ops.len(), 27);
    assert_eq!(
        ops[23],
        DrawOp::Text {
            at: Point { x: 44_000, y: 1_400 },
            alignment: Alignment::BottomCenter,
            text: "time".to_string(),
        }
    );
    assert_eq!(ops[24], DrawOp::Rotate { degrees: 90 });
    assert_eq!(
        ops[25],
        DrawOp::Text {
            at: Point { x: 34_500, y: -600 },
            alignment: Alignment::TopCenter,
            text: "height".to_string(),
        }
    );
    assert_eq!(ops[26], DrawOp::Rotate { degrees: -90 });
}

#[test]
fn an_empty_series_draws_the_axes_only() {
    let mut plot = Plot::new();
    plot.xlim(0, 4).ylim(0, 20);
    plot.plot(&vec![], &vec![], &widths(5, 5)).unwrap();
    assert_eq!(plot.pages[0].ops.len(), 23);
}

#[test]
fn the_widths_must_match_the_ticks() {
    let mut plot = Plot::new();
    plot.xlim(0, 4).ylim(0, 20);
    assert_eq!(plot.plot(&vec![], &vec![], &widths(4, 5)), Err(PlotError::Configuration));
    assert_eq!(plot.plot(&vec![], &vec![], &widths(5, 6)), Err(PlotError::Configuration));
    assert!(plot.pages.is_empty());
}

#[test]
fn a_failed_page_leaves_the_earlier_ones() {
    let mut plot = Plot::new();
    plot.plot(&vec![0, 1, 2, 3, 4], &vec![0, 1, 4, 9, 16], &widths(5, 5)).unwrap();
    assert_eq!(plot.plot(&vec![1], &vec![1], &widths(1, 1)), Err(PlotError::NumericOverflow));
    assert_eq!(plot.pages.len(), 1);
    assert_eq!(plot.pages[0].ops.len(), 28);
}

#[test]
fn equal_limits_have_no_map() {
    let mut plot = Plot::new();
    plot.xlim(5, 5).ylim(0, 10).x_tick_interval(1);
    let (xaxis, _) = plot.digest_tick_settings(&vec![], &vec![]).unwrap();
    assert_eq!(xaxis.num_ticks, 1);
    assert_eq!(xaxis.tick_interval, 10);
    assert_eq!(plot.plot(&vec![], &vec![], &widths(1, 6)), Err(PlotError::NumericOverflow));
}

#[test]
fn a_new_plot_has_the_usual_page() {
    let plot = Plot::new();
    assert_eq!(plot.width, 81_000);
    assert_eq!(plot.height, 63_000);
    assert_eq!(plot.font_size, 2_000);
    assert_eq!(plot.tick_length, 1_000);
    assert_eq!(plot.xlim, None);
    assert_eq!(plot.ylim, None);
    assert_eq!(plot.xlabel, None);
    assert_eq!(plot.linestyle, Some(pdfplot::plot::LineStyle::Solid));
    assert_eq!(plot.marker, None);
    assert!(plot.pages.is_empty());
}

#[test]
fn setters_change_one_setting_each() {
    let mut plot = Plot::new();
    plot.xlim(1, 2)
        .ylim(3, 4)
        .xlabel("a")
        .ylabel("b")
        .tick_length(500)
        .x_tick_interval(7)
        .y_tick_interval(8)
        .x_exponent(-2)
        .y_exponent(3)
        .marker(Some(pdfplot::plot::Marker::Dot))
        .linestyle(None);
    assert_eq!(plot.xlim, Some((1, 2)));
    assert_eq!(plot.ylim, Some((3, 4)));
    assert_eq!(plot.xlabel.as_deref(), Some("a"));
    assert_eq!(plot.ylabel.as_deref(), Some("b"));
    assert_eq!(plot.tick_length, 500);
    assert_eq!(plot.x_tick_interval, Some(7));
    assert_eq!(plot.y_tick_interval, Some(8));
    assert_eq!(plot.x_exponent, -2);
    assert_eq!(plot.y_exponent, 3);
    assert_eq!(plot.marker, Some(pdfplot::plot::Marker::Dot));
    assert_eq!(plot.linestyle, None);
    assert_eq!(plot.width, 81_000);
}

#[test]
fn the_extent_is_taken_over_the_paired_values_only() {
    assert_eq!(pdfplot::plot::extent_of(&vec![5, -3, 9, 100], 3), Some((-3, 9)));
    assert_eq!(pdfplot::plot::extent_of(&vec![5, -3, 9, 100], 4), Some((-3, 100)));
    assert_eq!(pdfplot::plot::extent_of(&vec![5], 1), Some((5, 5)));
    assert_eq!(pdfplot::plot::extent_of(&vec![5], 0), None);
}

#[test]
fn an_axis_is_planned_in_tenths_of_the_unit_of_its_values() {
    let axis = pdfplot::plot::plan_axis(-3, Some((0, 10)), None, None).unwrap();
    assert_eq!(axis.exponent, -4);
    assert_eq!(axis.limits, (0, 100));
    assert_eq!(axis.tick_interval, 20);
    assert_eq!(axis.num_ticks, 6);
    assert_eq!(axis.tick_labels, vec!["0", "0.002", "0.004", "0.006", "0.008", "0.010"]);
    assert_eq!(axis.margin, 0);
    assert_eq!(axis.tick_value_at(5), 100);
}
