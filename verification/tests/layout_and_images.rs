use pdfplot::axis::Axis;
use pdfplot::error::PlotError;
use pdfplot::image::{colorize, Rgb};
use pdfplot::layout::{
    coordinate_mapper, max_width, x_margin, y_margin, AxisMap, LabelWidths, Point, Size,
};
use pdfplot::plot::Plot;
use pdfplot::render::DrawOp;

fn axis(limits: (i64, i64), margin: i64) -> Axis {
    Axis {
        limits,
        tick_interval: 10,
        num_ticks: 1,
        exponent: 0,
        tick_labels: vec!["0".to_string()],
        margin,
    }
}

fn ramp() -> Vec<Rgb> {
    (0..256).map(|i| Rgb { red: i as u8, green: 255 - i as u8, blue: 7 }).collect()
}

#[test]
fn margins_add_up() {
    assert_eq!(x_margin(2_000, 1_000), Ok(8_000));
    assert_eq!(x_margin(15, 3), Ok(15 + 7 + 15 + 3 + 15));
    assert_eq!(x_margin(-15, 0), Ok(-15 - 8 - 15 - 15));
    assert_eq!(y_margin(2_000, 1_000, &vec![672, 3_360, 2_688]), Ok(10_360));
    assert_eq!(x_margin(i64::MAX, 0), Err(PlotError::NumericOverflow));
    assert_eq!(y_margin(0, i64::MAX, &vec![1]), Err(PlotError::NumericOverflow));
}

#[test]
fn the_widest_label_counts() {
    assert_eq!(max_width(&vec![3]), 3);
    assert_eq!(max_width(&vec![3, 9, 4]), 9);
    assert_eq!(max_width(&vec![-3, -9, -4]), -3);
}

#[test]
fn the_limits_go_to_the_ends_of_the_plot_area() {
    let maps = [
        AxisMap { limits: (0, 40), length: 72_000, offset: 8_000 },
        AxisMap { limits: (40, 0), length: 72_000, offset: 8_000 },
        AxisMap { limits: (-7, 13), length: 999, offset: -5 },
        AxisMap { limits: (3, 4), length: 0, offset: 1 },
        AxisMap { limits: (i64::MIN, i64::MAX), length: 1_000, offset: 0 },
    ];
    for map in maps {
        assert_eq!(map.to_canvas(map.limits.0), Ok(map.offset));
        assert_eq!(map.to_canvas(map.limits.1), Ok(map.offset + map.length));
    }
}

#[test]
fn values_go_in_proportion_rounded_down() {
    let map = AxisMap { limits: (0, 3), length: 100, offset: 10 };
    assert_eq!(map.to_canvas(1), Ok(43));
    assert_eq!(map.to_canvas(2), Ok(76));
    assert_eq!(map.to_canvas(-1), Ok(-24));
    assert_eq!(map.to_canvas(6), Ok(210));
    let down = AxisMap { limits: (3, 0), length: 100, offset: 10 };
    assert_eq!(down.to_canvas(2), Ok(43));
    assert_eq!(down.to_canvas(4), Ok(-24));
}

#[test]
fn places_out_of_range_overflow() {
    let map = AxisMap { limits: (0, 1), length: i64::MAX, offset: 0 };
    assert_eq!(map.to_canvas(1), Ok(i64::MAX));
    assert_eq!(map.to_canvas(2), Err(PlotError::NumericOverflow));
    assert_eq!(map.to_canvas(-2), Err(PlotError::NumericOverflow));
}

#[test]
fn the_plot_area_is_what_the_margins_leave() {
    let xaxis = axis((0, 40), 8_000);
    let yaxis = axis((0, 200), 9_000);
    let mapper =
        coordinate_mapper(81_000, 63_000, 2_000, &xaxis, &yaxis, 1_500, false).unwrap();
    assert_eq!(mapper.x, AxisMap { limits: (0, 40), length: 70_500, offset: 9_000 });
    assert_eq!(mapper.y, AxisMap { limits: (0, 200), length: 53_000, offset: 8_000 });
    assert_eq!(mapper.to_canvas_x(0), Ok(9_000));
    assert_eq!(mapper.to_canvas_x(40), Ok(79_500));
    assert_eq!(mapper.to_canvas_y(0), Ok(8_000));
    assert_eq!(mapper.to_canvas_y(200), Ok(61_000));
    let square = coordinate_mapper(81_000, 63_000, 2_000, &xaxis, &yaxis, 1_500, true).unwrap();
    assert_eq!(square.x.length, 53_000);
    assert_eq!(square.y.length, 53_000);
}

#[test]
fn an_axis_with_equal_limits_has_no_mapper() {
    assert_eq!(
        coordinate_mapper(81_000, 63_000, 2_000, &axis((5, 5), 0), &axis((0, 1), 0), 0, false),
        Err(PlotError::NumericOverflow)
    );
    assert_eq!(
        coordinate_mapper(i64::MAX, 0, 0, &axis((0, 5), 0), &axis((0, 1), -1), 0, false),
        Err(PlotError::NumericOverflow)
    );
}

#[test]
fn the_extremes_take_the_ends_of_the_ramp() {
    let data = vec![Some(3), Some(3), Some(90), Some(3)];
    let bytes = colorize(&data, &ramp()).unwrap();
    assert_eq!(bytes, vec![0, 255, 7, 0, 255, 7, 255, 0, 7, 0, 255, 7]);
}

#[test]
fn intensities_that_are_not_finite_are_white() {
    let bytes = colorize(&vec![None, None, None], &ramp()).unwrap();
    assert_eq!(bytes, vec![255; 9]);
    let mixed = colorize(&vec![None, Some(-4), Some(6)], &ramp()).unwrap();
    assert_eq!(mixed, vec![255, 255, 255, 0, 255, 7, 255, 0, 7]);
}

#[test]
fn intensities_between_take_their_share_of_the_ramp() {
    let bytes = colorize(&vec![Some(0), Some(1), Some(2), Some(4)], &ramp()).unwrap();
    assert_eq!(bytes, vec![0, 255, 7, 63, 192, 7, 127, 128, 7, 255, 0, 7]);
}

#[test]
fn equal_intensities_take_the_first_colour() {
    let bytes = colorize(&vec![Some(5), Some(5)], &ramp()).unwrap();
    assert_eq!(bytes, vec![0, 255, 7, 0, 255, 7]);
    assert_eq!(colorize(&vec![], &ramp()), Ok(vec![]));
}

#[test]
fn a_ramp_has_256_colours() {
    let short: Vec<Rgb> = ramp().into_iter().take(255).collect();
    assert_eq!(colorize(&vec![Some(1)], &short), Err(PlotError::Configuration));
    assert_eq!(colorize(&vec![Some(1)], &vec![]), Err(PlotError::Configuration));
}

fn pinned() -> Plot {
    let mut plot = Plot::new();
    plot.x_exponent(-1).xlim(0, 10).x_tick_interval(2);
    plot.y_exponent(-3).ylim(0, 50).y_tick_interval(8);
    plot
}

fn widths() -> LabelWidths {
    LabelWidths { x_tick_labels: vec![2_000; 6], y_tick_labels: vec![3_000; 7] }
}

#[test]
fn pinned_axes_show_the_digits_of_their_intervals() {
    let (xaxis, yaxis) = pinned().digest_tick_settings(&vec![], &vec![]).unwrap();
    assert_eq!(xaxis.tick_labels, vec!["0", "0.2", "0.4", "0.6", "0.8", "1.0"]);
    assert_eq!(
        yaxis.tick_labels,
        vec!["0", "0.008", "0.016", "0.024", "0.032", "0.040", "0.048"]
    );
}

#[test]
fn an_image_is_drawn_in_a_square_and_the_page_is_cut_to_it() {
    let mut plot = pinned();
    let data = vec![Some(1), Some(2), Some(3), None, Some(5), Some(6)];
    plot.image(&data, 3, 2, &ramp(), &widths()).unwrap();
    // margins: 8000 below, 4000 + 3000 + 1000 + 2000 = 10000 beside;
    // the plot area is 81000 - 10000 - 2000 by 63000 - 8000 - 2000, cut to 53000.
    assert_eq!(plot.width, 53_000 + 10_000 + 2_000);
    assert_eq!(plot.height, 53_000 + 8_000 + 2_000);
    assert_eq!(plot.pages.len(), 1);
    let page = &plot.pages[0];
    assert_eq!(page.size, Size { width: 65_000, height: 63_000 });
    assert_eq!(page.ops.len(), 3 + 12 + 14 + 1);
    assert_eq!(
        page.ops[2],
        DrawOp::Rectangle {
            origin: Point { x: 10_000, y: 8_000 },
            size: Size { width: 53_000, height: 53_000 },
        }
    );
    assert_eq!(
        page.ops[29],
        DrawOp::Image {
            pixels: colorize(&data, &ramp()).unwrap(),
            columns: 3,
            rows: 2,
            origin: Point { x: 10_050, y: 8_050 },
            extent: Size { width: 52_900, height: 52_900 },
        }
    );
}

#[test]
fn an_image_must_have_as_many_pixels_as_its_dimensions_ask_for() {
    let mut plot = pinned();
    let data = vec![Some(1); 6];
    assert_eq!(plot.image(&data, 3, 3, &ramp(), &widths()), Err(PlotError::Configuration));
    assert_eq!(plot.image(&data, usize::MAX, 2, &ramp(), &widths()), Err(PlotError::Configuration));
    assert_eq!(plot.image_rgb(vec![0; 17], 3, 2, &widths()), Err(PlotError::Configuration));
    assert_eq!(plot.image_rgb(vec![0; 6], 3, 2, &widths()), Err(PlotError::Configuration));
    assert!(plot.pages.is_empty());
    assert_eq!(plot.width, 81_000);
    assert_eq!(plot.height, 63_000);
}

#[test]
fn an_image_needs_both_axes_pinned() {
    let mut plot = Plot::new();
    plot.xlim(0, 600);
    let blank = LabelWidths { x_tick_labels: vec![0; 7], y_tick_labels: vec![0; 7] };
    assert_eq!(plot.image(&vec![Some(1)], 1, 1, &ramp(), &blank), Err(PlotError::Configuration));
    assert!(plot.pages.is_empty());
}

#[test]
fn colours_are_drawn_as_they_are_given() {
    let mut plot = pinned();
    let pixels: Vec<u8> = (0..18).collect();
    plot.image_rgb(pixels.clone(), 3, 2, &widths()).unwrap();
    match &plot.pages[0].ops[29] {
        DrawOp::Image { pixels: drawn, columns, rows, .. } => {
            assert_eq!(drawn, &pixels);
            assert_eq!((*columns, *rows), (3, 2));
        }
        other => panic!("{:?}", other),
    }
}

#[test]
fn a_second_image_is_laid_out_on_the_cut_page() {
    let mut plot = pinned();
    plot.image_rgb(vec![0; 3], 1, 1, &widths()).unwrap();
    plot.image_rgb(vec![0; 3], 1, 1, &widths()).unwrap();
    assert_eq!(plot.pages.len(), 2);
    // 65000 - 10000 - 2000 = 53000 across and 63000 - 8000 - 2000 = 53000 up again
    assert_eq!(plot.pages[1].size, Size { width: 65_000, height: 63_000 });
}
