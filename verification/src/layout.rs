//! Margins around the plot area, and the map from values to page
//! coordinates.
//!
//! Lengths on the page are whole numbers of hundredths of a page unit.

use crate::axis::{Axis, AxisView};
use crate::error::PlotError;
use crate::numeric::{fits_i64, floor_div_of, to_i64};
use vstd::prelude::*;

verus! {

/// A place on the page.
#[derive(Clone, Copy, Debug, PartialEq, Eq, Structural)]
pub struct Point {
    pub x: i64,
    pub y: i64,
}

/// The extent of a rectangle on the page.
#[derive(Clone, Copy, Debug, PartialEq, Eq, Structural)]
pub struct Size {
    pub width: i64,
    pub height: i64,
}

/// The widths of the tick labels of the two axes, as they were measured in
/// the font in which they are drawn.
#[derive(Debug, PartialEq, Eq)]
pub struct LabelWidths {
    /// The width of each tick label of the horizontal axis.
    pub x_tick_labels: Vec<i64>,
    /// The width of each tick label of the vertical axis.
    pub y_tick_labels: Vec<i64>,
}

/// The largest element of a sequence that is not empty.
pub open spec fn seq_max(s: Seq<i64>) -> int
    decreases s.len(),
{
    if s.len() <= 1 {
        s[0] as int
    } else if s.last() > seq_max(s.drop_last()) {
        s.last() as int
    } else {
        seq_max(s.drop_last())
    }
}

/// The largest element is an element, and none is larger.
pub proof fn lemma_seq_max_is_largest(s: Seq<i64>)
    requires
        s.len() >= 1,
    ensures
        exists|i: int| 0 <= i < s.len() && s[i] == seq_max(s),
        forall|i: int| 0 <= i < s.len() ==> s[i] <= seq_max(s),
    decreases s.len(),
{
    if s.len() <= 1 {
        assert(s[0] == seq_max(s));
    } else {
        let front = s.drop_last();
        lemma_seq_max_is_largest(front);
        let at = choose|i: int| 0 <= i < front.len() && front[i] == seq_max(front);
        if s.last() > seq_max(front) {
            assert(s[s.len() - 1] == seq_max(s));
        } else {
            assert(s[at] == seq_max(s));
        }
        assert forall|i: int| 0 <= i < s.len() implies s[i] <= seq_max(s) by {
            if i < front.len() {
                assert(front[i] == s[i]);
            }
        }
    }
}

/// The largest of the widths of some labels.
pub fn max_width(widths: &Vec<i64>) -> (r: i64)
    requires
        widths@.len() >= 1,
    ensures
        r == seq_max(widths@),
{
    let mut largest: i64 = widths[0];
    let mut i: usize = 1;
    assert(widths@.take(1).len() == 1);
    while i < widths.len()
        invariant
            1 <= i <= widths@.len(),
            largest == seq_max(widths@.take(i as int)),
        decreases widths@.len() - i,
    {
        assert(widths@.take(i + 1).drop_last() =~= widths@.take(i as int));
        if widths[i] > largest {
            largest = widths[i];
        }
        i = i + 1;
    }
    assert(widths@.take(i as int) =~= widths@);
    largest
}

/// The room below the plot area: one and a half times the font size for the
/// title of the axis, the font size for the tick labels, the ticks, and the
/// font size once more. The half is rounded down.
pub open spec fn spec_x_margin(font_size: int, tick_length: int) -> int {
    font_size + font_size / 2 + font_size + tick_length + font_size
}

/// The room to the left of the plot area: twice the font size for the title
/// of the axis, the widest tick label, the ticks, and the font size once
/// more.
pub open spec fn spec_y_margin(font_size: int, tick_length: int, widest: int) -> int {
    2 * font_size + widest + tick_length + font_size
}

/// One half of `v`, rounded down.
fn half_of(v: i64) -> (r: i64)
    ensures
        r == (v as int) / 2,
{
    floor_div_of(v as i128, 2) as i64
}

/// The room below the plot area.
pub fn x_margin(font_size: i64, tick_length: i64) -> (r: Result<i64, PlotError>)
    ensures
        match r {
            Ok(m) => m == spec_x_margin(font_size as int, tick_length as int),
            Err(e) => e == PlotError::NumericOverflow && !fits_i64(
                spec_x_margin(font_size as int, tick_length as int),
            ),
        },
{
    let font: i128 = font_size as i128;
    to_i64(font + half_of(font_size) as i128 + font + tick_length as i128 + font)
}

/// The room to the left of the plot area, from the widths of the tick
/// labels.
pub fn y_margin(font_size: i64, tick_length: i64, widths: &Vec<i64>) -> (r: Result<
    i64,
    PlotError,
>)
    requires
        widths@.len() >= 1,
    ensures
        match r {
            Ok(m) => m == spec_y_margin(font_size as int, tick_length as int, seq_max(widths@)),
            Err(e) => e == PlotError::NumericOverflow && !fits_i64(
                spec_y_margin(font_size as int, tick_length as int, seq_max(widths@)),
            ),
        },
{
    let font: i128 = font_size as i128;
    to_i64(2 * font + max_width(widths) as i128 + tick_length as i128 + font)
}

/// `a / b` rounded down, for `b` other than zero.
pub open spec fn floor_div(a: int, b: int) -> int {
    if b > 0 {
        a / b
    } else {
        (-a) / (-b)
    }
}

/// The map from the values along one axis to places along the page: the
/// first limit goes to `offset`, the second to `offset + length`, and every
/// other value in proportion, rounded down.
#[derive(Clone, Copy, Debug, PartialEq, Eq)]
pub struct AxisMap {
    /// The values at the two ends of the axis.
    pub limits: (i64, i64),
    /// The length of the plot area along the axis.
    pub length: i64,
    /// The place of the first limit.
    pub offset: i64,
}

impl AxisMap {
    /// The two limits differ.
    pub open spec fn well_formed(&self) -> bool {
        self.limits.0 != self.limits.1
    }

    /// The place of the value `v`.
    pub open spec fn spec_to_canvas(&self, v: int) -> int {
        self.offset + floor_div(
            (v - self.limits.0) * self.length,
            self.limits.1 - self.limits.0,
        )
    }

    /// The first limit lies at the offset, and the second lies the length of
    /// the plot area further.
    pub proof fn lemma_limits_anchor(&self)
        requires
            self.well_formed(),
        ensures
            self.spec_to_canvas(self.limits.0 as int) == self.offset,
            self.spec_to_canvas(self.limits.1 as int) == self.offset + self.length,
    {
        let span = self.limits.1 - self.limits.0;
        let length = self.length as int;
        assert(0 * length == 0);
        if span > 0 {
            vstd::arithmetic::div_mod::lemma_div_multiples_vanish(length, span);
        } else {
            assert(-(span * length) == (-span) * length) by (nonlinear_arith);
            vstd::arithmetic::div_mod::lemma_div_multiples_vanish(length, -span);
        }
    }

    /// The place of the value `v`, where it fits.
    pub fn to_canvas(&self, v: i64) -> (r: Result<i64, PlotError>)
        requires
            self.well_formed(),
        ensures
            match r {
                Ok(c) => c == self.spec_to_canvas(v as int),
                Err(e) => e == PlotError::NumericOverflow && !fits_i64(
                    self.spec_to_canvas(v as int),
                ),
            },
    {
        let span: i128 = self.limits.1 as i128 - self.limits.0 as i128;
        let along: i128 = v as i128 - self.limits.0 as i128;
        let length: i128 = self.length as i128;
        assert(-0x7FFF_FFFF_FFFF_FFFF_8000_0000_0000_0000 <= along * length
            <= 0x7FFF_FFFF_FFFF_FFFF_8000_0000_0000_0000) by (nonlinear_arith)
            requires
                -0xFFFF_FFFF_FFFF_FFFF <= along <= 0xFFFF_FFFF_FFFF_FFFF,
                -0x8000_0000_0000_0000 <= length <= 0x8000_0000_0000_0000,
        ;
        let product: i128 = along * length;
        let (numerator, divisor): (i128, i128) = if span > 0 {
            (product, span)
        } else {
            (-product, -span)
        };
        let quotient: i128 = floor_div_of(numerator, divisor);
        assert(-0x7FFF_FFFF_FFFF_FFFF_8000_0000_0000_0000 <= quotient
            <= 0x7FFF_FFFF_FFFF_FFFF_8000_0000_0000_0000) by (nonlinear_arith)
            requires
                quotient == (numerator as int) / (divisor as int),
                divisor >= 1,
                -0x7FFF_FFFF_FFFF_FFFF_8000_0000_0000_0000 <= numerator
                    <= 0x7FFF_FFFF_FFFF_FFFF_8000_0000_0000_0000,
        ;
        to_i64(self.offset as i128 + quotient)
    }
}

/// The maps of the two axes of a plot.
#[derive(Clone, Copy, Debug, PartialEq, Eq)]
pub struct CoordinateMapper {
    /// From values along the horizontal axis to places across the page.
    pub x: AxisMap,
    /// From values along the vertical axis to places up the page.
    pub y: AxisMap,
}

/// The width of the plot area: what the page leaves beside the margin of the
/// vertical axis and the last label of the horizontal one.
pub open spec fn spec_plot_width(width: int, y_margin: int, last_label_width: int) -> int {
    width - y_margin - last_label_width
}

/// The height of the plot area: what the page leaves above the margin of the
/// horizontal axis and one font size.
pub open spec fn spec_plot_height(height: int, x_margin: int, font_size: int) -> int {
    height - x_margin - font_size
}

impl CoordinateMapper {
    /// Both axes have two limits that differ.
    pub open spec fn well_formed(&self) -> bool {
        self.x.well_formed() && self.y.well_formed()
    }

    /// The place across the page of the value `x`.
    pub open spec fn spec_to_canvas_x(&self, x: int) -> int {
        self.x.spec_to_canvas(x)
    }

    /// The place up the page of the value `y`.
    pub open spec fn spec_to_canvas_y(&self, y: int) -> int {
        self.y.spec_to_canvas(y)
    }

    /// The place across the page of the value `x`.
    pub fn to_canvas_x(&self, x: i64) -> (r: Result<i64, PlotError>)
        requires
            self.well_formed(),
        ensures
            match r {
                Ok(c) => c == self.spec_to_canvas_x(x as int),
                Err(e) => e == PlotError::NumericOverflow && !fits_i64(
                    self.spec_to_canvas_x(x as int),
                ),
            },
    {
        self.x.to_canvas(x)
    }

    /// The place up the page of the value `y`.
    pub fn to_canvas_y(&self, y: i64) -> (r: Result<i64, PlotError>)
        requires
            self.well_formed(),
        ensures
            match r {
                Ok(c) => c == self.spec_to_canvas_y(y as int),
                Err(e) => e == PlotError::NumericOverflow && !fits_i64(
                    self.spec_to_canvas_y(y as int),
                ),
            },
    {
        self.y.to_canvas(y)
    }

    /// The limits of the horizontal axis lie at the margin of the vertical
    /// axis and the width of the plot area further; the limits of the
    /// vertical axis lie at the margin of the horizontal axis and the height
    /// of the plot area further.
    pub proof fn lemma_limits_anchor(&self)
        requires
            self.well_formed(),
        ensures
            self.spec_to_canvas_x(self.x.limits.0 as int) == self.x.offset,
            self.spec_to_canvas_x(self.x.limits.1 as int) == self.x.offset + self.x.length,
            self.spec_to_canvas_y(self.y.limits.0 as int) == self.y.offset,
            self.spec_to_canvas_y(self.y.limits.1 as int) == self.y.offset + self.y.length,
    {
        self.x.lemma_limits_anchor();
        self.y.lemma_limits_anchor();
    }
}

/// The mapper for a plot area of the given width and height, with its
/// corner at the two margins.
pub open spec fn spec_mapper(
    x_limits: (i64, i64),
    y_limits: (i64, i64),
    x_margin: i64,
    y_margin: i64,
    plot_width: int,
    plot_height: int,
) -> Result<CoordinateMapper, PlotError> {
    if x_limits.0 == x_limits.1 || y_limits.0 == y_limits.1 || !fits_i64(plot_width) || !fits_i64(
        plot_height,
    ) {
        Err(PlotError::NumericOverflow)
    } else {
        Ok(
            CoordinateMapper {
                x: AxisMap { limits: x_limits, length: plot_width as i64, offset: y_margin },
                y: AxisMap { limits: y_limits, length: plot_height as i64, offset: x_margin },
            },
        )
    }
}

/// The lesser of two lengths.
pub open spec fn lesser(a: int, b: int) -> int {
    if a <= b {
        a
    } else {
        b
    }
}

/// The mapper of a plot on a page of the given width and height.
///
/// The plot area is what the page leaves beside the margins of the axes, the
/// last label of the horizontal axis and one font size at the top. With
/// `square` set, the area is cut to a square of the lesser of its width and
/// its height.
pub open spec fn spec_coordinate_mapper(
    width: int,
    height: int,
    font_size: int,
    xaxis: AxisView,
    yaxis: AxisView,
    last_label_width: int,
    square: bool,
) -> Result<CoordinateMapper, PlotError> {
    let plot_width = spec_plot_width(width, yaxis.margin as int, last_label_width);
    let plot_height = spec_plot_height(height, xaxis.margin as int, font_size);
    spec_mapper(
        xaxis.limits,
        yaxis.limits,
        xaxis.margin,
        yaxis.margin,
        if square {
            lesser(plot_width, plot_height)
        } else {
            plot_width
        },
        if square {
            lesser(plot_width, plot_height)
        } else {
            plot_height
        },
    )
}

/// The mapper of a plot puts the first limit of the horizontal axis at the
/// margin of the vertical axis and the second limit the width of the plot
/// area further, and the limits of the vertical axis at the margin of the
/// horizontal axis and the height of the plot area further.
pub proof fn lemma_mapper_anchors_at_the_margins(
    width: int,
    height: int,
    font_size: int,
    xaxis: AxisView,
    yaxis: AxisView,
    last_label_width: int,
)
    requires
        spec_coordinate_mapper(
            width,
            height,
            font_size,
            xaxis,
            yaxis,
            last_label_width,
            false,
        ) is Ok,
    ensures
        ({
            let mapper = spec_coordinate_mapper(
                width,
                height,
                font_size,
                xaxis,
                yaxis,
                last_label_width,
                false,
            )->Ok_0;
            let plot_width = spec_plot_width(width, yaxis.margin as int, last_label_width);
            let plot_height = spec_plot_height(height, xaxis.margin as int, font_size);
            &&& mapper.spec_to_canvas_x(xaxis.limits.0 as int) == yaxis.margin
            &&& mapper.spec_to_canvas_x(xaxis.limits.1 as int) == yaxis.margin + plot_width
            &&& mapper.spec_to_canvas_y(yaxis.limits.0 as int) == xaxis.margin
            &&& mapper.spec_to_canvas_y(yaxis.limits.1 as int) == xaxis.margin + plot_height
        }),
{
    let mapper = spec_coordinate_mapper(
        width,
        height,
        font_size,
        xaxis,
        yaxis,
        last_label_width,
        false,
    )->Ok_0;
    mapper.lemma_limits_anchor();
}

/// Builds the mapper of a plot on a page of the given width and height.
///
/// An axis whose limits are equal has no map, and neither has a plot area
/// whose width or height does not fit.
pub fn coordinate_mapper(
    width: i64,
    height: i64,
    font_size: i64,
    xaxis: &Axis,
    yaxis: &Axis,
    last_label_width: i64,
    square: bool,
) -> (r: Result<CoordinateMapper, PlotError>)
    ensures
        r == spec_coordinate_mapper(
            width as int,
            height as int,
            font_size as int,
            xaxis@,
            yaxis@,
            last_label_width as int,
            square,
        ),
        r is Ok ==> r->Ok_0.well_formed(),
{
    let plot_width: i128 = width as i128 - yaxis.margin as i128 - last_label_width as i128;
    let plot_height: i128 = height as i128 - xaxis.margin as i128 - font_size as i128;
    let plot_size: i128 = if plot_width <= plot_height {
        plot_width
    } else {
        plot_height
    };
    if xaxis.limits.0 == xaxis.limits.1 || yaxis.limits.0 == yaxis.limits.1 {
        return Err(PlotError::NumericOverflow);
    }
    let across: i64 = match to_i64(
        if square {
            plot_size
        } else {
            plot_width
        },
    ) {
        Ok(v) => v,
        Err(e) => {
            return Err(e);
        },
    };
    let up: i64 = match to_i64(
        if square {
            plot_size
        } else {
            plot_height
        },
    ) {
        Ok(v) => v,
        Err(e) => {
            return Err(e);
        },
    };
    Ok(
        CoordinateMapper {
            x: AxisMap { limits: xaxis.limits, length: across, offset: yaxis.margin },
            y: AxisMap { limits: yaxis.limits, length: up, offset: xaxis.margin },
        },
    )
}

} // verus!
