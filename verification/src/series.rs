//! Drawing a series of points as a line through them.

use crate::axis::{Axis, AxisView};
use crate::error::PlotError;
use crate::layout::{
    coordinate_mapper, seq_max, spec_coordinate_mapper, spec_x_margin, spec_y_margin,
    x_margin, y_margin, CoordinateMapper, LabelWidths, Point, Size,
};
use crate::numeric::{fits_i64, to_i64};
use crate::plot::{lift_fits, shorter, spec_digest, Plot};
use crate::render::{
    extent, ops_view, point, DrawOp, DrawOpView, Furniture, Page, PageView,
};
use vstd::prelude::*;

verus! {

/// The two axes with their margins, from the widths of their tick labels.
///
/// Each axis must have one width for each of its ticks. The horizontal axis
/// takes room for its title, its labels and its ticks; the vertical axis
/// takes room for its title, its widest label and its ticks.
pub open spec fn spec_with_margins(
    plot: Plot,
    axes: (AxisView, AxisView),
    x_widths: Seq<i64>,
    y_widths: Seq<i64>,
) -> Result<(AxisView, AxisView), PlotError> {
    let below = spec_x_margin(plot.font_size as int, plot.tick_length as int);
    let beside = spec_y_margin(plot.font_size as int, plot.tick_length as int, seq_max(y_widths));
    if x_widths.len() != axes.0.num_ticks || y_widths.len() != axes.1.num_ticks {
        Err(PlotError::Configuration)
    } else if !fits_i64(below) || !fits_i64(beside) {
        Err(PlotError::NumericOverflow)
    } else {
        Ok(
            (
                AxisView { margin: below as i64, ..axes.0 },
                AxisView { margin: beside as i64, ..axes.1 },
            ),
        )
    }
}

impl Furniture {
    /// The place of point `i` of a series: its values are taken times ten,
    /// into the units of the axes, and mapped to the page.
    pub open spec fn series_point(&self, x_values: Seq<i64>, y_values: Seq<i64>, i: int) -> Point {
        point(
            self.mapper.spec_to_canvas_x(10 * x_values[i]),
            self.mapper.spec_to_canvas_y(10 * y_values[i]),
        )
    }

    /// The places of the points of a series. The values are paired off, and
    /// what is left over of the longer sequence is ignored.
    pub open spec fn series_points(&self, x_values: Seq<i64>, y_values: Seq<i64>) -> Seq<Point> {
        Seq::new(
            shorter(x_values.len(), y_values.len()),
            |i: int| self.series_point(x_values, y_values, i),
        )
    }

    /// Whether point `i` of a series fits.
    pub open spec fn series_point_fits(
        &self,
        x_values: Seq<i64>,
        y_values: Seq<i64>,
        i: int,
    ) -> bool {
        &&& lift_fits(x_values[i])
        &&& lift_fits(y_values[i])
        &&& fits_i64(self.mapper.spec_to_canvas_x(10 * x_values[i]))
        &&& fits_i64(self.mapper.spec_to_canvas_y(10 * y_values[i]))
    }

    /// Whether the corners of the plot area and the box that the series is
    /// kept in fit.
    pub open spec fn clip_box_fits(&self) -> bool {
        &&& fits_i64(self.left())
        &&& fits_i64(self.right())
        &&& fits_i64(self.bottom())
        &&& fits_i64(self.top())
        &&& fits_i64(self.left() - 200)
        &&& fits_i64(self.bottom() - 200)
        &&& fits_i64(self.right() - self.left() + 400)
        &&& fits_i64(self.top() - self.bottom() + 400)
    }

    /// Whether every coordinate of a series fits.
    pub open spec fn series_fits(&self, x_values: Seq<i64>, y_values: Seq<i64>) -> bool {
        &&& self.clip_box_fits()
        &&& forall|i: int|
            0 <= i < shorter(x_values.len(), y_values.len()) ==> #[trigger] self.series_point_fits(
                x_values,
                y_values,
                i,
            )
    }

    /// A series: a box two units wider than the plot area on each side to
    /// keep the line in, the line through the points, one and a half units
    /// wide and blue, and black again at the end.
    pub open spec fn series_ops(&self, x_values: Seq<i64>, y_values: Seq<i64>) -> Seq<DrawOpView> {
        seq![
            DrawOpView::ClipBox {
                origin: point(self.left() - 200, self.bottom() - 200),
                size: extent(
                    self.right() - self.left() + 400,
                    self.top() - self.bottom() + 400,
                ),
            },
            DrawOpView::SetLineWidth { width: 150 },
            DrawOpView::SetColor { red: 31, green: 119, blue: 180 },
            DrawOpView::Polyline { points: self.series_points(x_values, y_values) },
            DrawOpView::SetColor { red: 0, green: 0, blue: 0 },
        ]
    }
}

/// The page that shows a series.
///
/// The axes are planned from what is pinned and from the data, their margins
/// are taken from the widths of their labels, and the plot area is what the
/// page leaves. The page shows the axes; where there are values for the
/// horizontal axis it shows the series too.
pub open spec fn spec_plot_page(
    plot: Plot,
    x_values: Seq<i64>,
    y_values: Seq<i64>,
    x_widths: Seq<i64>,
    y_widths: Seq<i64>,
) -> Result<PageView, PlotError> {
    match spec_digest(plot, x_values, y_values) {
        Err(e) => Err(e),
        Ok(bare) => match spec_with_margins(plot, bare, x_widths, y_widths) {
            Err(e) => Err(e),
            Ok(axes) => match spec_coordinate_mapper(
                plot.width as int,
                plot.height as int,
                plot.font_size as int,
                axes.0,
                axes.1,
                x_widths.last() as int,
                false,
            ) {
                Err(e) => Err(e),
                Ok(mapper) => {
                    let all = plot.furniture(axes.0, axes.1, mapper);
                    let size = Size { width: plot.width, height: plot.height };
                    if !all.fits() {
                        Err(PlotError::NumericOverflow)
                    } else if x_values.len() == 0 {
                        Ok(PageView { size, ops: all.ops() })
                    } else if !all.series_fits(x_values, y_values) {
                        Err(PlotError::NumericOverflow)
                    } else {
                        Ok(PageView { size, ops: all.ops() + all.series_ops(x_values, y_values) })
                    }
                },
            },
        },
    }
}

impl Plot {
    /// Gives the two axes their margins, from the widths of their tick
    /// labels.
    pub fn with_margins(&self, xaxis: Axis, yaxis: Axis, widths: &LabelWidths) -> (r: Result<
        (Axis, Axis),
        PlotError,
    >)
        requires
            xaxis.num_ticks >= 1,
            yaxis.num_ticks >= 1,
        ensures
            match r {
                Ok(axes) => spec_with_margins(
                    *self,
                    (xaxis@, yaxis@),
                    widths.x_tick_labels@,
                    widths.y_tick_labels@,
                ) == Ok::<(AxisView, AxisView), PlotError>((axes.0@, axes.1@))
                    && axes.0.tick_labels == xaxis.tick_labels && axes.1.tick_labels
                    == yaxis.tick_labels && axes.0.well_formed() == xaxis.well_formed()
                    && axes.1.well_formed() == yaxis.well_formed() && axes.0.num_ticks
                    == xaxis.num_ticks && axes.1.num_ticks == yaxis.num_ticks
                    && widths.x_tick_labels@.len() == xaxis.num_ticks,
                Err(e) => spec_with_margins(
                    *self,
                    (xaxis@, yaxis@),
                    widths.x_tick_labels@,
                    widths.y_tick_labels@,
                ) == Err::<(AxisView, AxisView), PlotError>(e),
            },
    {
        if widths.x_tick_labels.len() as u64 != xaxis.num_ticks || widths.y_tick_labels.len() as u64
            != yaxis.num_ticks {
            return Err(PlotError::Configuration);
        }
        let below: i64 = x_margin(self.font_size, self.tick_length)?;
        let beside: i64 = y_margin(self.font_size, self.tick_length, &widths.y_tick_labels)?;
        let mut xaxis = xaxis;
        let mut yaxis = yaxis;
        xaxis.margin = below;
        yaxis.margin = beside;
        Ok((xaxis, yaxis))
    }

    /// Lists what is drawn of a series: the box that keeps it inside the
    /// plot area, and the line through its points.
    ///
    /// Fails where a coordinate does not fit, and only there.
    pub fn draw_series(
        &self,
        xaxis: &Axis,
        yaxis: &Axis,
        mapper: &CoordinateMapper,
        x_values: &Vec<i64>,
        y_values: &Vec<i64>,
    ) -> (r: Result<Vec<DrawOp>, PlotError>)
        requires
            mapper.well_formed(),
        ensures
            match r {
                Ok(ops) => self.furniture(xaxis@, yaxis@, *mapper).series_fits(
                    x_values@,
                    y_values@,
                ) && ops_view(ops@) == self.furniture(xaxis@, yaxis@, *mapper).series_ops(
                    x_values@,
                    y_values@,
                ),
                Err(e) => e == PlotError::NumericOverflow && !self.furniture(
                    xaxis@,
                    yaxis@,
                    *mapper,
                ).series_fits(x_values@, y_values@),
            },
    {
        let ghost all = self.furniture(xaxis@, yaxis@, *mapper);
        let left: i64 = mapper.to_canvas_x(xaxis.limits.0)?;
        let right: i64 = mapper.to_canvas_x(xaxis.limits.1)?;
        let bottom: i64 = mapper.to_canvas_y(yaxis.limits.0)?;
        let top: i64 = mapper.to_canvas_y(yaxis.limits.1)?;
        let box_left: i64 = to_i64(left as i128 - 200)?;
        let box_bottom: i64 = to_i64(bottom as i128 - 200)?;
        let box_width: i64 = to_i64(right as i128 - left as i128 + 400)?;
        let box_height: i64 = to_i64(top as i128 - bottom as i128 + 400)?;
        let n: usize = if x_values.len() <= y_values.len() {
            x_values.len()
        } else {
            y_values.len()
        };
        let mut points: Vec<Point> = Vec::new();
        let mut i: usize = 0;
        while i < n
            invariant
                all == self.furniture(xaxis@, yaxis@, *mapper),
                mapper.well_formed(),
                n == shorter(x_values@.len(), y_values@.len()),
                i <= n,
                points@.len() == i,
                forall|k: int|
                    0 <= k < i ==> #[trigger] all.series_point_fits(x_values@, y_values@, k),
                forall|k: int|
                    0 <= k < i ==> #[trigger] points@[k] == all.series_point(
                        x_values@,
                        y_values@,
                        k,
                    ),
            decreases n - i,
        {
            let x: i64 = match x_values[i].checked_mul(10) {
                Some(x) => x,
                None => {
                    assert(!all.series_point_fits(x_values@, y_values@, i as int));
                    return Err(PlotError::NumericOverflow);
                },
            };
            let y: i64 = match y_values[i].checked_mul(10) {
                Some(y) => y,
                None => {
                    assert(!all.series_point_fits(x_values@, y_values@, i as int));
                    return Err(PlotError::NumericOverflow);
                },
            };
            let across: i64 = match mapper.to_canvas_x(x) {
                Ok(v) => v,
                Err(e) => {
                    assert(!all.series_point_fits(x_values@, y_values@, i as int));
                    return Err(e);
                },
            };
            let up: i64 = match mapper.to_canvas_y(y) {
                Ok(v) => v,
                Err(e) => {
                    assert(!all.series_point_fits(x_values@, y_values@, i as int));
                    return Err(e);
                },
            };
            points.push(Point { x: across, y: up });
            i = i + 1;
        }
        assert(points@ =~= all.series_points(x_values@, y_values@));
        let mut ops: Vec<DrawOp> = Vec::new();
        ops.push(
            DrawOp::ClipBox {
                origin: Point { x: box_left, y: box_bottom },
                size: Size { width: box_width, height: box_height },
            },
        );
        ops.push(DrawOp::SetLineWidth { width: 150 });
        ops.push(DrawOp::SetColor { red: 31, green: 119, blue: 180 });
        ops.push(DrawOp::Polyline { points });
        ops.push(DrawOp::SetColor { red: 0, green: 0, blue: 0 });
        assert(ops_view(ops@) =~= all.series_ops(x_values@, y_values@));
        Ok(ops)
    }

    /// Lays out the page that shows a series as a line through its points.
    pub fn plot_page(&self, x_values: &Vec<i64>, y_values: &Vec<i64>, widths: &LabelWidths) -> (r:
        Result<Page, PlotError>)
        ensures
            match r {
                Ok(page) => spec_plot_page(
                    *self,
                    x_values@,
                    y_values@,
                    widths.x_tick_labels@,
                    widths.y_tick_labels@,
                ) == Ok::<PageView, PlotError>(page@),
                Err(e) => spec_plot_page(
                    *self,
                    x_values@,
                    y_values@,
                    widths.x_tick_labels@,
                    widths.y_tick_labels@,
                ) == Err::<PageView, PlotError>(e),
            },
    {
        let (bare_x, bare_y) = self.digest_tick_settings(x_values, y_values)?;
        let (xaxis, yaxis) = self.with_margins(bare_x, bare_y, widths)?;
        let last: i64 = widths.x_tick_labels[widths.x_tick_labels.len() - 1];
        let mapper = coordinate_mapper(
            self.width,
            self.height,
            self.font_size,
            &xaxis,
            &yaxis,
            last,
            false,
        )?;
        let mut ops = self.draw_axes(&xaxis, &yaxis, &mapper)?;
        if x_values.len() > 0 {
            let ghost axes_ops = ops@;
            let mut line = self.draw_series(&xaxis, &yaxis, &mapper, x_values, y_values)?;
            proof {
                lemma_ops_view_concat(axes_ops, line@);
            }
            ops.append(&mut line);
        }
        Ok(Page { size: Size { width: self.width, height: self.height }, ops })
    }

    /// Draws a page that shows a series as a line through its points.
    ///
    /// `widths` holds the width of every tick label of the two axes, which
    /// `digest_tick_settings` names. On success one page is added and nothing
    /// else changes; on failure nothing changes at all.
    pub fn plot(&mut self, x_values: &Vec<i64>, y_values: &Vec<i64>, widths: &LabelWidths) -> (r:
        Result<(), PlotError>)
        ensures
            match r {
                Ok(_) => {
                    &&& spec_plot_page(
                        *old(self),
                        x_values@,
                        y_values@,
                        widths.x_tick_labels@,
                        widths.y_tick_labels@,
                    ) is Ok
                    &&& final(self).pages@.len() == old(self).pages@.len() + 1
                    &&& final(self).pages@.drop_last() == old(self).pages@
                    &&& final(self).pages@.last()@ == spec_plot_page(
                        *old(self),
                        x_values@,
                        y_values@,
                        widths.x_tick_labels@,
                        widths.y_tick_labels@,
                    )->Ok_0
                    &&& *final(self) == (Plot { pages: final(self).pages, ..*old(self) })
                },
                Err(e) => spec_plot_page(
                    *old(self),
                    x_values@,
                    y_values@,
                    widths.x_tick_labels@,
                    widths.y_tick_labels@,
                ) == Err::<PageView, PlotError>(e) && *final(self) == *old(self),
            },
    {
        let page = self.plot_page(x_values, y_values, widths)?;
        let ghost before = self.pages@;
        self.pages.push(page);
        assert(self.pages@.drop_last() =~= before);
        Ok(())
    }
}

/// The values of two lists of operations, one after the other, are the
/// values of the one list that holds both.
pub proof fn lemma_ops_view_concat(first: Seq<DrawOp>, second: Seq<DrawOp>)
    ensures
        ops_view(first + second) == ops_view(first) + ops_view(second),
{
    assert(ops_view(first + second) =~= ops_view(first) + ops_view(second));
}

} // verus!
