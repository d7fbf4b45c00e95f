//! What is drawn on a page: a list of drawing operations for a backend.

use crate::axis::{Axis, AxisView};
use crate::error::PlotError;
use crate::layout::{CoordinateMapper, Point, Size};
use crate::numeric::{fits_i64, floor_div_of, to_i64};
use crate::plot::Plot;
use vstd::prelude::*;

verus! {

/// Where a text lies with respect to the place it is drawn at.
#[derive(Clone, Copy, Debug, PartialEq, Eq, Structural)]
pub enum Alignment {
    /// The place is the middle of the upper edge of the text.
    TopCenter,
    /// The place is the middle of the right edge of the text.
    CenterRight,
    /// The place is the middle of the lower edge of the text.
    BottomCenter,
}

/// One drawing operation. Lengths and places are counted in hundredths of a
/// page unit.
#[derive(Debug, PartialEq, Eq)]
pub enum DrawOp {
    /// Sets the colour of what is drawn from here on.
    SetColor { red: u8, green: u8, blue: u8 },
    /// Sets the width of the lines drawn from here on.
    SetLineWidth { width: i64 },
    /// Draws the outline of a rectangle.
    Rectangle { origin: Point, size: Size },
    /// Draws a straight line.
    Line { from: Point, to: Point },
    /// Draws a text.
    Text { at: Point, alignment: Alignment, text: String },
    /// Turns the coordinate system about its origin, counter-clockwise.
    Rotate { degrees: i64 },
    /// Keeps what is drawn from here on inside a rectangle.
    ClipBox { origin: Point, size: Size },
    /// Draws straight lines from each point to the next.
    Polyline { points: Vec<Point> },
    /// Draws a raster of `columns` by `rows` pixels, three bytes of red,
    /// green and blue each, with its corner at `origin`. A pixel is
    /// `extent.width / columns` wide and `extent.height / columns` high.
    Image { pixels: Vec<u8>, columns: u64, rows: u64, origin: Point, extent: Size },
}

/// A drawing operation as a mathematical value.
pub enum DrawOpView {
    SetColor { red: u8, green: u8, blue: u8 },
    SetLineWidth { width: i64 },
    Rectangle { origin: Point, size: Size },
    Line { from: Point, to: Point },
    Text { at: Point, alignment: Alignment, text: Seq<char> },
    Rotate { degrees: i64 },
    ClipBox { origin: Point, size: Size },
    Polyline { points: Seq<Point> },
    Image { pixels: Seq<u8>, columns: u64, rows: u64, origin: Point, extent: Size },
}

impl View for DrawOp {
    type V = DrawOpView;

    open spec fn view(&self) -> DrawOpView {
        match *self {
            DrawOp::SetColor { red, green, blue } => DrawOpView::SetColor { red, green, blue },
            DrawOp::SetLineWidth { width } => DrawOpView::SetLineWidth { width },
            DrawOp::Rectangle { origin, size } => DrawOpView::Rectangle { origin, size },
            DrawOp::Line { from, to } => DrawOpView::Line { from, to },
            DrawOp::Text { at, alignment, text } => DrawOpView::Text { at, alignment, text: text@ },
            DrawOp::Rotate { degrees } => DrawOpView::Rotate { degrees },
            DrawOp::ClipBox { origin, size } => DrawOpView::ClipBox { origin, size },
            DrawOp::Polyline { points } => DrawOpView::Polyline { points: points@ },
            DrawOp::Image { pixels, columns, rows, origin, extent } => DrawOpView::Image {
                pixels: pixels@,
                columns,
                rows,
                origin,
                extent,
            },
        }
    }
}

/// A list of drawing operations as a mathematical value.
pub open spec fn ops_view(ops: Seq<DrawOp>) -> Seq<DrawOpView> {
    Seq::new(ops.len(), |i: int| ops[i]@)
}

/// One page: its size and what is drawn on it, in order.
#[derive(Debug, PartialEq, Eq)]
pub struct Page {
    pub size: Size,
    pub ops: Vec<DrawOp>,
}

/// A page as a mathematical value.
pub struct PageView {
    pub size: Size,
    pub ops: Seq<DrawOpView>,
}

impl View for Page {
    type V = PageView;

    open spec fn view(&self) -> PageView {
        PageView { size: self.size, ops: ops_view(self.ops@) }
    }
}

/// Taking one more operation into a list takes its value into the list of
/// values.
pub proof fn lemma_ops_view_push(ops: Seq<DrawOp>, op: DrawOp)
    ensures
        ops_view(ops.push(op)) == ops_view(ops).push(op@),
{
    assert(ops_view(ops.push(op)) =~= ops_view(ops).push(op@));
}

/// The place with the given coordinates.
pub open spec fn point(x: int, y: int) -> Point {
    Point { x: x as i64, y: y as i64 }
}

/// The extent with the given width and height.
pub open spec fn extent(width: int, height: int) -> Size {
    Size { width: width as i64, height: height as i64 }
}

/// What a page shows of a plot besides the data.
pub struct Furniture {
    /// The length of a tick mark.
    pub tick_length: i64,
    /// The size of the font.
    pub font_size: i64,
    /// The title of the horizontal axis.
    pub xlabel: Option<Seq<char>>,
    /// The title of the vertical axis.
    pub ylabel: Option<Seq<char>>,
    /// The horizontal axis.
    pub xaxis: AxisView,
    /// The vertical axis.
    pub yaxis: AxisView,
    /// The map from values to places.
    pub mapper: CoordinateMapper,
}

impl Furniture {
    /// The place across the page of the first limit of the horizontal axis.
    pub open spec fn left(&self) -> int {
        self.mapper.spec_to_canvas_x(self.xaxis.limits.0 as int)
    }

    /// The place across the page of the second limit of the horizontal axis.
    pub open spec fn right(&self) -> int {
        self.mapper.spec_to_canvas_x(self.xaxis.limits.1 as int)
    }

    /// The place up the page of the first limit of the vertical axis.
    pub open spec fn bottom(&self) -> int {
        self.mapper.spec_to_canvas_y(self.yaxis.limits.0 as int)
    }

    /// The place up the page of the second limit of the vertical axis.
    pub open spec fn top(&self) -> int {
        self.mapper.spec_to_canvas_y(self.yaxis.limits.1 as int)
    }

    /// The place across the page of tick `i` of the horizontal axis.
    pub open spec fn x_tick(&self, i: int) -> int {
        self.mapper.spec_to_canvas_x(self.xaxis.tick_value(i))
    }

    /// The place up the page of tick `i` of the vertical axis.
    pub open spec fn y_tick(&self, i: int) -> int {
        self.mapper.spec_to_canvas_y(self.yaxis.tick_value(i))
    }

    /// The place across the page of the middle of the horizontal axis.
    pub open spec fn x_middle(&self) -> int {
        self.mapper.spec_to_canvas_x(
            self.xaxis.limits.0 + (self.xaxis.limits.1 - self.xaxis.limits.0) / 2,
        )
    }

    /// The place up the page of the middle of the vertical axis.
    pub open spec fn y_middle(&self) -> int {
        self.mapper.spec_to_canvas_y(
            self.yaxis.limits.0 + (self.yaxis.limits.1 - self.yaxis.limits.0) / 2,
        )
    }

    /// The border of the plot area, in black lines one unit wide.
    pub open spec fn border_ops(&self) -> Seq<DrawOpView> {
        seq![
            DrawOpView::SetColor { red: 0, green: 0, blue: 0 },
            DrawOpView::SetLineWidth { width: 100 },
            DrawOpView::Rectangle {
                origin: point(self.left(), self.bottom()),
                size: extent(self.right() - self.left(), self.top() - self.bottom()),
            },
        ]
    }

    /// The first `n` ticks of the horizontal axis: each a mark downwards from
    /// the lower border, and its label below the mark.
    pub open spec fn x_tick_ops(&self, n: int) -> Seq<DrawOpView>
        decreases n,
    {
        if n <= 0 {
            Seq::<DrawOpView>::empty()
        } else {
            self.x_tick_ops(n - 1) + seq![
                DrawOpView::Line {
                    from: point(self.x_tick(n - 1), self.bottom()),
                    to: point(self.x_tick(n - 1), self.bottom() - self.tick_length),
                },
                DrawOpView::Text {
                    at: point(self.x_tick(n - 1), self.bottom() - self.tick_length),
                    alignment: Alignment::TopCenter,
                    text: self.xaxis.tick_labels[n - 1],
                },
            ]
        }
    }

    /// The first `n` ticks of the vertical axis: each a mark leftwards from
    /// the left border, and its label two units to the left of the mark.
    pub open spec fn y_tick_ops(&self, n: int) -> Seq<DrawOpView>
        decreases n,
    {
        if n <= 0 {
            Seq::<DrawOpView>::empty()
        } else {
            self.y_tick_ops(n - 1) + seq![
                DrawOpView::Line {
                    from: point(self.left(), self.y_tick(n - 1)),
                    to: point(self.left() - self.tick_length, self.y_tick(n - 1)),
                },
                DrawOpView::Text {
                    at: point(self.left() - self.tick_length - 200, self.y_tick(n - 1)),
                    alignment: Alignment::CenterRight,
                    text: self.yaxis.tick_labels[n - 1],
                },
            ]
        }
    }

    /// The title of the horizontal axis, below its middle, four units and
    /// half a font size above the lower edge of the page.
    pub open spec fn xlabel_ops(&self) -> Seq<DrawOpView> {
        match self.xlabel {
            None => Seq::<DrawOpView>::empty(),
            Some(text) => seq![
                DrawOpView::Text {
                    at: point(self.x_middle(), 400 + self.font_size / 2),
                    alignment: Alignment::BottomCenter,
                    text,
                },
            ],
        }
    }

    /// The title of the vertical axis, beside its middle, six units from the
    /// left edge of the page, written upwards.
    pub open spec fn ylabel_ops(&self) -> Seq<DrawOpView> {
        match self.ylabel {
            None => Seq::<DrawOpView>::empty(),
            Some(text) => seq![
                DrawOpView::Rotate { degrees: 90 },
                DrawOpView::Text {
                    at: point(self.y_middle(), -600),
                    alignment: Alignment::TopCenter,
                    text,
                },
                DrawOpView::Rotate { degrees: -90i64 },
            ],
        }
    }

    /// All that a page shows of a plot besides the data: the border, the
    /// ticks of the horizontal axis, those of the vertical axis, and the
    /// titles.
    pub open spec fn ops(&self) -> Seq<DrawOpView> {
        self.border_ops() + self.x_tick_ops(self.xaxis.num_ticks as int) + self.y_tick_ops(
            self.yaxis.num_ticks as int,
        ) + self.xlabel_ops() + self.ylabel_ops()
    }

    /// Whether the border and the ends of the tick marks fit.
    pub open spec fn border_fits(&self) -> bool {
        &&& fits_i64(self.left())
        &&& fits_i64(self.right())
        &&& fits_i64(self.bottom())
        &&& fits_i64(self.top())
        &&& fits_i64(self.right() - self.left())
        &&& fits_i64(self.top() - self.bottom())
        &&& fits_i64(self.bottom() - self.tick_length)
        &&& fits_i64(self.left() - self.tick_length)
        &&& fits_i64(self.left() - self.tick_length - 200)
    }

    /// Whether the titles that there are fit.
    pub open spec fn titles_fit(&self) -> bool {
        &&& self.xlabel is Some ==> fits_i64(self.x_middle()) && fits_i64(
            400 + self.font_size / 2,
        )
        &&& self.ylabel is Some ==> fits_i64(self.y_middle())
    }

    /// Whether every coordinate that is drawn fits.
    pub open spec fn fits(&self) -> bool {
        &&& self.border_fits()
        &&& forall|i: int| 0 <= i < self.xaxis.num_ticks ==> fits_i64(#[trigger] self.x_tick(i))
        &&& forall|i: int| 0 <= i < self.yaxis.num_ticks ==> fits_i64(#[trigger] self.y_tick(i))
        &&& self.titles_fit()
    }
}

/// The value of a title.
pub open spec fn title_view(title: Option<String>) -> Option<Seq<char>> {
    match title {
        Some(text) => Some(text@),
        None => None,
    }
}

impl Plot {
    /// What a page shows of this plot besides the data, with the given axes
    /// and map.
    pub open spec fn furniture(
        &self,
        xaxis: AxisView,
        yaxis: AxisView,
        mapper: CoordinateMapper,
    ) -> Furniture {
        Furniture {
            tick_length: self.tick_length,
            font_size: self.font_size,
            xlabel: title_view(self.xlabel),
            ylabel: title_view(self.ylabel),
            xaxis,
            yaxis,
            mapper,
        }
    }

    /// Lists what is drawn of a plot besides the data: the border of the
    /// plot area, a mark and a label for each tick of the two axes, and the
    /// titles of the axes.
    ///
    /// Fails where a coordinate does not fit, and only there.
    pub fn draw_axes(&self, xaxis: &Axis, yaxis: &Axis, mapper: &CoordinateMapper) -> (r: Result<
        Vec<DrawOp>,
        PlotError,
    >)
        requires
            xaxis.well_formed(),
            yaxis.well_formed(),
            xaxis.tick_labels@.len() == xaxis.num_ticks,
            yaxis.tick_labels@.len() == yaxis.num_ticks,
            mapper.well_formed(),
        ensures
            match r {
                Ok(ops) => self.furniture(xaxis@, yaxis@, *mapper).fits() && ops_view(ops@)
                    == self.furniture(xaxis@, yaxis@, *mapper).ops(),
                Err(e) => e == PlotError::NumericOverflow && !self.furniture(
                    xaxis@,
                    yaxis@,
                    *mapper,
                ).fits(),
            },
    {
        let ghost all = self.furniture(xaxis@, yaxis@, *mapper);
        let left: i64 = mapper.to_canvas_x(xaxis.limits.0)?;
        let right: i64 = mapper.to_canvas_x(xaxis.limits.1)?;
        let bottom: i64 = mapper.to_canvas_y(yaxis.limits.0)?;
        let top: i64 = mapper.to_canvas_y(yaxis.limits.1)?;
        let across: i64 = to_i64(right as i128 - left as i128)?;
        let up: i64 = to_i64(top as i128 - bottom as i128)?;
        let mark_bottom: i64 = to_i64(bottom as i128 - self.tick_length as i128)?;
        let mark_left: i64 = to_i64(left as i128 - self.tick_length as i128)?;
        let label_left: i64 = to_i64(left as i128 - self.tick_length as i128 - 200)?;
        assert(all.border_fits());

        let mut ops: Vec<DrawOp> = Vec::new();
        ops.push(DrawOp::SetColor { red: 0, green: 0, blue: 0 });
        ops.push(DrawOp::SetLineWidth { width: 100 });
        ops.push(
            DrawOp::Rectangle {
                origin: Point { x: left, y: bottom },
                size: Size { width: across, height: up },
            },
        );
        assert(ops_view(ops@) =~= all.border_ops());

        let x_count: usize = xaxis.tick_labels.len();
        let mut i: u64 = 0;
        while i < xaxis.num_ticks
            invariant
                all == self.furniture(xaxis@, yaxis@, *mapper),
                xaxis.num_ticks == x_count,
                xaxis.well_formed(),
                xaxis.tick_labels@.len() == xaxis.num_ticks,
                mapper.well_formed(),
                all.border_fits(),
                left == all.left(),
                bottom == all.bottom(),
                mark_bottom == all.bottom() - all.tick_length,
                i <= xaxis.num_ticks,
                forall|k: int| 0 <= k < i ==> fits_i64(#[trigger] all.x_tick(k)),
                ops_view(ops@) == all.border_ops() + all.x_tick_ops(i as int),
            decreases xaxis.num_ticks - i,
        {
            let at: i64 = match mapper.to_canvas_x(xaxis.tick_value_at(i)) {
                Ok(at) => at,
                Err(e) => {
                    assert(!fits_i64(all.x_tick(i as int)));
                    return Err(e);
                },
            };
            let text = xaxis.tick_labels[i as usize].clone();
            let ghost before = ops@;
            let mark = DrawOp::Line {
                from: Point { x: at, y: bottom },
                to: Point { x: at, y: mark_bottom },
            };
            let label = DrawOp::Text {
                at: Point { x: at, y: mark_bottom },
                alignment: Alignment::TopCenter,
                text,
            };
            ops.push(mark);
            ops.push(label);
            proof {
                lemma_ops_view_push(before, mark);
                lemma_ops_view_push(before.push(mark), label);
                assert(text@ == all.xaxis.tick_labels[i as int]);
                assert(ops_view(ops@) =~= all.border_ops() + all.x_tick_ops(i + 1));
            }
            i = i + 1;
        }

        let ghost head = all.border_ops() + all.x_tick_ops(xaxis.num_ticks as int);
        let y_count: usize = yaxis.tick_labels.len();
        let mut j: u64 = 0;
        while j < yaxis.num_ticks
            invariant
                all == self.furniture(xaxis@, yaxis@, *mapper),
                yaxis.num_ticks == y_count,
                yaxis.well_formed(),
                yaxis.tick_labels@.len() == yaxis.num_ticks,
                mapper.well_formed(),
                all.border_fits(),
                left == all.left(),
                mark_left == all.left() - all.tick_length,
                label_left == all.left() - all.tick_length - 200,
                j <= yaxis.num_ticks,
                forall|k: int| 0 <= k < j ==> fits_i64(#[trigger] all.y_tick(k)),
                ops_view(ops@) == head + all.y_tick_ops(j as int),
            decreases yaxis.num_ticks - j,
        {
            let at: i64 = match mapper.to_canvas_y(yaxis.tick_value_at(j)) {
                Ok(at) => at,
                Err(e) => {
                    assert(!fits_i64(all.y_tick(j as int)));
                    return Err(e);
                },
            };
            let text = yaxis.tick_labels[j as usize].clone();
            let ghost before = ops@;
            let mark = DrawOp::Line {
                from: Point { x: left, y: at },
                to: Point { x: mark_left, y: at },
            };
            let label = DrawOp::Text {
                at: Point { x: label_left, y: at },
                alignment: Alignment::CenterRight,
                text,
            };
            ops.push(mark);
            ops.push(label);
            proof {
                lemma_ops_view_push(before, mark);
                lemma_ops_view_push(before.push(mark), label);
                assert(text@ == all.yaxis.tick_labels[j as int]);
                assert(ops_view(ops@) =~= head + all.y_tick_ops(j + 1));
            }
            j = j + 1;
        }

        let ghost ticks = head + all.y_tick_ops(yaxis.num_ticks as int);
        match &self.xlabel {
            Some(title) => {
                let middle: i128 = xaxis.limits.0 as i128 + floor_div_of(
                    xaxis.limits.1 as i128 - xaxis.limits.0 as i128,
                    2,
                );
                let at: i64 = mapper.to_canvas_x(middle as i64)?;
                let height: i64 = to_i64(400 + floor_div_of(self.font_size as i128, 2))?;
                let ghost before = ops@;
                let label = DrawOp::Text {
                    at: Point { x: at, y: height },
                    alignment: Alignment::BottomCenter,
                    text: title.clone(),
                };
                ops.push(label);
                proof {
                    lemma_ops_view_push(before, label);
                    assert(ops_view(ops@) =~= ticks + all.xlabel_ops());
                }
            },
            None => {
                assert(ops_view(ops@) =~= ticks + all.xlabel_ops());
            },
        }
        let ghost titled = ticks + all.xlabel_ops();
        match &self.ylabel {
            Some(title) => {
                let middle: i128 = yaxis.limits.0 as i128 + floor_div_of(
                    yaxis.limits.1 as i128 - yaxis.limits.0 as i128,
                    2,
                );
                let at: i64 = mapper.to_canvas_y(middle as i64)?;
                let ghost before = ops@;
                let turn = DrawOp::Rotate { degrees: 90 };
                let label = DrawOp::Text {
                    at: Point { x: at, y: -600 },
                    alignment: Alignment::TopCenter,
                    text: title.clone(),
                };
                let back = DrawOp::Rotate { degrees: -90 };
                ops.push(turn);
                ops.push(label);
                ops.push(back);
                proof {
                    lemma_ops_view_push(before, turn);
                    lemma_ops_view_push(before.push(turn), label);
                    lemma_ops_view_push(before.push(turn).push(label), back);
                    assert(ops_view(ops@) =~= titled + all.ylabel_ops());
                }
            },
            None => {
                assert(ops_view(ops@) =~= titled + all.ylabel_ops());
            },
        }
        Ok(ops)
    }
}

} // verus!
