//! Drawing a raster of intensities or of colours inside the axes.

use crate::error::PlotError;
use crate::layout::{
    coordinate_mapper, spec_coordinate_mapper, LabelWidths, Point, Size,
};
use crate::numeric::{fits_i64, to_i64};
use crate::plot::{spec_digest, Plot};
use crate::render::{
    extent, lemma_ops_view_push, point, DrawOp, DrawOpView, Furniture, Page, PageView,
};
use crate::series::spec_with_margins;
use vstd::prelude::*;

verus! {

/// A colour, as its parts of red, green and blue.
#[derive(Clone, Copy, Debug, PartialEq, Eq, Structural)]
pub struct Rgb {
    pub red: u8,
    pub green: u8,
    pub blue: u8,
}

/// The colour of a pixel whose intensity is not a finite number.
pub open spec fn white() -> Rgb {
    Rgb { red: 255, green: 255, blue: 255 }
}

/// The number of colours in a colour ramp.
pub open spec fn ramp_len() -> nat {
    256
}

/// The least of the finite intensities, if there is a finite one.
pub open spec fn finite_min(data: Seq<Option<i64>>) -> Option<i64>
    decreases data.len(),
{
    if data.len() == 0 {
        None
    } else {
        match (finite_min(data.drop_last()), data.last()) {
            (None, last) => last,
            (Some(least), None) => Some(least),
            (Some(least), Some(v)) => if v < least {
                Some(v)
            } else {
                Some(least)
            },
        }
    }
}

/// The greatest of the finite intensities, if there is a finite one.
pub open spec fn finite_max(data: Seq<Option<i64>>) -> Option<i64>
    decreases data.len(),
{
    if data.len() == 0 {
        None
    } else {
        match (finite_max(data.drop_last()), data.last()) {
            (None, last) => last,
            (Some(greatest), None) => Some(greatest),
            (Some(greatest), Some(v)) => if v > greatest {
                Some(v)
            } else {
                Some(greatest)
            },
        }
    }
}

/// The place in the ramp of the intensity `v` among intensities from `low`
/// to `high`: `255` times its share of the way from `low` to `high`, rounded
/// down. Where all intensities are equal it is the first place.
pub open spec fn ramp_index(v: int, low: int, high: int) -> int {
    if high <= low {
        0
    } else {
        ((v - low) * 255) / (high - low)
    }
}

/// The colour of pixel `i`: white where its intensity is not finite, else
/// the colour at its place in the ramp.
pub open spec fn pixel_color(data: Seq<Option<i64>>, ramp: Seq<Rgb>, i: int) -> Rgb {
    match data[i] {
        None => white(),
        Some(v) => ramp[ramp_index(
            v as int,
            finite_min(data)->0 as int,
            finite_max(data)->0 as int,
        )],
    }
}

/// Part `k` of a colour: red, green, blue.
pub open spec fn channel(color: Rgb, k: int) -> u8 {
    if k == 0 {
        color.red
    } else if k == 1 {
        color.green
    } else {
        color.blue
    }
}

/// The bytes of a raster of intensities: three for each pixel, its red, its
/// green and its blue.
pub open spec fn spec_colorize(data: Seq<Option<i64>>, ramp: Seq<Rgb>) -> Seq<u8> {
    Seq::new(3 * data.len(), |k: int| channel(pixel_color(data, ramp, k / 3), k % 3))
}

/// Every finite intensity lies between the least and the greatest one.
pub proof fn lemma_finite_bounds(data: Seq<Option<i64>>, i: int)
    requires
        0 <= i < data.len(),
        data[i] is Some,
    ensures
        finite_min(data) is Some,
        finite_max(data) is Some,
        finite_min(data)->0 <= data[i]->0 <= finite_max(data)->0,
    decreases data.len(),
{
    if i < data.len() - 1 {
        lemma_finite_bounds(data.drop_last(), i);
    }
}

/// The place in the ramp of an intensity between `low` and `high` is one of
/// the 256 places; `low` has the first place, and `high` the last where it
/// is above `low`.
pub proof fn lemma_ramp_index_range(v: int, low: int, high: int)
    requires
        low <= v <= high,
    ensures
        0 <= ramp_index(v, low, high) <= 255,
        ramp_index(low, low, high) == 0,
        low < high ==> ramp_index(high, low, high) == 255,
{
    if low < high {
        let span = high - low;
        assert(0 <= (v - low) * 255 <= span * 255) by (nonlinear_arith)
            requires
                0 <= v - low <= span,
        ;
        vstd::arithmetic::div_mod::lemma_div_is_ordered(0, (v - low) * 255, span);
        vstd::arithmetic::div_mod::lemma_div_is_ordered((v - low) * 255, span * 255, span);
        assert(span * 255 == 255 * span) by (nonlinear_arith);
        vstd::arithmetic::div_mod::lemma_div_multiples_vanish(255, span);
        assert((low - low) * 255 == 0);
        assert(0int / span == 0) by (nonlinear_arith)
            requires
                span > 0,
        ;
    }
}

/// A pixel whose intensity is not finite is white. A pixel of the greatest
/// intensity has the last colour of the ramp, and one of the least intensity
/// the first, where the two differ.
pub proof fn lemma_extremes_take_the_ends_of_the_ramp(
    data: Seq<Option<i64>>,
    ramp: Seq<Rgb>,
    i: int,
)
    requires
        0 <= i < data.len(),
        ramp.len() == ramp_len(),
    ensures
        data[i] is None ==> pixel_color(data, ramp, i) == white(),
        data[i] is Some && data[i] == finite_min(data) ==> pixel_color(data, ramp, i) == ramp[0],
        data[i] is Some && data[i] == finite_max(data) && finite_min(data) != finite_max(data)
            ==> pixel_color(data, ramp, i) == ramp[255],
{
    if data[i] is Some {
        lemma_finite_bounds(data, i);
        let low = finite_min(data)->0 as int;
        let high = finite_max(data)->0 as int;
        lemma_ramp_index_range(data[i]->0 as int, low, high);
    }
}

/// The least and the greatest of the finite intensities.
fn finite_range(data: &Vec<Option<i64>>) -> (r: (Option<i64>, Option<i64>))
    ensures
        r.0 == finite_min(data@),
        r.1 == finite_max(data@),
{
    let mut least: Option<i64> = None;
    let mut greatest: Option<i64> = None;
    let mut i: usize = 0;
    while i < data.len()
        invariant
            i <= data@.len(),
            least == finite_min(data@.take(i as int)),
            greatest == finite_max(data@.take(i as int)),
        decreases data@.len() - i,
    {
        assert(data@.take(i + 1).drop_last() =~= data@.take(i as int));
        match data[i] {
            None => {},
            Some(v) => {
                least = match least {
                    None => Some(v),
                    Some(l) => if v < l {
                        Some(v)
                    } else {
                        Some(l)
                    },
                };
                greatest = match greatest {
                    None => Some(v),
                    Some(g) => if v > g {
                        Some(v)
                    } else {
                        Some(g)
                    },
                };
            },
        }
        i = i + 1;
    }
    assert(data@.take(i as int) =~= data@);
    (least, greatest)
}

/// Colours a raster of intensities with a ramp of 256 colours.
///
/// An intensity that is not a finite number is `None`, and its pixel is
/// white. The least finite intensity takes the first colour of the ramp and
/// the greatest the last. Fails where the ramp does not hold 256 colours.
pub fn colorize(data: &Vec<Option<i64>>, ramp: &Vec<Rgb>) -> (r: Result<Vec<u8>, PlotError>)
    ensures
        match r {
            Ok(bytes) => ramp@.len() == ramp_len() && bytes@ == spec_colorize(data@, ramp@),
            Err(e) => ramp@.len() != ramp_len() && e == PlotError::Configuration,
        },
{
    if ramp.len() != 256 {
        return Err(PlotError::Configuration);
    }
    let (least, greatest) = finite_range(data);
    let mut bytes: Vec<u8> = Vec::new();
    let mut i: usize = 0;
    while i < data.len()
        invariant
            ramp@.len() == 256,
            least == finite_min(data@),
            greatest == finite_max(data@),
            i <= data@.len(),
            bytes@.len() == 3 * i,
            forall|k: int|
                0 <= k < 3 * i ==> #[trigger] bytes@[k] == channel(
                    pixel_color(data@, ramp@, k / 3),
                    k % 3,
                ),
        decreases data@.len() - i,
    {
        let color: Rgb = match data[i] {
            None => Rgb { red: 255, green: 255, blue: 255 },
            Some(v) => {
                proof {
                    lemma_finite_bounds(data@, i as int);
                    lemma_ramp_index_range(v as int, least->0 as int, greatest->0 as int);
                }
                let low: i64 = least.unwrap();
                let high: i64 = greatest.unwrap();
                if high <= low {
                    ramp[0]
                } else {
                    let span: i128 = high as i128 - low as i128;
                    let along: i128 = (v as i128 - low as i128) * 255;
                    ramp[(along / span) as usize]
                }
            },
        };
        bytes.push(color.red);
        bytes.push(color.green);
        bytes.push(color.blue);
        i = i + 1;
    }
    assert(bytes@ =~= spec_colorize(data@, ramp@));
    Ok(bytes)
}

impl Furniture {
    /// Whether the corner and the extent of a raster fit.
    pub open spec fn image_fits(&self) -> bool {
        &&& fits_i64(self.right() - self.left() - 100)
        &&& fits_i64(self.top() - self.bottom() - 100)
        &&& fits_i64(self.left() + 50)
        &&& fits_i64(self.bottom() + 50)
    }

    /// A raster that fills the plot area but for half a unit on each side.
    pub open spec fn image_op(&self, pixels: Seq<u8>, columns: usize, rows: usize) -> DrawOpView {
        DrawOpView::Image {
            pixels,
            columns: columns as u64,
            rows: rows as u64,
            origin: point(self.left() + 50, self.bottom() + 50),
            extent: extent(self.right() - self.left() - 100, self.top() - self.bottom() - 100),
        }
    }
}

/// The page that shows a raster.
///
/// Both axes must be pinned, for there is no data to plan them from. The
/// plot area is a square, and the page is cut to what the square, the
/// margins and one font size take. The page shows the axes and the raster.
pub open spec fn spec_image_page(
    plot: Plot,
    pixels: Seq<u8>,
    columns: usize,
    rows: usize,
    x_widths: Seq<i64>,
    y_widths: Seq<i64>,
) -> Result<PageView, PlotError> {
    match spec_digest(plot, Seq::<i64>::empty(), Seq::<i64>::empty()) {
        Err(e) => Err(e),
        Ok(bare) => match spec_with_margins(plot, bare, x_widths, y_widths) {
            Err(e) => Err(e),
            Ok(axes) => match spec_coordinate_mapper(
                plot.width as int,
                plot.height as int,
                plot.font_size as int,
                axes.0,
                axes.1,
                x_widths.last() as int,
                true,
            ) {
                Err(e) => Err(e),
                Ok(mapper) => {
                    let all = plot.furniture(axes.0, axes.1, mapper);
                    let width = mapper.x.length + axes.1.margin + plot.font_size;
                    let height = mapper.x.length + axes.0.margin + plot.font_size;
                    if !fits_i64(width) || !fits_i64(height) || !all.fits() || !all.image_fits() {
                        Err(PlotError::NumericOverflow)
                    } else {
                        Ok(
                            PageView {
                                size: extent(width, height),
                                ops: all.ops().push(all.image_op(pixels, columns, rows)),
                            },
                        )
                    }
                },
            },
        },
    }
}

/// The page that shows a raster of colours, three bytes for each pixel.
/// There must be as many pixels as the numbers of columns and rows ask for.
pub open spec fn spec_image_rgb(
    plot: Plot,
    pixels: Seq<u8>,
    columns: usize,
    rows: usize,
    x_widths: Seq<i64>,
    y_widths: Seq<i64>,
) -> Result<PageView, PlotError> {
    if columns * rows * 3 != pixels.len() {
        Err(PlotError::Configuration)
    } else {
        spec_image_page(plot, pixels, columns, rows, x_widths, y_widths)
    }
}

/// The page that shows a raster of intensities, coloured with a ramp of 256
/// colours. There must be as many intensities as the numbers of columns and
/// rows ask for.
pub open spec fn spec_image(
    plot: Plot,
    data: Seq<Option<i64>>,
    columns: usize,
    rows: usize,
    ramp: Seq<Rgb>,
    x_widths: Seq<i64>,
    y_widths: Seq<i64>,
) -> Result<PageView, PlotError> {
    if columns * rows != data.len() || ramp.len() != ramp_len() {
        Err(PlotError::Configuration)
    } else {
        spec_image_page(plot, spec_colorize(data, ramp), columns, rows, x_widths, y_widths)
    }
}

impl Plot {
    /// Lays out the page that shows a raster of the given bytes.
    pub fn image_page(
        &self,
        pixels: Vec<u8>,
        columns: usize,
        rows: usize,
        widths: &LabelWidths,
    ) -> (r: Result<Page, PlotError>)
        ensures
            match r {
                Ok(page) => spec_image_page(
                    *self,
                    pixels@,
                    columns,
                    rows,
                    widths.x_tick_labels@,
                    widths.y_tick_labels@,
                ) == Ok::<PageView, PlotError>(page@),
                Err(e) => spec_image_page(
                    *self,
                    pixels@,
                    columns,
                    rows,
                    widths.x_tick_labels@,
                    widths.y_tick_labels@,
                ) == Err::<PageView, PlotError>(e),
            },
    {
        let none: Vec<i64> = Vec::new();
        assert(none@ =~= Seq::<i64>::empty());
        let (bare_x, bare_y) = self.digest_tick_settings(&none, &none)?;
        let (xaxis, yaxis) = self.with_margins(bare_x, bare_y, widths)?;
        let last: i64 = widths.x_tick_labels[widths.x_tick_labels.len() - 1];
        let mapper = coordinate_mapper(
            self.width,
            self.height,
            self.font_size,
            &xaxis,
            &yaxis,
            last,
            true,
        )?;
        let ghost all = self.furniture(xaxis@, yaxis@, mapper);
        let side: i128 = mapper.x.length as i128;
        let width: i64 = to_i64(side + yaxis.margin as i128 + self.font_size as i128)?;
        let height: i64 = to_i64(side + xaxis.margin as i128 + self.font_size as i128)?;
        let mut ops = self.draw_axes(&xaxis, &yaxis, &mapper)?;
        let left: i64 = mapper.to_canvas_x(xaxis.limits.0)?;
        let right: i64 = mapper.to_canvas_x(xaxis.limits.1)?;
        let bottom: i64 = mapper.to_canvas_y(yaxis.limits.0)?;
        let top: i64 = mapper.to_canvas_y(yaxis.limits.1)?;
        let across: i64 = to_i64(right as i128 - left as i128 - 100)?;
        let up: i64 = to_i64(top as i128 - bottom as i128 - 100)?;
        let corner_x: i64 = to_i64(left as i128 + 50)?;
        let corner_y: i64 = to_i64(bottom as i128 + 50)?;
        let raster = DrawOp::Image {
            pixels,
            columns: columns as u64,
            rows: rows as u64,
            origin: Point { x: corner_x, y: corner_y },
            extent: Size { width: across, height: up },
        };
        proof {
            lemma_ops_view_push(ops@, raster);
        }
        ops.push(raster);
        Ok(Page { size: Size { width, height }, ops })
    }

    /// Takes a page that shows a raster into the plot, and cuts the page of
    /// the plot to the size of that page.
    fn take_image_page(&mut self, page: Page)
        ensures
            final(self).pages@ == old(self).pages@.push(page),
            final(self).width == page.size.width,
            final(self).height == page.size.height,
            *final(self) == (Plot {
                pages: final(self).pages,
                width: final(self).width,
                height: final(self).height,
                ..*old(self)
            }),
    {
        self.width = page.size.width;
        self.height = page.size.height;
        self.pages.push(page);
    }

    /// Draws a page that shows a raster of colours: `columns` by `rows`
    /// pixels of three bytes each, red, green and blue.
    ///
    /// Both axes must be pinned. `widths` holds the width of every tick label
    /// of the two axes. On success one page is added and the page of the plot
    /// is cut to fit the raster, which is drawn in a square; on failure
    /// nothing changes.
    pub fn image_rgb(
        &mut self,
        pixels: Vec<u8>,
        columns: usize,
        rows: usize,
        widths: &LabelWidths,
    ) -> (r: Result<(), PlotError>)
        ensures
            match r {
                Ok(_) => {
                    let page = spec_image_rgb(
                        *old(self),
                        pixels@,
                        columns,
                        rows,
                        widths.x_tick_labels@,
                        widths.y_tick_labels@,
                    );
                    &&& page is Ok
                    &&& final(self).pages@.len() == old(self).pages@.len() + 1
                    &&& final(self).pages@.drop_last() == old(self).pages@
                    &&& final(self).pages@.last()@ == page->Ok_0
                    &&& final(self).width == page->Ok_0.size.width
                    &&& final(self).height == page->Ok_0.size.height
                    &&& *final(self) == (Plot {
                        pages: final(self).pages,
                        width: final(self).width,
                        height: final(self).height,
                        ..*old(self)
                    })
                },
                Err(e) => spec_image_rgb(
                    *old(self),
                    pixels@,
                    columns,
                    rows,
                    widths.x_tick_labels@,
                    widths.y_tick_labels@,
                ) == Err::<PageView, PlotError>(e) && *final(self) == *old(self),
            },
    {
        let expected: Option<usize> = match columns.checked_mul(rows) {
            Some(count) => count.checked_mul(3),
            None => None,
        };
        if expected != Some(pixels.len()) {
            assert(columns * rows * 3 != pixels@.len()) by (nonlinear_arith)
                requires
                    columns * rows > usize::MAX || columns * rows * 3 != pixels@.len(),
                    pixels@.len() <= usize::MAX,
                    columns >= 0,
                    rows >= 0,
            ;
            return Err(PlotError::Configuration);
        }
        let page = self.image_page(pixels, columns, rows, widths)?;
        let ghost before = self.pages@;
        self.take_image_page(page);
        assert(self.pages@.drop_last() =~= before);
        Ok(())
    }

    /// Draws a page that shows a raster of intensities: `columns` by `rows`
    /// pixels, coloured with a ramp of 256 colours.
    ///
    /// An intensity that is not a finite number is `None`. Both axes must be
    /// pinned. `widths` holds the width of every tick label of the two axes.
    /// On success one page is added and the page of the plot is cut to fit
    /// the raster, which is drawn in a square; on failure nothing changes.
    pub fn image(
        &mut self,
        image_data: &Vec<Option<i64>>,
        image_width: usize,
        image_height: usize,
        ramp: &Vec<Rgb>,
        widths: &LabelWidths,
    ) -> (r: Result<(), PlotError>)
        ensures
            match r {
                Ok(_) => {
                    let page = spec_image(
                        *old(self),
                        image_data@,
                        image_width,
                        image_height,
                        ramp@,
                        widths.x_tick_labels@,
                        widths.y_tick_labels@,
                    );
                    &&& page is Ok
                    &&& final(self).pages@.len() == old(self).pages@.len() + 1
                    &&& final(self).pages@.drop_last() == old(self).pages@
                    &&& final(self).pages@.last()@ == page->Ok_0
                    &&& final(self).width == page->Ok_0.size.width
                    &&& final(self).height == page->Ok_0.size.height
                    &&& *final(self) == (Plot {
                        pages: final(self).pages,
                        width: final(self).width,
                        height: final(self).height,
                        ..*old(self)
                    })
                },
                Err(e) => spec_image(
                    *old(self),
                    image_data@,
                    image_width,
                    image_height,
                    ramp@,
                    widths.x_tick_labels@,
                    widths.y_tick_labels@,
                ) == Err::<PageView, PlotError>(e) && *final(self) == *old(self),
            },
    {
        if image_width.checked_mul(image_height) != Some(image_data.len()) {
            return Err(PlotError::Configuration);
        }
        let pixels = colorize(image_data, ramp)?;
        let page = self.image_page(pixels, image_width, image_height, widths)?;
        let ghost before = self.pages@;
        self.take_image_page(page);
        assert(self.pages@.drop_last() =~= before);
        Ok(())
    }
}

} // verus!
