//! The plot: what the caller has set, and the pages drawn so far.

use crate::axis::{Axis, AxisView};
use crate::error::PlotError;
use crate::layout::seq_max;
use crate::render::Page;
use crate::numeric::{fits_i64, magnitude};
use crate::ticks::{
    lemma_plan_direction, lemma_plan_last_tick, plan_ticks, spec_plan_ticks, TickPlan,
};
use vstd::prelude::*;
use vstd::string::*;

verus! {

/// The mark drawn at each point of a series.
#[derive(Clone, Copy, Debug, PartialEq, Eq, Structural)]
pub enum Marker {
    Dot,
}

/// The line drawn between the points of a series.
#[derive(Clone, Copy, Debug, PartialEq, Eq, Structural)]
pub enum LineStyle {
    Solid,
}

/// A plot in the making.
///
/// Values along the horizontal axis are whole numbers of units of
/// `10^x_exponent`, those along the vertical axis of units of
/// `10^y_exponent`. Lengths on the page are whole numbers of hundredths of a
/// page unit.
#[derive(Debug)]
pub struct Plot {
    /// The pages drawn so far.
    pub pages: Vec<Page>,
    /// The width of the page.
    pub width: i64,
    /// The height of the page.
    pub height: i64,
    /// The size of the font of titles and labels.
    pub font_size: i64,
    /// The length of a tick mark.
    pub tick_length: i64,
    /// The decimal exponent of the unit of values along the horizontal axis.
    pub x_exponent: i32,
    /// The decimal exponent of the unit of values along the vertical axis.
    pub y_exponent: i32,
    /// The tick interval of the horizontal axis, where it is pinned.
    pub x_tick_interval: Option<i64>,
    /// The tick interval of the vertical axis, where it is pinned.
    pub y_tick_interval: Option<i64>,
    /// The limits of the horizontal axis, where they are pinned.
    pub xlim: Option<(i64, i64)>,
    /// The limits of the vertical axis, where they are pinned.
    pub ylim: Option<(i64, i64)>,
    /// The title of the horizontal axis.
    pub xlabel: Option<String>,
    /// The title of the vertical axis.
    pub ylabel: Option<String>,
    /// The mark at each point of a series.
    pub marker: Option<Marker>,
    /// The line between the points of a series.
    pub linestyle: Option<LineStyle>,
}

impl Plot {
    /// A plot with no page yet, on a page of 810 by 630 units, with a font
    /// of 20 units, ticks of 10 units, values counted in whole units, and a
    /// solid line. Nothing is pinned and no axis has a title.
    pub fn new() -> (plot: Plot)
        ensures
            plot.pages@.len() == 0,
            plot.width == 81_000,
            plot.height == 63_000,
            plot.font_size == 2_000,
            plot.tick_length == 1_000,
            plot.x_exponent == 0,
            plot.y_exponent == 0,
            plot.x_tick_interval is None,
            plot.y_tick_interval is None,
            plot.xlim is None,
            plot.ylim is None,
            plot.xlabel is None,
            plot.ylabel is None,
            plot.marker is None,
            plot.linestyle == Some(LineStyle::Solid),
    {
        Plot {
            pages: Vec::new(),
            width: 81_000,
            height: 63_000,
            font_size: 2_000,
            tick_length: 1_000,
            x_exponent: 0,
            y_exponent: 0,
            x_tick_interval: None,
            y_tick_interval: None,
            xlim: None,
            ylim: None,
            xlabel: None,
            ylabel: None,
            marker: None,
            linestyle: Some(LineStyle::Solid),
        }
    }

    /// Pins the limits of the vertical axis.
    pub fn ylim(&mut self, min: i64, max: i64) -> (plot: &mut Self)
        ensures
            *plot == (Plot { ylim: Some((min, max)), ..*old(self) }),
            *final(self) == *final(plot),
    {
        self.ylim = Some((min, max));
        self
    }

    /// Pins the limits of the horizontal axis.
    pub fn xlim(&mut self, min: i64, max: i64) -> (plot: &mut Self)
        ensures
            *plot == (Plot { xlim: Some((min, max)), ..*old(self) }),
            *final(self) == *final(plot),
    {
        self.xlim = Some((min, max));
        self
    }

    /// Sets the title of the horizontal axis.
    pub fn xlabel(&mut self, text: &str) -> (plot: &mut Self)
        ensures
            plot.xlabel is Some,
            plot.xlabel->0@ == text@,
            *plot == (Plot { xlabel: plot.xlabel, ..*old(self) }),
            *final(self) == *final(plot),
    {
        self.xlabel = Some(String::from_str(text));
        self
    }

    /// Sets the title of the vertical axis.
    pub fn ylabel(&mut self, text: &str) -> (plot: &mut Self)
        ensures
            plot.ylabel is Some,
            plot.ylabel->0@ == text@,
            *plot == (Plot { ylabel: plot.ylabel, ..*old(self) }),
            *final(self) == *final(plot),
    {
        self.ylabel = Some(String::from_str(text));
        self
    }

    /// Sets the length of the tick marks.
    pub fn tick_length(&mut self, length: i64) -> (plot: &mut Self)
        ensures
            *plot == (Plot { tick_length: length, ..*old(self) }),
            *final(self) == *final(plot),
    {
        self.tick_length = length;
        self
    }

    /// Pins the tick interval of the horizontal axis.
    pub fn x_tick_interval(&mut self, interval: i64) -> (plot: &mut Self)
        ensures
            *plot == (Plot { x_tick_interval: Some(interval), ..*old(self) }),
            *final(self) == *final(plot),
    {
        self.x_tick_interval = Some(interval);
        self
    }

    /// Pins the tick interval of the vertical axis.
    pub fn y_tick_interval(&mut self, interval: i64) -> (plot: &mut Self)
        ensures
            *plot == (Plot { y_tick_interval: Some(interval), ..*old(self) }),
            *final(self) == *final(plot),
    {
        self.y_tick_interval = Some(interval);
        self
    }

    /// Sets the decimal exponent of the unit in which values along the
    /// horizontal axis are counted.
    pub fn x_exponent(&mut self, exponent: i32) -> (plot: &mut Self)
        ensures
            *plot == (Plot { x_exponent: exponent, ..*old(self) }),
            *final(self) == *final(plot),
    {
        self.x_exponent = exponent;
        self
    }

    /// Sets the decimal exponent of the unit in which values along the
    /// vertical axis are counted.
    pub fn y_exponent(&mut self, exponent: i32) -> (plot: &mut Self)
        ensures
            *plot == (Plot { y_exponent: exponent, ..*old(self) }),
            *final(self) == *final(plot),
    {
        self.y_exponent = exponent;
        self
    }

    /// Chooses the mark at each point of a series, or none.
    pub fn marker(&mut self, marker: Option<Marker>) -> (plot: &mut Self)
        ensures
            *plot == (Plot { marker: marker, ..*old(self) }),
            *final(self) == *final(plot),
    {
        self.marker = marker;
        self
    }

    /// Chooses the line between the points of a series, or none.
    pub fn linestyle(&mut self, style: Option<LineStyle>) -> (plot: &mut Self)
        ensures
            *plot == (Plot { linestyle: style, ..*old(self) }),
            *final(self) == *final(plot),
    {
        self.linestyle = style;
        self
    }
}

/// The least element of a sequence that is not empty.
pub open spec fn seq_min(s: Seq<i64>) -> int
    decreases s.len(),
{
    if s.len() <= 1 {
        s[0] as int
    } else if s.last() < seq_min(s.drop_last()) {
        s.last() as int
    } else {
        seq_min(s.drop_last())
    }
}

/// The least and the greatest of the first `n` of some values, if `n` is
/// not zero.
pub open spec fn spec_extent(values: Seq<i64>, n: int) -> Option<(i64, i64)> {
    if n <= 0 {
        None
    } else {
        Some((seq_min(values.take(n)) as i64, seq_max(values.take(n)) as i64))
    }
}

/// The least and the greatest of the first `n` of some values.
pub fn extent_of(values: &Vec<i64>, n: usize) -> (r: Option<(i64, i64)>)
    requires
        n <= values@.len(),
    ensures
        r == spec_extent(values@, n as int),
{
    if n == 0 {
        return None;
    }
    let mut least: i64 = values[0];
    let mut greatest: i64 = values[0];
    let mut i: usize = 1;
    assert(values@.take(1).len() == 1);
    while i < n
        invariant
            1 <= i <= n <= values@.len(),
            least == seq_min(values@.take(i as int)),
            greatest == seq_max(values@.take(i as int)),
        decreases n - i,
    {
        assert(values@.take(i + 1).drop_last() =~= values@.take(i as int));
        if values[i] < least {
            least = values[i];
        }
        if values[i] > greatest {
            greatest = values[i];
        }
        i = i + 1;
    }
    Some((least, greatest))
}

/// Whether ten times `v` fits.
pub open spec fn lift_fits(v: i64) -> bool {
    fits_i64(10 * v)
}

/// Whether ten times each of a pair of values fits.
pub open spec fn pair_lift_fits(pair: (i64, i64)) -> bool {
    lift_fits(pair.0) && lift_fits(pair.1)
}

/// Ten times each of a pair of values.
pub open spec fn lifted_pair(pair: (i64, i64)) -> (i64, i64) {
    ((10 * pair.0) as i64, (10 * pair.1) as i64)
}

/// The plan of one axis of a plot.
///
/// An axis needs pinned limits or data. Its exponent must lie between `-18`
/// and `18`. The axis is planned in tenths of the unit in which its values
/// were given, so that a tenth of a power of ten is a whole number: what is
/// pinned and the extent of the data must fit when taken times ten.
pub open spec fn spec_axis_plan(
    exponent: i32,
    extent: Option<(i64, i64)>,
    limits: Option<(i64, i64)>,
    interval: Option<i64>,
) -> Result<TickPlan, PlotError> {
    if limits is None && extent is None {
        Err(PlotError::Configuration)
    } else if !(-18 <= exponent <= 18) {
        Err(PlotError::NumericOverflow)
    } else if interval is Some && !lift_fits(interval->0) {
        Err(PlotError::NumericOverflow)
    } else if limits is Some {
        if pair_lift_fits(limits->0) {
            spec_plan_ticks(
                None,
                Some(lifted_pair(limits->0)),
                match interval {
                    Some(t) => Some((10 * t) as i64),
                    None => None,
                },
            )
        } else {
            Err(PlotError::NumericOverflow)
        }
    } else {
        if pair_lift_fits(extent->0) {
            spec_plan_ticks(
                Some(lifted_pair(extent->0)),
                None,
                match interval {
                    Some(t) => Some((10 * t) as i64),
                    None => None,
                },
            )
        } else {
            Err(PlotError::NumericOverflow)
        }
    }
}

/// The tick interval of a planned axis points from its first limit to its
/// second. The axis has at least one tick, and its last tick, the first
/// limit plus one interval for each further tick, lies within half an
/// interval of the second limit.
pub proof fn lemma_axis_plan_ticks(
    exponent: i32,
    extent: Option<(i64, i64)>,
    limits: Option<(i64, i64)>,
    interval: Option<i64>,
)
    requires
        spec_axis_plan(exponent, extent, limits, interval) is Ok,
    ensures
        ({
            let plan = spec_axis_plan(exponent, extent, limits, interval)->Ok_0;
            let last = plan.limits.0 + (plan.num_ticks - 1) * plan.tick_interval;
            &&& plan.limits.1 >= plan.limits.0 ==> plan.tick_interval > 0
            &&& plan.limits.1 < plan.limits.0 ==> plan.tick_interval < 0
            &&& plan.num_ticks >= 1
            &&& fits_i64(last)
            &&& 2 * magnitude(last - plan.limits.1) <= magnitude(plan.tick_interval as int)
        }),
{
    let pinned_interval: Option<i64> = match interval {
        Some(t) => Some((10 * t) as i64),
        None => None,
    };
    if limits is Some {
        lemma_plan_direction(None, Some(lifted_pair(limits->0)), pinned_interval);
        lemma_plan_last_tick(None, Some(lifted_pair(limits->0)), pinned_interval);
    } else {
        lemma_plan_direction(Some(lifted_pair(extent->0)), None, pinned_interval);
        lemma_plan_last_tick(Some(lifted_pair(extent->0)), None, pinned_interval);
    }
}

/// The axis that a plan stands for, with its labels and no margin yet.
pub open spec fn planned_axis(plan: TickPlan, exponent: i32) -> AxisView {
    let bare = AxisView {
        limits: plan.limits,
        tick_interval: plan.tick_interval,
        num_ticks: plan.num_ticks,
        exponent: (exponent - 1) as i32,
        tick_labels: Seq::<Seq<char>>::empty(),
        margin: 0,
    };
    AxisView { tick_labels: bare.spec_tick_labels(), ..bare }
}

/// Ten times `v`, where it fits.
fn lift(v: i64) -> (r: Result<i64, PlotError>)
    ensures
        match r {
            Ok(w) => lift_fits(v) && w == 10 * v,
            Err(e) => !lift_fits(v) && e == PlotError::NumericOverflow,
        },
{
    match v.checked_mul(10) {
        Some(w) => Ok(w),
        None => Err(PlotError::NumericOverflow),
    }
}

/// Ten times each of a pair of values, where both fit.
fn lift_pair(pair: (i64, i64)) -> (r: Result<(i64, i64), PlotError>)
    ensures
        match r {
            Ok(w) => pair_lift_fits(pair) && w == lifted_pair(pair),
            Err(e) => !pair_lift_fits(pair) && e == PlotError::NumericOverflow,
        },
{
    let first: i64 = match lift(pair.0) {
        Ok(w) => w,
        Err(e) => {
            return Err(e);
        },
    };
    let second: i64 = match lift(pair.1) {
        Ok(w) => w,
        Err(e) => {
            return Err(e);
        },
    };
    Ok((first, second))
}

/// Plans one axis of a plot and writes its labels.
pub fn plan_axis(
    exponent: i32,
    extent: Option<(i64, i64)>,
    limits: Option<(i64, i64)>,
    interval: Option<i64>,
) -> (r: Result<Axis, PlotError>)
    ensures
        match r {
            Ok(axis) => spec_axis_plan(exponent, extent, limits, interval) is Ok && axis@
                == planned_axis(spec_axis_plan(exponent, extent, limits, interval)->Ok_0, exponent)
                && axis.well_formed() && axis.tick_labels@.len() == axis.num_ticks,
            Err(e) => spec_axis_plan(exponent, extent, limits, interval) == Err::<
                TickPlan,
                PlotError,
            >(e),
        },
{
    if limits.is_none() && extent.is_none() {
        return Err(PlotError::Configuration);
    }
    if exponent < -18 || exponent > 18 {
        return Err(PlotError::NumericOverflow);
    }
    let pinned_interval: Option<i64> = match interval {
        Some(t) => match lift(t) {
            Ok(w) => Some(w),
            Err(e) => {
                return Err(e);
            },
        },
        None => None,
    };
    let (pinned_limits, lifted_extent): (Option<(i64, i64)>, Option<(i64, i64)>) = match limits {
        Some(pair) => match lift_pair(pair) {
            Ok(w) => (Some(w), None),
            Err(e) => {
                return Err(e);
            },
        },
        None => match lift_pair(extent.unwrap()) {
            Ok(w) => (None, Some(w)),
            Err(e) => {
                return Err(e);
            },
        },
    };
    let plan: TickPlan = match plan_ticks(lifted_extent, pinned_limits, pinned_interval) {
        Ok(plan) => plan,
        Err(e) => {
            return Err(e);
        },
    };
    proof {
        lemma_plan_direction(lifted_extent, pinned_limits, pinned_interval);
        lemma_plan_last_tick(lifted_extent, pinned_limits, pinned_interval);
    }
    let mut axis = Axis {
        limits: plan.limits,
        tick_interval: plan.tick_interval,
        num_ticks: plan.num_ticks,
        exponent: exponent - 1,
        tick_labels: Vec::new(),
        margin: 0,
    };
    axis.tick_labels();
    proof {
        let target = planned_axis(plan, exponent);
        assert(axis@.tick_labels =~= target.tick_labels) by {
            assert forall|i: int| 0 <= i < plan.num_ticks implies axis@.spec_tick_label(i)
                == target.spec_tick_label(i) by {}
        }
        assert(axis@ == target);
    }
    Ok(axis)
}

/// The lesser of two lengths.
pub open spec fn shorter(a: nat, b: nat) -> nat {
    if a <= b {
        a
    } else {
        b
    }
}

/// The two axes of a plot of the given values, horizontal first.
///
/// The values are paired off, and what is left over of the longer sequence
/// is ignored. Each axis needs pinned limits or data; that is seen to for
/// both axes before either is planned.
pub open spec fn spec_digest(plot: Plot, x_values: Seq<i64>, y_values: Seq<i64>) -> Result<
    (AxisView, AxisView),
    PlotError,
> {
    let n = shorter(x_values.len(), y_values.len()) as int;
    let x_extent = spec_extent(x_values, n);
    let y_extent = spec_extent(y_values, n);
    if plot.xlim is None && x_extent is None {
        Err(PlotError::Configuration)
    } else if plot.ylim is None && y_extent is None {
        Err(PlotError::Configuration)
    } else {
        match spec_axis_plan(plot.x_exponent, x_extent, plot.xlim, plot.x_tick_interval) {
            Err(e) => Err(e),
            Ok(x_plan) => match spec_axis_plan(
                plot.y_exponent,
                y_extent,
                plot.ylim,
                plot.y_tick_interval,
            ) {
                Err(e) => Err(e),
                Ok(y_plan) => Ok(
                    (planned_axis(x_plan, plot.x_exponent), planned_axis(y_plan, plot.y_exponent)),
                ),
            },
        }
    }
}

/// Without a pair of values, a plot whose limits are not pinned on both
/// axes has no axes: that is a configuration error.
pub proof fn lemma_no_data_needs_pinned_limits(plot: Plot, x_values: Seq<i64>, y_values: Seq<i64>)
    requires
        x_values.len() == 0 || y_values.len() == 0,
        plot.xlim is None || plot.ylim is None,
    ensures
        spec_digest(plot, x_values, y_values) == Err::<(AxisView, AxisView), PlotError>(
            PlotError::Configuration,
        ),
{
}

impl Plot {
    /// Plans the two axes of a plot of the given values and writes their
    /// tick labels. The margins are left at zero.
    pub fn digest_tick_settings(&self, x_values: &Vec<i64>, y_values: &Vec<i64>) -> (r: Result<
        (Axis, Axis),
        PlotError,
    >)
        ensures
            match r {
                Ok(axes) => spec_digest(*self, x_values@, y_values@) == Ok::<
                    (AxisView, AxisView),
                    PlotError,
                >((axes.0@, axes.1@)) && axes.0.well_formed() && axes.1.well_formed()
                    && axes.0.tick_labels@.len() == axes.0.num_ticks && axes.1.tick_labels@.len()
                    == axes.1.num_ticks,
                Err(e) => spec_digest(*self, x_values@, y_values@) == Err::<
                    (AxisView, AxisView),
                    PlotError,
                >(e),
            },
    {
        let n: usize = if x_values.len() <= y_values.len() {
            x_values.len()
        } else {
            y_values.len()
        };
        let x_extent = extent_of(x_values, n);
        let y_extent = extent_of(y_values, n);
        if self.xlim.is_none() && x_extent.is_none() {
            return Err(PlotError::Configuration);
        }
        if self.ylim.is_none() && y_extent.is_none() {
            return Err(PlotError::Configuration);
        }
        let xaxis = match plan_axis(self.x_exponent, x_extent, self.xlim, self.x_tick_interval) {
            Ok(axis) => axis,
            Err(e) => {
                return Err(e);
            },
        };
        let yaxis = match plan_axis(self.y_exponent, y_extent, self.ylim, self.y_tick_interval) {
            Ok(axis) => axis,
            Err(e) => {
                return Err(e);
            },
        };
        Ok((xaxis, yaxis))
    }
}

} // verus!
