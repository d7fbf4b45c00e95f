//! One axis of a plot: its limits, its ticks and their labels.

use crate::labels::{
    fixed_label_fits, format_label, label_exponent, label_style, largest_limit, spec_label,
    spec_label_style, LabelStyle,
};
use crate::numeric::{fits_i64, magnitude};
use vstd::prelude::*;

verus! {

/// One axis of a plot, as it is laid out for one page.
///
/// Values along the axis are whole numbers of units of `10^exponent`.
#[derive(Debug)]
pub struct Axis {
    /// The values at the two ends of the axis, the first at the origin.
    pub limits: (i64, i64),
    /// The step from one tick to the next, with the sign of the step from
    /// the first limit to the second.
    pub tick_interval: i64,
    /// The number of ticks, at least one.
    pub num_ticks: u64,
    /// The decimal exponent of the unit in which values are counted.
    pub exponent: i32,
    /// The label of each tick, from the first limit on.
    pub tick_labels: Vec<String>,
    /// The room that the axis takes on the page, across its own direction.
    pub margin: i64,
}

/// An axis as a mathematical value.
pub struct AxisView {
    pub limits: (i64, i64),
    pub tick_interval: i64,
    pub num_ticks: u64,
    pub exponent: i32,
    pub tick_labels: Seq<Seq<char>>,
    pub margin: i64,
}

impl View for Axis {
    type V = AxisView;

    open spec fn view(&self) -> AxisView {
        AxisView {
            limits: self.limits,
            tick_interval: self.tick_interval,
            num_ticks: self.num_ticks,
            exponent: self.exponent,
            tick_labels: Seq::new(self.tick_labels@.len(), |i: int| self.tick_labels@[i]@),
            margin: self.margin,
        }
    }
}

impl AxisView {
    /// The value at tick `i`.
    pub open spec fn tick_value(&self, i: int) -> int {
        self.limits.0 + i * self.tick_interval
    }

    /// An axis has a tick, a step that is not zero, an exponent for which
    /// labels are written, and ticks whose values all fit.
    pub open spec fn well_formed(&self) -> bool {
        &&& self.num_ticks >= 1
        &&& self.tick_interval != 0
        &&& label_exponent(self.exponent as int)
        &&& fits_i64(self.tick_value(self.num_ticks - 1))
    }

    /// The style in which the ticks of this axis are written.
    pub open spec fn style(&self) -> LabelStyle {
        spec_label_style(
            magnitude(self.tick_interval as int),
            largest_limit(self.limits),
            self.exponent as int,
        )
    }

    /// The label of tick `i`.
    pub open spec fn spec_tick_label(&self, i: int) -> Seq<char> {
        spec_label(self.tick_value(i), self.exponent as int, self.style())
    }

    /// The labels of all the ticks.
    pub open spec fn spec_tick_labels(&self) -> Seq<Seq<char>> {
        Seq::new(self.num_ticks as nat, |i: int| self.spec_tick_label(i))
    }

    /// Whether the axis holds the label of each of its ticks.
    pub open spec fn labelled(&self) -> bool {
        self.tick_labels == self.spec_tick_labels()
    }
}

impl Axis {
    /// The value at tick `i`.
    pub open spec fn tick_value(&self, i: int) -> int {
        self@.tick_value(i)
    }

    /// An axis has a tick, a step that is not zero, an exponent for which
    /// labels are written, and ticks whose values all fit.
    pub open spec fn well_formed(&self) -> bool {
        self@.well_formed()
    }

    /// The style in which the ticks of this axis are written.
    pub open spec fn style(&self) -> LabelStyle {
        self@.style()
    }

    /// The label of tick `i`.
    pub open spec fn spec_tick_label(&self, i: int) -> Seq<char> {
        self@.spec_tick_label(i)
    }

    /// Whether the axis holds the label of each of its ticks.
    pub open spec fn labelled(&self) -> bool {
        self@.labelled()
    }

    /// The value of every tick lies between the first limit and the last
    /// tick, and so fits.
    pub proof fn lemma_tick_values_fit(&self, i: int)
        requires
            self.well_formed(),
            0 <= i < self.num_ticks,
        ensures
            fits_i64(self.tick_value(i)),
    {
        let t = self.tick_interval as int;
        let n = self.num_ticks as int;
        if t > 0 {
            assert(0 <= i * t <= (n - 1) * t) by (nonlinear_arith)
                requires
                    0 <= i <= n - 1,
                    t > 0,
            ;
        } else {
            assert((n - 1) * t <= i * t <= 0) by (nonlinear_arith)
                requires
                    0 <= i <= n - 1,
                    t < 0,
            ;
        }
    }

    /// The value at tick `i`.
    pub fn tick_value_at(&self, i: u64) -> (v: i64)
        requires
            self.well_formed(),
            i < self.num_ticks,
        ensures
            v == self.tick_value(i as int),
    {
        proof {
            self.lemma_tick_values_fit(i as int);
        }
        assert(-0x7FFF_FFFF_FFFF_FFFF_8000_0000_0000_0000 <= i * self.tick_interval
            <= 0x7FFF_FFFF_FFFF_FFFF_8000_0000_0000_0000) by (nonlinear_arith)
            requires
                0 <= i <= 0xFFFF_FFFF_FFFF_FFFF,
                -0x8000_0000_0000_0000 <= self.tick_interval <= 0x8000_0000_0000_0000,
        ;
        let v: i128 = self.limits.0 as i128 + (i as i128) * (self.tick_interval as i128);
        v as i64
    }

    /// Writes the label of every tick.
    ///
    /// Zero is written as a bare `0`. The other values are written in the
    /// style that the tick interval and the limits of the axis call for.
    pub fn tick_labels(&mut self)
        requires
            old(self).well_formed(),
        ensures
            final(self).labelled(),
            final(self).limits == old(self).limits,
            final(self).tick_interval == old(self).tick_interval,
            final(self).num_ticks == old(self).num_ticks,
            final(self).exponent == old(self).exponent,
            final(self).margin == old(self).margin,
    {
        let style = label_style(self.tick_interval, self.limits, self.exponent);
        let mut labels: Vec<String> = Vec::new();
        let mut i: u64 = 0;
        while i < self.num_ticks
            invariant
                self.well_formed(),
                *self == *old(self),
                style == self.style(),
                match style {
                    LabelStyle::Fixed { places } => fixed_label_fits(
                        self.exponent as int,
                        places as nat,
                    ),
                    LabelStyle::Scientific { places } => places <= 19,
                },
                i <= self.num_ticks,
                labels@.len() == i,
                forall|k: int|
                    0 <= k < i ==> (#[trigger] labels@[k])@ == self.spec_tick_label(k),
            decreases self.num_ticks - i,
        {
            let v: i64 = self.tick_value_at(i);
            let label = format_label(v, self.exponent, style);
            labels.push(label);
            i = i + 1;
        }
        self.tick_labels = labels;
        assert(self@.tick_labels =~= self@.spec_tick_labels());
    }
}

} // verus!
