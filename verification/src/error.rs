//! The ways in which laying out a plot can fail.

use vstd::prelude::*;
use vstd::string::*;

verus! {

/// Why a plot could not be laid out or drawn.
#[derive(Clone, Copy, Debug, PartialEq, Eq, Structural)]
pub enum PlotError {
    /// An axis has neither a pinned limit nor data to infer one from, or a
    /// buffer handed in does not have the length that its dimensions ask for.
    Configuration,
    /// A quantity does not fit the integers that hold it.
    NumericOverflow,
}

impl PlotError {
    /// What went wrong, in words.
    pub open spec fn spec_message(&self) -> Seq<char> {
        match *self {
            PlotError::Configuration =>
                "an axis has neither pinned limits nor data, or a buffer has the wrong length"@,
            PlotError::NumericOverflow => "a quantity does not fit the integers that hold it"@,
        }
    }

    /// What went wrong, in words.
    pub fn message(&self) -> (text: String)
        ensures
            text@ == self.spec_message(),
    {
        match *self {
            PlotError::Configuration => String::from_str(
                "an axis has neither pinned limits nor data, or a buffer has the wrong length",
            ),
            PlotError::NumericOverflow => String::from_str(
                "a quantity does not fit the integers that hold it",
            ),
        }
    }
}

} // verus!
