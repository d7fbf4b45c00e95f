//! Axis planning and page layout for two-dimensional plots, in exact integer
//! arithmetic.
//!
//! Every coordinate is a whole number of some decimal unit. Values along an
//! axis are counted in units of `10^exponent`, with an exponent that the
//! caller chooses for each axis; lengths on the page are counted in
//! hundredths of a page unit. No result depends on how a machine rounds.
//!
//! The crate chooses readable tick intervals and axis limits ([`ticks`]),
//! writes tick labels ([`labels`], [`axis`]), lays out the margins and maps
//! values to the page ([`layout`]), and lists what is to be drawn for a
//! backend to put on a page ([`render`], [`series`], [`image`]). A [`Plot`]
//! holds what the caller has set and the pages drawn so far.
//!
//! The crate measures no text. A caller gets the tick labels from
//! [`Plot::digest_tick_settings`], measures them in the font they will be
//! drawn in, and hands the widths to [`Plot::plot`] or [`Plot::image`].

pub mod axis;
pub mod error;
pub mod image;
pub mod labels;
pub mod layout;
pub mod numeric;
pub mod plot;
pub mod render;
pub mod series;
pub mod ticks;
pub mod util;

pub use error::PlotError;
pub use plot::{LineStyle, Marker, Plot};
