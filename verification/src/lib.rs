//! Fixed-point analytics over a recorded path of geographic samples.
//!
//! Every quantity is a whole number: coordinates in millionths of a degree,
//! altitudes and distances in millimetres. The library never computes a
//! great-circle distance itself: a trace carries the measured length of each
//! of its legs, and the queries that need the distance from a point to the
//! samples take those distances as an argument.

use vstd::prelude::*;

pub mod analyzer;
pub mod area;
pub mod elevation;
pub mod error;
pub mod location;
pub mod nearest;
pub mod trace;

pub use analyzer::{Analyzer, Stats};
pub use area::Area;
pub use elevation::Elevation;
pub use error::Error;
pub use location::Location;
pub use trace::Trace;

verus! {

/// Puts samples and the measured lengths of the legs between them together
/// as a trace. `legs[i]` is the distance from `locations[i]` to
/// `locations[i + 1]`.
pub fn build_trace(locations: Vec<Location>, legs: Vec<u64>) -> (trace: Trace)
    ensures
        trace.locations == locations,
        trace.legs == legs,
{
    Trace { locations, legs }
}

} // verus!
