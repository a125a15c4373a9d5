//! Height gained and height lost, kept apart.

use vstd::prelude::*;

verus! {

/// The climb and the descent along a stretch of path, in millimetres.
///
/// Both are magnitudes: a descent of two metres is `negative == 2000`. The two
/// are never netted against each other.
#[derive(Clone, Copy, Debug, PartialEq, Eq, Structural)]
pub struct Elevation {
    /// Sum of all rises.
    pub positive: u128,
    /// Sum of the magnitudes of all falls.
    pub negative: u128,
}

} // verus!
