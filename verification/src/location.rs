//! One geographic sample, and what can be said of two of them without
//! trigonometry.

use vstd::prelude::*;
use crate::area::Area;
use crate::elevation::Elevation;

verus! {

/// A point on the globe: longitude and latitude in millionths of a degree,
/// altitude in millimetres.
#[derive(Clone, Copy, Debug, PartialEq, Eq, Structural)]
pub struct Location {
    pub longitude: i64,
    pub latitude: i64,
    pub altitude: i64,
}

impl Location {
    /// How far `to` lies above `self`; zero where it does not.
    pub open spec fn climb_to(self, to: Location) -> nat {
        if to.altitude > self.altitude {
            (to.altitude - self.altitude) as nat
        } else {
            0
        }
    }

    /// How far `to` lies below `self`; zero where it does not.
    pub open spec fn descent_to(self, to: Location) -> nat {
        if to.altitude > self.altitude {
            0
        } else {
            (self.altitude - to.altitude) as nat
        }
    }

    /// Strictly inside `area`: a point on an edge is outside.
    pub open spec fn inside(self, area: Area) -> bool {
        &&& area.min_longitude < self.longitude < area.max_longitude
        &&& area.min_latitude < self.latitude < area.max_latitude
    }

    /// The change of altitude on the way from `self` to `to`, as a rise or as
    /// a fall. Level ground is a fall of zero.
    pub fn calculate_elevation_to(&self, to: &Location) -> (elevation: Elevation)
        ensures
            elevation.positive == self.climb_to(*to),
            elevation.negative == self.descent_to(*to),
    {
        let from_altitude: i128 = self.altitude as i128;
        let to_altitude: i128 = to.altitude as i128;
        if to_altitude > from_altitude {
            Elevation { positive: (to_altitude - from_altitude) as u128, negative: 0 }
        } else {
            Elevation { positive: 0, negative: (from_altitude - to_altitude) as u128 }
        }
    }

    /// Whether the sample lies strictly inside `area`.
    pub fn is_in_area(&self, area: &Area) -> (inside: bool)
        ensures
            inside == self.inside(*area),
    {
        self.longitude > area.min_longitude && self.longitude < area.max_longitude
            && self.latitude > area.min_latitude && self.latitude < area.max_latitude
    }

    /// Whether a sample at distance `range` from a centre lies within `radius`
    /// of it. A sample exactly `radius` away is outside.
    pub fn is_in_radius(range: u64, radius: i128) -> (inside: bool)
        ensures
            inside == (range < radius),
    {
        (range as i128) < radius
    }
}

} // verus!
