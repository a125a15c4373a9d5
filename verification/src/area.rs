//! Axis-aligned boxes over longitude and latitude.

use vstd::prelude::*;
use crate::location::Location;

verus! {

/// A box in longitude and latitude, in millionths of a degree.
#[derive(Clone, Copy, Debug, PartialEq, Eq, Structural)]
pub struct Area {
    pub min_longitude: i64,
    pub max_longitude: i64,
    pub min_latitude: i64,
    pub max_latitude: i64,
}

impl Area {
    /// On each axis the lower edge is not above the upper edge.
    pub open spec fn wf(self) -> bool {
        &&& self.min_longitude <= self.max_longitude
        &&& self.min_latitude <= self.max_latitude
    }

    /// Every one of `locations` lies in the box or on its edge.
    pub open spec fn covers(self, locations: Seq<Location>) -> bool {
        forall|i: int|
            0 <= i < locations.len() ==> {
                &&& self.min_longitude <= (#[trigger] locations[i]).longitude <= self.max_longitude
                &&& self.min_latitude <= locations[i].latitude <= self.max_latitude
            }
    }

    /// Each of the four edges passes through one of `locations`.
    pub open spec fn touches(self, locations: Seq<Location>) -> bool {
        &&& exists|i: int|
            0 <= i < locations.len() && (#[trigger] locations[i]).longitude == self.min_longitude
        &&& exists|i: int|
            0 <= i < locations.len() && (#[trigger] locations[i]).longitude == self.max_longitude
        &&& exists|i: int|
            0 <= i < locations.len() && (#[trigger] locations[i]).latitude == self.min_latitude
        &&& exists|i: int|
            0 <= i < locations.len() && (#[trigger] locations[i]).latitude == self.max_latitude
    }

    /// The box is the smallest one that holds all of `locations`.
    pub open spec fn is_bounding_box_of(self, locations: Seq<Location>) -> bool {
        self.covers(locations) && self.touches(locations)
    }

    /// The smallest box around a set of samples is well formed, and there is
    /// only one such box.
    pub proof fn lemma_bounding_box(self, other: Area, locations: Seq<Location>)
        requires
            self.is_bounding_box_of(locations),
            other.is_bounding_box_of(locations),
        ensures
            self.wf(),
            self == other,
    {
    }
}

} // verus!
