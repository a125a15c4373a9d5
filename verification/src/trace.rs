//! A recorded path and the figures that describe it as a whole.

use vstd::prelude::*;
use crate::area::Area;
use crate::elevation::Elevation;
use crate::error::Error;
use crate::location::Location;
use crate::nearest::{first_minimum, gap};

verus! {

/// The sum of a run of leg lengths.
pub open spec fn total_length(legs: Seq<u64>) -> nat
    decreases legs.len(),
{
    if legs.len() == 0 {
        0
    } else {
        total_length(legs.drop_last()) + legs.last() as nat
    }
}

/// The sum of all rises between neighbours in `locations`.
pub open spec fn total_climb(locations: Seq<Location>) -> nat
    decreases locations.len(),
{
    if locations.len() < 2 {
        0
    } else {
        total_climb(locations.drop_last()) + locations[locations.len() - 2].climb_to(
            locations.last(),
        )
    }
}

/// The sum of all falls between neighbours in `locations`.
pub open spec fn total_descent(locations: Seq<Location>) -> nat
    decreases locations.len(),
{
    if locations.len() < 2 {
        0
    } else {
        total_descent(locations.drop_last()) + locations[locations.len() - 2].descent_to(
            locations.last(),
        )
    }
}

/// The samples whose index lies strictly between `start_index` and
/// `end_index`, in path order. Neither end belongs to the section.
pub open spec fn section_between(
    locations: Seq<Location>,
    start_index: int,
    end_index: int,
) -> Seq<Location> {
    let stop = if end_index < locations.len() {
        end_index
    } else {
        locations.len() as int
    };
    if 0 <= start_index && start_index + 1 < stop {
        locations.subrange(start_index + 1, stop)
    } else {
        Seq::empty()
    }
}

/// A sum of leg lengths is at most as many times the largest length as there
/// are legs.
pub proof fn lemma_total_length_bound(legs: Seq<u64>)
    ensures
        total_length(legs) <= legs.len() * u64::MAX,
    decreases legs.len(),
{
    if legs.len() > 0 {
        lemma_total_length_bound(legs.drop_last());
        assert(total_length(legs) <= (legs.len() - 1) * u64::MAX + u64::MAX);
        assert((legs.len() - 1) * u64::MAX + u64::MAX == legs.len() * u64::MAX)
            by (nonlinear_arith);
    }
}

/// Rises and falls add up to at most as many times the widest gap between
/// two altitudes as there are pairs of neighbours.
pub proof fn lemma_total_elevation_bound(locations: Seq<Location>)
    ensures
        total_climb(locations) <= locations.len() * u64::MAX,
        total_descent(locations) <= locations.len() * u64::MAX,
    decreases locations.len(),
{
    if locations.len() >= 2 {
        lemma_total_elevation_bound(locations.drop_last());
        assert((locations.len() - 1) * u64::MAX + u64::MAX == locations.len() * u64::MAX)
            by (nonlinear_arith);
    }
}

/// As many times the largest length as a vector has entries still fits in
/// 128 bits.
pub proof fn lemma_product_fits(count: nat)
    requires
        count <= usize::MAX,
    ensures
        count * u64::MAX <= u128::MAX,
{
    assert(count * u64::MAX <= u128::MAX) by (nonlinear_arith)
        requires
            count <= 0xffff_ffff_ffff_ffff,
            u64::MAX == 0xffff_ffff_ffff_ffff,
            u128::MAX == 0xffff_ffff_ffff_ffff_ffff_ffff_ffff_ffff,
    ;
}

/// A path: its samples in the order in which they were recorded, and the
/// measured length of each leg between neighbours.
#[derive(Debug)]
pub struct Trace {
    /// The samples, first to last.
    pub locations: Vec<Location>,
    /// `legs[i]` is the distance from sample `i` to sample `i + 1`, in
    /// millimetres.
    pub legs: Vec<u64>,
}

impl Trace {
    /// There is one leg for each pair of neighbours and no other.
    pub open spec fn wf(&self) -> bool {
        if self.locations@.len() == 0 {
            self.legs@.len() == 0
        } else {
            self.legs@.len() == self.locations@.len() - 1
        }
    }

    /// Whether there is one leg for each pair of neighbours and no other.
    pub fn is_well_formed(&self) -> (well_formed: bool)
        ensures
            well_formed == self.wf(),
    {
        if self.locations.len() == 0 {
            self.legs.len() == 0
        } else {
            self.legs.len() == self.locations.len() - 1
        }
    }

    /// Distance along the path from the first sample to sample `index`.
    pub open spec fn distance_at(&self, index: int) -> nat {
        total_length(self.legs@.take(index))
    }

    /// Height gained from the first sample to sample `index`.
    pub open spec fn climb_at(&self, index: int) -> nat {
        total_climb(self.locations@.take(index + 1))
    }

    /// Height lost from the first sample to sample `index`.
    pub open spec fn descent_at(&self, index: int) -> nat {
        total_descent(self.locations@.take(index + 1))
    }

    /// For each sample, how far the mark lies from the sample's distance
    /// along the path.
    pub open spec fn gaps(&self, mark: int) -> Seq<int> {
        Seq::new(self.locations@.len(), |index: int| gap(mark, self.distance_at(index) as int))
    }

    /// The sample whose distance along the path is closest to the mark; of
    /// several that are equally close, the first.
    pub open spec fn nearest_index(&self, mark: int) -> int {
        first_minimum(self.gaps(mark))
    }

    /// The length of the whole path: the sum of its legs.
    pub fn length(&self) -> (length: u128)
        ensures
            length == total_length(self.legs@),
    {
        let count = self.legs.len();
        let mut length: u128 = 0;
        let mut index: usize = 0;
        while index < count
            invariant
                count == self.legs@.len(),
                index <= count,
                length == total_length(self.legs@.take(index as int)),
            decreases count - index,
        {
            proof {
                let longer = self.legs@.take(index + 1);
                assert(longer.drop_last() =~= self.legs@.take(index as int));
                lemma_total_length_bound(longer);
                lemma_product_fits(longer.len());
            }
            length = length + self.legs[index] as u128;
            index = index + 1;
        }
        assert(self.legs@.take(count as int) =~= self.legs@);
        length
    }

    /// The height gained and the height lost along the whole path.
    pub fn elevation(&self) -> (elevation: Elevation)
        ensures
            elevation.positive == total_climb(self.locations@),
            elevation.negative == total_descent(self.locations@),
    {
        let count = self.locations.len();
        let mut elevation = Elevation { positive: 0, negative: 0 };
        if count < 2 {
            return elevation;
        }
        let mut index: usize = 1;
        while index < count
            invariant
                count == self.locations@.len(),
                1 <= index <= count,
                elevation.positive == total_climb(self.locations@.take(index as int)),
                elevation.negative == total_descent(self.locations@.take(index as int)),
            decreases count - index,
        {
            let step = self.locations[index - 1].calculate_elevation_to(&self.locations[index]);
            proof {
                let longer = self.locations@.take(index + 1);
                assert(longer.drop_last() =~= self.locations@.take(index as int));
                lemma_total_elevation_bound(longer);
                lemma_product_fits(longer.len());
            }
            elevation = Elevation {
                positive: elevation.positive + step.positive,
                negative: elevation.negative + step.negative,
            };
            index = index + 1;
        }
        assert(self.locations@.take(count as int) =~= self.locations@);
        elevation
    }

    /// The smallest box that holds every sample.
    pub fn area(&self) -> (area: Result<Area, Error>)
        ensures
            self.locations@.len() == 0 <==> area == Err::<Area, Error>(Error::EmptyTrace),
            self.locations@.len() > 0 <==> area is Ok,
            area matches Ok(found) ==> found.is_bounding_box_of(self.locations@) && found.wf(),
    {
        let count = self.locations.len();
        if count == 0 {
            return Err(Error::EmptyTrace);
        }
        let first = &self.locations[0];
        let mut area = Area {
            min_longitude: first.longitude,
            max_longitude: first.longitude,
            min_latitude: first.latitude,
            max_latitude: first.latitude,
        };
        let mut index: usize = 1;
        assert(area.touches(self.locations@.take(1))) by {
            assert(self.locations@.take(1)[0] == self.locations@[0]);
        }
        while index < count
            invariant
                count == self.locations@.len(),
                1 <= index <= count,
                area.is_bounding_box_of(self.locations@.take(index as int)),
            decreases count - index,
        {
            let location = &self.locations[index];
            let ghost seen = self.locations@.take(index as int);
            let ghost longer = self.locations@.take(index + 1);
            let ghost before = area;
            if location.longitude < area.min_longitude {
                area.min_longitude = location.longitude;
            }
            if location.longitude > area.max_longitude {
                area.max_longitude = location.longitude;
            }
            if location.latitude < area.min_latitude {
                area.min_latitude = location.latitude;
            }
            if location.latitude > area.max_latitude {
                area.max_latitude = location.latitude;
            }
            proof {
                assert forall|i: int| 0 <= i < index implies longer[i] == seen[i] by {}
                assert(longer[index as int] == *location);
                let i0 = choose|i: int|
                    0 <= i < seen.len() && (#[trigger] seen[i]).longitude == before.min_longitude;
                let i1 = choose|i: int|
                    0 <= i < seen.len() && (#[trigger] seen[i]).longitude == before.max_longitude;
                let i2 = choose|i: int|
                    0 <= i < seen.len() && (#[trigger] seen[i]).latitude == before.min_latitude;
                let i3 = choose|i: int|
                    0 <= i < seen.len() && (#[trigger] seen[i]).latitude == before.max_latitude;
                assert(longer[i0] == seen[i0] && longer[i1] == seen[i1]);
                assert(longer[i2] == seen[i2] && longer[i3] == seen[i3]);
                assert(area.covers(longer)) by {
                    assert forall|i: int| 0 <= i < longer.len() implies {
                        &&& area.min_longitude <= (#[trigger] longer[i]).longitude
                            <= area.max_longitude
                        &&& area.min_latitude <= longer[i].latitude <= area.max_latitude
                    } by {
                        if i < index {
                            assert(longer[i] == seen[i]);
                        }
                    }
                }
                assert(area.touches(longer));
            }
            index = index + 1;
        }
        assert(self.locations@.take(count as int) =~= self.locations@);
        Ok(area)
    }

    /// The samples strictly between two indices. The indices are taken as
    /// they come: where they enclose nothing, the section is empty.
    pub fn get_section(&self, start_index: usize, end_index: usize) -> (section: Result<
        Vec<Location>,
        Error,
    >)
        ensures
            self.locations@.len() == 0 <==> section == Err::<Vec<Location>, Error>(
                Error::EmptyTrace,
            ),
            self.locations@.len() > 0 <==> section is Ok,
            section matches Ok(found) ==> found@ == section_between(
                self.locations@,
                start_index as int,
                end_index as int,
            ),
    {
        let count = self.locations.len();
        if count == 0 {
            return Err(Error::EmptyTrace);
        }
        let stop = if end_index < count {
            end_index
        } else {
            count
        };
        let mut section: Vec<Location> = Vec::new();
        if start_index < stop {
            let mut index: usize = start_index + 1;
            while index < stop
                invariant
                    count == self.locations@.len(),
                    start_index < index <= stop <= count,
                    section@ =~= self.locations@.subrange(start_index + 1, index as int),
                decreases stop - index,
            {
                section.push(self.locations[index]);
                assert(section@ =~= self.locations@.subrange(start_index + 1, index + 1));
                index = index + 1;
            }
            assert(section@ =~= section_between(
                self.locations@,
                start_index as int,
                end_index as int,
            ));
        }
        Ok(section)
    }
}

} // verus!
