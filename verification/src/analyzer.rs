//! Running totals along a trace, and the queries that are answered from
//! them.

use vstd::prelude::*;
use crate::elevation::Elevation;
use crate::error::Error;
use crate::location::Location;
use crate::nearest::{
    as_ints,
    first_minimum,
    gap,
    is_first_minimum,
    lemma_first_minimum_exists,
    lemma_first_minimum_is,
};
use crate::trace::{
    lemma_product_fits,
    lemma_total_elevation_bound,
    lemma_total_length_bound,
    section_between,
    total_length,
    Trace,
};

verus! {

/// The totals from the first sample of a trace up to one of its samples.
#[derive(Clone, Copy, Debug, PartialEq, Eq, Structural)]
pub struct Stats {
    /// Distance along the path, in millimetres.
    pub distance: u128,
    /// Height gained and height lost.
    pub elevation: Elevation,
}

/// `statistics` holds the running totals of `trace`: one entry for each
/// sample, in path order, and so none for a trace without samples. The
/// first entry is all zeros.
pub open spec fn cumulative(statistics: Seq<Stats>, trace: Trace) -> bool {
    &&& statistics.len() == trace.locations@.len()
    &&& forall|index: int|
        0 <= index < statistics.len() ==> {
            &&& (#[trigger] statistics[index]).distance == trace.distance_at(index)
            &&& statistics[index].elevation.positive == trace.climb_at(index)
            &&& statistics[index].elevation.negative == trace.descent_at(index)
        }
}

/// A trace together with its running totals, which are computed once, when
/// the analyzer is made.
#[derive(Debug)]
pub struct Analyzer<'a> {
    trace: &'a Trace,
    statistics: Vec<Stats>,
}

impl<'a> View for Analyzer<'a> {
    type V = Trace;

    /// An analyzer stands for the trace it was made from.
    closed spec fn view(&self) -> Trace {
        *self.trace
    }
}

/// The distance between two unsigned numbers.
fn distance_between(left: u128, right: u128) -> (between: u128)
    ensures
        between == gap(left as int, right as int),
{
    if left >= right {
        left - right
    } else {
        right - left
    }
}

impl<'a> Analyzer<'a> {
    #[verifier::type_invariant]
    spec fn inv(self) -> bool {
        &&& self.trace.wf()
        &&& cumulative(self.statistics@, *self.trace)
    }

    /// Takes hold of a trace and computes its running totals.
    pub fn new(trace: &'a Trace) -> (analyzer: Self)
        requires
            trace.wf(),
        ensures
            analyzer@ == *trace,
    {
        let statistics = Analyzer::compute_analytics(trace);
        Analyzer { trace, statistics }
    }

    /// The trace that the analyzer was made from.
    pub fn trace(&self) -> (trace: &'a Trace)
        ensures
            *trace == self@,
            trace.wf(),
    {
        proof {
            use_type_invariant(self);
        }
        self.trace
    }

    /// The running totals, one entry for each sample of the trace.
    pub fn statistics(&self) -> (statistics: &Vec<Stats>)
        ensures
            self@.wf(),
            cumulative(statistics@, self@),
    {
        proof {
            use_type_invariant(self);
        }
        &self.statistics
    }

    /// Walks the trace once and adds up, for each sample, the legs and the
    /// changes of altitude that lead to it.
    pub fn compute_analytics(trace: &Trace) -> (statistics: Vec<Stats>)
        requires
            trace.wf(),
        ensures
            cumulative(statistics@, *trace),
    {
        let mut statistics: Vec<Stats> = Vec::new();
        let count = trace.locations.len();
        if count == 0 {
            return statistics;
        }
        statistics.push(Stats { distance: 0, elevation: Elevation { positive: 0, negative: 0 } });
        let mut distance: u128 = 0;
        let mut positive: u128 = 0;
        let mut negative: u128 = 0;
        let mut index: usize = 1;
        assert(trace.legs@.take(0) =~= Seq::<u64>::empty());
        while index < count
            invariant
                trace.wf(),
                count == trace.locations@.len(),
                1 <= index <= count,
                statistics@.len() == index,
                distance == trace.distance_at(index - 1),
                positive == trace.climb_at(index - 1),
                negative == trace.descent_at(index - 1),
                forall|i: int|
                    0 <= i < index ==> {
                        &&& (#[trigger] statistics@[i]).distance == trace.distance_at(i)
                        &&& statistics@[i].elevation.positive == trace.climb_at(i)
                        &&& statistics@[i].elevation.negative == trace.descent_at(i)
                    },
            decreases count - index,
        {
            let leg = trace.legs[index - 1];
            let step = trace.locations[index - 1].calculate_elevation_to(&trace.locations[index]);
            proof {
                let legs = trace.legs@.take(index as int);
                assert(legs.drop_last() =~= trace.legs@.take(index - 1));
                lemma_total_length_bound(legs);
                lemma_product_fits(legs.len());
                let locations = trace.locations@.take(index + 1);
                assert(locations.drop_last() =~= trace.locations@.take(index as int));
                lemma_total_elevation_bound(locations);
                lemma_product_fits(locations.len());
            }
            distance = distance + leg as u128;
            positive = positive + step.positive;
            negative = negative + step.negative;
            statistics.push(Stats { distance, elevation: Elevation { positive, negative } });
            index = index + 1;
        }
        statistics
    }

    /// The sample that is closest to some point, given the distance from
    /// that point to each sample: `ranges[i]` belongs to sample `i`. Of
    /// several samples that are equally close, the first is returned.
    pub fn compute_closest_location(&self, ranges: &Vec<u64>) -> (closest: Result<
        &Location,
        Error,
    >)
        requires
            ranges@.len() == self@.locations@.len(),
        ensures
            self@.locations@.len() == 0 <==> closest == Err::<&Location, Error>(
                Error::EmptyTrace,
            ),
            self@.locations@.len() > 0 <==> closest is Ok,
            closest matches Ok(location) ==> {
                &&& is_first_minimum(as_ints(ranges@), first_minimum(as_ints(ranges@)))
                &&& *location == self@.locations@[first_minimum(as_ints(ranges@))]
            },
    {
        let count = self.trace.locations.len();
        if count == 0 {
            return Err(Error::EmptyTrace);
        }
        let mut best: usize = 0;
        let mut index: usize = 1;
        while index < count
            invariant
                count == ranges@.len(),
                1 <= index <= count,
                best < index,
                forall|j: int| 0 <= j < index ==> ranges@[best as int] <= #[trigger] ranges@[j],
                forall|j: int| 0 <= j < best ==> ranges@[best as int] < #[trigger] ranges@[j],
            decreases count - index,
        {
            if ranges[index] < ranges[best] {
                best = index;
            }
            index = index + 1;
        }
        proof {
            assert(is_first_minimum(as_ints(ranges@), best as int));
            lemma_first_minimum_is(as_ints(ranges@), best as int);
        }
        Ok(&self.trace.locations[best])
    }

    /// The index of the first sample that equals `current_location` in
    /// longitude, latitude and altitude.
    pub fn find_location_index(&self, current_location: &Location) -> (found: Result<
        usize,
        Error,
    >)
        ensures
            self@.locations@.contains(*current_location) <==> found is Ok,
            !self@.locations@.contains(*current_location) <==> found == Err::<usize, Error>(
                Error::NotFound,
            ),
            found matches Ok(index) ==> {
                &&& index < self@.locations@.len()
                &&& self@.locations@[index as int] == *current_location
                &&& forall|j: int| 0 <= j < index ==> self@.locations@[j] != *current_location
            },
    {
        let count = self.trace.locations.len();
        let mut index: usize = 0;
        while index < count
            invariant
                count == self.trace.locations@.len(),
                index <= count,
                forall|j: int| 0 <= j < index ==> self.trace.locations@[j] != *current_location,
            decreases count - index,
        {
            let location = &self.trace.locations[index];
            if location.longitude == current_location.longitude && location.latitude
                == current_location.latitude && location.altitude == current_location.altitude {
                return Ok(index);
            }
            index = index + 1;
        }
        Err(Error::NotFound)
    }

    /// The index of the sample whose distance along the path is closest to
    /// the mark `distance`. Of several that are equally close, the first.
    ///
    /// A negative mark is refused before anything else. A trace without
    /// samples has no running totals to hold the mark against, and that is
    /// the failure reported for it.
    pub fn find_location_index_at(&self, distance: i128) -> (found: Result<usize, Error>)
        ensures
            distance < 0 <==> found == Err::<usize, Error>(Error::NegativeMark),
            distance >= 0 && self@.locations@.len() == 0 <==> found == Err::<usize, Error>(
                Error::NoStatistics,
            ),
            distance >= 0 && self@.locations@.len() > 0 <==> found is Ok,
            found matches Ok(index) ==> {
                &&& is_first_minimum(self@.gaps(distance as int), index as int)
                &&& index == self@.nearest_index(distance as int)
            },
    {
        proof {
            use_type_invariant(self);
        }
        if distance < 0 {
            return Err(Error::NegativeMark);
        }
        let count = self.statistics.len();
        if count == 0 {
            return Err(Error::NoStatistics);
        }
        if self.trace.locations.len() == 0 {
            return Err(Error::EmptyTrace);
        }
        let mark: u128 = distance as u128;
        let mut delta: u128 = distance_between(mark, self.statistics[0].distance);
        let mut best: usize = 0;
        let mut index: usize = 1;
        let ghost gaps = self.trace.gaps(distance as int);
        while index < count
            invariant
                mark == distance,
                gaps == self.trace.gaps(distance as int),
                cumulative(self.statistics@, *self.trace),
                count == self.statistics@.len(),
                count == self.trace.locations@.len(),
                1 <= index <= count,
                best < index,
                delta == gaps[best as int],
                forall|j: int| 0 <= j < index ==> gaps[best as int] <= #[trigger] gaps[j],
                forall|j: int| 0 <= j < best ==> gaps[best as int] < #[trigger] gaps[j],
            decreases count - index,
        {
            let diff = distance_between(mark, self.statistics[index].distance);
            if diff < delta {
                delta = diff;
                best = index;
            }
            index = index + 1;
        }
        proof {
            assert(is_first_minimum(gaps, best as int));
            lemma_first_minimum_is(gaps, best as int);
        }
        if best > self.trace.locations.len() {
            return Err(Error::OutOfBounds);
        }
        Ok(best)
    }

    /// The sample whose distance along the path is closest to the mark
    /// `distance`. It fails where `find_location_index_at` fails, and in the
    /// same way.
    pub fn get_location_at(&self, distance: i128) -> (found: Result<&Location, Error>)
        ensures
            distance < 0 <==> found == Err::<&Location, Error>(Error::NegativeMark),
            distance >= 0 && self@.locations@.len() == 0 <==> found == Err::<&Location, Error>(
                Error::NoStatistics,
            ),
            distance >= 0 && self@.locations@.len() > 0 <==> found is Ok,
            found matches Ok(location) ==> {
                &&& is_first_minimum(
                    self@.gaps(distance as int),
                    self@.nearest_index(distance as int),
                )
                &&& *location == self@.locations@[self@.nearest_index(distance as int)]
            },
    {
        match self.find_location_index_at(distance) {
            Ok(index) => {
                if index < self.trace.locations.len() {
                    Ok(&self.trace.locations[index])
                } else {
                    Err(Error::OutOfBounds)
                }
            },
            Err(error) => Err(error),
        }
    }

    /// The samples strictly between the sample nearest to the mark `start`
    /// and the sample nearest to the mark `end`.
    ///
    /// The end is held against the last of the running totals first. A trace
    /// without samples has no such entry: whatever the marks, its sections
    /// fail for want of statistics. Otherwise an end beyond the length of the
    /// trace is refused before a negative start is.
    pub fn get_trace_section(&self, start: i128, end: i128) -> (section: Result<
        Vec<Location>,
        Error,
    >)
        ensures
            self@.locations@.len() == 0 <==> section == Err::<Vec<Location>, Error>(
                Error::NoStatistics,
            ),
            self@.locations@.len() > 0 && end > total_length(self@.legs@) <==> section == Err::<
                Vec<Location>,
                Error,
            >(Error::OutOfBounds),
            self@.locations@.len() > 0 && end <= total_length(self@.legs@) && start < 0
                <==> section == Err::<Vec<Location>, Error>(Error::NegativeValues),
            end < 0 <= start && self@.locations@.len() > 0 <==> section == Err::<
                Vec<Location>,
                Error,
            >(Error::NegativeMark),
            0 <= start && 0 <= end <= total_length(self@.legs@) && self@.locations@.len() > 0
                <==> section is Ok,
            section matches Ok(found) ==> found@ == section_between(
                self@.locations@,
                self@.nearest_index(start as int),
                self@.nearest_index(end as int),
            ),
    {
        proof {
            use_type_invariant(self);
        }
        let count = self.statistics.len();
        if count == 0 {
            return Err(Error::NoStatistics);
        }
        proof {
            lemma_last_distance_is_length(self.statistics@, *self.trace);
        }
        let last = &self.statistics[count - 1];
        if end > 0 && last.distance < end as u128 {
            return Err(Error::OutOfBounds);
        }
        if start < 0 {
            return Err(Error::NegativeValues);
        }
        let start_index = match self.find_location_index_at(start) {
            Ok(index) => index,
            Err(error) => {
                return Err(error);
            },
        };
        let end_index = match self.find_location_index_at(end) {
            Ok(index) => index,
            Err(error) => {
                return Err(error);
            },
        };
        self.trace.get_section(start_index, end_index)
    }
}

/// Along a trace the distance, the height gained and the height lost never
/// fall from one entry of the running totals to a later one.
pub proof fn lemma_statistics_never_fall(statistics: Seq<Stats>, trace: Trace, i: int, j: int)
    requires
        trace.wf(),
        cumulative(statistics, trace),
        0 <= i <= j < statistics.len(),
    ensures
        statistics[i].distance <= statistics[j].distance,
        statistics[i].elevation.positive <= statistics[j].elevation.positive,
        statistics[i].elevation.negative <= statistics[j].elevation.negative,
    decreases j - i,
{
    if i < j {
        lemma_statistics_never_fall(statistics, trace, i, j - 1);
        assert(trace.legs@.take(j).drop_last() =~= trace.legs@.take(j - 1));
        assert(trace.locations@.take(j + 1).drop_last() =~= trace.locations@.take(j));
    }
}

/// Where a trace has samples, the last entry of its running totals holds
/// the length of the whole trace.
pub proof fn lemma_last_distance_is_length(statistics: Seq<Stats>, trace: Trace)
    requires
        trace.wf(),
        cumulative(statistics, trace),
        trace.locations@.len() > 0,
    ensures
        statistics.last().distance == total_length(trace.legs@),
{
    assert(trace.legs@.take(trace.locations@.len() - 1) =~= trace.legs@);
}

/// A mark that is exactly the distance of some sample along the path is
/// resolved to a sample at that distance: to the first of them, which is the
/// given one unless an earlier sample lies at the same distance.
pub proof fn lemma_exact_mark(statistics: Seq<Stats>, trace: Trace, index: int)
    requires
        trace.wf(),
        cumulative(statistics, trace),
        0 <= index < trace.locations@.len(),
    ensures
        ({
            let mark = statistics[index].distance as int;
            let found = trace.nearest_index(mark);
            &&& 0 <= found <= index
            &&& statistics[found].distance == mark
            &&& forall|j: int| 0 <= j < found ==> (#[trigger] statistics[j]).distance != mark
            &&& (forall|j: int| 0 <= j < index ==> (#[trigger] statistics[j]).distance != mark)
                ==> found == index
        }),
{
    let mark = statistics[index].distance as int;
    let gaps = trace.gaps(mark);
    let found = trace.nearest_index(mark);
    lemma_first_minimum_exists(gaps);
    assert(is_first_minimum(gaps, found));
    assert(gaps[index] == gap(mark, trace.distance_at(index) as int));
    assert(statistics[index].distance == trace.distance_at(index));
    assert(gaps[index] == 0);
    assert(gaps[found] == gap(mark, trace.distance_at(found) as int));
    assert(statistics[found].distance == trace.distance_at(found));
    assert(gaps[found] <= gaps[index]);
    assert(statistics[found].distance == mark);
    if found > index {
        assert(gaps[found] < gaps[index]);
    }
    assert forall|j: int| 0 <= j < found implies (#[trigger] statistics[j]).distance != mark by {
        assert(gaps[found] < gaps[j]);
        assert(gaps[j] == gap(mark, trace.distance_at(j) as int));
        assert(statistics[j].distance == trace.distance_at(j));
    }
}

} // verus!
