//! The trip ledger: check-ins, check-outs and the mean travel time between
//! two stations.

use crate::error::LedgerError;
use crate::event::{event, share, Check, CustomerId, Timestamp};
use crate::laws::{lemma_check_in_keeps_consistency, lemma_check_out_keeps_consistency};
use crate::model::{after_step, between, total_time, LedgerView, Step};
use crate::open_set::OpenCheckIns;
use crate::search::{trips_by_customer_id, trips_by_stations};
use crate::trip::{views_of, views_of_refs, RoundTrip, TripView};
use vstd::prelude::*;

verus! {

/// The mean of the trip times of one or more trips, kept exact: the mean is
/// `total_time` divided by `trips`.
#[derive(Debug, Clone, Copy, PartialEq, Eq, Structural)]
pub struct AverageTime {
    /// The sum of the trip times.
    pub total_time: i128,
    /// How many trips were summed.
    pub trips: usize,
}

impl AverageTime {
    /// `self` is the mean over exactly the trips in `trips`, of which there is
    /// at least one.
    pub open spec fn is_mean_of(self, trips: Seq<TripView>) -> bool {
        &&& trips.len() > 0
        &&& self.trips == trips.len()
        &&& self.total_time == total_time(trips)
    }
}

/// The ledger of an underground network: every trip ever started, and the
/// check-ins that are in progress.
#[derive(Debug)]
pub struct UndergroundSystem {
    pub(crate) trips: Vec<RoundTrip>,
    pub(crate) ins: OpenCheckIns,
}

impl View for UndergroundSystem {
    type V = LedgerView;

    open(crate) spec fn view(&self) -> LedgerView {
        LedgerView { trips: views_of(self.trips@), open: self.ins@ }
    }
}

impl UndergroundSystem {
    /// A ledger without trips.
    pub fn new() -> (system: UndergroundSystem)
        ensures
            system@ == LedgerView::empty(),
            system@.consistent(),
    {
        let trips = vec![];
        let ins = OpenCheckIns::new();
        let system = UndergroundSystem { trips, ins };
        assert(system@.trips =~= LedgerView::empty().trips);
        system
    }

    /// Starts a trip of customer `id` at `station_name` at time `t`.
    ///
    /// Fails with `DuplicateCheckIn`, and changes nothing, if a check-in at
    /// the same station and time is in progress, whoever made it. Otherwise a
    /// new open trip comes last in the ledger and its departure counts as in
    /// progress. A customer who has an open trip already is not turned away:
    /// the trips are then closed in the order in which they were opened.
    pub fn check_in(&mut self, id: CustomerId, station_name: String, t: Timestamp) -> (result: Result<
        (),
        LedgerError,
    >)
        ensures
            match result {
                Ok(()) => {
                    &&& !old(self)@.open.contains(event(station_name@, t as int))
                    &&& final(self)@ == old(self)@.after_check_in(
                        id as int,
                        event(station_name@, t as int),
                    )
                },
                Err(e) => {
                    &&& e == LedgerError::DuplicateCheckIn
                    &&& old(self)@.open.contains(event(station_name@, t as int))
                    &&& final(self)@ == old(self)@
                },
            },
            final(self)@ == after_step(
                old(self)@,
                Step::CheckIn { customer_id: id as int, event: event(station_name@, t as int) },
            ),
            old(self)@.consistent() ==> final(self)@.consistent(),
    {
        let check_in = Check::new(station_name, t);

        if self.ins.contains(&check_in) {
            return Err(LedgerError::DuplicateCheckIn);
        }
        let round_trip = RoundTrip::new(id, share(&check_in), None);
        self.trips.push(round_trip);

        self.ins.insert(check_in);
        proof {
            assert(self@.trips =~= old(self)@.trips.push(TripView::opened(id as int, check_in@)));
            if old(self)@.consistent() {
                lemma_check_in_keeps_consistency(old(self)@, id as int, check_in@);
            }
        }
        Ok(())
    }

    /// Ends the first open trip of customer `id` at `station_name` at time
    /// `t`.
    ///
    /// Fails with `NoOpenTrip`, and changes nothing, if the customer has no
    /// open trip. Otherwise that trip is closed with the new event as its
    /// return, and its departure no longer counts as a check-in in progress.
    /// The timestamps are not compared: the return may lie before the
    /// departure.
    pub fn check_out(&mut self, id: CustomerId, station_name: String, t: Timestamp) -> (result: Result<
        (),
        LedgerError,
    >)
        ensures
            match result {
                Ok(()) => {
                    &&& old(self)@.has_open_trip(id as int)
                    &&& final(self)@ == old(self)@.after_check_out(
                        id as int,
                        event(station_name@, t as int),
                    )
                },
                Err(e) => {
                    &&& e == LedgerError::NoOpenTrip
                    &&& !old(self)@.has_open_trip(id as int)
                    &&& final(self)@ == old(self)@
                },
            },
            final(self)@ == after_step(
                old(self)@,
                Step::CheckOut { customer_id: id as int, event: event(station_name@, t as int) },
            ),
            old(self)@.consistent() ==> final(self)@.consistent(),
    {
        match trips_by_customer_id(self, id) {
            Some(trip) => {
                let departure = share(&trip.departure);
                let check_out = Check::new(station_name, t);
                trip.set_return(check_out);
                self.ins.remove(&departure);
                proof {
                    if old(self)@.consistent() {
                        lemma_check_out_keeps_consistency(old(self)@, id as int, check_out@);
                    }
                }
                Ok(())
            },
            None => Err(LedgerError::NoOpenTrip),
        }
    }

    /// The mean travel time over the closed trips from `start_station` to
    /// `end_station`, as their number and the sum of their trip times.
    ///
    /// Fails with `NoMatchingTrips` if there is no such trip. Open trips and
    /// trips between other stations do not count.
    pub fn get_average_time(&self, start_station: String, end_station: String) -> (result: Result<
        AverageTime,
        LedgerError,
    >)
        ensures
            match result {
                Ok(average) => average.is_mean_of(
                    self@.trips_between(start_station@, end_station@),
                ),
                Err(e) => {
                    &&& e == LedgerError::NoMatchingTrips
                    &&& self@.trips_between(start_station@, end_station@).len() == 0
                },
            },
    {
        let ghost wanted = self@.trips_between(start_station@, end_station@);
        let trips = trips_by_stations(self, start_station, end_station);
        if trips.len() == 0 {
            return Err(LedgerError::NoMatchingTrips);
        }
        assert forall|k: int| 0 <= k < wanted.len() implies (#[trigger] wanted[k]).is_closed() by {
            self@.trips.lemma_filter_pred(between(start_station@, end_station@), k);
        }
        let mut total_trip_time: i128 = 0;
        let mut i: usize = 0;
        while i < trips.len()
            invariant
                i <= trips.len(),
                views_of_refs(trips@) == wanted,
                forall|k: int| 0 <= k < wanted.len() ==> (#[trigger] wanted[k]).is_closed(),
                total_trip_time == total_time(wanted.take(i as int)),
                -(i * 0x8000_0000_0000_0000) <= total_trip_time <= i * 0x8000_0000_0000_0000,
            decreases trips.len() - i,
        {
            assert(wanted.take(i + 1).drop_last() =~= wanted.take(i as int));
            assert(trips[i as int]@ == wanted[i as int]);
            total_trip_time = total_trip_time + trips[i].trip_time() as i128;
            i += 1;
        }
        assert(wanted.take(i as int) =~= wanted);
        Ok(AverageTime { total_time: total_trip_time, trips: trips.len() })
    }
}

} // verus!
