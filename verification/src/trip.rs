//! Trips: a departure, and a return once the customer has checked out.

use crate::event::{Check, CheckView, CustomerId};
use std::rc::Rc;
use vstd::prelude::*;

verus! {

/// The mathematical value of a trip.
pub struct TripView {
    pub customer_id: int,
    pub departure: CheckView,
    pub return_trip: Option<CheckView>,
}

impl TripView {
    /// The trip that `customer_id` starts with the check-in `departure`.
    pub open spec fn opened(customer_id: int, departure: CheckView) -> TripView {
        TripView { customer_id, departure, return_trip: None }
    }

    /// The customer has not checked out yet.
    pub open spec fn is_open(self) -> bool {
        self.return_trip is None
    }

    /// The customer has checked out.
    pub open spec fn is_closed(self) -> bool {
        self.return_trip is Some
    }

    /// The trip belongs to `customer_id` and is still open.
    pub open spec fn is_open_for(self, customer_id: int) -> bool {
        self.customer_id == customer_id && self.is_open()
    }

    /// This trip, with `return_trip` as its check-out.
    pub open spec fn closed_at(self, return_trip: CheckView) -> TripView {
        TripView { return_trip: Some(return_trip), ..self }
    }

    /// The trip is closed and ended at `station`.
    pub open spec fn returns_to(self, station: Seq<char>) -> bool {
        self.return_trip matches Some(check) && check.station == station
    }

    /// The trip is closed, started at `start` and ended at `end`.
    pub open spec fn runs_between(self, start: Seq<char>, end: Seq<char>) -> bool {
        self.departure.station == start && self.returns_to(end)
    }

    /// How long the trip took: the return's timestamp minus the departure's.
    /// It is negative where the timestamps came out of order.
    pub open spec fn trip_time(self) -> int
        recommends
            self.is_closed(),
    {
        self.return_trip->0.t - self.departure.t
    }
}

/// A customer's journey: where and when it began and, once the customer has
/// checked out, where and when it ended.
#[derive(Debug)]
pub struct RoundTrip {
    pub customer_id: CustomerId,
    pub departure: Rc<Check>,
    pub return_trip: Option<Rc<Check>>,
}

impl View for RoundTrip {
    type V = TripView;

    open spec fn view(&self) -> TripView {
        TripView {
            customer_id: self.customer_id as int,
            departure: self.departure@,
            return_trip: match self.return_trip {
                Some(check) => Some(check@),
                None => None,
            },
        }
    }
}

/// The values of the trips in `trips`, in the same order.
pub open spec fn views_of(trips: Seq<RoundTrip>) -> Seq<TripView> {
    Seq::new(trips.len(), |i: int| trips[i]@)
}

/// The values of the trips that `trips` refers to, in the same order.
pub open spec fn views_of_refs(trips: Seq<&RoundTrip>) -> Seq<TripView> {
    Seq::new(trips.len(), |i: int| trips[i]@)
}

impl RoundTrip {
    /// Puts a trip together from its parts.
    pub fn new(customer_id: CustomerId, departure: Rc<Check>, return_trip: Option<Rc<Check>>) -> (trip:
        RoundTrip)
        ensures
            trip == (RoundTrip { customer_id, departure, return_trip }),
    {
        RoundTrip { customer_id, departure, return_trip }
    }

    /// Closes the trip with `return_trip`; a return that was there before is
    /// replaced.
    pub fn set_return(&mut self, return_trip: Rc<Check>)
        ensures
            *final(self) == (RoundTrip { return_trip: Some(return_trip), ..*old(self) }),
            final(self)@ == old(self)@.closed_at(return_trip@),
    {
        self.return_trip = Some(return_trip);
    }

    /// Tells whether the trip is closed and ended at `station_name`. Names are
    /// compared as they are, case included.
    pub fn returns_to_station(&self, station_name: String) -> (yes: bool)
        ensures
            yes == self@.returns_to(station_name@),
    {
        if let Some(check) = &self.return_trip {
            return check.station_name == station_name;
        } else {
            return false;
        }
    }

    /// The time between check-in and check-out of a closed trip.
    ///
    /// The difference of two timestamps always fits the result, so it is exact
    /// for every closed trip, also where it is negative.
    pub fn trip_time(&self) -> (time: i64)
        requires
            self@.is_closed(),
        ensures
            time == self@.trip_time(),
    {
        let check = self.return_trip.as_ref().unwrap();
        check.t as i64 - self.departure.t as i64
    }
}

} // verus!
