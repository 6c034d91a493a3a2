//! The ledger as a mathematical value, and its operations as functions on
//! that value.

use crate::event::CheckView;
use crate::trip::TripView;
use vstd::prelude::*;

verus! {

/// The mathematical value of a ledger.
pub struct LedgerView {
    /// Every trip ever started, in the order of the check-ins.
    pub trips: Seq<TripView>,
    /// The events that stand for a check-in in progress.
    pub open: Set<CheckView>,
}

/// The predicate "runs from `start` to `end`" as a value, so that every
/// filter over it is the same filter.
pub open spec fn between(start: Seq<char>, end: Seq<char>) -> spec_fn(TripView) -> bool {
    |trip: TripView| trip.runs_between(start, end)
}

/// The sum of the trip times of `trips`.
pub open spec fn total_time(trips: Seq<TripView>) -> int
    decreases trips.len(),
{
    if trips.len() == 0 {
        0
    } else {
        total_time(trips.drop_last()) + trips.last().trip_time()
    }
}

/// One request to the ledger.
pub enum Step {
    /// A customer checks in with an event.
    CheckIn { customer_id: int, event: CheckView },
    /// A customer checks out with an event.
    CheckOut { customer_id: int, event: CheckView },
}

/// The ledger after one request: a check-in or check-out that is accepted
/// changes it, one that is refused leaves it as it is.
pub open spec fn after_step(ledger: LedgerView, step: Step) -> LedgerView {
    match step {
        Step::CheckIn { customer_id, event } => if ledger.open.contains(event) {
            ledger
        } else {
            ledger.after_check_in(customer_id, event)
        },
        Step::CheckOut { customer_id, event } => if ledger.has_open_trip(customer_id) {
            ledger.after_check_out(customer_id, event)
        } else {
            ledger
        },
    }
}

/// The ledger after the requests `steps`, made in this order of a ledger
/// without trips.
pub open spec fn after_steps(steps: Seq<Step>) -> LedgerView
    decreases steps.len(),
{
    if steps.len() == 0 {
        LedgerView::empty()
    } else {
        after_step(after_steps(steps.drop_last()), steps.last())
    }
}

impl LedgerView {
    /// The ledger before anything happened.
    pub open spec fn empty() -> LedgerView {
        LedgerView { trips: Seq::empty(), open: Set::empty() }
    }

    /// Some trip of `customer_id` is still open.
    pub open spec fn has_open_trip(self, customer_id: int) -> bool {
        exists|i: int|
            0 <= i < self.trips.len() && (#[trigger] self.trips[i]).is_open_for(customer_id)
    }

    /// Trip `i` is open and belongs to `customer_id`, and no trip before it
    /// does.
    pub open spec fn is_first_open_trip(self, customer_id: int, i: int) -> bool {
        &&& 0 <= i < self.trips.len()
        &&& self.trips[i].is_open_for(customer_id)
        &&& forall|j: int| 0 <= j < i ==> !(#[trigger] self.trips[j]).is_open_for(customer_id)
    }

    /// The place of the trip that a check-out of `customer_id` closes: the
    /// first one, in the order of the check-ins, that is open and belongs to
    /// the customer.
    pub open spec fn first_open_trip(self, customer_id: int) -> int
        recommends
            self.has_open_trip(customer_id),
    {
        choose|i: int| self.is_first_open_trip(customer_id, i)
    }

    /// Some open trip departs with `event`.
    pub open spec fn departs_open(self, event: CheckView) -> bool {
        exists|i: int|
            0 <= i < self.trips.len() && (#[trigger] self.trips[i]).is_open()
                && self.trips[i].departure == event
    }

    /// The ledger after `customer_id` has checked in with `event`.
    pub open spec fn after_check_in(self, customer_id: int, event: CheckView) -> LedgerView
        recommends
            !self.open.contains(event),
    {
        LedgerView {
            trips: self.trips.push(TripView::opened(customer_id, event)),
            open: self.open.insert(event),
        }
    }

    /// The ledger after `customer_id` has checked out with `event`: the
    /// customer's first open trip is closed, and its departure no longer
    /// counts as a check-in in progress.
    pub open spec fn after_check_out(self, customer_id: int, event: CheckView) -> LedgerView
        recommends
            self.has_open_trip(customer_id),
    {
        let i = self.first_open_trip(customer_id);
        LedgerView {
            trips: self.trips.update(i, self.trips[i].closed_at(event)),
            open: self.open.remove(self.trips[i].departure),
        }
    }

    /// The closed trips from `start` to `end`, in the order of their check-ins.
    pub open spec fn trips_between(self, start: Seq<char>, end: Seq<char>) -> Seq<TripView> {
        self.trips.filter(between(start, end))
    }

    /// The check-ins in progress are exactly the departures of the open
    /// trips, and no two open trips share a departure.
    pub open spec fn consistent(self) -> bool {
        &&& forall|event: CheckView| #[trigger]
            self.open.contains(event) <==> self.departs_open(event)
        &&& forall|i: int, j: int|
            0 <= i < j < self.trips.len() && (#[trigger] self.trips[i]).is_open() && (
            #[trigger] self.trips[j]).is_open() ==> self.trips[i].departure
                != self.trips[j].departure
    }

    /// Where a customer has an open trip, exactly one place is that of the
    /// first open one.
    pub proof fn lemma_first_open_trip(self, customer_id: int)
        requires
            self.has_open_trip(customer_id),
        ensures
            self.is_first_open_trip(customer_id, self.first_open_trip(customer_id)),
            forall|i: int| #[trigger]
                self.is_first_open_trip(customer_id, i) ==> i == self.first_open_trip(customer_id),
    {
        let some = choose|i: int|
            0 <= i < self.trips.len() && (#[trigger] self.trips[i]).is_open_for(customer_id);
        self.lemma_first_open_trip_before(customer_id, some);
    }

    proof fn lemma_first_open_trip_before(self, customer_id: int, i: int)
        requires
            0 <= i < self.trips.len(),
            self.trips[i].is_open_for(customer_id),
        ensures
            exists|first: int| self.is_first_open_trip(customer_id, first),
        decreases i,
    {
        if exists|j: int| 0 <= j < i && (#[trigger] self.trips[j]).is_open_for(customer_id) {
            let j = choose|j: int| 0 <= j < i && (#[trigger] self.trips[j]).is_open_for(customer_id);
            self.lemma_first_open_trip_before(customer_id, j);
        } else {
            assert(self.is_first_open_trip(customer_id, i));
        }
    }
}

} // verus!
