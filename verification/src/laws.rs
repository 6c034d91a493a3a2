//! What holds of the ledger across its operations.

use crate::event::CheckView;
use crate::model::{after_step, after_steps, between, total_time, LedgerView, Step};
use crate::trip::TripView;
use vstd::prelude::*;

verus! {

/// The ledger without trips is consistent.
pub proof fn lemma_empty_is_consistent()
    ensures
        LedgerView::empty().consistent(),
{
}

/// A check-in that is accepted keeps a consistent ledger consistent.
pub proof fn lemma_check_in_keeps_consistency(
    ledger: LedgerView,
    customer_id: int,
    event: CheckView,
)
    requires
        ledger.consistent(),
        !ledger.open.contains(event),
    ensures
        ledger.after_check_in(customer_id, event).consistent(),
{
    let after = ledger.after_check_in(customer_id, event);
    let last = ledger.trips.len() as int;
    assert forall|e: CheckView| #[trigger] after.open.contains(e) <==> after.departs_open(e) by {
        if after.open.contains(e) {
            if e == event {
                assert(after.trips[last].is_open() && after.trips[last].departure == e);
            } else {
                let i = choose|i: int|
                    0 <= i < ledger.trips.len() && (#[trigger] ledger.trips[i]).is_open()
                        && ledger.trips[i].departure == e;
                assert(after.trips[i].is_open() && after.trips[i].departure == e);
            }
        }
    }
}

/// A check-out of a customer with an open trip keeps a consistent ledger
/// consistent.
pub proof fn lemma_check_out_keeps_consistency(
    ledger: LedgerView,
    customer_id: int,
    event: CheckView,
)
    requires
        ledger.consistent(),
        ledger.has_open_trip(customer_id),
    ensures
        ledger.after_check_out(customer_id, event).consistent(),
{
    ledger.lemma_first_open_trip(customer_id);
    let after = ledger.after_check_out(customer_id, event);
    let closed = ledger.first_open_trip(customer_id);
    assert forall|e: CheckView| #[trigger] after.open.contains(e) <==> after.departs_open(e) by {
        if after.open.contains(e) {
            let i = choose|i: int|
                0 <= i < ledger.trips.len() && (#[trigger] ledger.trips[i]).is_open()
                    && ledger.trips[i].departure == e;
            assert(after.trips[i].is_open() && after.trips[i].departure == e);
        }
    }
}

/// A check-in with the departure of an open trip is refused for as long as
/// the trip is open, and accepted again once the check-out that closes this
/// trip has happened.
///
/// Whether a check-in is refused is decided by `open`: it is refused exactly
/// when `open` holds its event.
pub proof fn lemma_check_in_again_after_check_out(
    ledger: LedgerView,
    customer_id: int,
    event: CheckView,
)
    requires
        ledger.consistent(),
        ledger.has_open_trip(customer_id),
    ensures
        ledger.open.contains(ledger.trips[ledger.first_open_trip(customer_id)].departure),
        !ledger.after_check_out(customer_id, event).open.contains(
            ledger.trips[ledger.first_open_trip(customer_id)].departure,
        ),
{
    ledger.lemma_first_open_trip(customer_id);
}

/// After a check-in was accepted, a second one with the same event is
/// refused, whoever the customer is: the event is in progress.
pub proof fn lemma_check_in_blocks_its_event(ledger: LedgerView, customer_id: int, event: CheckView)
    ensures
        ledger.after_check_in(customer_id, event).open.contains(event),
        ledger.after_check_in(customer_id, event).has_open_trip(customer_id),
{
    let after = ledger.after_check_in(customer_id, event);
    assert(after.trips[ledger.trips.len() as int].is_open_for(customer_id));
}

/// A check-out closes the trip with the event it is given: the trip time is
/// the event's timestamp minus the departure's, whatever their order.
pub proof fn lemma_check_out_fixes_trip_time(ledger: LedgerView, customer_id: int, event: CheckView)
    requires
        ledger.has_open_trip(customer_id),
    ensures
        ({
            let i = ledger.first_open_trip(customer_id);
            let after = ledger.after_check_out(customer_id, event);
            &&& after.trips[i].is_closed()
            &&& after.trips[i].customer_id == customer_id
            &&& after.trips[i].departure == ledger.trips[i].departure
            &&& after.trips[i].trip_time() == event.t - ledger.trips[i].departure.t
        }),
{
    ledger.lemma_first_open_trip(customer_id);
}

/// A check-in of a customer without an open trip opens the trip that the
/// customer's next check-out closes: it comes last in the ledger and departs
/// with the event of the check-in.
pub proof fn lemma_check_in_opens_the_trip_to_close(
    ledger: LedgerView,
    customer_id: int,
    event: CheckView,
)
    requires
        !ledger.has_open_trip(customer_id),
    ensures
        ({
            let after = ledger.after_check_in(customer_id, event);
            &&& after.has_open_trip(customer_id)
            &&& after.first_open_trip(customer_id) == ledger.trips.len()
            &&& after.trips[after.first_open_trip(customer_id)] == TripView::opened(
                customer_id,
                event,
            )
        }),
{
    let after = ledger.after_check_in(customer_id, event);
    assert(after.is_first_open_trip(customer_id, ledger.trips.len() as int));
    after.lemma_first_open_trip(customer_id);
}

/// What other customers do in between does not change which trip a check-out
/// closes: after a check-in or a check-out of another customer, the first
/// open trip of `customer_id` is the same trip in the same place.
pub proof fn lemma_other_customers_do_not_interfere(
    ledger: LedgerView,
    customer_id: int,
    other: int,
    event: CheckView,
)
    requires
        ledger.has_open_trip(customer_id),
        other != customer_id,
    ensures
        ({
            let i = ledger.first_open_trip(customer_id);
            let after = ledger.after_check_in(other, event);
            &&& after.has_open_trip(customer_id)
            &&& after.first_open_trip(customer_id) == i
            &&& after.trips[i] == ledger.trips[i]
        }),
        ledger.has_open_trip(other) ==> ({
            let i = ledger.first_open_trip(customer_id);
            let after = ledger.after_check_out(other, event);
            &&& after.has_open_trip(customer_id)
            &&& after.first_open_trip(customer_id) == i
            &&& after.trips[i] == ledger.trips[i]
        }),
{
    ledger.lemma_first_open_trip(customer_id);
    let i = ledger.first_open_trip(customer_id);
    let after = ledger.after_check_in(other, event);
    assert(after.is_first_open_trip(customer_id, i));
    after.lemma_first_open_trip(customer_id);
    if ledger.has_open_trip(other) {
        ledger.lemma_first_open_trip(other);
        let after = ledger.after_check_out(other, event);
        assert(after.is_first_open_trip(customer_id, i));
        after.lemma_first_open_trip(customer_id);
    }
}

/// No operation removes a trip or touches a closed one: after a check-in and
/// after a check-out every trip is where it was, and every closed trip is
/// what it was.
pub proof fn lemma_closed_trips_stay(ledger: LedgerView, customer_id: int, event: CheckView)
    ensures
        ledger.after_check_in(customer_id, event).trips.len() == ledger.trips.len() + 1,
        forall|i: int|
            0 <= i < ledger.trips.len() ==> #[trigger] ledger.after_check_in(
                customer_id,
                event,
            ).trips[i] == ledger.trips[i],
        ledger.has_open_trip(customer_id) ==> {
            &&& ledger.after_check_out(customer_id, event).trips.len() == ledger.trips.len()
            &&& forall|i: int|
                0 <= i < ledger.trips.len() && ledger.trips[i].is_closed()
                    ==> #[trigger] ledger.after_check_out(customer_id, event).trips[i]
                    == ledger.trips[i]
        },
{
    if ledger.has_open_trip(customer_id) {
        ledger.lemma_first_open_trip(customer_id);
    }
}

/// The sum of the trip times of two runs of trips is the sum of the two sums.
pub proof fn lemma_total_time_of_both(first: Seq<TripView>, second: Seq<TripView>)
    ensures
        total_time(first + second) == total_time(first) + total_time(second),
    decreases second.len(),
{
    if second.len() > 0 {
        assert((first + second).drop_last() =~= first + second.drop_last());
        lemma_total_time_of_both(first, second.drop_last());
    }
}

/// Filtering a single trip keeps it or leaves nothing.
proof fn lemma_filter_one(trip: TripView, wanted: spec_fn(TripView) -> bool)
    ensures
        seq![trip].filter(wanted) == if wanted(trip) {
            seq![trip]
        } else {
            Seq::<TripView>::empty()
        },
{
    reveal_with_fuel(Seq::filter, 2);
}

/// A trip that does not run from `start` to `end`, be it open or between
/// other stations, has no part in the trips between them, wherever it stands
/// in the ledger.
pub proof fn lemma_other_trips_do_not_count(
    trips: Seq<TripView>,
    i: int,
    other: TripView,
    start: Seq<char>,
    end: Seq<char>,
)
    requires
        0 <= i <= trips.len(),
        !other.runs_between(start, end),
    ensures
        trips.insert(i, other).filter(between(start, end)) == trips.filter(between(start, end)),
{
    let wanted = between(start, end);
    let head = trips.take(i);
    let tail = trips.skip(i);
    assert(trips =~= head + tail);
    assert(trips.insert(i, other) =~= (head + seq![other]) + tail);
    Seq::filter_distributes_over_add(head, tail, wanted);
    Seq::filter_distributes_over_add(head + seq![other], tail, wanted);
    Seq::filter_distributes_over_add(head, seq![other], wanted);
    lemma_filter_one(other, wanted);
}

/// A check-in changes no mean travel time: the trip it opens is not counted
/// between any two stations.
pub proof fn lemma_check_in_keeps_averages(
    ledger: LedgerView,
    customer_id: int,
    event: CheckView,
    start: Seq<char>,
    end: Seq<char>,
)
    ensures
        ledger.after_check_in(customer_id, event).trips_between(start, end)
            == ledger.trips_between(start, end),
{
    let opened = TripView::opened(customer_id, event);
    lemma_other_trips_do_not_count(ledger.trips, ledger.trips.len() as int, opened, start, end);
    assert(ledger.trips.insert(ledger.trips.len() as int, opened) =~= ledger.trips.push(opened));
}

/// A check-out adds the trip it closes to the trips between that trip's two
/// stations, and changes the trips between no other two: there the number of
/// trips grows by one and the sum of the trip times by the new trip time.
pub proof fn lemma_check_out_counts_once(
    ledger: LedgerView,
    customer_id: int,
    event: CheckView,
    start: Seq<char>,
    end: Seq<char>,
)
    requires
        ledger.has_open_trip(customer_id),
    ensures
        ({
            let closed = ledger.trips[ledger.first_open_trip(customer_id)].closed_at(event);
            let before = ledger.trips_between(start, end);
            let after = ledger.after_check_out(customer_id, event).trips_between(start, end);
            if closed.runs_between(start, end) {
                &&& after.len() == before.len() + 1
                &&& total_time(after) == total_time(before) + closed.trip_time()
            } else {
                after == before
            }
        }),
{
    ledger.lemma_first_open_trip(customer_id);
    let wanted = between(start, end);
    let i = ledger.first_open_trip(customer_id);
    let open = ledger.trips[i];
    let closed = open.closed_at(event);
    let head = ledger.trips.take(i);
    let tail = ledger.trips.skip(i + 1);
    assert(ledger.trips =~= (head + seq![open]) + tail);
    assert(ledger.trips.update(i, closed) =~= (head + seq![closed]) + tail);
    Seq::filter_distributes_over_add(head + seq![open], tail, wanted);
    Seq::filter_distributes_over_add(head, seq![open], wanted);
    Seq::filter_distributes_over_add(head + seq![closed], tail, wanted);
    Seq::filter_distributes_over_add(head, seq![closed], wanted);
    lemma_filter_one(open, wanted);
    lemma_filter_one(closed, wanted);
    if closed.runs_between(start, end) {
        lemma_total_time_of_both(head.filter(wanted) + seq![closed], tail.filter(wanted));
        lemma_total_time_of_both(head.filter(wanted), seq![closed]);
        lemma_total_time_of_both(head.filter(wanted), tail.filter(wanted));
        assert(total_time(seq![closed]) == closed.trip_time()) by {
            reveal_with_fuel(total_time, 2);
        }
    }
}

/// Whatever is asked of a ledger, in whatever order, it stays consistent.
pub proof fn lemma_every_ledger_is_consistent(steps: Seq<Step>)
    ensures
        after_steps(steps).consistent(),
    decreases steps.len(),
{
    if steps.len() == 0 {
        lemma_empty_is_consistent();
    } else {
        let before = after_steps(steps.drop_last());
        lemma_every_ledger_is_consistent(steps.drop_last());
        match steps.last() {
            Step::CheckIn { customer_id, event } => {
                if !before.open.contains(event) {
                    lemma_check_in_keeps_consistency(before, customer_id, event);
                }
            },
            Step::CheckOut { customer_id, event } => {
                if before.has_open_trip(customer_id) {
                    lemma_check_out_keeps_consistency(before, customer_id, event);
                }
            },
        }
    }
}

} // verus!
