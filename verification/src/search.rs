//! Lookups over the trips of a ledger.

use crate::event::CustomerId;
use crate::model::between;
use crate::system::UndergroundSystem;
use crate::trip::{views_of_refs, RoundTrip, TripView};
use vstd::prelude::*;

verus! {

/// Finds the trip that a check-out of `customer_id` has to close: the first
/// one, in the order of the check-ins, that belongs to the customer and is
/// still open. Returns `None` if the customer has no open trip.
///
/// The ledger afterwards is the ledger before with whatever the caller
/// leaves behind the returned reference in that trip's place. The check-ins
/// in progress are not touched: it is `check_out` that closes a trip and
/// takes its departure out of them.
pub fn trips_by_customer_id(usys: &mut UndergroundSystem, customer_id: CustomerId) -> (found:
    Option<&mut RoundTrip>)
    ensures
        match found {
            Some(trip) => {
                let i = old(usys)@.first_open_trip(customer_id as int);
                &&& old(usys)@.has_open_trip(customer_id as int)
                &&& trip@ == old(usys)@.trips[i]
                &&& final(usys)@.trips == old(usys)@.trips.update(i, final(trip)@)
                &&& final(usys)@.open == old(usys)@.open
            },
            None => !old(usys)@.has_open_trip(customer_id as int) && final(usys)@ == old(usys)@,
        },
{
    let mut i: usize = 0;
    while i < usys.trips.len()
        invariant
            i <= usys.trips.len(),
            *usys == *old(usys),
            forall|j: int| 0 <= j < i ==> !(#[trigger] usys@.trips[j]).is_open_for(customer_id as int),
        decreases usys.trips.len() - i,
    {
        if usys.trips[i].customer_id == customer_id && usys.trips[i].return_trip.is_none() {
            proof {
                assert(usys@.is_first_open_trip(customer_id as int, i as int));
                usys@.lemma_first_open_trip(customer_id as int);
            }
            return Some(&mut usys.trips[i]);
        }
        i += 1;
    }
    None
}

/// Collects the closed trips that started at `start_station` and ended at
/// `end_station`, in the order of their check-ins.
pub fn trips_by_stations(usys: &UndergroundSystem, start_station: String, end_station: String) -> (found:
    Vec<&RoundTrip>)
    ensures
        views_of_refs(found@) == usys@.trips_between(start_station@, end_station@),
{
    let mut found: Vec<&RoundTrip> = Vec::new();
    let mut i: usize = 0;
    while i < usys.trips.len()
        invariant
            i <= usys.trips.len(),
            views_of_refs(found@) == usys@.trips.take(i as int).filter(
                between(start_station@, end_station@),
            ),
        decreases usys.trips.len() - i,
    {
        let t = &usys.trips[i];
        proof {
            lemma_filter_next(usys@.trips, i as int, between(start_station@, end_station@));
        }
        if t.departure.station_name == start_station && t.return_trip.is_some()
            && t.returns_to_station(end_station.clone()) {
            found.push(t);
        }
        i += 1;
    }
    assert(usys@.trips.take(i as int) =~= usys@.trips);
    found
}

/// Filtering one element more either appends that element or changes nothing.
proof fn lemma_filter_next(trips: Seq<TripView>, i: int, wanted: spec_fn(TripView) -> bool)
    requires
        0 <= i < trips.len(),
    ensures
        trips.take(i + 1).filter(wanted) == if wanted(trips[i]) {
            trips.take(i).filter(wanted).push(trips[i])
        } else {
            trips.take(i).filter(wanted)
        },
{
    reveal(Seq::filter);
    assert(trips.take(i + 1).drop_last() =~= trips.take(i));
}

} // verus!
