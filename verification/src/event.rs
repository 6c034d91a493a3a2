//! Check events: a station name and a timestamp.

use std::rc::Rc;
use vstd::prelude::*;

verus! {

/// A point in time.
pub type Timestamp = i32;

/// Identifies a customer.
pub type CustomerId = i32;

/// The mathematical value of a check event: the station's name as a sequence
/// of characters and the timestamp as an unbounded integer.
pub struct CheckView {
    pub station: Seq<char>,
    pub t: int,
}

/// An immutable fact: a customer was at station `station_name` at time `t`.
///
/// Two events are equal when both fields are.
#[derive(Debug, Hash)]
pub struct Check {
    pub station_name: String,
    pub t: Timestamp,
}

impl View for Check {
    type V = CheckView;

    open spec fn view(&self) -> CheckView {
        event(self.station_name@, self.t as int)
    }
}

/// The event at `station` at time `t`.
pub open spec fn event(station: Seq<char>, t: int) -> CheckView {
    CheckView { station, t }
}

impl Check {
    /// Records a new event behind a shared pointer, so that a trip and the
    /// index of open check-ins can both hold it without copying it.
    pub fn new(station_name: String, t: Timestamp) -> (check: Rc<Check>)
        ensures
            check@ == event(station_name@, t as int),
    {
        let c = Check { station_name, t };
        Rc::new(c)
    }
}

impl PartialEq for Check {
    fn eq(&self, other: &Check) -> (same: bool) {
        self.t == other.t && self.station_name == other.station_name
    }
}

impl vstd::std_specs::cmp::PartialEqSpecImpl for Check {
    open spec fn obeys_eq_spec() -> bool {
        true
    }

    open spec fn eq_spec(&self, other: &Check) -> bool {
        self@ == other@
    }
}

impl Eq for Check {}

/// Hands out another pointer to the event that `check` points to.
///
/// Calls `Rc::clone` of the standard library, for which the verifier has no
/// specification of its own. The contract claims what the documentation of
/// `Rc` says: the new pointer refers to the same allocation, so the value
/// behind it is the value behind `check`.
#[verifier::external_body]
pub(crate) fn share(check: &Rc<Check>) -> (shared: Rc<Check>)
    ensures
        *shared == **check,
{
    Rc::clone(check)
}

} // verus!
