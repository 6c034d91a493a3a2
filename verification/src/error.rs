//! The ways in which a ledger operation can fail.

use vstd::prelude::*;

verus! {

/// Why the ledger refused an operation.
#[derive(Debug, Clone, Copy, PartialEq, Eq, Structural)]
pub enum LedgerError {
    /// A check-in names a station and a timestamp that an open check-in
    /// already holds.
    DuplicateCheckIn,
    /// A check-out names a customer who has no open trip.
    NoOpenTrip,
    /// No completed trip runs between the two stations of a query.
    NoMatchingTrips,
}

} // verus!
