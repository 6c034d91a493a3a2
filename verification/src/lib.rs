//! An in-memory trip ledger for an underground transit network.
//!
//! Customers check in at a station and check out at another one; the ledger
//! keeps every trip and answers queries for the mean travel time between an
//! ordered pair of stations.
//!
//! Every operation has a contract over [`model::LedgerView`], the ledger as a
//! mathematical value; [`laws`] holds what follows across operations.

pub mod error;
pub mod event;
pub mod laws;
pub mod model;
pub mod open_set;
pub mod search;
pub mod system;
pub mod trip;

pub use crate::error::LedgerError;
pub use crate::event::{Check, CustomerId, Timestamp};
pub use crate::open_set::OpenCheckIns;
pub use crate::search::{trips_by_customer_id, trips_by_stations};
pub use crate::system::{AverageTime, UndergroundSystem};
pub use crate::trip::RoundTrip;
