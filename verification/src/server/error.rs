use vstd::prelude::*;
use crate::database::error::DatabaseError;

verus! {

/// Every way a relay server operation can fail.
#[derive(Debug)]
pub enum RmpError {
    Database(DatabaseError),
    Io(std::io::Error),
    Metrics(String),
    Backpressure(String),
    Shutdown,
    Partition(String),
    StaleEpoch(u64, u64),
    RetryExhausted(String),
}

} // verus!
