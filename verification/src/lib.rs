//! Verified core of the runter messaging stack: the relay protocol's
//! queues and sessions, the end-to-end cryptography, the write-ahead
//! log's byte format and the relay server's bookkeeping.

pub mod agent;
pub mod bytes;
pub mod crypto;
pub mod database;
pub mod protocol;
pub mod server;
