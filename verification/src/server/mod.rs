pub mod config;
pub mod error;
pub mod fencing;
pub mod partition;
pub mod dlq;
pub mod backpressure;
pub mod checkpoint;
pub mod wal_reader;
pub mod retry;
pub mod consumer;
pub mod worker;
