pub mod config;
pub mod error;
pub mod wal;
pub mod sequence;
pub mod materializer;
pub mod message_store;
pub mod backpressure;
