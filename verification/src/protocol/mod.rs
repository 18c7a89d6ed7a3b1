pub mod constants;
pub mod error;
pub mod types;
pub mod queue;
pub mod session;
pub mod handshake;
pub mod transport;
pub mod client;
