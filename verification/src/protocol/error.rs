use vstd::prelude::*;

verus! {

/// Every way a relay request can be refused.
#[derive(Debug)]
pub enum ProtocolError {
    InvalidFrame(String),
    NonceMismatch,
    NonceAlreadyUsed,
    NonceExpired,
    AuthenticationFailed(String),
    DecodingFailed(String),
    EncodingFailed(String),
    InvalidQueueName(String),
    QueueNameExists,
    QueueNotFound,
    QueueError(String),
    TooManyQueues,
    TooManySubscribers,
    PayloadTooLarge(usize),
    MessageExpired,
    Backpressure,
    Timeout,
    ConnectionClosed,
    TransportError(String),
    UnexpectedCommand(String),
}

} // verus!
