use vstd::prelude::*;

verus! {

#[verifier::external_type_specification]
#[verifier::external_body]
pub struct ExIoError(std::io::Error);

/// Every way a database operation can fail.
#[derive(Debug)]
pub enum DatabaseError {
    Io(std::io::Error),
    Wal(String),
    Sequence(String),
    Materializer(String),
    QueueFull(String),
    Backpressure(String),
    CrcMismatch { index: u64 },
    NotFound(String),
}

/// Calls `std::io::Error::from(std::io::ErrorKind::UnexpectedEof)`, the
/// error a read past the end of a file reports. Nothing is claimed of it.
#[verifier::external_body]
pub(crate) fn unexpected_eof() -> std::io::Error {
    std::io::Error::from(std::io::ErrorKind::UnexpectedEof)
}

} // verus!
