use vstd::prelude::*;
use rand::RngCore;
use crate::crypto::error::CryptoError;

verus! {

#[verifier::external_type_specification]
#[verifier::external_body]
pub struct ExRandError(rand::Error);

/// Calls `OsRng.try_fill_bytes(buffer)`. Claimed: the length of `buffer`
/// stays; nothing is claimed of the bytes, which come from the operating
/// system's generator.
#[verifier::external_body]
fn os_fill(buffer: &mut [u8]) -> (r: Result<(), rand::Error>)
    ensures
        final(buffer)@.len() == old(buffer)@.len(),
{
    rand::rngs::OsRng.try_fill_bytes(buffer)
}

/// `length` bytes from the operating system's generator, or
/// `RandomGenerationFailed`.
pub fn generate_random_bytes(length: usize) -> (r: Result<Vec<u8>, CryptoError>)
    ensures
        r matches Ok(v) ==> v@.len() == length,
        r matches Err(e) ==> e is RandomGenerationFailed,
{
    let mut buffer = vec![0u8; length];
    match os_fill(buffer.as_mut_slice()) {
        Ok(()) => Ok(buffer),
        Err(_) => Err(CryptoError::RandomGenerationFailed),
    }
}

/// `N` bytes from the operating system's generator, or
/// `RandomGenerationFailed`.
pub fn generate_random_array<const N: usize>() -> (r: Result<[u8; N], CryptoError>)
    ensures
        r matches Err(e) ==> e is RandomGenerationFailed,
{
    let mut buffer = [0u8; N];
    match os_fill(&mut buffer) {
        Ok(()) => Ok(buffer),
        Err(_) => Err(CryptoError::RandomGenerationFailed),
    }
}

} // verus!
