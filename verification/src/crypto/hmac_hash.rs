use vstd::prelude::*;
use hmac::Mac;
use crate::crypto::error::CryptoError;

verus! {

/// The HMAC-SHA-256 tag of `message` under `key`.
pub uninterp spec fn hmac_sha256(key: Seq<u8>, message: Seq<u8>) -> Seq<u8>;

#[verifier::external_type_specification]
#[verifier::external_body]
pub struct ExMacKeyLength(hmac::digest::InvalidLength);

/// Calls `Hmac::<Sha256>::new_from_slice(key)`, `update(message)` and
/// `finalize()`. Claimed, as the crate's source shows: HMAC accepts a key of
/// any length, so the result is always the 32-byte tag.
#[verifier::external_body]
fn hmac_sha256_tag(key: &[u8], message: &[u8]) -> (r: Result<[u8; 32], hmac::digest::InvalidLength>)
    ensures
        r is Ok,
        r matches Ok(t) ==> t@ == hmac_sha256(key@, message@),
{
    let mut mac = hmac::Hmac::<sha2::Sha256>::new_from_slice(key)?;
    mac.update(message);
    Ok(mac.finalize().into_bytes().into())
}

/// The HMAC-SHA-256 tag of `message` under `key`; it never fails.
pub fn compute(key: &[u8], message: &[u8]) -> (r: Result<[u8; 32], CryptoError>)
    ensures
        r matches Ok(t) && t@ == hmac_sha256(key@, message@),
{
    match hmac_sha256_tag(key, message) {
        Ok(t) => Ok(t),
        Err(_) => Err(CryptoError::HmacComputationFailed),
    }
}

} // verus!
