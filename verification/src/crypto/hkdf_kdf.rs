use vstd::prelude::*;
use crate::crypto::error::CryptoError;

verus! {

/// Longest output HKDF-SHA-256 can expand to: 255 blocks of 32 bytes.
pub const HKDF_MAX_OUTPUT: usize = 8160;

/// The first `len` bytes of HKDF-SHA-256 with input key material `ikm`,
/// salt `salt` and context `info`.
pub uninterp spec fn hkdf_sha256(ikm: Seq<u8>, salt: Seq<u8>, info: Seq<u8>, len: nat) -> Seq<u8>;

#[verifier::external_type_specification]
#[verifier::external_body]
pub struct ExInvalidLength(hkdf::InvalidLength);

/// Calls `hkdf::Hkdf::<Sha256>::new(Some(salt), ikm)` and `expand(info, okm)`.
/// Claimed, as the crate's source shows: it fails, leaving `okm` as it was,
/// exactly when `okm` is longer than `HKDF_MAX_OUTPUT`; otherwise `okm`
/// holds the HKDF output of its length.
#[verifier::external_body]
fn hkdf_expand(ikm: &[u8], salt: &[u8], info: &[u8], okm: &mut [u8]) -> (r: Result<(), hkdf::InvalidLength>)
    ensures
        final(okm)@.len() == old(okm)@.len(),
        r is Ok <==> old(okm)@.len() <= HKDF_MAX_OUTPUT,
        r is Ok ==> final(okm)@ == hkdf_sha256(ikm@, salt@, info@, old(okm)@.len()),
        r is Err ==> final(okm)@ == old(okm)@,
{
    hkdf::Hkdf::<sha2::Sha256>::new(Some(salt), ikm).expand(info, okm)
}

/// Derives 32 bytes with HKDF-SHA-256; it never fails.
pub fn derive(ikm: &[u8], salt: &[u8], info: &[u8]) -> (r: Result<[u8; 32], CryptoError>)
    ensures
        r matches Ok(k) && k@ == hkdf_sha256(ikm@, salt@, info@, 32),
{
    let mut output = [0u8; 32];
    match hkdf_expand(ikm, salt, info, &mut output) {
        Ok(()) => Ok(output),
        Err(_) => Err(CryptoError::HkdfDerivationFailed),
    }
}

/// Fills `output` with HKDF-SHA-256 output; refused with
/// `HkdfDerivationFailed`, `output` unchanged, when it is longer than
/// `HKDF_MAX_OUTPUT`.
pub fn derive_to_slice(ikm: &[u8], salt: &[u8], info: &[u8], output: &mut [u8]) -> (r: Result<(), CryptoError>)
    ensures
        final(output)@.len() == old(output)@.len(),
        r is Ok <==> old(output)@.len() <= HKDF_MAX_OUTPUT,
        r is Ok ==> final(output)@ == hkdf_sha256(ikm@, salt@, info@, old(output)@.len()),
        r matches Err(e) ==> final(output)@ == old(output)@ && e is HkdfDerivationFailed,
{
    match hkdf_expand(ikm, salt, info, output) {
        Ok(()) => Ok(()),
        Err(_) => Err(CryptoError::HkdfDerivationFailed),
    }
}

} // verus!
