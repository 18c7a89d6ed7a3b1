use vstd::prelude::*;
use ed25519_dalek::{Signer, Verifier};
use crate::crypto::constants::ED25519_SIGNATURE_SIZE;
use crate::crypto::error::CryptoError;

verus! {

/// The Ed25519 public key of the 32-byte secret key (seed) `seed`.
pub uninterp spec fn ed25519_public(seed: Seq<u8>) -> Seq<u8>;

/// The Ed25519 signature of `message` under the secret key `seed`.
pub uninterp spec fn ed25519_signature(seed: Seq<u8>, message: Seq<u8>) -> Seq<u8>;

/// Whether Ed25519 verification accepts `signature` on `message` under
/// the public key bytes `public`.
pub uninterp spec fn ed25519_verifies(public: Seq<u8>, message: Seq<u8>, signature: Seq<u8>) -> bool;

/// Whether strict Ed25519 verification accepts `signature` on `message`
/// under the public key bytes `public`.
pub uninterp spec fn ed25519_verifies_strict(public: Seq<u8>, message: Seq<u8>, signature: Seq<u8>) -> bool;

/// Whether `public` is the encoding of a curve point (a usable public key).
pub uninterp spec fn ed25519_point_valid(public: Seq<u8>) -> bool;

/// Calls `SigningKey::generate(&mut OsRng)` and `to_bytes`. Nothing is
/// claimed of the secret key, which is random.
#[verifier::external_body]
pub(crate) fn ed25519_random_seed() -> [u8; 32] {
    ed25519_dalek::SigningKey::generate(&mut rand::rngs::OsRng).to_bytes()
}

/// Calls `SigningKey::from_bytes(seed).verifying_key().to_bytes()`.
/// Claimed: the result is the public key of `seed`, and it is the encoding
/// of a curve point (the crate derives it by multiplying the base point).
#[verifier::external_body]
pub(crate) fn ed25519_public_of(seed: &[u8; 32]) -> (r: [u8; 32])
    ensures
        r@ == ed25519_public(seed@),
        ed25519_point_valid(r@),
{
    ed25519_dalek::SigningKey::from_bytes(seed).verifying_key().to_bytes()
}

/// Calls `SigningKey::from_bytes(seed).sign(message).to_bytes()`. Claimed:
/// the result is the (deterministic) Ed25519 signature.
#[verifier::external_body]
pub(crate) fn ed25519_sign_with(seed: &[u8; 32], message: &[u8]) -> (r: [u8; ED25519_SIGNATURE_SIZE])
    ensures
        r@ == ed25519_signature(seed@, message@),
{
    ed25519_dalek::SigningKey::from_bytes(seed).sign(message).to_bytes()
}

#[verifier::external_type_specification]
#[verifier::external_body]
pub struct ExSignatureError(ed25519_dalek::SignatureError);

/// Calls `VerifyingKey::from_bytes(public)` and `Verifier::verify`.
/// Claimed: the result is `Ok` exactly when verification accepts; it
/// accepts a signature that the secret key of `public` made on `message`
/// (Ed25519 correctness).
#[verifier::external_body]
pub(crate) fn ed25519_verify_with(public: &[u8; 32], message: &[u8], signature: &[u8; ED25519_SIGNATURE_SIZE]) -> (r: Result<(), ed25519_dalek::SignatureError>)
    ensures
        r is Ok <==> ed25519_verifies(public@, message@, signature@),
        (exists|seed: Seq<u8>|
            seed.len() == 32 && public@ == ed25519_public(seed)
                && signature@ == #[trigger] ed25519_signature(seed, message@)) ==> r is Ok,
{
    let key = ed25519_dalek::VerifyingKey::from_bytes(public)?;
    key.verify(message, &ed25519_dalek::Signature::from_bytes(signature))
}

/// Calls `VerifyingKey::from_bytes(public)`. Claimed: it succeeds exactly
/// when `public` encodes a curve point.
#[verifier::external_body]
pub(crate) fn ed25519_key_check(public: &[u8; 32]) -> (r: Result<(), ed25519_dalek::SignatureError>)
    ensures
        r is Ok <==> ed25519_point_valid(public@),
{
    ed25519_dalek::VerifyingKey::from_bytes(public).map(|_| ())
}

/// Calls `VerifyingKey::from_bytes(public)` and `verify_strict`. Claimed:
/// the result is `Ok` exactly when strict verification accepts, which it
/// never does for bytes that are not a curve point.
#[verifier::external_body]
pub(crate) fn ed25519_verify_strict_with(public: &[u8; 32], message: &[u8], signature: &[u8; ED25519_SIGNATURE_SIZE]) -> (r: Result<(), ed25519_dalek::SignatureError>)
    ensures
        r is Ok <==> ed25519_verifies_strict(public@, message@, signature@),
        r is Ok ==> ed25519_point_valid(public@),
{
    let key = ed25519_dalek::VerifyingKey::from_bytes(public)?;
    key.verify_strict(message, &ed25519_dalek::Signature::from_bytes(signature))
}

/// The Ed25519 signature of `message` under the secret key `signing_key`.
pub fn sign(signing_key: &[u8; 32], message: &[u8]) -> (r: [u8; ED25519_SIGNATURE_SIZE])
    ensures
        r@ == ed25519_signature(signing_key@, message@),
{
    ed25519_sign_with(signing_key, message)
}

/// Ed25519 verification; refused with `SignatureVerificationFailed`.
pub fn verify(verifying_key: &[u8; 32], message: &[u8], signature: &[u8; ED25519_SIGNATURE_SIZE]) -> (r: Result<(), CryptoError>)
    ensures
        r is Ok <==> ed25519_verifies(verifying_key@, message@, signature@),
        r matches Err(e) ==> e is SignatureVerificationFailed,
        (exists|seed: Seq<u8>|
            seed.len() == 32 && verifying_key@ == ed25519_public(seed)
                && signature@ == #[trigger] ed25519_signature(seed, message@)) ==> r is Ok,
{
    match ed25519_verify_with(verifying_key, message, signature) {
        Ok(()) => Ok(()),
        Err(_) => Err(CryptoError::SignatureVerificationFailed),
    }
}

} // verus!
