use vstd::prelude::*;
use aes_gcm::aead::{Aead, KeyInit, Payload};
use crate::crypto::constants::AES_NONCE_SIZE;
use crate::crypto::error::CryptoError;

verus! {

/// Longest plaintext, and longest associated data, that AES-GCM accepts
/// (`aes_gcm::P_MAX`, `aes_gcm::A_MAX`).
pub const AES_GCM_MAX_INPUT: u64 = 0x10_0000_0000;

/// The AES-256-GCM ciphertext (with the 16-byte tag appended) of `pt` under
/// `key`, `nonce` and associated data `aad`.
pub uninterp spec fn aes256gcm_seal(key: Seq<u8>, nonce: Seq<u8>, pt: Seq<u8>, aad: Seq<u8>) -> Seq<u8>;

/// The AES-256-GCM decryption of `ct` (tag appended) under `key`, `nonce`
/// and `aad`: the plaintext when the tag authenticates, else `None`.
pub uninterp spec fn aes256gcm_open(key: Seq<u8>, nonce: Seq<u8>, ct: Seq<u8>, aad: Seq<u8>) -> Option<Seq<u8>>;

#[verifier::external_type_specification]
#[verifier::external_body]
pub struct ExAeadError(aes_gcm::Error);

/// Calls `Aead::encrypt` of `aes_gcm::Aes256Gcm`. Claimed, as the crate's
/// source shows: it fails exactly when the plaintext or the associated data
/// is longer than `AES_GCM_MAX_INPUT`; otherwise it returns the ciphertext
/// followed by the 16-byte tag, a function of the four inputs.
#[verifier::external_body]
fn aes256gcm_encrypt(key: &[u8; 32], nonce: &[u8; AES_NONCE_SIZE], plaintext: &[u8], aad: &[u8]) -> (r: Result<Vec<u8>, aes_gcm::Error>)
    ensures
        r is Ok <==> (plaintext@.len() <= AES_GCM_MAX_INPUT && aad@.len() <= AES_GCM_MAX_INPUT),
        r matches Ok(c) ==> c@ == aes256gcm_seal(key@, nonce@, plaintext@, aad@)
            && c@.len() == plaintext@.len() + 16,
{
    let cipher = aes_gcm::Aes256Gcm::new(aes_gcm::Key::<aes_gcm::Aes256Gcm>::from_slice(key));
    cipher.encrypt(aes_gcm::Nonce::from_slice(nonce), Payload { msg: plaintext, aad })
}

/// Calls `Aead::decrypt` of `aes_gcm::Aes256Gcm`. Claimed: the result is
/// the plaintext exactly when `aes256gcm_open` gives one; a ciphertext
/// shorter than the tag is refused; and a ciphertext that encryption
/// produced under the same key, nonce and associated data decrypts to the
/// plaintext that was encrypted (AEAD correctness).
#[verifier::external_body]
fn aes256gcm_decrypt(key: &[u8; 32], nonce: &[u8; AES_NONCE_SIZE], ciphertext: &[u8], aad: &[u8]) -> (r: Result<Vec<u8>, aes_gcm::Error>)
    ensures
        r matches Ok(p) ==> aes256gcm_open(key@, nonce@, ciphertext@, aad@) == Some(p@),
        r is Err ==> aes256gcm_open(key@, nonce@, ciphertext@, aad@) is None,
        ciphertext@.len() < 16 ==> r is Err,
        (exists|p: Seq<u8>|
            p.len() <= AES_GCM_MAX_INPUT && aad@.len() <= AES_GCM_MAX_INPUT
                && ciphertext@ == #[trigger] aes256gcm_seal(key@, nonce@, p, aad@)) ==> r is Ok,
        r matches Ok(q) ==> forall|p: Seq<u8>|
            p.len() <= AES_GCM_MAX_INPUT && aad@.len() <= AES_GCM_MAX_INPUT
                && ciphertext@ == #[trigger] aes256gcm_seal(key@, nonce@, p, aad@) ==> q@ == p,
{
    let cipher = aes_gcm::Aes256Gcm::new(aes_gcm::Key::<aes_gcm::Aes256Gcm>::from_slice(key));
    cipher.decrypt(aes_gcm::Nonce::from_slice(nonce), Payload { msg: ciphertext, aad })
}

/// AES-256-GCM encryption: the ciphertext with the tag appended, or
/// `EncryptionFailed` when an input is too long.
pub fn encrypt(key: &[u8; 32], nonce: &[u8; AES_NONCE_SIZE], plaintext: &[u8], aad: &[u8]) -> (r: Result<Vec<u8>, CryptoError>)
    ensures
        r is Ok <==> (plaintext@.len() <= AES_GCM_MAX_INPUT && aad@.len() <= AES_GCM_MAX_INPUT),
        r matches Ok(c) ==> c@ == aes256gcm_seal(key@, nonce@, plaintext@, aad@)
            && c@.len() == plaintext@.len() + 16,
        r matches Err(e) ==> e is EncryptionFailed,
{
    match aes256gcm_encrypt(key, nonce, plaintext, aad) {
        Ok(c) => Ok(c),
        Err(_) => Err(CryptoError::EncryptionFailed),
    }
}

/// AES-256-GCM decryption: the plaintext, or `DecryptionFailed` when the
/// tag does not authenticate.
pub fn decrypt(key: &[u8; 32], nonce: &[u8; AES_NONCE_SIZE], ciphertext: &[u8], aad: &[u8]) -> (r: Result<Vec<u8>, CryptoError>)
    ensures
        match r {
            Ok(p) => aes256gcm_open(key@, nonce@, ciphertext@, aad@) == Some(p@),
            Err(e) => aes256gcm_open(key@, nonce@, ciphertext@, aad@) is None && e is DecryptionFailed,
        },
        forall|p: Seq<u8>|
            p.len() <= AES_GCM_MAX_INPUT && aad@.len() <= AES_GCM_MAX_INPUT
                && ciphertext@ == #[trigger] aes256gcm_seal(key@, nonce@, p, aad@)
                ==> (r matches Ok(q) && q@ == p),
{
    match aes256gcm_decrypt(key, nonce, ciphertext, aad) {
        Ok(p) => Ok(p),
        Err(_) => Err(CryptoError::DecryptionFailed),
    }
}

} // verus!
