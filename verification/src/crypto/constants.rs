use vstd::prelude::*;

verus! {

/// Bytes in an AES-GCM nonce.
pub const AES_NONCE_SIZE: usize = 12;
/// Bytes in an AES-GCM authentication tag.
pub const AES_TAG_SIZE: usize = 16;
/// Bytes in an Ed25519 signature.
pub const ED25519_SIGNATURE_SIZE: usize = 64;
/// Bytes in the header in front of every ratchet message: the sender's
/// ratchet public key, the message number, and reserved zero bytes.
pub const HEADER_LENGTH: usize = 64;
/// How many message keys a receiving chain may skip at once.
pub const MAX_SKIP_MESSAGES: u64 = 1000;

} // verus!
