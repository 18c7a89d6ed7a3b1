use vstd::prelude::*;

verus! {

/// Every way a cryptographic operation can fail.
#[derive(Debug)]
pub enum CryptoError {
    EncryptionFailed,
    DecryptionFailed,
    KeyGenerationFailed,
    InvalidKeyLength,
    SignatureVerificationFailed,
    RandomGenerationFailed,
    HkdfDerivationFailed,
    HmacComputationFailed,
    TooManySkippedMessages(u64),
    X3DHFailed,
    IdentityKeyMismatch,
    HeaderDecryptionFailed,
}

} // verus!
