pub mod constants;
pub mod error;
pub mod hash;
pub mod aes_gcm_cipher;
pub mod hkdf_kdf;
pub mod hmac_hash;
pub mod random;
pub mod zeroize_mem;
pub mod signatures;
pub mod keys;
pub mod ratchet;
pub mod x3dh;
