use vstd::prelude::*;
use crate::crypto::constants::ED25519_SIGNATURE_SIZE;
use crate::crypto::error::CryptoError;
use crate::crypto::hash::{sha512, sha512_of};
use crate::crypto::signatures::{
    ed25519_public, ed25519_public_of, ed25519_point_valid, ed25519_random_seed, ed25519_sign_with,
    ed25519_signature, ed25519_verifies, ed25519_verify_with,
};

verus! {

/// The X25519 public key of the secret key `secret`.
pub uninterp spec fn x25519_public(secret: Seq<u8>) -> Seq<u8>;

/// The X25519 shared secret of the secret key `secret` and the public key
/// `public`.
pub uninterp spec fn x25519_shared(secret: Seq<u8>, public: Seq<u8>) -> Seq<u8>;

/// The X25519 (Montgomery) form of the Ed25519 public key `public`, when
/// `public` encodes a curve point.
pub uninterp spec fn ed25519_montgomery(public: Seq<u8>) -> Option<Seq<u8>>;

/// Calls `StaticSecret::random_from_rng(OsRng)` and `to_bytes`. Nothing is
/// claimed of the secret key, which is random.
#[verifier::external_body]
fn x25519_random_secret() -> [u8; 32] {
    x25519_dalek::StaticSecret::random_from_rng(rand::rngs::OsRng).to_bytes()
}

/// Calls `PublicKey::from(&StaticSecret::from(*secret)).to_bytes()`.
/// Claimed: the result is the public key of `secret`.
#[verifier::external_body]
fn x25519_public_of(secret: &[u8; 32]) -> (r: [u8; 32])
    ensures
        r@ == x25519_public(secret@),
{
    x25519_dalek::PublicKey::from(&x25519_dalek::StaticSecret::from(*secret)).to_bytes()
}

/// Calls `StaticSecret::from(*secret).diffie_hellman(&PublicKey::from(*public))`.
/// Claimed: the result is the shared secret of the two, and Diffie-Hellman
/// agreement holds: when `public` is the public key of some secret `b`, the
/// result equals the shared secret that `b` computes with the public key of
/// `secret` (both are the clamped scalars times the base point).
#[verifier::external_body]
fn x25519_dh(secret: &[u8; 32], public: &[u8; 32]) -> (r: [u8; 32])
    ensures
        r@ == x25519_shared(secret@, public@),
        forall|b: Seq<u8>|
            b.len() == 32 && public@ == #[trigger] x25519_public(b) ==> r@ == x25519_shared(
                b,
                x25519_public(secret@),
            ),
{
    *x25519_dalek::StaticSecret::from(*secret).diffie_hellman(&x25519_dalek::PublicKey::from(*public)).as_bytes()
}

/// Calls `CompressedEdwardsY(*public).decompress()` and, on a point,
/// `to_montgomery().to_bytes()`. Claimed: the result is `ed25519_montgomery`.
#[verifier::external_body]
fn ed25519_to_montgomery(public: &[u8; 32]) -> (r: Option<[u8; 32]>)
    ensures
        r matches Some(m) ==> ed25519_montgomery(public@) == Some(m@),
        r is None ==> ed25519_montgomery(public@) is None,
        ed25519_point_valid(public@) ==> r is Some,
{
    match curve25519_dalek::edwards::CompressedEdwardsY(*public).decompress() {
        Some(p) => Some(p.to_montgomery().to_bytes()),
        None => None,
    }
}

/// An X25519 key pair.
pub struct X25519KeyPair {
    pub private_key: [u8; 32],
    pub public_key: [u8; 32],
}

impl X25519KeyPair {
    /// The public key belongs to the private key.
    pub open spec fn wf(&self) -> bool {
        self.public_key@ == x25519_public(self.private_key@)
    }

    /// A fresh random key pair.
    pub fn generate() -> (r: Result<X25519KeyPair, CryptoError>)
        ensures
            r matches Ok(kp) && kp.wf(),
    {
        let secret = x25519_random_secret();
        let public = x25519_public_of(&secret);
        Ok(X25519KeyPair { private_key: secret, public_key: public })
    }

    /// The key pair of a given private key.
    pub fn from_private_key(private_key: &[u8; 32]) -> (r: X25519KeyPair)
        ensures
            r.private_key == *private_key,
            r.wf(),
    {
        let public = x25519_public_of(private_key);
        X25519KeyPair { private_key: *private_key, public_key: public }
    }

    /// The shared secret with `their_public`.
    pub fn diffie_hellman(&self, their_public: &[u8; 32]) -> (r: [u8; 32])
        ensures
            r@ == x25519_shared(self.private_key@, their_public@),
            forall|b: Seq<u8>|
                b.len() == 32 && their_public@ == #[trigger] x25519_public(b) ==> r@ == x25519_shared(
                    b,
                    x25519_public(self.private_key@),
                ),
    {
        x25519_dh(&self.private_key, their_public)
    }
}

/// `k` clamped as an X25519 secret key: the low three bits of the first
/// byte cleared, the top bit of the last byte cleared and its next bit set.
pub open spec fn clamped(k: Seq<u8>) -> Seq<u8> {
    k.update(0, k[0] & 248u8).update(31, (k[31] & 127u8) | 64u8)
}

/// The X25519 secret key derived from an Ed25519 secret key: the first 32
/// bytes of SHA-512 of the seed, clamped.
pub open spec fn x25519_secret_of_seed(seed: Seq<u8>) -> Seq<u8> {
    clamped(sha512(seed).subrange(0, 32))
}

/// A long-term Ed25519 identity: the 32-byte secret key and its public key.
pub struct IdentityKeyPair {
    pub signing_key: [u8; 32],
    pub verifying_key: [u8; 32],
}

impl IdentityKeyPair {
    /// The public key belongs to the secret key.
    pub open spec fn wf(&self) -> bool {
        &&& self.verifying_key@ == ed25519_public(self.signing_key@)
        &&& ed25519_point_valid(self.verifying_key@)
    }

    /// A fresh random identity.
    pub fn generate() -> (r: IdentityKeyPair)
        ensures
            r.wf(),
    {
        let seed = ed25519_random_seed();
        Self::from_signing_key(&seed)
    }

    /// The identity of a given secret key.
    pub fn from_signing_key(signing_key: &[u8; 32]) -> (r: IdentityKeyPair)
        ensures
            r.signing_key == *signing_key,
            r.wf(),
    {
        let public = ed25519_public_of(signing_key);
        IdentityKeyPair { signing_key: *signing_key, verifying_key: public }
    }

    /// The Ed25519 signature of `message`.
    pub fn sign(&self, message: &[u8]) -> (r: [u8; ED25519_SIGNATURE_SIZE])
        ensures
            r@ == ed25519_signature(self.signing_key@, message@),
    {
        ed25519_sign_with(&self.signing_key, message)
    }

    /// Checks a signature under this identity; refused with
    /// `SignatureVerificationFailed`. A signature this identity made verifies.
    pub fn verify(&self, message: &[u8], signature: &[u8; ED25519_SIGNATURE_SIZE]) -> (r: Result<(), CryptoError>)
        ensures
            r is Ok <==> ed25519_verifies(self.verifying_key@, message@, signature@),
            r matches Err(e) ==> e is SignatureVerificationFailed,
            self.wf() && signature@ == ed25519_signature(self.signing_key@, message@) ==> r is Ok,
    {
        match ed25519_verify_with(&self.verifying_key, message, signature) {
            Ok(()) => Ok(()),
            Err(_) => Err(CryptoError::SignatureVerificationFailed),
        }
    }

    /// The public key in X25519 (Montgomery) form.
    pub fn to_x25519_public(&self) -> (r: [u8; 32])
        requires
            self.wf(),
        ensures
            ed25519_montgomery(self.verifying_key@) == Some(r@),
    {
        match ed25519_to_montgomery(&self.verifying_key) {
            Some(m) => m,
            None => [0u8; 32],
        }
    }

    /// The X25519 secret key derived from the identity's secret key.
    pub fn to_x25519_private(&self) -> (r: [u8; 32])
        ensures
            r@ == x25519_secret_of_seed(self.signing_key@),
    {
        let hash = sha512_of(&self.signing_key);
        let mut key = [0u8; 32];
        let mut i: usize = 0;
        while i < 32
            invariant
                i <= 32,
                hash@.len() == 64,
                forall|j: int| 0 <= j < i ==> key@[j] == hash@[j],
            decreases 32 - i,
        {
            key[i] = hash[i];
            i = i + 1;
        }
        assert(key@ =~= hash@.subrange(0, 32));
        let k0 = key[0] & 248u8;
        key[0] = k0;
        let k31 = (key[31] & 127u8) | 64u8;
        key[31] = k31;
        assert(key@ =~= clamped(hash@.subrange(0, 32)));
        key
    }

    /// The X25519 key pair derived from the identity's secret key.
    pub fn derive_x25519_keypair(&self) -> (r: X25519KeyPair)
        ensures
            r.private_key@ == x25519_secret_of_seed(self.signing_key@),
            r.wf(),
    {
        let private = self.to_x25519_private();
        X25519KeyPair::from_private_key(&private)
    }
}

/// A one-time prekey.
pub struct PreKey {
    pub id: u32,
    pub key_pair: X25519KeyPair,
}

impl PreKey {
    /// A fresh one-time prekey with the given id.
    pub fn generate(id: u32) -> (r: Result<PreKey, CryptoError>)
        ensures
            r matches Ok(p) && p.id == id && p.key_pair.wf(),
    {
        let key_pair = X25519KeyPair::generate()?;
        Ok(PreKey { id, key_pair })
    }
}

/// A medium-term prekey signed by the identity key.
pub struct SignedPreKey {
    pub id: u32,
    pub key_pair: X25519KeyPair,
    pub signature: [u8; ED25519_SIGNATURE_SIZE],
}

impl SignedPreKey {
    /// A fresh prekey whose public key `identity` signs.
    pub fn generate(id: u32, identity: &IdentityKeyPair) -> (r: Result<SignedPreKey, CryptoError>)
        ensures
            r matches Ok(p) && p.id == id && p.key_pair.wf()
                && p.signature@ == ed25519_signature(identity.signing_key@, p.key_pair.public_key@),
    {
        let key_pair = X25519KeyPair::generate()?;
        let signature = identity.sign(&key_pair.public_key);
        Ok(SignedPreKey { id, key_pair, signature })
    }

    /// Checks the prekey's signature under `identity`; a prekey that
    /// `identity` signed verifies.
    pub fn verify(&self, identity: &IdentityKeyPair) -> (r: Result<(), CryptoError>)
        ensures
            r is Ok <==> ed25519_verifies(identity.verifying_key@, self.key_pair.public_key@, self.signature@),
            r matches Err(e) ==> e is SignatureVerificationFailed,
            identity.wf() && self.signature@ == ed25519_signature(identity.signing_key@, self.key_pair.public_key@)
                ==> r is Ok,
    {
        identity.verify(&self.key_pair.public_key, &self.signature)
    }
}

} // verus!
