use vstd::prelude::*;
use vstd::string::StringSliceAdditionalSpecFns;
use crate::bytes::append_bytes;
use crate::crypto::error::CryptoError;
use crate::crypto::hkdf_kdf::{self, hkdf_sha256};
use crate::crypto::keys::{
    x25519_public, x25519_secret_of_seed, x25519_shared, IdentityKeyPair, PreKey, SignedPreKey,
    X25519KeyPair,
};

verus! {

/// What an X3DH key agreement yields.
pub struct X3DHResult {
    pub shared_secret: [u8; 32],
    pub associated_data: Vec<u8>,
    pub ephemeral_public_key: [u8; 32],
}

/// The shared secret of X3DH key material `input`.
pub open spec fn x3dh_secret(input: Seq<u8>) -> Seq<u8> {
    hkdf_sha256(input, "runter_x3dh_shared_secret".spec_bytes(), Seq::empty(), 32)
}

/// The key material the initiator computes from its X25519 identity
/// secret `ik`, its ephemeral secret `ek`, and the responder's identity,
/// signed-prekey and (optional) one-time-prekey public keys.
pub open spec fn x3dh_send_input(ik: Seq<u8>, ek: Seq<u8>, their_ik: Seq<u8>, their_spk: Seq<u8>, their_opk: Option<Seq<u8>>) -> Seq<u8> {
    let base = x25519_shared(ik, their_spk) + x25519_shared(ek, their_ik) + x25519_shared(ek, their_spk);
    match their_opk {
        Some(opk) => base + x25519_shared(ek, opk),
        None => base,
    }
}

/// The key material the responder computes from its X25519 identity secret
/// `ik`, its signed-prekey secret `spk`, its (optional) one-time-prekey
/// secret, and the initiator's identity and ephemeral public keys.
pub open spec fn x3dh_receive_input(ik: Seq<u8>, spk: Seq<u8>, opk: Option<Seq<u8>>, their_ik: Seq<u8>, their_ek: Seq<u8>) -> Seq<u8> {
    let base = x25519_shared(spk, their_ik) + x25519_shared(ik, their_ek) + x25519_shared(spk, their_ek);
    match opk {
        Some(o) => base + x25519_shared(o, their_ek),
        None => base,
    }
}

/// The public key of an optional one-time prekey.
pub open spec fn opk_public(opk: Option<&PreKey>) -> Option<Seq<u8>> {
    match opk {
        Some(p) => Some(p.key_pair.public_key@),
        None => None,
    }
}

/// The secret key of an optional one-time prekey.
pub open spec fn opk_secret(opk: Option<&PreKey>) -> Option<Seq<u8>> {
    match opk {
        Some(p) => Some(p.key_pair.private_key@),
        None => None,
    }
}

/// The public bytes of an optional public key.
pub open spec fn opt_key(k: Option<&[u8; 32]>) -> Option<Seq<u8>> {
    match k {
        Some(p) => Some(p@),
        None => None,
    }
}

/// The initiator's side of X3DH: the shared secret of the three (or four)
/// Diffie-Hellman values, the associated data (our Ed25519 identity key,
/// then theirs), and our ephemeral public key. It never fails.
pub fn x3dh_send(
    our_identity: &IdentityKeyPair,
    our_ephemeral: &X25519KeyPair,
    their_identity_public: &[u8; 32],
    their_signed_prekey_public: &[u8; 32],
    their_one_time_prekey_public: Option<&[u8; 32]>,
) -> (r: Result<X3DHResult, CryptoError>)
    ensures
        r is Ok,
        r matches Ok(res) ==> {
            &&& res.shared_secret@ == x3dh_secret(x3dh_send_input(
                x25519_secret_of_seed(our_identity.signing_key@),
                our_ephemeral.private_key@,
                their_identity_public@,
                their_signed_prekey_public@,
                opt_key(their_one_time_prekey_public),
            ))
            &&& res.associated_data@ == our_identity.verifying_key@ + their_identity_public@
            &&& res.ephemeral_public_key == our_ephemeral.public_key
        },
{
    let our_x25519 = our_identity.derive_x25519_keypair();
    let dh1 = our_x25519.diffie_hellman(their_signed_prekey_public);
    let dh2 = our_ephemeral.diffie_hellman(their_identity_public);
    let dh3 = our_ephemeral.diffie_hellman(their_signed_prekey_public);
    let mut secret_input: Vec<u8> = Vec::with_capacity(128);
    append_bytes(&mut secret_input, &dh1);
    append_bytes(&mut secret_input, &dh2);
    append_bytes(&mut secret_input, &dh3);
    if let Some(prekey) = their_one_time_prekey_public {
        let dh4 = our_ephemeral.diffie_hellman(prekey);
        append_bytes(&mut secret_input, &dh4);
    }
    let empty: [u8; 0] = [];
    assert(empty@ =~= Seq::<u8>::empty());
    let shared_secret = hkdf_kdf::derive(secret_input.as_slice(), "runter_x3dh_shared_secret".as_bytes(), &empty)?;
    let mut associated_data: Vec<u8> = Vec::new();
    append_bytes(&mut associated_data, &our_identity.verifying_key);
    append_bytes(&mut associated_data, their_identity_public);
    Ok(X3DHResult { shared_secret, associated_data, ephemeral_public_key: our_ephemeral.public_key })
}

/// The responder's side of X3DH: the shared secret of the three (or four)
/// Diffie-Hellman values, the associated data (their Ed25519 identity key,
/// then ours), and their ephemeral public key. It never fails.
///
/// When our prekeys' public keys belong to their secret keys, the
/// initiator used our X25519 identity public key, our signed
/// prekey's public key and our one-time prekey's public key, and the public
/// keys we were given are those of its X25519 identity secret `a` and its
/// ephemeral secret `e`, both sides reach the same shared secret.
pub fn x3dh_receive(
    our_identity: &IdentityKeyPair,
    our_signed_prekey: &SignedPreKey,
    their_identity_public: &[u8; 32],
    their_ephemeral_public: &[u8; 32],
    our_one_time_prekey: Option<&PreKey>,
) -> (r: Result<X3DHResult, CryptoError>)
    ensures
        r is Ok,
        r matches Ok(res) ==> {
            &&& res.shared_secret@ == x3dh_secret(x3dh_receive_input(
                x25519_secret_of_seed(our_identity.signing_key@),
                our_signed_prekey.key_pair.private_key@,
                opk_secret(our_one_time_prekey),
                their_identity_public@,
                their_ephemeral_public@,
            ))
            &&& res.associated_data@ == their_identity_public@ + our_identity.verifying_key@
            &&& res.ephemeral_public_key == *their_ephemeral_public
        },
        r matches Ok(res) ==> our_signed_prekey.key_pair.wf()
            && (our_one_time_prekey matches Some(p) ==> p.key_pair.wf()) ==> forall|a: Seq<u8>, e: Seq<u8>|
            a.len() == 32 && e.len() == 32 && their_identity_public@ == #[trigger] x25519_public(a)
                && their_ephemeral_public@ == #[trigger] x25519_public(e)
                ==> res.shared_secret@ == x3dh_secret(x3dh_send_input(
                    a,
                    e,
                    x25519_public(x25519_secret_of_seed(our_identity.signing_key@)),
                    our_signed_prekey.key_pair.public_key@,
                    opk_public(our_one_time_prekey),
                )),
{
    let our_x25519 = our_identity.derive_x25519_keypair();
    let dh1 = our_signed_prekey.key_pair.diffie_hellman(their_identity_public);
    let dh2 = our_x25519.diffie_hellman(their_ephemeral_public);
    let dh3 = our_signed_prekey.key_pair.diffie_hellman(their_ephemeral_public);
    let mut secret_input: Vec<u8> = Vec::with_capacity(128);
    append_bytes(&mut secret_input, &dh1);
    append_bytes(&mut secret_input, &dh2);
    append_bytes(&mut secret_input, &dh3);
    let ghost base = secret_input@;
    let ghost mut dh4v: Seq<u8> = Seq::empty();
    if let Some(prekey) = our_one_time_prekey {
        let dh4 = prekey.key_pair.diffie_hellman(their_ephemeral_public);
        append_bytes(&mut secret_input, &dh4);
        proof {
            dh4v = dh4@;
        }
    }
    let empty: [u8; 0] = [];
    assert(empty@ =~= Seq::<u8>::empty());
    let shared_secret = hkdf_kdf::derive(secret_input.as_slice(), "runter_x3dh_shared_secret".as_bytes(), &empty)?;
    proof {
        if our_signed_prekey.key_pair.wf() && (our_one_time_prekey matches Some(p) ==> p.key_pair.wf()) {
        assert forall|a: Seq<u8>, e: Seq<u8>|
            a.len() == 32 && e.len() == 32 && their_identity_public@ == #[trigger] x25519_public(a)
                && their_ephemeral_public@ == #[trigger] x25519_public(e)
            implies shared_secret@ == x3dh_secret(x3dh_send_input(
                a,
                e,
                x25519_public(x25519_secret_of_seed(our_identity.signing_key@)),
                our_signed_prekey.key_pair.public_key@,
                opk_public(our_one_time_prekey),
            )) by {
            let s = x3dh_send_input(
                a,
                e,
                x25519_public(x25519_secret_of_seed(our_identity.signing_key@)),
                our_signed_prekey.key_pair.public_key@,
                opk_public(our_one_time_prekey),
            );
            assert(dh1@ == x25519_shared(a, our_signed_prekey.key_pair.public_key@));
            assert(dh2@ == x25519_shared(e, x25519_public(x25519_secret_of_seed(our_identity.signing_key@))));
            assert(dh3@ == x25519_shared(e, our_signed_prekey.key_pair.public_key@));
            assert(secret_input@ =~= s);
        }
        }
    }
    let mut associated_data: Vec<u8> = Vec::new();
    append_bytes(&mut associated_data, their_identity_public);
    append_bytes(&mut associated_data, &our_identity.verifying_key);
    Ok(X3DHResult { shared_secret, associated_data, ephemeral_public_key: *their_ephemeral_public })
}

} // verus!
