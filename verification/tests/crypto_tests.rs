use runter::bytes::{hex_bytes, hex_string};
use runter::crypto::aes_gcm_cipher::{decrypt, encrypt};
use runter::crypto::error::CryptoError;
use runter::crypto::hkdf_kdf::derive_to_slice;
use runter::crypto::hmac_hash::compute;
use runter::crypto::keys::{IdentityKeyPair, PreKey, SignedPreKey, X25519KeyPair};
use runter::crypto::random::{generate_random_array, generate_random_bytes};
use runter::crypto::ratchet::{ChainState, RatchetState};
use runter::crypto::signatures::{sign, verify};
use runter::crypto::x3dh::{x3dh_receive, x3dh_send};
use runter::crypto::zeroize_mem::secure_clear_bytes;

fn unhex(s: &str) -> Vec<u8> {
    hex::decode(s).unwrap()
}

fn arr32(s: &str) -> [u8; 32] {
    unhex(s).try_into().unwrap()
}

#[test]
fn hex_encodings() {
    assert_eq!(hex_string(&[]), "");
    assert_eq!(hex_string(&[0x00, 0x0f, 0xa5, 0xff]), "000fa5ff");
    assert_eq!(hex_bytes(&[0xde, 0xad]), b"dead".to_vec());
}

#[test]
fn hmac_known_answer() {
    let tag = compute(b"Jefe", b"what do ya want for nothing?").unwrap();
    assert_eq!(
        hex_string(&tag),
        "5bdcc146bf60754e6a042426089575c75a003f089d2739839dec58b964ec3843"
    );
}

#[test]
fn hkdf_known_answer() {
    let ikm = [0x0bu8; 22];
    let salt = unhex("000102030405060708090a0b0c");
    let info = unhex("f0f1f2f3f4f5f6f7f8f9");
    let expected = "3cb25f25faacd57a90434f64d0362f2a2d2d0a90cf1a5a4c5db02d56ecc4c5bf34007208d5b887185865";
    let mut out = [0u8; 42];
    derive_to_slice(&ikm, &salt, &info, &mut out).unwrap();
    assert_eq!(hex_string(&out), expected);
    let key = runter::crypto::hkdf_kdf::derive(&ikm, &salt, &info).unwrap();
    assert_eq!(hex_string(&key), &expected[..64]);
}

#[test]
fn hkdf_refuses_overlong_output() {
    let mut out = vec![7u8; 255 * 32 + 1];
    let r = derive_to_slice(b"ikm", b"salt", b"info", &mut out);
    assert!(matches!(r, Err(CryptoError::HkdfDerivationFailed)));
    assert!(out.iter().all(|b| *b == 7));
}

#[test]
fn aes_gcm_known_answer_and_round_trip() {
    let key = [0u8; 32];
    let nonce = [0u8; 12];
    let c = encrypt(&key, &nonce, &[0u8; 16], &[]).unwrap();
    assert_eq!(
        hex_string(&c),
        "cea7403d4d606b6e074ec5d3baf39d18d0d1c8a799996bf0265b98b5d48ab919"
    );
    let p = decrypt(&key, &nonce, &c, &[]).unwrap();
    assert_eq!(p, vec![0u8; 16]);
}

#[test]
fn aes_gcm_rejects_tampering() {
    let key = [3u8; 32];
    let nonce = [9u8; 12];
    let mut c = encrypt(&key, &nonce, b"hello", b"aad").unwrap();
    assert_eq!(c.len(), 5 + 16);
    assert!(matches!(decrypt(&key, &nonce, &c, b"other"), Err(CryptoError::DecryptionFailed)));
    c[0] ^= 1;
    assert!(matches!(decrypt(&key, &nonce, &c, b"aad"), Err(CryptoError::DecryptionFailed)));
}

#[test]
fn ed25519_known_answer() {
    let seed = arr32("9d61b19deffd5a60ba844af492ec2cc44449c5697b326919703bac031cae7f60");
    let identity = IdentityKeyPair::from_signing_key(&seed);
    assert_eq!(
        hex_string(&identity.verifying_key),
        "d75a980182b10ab7d54bfed3c964073a0ee172f3daa62325af021a68f707511a"
    );
    let sig = sign(&seed, b"");
    assert_eq!(
        hex_string(&sig),
        "e5564300c360ac729086e2cc806e828a84877f1eb8e5d974d873e065224901555fb8821590a33bacc61e39701cf9b46bd25bf5f0595bbe24655141438e7a100b"
    );
    assert!(verify(&identity.verifying_key, b"", &sig).is_ok());
    assert!(matches!(
        verify(&identity.verifying_key, b"x", &sig),
        Err(CryptoError::SignatureVerificationFailed)
    ));
}

#[test]
fn identity_sign_and_verify() {
    let identity = IdentityKeyPair::generate();
    let sig = identity.sign(b"message");
    assert!(identity.verify(b"message", &sig).is_ok());
    assert!(identity.verify(b"massage", &sig).is_err());
    let again = IdentityKeyPair::from_signing_key(&identity.signing_key);
    assert_eq!(again.verifying_key, identity.verifying_key);
}

#[test]
fn x25519_known_public_keys_and_agreement() {
    let alice = X25519KeyPair::from_private_key(&arr32(
        "77076d0a7318a57d3c16c17251b26645df4c2f87ebc0992ab177fba51db92c2a",
    ));
    let bob = X25519KeyPair::from_private_key(&arr32(
        "5dab087e624a8a4b79e17f8b83800ee66f3bb1292618b6fd1c2f8b27ff88e0eb",
    ));
    assert_eq!(
        hex_string(&alice.public_key),
        "8520f0098930a754748b7ddcb43ef75a0dbf3a0d26381af4eba4a98eaa9b4e6a"
    );
    assert_eq!(
        hex_string(&bob.public_key),
        "de9edb7d7b7dc1b4d35b61c2ece435373f8343c85b78674dadfc7e146f882b4f"
    );
    assert_eq!(alice.diffie_hellman(&bob.public_key), bob.diffie_hellman(&alice.public_key));
}

#[test]
fn identity_x25519_conversion_is_consistent() {
    let identity = IdentityKeyPair::generate();
    let pair = identity.derive_x25519_keypair();
    assert_eq!(pair.public_key, identity.to_x25519_public());
    assert_eq!(pair.private_key, identity.to_x25519_private());
    let clamped = identity.to_x25519_private();
    assert_eq!(clamped[0] & 7, 0);
    assert_eq!(clamped[31] & 128, 0);
    assert_eq!(clamped[31] & 64, 64);
}

#[test]
fn signed_prekey_verifies_under_its_identity_only() {
    let identity = IdentityKeyPair::generate();
    let other = IdentityKeyPair::generate();
    let spk = SignedPreKey::generate(5, &identity).unwrap();
    assert_eq!(spk.id, 5);
    assert!(spk.verify(&identity).is_ok());
    assert!(spk.verify(&other).is_err());
}

#[test]
fn x3dh_both_sides_agree() {
    for with_one_time in [false, true] {
        let alice = IdentityKeyPair::generate();
        let bob = IdentityKeyPair::generate();
        let bob_spk = SignedPreKey::generate(1, &bob).unwrap();
        let bob_opk = PreKey::generate(2).unwrap();
        let ephemeral = X25519KeyPair::generate().unwrap();
        let opk_public = bob_opk.key_pair.public_key;
        let sent = x3dh_send(
            &alice,
            &ephemeral,
            &bob.to_x25519_public(),
            &bob_spk.key_pair.public_key,
            if with_one_time { Some(&opk_public) } else { None },
        )
        .unwrap();
        let received = x3dh_receive(
            &bob,
            &bob_spk,
            &alice.to_x25519_public(),
            &sent.ephemeral_public_key,
            if with_one_time { Some(&bob_opk) } else { None },
        )
        .unwrap();
        assert_eq!(sent.shared_secret, received.shared_secret);
        assert_eq!(sent.ephemeral_public_key, ephemeral.public_key);
        let mut ad = alice.verifying_key.to_vec();
        ad.extend_from_slice(&bob.to_x25519_public());
        assert_eq!(sent.associated_data, ad);
    }
}

#[test]
fn x3dh_one_time_prekey_changes_the_secret() {
    let alice = IdentityKeyPair::generate();
    let bob = IdentityKeyPair::generate();
    let bob_spk = SignedPreKey::generate(1, &bob).unwrap();
    let bob_opk = PreKey::generate(2).unwrap();
    let ephemeral = X25519KeyPair::generate().unwrap();
    let with = x3dh_send(&alice, &ephemeral, &bob.to_x25519_public(), &bob_spk.key_pair.public_key, Some(&bob_opk.key_pair.public_key)).unwrap();
    let without = x3dh_send(&alice, &ephemeral, &bob.to_x25519_public(), &bob_spk.key_pair.public_key, None).unwrap();
    assert_ne!(with.shared_secret, without.shared_secret);
}

#[test]
fn ratchet_message_layout() {
    let pair = X25519KeyPair::generate().unwrap();
    let public = pair.public_key;
    let mut state = RatchetState::new(&[1u8; 32], pair).unwrap();
    let first = state.encrypt(b"hi").unwrap();
    let second = state.encrypt(b"hi").unwrap();
    assert_eq!(first.len(), 64 + 2 + 16);
    assert_eq!(&first[..32], &public);
    assert_eq!(&first[32..40], &0u64.to_be_bytes());
    assert_eq!(&first[40..64], &[0u8; 24]);
    assert_eq!(&second[32..40], &1u64.to_be_bytes());
    assert_ne!(first[64..], second[64..]);
    assert_eq!(state.send_chain.message_number, 2);
}

#[test]
fn ratchet_new_is_deterministic_in_the_secret() {
    let a = RatchetState::new(&[4u8; 32], X25519KeyPair::generate().unwrap()).unwrap();
    let b = RatchetState::new(&[4u8; 32], X25519KeyPair::generate().unwrap()).unwrap();
    let c = RatchetState::new(&[5u8; 32], X25519KeyPair::generate().unwrap()).unwrap();
    assert_eq!(a.root_key, b.root_key);
    assert_eq!(a.send_chain.chain_key, b.send_chain.chain_key);
    assert_ne!(a.root_key, c.root_key);
    assert_eq!(a.recv_chain.chain_key, [0u8; 32]);
    assert!(a.their_dh_public.is_none());
}

#[test]
fn ratchet_decrypts_message_under_receiving_chain() {
    // A sender whose sending chain is the receiver's initial receiving chain.
    let mut sender = RatchetState::new(&[2u8; 32], X25519KeyPair::generate().unwrap()).unwrap();
    sender.send_chain = ChainState { chain_key: [0u8; 32], message_number: 0 };
    let message = sender.encrypt(b"secret payload").unwrap();
    let mut receiver = RatchetState::new(&[3u8; 32], X25519KeyPair::generate().unwrap()).unwrap();
    let plain = receiver.decrypt(&message).unwrap();
    assert_eq!(plain, b"secret payload".to_vec());
    assert_eq!(receiver.their_dh_public, Some(sender.our_dh.public_key));
    assert_eq!(receiver.recv_chain.message_number, 1);
}

#[test]
fn ratchet_decrypt_refusals() {
    let mut receiver = RatchetState::new(&[3u8; 32], X25519KeyPair::generate().unwrap()).unwrap();
    assert!(matches!(receiver.decrypt(&[0u8; 79]), Err(CryptoError::DecryptionFailed)));
    let peer = X25519KeyPair::generate().unwrap();
    let mut far = peer.public_key.to_vec();
    far.extend_from_slice(&5000u64.to_be_bytes());
    far.extend_from_slice(&[0u8; 24 + 16]);
    assert!(matches!(receiver.decrypt(&far), Err(CryptoError::TooManySkippedMessages(5000))));
}

#[test]
fn ratchet_holds_back_skipped_keys() {
    let mut sender = RatchetState::new(&[2u8; 32], X25519KeyPair::generate().unwrap()).unwrap();
    sender.send_chain = ChainState { chain_key: [0u8; 32], message_number: 0 };
    let _m0 = sender.encrypt(b"a").unwrap();
    let _m1 = sender.encrypt(b"b").unwrap();
    let m2 = sender.encrypt(b"c").unwrap();
    let mut receiver = RatchetState::new(&[3u8; 32], X25519KeyPair::generate().unwrap()).unwrap();
    // The third message's associated data differs from the wire header, so
    // it fails to open; the two keys before it are held back all the same.
    assert!(receiver.decrypt(&m2).is_err());
    assert_eq!(receiver.skipped_keys.len(), 2);
    assert_eq!(receiver.skipped_keys[&0].generation, 0);
    assert_eq!(receiver.skipped_keys[&1].nonce[..8], 1u64.to_be_bytes());
    assert_eq!(receiver.recv_chain.message_number, 3);
}

#[test]
fn random_sources() {
    let v = generate_random_bytes(48).unwrap();
    assert_eq!(v.len(), 48);
    let a: [u8; 32] = generate_random_array().unwrap();
    let b: [u8; 32] = generate_random_array().unwrap();
    assert_ne!(a, b);
    assert!(generate_random_bytes(0).unwrap().is_empty());
}

#[test]
fn clearing_zeroes_every_byte() {
    let mut data = vec![1u8, 2, 3, 4];
    secure_clear_bytes(&mut data);
    assert_eq!(data, vec![0u8; 4]);
}
