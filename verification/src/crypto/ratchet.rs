use vstd::prelude::*;
use vstd::string::StringSliceAdditionalSpecFns;
use std::collections::HashMap;
use crate::bytes::{be_bytes_u64, be_to_u64, bytes_equal, copy_range, u64_from_be_at, u64_to_be, append_bytes};
use crate::crypto::aes_gcm_cipher::{self, aes256gcm_open, aes256gcm_seal, AES_GCM_MAX_INPUT};
use crate::crypto::constants::{AES_NONCE_SIZE, HEADER_LENGTH, MAX_SKIP_MESSAGES};
use crate::crypto::error::CryptoError;
use crate::crypto::hkdf_kdf::{self, hkdf_sha256};
use crate::crypto::keys::{x25519_shared, X25519KeyPair};

verus! {

broadcast use vstd::std_specs::hash::group_hash_axioms;

/// A symmetric chain: its current key and the number of the next message.
pub struct ChainModel {
    pub key: Seq<u8>,
    pub n: u64,
}

/// `n + 1`, wrapping to 0 after `u64::MAX`.
pub open spec fn next_number(n: u64) -> u64 {
    if n == u64::MAX { 0 } else { (n + 1) as u64 }
}

/// The key of the message the chain is at.
pub open spec fn message_key_of(c: ChainModel) -> Seq<u8> {
    hkdf_sha256(c.key, "runter_message_key".spec_bytes(), be_bytes_u64(c.n), 32)
}

/// The chain after handing out one message key.
pub open spec fn chain_step(c: ChainModel) -> ChainModel {
    ChainModel {
        key: hkdf_sha256(c.key, "runter_chain_key".spec_bytes(), be_bytes_u64(c.n), 32),
        n: next_number(c.n),
    }
}

/// The chain after `k` steps.
pub open spec fn chain_after(c: ChainModel, k: nat) -> ChainModel
    decreases k,
{
    if k == 0 { c } else { chain_step(chain_after(c, (k - 1) as nat)) }
}

/// The AES-GCM nonce of message number `n`: its eight big-endian bytes and
/// four zero bytes.
pub open spec fn nonce_bytes(n: u64) -> Seq<u8> {
    be_bytes_u64(n) + Seq::new(4, |i: int| 0u8)
}

/// The header written in front of a ratchet message: the sender's ratchet
/// public key, the message number in big-endian bytes, and 24 zero bytes.
pub open spec fn wire_header(public: Seq<u8>, n: u64) -> Seq<u8> {
    public + be_bytes_u64(n) + Seq::new(24, |i: int| 0u8)
}

/// The associated data an encryption authenticates: the sender's ratchet
/// public key and 32 zero bytes.
pub open spec fn sealed_header(public: Seq<u8>) -> Seq<u8> {
    public + Seq::new(32, |i: int| 0u8)
}

/// Whether a message from ratchet key `theirs` makes the receiver ratchet.
pub open spec fn needs_ratchet(known: Option<[u8; 32]>, theirs: Seq<u8>) -> bool {
    match known {
        Some(k) => k@ != theirs,
        None => true,
    }
}

/// `m` holds the entries of `base` and, for every message number of the
/// first `k` steps of chain `c`, that message's key, nonce and number.
pub open spec fn skipped_keys_hold(m: Map<u64, MessageKey>, base: Map<u64, MessageKey>, c: ChainModel, k: nat) -> bool {
    &&& forall|g: u64| #[trigger] m.contains_key(g) <==> (base.contains_key(g) || (c.n <= g < c.n + k))
    &&& forall|g: u64|
        c.n <= g < c.n + k ==> {
            &&& (#[trigger] m[g]).key@ == message_key_of(chain_after(c, (g - c.n) as nat))
            &&& m[g].nonce@ == nonce_bytes(g)
            &&& m[g].generation == g
        }
    &&& forall|g: u64| base.contains_key(g) && !(c.n <= g < c.n + k) ==> #[trigger] m[g] == base[g]
}

/// Without wrapping, `k` steps advance the message number by `k`.
pub proof fn lemma_chain_after_number(c: ChainModel, k: nat)
    requires
        c.n + k <= u64::MAX,
    ensures
        chain_after(c, k).n == c.n + k,
    decreases k,
{
    if k > 0 {
        lemma_chain_after_number(c, (k - 1) as nat);
    }
}

/// `r` is the plaintext whenever `ct` is the sealing of a plaintext under
/// `key`, `nonce` and associated data `aad`.
pub open spec fn gives_back_sealed(r: Result<Vec<u8>, CryptoError>, key: Seq<u8>, nonce: Seq<u8>, ct: Seq<u8>, aad: Seq<u8>) -> bool {
    forall|p: Seq<u8>| p.len() <= AES_GCM_MAX_INPUT && ct == #[trigger] aes256gcm_seal(key, nonce, p, aad)
        ==> (r matches Ok(q) && q@ == p)
}

/// What decrypting `msg` leaves behind and returns, given the state before
/// (`old`) and after (`new`) the call. A message shorter than the header
/// and tag is refused with `DecryptionFailed`, nothing changed. Otherwise a
/// message from an unknown ratchet key first makes the receiver ratchet
/// (see `ratchet_forward`). A message number more than `MAX_SKIP_MESSAGES`
/// ahead of the receiving chain (counting with wrap-around) is refused with
/// `TooManySkippedMessages(gap)`. Otherwise the receiving chain steps up to
/// the message number, holding back the keys it passes, and once more for
/// the message itself, whose AES-GCM decryption under that key, the message
/// number's nonce and the wire header as associated data is the result.
pub open spec fn decrypt_outcome(old: RatchetState, msg: Seq<u8>, new: RatchetState, r: Result<Vec<u8>, CryptoError>) -> bool {
    if msg.len() < HEADER_LENGTH + 16 {
        &&& r matches Err(e) && e is DecryptionFailed
        &&& new.root_key == old.root_key
        &&& new.send_chain.model() == old.send_chain.model()
        &&& new.recv_chain.model() == old.recv_chain.model()
        &&& new.our_dh == old.our_dh
        &&& new.their_dh_public == old.their_dh_public
        &&& new.skipped_keys@ == old.skipped_keys@
    } else {
        let theirs = msg.subrange(0, 32);
        let n = be_to_u64(msg.subrange(32, 40));
        let ratcheted = needs_ratchet(old.their_dh_public, theirs);
        let base = if ratcheted { Map::<u64, MessageKey>::empty() } else { old.skipped_keys@ };
        let c = old.recv_chain.model();
        let gap: u64 = if n >= c.n { (n - c.n) as u64 } else { (n - c.n + 0x1_0000_0000_0000_0000) as u64 };
        &&& ratcheted ==> {
            &&& new.root_key@ == hkdf_sha256(x25519_shared(old.our_dh.private_key@, theirs), old.root_key@, "runter_ratchet".spec_bytes(), 32)
            &&& new.send_chain.model() == (ChainModel {
                key: hkdf_sha256(new.root_key@, "runter_send_chain".spec_bytes(), Seq::empty(), 32),
                n: 0,
            })
            &&& new.our_dh.wf()
            &&& new.their_dh_public matches Some(k) && k@ == theirs
        }
        &&& !ratcheted ==> {
            &&& new.root_key == old.root_key
            &&& new.send_chain.model() == old.send_chain.model()
            &&& new.our_dh == old.our_dh
            &&& new.their_dh_public == old.their_dh_public
        }
        &&& if gap > MAX_SKIP_MESSAGES {
            &&& r matches Err(e) && e == CryptoError::TooManySkippedMessages(gap)
            &&& new.recv_chain.model() == c
            &&& new.skipped_keys@ == base
        } else {
            let k: nat = if c.n < n { (n - c.n) as nat } else { 0 };
            let cur = chain_after(c, k);
            let opened = aes256gcm_open(message_key_of(cur), nonce_bytes(n), msg.subrange(HEADER_LENGTH as int, msg.len() as int), msg.subrange(0, HEADER_LENGTH as int));
            &&& new.recv_chain.model() == chain_after(c, k + 1)
            &&& skipped_keys_hold(new.skipped_keys@, base, c, k)
            &&& r matches Ok(p) ==> opened == Some(p@)
            &&& r matches Err(e) ==> opened is None && e is DecryptionFailed
            &&& gives_back_sealed(r, message_key_of(cur), nonce_bytes(n), msg.subrange(HEADER_LENGTH as int, msg.len() as int), msg.subrange(0, HEADER_LENGTH as int))
        }
    }
}

/// What one side seals under its sending chain at message number 0, the
/// other side opens when its receiving chain is that chain: decryption
/// gives back the plaintext. (At a later message number the header the
/// receiver authenticates carries the number, where the sender
/// authenticated zeros, so such a message does not open.)
pub proof fn lemma_first_message_round_trip(chain: ChainModel, public: Seq<u8>, p: Seq<u8>, sent: Seq<u8>, receiver: RatchetState, after: RatchetState, r: Result<Vec<u8>, CryptoError>)
    requires
        chain.n == 0,
        public.len() == 32,
        p.len() <= AES_GCM_MAX_INPUT,
        sent == wire_header(public, 0) + aes256gcm_seal(message_key_of(chain), nonce_bytes(0), p, sealed_header(public)),
        sent.len() == HEADER_LENGTH + p.len() + 16,
        receiver.recv_chain.model() == chain,
        decrypt_outcome(receiver, sent, after, r),
    ensures
        r matches Ok(q) && q@ == p,
{
    crate::bytes::lemma_be_u64_roundtrip();
    crate::bytes::lemma_be_zero();
    let header = wire_header(public, 0);
    assert(sent.subrange(32, 40) =~= be_bytes_u64(0));
    assert(sent.subrange(0, HEADER_LENGTH as int) =~= header);
    assert(header =~= sealed_header(public));
    assert(sent.subrange(HEADER_LENGTH as int, sent.len() as int)
        =~= aes256gcm_seal(message_key_of(chain), nonce_bytes(0), p, sealed_header(public)));
    assert(chain_after(chain, 0) == chain);
    let n = be_to_u64(sent.subrange(32, 40));
    let c = receiver.recv_chain.model();
    let cur = chain_after(c, 0);
    assert(gives_back_sealed(r, message_key_of(cur), nonce_bytes(n), sent.subrange(HEADER_LENGTH as int, sent.len() as int), sent.subrange(0, HEADER_LENGTH as int)));
}

/// A message key held back for an out-of-order message.
pub struct MessageKey {
    pub key: [u8; 32],
    pub nonce: [u8; AES_NONCE_SIZE],
    pub generation: u64,
}

/// One direction of the symmetric ratchet.
pub struct ChainState {
    pub chain_key: [u8; 32],
    pub message_number: u64,
}

impl ChainState {
    /// The chain as plain values.
    pub open spec fn model(&self) -> ChainModel {
        ChainModel { key: self.chain_key@, n: self.message_number }
    }

    /// Hands out the current message key and steps the chain.
    pub fn advance(&mut self) -> (r: [u8; 32])
        ensures
            r@ == message_key_of(old(self).model()),
            final(self).model() == chain_step(old(self).model()),
    {
        let number = u64_to_be(self.message_number);
        let message_key = match hkdf_kdf::derive(&self.chain_key, "runter_message_key".as_bytes(), number.as_slice()) {
            Ok(k) => k,
            Err(_) => [0u8; 32],
        };
        let next_chain_key = match hkdf_kdf::derive(&self.chain_key, "runter_chain_key".as_bytes(), number.as_slice()) {
            Ok(k) => k,
            Err(_) => [0u8; 32],
        };
        self.chain_key = next_chain_key;
        self.message_number = self.message_number.wrapping_add(1);
        message_key
    }
}

/// The double-ratchet state of one conversation.
pub struct RatchetState {
    pub root_key: [u8; 32],
    pub send_chain: ChainState,
    pub recv_chain: ChainState,
    pub our_dh: X25519KeyPair,
    pub their_dh_public: Option<[u8; 32]>,
    pub skipped_keys: HashMap<u64, MessageKey>,
}

/// The ratchet's view of a 32-byte array read from a message.
fn read_key(message: &[u8]) -> (r: [u8; 32])
    requires
        message@.len() >= 32,
    ensures
        r@ == message@.subrange(0, 32),
{
    let mut r = [0u8; 32];
    let mut i: usize = 0;
    while i < 32
        invariant
            i <= 32,
            message@.len() >= 32,
            forall|j: int| 0 <= j < i ==> r@[j] == message@[j],
        decreases 32 - i,
    {
        r[i] = message[i];
        i = i + 1;
    }
    assert(r@ =~= message@.subrange(0, 32));
    r
}

impl RatchetState {
    /// A ratchet seeded from an agreed secret: the root key is derived from
    /// it, the sending chain from the root key; the receiving chain starts
    /// from an all-zero key; no peer ratchet key is known yet.
    pub fn new(shared_secret: &[u8; 32], our_dh: X25519KeyPair) -> (r: Result<RatchetState, CryptoError>)
        ensures
            r matches Ok(s) && {
                &&& s.root_key@ == hkdf_sha256(shared_secret@, "runter_root_key".spec_bytes(), Seq::empty(), 32)
                &&& s.send_chain.model() == (ChainModel {
                    key: hkdf_sha256(s.root_key@, "runter_send_chain_init".spec_bytes(), Seq::empty(), 32),
                    n: 0,
                })
                &&& s.recv_chain.model() == (ChainModel { key: Seq::new(32, |i: int| 0u8), n: 0 })
                &&& s.our_dh == our_dh
                &&& s.their_dh_public is None
                &&& s.skipped_keys@ == Map::<u64, MessageKey>::empty()
            },
    {
        let empty: [u8; 0] = [];
        assert(empty@ =~= Seq::<u8>::empty());
        let root_key = hkdf_kdf::derive(shared_secret, "runter_root_key".as_bytes(), &empty)?;
        let send_chain_key = hkdf_kdf::derive(&root_key, "runter_send_chain_init".as_bytes(), &empty)?;
        let zero = [0u8; 32];
        assert(zero@ =~= Seq::new(32, |i: int| 0u8));
        Ok(RatchetState {
            root_key,
            send_chain: ChainState { chain_key: send_chain_key, message_number: 0 },
            recv_chain: ChainState { chain_key: zero, message_number: 0 },
            our_dh,
            their_dh_public: None,
            skipped_keys: HashMap::new(),
        })
    }

    /// The AES-GCM nonce of message number `message_number`.
    fn derive_nonce(&self, message_number: u64) -> (r: [u8; AES_NONCE_SIZE])
        ensures
            r@ == nonce_bytes(message_number),
    {
        let be = u64_to_be(message_number);
        let mut nonce = [0u8; AES_NONCE_SIZE];
        let mut i: usize = 0;
        while i < 8
            invariant
                i <= 8,
                be@.len() == 8,
                forall|j: int| 0 <= j < i ==> nonce@[j] == be@[j],
                forall|j: int| 8 <= j < 12 ==> nonce@[j] == 0u8,
            decreases 8 - i,
        {
            nonce[i] = be[i];
            i = i + 1;
        }
        assert(nonce@ =~= nonce_bytes(message_number));
        nonce
    }

    /// The associated data of an outgoing message.
    fn create_header(&self) -> (r: Vec<u8>)
        ensures
            r@ == sealed_header(self.our_dh.public_key@),
    {
        let mut header: Vec<u8> = Vec::new();
        append_bytes(&mut header, &self.our_dh.public_key);
        let zeros = [0u8; 32];
        append_bytes(&mut header, &zeros);
        assert(zeros@ =~= Seq::new(32, |i: int| 0u8));
        header
    }

    /// Encrypts one message on the sending chain: the wire header (our
    /// ratchet key and the message number) followed by the AES-GCM
    /// ciphertext under the chain's message key, the message number's nonce,
    /// and our ratchet key padded with zeros as associated data. The sending
    /// chain steps even when encryption fails.
    pub fn encrypt(&mut self, plaintext: &[u8]) -> (r: Result<Vec<u8>, CryptoError>)
        ensures
            final(self).send_chain.model() == chain_step(old(self).send_chain.model()),
            final(self).root_key == old(self).root_key,
            final(self).recv_chain.model() == old(self).recv_chain.model(),
            final(self).our_dh == old(self).our_dh,
            final(self).their_dh_public == old(self).their_dh_public,
            final(self).skipped_keys@ == old(self).skipped_keys@,
            r is Ok <==> plaintext@.len() <= AES_GCM_MAX_INPUT,
            r matches Ok(c) ==> c@ == wire_header(old(self).our_dh.public_key@, old(self).send_chain.message_number)
                + aes256gcm_seal(
                    message_key_of(old(self).send_chain.model()),
                    nonce_bytes(old(self).send_chain.message_number),
                    plaintext@,
                    sealed_header(old(self).our_dh.public_key@),
                ) && c@.len() == HEADER_LENGTH + plaintext@.len() + 16,
            r matches Err(e) ==> e is EncryptionFailed,
    {
        let number = self.send_chain.message_number;
        let message_key = self.send_chain.advance();
        let header = self.create_header();
        let mut result: Vec<u8> = Vec::new();
        append_bytes(&mut result, &self.our_dh.public_key);
        let be = u64_to_be(self.send_chain.message_number.wrapping_sub(1));
        append_bytes(&mut result, be.as_slice());
        let zeros = [0u8; 24];
        append_bytes(&mut result, &zeros);
        assert(zeros@ =~= Seq::new(24, |i: int| 0u8));
        let nonce = self.derive_nonce(number);
        let ciphertext = aes_gcm_cipher::encrypt(&message_key, &nonce, plaintext, header.as_slice())?;
        append_bytes(&mut result, ciphertext.as_slice());
        Ok(result)
    }

    /// Performs a Diffie-Hellman ratchet step towards `their_dh`: a new root
    /// key from the shared secret, a new sending chain from it, a fresh
    /// ratchet key pair of our own, and the held-back keys forgotten.
    pub fn ratchet_forward(&mut self, their_dh: &[u8; 32]) -> (r: Result<(), CryptoError>)
        ensures
            r is Ok,
            final(self).root_key@ == hkdf_sha256(
                x25519_shared(old(self).our_dh.private_key@, their_dh@),
                old(self).root_key@,
                "runter_ratchet".spec_bytes(),
                32,
            ),
            final(self).send_chain.model() == (ChainModel {
                key: hkdf_sha256(final(self).root_key@, "runter_send_chain".spec_bytes(), Seq::empty(), 32),
                n: 0,
            }),
            final(self).recv_chain.model() == old(self).recv_chain.model(),
            final(self).our_dh.wf(),
            final(self).their_dh_public == Some(*their_dh),
            final(self).skipped_keys@ == Map::<u64, MessageKey>::empty(),
    {
        let dh_secret = self.our_dh.diffie_hellman(their_dh);
        let new_root_key = hkdf_kdf::derive(&dh_secret, &self.root_key, "runter_ratchet".as_bytes())?;
        let empty: [u8; 0] = [];
        assert(empty@ =~= Seq::<u8>::empty());
        let new_send_chain_key = hkdf_kdf::derive(&new_root_key, "runter_send_chain".as_bytes(), &empty)?;
        let new_dh = X25519KeyPair::generate()?;
        self.root_key = new_root_key;
        self.send_chain = ChainState { chain_key: new_send_chain_key, message_number: 0 };
        self.our_dh = new_dh;
        self.their_dh_public = Some(*their_dh);
        self.skipped_keys.clear();
        Ok(())
    }

    /// Decrypts one incoming message; see `decrypt_outcome`.
    pub fn decrypt(&mut self, message: &[u8]) -> (r: Result<Vec<u8>, CryptoError>)
        ensures
            decrypt_outcome(*old(self), message@, *final(self), r),
    {
        if message.len() < HEADER_LENGTH + 16 {
            return Err(CryptoError::DecryptionFailed);
        }
        let header = copy_range(message, 0, HEADER_LENGTH);
        let ciphertext = copy_range(message, HEADER_LENGTH, message.len());
        let their_dh = read_key(message);
        let message_number = u64_from_be_at(message, 32);
        let needs = match self.their_dh_public {
            Some(key) => !bytes_equal(&key, &their_dh),
            None => true,
        };
        let ghost c = self.recv_chain.model();
        if needs {
            self.ratchet_forward(&their_dh)?;
        }
        let ghost base = self.skipped_keys@;
        let ghost pre_root = self.root_key;
        let ghost pre_send = self.send_chain.model();
        let ghost pre_dh = self.our_dh;
        let ghost pre_their = self.their_dh_public;
        assert(self.recv_chain.model() == c);
        let gap = message_number.wrapping_sub(self.recv_chain.message_number);
        if gap > MAX_SKIP_MESSAGES {
            return Err(CryptoError::TooManySkippedMessages(gap));
        }
        proof {
            lemma_chain_after_number(c, 0);
            assert(skipped_keys_hold(self.skipped_keys@, base, c, 0));
        }
        while self.recv_chain.message_number < message_number
            invariant
                c.n <= self.recv_chain.message_number,
                self.recv_chain.message_number <= message_number || self.recv_chain.message_number == c.n,
                self.recv_chain.model() == chain_after(c, (self.recv_chain.message_number - c.n) as nat),
                skipped_keys_hold(self.skipped_keys@, base, c, (self.recv_chain.message_number - c.n) as nat),
                self.root_key == pre_root,
                self.send_chain.model() == pre_send,
                self.our_dh == pre_dh,
                self.their_dh_public == pre_their,
            decreases message_number - self.recv_chain.message_number,
        {
            let ghost i: nat = (self.recv_chain.message_number - c.n) as nat;
            let ghost before = self.skipped_keys@;
            let number = self.recv_chain.message_number;
            let skipped_key = self.recv_chain.advance();
            let nonce = self.derive_nonce(number);
            assert(self.recv_chain.message_number == number + 1);
            self.skipped_keys.insert(self.recv_chain.message_number.wrapping_sub(1), MessageKey {
                key: skipped_key,
                nonce,
                generation: self.recv_chain.message_number.wrapping_sub(1),
            });
            proof {
                assert(self.recv_chain.model() == chain_after(c, i + 1));
                let m = self.skipped_keys@;
                assert forall|g: u64| #[trigger] m.contains_key(g) <==> (base.contains_key(g) || (c.n <= g < c.n + i + 1)) by {
                    if g == number {
                    } else {
                        assert(m.contains_key(g) == before.contains_key(g));
                    }
                }
                assert forall|g: u64| c.n <= g < c.n + i + 1 implies {
                    &&& (#[trigger] m[g]).key@ == message_key_of(chain_after(c, (g - c.n) as nat))
                    &&& m[g].nonce@ == nonce_bytes(g)
                    &&& m[g].generation == g
                } by {
                    if g != number {
                        assert(m[g] == before[g]);
                    }
                }
                assert forall|g: u64| base.contains_key(g) && !(c.n <= g < c.n + i + 1) implies #[trigger] m[g] == base[g] by {
                    assert(m[g] == before[g]);
                }
            }
        }
        let ghost k: nat = (self.recv_chain.message_number - c.n) as nat;
        let current_key = self.recv_chain.advance();
        assert(chain_after(c, k + 1) == chain_step(chain_after(c, k)));
        let nonce = self.derive_nonce(message_number);
        assert(header@ == message@.subrange(0, HEADER_LENGTH as int));
        match aes_gcm_cipher::decrypt(&current_key, &nonce, ciphertext.as_slice(), header.as_slice()) {
            Ok(p) => Ok(p),
            Err(_) => Err(CryptoError::DecryptionFailed),
        }
    }
}

} // verus!