use vstd::prelude::*;

verus! {

/// Identifier of one message: sixteen opaque bytes.
#[derive(Clone, Copy, Debug)]
pub struct MessageId(pub [u8; 16]);

/// Identifier of one relay queue: sixteen opaque bytes.
#[derive(Clone, Copy, Debug)]
pub struct QueueId(pub [u8; 16]);

impl View for MessageId {
    type V = Seq<u8>;

    open spec fn view(&self) -> Seq<u8> {
        self.0@
    }
}

impl View for QueueId {
    type V = Seq<u8>;

    open spec fn view(&self) -> Seq<u8> {
        self.0@
    }
}

/// Byte-wise comparison of two sixteen-byte identifiers.
pub fn same_bytes16(a: &[u8; 16], b: &[u8; 16]) -> (r: bool)
    ensures
        r == (a@ == b@),
{
    let mut i: usize = 0;
    while i < 16
        invariant
            i <= 16,
            a@.len() == 16,
            b@.len() == 16,
            forall|j: int| 0 <= j < i ==> a@[j] == b@[j],
        decreases 16 - i,
    {
        if a[i] != b[i] {
            assert(a@[i as int] != b@[i as int]);
            return false;
        }
        i = i + 1;
    }
    assert(a@ =~= b@);
    true
}

impl MessageId {
    /// Whether two message identifiers hold the same bytes.
    pub fn same_as(&self, other: &MessageId) -> (r: bool)
        ensures
            r == (self@ == other@),
    {
        same_bytes16(&self.0, &other.0)
    }
}

impl QueueId {
    /// Whether two queue identifiers hold the same bytes.
    pub fn same_as(&self, other: &QueueId) -> (r: bool)
        ensures
            r == (self@ == other@),
    {
        same_bytes16(&self.0, &other.0)
    }
}

/// What a message is, as plain mathematical values.
pub struct MessageModel {
    pub id: Seq<u8>,
    pub queue_id: Seq<u8>,
    pub payload: Seq<u8>,
    pub timestamp: u64,
    pub ttl: Option<u64>,
    pub acked: bool,
    pub expires_at: Option<u64>,
}

impl MessageModel {
    /// A message is expired once the clock has passed its expiry time.
    pub open spec fn expired_at(self, now: u64) -> bool {
        match self.expires_at {
            Some(e) => now > e,
            None => false,
        }
    }

    /// A message is still deliverable when it is neither acknowledged nor expired.
    pub open spec fn deliverable_at(self, now: u64) -> bool {
        !self.acked && !self.expired_at(now)
    }
}

/// One message held by a relay queue.
#[derive(Debug)]
pub struct Message {
    pub id: MessageId,
    pub queue_id: QueueId,
    pub payload: Vec<u8>,
    pub timestamp: u64,
    pub ttl: Option<u64>,
    pub acked: bool,
    pub expires_at: Option<u64>,
}

impl View for Message {
    type V = MessageModel;

    open spec fn view(&self) -> MessageModel {
        MessageModel {
            id: self.id@,
            queue_id: self.queue_id@,
            payload: self.payload@,
            timestamp: self.timestamp,
            ttl: self.ttl,
            acked: self.acked,
            expires_at: self.expires_at,
        }
    }
}

/// The models of a sequence of messages.
pub open spec fn models(v: Seq<Message>) -> Seq<MessageModel> {
    v.map_values(|m: Message| m@)
}

/// The bytes of an optional message identifier.
pub open spec fn id_view(o: Option<&MessageId>) -> Option<Seq<u8>> {
    match o {
        Some(id) => Some(id@),
        None => None,
    }
}

impl Message {
    /// A field-by-field copy of the message.
    pub fn duplicate(&self) -> (r: Message)
        ensures
            r@ == self@,
    {
        Message {
            id: self.id,
            queue_id: self.queue_id,
            payload: self.payload.clone(),
            timestamp: self.timestamp,
            ttl: self.ttl,
            acked: self.acked,
            expires_at: self.expires_at,
        }
    }

    /// Whether the message has expired at clock time `now`.
    pub fn is_expired_at(&self, now: u64) -> (r: bool)
        ensures
            r == self@.expired_at(now),
    {
        match self.expires_at {
            Some(e) => now > e,
            None => false,
        }
    }

    /// Whether the message has expired by the current wall clock.
    pub fn is_expired(&self) -> (r: bool)
        ensures
            exists|now: u64| r == self@.expired_at(now),
    {
        let now = now_secs();
        self.is_expired_at(now)
    }
}

/// How a queue is configured when it is created.
#[derive(Debug)]
pub struct QueueConfig {
    pub name: String,
    pub max_size: u64,
    pub ttl_seconds: Option<u64>,
}

impl QueueConfig {
    /// A field-by-field copy of the configuration.
    pub fn duplicate(&self) -> (r: QueueConfig)
        ensures
            r.name@ == self.name@,
            r.max_size == self.max_size,
            r.ttl_seconds == self.ttl_seconds,
    {
        QueueConfig { name: self.name.clone(), max_size: self.max_size, ttl_seconds: self.ttl_seconds }
    }
}

/// What a frame asks for or answers.
#[derive(Clone, Copy, Debug, PartialEq, Eq, Structural)]
pub enum Command {
    Ping,
    Pong,
    Auth,
    AuthResponse,
    CreateQueue,
    SendMessage,
    ReceiveMessage,
    AckMessage,
    DeleteQueue,
    Error,
}

/// The bytes of an optional byte vector.
pub open spec fn opt_bytes(o: Option<Vec<u8>>) -> Option<Seq<u8>> {
    match o {
        Some(v) => Some(v@),
        None => None,
    }
}

/// One unit of the relay protocol: a command, the sender's fresh nonce,
/// the nonce of the request it answers (if it is a response), and a payload.
#[derive(Debug)]
pub struct Frame {
    pub version: u8,
    pub command: Command,
    pub nonce: Vec<u8>,
    pub request_nonce: Option<Vec<u8>>,
    pub payload: Vec<u8>,
}

impl Frame {
    /// A request frame with a fresh nonce.
    pub fn new(command: Command, payload: Vec<u8>) -> (f: Frame)
        ensures
            f.version == crate::protocol::constants::PROTOCOL_VERSION,
            f.command == command,
            f.nonce@.len() == crate::protocol::constants::NONCE_LENGTH,
            f.request_nonce is None,
            f.payload@ == payload@,
    {
        Frame {
            version: crate::protocol::constants::PROTOCOL_VERSION,
            command,
            nonce: generate_nonce(),
            request_nonce: None,
            payload,
        }
    }

    /// A response to `request`, with a fresh nonce, carrying the request's
    /// nonce.
    pub fn response_to(request: &Frame, command: Command, payload: Vec<u8>) -> (f: Frame)
        ensures
            f.version == crate::protocol::constants::PROTOCOL_VERSION,
            f.command == command,
            f.nonce@.len() == crate::protocol::constants::NONCE_LENGTH,
            opt_bytes(f.request_nonce) == Some(request.nonce@),
            f.payload@ == payload@,
    {
        Frame {
            version: crate::protocol::constants::PROTOCOL_VERSION,
            command,
            nonce: generate_nonce(),
            request_nonce: Some(request.nonce.clone()),
            payload,
        }
    }
}

/// What a client sends to authenticate: its Ed25519 identity key, its
/// signature over the nonce the relay issued, and that nonce.
#[derive(Debug)]
pub struct AuthRequest {
    pub identity_key: Vec<u8>,
    pub signature: Vec<u8>,
    pub server_nonce: Vec<u8>,
}

/// A request for messages of a queue.
#[derive(Debug)]
pub struct SubscribeRequest {
    pub queue_id: QueueId,
    pub since_message_id: Option<MessageId>,
    pub batch_size: usize,
}

/// An acknowledgement of messages of a queue.
#[derive(Debug)]
pub struct AckRequest {
    pub queue_id: QueueId,
    pub message_ids: Vec<MessageId>,
}

#[verifier::external_type_specification]
#[verifier::external_body]
pub struct ExSystemTime(std::time::SystemTime);

#[verifier::external_type_specification]
#[verifier::external_body]
pub struct ExSystemTimeError(std::time::SystemTimeError);

/// Calls `std::time::SystemTime::now`. Nothing is claimed of the reading,
/// which depends on the machine's clock.
#[verifier::external_body]
fn clock_now() -> std::time::SystemTime {
    std::time::SystemTime::now()
}

/// Calls `duration_since(UNIX_EPOCH)` on `t`: an error for a time before
/// the epoch. Nothing is claimed of the result.
#[verifier::external_body]
fn since_unix_epoch(t: &std::time::SystemTime) -> Result<core::time::Duration, std::time::SystemTimeError> {
    t.duration_since(std::time::UNIX_EPOCH)
}

/// Calls `Duration::as_secs`. Nothing is claimed of the result: a
/// duration's contents are not visible here.
#[verifier::external_body]
fn whole_seconds(d: &core::time::Duration) -> u64 {
    d.as_secs()
}

/// Seconds since the Unix epoch by the machine's clock, or 0 if the clock
/// stands before the epoch.
pub fn now_secs() -> u64 {
    let t = clock_now();
    match since_unix_epoch(&t) {
        Ok(d) => whole_seconds(&d),
        Err(_) => 0,
    }
}

/// `N` random bytes from the thread-local generator
/// (`rand::RngCore::fill_bytes` on `rand::thread_rng()`). Nothing is
/// claimed of their value.
#[verifier::external_body]
fn random_array<const N: usize>() -> [u8; N] {
    let mut buf = [0u8; N];
    rand::RngCore::fill_bytes(&mut rand::thread_rng(), &mut buf);
    buf
}

/// A fresh nonce: the clock time in eight big-endian bytes followed by
/// eight random bytes.
pub fn generate_nonce() -> (r: Vec<u8>)
    ensures
        r@.len() == crate::protocol::constants::NONCE_LENGTH,
        exists|now: u64| r@.subrange(0, 8) == #[trigger] crate::bytes::be_bytes_u64(now),
{
    let now = now_secs();
    let mut r = crate::bytes::u64_to_be(now);
    let tail: [u8; 8] = random_array();
    crate::bytes::append_bytes(&mut r, &tail);
    assert(r@.subrange(0, 8) =~= crate::bytes::be_bytes_u64(now));
    r
}

impl QueueId {
    /// A random queue identifier.
    pub fn generate() -> QueueId {
        QueueId(random_array())
    }
}

} // verus!
