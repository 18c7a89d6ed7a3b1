use vstd::prelude::*;
use crate::bytes::{hex_chars, hex_string};
use crate::protocol::constants::{BACKPRESSURE_THRESHOLD, MAX_PAYLOAD_SIZE, MAX_QUEUES_PER_CONNECTION};
use crate::protocol::error::ProtocolError;
use crate::protocol::handshake::{
    auth_effect, handshake_effect, name_verdict, server_authenticate, server_handshake,
    validate_queue_name, NameVerdict,
};
use crate::protocol::queue::{deliverable_count, pull_outcome, push_outcome, Queue};
use crate::protocol::session::{nonce_outcome, NonceState, Session};
use crate::protocol::types::{
    id_view, models, now_secs, opt_bytes, AckRequest, AuthRequest, Command, Frame, Message, MessageId,
    QueueConfig, QueueId, SubscribeRequest,
};

verus! {

/// A queue, under the hexadecimal text of its identifier.
pub struct QueueEntry {
    pub key: String,
    pub queue: Queue,
}

/// A queue name and the key of the queue that bears it.
pub struct NameEntry {
    pub name: String,
    pub key: String,
}

/// The session of one connection.
pub struct SessionEntry {
    pub connection: String,
    pub session: Session,
}

/// A frame together with what its payload decoded to (or the decoding
/// error's text), by command. `Other` stands for the commands a client does
/// not send (`Pong`, `AuthResponse`, `Error`).
pub enum Request {
    Ping,
    Auth(Result<AuthRequest, String>),
    CreateQueue(Result<QueueConfig, String>),
    SendMessage(Result<Message, String>),
    ReceiveMessage(Result<SubscribeRequest, String>),
    AckMessage(Result<AckRequest, String>),
    DeleteQueue(Result<QueueId, String>),
    Other,
}

/// What the relay answers: a complete frame; or a `CreateQueue` answer
/// whose payload is to be the new queue's identifier; or a
/// `ReceiveMessage` answer whose payload is to be the messages.
pub enum Reply {
    Frame(Frame),
    Created(Frame, QueueId),
    Messages(Frame, Vec<Message>),
}

/// Position of the first of `keys` equal to `k`.
pub open spec fn first_key(keys: Seq<Seq<char>>, k: Seq<char>) -> Option<int> {
    if exists|i: int| 0 <= i < keys.len() && keys[i] == k {
        Some(choose|i: int| 0 <= i < keys.len() && keys[i] == k && forall|j: int| 0 <= j < i ==> keys[j] != k)
    } else {
        None
    }
}

proof fn lemma_first_key(keys: Seq<Seq<char>>, i: int, k: Seq<char>)
    requires
        0 <= i < keys.len(),
        keys[i] == k,
        forall|j: int| 0 <= j < i ==> keys[j] != k,
    ensures
        first_key(keys, k) == Some(i),
{
    let p = |c: int| 0 <= c < keys.len() && keys[c] == k && forall|j: int| 0 <= j < c ==> keys[j] != k;
    assert(p(i));
    let c = choose|c: int| 0 <= c < keys.len() && keys[c] == k && forall|j: int| 0 <= j < c ==> keys[j] != k;
    assert(p(c));
    if c < i {
        assert(keys[c] != k);
    } else if c > i {
        assert(keys[i] != k);
    }
}

/// No key occurs twice.
pub open spec fn keys_unique(keys: Seq<Seq<char>>) -> bool {
    forall|i: int, j: int| 0 <= i < keys.len() && 0 <= j < keys.len() && i != j ==> keys[i] != keys[j]
}

/// Appending a key not yet present keeps the keys unique.
proof fn lemma_unique_push(keys: Seq<Seq<char>>, k: Seq<char>)
    requires
        keys_unique(keys),
        forall|i: int| 0 <= i < keys.len() ==> keys[i] != k,
    ensures
        keys_unique(keys.push(k)),
{
}

/// Removing a key keeps the keys unique.
proof fn lemma_unique_remove(keys: Seq<Seq<char>>, r: int)
    requires
        keys_unique(keys),
        0 <= r < keys.len(),
    ensures
        keys_unique(keys.remove(r)),
{
    let t = keys.remove(r);
    assert forall|i: int, j: int| 0 <= i < t.len() && 0 <= j < t.len() && i != j implies t[i] != t[j] by {
        let a = if i < r { i } else { i + 1 };
        let b = if j < r { j } else { j + 1 };
        assert(t[i] == keys[a] && t[j] == keys[b]);
    }
}

/// Keeping only the sessions that satisfy `p` keeps connections unique.
proof fn lemma_unique_filter_sessions(v: Seq<SessionEntry>, p: spec_fn(SessionEntry) -> bool)
    requires
        keys_unique(session_keys(v)),
    ensures
        keys_unique(session_keys(v.filter(p))),
    decreases v.len(),
{
    if v.len() > 0 {
        let pre = v.drop_last();
        assert(session_keys(pre) =~= session_keys(v).remove(v.len() - 1));
        lemma_unique_remove(session_keys(v), v.len() - 1);
        lemma_unique_filter_sessions(pre, p);
        assert(v =~= pre.push(v.last()));
        pre.lemma_filter_push(v.last(), p);
        if p(v.last()) {
            let f = pre.filter(p);
            assert forall|i: int| 0 <= i < session_keys(f).len() implies session_keys(f)[i] != v.last().connection@ by {
                assert(f.contains(f[i]));
                pre.lemma_filter_contains_rev(p, f[i]);
                let k = choose|k: int| 0 <= k < pre.len() && pre[k] == f[i];
                assert(session_keys(v)[k] == f[i].connection@);
                assert(session_keys(v)[v.len() - 1] == v.last().connection@);
            }
            assert(session_keys(f.push(v.last())) =~= session_keys(f).push(v.last().connection@));
            lemma_unique_push(session_keys(f), v.last().connection@);
        }
    }
}

/// The keys of the queue table.
pub open spec fn queue_keys(v: Seq<QueueEntry>) -> Seq<Seq<char>> {
    v.map_values(|e: QueueEntry| e.key@)
}

/// The names of the name table.
pub open spec fn name_keys(v: Seq<NameEntry>) -> Seq<Seq<char>> {
    v.map_values(|e: NameEntry| e.name@)
}

/// The connections of the session table.
pub open spec fn session_keys(v: Seq<SessionEntry>) -> Seq<Seq<char>> {
    v.map_values(|e: SessionEntry| e.connection@)
}

/// How many messages of all queues are deliverable at clock time `now`.
pub open spec fn total_pending(v: Seq<QueueEntry>, now: u64) -> nat
    decreases v.len(),
{
    if v.len() == 0 {
        0
    } else {
        total_pending(v.drop_last(), now) + deliverable_count(v.last().queue.msgs(), now)
    }
}

/// `after` is `before` with entry `i` replaced.
pub open spec fn others_kept<T>(before: Seq<T>, after: Seq<T>, i: int) -> bool {
    &&& after.len() == before.len()
    &&& 0 <= i < before.len()
    &&& forall|j: int| 0 <= j < before.len() && j != i ==> after[j] == before[j]
}

/// `after` is `before` with one entry appended.
pub open spec fn appended<T>(before: Seq<T>, after: Seq<T>) -> bool {
    &&& after.len() == before.len() + 1
    &&& forall|j: int| 0 <= j < before.len() ==> after[j] == before[j]
}

/// A session as a new connection gets it at clock time `now`.
pub open spec fn fresh_session(s: Session, now: u64) -> bool {
    &&& s.wf()
    &&& s.identity_key@ == Seq::<u8>::empty()
    &&& !s.authenticated
    &&& s.connected_at == now
    &&& s.queue_count == 0
    &&& s.nonces() == (NonceState { used: Seq::empty(), issued: Seq::empty(), since_cleanup: 0, last_seen: now })
}

/// A queue as `CreateQueue` makes it at clock time `now`.
pub open spec fn fresh_queue(q: Queue, id: QueueId, cfg: QueueConfig, now: u64) -> bool {
    &&& q.wf()
    &&& q.msgs() == Seq::<crate::protocol::types::MessageModel>::empty()
    &&& q.cursor() == 0
    &&& q.id == id
    &&& q.name@ == cfg.name@
    &&& q.config.name@ == cfg.name@
    &&& q.config.max_size == cfg.max_size
    &&& q.config.ttl_seconds == cfg.ttl_seconds
    &&& q.subscribers@ == Seq::<String>::empty()
    &&& q.created_at == now
}

/// `f` answers `request` with `command` and the given payload.
pub open spec fn answers(f: Frame, request: Frame, command: Command, payload: Seq<u8>) -> bool {
    f.command == command && opt_bytes(f.request_nonce) == Some(request.nonce@) && f.payload@ == payload
}

/// A reply that is a complete frame, as a frame result.
pub open spec fn frame_result(r: Result<Reply, ProtocolError>) -> Result<Frame, ProtocolError> {
    match r {
        Ok(Reply::Frame(f)) => Ok(f),
        Ok(Reply::Created(f, _)) => Ok(f),
        Ok(Reply::Messages(f, _)) => Ok(f),
        Err(e) => Err(e),
    }
}

/// The relay's shared state: its queues, their names and the sessions of
/// its connections.
pub struct RmpServer {
    pub queues: Vec<QueueEntry>,
    pub queue_names: Vec<NameEntry>,
    pub sessions: Vec<SessionEntry>,
}

/// Whether `r` is `AuthenticationFailed` with the given text.
pub open spec fn refused_auth(r: Result<Reply, ProtocolError>, text: Seq<char>) -> bool {
    r matches Err(ProtocolError::AuthenticationFailed(s)) && s@ == text
}

impl RmpServer {
    /// Every queue and session keeps its own invariant, and each table
    /// holds a key at most once.
    pub open spec fn wf(&self) -> bool {
        &&& forall|i: int| 0 <= i < self.queues@.len() ==> (#[trigger] self.queues@[i]).queue.wf()
        &&& forall|i: int| 0 <= i < self.sessions@.len() ==> (#[trigger] self.sessions@[i]).session.wf()
        &&& keys_unique(queue_keys(self.queues@))
        &&& keys_unique(name_keys(self.queue_names@))
        &&& keys_unique(session_keys(self.sessions@))
    }

    /// A relay with no queues and no sessions.
    pub fn new() -> (r: RmpServer)
        ensures
            r.wf(),
            r.queues@.len() == 0,
            r.queue_names@.len() == 0,
            r.sessions@.len() == 0,
    {
        RmpServer { queues: Vec::new(), queue_names: Vec::new(), sessions: Vec::new() }
    }
}


/// The three tables are as they were.
pub open spec fn tables_kept(before: RmpServer, after: RmpServer) -> bool {
    &&& after.queues@ == before.queues@
    &&& after.queue_names@ == before.queue_names@
    &&& after.sessions@ == before.sessions@
}

/// `after` is the session `before` with one more (`delta == 1`) or one
/// fewer (never below zero, `delta == -1`) queue counted.
pub open spec fn recounted(before: Session, after: Session, delta: int) -> bool {
    &&& after.wf()
    &&& after.nonces() == before.nonces()
    &&& after.identity_key@ == before.identity_key@
    &&& after.authenticated == before.authenticated
    &&& after.connected_at == before.connected_at
    &&& after.queue_count == if delta > 0 {
        before.queue_count + 1
    } else if before.queue_count > 0 {
        before.queue_count - 1
    } else {
        0
    }
}

/// The refusal of a queue name that `name_verdict` does not accept.
pub open spec fn name_refused(name: Seq<char>, r: Result<Reply, ProtocolError>) -> bool {
    match name_verdict(name) {
        NameVerdict::Invalid => r matches Err(ProtocolError::InvalidQueueName(s)) && s@ == name,
        NameVerdict::Reserved => r matches Err(ProtocolError::InvalidQueueName(s)) && s@ == "Reserved name prefix"@,
        NameVerdict::Valid => false,
    }
}

/// What `CreateQueue` does for connection `conn`: refused with
/// `AuthenticationFailed("Session lost")` without a session, with
/// `TooManyQueues` when the connection owns `MAX_QUEUES_PER_CONNECTION`
/// queues, with `DecodingFailed` for an undecodable configuration, for a bad
/// name (see `name_verdict`), with `QueueNameExists` for a name in use, and
/// with `TooManyQueues` when the relay holds 100 times
/// `MAX_QUEUES_PER_CONNECTION` queues; otherwise a fresh queue with a new
/// identifier is stored under the identifier's hexadecimal text, its name is
/// recorded, and the connection owns one more queue.
pub open spec fn create_outcome(mid: RmpServer, new: RmpServer, frame: Frame, conn: Seq<char>, decoded: Result<QueueConfig, String>, now: u64, r: Result<Reply, ProtocolError>) -> bool {
    match first_key(session_keys(mid.sessions@), conn) {
        None => refused_auth(r, "Session lost"@) && tables_kept(mid, new),
        Some(i) => {
            let s = mid.sessions@[i].session;
            if s.queue_count >= MAX_QUEUES_PER_CONNECTION {
                r matches Err(ProtocolError::TooManyQueues) && tables_kept(mid, new)
            } else {
                match decoded {
                    Err(e) => (r matches Err(ProtocolError::DecodingFailed(t)) && t@ == e@) && tables_kept(mid, new),
                    Ok(cfg) => if !(name_verdict(cfg.name@) is Valid) {
                        name_refused(cfg.name@, r) && tables_kept(mid, new)
                    } else if first_key(name_keys(mid.queue_names@), cfg.name@) is Some {
                        r matches Err(ProtocolError::QueueNameExists) && tables_kept(mid, new)
                    } else if mid.queues@.len() >= MAX_QUEUES_PER_CONNECTION * 100 {
                        r matches Err(ProtocolError::TooManyQueues) && tables_kept(mid, new)
                    } else {
                        r matches Ok(Reply::Created(f, id)) && {
                            let key = hex_chars(id@);
                            &&& answers(f, frame, Command::CreateQueue, Seq::empty())
                            &&& appended(mid.queue_names@, new.queue_names@)
                            &&& new.queue_names@.last().name@ == cfg.name@
                            &&& new.queue_names@.last().key@ == key
                            &&& match first_key(queue_keys(mid.queues@), key) {
                                Some(j) => others_kept(mid.queues@, new.queues@, j) && new.queues@[j].key@ == key
                                    && fresh_queue(new.queues@[j].queue, id, cfg, now),
                                None => appended(mid.queues@, new.queues@) && new.queues@.last().key@ == key
                                    && fresh_queue(new.queues@.last().queue, id, cfg, now),
                            }
                            &&& others_kept(mid.sessions@, new.sessions@, i)
                            &&& new.sessions@[i].connection == mid.sessions@[i].connection
                            &&& recounted(s, new.sessions@[i].session, 1)
                        }
                    },
                }
            }
        },
    }
}

/// What `SendMessage` does: refused with `DecodingFailed`, with
/// `PayloadTooLarge(len)` beyond `MAX_PAYLOAD_SIZE`, with `MessageExpired`,
/// with `Backpressure` when more than `BACKPRESSURE_THRESHOLD` messages are
/// pending over all queues, and with `QueueNotFound`; otherwise the message
/// is pushed onto its queue (see `push_outcome`, whose refusal is passed on).
pub open spec fn send_outcome(mid: RmpServer, new: RmpServer, frame: Frame, decoded: Result<Message, String>, now: u64, r: Result<Reply, ProtocolError>) -> bool {
    match decoded {
        Err(e) => (r matches Err(ProtocolError::DecodingFailed(t)) && t@ == e@) && tables_kept(mid, new),
        Ok(msg) => if msg.payload@.len() > MAX_PAYLOAD_SIZE {
            (r matches Err(ProtocolError::PayloadTooLarge(n)) && n == msg.payload@.len()) && tables_kept(mid, new)
        } else if msg@.expired_at(now) {
            r matches Err(ProtocolError::MessageExpired) && tables_kept(mid, new)
        } else if total_pending(mid.queues@, now) > BACKPRESSURE_THRESHOLD {
            r matches Err(ProtocolError::Backpressure) && tables_kept(mid, new)
        } else {
            match first_key(queue_keys(mid.queues@), hex_chars(msg.queue_id@)) {
                None => r matches Err(ProtocolError::QueueNotFound) && tables_kept(mid, new),
                Some(j) => {
                    &&& others_kept(mid.queues@, new.queues@, j)
                    &&& new.queues@[j].key == mid.queues@[j].key
                    &&& new.queues@[j].queue.same_header(&mid.queues@[j].queue)
                    &&& new.queue_names@ == mid.queue_names@
                    &&& new.sessions@ == mid.sessions@
                    &&& exists|rp: Result<(), ProtocolError>| {
                        &&& #[trigger] push_outcome(mid.queues@[j].queue.state(), mid.queues@[j].queue.config.max_size, msg@, now, new.queues@[j].queue.state(), rp)
                        &&& rp matches Err(e) ==> r == Err::<Reply, ProtocolError>(e)
                        &&& rp is Ok ==> (r matches Ok(Reply::Frame(f)) && answers(f, frame, Command::SendMessage, Seq::empty()))
                    }
                },
            }
        },
    }
}

/// What `ReceiveMessage` does: refused with `DecodingFailed` and
/// `QueueNotFound`; otherwise a pull on the queue (see `pull_outcome`) whose
/// messages are the answer.
pub open spec fn receive_outcome(mid: RmpServer, new: RmpServer, frame: Frame, decoded: Result<SubscribeRequest, String>, now: u64, r: Result<Reply, ProtocolError>) -> bool {
    match decoded {
        Err(e) => (r matches Err(ProtocolError::DecodingFailed(t)) && t@ == e@) && tables_kept(mid, new),
        Ok(req) => match first_key(queue_keys(mid.queues@), hex_chars(req.queue_id@)) {
            None => r matches Err(ProtocolError::QueueNotFound) && tables_kept(mid, new),
            Some(j) => r matches Ok(Reply::Messages(f, msgs)) && {
                &&& answers(f, frame, Command::ReceiveMessage, Seq::empty())
                &&& others_kept(mid.queues@, new.queues@, j)
                &&& new.queues@[j].key == mid.queues@[j].key
                &&& new.queues@[j].queue.same_header(&mid.queues@[j].queue)
                &&& pull_outcome(mid.queues@[j].queue.state(), match req.since_message_id { Some(id) => Some(id@), None => None }, req.batch_size as int, now, new.queues@[j].queue.state(), models(msgs@))
                &&& new.queue_names@ == mid.queue_names@
                &&& new.sessions@ == mid.sessions@
            },
        },
    }
}

/// What `AckMessage` does: refused with `DecodingFailed` and
/// `QueueNotFound`; otherwise the listed messages of the queue are marked
/// acknowledged.
pub open spec fn ack_outcome(mid: RmpServer, new: RmpServer, frame: Frame, decoded: Result<AckRequest, String>, r: Result<Reply, ProtocolError>) -> bool {
    match decoded {
        Err(e) => (r matches Err(ProtocolError::DecodingFailed(t)) && t@ == e@) && tables_kept(mid, new),
        Ok(req) => match first_key(queue_keys(mid.queues@), hex_chars(req.queue_id@)) {
            None => r matches Err(ProtocolError::QueueNotFound) && tables_kept(mid, new),
            Some(j) => r matches Ok(Reply::Frame(f)) && {
                &&& answers(f, frame, Command::AckMessage, Seq::empty())
                &&& others_kept(mid.queues@, new.queues@, j)
                &&& new.queues@[j].key == mid.queues@[j].key
                &&& new.queues@[j].queue.same_header(&mid.queues@[j].queue)
                &&& new.queues@[j].queue.cursor() == mid.queues@[j].queue.cursor()
                &&& new.queues@[j].queue.msgs() == mid.queues@[j].queue.msgs().map_values(
                    |m: crate::protocol::types::MessageModel| crate::protocol::queue::acked_if_listed(m, req.message_ids@.map_values(|x: MessageId| x@)),
                )
                &&& new.queue_names@ == mid.queue_names@
                &&& new.sessions@ == mid.sessions@
            },
        },
    }
}

/// What `DeleteQueue` does: refused with `DecodingFailed` and
/// `QueueNotFound`; otherwise the queue is removed, so is its name, and the
/// connection owns one queue fewer.
pub open spec fn delete_outcome(mid: RmpServer, new: RmpServer, frame: Frame, conn: Seq<char>, decoded: Result<QueueId, String>, r: Result<Reply, ProtocolError>) -> bool {
    match decoded {
        Err(e) => (r matches Err(ProtocolError::DecodingFailed(t)) && t@ == e@) && tables_kept(mid, new),
        Ok(qid) => match first_key(queue_keys(mid.queues@), hex_chars(qid@)) {
            None => r matches Err(ProtocolError::QueueNotFound) && tables_kept(mid, new),
            Some(j) => r matches Ok(Reply::Frame(f)) && {
                &&& answers(f, frame, Command::DeleteQueue, Seq::empty())
                &&& new.queues@ == mid.queues@.remove(j)
                &&& match first_key(name_keys(mid.queue_names@), mid.queues@[j].queue.name@) {
                    Some(k) => new.queue_names@ == mid.queue_names@.remove(k),
                    None => new.queue_names@ == mid.queue_names@,
                }
                &&& match first_key(session_keys(mid.sessions@), conn) {
                    Some(i) => others_kept(mid.sessions@, new.sessions@, i)
                        && new.sessions@[i].connection == mid.sessions@[i].connection
                        && recounted(mid.sessions@[i].session, new.sessions@[i].session, -1),
                    None => new.sessions@ == mid.sessions@,
                }
            },
        },
    }
}

/// What a frame from an authenticated connection does, by command.
pub open spec fn command_outcome(mid: RmpServer, new: RmpServer, frame: Frame, conn: Seq<char>, request: Request, now: u64, r: Result<Reply, ProtocolError>) -> bool {
    match request {
        Request::CreateQueue(d) => create_outcome(mid, new, frame, conn, d, now, r),
        Request::SendMessage(d) => send_outcome(mid, new, frame, d, now, r),
        Request::ReceiveMessage(d) => receive_outcome(mid, new, frame, d, now, r),
        Request::AckMessage(d) => ack_outcome(mid, new, frame, d, r),
        Request::DeleteQueue(d) => delete_outcome(mid, new, frame, conn, d, r),
        _ => (r matches Err(ProtocolError::InvalidFrame(s)) && s@ == "Unknown command"@) && tables_kept(mid, new),
    }
}


/// The position of the first entry of the queue table under `key`.
fn find_queue(v: &Vec<QueueEntry>, key: &String) -> (r: Option<usize>)
    ensures
        match r {
            Some(i) => i < v.len() && first_key(queue_keys(v@), key@) == Some(i as int),
            None => first_key(queue_keys(v@), key@) is None,
        },
{
    let ghost ks = queue_keys(v@);
    let mut i: usize = 0;
    while i < v.len()
        invariant
            i <= v.len(),
            ks == queue_keys(v@),
            forall|j: int| 0 <= j < i ==> ks[j] != key@,
        decreases v.len() - i,
    {
        assert(ks[i as int] == v@[i as int].key@);
        if v[i].key == *key {
            proof {
                lemma_first_key(ks, i as int, key@);
            }
            return Some(i);
        }
        i = i + 1;
    }
    None
}

/// The position of the first entry of the name table for `name`.
fn find_name(v: &Vec<NameEntry>, name: &String) -> (r: Option<usize>)
    ensures
        match r {
            Some(i) => i < v.len() && first_key(name_keys(v@), name@) == Some(i as int),
            None => first_key(name_keys(v@), name@) is None,
        },
{
    let ghost ks = name_keys(v@);
    let mut i: usize = 0;
    while i < v.len()
        invariant
            i <= v.len(),
            ks == name_keys(v@),
            forall|j: int| 0 <= j < i ==> ks[j] != name@,
        decreases v.len() - i,
    {
        assert(ks[i as int] == v@[i as int].name@);
        if v[i].name == *name {
            proof {
                lemma_first_key(ks, i as int, name@);
            }
            return Some(i);
        }
        i = i + 1;
    }
    None
}

/// The position of the first session of connection `conn`.
fn find_session(v: &Vec<SessionEntry>, conn: &String) -> (r: Option<usize>)
    ensures
        match r {
            Some(i) => i < v.len() && first_key(session_keys(v@), conn@) == Some(i as int),
            None => first_key(session_keys(v@), conn@) is None,
        },
{
    let ghost ks = session_keys(v@);
    let mut i: usize = 0;
    while i < v.len()
        invariant
            i <= v.len(),
            ks == session_keys(v@),
            forall|j: int| 0 <= j < i ==> ks[j] != conn@,
        decreases v.len() - i,
    {
        assert(ks[i as int] == v@[i as int].connection@);
        if v[i].connection == *conn {
            proof {
                lemma_first_key(ks, i as int, conn@);
            }
            return Some(i);
        }
        i = i + 1;
    }
    None
}

impl RmpServer {
    /// How many messages of all queues are pending at `now`, as far as
    /// needed to tell whether they exceed `BACKPRESSURE_THRESHOLD`.
    fn over_backpressure(&self, now: u64) -> (r: bool)
        requires
            self.wf(),
        ensures
            r == (total_pending(self.queues@, now) > BACKPRESSURE_THRESHOLD),
    {
        let mut acc: u128 = 0;
        let mut i: usize = 0;
        while i < self.queues.len()
            invariant
                i <= self.queues.len(),
                acc == total_pending(self.queues@.take(i as int), now),
                acc <= BACKPRESSURE_THRESHOLD,
            decreases self.queues.len() - i,
        {
            assert(self.queues@.take(i + 1).drop_last() =~= self.queues@.take(i as int));
            let c = self.queues[i].queue.pending_count_at(now);
            acc = acc + c as u128;
            i = i + 1;
            if acc > BACKPRESSURE_THRESHOLD as u128 {
                proof {
                    lemma_total_pending_prefix(self.queues@, i as int, now);
                }
                return true;
            }
        }
        assert(self.queues@.take(i as int) =~= self.queues@);
        false
    }

    /// The queue, session and pending counts at clock time `now`.
    pub fn stats_at(&self, now: u64) -> (r: (usize, usize, usize))
        requires
            self.wf(),
            total_stored(self.queues@) <= usize::MAX,
        ensures
            r.0 == self.queues@.len(),
            r.1 == self.sessions@.len(),
            r.2 == total_pending(self.queues@, now),
    {
        proof {
            lemma_pending_within_stored(self.queues@, now);
        }
        let mut acc: usize = 0;
        let mut i: usize = 0;
        while i < self.queues.len()
            invariant
                i <= self.queues.len(),
                acc == total_pending(self.queues@.take(i as int), now),
                total_pending(self.queues@, now) <= usize::MAX,
            decreases self.queues.len() - i,
        {
            assert(self.queues@.take(i + 1).drop_last() =~= self.queues@.take(i as int));
            proof {
                lemma_total_pending_prefix(self.queues@, i + 1, now);
            }
            let c = self.queues[i].queue.pending_count_at(now);
            acc = acc + c;
            i = i + 1;
        }
        assert(self.queues@.take(i as int) =~= self.queues@);
        (self.queues.len(), self.sessions.len(), acc)
    }

    /// The queue, session and pending counts by the current clock.
    pub fn stats(&self) -> (r: (usize, usize, usize))
        requires
            self.wf(),
            total_stored(self.queues@) <= usize::MAX,
        ensures
            r.0 == self.queues@.len(),
            r.1 == self.sessions@.len(),
            exists|now: u64| r.2 == #[trigger] total_pending(self.queues@, now),
    {
        let now = now_secs();
        self.stats_at(now)
    }
}

impl RmpServer {
    /// Handles `CreateQueue` with the queue identifier `id`; see
    /// `create_outcome`.
    #[verifier::rlimit(80)]
    pub fn create_queue_with_id(&mut self, frame: &Frame, conn: &String, decoded: Result<QueueConfig, String>, id: QueueId, now: u64) -> (r: Result<Reply, ProtocolError>)
        requires
            old(self).wf(),
        ensures
            final(self).wf(),
            create_outcome(*old(self), *final(self), *frame, conn@, decoded, now, r),
            r matches Ok(Reply::Created(_, got)) ==> got == id,
    {
        let i = match find_session(&self.sessions, conn) {
            Some(i) => i,
            None => return Err(ProtocolError::AuthenticationFailed(String::from_str("Session lost"))),
        };
        if self.sessions[i].session.check_queue_limit().is_err() {
            return Err(ProtocolError::TooManyQueues);
        }
        let config = match decoded {
            Ok(c) => c,
            Err(e) => return Err(ProtocolError::DecodingFailed(e)),
        };
        match validate_queue_name(config.name.as_str()) {
            Ok(()) => {},
            Err(e) => return Err(e),
        }
        if find_name(&self.queue_names, &config.name).is_some() {
            return Err(ProtocolError::QueueNameExists);
        }
        if self.queues.len() >= MAX_QUEUES_PER_CONNECTION * 100 {
            return Err(ProtocolError::TooManyQueues);
        }
        let key = hex_string(&id.0);
        let name = config.name.clone();
        let queue = Queue::new_at(id, config, now);
        self.push_name(name, key.clone());
        self.store_queue(key, queue);
        self.recount_session(i, true);
        Ok(Reply::Created(Frame::response_to(frame, Command::CreateQueue, Vec::new()), id))
    }
}

impl RmpServer {
    /// Records that queue `key` bears `name`.
    fn push_name(&mut self, name: String, key: String)
        requires
            old(self).wf(),
            first_key(name_keys(old(self).queue_names@), name@) is None,
        ensures
            final(self).wf(),
            final(self).queues@ == old(self).queues@,
            final(self).sessions@ == old(self).sessions@,
            appended(old(self).queue_names@, final(self).queue_names@),
            final(self).queue_names@.last().name@ == name@,
            final(self).queue_names@.last().key@ == key@,
    {
        let ghost n = name@;
        self.queue_names.push(NameEntry { name, key });
        proof {
            assert(name_keys(self.queue_names@) =~= name_keys(old(self).queue_names@).push(n));
            lemma_unique_push(name_keys(old(self).queue_names@), n);
        }
    }

    /// Stores `queue` under `key`, replacing the first queue stored there.
    fn store_queue(&mut self, key: String, queue: Queue)
        requires
            old(self).wf(),
            queue.wf(),
        ensures
            final(self).wf(),
            final(self).queue_names@ == old(self).queue_names@,
            final(self).sessions@ == old(self).sessions@,
            match first_key(queue_keys(old(self).queues@), key@) {
                Some(j) => others_kept(old(self).queues@, final(self).queues@, j)
                    && final(self).queues@[j].key@ == key@ && final(self).queues@[j].queue == queue,
                None => appended(old(self).queues@, final(self).queues@)
                    && final(self).queues@.last().key@ == key@ && final(self).queues@.last().queue == queue,
            },
    {
        let found = find_queue(&self.queues, &key);
        let ghost k = key@;
        let entry = QueueEntry { key, queue };
        match found {
            Some(j) => {
                self.queues.set(j, entry);
                proof {
                    assert(queue_keys(self.queues@) =~= queue_keys(old(self).queues@));
                }
            },
            None => {
                self.queues.push(entry);
                proof {
                    assert(queue_keys(self.queues@) =~= queue_keys(old(self).queues@).push(k));
                    lemma_unique_push(queue_keys(old(self).queues@), k);
                }
            },
        }
    }

    /// Counts one more (`more`) or one fewer queue for session `i`.
    fn recount_session(&mut self, i: usize, more: bool)
        requires
            old(self).wf(),
            i < old(self).sessions@.len(),
            more ==> old(self).sessions@[i as int].session.queue_count < usize::MAX,
        ensures
            final(self).wf(),
            final(self).queues@ == old(self).queues@,
            final(self).queue_names@ == old(self).queue_names@,
            others_kept(old(self).sessions@, final(self).sessions@, i as int),
            final(self).sessions@[i as int].connection == old(self).sessions@[i as int].connection,
            recounted(old(self).sessions@[i as int].session, final(self).sessions@[i as int].session, if more { 1 } else { -1 }),
    {
        let mut e = self.sessions.remove(i);
        if more {
            e.session.increment_queues();
        } else {
            e.session.decrement_queues();
        }
        self.sessions.insert(i, e);
        proof {
            assert(self.sessions@ =~= old(self).sessions@.update(i as int, self.sessions@[i as int]));
            assert(session_keys(self.sessions@) =~= session_keys(old(self).sessions@));
        }
    }
}

impl RmpServer {
    /// Handles `SendMessage` at clock time `now`; see `send_outcome`.
    pub fn send_message_at(&mut self, frame: &Frame, decoded: Result<Message, String>, now: u64) -> (r: Result<Reply, ProtocolError>)
        requires
            old(self).wf(),
        ensures
            final(self).wf(),
            send_outcome(*old(self), *final(self), *frame, decoded, now, r),
    {
        let msg = match decoded {
            Ok(m) => m,
            Err(e) => return Err(ProtocolError::DecodingFailed(e)),
        };
        if msg.payload.len() > MAX_PAYLOAD_SIZE {
            return Err(ProtocolError::PayloadTooLarge(msg.payload.len()));
        }
        if msg.is_expired_at(now) {
            return Err(ProtocolError::MessageExpired);
        }
        if self.over_backpressure(now) {
            return Err(ProtocolError::Backpressure);
        }
        let key = hex_string(&msg.queue_id.0);
        let j = match find_queue(&self.queues, &key) {
            Some(j) => j,
            None => return Err(ProtocolError::QueueNotFound),
        };
        let mut e = self.queues.remove(j);
        let rp = e.queue.push_at(msg, now);
        self.queues.insert(j, e);
        proof {
            assert(self.queues@ =~= old(self).queues@.update(j as int, self.queues@[j as int]));
            assert(queue_keys(self.queues@) =~= queue_keys(old(self).queues@));
        }
        match rp {
            Ok(()) => Ok(Reply::Frame(Frame::response_to(frame, Command::SendMessage, Vec::new()))),
            Err(err) => Err(err),
        }
    }

    /// Handles `ReceiveMessage` at clock time `now`; see `receive_outcome`.
    #[verifier::rlimit(50)]
    pub fn receive_messages_at(&mut self, frame: &Frame, decoded: Result<SubscribeRequest, String>, now: u64) -> (r: Result<Reply, ProtocolError>)
        requires
            old(self).wf(),
        ensures
            final(self).wf(),
            receive_outcome(*old(self), *final(self), *frame, decoded, now, r),
    {
        let req = match decoded {
            Ok(q) => q,
            Err(e) => return Err(ProtocolError::DecodingFailed(e)),
        };
        let key = hex_string(&req.queue_id.0);
        let j = match find_queue(&self.queues, &key) {
            Some(j) => j,
            None => return Err(ProtocolError::QueueNotFound),
        };
        let mut e = self.queues.remove(j);
        let since = req.since_message_id.as_ref();
        assert(id_view(since) == match req.since_message_id { Some(id) => Some(id@), None => None });
        let messages = e.queue.pull_at(since, req.batch_size, now);
        self.queues.insert(j, e);
        proof {
            assert(self.queues@ =~= old(self).queues@.update(j as int, self.queues@[j as int]));
            assert(queue_keys(self.queues@) =~= queue_keys(old(self).queues@));
        }
        Ok(Reply::Messages(Frame::response_to(frame, Command::ReceiveMessage, Vec::new()), messages))
    }

    /// Handles `AckMessage`; see `ack_outcome`.
    pub fn ack_messages(&mut self, frame: &Frame, decoded: Result<AckRequest, String>) -> (r: Result<Reply, ProtocolError>)
        requires
            old(self).wf(),
        ensures
            final(self).wf(),
            ack_outcome(*old(self), *final(self), *frame, decoded, r),
    {
        let req = match decoded {
            Ok(q) => q,
            Err(e) => return Err(ProtocolError::DecodingFailed(e)),
        };
        let key = hex_string(&req.queue_id.0);
        let j = match find_queue(&self.queues, &key) {
            Some(j) => j,
            None => return Err(ProtocolError::QueueNotFound),
        };
        let mut e = self.queues.remove(j);
        e.queue.ack(req.message_ids.as_slice());
        self.queues.insert(j, e);
        proof {
            assert(self.queues@ =~= old(self).queues@.update(j as int, self.queues@[j as int]));
            assert(queue_keys(self.queues@) =~= queue_keys(old(self).queues@));
        }
        Ok(Reply::Frame(Frame::response_to(frame, Command::AckMessage, Vec::new())))
    }

    /// Removes and returns queue entry `j`.
    fn take_queue(&mut self, j: usize) -> (r: QueueEntry)
        requires
            old(self).wf(),
            j < old(self).queues@.len(),
        ensures
            final(self).wf(),
            r == old(self).queues@[j as int],
            final(self).queues@ == old(self).queues@.remove(j as int),
            final(self).queue_names@ == old(self).queue_names@,
            final(self).sessions@ == old(self).sessions@,
    {
        let r = self.queues.remove(j);
        proof {
            let q = self.queues@;
            assert forall|i: int| 0 <= i < q.len() implies (#[trigger] q[i]).queue.wf() by {
                if i < j {
                    assert(q[i] == old(self).queues@[i]);
                } else {
                    assert(q[i] == old(self).queues@[i + 1]);
                }
            }
            assert(queue_keys(q) =~= queue_keys(old(self).queues@).remove(j as int));
            lemma_unique_remove(queue_keys(old(self).queues@), j as int);
        }
        r
    }

    /// Forgets the first record of queue name `name`, if any.
    fn forget_name(&mut self, name: &String)
        requires
            old(self).wf(),
        ensures
            final(self).wf(),
            final(self).queues@ == old(self).queues@,
            final(self).sessions@ == old(self).sessions@,
            match first_key(name_keys(old(self).queue_names@), name@) {
                Some(k) => final(self).queue_names@ == old(self).queue_names@.remove(k),
                None => final(self).queue_names@ == old(self).queue_names@,
            },
    {
        match find_name(&self.queue_names, name) {
            Some(k) => {
                self.queue_names.remove(k);
                proof {
                    assert(name_keys(self.queue_names@) =~= name_keys(old(self).queue_names@).remove(k as int));
                    lemma_unique_remove(name_keys(old(self).queue_names@), k as int);
                }
            },
            None => {},
        }
    }

    /// Handles `DeleteQueue` for connection `conn`; see `delete_outcome`.
    pub fn delete_queue(&mut self, frame: &Frame, conn: &String, decoded: Result<QueueId, String>) -> (r: Result<Reply, ProtocolError>)
        requires
            old(self).wf(),
        ensures
            final(self).wf(),
            delete_outcome(*old(self), *final(self), *frame, conn@, decoded, r),
    {
        let qid = match decoded {
            Ok(q) => q,
            Err(e) => return Err(ProtocolError::DecodingFailed(e)),
        };
        let key = hex_string(&qid.0);
        let j = match find_queue(&self.queues, &key) {
            Some(j) => j,
            None => return Err(ProtocolError::QueueNotFound),
        };
        let removed = self.take_queue(j);
        self.forget_name(&removed.queue.name);
        match find_session(&self.sessions, conn) {
            Some(i) => {
                self.recount_session(i, false);
            },
            None => {},
        }
        Ok(Reply::Frame(Frame::response_to(frame, Command::DeleteQueue, Vec::new())))
    }
}

/// Where a `Ping` or `Auth` finds its session: the first session of the
/// connection, or a fresh one appended.
pub open spec fn session_slot(before: Seq<SessionEntry>, conn: Seq<char>) -> int {
    match first_key(session_keys(before), conn) {
        Some(i) => i,
        None => before.len() as int,
    }
}

/// `after` holds, at `session_slot`, the session `s0` a `Ping` or `Auth`
/// starts from (the connection's, or a fresh one appended), the other
/// sessions unchanged.
pub open spec fn slot_ok(before: Seq<SessionEntry>, after: Seq<SessionEntry>, conn: Seq<char>, now: u64, s0: Session) -> bool {
    match first_key(session_keys(before), conn) {
        Some(i) => s0 == before[i].session && others_kept(before, after, i) && after[i].connection == before[i].connection,
        None => fresh_session(s0, now) && appended(before, after) && after.last().connection@ == conn,
    }
}

/// `after` is `before` seen at clock time `now`.
pub open spec fn touched(before: Session, after: Session, now: u64) -> bool {
    &&& after.wf()
    &&& after.same_identity(&before)
    &&& after.nonces() == (NonceState { last_seen: now, ..before.nonces() })
}

/// What the relay does with one frame from connection `conn` at clock time
/// `now`. A `Ping` is answered by the connection's session (opened if
/// needed) with a fresh nonce. An `Auth` frame's nonce is checked and stored
/// by the connection's session (opened if needed), which then handles the
/// authentication. Any other frame needs an authenticated session
/// (`AuthenticationFailed("No session")`, `AuthenticationFailed("Not
/// authenticated")`), whose nonce check it must pass; the session is then
/// seen at `now` and the command carried out (see `command_outcome`).
pub open spec fn frame_outcome(old: RmpServer, new: RmpServer, frame: Frame, conn: Seq<char>, request: Request, now: u64, r: Result<Reply, ProtocolError>) -> bool {
    match request {
        Request::Ping => ping_outcome(old, new, frame, conn, now, r),
        Request::Auth(decoded) => auth_outcome(old, new, frame, conn, decoded, now, r),
        _ => guarded_outcome(old, new, frame, conn, request, now, r),
    }
}

/// What a `Ping` does; see `frame_outcome`.
pub open spec fn ping_outcome(old: RmpServer, new: RmpServer, frame: Frame, conn: Seq<char>, now: u64, r: Result<Reply, ProtocolError>) -> bool {
    &&& new.queues@ == old.queues@
    &&& new.queue_names@ == old.queue_names@
    &&& r matches Ok(x) ==> x is Frame
    &&& exists|s0: Session| #[trigger] slot_ok(old.sessions@, new.sessions@, conn, now, s0)
        && handshake_effect(s0, new.sessions@[session_slot(old.sessions@, conn)].session, frame, frame_result(r))
}

/// What an `Auth` frame does; see `frame_outcome`.
pub open spec fn auth_outcome(old: RmpServer, new: RmpServer, frame: Frame, conn: Seq<char>, decoded: Result<AuthRequest, String>, now: u64, r: Result<Reply, ProtocolError>) -> bool {
    &&& new.queues@ == old.queues@
    &&& new.queue_names@ == old.queue_names@
    &&& r matches Ok(x) ==> x is Frame
    &&& exists|s0: Session, s1: Session, rn: Result<(), ProtocolError>| {
        let s2 = new.sessions@[session_slot(old.sessions@, conn)].session;
        &&& #[trigger] slot_ok(old.sessions@, new.sessions@, conn, now, s0)
        &&& s1.wf()
        &&& s1.same_identity(&s0)
        &&& #[trigger] nonce_outcome(s0.nonces(), frame.nonce@, now, s1.nonces(), rn)
        &&& rn matches Err(e) ==> r == Err::<Reply, ProtocolError>(e) && s2 == s1
        &&& rn is Ok ==> auth_effect(s1, s2, frame, decoded, frame_result(r))
    }
}

/// What any other frame does; see `frame_outcome`.
pub open spec fn guarded_outcome(old: RmpServer, new: RmpServer, frame: Frame, conn: Seq<char>, request: Request, now: u64, r: Result<Reply, ProtocolError>) -> bool {
    match first_key(session_keys(old.sessions@), conn) {
        None => refused_auth(r, "No session"@) && tables_kept(old, new),
        Some(i) => {
            let s = old.sessions@[i].session;
            if !s.authenticated {
                refused_auth(r, "Not authenticated"@) && tables_kept(old, new)
            } else {
                exists|s1: Session, rn: Result<(), ProtocolError>| {
                    &&& s1.wf()
                    &&& s1.same_identity(&s)
                    &&& #[trigger] nonce_outcome(s.nonces(), frame.nonce@, now, s1.nonces(), rn)
                    &&& rn matches Err(e) ==> {
                        &&& r == Err::<Reply, ProtocolError>(e)
                        &&& new.queues@ == old.queues@
                        &&& new.queue_names@ == old.queue_names@
                        &&& others_kept(old.sessions@, new.sessions@, i)
                        &&& new.sessions@[i].connection == old.sessions@[i].connection
                        &&& new.sessions@[i].session == s1
                    }
                    &&& rn is Ok ==> exists|mid: RmpServer| {
                        &&& mid.queues@ == old.queues@
                        &&& mid.queue_names@ == old.queue_names@
                        &&& others_kept(old.sessions@, mid.sessions@, i)
                        &&& mid.sessions@[i].connection == old.sessions@[i].connection
                        &&& touched(s1, mid.sessions@[i].session, now)
                        &&& #[trigger] command_outcome(mid, new, frame, conn, request, now, r)
                    }
                }
            }
        },
    }
}

impl RmpServer {
    /// Carries out the command of a frame from an authenticated connection;
    /// see `command_outcome`. A new queue gets a random identifier.
    pub fn handle_authenticated_frame_at(&mut self, frame: &Frame, conn: &String, request: Request, now: u64) -> (r: Result<Reply, ProtocolError>)
        requires
            old(self).wf(),
        ensures
            final(self).wf(),
            command_outcome(*old(self), *final(self), *frame, conn@, request, now, r),
    {
        match request {
            Request::CreateQueue(d) => {
                let id = QueueId::generate();
                self.create_queue_with_id(frame, conn, d, id, now)
            },
            Request::SendMessage(d) => self.send_message_at(frame, d, now),
            Request::ReceiveMessage(d) => self.receive_messages_at(frame, d, now),
            Request::AckMessage(d) => self.ack_messages(frame, d),
            Request::DeleteQueue(d) => self.delete_queue(frame, conn, d),
            _ => Err(ProtocolError::InvalidFrame(String::from_str("Unknown command"))),
        }
    }

    /// The slot of the connection's session, a fresh one (opened at `now`)
    /// appended when there is none.
    fn open_session(&mut self, conn: &String, now: u64) -> (i: usize)
        requires
            old(self).wf(),
        ensures
            final(self).wf(),
            i == session_slot(old(self).sessions@, conn@),
            i < final(self).sessions@.len(),
            final(self).queues@ == old(self).queues@,
            final(self).queue_names@ == old(self).queue_names@,
            slot_ok(old(self).sessions@, final(self).sessions@, conn@, now, final(self).sessions@[i as int].session),
    {
        match find_session(&self.sessions, conn) {
            Some(i) => i,
            None => {
                let session = Session::new_at(Vec::new(), now);
                assert(session.identity_key@ =~= Seq::<u8>::empty());
                self.sessions.push(SessionEntry { connection: conn.clone(), session });
                proof {
                    assert(session_keys(self.sessions@) =~= session_keys(old(self).sessions@).push(conn@));
                    lemma_unique_push(session_keys(old(self).sessions@), conn@);
                }
                self.sessions.len() - 1
            },
        }
    }
}

impl RmpServer {
    /// Answers a `Ping`; see `ping_outcome`.
    #[verifier::spinoff_prover]
    fn ping_at(&mut self, frame: &Frame, conn: &String, now: u64) -> (r: Result<Reply, ProtocolError>)
        requires
            old(self).wf(),
        ensures
            final(self).wf(),
            ping_outcome(*old(self), *final(self), *frame, conn@, now, r),
    {
        let i = self.open_session(conn, now);
        let ghost mid = self.sessions@;
        let ghost s0 = mid[i as int].session;
        let mut e = self.sessions.remove(i);
        let hr = server_handshake(&mut e.session, frame);
        self.sessions.insert(i, e);
        proof {
            assert(self.sessions@ =~= mid.update(i as int, self.sessions@[i as int]));
                    assert(session_keys(self.sessions@) =~= session_keys(mid));
            assert(slot_ok(old(self).sessions@, self.sessions@, conn@, now, s0));
        }
        match hr {
            Ok(f) => Ok(Reply::Frame(f)),
            Err(err) => Err(err),
        }
    }

    /// Handles an `Auth` frame; see `auth_outcome`.
    #[verifier::rlimit(60)]
    fn auth_at(&mut self, frame: &Frame, conn: &String, decoded: Result<AuthRequest, String>, now: u64) -> (r: Result<Reply, ProtocolError>)
        requires
            old(self).wf(),
        ensures
            final(self).wf(),
            auth_outcome(*old(self), *final(self), *frame, conn@, decoded, now, r),
    {
        let i = self.open_session(conn, now);
        let ghost mid = self.sessions@;
        let ghost s0 = mid[i as int].session;
        let mut e = self.sessions.remove(i);
        let rn = e.session.check_and_store_nonce_at(frame.nonce.as_slice(), now);
        let ghost s1 = e.session;
        match rn {
            Err(err) => {
                self.sessions.insert(i, e);
                proof {
                    assert(self.sessions@ =~= mid.update(i as int, self.sessions@[i as int]));
                    assert(session_keys(self.sessions@) =~= session_keys(mid));
                    assert(slot_ok(old(self).sessions@, self.sessions@, conn@, now, s0));
                    assert(nonce_outcome(s0.nonces(), frame.nonce@, now, s1.nonces(), Err::<(), ProtocolError>(err)));
                }
                return Err(err);
            },
            Ok(()) => {},
        }
        let ar = server_authenticate(&mut e.session, frame, decoded);
        self.sessions.insert(i, e);
        proof {
            assert(self.sessions@ =~= mid.update(i as int, self.sessions@[i as int]));
                    assert(session_keys(self.sessions@) =~= session_keys(mid));
            assert(slot_ok(old(self).sessions@, self.sessions@, conn@, now, s0));
            assert(nonce_outcome(s0.nonces(), frame.nonce@, now, s1.nonces(), Ok::<(), ProtocolError>(())));
        }
        match ar {
            Ok(f) => Ok(Reply::Frame(f)),
            Err(err) => Err(err),
        }
    }

    /// Handles any other frame; see `guarded_outcome`.
    fn guarded_at(&mut self, frame: &Frame, conn: &String, other: Request, now: u64) -> (r: Result<Reply, ProtocolError>)
        requires
            old(self).wf(),
        ensures
            final(self).wf(),
            guarded_outcome(*old(self), *final(self), *frame, conn@, other, now, r),
    {
        let i = match find_session(&self.sessions, conn) {
            Some(i) => i,
            None => return Err(ProtocolError::AuthenticationFailed(String::from_str("No session"))),
        };
        if !self.sessions[i].session.authenticated {
            return Err(ProtocolError::AuthenticationFailed(String::from_str("Not authenticated")));
        }
        let ghost before = self.sessions@;
        let mut e = self.sessions.remove(i);
        let rn = e.session.check_and_store_nonce_at(frame.nonce.as_slice(), now);
        let ghost s1 = e.session;
        match rn {
            Err(err) => {
                self.sessions.insert(i, e);
                proof {
                    assert(self.sessions@ =~= before.update(i as int, self.sessions@[i as int]));
                    assert(session_keys(self.sessions@) =~= session_keys(before));
                    assert(nonce_outcome(before[i as int].session.nonces(), frame.nonce@, now, s1.nonces(), Err::<(), ProtocolError>(err)));
                }
                return Err(err);
            },
            Ok(()) => {},
        }
        e.session.touch_at(now);
        self.sessions.insert(i, e);
        let ghost mid = *self;
        proof {
            assert(self.sessions@ =~= before.update(i as int, self.sessions@[i as int]));
                    assert(session_keys(self.sessions@) =~= session_keys(before));
            assert(nonce_outcome(before[i as int].session.nonces(), frame.nonce@, now, s1.nonces(), Ok::<(), ProtocolError>(())));
            assert(touched(s1, self.sessions@[i as int].session, now));
        }
        let r = self.handle_authenticated_frame_at(frame, conn, other, now);
        proof {
            assert(command_outcome(mid, *self, *frame, conn@, other, now, r));
        }
        r
    }

    /// Handles one frame from connection `connection_id` at clock time
    /// `now`; see `frame_outcome`.
    pub fn handle_frame_at(&mut self, frame: &Frame, connection_id: &str, request: Request, now: u64) -> (r: Result<Reply, ProtocolError>)
        requires
            old(self).wf(),
        ensures
            final(self).wf(),
            frame_outcome(*old(self), *final(self), *frame, connection_id@, request, now, r),
    {
        let conn = connection_id.to_owned();
        match request {
            Request::Ping => self.ping_at(frame, &conn, now),
            Request::Auth(decoded) => self.auth_at(frame, &conn, decoded, now),
            other => self.guarded_at(frame, &conn, other, now),
        }
    }

    /// Handles one frame by the current clock; see `frame_outcome`.
    pub fn handle_frame(&mut self, frame: &Frame, connection_id: &str, request: Request) -> (r: Result<Reply, ProtocolError>)
        requires
            old(self).wf(),
        ensures
            final(self).wf(),
            exists|now: u64| #[trigger] frame_outcome(*old(self), *final(self), *frame, connection_id@, request, now, r),
    {
        let now = now_secs();
        self.handle_frame_at(frame, connection_id, request, now)
    }
}

/// Whether a queue outlives a cleanup at clock time `now`.
pub open spec fn queue_survives(e: QueueEntry, now: u64) -> bool {
    !crate::protocol::queue::ttl_passed(e.queue.config.ttl_seconds, e.queue.created_at, now)
}

/// The positions of the queues that outlive a cleanup at `now`, in order.
pub open spec fn surviving(v: Seq<QueueEntry>, now: u64) -> Seq<int>
    decreases v.len(),
{
    if v.len() == 0 {
        Seq::empty()
    } else {
        let prev = surviving(v.drop_last(), now);
        if queue_survives(v.last(), now) { prev.push(v.len() - 1) } else { prev }
    }
}

/// `after` is queue `before` with acknowledged, then expired messages
/// dropped.
pub open spec fn swept_queue(before: Queue, after: Queue, now: u64) -> bool {
    &&& after.wf()
    &&& after.same_header(&before)
    &&& after.state() == crate::protocol::queue::swept(
        crate::protocol::queue::swept(before.state(), crate::protocol::queue::Sweep::Acked),
        crate::protocol::queue::Sweep::ExpiredAt(now),
    )
}

/// A session outlives a cleanup at `now` unless idle longer than the nonce
/// timeout.
pub open spec fn session_survives(e: SessionEntry, now: u64) -> bool {
    !(crate::protocol::session::age(now, e.session.last_seen) > crate::protocol::constants::NONCE_TIMEOUT_SECS)
}

/// The sessions that outlive a cleanup at `now`, in order.
pub open spec fn surviving_sessions(v: Seq<SessionEntry>, now: u64) -> Seq<SessionEntry> {
    v.filter(|e: SessionEntry| session_survives(e, now))
}

/// What a cleanup at clock time `now` leaves: each queue that outlives it
/// (see `surviving`), in order and under its key, with its acknowledged and
/// then its expired messages dropped; the queue names as they were; and
/// the sessions that outlive it.
pub open spec fn cleaned(before: RmpServer, after: RmpServer, now: u64) -> bool {
    let keep = surviving(before.queues@, now);
    &&& after.queues@.len() == keep.len()
    &&& forall|k: int| 0 <= k < keep.len() ==> {
        let e = before.queues@[#[trigger] keep[k]];
        &&& after.queues@[k].key == e.key
        &&& swept_queue(e.queue, after.queues@[k].queue, now)
    }
    &&& after.queue_names@ == before.queue_names@
    &&& after.sessions@ == surviving_sessions(before.sessions@, now)
}

impl RmpServer {
    /// The periodic cleanup at clock time `now`: every queue drops its
    /// acknowledged and expired messages, queues past their time-to-live
    /// are removed, and so are idle sessions. Queue names stay.
    pub fn cleanup_at(&mut self, now: u64)
        requires
            old(self).wf(),
            forall|i: int| 0 <= i < old(self).queues@.len() ==> ((#[trigger] old(self).queues@[i]).queue.config.ttl_seconds matches Some(t)
                ==> old(self).queues@[i].queue.created_at + t <= u64::MAX),
        ensures
            final(self).wf(),
            cleaned(*old(self), *final(self), now),
    {
        let ghost all = self.queues@;
        let mut rest: Vec<QueueEntry> = Vec::new();
        std::mem::swap(&mut rest, &mut self.queues);
        let ghost mut k: int = 0;
        while rest.len() > 0
            invariant
                0 <= k <= all.len(),
                rest@ == all.skip(k),
                forall|i: int| 0 <= i < all.len() ==> (#[trigger] all[i]).queue.wf(),
                forall|i: int| 0 <= i < all.len() ==> ((#[trigger] all[i]).queue.config.ttl_seconds matches Some(t)
                    ==> all[i].queue.created_at + t <= u64::MAX),
                self.queues@.len() == surviving(all.take(k), now).len(),
                forall|j: int| 0 <= j < self.queues@.len() ==> (#[trigger] self.queues@[j]).queue.wf(),
                forall|j: int| 0 <= j < self.queues@.len() ==> {
                    let e = all[#[trigger] surviving(all.take(k), now)[j]];
                    &&& self.queues@[j].key == e.key
                    &&& swept_queue(e.queue, self.queues@[j].queue, now)
                },
                forall|j: int| 0 <= j < surviving(all.take(k), now).len() ==> 0 <= #[trigger] surviving(all.take(k), now)[j] < k,
                keys_unique(queue_keys(all)),
                keys_unique(queue_keys(self.queues@)),
                self.queue_names@ == old(self).queue_names@,
                self.sessions@ == old(self).sessions@,
            decreases rest.len(),
        {
            let mut e = rest.remove(0);
            proof {
                assert(e == all[k]);
                assert(all.take(k + 1).drop_last() =~= all.take(k));
                assert(all.take(k + 1).last() == all[k]);
                assert(rest@ =~= all.skip(k + 1));
            }
            let ghost before_q = e.queue;
            e.queue.cleanup_acked();
            e.queue.cleanup_expired_at(now);
            let expired = e.queue.is_expired_at(now);
            let ghost prev = surviving(all.take(k), now);
            if !expired {
                let ghost before = self.queues@;
                let ghost kk = e.key@;
                proof {
                    assert forall|j: int| 0 <= j < queue_keys(before).len() implies queue_keys(before)[j] != kk by {
                        let idx = prev[j];
                        assert(before[j].key == all[idx].key);
                        assert(queue_keys(all)[idx] == all[idx].key@);
                        assert(queue_keys(all)[k] == all[k].key@);
                    }
                    lemma_unique_push(queue_keys(before), kk);
                }
                self.queues.push(e);
                proof {
                    assert(queue_keys(self.queues@) =~= queue_keys(before).push(kk));
                }
            }
            proof {
                k = k + 1;
            }
        }
        proof {
            assert(k == all.len());
            assert(all.take(k) =~= all);
        }
        let ghost qs = self.queues@;
        let mut sessions: Vec<SessionEntry> = Vec::new();
        std::mem::swap(&mut sessions, &mut self.sessions);
        let ghost sall = sessions@;
        let ghost p = |e: SessionEntry| session_survives(e, now);
        let ghost mut m: int = 0;
        while sessions.len() > 0
            invariant
                0 <= m <= sall.len(),
                sessions@ == sall.skip(m),
                p == (|e: SessionEntry| session_survives(e, now)),
                sall == old(self).sessions@,
                forall|i: int| 0 <= i < sall.len() ==> (#[trigger] sall[i]).session.wf(),
                self.sessions@ == sall.take(m).filter(p),
                self.queue_names@ == old(self).queue_names@,
                self.queues@ == qs,
            decreases sessions.len(),
        {
            let e = sessions.remove(0);
            proof {
                assert(e == sall[m]);
                assert(sall.take(m + 1) =~= sall.take(m).push(sall[m]));
                sall.take(m).lemma_filter_push(sall[m], p);
                assert(sessions@ =~= sall.skip(m + 1));
                m = m + 1;
            }
            if !e.session.is_expired_at(now) {
                self.sessions.push(e);
            }
        }
        proof {
            assert(sall.take(m) =~= sall);
            let f = sall.filter(p);
            lemma_unique_filter_sessions(sall, p);
            assert forall|i: int| 0 <= i < f.len() implies (#[trigger] f[i]).session.wf() by {
                sall.lemma_filter_contains_rev(p, f[i]);
                assert(f.contains(f[i]));
            }
        }
    }

    /// The periodic cleanup by the current clock; see `cleanup_at`.
    pub fn cleanup(&mut self)
        requires
            old(self).wf(),
            forall|i: int| 0 <= i < old(self).queues@.len() ==> ((#[trigger] old(self).queues@[i]).queue.config.ttl_seconds matches Some(t)
                ==> old(self).queues@[i].queue.created_at + t <= u64::MAX),
        ensures
            final(self).wf(),
            exists|now: u64| #[trigger] cleaned(*old(self), *final(self), now),
    {
        let now = now_secs();
        self.cleanup_at(now)
    }
}

/// How many messages all queues hold.
pub open spec fn total_stored(v: Seq<QueueEntry>) -> nat
    decreases v.len(),
{
    if v.len() == 0 {
        0
    } else {
        total_stored(v.drop_last()) + v.last().queue.msgs().len()
    }
}

/// No more messages are pending than are held.
proof fn lemma_pending_within_stored(v: Seq<QueueEntry>, now: u64)
    ensures
        total_pending(v, now) <= total_stored(v),
    decreases v.len(),
{
    if v.len() > 0 {
        lemma_pending_within_stored(v.drop_last(), now);
        v.last().queue.msgs().lemma_filter_len(|m: crate::protocol::types::MessageModel| m.deliverable_at(now));
    }
}

/// The pending total of a prefix never exceeds the whole.
proof fn lemma_total_pending_prefix(v: Seq<QueueEntry>, i: int, now: u64)
    requires
        0 <= i <= v.len(),
    ensures
        total_pending(v.take(i), now) <= total_pending(v, now),
    decreases v.len() - i,
{
    if i < v.len() {
        lemma_total_pending_prefix(v, i + 1, now);
        assert(v.take(i + 1).drop_last() =~= v.take(i));
    } else {
        assert(v.take(i) =~= v);
    }
}

} // verus!
