use vstd::prelude::*;
use crate::protocol::constants::{MAX_BATCH_SIZE, MAX_MESSAGES_PER_QUEUE, MAX_SUBSCRIBERS_PER_QUEUE};
use crate::protocol::error::ProtocolError;
use crate::protocol::types::{id_view, models, now_secs, Message, MessageId, MessageModel, QueueConfig, QueueId};

verus! {

/// The part of a queue that its operations change: the stored messages, in
/// arrival order, and the delivery cursor (how many leading messages have
/// been handed out).
pub struct QueueState {
    pub msgs: Seq<MessageModel>,
    pub cursor: int,
}

/// Which messages a cleanup removes.
pub enum Sweep {
    Acked,
    ExpiredAt(u64),
}

/// Whether `m` survives the given cleanup.
pub open spec fn survives(sweep: Sweep, m: MessageModel) -> bool {
    match sweep {
        Sweep::Acked => !m.acked,
        Sweep::ExpiredAt(now) => !m.expired_at(now),
    }
}

/// The cursor after `removed` messages were taken out of a queue of
/// `new_len` remaining messages: moved back by `removed`, never below zero
/// and never past the end.
pub open spec fn shifted_cursor(cursor: int, removed: int, new_len: int) -> int {
    let c = if cursor - removed < 0 { 0 } else { cursor - removed };
    if c < new_len { c } else { new_len }
}

/// The state after one cleanup.
pub open spec fn swept(st: QueueState, sweep: Sweep) -> QueueState {
    let kept = st.msgs.filter(|m: MessageModel| survives(sweep, m));
    QueueState {
        msgs: kept,
        cursor: shifted_cursor(st.cursor, st.msgs.len() - kept.len(), kept.len() as int),
    }
}

/// How many messages a queue with this configuration may hold.
pub open spec fn capacity_of(max_size: u64) -> u64 {
    if max_size < MAX_MESSAGES_PER_QUEUE { max_size } else { MAX_MESSAGES_PER_QUEUE }
}

/// The state in which `push` decides whether there is room: expired
/// messages dropped, then, if the queue is still at capacity, acknowledged
/// ones too.
pub open spec fn push_room(st: QueueState, cap: u64, now: u64) -> QueueState {
    let s1 = swept(st, Sweep::ExpiredAt(now));
    if s1.msgs.len() >= cap { swept(s1, Sweep::Acked) } else { s1 }
}

/// The message as the queue stores it: stamped with the arrival time.
pub open spec fn stamped(m: MessageModel, now: u64) -> MessageModel {
    MessageModel { timestamp: now, ..m }
}

/// `m` with its acknowledgement flag set when its id is among `ids`.
pub open spec fn acked_if_listed(m: MessageModel, ids: Seq<Seq<u8>>) -> MessageModel {
    if ids.contains(m.id) { MessageModel { acked: true, ..m } } else { m }
}

/// Index of the first message in `msgs` with identifier `id`, if any.
pub open spec fn first_index_of(msgs: Seq<MessageModel>, id: Seq<u8>) -> Option<int> {
    if exists|i: int| 0 <= i < msgs.len() && msgs[i].id == id {
        let i = choose|i: int|
            0 <= i < msgs.len() && msgs[i].id == id && (forall|j: int|
                0 <= j < i ==> msgs[j].id != id);
        Some(i)
    } else {
        None
    }
}

/// Where `pull` starts reading, given the (clamped) cursor.
pub open spec fn pull_start(msgs: Seq<MessageModel>, cursor: int, since: Option<Seq<u8>>) -> int {
    let s = match since {
        Some(id) => match first_index_of(msgs, id) {
            Some(pos) => pos + 1,
            None => cursor,
        },
        None => cursor,
    };
    if s < msgs.len() { s } else { msgs.len() as int }
}

/// What `pull` hands out: from `start` on, the deliverable messages, at
/// most `limit` of them.
pub open spec fn pulled(msgs: Seq<MessageModel>, start: int, limit: int, now: u64) -> Seq<MessageModel> {
    let d = msgs.skip(start).filter(|m: MessageModel| m.deliverable_at(now));
    if d.len() <= limit { d } else { d.take(limit) }
}

/// The messages and cursor after a `pull` at time `now`.
pub open spec fn pull_result(st: QueueState, since: Option<Seq<u8>>, batch: int, now: u64) -> (QueueState, Seq<MessageModel>) {
    let s1 = swept(st, Sweep::ExpiredAt(now));
    let limit = if batch < MAX_BATCH_SIZE { batch } else { MAX_BATCH_SIZE as int };
    let start = pull_start(s1.msgs, s1.cursor, since);
    let out = pulled(s1.msgs, start, limit, now);
    let cursor = if out.len() == 0 {
        s1.cursor
    } else {
        match first_index_of(s1.msgs, out.last().id) {
            Some(pos) => pos + 1,
            None => s1.cursor,
        }
    };
    (QueueState { msgs: s1.msgs, cursor }, out)
}

/// The outcome of storing `m` at clock time `now`: expired messages are
/// dropped; if the queue is then at capacity, acknowledged ones too; if it
/// is still at capacity the message is refused with `QueueError("Queue full")`,
/// else it is appended, stamped with `now`.
pub open spec fn push_outcome(before: QueueState, max_size: u64, m: MessageModel, now: u64, after: QueueState, r: Result<(), ProtocolError>) -> bool {
    let cap = capacity_of(max_size);
    let room = push_room(before, cap, now);
    match r {
        Ok(()) => room.msgs.len() < cap && after == QueueState {
            msgs: room.msgs.push(stamped(m, now)),
            cursor: room.cursor,
        },
        Err(e) => room.msgs.len() >= cap && after == room
            && (e matches ProtocolError::QueueError(s) && s@ == "Queue full"@),
    }
}

/// Whether a queue created at `created_at` with time-to-live `ttl` has
/// expired at clock time `now`.
pub open spec fn ttl_passed(ttl: Option<u64>, created_at: u64, now: u64) -> bool {
    match ttl {
        Some(t) => now > created_at + t,
        None => false,
    }
}

/// How many of `msgs` are deliverable at clock time `now`.
pub open spec fn deliverable_count(msgs: Seq<MessageModel>, now: u64) -> nat {
    msgs.filter(|m: MessageModel| m.deliverable_at(now)).len()
}

/// The outcome of a pull at clock time `now`.
pub open spec fn pull_outcome(before: QueueState, since: Option<Seq<u8>>, batch: int, now: u64, after: QueueState, out: Seq<MessageModel>) -> bool {
    let (st, o) = pull_result(before, since, batch, now);
    after == st && out == o
}

/// Every message a pull hands out is deliverable at the time of the pull
/// and is one of the queue's messages (`pull_result` hands out `pulled` of
/// the queue's messages).
pub proof fn lemma_pulled_deliverable(msgs: Seq<MessageModel>, start: int, limit: int, now: u64, i: int)
    requires
        0 <= start <= msgs.len(),
        0 <= limit,
        0 <= i < pulled(msgs, start, limit, now).len(),
    ensures
        pulled(msgs, start, limit, now)[i].deliverable_at(now),
        msgs.contains(pulled(msgs, start, limit, now)[i]),
{
    let p = |m: MessageModel| m.deliverable_at(now);
    let t = msgs.skip(start);
    let d = t.filter(p);
    assert(pulled(msgs, start, limit, now)[i] == d[i] && i < d.len()) by {
        if d.len() > limit {
            assert(d.take(limit)[i] == d[i]);
        }
    }
    t.lemma_filter_pred(p, i);
    assert(d.contains(d[i]));
    t.lemma_filter_contains_rev(p, d[i]);
    let k = choose|k: int| 0 <= k < t.len() && t[k] == d[i];
    assert(msgs[start + k] == d[i]);
}

/// What is written is read back: a message pushed into an empty queue
/// while deliverable is exactly what the next pull at the same time hands
/// out, stamped with its arrival time, and the cursor then stands past it.
pub proof fn lemma_push_then_pull(max_size: u64, m: MessageModel, now: u64, mid: QueueState, batch: int, after: QueueState, out: Seq<MessageModel>)
    requires
        m.deliverable_at(now),
        push_outcome(QueueState { msgs: Seq::empty(), cursor: 0 }, max_size, m, now, mid, Ok(())),
        batch >= 1,
        pull_outcome(mid, None, batch, now, after, out),
    ensures
        out == seq![stamped(m, now)],
        after.msgs == seq![stamped(m, now)],
        after.cursor == 1,
{
    let e = QueueState { msgs: Seq::<MessageModel>::empty(), cursor: 0 };
    let pe = |x: MessageModel| survives(Sweep::ExpiredAt(now), x);
    let pa = |x: MessageModel| survives(Sweep::Acked, x);
    let pd = |x: MessageModel| x.deliverable_at(now);
    assert(Seq::<MessageModel>::empty().filter(pe) =~= Seq::<MessageModel>::empty());
    assert(Seq::<MessageModel>::empty().filter(pa) =~= Seq::<MessageModel>::empty());
    let sm = stamped(m, now);
    let one = seq![sm];
    assert(mid.msgs == one);
    assert(mid.cursor == 0);
    assert(one =~= Seq::<MessageModel>::empty().push(sm));
    Seq::<MessageModel>::empty().lemma_filter_push(sm, pe);
    Seq::<MessageModel>::empty().lemma_filter_push(sm, pd);
    assert(one.filter(pe) == one);
    assert(one.skip(0) =~= one);
    assert(one.filter(pd) == one);
    assert(one[0].id == sm.id);
    assert(first_index_of(one, sm.id) == Some(0int));
}

/// Keeping what satisfies `p` leaves a sequence whose elements all
/// satisfy it as it was.
proof fn lemma_filter_all<A>(s: Seq<A>, p: spec_fn(A) -> bool)
    requires
        forall|i: int| 0 <= i < s.len() ==> p(#[trigger] s[i]),
    ensures
        s.filter(p) == s,
    decreases s.len(),
{
    if s.len() > 0 {
        let pre = s.drop_last();
        assert(s =~= pre.push(s.last()));
        assert(forall|i: int| 0 <= i < pre.len() ==> pre[i] == s[i]);
        lemma_filter_all(pre, p);
        pre.lemma_filter_push(s.last(), p);
    }
}

/// The subscribers `subs` without `id`, the others in their order.
pub open spec fn without_subscriber(subs: Seq<Seq<char>>, id: Seq<char>) -> Seq<Seq<char>> {
    subs.filter(other_than(id))
}

/// Whether a subscriber is other than `id`.
pub open spec fn other_than(id: Seq<char>) -> spec_fn(Seq<char>) -> bool {
    |v: Seq<char>| v != id
}

/// Removing a subscriber that was just added, and had not been listed,
/// restores the subscriber list: `add_subscriber` appends it and
/// `remove_subscriber` leaves `without_subscriber` of the list.
pub proof fn lemma_add_then_remove_subscriber(subs: Seq<Seq<char>>, x: Seq<char>)
    requires
        !subs.contains(x),
    ensures
        without_subscriber(subs.push(x), x) == subs,
{
    let p = other_than(x);
    assert forall|i: int| 0 <= i < subs.len() implies p(#[trigger] subs[i]) by {
        assert(subs.contains(subs[i]));
    }
    lemma_filter_all(subs, p);
    subs.lemma_filter_push(x, p);
}

/// No two messages of `msgs` share an identifier.
pub open spec fn ids_distinct(msgs: Seq<MessageModel>) -> bool {
    forall|i: int, j: int| 0 <= i < msgs.len() && 0 <= j < msgs.len() && i != j ==> msgs[i].id != msgs[j].id
}

/// Keeping some of the messages keeps their identifiers distinct.
proof fn lemma_filter_ids_distinct(t: Seq<MessageModel>, p: spec_fn(MessageModel) -> bool)
    requires
        ids_distinct(t),
    ensures
        ids_distinct(t.filter(p)),
    decreases t.len(),
{
    if t.len() > 0 {
        let pre = t.drop_last();
        assert(t =~= pre.push(t.last()));
        assert(ids_distinct(pre));
        lemma_filter_ids_distinct(pre, p);
        pre.lemma_filter_push(t.last(), p);
        if p(t.last()) {
            let f = pre.filter(p);
            let g = f.push(t.last());
            assert forall|i: int, j: int| 0 <= i < g.len() && 0 <= j < g.len() && i != j implies g[i].id != g[j].id by {
                if i < f.len() && j < f.len() {
                } else {
                    let k = if i < f.len() { i } else { j };
                    assert(f.contains(f[k]));
                    pre.lemma_filter_contains_rev(p, f[k]);
                    let a = choose|a: int| 0 <= a < pre.len() && pre[a] == f[k];
                    assert(t[a] == f[k]);
                    assert(t[t.len() - 1] == t.last());
                }
            }
        }
    }
}

/// A filtered message sits at some position of the sequence it was
/// filtered from.
proof fn lemma_filtered_position(t: Seq<MessageModel>, p: spec_fn(MessageModel) -> bool, i: int) -> (a: int)
    requires
        0 <= i < t.filter(p).len(),
    ensures
        0 <= a < t.len(),
        t[a] == t.filter(p)[i],
{
    let f = t.filter(p);
    assert(f.contains(f[i]));
    t.lemma_filter_contains_rev(p, f[i]);
    choose|a: int| 0 <= a < t.len() && t[a] == f[i]
}

/// Filtering keeps the order of messages with distinct identifiers: of two
/// filtered messages, the earlier one comes from the earlier position.
proof fn lemma_filter_order(t: Seq<MessageModel>, p: spec_fn(MessageModel) -> bool, i: int, j: int, a: int, b: int)
    requires
        ids_distinct(t),
        0 <= i < j < t.filter(p).len(),
        0 <= a < t.len(),
        0 <= b < t.len(),
        t[a] == t.filter(p)[i],
        t[b] == t.filter(p)[j],
    ensures
        a < b,
    decreases t.len(),
{
    let pre = t.drop_last();
    let x = t.last();
    assert(t =~= pre.push(x));
    assert(ids_distinct(pre));
    pre.lemma_filter_push(x, p);
    let fp = pre.filter(p);
    let a2 = lemma_filtered_position(pre, p, i);
    assert(t[a2] == t[a]);
    assert(a2 == a);
    if p(x) && j == fp.len() {
        assert(t[t.len() - 1] == t[b]);
        assert(b == t.len() - 1);
    } else {
        let b2 = lemma_filtered_position(pre, p, j);
        assert(t[b2] == t[b]);
        assert(b2 == b);
        lemma_filter_order(pre, p, i, j, a, b);
    }
}

/// A message a pull hands out sits at or after the pull's start.
proof fn lemma_pulled_position(msgs: Seq<MessageModel>, start: int, limit: int, now: u64, i: int) -> (k: int)
    requires
        0 <= start <= msgs.len(),
        0 <= limit,
        0 <= i < pulled(msgs, start, limit, now).len(),
    ensures
        start <= k < msgs.len(),
        msgs[k] == pulled(msgs, start, limit, now)[i],
        msgs[k] == msgs.skip(start).filter(|m: MessageModel| m.deliverable_at(now))[i],
{
    let p = |m: MessageModel| m.deliverable_at(now);
    let t = msgs.skip(start);
    let d = t.filter(p);
    if d.len() > limit {
        assert(d.take(limit)[i] == d[i]);
    }
    let a = lemma_filtered_position(t, p, i);
    start + a
}

/// Pulls from the cursor never hand out a message twice: after a pull that
/// handed out messages, the cursor stands just past the last of them; when
/// the identifiers are distinct and no message expires before the next
/// pull from the cursor, that pull hands out only messages after the
/// cursor, none with the identifier of one handed out before.
#[verifier::rlimit(40)]
pub proof fn lemma_no_redelivery(st: QueueState, b1: int, now: u64, mid: QueueState, out1: Seq<MessageModel>, b2: int, now2: u64, after: QueueState, out2: Seq<MessageModel>)
    requires
        ids_distinct(st.msgs),
        b1 >= 0,
        b2 >= 0,
        pull_outcome(st, None, b1, now, mid, out1),
        out1.len() > 0,
        forall|i: int| 0 <= i < mid.msgs.len() ==> !(#[trigger] mid.msgs[i]).expired_at(now2),
        pull_outcome(mid, None, b2, now2, after, out2),
    ensures
        1 <= mid.cursor <= mid.msgs.len(),
        mid.msgs[mid.cursor - 1] == out1.last(),
        after.msgs == mid.msgs,
        forall|j: int| #![trigger out2[j]] 0 <= j < out2.len() ==> exists|k: int| mid.cursor <= k < mid.msgs.len() && #[trigger] mid.msgs[k] == out2[j],
        forall|i: int, j: int| 0 <= i < out1.len() && 0 <= j < out2.len() ==> #[trigger] out1[i].id != #[trigger] out2[j].id,
{
    let pe = |m: MessageModel| survives(Sweep::ExpiredAt(now), m);
    let s1 = swept(st, Sweep::ExpiredAt(now));
    lemma_filter_ids_distinct(st.msgs, pe);
    let ms = s1.msgs;
    assert(ids_distinct(ms));
    let limit1 = if b1 < MAX_BATCH_SIZE { b1 } else { MAX_BATCH_SIZE as int };
    let start1 = pull_start(ms, s1.cursor, None);
    assert(0 <= start1 <= ms.len());
    assert(out1 == pulled(ms, start1, limit1, now));
    let last = out1.len() - 1;
    let pl = lemma_pulled_position(ms, start1, limit1, now, last);
    assert(forall|j: int| 0 <= j < pl ==> ms[j].id != ms[pl].id);
    assert(first_index_of(ms, out1.last().id) == Some(pl));
    assert(mid.msgs == ms);
    assert(mid.cursor == pl + 1);
    // The second pull sees the same messages and starts at the cursor.
    let pe2 = |m: MessageModel| survives(Sweep::ExpiredAt(now2), m);
    assert forall|i: int| 0 <= i < ms.len() implies pe2(#[trigger] ms[i]) by {
        assert(!mid.msgs[i].expired_at(now2));
    }
    lemma_filter_all(ms, pe2);
    let s2 = swept(mid, Sweep::ExpiredAt(now2));
    assert(s2.msgs == ms);
    assert(s2.cursor == pl + 1);
    let limit2 = if b2 < MAX_BATCH_SIZE { b2 } else { MAX_BATCH_SIZE as int };
    let start2 = pull_start(ms, s2.cursor, None);
    assert(start2 == pl + 1);
    assert(out2 == pulled(ms, start2, limit2, now2));
    assert forall|j: int| #![trigger out2[j]] 0 <= j < out2.len() implies exists|k: int| mid.cursor <= k < mid.msgs.len() && #[trigger] mid.msgs[k] == out2[j] by {
        let k = lemma_pulled_position(ms, start2, limit2, now2, j);
    }
    assert forall|i: int, j: int| 0 <= i < out1.len() && 0 <= j < out2.len() implies #[trigger] out1[i].id != #[trigger] out2[j].id by {
        let k2 = lemma_pulled_position(ms, start2, limit2, now2, j);
        let k1 = lemma_pulled_position(ms, start1, limit1, now, i);
        if out1[i].id == out2[j].id {
            assert(k1 == k2);
            if i < last {
                let pd = |m: MessageModel| m.deliverable_at(now);
                let t = ms.skip(start1);
                assert(ids_distinct(t));
                assert(t[k1 - start1] == t.filter(pd)[i]);
                assert(t[pl - start1] == t.filter(pd)[last]);
                lemma_filter_order(t, pd, i, last, k1 - start1, pl - start1);
            }
        }
    }
}

/// Acknowledging is idempotent: acknowledging the same identifiers twice
/// leaves the messages as acknowledging them once.
pub proof fn lemma_ack_idempotent(msgs: Seq<MessageModel>, ids: Seq<Seq<u8>>)
    ensures
        msgs.map_values(|m: MessageModel| acked_if_listed(m, ids)).map_values(|m: MessageModel| acked_if_listed(m, ids))
            == msgs.map_values(|m: MessageModel| acked_if_listed(m, ids)),
{
    assert(msgs.map_values(|m: MessageModel| acked_if_listed(m, ids)).map_values(|m: MessageModel| acked_if_listed(m, ids))
        =~= msgs.map_values(|m: MessageModel| acked_if_listed(m, ids)));
}

/// A relay queue: messages in arrival order, a delivery cursor, and the
/// subscribers that listen on it.
pub struct Queue {
    pub id: QueueId,
    pub config: QueueConfig,
    pub messages: Vec<Message>,
    pub next_delivery_index: usize,
    pub subscribers: Vec<String>,
    pub created_at: u64,
    pub name: String,
}

proof fn lemma_filter_take_step(s: Seq<MessageModel>, i: int, p: spec_fn(MessageModel) -> bool)
    requires
        0 <= i < s.len(),
    ensures
        s.take(i + 1).filter(p) == if p(s[i]) {
            s.take(i).filter(p).push(s[i])
        } else {
            s.take(i).filter(p)
        },
{
    assert(s.take(i + 1) =~= s.take(i).push(s[i]));
    s.take(i).lemma_filter_push(s[i], p);
}

impl Queue {
    /// The stored messages, oldest first.
    pub open spec fn msgs(&self) -> Seq<MessageModel> {
        self.messages@.map_values(|m: Message| m@)
    }

    /// The delivery cursor.
    pub open spec fn cursor(&self) -> int {
        self.next_delivery_index as int
    }

    /// The state that the queue's operations act on.
    pub open spec fn state(&self) -> QueueState {
        QueueState { msgs: self.msgs(), cursor: self.cursor() }
    }

    /// The cursor never points past the stored messages.
    pub open spec fn wf(&self) -> bool {
        0 <= self.cursor() <= self.msgs().len()
    }

    /// Everything but the messages and the cursor.
    pub open spec fn same_header(&self, other: &Queue) -> bool {
        &&& self.id == other.id
        &&& self.config.name@ == other.config.name@
        &&& self.config.max_size == other.config.max_size
        &&& self.config.ttl_seconds == other.config.ttl_seconds
        &&& self.subscribers@ == other.subscribers@
        &&& self.created_at == other.created_at
        &&& self.name@ == other.name@
    }

    /// A new, empty queue created at clock time `now`.
    pub fn new_at(id: QueueId, config: QueueConfig, now: u64) -> (q: Queue)
        ensures
            q.wf(),
            q.msgs() == Seq::<MessageModel>::empty(),
            q.cursor() == 0,
            q.id == id,
            q.name@ == config.name@,
            q.config.name@ == config.name@,
            q.config.max_size == config.max_size,
            q.config.ttl_seconds == config.ttl_seconds,
            q.subscribers@ == Seq::<String>::empty(),
            q.created_at == now,
    {
        let q = Queue {
            id,
            name: config.name.clone(),
            config,
            messages: Vec::new(),
            next_delivery_index: 0,
            subscribers: Vec::new(),
            created_at: now,
        };
        assert(q.msgs() =~= Seq::<MessageModel>::empty());
        q
    }

    /// A new, empty queue created now.
    pub fn new(id: QueueId, config: QueueConfig) -> (q: Queue)
        ensures
            q.wf(),
            q.msgs() == Seq::<MessageModel>::empty(),
            q.cursor() == 0,
            q.id == id,
            q.name@ == config.name@,
            q.config.name@ == config.name@,
            q.config.max_size == config.max_size,
            q.config.ttl_seconds == config.ttl_seconds,
            q.subscribers@ == Seq::<String>::empty(),
    {
        let now = now_secs();
        Self::new_at(id, config, now)
    }

    fn sweep(&mut self, sweep: Sweep)
        requires
            old(self).wf(),
        ensures
            final(self).wf(),
            final(self).state() == swept(old(self).state(), sweep),
            final(self).same_header(old(self)),
    {
        let ghost p = |m: MessageModel| survives(sweep, m);
        let ghost old_msgs = self.msgs();
        let old_len = self.messages.len();
        let mut kept: Vec<Message> = Vec::new();
        let mut i: usize = 0;
        while i < self.messages.len()
            invariant
                0 <= i <= self.messages.len(),
                self.messages.len() == old_len,
                self.msgs() == old_msgs,
                old_msgs.len() == old_len,
                p == (|m: MessageModel| survives(sweep, m)),
                kept@.map_values(|m: Message| m@) == old_msgs.take(i as int).filter(p),
            decreases self.messages.len() - i,
        {
            proof {
                lemma_filter_take_step(old_msgs, i as int, p);
            }
            let keep = match sweep {
                Sweep::Acked => !self.messages[i].acked,
                Sweep::ExpiredAt(now) => !self.messages[i].is_expired_at(now),
            };
            assert(old_msgs[i as int] == self.messages@[i as int]@);
            assert(keep == p(old_msgs[i as int]));
            if keep {
                let m = self.messages[i].duplicate();
                let ghost before = kept@;
                kept.push(m);
                proof {
                    assert(kept@.map_values(|m: Message| m@) =~= before.map_values(|m: Message| m@).push(old_msgs[i as int]));
                }
            }
            i = i + 1;
        }
        proof {
            assert(old_msgs.take(old_len as int) =~= old_msgs);
            old_msgs.lemma_filter_len(p);
        }
        self.messages = kept;
        let new_len = self.messages.len();
        let removed = old_len.saturating_sub(new_len);
        self.next_delivery_index = self.next_delivery_index.saturating_sub(removed);
        if self.next_delivery_index > new_len {
            self.next_delivery_index = new_len;
        }
    }

    /// Drops every acknowledged message and moves the cursor back by the
    /// number of messages dropped.
    pub fn cleanup_acked(&mut self)
        requires
            old(self).wf(),
        ensures
            final(self).wf(),
            final(self).state() == swept(old(self).state(), Sweep::Acked),
            final(self).same_header(old(self)),
    {
        self.sweep(Sweep::Acked)
    }

    /// Drops every message expired at clock time `now` and moves the cursor
    /// back by the number of messages dropped.
    pub fn cleanup_expired_at(&mut self, now: u64)
        requires
            old(self).wf(),
        ensures
            final(self).wf(),
            final(self).state() == swept(old(self).state(), Sweep::ExpiredAt(now)),
            final(self).same_header(old(self)),
    {
        self.sweep(Sweep::ExpiredAt(now))
    }

    /// Drops every message expired by the current clock.
    pub fn cleanup_expired(&mut self)
        requires
            old(self).wf(),
        ensures
            final(self).wf(),
            exists|now: u64| final(self).state() == swept(old(self).state(), Sweep::ExpiredAt(now)),
            final(self).same_header(old(self)),
    {
        let now = now_secs();
        self.cleanup_expired_at(now)
    }
}


proof fn lemma_filter_prefix_take(s: Seq<MessageModel>, n: int, p: spec_fn(MessageModel) -> bool)
    requires
        0 <= n <= s.len(),
    ensures
        s.filter(p).take(s.take(n).filter(p).len() as int) == s.take(n).filter(p),
        s.take(n).filter(p).len() <= s.filter(p).len(),
{
    assert(s =~= s.take(n) + s.skip(n));
    Seq::filter_distributes_over_add(s.take(n), s.skip(n), p);
    let a = s.take(n).filter(p);
    let b = s.skip(n).filter(p);
    assert((a + b).take(a.len() as int) =~= a);
}

/// The position of the first stored message with identifier `id`.
fn position_of(msgs: &Vec<Message>, id: &MessageId) -> (r: Option<usize>)
    ensures
        match r {
            Some(i) => first_index_of(msgs@.map_values(|m: Message| m@), id@) == Some(i as int)
                && i < msgs.len(),
            None => first_index_of(msgs@.map_values(|m: Message| m@), id@) is None,
        },
{
    let ghost ms = msgs@.map_values(|m: Message| m@);
    let mut i: usize = 0;
    while i < msgs.len()
        invariant
            i <= msgs.len(),
            ms == msgs@.map_values(|m: Message| m@),
            forall|j: int| 0 <= j < i ==> ms[j].id != id@,
        decreases msgs.len() - i,
    {
        assert(ms[i as int] == msgs@[i as int]@);
        if msgs[i].id.same_as(id) {
            proof {
                let p = |k: int| 0 <= k < ms.len() && ms[k].id == id@ && (forall|j: int| 0 <= j < k ==> ms[j].id != id@);
                assert(p(i as int));
                assert(exists|k: int| 0 <= k < ms.len() && ms[k].id == id@);
                let c = choose|k: int| 0 <= k < ms.len() && ms[k].id == id@ && (forall|j: int| 0 <= j < k ==> ms[j].id != id@);
                assert(p(c));
                if c < i {
                    assert(ms[c].id != id@);
                } else if c > i {
                    assert(ms[i as int].id != id@);
                }
            }
            return Some(i);
        }
        i = i + 1;
    }
    None
}

/// Whether `s` is among `v`.
fn contains_string(v: &Vec<String>, s: &String) -> (r: bool)
    ensures
        r == v@.map_values(|x: String| x@).contains(s@),
{
    let ghost vs = v@.map_values(|x: String| x@);
    let mut i: usize = 0;
    while i < v.len()
        invariant
            i <= v.len(),
            vs == v@.map_values(|x: String| x@),
            forall|j: int| 0 <= j < i ==> vs[j] != s@,
        decreases v.len() - i,
    {
        assert(vs[i as int] == v@[i as int]@);
        if v[i] == *s {
            assert(vs[i as int] == s@);
            return true;
        }
        i = i + 1;
    }
    false
}

/// Whether `id` is among `ids`.
fn listed(ids: &[MessageId], id: &MessageId) -> (r: bool)
    ensures
        r == ids@.map_values(|x: MessageId| x@).contains(id@),
{
    let ghost v = ids@.map_values(|x: MessageId| x@);
    let mut i: usize = 0;
    while i < ids.len()
        invariant
            i <= ids.len(),
            v == ids@.map_values(|x: MessageId| x@),
            forall|j: int| 0 <= j < i ==> v[j] != id@,
        decreases ids.len() - i,
    {
        assert(v[i as int] == ids@[i as int]@);
        if ids[i].same_as(id) {
            assert(v[i as int] == id@);
            return true;
        }
        i = i + 1;
    }
    false
}

/// From `start` on, the deliverable messages at clock time `now`, at most
/// `limit` of them.
fn collect_deliverable(messages: &Vec<Message>, start: usize, limit: usize, now: u64) -> (out: Vec<Message>)
    requires
        start <= messages.len(),
    ensures
        models(out@) == pulled(models(messages@), start as int, limit as int, now),
        out.len() <= limit,
{
    let ghost ms = models(messages@);
    let ghost p = |m: MessageModel| m.deliverable_at(now);
    let ghost tail = ms.skip(start as int);
    let mut out: Vec<Message> = Vec::new();
    let mut k: usize = start;
    while k < messages.len()
        invariant
            start <= k <= messages.len(),
            ms == models(messages@),
            ms.len() == messages.len(),
            tail == ms.skip(start as int),
            p == (|m: MessageModel| m.deliverable_at(now)),
            models(out@) == tail.take(k - start).filter(p),
            out.len() <= limit,
        ensures
            start <= k <= messages.len(),
            models(out@) == tail.take(k - start).filter(p),
            out.len() <= limit,
            k == messages.len() || out.len() >= limit,
        decreases messages.len() - k,
    {
        if out.len() >= limit {
            break;
        }
        proof {
            lemma_filter_take_step(tail, k - start, p);
            assert(tail[k - start] == ms[k as int]);
            assert(ms[k as int] == messages@[k as int]@);
        }
        if !messages[k].acked && !messages[k].is_expired_at(now) {
            let m = messages[k].duplicate();
            let ghost before = out@;
            out.push(m);
            assert(models(out@) =~= models(before).push(ms[k as int]));
        }
        k = k + 1;
    }
    proof {
        let taken = tail.take(k - start);
        lemma_filter_prefix_take(tail, k - start, p);
        let d = tail.filter(p);
        if k == messages.len() {
            assert(taken =~= tail);
        } else {
            assert(out.len() == limit);
            if d.len() <= limit {
                assert(d.take(limit as int) =~= d);
            }
        }
    }
    out
}

impl Queue {
    /// Stores `message` at clock time `now`. First the expired messages are
    /// dropped; if the queue is then at capacity, the acknowledged ones too;
    /// if it is still at capacity the message is refused with
    /// `QueueError("Queue full")`. An accepted message is stamped with `now`.
    pub fn push_at(&mut self, message: Message, now: u64) -> (r: Result<(), ProtocolError>)
        requires
            old(self).wf(),
        ensures
            final(self).wf(),
            final(self).same_header(old(self)),
            push_outcome(old(self).state(), old(self).config.max_size, message@, now, final(self).state(), r),
    {
        self.cleanup_expired_at(now);
        let cap: u64 = if self.config.max_size < MAX_MESSAGES_PER_QUEUE {
            self.config.max_size
        } else {
            MAX_MESSAGES_PER_QUEUE
        };
        if self.messages.len() as u64 >= cap {
            self.cleanup_acked();
        }
        if self.messages.len() as u64 >= cap {
            return Err(ProtocolError::QueueError(String::from_str("Queue full")));
        }
        let mut message = message;
        message.timestamp = now;
        let ghost before = self.messages@;
        self.messages.push(message);
        assert(self.messages@.map_values(|m: Message| m@) =~= before.map_values(|m: Message| m@).push(
            stamped(message@, now),
        ));
        Ok(())
    }

    /// Stores `message` stamped with the current clock; see `push_at`.
    pub fn push(&mut self, message: Message) -> (r: Result<(), ProtocolError>)
        requires
            old(self).wf(),
        ensures
            final(self).wf(),
            final(self).same_header(old(self)),
            exists|now: u64| #[trigger] push_outcome(old(self).state(), old(self).config.max_size, message@, now, final(self).state(), r),
    {
        let now = now_secs();
        self.push_at(message, now)
    }

    /// Hands out up to `batch_size` (at most `MAX_BATCH_SIZE`) deliverable
    /// messages at clock time `now`, after dropping the expired ones. Reading
    /// starts just after the message `since` names when it is stored, else
    /// at the cursor; the cursor then moves just past the last message
    /// handed out.
    #[verifier::rlimit(40)]
    pub fn pull_at(&mut self, since: Option<&MessageId>, batch_size: usize, now: u64) -> (r: Vec<Message>)
        requires
            old(self).wf(),
        ensures
            final(self).wf(),
            final(self).same_header(old(self)),
            pull_outcome(old(self).state(), id_view(since), batch_size as int, now, final(self).state(), models(r@)),
    {
        self.cleanup_expired_at(now);
        let ghost ms = self.msgs();
        let ghost since_v = match since { Some(id) => Some(id@), None => None };
        let limit: usize = if batch_size < MAX_BATCH_SIZE { batch_size } else { MAX_BATCH_SIZE };
        if self.next_delivery_index > self.messages.len() {
            self.next_delivery_index = self.messages.len();
        }
        let mut start: usize = match since {
            Some(id) => match position_of(&self.messages, id) {
                Some(pos) => pos + 1,
                None => self.next_delivery_index,
            },
            None => self.next_delivery_index,
        };
        if start > self.messages.len() {
            start = self.messages.len();
        }
        assert(start == pull_start(ms, self.cursor(), since_v));
        let out = collect_deliverable(&self.messages, start, limit, now);
        assert(models(out@) == pulled(ms, start as int, limit as int, now));
        if out.len() > 0 {
            let last = out.len() - 1;
            assert(out@[last as int]@ == models(out@).last());
            match position_of(&self.messages, &out[last].id) {
                Some(pos) => {
                    self.next_delivery_index = pos + 1;
                },
                None => {},
            }
        }
        out
    }

    /// Hands out messages by the current clock; see `pull_at`.
    pub fn pull(&mut self, since: Option<&MessageId>, batch_size: usize) -> (r: Vec<Message>)
        requires
            old(self).wf(),
        ensures
            final(self).wf(),
            final(self).same_header(old(self)),
            exists|now: u64| #[trigger] pull_outcome(old(self).state(), id_view(since), batch_size as int, now, final(self).state(), models(r@)),
    {
        let now = now_secs();
        self.pull_at(since, batch_size, now)
    }

    /// Marks every stored message whose identifier is listed as acknowledged.
    pub fn ack(&mut self, message_ids: &[MessageId])
        requires
            old(self).wf(),
        ensures
            final(self).wf(),
            final(self).same_header(old(self)),
            final(self).cursor() == old(self).cursor(),
            final(self).msgs() == old(self).msgs().map_values(
                |m: MessageModel| acked_if_listed(m, message_ids@.map_values(|x: MessageId| x@)),
            ),
    {
        let ghost ids = message_ids@.map_values(|x: MessageId| x@);
        let ghost old_msgs = self.msgs();
        let ghost target = old_msgs.map_values(|m: MessageModel| acked_if_listed(m, ids));
        let mut i: usize = 0;
        while i < self.messages.len()
            invariant
                i <= self.messages.len(),
                old_msgs.len() == self.messages.len(),
                ids == message_ids@.map_values(|x: MessageId| x@),
                target == old_msgs.map_values(|m: MessageModel| acked_if_listed(m, ids)),
                forall|j: int| 0 <= j < i ==> self.messages@[j]@ == target[j],
                forall|j: int| i <= j < self.messages.len() ==> self.messages@[j]@ == old_msgs[j],
                self.same_header(old(self)),
                self.next_delivery_index == old(self).next_delivery_index,
            decreases self.messages.len() - i,
        {
            if listed(message_ids, &self.messages[i].id) {
                let mut m = self.messages.remove(i);
                m.acked = true;
                self.messages.insert(i, m);
            }
            i = i + 1;
        }
        assert(self.msgs() =~= target);
    }

    /// Adds a subscriber unless it is already listed; refused with
    /// `TooManySubscribers` once `MAX_SUBSCRIBERS_PER_QUEUE` are listed.
    pub fn add_subscriber(&mut self, subscriber_id: String) -> (r: Result<(), ProtocolError>)
        requires
            old(self).wf(),
        ensures
            final(self).wf(),
            final(self).state() == old(self).state(),
            final(self).id == old(self).id,
            final(self).created_at == old(self).created_at,
            final(self).name@ == old(self).name@,
            ({
                let subs = old(self).subscribers@.map_values(|s: String| s@);
                let subs2 = final(self).subscribers@.map_values(|s: String| s@);
                if old(self).subscribers.len() >= MAX_SUBSCRIBERS_PER_QUEUE {
                    r matches Err(ProtocolError::TooManySubscribers) && subs2 == subs
                } else if subs.contains(subscriber_id@) {
                    r is Ok && subs2 == subs
                } else {
                    r is Ok && subs2 == subs.push(subscriber_id@)
                }
            }),
    {
        let ghost subs = self.subscribers@.map_values(|s: String| s@);
        if self.subscribers.len() >= MAX_SUBSCRIBERS_PER_QUEUE {
            return Err(ProtocolError::TooManySubscribers);
        }
        if contains_string(&self.subscribers, &subscriber_id) {
            return Ok(());
        }
        let ghost before = self.subscribers@;
        self.subscribers.push(subscriber_id);
        assert(self.subscribers@.map_values(|s: String| s@) =~= subs.push(subscriber_id@));
        Ok(())
    }

    /// Removes every occurrence of the subscriber.
    pub fn remove_subscriber(&mut self, subscriber_id: &str)
        requires
            old(self).wf(),
        ensures
            final(self).wf(),
            final(self).state() == old(self).state(),
            final(self).id == old(self).id,
            final(self).created_at == old(self).created_at,
            final(self).name@ == old(self).name@,
            final(self).subscribers@.map_values(|s: String| s@) == without_subscriber(
                old(self).subscribers@.map_values(|s: String| s@),
                subscriber_id@,
            ),
    {
        let target = subscriber_id.to_owned();
        let ghost subs = self.subscribers@.map_values(|s: String| s@);
        let ghost p = other_than(subscriber_id@);
        let mut kept: Vec<String> = Vec::new();
        let mut i: usize = 0;
        while i < self.subscribers.len()
            invariant
                i <= self.subscribers.len(),
                subs == self.subscribers@.map_values(|s: String| s@),
                target@ == subscriber_id@,
                p == other_than(subscriber_id@),
                kept@.map_values(|s: String| s@) == subs.take(i as int).filter(p),
            decreases self.subscribers.len() - i,
        {
            proof {
                assert(subs.take(i + 1) =~= subs.take(i as int).push(subs[i as int]));
                subs.take(i as int).lemma_filter_push(subs[i as int], p);
            }
            assert(subs[i as int] == self.subscribers@[i as int]@);
            if !(self.subscribers[i] == target) {
                let s = self.subscribers[i].clone();
                let ghost before = kept@;
                kept.push(s);
                assert(kept@.map_values(|s: String| s@) =~= before.map_values(|s: String| s@).push(subs[i as int]));
            }
            i = i + 1;
        }
        assert(subs.take(i as int) =~= subs);
        self.subscribers = kept;
    }

    /// Whether the queue has outlived its time-to-live at clock time `now`.
    pub fn is_expired_at(&self, now: u64) -> (r: bool)
        requires
            self.config.ttl_seconds matches Some(ttl) ==> self.created_at + ttl <= u64::MAX,
        ensures
            r == ttl_passed(self.config.ttl_seconds, self.created_at, now),
    {
        match self.config.ttl_seconds {
            Some(ttl) => now > self.created_at + ttl,
            None => false,
        }
    }

    /// Whether the queue has outlived its time-to-live by the current clock.
    pub fn is_expired(&self) -> (r: bool)
        requires
            self.config.ttl_seconds matches Some(ttl) ==> self.created_at + ttl <= u64::MAX,
        ensures
            self.config.ttl_seconds is None ==> !r,
            exists|now: u64| r == #[trigger] ttl_passed(self.config.ttl_seconds, self.created_at, now),
    {
        let now = now_secs();
        self.is_expired_at(now)
    }

    /// Whether every stored message has been acknowledged.
    pub fn is_empty(&self) -> (r: bool)
        ensures
            r == forall|i: int| 0 <= i < self.msgs().len() ==> #[trigger] self.msgs()[i].acked,
    {
        let mut i: usize = 0;
        while i < self.messages.len()
            invariant
                i <= self.messages.len(),
                forall|j: int| 0 <= j < i ==> #[trigger] self.msgs()[j].acked,
            decreases self.messages.len() - i,
        {
            assert(self.msgs()[i as int] == self.messages@[i as int]@);
            if !self.messages[i].acked {
                assert(!self.msgs()[i as int].acked);
                return false;
            }
            i = i + 1;
        }
        true
    }

    /// How many stored messages are deliverable at clock time `now`.
    pub fn pending_count_at(&self, now: u64) -> (r: usize)
        ensures
            r == deliverable_count(self.msgs(), now),
    {
        let ghost p = |m: MessageModel| m.deliverable_at(now);
        let ghost ms = self.msgs();
        let mut count: usize = 0;
        let mut i: usize = 0;
        while i < self.messages.len()
            invariant
                i <= self.messages.len(),
                ms == self.msgs(),
                ms.len() == self.messages.len(),
                p == (|m: MessageModel| m.deliverable_at(now)),
                count == ms.take(i as int).filter(p).len(),
                count <= i,
            decreases self.messages.len() - i,
        {
            proof {
                lemma_filter_take_step(ms, i as int, p);
            }
            assert(ms[i as int] == self.messages@[i as int]@);
            if !self.messages[i].acked && !self.messages[i].is_expired_at(now) {
                count = count + 1;
            }
            i = i + 1;
        }
        assert(ms.take(i as int) =~= ms);
        count
    }

    /// How many stored messages are deliverable by the current clock.
    pub fn pending_count(&self) -> (r: usize)
        ensures
            exists|now: u64| r == #[trigger] deliverable_count(self.msgs(), now),
    {
        let now = now_secs();
        self.pending_count_at(now)
    }
}

} // verus!
