use vstd::prelude::*;
use crate::bytes::{be_to_u64, bytes_equal, u64_from_be_at};
use crate::protocol::constants::{
    MAX_NONCES_PER_SESSION, MAX_QUEUES_PER_CONNECTION, NONCE_CLEANUP_BATCH, NONCE_TIMEOUT_SECS,
};
use crate::protocol::error::ProtocolError;
use crate::protocol::types::{generate_nonce, now_secs};

verus! {

/// The clock time a nonce carries in its first eight bytes (big-endian).
pub open spec fn nonce_time(n: Seq<u8>) -> u64 {
    be_to_u64(n.subrange(0, 8))
}

/// `now - t`, or 0 when `t` lies in the future.
pub open spec fn age(now: u64, t: u64) -> int {
    if now >= t { now - t } else { 0 }
}

/// A stored nonce is kept by a cleanup at clock time `now` when it carries
/// a time stamp younger than the nonce timeout.
pub open spec fn nonce_fresh(n: Seq<u8>, now: u64) -> bool {
    n.len() >= 8 && age(now, nonce_time(n)) < NONCE_TIMEOUT_SECS
}

/// The position of the first occurrence of `x` in `s`.
pub open spec fn first_pos(s: Seq<Seq<u8>>, x: Seq<u8>) -> int {
    choose|i: int| 0 <= i < s.len() && s[i] == x && forall|j: int| 0 <= j < i ==> s[j] != x
}

/// The views of a list of byte vectors.
pub open spec fn byte_views(v: Seq<Vec<u8>>) -> Seq<Seq<u8>> {
    v.map_values(|b: Vec<u8>| b@)
}

/// The nonce bookkeeping of a session.
pub struct NonceState {
    pub used: Seq<Seq<u8>>,
    pub issued: Seq<Seq<u8>>,
    pub since_cleanup: int,
    pub last_seen: u64,
}

/// The nonce bookkeeping after a cleanup at clock time `now`.
pub open spec fn expired_nonces_dropped(st: NonceState, now: u64) -> NonceState {
    NonceState {
        used: st.used.filter(|n: Seq<u8>| nonce_fresh(n, now)),
        issued: st.issued.filter(|n: Seq<u8>| nonce_fresh(n, now)),
        since_cleanup: 0,
        last_seen: st.last_seen,
    }
}

/// The outcome of presenting `nonce` at clock time `now`: it is refused
/// when it was used before (`NonceAlreadyUsed`), when it is shorter than
/// twelve bytes (`InvalidFrame`), or when its time stamp is older than the
/// timeout (`NonceExpired`); when the used-nonce store is full a cleanup
/// runs first and, if the store is still full, the nonce is refused as
/// `NonceAlreadyUsed`. An accepted nonce is stored, counted, and triggers a
/// cleanup every `NONCE_CLEANUP_BATCH` nonces; the session is then seen at
/// `now`.
pub open spec fn nonce_outcome(st: NonceState, nonce: Seq<u8>, now: u64, after: NonceState, r: Result<(), ProtocolError>) -> bool {
    if st.used.contains(nonce) {
        r matches Err(ProtocolError::NonceAlreadyUsed) && after == st
    } else if nonce.len() < 12 {
        (r matches Err(ProtocolError::InvalidFrame(s)) && s@ == "Nonce too short"@) && after == st
    } else if age(now, nonce_time(nonce)) > NONCE_TIMEOUT_SECS {
        r matches Err(ProtocolError::NonceExpired) && after == st
    } else {
        let st1 = if st.used.len() >= MAX_NONCES_PER_SESSION {
            expired_nonces_dropped(st, now)
        } else {
            st
        };
        if st1.used.len() >= MAX_NONCES_PER_SESSION {
            r matches Err(ProtocolError::NonceAlreadyUsed) && after == st1
        } else {
            let st2 = NonceState {
                used: st1.used.push(nonce),
                since_cleanup: st1.since_cleanup + 1,
                ..st1
            };
            let st3 = if st2.since_cleanup >= NONCE_CLEANUP_BATCH {
                expired_nonces_dropped(st2, now)
            } else {
                st2
            };
            r is Ok && after == NonceState { last_seen: now, ..st3 }
        }
    }
}

/// Replay protection: a nonce accepted while younger than the timeout is
/// refused as already used when it is presented again, at any later time.
pub proof fn lemma_replay_refused(st: NonceState, nonce: Seq<u8>, now: u64, mid: NonceState, later: u64, after: NonceState, r: Result<(), ProtocolError>)
    requires
        nonce_outcome(st, nonce, now, mid, Ok(())),
        age(now, nonce_time(nonce)) < NONCE_TIMEOUT_SECS,
        nonce_outcome(mid, nonce, later, after, r),
    ensures
        r matches Err(ProtocolError::NonceAlreadyUsed),
        after == mid,
{
    let st1 = if st.used.len() >= MAX_NONCES_PER_SESSION { expired_nonces_dropped(st, now) } else { st };
    let pushed = st1.used.push(nonce);
    let p = |n: Seq<u8>| nonce_fresh(n, now);
    assert(pushed[pushed.len() - 1] == nonce);
    assert(pushed.contains(nonce));
    if st1.since_cleanup + 1 >= NONCE_CLEANUP_BATCH {
        assert(p(nonce));
        pushed.lemma_filter_contains(p, pushed.len() - 1);
    }
    assert(mid.used.contains(nonce));
}

/// A nonce is guarded by a session's used nonces at clock time `t` when
/// it is long enough to carry a time stamp and is either stored or no
/// younger than the nonce timeout.
pub open spec fn nonce_guarded(used: Seq<Seq<u8>>, n: Seq<u8>, t: u64) -> bool {
    &&& n.len() >= 12
    &&& (used.contains(n) || age(t, nonce_time(n)) >= NONCE_TIMEOUT_SECS)
}

/// A guard survives a cleanup at the same clock time.
proof fn lemma_guard_through_cleanup(used: Seq<Seq<u8>>, n: Seq<u8>, t: u64)
    requires
        nonce_guarded(used, n, t),
    ensures
        nonce_guarded(used.filter(|x: Seq<u8>| nonce_fresh(x, t)), n, t),
{
    let p = |x: Seq<u8>| nonce_fresh(x, t);
    if used.contains(n) && p(n) {
        let k = choose|k: int| 0 <= k < used.len() && used[k] == n;
        used.lemma_filter_contains(p, k);
    }
}

/// An accepted nonce is guarded from then on: at the time it is accepted,
/// the session's used nonces guard it.
pub proof fn lemma_accepted_nonce_guarded(st: NonceState, n: Seq<u8>, t0: u64, after: NonceState)
    requires
        nonce_outcome(st, n, t0, after, Ok(())),
    ensures
        nonce_guarded(after.used, n, t0),
{
    let st1 = if st.used.len() >= MAX_NONCES_PER_SESSION { expired_nonces_dropped(st, t0) } else { st };
    let pushed = st1.used.push(n);
    assert(pushed[pushed.len() - 1] == n);
    assert(pushed.contains(n));
    lemma_guard_through_cleanup(pushed, n, t0);
}

/// Time passing, and any presentation of any nonce at a later clock time,
/// keep a guard.
pub proof fn lemma_guard_kept(st: NonceState, n: Seq<u8>, t: u64, m: Seq<u8>, t1: u64, after: NonceState, r: Result<(), ProtocolError>)
    requires
        nonce_guarded(st.used, n, t),
        t <= t1,
        nonce_outcome(st, m, t1, after, r),
    ensures
        nonce_guarded(st.used, n, t1),
        nonce_guarded(after.used, n, t1),
{
    assert(nonce_guarded(st.used, n, t1));
    lemma_guard_through_cleanup(st.used, n, t1);
    let st1 = if st.used.len() >= MAX_NONCES_PER_SESSION { expired_nonces_dropped(st, t1) } else { st };
    assert(nonce_guarded(st1.used, n, t1));
    let pushed = st1.used.push(m);
    if st1.used.contains(n) {
        let k = choose|k: int| 0 <= k < st1.used.len() && st1.used[k] == n;
        assert(pushed[k] == n);
    }
    assert(nonce_guarded(pushed, n, t1));
    lemma_guard_through_cleanup(pushed, n, t1);
}

/// A guarded nonce is never accepted again: presented at a later clock
/// time, other than exactly the nonce timeout after its time stamp, it is
/// refused as already used or as expired. With `lemma_accepted_nonce_guarded`
/// and `lemma_guard_kept` (the other session operations leave the used
/// nonces as they are), a nonce is accepted at most once per session,
/// whatever calls come in between.
pub proof fn lemma_guarded_nonce_refused(st: NonceState, n: Seq<u8>, t: u64, t1: u64, after: NonceState, r: Result<(), ProtocolError>)
    requires
        nonce_guarded(st.used, n, t),
        t <= t1,
        age(t1, nonce_time(n)) != NONCE_TIMEOUT_SECS,
        nonce_outcome(st, n, t1, after, r),
    ensures
        r matches Err(ProtocolError::NonceAlreadyUsed) || r matches Err(ProtocolError::NonceExpired),
{
}

/// Keeping the elements that satisfy `p` keeps a sequence free of
/// duplicates.
pub proof fn lemma_filter_no_duplicates<A>(s: Seq<A>, p: spec_fn(A) -> bool)
    requires
        s.no_duplicates(),
    ensures
        s.filter(p).no_duplicates(),
    decreases s.len(),
{
    if s.len() > 0 {
        let pre = s.drop_last();
        assert(s =~= pre.push(s.last()));
        assert(pre.no_duplicates());
        lemma_filter_no_duplicates(pre, p);
        pre.lemma_filter_push(s.last(), p);
        if p(s.last()) {
            let f = pre.filter(p);
            if f.contains(s.last()) {
                pre.lemma_filter_contains_rev(p, s.last());
                let k = choose|k: int| 0 <= k < pre.len() && pre[k] == s.last();
                assert(s[k] == s[s.len() - 1]);
            }
            let g = f.push(s.last());
            assert forall|i: int, j: int| 0 <= i < g.len() && 0 <= j < g.len() && i != j implies g[i] != g[j] by {
                if i < f.len() && j < f.len() {
                } else if i < f.len() {
                    assert(f.contains(f[i]));
                } else {
                    assert(f.contains(f[j]));
                }
            }
        }
    }
}

/// The state of one client connection on the relay.
pub struct Session {
    pub identity_key: Vec<u8>,
    pub authenticated: bool,
    pub connected_at: u64,
    pub last_seen: u64,
    pub used_nonces: Vec<Vec<u8>>,
    pub queue_count: usize,
    pub nonce_count_since_cleanup: usize,
    pub issued_nonces: Vec<Vec<u8>>,
}

/// Keeps the nonces of `v` that are fresh at clock time `now`.
fn keep_fresh(v: &Vec<Vec<u8>>, now: u64) -> (r: Vec<Vec<u8>>)
    ensures
        byte_views(r@) == byte_views(v@).filter(|n: Seq<u8>| nonce_fresh(n, now)),
{
    let ghost vs = byte_views(v@);
    let ghost p = |n: Seq<u8>| nonce_fresh(n, now);
    let mut r: Vec<Vec<u8>> = Vec::new();
    let mut i: usize = 0;
    while i < v.len()
        invariant
            i <= v.len(),
            vs == byte_views(v@),
            p == (|n: Seq<u8>| nonce_fresh(n, now)),
            byte_views(r@) == vs.take(i as int).filter(p),
        decreases v.len() - i,
    {
        proof {
            assert(vs.take(i + 1) =~= vs.take(i as int).push(vs[i as int]));
            vs.take(i as int).lemma_filter_push(vs[i as int], p);
        }
        assert(vs[i as int] == v@[i as int]@);
        let keep = if v[i].len() < 8 {
            false
        } else {
            let ts = u64_from_be_at(v[i].as_slice(), 0);
            let a = now.saturating_sub(ts);
            a < NONCE_TIMEOUT_SECS
        };
        if keep {
            let n = v[i].clone();
            let ghost before = r@;
            r.push(n);
            assert(byte_views(r@) =~= byte_views(before).push(vs[i as int]));
        }
        i = i + 1;
    }
    assert(vs.take(i as int) =~= vs);
    r
}

/// The index of the first entry of `v` equal to `s`.
fn find_bytes(v: &Vec<Vec<u8>>, s: &[u8]) -> (r: Option<usize>)
    ensures
        match r {
            Some(i) => i < v.len() && byte_views(v@)[i as int] == s@
                && forall|j: int| 0 <= j < i ==> byte_views(v@)[j] != s@,
            None => !byte_views(v@).contains(s@),
        },
{
    let ghost vs = byte_views(v@);
    let mut i: usize = 0;
    while i < v.len()
        invariant
            i <= v.len(),
            vs == byte_views(v@),
            forall|j: int| 0 <= j < i ==> vs[j] != s@,
        decreases v.len() - i,
    {
        assert(vs[i as int] == v@[i as int]@);
        if bytes_equal(v[i].as_slice(), s) {
            return Some(i);
        }
        i = i + 1;
    }
    None
}

impl Session {
    /// The nonce bookkeeping, as plain values.
    pub open spec fn nonces(&self) -> NonceState {
        NonceState {
            used: byte_views(self.used_nonces@),
            issued: byte_views(self.issued_nonces@),
            since_cleanup: self.nonce_count_since_cleanup as int,
            last_seen: self.last_seen,
        }
    }

    /// The cleanup counter stays below its batch size, and no used nonce
    /// is stored twice.
    pub open spec fn wf(&self) -> bool {
        &&& self.nonces().since_cleanup < NONCE_CLEANUP_BATCH
        &&& self.nonces().used.no_duplicates()
    }


    /// Everything but the nonce bookkeeping.
    pub open spec fn same_identity(&self, other: &Session) -> bool {
        &&& self.identity_key@ == other.identity_key@
        &&& self.authenticated == other.authenticated
        &&& self.connected_at == other.connected_at
        &&& self.queue_count == other.queue_count
    }

    /// A fresh, unauthenticated session opened at clock time `now`.
    pub fn new_at(identity_key: Vec<u8>, now: u64) -> (s: Session)
        ensures
            s.wf(),
            s.identity_key@ == identity_key@,
            !s.authenticated,
            s.connected_at == now,
            s.last_seen == now,
            s.queue_count == 0,
            s.nonces() == (NonceState { used: Seq::empty(), issued: Seq::empty(), since_cleanup: 0, last_seen: now }),
    {
        let s = Session {
            identity_key,
            authenticated: false,
            connected_at: now,
            last_seen: now,
            used_nonces: Vec::new(),
            queue_count: 0,
            nonce_count_since_cleanup: 0,
            issued_nonces: Vec::new(),
        };
        assert(s.nonces().used =~= Seq::<Seq<u8>>::empty());
        assert(s.nonces().issued =~= Seq::<Seq<u8>>::empty());
        s
    }

    /// A fresh, unauthenticated session opened now.
    pub fn new(identity_key: Vec<u8>) -> (s: Session)
        ensures
            s.wf(),
            s.identity_key@ == identity_key@,
            !s.authenticated,
            s.connected_at == s.last_seen,
            s.queue_count == 0,
            s.nonces().used == Seq::<Seq<u8>>::empty(),
            s.nonces().issued == Seq::<Seq<u8>>::empty(),
            s.nonces().since_cleanup == 0,
    {
        let now = now_secs();
        Self::new_at(identity_key, now)
    }

    /// Records `nonce` as issued by the relay; beyond `MAX_NONCES_PER_SESSION`
    /// issued nonces the oldest is forgotten. Returns the nonce.
    pub fn record_issued_nonce(&mut self, nonce: Vec<u8>) -> (r: Vec<u8>)
        requires
            old(self).wf(),
        ensures
            final(self).wf(),
            final(self).same_identity(old(self)),
            r@ == nonce@,
            ({
                let pushed = old(self).nonces().issued.push(nonce@);
                final(self).nonces() == NonceState {
                    issued: if pushed.len() > MAX_NONCES_PER_SESSION { pushed.drop_first() } else { pushed },
                    ..old(self).nonces()
                }
            }),
    {
        let ghost pushed = self.nonces().issued.push(nonce@);
        self.issued_nonces.push(nonce.clone());
        assert(self.nonces().issued =~= pushed);
        if self.issued_nonces.len() > MAX_NONCES_PER_SESSION {
            self.issued_nonces.remove(0);
            assert(self.nonces().issued =~= pushed.drop_first());
        }
        nonce
    }

    /// Issues a fresh nonce (its first eight bytes carry the clock time).
    pub fn issue_nonce(&mut self) -> (r: Vec<u8>)
        requires
            old(self).wf(),
        ensures
            final(self).wf(),
            final(self).same_identity(old(self)),
            r@.len() == 16,
            ({
                let pushed = old(self).nonces().issued.push(r@);
                final(self).nonces() == NonceState {
                    issued: if pushed.len() > MAX_NONCES_PER_SESSION { pushed.drop_first() } else { pushed },
                    ..old(self).nonces()
                }
            }),
    {
        let nonce = generate_nonce();
        self.record_issued_nonce(nonce)
    }

    /// Consumes a nonce the relay issued: returns whether it was issued and
    /// not yet consumed, and forgets its first occurrence.
    pub fn verify_and_consume_nonce(&mut self, nonce: &[u8]) -> (r: bool)
        requires
            old(self).wf(),
        ensures
            final(self).wf(),
            final(self).same_identity(old(self)),
            r == old(self).nonces().issued.contains(nonce@),
            r ==> final(self).nonces() == (NonceState {
                issued: old(self).nonces().issued.remove(first_pos(old(self).nonces().issued, nonce@)),
                ..old(self).nonces()
            }),
            !r ==> final(self).nonces() == old(self).nonces(),
    {
        let ghost iss = self.nonces().issued;
        match find_bytes(&self.issued_nonces, nonce) {
            Some(pos) => {
                proof {
                    let p = |i: int| 0 <= i < iss.len() && iss[i] == nonce@ && forall|j: int| 0 <= j < i ==> iss[j] != nonce@;
                    assert(p(pos as int));
                    let k = first_pos(iss, nonce@);
                    assert(p(k));
                    if k < pos {
                        assert(iss[k] != nonce@);
                    }
                    if k > pos {
                        assert(iss[pos as int] != nonce@);
                    }
                    assert(iss.contains(nonce@));
                }
                self.issued_nonces.remove(pos);
                assert(self.nonces().issued =~= iss.remove(pos as int));
                true
            },
            None => false,
        }
    }

    fn expire_old_nonces(&mut self, now: u64)
        requires
            old(self).nonces().used.no_duplicates(),
        ensures
            final(self).wf(),
            final(self).same_identity(old(self)),
            final(self).nonces() == expired_nonces_dropped(old(self).nonces(), now),
    {
        proof {
            lemma_filter_no_duplicates(old(self).nonces().used, |n: Seq<u8>| nonce_fresh(n, now));
        }
        self.used_nonces = keep_fresh(&self.used_nonces, now);
        self.nonce_count_since_cleanup = 0;
        self.issued_nonces = keep_fresh(&self.issued_nonces, now);
    }

    /// Checks a client nonce at clock time `now` and stores it; see
    /// `nonce_outcome`.
    pub fn check_and_store_nonce_at(&mut self, nonce: &[u8], now: u64) -> (r: Result<(), ProtocolError>)
        requires
            old(self).wf(),
        ensures
            final(self).wf(),
            final(self).same_identity(old(self)),
            nonce_outcome(old(self).nonces(), nonce@, now, final(self).nonces(), r),
    {
        if find_bytes(&self.used_nonces, nonce).is_some() {
            return Err(ProtocolError::NonceAlreadyUsed);
        }
        if nonce.len() < 12 {
            return Err(ProtocolError::InvalidFrame(String::from_str("Nonce too short")));
        }
        let ts = u64_from_be_at(nonce, 0);
        if now.saturating_sub(ts) > NONCE_TIMEOUT_SECS {
            return Err(ProtocolError::NonceExpired);
        }
        if self.used_nonces.len() >= MAX_NONCES_PER_SESSION {
            self.expire_old_nonces(now);
            if self.used_nonces.len() >= MAX_NONCES_PER_SESSION {
                return Err(ProtocolError::NonceAlreadyUsed);
            }
        }
        let ghost before = self.nonces();
        assert(nonce@.subrange(0, nonce@.len() as int) =~= nonce@);
        self.used_nonces.push(crate::bytes::copy_range(nonce, 0, nonce.len()));
        self.nonce_count_since_cleanup = self.nonce_count_since_cleanup + 1;
        assert(self.nonces().used =~= before.used.push(nonce@));
        proof {
            let orig = old(self).nonces().used;
            if before.used.contains(nonce@) && before.used != orig {
                orig.lemma_filter_contains_rev(|n: Seq<u8>| nonce_fresh(n, now), nonce@);
            }
            assert(!before.used.contains(nonce@));
            let u = self.nonces().used;
            assert forall|i: int, j: int| 0 <= i < u.len() && 0 <= j < u.len() && i != j implies u[i] != u[j] by {
                if i < before.used.len() && j < before.used.len() {
                } else if i < before.used.len() {
                    assert(before.used.contains(before.used[i]));
                } else {
                    assert(before.used.contains(before.used[j]));
                }
            }
        }
        if self.nonce_count_since_cleanup >= NONCE_CLEANUP_BATCH {
            self.expire_old_nonces(now);
        }
        self.last_seen = now;
        Ok(())
    }

    /// Checks a client nonce by the current clock; see `nonce_outcome`.
    pub fn check_and_store_nonce(&mut self, nonce: &[u8]) -> (r: Result<(), ProtocolError>)
        requires
            old(self).wf(),
        ensures
            final(self).wf(),
            final(self).same_identity(old(self)),
            exists|now: u64| #[trigger] nonce_outcome(old(self).nonces(), nonce@, now, final(self).nonces(), r),
    {
        let now = now_secs();
        self.check_and_store_nonce_at(nonce, now)
    }

    /// Refuses with `TooManyQueues` once the connection owns
    /// `MAX_QUEUES_PER_CONNECTION` queues.
    pub fn check_queue_limit(&self) -> (r: Result<(), ProtocolError>)
        ensures
            self.queue_count >= MAX_QUEUES_PER_CONNECTION <==> r matches Err(ProtocolError::TooManyQueues),
            self.queue_count < MAX_QUEUES_PER_CONNECTION <==> r is Ok,
    {
        if self.queue_count >= MAX_QUEUES_PER_CONNECTION {
            return Err(ProtocolError::TooManyQueues);
        }
        Ok(())
    }

    /// Counts one more queue owned by the connection.
    pub fn increment_queues(&mut self)
        requires
            old(self).queue_count < usize::MAX,
        ensures
            final(self).queue_count == old(self).queue_count + 1,
            final(self).nonces() == old(self).nonces(),
            final(self).identity_key@ == old(self).identity_key@,
            final(self).authenticated == old(self).authenticated,
            final(self).connected_at == old(self).connected_at,
    {
        self.queue_count = self.queue_count + 1;
    }

    /// Counts one queue fewer, never below zero.
    pub fn decrement_queues(&mut self)
        ensures
            final(self).queue_count == if old(self).queue_count > 0 { old(self).queue_count - 1 } else { 0 },
            final(self).nonces() == old(self).nonces(),
            final(self).identity_key@ == old(self).identity_key@,
            final(self).authenticated == old(self).authenticated,
            final(self).connected_at == old(self).connected_at,
    {
        if self.queue_count > 0 {
            self.queue_count = self.queue_count - 1;
        }
    }

    /// Whether the session has been idle longer than the nonce timeout at
    /// clock time `now`.
    pub fn is_expired_at(&self, now: u64) -> (r: bool)
        ensures
            r == (age(now, self.last_seen) > NONCE_TIMEOUT_SECS),
    {
        now.saturating_sub(self.last_seen) > NONCE_TIMEOUT_SECS
    }

    /// Whether the session has been idle too long by the current clock.
    pub fn is_expired(&self) -> (r: bool)
        ensures
            exists|now: u64| r == (#[trigger] age(now, self.last_seen) > NONCE_TIMEOUT_SECS),
    {
        let now = now_secs();
        self.is_expired_at(now)
    }

    /// Marks the session as seen at clock time `now`.
    pub fn touch_at(&mut self, now: u64)
        ensures
            final(self).last_seen == now,
            final(self).nonces() == (NonceState { last_seen: now, ..old(self).nonces() }),
            final(self).issued_nonces@ == old(self).issued_nonces@,
            final(self).same_identity(old(self)),
    {
        self.last_seen = now;
    }

    /// Marks the session as seen now.
    pub fn touch(&mut self)
        ensures
            final(self).nonces() == (NonceState { last_seen: final(self).last_seen, ..old(self).nonces() }),
            final(self).issued_nonces@ == old(self).issued_nonces@,
            final(self).same_identity(old(self)),
    {
        let now = now_secs();
        self.touch_at(now)
    }
}

} // verus!
