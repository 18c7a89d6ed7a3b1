use vstd::prelude::*;
use crate::bytes::{bytes_equal, copy_range, hex_chars, hex_string};
use crate::database::wal::WalEntry;
use crate::server::config::RmpConfig;
use crate::server::error::RmpError;

verus! {

/// `2^k`.
pub open spec fn pow2(k: nat) -> nat
    decreases k,
{
    if k == 0 { 1 } else { 2 * pow2((k - 1) as nat) }
}

proof fn lemma_pow2_mono(a: nat, b: nat)
    requires
        a <= b,
    ensures
        pow2(a) <= pow2(b),
    decreases b,
{
    if a < b {
        lemma_pow2_mono(a, (b - 1) as nat);
    }
}

proof fn lemma_pow2_63()
    ensures
        pow2(63) == 0x8000_0000_0000_0000,
{
    reveal_with_fuel(pow2, 64);
}

/// Backoff never shrinks and never exceeds the cap: for retry numbers
/// `1 <= c1 <= c2` the delay before `c1` is at most the delay before `c2`,
/// which is at most `max`.
pub proof fn lemma_backoff_grows_to_cap(base: u64, max: u64, c1: u32, c2: u32)
    requires
        1 <= c1 <= c2,
    ensures
        retry_delay(base, max, c1) <= retry_delay(base, max, c2),
        retry_delay(base, max, c2) <= max,
{
    let a = pow2((c1 - 1) as nat);
    let b = pow2((c2 - 1) as nat);
    lemma_pow2_mono((c1 - 1) as nat, (c2 - 1) as nat);
    assert(base * a <= base * b) by (nonlinear_arith)
        requires
            a <= b,
    ;
}

/// The message identifiers of an attempt list.
pub open spec fn attempt_ids(v: Seq<(Vec<u8>, u32)>) -> Seq<Seq<u8>> {
    v.map_values(|p: (Vec<u8>, u32)| p.0@)
}

/// How many times message `id` has been retried.
pub open spec fn attempts_for(v: Seq<(Vec<u8>, u32)>, id: Seq<u8>) -> u32 {
    if exists|i: int| 0 <= i < v.len() && #[trigger] v[i].0@ == id {
        v[choose|i: int| 0 <= i < v.len() && #[trigger] v[i].0@ == id].1
    } else {
        0
    }
}

/// The delay before retry number `count`: `base * 2^(count - 1)`, capped
/// at `max`.
pub open spec fn retry_delay(base: u64, max: u64, count: u32) -> int {
    let d = base * pow2((count - 1) as nat);
    if d < max { d } else { max as int }
}

/// Counts retries per message and decides how long to wait before each.
pub struct RetryManager {
    pub config: RmpConfig,
    pub attempts: Vec<(Vec<u8>, u32)>,
}

proof fn lemma_attempts_at(v: Seq<(Vec<u8>, u32)>, i: int, id: Seq<u8>)
    requires
        0 <= i < v.len(),
        v[i].0@ == id,
        forall|a: int, b: int| 0 <= a < b < v.len() ==> (#[trigger] v[a]).0@ != (#[trigger] v[b]).0@,
    ensures
        attempts_for(v, id) == v[i].1,
{
    let j = choose|j: int| 0 <= j < v.len() && #[trigger] v[j].0@ == id;
    assert(v[i].0@ == id);
    if j < i {
        assert(v[j].0@ != v[i].0@);
    } else if j > i {
        assert(v[i].0@ != v[j].0@);
    }
}

impl RetryManager {
    /// No message identifier is listed twice.
    pub open spec fn wf(&self) -> bool {
        forall|a: int, b: int| 0 <= a < b < self.attempts@.len() ==> (#[trigger] self.attempts@[a]).0@ != (#[trigger] self.attempts@[b]).0@
    }

    /// A manager with no retries counted.
    pub fn new(config: &RmpConfig) -> (r: RetryManager)
        ensures
            r.wf(),
            r.config.same_as(config),
            r.attempts@.len() == 0,
    {
        RetryManager { config: config.duplicate(), attempts: Vec::new() }
    }

    /// Counts one more retry of message `message_id`; returns the new count.
    fn bump_attempt(&mut self, message_id: &[u8]) -> (count: u32)
        requires
            old(self).wf(),
            attempts_for(old(self).attempts@, message_id@) < u32::MAX,
        ensures
            final(self).wf(),
            final(self).config == old(self).config,
            count == attempts_for(old(self).attempts@, message_id@) + 1,
            attempts_for(final(self).attempts@, message_id@) == count,
            forall|other: Seq<u8>| other != message_id@ ==> attempts_for(final(self).attempts@, other)
                == attempts_for(old(self).attempts@, other),
    {
        let ghost v = self.attempts@;
        let mut i: usize = 0;
        let mut found = false;
        while i < self.attempts.len()
            invariant_except_break
                !found,
            invariant
                i <= self.attempts.len(),
                v == self.attempts@,
                forall|j: int| 0 <= j < i ==> (#[trigger] v[j]).0@ != message_id@,
            ensures
                i <= self.attempts.len(),
                v == self.attempts@,
                found ==> i < self.attempts.len() && v[i as int].0@ == message_id@,
                !found ==> forall|j: int| 0 <= j < v.len() ==> (#[trigger] v[j]).0@ != message_id@,
            decreases self.attempts.len() - i,
        {
            if bytes_equal(self.attempts[i].0.as_slice(), message_id) {
                found = true;
                break;
            }
            i = i + 1;
        }
        let count: u32;
        if found {
            proof {
                lemma_attempts_at(v, i as int, message_id@);
            }
            let key = self.attempts[i].0.clone();
            count = self.attempts[i].1 + 1;
            self.attempts.set(i, (key, count));
            proof {
                let w = self.attempts@;
                assert forall|a: int, b: int| 0 <= a < b < w.len() implies (#[trigger] w[a]).0@ != (#[trigger] w[b]).0@ by {
                    if a != i && b != i {
                        assert(w[a] == v[a] && w[b] == v[b]);
                    }
                }
                lemma_attempts_at(w, i as int, message_id@);
                assert forall|other: Seq<u8>| other != message_id@ implies attempts_for(w, other) == attempts_for(v, other) by {
                    if exists|j: int| 0 <= j < v.len() && #[trigger] v[j].0@ == other {
                        let j = choose|j: int| 0 <= j < v.len() && #[trigger] v[j].0@ == other;
                        lemma_attempts_at(v, j, other);
                        assert(w[j] == v[j]);
                        lemma_attempts_at(w, j, other);
                    } else {
                        assert forall|j: int| 0 <= j < w.len() implies #[trigger] w[j].0@ != other by {
                            if j != i {
                                assert(w[j] == v[j]);
                            }
                        }
                    }
                }
            }
        } else {
            count = 1;
            let key = copy_range(message_id, 0, message_id.len());
            assert(key@ =~= message_id@);
            self.attempts.push((key, 1));
            proof {
                let w = self.attempts@;
                assert forall|a: int, b: int| 0 <= a < b < w.len() implies (#[trigger] w[a]).0@ != (#[trigger] w[b]).0@ by {
                    if b < v.len() {
                        assert(w[a] == v[a] && w[b] == v[b]);
                    } else {
                        assert(w[a] == v[a]);
                    }
                }
                lemma_attempts_at(w, v.len() as int, message_id@);
                assert(attempts_for(v, message_id@) == 0);
                assert forall|other: Seq<u8>| other != message_id@ implies attempts_for(w, other) == attempts_for(v, other) by {
                    if exists|j: int| 0 <= j < v.len() && #[trigger] v[j].0@ == other {
                        let j = choose|j: int| 0 <= j < v.len() && #[trigger] v[j].0@ == other;
                        lemma_attempts_at(v, j, other);
                        assert(w[j] == v[j]);
                        lemma_attempts_at(w, j, other);
                    } else {
                        assert forall|j: int| 0 <= j < w.len() implies #[trigger] w[j].0@ != other by {
                            if j < v.len() {
                                assert(w[j] == v[j]);
                            }
                        }
                    }
                }
            }
        }
        count
    }

    /// Counts one more retry of message `message_id`. Beyond
    /// `retry_max_attempts` it is refused with `RetryExhausted(<hex id>)`;
    /// otherwise the result is the delay in milliseconds before retrying.
    pub fn schedule_retry(&mut self, message_id: &[u8]) -> (r: Result<u64, RmpError>)
        requires
            old(self).wf(),
            attempts_for(old(self).attempts@, message_id@) < u32::MAX,
            ({
                let c = attempts_for(old(self).attempts@, message_id@) + 1;
                c <= old(self).config.retry_max_attempts ==> c - 1 < 64
                    && old(self).config.retry_base_delay_ms * pow2((c - 1) as nat) <= u64::MAX
            }),
        ensures
            final(self).wf(),
            final(self).config == old(self).config,
            ({
                let c = (attempts_for(old(self).attempts@, message_id@) + 1) as u32;
                &&& attempts_for(final(self).attempts@, message_id@) == c
                &&& forall|other: Seq<u8>| other != message_id@ ==> attempts_for(final(self).attempts@, other)
                    == attempts_for(old(self).attempts@, other)
                &&& c > old(self).config.retry_max_attempts ==> (r matches Err(RmpError::RetryExhausted(s))
                    && s@ == hex_chars(message_id@))
                &&& c <= old(self).config.retry_max_attempts ==> (r matches Ok(d)
                    && d == retry_delay(old(self).config.retry_base_delay_ms, old(self).config.retry_max_delay_ms, c))
            }),
    {
        let count = self.bump_attempt(message_id);
        if count > self.config.retry_max_attempts {
            return Err(RmpError::RetryExhausted(hex_string(message_id)));
        }
        Ok(backoff_delay(self.config.retry_base_delay_ms, self.config.retry_max_delay_ms, count))
    }
}

/// `base * 2^(count - 1)`, capped at `max`.
fn backoff_delay(base_delay_ms: u64, max_delay_ms: u64, count: u32) -> (r: u64)
    requires
        count >= 1,
        count - 1 < 64,
        base_delay_ms * pow2((count - 1) as nat) <= u64::MAX,
    ensures
        r == retry_delay(base_delay_ms, max_delay_ms, count),
{
        let base = base_delay_ms;
        let mut p: u64 = 1;
        let mut k: u32 = 0;
        proof {
            lemma_pow2_63();
        }
        while k < count - 1
            invariant
                k <= count - 1,
                count - 1 < 64,
                p == pow2(k as nat),
                pow2(63) == 0x8000_0000_0000_0000,
            decreases count - 1 - k,
        {
            proof {
                lemma_pow2_mono((k + 1) as nat, 63);
            }
            p = p * 2;
            k = k + 1;
        }
        proof {
            if base > 0 {
                assert(p <= base * p) by (nonlinear_arith)
                    requires
                        base > 0;
            }
        }
        let delay = base * p;
        let delay = if delay < max_delay_ms { delay } else { max_delay_ms };
        delay
}

/// The entry appended to retry `entry`: the same entry, with its index
/// and checksum cleared for the log to set.
pub fn retry_entry(entry: &WalEntry) -> (r: WalEntry)
    ensures
        r.index == 0,
        r.crc == 0,
        r.entry_type == entry.entry_type,
        r.queue_id@ == entry.queue_id@,
        r.sequence_id == entry.sequence_id,
        r.message_id@ == entry.message_id@,
        r.payload@ == entry.payload@,
        r.timestamp == entry.timestamp,
        r.ttl == entry.ttl,
        r.expires_at == entry.expires_at,
{
    let mut e = entry.duplicate();
    e.index = 0;
    e.crc = 0;
    e
}

} // verus!
