use vstd::prelude::*;
use vstd::bytes::{spec_u64_from_le_bytes, spec_u64_to_le_bytes, u64_from_le_bytes, u64_to_le_bytes};

verus! {

/// How many sequence numbers one reservation in the store covers.
pub const SEQUENCE_BLOCK: i64 = 1000;

/// The sequence numbers of one queue reserved in memory: the next one to
/// hand out and how many of the reservation remain.
pub struct SequenceBuffer {
    pub next_id: i64,
    pub remaining: i64,
}

/// The value a store entry of eight little-endian bytes holds.
pub open spec fn stored_value(bytes: Seq<u8>) -> i64 {
    spec_u64_from_le_bytes(bytes) as i64
}

impl SequenceBuffer {
    /// Where the current reservation ends: the value persisted with it.
    pub open spec fn high_water(&self) -> int {
        self.next_id + self.remaining
    }

    /// A buffer with nothing reserved yet.
    pub fn new() -> (r: SequenceBuffer)
        ensures
            r.next_id == 0,
            r.remaining == 0,
    {
        SequenceBuffer { next_id: 0, remaining: 0 }
    }

    /// Whether the reservation is used up, so that the next number needs a
    /// new one from the store.
    pub fn needs_refill(&self) -> (r: bool)
        ensures
            r == (self.remaining <= 0),
    {
        self.remaining <= 0
    }

    /// Starts a new reservation at `current`, the value the store held (0
    /// when it held none); returns the value to persist in its place.
    pub fn refill(&mut self, current: i64) -> (r: i64)
        requires
            current <= i64::MAX - SEQUENCE_BLOCK,
        ensures
            r == current + SEQUENCE_BLOCK,
            final(self).next_id == current,
            final(self).remaining == SEQUENCE_BLOCK,
            final(self).high_water() == r,
    {
        let next = current + SEQUENCE_BLOCK;
        self.next_id = current;
        self.remaining = SEQUENCE_BLOCK;
        next
    }

    /// Hands out the next sequence number of the reservation. Every number
    /// handed out lies below the persisted end of its reservation, and the
    /// numbers handed out one after another increase by one.
    pub fn take(&mut self) -> (r: i64)
        requires
            old(self).remaining > 0,
            old(self).next_id < i64::MAX,
        ensures
            r == old(self).next_id,
            final(self).next_id == r + 1,
            final(self).remaining == old(self).remaining - 1,
            final(self).high_water() == old(self).high_water(),
            r < old(self).high_water(),
    {
        let id = self.next_id;
        self.next_id = self.next_id + 1;
        self.remaining = self.remaining - 1;
        id
    }
}

/// The numbers handed out so far for one queue (`given`, in call order),
/// the queue's buffer and the value persisted for it agree: the numbers
/// increase strictly and lie below the persisted value; while the buffer
/// holds a reservation, they lie below its next number and the reservation
/// ends at the persisted value.
pub open spec fn sequence_consistent(given: Seq<i64>, b: SequenceBuffer, stored: int) -> bool {
    &&& forall|i: int, j: int| 0 <= i < j < given.len() ==> given[i] < given[j]
    &&& forall|i: int| 0 <= i < given.len() ==> given[i] < stored
    &&& b.remaining > 0 ==> {
        &&& b.high_water() == stored
        &&& forall|i: int| 0 <= i < given.len() ==> given[i] < b.next_id
    }
}

/// A queue never seen has nothing handed out, an empty buffer and no
/// persisted value, which reads as 0: that is consistent.
pub proof fn lemma_sequence_new(b: SequenceBuffer)
    requires
        b.remaining == 0,
    ensures
        sequence_consistent(Seq::empty(), b, 0),
{
}

/// A generator opened again on the same store starts each queue with an
/// empty buffer; the numbers handed out before stay consistent with the
/// persisted value.
pub proof fn lemma_sequence_reopened(given: Seq<i64>, b: SequenceBuffer, stored: int, fresh: SequenceBuffer)
    requires
        sequence_consistent(given, b, stored),
        fresh.remaining <= 0,
    ensures
        sequence_consistent(given, fresh, stored),
{
}

/// A refill from the persisted value keeps the numbers consistent with
/// the new persisted value it returns.
pub proof fn lemma_sequence_refill(given: Seq<i64>, b: SequenceBuffer, stored: i64, after: SequenceBuffer, r: i64)
    requires
        sequence_consistent(given, b, stored as int),
        after.next_id == stored,
        after.remaining == SEQUENCE_BLOCK,
        r == stored + SEQUENCE_BLOCK,
    ensures
        sequence_consistent(given, after, r as int),
{
}

/// Taking a number from a reservation hands out one larger than every
/// number before it and below the persisted value, and keeps the numbers
/// consistent; numbers taken one after another from one reservation
/// differ by one.
pub proof fn lemma_sequence_take(given: Seq<i64>, b: SequenceBuffer, stored: int, after: SequenceBuffer, r: i64)
    requires
        sequence_consistent(given, b, stored),
        b.remaining > 0,
        r == b.next_id,
        after.next_id == r + 1,
        after.remaining == b.remaining - 1,
    ensures
        forall|i: int| 0 <= i < given.len() ==> given[i] < r,
        r < stored,
        after.remaining > 0 ==> after.next_id == r + 1,
        sequence_consistent(given.push(r), after, stored),
{
}

/// The persisted value reads back as written.
pub proof fn lemma_stored_round_trip(v: i64)
    ensures
        stored_value(spec_u64_to_le_bytes(v as u64)) == v,
{
    vstd::bytes::lemma_auto_spec_u64_to_from_le_bytes();
    assert(((v as u64) as i64) == v) by (bit_vector);
}

/// The number held by a store entry; the entry must be eight bytes.
pub fn decode_stored(bytes: &[u8]) -> (r: i64)
    requires
        bytes@.len() == 8,
    ensures
        r == stored_value(bytes@),
{
    u64_from_le_bytes(bytes) as i64
}

/// The eight little-endian bytes a number is stored as.
pub fn encode_stored(value: i64) -> (r: Vec<u8>)
    ensures
        r@ == spec_u64_to_le_bytes(value as u64),
        r@.len() == 8,
{
    u64_to_le_bytes(value as u64)
}

} // verus!
