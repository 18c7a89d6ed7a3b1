use vstd::prelude::*;
use crate::database::wal::{WalEntry, WalEntryType};
use crate::protocol::types::{Message, MessageId, QueueId};

verus! {

/// The log entry that inserts `m` with sequence number `sequence_id` at
/// clock time `now`.
pub open spec fn insert_entry_for(e: WalEntry, m: Message, sequence_id: i64, now: u64) -> bool {
    &&& e.index == 0
    &&& e.entry_type == WalEntryType::MessageInsert
    &&& e.queue_id@ == m.queue_id@
    &&& e.sequence_id == sequence_id
    &&& e.message_id@ == m.id@
    &&& e.payload@ == m.payload@
    &&& e.timestamp == now
    &&& e.ttl == m.ttl
    &&& e.expires_at == m.expires_at
    &&& e.crc == 0
}

/// The log entry that acknowledges message `id` of queue `queue_id`.
pub open spec fn ack_entry_for(e: WalEntry, queue_id: QueueId, id: MessageId) -> bool {
    &&& e.index == 0
    &&& e.entry_type == WalEntryType::MessageAck
    &&& e.queue_id@ == queue_id@
    &&& e.sequence_id == 0
    &&& e.message_id@ == id@
    &&& e.payload@.len() == 0
    &&& e.timestamp == 0
    &&& e.ttl is None
    &&& e.expires_at is None
    &&& e.crc == 0
}

/// Copies sixteen bytes into a vector.
fn bytes16(a: &[u8; 16]) -> (r: Vec<u8>)
    ensures
        r@ == a@,
{
    let mut v: Vec<u8> = Vec::new();
    crate::bytes::append_bytes(&mut v, a);
    v
}

/// The relay's message table: what batches of messages and
/// acknowledgements become in the log, and what a stored row reads back as.
pub struct MessageStore;

/// The sixteen bytes of an identifier read from a row: the stored bytes
/// when there are exactly sixteen, else all zeros.
pub open spec fn row_id(bytes: Seq<u8>) -> Seq<u8> {
    if bytes.len() == 16 { bytes } else { Seq::new(16, |i: int| 0u8) }
}

impl MessageStore {

/// The insert entries of a batch of messages, the i-th message with the
/// i-th sequence number, all stamped with clock time `now`.
pub fn insert_entries(messages: &[Message], sequence_ids: &[i64], now: u64) -> (r: Vec<WalEntry>)
    requires
        messages@.len() == sequence_ids@.len(),
    ensures
        r@.len() == messages@.len(),
        forall|i: int| 0 <= i < r@.len() ==> #[trigger] insert_entry_for(r@[i], messages@[i], sequence_ids@[i], now),
{
    let mut entries: Vec<WalEntry> = Vec::with_capacity(messages.len());
    let mut i: usize = 0;
    while i < messages.len()
        invariant
            i <= messages.len(),
            messages@.len() == sequence_ids@.len(),
            entries@.len() == i,
            forall|j: int| 0 <= j < i ==> #[trigger] insert_entry_for(entries@[j], messages@[j], sequence_ids@[j], now),
        decreases messages.len() - i,
    {
        let msg = &messages[i];
        entries.push(WalEntry {
            index: 0,
            entry_type: WalEntryType::MessageInsert,
            queue_id: bytes16(&msg.queue_id.0),
            sequence_id: sequence_ids[i],
            message_id: bytes16(&msg.id.0),
            payload: msg.payload.clone(),
            timestamp: now,
            ttl: msg.ttl,
            expires_at: msg.expires_at,
            crc: 0,
        });
        i = i + 1;
    }
    entries
}

/// The acknowledgement entries of a batch of message identifiers of one
/// queue.
pub fn ack_entries(queue_id: &QueueId, message_ids: &[MessageId]) -> (r: Vec<WalEntry>)
    ensures
        r@.len() == message_ids@.len(),
        forall|i: int| 0 <= i < r@.len() ==> #[trigger] ack_entry_for(r@[i], *queue_id, message_ids@[i]),
{
    let mut entries: Vec<WalEntry> = Vec::with_capacity(message_ids.len());
    let mut i: usize = 0;
    while i < message_ids.len()
        invariant
            i <= message_ids.len(),
            entries@.len() == i,
            forall|j: int| 0 <= j < i ==> #[trigger] ack_entry_for(entries@[j], *queue_id, message_ids@[j]),
        decreases message_ids.len() - i,
    {
        entries.push(WalEntry {
            index: 0,
            entry_type: WalEntryType::MessageAck,
            queue_id: bytes16(&queue_id.0),
            sequence_id: 0,
            message_id: bytes16(&message_ids[i].0),
            payload: Vec::new(),
            timestamp: 0,
            ttl: None,
            expires_at: None,
            crc: 0,
        });
        i = i + 1;
    }
    entries
}

/// The indices the log assigned to a batch, in order.
pub fn entry_indices(entries: &[WalEntry]) -> (r: Vec<u64>)
    ensures
        r@.len() == entries@.len(),
        forall|i: int| 0 <= i < r@.len() ==> r@[i] == #[trigger] entries@[i].index,
{
    let mut r: Vec<u64> = Vec::new();
    let mut i: usize = 0;
    while i < entries.len()
        invariant
            i <= entries.len(),
            r@.len() == i,
            forall|j: int| 0 <= j < i ==> r@[j] == #[trigger] entries@[j].index,
        decreases entries.len() - i,
    {
        r.push(entries[i].index);
        i = i + 1;
    }
    r
}

/// The message a row of unacknowledged messages of queue `queue_id` reads
/// back as: its identifier (see `row_id`), the payload found under its key
/// (empty when none is found), and the row's clock fields.
pub fn unacked_message(queue_id: &QueueId, id_bytes: &[u8], timestamp: u64, ttl: Option<u64>, expires_at: Option<u64>, payload: Option<Vec<u8>>) -> (r: Message)
    ensures
        r.id@ == row_id(id_bytes@),
        r.queue_id == *queue_id,
        r.payload@ == match payload {
            Some(p) => p@,
            None => Seq::<u8>::empty(),
        },
        r.timestamp == timestamp,
        r.ttl == ttl,
        !r.acked,
        r.expires_at == expires_at,
{
    let mut id = [0u8; 16];
    if id_bytes.len() == 16 {
        let mut i: usize = 0;
        while i < 16
            invariant
                i <= 16,
                id_bytes@.len() == 16,
                forall|j: int| 0 <= j < i ==> id@[j] == id_bytes@[j],
            decreases 16 - i,
        {
            id[i] = id_bytes[i];
            i = i + 1;
        }
        assert(id@ =~= id_bytes@);
    } else {
        assert(id@ =~= Seq::new(16, |i: int| 0u8));
    }
    let body = match payload {
        Some(p) => p,
        None => Vec::new(),
    };
    Message { id: MessageId(id), queue_id: *queue_id, payload: body, timestamp, ttl, acked: false, expires_at }
}

}

} // verus!
