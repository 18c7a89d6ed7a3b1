use vstd::prelude::*;
use crate::bytes::{append_bytes, be_bytes_u64, u64_to_be};
use crate::database::wal::{WalEntry, WalEntryType};

verus! {

/// The key under which a message's payload is stored: the queue
/// identifier, then the sequence number's eight big-endian bytes.
pub open spec fn materialized_key(queue_id: Seq<u8>, sequence_id: i64) -> Seq<u8> {
    queue_id + be_bytes_u64(sequence_id as u64)
}

/// The key under which a message's payload is stored.
pub fn build_materialized_key(queue_id: &[u8], sequence_id: i64) -> (r: Vec<u8>)
    ensures
        r@ == materialized_key(queue_id@, sequence_id),
{
    let mut key: Vec<u8> = Vec::new();
    append_bytes(&mut key, queue_id);
    let seq = u64_to_be(sequence_id as u64);
    append_bytes(&mut key, seq.as_slice());
    key
}

/// What applying one log entry writes to the message stores, besides
/// recording the entry's index as applied.
pub enum StoreWrite {
    /// The message row is inserted unless present, and the payload is put
    /// under `key`.
    Insert { key: Vec<u8> },
    /// The message row is marked acknowledged and the payload under `key`
    /// is deleted.
    Ack { key: Vec<u8> },
    /// Queue entries change no message.
    Nothing,
}

/// What applying `entry` writes: inserts and acknowledgements of messages
/// touch the payload under the entry's materialized key; queue entries
/// touch nothing.
pub fn store_write(entry: &WalEntry) -> (r: StoreWrite)
    ensures
        match entry.entry_type {
            WalEntryType::MessageInsert => r matches StoreWrite::Insert { key }
                && key@ == materialized_key(entry.queue_id@, entry.sequence_id),
            WalEntryType::MessageAck => r matches StoreWrite::Ack { key }
                && key@ == materialized_key(entry.queue_id@, entry.sequence_id),
            _ => r is Nothing,
        },
{
    match entry.entry_type {
        WalEntryType::MessageInsert => StoreWrite::Insert {
            key: build_materialized_key(entry.queue_id.as_slice(), entry.sequence_id),
        },
        WalEntryType::MessageAck => StoreWrite::Ack {
            key: build_materialized_key(entry.queue_id.as_slice(), entry.sequence_id),
        },
        _ => StoreWrite::Nothing,
    }
}

} // verus!
