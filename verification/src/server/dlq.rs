use vstd::prelude::*;
use vstd::string::StringSliceAdditionalSpecFns;
use crate::bytes::{append_bytes, hex_ascii, hex_bytes};
use crate::database::wal::{WalEntry, WalEntryType};
use crate::protocol::types::now_secs;

verus! {

/// The payload of a dead letter: `DLQ|<hex message id>|<error>`.
pub open spec fn dead_letter_payload(message_id: Seq<u8>, error: Seq<u8>) -> Seq<u8> {
    "DLQ|".spec_bytes() + hex_ascii(message_id) + "|".spec_bytes() + error
}

/// The log entry that parks `entry` as a dead letter at clock time `now`:
/// a message insert for the same queue, sequence number and message, whose
/// payload names the message and the error, with no time-to-live.
pub fn dead_letter_entry_at(entry: &WalEntry, error: &str, now: u64) -> (r: WalEntry)
    ensures
        r.index == 0,
        r.entry_type == WalEntryType::MessageInsert,
        r.queue_id@ == entry.queue_id@,
        r.sequence_id == entry.sequence_id,
        r.message_id@ == entry.message_id@,
        r.payload@ == dead_letter_payload(entry.message_id@, error.spec_bytes()),
        r.timestamp == now,
        r.ttl is None,
        r.expires_at is None,
        r.crc == 0,
{
    let mut payload: Vec<u8> = Vec::new();
    append_bytes(&mut payload, "DLQ|".as_bytes());
    let h = hex_bytes(entry.message_id.as_slice());
    append_bytes(&mut payload, h.as_slice());
    append_bytes(&mut payload, "|".as_bytes());
    append_bytes(&mut payload, error.as_bytes());
    WalEntry {
        index: 0,
        entry_type: WalEntryType::MessageInsert,
        queue_id: entry.queue_id.clone(),
        sequence_id: entry.sequence_id,
        message_id: entry.message_id.clone(),
        payload,
        timestamp: now,
        ttl: None,
        expires_at: None,
        crc: 0,
    }
}

/// The dead-letter entry of `entry`, stamped with the current clock.
pub fn dead_letter_entry(entry: &WalEntry, error: &str) -> (r: WalEntry)
    ensures
        r.index == 0,
        r.entry_type == WalEntryType::MessageInsert,
        r.queue_id@ == entry.queue_id@,
        r.sequence_id == entry.sequence_id,
        r.message_id@ == entry.message_id@,
        r.payload@ == dead_letter_payload(entry.message_id@, error.spec_bytes()),
        r.ttl is None,
        r.expires_at is None,
        r.crc == 0,
{
    let now = now_secs();
    dead_letter_entry_at(entry, error, now)
}

} // verus!
