use runter::database::backpressure::check_capacity;
use runter::database::config::DatabaseConfig;
use runter::database::error::DatabaseError;
use runter::database::materializer::{build_materialized_key, store_write, StoreWrite};
use runter::database::message_store::MessageStore;
use runter::database::sequence::{decode_stored, encode_stored, SequenceBuffer, SEQUENCE_BLOCK};
use runter::database::wal::{
    accept_entry, checksum, frame_record, header_bytes, index_for_offset, mark_applied, next_record, validate_header,
    BatchFramer, RecordStep, WalEntryType, WAL_HEADER_LEN,
};
use runter::protocol::types::{Message, MessageId, QueueId};

fn message(id: u8, payload: &[u8]) -> Message {
    Message {
        id: MessageId([id; 16]),
        queue_id: QueueId([9; 16]),
        payload: payload.to_vec(),
        timestamp: 5,
        ttl: Some(60),
        acked: false,
        expires_at: Some(65),
    }
}

#[test]
fn crc32_check_value() {
    assert_eq!(checksum(b"123456789"), 0xCBF4_3926);
    assert_eq!(checksum(b""), 0);
}

#[test]
fn wal_header_layout_and_validation() {
    let h = header_bytes();
    assert_eq!(h, vec![0x54, 0x4E, 0x55, 0x52, 1, 0, 0, 0]);
    assert_eq!(h.len(), WAL_HEADER_LEN);
    assert!(validate_header(&h).is_ok());
    assert!(matches!(validate_header(&h[..5]), Err(DatabaseError::Io(_))));
    let mut bad = h.clone();
    bad[0] = 0;
    match validate_header(&bad) {
        Err(DatabaseError::Wal(s)) => assert_eq!(s, "Invalid WAL magic"),
        other => panic!("unexpected {:?}", other),
    }
}

#[test]
fn wal_records_frame_and_read_back() {
    let mut log = header_bytes();
    log.extend_from_slice(&frame_record(b"first"));
    log.extend_from_slice(&frame_record(b""));
    log.extend_from_slice(&frame_record(b"third!"));
    let mut pos = WAL_HEADER_LEN;
    let mut seen: Vec<Vec<u8>> = Vec::new();
    loop {
        match next_record(&log, pos) {
            RecordStep::Record { start, len } => {
                seen.push(log[start..start + len].to_vec());
                pos = start + len;
            }
            RecordStep::End => break,
            RecordStep::Truncated => panic!("truncated"),
        }
    }
    assert_eq!(seen, vec![b"first".to_vec(), Vec::new(), b"third!".to_vec()]);
}

#[test]
fn wal_truncated_record() {
    let mut log = frame_record(b"abcdef");
    log.truncate(7);
    assert!(matches!(next_record(&log, 0), RecordStep::Truncated));
    assert!(matches!(next_record(&log, 5), RecordStep::End));
    assert_eq!(frame_record(b"ab"), vec![2, 0, 0, 0, b'a', b'b']);
}

#[test]
fn wal_entry_acceptance() {
    let data = b"payload";
    let crc = checksum(data);
    assert!(matches!(accept_entry(3, 0, data, 10), Ok(false)));
    assert!(matches!(accept_entry(10, crc, data, 10), Ok(true)));
    assert!(matches!(accept_entry(11, crc ^ 1, data, 10), Err(DatabaseError::CrcMismatch { index: 11 })));
}

#[test]
fn wal_indices_and_batches() {
    assert_eq!(index_for_offset(0), 0);
    assert_eq!(index_for_offset(127), 0);
    assert_eq!(index_for_offset(128), 1);
    assert_eq!(index_for_offset(1000), 7);
    let mut framer = BatchFramer::new(256);
    assert_eq!(framer.next_index(), 2);
    framer.push(2, &[0u8; 124]);
    assert_eq!(framer.buffer.len(), 128);
    assert_eq!(framer.last_index, 2);
    assert_eq!(framer.next_index(), 3);
    assert_eq!(mark_applied(5, 3), 5);
    assert_eq!(mark_applied(5, 9), 9);
}

#[test]
fn store_entry_builders() {
    let msgs = vec![message(1, b"x"), message(2, b"yz")];
    let entries = MessageStore::insert_entries(&msgs, &[40, 41], 77);
    assert_eq!(entries.len(), 2);
    assert_eq!(entries[1].entry_type, WalEntryType::MessageInsert);
    assert_eq!(entries[1].sequence_id, 41);
    assert_eq!(entries[1].payload, b"yz".to_vec());
    assert_eq!(entries[1].message_id, vec![2u8; 16]);
    assert_eq!(entries[1].queue_id, vec![9u8; 16]);
    assert_eq!(entries[0].timestamp, 77);
    assert_eq!(entries[0].ttl, Some(60));
    assert_eq!(entries[0].expires_at, Some(65));
    let acks = MessageStore::ack_entries(&QueueId([4; 16]), &[MessageId([7; 16])]);
    assert_eq!(acks.len(), 1);
    assert_eq!(acks[0].entry_type, WalEntryType::MessageAck);
    assert_eq!(acks[0].queue_id, vec![4u8; 16]);
    assert!(acks[0].payload.is_empty());
    let mut indexed = MessageStore::insert_entries(&msgs, &[1, 2], 0);
    indexed[0].index = 12;
    indexed[1].index = 13;
    assert_eq!(MessageStore::entry_indices(&indexed), vec![12, 13]);
}

#[test]
fn sequence_buffer_hands_out_reserved_ids() {
    let mut buf = SequenceBuffer::new();
    assert!(buf.needs_refill());
    let persisted = buf.refill(500);
    assert_eq!(persisted, 500 + SEQUENCE_BLOCK);
    assert_eq!(buf.take(), 500);
    assert_eq!(buf.take(), 501);
    assert_eq!(buf.remaining, SEQUENCE_BLOCK - 2);
    assert!(!buf.needs_refill());
    assert_eq!(encode_stored(1500), vec![0xdc, 0x05, 0, 0, 0, 0, 0, 0]);
    assert_eq!(decode_stored(&encode_stored(-3)), -3);
}

#[test]
fn materialized_key_layout() {
    let key = build_materialized_key(&[1, 2], 258);
    assert_eq!(key, vec![1, 2, 0, 0, 0, 0, 0, 0, 1, 2]);
}

#[test]
fn capacity_refusal_message() {
    assert!(check_capacity(3, 4, &[0xab]).is_ok());
    match check_capacity(4, 4, &[0xab, 0x01]) {
        Err(DatabaseError::Backpressure(s)) => assert_eq!(s, "Queue ab01 at capacity"),
        other => panic!("unexpected {:?}", other),
    }
}

#[test]
fn database_config_defaults_and_copy() {
    let c = DatabaseConfig::default();
    let d = c.duplicate();
    assert_eq!(c.wal_path, d.wal_path);
    assert_eq!(c.batch_size, d.batch_size);
    assert_eq!(c.max_queue_capacity, d.max_queue_capacity);
}

#[test]
fn unacked_rows_read_back() {
    let q = QueueId([3; 16]);
    let m = MessageStore::unacked_message(&q, &[5u8; 16], 10, Some(4), Some(14), Some(b"p".to_vec()));
    assert_eq!(m.id.0, [5u8; 16]);
    assert_eq!(m.queue_id.0, [3u8; 16]);
    assert_eq!(m.payload, b"p".to_vec());
    assert_eq!(m.timestamp, 10);
    assert_eq!(m.ttl, Some(4));
    assert_eq!(m.expires_at, Some(14));
    assert!(!m.acked);
    let odd = MessageStore::unacked_message(&q, &[5u8; 3], 0, None, None, None);
    assert_eq!(odd.id.0, [0u8; 16]);
    assert!(odd.payload.is_empty());
}

#[test]
fn store_writes_by_entry_type() {
    let mut e = MessageStore::insert_entries(&[message(1, b"x")], &[7], 0).remove(0);
    match store_write(&e) {
        StoreWrite::Insert { key } => assert_eq!(key, build_materialized_key(&[9u8; 16], 7)),
        _ => panic!("not an insert"),
    }
    e.entry_type = WalEntryType::MessageAck;
    assert!(matches!(store_write(&e), StoreWrite::Ack { .. }));
    e.entry_type = WalEntryType::QueueDelete;
    assert!(matches!(store_write(&e), StoreWrite::Nothing));
}

#[test]
fn sequence_numbers_increase_across_reopening() {
    // One generator: a fresh queue starts at 0 and persists 1000.
    let mut buf = SequenceBuffer::new();
    let stored = buf.refill(0);
    let a = buf.take();
    let b = buf.take();
    assert_eq!((a, b), (0, 1));
    // Reopened on the same store: a new buffer refills from what was stored.
    let mut again = SequenceBuffer::new();
    assert!(again.needs_refill());
    let stored2 = again.refill(decode_stored(&encode_stored(stored)));
    let c = again.take();
    assert!(c > b && c < stored2);
    assert_eq!(c, stored);
}
