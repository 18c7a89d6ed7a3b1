use runter::database::wal::{WalEntry, WalEntryType};
use runter::server::backpressure::lag_check;
use runter::server::checkpoint::checkpoint_at;
use runter::server::config::RmpConfig;
use runter::server::consumer::{advance_cursor, consumer_start, select_batch};
use runter::server::dlq::{dead_letter_entry, dead_letter_entry_at};
use runter::server::error::RmpError;
use runter::server::fencing::{FenceManager, FencingToken};
use runter::server::partition::PartitionManager;
use runter::server::retry::{retry_entry, RetryManager};
use runter::server::wal_reader::WalReader;
use runter::server::worker::{worker_step, WorkerAction, WorkerEvent};
use sha2::Digest;

fn entry(index: u64, seq: i64) -> WalEntry {
    WalEntry {
        index,
        entry_type: WalEntryType::MessageInsert,
        queue_id: vec![1, 2, 3],
        sequence_id: seq,
        message_id: vec![0xab, 0xcd],
        payload: b"body".to_vec(),
        timestamp: 42,
        ttl: Some(10),
        expires_at: Some(52),
        crc: 99,
    }
}

fn config(partitions: usize, batch: usize) -> RmpConfig {
    let mut c = RmpConfig::default();
    c.partition_count = partitions;
    c.consumer_batch_size = batch;
    c.node_id = "node-a".to_string();
    c
}

fn token(node: &str, epoch: u64) -> FencingToken {
    FencingToken { node_id: node.to_string(), epoch }
}

#[test]
fn config_defaults() {
    let c = RmpConfig::default();
    assert!(c.node_id.starts_with("node-"));
    assert_eq!(c.node_id.len(), 5 + 36);
    assert_eq!(c.partition_count, 16);
    assert_eq!(c.consumer_batch_size, 500);
    assert_eq!(c.retry_max_attempts, 5);
    assert_eq!(c.retry_base_delay_ms, 100);
    assert_eq!(c.retry_max_delay_ms, 30000);
    assert_eq!(c.fencing_epoch_file, "rmp_epoch");
    let d = c.duplicate();
    assert_eq!(d.node_id, c.node_id);
    assert_ne!(RmpConfig::default().node_id, c.node_id);
}

#[test]
fn partition_claims_are_fenced() {
    let mut pm = PartitionManager::new(&config(4, 100));
    let old = token("node-a", 1);
    let new = token("node-b", 2);
    assert!(pm.claim(1, &old, 0, 49).is_ok());
    assert!(pm.is_owner(1, &old));
    assert!(!pm.is_owner(1, &new));
    assert!(pm.claim(1, &new, 50, 99).is_ok());
    assert!(pm.is_owner(1, &new));
    assert!(!pm.is_owner(1, &old));
    assert!(matches!(pm.claim(1, &old, 0, 49), Err(RmpError::StaleEpoch(2, 1))));
    assert!(matches!(pm.claim(1, &token("node-c", 2), 0, 1), Err(RmpError::StaleEpoch(2, 2))));
    match pm.claim(9, &new, 0, 1) {
        Err(RmpError::Partition(s)) => assert_eq!(s, "Partition not found"),
        other => panic!("unexpected {:?}", other),
    }
}

#[test]
fn partition_release() {
    let mut pm = PartitionManager::new(&config(2, 100));
    let t = token("node-a", 3);
    assert!(matches!(pm.release(0, &t), Err(RmpError::StaleEpoch(0, 3))));
    pm.claim(0, &t, 1, 2).unwrap();
    pm.release(0, &t).unwrap();
    assert!(!pm.is_owner(0, &t));
    assert!(pm.is_owner(0, &token("", 0)));
    assert!(matches!(pm.release(5, &t), Err(RmpError::Partition(_))));
}

#[test]
fn work_is_split_evenly() {
    let pm = PartitionManager::new(&config(4, 100));
    let work = pm.assign_work(1000);
    assert_eq!(work, vec![(0, 1001, 1025), (1, 1026, 1050), (2, 1051, 1075), (3, 1076, 1100)]);
}

#[test]
fn fencing_epochs() {
    let c = config(1, 1);
    let fm = FenceManager::new(&c, None);
    assert_eq!(fm.epoch, 1);
    let fm = FenceManager::new(&c, Some(None));
    assert_eq!(fm.epoch, 1);
    let mut fm = FenceManager::new(&c, Some(Some(41)));
    assert_eq!(fm.epoch, 42);
    assert_eq!(fm.epoch_text(), "42");
    assert_eq!(fm.token().epoch, 42);
    assert_eq!(fm.token().node_id, "node-a");
    let t = fm.increment_epoch();
    assert_eq!(t.epoch, 43);
    assert_eq!(fm.epoch, 43);
}

#[test]
fn fencing_epoch_file_round_trip() {
    let c = config(1, 1);
    let fm = FenceManager::from_stored(&c, Some("17")).unwrap();
    assert_eq!(fm.epoch, 18);
    let reopened = FenceManager::from_stored(&c, Some(fm.epoch_text().as_str())).unwrap();
    assert_eq!(reopened.epoch, 19);
    assert_eq!(FenceManager::from_stored(&c, Some(" 7\n")).unwrap().epoch, 8);
    assert_eq!(FenceManager::from_stored(&c, Some("junk")).unwrap().epoch, 1);
    assert_eq!(FenceManager::from_stored(&c, None).unwrap().epoch, 1);
    assert!(FenceManager::from_stored(&c, Some("18446744073709551615")).is_none());
}

#[test]
fn retry_backoff_then_exhaustion() {
    let mut c = config(1, 1);
    c.retry_max_attempts = 3;
    c.retry_base_delay_ms = 100;
    c.retry_max_delay_ms = 250;
    let mut rm = RetryManager::new(&c);
    assert_eq!(rm.schedule_retry(b"m1").unwrap(), 100);
    assert_eq!(rm.schedule_retry(b"m1").unwrap(), 200);
    assert_eq!(rm.schedule_retry(b"m2").unwrap(), 100);
    assert_eq!(rm.schedule_retry(b"m1").unwrap(), 250);
    match rm.schedule_retry(b"m1") {
        Err(RmpError::RetryExhausted(s)) => assert_eq!(s, "6d31"),
        other => panic!("unexpected {:?}", other),
    }
}

#[test]
fn retry_entry_copies_everything_but_index_and_crc() {
    let e = entry(7, 3);
    let r = retry_entry(&e);
    assert_eq!(r.index, 0);
    assert_eq!(r.crc, 0);
    assert_eq!(r.payload, e.payload);
    assert_eq!(r.sequence_id, 3);
    assert_eq!(r.ttl, Some(10));
}

#[test]
fn dead_letters() {
    let e = entry(7, 3);
    let d = dead_letter_entry_at(&e, "boom", 1234);
    assert_eq!(d.payload, b"DLQ|abcd|boom".to_vec());
    assert_eq!(d.timestamp, 1234);
    assert_eq!(d.entry_type, WalEntryType::MessageInsert);
    assert_eq!(d.queue_id, vec![1, 2, 3]);
    assert_eq!(d.ttl, None);
    assert_eq!(d.expires_at, None);
    let d2 = dead_letter_entry(&e, "x");
    assert_eq!(d2.payload, b"DLQ|abcd|x".to_vec());
    assert!(d2.timestamp > 1_600_000_000);
}

#[test]
fn checkpoint_hash() {
    let c = checkpoint_at(5, 77, 9);
    assert_eq!(c.index, 5);
    assert_eq!(c.timestamp, 9);
    let mut input = 5u64.to_be_bytes().to_vec();
    input.extend_from_slice(&77u128.to_be_bytes());
    let expected = hex::encode(sha2::Sha256::digest(&input));
    assert_eq!(c.hash, expected);
}

#[test]
fn lag_is_reported_as_zero() {
    assert_eq!(lag_check(10, 5).unwrap(), 0);
}

#[test]
fn wal_reader_window_and_watermark() {
    let mut r = WalReader::new();
    assert_eq!(r.snapshot_watermark(), 0);
    r.advance_watermark(10);
    r.advance_watermark(4);
    assert_eq!(r.snapshot_watermark(), 10);
    let entries = vec![entry(1, 0), entry(5, 0), entry(3, 0), entry(9, 0)];
    let w = r.read_window(entries, 4);
    assert_eq!(w.iter().map(|e| e.index).collect::<Vec<_>>(), vec![1, 3]);
    let x = r.read_exact(vec![entry(1, 0), entry(2, 0), entry(3, 0)], 2);
    assert_eq!(x.len(), 2);
    assert_eq!(r.read_exact(vec![entry(1, 0)], 5).len(), 1);
}

#[test]
fn consumer_batches() {
    assert_eq!(consumer_start(5, 9), 10);
    assert_eq!(consumer_start(12, 9), 13);
    assert_eq!(advance_cursor(10, 500), 510);
    let entries: Vec<WalEntry> = (0..6).map(|i| entry(i, i as i64)).collect();
    let routes = [0, 1, 0, 0, 1, 0];
    let b = select_batch(entries, &routes, 0, 3);
    assert_eq!(b.iter().map(|e| e.index).collect::<Vec<_>>(), vec![0, 2, 3]);
    let entries: Vec<WalEntry> = (0..6).map(|i| entry(i, i as i64)).collect();
    let b = select_batch(entries, &routes, 1, 10);
    assert_eq!(b.iter().map(|e| e.index).collect::<Vec<_>>(), vec![1, 4]);
}

#[test]
fn worker_decisions() {
    assert!(matches!(worker_step(4, WorkerEvent::ClaimAnswered(false)), WorkerAction::Drop));
    assert!(matches!(worker_step(4, WorkerEvent::ClaimAnswered(true)), WorkerAction::RecordApplied));
    assert!(matches!(worker_step(4, WorkerEvent::RecordChecked(false)), WorkerAction::Count));
    assert!(matches!(worker_step(4, WorkerEvent::RecordChecked(true)), WorkerAction::Materialize));
    match worker_step(4, WorkerEvent::MaterializeAnswered(true)) {
        WorkerAction::Commit(a) => assert!(a.index == 4 && a.success),
        _ => panic!("no commit"),
    }
    match worker_step(5, WorkerEvent::MaterializeAnswered(false)) {
        WorkerAction::Rollback(a) => assert!(a.index == 5 && !a.success),
        _ => panic!("no rollback"),
    }
}

#[test]
fn work_split_near_the_end_of_the_index_space() {
    let pm = PartitionManager::new(&config(3, 100));
    let last = u64::MAX - 100;
    let work = pm.assign_work(last);
    assert_eq!(work, vec![(0, last + 1, last + 33), (1, last + 34, last + 66), (2, last + 67, last + 99)]);
}
