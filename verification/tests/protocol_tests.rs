use runter::protocol::constants::{MAX_BATCH_SIZE, NONCE_LENGTH};
use runter::protocol::error::ProtocolError;
use runter::protocol::handshake::{
    check_auth_reply, check_handshake_reply, server_authenticate, server_handshake, validate_queue_name,
};
use runter::protocol::queue::Queue;
use runter::protocol::session::Session;
use runter::protocol::transport::{decimal_string, frame_length};
use runter::protocol::types::{AuthRequest, Command, Frame, Message, MessageId, QueueConfig, QueueId};

fn config(name: &str, max_size: u64) -> QueueConfig {
    QueueConfig { name: name.to_string(), max_size, ttl_seconds: None }
}

fn message(id: u8, expires_at: Option<u64>) -> Message {
    Message {
        id: MessageId([id; 16]),
        queue_id: QueueId([7; 16]),
        payload: vec![id, id],
        timestamp: 0,
        ttl: None,
        acked: false,
        expires_at,
    }
}

fn ids(msgs: &[Message]) -> Vec<u8> {
    msgs.iter().map(|m| m.id.0[0]).collect()
}

fn nonce_at(t: u64, tail: u8) -> Vec<u8> {
    let mut n = t.to_be_bytes().to_vec();
    n.extend_from_slice(&[tail; 8]);
    n
}

#[test]
fn queue_push_stamps_arrival_time() {
    let mut q = Queue::new_at(QueueId([1; 16]), config("inbox", 10), 100);
    q.push_at(message(1, None), 500).unwrap();
    assert_eq!(q.messages.len(), 1);
    assert_eq!(q.messages[0].timestamp, 500);
    assert_eq!(q.created_at, 100);
    assert_eq!(q.name, "inbox");
}

#[test]
fn queue_push_refuses_when_full() {
    let mut q = Queue::new_at(QueueId([1; 16]), config("inbox", 2), 0);
    q.push_at(message(1, None), 1).unwrap();
    q.push_at(message(2, None), 1).unwrap();
    match q.push_at(message(3, None), 1) {
        Err(ProtocolError::QueueError(s)) => assert_eq!(s, "Queue full"),
        other => panic!("unexpected {:?}", other),
    }
    assert_eq!(q.messages.len(), 2);
}

#[test]
fn queue_push_makes_room_by_dropping_acked() {
    let mut q = Queue::new_at(QueueId([1; 16]), config("inbox", 2), 0);
    q.push_at(message(1, None), 1).unwrap();
    q.push_at(message(2, None), 1).unwrap();
    q.ack(&[MessageId([1; 16])]);
    q.push_at(message(3, None), 1).unwrap();
    assert_eq!(ids(&q.messages), vec![2, 3]);
}

#[test]
fn queue_push_drops_expired_first() {
    let mut q = Queue::new_at(QueueId([1; 16]), config("inbox", 2), 0);
    q.push_at(message(1, Some(10)), 1).unwrap();
    q.push_at(message(2, None), 1).unwrap();
    q.push_at(message(3, None), 11).unwrap();
    assert_eq!(ids(&q.messages), vec![2, 3]);
}

#[test]
fn queue_pull_delivers_in_order_and_advances() {
    let mut q = Queue::new_at(QueueId([1; 16]), config("inbox", 100), 0);
    for i in 1..=5 {
        q.push_at(message(i, None), 1).unwrap();
    }
    let first = q.pull_at(None, 2, 2);
    assert_eq!(ids(&first), vec![1, 2]);
    assert_eq!(q.next_delivery_index, 2);
    let second = q.pull_at(None, 10, 2);
    assert_eq!(ids(&second), vec![3, 4, 5]);
    assert_eq!(q.next_delivery_index, 5);
    assert!(q.pull_at(None, 10, 2).is_empty());
}

#[test]
fn queue_pull_since_restarts_after_named_message() {
    let mut q = Queue::new_at(QueueId([1; 16]), config("inbox", 100), 0);
    for i in 1..=4 {
        q.push_at(message(i, None), 1).unwrap();
    }
    let _ = q.pull_at(None, 10, 2);
    let again = q.pull_at(Some(&MessageId([2; 16])), 10, 2);
    assert_eq!(ids(&again), vec![3, 4]);
    let unknown = q.pull_at(Some(&MessageId([9; 16])), 10, 2);
    assert!(unknown.is_empty());
}

#[test]
fn queue_pull_skips_acked_and_caps_batch() {
    let mut q = Queue::new_at(QueueId([1; 16]), config("inbox", 1000), 0);
    for i in 0..150u32 {
        q.push_at(message((i % 250) as u8, None), 1).unwrap();
    }
    let got = q.pull_at(None, 1000, 2);
    assert_eq!(got.len(), MAX_BATCH_SIZE);
    let mut q2 = Queue::new_at(QueueId([1; 16]), config("inbox", 10), 0);
    q2.push_at(message(1, None), 1).unwrap();
    q2.push_at(message(2, None), 1).unwrap();
    q2.ack(&[MessageId([1; 16])]);
    assert_eq!(ids(&q2.pull_at(None, 10, 2)), vec![2]);
}

#[test]
fn queue_ack_then_cleanup_moves_cursor_back() {
    let mut q = Queue::new_at(QueueId([1; 16]), config("inbox", 10), 0);
    for i in 1..=3 {
        q.push_at(message(i, None), 1).unwrap();
    }
    let _ = q.pull_at(None, 2, 1);
    assert_eq!(q.next_delivery_index, 2);
    q.ack(&[MessageId([1; 16]), MessageId([2; 16])]);
    assert!(q.messages[0].acked && q.messages[1].acked && !q.messages[2].acked);
    assert!(!q.is_empty());
    q.cleanup_acked();
    assert_eq!(ids(&q.messages), vec![3]);
    assert_eq!(q.next_delivery_index, 0);
}

#[test]
fn queue_counts_pending_and_expiry() {
    let mut q = Queue::new_at(QueueId([1; 16]), QueueConfig { name: "q".to_string(), max_size: 10, ttl_seconds: Some(50) }, 100);
    q.push_at(message(1, Some(20)), 1).unwrap();
    q.push_at(message(2, None), 1).unwrap();
    assert_eq!(q.pending_count_at(10), 2);
    assert_eq!(q.pending_count_at(21), 1);
    assert!(!q.is_expired_at(150));
    assert!(q.is_expired_at(151));
    q.cleanup_expired_at(21);
    assert_eq!(ids(&q.messages), vec![2]);
}

#[test]
fn queue_subscribers() {
    let mut q = Queue::new_at(QueueId([1; 16]), config("q", 10), 0);
    q.add_subscriber("a".to_string()).unwrap();
    q.add_subscriber("a".to_string()).unwrap();
    q.add_subscriber("b".to_string()).unwrap();
    assert_eq!(q.subscribers, vec!["a".to_string(), "b".to_string()]);
    q.remove_subscriber("a");
    assert_eq!(q.subscribers, vec!["b".to_string()]);
    for i in 0..99 {
        q.add_subscriber(format!("s{}", i)).unwrap();
    }
    assert!(matches!(q.add_subscriber("x".to_string()), Err(ProtocolError::TooManySubscribers)));
}

#[test]
fn queue_is_empty_when_all_acked() {
    let mut q = Queue::new_at(QueueId([1; 16]), config("q", 10), 0);
    assert!(q.is_empty());
    q.push_at(message(1, None), 1).unwrap();
    assert!(!q.is_empty());
    q.ack(&[MessageId([1; 16])]);
    assert!(q.is_empty());
}

#[test]
fn session_nonce_accepted_once() {
    let mut s = Session::new_at(vec![], 1000);
    let n = nonce_at(990, 1);
    s.check_and_store_nonce_at(&n, 1000).unwrap();
    assert_eq!(s.last_seen, 1000);
    assert!(matches!(s.check_and_store_nonce_at(&n, 1001), Err(ProtocolError::NonceAlreadyUsed)));
}

#[test]
fn session_nonce_refusals() {
    let mut s = Session::new_at(vec![], 1000);
    match s.check_and_store_nonce_at(&[0u8; 11], 1000) {
        Err(ProtocolError::InvalidFrame(t)) => assert_eq!(t, "Nonce too short"),
        other => panic!("unexpected {:?}", other),
    }
    assert!(matches!(s.check_and_store_nonce_at(&nonce_at(699, 2), 1000), Err(ProtocolError::NonceExpired)));
    assert!(s.check_and_store_nonce_at(&nonce_at(700, 3), 1000).is_ok());
    assert!(s.check_and_store_nonce_at(&nonce_at(5000, 4), 1000).is_ok());
}

#[test]
fn session_issued_nonce_consumed_once() {
    let mut s = Session::new_at(vec![], 0);
    let n = s.record_issued_nonce(vec![1, 2, 3]);
    assert_eq!(n, vec![1, 2, 3]);
    assert!(s.verify_and_consume_nonce(&[1, 2, 3]));
    assert!(!s.verify_and_consume_nonce(&[1, 2, 3]));
    let fresh = s.issue_nonce();
    assert_eq!(fresh.len(), NONCE_LENGTH);
}

#[test]
fn session_queue_limits() {
    let mut s = Session::new_at(vec![], 0);
    s.decrement_queues();
    assert_eq!(s.queue_count, 0);
    s.increment_queues();
    assert_eq!(s.queue_count, 1);
    assert!(s.check_queue_limit().is_ok());
    s.queue_count = 1000;
    assert!(matches!(s.check_queue_limit(), Err(ProtocolError::TooManyQueues)));
    assert!(s.is_expired_at(301));
    assert!(!s.is_expired_at(300));
}

#[test]
fn queue_names() {
    assert!(validate_queue_name("inbox-1_a").is_ok());
    match validate_queue_name("") {
        Err(ProtocolError::InvalidQueueName(s)) => assert_eq!(s, ""),
        other => panic!("unexpected {:?}", other),
    }
    match validate_queue_name("bad name") {
        Err(ProtocolError::InvalidQueueName(s)) => assert_eq!(s, "bad name"),
        other => panic!("unexpected {:?}", other),
    }
    match validate_queue_name("system_x") {
        Err(ProtocolError::InvalidQueueName(s)) => assert_eq!(s, "Reserved name prefix"),
        other => panic!("unexpected {:?}", other),
    }
    assert!(validate_queue_name("__x").is_err());
    assert!(validate_queue_name("admin_x").is_err());
    assert!(validate_queue_name(&"a".repeat(64)).is_ok());
    assert!(validate_queue_name(&"a".repeat(65)).is_err());
    assert!(validate_queue_name("é").is_err());
}

#[test]
fn handshake_round_trip() {
    let mut session = Session::new_at(vec![], 0);
    let ping = Frame::new(Command::Ping, vec![]);
    let pong = server_handshake(&mut session, &ping).unwrap();
    assert_eq!(pong.command, Command::Pong);
    assert_eq!(pong.request_nonce.as_deref(), Some(&ping.nonce[..]));
    assert_eq!(session.issued_nonces, vec![pong.payload.clone()]);
    let n = check_handshake_reply(&ping, &pong).unwrap();
    assert_eq!(n, pong.nonce);
    let other = Frame::new(Command::Ping, vec![]);
    assert!(matches!(check_handshake_reply(&other, &pong), Err(ProtocolError::NonceMismatch)));
    assert!(matches!(check_handshake_reply(&ping, &ping), Err(ProtocolError::InvalidFrame(_))));
}

#[test]
fn authentication_with_identity_key() {
    let identity = runter::crypto::keys::IdentityKeyPair::from_signing_key(&[5u8; 32]);
    let mut session = Session::new_at(vec![], 0);
    let nonce = session.record_issued_nonce(vec![9; 16]);
    let signature = identity.sign(&nonce);
    let request = Frame::new(Command::Auth, vec![]);
    let req = AuthRequest { identity_key: identity.verifying_key.to_vec(), signature: signature.to_vec(), server_nonce: nonce.clone() };
    let reply = server_authenticate(&mut session, &request, Ok(req)).unwrap();
    assert_eq!(reply.command, Command::AuthResponse);
    assert!(session.authenticated);
    assert_eq!(session.identity_key, identity.verifying_key.to_vec());
    let again = AuthRequest { identity_key: identity.verifying_key.to_vec(), signature: signature.to_vec(), server_nonce: nonce };
    match server_authenticate(&mut session, &request, Ok(again)) {
        Err(ProtocolError::AuthenticationFailed(s)) => assert_eq!(s, "Invalid or reused server nonce"),
        other => panic!("unexpected {:?}", other),
    }
}

#[test]
fn authentication_refusals() {
    let mut session = Session::new_at(vec![], 0);
    let request = Frame::new(Command::Auth, vec![]);
    assert!(matches!(server_authenticate(&mut session, &request, Err("bad".to_string())), Err(ProtocolError::DecodingFailed(s)) if s == "bad"));
    let short = AuthRequest { identity_key: vec![0; 31], signature: vec![0; 64], server_nonce: vec![] };
    assert!(matches!(server_authenticate(&mut session, &request, Ok(short)), Err(ProtocolError::AuthenticationFailed(s)) if s == "Invalid identity key length"));
    let sig = AuthRequest { identity_key: vec![0; 32], signature: vec![0; 63], server_nonce: vec![] };
    assert!(matches!(server_authenticate(&mut session, &request, Ok(sig)), Err(ProtocolError::AuthenticationFailed(s)) if s == "Invalid signature length"));
    let nonce = session.record_issued_nonce(vec![1; 16]);
    let forged = AuthRequest { identity_key: runter::crypto::keys::IdentityKeyPair::from_signing_key(&[1; 32]).verifying_key.to_vec(), signature: vec![0; 64], server_nonce: nonce };
    assert!(matches!(server_authenticate(&mut session, &request, Ok(forged)), Err(ProtocolError::AuthenticationFailed(s)) if s == "Signature verification failed"));
    assert!(!session.authenticated);
    assert!(session.issued_nonces.is_empty());
}

#[test]
fn auth_reply_checks() {
    let sent = Frame::new(Command::Auth, vec![]);
    let ok = Frame::response_to(&sent, Command::AuthResponse, vec![]);
    assert!(check_auth_reply(&sent, &ok, String::new()).is_ok());
    let err = Frame::response_to(&sent, Command::Error, vec![]);
    assert!(matches!(check_auth_reply(&sent, &err, "denied".to_string()), Err(ProtocolError::AuthenticationFailed(s)) if s == "denied"));
    let odd = Frame::response_to(&sent, Command::Pong, vec![]);
    assert!(matches!(check_auth_reply(&sent, &odd, String::new()), Err(ProtocolError::UnexpectedCommand(s)) if s == "Pong"));
    let stray = Frame::new(Command::AuthResponse, vec![]);
    assert!(matches!(check_auth_reply(&sent, &stray, String::new()), Err(ProtocolError::NonceMismatch)));
}

#[test]
fn frame_lengths() {
    assert_eq!(frame_length(&[0, 1, 0, 0]).unwrap(), 65536);
    match frame_length(&[0, 1, 0, 1]) {
        Err(ProtocolError::InvalidFrame(s)) => assert_eq!(s, "Frame size 65537 exceeds max"),
        other => panic!("unexpected {:?}", other),
    }
    assert_eq!(decimal_string(0), "0");
    assert_eq!(decimal_string(1234567890), "1234567890");
    assert_eq!(decimal_string(u64::MAX), u64::MAX.to_string());
}

#[test]
fn queue_ack_twice_is_ack_once() {
    let mut q = Queue::new_at(QueueId([1; 16]), config("q", 10), 0);
    for i in 1..=3 {
        q.push_at(message(i, None), 1).unwrap();
    }
    let ids_to_ack = [MessageId([2; 16]), MessageId([9; 16])];
    q.ack(&ids_to_ack);
    let once: Vec<bool> = q.messages.iter().map(|m| m.acked).collect();
    q.ack(&ids_to_ack);
    let twice: Vec<bool> = q.messages.iter().map(|m| m.acked).collect();
    assert_eq!(once, vec![false, true, false]);
    assert_eq!(once, twice);
}

#[test]
fn queue_push_into_empty_then_pull_reads_it_back() {
    let mut q = Queue::new_at(QueueId([1; 16]), config("q", 10), 0);
    q.push_at(message(4, None), 77).unwrap();
    let out = q.pull_at(None, 1, 77);
    assert_eq!(ids(&out), vec![4]);
    assert_eq!(out[0].timestamp, 77);
    assert_eq!(q.next_delivery_index, 1);
}

#[test]
fn session_nonce_refused_after_other_calls() {
    let mut s = Session::new_at(vec![], 1000);
    let n = nonce_at(995, 7);
    s.check_and_store_nonce_at(&n, 1000).unwrap();
    s.check_and_store_nonce_at(&nonce_at(1001, 8), 1002).unwrap();
    let _ = s.issue_nonce();
    s.touch_at(1100);
    assert!(matches!(s.check_and_store_nonce_at(&n, 1200), Err(ProtocolError::NonceAlreadyUsed)));
    // Long after the timeout the nonce is refused as expired.
    assert!(matches!(s.check_and_store_nonce_at(&n, 995 + 301), Err(ProtocolError::NonceExpired) | Err(ProtocolError::NonceAlreadyUsed)));
}

#[test]
fn queue_second_pull_never_redelivers() {
    let mut q = Queue::new_at(QueueId([1; 16]), config("q", 10), 0);
    for i in 1..=5 {
        q.push_at(message(i, None), 1).unwrap();
    }
    let first = q.pull_at(None, 2, 1);
    let second = q.pull_at(None, 10, 1);
    assert_eq!(ids(&first), vec![1, 2]);
    assert_eq!(ids(&second), vec![3, 4, 5]);
    let third = q.pull_at(None, 10, 1);
    assert!(third.is_empty());
}

#[test]
fn queue_add_then_remove_subscriber_restores_list() {
    let mut q = Queue::new_at(QueueId([1; 16]), config("q", 10), 0);
    q.add_subscriber("a".to_string()).unwrap();
    q.add_subscriber("b".to_string()).unwrap();
    let before = q.subscribers.clone();
    q.add_subscriber("c".to_string()).unwrap();
    q.remove_subscriber("c");
    assert_eq!(q.subscribers, before);
}
