use runter::crypto::keys::IdentityKeyPair;
use runter::protocol::client::{Reply, Request, RmpServer};
use runter::protocol::error::ProtocolError;
use runter::protocol::types::{AckRequest, AuthRequest, Command, Frame, Message, MessageId, QueueConfig, QueueId, SubscribeRequest};

fn now() -> u64 {
    std::time::SystemTime::now().duration_since(std::time::UNIX_EPOCH).unwrap().as_secs()
}

fn frame_of(r: Result<Reply, ProtocolError>) -> Frame {
    match r {
        Ok(Reply::Frame(f)) => f,
        Ok(_) => panic!("not a plain frame"),
        Err(e) => panic!("refused: {:?}", e),
    }
}

fn login(server: &mut RmpServer, conn: &str, identity: &IdentityKeyPair, t: u64) {
    let ping = Frame::new(Command::Ping, vec![]);
    let pong = frame_of(server.handle_frame_at(&ping, conn, Request::Ping, t));
    assert_eq!(pong.command, Command::Pong);
    let signature = identity.sign(&pong.payload);
    let auth = Frame::new(Command::Auth, vec![]);
    let req = AuthRequest {
        identity_key: identity.verifying_key.to_vec(),
        signature: signature.to_vec(),
        server_nonce: pong.payload.clone(),
    };
    let reply = frame_of(server.handle_frame_at(&auth, conn, Request::Auth(Ok(req)), t));
    assert_eq!(reply.command, Command::AuthResponse);
    assert_eq!(reply.request_nonce.as_deref(), Some(&auth.nonce[..]));
}

fn create(server: &mut RmpServer, conn: &str, name: &str, ttl: Option<u64>, t: u64) -> QueueId {
    let f = Frame::new(Command::CreateQueue, vec![]);
    let cfg = QueueConfig { name: name.to_string(), max_size: 10, ttl_seconds: ttl };
    match server.handle_frame_at(&f, conn, Request::CreateQueue(Ok(cfg)), t) {
        Ok(Reply::Created(reply, id)) => {
            assert_eq!(reply.command, Command::CreateQueue);
            id
        }
        Ok(_) => panic!("not a creation"),
        Err(e) => panic!("refused: {:?}", e),
    }
}

fn message(id: u8, queue: QueueId) -> Message {
    Message { id: MessageId([id; 16]), queue_id: queue, payload: vec![id], timestamp: 0, ttl: None, acked: false, expires_at: None }
}

#[test]
fn relay_full_flow() {
    let t = now();
    let mut server = RmpServer::new();
    let alice = IdentityKeyPair::generate();
    login(&mut server, "c1", &alice, t);
    let q = create(&mut server, "c1", "inbox", None, t);
    assert_eq!(server.queues.len(), 1);
    assert_eq!(server.queues[0].key, runter::bytes::hex_string(&q.0));
    assert_eq!(server.sessions[0].session.queue_count, 1);

    for id in 1..=3u8 {
        let f = Frame::new(Command::SendMessage, vec![]);
        let reply = frame_of(server.handle_frame_at(&f, "c1", Request::SendMessage(Ok(message(id, q))), t));
        assert_eq!(reply.command, Command::SendMessage);
    }
    assert_eq!(server.stats_at(t), (1, 1, 3));

    let f = Frame::new(Command::ReceiveMessage, vec![]);
    let sub = SubscribeRequest { queue_id: q, since_message_id: None, batch_size: 2 };
    match server.handle_frame_at(&f, "c1", Request::ReceiveMessage(Ok(sub)), t) {
        Ok(Reply::Messages(reply, msgs)) => {
            assert_eq!(reply.command, Command::ReceiveMessage);
            assert_eq!(msgs.iter().map(|m| m.id.0[0]).collect::<Vec<_>>(), vec![1, 2]);
            assert_eq!(msgs[0].timestamp, t);
        }
        _ => panic!("no messages"),
    }

    let f = Frame::new(Command::AckMessage, vec![]);
    let ack = AckRequest { queue_id: q, message_ids: vec![MessageId([1; 16]), MessageId([2; 16])] };
    frame_of(server.handle_frame_at(&f, "c1", Request::AckMessage(Ok(ack)), t));
    assert_eq!(server.stats_at(t), (1, 1, 1));

    let f = Frame::new(Command::DeleteQueue, vec![]);
    frame_of(server.handle_frame_at(&f, "c1", Request::DeleteQueue(Ok(q)), t));
    assert_eq!(server.queues.len(), 0);
    assert_eq!(server.queue_names.len(), 0);
    assert_eq!(server.sessions[0].session.queue_count, 0);

    let f = Frame::new(Command::SendMessage, vec![]);
    assert!(matches!(
        server.handle_frame_at(&f, "c1", Request::SendMessage(Ok(message(9, q))), t),
        Err(ProtocolError::QueueNotFound)
    ));
}

#[test]
fn relay_refuses_unauthenticated_connections() {
    let t = now();
    let mut server = RmpServer::new();
    let f = Frame::new(Command::CreateQueue, vec![]);
    let cfg = QueueConfig { name: "x".to_string(), max_size: 1, ttl_seconds: None };
    match server.handle_frame_at(&f, "c9", Request::CreateQueue(Ok(cfg)), t) {
        Err(ProtocolError::AuthenticationFailed(s)) => assert_eq!(s, "No session"),
        _ => panic!("accepted"),
    }
    let ping = Frame::new(Command::Ping, vec![]);
    frame_of(server.handle_frame_at(&ping, "c9", Request::Ping, t));
    let f = Frame::new(Command::DeleteQueue, vec![]);
    match server.handle_frame_at(&f, "c9", Request::DeleteQueue(Ok(QueueId([0; 16]))), t) {
        Err(ProtocolError::AuthenticationFailed(s)) => assert_eq!(s, "Not authenticated"),
        _ => panic!("accepted"),
    }
    assert!(server.queues.is_empty());
}

#[test]
fn relay_refuses_replayed_frames() {
    let t = now();
    let mut server = RmpServer::new();
    let alice = IdentityKeyPair::generate();
    login(&mut server, "c1", &alice, t);
    let q = create(&mut server, "c1", "inbox", None, t);
    let f = Frame::new(Command::SendMessage, vec![]);
    frame_of(server.handle_frame_at(&f, "c1", Request::SendMessage(Ok(message(1, q))), t));
    assert!(matches!(
        server.handle_frame_at(&f, "c1", Request::SendMessage(Ok(message(2, q))), t),
        Err(ProtocolError::NonceAlreadyUsed)
    ));
    assert_eq!(server.stats_at(t).2, 1);
}

#[test]
fn relay_queue_name_rules() {
    let t = now();
    let mut server = RmpServer::new();
    login(&mut server, "c1", &IdentityKeyPair::generate(), t);
    create(&mut server, "c1", "jobs", None, t);
    let f = Frame::new(Command::CreateQueue, vec![]);
    let dup = QueueConfig { name: "jobs".to_string(), max_size: 1, ttl_seconds: None };
    assert!(matches!(
        server.handle_frame_at(&f, "c1", Request::CreateQueue(Ok(dup)), t),
        Err(ProtocolError::QueueNameExists)
    ));
    let f = Frame::new(Command::CreateQueue, vec![]);
    let bad = QueueConfig { name: "no spaces".to_string(), max_size: 1, ttl_seconds: None };
    assert!(matches!(
        server.handle_frame_at(&f, "c1", Request::CreateQueue(Ok(bad)), t),
        Err(ProtocolError::InvalidQueueName(s)) if s == "no spaces"
    ));
    let f = Frame::new(Command::CreateQueue, vec![]);
    assert!(matches!(
        server.handle_frame_at(&f, "c1", Request::CreateQueue(Err("garbled".to_string())), t),
        Err(ProtocolError::DecodingFailed(s)) if s == "garbled"
    ));
    let f = Frame::new(Command::Pong, vec![]);
    assert!(matches!(
        server.handle_frame_at(&f, "c1", Request::Other, t),
        Err(ProtocolError::InvalidFrame(s)) if s == "Unknown command"
    ));
}

#[test]
fn relay_payload_limits() {
    let t = now();
    let mut server = RmpServer::new();
    login(&mut server, "c1", &IdentityKeyPair::generate(), t);
    let q = create(&mut server, "c1", "big", None, t);
    let mut m = message(1, q);
    m.payload = vec![0; 65536 + 1];
    let f = Frame::new(Command::SendMessage, vec![]);
    assert!(matches!(
        server.handle_frame_at(&f, "c1", Request::SendMessage(Ok(m)), t),
        Err(ProtocolError::PayloadTooLarge(n)) if n == 65536 + 1
    ));
    let mut m = message(2, q);
    m.expires_at = Some(t - 1);
    let f = Frame::new(Command::SendMessage, vec![]);
    assert!(matches!(
        server.handle_frame_at(&f, "c1", Request::SendMessage(Ok(m)), t),
        Err(ProtocolError::MessageExpired)
    ));
}

#[test]
fn relay_cleanup_drops_expired_queues_and_idle_sessions() {
    let t = now();
    let mut server = RmpServer::new();
    login(&mut server, "c1", &IdentityKeyPair::generate(), t);
    create(&mut server, "c1", "short", Some(10), t);
    create(&mut server, "c1", "long", None, t);
    server.cleanup_at(t + 5);
    assert_eq!(server.queues.len(), 2);
    assert_eq!(server.sessions.len(), 1);
    server.cleanup_at(t + 11);
    assert_eq!(server.queues.len(), 1);
    assert_eq!(server.queues[0].queue.name, "long");
    assert_eq!(server.queue_names.len(), 2);
    server.cleanup_at(t + 10_000);
    assert!(server.sessions.is_empty());
}
