use vstd::prelude::*;
use vstd::string::StringSliceAdditionalSpecFns;
use vstd::utf8::encode_utf8;
use crate::crypto::signatures::{ed25519_key_check, ed25519_point_valid, ed25519_verifies_strict, ed25519_verify_strict_with};
use crate::protocol::constants::MAX_QUEUE_NAME_LENGTH;
use crate::protocol::error::ProtocolError;
use crate::protocol::session::{first_pos, Session};
use crate::protocol::types::{opt_bytes, AuthRequest, Command, Frame};

verus! {

/// A byte a queue name may hold: an ASCII letter or digit, `_` or `-`.
pub open spec fn name_byte_ok(b: u8) -> bool {
    (97 <= b <= 122) || (65 <= b <= 90) || (48 <= b <= 57) || b == 95 || b == 45
}

/// Whether `s` begins with `p`.
pub open spec fn has_prefix(s: Seq<u8>, p: Seq<u8>) -> bool {
    p.len() <= s.len() && s.subrange(0, p.len() as int) == p
}

/// Whether a queue name starts with a reserved prefix.
pub open spec fn reserved_name(b: Seq<u8>) -> bool {
    has_prefix(b, "system_".spec_bytes()) || has_prefix(b, "admin_".spec_bytes())
        || has_prefix(b, "__".spec_bytes())
}

fn starts_with_bytes(s: &[u8], p: &[u8]) -> (r: bool)
    ensures
        r == has_prefix(s@, p@),
{
    if p.len() > s.len() {
        return false;
    }
    let mut i: usize = 0;
    while i < p.len()
        invariant
            i <= p.len() <= s.len(),
            forall|j: int| 0 <= j < i ==> s@[j] == p@[j],
        decreases p.len() - i,
    {
        if s[i] != p[i] {
            assert(s@.subrange(0, p@.len() as int)[i as int] != p@[i as int]);
            return false;
        }
        i = i + 1;
    }
    assert(s@.subrange(0, p@.len() as int) =~= p@);
    true
}

/// How a queue name is judged.
pub enum NameVerdict {
    Valid,
    Invalid,
    Reserved,
}

/// The verdict on a queue name: one to `MAX_QUEUE_NAME_LENGTH` bytes, each
/// an ASCII letter or digit, `_` or `-`, else invalid; beginning with
/// `system_`, `admin_` or `__`, reserved.
pub open spec fn name_verdict(name: Seq<char>) -> NameVerdict {
    let b = encode_utf8(name);
    if b.len() == 0 || b.len() > MAX_QUEUE_NAME_LENGTH || exists|i: int| 0 <= i < b.len() && !name_byte_ok(#[trigger] b[i]) {
        NameVerdict::Invalid
    } else if reserved_name(b) {
        NameVerdict::Reserved
    } else {
        NameVerdict::Valid
    }
}

/// The answer to a queue name with the given verdict.
pub open spec fn name_answer(name: Seq<char>, r: Result<(), ProtocolError>) -> bool {
    match name_verdict(name) {
        NameVerdict::Invalid => r matches Err(ProtocolError::InvalidQueueName(s)) && s@ == name,
        NameVerdict::Reserved => r matches Err(ProtocolError::InvalidQueueName(s)) && s@ == "Reserved name prefix"@,
        NameVerdict::Valid => r is Ok,
    }
}

/// Checks a queue name (see `name_verdict`): an invalid name is refused
/// with `InvalidQueueName` carrying the name, a reserved one with
/// `InvalidQueueName("Reserved name prefix")`.
pub fn validate_queue_name(name: &str) -> (r: Result<(), ProtocolError>)
    ensures
        name_answer(name@, r),
{
    let b = name.as_bytes();
    if name.len() == 0 || name.len() > MAX_QUEUE_NAME_LENGTH {
        return Err(ProtocolError::InvalidQueueName(name.to_owned()));
    }
    let mut i: usize = 0;
    while i < b.len()
        invariant
            i <= b.len(),
            b@ == name.spec_bytes(),
            forall|j: int| 0 <= j < i ==> name_byte_ok(#[trigger] b@[j]),
        decreases b.len() - i,
    {
        let c = b[i];
        let ok = (97 <= c && c <= 122) || (65 <= c && c <= 90) || (48 <= c && c <= 57) || c == 95 || c == 45;
        if !ok {
            assert(!name_byte_ok(b@[i as int]));
            return Err(ProtocolError::InvalidQueueName(name.to_owned()));
        }
        i = i + 1;
    }
    if starts_with_bytes(b, "system_".as_bytes()) || starts_with_bytes(b, "admin_".as_bytes())
        || starts_with_bytes(b, "__".as_bytes()) {
        return Err(ProtocolError::InvalidQueueName(String::from_str("Reserved name prefix")));
    }
    Ok(())
}

/// A character the original admits in a queue name:
/// `char::is_ascii_alphanumeric` (ASCII letters of either case and ASCII
/// digits), `_` or `-`.
pub open spec fn queue_name_char(c: char) -> bool {
    ('a' <= c && c <= 'z') || ('A' <= c && c <= 'Z') || ('0' <= c && c <= '9') || c == '_' || c == '-'
}

/// Whether a name begins with `system_`, `admin_` or `__`.
pub open spec fn reserved_prefix(name: Seq<char>) -> bool {
    ||| name.len() >= 7 && name.subrange(0, 7) == seq!['s', 'y', 's', 't', 'e', 'm', '_']
    ||| name.len() >= 6 && name.subrange(0, 6) == seq!['a', 'd', 'm', 'i', 'n', '_']
    ||| name.len() >= 2 && name.subrange(0, 2) == seq!['_', '_']
}

/// The UTF-8 bytes of an ASCII text are its characters' codes.
proof fn lemma_ascii_name_bytes(name: Seq<char>)
    requires
        vstd::utf8::is_ascii_chars(name),
    ensures
        encode_utf8(name).len() == name.len(),
        forall|i: int| 0 <= i < name.len() ==> (#[trigger] encode_utf8(name)[i]) as int == name[i] as int,
{
    vstd::utf8::is_ascii_chars_encode_utf8(name);
    assert forall|i: int| 0 <= i < name.len() implies (#[trigger] encode_utf8(name)[i]) as int == name[i] as int by {
        let c = name[i];
        assert('\0' <= c <= '\u{7f}');
        assert(encode_utf8(name)[i] == c as u8);
    }
}

/// The check's prefix test on the bytes of an ASCII name is the prefix
/// test on its characters.
proof fn lemma_prefix_bytes(name: Seq<char>, p: &str, pc: Seq<char>)
    requires
        vstd::utf8::is_ascii_chars(name),
        p@ == pc,
        vstd::utf8::is_ascii_chars(pc),
    ensures
        has_prefix(encode_utf8(name), p.spec_bytes()) <==> (name.len() >= pc.len() && name.subrange(0, pc.len() as int) == pc),
{
    lemma_ascii_name_bytes(name);
    lemma_ascii_name_bytes(pc);
    let b = encode_utf8(name);
    let q = encode_utf8(pc);
    if has_prefix(b, q) {
        assert forall|i: int| 0 <= i < pc.len() implies name.subrange(0, pc.len() as int)[i] == pc[i] by {
            assert(b.subrange(0, q.len() as int)[i] == q[i]);
            assert(b[i] as int == name[i] as int);
            assert(q[i] as int == pc[i] as int);
        }
        assert(name.subrange(0, pc.len() as int) =~= pc);
    }
    if name.len() >= pc.len() && name.subrange(0, pc.len() as int) == pc {
        assert forall|i: int| 0 <= i < q.len() implies b.subrange(0, q.len() as int)[i] == q[i] by {
            assert(name.subrange(0, pc.len() as int)[i] == pc[i]);
            assert(b[i] as int == name[i] as int);
            assert(q[i] as int == pc[i] as int);
        }
        assert(b.subrange(0, q.len() as int) =~= q);
    }
}

/// For ASCII names the reserved test on the encoded bytes is the reserved
/// test on the characters.
proof fn lemma_reserved_chars(name: Seq<char>)
    requires
        vstd::utf8::is_ascii_chars(name),
    ensures
        reserved_name(encode_utf8(name)) <==> reserved_prefix(name),
{
    reveal_strlit("system_");
    reveal_strlit("admin_");
    reveal_strlit("__");
    let s1 = seq!['s', 'y', 's', 't', 'e', 'm', '_'];
    let s2 = seq!['a', 'd', 'm', 'i', 'n', '_'];
    let s3 = seq!['_', '_'];
    assert("system_"@ =~= s1);
    assert("admin_"@ =~= s2);
    assert("__"@ =~= s3);
    lemma_prefix_bytes(name, "system_", s1);
    lemma_prefix_bytes(name, "admin_", s2);
    lemma_prefix_bytes(name, "__", s3);
}

/// Names of admitted characters are ASCII, and each of their bytes passes
/// the check.
proof fn lemma_admitted_bytes(name: Seq<char>)
    requires
        forall|i: int| 0 <= i < name.len() ==> queue_name_char(#[trigger] name[i]),
    ensures
        vstd::utf8::is_ascii_chars(name),
        forall|i: int| 0 <= i < encode_utf8(name).len() ==> name_byte_ok(#[trigger] encode_utf8(name)[i]),
{
    assert forall|i: int| 0 <= i < name.len() implies '\0' <= #[trigger] name[i] <= '\u{7f}' by {
        assert(queue_name_char(name[i]));
    }
    lemma_ascii_name_bytes(name);
    let b = encode_utf8(name);
    assert forall|i: int| 0 <= i < b.len() implies name_byte_ok(#[trigger] b[i]) by {
        assert(queue_name_char(name[i]));
        assert(b[i] as int == name[i] as int);
    }
}

/// Every name the original accepts is accepted: one to
/// `MAX_QUEUE_NAME_LENGTH` characters, each an ASCII letter of either case,
/// an ASCII digit, `_` or `-`, not starting with `system_`, `admin_` or
/// `__`, gets `Ok` from `validate_queue_name`.
pub proof fn lemma_queue_name_accepted(name: Seq<char>, r: Result<(), ProtocolError>)
    requires
        1 <= name.len() <= MAX_QUEUE_NAME_LENGTH,
        forall|i: int| 0 <= i < name.len() ==> queue_name_char(#[trigger] name[i]),
        !reserved_prefix(name),
        name_answer(name, r),
    ensures
        r is Ok,
{
    lemma_admitted_bytes(name);
    lemma_ascii_name_bytes(name);
    lemma_reserved_chars(name);
}

/// An ASCII name holding a character other than a letter, a digit, `_` or
/// `-` is refused with `InvalidQueueName` carrying the name.
pub proof fn lemma_queue_name_bad_char(name: Seq<char>, k: int, r: Result<(), ProtocolError>)
    requires
        vstd::utf8::is_ascii_chars(name),
        0 <= k < name.len(),
        !queue_name_char(name[k]),
        name_answer(name, r),
    ensures
        r matches Err(ProtocolError::InvalidQueueName(s)) && s@ == name,
{
    lemma_ascii_name_bytes(name);
    let b = encode_utf8(name);
    assert(b[k] as int == name[k] as int);
    assert(!name_byte_ok(b[k]));
}

/// An empty name, and an ASCII name longer than `MAX_QUEUE_NAME_LENGTH`,
/// are refused with `InvalidQueueName` carrying the name.
pub proof fn lemma_queue_name_length(name: Seq<char>, r: Result<(), ProtocolError>)
    requires
        vstd::utf8::is_ascii_chars(name),
        name.len() == 0 || name.len() > MAX_QUEUE_NAME_LENGTH,
        name_answer(name, r),
    ensures
        r matches Err(ProtocolError::InvalidQueueName(s)) && s@ == name,
{
    lemma_ascii_name_bytes(name);
}

/// A name of admitted characters and length that starts with `system_`,
/// `admin_` or `__` is refused as a reserved name.
pub proof fn lemma_queue_name_reserved(name: Seq<char>, r: Result<(), ProtocolError>)
    requires
        1 <= name.len() <= MAX_QUEUE_NAME_LENGTH,
        forall|i: int| 0 <= i < name.len() ==> queue_name_char(#[trigger] name[i]),
        reserved_prefix(name),
        name_answer(name, r),
    ensures
        r matches Err(ProtocolError::InvalidQueueName(s)) && s@ == "Reserved name prefix"@,
{
    lemma_admitted_bytes(name);
    lemma_ascii_name_bytes(name);
    lemma_reserved_chars(name);
}

/// What answering a `Ping` does: the session issues a fresh nonce (see
/// `issue_nonce`) and the answer is a `Pong` to the request carrying it.
pub open spec fn handshake_effect(before: Session, after: Session, request: Frame, r: Result<Frame, ProtocolError>) -> bool {
    &&& after.wf()
    &&& after.same_identity(&before)
    &&& r matches Ok(f) && {
        &&& f.command == Command::Pong
        &&& opt_bytes(f.request_nonce) == Some(request.nonce@)
        &&& f.payload@.len() == crate::protocol::constants::NONCE_LENGTH
        &&& {
            let pushed = before.nonces().issued.push(f.payload@);
            after.nonces() == crate::protocol::session::NonceState {
                issued: if pushed.len() > crate::protocol::constants::MAX_NONCES_PER_SESSION {
                    pushed.drop_first()
                } else {
                    pushed
                },
                ..before.nonces()
            }
        }
    }
}

/// The relay's answer to a `Ping`: a `Pong` carrying a freshly issued nonce
/// as its payload. It never fails.
pub fn server_handshake(session: &mut Session, request: &Frame) -> (r: Result<Frame, ProtocolError>)
    requires
        old(session).wf(),
    ensures
        handshake_effect(*old(session), *final(session), *request, r),
{
    let server_nonce = session.issue_nonce();
    Ok(Frame::response_to(request, Command::Pong, server_nonce))
}

/// Copies a byte vector of length 32 into an array.
fn to_array32(v: &Vec<u8>) -> (r: [u8; 32])
    requires
        v@.len() == 32,
    ensures
        r@ == v@,
{
    let mut r = [0u8; 32];
    let mut i: usize = 0;
    while i < 32
        invariant
            i <= 32,
            v@.len() == 32,
            forall|j: int| 0 <= j < i ==> r@[j] == v@[j],
        decreases 32 - i,
    {
        r[i] = v[i];
        i = i + 1;
    }
    assert(r@ =~= v@);
    r
}

/// Copies a byte vector of length 64 into an array.
fn to_array64(v: &Vec<u8>) -> (r: [u8; 64])
    requires
        v@.len() == 64,
    ensures
        r@ == v@,
{
    let mut r = [0u8; 64];
    let mut i: usize = 0;
    while i < 64
        invariant
            i <= 64,
            v@.len() == 64,
            forall|j: int| 0 <= j < i ==> r@[j] == v@[j],
        decreases 64 - i,
    {
        r[i] = v[i];
        i = i + 1;
    }
    assert(r@ =~= v@);
    r
}

/// Whether `r` is `AuthenticationFailed` with the given text.
pub open spec fn auth_failed(r: Result<Frame, ProtocolError>, text: Seq<char>) -> bool {
    r matches Err(ProtocolError::AuthenticationFailed(s)) && s@ == text
}

/// What handling an `Auth` frame does to the session and answers; see
/// `server_authenticate`.
pub open spec fn auth_effect(before: Session, after: Session, request: Frame, decoded: Result<AuthRequest, String>, r: Result<Frame, ProtocolError>) -> bool {
    &&& after.wf()
    &&& after.connected_at == before.connected_at
    &&& after.queue_count == before.queue_count
    &&& ({
        let st = before.nonces();
        match decoded {
            Err(e) => (r matches Err(ProtocolError::DecodingFailed(s)) && s@ == e@)
                && after.nonces() == st
                && after.same_identity(&before),
            Ok(req) => if req.identity_key@.len() != 32 {
                auth_failed(r, "Invalid identity key length"@) && after.nonces() == st
                    && after.same_identity(&before)
            } else if req.signature@.len() != 64 {
                auth_failed(r, "Invalid signature length"@) && after.nonces() == st
                    && after.same_identity(&before)
            } else if !st.issued.contains(req.server_nonce@) {
                auth_failed(r, "Invalid or reused server nonce"@) && after.nonces() == st
                    && after.same_identity(&before)
            } else {
                let consumed = crate::protocol::session::NonceState {
                    issued: st.issued.remove(first_pos(st.issued, req.server_nonce@)),
                    ..st
                };
                &&& after.nonces() == consumed
                &&& if !ed25519_point_valid(req.identity_key@) {
                    auth_failed(r, "Invalid identity key"@) && after.same_identity(&before)
                } else if !ed25519_verifies_strict(req.identity_key@, req.server_nonce@, req.signature@) {
                    auth_failed(r, "Signature verification failed"@) && after.same_identity(&before)
                } else {
                    &&& r matches Ok(f) && f.command == Command::AuthResponse
                        && opt_bytes(f.request_nonce) == Some(request.nonce@) && f.payload@.len() == 0
                    &&& after.identity_key@ == req.identity_key@
                    &&& after.authenticated
                }
            },
        }
    })
}

/// The relay's handling of an `Auth` frame whose payload decoded to
/// `decoded` (or failed to decode with the given text). Refused, in this
/// order: undecodable payload (`DecodingFailed`); identity key not 32 bytes;
/// signature not 64 bytes; server nonce not issued or already consumed;
/// identity key not a curve point; signature not strictly valid over the
/// server nonce. From the nonce check on, the nonce is consumed. On success
/// the session records the identity key and is authenticated, and the
/// answer is an empty `AuthResponse`.
pub fn server_authenticate(session: &mut Session, request: &Frame, decoded: Result<AuthRequest, String>) -> (r: Result<Frame, ProtocolError>)
    requires
        old(session).wf(),
    ensures
        auth_effect(*old(session), *final(session), *request, decoded, r),
{
    let req = match decoded {
        Ok(req) => req,
        Err(e) => return Err(ProtocolError::DecodingFailed(e)),
    };
    if req.identity_key.len() != 32 {
        return Err(ProtocolError::AuthenticationFailed(String::from_str("Invalid identity key length")));
    }
    if req.signature.len() != 64 {
        return Err(ProtocolError::AuthenticationFailed(String::from_str("Invalid signature length")));
    }
    if !session.verify_and_consume_nonce(req.server_nonce.as_slice()) {
        return Err(ProtocolError::AuthenticationFailed(String::from_str("Invalid or reused server nonce")));
    }
    let identity_key_bytes = to_array32(&req.identity_key);
    let signature_bytes = to_array64(&req.signature);
    if ed25519_key_check(&identity_key_bytes).is_err() {
        return Err(ProtocolError::AuthenticationFailed(String::from_str("Invalid identity key")));
    }
    if ed25519_verify_strict_with(&identity_key_bytes, req.server_nonce.as_slice(), &signature_bytes).is_err() {
        return Err(ProtocolError::AuthenticationFailed(String::from_str("Signature verification failed")));
    }
    session.identity_key = req.identity_key;
    session.authenticated = true;
    Ok(Frame::response_to(request, Command::AuthResponse, Vec::new()))
}

/// A nonce in `s` occurs there at most once.
pub open spec fn occurs_once(s: Seq<Seq<u8>>, n: Seq<u8>) -> bool {
    forall|i: int, j: int| 0 <= i < s.len() && 0 <= j < s.len() && s[i] == n && s[j] == n ==> i == j
}

proof fn lemma_first_pos_of_single(s: Seq<Seq<u8>>, n: Seq<u8>, k: int)
    requires
        0 <= k < s.len(),
        s[k] == n,
        occurs_once(s, n),
    ensures
        first_pos(s, n) == k,
        !s.remove(k).contains(n),
{
    assert(forall|j: int| 0 <= j < k ==> s[j] != n);
    let f = first_pos(s, n);
    assert(0 <= f < s.len() && s[f] == n);
    let t = s.remove(k);
    if t.contains(n) {
        let j = choose|j: int| 0 <= j < t.len() && t[j] == n;
        if j < k {
            assert(s[j] == n);
        } else {
            assert(s[j + 1] == n);
        }
    }
}

/// A nonce the relay hands out in a `Pong` is accepted by the next `Auth`
/// on that session that presents it with a key and a signature of the
/// right lengths: it is consumed, and the answer turns on the key and
/// signature alone; when they verify, the session is authenticated.
#[verifier::rlimit(40)]
pub proof fn lemma_issued_nonce_accepted(s0: Session, s1: Session, ping: Frame, pong: Frame, s2: Session, auth: Frame, req: AuthRequest, r: Result<Frame, ProtocolError>)
    requires
        handshake_effect(s0, s1, ping, Ok(pong)),
        req.server_nonce@ == pong.payload@,
        req.identity_key@.len() == 32,
        req.signature@.len() == 64,
        auth_effect(s1, s2, auth, Ok(req), r),
    ensures
        s2.nonces().issued == s1.nonces().issued.remove(first_pos(s1.nonces().issued, pong.payload@)),
        !auth_failed(r, "Invalid or reused server nonce"@),
        ed25519_point_valid(req.identity_key@) && ed25519_verifies_strict(req.identity_key@, req.server_nonce@, req.signature@)
            ==> (r is Ok && s2.authenticated && s2.identity_key@ == req.identity_key@),
{
    let pushed = s0.nonces().issued.push(pong.payload@);
    assert(pushed[pushed.len() - 1] == pong.payload@);
    if pushed.len() > crate::protocol::constants::MAX_NONCES_PER_SESSION {
        assert(pushed.drop_first()[pushed.len() - 2] == pong.payload@);
    }
    assert(s1.nonces().issued.contains(pong.payload@));
    reveal_strlit("Invalid or reused server nonce");
    reveal_strlit("Invalid identity key");
    reveal_strlit("Signature verification failed");
    assert("Invalid identity key"@.len() != "Invalid or reused server nonce"@.len());
    assert("Signature verification failed"@[0] != "Invalid or reused server nonce"@[0]);
}

/// A server nonce serves one authentication: once an `Auth` presenting a
/// nonce the session held once has succeeded, presenting it again is
/// refused as an invalid or reused server nonce.
pub proof fn lemma_server_nonce_single_use(s1: Session, s2: Session, a1: Frame, q1: AuthRequest, r1: Result<Frame, ProtocolError>, s3: Session, a2: Frame, q2: AuthRequest, r2: Result<Frame, ProtocolError>)
    requires
        occurs_once(s1.nonces().issued, q1.server_nonce@),
        auth_effect(s1, s2, a1, Ok(q1), r1),
        r1 is Ok,
        q2.server_nonce@ == q1.server_nonce@,
        q2.identity_key@.len() == 32,
        q2.signature@.len() == 64,
        auth_effect(s2, s3, a2, Ok(q2), r2),
    ensures
        auth_failed(r2, "Invalid or reused server nonce"@),
        !s3.authenticated || s2.authenticated,
{
    let st = s1.nonces();
    let n = q1.server_nonce@;
    if !st.issued.contains(n) {
        assert(auth_failed(r1, "Invalid or reused server nonce"@));
    } else if q1.identity_key@.len() != 32 || q1.signature@.len() != 64 {
    } else {
        let k = choose|k: int| 0 <= k < st.issued.len() && st.issued[k] == n;
        lemma_first_pos_of_single(st.issued, n, k);
        assert(!s2.nonces().issued.contains(n));
    }
}

/// The client's check of the relay's answer to its `Ping`: it must be a
/// `Pong` (else `InvalidFrame("Handshake failed: expected Pong")`) answering
/// that ping (else `NonceMismatch`) with a non-empty nonce (else
/// `InvalidFrame("Server nonce empty")`), which is returned.
pub fn check_handshake_reply(ping: &Frame, response: &Frame) -> (r: Result<Vec<u8>, ProtocolError>)
    ensures
        if response.command != Command::Pong {
            r matches Err(ProtocolError::InvalidFrame(s)) && s@ == "Handshake failed: expected Pong"@
        } else if opt_bytes(response.request_nonce) != Some(ping.nonce@) {
            r matches Err(ProtocolError::NonceMismatch)
        } else if response.nonce@.len() == 0 {
            r matches Err(ProtocolError::InvalidFrame(s)) && s@ == "Server nonce empty"@
        } else {
            r matches Ok(n) && n@ == response.nonce@
        },
{
    if response.command != Command::Pong {
        return Err(ProtocolError::InvalidFrame(String::from_str("Handshake failed: expected Pong")));
    }
    let answers = match &response.request_nonce {
        Some(n) => crate::bytes::bytes_equal(n.as_slice(), ping.nonce.as_slice()),
        None => false,
    };
    if !answers {
        return Err(ProtocolError::NonceMismatch);
    }
    if response.nonce.len() == 0 {
        return Err(ProtocolError::InvalidFrame(String::from_str("Server nonce empty")));
    }
    Ok(response.nonce.clone())
}

/// The name of a command, as its debug form prints it.
pub open spec fn command_name(c: Command) -> Seq<char> {
    match c {
        Command::Ping => "Ping"@,
        Command::Pong => "Pong"@,
        Command::Auth => "Auth"@,
        Command::AuthResponse => "AuthResponse"@,
        Command::CreateQueue => "CreateQueue"@,
        Command::SendMessage => "SendMessage"@,
        Command::ReceiveMessage => "ReceiveMessage"@,
        Command::AckMessage => "AckMessage"@,
        Command::DeleteQueue => "DeleteQueue"@,
        Command::Error => "Error"@,
    }
}

/// The name of a command as a string.
pub fn command_string(c: Command) -> (r: String)
    ensures
        r@ == command_name(c),
{
    match c {
        Command::Ping => String::from_str("Ping"),
        Command::Pong => String::from_str("Pong"),
        Command::Auth => String::from_str("Auth"),
        Command::AuthResponse => String::from_str("AuthResponse"),
        Command::CreateQueue => String::from_str("CreateQueue"),
        Command::SendMessage => String::from_str("SendMessage"),
        Command::ReceiveMessage => String::from_str("ReceiveMessage"),
        Command::AckMessage => String::from_str("AckMessage"),
        Command::DeleteQueue => String::from_str("DeleteQueue"),
        Command::Error => String::from_str("Error"),
    }
}

/// The client's check of the relay's answer to its `Auth` frame: it must
/// answer that frame (else `NonceMismatch`); an `AuthResponse` means
/// success, an `Error` is `AuthenticationFailed` with the relay's text
/// (`error_text`, the decoded payload), anything else `UnexpectedCommand`
/// with the command's name.
pub fn check_auth_reply(sent: &Frame, response: &Frame, error_text: String) -> (r: Result<(), ProtocolError>)
    ensures
        if opt_bytes(response.request_nonce) != Some(sent.nonce@) {
            r matches Err(ProtocolError::NonceMismatch)
        } else {
            match response.command {
                Command::AuthResponse => r is Ok,
                Command::Error => r matches Err(ProtocolError::AuthenticationFailed(s)) && s@ == error_text@,
                _ => r matches Err(ProtocolError::UnexpectedCommand(s)) && s@ == command_name(response.command),
            }
        },
{
    let answers = match &response.request_nonce {
        Some(n) => crate::bytes::bytes_equal(n.as_slice(), sent.nonce.as_slice()),
        None => false,
    };
    if !answers {
        return Err(ProtocolError::NonceMismatch);
    }
    match response.command {
        Command::AuthResponse => Ok(()),
        Command::Error => Err(ProtocolError::AuthenticationFailed(error_text)),
        _ => Err(ProtocolError::UnexpectedCommand(command_string(response.command))),
    }
}

} // verus!
