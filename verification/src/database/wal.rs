use vstd::prelude::*;
use vstd::bytes::*;
use crate::bytes::append_bytes;
use crate::database::error::{unexpected_eof, DatabaseError};

verus! {

/// The four bytes a log file starts with ("RUNT" read as a little-endian number).
pub const WAL_MAGIC: u32 = 0x52554E54;
/// The format version written after the magic.
pub const WAL_VERSION: u32 = 1;
/// Bytes of the file header.
pub const WAL_HEADER_LEN: usize = 8;
/// An entry's index is its byte offset in the file divided by this.
pub const WAL_INDEX_STRIDE: u64 = 128;

/// What an entry records.
#[derive(Clone, Copy, Debug, PartialEq, Eq, Structural)]
pub enum WalEntryType {
    MessageInsert,
    MessageAck,
    QueueCreate,
    QueueDelete,
}

/// One write-ahead-log entry.
#[derive(Debug)]
pub struct WalEntry {
    pub index: u64,
    pub entry_type: WalEntryType,
    pub queue_id: Vec<u8>,
    pub sequence_id: i64,
    pub message_id: Vec<u8>,
    pub payload: Vec<u8>,
    pub timestamp: u64,
    pub ttl: Option<u64>,
    pub expires_at: Option<u64>,
    pub crc: u32,
}

impl WalEntry {
    /// A field-by-field copy of the entry.
    pub fn duplicate(&self) -> (r: WalEntry)
        ensures
            r.same_as(self),
    {
        WalEntry {
            index: self.index,
            entry_type: self.entry_type,
            queue_id: self.queue_id.clone(),
            sequence_id: self.sequence_id,
            message_id: self.message_id.clone(),
            payload: self.payload.clone(),
            timestamp: self.timestamp,
            ttl: self.ttl,
            expires_at: self.expires_at,
            crc: self.crc,
        }
    }

    /// Whether two entries hold the same values.
    pub open spec fn same_as(&self, other: &WalEntry) -> bool {
        &&& self.index == other.index
        &&& self.entry_type == other.entry_type
        &&& self.queue_id@ == other.queue_id@
        &&& self.sequence_id == other.sequence_id
        &&& self.message_id@ == other.message_id@
        &&& self.payload@ == other.payload@
        &&& self.timestamp == other.timestamp
        &&& self.ttl == other.ttl
        &&& self.expires_at == other.expires_at
        &&& self.crc == other.crc
    }
}

/// The CRC-32 (IEEE) checksum of `data`.
pub uninterp spec fn crc32(data: Seq<u8>) -> u32;

/// Calls `crc32fast::hash`. Claimed: the result is the CRC-32 of `data`,
/// a function of `data` alone.
#[verifier::external_body]
fn crc32_hash(data: &[u8]) -> (r: u32)
    ensures
        r == crc32(data@),
{
    crc32fast::hash(data)
}

/// The CRC-32 checksum of `data`.
pub fn checksum(data: &[u8]) -> (r: u32)
    ensures
        r == crc32(data@),
{
    crc32_hash(data)
}

/// The header a fresh log file starts with: magic, then version, both
/// little-endian.
pub open spec fn header_spec() -> Seq<u8> {
    spec_u32_to_le_bytes(WAL_MAGIC) + spec_u32_to_le_bytes(WAL_VERSION)
}

/// The header a fresh log file starts with.
pub fn header_bytes() -> (r: Vec<u8>)
    ensures
        r@ == header_spec(),
{
    let mut r = u32_to_le_bytes(WAL_MAGIC);
    let v = u32_to_le_bytes(WAL_VERSION);
    append_bytes(&mut r, v.as_slice());
    r
}

/// How a log file's opening bytes are judged.
pub enum HeaderVerdict {
    Valid,
    BadMagic,
    TooShort,
}

/// The verdict on a file that starts with `prefix`: fewer than four bytes
/// is too short; a wrong magic is refused; fewer than eight bytes is too
/// short; otherwise the header is accepted (the version is not checked).
pub open spec fn header_verdict(prefix: Seq<u8>) -> HeaderVerdict {
    if prefix.len() < 4 {
        HeaderVerdict::TooShort
    } else if spec_u32_from_le_bytes(prefix.subrange(0, 4)) != WAL_MAGIC {
        HeaderVerdict::BadMagic
    } else if prefix.len() < 8 {
        HeaderVerdict::TooShort
    } else {
        HeaderVerdict::Valid
    }
}

/// Checks the opening bytes of an existing log file: a file too short for
/// the header fails as reading past its end does (`Io`), a wrong magic
/// with `Wal("Invalid WAL magic")`.
pub fn validate_header(prefix: &[u8]) -> (r: Result<(), DatabaseError>)
    ensures
        header_verdict(prefix@) is Valid <==> r is Ok,
        header_verdict(prefix@) is TooShort <==> r matches Err(DatabaseError::Io(_)),
        header_verdict(prefix@) is BadMagic <==> (r matches Err(DatabaseError::Wal(s)) && s@ == "Invalid WAL magic"@),
{
    if prefix.len() < 4 {
        return Err(DatabaseError::Io(unexpected_eof()));
    }
    let magic_bytes: [u8; 4] = [prefix[0], prefix[1], prefix[2], prefix[3]];
    assert(magic_bytes@ =~= prefix@.subrange(0, 4));
    let magic = u32_from_le_bytes(&magic_bytes);
    if magic != WAL_MAGIC {
        return Err(DatabaseError::Wal(String::from_str("Invalid WAL magic")));
    }
    if prefix.len() < 8 {
        return Err(DatabaseError::Io(unexpected_eof()));
    }
    Ok(())
}

/// A fresh log passes the header check.
pub proof fn lemma_fresh_header_valid()
    ensures
        header_verdict(header_spec()) is Valid,
{
    lemma_auto_spec_u32_to_from_le_bytes();
    assert(header_spec().subrange(0, 4) =~= spec_u32_to_le_bytes(WAL_MAGIC));
}

/// The index of an entry written at byte offset `offset`.
pub fn index_for_offset(offset: u64) -> (r: u64)
    ensures
        r == offset / WAL_INDEX_STRIDE,
{
    offset / WAL_INDEX_STRIDE
}

/// The length prefix of a record: its length (modulo 2^32, as the writer
/// truncates it) in four little-endian bytes.
pub open spec fn length_prefix(len: nat) -> Seq<u8> {
    spec_u32_to_le_bytes((len % 0x1_0000_0000) as u32)
}

/// A record as written to the log: length prefix, then the data.
pub open spec fn framed(data: Seq<u8>) -> Seq<u8> {
    length_prefix(data.len()) + data
}

/// Frames one serialized entry for the log.
pub fn frame_record(data: &[u8]) -> (r: Vec<u8>)
    ensures
        r@ == framed(data@),
{
    let len = ((data.len() as u64) % 0x1_0000_0000u64) as u32;
    let mut r = u32_to_le_bytes(len);
    append_bytes(&mut r, data);
    r
}

/// What reading the log at a position finds.
pub enum RecordStep {
    /// Fewer than four bytes remain: the end of the log.
    End,
    /// A length prefix announces more bytes than remain.
    Truncated,
    /// A record of `len` bytes starting at `start`.
    Record { start: usize, len: usize },
}

/// What reading `data` at `pos` finds.
pub open spec fn record_at(data: Seq<u8>, pos: int) -> RecordStep {
    if pos + 4 > data.len() {
        RecordStep::End
    } else {
        let len = spec_u32_from_le_bytes(data.subrange(pos, pos + 4));
        if pos + 4 + len > data.len() {
            RecordStep::Truncated
        } else {
            RecordStep::Record { start: (pos + 4) as usize, len: len as usize }
        }
    }
}

/// Reads the record at `pos`.
pub fn next_record(data: &[u8], pos: usize) -> (r: RecordStep)
    requires
        pos <= data@.len(),
    ensures
        r == record_at(data@, pos as int),
{
    if data.len() - pos < 4 {
        return RecordStep::End;
    }
    let prefix: [u8; 4] = [data[pos], data[pos + 1], data[pos + 2], data[pos + 3]];
    assert(prefix@ =~= data@.subrange(pos as int, pos + 4));
    let len = u32_from_le_bytes(&prefix);
    if (data.len() - pos - 4) < len as usize {
        return RecordStep::Truncated;
    }
    RecordStep::Record { start: pos + 4, len: len as usize }
}

/// A record framed by the writer is read back whole, and reading goes on
/// right after it.
pub proof fn lemma_framed_record_reads_back(before: Seq<u8>, data: Seq<u8>, after: Seq<u8>)
    requires
        data.len() < 0x1_0000_0000,
        before.len() + 4 + data.len() + after.len() <= usize::MAX,
    ensures
        ({
            let log = before + framed(data) + after;
            &&& record_at(log, before.len() as int) == (RecordStep::Record {
                start: (before.len() + 4) as usize,
                len: data.len() as usize,
            })
            &&& log.subrange(before.len() + 4int, before.len() + 4 + data.len() as int) == data
        }),
{
    lemma_auto_spec_u32_to_from_le_bytes();
    let log = before + framed(data) + after;
    let p = before.len() as int;
    assert(log.subrange(p, p + 4) =~= length_prefix(data.len()));
    assert(log.subrange(p + 4, p + 4 + data.len()) =~= data);
}

/// Whether a decoded entry is kept by a read from `start_index`: entries
/// before it are skipped (`Ok(false)`); a kept entry whose checksum does
/// not match the checksum of its re-serialization is refused with
/// `CrcMismatch`.
pub fn accept_entry(index: u64, crc: u32, verify_data: &[u8], start_index: u64) -> (r: Result<bool, DatabaseError>)
    ensures
        index < start_index ==> r == Ok::<bool, DatabaseError>(false),
        index >= start_index && crc32(verify_data@) != crc ==> (r matches Err(DatabaseError::CrcMismatch { index: i }) && i == index),
        index >= start_index && crc32(verify_data@) == crc ==> r == Ok::<bool, DatabaseError>(true),
{
    if index >= start_index {
        let verify_crc = checksum(verify_data);
        if verify_crc != crc {
            return Err(DatabaseError::CrcMismatch { index });
        }
        return Ok(true);
    }
    Ok(false)
}

/// Collects a batch of records into one write: each record's index comes
/// from the offset at which it will land.
pub struct BatchFramer {
    pub start_offset: u64,
    pub buffer: Vec<u8>,
    pub last_index: u64,
}

impl BatchFramer {
    /// An empty batch to be written at byte offset `start_offset`.
    pub fn new(start_offset: u64) -> (r: BatchFramer)
        ensures
            r.start_offset == start_offset,
            r.buffer@ == Seq::<u8>::empty(),
            r.last_index == 0,
    {
        BatchFramer { start_offset, buffer: Vec::new(), last_index: 0 }
    }

    /// The index of the next record of the batch.
    pub fn next_index(&self) -> (r: u64)
        requires
            self.start_offset + self.buffer@.len() <= u64::MAX,
        ensures
            r == (self.start_offset + self.buffer@.len()) / (WAL_INDEX_STRIDE as int),
    {
        let offset = self.start_offset + self.buffer.len() as u64;
        offset / WAL_INDEX_STRIDE
    }

    /// Adds one serialized entry, whose index was `index`, to the batch.
    pub fn push(&mut self, index: u64, data: &[u8])
        ensures
            final(self).start_offset == old(self).start_offset,
            final(self).buffer@ == old(self).buffer@ + framed(data@),
            final(self).last_index == index,
    {
        let framed_record = frame_record(data);
        append_bytes(&mut self.buffer, framed_record.as_slice());
        self.last_index = index;
    }
}

/// The applied index after `index` is applied: it only grows.
pub fn mark_applied(applied: u64, index: u64) -> (r: u64)
    ensures
        r == if index > applied { index } else { applied },
{
    if index > applied { index } else { applied }
}

} // verus!
