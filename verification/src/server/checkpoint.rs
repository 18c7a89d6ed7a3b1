use vstd::prelude::*;
use vstd::bytes::{spec_u128_to_le_bytes, u128_to_le_bytes};
use crate::bytes::{append_bytes, be_bytes_u64, hex_chars, hex_string, u64_to_be};
use crate::crypto::hash::{sha256, sha256_of};

verus! {

/// A record of how far the materialized state has come.
pub struct Checkpoint {
    pub index: u64,
    pub hash: String,
    pub timestamp: u64,
}

/// The big-endian bytes of a 128-bit number.
pub open spec fn be_bytes_u128(x: u128) -> Seq<u8> {
    spec_u128_to_le_bytes(x).reverse()
}

/// The checkpoint of applied index `index`, taken at `nanos` nanoseconds
/// and `secs` seconds since the epoch: its hash is the hexadecimal SHA-256
/// of the index's and the nanoseconds' big-endian bytes.
pub fn checkpoint_at(index: u64, nanos: u128, secs: u64) -> (r: Checkpoint)
    ensures
        r.index == index,
        r.timestamp == secs,
        r.hash@ == hex_chars(sha256(be_bytes_u64(index) + be_bytes_u128(nanos))),
{
    let mut input = u64_to_be(index);
    let le = u128_to_le_bytes(nanos);
    let mut be: Vec<u8> = Vec::new();
    let mut i: usize = le.len();
    while i > 0
        invariant
            i <= le@.len(),
            be@ == le@.subrange(i as int, le@.len() as int).reverse(),
        decreases i,
    {
        i = i - 1;
        be.push(le[i]);
        assert(be@ =~= le@.subrange(i as int, le@.len() as int).reverse());
    }
    assert(le@.subrange(0, le@.len() as int) =~= le@);
    append_bytes(&mut input, be.as_slice());
    let digest = sha256_of(input.as_slice());
    Checkpoint { index, hash: hex_string(&digest), timestamp: secs }
}

} // verus!
