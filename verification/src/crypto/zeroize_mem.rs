use vstd::prelude::*;
use zeroize::Zeroize;

verus! {

/// Calls `Zeroize::zeroize` on a byte slice. Claimed: every byte is zero
/// afterwards (the crate writes them with volatile stores, which the
/// compiler may not elide).
#[verifier::external_body]
fn zeroize_slice(data: &mut [u8])
    ensures
        final(data)@ == Seq::new(old(data)@.len(), |i: int| 0u8),
{
    data.zeroize();
}

/// Overwrites every byte of `data` with zero.
pub fn secure_clear_bytes(data: &mut [u8])
    ensures
        final(data)@ == Seq::new(old(data)@.len(), |i: int| 0u8),
{
    zeroize_slice(data)
}

} // verus!
