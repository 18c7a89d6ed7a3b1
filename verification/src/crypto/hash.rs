use vstd::prelude::*;
use sha2::Digest;

verus! {

/// The SHA-512 digest of `data`.
pub uninterp spec fn sha512(data: Seq<u8>) -> Seq<u8>;

/// The SHA-256 digest of `data`.
pub uninterp spec fn sha256(data: Seq<u8>) -> Seq<u8>;

/// Calls `sha2::Sha512::digest`. Claimed: the result is the SHA-512 digest
/// of `data` (a function of `data` alone).
#[verifier::external_body]
pub(crate) fn sha512_of(data: &[u8]) -> (r: [u8; 64])
    ensures
        r@ == sha512(data@),
{
    sha2::Sha512::digest(data).into()
}

/// Calls `sha2::Sha256::digest`. Claimed: the result is the SHA-256 digest
/// of `data` (a function of `data` alone).
#[verifier::external_body]
pub(crate) fn sha256_of(data: &[u8]) -> (r: [u8; 32])
    ensures
        r@ == sha256(data@),
{
    sha2::Sha256::digest(data).into()
}

} // verus!
