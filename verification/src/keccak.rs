//! Keccak-256, computed by `alloy_primitives`.
use crate::bytes::B256;
use vstd::prelude::*;

verus! {

/// The Keccak-256 digest of `data`.
pub uninterp spec fn keccak256(data: Seq<u8>) -> Seq<u8>;

/// Calls `alloy_primitives::keccak256`.
///
/// Not proved: that the 32 bytes returned are the Keccak-256 digest of `data`,
/// which this crate knows only by the name [`keccak256`].
#[verifier::external_body]
pub(crate) fn keccak256_digest(data: &[u8]) -> (r: B256)
    ensures
        r@ == keccak256(data@),
{
    alloy_primitives::keccak256(data).0
}

} // verus!
