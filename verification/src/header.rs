//! L1 block headers, read by `alloy_consensus` from their RLP encoding.
use crate::bytes::B256;
use alloy_rlp::Decodable;
use vstd::prelude::*;

verus! {

/// What the verifier reads of an L1 block header.
#[derive(Clone, Copy, Debug, PartialEq, Eq)]
pub struct SealedHeader {
    /// The block hash: the Keccak-256 digest of the header's RLP encoding.
    pub hash: B256,
    /// The root of the state trie after the block.
    pub state_root: B256,
}

/// The block hash and the state root of the header that `rlp` encodes, in
/// this order; `None` where `rlp` does not start with an encoded header.
pub uninterp spec fn decoded_header(rlp: Seq<u8>) -> Option<(Seq<u8>, Seq<u8>)>;

/// Calls `alloy_consensus::Header::decode`, then `hash_slow` on the header
/// that came out, and copies its `state_root`.
///
/// Not proved: that the pair returned is the one that [`decoded_header`]
/// names, and that nothing is returned exactly where decoding fails.
#[verifier::external_body]
pub(crate) fn decode_header(rlp: &[u8]) -> (r: Option<SealedHeader>)
    ensures
        match r {
            Some(h) => decoded_header(rlp@) == Some((h.hash@, h.state_root@)),
            None => decoded_header(rlp@) is None,
        },
{
    let mut buf = rlp;
    match alloy_consensus::Header::decode(&mut buf) {
        Ok(header) => Some(
            SealedHeader { hash: header.hash_slow().0, state_root: header.state_root.0 },
        ),
        Err(_) => None,
    }
}

} // verus!
