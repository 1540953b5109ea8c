//! RLP encodings of the two trie leaves that the verifier rebuilds.
use crate::bytes::{be_repr, trim_leading_zeros, B256};
use crate::uint::U256;
use vstd::prelude::*;

verus! {

/// The RLP encoding of a byte string shorter than 56 bytes.
pub open spec fn rlp_string(s: Seq<u8>) -> Seq<u8> {
    if s.len() == 1 && s[0] < 0x80 {
        s
    } else {
        seq![(0x80 + s.len()) as u8] + s
    }
}

/// The RLP encoding of an unsigned number given by its big-endian bytes.
pub open spec fn rlp_uint(be: Seq<u8>) -> Seq<u8> {
    rlp_string(trim_leading_zeros(be))
}

/// The four encoded fields of an account leaf, in trie order.
pub open spec fn account_payload(
    nonce: u64,
    balance: Seq<u8>,
    storage_root: Seq<u8>,
    code_hash: Seq<u8>,
) -> Seq<u8> {
    rlp_uint(be_repr(nonce as nat, 8)) + rlp_uint(balance) + rlp_string(storage_root)
        + rlp_string(code_hash)
}

/// The RLP encoding of the account list `[nonce, balance, storage_root, code_hash]`.
///
/// The two roots alone take 66 bytes, so the list always has the long header.
pub open spec fn account_rlp(
    nonce: u64,
    balance: Seq<u8>,
    storage_root: Seq<u8>,
    code_hash: Seq<u8>,
) -> Seq<u8> {
    let payload = account_payload(nonce, balance, storage_root, code_hash);
    seq![0xf8u8, payload.len() as u8] + payload
}

/// Calls `alloy_rlp::encode` on a byte string.
///
/// Not proved: that a string shorter than 56 bytes is encoded as itself when it
/// is one byte below `0x80`, and else as its length added to `0x80` and then
/// its bytes.
#[verifier::external_body]
pub(crate) fn encode_string(s: &[u8]) -> (r: Vec<u8>)
    requires
        s@.len() < 56,
    ensures
        r@ == rlp_string(s@),
{
    alloy_rlp::encode(s)
}

/// Calls `alloy_rlp::encode` on an `alloy_trie::TrieAccount`.
///
/// Not proved: that the account is encoded as a list of its nonce, balance,
/// storage root and code hash, in that order, the numbers without leading
/// zero bytes and the two hashes as 32-byte strings.
#[verifier::external_body]
pub(crate) fn encode_account(
    nonce: u64,
    balance: &U256,
    storage_root: &B256,
    code_hash: &B256,
) -> (r: Vec<u8>)
    ensures
        r@ == account_rlp(nonce, balance.be@, storage_root@, code_hash@),
{
    let account = alloy_trie::TrieAccount::new(
        nonce,
        alloy_primitives::U256::from_be_bytes(balance.be),
        alloy_primitives::B256::new(*storage_root),
        alloy_primitives::B256::new(*code_hash),
    );
    alloy_rlp::encode(&account)
}

} // verus!
