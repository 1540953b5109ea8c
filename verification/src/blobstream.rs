//! The Blobstream verifier: what the L1 state must hold for a Celestia data
//! root to count as relayed.
use crate::bytes::{
    append, be_repr, bytes_eq, lemma_be_repr_len, lemma_trim_len, lemma_word_of_u64,
    trim_leading_zeros, trim_zeros, u64_to_word, zeros, Address, B256,
};
use crate::header::{decode_header, decoded_header, SealedHeader};
use crate::keccak::{keccak256, keccak256_digest};
use crate::rlp::{account_rlp, encode_account, encode_string, rlp_uint};
use crate::trie::{check_trie_proof, nodes_view, trie_proof_accepted};
use crate::uint::U256;
use vstd::prelude::*;

verus! {

/// Storage slot of the `state_dataCommitments` mapping in the Blobstream contract.
pub const DATA_COMMITMENTS_SLOT: u32 = 254;

/// A `DataCommitmentStored` event of the Blobstream contract.
#[derive(Clone, Copy, Debug, PartialEq, Eq)]
pub struct SP1BlobstreamDataCommitmentStored {
    /// The key under which the commitment is stored.
    pub proof_nonce: U256,
    /// The first Celestia height that the commitment covers.
    pub start_block: u64,
    /// The first Celestia height after those that the commitment covers.
    pub end_block: u64,
    /// The commitment over the data roots of the covered heights.
    pub data_commitment: B256,
}

impl SP1BlobstreamDataCommitmentStored {
    /// Whether the event's range of heights holds `height`.
    pub open spec fn covers(&self, height: u64) -> bool {
        self.start_block <= height < self.end_block
    }

    /// Whether the event's range of heights holds `celestia_height`.
    pub fn contains(&self, celestia_height: u64) -> (r: bool)
        ensures
            r == self.covers(celestia_height),
    {
        self.start_block <= celestia_height && celestia_height < self.end_block
    }
}

/// Why a data commitment was not accepted.
#[derive(Clone, Copy, Debug, PartialEq, Eq, Structural)]
pub enum BlobstreamError {
    /// The block header is not the one of the trusted L1 head.
    HeaderMismatch,
    /// The account proof does not lead from the state root to the Blobstream account.
    AccountProofFailed,
    /// The storage proof does not lead from the storage root to the commitment.
    StorageProofFailed,
}

impl BlobstreamError {
    /// The words in which the error is reported.
    pub open spec fn text(self) -> Seq<char> {
        match self {
            BlobstreamError::HeaderMismatch => "computed block hash must match host l1 head"@,
            BlobstreamError::AccountProofFailed => "Account proof verification failed"@,
            BlobstreamError::StorageProofFailed => "Storage proof verification failed"@,
        }
    }

    /// The words in which the error is reported.
    pub fn message(&self) -> (r: &'static str)
        ensures
            r@ == self.text(),
    {
        match self {
            BlobstreamError::HeaderMismatch => "computed block hash must match host l1 head",
            BlobstreamError::AccountProofFailed => "Account proof verification failed",
            BlobstreamError::StorageProofFailed => "Storage proof verification failed",
        }
    }
}

/// The data-root tuple as the Blobstream contract hashes it: the height and
/// the data root, each as a 32-byte big-endian word.
pub open spec fn data_root_tuple(height: u64, data_root: Seq<u8>) -> Seq<u8> {
    be_repr(height as nat, 32) + data_root
}

/// The 64 bytes whose digest is the storage slot of `mapping[key]`, for the
/// mapping declared at slot `mapping_slot`.
pub open spec fn mapping_slot_preimage(mapping_slot: u32, key: nat) -> Seq<u8> {
    be_repr(key, 32) + be_repr(mapping_slot as nat, 32)
}

/// The storage slot of `mapping[key]`, for the mapping declared at slot `mapping_slot`.
pub open spec fn mapping_slot(mapping_slot: u32, key: nat) -> Seq<u8> {
    keccak256(mapping_slot_preimage(mapping_slot, key))
}

/// The value that the storage trie holds for a stored 32-byte word: the RLP
/// encoding of the word without its leading zero bytes.
pub open spec fn storage_leaf(word: Seq<u8>) -> Seq<u8> {
    rlp_uint(word)
}

/// The outcome of checking a data commitment against the L1 state.
pub open spec fn data_commitment_outcome(
    storage_root: Seq<u8>,
    storage_proof: Seq<Seq<u8>>,
    account_proof: Seq<Seq<u8>>,
    commitment_nonce: nat,
    expected_commitment: Seq<u8>,
    expected_blobstream_address: Seq<u8>,
    blobstream_balance: Seq<u8>,
    blobstream_nonce: u64,
    blobstream_code_hash: Seq<u8>,
    block_header: Seq<u8>,
    l1_block_hash: Seq<u8>,
) -> Result<(), BlobstreamError> {
    match decoded_header(block_header) {
        None => Err(BlobstreamError::HeaderMismatch),
        Some((hash, state_root)) => {
            if hash != l1_block_hash {
                Err(BlobstreamError::HeaderMismatch)
            } else if !trie_proof_accepted(
                state_root,
                keccak256(expected_blobstream_address),
                account_rlp(
                    blobstream_nonce,
                    blobstream_balance,
                    storage_root,
                    blobstream_code_hash,
                ),
                account_proof,
            ) {
                Err(BlobstreamError::AccountProofFailed)
            } else if !trie_proof_accepted(
                storage_root,
                keccak256(mapping_slot(DATA_COMMITMENTS_SLOT, commitment_nonce)),
                storage_leaf(expected_commitment),
                storage_proof,
            ) {
                Err(BlobstreamError::StorageProofFailed)
            } else {
                Ok(())
            }
        },
    }
}

/// Encodes the tuple `(height, data_root)` as the leaf of Blobstream's Merkle
/// tree: 24 zero bytes, the height in 8 big-endian bytes, the data root.
pub fn encode_data_root_tuple(height: u64, data_root: &B256) -> (r: Vec<u8>)
    ensures
        r@ == data_root_tuple(height, data_root@),
        r@.len() == 64,
        r@.subrange(0, 24) == zeros(24),
        r@.subrange(24, 32) == be_repr(height as nat, 8),
        r@.subrange(32, 64) == data_root@,
{
    let mut result: Vec<u8> = Vec::with_capacity(64);
    let height_word = u64_to_word(height);
    append(&mut result, height_word.as_slice());
    append(&mut result, data_root.as_slice());
    proof {
        lemma_be_repr_len(height as nat, 32);
        lemma_word_of_u64(height);
        assert(result@.subrange(32, 64) =~= data_root@);
        assert(result@.subrange(0, 24) =~= be_repr(height as nat, 32).subrange(0, 24));
        assert(result@.subrange(24, 32) =~= be_repr(height as nat, 32).subrange(24, 32));
    }
    result
}

/// The 64 bytes that are hashed to find the storage slot of `mapping[key]`:
/// the key and the mapping's slot number, each as a 32-byte big-endian word.
pub fn mapping_slot_input(mapping_slot: u32, key: U256) -> (r: Vec<u8>)
    ensures
        r@ == mapping_slot_preimage(mapping_slot, key.value()),
        r@.len() == 64,
{
    let key_bytes = key.to_be_bytes();
    let slot_bytes = U256::from_u64(mapping_slot as u64).to_be_bytes();
    let mut concatenated: Vec<u8> = Vec::with_capacity(64);
    append(&mut concatenated, key_bytes.as_slice());
    append(&mut concatenated, slot_bytes.as_slice());
    concatenated
}

/// Calculate the storage slot for a mapping with a uint256 key.
pub fn calculate_mapping_slot(mapping_slot: u32, key: U256) -> (r: B256)
    ensures
        r@ == keccak256(be_repr(key.value(), 32) + be_repr(mapping_slot as nat, 32)),
        r@ == self::mapping_slot(mapping_slot, key.value()),
{
    let concatenated = mapping_slot_input(mapping_slot, key);
    keccak256_digest(concatenated.as_slice())
}

/// The leaf that the storage trie holds for the stored commitment: the
/// canonical RLP encoding of the commitment without its leading zero bytes,
/// which for the all-zero commitment is the empty string, `0x80`.
pub fn commitment_leaf(commitment: &B256) -> (r: Vec<u8>)
    ensures
        r@ == storage_leaf(commitment@),
{
    let canonical_commitment = trim_zeros(commitment.as_slice());
    proof {
        lemma_trim_len(commitment@);
    }
    encode_string(canonical_commitment.as_slice())
}

/// The leaf that the state trie holds for an account: the RLP encoding of
/// the list `[nonce, balance, storage_root, code_hash]`.
pub fn account_leaf(
    nonce: u64,
    balance: &U256,
    storage_root: &B256,
    code_hash: &B256,
) -> (r: Vec<u8>)
    ensures
        r@ == account_rlp(nonce, balance.be@, storage_root@, code_hash@),
{
    encode_account(nonce, balance, storage_root, code_hash)
}

/// Leading zero bytes do not change the leaf of a stored word.
pub proof fn lemma_leaf_ignores_leading_zeros(zero_bytes: nat, rest: Seq<u8>)
    ensures
        storage_leaf(zeros(zero_bytes) + rest) == storage_leaf(rest),
    decreases zero_bytes,
{
    let s = zeros(zero_bytes) + rest;
    if zero_bytes > 0 {
        assert(s.first() == 0);
        assert(s.drop_first() =~= zeros((zero_bytes - 1) as nat) + rest);
        lemma_leaf_ignores_leading_zeros((zero_bytes - 1) as nat, rest);
    } else {
        assert(s =~= rest);
    }
}

/// The leaf of the all-zero commitment is the empty string, `0x80`.
pub proof fn lemma_zero_commitment_leaf()
    ensures
        storage_leaf(zeros(32)) == seq![0x80u8],
{
    lemma_leaf_ignores_leading_zeros(32, Seq::empty());
    assert(zeros(32) + Seq::<u8>::empty() =~= zeros(32));
    assert(trim_leading_zeros(Seq::<u8>::empty()) =~= Seq::<u8>::empty());
    assert(storage_leaf(Seq::<u8>::empty()) =~= seq![0x80u8]);
}

/// The leaf of a commitment whose first byte is not zero is `0xa0` and the
/// commitment's 32 bytes.
pub proof fn lemma_full_commitment_leaf(commitment: Seq<u8>)
    requires
        commitment.len() == 32,
        commitment[0] != 0,
    ensures
        storage_leaf(commitment) == seq![0xa0u8] + commitment,
{
}

/// Holds the decoded header against the trusted L1 head: gives the header's
/// state root where its hash is the trusted one, and `HeaderMismatch` where it
/// is another or no header was decoded.
pub fn check_header(
    header: Option<SealedHeader>,
    l1_block_hash: &B256,
) -> (r: Result<B256, BlobstreamError>)
    ensures
        r == match header {
            Some(h) => if h.hash@ == l1_block_hash@ {
                Ok::<B256, BlobstreamError>(h.state_root)
            } else {
                Err(BlobstreamError::HeaderMismatch)
            },
            None => Err(BlobstreamError::HeaderMismatch),
        },
{
    match header {
        Some(h) => {
            if bytes_eq(h.hash.as_slice(), l1_block_hash.as_slice()) {
                Ok(h.state_root)
            } else {
                Err(BlobstreamError::HeaderMismatch)
            }
        },
        None => Err(BlobstreamError::HeaderMismatch),
    }
}

/// Verifies that a data commitment exists in the Ethereum state at the
/// trusted L1 block.
///
/// The block header must hash to `l1_block_hash`; the account proof must lead
/// from the header's state root to the Blobstream account with the given
/// nonce, balance, storage root and code hash; and the storage proof must lead
/// from that storage root to the commitment stored under `commitment_nonce`.
/// The three checks are made in this order and the first that fails names the
/// error.
pub fn verify_data_commitment(
    storage_root: B256,
    storage_proof: Vec<Vec<u8>>,
    account_proof: Vec<Vec<u8>>,
    commitment_nonce: U256,
    expected_commitment: B256,
    expected_blobstream_address: Address,
    blobstream_balance: U256,
    blobstream_nonce: u64,
    blobstream_code_hash: B256,
    block_header: Vec<u8>,
    l1_block_hash: B256,
) -> (r: Result<(), BlobstreamError>)
    ensures
        r == data_commitment_outcome(
            storage_root@,
            nodes_view(storage_proof@),
            nodes_view(account_proof@),
            commitment_nonce.value(),
            expected_commitment@,
            expected_blobstream_address@,
            blobstream_balance.be@,
            blobstream_nonce,
            blobstream_code_hash@,
            block_header@,
            l1_block_hash@,
        ),
{
    let state_root = match check_header(decode_header(block_header.as_slice()), &l1_block_hash) {
        Ok(root) => root,
        Err(e) => {
            return Err(e);
        },
    };
    let account = account_leaf(
        blobstream_nonce,
        &blobstream_balance,
        &storage_root,
        &blobstream_code_hash,
    );
    let address_hash = keccak256_digest(expected_blobstream_address.as_slice());
    if !check_trie_proof(&state_root, &address_hash, account, &account_proof) {
        return Err(BlobstreamError::AccountProofFailed);
    }
    let slot = calculate_mapping_slot(DATA_COMMITMENTS_SLOT, commitment_nonce);
    let slot_hash = keccak256_digest(slot.as_slice());
    let expected_leaf = commitment_leaf(&expected_commitment);
    if !check_trie_proof(&storage_root, &slot_hash, expected_leaf, &storage_proof) {
        return Err(BlobstreamError::StorageProofFailed);
    }
    Ok(())
}

} // verus!
