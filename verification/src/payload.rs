//! The oracle payload: the blob and its proof bundle, as the host stores it
//! under the oracle key and the verifier reads it back.
use crate::bundle::{
    dec_proof, lemma_dec_enc_proof, lemma_enc_dec_proof, BlobstreamProof, PayloadError, ProofView,
    FORMAT_VERSION,
};
use crate::bytes::B256;
use crate::codec::{
    dec_bytes, enc_bytes, items_view, lemma_dec_enc_bytes, lemma_enc_dec_bytes, put_bytes,
    take_bytes,
};
use crate::proofs::MerkleProof;
use crate::uint::U256;
use vstd::prelude::*;

verus! {

/// A structure containing a Celestia Blob and its corresponding proofs
#[derive(Clone, Debug, PartialEq, Eq)]
pub struct OraclePayload {
    /// The Celestia blob data
    pub blob: Vec<u8>,
    /// The data root to verify the proof against
    pub data_root: B256,
    /// The data commitment from Blobstream to verify against
    pub data_commitment: B256,
    /// The Data Root Tuple Inclusion proof
    pub data_root_tuple_proof: MerkleProof,
    /// The proof for the blob's inclusion, as `celestia_types` encodes it
    pub share_proof: Vec<u8>,
    /// The proof_nonce in blobstream
    pub proof_nonce: U256,
    /// The storage root to verify against
    pub storage_root: B256,
    /// The storage proof for the state_dataCommitments mapping slot in Blobstream
    pub storage_proof: Vec<Vec<u8>>,
    /// The account proof for the blobstream address
    pub account_proof: Vec<Vec<u8>>,
    /// The balance to verify against the blobstream address
    pub blobstream_balance: U256,
    /// The nonce to verify against the blobstream address
    pub blobstream_nonce: u64,
    /// The code hash to verify against the blobstream address
    pub blobstream_code_hash: B256,
    /// The RLP encoding of the block header corresponding to L1 head. This
    /// header must be hashed and verified against the l1Head to be securely used.
    pub block_header: Vec<u8>,
}

/// A payload as a mathematical value.
pub struct PayloadView {
    pub blob: Seq<u8>,
    pub bundle: ProofView,
}

impl View for OraclePayload {
    type V = PayloadView;

    open spec fn view(&self) -> PayloadView {
        PayloadView {
            blob: self.blob@,
            bundle: ProofView {
                data_root: self.data_root@,
                data_commitment: self.data_commitment@,
                data_root_tuple_proof: self.data_root_tuple_proof@,
                share_proof: self.share_proof@,
                proof_nonce: self.proof_nonce.be@,
                storage_root: self.storage_root@,
                storage_proof: items_view(self.storage_proof@),
                account_proof: items_view(self.account_proof@),
                blobstream_balance: self.blobstream_balance.be@,
                blobstream_nonce: self.blobstream_nonce,
                blobstream_code_hash: self.blobstream_code_hash@,
                block_header: self.block_header@,
            },
        }
    }
}

impl PayloadView {
    /// Whether the payload is the view of some [`OraclePayload`].
    pub open spec fn wf(self) -> bool {
        self.blob.len() <= usize::MAX && self.bundle.wf()
    }

    /// The record: the blob with its length before it, then the bundle's record.
    pub open spec fn encoding(self) -> Seq<u8> {
        enc_bytes(self.blob) + self.bundle.encoding()
    }
}

/// The bytes of a payload: the version byte, then the record.
pub open spec fn payload_bytes(v: PayloadView) -> Seq<u8> {
    seq![FORMAT_VERSION] + v.encoding()
}

/// Reads a payload off the front of `s`.
pub open spec fn dec_payload(s: Seq<u8>) -> Option<(PayloadView, Seq<u8>)> {
    match dec_bytes(s) {
        Some((blob, s1)) => match dec_proof(s1) {
            Some((bundle, s2)) => Some((PayloadView { blob, bundle }, s2)),
            None => None,
        },
        None => None,
    }
}

/// What decoding `bytes` as a payload gives.
pub open spec fn payload_from_bytes(bytes: Seq<u8>) -> Result<PayloadView, PayloadError> {
    if bytes.len() == 0 {
        Err(PayloadError::Truncated)
    } else if bytes[0] != FORMAT_VERSION {
        Err(PayloadError::UnknownVersion)
    } else {
        match dec_payload(bytes.skip(1)) {
            Some((v, rest)) => if rest.len() == 0 {
                Ok(v)
            } else {
                Err(PayloadError::TrailingBytes)
            },
            None => Err(PayloadError::Truncated),
        }
    }
}

/// Decoding the bytes of a payload gives the payload back.
pub proof fn lemma_payload_round_trip(v: PayloadView)
    requires
        v.wf(),
    ensures
        payload_from_bytes(payload_bytes(v)) == Ok::<PayloadView, PayloadError>(v),
{
    let s1 = v.bundle.encoding() + Seq::<u8>::empty();
    assert(payload_bytes(v).skip(1) =~= enc_bytes(v.blob) + s1);
    lemma_dec_enc_bytes(v.blob, s1);
    lemma_dec_enc_proof(v.bundle, Seq::empty());
}

/// The format is canonical: bytes that decode as a payload are the payload's
/// own bytes, so no two byte strings stand for the same payload.
pub proof fn lemma_payload_bytes_canonical(bytes: Seq<u8>)
    requires
        payload_from_bytes(bytes) is Ok,
    ensures
        payload_bytes(payload_from_bytes(bytes).unwrap()) == bytes,
{
    let body = bytes.skip(1);
    lemma_enc_dec_bytes(body);
    let after = dec_bytes(body).unwrap().1;
    lemma_enc_dec_proof(after);
    let v = payload_from_bytes(bytes).unwrap();
    assert(v.bundle.encoding() + Seq::<u8>::empty() =~= v.bundle.encoding());
    assert(seq![FORMAT_VERSION] + body =~= bytes);
}

/// Two payloads with the same bytes are the same payload.
pub proof fn lemma_payload_bytes_injective(a: PayloadView, b: PayloadView)
    requires
        a.wf(),
        b.wf(),
        payload_bytes(a) == payload_bytes(b),
    ensures
        a == b,
{
    lemma_payload_round_trip(a);
    lemma_payload_round_trip(b);
}

impl OraclePayload {
    /// Create a new OraclePayload instance
    pub fn new(
        blob: Vec<u8>,
        data_root: B256,
        data_commitment: B256,
        data_root_tuple_proof: MerkleProof,
        share_proof: Vec<u8>,
        proof_nonce: U256,
        storage_root: B256,
        storage_proof: Vec<Vec<u8>>,
        account_proof: Vec<Vec<u8>>,
        blobstream_balance: U256,
        blobstream_nonce: u64,
        blobstream_code_hash: B256,
        block_header: Vec<u8>,
    ) -> (r: Self)
        ensures
            r.blob == blob,
            r.data_root == data_root,
            r.data_commitment == data_commitment,
            r.data_root_tuple_proof == data_root_tuple_proof,
            r.share_proof == share_proof,
            r.proof_nonce == proof_nonce,
            r.storage_root == storage_root,
            r.storage_proof == storage_proof,
            r.account_proof == account_proof,
            r.blobstream_balance == blobstream_balance,
            r.blobstream_nonce == blobstream_nonce,
            r.blobstream_code_hash == blobstream_code_hash,
            r.block_header == block_header,
    {
        Self {
            blob,
            data_root,
            data_commitment,
            data_root_tuple_proof,
            share_proof,
            proof_nonce,
            storage_root,
            storage_proof,
            account_proof,
            blobstream_balance,
            blobstream_nonce,
            blobstream_code_hash,
            block_header,
        }
    }

    /// The payload that holds `blob` and the proofs of `bundle`.
    pub fn from_parts(blob: Vec<u8>, bundle: BlobstreamProof) -> (r: Self)
        ensures
            r@ == (PayloadView { blob: blob@, bundle: bundle@ }),
    {
        Self {
            blob,
            data_root: bundle.data_root,
            data_commitment: bundle.data_commitment,
            data_root_tuple_proof: bundle.data_root_tuple_proof,
            share_proof: bundle.share_proof,
            proof_nonce: bundle.proof_nonce,
            storage_root: bundle.storage_root,
            storage_proof: bundle.storage_proof,
            account_proof: bundle.account_proof,
            blobstream_balance: bundle.blobstream_balance,
            blobstream_nonce: bundle.blobstream_nonce,
            blobstream_code_hash: bundle.blobstream_code_hash,
            block_header: bundle.block_header,
        }
    }

    /// The payload's blob and its proof bundle.
    pub fn into_parts(self) -> (r: (Vec<u8>, BlobstreamProof))
        ensures
            self@ == (PayloadView { blob: r.0@, bundle: r.1@ }),
    {
        let bundle = BlobstreamProof {
            data_root: self.data_root,
            data_commitment: self.data_commitment,
            data_root_tuple_proof: self.data_root_tuple_proof,
            share_proof: self.share_proof,
            proof_nonce: self.proof_nonce,
            storage_root: self.storage_root,
            storage_proof: self.storage_proof,
            account_proof: self.account_proof,
            blobstream_balance: self.blobstream_balance,
            blobstream_nonce: self.blobstream_nonce,
            blobstream_code_hash: self.blobstream_code_hash,
            block_header: self.block_header,
        };
        (self.blob, bundle)
    }

    /// Every payload held in memory has a view that can be encoded.
    pub proof fn lemma_wf(&self)
        ensures
            self@.wf(),
    {
        assert(self.blob.len() == self.blob@.len());
        let bundle = BlobstreamProof {
            data_root: self.data_root,
            data_commitment: self.data_commitment,
            data_root_tuple_proof: self.data_root_tuple_proof,
            share_proof: self.share_proof,
            proof_nonce: self.proof_nonce,
            storage_root: self.storage_root,
            storage_proof: self.storage_proof,
            account_proof: self.account_proof,
            blobstream_balance: self.blobstream_balance,
            blobstream_nonce: self.blobstream_nonce,
            blobstream_code_hash: self.blobstream_code_hash,
            block_header: self.block_header,
        };
        bundle.lemma_wf();
        assert(bundle@ == self@.bundle);
    }

    /// Serialize the struct to bytes: the version byte, then the record.
    /// Every payload can be serialized.
    pub fn to_bytes(&self) -> (r: Result<Vec<u8>, PayloadError>)
        ensures
            r matches Ok(bytes) && bytes@ == payload_bytes(self@),
    {
        let mut bytes: Vec<u8> = Vec::new();
        bytes.push(FORMAT_VERSION);
        put_bytes(&mut bytes, self.blob.as_slice());
        let ghost mid = bytes@;
        crate::codec::put_word(&mut bytes, &self.data_root);
        crate::codec::put_word(&mut bytes, &self.data_commitment);
        self.data_root_tuple_proof.write(&mut bytes);
        put_bytes(&mut bytes, self.share_proof.as_slice());
        crate::codec::put_word(&mut bytes, &self.proof_nonce.be);
        crate::codec::put_word(&mut bytes, &self.storage_root);
        let ghost mid2 = bytes@;
        crate::codec::put_list(&mut bytes, &self.storage_proof);
        crate::codec::put_list(&mut bytes, &self.account_proof);
        crate::codec::put_word(&mut bytes, &self.blobstream_balance.be);
        crate::codec::put_u64(&mut bytes, self.blobstream_nonce);
        crate::codec::put_word(&mut bytes, &self.blobstream_code_hash);
        put_bytes(&mut bytes, self.block_header.as_slice());
        proof {
            assert(bytes@ =~= mid2 + self@.bundle.encoding_tail());
            assert(bytes@ =~= mid + self@.bundle.encoding());
            assert(bytes@ =~= payload_bytes(self@));
        }
        Ok(bytes)
    }

    /// Deserialize from bytes back into the struct. The bytes must hold the
    /// version byte and one record, and nothing else.
    pub fn from_bytes(bytes: &[u8]) -> (r: Result<Self, PayloadError>)
        ensures
            match r {
                Ok(p) => payload_from_bytes(bytes@) == Ok::<PayloadView, PayloadError>(p@),
                Err(e) => payload_from_bytes(bytes@) == Err::<PayloadView, PayloadError>(e),
            },
    {
        if bytes.len() == 0 {
            return Err(PayloadError::Truncated);
        }
        if bytes[0] != FORMAT_VERSION {
            return Err(PayloadError::UnknownVersion);
        }
        let (blob, at) = match take_bytes(bytes, 1) {
            Some(pair) => pair,
            None => {
                return Err(PayloadError::Truncated);
            },
        };
        match BlobstreamProof::read(bytes, at) {
            Some((bundle, next)) => {
                if next == bytes.len() {
                    Ok(OraclePayload::from_parts(blob, bundle))
                } else {
                    Err(PayloadError::TrailingBytes)
                }
            },
            None => Err(PayloadError::Truncated),
        }
    }
}

/// Serializing a payload and deserializing the bytes gives the payload back:
/// `from_bytes(to_bytes(p)) == p`, for every payload.
pub proof fn lemma_to_bytes_from_bytes(p: OraclePayload)
    ensures
        payload_from_bytes(payload_bytes(p@)) == Ok::<PayloadView, PayloadError>(p@),
{
    p.lemma_wf();
    lemma_payload_round_trip(p@);
}

} // verus!
