//! The oracle-backed Celestia provider: which preimage to ask the oracle
//! for, and what to make of the answer.
use crate::blobstream::{
    data_commitment_outcome, data_root_tuple, encode_data_root_tuple, verify_data_commitment,
    BlobstreamError,
};
use crate::bundle::PayloadError;
use crate::bytes::{
    append, le_repr, le_value, lemma_le_repr_len, push_u64_le, read_u64_le, word_at, B256,
};
use crate::chains::{blobstream_address, canonical_address};
use crate::errors::{PipelineError, PipelineErrorKind};
use crate::keccak::{keccak256, keccak256_digest};
use crate::payload::{payload_from_bytes, OraclePayload, PayloadView};
use crate::preimage::{global_generic_key, global_generic_preimage_key};
use crate::proofs::{check_share_proof, share_proof_accepted};
use vstd::prelude::*;

verus! {

/// The trusted inputs of the fault-proof program that the verifier reads.
#[derive(Clone, Copy, Debug, PartialEq, Eq)]
pub struct BootInfo {
    /// The hash of the L1 head block.
    pub l1_head: B256,
    /// The L2 output root that both parties agree on.
    pub agreed_l2_output_root: B256,
    /// The L2 output root that is claimed.
    pub claimed_l2_output_root: B256,
    /// The number of the L2 block that the claim is about.
    pub claimed_l2_block_number: u64,
    /// The chain id of the L1 that the rollup settles on.
    pub l1_chain_id: u64,
}

/// Which of the proofs in a payload was rejected.
#[derive(Clone, Copy, Debug, PartialEq, Eq, Structural)]
pub enum RejectedProof {
    /// The proof of the Blobstream account in the L1 state.
    Account,
    /// The proof of the data commitment in the Blobstream contract's storage.
    Storage,
    /// The proof of the shares under the data root.
    Share,
    /// The proof of the data root under the data commitment.
    DataRootTuple,
}

/// Why the provider did not return a blob.
#[derive(Clone, Copy, Debug, PartialEq, Eq, Structural)]
pub enum OracleProviderError {
    /// The preimage is not an encoded payload.
    OracleDecode(PayloadError),
    /// No canonical Blobstream address is known for the rollup's L1 chain.
    UnknownChain,
    /// The block header in the payload is not the one of the trusted L1 head.
    HeaderMismatch,
    /// One of the proofs in the payload was rejected.
    ProofVerificationFailed(RejectedProof),
}

impl OracleProviderError {
    /// The words in which the error is reported.
    pub open spec fn text(self) -> Seq<char> {
        match self {
            OracleProviderError::OracleDecode(_) => {
                "Failed to deserialize Celestia Oracle Payload"@
            },
            OracleProviderError::UnknownChain => {
                "No canonical Blobstream address found for chain id"@
            },
            OracleProviderError::HeaderMismatch => BlobstreamError::HeaderMismatch.text(),
            OracleProviderError::ProofVerificationFailed(which) => match which {
                RejectedProof::Account => BlobstreamError::AccountProofFailed.text(),
                RejectedProof::Storage => BlobstreamError::StorageProofFailed.text(),
                RejectedProof::Share => "Share proof verification failed"@,
                RejectedProof::DataRootTuple => "Data root tuple proof verification failed"@,
            },
        }
    }

    /// The words in which the error is reported.
    pub fn message(&self) -> (r: &'static str)
        ensures
            r@ == self.text(),
    {
        match self {
            OracleProviderError::OracleDecode(_) => {
                "Failed to deserialize Celestia Oracle Payload"
            },
            OracleProviderError::UnknownChain => {
                "No canonical Blobstream address found for chain id"
            },
            OracleProviderError::HeaderMismatch => BlobstreamError::HeaderMismatch.message(),
            OracleProviderError::ProofVerificationFailed(which) => match which {
                RejectedProof::Account => BlobstreamError::AccountProofFailed.message(),
                RejectedProof::Storage => BlobstreamError::StorageProofFailed.message(),
                RejectedProof::Share => "Share proof verification failed",
                RejectedProof::DataRootTuple => "Data root tuple proof verification failed",
            },
        }
    }

    /// How the derivation pipeline is to take the error: every error of the
    /// verifier ends the derivation attempt, and none is to be tried again.
    pub fn pipeline_error(&self) -> (r: PipelineErrorKind)
        ensures
            r matches PipelineErrorKind::Critical(PipelineError::Provider(reason)) && reason@
                == self.text(),
    {
        PipelineErrorKind::Critical(PipelineError::Provider(self.message().to_owned()))
    }
}

/// The 40 bytes that stand for a blob: the height in 8 little-endian bytes,
/// then the commitment. They are the body of the hint and the preimage of
/// the oracle key.
pub open spec fn blob_request(height: u64, commitment: Seq<u8>) -> Seq<u8> {
    le_repr(height as nat, 8) + commitment
}

/// The oracle key under which the payload for a blob is stored.
pub open spec fn oracle_key_of(height: u64, commitment: Seq<u8>) -> Seq<u8> {
    global_generic_key(keccak256(blob_request(height, commitment)))
}

/// What a hint body says when it is read as a request for a blob.
pub open spec fn parsed_request(body: Seq<u8>) -> Option<(u64, Seq<u8>)> {
    if body.len() == 40 {
        Some((le_value(body.take(8)) as u64, body.skip(8)))
    } else {
        None
    }
}

/// How the verifier's error names an error of the Blobstream check.
pub open spec fn classified(e: BlobstreamError) -> OracleProviderError {
    match e {
        BlobstreamError::HeaderMismatch => OracleProviderError::HeaderMismatch,
        BlobstreamError::AccountProofFailed => OracleProviderError::ProofVerificationFailed(
            RejectedProof::Account,
        ),
        BlobstreamError::StorageProofFailed => OracleProviderError::ProofVerificationFailed(
            RejectedProof::Storage,
        ),
    }
}

/// What the verifier answers for a decoded payload.
pub open spec fn payload_outcome(
    height: u64,
    payload: PayloadView,
    l1_chain_id: u64,
    l1_head: Seq<u8>,
) -> Result<Seq<u8>, OracleProviderError> {
    let p = payload.bundle;
    match canonical_address(l1_chain_id) {
        None => Err(OracleProviderError::UnknownChain),
        Some(address) => match data_commitment_outcome(
            p.storage_root,
            p.storage_proof,
            p.account_proof,
            crate::bytes::be_value(p.proof_nonce),
            p.data_commitment,
            address,
            p.blobstream_balance,
            p.blobstream_nonce,
            p.blobstream_code_hash,
            p.block_header,
            l1_head,
        ) {
            Err(e) => Err(classified(e)),
            Ok(_) => if !share_proof_accepted(p.share_proof, p.data_root) {
                Err(OracleProviderError::ProofVerificationFailed(RejectedProof::Share))
            } else if !p.data_root_tuple_proof.holds(
                data_root_tuple(height, p.data_root),
                p.data_commitment,
            ) {
                Err(OracleProviderError::ProofVerificationFailed(RejectedProof::DataRootTuple))
            } else {
                Ok(payload.blob)
            },
        },
    }
}

/// What the verifier answers for the preimage that the oracle served.
pub open spec fn preimage_outcome(
    height: u64,
    preimage: Seq<u8>,
    l1_chain_id: u64,
    l1_head: Seq<u8>,
) -> Result<Seq<u8>, OracleProviderError> {
    match payload_from_bytes(preimage) {
        Err(e) => Err(OracleProviderError::OracleDecode(e)),
        Ok(payload) => payload_outcome(height, payload, l1_chain_id, l1_head),
    }
}

/// Whether `answer` is what `outcome` says.
pub open spec fn answers(
    answer: Result<Vec<u8>, OracleProviderError>,
    outcome: Result<Seq<u8>, OracleProviderError>,
) -> bool {
    match answer {
        Ok(blob) => outcome == Ok::<Seq<u8>, OracleProviderError>(blob@),
        Err(e) => outcome == Err::<Seq<u8>, OracleProviderError>(e),
    }
}

/// The 40 bytes that stand for the blob with this height and commitment.
pub fn encode_blob_request(height: u64, commitment: &B256) -> (r: Vec<u8>)
    ensures
        r@ == blob_request(height, commitment@),
        r@.len() == 40,
{
    let mut encoded: Vec<u8> = Vec::new();
    push_u64_le(&mut encoded, height);
    append(&mut encoded, commitment.as_slice());
    proof {
        lemma_le_repr_len(height as nat, 8);
    }
    encoded
}

/// Reads a hint body as a request for a blob: the height and the commitment,
/// where the body has 40 bytes, and nothing otherwise.
pub fn parse_blob_request(body: &[u8]) -> (r: Option<(u64, B256)>)
    ensures
        match r {
            Some((height, commitment)) => parsed_request(body@) == Some((height, commitment@)),
            None => parsed_request(body@) is None,
        },
{
    if body.len() != 40 {
        return None;
    }
    let height = read_u64_le(body, 0);
    let commitment = word_at(body, 8);
    proof {
        assert(body@.take(8) =~= body@.subrange(0, 8));
        assert(body@.skip(8) =~= body@.subrange(8, 40));
        crate::bytes::lemma_le_value_u64(body@.take(8));
    }
    Some((height, commitment))
}

/// A request that was encoded is parsed as what it was made of.
pub proof fn lemma_request_round_trip(height: u64, commitment: Seq<u8>)
    requires
        commitment.len() == 32,
    ensures
        parsed_request(blob_request(height, commitment)) == Some((height, commitment)),
{
    let body = blob_request(height, commitment);
    lemma_le_repr_len(height as nat, 8);
    crate::bytes::lemma_u64_fits(height);
    crate::bytes::lemma_le_value_of_repr(height as nat, 8);
    assert(body.take(8) =~= le_repr(height as nat, 8));
    assert(body.skip(8) =~= commitment);
}

/// The oracle key for the blob with this height and commitment: the
/// Keccak-256 digest of the 40-byte request, with the key type in its first byte.
pub fn oracle_key(height: u64, commitment: &B256) -> (r: B256)
    ensures
        r@ == oracle_key_of(height, commitment@),
{
    let encoded = encode_blob_request(height, commitment);
    let digest = keccak256_digest(encoded.as_slice());
    global_generic_preimage_key(&digest)
}

/// The oracle key depends on the height and the commitment alone: two keys
/// made for the same pair are the same key.
pub proof fn lemma_oracle_key_deterministic(
    height: u64,
    commitment: Seq<u8>,
    first: Seq<u8>,
    second: Seq<u8>,
)
    requires
        first == oracle_key_of(height, commitment),
        second == oracle_key_of(height, commitment),
    ensures
        first == second,
{
}

/// Names an error of the Blobstream check as the verifier reports it.
pub fn classify(e: BlobstreamError) -> (r: OracleProviderError)
    ensures
        r == classified(e),
{
    match e {
        BlobstreamError::HeaderMismatch => OracleProviderError::HeaderMismatch,
        BlobstreamError::AccountProofFailed => OracleProviderError::ProofVerificationFailed(
            RejectedProof::Account,
        ),
        BlobstreamError::StorageProofFailed => OracleProviderError::ProofVerificationFailed(
            RejectedProof::Storage,
        ),
    }
}

/// Checks a decoded payload against the trusted boot info and gives its blob
/// where every check passes.
///
/// The checks, in this order: a canonical Blobstream address is known for the
/// L1 chain; the data commitment is in the L1 state at the trusted head; the
/// share proof holds under the data root; the data root tuple is under the
/// data commitment. The first that fails names the error. The blob is handed
/// back as the payload carries it.
pub fn verify_payload(
    height: u64,
    payload: OraclePayload,
    boot: &BootInfo,
) -> (r: Result<Vec<u8>, OracleProviderError>)
    ensures
        answers(r, payload_outcome(height, payload@, boot.l1_chain_id, boot.l1_head@)),
{
    let expected_blobstream_address = match blobstream_address(boot.l1_chain_id) {
        Some(address) => address,
        None => {
            return Err(OracleProviderError::UnknownChain);
        },
    };
    let (blob, bundle) = payload.into_parts();
    let data_root = bundle.data_root;
    let data_commitment = bundle.data_commitment;
    match verify_data_commitment(
        bundle.storage_root,
        bundle.storage_proof,
        bundle.account_proof,
        bundle.proof_nonce,
        bundle.data_commitment,
        expected_blobstream_address,
        bundle.blobstream_balance,
        bundle.blobstream_nonce,
        bundle.blobstream_code_hash,
        bundle.block_header,
        boot.l1_head,
    ) {
        Ok(_) => {},
        Err(e) => {
            return Err(classify(e));
        },
    }
    if !check_share_proof(bundle.share_proof.as_slice(), &data_root) {
        return Err(OracleProviderError::ProofVerificationFailed(RejectedProof::Share));
    }
    let encoded_data_root_tuple = encode_data_root_tuple(height, &data_root);
    if !bundle.data_root_tuple_proof.verify(encoded_data_root_tuple.as_slice(), &data_commitment) {
        return Err(OracleProviderError::ProofVerificationFailed(RejectedProof::DataRootTuple));
    }
    Ok(blob)
}

/// Decodes the preimage that the oracle served for a blob request and checks
/// it: the blob where the payload decodes and every check passes, and else
/// the error of the first step that failed.
pub fn blob_from_preimage(
    height: u64,
    preimage: &[u8],
    boot: &BootInfo,
) -> (r: Result<Vec<u8>, OracleProviderError>)
    ensures
        answers(r, preimage_outcome(height, preimage@, boot.l1_chain_id, boot.l1_head@)),
{
    match OraclePayload::from_bytes(preimage) {
        Ok(payload) => verify_payload(height, payload, boot),
        Err(e) => Err(OracleProviderError::OracleDecode(e)),
    }
}

/// A storage proof that is not accepted is reported as such: where the
/// chain is known, the header is the trusted one and the account proof is
/// accepted, and the storage proof is not, the verifier returns no blob but
/// the error of the storage proof, whose words name it.
pub proof fn lemma_rejected_storage_proof_is_reported(
    height: u64,
    payload: PayloadView,
    l1_chain_id: u64,
    l1_head: Seq<u8>,
)
    requires
        canonical_address(l1_chain_id) is Some,
        data_commitment_outcome(
            payload.bundle.storage_root,
            payload.bundle.storage_proof,
            payload.bundle.account_proof,
            crate::bytes::be_value(payload.bundle.proof_nonce),
            payload.bundle.data_commitment,
            canonical_address(l1_chain_id).unwrap(),
            payload.bundle.blobstream_balance,
            payload.bundle.blobstream_nonce,
            payload.bundle.blobstream_code_hash,
            payload.bundle.block_header,
            l1_head,
        ) == Err::<(), BlobstreamError>(BlobstreamError::StorageProofFailed),
    ensures
        payload_outcome(height, payload, l1_chain_id, l1_head) == Err::<
            Seq<u8>,
            OracleProviderError,
        >(OracleProviderError::ProofVerificationFailed(RejectedProof::Storage)),
        OracleProviderError::ProofVerificationFailed(RejectedProof::Storage).text()
            == "Storage proof verification failed"@,
{
}

/// The verifier is deterministic: two answers to the same preimage under the
/// same boot info are the same blob or the same error.
pub proof fn lemma_verifier_deterministic(
    height: u64,
    preimage: Seq<u8>,
    l1_chain_id: u64,
    l1_head: Seq<u8>,
    first: Result<Vec<u8>, OracleProviderError>,
    second: Result<Vec<u8>, OracleProviderError>,
)
    requires
        answers(first, preimage_outcome(height, preimage, l1_chain_id, l1_head)),
        answers(second, preimage_outcome(height, preimage, l1_chain_id, l1_head)),
    ensures
        first is Ok <==> second is Ok,
        first matches Ok(a) ==> second matches Ok(b) && a@ == b@,
        first matches Err(e) ==> second == Err::<Vec<u8>, OracleProviderError>(e),
{
}

/// A request for a blob, before anything was sent to the oracle.
#[derive(Clone, Copy, Debug, PartialEq, Eq)]
pub struct BlobRequest {
    /// The height of the Celestia block that holds the blob.
    pub height: u64,
    /// The blob's commitment.
    pub commitment: B256,
}

/// A request whose hint was sent: only now may the oracle be asked for the
/// preimage, so only this type gives the key.
#[derive(Clone, Copy, Debug, PartialEq, Eq)]
pub struct HintedRequest {
    request: BlobRequest,
}

/// A request whose preimage was served and decoded: what is left is to hold
/// the payload against the boot info.
#[derive(Clone, Debug, PartialEq, Eq)]
pub struct DecodedRequest {
    height: u64,
    payload: OraclePayload,
}

impl BlobRequest {
    /// The request for the blob with this height and commitment.
    pub fn new(height: u64, commitment: B256) -> (r: Self)
        ensures
            r.height == height,
            r.commitment == commitment,
    {
        BlobRequest { height, commitment }
    }

    /// The body of the hint to send first.
    pub fn hint(&self) -> (r: Vec<u8>)
        ensures
            r@ == blob_request(self.height, self.commitment@),
    {
        encode_blob_request(self.height, &self.commitment)
    }

    /// Records that the hint was sent.
    pub fn hinted(self) -> (r: HintedRequest)
        ensures
            r.request() == self,
    {
        HintedRequest { request: self }
    }
}

impl HintedRequest {
    /// The request that was hinted.
    pub closed spec fn request(&self) -> BlobRequest {
        self.request
    }

    /// The key to ask the oracle for.
    pub fn key(&self) -> (r: B256)
        ensures
            r@ == oracle_key_of(self.request().height, self.request().commitment@),
    {
        oracle_key(self.request.height, &self.request.commitment)
    }

    /// Decodes the preimage that the oracle served.
    pub fn decode(self, preimage: &[u8]) -> (r: Result<DecodedRequest, OracleProviderError>)
        ensures
            match r {
                Ok(decoded) => decoded.height() == self.request().height && payload_from_bytes(
                    preimage@,
                ) == Ok::<PayloadView, PayloadError>(decoded.payload()@),
                Err(e) => e matches OracleProviderError::OracleDecode(cause) && payload_from_bytes(
                    preimage@,
                ) == Err::<PayloadView, PayloadError>(cause),
            },
    {
        match OraclePayload::from_bytes(preimage) {
            Ok(payload) => Ok(DecodedRequest { height: self.request.height, payload }),
            Err(e) => Err(OracleProviderError::OracleDecode(e)),
        }
    }
}

impl DecodedRequest {
    /// The height that was asked for.
    pub closed spec fn height(&self) -> u64 {
        self.height
    }

    /// The payload that was served.
    pub closed spec fn payload(&self) -> OraclePayload {
        self.payload
    }

    /// Holds the payload against the boot info, as [`verify_payload`] does.
    pub fn verify(self, boot: &BootInfo) -> (r: Result<Vec<u8>, OracleProviderError>)
        ensures
            answers(
                r,
                payload_outcome(self.height(), self.payload()@, boot.l1_chain_id, boot.l1_head@),
            ),
    {
        verify_payload(self.height, self.payload, boot)
    }
}

/// Going through the three steps of a request answers as
/// [`blob_from_preimage`] does for the request's height.
pub proof fn lemma_steps_answer(
    request: BlobRequest,
    preimage: Seq<u8>,
    boot: BootInfo,
    decoded: Result<DecodedRequest, OracleProviderError>,
)
    requires
        match decoded {
            Ok(d) => d.height() == request.height && payload_from_bytes(preimage) == Ok::<
                PayloadView,
                PayloadError,
            >(d.payload()@),
            Err(e) => e matches OracleProviderError::OracleDecode(cause) && payload_from_bytes(
                preimage,
            ) == Err::<PayloadView, PayloadError>(cause),
        },
    ensures
        match decoded {
            Ok(d) => payload_outcome(d.height(), d.payload()@, boot.l1_chain_id, boot.l1_head@)
                == preimage_outcome(request.height, preimage, boot.l1_chain_id, boot.l1_head@),
            Err(e) => preimage_outcome(request.height, preimage, boot.l1_chain_id, boot.l1_head@)
                == Err::<Seq<u8>, OracleProviderError>(e),
        },
{
}

} // verus!
