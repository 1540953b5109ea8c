//! Oracle keys and blob requests.
use alloy_primitives::keccak256;
use hana::assembly::HostError;
use hana::blobstream::BlobstreamError;
use hana::bundle::PayloadError;
use hana::errors::{PipelineError, PipelineErrorKind};
use hana::host::ConfigError;
use hana::provider::{
    classify, encode_blob_request, oracle_key, parse_blob_request, OracleProviderError,
    RejectedProof,
};

#[test]
fn blob_request_is_height_then_commitment() {
    let commitment = [0xaau8; 32];
    let request = encode_blob_request(3_141_592, &commitment);
    assert_eq!(request.len(), 40);
    assert_eq!(&request[..8], &3_141_592u64.to_le_bytes());
    assert_eq!(&request[..8], &[0xd8, 0xef, 0x2f, 0, 0, 0, 0, 0]);
    assert_eq!(&request[8..], &commitment);
}

#[test]
fn blob_request_round_trip() {
    for height in [0u64, 1, 3_141_592, u64::MAX] {
        let commitment: [u8; 32] = core::array::from_fn(|i| (i as u8).wrapping_mul(7));
        let request = encode_blob_request(height, &commitment);
        assert_eq!(parse_blob_request(&request), Some((height, commitment)));
    }
}

#[test]
fn blob_request_of_another_length_is_refused() {
    assert_eq!(parse_blob_request(&[]), None);
    assert_eq!(parse_blob_request(&[0; 39]), None);
    assert_eq!(parse_blob_request(&[0; 41]), None);
    assert_eq!(parse_blob_request(&[0; 40]), Some((0, [0; 32])));
}

#[test]
fn oracle_key_is_the_tagged_digest_of_the_request() {
    let commitment = [0xaau8; 32];
    let key = oracle_key(3_141_592, &commitment);
    let mut preimage = 3_141_592u64.to_le_bytes().to_vec();
    preimage.extend_from_slice(&commitment);
    let digest = keccak256(&preimage);
    assert_eq!(key[0], 3);
    assert_eq!(&key[1..], &digest[1..]);
}

#[test]
fn oracle_key_is_a_function_of_its_arguments() {
    let a = [1u8; 32];
    let b = [2u8; 32];
    assert_eq!(oracle_key(10, &a), oracle_key(10, &a));
    assert_ne!(oracle_key(10, &a), oracle_key(11, &a));
    assert_ne!(oracle_key(10, &a), oracle_key(10, &b));
}

#[test]
fn blobstream_errors_are_classified() {
    assert_eq!(classify(BlobstreamError::HeaderMismatch), OracleProviderError::HeaderMismatch);
    assert_eq!(
        classify(BlobstreamError::AccountProofFailed),
        OracleProviderError::ProofVerificationFailed(RejectedProof::Account)
    );
    assert_eq!(
        classify(BlobstreamError::StorageProofFailed),
        OracleProviderError::ProofVerificationFailed(RejectedProof::Storage)
    );
}

#[test]
fn errors_are_reported_in_words() {
    assert_eq!(
        BlobstreamError::HeaderMismatch.message(),
        "computed block hash must match host l1 head"
    );
    assert_eq!(
        OracleProviderError::HeaderMismatch.message(),
        BlobstreamError::HeaderMismatch.message()
    );
    assert_eq!(
        OracleProviderError::ProofVerificationFailed(RejectedProof::Storage).message(),
        "Storage proof verification failed"
    );
    assert_eq!(
        OracleProviderError::ProofVerificationFailed(RejectedProof::Account).message(),
        "Account proof verification failed"
    );
    assert_eq!(
        OracleProviderError::ProofVerificationFailed(RejectedProof::Share).message(),
        "Share proof verification failed"
    );
    assert_eq!(
        OracleProviderError::ProofVerificationFailed(RejectedProof::DataRootTuple).message(),
        "Data root tuple proof verification failed"
    );
    assert_eq!(
        OracleProviderError::OracleDecode(PayloadError::Truncated).message(),
        "Failed to deserialize Celestia Oracle Payload"
    );
    assert_eq!(
        OracleProviderError::UnknownChain.message(),
        "No canonical Blobstream address found for chain id"
    );
    assert_eq!(PayloadError::TrailingBytes.message(), "bytes follow the payload's record");
    assert_eq!(PayloadError::Truncated.message(), "the payload ends before its record does");
    assert_eq!(PayloadError::UnknownVersion.message(), "the payload has an unknown format version");
    assert_eq!(HostError::Rpc("node is down".to_string()).message(), "node is down");
    assert_eq!(
        HostError::Blobstream(BlobstreamError::StorageProofFailed).message(),
        "Storage proof verification failed"
    );
    assert_eq!(
        HostError::NoDataCommitment.message(),
        "No matching event found for the given Celestia height"
    );
    assert_eq!(
        HostError::AddressMismatch.message(),
        "storage proof address does not match blobstream address"
    );
    assert_eq!(ConfigError::L1NodeAddress.message(), "Provider must be set");
    assert_eq!(ConfigError::L1BeaconAddress.message(), "Beacon API URL must be set");
    assert_eq!(ConfigError::L2NodeAddress.message(), "L2 node address must be set");
    assert_eq!(ConfigError::CelestiaConnection.message(), "Celestia connection must be set");
    assert_eq!(ConfigError::Namespace.message(), "Celestia Namespace must be set");
}

#[test]
fn verifier_errors_end_the_derivation_attempt() {
    let errors = [
        OracleProviderError::OracleDecode(PayloadError::Truncated),
        OracleProviderError::UnknownChain,
        OracleProviderError::HeaderMismatch,
        OracleProviderError::ProofVerificationFailed(RejectedProof::Account),
        OracleProviderError::ProofVerificationFailed(RejectedProof::Storage),
        OracleProviderError::ProofVerificationFailed(RejectedProof::Share),
        OracleProviderError::ProofVerificationFailed(RejectedProof::DataRootTuple),
    ];
    for error in errors {
        let raised = error.pipeline_error();
        assert!(raised.is_critical());
        assert_eq!(
            raised,
            PipelineErrorKind::Critical(PipelineError::Provider(error.message().to_string()))
        );
    }
}
