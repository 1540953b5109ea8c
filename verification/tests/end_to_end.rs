//! The verifier and the host on a payload built from real tries, a real data
//! square and a real Merkle tree.
use alloy_consensus::Header;
use alloy_primitives::{keccak256, B256};
use alloy_trie::proof::ProofRetainer;
use alloy_trie::{HashBuilder, Nibbles, TrieAccount};
use celestia_types::nmt::Namespace;
use celestia_types::{Blob, DataAvailabilityHeader, ExtendedDataSquare, ShareProof};
use hana::assembly::{assemble_blobstream_proof, AccountProofResponse, HostError, ProofMaterial};
use hana::blobstream::{
    calculate_mapping_slot, encode_data_root_tuple, verify_data_commitment, BlobstreamError,
    SP1BlobstreamDataCommitmentStored, DATA_COMMITMENTS_SLOT,
};
use hana::bundle::PayloadError;
use hana::chains::blobstream_address;
use hana::payload::OraclePayload;
use hana::proofs::MerkleProof;
use hana::provider::{
    blob_from_preimage, oracle_key, verify_payload, BlobRequest, BootInfo, OracleProviderError,
    RejectedProof,
};
use hana::trie::read_item;
use hana::uint::U256;

const HEIGHT: u64 = 3_141_592;

struct Fixture {
    blob: Vec<u8>,
    material: ProofMaterial,
    boot: BootInfo,
}

fn share_proof_for(data: &[u8]) -> (Vec<u8>, [u8; 32]) {
    let namespace = Namespace::new_v0(&[0x42]).unwrap();
    let blob = Blob::new(namespace, data.to_vec(), None).unwrap();
    let blob_shares = blob.to_shares().unwrap();
    assert_eq!(blob_shares.len(), 3);
    let mut ods: Vec<Vec<u8>> = blob_shares.iter().map(|share| share.as_ref().to_vec()).collect();
    let mut padding = Namespace::TAIL_PADDING.as_bytes().to_vec();
    padding.resize(512, 0);
    ods.push(padding);
    let eds = ExtendedDataSquare::from_ods(ods).unwrap();
    let dah = DataAvailabilityHeader::from_eds(&eds);

    let mut shares = Vec::new();
    shares.push(*eds.share(0, 0).unwrap().data());
    shares.push(*eds.share(0, 1).unwrap().data());
    shares.push(*eds.share(1, 0).unwrap().data());
    let first_row = eds.row_nmt(0).unwrap().get_namespace_proof(*namespace);
    let second_row = eds.row_nmt(1).unwrap().get_namespace_proof(*namespace);
    let share_proof = ShareProof {
        data: shares,
        namespace_id: namespace,
        share_proofs: vec![first_row.into(), second_row.into()],
        row_proof: dah.row_proof(0..=1).unwrap(),
    };
    share_proof.verify(dah.hash()).unwrap();
    let mut data_root = [0u8; 32];
    data_root.copy_from_slice(dah.hash().as_bytes());
    (bincode::serialize(&share_proof).unwrap(), data_root)
}

fn trie_with_proof(target: B256, value: Vec<u8>) -> (B256, Vec<Vec<u8>>) {
    let target_path = Nibbles::unpack(target);
    let mut leaves: Vec<(Nibbles, Vec<u8>)> = vec![(target_path, value)];
    for i in 0..40u8 {
        let other = Nibbles::unpack(keccak256([i, 0xee]));
        leaves.push((other, vec![i, 1, 2, 3]));
    }
    leaves.sort_by_key(|leaf| leaf.0);
    let mut builder =
        HashBuilder::default().with_proof_retainer(ProofRetainer::new(vec![target_path]));
    for (path, leaf) in &leaves {
        builder.add_leaf(*path, leaf);
    }
    let root = builder.root();
    let nodes = builder
        .take_proof_nodes()
        .matching_nodes_sorted(&target_path)
        .into_iter()
        .map(|(_, node)| node.to_vec())
        .collect();
    (root, nodes)
}

fn trimmed_rlp(word: &[u8; 32]) -> Vec<u8> {
    let start = word.iter().position(|byte| *byte != 0).unwrap_or(32);
    alloy_rlp::encode(&word[start..])
}

fn fixture_with(chain_id: u64, commitment_override: Option<[u8; 32]>) -> Fixture {
    let blob = vec![7u8; 1000];
    let (share_proof, data_root) = share_proof_for(&blob);

    // The Blobstream tree over four Celestia heights, ours the third.
    let leaves: Vec<Vec<u8>> = (0..4u64)
        .map(|i| {
            let root = if i == 2 { data_root } else { [i as u8; 32] };
            encode_data_root_tuple(HEIGHT - 2 + i, &root)
        })
        .collect();
    let (tuple_proof, tree_root) = celestia_types::MerkleProof::new(2, &leaves).unwrap();
    let data_commitment = commitment_override.unwrap_or(tree_root);

    // The contract's storage, with the commitment under its nonce.
    let proof_nonce = U256::from_u64(77);
    let slot = calculate_mapping_slot(DATA_COMMITMENTS_SLOT, proof_nonce);
    let (storage_root, storage_nodes) =
        trie_with_proof(keccak256(slot), trimmed_rlp(&data_commitment));

    // The state, with the contract's account.
    let address = blobstream_address(chain_id).unwrap_or([0x11; 20]);
    let code = vec![0x60u8, 0x80, 0x60, 0x40];
    let balance = alloy_primitives::U256::from(123_456_789u64);
    let account = TrieAccount::new(5, balance, storage_root, keccak256(&code));
    let (state_root, account_nodes) = trie_with_proof(keccak256(address), alloy_rlp::encode(account));

    let header = Header { state_root, number: 21_000_000, gas_limit: 30_000_000, ..Default::default() };
    let l1_head = header.hash_slow().0;

    let material = ProofMaterial {
        chain_id,
        l1_head,
        block_header: alloy_rlp::encode(&header),
        height: HEIGHT,
        data_root,
        blobstream_balance: U256::from_be_bytes(balance.to_be_bytes::<32>()),
        blobstream_code: code,
        blobstream_nonce: 5,
        share_proof,
        event: Some(SP1BlobstreamDataCommitmentStored {
            proof_nonce,
            start_block: HEIGHT - 2,
            end_block: HEIGHT + 2,
            data_commitment,
        }),
        data_root_tuple_proof: MerkleProof {
            index: tuple_proof.index,
            total: tuple_proof.total,
            leaf_hash: tuple_proof.leaf_hash,
            aunts: tuple_proof.aunts.clone(),
        },
        proof_response: AccountProofResponse {
            address,
            storage_hash: storage_root.0,
            storage_proof: vec![storage_nodes],
            account_proof: account_nodes,
        },
    };
    let boot = BootInfo {
        l1_head,
        agreed_l2_output_root: [1; 32],
        claimed_l2_output_root: [2; 32],
        claimed_l2_block_number: 100,
        l1_chain_id: chain_id,
    };
    Fixture { blob, material, boot }
}

fn fixture() -> Fixture {
    fixture_with(1, None)
}

fn served(fixture: &Fixture) -> OraclePayload {
    let bundle = assemble_blobstream_proof(fixture.material.clone()).unwrap();
    OraclePayload::from_parts(fixture.blob.clone(), bundle)
}

#[test]
fn happy_path_mainnet() {
    let fixture = fixture();
    let payload = served(&fixture);
    let preimage = payload.to_bytes().unwrap();
    assert_eq!(blob_from_preimage(HEIGHT, &preimage, &fixture.boot), Ok(fixture.blob.clone()));
    assert_eq!(verify_payload(HEIGHT, payload, &fixture.boot), Ok(fixture.blob));
}

#[test]
fn request_goes_through_its_steps() {
    let fixture = fixture();
    let preimage = served(&fixture).to_bytes().unwrap();
    let commitment = [0xaa; 32];

    let request = BlobRequest::new(HEIGHT, commitment);
    let body = request.hint();
    assert_eq!(&body[..8], &HEIGHT.to_le_bytes());
    assert_eq!(&body[8..], &commitment);
    let hinted = request.hinted();
    assert_eq!(hinted.key(), oracle_key(HEIGHT, &commitment));
    let decoded = hinted.decode(&preimage).unwrap();
    assert_eq!(decoded.verify(&fixture.boot), Ok(fixture.blob));

    assert_eq!(
        hinted.decode(&preimage[..20]),
        Err(OracleProviderError::OracleDecode(PayloadError::Truncated))
    );
    let mut wrong_head = fixture.boot;
    wrong_head.l1_head = [0; 32];
    assert_eq!(
        hinted.decode(&preimage).unwrap().verify(&wrong_head),
        Err(OracleProviderError::HeaderMismatch)
    );
}

#[test]
fn happy_path_on_every_chain_with_a_deployment() {
    for chain_id in [1u64, 42161, 8453, 534352, 11155111, 421614, 84532, 17000] {
        let fixture = fixture_with(chain_id, None);
        let payload = served(&fixture);
        assert_eq!(verify_payload(HEIGHT, payload, &fixture.boot), Ok(fixture.blob));
    }
}

#[test]
fn verifier_is_deterministic() {
    let fixture = fixture();
    let preimage = served(&fixture).to_bytes().unwrap();
    let first = blob_from_preimage(HEIGHT, &preimage, &fixture.boot);
    let second = blob_from_preimage(HEIGHT, &preimage, &fixture.boot);
    assert_eq!(first, second);

    let mut wrong_head = fixture.boot;
    wrong_head.l1_head = [9; 32];
    let first = blob_from_preimage(HEIGHT, &preimage, &wrong_head);
    let second = blob_from_preimage(HEIGHT, &preimage, &wrong_head);
    assert_eq!(first, Err(OracleProviderError::HeaderMismatch));
    assert_eq!(first, second);
}

#[test]
fn storage_proof_tampering() {
    let fixture = fixture();
    let payload = served(&fixture);
    let nodes = payload.storage_proof.len();
    assert!(nodes >= 2);
    for node in 0..nodes {
        for byte in [0usize, payload.storage_proof[node].len() / 2, payload.storage_proof[node].len() - 1] {
            let mut tampered = payload.clone();
            tampered.storage_proof[node][byte] ^= 0x01;
            let preimage = tampered.to_bytes().unwrap();
            assert_eq!(
                blob_from_preimage(HEIGHT, &preimage, &fixture.boot),
                Err(OracleProviderError::ProofVerificationFailed(RejectedProof::Storage))
            );
        }
    }
}

#[test]
fn account_proof_tampering() {
    let fixture = fixture();
    let mut payload = served(&fixture);
    let last = payload.account_proof.len() - 1;
    let end = payload.account_proof[last].len() - 1;
    payload.account_proof[last][end] ^= 0x01;
    assert_eq!(
        verify_payload(HEIGHT, payload, &fixture.boot),
        Err(OracleProviderError::ProofVerificationFailed(RejectedProof::Account))
    );
}

#[test]
fn account_fields_are_part_of_the_proof() {
    let fixture = fixture();
    let mut payload = served(&fixture);
    payload.blobstream_nonce += 1;
    assert_eq!(
        verify_payload(HEIGHT, payload, &fixture.boot),
        Err(OracleProviderError::ProofVerificationFailed(RejectedProof::Account))
    );
    let mut payload = served(&fixture);
    payload.blobstream_code_hash[0] ^= 1;
    assert_eq!(
        verify_payload(HEIGHT, payload, &fixture.boot),
        Err(OracleProviderError::ProofVerificationFailed(RejectedProof::Account))
    );
    let mut payload = served(&fixture);
    payload.blobstream_balance = U256::from_u64(1);
    assert_eq!(
        verify_payload(HEIGHT, payload, &fixture.boot),
        Err(OracleProviderError::ProofVerificationFailed(RejectedProof::Account))
    );
}

#[test]
fn wrong_proof_nonce_fails_the_storage_proof() {
    let fixture = fixture();
    let mut payload = served(&fixture);
    payload.proof_nonce = U256::from_u64(78);
    assert_eq!(
        verify_payload(HEIGHT, payload, &fixture.boot),
        Err(OracleProviderError::ProofVerificationFailed(RejectedProof::Storage))
    );
}

#[test]
fn wrong_header() {
    let fixture = fixture();
    let payload = served(&fixture);
    let mut boot = fixture.boot;
    boot.l1_head[31] ^= 0x80;
    assert_eq!(verify_payload(HEIGHT, payload, &boot), Err(OracleProviderError::HeaderMismatch));

    // Another header, well formed, with the same state root.
    let mut payload = served(&fixture);
    let other = Header { number: 21_000_001, ..Default::default() };
    payload.block_header = alloy_rlp::encode(&other);
    assert_eq!(
        verify_payload(HEIGHT, payload, &fixture.boot),
        Err(OracleProviderError::HeaderMismatch)
    );

    // Bytes that are no header at all.
    let mut payload = served(&fixture);
    payload.block_header = vec![0xde, 0xad];
    assert_eq!(
        verify_payload(HEIGHT, payload, &fixture.boot),
        Err(OracleProviderError::HeaderMismatch)
    );
}

#[test]
fn unknown_chain() {
    let fixture = fixture();
    let payload = served(&fixture);
    let mut boot = fixture.boot;
    boot.l1_chain_id = 12345;
    assert_eq!(verify_payload(HEIGHT, payload, &boot), Err(OracleProviderError::UnknownChain));
}

#[test]
fn another_chain_has_another_address() {
    let fixture = fixture();
    let payload = served(&fixture);
    let mut boot = fixture.boot;
    boot.l1_chain_id = 17000;
    assert_eq!(
        verify_payload(HEIGHT, payload, &boot),
        Err(OracleProviderError::ProofVerificationFailed(RejectedProof::Account))
    );
}

#[test]
fn share_proof_is_checked() {
    let fixture = fixture();
    let mut payload = served(&fixture);
    payload.data_root[0] ^= 1;
    assert_eq!(
        verify_payload(HEIGHT, payload, &fixture.boot),
        Err(OracleProviderError::ProofVerificationFailed(RejectedProof::Share))
    );
    let mut payload = served(&fixture);
    payload.share_proof = vec![1, 2, 3];
    assert_eq!(
        verify_payload(HEIGHT, payload, &fixture.boot),
        Err(OracleProviderError::ProofVerificationFailed(RejectedProof::Share))
    );
    let mut payload = served(&fixture);
    let middle = payload.share_proof.len() / 2;
    payload.share_proof[middle] ^= 0xff;
    assert_eq!(
        verify_payload(HEIGHT, payload, &fixture.boot),
        Err(OracleProviderError::ProofVerificationFailed(RejectedProof::Share))
    );
}

#[test]
fn data_root_tuple_is_checked() {
    let fixture = fixture();
    // Another height gives another tuple.
    let payload = served(&fixture);
    assert_eq!(
        verify_payload(HEIGHT + 1, payload, &fixture.boot),
        Err(OracleProviderError::ProofVerificationFailed(RejectedProof::DataRootTuple))
    );
    let mut payload = served(&fixture);
    payload.data_root_tuple_proof.index = 1;
    assert_eq!(
        verify_payload(HEIGHT, payload, &fixture.boot),
        Err(OracleProviderError::ProofVerificationFailed(RejectedProof::DataRootTuple))
    );
    let mut payload = served(&fixture);
    payload.data_root_tuple_proof.aunts[0][5] ^= 1;
    assert_eq!(
        verify_payload(HEIGHT, payload, &fixture.boot),
        Err(OracleProviderError::ProofVerificationFailed(RejectedProof::DataRootTuple))
    );
    let mut payload = served(&fixture);
    payload.data_root_tuple_proof.total = usize::MAX;
    assert_eq!(
        verify_payload(HEIGHT, payload, &fixture.boot),
        Err(OracleProviderError::ProofVerificationFailed(RejectedProof::DataRootTuple))
    );
}

#[test]
fn malformed_preimage_is_a_decode_error() {
    let fixture = fixture();
    let preimage = served(&fixture).to_bytes().unwrap();
    assert_eq!(
        blob_from_preimage(HEIGHT, &[], &fixture.boot),
        Err(OracleProviderError::OracleDecode(PayloadError::Truncated))
    );
    assert_eq!(
        blob_from_preimage(HEIGHT, &preimage[..preimage.len() - 1], &fixture.boot),
        Err(OracleProviderError::OracleDecode(PayloadError::Truncated))
    );
    let mut longer = preimage.clone();
    longer.push(0);
    assert_eq!(
        blob_from_preimage(HEIGHT, &longer, &fixture.boot),
        Err(OracleProviderError::OracleDecode(PayloadError::TrailingBytes))
    );
    let mut other_version = preimage;
    other_version[0] = 2;
    assert_eq!(
        blob_from_preimage(HEIGHT, &other_version, &fixture.boot),
        Err(OracleProviderError::OracleDecode(PayloadError::UnknownVersion))
    );
}

#[test]
fn commitment_with_leading_zero_bytes_is_proved_in_trimmed_form() {
    let mut commitment = [0u8; 32];
    commitment[30] = 0x12;
    commitment[31] = 0x34;
    let fixture = fixture_with(1, Some(commitment));
    let material = fixture.material;
    let storage_nodes = material.proof_response.storage_proof[0].clone();
    let result = verify_data_commitment(
        material.proof_response.storage_hash,
        storage_nodes,
        material.proof_response.account_proof.clone(),
        U256::from_u64(77),
        commitment,
        blobstream_address(1).unwrap(),
        material.blobstream_balance,
        material.blobstream_nonce,
        keccak256(&material.blobstream_code).0,
        material.block_header.clone(),
        material.l1_head,
    );
    assert_eq!(result, Ok(()));
}

#[test]
fn all_zero_commitment_is_proved_as_the_empty_string() {
    let fixture = fixture_with(1, Some([0u8; 32]));
    let material = fixture.material;
    let result = verify_data_commitment(
        material.proof_response.storage_hash,
        material.proof_response.storage_proof[0].clone(),
        material.proof_response.account_proof.clone(),
        U256::from_u64(77),
        [0u8; 32],
        blobstream_address(1).unwrap(),
        material.blobstream_balance,
        material.blobstream_nonce,
        keccak256(&material.blobstream_code).0,
        material.block_header.clone(),
        material.l1_head,
    );
    assert_eq!(result, Ok(()));
}

#[test]
fn verify_data_commitment_names_the_first_failure() {
    let fixture = fixture();
    let material = fixture.material;
    let event = material.event.unwrap();
    let call = |storage: Vec<Vec<u8>>, account: Vec<Vec<u8>>, head: [u8; 32]| {
        verify_data_commitment(
            material.proof_response.storage_hash,
            storage,
            account,
            event.proof_nonce,
            event.data_commitment,
            blobstream_address(1).unwrap(),
            material.blobstream_balance,
            material.blobstream_nonce,
            keccak256(&material.blobstream_code).0,
            material.block_header.clone(),
            head,
        )
    };
    let storage = material.proof_response.storage_proof[0].clone();
    let account = material.proof_response.account_proof.clone();
    assert_eq!(call(storage.clone(), account.clone(), material.l1_head), Ok(()));
    assert_eq!(call(vec![], vec![], [0; 32]), Err(BlobstreamError::HeaderMismatch));
    assert_eq!(call(vec![], vec![], material.l1_head), Err(BlobstreamError::AccountProofFailed));
    assert_eq!(call(vec![], account, material.l1_head), Err(BlobstreamError::StorageProofFailed));
}

#[test]
fn host_refuses_what_the_verifier_would_refuse() {
    let good = fixture().material;

    let mut material = good.clone();
    material.chain_id = 12345;
    assert_eq!(assemble_blobstream_proof(material), Err(HostError::UnknownChain));

    let mut material = good.clone();
    material.blobstream_code = vec![];
    assert_eq!(assemble_blobstream_proof(material), Err(HostError::NoCode));

    let mut material = good.clone();
    material.share_proof[10] ^= 0xff;
    assert_eq!(assemble_blobstream_proof(material), Err(HostError::ShareProofFailed));

    let mut material = good.clone();
    material.event = None;
    assert_eq!(assemble_blobstream_proof(material), Err(HostError::NoDataCommitment));

    let mut material = good.clone();
    material.height += 1;
    assert_eq!(assemble_blobstream_proof(material), Err(HostError::DataRootTupleProofFailed));

    let mut material = good.clone();
    material.proof_response.address[0] ^= 1;
    assert_eq!(assemble_blobstream_proof(material), Err(HostError::AddressMismatch));

    let mut material = good.clone();
    material.l1_head[0] ^= 1;
    assert_eq!(
        assemble_blobstream_proof(material),
        Err(HostError::Blobstream(BlobstreamError::HeaderMismatch))
    );

    let mut material = good.clone();
    material.blobstream_nonce = 6;
    assert_eq!(
        assemble_blobstream_proof(material),
        Err(HostError::Blobstream(BlobstreamError::AccountProofFailed))
    );

    let mut material = good.clone();
    material.proof_response.storage_proof = vec![vec![], vec![]];
    assert_eq!(
        assemble_blobstream_proof(material),
        Err(HostError::Blobstream(BlobstreamError::StorageProofFailed))
    );
}

#[test]
fn host_builds_the_bundle_from_what_it_fetched() {
    let fixture = fixture();
    let material = fixture.material.clone();
    let bundle = assemble_blobstream_proof(fixture.material).unwrap();
    let event = material.event.unwrap();
    assert_eq!(bundle.data_root, material.data_root);
    assert_eq!(bundle.data_commitment, event.data_commitment);
    assert_eq!(bundle.proof_nonce, event.proof_nonce);
    assert_eq!(bundle.storage_root, material.proof_response.storage_hash);
    assert_eq!(bundle.storage_proof, material.proof_response.storage_proof[0]);
    assert_eq!(bundle.account_proof, material.proof_response.account_proof);
    assert_eq!(bundle.blobstream_code_hash, keccak256(&material.blobstream_code).0);
    assert_eq!(bundle.block_header, material.block_header);
    assert_eq!(bundle.share_proof, material.share_proof);
}

fn rlp_list(payload: &[u8]) -> Vec<u8> {
    assert!(payload.len() < 56);
    let mut node = vec![0xc0 + payload.len() as u8];
    node.extend_from_slice(payload);
    node
}

#[test]
fn honest_proofs_can_be_walked() {
    let fixture = fixture();
    let (_, bundle) = served(&fixture).into_parts();
    assert!(hana::trie::check_walkable(&bundle.account_proof));
    assert!(hana::trie::check_walkable(&bundle.storage_proof));
    assert!(hana::trie::check_walkable(&vec![]));
    assert_eq!(
        hana::trie::read_node_nibbles(bundle.account_proof.first().unwrap()),
        Some(1)
    );
    let leaf = bundle.account_proof.last().unwrap();
    let walked = bundle.account_proof.len() - 1;
    assert_eq!(hana::trie::read_node_nibbles(leaf), Some(64 - walked));
}

#[test]
fn leaf_with_too_long_a_path_is_no_proof() {
    // A compact path of 33 bytes after its flag byte.
    let mut payload = vec![0x80 + 34, 0x20];
    payload.extend_from_slice(&[0x11; 33]);
    payload.push(0x01);
    let node = rlp_list(&payload);
    assert_eq!(hana::trie::read_node_nibbles(&node), None);
    let root = keccak256(&node).0;
    assert!(!hana::trie::check_trie_proof(&root, &[0x11; 32], vec![0x01], &vec![node.clone()]));

    // An odd path of 65 nibbles.
    let mut payload = vec![0x80 + 33, 0x31];
    payload.extend_from_slice(&[0x11; 32]);
    payload.push(0x01);
    let node = rlp_list(&payload);
    assert_eq!(hana::trie::read_node_nibbles(&node), None);
    let root = keccak256(&node).0;
    assert!(!hana::trie::check_trie_proof(&root, &[0x11; 32], vec![0x01], &vec![node]));
}

#[test]
fn paths_of_more_than_64_nibbles_together_are_no_proof() {
    let leaf = rlp_list(&[0x82, 0x20, 0xab, 0x01]);
    let mut payload = vec![0x80 + 33, 0x00];
    payload.extend_from_slice(&[0x11; 32]);
    payload.push(0xa0);
    payload.extend_from_slice(&keccak256(&leaf).0);
    let mut extension = vec![0xf8, payload.len() as u8];
    extension.extend_from_slice(&payload);
    assert_eq!(hana::trie::read_node_nibbles(&extension), Some(64));
    assert_eq!(hana::trie::read_node_nibbles(&leaf), Some(2));
    let nodes = vec![extension.clone(), leaf];
    assert!(!hana::trie::check_walkable(&nodes));
    let root = keccak256(&extension).0;
    assert!(!hana::trie::check_trie_proof(&root, &[0x11; 32], vec![0x01], &nodes));
}

#[test]
fn nodes_stored_in_place_are_no_proof() {
    // A branch whose first child is an extension stored in place, whose own
    // child is a leaf stored in place.
    let leaf = rlp_list(&[0x20, 0x01]);
    let mut extension_payload = vec![0x11];
    extension_payload.extend_from_slice(&leaf);
    let extension = rlp_list(&extension_payload);
    let mut payload = extension.clone();
    payload.push(0xa0);
    payload.extend_from_slice(&[0x22; 32]);
    payload.extend_from_slice(&[0x80; 15]);
    let branch = rlp_list(&payload);
    assert!(branch.len() >= 32);
    assert!(!hana::trie::check_branch(&branch));
    assert_eq!(hana::trie::read_node_nibbles(&branch), None);
    let root = keccak256(&branch).0;
    assert!(!hana::trie::check_trie_proof(&root, &[0x01; 32], vec![0x01], &vec![branch]));
}

#[test]
fn rlp_items_are_read_canonically() {
    assert_eq!(read_item(&[0x7f], 0), Some((false, 0, 1)));
    assert_eq!(read_item(&[0x80], 0), Some((false, 1, 1)));
    assert_eq!(read_item(&[0x82, 1, 2], 0), Some((false, 1, 3)));
    assert_eq!(read_item(&[0x82, 1], 0), None);
    assert_eq!(read_item(&[0x81, 0x7f], 0), None);
    assert_eq!(read_item(&[0x81, 0x80], 0), Some((false, 1, 2)));
    assert_eq!(read_item(&[0xc0], 0), Some((true, 1, 1)));
    assert_eq!(read_item(&[0x00, 0xc1, 0x05], 1), Some((true, 2, 3)));
    assert_eq!(read_item(&[], 0), None);
    assert_eq!(read_item(&[0x01], 1), None);
    let mut long = vec![0xb8, 56];
    long.extend_from_slice(&[0u8; 56]);
    assert_eq!(read_item(&long, 0), Some((false, 2, 58)));
    long[1] = 55;
    assert_eq!(read_item(&long, 0), None);
    let mut list = vec![0xf9, 0x01, 0x00];
    list.extend_from_slice(&[0u8; 256]);
    assert_eq!(read_item(&list, 0), Some((true, 3, 259)));
    list[1] = 0;
    assert_eq!(read_item(&list, 0), None);
    assert_eq!(read_item(&[0xfa, 1, 0, 0], 0), None);
}

fn replace_all(bytes: &[u8], from: &[u8], to: &[u8]) -> (Vec<u8>, usize) {
    let mut out = Vec::new();
    let mut replaced = 0;
    let mut i = 0;
    while i < bytes.len() {
        if bytes[i..].starts_with(from) {
            out.extend_from_slice(to);
            i += from.len();
            replaced += 1;
        } else {
            out.push(bytes[i]);
            i += 1;
        }
    }
    (out, replaced)
}

#[test]
fn share_proof_for_too_large_a_tree_is_no_proof() {
    let (honest, data_root) = share_proof_for(&vec![7u8; 1000]);
    assert!(hana::proofs::check_share_proof(&honest, &data_root));

    // The same proof with row proofs that speak of a tree of 2^62 leaves.
    let decoded: ShareProof = bincode::deserialize(&honest).unwrap();
    let mut huge = honest.clone();
    let mut patched = 0;
    for row_proof in decoded.row_proof.proofs() {
        assert_eq!(row_proof.total, 8);
        let mut larger = row_proof.clone();
        larger.total = 1 << 62;
        let from = bincode::serialize(row_proof).unwrap();
        let to = bincode::serialize(&larger).unwrap();
        let (next, replaced) = replace_all(&huge, &from, &to);
        huge = next;
        patched += replaced;
    }
    assert_eq!(patched, 2);
    let decoded: ShareProof = bincode::deserialize(&huge).unwrap();
    assert_eq!(decoded.row_proof.proofs()[0].total, 1 << 62);
    assert!(!hana::proofs::check_share_proof(&huge, &data_root));

    let fixture = fixture();
    let mut payload = served(&fixture);
    payload.share_proof = huge;
    assert_eq!(
        verify_payload(HEIGHT, payload, &fixture.boot),
        Err(OracleProviderError::ProofVerificationFailed(RejectedProof::Share))
    );
}
