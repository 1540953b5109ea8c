//! Putting a Blobstream proof together on the host: the checks that the host
//! makes on what it fetched before it serves a payload.
use crate::blobstream::{
    data_commitment_outcome, data_root_tuple, encode_data_root_tuple, verify_data_commitment,
    BlobstreamError, SP1BlobstreamDataCommitmentStored,
};
use crate::bundle::{BlobstreamProof, ProofView};
use crate::bytes::{be_value, bytes_eq, copy_range, Address, B256};
use crate::chains::{blobstream_address, canonical_address};
use crate::codec::items_view;
use crate::inclusion::{calculate_indices, share_range, EventLog, LogWindow, ScanStep};
use crate::keccak::{keccak256, keccak256_digest};
use crate::payload::PayloadView;
use crate::proofs::{check_share_proof, share_proof_accepted, MerkleProof};
use crate::provider::payload_outcome;
use crate::uint::U256;
use vstd::prelude::*;

verus! {

/// Why the host could not put a proof together.
#[derive(Clone, Debug, PartialEq, Eq)]
pub enum HostError {
    /// No canonical Blobstream address is known for the L1 chain.
    UnknownChain,
    /// The Blobstream address has no code at the L1 head.
    NoCode,
    /// The blob does not say where in the square it lies.
    MissingBlobIndex,
    /// The square has no rows, or the share range does not fit in 64 bits.
    InvalidSquare,
    /// The share proof does not hold under the data root.
    ShareProofFailed,
    /// No event of the Blobstream contract covers the Celestia height.
    NoDataCommitment,
    /// The data root tuple is not under the event's data commitment.
    DataRootTupleProofFailed,
    /// The account proof is for another address than the Blobstream contract's.
    AddressMismatch,
    /// The data commitment is not in the L1 state at the head.
    Blobstream(BlobstreamError),
    /// A node did not answer; the text says how.
    Rpc(String),
}

impl HostError {
    /// The words in which the error is reported.
    pub open spec fn text(self) -> Seq<char> {
        match self {
            HostError::UnknownChain => "No canonical Blobstream address found for chain id"@,
            HostError::NoCode => "Error getting blobstream code hash (address has no code)"@,
            HostError::MissingBlobIndex => "Could not get blob index for blobstream proof"@,
            HostError::InvalidSquare => "The data square has no share range for the blob"@,
            HostError::ShareProofFailed => "Share proof verification failed"@,
            HostError::NoDataCommitment => "No matching event found for the given Celestia height"@,
            HostError::DataRootTupleProofFailed => {
                "failed to verify data root tuple inclusion proof"@
            },
            HostError::AddressMismatch => {
                "storage proof address does not match blobstream address"@
            },
            HostError::Blobstream(cause) => cause.text(),
            HostError::Rpc(reason) => reason@,
        }
    }

    /// The words in which the error is reported.
    pub fn message(&self) -> (r: &str)
        ensures
            r@ == self.text(),
    {
        match self {
            HostError::UnknownChain => "No canonical Blobstream address found for chain id",
            HostError::NoCode => "Error getting blobstream code hash (address has no code)",
            HostError::MissingBlobIndex => "Could not get blob index for blobstream proof",
            HostError::InvalidSquare => "The data square has no share range for the blob",
            HostError::ShareProofFailed => "Share proof verification failed",
            HostError::NoDataCommitment => "No matching event found for the given Celestia height",
            HostError::DataRootTupleProofFailed => {
                "failed to verify data root tuple inclusion proof"
            },
            HostError::AddressMismatch => {
                "storage proof address does not match blobstream address"
            },
            HostError::Blobstream(cause) => cause.message(),
            HostError::Rpc(reason) => reason.as_str(),
        }
    }
}

/// What answers for the logs of the L1 chain.
pub trait LogProvider {
    /// Whether `answer` is one that this provider may give when it is asked
    /// for these logs. Each provider says for itself what it may answer; one
    /// that says nothing may answer anything.
    open spec fn may_answer(
        &self,
        address: Address,
        topic0: B256,
        from_block: u64,
        to_block: u64,
        answer: Result<Vec<EventLog>, String>,
    ) -> bool {
        true
    }

    /// The logs that the contract at `address` emitted with the first topic
    /// `topic0` in the blocks from `from_block` to `to_block`, both included.
    fn get_logs(
        &self,
        address: &Address,
        topic0: &B256,
        from_block: u64,
        to_block: u64,
    ) -> (r: Result<Vec<EventLog>, String>)
        ensures
            self.may_answer(*address, *topic0, from_block, to_block, r),
    ;
}

/// Whether `answer` is what the provider may give when it is asked for the
/// `DataCommitmentStored` logs of the contract at `address` in `window`.
pub open spec fn answered<P: LogProvider>(
    provider: P,
    address: Address,
    window: LogWindow,
    answer: Result<Vec<EventLog>, String>,
) -> bool {
    exists|topic0: B256|
        topic0@ == crate::inclusion::event_selector_of() && #[trigger] provider.may_answer(
            address,
            topic0,
            window.start,
            window.end,
            answer,
        )
}

/// Whether a scan back from the block `head` comes to `window`.
pub open spec fn scanned(head: u64, window: LogWindow) -> bool {
    window == crate::inclusion::window_ending_at(window.end) && window.end <= head
}

/// Whether the provider answered for `window`, a window of the scan, with
/// `logs`, the first of which to cover `height` is the event `event`.
pub open spec fn found_in<P: LogProvider>(
    provider: P,
    address: Address,
    head: u64,
    height: u64,
    window: LogWindow,
    logs: Vec<EventLog>,
    event: SP1BlobstreamDataCommitmentStored,
) -> bool {
    let first = crate::inclusion::first_covering(crate::inclusion::logs_view(logs@), height);
    &&& scanned(head, window)
    &&& answered(provider, address, window, Ok::<Vec<EventLog>, String>(logs))
    &&& first < logs@.len()
    &&& crate::inclusion::event_of_log(event, logs@[first]@)
    &&& event.covers(height)
}

/// Whether the provider answered for `window`, the window of the scan that
/// starts at the genesis block, with `logs`, none of which covers `height`.
pub open spec fn missing_at_genesis<P: LogProvider>(
    provider: P,
    address: Address,
    head: u64,
    height: u64,
    window: LogWindow,
    logs: Vec<EventLog>,
) -> bool {
    &&& scanned(head, window)
    &&& window.start == 0
    &&& answered(provider, address, window, Ok::<Vec<EventLog>, String>(logs))
    &&& crate::inclusion::first_covering(crate::inclusion::logs_view(logs@), height) == logs@.len()
}

/// Whether the provider answered for `window`, a window of the scan, with
/// the error `reason`.
pub open spec fn refused_at<P: LogProvider>(
    provider: P,
    address: Address,
    head: u64,
    window: LogWindow,
    reason: String,
) -> bool {
    scanned(head, window) && answered(
        provider,
        address,
        window,
        Err::<Vec<EventLog>, String>(reason),
    )
}

/// Whether `event` is the first covering log of an answer that the provider
/// gave for a window of the scan.
pub open spec fn found<P: LogProvider>(
    provider: P,
    address: Address,
    head: u64,
    height: u64,
    event: SP1BlobstreamDataCommitmentStored,
) -> bool {
    exists|window: LogWindow, logs: Vec<EventLog>| #[trigger]
        found_in(provider, address, head, height, window, logs, event)
}

/// Whether the provider answered for the window of the scan that starts at
/// the genesis block with logs of which none covers `height`.
pub open spec fn missing<P: LogProvider>(
    provider: P,
    address: Address,
    head: u64,
    height: u64,
) -> bool {
    exists|window: LogWindow, logs: Vec<EventLog>| #[trigger]
        missing_at_genesis(provider, address, head, height, window, logs)
}

/// Whether the provider answered for a window of the scan with the error `reason`.
pub open spec fn refused<P: LogProvider>(
    provider: P,
    address: Address,
    head: u64,
    reason: String,
) -> bool {
    exists|window: LogWindow| #[trigger] refused_at(provider, address, head, window, reason)
}

/// Whether `r` is an end that the scan can come to with this provider: an
/// event that is the first covering log of an answer, no event after an
/// answer for the window at the genesis block without a covering log, or an
/// error that the provider gave.
pub open spec fn scan_outcome<P: LogProvider>(
    provider: P,
    address: Address,
    head: u64,
    height: u64,
    r: Result<SP1BlobstreamDataCommitmentStored, HostError>,
) -> bool {
    match r {
        Ok(event) => found(provider, address, head, height, event),
        Err(HostError::NoDataCommitment) => missing(provider, address, head, height),
        Err(HostError::Rpc(reason)) => refused(provider, address, head, reason),
        Err(_) => false,
    }
}

/// Find the data commitment that contains the given Celestia height by
/// parsing event logs, scanning back from the L1 head one window at a time.
///
/// The scan ends with the first covering event of the first window that has
/// one, with `NoDataCommitment` once a window that starts at the genesis
/// block has none, or with the provider's error.
pub fn find_data_commitment<P: LogProvider>(
    celestia_height: u64,
    blobstream_address: Address,
    eth_provider: &P,
    l1_head_block_number: u64,
) -> (r: Result<SP1BlobstreamDataCommitmentStored, HostError>)
    ensures
        r matches Ok(event) ==> event.covers(celestia_height),
        r matches Err(e) ==> e is NoDataCommitment || e is Rpc,
        scan_outcome(
            *eth_provider,
            blobstream_address,
            l1_head_block_number,
            celestia_height,
            r,
        ),
{
    let topic0 = crate::inclusion::event_selector();
    let mut window = LogWindow::first(l1_head_block_number);
    loop
        invariant
            scanned(l1_head_block_number, window),
            topic0@ == crate::inclusion::event_selector_of(),
        decreases window.end,
    {
        let answer = eth_provider.get_logs(&blobstream_address, &topic0, window.start, window.end);
        proof {
            assert(answered(*eth_provider, blobstream_address, window, answer));
        }
        let logs = match answer {
            Ok(logs) => logs,
            Err(e) => {
                proof {
                    assert(refused_at(
                        *eth_provider,
                        blobstream_address,
                        l1_head_block_number,
                        window,
                        e,
                    ));
                }
                return Err(HostError::Rpc(e));
            },
        };
        match window.step(&logs, celestia_height) {
            ScanStep::Found(event) => {
                proof {
                    assert(found_in(
                        *eth_provider,
                        blobstream_address,
                        l1_head_block_number,
                        celestia_height,
                        window,
                        logs,
                        event,
                    ));
                }
                return Ok(event);
            },
            ScanStep::Continue(next) => {
                window = next;
            },
            ScanStep::NoDataCommitment => {
                proof {
                    assert(missing_at_genesis(
                        *eth_provider,
                        blobstream_address,
                        l1_head_block_number,
                        celestia_height,
                        window,
                        logs,
                    ));
                }
                return Err(HostError::NoDataCommitment);
            },
        }
    }
}

/// The code hash of the Blobstream contract: the Keccak-256 digest of its
/// code, and `NoCode` where the address has none.
pub fn blobstream_code_hash(code: &[u8]) -> (r: Result<B256, HostError>)
    ensures
        code@.len() == 0 ==> r == Err::<B256, HostError>(HostError::NoCode),
        code@.len() > 0 ==> (r matches Ok(hash) && hash@ == keccak256(code@)),
{
    if code.len() == 0 {
        Err(HostError::NoCode)
    } else {
        Ok(keccak256_digest(code))
    }
}

/// The share range to ask a proof for: that of [`calculate_indices`], where
/// the blob has an index, the square has rows and the range fits in 64 bits.
pub fn blob_share_range(
    eds_size: u64,
    blob_index: Option<u64>,
    shares_length: u64,
) -> (r: Result<(u64, u64), HostError>)
    ensures
        blob_index is None ==> r == Err::<(u64, u64), HostError>(HostError::MissingBlobIndex),
        blob_index matches Some(index) ==> {
            let range = share_range(eds_size as nat, index as nat, shares_length as nat);
            if eds_size > 0 && range.1 <= u64::MAX {
                (r matches Ok(found) && found.0 == range.0 && found.1 == range.1)
            } else {
                r == Err::<(u64, u64), HostError>(HostError::InvalidSquare)
            }
        },
{
    let index = match blob_index {
        Some(index) => index,
        None => {
            return Err(HostError::MissingBlobIndex);
        },
    };
    if eds_size == 0 {
        return Err(HostError::InvalidSquare);
    }
    proof {
        crate::inclusion::lemma_rows_fit(eds_size as nat, index as nat);
    }
    let start = index - (index / eds_size) * (eds_size / 2);
    if shares_length > u64::MAX - start {
        return Err(HostError::InvalidSquare);
    }
    Ok(calculate_indices(eds_size, index, shares_length))
}

/// What an L1 node answers to `eth_getProof` for one storage slot.
#[derive(Clone, Debug, PartialEq, Eq)]
pub struct AccountProofResponse {
    /// The address that the proof is for.
    pub address: Address,
    /// The storage root of the account.
    pub storage_hash: B256,
    /// One list of trie nodes for each slot that was asked for.
    pub storage_proof: Vec<Vec<Vec<u8>>>,
    /// The trie nodes from the state root to the account.
    pub account_proof: Vec<Vec<u8>>,
}

/// The views of the node lists of the storage proofs.
pub open spec fn proofs_view(proofs: Seq<Vec<Vec<u8>>>) -> Seq<Seq<Seq<u8>>> {
    Seq::new(proofs.len(), |i: int| items_view(proofs[i]@))
}

/// Lists of nodes, one after the other, as one list.
pub open spec fn flattened(proofs: Seq<Seq<Seq<u8>>>) -> Seq<Seq<u8>>
    decreases proofs.len(),
{
    if proofs.len() == 0 {
        Seq::empty()
    } else {
        flattened(proofs.drop_last()) + proofs.last()
    }
}

/// The nodes of all storage proofs in the order in which they came.
pub fn flatten_storage_proofs(storage_proof: &Vec<Vec<Vec<u8>>>) -> (r: Vec<Vec<u8>>)
    ensures
        items_view(r@) == flattened(proofs_view(storage_proof@)),
{
    let ghost all = proofs_view(storage_proof@);
    let mut nodes: Vec<Vec<u8>> = Vec::new();
    let n = storage_proof.len();
    let mut i: usize = 0;
    proof {
        assert(all.take(0) =~= Seq::<Seq<Seq<u8>>>::empty());
        assert(items_view(nodes@) =~= flattened(all.take(0)));
    }
    while i < n
        invariant
            i <= n,
            n == storage_proof@.len(),
            all == proofs_view(storage_proof@),
            items_view(nodes@) == flattened(all.take(i as int)),
        decreases n - i,
    {
        let list = &storage_proof[i];
        let m = list.len();
        let ghost before = items_view(nodes@);
        let mut j: usize = 0;
        proof {
            assert(items_view(list@).take(0) =~= Seq::<Seq<u8>>::empty());
            assert(before + items_view(list@).take(0) =~= before);
        }
        while j < m
            invariant
                j <= m,
                m == list@.len(),
                items_view(nodes@) == before + items_view(list@).take(j as int),
            decreases m - j,
        {
            let ghost so_far = items_view(nodes@);
            let node = copy_range(list[j].as_slice(), 0, list[j].len());
            proof {
                assert(node@ =~= list@[j as int]@);
            }
            nodes.push(node);
            proof {
                assert(items_view(nodes@) =~= so_far.push(node@));
                assert(items_view(list@).take(j + 1) =~= items_view(list@).take(j as int).push(
                    list@[j as int]@,
                ));
            }
            j += 1;
        }
        proof {
            assert(items_view(list@).take(m as int) =~= items_view(list@));
            assert(all.take(i + 1).drop_last() =~= all.take(i as int));
            assert(all.take(i + 1).last() == items_view(list@));
        }
        i += 1;
    }
    proof {
        assert(all.take(n as int) =~= all);
    }
    nodes
}

/// Everything that the host fetched for one blob.
#[derive(Clone, Debug, PartialEq, Eq)]
pub struct ProofMaterial {
    /// The chain id that the L1 node reports.
    pub chain_id: u64,
    /// The hash of the L1 head.
    pub l1_head: B256,
    /// The RLP encoding of the header of the L1 head.
    pub block_header: Vec<u8>,
    /// The Celestia height of the blob.
    pub height: u64,
    /// The data root of the Celestia block at that height.
    pub data_root: B256,
    /// The balance of the Blobstream contract at the L1 head.
    pub blobstream_balance: U256,
    /// The code of the Blobstream contract at the L1 head.
    pub blobstream_code: Vec<u8>,
    /// The nonce of the Blobstream contract at the L1 head.
    pub blobstream_nonce: u64,
    /// The share proof that the Celestia node gave, encoded.
    pub share_proof: Vec<u8>,
    /// The event that covers the height, if the scan found one.
    pub event: Option<SP1BlobstreamDataCommitmentStored>,
    /// The inclusion proof of the data root tuple that the Celestia node gave.
    pub data_root_tuple_proof: MerkleProof,
    /// The L1 node's answer for the event's storage slot.
    pub proof_response: AccountProofResponse,
}

impl ProofMaterial {
    /// The bundle that the material makes, whether or not it would be accepted.
    pub open spec fn bundle(self) -> ProofView {
        ProofView {
            data_root: self.data_root@,
            data_commitment: self.event->0.data_commitment@,
            data_root_tuple_proof: self.data_root_tuple_proof@,
            share_proof: self.share_proof@,
            proof_nonce: self.event->0.proof_nonce.be@,
            storage_root: self.proof_response.storage_hash@,
            storage_proof: flattened(proofs_view(self.proof_response.storage_proof@)),
            account_proof: items_view(self.proof_response.account_proof@),
            blobstream_balance: self.blobstream_balance.be@,
            blobstream_nonce: self.blobstream_nonce,
            blobstream_code_hash: keccak256(self.blobstream_code@),
            block_header: self.block_header@,
        }
    }

    /// What the host makes of the material: the bundle, or the first check that failed.
    pub open spec fn outcome(self) -> Result<ProofView, HostError> {
        match canonical_address(self.chain_id) {
            None => Err(HostError::UnknownChain),
            Some(address) => if self.blobstream_code@.len() == 0 {
                Err(HostError::NoCode)
            } else if !share_proof_accepted(self.share_proof@, self.data_root@) {
                Err(HostError::ShareProofFailed)
            } else if self.event is None {
                Err(HostError::NoDataCommitment)
            } else if !self.data_root_tuple_proof@.holds(
                data_root_tuple(self.height, self.data_root@),
                self.event->0.data_commitment@,
            ) {
                Err(HostError::DataRootTupleProofFailed)
            } else if self.proof_response.address@ != address {
                Err(HostError::AddressMismatch)
            } else {
                let bundle = self.bundle();
                match data_commitment_outcome(
                    bundle.storage_root,
                    bundle.storage_proof,
                    bundle.account_proof,
                    be_value(bundle.proof_nonce),
                    bundle.data_commitment,
                    address,
                    bundle.blobstream_balance,
                    bundle.blobstream_nonce,
                    bundle.blobstream_code_hash,
                    bundle.block_header,
                    self.l1_head@,
                ) {
                    Err(e) => Err(HostError::Blobstream(e)),
                    Ok(_) => Ok(bundle),
                }
            },
        }
    }
}

/// Checks what the host fetched and makes the proof bundle of it.
///
/// The checks, in this order: the chain has a canonical Blobstream address;
/// the contract has code; the share proof holds under the data root; an event
/// covers the height; the data root tuple is under the event's commitment;
/// the L1 node answered for the Blobstream address; the data commitment is in
/// the L1 state at the head. The first that fails names the error.
pub fn assemble_blobstream_proof(material: ProofMaterial) -> (r: Result<BlobstreamProof, HostError>)
    ensures
        match r {
            Ok(bundle) => material.outcome() == Ok::<ProofView, HostError>(bundle@),
            Err(e) => material.outcome() == Err::<ProofView, HostError>(e),
        },
{
    let address = match blobstream_address(material.chain_id) {
        Some(address) => address,
        None => {
            return Err(HostError::UnknownChain);
        },
    };
    let blobstream_code_hash = match blobstream_code_hash(material.blobstream_code.as_slice()) {
        Ok(hash) => hash,
        Err(e) => {
            return Err(e);
        },
    };
    if !check_share_proof(material.share_proof.as_slice(), &material.data_root) {
        return Err(HostError::ShareProofFailed);
    }
    let event = match material.event {
        Some(event) => event,
        None => {
            return Err(HostError::NoDataCommitment);
        },
    };
    let encoded_data_root_tuple = encode_data_root_tuple(material.height, &material.data_root);
    if !material.data_root_tuple_proof.verify(
        encoded_data_root_tuple.as_slice(),
        &event.data_commitment,
    ) {
        return Err(HostError::DataRootTupleProofFailed);
    }
    if !bytes_eq(material.proof_response.address.as_slice(), address.as_slice()) {
        return Err(HostError::AddressMismatch);
    }
    let storage_proof = flatten_storage_proofs(&material.proof_response.storage_proof);
    let storage_nodes = copy_nodes(&storage_proof);
    let account_nodes = copy_nodes(&material.proof_response.account_proof);
    let header = copy_range(material.block_header.as_slice(), 0, material.block_header.len());
    proof {
        assert(header@ =~= material.block_header@);
        assert(crate::trie::nodes_view(storage_nodes@) =~= items_view(storage_nodes@));
        assert(crate::trie::nodes_view(account_nodes@) =~= items_view(account_nodes@));
    }
    match verify_data_commitment(
        material.proof_response.storage_hash,
        storage_nodes,
        account_nodes,
        event.proof_nonce,
        event.data_commitment,
        address,
        material.blobstream_balance,
        material.blobstream_nonce,
        blobstream_code_hash,
        header,
        material.l1_head,
    ) {
        Ok(_) => {},
        Err(e) => {
            return Err(HostError::Blobstream(e));
        },
    }
    let bundle = BlobstreamProof::new(
        material.data_root,
        event.data_commitment,
        material.data_root_tuple_proof,
        material.share_proof,
        event.proof_nonce,
        material.proof_response.storage_hash,
        storage_proof,
        material.proof_response.account_proof,
        material.blobstream_balance,
        material.blobstream_nonce,
        blobstream_code_hash,
        material.block_header,
    );
    Ok(bundle)
}

/// A copy of a list of nodes.
pub fn copy_nodes(nodes: &Vec<Vec<u8>>) -> (r: Vec<Vec<u8>>)
    ensures
        items_view(r@) == items_view(nodes@),
{
    let n = nodes.len();
    let mut copy: Vec<Vec<u8>> = Vec::new();
    let mut i: usize = 0;
    while i < n
        invariant
            i <= n,
            n == nodes@.len(),
            copy@.len() == i,
            forall|j: int| 0 <= j < i ==> copy@[j]@ == nodes@[j]@,
        decreases n - i,
    {
        let node = copy_range(nodes[i].as_slice(), 0, nodes[i].len());
        proof {
            assert(node@ =~= nodes@[i as int]@);
        }
        copy.push(node);
        i += 1;
    }
    assert(items_view(copy@) =~= items_view(nodes@));
    copy
}

/// What the host serves, the verifier accepts: a payload made of a blob and
/// the bundle that the host assembled passes every check of the verifier
/// under the same L1 head and chain id, and the verifier returns the blob.
pub proof fn lemma_served_payload_is_accepted(material: ProofMaterial, blob: Seq<u8>)
    requires
        material.outcome() is Ok,
    ensures
        payload_outcome(
            material.height,
            PayloadView { blob, bundle: material.outcome()->Ok_0 },
            material.chain_id,
            material.l1_head@,
        ) == Ok::<Seq<u8>, crate::provider::OracleProviderError>(blob),
{
}

} // verus!
