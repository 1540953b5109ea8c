//! The host's side of the Blobstream proof: finding the event that covers a
//! Celestia height, and the share range to ask a proof for.
use crate::blobstream::SP1BlobstreamDataCommitmentStored;
use crate::bytes::{be_value, bytes_eq, word_to_u64, B256};
use crate::codec::words_view;
use crate::keccak::{keccak256, keccak256_digest};
use crate::uint::U256;
use vstd::prelude::*;
use vstd::string::StringSliceAdditionalSpecFns;

verus! {

/// The largest number of blocks that one log filter spans: the default limit
/// of common Ethereum nodes.
pub const FILTER_BLOCK_RANGE: u64 = 5000;

/// A log of the Blobstream contract: its topics and its data.
#[derive(Clone, Debug, PartialEq, Eq)]
pub struct EventLog {
    /// The log's topics: the event's signature hash, then the indexed arguments.
    pub topics: Vec<B256>,
    /// The log's data: the arguments that are not indexed.
    pub data: Vec<u8>,
}

/// A log as a mathematical value.
pub struct EventLogView {
    pub topics: Seq<Seq<u8>>,
    pub data: Seq<u8>,
}

impl View for EventLog {
    type V = EventLogView;

    open spec fn view(&self) -> EventLogView {
        EventLogView { topics: words_view(self.topics@), data: self.data@ }
    }
}

/// The views of a list of logs.
pub open spec fn logs_view(logs: Seq<EventLog>) -> Seq<EventLogView> {
    Seq::new(logs.len(), |i: int| logs[i]@)
}

/// The signature of the event that the Blobstream contract emits when it
/// stores a data commitment.
pub open spec fn event_signature() -> Seq<u8> {
    "DataCommitmentStored(uint256,uint64,uint64,bytes32)".spec_bytes()
}

/// The first topic of every `DataCommitmentStored` log.
pub open spec fn event_selector_of() -> Seq<u8> {
    keccak256(event_signature())
}

/// Whether a log is a well-formed `DataCommitmentStored` event: four topics,
/// the first the event's selector, the next two 64-bit numbers, and 32 bytes of data.
pub open spec fn is_stored_event(log: EventLogView) -> bool {
    &&& log.topics.len() == 4
    &&& log.topics[0] == event_selector_of()
    &&& be_value(log.topics[1]) <= u64::MAX
    &&& be_value(log.topics[2]) <= u64::MAX
    &&& log.data.len() == 32
}

/// Whether `event` holds what the log says.
pub open spec fn event_of_log(event: SP1BlobstreamDataCommitmentStored, log: EventLogView) -> bool {
    &&& event.proof_nonce.be@ == log.data
    &&& event.start_block == be_value(log.topics[1])
    &&& event.end_block == be_value(log.topics[2])
    &&& event.data_commitment@ == log.topics[3]
}

/// Whether a log is an event whose range of heights holds `height`.
pub open spec fn log_covers(log: EventLogView, height: u64) -> bool {
    is_stored_event(log) && be_value(log.topics[1]) <= height < be_value(log.topics[2])
}

/// The index of the first log that is an event covering `height`; the number
/// of logs where there is none.
pub open spec fn first_covering(logs: Seq<EventLogView>, height: u64) -> int
    decreases logs.len(),
{
    if logs.len() == 0 {
        0
    } else if log_covers(logs.first(), height) {
        0
    } else {
        1 + first_covering(logs.drop_first(), height)
    }
}

/// Where no log before `i` covers the height, and the one at `i` does or
/// there is none at `i`, `i` is the first covering index.
pub proof fn lemma_first_covering(logs: Seq<EventLogView>, height: u64, i: int)
    requires
        0 <= i <= logs.len(),
        forall|j: int| 0 <= j < i ==> !log_covers(#[trigger] logs[j], height),
        i < logs.len() ==> log_covers(logs[i], height),
    ensures
        first_covering(logs, height) == i,
    decreases logs.len(),
{
    if logs.len() > 0 && i > 0 {
        let tail = logs.drop_first();
        assert(!log_covers(logs[0], height));
        assert forall|j: int| 0 <= j < i - 1 implies !log_covers(#[trigger] tail[j], height) by {
            assert(tail[j] == logs[j + 1]);
        }
        if i - 1 < tail.len() {
            assert(tail[i - 1] == logs[i]);
        }
        lemma_first_covering(tail, height, i - 1);
    }
}

/// The first covering index is in range, its log covers the height, and no
/// log before it does.
pub proof fn lemma_first_covering_is_first(logs: Seq<EventLogView>, height: u64)
    ensures
        0 <= first_covering(logs, height) <= logs.len(),
        first_covering(logs, height) < logs.len() ==> log_covers(
            logs[first_covering(logs, height)],
            height,
        ),
        forall|j: int|
            0 <= j < first_covering(logs, height) ==> !log_covers(#[trigger] logs[j], height),
    decreases logs.len(),
{
    if logs.len() > 0 && !log_covers(logs.first(), height) {
        let tail = logs.drop_first();
        lemma_first_covering_is_first(tail, height);
        let k = first_covering(tail, height);
        if k < tail.len() {
            assert(tail[k] == logs[k + 1]);
        }
        assert forall|j: int| 0 <= j < k + 1 implies !log_covers(#[trigger] logs[j], height) by {
            if j > 0 {
                assert(tail[j - 1] == logs[j]);
            }
        }
    }
}

/// The selector of the `DataCommitmentStored` event: the Keccak-256 digest of its signature.
pub fn event_selector() -> (r: B256)
    ensures
        r@ == event_selector_of(),
{
    let event_signature = "DataCommitmentStored(uint256,uint64,uint64,bytes32)";
    keccak256_digest(event_signature.as_bytes())
}

/// Reads a log as a `DataCommitmentStored` event, given the event's
/// selector. A log of another shape is no event.
pub fn decode_log(
    log: &EventLog,
    selector: &B256,
) -> (r: Option<SP1BlobstreamDataCommitmentStored>)
    requires
        selector@ == event_selector_of(),
    ensures
        r is Some <==> is_stored_event(log@),
        r matches Some(event) ==> event_of_log(event, log@),
{
    if log.topics.len() != 4 || log.data.len() != 32 {
        return None;
    }
    if !bytes_eq(log.topics[0].as_slice(), selector.as_slice()) {
        return None;
    }
    let start_block = match word_to_u64(&log.topics[1]) {
        Some(x) => x,
        None => {
            return None;
        },
    };
    let end_block = match word_to_u64(&log.topics[2]) {
        Some(x) => x,
        None => {
            return None;
        },
    };
    let proof_nonce = U256::from_be_bytes(crate::bytes::word_at(log.data.as_slice(), 0));
    proof {
        assert(log.data@.subrange(0, 32) =~= log.data@);
    }
    Some(
        SP1BlobstreamDataCommitmentStored {
            proof_nonce,
            start_block,
            end_block,
            data_commitment: log.topics[3],
        },
    )
}

/// The first of `logs` that is an event covering `celestia_height`, read as
/// an event; logs that are no events are passed over.
pub fn select_event(
    logs: &Vec<EventLog>,
    celestia_height: u64,
) -> (r: Option<SP1BlobstreamDataCommitmentStored>)
    ensures
        r is Some <==> first_covering(logs_view(logs@), celestia_height) < logs@.len(),
        r matches Some(event) ==> event_of_log(
            event,
            logs@[first_covering(logs_view(logs@), celestia_height)]@,
        ) && event.covers(celestia_height),
{
    let selector = event_selector();
    let n = logs.len();
    let ghost views = logs_view(logs@);
    let mut i: usize = 0;
    while i < n
        invariant
            i <= n,
            n == logs@.len(),
            views == logs_view(logs@),
            selector@ == event_selector_of(),
            forall|j: int| 0 <= j < i ==> !log_covers(#[trigger] views[j], celestia_height),
        decreases n - i,
    {
        match decode_log(&logs[i], &selector) {
            Some(event) => {
                if event.contains(celestia_height) {
                    proof {
                        assert(views[i as int] == logs@[i as int]@);
                        lemma_first_covering(views, celestia_height, i as int);
                    }
                    return Some(event);
                }
            },
            None => {},
        }
        proof {
            assert(views[i as int] == logs@[i as int]@);
        }
        i += 1;
    }
    proof {
        lemma_first_covering(views, celestia_height, n as int);
    }
    None
}

/// A range of L1 blocks whose logs are asked for in one filter: from `start`
/// to `end`, both included.
#[derive(Clone, Copy, Debug, PartialEq, Eq, Structural)]
pub struct LogWindow {
    /// The first block of the range.
    pub start: u64,
    /// The last block of the range.
    pub end: u64,
}

/// The window of at most [`FILTER_BLOCK_RANGE`] blocks back from `end`,
/// which stops at the genesis block.
pub open spec fn window_ending_at(end: u64) -> LogWindow {
    LogWindow {
        start: if end > FILTER_BLOCK_RANGE {
            (end - FILTER_BLOCK_RANGE) as u64
        } else {
            0
        },
        end,
    }
}

/// The number of windows that a scan back from `end` looks at when it finds nothing.
pub open spec fn windows_from(end: u64) -> nat
    decreases end,
{
    if end > FILTER_BLOCK_RANGE {
        1 + windows_from((end - FILTER_BLOCK_RANGE) as u64)
    } else {
        1
    }
}

/// What a scan does after it has looked at the logs of a window.
#[derive(Clone, Copy, Debug, PartialEq, Eq)]
pub enum ScanStep {
    /// The event was found: the scan is over.
    Found(SP1BlobstreamDataCommitmentStored),
    /// Nothing in this window: look at the next one, further back.
    Continue(LogWindow),
    /// Nothing in this window, which reached the genesis block: no event
    /// covers the height.
    NoDataCommitment,
}

impl LogWindow {
    /// The window that a scan back from the L1 head starts with.
    pub fn first(l1_head_block_number: u64) -> (r: Self)
        ensures
            r == window_ending_at(l1_head_block_number),
            l1_head_block_number <= FILTER_BLOCK_RANGE ==> r.start == 0,
            r.start <= r.end,
    {
        let start = if l1_head_block_number > FILTER_BLOCK_RANGE {
            l1_head_block_number - FILTER_BLOCK_RANGE
        } else {
            0
        };
        LogWindow { start, end: l1_head_block_number }
    }

    /// The window before this one, if this one has not reached the genesis block.
    pub fn previous(&self) -> (r: Option<Self>)
        ensures
            self.start == 0 ==> r is None,
            self.start > 0 ==> r == Some(window_ending_at(self.start)),
    {
        if self.start == 0 {
            None
        } else {
            Some(LogWindow::first(self.start))
        }
    }

    /// Decides how the scan goes on after the logs of this window came in:
    /// it ends with the first event among them that covers the height, moves
    /// to the window before, or ends without an event at the genesis block.
    pub fn step(&self, logs: &Vec<EventLog>, celestia_height: u64) -> (r: ScanStep)
        ensures
            match r {
                ScanStep::Found(event) => first_covering(logs_view(logs@), celestia_height)
                    < logs@.len() && event_of_log(
                    event,
                    logs@[first_covering(logs_view(logs@), celestia_height)]@,
                ) && event.covers(celestia_height),
                ScanStep::Continue(next) => first_covering(logs_view(logs@), celestia_height)
                    == logs@.len() && self.start > 0 && next == window_ending_at(self.start),
                ScanStep::NoDataCommitment => first_covering(logs_view(logs@), celestia_height)
                    == logs@.len() && self.start == 0,
            },
    {
        proof {
            lemma_first_covering_is_first(logs_view(logs@), celestia_height);
        }
        match select_event(logs, celestia_height) {
            Some(event) => ScanStep::Found(event),
            None => match self.previous() {
                Some(next) => ScanStep::Continue(next),
                None => ScanStep::NoDataCommitment,
            },
        }
    }
}

/// A scan that starts at a head of at most [`FILTER_BLOCK_RANGE`] blocks
/// looks at one window, which starts at the genesis block.
pub proof fn lemma_short_chain_one_window(l1_head_block_number: u64)
    requires
        l1_head_block_number <= FILTER_BLOCK_RANGE,
    ensures
        window_ending_at(l1_head_block_number).start == 0,
        windows_from(l1_head_block_number) == 1,
{
}

/// Every scan ends: a window that has not reached the genesis block is
/// followed by one that ends before it, and the number of windows from any
/// head is bounded by the head's number.
pub proof fn lemma_scan_terminates(end: u64)
    ensures
        window_ending_at(end).start > 0 ==> window_ending_at(end).start < end && windows_from(end)
            == 1 + windows_from(window_ending_at(end).start),
        window_ending_at(end).start == 0 ==> windows_from(end) == 1,
        windows_from(end) <= end / FILTER_BLOCK_RANGE + 1,
    decreases end,
{
    if end > FILTER_BLOCK_RANGE {
        lemma_scan_terminates((end - FILTER_BLOCK_RANGE) as u64);
    }
}

/// The first index of the shares of a blob in the data square before its
/// extension, and the index after the last: `blob_index` counts along the
/// rows of the extended square, which are twice as long.
pub open spec fn share_range(eds_size: nat, blob_index: nat, shares_length: nat) -> (nat, nat) {
    let ods_size = eds_size / 2;
    let first_row_index = blob_index / eds_size;
    let start_index = (blob_index - first_row_index * ods_size) as nat;
    (start_index, start_index + shares_length)
}

/// The rows above a blob take up no more of the data square than of the
/// extended one.
pub proof fn lemma_rows_fit(eds_size: nat, blob_index: nat)
    requires
        eds_size > 0,
    ensures
        (blob_index / eds_size) * (eds_size / 2) <= blob_index,
{
    let rows = blob_index / eds_size;
    assert(rows * eds_size <= blob_index) by (nonlinear_arith)
        requires
            rows == blob_index / eds_size,
            eds_size > 0,
    ;
    assert(rows * (eds_size / 2) <= rows * eds_size) by (nonlinear_arith)
        requires
            eds_size / 2 <= eds_size,
    ;
}

/// The share range of a blob, as Celestia's share-range API counts it:
/// `start = blob_index - (blob_index / eds_size) * (eds_size / 2)` and
/// `end = start + shares_length`.
pub fn calculate_indices(eds_size: u64, blob_index: u64, shares_length: u64) -> (r: (u64, u64))
    requires
        eds_size > 0,
        share_range(eds_size as nat, blob_index as nat, shares_length as nat).1 <= u64::MAX,
    ensures
        r.0 == share_range(eds_size as nat, blob_index as nat, shares_length as nat).0,
        r.1 == share_range(eds_size as nat, blob_index as nat, shares_length as nat).1,
        r.0 <= r.1,
        r.1 - r.0 == shares_length,
{
    let ods_size: u64 = eds_size / 2;
    let first_row_index: u64 = blob_index / eds_size;
    proof {
        lemma_rows_fit(eds_size as nat, blob_index as nat);
    }
    let start_index = blob_index - (first_row_index * ods_size);
    let end_index = start_index + shares_length;
    (start_index, end_index)
}

} // verus!
