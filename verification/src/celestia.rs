//! The pointer multiplexer: a data availability provider that hands out
//! Ethereum frames as they are and follows Celestia pointers to their blobs.
use crate::bytes::{le_value, lemma_le_value_u64, read_u64_le, word_at, Address, B256};
use crate::errors::PipelineErrorKind;
use crate::source::{CelestiaDASource, CelestiaProvider};
use vstd::prelude::*;

verus! {

/// The byte at offset 2 of a frame that marks it as a Celestia pointer.
pub const CELESTIA_SENTINEL: u8 = 0x0c;

/// The length of a Celestia pointer: three bytes up to the sentinel, the
/// height in eight, the commitment in 32.
pub const POINTER_LEN: usize = 43;

/// The L1 block that a frame was read from.
#[derive(Clone, Copy, Debug, PartialEq, Eq)]
pub struct BlockInfo {
    /// The block's hash.
    pub hash: B256,
    /// The block's number.
    pub number: u64,
    /// The hash of the block's parent.
    pub parent_hash: B256,
    /// The block's timestamp.
    pub timestamp: u64,
}

/// What yields the rollup's input frames, one per call.
pub trait DataAvailabilityProvider {
    /// Whether `answer` is one that this provider, as it stands, may give
    /// when it is asked for the next frame. Each provider says for itself
    /// what it may answer; one that says nothing may answer anything.
    open spec fn may_give(
        &self,
        block_ref: BlockInfo,
        batcher_address: Address,
        answer: Result<Vec<u8>, PipelineErrorKind>,
    ) -> bool {
        true
    }

    /// The next frame that the batcher at `batcher_address` posted in the block `block_ref`.
    fn next(&mut self, block_ref: &BlockInfo, batcher_address: Address) -> (r: Result<
        Vec<u8>,
        PipelineErrorKind,
    >)
        ensures
            old(self).may_give(*block_ref, batcher_address, r),
    ;

    /// Drops what the provider holds; called when the pipeline is reset.
    fn clear(&mut self);
}

/// Where the bytes for a frame come from.
#[derive(Clone, Copy, Debug, PartialEq, Eq)]
pub enum Route {
    /// The frame is the data: it goes to the driver unchanged.
    Ethereum,
    /// The frame points to a blob on Celestia.
    Celestia {
        /// The height of the Celestia block that holds the blob.
        height: u64,
        /// The blob's commitment.
        commitment: B256,
    },
}

/// Whether `frame` is a Celestia pointer: whether it has the sentinel at
/// offset 2 and is long enough to hold a height and a commitment.
pub open spec fn is_pointer(frame: Seq<u8>) -> bool {
    frame.len() >= POINTER_LEN && frame[2] == CELESTIA_SENTINEL
}

/// The height that a pointer names: bytes 3 to 10, little-endian.
pub open spec fn pointer_height(frame: Seq<u8>) -> u64 {
    le_value(frame.subrange(3, 11)) as u64
}

/// The commitment that a pointer names: bytes 11 to 42.
pub open spec fn pointer_commitment(frame: Seq<u8>) -> Seq<u8> {
    frame.subrange(11, 43)
}

/// Decides from the frame alone which source answers for it.
///
/// A frame is a pointer exactly when its byte at offset 2 is `0x0c` and it
/// has at least 43 bytes; every other frame, a short one with the sentinel
/// too, is Ethereum data.
pub fn route_frame(frame: &[u8]) -> (r: Route)
    ensures
        r is Celestia <==> is_pointer(frame@),
        r is Ethereum <==> !is_pointer(frame@),
        r matches Route::Celestia { height, commitment } ==> height == pointer_height(frame@)
            && commitment@ == pointer_commitment(frame@),
{
    if frame.len() >= POINTER_LEN && frame[2] == CELESTIA_SENTINEL {
        let height = read_u64_le(frame, 3);
        let commitment = word_at(frame, 11);
        proof {
            lemma_le_value_u64(frame@.subrange(3, 11));
        }
        Route::Celestia { height, commitment }
    } else {
        Route::Ethereum
    }
}

/// A frame of exactly 43 bytes with the sentinel at offset 2 is a pointer.
pub proof fn lemma_shortest_pointer(frame: Seq<u8>)
    requires
        frame.len() == 43,
        frame[2] == 0x0c,
    ensures
        is_pointer(frame),
{
}

/// Whether `answer`, with the buffer `after`, is what the multiplexer makes
/// of the frame `frame` with the buffer `before`: a frame that is no pointer
/// is the answer itself and leaves the buffer alone; a pointer is answered
/// from the front of the buffer while it holds a blob, and once it holds
/// none by what the fetcher answers for the height and commitment that the
/// pointer names, which leaves the buffer empty.
pub open spec fn resolved<A: CelestiaProvider>(
    fetcher: A,
    before: Seq<Vec<u8>>,
    frame: Vec<u8>,
    answer: Result<Vec<u8>, PipelineErrorKind>,
    after: Seq<Vec<u8>>,
) -> bool {
    if !is_pointer(frame@) {
        answer == Ok::<Vec<u8>, PipelineErrorKind>(frame) && after == before
    } else if before.len() > 0 {
        answer == Ok::<Vec<u8>, PipelineErrorKind>(before[0]) && after == before.skip(1)
    } else {
        after.len() == 0 && exists|commitment: B256|
            commitment@ == pointer_commitment(frame@) && #[trigger] fetcher.may_answer(
                pointer_height(frame@),
                commitment,
                answer,
            )
    }
}

/// Whether `answer`, with the buffer `after`, is what the multiplexer makes
/// of what the Ethereum source gave with the buffer `before`: an error of
/// the Ethereum source is the answer and leaves the buffer alone, and a frame
/// is answered for as [`resolved`] says.
pub open spec fn handed_on<A: CelestiaProvider>(
    fetcher: A,
    before: Seq<Vec<u8>>,
    given: Result<Vec<u8>, PipelineErrorKind>,
    answer: Result<Vec<u8>, PipelineErrorKind>,
    after: Seq<Vec<u8>>,
) -> bool {
    match given {
        Ok(frame) => resolved(fetcher, before, frame, answer, after),
        Err(e) => answer == Err::<Vec<u8>, PipelineErrorKind>(e) && after == before,
    }
}

/// A factory for creating a Celestia data source provider.
#[derive(Debug, Clone)]
pub struct CelestiaDADataSource<E, A> {
    /// The blob source.
    pub ethereum_source: E,
    /// The celestia source.
    pub celestia_source: CelestiaDASource<A>,
}

impl<E, A> CelestiaDADataSource<E, A> {
    /// Creates a [CelestiaDADataSource] from the given sources.
    pub fn new(ethereum_source: E, celestia_source: CelestiaDASource<A>) -> (r: Self)
        ensures
            r.ethereum_source == ethereum_source,
            r.celestia_source == celestia_source,
    {
        Self { ethereum_source, celestia_source }
    }
}

impl<E, A: CelestiaProvider> CelestiaDADataSource<E, A> {

    /// Answers for a frame that the Ethereum source gave: the frame itself
    /// where it is no pointer, and else the next blob of the Celestia source
    /// for the height and commitment that the pointer names.
    pub fn resolve(&mut self, pointer_data: Vec<u8>) -> (r: Result<Vec<u8>, PipelineErrorKind>)
        ensures
            final(self).ethereum_source == old(self).ethereum_source,
            final(self).celestia_source.celestia_fetcher
                == old(self).celestia_source.celestia_fetcher,
            !is_pointer(pointer_data@) ==> r == Ok::<Vec<u8>, PipelineErrorKind>(pointer_data)
                && final(self).celestia_source == old(self).celestia_source,
            is_pointer(pointer_data@) && old(self).celestia_source.data@.len() > 0 ==> r
                == Ok::<Vec<u8>, PipelineErrorKind>(old(self).celestia_source.data@[0])
                && final(self).celestia_source.data@ == old(self).celestia_source.data@.skip(1),
            is_pointer(pointer_data@) && old(self).celestia_source.data@.len() <= 1
                ==> final(self).celestia_source.data@.len() == 0,
            resolved(
                old(self).celestia_source.celestia_fetcher,
                old(self).celestia_source.data@,
                pointer_data,
                r,
                final(self).celestia_source.data@,
            ),
    {
        match route_frame(pointer_data.as_slice()) {
            Route::Celestia { height, commitment } => self.celestia_source.next(
                height,
                commitment,
            ),
            Route::Ethereum => Ok(pointer_data),
        }
    }
}

impl<E, A> DataAvailabilityProvider for CelestiaDADataSource<E, A> where
    E: DataAvailabilityProvider,
    A: CelestiaProvider,
 {
    /// Takes the next frame from the Ethereum source and answers for it as
    /// [`CelestiaDADataSource::resolve`] says; an error of the Ethereum source is handed on.
    ///
    /// What the Ethereum source gives is its own affair, so the contract
    /// speaks of it as some `given` that the source may give: the answer is
    /// what [`handed_on`] makes of it. Whatever it gave, an error leaves the
    /// buffer as it was, and where the buffer held a blob the answer is either
    /// a frame that is no pointer, with the buffer untouched, or the blob at
    /// the buffer's front.
    fn next(
        &mut self,
        block_ref: &BlockInfo,
        batcher_address: Address,
    ) -> (r: Result<Vec<u8>, PipelineErrorKind>)
        ensures
            final(self).celestia_source.celestia_fetcher
                == old(self).celestia_source.celestia_fetcher,
            old(self).celestia_source.data@.len() <= 1 ==> final(self).celestia_source.data@.len()
                <= 1,
            exists|given: Result<Vec<u8>, PipelineErrorKind>|
                old(self).ethereum_source.may_give(*block_ref, batcher_address, given)
                    && #[trigger] handed_on(
                    old(self).celestia_source.celestia_fetcher,
                    old(self).celestia_source.data@,
                    given,
                    r,
                    final(self).celestia_source.data@,
                ),
            r is Err ==> final(self).celestia_source.data@ == old(self).celestia_source.data@,
            r is Ok && old(self).celestia_source.data@.len() > 0 ==> {
                let answer = r->Ok_0;
                let before = old(self).celestia_source.data@;
                let after = final(self).celestia_source.data@;
                ||| !is_pointer(answer@) && after == before
                ||| answer == before[0] && after == before.skip(1)
            },
    {
        let given = self.ethereum_source.next(block_ref, batcher_address);
        let ghost witness = given;
        let answer = match given {
            Ok(frame) => self.resolve(frame),
            Err(e) => Err(e),
        };
        proof {
            assert(handed_on(
                old(self).celestia_source.celestia_fetcher,
                old(self).celestia_source.data@,
                witness,
                answer,
                self.celestia_source.data@,
            ));
            if answer is Err {
                assert(self.celestia_source.data@ =~= old(self).celestia_source.data@);
            }
        }
        answer
    }

    /// Clears both sources.
    fn clear(&mut self)
        ensures
            final(self).celestia_source.data@.len() == 0,
            final(self).celestia_source.celestia_fetcher
                == old(self).celestia_source.celestia_fetcher,
    {
        self.celestia_source.clear();
        self.ethereum_source.clear();
    }
}

} // verus!
