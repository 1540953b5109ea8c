//! The Celestia data source: a buffer of fetched blobs between the fetcher
//! and the derivation pipeline.
use crate::bytes::B256;
use crate::errors::{PipelineError, PipelineErrorKind};
use vstd::prelude::*;

verus! {

/// What fetches a blob from Celestia by its height and commitment.
pub trait CelestiaProvider {
    /// Whether `answer` is one that this provider may give when it is asked
    /// for the blob with this commitment at this height. Each provider says
    /// for itself what it may answer; one that says nothing may answer
    /// anything.
    open spec fn may_answer(
        &self,
        height: u64,
        commitment: B256,
        answer: Result<Vec<u8>, PipelineErrorKind>,
    ) -> bool {
        true
    }

    /// The blob with this commitment in the block at this height.
    fn blob_get(&self, height: u64, commitment: B256) -> (r: Result<Vec<u8>, PipelineErrorKind>)
        ensures
            self.may_answer(height, commitment, r),
    ;
}

/// Data source for Celestia DA
#[derive(Debug, Clone)]
pub struct CelestiaDASource<C> {
    /// Celestia connection
    pub celestia_fetcher: C,
    /// Celestia Blobs
    pub data: Vec<Vec<u8>>,
}

/// The buffer after the outcome of a fetch was loaded into it.
pub open spec fn loaded(
    queue: Seq<Vec<u8>>,
    fetched: Result<Vec<u8>, PipelineErrorKind>,
) -> Seq<Vec<u8>> {
    match fetched {
        Ok(blob) => queue.push(blob),
        Err(_) => queue,
    }
}

/// The number of fetches that `calls` calls of `next` in a row make on a
/// buffer that holds `buffered` blobs, when no fetch fails.
pub open spec fn fetches(buffered: nat, calls: nat) -> nat
    decreases calls,
{
    if calls == 0 {
        0
    } else if buffered == 0 {
        1 + fetches(0, (calls - 1) as nat)
    } else {
        fetches((buffered - 1) as nat, (calls - 1) as nat)
    }
}

/// Calls of `next` are served from the buffer as long as it lasts, and each
/// call after that makes one fetch.
pub proof fn lemma_fetches(buffered: nat, calls: nat)
    ensures
        fetches(buffered, calls) == if calls <= buffered {
            0
        } else {
            calls - buffered
        },
    decreases calls,
{
    if calls > 0 {
        if buffered == 0 {
            lemma_fetches(0, (calls - 1) as nat);
        } else {
            lemma_fetches((buffered - 1) as nat, (calls - 1) as nat);
        }
    }
}

/// After `clear`, a call of `next` makes exactly one fetch.
pub proof fn lemma_one_fetch_after_clear()
    ensures
        fetches(0, 1) == 1,
{
    lemma_fetches(0, 1);
}

/// Two calls of `next` in a row make exactly one fetch between them where
/// the buffer held one blob before the first: that call is served from the
/// buffer, and the second fetches.
pub proof fn lemma_one_fetch_in_two_calls()
    ensures
        fetches(1, 2) == 1,
{
    lemma_fetches(1, 2);
}

impl<C> CelestiaDASource<C> {
    /// Creates a new celestia source.
    pub fn new(celestia_fetcher: C) -> (r: Self)
        ensures
            r.celestia_fetcher == celestia_fetcher,
            r.data@.len() == 0,
    {
        Self { celestia_fetcher, data: Vec::new() }
    }

    /// Whether `next` has to fetch before it can answer: whether the buffer is empty.
    pub fn needs_fetch(&self) -> (r: bool)
        ensures
            r == (self.data@.len() == 0),
            r == (fetches(self.data@.len(), 1) == 1),
    {
        proof {
            lemma_fetches(self.data@.len(), 1);
        }
        self.data.len() == 0
    }

    /// Clears the source's data
    pub fn clear(&mut self)
        ensures
            final(self).data@.len() == 0,
            final(self).celestia_fetcher == old(self).celestia_fetcher,
    {
        self.data.clear();
    }

    /// Loads the outcome of a fetch into the source: a blob goes to the back
    /// of the buffer, an error is handed on in its own class and leaves the
    /// buffer as it was.
    pub fn load_blobs(
        &mut self,
        fetched: Result<Vec<u8>, PipelineErrorKind>,
    ) -> (r: Result<(), PipelineErrorKind>)
        ensures
            final(self).data@ == loaded(old(self).data@, fetched),
            final(self).celestia_fetcher == old(self).celestia_fetcher,
            match fetched {
                Ok(_) => r is Ok,
                Err(e) => r == Err::<(), PipelineErrorKind>(e),
            },
    {
        match fetched {
            Ok(blob) => {
                self.data.push(blob);
                Ok(())
            },
            Err(e) => match e {
                PipelineErrorKind::Critical(pipeline_err) => Err(
                    PipelineErrorKind::Critical(pipeline_err),
                ),
                PipelineErrorKind::Temporary(pipeline_err) => Err(
                    PipelineErrorKind::Temporary(pipeline_err),
                ),
                PipelineErrorKind::Reset(pipeline_err) => Err(
                    PipelineErrorKind::Reset(pipeline_err),
                ),
            },
        }
    }

    /// Takes the blob at the front of the buffer. An empty buffer is the end
    /// of the data for now, which the driver may try again.
    pub fn next_data(&mut self) -> (r: Result<Vec<u8>, PipelineErrorKind>)
        ensures
            final(self).celestia_fetcher == old(self).celestia_fetcher,
            old(self).data@.len() == 0 ==> r == Err::<Vec<u8>, PipelineErrorKind>(
                PipelineErrorKind::Temporary(PipelineError::Eof),
            ) && final(self).data@ == old(self).data@,
            old(self).data@.len() > 0 ==> r == Ok::<Vec<u8>, PipelineErrorKind>(old(self).data@[0])
                && final(self).data@ == old(self).data@.skip(1),
    {
        if self.data.len() == 0 {
            return Err(PipelineErrorKind::Temporary(PipelineError::Eof));
        }
        let blob = self.data.remove(0);
        assert(self.data@ =~= old(self).data@.skip(1));
        Ok(blob)
    }

}

impl<C: CelestiaProvider> CelestiaDASource<C> {
    /// Fetches the next blob from the source.
    ///
    /// With a blob in the buffer the fetcher is not asked, and the blob at
    /// the front is returned. With an empty buffer the fetcher is asked once
    /// for `(height, commitment)`: what it fetched is returned and the buffer
    /// is empty again, or its error is returned; either way the result is the
    /// fetcher's answer to that question. A source that is used through
    /// `next` and `clear` alone never holds more than one blob.
    pub fn next(&mut self, height: u64, commitment: B256) -> (r: Result<Vec<u8>, PipelineErrorKind>)
        ensures
            final(self).celestia_fetcher == old(self).celestia_fetcher,
            old(self).data@.len() > 0 ==> r == Ok::<Vec<u8>, PipelineErrorKind>(old(self).data@[0])
                && final(self).data@ == old(self).data@.skip(1),
            old(self).data@.len() <= 1 ==> final(self).data@.len() == 0,
            old(self).data@.len() == 0 ==> old(self).celestia_fetcher.may_answer(
                height,
                commitment,
                r,
            ),
    {
        if self.needs_fetch() {
            let fetched = self.celestia_fetcher.blob_get(height, commitment);
            match self.load_blobs(fetched) {
                Ok(_) => {},
                Err(e) => {
                    return Err(e);
                },
            }
        }
        self.next_data()
    }
}

} // verus!
