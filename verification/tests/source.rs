//! The Celestia source and the pointer multiplexer, with fetchers that count.
use std::cell::Cell;
use std::rc::Rc;

use hana::celestia::{
    route_frame, BlockInfo, CelestiaDADataSource, DataAvailabilityProvider, Route,
};
use hana::errors::{PipelineError, PipelineErrorKind};
use hana::source::{CelestiaDASource, CelestiaProvider};

/// A fetcher that answers with the height and the commitment it was asked
/// for, or with an error, and counts the calls.
#[derive(Clone, Debug)]
struct Fetcher {
    calls: Rc<Cell<usize>>,
    failure: Option<PipelineErrorKind>,
}

impl Fetcher {
    fn new() -> Self {
        Fetcher { calls: Rc::new(Cell::new(0)), failure: None }
    }

    fn failing(failure: PipelineErrorKind) -> Self {
        Fetcher { calls: Rc::new(Cell::new(0)), failure: Some(failure) }
    }
}

fn blob_of(height: u64, commitment: [u8; 32]) -> Vec<u8> {
    let mut blob = height.to_be_bytes().to_vec();
    blob.extend_from_slice(&commitment);
    blob
}

impl CelestiaProvider for Fetcher {
    fn blob_get(&self, height: u64, commitment: [u8; 32]) -> Result<Vec<u8>, PipelineErrorKind> {
        self.calls.set(self.calls.get() + 1);
        match &self.failure {
            Some(failure) => Err(failure.clone()),
            None => Ok(blob_of(height, commitment)),
        }
    }
}

/// An Ethereum source that hands out the frames it was made with.
#[derive(Clone, Debug)]
struct Frames {
    frames: Vec<Vec<u8>>,
    cleared: bool,
}

impl DataAvailabilityProvider for Frames {
    fn next(&mut self, _: &BlockInfo, _: [u8; 20]) -> Result<Vec<u8>, PipelineErrorKind> {
        if self.frames.is_empty() {
            Err(PipelineErrorKind::Temporary(PipelineError::Eof))
        } else {
            Ok(self.frames.remove(0))
        }
    }

    fn clear(&mut self) {
        self.frames.clear();
        self.cleared = true;
    }
}

fn block() -> BlockInfo {
    BlockInfo { hash: [1; 32], number: 7, parent_hash: [0; 32], timestamp: 1_700_000_000 }
}

fn pointer(height: u64, commitment: [u8; 32]) -> Vec<u8> {
    let mut frame = vec![0x01, 0xff, 0x0c];
    frame.extend_from_slice(&height.to_le_bytes());
    frame.extend_from_slice(&commitment);
    frame
}

#[test]
fn new_source_is_empty() {
    let source = CelestiaDASource::new(Fetcher::new());
    assert!(source.data.is_empty());
    assert!(source.needs_fetch());
}

#[test]
fn next_after_clear_fetches_once() {
    let fetcher = Fetcher::new();
    let calls = fetcher.calls.clone();
    let mut source = CelestiaDASource::new(fetcher);
    source.data.push(vec![1]);
    source.data.push(vec![2]);
    source.clear();
    assert!(source.data.is_empty());
    assert_eq!(source.next(5, [9; 32]), Ok(blob_of(5, [9; 32])));
    assert_eq!(calls.get(), 1);
    assert!(source.data.is_empty());
}

#[test]
fn next_is_served_from_the_buffer_while_it_lasts() {
    let fetcher = Fetcher::new();
    let calls = fetcher.calls.clone();
    let mut source = CelestiaDASource::new(fetcher);
    source.data.push(vec![0xb1]);
    assert!(!source.needs_fetch());
    // Two calls with the same height and commitment: one fetch between them.
    assert_eq!(source.next(5, [9; 32]), Ok(vec![0xb1]));
    assert_eq!(calls.get(), 0);
    assert_eq!(source.next(5, [9; 32]), Ok(blob_of(5, [9; 32])));
    assert_eq!(calls.get(), 1);
}

#[test]
fn next_on_an_empty_buffer_fetches_every_time() {
    let fetcher = Fetcher::new();
    let calls = fetcher.calls.clone();
    let mut source = CelestiaDASource::new(fetcher);
    assert_eq!(source.next(5, [9; 32]), Ok(blob_of(5, [9; 32])));
    assert_eq!(source.next(5, [9; 32]), Ok(blob_of(5, [9; 32])));
    assert_eq!(calls.get(), 2);
}

#[test]
fn source_never_holds_more_than_one_blob() {
    let mut source = CelestiaDASource::new(Fetcher::new());
    for height in 0..5u64 {
        assert!(source.data.len() <= 1);
        assert_eq!(source.next(height, [3; 32]), Ok(blob_of(height, [3; 32])));
        assert!(source.data.is_empty());
    }
    source.clear();
    assert!(source.data.is_empty());
}

#[test]
fn buffer_is_first_in_first_out() {
    let mut source = CelestiaDASource::new(Fetcher::new());
    assert_eq!(source.load_blobs(Ok(vec![1])), Ok(()));
    assert_eq!(source.load_blobs(Ok(vec![2])), Ok(()));
    assert_eq!(source.data, vec![vec![1], vec![2]]);
    assert_eq!(source.next_data(), Ok(vec![1]));
    assert_eq!(source.next_data(), Ok(vec![2]));
    assert_eq!(source.next_data(), Err(PipelineErrorKind::Temporary(PipelineError::Eof)));
    assert!(source.data.is_empty());
}

#[test]
fn fetch_errors_keep_their_class() {
    let errors = [
        PipelineErrorKind::Temporary(PipelineError::Provider("later".to_string())),
        PipelineErrorKind::Critical(PipelineError::Provider("never".to_string())),
        PipelineErrorKind::Reset(PipelineError::Provider("again".to_string())),
    ];
    for error in errors {
        let mut source = CelestiaDASource::new(Fetcher::failing(error.clone()));
        assert_eq!(source.next(1, [0; 32]), Err(error.clone()));
        assert!(source.data.is_empty());
        assert_eq!(source.load_blobs(Err(error.clone())), Err(error));
        assert!(source.data.is_empty());
    }
}

#[test]
fn error_classes() {
    let temporary = PipelineErrorKind::Temporary(PipelineError::Eof);
    let critical = PipelineErrorKind::Critical(PipelineError::Eof);
    let reset = PipelineErrorKind::Reset(PipelineError::Eof);
    assert!(temporary.is_temporary() && !temporary.is_critical() && !temporary.is_reset());
    assert!(!critical.is_temporary() && critical.is_critical() && !critical.is_reset());
    assert!(!reset.is_temporary() && !reset.is_critical() && reset.is_reset());
}

#[test]
fn routing_by_the_sentinel() {
    let commitment: [u8; 32] = core::array::from_fn(|i| i as u8);
    assert_eq!(
        route_frame(&pointer(3_141_592, commitment)),
        Route::Celestia { height: 3_141_592, commitment }
    );
    let mut other = pointer(3_141_592, commitment);
    other[2] = 0x0d;
    assert_eq!(route_frame(&other), Route::Ethereum);
    assert_eq!(route_frame(&[]), Route::Ethereum);
    assert_eq!(route_frame(&[0, 0]), Route::Ethereum);
    assert_eq!(route_frame(&[0x0c, 0x0c]), Route::Ethereum);
    assert_eq!(route_frame(&[0, 0, 0x0c]), Route::Ethereum);
}

#[test]
fn pointer_of_exactly_43_bytes_is_accepted() {
    let frame = pointer(1, [0xaa; 32]);
    assert_eq!(frame.len(), 43);
    assert_eq!(route_frame(&frame), Route::Celestia { height: 1, commitment: [0xaa; 32] });
    assert_eq!(route_frame(&frame[..42]), Route::Ethereum);
    let mut longer = frame;
    longer.extend_from_slice(&[1, 2, 3]);
    assert_eq!(route_frame(&longer), Route::Celestia { height: 1, commitment: [0xaa; 32] });
}

#[test]
fn multiplexer_follows_pointers_and_hands_frames_on() {
    let fetcher = Fetcher::new();
    let calls = fetcher.calls.clone();
    let plain = vec![0x00, 0x01, 0x02, 0x03];
    let short_pointer = vec![0x00, 0x01, 0x0c, 0x03];
    let frames = Frames {
        frames: vec![plain.clone(), pointer(42, [7; 32]), short_pointer.clone()],
        cleared: false,
    };
    let mut mux = CelestiaDADataSource::new(frames, CelestiaDASource::new(fetcher));
    assert_eq!(mux.next(&block(), [0; 20]), Ok(plain));
    assert_eq!(calls.get(), 0);
    assert_eq!(mux.next(&block(), [0; 20]), Ok(blob_of(42, [7; 32])));
    assert_eq!(calls.get(), 1);
    assert_eq!(mux.next(&block(), [0; 20]), Ok(short_pointer));
    assert_eq!(calls.get(), 1);
    assert_eq!(
        mux.next(&block(), [0; 20]),
        Err(PipelineErrorKind::Temporary(PipelineError::Eof))
    );
}

#[test]
fn multiplexer_next_answers_for_what_the_ethereum_source_gave() {
    let fetcher = Fetcher::new();
    let calls = fetcher.calls.clone();
    let plain = vec![0x00, 0x01, 0x02, 0x03];
    let frames = Frames { frames: vec![plain.clone(), pointer(42, [7; 32])], cleared: false };
    let mut mux = CelestiaDADataSource::new(frames, CelestiaDASource::new(fetcher));
    mux.celestia_source.data.push(vec![0xb1]);

    // A frame that is no pointer is the answer, and the buffer stays.
    assert_eq!(mux.next(&block(), [0; 20]), Ok(plain));
    assert_eq!(mux.celestia_source.data, vec![vec![0xb1]]);
    // A pointer is answered from the front of the buffer, without a fetch.
    assert_eq!(mux.next(&block(), [0; 20]), Ok(vec![0xb1]));
    assert!(mux.celestia_source.data.is_empty());
    assert_eq!(calls.get(), 0);
    // An error of the Ethereum source is the answer, and the buffer stays.
    mux.celestia_source.data.push(vec![0xb2]);
    assert_eq!(
        mux.next(&block(), [0; 20]),
        Err(PipelineErrorKind::Temporary(PipelineError::Eof))
    );
    assert_eq!(mux.celestia_source.data, vec![vec![0xb2]]);
    assert_eq!(calls.get(), 0);
}

#[test]
fn multiplexer_resolves_a_frame() {
    let mut mux = CelestiaDADataSource::new(
        Frames { frames: vec![], cleared: false },
        CelestiaDASource::new(Fetcher::new()),
    );
    assert_eq!(mux.resolve(vec![9, 9, 9]), Ok(vec![9, 9, 9]));
    assert_eq!(mux.resolve(pointer(8, [1; 32])), Ok(blob_of(8, [1; 32])));
    mux.celestia_source.data.push(vec![0xbb]);
    assert_eq!(mux.resolve(pointer(8, [1; 32])), Ok(vec![0xbb]));
}

#[test]
fn multiplexer_hands_on_the_fetcher_error() {
    let error = PipelineErrorKind::Critical(PipelineError::Provider("no blob".to_string()));
    let frames = Frames { frames: vec![pointer(42, [7; 32])], cleared: false };
    let mut mux =
        CelestiaDADataSource::new(frames, CelestiaDASource::new(Fetcher::failing(error.clone())));
    assert_eq!(mux.next(&block(), [0; 20]), Err(error));
}

#[test]
fn multiplexer_clears_both_sources() {
    let frames = Frames { frames: vec![vec![1]], cleared: false };
    let mut mux = CelestiaDADataSource::new(frames, CelestiaDASource::new(Fetcher::new()));
    mux.celestia_source.data.push(vec![2]);
    mux.clear();
    assert!(mux.celestia_source.data.is_empty());
    assert!(mux.ethereum_source.cleared);
    assert!(mux.ethereum_source.frames.is_empty());
}
