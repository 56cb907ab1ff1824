//! The download-progress stream.
//!
//! The body of a pull response is a run of JSON objects, one per progress
//! update. They arrive in chunks of bytes that know nothing of object
//! boundaries: an object may span chunks, a chunk may hold several objects.
//! [`FrameScanner`] cuts the byte stream into objects, [`PullStream`] decodes
//! each object as it completes, hands the records out in the order of the
//! bytes, and resolves the stream exactly once.

use crate::error::{outcome_view, ClientError, ClientErrorView};
use crate::progress::{progress_of_frame, progress_views, PullProgress, PullProgressView};
use vstd::prelude::*;

verus! {

pub const OPEN_BRACE: u8 = 0x7b;

pub const CLOSE_BRACE: u8 = 0x7d;

pub const QUOTE: u8 = 0x22;

pub const BACKSLASH: u8 = 0x5c;

/// The scanner between two bytes: the bytes of the object under way, how many
/// braces are open, and whether the last byte lies inside a string or behind
/// a backslash.
pub struct ScanState {
    pub pending: Seq<u8>,
    pub depth: nat,
    pub in_string: bool,
    pub escaped: bool,
}

/// The scanner between two objects.
pub open spec fn idle() -> ScanState {
    ScanState { pending: Seq::empty(), depth: 0, in_string: false, escaped: false }
}

/// States that scanning reaches from [`idle`].
pub open spec fn well_formed(s: ScanState) -> bool {
    &&& s.depth <= s.pending.len()
    &&& s.escaped ==> s.in_string
    &&& s.depth == 0 ==> s == idle()
}

/// One byte of the stream. Between objects every byte but `{` is dropped.
/// Inside an object every byte is kept; braces count outside strings only,
/// and the brace that closes the first one completes the object.
pub open spec fn scan_byte(s: ScanState, b: u8) -> (ScanState, Option<Seq<u8>>) {
    if s.depth == 0 {
        if b == OPEN_BRACE {
            (ScanState { pending: seq![b], depth: 1, in_string: false, escaped: false }, None)
        } else {
            (s, None)
        }
    } else {
        let pending = s.pending.push(b);
        if s.in_string {
            if s.escaped {
                (ScanState { pending, escaped: false, ..s }, None)
            } else if b == BACKSLASH {
                (ScanState { pending, escaped: true, ..s }, None)
            } else if b == QUOTE {
                (ScanState { pending, in_string: false, ..s }, None)
            } else {
                (ScanState { pending, ..s }, None)
            }
        } else if b == QUOTE {
            (ScanState { pending, in_string: true, ..s }, None)
        } else if b == OPEN_BRACE {
            (ScanState { pending, depth: s.depth + 1, ..s }, None)
        } else if b == CLOSE_BRACE {
            if s.depth == 1 {
                (idle(), Some(pending))
            } else {
                (ScanState { pending, depth: (s.depth - 1) as nat, ..s }, None)
            }
        } else {
            (ScanState { pending, ..s }, None)
        }
    }
}

/// A run of bytes: the state behind the last byte and the objects completed
/// on the way, in order.
pub open spec fn scan(s: ScanState, bytes: Seq<u8>) -> (ScanState, Seq<Seq<u8>>)
    decreases bytes.len(),
{
    if bytes.len() == 0 {
        (s, Seq::empty())
    } else {
        let (before, frames) = scan(s, bytes.drop_last());
        let (after, frame) = scan_byte(before, bytes.last());
        match frame {
            Some(f) => (after, frames.push(f)),
            None => (after, frames),
        }
    }
}

/// The records of a run of objects, in order; an object that does not decode
/// is left out.
pub open spec fn records_of(frames: Seq<Seq<u8>>) -> Seq<PullProgressView>
    decreases frames.len(),
{
    if frames.len() == 0 {
        Seq::empty()
    } else {
        let earlier = records_of(frames.drop_last());
        match progress_of_frame(frames.last()) {
            Some(record) => earlier.push(record),
            None => earlier,
        }
    }
}

/// Scanning two runs of bytes one after the other is scanning their
/// concatenation: an object may lie on either side of the cut or across it.
pub proof fn lemma_scan_concat(s: ScanState, a: Seq<u8>, b: Seq<u8>)
    ensures
        scan(s, a + b) == (scan(scan(s, a).0, b).0, scan(s, a).1 + scan(scan(s, a).0, b).1),
    decreases b.len(),
{
    let (mid, first) = scan(s, a);
    if b.len() == 0 {
        assert(a + b =~= a);
        assert(first + Seq::<Seq<u8>>::empty() =~= first);
    } else {
        assert((a + b).drop_last() =~= a + b.drop_last());
        assert((a + b).last() == b.last());
        lemma_scan_concat(s, a, b.drop_last());
        let (before, second) = scan(mid, b.drop_last());
        match scan_byte(before, b.last()).1 {
            Some(f) => {
                assert((first + second).push(f) =~= first + second.push(f));
            },
            None => {},
        }
    }
}

/// The records of two runs of objects are the records of the first followed
/// by those of the second.
pub proof fn lemma_records_concat(f: Seq<Seq<u8>>, g: Seq<Seq<u8>>)
    ensures
        records_of(f + g) == records_of(f) + records_of(g),
    decreases g.len(),
{
    if g.len() == 0 {
        assert(f + g =~= f);
        assert(records_of(f) + Seq::<PullProgressView>::empty() =~= records_of(f));
    } else {
        assert((f + g).drop_last() =~= f + g.drop_last());
        assert((f + g).last() == g.last());
        lemma_records_concat(f, g.drop_last());
        match progress_of_frame(g.last()) {
            Some(record) => {
                assert((records_of(f) + records_of(g.drop_last())).push(record) =~= records_of(f)
                    + records_of(g.drop_last()).push(record));
            },
            None => {},
        }
    }
}

/// Cuts a byte stream into JSON objects.
pub struct FrameScanner {
    pending: Vec<u8>,
    depth: usize,
    in_string: bool,
    escaped: bool,
}

impl View for FrameScanner {
    type V = ScanState;

    closed spec fn view(&self) -> ScanState {
        ScanState {
            pending: self.pending@,
            depth: self.depth as nat,
            in_string: self.in_string,
            escaped: self.escaped,
        }
    }
}

impl FrameScanner {
    /// A scanner at the start of a stream.
    pub fn new() -> (r: FrameScanner)
        ensures
            r@ == idle(),
    {
        FrameScanner { pending: Vec::new(), depth: 0, in_string: false, escaped: false }
    }

    #[verifier::type_invariant]
    spec fn reachable(self) -> bool {
        well_formed(self@)
    }

    /// Takes one byte; hands out the object that it completes, if any.
    pub fn push_byte(&mut self, b: u8) -> (frame: Option<Vec<u8>>)
        ensures
            final(self)@ == scan_byte(old(self)@, b).0,
            match scan_byte(old(self)@, b).1 {
                Some(f) => frame matches Some(v) && v@ == f,
                None => frame is None,
            },
    {
        proof {
            use_type_invariant(&*self);
        }
        // The scanner is taken apart and put together again as a whole, so
        // that it is well formed whenever it can be seen.
        let mut held = FrameScanner::new();
        core::mem::swap(self, &mut held);
        let FrameScanner { mut pending, mut depth, mut in_string, mut escaped } = held;
        let mut frame: Option<Vec<u8>> = None;
        if depth == 0 {
            if b == OPEN_BRACE {
                pending.push(b);
                depth = 1;
                assert(pending@ =~= seq![b]);
            }
        } else {
            pending.push(b);
            let held_bytes = pending.len();
            if in_string {
                if escaped {
                    escaped = false;
                } else if b == BACKSLASH {
                    escaped = true;
                } else if b == QUOTE {
                    in_string = false;
                }
            } else if b == QUOTE {
                in_string = true;
            } else if b == OPEN_BRACE {
                assert(depth < held_bytes);
                depth = depth + 1;
            } else if b == CLOSE_BRACE {
                if depth == 1 {
                    frame = Some(pending);
                    pending = Vec::new();
                    depth = 0;
                } else {
                    depth = depth - 1;
                }
            }
        }
        *self = FrameScanner { pending, depth, in_string, escaped };
        frame
    }
}

/// Where a pull stream stands. `StreamEnded` and `StreamError` are final.
#[derive(Debug, Clone, Copy, PartialEq, Eq, Structural)]
pub enum StreamPhase {
    AwaitingChunk,
    StreamEnded,
    StreamError,
}

/// What a [`PullStream`] holds.
pub struct StreamModel {
    pub phase: StreamPhase,
    pub scan: ScanState,
    pub failure: Seq<char>,
}

/// A stream before its first chunk.
pub open spec fn opened() -> StreamModel {
    StreamModel { phase: StreamPhase::AwaitingChunk, scan: idle(), failure: Seq::empty() }
}

/// One chunk: while the stream awaits chunks, the records that the chunk
/// completes, in the order of its bytes; once the stream is resolved, nothing.
pub open spec fn after_chunk(m: StreamModel, chunk: Seq<u8>) -> (StreamModel, Seq<PullProgressView>) {
    if m.phase is AwaitingChunk {
        let (s, frames) = scan(m.scan, chunk);
        (StreamModel { scan: s, ..m }, records_of(frames))
    } else {
        (m, Seq::empty())
    }
}

/// The end of the body: a stream that awaits chunks ends, a resolved one
/// stays as it is.
pub open spec fn after_end(m: StreamModel) -> StreamModel {
    if m.phase is AwaitingChunk {
        StreamModel { phase: StreamPhase::StreamEnded, ..m }
    } else {
        m
    }
}

/// A transport failure: a stream that awaits chunks fails for `reason`, a
/// resolved one stays as it is.
pub open spec fn after_failure(m: StreamModel, reason: Seq<char>) -> StreamModel {
    if m.phase is AwaitingChunk {
        StreamModel { phase: StreamPhase::StreamError, failure: reason, ..m }
    } else {
        m
    }
}

/// The result of the whole pull, once there is one.
pub open spec fn resolution(m: StreamModel) -> Option<Result<(), ClientErrorView>> {
    match m.phase {
        StreamPhase::AwaitingChunk => None,
        StreamPhase::StreamEnded => Some(Ok(())),
        StreamPhase::StreamError => Some(Err(ClientErrorView::Transport(m.failure))),
    }
}

/// The view of a result that may not be there yet.
pub open spec fn resolution_view(r: Option<Result<(), ClientError>>) -> Option<
    Result<(), ClientErrorView>,
> {
    match r {
        Some(outcome) => Some(outcome_view(outcome)),
        None => None,
    }
}

/// A chunk cut in two delivers, piece after piece, what the whole chunk
/// delivers, and leaves the stream in the same state.
pub proof fn lemma_chunk_cut(m: StreamModel, a: Seq<u8>, b: Seq<u8>)
    ensures
        after_chunk(m, a + b) == (
            after_chunk(after_chunk(m, a).0, b).0,
            after_chunk(m, a).1 + after_chunk(after_chunk(m, a).0, b).1,
        ),
{
    if m.phase is AwaitingChunk {
        lemma_scan_concat(m.scan, a, b);
        lemma_records_concat(scan(m.scan, a).1, scan(scan(m.scan, a).0, b).1);
    } else {
        assert(Seq::<PullProgressView>::empty() + Seq::<PullProgressView>::empty()
            =~= Seq::<PullProgressView>::empty());
    }
}

/// The bytes of `chunk` from `start` up to `end`; nothing where `start` lies
/// behind `end` or behind the end of the chunk.
pub open spec fn read_from(chunk: Seq<u8>, start: int, end: int) -> Seq<u8> {
    if 0 <= start <= end <= chunk.len() {
        chunk.subrange(start, end)
    } else {
        Seq::empty()
    }
}

/// The decode loop of one pull: chunks in, records out, one final result.
pub struct PullStream {
    scanner: FrameScanner,
    phase: StreamPhase,
    failure: String,
}

impl View for PullStream {
    type V = StreamModel;

    closed spec fn view(&self) -> StreamModel {
        StreamModel { phase: self.phase, scan: self.scanner@, failure: self.failure@ }
    }
}

impl PullStream {
    /// A stream that awaits its first chunk.
    pub fn new() -> (r: PullStream)
        ensures
            r@ == opened(),
    {
        PullStream {
            scanner: FrameScanner::new(),
            phase: StreamPhase::AwaitingChunk,
            failure: String::new(),
        }
    }

    /// Where the stream stands.
    pub fn phase(&self) -> (r: StreamPhase)
        ensures
            r == self@.phase,
    {
        self.phase
    }

    /// Reads on in `chunk` from `start`, up to the byte that completes the
    /// next record or, where none does, to the end of the chunk. Returns
    /// where it stopped and the record to deliver. An object that does not
    /// decode is skipped. A resolved stream reads nothing and skips the
    /// chunk, and so does a `start` behind the end of the chunk.
    pub fn advance(&mut self, chunk: &[u8], start: usize) -> (r: (usize, Option<PullProgress>))
        ensures
            r.0 <= chunk.len(),
            start < chunk.len() ==> start < r.0,
            start >= chunk.len() ==> r.0 == chunk.len(),
            r.1 is None ==> r.0 == chunk.len(),
            final(self)@ == after_chunk(old(self)@, read_from(chunk@, start as int, r.0 as int)).0,
            after_chunk(old(self)@, read_from(chunk@, start as int, r.0 as int)).1 == match r.1 {
                Some(record) => seq![record@],
                None => Seq::empty(),
            },
            r.1 is Some ==> after_chunk(old(self)@, read_from(chunk@, start as int, r.0 - 1)).1
                == Seq::<PullProgressView>::empty(),
    {
        if start >= chunk.len() {
            assert(scan(self@.scan, Seq::<u8>::empty()).0 == self@.scan);
            assert(records_of(Seq::<Seq<u8>>::empty()) == Seq::<PullProgressView>::empty());
            assert(after_chunk(self@, Seq::<u8>::empty()).0 == self@);
            assert(read_from(chunk@, start as int, chunk.len() as int) =~= Seq::empty());
            return (chunk.len(), None);
        }
        if self.phase != StreamPhase::AwaitingChunk {
            return (chunk.len(), None);
        }
        let ghost begin = self@;
        let ghost mut frames: Seq<Seq<u8>> = Seq::empty();
        assert(read_from(chunk@, start as int, start as int) =~= Seq::empty());
        let mut i: usize = start;
        while i < chunk.len()
            invariant
                start <= i <= chunk.len(),
                begin == old(self)@,
                self.phase == begin.phase,
                self.failure@ == begin.failure,
                begin.phase is AwaitingChunk,
                scan(begin.scan, read_from(chunk@, start as int, i as int)) == (self.scanner@, frames),
                records_of(frames) == Seq::<PullProgressView>::empty(),
            decreases chunk.len() - i,
        {
            let ghost read = read_from(chunk@, start as int, i as int + 1);
            assert(read.drop_last() =~= read_from(chunk@, start as int, i as int));
            assert(read.last() == chunk@[i as int]);
            let completed = self.scanner.push_byte(chunk[i]);
            i = i + 1;
            match completed {
                Some(frame) => {
                    proof {
                        assert(frames.push(frame@).drop_last() =~= frames);
                        frames = frames.push(frame@);
                    }
                    assert(scan(begin.scan, read) == (self.scanner@, frames));
                    match PullProgress::decode(frame.as_slice()) {
                        Some(record) => {
                            assert(records_of(frames) =~= seq![record@]);
                            assert(read_from(chunk@, start as int, i - 1) == read.drop_last());
                            return (i, Some(record));
                        },
                        None => {},
                    }
                },
                None => {},
            }
        }
        (i, None)
    }

    /// Takes the next chunk of the body and returns the records to deliver,
    /// in the order in which the server wrote them. An object that does not
    /// decode is skipped. A resolved stream delivers nothing.
    pub fn feed(&mut self, chunk: &[u8]) -> (out: Vec<PullProgress>)
        ensures
            final(self)@ == after_chunk(old(self)@, chunk@).0,
            progress_views(out@) == after_chunk(old(self)@, chunk@).1,
    {
        let mut out: Vec<PullProgress> = Vec::new();
        let ghost begin = self@;
        assert(chunk@.take(0) =~= Seq::empty());
        assert(progress_views(out@) =~= Seq::empty());
        let mut at: usize = 0;
        while at < chunk.len()
            invariant
                at <= chunk.len(),
                after_chunk(begin, chunk@.take(at as int)) == (self@, progress_views(out@)),
            decreases chunk.len() - at,
        {
            let ghost earlier = progress_views(out@);
            let (next, delivered) = self.advance(chunk, at);
            proof {
                lemma_chunk_cut(
                    begin,
                    chunk@.take(at as int),
                    read_from(chunk@, at as int, next as int),
                );
                assert(chunk@.take(at as int) + read_from(chunk@, at as int, next as int)
                    =~= chunk@.take(next as int));
            }
            match delivered {
                Some(record) => {
                    out.push(record);
                    assert(progress_views(out@) =~= earlier + seq![record@]);
                },
                None => {
                    assert(earlier + Seq::<PullProgressView>::empty() =~= earlier);
                },
            }
            at = next;
        }
        assert(chunk@.take(at as int) =~= chunk@);
        out
    }

    /// The body is exhausted: resolves a stream that awaits chunks as a
    /// success, whatever its last record said, and returns the result of the
    /// pull.
    pub fn finish(&mut self) -> (r: Result<(), ClientError>)
        ensures
            final(self)@ == after_end(old(self)@),
            Some(outcome_view(r)) == resolution(final(self)@),
    {
        if self.phase == StreamPhase::AwaitingChunk {
            self.phase = StreamPhase::StreamEnded;
        }
        self.outcome()
    }

    /// The transport failed: resolves a stream that awaits chunks as a
    /// transport error, and returns the result of the pull.
    pub fn fail(&mut self, reason: String) -> (r: Result<(), ClientError>)
        ensures
            final(self)@ == after_failure(old(self)@, reason@),
            Some(outcome_view(r)) == resolution(final(self)@),
    {
        if self.phase == StreamPhase::AwaitingChunk {
            self.phase = StreamPhase::StreamError;
            self.failure = reason;
        }
        self.outcome()
    }

    /// The result of the pull; `None` while the stream awaits chunks.
    pub fn result(&self) -> (r: Option<Result<(), ClientError>>)
        ensures
            resolution_view(r) == resolution(self@),
    {
        match self.phase {
            StreamPhase::AwaitingChunk => None,
            _ => Some(self.outcome()),
        }
    }

    fn outcome(&self) -> (r: Result<(), ClientError>)
        requires
            !(self.phase is AwaitingChunk),
        ensures
            Some(outcome_view(r)) == resolution(self@),
    {
        match self.phase {
            StreamPhase::StreamError => Err(ClientError::Transport(self.failure.clone())),
            _ => Ok(()),
        }
    }
}

} // verus!
