//! What holds of a pull stream however the transport cuts it into chunks.

use crate::error::ClientErrorView;
use crate::progress::{progress_of_frame, PullProgressView};
use crate::pull::{
    after_chunk, after_end, after_failure, idle, lemma_chunk_cut, lemma_scan_concat, opened,
    records_of, resolution, scan, well_formed, ScanState, StreamModel, OPEN_BRACE,
};
use vstd::prelude::*;

verus! {

/// The bytes of a run of chunks, in order.
pub open spec fn joined(chunks: Seq<Seq<u8>>) -> Seq<u8>
    decreases chunks.len(),
{
    if chunks.len() == 0 {
        Seq::empty()
    } else {
        joined(chunks.drop_last()) + chunks.last()
    }
}

/// A run of chunks fed one after the other: the stream behind the last one
/// and all records delivered on the way, in order.
pub open spec fn after_chunks(m: StreamModel, chunks: Seq<Seq<u8>>) -> (
    StreamModel,
    Seq<PullProgressView>,
)
    decreases chunks.len(),
{
    if chunks.len() == 0 {
        (m, Seq::empty())
    } else {
        let (before, earlier) = after_chunks(m, chunks.drop_last());
        let (after, records) = after_chunk(before, chunks.last());
        (after, earlier + records)
    }
}

/// Space, tab, line feed, carriage return.
pub open spec fn is_blank_byte(b: u8) -> bool {
    b == 0x20 || b == 0x09 || b == 0x0a || b == 0x0d
}

/// A run of whitespace, possibly empty.
pub open spec fn is_blank(gap: Seq<u8>) -> bool {
    forall|i: int| 0 <= i < gap.len() ==> is_blank_byte(#[trigger] gap[i])
}

/// The text of one object: it opens with a brace, and the brace that closes
/// it is its last byte.
pub open spec fn is_object_text(text: Seq<u8>) -> bool {
    scan(idle(), text) == (idle(), seq![text])
}

/// A stream of objects: `gaps[0]`, then each object followed by the next
/// gap. There is one gap more than there are objects.
pub open spec fn spaced(objects: Seq<Seq<u8>>, gaps: Seq<Seq<u8>>) -> Seq<u8>
    recommends
        gaps.len() == objects.len() + 1,
    decreases objects.len(),
{
    if objects.len() == 0 {
        gaps[0]
    } else {
        spaced(objects.drop_last(), gaps.drop_last()) + objects.last() + gaps.last()
    }
}

/// Scanning keeps the scanner well formed.
pub proof fn lemma_scan_keeps_well_formed(s: ScanState, bytes: Seq<u8>)
    requires
        well_formed(s),
    ensures
        well_formed(scan(s, bytes).0),
    decreases bytes.len(),
{
    if bytes.len() > 0 {
        lemma_scan_keeps_well_formed(s, bytes.drop_last());
    }
}

/// However a byte stream is cut into chunks, feeding the chunks in order
/// delivers the records that the uncut stream delivers, in the same order,
/// and leaves the stream in the same state.
pub proof fn lemma_chunking_is_irrelevant(m: StreamModel, chunks: Seq<Seq<u8>>)
    ensures
        after_chunks(m, chunks) == after_chunk(m, joined(chunks)),
    decreases chunks.len(),
{
    if chunks.len() == 0 {
        assert(scan(m.scan, Seq::<u8>::empty()) == (m.scan, Seq::<Seq<u8>>::empty()));
        assert(records_of(Seq::<Seq<u8>>::empty()) == Seq::<PullProgressView>::empty());
        assert(after_chunk(m, Seq::<u8>::empty()).0 == m);
    } else {
        lemma_chunking_is_irrelevant(m, chunks.drop_last());
        lemma_chunk_cut(m, joined(chunks.drop_last()), chunks.last());
    }
}

/// Whitespace between objects completes nothing and leaves the scanner
/// between objects.
pub proof fn lemma_scan_blank(gap: Seq<u8>)
    requires
        is_blank(gap),
    ensures
        scan(idle(), gap) == (idle(), Seq::<Seq<u8>>::empty()),
    decreases gap.len(),
{
    if gap.len() > 0 {
        assert(is_blank_byte(gap.last()));
        assert(gap.last() != OPEN_BRACE);
        assert(is_blank(gap.drop_last())) by {
            assert forall|i: int| 0 <= i < gap.drop_last().len() implies is_blank_byte(
                #[trigger] gap.drop_last()[i],
            ) by {
                assert(gap.drop_last()[i] == gap[i]);
            }
        }
        lemma_scan_blank(gap.drop_last());
    }
}

/// A stream of whitespace-separated objects is cut into exactly these
/// objects, in order.
pub proof fn lemma_scan_spaced(objects: Seq<Seq<u8>>, gaps: Seq<Seq<u8>>)
    requires
        gaps.len() == objects.len() + 1,
        forall|i: int| 0 <= i < objects.len() ==> is_object_text(#[trigger] objects[i]),
        forall|i: int| 0 <= i < gaps.len() ==> is_blank(#[trigger] gaps[i]),
    ensures
        scan(idle(), spaced(objects, gaps)) == (idle(), objects),
    decreases objects.len(),
{
    if objects.len() == 0 {
        lemma_scan_blank(gaps[0]);
        assert(objects =~= Seq::<Seq<u8>>::empty());
    } else {
        let head = spaced(objects.drop_last(), gaps.drop_last());
        assert forall|i: int| 0 <= i < objects.drop_last().len() implies is_object_text(
            #[trigger] objects.drop_last()[i],
        ) by {
            assert(objects.drop_last()[i] == objects[i]);
        }
        assert forall|i: int| 0 <= i < gaps.drop_last().len() implies is_blank(
            #[trigger] gaps.drop_last()[i],
        ) by {
            assert(gaps.drop_last()[i] == gaps[i]);
        }
        lemma_scan_spaced(objects.drop_last(), gaps.drop_last());
        assert(is_object_text(objects.last()));
        assert(is_blank(gaps.last()));
        lemma_scan_concat(idle(), head, objects.last());
        lemma_scan_blank(gaps.last());
        lemma_scan_concat(idle(), head + objects.last(), gaps.last());
        assert(objects.drop_last() + seq![objects.last()] + Seq::<Seq<u8>>::empty() =~= objects);
    }
}

/// Where every object decodes, the records of the objects are the decoded
/// records, one for one.
pub proof fn lemma_records_of_decodable(objects: Seq<Seq<u8>>, records: Seq<PullProgressView>)
    requires
        records.len() == objects.len(),
        forall|i: int|
            0 <= i < objects.len() ==> progress_of_frame(#[trigger] objects[i]) == Some(records[i]),
    ensures
        records_of(objects) == records,
    decreases objects.len(),
{
    if objects.len() == 0 {
        assert(records =~= Seq::<PullProgressView>::empty());
    } else {
        assert forall|i: int| 0 <= i < objects.drop_last().len() implies progress_of_frame(
            #[trigger] objects.drop_last()[i],
        ) == Some(records.drop_last()[i]) by {
            assert(objects.drop_last()[i] == objects[i]);
        }
        lemma_records_of_decodable(objects.drop_last(), records.drop_last());
        assert(progress_of_frame(objects.last()) == Some(records.last()));
        assert(records.drop_last().push(records.last()) =~= records);
    }
}

/// A body that spells `N` whitespace-separated progress objects delivers
/// exactly the `N` decoded records, in the order of the objects, however the
/// transport cuts the body into chunks.
pub proof fn lemma_every_object_is_delivered_once(
    objects: Seq<Seq<u8>>,
    gaps: Seq<Seq<u8>>,
    records: Seq<PullProgressView>,
    chunks: Seq<Seq<u8>>,
)
    requires
        gaps.len() == objects.len() + 1,
        records.len() == objects.len(),
        forall|i: int| 0 <= i < objects.len() ==> is_object_text(#[trigger] objects[i]),
        forall|i: int|
            0 <= i < objects.len() ==> progress_of_frame(#[trigger] objects[i]) == Some(records[i]),
        forall|i: int| 0 <= i < gaps.len() ==> is_blank(#[trigger] gaps[i]),
        joined(chunks) == spaced(objects, gaps),
    ensures
        after_chunks(opened(), chunks) == (opened(), records),
{
    lemma_chunking_is_irrelevant(opened(), chunks);
    lemma_scan_spaced(objects, gaps);
    lemma_records_of_decodable(objects, records);
}

/// An object that does not decode, standing between two that do, is skipped:
/// the two records around it are delivered, in order, and nothing else.
pub proof fn lemma_malformed_object_is_skipped(
    first: Seq<u8>,
    malformed: Seq<u8>,
    second: Seq<u8>,
    gaps: Seq<Seq<u8>>,
    chunks: Seq<Seq<u8>>,
)
    requires
        is_object_text(first),
        is_object_text(malformed),
        is_object_text(second),
        progress_of_frame(first) is Some,
        progress_of_frame(malformed) is None,
        progress_of_frame(second) is Some,
        gaps.len() == 4,
        forall|i: int| 0 <= i < gaps.len() ==> is_blank(#[trigger] gaps[i]),
        joined(chunks) == spaced(seq![first, malformed, second], gaps),
    ensures
        after_chunks(opened(), chunks) == (
            opened(),
            seq![progress_of_frame(first)->0, progress_of_frame(second)->0],
        ),
{
    let objects = seq![first, malformed, second];
    lemma_chunking_is_irrelevant(opened(), chunks);
    lemma_scan_spaced(objects, gaps);
    reveal_with_fuel(records_of, 4);
    assert(objects.drop_last() =~= seq![first, malformed]);
    assert(objects.drop_last().drop_last() =~= seq![first]);
    assert(objects.drop_last().drop_last().drop_last() =~= Seq::<Seq<u8>>::empty());
    assert(records_of(objects) =~= seq![
        progress_of_frame(first)->0,
        progress_of_frame(second)->0,
    ]);
}

/// Feeding chunks never resolves a stream.
pub proof fn lemma_chunks_keep_phase(m: StreamModel, chunks: Seq<Seq<u8>>)
    ensures
        after_chunks(m, chunks).0.phase == m.phase,
        after_chunks(m, chunks).0.failure == m.failure,
    decreases chunks.len(),
{
    if chunks.len() > 0 {
        lemma_chunks_keep_phase(m, chunks.drop_last());
    }
}

/// A transport failure resolves the pull as a transport error and as
/// nothing else: later chunks deliver nothing, and neither the end of the
/// body nor another failure changes the result.
pub proof fn lemma_failure_is_final(
    chunks: Seq<Seq<u8>>,
    reason: Seq<char>,
    later: Seq<u8>,
    again: Seq<char>,
)
    ensures
        ({
            let failed = after_failure(after_chunks(opened(), chunks).0, reason);
            &&& resolution(failed) == Some(
                Err::<(), ClientErrorView>(ClientErrorView::Transport(reason)),
            )
            &&& after_chunk(failed, later) == (failed, Seq::<PullProgressView>::empty())
            &&& after_end(failed) == failed
            &&& after_failure(failed, again) == failed
        }),
{
    lemma_chunks_keep_phase(opened(), chunks);
}

/// A transport failure in the middle of a stream: the objects that were
/// complete by then have delivered their records, one for one and in order,
/// the object under way delivers nothing, and the pull resolves as a
/// transport error.
pub proof fn lemma_failure_keeps_what_was_delivered(
    objects: Seq<Seq<u8>>,
    gaps: Seq<Seq<u8>>,
    records: Seq<PullProgressView>,
    unfinished: Seq<u8>,
    chunks: Seq<Seq<u8>>,
    reason: Seq<char>,
)
    requires
        gaps.len() == objects.len() + 1,
        records.len() == objects.len(),
        forall|i: int| 0 <= i < objects.len() ==> is_object_text(#[trigger] objects[i]),
        forall|i: int|
            0 <= i < objects.len() ==> progress_of_frame(#[trigger] objects[i]) == Some(records[i]),
        forall|i: int| 0 <= i < gaps.len() ==> is_blank(#[trigger] gaps[i]),
        scan(idle(), unfinished).1 == Seq::<Seq<u8>>::empty(),
        joined(chunks) == spaced(objects, gaps) + unfinished,
    ensures
        after_chunks(opened(), chunks).1 == records,
        resolution(after_failure(after_chunks(opened(), chunks).0, reason)) == Some(
            Err::<(), ClientErrorView>(ClientErrorView::Transport(reason)),
        ),
{
    lemma_chunking_is_irrelevant(opened(), chunks);
    lemma_scan_spaced(objects, gaps);
    lemma_scan_concat(idle(), spaced(objects, gaps), unfinished);
    assert(objects + Seq::<Seq<u8>>::empty() =~= objects);
    lemma_records_of_decodable(objects, records);
    lemma_chunks_keep_phase(opened(), chunks);
}

/// The end of the body resolves a stream that awaits chunks as a success,
/// and a resolved stream stays resolved.
pub proof fn lemma_end_is_final(chunks: Seq<Seq<u8>>, later: Seq<u8>, reason: Seq<char>)
    ensures
        ({
            let ended = after_end(after_chunks(opened(), chunks).0);
            &&& resolution(ended) == Some(Ok::<(), ClientErrorView>(()))
            &&& after_chunk(ended, later) == (ended, Seq::<PullProgressView>::empty())
            &&& after_failure(ended, reason) == ended
            &&& after_end(ended) == ended
        }),
{
    lemma_chunks_keep_phase(opened(), chunks);
}

} // verus!
