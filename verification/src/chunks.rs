//! Assembling the kept pieces of a clipped line into subpaths.
//!
//! Line clipping cuts every segment of a flattened subpath at its crossings
//! with the clip boundary and keeps some of the pieces.  The kept pieces are
//! chained into polylines ("chunks"): a piece that starts where the current
//! chunk ends extends it, any other piece starts a new chunk.  For a closed
//! subpath, a last chunk that runs into the start of the first one is joined
//! to it.  Each chunk then becomes an open subpath of line segments, or a
//! closed one when it comes back to its start.
//!
//! Whether two points coincide is decided by a closeness test handed in by
//! the caller (a distance tolerance on coordinates); it must answer the same
//! for the same points.

use vstd::prelude::*;
use crate::wire::{SubpathView, WireSegment, WireSubpath};

verus! {

/// The closeness test answers every question, and the same way each time.
pub open spec fn closeness_functional<P, C>(close: C) -> bool
    where
        C: Fn(&P, &P) -> bool,
{
    &&& forall|a: &P, b: &P| call_requires(close, (a, b))
    &&& forall|a: &P, b: &P, r: bool| #[trigger] call_ensures(close, (a, b), r) ==> r == call_ensures(close, (a, b), true)
}

/// The closeness test says that `a` and `b` coincide: it cannot answer
/// that they are apart.
pub open spec fn is_close<P, C>(close: C, a: P, b: P) -> bool
    where
        C: Fn(&P, &P) -> bool,
{
    !call_ensures(close, (&a, &b), false)
}

/// Asks the closeness test about `a` and `b`.
fn close_to<P, C>(close: &C, a: &P, b: &P) -> (r: bool)
    where
        C: Fn(&P, &P) -> bool,
    requires
        closeness_functional::<P, C>(*close),
    ensures
        r == is_close(*close, *a, *b),
{
    close(a, b)
}

/// The points of each chunk.
pub open spec fn chunk_points<P>(chunks: Seq<Vec<P>>) -> Seq<Seq<P>> {
    chunks.map_values(|c: Vec<P>| c@)
}

/// Every chunk has at least two points.
pub open spec fn chunks_well_formed<P>(chunks: Seq<Seq<P>>) -> bool {
    forall|i: int| 0 <= i < chunks.len() ==> (#[trigger] chunks[i]).len() >= 2
}

/// The chunks after the piece from `start` to `end` is added: a piece
/// whose ends coincide is dropped; a piece that starts at the end of the
/// last chunk extends it with `end` (unless `end` coincides with that end
/// too); any other piece starts a new chunk.
pub open spec fn spec_push_chunk<P, C>(close: C, chunks: Seq<Seq<P>>, start: P, end: P) -> Seq<Seq<P>>
    where
        C: Fn(&P, &P) -> bool,
{
    if is_close(close, start, end) {
        chunks
    } else if chunks.len() > 0 && chunks.last().len() > 0 && is_close(close, chunks.last().last(), start) {
        if is_close(close, chunks.last().last(), end) {
            chunks
        } else {
            chunks.update(chunks.len() - 1, chunks.last().push(end))
        }
    } else {
        chunks.push(seq![start, end])
    }
}

/// Adds the kept piece from `start` to `end` to the chunks.
pub fn push_chunk<P: Copy, C>(chunks: &mut Vec<Vec<P>>, start: P, end: P, close: &C)
    where
        C: Fn(&P, &P) -> bool,
    requires
        closeness_functional::<P, C>(*close),
    ensures
        chunk_points(final(chunks)@) == spec_push_chunk(*close, chunk_points(old(chunks)@), start, end),
{
    let ghost before = chunk_points(chunks@);
    if close_to(close, &start, &end) {
        return;
    }
    let n = chunks.len();
    if n > 0 {
        let m = chunks[n - 1].len();
        if m > 0 {
            let last = chunks[n - 1][m - 1];
            assert(before.last() == chunks@[n - 1]@);
            if close_to(close, &last, &start) {
                if !close_to(close, &last, &end) {
                    let mut c = chunks.pop().unwrap();
                    c.push(end);
                    chunks.push(c);
                    assert(chunk_points(chunks@) =~= before.update(n - 1, before.last().push(end)));
                }
                return;
            }
        }
    }
    let mut c: Vec<P> = Vec::new();
    c.push(start);
    c.push(end);
    assert(c@ =~= seq![start, end]);
    let ghost mid = chunks@;
    assert(chunk_points(mid) == before);
    chunks.push(c);
    assert(chunks@ == mid.push(c));
    assert(chunk_points(chunks@) =~= before.push(seq![start, end]));
}

/// The chunks of a closed subpath after joining the wrap-around: when
/// there are at least two chunks and the first one starts where the last
/// one ends, the last chunk followed by the first (without its repeated
/// start point) takes the place of both, at the front.
pub open spec fn spec_merge_wraparound<P, C>(close: C, chunks: Seq<Seq<P>>) -> Seq<Seq<P>>
    where
        C: Fn(&P, &P) -> bool,
{
    if chunks.len() >= 2 && chunks[0].len() > 0 && chunks.last().len() > 0 && is_close(
        close,
        chunks[0][0],
        chunks.last().last(),
    ) {
        seq![chunks.last() + chunks[0].skip(1)] + chunks.subrange(1, chunks.len() - 1)
    } else {
        chunks
    }
}

/// Joins the last chunk of a closed subpath to the first when the line runs
/// on through the subpath's start point.
pub fn merge_closed_wraparound<P: Copy, C>(chunks: &mut Vec<Vec<P>>, close: &C)
    where
        C: Fn(&P, &P) -> bool,
    requires
        closeness_functional::<P, C>(*close),
    ensures
        chunk_points(final(chunks)@) == spec_merge_wraparound(*close, chunk_points(old(chunks)@)),
{
    let ghost before = chunk_points(chunks@);
    let n = chunks.len();
    if n < 2 {
        return;
    }
    if chunks[0].len() == 0 || chunks[n - 1].len() == 0 {
        assert(before[0] == chunks@[0]@);
        assert(before.last() == chunks@[n - 1]@);
        return;
    }
    let first_start = chunks[0][0];
    let last_end = chunks[n - 1][chunks[n - 1].len() - 1];
    assert(before[0] == chunks@[0]@);
    assert(before.last() == chunks@[n - 1]@);
    if !close_to(close, &first_start, &last_end) {
        return;
    }
    let first = chunks.remove(0);
    let mut last = chunks.pop().unwrap();
    assert(first@ == before[0]);
    assert(last@ == before.last());
    let m = first.len();
    let mut j: usize = 1;
    while j < m
        invariant
            m == first@.len(),
            1 <= j <= m,
            last@ == before.last() + first@.subrange(1, j as int),
        decreases m - j,
    {
        last.push(first[j]);
        j = j + 1;
        assert(last@ =~= before.last() + first@.subrange(1, j as int));
    }
    assert(first@.subrange(1, m as int) =~= first@.skip(1));
    let ghost middle = chunk_points(chunks@);
    assert(middle =~= before.subrange(1, n - 1));
    chunks.insert(0, last);
    assert(chunk_points(chunks@) =~= seq![before.last() + before[0].skip(1)] + before.subrange(1, n - 1));
}

/// The line segments through `points`, in order.
pub open spec fn line_segments<P>(points: Seq<P>) -> Seq<WireSegment<P>> {
    points.map_values(|p: P| WireSegment::Line { to: p })
}

/// The subpath made of one chunk, if any: a chunk of fewer than two points
/// gives nothing; a chunk of a closed subpath that has more than two points
/// and comes back to its start gives a closed subpath (its repeated end
/// point left out); any other chunk gives an open polyline.
pub open spec fn chunk_subpath<P, C>(close: C, chunk: Seq<P>, original_closed: bool) -> Option<SubpathView<P>>
    where
        C: Fn(&P, &P) -> bool,
{
    if chunk.len() < 2 {
        None
    } else {
        let closed = original_closed && chunk.len() > 2 && is_close(close, chunk[0], chunk.last());
        let points = if closed {
            chunk.drop_last()
        } else {
            chunk
        };
        if points.len() < 2 {
            None
        } else {
            Some(SubpathView { origin: points[0], closed, segments: line_segments(points.skip(1)) })
        }
    }
}

/// The subpaths made of the chunks, in order.
pub open spec fn chunk_subpaths<P, C>(close: C, chunks: Seq<Seq<P>>, original_closed: bool) -> Seq<SubpathView<P>>
    where
        C: Fn(&P, &P) -> bool,
    decreases chunks.len(),
{
    if chunks.len() == 0 {
        Seq::empty()
    } else {
        let rest = chunk_subpaths(close, chunks.drop_last(), original_closed);
        match chunk_subpath(close, chunks.last(), original_closed) {
            Some(s) => rest.push(s),
            None => rest,
        }
    }
}

/// The subpaths that the kept pieces of one subpath become.
pub open spec fn spec_chunks_to_wire<P, C>(close: C, chunks: Seq<Seq<P>>, original_closed: bool) -> Seq<SubpathView<P>>
    where
        C: Fn(&P, &P) -> bool,
{
    chunk_subpaths(
        close,
        if original_closed {
            spec_merge_wraparound(close, chunks)
        } else {
            chunks
        },
        original_closed,
    )
}

/// The subpath of one chunk.
fn chunk_to_subpath<P: Copy, C>(chunk: &Vec<P>, original_closed: bool, close: &C) -> (r: Option<WireSubpath<P>>)
    where
        C: Fn(&P, &P) -> bool,
    requires
        closeness_functional::<P, C>(*close),
    ensures
        match chunk_subpath(*close, chunk@, original_closed) {
            Some(s) => r matches Some(w) && w@ == s,
            None => r is None,
        },
{
    let n = chunk.len();
    if n < 2 {
        return None;
    }
    let closed = original_closed && n > 2 && close_to(close, &chunk[0], &chunk[n - 1]);
    let count = if closed {
        n - 1
    } else {
        n
    };
    let ghost points = if closed {
        chunk@.drop_last()
    } else {
        chunk@
    };
    assert(points =~= chunk@.take(count as int));
    if count < 2 {
        return None;
    }
    let mut segments: Vec<WireSegment<P>> = Vec::new();
    let mut i: usize = 1;
    while i < count
        invariant
            count <= n,
            n == chunk@.len(),
            1 <= i <= count,
            segments@ == line_segments(chunk@.subrange(1, i as int)),
        decreases count - i,
    {
        segments.push(WireSegment::Line { to: chunk[i] });
        i = i + 1;
        assert(segments@ =~= line_segments(chunk@.subrange(1, i as int)));
    }
    assert(points.skip(1) =~= chunk@.subrange(1, count as int));
    Some(WireSubpath { origin: chunk[0], closed, segments })
}

/// Turns the chunks of one clipped subpath into subpaths (joining the
/// wrap-around first when the subpath was closed).
pub fn chunks_to_wire<P: Copy, C>(chunks: Vec<Vec<P>>, original_closed: bool, close: &C) -> (r: Vec<WireSubpath<P>>)
    where
        C: Fn(&P, &P) -> bool,
    requires
        closeness_functional::<P, C>(*close),
    ensures
        r@.map_values(|s: WireSubpath<P>| s@) == spec_chunks_to_wire(*close, chunk_points(chunks@), original_closed),
{
    let mut chunks = chunks;
    let ghost given = chunk_points(chunks@);
    if original_closed {
        merge_closed_wraparound(&mut chunks, close);
    }
    let ghost merged = chunk_points(chunks@);
    assert(merged == if original_closed {
        spec_merge_wraparound(*close, given)
    } else {
        given
    });
    let n = chunks.len();
    let mut out: Vec<WireSubpath<P>> = Vec::new();
    let mut i: usize = 0;
    while i < n
        invariant
            n == chunks@.len(),
            merged == chunk_points(chunks@),
            closeness_functional::<P, C>(*close),
            i <= n,
            out@.map_values(|s: WireSubpath<P>| s@) == chunk_subpaths(*close, merged.take(i as int), original_closed),
        decreases n - i,
    {
        let ghost before = out@;
        assert(merged.take(i + 1).drop_last() =~= merged.take(i as int));
        assert(merged[i as int] == chunks@[i as int]@);
        match chunk_to_subpath(&chunks[i], original_closed, close) {
            Some(s) => {
                out.push(s);
                assert(out@.map_values(|s: WireSubpath<P>| s@) =~= before.map_values(|s: WireSubpath<P>| s@).push(s@));
            },
            None => {},
        }
        i = i + 1;
    }
    assert(merged.take(n as int) =~= merged);
    out
}

/// The subpaths that remain of one clipped subpath: the subpath itself,
/// curves and all, when every piece of it is kept; the polylines assembled
/// from the kept pieces when only some are kept; nothing when none is kept.
pub open spec fn spec_subpath_pieces<P, C>(
    close: C,
    original: SubpathView<P>,
    chunks: Seq<Seq<P>>,
    flat_closed: bool,
    all_kept: bool,
    any_kept: bool,
) -> Seq<SubpathView<P>>
    where
        C: Fn(&P, &P) -> bool,
{
    if all_kept && any_kept {
        seq![original]
    } else if any_kept {
        spec_chunks_to_wire(close, chunks, flat_closed)
    } else {
        Seq::empty()
    }
}

/// What remains of one clipped subpath, given its kept pieces chained
/// into chunks and whether all or any of its pieces were kept.
pub fn subpath_pieces<P: Copy, C>(
    original: &WireSubpath<P>,
    chunks: Vec<Vec<P>>,
    flat_closed: bool,
    all_kept: bool,
    any_kept: bool,
    close: &C,
) -> (r: Vec<WireSubpath<P>>)
    where
        C: Fn(&P, &P) -> bool,
    requires
        closeness_functional::<P, C>(*close),
    ensures
        r@.map_values(|s: WireSubpath<P>| s@) == spec_subpath_pieces(
            *close,
            original@,
            chunk_points(chunks@),
            flat_closed,
            all_kept,
            any_kept,
        ),
{
    if all_kept && any_kept {
        let mut r: Vec<WireSubpath<P>> = Vec::new();
        r.push(original.duplicate());
        assert(r@.map_values(|s: WireSubpath<P>| s@) =~= seq![original@]);
        r
    } else if any_kept {
        chunks_to_wire(chunks, flat_closed, close)
    } else {
        let r: Vec<WireSubpath<P>> = Vec::new();
        assert(r@.map_values(|s: WireSubpath<P>| s@) =~= Seq::<SubpathView<P>>::empty());
        r
    }
}

/// Adding a piece keeps every chunk at two points or more.
pub proof fn lemma_push_chunk_well_formed<P, C>(close: C, chunks: Seq<Seq<P>>, start: P, end: P)
    where
        C: Fn(&P, &P) -> bool,
    requires
        chunks_well_formed(chunks),
    ensures
        chunks_well_formed(spec_push_chunk(close, chunks, start, end)),
{
    let r = spec_push_chunk(close, chunks, start, end);
    assert forall|i: int| 0 <= i < r.len() implies (#[trigger] r[i]).len() >= 2 by {
        if i < chunks.len() {
            assert(chunks[i].len() >= 2);
        }
    }
}

/// Every subpath made of chunks is a polyline of at least one line
/// segment, and it is closed only if the clipped subpath was closed.
pub proof fn lemma_chunk_subpaths_shape<P, C>(close: C, chunks: Seq<Seq<P>>, original_closed: bool)
    where
        C: Fn(&P, &P) -> bool,
    ensures
        forall|i: int|
            0 <= i < chunk_subpaths(close, chunks, original_closed).len() ==> {
                let s = #[trigger] chunk_subpaths(close, chunks, original_closed)[i];
                &&& s.segments.len() >= 1
                &&& forall|j: int| 0 <= j < s.segments.len() ==> (#[trigger] s.segments[j]) is Line
                &&& (s.closed ==> original_closed)
            },
    decreases chunks.len(),
{
    if chunks.len() > 0 {
        lemma_chunk_subpaths_shape(close, chunks.drop_last(), original_closed);
    }
}

/// A piece of a flattened subpath between two cuts: its two ends and a
/// probe (a point inside it) by which it is decided whether it is kept.
pub struct LinePiece<P, M> {
    pub start: P,
    pub end: P,
    pub probe: M,
}

/// The keep test answers every question, and the same way each time.
pub open spec fn keep_functional<M, K>(keep: K) -> bool
    where
        K: Fn(&M) -> bool,
{
    &&& forall|m: &M| call_requires(keep, (m,))
    &&& forall|m: &M, r: bool| #[trigger] call_ensures(keep, (m,), r) ==> r == call_ensures(keep, (m,), true)
}

/// The keep test keeps the piece probed at `m`: it cannot answer that it drops it.
pub open spec fn keeps<M, K>(keep: K, m: M) -> bool
    where
        K: Fn(&M) -> bool,
{
    !call_ensures(keep, (&m,), false)
}

/// Asks the keep test about the probe `m`.
fn keep_probe<M, K>(keep: &K, m: &M) -> (r: bool)
    where
        K: Fn(&M) -> bool,
    requires
        keep_functional::<M, K>(*keep),
    ensures
        r == keeps(*keep, *m),
{
    keep(m)
}

/// The chunks made of the kept pieces among `pieces`, in their order.
pub open spec fn kept_chunks<P, M, K, C>(keep: K, close: C, pieces: Seq<LinePiece<P, M>>) -> Seq<Seq<P>>
    where
        K: Fn(&M) -> bool,
        C: Fn(&P, &P) -> bool,
    decreases pieces.len(),
{
    if pieces.len() == 0 {
        Seq::empty()
    } else {
        let rest = kept_chunks(keep, close, pieces.drop_last());
        let last = pieces.last();
        if keeps(keep, last.probe) {
            spec_push_chunk(close, rest, last.start, last.end)
        } else {
            rest
        }
    }
}

/// Every piece is kept.
pub open spec fn all_pieces_kept<P, M, K>(keep: K, pieces: Seq<LinePiece<P, M>>) -> bool
    where
        K: Fn(&M) -> bool,
{
    forall|i: int| 0 <= i < pieces.len() ==> keeps(keep, #[trigger] pieces[i].probe)
}

/// Some piece is kept.
pub open spec fn any_piece_kept<P, M, K>(keep: K, pieces: Seq<LinePiece<P, M>>) -> bool
    where
        K: Fn(&M) -> bool,
{
    exists|i: int| 0 <= i < pieces.len() && keeps(keep, #[trigger] pieces[i].probe)
}

/// What remains of one subpath of a body after line clipping.  A subpath
/// that cannot touch the clip boundary lies wholly on one side of it: it is
/// kept whole or dropped, by its one probe.  Any other subpath has been cut
/// into pieces: it is kept whole when every piece is kept (and there is
/// one), dropped when none is, and otherwise becomes the polylines chained
/// from its kept pieces.
pub open spec fn spec_clip_flat_subpath<P, M, K, C>(
    keep: K,
    close: C,
    original: SubpathView<P>,
    flat_closed: bool,
    may_touch_boundary: bool,
    whole_probe: M,
    pieces: Seq<LinePiece<P, M>>,
) -> Seq<SubpathView<P>>
    where
        K: Fn(&M) -> bool,
        C: Fn(&P, &P) -> bool,
{
    if !may_touch_boundary {
        if keeps(keep, whole_probe) {
            seq![original]
        } else {
            Seq::empty()
        }
    } else {
        spec_subpath_pieces(
            close,
            original,
            kept_chunks(keep, close, pieces),
            flat_closed,
            all_pieces_kept(keep, pieces),
            any_piece_kept(keep, pieces),
        )
    }
}

/// Line-clips one subpath of a body, given whether it may touch the clip
/// boundary, a probe of the whole subpath, and its pieces between the cuts
/// in order along the subpath; `keep` tells whether the piece at a probe
/// is kept.
pub fn clip_flat_subpath<P: Copy, M, K, C>(
    original: &WireSubpath<P>,
    flat_closed: bool,
    may_touch_boundary: bool,
    whole_probe: &M,
    pieces: &Vec<LinePiece<P, M>>,
    keep: &K,
    close: &C,
) -> (r: Vec<WireSubpath<P>>)
    where
        K: Fn(&M) -> bool,
        C: Fn(&P, &P) -> bool,
    requires
        keep_functional::<M, K>(*keep),
        closeness_functional::<P, C>(*close),
    ensures
        r@.map_values(|s: WireSubpath<P>| s@) == spec_clip_flat_subpath(
            *keep,
            *close,
            original@,
            flat_closed,
            may_touch_boundary,
            *whole_probe,
            pieces@,
        ),
{
    if !may_touch_boundary {
        let mut r: Vec<WireSubpath<P>> = Vec::new();
        if keep_probe(keep, whole_probe) {
            r.push(original.duplicate());
            assert(r@.map_values(|s: WireSubpath<P>| s@) =~= seq![original@]);
        } else {
            assert(r@.map_values(|s: WireSubpath<P>| s@) =~= Seq::<SubpathView<P>>::empty());
        }
        return r;
    }
    let mut chunks: Vec<Vec<P>> = Vec::new();
    let mut all_kept = true;
    let mut any_kept = false;
    let n = pieces.len();
    let mut i: usize = 0;
    assert(chunk_points(chunks@) =~= Seq::<Seq<P>>::empty());
    while i < n
        invariant
            n == pieces@.len(),
            i <= n,
            keep_functional::<M, K>(*keep),
            closeness_functional::<P, C>(*close),
            chunk_points(chunks@) == kept_chunks(*keep, *close, pieces@.take(i as int)),
            all_kept == all_pieces_kept(*keep, pieces@.take(i as int)),
            any_kept == any_piece_kept(*keep, pieces@.take(i as int)),
        decreases n - i,
    {
        let ghost before = pieces@.take(i as int);
        let ghost next = pieces@.take(i + 1);
        assert(next.drop_last() =~= before);
        assert(next.last() == pieces@[i as int]);
        let piece = &pieces[i];
        if keep_probe(keep, &piece.probe) {
            push_chunk(&mut chunks, piece.start, piece.end, close);
            assert(any_piece_kept(*keep, next)) by {
                assert(keeps(*keep, next[i as int].probe));
            }
            assert(all_kept ==> all_pieces_kept(*keep, next)) by {
                if all_kept {
                    assert forall|j: int| 0 <= j < next.len() implies keeps(*keep, #[trigger] next[j].probe) by {
                        if j < i {
                            assert(next[j] == before[j]);
                        }
                    }
                }
            }
            assert(!all_kept ==> !all_pieces_kept(*keep, next)) by {
                if !all_kept {
                    let j = choose|j: int| 0 <= j < before.len() && !keeps(*keep, #[trigger] before[j].probe);
                    assert(next[j] == before[j]);
                }
            }
            any_kept = true;
        } else {
            assert(!all_pieces_kept(*keep, next)) by {
                assert(!keeps(*keep, next[i as int].probe));
            }
            assert(any_kept == any_piece_kept(*keep, next)) by {
                if any_kept {
                    let j = choose|j: int| 0 <= j < before.len() && keeps(*keep, #[trigger] before[j].probe);
                    assert(next[j] == before[j]);
                } else {
                    assert forall|j: int| 0 <= j < next.len() implies !keeps(*keep, #[trigger] next[j].probe) by {
                        if j < i {
                            assert(next[j] == before[j]);
                        }
                    }
                }
            }
            all_kept = false;
        }
        i = i + 1;
    }
    assert(pieces@.take(n as int) =~= pieces@);
    subpath_pieces(original, chunks, flat_closed, all_kept, any_kept, close)
}

/// Every chunk chained from kept pieces has at least two points.
pub proof fn lemma_kept_chunks_well_formed<P, M, K, C>(keep: K, close: C, pieces: Seq<LinePiece<P, M>>)
    where
        K: Fn(&M) -> bool,
        C: Fn(&P, &P) -> bool,
    ensures
        chunks_well_formed(kept_chunks(keep, close, pieces)),
    decreases pieces.len(),
{
    if pieces.len() > 0 {
        lemma_kept_chunks_well_formed(keep, close, pieces.drop_last());
        let last = pieces.last();
        if keeps(keep, last.probe) {
            lemma_push_chunk_well_formed(close, kept_chunks(keep, close, pieces.drop_last()), last.start, last.end);
        }
    }
}

/// A kept piece that starts where the last chunk ends extends that chunk
/// by its end point, however many chunks there are: the chunks before it
/// stay as they are and no chunk is added.
pub proof fn lemma_push_chunk_extends_last<P, C>(close: C, chunks: Seq<Seq<P>>, start: P, end: P)
    where
        C: Fn(&P, &P) -> bool,
    requires
        chunks.len() > 0,
        chunks.last().len() > 0,
        !is_close(close, start, end),
        is_close(close, chunks.last().last(), start),
        !is_close(close, chunks.last().last(), end),
    ensures
        spec_push_chunk(close, chunks, start, end).len() == chunks.len(),
        forall|i: int|
            0 <= i < chunks.len() - 1 ==> #[trigger] spec_push_chunk(close, chunks, start, end)[i] == chunks[i],
        spec_push_chunk(close, chunks, start, end).last() == chunks.last().push(end),
{
}

/// A kept piece that does not start where the last chunk ends (or with no
/// chunk yet) starts a new chunk of its two ends after the others.
pub proof fn lemma_push_chunk_starts_new<P, C>(close: C, chunks: Seq<Seq<P>>, start: P, end: P)
    where
        C: Fn(&P, &P) -> bool,
    requires
        !is_close(close, start, end),
        chunks.len() == 0 || chunks.last().len() == 0 || !is_close(close, chunks.last().last(), start),
    ensures
        spec_push_chunk(close, chunks, start, end) == chunks.push(seq![start, end]),
{
}

/// Every chunk of well-formed chunks gives a subpath, in order.
pub proof fn lemma_chunk_subpaths_of_well_formed<P, C>(close: C, chunks: Seq<Seq<P>>, original_closed: bool)
    where
        C: Fn(&P, &P) -> bool,
    requires
        chunks_well_formed(chunks),
    ensures
        chunk_subpaths(close, chunks, original_closed).len() == chunks.len(),
        forall|i: int|
            0 <= i < chunks.len() ==> chunk_subpath(close, #[trigger] chunks[i], original_closed) == Some(
                chunk_subpaths(close, chunks, original_closed)[i],
            ),
    decreases chunks.len(),
{
    if chunks.len() > 0 {
        let init = chunks.drop_last();
        assert(chunks_well_formed(init)) by {
            assert forall|i: int| 0 <= i < init.len() implies (#[trigger] init[i]).len() >= 2 by {
                assert(init[i] == chunks[i]);
            }
        }
        lemma_chunk_subpaths_of_well_formed(close, init, original_closed);
        assert(chunks.last() == chunks[chunks.len() - 1]);
        assert(chunks.last().len() >= 2);
        let r = chunk_subpaths(close, chunks, original_closed);
        assert forall|i: int| 0 <= i < chunks.len() implies chunk_subpath(close, #[trigger] chunks[i], original_closed)
            == Some(r[i]) by {
            if i < chunks.len() - 1 {
                assert(chunks[i] == init[i]);
            }
        }
    }
}

/// Line clipping a closed subpath: when there are two chunks or more, all
/// of at least two points, and the last chunk ends where the first one
/// starts, the two become a single subpath: it starts at the start of the
/// last chunk and runs through the last chunk and then the first (without
/// its repeated start point).  So the result has one subpath fewer than
/// there are chunks.
pub proof fn lemma_closed_wraparound_joined<P, C>(close: C, chunks: Seq<Seq<P>>)
    where
        C: Fn(&P, &P) -> bool,
    requires
        chunks.len() >= 2,
        chunks_well_formed(chunks),
        is_close(close, chunks[0][0], chunks.last().last()),
    ensures
        spec_chunks_to_wire(close, chunks, true).len() == chunks.len() - 1,
        spec_chunks_to_wire(close, chunks, true)[0].origin == chunks.last()[0],
        !is_close(close, chunks.last()[0], chunks[0].last()) ==> spec_chunks_to_wire(close, chunks, true)[0]
            == (SubpathView {
            origin: chunks.last()[0],
            closed: false,
            segments: line_segments(chunks.last().skip(1) + chunks[0].skip(1)),
        }),
{
    let n = chunks.len();
    assert(chunks[n - 1] == chunks.last());
    assert(chunks[0].len() >= 2 && chunks.last().len() >= 2);
    let joined = chunks.last() + chunks[0].skip(1);
    let merged = spec_merge_wraparound(close, chunks);
    assert(merged == seq![joined] + chunks.subrange(1, n - 1));
    assert(merged[0] == joined);
    assert(chunks_well_formed(merged)) by {
        assert forall|i: int| 0 <= i < merged.len() implies (#[trigger] merged[i]).len() >= 2 by {
            if i > 0 {
                assert(merged[i] == chunks[i]);
            }
        }
    }
    lemma_chunk_subpaths_of_well_formed(close, merged, true);
    assert(joined[0] == chunks.last()[0]);
    assert(joined.last() == chunks[0].last());
    if !is_close(close, chunks.last()[0], chunks[0].last()) {
        assert(joined.skip(1) =~= chunks.last().skip(1) + chunks[0].skip(1));
    }
}

/// `x` is an end of a kept piece among `pieces`.
pub open spec fn end_of_kept_piece<P, M, K>(keep: K, pieces: Seq<LinePiece<P, M>>, x: P) -> bool
    where
        K: Fn(&M) -> bool,
{
    exists|j: int|
        0 <= j < pieces.len() && keeps(keep, #[trigger] pieces[j].probe) && (x == pieces[j].start || x
            == pieces[j].end)
}

/// Every point of the chunks chained from pieces is an end of a kept piece.
pub proof fn lemma_kept_chunks_from_kept_pieces<P, M, K, C>(keep: K, close: C, pieces: Seq<LinePiece<P, M>>)
    where
        K: Fn(&M) -> bool,
        C: Fn(&P, &P) -> bool,
    ensures
        forall|c: int, q: int|
            0 <= c < kept_chunks(keep, close, pieces).len() && 0 <= q < kept_chunks(keep, close, pieces)[c].len()
                ==> #[trigger] end_of_kept_piece(keep, pieces, kept_chunks(keep, close, pieces)[c][q]),
    decreases pieces.len(),
{
    if pieces.len() > 0 {
        let init = pieces.drop_last();
        lemma_kept_chunks_from_kept_pieces(keep, close, init);
        let rest = kept_chunks(keep, close, init);
        let r = kept_chunks(keep, close, pieces);
        let n = pieces.len() - 1;
        let last = pieces.last();
        assert(last == pieces[n]);
        assert forall|c: int, q: int| 0 <= c < r.len() && 0 <= q < r[c].len() implies #[trigger] end_of_kept_piece(
            keep,
            pieces,
            r[c][q],
        ) by {
            if c < rest.len() && q < rest[c].len() && r[c][q] == rest[c][q] {
                assert(end_of_kept_piece(keep, init, rest[c][q]));
                let j = choose|j: int|
                    0 <= j < init.len() && keeps(keep, #[trigger] init[j].probe) && (rest[c][q] == init[j].start
                        || rest[c][q] == init[j].end);
                assert(pieces[j] == init[j]);
            } else {
                assert(keeps(keep, pieces[n].probe));
                assert(r[c][q] == pieces[n].start || r[c][q] == pieces[n].end);
            }
        }
    }
}

/// Line clipping one subpath that may touch the clip boundary: if any of
/// its pieces is dropped, wherever it lies, the result is made only of the
/// kept pieces (polylines of line segments chained from them); if every
/// piece is kept (and there is one), the subpath comes out whole; if none
/// is kept, nothing remains.
pub proof fn lemma_clip_flat_subpath_cases<P, M, K, C>(
    keep: K,
    close: C,
    original: SubpathView<P>,
    flat_closed: bool,
    whole_probe: M,
    pieces: Seq<LinePiece<P, M>>,
)
    where
        K: Fn(&M) -> bool,
        C: Fn(&P, &P) -> bool,
    ensures
        (exists|j: int| 0 <= j < pieces.len() && !keeps(keep, #[trigger] pieces[j].probe)) ==> {
            let r = spec_clip_flat_subpath(keep, close, original, flat_closed, true, whole_probe, pieces);
            &&& r == spec_chunks_to_wire(close, kept_chunks(keep, close, pieces), flat_closed)
            &&& forall|i: int, s: int|
                0 <= i < r.len() && 0 <= s < r[i].segments.len() ==> (#[trigger] r[i].segments[s]) is Line
        },
        pieces.len() > 0 && (forall|j: int| 0 <= j < pieces.len() ==> keeps(keep, #[trigger] pieces[j].probe))
            ==> spec_clip_flat_subpath(keep, close, original, flat_closed, true, whole_probe, pieces) == seq![original],
        (forall|j: int| 0 <= j < pieces.len() ==> !keeps(keep, #[trigger] pieces[j].probe))
            ==> spec_clip_flat_subpath(keep, close, original, flat_closed, true, whole_probe, pieces).len() == 0,
{
    if exists|j: int| 0 <= j < pieces.len() && !keeps(keep, #[trigger] pieces[j].probe) {
        let j = choose|j: int| 0 <= j < pieces.len() && !keeps(keep, #[trigger] pieces[j].probe);
        assert(!all_pieces_kept(keep, pieces));
        let chunks = kept_chunks(keep, close, pieces);
        let merged = if flat_closed {
            spec_merge_wraparound(close, chunks)
        } else {
            chunks
        };
        lemma_chunk_subpaths_shape(close, merged, flat_closed);
        let r = spec_clip_flat_subpath(keep, close, original, flat_closed, true, whole_probe, pieces);
        if any_piece_kept(keep, pieces) {
            assert(r == chunk_subpaths(close, merged, flat_closed));
            assert forall|i: int, s: int| 0 <= i < r.len() && 0 <= s < r[i].segments.len() implies (
            #[trigger] r[i].segments[s]) is Line by {
                let si = chunk_subpaths(close, merged, flat_closed)[i];
                assert(si.segments.len() >= 1);
            }
        } else {
            lemma_no_kept_chunks(keep, close, pieces);
        }
    }
    if pieces.len() > 0 && (forall|j: int| 0 <= j < pieces.len() ==> keeps(keep, #[trigger] pieces[j].probe)) {
        assert(keeps(keep, pieces[0].probe));
    }
}

/// With no piece kept there is no chunk.
proof fn lemma_no_kept_chunks<P, M, K, C>(keep: K, close: C, pieces: Seq<LinePiece<P, M>>)
    where
        K: Fn(&M) -> bool,
        C: Fn(&P, &P) -> bool,
    requires
        forall|j: int| 0 <= j < pieces.len() ==> !keeps(keep, #[trigger] pieces[j].probe),
    ensures
        kept_chunks(keep, close, pieces).len() == 0,
        spec_chunks_to_wire(close, kept_chunks(keep, close, pieces), true).len() == 0,
        spec_chunks_to_wire(close, kept_chunks(keep, close, pieces), false).len() == 0,
    decreases pieces.len(),
{
    if pieces.len() > 0 {
        let init = pieces.drop_last();
        assert forall|j: int| 0 <= j < init.len() implies !keeps(keep, #[trigger] init[j].probe) by {
            assert(init[j] == pieces[j]);
        }
        lemma_no_kept_chunks(keep, close, init);
        assert(!keeps(keep, pieces[pieces.len() - 1].probe));
    }
    let e = kept_chunks(keep, close, pieces);
    assert(spec_merge_wraparound(close, e) == e);
}

} // verus!
