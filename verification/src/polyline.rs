//! Flattened subpaths as polylines.
//!
//! A subpath is flattened into a stream of drawing events (a start point,
//! line ends, a close).  The polyline keeps each line end that does not
//! coincide with the point before it, and ends at the subpath's origin when
//! the subpath is closed; a polyline of fewer than two points is dropped.

use vstd::prelude::*;
use crate::chunks::{closeness_functional, is_close};

verus! {

/// One event of a flattened subpath.
#[derive(Clone, Copy, Debug, PartialEq)]
pub enum FlatEvent<P> {
    /// The subpath starts (again) at a point.
    Start(P),
    /// A line to a point.
    LineTo(P),
    /// The subpath closes back to its origin.
    Close,
}

/// The points after one event.
pub open spec fn flat_step<P, C>(close: C, points: Seq<P>, event: FlatEvent<P>, origin: P) -> Seq<P>
    where
        C: Fn(&P, &P) -> bool,
{
    match event {
        FlatEvent::Start(p) => seq![p],
        FlatEvent::LineTo(p) => if points.len() == 0 || !is_close(close, points.last(), p) {
            points.push(p)
        } else {
            points
        },
        FlatEvent::Close => if points.len() > 0 && !is_close(close, points.last(), origin) {
            points.push(origin)
        } else {
            points
        },
    }
}

/// The points after all events, in order.
pub open spec fn flat_points<P, C>(close: C, events: Seq<FlatEvent<P>>, origin: P) -> Seq<P>
    where
        C: Fn(&P, &P) -> bool,
    decreases events.len(),
{
    if events.len() == 0 {
        Seq::empty()
    } else {
        flat_step(close, flat_points(close, events.drop_last(), origin), events.last(), origin)
    }
}

/// The polyline of a flattened subpath: the points of its events, brought
/// back to the origin when the subpath is closed; none when it has fewer
/// than two points.
pub open spec fn spec_flat_polyline<P, C>(
    close: C,
    events: Seq<FlatEvent<P>>,
    origin: P,
    closed: bool,
) -> Option<Seq<P>>
    where
        C: Fn(&P, &P) -> bool,
{
    let points = flat_points(close, events, origin);
    let points = if closed && points.len() > 0 && !is_close(close, points.last(), origin) {
        points.push(origin)
    } else {
        points
    };
    if points.len() >= 2 {
        Some(points)
    } else {
        None
    }
}

/// The polyline of a flattened subpath (see `spec_flat_polyline`).
pub fn flat_polyline<P: Copy, C>(events: &Vec<FlatEvent<P>>, origin: P, closed: bool, close: &C) -> (r: Option<Vec<P>>)
    where
        C: Fn(&P, &P) -> bool,
    requires
        closeness_functional::<P, C>(*close),
    ensures
        match spec_flat_polyline(*close, events@, origin, closed) {
            Some(pts) => r matches Some(v) && v@ == pts,
            None => r is None,
        },
{
    let n = events.len();
    let mut points: Vec<P> = Vec::new();
    let mut i: usize = 0;
    while i < n
        invariant
            n == events@.len(),
            i <= n,
            closeness_functional::<P, C>(*close),
            points@ == flat_points(*close, events@.take(i as int), origin),
        decreases n - i,
    {
        assert(events@.take(i + 1).drop_last() =~= events@.take(i as int));
        match events[i] {
            FlatEvent::Start(p) => {
                points = Vec::new();
                points.push(p);
                assert(points@ =~= seq![p]);
            },
            FlatEvent::LineTo(p) => {
                let m = points.len();
                if m == 0 || !close(&points[m - 1], &p) {
                    points.push(p);
                }
            },
            FlatEvent::Close => {
                let m = points.len();
                if m > 0 && !close(&points[m - 1], &origin) {
                    points.push(origin);
                }
            },
        }
        i = i + 1;
    }
    assert(events@.take(n as int) =~= events@);
    let m = points.len();
    if closed && m > 0 && !close(&points[m - 1], &origin) {
        points.push(origin);
    }
    if points.len() >= 2 {
        Some(points)
    } else {
        None
    }
}

/// No two consecutive points of a polyline coincide.
pub open spec fn no_repeated_points<P, C>(close: C, points: Seq<P>) -> bool
    where
        C: Fn(&P, &P) -> bool,
{
    forall|i: int| 0 < i < points.len() ==> !#[trigger] is_close(close, points[i - 1], points[i])
}

/// Every event keeps consecutive points apart.
pub proof fn lemma_flat_points_apart<P, C>(close: C, events: Seq<FlatEvent<P>>, origin: P)
    where
        C: Fn(&P, &P) -> bool,
    ensures
        no_repeated_points(close, flat_points(close, events, origin)),
    decreases events.len(),
{
    if events.len() > 0 {
        let before = flat_points(close, events.drop_last(), origin);
        lemma_flat_points_apart(close, events.drop_last(), origin);
        let after = flat_points(close, events, origin);
        assert forall|i: int| 0 < i < after.len() implies !#[trigger] is_close(close, after[i - 1], after[i]) by {
            if i < before.len() {
                assert(after[i - 1] == before[i - 1]);
                assert(after[i] == before[i]);
            }
        }
    }
}

/// A flattened polyline never repeats a point consecutively, and a closed
/// subpath's polyline ends at (or next to) its origin.
pub proof fn lemma_flat_polyline_shape<P, C>(close: C, events: Seq<FlatEvent<P>>, origin: P, closed: bool)
    where
        C: Fn(&P, &P) -> bool,
    ensures
        spec_flat_polyline(close, events, origin, closed) matches Some(pts) ==> {
            &&& pts.len() >= 2
            &&& no_repeated_points(close, pts)
            &&& closed ==> (pts.last() == origin || is_close(close, pts.last(), origin))
        },
{
    lemma_flat_points_apart(close, events, origin);
    let points = flat_points(close, events, origin);
    if closed && points.len() > 0 && !is_close(close, points.last(), origin) {
        let pts = points.push(origin);
        assert forall|i: int| 0 < i < pts.len() implies !#[trigger] is_close(close, pts[i - 1], pts[i]) by {
            if i < points.len() {
                assert(pts[i - 1] == points[i - 1]);
                assert(pts[i] == points[i]);
            }
        }
    }
}

/// Flattening keeps every line end that is apart from the point before it:
/// it is appended to the polyline, whatever other point (the origin among
/// them) it coincides with.  So an open subpath's polyline ends at its last
/// line end when that end is apart from the point before it.
pub proof fn lemma_line_end_kept<P, C>(close: C, events: Seq<FlatEvent<P>>, origin: P, p: P)
    where
        C: Fn(&P, &P) -> bool,
    requires
        flat_points(close, events, origin).len() == 0 || !is_close(
            close,
            flat_points(close, events, origin).last(),
            p,
        ),
    ensures
        flat_points(close, events.push(FlatEvent::LineTo(p)), origin) == flat_points(close, events, origin).push(p),
        flat_points(close, events, origin).len() > 0 ==> spec_flat_polyline(
            close,
            events.push(FlatEvent::LineTo(p)),
            origin,
            false,
        ) == Some(flat_points(close, events, origin).push(p)),
{
    let ext = events.push(FlatEvent::LineTo(p));
    assert(ext.drop_last() =~= events);
    assert(ext.last() == FlatEvent::LineTo(p));
}

} // verus!
