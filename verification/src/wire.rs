//! Paths as they cross the wire: a list of subpaths, each an origin
//! followed by line and cubic segments, optionally closed.  The point type
//! is a parameter: the library never looks at coordinates.

use vstd::prelude::*;
use crate::error::PathOpsErr;

verus! {

/// One drawing step of a subpath.
#[derive(Debug, Clone, Copy, PartialEq)]
pub enum WireSegment<P> {
    Line { to: P },
    Cubic { c1: P, c2: P, to: P },
}

/// A subpath: its start point, whether it is closed, and its segments.
#[derive(Debug, Clone, PartialEq)]
pub struct WireSubpath<P> {
    pub origin: P,
    pub closed: bool,
    pub segments: Vec<WireSegment<P>>,
}

/// A path: a sequence of subpaths.
#[derive(Debug, Clone, PartialEq)]
pub struct WirePath<P> {
    pub subpaths: Vec<WireSubpath<P>>,
}

/// The mathematical content of a subpath.
pub struct SubpathView<P> {
    pub origin: P,
    pub closed: bool,
    pub segments: Seq<WireSegment<P>>,
}

impl<P> View for WireSubpath<P> {
    type V = SubpathView<P>;

    open spec fn view(&self) -> SubpathView<P> {
        SubpathView { origin: self.origin, closed: self.closed, segments: self.segments@ }
    }
}

impl<P> View for WirePath<P> {
    type V = Seq<SubpathView<P>>;

    open spec fn view(&self) -> Seq<SubpathView<P>> {
        self.subpaths@.map_values(|s: WireSubpath<P>| s@)
    }
}

/// Every subpath of `s` is closed.
pub open spec fn all_closed<P>(s: Seq<SubpathView<P>>) -> bool {
    forall|i: int| 0 <= i < s.len() ==> #[trigger] s[i].closed
}

/// The closed subpaths of `s`, in their order.
pub open spec fn closed_only<P>(s: Seq<SubpathView<P>>) -> Seq<SubpathView<P>>
    decreases s.len(),
{
    if s.len() == 0 {
        s
    } else {
        let rest = closed_only(s.drop_last());
        if s.last().closed {
            rest.push(s.last())
        } else {
            rest
        }
    }
}

impl<P> WirePath<P> {
    /// The path without subpaths.
    pub fn empty() -> (r: Self)
        ensures
            r@ == Seq::<SubpathView<P>>::empty(),
    {
        WirePath { subpaths: Vec::new() }
    }

    /// Whether the path has no subpaths.
    pub fn is_empty(&self) -> (r: bool)
        ensures
            r == (self@.len() == 0),
    {
        self.subpaths.len() == 0
    }

    /// Whether every subpath is closed.
    pub fn all_subpaths_closed(&self) -> (r: bool)
        ensures
            r == all_closed(self@),
    {
        let n = self.subpaths.len();
        let mut i: usize = 0;
        while i < n
            invariant
                n == self.subpaths@.len(),
                i <= n,
                forall|j: int| 0 <= j < i ==> #[trigger] self@[j].closed,
            decreases n - i,
        {
            assert(self@[i as int] == self.subpaths@[i as int]@);
            if !self.subpaths[i].closed {
                assert(!self@[i as int].closed);
                return false;
            }
            i = i + 1;
        }
        true
    }

    /// Accepts a path only if every subpath is closed (the condition for a
    /// path to bound a region).
    pub fn ensure_closed(&self) -> (r: Result<(), PathOpsErr>)
        ensures
            all_closed(self@) ==> r is Ok,
            !all_closed(self@) ==> r == Err::<(), PathOpsErr>(PathOpsErr::OpenSubpath),
    {
        if self.all_subpaths_closed() {
            Ok(())
        } else {
            Err(PathOpsErr::OpenSubpath)
        }
    }
}

impl<P: Copy> WireSubpath<P> {
    /// A copy of the subpath.
    pub fn duplicate(&self) -> (r: Self)
        ensures
            r@ == self@,
    {
        let n = self.segments.len();
        let mut segments: Vec<WireSegment<P>> = Vec::new();
        let mut i: usize = 0;
        while i < n
            invariant
                n == self.segments@.len(),
                i <= n,
                segments@ == self.segments@.take(i as int),
            decreases n - i,
        {
            segments.push(self.segments[i]);
            i = i + 1;
            assert(segments@ =~= self.segments@.take(i as int));
        }
        assert(self.segments@.take(n as int) =~= self.segments@);
        WireSubpath { origin: self.origin, closed: self.closed, segments }
    }
}

impl<P: Copy> WirePath<P> {
    /// A copy of the path.
    pub fn duplicate(&self) -> (r: Self)
        ensures
            r@ == self@,
    {
        let n = self.subpaths.len();
        let mut out: Vec<WireSubpath<P>> = Vec::new();
        let mut i: usize = 0;
        while i < n
            invariant
                n == self.subpaths@.len(),
                i <= n,
                out@.map_values(|s: WireSubpath<P>| s@) == self@.take(i as int),
            decreases n - i,
        {
            let ghost before = out@;
            let sp = self.subpaths[i].duplicate();
            out.push(sp);
            assert(out@.map_values(|s: WireSubpath<P>| s@)
                =~= before.map_values(|s: WireSubpath<P>| s@).push(sp@));
            i = i + 1;
            assert(out@.map_values(|s: WireSubpath<P>| s@) =~= self@.take(i as int));
        }
        assert(self@.take(n as int) =~= self@);
        WirePath { subpaths: out }
    }

    /// The closed subpaths of the path, in their order: the part of a path
    /// that bounds a region.
    pub fn closed_subpaths(&self) -> (r: WirePath<P>)
        ensures
            r@ == closed_only(self@),
    {
        let n = self.subpaths.len();
        let mut out: Vec<WireSubpath<P>> = Vec::new();
        let mut i: usize = 0;
        while i < n
            invariant
                n == self.subpaths@.len(),
                i <= n,
                out@.map_values(|s: WireSubpath<P>| s@) == closed_only(self@.take(i as int)),
            decreases n - i,
        {
            let ghost before = out@;
            assert(self@.take(i + 1).drop_last() =~= self@.take(i as int));
            if self.subpaths[i].closed {
                let sp = self.subpaths[i].duplicate();
                out.push(sp);
                assert(out@.map_values(|s: WireSubpath<P>| s@)
                    =~= before.map_values(|s: WireSubpath<P>| s@).push(sp@));
            }
            i = i + 1;
        }
        assert(self@.take(n as int) =~= self@);
        WirePath { subpaths: out }
    }
}

/// Keeping the closed subpaths leaves only closed subpaths.
pub proof fn lemma_closed_only_all_closed<P>(s: Seq<SubpathView<P>>)
    ensures
        all_closed(closed_only(s)),
    decreases s.len(),
{
    if s.len() > 0 {
        lemma_closed_only_all_closed(s.drop_last());
    }
}

/// A path whose subpaths are all closed keeps all of them, so keeping the
/// closed subpaths twice is the same as keeping them once.
pub proof fn lemma_closed_only_of_closed<P>(s: Seq<SubpathView<P>>)
    requires
        all_closed(s),
    ensures
        closed_only(s) == s,
    decreases s.len(),
{
    if s.len() > 0 {
        let t = s.drop_last();
        assert(all_closed(t)) by {
            assert forall|i: int| 0 <= i < t.len() implies #[trigger] t[i].closed by {
                assert(t[i] == s[i]);
            }
        }
        lemma_closed_only_of_closed(t);
        assert(s.last().closed);
        assert(t.push(s.last()) =~= s);
    }
}

/// Keeping the closed subpaths is idempotent.
pub proof fn lemma_closed_only_idempotent<P>(s: Seq<SubpathView<P>>)
    ensures
        closed_only(closed_only(s)) == closed_only(s),
{
    lemma_closed_only_all_closed(s);
    lemma_closed_only_of_closed(closed_only(s));
}

/// A path has no closed subpath exactly when keeping its closed subpaths
/// leaves nothing.
pub proof fn lemma_closed_only_empty<P>(s: Seq<SubpathView<P>>)
    ensures
        closed_only(s).len() == 0 <==> (forall|i: int| 0 <= i < s.len() ==> !(#[trigger] s[i].closed)),
    decreases s.len(),
{
    if s.len() > 0 {
        let t = s.drop_last();
        lemma_closed_only_empty(t);
        assert forall|i: int| 0 <= i < t.len() implies #[trigger] t[i] == s[i] by {}
        if closed_only(s).len() == 0 {
            assert(!s.last().closed);
            assert forall|i: int| 0 <= i < s.len() implies !(#[trigger] s[i].closed) by {
                if i < t.len() {
                    assert(t[i] == s[i]);
                }
            }
        } else {
            if forall|i: int| 0 <= i < s.len() ==> !(#[trigger] s[i].closed) {
                assert(!s[s.len() - 1].closed);
                assert forall|i: int| 0 <= i < t.len() implies !(#[trigger] t[i].closed) by {
                    assert(t[i] == s[i]);
                }
            }
        }
    }
}

} // verus!
