//! Clipping paths against a clip region.
//!
//! A body can be clipped as an area (its closed subpaths, combined with the
//! clip region by a boolean operation) and as lines (every subpath cut into
//! the pieces that lie inside, or outside, the clip region).  A batch clips
//! many bodies against one clip region with one tolerance.
//!
//! The geometry is done by kernel closures: the tolerance and boolean
//! kernels of `path_bool`, and a line kernel in two steps (`prepare_line`
//! prepares the clip region once, `clip_line` cuts one body).  The library
//! validates the batch, settles the tolerance, decides for every body which
//! kernels run on what, and assembles the answers.

use vstd::prelude::*;
use crate::boolean::{spec_combine, BoolOp};
use crate::error::PathOpsErr;
use crate::fill::{parse_fill_rule, same_text, spec_parse_fill_rule, spec_winding_inside, winding_inside, FillRule};
use crate::path_bool::{
    auto_eps_outcome, auto_eps_total, boolean_outcome, boolean_total, boolean_wire_outcome,
    boolean_wire_path_with_clip, eps_outcome, path_targets, two_paths, BooleanParams,
};
use crate::wire::{
    all_closed, closed_only, lemma_closed_only_all_closed, lemma_closed_only_empty, lemma_closed_only_of_closed, WirePath,
};

verus! {

/// Whether the inside or the outside of the clip region is kept.
#[derive(Clone, Copy, Debug, PartialEq, Eq)]
pub enum ClipMode {
    Include,
    Exclude,
}

/// The mode named by `mode`, if it names one.
pub open spec fn spec_parse_mode(mode: Seq<char>) -> Option<ClipMode> {
    if mode == "include"@ {
        Some(ClipMode::Include)
    } else if mode == "exclude"@ {
        Some(ClipMode::Exclude)
    } else {
        None
    }
}

/// Reads a clip mode from its wire name: `"include"` or `"exclude"`.
pub fn parse_mode(mode: &str) -> (r: Result<ClipMode, PathOpsErr>)
    ensures
        match spec_parse_mode(mode@) {
            Some(m) => r == Ok::<ClipMode, PathOpsErr>(m),
            None => r matches Err(PathOpsErr::InvalidMode(s)) && s@ == mode@,
        },
{
    if same_text(mode, "include") {
        Ok(ClipMode::Include)
    } else if same_text(mode, "exclude") {
        Ok(ClipMode::Exclude)
    } else {
        Err(PathOpsErr::InvalidMode(mode.to_owned()))
    }
}

/// The boolean operation that clips a body's area (body first, clip second).
pub open spec fn spec_area_op(mode: ClipMode) -> BoolOp {
    match mode {
        ClipMode::Include => BoolOp::Intersection,
        ClipMode::Exclude => BoolOp::Difference,
    }
}

/// The boolean operation that clips a body's area: intersection with the
/// clip region to include it, difference to exclude it.
pub fn area_op_for_mode(mode: ClipMode) -> (r: BoolOp)
    ensures
        r == spec_area_op(mode),
{
    match mode {
        ClipMode::Include => BoolOp::Intersection,
        ClipMode::Exclude => BoolOp::Difference,
    }
}

/// Whether a piece of a line is kept: a piece on the clip boundary is kept
/// when including and dropped when excluding; any other piece is kept when
/// it lies inside the clip region (winding number `winding` under
/// `fill_rule`) and the mode includes, or outside and the mode excludes.
pub open spec fn spec_keeps_piece(mode: ClipMode, fill_rule: FillRule, on_boundary: bool, winding: int) -> bool {
    if on_boundary {
        mode == ClipMode::Include
    } else {
        let inside = spec_winding_inside(winding, fill_rule);
        match mode {
            ClipMode::Include => inside,
            ClipMode::Exclude => !inside,
        }
    }
}

/// Decides whether a piece of a clipped line is kept, from whether a probe
/// point of it lies on the clip boundary and from its winding number
/// with respect to the clip region.
pub fn keeps_piece(mode: ClipMode, fill_rule: FillRule, on_boundary: bool, winding: i32) -> (r: bool)
    ensures
        r == spec_keeps_piece(mode, fill_rule, on_boundary, winding as int),
{
    if on_boundary {
        return match mode {
            ClipMode::Include => true,
            ClipMode::Exclude => false,
        };
    }
    let inside = winding_inside(winding, fill_rule);
    match mode {
        ClipMode::Include => inside,
        ClipMode::Exclude => !inside,
    }
}

/// The two wire names parse to the two modes; `"inside"` does not parse.
pub proof fn lemma_parse_mode_names()
    ensures
        spec_parse_mode("include"@) == Some(ClipMode::Include),
        spec_parse_mode("exclude"@) == Some(ClipMode::Exclude),
        spec_parse_mode("inside"@) is None,
{
    reveal_strlit("include");
    reveal_strlit("exclude");
    reveal_strlit("inside");
    assert("include"@[1] != "exclude"@[1]);
    assert("inside"@.len() != "include"@.len());
    assert("inside"@.len() != "exclude"@.len());
}

/// The line clip of a body against a clip region that bounds nothing:
/// including keeps nothing, excluding keeps the body exactly as it is.
pub fn line_clip_without_region<P: Copy>(mode: ClipMode, body: &WirePath<P>) -> (r: WirePath<P>)
    ensures
        mode == ClipMode::Include ==> r@.len() == 0,
        mode == ClipMode::Exclude ==> r@ == body@,
{
    match mode {
        ClipMode::Include => WirePath::empty(),
        ClipMode::Exclude => body.duplicate(),
    }
}

/// What the line kernel is told when it prepares the clip region.
#[derive(Clone, Copy, Debug, PartialEq)]
pub struct LineClipParams<E> {
    pub fill_rule: FillRule,
    pub mode: ClipMode,
    pub eps: E,
}

/// The geometry kernels of clipping.
pub struct ClipKernels<AE, B, PR, CL> {
    /// Picks a tolerance for a list of paths.
    pub auto_eps: AE,
    /// Computes a boolean operation between two paths at a tolerance.
    pub boolean: B,
    /// Prepares a clip region for line clipping.
    pub prepare_line: PR,
    /// Cuts one body's subpaths against a prepared clip region.
    pub clip_line: CL,
}

/// A request to clip one body.
pub struct ClipPathArgs<P, E> {
    pub clip_region: WirePath<P>,
    pub body: WirePath<P>,
    pub mode: String,
    pub clip_fill_rule: String,
    pub body_fill_rule: String,
    pub eps: Option<E>,
    pub need_line: bool,
    pub need_area: bool,
}

/// One body of a clipping batch.
pub struct ClipPathBatchBody<P> {
    pub body: WirePath<P>,
    pub body_fill_rule: String,
    pub need_line: bool,
    pub need_area: bool,
}

/// A request to clip many bodies against one clip region.
pub struct ClipPathBatchArgs<P, E> {
    pub clip_region: WirePath<P>,
    pub bodies: Vec<ClipPathBatchBody<P>>,
    pub mode: String,
    pub clip_fill_rule: String,
    pub eps: Option<E>,
}

/// The clipped line and area of one body, each present when it was asked for.
#[derive(Debug, Clone, PartialEq)]
pub struct ClipPathOutput<P> {
    pub line_path: Option<WirePath<P>>,
    pub area_path: Option<WirePath<P>>,
}

/// The outputs of a batch, one per body, in the order of the bodies.
#[derive(Debug, Clone, PartialEq)]
pub struct ClipPathBatchOutput<P> {
    pub outputs: Vec<ClipPathOutput<P>>,
}

/// What every body of a batch is clipped with once the batch is accepted.
pub struct ClipSetting<P, E, L> {
    pub clip: WirePath<P>,
    pub mode: ClipMode,
    pub clip_fill: FillRule,
    pub eps: E,
    pub prepared: Option<L>,
}

/// The kernels accept every input.
pub open spec fn kernels_total<P, E, L, AE, B, PR, CL>(k: ClipKernels<AE, B, PR, CL>) -> bool
    where
        AE: Fn(&Vec<&WirePath<P>>) -> Result<E, PathOpsErr>,
        B: Fn(&WirePath<P>, &WirePath<P>, BooleanParams<E>) -> Result<WirePath<P>, PathOpsErr>,
        PR: Fn(&WirePath<P>, LineClipParams<E>) -> L,
        CL: Fn(&L, &WirePath<P>) -> Result<WirePath<P>, PathOpsErr>,
{
    &&& auto_eps_total::<P, E, AE>(k.auto_eps)
    &&& boolean_total::<P, E, B>(k.boolean)
    &&& forall|c: &WirePath<P>, p: LineClipParams<E>| call_requires(k.prepare_line, (c, p))
    &&& forall|l: &L, b: &WirePath<P>| call_requires(k.clip_line, (l, b))
}

/// What the area clip of `body` may give: nothing when the body has no
/// closed subpath; with an empty clip region, nothing when including and
/// the closed subpaths when excluding; otherwise the boolean kernel's
/// answer for the closed subpaths (the body itself when all its subpaths
/// are closed) against the clip region.
pub open spec fn area_outcome<P, E, B>(
    clip: WirePath<P>,
    body: WirePath<P>,
    mode: ClipMode,
    clip_fill: FillRule,
    body_fill: FillRule,
    eps: E,
    boolean: B,
    r: Result<WirePath<P>, PathOpsErr>,
) -> bool
    where
        B: Fn(&WirePath<P>, &WirePath<P>, BooleanParams<E>) -> Result<WirePath<P>, PathOpsErr>,
{
    let closed = closed_only(body@);
    if closed.len() == 0 {
        r matches Ok(p) && p@.len() == 0
    } else if clip@.len() == 0 {
        match mode {
            ClipMode::Include => r matches Ok(p) && p@.len() == 0,
            ClipMode::Exclude => r matches Ok(p) && p@ == closed,
        }
    } else {
        exists|bc: WirePath<P>|
            #[trigger] boolean_outcome(
                boolean,
                bc,
                clip,
                BooleanParams { op: spec_area_op(mode), fill_rule_a: body_fill, fill_rule_b: clip_fill, eps },
                r,
            ) && bc@ == closed && (all_closed(body@) ==> bc == body)
    }
}

/// What the line clip of `body` may give: the line kernel's answer for the
/// prepared clip region and the body.
pub open spec fn line_outcome<P, L, CL>(
    prepared: Option<L>,
    body: WirePath<P>,
    clip_line: CL,
    r: Result<WirePath<P>, PathOpsErr>,
) -> bool
    where
        CL: Fn(&L, &WirePath<P>) -> Result<WirePath<P>, PathOpsErr>,
{
    match prepared {
        Some(l) => call_ensures(clip_line, (&l, &body), r),
        None => false,
    }
}

/// The fill rule of a body whose fill rule name is valid.
pub open spec fn body_fill<P>(body: ClipPathBatchBody<P>) -> FillRule {
    spec_parse_fill_rule(body.body_fill_rule@).unwrap()
}

/// The kernel answers for one body: an area answer exactly when the area
/// is asked for, a line answer exactly when the line is asked for and the
/// area did not fail.
pub open spec fn body_parts<P, E, L, AE, B, PR, CL>(
    s: ClipSetting<P, E, L>,
    k: ClipKernels<AE, B, PR, CL>,
    body: ClipPathBatchBody<P>,
    area: Option<Result<WirePath<P>, PathOpsErr>>,
    line: Option<Result<WirePath<P>, PathOpsErr>>,
) -> bool
    where
        AE: Fn(&Vec<&WirePath<P>>) -> Result<E, PathOpsErr>,
        B: Fn(&WirePath<P>, &WirePath<P>, BooleanParams<E>) -> Result<WirePath<P>, PathOpsErr>,
        PR: Fn(&WirePath<P>, LineClipParams<E>) -> L,
        CL: Fn(&L, &WirePath<P>) -> Result<WirePath<P>, PathOpsErr>,
{
    &&& (area is Some <==> body.need_area)
    &&& (area matches Some(ar) ==> area_outcome(
        s.clip,
        body.body,
        s.mode,
        s.clip_fill,
        body_fill(body),
        s.eps,
        k.boolean,
        ar,
    ))
    &&& (line is Some <==> (body.need_line && !(area matches Some(Err(_)))))
    &&& (line matches Some(lr) ==> line_outcome(s.prepared, body.body, k.clip_line, lr))
}

/// The output assembled from the kernel answers of one body: the area
/// error if the area failed, else the line error if the line failed, else
/// the answers that were asked for.
pub open spec fn assemble<P>(
    area: Option<Result<WirePath<P>, PathOpsErr>>,
    line: Option<Result<WirePath<P>, PathOpsErr>>,
) -> Result<ClipPathOutput<P>, PathOpsErr> {
    match area {
        Some(Err(x)) => Err(x),
        _ => match line {
            Some(Err(y)) => Err(y),
            _ => Ok(
                ClipPathOutput {
                    line_path: match line {
                        Some(Ok(p)) => Some(p),
                        _ => None,
                    },
                    area_path: match area {
                        Some(Ok(p)) => Some(p),
                        _ => None,
                    },
                },
            ),
        },
    }
}

/// A present path as a successful kernel answer.
pub open spec fn answered<P>(p: Option<WirePath<P>>) -> Option<Result<WirePath<P>, PathOpsErr>> {
    match p {
        Some(q) => Some(Ok(q)),
        None => None,
    }
}

/// What clipping one body may give, once the batch is accepted.
pub open spec fn body_outcome<P, E, L, AE, B, PR, CL>(
    s: ClipSetting<P, E, L>,
    k: ClipKernels<AE, B, PR, CL>,
    body: ClipPathBatchBody<P>,
    o: Result<ClipPathOutput<P>, PathOpsErr>,
) -> bool
    where
        AE: Fn(&Vec<&WirePath<P>>) -> Result<E, PathOpsErr>,
        B: Fn(&WirePath<P>, &WirePath<P>, BooleanParams<E>) -> Result<WirePath<P>, PathOpsErr>,
        PR: Fn(&WirePath<P>, LineClipParams<E>) -> L,
        CL: Fn(&L, &WirePath<P>) -> Result<WirePath<P>, PathOpsErr>,
{
    exists|area: Option<Result<WirePath<P>, PathOpsErr>>, line: Option<Result<WirePath<P>, PathOpsErr>>|
        #[trigger] body_parts(s, k, body, area, line) && o == assemble(area, line)
}

/// Clipping `body` succeeds with some output.
pub open spec fn body_succeeds<P, E, L, AE, B, PR, CL>(
    s: ClipSetting<P, E, L>,
    k: ClipKernels<AE, B, PR, CL>,
    body: ClipPathBatchBody<P>,
) -> bool
    where
        AE: Fn(&Vec<&WirePath<P>>) -> Result<E, PathOpsErr>,
        B: Fn(&WirePath<P>, &WirePath<P>, BooleanParams<E>) -> Result<WirePath<P>, PathOpsErr>,
        PR: Fn(&WirePath<P>, LineClipParams<E>) -> L,
        CL: Fn(&L, &WirePath<P>) -> Result<WirePath<P>, PathOpsErr>,
{
    exists|o: ClipPathOutput<P>| #[trigger] body_outcome(s, k, body, Ok::<ClipPathOutput<P>, PathOpsErr>(o))
}

/// What clipping the bodies one after the other may give: one output per
/// body, or the error of the first body that fails.
pub open spec fn run_outcome<P, E, L, AE, B, PR, CL>(
    s: ClipSetting<P, E, L>,
    k: ClipKernels<AE, B, PR, CL>,
    bodies: Seq<ClipPathBatchBody<P>>,
    r: Result<ClipPathBatchOutput<P>, PathOpsErr>,
) -> bool
    where
        AE: Fn(&Vec<&WirePath<P>>) -> Result<E, PathOpsErr>,
        B: Fn(&WirePath<P>, &WirePath<P>, BooleanParams<E>) -> Result<WirePath<P>, PathOpsErr>,
        PR: Fn(&WirePath<P>, LineClipParams<E>) -> L,
        CL: Fn(&L, &WirePath<P>) -> Result<WirePath<P>, PathOpsErr>,
{
    match r {
        Ok(out) => out.outputs@.len() == bodies.len() && forall|i: int|
            0 <= i < bodies.len() ==> #[trigger] body_outcome(
                s,
                k,
                bodies[i],
                Ok::<ClipPathOutput<P>, PathOpsErr>(out.outputs@[i]),
            ),
        Err(x) => exists|j: int|
            0 <= j < bodies.len() && (forall|i: int| 0 <= i < j ==> #[trigger] body_succeeds(s, k, bodies[i]))
                && #[trigger] body_outcome(s, k, bodies[j], Err::<ClipPathOutput<P>, PathOpsErr>(x)),
    }
}

/// The paths that the tolerance is chosen for: the clip region, then every body.
pub open spec fn eps_paths<P>(clip: WirePath<P>, bodies: Seq<ClipPathBatchBody<P>>) -> Seq<WirePath<P>> {
    seq![clip].add(bodies.map_values(|b: ClipPathBatchBody<P>| b.body))
}

/// Some body asks for its line.
pub open spec fn any_need_line<P>(bodies: Seq<ClipPathBatchBody<P>>) -> bool {
    exists|i: int| 0 <= i < bodies.len() && #[trigger] bodies[i].need_line
}

/// The prepared clip region: a line kernel preparation of the clip region
/// when some body asks for its line, none otherwise.
pub open spec fn prepared_outcome<P, E, L, PR>(
    prepare_line: PR,
    clip: WirePath<P>,
    mode: ClipMode,
    clip_fill: FillRule,
    eps: E,
    needed: bool,
    prepared: Option<L>,
) -> bool
    where
        PR: Fn(&WirePath<P>, LineClipParams<E>) -> L,
{
    if needed {
        prepared matches Some(l) && call_ensures(
            prepare_line,
            (&clip, LineClipParams { fill_rule: clip_fill, mode, eps }),
            l,
        )
    } else {
        prepared is None
    }
}

/// The body at `j` is the first with an invalid fill rule name.
pub open spec fn first_invalid_fill<P>(bodies: Seq<ClipPathBatchBody<P>>, j: int) -> bool {
    &&& 0 <= j < bodies.len()
    &&& spec_parse_fill_rule(bodies[j].body_fill_rule@) is None
    &&& forall|i: int| 0 <= i < j ==> (#[trigger] spec_parse_fill_rule(bodies[i].body_fill_rule@)) is Some
}

/// Every body has a valid fill rule name.
pub open spec fn all_fills_valid<P>(bodies: Seq<ClipPathBatchBody<P>>) -> bool {
    forall|i: int| 0 <= i < bodies.len() ==> (#[trigger] spec_parse_fill_rule(bodies[i].body_fill_rule@)) is Some
}

/// The setting holds the given clip region, mode, clip fill rule and tolerance.
pub open spec fn setting_matches<P, E, L>(
    c: ClipSetting<P, E, L>,
    clip: WirePath<P>,
    mode: ClipMode,
    clip_fill: FillRule,
    eps: E,
) -> bool {
    c.clip == clip && c.mode == mode && c.clip_fill == clip_fill && c.eps == eps
}

/// The setup of a batch once its tolerance answer `er` is known: the
/// kernel's error, or the setting with that tolerance, the clip region
/// prepared for line clipping when `needs_line`.
pub open spec fn setup_from_eps<P, E, L, PR>(
    prepare_line: PR,
    clip: WirePath<P>,
    mode: ClipMode,
    clip_fill: FillRule,
    needs_line: bool,
    er: Result<E, PathOpsErr>,
    s: Result<ClipSetting<P, E, L>, PathOpsErr>,
) -> bool
    where
        PR: Fn(&WirePath<P>, LineClipParams<E>) -> L,
{
    match er {
        Err(x) => s == Err::<ClipSetting<P, E, L>, PathOpsErr>(x),
        Ok(e) => s matches Ok(c) && setting_matches(c, clip, mode, clip_fill, e) && prepared_outcome(
            prepare_line,
            clip,
            mode,
            clip_fill,
            e,
            needs_line,
            c.prepared,
        ),
    }
}

/// How a batch is accepted, or why it is refused.  The checks come in this
/// order: a batch without bodies; an invalid mode name; an invalid clip fill
/// rule name; the first body with an invalid fill rule name; a clip region
/// with an open subpath; a failure of the tolerance kernel.  An accepted
/// batch is clipped with the parsed mode and clip fill rule, the explicit
/// tolerance or else the kernel's tolerance for the clip region and all
/// bodies, and the clip region prepared for line clipping if some body asks
/// for its line.
pub open spec fn batch_setup<P, E, L, AE, B, PR, CL>(
    clip: WirePath<P>,
    bodies: Seq<ClipPathBatchBody<P>>,
    mode_name: Seq<char>,
    clip_fill_name: Seq<char>,
    eps: Option<E>,
    k: ClipKernels<AE, B, PR, CL>,
    s: Result<ClipSetting<P, E, L>, PathOpsErr>,
) -> bool
    where
        AE: Fn(&Vec<&WirePath<P>>) -> Result<E, PathOpsErr>,
        B: Fn(&WirePath<P>, &WirePath<P>, BooleanParams<E>) -> Result<WirePath<P>, PathOpsErr>,
        PR: Fn(&WirePath<P>, LineClipParams<E>) -> L,
        CL: Fn(&L, &WirePath<P>) -> Result<WirePath<P>, PathOpsErr>,
{
    if bodies.len() == 0 {
        s == Err::<ClipSetting<P, E, L>, PathOpsErr>(PathOpsErr::EmptyBatch)
    } else {
        match spec_parse_mode(mode_name) {
            None => s matches Err(PathOpsErr::InvalidMode(m)) && m@ == mode_name,
            Some(mode) => match spec_parse_fill_rule(clip_fill_name) {
                None => s matches Err(PathOpsErr::InvalidFillRule(f)) && f@ == clip_fill_name,
                Some(clip_fill) => if !all_fills_valid(bodies) {
                    exists|j: int|
                        #[trigger] first_invalid_fill(bodies, j) && (s matches Err(PathOpsErr::InvalidFillRule(f))
                            && f@ == bodies[j].body_fill_rule@)
                } else if !all_closed(clip@) {
                    s == Err::<ClipSetting<P, E, L>, PathOpsErr>(PathOpsErr::OpenSubpath)
                } else {
                    exists|er: Result<E, PathOpsErr>|
                        #[trigger] eps_outcome(eps, k.auto_eps, eps_paths(clip, bodies), er) && setup_from_eps(
                            k.prepare_line,
                            clip,
                            mode,
                            clip_fill,
                            any_need_line(bodies),
                            er,
                            s,
                        )
                },
            },
        }
    }
}

/// What a batch may give: the refusal of the batch, or the outputs (or
/// first error) of clipping its bodies in order.
pub open spec fn batch_outcome<P, E, L, AE, B, PR, CL>(
    clip: WirePath<P>,
    bodies: Seq<ClipPathBatchBody<P>>,
    mode_name: Seq<char>,
    clip_fill_name: Seq<char>,
    eps: Option<E>,
    k: ClipKernels<AE, B, PR, CL>,
    r: Result<ClipPathBatchOutput<P>, PathOpsErr>,
) -> bool
    where
        AE: Fn(&Vec<&WirePath<P>>) -> Result<E, PathOpsErr>,
        B: Fn(&WirePath<P>, &WirePath<P>, BooleanParams<E>) -> Result<WirePath<P>, PathOpsErr>,
        PR: Fn(&WirePath<P>, LineClipParams<E>) -> L,
        CL: Fn(&L, &WirePath<P>) -> Result<WirePath<P>, PathOpsErr>,
{
    exists|s: Result<ClipSetting<P, E, L>, PathOpsErr>|
        #[trigger] batch_setup(clip, bodies, mode_name, clip_fill_name, eps, k, s) && match s {
            Err(x) => r == Err::<ClipPathBatchOutput<P>, PathOpsErr>(x),
            Ok(c) => run_outcome(c, k, bodies, r),
        }
}

/// What clipping a single body may give: the same as a batch of that one
/// body, its one output taken out.
pub open spec fn single_outcome<P, E, L, AE, B, PR, CL>(
    clip: WirePath<P>,
    body: ClipPathBatchBody<P>,
    mode_name: Seq<char>,
    clip_fill_name: Seq<char>,
    eps: Option<E>,
    k: ClipKernels<AE, B, PR, CL>,
    r: Result<ClipPathOutput<P>, PathOpsErr>,
) -> bool
    where
        AE: Fn(&Vec<&WirePath<P>>) -> Result<E, PathOpsErr>,
        B: Fn(&WirePath<P>, &WirePath<P>, BooleanParams<E>) -> Result<WirePath<P>, PathOpsErr>,
        PR: Fn(&WirePath<P>, LineClipParams<E>) -> L,
        CL: Fn(&L, &WirePath<P>) -> Result<WirePath<P>, PathOpsErr>,
{
    exists|s: Result<ClipSetting<P, E, L>, PathOpsErr>|
        #[trigger] batch_setup(clip, seq![body], mode_name, clip_fill_name, eps, k, s) && match s {
            Err(x) => r == Err::<ClipPathOutput<P>, PathOpsErr>(x),
            Ok(c) => body_outcome(c, k, body, r),
        }
}

/// The body of a single-body request.
pub open spec fn single_body<P, E>(args: ClipPathArgs<P, E>) -> ClipPathBatchBody<P> {
    ClipPathBatchBody {
        body: args.body,
        body_fill_rule: args.body_fill_rule,
        need_line: args.need_line,
        need_area: args.need_area,
    }
}

/// Clips the area of a body whose subpaths are all closed.
fn area_clip_closed<P: Copy, E: Copy, B>(
    clip_region: &WirePath<P>,
    body_closed: &WirePath<P>,
    mode: ClipMode,
    clip_fill_rule: FillRule,
    body_fill_rule: FillRule,
    eps: E,
    boolean: &B,
) -> (r: Result<WirePath<P>, PathOpsErr>)
    where
        B: Fn(&WirePath<P>, &WirePath<P>, BooleanParams<E>) -> Result<WirePath<P>, PathOpsErr>,
    requires
        all_closed(body_closed@),
        boolean_total::<P, E, B>(*boolean),
    ensures
        body_closed@.len() == 0 ==> (r matches Ok(p) && p@.len() == 0),
        body_closed@.len() != 0 && clip_region@.len() == 0 ==> match mode {
            ClipMode::Include => r matches Ok(p) && p@.len() == 0,
            ClipMode::Exclude => r matches Ok(p) && p@ == body_closed@,
        },
        body_closed@.len() != 0 && clip_region@.len() != 0 ==> boolean_outcome(
            *boolean,
            *body_closed,
            *clip_region,
            BooleanParams {
                op: spec_area_op(mode),
                fill_rule_a: body_fill_rule,
                fill_rule_b: clip_fill_rule,
                eps,
            },
            r,
        ),
{
    if body_closed.is_empty() {
        return Ok(WirePath::empty());
    }
    if clip_region.is_empty() {
        return Ok(
            match mode {
                ClipMode::Include => WirePath::empty(),
                ClipMode::Exclude => body_closed.duplicate(),
            },
        );
    }
    boolean_wire_path_with_clip(
        body_closed,
        clip_region,
        area_op_for_mode(mode),
        body_fill_rule,
        clip_fill_rule,
        eps,
        boolean,
    )
}

/// Clips the area of `body`: its closed subpaths are intersected with the
/// clip region (mode include) or have the clip region removed (mode
/// exclude); open subpaths bound no area and are ignored.
pub fn area_clip<P: Copy, E: Copy, B>(
    clip_region: &WirePath<P>,
    body: &WirePath<P>,
    mode: ClipMode,
    clip_fill_rule: FillRule,
    body_fill_rule: FillRule,
    eps: E,
    boolean: &B,
) -> (r: Result<WirePath<P>, PathOpsErr>)
    where
        B: Fn(&WirePath<P>, &WirePath<P>, BooleanParams<E>) -> Result<WirePath<P>, PathOpsErr>,
    requires
        boolean_total::<P, E, B>(*boolean),
    ensures
        area_outcome(*clip_region, *body, mode, clip_fill_rule, body_fill_rule, eps, *boolean, r),
{
    if body.all_subpaths_closed() {
        proof {
            lemma_closed_only_of_closed(body@);
        }
        let r = area_clip_closed(clip_region, body, mode, clip_fill_rule, body_fill_rule, eps, boolean);
        proof {
            if body@.len() != 0 && clip_region@.len() != 0 {
                let params = BooleanParams {
                    op: spec_area_op(mode),
                    fill_rule_a: body_fill_rule,
                    fill_rule_b: clip_fill_rule,
                    eps,
                };
                assert(boolean_outcome(*boolean, *body, *clip_region, params, r));
            }
        }
        r
    } else {
        let body_closed = body.closed_subpaths();
        proof {
            lemma_closed_only_all_closed(body@);
        }
        let r = area_clip_closed(clip_region, &body_closed, mode, clip_fill_rule, body_fill_rule, eps, boolean);
        proof {
            if body_closed@.len() != 0 && clip_region@.len() != 0 {
                let params = BooleanParams {
                    op: spec_area_op(mode),
                    fill_rule_a: body_fill_rule,
                    fill_rule_b: clip_fill_rule,
                    eps,
                };
                assert(boolean_outcome(*boolean, body_closed, *clip_region, params, r));
            }
        }
        r
    }
}

/// The paths the tolerance is chosen for: the clip region, then every body.
fn collect_eps_paths<'a, P>(
    clip_region: &'a WirePath<P>,
    bodies: &'a Vec<ClipPathBatchBody<P>>,
) -> (v: Vec<&'a WirePath<P>>)
    ensures
        path_targets(v@) == eps_paths(*clip_region, bodies@),
{
    let mut v: Vec<&'a WirePath<P>> = Vec::new();
    v.push(clip_region);
    let n = bodies.len();
    let mut i: usize = 0;
    while i < n
        invariant
            n == bodies@.len(),
            i <= n,
            path_targets(v@) == eps_paths(*clip_region, bodies@.take(i as int)),
        decreases n - i,
    {
        let ghost before = v@;
        v.push(&bodies[i].body);
        assert(bodies@.take(i + 1) =~= bodies@.take(i as int).push(bodies@[i as int]));
        assert(path_targets(v@) =~= path_targets(before).push(bodies@[i as int].body));
        assert(eps_paths(*clip_region, bodies@.take(i + 1)) =~= eps_paths(
            *clip_region,
            bodies@.take(i as int),
        ).push(bodies@[i as int].body));
        i = i + 1;
    }
    assert(bodies@.take(n as int) =~= bodies@);
    v
}

/// Whether some body asks for its line.
fn any_body_needs_line<P>(bodies: &Vec<ClipPathBatchBody<P>>) -> (r: bool)
    ensures
        r == any_need_line(bodies@),
{
    let n = bodies.len();
    let mut i: usize = 0;
    while i < n
        invariant
            n == bodies@.len(),
            i <= n,
            forall|j: int| 0 <= j < i ==> !(#[trigger] bodies@[j]).need_line,
        decreases n - i,
    {
        if bodies[i].need_line {
            return true;
        }
        i = i + 1;
    }
    false
}

/// Clips every body of a batch against the clip region.
///
/// The batch is refused, in this order, when it has no bodies, when the
/// mode or the clip fill rule or some body's fill rule has an invalid name,
/// when the clip region has an open subpath, or when the tolerance kernel
/// fails.  One tolerance serves the whole batch: the explicit one, or the
/// kernel's choice for the clip region and all bodies together.  The clip
/// region is prepared for line clipping once, when some body asks for its
/// line.  Then each body in turn gets its area clip and its line clip, as
/// asked; the first failure ends the batch.
pub fn clip_path_batch<P: Copy, E: Copy, L, AE, B, PR, CL>(
    args: ClipPathBatchArgs<P, E>,
    kernels: &ClipKernels<AE, B, PR, CL>,
) -> (r: Result<ClipPathBatchOutput<P>, PathOpsErr>)
    where
        AE: Fn(&Vec<&WirePath<P>>) -> Result<E, PathOpsErr>,
        B: Fn(&WirePath<P>, &WirePath<P>, BooleanParams<E>) -> Result<WirePath<P>, PathOpsErr>,
        PR: Fn(&WirePath<P>, LineClipParams<E>) -> L,
        CL: Fn(&L, &WirePath<P>) -> Result<WirePath<P>, PathOpsErr>,
    requires
        kernels_total::<P, E, L, AE, B, PR, CL>(*kernels),
    ensures
        batch_outcome::<P, E, L, AE, B, PR, CL>(
            args.clip_region,
            args.bodies@,
            args.mode@,
            args.clip_fill_rule@,
            args.eps,
            *kernels,
            r,
        ),
{
    let ghost clip = args.clip_region;
    let ghost bodies = args.bodies@;
    let ghost k = *kernels;
    let n = args.bodies.len();
    if n == 0 {
        let ghost s = Err::<ClipSetting<P, E, L>, PathOpsErr>(PathOpsErr::EmptyBatch);
        assert(batch_setup(clip, bodies, args.mode@, args.clip_fill_rule@, args.eps, k, s));
        return Err(PathOpsErr::EmptyBatch);
    }
    let mode = match parse_mode(args.mode.as_str()) {
        Ok(m) => m,
        Err(x) => {
            let ghost s = Err::<ClipSetting<P, E, L>, PathOpsErr>(x);
            assert(batch_setup(clip, bodies, args.mode@, args.clip_fill_rule@, args.eps, k, s));
            return Err(x);
        },
    };
    let clip_fill = match parse_fill_rule(args.clip_fill_rule.as_str()) {
        Ok(f) => f,
        Err(x) => {
            let ghost s = Err::<ClipSetting<P, E, L>, PathOpsErr>(x);
            assert(batch_setup(clip, bodies, args.mode@, args.clip_fill_rule@, args.eps, k, s));
            return Err(x);
        },
    };
    let mut fills: Vec<FillRule> = Vec::new();
    let mut i: usize = 0;
    while i < n
        invariant
            n == args.bodies@.len(),
            bodies == args.bodies@,
            clip == args.clip_region,
            k == *kernels,
            n > 0,
            spec_parse_mode(args.mode@) == Some(mode),
            spec_parse_fill_rule(args.clip_fill_rule@) == Some(clip_fill),
            i <= n,
            fills@.len() == i,
            forall|j: int| 0 <= j < i ==> #[trigger] spec_parse_fill_rule(bodies[j].body_fill_rule@) == Some(fills@[j]),
        decreases n - i,
    {
        match parse_fill_rule(args.bodies[i].body_fill_rule.as_str()) {
            Ok(f) => {
                fills.push(f);
            },
            Err(x) => {
                assert(spec_parse_fill_rule(bodies[i as int].body_fill_rule@) is None);
                assert(!all_fills_valid(bodies));
                assert(first_invalid_fill(bodies, i as int));
                let ghost s = Err::<ClipSetting<P, E, L>, PathOpsErr>(x);
                assert(batch_setup(clip, bodies, args.mode@, args.clip_fill_rule@, args.eps, k, s));
                return Err(x);
            },
        }
        i = i + 1;
    }
    assert(all_fills_valid(bodies));
    if let Err(x) = args.clip_region.ensure_closed() {
        let ghost s = Err::<ClipSetting<P, E, L>, PathOpsErr>(x);
        assert(batch_setup(clip, bodies, args.mode@, args.clip_fill_rule@, args.eps, k, s));
        return Err(x);
    }
    let er: Result<E, PathOpsErr> = match args.eps {
        Some(e) => Ok(e),
        None => {
            let v = collect_eps_paths(&args.clip_region, &args.bodies);
            (kernels.auto_eps)(&v)
        },
    };
    assert(eps_outcome(args.eps, k.auto_eps, eps_paths(clip, bodies), er));
    let eps = match er {
        Ok(e) => e,
        Err(x) => {
            let ghost s = Err::<ClipSetting<P, E, L>, PathOpsErr>(x);
            assert(batch_setup(clip, bodies, args.mode@, args.clip_fill_rule@, args.eps, k, s));
            return Err(x);
        },
    };
    let needs_line = any_body_needs_line(&args.bodies);
    let prepared: Option<L> = if needs_line {
        Some((kernels.prepare_line)(&args.clip_region, LineClipParams { fill_rule: clip_fill, mode, eps }))
    } else {
        None
    };
    let ghost setting = ClipSetting { clip, mode, clip_fill, eps, prepared };
    assert(batch_setup(clip, bodies, args.mode@, args.clip_fill_rule@, args.eps, k, Ok(setting)));

    let mut outputs: Vec<ClipPathOutput<P>> = Vec::new();
    let mut i: usize = 0;
    while i < n
        invariant
            n == args.bodies@.len(),
            bodies == args.bodies@,
            clip == args.clip_region,
            k == *kernels,
            kernels_total::<P, E, L, AE, B, PR, CL>(*kernels),
            i <= n,
            fills@.len() == n,
            forall|j: int| 0 <= j < n ==> #[trigger] spec_parse_fill_rule(bodies[j].body_fill_rule@) == Some(fills@[j]),
            setting == (ClipSetting { clip, mode, clip_fill, eps, prepared }),
            batch_setup(clip, bodies, args.mode@, args.clip_fill_rule@, args.eps, k, Ok(setting)),
            prepared_outcome(k.prepare_line, clip, mode, clip_fill, eps, any_need_line(bodies), prepared),
            outputs@.len() == i,
            forall|j: int| 0 <= j < i ==> #[trigger] body_outcome(
                setting,
                k,
                bodies[j],
                Ok::<ClipPathOutput<P>, PathOpsErr>(outputs@[j]),
            ),
        decreases n - i,
    {
        let body = &args.bodies[i];
        let ghost b = bodies[i as int];
        assert(spec_parse_fill_rule(bodies[i as int].body_fill_rule@) == Some(fills@[i as int]));
        assert(body_fill(b) == fills@[i as int]);
        let area_path: Option<WirePath<P>> = if body.need_area {
            let ar = area_clip(&args.clip_region, &body.body, mode, clip_fill, fills[i], eps, &kernels.boolean);
            match ar {
                Ok(p) => Some(p),
                Err(x) => {
                    let ghost area = Some(Err::<WirePath<P>, PathOpsErr>(x));
                    let ghost line: Option<Result<WirePath<P>, PathOpsErr>> = None;
                    assert(body_parts(setting, k, b, area, line));
                    assert(body_outcome(setting, k, b, Err::<ClipPathOutput<P>, PathOpsErr>(x)));
                    assert forall|j: int| 0 <= j < i implies #[trigger] body_succeeds(setting, k, bodies[j]) by {
                        assert(body_outcome(setting, k, bodies[j], Ok::<ClipPathOutput<P>, PathOpsErr>(outputs@[j])));
                    }
                    assert(run_outcome(setting, k, bodies, Err::<ClipPathBatchOutput<P>, PathOpsErr>(x)));
                    return Err(x);
                },
            }
        } else {
            None
        };
        let ghost area = answered(area_path);
        let line_path: Option<WirePath<P>> = if body.need_line {
            assert(any_need_line(bodies)) by {
                assert(bodies[i as int].need_line);
            }
            match &prepared {
                Some(l) => {
                    let lr = (kernels.clip_line)(l, &body.body);
                    match lr {
                        Ok(p) => Some(p),
                        Err(y) => {
                            let ghost line = Some(Err::<WirePath<P>, PathOpsErr>(y));
                            assert(body_parts(setting, k, b, area, line));
                            assert(body_outcome(setting, k, b, Err::<ClipPathOutput<P>, PathOpsErr>(y)));
                            assert forall|j: int| 0 <= j < i implies #[trigger] body_succeeds(setting, k, bodies[j]) by {
                                assert(body_outcome(setting, k, bodies[j], Ok::<ClipPathOutput<P>, PathOpsErr>(outputs@[j])));
                            }
                            assert(run_outcome(setting, k, bodies, Err::<ClipPathBatchOutput<P>, PathOpsErr>(y)));
                            return Err(y);
                        },
                    }
                },
                None => {
                    assert(false);
                    None
                },
            }
        } else {
            None
        };
        let ghost line = answered(line_path);
        let out = ClipPathOutput { line_path, area_path };
        assert(body_parts(setting, k, b, area, line));
        assert(assemble(area, line) == Ok::<ClipPathOutput<P>, PathOpsErr>(out));
        assert(body_outcome(setting, k, b, Ok::<ClipPathOutput<P>, PathOpsErr>(out)));
        outputs.push(out);
        i = i + 1;
    }
    let r = Ok(ClipPathBatchOutput { outputs });
    assert(run_outcome(setting, k, bodies, r));
    r
}

/// From the outcome of a batch of one body, the outcome of clipping that body.
pub proof fn lemma_single_from_batch<P, E, L, AE, B, PR, CL>(
    clip: WirePath<P>,
    body: ClipPathBatchBody<P>,
    mode_name: Seq<char>,
    clip_fill_name: Seq<char>,
    eps: Option<E>,
    k: ClipKernels<AE, B, PR, CL>,
    r: Result<ClipPathBatchOutput<P>, PathOpsErr>,
)
    where
        AE: Fn(&Vec<&WirePath<P>>) -> Result<E, PathOpsErr>,
        B: Fn(&WirePath<P>, &WirePath<P>, BooleanParams<E>) -> Result<WirePath<P>, PathOpsErr>,
        PR: Fn(&WirePath<P>, LineClipParams<E>) -> L,
        CL: Fn(&L, &WirePath<P>) -> Result<WirePath<P>, PathOpsErr>,
    requires
        batch_outcome::<P, E, L, AE, B, PR, CL>(clip, seq![body], mode_name, clip_fill_name, eps, k, r),
    ensures
        r matches Ok(out) ==> out.outputs@.len() == 1,
        single_outcome::<P, E, L, AE, B, PR, CL>(
            clip,
            body,
            mode_name,
            clip_fill_name,
            eps,
            k,
            match r {
                Ok(out) => Ok(out.outputs@[0]),
                Err(x) => Err(x),
            },
        ),
{
    let s = choose|s: Result<ClipSetting<P, E, L>, PathOpsErr>|
        #[trigger] batch_setup(clip, seq![body], mode_name, clip_fill_name, eps, k, s) && match s {
            Err(x) => r == Err::<ClipPathBatchOutput<P>, PathOpsErr>(x),
            Ok(c) => run_outcome(c, k, seq![body], r),
        };
    match s {
        Err(x) => {},
        Ok(c) => {
            match r {
                Ok(out) => {
                    assert(seq![body][0] == body);
                    assert(body_outcome(c, k, seq![body][0], Ok::<ClipPathOutput<P>, PathOpsErr>(out.outputs@[0])));
                },
                Err(x) => {
                    let j = choose|j: int|
                        0 <= j < seq![body].len() && (forall|i: int| 0 <= i < j ==> #[trigger] body_succeeds(c, k, seq![body][i]))
                            && #[trigger] body_outcome(c, k, seq![body][j], Err::<ClipPathOutput<P>, PathOpsErr>(x));
                    assert(j == 0);
                    assert(seq![body][0] == body);
                },
            }
        },
    }
}

/// No kernel ever answers that a batch is empty.
pub open spec fn kernels_never_empty_batch<P, E, L, AE, B, PR, CL>(k: ClipKernels<AE, B, PR, CL>) -> bool
    where
        AE: Fn(&Vec<&WirePath<P>>) -> Result<E, PathOpsErr>,
        B: Fn(&WirePath<P>, &WirePath<P>, BooleanParams<E>) -> Result<WirePath<P>, PathOpsErr>,
        PR: Fn(&WirePath<P>, LineClipParams<E>) -> L,
        CL: Fn(&L, &WirePath<P>) -> Result<WirePath<P>, PathOpsErr>,
{
    &&& forall|v: Vec<&WirePath<P>>, r: Result<E, PathOpsErr>|
        #[trigger] call_ensures(k.auto_eps, (&v,), r) ==> !(r matches Err(PathOpsErr::EmptyBatch))
    &&& forall|a: WirePath<P>, b: WirePath<P>, p: BooleanParams<E>, r: Result<WirePath<P>, PathOpsErr>|
        #[trigger] call_ensures(k.boolean, (&a, &b, p), r) ==> !(r matches Err(PathOpsErr::EmptyBatch))
    &&& forall|l: L, b: WirePath<P>, r: Result<WirePath<P>, PathOpsErr>|
        #[trigger] call_ensures(k.clip_line, (&l, &b), r) ==> !(r matches Err(PathOpsErr::EmptyBatch))
}

/// A single clip that succeeds holds exactly the parts that were asked
/// for; a single clip never reports an empty batch unless a kernel does.
pub proof fn lemma_single_clip_shape<P, E, L, AE, B, PR, CL>(
    clip: WirePath<P>,
    body: ClipPathBatchBody<P>,
    mode_name: Seq<char>,
    clip_fill_name: Seq<char>,
    eps: Option<E>,
    k: ClipKernels<AE, B, PR, CL>,
    r: Result<ClipPathOutput<P>, PathOpsErr>,
)
    where
        AE: Fn(&Vec<&WirePath<P>>) -> Result<E, PathOpsErr>,
        B: Fn(&WirePath<P>, &WirePath<P>, BooleanParams<E>) -> Result<WirePath<P>, PathOpsErr>,
        PR: Fn(&WirePath<P>, LineClipParams<E>) -> L,
        CL: Fn(&L, &WirePath<P>) -> Result<WirePath<P>, PathOpsErr>,
    requires
        single_outcome::<P, E, L, AE, B, PR, CL>(clip, body, mode_name, clip_fill_name, eps, k, r),
    ensures
        r matches Ok(o) ==> (o.line_path is Some <==> body.need_line) && (o.area_path is Some <==> body.need_area),
        kernels_never_empty_batch::<P, E, L, AE, B, PR, CL>(k) ==> !(r matches Err(PathOpsErr::EmptyBatch)),
{
    let one = seq![body];
    let s = choose|s: Result<ClipSetting<P, E, L>, PathOpsErr>|
        #[trigger] batch_setup(clip, one, mode_name, clip_fill_name, eps, k, s) && match s {
            Err(x) => r == Err::<ClipPathOutput<P>, PathOpsErr>(x),
            Ok(c) => body_outcome(c, k, body, r),
        };
    match s {
        Ok(c) => {
            if r is Ok {
                lemma_output_holds_what_was_asked(c, k, body, r->Ok_0);
            }
            let (area, line) = choose|area: Option<Result<WirePath<P>, PathOpsErr>>, line: Option<Result<WirePath<P>, PathOpsErr>>|
                #[trigger] body_parts(c, k, body, area, line) && r == assemble(area, line);
            if kernels_never_empty_batch::<P, E, L, AE, B, PR, CL>(k) {
                if area matches Some(Err(x)) {
                    let params = BooleanParams {
                        op: spec_area_op(c.mode),
                        fill_rule_a: body_fill(body),
                        fill_rule_b: c.clip_fill,
                        eps: c.eps,
                    };
                    if closed_only(body.body@).len() != 0 && c.clip@.len() != 0 {
                        let bc = choose|bc: WirePath<P>|
                            #[trigger] boolean_outcome(k.boolean, bc, c.clip, params, area->Some_0) && bc@ == closed_only(
                                body.body@,
                            ) && (all_closed(body.body@) ==> bc == body.body);
                        assert(call_ensures(k.boolean, (&bc, &c.clip, params), area->Some_0));
                    }
                }
                if line matches Some(Err(y)) {
                    let l = c.prepared->Some_0;
                    assert(call_ensures(k.clip_line, (&l, &body.body), line->Some_0));
                }
            }
        },
        Err(x) => {
            if kernels_never_empty_batch::<P, E, L, AE, B, PR, CL>(k) {
                if spec_parse_mode(mode_name) is Some && spec_parse_fill_rule(clip_fill_name) is Some && all_fills_valid(
                    one,
                ) && all_closed(clip@) {
                    let mode = spec_parse_mode(mode_name)->Some_0;
                    let clip_fill = spec_parse_fill_rule(clip_fill_name)->Some_0;
                    let er = choose|er: Result<E, PathOpsErr>|
                        #[trigger] eps_outcome(eps, k.auto_eps, eps_paths(clip, one), er) && setup_from_eps(
                            k.prepare_line,
                            clip,
                            mode,
                            clip_fill,
                            any_need_line(one),
                            er,
                            s,
                        );
                    if eps is None {
                        let v = choose|v: Vec<&WirePath<P>>|
                            #[trigger] path_targets(v@) == eps_paths(clip, one) && call_ensures(k.auto_eps, (&v,), er);
                        assert(call_ensures(k.auto_eps, (&v,), er));
                    }
                }
            }
        },
    }
}

/// Clips one body against the clip region: the same as a batch of that
/// one body, its one output taken out.  A success holds exactly the parts
/// that were asked for, and the batch of one is never empty, so an
/// empty-batch error can only come from a kernel.
pub fn clip_path<P: Copy, E: Copy, L, AE, B, PR, CL>(
    args: ClipPathArgs<P, E>,
    kernels: &ClipKernels<AE, B, PR, CL>,
) -> (r: Result<ClipPathOutput<P>, PathOpsErr>)
    where
        AE: Fn(&Vec<&WirePath<P>>) -> Result<E, PathOpsErr>,
        B: Fn(&WirePath<P>, &WirePath<P>, BooleanParams<E>) -> Result<WirePath<P>, PathOpsErr>,
        PR: Fn(&WirePath<P>, LineClipParams<E>) -> L,
        CL: Fn(&L, &WirePath<P>) -> Result<WirePath<P>, PathOpsErr>,
    requires
        kernels_total::<P, E, L, AE, B, PR, CL>(*kernels),
    ensures
        single_outcome::<P, E, L, AE, B, PR, CL>(
            args.clip_region,
            single_body(args),
            args.mode@,
            args.clip_fill_rule@,
            args.eps,
            *kernels,
            r,
        ),
        r matches Ok(o) ==> (o.line_path is Some <==> args.need_line) && (o.area_path is Some <==> args.need_area),
        kernels_never_empty_batch::<P, E, L, AE, B, PR, CL>(*kernels) ==> !(r matches Err(PathOpsErr::EmptyBatch)),
{
    let ghost body = single_body(args);
    let ghost clip = args.clip_region;
    let ghost mode_name = args.mode@;
    let ghost clip_fill_name = args.clip_fill_rule@;
    let ghost eps = args.eps;
    let mut bodies: Vec<ClipPathBatchBody<P>> = Vec::new();
    bodies.push(
        ClipPathBatchBody {
            body: args.body,
            body_fill_rule: args.body_fill_rule,
            need_line: args.need_line,
            need_area: args.need_area,
        },
    );
    assert(bodies@ =~= seq![body]);
    let batch = clip_path_batch(
        ClipPathBatchArgs {
            clip_region: args.clip_region,
            bodies,
            mode: args.mode,
            clip_fill_rule: args.clip_fill_rule,
            eps: args.eps,
        },
        kernels,
    );
    proof {
        lemma_single_from_batch::<P, E, L, AE, B, PR, CL>(clip, body, mode_name, clip_fill_name, eps, *kernels, batch);
    }
    let r = match batch {
        Ok(out) => {
            let mut outputs = out.outputs;
            Ok(outputs.swap_remove(0))
        },
        Err(x) => Err(x),
    };
    proof {
        lemma_single_clip_shape::<P, E, L, AE, B, PR, CL>(clip, body, mode_name, clip_fill_name, eps, *kernels, r);
    }
    r
}

/// A piece of line off the clip boundary is kept by exactly one of the two
/// modes; a piece on the boundary is kept when including and dropped when
/// excluding.
pub proof fn lemma_keeps_piece_modes(fill_rule: FillRule, winding: int)
    ensures
        spec_keeps_piece(ClipMode::Include, fill_rule, false, winding)
            != spec_keeps_piece(ClipMode::Exclude, fill_rule, false, winding),
        spec_keeps_piece(ClipMode::Include, fill_rule, true, winding),
        !spec_keeps_piece(ClipMode::Exclude, fill_rule, true, winding),
{
}

/// Off the clip boundary, line clipping keeps a point of the body exactly
/// when area clipping keeps it: the point is in the body, and the area
/// operation of the mode combines the body with the clip region.
pub proof fn lemma_line_agrees_with_area(mode: ClipMode, fill_rule: FillRule, winding: int)
    ensures
        spec_keeps_piece(mode, fill_rule, false, winding)
            == spec_combine(spec_area_op(mode), true, spec_winding_inside(winding, fill_rule)),
{
}

/// With an empty clip region, clipping the area of a body gives nothing
/// when including and exactly the closed subpaths of the body when
/// excluding.
pub proof fn lemma_area_empty_clip<P, E, B>(
    clip: WirePath<P>,
    body: WirePath<P>,
    mode: ClipMode,
    clip_fill: FillRule,
    body_fill: FillRule,
    eps: E,
    boolean: B,
    r: Result<WirePath<P>, PathOpsErr>,
)
    where
        B: Fn(&WirePath<P>, &WirePath<P>, BooleanParams<E>) -> Result<WirePath<P>, PathOpsErr>,
    requires
        clip@.len() == 0,
        area_outcome(clip, body, mode, clip_fill, body_fill, eps, boolean, r),
    ensures
        mode == ClipMode::Include ==> (r matches Ok(p) && p@.len() == 0),
        mode == ClipMode::Exclude ==> (r matches Ok(p) && p@ == closed_only(body@)),
{
}

/// A body without closed subpaths bounds no area: clipping its area gives
/// nothing, whatever the mode and the clip region.
pub proof fn lemma_area_of_open_body<P, E, B>(
    clip: WirePath<P>,
    body: WirePath<P>,
    mode: ClipMode,
    clip_fill: FillRule,
    body_fill: FillRule,
    eps: E,
    boolean: B,
    r: Result<WirePath<P>, PathOpsErr>,
)
    where
        B: Fn(&WirePath<P>, &WirePath<P>, BooleanParams<E>) -> Result<WirePath<P>, PathOpsErr>,
    requires
        forall|i: int| 0 <= i < body@.len() ==> !(#[trigger] body@[i].closed),
        area_outcome(clip, body, mode, clip_fill, body_fill, eps, boolean, r),
    ensures
        r matches Ok(p) && p@.len() == 0,
{
    lemma_closed_only_empty(body@);
}

/// For a body of closed subpaths (at least one) and a non-empty closed clip
/// region, clipping the area of the body is the boolean operation of the
/// mode between body and clip region, at the same tolerance: intersection
/// when including, difference when excluding.
pub proof fn lemma_area_is_boolean<P, E, AE, B>(
    clip: WirePath<P>,
    body: WirePath<P>,
    mode: ClipMode,
    clip_fill: FillRule,
    body_fill: FillRule,
    eps: E,
    auto_eps: AE,
    boolean: B,
    r: Result<WirePath<P>, PathOpsErr>,
)
    where
        AE: Fn(&Vec<&WirePath<P>>) -> Result<E, PathOpsErr>,
        B: Fn(&WirePath<P>, &WirePath<P>, BooleanParams<E>) -> Result<WirePath<P>, PathOpsErr>,
    requires
        all_closed(body@),
        body@.len() != 0,
        all_closed(clip@),
        clip@.len() != 0,
    ensures
        area_outcome(clip, body, mode, clip_fill, body_fill, eps, boolean, r)
            <==> boolean_wire_outcome(
            body,
            clip,
            spec_area_op(mode),
            body_fill,
            clip_fill,
            Some(eps),
            auto_eps,
            boolean,
            r,
        ),
{
    lemma_closed_only_of_closed(body@);
    let params = BooleanParams { op: spec_area_op(mode), fill_rule_a: body_fill, fill_rule_b: clip_fill, eps };
    assert(eps_outcome(Some(eps), auto_eps, two_paths(body, clip), Ok::<E, PathOpsErr>(eps)));
    if boolean_outcome(boolean, body, clip, params, r) {
        assert(area_outcome(clip, body, mode, clip_fill, body_fill, eps, boolean, r));
    }
    if area_outcome(clip, body, mode, clip_fill, body_fill, eps, boolean, r) {
        let bc = choose|bc: WirePath<P>|
            #[trigger] boolean_outcome(boolean, bc, clip, params, r) && bc@ == closed_only(body@) && (all_closed(body@) ==> bc == body);
        assert(bc == body);
    }
}

/// Whatever clipping one body gives when it succeeds holds exactly the
/// parts that were asked for: an area exactly when the area was asked for,
/// a line exactly when the line was asked for.
pub proof fn lemma_output_holds_what_was_asked<P, E, L, AE, B, PR, CL>(
    s: ClipSetting<P, E, L>,
    k: ClipKernels<AE, B, PR, CL>,
    body: ClipPathBatchBody<P>,
    o: ClipPathOutput<P>,
)
    where
        AE: Fn(&Vec<&WirePath<P>>) -> Result<E, PathOpsErr>,
        B: Fn(&WirePath<P>, &WirePath<P>, BooleanParams<E>) -> Result<WirePath<P>, PathOpsErr>,
        PR: Fn(&WirePath<P>, LineClipParams<E>) -> L,
        CL: Fn(&L, &WirePath<P>) -> Result<WirePath<P>, PathOpsErr>,
    requires
        body_outcome(s, k, body, Ok::<ClipPathOutput<P>, PathOpsErr>(o)),
    ensures
        o.area_path is Some <==> body.need_area,
        o.line_path is Some <==> body.need_line,
{
    let (area, line) = choose|area: Option<Result<WirePath<P>, PathOpsErr>>, line: Option<Result<WirePath<P>, PathOpsErr>>|
        #[trigger] body_parts(s, k, body, area, line) && Ok::<ClipPathOutput<P>, PathOpsErr>(o) == assemble(area, line);
    assert(body_parts(s, k, body, area, line));
}

/// The outcome of clipping a body does not depend on the prepared clip
/// region when the body does not ask for its line.
proof fn lemma_body_outcome_same_setting<P, E, L, AE, B, PR, CL>(
    s: ClipSetting<P, E, L>,
    s2: ClipSetting<P, E, L>,
    k: ClipKernels<AE, B, PR, CL>,
    body: ClipPathBatchBody<P>,
    o: Result<ClipPathOutput<P>, PathOpsErr>,
)
    where
        AE: Fn(&Vec<&WirePath<P>>) -> Result<E, PathOpsErr>,
        B: Fn(&WirePath<P>, &WirePath<P>, BooleanParams<E>) -> Result<WirePath<P>, PathOpsErr>,
        PR: Fn(&WirePath<P>, LineClipParams<E>) -> L,
        CL: Fn(&L, &WirePath<P>) -> Result<WirePath<P>, PathOpsErr>,
    requires
        body_outcome(s, k, body, o),
        s2.clip == s.clip,
        s2.mode == s.mode,
        s2.clip_fill == s.clip_fill,
        s2.eps == s.eps,
        body.need_line ==> s2.prepared == s.prepared,
    ensures
        body_outcome(s2, k, body, o),
{
    let (area, line) = choose|area: Option<Result<WirePath<P>, PathOpsErr>>, line: Option<Result<WirePath<P>, PathOpsErr>>|
        #[trigger] body_parts(s, k, body, area, line) && o == assemble(area, line);
    assert(body_parts(s2, k, body, area, line));
}

/// Every output of an accepted batch is what clipping that body alone
/// would give with the batch's tolerance.
proof fn lemma_outputs_are_single_outcomes<P, E, L, AE, B, PR, CL>(
    clip: WirePath<P>,
    bodies: Seq<ClipPathBatchBody<P>>,
    mode_name: Seq<char>,
    clip_fill_name: Seq<char>,
    eps: Option<E>,
    k: ClipKernels<AE, B, PR, CL>,
    c: ClipSetting<P, E, L>,
    out: ClipPathBatchOutput<P>,
)
    where
        AE: Fn(&Vec<&WirePath<P>>) -> Result<E, PathOpsErr>,
        B: Fn(&WirePath<P>, &WirePath<P>, BooleanParams<E>) -> Result<WirePath<P>, PathOpsErr>,
        PR: Fn(&WirePath<P>, LineClipParams<E>) -> L,
        CL: Fn(&L, &WirePath<P>) -> Result<WirePath<P>, PathOpsErr>,
    requires
        batch_setup(clip, bodies, mode_name, clip_fill_name, eps, k, Ok::<ClipSetting<P, E, L>, PathOpsErr>(c)),
        run_outcome(c, k, bodies, Ok::<ClipPathBatchOutput<P>, PathOpsErr>(out)),
    ensures
        out.outputs@.len() == bodies.len(),
        forall|i: int|
            0 <= i < bodies.len() ==> #[trigger] single_outcome::<P, E, L, AE, B, PR, CL>(
                clip,
                bodies[i],
                mode_name,
                clip_fill_name,
                Some(c.eps),
                k,
                Ok::<ClipPathOutput<P>, PathOpsErr>(out.outputs@[i]),
            ),
{
    assert forall|i: int| 0 <= i < bodies.len() implies #[trigger] single_outcome::<P, E, L, AE, B, PR, CL>(
        clip,
        bodies[i],
        mode_name,
        clip_fill_name,
        Some(c.eps),
        k,
        Ok::<ClipPathOutput<P>, PathOpsErr>(out.outputs@[i]),
    ) by {
        let b = bodies[i];
        let one = seq![b];
        let c1 = ClipSetting {
            clip: c.clip,
            mode: c.mode,
            clip_fill: c.clip_fill,
            eps: c.eps,
            prepared: if b.need_line { c.prepared } else { None },
        };
        assert(one[0] == b);
        assert(spec_parse_fill_rule(bodies[i].body_fill_rule@) is Some);
        assert(all_fills_valid(one));
        assert(any_need_line(one) == b.need_line);
        if b.need_line {
            assert(any_need_line(bodies));
        }
        assert(eps_outcome(Some(c.eps), k.auto_eps, eps_paths(clip, one), Ok::<E, PathOpsErr>(c.eps)));
        assert(batch_setup(clip, one, mode_name, clip_fill_name, Some(c.eps), k, Ok::<ClipSetting<P, E, L>, PathOpsErr>(c1)));
        assert(body_outcome(c, k, bodies[i], Ok::<ClipPathOutput<P>, PathOpsErr>(out.outputs@[i])));
        lemma_body_outcome_same_setting(c, c1, k, b, Ok::<ClipPathOutput<P>, PathOpsErr>(out.outputs@[i]));
    }
}

/// A batch with an explicit tolerance gives, for every body, what a single
/// clip of that body with the same tolerance gives.
pub proof fn lemma_batch_matches_single_calls<P, E, L, AE, B, PR, CL>(
    clip: WirePath<P>,
    bodies: Seq<ClipPathBatchBody<P>>,
    mode_name: Seq<char>,
    clip_fill_name: Seq<char>,
    eps: E,
    k: ClipKernels<AE, B, PR, CL>,
    out: ClipPathBatchOutput<P>,
)
    where
        AE: Fn(&Vec<&WirePath<P>>) -> Result<E, PathOpsErr>,
        B: Fn(&WirePath<P>, &WirePath<P>, BooleanParams<E>) -> Result<WirePath<P>, PathOpsErr>,
        PR: Fn(&WirePath<P>, LineClipParams<E>) -> L,
        CL: Fn(&L, &WirePath<P>) -> Result<WirePath<P>, PathOpsErr>,
    requires
        batch_outcome::<P, E, L, AE, B, PR, CL>(
            clip,
            bodies,
            mode_name,
            clip_fill_name,
            Some(eps),
            k,
            Ok::<ClipPathBatchOutput<P>, PathOpsErr>(out),
        ),
    ensures
        out.outputs@.len() == bodies.len(),
        forall|i: int|
            0 <= i < bodies.len() ==> #[trigger] single_outcome::<P, E, L, AE, B, PR, CL>(
                clip,
                bodies[i],
                mode_name,
                clip_fill_name,
                Some(eps),
                k,
                Ok::<ClipPathOutput<P>, PathOpsErr>(out.outputs@[i]),
            ),
{
    let s = choose|s: Result<ClipSetting<P, E, L>, PathOpsErr>|
        #[trigger] batch_setup(clip, bodies, mode_name, clip_fill_name, Some(eps), k, s) && match s {
            Err(x) => Ok::<ClipPathBatchOutput<P>, PathOpsErr>(out) == Err::<ClipPathBatchOutput<P>, PathOpsErr>(x),
            Ok(c) => run_outcome(c, k, bodies, Ok::<ClipPathBatchOutput<P>, PathOpsErr>(out)),
        };
    let c = s->Ok_0;
    lemma_outputs_are_single_outcomes(clip, bodies, mode_name, clip_fill_name, Some(eps), k, c, out);
}

/// A batch whose tolerance is chosen automatically gives, for every body,
/// what a single clip of that body gives with the tolerance that the kernel
/// chose for the whole batch (the clip region and all bodies together).
pub proof fn lemma_batch_auto_eps_matches_single_calls<P, E, L, AE, B, PR, CL>(
    clip: WirePath<P>,
    bodies: Seq<ClipPathBatchBody<P>>,
    mode_name: Seq<char>,
    clip_fill_name: Seq<char>,
    k: ClipKernels<AE, B, PR, CL>,
    out: ClipPathBatchOutput<P>,
)
    where
        AE: Fn(&Vec<&WirePath<P>>) -> Result<E, PathOpsErr>,
        B: Fn(&WirePath<P>, &WirePath<P>, BooleanParams<E>) -> Result<WirePath<P>, PathOpsErr>,
        PR: Fn(&WirePath<P>, LineClipParams<E>) -> L,
        CL: Fn(&L, &WirePath<P>) -> Result<WirePath<P>, PathOpsErr>,
    requires
        batch_outcome::<P, E, L, AE, B, PR, CL>(
            clip,
            bodies,
            mode_name,
            clip_fill_name,
            None,
            k,
            Ok::<ClipPathBatchOutput<P>, PathOpsErr>(out),
        ),
    ensures
        exists|e: E|
            #[trigger] auto_eps_outcome(k.auto_eps, eps_paths(clip, bodies), Ok::<E, PathOpsErr>(e))
                && forall|i: int|
                0 <= i < bodies.len() ==> #[trigger] single_outcome::<P, E, L, AE, B, PR, CL>(
                    clip,
                    bodies[i],
                    mode_name,
                    clip_fill_name,
                    Some(e),
                    k,
                    Ok::<ClipPathOutput<P>, PathOpsErr>(out.outputs@[i]),
                ),
{
    let s = choose|s: Result<ClipSetting<P, E, L>, PathOpsErr>|
        #[trigger] batch_setup(clip, bodies, mode_name, clip_fill_name, None, k, s) && match s {
            Err(x) => Ok::<ClipPathBatchOutput<P>, PathOpsErr>(out) == Err::<ClipPathBatchOutput<P>, PathOpsErr>(x),
            Ok(c) => run_outcome(c, k, bodies, Ok::<ClipPathBatchOutput<P>, PathOpsErr>(out)),
        };
    let c = s->Ok_0;
    lemma_outputs_are_single_outcomes(clip, bodies, mode_name, clip_fill_name, None, k, c, out);
    assert(auto_eps_outcome(k.auto_eps, eps_paths(clip, bodies), Ok::<E, PathOpsErr>(c.eps)));
}

} // verus!
