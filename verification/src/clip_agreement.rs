//! Clipping with deterministic kernels.
//!
//! The kernels are closures that the caller hands in; nothing forces two
//! calls of one of them on the same input to answer alike.  Kernels that do
//! (as pure geometry does) make clipping a function of its inputs.  Under
//! that condition this module proves the equalities that the clipping API
//! promises: a batch clips every body exactly as a single clip of that body
//! would, a single clip is a batch of one body, and the area clip of a body
//! is the boolean operation of the mode between its closed subpaths and the
//! clip region.

use vstd::prelude::*;
use crate::error::{same_error, PathOpsErr};
use crate::fill::{spec_parse_fill_rule, FillRule};
use crate::path_bool::{
    auto_eps_deterministic, auto_eps_outcome, boolean_deterministic, boolean_outcome, boolean_wire_outcome,
    eps_outcome, lemma_auto_eps_agrees, same_path_answer, two_paths, BooleanParams,
};
use crate::clip_path::{
    any_need_line, area_outcome, assemble, batch_outcome, batch_setup, body_fill, body_outcome, body_parts,
    eps_paths, first_invalid_fill, all_fills_valid, setup_from_eps, lemma_batch_auto_eps_matches_single_calls, lemma_batch_matches_single_calls,
    lemma_single_from_batch, line_outcome, single_outcome, spec_area_op, spec_parse_mode,
    ClipKernels, ClipMode, ClipPathBatchBody, ClipPathBatchOutput, ClipPathOutput, ClipSetting, LineClipParams,
};
use crate::wire::{all_closed, closed_only, lemma_closed_only_all_closed, SubpathView, WirePath};

verus! {

/// The line kernel is a function of its inputs: clip regions with the same
/// contents prepared with the same parameters, then asked about bodies with
/// the same contents, give the same answer.
pub open spec fn line_deterministic<P, E, L, PR, CL>(prepare_line: PR, clip_line: CL) -> bool
    where
        PR: Fn(&WirePath<P>, LineClipParams<E>) -> L,
        CL: Fn(&L, &WirePath<P>) -> Result<WirePath<P>, PathOpsErr>,
{
    forall|c1: WirePath<P>, c2: WirePath<P>, p: LineClipParams<E>, l1: L, l2: L, b1: WirePath<P>, b2: WirePath<P>,
        r1: Result<WirePath<P>, PathOpsErr>, r2: Result<WirePath<P>, PathOpsErr>|
        #![trigger call_ensures(prepare_line, (&c1, p), l1), call_ensures(prepare_line, (&c2, p), l2), call_ensures(clip_line, (&l1, &b1), r1), call_ensures(clip_line, (&l2, &b2), r2)]
        c1@ == c2@ && b1@ == b2@ && call_ensures(prepare_line, (&c1, p), l1) && call_ensures(
            prepare_line,
            (&c2, p),
            l2,
        ) && call_ensures(clip_line, (&l1, &b1), r1) && call_ensures(clip_line, (&l2, &b2), r2)
            ==> same_path_answer(r1, r2)
}

/// Every kernel of clipping is a function of its inputs.
pub open spec fn kernels_deterministic<P, E, L, AE, B, PR, CL>(k: ClipKernels<AE, B, PR, CL>) -> bool
    where
        AE: Fn(&Vec<&WirePath<P>>) -> Result<E, PathOpsErr>,
        B: Fn(&WirePath<P>, &WirePath<P>, BooleanParams<E>) -> Result<WirePath<P>, PathOpsErr>,
        PR: Fn(&WirePath<P>, LineClipParams<E>) -> L,
        CL: Fn(&L, &WirePath<P>) -> Result<WirePath<P>, PathOpsErr>,
{
    &&& auto_eps_deterministic::<P, E, AE>(k.auto_eps)
    &&& boolean_deterministic::<P, E, B>(k.boolean)
    &&& line_deterministic::<P, E, L, PR, CL>(k.prepare_line, k.clip_line)
}

/// The contents of a path that may be absent.
pub open spec fn maybe_view<P>(p: Option<WirePath<P>>) -> Option<Seq<SubpathView<P>>> {
    match p {
        Some(q) => Some(q@),
        None => None,
    }
}

/// Two clip outputs hold the same line and the same area.
pub open spec fn same_output<P>(o1: ClipPathOutput<P>, o2: ClipPathOutput<P>) -> bool {
    maybe_view(o1.line_path) == maybe_view(o2.line_path) && maybe_view(o1.area_path) == maybe_view(o2.area_path)
}

/// Two answers of a clip are the same: the same output, or the same error.
pub open spec fn same_clip_answer<P>(
    r1: Result<ClipPathOutput<P>, PathOpsErr>,
    r2: Result<ClipPathOutput<P>, PathOpsErr>,
) -> bool {
    match r1 {
        Ok(o1) => r2 matches Ok(o2) && same_output(o1, o2),
        Err(x) => r2 matches Err(y) && same_error(x, y),
    }
}

/// Two kernel answers for one part of a body (its area or its line) are
/// the same: both absent, or both present and the same.
pub open spec fn same_part<P>(
    x1: Option<Result<WirePath<P>, PathOpsErr>>,
    x2: Option<Result<WirePath<P>, PathOpsErr>>,
) -> bool {
    match x1 {
        None => x2 is None,
        Some(r1) => x2 matches Some(r2) && same_path_answer(r1, r2),
    }
}

/// The setting holds a clip region prepared for line clipping with its own
/// mode, fill rule and tolerance.
pub open spec fn line_ready<P, E, L, PR>(prepare_line: PR, s: ClipSetting<P, E, L>) -> bool
    where
        PR: Fn(&WirePath<P>, LineClipParams<E>) -> L,
{
    s.prepared matches Some(l) && call_ensures(
        prepare_line,
        (&s.clip, LineClipParams { fill_rule: s.clip_fill, mode: s.mode, eps: s.eps }),
        l,
    )
}

/// Two settings clip alike: clip regions with the same contents, the same
/// mode, clip fill rule and tolerance.
pub open spec fn settings_agree<P, E, L>(s1: ClipSetting<P, E, L>, s2: ClipSetting<P, E, L>) -> bool {
    s1.clip@ == s2.clip@ && s1.mode == s2.mode && s1.clip_fill == s2.clip_fill && s1.eps == s2.eps
}

/// Two bodies of a batch ask the same of the same path.
pub open spec fn same_body<P>(b1: ClipPathBatchBody<P>, b2: ClipPathBatchBody<P>) -> bool {
    b1.body@ == b2.body@ && b1.body_fill_rule@ == b2.body_fill_rule@ && b1.need_line == b2.need_line
        && b1.need_area == b2.need_area
}

/// With a deterministic boolean kernel, the area clips of two bodies with
/// the same contents against two clip regions with the same contents agree.
pub proof fn lemma_area_agrees<P, E, B>(
    clip1: WirePath<P>,
    clip2: WirePath<P>,
    body1: WirePath<P>,
    body2: WirePath<P>,
    mode: ClipMode,
    clip_fill: FillRule,
    body_fill: FillRule,
    eps: E,
    boolean: B,
    r1: Result<WirePath<P>, PathOpsErr>,
    r2: Result<WirePath<P>, PathOpsErr>,
)
    where
        B: Fn(&WirePath<P>, &WirePath<P>, BooleanParams<E>) -> Result<WirePath<P>, PathOpsErr>,
    requires
        boolean_deterministic::<P, E, B>(boolean),
        clip1@ == clip2@,
        body1@ == body2@,
        area_outcome(clip1, body1, mode, clip_fill, body_fill, eps, boolean, r1),
        area_outcome(clip2, body2, mode, clip_fill, body_fill, eps, boolean, r2),
    ensures
        same_path_answer(r1, r2),
{
    let closed = closed_only(body1@);
    if closed.len() == 0 {
        assert(r1->Ok_0@ =~= r2->Ok_0@);
    } else if clip1@.len() == 0 {
        if mode == ClipMode::Include {
            assert(r1->Ok_0@ =~= r2->Ok_0@);
        }
    } else {
        let params = BooleanParams { op: spec_area_op(mode), fill_rule_a: body_fill, fill_rule_b: clip_fill, eps };
        let bc1 = choose|bc: WirePath<P>|
            #[trigger] boolean_outcome(boolean, bc, clip1, params, r1) && bc@ == closed && (all_closed(body1@)
                ==> bc == body1);
        let bc2 = choose|bc: WirePath<P>|
            #[trigger] boolean_outcome(boolean, bc, clip2, params, r2) && bc@ == closed && (all_closed(body2@)
                ==> bc == body2);
        assert(call_ensures(boolean, (&bc1, &clip1, params), r1) && call_ensures(boolean, (&bc2, &clip2, params), r2));
    }
}

/// With a deterministic line kernel, the line clips of two bodies with the
/// same contents against prepared clip regions that agree are the same.
pub proof fn lemma_line_agrees<P, E, L, PR, CL>(
    prepare_line: PR,
    clip_line: CL,
    s1: ClipSetting<P, E, L>,
    s2: ClipSetting<P, E, L>,
    body1: WirePath<P>,
    body2: WirePath<P>,
    r1: Result<WirePath<P>, PathOpsErr>,
    r2: Result<WirePath<P>, PathOpsErr>,
)
    where
        PR: Fn(&WirePath<P>, LineClipParams<E>) -> L,
        CL: Fn(&L, &WirePath<P>) -> Result<WirePath<P>, PathOpsErr>,
    requires
        line_deterministic::<P, E, L, PR, CL>(prepare_line, clip_line),
        settings_agree(s1, s2),
        line_ready(prepare_line, s1),
        line_ready(prepare_line, s2),
        body1@ == body2@,
        line_outcome(s1.prepared, body1, clip_line, r1),
        line_outcome(s2.prepared, body2, clip_line, r2),
    ensures
        same_path_answer(r1, r2),
{
    let l1 = s1.prepared->Some_0;
    let l2 = s2.prepared->Some_0;
    let p = LineClipParams { fill_rule: s1.clip_fill, mode: s1.mode, eps: s1.eps };
    assert(call_ensures(prepare_line, (&s1.clip, p), l1) && call_ensures(prepare_line, (&s2.clip, p), l2));
    assert(call_ensures(clip_line, (&l1, &body1), r1) && call_ensures(clip_line, (&l2, &body2), r2));
}

/// Outputs assembled from kernel answers that are the same are the same.
proof fn lemma_assemble_agrees<P>(
    area1: Option<Result<WirePath<P>, PathOpsErr>>,
    area2: Option<Result<WirePath<P>, PathOpsErr>>,
    line1: Option<Result<WirePath<P>, PathOpsErr>>,
    line2: Option<Result<WirePath<P>, PathOpsErr>>,
)
    requires
        same_part(area1, area2),
        same_part(line1, line2),
    ensures
        same_clip_answer(assemble(area1, line1), assemble(area2, line2)),
{
}

/// With deterministic kernels, clipping two bodies that ask the same of
/// paths with the same contents, in settings that agree, gives the same
/// answer.
pub proof fn lemma_body_agrees<P, E, L, AE, B, PR, CL>(
    s1: ClipSetting<P, E, L>,
    s2: ClipSetting<P, E, L>,
    k: ClipKernels<AE, B, PR, CL>,
    b1: ClipPathBatchBody<P>,
    b2: ClipPathBatchBody<P>,
    o1: Result<ClipPathOutput<P>, PathOpsErr>,
    o2: Result<ClipPathOutput<P>, PathOpsErr>,
)
    where
        AE: Fn(&Vec<&WirePath<P>>) -> Result<E, PathOpsErr>,
        B: Fn(&WirePath<P>, &WirePath<P>, BooleanParams<E>) -> Result<WirePath<P>, PathOpsErr>,
        PR: Fn(&WirePath<P>, LineClipParams<E>) -> L,
        CL: Fn(&L, &WirePath<P>) -> Result<WirePath<P>, PathOpsErr>,
    requires
        kernels_deterministic::<P, E, L, AE, B, PR, CL>(k),
        settings_agree(s1, s2),
        same_body(b1, b2),
        b1.need_line ==> line_ready(k.prepare_line, s1) && line_ready(k.prepare_line, s2),
        body_outcome(s1, k, b1, o1),
        body_outcome(s2, k, b2, o2),
    ensures
        same_clip_answer(o1, o2),
{
    let (area1, line1) = choose|area: Option<Result<WirePath<P>, PathOpsErr>>, line: Option<Result<WirePath<P>, PathOpsErr>>|
        #[trigger] body_parts(s1, k, b1, area, line) && o1 == assemble(area, line);
    let (area2, line2) = choose|area: Option<Result<WirePath<P>, PathOpsErr>>, line: Option<Result<WirePath<P>, PathOpsErr>>|
        #[trigger] body_parts(s2, k, b2, area, line) && o2 == assemble(area, line);
    assert(body_fill(b1) == body_fill(b2));
    if b1.need_area {
        lemma_area_agrees(
            s1.clip,
            s2.clip,
            b1.body,
            b2.body,
            s1.mode,
            s1.clip_fill,
            body_fill(b1),
            s1.eps,
            k.boolean,
            area1->Some_0,
            area2->Some_0,
        );
    }
    assert(same_part(area1, area2));
    if line1 is Some {
        lemma_line_agrees(k.prepare_line, k.clip_line, s1, s2, b1.body, b2.body, line1->Some_0, line2->Some_0);
    }
    assert(same_part(line1, line2));
    lemma_assemble_agrees(area1, area2, line1, line2);
}

/// With a deterministic tolerance kernel, two setups of the same batch
/// agree: the same refusal, or settings that agree, both holding a
/// prepared clip region when some body asks for its line.
pub proof fn lemma_setup_agrees<P, E, L, AE, B, PR, CL>(
    clip: WirePath<P>,
    bodies: Seq<ClipPathBatchBody<P>>,
    mode_name: Seq<char>,
    clip_fill_name: Seq<char>,
    eps: Option<E>,
    k: ClipKernels<AE, B, PR, CL>,
    s1: Result<ClipSetting<P, E, L>, PathOpsErr>,
    s2: Result<ClipSetting<P, E, L>, PathOpsErr>,
)
    where
        AE: Fn(&Vec<&WirePath<P>>) -> Result<E, PathOpsErr>,
        B: Fn(&WirePath<P>, &WirePath<P>, BooleanParams<E>) -> Result<WirePath<P>, PathOpsErr>,
        PR: Fn(&WirePath<P>, LineClipParams<E>) -> L,
        CL: Fn(&L, &WirePath<P>) -> Result<WirePath<P>, PathOpsErr>,
    requires
        auto_eps_deterministic::<P, E, AE>(k.auto_eps),
        batch_setup(clip, bodies, mode_name, clip_fill_name, eps, k, s1),
        batch_setup(clip, bodies, mode_name, clip_fill_name, eps, k, s2),
    ensures
        match s1 {
            Err(x) => s2 matches Err(y) && same_error(x, y),
            Ok(c1) => s2 matches Ok(c2) && settings_agree(c1, c2) && c1.clip == clip && (any_need_line(bodies)
                ==> line_ready(k.prepare_line, c1) && line_ready(k.prepare_line, c2)),
        },
{
    if bodies.len() != 0 && spec_parse_mode(mode_name) is Some && spec_parse_fill_rule(clip_fill_name) is Some {
        let mode = spec_parse_mode(mode_name)->Some_0;
        let clip_fill = spec_parse_fill_rule(clip_fill_name)->Some_0;
        if !all_fills_valid(bodies) {
            let j1 = choose|j: int|
                #[trigger] first_invalid_fill(bodies, j) && (s1 matches Err(PathOpsErr::InvalidFillRule(f))
                    && f@ == bodies[j].body_fill_rule@);
            let j2 = choose|j: int|
                #[trigger] first_invalid_fill(bodies, j) && (s2 matches Err(PathOpsErr::InvalidFillRule(f))
                    && f@ == bodies[j].body_fill_rule@);
            if j1 < j2 {
                assert(spec_parse_fill_rule(bodies[j1].body_fill_rule@) is Some);
            }
            if j2 < j1 {
                assert(spec_parse_fill_rule(bodies[j2].body_fill_rule@) is Some);
            }
            assert(j1 == j2);
        } else if all_closed(clip@) {
            let needs = any_need_line(bodies);
            let er1 = choose|er: Result<E, PathOpsErr>|
                #[trigger] eps_outcome(eps, k.auto_eps, eps_paths(clip, bodies), er) && setup_from_eps(
                    k.prepare_line,
                    clip,
                    mode,
                    clip_fill,
                    needs,
                    er,
                    s1,
                );
            let er2 = choose|er: Result<E, PathOpsErr>|
                #[trigger] eps_outcome(eps, k.auto_eps, eps_paths(clip, bodies), er) && setup_from_eps(
                    k.prepare_line,
                    clip,
                    mode,
                    clip_fill,
                    needs,
                    er,
                    s2,
                );
            if eps is None {
                lemma_auto_eps_agrees(k.auto_eps, eps_paths(clip, bodies), er1, er2);
            }
        }
    }
}

/// With deterministic kernels, two answers of a single clip of the same
/// body agree.
pub proof fn lemma_single_agrees<P, E, L, AE, B, PR, CL>(
    clip: WirePath<P>,
    body: ClipPathBatchBody<P>,
    mode_name: Seq<char>,
    clip_fill_name: Seq<char>,
    eps: Option<E>,
    k: ClipKernels<AE, B, PR, CL>,
    r1: Result<ClipPathOutput<P>, PathOpsErr>,
    r2: Result<ClipPathOutput<P>, PathOpsErr>,
)
    where
        AE: Fn(&Vec<&WirePath<P>>) -> Result<E, PathOpsErr>,
        B: Fn(&WirePath<P>, &WirePath<P>, BooleanParams<E>) -> Result<WirePath<P>, PathOpsErr>,
        PR: Fn(&WirePath<P>, LineClipParams<E>) -> L,
        CL: Fn(&L, &WirePath<P>) -> Result<WirePath<P>, PathOpsErr>,
    requires
        kernels_deterministic::<P, E, L, AE, B, PR, CL>(k),
        single_outcome::<P, E, L, AE, B, PR, CL>(clip, body, mode_name, clip_fill_name, eps, k, r1),
        single_outcome::<P, E, L, AE, B, PR, CL>(clip, body, mode_name, clip_fill_name, eps, k, r2),
    ensures
        same_clip_answer(r1, r2),
{
    let one = seq![body];
    let s1 = choose|s: Result<ClipSetting<P, E, L>, PathOpsErr>|
        #[trigger] batch_setup(clip, one, mode_name, clip_fill_name, eps, k, s) && match s {
            Err(x) => r1 == Err::<ClipPathOutput<P>, PathOpsErr>(x),
            Ok(c) => body_outcome(c, k, body, r1),
        };
    let s2 = choose|s: Result<ClipSetting<P, E, L>, PathOpsErr>|
        #[trigger] batch_setup(clip, one, mode_name, clip_fill_name, eps, k, s) && match s {
            Err(x) => r2 == Err::<ClipPathOutput<P>, PathOpsErr>(x),
            Ok(c) => body_outcome(c, k, body, r2),
        };
    lemma_setup_agrees(clip, one, mode_name, clip_fill_name, eps, k, s1, s2);
    if s1 is Ok {
        assert(one[0] == body);
        if body.need_line {
            assert(any_need_line(one));
        }
        lemma_body_agrees(s1->Ok_0, s2->Ok_0, k, body, body, r1, r2);
    }
}

/// With deterministic kernels, clipping one body gives what a batch of that
/// one body gives: its one output, or the same error.
pub proof fn lemma_single_equals_batch_of_one<P, E, L, AE, B, PR, CL>(
    clip: WirePath<P>,
    body: ClipPathBatchBody<P>,
    mode_name: Seq<char>,
    clip_fill_name: Seq<char>,
    eps: Option<E>,
    k: ClipKernels<AE, B, PR, CL>,
    r: Result<ClipPathOutput<P>, PathOpsErr>,
    rb: Result<ClipPathBatchOutput<P>, PathOpsErr>,
)
    where
        AE: Fn(&Vec<&WirePath<P>>) -> Result<E, PathOpsErr>,
        B: Fn(&WirePath<P>, &WirePath<P>, BooleanParams<E>) -> Result<WirePath<P>, PathOpsErr>,
        PR: Fn(&WirePath<P>, LineClipParams<E>) -> L,
        CL: Fn(&L, &WirePath<P>) -> Result<WirePath<P>, PathOpsErr>,
    requires
        kernels_deterministic::<P, E, L, AE, B, PR, CL>(k),
        single_outcome::<P, E, L, AE, B, PR, CL>(clip, body, mode_name, clip_fill_name, eps, k, r),
        batch_outcome::<P, E, L, AE, B, PR, CL>(clip, seq![body], mode_name, clip_fill_name, eps, k, rb),
    ensures
        match r {
            Ok(o) => rb matches Ok(b) && b.outputs@.len() == 1 && same_output(o, b.outputs@[0]),
            Err(x) => rb matches Err(y) && same_error(x, y),
        },
{
    lemma_single_from_batch(clip, body, mode_name, clip_fill_name, eps, k, rb);
    let proj = match rb {
        Ok(out) => Ok::<ClipPathOutput<P>, PathOpsErr>(out.outputs@[0]),
        Err(x) => Err::<ClipPathOutput<P>, PathOpsErr>(x),
    };
    lemma_single_agrees(clip, body, mode_name, clip_fill_name, eps, k, r, proj);
}

/// With deterministic kernels, a batch with an explicit tolerance clips
/// every body exactly as a single clip of that body with the same
/// tolerance does.
pub proof fn lemma_batch_equals_single_calls<P, E, L, AE, B, PR, CL>(
    clip: WirePath<P>,
    bodies: Seq<ClipPathBatchBody<P>>,
    mode_name: Seq<char>,
    clip_fill_name: Seq<char>,
    eps: E,
    k: ClipKernels<AE, B, PR, CL>,
    out: ClipPathBatchOutput<P>,
    i: int,
    r: Result<ClipPathOutput<P>, PathOpsErr>,
)
    where
        AE: Fn(&Vec<&WirePath<P>>) -> Result<E, PathOpsErr>,
        B: Fn(&WirePath<P>, &WirePath<P>, BooleanParams<E>) -> Result<WirePath<P>, PathOpsErr>,
        PR: Fn(&WirePath<P>, LineClipParams<E>) -> L,
        CL: Fn(&L, &WirePath<P>) -> Result<WirePath<P>, PathOpsErr>,
    requires
        kernels_deterministic::<P, E, L, AE, B, PR, CL>(k),
        batch_outcome::<P, E, L, AE, B, PR, CL>(
            clip,
            bodies,
            mode_name,
            clip_fill_name,
            Some(eps),
            k,
            Ok::<ClipPathBatchOutput<P>, PathOpsErr>(out),
        ),
        0 <= i < bodies.len(),
        single_outcome::<P, E, L, AE, B, PR, CL>(clip, bodies[i], mode_name, clip_fill_name, Some(eps), k, r),
    ensures
        out.outputs@.len() == bodies.len(),
        r matches Ok(o) && same_output(o, out.outputs@[i]),
{
    lemma_batch_matches_single_calls(clip, bodies, mode_name, clip_fill_name, eps, k, out);
    lemma_single_agrees(
        clip,
        bodies[i],
        mode_name,
        clip_fill_name,
        Some(eps),
        k,
        r,
        Ok::<ClipPathOutput<P>, PathOpsErr>(out.outputs@[i]),
    );
}

/// With deterministic kernels, a batch whose tolerance is chosen
/// automatically clips every body exactly as a single clip of that body
/// does when given the tolerance that the kernel chooses for the clip
/// region and all bodies together.
pub proof fn lemma_batch_auto_eps_equals_single_calls<P, E, L, AE, B, PR, CL>(
    clip: WirePath<P>,
    bodies: Seq<ClipPathBatchBody<P>>,
    mode_name: Seq<char>,
    clip_fill_name: Seq<char>,
    k: ClipKernels<AE, B, PR, CL>,
    out: ClipPathBatchOutput<P>,
    e: E,
    i: int,
    r: Result<ClipPathOutput<P>, PathOpsErr>,
)
    where
        AE: Fn(&Vec<&WirePath<P>>) -> Result<E, PathOpsErr>,
        B: Fn(&WirePath<P>, &WirePath<P>, BooleanParams<E>) -> Result<WirePath<P>, PathOpsErr>,
        PR: Fn(&WirePath<P>, LineClipParams<E>) -> L,
        CL: Fn(&L, &WirePath<P>) -> Result<WirePath<P>, PathOpsErr>,
    requires
        kernels_deterministic::<P, E, L, AE, B, PR, CL>(k),
        batch_outcome::<P, E, L, AE, B, PR, CL>(
            clip,
            bodies,
            mode_name,
            clip_fill_name,
            None,
            k,
            Ok::<ClipPathBatchOutput<P>, PathOpsErr>(out),
        ),
        auto_eps_outcome(k.auto_eps, eps_paths(clip, bodies), Ok::<E, PathOpsErr>(e)),
        0 <= i < bodies.len(),
        single_outcome::<P, E, L, AE, B, PR, CL>(clip, bodies[i], mode_name, clip_fill_name, Some(e), k, r),
    ensures
        out.outputs@.len() == bodies.len(),
        r matches Ok(o) && same_output(o, out.outputs@[i]),
{
    lemma_batch_auto_eps_matches_single_calls(clip, bodies, mode_name, clip_fill_name, k, out);
    let e2 = choose|e2: E|
        #[trigger] auto_eps_outcome(k.auto_eps, eps_paths(clip, bodies), Ok::<E, PathOpsErr>(e2)) && forall|j: int|
            0 <= j < bodies.len() ==> #[trigger] single_outcome::<P, E, L, AE, B, PR, CL>(
                clip,
                bodies[j],
                mode_name,
                clip_fill_name,
                Some(e2),
                k,
                Ok::<ClipPathOutput<P>, PathOpsErr>(out.outputs@[j]),
            );
    lemma_auto_eps_agrees(k.auto_eps, eps_paths(clip, bodies), Ok::<E, PathOpsErr>(e2), Ok::<E, PathOpsErr>(e));
    assert(e2 == e);
    lemma_single_agrees(
        clip,
        bodies[i],
        mode_name,
        clip_fill_name,
        Some(e),
        k,
        r,
        Ok::<ClipPathOutput<P>, PathOpsErr>(out.outputs@[i]),
    );
}

/// With a deterministic boolean kernel, the area clip of a body is the
/// boolean operation of the mode (intersection when including, difference
/// when excluding) between its closed subpaths, read with the body's fill
/// rule, and a non-empty closed clip region, read with the clip fill rule,
/// at the same tolerance; the body's open subpaths play no part.
pub proof fn lemma_area_clip_equals_boolean<P, E, AE, B>(
    clip: WirePath<P>,
    body: WirePath<P>,
    body_closed: WirePath<P>,
    mode: ClipMode,
    clip_fill: FillRule,
    body_fill: FillRule,
    eps: E,
    auto_eps: AE,
    boolean: B,
    r1: Result<WirePath<P>, PathOpsErr>,
    r2: Result<WirePath<P>, PathOpsErr>,
)
    where
        AE: Fn(&Vec<&WirePath<P>>) -> Result<E, PathOpsErr>,
        B: Fn(&WirePath<P>, &WirePath<P>, BooleanParams<E>) -> Result<WirePath<P>, PathOpsErr>,
    requires
        boolean_deterministic::<P, E, B>(boolean),
        body_closed@ == closed_only(body@),
        body_closed@.len() != 0,
        all_closed(clip@),
        clip@.len() != 0,
        area_outcome(clip, body, mode, clip_fill, body_fill, eps, boolean, r1),
        boolean_wire_outcome(
            body_closed,
            clip,
            spec_area_op(mode),
            body_fill,
            clip_fill,
            Some(eps),
            auto_eps,
            boolean,
            r2,
        ),
    ensures
        same_path_answer(r1, r2),
{
    lemma_closed_only_all_closed(body@);
    assert(all_closed(body_closed@));
    let params = BooleanParams { op: spec_area_op(mode), fill_rule_a: body_fill, fill_rule_b: clip_fill, eps };
    assert(eps_outcome(Some(eps), auto_eps, two_paths(body_closed, clip), Ok::<E, PathOpsErr>(eps)));
    let bc = choose|bc: WirePath<P>|
        #[trigger] boolean_outcome(boolean, bc, clip, params, r1) && bc@ == closed_only(body@) && (all_closed(body@)
            ==> bc == body);
    assert(call_ensures(boolean, (&bc, &clip, params), r1));
    assert(call_ensures(boolean, (&body_closed, &clip, params), r2));
}

} // verus!
