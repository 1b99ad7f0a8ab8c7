//! Boolean operations between two paths.
//!
//! The geometry (choosing a tolerance, sweeping the two paths, tracing the
//! contours of the result) is done by two kernel closures handed in by the
//! caller: `auto_eps`, which picks a tolerance for a list of paths, and
//! `boolean`, which computes the operation at a given tolerance.  The
//! library checks the request, decides what the kernels are given, and
//! passes their answers through.

use vstd::prelude::*;
use crate::boolean::{parse_bool_op, spec_parse_bool_op, BoolOp};
use crate::error::{same_error, PathOpsErr};
use crate::fill::{parse_fill_rule, spec_parse_fill_rule, FillRule};
use crate::wire::{all_closed, SubpathView, WirePath};

verus! {

/// What the boolean kernel is asked to compute besides the two paths.
#[derive(Clone, Copy, Debug, PartialEq)]
pub struct BooleanParams<E> {
    pub op: BoolOp,
    pub fill_rule_a: FillRule,
    pub fill_rule_b: FillRule,
    pub eps: E,
}

/// A boolean operation request, with the operation and the fill rules by name.
pub struct PathBoolArgs<P, E> {
    pub a: WirePath<P>,
    pub b: WirePath<P>,
    pub op: String,
    pub fill_rule_a: String,
    pub fill_rule_b: String,
    pub eps: Option<E>,
}

/// The result of a boolean operation.
#[derive(Debug, Clone, PartialEq)]
pub struct PathBoolOutput<P> {
    pub path: WirePath<P>,
}

/// The paths that a list of path references points at.
pub open spec fn path_targets<P>(v: Seq<&WirePath<P>>) -> Seq<WirePath<P>> {
    v.map_values(|r: &WirePath<P>| *r)
}

/// `r` is an answer of the tolerance kernel when it is given exactly `paths`.
pub open spec fn auto_eps_outcome<P, E, AE>(
    auto_eps: AE,
    paths: Seq<WirePath<P>>,
    r: Result<E, PathOpsErr>,
) -> bool
    where
        AE: Fn(&Vec<&WirePath<P>>) -> Result<E, PathOpsErr>,
{
    exists|v: Vec<&WirePath<P>>| #[trigger] path_targets(v@) == paths && call_ensures(auto_eps, (&v,), r)
}

/// `r` is the tolerance used for `paths`: the explicit one if there is
/// one, else an answer of the tolerance kernel on `paths`.
pub open spec fn eps_outcome<P, E, AE>(
    eps: Option<E>,
    auto_eps: AE,
    paths: Seq<WirePath<P>>,
    r: Result<E, PathOpsErr>,
) -> bool
    where
        AE: Fn(&Vec<&WirePath<P>>) -> Result<E, PathOpsErr>,
{
    match eps {
        Some(e) => r == Ok::<E, PathOpsErr>(e),
        None => auto_eps_outcome(auto_eps, paths, r),
    }
}

/// The list made of the two paths `a` and `b`.
pub open spec fn two_paths<P>(a: WirePath<P>, b: WirePath<P>) -> Seq<WirePath<P>> {
    seq![a, b]
}

/// `r` is an answer of the boolean kernel on `a`, `b` and `params`.
pub open spec fn boolean_outcome<P, E, B>(
    boolean: B,
    a: WirePath<P>,
    b: WirePath<P>,
    params: BooleanParams<E>,
    r: Result<WirePath<P>, PathOpsErr>,
) -> bool
    where
        B: Fn(&WirePath<P>, &WirePath<P>, BooleanParams<E>) -> Result<WirePath<P>, PathOpsErr>,
{
    call_ensures(boolean, (&a, &b, params), r)
}

/// What a boolean operation between `a` and `b` may give: `OpenSubpath`
/// if either path has an open subpath; otherwise the tolerance is settled
/// (a kernel error is passed on) and the boolean kernel's answer is the result.
pub open spec fn boolean_wire_outcome<P, E, AE, B>(
    a: WirePath<P>,
    b: WirePath<P>,
    op: BoolOp,
    fill_rule_a: FillRule,
    fill_rule_b: FillRule,
    eps: Option<E>,
    auto_eps: AE,
    boolean: B,
    r: Result<WirePath<P>, PathOpsErr>,
) -> bool
    where
        AE: Fn(&Vec<&WirePath<P>>) -> Result<E, PathOpsErr>,
        B: Fn(&WirePath<P>, &WirePath<P>, BooleanParams<E>) -> Result<WirePath<P>, PathOpsErr>,
{
    if !all_closed(a@) || !all_closed(b@) {
        r == Err::<WirePath<P>, PathOpsErr>(PathOpsErr::OpenSubpath)
    } else {
        exists|er: Result<E, PathOpsErr>|
            #[trigger] eps_outcome(eps, auto_eps, two_paths(a, b), er) && match er {
                Err(x) => r == Err::<WirePath<P>, PathOpsErr>(x),
                Ok(e) => boolean_outcome(
                    boolean,
                    a,
                    b,
                    BooleanParams { op, fill_rule_a, fill_rule_b, eps: e },
                    r,
                ),
            }
    }
}

/// The path of a boolean result, or its error.
pub open spec fn output_path<P>(r: Result<PathBoolOutput<P>, PathOpsErr>) -> Result<WirePath<P>, PathOpsErr> {
    match r {
        Ok(out) => Ok(out.path),
        Err(x) => Err(x),
    }
}

/// What `path_bool` may give for `args`: the first invalid name is
/// reported (operation, then each fill rule), else the boolean operation
/// runs on the parsed values.
pub open spec fn path_bool_outcome<P, E, AE, B>(
    args: PathBoolArgs<P, E>,
    auto_eps: AE,
    boolean: B,
    r: Result<PathBoolOutput<P>, PathOpsErr>,
) -> bool
    where
        AE: Fn(&Vec<&WirePath<P>>) -> Result<E, PathOpsErr>,
        B: Fn(&WirePath<P>, &WirePath<P>, BooleanParams<E>) -> Result<WirePath<P>, PathOpsErr>,
{
    match spec_parse_bool_op(args.op@) {
        None => r matches Err(PathOpsErr::InvalidOp(s)) && s@ == args.op@,
        Some(op) => match spec_parse_fill_rule(args.fill_rule_a@) {
            None => r matches Err(PathOpsErr::InvalidFillRule(s)) && s@ == args.fill_rule_a@,
            Some(fa) => match spec_parse_fill_rule(args.fill_rule_b@) {
                None => r matches Err(PathOpsErr::InvalidFillRule(s)) && s@ == args.fill_rule_b@,
                Some(fb) => boolean_wire_outcome(
                    args.a,
                    args.b,
                    op,
                    fa,
                    fb,
                    args.eps,
                    auto_eps,
                    boolean,
                    output_path(r),
                ),
            },
        },
    }
}

/// The tolerance kernel accepts every list of paths.
pub open spec fn auto_eps_total<P, E, AE>(auto_eps: AE) -> bool
    where
        AE: Fn(&Vec<&WirePath<P>>) -> Result<E, PathOpsErr>,
{
    forall|v: &Vec<&WirePath<P>>| call_requires(auto_eps, (v,))
}

/// The boolean kernel accepts every pair of paths and parameters.
pub open spec fn boolean_total<P, E, B>(boolean: B) -> bool
    where
        B: Fn(&WirePath<P>, &WirePath<P>, BooleanParams<E>) -> Result<WirePath<P>, PathOpsErr>,
{
    forall|a: &WirePath<P>, b: &WirePath<P>, p: BooleanParams<E>| call_requires(boolean, (a, b, p))
}

/// The contents of each path of a list.
pub open spec fn paths_view<P>(s: Seq<WirePath<P>>) -> Seq<Seq<SubpathView<P>>> {
    s.map_values(|p: WirePath<P>| p@)
}

/// Two answers that carry a path are the same: the same path, or the same error.
pub open spec fn same_path_answer<P>(r1: Result<WirePath<P>, PathOpsErr>, r2: Result<WirePath<P>, PathOpsErr>) -> bool {
    match r1 {
        Ok(p) => r2 matches Ok(q) && p@ == q@,
        Err(x) => r2 matches Err(y) && same_error(x, y),
    }
}

/// Two tolerance answers are the same: the same tolerance, or the same error.
pub open spec fn same_eps_answer<E>(r1: Result<E, PathOpsErr>, r2: Result<E, PathOpsErr>) -> bool {
    match r1 {
        Ok(e) => r2 == Ok::<E, PathOpsErr>(e),
        Err(x) => r2 matches Err(y) && same_error(x, y),
    }
}

/// The tolerance kernel is a function of the paths it is given: lists of
/// paths with the same contents get the same answer.
pub open spec fn auto_eps_deterministic<P, E, AE>(auto_eps: AE) -> bool
    where
        AE: Fn(&Vec<&WirePath<P>>) -> Result<E, PathOpsErr>,
{
    forall|v1: Vec<&WirePath<P>>, v2: Vec<&WirePath<P>>, r1: Result<E, PathOpsErr>, r2: Result<E, PathOpsErr>|
        #![trigger call_ensures(auto_eps, (&v1,), r1), call_ensures(auto_eps, (&v2,), r2)]
        paths_view(path_targets(v1@)) == paths_view(path_targets(v2@)) && call_ensures(auto_eps, (&v1,), r1)
            && call_ensures(auto_eps, (&v2,), r2) ==> same_eps_answer(r1, r2)
}

/// The boolean kernel is a function of its inputs: paths with the same
/// contents and the same parameters get the same answer.
pub open spec fn boolean_deterministic<P, E, B>(boolean: B) -> bool
    where
        B: Fn(&WirePath<P>, &WirePath<P>, BooleanParams<E>) -> Result<WirePath<P>, PathOpsErr>,
{
    forall|a1: WirePath<P>, b1: WirePath<P>, a2: WirePath<P>, b2: WirePath<P>, p: BooleanParams<E>,
        r1: Result<WirePath<P>, PathOpsErr>, r2: Result<WirePath<P>, PathOpsErr>|
        #![trigger call_ensures(boolean, (&a1, &b1, p), r1), call_ensures(boolean, (&a2, &b2, p), r2)]
        a1@ == a2@ && b1@ == b2@ && call_ensures(boolean, (&a1, &b1, p), r1) && call_ensures(
            boolean,
            (&a2, &b2, p),
            r2,
        ) ==> same_path_answer(r1, r2)
}

/// Two answers of a deterministic tolerance kernel for the same paths agree.
pub proof fn lemma_auto_eps_agrees<P, E, AE>(
    auto_eps: AE,
    paths: Seq<WirePath<P>>,
    r1: Result<E, PathOpsErr>,
    r2: Result<E, PathOpsErr>,
)
    where
        AE: Fn(&Vec<&WirePath<P>>) -> Result<E, PathOpsErr>,
    requires
        auto_eps_deterministic::<P, E, AE>(auto_eps),
        auto_eps_outcome(auto_eps, paths, r1),
        auto_eps_outcome(auto_eps, paths, r2),
    ensures
        same_eps_answer(r1, r2),
{
    let v1 = choose|v: Vec<&WirePath<P>>| #[trigger] path_targets(v@) == paths && call_ensures(auto_eps, (&v,), r1);
    let v2 = choose|v: Vec<&WirePath<P>>| #[trigger] path_targets(v@) == paths && call_ensures(auto_eps, (&v,), r2);
    assert(call_ensures(auto_eps, (&v1,), r1) && call_ensures(auto_eps, (&v2,), r2));
}

/// With deterministic kernels, a boolean operation whose tolerance is
/// chosen automatically gives the same answer as the same operation given
/// the tolerance that the kernel chooses for the two paths.
pub proof fn lemma_auto_eps_equals_explicit<P, E, AE, B>(
    a: WirePath<P>,
    b: WirePath<P>,
    op: BoolOp,
    fill_rule_a: FillRule,
    fill_rule_b: FillRule,
    auto_eps: AE,
    boolean: B,
    e: E,
    r1: Result<WirePath<P>, PathOpsErr>,
    r2: Result<WirePath<P>, PathOpsErr>,
)
    where
        AE: Fn(&Vec<&WirePath<P>>) -> Result<E, PathOpsErr>,
        B: Fn(&WirePath<P>, &WirePath<P>, BooleanParams<E>) -> Result<WirePath<P>, PathOpsErr>,
    requires
        auto_eps_deterministic::<P, E, AE>(auto_eps),
        boolean_deterministic::<P, E, B>(boolean),
        auto_eps_outcome(auto_eps, two_paths(a, b), Ok::<E, PathOpsErr>(e)),
        boolean_wire_outcome(a, b, op, fill_rule_a, fill_rule_b, None, auto_eps, boolean, r1),
        boolean_wire_outcome(a, b, op, fill_rule_a, fill_rule_b, Some(e), auto_eps, boolean, r2),
    ensures
        same_path_answer(r1, r2),
{
    if all_closed(a@) && all_closed(b@) {
        let er1 = choose|er: Result<E, PathOpsErr>|
            #[trigger] eps_outcome(None, auto_eps, two_paths(a, b), er) && match er {
                Err(x) => r1 == Err::<WirePath<P>, PathOpsErr>(x),
                Ok(e1) => boolean_outcome(
                    boolean,
                    a,
                    b,
                    BooleanParams { op, fill_rule_a, fill_rule_b, eps: e1 },
                    r1,
                ),
            };
        let er2 = choose|er: Result<E, PathOpsErr>|
            #[trigger] eps_outcome(Some(e), auto_eps, two_paths(a, b), er) && match er {
                Err(x) => r2 == Err::<WirePath<P>, PathOpsErr>(x),
                Ok(e1) => boolean_outcome(
                    boolean,
                    a,
                    b,
                    BooleanParams { op, fill_rule_a, fill_rule_b, eps: e1 },
                    r2,
                ),
            };
        lemma_auto_eps_agrees(auto_eps, two_paths(a, b), er1, Ok::<E, PathOpsErr>(e));
        assert(er1 == Ok::<E, PathOpsErr>(e));
        assert(er2 == Ok::<E, PathOpsErr>(e));
        let params = BooleanParams { op, fill_rule_a, fill_rule_b, eps: e };
        assert(call_ensures(boolean, (&a, &b, params), r1) && call_ensures(boolean, (&a, &b, params), r2));
    }
}

/// The tolerance for `a` and `b`: `eps` if given, else the kernel's choice.
fn settle_eps<P, E: Copy, AE>(
    a: &WirePath<P>,
    b: &WirePath<P>,
    eps: Option<E>,
    auto_eps: &AE,
) -> (r: Result<E, PathOpsErr>)
    where
        AE: Fn(&Vec<&WirePath<P>>) -> Result<E, PathOpsErr>,
    requires
        auto_eps_total::<P, E, AE>(*auto_eps),
    ensures
        eps_outcome(eps, *auto_eps, two_paths(*a, *b), r),
{
    match eps {
        Some(e) => Ok(e),
        None => {
            let mut v: Vec<&WirePath<P>> = Vec::new();
            v.push(a);
            v.push(b);
            let r = auto_eps(&v);
            assert(path_targets(v@) =~= two_paths(*a, *b));
            r
        },
    }
}

/// The boolean operation `op` between the regions of `a` and `b`, each read
/// under its own fill rule; both paths must consist of closed subpaths.
pub fn boolean_wire_paths<P, E: Copy, AE, B>(
    a: &WirePath<P>,
    b: &WirePath<P>,
    op: BoolOp,
    fill_rule_a: FillRule,
    fill_rule_b: FillRule,
    eps: Option<E>,
    auto_eps: &AE,
    boolean: &B,
) -> (r: Result<WirePath<P>, PathOpsErr>)
    where
        AE: Fn(&Vec<&WirePath<P>>) -> Result<E, PathOpsErr>,
        B: Fn(&WirePath<P>, &WirePath<P>, BooleanParams<E>) -> Result<WirePath<P>, PathOpsErr>,
    requires
        auto_eps_total::<P, E, AE>(*auto_eps),
        boolean_total::<P, E, B>(*boolean),
    ensures
        boolean_wire_outcome(*a, *b, op, fill_rule_a, fill_rule_b, eps, *auto_eps, *boolean, r),
{
    if let Err(x) = a.ensure_closed() {
        return Err(x);
    }
    if let Err(x) = b.ensure_closed() {
        return Err(x);
    }
    let er = settle_eps(a, b, eps, auto_eps);
    match er {
        Err(x) => Err(x),
        Ok(e) => {
            let params = BooleanParams { op, fill_rule_a, fill_rule_b, eps: e };
            let r = boolean(a, b, params);
            assert(eps_outcome(eps, *auto_eps, two_paths(*a, *b), er));
            r
        },
    }
}

/// The boolean operation between a path and a clip region at a fixed
/// tolerance; the path must consist of closed subpaths.
pub fn boolean_wire_path_with_clip<P, E: Copy, B>(
    a: &WirePath<P>,
    clip: &WirePath<P>,
    op: BoolOp,
    fill_rule_a: FillRule,
    fill_rule_clip: FillRule,
    eps: E,
    boolean: &B,
) -> (r: Result<WirePath<P>, PathOpsErr>)
    where
        B: Fn(&WirePath<P>, &WirePath<P>, BooleanParams<E>) -> Result<WirePath<P>, PathOpsErr>,
    requires
        boolean_total::<P, E, B>(*boolean),
    ensures
        !all_closed(a@) ==> r == Err::<WirePath<P>, PathOpsErr>(PathOpsErr::OpenSubpath),
        all_closed(a@) ==> boolean_outcome(
            *boolean,
            *a,
            *clip,
            BooleanParams { op, fill_rule_a, fill_rule_b: fill_rule_clip, eps },
            r,
        ),
{
    if let Err(x) = a.ensure_closed() {
        return Err(x);
    }
    boolean(a, clip, BooleanParams { op, fill_rule_a, fill_rule_b: fill_rule_clip, eps })
}

/// Runs a boolean operation request: the operation and both fill rules are
/// read from their names, then `boolean_wire_paths` computes the result.
pub fn path_bool<P, E: Copy, AE, B>(
    args: PathBoolArgs<P, E>,
    auto_eps: &AE,
    boolean: &B,
) -> (r: Result<PathBoolOutput<P>, PathOpsErr>)
    where
        AE: Fn(&Vec<&WirePath<P>>) -> Result<E, PathOpsErr>,
        B: Fn(&WirePath<P>, &WirePath<P>, BooleanParams<E>) -> Result<WirePath<P>, PathOpsErr>,
    requires
        auto_eps_total::<P, E, AE>(*auto_eps),
        boolean_total::<P, E, B>(*boolean),
    ensures
        path_bool_outcome(args, *auto_eps, *boolean, r),
{
    let op = match parse_bool_op(args.op.as_str()) {
        Ok(op) => op,
        Err(x) => return Err(x),
    };
    let fill_rule_a = match parse_fill_rule(args.fill_rule_a.as_str()) {
        Ok(f) => f,
        Err(x) => return Err(x),
    };
    let fill_rule_b = match parse_fill_rule(args.fill_rule_b.as_str()) {
        Ok(f) => f,
        Err(x) => return Err(x),
    };
    match boolean_wire_paths(&args.a, &args.b, op, fill_rule_a, fill_rule_b, args.eps, auto_eps, boolean) {
        Ok(path) => Ok(PathBoolOutput { path }),
        Err(x) => Err(x),
    }
}

} // verus!
