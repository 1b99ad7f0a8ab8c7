//! Boolean operations on filled regions: their names and the rule that
//! decides, from the winding numbers of the two operands, whether a point
//! belongs to the result.

use vstd::prelude::*;
use crate::error::PathOpsErr;
use crate::fill::{same_text, spec_winding_inside, winding_inside, FillRule};

verus! {

/// A boolean operation between the regions of two paths.
#[derive(Clone, Copy, Debug, PartialEq, Eq)]
pub enum BoolOp {
    Union,
    Intersection,
    Difference,
    Xor,
}

/// The operation named by `op`, if it names one.
pub open spec fn spec_parse_bool_op(op: Seq<char>) -> Option<BoolOp> {
    if op == "union"@ {
        Some(BoolOp::Union)
    } else if op == "intersection"@ {
        Some(BoolOp::Intersection)
    } else if op == "difference"@ {
        Some(BoolOp::Difference)
    } else if op == "xor"@ {
        Some(BoolOp::Xor)
    } else {
        None
    }
}

/// Whether a point lies in the result of `op`, given whether it lies in
/// the first region (`in_a`) and in the second (`in_b`).
pub open spec fn spec_combine(op: BoolOp, in_a: bool, in_b: bool) -> bool {
    match op {
        BoolOp::Union => in_a || in_b,
        BoolOp::Intersection => in_a && in_b,
        BoolOp::Xor => in_a != in_b,
        BoolOp::Difference => in_a && !in_b,
    }
}

/// Whether a point of winding numbers `winding_a` (first path) and
/// `winding_b` (second path) lies in the result of `op`, each path read
/// under its own fill rule.
pub open spec fn spec_result_inside(
    op: BoolOp,
    fill_rule_a: FillRule,
    fill_rule_b: FillRule,
    winding_a: int,
    winding_b: int,
) -> bool {
    spec_combine(
        op,
        spec_winding_inside(winding_a, fill_rule_a),
        spec_winding_inside(winding_b, fill_rule_b),
    )
}

/// Reads a boolean operation from its wire name.
pub fn parse_bool_op(op: &str) -> (r: Result<BoolOp, PathOpsErr>)
    ensures
        match spec_parse_bool_op(op@) {
            Some(o) => r == Ok::<BoolOp, PathOpsErr>(o),
            None => r matches Err(PathOpsErr::InvalidOp(s)) && s@ == op@,
        },
{
    if same_text(op, "union") {
        Ok(BoolOp::Union)
    } else if same_text(op, "intersection") {
        Ok(BoolOp::Intersection)
    } else if same_text(op, "difference") {
        Ok(BoolOp::Difference)
    } else if same_text(op, "xor") {
        Ok(BoolOp::Xor)
    } else {
        Err(PathOpsErr::InvalidOp(op.to_owned()))
    }
}

/// Whether a point lies in the result of `op`, given its membership of the
/// two operands.
pub fn combine(op: BoolOp, in_a: bool, in_b: bool) -> (r: bool)
    ensures
        r == spec_combine(op, in_a, in_b),
{
    match op {
        BoolOp::Union => in_a || in_b,
        BoolOp::Intersection => in_a && in_b,
        BoolOp::Xor => in_a != in_b,
        BoolOp::Difference => in_a && !in_b,
    }
}

/// The region selector of a boolean operation: whether a point with the
/// winding numbers `winding_a` and `winding_b` lies in the result.
pub fn result_inside(
    op: BoolOp,
    fill_rule_a: FillRule,
    fill_rule_b: FillRule,
    winding_a: i32,
    winding_b: i32,
) -> (r: bool)
    ensures
        r == spec_result_inside(op, fill_rule_a, fill_rule_b, winding_a as int, winding_b as int),
{
    let ia = winding_inside(winding_a, fill_rule_a);
    let ib = winding_inside(winding_b, fill_rule_b);
    combine(op, ia, ib)
}

/// The four wire names parse to the four operations; nothing else parses.
pub proof fn lemma_parse_bool_op_names()
    ensures
        spec_parse_bool_op("union"@) == Some(BoolOp::Union),
        spec_parse_bool_op("intersection"@) == Some(BoolOp::Intersection),
        spec_parse_bool_op("difference"@) == Some(BoolOp::Difference),
        spec_parse_bool_op("xor"@) == Some(BoolOp::Xor),
        spec_parse_bool_op("subtract"@) is None,
        spec_parse_bool_op(""@) is None,
{
    reveal_strlit("union");
    reveal_strlit("intersection");
    reveal_strlit("difference");
    reveal_strlit("xor");
    reveal_strlit("subtract");
    reveal_strlit("");
    assert("intersection"@.len() != "union"@.len());
    assert("difference"@.len() != "union"@.len());
    assert("difference"@.len() != "intersection"@.len());
    assert("xor"@.len() != "union"@.len());
    assert("xor"@.len() != "intersection"@.len());
    assert("xor"@.len() != "difference"@.len());
    assert("subtract"@.len() != "union"@.len());
    assert("subtract"@.len() != "intersection"@.len());
    assert("subtract"@[0] != "difference"@[0]);
    assert("subtract"@.len() != "xor"@.len());
}

/// Union, intersection and xor do not depend on the order of the operands
/// (each operand keeping its own fill rule).
pub proof fn lemma_symmetric_ops(
    op: BoolOp,
    fill_rule_a: FillRule,
    fill_rule_b: FillRule,
    winding_a: int,
    winding_b: int,
)
    requires
        op != BoolOp::Difference,
    ensures
        spec_result_inside(op, fill_rule_a, fill_rule_b, winding_a, winding_b)
            == spec_result_inside(op, fill_rule_b, fill_rule_a, winding_b, winding_a),
{
}

/// Xor is the union of the two differences, and a difference is contained
/// in the union and disjoint from the intersection of the reversed pair.
pub proof fn lemma_ops_relations(in_a: bool, in_b: bool)
    ensures
        spec_combine(BoolOp::Xor, in_a, in_b) == (spec_combine(BoolOp::Difference, in_a, in_b)
            || spec_combine(BoolOp::Difference, in_b, in_a)),
        spec_combine(BoolOp::Intersection, in_a, in_b) ==> spec_combine(BoolOp::Union, in_a, in_b),
        spec_combine(BoolOp::Difference, in_a, in_b) ==> spec_combine(BoolOp::Union, in_a, in_b),
        spec_combine(BoolOp::Union, in_a, in_b) == (spec_combine(BoolOp::Xor, in_a, in_b)
            || spec_combine(BoolOp::Intersection, in_a, in_b)),
        !(spec_combine(BoolOp::Difference, in_a, in_b) && spec_combine(BoolOp::Intersection, in_a, in_b)),
{
}

/// Against an empty second operand (winding number zero everywhere):
/// union, difference and xor give the first region, intersection gives nothing.
pub proof fn lemma_empty_second_operand(
    fill_rule_a: FillRule,
    fill_rule_b: FillRule,
    winding_a: int,
)
    ensures
        spec_result_inside(BoolOp::Union, fill_rule_a, fill_rule_b, winding_a, 0)
            == spec_winding_inside(winding_a, fill_rule_a),
        !spec_result_inside(BoolOp::Intersection, fill_rule_a, fill_rule_b, winding_a, 0),
        spec_result_inside(BoolOp::Difference, fill_rule_a, fill_rule_b, winding_a, 0)
            == spec_winding_inside(winding_a, fill_rule_a),
        spec_result_inside(BoolOp::Xor, fill_rule_a, fill_rule_b, winding_a, 0)
            == spec_winding_inside(winding_a, fill_rule_a),
{
}

/// With both operands empty, no operation selects any point.
pub proof fn lemma_both_empty(op: BoolOp, fill_rule_a: FillRule, fill_rule_b: FillRule)
    ensures
        !spec_result_inside(op, fill_rule_a, fill_rule_b, 0, 0),
{
}

} // verus!
