//! Fill rules: how a winding number decides whether a point is inside.

use vstd::prelude::*;
use crate::error::PathOpsErr;

verus! {

/// Calls std's `str == str`, which holds exactly when both strings hold the
/// same characters.
#[verifier::external_body]
pub(crate) fn same_text(a: &str, b: &str) -> (r: bool)
    ensures
        r == (a@ == b@),
{
    a == b
}

/// How a winding number is read as inside or outside.
#[derive(Clone, Copy, Debug, PartialEq, Eq)]
pub enum FillRule {
    /// Inside when the winding number is odd.
    EvenOdd,
    /// Inside when the winding number is not zero.
    NonZero,
}

/// The fill rule named by `rule`, if it names one.
pub open spec fn spec_parse_fill_rule(rule: Seq<char>) -> Option<FillRule> {
    if rule == "non-zero"@ {
        Some(FillRule::NonZero)
    } else if rule == "even-odd"@ {
        Some(FillRule::EvenOdd)
    } else {
        None
    }
}

/// Whether a point of winding number `winding` is inside under `fill_rule`.
pub open spec fn spec_winding_inside(winding: int, fill_rule: FillRule) -> bool {
    match fill_rule {
        FillRule::EvenOdd => winding % 2 != 0,
        FillRule::NonZero => winding != 0,
    }
}

/// Reads a fill rule from its wire name: `"non-zero"` or `"even-odd"`.
pub fn parse_fill_rule(rule: &str) -> (r: Result<FillRule, PathOpsErr>)
    ensures
        match spec_parse_fill_rule(rule@) {
            Some(f) => r == Ok::<FillRule, PathOpsErr>(f),
            None => r matches Err(PathOpsErr::InvalidFillRule(s)) && s@ == rule@,
        },
{
    if same_text(rule, "non-zero") {
        Ok(FillRule::NonZero)
    } else if same_text(rule, "even-odd") {
        Ok(FillRule::EvenOdd)
    } else {
        Err(PathOpsErr::InvalidFillRule(rule.to_owned()))
    }
}

/// Whether a point of winding number `winding` is inside under `fill_rule`.
pub fn winding_inside(winding: i32, fill_rule: FillRule) -> (r: bool)
    ensures
        r == spec_winding_inside(winding as int, fill_rule),
{
    match fill_rule {
        FillRule::EvenOdd => winding % 2 != 0,
        FillRule::NonZero => winding != 0,
    }
}

/// Under either rule, a point of winding number zero is outside.
pub proof fn lemma_zero_winding_outside(fill_rule: FillRule)
    ensures
        !spec_winding_inside(0, fill_rule),
{
}

/// Reversing the orientation of every contour (negating the winding number)
/// never changes what is inside.
pub proof fn lemma_inside_orientation_independent(winding: int, fill_rule: FillRule)
    ensures
        spec_winding_inside(-winding, fill_rule) == spec_winding_inside(winding, fill_rule),
{
    assert((-winding) % 2 == 0 <==> winding % 2 == 0) by (nonlinear_arith);
}

/// Whatever is inside under even-odd is inside under non-zero; the converse
/// fails exactly on the non-zero even winding numbers.
pub proof fn lemma_even_odd_within_non_zero(winding: int)
    ensures
        spec_winding_inside(winding, FillRule::EvenOdd) ==> spec_winding_inside(winding, FillRule::NonZero),
        spec_winding_inside(winding, FillRule::NonZero) && !spec_winding_inside(winding, FillRule::EvenOdd)
            <==> (winding != 0 && winding % 2 == 0),
{
}

/// Under even-odd, adding two full turns (a doubly wound contour) to the
/// winding number never changes what is inside.
pub proof fn lemma_even_odd_ignores_double_turns(winding: int)
    ensures
        spec_winding_inside(winding + 2, FillRule::EvenOdd) == spec_winding_inside(winding, FillRule::EvenOdd),
{
    assert((winding + 2) % 2 == winding % 2) by (nonlinear_arith);
}

/// The wire names are the only names that parse, and they parse to distinct rules.
pub proof fn lemma_parse_fill_rule_names()
    ensures
        spec_parse_fill_rule("non-zero"@) == Some(FillRule::NonZero),
        spec_parse_fill_rule("even-odd"@) == Some(FillRule::EvenOdd),
        spec_parse_fill_rule("nonzero"@) is None,
        spec_parse_fill_rule("evenodd"@) is None,
{
    reveal_strlit("non-zero");
    reveal_strlit("even-odd");
    reveal_strlit("nonzero");
    reveal_strlit("evenodd");
    assert("even-odd"@[0] != "non-zero"@[0]);
    assert("nonzero"@.len() != "non-zero"@.len());
    assert("nonzero"@[0] != "even-odd"@[0]);
    assert("evenodd"@.len() != "non-zero"@.len());
    assert("evenodd"@.len() != "even-odd"@.len());
}

} // verus!
