//! Maximal runs of consecutive marked items: line clipping hands only the
//! runs of boundary segments that may matter to the sweep, each run as one
//! open polyline.

use vstd::prelude::*;

verus! {

/// `[start, end)` is a maximal run of `true` in `flags`: non-empty, all
/// `true`, and bounded on each side by a `false` or by an end of `flags`.
pub open spec fn is_maximal_run(flags: Seq<bool>, start: int, end: int) -> bool {
    &&& 0 <= start < end <= flags.len()
    &&& forall|i: int| start <= i < end ==> #[trigger] flags[i]
    &&& (start == 0 || !flags[start - 1])
    &&& (end == flags.len() || !flags[end])
}

/// `runs` lists maximal runs of `true` in `flags`, left to right.
pub open spec fn runs_in_order(flags: Seq<bool>, runs: Seq<(usize, usize)>) -> bool {
    &&& forall|k: int| 0 <= k < runs.len() ==> #[trigger] is_maximal_run(flags, runs[k].0 as int, runs[k].1 as int)
    &&& forall|k: int| 0 <= k < runs.len() - 1 ==> #[trigger] runs[k].1 < runs[k + 1].0
}

/// Position `i` lies in one of the runs.
pub open spec fn in_some_run(runs: Seq<(usize, usize)>, i: int) -> bool {
    exists|k: int| #![trigger runs[k]] 0 <= k < runs.len() && runs[k].0 <= i < runs[k].1
}

/// The maximal runs of `true` in `flags`, left to right; every `true`
/// lies in one of them.
pub fn true_runs(flags: &Vec<bool>) -> (runs: Vec<(usize, usize)>)
    ensures
        runs_in_order(flags@, runs@),
        forall|i: int|
            0 <= i < flags@.len() && #[trigger] flags@[i] ==> in_some_run(runs@, i),
{
    let n = flags.len();
    let mut runs: Vec<(usize, usize)> = Vec::new();
    let mut run_start: Option<usize> = None;
    let mut idx: usize = 0;
    while idx < n
        invariant
            n == flags@.len(),
            idx <= n,
            runs_in_order(flags@, runs@),
            forall|k: int| 0 <= k < runs@.len() ==> #[trigger] runs@[k].1 < idx,
            match run_start {
                None => idx == 0 || !flags@[idx - 1],
                Some(s) => s < idx && (forall|i: int| s <= i < idx ==> #[trigger] flags@[i]) && (s == 0
                    || !flags@[s - 1]) && (runs@.len() > 0 ==> runs@.last().1 < s),
            },
            forall|i: int|
                0 <= i < idx && #[trigger] flags@[i] ==> in_some_run(runs@, i) || (run_start matches Some(s)
                    && s <= i),
        decreases n - idx,
    {
        let f = flags[idx];
        match run_start {
            None => {
                if f {
                    run_start = Some(idx);
                    if runs.len() > 0 {
                        assert(runs@.last().1 < idx);
                    }
                }
            },
            Some(s) => {
                if !f {
                    let ghost before = runs@;
                    runs.push((s, idx));
                    assert(is_maximal_run(flags@, s as int, idx as int));
                    assert(runs@.last() == (s, idx));
                    assert forall|k: int| 0 <= k < runs@.len() implies #[trigger] is_maximal_run(
                        flags@,
                        runs@[k].0 as int,
                        runs@[k].1 as int,
                    ) by {
                        if k < before.len() {
                            assert(runs@[k] == before[k]);
                        }
                    }
                    assert forall|k: int| 0 <= k < runs@.len() - 1 implies #[trigger] runs@[k].1 < runs@[k + 1].0 by {
                        assert(runs@[k] == before[k]);
                        if k + 1 < before.len() {
                            assert(runs@[k + 1] == before[k + 1]);
                        }
                    }
                    assert forall|i: int| 0 <= i < idx + 1 && #[trigger] flags@[i] implies in_some_run(runs@, i) by {
                        if s <= i {
                            assert(runs@[runs@.len() - 1] == (s, idx));
                        } else {
                            let k = choose|k: int| #![trigger before[k]] 0 <= k < before.len() && before[k].0 <= i < before[k].1;
                            assert(runs@[k] == before[k]);
                        }
                    }
                    run_start = None;
                }
            },
        }
        idx = idx + 1;
    }
    if let Some(s) = run_start {
        let ghost before = runs@;
        runs.push((s, n));
        assert(is_maximal_run(flags@, s as int, n as int));
        assert forall|k: int| 0 <= k < runs@.len() implies #[trigger] is_maximal_run(
            flags@,
            runs@[k].0 as int,
            runs@[k].1 as int,
        ) by {
            if k < before.len() {
                assert(runs@[k] == before[k]);
            }
        }
        assert forall|k: int| 0 <= k < runs@.len() - 1 implies #[trigger] runs@[k].1 < runs@[k + 1].0 by {
            assert(runs@[k] == before[k]);
            if k + 1 < before.len() {
                assert(runs@[k + 1] == before[k + 1]);
            }
        }
        assert forall|i: int| 0 <= i < n && #[trigger] flags@[i] implies in_some_run(runs@, i) by {
            if s <= i {
                assert(runs@[runs@.len() - 1] == (s, n));
            } else {
                let k = choose|k: int| #![trigger before[k]] 0 <= k < before.len() && before[k].0 <= i < before[k].1;
                assert(runs@[k] == before[k]);
            }
        }
    }
    runs
}

} // verus!
