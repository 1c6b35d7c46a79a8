//! Verdicts over all the paths of one exploration.
use vstd::prelude::*;
use crate::checkers::{check_trace, trace_verdict, verdict_view, CheckResult, PathResult};

verus! {

/// Runs the checker pipeline on each completed path, in order: one verdict per path.
pub fn check_traces(traces: &Vec<PathResult>) -> (r: Vec<CheckResult>)
    ensures
        r.len() == traces.len(),
        forall|i: int| 0 <= i < r.len() ==> verdict_view(#[trigger] r@[i]) == trace_verdict(
            traces@[i],
        ),
{
    let mut r: Vec<CheckResult> = Vec::new();
    let mut i: usize = 0;
    while i < traces.len()
        invariant
            i <= traces.len(),
            r.len() == i,
            forall|k: int| 0 <= k < i ==> verdict_view(#[trigger] r@[k]) == trace_verdict(
                traces@[k],
            ),
        decreases traces.len() - i,
    {
        r.push(check_trace(&traces[i]));
        i = i + 1;
    }
    r
}

} // verus!
