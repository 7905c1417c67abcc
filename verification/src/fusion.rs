//! Decisions taken before emission, and what the verification of a program reports.
use vstd::prelude::*;

use crate::arith::smaller;
use crate::text::text;

verus! {

/// What the whole-graph pass decided: for how many devices, and which pairs of products share an
/// input.
pub struct WholeGraphFusionDecisions {
    pub tp: u32,
    pub parallel_linear2: Vec<ParallelLinear2Decision>,
}

/// Two products of one input, of widths `n0` and `n1` and depth `k`; `n1` is counted over all
/// devices.
#[derive(Clone, Copy, PartialEq, Eq, Debug, Structural)]
pub struct ParallelLinear2Decision {
    pub n0: u32,
    pub n1: u32,
    pub k: u32,
    pub instances: usize,
    pub qualified: bool,
}

impl WholeGraphFusionDecisions {
    /// No decision.
    pub fn none() -> (r: WholeGraphFusionDecisions)
        ensures
            r.tp == 0,
            r.parallel_linear2@ == Seq::<ParallelLinear2Decision>::empty(),
    {
        WholeGraphFusionDecisions { tp: 0, parallel_linear2: Vec::new() }
    }
}

/// The decisions in force, where a pass has installed some.
pub struct InstalledFusions {
    pub decisions: Option<WholeGraphFusionDecisions>,
}

/// Puts decisions in force, in place of those before.
pub fn install_whole_graph_fusions(at: &mut InstalledFusions, d: WholeGraphFusionDecisions)
    ensures
        final(at).decisions == Some(d),
{
    at.decisions = Some(d);
}

/// Whether a decision covers the pair on one of `tp` devices: it is qualified and occurs.
pub open spec fn covers(d: ParallelLinear2Decision, tp: u32, n0: u32, n1_local: u32, k: u32) -> bool {
    &&& d.qualified
    &&& d.n0 == n0
    &&& d.n1 == smaller(n1_local * tp, u32::MAX as int)
    &&& d.k == k
    &&& d.instances > 0
}

/// Whether one of the decisions covers the pair.
pub open spec fn decided(w: WholeGraphFusionDecisions, n0: u32, n1_local: u32, k: u32) -> bool {
    exists|i: int|
        0 <= i < w.parallel_linear2@.len() && covers(
            #[trigger] w.parallel_linear2@[i],
            w.tp,
            n0,
            n1_local,
            k,
        )
}

/// Whether the pass decided to run the pair as one product.
pub fn whole_graph_parallel_linear2(at: &InstalledFusions, n0: u32, n1_local: u32, k: u32) -> (r: bool)
    ensures
        r == (match at.decisions {
            None => false,
            Some(w) => decided(w, n0, n1_local, k),
        }),
{
    let w = match &at.decisions {
        None => {
            return false;
        },
        Some(w) => w,
    };
    proof {
        crate::arith::mul_le(n1_local as int, w.tp as int, u32::MAX as int, u32::MAX as int);
    }
    let wide: u64 = n1_local as u64 * w.tp as u64;
    let n1: u32 = if wide <= u32::MAX as u64 { wide as u32 } else { u32::MAX };
    let mut i: usize = 0;
    while i < w.parallel_linear2.len()
        invariant
            at.decisions == Some(*w),
            i <= w.parallel_linear2@.len(),
            n1 == smaller(n1_local * w.tp, u32::MAX as int),
            forall|j: int|
                0 <= j < i ==> !covers(
                    #[trigger] w.parallel_linear2@[j],
                    w.tp,
                    n0,
                    n1_local,
                    k,
                ),
        decreases w.parallel_linear2@.len() - i,
    {
        let d: ParallelLinear2Decision = w.parallel_linear2[i];
        if d.qualified && d.n0 == n0 && d.n1 == n1 && d.k == k && d.instances > 0 {
            proof {
                assert(covers(w.parallel_linear2@[i as int], w.tp, n0, n1_local, k));
                assert(decided(*w, n0, n1_local, k));
            }
            return true;
        }
        i = i + 1;
    }
    false
}

/// What the verification of a program reports: whether it held, whether against an oracle, and
/// where it was skipped the reason.
pub struct LeanReport {
    pub verified: bool,
    pub oracle: bool,
    pub reason: Option<String>,
}

impl LeanReport {
    /// A verification that did not run.
    pub fn skipped(reason: String) -> (r: LeanReport)
        ensures
            !r.verified,
            !r.oracle,
            r.reason == Some(reason),
    {
        LeanReport { verified: false, oracle: false, reason: Some(reason) }
    }
}

/// The report that an emission goes on with, from what the caller's verification said: its report,
/// a refusal, or, where the caller has none, a report that says so.
pub fn apply_verify_gate(said: Option<Result<LeanReport, String>>) -> (r: Result<LeanReport, String>)
    ensures
        match said {
            Some(v) => r == v,
            None => match r {
                Ok(l) => !l.verified && !l.oracle && (match l.reason {
                    Some(s) => s@ == "no verification hook supplied by the caller"@,
                    None => false,
                }),
                Err(_) => false,
            },
        },
{
    match said {
        Some(v) => v,
        None => Ok(LeanReport::skipped(text("no verification hook supplied by the caller"))),
    }
}

} // verus!
