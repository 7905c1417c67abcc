//! The expert router of a mixture model.
use vstd::prelude::*;

use crate::arith::{ceil_div, clamp_u32, div_ceil, larger, max_u32, min_u32, smaller};
use crate::builder::{Emission, Emitted};
use crate::emit_config::EmitConfig;
use crate::isa::{after1, blank, cus, first_cus, inst, no_args, on1, Args, DevOp, TENSOR_NONE};

verus! {

/// A router whose scores are computed apart: the score step's workgroups and opcode.
#[derive(Clone, Copy, PartialEq, Eq, Debug, Structural)]
pub struct SplitPlan {
    pub blocks: u32,
    pub op: DevOp,
}

/// Workgroups that a score step of `nrow` rows can use: one to eight scores.
pub open spec fn useful_blocks(n_cu: int, n_exp: int, nrow: int) -> int {
    smaller(larger(ceil_div(nrow * n_exp, 8), 1), larger(n_cu, 1))
}

/// The plan of a router: none where it runs as one step, else the chosen workgroups, held to those
/// that it can use, and the exact or the fast score.
pub open spec fn split_plan(k: EmitConfig, n_cu: u32, n_exp: u32, nrow: u32) -> Option<SplitPlan> {
    if k.gemma_moe_router_fused {
        None
    } else {
        let top = useful_blocks(n_cu as int, n_exp as int, nrow as int);
        Some(
            SplitPlan {
                blocks: (match k.gemma_moe_router_blocks {
                    Some(v) => larger(1, smaller(v as int, top)),
                    None => top,
                }) as u32,
                op: if k.gemma_moe_router_exact {
                    DevOp::MoeRouterGemmaScore
                } else {
                    DevOp::MoeRouterGemmaScoreFast
                },
            },
        )
    }
}

/// Whether the router runs as two steps.
pub fn gemma_moe_router_split_enabled(k: &EmitConfig) -> (r: bool)
    ensures
        r == !k.gemma_moe_router_fused,
{
    !k.gemma_moe_router_fused
}

pub fn gemma_moe_router_split_plan(k: &EmitConfig, n_cu: u32, n_exp: u32, nrow: u32) -> (r: Option<
    SplitPlan,
>)
    requires
        nrow * n_exp <= u32::MAX,
    ensures
        r == split_plan(*k, n_cu, n_exp, nrow),
{
    if !gemma_moe_router_split_enabled(k) {
        return None;
    }
    let top: u32 = min_u32(max_u32(div_ceil(nrow * n_exp, 8), 1), max_u32(n_cu, 1));
    let blocks: u32 = match k.gemma_moe_router_blocks {
        Some(v) => clamp_u32(v, 1, top),
        None => top,
    };
    let op: DevOp = if k.gemma_moe_router_exact {
        DevOp::MoeRouterGemmaScore
    } else {
        DevOp::MoeRouterGemmaScoreFast
    };
    Some(SplitPlan { blocks, op })
}

/// A plan has between one workgroup and as many as the machine has.
pub proof fn a_plan_fits_the_machine(k: EmitConfig, n_cu: u32, n_exp: u32, nrow: u32)
    ensures
        match split_plan(k, n_cu, n_exp, nrow) {
            Some(p) => 1 <= p.blocks <= larger(n_cu as int, 1),
            None => true,
        },
{
}

/// The tensors and sizes of a router.
#[derive(Clone, Copy, PartialEq, Eq, Debug, Structural)]
pub struct Router {
    pub table: u32,
    pub resid: u32,
    pub proj: u32,
    pub scale: u32,
    pub pes: u32,
    pub score: u32,
    pub hidden: u32,
    pub n_exp: u32,
    pub top_k: u32,
    pub root: u32,
    pub eps: u32,
    pub nrow: u32,
}

/// The batch as a router step writes it: zero for one row.
pub open spec fn batch_of(nrow: u32) -> u32 {
    if nrow > 1 { nrow } else { 0 }
}

/// A router: one step, or a score step and a selection with one workgroup to a row.
pub open spec fn route(s: Emitted, dep: u32, x: Router, plan: Option<SplitPlan>) -> (Emitted, u32) {
    let nb = batch_of(x.nrow);
    match plan {
        Some(pl) => {
            let s1 = s.then_inst(
                inst(
                    pl.op,
                    first_cus(pl.blocks as int),
                    on1(dep),
                    Args {
                        t0: x.score,
                        t1: x.resid,
                        t2: x.proj,
                        t3: x.scale,
                        i0: x.hidden,
                        i1: x.n_exp,
                        i2: nb,
                        f0: x.root,
                        f1: x.eps,
                        ..no_args()
                    },
                ),
            );
            (
                s1.then_inst(
                    inst(
                        DevOp::MoeRouterGemmaTopk,
                        first_cus(larger(x.nrow as int, 1)),
                        on1(s.next()),
                        Args {
                            t0: x.table,
                            t1: x.score,
                            t2: x.pes,
                            i1: x.n_exp,
                            i2: x.top_k,
                            i3: nb,
                            ..no_args()
                        },
                    ),
                ),
                s1.next(),
            )
        },
        None => (
            s.then_inst(
                inst(
                    DevOp::MoeRouterGemma,
                    first_cus(1),
                    on1(dep),
                    Args {
                        t0: x.table,
                        t1: x.resid,
                        t2: x.proj,
                        t3: x.scale,
                        t4: x.pes,
                        i0: x.hidden,
                        i1: x.n_exp,
                        i2: x.top_k,
                        i3: nb,
                        f0: x.root,
                        f1: x.eps,
                        ..no_args()
                    },
                ),
            ),
            s.next(),
        ),
    }
}

/// Emits a router and returns the instruction that writes its table.
pub fn emit_gemma_moe_router(s: &mut Emission, dep: u32, x: Router, plan: Option<SplitPlan>) -> (r:
    u32)
    requires
        old(s)@.room(2),
        plan is Some ==> x.score != TENSOR_NONE,
    ensures
        (final(s)@, r) == route(old(s)@, dep, x, plan),
        final(s)@.within(old(s)@, 2),
{
    let nb: u32 = if x.nrow > 1 { x.nrow } else { 0 };
    match plan {
        Some(pl) => {
            let c_score: u32 = s.emit(
                pl.op,
                cus(pl.blocks),
                after1(dep),
                Args {
                    t0: x.score,
                    t1: x.resid,
                    t2: x.proj,
                    t3: x.scale,
                    i0: x.hidden,
                    i1: x.n_exp,
                    i2: nb,
                    f0: x.root,
                    f1: x.eps,
                    ..blank()
                },
            );
            s.emit(
                DevOp::MoeRouterGemmaTopk,
                cus(max_u32(x.nrow, 1)),
                after1(c_score),
                Args {
                    t0: x.table,
                    t1: x.score,
                    t2: x.pes,
                    i1: x.n_exp,
                    i2: x.top_k,
                    i3: nb,
                    ..blank()
                },
            )
        },
        None => s.emit(
            DevOp::MoeRouterGemma,
            cus(1),
            after1(dep),
            Args {
                t0: x.table,
                t1: x.resid,
                t2: x.proj,
                t3: x.scale,
                t4: x.pes,
                i0: x.hidden,
                i1: x.n_exp,
                i2: x.top_k,
                i3: nb,
                f0: x.root,
                f1: x.eps,
                ..blank()
            },
        ),
    }
}

} // verus!
