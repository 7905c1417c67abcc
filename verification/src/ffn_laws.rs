//! What the second half of a layer reads, writes and waits for.
use vstd::prelude::*;

use crate::arith::{ceil_div, larger, smaller};
use crate::attention::Pending;
use crate::builder::{mint, Emitted, TmapDecl, TmapKind};
use crate::emit_config::EmitConfig;
use crate::gemm::TileTable;
use crate::isa::{CuRange, DevOp, InstView, F32_ONE, TENSOR_NONE};
use crate::mlp::{down_proj, early_router, experts, glu, layer_end, split_glu, Ffn};
use crate::phase::{Layer, Phase};
use crate::router::{route, split_plan, Router, SplitPlan};
use crate::stage_laws::{
    a_product_is_summed_over_devices, a_projection_is_one_product, adds, adds_and_norms,
    adds_in_place, input_times, is_narrowing, is_norm, is_product, is_shared_product,
    leaves_no_copy, narrow_activations_are_copied, norms_adds_and_norms, on_first, waits_for,
    waits_for_both,
};
use crate::steps::{project, quant, Proj};
use crate::tensors::Tn;

verus! {

/// Whether a step is the gated product of the second half's input as a whole: `t` rows of the inner
/// width into `fu`.
pub open spec fn is_gated(i: InstView, p: Phase, n: Tn) -> bool {
    let a = i.args;
    &&& a.t0 == n.fu
    &&& a.i0 == p.t && a.i1 == p.inter && a.i2 == p.hidden && a.i5 == p.mlp_act
}

/// Whether a gated product has narrow weights: of gating and of up, each with its scales, which a
/// row product takes side by side and a tiled one behind each weight.
pub open spec fn has_narrow_gate(i: InstView, y: Layer, row: bool) -> bool {
    let a = i.args;
    &&& a.t2 == y.w.wg8 && a.t5 == y.w.wu8
    &&& row ==> a.t3 == y.w.sg && a.t4 == y.w.su
    &&& !row ==> a.t4 == y.w.sg && a.t6 == y.w.su
}

/// Whether a gated product has bf16 weights.
pub open spec fn has_plain_gate(i: InstView, y: Layer) -> bool {
    let a = i.args;
    &&& a.t2 == y.w.wg && a.t5 == y.w.wu
    &&& a.t3 == TENSOR_NONE && a.t4 == TENSOR_NONE && a.t6 == TENSOR_NONE
}

/// Whether a row product of e4m3 weights also finishes the norm that the attention left: it adds the
/// normed attention to the residual that is being kept aside.
pub open spec fn finishes_attention(i: InstView, p: Phase, y: Layer, n: Tn) -> bool {
    let a = i.args;
    &&& a.t1 == n.x && a.i3 == n.xr && a.i4 == n.og
    &&& a.i6 == y.w.g_pa && a.i7 == y.w.g_pf
    &&& a.f0 == p.eps && a.f1 == F32_ONE && a.j1 == 1
}

/// Whether a row product reads the normed input and finishes nothing.
pub open spec fn reads_normed(i: InstView, n: Tn) -> bool {
    let a = i.args;
    &&& a.t1 == n.hn && a.i3 == 0 && a.i4 == 0 && a.i6 == 0 && a.i7 == 0
    &&& a.f0 == 0 && a.f1 == 0 && a.j1 == 0
}

/// Whether a tiled gated product has the maps of the input it reads and of its two weights.
pub open spec fn maps_gate(
    s: Emitted,
    i: InstView,
    on: bool,
    p: Phase,
    src: u32,
    wg: u32,
    wu: u32,
    kind: TmapKind,
) -> bool {
    let d = TmapDecl { a: src, b: p.t, c: p.hidden, kind };
    let e = TmapDecl { a: wg, b: p.inter, c: p.hidden, kind };
    let f = TmapDecl { a: wu, b: p.inter, c: p.hidden, kind };
    let m1 = mint(s.tmaps, d);
    let m2 = mint(m1.0, e);
    let m3 = mint(m2.0, f);
    if on {
        i.args.i6 == m1.1 && i.args.i7 == m2.1 && i.args.i3 == m3.1
    } else {
        i.args.i6 == 0 && i.args.i7 == 0 && i.args.i3 == 0
    }
}

/// The gated product of row products is one step, of the weights that the program has, behind the
/// second half's norm; one of e4m3 weights finishes that norm itself where it was left to it.
pub proof fn row_products_gate_in_one_step(
    s: Emitted,
    p: Phase,
    k: EmitConfig,
    tab: TileTable,
    y: Layer,
    n: Tn,
    c: u32,
)
    requires
        p.stages,
        s.insts.len() + 2 <= u32::MAX,
    ensures
        ({
            let (t, r) = glu(s, p, k, tab, y, n, c);
            let copy = p.w8a8 && !(p.qnorm_fuse && !p.fuse_norm && !p.gfuse);
            let at = s.insts.len() as int + (if copy { 1int } else { 0int });
            let i = t.insts[at];
            &&& t.insts.len() == at + 1 && r == at
            &&& is_gated(i, p, n) && waits_for(i, c)
            &&& p.mx ==> i.op == DevOp::GemvGluMxfp4 && has_narrow_gate(i, y, true) && reads_normed(
                i,
                n,
            )
            &&& !p.mx && p.fp8 ==> i.op == DevOp::GemvGluFp8 && has_narrow_gate(i, y, true)
            &&& !p.mx && p.fp8 && !p.fuse_norm && p.gfuse && p.fuse_nrn ==> finishes_attention(
                i,
                p,
                y,
                n,
            )
            &&& !p.mx && p.fp8 && !(!p.fuse_norm && p.gfuse && p.fuse_nrn) ==> reads_normed(i, n)
            &&& !p.mx && !p.fp8 ==> i.op == DevOp::GemvGlu && has_plain_gate(i, y) && reads_normed(
                i,
                n,
            ) && on_first(i, p.n_cu as int)
        }),
{
    reveal(glu);
}

/// The gated product of one tiled product reads the narrow copy where activations are narrow, with
/// its scales, and waits for it; of bf16 weights it reads the normed input.
pub proof fn tiled_products_gate_in_one_step(
    s: Emitted,
    p: Phase,
    k: EmitConfig,
    tab: TileTable,
    y: Layer,
    n: Tn,
    c: u32,
)
    requires
        !p.stages,
        p.gemm_glu,
        s.insts.len() + 2 <= u32::MAX,
    ensures
        ({
            let (t, r) = glu(s, p, k, tab, y, n, c);
            let copy = p.w8a8 && !(p.qnorm_fuse && !p.fuse_norm && !p.gfuse);
            let at = s.insts.len() as int + (if copy { 1int } else { 0int });
            let i = t.insts[at];
            let a = i.args;
            &&& t.insts.len() == at + 1 && r == at
            &&& is_gated(i, p, n) && on_first(i, p.n_cu as int)
            &&& copy ==> is_narrowing(t.insts[at - 1], n.xqh, n.ash, n.hn, p.t as int, p.hidden)
                && waits_for(t.insts[at - 1], c)
            &&& p.fp8 ==> {
                &&& i.op == DevOp::GemmGluFp8 && has_narrow_gate(i, y, false)
                &&& p.w8a8 ==> a.t1 == n.xqh && a.t3 == n.ash
                &&& !p.w8a8 ==> a.t1 == n.hn && a.t3 == TENSOR_NONE
                &&& waits_for(i, if copy { (at - 1) as u32 } else { c })
                &&& maps_gate(
                    s,
                    i,
                    p.tma && p.w8a8,
                    p,
                    n.xqh,
                    y.w.wg8,
                    y.w.wu8,
                    TmapKind::E4m3,
                )
            }
            &&& !p.fp8 ==> {
                &&& i.op == DevOp::GemmGlu && has_plain_gate(i, y) && a.t1 == n.hn
                &&& waits_for(i, c)
                &&& maps_gate(s, i, p.tma, p, n.hn, y.w.wg, y.w.wu, TmapKind::Bf16)
            }
        }),
{
    reveal(glu);
}

/// Whether a step gates: the gating product into that of up, `t` rows of the inner width. Where norms
/// leave narrow copies, it leaves one of its own result.
pub open spec fn is_gating(i: InstView, p: Phase, n: Tn) -> bool {
    let a = i.args;
    &&& p.qnorm_fuse ==> i.op == DevOp::QuantFp8 && a.t0 == n.xqi && a.t1 == n.fu && a.t2 == n.asi
        && a.t3 == n.gt && a.t4 == n.ut && a.i0 == p.t && a.i1 == p.inter && a.i2 == p.mlp_act
        && on_first(i, p.rows as int)
    &&& !p.qnorm_fuse ==> i.op == DevOp::Glu && a.t0 == n.fu && a.t1 == n.gt && a.t2 == n.ut
        && a.i0 == p.ti && a.i1 == p.mlp_act && on_first(
        i,
        smaller(larger(ceil_div(p.ti as int, 4096), 1), p.n_cu as int),
    )
}

/// Where no kernel gates as it goes, gating and up are two products of the second half's
/// input, each of its own weight, side by side on the compute units; gating waits for both.
pub proof fn two_products_are_gated(
    s: Emitted,
    p: Phase,
    k: EmitConfig,
    tab: TileTable,
    y: Layer,
    n: Tn,
    c: u32,
)
    requires
        !p.stages,
        !p.gemm_glu,
        s.insts.len() + 4 <= u32::MAX,
    ensures
        ({
            let (t, r) = glu(s, p, k, tab, y, n, c);
            let copy = p.w8a8 && !(p.qnorm_fuse && !p.fuse_norm && !p.gfuse);
            let at = s.insts.len() as int + (if copy { 1int } else { 0int });
            let after = if copy { (at - 1) as u32 } else { c };
            let w = y.w;
            &&& t.insts.len() == at + 3 && r == at + 2
            &&& copy ==> is_narrowing(t.insts[at - 1], n.xqh, n.ash, n.hn, p.t as int, p.hidden)
                && waits_for(t.insts[at - 1], c)
            &&& is_product(t.insts[at], p, input_times(p, n, n.gt, w.wg, w.wg8, w.sg, p.inter))
            &&& is_product(t.insts[at + 1], p, input_times(p, n, n.ut, w.wu, w.wu8, w.su, p.inter))
            &&& waits_for(t.insts[at], after) && waits_for(t.insts[at + 1], after)
            &&& t.insts[at].cus.lo == 0
            &&& t.insts[at + 1].cus.lo == crate::mlp::glu_cut(p) as u32
            &&& is_gating(t.insts[at + 2], p, n)
            &&& waits_for_both(t.insts[at + 2], at as u32, (at + 1) as u32)
        }),
{
    reveal(glu);
    let copies = crate::attention::copies_half(p);
    narrow_activations_are_copied(s, p, n.xqh, n.ash, n.hn, p.hidden, c);
    let (s1, d) = if copies {
        (s, c)
    } else {
        quant(s, p, n.xqh, n.ash, n.hn, p.hidden, c)
    };
    let x = crate::mlp::glu_cut(p) as u32;
    let w = y.w;
    let jg = input_times(p, n, n.gt, w.wg, w.wg8, w.sg, p.inter);
    let ju = input_times(p, n, n.ut, w.wu, w.wu8, w.su, p.inter);
    let cg = CuRange { lo: 0, hi: x };
    let cu = CuRange { lo: x, hi: p.n_cu };
    a_projection_is_one_product(s1, p, k, tab, jg, cg, d);
    let s2 = project(s1, p, k, tab, jg, cg, d).0;
    a_projection_is_one_product(s2, p, k, tab, ju, cu, d);
    assert(glu(s, p, k, tab, y, n, c) == split_glu(s1, p, k, tab, y, n, d));
}

/// The gated rows, of the inner width, are projected back to the model's width by the down weight,
/// through the second reduction window. Their narrow copy is made first where activations are
/// narrow, unless gating has left it.
pub proof fn gated_rows_are_projected_back(
    s: Emitted,
    p: Phase,
    k: EmitConfig,
    tab: TileTable,
    y: Layer,
    n: Tn,
    c: u32,
)
    requires
        s.insts.len() + 3 <= u32::MAX,
        s.xgate + 2 <= u32::MAX,
    ensures
        ({
            let (t, r) = down_proj(s, p, k, tab, y, n, c);
            let at = s.insts.len() as int;
            let copy = p.w8a8 && !(p.qnorm_fuse && !p.stages && !p.gemm_glu);
            let first = if copy { at + 1 } else { at };
            let j = Proj {
                out: n.dg,
                a: n.fu,
                w: y.w.wd,
                w8: y.w.wd8,
                scale: y.w.sd,
                xq: n.xqi,
                ascale: n.asi,
                m: p.t,
                n: p.hidden,
                k: p.inter,
            };
            &&& copy ==> is_narrowing(t.insts[at], n.xqi, n.asi, n.fu, p.t as int, p.inter)
                && waits_for(t.insts[at], c)
            &&& is_shared_product(
                s,
                t,
                first,
                p,
                j,
                n.dg_tp,
                p.slot_b,
                if copy { at as u32 } else { c },
            )
            &&& r == t.insts.len() - 1
        }),
{
    reveal(down_proj);
    narrow_activations_are_copied(s, p, n.xqi, n.asi, n.fu, p.inter, c);
    let (s1, d) = if p.qnorm_fuse && !p.stages && !p.gemm_glu {
        (s, c)
    } else {
        quant(s, p, n.xqi, n.asi, n.fu, p.inter, c)
    };
    a_product_is_summed_over_devices(s1, p, k, tab, crate::mlp::down_proj_of(p, y, n), n.dg_tp, p.slot_b, d);
}

/// Whether a step scores every expert of each row of the residual.
pub open spec fn scores_experts(i: InstView, out: u32, x: Router) -> bool {
    let a = i.args;
    &&& a.t0 == out && a.t1 == x.resid && a.t2 == x.proj && a.t3 == x.scale
    &&& a.i0 == x.hidden && a.i1 == x.n_exp && a.f0 == x.root && a.f1 == x.eps
}

/// A router scores the experts of each row of the residual and chooses the best, into the table: in
/// one step, or in a score step and a selection behind it, one workgroup to a row. One row is
/// written as none.
pub proof fn a_router_scores_and_chooses(s: Emitted, dep: u32, x: Router, plan: Option<SplitPlan>)
    requires
        s.insts.len() + 2 <= u32::MAX,
    ensures
        ({
            let (t, r) = route(s, dep, x, plan);
            let at = s.insts.len() as int;
            let i = t.insts[at];
            let rows = if x.nrow > 1 { x.nrow } else { 0 };
            &&& waits_for(i, dep)
            &&& r == t.insts.len() - 1
            &&& plan is None ==> {
                &&& adds(s, t, 1)
                &&& i.op == DevOp::MoeRouterGemma && scores_experts(i, x.table, x)
                &&& i.args.t4 == x.pes && i.args.i2 == x.top_k && i.args.i3 == rows
                &&& on_first(i, 1)
            }
            &&& plan matches Some(pl) ==> {
                let j = t.insts[at + 1];
                &&& adds(s, t, 2)
                &&& i.op == pl.op && scores_experts(i, x.score, x) && i.args.i2 == rows
                &&& on_first(i, pl.blocks as int)
                &&& j.op == DevOp::MoeRouterGemmaTopk && j.args.t0 == x.table && j.args.t1
                    == x.score && j.args.t2 == x.pes
                &&& j.args.i1 == x.n_exp && j.args.i2 == x.top_k && j.args.i3 == rows
                &&& on_first(j, if x.nrow > 1 { x.nrow as int } else { 1 })
                &&& waits_for(j, at as u32)
            }
        }),
{
}

/// A router runs in two steps unless it is told to run in one. The score step has one workgroup to
/// eight scores, as many as the machine has at most and one at least; told how many, it has no more
/// than those. It scores exactly only where it is told to.
pub proof fn a_router_is_split_by_its_scores(k: EmitConfig, n_cu: u32, n_exp: u32, nrow: u32)
    ensures
        split_plan(k, n_cu, n_exp, nrow) is None <==> k.gemma_moe_router_fused,
        split_plan(k, n_cu, n_exp, nrow) matches Some(pl) ==> {
            let top = smaller(
                larger(ceil_div(nrow * n_exp, 8), 1),
                larger(n_cu as int, 1),
            );
            &&& k.gemma_moe_router_blocks is None ==> pl.blocks == top
            &&& k.gemma_moe_router_blocks matches Some(v) ==> pl.blocks == larger(
                1,
                smaller(v as int, top),
            )
            &&& pl.op == (if k.gemma_moe_router_exact {
                DevOp::MoeRouterGemmaScore
            } else {
                DevOp::MoeRouterGemmaScoreFast
            })
        },
{
}

/// The router of a layer: it reads the residual, not the normed input, and has the layer's own
/// weights.
pub open spec fn layer_router(p: Phase, y: Layer, n: Tn) -> Router {
    Router {
        table: n.moe_tab,
        resid: n.x,
        proj: y.w.rproj,
        scale: y.w.rscale,
        pes: y.w.rpes,
        score: n.moe_rscore,
        hidden: p.hidden,
        n_exp: p.n_exp,
        top_k: p.top_k,
        root: p.root,
        eps: p.eps,
        nrow: p.t,
    }
}

/// A mixture's decode step routes each row as soon as the attention is in the residual; no other
/// program routes there.
pub proof fn a_decode_step_routes_early(
    s: Emitted,
    p: Phase,
    k: EmitConfig,
    y: Layer,
    n: Tn,
    c: u32,
)
    ensures
        p.moe && p.decode ==> early_router(s, p, k, y, n, c) == route(
            s,
            c,
            layer_router(p, y, n),
            split_plan(k, p.n_cu, p.n_exp, p.t),
        ),
        !(p.moe && p.decode) ==> early_router(s, p, k, y, n, c).0 == s,
{
    reveal(early_router);
}

/// Whether a step runs the chosen experts on the rows: of the inner width to `top_k` experts.
pub open spec fn runs_experts(i: InstView, p: Phase, y: Layer, n: Tn) -> bool {
    let a = i.args;
    &&& a.t2 == n.moe_tab && a.t3 == y.w.ewt
    &&& a.i0 == p.top_k && a.i3 == p.n_exp && a.i5 == p.nb
    &&& on_first(i, p.n_cu as int)
}

/// The experts of a decode step. The shared product is normed; the chosen experts' gated products
/// read the residual normed by the experts' own weight, in a step of its own where weights are
/// narrow; their down products read those; and the sum of the experts is normed and added to the
/// shared product. Each waits for what it reads. Where the sum finishes the layer it writes the next
/// layer's input too.
pub proof fn a_decode_step_runs_its_experts(
    s: Emitted,
    p: Phase,
    k: EmitConfig,
    y: Layer,
    n: Tn,
    c_pf: u32,
    c_rt: u32,
    c_d: u32,
)
    requires
        p.moe,
        p.decode,
        s.insts.len() + 5 <= u32::MAX,
    ensures
        ({
            let (t, f) = experts(s, p, k, y, n, c_pf, c_rt, c_d);
            let at = s.insts.len() as int;
            let g = if p.fp8 { at + 2 } else { at + 1 };
            let (h1, glu_i, dn, cb) = (t.insts[at], t.insts[g], t.insts[g + 1], t.insts[g + 2]);
            let tail = p.gfuse && k.gemma_moe_tail_fuse;
            &&& adds(s, t, g - at + 3)
            &&& is_norm(h1, p, n.moe_h1, n.dg, y.w.g_pf1) && leaves_no_copy(h1) && waits_for(h1, c_d)
            &&& p.fp8 ==> is_norm(t.insts[at + 1], p, n.moe_xn2, n.x, y.w.g_pre2) && leaves_no_copy(
                t.insts[at + 1],
            ) && waits_for(t.insts[at + 1], c_pf)
            &&& runs_experts(glu_i, p, y, n) && glu_i.args.t0 == n.moe_mfu
            &&& glu_i.args.i1 == p.moe_inter && glu_i.args.i2 == p.hidden
            &&& p.fp8 ==> glu_i.op == DevOp::MoeExpertGluGemmaFp8 && glu_i.args.t1 == n.moe_xn2
                && glu_i.args.t4 == y.w.est && waits_for_both(glu_i, c_rt, (at + 1) as u32)
            &&& !p.fp8 ==> glu_i.op == DevOp::MoeExpertGluNormGemma && glu_i.args.t1 == n.x
                && glu_i.args.t4 == y.w.g_pre2 && glu_i.args.f0 == p.eps && waits_for_both(
                glu_i,
                c_rt,
                c_pf,
            )
            &&& runs_experts(dn, p, y, n) && dn.args.t0 == n.moe_part && dn.args.t1 == n.moe_mfu
                && dn.args.t4 == y.w.est
            &&& dn.args.i1 == p.hidden && dn.args.i2 == p.moe_inter
            &&& dn.op == (if p.fp8 {
                DevOp::MoeExpertDownGemmaFp8
            } else {
                DevOp::MoeExpertDownGemma
            })
            &&& waits_for(dn, g as u32)
            &&& waits_for_both(cb, (g + 1) as u32, at as u32)
            &&& cb.args.i0 == p.hidden && cb.args.i1 == p.top_k && cb.args.f0 == p.eps
            &&& tail ==> cb.op == DevOp::MoeCombineResidNormGemma && cb.args.t0 == n.hn && cb.args.t1
                == n.x && cb.args.t2 == n.moe_part && cb.args.t3 == n.moe_h1 && cb.args.t4
                == y.w.g_pf2 && cb.args.t5 == y.w.g_po && cb.args.t6 == y.next_gin && cb.args.f1
                == y.scalar && on_first(cb, 1)
            &&& !tail ==> cb.op == DevOp::MoeCombineNormGemma && cb.args.t0 == n.moe_comb
                && cb.args.t1 == n.moe_part && cb.args.t2 == n.moe_h1 && cb.args.t3 == y.w.g_pf2
                && cb.args.i2 == p.nb && on_first(cb, p.t as int)
            &&& f.out == n.moe_comb && f.c == g + 2 && f.done == tail
        }),
{
    reveal(experts);
}

/// Whether a step runs grouped experts on the rows of a prefill, as they were aligned.
pub open spec fn runs_groups(i: InstView, p: Phase, y: Layer, n: Tn) -> bool {
    let a = i.args;
    &&& a.t2 == y.w.ewt && a.t3 == n.moe_meta && a.i2 == p.n_exp
    &&& on_first(i, p.n_cu as int)
}

/// The experts of a prefill. The shared product is normed; the experts' input is the residual normed
/// by their own weight; the rows are routed and aligned to their experts; the grouped gated products
/// read the aligned rows, narrow where activations are, and the down products their result; and the
/// sum of the experts is normed and added to the shared product. Each waits for what it reads.
pub proof fn a_prefill_runs_its_experts(
    s: Emitted,
    p: Phase,
    k: EmitConfig,
    y: Layer,
    n: Tn,
    c_pf: u32,
    c_rt: u32,
    c_d: u32,
)
    requires
        p.moe,
        !p.decode,
        s.insts.len() + 9 <= u32::MAX,
        p.w8a8 ==> p.t * p.top_k + p.n_exp * 128 <= u32::MAX,
    ensures
        ({
            let (t, f) = experts(s, p, k, y, n, c_pf, c_rt, c_d);
            let at = s.insts.len() as int;
            let (h1, xn, rt, al) = (t.insts[at], t.insts[at + 1], t.insts[at + 2], t.insts[at + 3]);
            let c_al = (at + 3) as u32;
            let g = if p.w8a8 { at + 5 } else { at + 4 };
            let d = if p.w8a8 { at + 7 } else { at + 5 };
            let (glu_i, dn, cb) = (t.insts[g], t.insts[d], t.insts[d + 1]);
            &&& adds(s, t, d - at + 2)
            &&& is_norm(h1, p, n.moe_h1, n.dg, y.w.g_pf1) && leaves_no_copy(h1) && waits_for(h1, c_d)
            &&& is_norm(xn, p, n.moe_xn2, n.x, y.w.g_pre2) && leaves_no_copy(xn) && waits_for(
                xn,
                c_pf,
            )
            &&& rt.op == DevOp::MoeRouterGemmaPf && scores_experts(
                rt,
                n.moe_tab,
                layer_router(p, y, n),
            ) && rt.args.t4 == y.w.rpes && rt.args.i2 == p.top_k && rt.args.i3 == p.t
            &&& on_first(rt, p.n_cu as int) && waits_for(rt, c_pf)
            &&& al.op == DevOp::MoeAlignGemmaPf && al.args.t0 == n.moe_meta && al.args.t1
                == n.moe_tab && al.args.t2 == n.moe_rowtok && al.args.t3 == n.moe_rowpart
                && al.args.t4 == n.moe_rowgate
            &&& al.args.i0 == p.t && al.args.i1 == p.n_exp && al.args.i2 == p.top_k
            &&& on_first(al, 1) && waits_for(al, (at + 2) as u32)
            &&& runs_groups(glu_i, p, y, n) && glu_i.args.t0 == n.moe_fug && glu_i.args.t4
                == n.moe_rowtok
            &&& glu_i.args.i0 == p.moe_inter && glu_i.args.i1 == p.hidden && glu_i.args.i5
                == p.mlp_act
            &&& runs_groups(dn, p, y, n) && dn.args.t0 == n.moe_part && dn.args.t4
                == n.moe_rowpart && dn.args.t5 == n.moe_rowgate
            &&& dn.args.i0 == p.hidden && dn.args.i1 == p.moe_inter
            &&& p.w8a8 ==> {
                let q = t.insts[at + 4];
                let r = t.insts[at + 6];
                &&& is_narrowing(q, n.xqh, n.ash, n.moe_xn2, p.t as int, p.hidden) && waits_for(
                    q,
                    (at + 1) as u32,
                )
                &&& glu_i.op == DevOp::MoeGroupGluGemmaPfW8a8 && glu_i.args.t1 == n.xqh
                    && glu_i.args.t5 == n.ash && glu_i.args.t6 == y.w.est && waits_for_both(
                    glu_i,
                    c_al,
                    (at + 4) as u32,
                )
                &&& is_narrowing(
                    r,
                    n.moe_fuq,
                    n.moe_fus,
                    n.moe_fug,
                    p.t * p.top_k + p.n_exp * 128,
                    p.moe_inter,
                ) && waits_for(r, (at + 5) as u32) && on_first(r, p.n_cu as int)
                &&& dn.op == DevOp::MoeGroupDownGemmaPfW8a8 && dn.args.t1 == n.moe_fuq
                    && dn.args.t6 == y.w.est && dn.args.t7 == n.moe_fus && waits_for_both(
                    dn,
                    (at + 6) as u32,
                    c_al,
                )
            }
            &&& !p.w8a8 ==> {
                &&& glu_i.op == DevOp::MoeGroupGluGemmaPf && glu_i.args.t1 == n.moe_xn2
                    && waits_for_both(glu_i, c_al, (at + 1) as u32)
                &&& dn.op == DevOp::MoeGroupDownGemmaPf && dn.args.t1 == n.moe_fug
                    && waits_for_both(dn, (at + 4) as u32, c_al)
            }
            &&& cb.op == DevOp::MoeCombineNormGemmaPf && cb.args.t0 == n.moe_comb && cb.args.t1
                == n.moe_part && cb.args.t2 == n.moe_h1 && cb.args.t3 == y.w.g_pf2
            &&& cb.args.i0 == p.hidden && cb.args.i1 == p.top_k && cb.args.i2 == p.t && cb.args.f0
                == p.eps
            &&& on_first(cb, p.n_cu as int) && waits_for_both(cb, d as u32, at as u32)
            &&& f.out == n.moe_comb && f.c == d + 1 && !f.done
        }),
{
    reveal(experts);
}

/// A model without experts adds the shared product as it is.
pub proof fn without_experts_the_product_is_added(
    s: Emitted,
    p: Phase,
    k: EmitConfig,
    y: Layer,
    n: Tn,
    c_pf: u32,
    c_rt: u32,
    c_d: u32,
)
    requires
        !p.moe,
    ensures
        experts(s, p, k, y, n, c_pf, c_rt, c_d) == (s, Ffn { out: n.dg, c: c_d, done: false }),
{
    reveal(experts);
}

/// At its end a layer adds its second half to the residual, scaled by the layer's own scale, and
/// where steps fuse norms the sum for what comes next: the next layer's input, or the head's. It
/// leaves that to the next layer's products where those finish norms, unless there is none. What was
/// left to this layer stays left only where it was not used.
pub proof fn a_layer_ends_in_the_residual(
    s: Emitted,
    p: Phase,
    y: Layer,
    n: Tn,
    f: Ffn,
    pend: Option<Pending>,
)
    requires
        s.insts.len() < u32::MAX,
    ensures
        ({
            let (t, r, left) = layer_end(s, p, y, n, f, pend);
            let at = s.insts.len() as int;
            let i = t.insts[at];
            let leaves = !f.done && !p.fuse_norm && p.gfuse && p.fuse_nrn && !y.last;
            &&& f.done || leaves ==> t == s && r == f.c
            &&& !f.done && !leaves ==> adds(s, t, 1) && r == at && waits_for(i, f.c)
            &&& !leaves ==> left == pend
            &&& leaves ==> left == Some(
                Pending { out: f.out, g_post: y.w.g_po, g_next: y.next_gin, scalar: y.scalar },
            )
            &&& !f.done && p.fuse_norm ==> adds_and_norms(i, p, n, f.out, y.next_gin)
            &&& !f.done && !leaves && !p.fuse_norm && p.gfuse ==> norms_adds_and_norms(
                i,
                p,
                n,
                if p.fuse_nrn { n.xr } else { n.x },
                f.out,
                y.w.g_po,
                y.next_gin,
                y.scalar,
            )
            &&& !f.done && !p.fuse_norm && !p.gfuse ==> adds_in_place(
                i,
                p,
                n,
                f.out,
                y.w.g_po,
                y.scalar,
            )
        }),
{
    reveal(layer_end);
}

} // verus!
