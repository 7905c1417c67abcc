//! Which compute units the steps of a program run on, and that they set no operand but their own.
use vstd::prelude::*;

use crate::arith::{ceil_div, ceil_div_bounds};
use crate::attention::{
    HeadIds, Pending, Qkv, add_norm_inst, copies_input, decode_flash_inst, fold_proj_inst,
    fused_qkv_inst, input_proj, k_norm_inst, merge, norm_residual_inst, norm_residual_norm_inst,
    norming_flash_inst, prefill_flash_inst, q_norm_inst, qkv, qkv_cuts, residual_inst, v_norm_inst,
};
use crate::dense_phase::{Head, choose_token, embed, head_inst, head_of, positive};
use crate::mlp::{
    expert_combine_inst, expert_down_inst, expert_glu, gate_proj, gemm_glu_bf16, gemm_glu_fp8,
    gemv_glu_fp8_inst, gemv_glu_inst, gemv_glu_mx_inst, glu_cut, prefill_products,
    prefill_products_narrow, prefill_router, split_glu,
};
use crate::router::{Router, SplitPlan, route};
use crate::steps::{Proj, elem_cus, project, quant, quant_inst, rms_norm};
use crate::builder::Emitted;
use crate::config::Cfg;
use crate::emit_config::EmitConfig;
use crate::gemm::{tile_op, QuantScheme, TileTable};
use crate::isa::{CuRange, DepView, DevOp, TENSOR_NONE};
use crate::phase::{Layer, Phase};
use crate::shape::{capped, capped_range, cut3, tile_count};
use crate::tensors::Tn;

verus! {

/// The steps around attention set no operand but their own: what they leave is bound to nothing.
pub proof fn attention_steps_set_nothing_else(
    p: Phase,
    y: Layer,
    n: Tn,
    after: u32,
    f: Pending,
    out: u32,
    w8: u32,
    scale: u32,
    width: u32,
    on: CuRange,
    store: bool,
    x: Qkv,
    h: HeadIds,
    tm: Option<u32>,
    b: u32,
    gamma: u32,
    src: u32,
    g_b: u32,
    g_next: u32,
    scalar: u32,
)
    ensures
        ({
            let a = fused_qkv_inst(p, y, n, after).args;
            a.t7 == TENSOR_NONE && a.f0 == 0 && a.f1 == 0 && a.j0 == 0 && a.j1 == 0
        }),
        ({
            let a = fold_proj_inst(p, n, f, out, w8, scale, width, on, store, after).args;
            a.i4 == 0 && a.i5 == 0 && a.i6 == 0 && a.i7 == 0 && a.j0 == 0 && a.j1 == 0
        }),
        ({
            let a = q_norm_inst(p, y, n, x).args;
            a.t6 == TENSOR_NONE && a.t7 == TENSOR_NONE && a.i3 == 0 && a.i5 == 0 && a.i6 == 0 && a.i7 == 0 && a.f1 == 0 && a.j0 == 0 && a.j1 == 0
        }),
        ({
            let a = k_norm_inst(p, y, n, x).args;
            a.t7 == TENSOR_NONE && a.i3 == 0 && a.i5 == 0 && a.i7 == 0 && a.f1 == 0
        }),
        ({
            let a = v_norm_inst(p, y, n, x).args;
            a.t2 == TENSOR_NONE && a.t3 == TENSOR_NONE && a.t4 == TENSOR_NONE && a.t7 == TENSOR_NONE && a.i3 == 0 && a.i5 == 0 && a.i7 == 0 && a.f1 == 0
        }),
        ({
            let a = norming_flash_inst(p, y, n, x).args;
            a.f1 == 0
        }),
        ({
            let a = decode_flash_inst(p, y, n, h).args;
            a.f1 == 0 && a.j1 == 0
        }),
        ({
            let a = prefill_flash_inst(p, y, n, h, tm).args;
            a.i4 == 0 && a.f1 == 0
        }),
        ({
            let a = add_norm_inst(p, n, b, gamma, after).args;
            a.t5 == TENSOR_NONE && a.t6 == TENSOR_NONE && a.t7 == TENSOR_NONE && a.i2 == 0 && a.i3 == 0 && a.i4 == 0 && a.i5 == 0 && a.i6 == 0 && a.i7 == 0 && a.f1 == 0 && a.j0 == 0 && a.j1 == 0
        }),
        ({
            let a = norm_residual_norm_inst(p, n, src, b, g_b, g_next, scalar, after).args;
            a.t6 == TENSOR_NONE && a.t7 == TENSOR_NONE && a.i2 == 0 && a.i3 == 0 && a.i4 == 0 && a.i5 == 0 && a.i6 == 0 && a.i7 == 0 && a.j0 == 0 && a.j1 == 0
        }),
        ({
            let a = norm_residual_inst(p, n, b, gamma, scalar, after).args;
            a.t4 == TENSOR_NONE && a.t5 == TENSOR_NONE && a.t6 == TENSOR_NONE && a.t7 == TENSOR_NONE && a.i2 == 0 && a.i3 == 0 && a.i4 == 0 && a.i5 == 0 && a.i6 == 0 && a.i7 == 0 && a.j0 == 0 && a.j1 == 0
        }),
        ({
            let a = residual_inst(p, n, b, after).args;
            a.t3 == TENSOR_NONE && a.t4 == TENSOR_NONE && a.t5 == TENSOR_NONE && a.t6 == TENSOR_NONE && a.t7 == TENSOR_NONE && a.i1 == 0 && a.i2 == 0 && a.i3 == 0 && a.i4 == 0 && a.i5 == 0 && a.i6 == 0 && a.i7 == 0 && a.f1 == 0 && a.j0 == 0 && a.j1 == 0
        }),
{
}

/// The steps of gating and of experts set no operand but their own.
pub proof fn gating_steps_set_nothing_else(
    p: Phase,
    k: EmitConfig,
    y: Layer,
    n: Tn,
    after: u32,
    c_dn: u32,
    c_h1: u32,
)
    ensures
        ({
            let a = gemv_glu_fp8_inst(p, k, y, n, after).args;
            a.t6 == TENSOR_NONE && a.t7 == TENSOR_NONE && a.j0 == 0
        }),
        ({
            let a = gemv_glu_mx_inst(p, k, y, n, after).args;
            a.t6 == TENSOR_NONE && a.t7 == TENSOR_NONE && a.i3 == 0 && a.i4 == 0 && a.i6 == 0 && a.i7 == 0 && a.f0 == 0 && a.f1 == 0 && a.j0 == 0 && a.j1 == 0
        }),
        ({
            let a = gemv_glu_inst(p, y, n, after).args;
            a.t3 == TENSOR_NONE && a.t4 == TENSOR_NONE && a.t6 == TENSOR_NONE && a.t7 == TENSOR_NONE && a.i3 == 0 && a.i4 == 0 && a.i6 == 0 && a.i7 == 0 && a.f0 == 0 && a.f1 == 0 && a.j0 == 0 && a.j1 == 0
        }),
        ({
            let a = expert_down_inst(p, y, n, after).args;
            a.t5 == TENSOR_NONE && a.t6 == TENSOR_NONE && a.t7 == TENSOR_NONE && a.i4 == 0 && a.i6 == 0 && a.i7 == 0 && a.f0 == 0 && a.f1 == 0 && a.j0 == 0 && a.j1 == 0
        }),
        ({
            let a = expert_combine_inst(p, k, y, n, c_dn, c_h1).args;
            a.t7 == TENSOR_NONE && a.i3 == 0 && a.i4 == 0 && a.i5 == 0 && a.i6 == 0 && a.i7 == 0 && a.j0 == 0 && a.j1 == 0
        }),
{
}

/// Norms, copies and the head set no operand but their own.
pub proof fn other_steps_set_nothing_else(
    p: Phase,
    out: u32,
    x: u32,
    gamma: u32,
    xq: u32,
    ascale: u32,
    after: Seq<DepView>,
    src: u32,
    k: u32,
    other_after: u32,
    c: Cfg,
    n: Tn,
    h: Head,
    ma: u32,
    mb: u32,
)
    ensures
        ({
            let a = rms_norm(p, out, x, gamma, xq, ascale, after).args;
            a.t5 == TENSOR_NONE && a.t6 == TENSOR_NONE && a.t7 == TENSOR_NONE && a.i2 == 0 && a.i3 == 0 && a.i4 == 0 && a.i5 == 0 && a.i6 == 0 && a.i7 == 0 && a.f1 == 0 && a.j0 == 0 && a.j1 == 0
        }),
        ({
            let a = quant_inst(p, xq, ascale, src, k, other_after).args;
            a.t3 == TENSOR_NONE && a.t4 == TENSOR_NONE && a.t5 == TENSOR_NONE && a.t6 == TENSOR_NONE && a.t7 == TENSOR_NONE && a.i2 == 0 && a.i3 == 0 && a.i4 == 0 && a.i5 == 0 && a.i6 == 0 && a.i7 == 0 && a.f0 == 0 && a.f1 == 0 && a.j0 == 0 && a.j1 == 0
        }),
        ({
            let a = head_inst(c, p, n, h, ma, mb, other_after).args;
            a.t4 == TENSOR_NONE && a.t6 == TENSOR_NONE && a.t7 == TENSOR_NONE && a.i3 == 0 && a.i5 == 0 && a.f1 == 0 && a.j0 == 0 && a.j1 == 0
        }),
{
}

/// The last steps of merging, embedding, gating, routing and experts set no operand but their own.
pub proof fn last_steps_set_nothing_else(
    s: Emitted,
    p: Phase,
    y: Layer,
    n: Tn,
    c_fa: u32,
    c: Cfg,
    after: u32,
    c_pf: u32,
    c_rt: u32,
    c_align: u32,
    c_xn2: u32,
    dep: u32,
    x: Router,
    plan: Option<SplitPlan>,
)
    ensures
        !(p.fused || y.fuse_merge) ==> ({
            let a = merge(s, p, y, n, c_fa).0.insts.last().args;
            a.t3 == TENSOR_NONE && a.t4 == TENSOR_NONE && a.t5 == TENSOR_NONE && a.t6 == TENSOR_NONE && a.t7 == TENSOR_NONE && a.i4 == 0 && a.i5 == 0 && a.i6 == 0 && a.i7 == 0 && a.f0 == 0 && a.f1 == 0 && a.j0 == 0 && a.j1 == 0
        }),
        !p.block_mode ==> ({
            let a = embed(s, p, c, n).0.insts.last().args;
            a.t3 == TENSOR_NONE && a.t4 == TENSOR_NONE && a.t5 == TENSOR_NONE && a.t6 == TENSOR_NONE && a.t7 == TENSOR_NONE && a.i2 == 0 && a.i3 == 0 && a.i4 == 0 && a.i5 == 0 && a.i6 == 0 && a.i7 == 0 && a.f1 == 0 && a.j0 == 0 && a.j1 == 0
        }),
        ({
            let a = gemm_glu_fp8(s, p, y, n, after).0.insts.last().args;
            a.t7 == TENSOR_NONE && a.i4 == 0 && a.f0 == 0 && a.f1 == 0 && a.j0 == 0 && a.j1 == 0
        }),
        ({
            let a = gemm_glu_bf16(s, p, y, n, after).0.insts.last().args;
            a.t3 == TENSOR_NONE && a.t4 == TENSOR_NONE && a.t6 == TENSOR_NONE && a.t7 == TENSOR_NONE && a.i4 == 0 && a.f0 == 0 && a.f1 == 0 && a.j0 == 0 && a.j1 == 0
        }),
        ({
            let a = expert_glu(s, p, y, n, c_pf, c_rt).0.insts.last().args;
            a.t5 == TENSOR_NONE && a.t6 == TENSOR_NONE && a.t7 == TENSOR_NONE && a.i4 == 0 && a.i6 == 0 && a.i7 == 0 && a.f1 == 0 && a.j0 == 0 && a.j1 == 0
        }),
        ({
            let a = prefill_router(s, p, y, n, c_pf).0.insts.last().args;
            a.t5 == TENSOR_NONE && a.t6 == TENSOR_NONE && a.t7 == TENSOR_NONE && a.i4 == 0 && a.i5 == 0 && a.i6 == 0 && a.i7 == 0 && a.j0 == 0 && a.j1 == 0
        }),
        ({
            let a = prefill_products(s, p, y, n, c_align, c_xn2).0.insts.last().args;
            a.t6 == TENSOR_NONE && a.t7 == TENSOR_NONE && a.i3 == 0 && a.i4 == 0 && a.i6 == 0 && a.i7 == 0 && a.f0 == 0 && a.f1 == 0 && a.j0 == 0 && a.j1 == 0
        }),
        ({
            let a = prefill_products_narrow(s, p, y, n, c_align, c_xn2).0.insts.last().args;
            a.i3 == 0 && a.i4 == 0 && a.i6 == 0 && a.i7 == 0 && a.f0 == 0 && a.f1 == 0 && a.j0 == 0 && a.j1 == 0
        }),
        ({
            let a = route(s, dep, x, plan).0.insts.last().args;
            a.t5 == TENSOR_NONE && a.t6 == TENSOR_NONE && a.t7 == TENSOR_NONE && a.i4 == 0 && a.i5 == 0 && a.i6 == 0 && a.i7 == 0 && a.j0 == 0 && a.j1 == 0
        }),
{
    reveal(merge);
}

/// Steps over single elements take a unit to each 4096 of them, at least one and no more than there
/// are; the residual's addition takes them for all of its elements, and bounded logits for theirs.
pub proof fn elementwise_steps_take_a_unit_to_4096(
    s: Emitted,
    c: Cfg,
    p: Phase,
    n: Tn,
    h: Head,
    b: u32,
    after: u32,
    elems: u32,
)
    requires
        p.n_cu > 0,
    ensures
        ({
            let r = elem_cus(p, elems);
            &&& r.lo == 0 && 1 <= r.hi <= p.n_cu
            &&& r.hi < p.n_cu ==> 4096 * r.hi >= elems
            &&& r.hi > 1 ==> 4096 * (r.hi - 1) < elems
        }),
        residual_inst(p, n, b, after).cus == elem_cus(p, p.th),
        !h.argmax && positive(c.softcap) ==> choose_token(
            s,
            c,
            p,
            n,
            h,
            after,
        ).insts[s.insts.len() as int].cus == elem_cus(p, (h.m * c.vocab) as u32),
{
    ceil_div_bounds(elems as int, 4096);
}

/// A product runs on the units that it is given; one of narrow rows is held to the cap on workgroups.
/// It carries the norm's epsilon only in bf16, and nothing else.
pub proof fn products_run_where_they_are_put(
    s: Emitted,
    p: Phase,
    k: EmitConfig,
    tab: TileTable,
    j: Proj,
    on: CuRange,
    after: u32,
)
    ensures
        ({
            let i = project(s, p, k, tab, j, on, after).0.insts[s.insts.len() as int];
            &&& i.cus == (if p.gemv && (p.mx || p.fp8) { capped_range(k, on) } else { on })
            &&& i.args.f0 == (if p.mx || p.fp8 { 0 } else { p.eps })
            &&& i.args.f1 == 0 && i.args.j0 == 0 && i.args.j1 == 0
            &&& !p.gemv && p.mx ==> i.op == tile_op(p.priced, tab, j.m, j.n, j.k, QuantScheme::Mxfp4)
            &&& !p.gemv && !p.mx && p.fp8 ==> i.op == tile_op(
                p.priced,
                tab,
                j.m,
                j.n,
                j.k,
                QuantScheme::W8A8,
            )
            &&& !p.gemv && !p.mx && !p.fp8 ==> i.op == tile_op(
                p.priced,
                tab,
                j.m,
                j.n,
                j.k,
                QuantScheme::Plain,
            )
        }),
{
}

/// Query, key and value share the units by their widths, or by their tiles where they are tiled: each
/// is told how many it has, and together they have all of them, or all under the cap on workgroups.
/// Where values are the keys there is no third share.
pub proof fn query_key_and_value_share_the_units(
    s: Emitted,
    p: Phase,
    k: EmitConfig,
    tab: TileTable,
    y: Layer,
    n: Tn,
    pend: Option<Pending>,
    c_n: u32,
)
    requires
        !y.fuse_qkv && !y.fuse_qkv_fp8,
        s.insts.len() + 4 <= u32::MAX,
        (if p.gemv { capped(k, p.n_cu as int) } else { p.n_cu as int }) >= 3,
    ensures
        ({
            let (t, x) = qkv(s, p, k, tab, y, n, pend, c_n);
            let m = if p.gemv { capped(k, p.n_cu as int) } else { p.n_cu as int };
            let a = if p.gemv { y.qd as int } else { tile_count(p.t as int, y.qd as int) };
            let b = if p.gemv { y.kd as int } else { tile_count(p.t as int, y.kd as int) };
            let first = s.insts.len() + if p.w8a8 && !copies_input(p, y) { 1int } else { 0int };
            let cap = |r: CuRange|
                if pend is None && p.gemv && (p.mx || p.fp8) { capped_range(k, r) } else { r };
            &&& x.nq == cut3(m, a, b, if y.keqv { 0 } else { b }).0
            &&& x.nq + x.nk == cut3(m, a, b, if y.keqv { 0 } else { b }).1
            &&& x.nq + x.nk + x.nv == m
            &&& y.keqv ==> x.nv == 0
            &&& t.insts[first].cus == cap(CuRange { lo: 0, hi: x.nq })
            &&& t.insts[first + 1].cus == cap(CuRange { lo: x.nq, hi: (x.nq + x.nk) as u32 })
            &&& !y.keqv ==> t.insts[first + 2].cus == cap(
                CuRange { lo: (x.nq + x.nk) as u32, hi: m as u32 },
            )
        }),
{
    reveal(qkv);
    let (a, z, m) = qkv_cuts(p, k, y);
    let cq = CuRange { lo: 0, hi: a as u32 };
    let ck = CuRange { lo: a as u32, hi: z as u32 };
    let cv = CuRange { lo: z as u32, hi: m as u32 };
    assert(0 <= a <= z <= m <= u32::MAX);
    let (s0, d) = if copies_input(p, y) {
        (s, c_n)
    } else {
        quant(s, p, n.xqh, n.ash, n.hn, p.hidden, c_n)
    };
    let w = y.w;
    part_runs_on(s0, p, k, tab, n, pend, n.qg, w.wq, w.wq8, w.sq, y.qd, cq, true, d);
    let s1 = input_proj(s0, p, k, tab, n, pend, n.qg, w.wq, w.wq8, w.sq, y.qd, cq, true, d).0;
    part_runs_on(s1, p, k, tab, n, pend, n.kg, w.wk, w.wk8, w.sk, y.kd, ck, false, d);
    let s2 = input_proj(s1, p, k, tab, n, pend, n.kg, w.wk, w.wk8, w.sk, y.kd, ck, false, d).0;
    part_runs_on(s2, p, k, tab, n, pend, n.vg, w.wv, w.wv8, w.sv, y.kd, cv, false, d);
}

proof fn part_runs_on(
    s: Emitted,
    p: Phase,
    k: EmitConfig,
    tab: TileTable,
    n: Tn,
    pend: Option<Pending>,
    out: u32,
    w: u32,
    w8: u32,
    scale: u32,
    width: u32,
    on: CuRange,
    store: bool,
    after: u32,
)
    ensures
        ({
            let t = input_proj(s, p, k, tab, n, pend, out, w, w8, scale, width, on, store, after).0;
            &&& t.insts.len() == s.insts.len() + 1
            &&& forall|i: int| 0 <= i < s.insts.len() ==> #[trigger] t.insts[i] == s.insts[i]
            &&& t.insts[s.insts.len() as int].cus == (if pend is None && p.gemv && (p.mx || p.fp8) {
                capped_range(k, on)
            } else {
                on
            })
        }),
{
}

/// Gating and the product beside it take half of the units each.
pub proof fn gate_and_product_halve_the_units(
    s: Emitted,
    p: Phase,
    k: EmitConfig,
    tab: TileTable,
    y: Layer,
    n: Tn,
    after: u32,
)
    requires
        p.n_cu >= 2,
        p.t > 0,
        p.inter > 0,
    ensures
        ({
            let t = split_glu(s, p, k, tab, y, n, after).0;
            let at = s.insts.len() as int;
            let half = p.n_cu / 2;
            let cap = |r: CuRange|
                if p.gemv && (p.mx || p.fp8) { capped_range(k, r) } else { r };
            &&& t.insts[at].cus == cap(CuRange { lo: 0, hi: half })
            &&& t.insts[at + 1].cus == cap(CuRange { lo: half, hi: p.n_cu })
        }),
{
    let x = if p.gemv { 1int } else { tile_count(p.t as int, p.inter as int) };
    ceil_div_bounds(p.t as int, 256);
    ceil_div_bounds(p.inter as int, 256);
    let a = ceil_div(p.t as int, 256);
    let b = ceil_div(p.inter as int, 256);
    assert(a * b >= 1) by (nonlinear_arith)
        requires
            a >= 1,
            b >= 1,
    ;
    assert(x >= 1);
    let m = p.n_cu as int;
    assert((m * x) / (x + x) == m / 2) by (nonlinear_arith)
        requires
            x >= 1,
            m >= 0,
    ;
    assert(glu_cut(p) == m / 2);
    let half = (p.n_cu / 2) as u32;
    let cg = CuRange { lo: 0, hi: half };
    let j = gate_proj(p, n, n.gt, y.w.wg, y.w.wg8, y.w.sg);
    products_run_where_they_are_put(s, p, k, tab, j, cg, after);
    let s1 = project(s, p, k, tab, j, cg, after).0;
    products_run_where_they_are_put(
        s1,
        p,
        k,
        tab,
        gate_proj(p, n, n.ut, y.w.wu, y.w.wu8, y.w.su),
        CuRange { lo: half, hi: p.n_cu },
        after,
    );
}

/// The head is a row product of a plain decode step, and of a prefill where that is asked, or by
/// default on AMD; narrow where its weights are and the step decodes; and the cheapest tile of one row
/// otherwise. It finds the largest logit itself only in a plain decode of one row.
pub proof fn heads_are_row_products_or_tiles(k: EmitConfig, c: Cfg, tab: TileTable, p: Phase, n: Tn)
    ensures
        ({
            let h = head_of(k, c, tab, p, n);
            let by_row = p.gemv || (!p.decode && if k.pf_gemv_head is Some {
                k.pf_gemv_head->0
            } else {
                p.amd
            });
            &&& h.argmax <==> k.fuse_argmax && p.decode && p.gemv && p.t == 1 && n.head8 == TENSOR_NONE
            &&& h.narrow <==> p.decode && n.head8 != TENSOR_NONE
            &&& h.argmax ==> h.op == DevOp::GemvArgmax
            &&& h.narrow ==> h.op == DevOp::GemvFp8
            &&& !h.argmax && !h.narrow && by_row ==> h.op == DevOp::Gemv
            &&& !h.argmax && !h.narrow && !by_row ==> h.op == tile_op(
                p.priced,
                tab,
                1,
                c.vocab,
                c.hidden,
                QuantScheme::Plain,
            )
            &&& h.w == (if c.tied { n.emb } else { n.head })
        }),
{
}

} // verus!
