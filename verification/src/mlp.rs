//! The second half of a layer: the gated product, the experts, and the sum with the residual.
use vstd::prelude::*;

use crate::attention::{
    add_norm_inst, copies_half, emit_add_norm, emit_norm_residual_norm, emit_project_out,
    emit_residual_step, norm_residual_norm_inst, project_out, residual_step, Pending,
};
use crate::builder::{Emission, Emitted};
use crate::emit_config::EmitConfig;
use crate::gemm::TileTable;
use crate::isa::{
    after1, after2, blank, cus, first_cus, inst, no_args, on1, on2, Args, CuRange, DevOp, InstView,
    F32_ONE, TENSOR_NONE,
};
use crate::phase::{Layer, Phase};
use crate::router::{emit_gemma_moe_router, gemma_moe_router_split_plan, route, split_plan, Router};
use crate::shape::{capped_range, cut2, gemv_wg_cap, split2, tile_count, tiles};
use crate::steps::{
    elem, elem_cus, emit_proj, emit_quant, emit_rms_norm, glu_maps, mint_glu_maps, proj_ok, project,
    quant, rms_norm, Proj,
};
use crate::tensors::Tn;

verus! {

/// The router of a layer.
pub open spec fn router_of(p: Phase, y: Layer, n: Tn) -> Router {
    Router {
        table: n.moe_tab,
        resid: n.x,
        proj: y.w.rproj,
        scale: y.w.rscale,
        pes: y.w.rpes,
        score: n.moe_rscore,
        hidden: p.hidden,
        n_exp: p.n_exp,
        top_k: p.top_k,
        root: p.root,
        eps: p.eps,
        nrow: p.t,
    }
}

/// The router of a mixture model's decode step, ahead of the shared product so that both run at
/// once.
#[verifier::opaque]
pub open spec fn early_router(
    s: Emitted,
    p: Phase,
    k: EmitConfig,
    y: Layer,
    n: Tn,
    c_pf: u32,
) -> (Emitted, u32) {
    if p.moe && p.decode {
        route(s, c_pf, router_of(p, y, n), split_plan(k, p.n_cu, p.n_exp, p.t))
    } else {
        (s, 0)
    }
}

/// Whether a layer's router can be laid out.
pub open spec fn router_ok(p: Phase, k: EmitConfig, n: Tn) -> bool {
    p.moe && p.decode ==> {
        &&& p.t * p.n_exp <= u32::MAX
        &&& !k.gemma_moe_router_fused ==> n.moe_rscore != TENSOR_NONE
    }
}

pub fn emit_early_router(
    s: &mut Emission,
    p: &Phase,
    k: &EmitConfig,
    y: &Layer,
    n: &Tn,
    c_pf: u32,
) -> (r: u32)
    requires
        old(s)@.room(2),
        router_ok(*p, *k, *n),
    ensures
        (final(s)@, r) == early_router(old(s)@, *p, *k, *y, *n, c_pf),
        final(s)@.within(old(s)@, 2),
{
    proof {
        reveal(early_router);
    }
    if p.moe && p.decode {
        let plan = gemma_moe_router_split_plan(k, p.n_cu, p.n_exp, p.t);
        emit_gemma_moe_router(
            s,
            c_pf,
            Router {
                table: n.moe_tab,
                resid: n.x,
                proj: y.w.rproj,
                scale: y.w.rscale,
                pes: y.w.rpes,
                score: n.moe_rscore,
                hidden: p.hidden,
                n_exp: p.n_exp,
                top_k: p.top_k,
                root: p.root,
                eps: p.eps,
                nrow: p.t,
            },
            plan,
        )
    } else {
        0
    }
}

/// Whether gating products finish the norm that the attention left.
pub open spec fn folds_norm(p: Phase) -> bool {
    !p.fuse_norm && p.gfuse && p.fuse_nrn
}

/// Gating and up row products of narrow weights as one instruction.
pub open spec fn gemv_glu_fp8_inst(p: Phase, k: EmitConfig, y: Layer, n: Tn, after: u32) -> InstView {
    let fold = folds_norm(p);
    inst(
        DevOp::GemvGluFp8,
        capped_range(k, first_cus(p.n_cu as int)),
        on1(after),
        Args {
            t0: n.fu,
            t1: if fold { n.x } else { n.hn },
            t2: y.w.wg8,
            t3: y.w.sg,
            t4: y.w.su,
            t5: y.w.wu8,
            i0: p.t,
            i1: p.inter,
            i2: p.hidden,
            i3: if fold { n.xr } else { 0 },
            i4: if fold { n.og } else { 0 },
            i5: p.mlp_act,
            i6: if fold { y.w.g_pa } else { 0 },
            i7: if fold { y.w.g_pf } else { 0 },
            f0: if fold { p.eps } else { 0 },
            f1: if fold { F32_ONE } else { 0 },
            j1: if fold { 1 } else { 0 },
            ..no_args()
        },
    )
}

/// Gating and up row products of four-bit weights as one instruction.
pub open spec fn gemv_glu_mx_inst(p: Phase, k: EmitConfig, y: Layer, n: Tn, after: u32) -> InstView {
    inst(
        DevOp::GemvGluMxfp4,
        capped_range(k, first_cus(p.n_cu as int)),
        on1(after),
        Args {
            t0: n.fu,
            t1: n.hn,
            t2: y.w.wg8,
            t3: y.w.sg,
            t4: y.w.su,
            t5: y.w.wu8,
            i0: p.t,
            i1: p.inter,
            i2: p.hidden,
            i5: p.mlp_act,
            ..no_args()
        },
    )
}

/// Gating and up row products of bf16 weights as one instruction.
pub open spec fn gemv_glu_inst(p: Phase, y: Layer, n: Tn, after: u32) -> InstView {
    inst(
        DevOp::GemvGlu,
        first_cus(p.n_cu as int),
        on1(after),
        Args {
            t0: n.fu,
            t1: n.hn,
            t2: y.w.wg,
            t5: y.w.wu,
            i0: p.t,
            i1: p.inter,
            i2: p.hidden,
            i5: p.mlp_act,
            ..no_args()
        },
    )
}

/// Gating and up tiled products of narrow weights as one instruction.
pub open spec fn gemm_glu_fp8(s: Emitted, p: Phase, y: Layer, n: Tn, after: u32) -> (Emitted, u32) {
    let (s1, ma, mg, mu) = glu_maps(
        s,
        p.tma && p.w8a8,
        n.xqh,
        y.w.wg8,
        y.w.wu8,
        p.t,
        p.inter,
        p.hidden,
        true,
    );
    (
        s1.then_inst(
            inst(
                DevOp::GemmGluFp8,
                first_cus(p.n_cu as int),
                on1(after),
                Args {
                    t0: n.fu,
                    t1: if p.w8a8 { n.xqh } else { n.hn },
                    t2: y.w.wg8,
                    t3: if p.w8a8 { n.ash } else { TENSOR_NONE },
                    t4: y.w.sg,
                    t5: y.w.wu8,
                    t6: y.w.su,
                    i0: p.t,
                    i1: p.inter,
                    i2: p.hidden,
                    i3: mu,
                    i5: p.mlp_act,
                    i6: ma,
                    i7: mg,
                    ..no_args()
                },
            ),
        ),
        s1.next(),
    )
}

/// Gating and up tiled products of bf16 weights as one instruction.
pub open spec fn gemm_glu_bf16(s: Emitted, p: Phase, y: Layer, n: Tn, after: u32) -> (Emitted, u32) {
    let (s1, ma, mg, mu) = glu_maps(
        s,
        p.tma,
        n.hn,
        y.w.wg,
        y.w.wu,
        p.t,
        p.inter,
        p.hidden,
        false,
    );
    (
        s1.then_inst(
            inst(
                DevOp::GemmGlu,
                first_cus(p.n_cu as int),
                on1(after),
                Args {
                    t0: n.fu,
                    t1: n.hn,
                    t2: y.w.wg,
                    t5: y.w.wu,
                    i0: p.t,
                    i1: p.inter,
                    i2: p.hidden,
                    i3: mu,
                    i5: p.mlp_act,
                    i6: ma,
                    i7: mg,
                    ..no_args()
                },
            ),
        ),
        s1.next(),
    )
}

/// A gating or an up projection on its own.
pub open spec fn gate_proj(p: Phase, n: Tn, out: u32, w: u32, w8: u32, scale: u32) -> Proj {
    Proj {
        out,
        a: n.hn,
        w,
        w8,
        scale,
        xq: n.xqh,
        ascale: n.ash,
        m: p.t,
        n: p.inter,
        k: p.hidden,
    }
}

/// Where the shares of gating and up projections meet.
pub open spec fn glu_cut(p: Phase) -> int {
    if p.gemv {
        cut2(p.n_cu as int, 1, 1)
    } else {
        let x = tile_count(p.t as int, p.inter as int);
        cut2(p.n_cu as int, x, x)
    }
}

/// Gating and up projections side by side, then gating itself; where norms quantize, gating
/// quantizes its result too.
pub open spec fn split_glu(
    s: Emitted,
    p: Phase,
    k: EmitConfig,
    tab: TileTable,
    y: Layer,
    n: Tn,
    after: u32,
) -> (Emitted, u32) {
    let x = glu_cut(p) as u32;
    let (s1, c_g) = project(
        s,
        p,
        k,
        tab,
        gate_proj(p, n, n.gt, y.w.wg, y.w.wg8, y.w.sg),
        CuRange { lo: 0, hi: x },
        after,
    );
    let (s2, c_u) = project(
        s1,
        p,
        k,
        tab,
        gate_proj(p, n, n.ut, y.w.wu, y.w.wu8, y.w.su),
        CuRange { lo: x, hi: p.n_cu },
        after,
    );
    let i = if p.qnorm_fuse {
        inst(
            DevOp::QuantFp8,
            first_cus(p.rows as int),
            on2(c_g, c_u),
            Args {
                t0: n.xqi,
                t1: n.fu,
                t2: n.asi,
                t3: n.gt,
                t4: n.ut,
                i0: p.t,
                i1: p.inter,
                i2: p.mlp_act,
                ..no_args()
            },
        )
    } else {
        inst(
            DevOp::Glu,
            elem_cus(p, p.ti),
            on2(c_g, c_u),
            Args { t0: n.fu, t1: n.gt, t2: n.ut, i0: p.ti, i1: p.mlp_act, ..no_args() },
        )
    };
    (s2.then_inst(i), s2.next())
}

/// The gated product of a layer: fused row products where the rows fit the arena, a fused tiled
/// product where that tile wins, else two projections and gating.
#[verifier::opaque]
pub open spec fn glu(
    s: Emitted,
    p: Phase,
    k: EmitConfig,
    tab: TileTable,
    y: Layer,
    n: Tn,
    c_pf: u32,
) -> (Emitted, u32) {
    let (s1, d) = if copies_half(p) {
        (s, c_pf)
    } else {
        quant(s, p, n.xqh, n.ash, n.hn, p.hidden, c_pf)
    };
    if p.stages {
        if p.mx {
            (s1.then_inst(gemv_glu_mx_inst(p, k, y, n, c_pf)), s1.next())
        } else if p.fp8 {
            (s1.then_inst(gemv_glu_fp8_inst(p, k, y, n, c_pf)), s1.next())
        } else {
            (s1.then_inst(gemv_glu_inst(p, y, n, c_pf)), s1.next())
        }
    } else if p.gemm_glu && p.fp8 {
        gemm_glu_fp8(s1, p, y, n, d)
    } else if p.gemm_glu {
        gemm_glu_bf16(s1, p, y, n, c_pf)
    } else {
        split_glu(s1, p, k, tab, y, n, d)
    }
}

/// Whether a layer's gated product can be laid out.
pub open spec fn glu_ok(p: Phase, tab: TileTable) -> bool {
    p.stages || p.gemm_glu || {
        &&& proj_ok(p, tab, p.t, p.inter, p.hidden)
        &&& p.n_cu >= 1
        &&& !p.gemv ==> 2 * tile_count(p.t as int, p.inter as int) <= u32::MAX
    }
}

fn emit_split_glu(
    s: &mut Emission,
    p: &Phase,
    k: &EmitConfig,
    tab: &TileTable,
    y: &Layer,
    n: &Tn,
    after: u32,
) -> (r: u32)
    requires
        old(s)@.room(5),
        p.n_cu >= 1,
        !p.gemv ==> 2 * tile_count(p.t as int, p.inter as int) <= u32::MAX,
        proj_ok(*p, *tab, p.t, p.inter, p.hidden),
    ensures
        (final(s)@, r) == split_glu(old(s)@, *p, *k, *tab, *y, *n, after),
        final(s)@.within(old(s)@, 5),
{
    let (cg, cu) = if p.gemv {
        split2(p.n_cu, 1, 1)
    } else {
        let x: u32 = tiles(p.t, p.inter);
        split2(p.n_cu, x, x)
    };
    let c_g: u32 = emit_proj(
        s,
        p,
        k,
        tab,
        Proj {
            out: n.gt,
            a: n.hn,
            w: y.w.wg,
            w8: y.w.wg8,
            scale: y.w.sg,
            xq: n.xqh,
            ascale: n.ash,
            m: p.t,
            n: p.inter,
            k: p.hidden,
        },
        cg,
        after,
    );
    let c_u: u32 = emit_proj(
        s,
        p,
        k,
        tab,
        Proj {
            out: n.ut,
            a: n.hn,
            w: y.w.wu,
            w8: y.w.wu8,
            scale: y.w.su,
            xq: n.xqh,
            ascale: n.ash,
            m: p.t,
            n: p.inter,
            k: p.hidden,
        },
        cu,
        after,
    );
    if p.qnorm_fuse {
        s.emit(
            DevOp::QuantFp8,
            cus(p.rows),
            after2(c_g, c_u),
            Args {
                t0: n.xqi,
                t1: n.fu,
                t2: n.asi,
                t3: n.gt,
                t4: n.ut,
                i0: p.t,
                i1: p.inter,
                i2: p.mlp_act,
                ..blank()
            },
        )
    } else {
        s.emit(
            DevOp::Glu,
            elem(p, p.ti),
            after2(c_g, c_u),
            Args { t0: n.fu, t1: n.gt, t2: n.ut, i0: p.ti, i1: p.mlp_act, ..blank() },
        )
    }
}

pub fn emit_glu(
    s: &mut Emission,
    p: &Phase,
    k: &EmitConfig,
    tab: &TileTable,
    y: &Layer,
    n: &Tn,
    c_pf: u32,
) -> (r: u32)
    requires
        old(s)@.room(6),
        glu_ok(*p, *tab),
    ensures
        (final(s)@, r) == glu(old(s)@, *p, *k, *tab, *y, *n, c_pf),
        final(s)@.within(old(s)@, 6),
{
    proof {
        reveal(glu);
    }
    let d: u32 = if p.qnorm_fuse && !p.fuse_norm && !p.gfuse {
        c_pf
    } else {
        emit_quant(s, p, n.xqh, n.ash, n.hn, p.hidden, c_pf)
    };
    if p.stages {
        if p.mx {
            s.emit(
                DevOp::GemvGluMxfp4,
                gemv_wg_cap(k, cus(p.n_cu)),
                after1(c_pf),
                Args {
                    t0: n.fu,
                    t1: n.hn,
                    t2: y.w.wg8,
                    t3: y.w.sg,
                    t4: y.w.su,
                    t5: y.w.wu8,
                    i0: p.t,
                    i1: p.inter,
                    i2: p.hidden,
                    i5: p.mlp_act,
                    ..blank()
                },
            )
        } else if p.fp8 {
            let fold: bool = !p.fuse_norm && p.gfuse && p.fuse_nrn;
            s.emit(
                DevOp::GemvGluFp8,
                gemv_wg_cap(k, cus(p.n_cu)),
                after1(c_pf),
                Args {
                    t0: n.fu,
                    t1: if fold { n.x } else { n.hn },
                    t2: y.w.wg8,
                    t3: y.w.sg,
                    t4: y.w.su,
                    t5: y.w.wu8,
                    i0: p.t,
                    i1: p.inter,
                    i2: p.hidden,
                    i3: if fold { n.xr } else { 0 },
                    i4: if fold { n.og } else { 0 },
                    i5: p.mlp_act,
                    i6: if fold { y.w.g_pa } else { 0 },
                    i7: if fold { y.w.g_pf } else { 0 },
                    f0: if fold { p.eps } else { 0 },
                    f1: if fold { F32_ONE } else { 0 },
                    j1: if fold { 1 } else { 0 },
                    ..blank()
                },
            )
        } else {
            s.emit(
                DevOp::GemvGlu,
                cus(p.n_cu),
                after1(c_pf),
                Args {
                    t0: n.fu,
                    t1: n.hn,
                    t2: y.w.wg,
                    t5: y.w.wu,
                    i0: p.t,
                    i1: p.inter,
                    i2: p.hidden,
                    i5: p.mlp_act,
                    ..blank()
                },
            )
        }
    } else if p.gemm_glu && p.fp8 {
        let (ma, mg, mu) = mint_glu_maps(
            s,
            p.tma && p.w8a8,
            n.xqh,
            y.w.wg8,
            y.w.wu8,
            p.t,
            p.inter,
            p.hidden,
            true,
        );
        s.emit(
            DevOp::GemmGluFp8,
            cus(p.n_cu),
            after1(d),
            Args {
                t0: n.fu,
                t1: if p.w8a8 { n.xqh } else { n.hn },
                t2: y.w.wg8,
                t3: if p.w8a8 { n.ash } else { TENSOR_NONE },
                t4: y.w.sg,
                t5: y.w.wu8,
                t6: y.w.su,
                i0: p.t,
                i1: p.inter,
                i2: p.hidden,
                i3: mu,
                i5: p.mlp_act,
                i6: ma,
                i7: mg,
                ..blank()
            },
        )
    } else if p.gemm_glu {
        let (ma, mg, mu) = mint_glu_maps(
            s,
            p.tma,
            n.hn,
            y.w.wg,
            y.w.wu,
            p.t,
            p.inter,
            p.hidden,
            false,
        );
        s.emit(
            DevOp::GemmGlu,
            cus(p.n_cu),
            after1(c_pf),
            Args {
                t0: n.fu,
                t1: n.hn,
                t2: y.w.wg,
                t5: y.w.wu,
                i0: p.t,
                i1: p.inter,
                i2: p.hidden,
                i3: mu,
                i5: p.mlp_act,
                i6: ma,
                i7: mg,
                ..blank()
            },
        )
    } else {
        emit_split_glu(s, p, k, tab, y, n, d)
    }
}

/// The operands of a layer's down projection.
pub open spec fn down_proj_of(p: Phase, y: Layer, n: Tn) -> Proj {
    Proj {
        out: n.dg,
        a: n.fu,
        w: y.w.wd,
        w8: y.w.wd8,
        scale: y.w.sd,
        xq: n.xqi,
        ascale: n.asi,
        m: p.t,
        n: p.hidden,
        k: p.inter,
    }
}

/// The down projection of a layer.
#[verifier::opaque]
pub open spec fn down_proj(
    s: Emitted,
    p: Phase,
    k: EmitConfig,
    tab: TileTable,
    y: Layer,
    n: Tn,
    c_gl: u32,
) -> (Emitted, u32) {
    let (s1, d) = if p.qnorm_fuse && !p.stages && !p.gemm_glu {
        (s, c_gl)
    } else {
        quant(s, p, n.xqi, n.asi, n.fu, p.inter, c_gl)
    };
    project_out(s1, p, k, tab, down_proj_of(p, y, n), n.dg_tp, p.slot_b, d)
}

pub fn emit_down_proj(
    s: &mut Emission,
    p: &Phase,
    k: &EmitConfig,
    tab: &TileTable,
    y: &Layer,
    n: &Tn,
    c_gl: u32,
) -> (r: u32)
    requires
        old(s)@.room(5),
        proj_ok(*p, *tab, p.t, p.hidden, p.inter),
    ensures
        (final(s)@, r) == down_proj(old(s)@, *p, *k, *tab, *y, *n, c_gl),
        final(s)@.within(old(s)@, 5),
{
    proof {
        reveal(down_proj);
    }
    let d: u32 = if p.qnorm_fuse && !p.stages && !p.gemm_glu {
        c_gl
    } else {
        emit_quant(s, p, n.xqi, n.asi, n.fu, p.inter, c_gl)
    };
    emit_project_out(
        s,
        p,
        k,
        tab,
        Proj {
            out: n.dg,
            a: n.fu,
            w: y.w.wd,
            w8: y.w.wd8,
            scale: y.w.sd,
            xq: n.xqi,
            ascale: n.asi,
            m: p.t,
            n: p.hidden,
            k: p.inter,
        },
        n.dg_tp,
        p.slot_b,
        d,
    )
}

/// What a layer adds to the residual, the instruction that wrote it, and whether that instruction
/// has done the rest of the layer too.
#[derive(Clone, Copy, PartialEq, Eq, Debug, Structural)]
pub struct Ffn {
    pub out: u32,
    pub c: u32,
    pub done: bool,
}

/// A plain row norm.
pub open spec fn plain_norm(p: Phase, out: u32, x: u32, gamma: u32, after: u32) -> InstView {
    rms_norm(p, out, x, gamma, TENSOR_NONE, TENSOR_NONE, on1(after))
}

/// The gated products of the chosen experts in a decode step.
pub open spec fn expert_glu(
    s: Emitted,
    p: Phase,
    y: Layer,
    n: Tn,
    c_pf: u32,
    c_rt: u32,
) -> (Emitted, u32) {
    let all = first_cus(p.n_cu as int);
    if p.fp8 {
        let s1 = s.then_inst(plain_norm(p, n.moe_xn2, n.x, y.w.g_pre2, c_pf));
        (
            s1.then_inst(
                inst(
                    DevOp::MoeExpertGluGemmaFp8,
                    all,
                    on2(c_rt, s.next()),
                    Args {
                        t0: n.moe_mfu,
                        t1: n.moe_xn2,
                        t2: n.moe_tab,
                        t3: y.w.ewt,
                        t4: y.w.est,
                        i0: p.top_k,
                        i1: p.moe_inter,
                        i2: p.hidden,
                        i3: p.n_exp,
                        i5: p.nb,
                        ..no_args()
                    },
                ),
            ),
            s1.next(),
        )
    } else {
        (
            s.then_inst(
                inst(
                    DevOp::MoeExpertGluNormGemma,
                    all,
                    on2(c_rt, c_pf),
                    Args {
                        t0: n.moe_mfu,
                        t1: n.x,
                        t2: n.moe_tab,
                        t3: y.w.ewt,
                        t4: y.w.g_pre2,
                        i0: p.top_k,
                        i1: p.moe_inter,
                        i2: p.hidden,
                        i3: p.n_exp,
                        i5: p.nb,
                        f0: p.eps,
                        ..no_args()
                    },
                ),
            ),
            s.next(),
        )
    }
}

/// The down products of the chosen experts in a decode step.
pub open spec fn expert_down_inst(p: Phase, y: Layer, n: Tn, after: u32) -> InstView {
    inst(
        if p.fp8 { DevOp::MoeExpertDownGemmaFp8 } else { DevOp::MoeExpertDownGemma },
        first_cus(p.n_cu as int),
        on1(after),
        Args {
            t0: n.moe_part,
            t1: n.moe_mfu,
            t2: n.moe_tab,
            t3: y.w.ewt,
            t4: y.w.est,
            i0: p.top_k,
            i1: p.hidden,
            i2: p.moe_inter,
            i3: p.n_exp,
            i5: p.nb,
            ..no_args()
        },
    )
}

/// The sum of the experts in a decode step, which can also finish the layer.
pub open spec fn expert_combine_inst(
    p: Phase,
    k: EmitConfig,
    y: Layer,
    n: Tn,
    c_dn: u32,
    c_h1: u32,
) -> InstView {
    if p.gfuse && k.gemma_moe_tail_fuse {
        inst(
            DevOp::MoeCombineResidNormGemma,
            first_cus(1),
            on2(c_dn, c_h1),
            Args {
                t0: n.hn,
                t1: n.x,
                t2: n.moe_part,
                t3: n.moe_h1,
                t4: y.w.g_pf2,
                t5: y.w.g_po,
                t6: y.next_gin,
                i0: p.hidden,
                i1: p.top_k,
                f0: p.eps,
                f1: y.scalar,
                ..no_args()
            },
        )
    } else {
        inst(
            DevOp::MoeCombineNormGemma,
            first_cus(p.t as int),
            on2(c_dn, c_h1),
            Args {
                t0: n.moe_comb,
                t1: n.moe_part,
                t2: n.moe_h1,
                t3: y.w.g_pf2,
                i0: p.hidden,
                i1: p.top_k,
                i2: p.nb,
                f0: p.eps,
                ..no_args()
            },
        )
    }
}

/// The experts of a decode step.
pub open spec fn decode_experts(
    s: Emitted,
    p: Phase,
    k: EmitConfig,
    y: Layer,
    n: Tn,
    c_pf: u32,
    c_rt: u32,
    c_d: u32,
) -> (Emitted, Ffn) {
    let s1 = s.then_inst(plain_norm(p, n.moe_h1, n.dg, y.w.g_pf1, c_d));
    let c_h1 = s.next();
    let (s2, c_glu) = expert_glu(s1, p, y, n, c_pf, c_rt);
    let s3 = s2.then_inst(expert_down_inst(p, y, n, c_glu));
    let c_dn = s2.next();
    let s4 = s3.then_inst(expert_combine_inst(p, k, y, n, c_dn, c_h1));
    (s4, Ffn { out: n.moe_comb, c: s3.next(), done: p.gfuse && k.gemma_moe_tail_fuse })
}

fn emit_decode_experts(
    s: &mut Emission,
    p: &Phase,
    k: &EmitConfig,
    y: &Layer,
    n: &Tn,
    c_pf: u32,
    c_rt: u32,
    c_d: u32,
) -> (r: Ffn)
    requires
        old(s)@.room(5),
    ensures
        (final(s)@, r) == decode_experts(old(s)@, *p, *k, *y, *n, c_pf, c_rt, c_d),
        final(s)@.within(old(s)@, 5),
{
    let c_h1: u32 = emit_rms_norm(
        s,
        p,
        n.moe_h1,
        n.dg,
        y.w.g_pf1,
        TENSOR_NONE,
        TENSOR_NONE,
        after1(c_d),
    );
    let c_glu: u32 = if p.fp8 {
        let c_xn2: u32 = emit_rms_norm(
            s,
            p,
            n.moe_xn2,
            n.x,
            y.w.g_pre2,
            TENSOR_NONE,
            TENSOR_NONE,
            after1(c_pf),
        );
        s.emit(
            DevOp::MoeExpertGluGemmaFp8,
            cus(p.n_cu),
            after2(c_rt, c_xn2),
            Args {
                t0: n.moe_mfu,
                t1: n.moe_xn2,
                t2: n.moe_tab,
                t3: y.w.ewt,
                t4: y.w.est,
                i0: p.top_k,
                i1: p.moe_inter,
                i2: p.hidden,
                i3: p.n_exp,
                i5: p.nb,
                ..blank()
            },
        )
    } else {
        s.emit(
            DevOp::MoeExpertGluNormGemma,
            cus(p.n_cu),
            after2(c_rt, c_pf),
            Args {
                t0: n.moe_mfu,
                t1: n.x,
                t2: n.moe_tab,
                t3: y.w.ewt,
                t4: y.w.g_pre2,
                i0: p.top_k,
                i1: p.moe_inter,
                i2: p.hidden,
                i3: p.n_exp,
                i5: p.nb,
                f0: p.eps,
                ..blank()
            },
        )
    };
    let c_dn: u32 = s.emit(
        if p.fp8 { DevOp::MoeExpertDownGemmaFp8 } else { DevOp::MoeExpertDownGemma },
        cus(p.n_cu),
        after1(c_glu),
        Args {
            t0: n.moe_part,
            t1: n.moe_mfu,
            t2: n.moe_tab,
            t3: y.w.ewt,
            t4: y.w.est,
            i0: p.top_k,
            i1: p.hidden,
            i2: p.moe_inter,
            i3: p.n_exp,
            i5: p.nb,
            ..blank()
        },
    );
    let done: bool = p.gfuse && k.gemma_moe_tail_fuse;
    let c: u32 = if done {
        s.emit(
            DevOp::MoeCombineResidNormGemma,
            cus(1),
            after2(c_dn, c_h1),
            Args {
                t0: n.hn,
                t1: n.x,
                t2: n.moe_part,
                t3: n.moe_h1,
                t4: y.w.g_pf2,
                t5: y.w.g_po,
                t6: y.next_gin,
                i0: p.hidden,
                i1: p.top_k,
                f0: p.eps,
                f1: y.scalar,
                ..blank()
            },
        )
    } else {
        s.emit(
            DevOp::MoeCombineNormGemma,
            cus(p.t),
            after2(c_dn, c_h1),
            Args {
                t0: n.moe_comb,
                t1: n.moe_part,
                t2: n.moe_h1,
                t3: y.w.g_pf2,
                i0: p.hidden,
                i1: p.top_k,
                i2: p.nb,
                f0: p.eps,
                ..blank()
            },
        )
    };
    Ffn { out: n.moe_comb, c, done }
}

/// The router and the row alignment of a prefill.
pub open spec fn prefill_router(s: Emitted, p: Phase, y: Layer, n: Tn, c_pf: u32) -> (Emitted, u32) {
    let s1 = s.then_inst(
        inst(
            DevOp::MoeRouterGemmaPf,
            first_cus(p.n_cu as int),
            on1(c_pf),
            Args {
                t0: n.moe_tab,
                t1: n.x,
                t2: y.w.rproj,
                t3: y.w.rscale,
                t4: y.w.rpes,
                i0: p.hidden,
                i1: p.n_exp,
                i2: p.top_k,
                i3: p.t,
                f0: p.root,
                f1: p.eps,
                ..no_args()
            },
        ),
    );
    (
        s1.then_inst(
            inst(
                DevOp::MoeAlignGemmaPf,
                first_cus(1),
                on1(s.next()),
                Args {
                    t0: n.moe_meta,
                    t1: n.moe_tab,
                    t2: n.moe_rowtok,
                    t3: n.moe_rowpart,
                    t4: n.moe_rowgate,
                    i0: p.t,
                    i1: p.n_exp,
                    i2: p.top_k,
                    ..no_args()
                },
            ),
        ),
        s1.next(),
    )
}

/// Rows of a prefill's expert products, each expert's padded to a tile.
pub open spec fn padded_rows(p: Phase) -> int {
    p.t * p.top_k + p.n_exp * 128
}

/// The grouped expert products of a prefill with narrow activations.
pub open spec fn prefill_products_narrow(
    s: Emitted,
    p: Phase,
    y: Layer,
    n: Tn,
    c_align: u32,
    c_xn2: u32,
) -> (Emitted, u32) {
    let all = first_cus(p.n_cu as int);
    let (s1, c_q) = quant(s, p, n.xqh, n.ash, n.moe_xn2, p.hidden, c_xn2);
    let s2 = s1.then_inst(
        inst(
            DevOp::MoeGroupGluGemmaPfW8a8,
            all,
            on2(c_align, c_q),
            Args {
                t0: n.moe_fug,
                t1: n.xqh,
                t2: y.w.ewt,
                t3: n.moe_meta,
                t4: n.moe_rowtok,
                t5: n.ash,
                t6: y.w.est,
                i0: p.moe_inter,
                i1: p.hidden,
                i2: p.n_exp,
                i5: p.mlp_act,
                ..no_args()
            },
        ),
    );
    let s3 = s2.then_inst(
        inst(
            DevOp::QuantFp8,
            all,
            on1(s1.next()),
            Args {
                t0: n.moe_fuq,
                t1: n.moe_fug,
                t2: n.moe_fus,
                i0: padded_rows(p) as u32,
                i1: p.moe_inter,
                ..no_args()
            },
        ),
    );
    (
        s3.then_inst(
            inst(
                DevOp::MoeGroupDownGemmaPfW8a8,
                all,
                on2(s2.next(), c_align),
                Args {
                    t0: n.moe_part,
                    t1: n.moe_fuq,
                    t2: y.w.ewt,
                    t3: n.moe_meta,
                    t4: n.moe_rowpart,
                    t5: n.moe_rowgate,
                    t6: y.w.est,
                    t7: n.moe_fus,
                    i0: p.hidden,
                    i1: p.moe_inter,
                    i2: p.n_exp,
                    ..no_args()
                },
            ),
        ),
        s3.next(),
    )
}

/// The grouped expert products of a prefill with bf16 activations.
pub open spec fn prefill_products(
    s: Emitted,
    p: Phase,
    y: Layer,
    n: Tn,
    c_align: u32,
    c_xn2: u32,
) -> (Emitted, u32) {
    let all = first_cus(p.n_cu as int);
    let s1 = s.then_inst(
        inst(
            DevOp::MoeGroupGluGemmaPf,
            all,
            on2(c_align, c_xn2),
            Args {
                t0: n.moe_fug,
                t1: n.moe_xn2,
                t2: y.w.ewt,
                t3: n.moe_meta,
                t4: n.moe_rowtok,
                i0: p.moe_inter,
                i1: p.hidden,
                i2: p.n_exp,
                i5: p.mlp_act,
                ..no_args()
            },
        ),
    );
    (
        s1.then_inst(
            inst(
                DevOp::MoeGroupDownGemmaPf,
                all,
                on2(s.next(), c_align),
                Args {
                    t0: n.moe_part,
                    t1: n.moe_fug,
                    t2: y.w.ewt,
                    t3: n.moe_meta,
                    t4: n.moe_rowpart,
                    t5: n.moe_rowgate,
                    i0: p.hidden,
                    i1: p.moe_inter,
                    i2: p.n_exp,
                    ..no_args()
                },
            ),
        ),
        s1.next(),
    )
}

/// The experts of a prefill.
pub open spec fn prefill_experts(
    s: Emitted,
    p: Phase,
    y: Layer,
    n: Tn,
    c_pf: u32,
    c_d: u32,
) -> (Emitted, Ffn) {
    let s1 = s.then_inst(plain_norm(p, n.moe_h1, n.dg, y.w.g_pf1, c_d));
    let c_h1 = s.next();
    let s2 = s1.then_inst(plain_norm(p, n.moe_xn2, n.x, y.w.g_pre2, c_pf));
    let c_xn2 = s1.next();
    let (s3, c_align) = prefill_router(s2, p, y, n, c_pf);
    let (s4, c_dn) = if p.w8a8 {
        prefill_products_narrow(s3, p, y, n, c_align, c_xn2)
    } else {
        prefill_products(s3, p, y, n, c_align, c_xn2)
    };
    let s5 = s4.then_inst(
        inst(
            DevOp::MoeCombineNormGemmaPf,
            first_cus(p.n_cu as int),
            on2(c_dn, c_h1),
            Args {
                t0: n.moe_comb,
                t1: n.moe_part,
                t2: n.moe_h1,
                t3: y.w.g_pf2,
                i0: p.hidden,
                i1: p.top_k,
                i2: p.t,
                f0: p.eps,
                ..no_args()
            },
        ),
    );
    (s5, Ffn { out: n.moe_comb, c: s4.next(), done: false })
}

fn emit_prefill_experts(s: &mut Emission, p: &Phase, y: &Layer, n: &Tn, c_pf: u32, c_d: u32) -> (r:
    Ffn)
    requires
        old(s)@.room(9),
        p.w8a8 ==> padded_rows(*p) <= u32::MAX,
    ensures
        (final(s)@, r) == prefill_experts(old(s)@, *p, *y, *n, c_pf, c_d),
        final(s)@.within(old(s)@, 9),
{
    let c_h1: u32 = emit_rms_norm(
        s,
        p,
        n.moe_h1,
        n.dg,
        y.w.g_pf1,
        TENSOR_NONE,
        TENSOR_NONE,
        after1(c_d),
    );
    let c_xn2: u32 = emit_rms_norm(
        s,
        p,
        n.moe_xn2,
        n.x,
        y.w.g_pre2,
        TENSOR_NONE,
        TENSOR_NONE,
        after1(c_pf),
    );
    let c_rt: u32 = s.emit(
        DevOp::MoeRouterGemmaPf,
        cus(p.n_cu),
        after1(c_pf),
        Args {
            t0: n.moe_tab,
            t1: n.x,
            t2: y.w.rproj,
            t3: y.w.rscale,
            t4: y.w.rpes,
            i0: p.hidden,
            i1: p.n_exp,
            i2: p.top_k,
            i3: p.t,
            f0: p.root,
            f1: p.eps,
            ..blank()
        },
    );
    let c_align: u32 = s.emit(
        DevOp::MoeAlignGemmaPf,
        cus(1),
        after1(c_rt),
        Args {
            t0: n.moe_meta,
            t1: n.moe_tab,
            t2: n.moe_rowtok,
            t3: n.moe_rowpart,
            t4: n.moe_rowgate,
            i0: p.t,
            i1: p.n_exp,
            i2: p.top_k,
            ..blank()
        },
    );
    let c_dn: u32 = if p.w8a8 {
        proof {
            assert(p.t * p.top_k >= 0) by (nonlinear_arith);
        }
        let padded: u32 = p.t * p.top_k + p.n_exp * 128;
        let c_q: u32 = emit_quant(s, p, n.xqh, n.ash, n.moe_xn2, p.hidden, c_xn2);
        let c_glu: u32 = s.emit(
            DevOp::MoeGroupGluGemmaPfW8a8,
            cus(p.n_cu),
            after2(c_align, c_q),
            Args {
                t0: n.moe_fug,
                t1: n.xqh,
                t2: y.w.ewt,
                t3: n.moe_meta,
                t4: n.moe_rowtok,
                t5: n.ash,
                t6: y.w.est,
                i0: p.moe_inter,
                i1: p.hidden,
                i2: p.n_exp,
                i5: p.mlp_act,
                ..blank()
            },
        );
        let c_fuq: u32 = s.emit(
            DevOp::QuantFp8,
            cus(p.n_cu),
            after1(c_glu),
            Args {
                t0: n.moe_fuq,
                t1: n.moe_fug,
                t2: n.moe_fus,
                i0: padded,
                i1: p.moe_inter,
                ..blank()
            },
        );
        s.emit(
            DevOp::MoeGroupDownGemmaPfW8a8,
            cus(p.n_cu),
            after2(c_fuq, c_align),
            Args {
                t0: n.moe_part,
                t1: n.moe_fuq,
                t2: y.w.ewt,
                t3: n.moe_meta,
                t4: n.moe_rowpart,
                t5: n.moe_rowgate,
                t6: y.w.est,
                t7: n.moe_fus,
                i0: p.hidden,
                i1: p.moe_inter,
                i2: p.n_exp,
                ..blank()
            },
        )
    } else {
        let c_glu: u32 = s.emit(
            DevOp::MoeGroupGluGemmaPf,
            cus(p.n_cu),
            after2(c_align, c_xn2),
            Args {
                t0: n.moe_fug,
                t1: n.moe_xn2,
                t2: y.w.ewt,
                t3: n.moe_meta,
                t4: n.moe_rowtok,
                i0: p.moe_inter,
                i1: p.hidden,
                i2: p.n_exp,
                i5: p.mlp_act,
                ..blank()
            },
        );
        s.emit(
            DevOp::MoeGroupDownGemmaPf,
            cus(p.n_cu),
            after2(c_glu, c_align),
            Args {
                t0: n.moe_part,
                t1: n.moe_fug,
                t2: y.w.ewt,
                t3: n.moe_meta,
                t4: n.moe_rowpart,
                t5: n.moe_rowgate,
                i0: p.hidden,
                i1: p.moe_inter,
                i2: p.n_exp,
                ..blank()
            },
        )
    };
    let c: u32 = s.emit(
        DevOp::MoeCombineNormGemmaPf,
        cus(p.n_cu),
        after2(c_dn, c_h1),
        Args {
            t0: n.moe_comb,
            t1: n.moe_part,
            t2: n.moe_h1,
            t3: y.w.g_pf2,
            i0: p.hidden,
            i1: p.top_k,
            i2: p.t,
            f0: p.eps,
            ..blank()
        },
    );
    Ffn { out: n.moe_comb, c, done: false }
}

/// The experts of a layer, beside its shared product; a model without experts adds that product.
#[verifier::opaque]
pub open spec fn experts(
    s: Emitted,
    p: Phase,
    k: EmitConfig,
    y: Layer,
    n: Tn,
    c_pf: u32,
    c_rt: u32,
    c_d: u32,
) -> (Emitted, Ffn) {
    if !p.moe {
        (s, Ffn { out: n.dg, c: c_d, done: false })
    } else if p.decode {
        decode_experts(s, p, k, y, n, c_pf, c_rt, c_d)
    } else {
        prefill_experts(s, p, y, n, c_pf, c_d)
    }
}

/// Whether a layer's experts can be laid out: a decode step takes at most thirty-two rows, and one
/// row where its sum finishes the layer.
pub open spec fn experts_ok(p: Phase, k: EmitConfig) -> bool {
    p.moe ==> {
        &&& p.decode ==> p.t <= 32 && !(k.gemma_moe_tail_fuse && p.t > 1)
        &&& !p.decode && p.w8a8 ==> padded_rows(p) <= u32::MAX
    }
}

pub fn emit_experts(
    s: &mut Emission,
    p: &Phase,
    k: &EmitConfig,
    y: &Layer,
    n: &Tn,
    c_pf: u32,
    c_rt: u32,
    c_d: u32,
) -> (r: Ffn)
    requires
        old(s)@.room(9),
        experts_ok(*p, *k),
    ensures
        (final(s)@, r) == experts(old(s)@, *p, *k, *y, *n, c_pf, c_rt, c_d),
        final(s)@.within(old(s)@, 9),
{
    proof {
        reveal(experts);
    }
    if !p.moe {
        return Ffn { out: n.dg, c: c_d, done: false };
    }
    if p.decode {
        emit_decode_experts(s, p, k, y, n, c_pf, c_rt, c_d)
    } else {
        emit_prefill_experts(s, p, y, n, c_pf, c_d)
    }
}

/// The end of a layer: the sum with the residual, and where steps fuse the norm of what comes
/// next, which may be left to the next layer's projections.
#[verifier::opaque]
pub open spec fn layer_end(
    s: Emitted,
    p: Phase,
    y: Layer,
    n: Tn,
    f: Ffn,
    pend: Option<Pending>,
) -> (Emitted, u32, Option<Pending>) {
    if f.done {
        (s, f.c, pend)
    } else if p.fuse_norm {
        (s.then_inst(add_norm_inst(p, n, f.out, y.next_gin, f.c)), s.next(), pend)
    } else if p.gfuse {
        if p.fuse_nrn && !y.last {
            (
                s,
                f.c,
                Some(
                    Pending { out: f.out, g_post: y.w.g_po, g_next: y.next_gin, scalar: y.scalar },
                ),
            )
        } else {
            (
                s.then_inst(
                    norm_residual_norm_inst(
                        p,
                        n,
                        if p.fuse_nrn { n.xr } else { n.x },
                        f.out,
                        y.w.g_po,
                        y.next_gin,
                        y.scalar,
                        f.c,
                    ),
                ),
                s.next(),
                pend,
            )
        }
    } else {
        (s.then_inst(residual_step(p, n, f.out, y.w.g_po, y.scalar, f.c)), s.next(), pend)
    }
}

pub fn emit_layer_end(
    s: &mut Emission,
    p: &Phase,
    y: &Layer,
    n: &Tn,
    f: Ffn,
    pend: Option<Pending>,
) -> (r: (u32, Option<Pending>))
    requires
        old(s)@.room(1),
    ensures
        (final(s)@, r.0, r.1) == layer_end(old(s)@, *p, *y, *n, f, pend),
        final(s)@.within(old(s)@, 1),
{
    proof {
        reveal(layer_end);
    }
    if f.done {
        (f.c, pend)
    } else if p.fuse_norm {
        let c: u32 = emit_add_norm(s, p, n, f.out, y.next_gin, f.c);
        (c, pend)
    } else if p.gfuse {
        if p.fuse_nrn && !y.last {
            (
                f.c,
                Some(
                    Pending { out: f.out, g_post: y.w.g_po, g_next: y.next_gin, scalar: y.scalar },
                ),
            )
        } else {
            let c: u32 = emit_norm_residual_norm(
                s,
                p,
                n,
                if p.fuse_nrn { n.xr } else { n.x },
                f.out,
                y.w.g_po,
                y.next_gin,
                y.scalar,
                f.c,
            );
            (c, pend)
        }
    } else {
        let c: u32 = emit_residual_step(s, p, n, f.out, y.w.g_po, y.scalar, f.c);
        (c, pend)
    }
}

} // verus!
