//! The attention half of a layer.
use vstd::prelude::*;

use crate::arith::{larger, max_u32, min_u32, smaller};
use crate::builder::{Emission, Emitted, TmapDecl, TmapKind};
use crate::emit_config::EmitConfig;
use crate::flash::{
    flash_map, flash_merge_map, flash_wait_map, group_map, group_wait_map, head_map, head_wait_map,
    merge_map, merge_pieces,
};
use crate::gemm::TileTable;
use crate::isa::{
    after1, after3, after_fine, after_fine3, after_none, blank, cus, deps_view, first_cus, inst,
    no_args, on1, on3, on_fine, on_fine3, on_none, Args, CuRange, Dep, DepView, DevOp, InstView,
    F32_ONE, TENSOR_NONE,
};
use crate::phase::{Layer, Phase};
use crate::shape::{capped, cut3, gemv_wg_n, split3, tile_count, tiles, FLASH_Q_TILE_ROWS, WAVES};
use crate::steps::{
    elem, elem_cus, emit_proj, emit_quant, emit_rms_norm, proj_ok, project, quant, rms_norm, Proj,
};
use crate::tensors::Tn;
use crate::xreduce::{emit_xreduce, reduce, Reduction};

verus! {

/// A norm that a layer leaves to the next layer's projections: the tensor to add to the residual,
/// its norm, the next input's norm, and the residual scale.
#[derive(Clone, Copy, PartialEq, Eq, Debug, Structural)]
pub struct Pending {
    pub out: u32,
    pub g_post: u32,
    pub g_next: u32,
    pub scalar: u32,
}

/// Whether a layer's input has a norm of its own: the layer before it has not written it already.
pub open spec fn norms_input(p: Phase, y: Layer) -> bool {
    (!p.fuse_norm && !p.gfuse) || y.first
}

/// Whether the norm of a layer's input writes the narrow copy that its projections read.
pub open spec fn copies_input(p: Phase, y: Layer) -> bool {
    p.qnorm_fuse && norms_input(p, y)
}

/// Whether the norm of a layer's second half writes the narrow copy that its gate products read: it
/// is not the norm that adds the residual as it goes.
pub open spec fn copies_half(p: Phase) -> bool {
    p.qnorm_fuse && !p.fuse_norm && !p.gfuse
}

/// The norm of a layer's input. A layer before it may have written it already.
#[verifier::opaque]
pub open spec fn input_norm(s: Emitted, p: Phase, y: Layer, n: Tn, dep: u32) -> (Emitted, u32) {
    if !norms_input(p, y) {
        (s, dep)
    } else {
        (
            s.then_inst(
                rms_norm(
                    p,
                    n.hn,
                    n.x,
                    y.w.g_in,
                    if p.qnorm_fuse { n.xqh } else { TENSOR_NONE },
                    if p.qnorm_fuse { n.ash } else { TENSOR_NONE },
                    if p.block_mode && y.first { on_none() } else { on1(dep) },
                ),
            ),
            s.next(),
        )
    }
}

pub fn emit_input_norm(s: &mut Emission, p: &Phase, y: &Layer, n: &Tn, dep: u32) -> (r: u32)
    requires
        old(s)@.room(1),
    ensures
        (final(s)@, r) == input_norm(old(s)@, *p, *y, *n, dep),
        final(s)@.within(old(s)@, 1),
{
    proof {
        reveal(input_norm);
    }
    if (p.fuse_norm || p.gfuse) && !y.first {
        return dep;
    }
    let deps: Vec<Dep> = if p.block_mode && y.first { after_none() } else { after1(dep) };
    emit_rms_norm(
        s,
        p,
        n.hn,
        n.x,
        y.w.g_in,
        if p.qnorm_fuse { n.xqh } else { TENSOR_NONE },
        if p.qnorm_fuse { n.ash } else { TENSOR_NONE },
        deps,
    )
}

/// The instructions that wrote a layer's query, key and value, the tensor that holds the value,
/// and how many workgroups each ran on.
#[derive(Clone, Copy, PartialEq, Eq, Debug, Structural)]
pub struct Qkv {
    pub c_q: u32,
    pub c_k: u32,
    pub c_v: u32,
    pub v_src: u32,
    pub nq: u32,
    pub nk: u32,
    pub nv: u32,
}

/// The three row products as one instruction, of narrow weights or of bf16 weights.
pub open spec fn fused_qkv_inst(p: Phase, y: Layer, n: Tn, after: u32) -> InstView {
    let narrow = y.fuse_qkv_fp8;
    inst(
        if narrow { DevOp::GemvQkvFp8 } else { DevOp::GemvQkv },
        first_cus(p.n_cu as int),
        on1(after),
        Args {
            t0: n.qg,
            t1: n.hn,
            t2: if narrow { y.w.wq8 } else { y.w.wq },
            t3: n.kg,
            t4: if narrow { y.w.wk8 } else { y.w.wk },
            t5: n.vg,
            t6: if narrow { y.w.wv8 } else { y.w.wv },
            i0: p.t,
            i1: y.qd,
            i2: p.hidden,
            i3: y.kd,
            i4: y.kd,
            i5: if narrow { y.w.sq } else { 0 },
            i6: if narrow { y.w.sk } else { 0 },
            i7: if narrow { y.w.sv } else { 0 },
            ..no_args()
        },
    )
}

/// A projection that first finishes the norm left by the layer before; the first of the three
/// also stores the residual.
pub open spec fn fold_proj_inst(
    p: Phase,
    n: Tn,
    f: Pending,
    out: u32,
    w8: u32,
    scale: u32,
    width: u32,
    on: CuRange,
    store: bool,
    after: u32,
) -> InstView {
    inst(
        DevOp::GemvFp8,
        on,
        on1(after),
        Args {
            t0: out,
            t1: n.xr,
            t2: w8,
            t3: n.x,
            t4: f.out,
            t5: scale,
            t6: f.g_post,
            t7: f.g_next,
            i0: p.t,
            i1: width,
            i2: p.hidden,
            i3: if store { 3 } else { 1 },
            f0: p.eps,
            f1: f.scalar,
            ..no_args()
        },
    )
}

/// One of the three projections of a layer's input.
pub open spec fn input_proj(
    s: Emitted,
    p: Phase,
    k: EmitConfig,
    tab: TileTable,
    n: Tn,
    pend: Option<Pending>,
    out: u32,
    w: u32,
    w8: u32,
    scale: u32,
    width: u32,
    on: CuRange,
    store: bool,
    after: u32,
) -> (Emitted, u32) {
    match pend {
        Some(f) => (
            s.then_inst(fold_proj_inst(p, n, f, out, w8, scale, width, on, store, after)),
            s.next(),
        ),
        None => project(
            s,
            p,
            k,
            tab,
            Proj {
                out,
                a: n.hn,
                w,
                w8,
                scale,
                xq: n.xqh,
                ascale: n.ash,
                m: p.t,
                n: width,
                k: p.hidden,
            },
            on,
            after,
        ),
    }
}

fn emit_input_proj(
    s: &mut Emission,
    p: &Phase,
    k: &EmitConfig,
    tab: &TileTable,
    n: &Tn,
    pend: Option<Pending>,
    out: u32,
    w: u32,
    w8: u32,
    scale: u32,
    width: u32,
    on: CuRange,
    store: bool,
    after: u32,
) -> (r: u32)
    requires
        old(s)@.room(2),
        proj_ok(*p, *tab, p.t, width, p.hidden),
    ensures
        (final(s)@, r) == input_proj(
            old(s)@,
            *p,
            *k,
            *tab,
            *n,
            pend,
            out,
            w,
            w8,
            scale,
            width,
            on,
            store,
            after,
        ),
        final(s)@.within(old(s)@, 2),
{
    match pend {
        Some(f) => s.emit(
            DevOp::GemvFp8,
            on,
            after1(after),
            Args {
                t0: out,
                t1: n.xr,
                t2: w8,
                t3: n.x,
                t4: f.out,
                t5: scale,
                t6: f.g_post,
                t7: f.g_next,
                i0: p.t,
                i1: width,
                i2: p.hidden,
                i3: if store { 3 } else { 1 },
                f0: p.eps,
                f1: f.scalar,
                ..blank()
            },
        ),
        None => emit_proj(
            s,
            p,
            k,
            tab,
            Proj {
                out,
                a: n.hn,
                w,
                w8,
                scale,
                xq: n.xqh,
                ascale: n.ash,
                m: p.t,
                n: width,
                k: p.hidden,
            },
            on,
            after,
        ),
    }
}

/// Where the shares of a layer's three projections meet: by width for row products, by tiles for
/// tiled products. A layer whose value is its key has two.
pub open spec fn qkv_cuts(p: Phase, k: EmitConfig, y: Layer) -> (int, int, int) {
    let (m, a, b) = if p.gemv {
        (capped(k, p.n_cu as int), y.qd as int, y.kd as int)
    } else {
        (
            p.n_cu as int,
            tile_count(p.t as int, y.qd as int),
            tile_count(p.t as int, y.kd as int),
        )
    };
    let (x, z) = cut3(m, a, b, if y.keqv { 0 } else { b });
    (x, z, m)
}

/// The query, key and value of a layer.
#[verifier::opaque]
pub open spec fn qkv(
    s: Emitted,
    p: Phase,
    k: EmitConfig,
    tab: TileTable,
    y: Layer,
    n: Tn,
    pend: Option<Pending>,
    c_n: u32,
) -> (Emitted, Qkv) {
    if y.fuse_qkv || y.fuse_qkv_fp8 {
        let c = s.next();
        (
            s.then_inst(fused_qkv_inst(p, y, n, c_n)),
            Qkv { c_q: c, c_k: c, c_v: c, v_src: n.vg, nq: p.n_cu, nk: p.n_cu, nv: p.n_cu },
        )
    } else {
        let (x, z, m) = qkv_cuts(p, k, y);
        let cq = CuRange { lo: 0, hi: x as u32 };
        let ck = CuRange { lo: x as u32, hi: z as u32 };
        let cv = CuRange { lo: z as u32, hi: m as u32 };
        let (s0, dq) = if copies_input(p, y) {
            (s, c_n)
        } else {
            quant(s, p, n.xqh, n.ash, n.hn, p.hidden, c_n)
        };
        let (s1, c_q) = input_proj(
            s0,
            p,
            k,
            tab,
            n,
            pend,
            n.qg,
            y.w.wq,
            y.w.wq8,
            y.w.sq,
            y.qd,
            cq,
            true,
            dq,
        );
        let (s2, c_k) = input_proj(
            s1,
            p,
            k,
            tab,
            n,
            pend,
            n.kg,
            y.w.wk,
            y.w.wk8,
            y.w.sk,
            y.kd,
            ck,
            false,
            dq,
        );
        let (s3, c_v) = if y.keqv {
            (s2, c_k)
        } else {
            input_proj(
                s2,
                p,
                k,
                tab,
                n,
                pend,
                n.vg,
                y.w.wv,
                y.w.wv8,
                y.w.sv,
                y.kd,
                cv,
                false,
                dq,
            )
        };
        (
            s3,
            Qkv {
                c_q,
                c_k,
                c_v,
                v_src: if y.keqv { n.kg } else { n.vg },
                nq: cq.count() as u32,
                nk: ck.count() as u32,
                nv: cv.count() as u32,
            },
        )
    }
}

/// Whether a layer's projections can be laid out on the compute units, with a share for each.
pub open spec fn qkv_ok(p: Phase, k: EmitConfig, tab: TileTable, y: Layer) -> bool {
    y.fuse_qkv || y.fuse_qkv_fp8 || {
        &&& proj_ok(p, tab, p.t, y.qd, p.hidden)
        &&& proj_ok(p, tab, p.t, y.kd, p.hidden)
        &&& p.gemv ==> {
            &&& capped(k, p.n_cu as int) >= (if y.keqv { 2int } else { 3int })
            &&& y.qd + y.kd + y.kd <= u32::MAX
        }
        &&& !p.gemv ==> {
            &&& p.n_cu >= 1
            &&& (!y.keqv && tile_count(p.t as int, y.kd as int) > 0) ==> p.n_cu >= 2
            &&& tile_count(p.t as int, y.qd as int) <= u32::MAX
            &&& tile_count(p.t as int, y.kd as int) <= u32::MAX
            &&& tile_count(p.t as int, y.qd as int) + 2 * tile_count(p.t as int, y.kd as int)
                <= u32::MAX
        }
    }
}

pub fn emit_qkv(
    s: &mut Emission,
    p: &Phase,
    k: &EmitConfig,
    tab: &TileTable,
    y: &Layer,
    n: &Tn,
    pend: Option<Pending>,
    c_n: u32,
) -> (r: Qkv)
    requires
        old(s)@.room(8),
        qkv_ok(*p, *k, *tab, *y),
    ensures
        (final(s)@, r) == qkv(old(s)@, *p, *k, *tab, *y, *n, pend, c_n),
        final(s)@.within(old(s)@, 8),
        p.gemv && !y.fuse_qkv && !y.fuse_qkv_fp8 && y.qd > 0 && y.kd > 0 ==> {
            &&& r.nq > 0
            &&& r.nk > 0
            &&& !y.keqv ==> r.nv > 0
        },
{
    proof {
        reveal(qkv);
    }
    if y.fuse_qkv || y.fuse_qkv_fp8 {
        let narrow: bool = y.fuse_qkv_fp8;
        let c: u32 = s.emit(
            if narrow { DevOp::GemvQkvFp8 } else { DevOp::GemvQkv },
            cus(p.n_cu),
            after1(c_n),
            Args {
                t0: n.qg,
                t1: n.hn,
                t2: if narrow { y.w.wq8 } else { y.w.wq },
                t3: n.kg,
                t4: if narrow { y.w.wk8 } else { y.w.wk },
                t5: n.vg,
                t6: if narrow { y.w.wv8 } else { y.w.wv },
                i0: p.t,
                i1: y.qd,
                i2: p.hidden,
                i3: y.kd,
                i4: y.kd,
                i5: if narrow { y.w.sq } else { 0 },
                i6: if narrow { y.w.sk } else { 0 },
                i7: if narrow { y.w.sv } else { 0 },
                ..blank()
            },
        );
        return Qkv { c_q: c, c_k: c, c_v: c, v_src: n.vg, nq: p.n_cu, nk: p.n_cu, nv: p.n_cu };
    }
    let (cq, ck, cv) = if p.gemv {
        split3(gemv_wg_n(k, p.n_cu), y.qd, y.kd, if y.keqv { 0 } else { y.kd })
    } else {
        let tq: u32 = tiles(p.t, y.qd);
        let tk: u32 = tiles(p.t, y.kd);
        split3(p.n_cu, tq, tk, if y.keqv { 0 } else { tk })
    };
    let dq: u32 = if p.qnorm_fuse && ((!p.fuse_norm && !p.gfuse) || y.first) {
        c_n
    } else {
        emit_quant(s, p, n.xqh, n.ash, n.hn, p.hidden, c_n)
    };
    let c_q: u32 = emit_input_proj(
        s,
        p,
        k,
        tab,
        n,
        pend,
        n.qg,
        y.w.wq,
        y.w.wq8,
        y.w.sq,
        y.qd,
        cq,
        true,
        dq,
    );
    let c_k: u32 = emit_input_proj(
        s,
        p,
        k,
        tab,
        n,
        pend,
        n.kg,
        y.w.wk,
        y.w.wk8,
        y.w.sk,
        y.kd,
        ck,
        false,
        dq,
    );
    let c_v: u32 = if y.keqv {
        c_k
    } else {
        emit_input_proj(
            s,
            p,
            k,
            tab,
            n,
            pend,
            n.vg,
            y.w.wv,
            y.w.wv8,
            y.w.sv,
            y.kd,
            cv,
            false,
            dq,
        )
    };
    Qkv {
        c_q,
        c_k,
        c_v,
        v_src: if y.keqv { n.kg } else { n.vg },
        nq: cq.blocks(),
        nk: ck.blocks(),
        nv: cv.blocks(),
    }
}

/// What a head norm waits for: after row products of their own, for the workgroups that wrote its
/// heads; else for the whole instruction.
pub open spec fn head_dep(p: Phase, y: Layer, c: u32, nblk_g: u32, nheads: u32) -> Seq<DepView> {
    if !p.gemv || y.fuse_qkv || y.fuse_qkv_fp8 {
        on1(c)
    } else {
        on_fine(
            c,
            head_map(y.nhn as int, p.t as int, nheads as int, y.hd as int, nblk_g as int),
        )
    }
}

fn make_head_dep(p: &Phase, y: &Layer, c: u32, nblk_g: u32, nheads: u32) -> (r: Vec<Dep>)
    requires
        y.nhn > 0,
        y.nhn * WAVES <= u32::MAX,
        p.gemv && !y.fuse_qkv && !y.fuse_qkv_fp8 ==> {
            &&& nheads > 0
            &&& y.hd > 0
            &&& nblk_g > 0
            &&& p.t * nheads <= u32::MAX
            &&& nheads * y.hd <= u32::MAX
        },
    ensures
        deps_view(r@) == head_dep(*p, *y, c, nblk_g, nheads),
{
    if !p.gemv || y.fuse_qkv || y.fuse_qkv_fp8 {
        after1(c)
    } else {
        let map: Vec<Vec<u32>> = head_wait_map(y.nhn, p.t, nheads, y.hd, nblk_g);
        after_fine(c, map)
    }
}

/// The compute units of head norm number `i`: its own share where the three fit beside each other.
pub open spec fn head_cus(y: Layer, i: int) -> CuRange {
    if y.hn_split {
        CuRange { lo: (i * y.nhn) as u32, hi: ((i + 1) * y.nhn) as u32 }
    } else {
        first_cus(y.nhn as int)
    }
}

/// The norms and rotations of a layer's query, key and value.
#[derive(Clone, Copy, PartialEq, Eq, Debug, Structural)]
pub struct HeadIds {
    pub c_qn: u32,
    pub c_kn: u32,
    pub c_vn: u32,
}

/// The row count that a cache write carries: a decode step of several rows, or one of a ladder.
pub open spec fn cache_rows(p: Phase) -> u32 {
    if p.decode && (p.t > 1 || p.seq_rows) { p.t } else { 0 }
}

pub open spec fn q_norm_inst(p: Phase, y: Layer, n: Tn, x: Qkv) -> InstView {
    inst(
        DevOp::HeadNormRope,
        head_cus(y, 0),
        head_dep(p, y, x.c_q, x.nq, p.heads),
        Args {
            t0: n.q,
            t1: n.qg,
            t2: y.w.qn,
            t3: y.cs,
            t4: y.sn,
            t5: n.pos,
            i0: p.t,
            i1: p.heads,
            i2: y.hd,
            i4: y.qk_skip,
            f0: p.eps,
            ..no_args()
        },
    )
}

pub open spec fn kv_norm_op(y: Layer) -> DevOp {
    if y.fp8_kv { DevOp::HeadNormRopeFp8 } else { DevOp::HeadNormRope }
}

pub open spec fn k_norm_inst(p: Phase, y: Layer, n: Tn, x: Qkv) -> InstView {
    inst(
        kv_norm_op(y),
        head_cus(y, 1),
        head_dep(p, y, x.c_k, x.nk, y.kvh),
        Args {
            t0: y.cache.kc,
            t1: n.kg,
            t2: y.w.kn,
            t3: y.cs,
            t4: y.sn,
            t5: n.pos,
            t6: y.cache.kcs,
            i0: p.t,
            i1: y.kvh,
            i2: y.hd,
            i4: y.qk_skip,
            i6: cache_rows(p),
            f0: p.eps,
            j0: y.kvr,
            j1: y.kvm,
            ..no_args()
        },
    )
}

pub open spec fn v_norm_inst(p: Phase, y: Layer, n: Tn, x: Qkv) -> InstView {
    inst(
        kv_norm_op(y),
        head_cus(y, 2),
        head_dep(p, y, x.c_v, if y.keqv { x.nk } else { x.nv }, y.kvh),
        Args {
            t0: y.cache.vc,
            t1: x.v_src,
            t5: n.pos,
            t6: y.cache.vcs,
            i0: p.t,
            i1: y.kvh,
            i2: y.hd,
            i4: y.v_skip,
            i6: cache_rows(p),
            f0: p.eps,
            j0: y.kvr,
            j1: y.kvm,
            ..no_args()
        },
    )
}

/// The head norms of a layer: none where the flash does them, else one of the query and, in a
/// decode step noted as cache writes, one each of the key and the value.
#[verifier::opaque]
pub open spec fn head_norms(s: Emitted, p: Phase, y: Layer, n: Tn, x: Qkv) -> (Emitted, HeadIds) {
    if y.fuse_hnr {
        (s, HeadIds { c_qn: 0, c_kn: 0, c_vn: 0 })
    } else {
        let s1 = s.then_inst(q_norm_inst(p, y, n, x));
        let s2 = s1.then_inst(k_norm_inst(p, y, n, x));
        let s3 = if p.decode { s2.with_kv_row(s1.next()) } else { s2 };
        let s4 = s3.then_inst(v_norm_inst(p, y, n, x));
        let s5 = if p.decode { s4.with_kv_row(s3.next()) } else { s4 };
        (s5, HeadIds { c_qn: s.next(), c_kn: s1.next(), c_vn: s3.next() })
    }
}

/// Whether a layer's heads can be numbered.
pub open spec fn heads_ok(p: Phase, y: Layer) -> bool {
    &&& y.nhn > 0
    &&& y.nhn * WAVES <= u32::MAX
    &&& p.heads > 0
    &&& y.kvh > 0
    &&& p.gemv ==> {
        &&& y.hd > 0
        &&& y.kvh <= p.heads
        &&& p.t * p.heads <= u32::MAX
        &&& p.t * y.kvh <= u32::MAX
        &&& p.heads * y.hd <= u32::MAX
        &&& y.kvh * y.hd <= u32::MAX
    }
}

fn make_head_cus(y: &Layer, i: u32) -> (r: CuRange)
    requires
        i < 3,
        y.nhn * WAVES <= u32::MAX,
    ensures
        r == head_cus(*y, i as int),
{
    if y.hn_split {
        proof {
            crate::arith::mul_le(i + 1, y.nhn as int, 3, y.nhn as int);
            crate::arith::mul_le(i as int, y.nhn as int, 3, y.nhn as int);
        }
        CuRange { lo: i * y.nhn, hi: (i + 1) * y.nhn }
    } else {
        cus(y.nhn)
    }
}

pub fn emit_head_norms(s: &mut Emission, p: &Phase, y: &Layer, n: &Tn, x: Qkv) -> (r: HeadIds)
    requires
        old(s)@.room(3),
        heads_ok(*p, *y),
        p.gemv && !y.fuse_qkv && !y.fuse_qkv_fp8 ==> x.nq > 0 && x.nk > 0 && (!y.keqv ==> x.nv
            > 0),
    ensures
        (final(s)@, r) == head_norms(old(s)@, *p, *y, *n, x),
        final(s)@.within(old(s)@, 3),
{
    proof {
        reveal(head_norms);
    }
    if y.fuse_hnr {
        return HeadIds { c_qn: 0, c_kn: 0, c_vn: 0 };
    }
    let rows: u32 = if p.decode && (p.t > 1 || p.seq_rows) { p.t } else { 0 };
    let op: DevOp = if y.fp8_kv { DevOp::HeadNormRopeFp8 } else { DevOp::HeadNormRope };
    let dq: Vec<Dep> = make_head_dep(p, y, x.c_q, x.nq, p.heads);
    let c_qn: u32 = s.emit(
        DevOp::HeadNormRope,
        make_head_cus(y, 0),
        dq,
        Args {
            t0: n.q,
            t1: n.qg,
            t2: y.w.qn,
            t3: y.cs,
            t4: y.sn,
            t5: n.pos,
            i0: p.t,
            i1: p.heads,
            i2: y.hd,
            i4: y.qk_skip,
            f0: p.eps,
            ..blank()
        },
    );
    let dk: Vec<Dep> = make_head_dep(p, y, x.c_k, x.nk, y.kvh);
    let c_kn: u32 = s.emit(
        op,
        make_head_cus(y, 1),
        dk,
        Args {
            t0: y.cache.kc,
            t1: n.kg,
            t2: y.w.kn,
            t3: y.cs,
            t4: y.sn,
            t5: n.pos,
            t6: y.cache.kcs,
            i0: p.t,
            i1: y.kvh,
            i2: y.hd,
            i4: y.qk_skip,
            i6: rows,
            f0: p.eps,
            j0: y.kvr,
            j1: y.kvm,
            ..blank()
        },
    );
    if p.decode {
        s.note_kv_row(c_kn);
    }
    let dv: Vec<Dep> = make_head_dep(p, y, x.c_v, if y.keqv { x.nk } else { x.nv }, y.kvh);
    let c_vn: u32 = s.emit(
        op,
        make_head_cus(y, 2),
        dv,
        Args {
            t0: y.cache.vc,
            t1: x.v_src,
            t5: n.pos,
            t6: y.cache.vcs,
            i0: p.t,
            i1: y.kvh,
            i2: y.hd,
            i4: y.v_skip,
            i6: rows,
            f0: p.eps,
            j0: y.kvr,
            j1: y.kvm,
            ..blank()
        },
    );
    if p.decode {
        s.note_kv_row(c_vn);
    }
    HeadIds { c_qn, c_kn, c_vn }
}

/// The flash of a decode step that norms its own inputs. The packed fields hold, below their
/// flags, the rows and the window, the heads, the cache rows and the splits; where the flash also
/// merges, they hold the merge counter and the output above them.
pub open spec fn norming_flash_inst(p: Phase, y: Layer, n: Tn, x: Qkv) -> InstView {
    let f = p.n_cu as int;
    let gm = |q: bool, nblk: u32|
        group_map(
            q,
            f,
            nblk as int,
            p.t as int,
            p.heads as int,
            y.kvh as int,
            y.hd as int,
            y.gf as int,
            y.ns as int,
        );
    inst(
        DevOp::FlashDecode,
        first_cus(f),
        on_fine3(
            x.c_q,
            gm(true, x.nq),
            x.c_k,
            gm(false, x.nk),
            x.c_v,
            gm(false, if y.keqv { x.nk } else { x.nv }),
        ),
        Args {
            t0: n.opart,
            t1: n.mlpart,
            t2: n.qg,
            t3: y.cache.kc,
            t4: y.cache.vc,
            t5: n.kvlen,
            t6: n.kg,
            t7: x.v_src,
            i0: p.t | (y.win << 8),
            i1: if y.fuse_merge {
                (p.heads | (1u32 << 16)) | (n.mrgc << 18)
            } else {
                p.heads | (1u32 << 16)
            },
            i2: y.kvh,
            i3: y.kvr | (y.ns << 20),
            i4: y.w.qn,
            i5: y.w.kn,
            i6: if y.fuse_merge { y.hd | (n.at << 16) } else { y.hd },
            i7: y.kvm,
            f0: p.eps,
            j0: y.cs,
            j1: y.sn,
            ..no_args()
        },
    )
}

/// The flash of a decode step on normed heads.
pub open spec fn decode_flash_inst(p: Phase, y: Layer, n: Tn, h: HeadIds) -> InstView {
    let f = p.n_cu as int;
    let fm = |kv: bool|
        flash_map(
            kv,
            f,
            y.nhn as int,
            p.t as int,
            p.heads as int,
            y.kvh as int,
            y.ns as int,
        );
    inst(
        if y.fp8_kv { DevOp::FlashDecodeFp8 } else { DevOp::FlashDecode },
        first_cus(f),
        on_fine3(h.c_qn, fm(false), h.c_kn, fm(true), h.c_vn, fm(true)),
        Args {
            t0: n.opart,
            t1: n.mlpart,
            t2: n.q,
            t3: y.cache.kc,
            t4: y.cache.vc,
            t5: n.kvlen,
            t6: y.cache.kcs,
            t7: y.cache.vcs,
            i0: p.t,
            i1: p.heads,
            i2: y.kvh,
            i3: y.kvr,
            i4: y.win,
            i5: y.ns,
            i6: y.hd,
            i7: y.kvm,
            f0: y.attn_scale,
            j0: if p.t > 1 { (p.t * y.kvh * y.kvr) as u32 } else { 0 },
            ..no_args()
        },
    )
}

/// Whether a prefill flash reads its cache through a tensor map.
pub open spec fn flash_mapped(p: Phase, y: Layer) -> bool {
    p.tma && !y.fp8_kv && (y.hd == 256 || y.hd == 512)
}

/// The tensor map of a layer's cache pair.
pub open spec fn cache_map(y: Layer) -> TmapDecl {
    TmapDecl {
        a: y.cache.kc,
        b: y.cache.vc,
        c: u32::MAX,
        kind: TmapKind::KvPair { ring: y.kvr, hd: y.hd, nkv: y.kvh },
    }
}

/// The flash of a tiled program; it writes the attention output where it is not split.
pub open spec fn prefill_flash_inst(
    p: Phase,
    y: Layer,
    n: Tn,
    h: HeadIds,
    tm: Option<u32>,
) -> InstView {
    inst(
        if y.fp8_kv { DevOp::FlashPrefillFp8 } else { DevOp::FlashPrefill },
        first_cus(p.n_cu as int),
        on3(h.c_qn, h.c_kn, h.c_vn),
        Args {
            t0: n.opart,
            t1: n.mlpart,
            t2: n.q,
            t3: y.cache.kc,
            t4: y.cache.vc,
            t5: if p.fused { n.at } else { TENSOR_NONE },
            t6: y.cache.kcs,
            t7: match tm {
                Some(m) => m,
                None => y.cache.vcs,
            },
            i0: p.t,
            i1: p.t,
            i2: p.heads,
            i3: y.kvh,
            i5: y.win,
            i6: y.hd,
            i7: y.ns,
            f0: y.attn_scale,
            j0: y.kvr,
            j1: y.kvm,
            ..no_args()
        },
    )
}

/// The attention of a layer.
#[verifier::opaque]
pub open spec fn flash(s: Emitted, p: Phase, y: Layer, n: Tn, x: Qkv, h: HeadIds) -> (Emitted, u32) {
    if y.fuse_hnr {
        (s.then_inst(norming_flash_inst(p, y, n, x)), s.next())
    } else if p.gemv {
        (s.then_inst(decode_flash_inst(p, y, n, h)), s.next())
    } else if flash_mapped(p, y) {
        let d = cache_map(y);
        let s1 = s.with_tmap(d);
        (s1.then_inst(prefill_flash_inst(p, y, n, h, Some(s.tmap(d)))), s1.next())
    } else {
        (s.then_inst(prefill_flash_inst(p, y, n, h, None)), s.next())
    }
}

/// Whether a layer's attention can be laid out.
pub open spec fn flash_ok(p: Phase, n: Tn, y: Layer) -> bool {
    &&& p.n_cu > 0
    &&& y.gf > 0
    &&& (p.heads / y.kvh) % y.gf == 0
    &&& y.fuse_hnr ==> {
        &&& p.gemv
        &&& y.gf <= p.heads
        &&& p.t * (p.heads / y.gf) <= u32::MAX
        &&& p.t * (p.heads / y.gf) * y.ns <= u32::MAX
        &&& y.fuse_merge ==> 0 < n.mrgc < 0x4000 && 0 < n.at < 0x1_0000 && y.hd < 0x1_0000
    }
    &&& p.gemv && !y.fuse_hnr ==> {
        &&& p.t * p.heads * y.ns <= u32::MAX
        &&& y.ns * p.heads <= u32::MAX
        &&& p.t > 1 ==> p.t * y.kvh * y.kvr <= u32::MAX
    }
}

pub fn emit_flash(s: &mut Emission, p: &Phase, y: &Layer, n: &Tn, x: Qkv, h: HeadIds) -> (r: u32)
    requires
        old(s)@.room(1),
        heads_ok(*p, *y),
        flash_ok(*p, *n, *y),
        y.fuse_hnr ==> x.nq > 0 && x.nk > 0 && (!y.keqv ==> x.nv > 0),
    ensures
        (final(s)@, r) == flash(old(s)@, *p, *y, *n, x, h),
        final(s)@.within(old(s)@, 1),
{
    proof {
        reveal(flash);
    }
    if y.fuse_hnr {
        let mq: Vec<Vec<u32>> = group_wait_map(
            true,
            p.n_cu,
            x.nq,
            p.t,
            p.heads,
            y.kvh,
            y.hd,
            y.gf,
            y.ns,
        );
        let mk: Vec<Vec<u32>> = group_wait_map(
            false,
            p.n_cu,
            x.nk,
            p.t,
            p.heads,
            y.kvh,
            y.hd,
            y.gf,
            y.ns,
        );
        let mv: Vec<Vec<u32>> = group_wait_map(
            false,
            p.n_cu,
            if y.keqv { x.nk } else { x.nv },
            p.t,
            p.heads,
            y.kvh,
            y.hd,
            y.gf,
            y.ns,
        );
        return s.emit(
            DevOp::FlashDecode,
            cus(p.n_cu),
            after_fine3(x.c_q, mq, x.c_k, mk, x.c_v, mv),
            Args {
                t0: n.opart,
                t1: n.mlpart,
                t2: n.qg,
                t3: y.cache.kc,
                t4: y.cache.vc,
                t5: n.kvlen,
                t6: n.kg,
                t7: x.v_src,
                i0: p.t | (y.win << 8),
                i1: if y.fuse_merge {
                    (p.heads | (1u32 << 16)) | (n.mrgc << 18)
                } else {
                    p.heads | (1u32 << 16)
                },
                i2: y.kvh,
                i3: y.kvr | (y.ns << 20),
                i4: y.w.qn,
                i5: y.w.kn,
                i6: if y.fuse_merge { y.hd | (n.at << 16) } else { y.hd },
                i7: y.kvm,
                f0: p.eps,
                j0: y.cs,
                j1: y.sn,
                ..blank()
            },
        );
    }
    if p.gemv {
        let mq: Vec<Vec<u32>> = flash_wait_map(false, p.n_cu, y.nhn, p.t, p.heads, y.kvh, y.ns);
        let mk: Vec<Vec<u32>> = flash_wait_map(true, p.n_cu, y.nhn, p.t, p.heads, y.kvh, y.ns);
        let mv: Vec<Vec<u32>> = flash_wait_map(true, p.n_cu, y.nhn, p.t, p.heads, y.kvh, y.ns);
        return s.emit(
            if y.fp8_kv { DevOp::FlashDecodeFp8 } else { DevOp::FlashDecode },
            cus(p.n_cu),
            after_fine3(h.c_qn, mq, h.c_kn, mk, h.c_vn, mv),
            Args {
                t0: n.opart,
                t1: n.mlpart,
                t2: n.q,
                t3: y.cache.kc,
                t4: y.cache.vc,
                t5: n.kvlen,
                t6: y.cache.kcs,
                t7: y.cache.vcs,
                i0: p.t,
                i1: p.heads,
                i2: y.kvh,
                i3: y.kvr,
                i4: y.win,
                i5: y.ns,
                i6: y.hd,
                i7: y.kvm,
                f0: y.attn_scale,
                j0: if p.t > 1 { p.t * y.kvh * y.kvr } else { 0 },
                ..blank()
            },
        );
    }
    let t7: u32 = if p.tma && !y.fp8_kv && (y.hd == 256 || y.hd == 512) {
        s.tmap(
            TmapDecl {
                a: y.cache.kc,
                b: y.cache.vc,
                c: u32::MAX,
                kind: TmapKind::KvPair { ring: y.kvr, hd: y.hd, nkv: y.kvh },
            },
        )
    } else {
        y.cache.vcs
    };
    s.emit(
        if y.fp8_kv { DevOp::FlashPrefillFp8 } else { DevOp::FlashPrefill },
        cus(p.n_cu),
        after3(h.c_qn, h.c_kn, h.c_vn),
        Args {
            t0: n.opart,
            t1: n.mlpart,
            t2: n.q,
            t3: y.cache.kc,
            t4: y.cache.vc,
            t5: if p.fused { n.at } else { TENSOR_NONE },
            t6: y.cache.kcs,
            t7,
            i0: p.t,
            i1: p.t,
            i2: p.heads,
            i3: y.kvh,
            i5: y.win,
            i6: y.hd,
            i7: y.ns,
            f0: y.attn_scale,
            j0: y.kvr,
            j1: y.kvm,
            ..blank()
        },
    )
}

/// Workgroups of a flash merge.
pub open spec fn merge_blocks(p: Phase, y: Layer) -> int {
    larger(smaller(p.t_heads * y.dsplit, p.n_cu as int), 1)
}

/// The merge of a split attention, unless the flash wrote the output itself.
#[verifier::opaque]
pub open spec fn merge(s: Emitted, p: Phase, y: Layer, n: Tn, c_fa: u32) -> (Emitted, u32) {
    if p.fused || y.fuse_merge {
        (s, c_fa)
    } else {
        (
            s.then_inst(
                inst(
                    DevOp::FlashMerge,
                    first_cus(merge_blocks(p, y)),
                    on_fine(
                        c_fa,
                        merge_map(
                            p.t_heads as int,
                            y.ns as int,
                            if p.gemv { 1 } else { FLASH_Q_TILE_ROWS as int },
                            p.heads as int,
                            p.n_cu as int,
                            merge_blocks(p, y),
                        ),
                    ),
                    Args {
                        t0: n.at,
                        t1: n.opart,
                        t2: n.mlpart,
                        i0: p.t,
                        i1: p.heads,
                        i2: y.ns,
                        i3: y.hd,
                        ..no_args()
                    },
                ),
            ),
            s.next(),
        )
    }
}

/// Whether a layer's merge can be laid out.
pub open spec fn merge_ok(p: Phase, y: Layer) -> bool {
    p.fused || y.fuse_merge || {
        &&& p.heads > 0
        &&& p.n_cu > 0
        &&& p.t_heads * y.dsplit <= u32::MAX
        &&& p.t_heads * y.ns <= u32::MAX
        &&& p.t_heads * merge_pieces(p.t_heads as int, merge_blocks(p, y)) <= u32::MAX
    }
}

pub fn emit_merge(s: &mut Emission, p: &Phase, y: &Layer, n: &Tn, c_fa: u32) -> (r: u32)
    requires
        old(s)@.room(1),
        merge_ok(*p, *y),
    ensures
        (final(s)@, r) == merge(old(s)@, *p, *y, *n, c_fa),
        final(s)@.within(old(s)@, 1),
{
    proof {
        reveal(merge);
    }
    if p.fused || y.fuse_merge {
        return c_fa;
    }
    let blocks: u32 = max_u32(min_u32(p.t_heads * y.dsplit, p.n_cu), 1);
    let map: Vec<Vec<u32>> = flash_merge_map(
        p.t_heads,
        y.ns,
        if p.gemv { 1 } else { FLASH_Q_TILE_ROWS },
        p.heads,
        p.n_cu,
        blocks,
    );
    s.emit(
        DevOp::FlashMerge,
        cus(blocks),
        after_fine(c_fa, map),
        Args {
            t0: n.at,
            t1: n.opart,
            t2: n.mlpart,
            i0: p.t,
            i1: p.heads,
            i2: y.ns,
            i3: y.hd,
            ..blank()
        },
    )
}

/// A projection back to the model's width: reduced over the devices where several share the model.
pub open spec fn project_out(
    s: Emitted,
    p: Phase,
    k: EmitConfig,
    tab: TileTable,
    j: Proj,
    part: u32,
    slot: u32,
    after: u32,
) -> (Emitted, u32) {
    let all = first_cus(p.n_cu as int);
    if p.tp > 1 {
        let (s1, c) = project(s, p, k, tab, Proj { out: part, ..j }, all, after);
        reduce(
            s1,
            k,
            p.decode,
            p.xr,
            on1(c),
            Reduction { out: j.out, elems: p.th, tp: p.tp, slot },
            None,
        )
    } else {
        project(s, p, k, tab, j, all, after)
    }
}

pub fn emit_project_out(
    s: &mut Emission,
    p: &Phase,
    k: &EmitConfig,
    tab: &TileTable,
    j: Proj,
    part: u32,
    slot: u32,
    after: u32,
) -> (r: u32)
    requires
        old(s)@.room(4),
        proj_ok(*p, *tab, j.m, j.n, j.k),
    ensures
        (final(s)@, r) == project_out(old(s)@, *p, *k, *tab, j, part, slot, after),
        final(s)@.within(old(s)@, 4),
{
    if p.tp > 1 {
        let c: u32 = emit_proj(s, p, k, tab, Proj { out: part, ..j }, cus(p.n_cu), after);
        emit_xreduce(
            s,
            k,
            p.decode,
            p.xr,
            c,
            Reduction { out: j.out, elems: p.th, tp: p.tp, slot },
        )
    } else {
        emit_proj(s, p, k, tab, j, cus(p.n_cu), after)
    }
}

/// The output projection of a layer's attention.
#[verifier::opaque]
pub open spec fn o_proj(
    s: Emitted,
    p: Phase,
    k: EmitConfig,
    tab: TileTable,
    y: Layer,
    n: Tn,
    attn: u32,
) -> (Emitted, u32) {
    let (s1, d) = quant(s, p, n.xqo, n.aso, n.at, y.qd, attn);
    project_out(s1, p, k, tab, o_proj_of(p, y, n), n.og_tp, 0, d)
}

/// The operands of a layer's output projection.
pub open spec fn o_proj_of(p: Phase, y: Layer, n: Tn) -> Proj {
    Proj {
        out: n.og,
        a: n.at,
        w: y.w.wo,
        w8: y.w.wo8,
        scale: y.w.so,
        xq: n.xqo,
        ascale: n.aso,
        m: p.t,
        n: p.hidden,
        k: y.qd,
    }
}

pub fn emit_o_proj(
    s: &mut Emission,
    p: &Phase,
    k: &EmitConfig,
    tab: &TileTable,
    y: &Layer,
    n: &Tn,
    attn: u32,
) -> (r: u32)
    requires
        old(s)@.room(5),
        proj_ok(*p, *tab, p.t, p.hidden, y.qd),
    ensures
        (final(s)@, r) == o_proj(old(s)@, *p, *k, *tab, *y, *n, attn),
        final(s)@.within(old(s)@, 5),
{
    proof {
        reveal(o_proj);
    }
    let d: u32 = emit_quant(s, p, n.xqo, n.aso, n.at, y.qd, attn);
    emit_project_out(
        s,
        p,
        k,
        tab,
        Proj {
            out: n.og,
            a: n.at,
            w: y.w.wo,
            w8: y.w.wo8,
            scale: y.w.so,
            xq: n.xqo,
            ascale: n.aso,
            m: p.t,
            n: p.hidden,
            k: y.qd,
        },
        n.og_tp,
        0,
        d,
    )
}

/// A residual sum followed by the next norm.
pub open spec fn add_norm_inst(p: Phase, n: Tn, b: u32, gamma: u32, after: u32) -> InstView {
    inst(
        DevOp::AddNorm,
        first_cus(p.rows as int),
        on1(after),
        Args {
            t0: n.hn,
            t1: n.x,
            t2: n.x,
            t3: b,
            t4: gamma,
            i0: p.t,
            i1: p.hidden,
            f0: p.eps,
            ..no_args()
        },
    )
}

pub fn emit_add_norm(s: &mut Emission, p: &Phase, n: &Tn, b: u32, gamma: u32, after: u32) -> (r: u32)
    requires
        old(s)@.room(1),
    ensures
        final(s)@ == old(s)@.then_inst(add_norm_inst(*p, *n, b, gamma, after)),
        r == old(s)@.next(),
{
    s.emit(
        DevOp::AddNorm,
        cus(p.rows),
        after1(after),
        Args {
            t0: n.hn,
            t1: n.x,
            t2: n.x,
            t3: b,
            t4: gamma,
            i0: p.t,
            i1: p.hidden,
            f0: p.eps,
            ..blank()
        },
    )
}

/// A normed sum with the residual, followed by the next norm; `src` is the residual read.
pub open spec fn norm_residual_norm_inst(
    p: Phase,
    n: Tn,
    src: u32,
    b: u32,
    g_b: u32,
    g_next: u32,
    scalar: u32,
    after: u32,
) -> InstView {
    inst(
        DevOp::NormResidualNorm,
        first_cus(p.rows as int),
        on1(after),
        Args {
            t0: n.hn,
            t1: n.x,
            t2: src,
            t3: b,
            t4: g_b,
            t5: g_next,
            i0: p.t,
            i1: p.hidden,
            f0: p.eps,
            f1: scalar,
            ..no_args()
        },
    )
}

pub fn emit_norm_residual_norm(
    s: &mut Emission,
    p: &Phase,
    n: &Tn,
    src: u32,
    b: u32,
    g_b: u32,
    g_next: u32,
    scalar: u32,
    after: u32,
) -> (r: u32)
    requires
        old(s)@.room(1),
    ensures
        final(s)@ == old(s)@.then_inst(
            norm_residual_norm_inst(*p, *n, src, b, g_b, g_next, scalar, after),
        ),
        r == old(s)@.next(),
{
    s.emit(
        DevOp::NormResidualNorm,
        cus(p.rows),
        after1(after),
        Args {
            t0: n.hn,
            t1: n.x,
            t2: src,
            t3: b,
            t4: g_b,
            t5: g_next,
            i0: p.t,
            i1: p.hidden,
            f0: p.eps,
            f1: scalar,
            ..blank()
        },
    )
}

/// A normed sum with the residual, in place.
pub open spec fn norm_residual_inst(
    p: Phase,
    n: Tn,
    b: u32,
    gamma: u32,
    scalar: u32,
    after: u32,
) -> InstView {
    inst(
        DevOp::NormResidual,
        first_cus(p.rows as int),
        on1(after),
        Args {
            t0: n.x,
            t1: n.x,
            t2: b,
            t3: gamma,
            i0: p.t,
            i1: p.hidden,
            f0: p.eps,
            f1: scalar,
            ..no_args()
        },
    )
}

/// A sum with the residual, in place.
pub open spec fn residual_inst(p: Phase, n: Tn, b: u32, after: u32) -> InstView {
    inst(
        DevOp::Residual,
        elem_cus(p, p.th),
        on1(after),
        Args { t0: n.x, t1: n.x, t2: b, i0: p.th, f0: F32_ONE, ..no_args() },
    )
}

/// A sum with the residual as the model's family writes it: normed, or plain.
pub open spec fn residual_step(
    p: Phase,
    n: Tn,
    b: u32,
    gamma: u32,
    scalar: u32,
    after: u32,
) -> InstView {
    if p.gemma {
        norm_residual_inst(p, n, b, gamma, scalar, after)
    } else {
        residual_inst(p, n, b, after)
    }
}

pub fn emit_residual_step(
    s: &mut Emission,
    p: &Phase,
    n: &Tn,
    b: u32,
    gamma: u32,
    scalar: u32,
    after: u32,
) -> (r: u32)
    requires
        old(s)@.room(1),
    ensures
        final(s)@ == old(s)@.then_inst(residual_step(*p, *n, b, gamma, scalar, after)),
        r == old(s)@.next(),
{
    if p.gemma {
        s.emit(
            DevOp::NormResidual,
            cus(p.rows),
            after1(after),
            Args {
                t0: n.x,
                t1: n.x,
                t2: b,
                t3: gamma,
                i0: p.t,
                i1: p.hidden,
                f0: p.eps,
                f1: scalar,
                ..blank()
            },
        )
    } else {
        s.emit(
            DevOp::Residual,
            elem(p, p.th),
            after1(after),
            Args { t0: n.x, t1: n.x, t2: b, i0: p.th, f0: F32_ONE, ..blank() },
        )
    }
}

/// The sum of a layer's attention with the residual, and the norm of the second half's input. A
/// program whose gate products finish the norm themselves emits nothing here.
#[verifier::opaque]
pub open spec fn post_attention(s: Emitted, p: Phase, y: Layer, n: Tn, c_o: u32) -> (Emitted, u32) {
    if p.fuse_norm {
        (s.then_inst(add_norm_inst(p, n, n.og, y.w.g_pa, c_o)), s.next())
    } else if p.gfuse && p.fuse_nrn {
        (s, c_o)
    } else if p.gfuse {
        (
            s.then_inst(
                norm_residual_norm_inst(p, n, n.x, n.og, y.w.g_pa, y.w.g_pf, F32_ONE, c_o),
            ),
            s.next(),
        )
    } else {
        let s1 = s.then_inst(residual_step(p, n, n.og, y.w.g_pa, F32_ONE, c_o));
        (
            s1.then_inst(
                rms_norm(
                    p,
                    n.hn,
                    n.x,
                    if p.gemma { y.w.g_pf } else { y.w.g_pa },
                    if p.qnorm_fuse { n.xqh } else { TENSOR_NONE },
                    if p.qnorm_fuse { n.ash } else { TENSOR_NONE },
                    on1(s.next()),
                ),
            ),
            s1.next(),
        )
    }
}

pub fn emit_post_attention(s: &mut Emission, p: &Phase, y: &Layer, n: &Tn, c_o: u32) -> (r: u32)
    requires
        old(s)@.room(2),
    ensures
        (final(s)@, r) == post_attention(old(s)@, *p, *y, *n, c_o),
        final(s)@.within(old(s)@, 2),
{
    proof {
        reveal(post_attention);
    }
    if p.fuse_norm {
        emit_add_norm(s, p, n, n.og, y.w.g_pa, c_o)
    } else if p.gfuse && p.fuse_nrn {
        c_o
    } else if p.gfuse {
        emit_norm_residual_norm(s, p, n, n.x, n.og, y.w.g_pa, y.w.g_pf, F32_ONE, c_o)
    } else {
        let c: u32 = emit_residual_step(s, p, n, n.og, y.w.g_pa, F32_ONE, c_o);
        emit_rms_norm(
            s,
            p,
            n.hn,
            n.x,
            if p.gemma { y.w.g_pf } else { y.w.g_pa },
            if p.qnorm_fuse { n.xqh } else { TENSOR_NONE },
            if p.qnorm_fuse { n.ash } else { TENSOR_NONE },
            after1(c),
        )
    }
}

} // verus!
