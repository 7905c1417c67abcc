//! What each step of a layer reads, writes and waits for.
use vstd::prelude::*;

use crate::arith::{ceil_div, larger, smaller};
use crate::attention::{
    flash, head_norms, input_norm, merge, o_proj, post_attention, project_out, qkv, qkv_cuts,
    HeadIds, Pending, Qkv,
};
use crate::builder::{mint, Emitted, TmapDecl, TmapKind};
use crate::emit_config::EmitConfig;
use crate::flash::{flash_map, group_map, head_map, merge_map};
use crate::gemm::{tile_op, QuantScheme, TileTable};
use crate::isa::{CuRange, DepView, DevOp, InstView, F32_ONE, TENSOR_NONE};
use crate::phase::{Layer, Phase};
use crate::steps::{project, quant, Proj};
use crate::tensors::Tn;
use crate::xreduce::{reduce, Gather, Reduction};

verus! {

/// Whether a step takes every compute unit below `n`.
pub open spec fn on_first(i: InstView, n: int) -> bool {
    i.cus.lo == 0 && i.cus.hi == n as u32
}

/// Whether a step waits for one other, as a whole, and for nothing else.
pub open spec fn waits_for(i: InstView, a: u32) -> bool {
    i.deps == seq![DepView::Coarse(a)]
}

/// Whether a step waits for two others, as wholes, and for nothing else.
pub open spec fn waits_for_both(i: InstView, a: u32, b: u32) -> bool {
    i.deps == seq![DepView::Coarse(a), DepView::Coarse(b)]
}

/// Whether `b` is `a` with `n` more instructions.
pub open spec fn adds(a: Emitted, b: Emitted, n: int) -> bool {
    &&& b.insts.len() == a.insts.len() + n
    &&& forall|i: int| 0 <= i < a.insts.len() ==> #[trigger] b.insts[i] == a.insts[i]
}

/// Whether the rows of `x` are normed into `out`, each by itself.
pub open spec fn is_norm(i: InstView, p: Phase, out: u32, x: u32, gamma: u32) -> bool {
    let a = i.args;
    &&& i.op == DevOp::RmsNorm
    &&& a.t0 == out && a.t1 == x && a.t2 == gamma
    &&& a.i0 == p.t && a.i1 == p.hidden && a.f0 == p.eps
    &&& on_first(i, p.rows as int)
}

/// Whether a norm leaves no narrow copy.
pub open spec fn leaves_no_copy(i: InstView) -> bool {
    i.args.t3 == TENSOR_NONE && i.args.t4 == TENSOR_NONE
}

/// Whether `src`, of `m` rows of `k`, is copied narrow into `xq`, its scales into `scale`.
pub open spec fn is_narrowing(
    i: InstView,
    xq: u32,
    scale: u32,
    src: u32,
    m: int,
    k: u32,
) -> bool {
    let a = i.args;
    &&& i.op == DevOp::QuantFp8
    &&& a.t0 == xq && a.t1 == src && a.t2 == scale
    &&& a.i0 == m && a.i1 == k
}

/// Whether an opcode is a tiled product of bf16 weights, of e4m3 weights, of four-bit weights.
pub open spec fn bf16_tile(op: DevOp) -> bool {
    ||| op == DevOp::Gemm || op == DevOp::GemmMed || op == DevOp::GemmSmall
    ||| op == DevOp::GemmWide || op == DevOp::GemmC5
}

pub open spec fn e4m3_tile(op: DevOp) -> bool {
    ||| op == DevOp::GemmFp8 || op == DevOp::GemmMedFp8 || op == DevOp::GemmSmallFp8
    ||| op == DevOp::GemmWideFp8 || op == DevOp::GemmC5Fp8
}

pub open spec fn four_bit_tile(op: DevOp) -> bool {
    ||| op == DevOp::GemmMxfp4 || op == DevOp::GemmMedMxfp4 || op == DevOp::GemmSmallMxfp4
    ||| op == DevOp::GemmWideMxfp4 || op == DevOp::GemmC5Mxfp4
}

/// Whether a step is the product that a projection asks for, on the kernel of the program's kind:
/// `m` rows of `k` times a weight of `n` rows of `k`. Narrow weights come with their scales, which a
/// row product and a tiled product take in different places. Only a tiled product of e4m3 weights
/// reads the narrow copy of its input, and only where activations are narrow.
pub open spec fn is_product(i: InstView, p: Phase, j: Proj) -> bool {
    let a = i.args;
    let copied = !p.mx && p.fp8 && !p.gemv && p.w8a8;
    &&& a.t0 == j.out
    &&& a.i0 == j.m && a.i1 == j.n && a.i2 == j.k
    &&& a.t1 == (if copied { j.xq } else { j.a })
    &&& a.t3 == (if copied { j.ascale } else { TENSOR_NONE })
    &&& p.mx || p.fp8 ==> {
        &&& a.t2 == j.w8
        &&& p.gemv ==> a.t5 == j.scale && a.t4 == TENSOR_NONE
        &&& !p.gemv ==> a.t4 == j.scale && a.t5 == TENSOR_NONE
    }
    &&& !p.mx && !p.fp8 ==> a.t2 == j.w && a.t4 == TENSOR_NONE && a.t5 == TENSOR_NONE
    &&& a.t6 == TENSOR_NONE && a.t7 == TENSOR_NONE
    &&& a.i3 == 0 && a.i4 == 0 && a.i5 == 0
    &&& p.gemv && p.mx ==> i.op == DevOp::GemvMxfp4
    &&& p.gemv && !p.mx && p.fp8 ==> i.op == DevOp::GemvFp8
    &&& p.gemv && !p.mx && !p.fp8 ==> i.op == DevOp::Gemv
    &&& !p.gemv && p.mx ==> four_bit_tile(i.op)
    &&& !p.gemv && !p.mx && p.fp8 ==> e4m3_tile(i.op)
    &&& !p.gemv && !p.mx && !p.fp8 ==> bf16_tile(i.op)
}

/// Whether a product reads its operands through tensor maps, and which: a map of the input that it
/// reads and one of its weight, each as many rows of `k` as that operand has. Only three tiles do,
/// where the program has maps, and e4m3 ones only of narrow activations.
pub open spec fn reads_through_maps(s: Emitted, i: InstView, p: Phase, j: Proj) -> bool {
    let bf16 = !p.mx && !p.fp8 && (i.op == DevOp::Gemm || i.op == DevOp::GemmMed || i.op
        == DevOp::GemmSmall);
    let e4m3 = !p.mx && p.fp8 && !p.gemv && p.w8a8 && (i.op == DevOp::GemmFp8 || i.op
        == DevOp::GemmMedFp8 || i.op == DevOp::GemmSmallFp8);
    let kind = if e4m3 { TmapKind::E4m3 } else { TmapKind::Bf16 };
    let d = TmapDecl { a: if e4m3 { j.xq } else { j.a }, b: j.m, c: j.k, kind };
    let e = TmapDecl { a: if e4m3 { j.w8 } else { j.w }, b: j.n, c: j.k, kind };
    if p.tma && (bf16 || e4m3) {
        i.args.i6 == mint(s.tmaps, d).1 && i.args.i7 == mint(mint(s.tmaps, d).0, e).1
    } else {
        i.args.i6 == 0 && i.args.i7 == 0
    }
}

proof fn tiles_are_of_their_encoding(priced: bool, tab: TileTable, m: u32, n: u32, k: u32)
    ensures
        bf16_tile(tile_op(priced, tab, m, n, k, QuantScheme::Plain)),
        e4m3_tile(tile_op(priced, tab, m, n, k, QuantScheme::W8A8)),
        four_bit_tile(tile_op(priced, tab, m, n, k, QuantScheme::Mxfp4)),
{
    let f = crate::gemm::Field::AllRungs;
    crate::gemm::each_encoding_chooses_from_its_own_rungs(tab, m, n, k, QuantScheme::Plain, f);
    crate::gemm::each_encoding_chooses_from_its_own_rungs(tab, m, n, k, QuantScheme::W8A8, f);
    crate::gemm::each_encoding_chooses_from_its_own_rungs(tab, m, n, k, QuantScheme::Mxfp4, f);
}

/// A projection is one product behind what it waits for. A tiled product takes the compute units
/// that it was given; a row product of narrow weights may take fewer of them, from the first on.
pub proof fn a_projection_is_one_product(
    s: Emitted,
    p: Phase,
    k: EmitConfig,
    tab: TileTable,
    j: Proj,
    on: CuRange,
    after: u32,
)
    requires
        s.insts.len() < u32::MAX,
    ensures
        ({
            let (t, r) = project(s, p, k, tab, j, on, after);
            let i = t.insts[s.insts.len() as int];
            &&& adds(s, t, 1)
            &&& r == s.insts.len()
            &&& is_product(i, p, j)
            &&& reads_through_maps(s, i, p, j)
            &&& waits_for(i, after)
            &&& !p.gemv || (!p.mx && !p.fp8) ==> i.cus == on
            &&& i.cus.lo == on.lo
        }),
{
    tiles_are_of_their_encoding(p.priced, tab, j.m, j.n, j.k);
}

/// An input is copied narrow where activations are narrow, and what comes next waits for the copy;
/// else nothing is copied and it waits for what wrote the input.
pub proof fn narrow_activations_are_copied(
    s: Emitted,
    p: Phase,
    xq: u32,
    ascale: u32,
    src: u32,
    k: u32,
    after: u32,
)
    requires
        s.insts.len() < u32::MAX,
    ensures
        ({
            let (t, r) = quant(s, p, xq, ascale, src, k, after);
            let i = t.insts[s.insts.len() as int];
            &&& !p.w8a8 ==> t == s && r == after
            &&& p.w8a8 ==> adds(s, t, 1) && r == s.insts.len() && is_narrowing(
                i,
                xq,
                ascale,
                src,
                p.t as int,
                k,
            ) && waits_for(i, after) && on_first(i, p.rows as int)
        }),
{
}

/// Whether a layer norms its own input: the first does, and every other where no step before it
/// left the norm.
pub open spec fn norms_own_input(p: Phase, y: Layer) -> bool {
    y.first || !(p.fuse_norm || p.gfuse)
}

/// A layer's input is the residual, normed by the layer's own weight, unless the layer before left
/// the norm. The first layer of a block waits for nothing. The norm leaves the narrow copy that the
/// projections read exactly where norms do.
pub proof fn an_input_is_the_normed_residual(s: Emitted, p: Phase, y: Layer, n: Tn, dep: u32)
    requires
        s.insts.len() < u32::MAX,
    ensures
        ({
            let (t, r) = input_norm(s, p, y, n, dep);
            let i = t.insts[s.insts.len() as int];
            &&& !norms_own_input(p, y) ==> t == s && r == dep
            &&& norms_own_input(p, y) ==> {
                &&& adds(s, t, 1) && r == s.insts.len()
                &&& is_norm(i, p, n.hn, n.x, y.w.g_in)
                &&& p.qnorm_fuse ==> i.args.t3 == n.xqh && i.args.t4 == n.ash
                &&& !p.qnorm_fuse ==> leaves_no_copy(i)
                &&& p.block_mode && y.first ==> i.deps.len() == 0
                &&& !(p.block_mode && y.first) ==> waits_for(i, dep)
            }
        }),
{
    reveal(input_norm);
}

/// The projection of a layer's input into `out` by a weight of `width` rows.
pub open spec fn input_times(
    p: Phase,
    n: Tn,
    out: u32,
    w: u32,
    w8: u32,
    scale: u32,
    width: u32,
) -> Proj {
    Proj {
        out,
        a: n.hn,
        w,
        w8,
        scale,
        xq: n.xqh,
        ascale: n.ash,
        m: p.t,
        n: width,
        k: p.hidden,
    }
}

/// Whether a row product of e4m3 weights finishes the norm that the layer before left, as it goes:
/// it reads that layer's sum and residual, and the first of three stores what it has summed.
pub open spec fn finishes_norm(
    i: InstView,
    p: Phase,
    n: Tn,
    f: Pending,
    out: u32,
    w8: u32,
    scale: u32,
    width: u32,
    store: bool,
) -> bool {
    let a = i.args;
    &&& i.op == DevOp::GemvFp8
    &&& a.t0 == out && a.t1 == n.xr && a.t2 == w8 && a.t3 == n.x && a.t4 == f.out
    &&& a.t5 == scale && a.t6 == f.g_post && a.t7 == f.g_next
    &&& a.i0 == p.t && a.i1 == width && a.i2 == p.hidden
    &&& a.i3 == (if store { 3u32 } else { 1u32 })
    &&& a.f0 == p.eps && a.f1 == f.scalar
}

/// Whether a step computes one of the three: from a norm that was left, or from the normed input.
pub open spec fn computes(
    i: InstView,
    p: Phase,
    n: Tn,
    pend: Option<Pending>,
    out: u32,
    w: u32,
    w8: u32,
    scale: u32,
    width: u32,
    store: bool,
) -> bool {
    match pend {
        Some(f) => finishes_norm(i, p, n, f, out, w8, scale, width, store),
        None => is_product(i, p, input_times(p, n, out, w, w8, scale, width)),
    }
}

proof fn one_of_three(
    s: Emitted,
    p: Phase,
    k: EmitConfig,
    tab: TileTable,
    n: Tn,
    pend: Option<Pending>,
    out: u32,
    w: u32,
    w8: u32,
    scale: u32,
    width: u32,
    on: CuRange,
    store: bool,
    after: u32,
)
    requires
        s.insts.len() < u32::MAX,
    ensures
        ({
            let (t, r) = crate::attention::input_proj(
                s,
                p,
                k,
                tab,
                n,
                pend,
                out,
                w,
                w8,
                scale,
                width,
                on,
                store,
                after,
            );
            let i = t.insts[s.insts.len() as int];
            &&& adds(s, t, 1)
            &&& r == s.insts.len()
            &&& computes(i, p, n, pend, out, w, w8, scale, width, store)
            &&& waits_for(i, after)
            &&& i.cus.lo == on.lo
        }),
{
    a_projection_is_one_product(
        s,
        p,
        k,
        tab,
        input_times(p, n, out, w, w8, scale, width),
        on,
        after,
    );
}

/// Whether the three products of a layer's input are one step: it writes query, key and value, each
/// by its own weight and width.
pub open spec fn is_fused_qkv(i: InstView, p: Phase, y: Layer, n: Tn) -> bool {
    let a = i.args;
    &&& i.op == (if y.fuse_qkv_fp8 { DevOp::GemvQkvFp8 } else { DevOp::GemvQkv })
    &&& a.t0 == n.qg && a.t3 == n.kg && a.t5 == n.vg && a.t1 == n.hn
    &&& a.i0 == p.t && a.i1 == y.qd && a.i2 == p.hidden && a.i3 == y.kd && a.i4 == y.kd
    &&& y.fuse_qkv_fp8 ==> a.t2 == y.w.wq8 && a.t4 == y.w.wk8 && a.t6 == y.w.wv8 && a.i5 == y.w.sq
        && a.i6 == y.w.sk && a.i7 == y.w.sv
    &&& !y.fuse_qkv_fp8 ==> a.t2 == y.w.wq && a.t4 == y.w.wk && a.t6 == y.w.wv && a.i5 == 0
        && a.i6 == 0 && a.i7 == 0
    &&& a.t7 == TENSOR_NONE
    &&& on_first(i, p.n_cu as int)
}

/// A layer's query, key and value are products of its input: the query of the query weight, the key
/// of the key weight, the value of the value weight, each as wide as its heads. A layer whose value
/// is its key has no third product and takes the key. All wait for the input, or for the narrow copy
/// of it where it has still to be made; and each takes the compute units behind the one before.
pub proof fn query_key_and_value_are_of_their_weights(
    s: Emitted,
    p: Phase,
    k: EmitConfig,
    tab: TileTable,
    y: Layer,
    n: Tn,
    pend: Option<Pending>,
    c_n: u32,
)
    requires
        s.insts.len() + 4 <= u32::MAX,
    ensures
        ({
            let (t, x) = qkv(s, p, k, tab, y, n, pend, c_n);
            let at = s.insts.len() as int;
            let copy = p.w8a8 && !(p.qnorm_fuse && norms_own_input(p, y));
            let first = if copy { at + 1 } else { at };
            let after = if copy { at as u32 } else { c_n };
            let w = y.w;
            &&& y.fuse_qkv || y.fuse_qkv_fp8 ==> {
                &&& adds(s, t, 1)
                &&& is_fused_qkv(t.insts[at], p, y, n) && waits_for(t.insts[at], c_n)
                &&& x.c_q == at && x.c_k == at && x.c_v == at && x.v_src == n.vg
                &&& x.nq == p.n_cu && x.nk == p.n_cu && x.nv == p.n_cu
            }
            &&& !(y.fuse_qkv || y.fuse_qkv_fp8) ==> {
                &&& adds(s, t, first - at + (if y.keqv { 2int } else { 3int }))
                &&& copy ==> is_narrowing(t.insts[at], n.xqh, n.ash, n.hn, p.t as int, p.hidden)
                    && waits_for(t.insts[at], c_n)
                &&& computes(t.insts[first], p, n, pend, n.qg, w.wq, w.wq8, w.sq, y.qd, true)
                &&& computes(t.insts[first + 1], p, n, pend, n.kg, w.wk, w.wk8, w.sk, y.kd, false)
                &&& !y.keqv ==> computes(
                    t.insts[first + 2],
                    p,
                    n,
                    pend,
                    n.vg,
                    w.wv,
                    w.wv8,
                    w.sv,
                    y.kd,
                    false,
                )
                &&& waits_for(t.insts[first], after) && waits_for(t.insts[first + 1], after)
                &&& !y.keqv ==> waits_for(t.insts[first + 2], after)
                &&& x.c_q == first && x.c_k == first + 1
                &&& x.c_v == (if y.keqv { first + 1 } else { first + 2 })
                &&& x.v_src == (if y.keqv { n.kg } else { n.vg })
                &&& t.insts[first].cus.lo == 0
                &&& t.insts[first + 1].cus.lo == qkv_cuts(p, k, y).0 as u32
                &&& !y.keqv ==> t.insts[first + 2].cus.lo == qkv_cuts(p, k, y).1 as u32
            }
        }),
{
    reveal(qkv);
    if !(y.fuse_qkv || y.fuse_qkv_fp8) {
        let (a, z, m) = qkv_cuts(p, k, y);
        let cq = CuRange { lo: 0, hi: a as u32 };
        let ck = CuRange { lo: a as u32, hi: z as u32 };
        let cv = CuRange { lo: z as u32, hi: m as u32 };
        narrow_activations_are_copied(s, p, n.xqh, n.ash, n.hn, p.hidden, c_n);
        let (s0, d) = if crate::attention::copies_input(p, y) {
            (s, c_n)
        } else {
            quant(s, p, n.xqh, n.ash, n.hn, p.hidden, c_n)
        };
        let w = y.w;
        one_of_three(s0, p, k, tab, n, pend, n.qg, w.wq, w.wq8, w.sq, y.qd, cq, true, d);
        let s1 = crate::attention::input_proj(
            s0,
            p,
            k,
            tab,
            n,
            pend,
            n.qg,
            w.wq,
            w.wq8,
            w.sq,
            y.qd,
            cq,
            true,
            d,
        ).0;
        one_of_three(s1, p, k, tab, n, pend, n.kg, w.wk, w.wk8, w.sk, y.kd, ck, false, d);
        let s2 = crate::attention::input_proj(
            s1,
            p,
            k,
            tab,
            n,
            pend,
            n.kg,
            w.wk,
            w.wk8,
            w.sk,
            y.kd,
            ck,
            false,
            d,
        ).0;
        one_of_three(s2, p, k, tab, n, pend, n.vg, w.wv, w.wv8, w.sv, y.kd, cv, false, d);
    }
}

/// Whether a step norms and rotates heads: `heads` of them to a row, of `src`, into `out`.
pub open spec fn norms_heads(
    i: InstView,
    p: Phase,
    y: Layer,
    n: Tn,
    out: u32,
    src: u32,
    heads: u32,
) -> bool {
    let a = i.args;
    &&& a.t0 == out && a.t1 == src && a.t5 == n.pos
    &&& a.i0 == p.t && a.i1 == heads && a.i2 == y.hd && a.f0 == p.eps
}

/// Whether a step writes a cache: by its ring, and with the row count that a decode step carries
/// where it has several rows or is one of a ladder.
pub open spec fn writes_cache(i: InstView, p: Phase, y: Layer, scales: u32) -> bool {
    let a = i.args;
    &&& i.op == (if y.fp8_kv { DevOp::HeadNormRopeFp8 } else { DevOp::HeadNormRope })
    &&& a.t6 == scales
    &&& a.j0 == y.kvr && a.j1 == y.kvm
    &&& a.i6 == (if p.decode && (p.seq_rows || p.t > 1) { p.t } else { 0 })
}

/// Whether a head norm waits for what wrote its heads: for the workgroups that wrote them where a
/// row product of its own did, else for the whole step.
pub open spec fn waits_for_heads(
    i: InstView,
    p: Phase,
    y: Layer,
    c: u32,
    blocks: u32,
    heads: u32,
) -> bool {
    if p.gemv && !y.fuse_qkv && !y.fuse_qkv_fp8 {
        i.deps == seq![
            DepView::Fine {
                producer: c,
                map: head_map(y.nhn as int, p.t as int, heads as int, y.hd as int, blocks as int),
            },
        ]
    } else {
        waits_for(i, c)
    }
}

/// Whether the three head norms stand side by side, each on its own compute units, or all on the
/// same.
pub open spec fn on_share(i: InstView, y: Layer, which: int) -> bool {
    if y.hn_split {
        i.cus.lo == (which * y.nhn) as u32 && i.cus.hi == (which * y.nhn + y.nhn) as u32
    } else {
        i.cus.lo == 0 && i.cus.hi == y.nhn
    }
}

/// A layer's query is normed by the query's weight into the query, its key by the key's weight into
/// the key cache, both rotated by the layer's own tables; its value is normed without a weight and
/// not rotated, into the value cache. Each waits for its own product. In a decode step the two cache
/// writes are noted, in a prefill none is. Where the attention norms its own heads there is nothing
/// to do.
pub proof fn heads_are_normed_into_their_caches(s: Emitted, p: Phase, y: Layer, n: Tn, x: Qkv)
    requires
        s.insts.len() + 3 <= u32::MAX,
    ensures
        ({
            let (t, h) = head_norms(s, p, y, n, x);
            let at = s.insts.len() as int;
            let (q, k, v) = (t.insts[at], t.insts[at + 1], t.insts[at + 2]);
            &&& y.fuse_hnr ==> t == s
            &&& !y.fuse_hnr ==> {
                &&& adds(s, t, 3)
                &&& h.c_qn == at && h.c_kn == at + 1 && h.c_vn == at + 2
                &&& q.op == DevOp::HeadNormRope && norms_heads(q, p, y, n, n.q, n.qg, p.heads)
                &&& q.args.t2 == y.w.qn && q.args.t6 == TENSOR_NONE && q.args.i6 == 0
                &&& q.args.t3 == y.cs && q.args.t4 == y.sn && q.args.i4 == y.qk_skip
                &&& norms_heads(k, p, y, n, y.cache.kc, n.kg, y.kvh) && writes_cache(
                    k,
                    p,
                    y,
                    y.cache.kcs,
                )
                &&& k.args.t2 == y.w.kn && k.args.t3 == y.cs && k.args.t4 == y.sn && k.args.i4
                    == y.qk_skip
                &&& norms_heads(v, p, y, n, y.cache.vc, x.v_src, y.kvh) && writes_cache(
                    v,
                    p,
                    y,
                    y.cache.vcs,
                )
                &&& v.args.t2 == TENSOR_NONE && v.args.t3 == TENSOR_NONE && v.args.t4
                    == TENSOR_NONE && v.args.i4 == y.v_skip
                &&& waits_for_heads(q, p, y, x.c_q, x.nq, p.heads)
                &&& waits_for_heads(k, p, y, x.c_k, x.nk, y.kvh)
                &&& waits_for_heads(v, p, y, x.c_v, if y.keqv { x.nk } else { x.nv }, y.kvh)
                &&& on_share(q, y, 0) && on_share(k, y, 1) && on_share(v, y, 2)
                &&& p.decode ==> t.kv_rows == s.kv_rows.push((at + 1) as u32).push((at + 2) as u32)
                &&& !p.decode ==> t.kv_rows == s.kv_rows
            }
        }),
{
    reveal(head_norms);
    assert((2 + 1) * y.nhn == 2 * y.nhn + y.nhn && (1 + 1) * y.nhn == 1 * y.nhn + y.nhn
        && (0 + 1) * y.nhn == 0 * y.nhn + y.nhn) by (nonlinear_arith);
}

/// Whether an attention reads a layer's caches and writes its parts.
pub open spec fn attends(i: InstView, y: Layer, n: Tn) -> bool {
    let a = i.args;
    &&& a.t0 == n.opart && a.t1 == n.mlpart
    &&& a.t3 == y.cache.kc && a.t4 == y.cache.vc
}

/// The attention of a decode step on normed heads reads the query and the layer's caches, over the
/// context that each sequence has, within the layer's window, split as the layer says, and waits for
/// the query's norm by the heads of queries and for the key's and the value's by the heads of keys
/// and values.
pub proof fn a_decode_step_attends_to_its_context(
    s: Emitted,
    p: Phase,
    y: Layer,
    n: Tn,
    x: Qkv,
    h: HeadIds,
)
    requires
        p.gemv,
        !y.fuse_hnr,
        s.insts.len() < u32::MAX,
        p.t > 1 ==> p.t * y.kvh * y.kvr <= u32::MAX,
    ensures
        ({
            let (t, r) = flash(s, p, y, n, x, h);
            let i = t.insts[s.insts.len() as int];
            let a = i.args;
            let map = |kv: bool|
                flash_map(
                    kv,
                    p.n_cu as int,
                    y.nhn as int,
                    p.t as int,
                    p.heads as int,
                    y.kvh as int,
                    y.ns as int,
                );
            &&& adds(s, t, 1) && r == s.insts.len()
            &&& i.op == (if y.fp8_kv { DevOp::FlashDecodeFp8 } else { DevOp::FlashDecode })
            &&& attends(i, y, n)
            &&& a.t2 == n.q && a.t5 == n.kvlen && a.t6 == y.cache.kcs && a.t7 == y.cache.vcs
            &&& a.i0 == p.t && a.i1 == p.heads && a.i2 == y.kvh && a.i3 == y.kvr && a.i4 == y.win
            &&& a.i5 == y.ns && a.i6 == y.hd && a.i7 == y.kvm && a.f0 == y.attn_scale
            &&& p.t > 1 ==> a.j0 == p.t * y.kvh * y.kvr
            &&& p.t <= 1 ==> a.j0 == 0
            &&& on_first(i, p.n_cu as int)
            &&& i.deps == seq![
                DepView::Fine { producer: h.c_qn, map: map(false) },
                DepView::Fine { producer: h.c_kn, map: map(true) },
                DepView::Fine { producer: h.c_vn, map: map(true) },
            ]
        }),
{
    reveal(flash);
}

/// The attention of a tiled program reads the query and the layer's caches, over the rows of the
/// program and within the layer's window, and waits for all three norms. Where it is not split it
/// writes the output itself. Of bf16 caches with heads that the kernel has maps for, it reads the
/// pair through one tensor map.
pub proof fn a_prefill_attends_to_its_rows(
    s: Emitted,
    p: Phase,
    y: Layer,
    n: Tn,
    x: Qkv,
    h: HeadIds,
)
    requires
        !p.gemv,
        !y.fuse_hnr,
        s.insts.len() < u32::MAX,
    ensures
        ({
            let (t, r) = flash(s, p, y, n, x, h);
            let i = t.insts[s.insts.len() as int];
            let a = i.args;
            let pair = TmapDecl {
                a: y.cache.kc,
                b: y.cache.vc,
                c: u32::MAX,
                kind: TmapKind::KvPair { ring: y.kvr, hd: y.hd, nkv: y.kvh },
            };
            let maps = p.tma && !y.fp8_kv && (y.hd == 256 || y.hd == 512);
            &&& adds(s, t, 1) && r == s.insts.len()
            &&& i.op == (if y.fp8_kv { DevOp::FlashPrefillFp8 } else { DevOp::FlashPrefill })
            &&& attends(i, y, n)
            &&& a.t2 == n.q && a.t6 == y.cache.kcs
            &&& a.t5 == (if p.fused { n.at } else { TENSOR_NONE })
            &&& a.t7 == (if maps { mint(s.tmaps, pair).1 } else { y.cache.vcs })
            &&& t.tmaps == (if maps { mint(s.tmaps, pair).0 } else { s.tmaps })
            &&& a.i0 == p.t && a.i1 == p.t && a.i2 == p.heads && a.i3 == y.kvh && a.i5 == y.win
            &&& a.i6 == y.hd && a.i7 == y.ns && a.f0 == y.attn_scale && a.j0 == y.kvr && a.j1
                == y.kvm
            &&& on_first(i, p.n_cu as int)
            &&& i.deps == seq![
                DepView::Coarse(h.c_qn),
                DepView::Coarse(h.c_kn),
                DepView::Coarse(h.c_vn),
            ]
        }),
{
    reveal(flash);
}

/// The attention of a decode step that norms its own heads reads the three products and the layer's
/// caches, norms by the layer's two weights, rotates by its tables, and waits for the columns of
/// each product that its items read. Its packed numbers come apart again: the rows and the window,
/// the heads, the ring and the splits, the head size; and, where it also merges, the counter and the
/// output.
pub proof fn a_norming_attention_reads_the_products(
    s: Emitted,
    p: Phase,
    y: Layer,
    n: Tn,
    x: Qkv,
    h: HeadIds,
)
    requires
        y.fuse_hnr,
        s.insts.len() < u32::MAX,
        p.t < 0x100,
        y.win < 0x100_0000,
        p.heads < 0x1_0000,
        y.kvr < 0x10_0000,
        y.ns < 0x1000,
        y.hd < 0x1_0000,
        y.fuse_merge ==> n.mrgc < 0x4000 && n.at < 0x1_0000,
    ensures
        ({
            let (t, r) = flash(s, p, y, n, x, h);
            let i = t.insts[s.insts.len() as int];
            let a = i.args;
            let map = |q: bool, blocks: u32|
                group_map(
                    q,
                    p.n_cu as int,
                    blocks as int,
                    p.t as int,
                    p.heads as int,
                    y.kvh as int,
                    y.hd as int,
                    y.gf as int,
                    y.ns as int,
                );
            &&& adds(s, t, 1) && r == s.insts.len()
            &&& i.op == DevOp::FlashDecode
            &&& attends(i, y, n)
            &&& a.t2 == n.qg && a.t5 == n.kvlen && a.t6 == n.kg && a.t7 == x.v_src
            &&& a.i0 & 0xff == p.t && a.i0 >> 8 == y.win
            &&& a.i1 & 0xffff == p.heads && (a.i1 >> 16) & 3 == 1
            &&& a.i1 >> 18 == (if y.fuse_merge { n.mrgc } else { 0 })
            &&& a.i2 == y.kvh
            &&& a.i3 & 0xf_ffff == y.kvr && a.i3 >> 20 == y.ns
            &&& a.i4 == y.w.qn && a.i5 == y.w.kn
            &&& a.i6 & 0xffff == y.hd && a.i6 >> 16 == (if y.fuse_merge { n.at } else { 0 })
            &&& a.i7 == y.kvm && a.f0 == p.eps && a.j0 == y.cs && a.j1 == y.sn
            &&& on_first(i, p.n_cu as int)
            &&& i.deps == seq![
                DepView::Fine { producer: x.c_q, map: map(true, x.nq) },
                DepView::Fine { producer: x.c_k, map: map(false, x.nk) },
                DepView::Fine {
                    producer: x.c_v,
                    map: map(false, if y.keqv { x.nk } else { x.nv }),
                },
            ]
        }),
{
    reveal(flash);
    packs(p.t, y.win, p.heads, n.mrgc, y.kvr, y.ns, y.hd, n.at);
}

proof fn packs(t: u32, win: u32, heads: u32, mrgc: u32, kvr: u32, ns: u32, hd: u32, at: u32)
    by (bit_vector)
    ensures
        t < 0x100 && win < 0x100_0000 ==> (t | (win << 8)) & 0xff == t && (t | (win << 8)) >> 8
            == win,
        heads < 0x1_0000 ==> (heads | (1u32 << 16)) & 0xffff == heads && ((heads | (1u32 << 16))
            >> 16) & 3 == 1 && (heads | (1u32 << 16)) >> 18 == 0,
        heads < 0x1_0000 && mrgc < 0x4000 ==> ((heads | (1u32 << 16)) | (mrgc << 18)) & 0xffff
            == heads && (((heads | (1u32 << 16)) | (mrgc << 18)) >> 16) & 3 == 1 && ((heads | (1u32
            << 16)) | (mrgc << 18)) >> 18 == mrgc,
        kvr < 0x10_0000 && ns < 0x1000 ==> (kvr | (ns << 20)) & 0xf_ffff == kvr && (kvr | (ns
            << 20)) >> 20 == ns,
        hd < 0x1_0000 ==> hd & 0xffff == hd && hd >> 16 == 0,
        hd < 0x1_0000 && at < 0x1_0000 ==> (hd | (at << 16)) & 0xffff == hd && (hd | (at << 16))
            >> 16 == at,
{
}

/// The parts of a split attention are merged into its output, all rows and heads of them; where the
/// attention wrote the output itself there is nothing to merge.
pub proof fn a_split_attention_is_merged(s: Emitted, p: Phase, y: Layer, n: Tn, c_fa: u32)
    requires
        s.insts.len() < u32::MAX,
    ensures
        ({
            let (t, r) = merge(s, p, y, n, c_fa);
            let i = t.insts[s.insts.len() as int];
            let a = i.args;
            let blocks = larger(smaller(p.t_heads * y.dsplit, p.n_cu as int), 1);
            &&& p.fused || y.fuse_merge ==> t == s && r == c_fa
            &&& !(p.fused || y.fuse_merge) ==> {
                &&& adds(s, t, 1) && r == s.insts.len()
                &&& i.op == DevOp::FlashMerge
                &&& a.t0 == n.at && a.t1 == n.opart && a.t2 == n.mlpart && a.t3 == TENSOR_NONE
                &&& a.i0 == p.t && a.i1 == p.heads && a.i2 == y.ns && a.i3 == y.hd
                &&& on_first(i, blocks)
                &&& i.deps == seq![
                    DepView::Fine {
                        producer: c_fa,
                        map: merge_map(
                            p.t_heads as int,
                            y.ns as int,
                            if p.gemv { 1 } else { 128 },
                            p.heads as int,
                            p.n_cu as int,
                            blocks,
                        ),
                    },
                ]
            }
        }),
{
    reveal(merge);
}

/// Whether a step sums the devices' shares of `elems` elements into `out`: a decode step in one
/// round, which takes one gate, a prefill in two, which take two.
pub open spec fn is_sum_of_devices(
    s: Emitted,
    t: Emitted,
    i: InstView,
    decode: bool,
    out: u32,
    elems: u32,
    tp: u32,
    slot: u32,
) -> bool {
    let a = i.args;
    &&& a.t0 == out && a.i0 == elems && a.i1 == tp && a.i2 == slot && a.i3 == s.xgate
    &&& decode ==> i.op == DevOp::XReduce && a.i4 == 0 && a.i5 == 0 && a.i6 == 0 && a.i7 == 0
        && t.xgate == s.xgate + 1
    &&& !decode ==> i.op == DevOp::XReduceTwoShot && a.i4 == s.xgate + 1 && a.i6 == 0 && a.i7 == 0
        && t.xgate == s.xgate + 2
}

/// A reduction takes the next gates and no more, on one compute unit to 512 elements of those set
/// aside for it. With a gather that rides on it a decode step carries the window, the columns and
/// the width; a prefill in two rounds carries the window and the columns, and runs so only where it
/// is told to and the rows are made of the devices' columns.
pub proof fn a_reduction_takes_its_own_gates(
    s: Emitted,
    k: EmitConfig,
    decode: bool,
    avail: u32,
    deps: Seq<DepView>,
    d: Reduction,
    gather: Option<Gather>,
)
    requires
        s.insts.len() < u32::MAX,
        s.xgate + 2 <= u32::MAX,
    ensures
        ({
            let (t, r) = reduce(s, k, decode, avail, deps, d, gather);
            let i = t.insts[s.insts.len() as int];
            let a = i.args;
            &&& adds(s, t, 1) && r == s.insts.len() && i.deps == deps
            &&& on_first(i, smaller(larger(ceil_div(d.elems as int, 512), 1), avail as int))
            &&& gather is None ==> is_sum_of_devices(
                s,
                t,
                i,
                decode,
                d.out,
                d.elems,
                d.tp,
                d.slot,
            )
            &&& gather matches Some(g) ==> {
                let two = !decode && k.xr2_gather && g.row_w == smaller(
                    d.tp * g.cols,
                    u32::MAX as int,
                );
                &&& a.t0 == d.out && a.i0 == d.elems && a.i1 == d.tp && a.i2 == d.slot && a.i3
                    == s.xgate
                &&& !two ==> i.op == DevOp::XReduce && a.i4 == g.slot && a.i5 == g.cols && a.i6
                    == g.row_w && t.xgate == s.xgate + 1
                &&& two ==> i.op == DevOp::XReduceTwoShot && a.i4 == s.xgate + 1 && a.i6 == g.slot
                    && a.i7 == g.cols && t.xgate == s.xgate + 2
            }
        }),
{
}

/// Whether the instructions from `at` on are a product into `j.out`: by itself on one device, else
/// of this device's share into `part`, and the sum of all shares behind it.
pub open spec fn is_shared_product(
    s: Emitted,
    t: Emitted,
    at: int,
    p: Phase,
    j: Proj,
    part: u32,
    slot: u32,
    after: u32,
) -> bool {
    if p.tp > 1 {
        &&& t.insts.len() == at + 2
        &&& is_product(t.insts[at], p, Proj { out: part, ..j }) && waits_for(t.insts[at], after)
        &&& is_sum_of_devices(s, t, t.insts[at + 1], p.decode, j.out, p.th, p.tp, slot)
        &&& waits_for(t.insts[at + 1], at as u32)
    } else {
        &&& t.insts.len() == at + 1
        &&& is_product(t.insts[at], p, j) && waits_for(t.insts[at], after)
    }
}

/// A projection back to the model's width is one product, summed over the devices where several
/// share the model.
pub proof fn a_product_is_summed_over_devices(
    s: Emitted,
    p: Phase,
    k: EmitConfig,
    tab: TileTable,
    j: Proj,
    part: u32,
    slot: u32,
    after: u32,
)
    requires
        s.insts.len() + 2 <= u32::MAX,
        s.xgate + 2 <= u32::MAX,
    ensures
        ({
            let (t, r) = project_out(s, p, k, tab, j, part, slot, after);
            &&& is_shared_product(s, t, s.insts.len() as int, p, j, part, slot, after)
            &&& r == t.insts.len() - 1
            &&& forall|i: int| 0 <= i < s.insts.len() ==> #[trigger] t.insts[i] == s.insts[i]
        }),
{
    let all = CuRange { lo: 0, hi: p.n_cu };
    a_projection_is_one_product(s, p, k, tab, Proj { out: part, ..j }, all, after);
    a_projection_is_one_product(s, p, k, tab, j, all, after);
}

/// The output of a layer's attention, `t` rows as wide as its heads, is projected back to the
/// model's width by the output weight, into the attention's sum; its narrow copy is made first where
/// activations are narrow.
pub proof fn attention_is_projected_back(
    s: Emitted,
    p: Phase,
    k: EmitConfig,
    tab: TileTable,
    y: Layer,
    n: Tn,
    c: u32,
)
    requires
        s.insts.len() + 3 <= u32::MAX,
        s.xgate + 2 <= u32::MAX,
    ensures
        ({
            let (t, r) = o_proj(s, p, k, tab, y, n, c);
            let at = s.insts.len() as int;
            let first = if p.w8a8 { at + 1 } else { at };
            let j = Proj {
                out: n.og,
                a: n.at,
                w: y.w.wo,
                w8: y.w.wo8,
                scale: y.w.so,
                xq: n.xqo,
                ascale: n.aso,
                m: p.t,
                n: p.hidden,
                k: y.qd,
            };
            &&& p.w8a8 ==> is_narrowing(t.insts[at], n.xqo, n.aso, n.at, p.t as int, y.qd)
                && waits_for(t.insts[at], c)
            &&& is_shared_product(
                s,
                t,
                first,
                p,
                j,
                n.og_tp,
                0,
                if p.w8a8 { at as u32 } else { c },
            )
            &&& r == t.insts.len() - 1
        }),
{
    reveal(o_proj);
    narrow_activations_are_copied(s, p, n.xqo, n.aso, n.at, y.qd, c);
    let (s1, d) = quant(s, p, n.xqo, n.aso, n.at, y.qd, c);
    a_product_is_summed_over_devices(s1, p, k, tab, crate::attention::o_proj_of(p, y, n), n.og_tp, 0, d);
}

/// Whether a step adds `b` to the residual and norms the sum for what comes next.
pub open spec fn adds_and_norms(i: InstView, p: Phase, n: Tn, b: u32, next: u32) -> bool {
    let a = i.args;
    &&& i.op == DevOp::AddNorm
    &&& a.t0 == n.hn && a.t1 == n.x && a.t2 == n.x && a.t3 == b && a.t4 == next
    &&& a.i0 == p.t && a.i1 == p.hidden && a.f0 == p.eps
    &&& on_first(i, p.rows as int)
}

/// Whether a step adds the normed `b` to the residual `src`, scaled, and norms the sum for what
/// comes next.
pub open spec fn norms_adds_and_norms(
    i: InstView,
    p: Phase,
    n: Tn,
    src: u32,
    b: u32,
    own: u32,
    next: u32,
    scalar: u32,
) -> bool {
    let a = i.args;
    &&& i.op == DevOp::NormResidualNorm
    &&& a.t0 == n.hn && a.t1 == n.x && a.t2 == src && a.t3 == b && a.t4 == own && a.t5 == next
    &&& a.i0 == p.t && a.i1 == p.hidden && a.f0 == p.eps && a.f1 == scalar
    &&& on_first(i, p.rows as int)
}

/// Whether a step adds `b` to the residual, in place: normed and scaled in the family whose sums
/// are, plain in any other.
pub open spec fn adds_in_place(
    i: InstView,
    p: Phase,
    n: Tn,
    b: u32,
    own: u32,
    scalar: u32,
) -> bool {
    let a = i.args;
    &&& a.t0 == n.x && a.t1 == n.x && a.t2 == b
    &&& p.gemma ==> i.op == DevOp::NormResidual && a.t3 == own && a.i0 == p.t && a.i1 == p.hidden
        && a.f0 == p.eps && a.f1 == scalar && on_first(i, p.rows as int)
    &&& !p.gemma ==> i.op == DevOp::Residual && a.i0 == p.th && a.f0 == F32_ONE && a.t3
        == TENSOR_NONE
}

/// A layer's attention is added to the residual, unscaled, and the sum is normed for the second
/// half: in one step where steps fuse, or left to the gated product where that finishes norms, or in
/// two. The norm of the second half is the family's own.
pub proof fn attention_is_added_and_normed(s: Emitted, p: Phase, y: Layer, n: Tn, c: u32)
    requires
        s.insts.len() + 2 <= u32::MAX,
    ensures
        ({
            let (t, r) = post_attention(s, p, y, n, c);
            let at = s.insts.len() as int;
            let i = t.insts[at];
            &&& p.fuse_norm ==> adds(s, t, 1) && r == at && adds_and_norms(i, p, n, n.og, y.w.g_pa)
                && waits_for(i, c)
            &&& !p.fuse_norm && p.gfuse && p.fuse_nrn ==> t == s && r == c
            &&& !p.fuse_norm && p.gfuse && !p.fuse_nrn ==> adds(s, t, 1) && r == at
                && norms_adds_and_norms(i, p, n, n.x, n.og, y.w.g_pa, y.w.g_pf, F32_ONE)
                && waits_for(i, c)
            &&& !p.fuse_norm && !p.gfuse ==> {
                let j = t.insts[at + 1];
                &&& adds(s, t, 2) && r == at + 1
                &&& adds_in_place(i, p, n, n.og, y.w.g_pa, F32_ONE) && waits_for(i, c)
                &&& is_norm(j, p, n.hn, n.x, if p.gemma { y.w.g_pf } else { y.w.g_pa })
                &&& waits_for(j, at as u32)
                &&& p.qnorm_fuse ==> j.args.t3 == n.xqh && j.args.t4 == n.ash
                &&& !p.qnorm_fuse ==> leaves_no_copy(j)
            }
        }),
{
    reveal(post_attention);
}

} // verus!
