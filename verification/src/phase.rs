//! What one program of a dense model is emitted from: the request, and what follows from it.
use vstd::prelude::*;

use crate::arith::{
    ceil_div, div_ceil, gcd, gcd_of, gcd_is_greatest, larger, max_u32, min_u32, smaller, clamp_u32,
    POW2_TOP,
};
use crate::config::{Arch, Cfg};
use crate::emit_config::EmitConfig;
use crate::gemm::{glu_fused, glu_fusion_wins, has_tile, Field, QuantScheme, TileTable};
use crate::isa::{F32_ONE, TENSOR_NONE};
use crate::shape::{
    chunk_of, chunk_ok, dense_flash_split, fa_gf_full, flash_merge_dsplit, flash_split,
    gemv_staged_rows, group_factor, kv_heads_split, kv_ring, kvh_local, local_kv_heads, max_chunk,
    merge_dsplit, ring_of, ring_ok, staged_rows, Q_TILE_ROWS, WAVES,
};
use crate::target::{geometry, geometry_of, ArchGeometry, IsaLevel};
use crate::tensors::{LayerCache, Tn, LW};

verus! {

/// The shape and the kernels of a program. Prefill takes a chunk of rows on tiled products; decode
/// takes one row of each sequence, on row products or, tiled, on the products of prefill.
#[derive(Clone, Copy, PartialEq, Eq, Debug, Structural)]
pub enum Mode {
    Prefill,
    Decode,
    DecodeTiled,
}

impl Mode {
    /// Whether the program appends one row of each sequence.
    pub fn decode_shape(self) -> (r: bool)
        ensures
            r == (self != Mode::Prefill),
    {
        self != Mode::Prefill
    }

    /// Whether the program runs on row products.
    pub fn gemv(self) -> (r: bool)
        ensures
            r == (self == Mode::Decode),
    {
        self == Mode::Decode
    }
}

/// What a program is asked for.
#[derive(Clone, Copy, PartialEq, Eq, Debug, Structural)]
pub struct Request {
    /// Rows of the program, and rows of the context.
    pub t: u32,
    pub ctx: u32,
    pub mode: Mode,
    pub n_cu: u32,
    pub fp8: bool,
    pub w8a8: bool,
    pub fp8_kv: bool,
    pub fp8_kv_full: bool,
    /// Whether the weights are four bits wide.
    pub mxfp4: bool,
    /// The layers `first..end`.
    pub first: u32,
    pub end: u32,
    /// Whether the layers stand alone, without embedding and head.
    pub block_mode: bool,
    pub amd: bool,
    /// Whether the target's tiles are priced.
    pub priced: bool,
    pub isa: IsaLevel,
}

/// Halves of a part's decode arena; none where its geometry is not known.
pub open spec fn arena_of(isa: IsaLevel) -> int {
    match geometry_of(isa) {
        Some(g) => g.arena(),
        None => 0,
    }
}

/// Halves of a part's decode arena.
pub fn gm_lds_halves(isa: IsaLevel) -> (r: u64)
    requires
        geometry_of(isa) is Some,
    ensures
        r == arena_of(isa),
{
    proof {
        decode_arenas(isa);
    }
    match geometry(isa) {
        Some(g) => g.decode_arena_halves(),
        None => 0,
    }
}

/// The decode arenas of the parts.
pub proof fn decode_arenas(isa: IsaLevel)
    ensures
        isa == IsaLevel::Gfx942 ==> arena_of(isa) == 15_360,
        isa == IsaLevel::Gfx950 || isa == IsaLevel::Sm120 ==> arena_of(isa) == 73_728,
        arena_of(isa) <= 73_728,
        match geometry_of(isa) {
            Some(g) => g.gemm_stage_buffers * (g.bm + g.bn) <= 1024,
            None => true,
        },
{
    match geometry_of(isa) {
        Some(g) => {
            if isa == IsaLevel::Gfx942 {
                arena_is(g, 1, 128, 256, 32);
            } else {
                arena_is(g, 2, 256, 256, 64);
            }
        },
        None => {},
    }
}

proof fn arena_is(g: ArchGeometry, b: int, m: int, n: int, k: int)
    requires
        g.gemm_stage_buffers == b,
        g.bm == m,
        g.bn == n,
        g.bk == k,
    ensures
        g.arena() == b * (m + n) * (k + 8),
        g.gemm_stage_buffers * (g.bm + g.bn) == b * (m + n),
{
}

/// What holds for a whole program.
#[derive(Clone, Copy, PartialEq, Eq, Debug, Structural)]
pub struct Phase {
    pub t: u32,
    pub ctx: u32,
    pub n_cu: u32,
    pub tp: u32,
    /// This device's share of the query heads and of the inner width.
    pub heads: u32,
    pub inter: u32,
    pub hidden: u32,
    pub vocab: u32,
    pub decode: bool,
    pub gemv: bool,
    pub fp8: bool,
    pub w8a8: bool,
    /// Whether the weights are four bits wide.
    pub mx: bool,
    pub amd: bool,
    pub priced: bool,
    pub block_mode: bool,
    pub gemma: bool,
    pub moe: bool,
    /// Whether a decode program carries its row count even at one row.
    pub seq_rows: bool,
    pub tma: bool,
    /// Workgroups of a row-wise step, and of a reduction over the devices.
    pub rows: u32,
    pub xr: u32,
    /// `t * hidden`, `t * inter`, `t * heads`.
    pub th: u32,
    pub ti: u32,
    pub t_heads: u32,
    /// Byte offset of the second reduction window.
    pub slot_b: u32,
    /// Splits of the attention, and whether the flash kernel writes its output itself.
    pub ns: u32,
    pub fused: bool,
    /// Whether the norms write the narrow copy too, and the gating that of its product. A norm that
    /// adds the residual as it goes has no room for one.
    pub qnorm_fuse: bool,
    pub fuse_norm: bool,
    pub gfuse: bool,
    /// Whether row products finish the norm of their own input. Tiled products have no such arm.
    pub fuse_nrn: bool,
    pub stages: bool,
    pub gemm_glu: bool,
    pub eps: u32,
    pub mlp_act: u32,
    pub n_exp: u32,
    pub top_k: u32,
    pub moe_inter: u32,
    pub root: u32,
    /// The batch as a mixture step writes it: zero for one row.
    pub nb: u32,
}

/// Whether the norm after an expert stage can be folded into the next product: a row must fit the
/// registers of a norm and, beside its scratch, the arena.
pub open spec fn nrn_fits(k: EmitConfig, t: int, hidden: int, isa: IsaLevel) -> bool {
    hidden % 8 == 0 && hidden <= 8192 && staged_rows(k, t) * hidden + 16 <= arena_of(isa)
}

/// What follows from a request for the whole program.
#[verifier::opaque]
pub open spec fn phase_of(k: EmitConfig, c: Cfg, tab: TileTable, xr: u32, q: Request) -> Phase {
    let decode = q.mode != Mode::Prefill;
    let gemv = q.mode == Mode::Decode;
    let heads = (c.heads / c.tp) as u32;
    let inter = (c.inter / c.tp) as u32;
    let split = flash_split(
        gemv,
        k.packed_prefill,
        q.n_cu as int,
        heads as int,
        q.t as int,
    );
    let gemma = c.arch == Arch::Gemma4;
    let gfuse = gemma && (gemv || k.pf_gfuse);
    Phase {
        t: q.t,
        ctx: q.ctx,
        n_cu: q.n_cu,
        tp: c.tp,
        heads,
        inter,
        hidden: c.hidden,
        vocab: c.vocab,
        decode,
        gemv,
        fp8: q.fp8,
        w8a8: q.w8a8,
        mx: q.mxfp4,
        amd: q.amd,
        priced: q.priced,
        block_mode: q.block_mode,
        gemma,
        moe: c.moe,
        seq_rows: k.decode_ladder,
        tma: k.tma_gemm,
        rows: larger(smaller(q.t as int, q.n_cu as int), 1) as u32,
        xr: larger(
            1,
            smaller(
                match k.xr_cus {
                    Some(v) => v as int,
                    None => 32,
                },
                q.n_cu as int,
            ),
        ) as u32,
        th: (q.t * c.hidden) as u32,
        ti: (q.t * inter) as u32,
        t_heads: (q.t * heads) as u32,
        slot_b: (smaller(q.ctx as int, chunk_of(k, c.window as int)) * c.hidden * 2) as u32,
        ns: split.0 as u32,
        fused: split.1,
        qnorm_fuse: q.w8a8 && !gemv && (k.qnorm_fuse || (q.amd && k.fuse_quant)),
        fuse_norm: !gemma && gemv,
        gfuse,
        fuse_nrn: gfuse && gemv && q.fp8 && q.amd && !q.block_mode && xr != TENSOR_NONE
            && nrn_fits(k, q.t as int, c.hidden as int, q.isa),
        stages: gemv && staged_rows(k, q.t as int) * c.hidden <= arena_of(q.isa),
        gemm_glu: !gemv && !q.mxfp4 && glu_fused(q.priced, k.no_glu_fuse, tab, q.t, inter, c.hidden),
        eps: c.eps,
        mlp_act: c.mlp_act,
        n_exp: c.n_exp,
        top_k: c.top_k,
        moe_inter: c.moe_inter,
        root: c.router_root,
        nb: if decode && q.t > 1 { q.t } else { 0 },
    }
}

/// Whether a request can be emitted: the sizes that its program names fit their fields.
pub open spec fn phase_ok(k: EmitConfig, c: Cfg, q: Request) -> bool {
    &&& c.tp > 0
    &&& c.heads / c.tp > 0
    &&& q.n_cu > 0
    &&& q.t <= POW2_TOP
    &&& chunk_ok(k)
    &&& c.window <= POW2_TOP
    &&& geometry_of(q.isa) is Some
    &&& q.t * c.hidden <= u32::MAX
    &&& q.t * (c.inter / c.tp) <= u32::MAX
    &&& q.t * (c.heads / c.tp) <= u32::MAX
    &&& ceil_div(q.t as int, Q_TILE_ROWS as int) * (c.heads / c.tp) <= u32::MAX
    &&& smaller(q.ctx as int, chunk_of(k, c.window as int)) * c.hidden * 2 <= u32::MAX
}

/// Whether the question of a fused gated product has an answer for a request: row products and
/// products of four-bit weights never ask it.
pub open spec fn glu_priced(c: Cfg, tab: TileTable, q: Request) -> bool {
    q.mode == Mode::Decode || q.mxfp4 || has_tile(
        q.priced,
        tab,
        q.t,
        (c.inter / c.tp) as u32,
        c.hidden,
        QuantScheme::Plain,
        Field::GluRungs,
    )
}

impl Phase {
    /// What follows from a request for the whole program.
    pub fn new(k: &EmitConfig, c: &Cfg, tab: &TileTable, xr: u32, q: Request) -> (r: Phase)
        requires
            phase_ok(*k, *c, q),
            glu_priced(*c, *tab, q),
        ensures
            r == phase_of(*k, *c, *tab, xr, q),
    {
        proof {
            reveal(phase_of);
        }
        let decode: bool = q.mode.decode_shape();
        let gemv: bool = q.mode.gemv();
        let heads: u32 = c.heads / c.tp;
        let inter: u32 = c.inter / c.tp;
        let (ns, fused) = dense_flash_split(gemv, k.packed_prefill, q.n_cu, heads, q.t);
        let gemma: bool = c.arch == Arch::Gemma4;
        let gfuse: bool = gemma && (gemv || k.pf_gfuse);
        let rows_max: u32 = min_u32(q.ctx, max_chunk(k, c.window));
        let xr_want: u32 = match k.xr_cus {
            Some(v) => v,
            None => 32,
        };
        let staged: u32 = gemv_staged_rows(k, q.t);
        proof {
            crate::arith::mul_le(staged as int, c.hidden as int, q.t as int, c.hidden as int);
            assert(rows_max * c.hidden <= rows_max * c.hidden * 2) by (nonlinear_arith);
        }
        let row_halves: u64 = staged as u64 * c.hidden as u64;
        let arena: u64 = gm_lds_halves(q.isa);
        let nrn_ok: bool = c.hidden % 8 == 0 && c.hidden <= 8192 && row_halves + 16 <= arena;
        Phase {
            t: q.t,
            ctx: q.ctx,
            n_cu: q.n_cu,
            tp: c.tp,
            heads,
            inter,
            hidden: c.hidden,
            vocab: c.vocab,
            decode,
            gemv,
            fp8: q.fp8,
            w8a8: q.w8a8,
            mx: q.mxfp4,
            amd: q.amd,
            priced: q.priced,
            block_mode: q.block_mode,
            gemma,
            moe: c.moe,
            seq_rows: k.decode_ladder,
            tma: k.tma_gemm,
            rows: max_u32(min_u32(q.t, q.n_cu), 1),
            xr: clamp_u32(xr_want, 1, q.n_cu),
            th: q.t * c.hidden,
            ti: q.t * inter,
            t_heads: q.t * heads,
            slot_b: rows_max * c.hidden * 2,
            ns,
            fused,
            qnorm_fuse: q.w8a8 && !gemv && (k.qnorm_fuse || (q.amd && k.fuse_quant)),
            fuse_norm: !gemma && gemv,
            gfuse,
            fuse_nrn: gfuse && gemv && q.fp8 && q.amd && !q.block_mode && xr != TENSOR_NONE
                && nrn_ok,
            stages: gemv && row_halves <= arena,
            gemm_glu: !gemv && !q.mxfp4 && glu_fusion_wins(
                q.priced,
                k.no_glu_fuse,
                tab,
                q.t,
                inter,
                c.hidden,
            ),
            eps: c.eps,
            mlp_act: c.mlp_act,
            n_exp: c.n_exp,
            top_k: c.top_k,
            moe_inter: c.moe_inter,
            root: c.router_root,
            nb: if decode && q.t > 1 { q.t } else { 0 },
        }
    }
}

/// What holds for one layer of a program.
#[derive(Clone, Copy, PartialEq, Eq, Debug, Structural)]
pub struct Layer {
    /// Whether this is the first layer of the program, and the last.
    pub first: bool,
    pub last: bool,
    pub full: bool,
    pub fp8_kv: bool,
    pub keqv: bool,
    pub hd: u32,
    pub kvh: u32,
    pub qd: u32,
    pub kd: u32,
    pub cs: u32,
    pub sn: u32,
    pub win: u32,
    pub qk_skip: u32,
    pub v_skip: u32,
    pub fuse_qkv: bool,
    pub fuse_qkv_fp8: bool,
    pub kvr: u32,
    pub kvm: u32,
    pub gf: u32,
    pub ns: u32,
    pub nhn: u32,
    pub hn_split: bool,
    pub fuse_hnr: bool,
    pub fuse_merge: bool,
    pub dsplit: u32,
    pub attn_scale: u32,
    pub cache: LayerCache,
    pub w: LW,
    /// The norm of the next layer's input, or of the head's.
    pub next_gin: u32,
    /// The layer's residual scale.
    pub scalar: u32,
}

/// Whether a model mixes windowed and full layers with enough key/value heads that a long context
/// wants more splits.
pub open spec fn mixed_wide(c: Cfg) -> bool {
    c.kvh_full >= 4 && c.kvh_slide != c.kvh_full
}

/// `ns` rounded up to whole rounds of the grid, unless that passes `top`.
pub open spec fn grid_aligned(ns: int, heads: int, gf: int, n_cu: int, top: int) -> int {
    let groups = larger(heads / gf, 1);
    let step = n_cu / larger(gcd_of(groups as nat, n_cu as nat) as int, 1);
    let cand = ceil_div(ns, step) * step;
    if cand <= top { cand } else { ns }
}

/// The splits of a decode layer's attention.
///
/// Every compute unit gets a share of some head, twice that on a long context. A long context of a
/// model with both kinds of layer takes at least sixteen, and its full layers, like the full
/// layers of a single-key model with a narrow cache, whole rounds of the grid. A windowed layer
/// takes no more than one split to sixty-four rows where the cache is narrow or the part is
/// `gfx942`. A chosen number of splits overrides all of this.
pub open spec fn decode_splits(
    k: EmitConfig,
    c: Cfg,
    q: Request,
    heads: int,
    full: bool,
    fp8_kv: bool,
) -> int {
    let n_cu = q.n_cu as int;
    let long = q.ctx > 8192;
    let mul = match k.ns_mul {
        Some(v) => v as int,
        None => if long { 2int } else { 1int },
    };
    let gf = group_factor(k) as int;
    let win: int = if full { 0int } else { c.window as int };
    let base = larger(ceil_div(n_cu * mul, c.heads as int), 1);
    let wide = if long && mixed_wide(c) { larger(base, 16) } else { base };
    let aligned = if full && long && mixed_wide(c) {
        grid_aligned(wide, heads, gf, n_cu, 64)
    } else {
        wide
    };
    let single = if full && long && c.kvh_full == 1 && fp8_kv {
        grid_aligned(aligned, heads, gf, n_cu, 128)
    } else {
        aligned
    };
    let narrow = q.amd && q.isa == IsaLevel::Gfx942;
    let held = if !full && win > 0 && (fp8_kv || narrow) {
        smaller(single, larger(win / 64, 1))
    } else {
        single
    };
    let abs = match k.ns_abs {
        Some(v) => v as int,
        None => held,
    };
    match k.ns_full_abs {
        Some(v) => if full { v as int } else { abs },
        None => abs,
    }
}

/// The splits of a decode layer's attention are never zero, unless zero is chosen.
pub proof fn decode_splits_are_positive(
    k: EmitConfig,
    c: Cfg,
    q: Request,
    heads: int,
    full: bool,
    fp8_kv: bool,
)
    requires
        k.ns_abs != Some(0u32),
        k.ns_full_abs != Some(0u32),
        q.n_cu > 0,
    ensures
        decode_splits(k, c, q, heads, full, fp8_kv) >= 1,
{
    let n_cu = q.n_cu as int;
    let long = q.ctx > 8192;
    let mul = match k.ns_mul {
        Some(v) => v as int,
        None => if long { 2int } else { 1int },
    };
    let gf = group_factor(k) as int;
    let base = larger(ceil_div(n_cu * mul, c.heads as int), 1);
    let wide = if long && mixed_wide(c) { larger(base, 16) } else { base };
    grid_aligned_is_positive(wide, heads, gf, n_cu, 64);
    let aligned = if full && long && mixed_wide(c) {
        grid_aligned(wide, heads, gf, n_cu, 64)
    } else {
        wide
    };
    grid_aligned_is_positive(aligned, heads, gf, n_cu, 128);
}

proof fn grid_aligned_is_positive(ns: int, heads: int, gf: int, n_cu: int, top: int)
    requires
        ns >= 1,
        n_cu > 0,
    ensures
        grid_aligned(ns, heads, gf, n_cu, top) >= 1,
{
    let groups = larger(heads / gf, 1);
    let step = n_cu / larger(gcd_of(groups as nat, n_cu as nat) as int, 1);
    grid_step_is_positive(groups, n_cu);
    crate::arith::ceil_div_bounds(ns, step);
}

/// The grid step is at least one.
proof fn grid_step_is_positive(groups: int, n_cu: int)
    requires
        groups >= 1,
        n_cu > 0,
    ensures
        0 < n_cu / larger(gcd_of(groups as nat, n_cu as nat) as int, 1) <= n_cu,
{
    let g = gcd_of(groups as nat, n_cu as nat) as int;
    gcd_is_greatest(groups as nat, n_cu as nat);
    let q = choose|q: int| n_cu == #[trigger] (g * q);
    assert(q >= 1) by (nonlinear_arith)
        requires
            n_cu == g * q,
            n_cu > 0,
            g > 0,
    ;
    assert(g * q == q * g) by (nonlinear_arith);
    vstd::arithmetic::div_mod::lemma_div_multiples_vanish(q, g);
    assert(q <= n_cu) by (nonlinear_arith)
        requires
            n_cu == g * q,
            g >= 1,
            q >= 1,
    ;
}

fn align_to_grid(ns: u32, heads: u32, gf: u32, n_cu: u32, top: u32) -> (r: u32)
    requires
        gf > 0,
        n_cu > 0,
    ensures
        r == grid_aligned(ns as int, heads as int, gf as int, n_cu as int, top as int),
{
    let groups: u32 = max_u32(heads / gf, 1);
    let g: u32 = gcd(groups, n_cu);
    proof {
        grid_step_is_positive(groups as int, n_cu as int);
    }
    let step: u32 = n_cu / g;
    let rounds: u32 = div_ceil(ns, step);
    proof {
        crate::arith::ceil_div_bounds(ns as int, step as int);
        crate::arith::mul_le(rounds as int, step as int, u32::MAX as int, u32::MAX as int);
    }
    let cand: u64 = rounds as u64 * step as u64;
    if cand <= top as u64 { cand as u32 } else { ns }
}

/// The splits of a decode layer's attention.
pub fn decode_nsplit(
    k: &EmitConfig,
    c: &Cfg,
    q: Request,
    heads: u32,
    full: bool,
    fp8_kv: bool,
) -> (r: u32)
    requires
        c.heads > 0,
        q.n_cu > 0,
        q.n_cu * (match k.ns_mul {
            Some(v) => v as int,
            None => if q.ctx > 8192 { 2int } else { 1int },
        }) <= u32::MAX,
    ensures
        r == decode_splits(*k, *c, q, heads as int, full, fp8_kv),
{
    let long: bool = q.ctx > 8192;
    let mul: u32 = match k.ns_mul {
        Some(v) => v,
        None => if long { 2 } else { 1 },
    };
    let gf: u32 = fa_gf_full(k);
    let win: u32 = if full { 0 } else { c.window };
    let mixed: bool = c.kvh_full >= 4 && c.kvh_slide != c.kvh_full;
    let ns: u32 = max_u32(div_ceil(q.n_cu * mul, c.heads), 1);
    let ns: u32 = if long && mixed { max_u32(ns, 16) } else { ns };
    let ns: u32 = if full && long && mixed {
        align_to_grid(ns, heads, gf, q.n_cu, 64)
    } else {
        ns
    };
    let ns: u32 = if full && long && c.kvh_full == 1 && fp8_kv {
        align_to_grid(ns, heads, gf, q.n_cu, 128)
    } else {
        ns
    };
    let narrow: bool = q.amd && q.isa == IsaLevel::Gfx942;
    let ns: u32 = if !full && win > 0 && (fp8_kv || narrow) {
        min_u32(ns, max_u32(win / 64, 1))
    } else {
        ns
    };
    let ns: u32 = match k.ns_abs {
        Some(v) => v,
        None => ns,
    };
    match k.ns_full_abs {
        Some(v) => if full { v } else { ns },
        None => ns,
    }
}

/// The multiple of the compute units that a decode layer's splits start from.
pub open spec fn split_multiple(k: EmitConfig, ctx: u32) -> int {
    match k.ns_mul {
        Some(v) => v as int,
        None => if ctx > 8192 { 2int } else { 1int },
    }
}

/// What follows from a request for one layer.
#[verifier::opaque]
pub open spec fn layer_of(
    k: EmitConfig,
    c: Cfg,
    q: Request,
    p: Phase,
    n: Tn,
    cache: LayerCache,
    w: LW,
    next_gin: u32,
    scalar: u32,
    l: u32,
) -> Layer {
    let full = c.is_full@[l as int];
    let fp8_kv = q.fp8_kv && (full || !q.fp8_kv_full);
    let hd = if full { c.hd_full } else { c.hd_slide };
    let kvh = local_kv_heads(
        (if full { c.kvh_full } else { c.kvh_slide }) as int,
        c.tp as int,
    ) as u32;
    let keqv = full && c.k_eq_v;
    let ring = ring_of(full, q.ctx as int, c.window as int, chunk_of(k, c.window as int));
    let win = if full { 0 } else { c.window };
    let ns = if p.gemv {
        decode_splits(k, c, q, p.heads as int, full, fp8_kv) as u32
    } else {
        p.ns
    };
    let nhn = larger(smaller(ceil_div(p.t_heads as int, 8), q.n_cu as int), 1) as u32;
    let fuse_qkv_fp8 = p.gemv && !keqv && p.fp8 && p.amd && p.stages && k.fuse_qkv_fp8;
    let fuse_hnr = {
        &&& p.gemv
        &&& p.amd
        &&& p.t == 1
        &&& !fp8_kv
        &&& p.fp8
        &&& !fuse_qkv_fp8
        &&& p.gemma
        &&& c.has_qk_norm
        &&& c.has_v_norm
        &&& c.attn_scale == F32_ONE
        &&& win < 0x100_0000
        &&& ring.0 < 0x10_0000
        &&& ns < 0x1000
        &&& p.heads < 0x1_0000
        &&& k.fuse_hnr
    };
    Layer {
        first: l == q.first,
        last: l + 1 >= q.end,
        full,
        fp8_kv,
        keqv,
        hd,
        kvh,
        qd: (p.heads * hd) as u32,
        kd: (kvh * hd) as u32,
        cs: if full { n.cos_f } else { n.cos_s },
        sn: if full { n.sin_f } else { n.sin_s },
        win,
        qk_skip: if c.has_qk_norm { 0 } else { 1 },
        v_skip: if c.has_v_norm { 0 } else { 1 },
        fuse_qkv: p.gemv && !keqv && !p.fp8 && !p.mx && p.stages && !k.no_fuse_qkv,
        fuse_qkv_fp8,
        kvr: ring.0 as u32,
        kvm: ring.1 as u32,
        gf: group_factor(k),
        ns,
        nhn,
        hn_split: 3 * nhn <= q.n_cu && k.hn_split,
        fuse_hnr,
        fuse_merge: fuse_hnr && n.mrgc != TENSOR_NONE,
        dsplit: merge_dsplit(k) as u32,
        attn_scale: c.attn_scale,
        cache,
        w,
        next_gin,
        scalar,
    }
}

/// Whether what follows for a layer can be worked out.
#[verifier::opaque]
pub open spec fn layer_inputs_ok(k: EmitConfig, c: Cfg, q: Request, p: Phase, l: u32) -> bool {
    let full = c.is_full@[l as int];
    let hd = if full { c.hd_full } else { c.hd_slide };
    let kvh = (if full { c.kvh_full } else { c.kvh_slide }) as int;
    &&& l < c.is_full@.len()
    &&& l < u32::MAX
    &&& kv_heads_split(kvh, c.tp as int)
    &&& ring_ok(full, q.ctx as int, c.window as int, chunk_of(k, c.window as int))
    &&& p.heads * hd <= u32::MAX
    &&& local_kv_heads(kvh, c.tp as int) * hd <= u32::MAX
    &&& c.heads > 0
    &&& q.n_cu <= u32::MAX / WAVES
    &&& p.gemv ==> q.n_cu * split_multiple(k, q.ctx) <= u32::MAX
}

impl Layer {
    /// What follows from a request for one layer.
    pub fn new(
        k: &EmitConfig,
        c: &Cfg,
        q: Request,
        p: &Phase,
        n: &Tn,
        cache: LayerCache,
        w: LW,
        next_gin: u32,
        scalar: u32,
        l: u32,
    ) -> (r: Layer)
        requires
            phase_ok(*k, *c, q),
            layer_inputs_ok(*k, *c, q, *p, l),
        ensures
            r == layer_of(*k, *c, q, *p, *n, cache, w, next_gin, scalar, l),
    {
        proof {
            reveal(layer_of);
            reveal(layer_inputs_ok);
        }
        let full: bool = c.is_full[l as usize];
        let fp8_kv: bool = q.fp8_kv && (full || !q.fp8_kv_full);
        let hd: u32 = if full { c.hd_full } else { c.hd_slide };
        let kvh: u32 = kvh_local(if full { c.kvh_full } else { c.kvh_slide }, c.tp);
        let keqv: bool = full && c.k_eq_v;
        let (kvr, kvm) = kv_ring(full, q.ctx, c.window, max_chunk(k, c.window));
        let win: u32 = if full { 0 } else { c.window };
        let ns: u32 = if p.gemv {
            decode_nsplit(k, c, q, p.heads, full, fp8_kv)
        } else {
            p.ns
        };
        let nhn: u32 = max_u32(min_u32(div_ceil(p.t_heads, 8), q.n_cu), 1);
        let fuse_qkv_fp8: bool = p.gemv && !keqv && p.fp8 && p.amd && p.stages && k.fuse_qkv_fp8;
        let fuse_hnr: bool = p.gemv && p.amd && p.t == 1 && !fp8_kv && p.fp8 && !fuse_qkv_fp8
            && p.gemma && c.has_qk_norm && c.has_v_norm && c.attn_scale == F32_ONE && win
            < 0x100_0000 && kvr < 0x10_0000 && ns < 0x1000 && p.heads < 0x1_0000 && k.fuse_hnr;
        Layer {
            first: l == q.first,
            last: l + 1 >= q.end,
            full,
            fp8_kv,
            keqv,
            hd,
            kvh,
            qd: p.heads * hd,
            kd: kvh * hd,
            cs: if full { n.cos_f } else { n.cos_s },
            sn: if full { n.sin_f } else { n.sin_s },
            win,
            qk_skip: if c.has_qk_norm { 0 } else { 1 },
            v_skip: if c.has_v_norm { 0 } else { 1 },
            fuse_qkv: p.gemv && !keqv && !p.fp8 && !p.mx && p.stages && !k.no_fuse_qkv,
            fuse_qkv_fp8,
            kvr,
            kvm,
            gf: fa_gf_full(k),
            ns,
            nhn,
            hn_split: 3 * nhn <= q.n_cu && k.hn_split,
            fuse_hnr,
            fuse_merge: fuse_hnr && n.mrgc != TENSOR_NONE,
            dsplit: flash_merge_dsplit(k),
            attn_scale: c.attn_scale,
            cache,
            w,
            next_gin,
            scalar,
        }
    }
}

} // verus!
