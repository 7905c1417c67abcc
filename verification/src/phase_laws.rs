//! What follows for a program and its layers from what was asked for.
use vstd::prelude::*;

use crate::arith::{ceil_div, ceil_div_bounds, larger, next_pow2, smaller};
use crate::attention::{flash, head_norms, input_norm, merge, o_proj, post_attention, qkv, Pending};
use crate::builder::Emitted;
use crate::config::{Arch, Cfg};
use crate::declare::RopeBytes;
use crate::dense::{asked, is_model, widths_of, DenseFor, Model, TmapBytes};
use crate::dense_phase::{layer_at, layer_step, program, up_to_layer};
use crate::emit_config::EmitConfig;
use crate::gemm::{glu_fused, TileTable};
use crate::isa::{F32_ONE, TENSOR_NONE};
use crate::mlp::{down_proj, early_router, experts, glu, layer_end};
use crate::phase::{arena_of, decode_splits, layer_of, phase_of, Layer, Mode, Phase, Request};
use crate::shape::{
    capped, capped_range, chunk_of, cut2, cut3, flash_split, local_kv_heads, ring_of, row_bucket,
    staged_rows, tile_count,
};
use crate::target::IsaLevel;
use crate::tensors::{LayerCache, Tensors, Tn, LW};

verus! {

/// A model's programs are its prefill widths and behind them its decode widths, in order. A prefill
/// takes the rows of its width, a decode step one row of each sequence of its; only a prefill has
/// narrow activations. All else is what the model was asked for.
pub proof fn programs_are_those_asked_for(
    m: Model,
    k: EmitConfig,
    c: Cfg,
    tab: TileTable,
    f: DenseFor,
    ls: Seq<u32>,
    wave: Seq<u32>,
    rope: RopeBytes,
    b: TmapBytes,
    tn: Tensors,
    i: int,
)
    requires
        is_model(m, k, c, tab, f, ls, wave, rope, b, tn),
        0 <= i < asked(k, c, f, wave).len(),
    ensures
        ({
            let q = asked(k, c, f, wave)[i];
            let none = c.moe && ((k.fp8 && !k.w8a8) || k.moe_prefill_off);
            let w = widths_of(k, c, f, wave);
            &&& m.prefills == (if none { 0 } else { w.len() })
            &&& asked(k, c, f, wave).len() == m.prefills + k.decode_rungs@.len()
            &&& q.mode == Mode::Prefill <==> i < m.prefills
            &&& q.mode == Mode::DecodeTiled <==> i >= m.prefills && k.decode_tiled
            &&& i < m.prefills ==> q.t == w[i]
            &&& i >= m.prefills ==> q.t == k.decode_rungs@[i - m.prefills]
            &&& m.prog_t@[i] == q.t
            &&& q.w8a8 <==> k.w8a8 && i < m.prefills
            &&& q.fp8 == k.fp8 && q.mxfp4 == k.mxfp4 && q.fp8_kv == k.fp8_kv
            &&& q.fp8_kv_full <==> k.fp8_kv && k.fp8_kv_full
            &&& q.ctx == f.ctx && q.n_cu == f.n_cu && q.first == f.first && q.end == f.end
            &&& q.block_mode == f.block_mode && q.amd == f.amd && q.priced == f.priced && q.isa
                == f.isa
        }),
{
    reveal(is_model);
}

/// A program has the shape that it was asked for: its rows, its context, and this device's share of
/// the heads and of the inner width. It decodes unless it is a prefill, and runs on row products
/// only where it decodes and is not tiled.
pub proof fn a_program_has_the_shape_asked_for(
    k: EmitConfig,
    c: Cfg,
    tab: TileTable,
    xr: u32,
    q: Request,
)
    requires
        c.tp > 0,
        q.t * c.hidden <= u32::MAX,
        q.t * (c.inter / c.tp) <= u32::MAX,
        q.t * (c.heads / c.tp) <= u32::MAX,
        q.n_cu > 0,
        smaller(q.ctx as int, chunk_of(k, c.window as int)) * c.hidden * 2 <= u32::MAX,
    ensures
        ({
            let p = phase_of(k, c, tab, xr, q);
            &&& p.t == q.t && p.ctx == q.ctx && p.n_cu == q.n_cu && p.tp == c.tp
            &&& p.heads == c.heads / c.tp && p.inter == c.inter / c.tp
            &&& p.hidden == c.hidden && p.vocab == c.vocab
            &&& p.decode <==> q.mode != Mode::Prefill
            &&& p.gemv <==> q.mode == Mode::Decode
            &&& p.fp8 == q.fp8 && p.w8a8 == q.w8a8 && p.mx == q.mxfp4
            &&& p.amd == q.amd && p.priced == q.priced && p.block_mode == q.block_mode
            &&& p.gemma <==> c.arch == Arch::Gemma4
            &&& p.moe == c.moe && p.seq_rows == k.decode_ladder && p.tma == k.tma_gemm
            &&& 1 <= p.rows <= q.n_cu && (p.rows == q.t || (p.rows == q.n_cu && q.t > q.n_cu) || (
            p.rows == 1 && q.t == 0))
            &&& 1 <= p.xr <= q.n_cu && (k.xr_cus is None ==> p.xr <= 32)
            &&& k.xr_cus matches Some(v) ==> p.xr <= larger(v as int, 1)
            &&& p.th == q.t * c.hidden && p.ti == q.t * p.inter && p.t_heads == q.t * p.heads
            &&& p.slot_b == smaller(q.ctx as int, chunk_of(k, c.window as int)) * c.hidden * 2
            &&& p.nb == (if q.mode != Mode::Prefill && q.t > 1 { q.t } else { 0 })
            &&& p.eps == c.eps && p.mlp_act == c.mlp_act && p.root == c.router_root
            &&& p.n_exp == c.n_exp && p.top_k == c.top_k && p.moe_inter == c.moe_inter
        }),
{
    reveal(phase_of);
}

/// Which steps a program fuses. The family whose norms are folded folds them in row products, and
/// in tiled ones where it is told to; any other adds and norms in one step of a row program. Row
/// products gate in one step where their rows fit the arena, and tiled products where that tile
/// wins and weights are not four bits wide. Norms leave narrow copies only in tiled programs of
/// narrow activations. A norm is left to the products of e4m3 weights on an AMD part alone, where
/// the residual has a twin to keep it in and a row fits a norm's registers and the arena beside its
/// scratch.
pub proof fn a_program_fuses_what_it_can(
    k: EmitConfig,
    c: Cfg,
    tab: TileTable,
    xr: u32,
    q: Request,
)
    requires
        c.tp > 0,
    ensures
        ({
            let p = phase_of(k, c, tab, xr, q);
            let row = q.mode == Mode::Decode;
            let folds = c.arch == Arch::Gemma4;
            &&& p.fuse_norm <==> row && !folds
            &&& p.gfuse <==> folds && (row || k.pf_gfuse)
            &&& p.qnorm_fuse <==> q.w8a8 && !row && (k.qnorm_fuse || (q.amd && k.fuse_quant))
            &&& p.stages <==> row && staged_rows(k, q.t as int) * c.hidden <= arena_of(q.isa)
            &&& p.gemm_glu <==> !row && !q.mxfp4 && glu_fused(
                q.priced,
                k.no_glu_fuse,
                tab,
                q.t,
                (c.inter / c.tp) as u32,
                c.hidden,
            )
            &&& p.fuse_nrn <==> row && folds && q.fp8 && q.amd && !q.block_mode && xr
                != TENSOR_NONE && c.hidden % 8 == 0 && c.hidden <= 8192 && staged_rows(
                k,
                q.t as int,
            ) * c.hidden + 16 <= arena_of(q.isa)
        }),
{
    reveal(phase_of);
}

/// The attention of a tiled program is split until its items cover the compute units, and no
/// further: an item is 256 rows of a head. A packed one is never split. Of row products every
/// compute unit has a share of some head. An attention that is not split writes its output itself,
/// but not of row products.
pub proof fn attention_is_split_to_cover_the_units(
    k: EmitConfig,
    c: Cfg,
    tab: TileTable,
    xr: u32,
    q: Request,
)
    requires
        c.tp > 0,
        c.heads / c.tp > 0,
        q.n_cu > 0,
    ensures
        ({
            let p = phase_of(k, c, tab, xr, q);
            let row = q.mode == Mode::Decode;
            let items = larger(ceil_div(q.t as int, 256) * p.heads, 1);
            let (ns, fused) = flash_split(
                row,
                k.packed_prefill,
                q.n_cu as int,
                p.heads as int,
                q.t as int,
            );
            &&& p.fused == fused && p.ns == ns as u32 && ns >= 1
            &&& row ==> !fused && ns * p.heads >= q.n_cu && (ns - 1) * p.heads < q.n_cu
            &&& !row && k.packed_prefill ==> fused && ns == 1
            &&& !row && !k.packed_prefill ==> (fused <==> ns == 1) && ns * items >= q.n_cu && (ns
                - 1) * items < q.n_cu
        }),
{
    reveal(phase_of);
    let p = phase_of(k, c, tab, xr, q);
    let items = larger(ceil_div(q.t as int, 256) * p.heads, 1);
    ceil_div_bounds(q.n_cu as int, p.heads as int);
    ceil_div_bounds(q.n_cu as int, items);
}

/// A layer is of its kind: a full layer has the full heads, the full rotation and no window, a
/// sliding one the sliding heads, the sliding rotation and the model's window. Its keys and values
/// are narrow where caches are, and where only full layers' caches are, only in a full one. Its
/// value is its key only in a full layer of a model whose are. It is the first and the last of the
/// program by its number. It has the weights, the caches and the scale that it was given.
pub proof fn a_layer_is_of_its_kind(
    k: EmitConfig,
    c: Cfg,
    q: Request,
    p: Phase,
    n: Tn,
    cache: LayerCache,
    w: LW,
    next_gin: u32,
    scalar: u32,
    l: u32,
)
    requires
        p.heads * (if c.is_full@[l as int] { c.hd_full } else { c.hd_slide }) <= u32::MAX,
        local_kv_heads(
            (if c.is_full@[l as int] { c.kvh_full } else { c.kvh_slide }) as int,
            c.tp as int,
        ) * (if c.is_full@[l as int] { c.hd_full } else { c.hd_slide }) <= u32::MAX,
        0 <= local_kv_heads(
            (if c.is_full@[l as int] { c.kvh_full } else { c.kvh_slide }) as int,
            c.tp as int,
        ) <= u32::MAX,
    ensures
        ({
            let y = layer_of(k, c, q, p, n, cache, w, next_gin, scalar, l);
            let full = c.is_full@[l as int];
            &&& y.full == full
            &&& y.first <==> l == q.first
            &&& y.last <==> l + 1 >= q.end
            &&& full ==> y.hd == c.hd_full && y.cs == n.cos_f && y.sn == n.sin_f && y.win == 0
            &&& !full ==> y.hd == c.hd_slide && y.cs == n.cos_s && y.sn == n.sin_s && y.win
                == c.window
            &&& y.kvh == local_kv_heads(
                (if full { c.kvh_full } else { c.kvh_slide }) as int,
                c.tp as int,
            )
            &&& y.qd == p.heads * y.hd && y.kd == y.kvh * y.hd
            &&& y.fp8_kv <==> q.fp8_kv && (full || !q.fp8_kv_full)
            &&& y.keqv <==> full && c.k_eq_v
            &&& y.qk_skip == (if c.has_qk_norm { 0u32 } else { 1u32 })
            &&& y.v_skip == (if c.has_v_norm { 0u32 } else { 1u32 })
            &&& y.attn_scale == c.attn_scale
            &&& y.cache == cache && y.w == w && y.next_gin == next_gin && y.scalar == scalar
        }),
{
    reveal(layer_of);
}

/// A layer's cache holds the whole context without a mask, or a ring that is masked by its rows less
/// one. Its attention is split as its program's is, or, in a program of row products, by its own
/// rule. Head norms take one workgroup to eight heads, up to as many as there are, and stand side by
/// side where the three fit and they are told to.
pub proof fn a_layer_is_laid_out_for_its_cache(
    k: EmitConfig,
    c: Cfg,
    q: Request,
    p: Phase,
    n: Tn,
    cache: LayerCache,
    w: LW,
    next_gin: u32,
    scalar: u32,
    l: u32,
)
    requires
        q.n_cu > 0,
    ensures
        ({
            let y = layer_of(k, c, q, p, n, cache, w, next_gin, scalar, l);
            let full = c.is_full@[l as int];
            let ring = smaller(
                q.ctx as int,
                next_pow2(c.window + chunk_of(k, c.window as int) - 1),
            );
            &&& full ==> y.kvr == q.ctx && y.kvm == 0xFFFF_FFFFu32
            &&& !full && 0 < ring <= u32::MAX ==> y.kvr == ring && y.kvm == ring - 1
            &&& !p.gemv ==> y.ns == p.ns
            &&& p.gemv ==> y.ns == decode_splits(k, c, q, p.heads as int, full, y.fp8_kv) as u32
            &&& 1 <= y.nhn <= q.n_cu
            &&& y.nhn * 8 >= p.t_heads || y.nhn == q.n_cu
            &&& y.nhn == 1 || (y.nhn - 1) * 8 < p.t_heads
            &&& y.hn_split <==> k.hn_split && 3 * y.nhn <= q.n_cu
            &&& y.dsplit == (match k.flash_merge_dsplit {
                Some(v) => larger(v as int, 1),
                None => 1,
            })
            &&& y.gf == (match k.fa_gf_full {
                Some(v) => if v == 1 || v == 2 || v == 4 || v == 8 || v == 16 { v } else { 2 },
                None => 2,
            })
        }),
{
    reveal(layer_of);
    ceil_div_bounds(p.t_heads as int, 8);
}

/// Which steps a layer fuses. Its three products are one step only where row products gate in one
/// step and its value is not its key: of bf16 weights unless it is told not to, of e4m3 weights on an
/// AMD part where it is told to, and never of four-bit weights. Its attention norms its own heads
/// only in a step of one row of e4m3 weights and bf16 caches, on an AMD part, of the family whose
/// norms are folded, with norms of query, key and value and no scale on the scores, where its
/// numbers fit their fields; it then merges too where there is a counter for it.
pub proof fn a_layer_fuses_what_it_can(
    k: EmitConfig,
    c: Cfg,
    q: Request,
    p: Phase,
    n: Tn,
    cache: LayerCache,
    w: LW,
    next_gin: u32,
    scalar: u32,
    l: u32,
)
    requires
        0 < ring_of(
            c.is_full@[l as int],
            q.ctx as int,
            c.window as int,
            chunk_of(k, c.window as int),
        ).0 <= u32::MAX,
    ensures
        ({
            let y = layer_of(k, c, q, p, n, cache, w, next_gin, scalar, l);
            &&& y.fuse_qkv <==> p.gemv && p.stages && !y.keqv && !p.fp8 && !p.mx && !k.no_fuse_qkv
            &&& y.fuse_qkv_fp8 <==> p.gemv && p.stages && !y.keqv && p.fp8 && p.amd
                && k.fuse_qkv_fp8
            &&& y.fuse_hnr <==> k.fuse_hnr && p.gemv && p.amd && p.fp8 && p.gemma && p.t == 1
                && !y.fp8_kv && !y.fuse_qkv_fp8 && c.has_qk_norm && c.has_v_norm && c.attn_scale
                == F32_ONE && y.win < 0x100_0000 && y.kvr < 0x10_0000 && y.ns < 0x1000 && p.heads
                < 0x1_0000
            &&& y.fuse_merge <==> y.fuse_hnr && n.mrgc != TENSOR_NONE
        }),
{
    reveal(layer_of);
}

/// The splits of a decode layer's attention. A chosen number wins, one chosen for full layers over
/// one for all. Without one they are the fewest that give every compute unit a share of some head,
/// twice a share on a context over 8192 rows, where a model that mixes kinds of layer with four key
/// heads or more takes sixteen at least. Full layers may then take more, up to whole rounds of the
/// grid. A sliding layer takes no more than one to sixty-four rows of its window where its cache is
/// narrow or the part is gfx942.
pub proof fn decode_splits_follow_the_rule(
    k: EmitConfig,
    c: Cfg,
    q: Request,
    heads: int,
    full: bool,
    fp8_kv: bool,
)
    requires
        c.heads > 0,
        q.n_cu > 0,
    ensures
        ({
            let ns = decode_splits(k, c, q, heads, full, fp8_kv);
            let mul = match k.ns_mul {
                Some(v) => v as int,
                None => if q.ctx > 8192 { 2int } else { 1int },
            };
            let share = larger(ceil_div(q.n_cu * mul, c.heads as int), 1);
            let mixed = c.kvh_full >= 4 && c.kvh_slide != c.kvh_full;
            let base = if q.ctx > 8192 && mixed { larger(share, 16) } else { share };
            let held = !full && c.window > 0 && (fp8_kv || (q.amd && q.isa == IsaLevel::Gfx942));
            let most = larger(c.window as int / 64, 1);
            &&& full && k.ns_full_abs is Some ==> ns == k.ns_full_abs->0
            &&& !(full && k.ns_full_abs is Some) && k.ns_abs is Some ==> ns == k.ns_abs->0
            &&& k.ns_abs is None && !(full && k.ns_full_abs is Some) ==> {
                &&& !full && !held ==> ns == base
                &&& !full && held ==> ns == smaller(base, most)
                &&& full && (q.ctx <= 8192 || (!mixed && !(c.kvh_full == 1 && fp8_kv))) ==> ns
                    == base
            }
            &&& share * c.heads >= q.n_cu * mul
        }),
{
    let mul = match k.ns_mul {
        Some(v) => v as int,
        None => if q.ctx > 8192 { 2int } else { 1int },
    };
    assert(q.n_cu * mul >= 0) by (nonlinear_arith)
        requires
            q.n_cu > 0,
            mul >= 0,
    ;
    ceil_div_bounds(q.n_cu * mul, c.heads as int);
    let share = larger(ceil_div(q.n_cu * mul, c.heads as int), 1);
    assert(share * c.heads >= ceil_div(q.n_cu * mul, c.heads as int) * c.heads) by (nonlinear_arith)
        requires
            share >= ceil_div(q.n_cu * mul, c.heads as int),
            c.heads > 0,
    ;
}

/// Each layer of a program has its own weights, caches and scale; the norm behind it is the next
/// layer's, or the head's behind the last.
pub proof fn every_layer_has_its_own(
    k: EmitConfig,
    c: Cfg,
    tab: TileTable,
    q: Request,
    tn: Tensors,
    ls: Seq<u32>,
    l: int,
)
    requires
        0 <= l <= u32::MAX,
    ensures
        ({
            let y = layer_at(k, c, tab, q, tn, ls, l);
            &&& y.w == tn.layers@[l]
            &&& y.cache == tn.caches@[l]
            &&& y.scalar == ls[l]
            &&& y.full == c.is_full@[l]
            &&& y.first <==> l == q.first
            &&& l + 1 < q.end ==> y.next_gin == tn.layers@[l + 1].g_in && !y.last
            &&& l + 1 >= q.end ==> y.next_gin == tn.shared.fin && y.last
        }),
{
    reveal(layer_of);
}

/// A layer's steps come in order, and each waits for what it reads: the three products for the
/// normed input; the head norms for the products, the attention for the head norms, its merge for
/// the attention, the output projection for the merge, the sum for the projection; the router and
/// the gated product for the sum, the down projection for the gated product, the experts for the sum,
/// the router and the down projection, and the layer's end for the experts. A norm that was left to
/// this layer is used up unless its three products were one step.
pub proof fn the_steps_of_a_layer_come_in_order(
    s: Emitted,
    p: Phase,
    k: EmitConfig,
    tab: TileTable,
    y: Layer,
    n: Tn,
    dep: u32,
    pend: Option<Pending>,
)
    ensures
        ({
            let (a, c_in) = input_norm(s, p, y, n, dep);
            let (b, x) = qkv(a, p, k, tab, y, n, pend, c_in);
            let (d, h) = head_norms(b, p, y, n, x);
            let (e, c_attn) = flash(d, p, y, n, x, h);
            let (f, c_out) = merge(e, p, y, n, c_attn);
            let (g, c_proj) = o_proj(f, p, k, tab, y, n, c_out);
            let (i, c_sum) = post_attention(g, p, y, n, c_proj);
            let (j, c_route) = early_router(i, p, k, y, n, c_sum);
            let (m, c_gated) = glu(j, p, k, tab, y, n, c_sum);
            let (o, c_down) = down_proj(m, p, k, tab, y, n, c_gated);
            let (r, ffn) = experts(o, p, k, y, n, c_sum, c_route, c_down);
            layer_step(s, p, k, tab, y, n, dep, pend) == layer_end(
                r,
                p,
                y,
                n,
                ffn,
                if y.fuse_qkv || y.fuse_qkv_fp8 { pend } else { None },
            )
        }),
{
    reveal(layer_step);
}

/// A program's layers come one behind the other, each waiting for the one before, the first for the
/// embedding; a block has no embedding and no head.
pub proof fn the_layers_of_a_program_come_in_order(
    s: Emitted,
    k: EmitConfig,
    c: Cfg,
    tab: TileTable,
    q: Request,
    tn: Tensors,
    ls: Seq<u32>,
    l: int,
)
    requires
        q.first <= l < q.end,
    ensures
        ({
            let p = phase_of(k, c, tab, tn.shared.xr, q);
            let (a, dep, pend) = up_to_layer(s, k, c, tab, q, tn, ls, l);
            &&& up_to_layer(s, k, c, tab, q, tn, ls, l + 1) == layer_step(
                a,
                p,
                k,
                tab,
                layer_at(k, c, tab, q, tn, ls, l),
                tn.shared,
                dep,
                pend,
            )
            &&& l == q.first ==> pend is None
            &&& l == q.first && !q.block_mode ==> a.insts.len() == s.insts.len() + 1 && dep
                == s.insts.len() as u32
            &&& l == q.first && q.block_mode ==> a == s
            &&& q.block_mode ==> program(s, k, c, tab, q, tn, ls) == up_to_layer(
                s,
                k,
                c,
                tab,
                q,
                tn,
                ls,
                q.end as int,
            ).0
        }),
{
    assert(phase_of(k, c, tab, tn.shared.xr, q).block_mode == q.block_mode) by {
        reveal(phase_of);
    }
}

/// Two shares of the compute units are as their sizes: the first is no larger than its part of
/// them, and less than a unit smaller, as far as each keeps a unit.
pub proof fn two_shares_are_as_their_sizes(n: int, a: int, b: int)
    requires
        n >= 2,
        a > 0,
        b > 0,
    ensures
        ({
            let x = cut2(n, a, b);
            &&& x > 1 ==> x * (a + b) <= n * a
            &&& x < n - 1 ==> n * a < (x + 1) * (a + b)
        }),
{
    share_is_floor(n * a, a + b, cut2(n, a, b));
}

proof fn share_is_floor(m: int, t: int, x: int)
    requires
        t > 0,
    ensures
        x <= m / t ==> x * t <= m,
        x >= m / t ==> m < (x + 1) * t,
{
    vstd::arithmetic::div_mod::lemma_fundamental_div_mod(m, t);
    let q = m / t;
    assert(q * t == t * q && (q + 1) * t == q * t + t) by (nonlinear_arith);
    if x <= q {
        assert(x * t <= q * t) by (nonlinear_arith)
            requires
                x <= q,
                t > 0,
        ;
    }
    if x >= q {
        assert((x + 1) * t >= (q + 1) * t) by (nonlinear_arith)
            requires
                x >= q,
                t > 0,
        ;
    }
}

/// Three shares of the compute units are as their sizes: the first two are no larger than their
/// parts, as far as each keeps a unit; without a third, the second takes all that is left.
pub proof fn three_shares_are_as_their_sizes(n: int, a: int, b: int, c: int)
    requires
        n >= 3,
        a > 0,
        b > 0,
        c >= 0,
    ensures
        ({
            let (x, z) = cut3(n, a, b, c);
            &&& c == 0 ==> x == cut2(n, a, b) && z == n
            &&& c > 0 && x > 1 ==> x * (a + b + c) <= n * a
            &&& c > 0 && x < n - 2 ==> n * a < (x + 1) * (a + b + c)
            &&& c > 0 && z - x > 1 ==> (z - x) * (a + b + c) <= n * b
            &&& c > 0 && z < n - 1 ==> n * b < (z - x + 1) * (a + b + c)
        }),
{
    let (x, z) = cut3(n, a, b, c);
    share_is_floor(n * a, a + b + c, x);
    share_is_floor(n * b, a + b + c, z - x);
}

/// A cap on workgroups that is not zero takes the first so many of a share, and a share that has no
/// more is kept.
pub proof fn a_cap_takes_the_first_units(k: EmitConfig, lo: u32, hi: u32)
    requires
        lo <= hi,
    ensures
        ({
            let r = capped_range(k, crate::isa::CuRange { lo, hi });
            &&& r.lo == lo
            &&& k.gemv_wg is None || k.gemv_wg == Some(0u32) ==> r.hi == hi && capped(k, hi as int)
                == hi
            &&& k.gemv_wg matches Some(m) ==> m > 0 ==> r.hi == smaller(hi as int, lo + m)
                && capped(k, hi as int) == smaller(hi as int, m as int)
        }),
{
}

/// Macro tiles are 256 on a side, and cover the product with none to spare.
pub proof fn tiles_cover_a_product(m: int, n: int)
    requires
        m > 0,
        n > 0,
    ensures
        exists|a: int, b: int|
            #![trigger (a * b)]
            tile_count(m, n) == a * b && a * 256 >= m && (a - 1) * 256 < m && b * 256 >= n && (b
                - 1) * 256 < n,
{
    ceil_div_bounds(m, 256);
    ceil_div_bounds(n, 256);
    let a = ceil_div(m, 256);
    let b = ceil_div(n, 256);
    assert(tile_count(m, n) == a * b);
}

/// A row bucket is a chosen one between one and sixteen, or else the least power of two that holds
/// the rows, up to sixteen. Rows are staged all at once, or, walked, a bucket of them.
pub proof fn rows_are_staged_by_buckets(k: EmitConfig, t: int)
    requires
        t >= 1,
    ensures
        1 <= row_bucket(k, t) <= 16,
        k.gemv_mm is None && t <= 16 ==> row_bucket(k, t) >= t && row_bucket(k, t) < 2 * t,
        k.gemv_mm is None && t > 16 ==> row_bucket(k, t) == 16,
        k.gemv_mm matches Some(v) ==> 1 <= v <= 16 ==> row_bucket(k, t) == v,
        !k.gemv_walk ==> staged_rows(k, t) == t,
        k.gemv_walk ==> staged_rows(k, t) == smaller(t, row_bucket(k, t)),
{
    crate::arith::next_pow2_is_least(t);
    if t > 16 {
        crate::arith::next_pow2_monotone(17, t);
        reveal_with_fuel(next_pow2, 7);
    }
    twice(t);
}

proof fn twice(t: int)
    requires
        t >= 1,
    ensures
        next_pow2(t) < 2 * t,
    decreases t,
{
    if t > 1 {
        twice((t + 1) / 2);
    }
}

/// A chunk is a chosen one, or else the widest where there is no window, and the least power of two
/// that holds the window between 128 and 8192.
pub proof fn chunks_hold_the_window(k: EmitConfig, window: int)
    requires
        window >= 0,
    ensures
        k.max_chunk matches Some(v) ==> chunk_of(k, window) == v,
        k.max_chunk is None && window == 0 ==> chunk_of(k, window) == 8192,
        k.max_chunk is None && 0 < window <= 128 ==> chunk_of(k, window) == 128,
        k.max_chunk is None && 128 < window <= 8192 ==> window <= chunk_of(k, window) < 2 * window,
        k.max_chunk is None && window > 8192 ==> chunk_of(k, window) == 8192,
{
    crate::arith::next_pow2_is_least(window);
    if window >= 1 {
        twice(window);
    }
    if 0 < window <= 128 {
        crate::arith::next_pow2_monotone(window, 128);
        reveal_with_fuel(next_pow2, 9);
    }
    if 128 < window <= 8192 {
        crate::arith::next_pow2_monotone(window, 8192);
        assert(next_pow2(8192) == 8192) by {
            reveal_with_fuel(next_pow2, 15);
        }
    }
}

} // verus!
