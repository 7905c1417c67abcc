//! Tests of what the emitters require, for callers that cannot know it beforehand.
use vstd::prelude::*;

use crate::arith::{div_ceil, is_power_of_two, larger, max_u32, min_u32, POW2_TOP};
use crate::attention::{flash_ok, heads_ok, merge_ok, qkv_ok};
use crate::builder::Emission;
use crate::config::Cfg;
use crate::declare::{
    act_rows, declare_ok, layer_sizes_ok, part_cells, sizes_ok, widest_head, DeclareFor,
};
use crate::dense_phase::{head_ok, layer_ok, layer_ok_at, program_ok};
use crate::emit_config::EmitConfig;
use crate::gemm::{finds_tile, Field, QuantScheme, TileTable};
use crate::isa::{F32_INF, TENSOR_NONE};
use crate::mlp::{experts_ok, glu_ok, router_ok};
use crate::phase::{layer_inputs_ok, phase_of, phase_ok, Layer, Mode, Phase, Request};
use crate::shape::{
    chunk_is_ok, fuse_argmax_parts, gemv_wg_n, kv_heads_split, kv_ring, kv_ring_rows, kvh_local,
    max_chunk, ring_ok, tile_count, BM, BN, Q_TILE_ROWS, WAVES,
};
use crate::steps::proj_ok;
use crate::target::geometry;
use crate::tensors::{Tensors, Tn};

verus! {

/// Whether a product of two fits thirty-two bits.
fn fits2(a: u32, b: u32) -> (r: bool)
    ensures
        r == (a * b <= u32::MAX),
{
    proof {
        crate::arith::mul_le(a as int, b as int, u32::MAX as int, u32::MAX as int);
    }
    a as u64 * b as u64 <= u32::MAX as u64
}

/// A product of two.
fn mul2(a: u32, b: u32) -> (r: u128)
    ensures
        r == a * b,
        r <= u32::MAX * u32::MAX,
{
    proof {
        crate::arith::mul_le(a as int, b as int, u32::MAX as int, u32::MAX as int);
    }
    a as u128 * b as u128
}

/// A product with one more factor, of something that is at most a product of two.
fn mul3(a: u128, b: u32) -> (r: u128)
    requires
        a <= u32::MAX * u32::MAX,
    ensures
        r == a * b,
        r <= u32::MAX * u32::MAX * u32::MAX,
{
    proof {
        crate::arith::mul_le(
            a as int,
            b as int,
            u32::MAX * u32::MAX,
            u32::MAX as int,
        );
    }
    a * b as u128
}

/// The macro tiles of an `m x n` product.
fn count_tiles(m: u32, n: u32) -> (r: u64)
    ensures
        r == tile_count(m as int, n as int),
        r <= u32::MAX * u32::MAX,
{
    let a: u32 = div_ceil(m, BM);
    let b: u32 = div_ceil(n, BN);
    proof {
        crate::arith::mul_le(a as int, b as int, u32::MAX as int, u32::MAX as int);
    }
    a as u64 * b as u64
}

fn heads_split(kvh: u32, tp: u32) -> (r: bool)
    ensures
        r == kv_heads_split(kvh as int, tp as int),
{
    if tp == 0 || kvh == 0 {
        return false;
    }
    if tp <= kvh { kvh % tp == 0 } else { tp % kvh == 0 }
}

fn ring_fits(full: bool, ctx: u32, window: u32, chunk: u32) -> (r: bool)
    ensures
        r == ring_ok(full, ctx as int, window as int, chunk as int),
{
    if full {
        return true;
    }
    let sum: u64 = window as u64 + chunk as u64;
    if sum < 1 || sum - 1 > POW2_TOP as u64 {
        return false;
    }
    is_power_of_two(min_u32(ctx, kv_ring_rows(window, chunk)))
}

/// Whether what holds for a whole program can be worked out.
pub fn phase_fits(k: &EmitConfig, c: &Cfg, q: Request) -> (r: bool)
    ensures
        r == phase_ok(*k, *c, q),
{
    if c.tp == 0 {
        return false;
    }
    let heads: u32 = c.heads / c.tp;
    let inter: u32 = c.inter / c.tp;
    if heads == 0 || q.n_cu == 0 || q.t > POW2_TOP || !chunk_is_ok(k) || c.window > POW2_TOP {
        return false;
    }
    if geometry(q.isa).is_none() {
        return false;
    }
    let rows: u32 = min_u32(q.ctx, max_chunk(k, c.window));
    let cells: u128 = mul2(rows, c.hidden);
    fits2(q.t, c.hidden) && fits2(q.t, inter) && fits2(q.t, heads) && fits2(
        div_ceil(q.t, Q_TILE_ROWS),
        heads,
    ) && cells * 2 <= u32::MAX as u128
}

/// Whether what holds for a layer can be worked out.
pub fn layer_inputs_fit(k: &EmitConfig, c: &Cfg, q: Request, p: &Phase, l: u32) -> (r: bool)
    requires
        phase_ok(*k, *c, q),
    ensures
        r == layer_inputs_ok(*k, *c, q, *p, l),
{
    proof {
        reveal(layer_inputs_ok);
    }
    if l as usize >= c.is_full.len() || l == u32::MAX {
        return false;
    }
    let full: bool = c.is_full[l as usize];
    let hd: u32 = if full { c.hd_full } else { c.hd_slide };
    let kvh: u32 = if full { c.kvh_full } else { c.kvh_slide };
    if !heads_split(kvh, c.tp) || !ring_fits(full, q.ctx, c.window, max_chunk(k, c.window)) {
        return false;
    }
    let mul: u32 = match k.ns_mul {
        Some(v) => v,
        None => if q.ctx > 8192 { 2 } else { 1 },
    };
    fits2(p.heads, hd) && fits2(kvh_local(kvh, c.tp), hd) && c.heads > 0 && q.n_cu <= u32::MAX
        / WAVES && (!p.gemv || fits2(q.n_cu, mul))
}

/// Whether a projection has a kernel.
fn proj_fits(p: &Phase, tab: &TileTable, m: u32, n: u32, k: u32) -> (r: bool)
    ensures
        r == proj_ok(*p, *tab, m, n, k),
{
    let q: QuantScheme = if p.mx {
        QuantScheme::Mxfp4
    } else if p.fp8 {
        QuantScheme::W8A8
    } else {
        QuantScheme::Plain
    };
    p.gemv || finds_tile(p.priced, tab, m, n, k, q, Field::AllRungs)
}

fn qkv_fits(p: &Phase, k: &EmitConfig, tab: &TileTable, y: &Layer) -> (r: bool)
    ensures
        r == qkv_ok(*p, *k, *tab, *y),
{
    if y.fuse_qkv || y.fuse_qkv_fp8 {
        return true;
    }
    if !proj_fits(p, tab, p.t, y.qd, p.hidden) || !proj_fits(p, tab, p.t, y.kd, p.hidden) {
        return false;
    }
    if p.gemv {
        let m: u32 = gemv_wg_n(k, p.n_cu);
        m >= (if y.keqv { 2 } else { 3 }) && y.qd as u64 + y.kd as u64 + y.kd as u64
            <= u32::MAX as u64
    } else {
        let tq: u64 = count_tiles(p.t, y.qd);
        let tk: u64 = count_tiles(p.t, y.kd);
        p.n_cu >= 1 && (!(!y.keqv && tk > 0) || p.n_cu >= 2) && tq <= u32::MAX as u64 && tk
            <= u32::MAX as u64 && tq as u128 + 2 * tk as u128 <= u32::MAX as u128
    }
}

fn heads_fit(p: &Phase, y: &Layer) -> (r: bool)
    ensures
        r == heads_ok(*p, *y),
{
    y.nhn > 0 && fits2(y.nhn, WAVES) && p.heads > 0 && y.kvh > 0 && (!p.gemv || (y.hd > 0 && y.kvh
        <= p.heads && fits2(p.t, p.heads) && fits2(p.t, y.kvh) && fits2(p.heads, y.hd) && fits2(
        y.kvh,
        y.hd,
    )))
}

fn flash_fits(p: &Phase, n: &Tn, y: &Layer) -> (r: bool)
    requires
        y.kvh > 0,
    ensures
        r == flash_ok(*p, *n, *y),
{
    if p.n_cu == 0 || y.gf == 0 || (p.heads / y.kvh) % y.gf != 0 {
        return false;
    }
    if y.fuse_hnr {
        let g: u32 = p.heads / y.gf;
        let hnr: bool = p.gemv && y.gf <= p.heads && fits2(p.t, g) && mul3(mul2(p.t, g), y.ns)
            <= u32::MAX as u128 && (!y.fuse_merge || (0 < n.mrgc && n.mrgc < 0x4000 && 0 < n.at
            && n.at < 0x1_0000 && y.hd < 0x1_0000));
        if !hnr {
            return false;
        }
    }
    if p.gemv && !y.fuse_hnr {
        mul3(mul2(p.t, p.heads), y.ns) <= u32::MAX as u128 && fits2(y.ns, p.heads) && (p.t <= 1
            || mul3(mul2(p.t, y.kvh), y.kvr) <= u32::MAX as u128)
    } else {
        true
    }
}

fn merge_fits(p: &Phase, y: &Layer) -> (r: bool)
    ensures
        r == merge_ok(*p, *y),
{
    if p.fused || y.fuse_merge {
        return true;
    }
    if p.heads == 0 || p.n_cu == 0 || !fits2(p.t_heads, y.dsplit) || !fits2(p.t_heads, y.ns) {
        return false;
    }
    let blocks: u32 = max_u32(min_u32(p.t_heads * y.dsplit, p.n_cu), 1);
    let pieces: u32 = max_u32(div_ceil(blocks, max_u32(p.t_heads, 1)), 1);
    fits2(p.t_heads, pieces)
}

fn router_fits(p: &Phase, k: &EmitConfig, n: &Tn) -> (r: bool)
    ensures
        r == router_ok(*p, *k, *n),
{
    !(p.moe && p.decode) || (fits2(p.t, p.n_exp) && (k.gemma_moe_router_fused || n.moe_rscore
        != TENSOR_NONE))
}

fn glu_fits(p: &Phase, tab: &TileTable) -> (r: bool)
    ensures
        r == glu_ok(*p, *tab),
{
    p.stages || p.gemm_glu || (proj_fits(p, tab, p.t, p.inter, p.hidden) && p.n_cu >= 1 && (p.gemv
        || 2 * count_tiles(p.t, p.inter) as u128
        <= u32::MAX as u128))
}

fn experts_fit(p: &Phase, k: &EmitConfig) -> (r: bool)
    ensures
        r == experts_ok(*p, *k),
{
    if !p.moe {
        return true;
    }
    if p.decode {
        p.t <= 32 && !(k.gemma_moe_tail_fuse && p.t > 1)
    } else {
        !p.w8a8 || mul2(p.t, p.top_k) + p.n_exp as u128 * 128 <= u32::MAX as u128
    }
}

/// Whether a layer can be laid out.
pub fn layer_fits(p: &Phase, k: &EmitConfig, tab: &TileTable, y: &Layer, n: &Tn) -> (r: bool)
    ensures
        r == layer_ok(*p, *k, *tab, *y, *n),
{
    proof {
        reveal(layer_ok);
    }
    qkv_fits(p, k, tab, y) && proj_fits(p, tab, p.t, p.hidden, y.qd) && proj_fits(
        p,
        tab,
        p.t,
        p.hidden,
        p.inter,
    ) && heads_fit(p, y) && flash_fits(p, n, y) && merge_fits(p, y)
        && router_fits(p, k, n) && glu_fits(p, tab) && experts_fit(p, k) && (!y.fuse_hnr
            || (!y.fuse_qkv
        && !y.fuse_qkv_fp8)) && (!p.gemv || (y.qd > 0 && y.kd > 0))
}

fn head_fits(k: &EmitConfig, c: &Cfg, tab: &TileTable, p: &Phase, n: &Tn) -> (r: bool)
    ensures
        r == head_ok(*k, *c, *tab, *p, *n),
{
    let tiled: bool = !p.gemv && (if p.decode {
        n.head8 == TENSOR_NONE
    } else {
        !(match k.pf_gemv_head {
            Some(v) => v,
            None => p.amd,
        })
    });
    if tiled && !finds_tile(
        p.priced,
        tab,
        1,
        c.vocab,
        c.hidden,
        QuantScheme::Plain,
        Field::AllRungs,
    ) {
        return false;
    }
    let m: u32 = if p.decode { p.t } else { 1 };
    (p.decode || p.t > 0) && (!(0 < c.softcap && c.softcap <= F32_INF) || fits2(m, c.vocab))
}

/// Whether a program can be emitted.
pub fn program_fits(
    k: &EmitConfig,
    c: &Cfg,
    tab: &TileTable,
    q: Request,
    tn: &Tensors,
    ls: &Vec<u32>,
) -> (r: bool)
    ensures
        r == program_ok(*k, *c, *tab, q, *tn, ls@),
{
    if !phase_fits(k, c, q) {
        return false;
    }
    if q.mode != Mode::Decode && !q.mxfp4 && !finds_tile(
        q.priced,
        tab,
        q.t,
        c.inter / c.tp,
        c.hidden,
        QuantScheme::Plain,
        Field::GluRungs,
    ) {
        return false;
    }
    let p: Phase = Phase::new(k, c, tab, tn.shared.xr, q);
    if q.first > q.end || q.end as usize > tn.caches.len() || q.end as usize > tn.layers.len()
        || q.end as usize > ls.len() {
        return false;
    }
    let mut l: u32 = q.first;
    while l < q.end
        invariant
            q.first <= l <= q.end,
            phase_ok(*k, *c, q),
            p == phase_of(*k, *c, *tab, tn.shared.xr, q),
            q.end <= tn.caches@.len(),
            q.end <= tn.layers@.len(),
            q.end <= ls@.len(),
            forall|j: int|
                q.first <= j < l ==> #[trigger] layer_ok_at(*k, *c, *tab, q, *tn, ls@, j),
        decreases q.end - l,
    {
        proof {
            assert((l as int) as u32 == l);
        }
        if !layer_inputs_fit(k, c, q, &p, l) {
            proof {
                assert(!layer_ok_at(*k, *c, *tab, q, *tn, ls@, l as int));
            }
            return false;
        }
        let next_gin: u32 = if l + 1 < q.end {
            tn.layers[l as usize + 1].g_in
        } else {
            tn.shared.fin
        };
        let x: Layer = Layer::new(
            k,
            c,
            q,
            &p,
            &tn.shared,
            tn.caches[l as usize],
            tn.layers[l as usize],
            next_gin,
            ls[l as usize],
            l,
        );
        let fit: bool = layer_fits(&p, k, tab, &x, &tn.shared);
        proof {
            assert(fit == layer_ok_at(*k, *c, *tab, q, *tn, ls@, l as int));
        }
        if !fit {
            return false;
        }
        l = l + 1;
    }
    q.block_mode || head_fits(k, c, tab, &p, &tn.shared)
}

/// Whether a program's instructions can be numbered.
pub fn has_room(s: &Emission, layers: u32) -> (r: bool)
    ensures
        r == s@.room(
            crate::dense_phase::LAYER_ROOM * layers + crate::dense_phase::ENDS_ROOM,
        ),
{
    proof {
        assert(s@.insts.len() == s.insts@.len());
    }
    let n: u128 = 44 * layers as u128 + 8;
    let top: u128 = u32::MAX as u128;
    s.insts.len() as u128 + n <= top && s.xgate as u128 + n <= top && s.tmaps.base as u128
        + s.tmaps.decls.len() as u128 + n <= top
}

/// Whether the shared tensors of a model can be declared.
fn shared_sizes_fit(k: &EmitConfig, c: &Cfg, n_cu: u32, d: DeclareFor) -> (r: bool)
    ensures
        r == sizes_ok(*k, *c, n_cu, d),
{
    if !chunk_is_ok(k) || c.window > POW2_TOP || c.tp == 0 {
        return false;
    }
    if c.heads % c.tp != 0 || c.inter % c.tp != 0 || c.hidden % 8 != 0 || c.inter % 8 != 0
        || c.hd_slide % 8 != 0 || c.hd_full % 8 != 0 || !heads_split(c.kvh_slide, c.tp)
        || !heads_split(c.kvh_full, c.tp) {
        return false;
    }
    let top: u128 = u32::MAX as u128;
    let rows: u32 = min_u32(d.ctx, max_chunk(k, c.window));
    let hs: u32 = c.heads / c.tp;
    let hd: u32 = max_u32(c.hd_slide, c.hd_full);
    let inter: u32 = c.inter / c.tp;
    let qd: u128 = mul2(hs, hd);
    let ks: u128 = mul2(kvh_local(c.kvh_slide, c.tp), c.hd_slide);
    let kf: u128 = mul2(kvh_local(c.kvh_full, c.tp), c.hd_full);
    let kd: u128 = if ks >= kf { ks } else { kf };
    let mr: u32 = max_u32(if c.moe && d.moe_pf { rows } else { 1 }, d.dbatch);
    let mk: u128 = mul2(mr, c.top_k);
    let pad: u128 = mk + c.n_exp as u128 * 128;
    if !(qd <= top && ks <= top && kf <= top && fits2(c.vocab, c.hidden) && fits2(rows, c.hidden)
        && mul3(qd, rows) <= top && mul3(kd, rows) <= top && fits2(rows, inter)) {
        return false;
    }
    let parts: u128 = mul3(mul2(max_u32(rows, 64), hs), d.ns_pre);
    if parts > top {
        return false;
    }
    proof {
        crate::arith::mul_le(parts as int, hd as int, u32::MAX as int, u32::MAX as int);
        assert(u32::MAX <= u32::MAX * u32::MAX) by (nonlinear_arith);
    }
    let o_a: u128 = mul3(parts, hd);
    let hs64: u128 = hs as u128 * 64;
    let o_b: u128 = mul3(hs64, hd);
    if !(o_a <= top && o_b <= top && parts * 2 <= top && hs64 * 2 <= top) {
        return false;
    }
    let am: u32 = fuse_argmax_parts(k, n_cu);
    proof {
        let ghost w = larger(act_rows(*k, *c, d.ctx), 64) * (c.heads / c.tp) * d.ns_pre;
        assert(parts == w);
        assert(part_cells(*k, *c, d, widest_head(*c)) == larger(
            w * widest_head(*c),
            (c.heads / c.tp) * 64 * widest_head(*c),
        ));
        assert(part_cells(*k, *c, d, 2) == larger(w * 2, (c.heads / c.tp) * 64 * 2));
    }
    fits2(max_u32(d.dbatch, 1), c.heads) && fits2(d.dbatch, c.vocab) && mul2(d.dbatch, am) * 8
        <= u64::MAX as u128 && fits2(mr, c.hidden) && mk <= top && fits2(d.dbatch, c.n_exp)
        && fits2(d.dbatch, c.top_k) && mul3(mul2(d.dbatch, c.top_k), c.moe_inter) <= top && mul3(
        mk,
        c.hidden,
    ) <= top && 3 * c.n_exp as u128 + 2 <= top && pad <= top && mul3_wide(pad, c.moe_inter) <= top
}

/// A product with a factor that may pass a product of two a little.
fn mul3_wide(a: u128, b: u32) -> (r: u128)
    requires
        a <= u32::MAX * u32::MAX + u32::MAX * 128,
    ensures
        r == a * b,
{
    proof {
        crate::arith::mul_le(
            a as int,
            b as int,
            u32::MAX * u32::MAX + u32::MAX * 128,
            u32::MAX as int,
        );
    }
    a * b as u128
}

/// Whether a layer's tensors can be declared.
fn layer_sizes_fit(k: &EmitConfig, c: &Cfg, n_cu: u32, d: DeclareFor, l: u32) -> (r: bool)
    requires
        sizes_ok(*k, *c, n_cu, d),
        l < c.is_full@.len(),
    ensures
        r == layer_sizes_ok(*k, *c, d, l as int),
{
    let full: bool = c.is_full[l as usize];
    let chunk: u32 = max_chunk(k, c.window);
    if !ring_fits(full, d.ctx, c.window, chunk) {
        return false;
    }
    let top: u128 = u32::MAX as u128;
    let wide: u128 = u64::MAX as u128;
    let hd: u32 = if full { c.hd_full } else { c.hd_slide };
    let kvh: u32 = kvh_local(if full { c.kvh_full } else { c.kvh_slide }, c.tp);
    let (ring, _mask) = kv_ring(full, d.ctx, c.window, chunk);
    let qd: u128 = mul2(c.heads / c.tp, hd);
    let kd: u128 = mul2(kvh, hd);
    let rk: u128 = mul2(ring, kvh);
    let rkh: u128 = mul3(rk, hd);
    let e2: u128 = c.n_exp as u128 * 2;
    proof {
        assert(u32::MAX * 2 <= u32::MAX * u32::MAX) by (nonlinear_arith);
    }
    let gu: u128 = mul3(e2, c.moe_inter);
    let dn: u128 = mul2(c.n_exp, c.hidden);
    if !(qd <= top && kd <= top && mul3(qd, c.hidden) <= top && mul3(kd, c.hidden) <= top && fits2(
        c.inter / c.tp,
        c.hidden,
    ) && rk <= top && rkh <= top && e2 <= top && gu <= top && dn <= top) {
        return false;
    }
    proof {
        assert(u32::MAX <= u32::MAX * u32::MAX) by (nonlinear_arith);
        let a = ring * kvh * hd;
        assert(d.dbatch * a == a * d.dbatch) by (nonlinear_arith);
        let b = ring * kvh;
        assert(d.dbatch * b == b * d.dbatch) by (nonlinear_arith);
    }
    mul3(rkh, d.dbatch) * 2 <= wide && mul3(rk, d.dbatch) * 4 <= wide && mul3(gu, c.hidden) * 2
        <= wide && mul3(dn, c.moe_inter) * 2 <= wide
}

/// Whether a model's tensors can be declared.
pub fn declare_fits(k: &EmitConfig, c: &Cfg, n_cu: u32, d: DeclareFor) -> (r: bool)
    ensures
        r == declare_ok(*k, *c, n_cu, d),
{
    if !shared_sizes_fit(k, c, n_cu, d) || c.layers as usize > c.is_full.len() || c.layers
        > 0x400_0000 {
        return false;
    }
    let mut l: u32 = 0;
    while l < c.layers
        invariant
            l <= c.layers,
            sizes_ok(*k, *c, n_cu, d),
            c.layers <= c.is_full@.len(),
            forall|j: int| 0 <= j < l ==> #[trigger] layer_sizes_ok(*k, *c, d, j),
        decreases c.layers - l,
    {
        if !layer_sizes_fit(k, c, n_cu, d, l) {
            return false;
        }
        l = l + 1;
    }
    true
}

} // verus!
