//! Sizes and splits that follow from a model's shape and an emission's switches.
use vstd::prelude::*;

use crate::arith::{
    ceil_div, clamp_u32, div_ceil, is_pow2, is_power_of_two, larger, max_u32, min_u32, next_pow2,
    next_pow2_is_least, next_pow2_monotone, next_pow2_of_pow2, next_power_of_two, smaller, POW2_TOP,
};
use crate::emit_config::EmitConfig;
use crate::isa::CuRange;

verus! {

/// Bytes of an element.
pub const BF16: u64 = 2;
pub const F32: u64 = 4;
pub const I32: u64 = 4;

/// The macro tile of the widest matrix kernel.
pub const BM: u32 = 256;
pub const BN: u32 = 256;

/// Query rows that the split heuristic charges to one flash work item.
pub const Q_TILE_ROWS: u32 = 256;

/// Query rows that one flash work item of the prefill kernel covers.
pub const FLASH_Q_TILE_ROWS: u32 = 128;

/// The widest row bucket of the row-product kernels.
pub const GEMV_MAXM: u32 = 16;

/// Halves that a row product with a folded norm reserves at the top of its arena.
pub const GV_NORM_SCRATCH: u64 = 16;

/// Registers and threads over which a norm reduces a row in registers.
pub const RN_REG: u32 = 16;
pub const PLOW_THREADS: u32 = 512;

/// Waves of a workgroup.
pub const WAVES: u32 = 8;

/// Workgroups of the token argmax.
pub const AMAX_BLOCKS: u32 = 64;

/// The widest and the narrowest prefill chunk.
pub const MAX_CHUNK_MAX: u32 = 8192;
pub const MAX_CHUNK_MIN: u32 = 128;

/// The row mask of a cache that is not a ring.
pub const KV_MASK_NONE: u32 = 0xFFFF_FFFF;

/// Group factor of the full-attention decode kernel where none is chosen.
pub const FA_GF_FULL: u32 = 2;

/// The group factor the decode kernel is built with: the chosen one where it is one of the built
/// factors, else the standard one.
pub open spec fn group_factor(k: EmitConfig) -> u32 {
    match k.fa_gf_full {
        Some(v) => if v == 1 || v == 2 || v == 4 || v == 8 || v == 16 { v } else { FA_GF_FULL },
        None => FA_GF_FULL,
    }
}

pub fn fa_gf_full(k: &EmitConfig) -> (r: u32)
    ensures
        r == group_factor(*k),
        r > 0,
{
    match k.fa_gf_full {
        Some(v) => if v == 1 || v == 2 || v == 4 || v == 8 || v == 16 { v } else { FA_GF_FULL },
        None => FA_GF_FULL,
    }
}

/// Macro tiles that cover an `m x n` product.
pub open spec fn tile_count(m: int, n: int) -> int {
    ceil_div(m, BM as int) * ceil_div(n, BN as int)
}

/// Macro tiles that cover an `m x n` product.
pub fn tiles(m: u32, n: u32) -> (r: u32)
    requires
        tile_count(m as int, n as int) <= u32::MAX,
    ensures
        r == tile_count(m as int, n as int),
{
    let a: u32 = div_ceil(m, BM);
    let b: u32 = div_ceil(n, BN);
    a * b
}

/// The row bucket the decode object is built at: the chosen one between one and the widest, else
/// the power of two that holds `t` rows, up to the widest.
pub open spec fn row_bucket(k: EmitConfig, t: int) -> int {
    match k.gemv_mm {
        Some(v) => larger(1, smaller(v as int, GEMV_MAXM as int)),
        None => smaller(next_pow2(t), GEMV_MAXM as int),
    }
}

pub fn gemv_row_bucket(k: &EmitConfig, t: u32) -> (r: u32)
    requires
        t <= POW2_TOP,
    ensures
        r == row_bucket(*k, t as int),
        1 <= r <= GEMV_MAXM,
{
    match k.gemv_mm {
        Some(v) => clamp_u32(v, 1, GEMV_MAXM),
        None => min_u32(next_power_of_two(t), GEMV_MAXM),
    }
}

/// Rows a fused decode product stages at once.
pub open spec fn staged_rows(k: EmitConfig, t: int) -> int {
    if k.gemv_walk { smaller(t, row_bucket(k, t)) } else { t }
}

pub fn gemv_staged_rows(k: &EmitConfig, t: u32) -> (r: u32)
    requires
        t <= POW2_TOP,
    ensures
        r == staged_rows(*k, t as int),
        r <= t,
{
    if k.gemv_walk { min_u32(t, gemv_row_bucket(k, t)) } else { t }
}

/// Walking the rows changes nothing up to the widest bucket, unless a narrower bucket is chosen.
pub proof fn walking_without_a_chosen_bucket_stages_every_row(k: EmitConfig, t: int)
    requires
        k.gemv_mm is None,
        0 <= t <= GEMV_MAXM,
    ensures
        staged_rows(k, t) == t,
{
    next_pow2_is_least(t);
}

/// Staged rows never exceed the bucket while the rows are walked.
pub proof fn walked_rows_fit_the_bucket(k: EmitConfig, t: int)
    requires
        k.gemv_walk,
    ensures
        staged_rows(k, t) <= row_bucket(k, t) <= GEMV_MAXM,
{
}

/// The prefill chunk that follows from an attention window.
pub open spec fn window_chunk(window: int) -> int {
    if window == 0 {
        MAX_CHUNK_MAX as int
    } else {
        larger(MAX_CHUNK_MIN as int, smaller(next_pow2(window), MAX_CHUNK_MAX as int))
    }
}

pub fn default_chunk(window: u32) -> (r: u32)
    requires
        window <= POW2_TOP,
    ensures
        r == window_chunk(window as int),
        MAX_CHUNK_MIN <= r <= MAX_CHUNK_MAX,
{
    if window == 0 {
        MAX_CHUNK_MAX
    } else {
        clamp_u32(next_power_of_two(window), MAX_CHUNK_MIN, MAX_CHUNK_MAX)
    }
}

/// The prefill chunk of an emission: the chosen one, else the one of the window.
pub open spec fn chunk_of(k: EmitConfig, window: int) -> int {
    match k.max_chunk {
        Some(v) => v as int,
        None => window_chunk(window),
    }
}

/// Whether an emission's chosen chunk is one a program ladder can hold.
pub open spec fn chunk_ok(k: EmitConfig) -> bool {
    match k.max_chunk {
        Some(v) => is_pow2(v as int) && v <= MAX_CHUNK_MAX,
        None => true,
    }
}

/// A chunk is a power of two, whatever the window.
pub proof fn chunk_is_a_power_of_two(k: EmitConfig, window: int)
    requires
        chunk_ok(k),
        window >= 0,
    ensures
        is_pow2(chunk_of(k, window)),
        1 <= chunk_of(k, window) <= MAX_CHUNK_MAX,
{
    reveal_with_fuel(is_pow2, 15);
    next_pow2_is_least(window);
}

/// Whether a chosen chunk can be used: a power of two no wider than the widest.
pub fn chunk_is_ok(k: &EmitConfig) -> (r: bool)
    ensures
        r == chunk_ok(*k),
{
    match k.max_chunk {
        Some(v) => is_power_of_two(v) && v <= MAX_CHUNK_MAX,
        None => true,
    }
}

pub fn max_chunk(k: &EmitConfig, window: u32) -> (r: u32)
    requires
        chunk_ok(*k),
        window <= POW2_TOP,
    ensures
        r == chunk_of(*k, window as int),
        is_pow2(r as int),
        1 <= r <= MAX_CHUNK_MAX,
{
    proof {
        chunk_is_a_power_of_two(*k, window as int);
    }
    match k.max_chunk {
        Some(v) => v,
        None => default_chunk(window),
    }
}

/// Rows of a sliding layer's ring: the least power of two that holds the window behind a chunk and
/// the chunk itself.
pub open spec fn ring_rows(window: int, chunk: int) -> int {
    next_pow2(window + chunk - 1)
}

pub fn kv_ring_rows(window: u32, chunk: u32) -> (r: u32)
    requires
        1 <= window + chunk,
        window + chunk - 1 <= POW2_TOP,
    ensures
        r == ring_rows(window as int, chunk as int),
        r >= window + chunk - 1,
        is_pow2(r as int),
{
    proof {
        next_pow2_is_least(window + chunk - 1);
    }
    next_power_of_two(if chunk >= 1 { window + (chunk - 1) } else { window - 1 })
}

/// Rows and row mask of a layer's cache: the whole context without a mask, or a ring.
pub open spec fn ring_of(full: bool, ctx: int, window: int, chunk: int) -> (int, int) {
    if full {
        (ctx, KV_MASK_NONE as int)
    } else {
        let r = smaller(ctx, ring_rows(window, chunk));
        (r, r - 1)
    }
}

/// Whether a layer's cache can be laid out: a ring is indexed by a mask, so its size is a power of
/// two.
pub open spec fn ring_ok(full: bool, ctx: int, window: int, chunk: int) -> bool {
    full || (window + chunk >= 1 && window + chunk - 1 <= POW2_TOP && is_pow2(
        smaller(ctx, ring_rows(window, chunk)),
    ))
}

/// A ring either spans the context or holds the window behind a chunk and the chunk itself, so a
/// chunk's rows never wrap onto the history that the chunk reads.
pub proof fn a_ring_never_wraps_onto_its_history(ctx: int, window: int, chunk: int)
    ensures
        ring_of(false, ctx, window, chunk).0 == ctx || ring_of(false, ctx, window, chunk).0
            >= window + chunk - 1,
{
    next_pow2_is_least(window + chunk - 1);
}

pub fn kv_ring(full: bool, ctx: u32, window: u32, chunk: u32) -> (r: (u32, u32))
    requires
        ring_ok(full, ctx as int, window as int, chunk as int),
    ensures
        r.0 == ring_of(full, ctx as int, window as int, chunk as int).0,
        r.1 == ring_of(full, ctx as int, window as int, chunk as int).1,
        !full ==> is_pow2(r.0 as int) && (r.0 == ctx || r.0 >= window + chunk - 1),
{
    if full {
        (ctx, KV_MASK_NONE)
    } else {
        let r: u32 = min_u32(ctx, kv_ring_rows(window, chunk));
        (r, r - 1)
    }
}

/// The chunk that a window gives satisfies the ring's condition.
pub proof fn a_derived_chunk_satisfies_the_ring_condition(window: int)
    requires
        window >= 0,
    ensures
        ring_rows(window, window_chunk(window)) >= window + window_chunk(window) - 1,
{
    next_pow2_is_least(window + window_chunk(window) - 1);
}

/// Deriving the chunk from the window puts the ring at twice the window's power of two, while that
/// power lies within the chunk's limits.
pub proof fn a_derived_ring_is_twice_the_window(window: int)
    requires
        window > 1,
        MAX_CHUNK_MIN <= next_pow2(window) <= MAX_CHUNK_MAX,
    ensures
        ring_rows(window, window_chunk(window)) == 2 * next_pow2(window),
{
    let p = next_pow2(window);
    next_pow2_is_least(window);
    assert(window_chunk(window) == p);
    let s = window + p - 1;
    next_pow2_is_least(s);
    assert(is_pow2(2 * p)) by {
        assert((2 * p) % 2 == 0 && (2 * p) / 2 == p);
    }
    next_pow2_of_pow2(2 * p);
    next_pow2_monotone(s, 2 * p);
    // `s` lies above `p`, so no power of two up to `p` reaches it.
    next_pow2_monotone(p + 1, s);
    assert(next_pow2(p + 1) == 2 * p) by {
        if p % 2 == 0 {
            assert((p + 1 + 1) / 2 == p / 2 + 1);
        }
        next_pow2_above(p);
    }
}

/// The next power of two after a power of two is its double.
proof fn next_pow2_above(p: int)
    requires
        is_pow2(p),
    ensures
        next_pow2(p + 1) == 2 * p,
    decreases p,
{
    if p > 1 {
        next_pow2_above(p / 2);
        assert((p + 2) / 2 == p / 2 + 1);
    } else {
        assert(next_pow2(2) == 2 * next_pow2(1));
    }
}

/// Key/value heads of one device: a share of them, or one that several devices hold.
pub open spec fn local_kv_heads(kvh: int, tp: int) -> int {
    if tp <= kvh { kvh / tp } else { 1 }
}

/// Whether the devices split the key/value heads evenly, in one direction or the other.
pub open spec fn kv_heads_split(kvh: int, tp: int) -> bool {
    &&& tp > 0
    &&& kvh > 0
    &&& if tp <= kvh { kvh % tp == 0 } else { tp % kvh == 0 }
}

pub fn kvh_local(kvh_g: u32, tp: u32) -> (r: u32)
    requires
        kv_heads_split(kvh_g as int, tp as int),
    ensures
        r == local_kv_heads(kvh_g as int, tp as int),
        1 <= r <= kvh_g,
{
    if tp <= kvh_g {
        let r: u32 = kvh_g / tp;
        proof {
            vstd::arithmetic::div_mod::lemma_fundamental_div_mod(kvh_g as int, tp as int);
            assert(r >= 1) by (nonlinear_arith)
                requires
                    kvh_g == tp * r + 0,
                    kvh_g > 0,
                    tp > 0,
                    r >= 0,
            ;
            vstd::arithmetic::div_mod::lemma_div_is_ordered_by_denominator(
                kvh_g as int,
                1,
                tp as int,
            );
        }
        r
    } else {
        1
    }
}

/// The devices' shares make up all the heads: each head is held once, or by `tp / kvh` devices.
pub proof fn kv_shares_cover_the_heads(kvh: int, tp: int)
    requires
        kv_heads_split(kvh, tp),
    ensures
        tp <= kvh ==> local_kv_heads(kvh, tp) * tp == kvh,
        tp > kvh ==> local_kv_heads(kvh, tp) * tp == kvh * (tp / kvh),
{
    if tp <= kvh {
        vstd::arithmetic::div_mod::lemma_fundamental_div_mod(kvh, tp);
        assert((kvh / tp) * tp == tp * (kvh / tp)) by (nonlinear_arith);
    } else {
        vstd::arithmetic::div_mod::lemma_fundamental_div_mod(tp, kvh);
    }
}

/// Where two shares of `n` compute units meet, sized as `a` to `b`.
pub open spec fn cut2(n: int, a: int, b: int) -> int {
    smaller(larger((n * a) / larger(a + b, 1), 1), n - 1)
}

/// Splits `n` compute units in two, sized as `a` to `b`, with at least one unit each.
pub fn split2(n: u32, a: u32, b: u32) -> (r: (CuRange, CuRange))
    requires
        n >= 1,
        a + b <= u32::MAX,
    ensures
        r.0 == (CuRange { lo: 0, hi: cut2(n as int, a as int, b as int) as u32 }),
        r.1 == (CuRange { lo: cut2(n as int, a as int, b as int) as u32, hi: n }),
        0 <= cut2(n as int, a as int, b as int) < n,
{
    let tot: u64 = max_u32(a + b, 1) as u64;
    let prod: u64 = share_product(n, a);
    let share: u64 = prod / tot;
    proof {
        share_is_bounded(n as int, a as int, b as int);
    }
    let s: u32 = min_u32(max_u32(share as u32, 1), n - 1);
    (CuRange { lo: 0, hi: s }, CuRange { lo: s, hi: n })
}

fn share_product(n: u32, a: u32) -> (r: u64)
    ensures
        r == n * a,
{
    proof {
        crate::arith::mul_le(n as int, a as int, u32::MAX as int, u32::MAX as int);
    }
    n as u64 * a as u64
}

proof fn share_is_bounded(n: int, a: int, rest: int)
    requires
        n >= 0,
        a >= 0,
        rest >= 0,
    ensures
        0 <= (n * a) / larger(a + rest, 1) <= n,
{
    let t = larger(a + rest, 1);
    assert(0 <= n * a <= n * t) by (nonlinear_arith)
        requires
            n >= 0,
            0 <= a <= t,
    ;
    vstd::arithmetic::div_mod::lemma_div_is_ordered(n * a, n * t, t);
    vstd::arithmetic::div_mod::lemma_div_multiples_vanish(n, t);
    assert(n * t == t * n) by (nonlinear_arith);
    vstd::arithmetic::div_mod::lemma_div_pos_is_pos(n * a, t);
}

/// Where three shares of `n` compute units meet, sized as `a` to `b` to `c`.
pub open spec fn cut3(n: int, a: int, b: int, c: int) -> (int, int) {
    if c == 0 {
        (cut2(n, a, b), n)
    } else {
        let tot = larger(a + b + c, 1);
        let sa = smaller(larger((n * a) / tot, 1), n - 2);
        let sb = smaller(larger((n * b) / tot, 1), n - sa - 1);
        (sa, sa + sb)
    }
}

/// Splits `n` compute units in three, sized as `a` to `b` to `c`; the third share is empty where
/// `c` is zero.
pub fn split3(n: u32, a: u32, b: u32, c: u32) -> (r: (CuRange, CuRange, CuRange))
    requires
        n >= 1,
        c > 0 ==> n >= 2,
        a + b + c <= u32::MAX,
    ensures
        ({
            let (x, y) = cut3(n as int, a as int, b as int, c as int);
            &&& r.0 == CuRange { lo: 0, hi: x as u32 }
            &&& r.1 == CuRange { lo: x as u32, hi: y as u32 }
            &&& r.2 == CuRange { lo: y as u32, hi: n }
            &&& 0 <= x <= y <= n
        }),
{
    if c == 0 {
        let (x, y) = split2(n, a, b);
        return (x, y, CuRange { lo: n, hi: n });
    }
    let tot: u64 = max_u32(a + b + c, 1) as u64;
    proof {
        share_is_bounded(n as int, a as int, b + c);
        share_is_bounded(n as int, b as int, a + c);
    }
    let pa: u64 = share_product(n, a) / tot;
    let pb: u64 = share_product(n, b) / tot;
    let sa: u32 = min_u32(max_u32(pa as u32, 1), n - 2);
    let sb: u32 = min_u32(max_u32(pb as u32, 1), n - sa - 1);
    (CuRange { lo: 0, hi: sa }, CuRange { lo: sa, hi: sa + sb }, CuRange { lo: sa + sb, hi: n })
}

/// Two shares partition the compute units, and with two units or more neither is empty.
pub proof fn two_shares_partition_the_units(n: int, a: int, b: int)
    requires
        n >= 2,
        a >= 0,
        b >= 0,
    ensures
        1 <= cut2(n, a, b) <= n - 1,
{
}

/// Three shares partition the compute units, and with three units or more none is empty.
pub proof fn three_shares_partition_the_units(n: int, a: int, b: int, c: int)
    requires
        n >= 3,
        a >= 0,
        b >= 0,
        c > 0,
    ensures
        1 <= cut3(n, a, b, c).0 < cut3(n, a, b, c).1 <= n - 1,
{
}

/// The cap on the workgroups of a row product, where one is chosen.
pub open spec fn wg_cap(k: EmitConfig) -> Option<u32> {
    match k.gemv_wg {
        Some(c) => if c > 0 { Some(c) } else { None },
        None => None,
    }
}

pub fn gemv_wg_env(k: &EmitConfig) -> (r: Option<u32>)
    ensures
        r == wg_cap(*k),
{
    match k.gemv_wg {
        Some(c) => if c > 0 { Some(c) } else { None },
        None => None,
    }
}

/// `n` workgroups under the cap.
pub open spec fn capped(k: EmitConfig, n: int) -> int {
    match wg_cap(k) {
        Some(c) => smaller(n, c as int),
        None => n,
    }
}

pub fn gemv_wg_n(k: &EmitConfig, n: u32) -> (r: u32)
    ensures
        r == capped(*k, n as int),
        r <= n,
        n > 0 ==> r > 0,
{
    match gemv_wg_env(k) {
        Some(c) => min_u32(n, c),
        None => n,
    }
}

/// The first compute units of `c`, as many as the cap allows.
pub open spec fn capped_range(k: EmitConfig, c: CuRange) -> CuRange {
    match wg_cap(k) {
        Some(m) => if m < c.count() {
            CuRange { lo: c.lo, hi: (c.lo + m) as u32 }
        } else {
            c
        },
        None => c,
    }
}

pub fn gemv_wg_cap(k: &EmitConfig, c: CuRange) -> (r: CuRange)
    ensures
        r == capped_range(*k, c),
{
    match gemv_wg_env(k) {
        Some(m) => if m < c.blocks() {
            CuRange { lo: c.lo, hi: c.lo + m }
        } else {
            c
        },
        None => c,
    }
}

/// Pieces a flash merge splits each row into.
pub open spec fn merge_dsplit(k: EmitConfig) -> int {
    match k.flash_merge_dsplit {
        Some(v) => larger(v as int, 1),
        None => 1,
    }
}

pub fn flash_merge_dsplit(k: &EmitConfig) -> (r: u32)
    ensures
        r == merge_dsplit(*k),
        r >= 1,
{
    match k.flash_merge_dsplit {
        Some(v) => max_u32(v, 1),
        None => 1,
    }
}

pub fn gemv_split(k: &EmitConfig) -> (r: u32)
    ensures
        r == k.gemv_split,
{
    k.gemv_split
}

/// Whether the head product and the argmax are one instruction.
pub fn fuse_argmax_on(k: &EmitConfig) -> (r: bool)
    ensures
        r == k.fuse_argmax,
{
    k.fuse_argmax
}

/// Partial results of the argmax: one for each workgroup that may write one.
pub open spec fn argmax_parts(k: EmitConfig, n_cu: int) -> int {
    if k.fuse_argmax { larger(n_cu, AMAX_BLOCKS as int) } else { AMAX_BLOCKS as int }
}

pub fn fuse_argmax_parts(k: &EmitConfig, n_cu: u32) -> (r: u32)
    ensures
        r == argmax_parts(*k, n_cu as int),
{
    if fuse_argmax_on(k) { max_u32(n_cu, AMAX_BLOCKS) } else { AMAX_BLOCKS }
}

/// How a program's attention is split over the keys, and whether the flash kernel then writes the
/// attention output itself.
///
/// A row product splits so that every compute unit has a share of some head. A tiled product
/// splits until the query tiles cover the compute units, except that a program packed from
/// several requests is never split.
pub open spec fn flash_split(gemv: bool, packed: bool, n_cu: int, heads: int, t: int) -> (int, bool) {
    if gemv {
        (larger(ceil_div(n_cu, heads), 1), false)
    } else if packed {
        (1, true)
    } else {
        let ns = larger(ceil_div(n_cu, larger(ceil_div(t, Q_TILE_ROWS as int) * heads, 1)), 1);
        (ns, ns == 1)
    }
}

pub fn dense_flash_split(gemv: bool, packed: bool, n_cu: u32, heads: u32, t: u32) -> (r: (u32, bool))
    requires
        gemv ==> heads > 0,
        ceil_div(t as int, Q_TILE_ROWS as int) * heads <= u32::MAX,
    ensures
        r.0 == flash_split(gemv, packed, n_cu as int, heads as int, t as int).0,
        r.1 == flash_split(gemv, packed, n_cu as int, heads as int, t as int).1,
        r.0 >= 1,
        r.0 <= larger(n_cu as int, 1),
{
    if gemv {
        (max_u32(div_ceil(n_cu, heads), 1), false)
    } else if packed {
        (1, true)
    } else {
        let q: u32 = div_ceil(t, Q_TILE_ROWS);
        let work: u32 = q * heads;
        let ns: u32 = max_u32(div_ceil(n_cu, max_u32(work, 1)), 1);
        (ns, ns == 1)
    }
}

/// The split is never zero, a fused flash is never split, and packing never splits.
pub proof fn flash_splits_are_sound(gemv: bool, packed: bool, n_cu: int, heads: int, t: int)
    requires
        n_cu >= 0,
        heads >= 0,
        gemv ==> heads > 0,
        t >= 0,
    ensures
        flash_split(gemv, packed, n_cu, heads, t).0 >= 1,
        flash_split(gemv, packed, n_cu, heads, t).1 ==> flash_split(gemv, packed, n_cu, heads, t).0
            == 1 && !gemv,
        !gemv && packed ==> flash_split(gemv, packed, n_cu, heads, t) == (1int, true),
        gemv ==> flash_split(gemv, packed, n_cu, heads, t) == flash_split(
            gemv,
            !packed,
            n_cu,
            heads,
            t,
        ),
{
}

} // verus!
