//! Which widths, tiles and splits are chosen, and why.
use vstd::prelude::*;

use crate::arith::{ceil_div, ceil_div_bounds, larger};
use crate::dense::{
    ascending, ascending_sorts, most_splits, prefill_splits, prefill_widths, standard_widths, up_to,
    wave_widths, width_splits, with_missing,
};
use crate::emit_config::EmitConfig;
use crate::gemm::{
    chosen, cost_of, eligible, glu_fused, lds_bytes, operand_bytes, rung_op, rungs, step_macs,
    tile_cycles, tile_op, tile_rank, tile_rounds, Field, QuantScheme, Tile, TileCycles, TileTable,
};
use crate::isa::DevOp;
use crate::ladder::listed;
use crate::opcodes::opt_text;
use crate::target::{geometry_of, ArchGeometry, IsaLevel};
use crate::tune::{
    fallback_selection, gemv_cases, takes_wide, AttentionAlgorithm, AttentionSource, KernelRecord,
    WidePlan,
};

verus! {

proof fn up_to_has(s: Seq<u32>, cap: u32, w: u32)
    ensures
        up_to(s, cap).contains(w) <==> s.contains(w) && w <= cap,
    decreases s.len(),
{
    if s.len() > 0 {
        let t = s.drop_last();
        let r = up_to(t, cap);
        let all = up_to(s, cap);
        up_to_has(t, cap, w);
        if t.contains(w) {
            let i = choose|i: int| 0 <= i < t.len() && t[i] == w;
            assert(s[i] == w);
        }
        if s.contains(w) && !t.contains(w) {
            let i = choose|i: int| 0 <= i < s.len() && s[i] == w;
            if i < t.len() {
                assert(t[i] == w);
            }
            assert(s.last() == w);
            if w <= cap {
                assert(all[r.len() as int] == w);
            }
        }
        if r.contains(w) {
            let i = choose|i: int| 0 <= i < r.len() && r[i] == w;
            assert(all[i] == w);
        }
        if all.contains(w) && !r.contains(w) {
            let i = choose|i: int| 0 <= i < all.len() && all[i] == w;
            if i < r.len() {
                assert(r[i] == w);
            }
            assert(s[s.len() - 1] == w);
        }
    }
}

proof fn wave_has(s: Seq<u32>, cap: u32, w: u32)
    ensures
        wave_widths(s, cap).contains(w) <==> w <= cap && exists|i: int|
            0 <= i < s.len() && (#[trigger] s[i]) * 128 == w,
    decreases s.len(),
{
    if s.len() > 0 {
        let t = s.drop_last();
        let r = wave_widths(t, cap);
        let all = wave_widths(s, cap);
        wave_has(t, cap, w);
        if exists|i: int| 0 <= i < t.len() && (#[trigger] t[i]) * 128 == w {
            let i = choose|i: int| 0 <= i < t.len() && (#[trigger] t[i]) * 128 == w;
            assert(s[i] * 128 == w);
        }
        if w <= cap && exists|i: int| 0 <= i < s.len() && (#[trigger] s[i]) * 128 == w {
            let i = choose|i: int| 0 <= i < s.len() && (#[trigger] s[i]) * 128 == w;
            if i < t.len() {
                assert(t[i] * 128 == w);
                let k = choose|k: int| 0 <= k < r.len() && r[k] == w;
                assert(all[k] == w);
            } else {
                assert(all[r.len() as int] == w);
            }
        }
        if all.contains(w) {
            let k = choose|k: int| 0 <= k < all.len() && all[k] == w;
            if k < r.len() {
                assert(r[k] == w);
            } else {
                assert(s[s.len() - 1] * 128 == w);
            }
        }
    }
}

proof fn missing_has(base: Seq<u32>, more: Seq<u32>, w: u32)
    ensures
        with_missing(base, more).contains(w) <==> base.contains(w) || more.contains(w),
    decreases more.len(),
{
    if more.len() > 0 {
        let t = more.drop_last();
        let r = with_missing(base, t);
        let all = with_missing(base, more);
        missing_has(base, t, w);
        if t.contains(w) {
            let i = choose|i: int| 0 <= i < t.len() && t[i] == w;
            assert(more[i] == w);
        }
        if more.contains(w) && !t.contains(w) {
            let i = choose|i: int| 0 <= i < more.len() && more[i] == w;
            if i < t.len() {
                assert(t[i] == w);
            }
            assert(more.last() == w);
            if !r.contains(w) {
                assert(all[r.len() as int] == w);
            }
        }
        if r.contains(w) {
            let i = choose|i: int| 0 <= i < r.len() && r[i] == w;
            assert(all[i] == w);
        }
        if all.contains(w) && !r.contains(w) {
            let i = choose|i: int| 0 <= i < all.len() && all[i] == w;
            if i < r.len() {
                assert(r[i] == w);
            }
            assert(more[more.len() - 1] == w);
        }
    }
}

/// A model has a prefill of a width exactly where the width is no wider than its cap and is one that
/// was named, or one of the standard six; on another target than AMD that follows the machine's
/// waves, one of whole rows of tiles takes their place.
pub proof fn widths_are_the_standard_and_the_named(
    k: EmitConfig,
    amd: bool,
    wave: Seq<u32>,
    cap: u32,
    w: u32,
)
    ensures
        prefill_widths(k, amd, wave, cap).contains(w) <==> w <= cap && (listed(
            opt_text(k.pf_ladder_append),
        ).contains(w) || (if !amd && k.pf_ladder_wave {
            exists|i: int| 0 <= i < wave.len() && (#[trigger] wave[i]) * 128 == w
        } else {
            w == 128 || w == 512 || w == 1024 || w == 2048 || w == 4096 || w == 8192
        })),
{
    let base = if !amd && k.pf_ladder_wave {
        wave_widths(wave, cap)
    } else {
        up_to(standard_widths(), cap)
    };
    let named = listed(opt_text(k.pf_ladder_append));
    let more = up_to(named, cap);
    wave_has(wave, cap, w);
    up_to_has(standard_widths(), cap, w);
    up_to_has(named, cap, w);
    missing_has(base, more, w);
    let s = with_missing(base, more);
    ascending_sorts(s);
    let r = ascending(s);
    assert(s.contains(w) <==> r.contains(w)) by {
        broadcast use vstd::seq_lib::group_to_multiset_ensures;

        assert(s.to_multiset().count(w) > 0 <==> s.contains(w));
        assert(r.to_multiset().count(w) > 0 <==> r.contains(w));
    }
    let std = standard_widths();
    assert(std[0] == 128 && std[1] == 512 && std[2] == 1024 && std[3] == 2048 && std[4] == 4096
        && std[5] == 8192);
}

proof fn most_is_most(n_cu: int, hs: int, widths: Seq<u32>, n: int, i: int)
    requires
        0 <= i < n <= widths.len(),
    ensures
        width_splits(n_cu, hs, widths[i] as int) <= most_splits(n_cu, hs, widths, n),
    decreases n,
{
    if i < n - 1 {
        most_is_most(n_cu, hs, widths, n - 1, i);
    }
}

/// There is room for the partial results of every prefill: as many splits of all rows as the widest
/// need takes. A width's need is its rows and heads times the splits that cover the compute units.
pub proof fn every_width_has_room_for_its_splits(
    n_cu: int,
    hs: int,
    rows: int,
    widths: Seq<u32>,
    i: int,
)
    requires
        0 <= i < widths.len(),
        rows * hs > 0,
        hs > 0,
        n_cu > 0,
    ensures
        ({
            let t = widths[i] as int;
            let items = larger(ceil_div(t, 256) * hs, 1);
            let ns = larger(ceil_div(n_cu, items), 1);
            &&& ns * items >= n_cu
            &&& prefill_splits(n_cu, hs, rows, widths) * (rows * hs) >= t * hs * ns
        }),
{
    let t = widths[i] as int;
    let items = larger(ceil_div(t, 256) * hs, 1);
    ceil_div_bounds(n_cu, items);
    most_is_most(n_cu, hs, widths, widths.len() as int, i);
    let most = most_splits(n_cu, hs, widths, widths.len() as int);
    assert(t * hs * larger(ceil_div(n_cu, items), 1) >= 0) by (nonlinear_arith)
        requires
            t >= 0,
            hs > 0,
            larger(ceil_div(n_cu, items), 1) >= 1,
    ;
    ceil_div_bounds(most, rows * hs);
    let a = ceil_div(most, rows * hs);
    assert(larger(a, 1) * (rows * hs) >= a * (rows * hs)) by (nonlinear_arith)
        requires
            larger(a, 1) >= a,
            rows * hs > 0,
    ;
}

proof fn most_is_some(n_cu: int, hs: int, widths: Seq<u32>, n: int)
    requires
        0 < n <= widths.len(),
        hs > 0,
    ensures
        exists|i: int|
            0 <= i < n && most_splits(n_cu, hs, widths, n) == width_splits(
                n_cu,
                hs,
                (#[trigger] widths[i]) as int,
            ),
    decreases n,
{
    let t = widths[n - 1] as int;
    let ns = larger(ceil_div(n_cu, larger(ceil_div(t, 256) * hs, 1)), 1);
    assert(t * hs * ns >= 0) by (nonlinear_arith)
        requires
            t >= 0,
            hs > 0,
            ns >= 1,
    ;
    if n > 1 {
        most_is_some(n_cu, hs, widths, n - 1);
        if most_splits(n_cu, hs, widths, n) == most_splits(n_cu, hs, widths, n - 1) {
            let i = choose|i: int|
                0 <= i < n - 1 && most_splits(n_cu, hs, widths, n - 1) == width_splits(
                    n_cu,
                    hs,
                    (#[trigger] widths[i]) as int,
                );
            assert(most_splits(n_cu, hs, widths, n) == width_splits(n_cu, hs, widths[i] as int));
        } else {
            assert(most_splits(n_cu, hs, widths, n) == width_splits(n_cu, hs, widths[n - 1] as int));
        }
    } else {
        assert(most_splits(n_cu, hs, widths, 0) == 0);
        assert(most_splits(n_cu, hs, widths, n) == width_splits(n_cu, hs, widths[n - 1] as int));
    }
}

/// No more partial results are kept than some width needs: with one split less a width would not have
/// room for its own. Without a prefill, they are those of a tile of 256 rows on every unit.
pub proof fn no_more_splits_are_kept_than_a_width_needs(
    n_cu: int,
    hs: int,
    rows: int,
    widths: Seq<u32>,
)
    requires
        rows * hs > 0,
        hs > 0,
        n_cu > 0,
        prefill_splits(n_cu, hs, rows, widths) > 1,
    ensures
        widths.len() > 0 ==> exists|i: int|
            0 <= i < widths.len() && (prefill_splits(n_cu, hs, rows, widths) - 1) * (rows * hs) < (
            #[trigger] widths[i]) * hs * larger(
                ceil_div(n_cu, larger(ceil_div(widths[i] as int, 256) * hs, 1)),
                1,
            ),
        widths.len() == 0 ==> {
            let r = prefill_splits(n_cu, hs, rows, widths);
            r * (rows * hs) >= 256 * n_cu && (r - 1) * (rows * hs) < 256 * n_cu
        },
{
    let n = widths.len() as int;
    let most = if n == 0 { n_cu * 256 } else { most_splits(n_cu, hs, widths, n) };
    if n > 0 {
        most_is_some(n_cu, hs, widths, n);
        let i = choose|i: int|
            0 <= i < n && most_splits(n_cu, hs, widths, n) == width_splits(
                n_cu,
                hs,
                (#[trigger] widths[i]) as int,
            );
        let t = widths[i] as int;
        let ns = larger(ceil_div(n_cu, larger(ceil_div(t, 256) * hs, 1)), 1);
        assert(t * hs * ns >= 0) by (nonlinear_arith)
            requires
                t >= 0,
                hs > 0,
                ns >= 1,
        ;
        ceil_div_bounds(most, rows * hs);
        assert((prefill_splits(n_cu, hs, rows, widths) - 1) * (rows * hs) < widths[i] * hs * ns);
    } else {
        ceil_div_bounds(most, rows * hs);
    }
}

/// The tile ladder: each rung's tile, one opcode of each encoding, and the depth of a step.
pub proof fn rungs_have_their_tiles(i: int)
    requires
        0 <= i < rungs().len(),
    ensures
        rungs().len() == 5,
        ({
            let g = rungs()[i];
            let is = |b: DevOp, e: DevOp, f: DevOp, m: int, n: int|
                g.bf16 == b && g.fp8 == e && g.mxfp4 == f && g.tile.bm == m && g.tile.bn == n;
            &&& g.tile.bk == 64
            &&& i == 0 ==> is(DevOp::Gemm, DevOp::GemmFp8, DevOp::GemmMxfp4, 256, 256)
            &&& i == 1 ==> is(DevOp::GemmMed, DevOp::GemmMedFp8, DevOp::GemmMedMxfp4, 128, 128)
            &&& i == 2 ==> is(DevOp::GemmSmall, DevOp::GemmSmallFp8, DevOp::GemmSmallMxfp4, 64, 128)
            &&& i == 3 ==> is(DevOp::GemmWide, DevOp::GemmWideFp8, DevOp::GemmWideMxfp4, 128, 256)
            &&& i == 4 ==> is(DevOp::GemmC5, DevOp::GemmC5Fp8, DevOp::GemmC5Mxfp4, 192, 256)
            &&& rung_op(g, QuantScheme::Plain) == Some(g.bf16)
            &&& rung_op(g, QuantScheme::W8A8) == Some(g.fp8)
            &&& rung_op(g, QuantScheme::Mxfp4) == Some(g.mxfp4)
        }),
{
}

/// A tile's bytes of workgroup memory are two to a half of the arena that the same tile makes, and
/// twice the buffers take twice the bytes.
pub proof fn a_tile_fills_its_arena(g: ArchGeometry)
    ensures
        lds_bytes(g.bm as int, g.bn as int, g.bk as int, g.gemm_stage_buffers as int) == 2
            * g.arena(),
        lds_bytes(g.bm as int, g.bn as int, g.bk as int, 2) == 2 * lds_bytes(
            g.bm as int,
            g.bn as int,
            g.bk as int,
            1,
        ),
        lds_bytes(g.bm as int, g.bn as int, g.bk as int, 1) == 2 * (g.bm + g.bn) * (g.bk + 8),
{
    let x = g.bm + g.bn;
    let y = g.bk + 8;
    let b = g.gemm_stage_buffers as int;
    assert(b * x * y * 2 == 2 * (b * x * y)) by (nonlinear_arith);
    assert(2 * x * y * 2 == 2 * (1 * x * y * 2)) by (nonlinear_arith);
    assert(1 * x * y * 2 == 2 * x * y) by (nonlinear_arith);
}

/// The tile and the buffers of each part.
pub proof fn parts_have_their_geometry(isa: IsaLevel)
    ensures
        geometry_of(isa) is None <==> isa == IsaLevel::Sm90,
        geometry_of(isa) matches Some(g) ==> {
            &&& g.bn == 256
            &&& isa == IsaLevel::Gfx942 ==> g.bm == 128 && g.bk == 32 && g.gemm_stage_buffers == 1
            &&& isa != IsaLevel::Gfx942 ==> g.bm == 256 && g.bk == 64 && g.gemm_stage_buffers == 2
        },
{
}

/// What a cost model is asked for: multiplications are as the tile's volume, and traffic as its two
/// sides times the depth, two bytes to an element.
pub proof fn a_tile_is_priced_by_its_sides(t: Tile, a: int, b: int)
    ensures
        operand_bytes(t, a + b) == operand_bytes(t, a) + operand_bytes(t, b),
        operand_bytes(t, 1) == 2 * (t.bm + t.bn),
        step_macs(t) == t.bk * (t.bm * t.bn),
{
    let x = t.bm as int;
    let y = t.bn as int;
    assert((x * (a + b) + (a + b) * y) * 2 == (x * a + a * y) * 2 + (x * b + b * y) * 2)
        by (nonlinear_arith);
    assert(x * y * t.bk == t.bk * (x * y)) by (nonlinear_arith);
    assert(x * 1 == x && 1 * y == y);
}

/// Rounds are the fewest in which the units cover every tile of a product.
pub proof fn rounds_cover_the_tiles(t: Tile, m: int, n: int, n_units: int)
    requires
        t.bm > 0,
        t.bn > 0,
        m >= 0,
        n >= 0,
        n_units >= 1,
    ensures
        ({
            let tiles = ceil_div(larger(m, 1), t.bm as int) * ceil_div(larger(n, 1), t.bn as int);
            let r = tile_rounds(t, m, n, n_units);
            &&& ceil_div(larger(m, 1), t.bm as int) * t.bm >= m
            &&& ceil_div(larger(n, 1), t.bn as int) * t.bn >= n
            &&& r * n_units >= tiles
            &&& (r - 1) * n_units < tiles
        }),
{
    ceil_div_bounds(larger(m, 1), t.bm as int);
    ceil_div_bounds(larger(n, 1), t.bn as int);
    let a = ceil_div(larger(m, 1), t.bm as int);
    let b = ceil_div(larger(n, 1), t.bn as int);
    assert(a * b >= 0) by (nonlinear_arith)
        requires
            a >= 0,
            b >= 0,
    ;
    ceil_div_bounds(a * b, n_units);
}

/// A tile takes the longer of its multiplications, step by step over the depth, and its traffic.
pub proof fn a_tile_takes_its_longer_side(t: Tile, k: int, cyc: TileCycles)
    requires
        t.bk > 0,
        k >= 1,
    ensures
        tile_cycles(t, k, cyc) >= cyc.dma,
        tile_cycles(t, k, cyc) >= ceil_div(k, t.bk as int) * cyc.mac,
        tile_cycles(t, k, cyc) == cyc.dma || tile_cycles(t, k, cyc) == ceil_div(k, t.bk as int)
            * cyc.mac,
{
}

/// A tile that does not fit the workgroup memory, and a kernel without one, cost the most there is.
/// Of two tiles that fit, the one of fewer cycles costs less; of two of as many, the wider one.
pub proof fn the_faster_tile_costs_less_and_then_the_wider(
    lds: int,
    buffers: int,
    s: Tile,
    t: Tile,
    m: int,
    n: int,
    k: int,
    n_units: int,
    cs: TileCycles,
    ct: TileCycles,
)
    requires
        lds_bytes(s.bm as int, s.bn as int, s.bk as int, buffers) <= lds,
        lds_bytes(t.bm as int, t.bn as int, t.bk as int, buffers) <= lds,
        s.bm * s.bn <= 65536,
        t.bm * t.bn <= 65536,
        0 <= tile_rounds(s, m, n, n_units) * tile_cycles(s, k, cs) < u64::MAX / 16,
        0 <= tile_rounds(t, m, n, n_units) * tile_cycles(t, k, ct) < u64::MAX / 16,
    ensures
        ({
            let a = tile_rounds(s, m, n, n_units) * tile_cycles(s, k, cs);
            let b = tile_rounds(t, m, n, n_units) * tile_cycles(t, k, ct);
            let x = cost_of(lds, buffers, Some(s), m, n, k, n_units, cs);
            let y = cost_of(lds, buffers, Some(t), m, n, k, n_units, ct);
            &&& a < b ==> x < y
            &&& a == b ==> (x < y <==> tile_rank(s) < tile_rank(t))
            &&& tile_rank(s) < tile_rank(t) ==> s.bm * s.bn > t.bm * t.bn
            &&& s.bm * s.bn == 65536 ==> tile_rank(s) == 0
            &&& cost_of(lds, buffers, None, m, n, k, n_units, cs) == u64::MAX
        }),
{
    assert(s.bm * s.bn >= 0) by (nonlinear_arith);
    assert(t.bm * t.bn >= 0) by (nonlinear_arith);
}

/// A tile that does not fit costs the most there is.
pub proof fn a_tile_that_does_not_fit_is_not_chosen_by_price(
    lds: int,
    buffers: int,
    t: Tile,
    m: int,
    n: int,
    k: int,
    n_units: int,
    cyc: TileCycles,
)
    requires
        lds_bytes(t.bm as int, t.bn as int, t.bk as int, buffers) > lds,
    ensures
        cost_of(lds, buffers, Some(t), m, n, k, n_units, cyc) == u64::MAX,
{
}

/// A target without prices runs every product on its encoding's one tile and gates as it goes unless
/// it is told not to. A priced one gates as it goes where the widest tile is the cheapest of the
/// three that could.
pub proof fn unpriced_targets_have_one_tile(
    tab: TileTable,
    m: u32,
    n: u32,
    k: u32,
    off: bool,
)
    ensures
        tile_op(false, tab, m, n, k, QuantScheme::Plain) == DevOp::Gemm,
        tile_op(false, tab, m, n, k, QuantScheme::W8A8) == DevOp::GemmFp8,
        tile_op(false, tab, m, n, k, QuantScheme::Mxfp4) == DevOp::GemmMxfp4,
        glu_fused(false, off, tab, m, n, k) == !off,
        glu_fused(true, off, tab, m, n, k) <==> chosen(
            tab,
            m,
            n,
            k,
            QuantScheme::Plain,
            Field::GluRungs,
        ) == Some(DevOp::Gemm),
        chosen(tab, m, n, k, QuantScheme::Plain, Field::AllRungs) matches Some(op) ==> tile_op(
            true,
            tab,
            m,
            n,
            k,
            QuantScheme::Plain,
        ) == op,
        forall|op: DevOp| #[trigger]
            eligible(op, QuantScheme::Plain, Field::GluRungs) ==> op == DevOp::Gemm || op
                == DevOp::GemmMed || op == DevOp::GemmSmall,
        forall|op: DevOp| #[trigger]
            eligible(op, QuantScheme::Mxfp4, Field::GluRungs) ==> op == DevOp::GemmMxfp4 || op
                == DevOp::GemmMedMxfp4 || op == DevOp::GemmSmallMxfp4,
        eligible(DevOp::Gemm, QuantScheme::Plain, Field::GluRungs),
        eligible(DevOp::GemmMed, QuantScheme::Plain, Field::GluRungs),
        eligible(DevOp::GemmSmall, QuantScheme::Plain, Field::GluRungs),
{
    let r = rungs();
    assert(r[0].bf16 == DevOp::Gemm && r[1].bf16 == DevOp::GemmMed && r[2].bf16
        == DevOp::GemmSmall && r[3].bf16 == DevOp::GemmWide && r[4].bf16 == DevOp::GemmC5);
    assert(rung_op(r[0], QuantScheme::Plain) == Some(DevOp::Gemm));
    assert(rung_op(r[1], QuantScheme::Plain) == Some(DevOp::GemmMed));
    assert(rung_op(r[2], QuantScheme::Plain) == Some(DevOp::GemmSmall));
}

/// The widest variant takes a product only on gfx950, in bf16, where it is on and has won, and where
/// its tiles divide the product and are as many as the compute units.
pub proof fn the_widest_variant_fills_the_machine_once(
    w: WidePlan,
    amd: bool,
    isa: IsaLevel,
    m: u32,
    n: u32,
    k: u32,
    n_cu: u32,
    q: QuantScheme,
    on: bool,
    won: bool,
)
    requires
        w.bm > 0,
        w.bn > 0,
        w.bk > 0,
    ensures
        takes_wide(w, amd, isa, m, n, k, n_cu, q, on, won) ==> amd && isa == IsaLevel::Gfx950 && q
            == QuantScheme::Plain && on && won && m % w.bm == 0 && n % w.bn == 0 && k % w.bk == 0
            && (m / w.bm) * (n / w.bn) == n_cu,
        amd && isa == IsaLevel::Gfx950 && q == QuantScheme::Plain && on && won && m % w.bm == 0 && n
            % w.bn == 0 && k % w.bk == 0 && (m / w.bm) * (n / w.bn) == n_cu ==> takes_wide(
            w,
            amd,
            isa,
            m,
            n,
            k,
            n_cu,
            q,
            on,
            won,
        ),
{
    whole(m as int, w.bm as int);
    whole(n as int, w.bn as int);
}

proof fn whole(a: int, b: int)
    requires
        a >= 0,
        b > 0,
    ensures
        a % b == 0 ==> ceil_div(a, b) == a / b,
{
    if a % b == 0 {
        vstd::arithmetic::div_mod::lemma_fundamental_div_mod(a, b);
        let q = a / b;
        assert(a + b - 1 == q * b + (b - 1)) by (nonlinear_arith)
            requires
                a == b * q + 0,
        ;
        vstd::arithmetic::div_mod::lemma_fundamental_div_mod_converse(a + b - 1, b, q, b - 1);
    }
}

/// Without measurements an attention is split as it was given, held between one and the most that
/// kernels are built for, and says that nothing was measured.
pub proof fn unmeasured_splits_are_held(max_nsplit: u32, fallback: u32)
    ensures
        ({
            let s = fallback_selection(max_nsplit, fallback);
            &&& s.algorithm == AttentionAlgorithm::SplitReduce
            &&& s.source == AttentionSource::FixedFallback
            &&& s.nsplit >= 1
            &&& max_nsplit >= 1 ==> s.nsplit <= max_nsplit
            &&& 1 <= fallback <= max_nsplit ==> s.nsplit == fallback
            &&& fallback > max_nsplit >= 1 ==> s.nsplit == max_nsplit
            &&& max_nsplit == 0 ==> s.nsplit == 1
        }),
{
}

/// The cases of measured row products are those of records that count and are of that profile, each
/// once.
pub proof fn cases_are_those_measured(rs: Seq<KernelRecord>, n: int, case: Seq<char>)
    requires
        0 <= n <= rs.len(),
    ensures
        gemv_cases(rs, n).contains(case) <==> exists|i: int|
            0 <= i < n && ({
                let r = #[trigger] rs[i];
                r.decode_gemv && r.selectable && !r.stale && r.case@ == case
            }),
    decreases n,
{
    if n > 0 {
        cases_are_those_measured(rs, n - 1, case);
        let s = gemv_cases(rs, n - 1);
        let all = gemv_cases(rs, n);
        if s.contains(case) {
            let k = choose|k: int| 0 <= k < s.len() && s[k] == case;
            assert(all[k] == case);
            let i = choose|i: int|
                0 <= i < n - 1 && ({
                    let r = #[trigger] rs[i];
                    r.decode_gemv && r.selectable && !r.stale && r.case@ == case
                });
            assert(rs[i].case@ == case);
        }
        if all.contains(case) && !s.contains(case) {
            let k = choose|k: int| 0 <= k < all.len() && all[k] == case;
            if k < s.len() {
                assert(s[k] == case);
            }
            assert(rs[n - 1].case@ == case);
        }
        let r = rs[n - 1];
        if r.decode_gemv && r.selectable && !r.stale && r.case@ == case && !s.contains(case) {
            assert(all[s.len() as int] == case);
        }
    }
}

} // verus!
