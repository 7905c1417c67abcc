//! What the programs of a model write has room in its tensors.
use vstd::prelude::*;

use crate::arith::{ceil_div, ceil_div_bounds, larger, mul_le};
use crate::config::Cfg;
use crate::declare::{part_cells, sizes_of, widest_head};
use crate::dense::{
    asked, chunk_rows, declare_for, most_splits, prefill_splits, prefill_widths_are_capped, refusal,
    request_for, splits_ok, tensors_fit, width_splits, widths_of, DenseFor,
};
use crate::emit_config::EmitConfig;
use crate::gemm::TileTable;
use crate::phase::{phase_of, phase_ok, Mode};
use crate::shape::Q_TILE_ROWS;

verus! {

proof fn most_splits_bounds(n_cu: int, hs: int, widths: Seq<u32>, n: int, i: int)
    requires
        0 <= i < n <= widths.len(),
        forall|j: int|
            0 <= j < widths.len() ==> width_splits(n_cu, hs, (#[trigger] widths[j]) as int)
                <= u32::MAX,
    ensures
        width_splits(n_cu, hs, widths[i] as int) <= most_splits(n_cu, hs, widths, n),
        0 <= most_splits(n_cu, hs, widths, n) <= u32::MAX,
    decreases n,
{
    assert(width_splits(n_cu, hs, widths[n - 1] as int) <= u32::MAX);
    if n > 1 {
        most_splits_bounds(n_cu, hs, widths, n - 1, if i < n - 1 { i } else { 0 });
    } else {
        assert(most_splits(n_cu, hs, widths, 0) == 0);
    }
}

/// The splits of one width are among those for which partial results are kept.
proof fn splits_are_kept(n_cu: int, hs: int, rows: int, widths: Seq<u32>, i: int)
    requires
        0 <= i < widths.len(),
        0 < hs,
        0 < rows,
        splits_ok(n_cu, hs, rows, widths),
    ensures
        width_splits(n_cu, hs, widths[i] as int) <= rows * hs * prefill_splits(
            n_cu,
            hs,
            rows,
            widths,
        ),
        1 <= prefill_splits(n_cu, hs, rows, widths) <= u32::MAX,
{
    assert forall|j: int| 0 <= j < widths.len() implies width_splits(
        n_cu,
        hs,
        (#[trigger] widths[j]) as int,
    ) <= u32::MAX by {}
    let most = most_splits(n_cu, hs, widths, widths.len() as int);
    most_splits_bounds(n_cu, hs, widths, widths.len() as int, i);
    let cells = rows * hs;
    assert(cells > 0) by (nonlinear_arith)
        requires
            cells == rows * hs,
            rows > 0,
            hs > 0,
    ;
    ceil_div_bounds(most, cells);
    let ns = prefill_splits(n_cu, hs, rows, widths);
    assert(cells * ns >= ceil_div(most, cells) * cells) by (nonlinear_arith)
        requires
            ns >= ceil_div(most, cells),
            cells > 0,
    ;
}

/// The partial results of every prefill have room: one for each row, head and split of its
/// attention, as wide as the widest head, and two numbers of its softmax.
pub proof fn prefill_partials_fit(
    k: EmitConfig,
    c: Cfg,
    tab: TileTable,
    xr: u32,
    f: DenseFor,
    wave: Seq<u32>,
    i: int,
)
    requires
        refusal(k, c, f, wave) is None,
        tensors_fit(k, c, f, wave),
        0 <= i < widths_of(k, c, f, wave).len(),
    ensures
        ({
            let p = phase_of(k, c, tab, xr, request_for(k, f, true, widths_of(k, c, f, wave)[i]));
            let z = sizes_of(k, c, f.n_cu, declare_for(k, c, f, widths_of(k, c, f, wave)));
            &&& p.t == widths_of(k, c, f, wave)[i]
            &&& p.t * p.heads * p.ns * widest_head(c) <= z.opart
            &&& p.t * p.heads * p.ns * 2 <= z.mlpart
        }),
{
    reveal(phase_of);
    let widths = widths_of(k, c, f, wave);
    let q = request_for(k, f, true, widths[i]);
    let p = phase_of(k, c, tab, xr, q);
    let d = declare_for(k, c, f, widths);
    let rows = chunk_rows(k, c, f);
    let t = widths[i] as int;
    let hs = (c.heads / c.tp) as int;
    let n_cu = f.n_cu as int;
    prefill_widths_are_capped(k, f.amd, wave, rows as u32);
    assert(t <= rows as u32);
    let work = larger(ceil_div(t, Q_TILE_ROWS as int) * hs, 1);
    ceil_div_bounds(n_cu, work);
    let full = larger(ceil_div(n_cu, work), 1);
    assert(p.ns <= full);
    assert(p.heads == hs && p.t == t);
    let most = larger(rows, 64) * hs * d.ns_pre;
    if hs == 0 || t == 0 {
        assert(t * hs == 0) by (nonlinear_arith)
            requires
                hs == 0 || t == 0,
        ;
        assert(t * hs * p.ns == 0);
        mul_le(larger(rows, 64), hs, larger(rows, 64), hs);
        mul_le(larger(rows, 64) * hs, d.ns_pre as int, larger(rows, 64) * hs, d.ns_pre as int);
    } else {
        splits_are_kept(n_cu, hs, rows, widths, i);
        assert(d.ns_pre == prefill_splits(n_cu, hs, rows, widths));
        assert(width_splits(n_cu, hs, t) == t * hs * full);
        mul_le(t, hs, t, hs);
        mul_le(t * hs, p.ns as int, t * hs, full);
        mul_le(rows, hs, larger(rows, 64), hs);
        mul_le(rows * hs, d.ns_pre as int, larger(rows, 64) * hs, d.ns_pre as int);
    }
    assert(0 <= t * hs * p.ns <= most);
    mul_le(t * hs * p.ns, widest_head(c), most, widest_head(c));
    mul_le(t * hs * p.ns, 2, most, 2);
    assert(t * hs * p.ns * widest_head(c) <= part_cells(k, c, d, widest_head(c)));
    assert(t * hs * p.ns * 2 <= part_cells(k, c, d, 2));
}

/// The two partial sums of a layer lie apart in the window that the devices share: the second one
/// begins at the same byte in every program, and no program's first one reaches it or outgrows its
/// tensor.
pub proof fn partial_sums_lie_apart(
    k: EmitConfig,
    c: Cfg,
    tab: TileTable,
    xr: u32,
    f: DenseFor,
    wave: Seq<u32>,
    i: int,
    j: int,
)
    requires
        refusal(k, c, f, wave) is None,
        tensors_fit(k, c, f, wave),
        widths_of(k, c, f, wave).len() > 0 || k.decode_rungs@.last() <= chunk_rows(k, c, f),
        0 <= i < asked(k, c, f, wave).len(),
        0 <= j < asked(k, c, f, wave).len(),
        phase_ok(k, c, asked(k, c, f, wave)[i]),
    ensures
        ({
            let p = phase_of(k, c, tab, xr, asked(k, c, f, wave)[i]);
            let q = phase_of(k, c, tab, xr, asked(k, c, f, wave)[j]);
            let z = sizes_of(k, c, f.n_cu, declare_for(k, c, f, widths_of(k, c, f, wave)));
            &&& p.slot_b == q.slot_b
            &&& 2 * p.th <= p.slot_b
            &&& p.slot_b == 2 * z.rh
        }),
{
    reveal(phase_of);
    let widths = widths_of(k, c, f, wave);
    let rs = asked(k, c, f, wave);
    let rows = chunk_rows(k, c, f);
    let t = rs[i].t as int;
    prefill_widths_are_capped(k, f.amd, wave, rows as u32);
    assert(t <= rows) by {
        if rs[i].mode != Mode::Prefill {
            let r = i - (rs.len() - k.decode_rungs@.len());
            assert(k.decode_rungs@[r] == rs[i].t);
            assert(k.decode_rungs@[r] <= k.decode_rungs@.last());
            if widths.len() > 0 {
                assert(k.decode_rungs@[r] < widths[0]);
            }
        } else {
            assert(widths[i] == rs[i].t);
        }
    }
    mul_le(t, c.hidden as int, rows, c.hidden as int);
}

} // verus!
