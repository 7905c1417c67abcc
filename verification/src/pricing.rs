//! What a product's tiles cost on a part, and the tile that is chosen for it.
use vstd::prelude::*;

use crate::amd_target::Priced;
use crate::arith::{ceil_div, div_ceil_u64, larger, mul_le};
use crate::gemm::{
    buffers_of, cheapest, cheapest_is_least, chosen, cost_fits, cost_of, eligible, entry_index,
    gfx950_rungs, prices, rung_op, rungs, tile_cost, tile_op, Field, QuantScheme, Rung, ShapeCosts,
    TileCycles, TileTable,
};
use crate::isa::DevOp;
use crate::tune::{all_measured, lookup, price_shape, priced, Candidate, GemmMeasurements, Measured};

verus! {

/// A product to price: its dimensions and encoding, the case that it is measured under, and for
/// each rung of the ladder what the cost model says of its tile and its number in the store.
pub struct Wanted {
    pub m: u32,
    pub n: u32,
    pub k: u32,
    pub quant: QuantScheme,
    pub case: String,
    pub cycles: Vec<TileCycles>,
    pub ids: Vec<u16>,
}

/// What the cost model makes of rung `i` for a product on a part.
pub open spec fn rung_cost(
    part: Priced,
    m: u32,
    n: u32,
    k: u32,
    n_cu: u32,
    cyc: Seq<TileCycles>,
    i: int,
) -> int {
    cost_of(
        part.spec.shared_mem as int,
        buffers_of(Some(part.isa)),
        Some(rungs()[i].tile),
        m as int,
        n as int,
        k as int,
        n_cu as int,
        cyc[i],
    )
}

/// The candidates for a product: one to a rung.
pub open spec fn candidates_of(
    part: Priced,
    m: u32,
    n: u32,
    k: u32,
    n_cu: u32,
    q: QuantScheme,
    cyc: Seq<TileCycles>,
    ids: Seq<u16>,
) -> Seq<Candidate> {
    Seq::new(
        rungs().len(),
        |i: int|
            Candidate {
                op: rung_op(rungs()[i], q)->0,
                kernel_id: ids[i],
                analytic: rung_cost(part, m, n, k, n_cu, cyc, i) as u64,
            },
    )
}

/// Whether rungs come in an encoding.
pub open spec fn has_rungs(q: QuantScheme) -> bool {
    q == QuantScheme::Plain || q == QuantScheme::W8A8 || q == QuantScheme::Mxfp4
}

/// Whether a product can be priced: its encoding has rungs, there is one answer of the cost model
/// and one number for each, and no tile's cycles leave sixty-four bits.
pub open spec fn can_be_priced(
    part: Priced,
    m: u32,
    n: u32,
    k: u32,
    q: QuantScheme,
    cyc: Seq<TileCycles>,
    ids: Seq<u16>,
) -> bool {
    &&& has_rungs(q)
    &&& cyc.len() == rungs().len()
    &&& ids.len() == rungs().len()
    &&& forall|i: int|
        0 <= i < rungs().len() ==> cost_fits(
            buffers_of(Some(part.isa)),
            Some((#[trigger] rungs()[i]).tile),
            m as int,
            n as int,
            k as int,
            cyc[i],
        )
}

/// Only a tile's own cycles can leave sixty-four bits.
proof fn rung_fits(part: Priced, m: u32, n: u32, k: u32, c: TileCycles, i: int)
    requires
        0 <= i < rungs().len(),
    ensures
        cost_fits(
            buffers_of(Some(part.isa)),
            Some(rungs()[i].tile),
            m as int,
            n as int,
            k as int,
            c,
        ) == (ceil_div(larger(k as int, 1), 64) * c.mac <= u64::MAX),
{
    let t = rungs()[i].tile;
    assert(t.bk == 64 && 64 <= t.bm <= 256 && 128 <= t.bn <= 256);
    let b = buffers_of(Some(part.isa));
    assert(1 <= b <= 2);
    let side = t.bm + t.bn;
    mul_le(b, side, 2, 512);
    mul_le(b * side, 72, 1024, 72);
    mul_le(t.bm as int, t.bn as int, 256, 256);
    assert(b * side * (t.bk + 8) <= 1024 * 72);
    let down = ceil_div(larger(m as int, 1), t.bm as int);
    let across = ceil_div(larger(n as int, 1), t.bn as int);
    assert(0 <= down <= u32::MAX) by (nonlinear_arith)
        requires
            down == (larger(m as int, 1) + t.bm as int - 1) / (t.bm as int),
            1 <= larger(m as int, 1) <= u32::MAX,
            64 <= t.bm <= 256,
    ;
    assert(0 <= across <= u32::MAX) by (nonlinear_arith)
        requires
            across == (larger(n as int, 1) + t.bn as int - 1) / (t.bn as int),
            1 <= larger(n as int, 1) <= u32::MAX,
            128 <= t.bn <= 256,
    ;
    mul_le(down, across, u32::MAX as int, u32::MAX as int);
}

/// Whether a product can be priced.
pub fn is_priceable(
    part: Priced,
    m: u32,
    n: u32,
    k: u32,
    q: QuantScheme,
    cyc: &Vec<TileCycles>,
    ids: &Vec<u16>,
) -> (r: bool)
    ensures
        r == can_be_priced(part, m, n, k, q, cyc@, ids@),
{
    if !(q == QuantScheme::Plain || q == QuantScheme::W8A8 || q == QuantScheme::Mxfp4) {
        return false;
    }
    if cyc.len() != 5 || ids.len() != 5 {
        return false;
    }
    let steps: u64 = div_ceil_u64(if k < 1 { 1 } else { k as u64 }, 64);
    let mut i: usize = 0;
    while i < 5
        invariant
            i <= 5,
            cyc@.len() == 5,
            steps == ceil_div(larger(k as int, 1), 64),
            forall|j: int|
                0 <= j < i ==> cost_fits(
                    buffers_of(Some(part.isa)),
                    Some((#[trigger] rungs()[j]).tile),
                    m as int,
                    n as int,
                    k as int,
                    cyc@[j],
                ),
        decreases 5 - i,
    {
        proof {
            rung_fits(part, m, n, k, cyc@[i as int], i as int);
        }
        if steps.checked_mul(cyc[i].mac).is_none() {
            proof {
                let g = rungs()[i as int];
                assert(!cost_fits(
                    buffers_of(Some(part.isa)),
                    Some(rungs()[i as int].tile),
                    m as int,
                    n as int,
                    k as int,
                    cyc@[i as int],
                ));
            }
            return false;
        }
        i = i + 1;
    }
    true
}

/// Prices a product on a part of `n_cu` units: each rung of its encoding at what it was measured at
/// where all were measured, else at what the cost model makes of its tile.
pub fn price_product(
    part: Priced,
    m: u32,
    n: u32,
    k: u32,
    n_cu: u32,
    q: QuantScheme,
    cyc: &Vec<TileCycles>,
    ms: &GemmMeasurements,
    case: &String,
    ids: &Vec<u16>,
) -> (r: ShapeCosts)
    requires
        can_be_priced(part, m, n, k, q, cyc@, ids@),
    ensures
        prices(r, m, n, k, q),
        r.kernels@ == priced(
            ms.rows@,
            case@,
            candidates_of(part, m, n, k, n_cu, q, cyc@, ids@),
        ),
{
    let ghost all = candidates_of(part, m, n, k, n_cu, q, cyc@, ids@);
    let rs: Vec<Rung> = gfx950_rungs();
    let mut cs: Vec<Candidate> = Vec::new();
    let mut i: usize = 0;
    while i < rs.len()
        invariant
            rs@ == rungs(),
            can_be_priced(part, m, n, k, q, cyc@, ids@),
            all == candidates_of(part, m, n, k, n_cu, q, cyc@, ids@),
            i <= rs@.len(),
            cs@.len() == i,
            forall|j: int| 0 <= j < i ==> #[trigger] cs@[j] == all[j],
        decreases rs@.len() - i,
    {
        let g: Rung = rs[i];
        proof {
            assert(g == rungs()[i as int]);
        }
        let op: DevOp = match q {
            QuantScheme::W8A8 => g.fp8,
            QuantScheme::Mxfp4 => g.mxfp4,
            _ => g.bf16,
        };
        let analytic: u64 = tile_cost(
            part.spec.shared_mem,
            Some(part.isa),
            Some(g.tile),
            m as i64,
            n as i64,
            k as i64,
            n_cu,
            cyc[i],
        );
        cs.push(Candidate { op, kernel_id: ids[i], analytic });
        i = i + 1;
    }
    proof {
        assert(cs@ =~= all);
    }
    ShapeCosts { m, n, k, quant: q, kernels: price_shape(ms, case, &cs) }
}

/// Whether a product of a list can be priced.
pub open spec fn wanted_fits(part: Priced, w: Wanted) -> bool {
    can_be_priced(part, w.m, w.n, w.k, w.quant, w.cycles@, w.ids@)
}

/// Whether an entry prices a product of a list.
pub open spec fn priced_as(
    e: ShapeCosts,
    part: Priced,
    n_cu: u32,
    rows: Seq<Measured>,
    w: Wanted,
) -> bool {
    &&& prices(e, w.m, w.n, w.k, w.quant)
    &&& e.kernels@ == priced(
        rows,
        w.case@,
        candidates_of(part, w.m, w.n, w.k, n_cu, w.quant, w.cycles@, w.ids@),
    )
}

/// Prices the products of a list, in their order; nothing where one cannot be priced.
pub fn price_products(
    part: Priced,
    n_cu: u32,
    ms: &GemmMeasurements,
    ws: &Vec<Wanted>,
) -> (r: Option<TileTable>)
    ensures
        r is Some <==> forall|i: int| 0 <= i < ws@.len() ==> wanted_fits(part, #[trigger] ws@[i]),
        r matches Some(t) ==> {
            &&& t.shapes@.len() == ws@.len()
            &&& forall|i: int|
                0 <= i < ws@.len() ==> priced_as(
                    #[trigger] t.shapes@[i],
                    part,
                    n_cu,
                    ms.rows@,
                    ws@[i],
                )
        },
{
    let mut shapes: Vec<ShapeCosts> = Vec::new();
    let mut i: usize = 0;
    while i < ws.len()
        invariant
            i <= ws@.len(),
            shapes@.len() == i,
            forall|j: int| 0 <= j < i ==> wanted_fits(part, #[trigger] ws@[j]),
            forall|j: int|
                0 <= j < i ==> priced_as(#[trigger] shapes@[j], part, n_cu, ms.rows@, ws@[j]),
        decreases ws@.len() - i,
    {
        let w: &Wanted = &ws[i];
        if !is_priceable(part, w.m, w.n, w.k, w.quant, &w.cycles, &w.ids) {
            proof {
                assert(!wanted_fits(part, ws@[i as int]));
            }
            return None;
        }
        let ghost before = shapes@;
        shapes.push(
            price_product(
                part,
                w.m,
                w.n,
                w.k,
                n_cu,
                w.quant,
                &w.cycles,
                ms,
                &w.case,
                &w.ids,
            ),
        );
        proof {
            assert forall|j: int| 0 <= j < i + 1 implies priced_as(
                #[trigger] shapes@[j],
                part,
                n_cu,
                ms.rows@,
                ws@[j],
            ) by {
                if j < i {
                    assert(shapes@[j] == before[j]);
                }
            }
        }
        i = i + 1;
    }
    Some(TileTable { shapes })
}

/// What rung `i` costs: its measurement where every rung was measured, else what the cost model
/// makes of it.
pub open spec fn price_of(
    part: Priced,
    m: u32,
    n: u32,
    k: u32,
    n_cu: u32,
    q: QuantScheme,
    cyc: Seq<TileCycles>,
    rows: Seq<Measured>,
    case: Seq<char>,
    ids: Seq<u16>,
    i: int,
) -> int {
    if all_measured(rows, case, candidates_of(part, m, n, k, n_cu, q, cyc, ids)) {
        lookup(rows, case, ids[i])->0 as int
    } else {
        rung_cost(part, m, n, k, n_cu, cyc, i)
    }
}

proof fn rung_cost_holds(part: Priced, m: u32, n: u32, k: u32, n_cu: u32, cyc: Seq<TileCycles>, i: int)
    requires
        0 <= i < rungs().len(),
    ensures
        0 <= rung_cost(part, m, n, k, n_cu, cyc, i) <= u64::MAX,
{
    let t = rungs()[i].tile;
    assert(t.bk == 64 && 64 <= t.bm <= 256 && 128 <= t.bn <= 256);
    let down = ceil_div(larger(m as int, 1), t.bm as int);
    let across = ceil_div(larger(n as int, 1), t.bn as int);
    assert(down >= 0) by (nonlinear_arith)
        requires
            down == (larger(m as int, 1) + t.bm as int - 1) / (t.bm as int),
            1 <= larger(m as int, 1),
            64 <= t.bm <= 256,
    ;
    assert(across >= 0) by (nonlinear_arith)
        requires
            across == (larger(n as int, 1) + t.bn as int - 1) / (t.bn as int),
            1 <= larger(n as int, 1),
            128 <= t.bn <= 256,
    ;
    assert(down * across >= 0) by (nonlinear_arith)
        requires
            down >= 0,
            across >= 0,
    ;
    let units = larger(n_cu as int, 1);
    let rounds = crate::gemm::tile_rounds(t, m as int, n as int, n_cu as int);
    assert(rounds >= 0) by (nonlinear_arith)
        requires
            rounds == (down * across + units - 1) / units,
            down * across >= 0,
            units >= 1,
    ;
    let cycles = crate::gemm::tile_cycles(t, k as int, cyc[i]);
    assert(cycles >= 0);
    assert(rounds * cycles >= 0) by (nonlinear_arith)
        requires
            rounds >= 0,
            cycles >= 0,
    ;
    mul_le(t.bm as int, t.bn as int, 256, 256);
    assert(t.bm * t.bn >= 0) by (nonlinear_arith);
}

/// A product that was priced runs on a rung of its own encoding that costs no more than any other
/// rung, and less than those before it: the model's cost of each decides, until every rung was
/// measured, and then the measurements do.
pub proof fn the_cheapest_rung_is_chosen(
    tab: TileTable,
    at: int,
    part: Priced,
    m: u32,
    n: u32,
    k: u32,
    n_cu: u32,
    q: QuantScheme,
    cyc: Seq<TileCycles>,
    rows: Seq<Measured>,
    case: Seq<char>,
    ids: Seq<u16>,
) -> (g: int)
    requires
        can_be_priced(part, m, n, k, q, cyc, ids),
        at == entry_index(tab.shapes@, m, n, k, q, 0),
        0 <= at < tab.shapes@.len(),
        tab.shapes@[at].kernels@ == priced(
            rows,
            case,
            candidates_of(part, m, n, k, n_cu, q, cyc, ids),
        ),
    ensures
        0 <= g < rungs().len(),
        chosen(tab, m, n, k, q, Field::AllRungs) == rung_op(rungs()[g], q),
        Some(tile_op(true, tab, m, n, k, q)) == rung_op(rungs()[g], q),
        forall|j: int|
            0 <= j < rungs().len() ==> price_of(part, m, n, k, n_cu, q, cyc, rows, case, ids, g)
                <= #[trigger] price_of(part, m, n, k, n_cu, q, cyc, rows, case, ids, j),
        forall|j: int|
            0 <= j < g ==> price_of(part, m, n, k, n_cu, q, cyc, rows, case, ids, g)
                < #[trigger] price_of(part, m, n, k, n_cu, q, cyc, rows, case, ids, j),
{
    let cs = candidates_of(part, m, n, k, n_cu, q, cyc, ids);
    let ks = tab.shapes@[at].kernels@;
    assert(ks.len() == rungs().len());
    assert forall|j: int| 0 <= j < rungs().len() implies eligible(
        (#[trigger] ks[j]).op,
        q,
        Field::AllRungs,
    ) && ks[j].cost == price_of(part, m, n, k, n_cu, q, cyc, rows, case, ids, j) && Some(ks[j].op)
        == rung_op(rungs()[j], q) by {
        assert(cs[j].op == rung_op(rungs()[j], q)->0);
        assert(rung_op(rungs()[j], q) == Some(ks[j].op));
        rung_cost_holds(part, m, n, k, n_cu, cyc, j);
    }
    cheapest_is_least(ks, q, Field::AllRungs, ks.len() as int);
    let g = cheapest(ks, q, Field::AllRungs, ks.len() as int);
    assert(eligible(ks[0].op, q, Field::AllRungs));
    let b = g->0;
    assert forall|j: int| 0 <= j < rungs().len() implies price_of(
        part,
        m,
        n,
        k,
        n_cu,
        q,
        cyc,
        rows,
        case,
        ids,
        b,
    ) <= #[trigger] price_of(part, m, n, k, n_cu, q, cyc, rows, case, ids, j) by {
        assert(eligible(ks[j].op, q, Field::AllRungs));
    }
    assert forall|j: int| 0 <= j < b implies price_of(
        part,
        m,
        n,
        k,
        n_cu,
        q,
        cyc,
        rows,
        case,
        ids,
        b,
    ) < #[trigger] price_of(part, m, n, k, n_cu, q, cyc, rows, case, ids, j) by {
        assert(eligible(ks[j].op, q, Field::AllRungs));
    }
    b
}

} // verus!
