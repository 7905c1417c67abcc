//! Tile selection for the tiled matrix products.
use vstd::prelude::*;

use crate::arith::{ceil_div, div_ceil_u64, larger, max_u64, smaller};
use crate::isa::DevOp;
use crate::target::{stage_buffer_count, stage_buffers, IsaLevel};

verus! {

/// How a product's operands are encoded.
#[derive(Clone, Copy, PartialEq, Eq, Debug, Structural)]
pub enum QuantScheme {
    /// bf16 weights and activations.
    Plain,
    W8A16,
    W8A8,
    Mxfp4,
    /// e4m3 weights with a scale to a block.
    Fp8Block,
}

/// A macro tile: rows, columns and depth of one step.
#[derive(Clone, Copy, PartialEq, Eq, Debug, Structural)]
pub struct Tile {
    pub bm: u64,
    pub bn: u64,
    pub bk: u64,
}

/// A rung of the tile ladder: the opcode for each encoding, and the tile.
#[derive(Clone, Copy, PartialEq, Eq, Debug, Structural)]
pub struct Rung {
    pub bf16: DevOp,
    pub fp8: DevOp,
    pub mxfp4: DevOp,
    pub tile: Tile,
}

/// The rungs of the tile ladder.
pub open spec fn rungs() -> Seq<Rung> {
    seq![
        Rung {
            bf16: DevOp::Gemm,
            fp8: DevOp::GemmFp8,
            mxfp4: DevOp::GemmMxfp4,
            tile: Tile { bm: 256, bn: 256, bk: 64 },
        },
        Rung {
            bf16: DevOp::GemmMed,
            fp8: DevOp::GemmMedFp8,
            mxfp4: DevOp::GemmMedMxfp4,
            tile: Tile { bm: 128, bn: 128, bk: 64 },
        },
        Rung {
            bf16: DevOp::GemmSmall,
            fp8: DevOp::GemmSmallFp8,
            mxfp4: DevOp::GemmSmallMxfp4,
            tile: Tile { bm: 64, bn: 128, bk: 64 },
        },
        Rung {
            bf16: DevOp::GemmWide,
            fp8: DevOp::GemmWideFp8,
            mxfp4: DevOp::GemmWideMxfp4,
            tile: Tile { bm: 128, bn: 256, bk: 64 },
        },
        Rung {
            bf16: DevOp::GemmC5,
            fp8: DevOp::GemmC5Fp8,
            mxfp4: DevOp::GemmC5Mxfp4,
            tile: Tile { bm: 192, bn: 256, bk: 64 },
        },
    ]
}

/// The rungs of the tile ladder.
pub fn gfx950_rungs() -> (r: Vec<Rung>)
    ensures
        r@ == rungs(),
{
    let mut r: Vec<Rung> = Vec::new();
    r.push(Rung {
        bf16: DevOp::Gemm,
        fp8: DevOp::GemmFp8,
        mxfp4: DevOp::GemmMxfp4,
        tile: Tile { bm: 256, bn: 256, bk: 64 },
    });
    r.push(Rung {
        bf16: DevOp::GemmMed,
        fp8: DevOp::GemmMedFp8,
        mxfp4: DevOp::GemmMedMxfp4,
        tile: Tile { bm: 128, bn: 128, bk: 64 },
    });
    r.push(Rung {
        bf16: DevOp::GemmSmall,
        fp8: DevOp::GemmSmallFp8,
        mxfp4: DevOp::GemmSmallMxfp4,
        tile: Tile { bm: 64, bn: 128, bk: 64 },
    });
    r.push(Rung {
        bf16: DevOp::GemmWide,
        fp8: DevOp::GemmWideFp8,
        mxfp4: DevOp::GemmWideMxfp4,
        tile: Tile { bm: 128, bn: 256, bk: 64 },
    });
    r.push(Rung {
        bf16: DevOp::GemmC5,
        fp8: DevOp::GemmC5Fp8,
        mxfp4: DevOp::GemmC5Mxfp4,
        tile: Tile { bm: 192, bn: 256, bk: 64 },
    });
    r
}

/// Every opcode of the ladder: rung by rung, bf16 then fp8 then mxfp4.
pub fn gemm_family_ops() -> (r: Vec<DevOp>)
    ensures
        r@.len() == 15,
        forall|i: int|
            0 <= i < 5 ==> r@[3 * i] == (#[trigger] rungs()[i]).bf16 && r@[3 * i + 1]
                == rungs()[i].fp8 && r@[3 * i + 2] == rungs()[i].mxfp4,
{
    let rs: Vec<Rung> = gfx950_rungs();
    let mut r: Vec<DevOp> = Vec::new();
    let mut i: usize = 0;
    while i < rs.len()
        invariant
            rs@ == rungs(),
            rs@.len() == 5,
            i <= 5,
            r@.len() == 3 * i,
            forall|j: int|
                0 <= j < i ==> r@[3 * j] == (#[trigger] rungs()[j]).bf16 && r@[3 * j + 1]
                    == rungs()[j].fp8 && r@[3 * j + 2] == rungs()[j].mxfp4,
        decreases 5 - i,
    {
        r.push(rs[i].bf16);
        r.push(rs[i].fp8);
        r.push(rs[i].mxfp4);
        i = i + 1;
    }
    r
}

/// Whether `op` is one of the ladder's e4m3 opcodes.
pub open spec fn is_fp8_rung(op: DevOp) -> bool {
    exists|i: int| 0 <= i < rungs().len() && (#[trigger] rungs()[i]).fp8 == op
}

/// Whether `op` is one of the ladder's e4m3 opcodes.
pub fn fp8_rung(op: DevOp) -> (r: bool)
    ensures
        r == is_fp8_rung(op),
{
    let rs: Vec<Rung> = gfx950_rungs();
    let mut i: usize = 0;
    while i < rs.len()
        invariant
            rs@ == rungs(),
            i <= rs@.len(),
            forall|j: int| 0 <= j < i ==> (#[trigger] rungs()[j]).fp8 != op,
        decreases rs@.len() - i,
    {
        if rs[i].fp8 == op {
            proof {
                assert(rungs()[i as int].fp8 == op);
            }
            return true;
        }
        i = i + 1;
    }
    false
}

/// The opcode that a rung has for an encoding, where it has one.
pub open spec fn rung_op(g: Rung, q: QuantScheme) -> Option<DevOp> {
    match q {
        QuantScheme::Plain => Some(g.bf16),
        QuantScheme::W8A8 => Some(g.fp8),
        QuantScheme::Mxfp4 => Some(g.mxfp4),
        _ => None,
    }
}

/// Whether `op` belongs to the rungs of encoding `q`.
pub open spec fn rung_of(op: DevOp, q: QuantScheme) -> bool {
    exists|i: int| 0 <= i < rungs().len() && rung_op(#[trigger] rungs()[i], q) == Some(op)
}

/// Whether `op` belongs to the rungs of encoding `q`.
pub fn is_rung_of(op: DevOp, q: QuantScheme) -> (r: bool)
    ensures
        r == rung_of(op, q),
{
    let rs: Vec<Rung> = gfx950_rungs();
    let mut i: usize = 0;
    while i < rs.len()
        invariant
            rs@ == rungs(),
            i <= rs@.len(),
            forall|j: int| 0 <= j < i ==> rung_op(#[trigger] rungs()[j], q) != Some(op),
        decreases rs@.len() - i,
    {
        let g: Rung = rs[i];
        let hit: bool = match q {
            QuantScheme::Plain => g.bf16 == op,
            QuantScheme::W8A8 => g.fp8 == op,
            QuantScheme::Mxfp4 => g.mxfp4 == op,
            _ => false,
        };
        if hit {
            proof {
                assert(rung_op(rungs()[i as int], q) == Some(op));
            }
            return true;
        }
        i = i + 1;
    }
    false
}

/// Bytes of workgroup memory that a tile's staged operands take: rows and columns, each padded by
/// eight elements of depth, at two bytes an element.
pub open spec fn lds_bytes(bm: int, bn: int, bk: int, buffers: int) -> int {
    buffers * (bm + bn) * (bk + 8) * 2
}

pub fn gemm_lds_bytes_buffered(bm: u64, bn: u64, bk: u64, buffers: u64) -> (r: u64)
    requires
        bm + bn <= u64::MAX,
        bk + 8 <= u64::MAX,
        buffers * (bm + bn) <= u64::MAX,
        buffers * (bm + bn) * (bk + 8) <= u64::MAX,
        lds_bytes(bm as int, bn as int, bk as int, buffers as int) <= u64::MAX,
    ensures
        r == lds_bytes(bm as int, bn as int, bk as int, buffers as int),
{
    buffers * (bm + bn) * (bk + 8) * 2
}

/// Bytes of workgroup memory of a tile staged twice.
pub fn gemm_lds_bytes(bm: u64, bn: u64, bk: u64) -> (r: u64)
    requires
        bm + bn <= u64::MAX,
        bk + 8 <= u64::MAX,
        2 * (bm + bn) <= u64::MAX,
        2 * (bm + bn) * (bk + 8) <= u64::MAX,
        lds_bytes(bm as int, bn as int, bk as int, 2) <= u64::MAX,
    ensures
        r == lds_bytes(bm as int, bn as int, bk as int, 2),
{
    gemm_lds_bytes_buffered(bm, bn, bk, 2)
}

/// What a cost model says of a tile: the cycles of its multiplications for one step of depth, and
/// the cycles of its operand traffic over the whole depth.
#[derive(Clone, Copy, PartialEq, Eq, Debug, Structural)]
pub struct TileCycles {
    pub mac: u64,
    pub dma: u64,
}

/// Multiplications of one step of depth.
pub open spec fn step_macs(t: Tile) -> int {
    t.bm * t.bn * t.bk
}

/// Bytes of operand traffic over a depth of `k`.
pub open spec fn operand_bytes(t: Tile, k: int) -> int {
    (t.bm * k + k * t.bn) * 2
}

/// Multiplications of one step of depth: what a cost model is asked for.
pub fn tile_step_macs(t: Tile) -> (r: u64)
    requires
        t.bm * t.bn <= u64::MAX,
        step_macs(t) <= u64::MAX,
    ensures
        r == step_macs(t),
{
    t.bm * t.bn * t.bk
}

/// Bytes of operand traffic over a depth of `k`: what a cost model is asked for.
pub fn tile_operand_bytes(t: Tile, k: u64) -> (r: u64)
    requires
        t.bm * k <= u64::MAX,
        k * t.bn <= u64::MAX,
        operand_bytes(t, k as int) <= u64::MAX,
    ensures
        r == operand_bytes(t, k as int),
{
    (t.bm * k + k * t.bn) * 2
}

/// Rounds of tiles that `n_units` units take for an `m x n` product.
pub open spec fn tile_rounds(t: Tile, m: int, n: int, n_units: int) -> int {
    ceil_div(
        ceil_div(larger(m, 1), t.bm as int) * ceil_div(larger(n, 1), t.bn as int),
        larger(n_units, 1),
    )
}

/// Cycles of one tile: multiplications or traffic, whichever is longer.
pub open spec fn tile_cycles(t: Tile, k: int, cyc: TileCycles) -> int {
    larger(ceil_div(larger(k, 1), t.bk as int) * cyc.mac, cyc.dma as int)
}

/// The order of tiles of equal cycles, the widest first: 0 for 256 x 256, up to 7.
pub open spec fn tile_rank(t: Tile) -> int {
    7 - (7 * smaller(t.bm * t.bn, 65536)) / 65536
}

/// A value held to what a `u64` holds.
pub open spec fn saturated(v: int) -> int {
    smaller(v, u64::MAX as int)
}

/// The cost of a product on a tile: rounds times cycles, then the tile's rank. A kernel without a
/// tile, or one whose tile does not fit the workgroup memory, costs the most there is.
pub open spec fn cost_of(
    lds: int,
    buffers: int,
    tile: Option<Tile>,
    m: int,
    n: int,
    k: int,
    n_units: int,
    cyc: TileCycles,
) -> int {
    match tile {
        None => u64::MAX as int,
        Some(t) => if lds_bytes(t.bm as int, t.bn as int, t.bk as int, buffers) > lds {
            u64::MAX as int
        } else {
            saturated(
                saturated(
                    saturated(tile_rounds(t, m, n, n_units) * tile_cycles(t, k, cyc)) * 8,
                ) + tile_rank(t),
            )
        },
    }
}

/// Whether a tile's cost can be worked out in sixty-four bits.
pub open spec fn cost_fits(
    buffers: int,
    tile: Option<Tile>,
    m: int,
    n: int,
    k: int,
    cyc: TileCycles,
) -> bool {
    match tile {
        None => true,
        Some(t) => {
            &&& t.bm > 0
            &&& t.bn > 0
            &&& t.bk > 0
            &&& t.bm + t.bn <= u64::MAX
            &&& t.bk + 8 <= u64::MAX
            &&& buffers * (t.bm + t.bn) <= u64::MAX
            &&& buffers * (t.bm + t.bn) * (t.bk + 8) <= u64::MAX
            &&& lds_bytes(t.bm as int, t.bn as int, t.bk as int, buffers) <= u64::MAX
            &&& t.bm * t.bn <= u64::MAX
            &&& ceil_div(larger(m, 1), t.bm as int) * ceil_div(larger(n, 1), t.bn as int)
                <= u64::MAX
            &&& ceil_div(larger(k, 1), t.bk as int) * cyc.mac <= u64::MAX
        },
    }
}

fn saturating_mul_u64(a: u64, b: u64) -> (r: u64)
    ensures
        r == saturated(a * b),
{
    proof {
        assert(a * b >= 0) by (nonlinear_arith);
    }
    match a.checked_mul(b) {
        Some(v) => v,
        None => u64::MAX,
    }
}

/// A dimension of a product, at least one.
fn at_least_one(v: i64) -> (r: u64)
    ensures
        r == larger(v as int, 1),
{
    if v < 1 { 1 } else { v as u64 }
}

/// The cost of an `m x n x k` product on a tile of the part `isa`, which has `lds` bytes of
/// workgroup memory.
pub fn tile_cost(
    lds: u64,
    isa: Option<IsaLevel>,
    tile: Option<Tile>,
    m: i64,
    n: i64,
    k: i64,
    n_units: u32,
    cyc: TileCycles,
) -> (r: u64)
    requires
        cost_fits(buffers_of(isa), tile, m as int, n as int, k as int, cyc),
    ensures
        r == cost_of(
            lds as int,
            buffers_of(isa),
            tile,
            m as int,
            n as int,
            k as int,
            n_units as int,
            cyc,
        ),
{
    let t: Tile = match tile {
        Some(t) => t,
        None => {
            return u64::MAX;
        },
    };
    let m: u64 = at_least_one(m);
    let n: u64 = at_least_one(n);
    let k: u64 = at_least_one(k);
    let units: u64 = max_u64(n_units as u64, 1);
    let buffers: u64 = match isa {
        Some(i) => stage_buffers(i),
        None => 2,
    };
    if gemm_lds_bytes_buffered(t.bm, t.bn, t.bk, buffers) > lds {
        return u64::MAX;
    }
    let down: u64 = div_ceil_u64(m, t.bm);
    let across: u64 = div_ceil_u64(n, t.bn);
    let tiles: u64 = down * across;
    let rounds: u64 = div_ceil_u64(tiles, units);
    let k_iters: u64 = div_ceil_u64(k, t.bk);
    let compute: u64 = k_iters * cyc.mac;
    let cost: u64 = saturating_mul_u64(rounds, max_u64(compute, cyc.dma));
    let area: u64 = t.bm * t.bn;
    let area: u64 = if area <= 65536 { area } else { 65536 };
    let rank: u64 = 7 - (7 * area) / 65536;
    saturating_mul_u64(cost, 8).saturating_add(rank)
}

/// Stage buffers of a part, two where the part is unknown.
pub open spec fn buffers_of(isa: Option<IsaLevel>) -> int {
    match isa {
        Some(i) => stage_buffer_count(i),
        None => 2,
    }
}

/// A tile costs the same whatever other part is in use: the part it is asked for decides. A tile
/// within the part's memory is never priced as one that is not, as long as its cost saturates
/// nowhere.
pub proof fn a_tile_that_fits_is_available(
    lds: int,
    buffers: int,
    t: Tile,
    m: int,
    n: int,
    k: int,
    n_units: int,
    cyc: TileCycles,
)
    requires
        lds_bytes(t.bm as int, t.bn as int, t.bk as int, buffers) <= lds,
        tile_rounds(t, m, n, n_units) * tile_cycles(t, k, cyc) < u64::MAX / 16,
    ensures
        cost_of(lds, buffers, Some(t), m, n, k, n_units, cyc) < u64::MAX,
{
    let area = t.bm * t.bn;
    assert(area >= 0) by (nonlinear_arith)
        requires
            area == t.bm * t.bn,
    ;
}

/// Fewer cycles always win, whatever the ranks.
pub proof fn cycles_decide_before_rank(
    lds: int,
    buffers: int,
    s: Tile,
    t: Tile,
    m: int,
    n: int,
    k: int,
    n_units: int,
    cs: TileCycles,
    ct: TileCycles,
)
    requires
        lds_bytes(s.bm as int, s.bn as int, s.bk as int, buffers) <= lds,
        lds_bytes(t.bm as int, t.bn as int, t.bk as int, buffers) <= lds,
        0 <= tile_rounds(s, m, n, n_units) * tile_cycles(s, k, cs),
        tile_rounds(s, m, n, n_units) * tile_cycles(s, k, cs) < tile_rounds(t, m, n, n_units)
            * tile_cycles(t, k, ct),
        tile_rounds(t, m, n, n_units) * tile_cycles(t, k, ct) < u64::MAX / 16,
    ensures
        cost_of(lds, buffers, Some(s), m, n, k, n_units, cs) < cost_of(
            lds,
            buffers,
            Some(t),
            m,
            n,
            k,
            n_units,
            ct,
        ),
{
    assert(s.bm * s.bn >= 0) by (nonlinear_arith);
    assert(t.bm * t.bn >= 0) by (nonlinear_arith);
}

/// No two rungs have the same rank, so two rungs of the same cycles never tie.
pub proof fn rung_ranks_are_distinct()
    ensures
        forall|i: int, j: int|
            0 <= i < j < rungs().len() ==> tile_rank((#[trigger] rungs()[i]).tile) != tile_rank(
                (#[trigger] rungs()[j]).tile,
            ),
        forall|i: int| 0 <= i < rungs().len() ==> 0 <= tile_rank((#[trigger] rungs()[i]).tile) <= 7,
{
    rank_is(rungs()[0].tile, 256, 256);
    rank_is(rungs()[1].tile, 128, 128);
    rank_is(rungs()[2].tile, 64, 128);
    rank_is(rungs()[3].tile, 128, 256);
    rank_is(rungs()[4].tile, 192, 256);
}

/// No two rungs that fit cost the same, as long as neither cost saturates: a choice among them is
/// never left to the order in which they stand.
pub proof fn no_two_rungs_cost_the_same(
    lds: int,
    buffers: int,
    i: int,
    j: int,
    m: int,
    n: int,
    k: int,
    n_units: int,
    ci: TileCycles,
    cj: TileCycles,
)
    requires
        0 <= i < j < rungs().len(),
        lds_bytes(
            rungs()[i].tile.bm as int,
            rungs()[i].tile.bn as int,
            rungs()[i].tile.bk as int,
            buffers,
        ) <= lds,
        lds_bytes(
            rungs()[j].tile.bm as int,
            rungs()[j].tile.bn as int,
            rungs()[j].tile.bk as int,
            buffers,
        ) <= lds,
        tile_rounds(rungs()[i].tile, m, n, n_units) * tile_cycles(rungs()[i].tile, k, ci) < u64::MAX
            / 16,
        tile_rounds(rungs()[j].tile, m, n, n_units) * tile_cycles(rungs()[j].tile, k, cj) < u64::MAX
            / 16,
    ensures
        cost_of(lds, buffers, Some(rungs()[i].tile), m, n, k, n_units, ci) != cost_of(
            lds,
            buffers,
            Some(rungs()[j].tile),
            m,
            n,
            k,
            n_units,
            cj,
        ),
{
    rung_ranks_are_distinct();
    assert(tile_rank(rungs()[i].tile) != tile_rank(rungs()[j].tile));
}

proof fn rank_is(t: Tile, bm: int, bn: int)
    requires
        t.bm == bm,
        t.bn == bn,
    ensures
        tile_rank(t) == 7 - (7 * smaller(bm * bn, 65536)) / 65536,
{
}

/// The prefill product of a target that carries one tile to an encoding.
pub open spec fn nvidia_gemm(q: QuantScheme) -> DevOp {
    match q {
        QuantScheme::W8A8 => DevOp::GemmFp8,
        QuantScheme::Mxfp4 => DevOp::GemmMxfp4,
        _ => DevOp::Gemm,
    }
}

pub fn nvidia_prefill_gemm_op(q: QuantScheme) -> (r: DevOp)
    requires
        q != QuantScheme::Fp8Block,
    ensures
        r == nvidia_gemm(q),
        q == QuantScheme::Plain || q == QuantScheme::W8A16 ==> r == DevOp::Gemm,
{
    match q {
        QuantScheme::W8A8 => DevOp::GemmFp8,
        QuantScheme::Mxfp4 => DevOp::GemmMxfp4,
        _ => DevOp::Gemm,
    }
}

/// The cost of one kernel for one product.
#[derive(Clone, Copy, PartialEq, Eq, Debug, Structural)]
pub struct KernelCost {
    pub op: DevOp,
    pub cost: u64,
}

/// The kernels that can run an `m x n x k` product in encoding `quant`, each with its cost.
pub struct ShapeCosts {
    pub m: u32,
    pub n: u32,
    pub k: u32,
    pub quant: QuantScheme,
    pub kernels: Vec<KernelCost>,
}

/// The products that a target's kernels were priced for.
pub struct TileTable {
    pub shapes: Vec<ShapeCosts>,
}

/// Which kernels a choice may fall on: every rung of the encoding, or those whose tile also comes
/// with a gate epilogue.
#[derive(Clone, Copy, PartialEq, Eq, Debug, Structural)]
pub enum Field {
    AllRungs,
    GluRungs,
}

/// Whether the tile of `op` comes with a gate epilogue's candidates.
pub open spec fn glu_rung(op: DevOp) -> bool {
    ||| op == DevOp::Gemm
    ||| op == DevOp::GemmMed
    ||| op == DevOp::GemmSmall
    ||| op == DevOp::GemmMxfp4
    ||| op == DevOp::GemmMedMxfp4
    ||| op == DevOp::GemmSmallMxfp4
}

/// Whether kernel `op` may be chosen.
pub open spec fn eligible(op: DevOp, q: QuantScheme, f: Field) -> bool {
    rung_of(op, q) && (f == Field::GluRungs ==> glu_rung(op))
}

fn is_eligible(op: DevOp, q: QuantScheme, f: Field) -> (r: bool)
    ensures
        r == eligible(op, q, f),
{
    let glu: bool = op == DevOp::Gemm || op == DevOp::GemmMed || op == DevOp::GemmSmall || op
        == DevOp::GemmMxfp4 || op == DevOp::GemmMedMxfp4 || op == DevOp::GemmSmallMxfp4;
    is_rung_of(op, q) && (f == Field::AllRungs || glu)
}

/// The position of the cheapest eligible kernel among the first `n`, the first of several.
pub open spec fn cheapest(ks: Seq<KernelCost>, q: QuantScheme, f: Field, n: int) -> Option<int>
    decreases n,
{
    if n <= 0 {
        None
    } else {
        let best = cheapest(ks, q, f, n - 1);
        if !eligible(ks[n - 1].op, q, f) {
            best
        } else {
            match best {
                None => Some(n - 1),
                Some(b) => if ks[n - 1].cost < ks[b].cost { Some(n - 1) } else { best },
            }
        }
    }
}

/// The cheapest kernel costs no more than any other eligible one, and less than those before it.
pub proof fn cheapest_is_least(ks: Seq<KernelCost>, q: QuantScheme, f: Field, n: int)
    requires
        0 <= n <= ks.len(),
    ensures
        match cheapest(ks, q, f, n) {
            Some(b) => {
                &&& 0 <= b < n
                &&& eligible(ks[b].op, q, f)
                &&& forall|i: int|
                    0 <= i < n && eligible((#[trigger] ks[i]).op, q, f) ==> ks[b].cost <= ks[i].cost
                &&& forall|i: int|
                    0 <= i < b && eligible((#[trigger] ks[i]).op, q, f) ==> ks[b].cost < ks[i].cost
            },
            None => forall|i: int| 0 <= i < n ==> !eligible((#[trigger] ks[i]).op, q, f),
        },
    decreases n,
{
    if n > 0 {
        cheapest_is_least(ks, q, f, n - 1);
    }
}

fn cheapest_kernel(ks: &Vec<KernelCost>, q: QuantScheme, f: Field) -> (r: Option<DevOp>)
    ensures
        r == (match cheapest(ks@, q, f, ks@.len() as int) {
            Some(b) => Some(ks@[b].op),
            None => None,
        }),
{
    let mut best: Option<usize> = None;
    let mut i: usize = 0;
    while i < ks.len()
        invariant
            i <= ks@.len(),
            match (best, cheapest(ks@, q, f, i as int)) {
                (Some(b), Some(c)) => b == c && b < i,
                (None, None) => true,
                _ => false,
            },
        decreases ks@.len() - i,
    {
        if is_eligible(ks[i].op, q, f) {
            match best {
                None => {
                    best = Some(i);
                },
                Some(b) => {
                    if ks[i].cost < ks[b].cost {
                        best = Some(i);
                    }
                },
            }
        }
        i = i + 1;
    }
    match best {
        Some(b) => Some(ks[b].op),
        None => None,
    }
}

/// Whether an entry of the table prices the product.
pub open spec fn prices(e: ShapeCosts, m: u32, n: u32, k: u32, q: QuantScheme) -> bool {
    e.m == m && e.n == n && e.k == k && e.quant == q
}

/// The position of the first entry at or after `from` that prices the product, or the length.
pub open spec fn entry_index(
    es: Seq<ShapeCosts>,
    m: u32,
    n: u32,
    k: u32,
    q: QuantScheme,
    from: int,
) -> int
    decreases es.len() - from,
{
    if from >= es.len() {
        es.len() as int
    } else if prices(es[from], m, n, k, q) {
        from
    } else {
        entry_index(es, m, n, k, q, from + 1)
    }
}

/// The kernel chosen for a product: the cheapest eligible one of its entry, or nothing where the
/// table prices none.
pub open spec fn chosen(
    tab: TileTable,
    m: u32,
    n: u32,
    k: u32,
    q: QuantScheme,
    f: Field,
) -> Option<DevOp> {
    let i = entry_index(tab.shapes@, m, n, k, q, 0);
    if 0 <= i < tab.shapes@.len() {
        let ks = tab.shapes@[i].kernels@;
        match cheapest(ks, q, f, ks.len() as int) {
            Some(b) => Some(ks[b].op),
            None => None,
        }
    } else {
        None
    }
}

/// A choice falls on a rung of the product's own encoding.
pub proof fn each_encoding_chooses_from_its_own_rungs(
    tab: TileTable,
    m: u32,
    n: u32,
    k: u32,
    q: QuantScheme,
    f: Field,
)
    ensures
        match chosen(tab, m, n, k, q, f) {
            Some(op) => eligible(op, q, f),
            None => true,
        },
{
    let i = entry_index(tab.shapes@, m, n, k, q, 0);
    if 0 <= i < tab.shapes@.len() {
        let ks = tab.shapes@[i].kernels@;
        cheapest_is_least(ks, q, f, ks.len() as int);
    }
}

/// The kernel chosen for a product, from the rungs that `f` names.
pub fn select_gemm_over(
    tab: &TileTable,
    m: u32,
    n: u32,
    k: u32,
    q: QuantScheme,
    f: Field,
) -> (r: Option<DevOp>)
    ensures
        r == chosen(*tab, m, n, k, q, f),
{
    let mut i: usize = 0;
    while i < tab.shapes.len()
        invariant
            i <= tab.shapes@.len(),
            entry_index(tab.shapes@, m, n, k, q, 0) == entry_index(
                tab.shapes@,
                m,
                n,
                k,
                q,
                i as int,
            ),
        decreases tab.shapes@.len() - i,
    {
        let e = &tab.shapes[i];
        if e.m == m && e.n == n && e.k == k && e.quant == q {
            return cheapest_kernel(&e.kernels, q, f);
        }
        i = i + 1;
    }
    None
}

/// Whether a product has a tile among the rungs that `f` names: a target whose tiles are priced has
/// one where the table prices an eligible kernel, another target always.
pub open spec fn has_tile(
    priced: bool,
    tab: TileTable,
    m: u32,
    n: u32,
    k: u32,
    q: QuantScheme,
    f: Field,
) -> bool {
    priced ==> chosen(tab, m, n, k, q, f) is Some
}

pub fn finds_tile(
    priced: bool,
    tab: &TileTable,
    m: u32,
    n: u32,
    k: u32,
    q: QuantScheme,
    f: Field,
) -> (r: bool)
    ensures
        r == has_tile(priced, *tab, m, n, k, q, f),
{
    !priced || select_gemm_over(tab, m, n, k, q, f).is_some()
}

/// The opcode of a tiled product: a target whose tiles are priced takes the cheapest, another takes
/// its one tile.
pub open spec fn tile_op(
    priced: bool,
    tab: TileTable,
    m: u32,
    n: u32,
    k: u32,
    q: QuantScheme,
) -> DevOp {
    if !priced {
        nvidia_gemm(q)
    } else {
        match chosen(tab, m, n, k, q, Field::AllRungs) {
            Some(op) => op,
            None => nvidia_gemm(q),
        }
    }
}

pub fn pick_tile(
    priced: bool,
    tab: &TileTable,
    m: u32,
    n: u32,
    k: u32,
    q: QuantScheme,
) -> (r: DevOp)
    requires
        q != QuantScheme::Fp8Block,
        has_tile(priced, *tab, m, n, k, q, Field::AllRungs),
    ensures
        r == tile_op(priced, *tab, m, n, k, q),
{
    if !priced {
        nvidia_prefill_gemm_op(q)
    } else {
        select_gemm_over(tab, m, n, k, q, Field::AllRungs).unwrap()
    }
}

/// The tile of a product on a priced target.
pub fn gfx950_prefill_tile(tab: &TileTable, m: u32, n: u32, k: u32, q: QuantScheme) -> (r: DevOp)
    requires
        q != QuantScheme::Fp8Block,
        has_tile(true, *tab, m, n, k, q, Field::AllRungs),
    ensures
        r == tile_op(true, *tab, m, n, k, q),
{
    pick_tile(true, tab, m, n, k, q)
}

/// Whether `op` is a tile that only the priced target has.
pub open spec fn priced_only(op: DevOp) -> bool {
    ||| op == DevOp::GemmWide
    ||| op == DevOp::GemmWideFp8
    ||| op == DevOp::GemmWideMxfp4
    ||| op == DevOp::GemmC5
    ||| op == DevOp::GemmC5Fp8
    ||| op == DevOp::GemmC5Mxfp4
}

/// A target whose tiles are not priced never gets a tile that it does not have.
pub proof fn an_unpriced_target_gets_no_priced_tile(
    tab: TileTable,
    m: u32,
    n: u32,
    k: u32,
    q: QuantScheme,
)
    ensures
        !priced_only(tile_op(false, tab, m, n, k, q)),
{
}

/// Whether a prefill's gating and up products run as one instruction.
///
/// The fused kernel comes at the widest tile only, so a priced target fuses where that tile is the
/// cheapest of those that a gate epilogue could have.
pub open spec fn glu_fused(
    priced: bool,
    no_glu_fuse: bool,
    tab: TileTable,
    m: u32,
    n: u32,
    k: u32,
) -> bool {
    if !priced {
        !no_glu_fuse
    } else {
        chosen(tab, m, n, k, QuantScheme::Plain, Field::GluRungs) == Some(DevOp::Gemm)
    }
}

pub fn glu_fusion_wins(
    priced: bool,
    no_glu_fuse: bool,
    tab: &TileTable,
    m: u32,
    n: u32,
    k: u32,
) -> (r: bool)
    requires
        has_tile(priced, *tab, m, n, k, QuantScheme::Plain, Field::GluRungs),
    ensures
        r == glu_fused(priced, no_glu_fuse, *tab, m, n, k),
{
    if !priced {
        return !no_glu_fuse;
    }
    let op: DevOp = select_gemm_over(tab, m, n, k, QuantScheme::Plain, Field::GluRungs).unwrap();
    op == DevOp::Gemm
}

/// Whether an mxfp4 prefill's gating and up products run as one instruction: the pair counts as
/// one product of twice the width.
pub fn glu_fusion_wins_mxfp4(priced: bool, tab: &TileTable, m: u32, n: u32, k: u32) -> (r: bool)
    requires
        2 * n <= u32::MAX,
        has_tile(priced, *tab, m, (2 * n) as u32, k, QuantScheme::Mxfp4, Field::GluRungs),
    ensures
        r == (!priced || chosen(
            *tab,
            m,
            (2 * n) as u32,
            k,
            QuantScheme::Mxfp4,
            Field::GluRungs,
        ) == Some(DevOp::GemmMxfp4)),
{
    if !priced {
        return true;
    }
    let op: DevOp = select_gemm_over(tab, m, 2 * n, k, QuantScheme::Mxfp4, Field::GluRungs).unwrap();
    op == DevOp::GemmMxfp4
}

} // verus!
