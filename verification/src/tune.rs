//! What measurements say of kernels: the tiles of tiled products, the cases of row products, and
//! the splits of attention.
use vstd::prelude::*;

use crate::arith::{clamp_u32, larger, max_u32, smaller};
use crate::gemm::{
    gfx950_rungs, has_tile, rungs, tile_op, Field, KernelCost, QuantScheme, Rung, Tile, TileTable,
};
use crate::isa::DevOp;
use crate::target::IsaLevel;
use crate::text::text;

verus! {

/// A record of the tuning store. `median` orders measurements as their median times do.
pub struct KernelRecord {
    pub case: String,
    pub kernel_id: u16,
    pub median: u64,
    /// Whether the record may decide anything, and whether it was taken on other code.
    pub selectable: bool,
    pub stale: bool,
    /// Whether it belongs to the profile of decode row products.
    pub decode_gemv: bool,
}

/// Whether a record counts: it may decide, and it was taken on this code.
pub open spec fn counts(r: KernelRecord) -> bool {
    r.selectable && !r.stale
}

/// The better of two measurements, where there are any.
pub open spec fn better(a: Option<u64>, b: u64) -> Option<u64> {
    match a {
        Some(x) => Some(if x <= b { x } else { b }),
        None => Some(b),
    }
}

/// The best measurement of a kernel on a case, among the first `n` records.
pub open spec fn best(rs: Seq<KernelRecord>, case: Seq<char>, id: u16, n: int) -> Option<u64>
    decreases n,
{
    if n <= 0 {
        None
    } else {
        let b = best(rs, case, id, n - 1);
        let r = rs[n - 1];
        if counts(r) && r.case@ == case && r.kernel_id == id { better(b, r.median) } else { b }
    }
}

/// The best measurement is one of the records', and none that counts beats it.
pub proof fn best_is_least(rs: Seq<KernelRecord>, case: Seq<char>, id: u16, n: int)
    requires
        0 <= n <= rs.len(),
    ensures
        match best(rs, case, id, n) {
            Some(b) => {
                &&& exists|i: int|
                    0 <= i < n && counts(#[trigger] rs[i]) && rs[i].case@ == case && rs[i].kernel_id
                        == id && rs[i].median == b
                &&& forall|i: int|
                    0 <= i < n && counts(#[trigger] rs[i]) && rs[i].case@ == case
                        && rs[i].kernel_id == id ==> b <= rs[i].median
            },
            None => forall|i: int|
                0 <= i < n ==> !(counts(#[trigger] rs[i]) && rs[i].case@ == case && rs[i].kernel_id
                    == id),
        },
    decreases n,
{
    if n > 0 {
        best_is_least(rs, case, id, n - 1);
        let r = rs[n - 1];
        if counts(r) && r.case@ == case && r.kernel_id == id {
            assert(counts(rs[n - 1]));
        }
    }
}

/// Records, among the first `n`, that may decide but were taken on other code.
pub open spec fn stale_count(rs: Seq<KernelRecord>, n: int) -> nat
    decreases n,
{
    if n <= 0 {
        0
    } else {
        stale_count(rs, n - 1) + (if rs[n - 1].selectable && rs[n - 1].stale { 1nat } else { 0nat })
    }
}

/// One kernel's best measurement on one case.
pub struct Measured {
    pub case: String,
    pub kernel_id: u16,
    pub median: u64,
}

/// The best measurements, one to a case and kernel.
pub struct GemmMeasurements {
    pub rows: Vec<Measured>,
}

/// Whether a row is that of a case and kernel.
pub open spec fn is_row(m: Measured, case: Seq<char>, id: u16) -> bool {
    m.case@ == case && m.kernel_id == id
}

/// The position of the first row at or after `from` of a case and kernel, or the length.
pub open spec fn row_index(rows: Seq<Measured>, case: Seq<char>, id: u16, from: int) -> int
    decreases rows.len() - from,
{
    if from >= rows.len() {
        rows.len() as int
    } else if is_row(rows[from], case, id) {
        from
    } else {
        row_index(rows, case, id, from + 1)
    }
}

/// The measurement of a case and kernel.
pub open spec fn lookup(rows: Seq<Measured>, case: Seq<char>, id: u16) -> Option<u64> {
    let i = row_index(rows, case, id, 0);
    if 0 <= i < rows.len() { Some(rows[i].median) } else { None }
}

/// No case and kernel occurs twice.
pub open spec fn rows_distinct(rows: Seq<Measured>) -> bool {
    forall|i: int, j: int|
        0 <= i < j < rows.len() ==> !is_row(
            #[trigger] rows[i],
            (#[trigger] rows[j]).case@,
            rows[j].kernel_id,
        )
}

proof fn row_index_is_first(rows: Seq<Measured>, case: Seq<char>, id: u16, from: int)
    requires
        0 <= from <= rows.len(),
    ensures
        from <= row_index(rows, case, id, from) <= rows.len(),
        row_index(rows, case, id, from) < rows.len() ==> is_row(
            rows[row_index(rows, case, id, from)],
            case,
            id,
        ),
        forall|i: int|
            from <= i < row_index(rows, case, id, from) ==> !is_row(#[trigger] rows[i], case, id),
    decreases rows.len() - from,
{
    if from < rows.len() && !is_row(rows[from], case, id) {
        row_index_is_first(rows, case, id, from + 1);
    }
}

fn find_row(rows: &Vec<Measured>, case: &String, id: u16) -> (r: usize)
    ensures
        r == row_index(rows@, case@, id, 0),
{
    let mut i: usize = 0;
    while i < rows.len()
        invariant
            i <= rows@.len(),
            row_index(rows@, case@, id, 0) == row_index(rows@, case@, id, i as int),
        decreases rows@.len() - i,
    {
        if rows[i].kernel_id == id && rows[i].case == *case {
            return i;
        }
        i = i + 1;
    }
    i
}

/// Whether the rows hold the best measurements of the first `n` records.
pub open spec fn holds_best(rows: Seq<Measured>, rs: Seq<KernelRecord>, n: int) -> bool {
    forall|case: Seq<char>, id: u16| #[trigger] lookup(rows, case, id) == best(rs, case, id, n)
}

proof fn replace_keeps_index(
    rows: Seq<Measured>,
    p: int,
    m: Measured,
    case: Seq<char>,
    id: u16,
    from: int,
)
    requires
        0 <= p < rows.len(),
        0 <= from <= rows.len(),
        m.case@ == rows[p].case@,
        m.kernel_id == rows[p].kernel_id,
    ensures
        row_index(rows.update(p, m), case, id, from) == row_index(rows, case, id, from),
    decreases rows.len() - from,
{
    if from < rows.len() {
        replace_keeps_index(rows, p, m, case, id, from + 1);
    }
}

proof fn push_extends_index(rows: Seq<Measured>, m: Measured, case: Seq<char>, id: u16, from: int)
    requires
        0 <= from <= rows.len(),
    ensures
        row_index(rows.push(m), case, id, from) == (if row_index(rows, case, id, from)
            < rows.len() {
            row_index(rows, case, id, from)
        } else if is_row(m, case, id) {
            rows.len() as int
        } else {
            rows.len() as int + 1
        }),
    decreases rows.len() - from,
{
    reveal_with_fuel(row_index, 3);
    if from < rows.len() {
        push_extends_index(rows, m, case, id, from + 1);
    }
}

/// Reads the records of tiled products: the best measurement of each case and kernel, and how many
/// records were taken on other code.
pub fn gfx950_gemm_measurements(rs: &Vec<KernelRecord>) -> (r: (GemmMeasurements, usize))
    ensures
        holds_best(r.0.rows@, rs@, rs@.len() as int),
        rows_distinct(r.0.rows@),
        r.1 == stale_count(rs@, rs@.len() as int),
{
    let mut rows: Vec<Measured> = Vec::new();
    let mut stale: usize = 0;
    let mut i: usize = 0;
    while i < rs.len()
        invariant
            i <= rs@.len(),
            rows_distinct(rows@),
            holds_best(rows@, rs@, i as int),
            stale == stale_count(rs@, i as int),
            stale <= i,
        decreases rs@.len() - i,
    {
        let rec = &rs[i];
        let ghost before = rows@;
        if rec.selectable && rec.stale {
            stale = stale + 1;
        } else if rec.selectable {
            let p: usize = find_row(&rows, &rec.case, rec.kernel_id);
            proof {
                row_index_is_first(before, rec.case@, rec.kernel_id, 0);
            }
            if p < rows.len() {
                if rec.median < rows[p].median {
                    let m = Measured {
                        case: rec.case.clone(),
                        kernel_id: rec.kernel_id,
                        median: rec.median,
                    };
                    let ghost mv = m;
                    rows.set(p, m);
                    proof {
                        assert forall|case: Seq<char>, id: u16| #[trigger] lookup(
                            rows@,
                            case,
                            id,
                        ) == best(rs@, case, id, i + 1) by {
                            replace_keeps_index(before, p as int, mv, case, id, 0);
                            row_index_is_first(before, case, id, 0);
                            assert(lookup(before, case, id) == best(rs@, case, id, i as int));
                            if is_row(mv, case, id) {
                                assert(row_index(before, case, id, 0) == p);
                            }
                        }
                        assert forall|a: int, b: int| 0 <= a < b < rows@.len() implies !is_row(
                            #[trigger] rows@[a],
                            (#[trigger] rows@[b]).case@,
                            rows@[b].kernel_id,
                        ) by {
                            assert(!is_row(before[a], before[b].case@, before[b].kernel_id));
                        }
                    }
                } else {
                    proof {
                        assert forall|case: Seq<char>, id: u16| #[trigger] lookup(
                            rows@,
                            case,
                            id,
                        ) == best(rs@, case, id, i + 1) by {
                            assert(lookup(before, case, id) == best(rs@, case, id, i as int));
                        }
                    }
                }
            } else {
                let m = Measured {
                    case: rec.case.clone(),
                    kernel_id: rec.kernel_id,
                    median: rec.median,
                };
                let ghost mv = m;
                rows.push(m);
                proof {
                    assert forall|case: Seq<char>, id: u16| #[trigger] lookup(
                        rows@,
                        case,
                        id,
                    ) == best(rs@, case, id, i + 1) by {
                        push_extends_index(before, mv, case, id, 0);
                        row_index_is_first(before, case, id, 0);
                        assert(lookup(before, case, id) == best(rs@, case, id, i as int));
                    }
                    assert forall|a: int, b: int| 0 <= a < b < rows@.len() implies !is_row(
                        #[trigger] rows@[a],
                        (#[trigger] rows@[b]).case@,
                        rows@[b].kernel_id,
                    ) by {
                        if b < before.len() {
                            assert(!is_row(before[a], before[b].case@, before[b].kernel_id));
                        } else {
                            assert(!is_row(before[a], rec.case@, rec.kernel_id));
                        }
                    }
                }
            }
        }
        proof {
            if !(rec.selectable && !rec.stale) {
                assert forall|case: Seq<char>, id: u16| #[trigger] lookup(rows@, case, id) == best(
                    rs@,
                    case,
                    id,
                    i + 1,
                ) by {
                    assert(lookup(before, case, id) == best(rs@, case, id, i as int));
                }
            }
        }
        i = i + 1;
    }
    (GemmMeasurements { rows }, stale)
}

/// Rows of one case among the first `n`.
pub open spec fn rows_of_case(rows: Seq<Measured>, case: Seq<char>, n: int) -> nat
    decreases n,
{
    if n <= 0 {
        0
    } else {
        rows_of_case(rows, case, n - 1) + (if rows[n - 1].case@ == case { 1nat } else { 0nat })
    }
}

/// How many kernels were measured on a case.
pub fn gfx950_measured_rungs(m: &GemmMeasurements, case: &String) -> (r: usize)
    ensures
        r == rows_of_case(m.rows@, case@, m.rows@.len() as int),
{
    let mut n: usize = 0;
    let mut i: usize = 0;
    while i < m.rows.len()
        invariant
            i <= m.rows@.len(),
            n <= i,
            n == rows_of_case(m.rows@, case@, i as int),
        decreases m.rows@.len() - i,
    {
        if m.rows[i].case == *case {
            n = n + 1;
        }
        i = i + 1;
    }
    n
}

/// Whether a kernel was measured on a case, and no kernel was measured faster on it.
pub open spec fn wins(rows: Seq<Measured>, case: Seq<char>, id: u16) -> bool {
    match lookup(rows, case, id) {
        None => false,
        Some(c) => forall|i: int|
            0 <= i < rows.len() && (#[trigger] rows[i]).case@ == case ==> c <= rows[i].median,
    }
}

impl GemmMeasurements {
    /// Whether a kernel wins a case.
    pub fn variant_is_winner(&self, case: &String, id: u16) -> (r: bool)
        ensures
            r == wins(self.rows@, case@, id),
    {
        let p: usize = find_row(&self.rows, case, id);
        proof {
            row_index_is_first(self.rows@, case@, id, 0);
        }
        if p >= self.rows.len() {
            return false;
        }
        let c: u64 = self.rows[p].median;
        let mut i: usize = 0;
        while i < self.rows.len()
            invariant
                i <= self.rows@.len(),
                lookup(self.rows@, case@, id) == Some(c),
                forall|j: int|
                    0 <= j < i && (#[trigger] self.rows@[j]).case@ == case@ ==> c
                        <= self.rows@[j].median,
            decreases self.rows@.len() - i,
        {
            if self.rows[i].case == *case && c > self.rows[i].median {
                return false;
            }
            i = i + 1;
        }
        true
    }
}

/// Whether the widest tile's variant wins a case.
pub fn gfx950_c8_is_measured_winner(m: &GemmMeasurements, case: &String, c8: u16) -> (r: bool)
    ensures
        r == wins(m.rows@, case@, c8),
{
    m.variant_is_winner(case, c8)
}

/// A kernel that could run a product: its opcode, its number in the store, and what the cost model
/// says of it.
#[derive(Clone, Copy, PartialEq, Eq, Debug, Structural)]
pub struct Candidate {
    pub op: DevOp,
    pub kernel_id: u16,
    pub analytic: u64,
}

/// What a choice of kernel rests on: the cost model, or measurements on the part itself.
#[derive(Clone, Copy, PartialEq, Eq, Debug, Structural)]
pub enum CalibrationTier {
    Portable,
    SkuCalibrated,
}

/// Whether every candidate was measured on a case. Measurements and model times do not compare,
/// so one candidate without a measurement leaves the whole choice to the model.
pub open spec fn all_measured(rows: Seq<Measured>, case: Seq<char>, cs: Seq<Candidate>) -> bool {
    forall|i: int| 0 <= i < cs.len() ==> lookup(rows, case, (#[trigger] cs[i]).kernel_id) is Some
}

/// What the choice for a case rests on.
pub open spec fn tier_of(
    rows: Seq<Measured>,
    case: Seq<char>,
    cs: Seq<Candidate>,
) -> CalibrationTier {
    if all_measured(rows, case, cs) {
        CalibrationTier::SkuCalibrated
    } else {
        CalibrationTier::Portable
    }
}

/// The cost of each candidate: its measurement where all were measured, else the model's.
pub open spec fn priced(
    rows: Seq<Measured>,
    case: Seq<char>,
    cs: Seq<Candidate>,
) -> Seq<KernelCost> {
    Seq::new(
        cs.len(),
        |i: int|
            KernelCost {
                op: cs[i].op,
                cost: if all_measured(rows, case, cs) {
                    lookup(rows, case, cs[i].kernel_id)->0
                } else {
                    cs[i].analytic
                },
            },
    )
}

/// What decides the tile of a product: measurements, where every candidate has one.
pub fn gfx950_prefill_tile_tier(
    m: &GemmMeasurements,
    case: &String,
    cs: &Vec<Candidate>,
) -> (r: CalibrationTier)
    ensures
        r == tier_of(m.rows@, case@, cs@),
{
    let mut i: usize = 0;
    while i < cs.len()
        invariant
            i <= cs@.len(),
            forall|j: int|
                0 <= j < i ==> lookup(m.rows@, case@, (#[trigger] cs@[j]).kernel_id) is Some,
        decreases cs@.len() - i,
    {
        let p: usize = find_row(&m.rows, case, cs[i].kernel_id);
        proof {
            row_index_is_first(m.rows@, case@, cs@[i as int].kernel_id, 0);
        }
        if p >= m.rows.len() {
            proof {
                assert(lookup(m.rows@, case@, cs@[i as int].kernel_id) is None);
            }
            return CalibrationTier::Portable;
        }
        i = i + 1;
    }
    CalibrationTier::SkuCalibrated
}

/// Prices the candidates of a product.
pub fn price_shape(m: &GemmMeasurements, case: &String, cs: &Vec<Candidate>) -> (r: Vec<KernelCost>)
    ensures
        r@ == priced(m.rows@, case@, cs@),
{
    let measured: bool = gfx950_prefill_tile_tier(m, case, cs) == CalibrationTier::SkuCalibrated;
    let mut r: Vec<KernelCost> = Vec::new();
    let mut i: usize = 0;
    while i < cs.len()
        invariant
            i <= cs@.len(),
            r@.len() == i,
            measured == all_measured(m.rows@, case@, cs@),
            forall|j: int| 0 <= j < i ==> #[trigger] r@[j] == priced(m.rows@, case@, cs@)[j],
        decreases cs@.len() - i,
    {
        let c: Candidate = cs[i];
        let cost: u64 = if measured {
            proof {
                assert(lookup(m.rows@, case@, cs@[i as int].kernel_id) is Some);
                row_index_is_first(m.rows@, case@, c.kernel_id, 0);
            }
            let p: usize = find_row(&m.rows, case, c.kernel_id);
            m.rows[p].median
        } else {
            c.analytic
        };
        r.push(KernelCost { op: c.op, cost });
        i = i + 1;
    }
    proof {
        assert(r@ =~= priced(m.rows@, case@, cs@));
    }
    r
}

/// The cases of decode row products among the first `n` records, each once, as they first occur.
pub open spec fn gemv_cases(rs: Seq<KernelRecord>, n: int) -> Seq<Seq<char>>
    decreases n,
{
    if n <= 0 {
        Seq::empty()
    } else {
        let s = gemv_cases(rs, n - 1);
        let r = rs[n - 1];
        if r.decode_gemv && counts(r) && !s.contains(r.case@) { s.push(r.case@) } else { s }
    }
}

fn has_text(v: &Vec<String>, s: &String) -> (r: bool)
    ensures
        r == crate::args::texts(v@).contains(s@),
{
    let ghost tv = crate::args::texts(v@);
    let mut i: usize = 0;
    while i < v.len()
        invariant
            i <= v@.len(),
            tv == crate::args::texts(v@),
            forall|j: int| 0 <= j < i ==> tv[j] != s@,
        decreases v@.len() - i,
    {
        if v[i] == *s {
            proof {
                assert(tv[i as int] == s@);
            }
            return true;
        }
        i = i + 1;
    }
    false
}

/// The cases for which measured decode row products exist.
pub fn install_gfx950_gemv_cases(rs: &Vec<KernelRecord>) -> (r: Vec<String>)
    ensures
        crate::args::texts(r@) == gemv_cases(rs@, rs@.len() as int),
{
    let mut r: Vec<String> = Vec::new();
    let mut i: usize = 0;
    proof {
        assert(crate::args::texts(r@) =~= Seq::<Seq<char>>::empty());
    }
    while i < rs.len()
        invariant
            i <= rs@.len(),
            crate::args::texts(r@) == gemv_cases(rs@, i as int),
        decreases rs@.len() - i,
    {
        let rec = &rs[i];
        if rec.decode_gemv && rec.selectable && !rec.stale && !has_text(&r, &rec.case) {
            let ghost before = crate::args::texts(r@);
            r.push(rec.case.clone());
            proof {
                assert(crate::args::texts(r@) =~= before.push(rec.case@));
            }
        }
        i = i + 1;
    }
    r
}

/// The widest tile's variant: its tile, its opcode and the tag that its instructions carry.
#[derive(Clone, Copy, PartialEq, Eq, Debug, Structural)]
pub struct WidePlan {
    pub bm: u32,
    pub bn: u32,
    pub bk: u32,
    pub op: DevOp,
    pub tag: u32,
}

/// How a tiled product is emitted: its opcode, its workgroups and its tag.
#[derive(Clone, Copy, PartialEq, Eq, Debug, Structural)]
pub struct GemmEmit {
    pub op: DevOp,
    pub blocks: u32,
    pub tag: u32,
}

/// Whether the widest variant takes a product: on gfx950, in bf16, where its tiles cover the
/// product evenly and fill the machine once, it is switched on for the shape, and it wins the
/// measurements.
pub open spec fn takes_wide(
    w: WidePlan,
    amd: bool,
    isa: IsaLevel,
    m: u32,
    n: u32,
    k: u32,
    n_cu: u32,
    q: QuantScheme,
    on: bool,
    won: bool,
) -> bool {
    &&& amd
    &&& isa == IsaLevel::Gfx950
    &&& q == QuantScheme::Plain
    &&& m % w.bm == 0
    &&& n % w.bn == 0
    &&& k % w.bk == 0
    &&& crate::arith::ceil_div(m as int, w.bm as int) * crate::arith::ceil_div(
        n as int,
        w.bn as int,
    ) == n_cu
    &&& on
    &&& won
}

/// How a tiled product is emitted: by the widest variant where there is one that takes it, else by
/// the tile that is chosen for it, on every compute unit.
pub fn pick_gemm_emit_plan(
    wide: Option<WidePlan>,
    amd: bool,
    isa: IsaLevel,
    tab: &TileTable,
    m: u32,
    n: u32,
    k: u32,
    n_cu: u32,
    q: QuantScheme,
    on: bool,
    won: bool,
) -> (r: GemmEmit)
    requires
        q != QuantScheme::Fp8Block,
        wide matches Some(w) ==> w.bm > 0 && w.bn > 0 && w.bk > 0,
        !(wide matches Some(w) && takes_wide(w, amd, isa, m, n, k, n_cu, q, on, won)) ==> has_tile(
            true,
            *tab,
            m,
            n,
            k,
            q,
            Field::AllRungs,
        ),
    ensures
        r == (match wide {
            Some(w) => if takes_wide(w, amd, isa, m, n, k, n_cu, q, on, won) {
                GemmEmit { op: w.op, blocks: n_cu, tag: w.tag }
            } else {
                GemmEmit { op: tile_op(true, *tab, m, n, k, q), blocks: n_cu, tag: 0 }
            },
            None => GemmEmit { op: tile_op(true, *tab, m, n, k, q), blocks: n_cu, tag: 0 },
        }),
{
    if let Some(w) = wide {
        let a: u32 = crate::arith::div_ceil(m, w.bm);
        let b: u32 = crate::arith::div_ceil(n, w.bn);
        proof {
            crate::arith::mul_le(a as int, b as int, u32::MAX as int, u32::MAX as int);
        }
        let blocks: u64 = a as u64 * b as u64;
        if amd && isa == IsaLevel::Gfx950 && q == QuantScheme::Plain && m % w.bm == 0 && n % w.bn
            == 0 && k % w.bk == 0 && blocks == n_cu as u64 && on && won {
            return GemmEmit { op: w.op, blocks: n_cu, tag: w.tag };
        }
    }
    GemmEmit { op: crate::gemm::gfx950_prefill_tile(tab, m, n, k, q), blocks: n_cu, tag: 0 }
}

/// The C name of a tiled product.
pub open spec fn tile_c_name(op: DevOp) -> Seq<char> {
    match op {
        DevOp::Gemm => "PLOW_DOP_GEMM"@,
        DevOp::GemmFp8 => "PLOW_DOP_GEMM_FP8"@,
        DevOp::GemmMxfp4 => "PLOW_DOP_GEMM_MXFP4"@,
        DevOp::GemmMed => "PLOW_DOP_GEMM_MED"@,
        DevOp::GemmMedFp8 => "PLOW_DOP_GEMM_MED_FP8"@,
        DevOp::GemmMedMxfp4 => "PLOW_DOP_GEMM_MED_MXFP4"@,
        DevOp::GemmSmall => "PLOW_DOP_GEMM_SMALL"@,
        DevOp::GemmSmallFp8 => "PLOW_DOP_GEMM_SMALL_FP8"@,
        DevOp::GemmSmallMxfp4 => "PLOW_DOP_GEMM_SMALL_MXFP4"@,
        DevOp::GemmWide => "PLOW_DOP_GEMM_WIDE"@,
        DevOp::GemmWideFp8 => "PLOW_DOP_GEMM_WIDE_FP8"@,
        DevOp::GemmWideMxfp4 => "PLOW_DOP_GEMM_WIDE_MXFP4"@,
        DevOp::GemmC5 => "PLOW_DOP_GEMM_C5"@,
        DevOp::GemmC5Fp8 => "PLOW_DOP_GEMM_C5_FP8"@,
        DevOp::GemmC5Mxfp4 => "PLOW_DOP_GEMM_C5_MXFP4"@,
        _ => ""@,
    }
}

fn tile_c_str(op: DevOp) -> (r: &'static str)
    ensures
        r@ == tile_c_name(op),
{
    match op {
        DevOp::Gemm => "PLOW_DOP_GEMM",
        DevOp::GemmFp8 => "PLOW_DOP_GEMM_FP8",
        DevOp::GemmMxfp4 => "PLOW_DOP_GEMM_MXFP4",
        DevOp::GemmMed => "PLOW_DOP_GEMM_MED",
        DevOp::GemmMedFp8 => "PLOW_DOP_GEMM_MED_FP8",
        DevOp::GemmMedMxfp4 => "PLOW_DOP_GEMM_MED_MXFP4",
        DevOp::GemmSmall => "PLOW_DOP_GEMM_SMALL",
        DevOp::GemmSmallFp8 => "PLOW_DOP_GEMM_SMALL_FP8",
        DevOp::GemmSmallMxfp4 => "PLOW_DOP_GEMM_SMALL_MXFP4",
        DevOp::GemmWide => "PLOW_DOP_GEMM_WIDE",
        DevOp::GemmWideFp8 => "PLOW_DOP_GEMM_WIDE_FP8",
        DevOp::GemmWideMxfp4 => "PLOW_DOP_GEMM_WIDE_MXFP4",
        DevOp::GemmC5 => "PLOW_DOP_GEMM_C5",
        DevOp::GemmC5Fp8 => "PLOW_DOP_GEMM_C5_FP8",
        DevOp::GemmC5Mxfp4 => "PLOW_DOP_GEMM_C5_MXFP4",
        _ => "",
    }
}

/// The name of an architecture.
pub open spec fn arch_name(isa: IsaLevel) -> Seq<char> {
    match isa {
        IsaLevel::Gfx942 => "gfx942"@,
        IsaLevel::Gfx950 => "gfx950"@,
        IsaLevel::Sm90 => "sm_90a"@,
        IsaLevel::Sm120 => "sm_120a"@,
    }
}

fn arch_str(isa: IsaLevel) -> (r: &'static str)
    ensures
        r@ == arch_name(isa),
{
    match isa {
        IsaLevel::Gfx942 => "gfx942",
        IsaLevel::Gfx950 => "gfx950",
        IsaLevel::Sm90 => "sm_90a",
        IsaLevel::Sm120 => "sm_120a",
    }
}

/// A kernel of the tile ladder: its opcode, its encoding, its tile, and its body, which is named
/// by the architecture, the opcode and the build.
pub struct RungSpec {
    pub op: DevOp,
    pub quant: QuantScheme,
    /// Whether its products are of fp8.
    pub fp8_math: bool,
    pub tile: Tile,
    pub body: String,
}

/// Whether a kernel is that of a rung in an encoding.
pub open spec fn is_rung_spec(
    s: RungSpec,
    op: DevOp,
    q: QuantScheme,
    t: Tile,
    isa: IsaLevel,
    label: Seq<char>,
) -> bool {
    &&& s.op == op
    &&& s.quant == q
    &&& s.fp8_math == (q == QuantScheme::W8A8)
    &&& s.tile == t
    &&& s.body@ == arch_name(isa) + ":"@ + tile_c_name(op) + "@"@ + label
}

fn rung_spec(op: DevOp, q: QuantScheme, t: Tile, isa: IsaLevel, label: &str) -> (r: RungSpec)
    ensures
        is_rung_spec(r, op, q, t, isa, label@),
{
    let mut body: String = text(arch_str(isa));
    body.append(":");
    body.append(tile_c_str(op));
    body.append("@");
    body.append(label);
    RungSpec { op, quant: q, fp8_math: q == QuantScheme::W8A8, tile: t, body }
}

/// The kernels of the tile ladder for a part: of each rung its bf16, its fp8 and its mxfp4 one.
pub fn amd_rung_specs(label: &str, isa: IsaLevel) -> (r: Vec<RungSpec>)
    ensures
        r@.len() == 3 * rungs().len(),
        forall|i: int|
            0 <= i < rungs().len() ==> {
                let g = #[trigger] rungs()[i];
                &&& is_rung_spec(r@[3 * i], g.bf16, QuantScheme::Plain, g.tile, isa, label@)
                &&& is_rung_spec(r@[3 * i + 1], g.fp8, QuantScheme::W8A8, g.tile, isa, label@)
                &&& is_rung_spec(r@[3 * i + 2], g.mxfp4, QuantScheme::Mxfp4, g.tile, isa, label@)
            },
{
    let rs: Vec<Rung> = gfx950_rungs();
    let mut r: Vec<RungSpec> = Vec::new();
    let mut i: usize = 0;
    while i < rs.len()
        invariant
            rs@ == rungs(),
            rs@.len() == 5,
            i <= 5,
            r@.len() == 3 * i,
            forall|j: int|
                0 <= j < i ==> {
                    let g = #[trigger] rungs()[j];
                    &&& is_rung_spec(r@[3 * j], g.bf16, QuantScheme::Plain, g.tile, isa, label@)
                    &&& is_rung_spec(r@[3 * j + 1], g.fp8, QuantScheme::W8A8, g.tile, isa, label@)
                    &&& is_rung_spec(
                        r@[3 * j + 2],
                        g.mxfp4,
                        QuantScheme::Mxfp4,
                        g.tile,
                        isa,
                        label@,
                    )
                },
        decreases 5 - i,
    {
        let g: Rung = rs[i];
        r.push(rung_spec(g.bf16, QuantScheme::Plain, g.tile, isa, label));
        r.push(rung_spec(g.fp8, QuantScheme::W8A8, g.tile, isa, label));
        r.push(rung_spec(g.mxfp4, QuantScheme::Mxfp4, g.tile, isa, label));
        i = i + 1;
    }
    r
}

/// How split attention is put together.
#[derive(Clone, Copy, PartialEq, Eq, Debug, Structural)]
pub enum AttentionAlgorithm {
    SplitReduce,
    Persistent,
}

/// What decided.
#[derive(Clone, Copy, PartialEq, Eq, Debug, Structural)]
pub enum AttentionSource {
    FixedFallback,
    Qualified,
}

/// How a layer's attention is split.
#[derive(Clone, Copy, PartialEq, Eq, Debug, Structural)]
pub struct AttentionSelection {
    pub algorithm: AttentionAlgorithm,
    pub nsplit: u32,
    pub source: AttentionSource,
}

/// The selection without measurements: the given splits, between one and the most that are built.
pub open spec fn fallback_selection(max_nsplit: u32, fallback: u32) -> AttentionSelection {
    AttentionSelection {
        algorithm: AttentionAlgorithm::SplitReduce,
        nsplit: larger(1, smaller(fallback as int, larger(max_nsplit as int, 1))) as u32,
        source: AttentionSource::FixedFallback,
    }
}

/// What was decided for one attention.
pub struct AttentionDecisionReport {
    pub hardware: String,
    pub n_cu: u32,
    pub decode_rung: u32,
    pub kv_bucket: String,
    pub shape: String,
    pub compiled_max_nsplit: u32,
    pub compiled_persistent: bool,
    pub selected: AttentionSelection,
}

/// The decisions of an emission, in order.
pub struct AttentionDecisions {
    pub reports: Vec<AttentionDecisionReport>,
}

/// Forgets the decisions.
pub fn clear_attention_decisions(d: &mut AttentionDecisions)
    ensures
        final(d).reports@ == Seq::<AttentionDecisionReport>::empty(),
{
    d.reports = Vec::new();
}

/// The decisions, in order.
pub fn attention_decisions(d: &AttentionDecisions) -> (r: &Vec<AttentionDecisionReport>)
    ensures
        *r == d.reports,
{
    &d.reports
}

/// Decides one attention and notes the decision: what the store's records say, or the fallback
/// where there are none. `stored` is what was selected from the records.
pub fn select_amd_attention(
    d: &mut AttentionDecisions,
    hardware: String,
    n_cu: u32,
    decode_rung: u32,
    kv_bucket: String,
    shape: String,
    max_nsplit: u32,
    fallback_nsplit: u32,
    stored: Option<AttentionSelection>,
) -> (r: AttentionSelection)
    ensures
        r == (match stored {
            Some(s) => s,
            None => fallback_selection(max_nsplit, fallback_nsplit),
        }),
        final(d).reports@ == old(d).reports@.push(
            (AttentionDecisionReport {
                hardware,
                n_cu,
                decode_rung,
                kv_bucket,
                shape,
                compiled_max_nsplit: max_nsplit,
                compiled_persistent: false,
                selected: r,
            }),
        ),
        stored is None ==> r.nsplit >= 1 && r.nsplit <= larger(max_nsplit as int, 1),
{
    let selected: AttentionSelection = match stored {
        Some(s) => s,
        None => AttentionSelection {
            algorithm: AttentionAlgorithm::SplitReduce,
            nsplit: clamp_u32(fallback_nsplit, 1, max_u32(max_nsplit, 1)),
            source: AttentionSource::FixedFallback,
        },
    };
    d.reports.push(
        AttentionDecisionReport {
            hardware,
            n_cu,
            decode_rung,
            kv_bucket,
            shape,
            compiled_max_nsplit: max_nsplit,
            compiled_persistent: false,
            selected,
        },
    );
    selected
}

/// What an algorithm is called.
pub open spec fn algorithm_text(a: AttentionAlgorithm) -> Seq<char> {
    match a {
        AttentionAlgorithm::SplitReduce => "split_reduce"@,
        AttentionAlgorithm::Persistent => "persistent"@,
    }
}

/// What an algorithm is called.
pub fn algorithm_name(a: AttentionAlgorithm) -> (r: &'static str)
    ensures
        r@ == algorithm_text(a),
{
    match a {
        AttentionAlgorithm::SplitReduce => "split_reduce",
        AttentionAlgorithm::Persistent => "persistent",
    }
}

/// What a decision's source is called.
pub open spec fn source_text(s: AttentionSource) -> Seq<char> {
    match s {
        AttentionSource::FixedFallback => "fixed_fallback"@,
        AttentionSource::Qualified => "qualified"@,
    }
}

/// What a decision's source is called.
pub fn source_name(s: AttentionSource) -> (r: &'static str)
    ensures
        r@ == source_text(s),
{
    match s {
        AttentionSource::FixedFallback => "fixed_fallback",
        AttentionSource::Qualified => "qualified",
    }
}

} // verus!
