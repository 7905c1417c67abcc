//! How texts and arms are ordered, what the pairing hash runs over, and what measurements decide.
use vstd::prelude::*;

use crate::arms::{Arm, ArmView};
use crate::isa::DevOp;
use crate::json::{json_text, member, string_field, texts_in, texts_upto, JsonView};
use crate::order::{listing, text_before, text_before_from, Ordered};
use crate::packet_shape::Boundary;
use crate::pairing::{
    compiled_hash, fed, fed_arms, fed_constants, fnv, hash_of, hash_tuning, hash_union, FNV_BASIS,
};
use crate::target::IsaLevel;
use crate::tune::{
    arch_name, counts, is_row, is_rung_spec, lookup, priced, row_index, rows_distinct, rows_of_case,
    stale_count, tier_of, tile_c_name, wins, CalibrationTier, Candidate, KernelRecord, Measured,
    RungSpec,
};

verus! {

proof fn first_difference_decides(a: Seq<char>, b: Seq<char>, from: int, k: int)
    requires
        0 <= from <= k,
        k <= a.len() && k <= b.len(),
        forall|j: int| 0 <= j < k ==> a[j] == b[j],
    ensures
        k < a.len() && k < b.len() && a[k] != b[k] ==> text_before_from(a, b, from) == ((a[k] as int) < (
        b[k] as int)),
        k == a.len() && k < b.len() ==> text_before_from(a, b, from),
        k == b.len() ==> !text_before_from(a, b, from),
    decreases k - from,
{
    if from < k {
        first_difference_decides(a, b, from + 1, k);
    }
}

/// Texts are ordered by the first character in which they differ, the smaller first; a text comes
/// before those that it starts.
pub proof fn texts_are_ordered_by_their_first_difference(a: Seq<char>, b: Seq<char>, t: Seq<char>, k: int)
    requires
        0 <= k < a.len() && k < b.len(),
        forall|j: int| 0 <= j < k ==> a[j] == b[j],
        a[k] != b[k],
    ensures
        text_before(a, b) <==> (a[k] as int) < (b[k] as int),
        t.len() > 0 ==> text_before(a, a + t) && !text_before(a + t, a),
{
    first_difference_decides(a, b, 0, k);
    if t.len() > 0 {
        first_difference_decides(a, a + t, 0, a.len() as int);
        first_difference_decides(a + t, a, 0, a.len() as int);
    }
}

/// Arms are ordered by opcode, those of one by head size and those of one size by variant; without a
/// size, or a variant, comes before with one. Boundaries go by ranks, then experts, then width.
pub proof fn arms_are_ordered_by_their_parts(a: ArmView, b: ArmView, x: Boundary, y: Boundary)
    ensures
        text_before(a.op, b.op) ==> Arm::before(a, b),
        a.op == b.op && a.hd is None && b.hd is Some ==> Arm::before(a, b),
        a.op == b.op && (a.hd matches Some(h) && b.hd matches Some(g) && h < g) ==> Arm::before(a, b),
        a.op == b.op && a.hd == b.hd && a.variant is None && b.variant is Some ==> Arm::before(a, b),
        a.op == b.op && a.hd == b.hd && (a.variant matches Some(v) && b.variant matches Some(w)
            && text_before(v, w)) ==> Arm::before(a, b),
        x.degree < y.degree ==> Boundary::before(x, y),
        x.degree == y.degree && x.experts < y.experts ==> Boundary::before(x, y),
        x.degree == y.degree && x.experts == y.experts && x.width < y.width ==> Boundary::before(x, y),
        u32::before(1, 2),
{
}

proof fn hash_goes_on(h: u64, a: Seq<u8>, b: Seq<u8>, n: int)
    requires
        0 <= n <= b.len(),
    ensures
        fnv(h, a + b, a.len() + n) == fnv(fnv(h, a, a.len() as int), b, n),
    decreases n,
{
    if n > 0 {
        hash_goes_on(h, a, b, n - 1);
        assert((a + b)[a.len() + n - 1] == b[n - 1]);
    } else {
        same_start(h, a, a + b, a.len() as int);
    }
}

proof fn same_start(h: u64, a: Seq<u8>, b: Seq<u8>, n: int)
    requires
        0 <= n <= a.len(),
        n <= b.len(),
        forall|i: int| 0 <= i < n ==> a[i] == b[i],
    ensures
        fnv(h, a, n) == fnv(h, b, n),
    decreases n,
{
    if n > 0 {
        same_start(h, a, b, n - 1);
    }
}

/// The hash is in the manner of FNV-1a: over a byte it is crossed with it and then multiplied by one
/// number, over bytes one after another it goes on, and over nothing it stays.
pub proof fn the_hash_runs_over_bytes_in_order(h: u64, a: Seq<u8>, b: Seq<u8>, x: u8)
    ensures
        fnv(h, Seq::empty(), 0) == h,
        fnv(h, seq![x], 1) == (h ^ (x as u64)).wrapping_mul(0x1000_0000_01b3),
        fnv(h, a + b, (a + b).len() as int) == fnv(fnv(h, a, a.len() as int), b, b.len() as int),
        FNV_BASIS == 14695981039346656037u64,
{
    reveal_with_fuel(fnv, 2);
    hash_goes_on(h, a, b, b.len() as int);
}

proof fn arms_before(h: u64, v: Seq<JsonView>, w: Seq<JsonView>, n: int)
    requires
        0 <= n <= v.len(),
        n <= w.len(),
        forall|i: int| 0 <= i < n ==> v[i] == w[i],
    ensures
        fed_arms(h, v, n) == fed_arms(h, w, n),
    decreases n,
{
    if n > 0 {
        arms_before(h, v, w, n - 1);
    }
}

/// The pairing hash starts from the basis and runs over the arms, each with a unit mark behind it;
/// then a record mark, the objects as they are written, and a record mark; then the constants by name.
/// What is not there adds nothing.
pub proof fn the_pairing_hash_runs_over_what_is_compiled(
    v: Seq<JsonView>,
    t: Seq<char>,
    o: JsonView,
    c: Option<JsonView>,
    m: JsonView,
)
    ensures
        hash_union(FNV_BASIS, Some(JsonView::Arr(v.push(JsonView::Str(t))))) == fed(
            fed(hash_union(FNV_BASIS, Some(JsonView::Arr(v))), t),
            "\x1f"@,
        ),
        hash_union(FNV_BASIS, None) == FNV_BASIS,
        compiled_hash(None, None, None) == fed(fed(FNV_BASIS, "\x1e"@), "\x1e"@),
        compiled_hash(Some(m), Some(o), c) == hash_tuning(
            fed(fed(fed(hash_union(FNV_BASIS, Some(m)), "\x1e"@), json_text(o)), "\x1e"@),
            c,
        ),
        hash_of(m) == compiled_hash(member(m, "union"@), member(m, "objects"@), member(m, "tuning"@)),
{
    let w = v.push(JsonView::Str(t));
    arms_before(FNV_BASIS, v, w, v.len() as int);
    assert(w[w.len() - 1] == JsonView::Str(t));
}

/// A constant is hashed as its name, an equals sign, its value as it is written and a unit mark, behind
/// those whose names come before; nothing else of a document's shape counts.
pub proof fn constants_are_hashed_by_name(h: u64, c: Map<Seq<char>, JsonView>, ks: Seq<Seq<char>>, n: int)
    requires
        0 <= n < ks.len(),
    ensures
        fed_constants(h, c, ks, n + 1) == fed(
            fed(fed(fed(fed_constants(h, c, ks, n), ks[n]), "="@), json_text(c[ks[n]])),
            "\x1f"@,
        ),
        fed_constants(h, c, ks, 0) == h,
        hash_tuning(h, Some(JsonView::Obj(c))) == fed_constants(
            h,
            c,
            listing::<String>(c.dom()),
            listing::<String>(c.dom()).len() as int,
        ),
        hash_tuning(h, None) == h,
{
}

proof fn row_is_found(rows: Seq<Measured>, case: Seq<char>, id: u16, from: int, k: int)
    requires
        0 <= from <= k <= rows.len(),
        k < rows.len() ==> rows[k].case@ == case && rows[k].kernel_id == id,
        forall|j: int|
            from <= j < k ==> !((#[trigger] rows[j]).case@ == case && rows[j].kernel_id == id),
    ensures
        row_index(rows, case, id, from) == k,
    decreases k - from,
{
    if from < k {
        assert(!is_row(rows[from], case, id));
        row_is_found(rows, case, id, from + 1, k);
    }
}

/// A measurement is that of its own case and kernel: of a list that has each once, it is what the row
/// says; and of what no row has there is none.
pub proof fn measurements_are_of_their_case_and_kernel(
    rows: Seq<Measured>,
    case: Seq<char>,
    id: u16,
    k: int,
)
    ensures
        rows_distinct(rows) && 0 <= k < rows.len() && rows[k].case@ == case && rows[k].kernel_id == id
            ==> lookup(rows, case, id) == Some(rows[k].median),
        (forall|j: int|
            0 <= j < rows.len() ==> !((#[trigger] rows[j]).case@ == case && rows[j].kernel_id == id))
            ==> lookup(rows, case, id) is None,
{
    if rows_distinct(rows) && 0 <= k < rows.len() && rows[k].case@ == case && rows[k].kernel_id == id {
        assert forall|j: int| 0 <= j < k implies !((#[trigger] rows[j]).case@ == case
            && rows[j].kernel_id == id) by {
            assert(!is_row(rows[j], rows[k].case@, rows[k].kernel_id));
        }
        row_is_found(rows, case, id, 0, k);
    }
    if forall|j: int|
        0 <= j < rows.len() ==> !((#[trigger] rows[j]).case@ == case && rows[j].kernel_id == id) {
        row_is_found(rows, case, id, 0, rows.len() as int);
    }
}

/// A kernel wins a case where it was measured on it and no row of the case is faster.
pub proof fn winners_are_not_beaten(rows: Seq<Measured>, case: Seq<char>, id: u16, k: int)
    ensures
        wins(rows, case, id) ==> lookup(rows, case, id) is Some,
        wins(rows, case, id) && 0 <= k < rows.len() && rows[k].case@ == case ==> lookup(rows, case, id)->0
            <= rows[k].median,
        0 <= k < rows.len() && rows[k].case@ == case && lookup(rows, case, id) is Some
            && rows[k].median < lookup(rows, case, id)->0 ==> !wins(rows, case, id),
        lookup(rows, case, id) is Some && (forall|i: int|
            0 <= i < rows.len() && (#[trigger] rows[i]).case@ == case ==> lookup(rows, case, id)->0
                <= rows[i].median) ==> wins(rows, case, id),
{
}

/// Candidates are priced as they were measured where all of them were, and by the model where any was
/// not: measurements and the model's costs are never mixed.
pub proof fn one_unmeasured_candidate_leaves_the_choice_to_the_model(
    rows: Seq<Measured>,
    case: Seq<char>,
    cs: Seq<Candidate>,
    i: int,
    j: int,
)
    requires
        0 <= i < cs.len(),
        0 <= j < cs.len(),
    ensures
        priced(rows, case, cs).len() == cs.len(),
        priced(rows, case, cs)[i].op == cs[i].op,
        lookup(rows, case, cs[j].kernel_id) is None ==> priced(rows, case, cs)[i].cost == cs[i].analytic
            && tier_of(rows, case, cs) == CalibrationTier::Portable,
        (forall|k: int| 0 <= k < cs.len() ==> lookup(rows, case, (#[trigger] cs[k]).kernel_id) is Some)
            ==> Some(priced(rows, case, cs)[i].cost) == lookup(rows, case, cs[i].kernel_id) && tier_of(
            rows,
            case,
            cs,
        ) == CalibrationTier::SkuCalibrated,
{
}

/// A record counts where it may decide and was taken on this code; one that may decide but was taken
/// on other code is stale, and each is counted once, as is each row of a case.
pub proof fn records_are_counted_once(
    rs: Seq<KernelRecord>,
    rows: Seq<Measured>,
    case: Seq<char>,
    n: int,
)
    requires
        0 <= n < rs.len(),
        n < rows.len(),
    ensures
        counts(rs[n]) <==> rs[n].selectable && !rs[n].stale,
        stale_count(rs, 0) == 0,
        stale_count(rs, n + 1) == stale_count(rs, n) + (if rs[n].selectable && rs[n].stale {
            1int
        } else {
            0int
        }),
        rows_of_case(rows, case, 0) == 0,
        rows_of_case(rows, case, n + 1) == rows_of_case(rows, case, n) + (if rows[n].case@ == case {
            1int
        } else {
            0int
        }),
{
}

/// A tile is called by its rung, in C with the encoding's ending behind it; no other opcode has such
/// a name. A rung's body is named by architecture, tile and build, and multiplies in fp8 exactly where
/// both sides are narrow.
pub proof fn tiles_are_called_by_their_rungs(s: RungSpec, op: DevOp, label: Seq<char>)
    ensures
        tile_c_name(DevOp::Gemm) == "PLOW_DOP_GEMM"@,
        tile_c_name(DevOp::GemmFp8) == tile_c_name(DevOp::Gemm) + "_FP8"@,
        tile_c_name(DevOp::GemmMxfp4) == tile_c_name(DevOp::Gemm) + "_MXFP4"@,
        tile_c_name(DevOp::GemmMed) == "PLOW_DOP_GEMM_MED"@,
        tile_c_name(DevOp::GemmMedFp8) == tile_c_name(DevOp::GemmMed) + "_FP8"@,
        tile_c_name(DevOp::GemmMedMxfp4) == tile_c_name(DevOp::GemmMed) + "_MXFP4"@,
        tile_c_name(DevOp::GemmSmall) == "PLOW_DOP_GEMM_SMALL"@,
        tile_c_name(DevOp::GemmSmallFp8) == tile_c_name(DevOp::GemmSmall) + "_FP8"@,
        tile_c_name(DevOp::GemmSmallMxfp4) == tile_c_name(DevOp::GemmSmall) + "_MXFP4"@,
        tile_c_name(DevOp::GemmWide) == "PLOW_DOP_GEMM_WIDE"@,
        tile_c_name(DevOp::GemmWideFp8) == tile_c_name(DevOp::GemmWide) + "_FP8"@,
        tile_c_name(DevOp::GemmWideMxfp4) == tile_c_name(DevOp::GemmWide) + "_MXFP4"@,
        tile_c_name(DevOp::GemmC5) == "PLOW_DOP_GEMM_C5"@,
        tile_c_name(DevOp::GemmC5Fp8) == tile_c_name(DevOp::GemmC5) + "_FP8"@,
        tile_c_name(DevOp::GemmC5Mxfp4) == tile_c_name(DevOp::GemmC5) + "_MXFP4"@,
        tile_c_name(DevOp::Gemv) == ""@,
        arch_name(IsaLevel::Gfx942) == "gfx942"@,
        arch_name(IsaLevel::Gfx950) == "gfx950"@,
        arch_name(IsaLevel::Sm90) == "sm_90a"@,
        arch_name(IsaLevel::Sm120) == "sm_120a"@,
        is_rung_spec(s, op, s.quant, s.tile, IsaLevel::Gfx950, label) ==> s.op == op && s.body@
            == "gfx950:"@ + tile_c_name(op) + "@"@ + label && (s.fp8_math <==> s.quant
            == crate::gemm::QuantScheme::W8A8),
{
    reveal_strlit("_FP8");
    reveal_strlit("_MXFP4");
    reveal_strlit("gfx950");
    reveal_strlit(":");
    reveal_strlit("gfx950:");
    assert("gfx950"@ + ":"@ =~= "gfx950:"@);
    reveal_strlit("PLOW_DOP_GEMM_C5");
    reveal_strlit("PLOW_DOP_GEMM_WIDE");
    reveal_strlit("PLOW_DOP_GEMM_SMALL");
    reveal_strlit("PLOW_DOP_GEMM_MED");
    reveal_strlit("PLOW_DOP_GEMM");
    reveal_strlit("PLOW_DOP_GEMM_FP8");
    assert("PLOW_DOP_GEMM_FP8"@ =~= "PLOW_DOP_GEMM"@ + "_FP8"@);
    reveal_strlit("PLOW_DOP_GEMM_MXFP4");
    assert("PLOW_DOP_GEMM_MXFP4"@ =~= "PLOW_DOP_GEMM"@ + "_MXFP4"@);
    reveal_strlit("PLOW_DOP_GEMM_MED_FP8");
    assert("PLOW_DOP_GEMM_MED_FP8"@ =~= "PLOW_DOP_GEMM_MED"@ + "_FP8"@);
    reveal_strlit("PLOW_DOP_GEMM_MED_MXFP4");
    assert("PLOW_DOP_GEMM_MED_MXFP4"@ =~= "PLOW_DOP_GEMM_MED"@ + "_MXFP4"@);
    reveal_strlit("PLOW_DOP_GEMM_SMALL_FP8");
    assert("PLOW_DOP_GEMM_SMALL_FP8"@ =~= "PLOW_DOP_GEMM_SMALL"@ + "_FP8"@);
    reveal_strlit("PLOW_DOP_GEMM_SMALL_MXFP4");
    assert("PLOW_DOP_GEMM_SMALL_MXFP4"@ =~= "PLOW_DOP_GEMM_SMALL"@ + "_MXFP4"@);
    reveal_strlit("PLOW_DOP_GEMM_WIDE_FP8");
    assert("PLOW_DOP_GEMM_WIDE_FP8"@ =~= "PLOW_DOP_GEMM_WIDE"@ + "_FP8"@);
    reveal_strlit("PLOW_DOP_GEMM_WIDE_MXFP4");
    assert("PLOW_DOP_GEMM_WIDE_MXFP4"@ =~= "PLOW_DOP_GEMM_WIDE"@ + "_MXFP4"@);
    reveal_strlit("PLOW_DOP_GEMM_C5_FP8");
    assert("PLOW_DOP_GEMM_C5_FP8"@ =~= "PLOW_DOP_GEMM_C5"@ + "_FP8"@);
    reveal_strlit("PLOW_DOP_GEMM_C5_MXFP4");
    assert("PLOW_DOP_GEMM_C5_MXFP4"@ =~= "PLOW_DOP_GEMM_C5"@ + "_MXFP4"@);
}

/// The text under a key is that of the document's own member, where that is a text; an array's texts
/// are its items that are texts, in order.
pub proof fn texts_are_read_where_they_are_texts(j: JsonView, key: Seq<char>, v: Seq<JsonView>, t: Seq<char>)
    ensures
        member(j, key) == Some(JsonView::Str(t)) ==> string_field(Some(j), key) == Some(t),
        string_field(Some(j), key) matches Some(s) ==> member(j, key) == Some(JsonView::Str(s)),
        string_field(None, key) is None,
        texts_in(Some(JsonView::Arr(v.push(JsonView::Str(t))))) == texts_in(Some(JsonView::Arr(v))).push(t),
        texts_in(Some(JsonView::Arr(v.push(JsonView::Null)))) == texts_in(Some(JsonView::Arr(v))),
        texts_in(None).len() == 0,
{
    let n = v.len() as int;
    same_texts(v, v.push(JsonView::Str(t)), n);
    same_texts(v, v.push(JsonView::Null), n);
    assert(v.push(JsonView::Str(t))[n] == JsonView::Str(t));
    assert(v.push(JsonView::Null)[n] == JsonView::Null);
}

proof fn same_texts(v: Seq<JsonView>, w: Seq<JsonView>, n: int)
    requires
        0 <= n <= v.len(),
        n <= w.len(),
        forall|i: int| 0 <= i < n ==> v[i] == w[i],
    ensures
        texts_upto(v, n) == texts_upto(w, n),
    decreases n,
{
    if n > 0 {
        same_texts(v, w, n - 1);
    }
}

} // verus!
