//! What the chains of a packet's programs say, and which programs could have objects of their own.
use vstd::prelude::*;

use crate::arms::{Arm, ArmView, ProgramView};
use crate::chains::{
    alike, analysis_view, chain_doc, chains_upto, chains_view, count_kind, exclusive, is_flash,
    is_other, limits_view, opt_num_view, others_arms, owner_doc, owners_view, phase_doc, phase_end,
    phases_from, programs_in, rows_of, seg_of, segment_doc, split_doc, split_upto, splits, widest,
    written,
};
use crate::inventory::{families_of, families_view, keys_of};
use crate::json::{member, strs_view, JsonView};
use crate::order::listing;
use crate::text::begins;

verus! {

/// The limits of attention segments are twice the registers at half the waves; no segment may spill
/// more than it did or keep anything on the stack that it did not, and only AMD parts have limits.
pub proof fn segments_keep_their_limits(arch: Seq<char>)
    ensures
        begins(arch, "gfx"@) ==> {
            let a = limits_view(arch, true);
            let b = limits_view(arch, false);
            &&& member(b, "max_total_registers"@) == Some(JsonView::Num(256))
            &&& member(a, "max_total_registers"@) == Some(JsonView::Num(512))
            &&& member(b, "min_occupancy_waves_per_simd"@) == Some(JsonView::Num(2))
            &&& member(a, "min_occupancy_waves_per_simd"@) == Some(JsonView::Num(1))
            &&& member(a, "wavefront_size"@) == Some(JsonView::Num(64))
            &&& member(a, "max_private_segment_bytes_delta"@) == Some(JsonView::Num(0))
            &&& member(a, "max_vgpr_spill_delta"@) == Some(JsonView::Num(0))
            &&& member(a, "max_sgpr_spill_delta"@) == Some(JsonView::Num(0))
            &&& member(a, "policy"@) == Some(JsonView::Str("refuse"@))
            &&& member(b, "wavefront_size"@) == member(a, "wavefront_size"@)
            &&& member(b, "max_private_segment_bytes_delta"@) == member(
                a,
                "max_private_segment_bytes_delta"@,
            )
            &&& member(b, "max_vgpr_spill_delta"@) == member(a, "max_vgpr_spill_delta"@)
            &&& member(b, "max_sgpr_spill_delta"@) == member(a, "max_sgpr_spill_delta"@)
            &&& member(b, "policy"@) == member(a, "policy"@)
        },
        !begins(arch, "gfx"@) ==> limits_view(arch, true) == JsonView::Null && limits_view(arch, false)
            == JsonView::Null,
{
    reveal(limits_view);
    reveal_strlit("max_total_registers");
    reveal_strlit("min_occupancy_waves_per_simd");
    reveal_strlit("wavefront_size");
    reveal_strlit("max_private_segment_bytes_delta");
    reveal_strlit("max_vgpr_spill_delta");
    reveal_strlit("max_sgpr_spill_delta");
    reveal_strlit("policy");
    assert("max_total_registers"@.len() == 19);
    assert("min_occupancy_waves_per_simd"@.len() == 28);
    assert("wavefront_size"@.len() == 14);
    assert("max_private_segment_bytes_delta"@.len() == 31);
    assert("max_vgpr_spill_delta"@.len() == 20);
    assert("max_sgpr_spill_delta"@.len() == 20);
    assert("policy"@.len() == 6);
    assert("max_vgpr_spill_delta"@[4] != "max_sgpr_spill_delta"@[4]);
}

/// Whether a row attends: some arm's opcode starts as attention's do, or merges latent attention.
pub open spec fn attends(p: ProgramView) -> bool {
    exists|a: ArmView| #[trigger]
        p.arms.contains(a) && (begins(a.op, "Flash"@) || a.op == "MlaMergeFold"@)
}

proof fn attends_is_flash(p: ProgramView)
    ensures
        is_flash(p.arms) == attends(p),
{
    if is_flash(p.arms) {
        let a = choose|a: ArmView| #[trigger]
            p.arms.contains(a) && crate::inventory::flash_op(a.op);
        assert(p.arms.contains(a));
    }
    if attends(p) {
        let a = choose|a: ArmView| #[trigger]
            p.arms.contains(a) && (begins(a.op, "Flash"@) || a.op == "MlaMergeFold"@);
        assert(p.arms.contains(a) && crate::inventory::flash_op(a.op));
    }
}

/// A segment's document is of its own row: its number, or zero in a program of one; its
/// instructions, arms and families; and the class and limits of attention where it attends.
pub proof fn segments_say_what_they_hold(arch: Seq<char>, p: ProgramView)
    ensures
        member(segment_doc(arch, p), "segment"@) == Some(JsonView::Num(if p.seg is Some { p.seg->0 as u64 } else { 0 })),
        member(segment_doc(arch, p), "insts"@) == Some(JsonView::Num(p.insts as u64)),
        member(segment_doc(arch, p), "arms"@) == Some(strs_view(keys_of(p.arms))),
        member(segment_doc(arch, p), "families"@) == Some(families_view(p.arms)),
        member(segment_doc(arch, p), "object_class"@) == Some(JsonView::Str(if attends(p) { "flash"@ } else { "ordinary"@ })),
        member(segment_doc(arch, p), "resource_contract"@) == Some(limits_view(arch, attends(p))),
{
    reveal(segment_doc);
    reveal_strlit("segment");
    reveal_strlit("insts");
    reveal_strlit("arms");
    reveal_strlit("families");
    reveal_strlit("object_class");
    reveal_strlit("resource_contract");
    assert("segment"@.len() == 7);
    assert("insts"@.len() == 5);
    assert("arms"@.len() == 4);
    assert("families"@.len() == 8);
    assert("object_class"@.len() == 12);
    assert("resource_contract"@.len() == 17);
    attends_is_flash(p);
}

proof fn written_are_those_of_rows(rows: Seq<ProgramView>, lo: int, hi: int, x: Seq<char>)
    requires
        0 <= lo <= hi <= rows.len(),
    ensures
        written(rows, lo, hi).contains(x) <==> exists|k: int|
            lo <= k < hi && keys_of((#[trigger] rows[k]).arms).contains(x),
    decreases hi - lo,
{
    if lo < hi {
        written_are_those_of_rows(rows, lo, hi - 1, x);
        let l = keys_of(rows[hi - 1].arms);
        assert(l.to_set().contains(x) == l.contains(x));
        if l.contains(x) {
            assert(lo <= hi - 1 < hi && keys_of(rows[hi - 1].arms).contains(x));
        }
        if exists|k: int| lo <= k < hi && keys_of((#[trigger] rows[k]).arms).contains(x) {
            let k = choose|k: int| lo <= k < hi && keys_of((#[trigger] rows[k]).arms).contains(x);
            if k < hi - 1 {
                assert(keys_of(rows[k].arms).contains(x));
            }
        }
    }
}

/// A phase's arms are those of its segments, as they are written.
pub proof fn a_phase_has_the_arms_of_its_segments(rows: Seq<ProgramView>, lo: int, hi: int, x: Seq<char>)
    requires
        0 <= lo <= hi <= rows.len(),
    ensures
        written(rows, lo, hi).contains(x) <==> exists|k: int|
            lo <= k < hi && keys_of((#[trigger] rows[k]).arms).contains(x),
{
    written_are_those_of_rows(rows, lo, hi, x);
}

/// Rows can share an object where they have the same families and both attend or neither does.
pub proof fn rows_share_objects_by_family(a: ProgramView, b: ProgramView)
    ensures
        alike(a, b) <==> families_of(a.arms) == families_of(b.arms) && attends(a) == attends(b),
        alike(a, b) == alike(b, a),
{
    attends_is_flash(a);
    attends_is_flash(b);
}

/// A phase runs from its first segment to its last and holds as many as lie between; its families,
/// class and limits are those of the first, which all of them share.
pub proof fn phases_say_what_they_hold(arch: Seq<char>, rows: Seq<ProgramView>, lo: int, hi: int)
    requires
        0 <= lo < hi <= rows.len(),
    ensures
        member(phase_doc(arch, rows, lo, hi), "first_segment"@) == Some(JsonView::Num(seg_of(rows[lo]) as u64)),
        member(phase_doc(arch, rows, lo, hi), "last_segment"@) == Some(JsonView::Num(seg_of(rows[hi - 1]) as u64)),
        member(phase_doc(arch, rows, lo, hi), "segments"@) == Some(JsonView::Num((hi - lo) as u64)),
        member(phase_doc(arch, rows, lo, hi), "arms"@) == Some(strs_view(listing::<String>(written(rows, lo, hi)))),
        member(phase_doc(arch, rows, lo, hi), "families"@) == Some(families_view(rows[lo].arms)),
        member(phase_doc(arch, rows, lo, hi), "object_class"@) == Some(JsonView::Str(if attends(rows[lo]) { "flash"@ } else { "ordinary"@ })),
        member(phase_doc(arch, rows, lo, hi), "resource_contract"@) == Some(limits_view(arch, attends(rows[lo]))),
        rows[lo].seg matches Some(s) ==> seg_of(rows[lo]) == s,
        rows[lo].seg is None ==> seg_of(rows[lo]) == 0,
{
    reveal(phase_doc);
    reveal_strlit("first_segment");
    reveal_strlit("last_segment");
    reveal_strlit("segments");
    reveal_strlit("arms");
    reveal_strlit("families");
    reveal_strlit("object_class");
    reveal_strlit("resource_contract");
    assert("first_segment"@.len() == 13);
    assert("last_segment"@.len() == 12);
    assert("segments"@.len() == 8);
    assert("arms"@.len() == 4);
    assert("families"@.len() == 8);
    assert("object_class"@.len() == 12);
    assert("resource_contract"@.len() == 17);
    assert("last_segment"@[0] != "object_class"@[0]);
    assert("segments"@[0] != "families"@[0]);
    attends_is_flash(rows[lo]);
}

proof fn end_is_found(rows: Seq<ProgramView>, lo: int, k: int, hi: int)
    requires
        lo < k <= hi <= rows.len(),
        forall|j: int| k <= j < hi ==> alike(#[trigger] rows[j], rows[lo]),
        hi < rows.len() ==> !alike(rows[hi], rows[lo]),
    ensures
        phase_end(rows, lo, k) == hi,
    decreases hi - k,
{
    if k < hi {
        end_is_found(rows, lo, k + 1, hi);
    }
}

/// The phases of a chain go on from where the last ended: a phase takes its first segment and every
/// one behind it that can share its object, up to one that cannot.
pub proof fn phases_follow_one_another(arch: Seq<char>, rows: Seq<ProgramView>, lo: int, hi: int)
    requires
        0 <= lo < hi <= rows.len(),
        forall|j: int| lo < j < hi ==> alike(#[trigger] rows[j], rows[lo]),
        hi < rows.len() ==> !alike(rows[hi], rows[lo]),
    ensures
        phases_from(arch, rows, lo).len() == phases_from(arch, rows, hi).len() + 1,
        phases_from(arch, rows, lo)[0] == phase_doc(arch, rows, lo, hi),
        phases_from(arch, rows, lo).skip(1) == phases_from(arch, rows, hi),
        phases_from(arch, rows, rows.len() as int).len() == 0,
{
    end_is_found(rows, lo, lo + 1, hi);
    assert(phases_from(arch, rows, lo).skip(1) =~= phases_from(arch, rows, hi));
    let n = rows.len() as int;
    assert(phase_end(rows, n, n + 1) == n);
}

proof fn rows_of_a_program(rows: Seq<ProgramView>, program: usize, n: int, r: ProgramView)
    requires
        0 <= n <= rows.len(),
    ensures
        rows_of(rows, program, n).contains(r) <==> r.program == program && exists|i: int|
            0 <= i < n && #[trigger] rows[i] == r,
        programs_in(rows, n).contains(program) <==> exists|i: int|
            0 <= i < n && (#[trigger] rows[i]).program == program,
    decreases n,
{
    if n > 0 {
        rows_of_a_program(rows, program, n - 1, r);
        let before = rows_of(rows, program, n - 1);
        let all = rows_of(rows, program, n);
        if before.contains(r) {
            let k = choose|k: int| 0 <= k < before.len() && before[k] == r;
            assert(all[k] == r);
            let i = choose|i: int| 0 <= i < n - 1 && #[trigger] rows[i] == r;
            assert(0 <= i < n && rows[i] == r);
        }
        if rows[n - 1] == r && r.program == program {
            assert(all[before.len() as int] == r);
            assert(0 <= n - 1 < n && rows[n - 1] == r);
        }
        if all.contains(r) && !before.contains(r) {
            let k = choose|k: int| 0 <= k < all.len() && all[k] == r;
            if k < before.len() {
                assert(before[k] == r);
            } else {
                assert(rows[n - 1] == r);
            }
        }
        if r.program == program && exists|i: int| 0 <= i < n && #[trigger] rows[i] == r {
            let i = choose|i: int| 0 <= i < n && #[trigger] rows[i] == r;
            if i < n - 1 {
                assert(before.contains(r));
            }
        }
        if rows[n - 1].program == program {
            assert(0 <= n - 1 < n && rows[n - 1].program == program);
        }
        if exists|i: int| 0 <= i < n && (#[trigger] rows[i]).program == program {
            let i = choose|i: int| 0 <= i < n && (#[trigger] rows[i]).program == program;
            if i < n - 1 {
                assert(rows[i].program == program);
            }
        }
    }
}

/// A chain's segments are the rows of its program, all of them and no others, and every program that
/// has rows has a chain.
pub proof fn chains_hold_the_rows_of_their_programs(rows: Seq<ProgramView>, program: usize, r: ProgramView)
    ensures
        rows_of(rows, program, rows.len() as int).contains(r) <==> r.program == program && exists|i: int|
            0 <= i < rows.len() && #[trigger] rows[i] == r,
        programs_in(rows, rows.len() as int).contains(program) <==> exists|i: int|
            0 <= i < rows.len() && (#[trigger] rows[i]).program == program,
{
    rows_of_a_program(rows, program, rows.len() as int, r);
}

proof fn chain_at(arch: Seq<char>, rows: Seq<ProgramView>, ps: Seq<usize>, n: int, i: int)
    requires
        0 <= i < n <= ps.len(),
    ensures
        chains_upto(arch, rows, ps, n).len() == n,
        chains_upto(arch, rows, ps, n)[i] == chain_doc(
            arch,
            ps[i],
            rows_of(rows, ps[i], rows.len() as int),
        ),
    decreases n,
{
    if i < n - 1 {
        chain_at(arch, rows, ps, n - 1, i);
    } else if n > 1 {
        chain_at(arch, rows, ps, n - 1, 0);
    } else {
        assert(chains_upto(arch, rows, ps, 0).len() == 0);
    }
}

/// The chains of a packet are one to each program that has rows, in order.
pub proof fn every_program_has_its_chain(arch: Seq<char>, rows: Seq<ProgramView>, i: int)
    requires
        0 <= i < listing::<usize>(programs_in(rows, rows.len() as int)).len(),
    ensures
        ({
            let ps = listing::<usize>(programs_in(rows, rows.len() as int));
            chains_view(arch, rows) matches JsonView::Arr(v) && v.len() == ps.len() && v[i] == chain_doc(
                arch,
                ps[i],
                rows_of(rows, ps[i], rows.len() as int),
            )
        }),
{
    let ps = listing::<usize>(programs_in(rows, rows.len() as int));
    chain_at(arch, rows, ps, ps.len() as int, i);
}

/// A chain's document is of its own program: its number, kind, prompts and rows; its segments in
/// order, its phases from the first on, and one packet to each segment, in order, for which the host
/// waits once.
pub proof fn chains_say_what_they_hold(arch: Seq<char>, program: usize, rows: Seq<ProgramView>, i: int)
    requires
        0 <= i < rows.len(),
    ensures
        member(chain_doc(arch, program, rows), "program"@) == Some(JsonView::Num(program as u64)),
        member(chain_doc(arch, program, rows), "kind"@) == Some(JsonView::Str(if rows[0].decode { "decode"@ } else { "prefill"@ })),
        member(chain_doc(arch, program, rows), "topology"@) == Some(JsonView::Str(if rows[0].packed_prefill_only { "packed"@ } else { "ordinary"@ })),
        member(chain_doc(arch, program, rows), "phases"@) == Some(JsonView::Arr(phases_from(arch, rows, 0))),
        rows[0].decode ==> member(chain_doc(arch, program, rows), "batch"@) == Some(
            JsonView::Num(rows[0].t as u64),
        ) && member(chain_doc(arch, program, rows), "bucket"@) is None,
        !rows[0].decode ==> member(chain_doc(arch, program, rows), "bucket"@) == Some(
            JsonView::Num(rows[0].t as u64),
        ) && member(chain_doc(arch, program, rows), "batch"@) is None,
        member(chain_doc(arch, program, rows), "segments"@) matches Some(JsonView::Arr(v)) && v.len()
            == rows.len() && v[i] == segment_doc(arch, rows[i]),
        member(chain_doc(arch, program, rows), "aql_replay"@) matches Some(r) && member(r, "packets"@)
            == Some(JsonView::Num(rows.len() as u64)) && member(r, "host_drains"@) == Some(
            JsonView::Num(1),
        ) && member(r, "ordering"@) == Some(JsonView::Str("barrier_agent_scope"@)) && member(
            r,
            "rank_commit"@,
        ) == Some(JsonView::Str("prepare_all_ranks_then_ring_all"@)),
{
    reveal(chain_doc);
    reveal_strlit("program");
    reveal_strlit("kind");
    reveal_strlit("topology");
    reveal_strlit("batch");
    reveal_strlit("bucket");
    reveal_strlit("segments");
    reveal_strlit("phases");
    reveal_strlit("aql_replay");
    assert("program"@.len() == 7);
    assert("kind"@.len() == 4);
    assert("topology"@.len() == 8);
    assert("batch"@.len() == 5);
    assert("bucket"@.len() == 6);
    assert("segments"@.len() == 8);
    assert("phases"@.len() == 6);
    assert("aql_replay"@.len() == 10);
    assert("topology"@[0] != "segments"@[0]);
    assert("bucket"@[0] != "phases"@[0]);
    reveal_strlit("packets");
    reveal_strlit("ordering");
    reveal_strlit("rank_commit");
    reveal_strlit("host_drains");
    assert("packets"@.len() == 7);
    assert("ordering"@.len() == 8);
    assert("rank_commit"@.len() == 11);
    assert("host_drains"@.len() == 11);
    assert("rank_commit"@[0] != "host_drains"@[0]);
}

/// Arms of a row, each once.
pub open spec fn arm_count(p: ProgramView) -> nat {
    listing::<Arm>(p.arms).len()
}

proof fn widest_is_the_widest(rows: Seq<ProgramView>, decode: bool, n: int)
    requires
        0 <= n <= rows.len(),
    ensures
        match widest(rows, decode, n) {
            Some(w) => {
                &&& exists|k: int|
                    0 <= k < n && (#[trigger] rows[k]).decode == decode && rows[k].t == w.0 && arm_count(
                        rows[k],
                    ) == w.1
                &&& forall|k: int|
                    0 <= k < n && (#[trigger] rows[k]).decode == decode ==> arm_count(rows[k]) <= w.1
            },
            None => forall|k: int| 0 <= k < n ==> (#[trigger] rows[k]).decode != decode,
        },
    decreases n,
{
    if n > 0 {
        widest_is_the_widest(rows, decode, n - 1);
        let w = widest(rows, decode, n);
        let v = widest(rows, decode, n - 1);
        if w is Some {
            if v is Some && w == v {
                let k = choose|k: int|
                    0 <= k < n - 1 && (#[trigger] rows[k]).decode == decode && rows[k].t == (v->0).0
                        && arm_count(rows[k]) == (v->0).1;
                assert(rows[k].decode == decode && rows[k].t == (w->0).0 && arm_count(rows[k]) == (w->0).1);
            } else {
                let l = rows[n - 1];
                assert(l.decode == decode && l.t == (w->0).0 && arm_count(l) == (w->0).1);
            }
        }
    }
}

/// The owner of a kind's size is a row of the kind that has as many arms as any; a kind without rows
/// has none. The decode owner comes first.
pub proof fn owners_have_the_most_arms(rows: Seq<ProgramView>, decode: bool)
    ensures
        match widest(rows, decode, rows.len() as int) {
            Some(w) => {
                &&& exists|k: int|
                    0 <= k < rows.len() && (#[trigger] rows[k]).decode == decode && rows[k].t == w.0
                        && arm_count(rows[k]) == w.1
                &&& forall|k: int|
                    0 <= k < rows.len() && (#[trigger] rows[k]).decode == decode ==> arm_count(rows[k])
                        <= w.1
                &&& member(owner_doc(decode, w), "kind"@) == Some(
                    JsonView::Str(if decode { "decode"@ } else { "prefill"@ }),
                )
                &&& member(owner_doc(decode, w), "t"@) == Some(JsonView::Num(w.0 as u64))
                &&& member(owner_doc(decode, w), "arms"@) == Some(JsonView::Num(w.1 as u64))
            },
            None => forall|k: int| 0 <= k < rows.len() ==> (#[trigger] rows[k]).decode != decode,
        },
        ({
            let n = rows.len() as int;
            owners_view(rows) matches JsonView::Arr(v) && match (
                widest(rows, true, n),
                widest(rows, false, n),
            ) {
                (Some(d), Some(p)) => v == seq![owner_doc(true, d), owner_doc(false, p)],
                (Some(d), None) => v == seq![owner_doc(true, d)],
                (None, Some(p)) => v == seq![owner_doc(false, p)],
                (None, None) => v.len() == 0,
            }
        }),
{
    widest_is_the_widest(rows, decode, rows.len() as int);
    reveal_strlit("kind");
    reveal_strlit("t");
    reveal_strlit("arms");
    assert("kind"@.len() == 4);
    assert("t"@.len() == 1);
    assert("arms"@.len() == 4);
    assert("kind"@[0] != "arms"@[0]);
    let n = rows.len() as int;
    let v = owners_view(rows)->Arr_0;
    match (widest(rows, true, n), widest(rows, false, n)) {
        (Some(d), Some(p)) => {
            assert(v =~= seq![owner_doc(true, d), owner_doc(false, p)]);
        },
        (Some(d), None) => {
            assert(v =~= seq![owner_doc(true, d)]);
        },
        (None, Some(p)) => {
            assert(v =~= seq![owner_doc(false, p)]);
        },
        (None, None) => {},
    }
}

/// Whether `q` is of the kind of `p`, of other rows, another segment or other prompts.
pub open spec fn is_apart(p: ProgramView, q: ProgramView) -> bool {
    q.decode == p.decode && !(q.t == p.t && q.seg == p.seg && q.packed_prefill_only
        == p.packed_prefill_only)
}

proof fn others_have_their_arms(rows: Seq<ProgramView>, p: ProgramView, n: int, a: ArmView)
    requires
        0 <= n <= rows.len(),
    ensures
        others_arms(rows, p, n).contains(a) <==> exists|i: int|
            0 <= i < n && is_apart(p, #[trigger] rows[i]) && rows[i].arms.contains(a),
    decreases n,
{
    if n > 0 {
        others_have_their_arms(rows, p, n - 1, a);
        assert(is_other(p, rows[n - 1]) == is_apart(p, rows[n - 1]));
        if is_apart(p, rows[n - 1]) && rows[n - 1].arms.contains(a) {
            assert(0 <= n - 1 < n && is_apart(p, rows[n - 1]));
        }
        if exists|i: int| 0 <= i < n && is_apart(p, #[trigger] rows[i]) && rows[i].arms.contains(a) {
            let i = choose|i: int|
                0 <= i < n && is_apart(p, #[trigger] rows[i]) && rows[i].arms.contains(a);
            if i < n - 1 {
                assert(is_apart(p, rows[i]));
            }
        }
    }
}

/// The arms that only one row has are those of its own that no other of its kind has.
pub proof fn exclusive_arms_are_no_others(rows: Seq<ProgramView>, p: ProgramView, a: ArmView)
    ensures
        exclusive(rows, p).contains(a) <==> p.arms.contains(a) && !(exists|i: int|
            0 <= i < rows.len() && is_apart(p, #[trigger] rows[i]) && rows[i].arms.contains(a)),
{
    others_have_their_arms(rows, p, rows.len() as int, a);
}

proof fn counts_are_of_rows(rows: Seq<ProgramView>, decode: bool, n: int)
    requires
        0 <= n <= rows.len(),
    ensures
        count_kind(rows, decode, n) >= 1 <==> exists|i: int|
            0 <= i < n && (#[trigger] rows[i]).decode == decode,
        count_kind(rows, decode, n) > 1 <==> exists|i: int, j: int|
            0 <= i < j < n && (#[trigger] rows[i]).decode == decode && (#[trigger] rows[j]).decode
                == decode,
    decreases n,
{
    if n > 0 {
        counts_are_of_rows(rows, decode, n - 1);
        let l = rows[n - 1];
        if l.decode == decode {
            assert(0 <= n - 1 < n && rows[n - 1].decode == decode);
            if count_kind(rows, decode, n - 1) >= 1 {
                let i = choose|i: int| 0 <= i < n - 1 && (#[trigger] rows[i]).decode == decode;
                assert(0 <= i < n - 1 < n && rows[i].decode == decode && rows[n - 1].decode == decode);
            }
        } else {
            if count_kind(rows, decode, n) >= 1 {
                let i = choose|i: int| 0 <= i < n - 1 && (#[trigger] rows[i]).decode == decode;
                assert(0 <= i < n && rows[i].decode == decode);
            }
            if count_kind(rows, decode, n) > 1 {
                let (i, j) = choose|i: int, j: int|
                    0 <= i < j < n - 1 && (#[trigger] rows[i]).decode == decode && (
                    #[trigger] rows[j]).decode == decode;
                assert(0 <= i < j < n && rows[i].decode == decode && rows[j].decode == decode);
            }
        }
        if exists|i: int, j: int|
            0 <= i < j < n && (#[trigger] rows[i]).decode == decode && (#[trigger] rows[j]).decode
                == decode {
            let (i, j) = choose|i: int, j: int|
                0 <= i < j < n && (#[trigger] rows[i]).decode == decode && (#[trigger] rows[j]).decode
                    == decode;
            assert(0 <= i < n - 1 && rows[i].decode == decode);
        }
    }
}

/// Whether a row has all the arms of another, and more.
pub open spec fn outdoes(p: ProgramView, q: ProgramView) -> bool {
    &&& forall|a: ArmView| #[trigger] q.arms.contains(a) ==> p.arms.contains(a)
    &&& exists|a: ArmView| #[trigger] p.arms.contains(a) && !q.arms.contains(a)
}

/// A row could have an object of its own where its kind has another row and it has arms that no other
/// of the kind has, or where there is another of the kind and it outdoes every one.
pub proof fn rows_that_could_have_their_own_object(rows: Seq<ProgramView>, p: ProgramView)
    ensures
        splits(rows, p) <==> {
            ||| listing::<Arm>(exclusive(rows, p)).len() > 0 && exists|i: int, j: int|
                0 <= i < j < rows.len() && (#[trigger] rows[i]).decode == p.decode && (
                #[trigger] rows[j]).decode == p.decode
            ||| (exists|i: int| 0 <= i < rows.len() && is_apart(p, #[trigger] rows[i])) && forall|i: int|
                0 <= i < rows.len() && is_apart(p, #[trigger] rows[i]) ==> outdoes(p, rows[i])
        },
{
    counts_are_of_rows(rows, p.decode, rows.len() as int);
    assert forall|q: ProgramView| #[trigger] crate::chains::holds_more(p, q) == outdoes(p, q) by {
        if crate::chains::holds_more(p, q) {
            let a = choose|a: ArmView| p.arms.contains(a) && !q.arms.contains(a);
            assert(p.arms.contains(a) && !q.arms.contains(a));
        }
        if outdoes(p, q) {
            assert(q.arms.subset_of(p.arms));
        }
    }
    assert forall|q: ProgramView| #[trigger] is_other(p, q) == is_apart(p, q) by {}
    if crate::chains::holds_others(rows, p) {
        let i = choose|i: int| 0 <= i < rows.len() && is_other(p, #[trigger] rows[i]);
        assert(is_apart(p, rows[i]));
        assert forall|i: int| 0 <= i < rows.len() && is_apart(p, #[trigger] rows[i]) implies outdoes(
            p,
            rows[i],
        ) by {
            assert(is_other(p, rows[i]));
            assert(crate::chains::holds_more(p, rows[i]));
        }
    }
    if (exists|i: int| 0 <= i < rows.len() && is_apart(p, #[trigger] rows[i])) && forall|i: int|
        0 <= i < rows.len() && is_apart(p, #[trigger] rows[i]) ==> outdoes(p, rows[i]) {
        let i = choose|i: int| 0 <= i < rows.len() && is_apart(p, #[trigger] rows[i]);
        assert(is_other(p, rows[i]));
        assert forall|i: int| 0 <= i < rows.len() && is_other(p, #[trigger] rows[i]) implies
            crate::chains::holds_more(p, rows[i]) by {
            assert(is_apart(p, rows[i]));
            assert(outdoes(p, rows[i]));
        }
    }
}

proof fn candidates_are_listed(rows: Seq<ProgramView>, n: int, i: int)
    requires
        0 <= i < n <= rows.len(),
    ensures
        splits(rows, rows[i]) ==> split_upto(rows, n).contains(split_doc(rows, rows[i])),
        split_upto(rows, n).len() <= n,
    decreases n,
{
    if n > 1 {
        candidates_are_listed(rows, n - 1, if i < n - 1 { i } else { 0 });
    }
    let before = split_upto(rows, n - 1);
    let all = split_upto(rows, n);
    if i == n - 1 {
        if splits(rows, rows[i]) {
            assert(all[before.len() as int] == split_doc(rows, rows[i]));
        }
    } else if splits(rows, rows[i]) {
        let k = choose|k: int| 0 <= k < before.len() && before[k] == split_doc(rows, rows[i]);
        assert(all[k] == before[k]);
    }
}

proof fn candidates_are_all(rows: Seq<ProgramView>, n: int, k: int)
    requires
        0 <= n <= rows.len(),
        0 <= k < split_upto(rows, n).len(),
    ensures
        exists|i: int|
            0 <= i < n && splits(rows, #[trigger] rows[i]) && split_upto(rows, n)[k] == split_doc(
                rows,
                rows[i],
            ),
    decreases n,
{
    if n > 0 {
        let before = split_upto(rows, n - 1);
        if k < before.len() {
            candidates_are_all(rows, n - 1, k);
            let i = choose|i: int|
                0 <= i < n - 1 && splits(rows, #[trigger] rows[i]) && before[k] == split_doc(
                    rows,
                    rows[i],
                );
            assert(splits(rows, rows[i]) && split_upto(rows, n)[k] == split_doc(rows, rows[i]));
        } else {
            assert(splits(rows, rows[n - 1]) && split_upto(rows, n)[k] == split_doc(
                rows,
                rows[n - 1],
            ));
        }
    }
}

/// The candidates for objects of their own are the rows that could have one, each with its kind, rows,
/// segment and the arms that only it has.
pub proof fn candidates_are_those_that_could(rows: Seq<ProgramView>, i: int, k: int)
    requires
        0 <= i < rows.len(),
    ensures
        ({
            let v = split_upto(rows, rows.len() as int);
            let d = split_doc(rows, rows[i]);
            &&& member(analysis_view(rows), "split_candidates"@) == Some(JsonView::Arr(v))
            &&& member(analysis_view(rows), "ceiling_owner"@) == Some(owners_view(rows))
            &&& splits(rows, rows[i]) ==> v.contains(d)
            &&& 0 <= k < v.len() ==> exists|j: int|
                0 <= j < rows.len() && splits(rows, #[trigger] rows[j]) && v[k] == split_doc(
                    rows,
                    rows[j],
                )
            &&& member(d, "kind"@) == Some(
                JsonView::Str(if rows[i].decode { "decode"@ } else { "prefill"@ }),
            )
            &&& member(d, "t"@) == Some(JsonView::Num(rows[i].t as u64))
            &&& member(d, "segment"@) == Some(opt_num_view(rows[i].seg))
            &&& member(d, "exclusive_arms"@) == Some(strs_view(keys_of(exclusive(rows, rows[i]))))
        }),
{
    candidates_are_listed(rows, rows.len() as int, i);
    if 0 <= k < split_upto(rows, rows.len() as int).len() {
        candidates_are_all(rows, rows.len() as int, k);
    }
    reveal_strlit("kind");
    reveal_strlit("t");
    reveal_strlit("segment");
    reveal_strlit("exclusive_arms");
    assert("kind"@.len() == 4);
    assert("t"@.len() == 1);
    assert("segment"@.len() == 7);
    assert("exclusive_arms"@.len() == 14);
    reveal_strlit("ceiling_owner");
    reveal_strlit("split_candidates");
    reveal_strlit("note");
    assert("ceiling_owner"@.len() == 13);
    assert("split_candidates"@.len() == 16);
    assert("note"@.len() == 4);
}

} // verus!
