//! What holds of every manifest.
use vstd::prelude::*;

use crate::arms::{
    arm_at, arms_come_from_instructions, packet_ok, packet_rows, program_rows, rows_upto,
    segment_at, segment_ok, segments_of, segments_ok, single_segment, window, window_arms, ArmView,
    Packet, PacketProgram,
};
use crate::fusion::LeanReport;
use crate::inventory::the_union_covers_every_row;
use crate::json::JsonView;
use crate::manifest::{
    compiled_fields, constants_of, inner_fields, manifest_view, objects_view, union_of, Facts,
};
use crate::opcodes::Isa;
use crate::pairing::{compiled_hash, hash_of};
use crate::tune::AttentionDecisionReport;

verus! {

proof fn keys_differ()
    ensures
        "pairing"@ != "union"@,
        "pairing"@ != "objects"@,
        "pairing"@ != "tuning"@,
        "union"@ != "objects"@,
        "union"@ != "tuning"@,
        "objects"@ != "tuning"@,
{
    reveal_strlit("pairing");
    reveal_strlit("union");
    reveal_strlit("objects");
    reveal_strlit("tuning");
    assert("pairing"@[0] == 'p');
    assert("objects"@[0] == 'o');
    assert("union"@.len() == 5 && "tuning"@.len() == 6 && "objects"@.len() == 7);
}

/// What a manifest is compiled from, as its hash reads it.
pub open spec fn stamped(isa: Isa, p: Packet, f: Facts) -> u64 {
    compiled_hash(
        Some(crate::inventory::keys_view(union_of(isa, p))),
        Some(objects_view(isa, p, f)),
        Some(JsonView::Obj(crate::backends::tuning_fields(constants_of(isa, p, f)))),
    )
}

proof fn inner_hash(
    isa: Isa,
    p: Packet,
    f: Facts,
    ds: Seq<AttentionDecisionReport>,
    lean: LeanReport,
)
    ensures
        hash_of(JsonView::Obj(inner_fields(isa, p, f, ds, lean))) == stamped(isa, p, f),
        hash_of(manifest_view(isa, p, f, ds, lean)) == stamped(isa, p, f),
{
    keys_differ();
    reveal(compiled_fields);
}

/// The hash that a manifest states is the hash of the manifest: stating it does not move it, and a
/// header written from the manifest carries the same one.
pub proof fn the_stated_hash_is_the_hash(
    isa: Isa,
    p: Packet,
    f: Facts,
    ds: Seq<AttentionDecisionReport>,
    lean: LeanReport,
)
    ensures
        hash_of(manifest_view(isa, p, f, ds, lean)) == hash_of(
            JsonView::Obj(inner_fields(isa, p, f, ds, lean)),
        ),
{
    inner_hash(isa, p, f, ds, lean);
}

/// Neither verification nor the decisions on attention move the hash: a packet pairs with the same
/// objects whether it was verified or not.
pub proof fn verification_does_not_move_the_hash(
    isa: Isa,
    p: Packet,
    f: Facts,
    ds: Seq<AttentionDecisionReport>,
    es: Seq<AttentionDecisionReport>,
    a: LeanReport,
    b: LeanReport,
)
    ensures
        hash_of(manifest_view(isa, p, f, ds, a)) == hash_of(manifest_view(isa, p, f, es, b)),
{
    inner_hash(isa, p, f, ds, a);
    inner_hash(isa, p, f, es, b);
}

/// Whether an instruction of a program reaches an arm.
pub open spec fn reaches(isa: Isa, g: PacketProgram, a: ArmView) -> bool {
    exists|i: int|
        0 <= i < g.insts@.len() && arm_at(isa, (#[trigger] g.insts@[i]).op, g.insts@[i].args)
            == Some(a)
}

proof fn window_reaches(isa: Isa, g: PacketProgram, a: ArmView, from: int, to: int)
    requires
        forall|k: int| from <= k < to ==> (#[trigger] g.gq_stream@[k]).inst < g.insts@.len(),
        window_arms(isa, g, from, to).contains(a),
    ensures
        reaches(isa, g, a),
    decreases to - from,
{
    if from < to {
        let e = g.gq_stream@[to - 1];
        let d = g.insts@[e.inst as int];
        if arm_at(isa, d.op, d.args) == Some(a) {
            assert(arm_at(isa, g.insts@[e.inst as int].op, g.insts@[e.inst as int].args) == Some(
                a,
            ));
        } else {
            window_reaches(isa, g, a, from, to - 1);
        }
    }
}

proof fn segment_reaches(isa: Isa, g: PacketProgram, a: ArmView, k: int)
    requires
        segments_ok(g),
        0 <= k < segments_of(isa, g).len(),
        segments_of(isa, g)[k].arms.contains(a),
    ensures
        reaches(isa, g, a),
{
    if single_segment(g) {
        arms_come_from_instructions(isa, g.insts@, g.insts@.len() as int, a);
    } else {
        assert(segment_ok(g, k));
        assert(segments_of(isa, g)[k] == segment_at(isa, g, k));
        window_reaches(isa, g, a, window(g, k).0, window(g, k).1);
    }
}

proof fn row_reaches(isa: Isa, p: Packet, a: ArmView, n: int, i: int)
    requires
        packet_ok(p),
        0 <= n <= p.progs@.len(),
        0 <= i < rows_upto(isa, p, n).len(),
        rows_upto(isa, p, n)[i].arms.contains(a),
    ensures
        exists|pi: int| 0 <= pi < p.progs@.len() && reaches(isa, #[trigger] p.progs@[pi], a),
    decreases n,
{
    if n > 0 {
        let before = rows_upto(isa, p, n - 1);
        if i < before.len() {
            row_reaches(isa, p, a, n - 1, i);
        } else {
            let g = p.progs@[n - 1];
            let k = i - before.len();
            assert(program_rows(isa, p, n - 1)[k].arms == segments_of(isa, g)[k].arms);
            segment_reaches(isa, g, a, k);
            assert(reaches(isa, p.progs@[n - 1], a));
        }
    }
}

/// Every arm that a manifest lists is reached by an instruction of the packet: nothing is listed
/// because an emission could have used it.
pub proof fn arms_come_from_the_stream(isa: Isa, p: Packet, a: ArmView)
    requires
        packet_ok(p),
        union_of(isa, p).contains(a),
    ensures
        exists|pi: int| 0 <= pi < p.progs@.len() && reaches(isa, #[trigger] p.progs@[pi], a),
{
    let rows = packet_rows(isa, p);
    the_union_covers_every_row(rows, a);
    let i = choose|i: int| 0 <= i < rows.len() && (#[trigger] rows[i]).arms.contains(a);
    row_reaches(isa, p, a, p.progs@.len() as int, i);
}

/// Where no program is segmented, every arm that an instruction reaches is listed.
pub proof fn every_reached_arm_is_listed(isa: Isa, p: Packet, a: ArmView, pi: int)
    requires
        0 <= pi < p.progs@.len(),
        single_segment(p.progs@[pi]),
        reaches(isa, p.progs@[pi], a),
    ensures
        union_of(isa, p).contains(a),
{
    let g = p.progs@[pi];
    arms_come_from_instructions(isa, g.insts@, g.insts@.len() as int, a);
    let rows = packet_rows(isa, p);
    assert(program_rows(isa, p, pi).len() == 1);
    assert(program_rows(isa, p, pi)[0].arms.contains(a));
    row_is_listed(isa, p, p.progs@.len() as int, pi, 0);
    let i = choose|i: int| 0 <= i < rows.len() && rows[i] == program_rows(isa, p, pi)[0];
    assert(rows[i].arms.contains(a));
    the_union_covers_every_row(rows, a);
}

proof fn row_is_listed(isa: Isa, p: Packet, n: int, pi: int, k: int)
    requires
        0 <= pi < n <= p.progs@.len(),
        0 <= k < program_rows(isa, p, pi).len(),
    ensures
        exists|i: int|
            0 <= i < rows_upto(isa, p, n).len() && rows_upto(isa, p, n)[i] == program_rows(
                isa,
                p,
                pi,
            )[k],
    decreases n,
{
    let before = rows_upto(isa, p, n - 1);
    let all = rows_upto(isa, p, n);
    if pi == n - 1 {
        assert(all[before.len() + k] == program_rows(isa, p, pi)[k]);
    } else {
        row_is_listed(isa, p, n - 1, pi, k);
        let i = choose|i: int|
            0 <= i < before.len() && before[i] == program_rows(isa, p, pi)[k];
        assert(all[i] == before[i]);
    }
}

} // verus!
