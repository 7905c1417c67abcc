//! What a manifest says of a packet: what it is, how it was decided, its programs and its chains.
use vstd::prelude::*;

use crate::arms::{packet_rows, ArmView, Packet, PacketProgram, ProgramView};
use crate::backends::{
    amd_recommends, amd_requires, backends_view, nvcc_recommends, nvcc_requires, tile_source,
    tuning_fields, StageTile, Tuning,
};
use crate::chains::{analysis_view, chains_view, opt_num_view};
use crate::expert_parallel::resident_upto;
use crate::features::{axes_of, axes_view, features_view, Features};
use crate::fusion::LeanReport;
use crate::inventory::{keys_of, lean_fields, ordinary_view};
use crate::isa::DevOp;
use crate::json::{member, nums_view, strs_view, JsonView};
use crate::manifest::{
    boundaries_view, boundary_doc, cell_view, compiled_fields, compiled_view, constants_of,
    decision_doc, dtypes_view, entry_marked, ep_contract_view, ep_view, features_of, inner_fields,
    input_view, lean_block_view, lean_view, manifest_view, marked_fields, objects_view, opcodes_of,
    packet_fields, pairing_view, policy_view, program_doc, program_fields, program_marked,
    programs_view, selected_view, shapes_view, stream_marked, triples_view, union_of, Facts,
    StreamMark,
};
use crate::opcodes::Isa;
use crate::order::listing;
use crate::packet_laws::has_arm;
use crate::packet_shape::{any_marked, shapes_of, sites_of, Boundary, Mark, ShapesView};
use crate::pairing::hash_of;
use crate::text::{begins, dec, hex};
use crate::tune::{algorithm_text, source_text, AttentionDecisionReport, AttentionSource};

verus! {

/// Each of a packet's sizes stands under its own name.
pub proof fn sizes_stand_under_their_names(s: ShapesView)
    ensures
        member(shapes_view(s), "hd"@) == Some(nums_view(listing::<u32>(s.hd))),
        member(shapes_view(s), "kv_heads"@) == Some(nums_view(listing::<u32>(s.kv_heads))),
        member(shapes_view(s), "gqa"@) == Some(JsonView::Num(s.full.gqa as u64)),
        member(shapes_view(s), "decode_batch"@) == Some(JsonView::Num(s.decode_batch as u64)),
        member(shapes_view(s), "kv_dtype"@) == Some(dtypes_view(s.kv_dtype)),
        member(shapes_view(s), "max_chunk"@) == Some(JsonView::Num(s.max_chunk as u64)),
        member(shapes_view(s), "prefill_buckets"@) == Some(nums_view(s.prefill_buckets)),
        member(shapes_view(s), "moe_enc"@) == Some(nums_view(listing::<u32>(s.moe_enc))),
        member(shapes_view(s), "moe_prefill_ep"@) == Some(triples_view(s.moe_prefill_ep)),
{
    reveal(shapes_view);
    reveal_strlit("hd");
    reveal_strlit("kv_heads");
    reveal_strlit("gqa");
    reveal_strlit("decode_batch");
    reveal_strlit("kv_dtype");
    reveal_strlit("max_chunk");
    reveal_strlit("prefill_buckets");
    reveal_strlit("moe_enc");
    reveal_strlit("moe_prefill_ep");
    assert("hd"@.len() == 2);
    assert("kv_heads"@.len() == 8);
    assert("gqa"@.len() == 3);
    assert("decode_batch"@.len() == 12);
    assert("kv_dtype"@.len() == 8);
    assert("max_chunk"@.len() == 9);
    assert("prefill_buckets"@.len() == 15);
    assert("moe_enc"@.len() == 7);
    assert("moe_prefill_ep"@.len() == 14);
    assert("kv_heads"@[3] != "kv_dtype"@[3]);
}

/// The boundaries of expert parallelism are listed in order, each with its ranks, its experts and its
/// full width, as numbers and by name; experts are owned whole, in even runs.
pub proof fn boundaries_are_listed_in_order(s: Set<Boundary>, i: int)
    requires
        0 <= i < listing::<Boundary>(s).len(),
    ensures
        member(boundary_doc(listing::<Boundary>(s)[i]), "degree"@) == Some(JsonView::Num(listing::<Boundary>(s)[i].degree as u64)),
        member(boundary_doc(listing::<Boundary>(s)[i]), "experts"@) == Some(JsonView::Num(listing::<Boundary>(s)[i].experts as u64)),
        member(boundary_doc(listing::<Boundary>(s)[i]), "full_intermediate_width"@) == Some(JsonView::Num(listing::<Boundary>(s)[i].width as u64)),
        member(boundary_doc(listing::<Boundary>(s)[i]), "ownership"@) == Some(JsonView::Str("balanced_contiguous_whole_experts"@)),
        triples_view(s) matches JsonView::Arr(v) && v.len() == listing::<Boundary>(s).len() && ({
            let b = listing::<Boundary>(s)[i];
            v[i] == JsonView::Arr(
                seq![
                    JsonView::Num(b.degree as u64),
                    JsonView::Num(b.experts as u64),
                    JsonView::Num(b.width as u64),
                ],
            )
        }),
        boundaries_view(s) matches JsonView::Arr(v) && v.len() == listing::<Boundary>(s).len() && v[i]
            == boundary_doc(listing::<Boundary>(s)[i]),
{
    reveal_strlit("degree");
    reveal_strlit("experts");
    reveal_strlit("full_intermediate_width");
    reveal_strlit("ownership");
    assert("degree"@.len() == 6);
    assert("experts"@.len() == 7);
    assert("full_intermediate_width"@.len() == 23);
    assert("ownership"@.len() == 9);
    let b = listing::<Boundary>(s)[i];
    assert(nums_view(seq![b.degree, b.experts, b.width])->Arr_0 =~= seq![
        JsonView::Num(b.degree as u64),
        JsonView::Num(b.experts as u64),
        JsonView::Num(b.width as u64),
    ]);
}

/// The expert-parallel objects are needed where there is a boundary; they are these four, in this
/// order, keep nothing of their own on the stack, and say what they add on each rank.
pub proof fn expert_parallel_objects_say_what_they_add(s: Set<Boundary>, extra: int)
    ensures
        member(ep_view(s, extra), "required"@) == Some(JsonView::Bool(s != Set::<Boundary>::empty())),
        member(ep_view(s, extra), "boundaries"@) == Some(boundaries_view(s)),
        member(ep_view(s, extra), "additional_resident_bytes_per_rank"@) == Some(JsonView::Num(extra as u64)),
        member(ep_view(s, extra), "capacity_ack_env"@) == Some(JsonView::Str("PLOW_MOE_PREFILL_EP_MAX_EXTRA_BYTES"@)),
        member(ep_view(s, extra), "resource_contract"@) == Some(ep_contract_view()),
        member(ep_contract_view(), "wavefront_size"@) == Some(JsonView::Num(64)),
        member(ep_contract_view(), "private_segment_bytes"@) == Some(JsonView::Num(0)),
        member(ep_contract_view(), "policy"@) == Some(JsonView::Str("refuse"@)),
        member(ep_view(s, extra), "objects"@) matches Some(JsonView::Arr(v)) && v.len() == 4 && v[0]
            == JsonView::Str("moe_ep_align"@) && v[1] == JsonView::Str("moe_stage1_mxfp4"@) && v[2]
            == JsonView::Str("moe_ep_stage2"@) && v[3] == JsonView::Str("moe_ep_combine"@),
{
    reveal(ep_view);
    reveal_strlit("required");
    reveal_strlit("boundaries");
    reveal_strlit("objects");
    reveal_strlit("additional_resident_bytes_per_rank");
    reveal_strlit("capacity_ack_env");
    reveal_strlit("resource_contract");
    assert("required"@.len() == 8);
    assert("boundaries"@.len() == 10);
    assert("objects"@.len() == 7);
    assert("additional_resident_bytes_per_rank"@.len() == 34);
    assert("capacity_ack_env"@.len() == 16);
    assert("resource_contract"@.len() == 17);
    reveal_strlit("wavefront_size");
    reveal_strlit("private_segment_bytes");
    reveal_strlit("policy");
    assert("wavefront_size"@.len() == 14);
    assert("private_segment_bytes"@.len() == 21);
    assert("policy"@.len() == 6);
}

/// Whether an entry of a program's stream reaches an instruction of which something holds, and
/// carries a mark.
pub open spec fn streams(p: Packet, f: spec_fn(crate::arms::StreamEnt, crate::arms::DevInst) -> bool) -> bool {
    exists|i: int, k: int|
        0 <= i < p.progs@.len() && 0 <= k < p.progs@[i].stream@.len() && {
            let e = #[trigger] p.progs@[i].stream@[k];
            e.inst < p.progs@[i].insts@.len() && f(e, p.progs@[i].insts@[e.inst as int])
        }
}

proof fn marks_are_streamed(
    p: Packet,
    m: StreamMark,
    f: spec_fn(crate::arms::StreamEnt, crate::arms::DevInst) -> bool,
)
    requires
        forall|g: PacketProgram, e: crate::arms::StreamEnt| #[trigger]
            entry_marked(g, m, e) == (e.inst < g.insts@.len() && f(e, g.insts@[e.inst as int])),
    ensures
        stream_marked(p, m) == streams(p, f),
{
    if stream_marked(p, m) {
        let i = choose|i: int| 0 <= i < p.progs@.len() && program_marked(#[trigger] p.progs@[i], m);
        let g = p.progs@[i];
        let k = choose|k: int| 0 <= k < g.stream@.len() && entry_marked(g, m, #[trigger] g.stream@[k]);
        let e = p.progs@[i].stream@[k];
        assert(e.inst < p.progs@[i].insts@.len() && f(e, p.progs@[i].insts@[e.inst as int]));
    }
    if streams(p, f) {
        let (i, k) = choose|i: int, k: int|
            0 <= i < p.progs@.len() && 0 <= k < p.progs@[i].stream@.len() && {
                let e = #[trigger] p.progs@[i].stream@[k];
                e.inst < p.progs@[i].insts@.len() && f(e, p.progs@[i].insts@[e.inst as int])
            };
        assert(entry_marked(p.progs@[i], m, p.progs@[i].stream@[k]));
        assert(program_marked(p.progs@[i], m));
    }
}

/// The lean objects that marks ask for are needed where an entry of a stream carries the mark and
/// reaches an instruction that it is for. Of a chunk product's lean form, the one that feeds keys is
/// told apart by its sixth number.
pub proof fn marks_ask_for_their_objects(isa: Isa, p: Packet, m: Map<Seq<char>, JsonView>)
    ensures
        ({
            let j = JsonView::Obj(marked_fields(m, isa, p));
            let asked = |b: bool| Some(JsonView::Obj(map!["required"@ => JsonView::Bool(b)]));
            &&& member(j, "kda_intra_wave_items"@) == asked(
                streams(
                    p,
                    |e: crate::arms::StreamEnt, d: crate::arms::DevInst|
                        e.intra_wave_items && d.op == DevOp::KdaChunkIntra,
                ),
            )
            &&& member(j, "kda_carry_regstate"@) == asked(
                streams(
                    p,
                    |e: crate::arms::StreamEnt, d: crate::arms::DevInst|
                        e.carry_regstate && d.op == DevOp::KdaChunkCarry,
                ),
            )
            &&& member(j, "kda_wu_lean"@) == asked(
                streams(
                    p,
                    |e: crate::arms::StreamEnt, d: crate::arms::DevInst|
                        e.wu_lean && d.op == DevOp::KdaChunkWu && d.args.i5 != 1,
                ),
            )
            &&& member(j, "kda_carry_keyfeed"@) == asked(
                streams(
                    p,
                    |e: crate::arms::StreamEnt, d: crate::arms::DevInst|
                        e.wu_lean && d.op == DevOp::KdaChunkWu && d.args.i5 == 1,
                ),
            )
            &&& member(j, "attn_res_f32mix"@) == asked(
                any_marked(isa, Mark::AttnResF32mix, sites_of(p)),
            )
        }),
{
    reveal(marked_fields);
    reveal_strlit("kda_intra_wave_items");
    reveal_strlit("kda_carry_regstate");
    reveal_strlit("kda_wu_lean");
    reveal_strlit("kda_carry_keyfeed");
    reveal_strlit("attn_res_f32mix");
    assert("kda_intra_wave_items"@.len() == 20);
    assert("kda_carry_regstate"@.len() == 18);
    assert("kda_wu_lean"@.len() == 11);
    assert("kda_carry_keyfeed"@.len() == 17);
    assert("attn_res_f32mix"@.len() == 15);
    marks_are_streamed(
        p,
        StreamMark::IntraWaveItems,
        |e: crate::arms::StreamEnt, d: crate::arms::DevInst|
            e.intra_wave_items && d.op == DevOp::KdaChunkIntra,
    );
    marks_are_streamed(
        p,
        StreamMark::CarryRegstate,
        |e: crate::arms::StreamEnt, d: crate::arms::DevInst|
            e.carry_regstate && d.op == DevOp::KdaChunkCarry,
    );
    marks_are_streamed(
        p,
        StreamMark::WuLean,
        |e: crate::arms::StreamEnt, d: crate::arms::DevInst|
            e.wu_lean && d.op == DevOp::KdaChunkWu && d.args.i5 != 1,
    );
    marks_are_streamed(
        p,
        StreamMark::CarryKeyfeed,
        |e: crate::arms::StreamEnt, d: crate::arms::DevInst|
            e.wu_lean && d.op == DevOp::KdaChunkWu && d.args.i5 == 1,
    );
}

/// A body is asked for by its define exactly where it is wanted, and leaves no member where it is
/// not; the expert-parallel objects stand beside them with what the packet adds on each rank.
pub proof fn bodies_are_asked_for_by_their_defines(isa: Isa, p: Packet, f: Facts)
    ensures
        ({
            let j = lean_view(isa, p, f);
            let s = shapes_of(isa, p);
            let body = |t: Seq<char>|
                JsonView::Obj(map!["required"@ => JsonView::Bool(true), "define"@ => JsonView::Str(t)]);
            &&& f.moe_stage1_body ==> member(j, "moe_stage1_body"@) == Some(body("PLOW_MOE1_BODY"@))
            &&& f.moe_stage2_body ==> member(j, "moe_stage2_body"@) == Some(body("PLOW_MOE2_BODY"@))
            &&& !f.moe_stage1_body ==> member(j, "moe_stage1_body"@) is None
            &&& !f.moe_stage2_body ==> member(j, "moe_stage2_body"@) is None
            &&& member(j, "moe_prefill_ep"@) == Some(
                ep_view(s.moe_prefill_ep, resident_upto(p.tensors@, s.sites, s.sites.len() as int)),
            )
            &&& member(j, "kda_decode_fused"@) == member(
                JsonView::Obj(lean_fields(packet_rows(isa, p))),
                "kda_decode_fused"@,
            )
            &&& member(j, "packed_kda_prefill"@) == member(
                JsonView::Obj(lean_fields(packet_rows(isa, p))),
                "packed_kda_prefill"@,
            )
            &&& member(j, "kda_key_factor_pair"@) == member(
                JsonView::Obj(lean_fields(packet_rows(isa, p))),
                "kda_key_factor_pair"@,
            )
        }),
        member(objects_view(isa, p, f), "lean"@) == Some(lean_view(isa, p, f)),
        member(objects_view(isa, p, f), "ordinary"@) == Some(
            ordinary_view(isa, packet_rows(isa, p), f.arch@),
        ),
{
    reveal(marked_fields);
    reveal_strlit("kda_intra_wave_items");
    reveal_strlit("kda_carry_regstate");
    reveal_strlit("kda_wu_lean");
    reveal_strlit("kda_carry_keyfeed");
    reveal_strlit("attn_res_f32mix");
    reveal_strlit("moe_stage1_body");
    reveal_strlit("moe_stage2_body");
    reveal_strlit("moe_prefill_ep");
    reveal_strlit("kda_decode_fused");
    reveal_strlit("packed_kda_prefill");
    reveal_strlit("kda_key_factor_pair");
    assert("kda_intra_wave_items"@.len() == 20);
    assert("kda_carry_regstate"@.len() == 18);
    assert("kda_wu_lean"@.len() == 11);
    assert("kda_carry_keyfeed"@.len() == 17);
    assert("attn_res_f32mix"@.len() == 15);
    assert("moe_stage1_body"@.len() == 15);
    assert("moe_stage2_body"@.len() == 15);
    assert("moe_prefill_ep"@.len() == 14);
    assert("kda_decode_fused"@.len() == 16);
    assert("packed_kda_prefill"@.len() == 18);
    assert("kda_key_factor_pair"@.len() == 19);
    assert("kda_carry_regstate"@[0] != "packed_kda_prefill"@[0]);
    assert("attn_res_f32mix"@[0] != "moe_stage1_body"@[0]);
    assert("attn_res_f32mix"@[0] != "moe_stage2_body"@[0]);
    assert("moe_stage1_body"@[9] != "moe_stage2_body"@[9]);
    reveal_strlit("lean");
    reveal_strlit("ordinary");
    assert("lean"@.len() == 4);
    assert("ordinary"@.len() == 8);
}

/// A decision on an attention says what it was decided for, what could be and what is, each under its
/// own name; it is qualified where the choice came from a measurement.
pub proof fn decisions_say_what_was_decided(d: AttentionDecisionReport)
    ensures
        member(cell_view(d), "hardware"@) == Some(JsonView::Str(d.hardware@)),
        member(cell_view(d), "n_cu"@) == Some(JsonView::Num(d.n_cu as u64)),
        member(cell_view(d), "decode_rung"@) == Some(JsonView::Num(d.decode_rung as u64)),
        member(cell_view(d), "kv_bucket"@) == Some(JsonView::Str(d.kv_bucket@)),
        member(cell_view(d), "shape"@) == Some(JsonView::Str(d.shape@)),
        member(compiled_view(d), "max_nsplit"@) == Some(JsonView::Num(d.compiled_max_nsplit as u64)),
        member(compiled_view(d), "persistent"@) == Some(JsonView::Bool(d.compiled_persistent)),
        member(selected_view(d), "algorithm"@) == Some(JsonView::Str(algorithm_text(d.selected.algorithm))),
        member(selected_view(d), "nsplit"@) == Some(JsonView::Num(d.selected.nsplit as u64)),
        member(selected_view(d), "source"@) == Some(JsonView::Str(source_text(d.selected.source))),
        member(decision_doc(d), "cell"@) == Some(cell_view(d)),
        member(decision_doc(d), "compiled"@) == Some(compiled_view(d)),
        member(decision_doc(d), "selected"@) == Some(selected_view(d)),
        member(decision_doc(d), "qualified"@) == Some(JsonView::Bool(d.selected.source == AttentionSource::Qualified)),
        d.selected.source == AttentionSource::Qualified ==> source_text(d.selected.source)
            == "qualified"@,
        d.selected.source == AttentionSource::FixedFallback ==> source_text(d.selected.source)
            == "fixed_fallback"@,
{
    reveal(decision_doc);
    reveal_strlit("hardware");
    reveal_strlit("n_cu");
    reveal_strlit("decode_rung");
    reveal_strlit("kv_bucket");
    reveal_strlit("shape");
    assert("hardware"@.len() == 8);
    assert("n_cu"@.len() == 4);
    assert("decode_rung"@.len() == 11);
    assert("kv_bucket"@.len() == 9);
    assert("shape"@.len() == 5);
    reveal_strlit("algorithms");
    reveal_strlit("max_nsplit");
    reveal_strlit("persistent");
    assert("algorithms"@.len() == 10);
    assert("max_nsplit"@.len() == 10);
    assert("persistent"@.len() == 10);
    assert("algorithms"@[0] != "max_nsplit"@[0]);
    assert("algorithms"@[0] != "persistent"@[0]);
    assert("max_nsplit"@[0] != "persistent"@[0]);
    reveal_strlit("algorithm");
    reveal_strlit("nsplit");
    reveal_strlit("source");
    assert("algorithm"@.len() == 9);
    assert("nsplit"@.len() == 6);
    assert("source"@.len() == 6);
    assert("nsplit"@[0] != "source"@[0]);
    reveal_strlit("cell");
    reveal_strlit("compiled");
    reveal_strlit("qualified");
    reveal_strlit("selected");
    assert("cell"@.len() == 4);
    assert("compiled"@.len() == 8);
    assert("qualified"@.len() == 9);
    assert("selected"@.len() == 8);
    assert("compiled"@[0] != "selected"@[0]);
}

/// Decisions are listed in their order, and none is made anew while a packet runs.
pub proof fn decisions_are_listed_in_order(ds: Seq<AttentionDecisionReport>, i: int)
    requires
        0 <= i < ds.len(),
    ensures
        member(policy_view(ds), "runtime_kv_reselection"@) == Some(JsonView::Bool(false)),
        member(policy_view(ds), "entries"@) matches Some(JsonView::Arr(v)) && v.len() == ds.len() && v[i]
            == decision_doc(ds[i]),
{
    reveal_strlit("entries");
    reveal_strlit("runtime_kv_reselection");
    reveal_strlit("note");
    assert("entries"@.len() == 7);
    assert("runtime_kv_reselection"@.len() == 22);
    assert("note"@.len() == 4);
}

/// Whether a packet was verified is said as it was reported, with the reason where there is one.
pub proof fn verification_is_said_as_reported(l: LeanReport)
    ensures
        member(lean_block_view(l), "verified"@) == Some(JsonView::Bool(l.verified)),
        member(lean_block_view(l), "oracle"@) == Some(JsonView::Bool(l.oracle)),
        member(lean_block_view(l), "reason"@) == Some(
            match l.reason {
                Some(s) => JsonView::Str(s@),
                None => JsonView::Null,
            },
        ),
{
    reveal_strlit("verified");
    reveal_strlit("oracle");
    reveal_strlit("reason");
    reveal_strlit("note");
    assert("verified"@.len() == 8);
    assert("oracle"@.len() == 6);
    assert("reason"@.len() == 6);
    assert("note"@.len() == 4);
    assert("oracle"@[0] != "reason"@[0]);
}

/// A program's document names its rows a batch where it decodes and a bucket where it does not; its
/// kind and its prompts are told beside, with its segment, its instructions and its arms.
pub proof fn programs_say_what_they_are(p: ProgramView)
    ensures
        member(program_doc(p), "kind"@) == Some(JsonView::Str(if p.decode { "decode"@ } else { "prefill"@ })),
        member(program_doc(p), "topology"@) == Some(JsonView::Str(if p.packed_prefill_only { "packed"@ } else { "ordinary"@ })),
        member(program_doc(p), "segment"@) == Some(opt_num_view(p.seg)),
        member(program_doc(p), "insts"@) == Some(JsonView::Num(p.insts as u64)),
        member(program_doc(p), "arms"@) == Some(strs_view(keys_of(p.arms))),
        p.decode ==> member(program_doc(p), "batch"@) == Some(JsonView::Num(p.t as u64)) && member(
            program_doc(p),
            "bucket"@,
        ) is None,
        !p.decode ==> member(program_doc(p), "bucket"@) == Some(JsonView::Num(p.t as u64)) && member(
            program_doc(p),
            "batch"@,
        ) is None,
        p.seg is None ==> opt_num_view(p.seg) == JsonView::Null,
        p.seg matches Some(s) ==> opt_num_view(p.seg) == JsonView::Num(s as u64),
{
    reveal(program_doc);
    reveal_strlit("kind");
    reveal_strlit("topology");
    reveal_strlit("batch");
    reveal_strlit("bucket");
    reveal_strlit("segment");
    reveal_strlit("insts");
    reveal_strlit("arms");
    assert("kind"@.len() == 4);
    assert("topology"@.len() == 8);
    assert("batch"@.len() == 5);
    assert("bucket"@.len() == 6);
    assert("segment"@.len() == 7);
    assert("insts"@.len() == 5);
    assert("arms"@.len() == 4);
    assert("kind"@[0] != "arms"@[0]);
    assert("batch"@[0] != "insts"@[0]);
}

/// A packet takes token numbers of text, and nothing to be seen.
pub proof fn a_packet_takes_tokens()
    ensures
        member(input_view(), "kind"@) == Some(JsonView::Str("token_ids"@)),
        member(input_view(), "vision"@) == Some(JsonView::Bool(false)),
        member(input_view(), "modalities"@) matches Some(JsonView::Arr(v)) && v.len() == 1 && v[0]
            == JsonView::Str("text"@),
{
    reveal_strlit("kind");
    reveal_strlit("modalities");
    reveal_strlit("vision");
    assert("kind"@.len() == 4);
    assert("modalities"@.len() == 10);
    assert("vision"@.len() == 6);
}

/// A manifest's parts stand under their own names, each of the packet that it is of, and its hash
/// beside them is the hash of all the others.
pub proof fn a_manifest_has_its_parts(
    isa: Isa,
    p: Packet,
    f: Facts,
    ds: Seq<AttentionDecisionReport>,
    lean: LeanReport,
)
    ensures
        ({
            let j = manifest_view(isa, p, f, ds, lean);
            let s = shapes_of(isa, p);
            let c = features_of(isa, p, f);
            let u = union_of(isa, p);
            let rows = packet_rows(isa, p);
            &&& member(j, "schema"@) == Some(JsonView::Num(1))
            &&& member(j, "arch"@) == Some(JsonView::Str(f.arch@))
            &&& member(j, "n_cu"@) == Some(JsonView::Num(p.n_cu as u64))
            &&& member(j, "input_contract"@) == Some(input_view())
            &&& member(j, "opcodes"@) == Some(strs_view(listing::<String>(opcodes_of(u))))
            &&& member(j, "shapes"@) == Some(shapes_view(s))
            &&& member(j, "features"@) == Some(features_view(c))
            &&& member(j, "precision"@) == Some(axes_view(axes_of(isa, c, s, u)))
            &&& member(j, "attention_policy"@) == Some(policy_view(ds))
            &&& member(j, "lean"@) == Some(lean_block_view(lean))
            &&& member(j, "programs"@) == Some(programs_view(rows))
            &&& member(j, "dispatch_chains"@) == Some(chains_view(f.arch@, rows))
            &&& member(j, "analysis"@) == Some(analysis_view(rows))
            &&& member(j, "backends"@) == Some(
                backends_view(isa, f.arch@, f.stage, c, s, u, constants_of(isa, p, f)),
            )
            &&& member(j, "union"@) == Some(strs_view(keys_of(u)))
            &&& member(j, "objects"@) == Some(objects_view(isa, p, f))
            &&& member(j, "tuning"@) == Some(JsonView::Obj(tuning_fields(constants_of(isa, p, f))))
            &&& member(j, "pairing"@) == Some(
                pairing_view(hash_of(JsonView::Obj(inner_fields(isa, p, f, ds, lean)))),
            )
        }),
{
    reveal(packet_fields);
    reveal(program_fields);
    reveal(compiled_fields);
    reveal_strlit("schema");
    reveal_strlit("arch");
    reveal_strlit("n_cu");
    reveal_strlit("input_contract");
    reveal_strlit("opcodes");
    reveal_strlit("shapes");
    reveal_strlit("features");
    reveal_strlit("precision");
    reveal_strlit("attention_policy");
    reveal_strlit("lean");
    reveal_strlit("programs");
    reveal_strlit("dispatch_chains");
    reveal_strlit("analysis");
    reveal_strlit("backends");
    reveal_strlit("union");
    reveal_strlit("objects");
    reveal_strlit("tuning");
    reveal_strlit("pairing");
    assert("schema"@.len() == 6);
    assert("arch"@.len() == 4);
    assert("n_cu"@.len() == 4);
    assert("input_contract"@.len() == 14);
    assert("opcodes"@.len() == 7);
    assert("shapes"@.len() == 6);
    assert("features"@.len() == 8);
    assert("precision"@.len() == 9);
    assert("attention_policy"@.len() == 16);
    assert("lean"@.len() == 4);
    assert("programs"@.len() == 8);
    assert("dispatch_chains"@.len() == 15);
    assert("analysis"@.len() == 8);
    assert("backends"@.len() == 8);
    assert("union"@.len() == 5);
    assert("objects"@.len() == 7);
    assert("tuning"@.len() == 6);
    assert("pairing"@.len() == 7);
    assert("schema"@[1] != "shapes"@[1]);
    assert("schema"@[0] != "tuning"@[0]);
    assert("arch"@[0] != "n_cu"@[0]);
    assert("arch"@[0] != "lean"@[0]);
    assert("n_cu"@[0] != "lean"@[0]);
    assert("opcodes"@[1] != "objects"@[1]);
    assert("opcodes"@[0] != "pairing"@[0]);
    assert("shapes"@[0] != "tuning"@[0]);
    assert("features"@[0] != "programs"@[0]);
    assert("features"@[0] != "analysis"@[0]);
    assert("features"@[0] != "backends"@[0]);
    assert("programs"@[0] != "analysis"@[0]);
    assert("programs"@[0] != "backends"@[0]);
    assert("analysis"@[0] != "backends"@[0]);
    assert("objects"@[0] != "pairing"@[0]);
}

spec fn sixteens(k: nat) -> nat
    decreases k,
{
    if k == 0 {
        1
    } else {
        16 * sixteens((k - 1) as nat)
    }
}

proof fn digits_are_few(n: nat, k: nat)
    requires
        k > 0,
        n < sixteens(k),
    ensures
        hex(n).len() <= k,
    decreases k,
{
    if n >= 16 {
        assert(sixteens(1) == 16) by {
            reveal_with_fuel(sixteens, 2);
        }
        digits_are_few(n / 16, (k - 1) as nat);
    }
}

/// The hash is written as `0x` and sixteen hexadecimal digits, zeros before.
pub proof fn the_hash_is_written_in_full(h: u64)
    ensures
        member(pairing_view(h), "hash"@) matches Some(JsonView::Str(t)) && t.len() == 2 + 16 && t.take(2)
            == "0x"@ && t.skip(18 - hex(h as nat).len()) == hex(h as nat) && forall|k: int|
            2 <= k < 18 - hex(h as nat).len() ==> #[trigger] t[k] == '0',
{
    reveal_strlit("hash");
    reveal_strlit("algo");
    reveal_strlit("note");
    assert("hash"@.len() == 4);
    assert("algo"@.len() == 4);
    assert("note"@.len() == 4);
    assert("hash"@[0] != "algo"@[0]);
    assert("hash"@[0] != "note"@[0]);
    assert("algo"@[0] != "note"@[0]);
    reveal_strlit("0x");
    assert(sixteens(16) == 0x1_0000_0000_0000_0000) by {
        reveal_with_fuel(sixteens, 17);
    }
    digits_are_few(h as nat, 16);
    let d = hex(h as nat);
    let t = "0x"@ + crate::manifest::hex16(h as nat);
    assert(t.take(2) =~= "0x"@);
    assert(t.skip(18 - d.len()) =~= d);
}

/// The constants stand under their names; where no tile was looked up nothing is said of tiles, and
/// where the rule does not speak nothing is said of shared heads.
pub proof fn constants_stand_under_their_names(t: Tuning)
    ensures
        ({
            let j = JsonView::Obj(tuning_fields(t));
            &&& member(j, "gv_mm_max"@) == Some(JsonView::Num(t.gv_mm_max as u64))
            &&& t.tally.lookups > 0 ==> member(j, "tile_lookups"@) == Some(
                JsonView::Num(t.tally.lookups),
            ) && member(j, "tile_measured"@) == Some(JsonView::Num(t.tally.hits)) && member(
                j,
                "tile_source"@,
            ) == Some(JsonView::Str(tile_source(t.tally)))
            &&& t.tally.lookups == 0 ==> member(j, "tile_lookups"@) is None && member(
                j,
                "tile_measured"@,
            ) is None && member(j, "tile_source"@) is None
            &&& t.gf_full matches Some(g) ==> member(j, "gf_full"@) == Some(JsonView::Num(g as u64))
            &&& t.gf_full is None ==> member(j, "gf_full"@) is None
        }),
{
    reveal_strlit("gv_mm_max");
    reveal_strlit("tile_lookups");
    reveal_strlit("tile_measured");
    reveal_strlit("tile_source");
    reveal_strlit("gf_full");
    assert("gv_mm_max"@.len() == 9);
    assert("tile_lookups"@.len() == 12);
    assert("tile_measured"@.len() == 13);
    assert("tile_source"@.len() == 11);
    assert("gf_full"@.len() == 7);
}

/// Each toolchain has its two lists, and AMD's stand under the target, or under the part that is
/// built for by default where the target is not AMD's.
pub proof fn toolchains_have_their_lists(
    isa: Isa,
    arch: Seq<char>,
    g: StageTile,
    f: Features,
    s: ShapesView,
    u: Set<ArmView>,
    t: Tuning,
    key: Seq<char>,
)
    requires
        begins(arch, "gfx"@) ==> key == arch,
        !begins(arch, "gfx"@) ==> key == "gfx950"@,
    ensures
        ({
            let j = backends_view(isa, arch, g, f, s, u, t);
            let n = member(j, "nvcc"@);
            let a = member(j, key);
            &&& n is Some && a is Some
            &&& member(n->0, "requires"@) == Some(strs_view(nvcc_requires(isa, f, s)))
            &&& member(n->0, "recommends"@) == Some(strs_view(nvcc_recommends(t)))
            &&& member(a->0, "requires"@) == Some(strs_view(amd_requires(key, g, f, s, u)))
            &&& member(a->0, "recommends"@) == Some(strs_view(amd_recommends(t.gf_full, s, u)))
        }),
{
    reveal_strlit("nvcc");
    reveal_strlit("gfx");
    reveal_strlit("gfx950");
    assert("nvcc"@.len() == 4 && "gfx950"@.len() == 6);
    if begins(arch, "gfx"@) {
        assert(arch.take(3)[0] == arch[0]);
        assert("nvcc"@[0] != arch[0]);
    }
    reveal_strlit("requires");
    reveal_strlit("recommends");
    assert("requires"@.len() == 8);
    assert("recommends"@.len() == 10);
}

/// What is recommended: the rows of products, and the shared heads where the rule speaks, under each
/// toolchain's name for them; and on AMD that a prefill object take single rows, where a packet that
/// serves prompts has any.
pub proof fn recommendations_follow_the_constants(t: Tuning, s: ShapesView, u: Set<ArmView>, x: Seq<char>)
    ensures
        nvcc_recommends(t).contains(x) <==> x == "GV_MM_MAX="@ + dec(t.gv_mm_max as nat) || (
        t.gf_full matches Some(g) && x == "PLOW_NV_FA_GF_FULL="@ + dec(g as nat)),
        amd_recommends(t.gf_full, s, u).contains(x) <==> (t.gf_full matches Some(g) && x
            == "PLOW_FA_GF_FULL="@ + dec(g as nat)) || (s.prefill_buckets.len() > 0 && has_arm(
            u,
            "Gemv"@,
        ) && x == "prefill object must dispatch PLOW_DOP_GEMV (lm_head at M=1)"@),
{
    let n = nvcc_recommends(t);
    let a = amd_recommends(t.gf_full, s, u);
    let first = "GV_MM_MAX="@ + dec(t.gv_mm_max as nat);
    let lead = "prefill object must dispatch PLOW_DOP_GEMV (lm_head at M=1)"@;
    let wanted = s.prefill_buckets.len() > 0 && crate::features::op_in(u, "Gemv"@);
    assert(has_arm(u, "Gemv"@) == crate::features::op_in(u, "Gemv"@));
    assert(n[0] == first);
    match t.gf_full {
        Some(g) => {
            let w = "PLOW_NV_FA_GF_FULL="@ + dec(g as nat);
            assert(n =~= seq![first, w]);
            assert(n[1] == w);
            let v = "PLOW_FA_GF_FULL="@ + dec(g as nat);
            if wanted {
                assert(a =~= seq![v, lead]);
                assert(a[0] == v && a[1] == lead);
            } else {
                assert(a =~= seq![v]);
                assert(a[0] == v);
            }
        },
        None => {
            assert(n =~= seq![first]);
            if wanted {
                assert(a =~= seq![lead]);
                assert(a[0] == lead);
            } else {
                assert(a =~= Seq::<Seq<char>>::empty());
            }
        },
    }
}

} // verus!
