//! The manifest of a packet: what it asks of the object that runs it.
//!
//! Everything here is read off the packet's instructions. What an emission was asked for is one
//! thing; what its packet contains is what an object has to run.
use vstd::prelude::*;

use crate::arms::{
    packet_fits, packet_ok, packet_rows, program_arms, programs_wf, Arm, ArmView, DevInst, Packet,
    PacketProgram, ProgramArms, ProgramView, StreamEnt,
};
use crate::backends::{
    backends, backends_view, tuning, tuning_fields, tuning_json, tuning_of, tuning_ok, StageTile,
    Tally, Tuning,
};
use crate::chains::{
    analysis, analysis_view, chains_view, dispatch_chains, kind_str, kind_text, opt_num_json,
    opt_num_view, rows_key, rows_str, topology_str, topology_text,
};
use crate::expert_parallel::{resident_extra, resident_upto};
use crate::features::{
    arm_features, axes_json, axes_of, axes_view, encoded_features, encoding_features, features,
    features_json, features_view, precision_axes, Axes, Features,
};
use crate::fusion::LeanReport;
use crate::inventory::{
    arms_of_kind, collect_arms, keys, keys_json, keys_view, lean_fields, lean_objects,
    ordinary_objects, ordinary_view, Rows,
};
use crate::isa::DevOp;
use crate::json::{
    bool_json, num_json, nums_json, nums_view, str_json, strs_json, strs_view, Fields, Items, Json,
    JsonView,
};
use crate::opcodes::Isa;
use crate::order::{listing, views, SortedSet};
use crate::packet_shape::{
    any_marked, carries, kv_map, shapes, shapes_of, sites_of, Boundary, KvDtype, Mark, Shapes,
    ShapesView,
};
use crate::pairing::{hash_of, pairing_hash};
use crate::text::{dec, hex, labelled, push_hex, text};
use crate::tune::{
    algorithm_name, algorithm_text, source_name, source_text, AttentionDecisionReport,
    AttentionSource,
};

verus! {

/// What a manifest says beside what the packet shows.
pub struct Facts {
    pub arch: String,
    /// The prefill stage of gfx942.
    pub stage: StageTile,
    pub gemv_prefetch: bool,
    pub moe_stage1_body: bool,
    pub moe_stage2_body: bool,
    pub tally: Tally,
}

/// What is marked on a stream entry, of an instruction that the mark is for.
#[derive(Clone, Copy, PartialEq, Eq, Debug, Structural)]
pub enum StreamMark {
    IntraWaveItems,
    CarryRegstate,
    WuLean,
    CarryKeyfeed,
}

/// Whether a stream entry carries a mark.
pub open spec fn entry_marked(p: PacketProgram, m: StreamMark, e: StreamEnt) -> bool {
    e.inst < p.insts@.len() && {
        let d = p.insts@[e.inst as int];
        match m {
            StreamMark::IntraWaveItems => e.intra_wave_items && d.op == DevOp::KdaChunkIntra,
            StreamMark::CarryRegstate => e.carry_regstate && d.op == DevOp::KdaChunkCarry,
            StreamMark::WuLean => e.wu_lean && d.op == DevOp::KdaChunkWu && d.args.i5 != 1,
            StreamMark::CarryKeyfeed => e.wu_lean && d.op == DevOp::KdaChunkWu && d.args.i5 == 1,
        }
    }
}

/// Whether any entry of a program's stream carries a mark.
pub open spec fn program_marked(p: PacketProgram, m: StreamMark) -> bool {
    exists|k: int| 0 <= k < p.stream@.len() && entry_marked(p, m, #[trigger] p.stream@[k])
}

/// Whether any program's stream carries a mark.
pub open spec fn stream_marked(p: Packet, m: StreamMark) -> bool {
    exists|i: int| 0 <= i < p.progs@.len() && program_marked(#[trigger] p.progs@[i], m)
}

fn is_entry_marked(p: &PacketProgram, m: StreamMark, e: StreamEnt) -> (r: bool)
    ensures
        r == entry_marked(*p, m, e),
{
    if e.inst as u64 >= p.insts.len() as u64 {
        return false;
    }
    let d: DevInst = p.insts[e.inst as usize];
    match m {
        StreamMark::IntraWaveItems => e.intra_wave_items && d.op == DevOp::KdaChunkIntra,
        StreamMark::CarryRegstate => e.carry_regstate && d.op == DevOp::KdaChunkCarry,
        StreamMark::WuLean => e.wu_lean && d.op == DevOp::KdaChunkWu && d.args.i5 != 1,
        StreamMark::CarryKeyfeed => e.wu_lean && d.op == DevOp::KdaChunkWu && d.args.i5 == 1,
    }
}

fn is_program_marked(p: &PacketProgram, m: StreamMark) -> (r: bool)
    ensures
        r == program_marked(*p, m),
{
    let mut k: usize = 0;
    while k < p.stream.len()
        invariant
            k <= p.stream@.len(),
            forall|j: int| 0 <= j < k ==> !entry_marked(*p, m, #[trigger] p.stream@[j]),
        decreases p.stream@.len() - k,
    {
        if is_entry_marked(p, m, p.stream[k]) {
            proof {
                assert(entry_marked(*p, m, p.stream@[k as int]));
            }
            return true;
        }
        k = k + 1;
    }
    false
}

fn is_stream_marked(p: &Packet, m: StreamMark) -> (r: bool)
    ensures
        r == stream_marked(*p, m),
{
    let mut i: usize = 0;
    while i < p.progs.len()
        invariant
            i <= p.progs@.len(),
            forall|j: int| 0 <= j < i ==> !program_marked(#[trigger] p.progs@[j], m),
        decreases p.progs@.len() - i,
    {
        if is_program_marked(&p.progs[i], m) {
            proof {
                assert(program_marked(p.progs@[i as int], m));
            }
            return true;
        }
        i = i + 1;
    }
    false
}

/// An object that is asked for or not.
pub open spec fn required_view(b: bool) -> JsonView {
    JsonView::Obj(map!["required"@ => JsonView::Bool(b)])
}

fn required_json(b: bool) -> (r: Json)
    ensures
        r@ == required_view(b),
{
    let mut o = Fields::new();
    o.put("required", bool_json(b));
    o.done()
}

/// A boundary of expert parallelism as a document.
pub open spec fn boundary_doc(b: Boundary) -> JsonView {
    JsonView::Obj(
        map![
            "degree"@ => JsonView::Num(b.degree as u64),
            "experts"@ => JsonView::Num(b.experts as u64),
            "full_intermediate_width"@ => JsonView::Num(b.width as u64),
            "ownership"@ => JsonView::Str("balanced_contiguous_whole_experts"@),
        ],
    )
}

/// The boundaries of a packet.
pub open spec fn boundaries_view(s: Set<Boundary>) -> JsonView {
    let l = listing::<Boundary>(s);
    JsonView::Arr(Seq::new(l.len(), |i: int| boundary_doc(l[i])))
}

/// The boundaries of a packet as bare numbers.
pub open spec fn triples_view(s: Set<Boundary>) -> JsonView {
    let l = listing::<Boundary>(s);
    JsonView::Arr(
        Seq::new(l.len(), |i: int| nums_view(seq![l[i].degree, l[i].experts, l[i].width])),
    )
}

fn boundaries_json(s: &SortedSet<Boundary>) -> (r: Json)
    requires
        s.wf(),
    ensures
        r@ == boundaries_view(s@),
{
    proof {
        s.items_are_the_listing();
        assert(views(s.items@) =~= s.items@);
    }
    let mut a = Items::new();
    let mut i: usize = 0;
    while i < s.items.len()
        invariant
            i <= s.items@.len(),
            s.items@ == listing::<Boundary>(s@),
            a@.len() == i,
            forall|j: int| 0 <= j < i ==> #[trigger] a@[j] == boundary_doc(s.items@[j]),
        decreases s.items@.len() - i,
    {
        let b: Boundary = s.items[i];
        let mut o = Fields::new();
        o.put("degree", num_json(b.degree));
        o.put("experts", num_json(b.experts));
        o.put("full_intermediate_width", num_json(b.width));
        o.put("ownership", str_json("balanced_contiguous_whole_experts"));
        a.push(o.done());
        i = i + 1;
    }
    proof {
        assert(a@ =~= boundaries_view(s@)->Arr_0);
    }
    a.done()
}

fn triples_json(s: &SortedSet<Boundary>) -> (r: Json)
    requires
        s.wf(),
    ensures
        r@ == triples_view(s@),
{
    proof {
        s.items_are_the_listing();
        assert(views(s.items@) =~= s.items@);
    }
    let mut a = Items::new();
    let mut i: usize = 0;
    while i < s.items.len()
        invariant
            i <= s.items@.len(),
            s.items@ == listing::<Boundary>(s@),
            a@.len() == i,
            forall|j: int|
                0 <= j < i ==> #[trigger] a@[j] == nums_view(
                    seq![s.items@[j].degree, s.items@[j].experts, s.items@[j].width],
                ),
        decreases s.items@.len() - i,
    {
        let b: Boundary = s.items[i];
        let mut v: Vec<u32> = Vec::new();
        v.push(b.degree);
        v.push(b.experts);
        v.push(b.width);
        proof {
            assert(v@ =~= seq![b.degree, b.experts, b.width]);
        }
        a.push(nums_json(&v));
        i = i + 1;
    }
    proof {
        assert(a@ =~= triples_view(s@)->Arr_0);
    }
    a.done()
}

/// The limits of the expert-parallel objects.
pub open spec fn ep_contract_view() -> JsonView {
    JsonView::Obj(
        map![
            "wavefront_size"@ => JsonView::Num(64),
            "private_segment_bytes"@ => JsonView::Num(0),
            "policy"@ => JsonView::Str("refuse"@),
        ],
    )
}

/// The expert-parallel objects, and what they keep on each rank.
#[verifier::opaque]
pub open spec fn ep_view(s: Set<Boundary>, extra: int) -> JsonView {
    JsonView::Obj(
        map![
            "required"@ => JsonView::Bool(s != Set::<Boundary>::empty()),
            "boundaries"@ => boundaries_view(s),
            "objects"@ => strs_view(
                seq!["moe_ep_align"@, "moe_stage1_mxfp4"@, "moe_ep_stage2"@, "moe_ep_combine"@],
            ),
            "additional_resident_bytes_per_rank"@ => JsonView::Num(extra as u64),
            "capacity_ack_env"@ => JsonView::Str("PLOW_MOE_PREFILL_EP_MAX_EXTRA_BYTES"@),
            "resource_contract"@ => ep_contract_view(),
        ],
    )
}

fn ep_json(s: &SortedSet<Boundary>, extra: u64) -> (r: Json)
    requires
        s.wf(),
    ensures
        r@ == ep_view(s@, extra as int),
{
    proof {
        reveal(ep_view);
        if s.items@.len() > 0 {
            let v = views(s.items@);
            assert(v.contains(v[0]));
            assert(s@.contains(v[0]));
        } else {
            assert(s@ =~= Set::<Boundary>::empty());
        }
    }
    let mut names: Vec<String> = Vec::new();
    names.push(text("moe_ep_align"));
    names.push(text("moe_stage1_mxfp4"));
    names.push(text("moe_ep_stage2"));
    names.push(text("moe_ep_combine"));
    proof {
        assert(views(names@) =~= seq![
            "moe_ep_align"@,
            "moe_stage1_mxfp4"@,
            "moe_ep_stage2"@,
            "moe_ep_combine"@,
        ]);
    }
    let mut c = Fields::new();
    c.put("wavefront_size", num_json(64));
    c.put("private_segment_bytes", num_json(0));
    c.put("policy", str_json("refuse"));
    let mut o = Fields::new();
    o.put("required", bool_json(s.items.len() > 0));
    o.put("boundaries", boundaries_json(s));
    o.put("objects", strs_json(&names));
    o.put("additional_resident_bytes_per_rank", Json::Num(extra));
    o.put("capacity_ack_env", str_json("PLOW_MOE_PREFILL_EP_MAX_EXTRA_BYTES"));
    o.put("resource_contract", c.done());
    o.done()
}

/// A body that is asked for by its define.
pub open spec fn body_view(define: Seq<char>) -> JsonView {
    JsonView::Obj(
        map!["required"@ => JsonView::Bool(true), "define"@ => JsonView::Str(define)],
    )
}

fn body_json(define: &str) -> (r: Json)
    ensures
        r@ == body_view(define@),
{
    let mut o = Fields::new();
    o.put("required", bool_json(true));
    o.put("define", str_json(define));
    o.done()
}

/// The lean objects that marks on the packet ask for, added to those of its arms.
#[verifier::opaque]
pub open spec fn marked_fields(
    m: Map<Seq<char>, JsonView>,
    isa: Isa,
    p: Packet,
) -> Map<Seq<char>, JsonView> {
    m.insert(
        "kda_intra_wave_items"@,
        required_view(stream_marked(p, StreamMark::IntraWaveItems)),
    ).insert(
        "attn_res_f32mix"@,
        required_view(any_marked(isa, Mark::AttnResF32mix, sites_of(p))),
    ).insert(
        "kda_carry_regstate"@,
        required_view(stream_marked(p, StreamMark::CarryRegstate)),
    ).insert(
        "kda_wu_lean"@,
        required_view(stream_marked(p, StreamMark::WuLean)),
    ).insert(
        "kda_carry_keyfeed"@,
        required_view(stream_marked(p, StreamMark::CarryKeyfeed)),
    )
}

fn put_marked(o: &mut Fields, isa: &Isa, p: &Packet, s: &Shapes)
    requires
        s@.sites == sites_of(*p),
    ensures
        final(o)@ == marked_fields(old(o)@, *isa, *p),
{
    proof {
        reveal(marked_fields);
    }
    o.put("kda_intra_wave_items", required_json(is_stream_marked(p, StreamMark::IntraWaveItems)));
    o.put("attn_res_f32mix", required_json(carries(isa, Mark::AttnResF32mix, &s.sites)));
    o.put("kda_carry_regstate", required_json(is_stream_marked(p, StreamMark::CarryRegstate)));
    o.put("kda_wu_lean", required_json(is_stream_marked(p, StreamMark::WuLean)));
    o.put("kda_carry_keyfeed", required_json(is_stream_marked(p, StreamMark::CarryKeyfeed)));
}

/// The lean objects of a packet. A body that nothing asks for leaves no member at all.
pub open spec fn lean_view(isa: Isa, p: Packet, f: Facts) -> JsonView {
    let s = shapes_of(isa, p);
    let m = marked_fields(lean_fields(packet_rows(isa, p)), isa, p);
    let m = m.insert(
        "moe_prefill_ep"@,
        ep_view(s.moe_prefill_ep, resident_upto(p.tensors@, s.sites, s.sites.len() as int)),
    );
    let m = if f.moe_stage1_body {
        m.insert("moe_stage1_body"@, body_view("PLOW_MOE1_BODY"@))
    } else {
        m
    };
    let m = if f.moe_stage2_body {
        m.insert("moe_stage2_body"@, body_view("PLOW_MOE2_BODY"@))
    } else {
        m
    };
    JsonView::Obj(m)
}

/// The objects of a packet.
pub open spec fn objects_view(isa: Isa, p: Packet, f: Facts) -> JsonView {
    JsonView::Obj(
        map![
            "ordinary"@ => ordinary_view(isa, packet_rows(isa, p), f.arch@),
            "lean"@ => lean_view(isa, p, f),
        ],
    )
}

fn objects_json(
    isa: &Isa,
    p: &Packet,
    rows: &Vec<ProgramArms>,
    s: &Shapes,
    extra: u64,
    f: &Facts,
) -> (r: Json)
    requires
        programs_wf(rows@),
        views(rows@) == packet_rows(*isa, *p),
        s.wf(),
        s@ == shapes_of(*isa, *p),
        extra == resident_upto(p.tensors@, s@.sites, s@.sites.len() as int),
    ensures
        r@ == objects_view(*isa, *p, *f),
{
    let mut l = lean_objects(rows);
    put_marked(&mut l, isa, p, s);
    l.put("moe_prefill_ep", ep_json(&s.moe_prefill_ep, extra));
    if f.moe_stage1_body {
        l.put("moe_stage1_body", body_json("PLOW_MOE1_BODY"));
    }
    if f.moe_stage2_body {
        l.put("moe_stage2_body", body_json("PLOW_MOE2_BODY"));
    }
    let mut o = Fields::new();
    o.put("ordinary", ordinary_objects(isa, rows, f.arch.as_str()));
    o.put("lean", l.done());
    o.done()
}

/// What an attention was decided for.
pub open spec fn cell_view(d: AttentionDecisionReport) -> JsonView {
    JsonView::Obj(
        map![
            "hardware"@ => JsonView::Str(d.hardware@),
            "n_cu"@ => JsonView::Num(d.n_cu as u64),
            "decode_rung"@ => JsonView::Num(d.decode_rung as u64),
            "kv_bucket"@ => JsonView::Str(d.kv_bucket@),
            "shape"@ => JsonView::Str(d.shape@),
        ],
    )
}

/// What an attention could be.
pub open spec fn compiled_view(d: AttentionDecisionReport) -> JsonView {
    JsonView::Obj(
        map![
            "algorithms"@ => strs_view(seq!["split_reduce"@]),
            "max_nsplit"@ => JsonView::Num(d.compiled_max_nsplit as u64),
            "persistent"@ => JsonView::Bool(d.compiled_persistent),
        ],
    )
}

/// What an attention is.
pub open spec fn selected_view(d: AttentionDecisionReport) -> JsonView {
    JsonView::Obj(
        map![
            "algorithm"@ => JsonView::Str(algorithm_text(d.selected.algorithm)),
            "nsplit"@ => JsonView::Num(d.selected.nsplit as u64),
            "source"@ => JsonView::Str(source_text(d.selected.source)),
        ],
    )
}

/// A decision on an attention.
#[verifier::opaque]
pub open spec fn decision_doc(d: AttentionDecisionReport) -> JsonView {
    JsonView::Obj(
        map![
            "cell"@ => cell_view(d),
            "compiled"@ => compiled_view(d),
            "qualified"@ => JsonView::Bool(d.selected.source == AttentionSource::Qualified),
            "selected"@ => selected_view(d),
        ],
    )
}

fn decision_json(d: &AttentionDecisionReport) -> (r: Json)
    ensures
        r@ == decision_doc(*d),
{
    proof {
        reveal(decision_doc);
    }
    let mut cell = Fields::new();
    cell.put("hardware", str_json(d.hardware.as_str()));
    cell.put("n_cu", num_json(d.n_cu));
    cell.put("decode_rung", num_json(d.decode_rung));
    cell.put("kv_bucket", str_json(d.kv_bucket.as_str()));
    cell.put("shape", str_json(d.shape.as_str()));
    let mut names: Vec<String> = Vec::new();
    names.push(text("split_reduce"));
    proof {
        assert(views(names@) =~= seq!["split_reduce"@]);
    }
    let mut compiled = Fields::new();
    compiled.put("algorithms", strs_json(&names));
    compiled.put("max_nsplit", num_json(d.compiled_max_nsplit));
    compiled.put("persistent", bool_json(d.compiled_persistent));
    let mut selected = Fields::new();
    selected.put("algorithm", str_json(algorithm_name(d.selected.algorithm)));
    selected.put("nsplit", num_json(d.selected.nsplit));
    selected.put("source", str_json(source_name(d.selected.source)));
    let mut o = Fields::new();
    o.put("cell", cell.done());
    o.put("compiled", compiled.done());
    o.put("qualified", bool_json(d.selected.source == AttentionSource::Qualified));
    o.put("selected", selected.done());
    o.done()
}

/// The decisions on attention. A packet is not decided anew while it runs.
pub open spec fn policy_view(ds: Seq<AttentionDecisionReport>) -> JsonView {
    JsonView::Obj(
        map![
            "entries"@ => JsonView::Arr(Seq::new(ds.len(), |i: int| decision_doc(ds[i]))),
            "runtime_kv_reselection"@ => JsonView::Bool(false),
            "note"@ => JsonView::Str("selection is exact-cell and offline; runtime KV-bucket reselection remains disabled until calibrated records and packet immediate patching are available"@),
        ],
    )
}

fn policy_json(ds: &Vec<AttentionDecisionReport>) -> (r: Json)
    ensures
        r@ == policy_view(ds@),
{
    let mut a = Items::new();
    let mut i: usize = 0;
    while i < ds.len()
        invariant
            i <= ds@.len(),
            a@.len() == i,
            forall|j: int| 0 <= j < i ==> #[trigger] a@[j] == decision_doc(ds@[j]),
        decreases ds@.len() - i,
    {
        a.push(decision_json(&ds[i]));
        i = i + 1;
    }
    proof {
        assert(a@ =~= Seq::new(ds@.len(), |i: int| decision_doc(ds@[i])));
    }
    let mut o = Fields::new();
    o.put("entries", a.done());
    o.put("runtime_kv_reselection", bool_json(false));
    o.put("note", str_json("selection is exact-cell and offline; runtime KV-bucket reselection remains disabled until calibrated records and packet immediate patching are available"));
    o.done()
}

/// Whether the packet was verified, and why not where it was not.
pub open spec fn lean_block_view(l: LeanReport) -> JsonView {
    JsonView::Obj(
        map![
            "verified"@ => JsonView::Bool(l.verified),
            "oracle"@ => JsonView::Bool(l.oracle),
            "reason"@ => (match l.reason {
                Some(s) => JsonView::Str(s@),
                None => JsonView::Null,
            }),
            "note"@ => JsonView::Str("`verified` = a Lean ordering certificate (plow_verify checkpoint D) was obtained for EVERY program in this blob; `oracle` = the Lean decode lower-bound query ran. false means NOT CHECKED (see `reason`), never `checked and rejected` — a rejection aborts emission, so a blob with a rejected program never reaches disk and has no manifest."@),
        ],
    )
}

/// Whether the packet was verified, and why not where it was not.
pub fn lean_block(l: &LeanReport) -> (r: Json)
    ensures
        r@ == lean_block_view(*l),
{
    let mut o = Fields::new();
    o.put("verified", bool_json(l.verified));
    o.put("oracle", bool_json(l.oracle));
    o.put(
        "reason",
        match &l.reason {
            Some(s) => str_json(s.as_str()),
            None => Json::Null,
        },
    );
    o.put("note", str_json("`verified` = a Lean ordering certificate (plow_verify checkpoint D) was obtained for EVERY program in this blob; `oracle` = the Lean decode lower-bound query ran. false means NOT CHECKED (see `reason`), never `checked and rejected` — a rejection aborts emission, so a blob with a rejected program never reaches disk and has no manifest."));
    o.done()
}

/// A program, or one segment of it.
#[verifier::opaque]
pub open spec fn program_doc(p: ProgramView) -> JsonView {
    JsonView::Obj(
        map![
            "kind"@ => JsonView::Str(kind_text(p.decode)),
            "topology"@ => JsonView::Str(topology_text(p.packed_prefill_only)),
            rows_key(p.decode) => JsonView::Num(p.t as u64),
            "segment"@ => opt_num_view(p.seg),
            "insts"@ => JsonView::Num(p.insts as u64),
            "arms"@ => keys_view(p.arms),
        ],
    )
}

fn program_json(p: &ProgramArms) -> (r: Json)
    requires
        p.arms.wf(),
    ensures
        r@ == program_doc(p@),
{
    proof {
        reveal(program_doc);
    }
    let mut o = Fields::new();
    o.put("kind", str_json(kind_str(p.decode)));
    o.put("topology", str_json(topology_str(p.packed_prefill_only)));
    o.put(rows_str(p.decode), num_json(p.t));
    o.put("segment", opt_num_json(p.seg));
    o.put("insts", Json::Num(p.insts as u64));
    o.put("arms", keys_json(&p.arms));
    o.done()
}

/// The programs of a packet, by segment.
pub open spec fn programs_view(rows: Seq<ProgramView>) -> JsonView {
    JsonView::Arr(Seq::new(rows.len(), |i: int| program_doc(rows[i])))
}

fn programs_json(rows: &Vec<ProgramArms>) -> (r: Json)
    requires
        programs_wf(rows@),
    ensures
        r@ == programs_view(views(rows@)),
{
    let mut a = Items::new();
    let mut i: usize = 0;
    while i < rows.len()
        invariant
            programs_wf(rows@),
            i <= rows@.len(),
            a@.len() == i,
            forall|j: int| 0 <= j < i ==> #[trigger] a@[j] == program_doc(rows@[j]@),
        decreases rows@.len() - i,
    {
        a.push(program_json(&rows[i]));
        i = i + 1;
    }
    proof {
        assert(a@ =~= programs_view(views(rows@))->Arr_0);
    }
    a.done()
}

/// What the keys and values of the first `n` head sizes are stored as.
pub open spec fn dtype_fields(m: Map<u32, bool>, hs: Seq<u32>, n: int) -> Map<Seq<char>, JsonView>
    decreases n,
{
    if n <= 0 {
        Map::empty()
    } else {
        dtype_fields(m, hs, n - 1).insert(
            "hd"@ + dec(hs[n - 1] as nat),
            JsonView::Str(if m[hs[n - 1]] { "e4m3"@ } else { "bf16"@ }),
        )
    }
}

/// What the keys and values of each head size are stored as.
pub open spec fn dtypes_view(m: Map<u32, bool>) -> JsonView {
    let hs = listing::<u32>(m.dom());
    JsonView::Obj(dtype_fields(m, hs, hs.len() as int))
}

fn dtype_hds(v: &Vec<KvDtype>) -> (r: SortedSet<u32>)
    ensures
        r.wf(),
        r@ == kv_map(v@, v@.len() as int).dom(),
{
    let mut r: SortedSet<u32> = SortedSet::new();
    let mut i: usize = 0;
    proof {
        assert(r@ =~= kv_map(v@, 0).dom());
    }
    while i < v.len()
        invariant
            i <= v@.len(),
            r.wf(),
            r@ == kv_map(v@, i as int).dom(),
        decreases v@.len() - i,
    {
        let e: KvDtype = v[i];
        r.insert(e.hd);
        i = i + 1;
        proof {
            assert(r@ =~= kv_map(v@, i as int).dom());
        }
    }
    r
}

fn dtype_of(v: &Vec<KvDtype>, hd: u32) -> (r: bool)
    requires
        kv_map(v@, v@.len() as int).dom().contains(hd),
    ensures
        r == kv_map(v@, v@.len() as int)[hd],
{
    let mut n: usize = v.len();
    while n > 0
        invariant
            n <= v@.len(),
            kv_map(v@, v@.len() as int).dom().contains(hd),
            kv_map(v@, n as int).dom().contains(hd),
            kv_map(v@, n as int)[hd] == kv_map(v@, v@.len() as int)[hd],
        decreases n,
    {
        if v[n - 1].hd == hd {
            return v[n - 1].e4m3;
        }
        n = n - 1;
    }
    false
}

fn dtypes_json(v: &Vec<KvDtype>) -> (r: Json)
    ensures
        r@ == dtypes_view(kv_map(v@, v@.len() as int)),
{
    let ghost m = kv_map(v@, v@.len() as int);
    let hs: SortedSet<u32> = dtype_hds(v);
    proof {
        hs.items_are_the_listing();
        assert(views(hs.items@) =~= hs.items@);
    }
    let mut o = Fields::new();
    let mut i: usize = 0;
    while i < hs.items.len()
        invariant
            i <= hs.items@.len(),
            m == kv_map(v@, v@.len() as int),
            hs.items@.to_set() == m.dom(),
            o@ == dtype_fields(m, hs.items@, i as int),
        decreases hs.items@.len() - i,
    {
        let h: u32 = hs.items[i];
        proof {
            assert(hs.items@.contains(h));
            assert(m.dom().contains(h));
        }
        o.put(
            labelled("hd", h as u64).as_str(),
            str_json(if dtype_of(v, h) { "e4m3" } else { "bf16" }),
        );
        i = i + 1;
    }
    o.done()
}

/// The shapes as a document.
#[verifier::opaque]
pub open spec fn shapes_view(s: ShapesView) -> JsonView {
    JsonView::Obj(
        map![
            "hd"@ => nums_view(listing::<u32>(s.hd)),
            "kv_heads"@ => nums_view(listing::<u32>(s.kv_heads)),
            "gqa"@ => JsonView::Num(s.full.gqa as u64),
            "decode_batch"@ => JsonView::Num(s.decode_batch as u64),
            "kv_dtype"@ => dtypes_view(s.kv_dtype),
            "max_chunk"@ => JsonView::Num(s.max_chunk as u64),
            "prefill_buckets"@ => nums_view(s.prefill_buckets),
            "moe_enc"@ => nums_view(listing::<u32>(s.moe_enc)),
            "moe_prefill_ep"@ => triples_view(s.moe_prefill_ep),
        ],
    )
}

fn set_json(s: &SortedSet<u32>) -> (r: Json)
    requires
        s.wf(),
    ensures
        r@ == nums_view(listing::<u32>(s@)),
{
    proof {
        s.items_are_the_listing();
        assert(views(s.items@) =~= s.items@);
    }
    nums_json(&s.items)
}

fn shapes_json(s: &Shapes) -> (r: Json)
    requires
        s.wf(),
    ensures
        r@ == shapes_view(s@),
{
    proof {
        reveal(shapes_view);
    }
    let mut o = Fields::new();
    o.put("hd", set_json(&s.hd));
    o.put("kv_heads", set_json(&s.kv_heads));
    o.put("gqa", num_json(s.full.gqa));
    o.put("decode_batch", num_json(s.decode_batch));
    o.put("kv_dtype", dtypes_json(&s.kv_dtype));
    o.put("max_chunk", num_json(s.max_chunk));
    o.put("prefill_buckets", nums_json(&s.prefill_buckets));
    o.put("moe_enc", set_json(&s.moe_enc));
    o.put("moe_prefill_ep", triples_json(&s.moe_prefill_ep));
    o.done()
}

/// The opcodes of a set of arms.
pub open spec fn opcodes_of(u: Set<ArmView>) -> Set<Seq<char>> {
    u.map(|a: ArmView| a.op)
}

fn opcodes(u: &SortedSet<Arm>) -> (r: SortedSet<String>)
    ensures
        r.wf(),
        r@ == opcodes_of(u@),
{
    let mut r: SortedSet<String> = SortedSet::new();
    let mut i: usize = 0;
    while i < u.items.len()
        invariant
            i <= u.items@.len(),
            r.wf(),
            forall|f: Seq<char>| #[trigger]
                r@.contains(f) <==> exists|j: int| 0 <= j < i && f == (#[trigger] u.items@[j])@.op,
        decreases u.items@.len() - i,
    {
        let ghost before = r@;
        r.insert(u.items[i].op.clone());
        proof {
            assert forall|f: Seq<char>| #[trigger]
                r@.contains(f) <==> exists|j: int|
                    0 <= j < i + 1 && f == (#[trigger] u.items@[j])@.op by {
                if before.contains(f) {
                    let j = choose|j: int| 0 <= j < i && f == (#[trigger] u.items@[j])@.op;
                    assert(0 <= j < i + 1 && f == u.items@[j]@.op);
                }
                if exists|j: int| 0 <= j < i + 1 && f == (#[trigger] u.items@[j])@.op {
                    let j = choose|j: int| 0 <= j < i + 1 && f == (#[trigger] u.items@[j])@.op;
                    if j < i {
                        assert(before.contains(f));
                    }
                }
                assert(u.items@[i as int]@.op == u.items@[i as int].op@);
            }
        }
        i = i + 1;
    }
    proof {
        let want = opcodes_of(u@);
        assert forall|f: Seq<char>| r@.contains(f) <==> want.contains(f) by {
            if r@.contains(f) {
                let j = choose|j: int| 0 <= j < i && f == (#[trigger] u.items@[j])@.op;
                crate::features::arm_in_items(u, u.items@[j]@);
                assert(u@.contains(u.items@[j]@));
            }
            if want.contains(f) {
                let a = choose|a: ArmView| u@.contains(a) && f == a.op;
                crate::features::arm_in_items(u, a);
                let j = choose|j: int| 0 <= j < u.items@.len() && (#[trigger] u.items@[j])@ == a;
                assert(f == u.items@[j]@.op);
            }
        }
        assert(r@ =~= want);
    }
    r
}

/// What a packet takes as its input.
pub open spec fn input_view() -> JsonView {
    JsonView::Obj(
        map![
            "kind"@ => JsonView::Str("token_ids"@),
            "modalities"@ => strs_view(seq!["text"@]),
            "vision"@ => JsonView::Bool(false),
        ],
    )
}

fn input_json() -> (r: Json)
    ensures
        r@ == input_view(),
{
    let mut v: Vec<String> = Vec::new();
    v.push(text("text"));
    proof {
        assert(views(v@) =~= seq!["text"@]);
    }
    let mut o = Fields::new();
    o.put("kind", str_json("token_ids"));
    o.put("modalities", strs_json(&v));
    o.put("vision", bool_json(false));
    o.done()
}

/// All the arms of a packet.
pub open spec fn union_of(isa: Isa, p: Packet) -> Set<ArmView> {
    arms_of_kind(Rows::All, packet_rows(isa, p))
}

/// The capabilities that a packet asks for.
pub open spec fn features_of(isa: Isa, p: Packet, f: Facts) -> Features {
    encoded_features(isa, arm_features(union_of(isa, p)), shapes_of(isa, p), f.gemv_prefetch)
}

/// The constants of a packet.
pub open spec fn constants_of(isa: Isa, p: Packet, f: Facts) -> Tuning {
    tuning_of(shapes_of(isa, p), f.tally)
}

/// What the packet is, in a manifest.
#[verifier::opaque]
pub open spec fn packet_fields(isa: Isa, p: Packet, f: Facts) -> Map<Seq<char>, JsonView> {
    Map::<Seq<char>, JsonView>::empty().insert("schema"@, JsonView::Num(1)).insert(
        "arch"@,
        JsonView::Str(f.arch@),
    ).insert("n_cu"@, JsonView::Num(p.n_cu as u64)).insert("input_contract"@, input_view()).insert(
        "opcodes"@,
        strs_view(listing::<String>(opcodes_of(union_of(isa, p)))),
    ).insert("shapes"@, shapes_view(shapes_of(isa, p))).insert(
        "features"@,
        features_view(features_of(isa, p, f)),
    ).insert(
        "precision"@,
        axes_view(axes_of(isa, features_of(isa, p, f), shapes_of(isa, p), union_of(isa, p))),
    )
}

/// How a packet was decided and checked, and its programs, in a manifest.
#[verifier::opaque]
pub open spec fn program_fields(
    m: Map<Seq<char>, JsonView>,
    isa: Isa,
    p: Packet,
    f: Facts,
    ds: Seq<AttentionDecisionReport>,
    lean: LeanReport,
) -> Map<Seq<char>, JsonView> {
    m.insert("attention_policy"@, policy_view(ds)).insert("lean"@, lean_block_view(lean)).insert(
        "programs"@,
        programs_view(packet_rows(isa, p)),
    ).insert("dispatch_chains"@, chains_view(f.arch@, packet_rows(isa, p))).insert(
        "analysis"@,
        analysis_view(packet_rows(isa, p)),
    ).insert(
        "backends"@,
        backends_view(
            isa,
            f.arch@,
            f.stage,
            features_of(isa, p, f),
            shapes_of(isa, p),
            union_of(isa, p),
            constants_of(isa, p, f),
        ),
    )
}

/// What an object is compiled from, in a manifest.
#[verifier::opaque]
pub open spec fn compiled_fields(
    m: Map<Seq<char>, JsonView>,
    isa: Isa,
    p: Packet,
    f: Facts,
) -> Map<Seq<char>, JsonView> {
    m.insert("union"@, keys_view(union_of(isa, p))).insert(
        "objects"@,
        objects_view(isa, p, f),
    ).insert("tuning"@, JsonView::Obj(tuning_fields(constants_of(isa, p, f))))
}

/// The members of a manifest, but for its hash.
pub open spec fn inner_fields(
    isa: Isa,
    p: Packet,
    f: Facts,
    ds: Seq<AttentionDecisionReport>,
    lean: LeanReport,
) -> Map<Seq<char>, JsonView> {
    compiled_fields(
        program_fields(packet_fields(isa, p, f), isa, p, f, ds, lean),
        isa,
        p,
        f,
    )
}

/// Whether a manifest can be written: the segments are sound, and its numbers fit.
pub open spec fn manifest_ok(isa: Isa, p: Packet) -> bool {
    let s = shapes_of(isa, p);
    &&& packet_ok(p)
    &&& tuning_ok(s)
    &&& resident_upto(p.tensors@, s.sites, s.sites.len() as int) <= u64::MAX
}

/// Whether a manifest can be written.
pub fn manifest_fits(isa: &Isa, p: &Packet) -> (r: bool)
    ensures
        r == manifest_ok(*isa, *p),
{
    if !packet_fits(p) {
        return false;
    }
    let s: Shapes = shapes(isa, p);
    let top: u32 = crate::arith::POW2_TOP;
    if s.decode_batch > top || s.full.gqa > top {
        return false;
    }
    match resident_extra(p, &s.sites) {
        Some(_) => true,
        None => false,
    }
}

fn put_packet(
    o: &mut Fields,
    isa: &Isa,
    p: &Packet,
    f: &Facts,
    s: &Shapes,
    u: &SortedSet<Arm>,
    ft: &Features,
)
    requires
        old(o)@ == Map::<Seq<char>, JsonView>::empty(),
        s.wf(),
        s@ == shapes_of(*isa, *p),
        u.wf(),
        u@ == union_of(*isa, *p),
        *ft == features_of(*isa, *p, *f),
    ensures
        final(o)@ == packet_fields(*isa, *p, *f),
{
    proof {
        reveal(packet_fields);
    }
    let ops: SortedSet<String> = opcodes(u);
    proof {
        ops.items_are_the_listing();
    }
    let axes: Axes = precision_axes(isa, ft, s, u);
    o.put("schema", num_json(1));
    o.put("arch", str_json(f.arch.as_str()));
    o.put("n_cu", num_json(p.n_cu));
    o.put("input_contract", input_json());
    o.put("opcodes", strs_json(&ops.items));
    o.put("shapes", shapes_json(s));
    o.put("features", features_json(ft));
    o.put("precision", axes_json(&axes));
}

fn put_programs(
    o: &mut Fields,
    isa: &Isa,
    p: &Packet,
    f: &Facts,
    ds: &Vec<AttentionDecisionReport>,
    lean: &LeanReport,
    rows: &Vec<ProgramArms>,
    s: &Shapes,
    u: &SortedSet<Arm>,
    ft: &Features,
    t: &Tuning,
)
    requires
        programs_wf(rows@),
        views(rows@) == packet_rows(*isa, *p),
        s@ == shapes_of(*isa, *p),
        u@ == union_of(*isa, *p),
        *ft == features_of(*isa, *p, *f),
        *t == constants_of(*isa, *p, *f),
    ensures
        final(o)@ == program_fields(old(o)@, *isa, *p, *f, ds@, *lean),
{
    proof {
        reveal(program_fields);
    }
    o.put("attention_policy", policy_json(ds));
    o.put("lean", lean_block(lean));
    o.put("programs", programs_json(rows));
    o.put("dispatch_chains", dispatch_chains(rows, f.arch.as_str()));
    o.put("analysis", analysis(rows));
    o.put("backends", backends(isa, f.arch.as_str(), f.stage, ft, s, u, t));
}

/// The manifest of a packet, but for its hash.
pub fn build_inner(
    isa: &Isa,
    p: &Packet,
    f: &Facts,
    ds: &Vec<AttentionDecisionReport>,
    lean: &LeanReport,
) -> (r: Fields)
    requires
        manifest_ok(*isa, *p),
    ensures
        r@ == inner_fields(*isa, *p, *f, ds@, *lean),
{
    let rows: Vec<ProgramArms> = program_arms(isa, p);
    let u: SortedSet<Arm> = collect_arms(Rows::All, &rows);
    let s: Shapes = shapes(isa, p);
    let extra: u64 = match resident_extra(p, &s.sites) {
        Some(v) => v,
        None => 0,
    };
    let ft: Features = encoding_features(isa, features(&u), &s, f.gemv_prefetch);
    let t: Tuning = tuning(&s, f.tally);
    let mut o = Fields::new();
    put_packet(&mut o, isa, p, f, &s, &u, &ft);
    put_programs(&mut o, isa, p, f, ds, lean, &rows, &s, &u, &ft, &t);
    proof {
        reveal(compiled_fields);
    }
    o.put("union", strs_json(&keys(&u)));
    o.put("objects", objects_json(isa, p, &rows, &s, extra, f));
    o.put("tuning", tuning_json(&t));
    o
}

/// A number in sixteen hexadecimal digits.
pub open spec fn hex16(n: nat) -> Seq<char> {
    padded(hex(n), 16)
}

/// A text with zeros before it, up to a length.
pub open spec fn padded(t: Seq<char>, n: nat) -> Seq<char> {
    if t.len() >= n {
        t
    } else {
        Seq::new((n - t.len()) as nat, |i: int| '0') + t
    }
}

/// A number in sixteen hexadecimal digits.
pub fn hex16_text(n: u64) -> (r: String)
    ensures
        r@ == hex16(n as nat),
{
    let mut t: String = text("");
    push_hex(&mut t, n);
    proof {
        reveal_strlit("");
        reveal_strlit("0");
        assert(t@ =~= hex(n as nat));
    }
    let l: usize = t.as_str().unicode_len();
    let mut r: String = text("");
    let mut k: usize = l;
    while k < 16
        invariant
            l <= k,
            l < 16 ==> k <= 16,
            l >= 16 ==> k == l,
            r@ == Seq::new((k - l) as nat, |i: int| '0'),
            "0"@.len() == 1,
            "0"@[0] == '0',
        decreases 16 - k,
    {
        r.append("0");
        k = k + 1;
        proof {
            assert(r@ =~= Seq::new((k - l) as nat, |i: int| '0'));
        }
    }
    r.append(t.as_str());
    proof {
        assert(r@ =~= hex16(n as nat));
    }
    r
}

/// The pairing of a packet with the objects that are built for it.
pub open spec fn pairing_view(h: u64) -> JsonView {
    JsonView::Obj(
        map![
            "hash"@ => JsonView::Str("0x"@ + hex16(h as nat)),
            "algo"@ => JsonView::Str("fnv1a64 over `union`, `objects`, then `tuning`"@),
            "note"@ => JsonView::Str("A cubin built from this manifest stamps this value as plow_packet_hash_{lo,hi}; plowrt refuses a module whose stamp disagrees. A GENERAL object (every arm compiled) carries no stamp and pairs with any packet."@),
        ],
    )
}

fn pairing_json(h: u64) -> (r: Json)
    ensures
        r@ == pairing_view(h),
{
    let mut t: String = text("0x");
    t.append(hex16_text(h).as_str());
    let mut o = Fields::new();
    o.put("hash", str_json(t.as_str()));
    o.put("algo", str_json("fnv1a64 over `union`, `objects`, then `tuning`"));
    o.put("note", str_json("A cubin built from this manifest stamps this value as plow_packet_hash_{lo,hi}; plowrt refuses a module whose stamp disagrees. A GENERAL object (every arm compiled) carries no stamp and pairs with any packet."));
    o.done()
}

/// The manifest of a packet.
pub open spec fn manifest_view(
    isa: Isa,
    p: Packet,
    f: Facts,
    ds: Seq<AttentionDecisionReport>,
    lean: LeanReport,
) -> JsonView {
    let m = inner_fields(isa, p, f, ds, lean);
    JsonView::Obj(m.insert("pairing"@, pairing_view(hash_of(JsonView::Obj(m)))))
}

/// The manifest of a packet.
pub fn build(
    isa: &Isa,
    p: &Packet,
    f: &Facts,
    ds: &Vec<AttentionDecisionReport>,
    lean: &LeanReport,
) -> (r: Json)
    requires
        manifest_ok(*isa, *p),
    ensures
        r@ == manifest_view(*isa, *p, *f, ds@, *lean),
{
    let inner = build_inner(isa, p, f, ds, lean);
    let ghost m = inner@;
    let v: Json = inner.done();
    let h: u64 = pairing_hash(&v);
    let mut o = match v {
        Json::Obj(members) => Fields { members },
        _ => Fields::new(),
    };
    proof {
        assert(o@ == m);
    }
    o.put("pairing", pairing_json(h));
    o.done()
}

} // verus!
