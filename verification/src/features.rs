//! What a packet's arms and operands ask of the object that runs it, and its four precisions.
use vstd::prelude::*;

use crate::arms::{Arm, ArmView};
use crate::json::{bool_json, str_json, Fields, Json, JsonView};
use crate::opcodes::Isa;
use crate::order::{listing, views, SortedSet};
use crate::packet_shape::{any_marked, carries, Mark, Shapes, ShapesView};
use crate::text::{begins, ends, ends_with, same_text, starts_with};

verus! {

/// Whether a set holds an arm of an opcode.
pub open spec fn op_in(u: Set<ArmView>, name: Seq<char>) -> bool {
    exists|a: ArmView| #[trigger] u.contains(a) && a.op == name
}

/// Whether a set holds an arm whose opcode starts with `p`.
pub open spec fn prefix_in(u: Set<ArmView>, p: Seq<char>) -> bool {
    exists|a: ArmView| #[trigger] u.contains(a) && begins(a.op, p)
}

/// Whether a set holds an arm whose opcode ends with `p`.
pub open spec fn suffix_in(u: Set<ArmView>, p: Seq<char>) -> bool {
    exists|a: ArmView| #[trigger] u.contains(a) && ends(a.op, p)
}

/// Whether an opcode is one of the experts' half of a prefill.
pub open spec fn expert_prefill(op: Seq<char>) -> bool {
    begins(op, "Moe"@) && ends(op, "Pf"@)
}

/// Whether a set holds an arm of the experts' half of a prefill. Attention has prefill arms of
/// its own, which need none of it.
pub open spec fn expert_prefill_in(u: Set<ArmView>) -> bool {
    exists|a: ArmView| #[trigger] u.contains(a) && expert_prefill(a.op)
}

/// An arm is in a set where it is one of the items.
pub proof fn arm_in_items(u: &SortedSet<Arm>, a: ArmView)
    ensures
        u@.contains(a) <==> exists|i: int| 0 <= i < u.items@.len() && (#[trigger] u.items@[i])@ == a,
{
    let v = views(u.items@);
    if v.contains(a) {
        let i = choose|i: int| 0 <= i < v.len() && v[i] == a;
        assert(u.items@[i]@ == a);
    }
    if exists|i: int| 0 <= i < u.items@.len() && (#[trigger] u.items@[i])@ == a {
        let i = choose|i: int| 0 <= i < u.items@.len() && (#[trigger] u.items@[i])@ == a;
        assert(v[i] == a);
    }
}

pub fn has_op(u: &SortedSet<Arm>, name: &str) -> (r: bool)
    ensures
        r == op_in(u@, name@),
{
    let mut i: usize = 0;
    while i < u.items.len()
        invariant
            i <= u.items@.len(),
            forall|j: int| 0 <= j < i ==> (#[trigger] u.items@[j])@.op != name@,
        decreases u.items@.len() - i,
    {
        if same_text(u.items[i].op.as_str(), name) {
            proof {
                arm_in_items(u, u.items@[i as int]@);
            }
            return true;
        }
        i = i + 1;
    }
    proof {
        assert forall|a: ArmView| #[trigger] u@.contains(a) implies a.op != name@ by {
            arm_in_items(u, a);
        }
    }
    false
}

pub fn has_prefix(u: &SortedSet<Arm>, p: &str) -> (r: bool)
    ensures
        r == prefix_in(u@, p@),
{
    let mut i: usize = 0;
    while i < u.items.len()
        invariant
            i <= u.items@.len(),
            forall|j: int| 0 <= j < i ==> !begins((#[trigger] u.items@[j])@.op, p@),
        decreases u.items@.len() - i,
    {
        if starts_with(u.items[i].op.as_str(), p) {
            proof {
                arm_in_items(u, u.items@[i as int]@);
            }
            return true;
        }
        i = i + 1;
    }
    proof {
        assert forall|a: ArmView| #[trigger] u@.contains(a) implies !begins(a.op, p@) by {
            arm_in_items(u, a);
        }
    }
    false
}

pub fn has_suffix(u: &SortedSet<Arm>, p: &str) -> (r: bool)
    ensures
        r == suffix_in(u@, p@),
{
    let mut i: usize = 0;
    while i < u.items.len()
        invariant
            i <= u.items@.len(),
            forall|j: int| 0 <= j < i ==> !ends((#[trigger] u.items@[j])@.op, p@),
        decreases u.items@.len() - i,
    {
        if ends_with(u.items[i].op.as_str(), p) {
            proof {
                arm_in_items(u, u.items@[i as int]@);
            }
            return true;
        }
        i = i + 1;
    }
    proof {
        assert forall|a: ArmView| #[trigger] u@.contains(a) implies !ends(a.op, p@) by {
            arm_in_items(u, a);
        }
    }
    false
}

fn has_expert_prefill(u: &SortedSet<Arm>) -> (r: bool)
    ensures
        r == expert_prefill_in(u@),
{
    let mut i: usize = 0;
    while i < u.items.len()
        invariant
            i <= u.items@.len(),
            forall|j: int| 0 <= j < i ==> !expert_prefill((#[trigger] u.items@[j])@.op),
        decreases u.items@.len() - i,
    {
        let op: &str = u.items[i].op.as_str();
        if starts_with(op, "Moe") && ends_with(op, "Pf") {
            proof {
                arm_in_items(u, u.items@[i as int]@);
            }
            return true;
        }
        i = i + 1;
    }
    proof {
        assert forall|a: ArmView| #[trigger] u@.contains(a) implies !expert_prefill(a.op) by {
            arm_in_items(u, a);
        }
    }
    false
}

/// Whether an opcode reads fp8 weights, whatever its operands say.
pub open spec fn fp8_weight_op(name: Seq<char>) -> bool {
    ||| name == "GemvFp8"@
    ||| name == "GemvQkvFp8"@
    ||| name == "GemvGluFp8"@
    ||| name == "GemmFp8"@
    ||| name == "GemmMedFp8"@
    ||| name == "GemmSmallFp8"@
    ||| name == "GemmWideFp8"@
    ||| name == "GemmC5Fp8"@
    ||| name == "GemmGluFp8"@
    ||| name == "GemvFp8Blk"@
    ||| name == "DenseGluFp8Blk"@
    ||| name == "GemmFp8Blk"@
}

fn is_fp8_weight_op(name: &str) -> (r: bool)
    ensures
        r == fp8_weight_op(name@),
{
    same_text(name, "GemvFp8") || same_text(name, "GemvQkvFp8") || same_text(name, "GemvGluFp8")
        || same_text(name, "GemmFp8") || same_text(name, "GemmMedFp8")
        || same_text(name, "GemmSmallFp8") || same_text(name, "GemmWideFp8")
        || same_text(name, "GemmC5Fp8") || same_text(name, "GemmGluFp8")
        || same_text(name, "GemvFp8Blk") || same_text(name, "DenseGluFp8Blk")
        || same_text(name, "GemmFp8Blk")
}

/// Whether a set of arms reads fp8 weights, going by the opcodes' names.
pub open spec fn named_fp8(u: Set<ArmView>) -> bool {
    ||| exists|a: ArmView| #[trigger] u.contains(a) && fp8_weight_op(a.op)
    ||| suffix_in(u, "Fp8Blk"@)
}

fn is_named_fp8(u: &SortedSet<Arm>) -> (r: bool)
    ensures
        r == named_fp8(u@),
{
    let mut i: usize = 0;
    while i < u.items.len()
        invariant
            i <= u.items@.len(),
            forall|j: int| 0 <= j < i ==> !fp8_weight_op((#[trigger] u.items@[j])@.op),
        decreases u.items@.len() - i,
    {
        if is_fp8_weight_op(u.items[i].op.as_str()) {
            proof {
                arm_in_items(u, u.items@[i as int]@);
            }
            return true;
        }
        i = i + 1;
    }
    proof {
        assert forall|a: ArmView| #[trigger] u@.contains(a) implies !fp8_weight_op(a.op) by {
            arm_in_items(u, a);
        }
    }
    has_suffix(u, "Fp8Blk")
}

/// Whether an opcode of the packet reads fp8 weights, whatever its operands say.
pub open spec fn hard_fp8(s: ShapesView) -> bool {
    exists|n: Seq<char>| #[trigger] s.ops_present.contains(n) && fp8_weight_op(n)
}

fn is_hard_fp8(s: &Shapes) -> (r: bool)
    ensures
        r == hard_fp8(s@),
{
    let ghost v = views(s.ops_present.items@);
    let mut i: usize = 0;
    while i < s.ops_present.items.len()
        invariant
            v == views(s.ops_present.items@),
            i <= v.len(),
            forall|j: int| 0 <= j < i ==> !fp8_weight_op(#[trigger] v[j]),
        decreases v.len() - i,
    {
        if is_fp8_weight_op(s.ops_present.items[i].as_str()) {
            proof {
                assert(v.contains(v[i as int]));
                assert(s@.ops_present.contains(v[i as int]));
            }
            return true;
        }
        i = i + 1;
    }
    false
}

/// Capabilities that a packet asks for.
#[derive(Clone, Copy, PartialEq, Eq, Debug, Structural)]
pub struct Features {
    pub fp8_kv: bool,
    pub fp8_weights: bool,
    pub w8a8: bool,
    pub qwen_gdn: bool,
    pub moe: bool,
    pub mla: bool,
    pub mamba: bool,
    pub tensor_parallel: bool,
    pub prefill: bool,
    pub moe_prefill: bool,
    pub materialized_residual_input: bool,
    pub attnres_decode_mwg: bool,
    pub a4w4: bool,
    pub mxfp4_weights: bool,
    pub moe_enc_mixed: bool,
    pub moe_pf_part16: bool,
    pub moe_pf_atomic: bool,
    pub moe_pf_det: bool,
    pub moe_pf_a8: bool,
    pub xr_combine_fold: bool,
    pub kda_fb_fold: bool,
    pub kda_decode_fused_arm: bool,
    pub gemv_prefetch: bool,
    pub moe_prefill_ep: bool,
    pub quant_glu_fold: bool,
    pub mla_pf_ns: bool,
    pub glm_ofold: bool,
    pub glm_fuse_rope: bool,
    pub glm_fuse_qnorm: bool,
    pub linear_bias: bool,
    pub rope_half_hd64: bool,
    pub attention_sinks: bool,
}

/// Keys and values in fp8: written, or only read.
pub open spec fn fp8_kv(u: Set<ArmView>) -> bool {
    ||| op_in(u, "FlashDecodeFp8"@)
    ||| op_in(u, "HeadNormRopeFp8"@)
    ||| op_in(u, "FlashMlaDecodeFp8"@)
    ||| op_in(u, "FlashMlaPrefillFp8"@)
}

/// Latent attention.
pub open spec fn latent(u: Set<ArmView>) -> bool {
    ||| op_in(u, "FlashMlaDecode"@)
    ||| op_in(u, "FlashMlaPrefill"@)
    ||| op_in(u, "FlashMlaDecodeFp8"@)
    ||| op_in(u, "FlashMlaPrefillFp8"@)
    ||| op_in(u, "MlaMergeFold"@)
}

/// Prefill attention, over separate keys and values or latent.
pub open spec fn prefills(u: Set<ArmView>) -> bool {
    ||| op_in(u, "FlashPrefill"@)
    ||| op_in(u, "FlashPrefillFp8"@)
    ||| op_in(u, "FlashMlaPrefill"@)
    ||| op_in(u, "FlashMlaPrefillFp8"@)
    ||| op_in(u, "FlashGatherPrefill"@)
}

/// The capabilities that the arms alone show.
pub open spec fn arm_features(u: Set<ArmView>) -> Features {
    Features {
        fp8_kv: fp8_kv(u),
        fp8_weights: named_fp8(u),
        w8a8: op_in(u, "QuantFp8"@),
        qwen_gdn: prefix_in(u, "Qwen"@),
        moe: prefix_in(u, "Moe"@),
        mla: latent(u),
        mamba: op_in(u, "Mamba2Scan"@),
        tensor_parallel: prefix_in(u, "X"@),
        prefill: prefills(u),
        moe_prefill: expert_prefill_in(u),
        materialized_residual_input: false,
        attnres_decode_mwg: false,
        a4w4: false,
        mxfp4_weights: false,
        moe_enc_mixed: false,
        moe_pf_part16: false,
        moe_pf_atomic: false,
        moe_pf_det: false,
        moe_pf_a8: false,
        xr_combine_fold: false,
        kda_fb_fold: false,
        kda_decode_fused_arm: false,
        gemv_prefetch: false,
        moe_prefill_ep: false,
        quant_glu_fold: false,
        mla_pf_ns: false,
        glm_ofold: false,
        glm_fuse_rope: false,
        glm_fuse_qnorm: false,
        linear_bias: false,
        rope_half_hd64: false,
        attention_sinks: false,
    }
}

/// The capabilities that the arms alone show.
pub fn features(u: &SortedSet<Arm>) -> (r: Features)
    ensures
        r == arm_features(u@),
{
    Features {
        fp8_kv: has_op(u, "FlashDecodeFp8") || has_op(u, "HeadNormRopeFp8")
            || has_op(u, "FlashMlaDecodeFp8") || has_op(u, "FlashMlaPrefillFp8"),
        fp8_weights: is_named_fp8(u),
        w8a8: has_op(u, "QuantFp8"),
        qwen_gdn: has_prefix(u, "Qwen"),
        moe: has_prefix(u, "Moe"),
        mla: has_op(u, "FlashMlaDecode") || has_op(u, "FlashMlaPrefill")
            || has_op(u, "FlashMlaDecodeFp8") || has_op(u, "FlashMlaPrefillFp8")
            || has_op(u, "MlaMergeFold"),
        mamba: has_op(u, "Mamba2Scan"),
        tensor_parallel: has_prefix(u, "X"),
        prefill: has_op(u, "FlashPrefill") || has_op(u, "FlashPrefillFp8")
            || has_op(u, "FlashMlaPrefill") || has_op(u, "FlashMlaPrefillFp8")
            || has_op(u, "FlashGatherPrefill"),
        moe_prefill: has_expert_prefill(u),
        materialized_residual_input: false,
        attnres_decode_mwg: false,
        a4w4: false,
        mxfp4_weights: false,
        moe_enc_mixed: false,
        moe_pf_part16: false,
        moe_pf_atomic: false,
        moe_pf_det: false,
        moe_pf_a8: false,
        xr_combine_fold: false,
        kda_fb_fold: false,
        kda_decode_fused_arm: false,
        gemv_prefetch: false,
        moe_prefill_ep: false,
        quant_glu_fold: false,
        mla_pf_ns: false,
        glm_ofold: false,
        glm_fuse_rope: false,
        glm_fuse_qnorm: false,
        linear_bias: false,
        rope_half_hd64: false,
        attention_sinks: false,
    }
}

/// Whether the weights are fp8. The names of the experts' opcodes say nothing of it: what their
/// operands say does, and an opcode that has no such operand counts by its name.
pub open spec fn fp8_by_encoding(named: bool, s: ShapesView) -> bool {
    if named && !s.moe_enc.contains(1) { hard_fp8(s) } else { named }
}

/// The capabilities that the operands show, added to those of the arms.
pub open spec fn encoded_features(isa: Isa, f: Features, s: ShapesView, gemv_prefetch: bool) -> Features {
    Features {
        a4w4: s.moe_enc.contains(2),
        fp8_weights: fp8_by_encoding(f.fp8_weights, s),
        moe_enc_mixed: listing::<u32>(s.moe_enc).len() > 1,
        gemv_prefetch,
        moe_prefill_ep: s.moe_prefill_ep != Set::<crate::packet_shape::Boundary>::empty(),
        materialized_residual_input: any_marked(isa, Mark::MaterializedResidual, s.sites),
        attnres_decode_mwg: any_marked(isa, Mark::AttnresDecodeMwg, s.sites),
        mxfp4_weights: any_marked(isa, Mark::Mxfp4Proj, s.sites),
        moe_pf_part16: any_marked(isa, Mark::MoePfPart16, s.sites),
        moe_pf_atomic: any_marked(isa, Mark::MoePfAtomic, s.sites),
        moe_pf_det: any_marked(isa, Mark::MoePfDet, s.sites),
        moe_pf_a8: any_marked(isa, Mark::MoePfA8, s.sites),
        xr_combine_fold: any_marked(isa, Mark::XrCombineFold, s.sites),
        kda_fb_fold: any_marked(isa, Mark::KdaFbFold, s.sites),
        kda_decode_fused_arm: any_marked(isa, Mark::KdaDecodeFusedArm, s.sites),
        quant_glu_fold: any_marked(isa, Mark::QuantGluFold, s.sites),
        mla_pf_ns: any_marked(isa, Mark::MlaPfNs, s.sites),
        glm_ofold: any_marked(isa, Mark::GlmOfold, s.sites),
        glm_fuse_rope: any_marked(isa, Mark::GlmFuseRope, s.sites),
        glm_fuse_qnorm: any_marked(isa, Mark::GlmFuseQnorm, s.sites),
        linear_bias: any_marked(isa, Mark::LinearBias, s.sites),
        rope_half_hd64: any_marked(isa, Mark::RopeHalfHd64, s.sites),
        attention_sinks: any_marked(isa, Mark::AttentionSinks, s.sites),
        ..f
    }
}

/// Adds the capabilities that the operands show.
pub fn encoding_features(isa: &Isa, f: Features, s: &Shapes, gemv_prefetch: bool) -> (r: Features)
    requires
        s.wf(),
    ensures
        r == encoded_features(*isa, f, s@, gemv_prefetch),
{
    let fp8: bool = if f.fp8_weights && !s.moe_enc.contains(&1u32) {
        is_hard_fp8(s)
    } else {
        f.fp8_weights
    };
    proof {
        s.moe_enc.items_are_the_listing();
        assert(views(s.moe_enc.items@).len() == s.moe_enc.items@.len());
        if s.moe_prefill_ep.items@.len() > 0 {
            let v = views(s.moe_prefill_ep.items@);
            assert(v.contains(v[0]));
            assert(s@.moe_prefill_ep.contains(v[0]));
        } else {
            assert(s@.moe_prefill_ep =~= Set::<crate::packet_shape::Boundary>::empty());
        }
    }
    Features {
        a4w4: s.moe_enc.contains(&2u32),
        fp8_weights: fp8,
        moe_enc_mixed: s.moe_enc.items.len() > 1,
        gemv_prefetch,
        moe_prefill_ep: s.moe_prefill_ep.items.len() > 0,
        materialized_residual_input: carries(isa, Mark::MaterializedResidual, &s.sites),
        attnres_decode_mwg: carries(isa, Mark::AttnresDecodeMwg, &s.sites),
        mxfp4_weights: carries(isa, Mark::Mxfp4Proj, &s.sites),
        moe_pf_part16: carries(isa, Mark::MoePfPart16, &s.sites),
        moe_pf_atomic: carries(isa, Mark::MoePfAtomic, &s.sites),
        moe_pf_det: carries(isa, Mark::MoePfDet, &s.sites),
        moe_pf_a8: carries(isa, Mark::MoePfA8, &s.sites),
        xr_combine_fold: carries(isa, Mark::XrCombineFold, &s.sites),
        kda_fb_fold: carries(isa, Mark::KdaFbFold, &s.sites),
        kda_decode_fused_arm: carries(isa, Mark::KdaDecodeFusedArm, &s.sites),
        quant_glu_fold: carries(isa, Mark::QuantGluFold, &s.sites),
        mla_pf_ns: carries(isa, Mark::MlaPfNs, &s.sites),
        glm_ofold: carries(isa, Mark::GlmOfold, &s.sites),
        glm_fuse_rope: carries(isa, Mark::GlmFuseRope, &s.sites),
        glm_fuse_qnorm: carries(isa, Mark::GlmFuseQnorm, &s.sites),
        linear_bias: carries(isa, Mark::LinearBias, &s.sites),
        rope_half_hd64: carries(isa, Mark::RopeHalfHd64, &s.sites),
        attention_sinks: carries(isa, Mark::AttentionSinks, &s.sites),
        ..f
    }
}

/// What the arms show.
#[verifier::opaque]
pub open spec fn arm_fields(m: Map<Seq<char>, JsonView>, f: Features) -> Map<Seq<char>, JsonView> {
    m
        .insert("fp8_kv"@, JsonView::Bool(f.fp8_kv))
        .insert("fp8_weights"@, JsonView::Bool(f.fp8_weights))
        .insert("w8a8"@, JsonView::Bool(f.w8a8))
        .insert("qwen_gdn"@, JsonView::Bool(f.qwen_gdn))
        .insert("moe"@, JsonView::Bool(f.moe))
        .insert("mla"@, JsonView::Bool(f.mla))
        .insert("mamba"@, JsonView::Bool(f.mamba))
        .insert("tensor_parallel"@, JsonView::Bool(f.tensor_parallel))
}

fn put_arm_fields(o: &mut Fields, f: &Features)
    ensures
        final(o)@ == arm_fields(old(o)@, *f),
{
    proof {
        reveal(arm_fields);
    }
    o.put("fp8_kv", bool_json(f.fp8_kv));
    o.put("fp8_weights", bool_json(f.fp8_weights));
    o.put("w8a8", bool_json(f.w8a8));
    o.put("qwen_gdn", bool_json(f.qwen_gdn));
    o.put("moe", bool_json(f.moe));
    o.put("mla", bool_json(f.mla));
    o.put("mamba", bool_json(f.mamba));
    o.put("tensor_parallel", bool_json(f.tensor_parallel));
}

/// What the encodings show.
#[verifier::opaque]
pub open spec fn encoding_fields(m: Map<Seq<char>, JsonView>, f: Features) -> Map<Seq<char>, JsonView> {
    m
        .insert("prefill"@, JsonView::Bool(f.prefill))
        .insert("moe_prefill"@, JsonView::Bool(f.moe_prefill))
        .insert("materialized_residual_input"@, JsonView::Bool(f.materialized_residual_input))
        .insert("attnres_decode_mwg"@, JsonView::Bool(f.attnres_decode_mwg))
        .insert("a4w4"@, JsonView::Bool(f.a4w4))
        .insert("mxfp4_weights"@, JsonView::Bool(f.mxfp4_weights))
        .insert("moe_enc_mixed"@, JsonView::Bool(f.moe_enc_mixed))
        .insert("moe_pf_part16"@, JsonView::Bool(f.moe_pf_part16))
}

fn put_encoding_fields(o: &mut Fields, f: &Features)
    ensures
        final(o)@ == encoding_fields(old(o)@, *f),
{
    proof {
        reveal(encoding_fields);
    }
    o.put("prefill", bool_json(f.prefill));
    o.put("moe_prefill", bool_json(f.moe_prefill));
    o.put("materialized_residual_input", bool_json(f.materialized_residual_input));
    o.put("attnres_decode_mwg", bool_json(f.attnres_decode_mwg));
    o.put("a4w4", bool_json(f.a4w4));
    o.put("mxfp4_weights", bool_json(f.mxfp4_weights));
    o.put("moe_enc_mixed", bool_json(f.moe_enc_mixed));
    o.put("moe_pf_part16", bool_json(f.moe_pf_part16));
}

/// What the operands of a prefill or a recurrence show.
#[verifier::opaque]
pub open spec fn prefill_fields(m: Map<Seq<char>, JsonView>, f: Features) -> Map<Seq<char>, JsonView> {
    m
        .insert("moe_pf_atomic"@, JsonView::Bool(f.moe_pf_atomic))
        .insert("moe_pf_det"@, JsonView::Bool(f.moe_pf_det))
        .insert("moe_pf_a8"@, JsonView::Bool(f.moe_pf_a8))
        .insert("xr_combine_fold"@, JsonView::Bool(f.xr_combine_fold))
        .insert("kda_fb_fold"@, JsonView::Bool(f.kda_fb_fold))
        .insert("kda_decode_fused_arm"@, JsonView::Bool(f.kda_decode_fused_arm))
        .insert("gemv_prefetch"@, JsonView::Bool(f.gemv_prefetch))
        .insert("moe_prefill_ep"@, JsonView::Bool(f.moe_prefill_ep))
}

fn put_prefill_fields(o: &mut Fields, f: &Features)
    ensures
        final(o)@ == prefill_fields(old(o)@, *f),
{
    proof {
        reveal(prefill_fields);
    }
    o.put("moe_pf_atomic", bool_json(f.moe_pf_atomic));
    o.put("moe_pf_det", bool_json(f.moe_pf_det));
    o.put("moe_pf_a8", bool_json(f.moe_pf_a8));
    o.put("xr_combine_fold", bool_json(f.xr_combine_fold));
    o.put("kda_fb_fold", bool_json(f.kda_fb_fold));
    o.put("kda_decode_fused_arm", bool_json(f.kda_decode_fused_arm));
    o.put("gemv_prefetch", bool_json(f.gemv_prefetch));
    o.put("moe_prefill_ep", bool_json(f.moe_prefill_ep));
}

/// What the other operands show.
#[verifier::opaque]
pub open spec fn operand_fields(m: Map<Seq<char>, JsonView>, f: Features) -> Map<Seq<char>, JsonView> {
    m
        .insert("quant_glu_fold"@, JsonView::Bool(f.quant_glu_fold))
        .insert("mla_pf_ns"@, JsonView::Bool(f.mla_pf_ns))
        .insert("glm_ofold"@, JsonView::Bool(f.glm_ofold))
        .insert("glm_fuse_rope"@, JsonView::Bool(f.glm_fuse_rope))
        .insert("glm_fuse_qnorm"@, JsonView::Bool(f.glm_fuse_qnorm))
        .insert("linear_bias"@, JsonView::Bool(f.linear_bias))
        .insert("rope_half_hd64"@, JsonView::Bool(f.rope_half_hd64))
        .insert("attention_sinks"@, JsonView::Bool(f.attention_sinks))
}

fn put_operand_fields(o: &mut Fields, f: &Features)
    ensures
        final(o)@ == operand_fields(old(o)@, *f),
{
    proof {
        reveal(operand_fields);
    }
    o.put("quant_glu_fold", bool_json(f.quant_glu_fold));
    o.put("mla_pf_ns", bool_json(f.mla_pf_ns));
    o.put("glm_ofold", bool_json(f.glm_ofold));
    o.put("glm_fuse_rope", bool_json(f.glm_fuse_rope));
    o.put("glm_fuse_qnorm", bool_json(f.glm_fuse_qnorm));
    o.put("linear_bias", bool_json(f.linear_bias));
    o.put("rope_half_hd64", bool_json(f.rope_half_hd64));
    o.put("attention_sinks", bool_json(f.attention_sinks));
}

/// The capabilities as a document.
pub open spec fn features_view(f: Features) -> JsonView {
    JsonView::Obj(
        operand_fields(
            prefill_fields(encoding_fields(arm_fields(Map::empty(), f), f), f),
            f,
        ),
    )
}

/// The capabilities as a document.
pub fn features_json(f: &Features) -> (r: Json)
    ensures
        r@ == features_view(*f),
{
    let mut o = Fields::new();
    put_arm_fields(&mut o, f);
    put_encoding_fields(&mut o, f);
    put_prefill_fields(&mut o, f);
    put_operand_fields(&mut o, f);
    o.done()
}

/// What a precision is called.
#[derive(Clone, Copy, PartialEq, Eq, Debug, Structural)]
pub enum Precision {
    Bf16,
    Fp8,
    Mxfp4,
    Fp8Blk,
    Mixed,
    Absent,
}

/// What a precision is called.
pub open spec fn precision_text(p: Precision) -> Seq<char> {
    match p {
        Precision::Bf16 => "bf16"@,
        Precision::Fp8 => "fp8"@,
        Precision::Mxfp4 => "mxfp4"@,
        Precision::Fp8Blk => "fp8blk"@,
        Precision::Mixed => "mixed"@,
        Precision::Absent => "none"@,
    }
}

fn precision_str(p: Precision) -> (r: &'static str)
    ensures
        r@ == precision_text(p),
{
    match p {
        Precision::Bf16 => "bf16",
        Precision::Fp8 => "fp8",
        Precision::Mxfp4 => "mxfp4",
        Precision::Fp8Blk => "fp8blk",
        Precision::Mixed => "mixed",
        Precision::Absent => "none",
    }
}

/// The four precisions of a packet. None of them is worked out from another.
#[derive(Clone, Copy, PartialEq, Eq, Debug, Structural)]
pub struct Axes {
    pub weight_enc: Precision,
    pub act_enc: Precision,
    pub kv_enc: Precision,
    pub expert_enc: Precision,
}

/// The precision of the experts: what their operands say, where they say one thing.
pub open spec fn expert_precision(encs: Seq<u32>) -> Precision {
    if encs.len() == 0 {
        Precision::Absent
    } else if encs.len() > 1 {
        Precision::Mixed
    } else if encs[0] == 0 {
        Precision::Bf16
    } else if encs[0] == 1 {
        Precision::Fp8Blk
    } else if encs[0] == 2 {
        Precision::Mxfp4
    } else {
        Precision::Mixed
    }
}

/// The four precisions of a packet.
pub open spec fn axes_of(isa: Isa, f: Features, s: ShapesView, u: Set<ArmView>) -> Axes {
    Axes {
        weight_enc: if any_marked(isa, Mark::Mxfp4Proj, s.sites) {
            Precision::Mxfp4
        } else if f.fp8_weights {
            Precision::Fp8
        } else {
            Precision::Bf16
        },
        act_enc: if op_in(u, "QuantFp8"@) { Precision::Fp8 } else { Precision::Bf16 },
        kv_enc: if f.fp8_kv { Precision::Fp8 } else { Precision::Bf16 },
        expert_enc: expert_precision(listing::<u32>(s.moe_enc)),
    }
}

/// The four precisions of a packet.
pub fn precision_axes(isa: &Isa, f: &Features, s: &Shapes, u: &SortedSet<Arm>) -> (r: Axes)
    requires
        s.wf(),
    ensures
        r == axes_of(*isa, *f, s@, u@),
{
    proof {
        s.moe_enc.items_are_the_listing();
        assert(views(s.moe_enc.items@) =~= s.moe_enc.items@);
    }
    let encs: &Vec<u32> = &s.moe_enc.items;
    let expert: Precision = if encs.len() == 0 {
        Precision::Absent
    } else if encs.len() > 1 {
        Precision::Mixed
    } else if encs[0] == 0 {
        Precision::Bf16
    } else if encs[0] == 1 {
        Precision::Fp8Blk
    } else if encs[0] == 2 {
        Precision::Mxfp4
    } else {
        Precision::Mixed
    };
    Axes {
        weight_enc: if carries(isa, Mark::Mxfp4Proj, &s.sites) {
            Precision::Mxfp4
        } else if f.fp8_weights {
            Precision::Fp8
        } else {
            Precision::Bf16
        },
        act_enc: if has_op(u, "QuantFp8") { Precision::Fp8 } else { Precision::Bf16 },
        kv_enc: if f.fp8_kv { Precision::Fp8 } else { Precision::Bf16 },
        expert_enc: expert,
    }
}

/// The four precisions as a document.
pub open spec fn axes_view(a: Axes) -> JsonView {
    JsonView::Obj(
        map![
            "weight_enc"@ => JsonView::Str(precision_text(a.weight_enc)),
            "act_enc"@ => JsonView::Str(precision_text(a.act_enc)),
            "kv_enc"@ => JsonView::Str(precision_text(a.kv_enc)),
            "expert_enc"@ => JsonView::Str(precision_text(a.expert_enc)),
        ],
    )
}

/// The four precisions as a document.
pub fn axes_json(a: &Axes) -> (r: Json)
    ensures
        r@ == axes_view(*a),
{
    let mut o = Fields::new();
    o.put("weight_enc", str_json(precision_str(a.weight_enc)));
    o.put("act_enc", str_json(precision_str(a.act_enc)));
    o.put("kv_enc", str_json(precision_str(a.kv_enc)));
    o.put("expert_enc", str_json(precision_str(a.expert_enc)));
    o.done()
}

/// The precision of activations goes by the instruction that quantises them, whatever the weights
/// are: two packets that differ in their weights alone have the same one.
pub proof fn activations_do_not_follow_weights(
    isa: Isa,
    f: Features,
    g: Features,
    s: ShapesView,
    t: ShapesView,
    u: Set<ArmView>,
)
    ensures
        axes_of(isa, f, s, u).act_enc == axes_of(isa, g, t, u).act_enc,
        axes_of(isa, f, s, u).act_enc == Precision::Fp8 <==> arm_features(u).w8a8,
{
}

} // verus!
