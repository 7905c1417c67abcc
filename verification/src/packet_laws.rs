//! What a packet's capabilities and shapes say of its instructions.
use vstd::prelude::*;

use crate::arms::{ArmView, DevInst, Packet};
use crate::features::{fp8_weight_op, hard_fp8};
use crate::isa::{DevOp, TENSOR_NONE};
use crate::manifest::{features_of, union_of, Facts};
use crate::opcodes::{name_of, Isa};
use crate::packet_shape::{
    any_marked, boundaries_upto, boundary_of, field_of, marked, names_upto, numbers_upto,
    program_sites, shapes_of, sites_of, sites_upto, Boundary, Field, Mark, Site,
};
use crate::text::{begins, ends};

verus! {

/// Whether a packet carries an instruction of which something holds; of each it is known whether it
/// stands in a decode program.
pub open spec fn carried(p: Packet, f: spec_fn(bool, DevInst) -> bool) -> bool {
    exists|g: int, i: int|
        0 <= g < p.progs@.len() && 0 <= i < p.progs@[g].insts@.len() && f(
            g >= p.decode_lo,
            #[trigger] p.progs@[g].insts@[i],
        )
}

/// Whether a packet has an arm of an opcode.
pub open spec fn has_arm(u: Set<ArmView>, op: Seq<char>) -> bool {
    exists|a: ArmView| #[trigger] u.contains(a) && a.op == op
}

/// Whether a packet has an arm whose opcode starts with a text.
pub open spec fn has_arm_from(u: Set<ArmView>, p: Seq<char>) -> bool {
    exists|a: ArmView| #[trigger] u.contains(a) && begins(a.op, p)
}

/// Whether a packet has an arm whose opcode ends with a text.
pub open spec fn has_arm_to(u: Set<ArmView>, p: Seq<char>) -> bool {
    exists|a: ArmView| #[trigger] u.contains(a) && ends(a.op, p)
}

proof fn upto_has(p: Packet, n: int, g: int, i: int)
    requires
        0 <= g < n <= p.progs@.len(),
        0 <= i < p.progs@[g].insts@.len(),
    ensures
        exists|k: int|
            0 <= k < sites_upto(p, n).len() && #[trigger] sites_upto(p, n)[k] == (Site {
                decode: g >= p.decode_lo,
                inst: p.progs@[g].insts@[i],
            }),
    decreases n,
{
    let before = sites_upto(p, n - 1);
    let all = sites_upto(p, n);
    if g == n - 1 {
        assert(all[before.len() + i] == program_sites(p, g)[i]);
    } else {
        upto_has(p, n - 1, g, i);
        let k = choose|k: int|
            0 <= k < before.len() && #[trigger] before[k] == (Site {
                decode: g >= p.decode_lo,
                inst: p.progs@[g].insts@[i],
            });
        assert(all[k] == before[k]);
    }
}

proof fn upto_has_only(p: Packet, n: int, k: int)
    requires
        0 <= n <= p.progs@.len(),
        0 <= k < sites_upto(p, n).len(),
    ensures
        exists|g: int, i: int|
            0 <= g < n && 0 <= i < p.progs@[g].insts@.len() && sites_upto(p, n)[k] == (Site {
                decode: g >= p.decode_lo,
                inst: #[trigger] p.progs@[g].insts@[i],
            }),
    decreases n,
{
    if n > 0 {
        let before = sites_upto(p, n - 1);
        if k < before.len() {
            upto_has_only(p, n - 1, k);
            let (g, i) = choose|g: int, i: int|
                0 <= g < n - 1 && 0 <= i < p.progs@[g].insts@.len() && before[k] == (Site {
                    decode: g >= p.decode_lo,
                    inst: #[trigger] p.progs@[g].insts@[i],
                });
            assert(sites_upto(p, n)[k] == (Site {
                decode: g >= p.decode_lo,
                inst: p.progs@[g].insts@[i],
            }));
        } else {
            let i = k - before.len();
            assert(sites_upto(p, n)[k] == program_sites(p, n - 1)[i]);
            assert(program_sites(p, n - 1)[i] == (Site {
                decode: n - 1 >= p.decode_lo,
                inst: p.progs@[n - 1].insts@[i],
            }));
        }
    }
}

/// The sites of a packet are its instructions, every one of them and nothing else.
pub proof fn sites_are_the_instructions(p: Packet, f: spec_fn(bool, DevInst) -> bool)
    ensures
        (exists|k: int|
            0 <= k < sites_of(p).len() && f(
                (#[trigger] sites_of(p)[k]).decode,
                sites_of(p)[k].inst,
            )) <==> carried(p, f),
{
    let s = sites_of(p);
    let n = p.progs@.len() as int;
    if exists|k: int| 0 <= k < s.len() && f((#[trigger] s[k]).decode, s[k].inst) {
        let k = choose|k: int| 0 <= k < s.len() && f((#[trigger] s[k]).decode, s[k].inst);
        upto_has_only(p, n, k);
        let (g, i) = choose|g: int, i: int|
            0 <= g < n && 0 <= i < p.progs@[g].insts@.len() && s[k] == (Site {
                decode: g >= p.decode_lo,
                inst: #[trigger] p.progs@[g].insts@[i],
            });
        assert(f(g >= p.decode_lo, p.progs@[g].insts@[i]));
    }
    if carried(p, f) {
        let (g, i) = choose|g: int, i: int|
            0 <= g < p.progs@.len() && 0 <= i < p.progs@[g].insts@.len() && f(
                g >= p.decode_lo,
                #[trigger] p.progs@[g].insts@[i],
            );
        upto_has(p, n, g, i);
        let k = choose|k: int|
            0 <= k < s.len() && #[trigger] s[k] == (Site {
                decode: g >= p.decode_lo,
                inst: p.progs@[g].insts@[i],
            });
        assert(f(s[k].decode, s[k].inst));
    }
}

proof fn mark_is_carried(isa: Isa, p: Packet, m: Mark, f: spec_fn(bool, DevInst) -> bool)
    requires
        forall|s: Site| #[trigger] marked(isa, m, s) == f(s.decode, s.inst),
    ensures
        any_marked(isa, m, sites_of(p)) == carried(p, f),
{
    sites_are_the_instructions(p, f);
    let s = sites_of(p);
    if any_marked(isa, m, s) {
        let k = choose|k: int| 0 <= k < s.len() && marked(isa, m, #[trigger] s[k]);
        assert(f(s[k].decode, s[k].inst));
    }
    if carried(p, f) {
        let k = choose|k: int| 0 <= k < s.len() && f((#[trigger] s[k]).decode, s[k].inst);
        assert(marked(isa, m, s[k]));
    }
}

proof fn numbers_are_carried(f: Field, s: Seq<Site>, n: int, v: u32)
    requires
        0 <= n <= s.len(),
    ensures
        numbers_upto(f, s, n).contains(v) <==> exists|k: int|
            0 <= k < n && field_of(f, (#[trigger] s[k]).inst) == Some(v),
    decreases n,
{
    if n > 0 {
        numbers_are_carried(f, s, n - 1, v);
        if exists|k: int| 0 <= k < n && field_of(f, (#[trigger] s[k]).inst) == Some(v) {
            let k = choose|k: int| 0 <= k < n && field_of(f, (#[trigger] s[k]).inst) == Some(v);
            if k < n - 1 {
                assert(field_of(f, s[k].inst) == Some(v));
            }
        }
        if field_of(f, s[n - 1].inst) == Some(v) {
            assert(0 <= n - 1 < n && field_of(f, s[n - 1].inst) == Some(v));
        }
    }
}

proof fn field_is_carried(
    p: Packet,
    x: Field,
    v: u32,
    f: spec_fn(bool, DevInst) -> bool,
)
    requires
        forall|z: bool, d: DevInst| #[trigger] f(z, d) == (field_of(x, d) == Some(v)),
    ensures
        numbers_upto(x, sites_of(p), sites_of(p).len() as int).contains(v) == carried(p, f),
{
    let s = sites_of(p);
    sites_are_the_instructions(p, f);
    numbers_are_carried(x, s, s.len() as int, v);
    if exists|k: int| 0 <= k < s.len() && field_of(x, (#[trigger] s[k]).inst) == Some(v) {
        let k = choose|k: int| 0 <= k < s.len() && field_of(x, (#[trigger] s[k]).inst) == Some(v);
        assert(f(s[k].decode, s[k].inst));
    }
    if carried(p, f) {
        let k = choose|k: int| 0 <= k < s.len() && f((#[trigger] s[k]).decode, s[k].inst);
        assert(field_of(x, s[k].inst) == Some(v));
    }
}

/// Whether an instruction is attention over separate keys and values: of a decode step.
pub open spec fn attends_decode(d: DevInst) -> bool {
    d.op == DevOp::FlashDecode || d.op == DevOp::FlashDecodeFp8
}

/// Whether an instruction is attention over separate keys and values: of a prefill.
pub open spec fn attends_prefill(d: DevInst) -> bool {
    d.op == DevOp::FlashPrefill || d.op == DevOp::FlashPrefillFp8
}

/// Whether an instruction runs experts whose weights are encoded as `v`: a prefill says it in its
/// fourth number, a decode step in its seventh.
pub open spec fn encodes_experts(d: DevInst, v: u32) -> bool {
    ||| (d.op == DevOp::MoeGroupGluPf || d.op == DevOp::MoeGroupDownPf) && d.args.i3 == v
    ||| (d.op == DevOp::MoeExpertGluFp8Blk || d.op == DevOp::MoeExpertDownFp8Blk || d.op
        == DevOp::MoeGroupGluFp8Blk || d.op == DevOp::MoeGroupDownFp8Blk) && d.args.i6 == v
}

/// The sizes of a packet are numbers of its instructions: a head size is one that some attention
/// has in its seventh number, a count of key and value heads is what a decode attention has in its
/// third or a prefill attention in its fourth, and an encoding of experts is what experts have.
pub proof fn sizes_are_carried(isa: Isa, p: Packet, v: u32)
    ensures
        shapes_of(isa, p).hd.contains(v) <==> carried(
            p,
            |z: bool, d: DevInst| (attends_decode(d) || attends_prefill(d)) && d.args.i6 == v,
        ),
        shapes_of(isa, p).kv_heads.contains(v) <==> carried(
            p,
            |z: bool, d: DevInst|
                (attends_decode(d) && d.args.i2 == v) || (attends_prefill(d) && d.args.i3 == v),
        ),
        shapes_of(isa, p).moe_enc.contains(v) <==> carried(
            p,
            |z: bool, d: DevInst| encodes_experts(d, v),
        ),
{
    field_is_carried(
        p,
        Field::HeadDim,
        v,
        |z: bool, d: DevInst| (attends_decode(d) || attends_prefill(d)) && d.args.i6 == v,
    );
    field_is_carried(
        p,
        Field::KvHeads,
        v,
        |z: bool, d: DevInst|
            (attends_decode(d) && d.args.i2 == v) || (attends_prefill(d) && d.args.i3 == v),
    );
    field_is_carried(p, Field::ExpertEncoding, v, |z: bool, d: DevInst| encodes_experts(d, v));
}

proof fn boundaries_are_carried(s: Seq<Site>, n: int, b: Boundary)
    requires
        0 <= n <= s.len(),
    ensures
        boundaries_upto(s, n).contains(b) <==> exists|k: int|
            0 <= k < n && boundary_of((#[trigger] s[k]).inst) == Some(b),
    decreases n,
{
    if n > 0 {
        boundaries_are_carried(s, n - 1, b);
        if exists|k: int| 0 <= k < n && boundary_of((#[trigger] s[k]).inst) == Some(b) {
            let k = choose|k: int| 0 <= k < n && boundary_of((#[trigger] s[k]).inst) == Some(b);
            if k < n - 1 {
                assert(boundary_of(s[k].inst) == Some(b));
            }
        }
        if boundary_of(s[n - 1].inst) == Some(b) {
            assert(0 <= n - 1 < n && boundary_of(s[n - 1].inst) == Some(b));
        }
    }
}

/// Whether an instruction spreads grouped experts over several ranks, and how: the ranks are its
/// seventh number, the experts its third, and the width is the first of the gated product's and the
/// second of the product behind it.
pub open spec fn spreads(d: DevInst, b: Boundary) -> bool {
    &&& d.args.i6 == b.degree && b.degree > 1 && d.args.i2 == b.experts
    &&& (d.op == DevOp::MoeGroupGluPf && d.args.i0 == b.width) || (d.op == DevOp::MoeGroupDownPf
        && d.args.i1 == b.width)
}

/// A boundary of expert parallelism is one that an instruction declares.
pub proof fn boundaries_are_declared(isa: Isa, p: Packet, b: Boundary)
    ensures
        shapes_of(isa, p).moe_prefill_ep.contains(b) <==> carried(
            p,
            |z: bool, d: DevInst| spreads(d, b),
        ),
{
    let s = sites_of(p);
    let f = |z: bool, d: DevInst| spreads(d, b);
    sites_are_the_instructions(p, f);
    boundaries_are_carried(s, s.len() as int, b);
    if exists|k: int| 0 <= k < s.len() && boundary_of((#[trigger] s[k]).inst) == Some(b) {
        let k = choose|k: int| 0 <= k < s.len() && boundary_of((#[trigger] s[k]).inst) == Some(b);
        assert(f(s[k].decode, s[k].inst));
    }
    if carried(p, f) {
        let k = choose|k: int| 0 <= k < s.len() && f((#[trigger] s[k]).decode, s[k].inst);
        assert(boundary_of(s[k].inst) == Some(b));
    }
}

proof fn names_are_carried(isa: Isa, s: Seq<Site>, n: int, t: Seq<char>)
    requires
        0 <= n <= s.len(),
    ensures
        names_upto(isa, s, n).contains(t) <==> exists|k: int|
            0 <= k < n && name_of(isa, (#[trigger] s[k]).inst.op) == Some(t),
    decreases n,
{
    if n > 0 {
        names_are_carried(isa, s, n - 1, t);
        if exists|k: int| 0 <= k < n && name_of(isa, (#[trigger] s[k]).inst.op) == Some(t) {
            let k = choose|k: int| 0 <= k < n && name_of(isa, (#[trigger] s[k]).inst.op) == Some(t);
            if k < n - 1 {
                assert(name_of(isa, s[k].inst.op) == Some(t));
            }
        }
        if name_of(isa, s[n - 1].inst.op) == Some(t) {
            assert(0 <= n - 1 < n && name_of(isa, s[n - 1].inst.op) == Some(t));
        }
    }
}

/// Whether an opcode's weights are fp8 whatever its operands say: these twelve, by name.
pub open spec fn reads_fp8(t: Seq<char>) -> bool {
    ||| t == "GemvFp8"@ || t == "GemvQkvFp8"@ || t == "GemvGluFp8"@ || t == "GemmFp8"@
    ||| t == "GemmMedFp8"@ || t == "GemmSmallFp8"@ || t == "GemmWideFp8"@ || t == "GemmC5Fp8"@
    ||| t == "GemmGluFp8"@ || t == "GemvFp8Blk"@ || t == "DenseGluFp8Blk"@ || t == "GemmFp8Blk"@
}

/// Whether an instruction reads fp8 weights, by its name.
pub open spec fn named_as_fp8(isa: Isa) -> spec_fn(bool, DevInst) -> bool {
    |z: bool, d: DevInst|
        match name_of(isa, d.op) {
            Some(t) => reads_fp8(t),
            None => false,
        }
}

/// Whether a packet carries an opcode of fp8 weights, by name.
pub open spec fn carries_fp8(isa: Isa, p: Packet) -> bool {
    carried(p, named_as_fp8(isa))
}

proof fn hard_is_carried(isa: Isa, p: Packet)
    ensures
        hard_fp8(shapes_of(isa, p)) == carries_fp8(isa, p),
{
    let s = sites_of(p);
    let f = named_as_fp8(isa);
    sites_are_the_instructions(p, f);
    let ops = names_upto(isa, s, s.len() as int);
    if hard_fp8(shapes_of(isa, p)) {
        let t = choose|t: Seq<char>| #[trigger] ops.contains(t) && fp8_weight_op(t);
        names_are_carried(isa, s, s.len() as int, t);
        let k = choose|k: int| 0 <= k < s.len() && name_of(isa, (#[trigger] s[k]).inst.op) == Some(t);
        assert(reads_fp8(t));
        assert(f(s[k].decode, s[k].inst));
        assert(carried(p, f));
    }
    if carried(p, f) {
        let k = choose|k: int| 0 <= k < s.len() && f((#[trigger] s[k]).decode, s[k].inst);
        if let Some(t) = name_of(isa, s[k].inst.op) {
            names_are_carried(isa, s, s.len() as int, t);
            assert(name_of(isa, s[k].inst.op) == Some(t));
            assert(reads_fp8(t));
            assert(ops.contains(t) && fp8_weight_op(t));
            assert(shapes_of(isa, p).ops_present.contains(t));
        }
    }
}

/// Whether some arm of a packet is named as one of fp8 weights.
pub open spec fn names_fp8(u: Set<ArmView>) -> bool {
    has_arm_to(u, "Fp8Blk"@) || exists|a: ArmView| #[trigger] u.contains(a) && reads_fp8(a.op)
}

/// What the arms of a packet show of it, each by the opcodes that show it and no others. Weights
/// are fp8 where an arm's name says so, and an encoding of experts or the name of an instruction
/// bears it out.
pub proof fn capabilities_follow_the_arms(isa: Isa, p: Packet, f: Facts)
    ensures
        ({
            let c = features_of(isa, p, f);
            let u = union_of(isa, p);
            &&& c.w8a8 <==> has_arm(u, "QuantFp8"@)
            &&& c.qwen_gdn <==> has_arm_from(u, "Qwen"@)
            &&& c.moe <==> has_arm_from(u, "Moe"@)
            &&& c.mamba <==> has_arm(u, "Mamba2Scan"@)
            &&& c.tensor_parallel <==> has_arm_from(u, "X"@)
            &&& c.fp8_kv <==> has_arm(u, "FlashDecodeFp8"@) || has_arm(u, "HeadNormRopeFp8"@)
                || has_arm(u, "FlashMlaDecodeFp8"@) || has_arm(u, "FlashMlaPrefillFp8"@)
            &&& c.mla <==> has_arm(u, "FlashMlaDecode"@) || has_arm(u, "FlashMlaPrefill"@)
                || has_arm(u, "FlashMlaDecodeFp8"@) || has_arm(u, "FlashMlaPrefillFp8"@)
                || has_arm(u, "MlaMergeFold"@)
            &&& c.prefill <==> has_arm(u, "FlashPrefill"@) || has_arm(u, "FlashPrefillFp8"@)
                || has_arm(u, "FlashMlaPrefill"@) || has_arm(u, "FlashMlaPrefillFp8"@) || has_arm(
                u,
                "FlashGatherPrefill"@,
            )
            &&& c.moe_prefill <==> exists|a: ArmView| #[trigger]
                u.contains(a) && begins(a.op, "Moe"@) && ends(a.op, "Pf"@)
            &&& c.fp8_weights <==> names_fp8(u) && (carried(
                p,
                |z: bool, d: DevInst| encodes_experts(d, 1),
            ) || carries_fp8(isa, p))
            &&& c.gemv_prefetch == f.gemv_prefetch
        }),
{
    hard_is_carried(isa, p);
    sizes_are_carried(isa, p, 1);
    let u = union_of(isa, p);
    assert(crate::features::named_fp8(u) == names_fp8(u)) by {
        if exists|a: ArmView| #[trigger] u.contains(a) && fp8_weight_op(a.op) {
            let a = choose|a: ArmView| #[trigger] u.contains(a) && fp8_weight_op(a.op);
            assert(reads_fp8(a.op));
        }
        if exists|a: ArmView| #[trigger] u.contains(a) && reads_fp8(a.op) {
            let a = choose|a: ArmView| #[trigger] u.contains(a) && reads_fp8(a.op);
            assert(fp8_weight_op(a.op));
        }
    }
}

/// What the operands of a packet show of it, each by the instructions that show it and no others.
pub proof fn capabilities_follow_the_operands(isa: Isa, p: Packet, f: Facts)
    ensures
        ({
            let c = features_of(isa, p, f);
            &&& c.xr_combine_fold <==> carried(p, |z: bool, d: DevInst| d.op == DevOp::XReduce && d.args.i7 != 0)
            &&& c.kda_fb_fold <==> carried(p, |z: bool, d: DevInst| d.op == DevOp::KdaStateStepG && d.args.i4 & 4 != 0)
            &&& c.kda_decode_fused_arm <==> carried(p, |z: bool, d: DevInst| d.op == DevOp::KdaStateStepG && d.args.i4 & 8 != 0)
            &&& c.moe_pf_a8 <==> carried(p, |z: bool, d: DevInst| d.op == DevOp::MoeGroupGluPf && d.args.i7 != 0)
            &&& c.moe_pf_part16 <==> carried(p, |z: bool, d: DevInst| (d.op == DevOp::MoeGroupDownPf || d.op == DevOp::MoeCombinePf) && d.args.i7 != 0)
            &&& c.moe_pf_atomic <==> carried(p, |z: bool, d: DevInst| d.op == DevOp::MoeGroupDownPf && d.args.i4 != 0)
            &&& c.moe_pf_det <==> carried(p, |z: bool, d: DevInst| d.op == DevOp::MoeGroupDownPf && d.args.i5 != 0)
            &&& c.quant_glu_fold <==> carried(p, |z: bool, d: DevInst| d.op == DevOp::QuantFp8 && d.args.t3 != TENSOR_NONE)
            &&& c.glm_fuse_rope <==> carried(p, |z: bool, d: DevInst| d.op == DevOp::FlashMlaDecode && d.args.t7 != TENSOR_NONE)
            &&& c.glm_fuse_qnorm <==> carried(p, |z: bool, d: DevInst| d.op == DevOp::GemvQkv && d.args.t7 != TENSOR_NONE)
            &&& c.linear_bias <==> carried(p, |z: bool, d: DevInst| (d.op == DevOp::GemvQkv && !(d.args.i5 == 0 && d.args.i6 == 0 && d.args.i7 == 0)) || ((d.op == DevOp::Gemm || d.op == DevOp::GemmMed || d.op == DevOp::GemmSmall || d.op == DevOp::Gemv) && d.args.t7 != TENSOR_NONE))
            &&& c.rope_half_hd64 <==> carried(p, |z: bool, d: DevInst| d.op == DevOp::HeadNormRope && d.args.i2 == 64 && d.args.i5 == isa.rope_pair_half)
            &&& c.attention_sinks <==> carried(p, |z: bool, d: DevInst| d.op == DevOp::FlashMerge && d.args.t3 != TENSOR_NONE)
            &&& c.mla_pf_ns <==> carried(p, |z: bool, d: DevInst| d.op == DevOp::FlashMlaPrefill && d.args.i6 & 0xff > 1 && d.args.t7 == TENSOR_NONE)
            &&& c.glm_ofold <==> carried(p, |z: bool, d: DevInst| d.op == DevOp::FlashMlaPrefill && d.args.i6 & 0x100 != 0 && d.args.t7 == TENSOR_NONE)
            &&& c.mxfp4_weights <==> carried(p, |z: bool, d: DevInst| d.op == DevOp::GemvMxfp4 || d.op == DevOp::GemvGluMxfp4 || d.op == DevOp::GemvQkvMxfp4 || d.op == DevOp::GemmGluMxfp4 || d.op == DevOp::GemmMxfp4 || d.op == DevOp::GemmMedMxfp4 || d.op == DevOp::GemmSmallMxfp4 || d.op == DevOp::GemmWideMxfp4 || d.op == DevOp::GemmC5Mxfp4)
            &&& c.materialized_residual_input <==> carried(p, |z: bool, d: DevInst| d.op == DevOp::AttnRes && !(d.args.t6 == TENSOR_NONE && d.args.t7 == TENSOR_NONE && d.args.i5 == isa.no_tensor_imm))
            &&& c.attnres_decode_mwg <==> carried(p, |z: bool, d: DevInst| d.op == DevOp::AttnRes && d.args.i6 != 0)
            &&& c.a4w4 <==> carried(p, |z: bool, d: DevInst| encodes_experts(d, 2))
            &&& any_marked(isa, Mark::PrefillGemv, shapes_of(isa, p).sites) <==> carried(
                p,
                |z: bool, d: DevInst| d.op == DevOp::Gemv && !z,
            )
            &&& any_marked(isa, Mark::AttnResF32mix, shapes_of(isa, p).sites) <==> carried(
                p,
                |z: bool, d: DevInst| d.f32mix,
            )
        }),
{
    mark_is_carried(isa, p, Mark::XrCombineFold, |z: bool, d: DevInst| d.op == DevOp::XReduce && d.args.i7 != 0);
    mark_is_carried(isa, p, Mark::KdaFbFold, |z: bool, d: DevInst| d.op == DevOp::KdaStateStepG && d.args.i4 & 4 != 0);
    mark_is_carried(isa, p, Mark::KdaDecodeFusedArm, |z: bool, d: DevInst| d.op == DevOp::KdaStateStepG && d.args.i4 & 8 != 0);
    mark_is_carried(isa, p, Mark::MoePfA8, |z: bool, d: DevInst| d.op == DevOp::MoeGroupGluPf && d.args.i7 != 0);
    mark_is_carried(isa, p, Mark::MoePfPart16, |z: bool, d: DevInst| (d.op == DevOp::MoeGroupDownPf || d.op == DevOp::MoeCombinePf) && d.args.i7 != 0);
    mark_is_carried(isa, p, Mark::MoePfAtomic, |z: bool, d: DevInst| d.op == DevOp::MoeGroupDownPf && d.args.i4 != 0);
    mark_is_carried(isa, p, Mark::MoePfDet, |z: bool, d: DevInst| d.op == DevOp::MoeGroupDownPf && d.args.i5 != 0);
    mark_is_carried(isa, p, Mark::QuantGluFold, |z: bool, d: DevInst| d.op == DevOp::QuantFp8 && d.args.t3 != TENSOR_NONE);
    mark_is_carried(isa, p, Mark::GlmFuseRope, |z: bool, d: DevInst| d.op == DevOp::FlashMlaDecode && d.args.t7 != TENSOR_NONE);
    mark_is_carried(isa, p, Mark::GlmFuseQnorm, |z: bool, d: DevInst| d.op == DevOp::GemvQkv && d.args.t7 != TENSOR_NONE);
    mark_is_carried(isa, p, Mark::LinearBias, |z: bool, d: DevInst| (d.op == DevOp::GemvQkv && !(d.args.i5 == 0 && d.args.i6 == 0 && d.args.i7 == 0)) || ((d.op == DevOp::Gemm || d.op == DevOp::GemmMed || d.op == DevOp::GemmSmall || d.op == DevOp::Gemv) && d.args.t7 != TENSOR_NONE));
    mark_is_carried(isa, p, Mark::RopeHalfHd64, |z: bool, d: DevInst| d.op == DevOp::HeadNormRope && d.args.i2 == 64 && d.args.i5 == isa.rope_pair_half);
    mark_is_carried(isa, p, Mark::AttentionSinks, |z: bool, d: DevInst| d.op == DevOp::FlashMerge && d.args.t3 != TENSOR_NONE);
    mark_is_carried(isa, p, Mark::MlaPfNs, |z: bool, d: DevInst| d.op == DevOp::FlashMlaPrefill && d.args.i6 & 0xff > 1 && d.args.t7 == TENSOR_NONE);
    mark_is_carried(isa, p, Mark::GlmOfold, |z: bool, d: DevInst| d.op == DevOp::FlashMlaPrefill && d.args.i6 & 0x100 != 0 && d.args.t7 == TENSOR_NONE);
    mark_is_carried(isa, p, Mark::Mxfp4Proj, |z: bool, d: DevInst| d.op == DevOp::GemvMxfp4 || d.op == DevOp::GemvGluMxfp4 || d.op == DevOp::GemvQkvMxfp4 || d.op == DevOp::GemmGluMxfp4 || d.op == DevOp::GemmMxfp4 || d.op == DevOp::GemmMedMxfp4 || d.op == DevOp::GemmSmallMxfp4 || d.op == DevOp::GemmWideMxfp4 || d.op == DevOp::GemmC5Mxfp4);
    mark_is_carried(isa, p, Mark::MaterializedResidual, |z: bool, d: DevInst| d.op == DevOp::AttnRes && !(d.args.t6 == TENSOR_NONE && d.args.t7 == TENSOR_NONE && d.args.i5 == isa.no_tensor_imm));
    mark_is_carried(isa, p, Mark::AttnresDecodeMwg, |z: bool, d: DevInst| d.op == DevOp::AttnRes && d.args.i6 != 0);
    mark_is_carried(isa, p, Mark::PrefillGemv, |z: bool, d: DevInst| d.op == DevOp::Gemv && !z);
    mark_is_carried(isa, p, Mark::AttnResF32mix, |z: bool, d: DevInst| d.f32mix);
    sizes_are_carried(isa, p, 2);
}

} // verus!
