//! Which defines an object must have been built with, and when.
use vstd::prelude::*;

use crate::arms::{ArmView, DevInst, Packet};
use crate::backends::{
    amd_arms, amd_operands, amd_requires, amd_stage, banded, chunked, flag, large_heads,
    latent_prefill, nvcc_requires, prescaled, recurrent, StageTile,
};
use crate::features::{op_in, Features};
use crate::isa::{DevOp, TENSOR_NONE};
use crate::manifest::{features_of, union_of, Facts};
use crate::opcodes::Isa;
use crate::packet_laws::{
    attends_decode, attends_prefill, capabilities_follow_the_arms, capabilities_follow_the_operands,
    carried, carries_fp8, encodes_experts, has_arm, has_arm_from, names_fp8, sizes_are_carried,
};
use crate::packet_shape::{buckets_upto, shapes_of};
use crate::text::{begins, dec, ends};

verus! {

/// A list has a define where it had it before or where it is the one wanted.
broadcast proof fn flag_adds(r: Seq<Seq<char>>, wanted: bool, t: Seq<char>, x: Seq<char>)
    ensures
        #[trigger] flag(r, wanted, t).contains(x) == (r.contains(x) || (wanted && x == t)),
{
    let q = flag(r, wanted, t);
    if r.contains(x) {
        let i = choose|i: int| 0 <= i < r.len() && r[i] == x;
        assert(q[i] == x);
    }
    if wanted && x == t {
        assert(q[r.len() as int] == x);
    }
    if q.contains(x) {
        let i = choose|i: int| 0 <= i < q.len() && q[i] == x;
        if i < r.len() {
            assert(r[i] == x);
        }
    }
}

proof fn large_is_carried(isa: Isa, p: Packet)
    ensures
        large_heads(shapes_of(isa, p)) == carried(
            p,
            |z: bool, d: DevInst| (attends_decode(d) || attends_prefill(d)) && d.args.i6 > 128,
        ),
{
    let f = |z: bool, d: DevInst| (attends_decode(d) || attends_prefill(d)) && d.args.i6 > 128;
    let s = shapes_of(isa, p);
    if large_heads(s) {
        let h = choose|h: u32| #[trigger] s.hd.contains(h) && h > 128;
        sizes_are_carried(isa, p, h);
        let (g, i) = choose|g: int, i: int|
            0 <= g < p.progs@.len() && 0 <= i < p.progs@[g].insts@.len() && ({
                let d = #[trigger] p.progs@[g].insts@[i];
                (attends_decode(d) || attends_prefill(d)) && d.args.i6 == h
            });
        assert(f(g >= p.decode_lo, p.progs@[g].insts@[i]));
    }
    if carried(p, f) {
        let (g, i) = choose|g: int, i: int|
            0 <= g < p.progs@.len() && 0 <= i < p.progs@[g].insts@.len() && f(
                g >= p.decode_lo,
                #[trigger] p.progs@[g].insts@[i],
            );
        let h = p.progs@[g].insts@[i].args.i6;
        sizes_are_carried(isa, p, h);
        let e = |z: bool, d: DevInst| (attends_decode(d) || attends_prefill(d)) && d.args.i6 == h;
        assert(e(g >= p.decode_lo, p.progs@[g].insts@[i]));
        assert(carried(p, e));
        assert(s.hd.contains(h));
    }
}

proof fn nvcc_defines_differ()
    ensures
        "PLOW_NV_GEMMA=1"@.len() == 15,
        "PLOW_NV_QWEN_GDN=1"@.len() == 18,
        "PLOW_NV_FA_GF=2"@.len() == 15,
        "PLOW_NV_W8A8=1"@.len() == 14,
        "PLOW_NV_FP8_M1=1"@.len() == 16,
        "PLOW_NV_QUANT_FP8_VLLM=1"@.len() == 24,
        "PLOW_FP8_KV=1"@.len() == 13,
        "PLOW_NV_PREFILL=1"@.len() == 17,
        "PLOW_NV_PF_GEMV_HEAD=1"@.len() == 22,
        "PLOW_NV_GEMMA=1"@ != "PLOW_NV_FA_GF=2"@,
{
    reveal_strlit("PLOW_NV_GEMMA=1");
    reveal_strlit("PLOW_NV_QWEN_GDN=1");
    reveal_strlit("PLOW_NV_FA_GF=2");
    reveal_strlit("PLOW_NV_W8A8=1");
    reveal_strlit("PLOW_NV_FP8_M1=1");
    reveal_strlit("PLOW_NV_QUANT_FP8_VLLM=1");
    reveal_strlit("PLOW_FP8_KV=1");
    reveal_strlit("PLOW_NV_PREFILL=1");
    reveal_strlit("PLOW_NV_PF_GEMV_HEAD=1");
    assert("PLOW_NV_GEMMA=1"@[8] != "PLOW_NV_FA_GF=2"@[8]);
}

/// An nvcc object is asked for each define exactly where the packet has what it stands for,
/// whatever else the packet has, and for no other define.
pub proof fn nvcc_defines_stand_for_what_is_there(isa: Isa, p: Packet, f: Facts)
    ensures
        ({
            let u = union_of(isa, p);
            let r = nvcc_requires(isa, features_of(isa, p, f), shapes_of(isa, p));
            &&& r.contains("PLOW_NV_GEMMA=1"@) <==> carried(p, |z: bool, d: DevInst| (attends_decode(d) || attends_prefill(d)) && d.args.i6 > 128)
            &&& r.contains("PLOW_NV_QWEN_GDN=1"@) <==> has_arm_from(u, "Qwen"@)
            &&& r.contains("PLOW_NV_FA_GF=2"@) <==> has_arm_from(u, "Qwen"@)
            &&& r.contains("PLOW_NV_W8A8=1"@) <==> has_arm(u, "QuantFp8"@)
            &&& r.contains("PLOW_NV_FP8_M1=1"@) <==> has_arm(u, "QuantFp8"@) && has_arm_from(u, "Qwen"@)
            &&& r.contains("PLOW_NV_QUANT_FP8_VLLM=1"@) <==> has_arm(u, "QuantFp8"@) && has_arm_from(u, "Qwen"@)
            &&& r.contains("PLOW_FP8_KV=1"@) <==> has_arm(u, "FlashDecodeFp8"@) || has_arm(u, "HeadNormRopeFp8"@) || has_arm(u, "FlashMlaDecodeFp8"@) || has_arm(u, "FlashMlaPrefillFp8"@)
            &&& r.contains("PLOW_NV_PREFILL=1"@) <==> has_arm(u, "FlashPrefill"@) || has_arm(u, "FlashPrefillFp8"@) || has_arm(u, "FlashMlaPrefill"@) || has_arm(u, "FlashMlaPrefillFp8"@) || has_arm(u, "FlashGatherPrefill"@)
            &&& r.contains("PLOW_NV_PF_GEMV_HEAD=1"@) <==> (has_arm(u, "FlashPrefill"@) || has_arm(u, "FlashPrefillFp8"@) || has_arm(u, "FlashMlaPrefill"@) || has_arm(u, "FlashMlaPrefillFp8"@) || has_arm(u, "FlashGatherPrefill"@)) && carried(p, |z: bool, d: DevInst| d.op == DevOp::Gemv && !z)
            &&& forall|x: Seq<char>| #[trigger] r.contains(x) ==> x == "PLOW_NV_GEMMA=1"@ || x == "PLOW_NV_QWEN_GDN=1"@ || x == "PLOW_NV_FA_GF=2"@ || x == "PLOW_NV_W8A8=1"@ || x == "PLOW_NV_FP8_M1=1"@ || x == "PLOW_NV_QUANT_FP8_VLLM=1"@ || x == "PLOW_FP8_KV=1"@ || x == "PLOW_NV_PREFILL=1"@ || x == "PLOW_NV_PF_GEMV_HEAD=1"@
        }),
{
    broadcast use flag_adds;

    capabilities_follow_the_arms(isa, p, f);
    capabilities_follow_the_operands(isa, p, f);
    large_is_carried(isa, p);
    nvcc_defines_differ();
    let none = Seq::<Seq<char>>::empty();
    assert(forall|x: Seq<char>| !none.contains(x));
}

/// Whether a packet has a prefill program that serves single prompts.
pub open spec fn serves_prompts(p: Packet) -> bool {
    exists|g: int| 0 <= g < p.progs@.len() && g < p.decode_lo && !(#[trigger] p.progs@[g]).packed
}

/// Whether an arm is one of the chunk kernels that take scaled queries.
pub open spec fn takes_scaled_queries(a: ArmView) -> bool {
    (a.op == "KdaChunkWu"@ || a.op == "KdaChunkCarry"@) && (a.variant matches Some(v) && ends(
        v,
        "_qpre"@,
    ))
}

proof fn buckets_are_prompts(p: Packet, n: int)
    requires
        0 <= n <= p.progs@.len(),
    ensures
        buckets_upto(p, n).len() > 0 <==> exists|g: int|
            0 <= g < n && g < p.decode_lo && !(#[trigger] p.progs@[g]).packed,
    decreases n,
{
    if n > 0 {
        buckets_are_prompts(p, n - 1);
        if exists|g: int| 0 <= g < n && g < p.decode_lo && !(#[trigger] p.progs@[g]).packed {
            let g = choose|g: int|
                0 <= g < n && g < p.decode_lo && !(#[trigger] p.progs@[g]).packed;
            if g < n - 1 {
                assert(0 <= g < n - 1 && g < p.decode_lo && !p.progs@[g].packed);
            }
        }
    }
}

proof fn arms_ask(x: Seq<char>, base: Seq<Seq<char>>, has_prefill: bool, f: Features, u: Set<ArmView>)
    ensures
        amd_arms(base, has_prefill, f, u).contains(x) == ({
            ||| base.contains(x)
            ||| has_prefill && x == "PLOW_BUCKET_DECODE=0"@
            ||| f.fp8_weights && x == "PLOW_FP8=1"@
            ||| f.w8a8 && x == "PLOW_W8A8=1"@
            ||| f.fp8_kv && x == "PLOW_FP8_KV=1"@
            ||| f.mxfp4_weights && x == "PLOW_MXFP4=1"@
            ||| latent_prefill(u) && x == "PLOW_MLA_PREFILL=1"@
            ||| f.moe_prefill && x == "PLOW_MOE_PREFILL=1"@
            ||| f.a4w4 && x == "PLOW_MOE_PF_A4W4=1"@
            ||| op_in(u, "KdaConvStateStepG"@) && x == "PLOW_KDA_CONV_STEP_DB=1"@
            ||| f.materialized_residual_input && x == "PLOW_MATERIALIZED_RESIDUAL_INPUT=1"@
            ||| f.attnres_decode_mwg && x == "PLOW_ATTNRES_DECODE_MWG=1"@
            ||| chunked(u) && x == "PLOW_KDA_CHUNK=1"@
            ||| banded(u) && x == "PLOW_SEQ_PAR_SEAMS=1"@
            ||| prescaled(u) && x == "PLOW_KDA_CHUNK_QPRE=1"@
        }),
{
    broadcast use flag_adds;

    reveal(amd_arms);
}

proof fn operands_ask(x: Seq<char>, base: Seq<Seq<char>>, f: Features, u: Set<ArmView>)
    ensures
        amd_operands(base, f, u).contains(x) == ({
            ||| base.contains(x)
            ||| f.moe_pf_part16 && x == "PLOW_MOE_PF_PART16=1"@
            ||| f.moe_pf_a8 && x == "PLOW_MOE_PF_A8=1"@
            ||| f.xr_combine_fold && x == "PLOW_XR_COMBINE_FOLD=1"@
            ||| f.kda_fb_fold && x == "PLOW_KDA_FB_FOLD=1"@
            ||| f.kda_decode_fused_arm && x == "PLOW_KDA_DECODE_FUSED_ARM=1"@
            ||| f.moe_pf_atomic && x == "PLOW_MOE_PF_ATOMIC=1"@
            ||| f.moe_pf_det && x == "PLOW_MOE_PF_DET=1"@
            ||| f.quant_glu_fold && x == "PLOW_T11_GLUQUANT=1"@
            ||| f.mla_pf_ns && x == "PLOW_MLA_PF_NS=1"@
            ||| f.glm_ofold && x == "PLOW_GLM_OFOLD=1"@
            ||| f.glm_fuse_rope && x == "PLOW_GLM_FUSE_ROPE=1"@
            ||| f.glm_fuse_qnorm && x == "PLOW_GLM_FUSE_QNORM=1"@
            ||| recurrent(u) && x == "PLOW_K3=1"@
        }),
{
    broadcast use flag_adds;

    reveal(amd_operands);
}

proof fn amd_defines_differ()
    ensures
        "PLOW_BUCKET_DECODE=0"@.len() == 20,
        "PLOW_FP8=1"@.len() == 10,
        "PLOW_W8A8=1"@.len() == 11,
        "PLOW_FP8_KV=1"@.len() == 13,
        "PLOW_MXFP4=1"@.len() == 12,
        "PLOW_MLA_PREFILL=1"@.len() == 18,
        "PLOW_MOE_PREFILL=1"@.len() == 18,
        "PLOW_MOE_PF_A4W4=1"@.len() == 18,
        "PLOW_KDA_CONV_STEP_DB=1"@.len() == 23,
        "PLOW_MATERIALIZED_RESIDUAL_INPUT=1"@.len() == 34,
        "PLOW_ATTNRES_DECODE_MWG=1"@.len() == 25,
        "PLOW_KDA_CHUNK=1"@.len() == 16,
        "PLOW_SEQ_PAR_SEAMS=1"@.len() == 20,
        "PLOW_KDA_CHUNK_QPRE=1"@.len() == 21,
        "PLOW_MOE_PF_PART16=1"@.len() == 20,
        "PLOW_MOE_PF_A8=1"@.len() == 16,
        "PLOW_XR_COMBINE_FOLD=1"@.len() == 22,
        "PLOW_KDA_FB_FOLD=1"@.len() == 18,
        "PLOW_KDA_DECODE_FUSED_ARM=1"@.len() == 27,
        "PLOW_MOE_PF_ATOMIC=1"@.len() == 20,
        "PLOW_MOE_PF_DET=1"@.len() == 17,
        "PLOW_T11_GLUQUANT=1"@.len() == 19,
        "PLOW_MLA_PF_NS=1"@.len() == 16,
        "PLOW_GLM_OFOLD=1"@.len() == 16,
        "PLOW_GLM_FUSE_ROPE=1"@.len() == 20,
        "PLOW_GLM_FUSE_QNORM=1"@.len() == 21,
        "PLOW_K3=1"@.len() == 9,
        "PLOW_BUCKET_DECODE=0"@ != "PLOW_SEQ_PAR_SEAMS=1"@,
        "PLOW_BUCKET_DECODE=0"@ != "PLOW_MOE_PF_PART16=1"@,
        "PLOW_BUCKET_DECODE=0"@ != "PLOW_MOE_PF_ATOMIC=1"@,
        "PLOW_BUCKET_DECODE=0"@ != "PLOW_GLM_FUSE_ROPE=1"@,
        "PLOW_SEQ_PAR_SEAMS=1"@ != "PLOW_MOE_PF_PART16=1"@,
        "PLOW_SEQ_PAR_SEAMS=1"@ != "PLOW_MOE_PF_ATOMIC=1"@,
        "PLOW_SEQ_PAR_SEAMS=1"@ != "PLOW_GLM_FUSE_ROPE=1"@,
        "PLOW_MOE_PF_PART16=1"@ != "PLOW_MOE_PF_ATOMIC=1"@,
        "PLOW_MOE_PF_PART16=1"@ != "PLOW_GLM_FUSE_ROPE=1"@,
        "PLOW_MOE_PF_ATOMIC=1"@ != "PLOW_GLM_FUSE_ROPE=1"@,
        "PLOW_MLA_PREFILL=1"@ != "PLOW_MOE_PREFILL=1"@,
        "PLOW_MLA_PREFILL=1"@ != "PLOW_MOE_PF_A4W4=1"@,
        "PLOW_MLA_PREFILL=1"@ != "PLOW_KDA_FB_FOLD=1"@,
        "PLOW_MOE_PREFILL=1"@ != "PLOW_MOE_PF_A4W4=1"@,
        "PLOW_MOE_PREFILL=1"@ != "PLOW_KDA_FB_FOLD=1"@,
        "PLOW_MOE_PF_A4W4=1"@ != "PLOW_KDA_FB_FOLD=1"@,
        "PLOW_KDA_CHUNK=1"@ != "PLOW_MOE_PF_A8=1"@,
        "PLOW_KDA_CHUNK=1"@ != "PLOW_MLA_PF_NS=1"@,
        "PLOW_KDA_CHUNK=1"@ != "PLOW_GLM_OFOLD=1"@,
        "PLOW_MOE_PF_A8=1"@ != "PLOW_MLA_PF_NS=1"@,
        "PLOW_MOE_PF_A8=1"@ != "PLOW_GLM_OFOLD=1"@,
        "PLOW_MLA_PF_NS=1"@ != "PLOW_GLM_OFOLD=1"@,
        "PLOW_KDA_CHUNK_QPRE=1"@ != "PLOW_GLM_FUSE_QNORM=1"@,
{
    reveal_strlit("PLOW_BUCKET_DECODE=0");
    reveal_strlit("PLOW_FP8=1");
    reveal_strlit("PLOW_W8A8=1");
    reveal_strlit("PLOW_FP8_KV=1");
    reveal_strlit("PLOW_MXFP4=1");
    reveal_strlit("PLOW_MLA_PREFILL=1");
    reveal_strlit("PLOW_MOE_PREFILL=1");
    reveal_strlit("PLOW_MOE_PF_A4W4=1");
    reveal_strlit("PLOW_KDA_CONV_STEP_DB=1");
    reveal_strlit("PLOW_MATERIALIZED_RESIDUAL_INPUT=1");
    reveal_strlit("PLOW_ATTNRES_DECODE_MWG=1");
    reveal_strlit("PLOW_KDA_CHUNK=1");
    reveal_strlit("PLOW_SEQ_PAR_SEAMS=1");
    reveal_strlit("PLOW_KDA_CHUNK_QPRE=1");
    reveal_strlit("PLOW_MOE_PF_PART16=1");
    reveal_strlit("PLOW_MOE_PF_A8=1");
    reveal_strlit("PLOW_XR_COMBINE_FOLD=1");
    reveal_strlit("PLOW_KDA_FB_FOLD=1");
    reveal_strlit("PLOW_KDA_DECODE_FUSED_ARM=1");
    reveal_strlit("PLOW_MOE_PF_ATOMIC=1");
    reveal_strlit("PLOW_MOE_PF_DET=1");
    reveal_strlit("PLOW_T11_GLUQUANT=1");
    reveal_strlit("PLOW_MLA_PF_NS=1");
    reveal_strlit("PLOW_GLM_OFOLD=1");
    reveal_strlit("PLOW_GLM_FUSE_ROPE=1");
    reveal_strlit("PLOW_GLM_FUSE_QNORM=1");
    reveal_strlit("PLOW_K3=1");
    assert("PLOW_BUCKET_DECODE=0"@[5] != "PLOW_SEQ_PAR_SEAMS=1"@[5]);
    assert("PLOW_BUCKET_DECODE=0"@[5] != "PLOW_MOE_PF_PART16=1"@[5]);
    assert("PLOW_BUCKET_DECODE=0"@[5] != "PLOW_MOE_PF_ATOMIC=1"@[5]);
    assert("PLOW_BUCKET_DECODE=0"@[5] != "PLOW_GLM_FUSE_ROPE=1"@[5]);
    assert("PLOW_SEQ_PAR_SEAMS=1"@[5] != "PLOW_MOE_PF_PART16=1"@[5]);
    assert("PLOW_SEQ_PAR_SEAMS=1"@[5] != "PLOW_MOE_PF_ATOMIC=1"@[5]);
    assert("PLOW_SEQ_PAR_SEAMS=1"@[5] != "PLOW_GLM_FUSE_ROPE=1"@[5]);
    assert("PLOW_MOE_PF_PART16=1"@[12] != "PLOW_MOE_PF_ATOMIC=1"@[12]);
    assert("PLOW_MOE_PF_PART16=1"@[5] != "PLOW_GLM_FUSE_ROPE=1"@[5]);
    assert("PLOW_MOE_PF_ATOMIC=1"@[5] != "PLOW_GLM_FUSE_ROPE=1"@[5]);
    assert("PLOW_MLA_PREFILL=1"@[6] != "PLOW_MOE_PREFILL=1"@[6]);
    assert("PLOW_MLA_PREFILL=1"@[6] != "PLOW_MOE_PF_A4W4=1"@[6]);
    assert("PLOW_MLA_PREFILL=1"@[5] != "PLOW_KDA_FB_FOLD=1"@[5]);
    assert("PLOW_MOE_PREFILL=1"@[10] != "PLOW_MOE_PF_A4W4=1"@[10]);
    assert("PLOW_MOE_PREFILL=1"@[5] != "PLOW_KDA_FB_FOLD=1"@[5]);
    assert("PLOW_MOE_PF_A4W4=1"@[5] != "PLOW_KDA_FB_FOLD=1"@[5]);
    assert("PLOW_KDA_CHUNK=1"@[5] != "PLOW_MOE_PF_A8=1"@[5]);
    assert("PLOW_KDA_CHUNK=1"@[5] != "PLOW_MLA_PF_NS=1"@[5]);
    assert("PLOW_KDA_CHUNK=1"@[5] != "PLOW_GLM_OFOLD=1"@[5]);
    assert("PLOW_MOE_PF_A8=1"@[6] != "PLOW_MLA_PF_NS=1"@[6]);
    assert("PLOW_MOE_PF_A8=1"@[5] != "PLOW_GLM_OFOLD=1"@[5]);
    assert("PLOW_MLA_PF_NS=1"@[5] != "PLOW_GLM_OFOLD=1"@[5]);
    assert("PLOW_KDA_CHUNK_QPRE=1"@[5] != "PLOW_GLM_FUSE_QNORM=1"@[5]);
}

/// Whether a text is one of the four defines of the prefill stage.
pub open spec fn of_the_stage(x: Seq<char>, g: StageTile) -> bool {
    ||| x == "PLOW_WG_WAVES=8"@
    ||| x == "GM_DBUF="@ + dec(g.buffers as nat)
    ||| x == "GM_BM="@ + dec(g.bm as nat)
    ||| x == "GM_BN="@ + dec(g.bn as nat)
}

proof fn stage_asks(x: Seq<char>, wanted: bool, g: StageTile)
    ensures
        amd_stage(wanted, g).contains(x) == (wanted && of_the_stage(x, g)),
{
    broadcast use flag_adds;

    let none = Seq::<Seq<char>>::empty();
    assert(!none.contains(x));
}

/// A define whose first letter and length no define of the stage has.
proof fn not_of_the_stage(x: Seq<char>, g: StageTile)
    requires
        x.len() > 0,
        x[0] == 'P',
        x.last() != '8',
    ensures
        !of_the_stage(x, g),
{
    reveal_strlit("PLOW_WG_WAVES=8");
    reveal_strlit("GM_DBUF=");
    reveal_strlit("GM_BM=");
    reveal_strlit("GM_BN=");
    assert(("GM_DBUF="@ + dec(g.buffers as nat))[0] == 'G');
    assert(("GM_BM="@ + dec(g.bm as nat))[0] == 'G');
    assert(("GM_BN="@ + dec(g.bn as nat))[0] == 'G');
}

/// What an AMD object is asked for, of one define.
proof fn amd_asks(
    isa: Isa,
    p: Packet,
    f: Facts,
    arch: Seq<char>,
    g: StageTile,
    x: Seq<char>,
)
    ensures
        ({
            let c = features_of(isa, p, f);
            let s = shapes_of(isa, p);
            let u = union_of(isa, p);
            amd_requires(arch, g, c, s, u).contains(x) == ({
                ||| arch == "gfx942"@ && serves_prompts(p) && of_the_stage(x, g)
                ||| serves_prompts(p) && x == "PLOW_BUCKET_DECODE=0"@
                ||| c.fp8_weights && x == "PLOW_FP8=1"@
                ||| c.w8a8 && x == "PLOW_W8A8=1"@
                ||| c.fp8_kv && x == "PLOW_FP8_KV=1"@
                ||| c.mxfp4_weights && x == "PLOW_MXFP4=1"@
                ||| latent_prefill(u) && x == "PLOW_MLA_PREFILL=1"@
                ||| c.moe_prefill && x == "PLOW_MOE_PREFILL=1"@
                ||| c.a4w4 && x == "PLOW_MOE_PF_A4W4=1"@
                ||| op_in(u, "KdaConvStateStepG"@) && x == "PLOW_KDA_CONV_STEP_DB=1"@
                ||| c.materialized_residual_input && x == "PLOW_MATERIALIZED_RESIDUAL_INPUT=1"@
                ||| c.attnres_decode_mwg && x == "PLOW_ATTNRES_DECODE_MWG=1"@
                ||| chunked(u) && x == "PLOW_KDA_CHUNK=1"@
                ||| banded(u) && x == "PLOW_SEQ_PAR_SEAMS=1"@
                ||| prescaled(u) && x == "PLOW_KDA_CHUNK_QPRE=1"@
                ||| c.moe_pf_part16 && x == "PLOW_MOE_PF_PART16=1"@
                ||| c.moe_pf_a8 && x == "PLOW_MOE_PF_A8=1"@
                ||| c.xr_combine_fold && x == "PLOW_XR_COMBINE_FOLD=1"@
                ||| c.kda_fb_fold && x == "PLOW_KDA_FB_FOLD=1"@
                ||| c.kda_decode_fused_arm && x == "PLOW_KDA_DECODE_FUSED_ARM=1"@
                ||| c.moe_pf_atomic && x == "PLOW_MOE_PF_ATOMIC=1"@
                ||| c.moe_pf_det && x == "PLOW_MOE_PF_DET=1"@
                ||| c.quant_glu_fold && x == "PLOW_T11_GLUQUANT=1"@
                ||| c.mla_pf_ns && x == "PLOW_MLA_PF_NS=1"@
                ||| c.glm_ofold && x == "PLOW_GLM_OFOLD=1"@
                ||| c.glm_fuse_rope && x == "PLOW_GLM_FUSE_ROPE=1"@
                ||| c.glm_fuse_qnorm && x == "PLOW_GLM_FUSE_QNORM=1"@
                ||| recurrent(u) && x == "PLOW_K3=1"@
            })
        }),
{
    let c = features_of(isa, p, f);
    let s = shapes_of(isa, p);
    let u = union_of(isa, p);
    buckets_are_prompts(p, p.progs@.len() as int);
    let pf = s.prefill_buckets.len() > 0;
    assert(pf == serves_prompts(p));
    let wanted = arch == "gfx942"@ && pf;
    stage_asks(x, wanted, g);
    arms_ask(x, amd_stage(wanted, g), pf, c, u);
    operands_ask(x, amd_arms(amd_stage(wanted, g), pf, c, u), c, u);
}

proof fn amd_defines_are_plain(g: StageTile)
    ensures
        !of_the_stage("PLOW_BUCKET_DECODE=0"@, g),
        !of_the_stage("PLOW_FP8=1"@, g),
        !of_the_stage("PLOW_W8A8=1"@, g),
        !of_the_stage("PLOW_FP8_KV=1"@, g),
        !of_the_stage("PLOW_MXFP4=1"@, g),
        !of_the_stage("PLOW_MLA_PREFILL=1"@, g),
        !of_the_stage("PLOW_MOE_PREFILL=1"@, g),
        !of_the_stage("PLOW_MOE_PF_A4W4=1"@, g),
        !of_the_stage("PLOW_KDA_CONV_STEP_DB=1"@, g),
        !of_the_stage("PLOW_MATERIALIZED_RESIDUAL_INPUT=1"@, g),
        !of_the_stage("PLOW_ATTNRES_DECODE_MWG=1"@, g),
        !of_the_stage("PLOW_KDA_CHUNK=1"@, g),
        !of_the_stage("PLOW_SEQ_PAR_SEAMS=1"@, g),
        !of_the_stage("PLOW_KDA_CHUNK_QPRE=1"@, g),
        !of_the_stage("PLOW_MOE_PF_PART16=1"@, g),
        !of_the_stage("PLOW_MOE_PF_A8=1"@, g),
        !of_the_stage("PLOW_XR_COMBINE_FOLD=1"@, g),
        !of_the_stage("PLOW_KDA_FB_FOLD=1"@, g),
        !of_the_stage("PLOW_KDA_DECODE_FUSED_ARM=1"@, g),
        !of_the_stage("PLOW_MOE_PF_ATOMIC=1"@, g),
        !of_the_stage("PLOW_MOE_PF_DET=1"@, g),
        !of_the_stage("PLOW_T11_GLUQUANT=1"@, g),
        !of_the_stage("PLOW_MLA_PF_NS=1"@, g),
        !of_the_stage("PLOW_GLM_OFOLD=1"@, g),
        !of_the_stage("PLOW_GLM_FUSE_ROPE=1"@, g),
        !of_the_stage("PLOW_GLM_FUSE_QNORM=1"@, g),
        !of_the_stage("PLOW_K3=1"@, g),
{
    reveal_strlit("PLOW_BUCKET_DECODE=0");
    not_of_the_stage("PLOW_BUCKET_DECODE=0"@, g);
    reveal_strlit("PLOW_FP8=1");
    not_of_the_stage("PLOW_FP8=1"@, g);
    reveal_strlit("PLOW_W8A8=1");
    not_of_the_stage("PLOW_W8A8=1"@, g);
    reveal_strlit("PLOW_FP8_KV=1");
    not_of_the_stage("PLOW_FP8_KV=1"@, g);
    reveal_strlit("PLOW_MXFP4=1");
    not_of_the_stage("PLOW_MXFP4=1"@, g);
    reveal_strlit("PLOW_MLA_PREFILL=1");
    not_of_the_stage("PLOW_MLA_PREFILL=1"@, g);
    reveal_strlit("PLOW_MOE_PREFILL=1");
    not_of_the_stage("PLOW_MOE_PREFILL=1"@, g);
    reveal_strlit("PLOW_MOE_PF_A4W4=1");
    not_of_the_stage("PLOW_MOE_PF_A4W4=1"@, g);
    reveal_strlit("PLOW_KDA_CONV_STEP_DB=1");
    not_of_the_stage("PLOW_KDA_CONV_STEP_DB=1"@, g);
    reveal_strlit("PLOW_MATERIALIZED_RESIDUAL_INPUT=1");
    not_of_the_stage("PLOW_MATERIALIZED_RESIDUAL_INPUT=1"@, g);
    reveal_strlit("PLOW_ATTNRES_DECODE_MWG=1");
    not_of_the_stage("PLOW_ATTNRES_DECODE_MWG=1"@, g);
    reveal_strlit("PLOW_KDA_CHUNK=1");
    not_of_the_stage("PLOW_KDA_CHUNK=1"@, g);
    reveal_strlit("PLOW_SEQ_PAR_SEAMS=1");
    not_of_the_stage("PLOW_SEQ_PAR_SEAMS=1"@, g);
    reveal_strlit("PLOW_KDA_CHUNK_QPRE=1");
    not_of_the_stage("PLOW_KDA_CHUNK_QPRE=1"@, g);
    reveal_strlit("PLOW_MOE_PF_PART16=1");
    not_of_the_stage("PLOW_MOE_PF_PART16=1"@, g);
    reveal_strlit("PLOW_MOE_PF_A8=1");
    not_of_the_stage("PLOW_MOE_PF_A8=1"@, g);
    reveal_strlit("PLOW_XR_COMBINE_FOLD=1");
    not_of_the_stage("PLOW_XR_COMBINE_FOLD=1"@, g);
    reveal_strlit("PLOW_KDA_FB_FOLD=1");
    not_of_the_stage("PLOW_KDA_FB_FOLD=1"@, g);
    reveal_strlit("PLOW_KDA_DECODE_FUSED_ARM=1");
    not_of_the_stage("PLOW_KDA_DECODE_FUSED_ARM=1"@, g);
    reveal_strlit("PLOW_MOE_PF_ATOMIC=1");
    not_of_the_stage("PLOW_MOE_PF_ATOMIC=1"@, g);
    reveal_strlit("PLOW_MOE_PF_DET=1");
    not_of_the_stage("PLOW_MOE_PF_DET=1"@, g);
    reveal_strlit("PLOW_T11_GLUQUANT=1");
    not_of_the_stage("PLOW_T11_GLUQUANT=1"@, g);
    reveal_strlit("PLOW_MLA_PF_NS=1");
    not_of_the_stage("PLOW_MLA_PF_NS=1"@, g);
    reveal_strlit("PLOW_GLM_OFOLD=1");
    not_of_the_stage("PLOW_GLM_OFOLD=1"@, g);
    reveal_strlit("PLOW_GLM_FUSE_ROPE=1");
    not_of_the_stage("PLOW_GLM_FUSE_ROPE=1"@, g);
    reveal_strlit("PLOW_GLM_FUSE_QNORM=1");
    not_of_the_stage("PLOW_GLM_FUSE_QNORM=1"@, g);
    reveal_strlit("PLOW_K3=1");
    not_of_the_stage("PLOW_K3=1"@, g);
}

proof fn scaled_are_prescaled(u: Set<ArmView>)
    ensures
        prescaled(u) == exists|a: ArmView| #[trigger] u.contains(a) && takes_scaled_queries(a),
{
    if prescaled(u) {
        let a = choose|a: ArmView| #[trigger] u.contains(a) && crate::backends::prescaled_arm(a);
        assert(takes_scaled_queries(a));
    }
    if exists|a: ArmView| #[trigger] u.contains(a) && takes_scaled_queries(a) {
        let a = choose|a: ArmView| #[trigger] u.contains(a) && takes_scaled_queries(a);
        assert(crate::backends::prescaled_arm(a));
    }
}

/// An AMD object is asked for each define of its arms and encodings exactly where the packet has
/// what it stands for, whatever else the packet has.
#[verifier::rlimit(40)]
pub proof fn amd_defines_stand_for_the_arms(isa: Isa, p: Packet, f: Facts, arch: Seq<char>, g: StageTile)
    ensures
        ({
            let u = union_of(isa, p);
            let r = amd_requires(arch, g, features_of(isa, p, f), shapes_of(isa, p), u);
            &&& r.contains("PLOW_BUCKET_DECODE=0"@) <==> serves_prompts(p)
            &&& r.contains("PLOW_FP8=1"@) <==> names_fp8(u) && (carried(p, |z: bool, d: DevInst| encodes_experts(d, 1)) || carries_fp8(isa, p))
            &&& r.contains("PLOW_W8A8=1"@) <==> has_arm(u, "QuantFp8"@)
            &&& r.contains("PLOW_FP8_KV=1"@) <==> has_arm(u, "FlashDecodeFp8"@) || has_arm(u, "HeadNormRopeFp8"@) || has_arm(u, "FlashMlaDecodeFp8"@) || has_arm(u, "FlashMlaPrefillFp8"@)
            &&& r.contains("PLOW_MXFP4=1"@) <==> carried(p, |z: bool, d: DevInst| d.op == DevOp::GemvMxfp4 || d.op == DevOp::GemvGluMxfp4 || d.op == DevOp::GemvQkvMxfp4 || d.op == DevOp::GemmGluMxfp4 || d.op == DevOp::GemmMxfp4 || d.op == DevOp::GemmMedMxfp4 || d.op == DevOp::GemmSmallMxfp4 || d.op == DevOp::GemmWideMxfp4 || d.op == DevOp::GemmC5Mxfp4)
            &&& r.contains("PLOW_MLA_PREFILL=1"@) <==> has_arm(u, "FlashMlaPrefill"@) || has_arm(u, "FlashMlaPrefillFp8"@) || has_arm(u, "FlashGatherPrefill"@)
            &&& r.contains("PLOW_MOE_PREFILL=1"@) <==> exists|a: ArmView| #[trigger] u.contains(a) && begins(a.op, "Moe"@) && ends(a.op, "Pf"@)
            &&& r.contains("PLOW_MOE_PF_A4W4=1"@) <==> carried(p, |z: bool, d: DevInst| encodes_experts(d, 2))
            &&& r.contains("PLOW_KDA_CONV_STEP_DB=1"@) <==> has_arm(u, "KdaConvStateStepG"@)
            &&& r.contains("PLOW_MATERIALIZED_RESIDUAL_INPUT=1"@) <==> carried(p, |z: bool, d: DevInst| d.op == DevOp::AttnRes && !(d.args.t6 == TENSOR_NONE && d.args.t7 == TENSOR_NONE && d.args.i5 == isa.no_tensor_imm))
            &&& r.contains("PLOW_ATTNRES_DECODE_MWG=1"@) <==> carried(p, |z: bool, d: DevInst| d.op == DevOp::AttnRes && d.args.i6 != 0)
            &&& r.contains("PLOW_KDA_CHUNK=1"@) <==> has_arm(u, "KdaChunkPrepare"@) || has_arm(u, "KdaChunkIntra"@) || has_arm(u, "KdaChunkWu"@) || has_arm(u, "KdaChunkCarry"@)
            &&& r.contains("PLOW_SEQ_PAR_SEAMS=1"@) <==> has_arm(u, "XReduceScatter"@) || has_arm(u, "XAllGather"@)
            &&& r.contains("PLOW_KDA_CHUNK_QPRE=1"@) <==> exists|a: ArmView| #[trigger] u.contains(a) && takes_scaled_queries(a)
        }),
{
    capabilities_follow_the_arms(isa, p, f);
    capabilities_follow_the_operands(isa, p, f);
    amd_defines_differ();
    amd_defines_are_plain(g);
    scaled_are_prescaled(union_of(isa, p));
    amd_asks(isa, p, f, arch, g, "PLOW_BUCKET_DECODE=0"@);
    amd_asks(isa, p, f, arch, g, "PLOW_FP8=1"@);
    amd_asks(isa, p, f, arch, g, "PLOW_W8A8=1"@);
    amd_asks(isa, p, f, arch, g, "PLOW_FP8_KV=1"@);
    amd_asks(isa, p, f, arch, g, "PLOW_MXFP4=1"@);
    amd_asks(isa, p, f, arch, g, "PLOW_MLA_PREFILL=1"@);
    amd_asks(isa, p, f, arch, g, "PLOW_MOE_PREFILL=1"@);
    amd_asks(isa, p, f, arch, g, "PLOW_MOE_PF_A4W4=1"@);
    amd_asks(isa, p, f, arch, g, "PLOW_KDA_CONV_STEP_DB=1"@);
    amd_asks(isa, p, f, arch, g, "PLOW_MATERIALIZED_RESIDUAL_INPUT=1"@);
    amd_asks(isa, p, f, arch, g, "PLOW_ATTNRES_DECODE_MWG=1"@);
    amd_asks(isa, p, f, arch, g, "PLOW_KDA_CHUNK=1"@);
    amd_asks(isa, p, f, arch, g, "PLOW_SEQ_PAR_SEAMS=1"@);
    amd_asks(isa, p, f, arch, g, "PLOW_KDA_CHUNK_QPRE=1"@);
}

/// An AMD object is asked for each define of its operands and its block opcodes exactly where the
/// packet has what it stands for, whatever else the packet has.
#[verifier::rlimit(40)]
pub proof fn amd_defines_stand_for_the_operands(isa: Isa, p: Packet, f: Facts, arch: Seq<char>, g: StageTile)
    ensures
        ({
            let u = union_of(isa, p);
            let r = amd_requires(arch, g, features_of(isa, p, f), shapes_of(isa, p), u);
            &&& r.contains("PLOW_MOE_PF_PART16=1"@) <==> carried(p, |z: bool, d: DevInst| (d.op == DevOp::MoeGroupDownPf || d.op == DevOp::MoeCombinePf) && d.args.i7 != 0)
            &&& r.contains("PLOW_MOE_PF_A8=1"@) <==> carried(p, |z: bool, d: DevInst| d.op == DevOp::MoeGroupGluPf && d.args.i7 != 0)
            &&& r.contains("PLOW_XR_COMBINE_FOLD=1"@) <==> carried(p, |z: bool, d: DevInst| d.op == DevOp::XReduce && d.args.i7 != 0)
            &&& r.contains("PLOW_KDA_FB_FOLD=1"@) <==> carried(p, |z: bool, d: DevInst| d.op == DevOp::KdaStateStepG && d.args.i4 & 4 != 0)
            &&& r.contains("PLOW_KDA_DECODE_FUSED_ARM=1"@) <==> carried(p, |z: bool, d: DevInst| d.op == DevOp::KdaStateStepG && d.args.i4 & 8 != 0)
            &&& r.contains("PLOW_MOE_PF_ATOMIC=1"@) <==> carried(p, |z: bool, d: DevInst| d.op == DevOp::MoeGroupDownPf && d.args.i4 != 0)
            &&& r.contains("PLOW_MOE_PF_DET=1"@) <==> carried(p, |z: bool, d: DevInst| d.op == DevOp::MoeGroupDownPf && d.args.i5 != 0)
            &&& r.contains("PLOW_T11_GLUQUANT=1"@) <==> carried(p, |z: bool, d: DevInst| d.op == DevOp::QuantFp8 && d.args.t3 != TENSOR_NONE)
            &&& r.contains("PLOW_MLA_PF_NS=1"@) <==> carried(p, |z: bool, d: DevInst| d.op == DevOp::FlashMlaPrefill && d.args.i6 & 0xff > 1 && d.args.t7 == TENSOR_NONE)
            &&& r.contains("PLOW_GLM_OFOLD=1"@) <==> carried(p, |z: bool, d: DevInst| d.op == DevOp::FlashMlaPrefill && d.args.i6 & 0x100 != 0 && d.args.t7 == TENSOR_NONE)
            &&& r.contains("PLOW_GLM_FUSE_ROPE=1"@) <==> carried(p, |z: bool, d: DevInst| d.op == DevOp::FlashMlaDecode && d.args.t7 != TENSOR_NONE)
            &&& r.contains("PLOW_GLM_FUSE_QNORM=1"@) <==> carried(p, |z: bool, d: DevInst| d.op == DevOp::GemvQkv && d.args.t7 != TENSOR_NONE)
            &&& r.contains("PLOW_K3=1"@) <==> has_arm(u, "AttnRes"@) || has_arm(u, "SituGlu"@) || has_arm(u, "MlaOutGate"@) || has_arm(u, "KdaStateStep"@) || has_arm(u, "KdaStateStepG"@) || has_arm(u, "KdaConvStateStepG"@) || has_arm(u, "KdaConv"@) || has_arm(u, "KdaConv3"@) || has_arm(u, "KdaGate"@) || has_arm(u, "KdaGatedNorm"@) || has_arm(u, "KdaChunkPrepare"@) || has_arm(u, "KdaChunkIntra"@) || has_arm(u, "KdaChunkWu"@) || has_arm(u, "KdaChunkCarry"@)
        }),
{
    capabilities_follow_the_arms(isa, p, f);
    capabilities_follow_the_operands(isa, p, f);
    amd_defines_differ();
    amd_defines_are_plain(g);
    scaled_are_prescaled(union_of(isa, p));
    amd_asks(isa, p, f, arch, g, "PLOW_MOE_PF_PART16=1"@);
    amd_asks(isa, p, f, arch, g, "PLOW_MOE_PF_A8=1"@);
    amd_asks(isa, p, f, arch, g, "PLOW_XR_COMBINE_FOLD=1"@);
    amd_asks(isa, p, f, arch, g, "PLOW_KDA_FB_FOLD=1"@);
    amd_asks(isa, p, f, arch, g, "PLOW_KDA_DECODE_FUSED_ARM=1"@);
    amd_asks(isa, p, f, arch, g, "PLOW_MOE_PF_ATOMIC=1"@);
    amd_asks(isa, p, f, arch, g, "PLOW_MOE_PF_DET=1"@);
    amd_asks(isa, p, f, arch, g, "PLOW_T11_GLUQUANT=1"@);
    amd_asks(isa, p, f, arch, g, "PLOW_MLA_PF_NS=1"@);
    amd_asks(isa, p, f, arch, g, "PLOW_GLM_OFOLD=1"@);
    amd_asks(isa, p, f, arch, g, "PLOW_GLM_FUSE_ROPE=1"@);
    amd_asks(isa, p, f, arch, g, "PLOW_GLM_FUSE_QNORM=1"@);
    amd_asks(isa, p, f, arch, g, "PLOW_K3=1"@);
}

/// An AMD object is asked for no define but these. Those of the prefill stage are for a gfx942
/// object of a packet that serves prompts, all four of them, and for no other.
pub proof fn amd_objects_are_asked_for_nothing_else(
    isa: Isa,
    p: Packet,
    f: Facts,
    arch: Seq<char>,
    g: StageTile,
    x: Seq<char>,
)
    ensures
        ({
            let r = amd_requires(
                arch,
                g,
                features_of(isa, p, f),
                shapes_of(isa, p),
                union_of(isa, p),
            );
            &&& of_the_stage(x, g) ==> (r.contains(x) <==> arch == "gfx942"@ && serves_prompts(p))
            &&& r.contains(x) ==> of_the_stage(x, g) || x == "PLOW_BUCKET_DECODE=0"@ || x == "PLOW_FP8=1"@ || x == "PLOW_W8A8=1"@ || x == "PLOW_FP8_KV=1"@ || x == "PLOW_MXFP4=1"@ || x == "PLOW_MLA_PREFILL=1"@ || x == "PLOW_MOE_PREFILL=1"@ || x == "PLOW_MOE_PF_A4W4=1"@ || x == "PLOW_KDA_CONV_STEP_DB=1"@ || x == "PLOW_MATERIALIZED_RESIDUAL_INPUT=1"@ || x == "PLOW_ATTNRES_DECODE_MWG=1"@ || x == "PLOW_KDA_CHUNK=1"@ || x == "PLOW_SEQ_PAR_SEAMS=1"@ || x == "PLOW_KDA_CHUNK_QPRE=1"@ || x == "PLOW_MOE_PF_PART16=1"@ || x == "PLOW_MOE_PF_A8=1"@ || x == "PLOW_XR_COMBINE_FOLD=1"@ || x == "PLOW_KDA_FB_FOLD=1"@ || x == "PLOW_KDA_DECODE_FUSED_ARM=1"@ || x == "PLOW_MOE_PF_ATOMIC=1"@ || x == "PLOW_MOE_PF_DET=1"@ || x == "PLOW_T11_GLUQUANT=1"@ || x == "PLOW_MLA_PF_NS=1"@ || x == "PLOW_GLM_OFOLD=1"@ || x == "PLOW_GLM_FUSE_ROPE=1"@ || x == "PLOW_GLM_FUSE_QNORM=1"@ || x == "PLOW_K3=1"@
        }),
{
    amd_asks(isa, p, f, arch, g, x);
    amd_defines_are_plain(g);
}

} // verus!
