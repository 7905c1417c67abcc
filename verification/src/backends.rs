//! Shape constants that follow from a packet by rule, and the defines of the objects that run it.
use vstd::prelude::*;

use crate::arith::{next_pow2, next_power_of_two, smaller, POW2_TOP};
use crate::arms::{Arm, ArmView};
use crate::features::{arm_in_items, has_op, op_in, Features};
use crate::json::{num_json, str_json, strs_json, strs_view, Fields, Json, JsonView};
use crate::order::{views, SortedSet};
use crate::opcodes::Isa;
use crate::packet_shape::{any_marked, carries, Mark, Shapes, ShapesView};
use crate::text::{begins, dec, ends, ends_with, labelled, same_text, starts_with, text};

verus! {

/// A rendering of the neutral facts into one toolchain's defines.
#[derive(Clone, Copy, PartialEq, Eq, Debug, Structural)]
pub enum Backend {
    Nvcc,
}

/// How many tiled products were looked up, and how many of them were measured.
#[derive(Clone, Copy, PartialEq, Eq, Debug, Structural)]
pub struct Tally {
    pub lookups: u64,
    pub hits: u64,
}

/// Constants that follow from the shapes by rule.
#[derive(Clone, Copy, PartialEq, Eq, Debug, Structural)]
pub struct Tuning {
    pub gv_mm_max: u32,
    pub tally: Tally,
    pub gf_full: Option<u32>,
}

/// The heads that one work item of full attention carries: those that share a head of keys and
/// values, as far as kernels are built for, and one where that does not divide them. The rule
/// speaks only where there is one head of keys and values.
pub open spec fn gf_rule(gqa: u32, kv_heads: u32) -> Option<u32> {
    if kv_heads == 1 && gqa > 0 {
        let g = smaller(next_pow2(gqa as int), 8);
        Some(if gqa % (g as u32) == 0 { g as u32 } else { 1 })
    } else {
        None
    }
}

/// The rule's answer is a number that kernels are built for and divides the heads.
pub proof fn gf_rule_divides(gqa: u32, kv_heads: u32)
    ensures
        match gf_rule(gqa, kv_heads) {
            Some(g) => (g == 1 || g == 2 || g == 4 || g == 8) && gqa % g == 0,
            None => kv_heads != 1 || gqa == 0,
        },
{
    crate::arith::next_pow2_is_least(gqa as int);
    reveal_with_fuel(next_pow2, 5);
    if gqa > 8 {
        crate::arith::next_pow2_monotone(8, gqa as int);
        assert(next_pow2(8) == 8);
    }
}

/// The constants of a packet.
pub open spec fn tuning_of(s: ShapesView, tally: Tally) -> Tuning {
    Tuning {
        gv_mm_max: next_pow2(crate::arith::larger(s.decode_batch, 1)) as u32,
        tally,
        gf_full: gf_rule(s.full.gqa, s.full.kv_heads),
    }
}

/// Whether the constants can be worked out in thirty-two bits.
pub open spec fn tuning_ok(s: ShapesView) -> bool {
    s.decode_batch <= POW2_TOP && s.full.gqa <= POW2_TOP
}

/// The constants of a packet.
pub fn tuning(s: &Shapes, tally: Tally) -> (r: Tuning)
    requires
        tuning_ok(s@),
    ensures
        r == tuning_of(s@, tally),
{
    let batch: u32 = if s.decode_batch < 1 { 1 } else { s.decode_batch };
    let gf: Option<u32> = if s.full.kv_heads == 1 && s.full.gqa > 0 {
        let p: u32 = next_power_of_two(s.full.gqa);
        let g: u32 = if p < 8 { p } else { 8 };
        Some(if s.full.gqa % g == 0 { g } else { 1 })
    } else {
        None
    };
    Tuning { gv_mm_max: next_power_of_two(batch), tally, gf_full: gf }
}

/// Where the tiles came from.
pub open spec fn tile_source(t: Tally) -> Seq<char> {
    if t.hits == 0 {
        "analytical"@
    } else if t.hits == t.lookups {
        "measured"@
    } else {
        "mixed"@
    }
}

/// The constants, with where the tiles came from where any were looked up.
pub open spec fn tuning_fields(t: Tuning) -> Map<Seq<char>, JsonView> {
    let m = Map::<Seq<char>, JsonView>::empty().insert(
        "gv_mm_max"@,
        JsonView::Num(t.gv_mm_max as u64),
    );
    let m = if t.tally.lookups > 0 {
        m.insert("tile_lookups"@, JsonView::Num(t.tally.lookups)).insert(
            "tile_measured"@,
            JsonView::Num(t.tally.hits),
        ).insert("tile_source"@, JsonView::Str(tile_source(t.tally)))
    } else {
        m
    };
    match t.gf_full {
        Some(g) => m.insert("gf_full"@, JsonView::Num(g as u64)),
        None => m,
    }
}

/// The constants as a document.
pub fn tuning_json(t: &Tuning) -> (r: Json)
    ensures
        r@ == JsonView::Obj(tuning_fields(*t)),
{
    let mut o = Fields::new();
    o.put("gv_mm_max", num_json(t.gv_mm_max));
    if t.tally.lookups > 0 {
        o.put("tile_lookups", Json::Num(t.tally.lookups));
        o.put("tile_measured", Json::Num(t.tally.hits));
        o.put(
            "tile_source",
            str_json(
                if t.tally.hits == 0 {
                    "analytical"
                } else if t.tally.hits == t.tally.lookups {
                    "measured"
                } else {
                    "mixed"
                },
            ),
        );
    }
    if let Some(g) = t.gf_full {
        o.put("gf_full", num_json(g));
    }
    o.done()
}

/// A list with one more text, where it is wanted.
pub open spec fn flag(s: Seq<Seq<char>>, wanted: bool, t: Seq<char>) -> Seq<Seq<char>> {
    if wanted { s.push(t) } else { s }
}

fn push_flag(v: &mut Vec<String>, wanted: bool, t: &str)
    ensures
        views(final(v)@) == flag(views(old(v)@), wanted, t@),
{
    if wanted {
        v.push(text(t));
        proof {
            assert(views(v@) =~= views(old(v)@).push(t@));
        }
    }
}

fn no_flags() -> (r: Vec<String>)
    ensures
        views(r@) == Seq::<Seq<char>>::empty(),
{
    let r: Vec<String> = Vec::new();
    proof {
        assert(views(r@) =~= Seq::<Seq<char>>::empty());
    }
    r
}

/// Whether any head size is over a hundred and twenty-eight.
pub open spec fn large_heads(s: ShapesView) -> bool {
    exists|h: u32| #[trigger] s.hd.contains(h) && h > 128
}

fn has_large_heads(s: &Shapes) -> (r: bool)
    ensures
        r == large_heads(s@),
{
    let ghost v = views(s.hd.items@);
    let mut i: usize = 0;
    while i < s.hd.items.len()
        invariant
            v == views(s.hd.items@),
            i <= v.len(),
            forall|j: int| 0 <= j < i ==> #[trigger] v[j] <= 128,
        decreases v.len() - i,
    {
        if s.hd.items[i] > 128 {
            proof {
                assert(v.contains(v[i as int]));
                assert(s@.hd.contains(v[i as int]));
            }
            return true;
        }
        i = i + 1;
    }
    false
}

/// The defines that an nvcc object must have been built with. A missing one traps.
pub open spec fn nvcc_requires(isa: Isa, f: Features, s: ShapesView) -> Seq<Seq<char>> {
    let r = flag(Seq::empty(), large_heads(s), "PLOW_NV_GEMMA=1"@);
    let r = flag(r, f.qwen_gdn, "PLOW_NV_QWEN_GDN=1"@);
    let r = flag(r, f.qwen_gdn, "PLOW_NV_FA_GF=2"@);
    let r = flag(r, f.w8a8, "PLOW_NV_W8A8=1"@);
    let r = flag(r, f.w8a8 && f.qwen_gdn, "PLOW_NV_FP8_M1=1"@);
    let r = flag(r, f.w8a8 && f.qwen_gdn, "PLOW_NV_QUANT_FP8_VLLM=1"@);
    let r = flag(r, f.fp8_kv, "PLOW_FP8_KV=1"@);
    let r = flag(r, f.prefill, "PLOW_NV_PREFILL=1"@);
    flag(
        r,
        f.prefill && any_marked(isa, Mark::PrefillGemv, s.sites),
        "PLOW_NV_PF_GEMV_HEAD=1"@,
    )
}

/// The defines that make an nvcc object fast.
pub open spec fn nvcc_recommends(t: Tuning) -> Seq<Seq<char>> {
    let r = seq!["GV_MM_MAX="@ + dec(t.gv_mm_max as nat)];
    match t.gf_full {
        Some(g) => r.push("PLOW_NV_FA_GF_FULL="@ + dec(g as nat)),
        None => r,
    }
}

/// A toolchain's two lists as a document.
pub open spec fn lists_view(req: Seq<Seq<char>>, rec: Seq<Seq<char>>) -> JsonView {
    JsonView::Obj(map!["requires"@ => strs_view(req), "recommends"@ => strs_view(rec)])
}

fn lists_json(req: &Vec<String>, rec: &Vec<String>) -> (r: Json)
    ensures
        r@ == lists_view(views(req@), views(rec@)),
{
    let mut o = Fields::new();
    o.put("requires", strs_json(req));
    o.put("recommends", strs_json(rec));
    o.done()
}

/// The defines of an nvcc object.
pub fn backend_nvcc(isa: &Isa, f: &Features, t: &Tuning, s: &Shapes) -> (r: Json)
    ensures
        r@ == lists_view(nvcc_requires(*isa, *f, s@), nvcc_recommends(*t)),
{
    let mut r: Vec<String> = no_flags();
    push_flag(&mut r, has_large_heads(s), "PLOW_NV_GEMMA=1");
    push_flag(&mut r, f.qwen_gdn, "PLOW_NV_QWEN_GDN=1");
    push_flag(&mut r, f.qwen_gdn, "PLOW_NV_FA_GF=2");
    push_flag(&mut r, f.w8a8, "PLOW_NV_W8A8=1");
    push_flag(&mut r, f.w8a8 && f.qwen_gdn, "PLOW_NV_FP8_M1=1");
    push_flag(&mut r, f.w8a8 && f.qwen_gdn, "PLOW_NV_QUANT_FP8_VLLM=1");
    push_flag(&mut r, f.fp8_kv, "PLOW_FP8_KV=1");
    push_flag(&mut r, f.prefill, "PLOW_NV_PREFILL=1");
    push_flag(
        &mut r,
        f.prefill && carries(isa, Mark::PrefillGemv, &s.sites),
        "PLOW_NV_PF_GEMV_HEAD=1",
    );
    let mut c: Vec<String> = Vec::new();
    c.push(labelled("GV_MM_MAX=", t.gv_mm_max as u64));
    if let Some(g) = t.gf_full {
        c.push(labelled("PLOW_NV_FA_GF_FULL=", g as u64));
    }
    proof {
        assert(views(c@) =~= nvcc_recommends(*t));
    }
    lists_json(&r, &c)
}

/// Latent or gathered prefill attention.
pub open spec fn latent_prefill(u: Set<ArmView>) -> bool {
    ||| op_in(u, "FlashMlaPrefill"@)
    ||| op_in(u, "FlashMlaPrefillFp8"@)
    ||| op_in(u, "FlashGatherPrefill"@)
}

fn is_latent_prefill(u: &SortedSet<Arm>) -> (r: bool)
    ensures
        r == latent_prefill(u@),
{
    has_op(u, "FlashMlaPrefill") || has_op(u, "FlashMlaPrefillFp8") || has_op(
        u,
        "FlashGatherPrefill",
    )
}

/// A recurrence that runs in chunks.
pub open spec fn chunked(u: Set<ArmView>) -> bool {
    ||| op_in(u, "KdaChunkPrepare"@)
    ||| op_in(u, "KdaChunkIntra"@)
    ||| op_in(u, "KdaChunkWu"@)
    ||| op_in(u, "KdaChunkCarry"@)
}

fn is_chunked(u: &SortedSet<Arm>) -> (r: bool)
    ensures
        r == chunked(u@),
{
    has_op(u, "KdaChunkPrepare") || has_op(u, "KdaChunkIntra") || has_op(u, "KdaChunkWu")
        || has_op(u, "KdaChunkCarry")
}

/// Ranks that keep a band of the rows each.
pub open spec fn banded(u: Set<ArmView>) -> bool {
    op_in(u, "XReduceScatter"@) || op_in(u, "XAllGather"@)
}

fn is_banded(u: &SortedSet<Arm>) -> (r: bool)
    ensures
        r == banded(u@),
{
    has_op(u, "XReduceScatter") || has_op(u, "XAllGather")
}

/// Whether an arm takes queries that are scaled already.
pub open spec fn prescaled_arm(a: ArmView) -> bool {
    (a.op == "KdaChunkWu"@ || a.op == "KdaChunkCarry"@) && (match a.variant {
        Some(v) => ends(v, "_qpre"@),
        None => false,
    })
}

/// Whether any arm takes queries that are scaled already.
pub open spec fn prescaled(u: Set<ArmView>) -> bool {
    exists|a: ArmView| #[trigger] u.contains(a) && prescaled_arm(a)
}

fn is_prescaled_arm(a: &Arm) -> (r: bool)
    ensures
        r == prescaled_arm(a@),
{
    let named: bool = same_text(a.op.as_str(), "KdaChunkWu") || same_text(
        a.op.as_str(),
        "KdaChunkCarry",
    );
    match &a.variant {
        Some(v) => named && ends_with(v.as_str(), "_qpre"),
        None => false,
    }
}

fn is_prescaled(u: &SortedSet<Arm>) -> (r: bool)
    ensures
        r == prescaled(u@),
{
    let mut i: usize = 0;
    while i < u.items.len()
        invariant
            i <= u.items@.len(),
            forall|j: int| 0 <= j < i ==> !prescaled_arm((#[trigger] u.items@[j])@),
        decreases u.items@.len() - i,
    {
        if is_prescaled_arm(&u.items[i]) {
            proof {
                arm_in_items(u, u.items@[i as int]@);
            }
            return true;
        }
        i = i + 1;
    }
    proof {
        assert forall|a: ArmView| #[trigger] u@.contains(a) implies !prescaled_arm(a) by {
            arm_in_items(u, a);
        }
    }
    false
}

/// The block opcodes of a recurrent model: any one of them needs the whole family.
pub open spec fn recurrent(u: Set<ArmView>) -> bool {
    ||| op_in(u, "AttnRes"@)
    ||| op_in(u, "SituGlu"@)
    ||| op_in(u, "MlaOutGate"@)
    ||| op_in(u, "KdaStateStep"@)
    ||| op_in(u, "KdaStateStepG"@)
    ||| op_in(u, "KdaConvStateStepG"@)
    ||| op_in(u, "KdaConv"@)
    ||| op_in(u, "KdaConv3"@)
    ||| op_in(u, "KdaGate"@)
    ||| op_in(u, "KdaGatedNorm"@)
    ||| op_in(u, "KdaChunkPrepare"@)
    ||| op_in(u, "KdaChunkIntra"@)
    ||| op_in(u, "KdaChunkWu"@)
    ||| op_in(u, "KdaChunkCarry"@)
}

fn is_recurrent(u: &SortedSet<Arm>) -> (r: bool)
    ensures
        r == recurrent(u@),
{
    has_op(u, "AttnRes") || has_op(u, "SituGlu") || has_op(u, "MlaOutGate")
        || has_op(u, "KdaStateStep") || has_op(u, "KdaStateStepG") || has_op(u, "KdaConvStateStepG")
        || has_op(u, "KdaConv") || has_op(u, "KdaConv3") || has_op(u, "KdaGate")
        || has_op(u, "KdaGatedNorm") || has_op(u, "KdaChunkPrepare") || has_op(u, "KdaChunkIntra")
        || has_op(u, "KdaChunkWu") || has_op(u, "KdaChunkCarry")
}

/// The prefill stage of a part: how many times its tile is staged, and the tile.
#[derive(Clone, Copy, PartialEq, Eq, Debug, Structural)]
pub struct StageTile {
    pub buffers: u32,
    pub bm: u32,
    pub bn: u32,
}

/// What gfx942's smaller workgroup memory makes of the prefill stage.
pub open spec fn amd_stage(wanted: bool, g: StageTile) -> Seq<Seq<char>> {
    let r = flag(Seq::empty(), wanted, "PLOW_WG_WAVES=8"@);
    let r = flag(r, wanted, "GM_DBUF="@ + dec(g.buffers as nat));
    let r = flag(r, wanted, "GM_BM="@ + dec(g.bm as nat));
    flag(r, wanted, "GM_BN="@ + dec(g.bn as nat))
}

/// The defines that the arms and encodings ask for.
#[verifier::opaque]
pub open spec fn amd_arms(base: Seq<Seq<char>>, has_prefill: bool, f: Features, u: Set<ArmView>) -> Seq<Seq<char>> {
    let r = base;
    let r = flag(r, has_prefill, "PLOW_BUCKET_DECODE=0"@);
    let r = flag(r, f.fp8_weights, "PLOW_FP8=1"@);
    let r = flag(r, f.w8a8, "PLOW_W8A8=1"@);
    let r = flag(r, f.fp8_kv, "PLOW_FP8_KV=1"@);
    let r = flag(r, f.mxfp4_weights, "PLOW_MXFP4=1"@);
    let r = flag(r, latent_prefill(u), "PLOW_MLA_PREFILL=1"@);
    let r = flag(r, f.moe_prefill, "PLOW_MOE_PREFILL=1"@);
    let r = flag(r, f.a4w4, "PLOW_MOE_PF_A4W4=1"@);
    let r = flag(r, op_in(u, "KdaConvStateStepG"@), "PLOW_KDA_CONV_STEP_DB=1"@);
    let r = flag(r, f.materialized_residual_input, "PLOW_MATERIALIZED_RESIDUAL_INPUT=1"@);
    let r = flag(r, f.attnres_decode_mwg, "PLOW_ATTNRES_DECODE_MWG=1"@);
    let r = flag(r, chunked(u), "PLOW_KDA_CHUNK=1"@);
    let r = flag(r, banded(u), "PLOW_SEQ_PAR_SEAMS=1"@);
    let r = flag(r, prescaled(u), "PLOW_KDA_CHUNK_QPRE=1"@);
    r
}

/// The defines that the operands and the block opcodes ask for.
#[verifier::opaque]
pub open spec fn amd_operands(base: Seq<Seq<char>>, f: Features, u: Set<ArmView>) -> Seq<Seq<char>> {
    let r = base;
    let r = flag(r, f.moe_pf_part16, "PLOW_MOE_PF_PART16=1"@);
    let r = flag(r, f.moe_pf_a8, "PLOW_MOE_PF_A8=1"@);
    let r = flag(r, f.xr_combine_fold, "PLOW_XR_COMBINE_FOLD=1"@);
    let r = flag(r, f.kda_fb_fold, "PLOW_KDA_FB_FOLD=1"@);
    let r = flag(r, f.kda_decode_fused_arm, "PLOW_KDA_DECODE_FUSED_ARM=1"@);
    let r = flag(r, f.moe_pf_atomic, "PLOW_MOE_PF_ATOMIC=1"@);
    let r = flag(r, f.moe_pf_det, "PLOW_MOE_PF_DET=1"@);
    let r = flag(r, f.quant_glu_fold, "PLOW_T11_GLUQUANT=1"@);
    let r = flag(r, f.mla_pf_ns, "PLOW_MLA_PF_NS=1"@);
    let r = flag(r, f.glm_ofold, "PLOW_GLM_OFOLD=1"@);
    let r = flag(r, f.glm_fuse_rope, "PLOW_GLM_FUSE_ROPE=1"@);
    let r = flag(r, f.glm_fuse_qnorm, "PLOW_GLM_FUSE_QNORM=1"@);
    let r = flag(r, recurrent(u), "PLOW_K3=1"@);
    r
}

/// The defines that an AMD object must have been built with. One without them writes nothing for
/// what it has no arm for.
pub open spec fn amd_requires(
    arch: Seq<char>,
    g: StageTile,
    f: Features,
    s: ShapesView,
    u: Set<ArmView>,
) -> Seq<Seq<char>> {
    let pf = s.prefill_buckets.len() > 0;
    amd_operands(amd_arms(amd_stage(arch == "gfx942"@ && pf, g), pf, f, u), f, u)
}

/// What else an AMD object should have.
pub open spec fn amd_recommends(gf: Option<u32>, s: ShapesView, u: Set<ArmView>) -> Seq<Seq<char>> {
    let r = match gf {
        Some(g) => seq!["PLOW_FA_GF_FULL="@ + dec(g as nat)],
        None => Seq::empty(),
    };
    flag(
        r,
        s.prefill_buckets.len() > 0 && op_in(u, "Gemv"@),
        "prefill object must dispatch PLOW_DOP_GEMV (lm_head at M=1)"@,
    )
}

fn push_amd_arms(r: &mut Vec<String>, has_prefill: bool, f: &Features, u: &SortedSet<Arm>)
    ensures
        views(final(r)@) == amd_arms(views(old(r)@), has_prefill, *f, u@),
{
    proof {
        reveal(amd_arms);
    }
    push_flag(r, has_prefill, "PLOW_BUCKET_DECODE=0");
    push_flag(r, f.fp8_weights, "PLOW_FP8=1");
    push_flag(r, f.w8a8, "PLOW_W8A8=1");
    push_flag(r, f.fp8_kv, "PLOW_FP8_KV=1");
    push_flag(r, f.mxfp4_weights, "PLOW_MXFP4=1");
    push_flag(r, is_latent_prefill(u), "PLOW_MLA_PREFILL=1");
    push_flag(r, f.moe_prefill, "PLOW_MOE_PREFILL=1");
    push_flag(r, f.a4w4, "PLOW_MOE_PF_A4W4=1");
    push_flag(r, has_op(u, "KdaConvStateStepG"), "PLOW_KDA_CONV_STEP_DB=1");
    push_flag(r, f.materialized_residual_input, "PLOW_MATERIALIZED_RESIDUAL_INPUT=1");
    push_flag(r, f.attnres_decode_mwg, "PLOW_ATTNRES_DECODE_MWG=1");
    push_flag(r, is_chunked(u), "PLOW_KDA_CHUNK=1");
    push_flag(r, is_banded(u), "PLOW_SEQ_PAR_SEAMS=1");
    push_flag(r, is_prescaled(u), "PLOW_KDA_CHUNK_QPRE=1");
}

fn push_amd_operands(r: &mut Vec<String>, f: &Features, u: &SortedSet<Arm>)
    ensures
        views(final(r)@) == amd_operands(views(old(r)@), *f, u@),
{
    proof {
        reveal(amd_operands);
    }
    push_flag(r, f.moe_pf_part16, "PLOW_MOE_PF_PART16=1");
    push_flag(r, f.moe_pf_a8, "PLOW_MOE_PF_A8=1");
    push_flag(r, f.xr_combine_fold, "PLOW_XR_COMBINE_FOLD=1");
    push_flag(r, f.kda_fb_fold, "PLOW_KDA_FB_FOLD=1");
    push_flag(r, f.kda_decode_fused_arm, "PLOW_KDA_DECODE_FUSED_ARM=1");
    push_flag(r, f.moe_pf_atomic, "PLOW_MOE_PF_ATOMIC=1");
    push_flag(r, f.moe_pf_det, "PLOW_MOE_PF_DET=1");
    push_flag(r, f.quant_glu_fold, "PLOW_T11_GLUQUANT=1");
    push_flag(r, f.mla_pf_ns, "PLOW_MLA_PF_NS=1");
    push_flag(r, f.glm_ofold, "PLOW_GLM_OFOLD=1");
    push_flag(r, f.glm_fuse_rope, "PLOW_GLM_FUSE_ROPE=1");
    push_flag(r, f.glm_fuse_qnorm, "PLOW_GLM_FUSE_QNORM=1");
    push_flag(r, is_recurrent(u), "PLOW_K3=1");
}

/// The defines of an AMD object.
pub fn backend_amd(
    arch: &str,
    g: StageTile,
    f: &Features,
    s: &Shapes,
    u: &SortedSet<Arm>,
    gf: Option<u32>,
) -> (r: Json)
    ensures
        r@ == lists_view(amd_requires(arch@, g, *f, s@, u@), amd_recommends(gf, s@, u@)),
{
    let pf: bool = s.prefill_buckets.len() > 0;
    let stage: bool = same_text(arch, "gfx942") && pf;
    let mut r: Vec<String> = no_flags();
    push_flag(&mut r, stage, "PLOW_WG_WAVES=8");
    push_flag(&mut r, stage, labelled("GM_DBUF=", g.buffers as u64).as_str());
    push_flag(&mut r, stage, labelled("GM_BM=", g.bm as u64).as_str());
    push_flag(&mut r, stage, labelled("GM_BN=", g.bn as u64).as_str());
    push_amd_arms(&mut r, pf, f, u);
    push_amd_operands(&mut r, f, u);
    let mut c: Vec<String> = no_flags();
    if let Some(v) = gf {
        c.push(labelled("PLOW_FA_GF_FULL=", v as u64));
        proof {
            assert(views(c@) =~= seq!["PLOW_FA_GF_FULL="@ + dec(v as nat)]);
        }
    }
    push_flag(
        &mut c,
        pf && has_op(u, "Gemv"),
        "prefill object must dispatch PLOW_DOP_GEMV (lm_head at M=1)",
    );
    lists_json(&r, &c)
}

/// The part that the AMD defines are for: the target, where it is one.
pub open spec fn amd_key(arch: Seq<char>) -> Seq<char> {
    if begins(arch, "gfx"@) { arch } else { "gfx950"@ }
}

/// The defines by toolchain.
pub open spec fn backends_view(
    isa: Isa,
    arch: Seq<char>,
    g: StageTile,
    f: Features,
    s: ShapesView,
    u: Set<ArmView>,
    t: Tuning,
) -> JsonView {
    JsonView::Obj(
        map![
            "nvcc"@ => lists_view(nvcc_requires(isa, f, s), nvcc_recommends(t)),
            amd_key(arch) => lists_view(
                amd_requires(amd_key(arch), g, f, s, u),
                amd_recommends(t.gf_full, s, u),
            ),
        ],
    )
}

/// The defines by toolchain.
pub fn backends(
    isa: &Isa,
    arch: &str,
    g: StageTile,
    f: &Features,
    s: &Shapes,
    u: &SortedSet<Arm>,
    t: &Tuning,
) -> (r: Json)
    ensures
        r@ == backends_view(*isa, arch@, g, *f, s@, u@, *t),
{
    let key: &str = if starts_with(arch, "gfx") { arch } else { "gfx950" };
    let mut o = Fields::new();
    o.put("nvcc", backend_nvcc(isa, f, t, s));
    o.put(key, backend_amd(key, g, f, s, u, t.gf_full));
    o.done()
}

/// What stands before a list of defines stays before it.
broadcast proof fn flag_goes_on(a: Seq<Seq<char>>, r: Seq<Seq<char>>, wanted: bool, t: Seq<char>)
    ensures
        #[trigger] flag(a + r, wanted, t) == a + flag(r, wanted, t),
{
    assert(flag(a + r, wanted, t) =~= a + flag(r, wanted, t));
}

proof fn arms_go_on(a: Seq<Seq<char>>, has_prefill: bool, f: Features, u: Set<ArmView>)
    ensures
        amd_arms(a, has_prefill, f, u) == a + amd_arms(Seq::empty(), has_prefill, f, u),
{
    broadcast use flag_goes_on;

    reveal(amd_arms);
    assert(a + Seq::<Seq<char>>::empty() =~= a);
}

proof fn operands_go_on(a: Seq<Seq<char>>, r: Seq<Seq<char>>, f: Features, u: Set<ArmView>)
    ensures
        amd_operands(a + r, f, u) == a + amd_operands(r, f, u),
{
    broadcast use flag_goes_on;

    reveal(amd_operands);
}

/// Whether a define sets what it names.
spec fn sets(t: Seq<char>) -> bool {
    t.len() > 0 && t.last() == '1'
}

spec fn all_set(r: Seq<Seq<char>>) -> bool {
    forall|i: int| 0 <= i < r.len() ==> sets(#[trigger] r[i])
}

broadcast proof fn flag_is_set(r: Seq<Seq<char>>, wanted: bool, t: Seq<char>)
    requires
        all_set(r),
        sets(t),
    ensures
        all_set(#[trigger] flag(r, wanted, t)),
{
}

proof fn arms_are_set(f: Features, u: Set<ArmView>)
    ensures
        all_set(amd_arms(Seq::empty(), false, f, u)),
{
    broadcast use flag_is_set;

    reveal(amd_arms);
    reveal_strlit("PLOW_FP8=1");
    reveal_strlit("PLOW_W8A8=1");
    reveal_strlit("PLOW_FP8_KV=1");
    reveal_strlit("PLOW_MXFP4=1");
    reveal_strlit("PLOW_MLA_PREFILL=1");
    reveal_strlit("PLOW_MOE_PREFILL=1");
    reveal_strlit("PLOW_MOE_PF_A4W4=1");
    reveal_strlit("PLOW_KDA_CONV_STEP_DB=1");
    reveal_strlit("PLOW_MATERIALIZED_RESIDUAL_INPUT=1");
    reveal_strlit("PLOW_ATTNRES_DECODE_MWG=1");
    reveal_strlit("PLOW_KDA_CHUNK=1");
    reveal_strlit("PLOW_SEQ_PAR_SEAMS=1");
    reveal_strlit("PLOW_KDA_CHUNK_QPRE=1");
}

proof fn operands_are_set(r: Seq<Seq<char>>, f: Features, u: Set<ArmView>)
    requires
        all_set(r),
    ensures
        all_set(amd_operands(r, f, u)),
{
    broadcast use flag_is_set;

    reveal(amd_operands);
    reveal_strlit("PLOW_MOE_PF_PART16=1");
    reveal_strlit("PLOW_MOE_PF_A8=1");
    reveal_strlit("PLOW_XR_COMBINE_FOLD=1");
    reveal_strlit("PLOW_KDA_FB_FOLD=1");
    reveal_strlit("PLOW_KDA_DECODE_FUSED_ARM=1");
    reveal_strlit("PLOW_MOE_PF_ATOMIC=1");
    reveal_strlit("PLOW_MOE_PF_DET=1");
    reveal_strlit("PLOW_T11_GLUQUANT=1");
    reveal_strlit("PLOW_MLA_PF_NS=1");
    reveal_strlit("PLOW_GLM_OFOLD=1");
    reveal_strlit("PLOW_GLM_FUSE_ROPE=1");
    reveal_strlit("PLOW_GLM_FUSE_QNORM=1");
    reveal_strlit("PLOW_K3=1");
}

/// A gfx942 object of a packet with prefill needs the four defines of its stage and then those of
/// a gfx950 object. Without prefill the two need the same, and neither is told that it decodes
/// nothing.
pub proof fn gfx942_adds_its_stage(g: StageTile, f: Features, s: ShapesView, u: Set<ArmView>)
    ensures
        s.prefill_buckets.len() > 0 ==> amd_requires("gfx942"@, g, f, s, u) == seq![
            "PLOW_WG_WAVES=8"@,
            "GM_DBUF="@ + dec(g.buffers as nat),
            "GM_BM="@ + dec(g.bm as nat),
            "GM_BN="@ + dec(g.bn as nat),
        ] + amd_requires("gfx950"@, g, f, s, u),
        s.prefill_buckets.len() == 0 ==> {
            &&& amd_requires("gfx942"@, g, f, s, u) == amd_requires("gfx950"@, g, f, s, u)
            &&& !amd_requires("gfx950"@, g, f, s, u).contains("PLOW_BUCKET_DECODE=0"@)
        },
{
    reveal_strlit("gfx942");
    reveal_strlit("gfx950");
    assert("gfx942"@[4] != "gfx950"@[4]);
    let pf = s.prefill_buckets.len() > 0;
    let none = Seq::<Seq<char>>::empty();
    let stage = amd_stage(true, g);
    assert(stage =~= seq![
        "PLOW_WG_WAVES=8"@,
        "GM_DBUF="@ + dec(g.buffers as nat),
        "GM_BM="@ + dec(g.bm as nat),
        "GM_BN="@ + dec(g.bn as nat),
    ]);
    assert(amd_stage(false, g) == none);
    arms_go_on(stage, pf, f, u);
    operands_go_on(stage, amd_arms(none, pf, f, u), f, u);
    if !pf {
        arms_are_set(f, u);
        operands_are_set(amd_arms(none, false, f, u), f, u);
        reveal_strlit("PLOW_BUCKET_DECODE=0");
        let r = amd_requires("gfx950"@, g, f, s, u);
        if r.contains("PLOW_BUCKET_DECODE=0"@) {
            let i = choose|i: int| 0 <= i < r.len() && r[i] == "PLOW_BUCKET_DECODE=0"@;
            assert(sets(r[i]));
        }
    }
}

} // verus!
