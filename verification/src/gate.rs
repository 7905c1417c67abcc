//! Checks on an emitted model: what the target's interpreter can run, and what a checkpoint may ask
//! for.
use vstd::prelude::*;

use crate::dense::{progs_view, Program};
use crate::gemm::{fp8_rung, is_fp8_rung, priced_only};
use crate::isa::{DevOp, InstView, TENSOR_NONE};
use crate::text::{begins, dec, push_dec, same_text, starts_with, text};

verus! {

/// Whether the gfx950 interpreter has an arm for an opcode. It writes nothing for one that it has
/// no arm for.
pub open spec fn dispatched(op: DevOp) -> bool {
    match op {
        DevOp::AddNorm
        | DevOp::Argmax
        | DevOp::ArgmaxFin
        | DevOp::AttnRes
        | DevOp::AttnSelect
        | DevOp::DenseGluFp8Blk
        | DevOp::Embed
        | DevOp::FlashDecode
        | DevOp::FlashDecodeFp8
        | DevOp::FlashGatherDecode
        | DevOp::FlashGatherPrefill
        | DevOp::FlashMerge
        | DevOp::FlashMlaDecode
        | DevOp::FlashMlaDecodeFp8
        | DevOp::FlashMlaPrefill
        | DevOp::FlashMlaPrefillFp8
        | DevOp::FlashPrefill
        | DevOp::FlashPrefillFp8
        | DevOp::Gemm
        | DevOp::GemmC5
        | DevOp::GemmC5Fp8
        | DevOp::GemmC5Mxfp4
        | DevOp::GemmFp8
        | DevOp::GemmFp8Blk
        | DevOp::GemmGlu
        | DevOp::GemmGluFp8
        | DevOp::GemmGluMxfp4
        | DevOp::GemmMed
        | DevOp::GemmMedFp8
        | DevOp::GemmMedMxfp4
        | DevOp::GemmMxfp4
        | DevOp::GemmSmall
        | DevOp::GemmSmallFp8
        | DevOp::GemmSmallMxfp4
        | DevOp::GemmWide
        | DevOp::GemmWideFp8
        | DevOp::GemmWideMxfp4
        | DevOp::Gemv
        | DevOp::GemvFp8
        | DevOp::GemvFp8Blk
        | DevOp::GemvGlu
        | DevOp::GemvGluFp8
        | DevOp::GemvGluMxfp4
        | DevOp::GemvMxfp4
        | DevOp::GemvQkv
        | DevOp::GemvQkvFp8
        | DevOp::GemvQkvMxfp4
        | DevOp::GemvQkvg
        | DevOp::Glu
        | DevOp::HeadNormRope
        | DevOp::HeadNormRopeFp8
        | DevOp::IndexScore
        | DevOp::IndexScorePf
        | DevOp::IndexSelect
        | DevOp::IndexSelectPf
        | DevOp::IndexUnionPf
        | DevOp::KdaChunkCarry
        | DevOp::KdaChunkIntra
        | DevOp::KdaChunkPrepare
        | DevOp::KdaChunkWu
        | DevOp::KdaConv
        | DevOp::KdaConv3
        | DevOp::KdaConvStateStepG
        | DevOp::KdaGate
        | DevOp::KdaGatedNorm
        | DevOp::KdaStateStep
        | DevOp::KdaStateStepG
        | DevOp::LayerNorm
        | DevOp::MlaMergeFold
        | DevOp::MlaOutGate
        | DevOp::MoeAlignGemmaPf
        | DevOp::MoeAlignPf
        | DevOp::MoeCombine
        | DevOp::MoeCombineGemma
        | DevOp::MoeCombineNormGemma
        | DevOp::MoeCombineNormGemmaPf
        | DevOp::MoeCombinePf
        | DevOp::MoeCombineResidNormGemma
        | DevOp::MoeExpertDown
        | DevOp::MoeExpertDownFp8Blk
        | DevOp::MoeExpertDownGemma
        | DevOp::MoeExpertDownGemmaFp8
        | DevOp::MoeExpertGlu
        | DevOp::MoeExpertGluFp8Blk
        | DevOp::MoeExpertGluGemma
        | DevOp::MoeExpertGluGemmaFp8
        | DevOp::MoeExpertGluNormGemma
        | DevOp::MoeGroupDownFp8Blk
        | DevOp::MoeGroupDownGemmaPf
        | DevOp::MoeGroupDownGemmaPfW8a8
        | DevOp::MoeGroupDownPf
        | DevOp::MoeGroupGluFp8Blk
        | DevOp::MoeGroupGluGemmaPf
        | DevOp::MoeGroupGluGemmaPfW8a8
        | DevOp::MoeGroupGluPf
        | DevOp::MoeRouter
        | DevOp::MoeRouterGemma
        | DevOp::MoeRouterGemmaPf
        | DevOp::MoeRouterGemmaScore
        | DevOp::MoeRouterGemmaScoreFast
        | DevOp::MoeRouterGemmaTopk
        | DevOp::MoeRouterTopk
        | DevOp::MoeRouterTopkPf
        | DevOp::NormResidual
        | DevOp::NormResidualNorm
        | DevOp::OUvFold
        | DevOp::QuantFp8
        | DevOp::Residual
        | DevOp::RmsNorm
        | DevOp::RowRms
        | DevOp::SituGlu
        | DevOp::SoftCap
        | DevOp::XArgmaxFin
        | DevOp::XFlashMerge
        | DevOp::XReduce
        | DevOp::XReduceAddNorm
        | DevOp::XReduceTwoShot => true,
        _ => false,
    }
}

pub fn gfx950_dispatched(op: DevOp) -> (r: bool)
    ensures
        r == dispatched(op),
{
    match op {
        DevOp::AddNorm
        | DevOp::Argmax
        | DevOp::ArgmaxFin
        | DevOp::AttnRes
        | DevOp::AttnSelect
        | DevOp::DenseGluFp8Blk
        | DevOp::Embed
        | DevOp::FlashDecode
        | DevOp::FlashDecodeFp8
        | DevOp::FlashGatherDecode
        | DevOp::FlashGatherPrefill
        | DevOp::FlashMerge
        | DevOp::FlashMlaDecode
        | DevOp::FlashMlaDecodeFp8
        | DevOp::FlashMlaPrefill
        | DevOp::FlashMlaPrefillFp8
        | DevOp::FlashPrefill
        | DevOp::FlashPrefillFp8
        | DevOp::Gemm
        | DevOp::GemmC5
        | DevOp::GemmC5Fp8
        | DevOp::GemmC5Mxfp4
        | DevOp::GemmFp8
        | DevOp::GemmFp8Blk
        | DevOp::GemmGlu
        | DevOp::GemmGluFp8
        | DevOp::GemmGluMxfp4
        | DevOp::GemmMed
        | DevOp::GemmMedFp8
        | DevOp::GemmMedMxfp4
        | DevOp::GemmMxfp4
        | DevOp::GemmSmall
        | DevOp::GemmSmallFp8
        | DevOp::GemmSmallMxfp4
        | DevOp::GemmWide
        | DevOp::GemmWideFp8
        | DevOp::GemmWideMxfp4
        | DevOp::Gemv
        | DevOp::GemvFp8
        | DevOp::GemvFp8Blk
        | DevOp::GemvGlu
        | DevOp::GemvGluFp8
        | DevOp::GemvGluMxfp4
        | DevOp::GemvMxfp4
        | DevOp::GemvQkv
        | DevOp::GemvQkvFp8
        | DevOp::GemvQkvMxfp4
        | DevOp::GemvQkvg
        | DevOp::Glu
        | DevOp::HeadNormRope
        | DevOp::HeadNormRopeFp8
        | DevOp::IndexScore
        | DevOp::IndexScorePf
        | DevOp::IndexSelect
        | DevOp::IndexSelectPf
        | DevOp::IndexUnionPf
        | DevOp::KdaChunkCarry
        | DevOp::KdaChunkIntra
        | DevOp::KdaChunkPrepare
        | DevOp::KdaChunkWu
        | DevOp::KdaConv
        | DevOp::KdaConv3
        | DevOp::KdaConvStateStepG
        | DevOp::KdaGate
        | DevOp::KdaGatedNorm
        | DevOp::KdaStateStep
        | DevOp::KdaStateStepG
        | DevOp::LayerNorm
        | DevOp::MlaMergeFold
        | DevOp::MlaOutGate
        | DevOp::MoeAlignGemmaPf
        | DevOp::MoeAlignPf
        | DevOp::MoeCombine
        | DevOp::MoeCombineGemma
        | DevOp::MoeCombineNormGemma
        | DevOp::MoeCombineNormGemmaPf
        | DevOp::MoeCombinePf
        | DevOp::MoeCombineResidNormGemma
        | DevOp::MoeExpertDown
        | DevOp::MoeExpertDownFp8Blk
        | DevOp::MoeExpertDownGemma
        | DevOp::MoeExpertDownGemmaFp8
        | DevOp::MoeExpertGlu
        | DevOp::MoeExpertGluFp8Blk
        | DevOp::MoeExpertGluGemma
        | DevOp::MoeExpertGluGemmaFp8
        | DevOp::MoeExpertGluNormGemma
        | DevOp::MoeGroupDownFp8Blk
        | DevOp::MoeGroupDownGemmaPf
        | DevOp::MoeGroupDownGemmaPfW8a8
        | DevOp::MoeGroupDownPf
        | DevOp::MoeGroupGluFp8Blk
        | DevOp::MoeGroupGluGemmaPf
        | DevOp::MoeGroupGluGemmaPfW8a8
        | DevOp::MoeGroupGluPf
        | DevOp::MoeRouter
        | DevOp::MoeRouterGemma
        | DevOp::MoeRouterGemmaPf
        | DevOp::MoeRouterGemmaScore
        | DevOp::MoeRouterGemmaScoreFast
        | DevOp::MoeRouterGemmaTopk
        | DevOp::MoeRouterTopk
        | DevOp::MoeRouterTopkPf
        | DevOp::NormResidual
        | DevOp::NormResidualNorm
        | DevOp::OUvFold
        | DevOp::QuantFp8
        | DevOp::Residual
        | DevOp::RmsNorm
        | DevOp::RowRms
        | DevOp::SituGlu
        | DevOp::SoftCap
        | DevOp::XArgmaxFin
        | DevOp::XFlashMerge
        | DevOp::XReduce
        | DevOp::XReduceAddNorm
        | DevOp::XReduceTwoShot => true,
        _ => false,
    }
}

/// The opcodes of the first `n` instructions for which `bad` holds, behind `acc`, each once, in
/// the order in which they first occur.
pub open spec fn offenders(
    insts: Seq<InstView>,
    bad: spec_fn(DevOp) -> bool,
    acc: Seq<DevOp>,
    n: int,
) -> Seq<DevOp>
    decreases n,
{
    if n <= 0 {
        acc
    } else {
        let s = offenders(insts, bad, acc, n - 1);
        let op = insts[n - 1].op;
        if bad(op) && !s.contains(op) { s.push(op) } else { s }
    }
}

/// The opcodes of the first `n` programs for which `bad` holds.
pub open spec fn model_offenders(
    progs: Seq<Seq<InstView>>,
    bad: spec_fn(DevOp) -> bool,
    n: int,
) -> Seq<DevOp>
    decreases n,
{
    if n <= 0 {
        Seq::empty()
    } else {
        offenders(progs[n - 1], bad, model_offenders(progs, bad, n - 1), progs[n - 1].len() as int)
    }
}

/// Every offending opcode of a model is listed, and every listed opcode occurs in it and offends.
pub proof fn offenders_are_exact(
    progs: Seq<Seq<InstView>>,
    bad: spec_fn(DevOp) -> bool,
    n: int,
    op: DevOp,
)
    requires
        0 <= n <= progs.len(),
    ensures
        model_offenders(progs, bad, n).contains(op) <==> bad(op) && exists|p: int, i: int|
            0 <= p < n && 0 <= i < progs[p].len() && (#[trigger] progs[p][i]).op == op,
    decreases n,
{
    if n > 0 {
        let q = n - 1;
        offenders_are_exact(progs, bad, q, op);
        let acc = model_offenders(progs, bad, q);
        offenders_of_program(progs[q], bad, acc, progs[q].len() as int, op);
        if bad(op) && exists|i: int| 0 <= i < progs[q].len() && (#[trigger] progs[q][i]).op == op {
            let i = choose|i: int| 0 <= i < progs[q].len() && (#[trigger] progs[q][i]).op == op;
            assert(0 <= q < n && progs[q][i].op == op);
        }
    }
}

proof fn offenders_of_program(
    insts: Seq<InstView>,
    bad: spec_fn(DevOp) -> bool,
    acc: Seq<DevOp>,
    n: int,
    op: DevOp,
)
    requires
        0 <= n <= insts.len(),
    ensures
        offenders(insts, bad, acc, n).contains(op) <==> acc.contains(op) || (bad(op) && exists|i: int|
            0 <= i < n && (#[trigger] insts[i]).op == op),
    decreases n,
{
    if n > 0 {
        offenders_of_program(insts, bad, acc, n - 1, op);
        let s = offenders(insts, bad, acc, n - 1);
        let x = insts[n - 1].op;
        if bad(x) && !s.contains(x) {
            let t = s.push(x);
            if s.contains(op) {
                let k = choose|k: int| 0 <= k < s.len() && s[k] == op;
                assert(t[k] == op);
            }
            if t.contains(op) && !s.contains(op) {
                let k = choose|k: int| 0 <= k < t.len() && t[k] == op;
                assert(k == s.len());
            }
            assert(t[s.len() as int] == x);
        }
    }
}

fn has_op(s: &Vec<DevOp>, op: DevOp) -> (r: bool)
    ensures
        r == s@.contains(op),
{
    let mut i: usize = 0;
    while i < s.len()
        invariant
            i <= s@.len(),
            forall|j: int| 0 <= j < i ==> s@[j] != op,
        decreases s@.len() - i,
    {
        if s[i] == op {
            return true;
        }
        i = i + 1;
    }
    false
}

/// Which opcodes a coverage check looks for.
#[derive(Clone, Copy, PartialEq, Eq, Debug, Structural)]
enum Coverage {
    NoGfx950Arm,
    PricedTile,
}

spec fn uncovered(w: Coverage) -> spec_fn(DevOp) -> bool {
    match w {
        Coverage::NoGfx950Arm => |op: DevOp| !dispatched(op),
        Coverage::PricedTile => |op: DevOp| priced_only(op),
    }
}

fn is_uncovered(w: Coverage, op: DevOp) -> (r: bool)
    ensures
        r == uncovered(w)(op),
{
    match w {
        Coverage::NoGfx950Arm => !gfx950_dispatched(op),
        Coverage::PricedTile => op == DevOp::GemmWide || op == DevOp::GemmWideFp8 || op
            == DevOp::GemmWideMxfp4 || op == DevOp::GemmC5 || op == DevOp::GemmC5Fp8 || op
            == DevOp::GemmC5Mxfp4,
    }
}

fn collect_uncovered(progs: &Vec<Program>, w: Coverage) -> (r: Vec<DevOp>)
    ensures
        r@ == model_offenders(progs_view(progs@), uncovered(w), progs@.len() as int),
{
    let ghost pv = progs_view(progs@);
    let mut r: Vec<DevOp> = Vec::new();
    let mut p: usize = 0;
    while p < progs.len()
        invariant
            p <= progs@.len(),
            pv == progs_view(progs@),
            r@ == model_offenders(pv, uncovered(w), p as int),
        decreases progs@.len() - p,
    {
        let insts = &progs[p].insts;
        let ghost acc = r@;
        let mut i: usize = 0;
        while i < insts.len()
            invariant
                p < progs@.len(),
                pv == progs_view(progs@),
                insts@ == progs@[p as int].insts@,
                i <= insts@.len(),
                r@ == offenders(pv[p as int], uncovered(w), acc, i as int),
            decreases insts@.len() - i,
        {
            let op: DevOp = insts[i].op;
            proof {
                assert(pv[p as int][i as int].op == op);
            }
            if is_uncovered(w, op) && !has_op(&r, op) {
                r.push(op);
            }
            i = i + 1;
        }
        p = p + 1;
    }
    r
}

/// The opcodes of a model that the gfx950 interpreter has no arm for.
pub open spec fn unarmed(progs: Seq<Seq<InstView>>) -> Seq<DevOp> {
    model_offenders(progs, |op: DevOp| !dispatched(op), progs.len() as int)
}

/// Refuses a model for an AMD target that carries an opcode without an arm, and lists them.
pub fn check_gfx950_opcode_coverage(progs: &Vec<Program>, amd: bool) -> (r: Result<(), Vec<DevOp>>)
    ensures
        match r {
            Ok(_) => !amd || unarmed(progs_view(progs@)).len() == 0,
            Err(ops) => amd && ops@ == unarmed(progs_view(progs@)) && ops@.len() > 0,
        },
{
    if !amd {
        return Ok(());
    }
    let missing: Vec<DevOp> = collect_uncovered(progs, Coverage::NoGfx950Arm);
    if missing.len() == 0 {
        Ok(())
    } else {
        Err(missing)
    }
}

/// The tiles of a model that only the priced target has.
pub open spec fn foreign_tiles(progs: Seq<Seq<InstView>>) -> Seq<DevOp> {
    model_offenders(progs, |op: DevOp| priced_only(op), progs.len() as int)
}

/// Refuses a model for another target that carries a tile of the priced target, and lists them.
pub fn check_nvidia_opcode_coverage(progs: &Vec<Program>, amd: bool) -> (r: Result<(), Vec<DevOp>>)
    ensures
        match r {
            Ok(_) => amd || foreign_tiles(progs_view(progs@)).len() == 0,
            Err(ops) => !amd && ops@ == foreign_tiles(progs_view(progs@)) && ops@.len() > 0,
        },
{
    if amd {
        return Ok(());
    }
    let bad: Vec<DevOp> = collect_uncovered(progs, Coverage::PricedTile);
    if bad.len() == 0 {
        Ok(())
    } else {
        Err(bad)
    }
}

/// Whether an instruction routes within groups of experts: fewer groups are kept than there are.
pub open spec fn routes_in_groups(i: InstView) -> bool {
    (i.op == DevOp::MoeRouterTopk || i.op == DevOp::MoeRouterTopkPf) && i.args.i6 > 1 && i.args.i7
        < i.args.i6
}

/// Whether a narrow tiled product has no activation scale.
pub open spec fn lacks_scale(i: InstView) -> bool {
    is_fp8_rung(i.op) && i.args.t3 == TENSOR_NONE
}

/// A place in a model: a program and an instruction of it.
#[derive(Clone, Copy, PartialEq, Eq, Debug, Structural)]
pub struct At {
    pub prog: usize,
    pub inst: usize,
}

/// Whether `a` lies in the model.
pub open spec fn lies_in(progs: Seq<Seq<InstView>>, a: At) -> bool {
    a.prog < progs.len() && a.inst < progs[a.prog as int].len()
}

/// Whether nothing in front of `a` satisfies `bad`.
pub open spec fn first_at(
    progs: Seq<Seq<InstView>>,
    bad: spec_fn(InstView) -> bool,
    a: At,
) -> bool {
    forall|p: int, i: int|
        0 <= p < progs.len() && 0 <= i < progs[p].len() && (p < a.prog || (p == a.prog && i
            < a.inst)) ==> !bad(#[trigger] progs[p][i])
}

/// Whether nothing in the model satisfies `bad`.
pub open spec fn none_in(progs: Seq<Seq<InstView>>, bad: spec_fn(InstView) -> bool) -> bool {
    forall|p: int, i: int|
        0 <= p < progs.len() && 0 <= i < progs[p].len() ==> !bad(#[trigger] progs[p][i])
}

/// The instruction routes of the first grouped router of a model for a target whose routers ignore
/// groups: its place, its groups, the groups kept, and the experts chosen.
#[derive(Clone, Copy, PartialEq, Eq, Debug, Structural)]
pub struct GroupRouting {
    pub at: At,
    pub n_group: u32,
    pub topk_group: u32,
    pub top_k: u32,
}

/// Refuses a model that routes within groups for a target other than AMD.
pub fn check_group_routing_supported(progs: &Vec<Program>, amd: bool) -> (r: Result<(), GroupRouting>)
    ensures
        ({
            let pv = progs_view(progs@);
            let bad = |i: InstView| routes_in_groups(i);
            match r {
                Ok(_) => amd || none_in(pv, bad),
                Err(g) => {
                    &&& !amd
                    &&& lies_in(pv, g.at)
                    &&& first_at(pv, bad, g.at)
                    &&& routes_in_groups(pv[g.at.prog as int][g.at.inst as int])
                    &&& g.n_group == pv[g.at.prog as int][g.at.inst as int].args.i6
                    &&& g.topk_group == pv[g.at.prog as int][g.at.inst as int].args.i7
                    &&& g.top_k == pv[g.at.prog as int][g.at.inst as int].args.i2
                },
            }
        }),
{
    if amd {
        return Ok(());
    }
    let ghost pv = progs_view(progs@);
    let ghost bad = |i: InstView| routes_in_groups(i);
    let mut p: usize = 0;
    while p < progs.len()
        invariant
            p <= progs@.len(),
            pv == progs_view(progs@),
            bad == (|i: InstView| routes_in_groups(i)),
            !amd,
            forall|a: int, b: int|
                0 <= a < p && 0 <= b < pv[a].len() ==> !bad(#[trigger] pv[a][b]),
        decreases progs@.len() - p,
    {
        let insts = &progs[p].insts;
        let mut i: usize = 0;
        while i < insts.len()
            invariant
                p < progs@.len(),
                pv == progs_view(progs@),
                bad == (|i: InstView| routes_in_groups(i)),
                !amd,
                insts@ == progs@[p as int].insts@,
                i <= insts@.len(),
                forall|a: int, b: int|
                    0 <= a < p && 0 <= b < pv[a].len() ==> !bad(#[trigger] pv[a][b]),
                forall|b: int| 0 <= b < i ==> !bad(#[trigger] pv[p as int][b]),
            decreases insts@.len() - i,
        {
            let x = &insts[i];
            proof {
                assert(pv[p as int][i as int] == x@);
            }
            if (x.op == DevOp::MoeRouterTopk || x.op == DevOp::MoeRouterTopkPf) && x.args.i6 > 1
                && x.args.i7 < x.args.i6 {
                return Err(
                    GroupRouting {
                        at: At { prog: p, inst: i },
                        n_group: x.args.i6,
                        topk_group: x.args.i7,
                        top_k: x.args.i2,
                    },
                );
            }
            i = i + 1;
        }
        p = p + 1;
    }
    Ok(())
}

/// Whether a target is AMD: by its architecture's name, or by its device's vendor.
pub open spec fn amd_target_of(arch: Seq<char>, gpu_is_amd: bool) -> bool {
    begins(arch, "gfx"@) || gpu_is_amd
}

/// Whether a target is AMD. `gpu_is_amd` is what the device registry says of the device's vendor;
/// either sign is enough.
pub fn target_is_amd(arch: &str, gpu_is_amd: bool) -> (r: bool)
    ensures
        r == amd_target_of(arch@, gpu_is_amd),
{
    starts_with(arch, "gfx") || gpu_is_amd
}

/// Refuses a model for an AMD target whose narrow tiled products have no activation scale, and
/// gives the place of the first.
pub fn check_fp8_a_scale_bound(progs: &Vec<Program>, arch: &str, gpu_is_amd: bool) -> (r: Result<
    (),
    At,
>)
    ensures
        ({
            let pv = progs_view(progs@);
            let bad = |i: InstView| lacks_scale(i);
            match r {
                Ok(_) => !amd_target_of(arch@, gpu_is_amd) || none_in(pv, bad),
                Err(a) => {
                    &&& amd_target_of(arch@, gpu_is_amd)
                    &&& lies_in(pv, a)
                    &&& first_at(pv, bad, a)
                    &&& lacks_scale(pv[a.prog as int][a.inst as int])
                },
            }
        }),
{
    if !target_is_amd(arch, gpu_is_amd) {
        return Ok(());
    }
    let ghost pv = progs_view(progs@);
    let ghost bad = |i: InstView| lacks_scale(i);
    let mut p: usize = 0;
    while p < progs.len()
        invariant
            p <= progs@.len(),
            pv == progs_view(progs@),
            bad == (|i: InstView| lacks_scale(i)),
            amd_target_of(arch@, gpu_is_amd),
            forall|a: int, b: int|
                0 <= a < p && 0 <= b < pv[a].len() ==> !bad(#[trigger] pv[a][b]),
        decreases progs@.len() - p,
    {
        let insts = &progs[p].insts;
        let mut i: usize = 0;
        while i < insts.len()
            invariant
                p < progs@.len(),
                pv == progs_view(progs@),
                bad == (|i: InstView| lacks_scale(i)),
                insts@ == progs@[p as int].insts@,
                i <= insts@.len(),
                amd_target_of(arch@, gpu_is_amd),
                forall|a: int, b: int|
                    0 <= a < p && 0 <= b < pv[a].len() ==> !bad(#[trigger] pv[a][b]),
                forall|b: int| 0 <= b < i ==> !bad(#[trigger] pv[p as int][b]),
            decreases insts@.len() - i,
        {
            let x = &insts[i];
            proof {
                assert(pv[p as int][i as int] == x@);
            }
            if fp8_rung(x.op) && x.args.t3 == TENSOR_NONE {
                return Err(At { prog: p, inst: i });
            }
            i = i + 1;
        }
        p = p + 1;
    }
    Ok(())
}

/// Whether an architecture and a device name different vendors, where the device is known.
pub fn arch_gpu_vendors_differ(arch: &str, gpu_is_amd: Option<bool>) -> (r: bool)
    ensures
        r == (match gpu_is_amd {
            None => false,
            Some(amd) => (begins(arch@, "gfx"@) && !amd) || (begins(arch@, "sm_"@) && amd),
        }),
{
    match gpu_is_amd {
        None => false,
        Some(amd) => (starts_with(arch, "gfx") && !amd) || (starts_with(arch, "sm_") && amd),
    }
}

/// Whether the choice of one segment is to be ignored: it would undo the split into wave classes
/// that an AMD host launches by.
pub fn uniseg_is_ignored(amd: bool, uniseg: bool) -> (r: bool)
    ensures
        r == (amd && uniseg),
{
    amd && uniseg
}

/// The most experts that a router chooses for a row.
pub const MOE_MAX_TOPK: u32 = 16;

/// What is said of a model whose router chooses more experts than the kernels select into.
pub open spec fn topk_refusal(model: Seq<char>, top_k: nat) -> Seq<char> {
    model + ": top_k = "@ + dec(top_k) + topk_middle() + dec(top_k) + topk_experts() + dec(
        (top_k - MOE_MAX_TOPK) as nat,
    ) + topk_end()
}

/// The refusal between the experts that a model chooses, each time they are named.
pub open spec fn topk_middle() -> Seq<char> {
    " exceeds PLOW_MOE_MAX_TOPK = 16, the width both AMD MoE routers select into (runtime/amd/op_moe.h). Emitting anyway would route to the top 16 of "@
}

/// The refusal behind the experts that a model chooses.
pub open spec fn topk_experts() -> Seq<char> {
    " experts, renormalise the gates over that subset, and leave the remaining "@
}

/// The refusal behind the experts that have no room.
pub open spec fn topk_end() -> Seq<char> {
    " table slots unwritten for the expert bodies to read as uninitialised scratch — a model that is fluent and wrong, with nothing at runtime to say so. Raise PLOW_MOE_MAX_TOPK and devgen::MOE_MAX_TOPK together (a drift test enforces the pair) after re-checking the LDS carve at op_moe.h and the megakernel's register budget."@
}

/// Refuses a model whose router chooses more experts than the kernels select into.
pub fn require_moe_topk(top_k: u32, model: &str) -> (r: Result<(), String>)
    ensures
        match r {
            Ok(_) => top_k <= MOE_MAX_TOPK,
            Err(m) => top_k > MOE_MAX_TOPK && m@ == topk_refusal(model@, top_k as nat),
        },
{
    if top_k <= MOE_MAX_TOPK {
        return Ok(());
    }
    let mut m: String = text(model);
    m.append(": top_k = ");
    push_dec(&mut m, top_k as u64);
    m.append(
        " exceeds PLOW_MOE_MAX_TOPK = 16, the width both AMD MoE routers select into (runtime/amd/op_moe.h). Emitting anyway would route to the top 16 of ",
    );
    push_dec(&mut m, top_k as u64);
    m.append(" experts, renormalise the gates over that subset, and leave the remaining ");
    push_dec(&mut m, (top_k - MOE_MAX_TOPK) as u64);
    m.append(
        " table slots unwritten for the expert bodies to read as uninitialised scratch — a model that is fluent and wrong, with nothing at runtime to say so. Raise PLOW_MOE_MAX_TOPK and devgen::MOE_MAX_TOPK together (a drift test enforces the pair) after re-checking the LDS carve at op_moe.h and the megakernel's register budget.",
    );
    Err(m)
}

/// Why a latent-attention model's rotation is refused.
#[derive(Clone, Copy, PartialEq, Eq, Debug, Structural)]
pub enum RopeError {
    /// The model has no positional encoding, and gives no base either.
    NoPositions,
    /// The model says that it has no positional encoding, and gives a base.
    Contradiction,
    /// No base is given.
    NoTheta,
    /// The base is not a finite number above one.
    UnusableTheta,
    /// The rotation is scaled, and the tables are not.
    Scaled,
}

/// The bit pattern of `1.0f64`, and of the infinite one.
pub const F64_ONE: u64 = 0x3ff0_0000_0000_0000;
pub const F64_INF: u64 = 0x7ff0_0000_0000_0000;

/// Whether a number, given by its bit pattern, is finite and above one.
pub open spec fn usable_theta(bits: u64) -> bool {
    F64_ONE < bits < F64_INF
}

/// What is wrong with a latent-attention model's rotation, if anything: `theta` is the bit pattern
/// of its base.
pub open spec fn rope_fault(
    theta: Option<u64>,
    use_nope: bool,
    rope_type: Option<Seq<char>>,
    scaled: bool,
) -> Option<RopeError> {
    match theta {
        Some(t) => if use_nope {
            Some(RopeError::Contradiction)
        } else if !usable_theta(t) {
            Some(RopeError::UnusableTheta)
        } else if scaled || !(match rope_type {
            None => true,
            Some(s) => s == "default"@,
        }) {
            Some(RopeError::Scaled)
        } else {
            None
        },
        None => if use_nope {
            Some(RopeError::NoPositions)
        } else {
            Some(RopeError::NoTheta)
        },
    }
}

/// Accepts a latent-attention model whose rotation the tables can express: it gives a base, does
/// not say that it has no positions, and does not scale.
pub fn require_mla_rope(
    theta: Option<u64>,
    use_nope: bool,
    rope_type: Option<&str>,
    has_rope_scaling: bool,
) -> (r: Result<(), RopeError>)
    ensures
        ({
            let rt = match rope_type {
                Some(s) => Some(s@),
                None => None,
            };
            match r {
                Ok(_) => rope_fault(theta, use_nope, rt, has_rope_scaling) is None,
                Err(e) => rope_fault(theta, use_nope, rt, has_rope_scaling) == Some(e),
            }
        }),
{
    let t: u64 = match theta {
        Some(t) => t,
        None => {
            return Err(if use_nope { RopeError::NoPositions } else { RopeError::NoTheta });
        },
    };
    if use_nope {
        return Err(RopeError::Contradiction);
    }
    if !(F64_ONE < t && t < F64_INF) {
        return Err(RopeError::UnusableTheta);
    }
    let plain: bool = match rope_type {
        None => true,
        Some(s) => same_text(s, "default"),
    };
    if has_rope_scaling || !plain {
        return Err(RopeError::Scaled);
    }
    Ok(())
}

/// Why a latent-attention model's shape is refused.
#[derive(Clone, Copy, PartialEq, Eq, Debug, Structural)]
pub enum GeometryError {
    /// The latent width is not the one that the kernels are built at.
    Latent,
    /// No kernel is qualified for the rotated width.
    Rope,
    /// The value width does not come in fours, or is none.
    Value,
}

/// The latent width that the kernels are built at.
pub const MLA_LATENT: u32 = 512;

/// What is wrong with the widths of a latent head, if anything, the first of them: the latent, the
/// rotated and the value width.
pub open spec fn geometry_fault(dk: u32, dr: u32, vd: u32) -> Option<GeometryError> {
    if dk != MLA_LATENT {
        Some(GeometryError::Latent)
    } else if dr != 0 && dr != 64 {
        Some(GeometryError::Rope)
    } else if vd == 0 || vd % 4 != 0 {
        Some(GeometryError::Value)
    } else {
        None
    }
}

/// Accepts a latent-attention shape that the kernels are built for: latent width, rotated width
/// and value width of a head.
pub fn require_mla_geometry(dk: u32, dr: u32, vd: u32) -> (r: Result<(), GeometryError>)
    ensures
        match r {
            Ok(_) => dk == MLA_LATENT && (dr == 0 || dr == 64) && vd > 0 && vd % 4 == 0,
            Err(GeometryError::Latent) => dk != MLA_LATENT,
            Err(GeometryError::Rope) => dk == MLA_LATENT && dr != 0 && dr != 64,
            Err(GeometryError::Value) => dk == MLA_LATENT && (dr == 0 || dr == 64) && (vd == 0 || vd
                % 4 != 0),
        },
        r == (match geometry_fault(dk, dr, vd) {
            Some(e) => Err::<(), GeometryError>(e),
            None => Ok(()),
        }),
{
    if dk != MLA_LATENT {
        Err(GeometryError::Latent)
    } else if dr != 0 && dr != 64 {
        Err(GeometryError::Rope)
    } else if vd == 0 || vd % 4 != 0 {
        Err(GeometryError::Value)
    } else {
        Ok(())
    }
}

} // verus!
