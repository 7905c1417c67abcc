//! The opcodes' names, the bodies that instructions reach, and the segments of programs.
use vstd::prelude::*;

use crate::arms::{
    arm_at, arm_hd, arm_key, arm_variant, domains_of, packet_rows, program_row, program_rows,
    rows_upto, segment_at, segment_count, segments_of, segments_upto, single_segment, window,
    window_arms, window_insts, ArmView, Packet, PacketProgram, StreamEnt,
};
use crate::isa::{Args, DevOp};
use crate::opcodes::{name_of, op_text, opcode_index, Isa, Opcode};
use crate::text::{dec, hex};

verus! {

/// A text behind another that may be there.
pub open spec fn joined(a: Option<Seq<char>>, t: Seq<char>) -> Option<Seq<char>> {
    match a {
        Some(s) => Some(s + t),
        None => None,
    }
}

/// The form of an opcode that reads weights in another encoding has the opcode's name, with the
/// encoding's behind it.
pub proof fn encodings_are_named_behind_their_opcodes()
    ensures
        op_text(DevOp::FlashDecodeFp8) == joined(op_text(DevOp::FlashDecode), "Fp8"@),
        op_text(DevOp::FlashMlaDecodeFp8) == joined(op_text(DevOp::FlashMlaDecode), "Fp8"@),
        op_text(DevOp::FlashMlaPrefillFp8) == joined(op_text(DevOp::FlashMlaPrefill), "Fp8"@),
        op_text(DevOp::FlashPrefillFp8) == joined(op_text(DevOp::FlashPrefill), "Fp8"@),
        op_text(DevOp::GemmFp8) == joined(op_text(DevOp::Gemm), "Fp8"@),
        op_text(DevOp::GemmC5Fp8) == joined(op_text(DevOp::GemmC5), "Fp8"@),
        op_text(DevOp::GemmGluFp8) == joined(op_text(DevOp::GemmGlu), "Fp8"@),
        op_text(DevOp::GemmMedFp8) == joined(op_text(DevOp::GemmMed), "Fp8"@),
        op_text(DevOp::GemmSmallFp8) == joined(op_text(DevOp::GemmSmall), "Fp8"@),
        op_text(DevOp::GemmWideFp8) == joined(op_text(DevOp::GemmWide), "Fp8"@),
        op_text(DevOp::GemvFp8) == joined(op_text(DevOp::Gemv), "Fp8"@),
        op_text(DevOp::GemvGluFp8) == joined(op_text(DevOp::GemvGlu), "Fp8"@),
        op_text(DevOp::GemvQkvFp8) == joined(op_text(DevOp::GemvQkv), "Fp8"@),
        op_text(DevOp::HeadNormRopeFp8) == joined(op_text(DevOp::HeadNormRope), "Fp8"@),
        op_text(DevOp::MoeExpertDownGemmaFp8) == joined(op_text(DevOp::MoeExpertDownGemma), "Fp8"@),
        op_text(DevOp::MoeExpertGluGemmaFp8) == joined(op_text(DevOp::MoeExpertGluGemma), "Fp8"@),
        op_text(DevOp::GemmMxfp4) == joined(op_text(DevOp::Gemm), "Mxfp4"@),
        op_text(DevOp::GemmC5Mxfp4) == joined(op_text(DevOp::GemmC5), "Mxfp4"@),
        op_text(DevOp::GemmGluMxfp4) == joined(op_text(DevOp::GemmGlu), "Mxfp4"@),
        op_text(DevOp::GemmMedMxfp4) == joined(op_text(DevOp::GemmMed), "Mxfp4"@),
        op_text(DevOp::GemmSmallMxfp4) == joined(op_text(DevOp::GemmSmall), "Mxfp4"@),
        op_text(DevOp::GemmWideMxfp4) == joined(op_text(DevOp::GemmWide), "Mxfp4"@),
        op_text(DevOp::GemvMxfp4) == joined(op_text(DevOp::Gemv), "Mxfp4"@),
        op_text(DevOp::GemvGluMxfp4) == joined(op_text(DevOp::GemvGlu), "Mxfp4"@),
        op_text(DevOp::GemvQkvMxfp4) == joined(op_text(DevOp::GemvQkv), "Mxfp4"@),
        op_text(DevOp::GemmFp8Blk) == joined(op_text(DevOp::Gemm), "Fp8Blk"@),
        op_text(DevOp::GemvFp8Blk) == joined(op_text(DevOp::Gemv), "Fp8Blk"@),
        op_text(DevOp::MoeExpertDownFp8Blk) == joined(op_text(DevOp::MoeExpertDown), "Fp8Blk"@),
        op_text(DevOp::MoeExpertGluFp8Blk) == joined(op_text(DevOp::MoeExpertGlu), "Fp8Blk"@),
{
    reveal_strlit("FlashDecode");
    reveal_strlit("Fp8");
    reveal_strlit("FlashDecodeFp8");
    reveal_strlit("FlashMlaDecode");
    reveal_strlit("FlashMlaDecodeFp8");
    reveal_strlit("FlashMlaPrefill");
    reveal_strlit("FlashMlaPrefillFp8");
    reveal_strlit("FlashPrefill");
    reveal_strlit("FlashPrefillFp8");
    reveal_strlit("Gemm");
    reveal_strlit("GemmFp8");
    reveal_strlit("GemmC5");
    reveal_strlit("GemmC5Fp8");
    reveal_strlit("GemmGlu");
    reveal_strlit("GemmGluFp8");
    reveal_strlit("GemmMed");
    reveal_strlit("GemmMedFp8");
    reveal_strlit("GemmSmall");
    reveal_strlit("GemmSmallFp8");
    reveal_strlit("GemmWide");
    reveal_strlit("GemmWideFp8");
    reveal_strlit("Gemv");
    reveal_strlit("GemvFp8");
    reveal_strlit("GemvGlu");
    reveal_strlit("GemvGluFp8");
    reveal_strlit("GemvQkv");
    reveal_strlit("GemvQkvFp8");
    reveal_strlit("HeadNormRope");
    reveal_strlit("HeadNormRopeFp8");
    reveal_strlit("MoeExpertDownGemma");
    reveal_strlit("MoeExpertDownGemmaFp8");
    reveal_strlit("MoeExpertGluGemma");
    reveal_strlit("MoeExpertGluGemmaFp8");
    reveal_strlit("Mxfp4");
    reveal_strlit("GemmMxfp4");
    reveal_strlit("GemmC5Mxfp4");
    reveal_strlit("GemmGluMxfp4");
    reveal_strlit("GemmMedMxfp4");
    reveal_strlit("GemmSmallMxfp4");
    reveal_strlit("GemmWideMxfp4");
    reveal_strlit("GemvMxfp4");
    reveal_strlit("GemvGluMxfp4");
    reveal_strlit("GemvQkvMxfp4");
    reveal_strlit("Fp8Blk");
    reveal_strlit("GemmFp8Blk");
    reveal_strlit("GemvFp8Blk");
    reveal_strlit("MoeExpertDown");
    reveal_strlit("MoeExpertDownFp8Blk");
    reveal_strlit("MoeExpertGlu");
    reveal_strlit("MoeExpertGluFp8Blk");
    assert("FlashDecodeFp8"@ =~= "FlashDecode"@ + "Fp8"@);
    assert("FlashMlaDecodeFp8"@ =~= "FlashMlaDecode"@ + "Fp8"@);
    assert("FlashMlaPrefillFp8"@ =~= "FlashMlaPrefill"@ + "Fp8"@);
    assert("FlashPrefillFp8"@ =~= "FlashPrefill"@ + "Fp8"@);
    assert("GemmFp8"@ =~= "Gemm"@ + "Fp8"@);
    assert("GemmC5Fp8"@ =~= "GemmC5"@ + "Fp8"@);
    assert("GemmGluFp8"@ =~= "GemmGlu"@ + "Fp8"@);
    assert("GemmMedFp8"@ =~= "GemmMed"@ + "Fp8"@);
    assert("GemmSmallFp8"@ =~= "GemmSmall"@ + "Fp8"@);
    assert("GemmWideFp8"@ =~= "GemmWide"@ + "Fp8"@);
    assert("GemvFp8"@ =~= "Gemv"@ + "Fp8"@);
    assert("GemvGluFp8"@ =~= "GemvGlu"@ + "Fp8"@);
    assert("GemvQkvFp8"@ =~= "GemvQkv"@ + "Fp8"@);
    assert("HeadNormRopeFp8"@ =~= "HeadNormRope"@ + "Fp8"@);
    assert("MoeExpertDownGemmaFp8"@ =~= "MoeExpertDownGemma"@ + "Fp8"@);
    assert("MoeExpertGluGemmaFp8"@ =~= "MoeExpertGluGemma"@ + "Fp8"@);
    assert("GemmMxfp4"@ =~= "Gemm"@ + "Mxfp4"@);
    assert("GemmC5Mxfp4"@ =~= "GemmC5"@ + "Mxfp4"@);
    assert("GemmGluMxfp4"@ =~= "GemmGlu"@ + "Mxfp4"@);
    assert("GemmMedMxfp4"@ =~= "GemmMed"@ + "Mxfp4"@);
    assert("GemmSmallMxfp4"@ =~= "GemmSmall"@ + "Mxfp4"@);
    assert("GemmWideMxfp4"@ =~= "GemmWide"@ + "Mxfp4"@);
    assert("GemvMxfp4"@ =~= "Gemv"@ + "Mxfp4"@);
    assert("GemvGluMxfp4"@ =~= "GemvGlu"@ + "Mxfp4"@);
    assert("GemvQkvMxfp4"@ =~= "GemvQkv"@ + "Mxfp4"@);
    assert("GemmFp8Blk"@ =~= "Gemm"@ + "Fp8Blk"@);
    assert("GemvFp8Blk"@ =~= "Gemv"@ + "Fp8Blk"@);
    assert("MoeExpertDownFp8Blk"@ =~= "MoeExpertDown"@ + "Fp8Blk"@);
    assert("MoeExpertGluFp8Blk"@ =~= "MoeExpertGlu"@ + "Fp8Blk"@);
}

/// Every opcode is called what it is, and of one that has no name here the table tells it: the first
/// entry for it does, and an opcode with no entry has no name.
pub proof fn opcodes_are_called_what_they_are(isa: Isa, n: u16, i: int)
    ensures
        op_text(DevOp::AddNorm) == Some("AddNorm"@),
        op_text(DevOp::Argmax) == Some("Argmax"@),
        op_text(DevOp::ArgmaxFin) == Some("ArgmaxFin"@),
        op_text(DevOp::AttnRes) == Some("AttnRes"@),
        op_text(DevOp::AttnSelect) == Some("AttnSelect"@),
        op_text(DevOp::DenseGluFp8Blk) == Some("DenseGluFp8Blk"@),
        op_text(DevOp::Embed) == Some("Embed"@),
        op_text(DevOp::FlashDecode) == Some("FlashDecode"@),
        op_text(DevOp::FlashDecodeFp8) == Some("FlashDecodeFp8"@),
        op_text(DevOp::FlashGatherDecode) == Some("FlashGatherDecode"@),
        op_text(DevOp::FlashGatherPrefill) == Some("FlashGatherPrefill"@),
        op_text(DevOp::FlashMerge) == Some("FlashMerge"@),
        op_text(DevOp::FlashMlaDecode) == Some("FlashMlaDecode"@),
        op_text(DevOp::FlashMlaDecodeFp8) == Some("FlashMlaDecodeFp8"@),
        op_text(DevOp::FlashMlaPrefill) == Some("FlashMlaPrefill"@),
        op_text(DevOp::FlashMlaPrefillFp8) == Some("FlashMlaPrefillFp8"@),
        op_text(DevOp::FlashPrefill) == Some("FlashPrefill"@),
        op_text(DevOp::FlashPrefillFp8) == Some("FlashPrefillFp8"@),
        op_text(DevOp::Gemm) == Some("Gemm"@),
        op_text(DevOp::GemmC5) == Some("GemmC5"@),
        op_text(DevOp::GemmC5Fp8) == Some("GemmC5Fp8"@),
        op_text(DevOp::GemmC5Mxfp4) == Some("GemmC5Mxfp4"@),
        op_text(DevOp::GemmFp8) == Some("GemmFp8"@),
        op_text(DevOp::GemmFp8Blk) == Some("GemmFp8Blk"@),
        op_text(DevOp::GemmGlu) == Some("GemmGlu"@),
        op_text(DevOp::GemmGluFp8) == Some("GemmGluFp8"@),
        op_text(DevOp::GemmGluMxfp4) == Some("GemmGluMxfp4"@),
        op_text(DevOp::GemmMed) == Some("GemmMed"@),
        op_text(DevOp::GemmMedFp8) == Some("GemmMedFp8"@),
        op_text(DevOp::GemmMedMxfp4) == Some("GemmMedMxfp4"@),
        op_text(DevOp::GemmMxfp4) == Some("GemmMxfp4"@),
        op_text(DevOp::GemmSmall) == Some("GemmSmall"@),
        op_text(DevOp::GemmSmallFp8) == Some("GemmSmallFp8"@),
        op_text(DevOp::GemmSmallMxfp4) == Some("GemmSmallMxfp4"@),
        op_text(DevOp::GemmWide) == Some("GemmWide"@),
        op_text(DevOp::GemmWideFp8) == Some("GemmWideFp8"@),
        op_text(DevOp::GemmWideMxfp4) == Some("GemmWideMxfp4"@),
        op_text(DevOp::Gemv) == Some("Gemv"@),
        op_text(DevOp::GemvArgmax) == Some("GemvArgmax"@),
        op_text(DevOp::GemvFp8) == Some("GemvFp8"@),
        op_text(DevOp::GemvFp8Blk) == Some("GemvFp8Blk"@),
        op_text(DevOp::GemvGlu) == Some("GemvGlu"@),
        op_text(DevOp::GemvGluFp8) == Some("GemvGluFp8"@),
        op_text(DevOp::GemvGluMxfp4) == Some("GemvGluMxfp4"@),
        op_text(DevOp::GemvMxfp4) == Some("GemvMxfp4"@),
        op_text(DevOp::GemvQkv) == Some("GemvQkv"@),
        op_text(DevOp::GemvQkvFp8) == Some("GemvQkvFp8"@),
        op_text(DevOp::GemvQkvMxfp4) == Some("GemvQkvMxfp4"@),
        op_text(DevOp::GemvQkvg) == Some("GemvQkvg"@),
        op_text(DevOp::Glu) == Some("Glu"@),
        op_text(DevOp::HeadNormRope) == Some("HeadNormRope"@),
        op_text(DevOp::HeadNormRopeFp8) == Some("HeadNormRopeFp8"@),
        op_text(DevOp::IndexScore) == Some("IndexScore"@),
        op_text(DevOp::IndexScorePf) == Some("IndexScorePf"@),
        op_text(DevOp::IndexSelect) == Some("IndexSelect"@),
        op_text(DevOp::IndexSelectPf) == Some("IndexSelectPf"@),
        op_text(DevOp::IndexUnionPf) == Some("IndexUnionPf"@),
        op_text(DevOp::KdaChunkCarry) == Some("KdaChunkCarry"@),
        op_text(DevOp::KdaChunkIntra) == Some("KdaChunkIntra"@),
        op_text(DevOp::KdaChunkPrepare) == Some("KdaChunkPrepare"@),
        op_text(DevOp::KdaChunkWu) == Some("KdaChunkWu"@),
        op_text(DevOp::KdaConv) == Some("KdaConv"@),
        op_text(DevOp::KdaConv3) == Some("KdaConv3"@),
        op_text(DevOp::KdaConvStateStepG) == Some("KdaConvStateStepG"@),
        op_text(DevOp::KdaDecodeFused) == Some("KdaDecodeFused"@),
        op_text(DevOp::KdaGate) == Some("KdaGate"@),
        op_text(DevOp::KdaGatedNorm) == Some("KdaGatedNorm"@),
        op_text(DevOp::KdaStateStep) == Some("KdaStateStep"@),
        op_text(DevOp::KdaStateStepG) == Some("KdaStateStepG"@),
        op_text(DevOp::LayerNorm) == Some("LayerNorm"@),
        op_text(DevOp::MlaMergeFold) == Some("MlaMergeFold"@),
        op_text(DevOp::MlaOutGate) == Some("MlaOutGate"@),
        op_text(DevOp::MoeAlignGemmaPf) == Some("MoeAlignGemmaPf"@),
        op_text(DevOp::MoeAlignPf) == Some("MoeAlignPf"@),
        op_text(DevOp::MoeCombine) == Some("MoeCombine"@),
        op_text(DevOp::MoeCombineGemma) == Some("MoeCombineGemma"@),
        op_text(DevOp::MoeCombineNormGemma) == Some("MoeCombineNormGemma"@),
        op_text(DevOp::MoeCombineNormGemmaPf) == Some("MoeCombineNormGemmaPf"@),
        op_text(DevOp::MoeCombinePf) == Some("MoeCombinePf"@),
        op_text(DevOp::MoeCombineResidNormGemma) == Some("MoeCombineResidNormGemma"@),
        op_text(DevOp::MoeExpertDown) == Some("MoeExpertDown"@),
        op_text(DevOp::MoeExpertDownFp8Blk) == Some("MoeExpertDownFp8Blk"@),
        op_text(DevOp::MoeExpertDownGemma) == Some("MoeExpertDownGemma"@),
        op_text(DevOp::MoeExpertDownGemmaFp8) == Some("MoeExpertDownGemmaFp8"@),
        op_text(DevOp::MoeExpertGlu) == Some("MoeExpertGlu"@),
        op_text(DevOp::MoeExpertGluFp8Blk) == Some("MoeExpertGluFp8Blk"@),
        op_text(DevOp::MoeExpertGluGemma) == Some("MoeExpertGluGemma"@),
        op_text(DevOp::MoeExpertGluGemmaFp8) == Some("MoeExpertGluGemmaFp8"@),
        op_text(DevOp::MoeExpertGluNormGemma) == Some("MoeExpertGluNormGemma"@),
        op_text(DevOp::MoeGroupDownFp8Blk) == Some("MoeGroupDownFp8Blk"@),
        op_text(DevOp::MoeGroupDownGemmaPf) == Some("MoeGroupDownGemmaPf"@),
        op_text(DevOp::MoeGroupDownGemmaPfW8a8) == Some("MoeGroupDownGemmaPfW8a8"@),
        op_text(DevOp::MoeGroupDownPf) == Some("MoeGroupDownPf"@),
        op_text(DevOp::MoeGroupGluFp8Blk) == Some("MoeGroupGluFp8Blk"@),
        op_text(DevOp::MoeGroupGluGemmaPf) == Some("MoeGroupGluGemmaPf"@),
        op_text(DevOp::MoeGroupGluGemmaPfW8a8) == Some("MoeGroupGluGemmaPfW8a8"@),
        op_text(DevOp::MoeGroupGluPf) == Some("MoeGroupGluPf"@),
        op_text(DevOp::MoeRouter) == Some("MoeRouter"@),
        op_text(DevOp::MoeRouterGemma) == Some("MoeRouterGemma"@),
        op_text(DevOp::MoeRouterGemmaPf) == Some("MoeRouterGemmaPf"@),
        op_text(DevOp::MoeRouterGemmaScore) == Some("MoeRouterGemmaScore"@),
        op_text(DevOp::MoeRouterGemmaScoreFast) == Some("MoeRouterGemmaScoreFast"@),
        op_text(DevOp::MoeRouterGemmaTopk) == Some("MoeRouterGemmaTopk"@),
        op_text(DevOp::MoeRouterTopk) == Some("MoeRouterTopk"@),
        op_text(DevOp::MoeRouterTopkPf) == Some("MoeRouterTopkPf"@),
        op_text(DevOp::Nop) == Some("Nop"@),
        op_text(DevOp::NormResidual) == Some("NormResidual"@),
        op_text(DevOp::NormResidualNorm) == Some("NormResidualNorm"@),
        op_text(DevOp::OUvFold) == Some("OUvFold"@),
        op_text(DevOp::QuantFp8) == Some("QuantFp8"@),
        op_text(DevOp::Residual) == Some("Residual"@),
        op_text(DevOp::RmsNorm) == Some("RmsNorm"@),
        op_text(DevOp::RowRms) == Some("RowRms"@),
        op_text(DevOp::SituGlu) == Some("SituGlu"@),
        op_text(DevOp::SoftCap) == Some("SoftCap"@),
        op_text(DevOp::XAllToAllHeads) == Some("XAllToAllHeads"@),
        op_text(DevOp::XArgmaxFin) == Some("XArgmaxFin"@),
        op_text(DevOp::XFlashMerge) == Some("XFlashMerge"@),
        op_text(DevOp::XReduce) == Some("XReduce"@),
        op_text(DevOp::XReduceAddNorm) == Some("XReduceAddNorm"@),
        op_text(DevOp::XReduceTwoShot) == Some("XReduceTwoShot"@),
        0 <= i < isa.opcodes@.len() && isa.opcodes@[i].op == DevOp::Other(n) && (forall|j: int|
            0 <= j < i ==> (#[trigger] isa.opcodes@[j]).op != DevOp::Other(n)) ==> name_of(
            isa,
            DevOp::Other(n),
        ) == Some(isa.opcodes@[i].name@),
        (forall|j: int|
            0 <= j < isa.opcodes@.len() ==> (#[trigger] isa.opcodes@[j]).op != DevOp::Other(n))
            ==> name_of(isa, DevOp::Other(n)) is None,
{
    if 0 <= i < isa.opcodes@.len() && isa.opcodes@[i].op == DevOp::Other(n) && (forall|j: int|
        0 <= j < i ==> (#[trigger] isa.opcodes@[j]).op != DevOp::Other(n)) {
        first_is_found(isa.opcodes@, DevOp::Other(n), 0, i);
    }
    if forall|j: int|
        0 <= j < isa.opcodes@.len() ==> (#[trigger] isa.opcodes@[j]).op != DevOp::Other(n) {
        first_is_found(isa.opcodes@, DevOp::Other(n), 0, isa.opcodes@.len() as int);
    }
}

proof fn first_is_found(t: Seq<Opcode>, op: DevOp, from: int, i: int)
    requires
        0 <= from <= i <= t.len(),
        i < t.len() ==> t[i].op == op,
        forall|j: int| from <= j < i ==> (#[trigger] t[j]).op != op,
    ensures
        opcode_index(t, op, from) == i,
    decreases i - from,
{
    if from < i {
        first_is_found(t, op, from + 1, i);
    }
}

/// An opcode that the table does not decide has its name whatever the table says.
pub proof fn names_do_not_follow_the_table(isa: Isa, jsa: Isa, op: DevOp)
    requires
        op_text(op) is Some,
    ensures
        name_of(isa, op) == op_text(op),
        name_of(isa, op) == name_of(jsa, op),
{
}

/// Attention and its merge, and the norm that rotates heads, have a body to each head size; no other
/// opcode has. Attention has the size in its seventh number, the merge in its fourth, the norm in its
/// third.
pub proof fn bodies_by_head_size(op: DevOp, a: Args)
    ensures
        op == DevOp::FlashDecode || op == DevOp::FlashDecodeFp8 || op == DevOp::FlashPrefill || op
            == DevOp::FlashPrefillFp8 ==> arm_hd(op, a) == Some(a.i6),
        op == DevOp::FlashMerge ==> arm_hd(op, a) == Some(a.i3),
        op == DevOp::HeadNormRope || op == DevOp::HeadNormRopeFp8 ==> arm_hd(op, a) == Some(a.i2),
        arm_hd(op, a) is Some ==> op == DevOp::FlashDecode || op == DevOp::FlashDecodeFp8 || op
            == DevOp::FlashPrefill || op == DevOp::FlashPrefillFp8 || op == DevOp::FlashMerge || op
            == DevOp::HeadNormRope || op == DevOp::HeadNormRopeFp8,
{
}

/// The recurrence's chunks have a body to each width, and those of the chunk's product and carry
/// another where the queries are scaled before; its steps have one to each set of flags, and its
/// fused step one to each version. The widest tile has a body of its own under the table's tag. No
/// other opcode has variants.
pub proof fn bodies_by_variant(isa: Isa, op: DevOp, a: Args)
    ensures
        op == DevOp::KdaChunkPrepare || op == DevOp::KdaChunkIntra || (a.i4 == 0 && (op
            == DevOp::KdaChunkWu || op == DevOp::KdaChunkCarry)) ==> arm_variant(isa, op, a)
            == Some("d"@ + dec(a.i2 as nat)),
        a.i4 != 0 && (op == DevOp::KdaChunkWu || op == DevOp::KdaChunkCarry) ==> arm_variant(
            isa,
            op,
            a,
        ) == joined(arm_variant(isa, op, (Args { i4: 0, ..a })), "_qpre"@),
        op == DevOp::KdaStateStep || op == DevOp::KdaStateStepG || op == DevOp::KdaConvStateStepG
            ==> arm_variant(isa, op, a) == Some("flags"@ + hex(a.i4 as nat)),
        op == DevOp::KdaDecodeFused ==> arm_variant(isa, op, a) == Some("abi"@ + dec(a.i7 as nat)),
        op == DevOp::GemmWide && a.i7 == isa.wide_c8_tag ==> arm_variant(isa, op, a) == Some(
            "tile128x384x64"@,
        ),
        op == DevOp::GemmWide && a.i7 != isa.wide_c8_tag ==> arm_variant(isa, op, a) is None,
        arm_variant(isa, op, a) is Some ==> op == DevOp::KdaChunkPrepare || op
            == DevOp::KdaChunkIntra || op == DevOp::KdaChunkWu || op == DevOp::KdaChunkCarry || op
            == DevOp::KdaStateStep || op == DevOp::KdaStateStepG || op == DevOp::KdaConvStateStepG
            || op == DevOp::KdaDecodeFused || op == DevOp::GemmWide,
{
}

/// An instruction reaches the body of its own opcode, by name, head size and variant; one whose
/// opcode has no name reaches none.
pub proof fn an_instruction_reaches_its_own_body(isa: Isa, op: DevOp, a: Args)
    ensures
        arm_at(isa, op, a) is Some <==> name_of(isa, op) is Some,
        arm_at(isa, op, a) matches Some(x) ==> Some(x.op) == name_of(isa, op) && x.hd == arm_hd(
            op,
            a,
        ) && x.variant == arm_variant(isa, op, a),
{
}

/// An arm is written as its opcode; a head size goes behind that as `/hd` and the number, and a
/// variant behind both, behind a slash.
pub proof fn arms_are_written_in_three_parts(op: Seq<char>, h: u32, v: Seq<char>, a: ArmView)
    ensures
        arm_key(ArmView { op, hd: None, variant: None }) == op,
        arm_key(ArmView { hd: Some(h), variant: None, ..a }) == a.op + "/hd"@ + dec(h as nat),
        arm_key(ArmView { variant: Some(v), ..a }) == arm_key(ArmView { variant: None, ..a }) + "/"@
            + v,
{
}

proof fn count_is_one_past_the_top(s: Seq<StreamEnt>, n: int)
    requires
        0 <= n <= s.len(),
    ensures
        segments_upto(s, n) >= 1,
        forall|k: int| 0 <= k < n ==> (#[trigger] s[k]).seg < segments_upto(s, n),
        segments_upto(s, n) == 1 || exists|k: int|
            0 <= k < n && (#[trigger] s[k]).seg + 1 == segments_upto(s, n),
    decreases n,
{
    if n > 0 {
        count_is_one_past_the_top(s, n - 1);
        if segments_upto(s, n) == segments_upto(s, n - 1) {
            if segments_upto(s, n) != 1 {
                let k = choose|k: int|
                    0 <= k < n - 1 && (#[trigger] s[k]).seg + 1 == segments_upto(s, n - 1);
                assert(s[k].seg + 1 == segments_upto(s, n));
            }
        } else {
            assert(s[n - 1].seg + 1 == segments_upto(s, n));
        }
    }
}

/// A program has one segment more than the last that its stream names, and at least one.
pub proof fn segments_are_those_of_the_stream(p: PacketProgram)
    ensures
        segment_count(p) >= 1,
        forall|k: int| 0 <= k < p.stream@.len() ==> (#[trigger] p.stream@[k]).seg < segment_count(p),
        segment_count(p) == 1 || exists|k: int|
            0 <= k < p.stream@.len() && (#[trigger] p.stream@[k]).seg + 1 == segment_count(p),
        single_segment(p) <==> segment_count(p) == 1 || p.gq_stream@.len() == 0,
{
    count_is_one_past_the_top(p.stream@, p.stream@.len() as int);
}

/// Segments adjoin: each starts where the one before ends, the first at the first offset, and none
/// goes past the stream. Offsets are by domain exactly where there is one to each segment of each
/// domain, and one more.
pub proof fn segments_adjoin(p: PacketProgram, s: int)
    ensures
        window(p, s).1 == window(p, s + 1).0,
        window(p, s).0 <= p.gq_stream@.len() && window(p, s).1 <= p.gq_stream@.len(),
        p.gq_seg_ofs@[0] <= p.gq_stream@.len() ==> window(p, 0).0 == p.gq_seg_ofs@[0],
        p.l2_domains > 1 ==> (domains_of(p) == p.l2_domains <==> if p.gq_seg_ofs@.len() > 0 {
            p.gq_seg_ofs@.len() == segment_count(p) * p.l2_domains + 1
        } else {
            segment_count(p) * p.l2_domains == 0
        }),
        domains_of(p) == p.l2_domains || domains_of(p) == 1,
{
    let d = domains_of(p);
    assert(s * d + d == (s + 1) * d) by (nonlinear_arith);
    assert(0 * d == 0) by (nonlinear_arith);
}

proof fn stretch_reaches(isa: Isa, p: PacketProgram, from: int, to: int, a: ArmView, i: u32)
    ensures
        window_arms(isa, p, from, to).contains(a) <==> exists|k: int|
            from <= k < to && #[trigger] reached_at(isa, p, k) == Some(a),
        window_insts(p, from, to).contains(i) <==> exists|k: int|
            from <= k < to && (#[trigger] p.gq_stream@[k]).inst == i,
    decreases to - from,
{
    if from < to {
        stretch_reaches(isa, p, from, to - 1, a, i);
        assert(window_arms(isa, p, from, to).contains(a) <==> window_arms(
            isa,
            p,
            from,
            to - 1,
        ).contains(a) || reached_at(isa, p, to - 1) == Some(a));
        if window_arms(isa, p, from, to - 1).contains(a) {
            let k = choose|k: int|
                from <= k < to - 1 && #[trigger] reached_at(isa, p, k) == Some(a);
            assert(reached_at(isa, p, k) == Some(a));
        }
        if exists|k: int| from <= k < to && #[trigger] reached_at(isa, p, k) == Some(a) {
            let k = choose|k: int| from <= k < to && #[trigger] reached_at(isa, p, k) == Some(a);
            if k < to - 1 {
                assert(reached_at(isa, p, k) == Some(a));
            }
        }
        if window_insts(p, from, to - 1).contains(i) {
            let k = choose|k: int| from <= k < to - 1 && (#[trigger] p.gq_stream@[k]).inst == i;
            assert(p.gq_stream@[k].inst == i);
        }
        if p.gq_stream@[to - 1].inst == i {
            assert(from <= to - 1 < to && p.gq_stream@[to - 1].inst == i);
        }
        if exists|k: int| from <= k < to && (#[trigger] p.gq_stream@[k]).inst == i {
            let k = choose|k: int| from <= k < to && (#[trigger] p.gq_stream@[k]).inst == i;
            if k < to - 1 {
                assert(p.gq_stream@[k].inst == i);
            }
        }
    }
}

/// The arm that entry `k` of the segmented stream reaches.
pub open spec fn reached_at(isa: Isa, p: PacketProgram, k: int) -> Option<ArmView> {
    let d = p.insts@[p.gq_stream@[k].inst as int];
    arm_at(isa, d.op, d.args)
}

/// A program of several segments has one entry to each, in order, under its own number, with the arms
/// that its stretch of the segmented stream reaches; a program of one has all of its instructions
/// under no number.
pub proof fn segments_hold_what_they_reach(isa: Isa, p: PacketProgram, s: int, a: ArmView)
    requires
        0 <= s < segments_of(isa, p).len(),
        segment_count(p) <= u32::MAX,
    ensures
        ({
            let v = segments_of(isa, p);
            if single_segment(p) {
                &&& v.len() == 1
                &&& v[0].seg is None
                &&& v[0].insts == p.insts@.len()
            } else {
                &&& v.len() == segment_count(p)
                &&& v[s].seg matches Some(k) && k == s
                &&& v[s].arms.contains(a) <==> exists|k: int|
                    window(p, s).0 <= k < window(p, s).1 && #[trigger] reached_at(isa, p, k)
                        == Some(a)
            }
        }),
{
    let w = window(p, s);
    stretch_reaches(isa, p, w.0, w.1, a, 0);
    segments_are_those_of_the_stream(p);
    if !single_segment(p) {
        assert(segments_of(isa, p)[s] == segment_at(isa, p, s));
    }
}

/// Every row of a packet is of a program that is there: it decodes exactly where the program stands
/// with the decode programs, and has the program's rows and its mark of packed prompts.
pub proof fn rows_are_of_their_programs(isa: Isa, p: Packet, i: int)
    requires
        0 <= i < packet_rows(isa, p).len(),
        p.progs@.len() <= usize::MAX,
    ensures
        ({
            let r = packet_rows(isa, p)[i];
            &&& r.program < p.progs@.len()
            &&& r.decode <==> r.program >= p.decode_lo
            &&& r.t == p.progs@[r.program as int].rows
            &&& r.packed_prefill_only == p.progs@[r.program as int].packed
        }),
{
    rows_upto_are_theirs(isa, p, p.progs@.len() as int, i);
}

proof fn rows_upto_are_theirs(isa: Isa, p: Packet, n: int, i: int)
    requires
        0 <= n <= p.progs@.len() <= usize::MAX,
        0 <= i < rows_upto(isa, p, n).len(),
    ensures
        ({
            let r = rows_upto(isa, p, n)[i];
            &&& r.program < n
            &&& r.decode <==> r.program >= p.decode_lo
            &&& r.t == p.progs@[r.program as int].rows
            &&& r.packed_prefill_only == p.progs@[r.program as int].packed
        }),
    decreases n,
{
    if n > 0 {
        let before = rows_upto(isa, p, n - 1);
        if i < before.len() {
            rows_upto_are_theirs(isa, p, n - 1, i);
            assert(rows_upto(isa, p, n)[i] == before[i]);
        } else {
            let k = i - before.len();
            assert(rows_upto(isa, p, n)[i] == program_rows(isa, p, n - 1)[k]);
            assert(program_rows(isa, p, n - 1)[k] == program_row(
                p,
                n - 1,
                segments_of(isa, p.progs@[n - 1])[k],
            ));
        }
    }
}

/// Rows stand in the order of their programs, and those of one program in the order of its segments.
pub proof fn rows_are_in_order(isa: Isa, p: Packet, pi: int, k: int)
    requires
        0 <= pi < p.progs@.len(),
        0 <= k < segments_of(isa, p.progs@[pi]).len(),
    ensures
        ({
            let g = segments_of(isa, p.progs@[pi])[k];
            let at = rows_upto(isa, p, pi).len() + k;
            let r = packet_rows(isa, p)[at];
            &&& at < packet_rows(isa, p).len()
            &&& r.program == pi as usize && r.seg == g.seg && r.arms == g.arms && r.insts == g.insts
        }),
{
    rows_go_on(isa, p, pi + 1, p.progs@.len() as int);
    let at = rows_upto(isa, p, pi).len() + k;
    assert(rows_upto(isa, p, pi + 1)[at] == program_rows(isa, p, pi)[k]);
}

proof fn rows_go_on(isa: Isa, p: Packet, a: int, n: int)
    requires
        0 <= a <= n,
    ensures
        rows_upto(isa, p, a).len() <= rows_upto(isa, p, n).len(),
        forall|i: int|
            0 <= i < rows_upto(isa, p, a).len() ==> rows_upto(isa, p, n)[i] == #[trigger] rows_upto(
                isa,
                p,
                a,
            )[i],
    decreases n - a,
{
    if a < n {
        rows_go_on(isa, p, a, n - 1);
    }
}

} // verus!
