//! The opcodes' names, and the table of an instruction set.
use vstd::prelude::*;

use crate::isa::DevOp;

verus! {

/// The name of an opcode, where it has one here.
pub open spec fn op_text(op: DevOp) -> Option<Seq<char>> {
    match op {
        DevOp::AddNorm => Some("AddNorm"@),
        DevOp::Argmax => Some("Argmax"@),
        DevOp::ArgmaxFin => Some("ArgmaxFin"@),
        DevOp::AttnRes => Some("AttnRes"@),
        DevOp::AttnSelect => Some("AttnSelect"@),
        DevOp::DenseGluFp8Blk => Some("DenseGluFp8Blk"@),
        DevOp::Embed => Some("Embed"@),
        DevOp::FlashDecode => Some("FlashDecode"@),
        DevOp::FlashDecodeFp8 => Some("FlashDecodeFp8"@),
        DevOp::FlashGatherDecode => Some("FlashGatherDecode"@),
        DevOp::FlashGatherPrefill => Some("FlashGatherPrefill"@),
        DevOp::FlashMerge => Some("FlashMerge"@),
        DevOp::FlashMlaDecode => Some("FlashMlaDecode"@),
        DevOp::FlashMlaDecodeFp8 => Some("FlashMlaDecodeFp8"@),
        DevOp::FlashMlaPrefill => Some("FlashMlaPrefill"@),
        DevOp::FlashMlaPrefillFp8 => Some("FlashMlaPrefillFp8"@),
        DevOp::FlashPrefill => Some("FlashPrefill"@),
        DevOp::FlashPrefillFp8 => Some("FlashPrefillFp8"@),
        DevOp::Gemm => Some("Gemm"@),
        DevOp::GemmC5 => Some("GemmC5"@),
        DevOp::GemmC5Fp8 => Some("GemmC5Fp8"@),
        DevOp::GemmC5Mxfp4 => Some("GemmC5Mxfp4"@),
        DevOp::GemmFp8 => Some("GemmFp8"@),
        DevOp::GemmFp8Blk => Some("GemmFp8Blk"@),
        DevOp::GemmGlu => Some("GemmGlu"@),
        DevOp::GemmGluFp8 => Some("GemmGluFp8"@),
        DevOp::GemmGluMxfp4 => Some("GemmGluMxfp4"@),
        DevOp::GemmMed => Some("GemmMed"@),
        DevOp::GemmMedFp8 => Some("GemmMedFp8"@),
        DevOp::GemmMedMxfp4 => Some("GemmMedMxfp4"@),
        DevOp::GemmMxfp4 => Some("GemmMxfp4"@),
        DevOp::GemmSmall => Some("GemmSmall"@),
        DevOp::GemmSmallFp8 => Some("GemmSmallFp8"@),
        DevOp::GemmSmallMxfp4 => Some("GemmSmallMxfp4"@),
        DevOp::GemmWide => Some("GemmWide"@),
        DevOp::GemmWideFp8 => Some("GemmWideFp8"@),
        DevOp::GemmWideMxfp4 => Some("GemmWideMxfp4"@),
        DevOp::Gemv => Some("Gemv"@),
        DevOp::GemvArgmax => Some("GemvArgmax"@),
        DevOp::GemvFp8 => Some("GemvFp8"@),
        DevOp::GemvFp8Blk => Some("GemvFp8Blk"@),
        DevOp::GemvGlu => Some("GemvGlu"@),
        DevOp::GemvGluFp8 => Some("GemvGluFp8"@),
        DevOp::GemvGluMxfp4 => Some("GemvGluMxfp4"@),
        DevOp::GemvMxfp4 => Some("GemvMxfp4"@),
        DevOp::GemvQkv => Some("GemvQkv"@),
        DevOp::GemvQkvFp8 => Some("GemvQkvFp8"@),
        DevOp::GemvQkvMxfp4 => Some("GemvQkvMxfp4"@),
        DevOp::GemvQkvg => Some("GemvQkvg"@),
        DevOp::Glu => Some("Glu"@),
        DevOp::HeadNormRope => Some("HeadNormRope"@),
        DevOp::HeadNormRopeFp8 => Some("HeadNormRopeFp8"@),
        DevOp::IndexScore => Some("IndexScore"@),
        DevOp::IndexScorePf => Some("IndexScorePf"@),
        DevOp::IndexSelect => Some("IndexSelect"@),
        DevOp::IndexSelectPf => Some("IndexSelectPf"@),
        DevOp::IndexUnionPf => Some("IndexUnionPf"@),
        DevOp::KdaChunkCarry => Some("KdaChunkCarry"@),
        DevOp::KdaChunkIntra => Some("KdaChunkIntra"@),
        DevOp::KdaChunkPrepare => Some("KdaChunkPrepare"@),
        DevOp::KdaChunkWu => Some("KdaChunkWu"@),
        DevOp::KdaConv => Some("KdaConv"@),
        DevOp::KdaConv3 => Some("KdaConv3"@),
        DevOp::KdaConvStateStepG => Some("KdaConvStateStepG"@),
        DevOp::KdaDecodeFused => Some("KdaDecodeFused"@),
        DevOp::KdaGate => Some("KdaGate"@),
        DevOp::KdaGatedNorm => Some("KdaGatedNorm"@),
        DevOp::KdaStateStep => Some("KdaStateStep"@),
        DevOp::KdaStateStepG => Some("KdaStateStepG"@),
        DevOp::LayerNorm => Some("LayerNorm"@),
        DevOp::MlaMergeFold => Some("MlaMergeFold"@),
        DevOp::MlaOutGate => Some("MlaOutGate"@),
        DevOp::MoeAlignGemmaPf => Some("MoeAlignGemmaPf"@),
        DevOp::MoeAlignPf => Some("MoeAlignPf"@),
        DevOp::MoeCombine => Some("MoeCombine"@),
        DevOp::MoeCombineGemma => Some("MoeCombineGemma"@),
        DevOp::MoeCombineNormGemma => Some("MoeCombineNormGemma"@),
        DevOp::MoeCombineNormGemmaPf => Some("MoeCombineNormGemmaPf"@),
        DevOp::MoeCombinePf => Some("MoeCombinePf"@),
        DevOp::MoeCombineResidNormGemma => Some("MoeCombineResidNormGemma"@),
        DevOp::MoeExpertDown => Some("MoeExpertDown"@),
        DevOp::MoeExpertDownFp8Blk => Some("MoeExpertDownFp8Blk"@),
        DevOp::MoeExpertDownGemma => Some("MoeExpertDownGemma"@),
        DevOp::MoeExpertDownGemmaFp8 => Some("MoeExpertDownGemmaFp8"@),
        DevOp::MoeExpertGlu => Some("MoeExpertGlu"@),
        DevOp::MoeExpertGluFp8Blk => Some("MoeExpertGluFp8Blk"@),
        DevOp::MoeExpertGluGemma => Some("MoeExpertGluGemma"@),
        DevOp::MoeExpertGluGemmaFp8 => Some("MoeExpertGluGemmaFp8"@),
        DevOp::MoeExpertGluNormGemma => Some("MoeExpertGluNormGemma"@),
        DevOp::MoeGroupDownFp8Blk => Some("MoeGroupDownFp8Blk"@),
        DevOp::MoeGroupDownGemmaPf => Some("MoeGroupDownGemmaPf"@),
        DevOp::MoeGroupDownGemmaPfW8a8 => Some("MoeGroupDownGemmaPfW8a8"@),
        DevOp::MoeGroupDownPf => Some("MoeGroupDownPf"@),
        DevOp::MoeGroupGluFp8Blk => Some("MoeGroupGluFp8Blk"@),
        DevOp::MoeGroupGluGemmaPf => Some("MoeGroupGluGemmaPf"@),
        DevOp::MoeGroupGluGemmaPfW8a8 => Some("MoeGroupGluGemmaPfW8a8"@),
        DevOp::MoeGroupGluPf => Some("MoeGroupGluPf"@),
        DevOp::MoeRouter => Some("MoeRouter"@),
        DevOp::MoeRouterGemma => Some("MoeRouterGemma"@),
        DevOp::MoeRouterGemmaPf => Some("MoeRouterGemmaPf"@),
        DevOp::MoeRouterGemmaScore => Some("MoeRouterGemmaScore"@),
        DevOp::MoeRouterGemmaScoreFast => Some("MoeRouterGemmaScoreFast"@),
        DevOp::MoeRouterGemmaTopk => Some("MoeRouterGemmaTopk"@),
        DevOp::MoeRouterTopk => Some("MoeRouterTopk"@),
        DevOp::MoeRouterTopkPf => Some("MoeRouterTopkPf"@),
        DevOp::Nop => Some("Nop"@),
        DevOp::NormResidual => Some("NormResidual"@),
        DevOp::NormResidualNorm => Some("NormResidualNorm"@),
        DevOp::OUvFold => Some("OUvFold"@),
        DevOp::QuantFp8 => Some("QuantFp8"@),
        DevOp::Residual => Some("Residual"@),
        DevOp::RmsNorm => Some("RmsNorm"@),
        DevOp::RowRms => Some("RowRms"@),
        DevOp::SituGlu => Some("SituGlu"@),
        DevOp::SoftCap => Some("SoftCap"@),
        DevOp::XAllToAllHeads => Some("XAllToAllHeads"@),
        DevOp::XArgmaxFin => Some("XArgmaxFin"@),
        DevOp::XFlashMerge => Some("XFlashMerge"@),
        DevOp::XReduce => Some("XReduce"@),
        DevOp::XReduceAddNorm => Some("XReduceAddNorm"@),
        DevOp::XReduceTwoShot => Some("XReduceTwoShot"@),
        DevOp::Other(_) => None,
    }
}

fn op_str(op: DevOp) -> (r: Option<&'static str>)
    ensures
        (match r {
            Some(s) => Some(s@),
            None => None,
        }) == op_text(op),
{
    match op {
        DevOp::AddNorm => Some("AddNorm"),
        DevOp::Argmax => Some("Argmax"),
        DevOp::ArgmaxFin => Some("ArgmaxFin"),
        DevOp::AttnRes => Some("AttnRes"),
        DevOp::AttnSelect => Some("AttnSelect"),
        DevOp::DenseGluFp8Blk => Some("DenseGluFp8Blk"),
        DevOp::Embed => Some("Embed"),
        DevOp::FlashDecode => Some("FlashDecode"),
        DevOp::FlashDecodeFp8 => Some("FlashDecodeFp8"),
        DevOp::FlashGatherDecode => Some("FlashGatherDecode"),
        DevOp::FlashGatherPrefill => Some("FlashGatherPrefill"),
        DevOp::FlashMerge => Some("FlashMerge"),
        DevOp::FlashMlaDecode => Some("FlashMlaDecode"),
        DevOp::FlashMlaDecodeFp8 => Some("FlashMlaDecodeFp8"),
        DevOp::FlashMlaPrefill => Some("FlashMlaPrefill"),
        DevOp::FlashMlaPrefillFp8 => Some("FlashMlaPrefillFp8"),
        DevOp::FlashPrefill => Some("FlashPrefill"),
        DevOp::FlashPrefillFp8 => Some("FlashPrefillFp8"),
        DevOp::Gemm => Some("Gemm"),
        DevOp::GemmC5 => Some("GemmC5"),
        DevOp::GemmC5Fp8 => Some("GemmC5Fp8"),
        DevOp::GemmC5Mxfp4 => Some("GemmC5Mxfp4"),
        DevOp::GemmFp8 => Some("GemmFp8"),
        DevOp::GemmFp8Blk => Some("GemmFp8Blk"),
        DevOp::GemmGlu => Some("GemmGlu"),
        DevOp::GemmGluFp8 => Some("GemmGluFp8"),
        DevOp::GemmGluMxfp4 => Some("GemmGluMxfp4"),
        DevOp::GemmMed => Some("GemmMed"),
        DevOp::GemmMedFp8 => Some("GemmMedFp8"),
        DevOp::GemmMedMxfp4 => Some("GemmMedMxfp4"),
        DevOp::GemmMxfp4 => Some("GemmMxfp4"),
        DevOp::GemmSmall => Some("GemmSmall"),
        DevOp::GemmSmallFp8 => Some("GemmSmallFp8"),
        DevOp::GemmSmallMxfp4 => Some("GemmSmallMxfp4"),
        DevOp::GemmWide => Some("GemmWide"),
        DevOp::GemmWideFp8 => Some("GemmWideFp8"),
        DevOp::GemmWideMxfp4 => Some("GemmWideMxfp4"),
        DevOp::Gemv => Some("Gemv"),
        DevOp::GemvArgmax => Some("GemvArgmax"),
        DevOp::GemvFp8 => Some("GemvFp8"),
        DevOp::GemvFp8Blk => Some("GemvFp8Blk"),
        DevOp::GemvGlu => Some("GemvGlu"),
        DevOp::GemvGluFp8 => Some("GemvGluFp8"),
        DevOp::GemvGluMxfp4 => Some("GemvGluMxfp4"),
        DevOp::GemvMxfp4 => Some("GemvMxfp4"),
        DevOp::GemvQkv => Some("GemvQkv"),
        DevOp::GemvQkvFp8 => Some("GemvQkvFp8"),
        DevOp::GemvQkvMxfp4 => Some("GemvQkvMxfp4"),
        DevOp::GemvQkvg => Some("GemvQkvg"),
        DevOp::Glu => Some("Glu"),
        DevOp::HeadNormRope => Some("HeadNormRope"),
        DevOp::HeadNormRopeFp8 => Some("HeadNormRopeFp8"),
        DevOp::IndexScore => Some("IndexScore"),
        DevOp::IndexScorePf => Some("IndexScorePf"),
        DevOp::IndexSelect => Some("IndexSelect"),
        DevOp::IndexSelectPf => Some("IndexSelectPf"),
        DevOp::IndexUnionPf => Some("IndexUnionPf"),
        DevOp::KdaChunkCarry => Some("KdaChunkCarry"),
        DevOp::KdaChunkIntra => Some("KdaChunkIntra"),
        DevOp::KdaChunkPrepare => Some("KdaChunkPrepare"),
        DevOp::KdaChunkWu => Some("KdaChunkWu"),
        DevOp::KdaConv => Some("KdaConv"),
        DevOp::KdaConv3 => Some("KdaConv3"),
        DevOp::KdaConvStateStepG => Some("KdaConvStateStepG"),
        DevOp::KdaDecodeFused => Some("KdaDecodeFused"),
        DevOp::KdaGate => Some("KdaGate"),
        DevOp::KdaGatedNorm => Some("KdaGatedNorm"),
        DevOp::KdaStateStep => Some("KdaStateStep"),
        DevOp::KdaStateStepG => Some("KdaStateStepG"),
        DevOp::LayerNorm => Some("LayerNorm"),
        DevOp::MlaMergeFold => Some("MlaMergeFold"),
        DevOp::MlaOutGate => Some("MlaOutGate"),
        DevOp::MoeAlignGemmaPf => Some("MoeAlignGemmaPf"),
        DevOp::MoeAlignPf => Some("MoeAlignPf"),
        DevOp::MoeCombine => Some("MoeCombine"),
        DevOp::MoeCombineGemma => Some("MoeCombineGemma"),
        DevOp::MoeCombineNormGemma => Some("MoeCombineNormGemma"),
        DevOp::MoeCombineNormGemmaPf => Some("MoeCombineNormGemmaPf"),
        DevOp::MoeCombinePf => Some("MoeCombinePf"),
        DevOp::MoeCombineResidNormGemma => Some("MoeCombineResidNormGemma"),
        DevOp::MoeExpertDown => Some("MoeExpertDown"),
        DevOp::MoeExpertDownFp8Blk => Some("MoeExpertDownFp8Blk"),
        DevOp::MoeExpertDownGemma => Some("MoeExpertDownGemma"),
        DevOp::MoeExpertDownGemmaFp8 => Some("MoeExpertDownGemmaFp8"),
        DevOp::MoeExpertGlu => Some("MoeExpertGlu"),
        DevOp::MoeExpertGluFp8Blk => Some("MoeExpertGluFp8Blk"),
        DevOp::MoeExpertGluGemma => Some("MoeExpertGluGemma"),
        DevOp::MoeExpertGluGemmaFp8 => Some("MoeExpertGluGemmaFp8"),
        DevOp::MoeExpertGluNormGemma => Some("MoeExpertGluNormGemma"),
        DevOp::MoeGroupDownFp8Blk => Some("MoeGroupDownFp8Blk"),
        DevOp::MoeGroupDownGemmaPf => Some("MoeGroupDownGemmaPf"),
        DevOp::MoeGroupDownGemmaPfW8a8 => Some("MoeGroupDownGemmaPfW8a8"),
        DevOp::MoeGroupDownPf => Some("MoeGroupDownPf"),
        DevOp::MoeGroupGluFp8Blk => Some("MoeGroupGluFp8Blk"),
        DevOp::MoeGroupGluGemmaPf => Some("MoeGroupGluGemmaPf"),
        DevOp::MoeGroupGluGemmaPfW8a8 => Some("MoeGroupGluGemmaPfW8a8"),
        DevOp::MoeGroupGluPf => Some("MoeGroupGluPf"),
        DevOp::MoeRouter => Some("MoeRouter"),
        DevOp::MoeRouterGemma => Some("MoeRouterGemma"),
        DevOp::MoeRouterGemmaPf => Some("MoeRouterGemmaPf"),
        DevOp::MoeRouterGemmaScore => Some("MoeRouterGemmaScore"),
        DevOp::MoeRouterGemmaScoreFast => Some("MoeRouterGemmaScoreFast"),
        DevOp::MoeRouterGemmaTopk => Some("MoeRouterGemmaTopk"),
        DevOp::MoeRouterTopk => Some("MoeRouterTopk"),
        DevOp::MoeRouterTopkPf => Some("MoeRouterTopkPf"),
        DevOp::Nop => Some("Nop"),
        DevOp::NormResidual => Some("NormResidual"),
        DevOp::NormResidualNorm => Some("NormResidualNorm"),
        DevOp::OUvFold => Some("OUvFold"),
        DevOp::QuantFp8 => Some("QuantFp8"),
        DevOp::Residual => Some("Residual"),
        DevOp::RmsNorm => Some("RmsNorm"),
        DevOp::RowRms => Some("RowRms"),
        DevOp::SituGlu => Some("SituGlu"),
        DevOp::SoftCap => Some("SoftCap"),
        DevOp::XAllToAllHeads => Some("XAllToAllHeads"),
        DevOp::XArgmaxFin => Some("XArgmaxFin"),
        DevOp::XFlashMerge => Some("XFlashMerge"),
        DevOp::XReduce => Some("XReduce"),
        DevOp::XReduceAddNorm => Some("XReduceAddNorm"),
        DevOp::XReduceTwoShot => Some("XReduceTwoShot"),
        DevOp::Other(_) => None,
    }
}

/// An entry of the instruction table: an opcode, its name, and its C name without the prefix that
/// all of them share.
pub struct Opcode {
    pub op: DevOp,
    pub name: String,
    pub stem: String,
}

/// What is read of an instruction set: its opcodes in their order, the tag of the widest tile's
/// variant, the pairing of rotary halves, and the immediate that binds no tensor.
pub struct Isa {
    pub opcodes: Vec<Opcode>,
    pub wide_c8_tag: u32,
    pub rope_pair_half: u32,
    pub no_tensor_imm: u32,
}

/// The position of the first entry at or after `from` for an opcode, or the length.
pub open spec fn opcode_index(t: Seq<Opcode>, op: DevOp, from: int) -> int
    decreases t.len() - from,
{
    if from >= t.len() {
        t.len() as int
    } else if t[from].op == op {
        from
    } else {
        opcode_index(t, op, from + 1)
    }
}

/// The name of an opcode: its own, or the table's.
pub open spec fn name_of(isa: Isa, op: DevOp) -> Option<Seq<char>> {
    match op_text(op) {
        Some(s) => Some(s),
        None => {
            let i = opcode_index(isa.opcodes@, op, 0);
            if 0 <= i < isa.opcodes@.len() {
                Some(isa.opcodes@[i].name@)
            } else {
                None
            }
        },
    }
}

/// What an optional text holds.
pub open spec fn opt_text(s: Option<String>) -> Option<Seq<char>> {
    match s {
        Some(x) => Some(x@),
        None => None,
    }
}

/// The name of an opcode, where it or the table has one.
pub fn op_name(isa: &Isa, op: DevOp) -> (r: Option<String>)
    ensures
        opt_text(r) == name_of(*isa, op),
{
    match op_str(op) {
        Some(s) => Some(s.to_owned()),
        None => {
            let mut i: usize = 0;
            while i < isa.opcodes.len()
                invariant
                    i <= isa.opcodes@.len(),
                    opcode_index(isa.opcodes@, op, 0) == opcode_index(
                        isa.opcodes@,
                        op,
                        i as int,
                    ),
                    op_text(op) is None,
                decreases isa.opcodes@.len() - i,
            {
                if isa.opcodes[i].op == op {
                    return Some(isa.opcodes[i].name.clone());
                }
                i = i + 1;
            }
            None
        },
    }
}

} // verus!
