use devgen::arms::{
    arm_of, program_arms, segment_arms, Arm, DevInst, Packet, PacketProgram, ProgramArms,
    StreamEnt,
};
use devgen::arith::next_power_of_two;
use devgen::backends::{StageTile, Tally};
use devgen::config_header::config_header;
use devgen::fusion::LeanReport;
use devgen::inventory::{object_inventory, opcode_family};
use devgen::isa::{blank, Args, DevOp, TENSOR_NONE};
use devgen::json::{render, render_pretty, Json, Member};
use devgen::manifest::{build as build_manifest, hex16_text, manifest_fits, Facts};
use devgen::opcodes::{op_name, Isa, Opcode};
use devgen::order::SortedSet;
use devgen::pairing::pairing_hash;
use devgen::tune::{
    attention_decisions, clear_attention_decisions, select_amd_attention, AttentionAlgorithm,
    AttentionDecisions, AttentionSelection, AttentionSource,
};

const ALL: [DevOp; 121] = [
    DevOp::AddNorm,
    DevOp::Argmax,
    DevOp::ArgmaxFin,
    DevOp::AttnRes,
    DevOp::AttnSelect,
    DevOp::DenseGluFp8Blk,
    DevOp::Embed,
    DevOp::FlashDecode,
    DevOp::FlashDecodeFp8,
    DevOp::FlashGatherDecode,
    DevOp::FlashGatherPrefill,
    DevOp::FlashMerge,
    DevOp::FlashMlaDecode,
    DevOp::FlashMlaDecodeFp8,
    DevOp::FlashMlaPrefill,
    DevOp::FlashMlaPrefillFp8,
    DevOp::FlashPrefill,
    DevOp::FlashPrefillFp8,
    DevOp::Gemm,
    DevOp::GemmC5,
    DevOp::GemmC5Fp8,
    DevOp::GemmC5Mxfp4,
    DevOp::GemmFp8,
    DevOp::GemmFp8Blk,
    DevOp::GemmGlu,
    DevOp::GemmGluFp8,
    DevOp::GemmGluMxfp4,
    DevOp::GemmMed,
    DevOp::GemmMedFp8,
    DevOp::GemmMedMxfp4,
    DevOp::GemmMxfp4,
    DevOp::GemmSmall,
    DevOp::GemmSmallFp8,
    DevOp::GemmSmallMxfp4,
    DevOp::GemmWide,
    DevOp::GemmWideFp8,
    DevOp::GemmWideMxfp4,
    DevOp::Gemv,
    DevOp::GemvArgmax,
    DevOp::GemvFp8,
    DevOp::GemvFp8Blk,
    DevOp::GemvGlu,
    DevOp::GemvGluFp8,
    DevOp::GemvGluMxfp4,
    DevOp::GemvMxfp4,
    DevOp::GemvQkv,
    DevOp::GemvQkvFp8,
    DevOp::GemvQkvMxfp4,
    DevOp::GemvQkvg,
    DevOp::Glu,
    DevOp::HeadNormRope,
    DevOp::HeadNormRopeFp8,
    DevOp::IndexScore,
    DevOp::IndexScorePf,
    DevOp::IndexSelect,
    DevOp::IndexSelectPf,
    DevOp::IndexUnionPf,
    DevOp::KdaChunkCarry,
    DevOp::KdaChunkIntra,
    DevOp::KdaChunkPrepare,
    DevOp::KdaChunkWu,
    DevOp::KdaConv,
    DevOp::KdaConv3,
    DevOp::KdaConvStateStepG,
    DevOp::KdaDecodeFused,
    DevOp::KdaGate,
    DevOp::KdaGatedNorm,
    DevOp::KdaStateStep,
    DevOp::KdaStateStepG,
    DevOp::LayerNorm,
    DevOp::MlaMergeFold,
    DevOp::MlaOutGate,
    DevOp::MoeAlignGemmaPf,
    DevOp::MoeAlignPf,
    DevOp::MoeCombine,
    DevOp::MoeCombineGemma,
    DevOp::MoeCombineNormGemma,
    DevOp::MoeCombineNormGemmaPf,
    DevOp::MoeCombinePf,
    DevOp::MoeCombineResidNormGemma,
    DevOp::MoeExpertDown,
    DevOp::MoeExpertDownFp8Blk,
    DevOp::MoeExpertDownGemma,
    DevOp::MoeExpertDownGemmaFp8,
    DevOp::MoeExpertGlu,
    DevOp::MoeExpertGluFp8Blk,
    DevOp::MoeExpertGluGemma,
    DevOp::MoeExpertGluGemmaFp8,
    DevOp::MoeExpertGluNormGemma,
    DevOp::MoeGroupDownFp8Blk,
    DevOp::MoeGroupDownGemmaPf,
    DevOp::MoeGroupDownGemmaPfW8a8,
    DevOp::MoeGroupDownPf,
    DevOp::MoeGroupGluFp8Blk,
    DevOp::MoeGroupGluGemmaPf,
    DevOp::MoeGroupGluGemmaPfW8a8,
    DevOp::MoeGroupGluPf,
    DevOp::MoeRouter,
    DevOp::MoeRouterGemma,
    DevOp::MoeRouterGemmaPf,
    DevOp::MoeRouterGemmaScore,
    DevOp::MoeRouterGemmaScoreFast,
    DevOp::MoeRouterGemmaTopk,
    DevOp::MoeRouterTopk,
    DevOp::MoeRouterTopkPf,
    DevOp::Nop,
    DevOp::NormResidual,
    DevOp::NormResidualNorm,
    DevOp::OUvFold,
    DevOp::QuantFp8,
    DevOp::Residual,
    DevOp::RmsNorm,
    DevOp::RowRms,
    DevOp::SituGlu,
    DevOp::SoftCap,
    DevOp::XAllToAllHeads,
    DevOp::XArgmaxFin,
    DevOp::XFlashMerge,
    DevOp::XReduce,
    DevOp::XReduceAddNorm,
    DevOp::XReduceTwoShot,
];

const GEMM_WIDE_C8_TAG: u32 = 0xC8;
const ROPE_PAIR_HALF: u32 = 1;
const TENSOR_NONE_I: u32 = 0xFFFF_FFFF;
const SCATTER: DevOp = DevOp::Other(25);

/// `FlashDecodeFp8` as `FLASH_DECODE_FP8`.
fn stem(name: &str) -> String {
    let mut r = String::new();
    for (i, c) in name.chars().enumerate() {
        if c.is_ascii_uppercase() && i > 0 {
            r.push('_');
        }
        r.push(c.to_ascii_uppercase());
    }
    r
}

fn isa() -> Isa {
    let mut opcodes: Vec<Opcode> = ALL
        .iter()
        .map(|&op| {
            let name = format!("{op:?}");
            Opcode { op, stem: stem(&name), name }
        })
        .collect();
    opcodes.push(Opcode {
        op: SCATTER,
        name: "XReduceScatter".into(),
        stem: "XREDUCE_SCATTER".into(),
    });
    Isa {
        opcodes,
        wide_c8_tag: GEMM_WIDE_C8_TAG,
        rope_pair_half: ROPE_PAIR_HALF,
        no_tensor_imm: TENSOR_NONE_I,
    }
}

fn with_i(i: [u32; 8]) -> Args {
    let mut a = blank();
    a.i0 = i[0];
    a.i1 = i[1];
    a.i2 = i[2];
    a.i3 = i[3];
    a.i4 = i[4];
    a.i5 = i[5];
    a.i6 = i[6];
    a.i7 = i[7];
    a
}

fn inst(op: DevOp, i: [u32; 8]) -> DevInst {
    DevInst { op, args: with_i(i), f32mix: false }
}

fn prog(rows: u32, insts: Vec<DevInst>) -> PacketProgram {
    PacketProgram {
        insts,
        stream: vec![],
        gq_stream: vec![],
        gq_seg_ofs: vec![],
        l2_domains: 0,
        rows,
        packed: false,
    }
}

fn packet(n_cu: u32, decode_lo: usize, progs: Vec<PacketProgram>) -> Packet {
    Packet { n_cu, tensors: vec![], progs, decode_lo }
}

fn model() -> Packet {
    let pf = prog(
        1024,
        vec![
            inst(DevOp::FlashPrefill, [0, 0, 8, 4, 0, 0, 256, 0]),
            inst(DevOp::Gemm, [0; 8]),
        ],
    );
    let dec = prog(
        8,
        vec![
            inst(DevOp::FlashDecode, [8, 8, 4, 0, 0, 0, 256, 0]),
            inst(DevOp::FlashDecodeFp8, [8, 8, 1, 0, 0, 0, 512, 0]),
            inst(DevOp::Gemv, [0; 8]),
        ],
    );
    packet(170, 1, vec![pf, dec])
}

fn facts(arch: &str) -> Facts {
    Facts {
        arch: arch.into(),
        stage: StageTile { buffers: 1, bm: 192, bn: 256 },
        gemv_prefetch: false,
        moe_stage1_body: false,
        moe_stage2_body: false,
        tally: Tally { lookups: 0, hits: 0 },
    }
}

fn skipped() -> LeanReport {
    LeanReport::skipped("test: nothing was verified".into())
}

fn build(m: &Packet, arch: &str) -> Json {
    build_with(m, &facts(arch), &skipped())
}

fn build_with(m: &Packet, f: &Facts, lean: &LeanReport) -> Json {
    assert!(manifest_fits(&isa(), m));
    build_manifest(&isa(), m, f, &vec![], lean)
}

fn header(man: &Json) -> String {
    config_header(&isa(), man)
}

fn find<'a>(j: &'a Json, path: &str) -> Option<&'a Json> {
    let mut at = j;
    for key in path.split('/') {
        at = match at {
            Json::Arr(v) => v.get(key.parse::<usize>().ok()?)?,
            _ => at.get(key)?,
        };
    }
    Some(at)
}

fn at<'a>(j: &'a Json, path: &str) -> &'a Json {
    find(j, path).unwrap_or_else(|| panic!("no {path}"))
}

fn text(j: &Json, path: &str) -> String {
    match at(j, path) {
        Json::Str(s) => s.clone(),
        other => panic!("{path} is no text: {other:?}"),
    }
}

fn num(j: &Json, path: &str) -> u64 {
    match at(j, path) {
        Json::Num(n) => *n,
        other => panic!("{path} is no number: {other:?}"),
    }
}

fn flag(j: &Json, path: &str) -> bool {
    match at(j, path) {
        Json::Bool(b) => *b,
        other => panic!("{path} is no truth value: {other:?}"),
    }
}

fn is_null(j: &Json, path: &str) -> bool {
    matches!(at(j, path), Json::Null)
}

fn texts(j: &Json, path: &str) -> Vec<String> {
    match at(j, path) {
        Json::Arr(v) => v
            .iter()
            .map(|x| match x {
                Json::Str(s) => s.clone(),
                other => panic!("{path} holds {other:?}"),
            })
            .collect(),
        other => panic!("{path} is no array: {other:?}"),
    }
}

fn len(j: &Json, path: &str) -> usize {
    match at(j, path) {
        Json::Arr(v) => v.len(),
        other => panic!("{path} is no array: {other:?}"),
    }
}

fn has(v: &[String], s: &str) -> bool {
    v.iter().any(|x| x == s)
}

fn put(j: &mut Json, key: &str, value: Json) {
    match j {
        Json::Obj(m) => m.push(Member { key: key.into(), value }),
        other => panic!("no object: {other:?}"),
    }
}

fn arr(v: &[&str]) -> Json {
    Json::Arr(v.iter().map(|s| Json::Str(s.to_string())).collect())
}

#[test]
fn opcodes_come_from_the_stream() {
    let man = build(&model(), "sm_120a");
    let ops = texts(&man, "opcodes");
    assert!(has(&ops, "FlashDecodeFp8"));
    assert!(has(&ops, "Gemv"));
    assert!(!has(&ops, "FlashMlaDecode"));
}

#[test]
fn devblob_input_scope_is_explicitly_text_only() {
    let man = build(&model(), "gfx950");
    assert_eq!(text(&man, "input_contract/kind"), "token_ids");
    assert_eq!(texts(&man, "input_contract/modalities"), ["text"]);
    assert!(!flag(&man, "input_contract/vision"));
}

#[test]
fn expert_parallel_objects_and_geometry_come_from_packet_immediates() {
    let mut m = model();
    m.progs[0].insts.extend([
        inst(DevOp::MoeGroupGluPf, [3072, 3584, 896, 2, 0, 1, 8, 0]),
        inst(DevOp::MoeGroupDownPf, [3584, 3072, 896, 2, 0, 0, 8, 0]),
    ]);
    let man = build(&m, "gfx950");
    let ep = at(&man, "objects/lean/moe_prefill_ep");
    assert!(flag(ep, "required"));
    assert_eq!(num(ep, "boundaries/0/degree"), 8);
    assert_eq!(num(ep, "boundaries/0/experts"), 896);
    assert_eq!(num(ep, "boundaries/0/full_intermediate_width"), 3072);
    assert_eq!(num(ep, "resource_contract/wavefront_size"), 64);
    assert_eq!(num(ep, "resource_contract/private_segment_bytes"), 0);
    assert_eq!(
        num(ep, "additional_resident_bytes_per_rank"),
        112u64 * 3 * (3584u64 * 3072 / 2 + 3584u64 * (3072 / 32))
    );
    assert_eq!(
        text(ep, "capacity_ack_env"),
        "PLOW_MOE_PREFILL_EP_MAX_EXTRA_BYTES"
    );
    assert!(header(&man).contains("#define PLOW_PACKET_REQUIRES_MOE_PREFILL_EP 1"));

    let ordinary = build(&model(), "gfx950");
    assert!(!flag(&ordinary, "objects/lean/moe_prefill_ep/required"));
    assert!(header(&ordinary).contains("#define PLOW_PACKET_REQUIRES_MOE_PREFILL_EP 0"));
}

#[test]
fn moe_body_variants_are_opt_in_object_requests() {
    let ordinary = build(&model(), "gfx950");
    assert!(find(&ordinary, "objects/lean/moe_stage1_body").is_none());
    assert!(find(&ordinary, "objects/lean/moe_stage2_body").is_none());
    assert!(!header(&ordinary).contains("PLOW_OBJECT_MOE_STAGE"));
    let mut f = facts("gfx950");
    f.moe_stage1_body = true;
    f.moe_stage2_body = true;
    let man = build_with(&model(), &f, &skipped());
    assert!(flag(&man, "objects/lean/moe_stage1_body/required"));
    assert!(flag(&man, "objects/lean/moe_stage2_body/required"));
    let h = header(&man);
    assert!(h.contains("#define PLOW_OBJECT_MOE_STAGE1_BODY 1\n"));
    assert!(h.contains("#define PLOW_OBJECT_MOE_STAGE2_BODY 1\n"));
    assert_ne!(text(&man, "pairing/hash"), text(&ordinary, "pairing/hash"));
}

#[test]
fn xr_combine_fold_is_a_decode_object_requirement() {
    let mut m = model();
    m.progs[1]
        .insts
        .push(inst(DevOp::XReduce, [3584, 8, 0, 5, 0, 0, 0, 16]));
    let man = build(&m, "gfx950");
    assert!(flag(&man, "features/xr_combine_fold"));
    let req = texts(&man, "backends/gfx950/requires");
    assert!(has(&req, "PLOW_XR_COMBINE_FOLD=1"), "{req:?}");
    let hdr = header(&man);
    assert!(hdr.contains("#define PLOW_PACKET_REQUIRES_XR_COMBINE_FOLD 1\n#ifndef PLOW_XR_COMBINE_FOLD\n#define PLOW_XR_COMBINE_FOLD 1\n#endif\n"));

    let ordinary = build(&model(), "gfx950");
    assert!(!flag(&ordinary, "features/xr_combine_fold"));
    let req = texts(&ordinary, "backends/gfx950/requires");
    assert!(!has(&req, "PLOW_XR_COMBINE_FOLD=1"));
    assert!(header(&ordinary).contains("#define PLOW_PACKET_REQUIRES_XR_COMBINE_FOLD 0\n#ifndef PLOW_XR_COMBINE_FOLD\n#define PLOW_XR_COMBINE_FOLD 0\n#endif\n"));
}

#[test]
fn kda_fb_fold_is_a_decode_object_requirement() {
    let mut m = model();
    m.progs[1]
        .insts
        .push(inst(DevOp::KdaStateStepG, [1, 12, 128, 16, 5, 0, 1, 0]));
    let man = build(&m, "gfx950");
    assert!(flag(&man, "features/kda_fb_fold"));
    let req = texts(&man, "backends/gfx950/requires");
    assert!(has(&req, "PLOW_KDA_FB_FOLD=1"), "{req:?}");
    assert!(header(&man).contains("#define PLOW_PACKET_REQUIRES_KDA_FB_FOLD 1\n#ifndef PLOW_KDA_FB_FOLD\n#define PLOW_KDA_FB_FOLD 1\n#endif\n"));

    let mut plain = model();
    plain.progs[1]
        .insts
        .push(inst(DevOp::KdaStateStepG, [1, 12, 128, 16, 1, 0, 1, 0]));
    let man = build(&plain, "gfx950");
    assert!(!flag(&man, "features/kda_fb_fold"));
    let req = texts(&man, "backends/gfx950/requires");
    assert!(!has(&req, "PLOW_KDA_FB_FOLD=1"));
    assert!(header(&man).contains("#define PLOW_PACKET_REQUIRES_KDA_FB_FOLD 0\n#ifndef PLOW_KDA_FB_FOLD\n#define PLOW_KDA_FB_FOLD 0\n#endif\n"));
}

#[test]
fn kda_decode_fused_arm_is_a_decode_object_requirement() {
    let mut m = model();
    m.progs[1]
        .insts
        .push(inst(DevOp::KdaStateStepG, [1, 12, 128, 8, 9, 0, 1, 0]));
    let man = build(&m, "gfx950");
    assert!(flag(&man, "features/kda_decode_fused_arm"));
    assert!(!flag(&man, "features/kda_fb_fold"));
    let req = texts(&man, "backends/gfx950/requires");
    assert!(has(&req, "PLOW_KDA_DECODE_FUSED_ARM=1"), "{req:?}");
    assert!(!has(&req, "PLOW_KDA_FB_FOLD=1"));
    let h = header(&man);
    assert!(h.contains("#define PLOW_PACKET_REQUIRES_KDA_DECODE_FUSED_ARM 1\n#ifndef PLOW_KDA_DECODE_FUSED_ARM\n#define PLOW_KDA_DECODE_FUSED_ARM 1\n#endif\n"));
    assert!(!flag(&man, "features/gemv_prefetch"));
    assert!(h.contains("#ifndef PLOW_GEMV_PREFETCH\n#define PLOW_GEMV_PREFETCH 0\n#endif\n"));

    let mut both = model();
    both.progs[1]
        .insts
        .push(inst(DevOp::KdaStateStepG, [1, 12, 128, 8, 13, 0, 1, 0]));
    let man = build(&both, "gfx950");
    assert!(flag(&man, "features/kda_decode_fused_arm"));
    assert!(flag(&man, "features/kda_fb_fold"));

    let man = build(&model(), "gfx950");
    assert!(!flag(&man, "features/kda_decode_fused_arm"));
    assert!(header(&man).contains("#define PLOW_PACKET_REQUIRES_KDA_DECODE_FUSED_ARM 0\n#ifndef PLOW_KDA_DECODE_FUSED_ARM\n#define PLOW_KDA_DECODE_FUSED_ARM 0\n#endif\n"));
}

#[test]
fn flash_arms_split_by_head_dim() {
    let man = build(&model(), "sm_120a");
    let union = texts(&man, "union");
    assert!(has(&union, "FlashDecode/hd256"));
    assert!(has(&union, "FlashDecodeFp8/hd512"));
}

#[test]
fn gv_mm_max_follows_decode_batch() {
    let man = build(&model(), "sm_120a");
    assert_eq!(num(&man, "shapes/decode_batch"), 8);
    assert_eq!(num(&man, "tuning/gv_mm_max"), 8);
    assert_eq!(next_power_of_two(1), 1);
    assert_eq!(next_power_of_two(5), 8);
    assert_eq!(next_power_of_two(16), 16);
}

#[test]
fn gf_full_follows_gqa_when_one_kv_head() {
    let man = build(&model(), "sm_120a");
    assert_eq!(num(&man, "shapes/gqa"), 8);
    assert_eq!(num(&man, "tuning/gf_full"), 8);
}

#[test]
fn gf_full_absent_when_kv_heads_gt_one() {
    let dec = prog(8, vec![inst(DevOp::FlashDecode, [8, 8, 2, 0, 0, 0, 512, 0])]);
    let m = packet(170, 0, vec![dec]);
    assert!(find(&build(&m, "sm_120a"), "tuning/gf_full").is_none());
}

#[test]
fn programs_are_listed_per_bucket() {
    let man = build(&model(), "sm_120a");
    assert_eq!(len(&man, "programs"), 2);
    assert_eq!(text(&man, "programs/0/kind"), "prefill");
    assert_eq!(num(&man, "programs/0/bucket"), 1024);
    assert_eq!(text(&man, "programs/1/kind"), "decode");
    assert_eq!(num(&man, "programs/1/batch"), 8);
    assert!(is_null(&man, "programs/0/segment"));
}

#[test]
fn nvcc_backend_renders_required_flags() {
    let man = build(&model(), "sm_120a");
    let req = texts(&man, "backends/nvcc/requires");
    assert!(has(&req, "PLOW_FP8_KV=1"));
    assert!(has(&req, "PLOW_NV_PREFILL=1"));
    assert!(!has(&req, "PLOW_NV_PF_GEMV_HEAD=1"));
    assert!(!has(&req, "PLOW_NV_W8A8=1"));
    let rec = texts(&man, "backends/nvcc/recommends");
    assert!(has(&rec, "GV_MM_MAX=8"));
    assert!(has(&rec, "PLOW_NV_FA_GF_FULL=8"));
}

#[test]
fn nvcc_prefill_gemv_requirement_follows_program_phase() {
    let mut m = model();
    m.progs[0].insts.push(inst(DevOp::Gemv, [0; 8]));
    let man = build(&m, "sm_120a");
    let req = texts(&man, "backends/nvcc/requires");
    assert!(has(&req, "PLOW_NV_PF_GEMV_HEAD=1"));
}

#[test]
fn pairing_hash_tracks_the_compiled_set() {
    let a = build(&model(), "sm_120a");
    let mut b = build(&model(), "sm_120a");
    assert_eq!(pairing_hash(&a), pairing_hash(&b));
    put(&mut b, "analysis", Json::Str("something else entirely".into()));
    assert_eq!(pairing_hash(&a), pairing_hash(&b));
    put(&mut b, "union", arr(&["Gemv"]));
    assert_ne!(pairing_hash(&a), pairing_hash(&b));
}

#[test]
fn precision_axes_are_a_lookup_not_a_judgement() {
    let man = build(&model(), "gfx950");
    assert_eq!(text(&man, "precision/weight_enc"), "bf16");
    assert_eq!(text(&man, "precision/act_enc"), "bf16", "no QuantFp8 => wide activations");
    assert_eq!(
        text(&man, "precision/kv_enc"),
        "fp8",
        "the KV axis is INDEPENDENT of the weight axis"
    );
    assert_eq!(text(&man, "precision/expert_enc"), "none");
}

#[test]
fn activation_axis_follows_quant_fp8_not_the_weight_flag() {
    let m = packet(256, 0, vec![prog(128, vec![inst(DevOp::GemmFp8, [0; 8])])]);
    let man = build(&m, "gfx950");
    assert_eq!(text(&man, "precision/weight_enc"), "fp8");
    assert_eq!(
        text(&man, "precision/act_enc"),
        "bf16",
        "fp8 weights, bf16 activations = w8a16"
    );
    let m2 = packet(
        256,
        0,
        vec![prog(
            128,
            vec![inst(DevOp::QuantFp8, [0; 8]), inst(DevOp::GemmFp8, [0; 8])],
        )],
    );
    let man2 = build(&m2, "gfx950");
    assert_eq!(text(&man2, "precision/act_enc"), "fp8");
    assert!(flag(&man2, "features/w8a8"));
}

#[test]
fn gfx950_backend_renders_the_axis_defines() {
    let man = build(&model(), "gfx950");
    let req = texts(&man, "backends/gfx950/requires");
    assert!(has(&req, "PLOW_BUCKET_DECODE=0"), "the packet has a prefill bucket");
    assert!(has(&req, "PLOW_FP8_KV=1"));
    assert!(!has(&req, "PLOW_FP8=1"), "bf16 weights must not ask for the fp8 object");
    assert!(!has(&req, "PLOW_MLA_PREFILL=1"), "no MLA ops in this packet");
    assert!(!has(&req, "PLOW_K3=1"), "no K3 block ops in this packet either");
    assert!(matches!(at(&man, "backends/nvcc/requires"), Json::Arr(_)));
}

#[test]
fn a_folded_quant_packet_requires_the_glu_arm() {
    let req = |t3: u32| -> Vec<String> {
        let mut q = inst(DevOp::QuantFp8, [0; 8]);
        q.args.t0 = 0;
        q.args.t1 = 1;
        q.args.t2 = 2;
        q.args.t3 = t3;
        q.args.t4 = 4;
        q.args.t5 = 0;
        q.args.t6 = 0;
        q.args.t7 = 0;
        let m = packet(256, 0, vec![prog(128, vec![q, inst(DevOp::GemmFp8, [0; 8])])]);
        texts(&build(&m, "gfx942"), "backends/gfx942/requires")
    };
    assert!(has(&req(3), "PLOW_T11_GLUQUANT=1"));
    assert!(!has(&req(TENSOR_NONE), "PLOW_T11_GLUQUANT=1"));
}

#[test]
fn a_k3_packet_requires_the_k3_arms() {
    let gfx = |ops: &[DevOp]| -> Vec<String> {
        let p = prog(1, ops.iter().map(|&o| inst(o, [0; 8])).collect());
        texts(&build(&packet(256, 0, vec![p]), "gfx950"), "backends/gfx950/requires")
    };
    for op in [
        DevOp::AttnRes,
        DevOp::SituGlu,
        DevOp::MlaOutGate,
        DevOp::KdaStateStep,
        DevOp::KdaStateStepG,
        DevOp::KdaConv,
        DevOp::KdaConv3,
        DevOp::KdaGatedNorm,
        DevOp::KdaChunkPrepare,
        DevOp::KdaChunkIntra,
        DevOp::KdaChunkWu,
        DevOp::KdaChunkCarry,
    ] {
        assert!(
            has(&gfx(&[op]), "PLOW_K3=1"),
            "{op:?} alone must still require the K3 object"
        );
    }
    assert!(!has(&gfx(&[DevOp::Gemv, DevOp::RmsNorm]), "PLOW_K3=1"));

    assert!(has(&gfx(&[DevOp::KdaChunkCarry]), "PLOW_KDA_CHUNK=1"));
    assert!(!has(&gfx(&[DevOp::KdaStateStepG]), "PLOW_KDA_CHUNK=1"));

    let qpre_req = |enabled: bool| -> Vec<String> {
        let mut carry = inst(DevOp::KdaChunkCarry, [0; 8]);
        carry.args.i4 = u32::from(enabled);
        let m = packet(256, 0, vec![prog(8192, vec![carry])]);
        texts(&build(&m, "gfx950"), "backends/gfx950/requires")
    };
    assert!(has(&qpre_req(true), "PLOW_KDA_CHUNK_QPRE=1"));
    assert!(!has(&qpre_req(false), "PLOW_KDA_CHUNK_QPRE=1"));
}

#[test]
fn k3_object_inventory_covers_every_ordinary_and_lean_arm() {
    let ordinary = [
        DevOp::KdaConv,
        DevOp::KdaGate,
        DevOp::KdaStateStep,
        DevOp::KdaGatedNorm,
        DevOp::AttnRes,
        DevOp::SituGlu,
        DevOp::MlaOutGate,
        DevOp::KdaConv3,
        DevOp::KdaStateStepG,
        DevOp::KdaConvStateStepG,
        DevOp::KdaChunkPrepare,
        DevOp::KdaChunkIntra,
        DevOp::KdaChunkWu,
        DevOp::KdaChunkCarry,
    ];
    let make = |rows| prog(rows, ordinary.iter().map(|&op| inst(op, [0; 8])).collect());
    let mut decode = make(1);
    decode.insts.push(inst(DevOp::KdaDecodeFused, [0; 8]));
    let m = packet(256, 1, vec![make(128), decode]);
    let man = build(&m, "gfx950");
    for phase in ["prefill", "decode"] {
        let arms = texts(&man, &format!("objects/ordinary/{phase}/arms"));
        for op in ordinary {
            let name = format!("{op:?}");
            assert!(
                arms.iter().any(|a| a.split('/').next() == Some(&name)),
                "{phase} inventory misses {name}"
            );
        }
    }
    assert_eq!(
        len(&man, "objects/ordinary/flash/arms"),
        0,
        "a K3-only graph must not pull heavy K3 bodies into flash"
    );
    assert!(flag(&man, "objects/lean/kda_decode_fused/required"));
    assert!(text(&man, "objects/lean/kda_decode_fused/arms/0").starts_with("KdaDecodeFused/abi"));
    let h = header(&man);
    assert!(h.contains("#define PLOW_PACKET_HAS_KDA_DECODE_FUSED 1"));
    assert!(h.contains("#if defined(PLOW_BUCKET_FLASH)\n#define PLOW_HAS_ATTN_RES 0"));

    let decode = at(&man, "objects/ordinary/decode");
    assert!(flag(decode, "inventory_prune_capable"));
    assert_eq!(num(decode, "resource_contract/max_total_registers"), 256);
    assert_eq!(num(decode, "resource_contract/min_occupancy_waves_per_simd"), 2);
    assert!(has(&texts(decode, "families"), "kda"));
    assert!(has(&texts(decode, "excluded_opcodes"), "FlashPrefill"));

    assert_eq!(len(&man, "dispatch_chains"), 2);
    let first = at(&man, "dispatch_chains/0");
    assert_eq!(num(first, "program"), 0);
    assert_eq!(text(first, "kind"), "prefill");
    assert_eq!(num(first, "bucket"), 128);
    assert_eq!(num(first, "aql_replay/packets"), 1);
    assert_eq!(num(first, "phases/0/first_segment"), 0);
    assert_eq!(num(first, "phases/0/last_segment"), 0);
    assert_eq!(
        text(first, "aql_replay/rank_commit"),
        "prepare_all_ranks_then_ring_all"
    );
    assert_eq!(
        num(first, "segments/0/resource_contract/max_private_segment_bytes_delta"),
        0
    );
    assert_eq!(num(&man, "dispatch_chains/1/batch"), 1);
}

#[test]
fn opcode_family_partition_is_model_neutral_and_stable() {
    for (op, family) in [
        ("KdaChunkCarry", "kda"),
        ("MoeGroupDownPf", "moe"),
        ("FlashMlaDecode", "mla"),
        ("FlashDecode", "attention"),
        ("GemvQkvg", "linear"),
        ("NormResidual", "norm_residual"),
        ("XReduceTwoShot", "collective"),
        ("XReduceScatter", "collective"),
        ("XAllGather", "collective"),
        ("Argmax", "elementwise"),
    ] {
        assert_eq!(opcode_family(op), family, "{op}");
    }
    let m = packet(1, 0, vec![prog(1, vec![inst(DevOp::Gemv, [0; 8])])]);
    assert!(is_null(
        &build(&m, "sm_120a"),
        "objects/ordinary/decode/resource_contract"
    ));
}

fn arm_set(arms: Vec<Arm>) -> SortedSet<Arm> {
    let mut s = SortedSet::new();
    for a in arms {
        s.insert(a);
    }
    s
}

#[test]
fn kda_key_factor_pair_changes_the_derived_object_inventory() {
    let arm = |op: &str| Arm {
        op: op.into(),
        hd: None,
        variant: Some("d128_qpre".into()),
    };
    let segment = |op: &str| ProgramArms {
        program: 0,
        decode: false,
        packed_prefill_only: false,
        t: 8192,
        seg: Some(1),
        arms: arm_set(vec![arm(op)]),
        insts: 1,
    };
    let incomplete = object_inventory(&isa(), &vec![segment("KdaChunkWu")], "gfx950");
    assert!(!flag(&incomplete, "lean/kda_key_factor_pair/required"));
    let paired = object_inventory(
        &isa(),
        &vec![segment("KdaChunkWu"), segment("KdaChunkCarry")],
        "gfx950",
    );
    assert!(flag(&paired, "lean/kda_key_factor_pair/required"));
    assert_eq!(
        text(&paired, "lean/kda_key_factor_pair/wu_arms/0"),
        "KdaChunkWu/d128_qpre"
    );
    assert_eq!(
        text(&paired, "lean/kda_key_factor_pair/carry_arms/0"),
        "KdaChunkCarry/d128_qpre"
    );
    assert_ne!(render(&incomplete), render(&paired));
}

#[test]
fn decode_mla_object_requires_one_pure_two_instruction_pair() {
    let arm = |op: &str| Arm {
        op: op.into(),
        hd: None,
        variant: None,
    };
    let segment = |insts, ops: &[&str]| ProgramArms {
        program: 0,
        decode: true,
        packed_prefill_only: false,
        t: 1,
        seg: Some(1),
        arms: arm_set(ops.iter().map(|op| arm(op)).collect()),
        insts,
    };
    let pure = segment(2, &["FlashMlaDecode", "MlaMergeFold"]);
    let inv = object_inventory(&isa(), &vec![pure], "gfx950");
    assert!(flag(&inv, "ordinary/decode_mla/required"));
    let mut manifest = Json::Obj(vec![]);
    put(&mut manifest, "union", arr(&[]));
    put(&mut manifest, "objects", inv);
    assert!(header(&manifest).contains("#define PLOW_PACKET_HAS_DECODE_MLA_SEGMENTS 1"));

    for rejected in [
        segment(1, &["FlashMlaDecode"]),
        segment(3, &["FlashMlaDecode", "MlaMergeFold", "Gemv"]),
    ] {
        assert!(!flag(
            &object_inventory(&isa(), &vec![rejected], "gfx950"),
            "ordinary/decode_mla/required"
        ));
    }
}

fn arm(op: DevOp, i: [u32; 8]) -> Arm {
    arm_of(&isa(), op, &with_i(i)).unwrap()
}

#[test]
fn arm_of_reads_the_head_dim_slot_each_flash_op_actually_uses() {
    let mut i = [0u32; 8];
    i[2] = 128;
    i[3] = 256;
    i[6] = 128;
    assert_eq!(arm(DevOp::FlashMerge, i).hd, Some(256), "FlashMerge takes i[3]");
    assert_eq!(arm(DevOp::FlashPrefill, i).hd, Some(128));
    assert_eq!(arm(DevOp::FlashDecode, i).hd, Some(128));
    assert_eq!(arm(DevOp::FlashDecodeFp8, i).hd, Some(128));
    assert_eq!(arm(DevOp::HeadNormRope, i).hd, Some(128));
    assert_eq!(arm(DevOp::HeadNormRopeFp8, i).hd, Some(128));
    assert_eq!(
        arm(DevOp::Gemv, i).hd,
        None,
        "non-flash ops are not templated on a field"
    );
    let mut real = [0u32; 8];
    real[3] = 512;
    assert_eq!(arm(DevOp::FlashMerge, real).hd, Some(512));
}

#[test]
fn gemm_wide_manifest_preserves_the_selected_tile() {
    assert_eq!(arm(DevOp::GemmWide, [0; 8]).key(), "GemmWide");
    let mut tagged = [0; 8];
    tagged[7] = GEMM_WIDE_C8_TAG;
    assert_eq!(arm(DevOp::GemmWide, tagged).key(), "GemmWide/tile128x384x64");
}

#[test]
fn decode_header_is_an_exact_opcode_and_headnorm_inventory() {
    let mut hn = inst(DevOp::HeadNormRope, [0; 8]);
    hn.args.i2 = 64;
    let decode_ops = [
        DevOp::RmsNorm,
        DevOp::HeadNormRope,
        DevOp::Embed,
        DevOp::Gemv,
        DevOp::Argmax,
        DevOp::ArgmaxFin,
        DevOp::GemvGlu,
        DevOp::XReduce,
        DevOp::MoeCombine,
        DevOp::MoeGroupGluFp8Blk,
        DevOp::MoeGroupDownFp8Blk,
        DevOp::FlashMlaDecode,
        DevOp::MoeRouterTopk,
        DevOp::MlaMergeFold,
        DevOp::KdaGatedNorm,
        DevOp::AttnRes,
        DevOp::SituGlu,
        DevOp::MlaOutGate,
        DevOp::GemvQkvg,
        DevOp::KdaConv3,
        DevOp::KdaStateStepG,
    ];
    let mut insts = vec![hn];
    insts.extend(
        decode_ops
            .iter()
            .copied()
            .filter(|op| *op != DevOp::HeadNormRope)
            .map(|op| inst(op, [0; 8])),
    );
    let m = packet(256, 0, vec![prog(1, insts)]);
    let h = header(&build(&m, "gfx950"));
    for op in ALL {
        let macro_name = format!("PLOW_HAS_{}", stem(&format!("{op:?}")));
        let expected = if decode_ops.contains(&op) { 1 } else { 0 };
        let needle = format!("#elif PLOW_BUCKET_DECODE\n#define {macro_name} {expected}\n");
        assert!(
            h.contains(&needle),
            "decode inventory has the wrong presence value for {op:?}"
        );
    }
    assert!(h.contains("#define PLOW_HAS_HEADNORM_HD64 1"));
    for hd in [128, 256, 512] {
        assert!(h.contains(&format!("#define PLOW_HAS_HEADNORM_HD{hd} 0")));
    }
}

#[test]
fn header_has_presence_and_shape_macros() {
    let h = header(&build(&model(), "sm_120a"));
    assert!(h.contains("#define PLOW_HAS_FLASH_DECODE_FP8 1"));
    assert!(h.contains("#define PLOW_HAS_FLASH_MLA_DECODE 0"));
    assert!(h.contains("#define PLOW_HAS_FLASH_HD512 1"));
    assert!(h.contains("#define GV_MM_MAX 8"));
    assert!(h.contains("#ifndef GV_MM_MAX"));
    assert!(h.contains("PLOW_PACKET_HASH"));
}

#[test]
fn header_derives_chunk_qpre_from_the_exact_arm_variant() {
    let mut qpre = build(&model(), "gfx950");
    put(&mut qpre, "union", arr(&["KdaChunkWu/d128_qpre", "KdaChunkCarry/d128_qpre"]));
    assert!(header(&qpre).contains("#define PLOW_KDA_CHUNK_QPRE 1"));

    let mut ordinary = build(&model(), "gfx950");
    put(&mut ordinary, "union", arr(&["KdaChunkWu/d128", "KdaChunkCarry/d128"]));
    assert!(header(&ordinary).contains("#define PLOW_KDA_CHUNK_QPRE 0"));
}

fn ent(inst: u32, seg: u32) -> StreamEnt {
    StreamEnt {
        inst,
        seg,
        intra_wave_items: false,
        carry_regstate: false,
        wu_lean: false,
    }
}

#[test]
fn wave_item_marker_requires_the_paired_object() {
    let make = |marked: bool| {
        let mut p = prog(8192, vec![inst(DevOp::KdaChunkIntra, [0; 8])]);
        let mut e = ent(0, 0);
        e.intra_wave_items = marked;
        p.stream.push(e);
        packet(256, 0, vec![p])
    };
    let required = build(&make(true), "gfx950");
    assert!(flag(&required, "objects/lean/kda_intra_wave_items/required"));
    assert!(header(&required).contains("#define PLOW_PACKET_REQUIRES_KDA_INTRA_WAVE_ITEMS 1"));

    let rollback = build(&make(false), "gfx950");
    assert!(!flag(&rollback, "objects/lean/kda_intra_wave_items/required"));
    assert!(header(&rollback).contains("#define PLOW_PACKET_REQUIRES_KDA_INTRA_WAVE_ITEMS 0"));
    assert_ne!(pairing_hash(&required), pairing_hash(&rollback));
}

#[test]
fn materialized_residual_input_capability_comes_from_instruction_operands() {
    let make = |fused: bool| {
        let mut attn = inst(DevOp::AttnRes, [0; 8]);
        attn.args.i5 = TENSOR_NONE_I;
        if fused {
            attn.args.t6 = 1;
            attn.args.t7 = 2;
        }
        packet(4, 0, vec![prog(1, vec![attn])])
    };
    let plain = build(&make(false), "gfx950");
    assert!(!flag(&plain, "features/materialized_residual_input"));
    assert!(header(&plain).contains("#define PLOW_MATERIALIZED_RESIDUAL_INPUT 0"));

    let fused = build(&make(true), "gfx950");
    assert!(flag(&fused, "features/materialized_residual_input"));
    assert!(header(&fused).contains("#define PLOW_MATERIALIZED_RESIDUAL_INPUT 1"));
    assert!(has(
        &texts(&fused, "backends/gfx950/requires"),
        "PLOW_MATERIALIZED_RESIDUAL_INPUT=1"
    ));
}

#[test]
fn lean_block_is_false_with_a_reason_when_the_verifier_is_absent() {
    let skipped = LeanReport::skipped(
        "no `plow_verify` binary (set PLOW_VERIFY_BIN, or `lake build` in lean-plow/)".into(),
    );
    let man = build_with(&model(), &facts("gfx950"), &skipped);
    assert!(!flag(&man, "lean/verified"));
    assert!(!flag(&man, "lean/oracle"));
    let reason = text(&man, "lean/reason");
    assert!(
        reason.contains("plow_verify"),
        "reason should name the binary: {reason}"
    );
}

#[test]
fn lean_block_reports_a_clean_verification() {
    let ok = LeanReport { verified: true, oracle: true, reason: None };
    let man = build_with(&model(), &facts("gfx950"), &ok);
    assert!(flag(&man, "lean/verified"));
    assert!(flag(&man, "lean/oracle"));
    assert!(is_null(&man, "lean/reason"));
}

#[test]
fn oracle_and_verify_are_recorded_independently() {
    let oracle_only = LeanReport {
        verified: false,
        oracle: true,
        reason: Some("ordering certificate disabled on the command line".into()),
    };
    let man = build_with(&model(), &facts("gfx950"), &oracle_only);
    assert!(!flag(&man, "lean/verified"));
    assert!(flag(&man, "lean/oracle"));
}

#[test]
fn the_lean_block_does_not_change_the_pairing_hash() {
    let m = model();
    let a = build_with(&m, &facts("gfx950"), &LeanReport::skipped("absent".into()));
    let b = build_with(
        &m,
        &facts("gfx950"),
        &LeanReport { verified: true, oracle: true, reason: None },
    );
    assert_ne!(
        render(at(&a, "lean")),
        render(at(&b, "lean")),
        "the test would be vacuous otherwise"
    );
    assert_eq!(text(&a, "pairing/hash"), text(&b, "pairing/hash"));
}

#[test]
fn the_stated_hash_is_the_manifests_own() {
    let man = build(&model(), "gfx950");
    let h = pairing_hash(&man);
    assert_eq!(text(&man, "pairing/hash"), format!("0x{h:016x}"));
    assert!(header(&man).contains(&format!("#define PLOW_PACKET_HASH 0x{h:016x}ull\n\n")));
    assert_eq!(hex16_text(0x1f), "000000000000001f");
    assert_eq!(hex16_text(u64::MAX), "ffffffffffffffff");
}

#[test]
fn the_hash_is_fnv1a_over_the_compiled_parts() {
    let mut doc = Json::Obj(vec![]);
    let fnv = |bytes: &[u8]| {
        bytes.iter().fold(0xcbf2_9ce4_8422_2325u64, |h, b| {
            (h ^ *b as u64).wrapping_mul(0x1000_0000_01b3)
        })
    };
    assert_eq!(pairing_hash(&doc), fnv(b"\x1e\x1e"));
    put(&mut doc, "union", arr(&["Gemm", "Gemv"]));
    let mut tuning = Json::Obj(vec![]);
    put(&mut tuning, "gv_mm_max", Json::Num(8));
    put(&mut tuning, "gf_full", Json::Num(4));
    put(&mut doc, "tuning", tuning);
    let mut objects = Json::Obj(vec![]);
    put(&mut objects, "b", Json::Bool(true));
    put(&mut objects, "a", Json::Arr(vec![Json::Null, Json::Num(7)]));
    put(&mut doc, "objects", objects);
    assert_eq!(
        pairing_hash(&doc),
        fnv(b"Gemm\x1fGemv\x1f\x1e{\"a\":[null,7],\"b\":true}\x1egf_full=4\x1fgv_mm_max=8\x1f")
    );
}

#[test]
fn documents_are_written_compact_and_indented() {
    let mut doc = Json::Obj(vec![]);
    put(&mut doc, "z", Json::Str("a\"b\n".into()));
    put(&mut doc, "a", Json::Num(1));
    put(&mut doc, "a", Json::Num(2));
    assert_eq!(render(&doc), "{\"a\":2,\"z\":\"a\\\"b\\n\"}");
    let bytes = render_pretty(&doc).unwrap();
    assert_eq!(
        String::from_utf8(bytes).unwrap(),
        "{\n  \"a\": 2,\n  \"z\": \"a\\\"b\\n\"\n}"
    );
}

#[test]
fn unnamed_opcodes_are_skipped_and_table_names_count() {
    let mut m = model();
    m.progs[1].insts.push(inst(DevOp::Other(999), [0; 8]));
    let man = build(&m, "gfx950");
    assert_eq!(texts(&man, "union"), texts(&build(&model(), "gfx950"), "union"));
    assert_eq!(op_name(&isa(), DevOp::Other(999)), None);

    let mut m = model();
    m.progs[1].insts.push(inst(SCATTER, [0; 8]));
    let man = build(&m, "gfx950");
    assert!(has(&texts(&man, "union"), "XReduceScatter"));
    assert!(flag(&man, "features/tensor_parallel"));
    assert!(has(&texts(&man, "backends/gfx950/requires"), "PLOW_SEQ_PAR_SEAMS=1"));
}

/// Two segments of two domains each: attention, then products.
fn segmented() -> PacketProgram {
    let mut p = prog(
        4,
        vec![
            inst(DevOp::FlashMlaDecode, [4, 0, 0, 0, 0, 0, 0, 0]),
            inst(DevOp::MlaMergeFold, [0; 8]),
            inst(DevOp::Gemv, [0; 8]),
        ],
    );
    p.stream = vec![ent(0, 0), ent(1, 0), ent(2, 1), ent(2, 1)];
    p.gq_stream = vec![ent(0, 0), ent(1, 0), ent(2, 1), ent(2, 1)];
    p.gq_seg_ofs = vec![0, 1, 2, 3, 4];
    p.l2_domains = 2;
    p
}

#[test]
fn segments_are_stretches_of_the_stream() {
    let p = segmented();
    let segs = segment_arms(&isa(), &p);
    assert_eq!(segs.len(), 2);
    assert_eq!(segs[0].seg, Some(0));
    assert_eq!(segs[0].insts, 2);
    assert_eq!(segs[0].arms.items.len(), 2);
    assert_eq!(segs[1].seg, Some(1));
    assert_eq!(segs[1].insts, 1);
    assert_eq!(segs[1].arms.items[0].key(), "Gemv");

    let m = packet(256, 0, vec![segmented()]);
    let rows = program_arms(&isa(), &m);
    assert_eq!(rows.len(), 2);
    let man = build(&m, "gfx950");
    assert!(flag(&man, "objects/ordinary/decode_mla/required"));
    assert_eq!(texts(&man, "objects/ordinary/decode/arms"), ["Gemv"]);
    assert_eq!(num(&man, "shapes/decode_batch"), 4);
    let chain = at(&man, "dispatch_chains/0");
    assert_eq!(len(chain, "segments"), 2);
    assert_eq!(len(chain, "phases"), 2);
    assert_eq!(text(chain, "phases/0/object_class"), "flash");
    assert_eq!(text(chain, "phases/1/object_class"), "ordinary");
    assert_eq!(num(chain, "phases/1/first_segment"), 1);
    assert_eq!(num(chain, "aql_replay/packets"), 2);
    assert_eq!(len(&man, "analysis/split_candidates"), 2);
    assert_eq!(
        texts(&man, "analysis/split_candidates/1/exclusive_arms"),
        ["Gemv"]
    );
}

#[test]
fn a_packet_with_a_broken_stream_has_no_manifest() {
    let mut p = segmented();
    p.gq_stream[3].inst = 9;
    assert!(!manifest_fits(&isa(), &packet(256, 0, vec![p])));
    let mut p = segmented();
    p.gq_seg_ofs = vec![0, 4, 2, 3, 1];
    assert!(!manifest_fits(&isa(), &packet(256, 0, vec![p])));
    let wide = prog(1, vec![inst(DevOp::FlashDecode, [0x9000_0000, 8, 1, 0, 0, 0, 64, 0])]);
    assert!(!manifest_fits(&isa(), &packet(256, 0, vec![wide])));
}

#[test]
fn gfx942_states_its_prefill_stage() {
    let man = build(&model(), "gfx942");
    let req = texts(&man, "backends/gfx942/requires");
    assert_eq!(&req[..4], ["PLOW_WG_WAVES=8", "GM_DBUF=1", "GM_BM=192", "GM_BN=256"]);
    assert!(find(&man, "backends/gfx950").is_none());
    let man = build(&model(), "sm_120a");
    assert!(!has(&texts(&man, "backends/gfx950/requires"), "PLOW_WG_WAVES=8"));
}

#[test]
fn tiles_say_where_they_came_from() {
    let source = |lookups, hits| {
        let mut f = facts("gfx950");
        f.tally = Tally { lookups, hits };
        text(&build_with(&model(), &f, &skipped()), "tuning/tile_source")
    };
    assert_eq!(source(4, 0), "analytical");
    assert_eq!(source(4, 4), "measured");
    assert_eq!(source(4, 3), "mixed");
    assert!(find(&build(&model(), "gfx950"), "tuning/tile_source").is_none());
}

#[test]
fn experts_say_their_encoding_in_a_slot_of_their_own() {
    let enc = |insts: Vec<DevInst>| {
        let m = packet(256, 1, vec![prog(128, insts), prog(1, vec![])]);
        let man = build(&m, "gfx950");
        (
            text(&man, "precision/expert_enc"),
            flag(&man, "features/fp8_weights"),
            flag(&man, "features/a4w4"),
        )
    };
    let glu = |e| inst(DevOp::MoeGroupGluPf, [64, 64, 8, e, 0, 0, 0, 0]);
    let dec = |e| inst(DevOp::MoeExpertGluFp8Blk, [0, 0, 0, 256, 0, 0, e, 0]);
    assert_eq!(enc(vec![glu(0)]), ("bf16".into(), false, false));
    assert_eq!(enc(vec![dec(1)]), ("fp8blk".into(), true, false));
    assert_eq!(enc(vec![dec(2)]), ("mxfp4".into(), false, true));
    assert_eq!(enc(vec![dec(1), glu(2)]), ("mixed".into(), true, true));
    assert_eq!(enc(vec![glu(7)]), ("mixed".into(), false, false));
}

#[test]
fn decisions_on_attention_are_listed() {
    let mut d = AttentionDecisions { reports: vec![] };
    let s = select_amd_attention(
        &mut d,
        "amd/gfx950/mi350x".into(),
        256,
        8,
        "le4096".into(),
        "h8".into(),
        16,
        64,
        None,
    );
    assert_eq!(s.nsplit, 16);
    assert_eq!(s.source, AttentionSource::FixedFallback);
    let q = AttentionSelection {
        algorithm: AttentionAlgorithm::SplitReduce,
        nsplit: 4,
        source: AttentionSource::Qualified,
    };
    let s = select_amd_attention(
        &mut d,
        "amd/gfx950/mi350x".into(),
        256,
        8,
        "le4096".into(),
        "h8".into(),
        16,
        64,
        Some(q),
    );
    assert_eq!(s, q);
    let man = build_manifest(&isa(), &model(), &facts("gfx950"), &d.reports, &skipped());
    assert_eq!(len(&man, "attention_policy/entries"), 2);
    assert!(!flag(&man, "attention_policy/entries/0/qualified"));
    assert_eq!(num(&man, "attention_policy/entries/0/selected/nsplit"), 16);
    assert_eq!(
        text(&man, "attention_policy/entries/0/selected/source"),
        "fixed_fallback"
    );
    assert!(flag(&man, "attention_policy/entries/1/qualified"));
    assert_eq!(text(&man, "attention_policy/entries/1/cell/kv_bucket"), "le4096");
    assert_eq!(
        pairing_hash(&man),
        pairing_hash(&build(&model(), "gfx950"))
    );
    assert_eq!(attention_decisions(&d)[1].selected.nsplit, 4);
    clear_attention_decisions(&mut d);
    assert!(attention_decisions(&d).is_empty());
}

#[test]
fn arms_are_listed_in_order_and_once() {
    let mut m = model();
    m.progs[1].insts.push(inst(DevOp::Gemv, [9; 8]));
    m.progs[1].insts.push(inst(DevOp::FlashMerge, [0, 0, 0, 512, 0, 0, 0, 0]));
    m.progs[1].insts.push(inst(DevOp::FlashMerge, [0, 0, 0, 256, 0, 0, 0, 0]));
    m.progs[1].insts.push(inst(DevOp::KdaStateStep, [0, 0, 0, 0, 26, 0, 0, 0]));
    let man = build(&m, "gfx950");
    assert_eq!(
        texts(&man, "union"),
        [
            "FlashDecode/hd256",
            "FlashDecodeFp8/hd512",
            "FlashMerge/hd256",
            "FlashMerge/hd512",
            "FlashPrefill/hd256",
            "Gemm",
            "Gemv",
            "KdaStateStep/flags1a",
        ]
    );
}

fn ops(rows: u32, v: &[DevOp]) -> PacketProgram {
    prog(rows, v.iter().map(|&o| inst(o, [0; 8])).collect())
}

#[test]
fn every_opcode_of_the_recurrent_family_requires_its_object() {
    for op in [DevOp::KdaGate, DevOp::KdaConvStateStepG] {
        let man = build(&packet(256, 0, vec![ops(1, &[op])]), "gfx950");
        assert!(has(&texts(&man, "backends/gfx950/requires"), "PLOW_K3=1"), "{op:?}");
    }
}

#[test]
fn an_attention_prefill_is_no_expert_prefill() {
    let of = |v: &[DevOp]| {
        let man = build(&packet(256, 1, vec![ops(128, v), ops(1, &[DevOp::Gemv])]), "gfx950");
        let req = texts(&man, "backends/gfx950/requires");
        (
            flag(&man, "features/prefill"),
            flag(&man, "features/moe_prefill"),
            has(&req, "PLOW_MOE_PREFILL=1"),
        )
    };
    assert_eq!(of(&[DevOp::FlashMlaPrefill, DevOp::IndexScorePf]), (true, false, false));
    assert_eq!(of(&[DevOp::FlashMlaPrefill, DevOp::MoeAlignPf]), (true, true, true));
    assert_eq!(of(&[DevOp::FlashMlaPrefill, DevOp::MoeGroupGluPf]), (true, true, true));
}

#[test]
fn a_program_that_holds_all_others_is_a_split_candidate() {
    let m = packet(
        256,
        3,
        vec![
            ops(128, &[DevOp::Gemm]),
            ops(512, &[DevOp::Gemv]),
            ops(1024, &[DevOp::Gemm, DevOp::Gemv]),
        ],
    );
    let man = build(&m, "gfx950");
    assert_eq!(len(&man, "analysis/split_candidates"), 1);
    assert_eq!(num(&man, "analysis/split_candidates/0/t"), 1024);
    assert_eq!(len(&man, "analysis/split_candidates/0/exclusive_arms"), 0);
    assert_eq!(text(&man, "analysis/ceiling_owner/0/kind"), "prefill");
    assert_eq!(num(&man, "analysis/ceiling_owner/0/t"), 1024);
    assert_eq!(num(&man, "analysis/ceiling_owner/0/arms"), 2);

    let same = packet(256, 2, vec![ops(128, &[DevOp::Gemm]), ops(512, &[DevOp::Gemm])]);
    assert_eq!(len(&build(&same, "gfx950"), "analysis/split_candidates"), 0);
    let one = packet(256, 1, vec![ops(128, &[DevOp::Gemm])]);
    assert_eq!(len(&build(&one, "gfx950"), "analysis/split_candidates"), 0);
}

#[test]
fn gfx942_adds_its_stage_to_what_gfx950_needs() {
    let req = |m: &Packet, arch: &str| {
        texts(&build(m, arch), &format!("backends/{arch}/requires"))
    };
    let with_prefill = model();
    let mut both = vec![
        "PLOW_WG_WAVES=8".to_string(),
        "GM_DBUF=1".into(),
        "GM_BM=192".into(),
        "GM_BN=256".into(),
    ];
    both.extend(req(&with_prefill, "gfx950"));
    assert_eq!(req(&with_prefill, "gfx942"), both);

    let decode = packet(256, 0, vec![ops(1, &[DevOp::Gemv, DevOp::KdaGate])]);
    assert_eq!(req(&decode, "gfx942"), req(&decode, "gfx950"));
    assert!(!has(&req(&decode, "gfx942"), "PLOW_BUCKET_DECODE=0"));
}
