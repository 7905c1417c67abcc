use devgen::amd_target::{mi350x, Priced};
use devgen::args::{CliError, EmitArgs};
use devgen::config::{Arch, Cfg};
use devgen::declare::{Gen, RopeBytes, TensorDecl};
use devgen::dense::{emit_dense_gqa, make_prefill_widths, DenseError, DenseFor, TmapBytes};
use devgen::emit_config::EmitConfig;
use devgen::finish::{
    describe_block, embed_interpreters, final_checks, segment_programs, segmenting, tensor_bytes,
    Refused, SegmentKnobs,
};
use devgen::fusion::{
    apply_verify_gate, install_whole_graph_fusions, whole_graph_parallel_linear2,
    InstalledFusions, LeanReport, ParallelLinear2Decision, WholeGraphFusionDecisions,
};
use devgen::gemm::{KernelCost, QuantScheme, ShapeCosts, TileCycles, TileTable};
use devgen::isa::{Dep, DevOp, TENSOR_NONE};
use devgen::json::take_text;
use devgen::ladder::read_list;
use devgen::mixed_step_emit::{
    append, object_binding, plan, Encoded, Format, MixedError, ObjectSection, PayloadKind,
    ProgramSection, SectionData, Spec, Variant,
};
use devgen::pricing::{price_products, Wanted};
use devgen::products::{dense_products, Product};
use devgen::route::{model_type, placement_is_ignored, prices_tiles, route, route_config, Route};
use devgen::target::IsaLevel;
use devgen::tune::GemmMeasurements;

fn argv(v: &[&str]) -> Vec<String> {
    v.iter().map(|s| s.to_string()).collect()
}

#[test]
fn a_command_line_is_flags_and_positions() {
    let a = EmitArgs::from_cli(
        &argv(&["--tp", "4", "m", "--block=2..5", "4096", "o.pkt", "--embed-cubin", "c", "304"]),
        None,
    )
    .unwrap();
    assert_eq!((a.tp, a.ctx, a.n_cu), (4, 4096, 304));
    assert_eq!((a.dir.as_str(), a.out.as_str()), ("m", "o.pkt"));
    assert_eq!(a.block_spec.as_deref(), Some("2..5"));
    assert_eq!(a.embed_cubin.as_deref(), Some("c"));
    assert_eq!(a.embed_hsaco, None);
    assert!(a.rope_gen);
    assert!(a.l2_layout.is_none() && a.emit_cfg.is_none());

    let a = EmitArgs::from_cli(&argv(&["m", "128"]), Some("7".into())).unwrap();
    assert_eq!((a.tp, a.n_cu, a.out.as_str()), (1, 256, "gemma4.pkt"));
    assert_eq!(a.block_spec.as_deref(), Some("7"));
    let a = EmitArgs::from_cli(&argv(&["m", "128", "o", "many"]), Some(String::new())).unwrap();
    assert_eq!((a.n_cu, a.block_spec), (256, None));
}

#[test]
fn a_command_line_is_refused_for_one_reason() {
    let err = |v: &[&str]| EmitArgs::from_cli(&argv(v), None).err();
    assert_eq!(err(&["m", "1", "--tp"]), Some(CliError::MissingValue));
    assert_eq!(err(&["--tp=x", "m", "1"]), Some(CliError::Devices));
    assert_eq!(err(&["--tp=2"]), Some(CliError::NoDir));
    assert_eq!(err(&["m"]), Some(CliError::Context));
    assert_eq!(err(&["m", "long"]), Some(CliError::Context));
}

#[test]
fn models_go_to_their_emitters() {
    assert_eq!(route("kimi_k3", false, true), Some(Route::KimiK3Full));
    assert_eq!(route("kimi_k3", true, false), Some(Route::KimiK3));
    assert_eq!(route("glm_moe_dsa", true, false), Some(Route::GlmBlock));
    assert_eq!(route("glm_moe_dsa", false, false), Some(Route::GlmFull));
    assert_eq!(route("kimi_k2", true, false), Some(Route::KimiBlock));
    assert_eq!(route("deepseek_v3", true, false), Some(Route::DeepSeekBlock));
    assert_eq!(route("nemotron_h", true, false), Some(Route::NemotronBlock));
    assert_eq!(route("deepseek_v2", false, false), None);
    assert_eq!(route("qwen3", false, false), Some(Route::Dense));
    assert_eq!(route("", true, true), Some(Route::Dense));
    assert!(placement_is_ignored("kimi", true));
    assert!(!placement_is_ignored("kimi", false));
    assert!(!placement_is_ignored("qwen3", true));
    assert!(prices_tiles(true, "gfx950", ""));
    assert!(prices_tiles(false, "", ""));
    assert!(!prices_tiles(false, "sm_90a", ""));
}

#[test]
fn a_models_type_is_read_from_its_configuration() {
    let bytes = |s: &str| s.as_bytes().to_vec();
    assert_eq!(model_type(&bytes(r#"{"model_type":"glm_moe_dsa","x":1.5}"#)), "glm_moe_dsa");
    assert_eq!(model_type(&bytes(r#"{"model_type":3}"#)), "");
    assert_eq!(model_type(&bytes(r#"{"other":"qwen3"}"#)), "");
    assert_eq!(model_type(&bytes(r#"["model_type"]"#)), "");
    assert_eq!(model_type(&bytes("{")), "");
    assert_eq!(model_type(&bytes(r#"{"model_type":"a","model_type":"b"}"#)), "b");
    let read = |s: &str| serde_json::from_str::<serde_json::Value>(s).unwrap();
    assert_eq!(take_text(&read(r#"{"a":"x","b":-1}"#), "a").as_deref(), Some("x"));
    assert_eq!(take_text(&read(r#"{"a":"x","b":-1}"#), "b"), None);
    assert_eq!(take_text(&read(r#"{"a":"x"}"#), "b"), None);
    assert_eq!(take_text(&read(r#""a""#), "a"), None);
    assert_eq!(
        route_config(&bytes(r#"{"model_type":"glm_moe_dsa"}"#), false, false),
        Some(Route::GlmFull)
    );
    assert_eq!(route_config(&bytes(r#"{"model_type":"kimi"}"#), false, false), None);
    assert_eq!(route_config(&bytes("no document"), false, false), Some(Route::Dense));
}

#[test]
fn fusions_hold_for_the_shape_they_were_decided_on() {
    let mut at = InstalledFusions { decisions: None };
    assert!(!whole_graph_parallel_linear2(&at, 64, 32, 128));
    let d = ParallelLinear2Decision { n0: 64, n1: 128, k: 128, instances: 3, qualified: true };
    let w = |d| WholeGraphFusionDecisions { tp: 4, parallel_linear2: vec![d] };
    install_whole_graph_fusions(&mut at, w(d));
    assert!(whole_graph_parallel_linear2(&at, 64, 32, 128));
    assert!(!whole_graph_parallel_linear2(&at, 64, 128, 128));
    install_whole_graph_fusions(&mut at, w(ParallelLinear2Decision { qualified: false, ..d }));
    assert!(!whole_graph_parallel_linear2(&at, 64, 32, 128));
    install_whole_graph_fusions(&mut at, w(ParallelLinear2Decision { instances: 0, ..d }));
    assert!(!whole_graph_parallel_linear2(&at, 64, 32, 128));
}

#[test]
fn a_missing_verification_says_so() {
    let l = apply_verify_gate(None).ok().unwrap();
    assert!(!l.verified && !l.oracle);
    assert_eq!(l.reason.as_deref(), Some("no verification hook supplied by the caller"));
    assert_eq!(apply_verify_gate(Some(Err("bad".into()))).err().as_deref(), Some("bad"));
    let ok = LeanReport { verified: true, oracle: false, reason: None };
    assert!(apply_verify_gate(Some(Ok(ok))).ok().unwrap().verified);
}

fn format() -> Format {
    Format {
        version: 3,
        programs_version: 2,
        object_capability: "mixed".into(),
        programs_capability: "aux".into(),
        metadata_section: "mixed_step".into(),
        sect_programs: 10,
        sect_metadata: 11,
        sect_cubin: 12,
        sect_hsaco: 13,
    }
}

fn object(name: &str, kind: PayloadKind) -> ObjectSection {
    ObjectSection {
        section: name.into(),
        kind,
        version: 3,
        n_cu: 4,
        capability: "mixed".into(),
        capability_version: 3,
        bytes: vec![1, 2, 3],
        machine: Some(if kind == PayloadKind::Cubin { 190 } else { 224 }),
        symbol: Some(3),
        sound_cubin: true,
        sha256: format!("sha-{name}"),
    }
}

fn spec() -> Spec {
    Spec {
        max_active_requests: 8,
        physical_slot_capacity: 16,
        programs: ProgramSection { section: "progs".into(), version: 2, n_cu: 4, programs: 2 },
        objects: vec![object("a", PayloadKind::Cubin), object("b", PayloadKind::Hsaco)],
        variants: vec![
            Variant { rows: 64, decode_rows: 8, program_index: 1, object_indices: vec![1] },
            Variant { rows: 32, decode_rows: 4, program_index: 0, object_indices: vec![0, 1] },
        ],
    }
}

fn encoded() -> Result<Encoded, String> {
    Ok(Encoded { bytes: vec![9, 9], sha256: "sha-p".into(), rows: vec![32, 64] })
}

#[test]
fn a_mixed_step_is_added_behind_what_is_there() {
    let mut sections = vec![SectionData { kind: 1, name: "x".into(), data: vec![7] }];
    let m = plan(&format(), 4, &sections, &spec(), &encoded()).ok().unwrap();
    assert_eq!((m.version, m.n_cu, m.max_active_requests, m.physical_slot_capacity), (3, 4, 8, 16));
    assert_eq!(m.variants.len(), 2);
    assert_eq!(m.variants[0].program.sha256, "sha-p");
    assert_eq!(m.variants[0].objects.len(), 1);
    assert_eq!(m.variants[0].objects[0].section, "b");
    assert_eq!(m.variants[1].objects[0].sha256, "sha-a");
    let r = append(&format(), 4, &mut sections, &spec(), encoded(), Ok(vec![5]));
    assert!(r.is_ok());
    let got: Vec<(u32, &str, usize)> =
        sections.iter().map(|s| (s.kind, s.name.as_str(), s.data.len())).collect();
    assert_eq!(
        got,
        [(1, "x", 1), (10, "progs", 2), (11, "mixed_step", 1), (12, "a", 3), (13, "b", 3)]
    );
}

fn refused(edit: impl Fn(&mut Spec), enc: Result<Encoded, String>) -> String {
    let mut s = spec();
    edit(&mut s);
    let mut sections = vec![SectionData { kind: 12, name: "old".into(), data: vec![] }];
    let e = append(&format(), 4, &mut sections, &s, enc, Ok(vec![])).err().unwrap();
    assert_eq!(sections.len(), 1);
    e.message()
}

#[test]
fn a_mixed_step_is_refused_for_one_reason() {
    let bad = |edit: fn(&mut Spec)| refused(edit, encoded());
    let descriptor = "mixed step emitter: invalid program descriptor";
    assert_eq!(bad(|s| s.programs.version = 1), descriptor);
    assert_eq!(bad(|s| s.programs.n_cu = 5), descriptor);
    assert_eq!(bad(|s| s.programs.programs = 0), descriptor);
    assert_eq!(bad(|s| s.variants.clear()), descriptor);
    assert_eq!(refused(|_| {}, Err("no room".into())), "no room");
    let object = "mixed step emitter: invalid object descriptor or capability";
    assert_eq!(bad(|s| s.objects[0].kind = PayloadKind::Programs), object);
    assert_eq!(bad(|s| s.objects[1].version = 2), object);
    assert_eq!(bad(|s| s.objects[1].n_cu = 2), object);
    assert_eq!(bad(|s| s.objects[1].capability = "x".into()), object);
    assert_eq!(bad(|s| s.objects[1].capability_version = 9), object);
    assert_eq!(bad(|s| s.objects[1].bytes.clear()), object);
    assert_eq!(bad(|s| s.objects[1].machine = Some(190)), object);
    assert_eq!(bad(|s| s.objects[1].symbol = None), object);
    assert_eq!(bad(|s| s.objects[0].sound_cubin = false), "mixed step emitter: invalid CUBIN");
    let duplicate = "mixed step emitter: duplicate section identity";
    assert_eq!(
        bad(|s| {
            s.objects[1] = self::object("a", PayloadKind::Cubin);
        }),
        duplicate
    );
    assert_eq!(
        bad(|s| s.objects[0].section = "old".into()),
        "mixed step emitter: section identity already exists"
    );
    let mismatch = "mixed step emitter: variant program or row mismatch";
    assert_eq!(bad(|s| s.variants[0].program_index = 2), mismatch);
    assert_eq!(bad(|s| s.variants[0].rows = 63), mismatch);
    assert_eq!(
        bad(|s| s.variants[0].object_indices = vec![1, 1]),
        "mixed step emitter: duplicate variant object"
    );
    assert_eq!(
        bad(|s| s.variants[0].object_indices = vec![2]),
        "mixed step emitter: object index out of bounds"
    );
    let unbound = "mixed step emitter: unbound payload section";
    assert_eq!(bad(|s| s.variants[1].object_indices = vec![1]), unbound);
    assert_eq!(bad(|s| s.variants.truncate(1)), unbound);
    let mut sections = vec![];
    let e = append(&format(), 4, &mut sections, &spec(), encoded(), Err("stale".into()));
    assert_eq!(e.err().unwrap().message(), "stale");
    assert!(sections.is_empty());
}

#[test]
fn a_sound_object_is_bound() {
    let o = object("a", PayloadKind::Cubin);
    let b = object_binding(&format(), 4, &o).ok().unwrap();
    assert_eq!((b.section.as_str(), b.version, b.capability.as_str()), ("a", 3, "mixed"));
    assert!(matches!(
        object_binding(&format(), 5, &o),
        Err(MixedError::BadObject)
    ));
}

#[test]
fn interpreters_are_embedded_under_their_names() {
    let s = embed_interpreters(&format(), Some(vec![1]), Some(vec![2, 3]));
    let got: Vec<(u32, &str, usize)> =
        s.iter().map(|s| (s.kind, s.name.as_str(), s.data.len())).collect();
    assert_eq!(got, [(12, "interp_sm120", 1), (13, "interp_gfx950", 2)]);
    assert!(embed_interpreters(&format(), None, None).is_empty());
}

#[test]
fn lean_segments_are_of_amd_prefills() {
    let k = SegmentKnobs {
        fuse_residual_input: true,
        moe_stage2_lean: true,
        moe_stage1_lean: true,
        moe_combine_lean: true,
        kda_intra_cached: true,
        kda_intra_wave_items: true,
        kda_key_factor: true,
        uniseg_max_t: Some(512),
    };
    let s = segmenting(k, true, true, IsaLevel::Gfx950, 512);
    assert!(s.lean_moe_stage1 && s.kda_intra_wave_items && s.deny_uniseg && s.force_uniseg);
    let s = segmenting(k, true, true, IsaLevel::Gfx942, 513);
    assert!(s.lean_moe_stage1 && !s.kda_intra_wave_items && !s.force_uniseg);
    let s = segmenting(k, false, true, IsaLevel::Gfx950, 1);
    assert!(!s.lean_moe_stage1 && s.deny_uniseg && s.fuse_residual_input && !s.force_uniseg);
    let s = segmenting(k, true, false, IsaLevel::Sm90, 128);
    assert!(!s.lean_moe_stage1 && !s.deny_uniseg && s.force_uniseg);
    let m = emit(&EmitConfig::standard(), &cfg(), dense_for(false)).ok().unwrap();
    assert_eq!((m.prefills, m.prog_t.len()), (1, 2));
    let of = |t, prefill| segmenting(k, prefill, true, IsaLevel::Gfx950, t);
    let all = segment_programs(k, &m, true, IsaLevel::Gfx950);
    assert_eq!(all, [of(128, true), of(1, false)]);
}

fn cfg() -> Cfg {
    Cfg {
        arch: Arch::Qwen,
        prefix: "model.".into(),
        layers: 2,
        hidden: 512,
        inter: 1024,
        heads: 8,
        vocab: 4096,
        hd_slide: 64,
        hd_full: 64,
        kvh_slide: 2,
        kvh_full: 2,
        window: 0,
        is_full: vec![true, true],
        k_eq_v: false,
        has_qk_norm: true,
        has_v_norm: false,
        tied: true,
        moe: false,
        n_exp: 0,
        top_k: 0,
        moe_inter: 0,
        mlp_act: 1,
        eps: 1e-6f32.to_bits(),
        emb_scale: 1.0f32.to_bits(),
        attn_scale: 0.125f32.to_bits(),
        softcap: 0,
        router_root: 0,
        tp: 1,
    }
}

#[test]
fn a_block_is_described_by_its_first_layer() {
    let d = describe_block(&cfg(), "m".into(), 0, 2, false, vec![128], 1);
    assert_eq!(d.kv_tensors, ["kv.0.k", "kv.0.v", "kv.1.k", "kv.1.v"]);
    assert_eq!(d.weight_prefix, "model.layers.0.");
    assert_eq!((d.heads, d.head_dim, d.kv_heads, d.hidden), (8, 64, 2, 512));
    assert_eq!(describe_block(&cfg(), "m".into(), 1, 1, true, vec![], 1).kv_tensors.len(), 0);
}

fn dense_for(amd: bool) -> DenseFor {
    DenseFor {
        ctx: 256,
        n_cu: 256,
        first: 0,
        end: 2,
        block_mode: false,
        amd,
        priced: amd,
        isa: if amd { IsaLevel::Gfx950 } else { IsaLevel::Sm120 },
    }
}

fn emit(k: &EmitConfig, c: &Cfg, f: DenseFor) -> Result<devgen::dense::Model, DenseError> {
    emit_priced(k, c, f, vec![])
}

fn emit_priced(
    k: &EmitConfig,
    c: &Cfg,
    f: DenseFor,
    shapes: Vec<ShapeCosts>,
) -> Result<devgen::dense::Model, DenseError> {
    emit_dense_gqa(
        k,
        c,
        &TileTable { shapes },
        f,
        &vec![1.0f32.to_bits(); 2],
        &vec![],
        RopeBytes { cos_slide: 32768, sin_slide: 32768, cos_full: 32768, sin_full: 32768 },
        TmapBytes { view: 128, pair: 256 },
    )
}

#[test]
fn a_dense_model_is_its_prefill_and_decode_programs() {
    let m = emit(&EmitConfig::standard(), &cfg(), dense_for(false)).ok().unwrap();
    assert_eq!(m.prog_t, [128, 1]);
    assert_eq!(m.progs.len(), 2);
    for p in &m.progs {
        assert_eq!(p.insts[0].op, DevOp::Embed);
        for (i, inst) in p.insts.iter().enumerate() {
            for d in &inst.deps {
                let producer = match d {
                    Dep::Coarse(p) => *p,
                    Dep::Fine { producer, .. } => *producer,
                };
                assert!((producer as usize) < i);
            }
        }
    }
    assert!(m.progs[0].insts.iter().any(|i| i.op == DevOp::FlashPrefill));
    assert!(m.progs[1].insts.iter().any(|i| i.op == DevOp::FlashDecode));
    let kv = tensor_bytes(&m.tensors, "kv.");
    assert_eq!(kv, 2 * 2 * 256 * 2 * 64 * 2);
    assert!(tensor_bytes(&m.tensors, "act.") > 0);
}

#[test]
fn a_dense_model_that_has_no_arms_is_refused() {
    let why = |k: &EmitConfig, f: DenseFor| emit(k, &cfg(), f).err().unwrap();
    let of = |k: &EmitConfig, c: Cfg| emit(k, &c, dense_for(false)).err().unwrap();
    let mut k = EmitConfig::standard();
    k.mxfp4 = true;
    assert_eq!(why(&k, dense_for(false)), DenseError::Mxfp4);
    let mixture = Cfg { moe: true, ..cfg() };
    assert_eq!(emit(&k, &mixture, dense_for(true)).err().unwrap(), DenseError::Mxfp4);
    k.fp8 = true;
    assert_eq!(why(&k, dense_for(true)), DenseError::Mxfp4);
    let mut k = EmitConfig::standard();
    k.w8a8 = true;
    assert_eq!(why(&k, dense_for(true)), DenseError::NarrowActivationsAlone);
    let mut k = EmitConfig::standard();
    k.fp8 = true;
    k.w8a8 = true;
    k.w8a16 = true;
    assert_eq!(why(&k, dense_for(true)), DenseError::TwoActivationProfiles);
    let mut k = EmitConfig::standard();
    k.max_chunk = Some(3);
    assert_eq!(why(&k, dense_for(false)), DenseError::Chunk);
    let mut k = EmitConfig::standard();
    k.decode_rungs = vec![];
    assert_eq!(why(&k, dense_for(false)), DenseError::NoRung);
    k.decode_rungs = vec![8, 1];
    assert_eq!(why(&k, dense_for(false)), DenseError::RungsOutOfOrder);
    k.decode_rungs = vec![1, 33];
    assert_eq!(of(&k, Cfg { moe: true, ..cfg() }), DenseError::WideMixture);
    k.decode_rungs = vec![1, 128];
    assert_eq!(why(&k, dense_for(false)), DenseError::RungsOverlapBuckets);
    let k = EmitConfig::standard();
    assert_eq!(of(&k, Cfg { tp: 0, ..cfg() }), DenseError::NoDevice);
    assert_eq!(of(&k, Cfg { vocab: u32::MAX, ..cfg() }), DenseError::Tensors);
    assert_eq!(why(&k, DenseFor { n_cu: 0, ..dense_for(false) }), DenseError::Program(128));
}

/// A price of one tile for an `m x n x k` product.
fn price(m: u32, n: u32, k: u32, op: DevOp) -> ShapeCosts {
    ShapeCosts { m, n, k, quant: QuantScheme::Plain, kernels: vec![KernelCost { op, cost: 1 }] }
}

/// Prices of every product that the model's prefill asks for, plain and narrow.
fn every_price() -> Vec<ShapeCosts> {
    let mut v = vec![];
    for (n, k) in [(512, 512), (128, 512), (1024, 512), (512, 1024)] {
        v.push(price(128, n, k, DevOp::GemmSmall));
        let narrow = price(128, n, k, DevOp::GemmSmallFp8);
        v.push(ShapeCosts { quant: QuantScheme::W8A8, ..narrow });
    }
    v
}

#[test]
fn dense_mxfp4_is_not_silently_bf16() {
    let mut k = EmitConfig::standard();
    k.mxfp4 = true;
    let shapes = [(512, 512), (128, 512), (1024, 512), (512, 1024)]
        .iter()
        .map(|&(n, k)| ShapeCosts {
            quant: QuantScheme::Mxfp4,
            ..price(128, n, k, DevOp::GemmMedMxfp4)
        })
        .collect();
    let m = emit_priced(&k, &cfg(), dense_for(true), shapes).ok().unwrap();
    let count = |p: usize, op: DevOp| m.progs[p].insts.iter().filter(|i| i.op == op).count();
    assert_eq!(count(1, DevOp::GemvMxfp4), 2 * 5);
    assert_eq!(count(1, DevOp::GemvGluMxfp4), 2);
    assert_eq!(count(0, DevOp::GemmMedMxfp4), 2 * 7);
    for wide in [DevOp::Gemm, DevOp::GemmGlu, DevOp::GemvQkv, DevOp::GemvGlu] {
        assert_eq!(count(0, wide) + count(1, wide), 0, "{wide:?}");
    }
    assert!(final_checks(&m.progs, Ok(()), false, "gfx950", true).is_ok());

    let bytes = |name: &str| m.tensors.iter().find(|t| t.name == name).map(|t| t.bytes);
    assert_eq!(bytes("model.layers.0.mlp.down_proj.weight"), None);
    assert_eq!(bytes("mxfp4/model.layers.0.mlp.down_proj.weight"), Some(512 * 1024 / 2));
    assert_eq!(bytes("mxfp4/model.layers.0.mlp.down_proj.weight_scale"), Some(512 * 1024 / 32));
    assert_eq!(bytes("mxfp4/model.layers.1.self_attn.k_proj.weight"), Some(128 * 512 / 2));
}

#[test]
fn a_dense_model_passes_the_last_checks_of_its_target() {
    let check = |k: &EmitConfig, amd: bool| {
        let m = emit_priced(k, &cfg(), dense_for(amd), every_price()).ok().unwrap();
        final_checks(&m.progs, Ok(()), false, if amd { "gfx950" } else { "sm_120a" }, amd)
    };
    let mut k = EmitConfig::standard();
    assert!(check(&k, true).is_ok());
    assert!(check(&k, false).is_ok());
    k.fp8 = true;
    assert!(matches!(check(&k, true), Err(Refused::Scale(at)) if at.prog == 0));
    assert!(check(&k, false).is_ok());
    k.w8a8 = true;
    assert!(check(&k, true).is_ok());
    assert!(check(&k, false).is_ok());
    let mut k = EmitConfig::standard();
    k.fuse_argmax = true;
    assert!(matches!(check(&k, true), Err(Refused::NoArm(v)) if v == [DevOp::GemvArgmax]));
    assert!(check(&k, false).is_ok());
}

#[test]
fn a_priced_target_takes_its_tiles_from_the_table() {
    let k = EmitConfig::standard();
    let prices = || {
        vec![
            price(128, 512, 512, DevOp::GemmSmall),
            price(128, 128, 512, DevOp::GemmWide),
            price(128, 1024, 512, DevOp::GemmMed),
            price(128, 512, 1024, DevOp::GemmC5),
        ]
    };
    let m = emit_priced(&k, &cfg(), dense_for(true), prices()).ok().unwrap();
    let count = |op: DevOp| m.progs[0].insts.iter().filter(|i| i.op == op).count();
    assert_eq!(count(DevOp::GemmSmall), 4);
    assert_eq!(count(DevOp::GemmWide), 4);
    assert_eq!(count(DevOp::GemmMed), 4);
    assert_eq!(count(DevOp::GemmC5), 2);
    assert_eq!(count(DevOp::GemmGlu), 0);
    for missing in 0..4 {
        let mut shapes = prices();
        shapes.remove(missing);
        let e = emit_priced(&k, &cfg(), dense_for(true), shapes).err().unwrap();
        assert_eq!(e, DenseError::Program(128));
    }
}

#[test]
fn prefill_widths_are_ascending_and_capped() {
    let mut k = EmitConfig::standard();
    assert_eq!(make_prefill_widths(&k, false, &vec![], 2048), [128, 512, 1024, 2048]);
    k.pf_ladder_append = Some("256,4096, 512 ".into());
    assert_eq!(make_prefill_widths(&k, false, &vec![], 1024), [128, 256, 512, 1024]);
    assert_eq!(read_list(" +7,x,,\u{a0}4224\t,-1,4294967296,0 1"), [7, 4224]);
    assert!(read_list("").is_empty());
}

#[test]
fn tensor_bytes_go_by_prefix() {
    let t = |name: &str, bytes| TensorDecl { name: name.into(), bytes, gen: Gen::Stored };
    let ts = vec![t("kv.0.k", 5), t("act.x", 7), t("kv.0.v", u64::MAX)];
    assert_eq!(tensor_bytes(&ts, "kv."), 5 + u64::MAX as u128);
    assert_eq!(tensor_bytes(&ts, "in."), 0);
}

fn tensor(m: &devgen::dense::Model, name: &str) -> u32 {
    m.tensors.iter().position(|t| t.name == name).unwrap() as u32
}

fn producer(d: &Dep) -> usize {
    match d {
        Dep::Coarse(p) => *p as usize,
        Dep::Fine { producer, .. } => *producer as usize,
    }
}

/// How many products of the shared narrow copy a program has. Each waits for the instruction that
/// wrote the copy, and nothing has written the norm's output since.
fn current_reads(m: &devgen::dense::Model, p: usize) -> usize {
    let (hn, xqh) = (tensor(m, "act.hn"), tensor(m, "act.xqh"));
    let insts = &m.progs[p].insts;
    let wrote = |i: usize, x: u32| {
        let d = &insts[i];
        d.args.t0 == x || (d.op == DevOp::RmsNorm && d.args.t3 == x)
    };
    let mut n = 0;
    for (i, d) in insts.iter().enumerate() {
        if d.args.t1 == xqh && d.op != DevOp::QuantFp8 {
            let copied = d.deps.iter().map(producer).find(|&j| wrote(j, xqh)).unwrap();
            for j in copied + 1..i {
                assert!(!wrote(j, hn) && !wrote(j, xqh), "instruction {j} before {i}");
            }
            n += 1;
        }
    }
    n
}

#[test]
fn no_product_reads_a_stale_narrow_copy() {
    let gemma = || Cfg { arch: Arch::Gemma4, ..cfg() };
    // A norm that adds the residual as it goes leaves the copy to a step of its own.
    for (gfuse, qnorm, copies) in
        [(false, false, (4, 0)), (true, false, (4, 0)), (false, true, (0, 4)), (true, true, (3, 1))]
    {
        let mut k = EmitConfig::standard();
        k.fp8 = true;
        k.w8a8 = true;
        k.pf_gfuse = gfuse;
        k.qnorm_fuse = qnorm;
        let m = emit_priced(&k, &gemma(), dense_for(true), every_price()).ok().unwrap();
        // Queries, keys, values, gate and up, in each of two layers.
        assert_eq!(current_reads(&m, 0), 2 * 5, "gfuse={gfuse} qnorm={qnorm}");
        let xqh = tensor(&m, "act.xqh");
        let insts = &m.progs[0].insts;
        let steps = insts.iter().filter(|i| i.op == DevOp::QuantFp8 && i.args.t0 == xqh).count();
        let norms = insts.iter().filter(|i| i.op == DevOp::RmsNorm && i.args.t3 == xqh).count();
        assert_eq!((steps, norms), copies);
        // The gating writes its narrow copy itself, whichever norm stands before it.
        let gated = insts.iter().filter(|i| i.op == DevOp::QuantFp8 && i.args.t3 != TENSOR_NONE);
        let glus = insts.iter().filter(|i| i.op == DevOp::Glu).count();
        assert_eq!((gated.count(), glus), if qnorm { (2, 0) } else { (0, 2) });
    }
}

#[test]
fn a_tiled_program_finishes_its_own_norms() {
    let mut k = EmitConfig::standard();
    k.fp8 = true;
    k.w8a8 = true;
    k.pf_gfuse = true;
    let f = DenseFor { isa: IsaLevel::Gfx942, ..dense_for(true) };
    let c = Cfg { arch: Arch::Gemma4, ..cfg() };
    let m = emit_priced(&k, &c, f, every_price()).ok().unwrap();
    assert!(m.tensors.iter().any(|t| t.name == "act.xr"));
    let count = |p: usize, op: DevOp| m.progs[p].insts.iter().filter(|i| i.op == op).count();
    // Behind the attention and at the end of each of two layers.
    assert_eq!(count(0, DevOp::NormResidualNorm), 4);
    assert_eq!(count(0, DevOp::GemvFp8), 0);
    // The decode step folds all but the last into its row products.
    assert_eq!(count(1, DevOp::NormResidualNorm), 1);
}

#[test]
fn activations_do_not_grow_with_the_context() {
    let mut k = EmitConfig::standard();
    k.max_chunk = Some(256);
    let at = |ctx| emit(&k, &cfg(), DenseFor { ctx, ..dense_for(false) }).ok().unwrap();
    let (a, b) = (at(256), at(4096));
    assert_eq!(a.tensors.len(), b.tensors.len());
    for (x, y) in a.tensors.iter().zip(&b.tensors) {
        assert_eq!(x.name, y.name);
        if x.name.starts_with("act.") {
            assert_eq!(x.bytes, y.bytes, "{}", x.name);
        }
    }
    let bytes = |m: &devgen::dense::Model, i: usize| (m.tensors[i].name.clone(), m.tensors[i].bytes);
    assert_eq!(bytes(&a, 0), ("in.ids".into(), 4 * 256));
    assert_eq!(bytes(&b, 0), ("in.ids".into(), 4 * 4096));
    assert_eq!(bytes(&b, 1), ("in.pos".into(), 4 * 4096));
}

#[test]
fn a_priced_model_finds_its_tiles() {
    let part = Priced { spec: mi350x(), isa: IsaLevel::Gfx950 };
    let none = GemmMeasurements { rows: vec![] };
    for narrow in [false, true] {
        let mut k = EmitConfig::standard();
        k.fp8 = narrow;
        k.w8a8 = narrow;
        let f = dense_for(true);
        let v = dense_products(&k, &cfg(), f, &vec![]).unwrap();
        assert_eq!(v.len(), 10);
        let quant = if narrow { QuantScheme::W8A8 } else { QuantScheme::Plain };
        assert_eq!(v[0], Product { m: 128, n: 512, k: 512, quant });
        assert_eq!(v[4], Product { m: 128, n: 128, k: 512, quant });
        assert_eq!(v[7], Product { m: 128, n: 512, k: 1024, quant });
        assert_eq!(v[9], Product { m: 1, n: 4096, k: 512, quant: QuantScheme::Plain });
        let ws = v
            .iter()
            .map(|p| Wanted {
                m: p.m,
                n: p.n,
                k: p.k,
                quant: p.quant,
                case: "".into(),
                cycles: vec![TileCycles { mac: 512, dma: 512 }; 5],
                ids: vec![0; 5],
            })
            .collect();
        let tab = price_products(part, f.n_cu, &none, &ws).unwrap();
        assert!(emit_priced(&k, &cfg(), f, tab.shapes).is_ok());
    }
    let mut k = EmitConfig::standard();
    k.decode_rungs = vec![];
    let e = dense_products(&k, &cfg(), dense_for(true), &vec![]).err();
    assert_eq!(e, Some(DenseError::NoRung));
}

fn two_devices() -> devgen::dense::Model {
    let mut k = EmitConfig::standard();
    k.max_chunk = Some(2048);
    let c = Cfg { tp: 2, ..cfg() };
    emit(&k, &c, DenseFor { ctx: 2048, ..dense_for(false) }).ok().unwrap()
}

#[test]
fn prefill_partials_fit() {
    let m = two_devices();
    assert_eq!(m.prog_t, [128, 512, 1024, 2048, 1]);
    let bytes = |n: &str| m.tensors.iter().find(|t| t.name == n).unwrap().bytes;
    assert_eq!(bytes("act.opart"), 2048 * 4 * 8 * 64 * 4);
    assert_eq!(bytes("act.mlpart"), 2048 * 4 * 8 * 2 * 4);
    let splits = |p: usize| {
        let i = m.progs[p].insts.iter().find(|i| i.op == DevOp::FlashPrefill).unwrap();
        assert_eq!((i.args.i0, i.args.i2), (m.prog_t[p], 4));
        i.args.i7
    };
    assert_eq!([splits(0), splits(1), splits(2), splits(3)], [64, 32, 16, 8]);
    for p in 0..4 {
        let cells = m.prog_t[p] as u64 * 4 * splits(p) as u64;
        assert!(cells * 64 * 4 <= bytes("act.opart"));
        assert!(cells * 2 * 4 <= bytes("act.mlpart"));
    }
}

#[test]
fn partial_sums_lie_apart() {
    let m = two_devices();
    let second = 2048 * 512 * 2;
    for (p, t) in m.progs.iter().zip(&m.prog_t) {
        let op = if *t == 1 { DevOp::XReduce } else { DevOp::XReduceTwoShot };
        let sums: Vec<_> = p.insts.iter().filter(|i| i.op == op).collect();
        let slots: Vec<u32> = sums.iter().map(|i| i.args.i2).collect();
        assert_eq!(slots, [0, second, 0, second]);
        assert!(sums.iter().all(|i| i.args.i0 == t * 512 && 2 * i.args.i0 <= second));
    }
    let bytes = |n: &str| m.tensors.iter().find(|t| t.name == n).unwrap().bytes;
    assert_eq!((bytes("act.og_tp"), bytes("act.dg_tp")), (second as u64, second as u64));
}
