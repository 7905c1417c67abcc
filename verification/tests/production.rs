use std::collections::BTreeMap;

use devgen::knobs::{glm_knobs, glm_recipe, glm_records, Said};
use devgen::production::{
    apply_production_defaults, cublaslt_emit_supported, emit_capabilities, ProductionConfig,
};

/// The settings of a command line.
fn parsed(argv: &[&str]) -> ProductionConfig {
    let mut c = ProductionConfig::unset();
    for a in argv {
        match *a {
            "--fp8" => c.fp8 = true,
            "--w8a8" => c.w8a8 = true,
            "--w8a16" => c.w8a16 = true,
            "--fp8-kv" => c.fp8_kv = true,
            "--mxfp4" => c.mxfp4 = true,
            "--emit-decode-batch-ladder=1" => c.decode_batch_ladder = Some(vec![1]),
            "--emit-packed-prefill=false" => c.emit_packed_prefill = Some(false),
            "--emit-pure-gemm-segments=0" => c.seg_pure_gemm = Some(false),
            "--glm-decode-gemm-group=false" => c.glm.decode_gemm_group = Some(false),
            "--glm-gemm-lt-pf-ext=" => c.glm_gemm_lt_pf_ext = Some(String::new()),
            other => panic!("{other}"),
        }
    }
    c
}

#[test]
fn packet_capabilities_are_explicit() {
    for model_type in [
        "gemma3",
        "gemma3_text",
        "gemma4",
        "gemma4_text",
        "gemma4_unified",
        "gemma4_unified_text",
        "llama",
        "qwen3",
    ] {
        let capabilities = emit_capabilities(model_type);
        assert!(capabilities.dense_packet_contracts);
        assert_eq!(capabilities.gemma, model_type.starts_with("gemma"));
        assert!(capabilities.decode_objects);
        assert_eq!(
            capabilities.cublaslt_decode,
            model_type.starts_with("gemma")
        );
        assert!(capabilities.decode_ladder);
    }
    let qwen = emit_capabilities("qwen3_5");
    assert!(!qwen.dense_packet_contracts);
    assert!(!qwen.gemma);
    assert!(qwen.decode_objects);
    assert!(qwen.cublaslt_decode);
    assert!(!qwen.decode_ladder);
    assert!(emit_capabilities("gpt_oss").decode_ladder);
    for model_type in ["kimi_k3", "glm5_next", "unknown"] {
        let capabilities = emit_capabilities(model_type);
        assert!(!capabilities.dense_packet_contracts);
        assert!(!capabilities.decode_objects);
        assert!(!capabilities.cublaslt_decode);
        assert!(!capabilities.decode_ladder);
    }
}

#[test]
fn production_defaults_are_capability_and_target_driven() {
    for model_type in ["gemma3", "gemma3_text", "gemma4"] {
        let mut cfg = parsed(&[]);
        apply_production_defaults(&mut cfg, emit_capabilities(model_type), "sm_90a", 1, 304);
        assert_eq!(cfg.decode_rungs(), [1, 2, 4, 8, 16]);
        assert!(cfg.decode_ladder_default);
        assert!(cfg.packed_prefill_on());

        let mut disabled =
            parsed(&["--emit-decode-batch-ladder=1", "--emit-packed-prefill=false"]);
        apply_production_defaults(&mut disabled, emit_capabilities(model_type), "sm_90a", 1, 304);
        assert_eq!(disabled.decode_rungs(), [1]);
        assert!(!disabled.decode_ladder_default);
        assert!(!disabled.packed_prefill_on());
    }

    let mut unsupported = parsed(&[]);
    apply_production_defaults(&mut unsupported, emit_capabilities("qwen3_5"), "sm_90a", 1, 304);
    assert_eq!(unsupported.decode_rungs(), [1]);
    assert!(!unsupported.packed_prefill_on());

    let mut amd = parsed(&[]);
    apply_production_defaults(&mut amd, emit_capabilities("gemma4"), "gfx942", 1, 304);
    assert_eq!(amd.decode_rungs(), [1, 2, 4, 8]);
    assert!(amd.decode_ladder_default);
    assert!(amd.packed_prefill_on());
    amd.emit_packed_prefill = Some(false);
    assert!(!amd.packed_prefill_on());

    let mut other_target = parsed(&[]);
    apply_production_defaults(&mut other_target, emit_capabilities("gemma4"), "gfx950", 1, 304);
    assert_eq!(other_target.decode_rungs(), [1]);
    assert!(!other_target.packed_prefill_on());
}

#[test]
fn pure_gemm_default_is_scoped_to_sm90a_gemma_w8a8() {
    let mut qualified = parsed(&["--w8a8"]);
    apply_production_defaults(&mut qualified, emit_capabilities("gemma4"), "sm_90a", 1, 132);
    assert_eq!(qualified.seg_pure_gemm, Some(true));

    let mut disabled = parsed(&["--w8a8", "--emit-pure-gemm-segments=0"]);
    apply_production_defaults(&mut disabled, emit_capabilities("gemma4"), "sm_90a", 1, 132);
    assert_eq!(disabled.seg_pure_gemm, Some(false));

    for (model, arch, tp, w8a8) in [
        ("gemma4", "sm_90a", 1, false),
        ("gemma4", "gfx942", 1, true),
        ("gemma4", "sm_90a", 2, true),
        ("qwen3", "sm_90a", 1, true),
    ] {
        let mut cfg = if w8a8 { parsed(&["--w8a8"]) } else { parsed(&[]) };
        apply_production_defaults(&mut cfg, emit_capabilities(model), arch, tp, 132);
        assert_eq!(cfg.seg_pure_gemm, None, "{model} {arch} tp={tp}");
    }
}

#[test]
fn amd_packed_defaults_require_dense_bf16_single_gpu() {
    for flag in ["--fp8", "--w8a8", "--w8a16", "--fp8-kv"] {
        let mut cfg = parsed(&[flag]);
        apply_production_defaults(&mut cfg, emit_capabilities("gemma4"), "gfx942", 1, 304);
        assert!(!cfg.packed_prefill_on(), "{flag}");
    }
    for (model, tp) in [("gemma4", 2), ("qwen3_5", 1), ("kimi_k3", 1)] {
        let mut cfg = parsed(&[]);
        apply_production_defaults(&mut cfg, emit_capabilities(model), "gfx942", tp, 304);
        assert!(!cfg.packed_prefill_on(), "{model} tp={tp}");
    }
}

#[test]
fn qualified_fp8_weight_metadata_follows_production_defaults() {
    for flag in ["--fp8", "--w8a16"] {
        let mut cfg = parsed(&[flag]);
        apply_production_defaults(&mut cfg, emit_capabilities("gemma4"), "sm_90a", 1, 304);
        assert!(cfg.packed_prefill_on());
        assert!(cfg.packed_prefill_metadata_on());
        cfg.emit_packed_prefill = Some(true);
        assert!(cfg.packed_prefill_metadata_on());
        cfg.emit_packed_prefill = Some(false);
        assert!(!cfg.packed_prefill_on());
        assert!(!cfg.packed_prefill_metadata_on());
    }
    let mut cfg = parsed(&[]);
    apply_production_defaults(&mut cfg, emit_capabilities("gemma4"), "sm_90a", 1, 304);
    assert!(cfg.packed_prefill_metadata_on());
}

#[test]
fn activation_fp8_packing_still_requires_explicit_selection() {
    let mut cfg = parsed(&["--w8a8"]);
    apply_production_defaults(&mut cfg, emit_capabilities("gemma4"), "sm_90a", 1, 304);
    assert!(cfg.packed_prefill_on());
    assert!(!cfg.packed_prefill_metadata_on());
    cfg.emit_packed_prefill = Some(true);
    assert!(cfg.packed_prefill_metadata_on());
}

#[test]
fn cublaslt_emission_rejects_unloadable_combinations() {
    let qwen = emit_capabilities("qwen3_5");
    assert!(cublaslt_emit_supported(qwen, "sm_90a", 1, false));
    assert!(!cublaslt_emit_supported(qwen, "sm_120", 1, false));
    assert!(!cublaslt_emit_supported(qwen, "gfx950", 1, false));
    assert!(!cublaslt_emit_supported(qwen, "sm_90a", 2, false));
    assert!(!cublaslt_emit_supported(qwen, "sm_90a", 1, true));
    for model_type in ["gemma3", "gemma3_text", "gemma4"] {
        assert!(cublaslt_emit_supported(
            emit_capabilities(model_type),
            "sm_90a",
            1,
            false,
        ));
    }
}

#[test]
fn glm_qualified_recipe_defaults_the_lt_groups_and_decode_gemm_group() {
    let qualified = |args: &[&str]| {
        let mut cfg = parsed(args);
        apply_production_defaults(&mut cfg, emit_capabilities("glm_moe_dsa"), "gfx942", 8, 304);
        cfg
    };
    let cfg = qualified(&[]);
    assert!(cfg.glm_setting(cfg.glm.decode_gemm_group));
    assert_eq!(cfg.glm_gemm_lt_pf_ext_spec(), "o_proj,band,shared");
    assert!(!cfg.glm_gemm_lt_pf_ext_spec().contains("router"));

    let mut tp1 = parsed(&[]);
    apply_production_defaults(&mut tp1, emit_capabilities("glm_moe_dsa"), "gfx942", 1, 304);
    assert!(!tp1.glm_setting(tp1.glm.decode_gemm_group));
    assert_eq!(tp1.glm_gemm_lt_pf_ext_spec(), "");

    let off = qualified(&["--glm-decode-gemm-group=false", "--glm-gemm-lt-pf-ext="]);
    assert!(!off.glm_setting(off.glm.decode_gemm_group));
    assert_eq!(off.glm_gemm_lt_pf_ext_spec(), "");
}

#[test]
fn glm_production_recipe_defaults_on_only_for_the_qualified_target() {
    let resolved = |cfg: &ProductionConfig| {
        [
            cfg.glm.fp8_kv,
            cfg.glm.moe_aiter,
            cfg.glm.moe_resident,
            cfg.glm.index_tp,
            cfg.glm.select_local,
            cfg.glm.decode_norm_rows,
            cfg.glm.gemm_lt,
            cfg.glm.gemm_lt_decode,
            cfg.glm.gemm_lt_decode_ext,
        ]
        .map(|v| cfg.glm_setting(v))
    };
    for model in ["glm_moe_dsa", "glm5_next"] {
        let mut cfg = parsed(&[]);
        apply_production_defaults(&mut cfg, emit_capabilities(model), "gfx942", 8, 304);
        assert_eq!(resolved(&cfg), [true; 9], "{model}");
        assert!(cfg.packed_prefill_on(), "{model}");
    }
    for (model, arch, tp, n_cu, flag) in [
        ("glm_moe_dsa", "sm_90a", 8u32, 304u32, None),
        ("glm_moe_dsa", "gfx950", 8, 304, None),
        ("glm_moe_dsa", "gfx942", 1, 304, None),
        ("glm_moe_dsa", "gfx942", 4, 304, None),
        ("glm_moe_dsa", "gfx942", 8, 228, None),
        ("glm_moe_dsa", "gfx942", 8, 304, Some("--mxfp4")),
        ("gemma4", "gfx942", 8, 304, None),
        ("kimi_k3", "gfx942", 8, 304, None),
        ("qwen3_5", "gfx942", 8, 304, None),
    ] {
        let argv: Vec<&str> = flag.into_iter().collect();
        let mut cfg = parsed(&argv);
        apply_production_defaults(&mut cfg, emit_capabilities(model), arch, tp, n_cu);
        assert_eq!(
            resolved(&cfg),
            [false; 9],
            "{model} {arch} tp={tp} n_cu={n_cu} {flag:?}"
        );
    }
}

type Rec = BTreeMap<String, (String, &'static str)>;

/// The settings that a command line and an environment give, with the defaults of a target, and
/// what is recorded of them.
fn resolve_like_plowc(
    argv: &[&str],
    env: &[(&str, &str)],
    model_type: &str,
    arch: &str,
    tp: u32,
    n_cu: u32,
) -> (ProductionConfig, Rec) {
    let mut cli = vec![];
    let mut words = argv.iter().skip(1);
    while let Some(w) = words.next() {
        let flag = w.strip_prefix("--").unwrap();
        let (name, value) = match flag.split_once('=') {
            Some((n, v)) => (n, v),
            None => (flag, *words.next().unwrap()),
        };
        cli.push(Said { id: name.replace('-', "_"), text: value.into() });
    }
    let env: Vec<Said> = env
        .iter()
        .map(|(n, v)| Said {
            id: n.strip_prefix("PLOW_").unwrap().to_lowercase(),
            text: v.to_string(),
        })
        .collect();
    let mut cfg = ProductionConfig::unset();
    cfg.glm = glm_knobs(&cli, &env);
    apply_production_defaults(&mut cfg, emit_capabilities(model_type), arch, tp, n_cu);
    let rec = glm_records(&cfg, &cli, &env)
        .into_iter()
        .map(|k| (k.id, (k.value, k.source.name())))
        .collect();
    (cfg, rec)
}

#[test]
fn glm_recipe_precedence_is_cli_then_env_then_production_default() {
    let (cfg, rec) = resolve_like_plowc(
        &["test", "--glm-gemm-lt=false"],
        &[("PLOW_GLM_SELECT_LOCAL", "0")],
        "glm_moe_dsa",
        "gfx942",
        8,
        304,
    );
    assert!(!cfg.glm_setting(cfg.glm.gemm_lt));
    assert_eq!(rec["glm_gemm_lt"], ("false".into(), "cli"));
    assert!(!cfg.glm_setting(cfg.glm.select_local));
    assert_eq!(rec["glm_select_local"], ("0".into(), "env"));
    for id in [
        "glm_fp8_kv",
        "glm_moe_aiter",
        "glm_moe_resident",
        "glm_index_tp",
        "glm_decode_norm_rows",
        "glm_gemm_lt_decode",
        "glm_gemm_lt_decode_ext",
        "glm_fold_lt",
        "glm_seq_par",
        "glm_seq_par_proj",
    ] {
        assert_eq!(rec[id], ("true".into(), "production_default"), "{id}");
    }
    assert!(cfg.glm_setting(cfg.glm.fold_lt) && cfg.glm_seq_par() && cfg.glm_seq_par_proj());
    assert!(
        cfg.glm_setting(cfg.glm.fp8_kv)
            && cfg.glm_setting(cfg.glm.moe_aiter)
            && cfg.glm_setting(cfg.glm.moe_resident)
            && cfg.glm_setting(cfg.glm.index_tp)
            && cfg.glm_setting(cfg.glm.decode_norm_rows)
            && cfg.glm_setting(cfg.glm.gemm_lt_decode)
            && cfg.glm_setting(cfg.glm.gemm_lt_decode_ext)
    );
}

#[test]
fn glm_recipe_cli_beats_env() {
    let (cfg, rec) = resolve_like_plowc(
        &["test", "--glm-gemm-lt=true", "--glm-moe-aiter=false"],
        &[("PLOW_GLM_GEMM_LT", "0"), ("PLOW_GLM_MOE_AITER", "1")],
        "glm_moe_dsa",
        "gfx942",
        8,
        304,
    );
    assert!(cfg.glm_setting(cfg.glm.gemm_lt) && !cfg.glm_setting(cfg.glm.moe_aiter));
    assert_eq!(rec["glm_gemm_lt"], ("true".into(), "cli"));
    assert_eq!(rec["glm_moe_aiter"], ("false".into(), "cli"));
}

#[test]
fn non_qualified_targets_record_no_glm_production_default() {
    let (cfg, rec) = resolve_like_plowc(&["test"], &[], "glm_moe_dsa", "sm_90a", 8, 304);
    assert!(
        !cfg.glm_setting(cfg.glm.gemm_lt)
            && !cfg.glm_setting(cfg.glm.fp8_kv)
            && !cfg.glm_setting(cfg.glm.moe_resident)
    );
    for k in glm_recipe(&cfg).iter().filter(|k| k.set.is_none()) {
        assert_eq!(rec[&k.id].1, "default", "{}", k.id);
    }
    assert!(!cfg.glm_setting(cfg.glm.fold_lt) && !cfg.glm_seq_par() && !cfg.glm_seq_par_proj());
}

#[test]
fn glm_seq_par_and_fold_defaults_roll_back_per_knob() {
    let resolve = |argv: &[&str], model: &str| -> ((bool, bool, bool), Rec) {
        let (cfg, rec) = resolve_like_plowc(argv, &[], model, "gfx942", 8, 304);
        ((cfg.glm_seq_par(), cfg.glm_seq_par_proj(), cfg.glm_setting(cfg.glm.fold_lt)), rec)
    };
    let glm = |argv: &[&str]| resolve(argv, "glm_moe_dsa");

    assert_eq!(glm(&["test"]).0, (true, true, true));

    let (on, rec) = glm(&["test", "--glm-fold-lt=false"]);
    assert_eq!(on, (true, true, false));
    assert_eq!(rec["glm_fold_lt"], ("false".into(), "cli"));

    let (on, rec) = glm(&["test", "--glm-seq-par-proj=false"]);
    assert_eq!(on, (true, false, true));
    assert_eq!(rec["glm_seq_par_proj"], ("false".into(), "cli"));

    let (on, rec) = glm(&["test", "--glm-seq-par=false"]);
    assert_eq!(on, (false, false, true));
    assert_eq!(rec["glm_seq_par"], ("false".into(), "cli"));
    assert_eq!(rec["glm_seq_par_proj"], ("false".into(), "production_default"));

    for argv in [&["test", "--glm-xr-res=true"][..], &["test", "--glm-xr-band", "4"][..]] {
        let (on, rec) = glm(argv);
        assert_eq!(on, (false, false, true), "{argv:?}");
        assert_eq!(rec["glm_seq_par"], ("false".into(), "production_default"), "{argv:?}");
    }

    let (on, rec) = resolve(&["test"], "gemma4");
    assert_eq!(on, (false, false, false));
    for id in ["glm_fold_lt", "glm_seq_par", "glm_seq_par_proj"] {
        assert_eq!(rec[id].1, "default", "{id}");
    }
}
