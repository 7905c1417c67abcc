use devgen::builder::Emission;
use devgen::dense::Program;
use devgen::emit_config::EmitConfig;
use devgen::finish::{final_checks, Refused};
use devgen::gate::{
    arch_gpu_vendors_differ, check_fp8_a_scale_bound, check_gfx950_opcode_coverage,
    check_group_routing_supported, check_nvidia_opcode_coverage, gfx950_dispatched,
    require_mla_geometry, require_mla_rope, require_moe_topk, target_is_amd, uniseg_is_ignored, At,
    GeometryError, RopeError, MOE_MAX_TOPK,
};
use devgen::gemm::gfx950_rungs;
use devgen::isa::{after_none, blank, cus, Args, CuRange, Dep, DevOp, Inst, TENSOR_NONE};
use devgen::refusals::{geometry_refusal_text, rope_refusal_text};
use devgen::router::{emit_gemma_moe_router, gemma_moe_router_split_plan, Router, SplitPlan};
use devgen::xreduce::{
    emit_xalltoall_heads, emit_xreduce, emit_xreduce_gather, emit_xreduce_twoshot_band, Band,
    Gather, HeadExchange, Reduction,
};

fn router_program(plan: Option<SplitPlan>) -> Vec<Inst> {
    router_program_b(plan, 1)
}

fn router_program_b(plan: Option<SplitPlan>, nrow: u32) -> Vec<Inst> {
    let mut s = Emission::new(0);
    let dep = s.emit(DevOp::Nop, cus(1), after_none(), blank());
    let x = Router {
        table: 10,
        resid: 11,
        proj: 12,
        scale: 13,
        pes: 14,
        score: if plan.is_some() { 15 } else { TENSOR_NONE },
        hidden: 2816,
        n_exp: 128,
        top_k: 8,
        root: (2816.0f32).powf(-0.5).to_bits(),
        eps: 1e-6f32.to_bits(),
        nrow,
    };
    emit_gemma_moe_router(&mut s, dep, x, plan);
    s.insts
}

#[test]
fn batched_router_emit_carries_b() {
    let k = EmitConfig::standard();
    let plan = gemma_moe_router_split_plan(&k, 188, 128, 8);
    let p = router_program_b(plan, 8);
    let score = &p[1];
    let topk = &p[2];
    assert_eq!(score.args.i2, 8, "score op carries B");
    assert_eq!(score.cus.blocks(), 128, "8 rows x 128 experts / 8 per CTA");
    assert_eq!(topk.args.i3, 8, "top-k carries B");
    assert_eq!(topk.cus.blocks(), 8, "one top-k CTA per row");
    let p1 = router_program(gemma_moe_router_split_plan(&k, 188, 128, 1));
    assert_eq!(p1[1].args.i2, 0);
    assert_eq!(p1[2].args.i3, 0);
    assert_eq!(p1[2].cus.blocks(), 1);
}

#[test]
fn legacy_router_emit_stays_one_original_opcode() {
    let p = router_program(None);
    assert_eq!(p.len(), 2);
    let r = &p[1];
    assert_eq!(r.op, DevOp::MoeRouterGemma);
    assert_eq!(r.cus.blocks(), 1);
    let a = r.args;
    assert_eq!([a.t0, a.t1, a.t2, a.t3, a.t4], [10, 11, 12, 13, 14]);
    assert_eq!([a.i0, a.i1, a.i2], [2816, 128, 8]);
}

#[test]
fn split_router_emits_parallel_score_then_one_cta_tail() {
    let p = router_program(Some(SplitPlan { blocks: 16, op: DevOp::MoeRouterGemmaScore }));
    assert_eq!(p.len(), 3);
    let score = &p[1];
    let tail = &p[2];
    assert_eq!(score.op, DevOp::MoeRouterGemmaScore);
    assert_eq!(score.cus.blocks(), 16);
    let a = score.args;
    assert_eq!([a.t0, a.t1, a.t2, a.t3], [15, 11, 12, 13]);
    assert_eq!(tail.op, DevOp::MoeRouterGemmaTopk);
    assert_eq!(tail.cus.blocks(), 1);
    let a = tail.args;
    assert_eq!([a.t0, a.t1, a.t2], [10, 15, 14]);
    assert_eq!(tail.deps.len(), 1);
    assert!(matches!(tail.deps[0], Dep::Coarse(1)));
}

#[test]
fn fast_router_is_a_distinct_default_off_score_opcode() {
    let p = router_program(Some(SplitPlan { blocks: 16, op: DevOp::MoeRouterGemmaScoreFast }));
    assert_eq!(p[1].op, DevOp::MoeRouterGemmaScoreFast);
    assert_eq!(p[1].cus.blocks(), 16);
    assert_eq!(p[2].op, DevOp::MoeRouterGemmaTopk);
}

fn immediates(a: &Args) -> [u32; 8] {
    [a.i0, a.i1, a.i2, a.i3, a.i4, a.i5, a.i6, a.i7]
}

#[test]
fn a_reduction_is_one_round_for_decode_and_two_for_prefill() {
    let mut k = EmitConfig::standard();
    let mut s = Emission::new(0);
    s.xgate = 5;
    let dep = s.emit(DevOp::Nop, cus(1), after_none(), blank());
    let d = Reduction { out: 7, elems: 6144, tp: 4, slot: 64 };
    let c = emit_xreduce(&mut s, &k, true, 256, dep, d);
    let i = &s.insts[c as usize];
    assert_eq!((i.op, i.args.t0, i.cus.lo, i.cus.hi), (DevOp::XReduce, 7, 0, 12));
    assert_eq!(immediates(&i.args), [6144, 4, 64, 5, 0, 0, 0, 0]);
    assert_eq!(s.xgate, 6);
    let c = emit_xreduce(&mut s, &k, false, 8, dep, d);
    let i = &s.insts[c as usize];
    assert_eq!((i.op, i.cus.hi), (DevOp::XReduceTwoShot, 8));
    assert_eq!(immediates(&i.args), [6144, 4, 64, 6, 7, 0, 0, 0]);
    assert_eq!(s.xgate, 8);
    let g = Gather { slot: 32, cols: 16, row_w: 64 };
    let c = emit_xreduce_gather(&mut s, &k, false, 8, after_none(), d, Some(g));
    assert_eq!(immediates(&s.insts[c as usize].args), [6144, 4, 64, 8, 32, 16, 64, 0]);
    k.xr2_gather = true;
    let c = emit_xreduce_gather(&mut s, &k, false, 8, after_none(), d, Some(g));
    assert_eq!(immediates(&s.insts[c as usize].args), [6144, 4, 64, 9, 10, 0, 32, 16]);
    let ragged = Gather { row_w: 63, ..g };
    let c = emit_xreduce_gather(&mut s, &k, false, 8, after_none(), d, Some(ragged));
    assert_eq!(s.insts[c as usize].op, DevOp::XReduce);
    assert_eq!(s.xgate, 12);
    let b = Band { e0: 512, residual: Some((21, 22)) };
    let c = emit_xreduce_twoshot_band(&mut s, 32, after_none(), Reduction { elems: 0, ..d }, b);
    let i = &s.insts[c as usize];
    assert_eq!((i.op, i.args.t1, i.args.t2, i.cus.hi), (DevOp::XReduceTwoShot, 21, 22, 1));
    assert_eq!(immediates(&i.args), [0, 4, 64, 12, 13, 512, 0, 0]);
    let b = Band { e0: 0, residual: None };
    let c = emit_xreduce_twoshot_band(&mut s, 32, after_none(), d, b);
    assert_eq!(s.insts[c as usize].args.t1, TENSOR_NONE);
}

#[test]
fn q_form_shape() {
    let mut s = Emission::new(0);
    s.xgate = 5;
    let x = HeadExchange {
        dst: 3,
        rows: 1024,
        nh_local: 8,
        d: 576,
        nh_total: 64,
        tp: 8,
        slot_bytes: 0,
        dir: 0,
    };
    let c = emit_xalltoall_heads(&mut s, CuRange { lo: 0, hi: 4 }, after_none(), x);
    let inst = &s.insts[c as usize];
    assert_eq!(inst.op, DevOp::XAllToAllHeads);
    assert_eq!(inst.args.t0, 3);
    assert_eq!(immediates(&inst.args), [1024, 8, 576, 64, 5, 8, 0, 0]);
    assert_eq!(s.xgate, 6, "gate id consumed exactly once");
}

#[test]
fn o_form_carries_slot_bytes_and_dir() {
    let mut s = Emission::new(0);
    let x = HeadExchange {
        dst: 3,
        rows: 1024,
        nh_local: 8,
        d: 512,
        nh_total: 64,
        tp: 8,
        slot_bytes: 75_497_472,
        dir: 1,
    };
    let c = emit_xalltoall_heads(&mut s, CuRange { lo: 0, hi: 4 }, after_none(), x);
    assert_eq!(
        immediates(&s.insts[c as usize].args),
        [1024, 8, 512, 64, 0, 8, 75_497_472, 1]
    );
}

fn plain(op: DevOp) -> Inst {
    Inst { op, cus: cus(1), deps: vec![], args: blank() }
}

fn with_args(op: DevOp, args: Args) -> Inst {
    Inst { op, cus: cus(1), deps: vec![], args }
}

fn progs(insts: Vec<Inst>) -> Vec<Program> {
    vec![Program { insts }]
}

/// `t3` is the activation scale: unbound for wide activations.
fn fp8_product(op: DevOp, a_scale: u32) -> Vec<Program> {
    progs(vec![with_args(op, Args { t3: a_scale, ..blank() })])
}

#[test]
fn w8a8_fp8_prefill_passes_on_gfx950() {
    assert!(check_fp8_a_scale_bound(&fp8_product(DevOp::GemmFp8, 7), "gfx950", false).is_ok());
}

#[test]
fn w8a16_fp8_prefill_is_fine_on_sm120() {
    let m = fp8_product(DevOp::GemmFp8, TENSOR_NONE);
    assert!(check_fp8_a_scale_bound(&m, "sm_120a", false).is_ok());
}

#[test]
fn an_unbound_scale_is_refused_by_either_sign() {
    let m = fp8_product(DevOp::GemmFp8, TENSOR_NONE);
    let at = At { prog: 0, inst: 0 };
    assert_eq!(check_fp8_a_scale_bound(&m, "gfx950", false), Err(at));
    assert_eq!(check_fp8_a_scale_bound(&m, "sm_120a", true), Err(at));
}

#[test]
fn target_is_amd_reads_either_signal() {
    assert!(target_is_amd("gfx950", false));
    assert!(target_is_amd("", true));
    assert!(target_is_amd("sm_120a", true), "the gpu is enough on its own");
    assert!(!target_is_amd("sm_120a", false));
    assert!(!target_is_amd("", false), "no target => unchanged emission (golden tests)");
}

#[test]
fn every_fp8_rung_is_refused_when_a_scale_is_unbound() {
    for rung in gfx950_rungs() {
        let m = fp8_product(rung.fp8, TENSOR_NONE);
        assert!(
            check_fp8_a_scale_bound(&m, "gfx950", false).is_err(),
            "{:?} is not refused",
            rung.fp8
        );
    }
}

#[test]
fn bf16_packets_are_untouched() {
    let m = progs(vec![plain(DevOp::Gemm)]);
    assert!(check_fp8_a_scale_bound(&m, "gfx950", false).is_ok());
}

#[test]
fn moe_topk_refusal_is_a_threshold_and_names_the_model() {
    for k in 1..=MOE_MAX_TOPK {
        assert_eq!(require_moe_topk(k, "in-bounds"), Ok(()));
    }
    let over = MOE_MAX_TOPK + 1;
    let msg = require_moe_topk(over, "kimi_k3").unwrap_err();
    assert!(msg.contains("kimi_k3"), "refusal must name the model: {msg}");
    assert!(msg.contains("PLOW_MOE_MAX_TOPK"), "must name the limit: {msg}");
    assert!(msg.contains("uninitialised"), "must say what goes wrong: {msg}");
    assert!(msg.starts_with("kimi_k3: top_k = 17 exceeds PLOW_MOE_MAX_TOPK = 16, the width"));
    assert!(msg.contains("the top 16 of 17 experts, "));
    assert!(msg.contains("the remaining 1 table slots"));
}

#[test]
fn an_opcode_without_an_arm_is_listed() {
    assert!(!gfx950_dispatched(DevOp::GemvArgmax));
    let m = progs(vec![plain(DevOp::GemvArgmax), plain(DevOp::Gemv), plain(DevOp::GemvArgmax)]);
    assert_eq!(
        check_gfx950_opcode_coverage(&m, true),
        Err(vec![DevOp::GemvArgmax])
    );
}

#[test]
fn covered_opcodes_pass_and_nvidia_is_never_checked() {
    let m = progs(vec![plain(DevOp::Gemv), plain(DevOp::XReduce)]);
    assert!(check_gfx950_opcode_coverage(&m, true).is_ok());
    let m2 = progs(vec![plain(DevOp::MoeRouterGemma)]);
    assert!(check_gfx950_opcode_coverage(&m2, false).is_ok());
}

#[test]
fn tiles_of_the_other_target_are_listed_once() {
    let m = progs(vec![plain(DevOp::GemmWide), plain(DevOp::GemmC5Fp8), plain(DevOp::GemmWide)]);
    assert_eq!(
        check_nvidia_opcode_coverage(&m, false),
        Err(vec![DevOp::GemmWide, DevOp::GemmC5Fp8])
    );
    assert!(check_nvidia_opcode_coverage(&m, true).is_ok());
}

#[test]
fn routing_in_groups_is_an_amd_router() {
    let args = Args { i2: 8, i6: 8, i7: 4, ..blank() };
    let m = progs(vec![plain(DevOp::Gemv), with_args(DevOp::MoeRouterTopk, args)]);
    assert!(check_group_routing_supported(&m, true).is_ok());
    let g = check_group_routing_supported(&m, false).unwrap_err();
    assert_eq!(g.at, At { prog: 0, inst: 1 });
    assert_eq!((g.n_group, g.topk_group, g.top_k), (8, 4, 8));
    let all = Args { i2: 8, i6: 8, i7: 8, ..blank() };
    let m = progs(vec![with_args(DevOp::MoeRouterTopk, all)]);
    assert!(check_group_routing_supported(&m, false).is_ok());
}

#[test]
fn the_last_checks_refuse_in_order() {
    let unscaled = fp8_product(DevOp::GemmFp8, TENSOR_NONE);
    assert!(matches!(
        final_checks(&unscaled, Err("x".into()), false, "gfx950", false),
        Err(Refused::Uncovered(s)) if s == "x"
    ));
    assert!(matches!(
        final_checks(&unscaled, Err("x".into()), true, "gfx950", false),
        Err(Refused::Scale(At { prog: 0, inst: 0 }))
    ));
    let no_arm = progs(vec![plain(DevOp::GemvArgmax)]);
    assert!(matches!(
        final_checks(&no_arm, Ok(()), false, "gfx950", false),
        Err(Refused::NoArm(v)) if v == [DevOp::GemvArgmax]
    ));
    assert!(final_checks(&no_arm, Ok(()), false, "sm_90a", false).is_ok());
    let foreign = progs(vec![plain(DevOp::GemmC5)]);
    assert!(matches!(
        final_checks(&foreign, Ok(()), false, "sm_90a", false),
        Err(Refused::ForeignTile(v)) if v == [DevOp::GemmC5]
    ));
    let groups = progs(vec![with_args(
        DevOp::MoeRouterTopkPf,
        Args { i2: 8, i6: 4, i7: 2, ..blank() },
    )]);
    assert!(matches!(
        final_checks(&groups, Ok(()), false, "sm_90a", false),
        Err(Refused::Groups(g)) if g.n_group == 4 && g.topk_group == 2
    ));
    assert!(final_checks(&progs(vec![plain(DevOp::Gemv)]), Ok(()), false, "gfx950", true).is_ok());
}

/// What a configuration says of a latent-attention model's rotation.
struct Rope {
    flat: Option<f64>,
    nested: Option<f64>,
    nope: bool,
    kind: Option<&'static str>,
    scaling: bool,
}

const UNSAID: Rope = Rope { flat: None, nested: None, nope: false, kind: None, scaling: false };

fn resolve(v: &Rope) -> Result<Option<f64>, RopeError> {
    let theta = v.flat.or(v.nested);
    require_mla_rope(theta.map(f64::to_bits), v.nope, v.kind, v.scaling)?;
    Ok(theta)
}

/// What is said of a model whose rotation is refused.
fn refusal(model: &str, v: &Rope) -> String {
    let e = resolve(v).unwrap_err();
    let base = v.flat.or(v.nested).map(|t| t.to_string()).unwrap_or_default();
    let kind = format!("{:?}", v.kind.unwrap_or("default"));
    rope_refusal_text(e, model, &base, &kind, v.scaling)
}

#[test]
fn the_theta_comes_from_rope_parameters_not_from_a_default() {
    let v = Rope { nested: Some(8_000_000.0), kind: Some("default"), ..UNSAID };
    assert_eq!(resolve(&v), Ok(v.nested));
    let other = Rope { nested: Some(123_457.0), kind: Some("default"), ..UNSAID };
    assert_eq!(resolve(&other), Ok(other.nested));
    assert_ne!(resolve(&other), resolve(&v), "two configs must not resolve to one theta");
}

#[test]
fn the_top_level_spelling_is_still_read() {
    let v = Rope { flat: Some(10_000.0), ..UNSAID };
    assert_eq!(resolve(&v), Ok(v.flat));
}

#[test]
fn a_nope_model_is_refused_not_given_glms_theta() {
    let v = Rope { nope: true, ..UNSAID };
    assert_eq!(resolve(&v), Err(RopeError::NoPositions));
    let msg = refusal("kimi_k3", &v);
    assert!(msg.starts_with("kimi_k3: `mla_use_nope` is set"), "{msg}");
    assert!(msg.contains("(config theta: absent, consistent with NoPE.)"), "{msg}");
}

#[test]
fn the_nope_refusal_names_the_krot_cache() {
    let msg = refusal("kimi_k3", &Rope { nope: true, ..UNSAID });
    assert!(
        msg.contains("krot"),
        "refusal must name the dangling cache write; got: {msg}"
    );
    assert!(msg.contains("`kv.{l}.krot`"), "{msg}");
}

#[test]
fn a_theta_alongside_use_nope_is_a_contradiction() {
    let v = Rope { nope: true, flat: Some(8_000_000.0), ..UNSAID };
    assert_eq!(resolve(&v), Err(RopeError::Contradiction));
    let msg = refusal("confused", &v);
    assert!(msg.contains("contradict"), "{msg}");
    assert!(
        msg.contains("(config theta: 8000000 — present AND `mla_use_nope`, which contradict.)"),
        "{msg}"
    );
}

#[test]
fn an_absent_theta_is_a_refusal_not_eight_million() {
    assert_eq!(resolve(&UNSAID), Err(RopeError::NoTheta));
    let msg = refusal("mystery_mla", &UNSAID);
    assert!(msg.starts_with("mystery_mla: no RoPE theta in config.json."), "{msg}");
}

#[test]
fn a_scaled_rope_scheme_is_refused_rather_than_silently_unscaled() {
    let v = Rope { nested: Some(500_000.0), kind: Some("yarn"), ..UNSAID };
    assert_eq!(resolve(&v), Err(RopeError::Scaled));
    let msg = refusal("yarned", &v);
    assert!(
        msg.starts_with("yarned: rope_type = \"yarn\", rope_scaling present = false. The MLA"),
        "{msg}"
    );
    assert!(msg.contains("an UNSCALED RoPE at theta 500000 — correct-looking"), "{msg}");
}

#[test]
fn a_legacy_rope_scaling_object_is_refused() {
    let v = Rope { flat: Some(500_000.0), scaling: true, ..UNSAID };
    assert_eq!(resolve(&v), Err(RopeError::Scaled));
    let msg = refusal("scaled", &v);
    assert!(
        msg.starts_with("scaled: rope_type = \"default\", rope_scaling present = true."),
        "{msg}"
    );
}

#[test]
fn an_unusable_theta_is_refused() {
    for bad in [1.0, 0.5, -3.0, f64::INFINITY, f64::NAN, f64::NEG_INFINITY] {
        let v = Rope { flat: Some(bad), ..UNSAID };
        assert_eq!(resolve(&v), Err(RopeError::UnusableTheta), "{bad}");
        assert_eq!(
            refusal("m", &v),
            format!("m: rope_theta = {bad} is not a usable base for cos(p / theta^(2i/d))")
        );
    }
    assert!(resolve(&Rope { flat: Some(f64::MAX), ..UNSAID }).is_ok());
}

#[test]
fn an_unsupported_mla_geometry_is_refused_at_the_config_parse() {
    let bad = |dk: u32, dr: u32, vd: u32| -> String {
        let e = require_mla_geometry(dk, dr, vd).expect_err("must refuse");
        geometry_refusal_text(e, "probe", dk, dr, vd)
    };
    assert_eq!(require_mla_geometry(512, 64, 128), Ok(()));
    assert_eq!(require_mla_geometry(512, 0, 256), Ok(()));

    assert_eq!(require_mla_geometry(384, 64, 128), Err(GeometryError::Latent));
    let m = bad(384, 64, 128);
    assert!(m.contains("384") && m.contains("512"), "names both widths: {m}");
    assert!(m.contains("TEMPLATE ARGUMENT"), "says why it is fixed: {m}");
    assert!(m.contains("op_attention.h"), "names the fix site: {m}");

    assert_eq!(require_mla_geometry(512, 96, 128), Err(GeometryError::Rope));
    let m = bad(512, 96, 128);
    assert!(m.contains("96"), "names the value: {m}");
    assert!(m.contains("mla_gfx950_test.c"), "names the coverage to add: {m}");

    for vd in [0u32, 2, 130] {
        assert_eq!(require_mla_geometry(512, 64, vd), Err(GeometryError::Value));
        let m = bad(512, 64, vd);
        assert!(
            m.contains("PLOW_MLA_FOLD_VEC"),
            "v_head_dim={vd} must name the constant it violates: {m}"
        );
        assert!(m.starts_with(&format!("probe: v_head_dim = {vd} is not")), "{m}");
    }
    for vd in [4u32, 128, 132, 256] {
        assert_eq!(require_mla_geometry(512, 64, vd), Ok(()));
    }
}

#[test]
fn warnings_follow_the_target() {
    assert!(arch_gpu_vendors_differ("sm_120a", Some(true)));
    assert!(arch_gpu_vendors_differ("gfx950", Some(false)));
    assert!(!arch_gpu_vendors_differ("gfx950", Some(true)));
    assert!(!arch_gpu_vendors_differ("gfx950", None));
    assert!(!arch_gpu_vendors_differ("", Some(true)));
    assert!(uniseg_is_ignored(true, true));
    assert!(!uniseg_is_ignored(false, true));
}
