use devgen::amd_target::{
    active, decode_arena_halves, emit_is_amd, emit_target, mi300x, mi350x, set_amd_target,
    set_amd_target_for, set_for, with_emit_target_amd, AmdTarget, GpuSpec, Priced, Resolution, Sku,
};
use devgen::gemm::{
    gemm_family_ops, gemm_lds_bytes, gemm_lds_bytes_buffered, gfx950_rungs, glu_fusion_wins,
    glu_fusion_wins_mxfp4, pick_tile, select_gemm_over, tile_cost, tile_operand_bytes,
    tile_step_macs, Field, KernelCost, QuantScheme, Rung, ShapeCosts, Tile, TileCycles, TileTable,
};
use devgen::isa::DevOp;
use devgen::pricing::{is_priceable, price_product, price_products, Wanted};
use devgen::target::{stage_buffers, IsaLevel};
use devgen::tune::{
    amd_rung_specs, gfx950_c8_is_measured_winner, gfx950_gemm_measurements, gfx950_measured_rungs,
    gfx950_prefill_tile_tier, install_gfx950_gemv_cases, pick_gemm_emit_plan, price_shape,
    CalibrationTier, Candidate, GemmMeasurements, KernelRecord, Measured, WidePlan,
};

const N_CU: u32 = 256;
const IDS: [u16; 5] = [1, 2, 3, 4, 5];

/// Cycles of a part that multiplies 2048 pairs and moves 13 bytes a cycle.
fn cycles(t: Tile, k: u32) -> TileCycles {
    TileCycles {
        mac: tile_step_macs(t).div_ceil(2048),
        dma: tile_operand_bytes(t, k as u64).div_ceil(13),
    }
}

fn op_of(g: &Rung, q: QuantScheme) -> DevOp {
    match q {
        QuantScheme::W8A8 => g.fp8,
        QuantScheme::Mxfp4 => g.mxfp4,
        _ => g.bf16,
    }
}

/// The cycles of every rung.
fn rung_cycles(k: u32) -> Vec<TileCycles> {
    gfx950_rungs().iter().map(|g| cycles(g.tile, k)).collect()
}

/// A product priced by the cost model alone.
fn entry(spec: GpuSpec, m: u32, n: u32, k: u32, n_cu: u32, q: QuantScheme) -> ShapeCosts {
    let part = Priced { spec, isa: spec.isa.unwrap() };
    let none = GemmMeasurements { rows: vec![] };
    price_product(part, m, n, k, n_cu, q, &rung_cycles(k), &none, &"".into(), &IDS.into())
}

fn costs(spec: GpuSpec, m: u32, n: u32, k: u32, n_cu: u32, q: QuantScheme) -> Vec<KernelCost> {
    entry(spec, m, n, k, n_cu, q).kernels
}

fn table(m: u32, n: u32, k: u32, n_cu: u32, q: QuantScheme) -> TileTable {
    TileTable { shapes: vec![entry(mi350x(), m, n, k, n_cu, q)] }
}

fn pick(m: u32, n: u32, k: u32, n_cu: u32, q: QuantScheme) -> DevOp {
    pick_tile(true, &table(m, n, k, n_cu, q), m, n, k, q)
}

fn pt(m: u32, n: u32, k: u32) -> DevOp {
    pick(m, n, k, N_CU, QuantScheme::Plain)
}

fn pt_legacy_rungs(m: u32, n: u32, k: u32, n_cu: u32) -> DevOp {
    let q = QuantScheme::Plain;
    select_gemm_over(&table(m, n, k, n_cu, q), m, n, k, q, Field::GluRungs).unwrap()
}

fn pick_tile_legacy(m: u32, n: u32, k: u32, n_cu: u32) -> DevOp {
    let n_cu = (n_cu as u64).max(1);
    let mut best = (DevOp::Gemm, u64::MAX);
    for g in gfx950_rungs().iter().take(3) {
        let t = g.tile;
        if gemm_lds_bytes(t.bm, t.bn, t.bk) > mi350x().shared_mem {
            continue;
        }
        let tiles = (m as u64).div_ceil(t.bm) * (n as u64).div_ceil(t.bn);
        let rounds = tiles.div_ceil(n_cu);
        let c = cycles(t, k);
        let compute = (k as u64).div_ceil(t.bk) * c.mac;
        let cost = rounds.saturating_mul(compute.max(c.dma));
        if cost < best.1 {
            best = (g.bf16, cost);
        }
    }
    best.0
}

const MS: [u32; 12] = [1, 8, 16, 64, 128, 256, 512, 1024, 2048, 4096, 8192, 16384];
const NS: [u32; 12] = [
    128, 512, 1024, 2048, 2560, 4096, 5376, 8192, 9728, 14336, 16384, 21504,
];
const KS: [u32; 8] = [128, 512, 2560, 4096, 5376, 8192, 14336, 21504];
const CUS: [u32; 5] = [1, 64, 128, 256, 304];

#[test]
fn the_original_rungs_still_rank_exactly_as_the_legacy_picker_did() {
    let mut checked = 0usize;
    for &m in &MS {
        for &n in &NS {
            for &k in &KS {
                for &n_cu in &CUS {
                    let want = pick_tile_legacy(m, n, k, n_cu);
                    let got = pt_legacy_rungs(m, n, k, n_cu);
                    assert_eq!(
                        got, want,
                        "diverged at m={m} n={n} k={k} n_cu={n_cu}: \
                             registry chose {got:?}, legacy chose {want:?}"
                    );
                    checked += 1;
                }
            }
        }
    }
    assert_eq!(checked, MS.len() * NS.len() * KS.len() * CUS.len());
}

#[test]
fn every_shape_resolves_on_cost_rather_than_opcode_number() {
    for &m in &MS {
        for &n in &NS {
            for &k in &KS {
                for &n_cu in &CUS {
                    let chosen = pick(m, n, k, n_cu, QuantScheme::Plain);
                    let costs = costs(mi350x(), m, n, k, n_cu, QuantScheme::Plain);
                    let best = costs.iter().map(|c| c.cost).min().unwrap();
                    let ties: Vec<DevOp> =
                        costs.iter().filter(|c| c.cost == best).map(|c| c.op).collect();
                    assert_eq!(
                        ties.len(),
                        1,
                        "m={m} n={n} k={k} n_cu={n_cu}: {ties:?} tie at cost {best}"
                    );
                    assert_eq!(chosen, ties[0], "m={m} n={n} k={k} n_cu={n_cu}");
                }
            }
        }
    }
}

#[test]
fn tile_cost_costs_against_its_spec_not_the_ambient_target() {
    let c5 = Tile { bm: 192, bn: 256, bk: 64 };
    let cost = |spec: GpuSpec, n_cu| {
        tile_cost(
            spec.shared_mem,
            spec.isa,
            Some(c5),
            8192,
            32768,
            2048,
            n_cu,
            cycles(c5, 2048),
        )
    };
    assert_ne!(cost(mi300x(), 304), u64::MAX);
    assert_ne!(cost(mi350x(), 256), u64::MAX);
    let double = GpuSpec { isa: None, ..mi300x() };
    assert_eq!(cost(double, 304), u64::MAX);
    assert_eq!(
        tile_cost(1 << 20, None, None, 1, 1, 1, 1, TileCycles { mac: 1, dma: 1 }),
        u64::MAX
    );
}

#[test]
fn a_cost_is_rounds_times_cycles_and_a_rank() {
    let t = Tile { bm: 128, bn: 256, bk: 64 };
    let c = TileCycles { mac: 10, dma: 100 };
    assert_eq!(
        tile_cost(1 << 20, Some(IsaLevel::Gfx950), Some(t), 256, 512, 128, 2, c),
        2 * 100 * 8 + 4
    );
    let c = TileCycles { mac: 1000, dma: 100 };
    assert_eq!(
        tile_cost(1 << 20, Some(IsaLevel::Gfx950), Some(t), 256, 512, 128, 2, c),
        2 * 2000 * 8 + 4
    );
}

/// What a registry knows of a device.
fn lookup(gpu: &str) -> Option<GpuSpec> {
    match gpu {
        "MI300X" => Some(mi300x()),
        "MI350X" => Some(mi350x()),
        "H100" => Some(GpuSpec {
            sku: Sku::Other,
            isa: Some(IsaLevel::Sm90),
            shared_mem: 233_472,
        }),
        _ => None,
    }
}

#[test]
fn an_absent_or_unknown_gpu_falls_back_to_the_arch_not_to_gfx950() {
    let mut t = AmdTarget { set: None };
    assert_eq!(active(&t).isa, IsaLevel::Gfx950);
    for gpu in ["", "MI300", "H100"] {
        set_amd_target(&mut t, lookup("MI350X"));
        assert_eq!(set_for(&mut t, "gfx942", lookup(gpu)), Resolution::Representative);
        let p = active(&t);
        assert_eq!(p.isa, IsaLevel::Gfx942, "--arch gfx942, --gpu {gpu:?}");
        assert_eq!(p.spec.shared_mem, 64 * 1024, "CDNA3 LDS, --gpu {gpu:?}");
        assert_eq!(p.spec.sku, Sku::Mi300x, "--gpu {gpu:?}");
    }
    assert_eq!(set_for(&mut t, "gfx942", lookup("MI350X")), Resolution::Device);
    assert_eq!(active(&t).isa, IsaLevel::Gfx950);

    set_amd_target(&mut t, lookup("MI300X"));
    assert_eq!(set_amd_target_for(&mut t, "", lookup("")), Resolution::Unchanged);
    assert_eq!(
        active(&t).isa,
        IsaLevel::Gfx942,
        "no arch and no gpu must not clobber a target already set"
    );
    assert_eq!(devgen::amd_target::set(&mut t, lookup("H100")), Resolution::Unchanged);
    assert_eq!(active(&t).isa, IsaLevel::Gfx942);
}

#[test]
fn amd_tile_selection_follows_the_target_hwspec() {
    let (m, n, k, n_cu) = (4096u32, 21504u32, 5376u32, 304u32);
    let dims = |op: DevOp| -> Tile {
        gfx950_rungs()
            .iter()
            .find(|r| r.bf16 == op || r.fp8 == op || r.mxfp4 == op)
            .map(|r| r.tile)
            .expect("chosen tile is a known rung")
    };
    let pick_on = |spec: GpuSpec| {
        let q = QuantScheme::Plain;
        let tab = TileTable { shapes: vec![entry(spec, m, n, k, n_cu, q)] };
        pick_tile(true, &tab, m, n, k, q)
    };
    let mut t = AmdTarget { set: None };
    set_amd_target(&mut t, lookup("MI300X"));
    let p3 = active(&t);
    assert_eq!(p3.isa, IsaLevel::Gfx942, "MI300X must resolve to CDNA3");
    assert_eq!(p3.spec.shared_mem, 64 * 1024, "CDNA3 workgroup LDS");
    let d = dims(pick_on(p3.spec));
    assert!(gemm_lds_bytes_buffered(d.bm, d.bn, d.bk, 1) <= p3.spec.shared_mem);

    set_amd_target(&mut t, lookup("MI350X"));
    let p4 = active(&t);
    assert_eq!(p4.isa, IsaLevel::Gfx950);
    assert_eq!(p4.spec.shared_mem, 160 * 1024, "CDNA4 workgroup LDS");
    let d = dims(pick_on(p4.spec));
    assert!(gemm_lds_bytes_buffered(d.bm, d.bn, d.bk, 2) <= p4.spec.shared_mem);

    assert_eq!(stage_buffers(IsaLevel::Gfx942), 1);
    assert_eq!(stage_buffers(IsaLevel::Gfx950), 2);
}

#[test]
fn each_encoding_selects_from_its_own_rungs() {
    for &m in &MS {
        for &n in &NS {
            for &k in &KS {
                for q in [QuantScheme::Plain, QuantScheme::W8A8, QuantScheme::Mxfp4] {
                    let got = pick(m, n, k, N_CU, q);
                    assert!(
                        gfx950_rungs().iter().any(|g| op_of(g, q) == got),
                        "{q:?} at {m}x{n}x{k} selected {got:?}"
                    );
                }
            }
        }
    }
}

#[test]
fn the_new_rungs_change_the_fill_limited_shapes_and_leave_the_rest() {
    for (m, n, k, legacy, new, label) in [
        (128u32, 128u32, 2816u32, DevOp::GemmSmall, DevOp::GemmSmall, "gemma26b router"),
        (128, 256, 6144, DevOp::GemmSmall, DevOp::GemmSmall, "glm52 router"),
        (128, 576, 6144, DevOp::GemmSmall, DevOp::GemmSmall, "glm52 kv_a_proj"),
        (128, 576, 7168, DevOp::GemmSmall, DevOp::GemmSmall, "kimi kv_a_proj"),
        (128, 512, 3840, DevOp::GemmSmall, DevOp::GemmSmall, "g12b k_proj global"),
        (128, 2112, 2816, DevOp::GemmSmall, DevOp::GemmSmall, "g26b dense gate/up"),
        (256, 8192, 5376, DevOp::GemmSmall, DevOp::GemmSmall, "g31b q M=256"),
        (512, 8192, 5376, DevOp::GemmMed, DevOp::GemmMed, "g31b q M=512"),
        (1024, 8192, 5376, DevOp::Gemm, DevOp::GemmWide, "g31b q M=1024"),
        (4096, 2048, 5376, DevOp::Gemm, DevOp::GemmWide, "g31b kv global M=4096"),
        (8192, 1024, 4096, DevOp::Gemm, DevOp::GemmWide, "llama-8B k/v M=8192"),
        (4096, 5376, 8192, DevOp::Gemm, DevOp::GemmC5, "g31b o M=4096"),
        (4096, 2560, 4096, DevOp::Gemm, DevOp::GemmC5, "qwen o M=4096"),
        (2048, 5376, 21504, DevOp::Gemm, DevOp::GemmC5, "g31b down M=2048"),
    ] {
        assert_eq!(pt_legacy_rungs(m, n, k, N_CU), legacy, "legacy: {label}");
        assert_eq!(pt(m, n, k), new, "new: {label}");
    }
}

#[test]
fn mxfp4_prefill_is_tile_selected_not_pinned() {
    assert_eq!(
        pick(128, 576, 7168, N_CU, QuantScheme::Mxfp4),
        DevOp::GemmSmallMxfp4,
        "Kimi kv_a_proj: the narrow-M rung, not the 256x256 default"
    );
    assert_eq!(
        pick(128, 576, 6144, N_CU, QuantScheme::Mxfp4),
        DevOp::GemmSmallMxfp4,
        "GLM-5.2 kv_a_proj"
    );
    assert_ne!(
        pick(8192, 8192, 5376, N_CU, QuantScheme::Mxfp4),
        DevOp::GemmSmallMxfp4,
        "a saturating shape must not get the narrow tile"
    );
}

#[test]
fn llama31_8b_prefill_4k() {
    assert_eq!(pt(4096, 4096, 4096), DevOp::Gemm, "q_proj");
    assert_eq!(pt(4096, 4096, 4096), DevOp::Gemm, "o_proj");
    assert_eq!(pt(4096, 1024, 4096), DevOp::GemmMed, "k_proj / v_proj");
    assert_eq!(pt(4096, 14336, 4096), DevOp::Gemm, "gate/up (fused)");
    assert_eq!(pt(4096, 4096, 14336), DevOp::Gemm, "down_proj");
}

#[test]
fn llama31_8b_prefill_8k_kv_already_half_full() {
    assert_eq!(pt(8192, 1024, 4096), DevOp::GemmWide, "k/v at 8k");
}

#[test]
fn qwen3_4b_prefill_4k() {
    assert_eq!(pt(4096, 4096, 2560), DevOp::Gemm, "q_proj");
    assert_eq!(pt(4096, 1024, 2560), DevOp::GemmMed, "k_proj / v_proj (fill)");
    assert_eq!(pt(4096, 9728, 2560), DevOp::Gemm, "gate/up");
    assert_eq!(pt(4096, 2560, 9728), DevOp::GemmC5, "down_proj (fill: 62.5% -> 86%)");
}

#[test]
fn gemma31b_tiles() {
    assert_eq!(pt(4096, 8192, 5376), DevOp::Gemm, "q sliding (32x32 = 1024 tiles)");
    assert_eq!(pt(4096, 16384, 5376), DevOp::Gemm, "q global");
    assert_eq!(pt(4096, 4096, 5376), DevOp::Gemm, "kv sliding (N=4096, 16x16 = 256)");
    assert_eq!(pt(4096, 21504, 5376), DevOp::Gemm, "gate/up");
    assert_eq!(pt(4096, 5376, 8192), DevOp::GemmC5, "o sliding (quantization: 66% -> 90%)");
    assert_eq!(pt(4096, 5376, 21504), DevOp::GemmC5, "down (same N, same quantization)");
    assert_eq!(pt(4096, 2048, 5376), DevOp::GemmWide, "kv global (fill: 50% -> 100%)");
}

#[test]
fn short_prompt_buckets_use_narrow_tiles() {
    assert_eq!(pt(128, 8192, 5376), DevOp::GemmSmall, "T=128 q sliding");
    assert_ne!(pt(128, 4096, 4096), DevOp::Gemm, "T=128 must not pick the big tile");
}

#[test]
fn stages_take_the_memory_of_their_buffers() {
    assert_eq!(gemm_lds_bytes(192, 256, 64), 129_024);
    assert_eq!(gemm_lds_bytes_buffered(192, 256, 64, 1), 64_512);
    assert_eq!(decode_arena_halves(&AmdTarget { set: None }), 2 * 512 * 72);
    assert_eq!(gemm_family_ops().len(), 15);
    assert_eq!(gemm_family_ops()[4], DevOp::GemmMedFp8);
}

#[test]
fn an_unpriced_target_has_one_tile_to_an_encoding() {
    let tab = table(1024, 8192, 5376, N_CU, QuantScheme::Plain);
    assert_eq!(pick_tile(false, &tab, 1024, 8192, 5376, QuantScheme::Plain), DevOp::Gemm);
    assert_eq!(pick_tile(false, &tab, 1, 1, 1, QuantScheme::W8A8), DevOp::GemmFp8);
    assert_eq!(pick_tile(false, &tab, 1, 1, 1, QuantScheme::Mxfp4), DevOp::GemmMxfp4);
    assert!(glu_fusion_wins(false, false, &tab, 1024, 8192, 5376));
    assert!(!glu_fusion_wins(false, true, &tab, 1024, 8192, 5376));
    assert!(glu_fusion_wins_mxfp4(false, &tab, 1024, 8192, 5376));
}

#[test]
fn gating_is_fused_where_the_widest_tile_wins() {
    let q = QuantScheme::Plain;
    assert!(glu_fusion_wins(true, false, &table(4096, 14336, 4096, N_CU, q), 4096, 14336, 4096));
    assert!(!glu_fusion_wins(true, false, &table(128, 14336, 4096, N_CU, q), 128, 14336, 4096));
    let q = QuantScheme::Mxfp4;
    assert!(glu_fusion_wins_mxfp4(true, &table(4096, 8192, 4096, N_CU, q), 4096, 4096, 4096));
    assert!(!glu_fusion_wins_mxfp4(true, &table(128, 8192, 4096, N_CU, q), 128, 4096, 4096));
}

fn record(case: &str, kernel_id: u16, median: u64) -> KernelRecord {
    KernelRecord {
        case: case.into(),
        kernel_id,
        median,
        selectable: true,
        stale: false,
        decode_gemv: false,
    }
}

#[test]
fn the_best_current_measurement_counts() {
    let mut old = record("a", 8, 1);
    old.stale = true;
    let mut draft = record("a", 8, 2);
    draft.selectable = false;
    let rs = vec![
        record("a", 8, 50),
        old,
        draft,
        record("a", 8, 40),
        record("a", 8, 45),
        record("a", 15, 60),
        record("b", 8, 7),
    ];
    let (m, stale) = gfx950_gemm_measurements(&rs);
    assert_eq!(stale, 1);
    assert_eq!(gfx950_measured_rungs(&m, &"a".into()), 2);
    assert_eq!(gfx950_measured_rungs(&m, &"b".into()), 1);
    assert_eq!(gfx950_measured_rungs(&m, &"c".into()), 0);
    assert!(m.variant_is_winner(&"a".into(), 8));
    assert!(!m.variant_is_winner(&"a".into(), 15));
    assert!(!m.variant_is_winner(&"a".into(), 14));
    assert!(!gfx950_c8_is_measured_winner(&m, &"c".into(), 8));
}

#[test]
fn measurements_decide_only_where_every_candidate_has_one() {
    let (m, _) = gfx950_gemm_measurements(&vec![record("a", 8, 50), record("a", 15, 20)]);
    let c = |op, kernel_id, analytic| Candidate { op, kernel_id, analytic };
    let two = vec![c(DevOp::Gemm, 8, 1), c(DevOp::GemmMed, 15, 9)];
    assert_eq!(
        gfx950_prefill_tile_tier(&m, &"a".into(), &two),
        CalibrationTier::SkuCalibrated
    );
    let p = price_shape(&m, &"a".into(), &two);
    assert_eq!((p[0].cost, p[1].cost), (50, 20));
    let mut three = two;
    three.push(c(DevOp::GemmSmall, 14, 5));
    assert_eq!(
        gfx950_prefill_tile_tier(&m, &"a".into(), &three),
        CalibrationTier::Portable
    );
    let p = price_shape(&m, &"a".into(), &three);
    assert_eq!((p[0].cost, p[1].cost, p[2].cost), (1, 9, 5));
}

#[test]
fn decode_cases_are_listed_once() {
    let gemv = |case: &str| KernelRecord { decode_gemv: true, ..record(case, 1, 1) };
    let mut stale = gemv("c");
    stale.stale = true;
    let rs = vec![gemv("a"), record("b", 1, 1), gemv("d"), gemv("a"), stale];
    assert_eq!(install_gfx950_gemv_cases(&rs), ["a", "d"]);
}

#[test]
fn the_widest_variant_is_taken_where_it_fills_the_machine_once() {
    let w = WidePlan { bm: 128, bn: 384, bk: 64, op: DevOp::GemmWide, tag: 200 };
    let tab = TileTable {
        shapes: [(4096, 3072), (4096, 3073), (8192, 3072)]
            .iter()
            .flat_map(|&(m, n)| table(m, n, 4096, N_CU, QuantScheme::Plain).shapes)
            .collect(),
    };
    let plan = |m, n, amd, isa, on, won| {
        pick_gemm_emit_plan(
            Some(w),
            amd,
            isa,
            &tab,
            m,
            n,
            4096,
            N_CU,
            QuantScheme::Plain,
            on,
            won,
        )
    };
    let p = plan(4096, 3072, true, IsaLevel::Gfx950, true, true);
    assert_eq!((p.op, p.blocks, p.tag), (DevOp::GemmWide, 256, 200));
    for p in [
        plan(4096, 3072, false, IsaLevel::Gfx950, true, true),
        plan(4096, 3072, true, IsaLevel::Gfx942, true, true),
        plan(4096, 3072, true, IsaLevel::Gfx950, false, true),
        plan(4096, 3072, true, IsaLevel::Gfx950, true, false),
        plan(4096, 3073, true, IsaLevel::Gfx950, true, true),
        plan(8192, 3072, true, IsaLevel::Gfx950, true, true),
    ] {
        assert_eq!(p.tag, 0);
        assert_eq!(p.blocks, 256);
    }
}

#[test]
fn kernels_are_named_by_part_opcode_and_build() {
    let s = amd_rung_specs("b7", IsaLevel::Gfx942);
    assert_eq!(s.len(), 15);
    assert_eq!(s[4].op, DevOp::GemmMedFp8);
    assert_eq!(s[4].quant, QuantScheme::W8A8);
    assert!(s[4].fp8_math);
    assert_eq!(s[4].tile.bm, 128);
    assert_eq!(s[4].body, "gfx942:PLOW_DOP_GEMM_MED_FP8@b7");
    assert!(!s[5].fp8_math);
    assert_eq!(s[5].body, "gfx942:PLOW_DOP_GEMM_MED_MXFP4@b7");
}

#[test]
fn a_change_of_target_ends_with_its_call() {
    let mut t = emit_target();
    assert!(emit_is_amd(&t));
    let tab = TileTable { shapes: vec![] };
    let op = with_emit_target_amd(&mut t, false, |amd| {
        pick_tile(amd, &tab, 1, 1, 1, QuantScheme::W8A8)
    });
    assert_eq!(op, DevOp::GemmFp8);
    assert!(emit_is_amd(&t));
}

#[test]
fn a_product_is_priced_at_the_cost_of_every_rung() {
    let e = entry(mi350x(), 4096, 1024, 4096, N_CU, QuantScheme::W8A8);
    assert_eq!((e.m, e.n, e.k, e.quant), (4096, 1024, 4096, QuantScheme::W8A8));
    for (g, c) in gfx950_rungs().iter().zip(&e.kernels) {
        assert_eq!(c.op, g.fp8);
        let spec = mi350x();
        let want = tile_cost(
            spec.shared_mem,
            spec.isa,
            Some(g.tile),
            4096,
            1024,
            4096,
            N_CU,
            cycles(g.tile, 4096),
        );
        assert_eq!(c.cost, want);
    }
    // 32 x 8 tiles of 128 x 128 in one round, whose 2 MiB of traffic outlast 64 steps of 512
    // cycles, and rank 6.
    assert_eq!(e.kernels[1].cost, 161_320 * 8 + 6);
}

#[test]
fn the_part_and_its_units_decide_the_tile() {
    let on = |spec, n_cu| {
        let q = QuantScheme::Plain;
        let tab = TileTable { shapes: vec![entry(spec, 4096, 1024, 4096, n_cu, q)] };
        pick_tile(true, &tab, 4096, 1024, 4096, q)
    };
    assert_eq!(on(mi350x(), 256), DevOp::GemmMed);
    assert_eq!(on(mi350x(), 1), DevOp::Gemm);
    // One buffer of a 256 x 256 tile takes more than the 64 KiB of this part.
    assert_ne!(on(mi300x(), 1), DevOp::Gemm);
}

#[test]
fn measurements_decide_once_every_rung_has_one() {
    let part = Priced { spec: mi350x(), isa: IsaLevel::Gfx950 };
    let q = QuantScheme::Plain;
    let row = |id: u16, median| Measured { case: "x".into(), kernel_id: id, median };
    let mut ms = GemmMeasurements { rows: vec![row(1, 9), row(2, 8), row(3, 7), row(4, 6)] };
    let pick = |ms: &GemmMeasurements| {
        let cyc = rung_cycles(4096);
        let ids: Vec<u16> = IDS.into();
        let e = price_product(part, 4096, 4096, 4096, N_CU, q, &cyc, ms, &"x".into(), &ids);
        let costs: Vec<u64> = e.kernels.iter().map(|c| c.cost).collect();
        let tab = TileTable { shapes: vec![e] };
        (pick_tile(true, &tab, 4096, 4096, 4096, q), costs)
    };
    assert_eq!(pick(&ms).0, DevOp::Gemm);
    ms.rows.push(row(5, 20));
    assert_eq!(pick(&ms), (DevOp::GemmWide, vec![9, 8, 7, 6, 20]));
}

#[test]
fn a_list_of_products_is_priced_in_order() {
    let part = Priced { spec: mi350x(), isa: IsaLevel::Gfx950 };
    let none = GemmMeasurements { rows: vec![] };
    let wanted = |m, quant| Wanted {
        m,
        n: 1024,
        k: 4096,
        quant,
        case: "".into(),
        cycles: rung_cycles(4096),
        ids: IDS.into(),
    };
    let mut ws = vec![wanted(4096, QuantScheme::Plain), wanted(8192, QuantScheme::W8A8)];
    let tab = price_products(part, N_CU, &none, &ws).unwrap();
    assert_eq!(tab.shapes.len(), 2);
    assert_eq!(pick_tile(true, &tab, 4096, 1024, 4096, QuantScheme::Plain), DevOp::GemmMed);
    assert_eq!(pick_tile(true, &tab, 8192, 1024, 4096, QuantScheme::W8A8), DevOp::GemmWideFp8);
    ws.push(wanted(1, QuantScheme::Fp8Block));
    assert!(price_products(part, N_CU, &none, &ws).is_none());
    let short = vec![TileCycles { mac: 1, dma: 1 }];
    assert!(!is_priceable(part, 1, 1, 1, QuantScheme::Plain, &short, &IDS.into()));
    let mut long = rung_cycles(4096);
    long[2].mac = u64::MAX;
    assert!(is_priceable(part, 1, 1, 64, QuantScheme::Plain, &long, &IDS.into()));
    assert!(!is_priceable(part, 1, 1, 65, QuantScheme::Plain, &long, &IDS.into()));
}
