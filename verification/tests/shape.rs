use devgen::declare::{fp8_twin, scale_of};
use devgen::emit_config::EmitConfig;
use devgen::flash::{flash_merge_map, gemv_wgs_for_cols, headnorm_items, headnorm_wg_of};
use devgen::phase::Mode;
use devgen::shape::{
    default_chunk, dense_flash_split, fa_gf_full, flash_merge_dsplit, fuse_argmax_on,
    fuse_argmax_parts, gemv_row_bucket, gemv_split, gemv_staged_rows, gemv_wg_cap, gemv_wg_env,
    gemv_wg_n, kv_ring, kv_ring_rows, kvh_local, max_chunk, split2, split3, tiles, F32,
    FLASH_Q_TILE_ROWS, KV_MASK_NONE, MAX_CHUNK_MAX, MAX_CHUNK_MIN, Q_TILE_ROWS,
};

#[test]
fn all_global_models_keep_the_full_chunk() {
    assert_eq!(default_chunk(0), MAX_CHUNK_MAX);
    let (rows_big, mask) = kv_ring(true, 8192, 0, MAX_CHUNK_MAX);
    let (rows_small, _) = kv_ring(true, 8192, 0, 1024);
    assert_eq!(rows_big, rows_small, "chunk must not change a full layer");
    assert_eq!(mask, KV_MASK_NONE);
}

#[test]
fn windowed_models_derive_chunk_from_window() {
    assert_eq!(default_chunk(1024), 1024);
    assert_eq!(default_chunk(4096), 4096);
    assert_eq!(default_chunk(768), 1024);
    assert_eq!(default_chunk(1), MAX_CHUNK_MIN);
    assert_eq!(default_chunk(1 << 20), MAX_CHUNK_MAX);
}

#[test]
fn derived_chunk_satisfies_the_wrap_invariant() {
    for w in [128u32, 512, 768, 1024, 2048, 4096, 8192, 16384] {
        let c = default_chunk(w);
        let ring = kv_ring_rows(w, c);
        assert!(
            ring >= w + c - 1,
            "window {w} chunk {c} ring {ring} violates ring >= window + chunk - 1"
        );
    }
}

fn kernel_items(n_bh: u32, nblk_m: u32, j: u32) -> Vec<u32> {
    let dsplit = nblk_m.div_ceil(n_bh.max(1)).max(1);
    (j..n_bh * dsplit).step_by(nblk_m as usize).collect()
}

#[test]
fn every_d_chunk_is_covered_exactly_once() {
    for nblk_m in [1u32, 8, 32, 64, 200, 256] {
        let n_bh = 32;
        let dsplit = nblk_m.div_ceil(n_bh).max(1);
        let mut seen: Vec<u32> = (0..nblk_m)
            .flat_map(|j| kernel_items(n_bh, nblk_m, j))
            .collect();
        seen.sort_unstable();
        assert_eq!(
            seen,
            (0..n_bh * dsplit).collect::<Vec<_>>(),
            "nblk_m={nblk_m}"
        );
    }
}

fn kernel_flash_producers(row: u32, h: u32, nsplit: u32, n_head: u32, nblk_f: u32) -> Vec<u32> {
    const KERNEL_WAVES: u32 = 4;
    const KERNEL_FA_BQ: u32 = 32;
    let qt = row / (KERNEL_WAVES * KERNEL_FA_BQ);
    (0..nsplit)
        .map(|sp| ((qt * n_head + h) * nsplit + sp) % nblk_f)
        .collect()
}

#[test]
fn merge_waits_on_the_slice_that_actually_wrote_the_row() {
    let k = EmitConfig::standard();
    let n_cu = 256u32;
    for heads in [8u32, 16, 20, 24, 28, 32, 40, 48, 64] {
        for t in [128u32, 192, 256, 384, 512, 768, 1024, 2048] {
            let ns = n_cu
                .div_ceil((t.div_ceil(Q_TILE_ROWS) * heads).max(1))
                .max(1);
            if ns <= 1 {
                continue;
            }
            let (n_bh, nblk_f) = (t * heads, n_cu);
            let nblk_m = (n_bh * flash_merge_dsplit(&k)).min(n_cu).max(1);
            let map = flash_merge_map(n_bh, ns, FLASH_Q_TILE_ROWS, heads, nblk_f, nblk_m);
            let dsplit = nblk_m.div_ceil(n_bh.max(1)).max(1);
            for j in 0..nblk_m {
                for w in kernel_items(n_bh, nblk_m, j) {
                    let hb = w / dsplit;
                    let (row, h) = (hb / heads, hb % heads);
                    for p in kernel_flash_producers(row, h, ns, heads, nblk_f) {
                        assert!(
                            map[j as usize].contains(&p),
                            "heads={heads} t={t} ns={ns}: merge wg {j} folds row {row} \
                                 head {h} but does not wait on flash slice {p} that wrote it"
                        );
                    }
                }
            }
        }
    }
}

#[test]
fn shipped_head_counts_are_unaffected_by_the_tile_correction() {
    let k = EmitConfig::standard();
    let n_cu = 256u32;
    for heads in [8u32, 16, 32, 64] {
        for t in [128u32, 256, 512, 1024, 2048] {
            let ns = n_cu
                .div_ceil((t.div_ceil(Q_TILE_ROWS) * heads).max(1))
                .max(1);
            if ns <= 1 {
                continue;
            }
            let (n_bh, nblk_f) = (t * heads, n_cu);
            let nblk_m = (n_bh * flash_merge_dsplit(&k)).min(n_cu).max(1);
            assert_eq!(
                flash_merge_map(n_bh, ns, Q_TILE_ROWS, heads, nblk_f, nblk_m),
                flash_merge_map(n_bh, ns, FLASH_Q_TILE_ROWS, heads, nblk_f, nblk_m),
                "heads={heads} t={t}: the correction changed a shipped program"
            );
        }
    }
}

#[test]
fn dsplit_one_is_the_old_map() {
    let (n_bh, ns, n_head, nblk_f) = (32, 8, 32, 256);
    let map = flash_merge_map(n_bh, ns, 1, n_head, nblk_f, n_bh);
    for (j, s) in map.iter().enumerate() {
        let (b, h) = (j as u32 / n_head, j as u32 % n_head);
        let mut want: Vec<u32> = (0..ns)
            .map(|sp| ((b * n_head + h) * ns + sp) % nblk_f)
            .collect();
        want.sort_unstable();
        want.dedup();
        assert_eq!(s, &want, "wg {j}");
    }
}

#[test]
fn dsplit_eight_gates_on_its_own_bh_only() {
    let (n_bh, ns, n_head, nblk_f, nblk_m) = (32u32, 8u32, 32u32, 256u32, 256u32);
    let map = flash_merge_map(n_bh, ns, 1, n_head, nblk_f, nblk_m);
    assert_eq!(map.len(), nblk_m as usize);
    let dsplit = nblk_m / n_bh;
    for (j, s) in map.iter().enumerate() {
        let items = kernel_items(n_bh, nblk_m, j as u32);
        assert_eq!(items.len(), 1, "at 256 wgs each runs exactly one D-chunk");
        let hb = items[0] / dsplit;
        let (b, h) = (hb / n_head, hb % n_head);
        let mut want: Vec<u32> = (0..ns)
            .map(|sp| ((b * n_head + h) * ns + sp) % nblk_f)
            .collect();
        want.sort_unstable();
        want.dedup();
        assert_eq!(s, &want, "wg {j}");
        assert_eq!(s.len(), ns as usize);
    }
}

#[test]
fn fp8_twin_names_are_the_declared_name_verbatim() {
    let w = fp8_twin("model.layers.3.self_attn.q_proj.weight");
    let s = scale_of(&w);
    assert_eq!(w, "fp8/model.layers.3.self_attn.q_proj.weight");
    assert_eq!(s, "fp8/model.layers.3.self_attn.q_proj.weight_scale");
    assert_eq!(
        w.strip_prefix("fp8/"),
        Some("model.layers.3.self_attn.q_proj.weight")
    );
    assert!(
        w.starts_with("fp8/"),
        "the prefix is part of the key, not a routing marker"
    );
}

#[test]
fn fp8_scale_is_per_output_channel_and_multiplied() {
    let (out, inp) = (4096u64, 2560u64);
    assert_eq!(
        out * F32,
        16384,
        "scale vector is [out] f32, not [out,in] and not [in]"
    );
    let w: f32 = -0.37;
    let amax: f32 = 0.37;
    let scale = amax / 448.0;
    let q = (w / scale).round().clamp(-448.0, 448.0);
    assert!((q * scale - w).abs() < 1e-3, "dequant is w8 * scale");
    let _ = inp;
}

#[test]
fn legacy_corners_are_unchanged() {
    assert!(!Mode::Prefill.decode_shape() && !Mode::Prefill.gemv());
    assert!(Mode::Decode.decode_shape() && Mode::Decode.gemv());
}

#[test]
fn decode_tiled_is_decode_shape_on_prefill_kernels() {
    assert!(Mode::DecodeTiled.decode_shape());
    assert!(!Mode::DecodeTiled.gemv());
}

#[test]
fn packing_pins_an_unsplit_fused_flash() {
    for &n_cu in &[64u32, 128, 256, 304] {
        for &heads in &[4u32, 8, 16, 32, 64] {
            for &t in &[1u32, 128, 512, 2048, 8192] {
                let (ns, fused) = dense_flash_split(false, true, n_cu, heads, t);
                assert_eq!(ns, 1, "n_cu={n_cu} heads={heads} t={t}");
                assert!(fused, "n_cu={n_cu} heads={heads} t={t}");
            }
        }
    }
}

#[test]
fn without_packing_a_wide_machine_still_splits() {
    let (ns, fused) = dense_flash_split(false, false, 304, 8, 512);
    assert!(ns > 1, "expected a split at n_cu=304 heads=8 t=512, got {ns}");
    assert!(!fused);
}

#[test]
fn the_gemv_family_is_unaffected_by_packing() {
    for packed in [false, true] {
        let (ns, fused) = dense_flash_split(true, packed, 256, 8, 1);
        assert_eq!(ns, 32);
        assert!(!fused);
    }
}

#[test]
fn nsplit_is_never_zero() {
    for &gemv in &[false, true] {
        for &packed in &[false, true] {
            for &heads in &[1u32, 1024] {
                for &n_cu in &[1u32, 304] {
                    let (ns, _) = dense_flash_split(gemv, packed, n_cu, heads, 1);
                    assert!(ns >= 1, "gemv={gemv} packed={packed} heads={heads} n_cu={n_cu}");
                }
            }
        }
    }
}

#[test]
fn a_windowed_ring_is_twice_the_window() {
    assert_eq!(kv_ring_rows(1024, 1024), 2048);
    assert_eq!(kv_ring(false, 65536, 1024, 1024), (2048, 2047));
    assert_eq!(kv_ring(false, 512, 1024, 1024).0, 512);
}

#[test]
fn chunk_comes_from_the_switch_where_it_is_set() {
    let mut k = EmitConfig::standard();
    assert_eq!(max_chunk(&k, 1024), 1024);
    k.max_chunk = Some(2048);
    assert_eq!(max_chunk(&k, 1024), 2048);
}

#[test]
fn shares_of_the_machine_are_proportional_and_disjoint() {
    let (a, b) = split2(100, 3, 1);
    assert_eq!((a.lo, a.hi, b.lo, b.hi), (0, 75, 75, 100));
    let (a, b, c) = split3(100, 2, 1, 1);
    assert_eq!((a.lo, a.hi), (0, 50));
    assert_eq!((b.lo, b.hi), (50, 75));
    assert_eq!((c.lo, c.hi), (75, 100));
    let (a, b, c) = split3(10, 1, 1, 0);
    assert_eq!((a.hi, b.lo, b.hi), (5, 5, 10));
    assert_eq!(c.lo, c.hi);
    let (a, b) = split2(4, 0, 9);
    assert_eq!((a.hi, b.hi), (1, 4));
}

#[test]
fn row_buckets_and_staging_follow_the_switches() {
    let mut k = EmitConfig::standard();
    assert_eq!(gemv_row_bucket(&k, 1), 1);
    assert_eq!(gemv_row_bucket(&k, 8), 8);
    k.gemv_walk = true;
    let bucket = gemv_row_bucket(&k, 8);
    assert!(gemv_staged_rows(&k, 8) >= 1);
    assert!(bucket >= 1);
    k.gemv_wg = Some(152);
    assert_eq!(gemv_wg_env(&k), Some(152));
    assert_eq!(gemv_wg_n(&k, 304), 152);
    assert_eq!(gemv_wg_n(&k, 64), 64);
    let all = devgen::isa::CuRange { lo: 10, hi: 300 };
    assert_eq!(gemv_wg_cap(&k, all).hi, 162);
    k.gemv_wg = Some(0);
    assert_eq!(gemv_wg_env(&k), None);
    assert_eq!(gemv_split(&k), 1);
    assert!(!fuse_argmax_on(&k));
    assert_eq!(fa_gf_full(&k), devgen::shape::FA_GF_FULL);
    assert!(fuse_argmax_parts(&k, 256) >= 1);
}

#[test]
fn shared_heads_go_to_every_device() {
    assert_eq!(kvh_local(8, 1), 8);
    assert_eq!(kvh_local(8, 4), 2);
    assert_eq!(kvh_local(2, 8), 1);
    assert_eq!(tiles(512, 512), 4);
    assert_eq!(tiles(1, 1), 1);
}

#[test]
fn every_item_and_column_has_its_workgroup() {
    for nblk in [1u32, 3, 8, 40] {
        for total in [1u32, 7, 8, 64] {
            let mut seen = Vec::new();
            for j in 0..nblk {
                for w in headnorm_items(nblk, total, j) {
                    assert_eq!(headnorm_wg_of(nblk, w), j);
                    seen.push(w);
                }
            }
            seen.sort_unstable();
            assert_eq!(seen, (0..total).collect::<Vec<u32>>());
        }
    }
    let w = gemv_wgs_for_cols(4096, 16, 0, 4096);
    assert_eq!(w, (0..16).collect::<Vec<u32>>());
}
