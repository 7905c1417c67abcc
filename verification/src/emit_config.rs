//! The switches of an emission.
use vstd::prelude::*;

verus! {

/// The switches an emission reads. `None` leaves a choice to the emitter.
pub struct EmitConfig {
    /// Key/value group factor of the full-attention decode kernel.
    pub fa_gf_full: Option<u32>,
    pub gemv_mm: Option<u32>,
    pub gemv_walk: bool,
    pub gemv_wg: Option<u32>,
    pub gemv_split: u32,
    pub max_chunk: Option<u32>,
    pub flash_merge_dsplit: Option<u32>,
    pub xr_cus: Option<u32>,
    pub xr2_gather: bool,
    pub tma_gemm: bool,
    pub qnorm_fuse: bool,
    pub fuse_quant: bool,
    pub pf_gfuse: bool,
    pub no_fuse_qkv: bool,
    pub fuse_qkv_fp8: bool,
    pub no_fuse_nrn: bool,
    pub fuse_hnr: bool,
    pub fuse_merge: bool,
    pub no_glu_fuse: bool,
    pub ns_mul: Option<u32>,
    pub ns_abs: Option<u32>,
    pub ns_full_abs: Option<u32>,
    pub hn_split: bool,
    pub fuse_argmax: bool,
    pub fp8_head: bool,
    /// Whether the prefill head runs as a row product; the target decides where this is `None`.
    pub pf_gemv_head: Option<bool>,
    pub gemma_moe_router_fused: bool,
    pub gemma_moe_router_exact: bool,
    pub gemma_moe_router_blocks: Option<u32>,
    pub gemma_moe_tail_fuse: bool,
    /// Whether decode programs come at more than one width.
    pub decode_ladder: bool,
    /// Whether one prefill program serves the rows of several requests.
    pub packed_prefill: bool,
    /// The decode widths, narrowest first.
    pub decode_rungs: Vec<u32>,
    pub decode_tiled: bool,
    pub fp8: bool,
    pub w8a8: bool,
    pub w8a16: bool,
    pub mxfp4: bool,
    pub fp8_kv: bool,
    pub fp8_kv_full: bool,
    pub moe_prefill_off: bool,
    /// Whether the prefill widths follow the wave counts of the machine.
    pub pf_ladder_wave: bool,
    /// Prefill widths beside the standard ones, with commas between them.
    pub pf_ladder_append: Option<String>,
    pub k3_full: bool,
    pub uniseg: bool,
}

impl EmitConfig {
    /// No switch set: one decode width, bf16 throughout.
    pub fn standard() -> (r: EmitConfig)
        ensures
            r.fa_gf_full is None,
            r.gemv_mm is None,
            !r.gemv_walk,
            r.gemv_wg is None,
            r.gemv_split == 1,
            r.max_chunk is None,
            r.flash_merge_dsplit is None,
            r.xr_cus is None,
            !r.xr2_gather,
            !r.tma_gemm,
            !r.qnorm_fuse,
            !r.fuse_quant,
            !r.pf_gfuse,
            !r.no_fuse_qkv,
            !r.fuse_qkv_fp8,
            !r.no_fuse_nrn,
            !r.fuse_hnr,
            !r.fuse_merge,
            !r.no_glu_fuse,
            r.ns_mul is None,
            r.ns_abs is None,
            r.ns_full_abs is None,
            !r.hn_split,
            !r.fuse_argmax,
            !r.fp8_head,
            r.pf_gemv_head is None,
            !r.gemma_moe_router_fused,
            !r.gemma_moe_router_exact,
            r.gemma_moe_router_blocks is None,
            !r.gemma_moe_tail_fuse,
            !r.decode_ladder,
            !r.packed_prefill,
            r.decode_rungs@ == seq![1u32],
            !r.decode_tiled,
            !r.fp8,
            !r.w8a8,
            !r.w8a16,
            !r.mxfp4,
            !r.fp8_kv,
            !r.fp8_kv_full,
            !r.moe_prefill_off,
            !r.pf_ladder_wave,
            r.pf_ladder_append is None,
            !r.k3_full,
            !r.uniseg,
    {
        let mut rungs: Vec<u32> = Vec::new();
        rungs.push(1);
        EmitConfig {
            fa_gf_full: None,
            gemv_mm: None,
            gemv_walk: false,
            gemv_wg: None,
            gemv_split: 1,
            max_chunk: None,
            flash_merge_dsplit: None,
            xr_cus: None,
            xr2_gather: false,
            tma_gemm: false,
            qnorm_fuse: false,
            fuse_quant: false,
            pf_gfuse: false,
            no_fuse_qkv: false,
            fuse_qkv_fp8: false,
            no_fuse_nrn: false,
            fuse_hnr: false,
            fuse_merge: false,
            no_glu_fuse: false,
            ns_mul: None,
            ns_abs: None,
            ns_full_abs: None,
            hn_split: false,
            fuse_argmax: false,
            fp8_head: false,
            pf_gemv_head: None,
            gemma_moe_router_fused: false,
            gemma_moe_router_exact: false,
            gemma_moe_router_blocks: None,
            gemma_moe_tail_fuse: false,
            decode_ladder: false,
            packed_prefill: false,
            decode_rungs: rungs,
            decode_tiled: false,
            fp8: false,
            w8a8: false,
            w8a16: false,
            mxfp4: false,
            fp8_kv: false,
            fp8_kv_full: false,
            moe_prefill_off: false,
            pf_ladder_wave: false,
            pf_ladder_append: None,
            k3_full: false,
            uniseg: false,
        }
    }
}

} // verus!
