//! What an emission defaults to in production: by what the model's family can do, and by the
//! target that a setting was qualified on. What was asked for explicitly always stands.
use vstd::prelude::*;

use crate::text::{same_text, text};

verus! {

/// What a family of models can be emitted with.
#[derive(Clone, Copy, PartialEq, Eq, Debug, Structural)]
pub struct EmitCapabilities {
    /// The contracts of dense packets, among them packed prefill.
    pub dense_packet_contracts: bool,
    pub gemma: bool,
    pub glm: bool,
    pub decode_objects: bool,
    pub cublaslt_decode: bool,
    /// Decode programs of several widths.
    pub decode_ladder: bool,
}

/// Whether a model is a Gemma.
pub open spec fn is_gemma(m: Seq<char>) -> bool {
    ||| m == "gemma3"@
    ||| m == "gemma3_text"@
    ||| m == "gemma4"@
    ||| m == "gemma4_text"@
    ||| m == "gemma4_unified"@
    ||| m == "gemma4_unified_text"@
}

/// Whether a model is dense, with grouped queries.
pub open spec fn is_dense(m: Seq<char>) -> bool {
    is_gemma(m) || m == "llama"@ || m == "qwen3"@
}

/// Whether a model is a GLM mixture.
pub open spec fn is_glm(m: Seq<char>) -> bool {
    m == "glm_moe_dsa"@ || m == "glm5_next"@
}

/// What a family of models can be emitted with.
pub open spec fn capabilities_of(m: Seq<char>) -> EmitCapabilities {
    EmitCapabilities {
        dense_packet_contracts: is_dense(m),
        gemma: is_gemma(m),
        glm: is_glm(m),
        decode_objects: is_dense(m) || m == "qwen3_5"@,
        cublaslt_decode: is_gemma(m) || m == "qwen3_5"@,
        decode_ladder: is_dense(m) || m == "gpt_oss"@,
    }
}

/// What a family of models can be emitted with.
pub fn emit_capabilities(model_type: &str) -> (r: EmitCapabilities)
    ensures
        r == capabilities_of(model_type@),
{
    let gemma: bool = same_text(model_type, "gemma3") || same_text(model_type, "gemma3_text")
        || same_text(model_type, "gemma4") || same_text(model_type, "gemma4_text") || same_text(
        model_type,
        "gemma4_unified",
    ) || same_text(model_type, "gemma4_unified_text");
    let dense: bool = gemma || same_text(model_type, "llama") || same_text(model_type, "qwen3");
    let qwen: bool = same_text(model_type, "qwen3_5");
    EmitCapabilities {
        dense_packet_contracts: dense,
        gemma,
        glm: same_text(model_type, "glm_moe_dsa") || same_text(model_type, "glm5_next"),
        decode_objects: dense || qwen,
        cublaslt_decode: gemma || qwen,
        decode_ladder: dense || same_text(model_type, "gpt_oss"),
    }
}

/// Whether decode products can go to the vendor's library: of a family that can, on one Hopper
/// device, and not of single layers.
pub open spec fn vendor_decodes(
    c: EmitCapabilities,
    arch: Seq<char>,
    tp: u32,
    block_mode: bool,
) -> bool {
    c.cublaslt_decode && arch == "sm_90a"@ && tp == 1 && !block_mode
}

/// Whether decode products can go to the vendor's library: of a family that can, on one Hopper
/// device, and not of single layers.
pub fn cublaslt_emit_supported(c: EmitCapabilities, arch: &str, tp: u32, block_mode: bool) -> (r: bool)
    ensures
        r == (c.cublaslt_decode && arch@ == "sm_90a"@ && tp == 1 && !block_mode),
        r == vendor_decodes(c, arch@, tp, block_mode),
{
    c.cublaslt_decode && same_text(arch, "sm_90a") && tp == 1 && !block_mode
}

/// Settings of GLM mixtures, where they were set.
#[derive(Clone, Copy, PartialEq, Eq, Debug, Structural)]
pub struct GlmKnobs {
    pub fp8_kv: Option<bool>,
    pub moe_aiter: Option<bool>,
    pub moe_resident: Option<bool>,
    pub index_tp: Option<bool>,
    pub select_local: Option<bool>,
    pub decode_norm_rows: Option<bool>,
    pub gemm_lt: Option<bool>,
    pub gemm_lt_decode: Option<bool>,
    pub gemm_lt_decode_ext: Option<bool>,
    pub decode_gemm_group: Option<bool>,
    pub fold_lt: Option<bool>,
    pub seq_par: Option<bool>,
    pub seq_par_proj: Option<bool>,
    /// Settings that the sequence-parallel seams take the place of.
    pub xr_res: bool,
    pub xr_band: Option<u32>,
}

/// The settings of an emission that production has defaults for: what was set, and the defaults.
pub struct ProductionConfig {
    pub fp8: bool,
    pub w8a8: bool,
    pub w8a16: bool,
    pub fp8_kv: bool,
    pub mxfp4: bool,
    /// The decode widths, and whether they are a default.
    pub decode_batch_ladder: Option<Vec<u32>>,
    pub decode_ladder_default: bool,
    pub emit_packed_prefill: Option<bool>,
    pub packed_prefill_default: bool,
    pub seg_pure_gemm: Option<bool>,
    pub glm: GlmKnobs,
    pub glm_gemm_lt_pf_ext: Option<String>,
    /// Whether the target is the one that the GLM settings were qualified on.
    pub glm_qualified: bool,
}

/// The decode widths that a family defaults to on a target.
pub open spec fn default_ladder(c: EmitCapabilities, arch: Seq<char>) -> Option<Seq<u32>> {
    if arch == "sm_90a"@ && c.decode_ladder {
        Some(seq![1u32, 2, 4, 8, 16])
    } else if arch == "gfx942"@ && c.dense_packet_contracts {
        Some(seq![1u32, 2, 4, 8])
    } else {
        None
    }
}

/// Whether the target is the one that the GLM settings were qualified on: eight devices of 304
/// units, with experts that are not mxfp4.
pub open spec fn glm_target(
    c: EmitCapabilities,
    arch: Seq<char>,
    tp: u32,
    n_cu: u32,
    mxfp4: bool,
) -> bool {
    c.glm && arch == "gfx942"@ && tp == 8 && n_cu == 304 && !mxfp4
}

/// Whether prompts are packed by default. On gfx942 that is qualified for bf16 on one device.
pub open spec fn packs_by_default(
    cfg: ProductionConfig,
    c: EmitCapabilities,
    arch: Seq<char>,
    tp: u32,
    n_cu: u32,
) -> bool {
    ||| arch == "sm_90a"@ && c.dense_packet_contracts
    ||| arch == "gfx942"@ && c.dense_packet_contracts && tp == 1 && !cfg.fp8 && !cfg.w8a8
        && !cfg.w8a16 && !cfg.fp8_kv
    ||| glm_target(c, arch, tp, n_cu, cfg.mxfp4)
}

/// Whether segments of products alone are the default.
pub open spec fn pure_gemm_by_default(w8a8: bool, c: EmitCapabilities, arch: Seq<char>, tp: u32) -> bool {
    arch == "sm_90a"@ && c.gemma && w8a8 && tp == 1
}

/// What optional numbers hold.
pub open spec fn opt_nums(v: Option<Vec<u32>>) -> Option<Seq<u32>> {
    match v {
        Some(x) => Some(x@),
        None => None,
    }
}

fn ladder(top: u32) -> (r: Vec<u32>)
    requires
        top == 8 || top == 16,
    ensures
        r@ == (if top == 16 { seq![1u32, 2, 4, 8, 16] } else { seq![1u32, 2, 4, 8] }),
{
    let mut r: Vec<u32> = Vec::new();
    r.push(1);
    r.push(2);
    r.push(4);
    r.push(8);
    if top == 16 {
        r.push(16);
    }
    proof {
        assert(r@ =~= (if top == 16 { seq![1u32, 2, 4, 8, 16] } else { seq![1u32, 2, 4, 8] }));
    }
    r
}

/// Fills in what production defaults to, where nothing was set.
pub fn apply_production_defaults(
    cfg: &mut ProductionConfig,
    c: EmitCapabilities,
    arch: &str,
    tp: u32,
    n_cu: u32,
)
    ensures
        ({
            let d = default_ladder(c, arch@);
            let o = *old(cfg);
            let n = *final(cfg);
            &&& opt_nums(n.decode_batch_ladder) == (if o.decode_batch_ladder is None {
                d
            } else {
                opt_nums(o.decode_batch_ladder)
            })
            &&& n.decode_ladder_default == (o.decode_batch_ladder is None && d is Some)
            &&& n.packed_prefill_default == packs_by_default(o, c, arch@, tp, n_cu)
            &&& n.seg_pure_gemm == (if o.seg_pure_gemm is None && pure_gemm_by_default(
                o.w8a8,
                c,
                arch@,
                tp,
            ) {
                Some(true)
            } else {
                o.seg_pure_gemm
            })
            &&& n.glm_qualified == glm_target(c, arch@, tp, n_cu, o.mxfp4)
            &&& n.fp8 == o.fp8
            &&& n.w8a8 == o.w8a8
            &&& n.w8a16 == o.w8a16
            &&& n.fp8_kv == o.fp8_kv
            &&& n.mxfp4 == o.mxfp4
            &&& n.emit_packed_prefill == o.emit_packed_prefill
            &&& n.glm == o.glm
            &&& n.glm_gemm_lt_pf_ext == o.glm_gemm_lt_pf_ext
        }),
{
    let sm90: bool = same_text(arch, "sm_90a");
    let gfx942: bool = same_text(arch, "gfx942");
    proof {
        reveal_strlit("sm_90a");
        reveal_strlit("gfx942");
        assert("sm_90a"@[0] == 's' && "gfx942"@[0] == 'g');
    }
    cfg.decode_ladder_default = false;
    if cfg.decode_batch_ladder.is_none() {
        if sm90 && c.decode_ladder {
            cfg.decode_batch_ladder = Some(ladder(16));
            cfg.decode_ladder_default = true;
        } else if gfx942 && c.dense_packet_contracts {
            cfg.decode_batch_ladder = Some(ladder(8));
            cfg.decode_ladder_default = true;
        }
    }
    let glm: bool = c.glm && gfx942 && tp == 8 && n_cu == 304 && !cfg.mxfp4;
    let narrow: bool = cfg.fp8 || cfg.w8a8 || cfg.w8a16 || cfg.fp8_kv;
    cfg.packed_prefill_default = sm90 && c.dense_packet_contracts || gfx942
        && c.dense_packet_contracts && tp == 1 && !narrow || glm;
    if cfg.seg_pure_gemm.is_none() && sm90 && c.gemma && cfg.w8a8 && tp == 1 {
        cfg.seg_pure_gemm = Some(true);
    }
    cfg.glm_qualified = glm;
}

/// A setting, or its default.
pub open spec fn set_or(v: Option<bool>, d: bool) -> bool {
    match v {
        Some(b) => b,
        None => d,
    }
}

fn or_default(v: Option<bool>, d: bool) -> (r: bool)
    ensures
        r == set_or(v, d),
{
    match v {
        Some(b) => b,
        None => d,
    }
}

/// Whether the sequence-parallel seams are on: by default on the qualified target, unless a setting
/// is on that they take the place of.
pub open spec fn seams_on(g: GlmKnobs, qualified: bool) -> bool {
    set_or(g.seq_par, qualified && !g.xr_res && g.xr_band is None)
}

/// The groups of prefill products that the vendor's library was qualified for.
pub open spec fn qualified_groups() -> Seq<char> {
    "o_proj,band,shared"@
}

impl ProductionConfig {
    /// Nothing set.
    pub fn unset() -> (r: ProductionConfig)
        ensures
            !r.fp8 && !r.w8a8 && !r.w8a16 && !r.fp8_kv && !r.mxfp4,
            r.decode_batch_ladder is None,
            !r.decode_ladder_default,
            r.emit_packed_prefill is None,
            !r.packed_prefill_default,
            r.seg_pure_gemm is None,
            r.glm == (GlmKnobs {
                fp8_kv: None,
                moe_aiter: None,
                moe_resident: None,
                index_tp: None,
                select_local: None,
                decode_norm_rows: None,
                gemm_lt: None,
                gemm_lt_decode: None,
                gemm_lt_decode_ext: None,
                decode_gemm_group: None,
                fold_lt: None,
                seq_par: None,
                seq_par_proj: None,
                xr_res: false,
                xr_band: None,
            }),
            r.glm_gemm_lt_pf_ext is None,
            !r.glm_qualified,
    {
        ProductionConfig {
            fp8: false,
            w8a8: false,
            w8a16: false,
            fp8_kv: false,
            mxfp4: false,
            decode_batch_ladder: None,
            decode_ladder_default: false,
            emit_packed_prefill: None,
            packed_prefill_default: false,
            seg_pure_gemm: None,
            glm: GlmKnobs {
                fp8_kv: None,
                moe_aiter: None,
                moe_resident: None,
                index_tp: None,
                select_local: None,
                decode_norm_rows: None,
                gemm_lt: None,
                gemm_lt_decode: None,
                gemm_lt_decode_ext: None,
                decode_gemm_group: None,
                fold_lt: None,
                seq_par: None,
                seq_par_proj: None,
                xr_res: false,
                xr_band: None,
            },
            glm_gemm_lt_pf_ext: None,
            glm_qualified: false,
        }
    }

    /// The decode widths: one row, where there are no others.
    pub fn decode_rungs(&self) -> (r: Vec<u32>)
        ensures
            r@ == (match opt_nums(self.decode_batch_ladder) {
                Some(v) => v,
                None => seq![1u32],
            }),
    {
        let mut r: Vec<u32> = Vec::new();
        match &self.decode_batch_ladder {
            Some(v) => {
                let mut i: usize = 0;
                while i < v.len()
                    invariant
                        i <= v@.len(),
                        r@ == v@.take(i as int),
                    decreases v@.len() - i,
                {
                    r.push(v[i]);
                    proof {
                        assert(v@.take(i as int + 1) =~= v@.take(i as int).push(v@[i as int]));
                    }
                    i = i + 1;
                }
                proof {
                    assert(v@.take(i as int) =~= v@);
                }
            },
            None => {
                r.push(1);
                proof {
                    assert(r@ =~= seq![1u32]);
                }
            },
        }
        r
    }

    /// Whether prompts are packed.
    pub fn packed_prefill_on(&self) -> (r: bool)
        ensures
            r == set_or(self.emit_packed_prefill, self.packed_prefill_default),
    {
        or_default(self.emit_packed_prefill, self.packed_prefill_default)
    }

    /// Whether packets say that prompts are packed. With fp8 activations they say so only where it
    /// was asked for.
    pub fn packed_prefill_metadata_on(&self) -> (r: bool)
        ensures
            r == set_or(self.emit_packed_prefill, self.packed_prefill_default && !self.w8a8),
    {
        or_default(self.emit_packed_prefill, self.packed_prefill_default && !self.w8a8)
    }

    /// A setting of GLM mixtures that defaults to the qualified target's.
    pub fn glm_setting(&self, v: Option<bool>) -> (r: bool)
        ensures
            r == set_or(v, self.glm_qualified),
    {
        or_default(v, self.glm_qualified)
    }

    /// Whether the sequence-parallel seams are on.
    pub fn glm_seq_par(&self) -> (r: bool)
        ensures
            r == seams_on(self.glm, self.glm_qualified),
    {
        or_default(
            self.glm.seq_par,
            self.glm_qualified && !self.glm.xr_res && self.glm.xr_band.is_none(),
        )
    }

    /// Whether the projections at the seams are split too: by default as the seams are.
    pub fn glm_seq_par_proj(&self) -> (r: bool)
        ensures
            r == set_or(
                self.glm.seq_par_proj,
                self.glm_qualified && seams_on(self.glm, self.glm_qualified),
            ),
    {
        or_default(self.glm.seq_par_proj, self.glm_qualified && self.glm_seq_par())
    }

    /// The groups of prefill products that go to the vendor's library.
    pub fn glm_gemm_lt_pf_ext_spec(&self) -> (r: String)
        ensures
            r@ == (match self.glm_gemm_lt_pf_ext {
                Some(s) => s@,
                None => if self.glm_qualified { qualified_groups() } else { ""@ },
            }),
    {
        match &self.glm_gemm_lt_pf_ext {
            Some(s) => s.clone(),
            None => if self.glm_qualified {
                text("o_proj,band,shared")
            } else {
                text("")
            },
        }
    }
}

} // verus!
