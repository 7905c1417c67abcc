//! The model description an emission starts from.
use vstd::prelude::*;

verus! {

/// The model families of the dense emitter.
#[derive(Clone, Copy, PartialEq, Eq, Debug, Structural)]
pub enum Arch {
    Gemma4,
    Llama,
    Qwen,
}

/// A dense model, as its checkpoint describes it. The fields that a checkpoint gives as `f32` hold
/// its bit pattern.
pub struct Cfg {
    pub arch: Arch,
    pub prefix: String,
    pub layers: u32,
    pub hidden: u32,
    pub inter: u32,
    pub heads: u32,
    pub vocab: u32,
    /// Query/key width of a sliding layer's head, and of a full layer's head.
    pub hd_slide: u32,
    pub hd_full: u32,
    pub kvh_slide: u32,
    pub kvh_full: u32,
    /// Attention window of the sliding layers; zero where every layer is full.
    pub window: u32,
    /// Which layers attend to the whole context.
    pub is_full: Vec<bool>,
    pub k_eq_v: bool,
    pub has_qk_norm: bool,
    pub has_v_norm: bool,
    /// Whether the output head shares the embedding.
    pub tied: bool,
    pub moe: bool,
    pub n_exp: u32,
    pub top_k: u32,
    pub moe_inter: u32,
    /// 0 for GeGLU, 1 for SwiGLU.
    pub mlp_act: u32,
    pub eps: u32,
    pub emb_scale: u32,
    pub attn_scale: u32,
    pub softcap: u32,
    /// `hidden` to the power of minus one half.
    pub router_root: u32,
    /// How many devices share the model.
    pub tp: u32,
}

} // verus!
