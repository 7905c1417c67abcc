//! Handles of the tensors that a dense model's programs read and write.
use vstd::prelude::*;

verus! {

/// Handles of one layer's weights. A tensor that the layer does not have is `TENSOR_NONE`.
#[derive(Clone, Copy, PartialEq, Eq, Debug, Structural)]
pub struct LW {
    pub wq: u32,
    pub wk: u32,
    pub wv: u32,
    pub wo: u32,
    pub wg: u32,
    pub wu: u32,
    pub wd: u32,
    pub g_in: u32,
    pub g_pa: u32,
    pub g_pf: u32,
    pub g_po: u32,
    pub qn: u32,
    pub kn: u32,
    pub rproj: u32,
    pub rscale: u32,
    pub rpes: u32,
    pub g_pf1: u32,
    pub g_pf2: u32,
    pub g_pre2: u32,
    pub ewt: u32,
    pub est: u32,
    pub wq8: u32,
    pub wk8: u32,
    pub wv8: u32,
    pub wo8: u32,
    pub wg8: u32,
    pub wu8: u32,
    pub wd8: u32,
    pub sq: u32,
    pub sk: u32,
    pub sv: u32,
    pub so: u32,
    pub sg: u32,
    pub su: u32,
    pub sd: u32,
}

/// Handles of the tensors that are not a layer's own.
#[derive(Clone, Copy, PartialEq, Eq, Debug, Structural)]
pub struct Tn {
    pub ids: u32,
    pub pos: u32,
    pub kvlen: u32,
    pub cos_s: u32,
    pub sin_s: u32,
    pub cos_f: u32,
    pub sin_f: u32,
    pub emb: u32,
    pub fin: u32,
    pub head: u32,
    pub head8: u32,
    pub head8s: u32,
    pub x: u32,
    pub xr: u32,
    pub mrgc: u32,
    pub hn: u32,
    pub qg: u32,
    pub kg: u32,
    pub vg: u32,
    pub q: u32,
    pub opart: u32,
    pub mlpart: u32,
    pub at: u32,
    pub og: u32,
    pub gt: u32,
    pub ut: u32,
    pub fu: u32,
    pub dg: u32,
    pub logits: u32,
    pub amax: u32,
    pub og_tp: u32,
    pub dg_tp: u32,
    pub moe_h1: u32,
    pub moe_tab: u32,
    pub moe_rscore: u32,
    pub moe_xn2: u32,
    pub moe_mfu: u32,
    pub moe_part: u32,
    pub moe_sum: u32,
    pub moe_h2: u32,
    pub moe_comb: u32,
    pub moe_meta: u32,
    pub moe_rowtok: u32,
    pub moe_rowpart: u32,
    pub moe_rowgate: u32,
    pub moe_fug: u32,
    pub moe_fuq: u32,
    pub moe_fus: u32,
    pub xqh: u32,
    pub ash: u32,
    pub xqo: u32,
    pub aso: u32,
    pub xqi: u32,
    pub asi: u32,
}

/// Handles of one layer's key and value caches, and of their row scales.
#[derive(Clone, Copy, PartialEq, Eq, Debug, Structural)]
pub struct LayerCache {
    pub kc: u32,
    pub vc: u32,
    pub kcs: u32,
    pub vcs: u32,
}

/// The tensors of a dense model: the shared ones, and each layer's caches and weights.
pub struct Tensors {
    pub shared: Tn,
    pub caches: Vec<LayerCache>,
    pub layers: Vec<LW>,
}

} // verus!
