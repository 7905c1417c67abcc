//! Which emitter a model goes to.
use vstd::prelude::*;

use crate::json::{parsed, read_string_field, string_field};
use crate::opcodes::opt_text;
use crate::text::{same_text, text};

verus! {

/// The emitters.
#[derive(Clone, Copy, PartialEq, Eq, Debug, Structural)]
pub enum Route {
    /// The whole of a Kimi K3, or what its partial emitter makes of it.
    KimiK3Full,
    KimiK3,
    /// A GLM mixture: some layers, or the whole.
    GlmBlock,
    GlmFull,
    /// Layers of a Kimi or of a DeepSeek.
    KimiBlock,
    DeepSeekBlock,
    NemotronBlock,
    /// Everything else: grouped-query attention.
    Dense,
}

/// Whether a model is a Kimi with latent attention.
pub open spec fn is_kimi(m: Seq<char>) -> bool {
    m == "kimi_k2"@ || m == "kimi"@
}

/// Whether a model is a DeepSeek.
pub open spec fn is_deepseek(m: Seq<char>) -> bool {
    m == "deepseek_v3"@ || m == "deepseek_v2"@
}

/// Whether a model is a Nemotron.
pub open spec fn is_nemotron(m: Seq<char>) -> bool {
    m == "nemotron_h"@ || m == "nemotron3"@ || m == "nemotron"@
}

/// The emitter of a model; none where only single layers can be emitted and none were named.
pub open spec fn route_of(m: Seq<char>, block: bool, k3_full: bool) -> Option<Route> {
    if m == "kimi_k3"@ {
        Some(if k3_full { Route::KimiK3Full } else { Route::KimiK3 })
    } else if m == "glm_moe_dsa"@ {
        Some(if block { Route::GlmBlock } else { Route::GlmFull })
    } else if is_kimi(m) {
        if block { Some(Route::KimiBlock) } else { None }
    } else if is_deepseek(m) {
        if block { Some(Route::DeepSeekBlock) } else { None }
    } else if is_nemotron(m) {
        if block { Some(Route::NemotronBlock) } else { None }
    } else {
        Some(Route::Dense)
    }
}

/// The emitter of a model, by its type and by whether single layers were named.
pub fn route(model_type: &str, block: bool, k3_full: bool) -> (r: Option<Route>)
    ensures
        r == route_of(model_type@, block, k3_full),
{
    if same_text(model_type, "kimi_k3") {
        return Some(if k3_full { Route::KimiK3Full } else { Route::KimiK3 });
    }
    if same_text(model_type, "glm_moe_dsa") {
        return Some(if block { Route::GlmBlock } else { Route::GlmFull });
    }
    if same_text(model_type, "kimi_k2") || same_text(model_type, "kimi") {
        return if block { Some(Route::KimiBlock) } else { None };
    }
    if same_text(model_type, "deepseek_v3") || same_text(model_type, "deepseek_v2") {
        return if block { Some(Route::DeepSeekBlock) } else { None };
    }
    if same_text(model_type, "nemotron_h") || same_text(model_type, "nemotron3") || same_text(
        model_type,
        "nemotron",
    ) {
        return if block { Some(Route::NemotronBlock) } else { None };
    }
    Some(Route::Dense)
}

/// The type of a model, from what its configuration calls it: empty where that says nothing.
pub open spec fn type_of(named: Option<Seq<char>>) -> Seq<char> {
    match named {
        Some(s) => s,
        None => ""@,
    }
}

/// The type of a model, from what its configuration calls it.
pub fn type_or_empty(named: Option<String>) -> (r: String)
    ensures
        r@ == type_of(opt_text(named)),
{
    match named {
        Some(s) => s,
        None => text(""),
    }
}

/// The type of a model, from the bytes of its configuration.
pub fn model_type(config: &Vec<u8>) -> (r: String)
    ensures
        r@ == type_of(string_field(parsed(config@), "model_type"@)),
{
    type_or_empty(read_string_field(config, "model_type"))
}

/// The emitter of a model, from the bytes of its configuration.
pub fn route_config(config: &Vec<u8>, block: bool, k3_full: bool) -> (r: Option<Route>)
    ensures
        r == route_of(type_of(string_field(parsed(config@), "model_type"@)), block, k3_full),
{
    route(model_type(config).as_str(), block, k3_full)
}

/// Whether a chosen placement over cache domains is ignored: the emitters of these models have
/// none.
pub fn placement_is_ignored(model_type: &str, chosen: bool) -> (r: bool)
    ensures
        r == (chosen && (is_kimi(model_type@) || is_deepseek(model_type@) || is_nemotron(
            model_type@,
        ))),
{
    chosen && (same_text(model_type, "kimi_k2") || same_text(model_type, "kimi") || same_text(
        model_type,
        "deepseek_v3",
    ) || same_text(model_type, "deepseek_v2") || same_text(model_type, "nemotron_h") || same_text(
        model_type,
        "nemotron3",
    ) || same_text(model_type, "nemotron"))
}

/// Whether an emission prices tiles: for an AMD target, and where no target is named at all.
pub open spec fn priced_target(amd: bool, arch: Seq<char>, gpu: Seq<char>) -> bool {
    amd || (arch.len() == 0 && gpu.len() == 0)
}

/// Whether an emission prices tiles: for an AMD target, and where no target is named at all.
pub fn prices_tiles(amd: bool, arch: &str, gpu: &str) -> (r: bool)
    ensures
        r == (amd || (arch@.len() == 0 && gpu@.len() == 0)),
        r == priced_target(amd, arch@, gpu@),
{
    amd || (arch.unicode_len() == 0 && gpu.unicode_len() == 0)
}

} // verus!
