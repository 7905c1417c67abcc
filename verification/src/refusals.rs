//! What is said of a latent-attention model that is refused.
use vstd::prelude::*;

use crate::gate::{GeometryError, RopeError};
use crate::text::{dec, push_dec, text};

verus! {

/// The refusal of a model without positions, up to what its configuration gives for a base.
pub open spec fn nope_start() -> Seq<char> {
    ": `mla_use_nope` is set — this MLA carries NO positional encoding, and plow's MLA emit applies an interleaved partial RoPE unconditionally. Refusing rather than rotating the qk_rope dims the model treats as content: the result would be plausible logits from the wrong model, with nothing at runtime to say so. (config theta: "@
}

/// The refusal of a model without positions, behind what its configuration gives for a base.
pub open spec fn nope_end() -> Seq<char> {
    ".) Implementing NoPE is not just deleting the two HeadNormRope ops — the k-side one is also the only writer of the `kv.{l}.krot` cache row, AND the instruction the AMD loader and glm52_decode.c both SCAN for to patch that row's position each step. Dropping it leaves the rope half of every cached key uninitialised and quietly removes the layer from the KV-row-writer list (see `GlmCfg::rope_theta`)."@
}

/// The refusal of a model that gives no base.
pub open spec fn no_theta() -> Seq<char> {
    ": no RoPE theta in config.json. Looked for `rope_theta` and `rope_parameters.rope_theta` (transformers 5.x spelling) and found neither, and `mla_use_nope` is not set, so this is not a NoPE model either. This used to default to 8000000 — GLM's value — which meant the emitter silently substituted one model's positional encoding for another's. Add the key, or set `mla_use_nope` if the model genuinely has none."@
}

/// The refusal of a scaled rotation, between its kind and its base.
pub open spec fn scaled_middle() -> Seq<char> {
    ". The MLA tables are built with RopeScale::None, so a scaled scheme (yarn / linear / llama3) would be emitted as an UNSCALED RoPE at theta "@
}

/// The refusal of a scaled rotation, behind its base.
pub open spec fn scaled_end() -> Seq<char> {
    " — correct-looking tables, wrong long-context behaviour. Wire the scheme into `GenTensor::rope_pair` before accepting it."@
}

/// What is said of a model whose rotation is refused. `theta` is what its base reads as, and `kind`
/// what its kind of rotation reads as, in quotes.
pub open spec fn rope_refusal(
    e: RopeError,
    model: Seq<char>,
    theta: Seq<char>,
    kind: Seq<char>,
    scaling: bool,
) -> Seq<char> {
    match e {
        RopeError::NoPositions => model + nope_start() + "absent, consistent with NoPE"@
            + nope_end(),
        RopeError::Contradiction => model + nope_start() + theta
            + " — present AND `mla_use_nope`, which contradict"@ + nope_end(),
        RopeError::NoTheta => model + no_theta(),
        RopeError::UnusableTheta => model + ": rope_theta = "@ + theta
            + " is not a usable base for cos(p / theta^(2i/d))"@,
        RopeError::Scaled => model + ": rope_type = "@ + kind + ", rope_scaling present = "@ + (
        if scaling { "true"@ } else { "false"@ }) + scaled_middle() + theta + scaled_end(),
    }
}

/// Says why a model's rotation is refused.
pub fn rope_refusal_text(e: RopeError, model: &str, theta: &str, kind: &str, scaling: bool) -> (r:
    String)
    ensures
        r@ == rope_refusal(e, model@, theta@, kind@, scaling),
{
    let mut m: String = text(model);
    match e {
        RopeError::NoPositions | RopeError::Contradiction => {
            m.append(
                ": `mla_use_nope` is set — this MLA carries NO positional encoding, and plow's MLA emit applies an interleaved partial RoPE unconditionally. Refusing rather than rotating the qk_rope dims the model treats as content: the result would be plausible logits from the wrong model, with nothing at runtime to say so. (config theta: ",
            );
            if e == RopeError::NoPositions {
                m.append("absent, consistent with NoPE");
            } else {
                m.append(theta);
                m.append(" — present AND `mla_use_nope`, which contradict");
            }
            m.append(
                ".) Implementing NoPE is not just deleting the two HeadNormRope ops — the k-side one is also the only writer of the `kv.{l}.krot` cache row, AND the instruction the AMD loader and glm52_decode.c both SCAN for to patch that row's position each step. Dropping it leaves the rope half of every cached key uninitialised and quietly removes the layer from the KV-row-writer list (see `GlmCfg::rope_theta`).",
            );
        },
        RopeError::NoTheta => {
            m.append(
                ": no RoPE theta in config.json. Looked for `rope_theta` and `rope_parameters.rope_theta` (transformers 5.x spelling) and found neither, and `mla_use_nope` is not set, so this is not a NoPE model either. This used to default to 8000000 — GLM's value — which meant the emitter silently substituted one model's positional encoding for another's. Add the key, or set `mla_use_nope` if the model genuinely has none.",
            );
        },
        RopeError::UnusableTheta => {
            m.append(": rope_theta = ");
            m.append(theta);
            m.append(" is not a usable base for cos(p / theta^(2i/d))");
        },
        RopeError::Scaled => {
            m.append(": rope_type = ");
            m.append(kind);
            m.append(", rope_scaling present = ");
            if scaling {
                m.append("true");
            } else {
                m.append("false");
            }
            m.append(
                ". The MLA tables are built with RopeScale::None, so a scaled scheme (yarn / linear / llama3) would be emitted as an UNSCALED RoPE at theta ",
            );
            m.append(theta);
            m.append(
                " — correct-looking tables, wrong long-context behaviour. Wire the scheme into `GenTensor::rope_pair` before accepting it.",
            );
        },
    }
    m
}

/// The refusal of a latent width, between the two places that name it.
pub open spec fn latent_middle() -> Seq<char> {
    " is not 512. The latent width is a TEMPLATE ARGUMENT of every MLA kernel (runtime/amd/op_attention.h dispatches `<512, ...>`), not a value that the configuration can choose: an emit would have the kernels read 512 elements out of each "@
}

/// The refusal of a latent width, behind it.
pub open spec fn latent_end() -> Seq<char> {
    "-wide latent row, past the end of the cache. Instantiate op_attention.h at this width before accepting it."@
}

/// The refusal of a rotated width, behind it.
pub open spec fn rotated_end() -> Seq<char> {
    " is not qualified: the kernels' body is general in it, but only 0 and 64 are instantiated and covered. Add the width to mla_gfx950_test.c before accepting it."@
}

/// The refusal of a value width, behind it.
pub open spec fn value_end() -> Seq<char> {
    " is not a positive multiple of PLOW_MLA_FOLD_VEC = 4, so no arm can reach the fold's fast map: the output would be correct and several times slower, with nothing to say so."@
}

/// What is said of a model whose shape is refused: latent, rotated and value width of a head.
pub open spec fn geometry_refusal(
    e: GeometryError,
    model: Seq<char>,
    dk: nat,
    dr: nat,
    vd: nat,
) -> Seq<char> {
    match e {
        GeometryError::Latent => model + ": kv_lora_rank = "@ + dec(dk) + latent_middle() + dec(dk)
            + latent_end(),
        GeometryError::Rope => model + ": qk_rope_head_dim = "@ + dec(dr) + rotated_end(),
        GeometryError::Value => model + ": v_head_dim = "@ + dec(vd) + value_end(),
    }
}

/// Says why a model's shape is refused.
pub fn geometry_refusal_text(e: GeometryError, model: &str, dk: u32, dr: u32, vd: u32) -> (r: String)
    ensures
        r@ == geometry_refusal(e, model@, dk as nat, dr as nat, vd as nat),
{
    let mut m: String = text(model);
    match e {
        GeometryError::Latent => {
            m.append(": kv_lora_rank = ");
            push_dec(&mut m, dk as u64);
            m.append(
                " is not 512. The latent width is a TEMPLATE ARGUMENT of every MLA kernel (runtime/amd/op_attention.h dispatches `<512, ...>`), not a value that the configuration can choose: an emit would have the kernels read 512 elements out of each ",
            );
            push_dec(&mut m, dk as u64);
            m.append(
                "-wide latent row, past the end of the cache. Instantiate op_attention.h at this width before accepting it.",
            );
        },
        GeometryError::Rope => {
            m.append(": qk_rope_head_dim = ");
            push_dec(&mut m, dr as u64);
            m.append(
                " is not qualified: the kernels' body is general in it, but only 0 and 64 are instantiated and covered. Add the width to mla_gfx950_test.c before accepting it.",
            );
        },
        GeometryError::Value => {
            m.append(": v_head_dim = ");
            push_dec(&mut m, vd as u64);
            m.append(
                " is not a positive multiple of PLOW_MLA_FOLD_VEC = 4, so no arm can reach the fold's fast map: the output would be correct and several times slower, with nothing to say so.",
            );
        },
    }
    m
}

} // verus!
