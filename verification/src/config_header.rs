//! The header that an object specialised to one packet is compiled against.
//!
//! Every define that a build may want to set itself stands behind an `#ifndef`, so that what the
//! command line sets wins.
use vstd::prelude::*;

use crate::json::{
    down, get_in, is_true, member, number, number_of, texts_in, texts_of, Json, JsonView,
};
use crate::manifest::{hex16, hex16_text};
use crate::opcodes::{Isa, Opcode};
use crate::order::views;
use crate::pairing::{hash_of, pairing_hash};
use crate::text::{
    begins, dec, ends, ends_with, head_of, head_text, labelled, push_dec, same_text, starts_with,
    text,
};

verus! {

/// A truth value as a digit.
pub open spec fn bit(b: bool) -> Seq<char> {
    if b { "1"@ } else { "0"@ }
}

fn bit_str(b: bool) -> (r: &'static str)
    ensures
        r@ == bit(b),
{
    if b { "1" } else { "0" }
}

/// Whether a list of arms has one of an opcode.
pub open spec fn lists_op(arms: Seq<Seq<char>>, name: Seq<char>) -> bool {
    exists|i: int| 0 <= i < arms.len() && head_of(#[trigger] arms[i]) == name
}

fn has_listed_op(arms: &Vec<String>, name: &str) -> (r: bool)
    ensures
        r == lists_op(views(arms@), name@),
{
    let ghost v = views(arms@);
    let mut i: usize = 0;
    while i < arms.len()
        invariant
            i <= arms@.len(),
            v == views(arms@),
            forall|j: int| 0 <= j < i ==> head_of(#[trigger] v[j]) != name@,
        decreases arms@.len() - i,
    {
        let h: String = head_text(arms[i].as_str());
        if same_text(h.as_str(), name) {
            proof {
                assert(head_of(v[i as int]) == name@);
            }
            return true;
        }
        i = i + 1;
    }
    false
}

/// Whether a list of arms has one that ends with a text.
pub open spec fn lists_end(arms: Seq<Seq<char>>, end: Seq<char>) -> bool {
    exists|i: int| 0 <= i < arms.len() && ends(#[trigger] arms[i], end)
}

fn has_listed_end(arms: &Vec<String>, end: &str) -> (r: bool)
    ensures
        r == lists_end(views(arms@), end@),
{
    let ghost v = views(arms@);
    let mut i: usize = 0;
    while i < arms.len()
        invariant
            i <= arms@.len(),
            v == views(arms@),
            forall|j: int| 0 <= j < i ==> !ends(#[trigger] v[j], end@),
        decreases arms@.len() - i,
    {
        if ends_with(arms[i].as_str(), end) {
            proof {
                assert(ends(v[i as int], end@));
            }
            return true;
        }
        i = i + 1;
    }
    false
}

/// Whether a list of arms has one chunk kernel that takes scaled queries.
pub open spec fn lists_prescaled(arms: Seq<Seq<char>>) -> bool {
    exists|i: int|
        0 <= i < arms.len() && begins(#[trigger] arms[i], "KdaChunk"@) && ends(arms[i], "_qpre"@)
}

fn has_prescaled(arms: &Vec<String>) -> (r: bool)
    ensures
        r == lists_prescaled(views(arms@)),
{
    let ghost v = views(arms@);
    let mut i: usize = 0;
    while i < arms.len()
        invariant
            i <= arms@.len(),
            v == views(arms@),
            forall|j: int|
                0 <= j < i ==> !(begins(#[trigger] v[j], "KdaChunk"@) && ends(v[j], "_qpre"@)),
        decreases arms@.len() - i,
    {
        let a: &str = arms[i].as_str();
        if starts_with(a, "KdaChunk") && ends_with(a, "_qpre") {
            proof {
                assert(begins(v[i as int], "KdaChunk"@) && ends(v[i as int], "_qpre"@));
            }
            return true;
        }
        i = i + 1;
    }
    false
}

/// Whether a list of arms has this one.
pub open spec fn lists_arm(arms: Seq<Seq<char>>, key: Seq<char>) -> bool {
    exists|i: int| 0 <= i < arms.len() && #[trigger] arms[i] == key
}

fn has_listed_arm(arms: &Vec<String>, key: &str) -> (r: bool)
    ensures
        r == lists_arm(views(arms@), key@),
{
    let ghost v = views(arms@);
    let mut i: usize = 0;
    while i < arms.len()
        invariant
            i <= arms@.len(),
            v == views(arms@),
            forall|j: int| 0 <= j < i ==> #[trigger] v[j] != key@,
        decreases arms@.len() - i,
    {
        if same_text(arms[i].as_str(), key) {
            proof {
                assert(v[i as int] == key@);
            }
            return true;
        }
        i = i + 1;
    }
    false
}

/// The arms of an ordinary object of a manifest.
pub open spec fn object_arms(m: JsonView, object: Seq<char>) -> Seq<Seq<char>> {
    texts_in(down(down(down(member(m, "objects"@), "ordinary"@), object), "arms"@))
}

fn arms_of_object(m: &Json, object: &str) -> (r: Vec<String>)
    ensures
        views(r@) == object_arms(m@, object@),
{
    texts_of(get_in(get_in(get_in(m.get("objects"), "ordinary"), object), "arms"))
}

/// Whether a document says that it is required.
pub open spec fn required_in(m: JsonView, part: Seq<char>, object: Seq<char>) -> bool {
    down(down(down(member(m, "objects"@), part), object), "required"@) == Some(
        JsonView::Bool(true),
    )
}

fn is_required(m: &Json, part: &str, object: &str) -> (r: bool)
    ensures
        r == required_in(m@, part@, object@),
{
    is_true(get_in(get_in(get_in(m.get("objects"), part), object), "required"))
}

/// Whether a manifest has a capability.
pub open spec fn feature_in(m: JsonView, name: Seq<char>) -> bool {
    down(member(m, "features"@), name) == Some(JsonView::Bool(true))
}

fn has_feature(m: &Json, name: &str) -> (r: bool)
    ensures
        r == feature_in(m@, name@),
{
    is_true(get_in(m.get("features"), name))
}

/// A define.
pub open spec fn define(t: Seq<char>, name: Seq<char>, value: Seq<char>) -> Seq<char> {
    t + "#define "@ + name + " "@ + value + "\n"@
}

fn push_define(t: &mut String, name: &str, value: &str)
    ensures
        final(t)@ == define(old(t)@, name@, value@),
{
    t.append("#define ");
    t.append(name);
    t.append(" ");
    t.append(value);
    t.append("\n");
}

/// A define that the command line may set instead.
pub open spec fn guarded(t: Seq<char>, name: Seq<char>, value: Seq<char>) -> Seq<char> {
    define(t + "#ifndef "@ + name + "\n"@, name, value) + "#endif\n"@
}

fn push_guarded(t: &mut String, name: &str, value: &str)
    ensures
        final(t)@ == guarded(old(t)@, name@, value@),
{
    t.append("#ifndef ");
    t.append(name);
    t.append("\n");
    push_define(t, name, value);
    t.append("#endif\n");
}

/// What the packet as a whole asks for.
#[verifier::opaque]
pub open spec fn with_requirements(t: Seq<char>, m: JsonView) -> Seq<char> {
    let t = t + "/* --- packet and per-object opcode inventory --- */\n"@;
    let t = define(t, "PLOW_PACKET_HAS_DECODE_MLA_SEGMENTS"@, bit(required_in(m, "ordinary"@, "decode_mla"@)));
    let t = define(t, "PLOW_PACKET_REQUIRES_KDA_INTRA_WAVE_ITEMS"@, bit(required_in(m, "lean"@, "kda_intra_wave_items"@)));
    let t = define(t, "PLOW_PACKET_REQUIRES_ATTN_RES_F32MIX"@, bit(required_in(m, "lean"@, "attn_res_f32mix"@)));
    let t = define(t, "PLOW_PACKET_REQUIRES_KDA_CARRY_REGSTATE"@, bit(required_in(m, "lean"@, "kda_carry_regstate"@)));
    let t = define(t, "PLOW_PACKET_REQUIRES_KDA_WU_LEAN"@, bit(required_in(m, "lean"@, "kda_wu_lean"@)));
    let t = define(t, "PLOW_PACKET_REQUIRES_KDA_CARRY_KEYFEED"@, bit(required_in(m, "lean"@, "kda_carry_keyfeed"@)));
    let t = define(t, "PLOW_PACKET_REQUIRES_MOE_PREFILL_EP"@, bit(required_in(m, "lean"@, "moe_prefill_ep"@)));
    let t = if required_in(m, "lean"@, "moe_stage1_body"@) {
        define(t, "PLOW_OBJECT_MOE_STAGE1_BODY"@, "1"@)
    } else {
        t
    };
    if required_in(m, "lean"@, "moe_stage2_body"@) {
        define(t, "PLOW_OBJECT_MOE_STAGE2_BODY"@, "1"@)
    } else {
        t
    }
}

fn push_requirements(t: &mut String, m: &Json)
    ensures
        final(t)@ == with_requirements(old(t)@, m@),
{
    proof {
        reveal(with_requirements);
    }
    t.append("/* --- packet and per-object opcode inventory --- */\n");
    push_define(t, "PLOW_PACKET_HAS_DECODE_MLA_SEGMENTS", bit_str(is_required(m, "ordinary", "decode_mla")));
    push_define(t, "PLOW_PACKET_REQUIRES_KDA_INTRA_WAVE_ITEMS", bit_str(is_required(m, "lean", "kda_intra_wave_items")));
    push_define(t, "PLOW_PACKET_REQUIRES_ATTN_RES_F32MIX", bit_str(is_required(m, "lean", "attn_res_f32mix")));
    push_define(t, "PLOW_PACKET_REQUIRES_KDA_CARRY_REGSTATE", bit_str(is_required(m, "lean", "kda_carry_regstate")));
    push_define(t, "PLOW_PACKET_REQUIRES_KDA_WU_LEAN", bit_str(is_required(m, "lean", "kda_wu_lean")));
    push_define(t, "PLOW_PACKET_REQUIRES_KDA_CARRY_KEYFEED", bit_str(is_required(m, "lean", "kda_carry_keyfeed")));
    push_define(t, "PLOW_PACKET_REQUIRES_MOE_PREFILL_EP", bit_str(is_required(m, "lean", "moe_prefill_ep")));
    if is_required(m, "lean", "moe_stage1_body") {
        push_define(t, "PLOW_OBJECT_MOE_STAGE1_BODY", "1");
    }
    if is_required(m, "lean", "moe_stage2_body") {
        push_define(t, "PLOW_OBJECT_MOE_STAGE2_BODY", "1");
    }
}

/// The arms of each of a packet's objects, and of all of them.
pub struct Inventory {
    pub union: Vec<String>,
    pub flash: Vec<String>,
    pub decode_mla: Vec<String>,
    pub decode: Vec<String>,
    pub prefill: Vec<String>,
}

pub struct InventoryView {
    pub union: Seq<Seq<char>>,
    pub flash: Seq<Seq<char>>,
    pub decode_mla: Seq<Seq<char>>,
    pub decode: Seq<Seq<char>>,
    pub prefill: Seq<Seq<char>>,
}

impl View for Inventory {
    type V = InventoryView;

    open spec fn view(&self) -> InventoryView {
        InventoryView {
            union: views(self.union@),
            flash: views(self.flash@),
            decode_mla: views(self.decode_mla@),
            decode: views(self.decode@),
            prefill: views(self.prefill@),
        }
    }
}

/// The arms of a manifest.
pub open spec fn inventory_of(m: JsonView) -> InventoryView {
    InventoryView {
        union: texts_in(member(m, "union"@)),
        flash: object_arms(m, "flash"@),
        decode_mla: object_arms(m, "decode_mla"@),
        decode: object_arms(m, "decode"@),
        prefill: object_arms(m, "prefill"@),
    }
}

fn inventory(m: &Json) -> (r: Inventory)
    ensures
        r@ == inventory_of(m@),
{
    Inventory {
        union: texts_of(m.get("union")),
        flash: arms_of_object(m, "flash"),
        decode_mla: arms_of_object(m, "decode_mla"),
        decode: arms_of_object(m, "decode"),
        prefill: arms_of_object(m, "prefill"),
    }
}

/// Whether the packet has an opcode, and whether the object that is being compiled does: that
/// depends on which of the objects it is.
#[verifier::opaque]
pub open spec fn with_opcode(t: Seq<char>, v: InventoryView, o: Opcode) -> Seq<char> {
    let n = "PLOW_HAS_"@ + o.stem@;
    let t = define(t, "PLOW_PACKET_HAS_"@ + o.stem@, bit(lists_op(v.union, o.name@)));
    let t = t + "#ifndef "@ + n + "\n#if defined(PLOW_BUCKET_FLASH)\n"@;
    let t = define(t, n, bit(lists_op(v.flash, o.name@)));
    let t = t + "#elif defined(PLOW_BUCKET_DECODE_MLA)\n"@;
    let t = define(t, n, bit(lists_op(v.decode_mla, o.name@)));
    let t = t + "#elif PLOW_BUCKET_DECODE\n"@;
    let t = define(t, n, bit(lists_op(v.decode, o.name@)));
    let t = t + "#else\n"@;
    let t = define(t, n, bit(lists_op(v.prefill, o.name@)));
    t + "#endif\n#endif\n"@
}

fn push_opcode(t: &mut String, v: &Inventory, o: &Opcode)
    ensures
        final(t)@ == with_opcode(old(t)@, v@, *o),
{
    proof {
        reveal(with_opcode);
    }
    let mut n: String = text("PLOW_HAS_");
    n.append(o.stem.as_str());
    let mut w: String = text("PLOW_PACKET_HAS_");
    w.append(o.stem.as_str());
    let name: &str = o.name.as_str();
    push_define(t, w.as_str(), bit_str(has_listed_op(&v.union, name)));
    t.append("#ifndef ");
    t.append(n.as_str());
    t.append("\n#if defined(PLOW_BUCKET_FLASH)\n");
    push_define(t, n.as_str(), bit_str(has_listed_op(&v.flash, name)));
    t.append("#elif defined(PLOW_BUCKET_DECODE_MLA)\n");
    push_define(t, n.as_str(), bit_str(has_listed_op(&v.decode_mla, name)));
    t.append("#elif PLOW_BUCKET_DECODE\n");
    push_define(t, n.as_str(), bit_str(has_listed_op(&v.decode, name)));
    t.append("#else\n");
    push_define(t, n.as_str(), bit_str(has_listed_op(&v.prefill, name)));
    t.append("#endif\n#endif\n");
}

/// The table's first `n` opcodes.
pub open spec fn with_opcodes(t: Seq<char>, v: InventoryView, os: Seq<Opcode>, n: int) -> Seq<char>
    decreases n,
{
    if n <= 0 {
        t
    } else {
        with_opcode(with_opcodes(t, v, os, n - 1), v, os[n - 1])
    }
}

fn push_opcodes(t: &mut String, v: &Inventory, isa: &Isa)
    ensures
        final(t)@ == with_opcodes(old(t)@, v@, isa.opcodes@, isa.opcodes@.len() as int),
{
    let ghost start = t@;
    let mut i: usize = 0;
    while i < isa.opcodes.len()
        invariant
            i <= isa.opcodes@.len(),
            start == old(t)@,
            t@ == with_opcodes(start, v@, isa.opcodes@, i as int),
        decreases isa.opcodes@.len() - i,
    {
        push_opcode(t, v, &isa.opcodes[i]);
        i = i + 1;
    }
}

/// Switches that follow from the opcodes and the capabilities.
#[verifier::opaque]
pub open spec fn with_switches(t: Seq<char>, v: InventoryView, m: JsonView) -> Seq<char> {
    let t = t + "\n/* --- model-neutral family switches derived from object opcode presence --- */\n#ifndef PLOW_K3\n#define PLOW_K3 (PLOW_HAS_KDA_CONV || PLOW_HAS_KDA_GATE || PLOW_HAS_KDA_STATE_STEP || \\\n PLOW_HAS_KDA_GATED_NORM || PLOW_HAS_ATTN_RES || PLOW_HAS_SITU_GLU || \\\n PLOW_HAS_MLA_OUT_GATE || PLOW_HAS_KDA_CONV3 || PLOW_HAS_KDA_STATE_STEP_G || \\\n PLOW_HAS_KDA_CONV_STATE_STEP_G || PLOW_HAS_KDA_CHUNK_PREPARE || \\\n PLOW_HAS_KDA_CHUNK_INTRA || PLOW_HAS_KDA_CHUNK_WU || PLOW_HAS_KDA_CHUNK_CARRY)\n#endif\n#ifndef PLOW_KDA_CHUNK\n#define PLOW_KDA_CHUNK (PLOW_HAS_KDA_CHUNK_PREPARE || PLOW_HAS_KDA_CHUNK_INTRA || \\\n PLOW_HAS_KDA_CHUNK_WU || PLOW_HAS_KDA_CHUNK_CARRY)\n#endif\n#ifndef PLOW_KDA_CONV_STEP_DB\n#define PLOW_KDA_CONV_STEP_DB PLOW_HAS_KDA_CONV_STATE_STEP_G\n#endif\n"@;
    let t = guarded(t, "PLOW_KDA_CHUNK_QPRE"@, bit(lists_prescaled(v.union)));
    let t = guarded(
        t,
        "PLOW_MATERIALIZED_RESIDUAL_INPUT"@,
        bit(feature_in(m, "materialized_residual_input"@)),
    );
    let b = bit(feature_in(m, "xr_combine_fold"@));
    let t = define(t, "PLOW_PACKET_REQUIRES_XR_COMBINE_FOLD"@, b);
    let t = guarded(t, "PLOW_XR_COMBINE_FOLD"@, b);
    let t = guarded(t, "PLOW_ATTNRES_DECODE_MWG"@, bit(feature_in(m, "attnres_decode_mwg"@)));
    let b = bit(feature_in(m, "kda_fb_fold"@));
    let t = define(t, "PLOW_PACKET_REQUIRES_KDA_FB_FOLD"@, b);
    let t = guarded(t, "PLOW_KDA_FB_FOLD"@, b);
    let b = bit(feature_in(m, "kda_decode_fused_arm"@));
    let t = define(t, "PLOW_PACKET_REQUIRES_KDA_DECODE_FUSED_ARM"@, b);
    let t = guarded(t, "PLOW_KDA_DECODE_FUSED_ARM"@, b);
    guarded(t, "PLOW_GEMV_PREFETCH"@, bit(feature_in(m, "gemv_prefetch"@)))
}

fn push_switches(t: &mut String, v: &Inventory, m: &Json)
    ensures
        final(t)@ == with_switches(old(t)@, v@, m@),
{
    proof {
        reveal(with_switches);
    }
    t.append("\n/* --- model-neutral family switches derived from object opcode presence --- */\n#ifndef PLOW_K3\n#define PLOW_K3 (PLOW_HAS_KDA_CONV || PLOW_HAS_KDA_GATE || PLOW_HAS_KDA_STATE_STEP || \\\n PLOW_HAS_KDA_GATED_NORM || PLOW_HAS_ATTN_RES || PLOW_HAS_SITU_GLU || \\\n PLOW_HAS_MLA_OUT_GATE || PLOW_HAS_KDA_CONV3 || PLOW_HAS_KDA_STATE_STEP_G || \\\n PLOW_HAS_KDA_CONV_STATE_STEP_G || PLOW_HAS_KDA_CHUNK_PREPARE || \\\n PLOW_HAS_KDA_CHUNK_INTRA || PLOW_HAS_KDA_CHUNK_WU || PLOW_HAS_KDA_CHUNK_CARRY)\n#endif\n#ifndef PLOW_KDA_CHUNK\n#define PLOW_KDA_CHUNK (PLOW_HAS_KDA_CHUNK_PREPARE || PLOW_HAS_KDA_CHUNK_INTRA || \\\n PLOW_HAS_KDA_CHUNK_WU || PLOW_HAS_KDA_CHUNK_CARRY)\n#endif\n#ifndef PLOW_KDA_CONV_STEP_DB\n#define PLOW_KDA_CONV_STEP_DB PLOW_HAS_KDA_CONV_STATE_STEP_G\n#endif\n");
    push_guarded(t, "PLOW_KDA_CHUNK_QPRE", bit_str(has_prescaled(&v.union)));
    push_guarded(
        t,
        "PLOW_MATERIALIZED_RESIDUAL_INPUT",
        bit_str(has_feature(m, "materialized_residual_input")),
    );
    let b: &str = bit_str(has_feature(m, "xr_combine_fold"));
    push_define(t, "PLOW_PACKET_REQUIRES_XR_COMBINE_FOLD", b);
    push_guarded(t, "PLOW_XR_COMBINE_FOLD", b);
    push_guarded(t, "PLOW_ATTNRES_DECODE_MWG", bit_str(has_feature(m, "attnres_decode_mwg")));
    let b: &str = bit_str(has_feature(m, "kda_fb_fold"));
    push_define(t, "PLOW_PACKET_REQUIRES_KDA_FB_FOLD", b);
    push_guarded(t, "PLOW_KDA_FB_FOLD", b);
    let b: &str = bit_str(has_feature(m, "kda_decode_fused_arm"));
    push_define(t, "PLOW_PACKET_REQUIRES_KDA_DECODE_FUSED_ARM", b);
    push_guarded(t, "PLOW_KDA_DECODE_FUSED_ARM", b);
    push_guarded(t, "PLOW_GEMV_PREFETCH", bit_str(has_feature(m, "gemv_prefetch")));
}

/// Whether attention is built for a head size.
pub open spec fn with_flash_hd(t: Seq<char>, v: InventoryView, hd: nat) -> Seq<char> {
    guarded(
        t,
        "PLOW_HAS_FLASH_HD"@ + dec(hd),
        bit(lists_end(v.union, "/hd"@ + dec(hd))),
    )
}

fn push_flash_hd(t: &mut String, v: &Inventory, hd: u64)
    ensures
        final(t)@ == with_flash_hd(old(t)@, v@, hd as nat),
{
    let n: String = labelled("PLOW_HAS_FLASH_HD", hd);
    let e: String = labelled("/hd", hd);
    push_guarded(t, n.as_str(), bit_str(has_listed_end(&v.union, e.as_str())));
}

/// Whether decode normalises heads of a size.
pub open spec fn with_norm_hd(t: Seq<char>, v: InventoryView, hd: nat) -> Seq<char> {
    guarded(
        t,
        "PLOW_HAS_HEADNORM_HD"@ + dec(hd),
        bit(
            lists_op(v.decode, "HeadNormRope"@) && lists_arm(
                v.decode,
                "HeadNormRope/hd"@ + dec(hd),
            ),
        ),
    )
}

fn push_norm_hd(t: &mut String, v: &Inventory, hd: u64)
    ensures
        final(t)@ == with_norm_hd(old(t)@, v@, hd as nat),
{
    let n: String = labelled("PLOW_HAS_HEADNORM_HD", hd);
    let k: String = labelled("HeadNormRope/hd", hd);
    let b: bool = has_listed_op(&v.decode, "HeadNormRope") && has_listed_arm(
        &v.decode,
        k.as_str(),
    );
    push_guarded(t, n.as_str(), bit_str(b));
}

/// Head sizes, and the capabilities that stand between them.
#[verifier::opaque]
pub open spec fn with_heads(t: Seq<char>, v: InventoryView, m: JsonView) -> Seq<char> {
    let t = t + "\n/* --- flash head dims present --- */\n"@;
    let t = with_flash_hd(t, v, 64);
    let t = with_flash_hd(t, v, 128);
    let t = with_flash_hd(t, v, 256);
    let t = with_flash_hd(t, v, 512);
    let t = define(t, "PLOW_PACKET_LINEAR_BIAS"@, bit(feature_in(m, "linear_bias"@)));
    let t = define(t, "PLOW_PACKET_ROPE_HALF_HD64"@, bit(feature_in(m, "rope_half_hd64"@)));
    let t = define(t, "PLOW_PACKET_ATTENTION_SINKS"@, bit(feature_in(m, "attention_sinks"@)));
    let t = t + "\n/* --- decode head-normalization dimensions present --- */\n"@;
    let t = with_norm_hd(t, v, 64);
    let t = with_norm_hd(t, v, 128);
    let t = with_norm_hd(t, v, 256);
    with_norm_hd(t, v, 512)
}

fn push_heads(t: &mut String, v: &Inventory, m: &Json)
    ensures
        final(t)@ == with_heads(old(t)@, v@, m@),
{
    proof {
        reveal(with_heads);
    }
    t.append("\n/* --- flash head dims present --- */\n");
    push_flash_hd(t, v, 64);
    push_flash_hd(t, v, 128);
    push_flash_hd(t, v, 256);
    push_flash_hd(t, v, 512);
    push_define(t, "PLOW_PACKET_LINEAR_BIAS", bit_str(has_feature(m, "linear_bias")));
    push_define(t, "PLOW_PACKET_ROPE_HALF_HD64", bit_str(has_feature(m, "rope_half_hd64")));
    push_define(t, "PLOW_PACKET_ATTENTION_SINKS", bit_str(has_feature(m, "attention_sinks")));
    t.append("\n/* --- decode head-normalization dimensions present --- */\n");
    push_norm_hd(t, v, 64);
    push_norm_hd(t, v, 128);
    push_norm_hd(t, v, 256);
    push_norm_hd(t, v, 512);
}

/// A constant, where the manifest has it.
pub open spec fn with_constant(t: Seq<char>, name: Seq<char>, v: Option<u64>) -> Seq<char> {
    match v {
        Some(n) => guarded(t, name, dec(n as nat)),
        None => t,
    }
}

fn number_text(n: u64) -> (r: String)
    ensures
        r@ == dec(n as nat),
{
    let mut r: String = text("");
    push_dec(&mut r, n);
    proof {
        reveal_strlit("");
        assert(r@ =~= dec(n as nat));
    }
    r
}

fn push_constant(t: &mut String, name: &str, v: Option<u64>)
    ensures
        final(t)@ == with_constant(old(t)@, name@, v),
{
    if let Some(n) = v {
        push_guarded(t, name, number_text(n).as_str());
    }
}

/// The constants that follow from the shapes.
#[verifier::opaque]
pub open spec fn with_constants(t: Seq<char>, m: JsonView) -> Seq<char> {
    let tuning = member(m, "tuning"@);
    let t = t + "\n/* --- rule-derived shape constants --- */\n"@;
    let t = with_constant(t, "GV_MM_MAX"@, number(down(tuning, "gv_mm_max"@)));
    let t = with_constant(t, "PLOW_NV_FA_GF_FULL"@, number(down(tuning, "gf_full"@)));
    match number(down(member(m, "shapes"@), "gqa"@)) {
        Some(n) => define(t, "PLOW_PACKET_GQA"@, dec(n as nat)),
        None => t,
    }
}

fn push_constants(t: &mut String, m: &Json)
    ensures
        final(t)@ == with_constants(old(t)@, m@),
{
    proof {
        reveal(with_constants);
    }
    let tuning = m.get("tuning");
    t.append("\n/* --- rule-derived shape constants --- */\n");
    push_constant(t, "GV_MM_MAX", number_of(get_in(tuning, "gv_mm_max")));
    push_constant(t, "PLOW_NV_FA_GF_FULL", number_of(get_in(tuning, "gf_full")));
    if let Some(n) = number_of(get_in(m.get("shapes"), "gqa")) {
        push_define(t, "PLOW_PACKET_GQA", number_text(n).as_str());
    }
}

/// How the header starts: with the hash of the packet that it is for.
pub open spec fn preamble(m: JsonView) -> Seq<char> {
    let t = "/* GENERATED by devgen::manifest — do not edit.\n*\n* The arm set and shape constants of ONE packet. Every macro is #ifndef-\n* guarded: an explicit -D still wins, so the hand-maintained knobs stay\n* usable as A/B controls and this header only supplies what nothing else\n* set. Pair it with the packet whose PLOW_PACKET_HASH it carries — the\n* loader refuses a mismatch. */\n#pragma once\n\n"@;
    t + "#define PLOW_PACKET_HASH 0x"@ + hex16(hash_of(m) as nat) + "ull\n\n"@
}

/// The header of a manifest.
pub open spec fn header_text(isa: Isa, m: JsonView) -> Seq<char> {
    let v = inventory_of(m);
    let t = with_requirements(preamble(m), m);
    let t = with_opcodes(t, v, isa.opcodes@, isa.opcodes@.len() as int);
    with_constants(with_heads(with_switches(t, v, m), v, m), m)
}

/// The header of a manifest.
pub fn config_header(isa: &Isa, manifest: &Json) -> (r: String)
    ensures
        r@ == header_text(*isa, manifest@),
{
    let v: Inventory = inventory(manifest);
    let mut t: String = text("/* GENERATED by devgen::manifest — do not edit.\n*\n* The arm set and shape constants of ONE packet. Every macro is #ifndef-\n* guarded: an explicit -D still wins, so the hand-maintained knobs stay\n* usable as A/B controls and this header only supplies what nothing else\n* set. Pair it with the packet whose PLOW_PACKET_HASH it carries — the\n* loader refuses a mismatch. */\n#pragma once\n\n");
    t.append("#define PLOW_PACKET_HASH 0x");
    t.append(hex16_text(pairing_hash(manifest)).as_str());
    t.append("ull\n\n");
    push_requirements(&mut t, manifest);
    push_opcodes(&mut t, &v, isa);
    push_switches(&mut t, &v, manifest);
    push_heads(&mut t, &v, manifest);
    push_constants(&mut t, manifest);
    t
}

} // verus!
