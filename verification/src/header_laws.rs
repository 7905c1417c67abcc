//! What the header of a packet defines, and when.
use vstd::prelude::*;

use crate::config_header::{
    define, guarded, header_text, inventory_of, lists_arm, lists_end, lists_op, lists_prescaled,
    preamble, with_constants, with_heads, with_opcode, with_opcodes, with_requirements,
    with_switches, InventoryView,
};
use crate::json::{texts_in, texts_upto, JsonView};
use crate::opcodes::{Isa, Opcode};
use crate::text::{begins, dec, ends, head_of, slash_from};

verus! {

/// Whether a text holds a piece, as it is.
#[verifier::opaque]
pub open spec fn has(t: Seq<char>, x: Seq<char>) -> bool {
    exists|a: Seq<char>, z: Seq<char>| t == #[trigger] (a + x + z)
}

/// A line that defines a name.
pub open spec fn line(name: Seq<char>, value: Seq<char>) -> Seq<char> {
    "#define "@ + name + " "@ + value + "\n"@
}

/// Lines that define a name which the command line has not.
pub open spec fn guarded_line(name: Seq<char>, value: Seq<char>) -> Seq<char> {
    "#ifndef "@ + name + "\n"@ + line(name, value) + "#endif\n"@
}

/// One where something holds, zero where it does not.
pub open spec fn digit(b: bool) -> Seq<char> {
    if b { "1"@ } else { "0"@ }
}

/// What a document holds under one key behind another.
pub open spec fn at1(m: JsonView, a: Seq<char>) -> Option<JsonView> {
    match m {
        JsonView::Obj(f) => if f.dom().contains(a) { Some(f[a]) } else { None },
        _ => None,
    }
}

pub open spec fn at2(m: JsonView, a: Seq<char>, b: Seq<char>) -> Option<JsonView> {
    match at1(m, a) {
        Some(d) => at1(d, b),
        None => None,
    }
}

pub open spec fn at4(
    m: JsonView,
    a: Seq<char>,
    b: Seq<char>,
    c: Seq<char>,
    d: Seq<char>,
) -> Option<JsonView> {
    match at2(m, a, b) {
        Some(e) => at2(e, c, d),
        None => None,
    }
}

/// Whether a list holds a text of which something holds.
pub open spec fn lists(l: Option<JsonView>, f: spec_fn(Seq<char>) -> bool) -> bool {
    match l {
        Some(JsonView::Arr(v)) => exists|i: int|
            0 <= i < v.len() && (match #[trigger] v[i] {
                JsonView::Str(s) => f(s),
                _ => false,
            }),
        _ => false,
    }
}

/// Whether an arm is one of an opcode: the opcode alone, or with a variant behind a slash.
pub open spec fn arm_of(s: Seq<char>, op: Seq<char>) -> bool {
    !op.contains('/') && (s == op || begins(s, op.push('/')))
}

/// Whether a list of arms has one of an opcode.
pub open spec fn reaches(l: Option<JsonView>, op: Seq<char>) -> bool {
    lists(l, |s: Seq<char>| arm_of(s, op))
}

/// The arms of an ordinary object of a manifest.
pub open spec fn arms_of(m: JsonView, object: Seq<char>) -> Option<JsonView> {
    at4(m, "objects"@, "ordinary"@, object, "arms"@)
}

/// Whether a manifest says that a lean object is required.
pub open spec fn needs_lean(m: JsonView, object: Seq<char>) -> bool {
    at4(m, "objects"@, "lean"@, object, "required"@) == Some(JsonView::Bool(true))
}

/// Whether a manifest says that it has a capability.
pub open spec fn needs(m: JsonView, feature: Seq<char>) -> bool {
    at2(m, "features"@, feature) == Some(JsonView::Bool(true))
}

/// What the header says of an opcode: whether the packet has it, and, for whichever object is
/// compiled, whether that object does.
pub open spec fn opcode_lines(
    stem: Seq<char>,
    packet: bool,
    flash: bool,
    decode_mla: bool,
    decode: bool,
    prefill: bool,
) -> Seq<char> {
    let n = "PLOW_HAS_"@ + stem;
    line("PLOW_PACKET_HAS_"@ + stem, digit(packet)) + "#ifndef "@ + n
        + "\n#if defined(PLOW_BUCKET_FLASH)\n"@ + line(n, digit(flash))
        + "#elif defined(PLOW_BUCKET_DECODE_MLA)\n"@ + line(n, digit(decode_mla))
        + "#elif PLOW_BUCKET_DECODE\n"@ + line(n, digit(decode)) + "#else\n"@
        + line(n, digit(prefill)) + "#endif\n#endif\n"@
}

broadcast proof fn has_here(t: Seq<char>, x: Seq<char>)
    ensures
        #[trigger] has(t + x, x),
{
    reveal(has);
    assert(t + x =~= t + x + Seq::<char>::empty());
}

broadcast proof fn has_still(t: Seq<char>, y: Seq<char>, x: Seq<char>)
    requires
        has(t, x),
    ensures
        #[trigger] has(t + y, x),
{
    reveal(has);
    let (a, z) = choose|a: Seq<char>, z: Seq<char>| t == #[trigger] (a + x + z);
    assert(t + y =~= a + x + (z + y));
}

broadcast proof fn a_define_is_a_line(t: Seq<char>, name: Seq<char>, value: Seq<char>)
    ensures
        #[trigger] define(t, name, value) == t + line(name, value),
{
    assert(define(t, name, value) =~= t + line(name, value));
}

broadcast proof fn a_guarded_define_is_lines(t: Seq<char>, name: Seq<char>, value: Seq<char>)
    ensures
        #[trigger] guarded(t, name, value) == t + guarded_line(name, value),
{
    a_define_is_a_line(t + "#ifndef "@ + name + "\n"@, name, value);
    assert(guarded(t, name, value) =~= t + guarded_line(name, value));
}

broadcast group pieces {
    has_here,
    has_still,
    a_define_is_a_line,
    a_guarded_define_is_lines,
}

proof fn slash_is_first(s: Seq<char>, k: int)
    requires
        0 <= k <= s.len(),
    ensures
        k <= slash_from(s, k) <= s.len(),
        forall|i: int| k <= i < slash_from(s, k) ==> s[i] != '/',
        slash_from(s, k) < s.len() ==> s[slash_from(s, k)] == '/',
    decreases s.len() - k,
{
    if k < s.len() && s[k] != '/' {
        slash_is_first(s, k + 1);
    }
}

/// What stands before the first slash of an arm is its opcode.
pub proof fn an_arm_begins_with_its_opcode(s: Seq<char>, op: Seq<char>)
    ensures
        head_of(s) == op <==> arm_of(s, op),
{
    slash_is_first(s, 0);
    let n = slash_from(s, 0);
    if head_of(s) == op {
        assert(op.len() == n);
        assert forall|i: int| 0 <= i < op.len() implies op[i] != '/' by {
            assert(op[i] == s[i]);
        }
        if n < s.len() {
            assert(s.take(n + 1) =~= op.push('/'));
        } else {
            assert(s =~= op);
        }
    }
    if arm_of(s, op) {
        if s == op {
            if n < s.len() {
                assert(op.contains(s[n]));
            }
            assert(head_of(s) =~= op);
        } else {
            let l = op.len() as int;
            assert(s.take(l + 1)[l] == '/');
            assert(s[l] == '/');
            if n < l {
                assert(s.take(l + 1)[n] == op[n]);
                assert(op.contains(op[n]));
            }
            assert forall|i: int| 0 <= i < l implies s[i] == op[i] by {
                assert(s.take(l + 1)[i] == op.push('/')[i]);
            }
            assert(head_of(s) =~= op);
        }
    }
}

proof fn texts_are_the_texts(v: Seq<JsonView>, n: int, s: Seq<char>)
    requires
        0 <= n <= v.len(),
    ensures
        (exists|i: int| 0 <= i < texts_upto(v, n).len() && #[trigger] texts_upto(v, n)[i] == s)
            <==> exists|i: int| 0 <= i < n && #[trigger] v[i] == JsonView::Str(s),
    decreases n,
{
    if n > 0 {
        texts_are_the_texts(v, n - 1, s);
        let t = texts_upto(v, n);
        let u = texts_upto(v, n - 1);
        if exists|i: int| 0 <= i < t.len() && #[trigger] t[i] == s {
            let i = choose|i: int| 0 <= i < t.len() && #[trigger] t[i] == s;
            if i < u.len() {
                assert(u[i] == s);
                let j = choose|j: int| 0 <= j < n - 1 && #[trigger] v[j] == JsonView::Str(s);
                assert(0 <= j < n && v[j] == JsonView::Str(s));
            } else {
                assert(v[n - 1] == JsonView::Str(s));
            }
        }
        if exists|i: int| 0 <= i < n && #[trigger] v[i] == JsonView::Str(s) {
            let i = choose|i: int| 0 <= i < n && #[trigger] v[i] == JsonView::Str(s);
            if i < n - 1 {
                let j = choose|j: int| 0 <= j < u.len() && #[trigger] u[j] == s;
                assert(t[j] == s);
            } else {
                assert(t[u.len() as int] == s);
            }
        }
    }
}

proof fn lists_its_texts(l: Option<JsonView>, f: spec_fn(Seq<char>) -> bool)
    ensures
        (exists|i: int| 0 <= i < texts_in(l).len() && f(#[trigger] texts_in(l)[i])) <==> lists(
            l,
            f,
        ),
{
    if let Some(JsonView::Arr(v)) = l {
        let t = texts_in(l);
        if exists|i: int| 0 <= i < t.len() && f(#[trigger] t[i]) {
            let i = choose|i: int| 0 <= i < t.len() && f(#[trigger] t[i]);
            texts_are_the_texts(v, v.len() as int, t[i]);
            assert(texts_upto(v, v.len() as int)[i] == t[i]);
            let j = choose|j: int| 0 <= j < v.len() && #[trigger] v[j] == JsonView::Str(t[i]);
            assert(v[j] == JsonView::Str(t[i]));
        }
        if lists(l, f) {
            let i = choose|i: int|
                0 <= i < v.len() && (match #[trigger] v[i] {
                    JsonView::Str(s) => f(s),
                    _ => false,
                });
            if let JsonView::Str(s) = v[i] {
                texts_are_the_texts(v, v.len() as int, s);
                assert(v[i] == JsonView::Str(s));
                let u = texts_upto(v, v.len() as int);
                let j = choose|j: int| 0 <= j < u.len() && #[trigger] u[j] == s;
                assert(f(t[j]));
            }
        }
    }
}

proof fn listed_op(l: Option<JsonView>, op: Seq<char>)
    ensures
        lists_op(texts_in(l), op) == reaches(l, op),
{
    let f = |s: Seq<char>| arm_of(s, op);
    lists_its_texts(l, f);
    let t = texts_in(l);
    if lists_op(t, op) {
        let i = choose|i: int| 0 <= i < t.len() && head_of(#[trigger] t[i]) == op;
        an_arm_begins_with_its_opcode(t[i], op);
        assert(f(t[i]));
    }
    if reaches(l, op) {
        let i = choose|i: int| 0 <= i < t.len() && f(#[trigger] t[i]);
        an_arm_begins_with_its_opcode(t[i], op);
        assert(head_of(t[i]) == op);
    }
}

proof fn opcode_is_lines(t: Seq<char>, v: InventoryView, o: Opcode)
    ensures
        with_opcode(t, v, o) == t + opcode_lines(
            o.stem@,
            lists_op(v.union, o.name@),
            lists_op(v.flash, o.name@),
            lists_op(v.decode_mla, o.name@),
            lists_op(v.decode, o.name@),
            lists_op(v.prefill, o.name@),
        ),
{
    reveal(with_opcode);
    let n = "PLOW_HAS_"@ + o.stem@;
    let w = "PLOW_PACKET_HAS_"@ + o.stem@;
    let b0 = digit(lists_op(v.union, o.name@));
    let b1 = digit(lists_op(v.flash, o.name@));
    let b2 = digit(lists_op(v.decode_mla, o.name@));
    let b3 = digit(lists_op(v.decode, o.name@));
    let b4 = digit(lists_op(v.prefill, o.name@));
    let q0 = line(w, b0);
    a_define_is_a_line(t, w, b0);
    let q1 = joined(t, q0, "#ifndef "@);
    let q2 = joined(t, q1, n);
    let q3 = joined(t, q2, "\n#if defined(PLOW_BUCKET_FLASH)\n"@);
    a_define_is_a_line(t + q3, n, b1);
    let q4 = joined(t, q3, line(n, b1));
    let q5 = joined(t, q4, "#elif defined(PLOW_BUCKET_DECODE_MLA)\n"@);
    a_define_is_a_line(t + q5, n, b2);
    let q6 = joined(t, q5, line(n, b2));
    let q7 = joined(t, q6, "#elif PLOW_BUCKET_DECODE\n"@);
    a_define_is_a_line(t + q7, n, b3);
    let q8 = joined(t, q7, line(n, b3));
    let q9 = joined(t, q8, "#else\n"@);
    a_define_is_a_line(t + q9, n, b4);
    let q10 = joined(t, q9, line(n, b4));
    let q11 = joined(t, q10, "#endif\n#endif\n"@);
    assert(with_opcode(t, v, o) == t + q11);
}

proof fn joined(a: Seq<char>, b: Seq<char>, c: Seq<char>) -> (r: Seq<char>)
    ensures
        r == b + c,
        a + b + c == a + r,
{
    assert(a + b + c =~= a + (b + c));
    b + c
}

proof fn opcodes_are_there(t: Seq<char>, v: InventoryView, os: Seq<Opcode>, n: int, i: int)
    requires
        0 <= i < n <= os.len(),
    ensures
        has(
            with_opcodes(t, v, os, n),
            opcode_lines(
                os[i].stem@,
                lists_op(v.union, os[i].name@),
                lists_op(v.flash, os[i].name@),
                lists_op(v.decode_mla, os[i].name@),
                lists_op(v.decode, os[i].name@),
                lists_op(v.prefill, os[i].name@),
            ),
        ),
    decreases n,
{
    broadcast use {has_here, has_still};

    opcode_is_lines(with_opcodes(t, v, os, n - 1), v, os[n - 1]);
    if i < n - 1 {
        opcodes_are_there(t, v, os, n - 1, i);
    }
}

proof fn opcodes_keep(t: Seq<char>, v: InventoryView, os: Seq<Opcode>, n: int, x: Seq<char>)
    requires
        has(t, x),
        n <= os.len(),
    ensures
        has(with_opcodes(t, v, os, n), x),
    decreases n,
{
    broadcast use has_still;

    if n > 0 {
        opcodes_keep(t, v, os, n - 1, x);
        opcode_is_lines(with_opcodes(t, v, os, n - 1), v, os[n - 1]);
    }
}

proof fn requirements_keep(t: Seq<char>, m: JsonView, x: Seq<char>)
    requires
        has(t, x),
    ensures
        has(with_requirements(t, m), x),
{
    broadcast use pieces;

    reveal(with_requirements);
}

proof fn switches_keep(t: Seq<char>, v: InventoryView, m: JsonView, x: Seq<char>)
    requires
        has(t, x),
    ensures
        has(with_switches(t, v, m), x),
{
    broadcast use pieces;

    reveal(with_switches);
}

proof fn heads_keep(t: Seq<char>, v: InventoryView, m: JsonView, x: Seq<char>)
    requires
        has(t, x),
    ensures
        has(with_heads(t, v, m), x),
{
    broadcast use pieces;

    reveal(with_heads);
}

proof fn constants_keep(t: Seq<char>, m: JsonView, x: Seq<char>)
    requires
        has(t, x),
    ensures
        has(with_constants(t, m), x),
{
    broadcast use pieces;

    reveal(with_constants);
}

/// What is written before the opcodes stays.
proof fn from_requirements(isa: Isa, m: JsonView, x: Seq<char>)
    requires
        has(with_requirements(preamble(m), m), x),
    ensures
        has(header_text(isa, m), x),
{
    let v = inventory_of(m);
    opcodes_keep(with_requirements(preamble(m), m), v, isa.opcodes@, isa.opcodes@.len() as int, x);
    from_opcodes(isa, m, x);
}

proof fn from_opcodes(isa: Isa, m: JsonView, x: Seq<char>)
    requires
        has(
            with_opcodes(
                with_requirements(preamble(m), m),
                inventory_of(m),
                isa.opcodes@,
                isa.opcodes@.len() as int,
            ),
            x,
        ),
    ensures
        has(header_text(isa, m), x),
{
    let v = inventory_of(m);
    let t = with_opcodes(
        with_requirements(preamble(m), m),
        v,
        isa.opcodes@,
        isa.opcodes@.len() as int,
    );
    switches_keep(t, v, m, x);
    heads_keep(with_switches(t, v, m), v, m, x);
    constants_keep(with_heads(with_switches(t, v, m), v, m), m, x);
}

/// For every opcode of the table the header says five things, each by a digit that is one exactly
/// where a list has an arm of that opcode: that the packet has it, by the union; that the attention
/// object has it, by that object's list; that the object of latent decode segments has it, by its
/// own; that the decode object has it, by its own; and, where no bucket is named, that the prefill
/// object has it, by that object's own list.
pub proof fn every_object_has_its_own_opcodes(isa: Isa, m: JsonView, i: int)
    requires
        0 <= i < isa.opcodes@.len(),
    ensures
        ({
            let o = isa.opcodes@[i];
            has(
                header_text(isa, m),
                opcode_lines(
                    o.stem@,
                    reaches(at1(m, "union"@), o.name@),
                    reaches(arms_of(m, "flash"@), o.name@),
                    reaches(arms_of(m, "decode_mla"@), o.name@),
                    reaches(arms_of(m, "decode"@), o.name@),
                    reaches(arms_of(m, "prefill"@), o.name@),
                ),
            )
        }),
{
    let o = isa.opcodes@[i];
    let v = inventory_of(m);
    listed_op(at1(m, "union"@), o.name@);
    listed_op(arms_of(m, "flash"@), o.name@);
    listed_op(arms_of(m, "decode_mla"@), o.name@);
    listed_op(arms_of(m, "decode"@), o.name@);
    listed_op(arms_of(m, "prefill"@), o.name@);
    let t = with_requirements(preamble(m), m);
    opcodes_are_there(t, v, isa.opcodes@, isa.opcodes@.len() as int, i);
    from_opcodes(
        isa,
        m,
        opcode_lines(
            o.stem@,
            reaches(at1(m, "union"@), o.name@),
            reaches(arms_of(m, "flash"@), o.name@),
            reaches(arms_of(m, "decode_mla"@), o.name@),
            reaches(arms_of(m, "decode"@), o.name@),
            reaches(arms_of(m, "prefill"@), o.name@),
        ),
    );
}

/// The header says which bodies and segments the packet requires: each by its own object of the
/// manifest.
pub proof fn requirements_are_of_their_objects(isa: Isa, m: JsonView)
    ensures
        has(header_text(isa, m), line("PLOW_PACKET_HAS_DECODE_MLA_SEGMENTS"@, digit(at4(m, "objects"@, "ordinary"@, "decode_mla"@, "required"@) == Some(JsonView::Bool(true))))),
        has(header_text(isa, m), line("PLOW_PACKET_REQUIRES_KDA_INTRA_WAVE_ITEMS"@, digit(needs_lean(m, "kda_intra_wave_items"@)))),
        has(header_text(isa, m), line("PLOW_PACKET_REQUIRES_ATTN_RES_F32MIX"@, digit(needs_lean(m, "attn_res_f32mix"@)))),
        has(header_text(isa, m), line("PLOW_PACKET_REQUIRES_KDA_CARRY_REGSTATE"@, digit(needs_lean(m, "kda_carry_regstate"@)))),
        has(header_text(isa, m), line("PLOW_PACKET_REQUIRES_KDA_WU_LEAN"@, digit(needs_lean(m, "kda_wu_lean"@)))),
        has(header_text(isa, m), line("PLOW_PACKET_REQUIRES_KDA_CARRY_KEYFEED"@, digit(needs_lean(m, "kda_carry_keyfeed"@)))),
        has(header_text(isa, m), line("PLOW_PACKET_REQUIRES_MOE_PREFILL_EP"@, digit(needs_lean(m, "moe_prefill_ep"@)))),
        needs_lean(m, "moe_stage1_body"@) ==> has(header_text(isa, m), line("PLOW_OBJECT_MOE_STAGE1_BODY"@, "1"@)),
        needs_lean(m, "moe_stage2_body"@) ==> has(header_text(isa, m), line("PLOW_OBJECT_MOE_STAGE2_BODY"@, "1"@)),
{
    broadcast use pieces;

    reveal(with_requirements);
    from_requirements(isa, m, line("PLOW_PACKET_HAS_DECODE_MLA_SEGMENTS"@, digit(at4(m, "objects"@, "ordinary"@, "decode_mla"@, "required"@) == Some(JsonView::Bool(true)))));
    from_requirements(isa, m, line("PLOW_PACKET_REQUIRES_KDA_INTRA_WAVE_ITEMS"@, digit(needs_lean(m, "kda_intra_wave_items"@))));
    from_requirements(isa, m, line("PLOW_PACKET_REQUIRES_ATTN_RES_F32MIX"@, digit(needs_lean(m, "attn_res_f32mix"@))));
    from_requirements(isa, m, line("PLOW_PACKET_REQUIRES_KDA_CARRY_REGSTATE"@, digit(needs_lean(m, "kda_carry_regstate"@))));
    from_requirements(isa, m, line("PLOW_PACKET_REQUIRES_KDA_WU_LEAN"@, digit(needs_lean(m, "kda_wu_lean"@))));
    from_requirements(isa, m, line("PLOW_PACKET_REQUIRES_KDA_CARRY_KEYFEED"@, digit(needs_lean(m, "kda_carry_keyfeed"@))));
    from_requirements(isa, m, line("PLOW_PACKET_REQUIRES_MOE_PREFILL_EP"@, digit(needs_lean(m, "moe_prefill_ep"@))));
    if needs_lean(m, "moe_stage1_body"@) {
        from_requirements(isa, m, line("PLOW_OBJECT_MOE_STAGE1_BODY"@, "1"@));
    }
    if needs_lean(m, "moe_stage2_body"@) {
        from_requirements(isa, m, line("PLOW_OBJECT_MOE_STAGE2_BODY"@, "1"@));
    }
}

/// The header says which capabilities the packet requires, each by its own member of the manifest's
/// capabilities, and whether chunk kernels take scaled queries, by the packet's arms.
pub proof fn switches_are_of_their_capabilities(isa: Isa, m: JsonView)
    ensures
        has(
            header_text(isa, m),
            guarded_line(
                "PLOW_KDA_CHUNK_QPRE"@,
                digit(
                    lists(
                        at1(m, "union"@),
                        |s: Seq<char>| begins(s, "KdaChunk"@) && ends(s, "_qpre"@),
                    ),
                ),
            ),
        ),
        has(header_text(isa, m), line("PLOW_PACKET_REQUIRES_XR_COMBINE_FOLD"@, digit(needs(m, "xr_combine_fold"@)))),
        has(header_text(isa, m), line("PLOW_PACKET_REQUIRES_KDA_FB_FOLD"@, digit(needs(m, "kda_fb_fold"@)))),
        has(header_text(isa, m), line("PLOW_PACKET_REQUIRES_KDA_DECODE_FUSED_ARM"@, digit(needs(m, "kda_decode_fused_arm"@)))),
        has(header_text(isa, m), guarded_line("PLOW_MATERIALIZED_RESIDUAL_INPUT"@, digit(needs(m, "materialized_residual_input"@)))),
        has(header_text(isa, m), guarded_line("PLOW_XR_COMBINE_FOLD"@, digit(needs(m, "xr_combine_fold"@)))),
        has(header_text(isa, m), guarded_line("PLOW_ATTNRES_DECODE_MWG"@, digit(needs(m, "attnres_decode_mwg"@)))),
        has(header_text(isa, m), guarded_line("PLOW_KDA_FB_FOLD"@, digit(needs(m, "kda_fb_fold"@)))),
        has(header_text(isa, m), guarded_line("PLOW_KDA_DECODE_FUSED_ARM"@, digit(needs(m, "kda_decode_fused_arm"@)))),
        has(header_text(isa, m), guarded_line("PLOW_GEMV_PREFETCH"@, digit(needs(m, "gemv_prefetch"@)))),
{
    let v = inventory_of(m);
    let f = |s: Seq<char>| begins(s, "KdaChunk"@) && ends(s, "_qpre"@);
    lists_its_texts(at1(m, "union"@), f);
    let u = texts_in(at1(m, "union"@));
    assert(lists_prescaled(u) == lists(at1(m, "union"@), f)) by {
        if lists_prescaled(u) {
            let i = choose|i: int|
                0 <= i < u.len() && begins(#[trigger] u[i], "KdaChunk"@) && ends(u[i], "_qpre"@);
            assert(f(u[i]));
        }
    }
    let t = with_opcodes(
        with_requirements(preamble(m), m),
        v,
        isa.opcodes@,
        isa.opcodes@.len() as int,
    );
    switches_are_there(t, v, m);
    from_switches(
        isa,
        m,
        guarded_line("PLOW_KDA_CHUNK_QPRE"@, digit(lists(at1(m, "union"@), f))),
    );
    from_switches(isa, m, line("PLOW_PACKET_REQUIRES_XR_COMBINE_FOLD"@, digit(needs(m, "xr_combine_fold"@))));
    from_switches(isa, m, line("PLOW_PACKET_REQUIRES_KDA_FB_FOLD"@, digit(needs(m, "kda_fb_fold"@))));
    from_switches(isa, m, line("PLOW_PACKET_REQUIRES_KDA_DECODE_FUSED_ARM"@, digit(needs(m, "kda_decode_fused_arm"@))));
    from_switches(isa, m, guarded_line("PLOW_MATERIALIZED_RESIDUAL_INPUT"@, digit(needs(m, "materialized_residual_input"@))));
    from_switches(isa, m, guarded_line("PLOW_XR_COMBINE_FOLD"@, digit(needs(m, "xr_combine_fold"@))));
    from_switches(isa, m, guarded_line("PLOW_ATTNRES_DECODE_MWG"@, digit(needs(m, "attnres_decode_mwg"@))));
    from_switches(isa, m, guarded_line("PLOW_KDA_FB_FOLD"@, digit(needs(m, "kda_fb_fold"@))));
    from_switches(isa, m, guarded_line("PLOW_KDA_DECODE_FUSED_ARM"@, digit(needs(m, "kda_decode_fused_arm"@))));
    from_switches(isa, m, guarded_line("PLOW_GEMV_PREFETCH"@, digit(needs(m, "gemv_prefetch"@))));
}

proof fn switches_are_there(t: Seq<char>, v: InventoryView, m: JsonView)
    ensures
        has(
            with_switches(t, v, m),
            guarded_line("PLOW_KDA_CHUNK_QPRE"@, digit(lists_prescaled(v.union))),
        ),
        has(with_switches(t, v, m), line("PLOW_PACKET_REQUIRES_XR_COMBINE_FOLD"@, digit(needs(m, "xr_combine_fold"@)))),
        has(with_switches(t, v, m), line("PLOW_PACKET_REQUIRES_KDA_FB_FOLD"@, digit(needs(m, "kda_fb_fold"@)))),
        has(with_switches(t, v, m), line("PLOW_PACKET_REQUIRES_KDA_DECODE_FUSED_ARM"@, digit(needs(m, "kda_decode_fused_arm"@)))),
        has(with_switches(t, v, m), guarded_line("PLOW_MATERIALIZED_RESIDUAL_INPUT"@, digit(needs(m, "materialized_residual_input"@)))),
        has(with_switches(t, v, m), guarded_line("PLOW_XR_COMBINE_FOLD"@, digit(needs(m, "xr_combine_fold"@)))),
        has(with_switches(t, v, m), guarded_line("PLOW_ATTNRES_DECODE_MWG"@, digit(needs(m, "attnres_decode_mwg"@)))),
        has(with_switches(t, v, m), guarded_line("PLOW_KDA_FB_FOLD"@, digit(needs(m, "kda_fb_fold"@)))),
        has(with_switches(t, v, m), guarded_line("PLOW_KDA_DECODE_FUSED_ARM"@, digit(needs(m, "kda_decode_fused_arm"@)))),
        has(with_switches(t, v, m), guarded_line("PLOW_GEMV_PREFETCH"@, digit(needs(m, "gemv_prefetch"@)))),
{
    broadcast use pieces;

    reveal(with_switches);
}

proof fn from_switches(isa: Isa, m: JsonView, x: Seq<char>)
    requires
        has(
            with_switches(
                with_opcodes(
                    with_requirements(preamble(m), m),
                    inventory_of(m),
                    isa.opcodes@,
                    isa.opcodes@.len() as int,
                ),
                inventory_of(m),
                m,
            ),
            x,
        ),
    ensures
        has(header_text(isa, m), x),
{
    let v = inventory_of(m);
    let t = with_opcodes(
        with_requirements(preamble(m), m),
        v,
        isa.opcodes@,
        isa.opcodes@.len() as int,
    );
    heads_keep(with_switches(t, v, m), v, m, x);
    constants_keep(with_heads(with_switches(t, v, m), v, m), m, x);
}

proof fn from_heads(isa: Isa, m: JsonView, x: Seq<char>)
    requires
        has(
            with_heads(
                with_switches(
                    with_opcodes(
                        with_requirements(preamble(m), m),
                        inventory_of(m),
                        isa.opcodes@,
                        isa.opcodes@.len() as int,
                    ),
                    inventory_of(m),
                    m,
                ),
                inventory_of(m),
                m,
            ),
            x,
        ),
    ensures
        has(header_text(isa, m), x),
{
    let v = inventory_of(m);
    let t = with_opcodes(
        with_requirements(preamble(m), m),
        v,
        isa.opcodes@,
        isa.opcodes@.len() as int,
    );
    constants_keep(with_heads(with_switches(t, v, m), v, m), m, x);
}

/// Whether some arm of the packet is built for heads of a size.
pub open spec fn built_for(m: JsonView, size: Seq<char>) -> bool {
    lists(at1(m, "union"@), |s: Seq<char>| ends(s, "/hd"@ + size))
}

/// Whether the decode object normalises heads of a size.
pub open spec fn normalises(m: JsonView, size: Seq<char>) -> bool {
    reaches(arms_of(m, "decode"@), "HeadNormRope"@) && lists(
        arms_of(m, "decode"@),
        |s: Seq<char>| s == "HeadNormRope/hd"@ + size,
    )
}

proof fn built_is_listed(m: JsonView, size: Seq<char>)
    ensures
        lists_end(inventory_of(m).union, "/hd"@ + size) == built_for(m, size),
{
    let f = |s: Seq<char>| ends(s, "/hd"@ + size);
    lists_its_texts(at1(m, "union"@), f);
    let u = texts_in(at1(m, "union"@));
    if lists_end(u, "/hd"@ + size) {
        let i = choose|i: int| 0 <= i < u.len() && ends(#[trigger] u[i], "/hd"@ + size);
        assert(f(u[i]));
    }
}

proof fn normalises_is_listed(m: JsonView, size: Seq<char>)
    ensures
        (lists_op(inventory_of(m).decode, "HeadNormRope"@) && lists_arm(
            inventory_of(m).decode,
            "HeadNormRope/hd"@ + size,
        )) == normalises(m, size),
{
    let f = |s: Seq<char>| s == "HeadNormRope/hd"@ + size;
    let l = arms_of(m, "decode"@);
    lists_its_texts(l, f);
    listed_op(l, "HeadNormRope"@);
    let u = texts_in(l);
    if lists_arm(u, "HeadNormRope/hd"@ + size) {
        let i = choose|i: int| 0 <= i < u.len() && #[trigger] u[i] == "HeadNormRope/hd"@ + size;
        assert(f(u[i]));
    }
}

/// The header says which head sizes attention is built for, by the packet's arms, and which sizes
/// decode normalises, by the decode object's own; and three capabilities, each by its member.
pub proof fn head_sizes_are_of_their_arms(isa: Isa, m: JsonView)
    ensures
        has(header_text(isa, m), guarded_line("PLOW_HAS_FLASH_HD"@ + dec(64), digit(built_for(m, dec(64))))),
        has(header_text(isa, m), guarded_line("PLOW_HAS_FLASH_HD"@ + dec(128), digit(built_for(m, dec(128))))),
        has(header_text(isa, m), guarded_line("PLOW_HAS_FLASH_HD"@ + dec(256), digit(built_for(m, dec(256))))),
        has(header_text(isa, m), guarded_line("PLOW_HAS_FLASH_HD"@ + dec(512), digit(built_for(m, dec(512))))),
        has(header_text(isa, m), guarded_line("PLOW_HAS_HEADNORM_HD"@ + dec(64), digit(normalises(m, dec(64))))),
        has(header_text(isa, m), guarded_line("PLOW_HAS_HEADNORM_HD"@ + dec(128), digit(normalises(m, dec(128))))),
        has(header_text(isa, m), guarded_line("PLOW_HAS_HEADNORM_HD"@ + dec(256), digit(normalises(m, dec(256))))),
        has(header_text(isa, m), guarded_line("PLOW_HAS_HEADNORM_HD"@ + dec(512), digit(normalises(m, dec(512))))),
        has(header_text(isa, m), line("PLOW_PACKET_LINEAR_BIAS"@, digit(needs(m, "linear_bias"@)))),
        has(header_text(isa, m), line("PLOW_PACKET_ROPE_HALF_HD64"@, digit(needs(m, "rope_half_hd64"@)))),
        has(header_text(isa, m), line("PLOW_PACKET_ATTENTION_SINKS"@, digit(needs(m, "attention_sinks"@)))),
{
    broadcast use pieces;

    reveal(with_heads);
    built_is_listed(m, dec(64));
    normalises_is_listed(m, dec(64));
    built_is_listed(m, dec(128));
    normalises_is_listed(m, dec(128));
    built_is_listed(m, dec(256));
    normalises_is_listed(m, dec(256));
    built_is_listed(m, dec(512));
    normalises_is_listed(m, dec(512));
    from_heads(isa, m, guarded_line("PLOW_HAS_FLASH_HD"@ + dec(64), digit(built_for(m, dec(64)))));
    from_heads(isa, m, guarded_line("PLOW_HAS_FLASH_HD"@ + dec(128), digit(built_for(m, dec(128)))));
    from_heads(isa, m, guarded_line("PLOW_HAS_FLASH_HD"@ + dec(256), digit(built_for(m, dec(256)))));
    from_heads(isa, m, guarded_line("PLOW_HAS_FLASH_HD"@ + dec(512), digit(built_for(m, dec(512)))));
    from_heads(isa, m, guarded_line("PLOW_HAS_HEADNORM_HD"@ + dec(64), digit(normalises(m, dec(64)))));
    from_heads(isa, m, guarded_line("PLOW_HAS_HEADNORM_HD"@ + dec(128), digit(normalises(m, dec(128)))));
    from_heads(isa, m, guarded_line("PLOW_HAS_HEADNORM_HD"@ + dec(256), digit(normalises(m, dec(256)))));
    from_heads(isa, m, guarded_line("PLOW_HAS_HEADNORM_HD"@ + dec(512), digit(normalises(m, dec(512)))));
    from_heads(isa, m, line("PLOW_PACKET_LINEAR_BIAS"@, digit(needs(m, "linear_bias"@))));
    from_heads(isa, m, line("PLOW_PACKET_ROPE_HALF_HD64"@, digit(needs(m, "rope_half_hd64"@))));
    from_heads(isa, m, line("PLOW_PACKET_ATTENTION_SINKS"@, digit(needs(m, "attention_sinks"@))));
}

/// The number that a document holds, where it is one.
pub open spec fn number_at(j: Option<JsonView>) -> Option<u64> {
    match j {
        Some(JsonView::Num(n)) => Some(n),
        _ => None,
    }
}

/// The header gives the constants of the manifest: the width of its row products and the heads that
/// an item of full attention carries, each where the manifest has it, and how many heads share one
/// of keys and values. Before all else it states the manifest's hash.
pub proof fn constants_are_those_of_the_manifest(isa: Isa, m: JsonView)
    ensures
        number_at(at2(m, "tuning"@, "gv_mm_max"@)) matches Some(n) ==> has(
            header_text(isa, m),
            guarded_line("GV_MM_MAX"@, dec(n as nat)),
        ),
        number_at(at2(m, "tuning"@, "gf_full"@)) matches Some(n) ==> has(
            header_text(isa, m),
            guarded_line("PLOW_NV_FA_GF_FULL"@, dec(n as nat)),
        ),
        number_at(at2(m, "shapes"@, "gqa"@)) matches Some(n) ==> has(
            header_text(isa, m),
            line("PLOW_PACKET_GQA"@, dec(n as nat)),
        ),
        has(
            header_text(isa, m),
            "#define PLOW_PACKET_HASH 0x"@ + crate::manifest::hex16(
                crate::pairing::hash_of(m) as nat,
            ) + "ull\n\n"@,
        ),
{
    broadcast use pieces;

    reveal(with_constants);
    let h = crate::manifest::hex16(crate::pairing::hash_of(m) as nat);
    let x = "#define PLOW_PACKET_HASH 0x"@ + h + "ull\n\n"@;
    let t = "/* GENERATED by devgen::manifest — do not edit.\n*\n* The arm set and shape constants of ONE packet. Every macro is #ifndef-\n* guarded: an explicit -D still wins, so the hand-maintained knobs stay\n* usable as A/B controls and this header only supplies what nothing else\n* set. Pair it with the packet whose PLOW_PACKET_HASH it carries — the\n* loader refuses a mismatch. */\n#pragma once\n\n"@;
    assert(preamble(m) =~= t + x);
    requirements_keep(preamble(m), m, x);
    from_requirements(isa, m, x);
}

/// Whether a manifest has decode segments of one latent attention.
pub open spec fn needs_segments(m: JsonView) -> bool {
    at4(m, "objects"@, "ordinary"@, "decode_mla"@, "required"@) == Some(JsonView::Bool(true))
}

/// Whether a chunk kernel of the packet takes scaled queries.
pub open spec fn takes_scaled(m: JsonView) -> bool {
    lists(at1(m, "union"@), |s: Seq<char>| begins(s, "KdaChunk"@) && ends(s, "_qpre"@))
}

/// A piece where something holds, and nothing where it does not.
pub open spec fn where_so(b: bool, x: Seq<char>) -> Seq<char> {
    if b { x } else { Seq::empty() }
}

/// A constant that the command line may set instead, where there is one.
pub open spec fn constant_line(name: Seq<char>, v: Option<u64>) -> Seq<char> {
    match v {
        Some(n) => guarded_line(name, dec(n as nat)),
        None => Seq::empty(),
    }
}

/// How many heads share one of keys and values, where the manifest says it.
pub open spec fn shared_heads_line(v: Option<u64>) -> Seq<char> {
    match v {
        Some(n) => line("PLOW_PACKET_GQA"@, dec(n as nat)),
        None => Seq::empty(),
    }
}

/// The lines on what the packet as a whole asks for.
pub open spec fn requirement_lines(m: JsonView) -> Seq<char> {
    "/* --- packet and per-object opcode inventory --- */\n"@
        + line("PLOW_PACKET_HAS_DECODE_MLA_SEGMENTS"@, digit(needs_segments(m)))
        + line("PLOW_PACKET_REQUIRES_KDA_INTRA_WAVE_ITEMS"@, digit(needs_lean(m, "kda_intra_wave_items"@)))
        + line("PLOW_PACKET_REQUIRES_ATTN_RES_F32MIX"@, digit(needs_lean(m, "attn_res_f32mix"@)))
        + line("PLOW_PACKET_REQUIRES_KDA_CARRY_REGSTATE"@, digit(needs_lean(m, "kda_carry_regstate"@)))
        + line("PLOW_PACKET_REQUIRES_KDA_WU_LEAN"@, digit(needs_lean(m, "kda_wu_lean"@)))
        + line("PLOW_PACKET_REQUIRES_KDA_CARRY_KEYFEED"@, digit(needs_lean(m, "kda_carry_keyfeed"@)))
        + line("PLOW_PACKET_REQUIRES_MOE_PREFILL_EP"@, digit(needs_lean(m, "moe_prefill_ep"@)))
        + where_so(needs_lean(m, "moe_stage1_body"@), line("PLOW_OBJECT_MOE_STAGE1_BODY"@, "1"@))
        + where_so(needs_lean(m, "moe_stage2_body"@), line("PLOW_OBJECT_MOE_STAGE2_BODY"@, "1"@))
}

/// The lines on what follows from the opcodes and the capabilities.
pub open spec fn switch_lines(m: JsonView) -> Seq<char> {
    "\n/* --- model-neutral family switches derived from object opcode presence --- */\n#ifndef PLOW_K3\n#define PLOW_K3 (PLOW_HAS_KDA_CONV || PLOW_HAS_KDA_GATE || PLOW_HAS_KDA_STATE_STEP || \\\n PLOW_HAS_KDA_GATED_NORM || PLOW_HAS_ATTN_RES || PLOW_HAS_SITU_GLU || \\\n PLOW_HAS_MLA_OUT_GATE || PLOW_HAS_KDA_CONV3 || PLOW_HAS_KDA_STATE_STEP_G || \\\n PLOW_HAS_KDA_CONV_STATE_STEP_G || PLOW_HAS_KDA_CHUNK_PREPARE || \\\n PLOW_HAS_KDA_CHUNK_INTRA || PLOW_HAS_KDA_CHUNK_WU || PLOW_HAS_KDA_CHUNK_CARRY)\n#endif\n#ifndef PLOW_KDA_CHUNK\n#define PLOW_KDA_CHUNK (PLOW_HAS_KDA_CHUNK_PREPARE || PLOW_HAS_KDA_CHUNK_INTRA || \\\n PLOW_HAS_KDA_CHUNK_WU || PLOW_HAS_KDA_CHUNK_CARRY)\n#endif\n#ifndef PLOW_KDA_CONV_STEP_DB\n#define PLOW_KDA_CONV_STEP_DB PLOW_HAS_KDA_CONV_STATE_STEP_G\n#endif\n"@
        + guarded_line("PLOW_KDA_CHUNK_QPRE"@, digit(takes_scaled(m)))
        + guarded_line("PLOW_MATERIALIZED_RESIDUAL_INPUT"@, digit(needs(m, "materialized_residual_input"@)))
        + line("PLOW_PACKET_REQUIRES_XR_COMBINE_FOLD"@, digit(needs(m, "xr_combine_fold"@)))
        + guarded_line("PLOW_XR_COMBINE_FOLD"@, digit(needs(m, "xr_combine_fold"@)))
        + guarded_line("PLOW_ATTNRES_DECODE_MWG"@, digit(needs(m, "attnres_decode_mwg"@)))
        + line("PLOW_PACKET_REQUIRES_KDA_FB_FOLD"@, digit(needs(m, "kda_fb_fold"@)))
        + guarded_line("PLOW_KDA_FB_FOLD"@, digit(needs(m, "kda_fb_fold"@)))
        + line("PLOW_PACKET_REQUIRES_KDA_DECODE_FUSED_ARM"@, digit(needs(m, "kda_decode_fused_arm"@)))
        + guarded_line("PLOW_KDA_DECODE_FUSED_ARM"@, digit(needs(m, "kda_decode_fused_arm"@)))
        + guarded_line("PLOW_GEMV_PREFETCH"@, digit(needs(m, "gemv_prefetch"@)))
}

/// The lines on head sizes, and on the capabilities that stand between them.
pub open spec fn head_lines(m: JsonView) -> Seq<char> {
    "\n/* --- flash head dims present --- */\n"@
        + guarded_line("PLOW_HAS_FLASH_HD"@ + dec(64), digit(built_for(m, dec(64))))
        + guarded_line("PLOW_HAS_FLASH_HD"@ + dec(128), digit(built_for(m, dec(128))))
        + guarded_line("PLOW_HAS_FLASH_HD"@ + dec(256), digit(built_for(m, dec(256))))
        + guarded_line("PLOW_HAS_FLASH_HD"@ + dec(512), digit(built_for(m, dec(512))))
        + line("PLOW_PACKET_LINEAR_BIAS"@, digit(needs(m, "linear_bias"@)))
        + line("PLOW_PACKET_ROPE_HALF_HD64"@, digit(needs(m, "rope_half_hd64"@)))
        + line("PLOW_PACKET_ATTENTION_SINKS"@, digit(needs(m, "attention_sinks"@)))
        + "\n/* --- decode head-normalization dimensions present --- */\n"@
        + guarded_line("PLOW_HAS_HEADNORM_HD"@ + dec(64), digit(normalises(m, dec(64))))
        + guarded_line("PLOW_HAS_HEADNORM_HD"@ + dec(128), digit(normalises(m, dec(128))))
        + guarded_line("PLOW_HAS_HEADNORM_HD"@ + dec(256), digit(normalises(m, dec(256))))
        + guarded_line("PLOW_HAS_HEADNORM_HD"@ + dec(512), digit(normalises(m, dec(512))))
}

/// The lines on the constants that follow from the shapes.
pub open spec fn constant_lines(m: JsonView) -> Seq<char> {
    "\n/* --- rule-derived shape constants --- */\n"@
        + constant_line("GV_MM_MAX"@, number_at(at2(m, "tuning"@, "gv_mm_max"@)))
        + constant_line("PLOW_NV_FA_GF_FULL"@, number_at(at2(m, "tuning"@, "gf_full"@)))
        + shared_heads_line(number_at(at2(m, "shapes"@, "gqa"@)))
}

/// The lines on the table's first `n` opcodes.
pub open spec fn table_lines(m: JsonView, os: Seq<Opcode>, n: int) -> Seq<char>
    decreases n,
{
    if n <= 0 {
        Seq::empty()
    } else {
        table_lines(m, os, n - 1) + opcode_lines(
            os[n - 1].stem@,
            reaches(at1(m, "union"@), os[n - 1].name@),
            reaches(arms_of(m, "flash"@), os[n - 1].name@),
            reaches(arms_of(m, "decode_mla"@), os[n - 1].name@),
            reaches(arms_of(m, "decode"@), os[n - 1].name@),
            reaches(arms_of(m, "prefill"@), os[n - 1].name@),
        )
    }
}

proof fn nothing_added(t: Seq<char>)
    ensures
        t + Seq::<char>::empty() == t,
        Seq::<char>::empty() + t == t,
{
    assert(t + Seq::<char>::empty() =~= t);
    assert(Seq::<char>::empty() + t =~= t);
}

#[verifier::spinoff_prover]
proof fn requirement_section(t: Seq<char>, m: JsonView)
    ensures
        with_requirements(t, m) == t + requirement_lines(m),
{
    reveal(with_requirements);
    broadcast use a_define_is_a_line;

    let q0 = "/* --- packet and per-object opcode inventory --- */\n"@;
    let q1 = joined(t, q0, line("PLOW_PACKET_HAS_DECODE_MLA_SEGMENTS"@, digit(needs_segments(m))));
    let q2 = joined(t, q1, line("PLOW_PACKET_REQUIRES_KDA_INTRA_WAVE_ITEMS"@, digit(needs_lean(m, "kda_intra_wave_items"@))));
    let q3 = joined(t, q2, line("PLOW_PACKET_REQUIRES_ATTN_RES_F32MIX"@, digit(needs_lean(m, "attn_res_f32mix"@))));
    let q4 = joined(t, q3, line("PLOW_PACKET_REQUIRES_KDA_CARRY_REGSTATE"@, digit(needs_lean(m, "kda_carry_regstate"@))));
    let q5 = joined(t, q4, line("PLOW_PACKET_REQUIRES_KDA_WU_LEAN"@, digit(needs_lean(m, "kda_wu_lean"@))));
    let q6 = joined(t, q5, line("PLOW_PACKET_REQUIRES_KDA_CARRY_KEYFEED"@, digit(needs_lean(m, "kda_carry_keyfeed"@))));
    let q7 = joined(t, q6, line("PLOW_PACKET_REQUIRES_MOE_PREFILL_EP"@, digit(needs_lean(m, "moe_prefill_ep"@))));
    nothing_added(t + q7);
    let q8 = joined(t, q7, where_so(needs_lean(m, "moe_stage1_body"@), line("PLOW_OBJECT_MOE_STAGE1_BODY"@, "1"@)));
    nothing_added(t + q8);
    let q9 = joined(t, q8, where_so(needs_lean(m, "moe_stage2_body"@), line("PLOW_OBJECT_MOE_STAGE2_BODY"@, "1"@)));
    assert(with_requirements(t, m) == t + q9);
}

proof fn scaled_is_listed(m: JsonView)
    ensures
        lists_prescaled(inventory_of(m).union) == takes_scaled(m),
{
    let f = |s: Seq<char>| begins(s, "KdaChunk"@) && ends(s, "_qpre"@);
    lists_its_texts(at1(m, "union"@), f);
    let u = texts_in(at1(m, "union"@));
    assert(lists_prescaled(u) == takes_scaled(m)) by {
        if lists_prescaled(u) {
            let i = choose|i: int|
                0 <= i < u.len() && begins(#[trigger] u[i], "KdaChunk"@) && ends(u[i], "_qpre"@);
            assert(f(u[i]));
        }
    }
}

#[verifier::spinoff_prover]
proof fn switch_section(t: Seq<char>, m: JsonView)
    ensures
        with_switches(t, inventory_of(m), m) == t + switch_lines(m),
{
    reveal(with_switches);
    broadcast use {a_define_is_a_line, a_guarded_define_is_lines};

    scaled_is_listed(m);
    let q0 = "\n/* --- model-neutral family switches derived from object opcode presence --- */\n#ifndef PLOW_K3\n#define PLOW_K3 (PLOW_HAS_KDA_CONV || PLOW_HAS_KDA_GATE || PLOW_HAS_KDA_STATE_STEP || \\\n PLOW_HAS_KDA_GATED_NORM || PLOW_HAS_ATTN_RES || PLOW_HAS_SITU_GLU || \\\n PLOW_HAS_MLA_OUT_GATE || PLOW_HAS_KDA_CONV3 || PLOW_HAS_KDA_STATE_STEP_G || \\\n PLOW_HAS_KDA_CONV_STATE_STEP_G || PLOW_HAS_KDA_CHUNK_PREPARE || \\\n PLOW_HAS_KDA_CHUNK_INTRA || PLOW_HAS_KDA_CHUNK_WU || PLOW_HAS_KDA_CHUNK_CARRY)\n#endif\n#ifndef PLOW_KDA_CHUNK\n#define PLOW_KDA_CHUNK (PLOW_HAS_KDA_CHUNK_PREPARE || PLOW_HAS_KDA_CHUNK_INTRA || \\\n PLOW_HAS_KDA_CHUNK_WU || PLOW_HAS_KDA_CHUNK_CARRY)\n#endif\n#ifndef PLOW_KDA_CONV_STEP_DB\n#define PLOW_KDA_CONV_STEP_DB PLOW_HAS_KDA_CONV_STATE_STEP_G\n#endif\n"@;
    let q1 = joined(t, q0, guarded_line("PLOW_KDA_CHUNK_QPRE"@, digit(takes_scaled(m))));
    let q2 = joined(t, q1, guarded_line("PLOW_MATERIALIZED_RESIDUAL_INPUT"@, digit(needs(m, "materialized_residual_input"@))));
    let q3 = joined(t, q2, line("PLOW_PACKET_REQUIRES_XR_COMBINE_FOLD"@, digit(needs(m, "xr_combine_fold"@))));
    let q4 = joined(t, q3, guarded_line("PLOW_XR_COMBINE_FOLD"@, digit(needs(m, "xr_combine_fold"@))));
    let q5 = joined(t, q4, guarded_line("PLOW_ATTNRES_DECODE_MWG"@, digit(needs(m, "attnres_decode_mwg"@))));
    let q6 = joined(t, q5, line("PLOW_PACKET_REQUIRES_KDA_FB_FOLD"@, digit(needs(m, "kda_fb_fold"@))));
    let q7 = joined(t, q6, guarded_line("PLOW_KDA_FB_FOLD"@, digit(needs(m, "kda_fb_fold"@))));
    let q8 = joined(t, q7, line("PLOW_PACKET_REQUIRES_KDA_DECODE_FUSED_ARM"@, digit(needs(m, "kda_decode_fused_arm"@))));
    let q9 = joined(t, q8, guarded_line("PLOW_KDA_DECODE_FUSED_ARM"@, digit(needs(m, "kda_decode_fused_arm"@))));
    let q10 = joined(t, q9, guarded_line("PLOW_GEMV_PREFETCH"@, digit(needs(m, "gemv_prefetch"@))));
    assert(with_switches(t, inventory_of(m), m) == t + q10);
}

#[verifier::spinoff_prover]
proof fn head_section(t: Seq<char>, m: JsonView)
    ensures
        with_heads(t, inventory_of(m), m) == t + head_lines(m),
{
    reveal(with_heads);
    broadcast use {a_define_is_a_line, a_guarded_define_is_lines};

    built_is_listed(m, dec(64));
    normalises_is_listed(m, dec(64));
    built_is_listed(m, dec(128));
    normalises_is_listed(m, dec(128));
    built_is_listed(m, dec(256));
    normalises_is_listed(m, dec(256));
    built_is_listed(m, dec(512));
    normalises_is_listed(m, dec(512));
    let q0 = "\n/* --- flash head dims present --- */\n"@;
    let q1 = joined(t, q0, guarded_line("PLOW_HAS_FLASH_HD"@ + dec(64), digit(built_for(m, dec(64)))));
    let q2 = joined(t, q1, guarded_line("PLOW_HAS_FLASH_HD"@ + dec(128), digit(built_for(m, dec(128)))));
    let q3 = joined(t, q2, guarded_line("PLOW_HAS_FLASH_HD"@ + dec(256), digit(built_for(m, dec(256)))));
    let q4 = joined(t, q3, guarded_line("PLOW_HAS_FLASH_HD"@ + dec(512), digit(built_for(m, dec(512)))));
    let q5 = joined(t, q4, line("PLOW_PACKET_LINEAR_BIAS"@, digit(needs(m, "linear_bias"@))));
    let q6 = joined(t, q5, line("PLOW_PACKET_ROPE_HALF_HD64"@, digit(needs(m, "rope_half_hd64"@))));
    let q7 = joined(t, q6, line("PLOW_PACKET_ATTENTION_SINKS"@, digit(needs(m, "attention_sinks"@))));
    let q8 = joined(t, q7, "\n/* --- decode head-normalization dimensions present --- */\n"@);
    let q9 = joined(t, q8, guarded_line("PLOW_HAS_HEADNORM_HD"@ + dec(64), digit(normalises(m, dec(64)))));
    let q10 = joined(t, q9, guarded_line("PLOW_HAS_HEADNORM_HD"@ + dec(128), digit(normalises(m, dec(128)))));
    let q11 = joined(t, q10, guarded_line("PLOW_HAS_HEADNORM_HD"@ + dec(256), digit(normalises(m, dec(256)))));
    let q12 = joined(t, q11, guarded_line("PLOW_HAS_HEADNORM_HD"@ + dec(512), digit(normalises(m, dec(512)))));
    assert(with_heads(t, inventory_of(m), m) == t + q12);
}

#[verifier::spinoff_prover]
proof fn constant_section(t: Seq<char>, m: JsonView)
    ensures
        with_constants(t, m) == t + constant_lines(m),
{
    reveal(with_constants);
    broadcast use {a_define_is_a_line, a_guarded_define_is_lines};

    let q0 = "\n/* --- rule-derived shape constants --- */\n"@;
    nothing_added(t + q0);
    let q1 = joined(t, q0, constant_line("GV_MM_MAX"@, number_at(at2(m, "tuning"@, "gv_mm_max"@))));
    nothing_added(t + q1);
    let q2 = joined(t, q1, constant_line("PLOW_NV_FA_GF_FULL"@, number_at(at2(m, "tuning"@, "gf_full"@))));
    nothing_added(t + q2);
    let q3 = joined(t, q2, shared_heads_line(number_at(at2(m, "shapes"@, "gqa"@))));
    assert(with_constants(t, m) == t + q3);
}

proof fn table_section(t: Seq<char>, m: JsonView, os: Seq<Opcode>, n: int)
    requires
        n <= os.len(),
    ensures
        with_opcodes(t, inventory_of(m), os, n) == t + table_lines(m, os, n),
    decreases n,
{
    if n > 0 {
        table_section(t, m, os, n - 1);
        let o = os[n - 1];
        listed_op(at1(m, "union"@), o.name@);
        listed_op(arms_of(m, "flash"@), o.name@);
        listed_op(arms_of(m, "decode_mla"@), o.name@);
        listed_op(arms_of(m, "decode"@), o.name@);
        listed_op(arms_of(m, "prefill"@), o.name@);
        let v = inventory_of(m);
        opcode_is_lines(with_opcodes(t, v, os, n - 1), v, o);
        let x = opcode_lines(
            o.stem@,
            reaches(at1(m, "union"@), o.name@),
            reaches(arms_of(m, "flash"@), o.name@),
            reaches(arms_of(m, "decode_mla"@), o.name@),
            reaches(arms_of(m, "decode"@), o.name@),
            reaches(arms_of(m, "prefill"@), o.name@),
        );
        let r = joined(t, table_lines(m, os, n - 1), x);
        assert(r == table_lines(m, os, n));
    } else {
        nothing_added(t);
    }
}

/// Behind its title and its hash the header holds these lines and nothing else: what the packet
/// asks for, every opcode of the table, the switches, the head sizes and the constants.
pub proof fn the_header_is_these_lines(isa: Isa, m: JsonView)
    ensures
        header_text(isa, m) == preamble(m) + requirement_lines(m) + table_lines(
            m,
            isa.opcodes@,
            isa.opcodes@.len() as int,
        ) + switch_lines(m) + head_lines(m) + constant_lines(m),
{
    let v = inventory_of(m);
    let t0 = preamble(m);
    let t1 = with_requirements(t0, m);
    requirement_section(t0, m);
    let t2 = with_opcodes(t1, v, isa.opcodes@, isa.opcodes@.len() as int);
    table_section(t1, m, isa.opcodes@, isa.opcodes@.len() as int);
    let t3 = with_switches(t2, v, m);
    switch_section(t2, m);
    let t4 = with_heads(t3, v, m);
    head_section(t3, m);
    constant_section(t4, m);
}

} // verus!
