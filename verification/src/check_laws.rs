//! What models are refused, routed and told.
use vstd::prelude::*;

use crate::fusion::{decided, WholeGraphFusionDecisions};
use crate::gate::{
    amd_target_of, dispatched, lacks_scale, rope_fault, routes_in_groups, RopeError, MLA_LATENT,
    MOE_MAX_TOPK,
};
use crate::isa::{DevOp, InstView, TENSOR_NONE};
use crate::ladder::{is_space, numbers, pieces, trimmed};
use crate::route::{route_of, type_of, Route};
use crate::text::begins;

verus! {

/// The gfx950 interpreter has an arm for every opcode but four, and for none that has no name here.
pub proof fn four_opcodes_have_no_arm(op: DevOp)
    ensures
        dispatched(op) <==> !(op == DevOp::Nop || op == DevOp::GemvArgmax || op
            == DevOp::KdaDecodeFused || op == DevOp::XAllToAllHeads || op is Other),
{
}

/// An instruction routes within groups where it chooses experts and keeps fewer groups than it has,
/// of several; it lacks a scale where it is a tiled product of e4m3 weights without one.
pub proof fn what_an_instruction_is_refused_for(i: InstView)
    ensures
        routes_in_groups(i) <==> (i.op == DevOp::MoeRouterTopk || i.op == DevOp::MoeRouterTopkPf)
            && i.args.i6 > 1 && i.args.i6 > i.args.i7,
        lacks_scale(i) <==> i.args.t3 == TENSOR_NONE && (i.op == DevOp::GemmFp8 || i.op
            == DevOp::GemmMedFp8 || i.op == DevOp::GemmSmallFp8 || i.op == DevOp::GemmWideFp8
            || i.op == DevOp::GemmC5Fp8),
        MOE_MAX_TOPK == 16 && MLA_LATENT == 512,
{
    crate::program_laws::narrow_tiles_are_the_narrow_rungs(i.op);
}

/// A target is AMD where either sign says so, and no other.
pub proof fn either_sign_makes_a_target_amd(arch: Seq<char>, gpu_is_amd: bool)
    ensures
        amd_target_of(arch, gpu_is_amd) <==> gpu_is_amd || (arch.len() >= 3 && arch[0] == 'g'
            && arch[1] == 'f' && arch[2] == 'x'),
{
    reveal_strlit("gfx");
    if begins(arch, "gfx"@) {
        assert(arch.take(3)[0] == arch[0] && arch.take(3)[1] == arch[1] && arch.take(3)[2]
            == arch[2]);
    }
    if arch.len() >= 3 && arch[0] == 'g' && arch[1] == 'f' && arch[2] == 'x' {
        assert(arch.take(3) =~= "gfx"@);
    }
}

/// A rotation is accepted exactly where it has a base that is a finite number above one, positions,
/// and no scaling. What it is refused for is the first of these that fails: a base with no positions
/// contradicts itself, and of two missing, the positions are named.
pub proof fn rotations_are_refused_for_what_is_wrong(
    theta: Option<u64>,
    use_nope: bool,
    rope_type: Option<Seq<char>>,
    scaled: bool,
)
    ensures
        ({
            let f = rope_fault(theta, use_nope, rope_type, scaled);
            let usable = theta matches Some(t) && 0x3ff0_0000_0000_0000 < t
                < 0x7ff0_0000_0000_0000;
            let plain = !scaled && (rope_type is None || rope_type == Some("default"@));
            &&& f is None <==> usable && plain && !use_nope
            &&& f == Some(RopeError::NoPositions) <==> theta is None && use_nope
            &&& f == Some(RopeError::NoTheta) <==> theta is None && !use_nope
            &&& f == Some(RopeError::Contradiction) <==> theta is Some && use_nope
            &&& f == Some(RopeError::UnusableTheta) <==> theta is Some && !use_nope && !usable
            &&& f == Some(RopeError::Scaled) <==> usable && !use_nope && !plain
        }),
{
}

/// The nine model types that have an emitter of their own.
pub open spec fn is_named_type(m: Seq<char>) -> bool {
    ||| m == "kimi_k3"@ || m == "glm_moe_dsa"@ || m == "kimi_k2"@ || m == "kimi"@
    ||| m == "deepseek_v3"@ || m == "deepseek_v2"@
    ||| m == "nemotron_h"@ || m == "nemotron3"@ || m == "nemotron"@
}

proof fn types_differ()
    ensures
        "kimi_k3"@ != "glm_moe_dsa"@,
        "kimi_k3"@ != "kimi_k2"@,
        "kimi_k3"@ != "kimi"@,
        "kimi_k3"@ != "deepseek_v3"@,
        "kimi_k3"@ != "deepseek_v2"@,
        "kimi_k3"@ != "nemotron_h"@,
        "kimi_k3"@ != "nemotron3"@,
        "kimi_k3"@ != "nemotron"@,
        "glm_moe_dsa"@ != "kimi_k2"@,
        "glm_moe_dsa"@ != "kimi"@,
        "glm_moe_dsa"@ != "deepseek_v3"@,
        "glm_moe_dsa"@ != "deepseek_v2"@,
        "glm_moe_dsa"@ != "nemotron_h"@,
        "glm_moe_dsa"@ != "nemotron3"@,
        "glm_moe_dsa"@ != "nemotron"@,
        "kimi_k2"@ != "deepseek_v3"@,
        "kimi_k2"@ != "deepseek_v2"@,
        "kimi_k2"@ != "nemotron_h"@,
        "kimi_k2"@ != "nemotron3"@,
        "kimi_k2"@ != "nemotron"@,
        "kimi"@ != "deepseek_v3"@,
        "kimi"@ != "deepseek_v2"@,
        "kimi"@ != "nemotron_h"@,
        "kimi"@ != "nemotron3"@,
        "kimi"@ != "nemotron"@,
        "deepseek_v3"@ != "nemotron_h"@,
        "deepseek_v3"@ != "nemotron3"@,
        "deepseek_v3"@ != "nemotron"@,
        "deepseek_v2"@ != "nemotron_h"@,
        "deepseek_v2"@ != "nemotron3"@,
        "deepseek_v2"@ != "nemotron"@,
{
    reveal_strlit("kimi_k3");
    reveal_strlit("glm_moe_dsa");
    reveal_strlit("kimi_k2");
    reveal_strlit("kimi");
    reveal_strlit("deepseek_v3");
    reveal_strlit("deepseek_v2");
    reveal_strlit("nemotron_h");
    reveal_strlit("nemotron3");
    reveal_strlit("nemotron");
    assert("kimi_k3"@.len() == 7 && "kimi_k2"@.len() == 7 && "kimi"@.len() == 4);
    assert("glm_moe_dsa"@.len() == 11 && "deepseek_v3"@.len() == 11 && "deepseek_v2"@.len() == 11);
    assert("nemotron_h"@.len() == 10 && "nemotron3"@.len() == 9 && "nemotron"@.len() == 8);
    assert("kimi_k3"@[6] != "kimi_k2"@[6]);
    assert("glm_moe_dsa"@[0] == 'g' && "deepseek_v3"@[0] == 'd' && "deepseek_v2"@[0] == 'd');
}

/// Every model goes to the emitter of its type: a K3 to the full one where it is told to, a GLM by
/// whether layers were named; Kimi, DeepSeek and Nemotron only where layers were, and nowhere else;
/// any other model, and one without a type, to the dense emitter.
pub proof fn models_go_to_the_emitter_of_their_type(m: Seq<char>, block: bool, k3_full: bool)
    ensures
        m == "kimi_k3"@ ==> route_of(m, block, k3_full) == Some(
            if k3_full { Route::KimiK3Full } else { Route::KimiK3 },
        ),
        m == "glm_moe_dsa"@ ==> route_of(m, block, k3_full) == Some(
            if block { Route::GlmBlock } else { Route::GlmFull },
        ),
        m == "kimi_k2"@ || m == "kimi"@ ==> route_of(m, true, k3_full) == Some(Route::KimiBlock),
        m == "deepseek_v3"@ || m == "deepseek_v2"@ ==> route_of(m, true, k3_full) == Some(
            Route::DeepSeekBlock,
        ),
        m == "nemotron_h"@ || m == "nemotron3"@ || m == "nemotron"@ ==> route_of(m, true, k3_full)
            == Some(Route::NemotronBlock),
        route_of(m, block, k3_full) is None <==> !block && is_named_type(m) && m != "kimi_k3"@ && m
            != "glm_moe_dsa"@,
        route_of(m, block, k3_full) == Some(Route::Dense) <==> !is_named_type(m),
        type_of(Some(m)) == m && type_of(None) == ""@,
{
    types_differ();
}

/// A pair of products runs as one where a qualified decision of its widths and depth occurs, the
/// second width counted over all devices.
pub proof fn pairs_are_decided_by_their_widths(
    w: WholeGraphFusionDecisions,
    n0: u32,
    n1_local: u32,
    k: u32,
)
    requires
        n1_local * w.tp <= u32::MAX,
    ensures
        decided(w, n0, n1_local, k) <==> exists|i: int|
            0 <= i < w.parallel_linear2@.len() && ({
                let d = #[trigger] w.parallel_linear2@[i];
                d.qualified && d.instances > 0 && d.n0 == n0 && d.k == k && d.n1 == n1_local * w.tp
            }),
{
    if decided(w, n0, n1_local, k) {
        let i = choose|i: int|
            0 <= i < w.parallel_linear2@.len() && crate::fusion::covers(
                #[trigger] w.parallel_linear2@[i],
                w.tp,
                n0,
                n1_local,
                k,
            );
        assert(w.parallel_linear2@[i].qualified);
    }
    if exists|i: int|
        0 <= i < w.parallel_linear2@.len() && ({
            let d = #[trigger] w.parallel_linear2@[i];
            d.qualified && d.instances > 0 && d.n0 == n0 && d.k == k && d.n1 == n1_local * w.tp
        }) {
        let i = choose|i: int|
            0 <= i < w.parallel_linear2@.len() && ({
                let d = #[trigger] w.parallel_linear2@[i];
                d.qualified && d.instances > 0 && d.n0 == n0 && d.k == k && d.n1 == n1_local * w.tp
            });
        assert(crate::fusion::covers(w.parallel_linear2@[i], w.tp, n0, n1_local, k));
    }
}

/// A text with a character between every two of its pieces.
pub open spec fn joined_by(c: char, p: Seq<Seq<char>>) -> Seq<char>
    decreases p.len(),
{
    if p.len() == 0 {
        Seq::empty()
    } else if p.len() == 1 {
        p[0]
    } else {
        joined_by(c, p.drop_last()).push(c) + p.last()
    }
}

/// The pieces of a text are what stands between its commas: none holds one, and joined by commas
/// they are the text again.
pub proof fn pieces_are_between_the_commas(s: Seq<char>)
    ensures
        pieces(s).len() >= 1,
        joined_by(',', pieces(s)) == s,
        forall|i: int| 0 <= i < pieces(s).len() ==> !(#[trigger] pieces(s)[i]).contains(','),
    decreases s.len(),
{
    if s.len() == 0 {
        assert(joined_by(',', pieces(s)) =~= s);
    } else {
        let t = s.drop_last();
        let p = pieces(t);
        pieces_are_between_the_commas(t);
        let q = pieces(s);
        assert(s =~= t.push(s.last()));
        if s.last() == ',' {
            assert(q.drop_last() =~= p);
            assert(joined_by(',', q) =~= s);
        } else {
            let last = p.last().push(s.last());
            assert(q.drop_last() =~= p.drop_last());
            assert(q.last() == last);
            assert(!p.last().contains(','));
            assert(!last.contains(',')) by {
                if last.contains(',') {
                    let k = choose|k: int| 0 <= k < last.len() && last[k] == ',';
                    if k < p.last().len() {
                        assert(p.last()[k] == ',');
                    }
                }
            }
            assert forall|i: int| 0 <= i < q.len() implies !(#[trigger] q[i]).contains(',') by {
                if i < q.len() - 1 {
                    assert(q[i] == p[i]);
                }
            }
            if p.len() == 1 {
                assert(q.len() == 1 && q[0] =~= s);
            } else {
                assert(joined_by(',', q) =~= joined_by(',', p).push(s.last()));
            }
        }
    }
}

/// Whether `t` is `s` from `a` to `b`, and all around it is white space.
pub open spec fn is_inside(s: Seq<char>, t: Seq<char>, a: int, b: int) -> bool {
    &&& 0 <= a <= b <= s.len()
    &&& t == s.subrange(a, b)
    &&& forall|i: int| 0 <= i < a || b <= i < s.len() ==> is_space(#[trigger] s[i])
}

proof fn inside_more(s: Seq<char>, t: Seq<char>, front: bool)
    requires
        s.len() > 0,
        front ==> is_space(s[0]) && exists|a: int, b: int|
            is_inside(s.subrange(1, s.len() as int), t, a, b),
        !front ==> is_space(s.last()) && exists|a: int, b: int| is_inside(s.drop_last(), t, a, b),
    ensures
        exists|a: int, b: int| is_inside(s, t, a, b),
{
    if front {
        let u = s.subrange(1, s.len() as int);
        let (a, b) = choose|a: int, b: int| is_inside(u, t, a, b);
        assert(u.subrange(a, b) =~= s.subrange(a + 1, b + 1));
        assert forall|i: int| 0 <= i < a + 1 || b + 1 <= i < s.len() implies is_space(
            #[trigger] s[i],
        ) by {
            if i > 0 {
                assert(u[i - 1] == s[i]);
            }
        }
        assert(is_inside(s, t, a + 1, b + 1));
    } else {
        let u = s.drop_last();
        let (a, b) = choose|a: int, b: int| is_inside(u, t, a, b);
        assert(u.subrange(a, b) =~= s.subrange(a, b));
        assert forall|i: int| 0 <= i < a || b <= i < s.len() implies is_space(#[trigger] s[i]) by {
            if i < u.len() {
                assert(u[i] == s[i]);
            }
        }
        assert(is_inside(s, t, a, b));
    }
}

/// A trimmed text has no white space at its ends, and is the text but for white space around it.
pub proof fn trimming_takes_only_white_space(s: Seq<char>)
    ensures
        trimmed(s).len() > 0 ==> !is_space(trimmed(s)[0]) && !is_space(trimmed(s).last()),
        exists|a: int, b: int| is_inside(s, trimmed(s), a, b),
    decreases s.len(),
{
    if s.len() == 0 {
        assert(s.subrange(0, 0) =~= s);
        assert(is_inside(s, s, 0, 0));
    } else if is_space(s[0]) {
        trimming_takes_only_white_space(s.subrange(1, s.len() as int));
        inside_more(s, trimmed(s), true);
    } else if is_space(s.last()) {
        trimming_takes_only_white_space(s.drop_last());
        inside_more(s, trimmed(s), false);
    } else {
        assert(s.subrange(0, s.len() as int) =~= s);
        assert(is_inside(s, s, 0, s.len() as int));
    }
}

/// White space is the twenty-five characters that are called so.
pub proof fn white_space_is_these_characters(c: char)
    ensures
        is_space(c) <==> {
            ||| c == '\t' || c == '\n' || c == '\r' || c == ' '
            ||| c as int == 0xb || c as int == 0xc || c as int == 0x85 || c as int == 0xa0
            ||| c as int == 0x1680 || (0x2000 <= c as int && c as int <= 0x200a)
            ||| c as int == 0x2028 || c as int == 0x2029 || c as int == 0x202f
            ||| c as int == 0x205f || c as int == 0x3000
        },
{
}

/// A list names exactly the numbers that its pieces are.
pub proof fn lists_name_the_numbers_of_their_pieces(p: Seq<Seq<char>>, x: u32)
    ensures
        numbers(p).contains(x) <==> exists|i: int|
            0 <= i < p.len() && crate::args::number(trimmed(#[trigger] p[i])) == Some(x),
    decreases p.len(),
{
    if p.len() > 0 {
        let q = p.drop_last();
        lists_name_the_numbers_of_their_pieces(q, x);
        let before = numbers(q);
        let all = numbers(p);
        if before.contains(x) {
            let k = choose|k: int| 0 <= k < before.len() && before[k] == x;
            assert(all[k] == x);
            let i = choose|i: int|
                0 <= i < q.len() && crate::args::number(trimmed(#[trigger] q[i])) == Some(x);
            assert(p[i] == q[i]);
        }
        if all.contains(x) && !before.contains(x) {
            let k = choose|k: int| 0 <= k < all.len() && all[k] == x;
            if k < before.len() {
                assert(before[k] == x);
            }
            assert(crate::args::number(trimmed(p[p.len() - 1])) == Some(x));
        }
        if exists|i: int|
            0 <= i < p.len() && crate::args::number(trimmed(#[trigger] p[i])) == Some(x) {
            let i = choose|i: int|
                0 <= i < p.len() && crate::args::number(trimmed(#[trigger] p[i])) == Some(x);
            if i < q.len() {
                assert(q[i] == p[i]);
            } else {
                assert(all.last() == x);
                assert(all[all.len() - 1] == x);
            }
        }
    }
}

} // verus!
