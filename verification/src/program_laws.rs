//! What holds of every program: instructions wait only for earlier ones, and no two collectives
//! share a gate.
use vstd::prelude::*;

use crate::attention::{
    copies_half, copies_input, flash, head_norms, input_norm, input_proj, merge, o_proj, o_proj_of,
    post_attention, project_out, qkv, qkv_cuts, HeadIds, Pending, Qkv,
};
use crate::builder::{Emitted, TmapDecl};
use crate::config::Cfg;
use crate::dense_phase::{head, layer_at, layer_step, program, up_to_layer, LAYER_ROOM};
use crate::emit_config::EmitConfig;
use crate::gate::{dispatched, routes_in_groups};
use crate::gemm::{
    each_encoding_chooses_from_its_own_rungs, is_fp8_rung, priced_only, rungs, tile_op, Field,
    QuantScheme, TileTable,
};
use crate::isa::{
    on1, on2, on3, on_fine, on_fine3, on_none, CuRange, DepView, DevOp, InstView, TENSOR_NONE,
};
use crate::mlp::{
    down_proj, down_proj_of, early_router, experts, gate_proj, glu, layer_end, prefill_router,
    split_glu, Ffn,
};
use crate::phase::{phase_of, Layer, Phase, Request};
use crate::steps::{glu_maps, mapped_fp8, operand_maps, project, quant, Proj};
use crate::tensors::{Tensors, Tn};
use crate::xreduce::{reduce, Reduction};

verus! {

/// Whether an instruction meets the other devices at a gate.
pub open spec fn is_collective(op: DevOp) -> bool {
    op == DevOp::XReduce || op == DevOp::XReduceTwoShot
}

/// The last gate of a collective; its first is its fourth immediate.
pub open spec fn last_gate(i: InstView) -> u32 {
    if i.op == DevOp::XReduceTwoShot { i.args.i4 } else { i.args.i3 }
}

/// Whether every instruction waits for earlier ones only.
pub open spec fn waits_earlier(insts: Seq<InstView>) -> bool {
    forall|i: int, d: int|
        0 <= i < insts.len() && 0 <= d < insts[i].deps.len() ==> (
        #[trigger] insts[i].deps[d]).producer() < i
}

/// Whether no two collectives share a gate: each has its own range of them.
pub open spec fn gates_differ(insts: Seq<InstView>) -> bool {
    forall|i: int, j: int|
        0 <= i < j < insts.len() && is_collective((#[trigger] insts[i]).op) && is_collective(
            (#[trigger] insts[j]).op,
        ) ==> last_gate(insts[i]) < insts[j].args.i3
}

/// Whether the collectives' gates ascend, below the next free gate.
pub open spec fn gates_ascend(s: Emitted) -> bool {
    &&& forall|i: int|
        0 <= i < s.insts.len() && is_collective((#[trigger] s.insts[i]).op) ==> s.insts[i].args.i3
            <= last_gate(s.insts[i]) < s.xgate
    &&& gates_differ(s.insts)
}

/// Whether `op` is one of the ladder's e4m3 opcodes.
pub open spec fn narrow_tile(op: DevOp) -> bool {
    ||| op == DevOp::GemmFp8
    ||| op == DevOp::GemmMedFp8
    ||| op == DevOp::GemmSmallFp8
    ||| op == DevOp::GemmWideFp8
    ||| op == DevOp::GemmC5Fp8
}

/// What the instructions of a program are held to.
pub struct Rules {
    /// Whether the target's tiles are priced: another has some tiles less.
    pub priced: bool,
    /// Whether narrow tiled products have an activation scale.
    pub scaled: bool,
    /// Whether a head may find the largest logit as it goes.
    pub argmax: bool,
    /// Whether some product is one of four-bit weights.
    pub mx: bool,
    /// Whether products read narrow copies of what their input now holds.
    pub fresh: bool,
    /// The norm's output, the experts' input, and the narrow copy that they share.
    pub hn: u32,
    pub xn2: u32,
    pub xqh: u32,
}

/// Whether an instruction writes a tensor: its first operand, or the narrow copy that a norm leaves
/// beside its output.
pub open spec fn writes(w: InstView, x: u32) -> bool {
    w.args.t0 == x || (w.op == DevOp::RmsNorm && w.args.t3 == x)
}

/// Whether an instruction writes the narrow copy of `src`: a norm that has `src` for its output, or
/// a step of its own.
pub open spec fn narrows(w: InstView, src: u32, xq: u32) -> bool {
    ||| w.op == DevOp::RmsNorm && w.args.t0 == src && w.args.t3 == xq
    ||| w.op == DevOp::QuantFp8 && w.args.t0 == xq && w.args.t1 == src
}

/// Whether instruction `j` wrote the narrow copy of what `src` holds behind `insts`: nothing has
/// written either since.
#[verifier::opaque]
pub open spec fn current(insts: Seq<InstView>, j: int, src: u32, xq: u32) -> bool {
    &&& 0 <= j < insts.len()
    &&& narrows(insts[j], src, xq)
    &&& forall|a: int|
        j < a < insts.len() ==> !writes(#[trigger] insts[a], src) && !writes(insts[a], xq)
}

/// Whether an opcode is a product of narrow activations.
pub open spec fn narrow_product(op: DevOp) -> bool {
    narrow_tile(op) || op == DevOp::GemmGluFp8 || op == DevOp::MoeGroupGluGemmaPfW8a8
}

/// Whether an instruction is a product of the shared narrow copy.
pub open spec fn reads_narrow(u: Rules, i: InstView) -> bool {
    narrow_product(i.op) && i.args.t1 == u.xqh
}

/// What the narrow copy that an instruction reads is a copy of.
pub open spec fn narrow_source(u: Rules, i: InstView) -> u32 {
    if i.op == DevOp::MoeGroupGluGemmaPfW8a8 { u.xn2 } else { u.hn }
}

/// Whether an instruction behind `insts` waits for the one that wrote the narrow copy of what its
/// input now holds.
pub open spec fn waits_for_copy(u: Rules, insts: Seq<InstView>, i: InstView) -> bool {
    exists|d: int|
        0 <= d < i.deps.len() && current(
            insts,
            (#[trigger] i.deps[d]).producer() as int,
            narrow_source(u, i),
            u.xqh,
        )
}

/// Whether every product of the shared narrow copy waits for the instruction that wrote it, and
/// that one is no earlier than the last that wrote what it is a copy of.
pub open spec fn copies_are_current(u: Rules, insts: Seq<InstView>) -> bool {
    forall|i: int|
        0 <= i < insts.len() && reads_narrow(u, #[trigger] insts[i]) ==> waits_for_copy(
            u,
            insts.take(i),
            insts[i],
        )
}

/// Whether `op` is a product of four-bit weights.
pub open spec fn mx_product(op: DevOp) -> bool {
    ||| op == DevOp::GemvMxfp4
    ||| op == DevOp::GemmMxfp4
    ||| op == DevOp::GemmMedMxfp4
    ||| op == DevOp::GemmSmallMxfp4
    ||| op == DevOp::GemmWideMxfp4
    ||| op == DevOp::GemmC5Mxfp4
}

/// Whether some instruction is a product of four-bit weights.
pub open spec fn carries_mx(insts: Seq<InstView>) -> bool {
    exists|i: int| 0 <= i < insts.len() && mx_product((#[trigger] insts[i]).op)
}

/// The rules that hold behind a projection.
spec fn seen(u: Rules, p: Phase) -> Rules {
    Rules { mx: u.mx || p.mx, ..u }
}

/// Whether an instruction keeps to the rules. Nothing ever routes within groups of experts, and
/// every opcode has an arm, but for that of a head that finds the largest logit.
pub open spec fn allowed(u: Rules, i: InstView) -> bool {
    &&& u.priced || !priced_only(i.op)
    &&& u.scaled && narrow_tile(i.op) ==> i.args.t3 != TENSOR_NONE
    &&& dispatched(i.op) || (u.argmax && i.op == DevOp::GemvArgmax)
    &&& !routes_in_groups(i)
}

/// Whether all instructions keep to the rules.
pub open spec fn all_allowed(u: Rules, insts: Seq<InstView>) -> bool {
    forall|i: int| 0 <= i < insts.len() ==> allowed(u, #[trigger] insts[i])
}

/// Whether a program's projections with activation scale `ascale` can keep to the rules.
spec fn proj_scaled(u: Rules, p: Phase, ascale: u32) -> bool {
    u.priced == p.priced && (u.scaled && p.fp8 && !p.gemv ==> p.w8a8 && ascale
        != TENSOR_NONE)
}

/// Whether a projection that waits for `after` reads a current copy, if any.
spec fn proj_fresh(u: Rules, s: Emitted, p: Phase, j: Proj, after: u32) -> bool {
    u.fresh ==> p.w8a8 && (j.xq == u.xqh ==> current(s.insts, after as int, u.hn, u.xqh))
}

/// Whether a program can keep to the rules.
pub open spec fn rules_hold(u: Rules, p: Phase, n: Tn) -> bool {
    &&& u.priced == p.priced
    &&& u.scaled && p.fp8 && !p.gemv ==> {
        &&& p.w8a8
        &&& n.ash != TENSOR_NONE
        &&& n.aso != TENSOR_NONE
        &&& n.asi != TENSOR_NONE
    }
    &&& u.fresh ==> {
        &&& p.w8a8 && !p.gemv && !p.decode && !p.fuse_norm
        &&& n.hn == u.hn && n.moe_xn2 == u.xn2 && n.xqh == u.xqh
        &&& n.qg != u.hn && n.kg != u.hn && n.gt != u.hn
        &&& n.qg != u.xqh && n.kg != u.xqh && n.gt != u.xqh
        &&& n.xqo != u.xqh && n.xqi != u.xqh
    }
}

/// All of these at once.
#[verifier::opaque]
pub open spec fn sound(u: Rules, s: Emitted) -> bool {
    &&& waits_earlier(s.insts)
    &&& gates_ascend(s)
    &&& all_allowed(u, s.insts)
    &&& u.mx ==> carries_mx(s.insts)
    &&& u.fresh ==> copies_are_current(u, s.insts)
}

/// Whether a dependency list names instructions below `n` only.
#[verifier::opaque]
pub open spec fn below(deps: Seq<DepView>, n: int) -> bool {
    forall|d: int| 0 <= d < deps.len() ==> (#[trigger] deps[d]).producer() < n
}

/// Whether `b` goes on from `a` by at most `n` instructions and gates.
pub open spec fn grown(a: Emitted, b: Emitted, n: int) -> bool {
    &&& a.insts.len() <= b.insts.len() <= a.insts.len() + n
    &&& a.xgate <= b.xgate <= a.xgate + n
}

/// Whether `n` more instructions and gates can be numbered.
pub open spec fn free(s: Emitted, n: int) -> bool {
    s.insts.len() + n <= u32::MAX && s.xgate + n <= u32::MAX
}

proof fn sound_read(u: Rules, s: Emitted, i: InstView)
    requires
        sound(u, s),
        below(i.deps, s.insts.len() as int),
        !is_collective(i.op),
        allowed(u, i),
        u.fresh && reads_narrow(u, i) ==> waits_for_copy(u, s.insts, i),
    ensures
        sound(u, s.then_inst(i)),
{
    reveal(sound);
    reveal(below);
    let t = s.then_inst(i);
    assert forall|a: int, d: int| 0 <= a < t.insts.len() && 0 <= d < t.insts[a].deps.len() implies (
    #[trigger] t.insts[a].deps[d]).producer() < a by {
        if a < s.insts.len() {
            assert(t.insts[a] == s.insts[a]);
            assert(s.insts[a].deps[d].producer() < a);
        } else {
            assert(i.deps[d].producer() < s.insts.len());
        }
    }
    assert forall|a: int|
        0 <= a < t.insts.len() && is_collective((#[trigger] t.insts[a]).op) implies t.insts[a].args.i3
        <= last_gate(t.insts[a]) < t.xgate by {
        assert(t.insts[a] == s.insts[a]);
    }
    assert forall|a: int, b: int|
        0 <= a < b < t.insts.len() && is_collective((#[trigger] t.insts[a]).op) && is_collective(
            (#[trigger] t.insts[b]).op,
        ) implies last_gate(t.insts[a]) < t.insts[b].args.i3 by {
        assert(t.insts[a] == s.insts[a] && t.insts[b] == s.insts[b]);
    }
    if u.mx {
        let a = choose|a: int| 0 <= a < s.insts.len() && mx_product((#[trigger] s.insts[a]).op);
        assert(mx_product(t.insts[a].op));
    }
    assert forall|a: int| 0 <= a < t.insts.len() && u.fresh && reads_narrow(
        u,
        #[trigger] t.insts[a],
    ) implies waits_for_copy(u, t.insts.take(a), t.insts[a]) by {
        if a < s.insts.len() {
            assert(t.insts[a] == s.insts[a]);
            assert(t.insts.take(a) =~= s.insts.take(a));
        } else {
            assert(t.insts.take(a) =~= s.insts);
        }
    }
}

broadcast proof fn sound_inst(u: Rules, s: Emitted, i: InstView)
    requires
        sound(u, s),
        below(i.deps, s.insts.len() as int),
        !is_collective(i.op),
        allowed(u, i),
        u.fresh ==> !reads_narrow(u, i),
    ensures
        #[trigger] sound(u, s.then_inst(i)),
{
    sound_read(u, s, i);
}

/// An instruction that waits for the one that wrote a current copy.
proof fn waits_on(u: Rules, s: Emitted, i: InstView, d: int)
    requires
        0 <= d < i.deps.len(),
        current(s.insts, i.deps[d].producer() as int, narrow_source(u, i), u.xqh),
    ensures
        waits_for_copy(u, s.insts, i),
{
}

/// A copy is current behind the instruction that wrote it.
broadcast proof fn current_here(s: Emitted, i: InstView, src: u32, xq: u32)
    requires
        narrows(i, src, xq),
    ensures
        #[trigger] current(s.then_inst(i).insts, s.insts.len() as int, src, xq),
{
    reveal(current);
}

/// A copy stays current behind what writes neither.
proof fn current_on(s: Emitted, i: InstView, j: int, src: u32, xq: u32)
    requires
        current(s.insts, j, src, xq),
        !writes(i, src),
        !writes(i, xq),
    ensures
        current(s.then_inst(i).insts, j, src, xq),
{
    reveal(current);
    let t = s.then_inst(i);
    assert forall|a: int| j < a < t.insts.len() implies !writes(#[trigger] t.insts[a], src)
        && !writes(t.insts[a], xq) by {
        if a < s.insts.len() {
            assert(t.insts[a] == s.insts[a]);
        }
    }
}

/// A product of four-bit weights is one from then on.
proof fn sound_mx(u: Rules, s: Emitted, i: InstView)
    requires
        sound(u, s),
        below(i.deps, s.insts.len() as int),
        !is_collective(i.op),
        allowed(u, i),
        mx_product(i.op),
    ensures
        sound(Rules { mx: true, ..u }, s.then_inst(i)),
{
    sound_inst(u, s, i);
    reveal(sound);
    let t = s.then_inst(i);
    assert(mx_product(t.insts[s.insts.len() as int].op));
    assert forall|a: int| 0 <= a < t.insts.len() implies allowed(
        Rules { mx: true, ..u },
        #[trigger] t.insts[a],
    ) by {
        assert(allowed(u, t.insts[a]));
    }
    assert forall|a: int| 0 <= a < t.insts.len() && u.fresh && reads_narrow(
        Rules { mx: true, ..u },
        #[trigger] t.insts[a],
    ) implies waits_for_copy(Rules { mx: true, ..u }, t.insts.take(a), t.insts[a]) by {
        assert(reads_narrow(u, t.insts[a]));
        assert(waits_for_copy(u, t.insts.take(a), t.insts[a]));
        let d = choose|d: int|
            0 <= d < t.insts[a].deps.len() && current(
                t.insts.take(a),
                (#[trigger] t.insts[a].deps[d]).producer() as int,
                narrow_source(u, t.insts[a]),
                u.xqh,
            );
        assert(0 <= d < t.insts[a].deps.len());
    }
}

broadcast proof fn sound_kv_row(u: Rules, s: Emitted, c: u32)
    requires
        sound(u, s),
    ensures
        #[trigger] sound(u, s.with_kv_row(c)),
{
    reveal(sound);
}

broadcast proof fn sound_tmap(u: Rules, s: Emitted, d: TmapDecl)
    requires
        sound(u, s),
    ensures
        #[trigger] sound(u, s.with_tmap(d)),
{
    reveal(sound);
}

broadcast proof fn below_none(n: int)
    ensures
        #[trigger] below(on_none(), n),
{
    reveal(below);
}

broadcast proof fn below_one(a: u32, n: int)
    ensures
        #[trigger] below(on1(a), n) == (a < n),
{
    reveal(below);
    assert(on1(a)[0].producer() == a);
}

broadcast proof fn below_two(a: u32, b: u32, n: int)
    ensures
        #[trigger] below(on2(a, b), n) == (a < n && b < n),
{
    reveal(below);
    let s = on2(a, b);
    assert(s[0].producer() == a && s[1].producer() == b);
}

broadcast proof fn below_three(a: u32, b: u32, c: u32, n: int)
    ensures
        #[trigger] below(on3(a, b, c), n) == (a < n && b < n && c < n),
{
    reveal(below);
    let s = on3(a, b, c);
    assert(s[0].producer() == a && s[1].producer() == b && s[2].producer() == c);
}

broadcast proof fn below_fine(a: u32, m: Seq<Seq<u32>>, n: int)
    ensures
        #[trigger] below(on_fine(a, m), n) == (a < n),
{
    reveal(below);
    assert(on_fine(a, m)[0].producer() == a);
}

broadcast proof fn below_fine_three(
    a: u32,
    ma: Seq<Seq<u32>>,
    b: u32,
    mb: Seq<Seq<u32>>,
    c: u32,
    mc: Seq<Seq<u32>>,
    n: int,
)
    ensures
        #[trigger] below(on_fine3(a, ma, b, mb, c, mc), n) == (a < n && b < n && c < n),
{
    reveal(below);
    let s = on_fine3(a, ma, b, mb, c, mc);
    assert(s[0].producer() == a && s[1].producer() == b && s[2].producer() == c);
}

broadcast group emission_laws {
    sound_inst,
    current_here,
    sound_kv_row,
    sound_tmap,
    below_none,
    below_one,
    below_two,
    below_three,
    below_fine,
    below_fine_three,
}

proof fn tiles_are_no_collectives(priced: bool, tab: TileTable, m: u32, n: u32, k: u32, q: QuantScheme)
    ensures
        !is_collective(tile_op(priced, tab, m, n, k, q)),
        priced || !priced_only(tile_op(priced, tab, m, n, k, q)),
        dispatched(tile_op(priced, tab, m, n, k, q)),
        q != QuantScheme::W8A8 ==> !narrow_product(tile_op(priced, tab, m, n, k, q)),
        q == QuantScheme::W8A8 ==> narrow_tile(tile_op(priced, tab, m, n, k, q)),
        tile_op(priced, tab, m, n, k, q) != DevOp::RmsNorm,
        q == QuantScheme::Mxfp4 ==> mx_product(tile_op(priced, tab, m, n, k, q)),
{
    each_encoding_chooses_from_its_own_rungs(tab, m, n, k, q, Field::AllRungs);
}

proof fn project_is_sound(
    u: Rules,
    s: Emitted,
    p: Phase,
    k: EmitConfig,
    tab: TileTable,
    j: Proj,
    on: CuRange,
    after: u32,
)
    requires
        sound(u, s),
        proj_scaled(u, p, j.ascale),
        proj_fresh(u, s, p, j, after),
        after < s.insts.len(),
        free(s, 1),
    ensures
        ({
            let (t, r) = project(s, p, k, tab, j, on, after);
            &&& sound(u, t)
            &&& sound(seen(u, p), t)
            &&& grown(s, t, 1)
            &&& r < t.insts.len()
            &&& j.out != u.hn && j.out != u.xqh && current(s.insts, after as int, u.hn, u.xqh)
                ==> current(t.insts, after as int, u.hn, u.xqh)
        }),
{
    broadcast use emission_laws;

    tiles_are_no_collectives(p.priced, tab, j.m, j.n, j.k, QuantScheme::W8A8);
    tiles_are_no_collectives(p.priced, tab, j.m, j.n, j.k, QuantScheme::Plain);
    tiles_are_no_collectives(p.priced, tab, j.m, j.n, j.k, QuantScheme::Mxfp4);
    let (t, _r) = project(s, p, k, tab, j, on, after);
    let i = t.insts.last();
    if p.mx {
        assert(t == s.then_inst(i));
        sound_mx(u, s, i);
    }
    assert(t.insts =~= s.insts.push(i));
    assert(i.deps == on1(after) && i.args.t0 == j.out && i.op != DevOp::RmsNorm);
    assert(i.deps[0].producer() == after);
    if j.out != u.hn && j.out != u.xqh && current(s.insts, after as int, u.hn, u.xqh) {
        current_on(s, i, after as int, u.hn, u.xqh);
        assert(s.then_inst(i).insts =~= t.insts);
    }
    if !p.mx && p.fp8 && !p.gemv && u.fresh {
        let op = tile_op(p.priced, tab, j.m, j.n, j.k, QuantScheme::W8A8);
        let s1 = operand_maps(
            s,
            p.tma && p.w8a8 && mapped_fp8(op),
            j.xq,
            j.w8,
            j.m,
            j.n,
            j.k,
            true,
        ).0;
        assert(t == s1.then_inst(i) && s1.insts == s.insts && sound(u, s1));
        if reads_narrow(u, i) {
            waits_on(u, s1, i, 0);
        }
        sound_read(u, s1, i);
    }
}

proof fn quant_is_sound(u: Rules, s: Emitted, p: Phase, xq: u32, a: u32, src: u32, k: u32, after: u32)
    requires
        sound(u, s),
        u.priced == p.priced,
        after < s.insts.len(),
        free(s, 1),
    ensures
        ({
            let (t, r) = quant(s, p, xq, a, src, k, after);
            &&& sound(u, t)
            &&& grown(s, t, 1)
            &&& r < t.insts.len()
            &&& p.w8a8 ==> current(t.insts, r as int, src, xq)
        }),
{
    broadcast use emission_laws;

}

proof fn reduce_is_sound(
    u: Rules,
    s: Emitted,
    k: EmitConfig,
    decode: bool,
    avail: u32,
    dep: u32,
    d: Reduction,
)
    requires
        sound(u, s),
        dep < s.insts.len(),
        free(s, 2),
    ensures
        ({
            let (t, r) = reduce(s, k, decode, avail, on1(dep), d, None);
            sound(u, t) && grown(s, t, 2) && r < t.insts.len()
        }),
{
    reveal(sound);
    let (t, r) = reduce(s, k, decode, avail, on1(dep), d, None);
    let n = s.insts.len() as int;
    assert forall|a: int, b: int| 0 <= a < t.insts.len() && 0 <= b < t.insts[a].deps.len() implies (
    #[trigger] t.insts[a].deps[b]).producer() < a by {
        if a < n {
            assert(t.insts[a] == s.insts[a]);
            assert(s.insts[a].deps[b].producer() < a);
        } else {
            assert(t.insts[a].deps == on1(dep));
        }
    }
    assert forall|a: int|
        0 <= a < t.insts.len() && is_collective((#[trigger] t.insts[a]).op) implies t.insts[a].args.i3
        <= last_gate(t.insts[a]) < t.xgate by {
        if a < n {
            assert(t.insts[a] == s.insts[a]);
        }
    }
    assert forall|a: int, b: int|
        0 <= a < b < t.insts.len() && is_collective((#[trigger] t.insts[a]).op) && is_collective(
            (#[trigger] t.insts[b]).op,
        ) implies last_gate(t.insts[a]) < t.insts[b].args.i3 by {
        assert(t.insts[a] == s.insts[a]);
        if b < n {
            assert(t.insts[b] == s.insts[b]);
        }
    }
    if u.mx {
        let a = choose|a: int| 0 <= a < s.insts.len() && mx_product((#[trigger] s.insts[a]).op);
        assert(mx_product(t.insts[a].op));
    }
    assert forall|a: int| 0 <= a < t.insts.len() && u.fresh && reads_narrow(
        u,
        #[trigger] t.insts[a],
    ) implies waits_for_copy(u, t.insts.take(a), t.insts[a]) by {
        assert(t.insts[a] == s.insts[a]);
        assert(t.insts.take(a) =~= s.insts.take(a));
    }
}

proof fn project_out_is_sound(
    u: Rules,
    s: Emitted,
    p: Phase,
    k: EmitConfig,
    tab: TileTable,
    j: Proj,
    part: u32,
    slot: u32,
    after: u32,
)
    requires
        sound(u, s),
        proj_scaled(u, p, j.ascale),
        u.fresh ==> p.w8a8 && j.xq != u.xqh,
        after < s.insts.len(),
        free(s, 3),
    ensures
        ({
            let (t, r) = project_out(s, p, k, tab, j, part, slot, after);
            sound(seen(u, p), t) && grown(s, t, 3) && r < t.insts.len()
        }),
{
    let all = crate::isa::first_cus(p.n_cu as int);
    let jp = Proj { out: part, ..j };
    project_is_sound(u, s, p, k, tab, jp, all, after);
    project_is_sound(u, s, p, k, tab, j, all, after);
    let (s1, c) = project(s, p, k, tab, jp, all, after);
    reduce_is_sound(
        seen(u, p),
        s1,
        k,
        p.decode,
        p.xr,
        c,
        Reduction { out: j.out, elems: p.th, tp: p.tp, slot },
    );
}

proof fn input_norm_is_sound(u: Rules, s: Emitted, p: Phase, y: Layer, n: Tn, dep: u32)
    requires
        sound(u, s),
        rules_hold(u, p, n),
        (p.block_mode && y.first) || dep < s.insts.len(),
        free(s, 1),
    ensures
        ({
            let (t, r) = input_norm(s, p, y, n, dep);
            &&& sound(u, t)
            &&& grown(s, t, 1)
            &&& r < t.insts.len()
            &&& u.fresh && copies_input(p, y) ==> current(t.insts, r as int, u.hn, u.xqh)
        }),
{
    broadcast use emission_laws;

    reveal(input_norm);
}

proof fn input_proj_is_sound(
    u: Rules,
    s: Emitted,
    p: Phase,
    k: EmitConfig,
    tab: TileTable,
    n: Tn,
    pend: Option<Pending>,
    out: u32,
    w: u32,
    w8: u32,
    scale: u32,
    width: u32,
    on: CuRange,
    store: bool,
    after: u32,
)
    requires
        sound(u, s),
        rules_hold(u, p, n),
        u.fresh ==> current(s.insts, after as int, u.hn, u.xqh),
        after < s.insts.len(),
        free(s, 1),
    ensures
        ({
            let (t, r) = input_proj(
                s,
                p,
                k,
                tab,
                n,
                pend,
                out,
                w,
                w8,
                scale,
                width,
                on,
                store,
                after,
            );
            &&& sound(u, t)
            &&& grown(s, t, 1)
            &&& r < t.insts.len()
            &&& u.fresh && out != u.hn && out != u.xqh ==> current(
                t.insts,
                after as int,
                u.hn,
                u.xqh,
            )
        }),
{
    broadcast use emission_laws;

    if pend is Some {
        let (t, _r) = input_proj(
            s,
            p,
            k,
            tab,
            n,
            pend,
            out,
            w,
            w8,
            scale,
            width,
            on,
            store,
            after,
        );
        let i = t.insts.last();
        if u.fresh && out != u.hn && out != u.xqh {
            current_on(s, i, after as int, u.hn, u.xqh);
        }
    } else {
        project_is_sound(
            u,
            s,
            p,
            k,
            tab,
            Proj {
                out,
                a: n.hn,
                w,
                w8,
                scale,
                xq: n.xqh,
                ascale: n.ash,
                m: p.t,
                n: width,
                k: p.hidden,
            },
            on,
            after,
        );
    }
}

proof fn qkv_is_sound(
    u: Rules,
    s: Emitted,
    p: Phase,
    k: EmitConfig,
    tab: TileTable,
    y: Layer,
    n: Tn,
    pend: Option<Pending>,
    c_n: u32,
)
    requires
        sound(u, s),
        rules_hold(u, p, n),
        u.fresh && copies_input(p, y) ==> current(s.insts, c_n as int, u.hn, u.xqh),
        c_n < s.insts.len(),
        free(s, 4),
    ensures
        ({
            let (t, x) = qkv(s, p, k, tab, y, n, pend, c_n);
            &&& sound(u, t)
            &&& grown(s, t, 4)
            &&& x.c_q < t.insts.len() && x.c_k < t.insts.len() && x.c_v < t.insts.len()
        }),
{
    broadcast use emission_laws;

    reveal(qkv);
    if !(y.fuse_qkv || y.fuse_qkv_fp8) {
        let (x, z, m) = qkv_cuts(p, k, y);
        let cq = CuRange { lo: 0, hi: x as u32 };
        let ck = CuRange { lo: x as u32, hi: z as u32 };
        let cv = CuRange { lo: z as u32, hi: m as u32 };
        quant_is_sound(u, s, p, n.xqh, n.ash, n.hn, p.hidden, c_n);
        let (s0, dq) = if copies_input(p, y) {
            (s, c_n)
        } else {
            quant(s, p, n.xqh, n.ash, n.hn, p.hidden, c_n)
        };
        let w = y.w;
        input_proj_is_sound(u, s0, p, k, tab, n, pend, n.qg, w.wq, w.wq8, w.sq, y.qd, cq, true, dq);
        let s1 = input_proj(s0, p, k, tab, n, pend, n.qg, w.wq, w.wq8, w.sq, y.qd, cq, true, dq).0;
        input_proj_is_sound(u, s1, p, k, tab, n, pend, n.kg, w.wk, w.wk8, w.sk, y.kd, ck, false, dq);
        let s2 = input_proj(s1, p, k, tab, n, pend, n.kg, w.wk, w.wk8, w.sk, y.kd, ck, false, dq).0;
        if !y.keqv {
            input_proj_is_sound(
                u,
                s2,
                p,
                k,
                tab,
                n,
                pend,
                n.vg,
                w.wv,
                w.wv8,
                w.sv,
                y.kd,
                cv,
                false,
                dq,
            );
        }
    }
}

proof fn head_norms_are_sound(u: Rules, s: Emitted, p: Phase, y: Layer, n: Tn, x: Qkv)
    requires
        sound(u, s),
        rules_hold(u, p, n),
        x.c_q < s.insts.len(),
        x.c_k < s.insts.len(),
        x.c_v < s.insts.len(),
        free(s, 3),
    ensures
        ({
            let (t, h) = head_norms(s, p, y, n, x);
            &&& sound(u, t)
            &&& grown(s, t, 3)
            &&& y.fuse_hnr || (h.c_qn < t.insts.len() && h.c_kn < t.insts.len() && h.c_vn
                < t.insts.len())
        }),
{
    broadcast use emission_laws;

    reveal(head_norms);
}

proof fn flash_is_sound(u: Rules, s: Emitted, p: Phase, y: Layer, n: Tn, x: Qkv, h: HeadIds)
    requires
        sound(u, s),
        rules_hold(u, p, n),
        x.c_q < s.insts.len(),
        x.c_k < s.insts.len(),
        x.c_v < s.insts.len(),
        y.fuse_hnr || (h.c_qn < s.insts.len() && h.c_kn < s.insts.len() && h.c_vn < s.insts.len()),
        free(s, 1),
    ensures
        ({
            let (t, r) = flash(s, p, y, n, x, h);
            sound(u, t) && grown(s, t, 1) && r < t.insts.len()
        }),
{
    broadcast use emission_laws;

    reveal(flash);
}

proof fn merge_is_sound(u: Rules, s: Emitted, p: Phase, y: Layer, n: Tn, c: u32)
    requires
        sound(u, s),
        rules_hold(u, p, n),
        c < s.insts.len(),
        free(s, 1),
    ensures
        ({
            let (t, r) = merge(s, p, y, n, c);
            sound(u, t) && grown(s, t, 1) && r < t.insts.len()
        }),
{
    broadcast use emission_laws;

    reveal(merge);
}

proof fn o_proj_is_sound(
    u: Rules,
    s: Emitted,
    p: Phase,
    k: EmitConfig,
    tab: TileTable,
    y: Layer,
    n: Tn,
    c: u32,
)
    requires
        sound(u, s),
        rules_hold(u, p, n),
        c < s.insts.len(),
        free(s, 4),
    ensures
        ({
            let (t, r) = o_proj(s, p, k, tab, y, n, c);
            sound(seen(u, p), t) && grown(s, t, 4) && r < t.insts.len()
        }),
{
    reveal(o_proj);
    quant_is_sound(u, s, p, n.xqo, n.aso, n.at, y.qd, c);
    let (s1, d) = quant(s, p, n.xqo, n.aso, n.at, y.qd, c);
    project_out_is_sound(u, s1, p, k, tab, o_proj_of(p, y, n), n.og_tp, 0, d);
}

proof fn post_attention_is_sound(u: Rules, s: Emitted, p: Phase, y: Layer, n: Tn, c: u32)
    requires
        sound(u, s),
        rules_hold(u, p, n),
        c < s.insts.len(),
        free(s, 2),
    ensures
        ({
            let (t, r) = post_attention(s, p, y, n, c);
            &&& sound(u, t)
            &&& grown(s, t, 2)
            &&& r < t.insts.len()
            &&& u.fresh && copies_half(p) ==> current(t.insts, r as int, u.hn, u.xqh)
        }),
{
    broadcast use emission_laws;

    reveal(post_attention);
}

proof fn early_router_is_sound(u: Rules, s: Emitted, p: Phase, k: EmitConfig, y: Layer, n: Tn, c: u32)
    requires
        sound(u, s),
        rules_hold(u, p, n),
        c < s.insts.len(),
        free(s, 2),
    ensures
        ({
            let (t, r) = early_router(s, p, k, y, n, c);
            &&& sound(u, t)
            &&& grown(s, t, 2)
            &&& p.moe && p.decode ==> r < t.insts.len()
            &&& !p.decode ==> t == s
        }),
{
    broadcast use emission_laws;

    reveal(early_router);
}

proof fn split_glu_is_sound(
    u: Rules,
    s: Emitted,
    p: Phase,
    k: EmitConfig,
    tab: TileTable,
    y: Layer,
    n: Tn,
    d: u32,
)
    requires
        sound(u, s),
        rules_hold(u, p, n),
        u.fresh ==> current(s.insts, d as int, u.hn, u.xqh),
        d < s.insts.len(),
        free(s, 3),
    ensures
        ({
            let (t, r) = split_glu(s, p, k, tab, y, n, d);
            sound(u, t) && grown(s, t, 3) && r < t.insts.len()
        }),
{
    let x = crate::mlp::glu_cut(p) as u32;
    let jg = gate_proj(p, n, n.gt, y.w.wg, y.w.wg8, y.w.sg);
    let ju = gate_proj(p, n, n.ut, y.w.wu, y.w.wu8, y.w.su);
    let cg = CuRange { lo: 0, hi: x };
    project_is_sound(u, s, p, k, tab, jg, cg, d);
    let (s1, c_g) = project(s, p, k, tab, jg, cg, d);
    project_is_sound(u, s1, p, k, tab, ju, CuRange { lo: x, hi: p.n_cu }, d);
    let (s2, c_u) = project(s1, p, k, tab, ju, CuRange { lo: x, hi: p.n_cu }, d);
    let (t, _r) = split_glu(s, p, k, tab, y, n, d);
    let i = t.insts.last();
    assert(t == s2.then_inst(i) && i.deps == on2(c_g, c_u) && !is_collective(i.op) && allowed(
        u,
        i,
    ));
    below_two(c_g, c_u, s2.insts.len() as int);
    sound_inst(u, s2, i);
}

proof fn glu_is_sound(
    u: Rules,
    s: Emitted,
    p: Phase,
    k: EmitConfig,
    tab: TileTable,
    y: Layer,
    n: Tn,
    c: u32,
)
    requires
        sound(u, s),
        rules_hold(u, p, n),
        u.fresh && copies_half(p) ==> current(s.insts, c as int, u.hn, u.xqh),
        c < s.insts.len(),
        free(s, 4),
    ensures
        ({
            let (t, r) = glu(s, p, k, tab, y, n, c);
            sound(u, t) && grown(s, t, 4) && r < t.insts.len()
        }),
{
    quant_is_sound(u, s, p, n.xqh, n.ash, n.hn, p.hidden, c);
    let (s1, d) = if copies_half(p) {
        (s, c)
    } else {
        quant(s, p, n.xqh, n.ash, n.hn, p.hidden, c)
    };
    if !p.stages && !p.gemm_glu {
        split_glu_is_sound(u, s1, p, k, tab, y, n, d);
        assert(glu(s, p, k, tab, y, n, c) == split_glu(s1, p, k, tab, y, n, d)) by {
            reveal(glu);
        }
    } else if p.gemm_glu && !p.stages && p.fp8 {
        gemm_glu_fp8_is_sound(u, s1, p, y, n, d);
        assert(glu(s, p, k, tab, y, n, c) == crate::mlp::gemm_glu_fp8(s1, p, y, n, d)) by {
            reveal(glu);
        }
    } else {
        broadcast use emission_laws;

        reveal(glu);
    }
}

proof fn gemm_glu_fp8_is_sound(u: Rules, s: Emitted, p: Phase, y: Layer, n: Tn, d: u32)
    requires
        sound(u, s),
        rules_hold(u, p, n),
        u.fresh ==> current(s.insts, d as int, u.hn, u.xqh),
        d < s.insts.len(),
        free(s, 1),
    ensures
        ({
            let (t, r) = crate::mlp::gemm_glu_fp8(s, p, y, n, d);
            sound(u, t) && grown(s, t, 1) && r < t.insts.len()
        }),
{
    broadcast use emission_laws;

    let (t, _r) = crate::mlp::gemm_glu_fp8(s, p, y, n, d);
    let i = t.insts.last();
    let s1 = glu_maps(
        s,
        p.tma && p.w8a8,
        n.xqh,
        y.w.wg8,
        y.w.wu8,
        p.t,
        p.inter,
        p.hidden,
        true,
    ).0;
    assert(t == s1.then_inst(i) && s1.insts == s.insts && sound(u, s1));
    assert(i.deps == on1(d));
    assert(i.deps[0].producer() == d);
    if u.fresh {
        waits_on(u, s1, i, 0);
    }
    sound_read(u, s1, i);
}

proof fn down_proj_is_sound(
    u: Rules,
    s: Emitted,
    p: Phase,
    k: EmitConfig,
    tab: TileTable,
    y: Layer,
    n: Tn,
    c: u32,
)
    requires
        sound(u, s),
        rules_hold(u, p, n),
        c < s.insts.len(),
        free(s, 4),
    ensures
        ({
            let (t, r) = down_proj(s, p, k, tab, y, n, c);
            sound(seen(u, p), t) && grown(s, t, 4) && r < t.insts.len()
        }),
{
    reveal(down_proj);
    quant_is_sound(u, s, p, n.xqi, n.asi, n.fu, p.inter, c);
    let (s1, d) = if p.qnorm_fuse && !p.stages && !p.gemm_glu {
        (s, c)
    } else {
        quant(s, p, n.xqi, n.asi, n.fu, p.inter, c)
    };
    project_out_is_sound(u, s1, p, k, tab, down_proj_of(p, y, n), n.dg_tp, p.slot_b, d);
}

proof fn experts_are_sound(
    u: Rules,
    s: Emitted,
    p: Phase,
    k: EmitConfig,
    y: Layer,
    n: Tn,
    c_pf: u32,
    c_rt: u32,
    c_d: u32,
)
    requires
        sound(u, s),
        rules_hold(u, p, n),
        c_pf < s.insts.len(),
        c_d < s.insts.len(),
        p.moe && p.decode ==> c_rt < s.insts.len(),
        free(s, 9),
    ensures
        ({
            let (t, f) = experts(s, p, k, y, n, c_pf, c_rt, c_d);
            sound(u, t) && grown(s, t, 9) && f.c < t.insts.len()
        }),
{
    broadcast use emission_laws;

    reveal(experts);
    if p.moe && !p.decode {
        let s1 = s.then_inst(crate::mlp::plain_norm(p, n.moe_h1, n.dg, y.w.g_pf1, c_d));
        let s2 = s1.then_inst(crate::mlp::plain_norm(p, n.moe_xn2, n.x, y.w.g_pre2, c_pf));
        let (s3, c_align) = prefill_router(s2, p, y, n, c_pf);
        assert(sound(u, s3) && grown(s, s3, 4) && c_align < s3.insts.len());
        quant_is_sound(u, s3, p, n.xqh, n.ash, n.moe_xn2, p.hidden, s1.next());
        if p.w8a8 {
            let (s4, c_q) = quant(s3, p, n.xqh, n.ash, n.moe_xn2, p.hidden, s1.next());
            let s5 = crate::mlp::prefill_products_narrow(s3, p, y, n, c_align, s1.next()).0;
            let i = s5.insts[s4.insts.len() as int];
            assert(i.op == DevOp::MoeGroupGluGemmaPfW8a8 && i.deps == on2(c_align, c_q));
            assert(i.deps[1].producer() == c_q);
            if u.fresh {
                waits_on(u, s4, i, 1);
            }
            sound_read(u, s4, i);
        }
    }
}

proof fn layer_end_is_sound(u: Rules, s: Emitted, p: Phase, y: Layer, n: Tn, f: Ffn, pend: Option<Pending>)
    requires
        sound(u, s),
        rules_hold(u, p, n),
        f.c < s.insts.len(),
        free(s, 1),
    ensures
        ({
            let (t, r, _q) = layer_end(s, p, y, n, f, pend);
            sound(u, t) && grown(s, t, 1) && r < t.insts.len()
        }),
{
    broadcast use emission_laws;

    reveal(layer_end);
}

proof fn layer_is_sound(
    u: Rules,
    s: Emitted,
    p: Phase,
    k: EmitConfig,
    tab: TileTable,
    y: Layer,
    n: Tn,
    dep: u32,
    pend: Option<Pending>,
)
    requires
        sound(u, s),
        rules_hold(u, p, n),
        (p.block_mode && y.first) || dep < s.insts.len(),
        free(s, LAYER_ROOM as int),
    ensures
        ({
            let (t, r, _q) = layer_step(s, p, k, tab, y, n, dep, pend);
            sound(seen(u, p), t) && grown(s, t, LAYER_ROOM as int) && r < t.insts.len()
        }),
{
    reveal(layer_step);
    input_norm_is_sound(u, s, p, y, n, dep);
    let (s1, c_n) = input_norm(s, p, y, n, dep);
    qkv_is_sound(u, s1, p, k, tab, y, n, pend, c_n);
    let (s2, x) = qkv(s1, p, k, tab, y, n, pend, c_n);
    let pend1 = if y.fuse_qkv || y.fuse_qkv_fp8 { pend } else { None };
    head_norms_are_sound(u, s2, p, y, n, x);
    let (s3, h) = head_norms(s2, p, y, n, x);
    flash_is_sound(u, s3, p, y, n, x, h);
    let (s4, c_fa) = flash(s3, p, y, n, x, h);
    merge_is_sound(u, s4, p, y, n, c_fa);
    let (s5, c_at) = merge(s4, p, y, n, c_fa);
    o_proj_is_sound(u, s5, p, k, tab, y, n, c_at);
    let (s6, c_o) = o_proj(s5, p, k, tab, y, n, c_at);
    let v = seen(u, p);
    post_attention_is_sound(v, s6, p, y, n, c_o);
    let (s7, c_pf) = post_attention(s6, p, y, n, c_o);
    early_router_is_sound(v, s7, p, k, y, n, c_pf);
    let (s8, c_rt) = early_router(s7, p, k, y, n, c_pf);
    glu_is_sound(v, s8, p, k, tab, y, n, c_pf);
    let (s9, c_gl) = glu(s8, p, k, tab, y, n, c_pf);
    down_proj_is_sound(v, s9, p, k, tab, y, n, c_gl);
    let (s10, c_d) = down_proj(s9, p, k, tab, y, n, c_gl);
    experts_are_sound(v, s10, p, k, y, n, c_pf, c_rt, c_d);
    let (s11, f) = experts(s10, p, k, y, n, c_pf, c_rt, c_d);
    layer_end_is_sound(v, s11, p, y, n, f, pend1);
}

/// The layers of a program keep it sound, and take no more than their room.
pub proof fn layers_are_sound(
    u: Rules,
    s: Emitted,
    k: EmitConfig,
    c: Cfg,
    tab: TileTable,
    q: Request,
    tn: Tensors,
    ls: Seq<u32>,
    l: int,
)
    requires
        sound(u, s),
        !u.mx,
        rules_hold(u, phase_of(k, c, tab, tn.shared.xr, q), tn.shared),
        q.first <= l <= q.end,
        free(s, LAYER_ROOM * (l - q.first) + 1),
    ensures
        ({
            let (t, r, _q) = up_to_layer(s, k, c, tab, q, tn, ls, l);
            &&& sound(Rules { mx: q.mxfp4 && l > q.first, ..u }, t)
            &&& grown(s, t, LAYER_ROOM * (l - q.first) + 1)
            &&& (q.block_mode && l == q.first) || r < t.insts.len()
        }),
    decreases l - q.first,
{
    broadcast use emission_laws;

    let p = phase_of(k, c, tab, tn.shared.xr, q);
    assert(p.block_mode == q.block_mode && p.priced == q.priced && p.mx == q.mxfp4) by {
        reveal(phase_of);
    }
    if l > q.first {
        layers_are_sound(u, s, k, c, tab, q, tn, ls, l - 1);
        let (s1, dep, pend) = up_to_layer(s, k, c, tab, q, tn, ls, l - 1);
        let y = layer_at(k, c, tab, q, tn, ls, l - 1);
        assert(y.first == (l - 1 == q.first)) by {
            reveal(crate::phase::layer_of);
        }
        layer_is_sound(Rules { mx: q.mxfp4 && l - 1 > q.first, ..u }, s1, p, k, tab, y, tn.shared, dep, pend);
    }
}

/// The ladder's e4m3 opcodes are the narrow tiles.
pub proof fn narrow_tiles_are_the_narrow_rungs(op: DevOp)
    ensures
        is_fp8_rung(op) == narrow_tile(op),
{
    let r = rungs();
    assert(r[0].fp8 == DevOp::GemmFp8);
    assert(r[1].fp8 == DevOp::GemmMedFp8);
    assert(r[2].fp8 == DevOp::GemmSmallFp8);
    assert(r[3].fp8 == DevOp::GemmWideFp8);
    assert(r[4].fp8 == DevOp::GemmC5Fp8);
}

/// The instructions of every program wait for earlier instructions only, and the gates of its
/// collectives ascend, so that no two share one. Every instruction keeps to the rules that the
/// program can keep to, and a program of four-bit weights has products of them.
pub proof fn programs_are_sound(
    u: Rules,
    s: Emitted,
    k: EmitConfig,
    c: Cfg,
    tab: TileTable,
    q: Request,
    tn: Tensors,
    ls: Seq<u32>,
)
    requires
        s.insts == Seq::<InstView>::empty(),
        q.first <= q.end,
        free(s, LAYER_ROOM * (q.end - q.first) + 8),
        rules_hold(u, phase_of(k, c, tab, tn.shared.xr, q), tn.shared),
        k.fuse_argmax ==> u.argmax,
        !u.mx,
    ensures
        waits_earlier(program(s, k, c, tab, q, tn, ls).insts),
        gates_ascend(program(s, k, c, tab, q, tn, ls)),
        all_allowed(u, program(s, k, c, tab, q, tn, ls).insts),
        u.fresh ==> copies_are_current(u, program(s, k, c, tab, q, tn, ls).insts),
        q.mxfp4 && q.first < q.end ==> carries_mx(program(s, k, c, tab, q, tn, ls).insts),
{
    broadcast use emission_laws;

    assert(sound(u, s)) by {
        reveal(sound);
    }
    let p = phase_of(k, c, tab, tn.shared.xr, q);
    assert(p.block_mode == q.block_mode && p.priced == q.priced) by {
        reveal(phase_of);
    }
    layers_are_sound(u, s, k, c, tab, q, tn, ls, q.end as int);
    let v = Rules { mx: q.mxfp4 && q.end > q.first, ..u };
    let (s1, dep, _pend) = up_to_layer(s, k, c, tab, q, tn, ls, q.end as int);
    if !p.block_mode {
        head_is_sound(v, s1, k, c, tab, p, tn.shared, dep);
    }
    assert(sound(v, program(s, k, c, tab, q, tn, ls)));
    reveal(sound);
    let insts = program(s, k, c, tab, q, tn, ls).insts;
    assert forall|i: int| 0 <= i < insts.len() implies allowed(u, #[trigger] insts[i]) by {
        assert(allowed(v, insts[i]));
    }
}

proof fn head_is_sound(
    u: Rules,
    s: Emitted,
    k: EmitConfig,
    c: Cfg,
    tab: TileTable,
    p: Phase,
    n: Tn,
    dep: u32,
)
    requires
        sound(u, s),
        rules_hold(u, p, n),
        k.fuse_argmax ==> u.argmax,
        dep < s.insts.len(),
        free(s, 7),
    ensures
        sound(u, head(s, k, c, tab, p, n, dep)),
{
    broadcast use emission_laws;

    reveal(head);
    tiles_are_no_collectives(p.priced, tab, 1, c.vocab, c.hidden, QuantScheme::Plain);
}

} // verus!
