//! What the context does to a model's tensors, and which of their handles differ.
use vstd::prelude::*;

use crate::config::Cfg;
use crate::declare::{
    a_handle_names_its_tensor, act_rows, act_slots, cache_slots, decls_up_to, expert_slots, handle,
    handles_are_distinct, input_slots, layer_sizes_of, moe_slots, narrow_act_slots, narrow_slots,
    norm_slots, present, present_is_bounded, scale_slots, shared_decls, shared_handles, sizes_of,
    weight_slots, DeclView, DeclareFor, LayerSizes, RopeBytes, Sizes, SlotView,
};
use crate::emit_config::EmitConfig;
use crate::isa::TENSOR_NONE;
use crate::shape::chunk_of;
use crate::text::begins;

verus! {

/// Whether a tensor is an activation.
pub open spec fn is_act(d: DeclView) -> bool {
    begins(d.name, "act."@)
}

/// Whether two tensors have one name, and one size where they are activations.
pub open spec fn alike(a: DeclView, b: DeclView) -> bool {
    a.name == b.name && (is_act(a) ==> a.bytes == b.bytes)
}

/// Whether two lists of tensors are alike, tensor by tensor.
pub open spec fn all_alike(a: Seq<DeclView>, b: Seq<DeclView>) -> bool {
    &&& a.len() == b.len()
    &&& forall|i: int| 0 <= i < a.len() ==> alike(#[trigger] a[i], b[i])
}

spec fn slots_alike(a: Seq<SlotView>, b: Seq<SlotView>) -> bool {
    &&& a.len() == b.len()
    &&& forall|i: int|
        0 <= i < a.len() ==> (#[trigger] a[i]).on == b[i].on && alike(a[i].decl, b[i].decl)
}

proof fn present_alike(a: Seq<SlotView>, b: Seq<SlotView>)
    requires
        slots_alike(a, b),
    ensures
        all_alike(present(a), present(b)),
    decreases a.len(),
{
    if a.len() > 0 {
        assert(a.last().on == b.last().on && alike(a.last().decl, b.last().decl)) by {
            assert(a[a.len() - 1].on == b[b.len() - 1].on);
        }
        assert forall|i: int| 0 <= i < a.len() - 1 implies (#[trigger] a.drop_last()[i]).on
            == b.drop_last()[i].on && alike(a.drop_last()[i].decl, b.drop_last()[i].decl) by {
            assert(a[i].on == b[i].on);
        }
        present_alike(a.drop_last(), b.drop_last());
    }
}

proof fn joined_alike(a: Seq<DeclView>, b: Seq<DeclView>, x: Seq<DeclView>, y: Seq<DeclView>)
    requires
        all_alike(a, b),
        all_alike(x, y),
    ensures
        all_alike(a + x, b + y),
{
    assert forall|i: int| 0 <= i < (a + x).len() implies alike(#[trigger] (a + x)[i], (b + y)[i]) by {
        if i < a.len() {
            assert(alike(a[i], b[i]));
        } else {
            assert(alike(x[i - a.len()], y[i - a.len()]));
        }
    }
}

proof fn same_is_alike(a: Seq<SlotView>)
    ensures
        slots_alike(a, a),
{
}

/// The element counts that the context does not reach.
spec fn same_but_ctx(a: Sizes, b: Sizes) -> bool {
    b == (Sizes { ctx: b.ctx, ..a })
}

proof fn inputs_alike(
    k: EmitConfig,
    c: Cfg,
    d: DeclareFor,
    e: DeclareFor,
    y: Sizes,
    z: Sizes,
    r: RopeBytes,
    s: RopeBytes,
)
    requires
        same_but_ctx(y, z),
    ensures
        slots_alike(input_slots(k, c, d, y, r), input_slots(k, c, e, z, s)),
{
    reveal(input_slots);
    reveal_strlit("act.");
    reveal_strlit("in.ids");
    reveal_strlit("in.pos");
    reveal_strlit("in.kvlen");
    reveal_strlit("in.cos_slide");
    reveal_strlit("in.sin_slide");
    reveal_strlit("in.cos_full");
    reveal_strlit("in.sin_full");
    let a = input_slots(k, c, d, y, r);
    let b = input_slots(k, c, e, z, s);
    assert forall|i: int| 0 <= i < a.len() implies (#[trigger] a[i]).on == b[i].on && alike(
        a[i].decl,
        b[i].decl,
    ) by {
        if i < 7 {
            assert(a[i].decl.name[0] == 'i');
            assert("act."@[0] == 'a');
            if is_act(a[i].decl) {
                assert(a[i].decl.name.take(4)[0] == 'a');
            }
        }
    }
}

proof fn shared_alike(
    k: EmitConfig,
    c: Cfg,
    d: DeclareFor,
    e: DeclareFor,
    y: Sizes,
    z: Sizes,
    r: RopeBytes,
    s: RopeBytes,
)
    requires
        same_but_ctx(y, z),
        e == (DeclareFor { ctx: e.ctx, ..d }),
    ensures
        all_alike(shared_decls(k, c, d, y, r, 3), shared_decls(k, c, e, z, s, 3)),
{
    inputs_alike(k, c, d, e, y, z, r, s);
    present_alike(input_slots(k, c, d, y, r), input_slots(k, c, e, z, s));
    assert(act_slots(k, c, d, y, r) =~= act_slots(k, c, e, z, s)) by {
        reveal(act_slots);
    }
    assert(moe_slots(k, c, d, y, r) =~= moe_slots(k, c, e, z, s)) by {
        reveal(moe_slots);
    }
    assert(narrow_act_slots(k, c, d, y, r) =~= narrow_act_slots(k, c, e, z, s)) by {
        reveal(narrow_act_slots);
    }
    let a = act_slots(k, c, d, y, r);
    let m = moe_slots(k, c, d, y, r);
    let n = narrow_act_slots(k, c, d, y, r);
    same_is_alike(a);
    same_is_alike(m);
    same_is_alike(n);
    present_alike(a, a);
    present_alike(m, m);
    present_alike(n, n);
    joined_alike(
        shared_decls(k, c, d, y, r, 0),
        shared_decls(k, c, e, z, s, 0),
        present(a),
        present(a),
    );
    joined_alike(
        shared_decls(k, c, d, y, r, 1),
        shared_decls(k, c, e, z, s, 1),
        present(m),
        present(m),
    );
    joined_alike(
        shared_decls(k, c, d, y, r, 2),
        shared_decls(k, c, e, z, s, 2),
        present(n),
        present(n),
    );
}

proof fn caches_alike(c: Cfg, d: DeclareFor, e: DeclareFor, y: LayerSizes, z: LayerSizes, l: u32)
    requires
        z == (LayerSizes { kv_bytes: z.kv_bytes, kv_scale_bytes: z.kv_scale_bytes, ..y }),
    ensures
        slots_alike(cache_slots(c, d, y, l), cache_slots(c, e, z, l)),
{
    reveal(cache_slots);
    reveal_strlit("act.");
    reveal_strlit("kv.");
    let a = cache_slots(c, d, y, l);
    let b = cache_slots(c, e, z, l);
    assert forall|i: int| 0 <= i < a.len() implies (#[trigger] a[i]).on == b[i].on && alike(
        a[i].decl,
        b[i].decl,
    ) by {
        assert(a[i].decl.name[0] == 'k');
        assert("act."@[0] == 'a');
        if is_act(a[i].decl) {
            assert(a[i].decl.name.take(4)[0] == 'a');
        }
    }
}

proof fn layers_alike(
    a: Seq<DeclView>,
    b: Seq<DeclView>,
    c: Cfg,
    d: DeclareFor,
    e: DeclareFor,
    y: LayerSizes,
    z: LayerSizes,
    l: u32,
)
    requires
        all_alike(a, b),
        z == (LayerSizes { kv_bytes: z.kv_bytes, kv_scale_bytes: z.kv_scale_bytes, ..y }),
        e == (DeclareFor { ctx: e.ctx, ..d }),
    ensures
        all_alike(
            crate::declare::with_layer(a, c, d, y, l, 6),
            crate::declare::with_layer(b, c, e, z, l, 6),
        ),
{
    caches_alike(c, d, e, y, z, l);
    present_alike(cache_slots(c, d, y, l), cache_slots(c, e, z, l));
    assert(expert_slots(c, d, y, l) =~= expert_slots(c, e, z, l)) by {
        reveal(expert_slots);
    }
    assert(weight_slots(c, d, y, l) =~= weight_slots(c, e, z, l)) by {
        reveal(weight_slots);
    }
    assert(narrow_slots(c, d, y, l) =~= narrow_slots(c, e, z, l)) by {
        reveal(narrow_slots);
    }
    assert(scale_slots(c, d, y, l) =~= scale_slots(c, e, z, l)) by {
        reveal(scale_slots);
    }
    assert(norm_slots(c, d, y, l) =~= norm_slots(c, e, z, l)) by {
        reveal(norm_slots);
    }
    let s1 = expert_slots(c, d, y, l);
    let s2 = weight_slots(c, d, y, l);
    let s3 = narrow_slots(c, d, y, l);
    let s4 = scale_slots(c, d, y, l);
    let s5 = norm_slots(c, d, y, l);
    let a1 = a + present(cache_slots(c, d, y, l));
    let b1 = b + present(cache_slots(c, e, z, l));
    joined_alike(a, b, present(cache_slots(c, d, y, l)), present(cache_slots(c, e, z, l)));
    more_alike(a1, b1, s1);
    more_alike(a1 + present(s1), b1 + present(s1), s2);
    more_alike(a1 + present(s1) + present(s2), b1 + present(s1) + present(s2), s3);
    let a3 = a1 + present(s1) + present(s2) + present(s3);
    let b3 = b1 + present(s1) + present(s2) + present(s3);
    more_alike(a3, b3, s4);
    more_alike(a3 + present(s4), b3 + present(s4), s5);
}

proof fn more_alike(a: Seq<DeclView>, b: Seq<DeclView>, s: Seq<SlotView>)
    requires
        all_alike(a, b),
    ensures
        all_alike(a + present(s), b + present(s)),
{
    same_is_alike(s);
    present_alike(s, s);
    joined_alike(a, b, present(s), present(s));
}

proof fn lists_alike(
    k: EmitConfig,
    c: Cfg,
    n_cu: u32,
    d: DeclareFor,
    e: DeclareFor,
    r: RopeBytes,
    s: RopeBytes,
    l: int,
)
    requires
        e == (DeclareFor { ctx: e.ctx, ..d }),
        d.ctx >= chunk_of(k, c.window as int),
        e.ctx >= chunk_of(k, c.window as int),
        0 <= l,
    ensures
        all_alike(decls_up_to(k, c, n_cu, d, r, l), decls_up_to(k, c, n_cu, e, s, l)),
    decreases l,
{
    assert(act_rows(k, c, d.ctx) == act_rows(k, c, e.ctx));
    if l == 0 {
        let y = sizes_of(k, c, n_cu, d);
        let z = sizes_of(k, c, n_cu, e);
        assert(same_but_ctx(y, z));
        shared_alike(k, c, d, e, y, z, r, s);
    } else {
        lists_alike(k, c, n_cu, d, e, r, s, l - 1);
        layers_alike(
            decls_up_to(k, c, n_cu, d, r, l - 1),
            decls_up_to(k, c, n_cu, e, s, l - 1),
            c,
            d,
            e,
            layer_sizes_of(k, c, d, l - 1),
            layer_sizes_of(k, c, e, l - 1),
            (l - 1) as u32,
        );
    }
}

/// The first two tensors of a model are its inputs, a word to each row of the context.
proof fn inputs_hold_the_context(
    k: EmitConfig,
    c: Cfg,
    n_cu: u32,
    d: DeclareFor,
    r: RopeBytes,
    l: int,
)
    requires
        0 <= l,
    ensures
        ({
            let a = decls_up_to(k, c, n_cu, d, r, l);
            &&& a.len() > 1
            &&& a[0].name == "in.ids"@ && a[0].bytes == 4 * d.ctx
            &&& a[1].name == "in.pos"@ && a[1].bytes == 4 * d.ctx
        }),
    decreases l,
{
    if l > 0 {
        inputs_hold_the_context(k, c, n_cu, d, r, l - 1);
    } else {
        let s = input_slots(k, c, d, sizes_of(k, c, n_cu, d), r);
        reveal(input_slots);
        let t = s.take(2);
        assert(t.drop_last().drop_last() =~= Seq::<SlotView>::empty());
        assert(t.drop_last().last() == s[0] && t.last() == s[1]);
        reveal_with_fuel(present, 3);
        assert(present(t) =~= seq![s[0].decl, s[1].decl]);
        present_starts(s, 2);
    }
}

proof fn present_starts(s: Seq<SlotView>, n: int)
    requires
        0 <= n <= s.len(),
    ensures
        present(s.take(n)).is_prefix_of(present(s)),
    decreases s.len() - n,
{
    if n < s.len() {
        present_starts(s, n + 1);
        let t = s.take(n + 1);
        assert(t.drop_last() =~= s.take(n));
        assert(present(t.drop_last()).is_prefix_of(present(t)));
    } else {
        assert(s.take(n) =~= s);
    }
}

/// Activations are sized by the widest program and never by the context: a model declared for two
/// contexts that are at least as wide as its widest program has the same tensors, its activations
/// of the same size, while its inputs hold one word to each row of the context.
pub proof fn activations_do_not_grow_with_the_context(
    k: EmitConfig,
    c: Cfg,
    n_cu: u32,
    d: DeclareFor,
    wider: u32,
    r: RopeBytes,
    s: RopeBytes,
)
    requires
        d.ctx >= chunk_of(k, c.window as int),
        wider >= chunk_of(k, c.window as int),
    ensures
        ({
            let e = DeclareFor { ctx: wider, ..d };
            let a = decls_up_to(k, c, n_cu, d, r, c.layers as int);
            let b = decls_up_to(k, c, n_cu, e, s, c.layers as int);
            &&& a.len() == b.len() && a.len() > 1
            &&& forall|i: int|
                0 <= i < a.len() ==> (#[trigger] a[i]).name == b[i].name && (begins(
                    a[i].name,
                    "act."@,
                ) ==> a[i].bytes == b[i].bytes)
            &&& a[0].name == "in.ids"@ && a[0].bytes == 4 * d.ctx && b[0].bytes == 4 * wider
            &&& a[1].name == "in.pos"@ && a[1].bytes == 4 * d.ctx && b[1].bytes == 4 * wider
        }),
{
    let e = DeclareFor { ctx: wider, ..d };
    lists_alike(k, c, n_cu, d, e, r, s, c.layers as int);
    inputs_hold_the_context(k, c, n_cu, d, r, c.layers as int);
    inputs_hold_the_context(k, c, n_cu, e, s, c.layers as int);
    let a = decls_up_to(k, c, n_cu, d, r, c.layers as int);
    let b = decls_up_to(k, c, n_cu, e, s, c.layers as int);
    assert forall|i: int| 0 <= i < a.len() implies (#[trigger] a[i]).name == b[i].name && (begins(
        a[i].name,
        "act."@,
    ) ==> a[i].bytes == b[i].bytes) by {
        assert(alike(a[i], b[i]));
    }
}

/// A slot's handle, behind so few tensors that it is its place among them.
proof fn handle_is_its_place(s: Seq<SlotView>, base: int, i: int)
    requires
        0 <= i < s.len(),
        s[i].on,
        0 <= base,
        base + s.len() < TENSOR_NONE,
    ensures
        base <= handle(s, base, i) < base + present(s).len(),
{
    let before = Seq::new(base as nat, |j: int| s[i].decl);
    present_is_bounded(s);
    present_is_bounded(s.take(i));
    a_handle_names_its_tensor(s, before, i);
}

/// The norm's output, what is read beside it, and the narrow copies are different tensors.
pub proof fn narrow_copies_are_their_own(
    k: EmitConfig,
    c: Cfg,
    d: DeclareFor,
    z: Sizes,
    rope: RopeBytes,
)
    requires
        d.w8a8,
    ensures
        ({
            let n = shared_handles(k, c, d, z, rope);
            &&& n.qg != n.hn && n.kg != n.hn && n.gt != n.hn
            &&& n.qg != n.xqh && n.kg != n.xqh && n.gt != n.xqh && n.hn != n.xqh
            &&& n.xqo != n.xqh && n.xqi != n.xqh
        }),
{
    reveal(input_slots);
    reveal(act_slots);
    reveal(moe_slots);
    reveal(narrow_act_slots);
    let s1 = act_slots(k, c, d, z, rope);
    let s3 = narrow_act_slots(k, c, d, z, rope);
    let b1 = shared_decls(k, c, d, z, rope, 0).len() as int;
    let b3 = shared_decls(k, c, d, z, rope, 2).len() as int;
    present_is_bounded(input_slots(k, c, d, z, rope));
    present_is_bounded(s1);
    present_is_bounded(moe_slots(k, c, d, z, rope));
    handles_are_distinct(s1, b1, 3, 4);
    handles_are_distinct(s1, b1, 3, 5);
    handles_are_distinct(s1, b1, 3, 12);
    handle_is_its_place(s1, b1, 3);
    handle_is_its_place(s1, b1, 4);
    handle_is_its_place(s1, b1, 5);
    handle_is_its_place(s1, b1, 12);
    handle_is_its_place(s3, b3, 0);
    handles_are_distinct(s3, b3, 0, 2);
    handles_are_distinct(s3, b3, 0, 4);
}

} // verus!
