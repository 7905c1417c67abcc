//! What the handles of a model name: the tensor at each has the name that the checkpoint or the
//! runtime knows it by, and holds as many bytes as its use needs.
use vstd::prelude::*;

use crate::arith::{ceil_div, larger, smaller};
use crate::config::{Arch, Cfg};
use crate::declare::{
    a_handle_names_its_tensor, act_slots, cache_handles, cache_slots, declare_ok, decls_up_to,
    expert_slots, handle, input_slots, layer_sizes_of, layer_sizes_ok, moe_slots, narrow_act_slots,
    narrow_slots, norm_slots, present, present_is_bounded, scale_slots, shared_decls,
    shared_handles, sizes_of, weight_handles, weight_slots, with_layer, DeclView, DeclareFor, Gen,
    LayerSizes, RopeBytes, SlotView,
};
use crate::emit_config::EmitConfig;
use crate::isa::TENSOR_NONE;
use crate::shape::{chunk_of, ring_of};
use crate::text::dec;

verus! {

/// Whether a handle is that of a tensor with a name and a size.
pub open spec fn named(t: Seq<DeclView>, h: u32, name: Seq<char>, bytes: int) -> bool {
    &&& h < t.len()
    &&& t[h as int].name == name
    &&& t[h as int].bytes == bytes
}

/// Whether a handle is that of a tensor with a name and a size where the model has it, and else that
/// of none.
pub open spec fn names(t: Seq<DeclView>, on: bool, h: u32, name: Seq<char>, bytes: int) -> bool {
    if on { named(t, h, name, bytes) } else { h == TENSOR_NONE }
}

proof fn slot_names(
    s: Seq<SlotView>,
    before: Seq<DeclView>,
    t: Seq<DeclView>,
    i: int,
)
    requires
        0 <= i < s.len(),
        (before + present(s)).is_prefix_of(t),
        t.len() < TENSOR_NONE,
    ensures
        names(
            t,
            s[i].on,
            handle(s, before.len() as int, i),
            s[i].decl.name,
            s[i].decl.bytes as int,
        ),
        s[i].on ==> t[handle(s, before.len() as int, i) as int].gen == s[i].decl.gen,
{
    if s[i].on {
        a_handle_names_its_tensor(s, before, i);
        let h = handle(s, before.len() as int, i) as int;
        assert((before + present(s))[h] == t[h]);
    }
}

proof fn prefixes_chain(a: Seq<DeclView>, b: Seq<DeclView>, c: Seq<DeclView>)
    requires
        a.is_prefix_of(b),
        b.is_prefix_of(c),
    ensures
        a.is_prefix_of(c),
{
    assert(a =~= c.subrange(0, a.len() as int)) by {
        assert forall|i: int| 0 <= i < a.len() implies a[i] == c[i] by {
            assert(a[i] == b[i] && b[i] == c[i]);
        }
    }
}

proof fn layer_parts_stay(before: Seq<DeclView>, c: Cfg, d: DeclareFor, e: LayerSizes, l: u32, i: int)
    requires
        0 <= i <= 6,
    ensures
        with_layer(before, c, d, e, l, i).is_prefix_of(with_layer(before, c, d, e, l, 6)),
        before.is_prefix_of(with_layer(before, c, d, e, l, 6)),
        with_layer(before, c, d, e, l, 6).len() <= before.len() + 45,
{
    reveal(cache_slots);
    reveal(expert_slots);
    reveal(weight_slots);
    reveal(narrow_slots);
    reveal(scale_slots);
    reveal(norm_slots);
    present_is_bounded(cache_slots(c, d, e, l));
    present_is_bounded(expert_slots(c, d, e, l));
    present_is_bounded(weight_slots(c, d, e, l));
    present_is_bounded(narrow_slots(c, d, e, l));
    present_is_bounded(scale_slots(c, d, e, l));
    present_is_bounded(norm_slots(c, d, e, l));
    let a = with_layer(before, c, d, e, l, i);
    let z = with_layer(before, c, d, e, l, 6);
    assert(a =~= z.subrange(0, a.len() as int));
    assert(before =~= z.subrange(0, before.len() as int));
}

proof fn shared_parts_stay(k: EmitConfig, c: Cfg, n_cu: u32, d: DeclareFor, rope: RopeBytes, i: int)
    requires
        0 <= i <= 3,
    ensures
        ({
            let z = sizes_of(k, c, n_cu, d);
            &&& shared_decls(k, c, d, z, rope, i).is_prefix_of(shared_decls(k, c, d, z, rope, 3))
            &&& shared_decls(k, c, d, z, rope, 3).len() <= 54
        }),
{
    reveal(input_slots);
    reveal(act_slots);
    reveal(moe_slots);
    reveal(narrow_act_slots);
    let z = sizes_of(k, c, n_cu, d);
    present_is_bounded(input_slots(k, c, d, z, rope));
    present_is_bounded(act_slots(k, c, d, z, rope));
    present_is_bounded(moe_slots(k, c, d, z, rope));
    present_is_bounded(narrow_act_slots(k, c, d, z, rope));
    let a = shared_decls(k, c, d, z, rope, i);
    let b = shared_decls(k, c, d, z, rope, 3);
    assert(a =~= b.subrange(0, a.len() as int));
}

/// The tensors of a model's first layers stay where they are when more layers follow.
proof fn table_goes_on(
    k: EmitConfig,
    c: Cfg,
    n_cu: u32,
    d: DeclareFor,
    rope: RopeBytes,
    l: int,
    m: int,
)
    requires
        0 <= l <= m,
    ensures
        decls_up_to(k, c, n_cu, d, rope, l).is_prefix_of(decls_up_to(k, c, n_cu, d, rope, m)),
        decls_up_to(k, c, n_cu, d, rope, m).len() <= 54 + 45 * m,
    decreases m,
{
    let a = decls_up_to(k, c, n_cu, d, rope, l);
    let b = decls_up_to(k, c, n_cu, d, rope, m);
    if m > 0 {
        let q = decls_up_to(k, c, n_cu, d, rope, m - 1);
        layer_parts_stay(q, c, d, layer_sizes_of(k, c, d, m - 1), (m - 1) as u32, 0);
        if l < m {
            table_goes_on(k, c, n_cu, d, rope, l, m - 1);
            prefixes_chain(a, q, b);
        } else {
            table_goes_on(k, c, n_cu, d, rope, l - 1, m - 1);
            assert(a =~= b.subrange(0, a.len() as int));
        }
    } else {
        shared_parts_stay(k, c, n_cu, d, rope, 3);
        assert(a =~= b.subrange(0, a.len() as int));
    }
}

/// A table that begins with one part of a layer's tensors, and is short enough to be numbered.
proof fn part_of_table(
    k: EmitConfig,
    c: Cfg,
    n_cu: u32,
    d: DeclareFor,
    rope: RopeBytes,
    l: int,
    i: int,
)
    requires
        0 <= l < c.layers,
        c.layers <= 0x400_0000,
        0 <= i <= 6,
    ensures
        ({
            let before = decls_up_to(k, c, n_cu, d, rope, l);
            let t = decls_up_to(k, c, n_cu, d, rope, c.layers as int);
            &&& with_layer(before, c, d, layer_sizes_of(k, c, d, l), l as u32, i).is_prefix_of(t)
            &&& t.len() < TENSOR_NONE
        }),
{
    let before = decls_up_to(k, c, n_cu, d, rope, l);
    let e = layer_sizes_of(k, c, d, l);
    layer_parts_stay(before, c, d, e, l as u32, i);
    table_goes_on(k, c, n_cu, d, rope, l + 1, c.layers as int);
    prefixes_chain(
        with_layer(before, c, d, e, l as u32, i),
        decls_up_to(k, c, n_cu, d, rope, l + 1),
        decls_up_to(k, c, n_cu, d, rope, c.layers as int),
    );
}

/// Query heads of one device.
pub open spec fn own_heads(c: Cfg) -> int {
    (c.heads / c.tp) as int
}

/// The head width of layer `l`.
pub open spec fn head_width(c: Cfg, l: int) -> int {
    if c.is_full@[l] { c.hd_full as int } else { c.hd_slide as int }
}

/// Heads of keys and values of layer `l` on one device: its share, and one where the devices are
/// more than the heads.
pub open spec fn own_kv_heads(c: Cfg, l: int) -> int {
    let all = if c.is_full@[l] { c.kvh_full } else { c.kvh_slide };
    if c.tp <= all { (all / c.tp) as int } else { 1 }
}

/// Columns of a layer's query, and of its key.
pub open spec fn query_cols(c: Cfg, l: int) -> int {
    own_heads(c) * head_width(c, l)
}

pub open spec fn key_cols(c: Cfg, l: int) -> int {
    own_kv_heads(c, l) * head_width(c, l)
}

/// Inner columns of one device.
pub open spec fn inner_cols(c: Cfg) -> int {
    (c.inter / c.tp) as int
}


/// The element counts of a layer are what they are called.
proof fn sizes_are_small(k: EmitConfig, c: Cfg, d: DeclareFor, l: int)
    requires
        0 <= l < c.layers,
        c.tp > 0,
        layer_sizes_ok(k, c, d, l),
    ensures
        ({
            let e = layer_sizes_of(k, c, d, l);
            &&& e.qd == query_cols(c, l) && e.kd == key_cols(c, l) && e.inter == inner_cols(c)
            &&& e.qh == query_cols(c, l) * c.hidden && e.kh == key_cols(c, l) * c.hidden
            &&& e.ih == inner_cols(c) * c.hidden
            &&& e.eh == c.n_exp * c.hidden && e.e2 == c.n_exp * 2
            &&& e.qh <= u32::MAX && e.kh <= u32::MAX && e.ih <= u32::MAX && e.eh <= u32::MAX
        }),
{
    crate::arith::mul_le(own_heads(c), head_width(c, l), own_heads(c), head_width(c, l));
    crate::arith::mul_le(own_kv_heads(c, l), head_width(c, l), own_kv_heads(c, l), head_width(c, l));
    crate::arith::mul_le(query_cols(c, l), c.hidden as int, query_cols(c, l), c.hidden as int);
    crate::arith::mul_le(key_cols(c, l), c.hidden as int, key_cols(c, l), c.hidden as int);
    crate::arith::mul_le(inner_cols(c), c.hidden as int, inner_cols(c), c.hidden as int);
    crate::arith::mul_le(c.n_exp as int, c.hidden as int, c.n_exp as int, c.hidden as int);
}

proof fn groups_are_small(c: Cfg, l: int)
    requires
        c.tp > 0,
        0 <= query_cols(c, l) <= u32::MAX,
        0 <= key_cols(c, l) <= u32::MAX,
    ensures
        query_cols(c, l) * ceil_div(c.hidden as int, 32) <= u64::MAX,
        key_cols(c, l) * ceil_div(c.hidden as int, 32) <= u64::MAX,
        inner_cols(c) * ceil_div(c.hidden as int, 32) <= u64::MAX,
        c.hidden * ceil_div(query_cols(c, l), 32) <= u64::MAX,
        c.hidden * ceil_div(inner_cols(c), 32) <= u64::MAX,
        0 <= ceil_div(query_cols(c, l), 32) <= u32::MAX,
        0 <= ceil_div(inner_cols(c), 32) <= u32::MAX,
        0 <= ceil_div(c.hidden as int, 32) <= u32::MAX,
        0 <= query_cols(c, l) * ceil_div(c.hidden as int, 32),
        0 <= key_cols(c, l) * ceil_div(c.hidden as int, 32),
        0 <= inner_cols(c) * ceil_div(c.hidden as int, 32),
        0 <= c.hidden * ceil_div(query_cols(c, l), 32),
        0 <= c.hidden * ceil_div(inner_cols(c), 32),
{
    let m = u32::MAX as int;
    crate::arith::mul_le(query_cols(c, l), ceil_div(c.hidden as int, 32), m, m);
    crate::arith::mul_le(key_cols(c, l), ceil_div(c.hidden as int, 32), m, m);
    crate::arith::mul_le(inner_cols(c), ceil_div(c.hidden as int, 32), m, m);
    crate::arith::mul_le(c.hidden as int, ceil_div(query_cols(c, l), 32), m, m);
    crate::arith::mul_le(c.hidden as int, ceil_div(inner_cols(c), 32), m, m);
}

/// Each bf16 weight of a layer is the checkpoint's tensor of that projection, two bytes to an
/// element of its rows and columns on one device. Narrow weights, and layers outside the range, have
/// none; a layer whose value is its key has no value weight.
pub proof fn bf16_weights_have_their_names(
    k: EmitConfig,
    c: Cfg,
    n_cu: u32,
    d: DeclareFor,
    rope: RopeBytes,
    l: int,
)
    requires
        declare_ok(k, c, n_cu, d),
        0 <= l < c.layers,
    ensures
        ({
            let before = decls_up_to(k, c, n_cu, d, rope, l);
            let t = decls_up_to(k, c, n_cu, d, rope, c.layers as int);
            let w = weight_handles(before, c, d, layer_sizes_of(k, c, d, l), l as u32);
            let inside = d.first <= l < d.end;
            &&& names(t, inside && !d.fp8 && !d.mx, w.wq, c.prefix@ + "layers."@ + dec(l as nat) + "."@ + "self_attn.q_proj.weight"@, 2 * (query_cols(c, l) * c.hidden))
            &&& names(t, inside && !d.fp8 && !d.mx, w.wk, c.prefix@ + "layers."@ + dec(l as nat) + "."@ + "self_attn.k_proj.weight"@, 2 * (key_cols(c, l) * c.hidden))
            &&& names(t, inside && !d.fp8 && !d.mx && !(c.is_full@[l] && c.k_eq_v), w.wv, c.prefix@ + "layers."@ + dec(l as nat) + "."@ + "self_attn.v_proj.weight"@, 2 * (key_cols(c, l) * c.hidden))
            &&& names(t, inside && !d.fp8 && !d.mx, w.wo, c.prefix@ + "layers."@ + dec(l as nat) + "."@ + "self_attn.o_proj.weight"@, 2 * (c.hidden as int * query_cols(c, l)))
            &&& names(t, inside && !d.fp8 && !d.mx, w.wg, c.prefix@ + "layers."@ + dec(l as nat) + "."@ + "mlp.gate_proj.weight"@, 2 * (inner_cols(c) * c.hidden))
            &&& names(t, inside && !d.fp8 && !d.mx, w.wu, c.prefix@ + "layers."@ + dec(l as nat) + "."@ + "mlp.up_proj.weight"@, 2 * (inner_cols(c) * c.hidden))
            &&& names(t, inside && !d.fp8 && !d.mx, w.wd, c.prefix@ + "layers."@ + dec(l as nat) + "."@ + "mlp.down_proj.weight"@, 2 * (c.hidden as int * inner_cols(c)))
        }),
{
    reveal(weight_slots);
    assert(layer_sizes_ok(k, c, d, l));
    let before = decls_up_to(k, c, n_cu, d, rope, l);
    let t = decls_up_to(k, c, n_cu, d, rope, c.layers as int);
    let e = layer_sizes_of(k, c, d, l);
    let s = weight_slots(c, d, e, l as u32);
    let b = with_layer(before, c, d, e, l as u32, 2);
    part_of_table(k, c, n_cu, d, rope, l, 3);
    assert(c.hidden * query_cols(c, l) == query_cols(c, l) * c.hidden) by (nonlinear_arith);
    assert(c.hidden * inner_cols(c) == inner_cols(c) * c.hidden) by (nonlinear_arith);
    sizes_are_small(k, c, d, l);
    slot_names(s, b, t, 0);
    slot_names(s, b, t, 1);
    slot_names(s, b, t, 2);
    slot_names(s, b, t, 3);
    slot_names(s, b, t, 4);
    slot_names(s, b, t, 5);
    slot_names(s, b, t, 6);
}

/// Each narrow weight of a layer is the twin of the checkpoint's tensor of that projection: a byte
/// to an element, or half a byte where the weights are four bits wide.
pub proof fn narrow_weights_have_their_names(
    k: EmitConfig,
    c: Cfg,
    n_cu: u32,
    d: DeclareFor,
    rope: RopeBytes,
    l: int,
)
    requires
        declare_ok(k, c, n_cu, d),
        0 <= l < c.layers,
    ensures
        ({
            let before = decls_up_to(k, c, n_cu, d, rope, l);
            let t = decls_up_to(k, c, n_cu, d, rope, c.layers as int);
            let w = weight_handles(before, c, d, layer_sizes_of(k, c, d, l), l as u32);
            let inside = d.first <= l < d.end;
            &&& names(t, inside && (d.fp8 || d.mx) && !d.mx, w.wq8, "fp8/"@ + (c.prefix@ + "layers."@ + dec(l as nat) + "."@ + "self_attn.q_proj.weight"@), query_cols(c, l) * c.hidden) || d.mx
            &&& names(t, inside && (d.fp8 || d.mx), w.wq8, "mxfp4/"@ + (c.prefix@ + "layers."@ + dec(l as nat) + "."@ + "self_attn.q_proj.weight"@), (query_cols(c, l) * c.hidden) / 2) || !d.mx
            &&& names(t, inside && (d.fp8 || d.mx) && !d.mx, w.wk8, "fp8/"@ + (c.prefix@ + "layers."@ + dec(l as nat) + "."@ + "self_attn.k_proj.weight"@), key_cols(c, l) * c.hidden) || d.mx
            &&& names(t, inside && (d.fp8 || d.mx), w.wk8, "mxfp4/"@ + (c.prefix@ + "layers."@ + dec(l as nat) + "."@ + "self_attn.k_proj.weight"@), (key_cols(c, l) * c.hidden) / 2) || !d.mx
            &&& names(t, inside && (d.fp8 || d.mx) && !(c.is_full@[l] && c.k_eq_v) && !d.mx, w.wv8, "fp8/"@ + (c.prefix@ + "layers."@ + dec(l as nat) + "."@ + "self_attn.v_proj.weight"@), key_cols(c, l) * c.hidden) || d.mx
            &&& names(t, inside && (d.fp8 || d.mx) && !(c.is_full@[l] && c.k_eq_v), w.wv8, "mxfp4/"@ + (c.prefix@ + "layers."@ + dec(l as nat) + "."@ + "self_attn.v_proj.weight"@), (key_cols(c, l) * c.hidden) / 2) || !d.mx
            &&& names(t, inside && (d.fp8 || d.mx) && !d.mx, w.wo8, "fp8/"@ + (c.prefix@ + "layers."@ + dec(l as nat) + "."@ + "self_attn.o_proj.weight"@), c.hidden as int * query_cols(c, l)) || d.mx
            &&& names(t, inside && (d.fp8 || d.mx), w.wo8, "mxfp4/"@ + (c.prefix@ + "layers."@ + dec(l as nat) + "."@ + "self_attn.o_proj.weight"@), (c.hidden as int * query_cols(c, l)) / 2) || !d.mx
            &&& names(t, inside && (d.fp8 || d.mx) && !d.mx, w.wg8, "fp8/"@ + (c.prefix@ + "layers."@ + dec(l as nat) + "."@ + "mlp.gate_proj.weight"@), inner_cols(c) * c.hidden) || d.mx
            &&& names(t, inside && (d.fp8 || d.mx), w.wg8, "mxfp4/"@ + (c.prefix@ + "layers."@ + dec(l as nat) + "."@ + "mlp.gate_proj.weight"@), (inner_cols(c) * c.hidden) / 2) || !d.mx
            &&& names(t, inside && (d.fp8 || d.mx) && !d.mx, w.wu8, "fp8/"@ + (c.prefix@ + "layers."@ + dec(l as nat) + "."@ + "mlp.up_proj.weight"@), inner_cols(c) * c.hidden) || d.mx
            &&& names(t, inside && (d.fp8 || d.mx), w.wu8, "mxfp4/"@ + (c.prefix@ + "layers."@ + dec(l as nat) + "."@ + "mlp.up_proj.weight"@), (inner_cols(c) * c.hidden) / 2) || !d.mx
            &&& names(t, inside && (d.fp8 || d.mx) && !d.mx, w.wd8, "fp8/"@ + (c.prefix@ + "layers."@ + dec(l as nat) + "."@ + "mlp.down_proj.weight"@), c.hidden as int * inner_cols(c)) || d.mx
            &&& names(t, inside && (d.fp8 || d.mx), w.wd8, "mxfp4/"@ + (c.prefix@ + "layers."@ + dec(l as nat) + "."@ + "mlp.down_proj.weight"@), (c.hidden as int * inner_cols(c)) / 2) || !d.mx
        }),
{
    reveal(narrow_slots);
    assert(layer_sizes_ok(k, c, d, l));
    let before = decls_up_to(k, c, n_cu, d, rope, l);
    let t = decls_up_to(k, c, n_cu, d, rope, c.layers as int);
    let e = layer_sizes_of(k, c, d, l);
    let s = narrow_slots(c, d, e, l as u32);
    let b = with_layer(before, c, d, e, l as u32, 3);
    part_of_table(k, c, n_cu, d, rope, l, 4);
    assert(c.hidden * query_cols(c, l) == query_cols(c, l) * c.hidden) by (nonlinear_arith);
    assert(c.hidden * inner_cols(c) == inner_cols(c) * c.hidden) by (nonlinear_arith);
    sizes_are_small(k, c, d, l);
    slot_names(s, b, t, 0);
    slot_names(s, b, t, 1);
    slot_names(s, b, t, 2);
    slot_names(s, b, t, 3);
    slot_names(s, b, t, 4);
    slot_names(s, b, t, 5);
    slot_names(s, b, t, 6);
}

/// Each narrow weight has its scales: a number to a row, or, of four-bit weights, a byte to
/// thirty-two columns of a row.
pub proof fn weight_scales_have_their_names(
    k: EmitConfig,
    c: Cfg,
    n_cu: u32,
    d: DeclareFor,
    rope: RopeBytes,
    l: int,
)
    requires
        declare_ok(k, c, n_cu, d),
        0 <= l < c.layers,
    ensures
        ({
            let before = decls_up_to(k, c, n_cu, d, rope, l);
            let t = decls_up_to(k, c, n_cu, d, rope, c.layers as int);
            let w = weight_handles(before, c, d, layer_sizes_of(k, c, d, l), l as u32);
            let inside = d.first <= l < d.end;
            &&& names(t, inside && (d.fp8 || d.mx) && !d.mx, w.sq, "fp8/"@ + (c.prefix@ + "layers."@ + dec(l as nat) + "."@ + "self_attn.q_proj.weight"@) + "_scale"@, 4 * (query_cols(c, l))) || d.mx
            &&& names(t, inside && (d.fp8 || d.mx), w.sq, "mxfp4/"@ + (c.prefix@ + "layers."@ + dec(l as nat) + "."@ + "self_attn.q_proj.weight"@) + "_scale"@, (query_cols(c, l)) * ceil_div(c.hidden as int, 32)) || !d.mx
            &&& names(t, inside && (d.fp8 || d.mx) && !d.mx, w.sk, "fp8/"@ + (c.prefix@ + "layers."@ + dec(l as nat) + "."@ + "self_attn.k_proj.weight"@) + "_scale"@, 4 * (key_cols(c, l))) || d.mx
            &&& names(t, inside && (d.fp8 || d.mx), w.sk, "mxfp4/"@ + (c.prefix@ + "layers."@ + dec(l as nat) + "."@ + "self_attn.k_proj.weight"@) + "_scale"@, (key_cols(c, l)) * ceil_div(c.hidden as int, 32)) || !d.mx
            &&& names(t, inside && (d.fp8 || d.mx) && !(c.is_full@[l] && c.k_eq_v) && !d.mx, w.sv, "fp8/"@ + (c.prefix@ + "layers."@ + dec(l as nat) + "."@ + "self_attn.v_proj.weight"@) + "_scale"@, 4 * (key_cols(c, l))) || d.mx
            &&& names(t, inside && (d.fp8 || d.mx) && !(c.is_full@[l] && c.k_eq_v), w.sv, "mxfp4/"@ + (c.prefix@ + "layers."@ + dec(l as nat) + "."@ + "self_attn.v_proj.weight"@) + "_scale"@, (key_cols(c, l)) * ceil_div(c.hidden as int, 32)) || !d.mx
            &&& names(t, inside && (d.fp8 || d.mx) && !d.mx, w.so, "fp8/"@ + (c.prefix@ + "layers."@ + dec(l as nat) + "."@ + "self_attn.o_proj.weight"@) + "_scale"@, 4 * (c.hidden as int)) || d.mx
            &&& names(t, inside && (d.fp8 || d.mx), w.so, "mxfp4/"@ + (c.prefix@ + "layers."@ + dec(l as nat) + "."@ + "self_attn.o_proj.weight"@) + "_scale"@, (c.hidden as int) * ceil_div(query_cols(c, l) as int, 32)) || !d.mx
            &&& names(t, inside && (d.fp8 || d.mx) && !d.mx, w.sg, "fp8/"@ + (c.prefix@ + "layers."@ + dec(l as nat) + "."@ + "mlp.gate_proj.weight"@) + "_scale"@, 4 * (inner_cols(c))) || d.mx
            &&& names(t, inside && (d.fp8 || d.mx), w.sg, "mxfp4/"@ + (c.prefix@ + "layers."@ + dec(l as nat) + "."@ + "mlp.gate_proj.weight"@) + "_scale"@, (inner_cols(c)) * ceil_div(c.hidden as int, 32)) || !d.mx
            &&& names(t, inside && (d.fp8 || d.mx) && !d.mx, w.su, "fp8/"@ + (c.prefix@ + "layers."@ + dec(l as nat) + "."@ + "mlp.up_proj.weight"@) + "_scale"@, 4 * (inner_cols(c))) || d.mx
            &&& names(t, inside && (d.fp8 || d.mx), w.su, "mxfp4/"@ + (c.prefix@ + "layers."@ + dec(l as nat) + "."@ + "mlp.up_proj.weight"@) + "_scale"@, (inner_cols(c)) * ceil_div(c.hidden as int, 32)) || !d.mx
            &&& names(t, inside && (d.fp8 || d.mx) && !d.mx, w.sd, "fp8/"@ + (c.prefix@ + "layers."@ + dec(l as nat) + "."@ + "mlp.down_proj.weight"@) + "_scale"@, 4 * (c.hidden as int)) || d.mx
            &&& names(t, inside && (d.fp8 || d.mx), w.sd, "mxfp4/"@ + (c.prefix@ + "layers."@ + dec(l as nat) + "."@ + "mlp.down_proj.weight"@) + "_scale"@, (c.hidden as int) * ceil_div(inner_cols(c) as int, 32)) || !d.mx
        }),
{
    reveal(scale_slots);
    assert(layer_sizes_ok(k, c, d, l));
    let before = decls_up_to(k, c, n_cu, d, rope, l);
    let t = decls_up_to(k, c, n_cu, d, rope, c.layers as int);
    let e = layer_sizes_of(k, c, d, l);
    let s = scale_slots(c, d, e, l as u32);
    let b = with_layer(before, c, d, e, l as u32, 4);
    part_of_table(k, c, n_cu, d, rope, l, 5);
    sizes_are_small(k, c, d, l);
    groups_are_small(c, l);
    slot_names(s, b, t, 0);
    slot_names(s, b, t, 1);
    slot_names(s, b, t, 2);
    slot_names(s, b, t, 3);
    slot_names(s, b, t, 4);
    slot_names(s, b, t, 5);
    slot_names(s, b, t, 6);
}

/// Each norm of a layer, and each table of its router and its experts, is the checkpoint's tensor of
/// that name.
pub proof fn norms_have_their_names(
    k: EmitConfig,
    c: Cfg,
    n_cu: u32,
    d: DeclareFor,
    rope: RopeBytes,
    l: int,
)
    requires
        declare_ok(k, c, n_cu, d),
        0 <= l < c.layers,
    ensures
        ({
            let before = decls_up_to(k, c, n_cu, d, rope, l);
            let t = decls_up_to(k, c, n_cu, d, rope, c.layers as int);
            let w = weight_handles(before, c, d, layer_sizes_of(k, c, d, l), l as u32);
            let inside = d.first <= l < d.end;
            &&& names(t, inside, w.g_in, c.prefix@ + "layers."@ + dec(l as nat) + "."@ + "input_layernorm.weight"@, 2 * c.hidden)
            &&& names(t, inside, w.g_pa, c.prefix@ + "layers."@ + dec(l as nat) + "."@ + "post_attention_layernorm.weight"@, 2 * c.hidden)
            &&& names(t, inside && c.arch == Arch::Gemma4, w.g_pf, c.prefix@ + "layers."@ + dec(l as nat) + "."@ + "pre_feedforward_layernorm.weight"@, 2 * c.hidden)
            &&& names(t, inside && c.arch == Arch::Gemma4, w.g_po, c.prefix@ + "layers."@ + dec(l as nat) + "."@ + "post_feedforward_layernorm.weight"@, 2 * c.hidden)
            &&& names(t, inside && c.has_qk_norm, w.qn, c.prefix@ + "layers."@ + dec(l as nat) + "."@ + "self_attn.q_norm.weight"@, 2 * head_width(c, l))
            &&& names(t, inside && c.has_qk_norm, w.kn, c.prefix@ + "layers."@ + dec(l as nat) + "."@ + "self_attn.k_norm.weight"@, 2 * head_width(c, l))
            &&& names(t, inside && c.moe, w.rproj, c.prefix@ + "layers."@ + dec(l as nat) + "."@ + "router.proj.weight"@, 2 * (c.n_exp * c.hidden))
            &&& names(t, inside && c.moe, w.rscale, c.prefix@ + "layers."@ + dec(l as nat) + "."@ + "router.scale"@, 2 * c.hidden)
            &&& names(t, inside && c.moe, w.rpes, c.prefix@ + "layers."@ + dec(l as nat) + "."@ + "router.per_expert_scale"@, 2 * c.n_exp)
            &&& names(t, inside && c.moe, w.g_pf1, c.prefix@ + "layers."@ + dec(l as nat) + "."@ + "post_feedforward_layernorm_1.weight"@, 2 * c.hidden)
            &&& names(t, inside && c.moe, w.g_pf2, c.prefix@ + "layers."@ + dec(l as nat) + "."@ + "post_feedforward_layernorm_2.weight"@, 2 * c.hidden)
            &&& names(t, inside && c.moe, w.g_pre2, c.prefix@ + "layers."@ + dec(l as nat) + "."@ + "pre_feedforward_layernorm_2.weight"@, 2 * c.hidden)
            &&& names(t, inside && c.moe, w.ewt, "moe.ewt."@ + dec(l as nat), 16 * c.n_exp)
            &&& names(t, inside && c.moe && d.fp8, w.est, "moe.est."@ + dec(l as nat), 16 * c.n_exp)
        }),
{
    reveal(norm_slots);
    assert(layer_sizes_ok(k, c, d, l));
    let before = decls_up_to(k, c, n_cu, d, rope, l);
    let t = decls_up_to(k, c, n_cu, d, rope, c.layers as int);
    let e = layer_sizes_of(k, c, d, l);
    let s = norm_slots(c, d, e, l as u32);
    let b = with_layer(before, c, d, e, l as u32, 5);
    part_of_table(k, c, n_cu, d, rope, l, 6);
    sizes_are_small(k, c, d, l);
    reveal_strlit("");
    assert("moe.ewt."@ + dec(l as nat) + ""@ =~= "moe.ewt."@ + dec(l as nat));
    assert("moe.est."@ + dec(l as nat) + ""@ =~= "moe.est."@ + dec(l as nat));
    slot_names(s, b, t, 0);
    slot_names(s, b, t, 1);
    slot_names(s, b, t, 2);
    slot_names(s, b, t, 3);
    slot_names(s, b, t, 4);
    slot_names(s, b, t, 5);
    slot_names(s, b, t, 6);
    slot_names(s, b, t, 7);
    slot_names(s, b, t, 8);
    slot_names(s, b, t, 9);
    slot_names(s, b, t, 10);
    slot_names(s, b, t, 11);
    slot_names(s, b, t, 12);
    slot_names(s, b, t, 13);
}

/// Rows of a layer's cache: the context, or a ring where the layer looks back over a window.
pub open spec fn cache_rows_of(k: EmitConfig, c: Cfg, d: DeclareFor, l: int) -> int {
    ring_of(c.is_full@[l], d.ctx as int, c.window as int, chunk_of(k, c.window as int)).0
}


/// A layer has a cache of keys and one of values for every row of the widest decode step, and scales
/// beside them where the cache is narrow: in every layer, or in those of full attention alone.
pub proof fn caches_have_their_names(
    k: EmitConfig,
    c: Cfg,
    n_cu: u32,
    d: DeclareFor,
    rope: RopeBytes,
    l: int,
)
    requires
        declare_ok(k, c, n_cu, d),
        0 <= l < c.layers,
    ensures
        ({
            let before = decls_up_to(k, c, n_cu, d, rope, l);
            let t = decls_up_to(k, c, n_cu, d, rope, c.layers as int);
            let w = cache_handles(before, c, d, layer_sizes_of(k, c, d, l), l as u32);
            let inside = d.first <= l < d.end;
            let narrow = d.fp8_kv && (c.is_full@[l] || !d.fp8_kv_full);
            &&& names(t, inside, w.kc, "kv."@ + dec(l as nat) + ".k"@, d.dbatch * (cache_rows_of(k, c, d, l) * own_kv_heads(c, l) * head_width(c, l)) * (if narrow { 1int } else { 2int }))
            &&& names(t, inside, w.vc, "kv."@ + dec(l as nat) + ".v"@, d.dbatch * (cache_rows_of(k, c, d, l) * own_kv_heads(c, l) * head_width(c, l)) * (if narrow { 1int } else { 2int }))
            &&& names(t, inside && narrow, w.kcs, "kv."@ + dec(l as nat) + ".k_scale"@, d.dbatch * (cache_rows_of(k, c, d, l) * own_kv_heads(c, l)) * 4)
            &&& names(t, inside && narrow, w.vcs, "kv."@ + dec(l as nat) + ".v_scale"@, d.dbatch * (cache_rows_of(k, c, d, l) * own_kv_heads(c, l)) * 4)
        }),
{
    reveal(cache_slots);
    assert(layer_sizes_ok(k, c, d, l));
    let before = decls_up_to(k, c, n_cu, d, rope, l);
    let t = decls_up_to(k, c, n_cu, d, rope, c.layers as int);
    let e = layer_sizes_of(k, c, d, l);
    let s = cache_slots(c, d, e, l as u32);
    let b = with_layer(before, c, d, e, l as u32, 0);
    part_of_table(k, c, n_cu, d, rope, l, 1);

    slot_names(s, b, t, 0);
    slot_names(s, b, t, 1);
    slot_names(s, b, t, 2);
    slot_names(s, b, t, 3);
}
/// Columns of the widest query and of the widest key of any layer, on one device.
pub open spec fn widest_query(c: Cfg) -> int {
    own_heads(c) * larger(c.hd_slide as int, c.hd_full as int)
}

pub open spec fn widest_keys(c: Cfg) -> int {
    larger(
        (if c.tp <= c.kvh_slide { (c.kvh_slide / c.tp) as int } else { 1 }) * c.hd_slide,
        (if c.tp <= c.kvh_full { (c.kvh_full / c.tp) as int } else { 1 }) * c.hd_full,
    )
}


/// The element counts of the shared tensors are what they are called.
proof fn shared_sizes_are_small(k: EmitConfig, c: Cfg, n_cu: u32, d: DeclareFor)
    requires
        declare_ok(k, c, n_cu, d),
    ensures
        ({
            let z = sizes_of(k, c, n_cu, d);
            let rows = smaller(d.ctx as int, chunk_of(k, c.window as int));
            let hd = larger(c.hd_slide as int, c.hd_full as int);
            let mr = larger(if c.moe && d.moe_pf { rows } else { 1 }, d.dbatch as int);
            let pad = mr * c.top_k + c.n_exp * 128;
            let m = u32::MAX;
            &&& 0 <= rows <= m && z.rows == rows && z.ctx == d.ctx && z.db == d.dbatch
            &&& z.vh == c.vocab * c.hidden && z.vh <= m
            &&& z.rh == rows * c.hidden && z.rh <= m
            &&& z.rq == widest_query(c) * rows && z.rq <= m
            &&& z.rk == widest_keys(c) * rows && z.rk <= m
            &&& z.ri == rows * inner_cols(c) && z.ri <= m
            &&& z.opart == larger(
                larger(rows, 64) * own_heads(c) * d.ns_pre * hd,
                own_heads(c) * 64 * hd,
            ) && z.opart <= m
            &&& z.mlpart == larger(
                larger(rows, 64) * own_heads(c) * d.ns_pre * 2,
                own_heads(c) * 64 * 2,
            ) && z.mlpart <= m
            &&& z.merge == larger(d.dbatch as int, 1) * c.heads && z.merge <= m
            &&& z.dv == d.dbatch * c.vocab && z.dv <= m
            &&& z.amax == d.dbatch * (if k.fuse_argmax { larger(n_cu as int, 64) } else { 64 })
                && z.amax * 8 <= u64::MAX
            &&& z.mh == mr * c.hidden && z.mh <= m
            &&& z.mk == mr * c.top_k && z.mk <= m
            &&& z.de == d.dbatch * c.n_exp && z.de <= m
            &&& z.dkm == d.dbatch * c.top_k * c.moe_inter && z.dkm <= m
            &&& z.mkh == mr * c.top_k * c.hidden && z.mkh <= m
            &&& z.meta == 3 * c.n_exp + 2 && z.meta <= m
            &&& z.pad == pad && z.pad <= m
            &&& z.padm == pad * c.moe_inter && z.padm <= m
        }),
{
    let rows = smaller(d.ctx as int, chunk_of(k, c.window as int));
    crate::shape::chunk_is_a_power_of_two(k, c.window as int);
    let hd = larger(c.hd_slide as int, c.hd_full as int);
    let mr = larger(if c.moe && d.moe_pf { rows } else { 1 }, d.dbatch as int);
    let pad = mr * c.top_k + c.n_exp * 128;
    let h = own_heads(c);
    let wide = larger(rows, 64);
    crate::arith::mul_le(c.vocab as int, c.hidden as int, c.vocab as int, c.hidden as int);
    crate::arith::mul_le(rows, c.hidden as int, rows, c.hidden as int);
    crate::arith::mul_le(h, hd, h, hd);
    crate::arith::mul_le(h * hd, rows, h * hd, rows);
    let a = if c.tp <= c.kvh_slide { (c.kvh_slide / c.tp) as int } else { 1 };
    let b = if c.tp <= c.kvh_full { (c.kvh_full / c.tp) as int } else { 1 };
    crate::arith::mul_le(a, c.hd_slide as int, a, c.hd_slide as int);
    crate::arith::mul_le(b, c.hd_full as int, b, c.hd_full as int);
    crate::arith::mul_le(widest_keys(c), rows, widest_keys(c), rows);
    crate::arith::mul_le(rows, inner_cols(c), rows, inner_cols(c));
    crate::arith::mul_le(wide, h, wide, h);
    crate::arith::mul_le(wide * h, d.ns_pre as int, wide * h, d.ns_pre as int);
    crate::arith::mul_le(wide * h * d.ns_pre, hd, wide * h * d.ns_pre, hd);
    crate::arith::mul_le(h * 64, hd, h * 64, hd);
    crate::arith::mul_le(larger(d.dbatch as int, 1), c.heads as int, larger(d.dbatch as int, 1), c.heads as int);
    crate::arith::mul_le(d.dbatch as int, c.vocab as int, d.dbatch as int, c.vocab as int);
    let parts = if k.fuse_argmax { larger(n_cu as int, 64) } else { 64 };
    crate::arith::mul_le(d.dbatch as int, parts, d.dbatch as int, parts);
    crate::arith::mul_le(mr, c.hidden as int, mr, c.hidden as int);
    crate::arith::mul_le(mr, c.top_k as int, mr, c.top_k as int);
    crate::arith::mul_le(d.dbatch as int, c.n_exp as int, d.dbatch as int, c.n_exp as int);
    crate::arith::mul_le(d.dbatch as int, c.top_k as int, d.dbatch as int, c.top_k as int);
    crate::arith::mul_le(d.dbatch * c.top_k, c.moe_inter as int, d.dbatch * c.top_k, c.moe_inter as int);
    crate::arith::mul_le(mr * c.top_k, c.hidden as int, mr * c.top_k, c.hidden as int);
    crate::arith::mul_le(pad, c.moe_inter as int, pad, c.moe_inter as int);
}


/// The inputs, the rotation tables, the embedding, the last norm and the head are the tensors of
/// those names. A tied model has no head of its own, and a narrow one where that is asked for.
#[verifier::rlimit(40)]
pub proof fn inputs_have_their_names(k: EmitConfig, c: Cfg, n_cu: u32, d: DeclareFor, rope: RopeBytes)
    requires
        declare_ok(k, c, n_cu, d),
    ensures
        ({
            let t = decls_up_to(k, c, n_cu, d, rope, c.layers as int);
            let n = shared_handles(k, c, d, sizes_of(k, c, n_cu, d), rope);
            let rows = smaller(d.ctx as int, chunk_of(k, c.window as int));
            let wide = widest_query(c);
            let keys = widest_keys(c);
            let hd = larger(c.hd_slide as int, c.hd_full as int);
            let mr = larger(if c.moe && d.moe_pf { rows } else { 1 }, d.dbatch as int);
            let pad = mr * c.top_k + c.n_exp * 128;
            &&& names(t, true, n.ids, "in.ids"@, 4 * d.ctx)
            &&& names(t, true, n.pos, "in.pos"@, 4 * d.ctx)
            &&& names(t, true, n.kvlen, "in.kvlen"@, 4 * d.dbatch)
            &&& names(t, true, n.cos_s, "in.cos_slide"@, rope.cos_slide as int)
            &&& names(t, true, n.sin_s, "in.sin_slide"@, rope.sin_slide as int)
            &&& names(t, true, n.cos_f, "in.cos_full"@, rope.cos_full as int)
            &&& names(t, true, n.sin_f, "in.sin_full"@, rope.sin_full as int)
            &&& names(t, true, n.emb, c.prefix@ + "embed_tokens.weight"@, 2 * (c.vocab * c.hidden))
            &&& names(t, true, n.fin, c.prefix@ + "norm.weight"@, 2 * c.hidden)
            &&& names(t, !c.tied, n.head, "lm_head.weight"@, 2 * (c.vocab * c.hidden))
            &&& names(t, c.tied && k.fp8_head, n.head8, "fp8/"@ + (c.prefix@ + "embed_tokens.weight"@), c.vocab * c.hidden)
            &&& names(t, c.tied && k.fp8_head, n.head8s, "fp8/"@ + (c.prefix@ + "embed_tokens.weight_scale"@), 4 * c.vocab)
            &&& t[n.cos_s as int].gen == Gen::CosSlide
            &&& t[n.sin_s as int].gen == Gen::SinSlide
            &&& t[n.cos_f as int].gen == Gen::CosFull
            &&& t[n.sin_f as int].gen == Gen::SinFull
            &&& t[n.emb as int].gen == Gen::Stored
        }),
{
    reveal(input_slots);
    let z = sizes_of(k, c, n_cu, d);
    let s = input_slots(k, c, d, z, rope);
    let b: Seq<DeclView> = Seq::empty();
    let t = decls_up_to(k, c, n_cu, d, rope, c.layers as int);
    shared_parts_stay(k, c, n_cu, d, rope, 0);
    table_goes_on(k, c, n_cu, d, rope, 0, c.layers as int);
    prefixes_chain(shared_decls(k, c, d, z, rope, 0), shared_decls(k, c, d, z, rope, 3), t);
    assert(b + present(s) =~= shared_decls(k, c, d, z, rope, 0));
    shared_sizes_are_small(k, c, n_cu, d);
    slot_names(s, b, t, 0);
    slot_names(s, b, t, 1);
    slot_names(s, b, t, 2);
    slot_names(s, b, t, 3);
    slot_names(s, b, t, 4);
    slot_names(s, b, t, 5);
    slot_names(s, b, t, 6);
    slot_names(s, b, t, 7);
    slot_names(s, b, t, 8);
    slot_names(s, b, t, 9);
    slot_names(s, b, t, 10);
    slot_names(s, b, t, 11);
}

/// Each activation is the tensor of its name, and holds the rows of the widest program times what its
/// rows hold on one device.
#[verifier::rlimit(40)]
pub proof fn activations_have_their_names(k: EmitConfig, c: Cfg, n_cu: u32, d: DeclareFor, rope: RopeBytes)
    requires
        declare_ok(k, c, n_cu, d),
    ensures
        ({
            let t = decls_up_to(k, c, n_cu, d, rope, c.layers as int);
            let n = shared_handles(k, c, d, sizes_of(k, c, n_cu, d), rope);
            let rows = smaller(d.ctx as int, chunk_of(k, c.window as int));
            let wide = widest_query(c);
            let keys = widest_keys(c);
            let hd = larger(c.hd_slide as int, c.hd_full as int);
            let mr = larger(if c.moe && d.moe_pf { rows } else { 1 }, d.dbatch as int);
            let pad = mr * c.top_k + c.n_exp * 128;
            &&& names(t, true, n.x, "act."@ + "x"@, 2 * (rows * c.hidden))
            &&& names(t, d.nrn_fold, n.xr, "act."@ + "xr"@, 2 * (rows * c.hidden))
            &&& names(t, d.merge_fold, n.mrgc, "act."@ + "mrgc"@, 4 * (larger(d.dbatch as int, 1) * c.heads))
            &&& names(t, true, n.hn, "act."@ + "hn"@, 2 * (rows * c.hidden))
            &&& names(t, true, n.qg, "act."@ + "qg"@, 2 * (wide * rows))
            &&& names(t, true, n.kg, "act."@ + "kg"@, 2 * (keys * rows))
            &&& names(t, true, n.vg, "act."@ + "vg"@, 2 * (keys * rows))
            &&& names(t, true, n.q, "act."@ + "q"@, 2 * (wide * rows))
            &&& names(t, true, n.opart, "act."@ + "opart"@, 4 * larger(larger(rows, 64) * own_heads(c) * d.ns_pre * hd, own_heads(c) * 64 * hd))
            &&& names(t, true, n.mlpart, "act."@ + "mlpart"@, 4 * larger(larger(rows, 64) * own_heads(c) * d.ns_pre * 2, own_heads(c) * 64 * 2))
            &&& names(t, true, n.at, "act."@ + "at"@, 2 * (wide * rows))
            &&& names(t, true, n.og, "act."@ + "og"@, 2 * (rows * c.hidden))
            &&& names(t, true, n.gt, "act."@ + "gt"@, 2 * (rows * inner_cols(c)))
            &&& names(t, true, n.ut, "act."@ + "ut"@, 2 * (rows * inner_cols(c)))
            &&& names(t, true, n.fu, "act."@ + "fu"@, 2 * (rows * inner_cols(c)))
            &&& names(t, true, n.dg, "act."@ + "dg"@, 2 * (rows * c.hidden))
            &&& names(t, true, n.logits, "act."@ + "logits"@, 2 * (d.dbatch * c.vocab))
            &&& names(t, true, n.amax, "act."@ + "amax.part"@, 8 * (d.dbatch * (if k.fuse_argmax { larger(n_cu as int, 64) } else { 64 })))
            &&& names(t, c.tp > 1, n.og_tp, "act."@ + "og_tp"@, 2 * (rows * c.hidden))
            &&& names(t, c.tp > 1, n.dg_tp, "act."@ + "dg_tp"@, 2 * (rows * c.hidden))
        }),
{
    reveal(act_slots);
    let z = sizes_of(k, c, n_cu, d);
    let s = act_slots(k, c, d, z, rope);
    let b: Seq<DeclView> = shared_decls(k, c, d, z, rope, 0);
    let t = decls_up_to(k, c, n_cu, d, rope, c.layers as int);
    shared_parts_stay(k, c, n_cu, d, rope, 1);
    table_goes_on(k, c, n_cu, d, rope, 0, c.layers as int);
    prefixes_chain(shared_decls(k, c, d, z, rope, 1), shared_decls(k, c, d, z, rope, 3), t);
    assert(b + present(s) =~= shared_decls(k, c, d, z, rope, 1));
    shared_sizes_are_small(k, c, n_cu, d);
    slot_names(s, b, t, 0);
    slot_names(s, b, t, 1);
    slot_names(s, b, t, 2);
    slot_names(s, b, t, 3);
    slot_names(s, b, t, 4);
    slot_names(s, b, t, 5);
    slot_names(s, b, t, 6);
    slot_names(s, b, t, 7);
    slot_names(s, b, t, 8);
    slot_names(s, b, t, 9);
    slot_names(s, b, t, 10);
    slot_names(s, b, t, 11);
    slot_names(s, b, t, 12);
    slot_names(s, b, t, 13);
    slot_names(s, b, t, 14);
    slot_names(s, b, t, 15);
    slot_names(s, b, t, 16);
    slot_names(s, b, t, 17);
    slot_names(s, b, t, 18);
    slot_names(s, b, t, 19);
}

/// Each activation of a mixture is the tensor of its name, and holds its rows, or its rows sorted by
/// expert and padded to a tile.
#[verifier::rlimit(40)]
pub proof fn expert_activations_have_their_names(k: EmitConfig, c: Cfg, n_cu: u32, d: DeclareFor, rope: RopeBytes)
    requires
        declare_ok(k, c, n_cu, d),
    ensures
        ({
            let t = decls_up_to(k, c, n_cu, d, rope, c.layers as int);
            let n = shared_handles(k, c, d, sizes_of(k, c, n_cu, d), rope);
            let rows = smaller(d.ctx as int, chunk_of(k, c.window as int));
            let wide = widest_query(c);
            let keys = widest_keys(c);
            let hd = larger(c.hd_slide as int, c.hd_full as int);
            let mr = larger(if c.moe && d.moe_pf { rows } else { 1 }, d.dbatch as int);
            let pad = mr * c.top_k + c.n_exp * 128;
            &&& names(t, c.moe, n.moe_h1, "act."@ + "moe.h1"@, 2 * (mr * c.hidden))
            &&& names(t, c.moe, n.moe_tab, "act."@ + "moe.table"@, 8 * (mr * c.top_k))
            &&& names(t, c.moe, n.moe_rscore, "act."@ + "moe.router_score"@, 4 * (d.dbatch * c.n_exp))
            &&& names(t, c.moe, n.moe_xn2, "act."@ + "moe.xn2"@, 2 * (mr * c.hidden))
            &&& names(t, c.moe, n.moe_mfu, "act."@ + "moe.mfu"@, 2 * (d.dbatch * c.top_k * c.moe_inter))
            &&& names(t, c.moe, n.moe_part, "act."@ + "moe.part"@, 4 * (mr * c.top_k * c.hidden))
            &&& names(t, c.moe, n.moe_sum, "act."@ + "moe.sum"@, 2 * c.hidden)
            &&& names(t, c.moe, n.moe_h2, "act."@ + "moe.h2"@, 2 * c.hidden)
            &&& names(t, c.moe, n.moe_comb, "act."@ + "moe.comb"@, 2 * (mr * c.hidden))
            &&& names(t, c.moe && d.moe_pf, n.moe_meta, "act."@ + "moe.meta"@, 4 * (3 * c.n_exp + 2))
            &&& names(t, c.moe && d.moe_pf, n.moe_rowtok, "act."@ + "moe.rowtok"@, 4 * pad)
            &&& names(t, c.moe && d.moe_pf, n.moe_rowpart, "act."@ + "moe.rowpart"@, 4 * pad)
            &&& names(t, c.moe && d.moe_pf, n.moe_rowgate, "act."@ + "moe.rowgate"@, 4 * pad)
            &&& names(t, c.moe && d.moe_pf, n.moe_fug, "act."@ + "moe.fug"@, 2 * (pad * c.moe_inter))
            &&& names(t, c.moe && d.moe_pf && d.w8a8, n.moe_fuq, "act."@ + "moe.fuq"@, pad * c.moe_inter)
            &&& names(t, c.moe && d.moe_pf && d.w8a8, n.moe_fus, "act."@ + "moe.fus"@, 4 * pad)
        }),
{
    reveal(moe_slots);
    let z = sizes_of(k, c, n_cu, d);
    let s = moe_slots(k, c, d, z, rope);
    let b: Seq<DeclView> = shared_decls(k, c, d, z, rope, 1);
    let t = decls_up_to(k, c, n_cu, d, rope, c.layers as int);
    shared_parts_stay(k, c, n_cu, d, rope, 2);
    table_goes_on(k, c, n_cu, d, rope, 0, c.layers as int);
    prefixes_chain(shared_decls(k, c, d, z, rope, 2), shared_decls(k, c, d, z, rope, 3), t);
    assert(b + present(s) =~= shared_decls(k, c, d, z, rope, 2));
    shared_sizes_are_small(k, c, n_cu, d);
    slot_names(s, b, t, 0);
    slot_names(s, b, t, 1);
    slot_names(s, b, t, 2);
    slot_names(s, b, t, 3);
    slot_names(s, b, t, 4);
    slot_names(s, b, t, 5);
    slot_names(s, b, t, 6);
    slot_names(s, b, t, 7);
    slot_names(s, b, t, 8);
    slot_names(s, b, t, 9);
    slot_names(s, b, t, 10);
    slot_names(s, b, t, 11);
    slot_names(s, b, t, 12);
    slot_names(s, b, t, 13);
    slot_names(s, b, t, 14);
    slot_names(s, b, t, 15);
}

/// Each narrow copy of an activation is the tensor of its name, a byte to an element, with a number to
/// a row beside it.
#[verifier::rlimit(40)]
pub proof fn narrow_copies_have_their_names(k: EmitConfig, c: Cfg, n_cu: u32, d: DeclareFor, rope: RopeBytes)
    requires
        declare_ok(k, c, n_cu, d),
    ensures
        ({
            let t = decls_up_to(k, c, n_cu, d, rope, c.layers as int);
            let n = shared_handles(k, c, d, sizes_of(k, c, n_cu, d), rope);
            let rows = smaller(d.ctx as int, chunk_of(k, c.window as int));
            let wide = widest_query(c);
            let keys = widest_keys(c);
            let hd = larger(c.hd_slide as int, c.hd_full as int);
            let mr = larger(if c.moe && d.moe_pf { rows } else { 1 }, d.dbatch as int);
            let pad = mr * c.top_k + c.n_exp * 128;
            &&& names(t, d.w8a8, n.xqh, "act."@ + "xqh"@, rows * c.hidden)
            &&& names(t, d.w8a8, n.ash, "act."@ + "ash"@, 4 * rows)
            &&& names(t, d.w8a8, n.xqo, "act."@ + "xqo"@, wide * rows)
            &&& names(t, d.w8a8, n.aso, "act."@ + "aso"@, 4 * rows)
            &&& names(t, d.w8a8, n.xqi, "act."@ + "xqi"@, rows * inner_cols(c))
            &&& names(t, d.w8a8, n.asi, "act."@ + "asi"@, 4 * rows)
        }),
{
    reveal(narrow_act_slots);
    let z = sizes_of(k, c, n_cu, d);
    let s = narrow_act_slots(k, c, d, z, rope);
    let b: Seq<DeclView> = shared_decls(k, c, d, z, rope, 2);
    let t = decls_up_to(k, c, n_cu, d, rope, c.layers as int);
    shared_parts_stay(k, c, n_cu, d, rope, 3);
    table_goes_on(k, c, n_cu, d, rope, 0, c.layers as int);
    prefixes_chain(shared_decls(k, c, d, z, rope, 3), shared_decls(k, c, d, z, rope, 3), t);
    assert(b + present(s) =~= shared_decls(k, c, d, z, rope, 3));
    shared_sizes_are_small(k, c, n_cu, d);
    slot_names(s, b, t, 0);
    slot_names(s, b, t, 1);
    slot_names(s, b, t, 2);
    slot_names(s, b, t, 3);
    slot_names(s, b, t, 4);
    slot_names(s, b, t, 5);
}

} // verus!
