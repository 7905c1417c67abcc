//! The tensors of a dense model, in the order in which they are numbered.
use vstd::prelude::*;

use crate::builder::TmapDecl;
use crate::arith::{ceil_div, div_ceil, larger, max_u32, min_u32, smaller, POW2_TOP};
use crate::config::{Arch, Cfg};
use crate::emit_config::EmitConfig;
use crate::isa::TENSOR_NONE;
use crate::shape::{
    argmax_parts, chunk_of, chunk_ok, fuse_argmax_parts, kv_heads_split, kv_ring, kvh_local,
    local_kv_heads, max_chunk, ring_of, ring_ok, BF16, F32, I32,
};
use crate::tensors::{LayerCache, Tensors, Tn, LW};
use crate::text::{dec, join2, numbered, push_dec, text};

verus! {

/// Where a tensor's contents come from: stored or written by a program, a rotation table, or a
/// tensor map.
#[derive(Clone, Copy, PartialEq, Eq, Debug, Structural)]
pub enum Gen {
    Stored,
    CosSlide,
    SinSlide,
    CosFull,
    SinFull,
    Tmap(TmapDecl),
}

/// A declared tensor.
pub struct TensorDecl {
    pub name: String,
    pub bytes: u64,
    pub gen: Gen,
}

/// The value of a [`TensorDecl`].
pub struct DeclView {
    pub name: Seq<char>,
    pub bytes: u64,
    pub gen: Gen,
}

impl View for TensorDecl {
    type V = DeclView;

    open spec fn view(&self) -> DeclView {
        DeclView { name: self.name@, bytes: self.bytes, gen: self.gen }
    }
}

/// The values of a list of tensors.
pub open spec fn decls_view(d: Seq<TensorDecl>) -> Seq<DeclView> {
    Seq::new(d.len(), |i: int| d[i]@)
}

/// A tensor that a model may have.
pub struct Slot {
    pub on: bool,
    pub decl: TensorDecl,
}

/// The value of a [`Slot`].
pub struct SlotView {
    pub on: bool,
    pub decl: DeclView,
}

/// The values of a list of slots.
pub open spec fn slots_view(v: Seq<Slot>) -> Seq<SlotView> {
    Seq::new(v.len(), |i: int| SlotView { on: v[i].on, decl: v[i].decl@ })
}

/// A slot.
pub open spec fn slot(on: bool, name: Seq<char>, bytes: u64, gen: Gen) -> SlotView {
    SlotView { on, decl: DeclView { name, bytes, gen } }
}

fn add_slot(v: &mut Vec<Slot>, on: bool, name: String, bytes: u64, gen: Gen)
    ensures
        slots_view(final(v)@) == slots_view(old(v)@).push(slot(on, name@, bytes, gen)),
{
    let ghost s = slot(on, name@, bytes, gen);
    v.push(Slot { on, decl: TensorDecl { name, bytes, gen } });
    proof {
        assert(slots_view(v@) =~= slots_view(old(v)@).push(s));
    }
}

/// The tensors that the slots give, in order.
pub open spec fn present(s: Seq<SlotView>) -> Seq<DeclView>
    decreases s.len(),
{
    if s.len() == 0 {
        Seq::empty()
    } else if s.last().on {
        present(s.drop_last()).push(s.last().decl)
    } else {
        present(s.drop_last())
    }
}

/// The handle of slot `i` where numbering starts at `base`: its place among the tensors, or
/// `TENSOR_NONE` where the model does not have it.
pub open spec fn handle(s: Seq<SlotView>, base: int, i: int) -> u32 {
    if s[i].on { (base + present(s.take(i)).len()) as u32 } else { TENSOR_NONE }
}

/// A slot's handle names its tensor: the model's list holds the slot's tensor at that place.
pub proof fn a_handle_names_its_tensor(s: Seq<SlotView>, before: Seq<DeclView>, i: int)
    requires
        0 <= i < s.len(),
        s[i].on,
        before.len() + present(s).len() < TENSOR_NONE,
    ensures
        handle(s, before.len() as int, i) != TENSOR_NONE,
        handle(s, before.len() as int, i) < before.len() + present(s).len(),
        (before + present(s))[handle(s, before.len() as int, i) as int] == s[i].decl,
    decreases s.len(),
{
    let t = s.drop_last();
    if i < s.len() - 1 {
        present_grows(s);
        a_handle_names_its_tensor(t, before, i);
        assert(t.take(i) =~= s.take(i));
        assert((before + present(t))[handle(t, before.len() as int, i) as int] == (before + present(
            s,
        ))[handle(t, before.len() as int, i) as int]);
    } else {
        assert(s.take(i) =~= t);
    }
}

proof fn present_grows(s: Seq<SlotView>)
    requires
        s.len() > 0,
    ensures
        present(s.drop_last()).len() <= present(s).len() <= present(s.drop_last()).len() + 1,
        present(s.drop_last()).is_prefix_of(present(s)),
{
}

/// No more tensors than slots.
pub proof fn present_is_bounded(s: Seq<SlotView>)
    ensures
        present(s).len() <= s.len(),
    decreases s.len(),
{
    if s.len() > 0 {
        present_is_bounded(s.drop_last());
    }
}

/// Two slots of a model never share a handle.
pub proof fn handles_are_distinct(s: Seq<SlotView>, base: int, i: int, j: int)
    requires
        0 <= i < j < s.len(),
        s[i].on,
        s[j].on,
        0 <= base,
        base + s.len() < TENSOR_NONE,
    ensures
        handle(s, base, i) != handle(s, base, j),
{
    present_order(s, i, j);
    present_is_bounded(s.take(i));
    present_is_bounded(s.take(j));
}

proof fn present_order(s: Seq<SlotView>, i: int, j: int)
    requires
        0 <= i < j <= s.len(),
        s[i].on,
    ensures
        present(s.take(i)).len() < present(s.take(j)).len(),
    decreases j - i,
{
    let t = s.take(j);
    assert(t.drop_last() =~= s.take(j - 1));
    if j == i + 1 {
        assert(t.last() == s[i]);
    } else {
        present_order(s, i, j - 1);
        present_grows(t);
    }
}

/// Numbers the slots after the tensors there are, and appends those that the model has.
fn place(decls: &mut Vec<TensorDecl>, slots: Vec<Slot>) -> (r: Vec<u32>)
    requires
        old(decls)@.len() + slots@.len() < TENSOR_NONE,
    ensures
        decls_view(final(decls)@) == decls_view(old(decls)@) + present(slots_view(slots@)),
        r@.len() == slots@.len(),
        forall|i: int|
            0 <= i < slots@.len() ==> (#[trigger] r@[i]) == handle(
                slots_view(slots@),
                old(decls)@.len() as int,
                i,
            ),
        final(decls)@.len() <= old(decls)@.len() + slots@.len(),
{
    let ghost all = slots_view(slots@);
    let mut r: Vec<u32> = Vec::new();
    let mut i: usize = 0;
    proof {
        assert(decls_view(decls@) =~= decls_view(old(decls)@) + present(all.take(0)));
    }
    while i < slots.len()
        invariant
            i <= slots@.len(),
            all == slots_view(slots@),
            old(decls)@.len() + slots@.len() < TENSOR_NONE,
            decls_view(decls@) == decls_view(old(decls)@) + present(all.take(i as int)),
            decls@.len() == old(decls)@.len() + present(all.take(i as int)).len(),
            decls@.len() <= old(decls)@.len() + i,
            r@.len() == i,
            forall|j: int|
                0 <= j < i ==> (#[trigger] r@[j]) == handle(all, old(decls)@.len() as int, j),
        decreases slots@.len() - i,
    {
        proof {
            assert(all.take(i + 1).drop_last() =~= all.take(i as int));
            assert(all.take(i + 1).last() == all[i as int]);
        }
        if slots[i].on {
            let ghost before = decls_view(decls@);
            r.push(decls.len() as u32);
            let d = &slots[i].decl;
            decls.push(TensorDecl { name: d.name.clone(), bytes: d.bytes, gen: d.gen });
            proof {
                assert(decls_view(decls@) =~= before.push(all[i as int].decl));
                assert(decls_view(decls@) =~= decls_view(old(decls)@) + present(
                    all.take(i + 1),
                ));
            }
        } else {
            r.push(TENSOR_NONE);
        }
        i = i + 1;
    }
    proof {
        assert(all.take(slots@.len() as int) =~= all);
    }
    r
}

/// An activation's name.
pub open spec fn act_name(n: Seq<char>) -> Seq<char> {
    "act."@ + n
}

/// The name of a weight's narrow twin: the weight's name behind a prefix.
pub open spec fn narrow_name(n: Seq<char>) -> Seq<char> {
    "fp8/"@ + n
}

/// The name of a weight's four-bit twin.
pub open spec fn mx_name(n: Seq<char>) -> Seq<char> {
    "mxfp4/"@ + n
}

/// The name of a tensor's scales: the whole name, then a suffix.
pub open spec fn scale_name(n: Seq<char>) -> Seq<char> {
    n + "_scale"@
}

/// The name of a layer's tensor.
pub open spec fn layer_name(prefix: Seq<char>, l: u32, s: Seq<char>) -> Seq<char> {
    prefix + "layers."@ + dec(l as nat) + "."@ + s
}

/// A layer's number between two texts.
pub open spec fn numbered_name(a: Seq<char>, l: u32, b: Seq<char>) -> Seq<char> {
    a + dec(l as nat) + b
}

fn act(n: &str) -> (r: String)
    ensures
        r@ == act_name(n@),
{
    join2("act.", n)
}

/// The name of a weight's narrow twin.
pub fn fp8_twin(n: &str) -> (r: String)
    ensures
        r@ == narrow_name(n@),
{
    join2("fp8/", n)
}

/// The name of a tensor's scales.
pub fn scale_of(n: &str) -> (r: String)
    ensures
        r@ == scale_name(n@),
{
    join2(n, "_scale")
}

/// The twin's name ends in the weight's own name, whatever that is, and two weights never share a
/// twin.
pub proof fn a_twin_keeps_the_name(m: Seq<char>, n: Seq<char>)
    ensures
        narrow_name(n).subrange(4, narrow_name(n).len() as int) == n,
        narrow_name(m) == narrow_name(n) ==> m == n,
        scale_name(narrow_name(n)).take(narrow_name(n).len() as int) == narrow_name(n),
{
    reveal_strlit("fp8/");
    assert(narrow_name(n).subrange(4, narrow_name(n).len() as int) =~= n);
    assert(narrow_name(m).subrange(4, narrow_name(m).len() as int) =~= m);
    assert(scale_name(narrow_name(n)).take(narrow_name(n).len() as int) =~= narrow_name(n));
}

fn in_layer(prefix: &str, l: u32, s: &str) -> (r: String)
    ensures
        r@ == layer_name(prefix@, l, s@),
{
    let mut r: String = join2(prefix, "layers.");
    push_dec(&mut r, l as u64);
    r.append(".");
    r.append(s);
    r
}

/// What a model's tensors are declared for.
#[derive(Clone, Copy, PartialEq, Eq, Debug, Structural)]
pub struct DeclareFor {
    pub ctx: u32,
    /// Splits of the widest prefill's attention.
    pub ns_pre: u32,
    pub fp8: bool,
    pub w8a8: bool,
    /// Whether the weights are four bits wide.
    pub mx: bool,
    pub fp8_kv: bool,
    pub fp8_kv_full: bool,
    /// Rows of the widest decode step.
    pub dbatch: u32,
    pub moe_pf: bool,
    /// The layers `first..end` whose tensors are needed.
    pub first: u32,
    pub end: u32,
    pub nrn_fold: bool,
    pub merge_fold: bool,
}

impl DeclareFor {
    /// Whether the projections' weights are narrow.
    pub open spec fn narrow(self) -> bool {
        self.fp8 || self.mx
    }

    /// The name of a projection's narrow weight.
    pub open spec fn twin_name(self, n: Seq<char>) -> Seq<char> {
        if self.mx { mx_name(n) } else { narrow_name(n) }
    }

    /// Bytes of a narrow weight of so many elements.
    pub open spec fn twin_bytes(self, cells: u64) -> u64 {
        if self.mx { cells / 2 } else { cells }
    }

    /// Bytes of a narrow weight's scales: one byte to thirty-two columns of each row where the
    /// weight is four bits wide, else four bytes to a row.
    pub open spec fn scale_bytes(self, rows: u64, groups: u64) -> u64 {
        (if self.mx { rows * groups } else { rows * F32 }) as u64
    }

    fn twin(self, n: &str) -> (r: String)
        ensures
            r@ == self.twin_name(n@),
    {
        if self.mx { join2("mxfp4/", n) } else { fp8_twin(n) }
    }

    fn twin_size(self, cells: u64) -> (r: u64)
        ensures
            r == self.twin_bytes(cells),
    {
        if self.mx { cells / 2 } else { cells }
    }

    fn scale_size(self, rows: u64, groups: u64) -> (r: u64)
        requires
            rows <= u32::MAX,
            groups <= u32::MAX,
        ensures
            r == self.scale_bytes(rows, groups),
    {
        proof {
            crate::arith::mul_le(rows as int, groups as int, u32::MAX as int, u32::MAX as int);
        }
        if self.mx { rows * groups } else { rows * F32 }
    }
}

/// Bytes of the rotation tables.
#[derive(Clone, Copy, PartialEq, Eq, Debug, Structural)]
pub struct RopeBytes {
    pub cos_slide: u64,
    pub sin_slide: u64,
    pub cos_full: u64,
    pub sin_full: u64,
}

/// Element counts of the shared tensors.
#[derive(Clone, Copy, PartialEq, Eq, Debug, Structural)]
pub struct Sizes {
    pub ctx: u64,
    pub db: u64,
    pub rows: u64,
    pub hidden: u64,
    pub vocab: u64,
    pub vh: u64,
    pub rh: u64,
    pub rq: u64,
    pub rk: u64,
    pub ri: u64,
    pub opart: u64,
    pub mlpart: u64,
    pub merge: u64,
    pub dv: u64,
    pub amax: u64,
    pub mh: u64,
    pub mk: u64,
    pub de: u64,
    pub dkm: u64,
    pub mkh: u64,
    pub meta: u64,
    pub pad: u64,
    pub padm: u64,
}

/// The widest head of either kind of layer.
pub open spec fn widest_head(c: Cfg) -> int {
    larger(c.hd_slide as int, c.hd_full as int)
}

/// The widest key of either kind of layer, on one device.
pub open spec fn widest_key(c: Cfg) -> int {
    larger(
        local_kv_heads(c.kvh_slide as int, c.tp as int) * c.hd_slide,
        local_kv_heads(c.kvh_full as int, c.tp as int) * c.hd_full,
    )
}

/// Rows that a program's activations hold.
pub open spec fn act_rows(k: EmitConfig, c: Cfg, ctx: u32) -> int {
    smaller(ctx as int, chunk_of(k, c.window as int))
}

/// Rows that a mixture's activations hold.
pub open spec fn moe_rows(k: EmitConfig, c: Cfg, d: DeclareFor) -> int {
    larger(if c.moe && d.moe_pf { act_rows(k, c, d.ctx) } else { 1 }, d.dbatch as int)
}

/// Rows of a mixture's products, each expert's padded to a tile.
pub open spec fn moe_pad(k: EmitConfig, c: Cfg, d: DeclareFor) -> int {
    moe_rows(k, c, d) * c.top_k + c.n_exp * 128
}

/// Partial results of a split attention: one for each row, head and split, and room for sixty-four
/// splits of a decode row.
pub open spec fn part_cells(k: EmitConfig, c: Cfg, d: DeclareFor, width: int) -> int {
    let hs = (c.heads / c.tp) as int;
    larger(
        larger(act_rows(k, c, d.ctx), 64) * hs * d.ns_pre * width,
        hs * 64 * width,
    )
}

/// Element counts of the shared tensors.
pub open spec fn sizes_of(k: EmitConfig, c: Cfg, n_cu: u32, d: DeclareFor) -> Sizes {
    let rows = act_rows(k, c, d.ctx);
    let hs = (c.heads / c.tp) as int;
    let qd = hs * widest_head(c);
    let mr = moe_rows(k, c, d);
    let pad = moe_pad(k, c, d);
    Sizes {
        ctx: d.ctx as u64,
        db: d.dbatch as u64,
        rows: rows as u64,
        hidden: c.hidden as u64,
        vocab: c.vocab as u64,
        vh: (c.vocab * c.hidden) as u64,
        rh: (rows * c.hidden) as u64,
        rq: (qd * rows) as u64,
        rk: (widest_key(c) * rows) as u64,
        ri: (rows * (c.inter / c.tp)) as u64,
        opart: part_cells(k, c, d, widest_head(c)) as u64,
        mlpart: part_cells(k, c, d, 2) as u64,
        merge: (larger(d.dbatch as int, 1) * c.heads) as u64,
        dv: (d.dbatch * c.vocab) as u64,
        amax: (d.dbatch * argmax_parts(k, n_cu as int)) as u64,
        mh: (mr * c.hidden) as u64,
        mk: (mr * c.top_k) as u64,
        de: (d.dbatch * c.n_exp) as u64,
        dkm: (d.dbatch * c.top_k * c.moe_inter) as u64,
        mkh: (mr * c.top_k * c.hidden) as u64,
        meta: (3 * c.n_exp + 2) as u64,
        pad: pad as u64,
        padm: (pad * c.moe_inter) as u64,
    }
}

/// Whether the shared tensors can be declared: the devices split the model evenly, rows load in
/// eights, and every element count fits thirty-two bits.
pub open spec fn sizes_ok(k: EmitConfig, c: Cfg, n_cu: u32, d: DeclareFor) -> bool {
    let rows = act_rows(k, c, d.ctx);
    let hs = (c.heads / c.tp) as int;
    let qd = hs * widest_head(c);
    let mr = moe_rows(k, c, d);
    let pad = moe_pad(k, c, d);
    let m = u32::MAX as int;
    &&& chunk_ok(k)
    &&& c.window <= POW2_TOP
    &&& c.tp > 0
    &&& c.heads % c.tp == 0
    &&& c.inter % c.tp == 0
    &&& c.hidden % 8 == 0
    &&& c.inter % 8 == 0
    &&& c.hd_slide % 8 == 0
    &&& c.hd_full % 8 == 0
    &&& kv_heads_split(c.kvh_slide as int, c.tp as int)
    &&& kv_heads_split(c.kvh_full as int, c.tp as int)
    &&& qd <= m
    &&& local_kv_heads(c.kvh_slide as int, c.tp as int) * c.hd_slide <= m
    &&& local_kv_heads(c.kvh_full as int, c.tp as int) * c.hd_full <= m
    &&& c.vocab * c.hidden <= m
    &&& rows * c.hidden <= m
    &&& qd * rows <= m
    &&& widest_key(c) * rows <= m
    &&& rows * (c.inter / c.tp) <= m
    &&& larger(rows, 64) * hs * d.ns_pre <= m
    &&& part_cells(k, c, d, widest_head(c)) <= m
    &&& part_cells(k, c, d, 2) <= m
    &&& larger(d.dbatch as int, 1) * c.heads <= m
    &&& d.dbatch * c.vocab <= m
    &&& d.dbatch * argmax_parts(k, n_cu as int) * 8 <= u64::MAX
    &&& mr * c.hidden <= m
    &&& mr * c.top_k <= m
    &&& d.dbatch * c.n_exp <= m
    &&& d.dbatch * c.top_k <= m
    &&& d.dbatch * c.top_k * c.moe_inter <= m
    &&& mr * c.top_k * c.hidden <= m
    &&& 3 * c.n_exp + 2 <= m
    &&& pad <= m
    &&& pad * c.moe_inter <= m
}

fn mul64(a: u32, b: u32) -> (r: u64)
    ensures
        r == a * b,
{
    proof {
        crate::arith::mul_le(a as int, b as int, u32::MAX as int, u32::MAX as int);
    }
    a as u64 * b as u64
}

fn mul_small(a: u64, b: u32) -> (r: u64)
    requires
        a <= u32::MAX,
    ensures
        r == a * b,
{
    proof {
        crate::arith::mul_le(a as int, b as int, u32::MAX as int, u32::MAX as int);
    }
    a * b as u64
}

impl Sizes {
    /// Whether every count of elements fits thirty-two bits.
    pub open spec fn small(self) -> bool {
        let m = u32::MAX;
        &&& self.ctx <= m && self.db <= m && self.rows <= m && self.hidden <= m && self.vocab <= m
        &&& self.vh <= m && self.rh <= m && self.rq <= m && self.rk <= m && self.ri <= m
        &&& self.opart <= m && self.mlpart <= m && self.merge <= m && self.dv <= m
        &&& self.amax * 8 <= u64::MAX
        &&& self.mh <= m && self.mk <= m && self.de <= m && self.dkm <= m && self.mkh <= m
        &&& self.meta <= m && self.pad <= m && self.padm <= m
    }

    pub fn new(k: &EmitConfig, c: &Cfg, n_cu: u32, d: DeclareFor) -> (r: Sizes)
        requires
            sizes_ok(*k, *c, n_cu, d),
        ensures
            r == sizes_of(*k, *c, n_cu, d),
            r.small(),
    {
        let rows: u32 = min_u32(d.ctx, max_chunk(k, c.window));
        let hs: u32 = c.heads / c.tp;
        let hd_max: u32 = max_u32(c.hd_slide, c.hd_full);
        let qd: u64 = mul64(hs, hd_max);
        let ks: u64 = mul64(kvh_local(c.kvh_slide, c.tp), c.hd_slide);
        let kf: u64 = mul64(kvh_local(c.kvh_full, c.tp), c.hd_full);
        let kd: u64 = if ks >= kf { ks } else { kf };
        let mr: u32 = max_u32(if c.moe && d.moe_pf { rows } else { 1 }, d.dbatch);
        let mk: u64 = mul64(mr, c.top_k);
        let pad: u64 = mk + c.n_exp as u64 * 128;
        let inter: u32 = c.inter / c.tp;
        let rows_hs: u64 = mul64(max_u32(rows, 64), hs);
        let ghost wide = larger(act_rows(*k, *c, d.ctx), 64) * (c.heads / c.tp);
        proof {
            assert(wide == rows_hs);
            part_bounds(wide, (c.heads / c.tp) as int, d.ns_pre as int, widest_head(*c));
            part_bounds(wide, (c.heads / c.tp) as int, d.ns_pre as int, 2);
        }
        let parts: u64 = if d.ns_pre == 0 { 0 } else { rows_hs * d.ns_pre as u64 };
        let decode: u64 = hs as u64 * 64;
        let o_a: u64 = mul_small(parts, hd_max);
        let o_b: u64 = decode_cells(hs, hd_max);
        let m_a: u64 = parts * 2;
        let m_b: u64 = decode * 2;
        let am: u32 = fuse_argmax_parts(k, n_cu);
        let dk: u64 = mul64(d.dbatch, c.top_k);
        Sizes {
            ctx: d.ctx as u64,
            db: d.dbatch as u64,
            rows: rows as u64,
            hidden: c.hidden as u64,
            vocab: c.vocab as u64,
            vh: mul64(c.vocab, c.hidden),
            rh: mul64(rows, c.hidden),
            rq: mul_small(qd, rows),
            rk: mul_small(kd, rows),
            ri: mul64(rows, inter),
            opart: if o_a >= o_b { o_a } else { o_b },
            mlpart: if m_a >= m_b { m_a } else { m_b },
            merge: mul64(max_u32(d.dbatch, 1), c.heads),
            dv: mul64(d.dbatch, c.vocab),
            amax: mul64(d.dbatch, am),
            mh: mul64(mr, c.hidden),
            mk,
            de: mul64(d.dbatch, c.n_exp),
            dkm: mul_small(dk, c.moe_inter),
            mkh: mul_small(mk, c.hidden),
            meta: 3 * c.n_exp as u64 + 2,
            pad,
            padm: mul_small(pad, c.moe_inter),
        }
    }
}

fn decode_cells(hs: u32, width: u32) -> (r: u64)
    requires
        hs * 64 * width <= u32::MAX,
    ensures
        r == hs * 64 * width,
{
    if width == 0 {
        proof {
            assert(hs * 64 * width == 0) by (nonlinear_arith)
                requires
                    width == 0,
            ;
        }
        0
    } else {
        proof {
            assert(hs * 64 <= hs * 64 * width) by (nonlinear_arith)
                requires
                    width >= 1,
                    hs >= 0,
            ;
        }
        (hs as u64 * 64) * width as u64
    }
}

proof fn part_bounds(wide: int, hs: int, ns: int, width: int)
    requires
        wide >= 0,
        hs >= 0,
        ns >= 0,
        width >= 0,
    ensures
        wide * ns * width >= 0,
        hs * 64 * width >= 0,
        wide * ns >= 0,
        ns > 0 ==> wide <= wide * ns,
        ns == 0 ==> wide * ns == 0,
{
    assert(wide * ns >= 0) by (nonlinear_arith)
        requires
            wide >= 0,
            ns >= 0,
    ;
    assert(wide * ns * width >= 0) by (nonlinear_arith)
        requires
            wide * ns >= 0,
            width >= 0,
    ;
    assert(hs * 64 * width >= 0) by (nonlinear_arith)
        requires
            hs >= 0,
            width >= 0,
    ;
    assert(ns > 0 ==> wide <= wide * ns) by (nonlinear_arith)
        requires
            wide >= 0,
    ;
    assert(ns == 0 ==> wide * ns == 0) by (nonlinear_arith);
}

/// The shared tensors, part by part: the inputs, the rotation tables and the two ends of the model.
#[verifier::opaque]
pub open spec fn input_slots(k: EmitConfig, c: Cfg, d: DeclareFor, z: Sizes, rope: RopeBytes) -> Seq<
    SlotView,
> {
    seq![
        slot(true, "in.ids"@, (z.ctx * I32) as u64, Gen::Stored),
        slot(true, "in.pos"@, (z.ctx * I32) as u64, Gen::Stored),
        slot(true, "in.kvlen"@, (z.db * I32) as u64, Gen::Stored),
        slot(true, "in.cos_slide"@, rope.cos_slide, Gen::CosSlide),
        slot(true, "in.sin_slide"@, rope.sin_slide, Gen::SinSlide),
        slot(true, "in.cos_full"@, rope.cos_full, Gen::CosFull),
        slot(true, "in.sin_full"@, rope.sin_full, Gen::SinFull),
        slot(true, c.prefix@ + "embed_tokens.weight"@, (z.vh * BF16) as u64, Gen::Stored),
        slot(true, c.prefix@ + "norm.weight"@, (z.hidden * BF16) as u64, Gen::Stored),
        slot(!c.tied, "lm_head.weight"@, (z.vh * BF16) as u64, Gen::Stored),
        slot(c.tied && k.fp8_head, narrow_name(c.prefix@ + "embed_tokens.weight"@), z.vh, Gen::Stored),
        slot(c.tied && k.fp8_head, narrow_name(c.prefix@ + "embed_tokens.weight_scale"@), (z.vocab * F32) as u64, Gen::Stored),
    ]
}

fn make_input_slots(k: &EmitConfig, c: &Cfg, d: DeclareFor, z: Sizes, rope: RopeBytes) -> (r: Vec<
    Slot,
>)
    requires
        z.small(),
    ensures
        slots_view(r@) == input_slots(*k, *c, d, z, rope),
        r@.len() == 12,
{
    proof {
        reveal(input_slots);
    }
    let mut v: Vec<Slot> = Vec::new();
    proof {
        assert(slots_view(v@) =~= Seq::<SlotView>::empty());
    }
    add_slot(&mut v, true, text("in.ids"), z.ctx * I32, Gen::Stored);
    add_slot(&mut v, true, text("in.pos"), z.ctx * I32, Gen::Stored);
    add_slot(&mut v, true, text("in.kvlen"), z.db * I32, Gen::Stored);
    add_slot(&mut v, true, text("in.cos_slide"), rope.cos_slide, Gen::CosSlide);
    add_slot(&mut v, true, text("in.sin_slide"), rope.sin_slide, Gen::SinSlide);
    add_slot(&mut v, true, text("in.cos_full"), rope.cos_full, Gen::CosFull);
    add_slot(&mut v, true, text("in.sin_full"), rope.sin_full, Gen::SinFull);
    add_slot(&mut v, true, join2(c.prefix.as_str(), "embed_tokens.weight"), z.vh * BF16, Gen::Stored);
    add_slot(&mut v, true, join2(c.prefix.as_str(), "norm.weight"), z.hidden * BF16, Gen::Stored);
    add_slot(&mut v, !c.tied, text("lm_head.weight"), z.vh * BF16, Gen::Stored);
    add_slot(&mut v, c.tied && k.fp8_head, fp8_twin(join2(c.prefix.as_str(), "embed_tokens.weight").as_str()), z.vh, Gen::Stored);
    add_slot(&mut v, c.tied && k.fp8_head, fp8_twin(join2(c.prefix.as_str(), "embed_tokens.weight_scale").as_str()), z.vocab * F32, Gen::Stored);
    proof {
        assert(slots_view(v@).len() == v@.len());
    }
    v
}

/// The shared tensors, part by part: the activations.
#[verifier::opaque]
pub open spec fn act_slots(k: EmitConfig, c: Cfg, d: DeclareFor, z: Sizes, rope: RopeBytes) -> Seq<
    SlotView,
> {
    seq![
        slot(true, act_name("x"@), (z.rh * BF16) as u64, Gen::Stored),
        slot(d.nrn_fold, act_name("xr"@), (z.rh * BF16) as u64, Gen::Stored),
        slot(d.merge_fold, act_name("mrgc"@), (z.merge * 4) as u64, Gen::Stored),
        slot(true, act_name("hn"@), (z.rh * BF16) as u64, Gen::Stored),
        slot(true, act_name("qg"@), (z.rq * BF16) as u64, Gen::Stored),
        slot(true, act_name("kg"@), (z.rk * BF16) as u64, Gen::Stored),
        slot(true, act_name("vg"@), (z.rk * BF16) as u64, Gen::Stored),
        slot(true, act_name("q"@), (z.rq * BF16) as u64, Gen::Stored),
        slot(true, act_name("opart"@), (z.opart * F32) as u64, Gen::Stored),
        slot(true, act_name("mlpart"@), (z.mlpart * F32) as u64, Gen::Stored),
        slot(true, act_name("at"@), (z.rq * BF16) as u64, Gen::Stored),
        slot(true, act_name("og"@), (z.rh * BF16) as u64, Gen::Stored),
        slot(true, act_name("gt"@), (z.ri * BF16) as u64, Gen::Stored),
        slot(true, act_name("ut"@), (z.ri * BF16) as u64, Gen::Stored),
        slot(true, act_name("fu"@), (z.ri * BF16) as u64, Gen::Stored),
        slot(true, act_name("dg"@), (z.rh * BF16) as u64, Gen::Stored),
        slot(true, act_name("logits"@), (z.dv * BF16) as u64, Gen::Stored),
        slot(true, act_name("amax.part"@), (z.amax * 8) as u64, Gen::Stored),
        slot(c.tp > 1, act_name("og_tp"@), (z.rh * BF16) as u64, Gen::Stored),
        slot(c.tp > 1, act_name("dg_tp"@), (z.rh * BF16) as u64, Gen::Stored),
    ]
}

fn make_act_slots(k: &EmitConfig, c: &Cfg, d: DeclareFor, z: Sizes, rope: RopeBytes) -> (r: Vec<
    Slot,
>)
    requires
        z.small(),
    ensures
        slots_view(r@) == act_slots(*k, *c, d, z, rope),
        r@.len() == 20,
{
    proof {
        reveal(act_slots);
    }
    let mut v: Vec<Slot> = Vec::new();
    proof {
        assert(slots_view(v@) =~= Seq::<SlotView>::empty());
    }
    add_slot(&mut v, true, act("x"), z.rh * BF16, Gen::Stored);
    add_slot(&mut v, d.nrn_fold, act("xr"), z.rh * BF16, Gen::Stored);
    add_slot(&mut v, d.merge_fold, act("mrgc"), z.merge * 4, Gen::Stored);
    add_slot(&mut v, true, act("hn"), z.rh * BF16, Gen::Stored);
    add_slot(&mut v, true, act("qg"), z.rq * BF16, Gen::Stored);
    add_slot(&mut v, true, act("kg"), z.rk * BF16, Gen::Stored);
    add_slot(&mut v, true, act("vg"), z.rk * BF16, Gen::Stored);
    add_slot(&mut v, true, act("q"), z.rq * BF16, Gen::Stored);
    add_slot(&mut v, true, act("opart"), z.opart * F32, Gen::Stored);
    add_slot(&mut v, true, act("mlpart"), z.mlpart * F32, Gen::Stored);
    add_slot(&mut v, true, act("at"), z.rq * BF16, Gen::Stored);
    add_slot(&mut v, true, act("og"), z.rh * BF16, Gen::Stored);
    add_slot(&mut v, true, act("gt"), z.ri * BF16, Gen::Stored);
    add_slot(&mut v, true, act("ut"), z.ri * BF16, Gen::Stored);
    add_slot(&mut v, true, act("fu"), z.ri * BF16, Gen::Stored);
    add_slot(&mut v, true, act("dg"), z.rh * BF16, Gen::Stored);
    add_slot(&mut v, true, act("logits"), z.dv * BF16, Gen::Stored);
    add_slot(&mut v, true, act("amax.part"), z.amax * 8, Gen::Stored);
    add_slot(&mut v, c.tp > 1, act("og_tp"), z.rh * BF16, Gen::Stored);
    add_slot(&mut v, c.tp > 1, act("dg_tp"), z.rh * BF16, Gen::Stored);
    proof {
        assert(slots_view(v@).len() == v@.len());
    }
    v
}

/// The shared tensors, part by part: the expert activations.
#[verifier::opaque]
pub open spec fn moe_slots(k: EmitConfig, c: Cfg, d: DeclareFor, z: Sizes, rope: RopeBytes) -> Seq<
    SlotView,
> {
    seq![
        slot(c.moe, act_name("moe.h1"@), (z.mh * BF16) as u64, Gen::Stored),
        slot(c.moe, act_name("moe.table"@), (z.mk * 8) as u64, Gen::Stored),
        slot(c.moe, act_name("moe.router_score"@), (z.de * F32) as u64, Gen::Stored),
        slot(c.moe, act_name("moe.xn2"@), (z.mh * BF16) as u64, Gen::Stored),
        slot(c.moe, act_name("moe.mfu"@), (z.dkm * BF16) as u64, Gen::Stored),
        slot(c.moe, act_name("moe.part"@), (z.mkh * F32) as u64, Gen::Stored),
        slot(c.moe, act_name("moe.sum"@), (z.hidden * BF16) as u64, Gen::Stored),
        slot(c.moe, act_name("moe.h2"@), (z.hidden * BF16) as u64, Gen::Stored),
        slot(c.moe, act_name("moe.comb"@), (z.mh * BF16) as u64, Gen::Stored),
        slot(c.moe && d.moe_pf, act_name("moe.meta"@), (z.meta * I32) as u64, Gen::Stored),
        slot(c.moe && d.moe_pf, act_name("moe.rowtok"@), (z.pad * I32) as u64, Gen::Stored),
        slot(c.moe && d.moe_pf, act_name("moe.rowpart"@), (z.pad * I32) as u64, Gen::Stored),
        slot(c.moe && d.moe_pf, act_name("moe.rowgate"@), (z.pad * F32) as u64, Gen::Stored),
        slot(c.moe && d.moe_pf, act_name("moe.fug"@), (z.padm * BF16) as u64, Gen::Stored),
        slot(c.moe && d.moe_pf && d.w8a8, act_name("moe.fuq"@), z.padm, Gen::Stored),
        slot(c.moe && d.moe_pf && d.w8a8, act_name("moe.fus"@), (z.pad * F32) as u64, Gen::Stored),
    ]
}

fn make_moe_slots(k: &EmitConfig, c: &Cfg, d: DeclareFor, z: Sizes, rope: RopeBytes) -> (r: Vec<
    Slot,
>)
    requires
        z.small(),
    ensures
        slots_view(r@) == moe_slots(*k, *c, d, z, rope),
        r@.len() == 16,
{
    proof {
        reveal(moe_slots);
    }
    let mut v: Vec<Slot> = Vec::new();
    proof {
        assert(slots_view(v@) =~= Seq::<SlotView>::empty());
    }
    add_slot(&mut v, c.moe, act("moe.h1"), z.mh * BF16, Gen::Stored);
    add_slot(&mut v, c.moe, act("moe.table"), z.mk * 8, Gen::Stored);
    add_slot(&mut v, c.moe, act("moe.router_score"), z.de * F32, Gen::Stored);
    add_slot(&mut v, c.moe, act("moe.xn2"), z.mh * BF16, Gen::Stored);
    add_slot(&mut v, c.moe, act("moe.mfu"), z.dkm * BF16, Gen::Stored);
    add_slot(&mut v, c.moe, act("moe.part"), z.mkh * F32, Gen::Stored);
    add_slot(&mut v, c.moe, act("moe.sum"), z.hidden * BF16, Gen::Stored);
    add_slot(&mut v, c.moe, act("moe.h2"), z.hidden * BF16, Gen::Stored);
    add_slot(&mut v, c.moe, act("moe.comb"), z.mh * BF16, Gen::Stored);
    add_slot(&mut v, c.moe && d.moe_pf, act("moe.meta"), z.meta * I32, Gen::Stored);
    add_slot(&mut v, c.moe && d.moe_pf, act("moe.rowtok"), z.pad * I32, Gen::Stored);
    add_slot(&mut v, c.moe && d.moe_pf, act("moe.rowpart"), z.pad * I32, Gen::Stored);
    add_slot(&mut v, c.moe && d.moe_pf, act("moe.rowgate"), z.pad * F32, Gen::Stored);
    add_slot(&mut v, c.moe && d.moe_pf, act("moe.fug"), z.padm * BF16, Gen::Stored);
    add_slot(&mut v, c.moe && d.moe_pf && d.w8a8, act("moe.fuq"), z.padm, Gen::Stored);
    add_slot(&mut v, c.moe && d.moe_pf && d.w8a8, act("moe.fus"), z.pad * F32, Gen::Stored);
    proof {
        assert(slots_view(v@).len() == v@.len());
    }
    v
}

/// The shared tensors, part by part: the narrow copies of activations.
#[verifier::opaque]
pub open spec fn narrow_act_slots(k: EmitConfig, c: Cfg, d: DeclareFor, z: Sizes, rope: RopeBytes) -> Seq<
    SlotView,
> {
    seq![
        slot(d.w8a8, act_name("xqh"@), z.rh, Gen::Stored),
        slot(d.w8a8, act_name("ash"@), (z.rows * F32) as u64, Gen::Stored),
        slot(d.w8a8, act_name("xqo"@), z.rq, Gen::Stored),
        slot(d.w8a8, act_name("aso"@), (z.rows * F32) as u64, Gen::Stored),
        slot(d.w8a8, act_name("xqi"@), z.ri, Gen::Stored),
        slot(d.w8a8, act_name("asi"@), (z.rows * F32) as u64, Gen::Stored),
    ]
}

fn make_narrow_act_slots(k: &EmitConfig, c: &Cfg, d: DeclareFor, z: Sizes, rope: RopeBytes) -> (r: Vec<
    Slot,
>)
    requires
        z.small(),
    ensures
        slots_view(r@) == narrow_act_slots(*k, *c, d, z, rope),
        r@.len() == 6,
{
    proof {
        reveal(narrow_act_slots);
    }
    let mut v: Vec<Slot> = Vec::new();
    proof {
        assert(slots_view(v@) =~= Seq::<SlotView>::empty());
    }
    add_slot(&mut v, d.w8a8, act("xqh"), z.rh, Gen::Stored);
    add_slot(&mut v, d.w8a8, act("ash"), z.rows * F32, Gen::Stored);
    add_slot(&mut v, d.w8a8, act("xqo"), z.rq, Gen::Stored);
    add_slot(&mut v, d.w8a8, act("aso"), z.rows * F32, Gen::Stored);
    add_slot(&mut v, d.w8a8, act("xqi"), z.ri, Gen::Stored);
    add_slot(&mut v, d.w8a8, act("asi"), z.rows * F32, Gen::Stored);
    proof {
        assert(slots_view(v@).len() == v@.len());
    }
    v
}

/// The shared tensors up to and with part `i`.
pub open spec fn shared_decls(
    k: EmitConfig,
    c: Cfg,
    d: DeclareFor,
    z: Sizes,
    rope: RopeBytes,
    i: int,
) -> Seq<DeclView> {
    let d0 = present(input_slots(k, c, d, z, rope));
    let d1 = d0 + present(act_slots(k, c, d, z, rope));
    let d2 = d1 + present(moe_slots(k, c, d, z, rope));
    if i <= 0 {
        d0
    } else if i == 1 {
        d1
    } else if i == 2 {
        d2
    } else {
        d2 + present(narrow_act_slots(k, c, d, z, rope))
    }
}

/// The handles of the shared tensors.
pub open spec fn shared_handles(
    k: EmitConfig,
    c: Cfg,
    d: DeclareFor,
    z: Sizes,
    rope: RopeBytes,
) -> Tn {
    let s0 = input_slots(k, c, d, z, rope);
    let s1 = act_slots(k, c, d, z, rope);
    let s2 = moe_slots(k, c, d, z, rope);
    let s3 = narrow_act_slots(k, c, d, z, rope);
    let b1 = shared_decls(k, c, d, z, rope, 0).len() as int;
    let b2 = shared_decls(k, c, d, z, rope, 1).len() as int;
    let b3 = shared_decls(k, c, d, z, rope, 2).len() as int;
    Tn {
        ids: handle(s0, 0, 0),
        pos: handle(s0, 0, 1),
        kvlen: handle(s0, 0, 2),
        cos_s: handle(s0, 0, 3),
        sin_s: handle(s0, 0, 4),
        cos_f: handle(s0, 0, 5),
        sin_f: handle(s0, 0, 6),
        emb: handle(s0, 0, 7),
        fin: handle(s0, 0, 8),
        head: handle(s0, 0, 9),
        head8: handle(s0, 0, 10),
        head8s: handle(s0, 0, 11),
        x: handle(s1, b1, 0),
        xr: handle(s1, b1, 1),
        mrgc: handle(s1, b1, 2),
        hn: handle(s1, b1, 3),
        qg: handle(s1, b1, 4),
        kg: handle(s1, b1, 5),
        vg: handle(s1, b1, 6),
        q: handle(s1, b1, 7),
        opart: handle(s1, b1, 8),
        mlpart: handle(s1, b1, 9),
        at: handle(s1, b1, 10),
        og: handle(s1, b1, 11),
        gt: handle(s1, b1, 12),
        ut: handle(s1, b1, 13),
        fu: handle(s1, b1, 14),
        dg: handle(s1, b1, 15),
        logits: handle(s1, b1, 16),
        amax: handle(s1, b1, 17),
        og_tp: handle(s1, b1, 18),
        dg_tp: handle(s1, b1, 19),
        moe_h1: handle(s2, b2, 0),
        moe_tab: handle(s2, b2, 1),
        moe_rscore: handle(s2, b2, 2),
        moe_xn2: handle(s2, b2, 3),
        moe_mfu: handle(s2, b2, 4),
        moe_part: handle(s2, b2, 5),
        moe_sum: handle(s2, b2, 6),
        moe_h2: handle(s2, b2, 7),
        moe_comb: handle(s2, b2, 8),
        moe_meta: handle(s2, b2, 9),
        moe_rowtok: handle(s2, b2, 10),
        moe_rowpart: handle(s2, b2, 11),
        moe_rowgate: handle(s2, b2, 12),
        moe_fug: handle(s2, b2, 13),
        moe_fuq: handle(s2, b2, 14),
        moe_fus: handle(s2, b2, 15),
        xqh: handle(s3, b3, 0),
        ash: handle(s3, b3, 1),
        xqo: handle(s3, b3, 2),
        aso: handle(s3, b3, 3),
        xqi: handle(s3, b3, 4),
        asi: handle(s3, b3, 5),
    }
}

/// A model with narrow activations has the scales of each of them.
pub proof fn narrow_activations_have_scales(
    k: EmitConfig,
    c: Cfg,
    d: DeclareFor,
    z: Sizes,
    rope: RopeBytes,
)
    requires
        d.w8a8,
    ensures
        shared_handles(k, c, d, z, rope).ash != TENSOR_NONE,
        shared_handles(k, c, d, z, rope).aso != TENSOR_NONE,
        shared_handles(k, c, d, z, rope).asi != TENSOR_NONE,
{
    reveal(input_slots);
    reveal(act_slots);
    reveal(moe_slots);
    reveal(narrow_act_slots);
    let s = narrow_act_slots(k, c, d, z, rope);
    let before = shared_decls(k, c, d, z, rope, 2);
    present_is_bounded(input_slots(k, c, d, z, rope));
    present_is_bounded(act_slots(k, c, d, z, rope));
    present_is_bounded(moe_slots(k, c, d, z, rope));
    present_is_bounded(s);
    a_handle_names_its_tensor(s, before, 1);
    a_handle_names_its_tensor(s, before, 3);
    a_handle_names_its_tensor(s, before, 5);
}

/// Element counts and facts of one layer's tensors.
#[derive(Clone, Copy, PartialEq, Eq, Debug, Structural)]
pub struct LayerSizes {
    /// Whether the layer is one of those that are needed.
    pub inside: bool,
    pub fp8_kv: bool,
    pub keqv: bool,
    pub gemma: bool,
    pub hd: u64,
    pub hidden: u64,
    pub inter: u64,
    pub qd: u64,
    pub kd: u64,
    pub qh: u64,
    pub kh: u64,
    pub ih: u64,
    /// Groups of thirty-two columns in the rows of each kind of projection.
    pub hidden_groups: u64,
    pub qd_groups: u64,
    pub inter_groups: u64,
    pub kv_bytes: u64,
    pub kv_scale_bytes: u64,
    pub n_exp: u64,
    pub eh: u64,
    pub e2: u64,
    pub gu: u64,
    pub dn: u64,
    pub gu_cells: u64,
    pub dn_cells: u64,
}

/// A layer's head width.
pub open spec fn layer_hd(c: Cfg, l: int) -> int {
    (if c.is_full@[l] { c.hd_full } else { c.hd_slide }) as int
}

/// A layer's key/value heads on one device.
pub open spec fn layer_kvh(c: Cfg, l: int) -> int {
    local_kv_heads((if c.is_full@[l] { c.kvh_full } else { c.kvh_slide }) as int, c.tp as int)
}

/// Rows of a layer's cache.
pub open spec fn layer_ring(k: EmitConfig, c: Cfg, ctx: u32, l: int) -> int {
    ring_of(c.is_full@[l], ctx as int, c.window as int, chunk_of(k, c.window as int)).0
}

/// Whether a layer's cache is narrow.
pub open spec fn layer_fp8_kv(c: Cfg, d: DeclareFor, l: int) -> bool {
    d.fp8_kv && (c.is_full@[l] || !d.fp8_kv_full)
}

/// Element counts and facts of one layer's tensors.
pub open spec fn layer_sizes_of(k: EmitConfig, c: Cfg, d: DeclareFor, l: int) -> LayerSizes {
    let hd = layer_hd(c, l);
    let kvh = layer_kvh(c, l);
    let ring = layer_ring(k, c, d.ctx, l);
    let qd = (c.heads / c.tp) * hd;
    let kd = kvh * hd;
    let inter = (c.inter / c.tp) as int;
    let fp8_kv = layer_fp8_kv(c, d, l);
    let gu = c.n_exp * 2 * c.moe_inter;
    let dn = c.n_exp * c.hidden;
    LayerSizes {
        inside: d.first <= l < d.end,
        fp8_kv,
        keqv: c.is_full@[l] && c.k_eq_v,
        gemma: c.arch == Arch::Gemma4,
        hd: hd as u64,
        hidden: c.hidden as u64,
        inter: inter as u64,
        qd: qd as u64,
        kd: kd as u64,
        qh: (qd * c.hidden) as u64,
        kh: (kd * c.hidden) as u64,
        ih: (inter * c.hidden) as u64,
        hidden_groups: ceil_div(c.hidden as int, 32) as u64,
        qd_groups: ceil_div(qd, 32) as u64,
        inter_groups: ceil_div(inter, 32) as u64,
        kv_bytes: (d.dbatch * (ring * kvh * hd) * (if fp8_kv { 1int } else { 2int })) as u64,
        kv_scale_bytes: (d.dbatch * (ring * kvh) * 4) as u64,
        n_exp: c.n_exp as u64,
        eh: (c.n_exp * c.hidden) as u64,
        e2: (c.n_exp * 2) as u64,
        gu: gu as u64,
        dn: dn as u64,
        gu_cells: (gu * c.hidden) as u64,
        dn_cells: (dn * c.moe_inter) as u64,
    }
}

/// Whether a layer's tensors can be declared.
pub open spec fn layer_sizes_ok(k: EmitConfig, c: Cfg, d: DeclareFor, l: int) -> bool {
    let hd = layer_hd(c, l);
    let kvh = layer_kvh(c, l);
    let ring = layer_ring(k, c, d.ctx, l);
    let qd = (c.heads / c.tp) * hd;
    let kd = kvh * hd;
    let inter = (c.inter / c.tp) as int;
    let gu = c.n_exp * 2 * c.moe_inter;
    let dn = c.n_exp * c.hidden;
    let m = u32::MAX as int;
    &&& ring_ok(c.is_full@[l], d.ctx as int, c.window as int, chunk_of(k, c.window as int))
    &&& qd <= m
    &&& kd <= m
    &&& qd * c.hidden <= m
    &&& kd * c.hidden <= m
    &&& inter * c.hidden <= m
    &&& ring * kvh <= m
    &&& ring * kvh * hd <= m
    &&& d.dbatch * (ring * kvh * hd) * 2 <= u64::MAX
    &&& d.dbatch * (ring * kvh) * 4 <= u64::MAX
    &&& c.n_exp * 2 <= m
    &&& gu <= m
    &&& dn <= m
    &&& gu * c.hidden * 2 <= u64::MAX
    &&& dn * c.moe_inter * 2 <= u64::MAX
}

impl LayerSizes {
    /// Whether the counts leave room for their element sizes.
    pub open spec fn small(self) -> bool {
        let m = u32::MAX;
        &&& self.hd <= m && self.hidden <= m && self.inter <= m && self.qd <= m && self.kd <= m
        &&& self.qh <= m && self.kh <= m && self.ih <= m && self.n_exp <= m && self.eh <= m
        &&& self.e2 <= m && self.gu <= m && self.dn <= m
        &&& self.hidden_groups <= m && self.qd_groups <= m && self.inter_groups <= m
        &&& self.gu_cells * 2 <= u64::MAX && self.dn_cells * 2 <= u64::MAX
    }

    pub fn new(k: &EmitConfig, c: &Cfg, d: DeclareFor, l: u32) -> (r: LayerSizes)
        requires
            chunk_ok(*k),
            c.window <= POW2_TOP,
            c.tp > 0,
            l < c.is_full@.len(),
            kv_heads_split(c.kvh_slide as int, c.tp as int),
            kv_heads_split(c.kvh_full as int, c.tp as int),
            layer_sizes_ok(*k, *c, d, l as int),
        ensures
            r == layer_sizes_of(*k, *c, d, l as int),
            r.small(),
    {
        let full: bool = c.is_full[l as usize];
        let hd: u32 = if full { c.hd_full } else { c.hd_slide };
        let kvh: u32 = kvh_local(if full { c.kvh_full } else { c.kvh_slide }, c.tp);
        let (ring, _mask) = kv_ring(full, d.ctx, c.window, max_chunk(k, c.window));
        let fp8_kv: bool = d.fp8_kv && (full || !d.fp8_kv_full);
        let qd: u64 = mul64(c.heads / c.tp, hd);
        let kd: u64 = mul64(kvh, hd);
        let inter: u32 = c.inter / c.tp;
        let ring_kvh: u64 = mul64(ring, kvh);
        let cells: u64 = mul_small(ring_kvh, hd);
        let elt: u64 = if fp8_kv { 1 } else { 2 };
        let db_cells: u64 = mul_small(cells, d.dbatch);
        let db_rows: u64 = mul_small(ring_kvh, d.dbatch);
        let e2: u64 = c.n_exp as u64 * 2;
        let gu: u64 = mul_small(e2, c.moe_inter);
        let dn: u64 = mul64(c.n_exp, c.hidden);
        proof {
            let a = ring * kvh * hd;
            assert(d.dbatch * a == a * d.dbatch) by (nonlinear_arith);
            assert(0 <= a * d.dbatch) by (nonlinear_arith)
                requires
                    a >= 0,
            ;
            let b = ring * kvh;
            assert(d.dbatch * b == b * d.dbatch) by (nonlinear_arith);
        }
        LayerSizes {
            inside: d.first <= l && l < d.end,
            fp8_kv,
            keqv: full && c.k_eq_v,
            gemma: c.arch == Arch::Gemma4,
            hd: hd as u64,
            hidden: c.hidden as u64,
            inter: inter as u64,
            qd,
            kd,
            qh: mul_small(qd, c.hidden),
            kh: mul_small(kd, c.hidden),
            ih: mul64(inter, c.hidden),
            hidden_groups: div_ceil(c.hidden, 32) as u64,
            qd_groups: div_ceil(qd as u32, 32) as u64,
            inter_groups: div_ceil(inter, 32) as u64,
            kv_bytes: db_cells * elt,
            kv_scale_bytes: db_rows * 4,
            n_exp: c.n_exp as u64,
            eh: mul64(c.n_exp, c.hidden),
            e2,
            gu,
            dn,
            gu_cells: mul_small(gu, c.hidden),
            dn_cells: mul_small(dn, c.moe_inter),
        }
    }
}

/// The tensors of one layer, part by part: the caches.
#[verifier::opaque]
pub open spec fn cache_slots(c: Cfg, d: DeclareFor, e: LayerSizes, l: u32) -> Seq<SlotView> {
    seq![
        slot(e.inside, numbered_name("kv."@, l, ".k"@), e.kv_bytes, Gen::Stored),
        slot(e.inside, numbered_name("kv."@, l, ".v"@), e.kv_bytes, Gen::Stored),
        slot(e.fp8_kv && e.inside, numbered_name("kv."@, l, ".k_scale"@), e.kv_scale_bytes, Gen::Stored),
        slot(e.fp8_kv && e.inside, numbered_name("kv."@, l, ".v_scale"@), e.kv_scale_bytes, Gen::Stored),
    ]
}

fn make_cache_slots(c: &Cfg, d: DeclareFor, e: LayerSizes, l: u32) -> (r: Vec<Slot>)
    requires
        e.small(),
    ensures
        slots_view(r@) == cache_slots(*c, d, e, l),
        r@.len() == 4,
{
    proof {
        reveal(cache_slots);
    }
    let mut v: Vec<Slot> = Vec::new();
    proof {
        assert(slots_view(v@) =~= Seq::<SlotView>::empty());
    }
    add_slot(&mut v, e.inside, numbered("kv.", l as u64, ".k"), e.kv_bytes, Gen::Stored);
    add_slot(&mut v, e.inside, numbered("kv.", l as u64, ".v"), e.kv_bytes, Gen::Stored);
    add_slot(&mut v, e.fp8_kv && e.inside, numbered("kv.", l as u64, ".k_scale"), e.kv_scale_bytes, Gen::Stored);
    add_slot(&mut v, e.fp8_kv && e.inside, numbered("kv.", l as u64, ".v_scale"), e.kv_scale_bytes, Gen::Stored);
    proof {
        assert(slots_view(v@).len() == v@.len());
    }
    v
}

/// The tensors of one layer, part by part: the experts.
#[verifier::opaque]
pub open spec fn expert_slots(c: Cfg, d: DeclareFor, e: LayerSizes, l: u32) -> Seq<SlotView> {
    seq![
        slot(c.moe && e.inside && d.fp8, narrow_name(layer_name(c.prefix@, l, "experts.gate_up_proj"@)), e.gu_cells, Gen::Stored),
        slot(c.moe && e.inside && d.fp8, scale_name(narrow_name(layer_name(c.prefix@, l, "experts.gate_up_proj"@))), (e.gu * F32) as u64, Gen::Stored),
        slot(c.moe && e.inside && d.fp8, narrow_name(layer_name(c.prefix@, l, "experts.down_proj"@)), e.dn_cells, Gen::Stored),
        slot(c.moe && e.inside && d.fp8, scale_name(narrow_name(layer_name(c.prefix@, l, "experts.down_proj"@))), (e.dn * F32) as u64, Gen::Stored),
        slot(c.moe && e.inside && !d.fp8, layer_name(c.prefix@, l, "experts.gate_up_proj"@), (e.gu_cells * BF16) as u64, Gen::Stored),
        slot(c.moe && e.inside && !d.fp8, layer_name(c.prefix@, l, "experts.down_proj"@), (e.dn_cells * BF16) as u64, Gen::Stored),
    ]
}

fn make_expert_slots(c: &Cfg, d: DeclareFor, e: LayerSizes, l: u32) -> (r: Vec<Slot>)
    requires
        e.small(),
    ensures
        slots_view(r@) == expert_slots(*c, d, e, l),
        r@.len() == 6,
{
    proof {
        reveal(expert_slots);
    }
    let mut v: Vec<Slot> = Vec::new();
    proof {
        assert(slots_view(v@) =~= Seq::<SlotView>::empty());
    }
    add_slot(&mut v, c.moe && e.inside && d.fp8, fp8_twin(in_layer(c.prefix.as_str(), l, "experts.gate_up_proj").as_str()), e.gu_cells, Gen::Stored);
    add_slot(&mut v, c.moe && e.inside && d.fp8, scale_of(fp8_twin(in_layer(c.prefix.as_str(), l, "experts.gate_up_proj").as_str()).as_str()), e.gu * F32, Gen::Stored);
    add_slot(&mut v, c.moe && e.inside && d.fp8, fp8_twin(in_layer(c.prefix.as_str(), l, "experts.down_proj").as_str()), e.dn_cells, Gen::Stored);
    add_slot(&mut v, c.moe && e.inside && d.fp8, scale_of(fp8_twin(in_layer(c.prefix.as_str(), l, "experts.down_proj").as_str()).as_str()), e.dn * F32, Gen::Stored);
    add_slot(&mut v, c.moe && e.inside && !d.fp8, in_layer(c.prefix.as_str(), l, "experts.gate_up_proj"), e.gu_cells * BF16, Gen::Stored);
    add_slot(&mut v, c.moe && e.inside && !d.fp8, in_layer(c.prefix.as_str(), l, "experts.down_proj"), e.dn_cells * BF16, Gen::Stored);
    proof {
        assert(slots_view(v@).len() == v@.len());
    }
    v
}

/// The tensors of one layer, part by part: the weights.
#[verifier::opaque]
pub open spec fn weight_slots(c: Cfg, d: DeclareFor, e: LayerSizes, l: u32) -> Seq<SlotView> {
    seq![
        slot(!d.narrow() && e.inside, layer_name(c.prefix@, l, "self_attn.q_proj.weight"@), (e.qh * BF16) as u64, Gen::Stored),
        slot(!d.narrow() && e.inside, layer_name(c.prefix@, l, "self_attn.k_proj.weight"@), (e.kh * BF16) as u64, Gen::Stored),
        slot(!e.keqv && !d.narrow() && e.inside, layer_name(c.prefix@, l, "self_attn.v_proj.weight"@), (e.kh * BF16) as u64, Gen::Stored),
        slot(!d.narrow() && e.inside, layer_name(c.prefix@, l, "self_attn.o_proj.weight"@), (e.qh * BF16) as u64, Gen::Stored),
        slot(!d.narrow() && e.inside, layer_name(c.prefix@, l, "mlp.gate_proj.weight"@), (e.ih * BF16) as u64, Gen::Stored),
        slot(!d.narrow() && e.inside, layer_name(c.prefix@, l, "mlp.up_proj.weight"@), (e.ih * BF16) as u64, Gen::Stored),
        slot(!d.narrow() && e.inside, layer_name(c.prefix@, l, "mlp.down_proj.weight"@), (e.ih * BF16) as u64, Gen::Stored),
    ]
}

fn make_weight_slots(c: &Cfg, d: DeclareFor, e: LayerSizes, l: u32) -> (r: Vec<Slot>)
    requires
        e.small(),
    ensures
        slots_view(r@) == weight_slots(*c, d, e, l),
        r@.len() == 7,
{
    proof {
        reveal(weight_slots);
    }
    let narrow: bool = d.fp8 || d.mx;
    let mut v: Vec<Slot> = Vec::new();
    proof {
        assert(slots_view(v@) =~= Seq::<SlotView>::empty());
    }
    add_slot(&mut v, !narrow && e.inside, in_layer(c.prefix.as_str(), l, "self_attn.q_proj.weight"), e.qh * BF16, Gen::Stored);
    add_slot(&mut v, !narrow && e.inside, in_layer(c.prefix.as_str(), l, "self_attn.k_proj.weight"), e.kh * BF16, Gen::Stored);
    add_slot(&mut v, !e.keqv && !narrow && e.inside, in_layer(c.prefix.as_str(), l, "self_attn.v_proj.weight"), e.kh * BF16, Gen::Stored);
    add_slot(&mut v, !narrow && e.inside, in_layer(c.prefix.as_str(), l, "self_attn.o_proj.weight"), e.qh * BF16, Gen::Stored);
    add_slot(&mut v, !narrow && e.inside, in_layer(c.prefix.as_str(), l, "mlp.gate_proj.weight"), e.ih * BF16, Gen::Stored);
    add_slot(&mut v, !narrow && e.inside, in_layer(c.prefix.as_str(), l, "mlp.up_proj.weight"), e.ih * BF16, Gen::Stored);
    add_slot(&mut v, !narrow && e.inside, in_layer(c.prefix.as_str(), l, "mlp.down_proj.weight"), e.ih * BF16, Gen::Stored);
    proof {
        assert(slots_view(v@).len() == v@.len());
    }
    v
}

/// The tensors of one layer, part by part: the narrow twins of the weights.
#[verifier::opaque]
pub open spec fn narrow_slots(c: Cfg, d: DeclareFor, e: LayerSizes, l: u32) -> Seq<SlotView> {
    seq![
        slot(d.narrow() && e.inside, d.twin_name(layer_name(c.prefix@, l, "self_attn.q_proj.weight"@)), d.twin_bytes(e.qh), Gen::Stored),
        slot(d.narrow() && e.inside, d.twin_name(layer_name(c.prefix@, l, "self_attn.k_proj.weight"@)), d.twin_bytes(e.kh), Gen::Stored),
        slot(!e.keqv && d.narrow() && e.inside, d.twin_name(layer_name(c.prefix@, l, "self_attn.v_proj.weight"@)), d.twin_bytes(e.kh), Gen::Stored),
        slot(d.narrow() && e.inside, d.twin_name(layer_name(c.prefix@, l, "self_attn.o_proj.weight"@)), d.twin_bytes(e.qh), Gen::Stored),
        slot(d.narrow() && e.inside, d.twin_name(layer_name(c.prefix@, l, "mlp.gate_proj.weight"@)), d.twin_bytes(e.ih), Gen::Stored),
        slot(d.narrow() && e.inside, d.twin_name(layer_name(c.prefix@, l, "mlp.up_proj.weight"@)), d.twin_bytes(e.ih), Gen::Stored),
        slot(d.narrow() && e.inside, d.twin_name(layer_name(c.prefix@, l, "mlp.down_proj.weight"@)), d.twin_bytes(e.ih), Gen::Stored),
    ]
}

fn make_narrow_slots(c: &Cfg, d: DeclareFor, e: LayerSizes, l: u32) -> (r: Vec<Slot>)
    requires
        e.small(),
    ensures
        slots_view(r@) == narrow_slots(*c, d, e, l),
        r@.len() == 7,
{
    proof {
        reveal(narrow_slots);
    }
    let narrow: bool = d.fp8 || d.mx;
    let mut v: Vec<Slot> = Vec::new();
    proof {
        assert(slots_view(v@) =~= Seq::<SlotView>::empty());
    }
    add_slot(&mut v, narrow && e.inside, d.twin(in_layer(c.prefix.as_str(), l, "self_attn.q_proj.weight").as_str()), d.twin_size(e.qh), Gen::Stored);
    add_slot(&mut v, narrow && e.inside, d.twin(in_layer(c.prefix.as_str(), l, "self_attn.k_proj.weight").as_str()), d.twin_size(e.kh), Gen::Stored);
    add_slot(&mut v, !e.keqv && narrow && e.inside, d.twin(in_layer(c.prefix.as_str(), l, "self_attn.v_proj.weight").as_str()), d.twin_size(e.kh), Gen::Stored);
    add_slot(&mut v, narrow && e.inside, d.twin(in_layer(c.prefix.as_str(), l, "self_attn.o_proj.weight").as_str()), d.twin_size(e.qh), Gen::Stored);
    add_slot(&mut v, narrow && e.inside, d.twin(in_layer(c.prefix.as_str(), l, "mlp.gate_proj.weight").as_str()), d.twin_size(e.ih), Gen::Stored);
    add_slot(&mut v, narrow && e.inside, d.twin(in_layer(c.prefix.as_str(), l, "mlp.up_proj.weight").as_str()), d.twin_size(e.ih), Gen::Stored);
    add_slot(&mut v, narrow && e.inside, d.twin(in_layer(c.prefix.as_str(), l, "mlp.down_proj.weight").as_str()), d.twin_size(e.ih), Gen::Stored);
    proof {
        assert(slots_view(v@).len() == v@.len());
    }
    v
}

/// The tensors of one layer, part by part: the scales of the narrow twins.
#[verifier::opaque]
pub open spec fn scale_slots(c: Cfg, d: DeclareFor, e: LayerSizes, l: u32) -> Seq<SlotView> {
    seq![
        slot(d.narrow() && e.inside, scale_name(d.twin_name(layer_name(c.prefix@, l, "self_attn.q_proj.weight"@))), d.scale_bytes(e.qd, e.hidden_groups), Gen::Stored),
        slot(d.narrow() && e.inside, scale_name(d.twin_name(layer_name(c.prefix@, l, "self_attn.k_proj.weight"@))), d.scale_bytes(e.kd, e.hidden_groups), Gen::Stored),
        slot(!e.keqv && d.narrow() && e.inside, scale_name(d.twin_name(layer_name(c.prefix@, l, "self_attn.v_proj.weight"@))), d.scale_bytes(e.kd, e.hidden_groups), Gen::Stored),
        slot(d.narrow() && e.inside, scale_name(d.twin_name(layer_name(c.prefix@, l, "self_attn.o_proj.weight"@))), d.scale_bytes(e.hidden, e.qd_groups), Gen::Stored),
        slot(d.narrow() && e.inside, scale_name(d.twin_name(layer_name(c.prefix@, l, "mlp.gate_proj.weight"@))), d.scale_bytes(e.inter, e.hidden_groups), Gen::Stored),
        slot(d.narrow() && e.inside, scale_name(d.twin_name(layer_name(c.prefix@, l, "mlp.up_proj.weight"@))), d.scale_bytes(e.inter, e.hidden_groups), Gen::Stored),
        slot(d.narrow() && e.inside, scale_name(d.twin_name(layer_name(c.prefix@, l, "mlp.down_proj.weight"@))), d.scale_bytes(e.hidden, e.inter_groups), Gen::Stored),
    ]
}

fn make_scale_slots(c: &Cfg, d: DeclareFor, e: LayerSizes, l: u32) -> (r: Vec<Slot>)
    requires
        e.small(),
    ensures
        slots_view(r@) == scale_slots(*c, d, e, l),
        r@.len() == 7,
{
    proof {
        reveal(scale_slots);
    }
    let narrow: bool = d.fp8 || d.mx;
    let mut v: Vec<Slot> = Vec::new();
    proof {
        assert(slots_view(v@) =~= Seq::<SlotView>::empty());
    }
    add_slot(&mut v, narrow && e.inside, scale_of(d.twin(in_layer(c.prefix.as_str(), l, "self_attn.q_proj.weight").as_str()).as_str()), d.scale_size(e.qd, e.hidden_groups), Gen::Stored);
    add_slot(&mut v, narrow && e.inside, scale_of(d.twin(in_layer(c.prefix.as_str(), l, "self_attn.k_proj.weight").as_str()).as_str()), d.scale_size(e.kd, e.hidden_groups), Gen::Stored);
    add_slot(&mut v, !e.keqv && narrow && e.inside, scale_of(d.twin(in_layer(c.prefix.as_str(), l, "self_attn.v_proj.weight").as_str()).as_str()), d.scale_size(e.kd, e.hidden_groups), Gen::Stored);
    add_slot(&mut v, narrow && e.inside, scale_of(d.twin(in_layer(c.prefix.as_str(), l, "self_attn.o_proj.weight").as_str()).as_str()), d.scale_size(e.hidden, e.qd_groups), Gen::Stored);
    add_slot(&mut v, narrow && e.inside, scale_of(d.twin(in_layer(c.prefix.as_str(), l, "mlp.gate_proj.weight").as_str()).as_str()), d.scale_size(e.inter, e.hidden_groups), Gen::Stored);
    add_slot(&mut v, narrow && e.inside, scale_of(d.twin(in_layer(c.prefix.as_str(), l, "mlp.up_proj.weight").as_str()).as_str()), d.scale_size(e.inter, e.hidden_groups), Gen::Stored);
    add_slot(&mut v, narrow && e.inside, scale_of(d.twin(in_layer(c.prefix.as_str(), l, "mlp.down_proj.weight").as_str()).as_str()), d.scale_size(e.hidden, e.inter_groups), Gen::Stored);
    proof {
        assert(slots_view(v@).len() == v@.len());
    }
    v
}

/// The tensors of one layer, part by part: the norms, the router and the expert tables.
#[verifier::opaque]
pub open spec fn norm_slots(c: Cfg, d: DeclareFor, e: LayerSizes, l: u32) -> Seq<SlotView> {
    seq![
        slot(e.inside, layer_name(c.prefix@, l, "input_layernorm.weight"@), (e.hidden * BF16) as u64, Gen::Stored),
        slot(e.inside, layer_name(c.prefix@, l, "post_attention_layernorm.weight"@), (e.hidden * BF16) as u64, Gen::Stored),
        slot(e.gemma && e.inside, layer_name(c.prefix@, l, "pre_feedforward_layernorm.weight"@), (e.hidden * BF16) as u64, Gen::Stored),
        slot(e.gemma && e.inside, layer_name(c.prefix@, l, "post_feedforward_layernorm.weight"@), (e.hidden * BF16) as u64, Gen::Stored),
        slot(c.has_qk_norm && e.inside, layer_name(c.prefix@, l, "self_attn.q_norm.weight"@), (e.hd * BF16) as u64, Gen::Stored),
        slot(c.has_qk_norm && e.inside, layer_name(c.prefix@, l, "self_attn.k_norm.weight"@), (e.hd * BF16) as u64, Gen::Stored),
        slot(c.moe && e.inside, layer_name(c.prefix@, l, "router.proj.weight"@), (e.eh * BF16) as u64, Gen::Stored),
        slot(c.moe && e.inside, layer_name(c.prefix@, l, "router.scale"@), (e.hidden * BF16) as u64, Gen::Stored),
        slot(c.moe && e.inside, layer_name(c.prefix@, l, "router.per_expert_scale"@), (e.n_exp * BF16) as u64, Gen::Stored),
        slot(c.moe && e.inside, layer_name(c.prefix@, l, "post_feedforward_layernorm_1.weight"@), (e.hidden * BF16) as u64, Gen::Stored),
        slot(c.moe && e.inside, layer_name(c.prefix@, l, "post_feedforward_layernorm_2.weight"@), (e.hidden * BF16) as u64, Gen::Stored),
        slot(c.moe && e.inside, layer_name(c.prefix@, l, "pre_feedforward_layernorm_2.weight"@), (e.hidden * BF16) as u64, Gen::Stored),
        slot(c.moe && e.inside, numbered_name("moe.ewt."@, l, ""@), (e.e2 * 8) as u64, Gen::Stored),
        slot(c.moe && d.fp8 && e.inside, numbered_name("moe.est."@, l, ""@), (e.e2 * 8) as u64, Gen::Stored),
    ]
}

fn make_norm_slots(c: &Cfg, d: DeclareFor, e: LayerSizes, l: u32) -> (r: Vec<Slot>)
    requires
        e.small(),
    ensures
        slots_view(r@) == norm_slots(*c, d, e, l),
        r@.len() == 14,
{
    proof {
        reveal(norm_slots);
    }
    let mut v: Vec<Slot> = Vec::new();
    proof {
        assert(slots_view(v@) =~= Seq::<SlotView>::empty());
    }
    add_slot(&mut v, e.inside, in_layer(c.prefix.as_str(), l, "input_layernorm.weight"), e.hidden * BF16, Gen::Stored);
    add_slot(&mut v, e.inside, in_layer(c.prefix.as_str(), l, "post_attention_layernorm.weight"), e.hidden * BF16, Gen::Stored);
    add_slot(&mut v, e.gemma && e.inside, in_layer(c.prefix.as_str(), l, "pre_feedforward_layernorm.weight"), e.hidden * BF16, Gen::Stored);
    add_slot(&mut v, e.gemma && e.inside, in_layer(c.prefix.as_str(), l, "post_feedforward_layernorm.weight"), e.hidden * BF16, Gen::Stored);
    add_slot(&mut v, c.has_qk_norm && e.inside, in_layer(c.prefix.as_str(), l, "self_attn.q_norm.weight"), e.hd * BF16, Gen::Stored);
    add_slot(&mut v, c.has_qk_norm && e.inside, in_layer(c.prefix.as_str(), l, "self_attn.k_norm.weight"), e.hd * BF16, Gen::Stored);
    add_slot(&mut v, c.moe && e.inside, in_layer(c.prefix.as_str(), l, "router.proj.weight"), e.eh * BF16, Gen::Stored);
    add_slot(&mut v, c.moe && e.inside, in_layer(c.prefix.as_str(), l, "router.scale"), e.hidden * BF16, Gen::Stored);
    add_slot(&mut v, c.moe && e.inside, in_layer(c.prefix.as_str(), l, "router.per_expert_scale"), e.n_exp * BF16, Gen::Stored);
    add_slot(&mut v, c.moe && e.inside, in_layer(c.prefix.as_str(), l, "post_feedforward_layernorm_1.weight"), e.hidden * BF16, Gen::Stored);
    add_slot(&mut v, c.moe && e.inside, in_layer(c.prefix.as_str(), l, "post_feedforward_layernorm_2.weight"), e.hidden * BF16, Gen::Stored);
    add_slot(&mut v, c.moe && e.inside, in_layer(c.prefix.as_str(), l, "pre_feedforward_layernorm_2.weight"), e.hidden * BF16, Gen::Stored);
    add_slot(&mut v, c.moe && e.inside, numbered("moe.ewt.", l as u64, ""), e.e2 * 8, Gen::Stored);
    add_slot(&mut v, c.moe && d.fp8 && e.inside, numbered("moe.est.", l as u64, ""), e.e2 * 8, Gen::Stored);
    proof {
        assert(slots_view(v@).len() == v@.len());
    }
    v
}

/// A list of tensors with those of a layer behind it, up to and without part `i`.
pub open spec fn with_layer(
    before: Seq<DeclView>,
    c: Cfg,
    d: DeclareFor,
    e: LayerSizes,
    l: u32,
    i: int,
) -> Seq<DeclView> {
    let d1 = before + present(cache_slots(c, d, e, l));
    let d2 = d1 + present(expert_slots(c, d, e, l));
    let d3 = d2 + present(weight_slots(c, d, e, l));
    let d4 = d3 + present(narrow_slots(c, d, e, l));
    let d5 = d4 + present(scale_slots(c, d, e, l));
    let d6 = d5 + present(norm_slots(c, d, e, l));
    if i <= 0 {
        before
    } else if i == 1 {
        d1
    } else if i == 2 {
        d2
    } else if i == 3 {
        d3
    } else if i == 4 {
        d4
    } else if i == 5 {
        d5
    } else {
        d6
    }
}

/// The handles of a layer's caches, behind the tensors `before`.
pub open spec fn cache_handles(
    before: Seq<DeclView>,
    c: Cfg,
    d: DeclareFor,
    e: LayerSizes,
    l: u32,
) -> LayerCache {
    let s = cache_slots(c, d, e, l);
    let b = before.len() as int;
    LayerCache {
        kc: handle(s, b, 0),
        vc: handle(s, b, 1),
        kcs: handle(s, b, 2),
        vcs: handle(s, b, 3),
    }
}

/// The handles of a layer's weights, behind the tensors `before`.
pub open spec fn weight_handles(
    before: Seq<DeclView>,
    c: Cfg,
    d: DeclareFor,
    e: LayerSizes,
    l: u32,
) -> LW {
    let s2 = weight_slots(c, d, e, l);
    let s3 = narrow_slots(c, d, e, l);
    let s4 = scale_slots(c, d, e, l);
    let s5 = norm_slots(c, d, e, l);
    let b2 = with_layer(before, c, d, e, l, 2).len() as int;
    let b3 = with_layer(before, c, d, e, l, 3).len() as int;
    let b4 = with_layer(before, c, d, e, l, 4).len() as int;
    let b5 = with_layer(before, c, d, e, l, 5).len() as int;
    LW {
        wq: handle(s2, b2, 0),
        wk: handle(s2, b2, 1),
        wv: handle(s2, b2, 2),
        wo: handle(s2, b2, 3),
        wg: handle(s2, b2, 4),
        wu: handle(s2, b2, 5),
        wd: handle(s2, b2, 6),
        wq8: handle(s3, b3, 0),
        wk8: handle(s3, b3, 1),
        wv8: handle(s3, b3, 2),
        wo8: handle(s3, b3, 3),
        wg8: handle(s3, b3, 4),
        wu8: handle(s3, b3, 5),
        wd8: handle(s3, b3, 6),
        sq: handle(s4, b4, 0),
        sk: handle(s4, b4, 1),
        sv: handle(s4, b4, 2),
        so: handle(s4, b4, 3),
        sg: handle(s4, b4, 4),
        su: handle(s4, b4, 5),
        sd: handle(s4, b4, 6),
        g_in: handle(s5, b5, 0),
        g_pa: handle(s5, b5, 1),
        g_pf: handle(s5, b5, 2),
        g_po: handle(s5, b5, 3),
        qn: handle(s5, b5, 4),
        kn: handle(s5, b5, 5),
        rproj: handle(s5, b5, 6),
        rscale: handle(s5, b5, 7),
        rpes: handle(s5, b5, 8),
        g_pf1: handle(s5, b5, 9),
        g_pf2: handle(s5, b5, 10),
        g_pre2: handle(s5, b5, 11),
        ewt: handle(s5, b5, 12),
        est: handle(s5, b5, 13),
    }
}

/// The tensors of a model, up to and without layer `l`.
pub open spec fn decls_up_to(
    k: EmitConfig,
    c: Cfg,
    n_cu: u32,
    d: DeclareFor,
    rope: RopeBytes,
    l: int,
) -> Seq<DeclView>
    decreases l,
{
    if l <= 0 {
        shared_decls(k, c, d, sizes_of(k, c, n_cu, d), rope, 3)
    } else {
        with_layer(
            decls_up_to(k, c, n_cu, d, rope, l - 1),
            c,
            d,
            layer_sizes_of(k, c, d, l - 1),
            (l - 1) as u32,
            6,
        )
    }
}

/// Whether a model's tensors can be declared.
pub open spec fn declare_ok(k: EmitConfig, c: Cfg, n_cu: u32, d: DeclareFor) -> bool {
    &&& sizes_ok(k, c, n_cu, d)
    &&& c.layers <= c.is_full@.len()
    &&& c.layers <= 0x400_0000
    &&& forall|l: int| 0 <= l < c.layers ==> #[trigger] layer_sizes_ok(k, c, d, l)
}

fn declare_shared(
    decls: &mut Vec<TensorDecl>,
    k: &EmitConfig,
    c: &Cfg,
    d: DeclareFor,
    z: Sizes,
    rope: RopeBytes,
) -> (r: Tn)
    requires
        old(decls)@.len() == 0,
        z.small(),
    ensures
        decls_view(final(decls)@) == shared_decls(*k, *c, d, z, rope, 3),
        final(decls)@.len() <= 54,
        r == shared_handles(*k, *c, d, z, rope),
{
    proof {
        assert(decls_view(decls@) =~= Seq::<DeclView>::empty());
    }
    let v0: Vec<Slot> = make_input_slots(k, c, d, z, rope);
    let h0: Vec<u32> = place(decls, v0);
    proof {
        assert(decls_view(decls@) =~= shared_decls(*k, *c, d, z, rope, 0));
        assert(decls_view(decls@).len() == decls@.len());
    }
    let v1: Vec<Slot> = make_act_slots(k, c, d, z, rope);
    let h1: Vec<u32> = place(decls, v1);
    proof {
        assert(decls_view(decls@) == shared_decls(*k, *c, d, z, rope, 1));
        assert(decls_view(decls@).len() == decls@.len());
    }
    let v2: Vec<Slot> = make_moe_slots(k, c, d, z, rope);
    let h2: Vec<u32> = place(decls, v2);
    proof {
        assert(decls_view(decls@) == shared_decls(*k, *c, d, z, rope, 2));
        assert(decls_view(decls@).len() == decls@.len());
    }
    let v3: Vec<Slot> = make_narrow_act_slots(k, c, d, z, rope);
    let h3: Vec<u32> = place(decls, v3);
    Tn {
        ids: h0[0],
        pos: h0[1],
        kvlen: h0[2],
        cos_s: h0[3],
        sin_s: h0[4],
        cos_f: h0[5],
        sin_f: h0[6],
        emb: h0[7],
        fin: h0[8],
        head: h0[9],
        head8: h0[10],
        head8s: h0[11],
        x: h1[0],
        xr: h1[1],
        mrgc: h1[2],
        hn: h1[3],
        qg: h1[4],
        kg: h1[5],
        vg: h1[6],
        q: h1[7],
        opart: h1[8],
        mlpart: h1[9],
        at: h1[10],
        og: h1[11],
        gt: h1[12],
        ut: h1[13],
        fu: h1[14],
        dg: h1[15],
        logits: h1[16],
        amax: h1[17],
        og_tp: h1[18],
        dg_tp: h1[19],
        moe_h1: h2[0],
        moe_tab: h2[1],
        moe_rscore: h2[2],
        moe_xn2: h2[3],
        moe_mfu: h2[4],
        moe_part: h2[5],
        moe_sum: h2[6],
        moe_h2: h2[7],
        moe_comb: h2[8],
        moe_meta: h2[9],
        moe_rowtok: h2[10],
        moe_rowpart: h2[11],
        moe_rowgate: h2[12],
        moe_fug: h2[13],
        moe_fuq: h2[14],
        moe_fus: h2[15],
        xqh: h3[0],
        ash: h3[1],
        xqo: h3[2],
        aso: h3[3],
        xqi: h3[4],
        asi: h3[5],
    }
}

fn declare_layer(decls: &mut Vec<TensorDecl>, c: &Cfg, d: DeclareFor, e: LayerSizes, l: u32) -> (r: (
    LayerCache,
    LW,
))
    requires
        old(decls)@.len() + 45 < TENSOR_NONE,
        e.small(),
    ensures
        decls_view(final(decls)@) == with_layer(decls_view(old(decls)@), *c, d, e, l, 6),
        final(decls)@.len() <= old(decls)@.len() + 45,
        r.0 == cache_handles(decls_view(old(decls)@), *c, d, e, l),
        r.1 == weight_handles(decls_view(old(decls)@), *c, d, e, l),
{
    let ghost before = decls_view(decls@);
    proof {
        assert(decls_view(decls@).len() == decls@.len());
    }
    let v0: Vec<Slot> = make_cache_slots(c, d, e, l);
    let h0: Vec<u32> = place(decls, v0);
    proof {
        assert(decls_view(decls@) == with_layer(before, *c, d, e, l, 1));
    }
    proof {
        assert(decls_view(decls@).len() == decls@.len());
    }
    let v1: Vec<Slot> = make_expert_slots(c, d, e, l);
    let _h1: Vec<u32> = place(decls, v1);
    proof {
        assert(decls_view(decls@) == with_layer(before, *c, d, e, l, 2));
    }
    proof {
        assert(decls_view(decls@).len() == decls@.len());
    }
    let v2: Vec<Slot> = make_weight_slots(c, d, e, l);
    let h2: Vec<u32> = place(decls, v2);
    proof {
        assert(decls_view(decls@) == with_layer(before, *c, d, e, l, 3));
    }
    proof {
        assert(decls_view(decls@).len() == decls@.len());
    }
    let v3: Vec<Slot> = make_narrow_slots(c, d, e, l);
    let h3: Vec<u32> = place(decls, v3);
    proof {
        assert(decls_view(decls@) == with_layer(before, *c, d, e, l, 4));
    }
    proof {
        assert(decls_view(decls@).len() == decls@.len());
    }
    let v4: Vec<Slot> = make_scale_slots(c, d, e, l);
    let h4: Vec<u32> = place(decls, v4);
    proof {
        assert(decls_view(decls@) == with_layer(before, *c, d, e, l, 5));
    }
    proof {
        assert(decls_view(decls@).len() == decls@.len());
    }
    let v5: Vec<Slot> = make_norm_slots(c, d, e, l);
    let h5: Vec<u32> = place(decls, v5);
    proof {
        assert(decls_view(decls@) == with_layer(before, *c, d, e, l, 6));
    }
    (
        LayerCache { kc: h0[0], vc: h0[1], kcs: h0[2], vcs: h0[3] },
        LW {
            wq: h2[0],
            wk: h2[1],
            wv: h2[2],
            wo: h2[3],
            wg: h2[4],
            wu: h2[5],
            wd: h2[6],
            wq8: h3[0],
            wk8: h3[1],
            wv8: h3[2],
            wo8: h3[3],
            wg8: h3[4],
            wu8: h3[5],
            wd8: h3[6],
            sq: h4[0],
            sk: h4[1],
            sv: h4[2],
            so: h4[3],
            sg: h4[4],
            su: h4[5],
            sd: h4[6],
            g_in: h5[0],
            g_pa: h5[1],
            g_pf: h5[2],
            g_po: h5[3],
            qn: h5[4],
            kn: h5[5],
            rproj: h5[6],
            rscale: h5[7],
            rpes: h5[8],
            g_pf1: h5[9],
            g_pf2: h5[10],
            g_pre2: h5[11],
            ewt: h5[12],
            est: h5[13],
        },
    )
}

/// Declares the tensors of a model: the shared ones, then layer by layer.
pub fn declare(k: &EmitConfig, c: &Cfg, n_cu: u32, d: DeclareFor, rope: RopeBytes) -> (r: (
    Vec<TensorDecl>,
    Tensors,
))
    requires
        declare_ok(*k, *c, n_cu, d),
    ensures
        decls_view(r.0@) == decls_up_to(*k, *c, n_cu, d, rope, c.layers as int),
        r.0@.len() < TENSOR_NONE,
        r.1.shared == shared_handles(*k, *c, d, sizes_of(*k, *c, n_cu, d), rope),
        r.1.caches@.len() == c.layers,
        r.1.layers@.len() == c.layers,
        forall|l: int|
            0 <= l < c.layers ==> (#[trigger] r.1.caches@[l]) == cache_handles(
                decls_up_to(*k, *c, n_cu, d, rope, l),
                *c,
                d,
                layer_sizes_of(*k, *c, d, l),
                l as u32,
            ),
        forall|l: int|
            0 <= l < c.layers ==> (#[trigger] r.1.layers@[l]) == weight_handles(
                decls_up_to(*k, *c, n_cu, d, rope, l),
                *c,
                d,
                layer_sizes_of(*k, *c, d, l),
                l as u32,
            ),
{
    let z: Sizes = Sizes::new(k, c, n_cu, d);
    let mut decls: Vec<TensorDecl> = Vec::new();
    let shared: Tn = declare_shared(&mut decls, k, c, d, z, rope);
    let mut caches: Vec<LayerCache> = Vec::new();
    let mut layers: Vec<LW> = Vec::new();
    let mut l: u32 = 0;
    while l < c.layers
        invariant
            l <= c.layers,
            declare_ok(*k, *c, n_cu, d),
            decls_view(decls@) == decls_up_to(*k, *c, n_cu, d, rope, l as int),
            decls@.len() <= 54 + 45 * l,
            caches@.len() == l,
            layers@.len() == l,
            forall|j: int|
                0 <= j < l ==> (#[trigger] caches@[j]) == cache_handles(
                    decls_up_to(*k, *c, n_cu, d, rope, j),
                    *c,
                    d,
                    layer_sizes_of(*k, *c, d, j),
                    j as u32,
                ),
            forall|j: int|
                0 <= j < l ==> (#[trigger] layers@[j]) == weight_handles(
                    decls_up_to(*k, *c, n_cu, d, rope, j),
                    *c,
                    d,
                    layer_sizes_of(*k, *c, d, j),
                    j as u32,
                ),
        decreases c.layers - l,
    {
        proof {
            assert(layer_sizes_ok(*k, *c, d, l as int));
        }
        let e: LayerSizes = LayerSizes::new(k, c, d, l);
        let (cache, lw) = declare_layer(&mut decls, c, d, e, l);
        caches.push(cache);
        layers.push(lw);
        l = l + 1;
    }
    (decls, Tensors { shared, caches, layers })
}

} // verus!
