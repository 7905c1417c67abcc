//! What every program begins and ends with: the rows it embeds, the rows it has logits of, and the
//! tokens it chooses.
use vstd::prelude::*;

use crate::attention::{
    copies_input, flash, head_norms, input_norm, input_proj, merge, o_proj, post_attention, qkv,
    qkv_cuts, HeadIds, Pending, Qkv,
};
use crate::builder::Emitted;
use crate::config::Cfg;
use crate::declare::RopeBytes;
use crate::dense::{
    asked, declared, emits_at, emitted_to, fresh, is_model, progs_view, DenseFor, Model, TmapBytes,
};
use crate::dense_phase::{head, layer_at, layer_step, program, up_to_layer};
use crate::emit_config::EmitConfig;
use crate::gemm::TileTable;
use crate::isa::{insts_view, CuRange, DepView, DevOp, InstView, F32_INF, TENSOR_NONE};
use crate::mlp::{down_proj, early_router, experts, glu, layer_end, Ffn};
use crate::model_laws::emitted_program;
use crate::phase::{layer_of, phase_of, Layer, Mode, Phase, Request};
use crate::program_laws::{layers_are_sound, sound, Rules};
use crate::steps::quant;
use crate::tensors::{Tensors, Tn};

verus! {

/// Whether `b` begins with all that `a` holds.
pub open spec fn goes_on(a: Seq<InstView>, b: Seq<InstView>) -> bool {
    a.len() <= b.len() && forall|i: int| 0 <= i < a.len() ==> #[trigger] b[i] == a[i]
}

proof fn input_norm_goes_on(
    s: Emitted,
    p: Phase,
    y: Layer,
    n: Tn,
    d: u32,
)
    ensures
        goes_on(s.insts, input_norm(s, p, y, n, d).0.insts),
        input_norm(s, p, y, n, d).0.kv_rows == s.kv_rows,
{
    reveal(input_norm);
}

proof fn input_proj_goes_on(
    s: Emitted,
    p: Phase,
    k: EmitConfig,
    tab: TileTable,
    n: Tn,
    pend: Option<Pending>,
    out: u32,
    w: u32,
    w8: u32,
    scale: u32,
    width: u32,
    on: CuRange,
    store: bool,
    after: u32,
)
    ensures
        goes_on(
            s.insts,
            input_proj(
                s,
                p,
                k,
                tab,
                n,
                pend,
                out,
                w,
                w8,
                scale,
                width,
                on,
                store,
                after,
            ).0.insts,
        ),
        input_proj(
            s,
            p,
            k,
            tab,
            n,
            pend,
            out,
            w,
            w8,
            scale,
            width,
            on,
            store,
            after,
        ).0.kv_rows == s.kv_rows,
{
}

proof fn qkv_goes_on(
    s: Emitted,
    p: Phase,
    k: EmitConfig,
    tab: TileTable,
    y: Layer,
    n: Tn,
    pend: Option<Pending>,
    d: u32,
)
    ensures
        goes_on(s.insts, qkv(s, p, k, tab, y, n, pend, d).0.insts),
        qkv(s, p, k, tab, y, n, pend, d).0.kv_rows == s.kv_rows,
{
    reveal(qkv);
    if !(y.fuse_qkv || y.fuse_qkv_fp8) {
        let (x, z, m) = qkv_cuts(p, k, y);
        let cq = CuRange { lo: 0, hi: x as u32 };
        let ck = CuRange { lo: x as u32, hi: z as u32 };
        let cv = CuRange { lo: z as u32, hi: m as u32 };
        let (s0, dq) = if copies_input(p, y) {
            (s, d)
        } else {
            quant(s, p, n.xqh, n.ash, n.hn, p.hidden, d)
        };
        let w = y.w;
        input_proj_goes_on(s0, p, k, tab, n, pend, n.qg, w.wq, w.wq8, w.sq, y.qd, cq, true, dq);
        let s1 = input_proj(s0, p, k, tab, n, pend, n.qg, w.wq, w.wq8, w.sq, y.qd, cq, true, dq).0;
        input_proj_goes_on(s1, p, k, tab, n, pend, n.kg, w.wk, w.wk8, w.sk, y.kd, ck, false, dq);
        let s2 = input_proj(s1, p, k, tab, n, pend, n.kg, w.wk, w.wk8, w.sk, y.kd, ck, false, dq).0;
        input_proj_goes_on(s2, p, k, tab, n, pend, n.vg, w.wv, w.wv8, w.sv, y.kd, cv, false, dq);
    }
}

proof fn head_norms_goes_on(
    s: Emitted,
    p: Phase,
    y: Layer,
    n: Tn,
    x: Qkv,
)
    ensures
        goes_on(s.insts, head_norms(s, p, y, n, x).0.insts),
{
    reveal(head_norms);
}

proof fn flash_goes_on(
    s: Emitted,
    p: Phase,
    y: Layer,
    n: Tn,
    x: Qkv,
    h: HeadIds,
)
    ensures
        goes_on(s.insts, flash(s, p, y, n, x, h).0.insts),
        flash(s, p, y, n, x, h).0.kv_rows == s.kv_rows,
{
    reveal(flash);
}

proof fn merge_goes_on(
    s: Emitted,
    p: Phase,
    y: Layer,
    n: Tn,
    d: u32,
)
    ensures
        goes_on(s.insts, merge(s, p, y, n, d).0.insts),
        merge(s, p, y, n, d).0.kv_rows == s.kv_rows,
{
    reveal(merge);
}

proof fn o_proj_goes_on(
    s: Emitted,
    p: Phase,
    k: EmitConfig,
    tab: TileTable,
    y: Layer,
    n: Tn,
    d: u32,
)
    ensures
        goes_on(s.insts, o_proj(s, p, k, tab, y, n, d).0.insts),
        o_proj(s, p, k, tab, y, n, d).0.kv_rows == s.kv_rows,
{
    reveal(o_proj);
}

proof fn post_attention_goes_on(
    s: Emitted,
    p: Phase,
    y: Layer,
    n: Tn,
    d: u32,
)
    ensures
        goes_on(s.insts, post_attention(s, p, y, n, d).0.insts),
        post_attention(s, p, y, n, d).0.kv_rows == s.kv_rows,
{
    reveal(post_attention);
}

proof fn early_router_goes_on(
    s: Emitted,
    p: Phase,
    k: EmitConfig,
    y: Layer,
    n: Tn,
    d: u32,
)
    ensures
        goes_on(s.insts, early_router(s, p, k, y, n, d).0.insts),
        early_router(s, p, k, y, n, d).0.kv_rows == s.kv_rows,
{
    reveal(early_router);
}

proof fn glu_goes_on(
    s: Emitted,
    p: Phase,
    k: EmitConfig,
    tab: TileTable,
    y: Layer,
    n: Tn,
    d: u32,
)
    ensures
        goes_on(s.insts, glu(s, p, k, tab, y, n, d).0.insts),
        glu(s, p, k, tab, y, n, d).0.kv_rows == s.kv_rows,
{
    reveal(glu);
}

proof fn down_proj_goes_on(
    s: Emitted,
    p: Phase,
    k: EmitConfig,
    tab: TileTable,
    y: Layer,
    n: Tn,
    d: u32,
)
    ensures
        goes_on(s.insts, down_proj(s, p, k, tab, y, n, d).0.insts),
        down_proj(s, p, k, tab, y, n, d).0.kv_rows == s.kv_rows,
{
    reveal(down_proj);
}

proof fn experts_goes_on(
    s: Emitted,
    p: Phase,
    k: EmitConfig,
    y: Layer,
    n: Tn,
    d: u32,
    e: u32,
    f: u32,
)
    ensures
        goes_on(s.insts, experts(s, p, k, y, n, d, e, f).0.insts),
        experts(s, p, k, y, n, d, e, f).0.kv_rows == s.kv_rows,
{
    reveal(experts);
}

proof fn layer_end_goes_on(
    s: Emitted,
    p: Phase,
    y: Layer,
    n: Tn,
    f: Ffn,
    pend: Option<Pending>,
)
    ensures
        goes_on(s.insts, layer_end(s, p, y, n, f, pend).0.insts),
        layer_end(s, p, y, n, f, pend).0.kv_rows == s.kv_rows,
{
    reveal(layer_end);
}

/// A layer is emitted behind what is there: it changes no instruction before it.
pub proof fn a_layer_only_appends(
    s: Emitted,
    p: Phase,
    k: EmitConfig,
    tab: TileTable,
    y: Layer,
    n: Tn,
    dep: u32,
    pend: Option<Pending>,
)
    ensures
        goes_on(s.insts, layer_step(s, p, k, tab, y, n, dep, pend).0.insts),
{
    reveal(layer_step);
    let (s1, c_n) = input_norm(s, p, y, n, dep);
    input_norm_goes_on(s, p, y, n, dep);
    let (s2, x) = qkv(s1, p, k, tab, y, n, pend, c_n);
    qkv_goes_on(s1, p, k, tab, y, n, pend, c_n);
    let pend1 = if y.fuse_qkv || y.fuse_qkv_fp8 { pend } else { None };
    let (s3, h) = head_norms(s2, p, y, n, x);
    head_norms_goes_on(s2, p, y, n, x);
    let (s4, c_fa) = flash(s3, p, y, n, x, h);
    flash_goes_on(s3, p, y, n, x, h);
    let (s5, c_at) = merge(s4, p, y, n, c_fa);
    merge_goes_on(s4, p, y, n, c_fa);
    let (s6, c_o) = o_proj(s5, p, k, tab, y, n, c_at);
    o_proj_goes_on(s5, p, k, tab, y, n, c_at);
    let (s7, c_pf) = post_attention(s6, p, y, n, c_o);
    post_attention_goes_on(s6, p, y, n, c_o);
    let (s8, c_rt) = early_router(s7, p, k, y, n, c_pf);
    early_router_goes_on(s7, p, k, y, n, c_pf);
    let (s9, c_gl) = glu(s8, p, k, tab, y, n, c_pf);
    glu_goes_on(s8, p, k, tab, y, n, c_pf);
    let (s10, c_d) = down_proj(s9, p, k, tab, y, n, c_gl);
    down_proj_goes_on(s9, p, k, tab, y, n, c_gl);
    let (s11, f) = experts(s10, p, k, y, n, c_pf, c_rt, c_d);
    experts_goes_on(s10, p, k, y, n, c_pf, c_rt, c_d);
    layer_end_goes_on(s11, p, y, n, f, pend1);
}

/// A decode layer notes the two steps that write its caches, its keys' and behind it its values',
/// unless its attention writes them; a prefill layer notes none.
pub proof fn a_layer_notes_what_writes_its_caches(
    s: Emitted,
    p: Phase,
    k: EmitConfig,
    tab: TileTable,
    y: Layer,
    n: Tn,
    dep: u32,
    pend: Option<Pending>,
)
    requires
        layer_step(s, p, k, tab, y, n, dep, pend).0.insts.len() <= u32::MAX,
    ensures
        ({
            let t = layer_step(s, p, k, tab, y, n, dep, pend).0;
            let m = s.kv_rows.len() as int;
            &&& !p.decode || y.fuse_hnr ==> t.kv_rows == s.kv_rows
            &&& p.decode && !y.fuse_hnr ==> {
                &&& t.kv_rows.len() == m + 2
                &&& forall|j: int| 0 <= j < m ==> #[trigger] t.kv_rows[j] == s.kv_rows[j]
                &&& s.insts.len() <= t.kv_rows[m] < t.insts.len()
                &&& t.kv_rows[m + 1] == t.kv_rows[m] + 1 && t.kv_rows[m + 1] < t.insts.len()
                &&& t.insts[t.kv_rows[m] as int].args.t0 == y.cache.kc
                &&& t.insts[t.kv_rows[m + 1] as int].args.t0 == y.cache.vc
            }
        }),
{
    reveal(layer_step);
    let (s1, c_n) = input_norm(s, p, y, n, dep);
    input_norm_goes_on(s, p, y, n, dep);
    let (s2, x) = qkv(s1, p, k, tab, y, n, pend, c_n);
    qkv_goes_on(s1, p, k, tab, y, n, pend, c_n);
    let pend1 = if y.fuse_qkv || y.fuse_qkv_fp8 { pend } else { None };
    let (s3, h) = head_norms(s2, p, y, n, x);
    head_norms_goes_on(s2, p, y, n, x);
    let (s4, c_fa) = flash(s3, p, y, n, x, h);
    flash_goes_on(s3, p, y, n, x, h);
    let (s5, c_at) = merge(s4, p, y, n, c_fa);
    merge_goes_on(s4, p, y, n, c_fa);
    let (s6, c_o) = o_proj(s5, p, k, tab, y, n, c_at);
    o_proj_goes_on(s5, p, k, tab, y, n, c_at);
    let (s7, c_pf) = post_attention(s6, p, y, n, c_o);
    post_attention_goes_on(s6, p, y, n, c_o);
    let (s8, c_rt) = early_router(s7, p, k, y, n, c_pf);
    early_router_goes_on(s7, p, k, y, n, c_pf);
    let (s9, c_gl) = glu(s8, p, k, tab, y, n, c_pf);
    glu_goes_on(s8, p, k, tab, y, n, c_pf);
    let (s10, c_d) = down_proj(s9, p, k, tab, y, n, c_gl);
    down_proj_goes_on(s9, p, k, tab, y, n, c_gl);
    let (s11, f) = experts(s10, p, k, y, n, c_pf, c_rt, c_d);
    experts_goes_on(s10, p, k, y, n, c_pf, c_rt, c_d);
    layer_end_goes_on(s11, p, y, n, f, pend1);
    assert(p.decode && !y.fuse_hnr ==> {
        let at = s2.insts.len() as int;
        &&& s3.kv_rows == s2.kv_rows.push((at + 1) as u32).push((at + 2) as u32)
        &&& s3.insts.len() == at + 3
        &&& s3.insts[at + 1].args.t0 == y.cache.kc && s3.insts[at + 2].args.t0 == y.cache.vc
    }) by {
        reveal(head_norms);
    }
    assert(!p.decode || y.fuse_hnr ==> s3.kv_rows == s2.kv_rows) by {
        reveal(head_norms);
    }
}

/// Whether a program notes the two steps that write the caches of layer `i`, its keys' and its values'.
pub open spec fn notes_layer(s: Emitted, tn: Tensors, first: int, i: int) -> bool {
    let a = s.kv_rows[2 * (i - first)];
    let b = s.kv_rows[2 * (i - first) + 1];
    &&& a < b < s.insts.len()
    &&& s.insts[a as int].args.t0 == tn.caches@[i].kc
    &&& s.insts[b as int].args.t0 == tn.caches@[i].vc
}

/// Whether a program notes, of each of its layers before `l`, the two steps that write its caches.
pub open spec fn notes_caches(s: Emitted, tn: Tensors, first: int, l: int) -> bool {
    &&& s.kv_rows.len() == 2 * (l - first)
    &&& forall|i: int| first <= i < l ==> #[trigger] notes_layer(s, tn, first, i)
}

proof fn layers_note_their_caches(
    s: Emitted,
    k: EmitConfig,
    c: Cfg,
    tab: TileTable,
    q: Request,
    tn: Tensors,
    ls: Seq<u32>,
    l: int,
)
    requires
        q.first <= l,
        s.kv_rows.len() == 0,
        up_to_layer(s, k, c, tab, q, tn, ls, l).0.insts.len() <= u32::MAX,
        q.mode != Mode::Prefill,
        forall|i: int| q.first <= i < l ==> !(#[trigger] layer_at(k, c, tab, q, tn, ls, i)).fuse_hnr,
    ensures
        notes_caches(up_to_layer(s, k, c, tab, q, tn, ls, l).0, tn, q.first as int, l),
    decreases l - q.first,
{
    let p = phase_of(k, c, tab, tn.shared.xr, q);
    if l > q.first {
        let (s1, dep, pend) = up_to_layer(s, k, c, tab, q, tn, ls, l - 1);
        let y = layer_at(k, c, tab, q, tn, ls, l - 1);
        a_layer_only_appends(s1, p, k, tab, y, tn.shared, dep, pend);
        layers_note_their_caches(s, k, c, tab, q, tn, ls, l - 1);
        a_layer_notes_what_writes_its_caches(s1, p, k, tab, y, tn.shared, dep, pend);
        assert(p.decode) by {
            reveal(phase_of);
        }
        assert(y.cache == tn.caches@[l - 1]) by {
            reveal(layer_of);
        }
        let t = up_to_layer(s, k, c, tab, q, tn, ls, l).0;
        let f = q.first as int;
        assert forall|i: int| f <= i < l implies #[trigger] notes_layer(t, tn, f, i) by {
            if i < l - 1 {
                assert(notes_layer(s1, tn, f, i));
            }
        }
    }
}

/// Every program starts from nothing: no instruction, no note and no gate is left of the one before
/// it, and only its tensor maps go on. What a model notes is what its last program does.
pub proof fn every_program_starts_from_nothing(
    k: EmitConfig,
    c: Cfg,
    tab: TileTable,
    rs: Seq<Request>,
    tn: Tensors,
    ls: Seq<u32>,
    base: u32,
    i: int,
)
    requires
        0 <= i < rs.len(),
    ensures
        ({
            let e = emitted_to(k, c, tab, rs, tn, ls, base, i);
            let f = emitted_to(k, c, tab, rs, tn, ls, base, i + 1);
            let nothing = Emitted {
                insts: Seq::empty(),
                kv_rows: Seq::empty(),
                xgate: 0,
                tmaps: e.tmaps,
            };
            let s = program(nothing, k, c, tab, rs[i], tn, ls);
            &&& f.progs.len() == e.progs.len() + 1 && f.progs.last() == s.insts
            &&& f.progs.drop_last() == e.progs
            &&& f.tmaps == s.tmaps && f.kv_rows == s.kv_rows
        }),
        ({
            let o = emitted_to(k, c, tab, rs, tn, ls, base, 0);
            o.progs.len() == 0 && o.kv_rows.len() == 0 && o.tmaps.decls.len() == 0 && o.tmaps.base == base
        }),
{
    let e = emitted_to(k, c, tab, rs, tn, ls, base, i);
    let f = emitted_to(k, c, tab, rs, tn, ls, base, i + 1);
    assert(f.progs.drop_last() =~= e.progs);
}

/// A decode program whose attention writes no cache notes, layer by layer, the two steps that write
/// the layer's caches: its keys' and its values'.
pub proof fn a_decode_program_notes_its_cache_writers(
    s: Emitted,
    k: EmitConfig,
    c: Cfg,
    tab: TileTable,
    q: Request,
    tn: Tensors,
    ls: Seq<u32>,
)
    requires
        s.kv_rows.len() == 0,
        q.first <= q.end,
        program(s, k, c, tab, q, tn, ls).insts.len() <= u32::MAX,
        q.mode != Mode::Prefill,
        forall|i: int| q.first <= i < q.end ==> !(#[trigger] layer_at(k, c, tab, q, tn, ls, i)).fuse_hnr,
    ensures
        notes_caches(program(s, k, c, tab, q, tn, ls), tn, q.first as int, q.end as int),
{
    let p = phase_of(k, c, tab, tn.shared.xr, q);
    let (s1, dep, pend) = up_to_layer(s, k, c, tab, q, tn, ls, q.end as int);
    let t = program(s, k, c, tab, q, tn, ls);
    assert(goes_on(s1.insts, t.insts) && t.kv_rows == s1.kv_rows) by {
        reveal(head);
    }
    layers_note_their_caches(s, k, c, tab, q, tn, ls, q.end as int);
    let f = q.first as int;
    assert forall|i: int| f <= i < q.end implies #[trigger] notes_layer(t, tn, f, i) by {
        assert(notes_layer(s1, tn, f, i));
    }
}

/// Each layer of a program is emitted behind those before it.
pub proof fn layers_only_append(
    s: Emitted,
    k: EmitConfig,
    c: Cfg,
    tab: TileTable,
    q: Request,
    tn: Tensors,
    ls: Seq<u32>,
    a: int,
    b: int,
)
    requires
        q.first <= a <= b,
    ensures
        goes_on(
            up_to_layer(s, k, c, tab, q, tn, ls, a).0.insts,
            up_to_layer(s, k, c, tab, q, tn, ls, b).0.insts,
        ),
    decreases b - a,
{
    if a < b {
        layers_only_append(s, k, c, tab, q, tn, ls, a, b - 1);
        let p = phase_of(k, c, tab, tn.shared.xr, q);
        let (s1, dep, pend) = up_to_layer(s, k, c, tab, q, tn, ls, b - 1);
        a_layer_only_appends(
            s1,
            p,
            k,
            tab,
            crate::dense_phase::layer_at(k, c, tab, q, tn, ls, b - 1),
            tn.shared,
            dep,
            pend,
        );
    }
}

/// Whether instruction `i` waits for exactly the one before it, as a whole.
pub open spec fn waits_for_last(insts: Seq<InstView>, i: int) -> bool {
    insts[i].deps == seq![DepView::Coarse((i - 1) as u32)]
}

/// Whether a program of row products writes a decode step's largest logits beside the logits.
pub open spec fn finds_largest(k: EmitConfig, n: Tn, q: Request) -> bool {
    k.fuse_argmax && q.mode == Mode::Decode && n.head8 == TENSOR_NONE && q.t == 1
}

/// Whether a model bounds its logits: its bound is a positive number.
pub open spec fn bounds_logits(c: Cfg) -> bool {
    0 < c.softcap && c.softcap <= F32_INF
}

/// Where a program's logits are written, counted from its end: behind that come the bound on them,
/// where there is one, and the two halves of the choice, of which a head that finds the largest
/// logit has done the first and the bound already.
pub open spec fn logits_at(k: EmitConfig, c: Cfg, n: Tn, q: Request, len: int) -> int {
    if finds_largest(k, n, q) {
        len - 2
    } else if bounds_logits(c) {
        len - 4
    } else {
        len - 3
    }
}

/// Whether an instruction is the head product of a program: of a prefill it covers the last row and
/// no other, of a decode step every row.
pub open spec fn is_head_product(i: InstView, c: Cfg, n: Tn, q: Request) -> bool {
    let a = i.args;
    &&& a.t0 == n.logits
    &&& a.t1 == n.hn
    &&& a.i1 == c.vocab
    &&& a.i2 == c.hidden
    &&& q.mode == Mode::Prefill ==> a.i0 == 1 && a.i4 == q.t - 1
    &&& q.mode != Mode::Prefill ==> a.i0 == q.t && a.i4 == 0
    &&& q.mode != Mode::Prefill && n.head8 != TENSOR_NONE ==> i.op == DevOp::GemvFp8 && a.t2
        == n.head8 && a.t5 == n.head8s
    &&& q.mode == Mode::Prefill || n.head8 == TENSOR_NONE ==> i.op != DevOp::GemvFp8 && a.t2 == (
    if c.tied { n.emb } else { n.head }) && a.t5 == TENSOR_NONE
    &&& i.cus.lo == 0 && i.cus.hi == q.n_cu
}

/// Whether a program's last instruction chooses its tokens: from the parts that the largest logits
/// were found in, one of each row.
pub open spec fn chooses_tokens(insts: Seq<InstView>, k: EmitConfig, n: Tn, q: Request) -> bool {
    let i = insts.len() - 1;
    let a = insts[i].args;
    &&& insts[i].op == DevOp::ArgmaxFin
    &&& a.t0 == n.ids
    &&& a.t1 == n.amax
    &&& a.i0 == (if finds_largest(k, n, q) { q.n_cu } else { 64 })
    &&& a.i1 == (if q.mode != Mode::Prefill && q.t > 1 { q.t } else { 0 })
    &&& insts[i].cus.lo == 0 && insts[i].cus.hi == 1
    &&& waits_for_last(insts, i)
}

/// Whether the instruction before finds the largest logits, over the whole vocabulary.
pub open spec fn searches_logits(insts: Seq<InstView>, c: Cfg, n: Tn, q: Request) -> bool {
    let i = insts.len() - 2;
    let a = insts[i].args;
    &&& insts[i].op == DevOp::Argmax
    &&& a.t0 == n.amax
    &&& a.t1 == n.logits
    &&& a.i0 == c.vocab
    &&& a.i1 == (if q.mode != Mode::Prefill && q.t > 1 { q.t } else { 0 })
    &&& insts[i].cus.lo == 0 && insts[i].cus.hi == 64
    &&& waits_for_last(insts, i)
}

/// Whether instruction `i` bounds every logit of the program's head, in place.
pub open spec fn caps_logits(insts: Seq<InstView>, i: int, c: Cfg, n: Tn, q: Request) -> bool {
    let a = insts[i].args;
    &&& insts[i].op == DevOp::SoftCap
    &&& a.t0 == n.logits
    &&& a.t1 == n.logits
    &&& a.i0 == (if q.mode == Mode::Prefill { 1int } else { q.t as int }) * c.vocab
    &&& a.f0 == c.softcap
    &&& waits_for_last(insts, i)
}

/// Whether instruction `i` is the norm that a head reads.
pub open spec fn norms_for_head(i: InstView, c: Cfg, n: Tn, q: Request) -> bool {
    let a = i.args;
    &&& i.op == DevOp::RmsNorm
    &&& a.t0 == n.hn && a.t1 == n.x && a.t2 == n.fin
    &&& a.i0 == q.t && a.i1 == c.hidden && a.f0 == c.eps
}

/// Whether a program ends as a program does that is no block: with the logits, the bound on them,
/// and the choice of tokens, each behind the other.
pub open spec fn ends_in_tokens(
    insts: Seq<InstView>,
    k: EmitConfig,
    c: Cfg,
    n: Tn,
    q: Request,
) -> bool {
    let at = logits_at(k, c, n, q, insts.len() as int);
    &&& 0 <= at
    &&& is_head_product(insts[at], c, n, q)
    &&& finds_largest(k, n, q) <==> insts[at].op == DevOp::GemvArgmax
    &&& insts[at].args.t3 == (if finds_largest(k, n, q) { n.amax } else { TENSOR_NONE })
    &&& insts[at].args.f0 == (if finds_largest(k, n, q) { c.softcap } else { 0 })
    &&& !finds_largest(k, n, q) ==> searches_logits(insts, c, n, q)
    &&& !finds_largest(k, n, q) && bounds_logits(c) ==> caps_logits(insts, at + 1, c, n, q)
    &&& chooses_tokens(insts, k, n, q)
}

/// Whether a layer's end leaves the norm that comes behind it: steps of row products do, and those
/// of the family whose norms are folded.
pub open spec fn norm_is_left(k: EmitConfig, c: Cfg, q: Request) -> bool {
    q.mode == Mode::Decode || (c.arch == crate::config::Arch::Gemma4 && k.pf_gfuse)
}

#[verifier::spinoff_prover]
proof fn a_head_ends_in_tokens(
    s: Emitted,
    k: EmitConfig,
    c: Cfg,
    tab: TileTable,
    xr: u32,
    q: Request,
    n: Tn,
    dep: u32,
)
    requires
        q.mode == Mode::Prefill ==> q.t > 0,
        s.insts.len() + 7 <= u32::MAX,
        bounds_logits(c) ==> (if q.mode == Mode::Prefill { 1int } else { q.t as int }) * c.vocab
            <= u32::MAX,
    ensures
        ({
            let t = head(s, k, c, tab, phase_of(k, c, tab, xr, q), n, dep).insts;
            let at = logits_at(k, c, n, q, t.len() as int);
            &&& goes_on(s.insts, t)
            &&& ends_in_tokens(t, k, c, n, q)
            &&& norm_is_left(k, c, q) ==> at == s.insts.len() && t[at].deps == seq![
                DepView::Coarse(dep),
            ]
            &&& !norm_is_left(k, c, q) ==> at == s.insts.len() + 1 && norms_for_head(
                t[at - 1],
                c,
                n,
                q,
            ) && t[at - 1].deps == seq![DepView::Coarse(dep)] && waits_for_last(t, at)
        }),
{
    reveal(head);
    reveal(phase_of);
    crate::gemm::each_encoding_chooses_from_its_own_rungs(
        tab,
        1,
        c.vocab,
        c.hidden,
        crate::gemm::QuantScheme::Plain,
        crate::gemm::Field::AllRungs,
    );
    assert(q.mode == Mode::Prefill ==> 1 * c.vocab == c.vocab);
}

/// Every program of a model but a block's begins with the embedding of all its rows and ends with
/// logits and tokens. The logits of a prefill are those of its last row, and of no other: the
/// product covers one row, and that row is `t - 1`. The logits of a decode step are those of every
/// row, from the first.
pub proof fn a_prefill_has_logits_of_its_last_row(
    m: Model,
    k: EmitConfig,
    c: Cfg,
    tab: TileTable,
    f: DenseFor,
    ls: Seq<u32>,
    wave: Seq<u32>,
    rope: RopeBytes,
    b: TmapBytes,
    tn: Tensors,
    i: int,
)
    requires
        is_model(m, k, c, tab, f, ls, wave, rope, b, tn),
        0 <= i < m.progs@.len(),
        !f.block_mode,
    ensures
        ({
            let q = asked(k, c, f, wave)[i];
            let t = insts_view(m.progs@[i].insts@);
            let at = logits_at(k, c, tn.shared, q, t.len() as int);
            &&& ends_in_tokens(t, k, c, tn.shared, q)
            &&& q.mode == Mode::Prefill ==> t[at].args.i0 == 1 && t[at].args.i4 == m.prog_t@[i] - 1
            &&& q.mode != Mode::Prefill ==> t[at].args.i0 == m.prog_t@[i] && t[at].args.i4 == 0
            &&& !norm_is_left(k, c, q) ==> at > 0 && norms_for_head(t[at - 1], c, tn.shared, q)
                && waits_for_last(t, at)
            &&& t[0].op == DevOp::Embed
            &&& t[0].args.t0 == tn.shared.x && t[0].args.t1 == tn.shared.emb && t[0].args.t2
                == tn.shared.ids
            &&& t[0].args.i0 == m.prog_t@[i] && t[0].args.i1 == c.hidden && t[0].args.f0
                == c.emb_scale
            &&& t[0].deps.len() == 0
        }),
{
    reveal(is_model);
    let rs = asked(k, c, f, wave);
    let q = rs[i];
    let base = declared(k, c, f, wave, rope).len() as u32;
    assert(progs_view(m.progs@)[i] == insts_view(m.progs@[i].insts@));
    if rs.len() > 0 {
        emitted_program(k, c, tab, rs, tn, ls, base, rs.len() as int, 0);
    }
    assert(emitted_to(k, c, tab, rs, tn, ls, base, rs.len() as int).progs.len() == m.progs@.len());
    emitted_program(k, c, tab, rs, tn, ls, base, rs.len() as int, i);
    assert(emits_at(k, c, tab, rs, tn, ls, base, i));
    let s = fresh(emitted_to(k, c, tab, rs, tn, ls, base, i).tmaps);
    let p = phase_of(k, c, tab, tn.shared.xr, q);
    assert(p.block_mode == q.block_mode && p.priced == q.priced && p.decode == (q.mode
        != Mode::Prefill) && p.t == q.t && p.hidden == c.hidden && p.gemv == (q.mode
        == Mode::Decode)) by {
        reveal(phase_of);
    }
    let u = Rules {
        priced: q.priced,
        scaled: false,
        argmax: true,
        mx: false,
        fresh: false,
        hn: 0,
        xn2: 0,
        xqh: 0,
    };
    assert(sound(u, s)) by {
        reveal(sound);
    }
    layers_are_sound(u, s, k, c, tab, q, tn, ls, q.end as int);
    layers_only_append(s, k, c, tab, q, tn, ls, q.first as int, q.end as int);
    let (s1, dep, _pend) = up_to_layer(s, k, c, tab, q, tn, ls, q.end as int);
    a_head_ends_in_tokens(s1, k, c, tab, tn.shared.xr, q, tn.shared, dep);
    assert(program(s, k, c, tab, q, tn, ls) == head(s1, k, c, tab, p, tn.shared, dep));
    let e = up_to_layer(s, k, c, tab, q, tn, ls, q.first as int).0.insts;
    assert(e.len() == 1);
    assert(s1.insts[0] == e[0]);
}

} // verus!
