//! One program of a dense model: embedding, layers, head.
use vstd::prelude::*;

use crate::attention::{
    emit_flash, emit_head_norms, emit_input_norm, emit_merge, emit_o_proj, emit_post_attention,
    emit_qkv, flash, flash_ok, head_norms, heads_ok, input_norm, merge, merge_ok, o_proj,
    post_attention, qkv, qkv_ok, Pending, Qkv,
};
use crate::builder::{Emission, Emitted};
use crate::config::Cfg;
use crate::emit_config::EmitConfig;
use crate::gemm::{has_tile, pick_tile, tile_op, Field, QuantScheme, TileTable};
use crate::isa::{
    after1, after_none, blank, cus, first_cus, inst, no_args, on1, on_none, Args, DevOp, InstView,
    F32_INF, TENSOR_NONE,
};
use crate::mlp::{
    down_proj, early_router, emit_down_proj, emit_early_router, emit_experts, emit_glu,
    emit_layer_end, experts, experts_ok, glu, glu_ok, layer_end, plain_norm, router_ok,
};
use crate::phase::{
    glu_priced, layer_inputs_ok, layer_of, phase_of, phase_ok, Layer, Phase, Request,
};
use crate::shape::AMAX_BLOCKS;
use crate::steps::{
    elem, elem_cus, emit_rms_norm, mapped, mint_operand_maps, proj_ok, two_maps, view_map,
};
use crate::tensors::{Tensors, Tn};

verus! {

/// The most instructions, gates or tensor maps that one layer takes.
pub const LAYER_ROOM: u32 = 44;

/// The most that embedding and head take together.
pub const ENDS_ROOM: u32 = 8;

/// One layer: what it emits, what the next layer waits for, and the norm it leaves to it.
#[verifier::opaque]
pub open spec fn layer_step(
    s: Emitted,
    p: Phase,
    k: EmitConfig,
    tab: TileTable,
    y: Layer,
    n: Tn,
    dep: u32,
    pend: Option<Pending>,
) -> (Emitted, u32, Option<Pending>) {
    let (s1, c_n) = input_norm(s, p, y, n, dep);
    let (s2, x) = qkv(s1, p, k, tab, y, n, pend, c_n);
    let pend1 = if y.fuse_qkv || y.fuse_qkv_fp8 { pend } else { None };
    let (s3, h) = head_norms(s2, p, y, n, x);
    let (s4, c_fa) = flash(s3, p, y, n, x, h);
    let (s5, c_at) = merge(s4, p, y, n, c_fa);
    let (s6, c_o) = o_proj(s5, p, k, tab, y, n, c_at);
    let (s7, c_pf) = post_attention(s6, p, y, n, c_o);
    let (s8, c_rt) = early_router(s7, p, k, y, n, c_pf);
    let (s9, c_gl) = glu(s8, p, k, tab, y, n, c_pf);
    let (s10, c_d) = down_proj(s9, p, k, tab, y, n, c_gl);
    let (s11, f) = experts(s10, p, k, y, n, c_pf, c_rt, c_d);
    layer_end(s11, p, y, n, f, pend1)
}

/// Whether a layer can be laid out.
#[verifier::opaque]
pub open spec fn layer_ok(p: Phase, k: EmitConfig, tab: TileTable, y: Layer, n: Tn) -> bool {
    &&& qkv_ok(p, k, tab, y)
    &&& proj_ok(p, tab, p.t, p.hidden, y.qd)
    &&& proj_ok(p, tab, p.t, p.hidden, p.inter)
    &&& heads_ok(p, y)
    &&& flash_ok(p, n, y)
    &&& merge_ok(p, y)
    &&& router_ok(p, k, n)
    &&& glu_ok(p, tab)
    &&& experts_ok(p, k)
    &&& y.fuse_hnr ==> !y.fuse_qkv && !y.fuse_qkv_fp8
    &&& p.gemv ==> y.qd > 0 && y.kd > 0
}

fn emit_layer(
    s: &mut Emission,
    p: &Phase,
    k: &EmitConfig,
    tab: &TileTable,
    y: &Layer,
    n: &Tn,
    dep: u32,
    pend: Option<Pending>,
) -> (r: (u32, Option<Pending>))
    requires
        old(s)@.room(LAYER_ROOM as int),
        layer_ok(*p, *k, *tab, *y, *n),
    ensures
        (final(s)@, r.0, r.1) == layer_step(old(s)@, *p, *k, *tab, *y, *n, dep, pend),
        final(s)@.within(old(s)@, LAYER_ROOM as int),
{
    proof {
        reveal(layer_step);
        reveal(layer_ok);
    }
    let c_n: u32 = emit_input_norm(s, p, y, n, dep);
    let x: Qkv = emit_qkv(s, p, k, tab, y, n, pend, c_n);
    let pend1: Option<Pending> = if y.fuse_qkv || y.fuse_qkv_fp8 { pend } else { None };
    let h = emit_head_norms(s, p, y, n, x);
    let c_fa: u32 = emit_flash(s, p, y, n, x, h);
    let c_at: u32 = emit_merge(s, p, y, n, c_fa);
    let c_o: u32 = emit_o_proj(s, p, k, tab, y, n, c_at);
    let c_pf: u32 = emit_post_attention(s, p, y, n, c_o);
    let c_rt: u32 = emit_early_router(s, p, k, y, n, c_pf);
    let c_gl: u32 = emit_glu(s, p, k, tab, y, n, c_pf);
    let c_d: u32 = emit_down_proj(s, p, k, tab, y, n, c_gl);
    let f = emit_experts(s, p, k, y, n, c_pf, c_rt, c_d);
    emit_layer_end(s, p, y, n, f, pend1)
}

/// What one program reads of a model's tensors, each layer's residual scale among them.
pub open spec fn layer_at(
    k: EmitConfig,
    c: Cfg,
    tab: TileTable,
    q: Request,
    tn: Tensors,
    ls: Seq<u32>,
    l: int,
) -> Layer {
    let p = phase_of(k, c, tab, tn.shared.xr, q);
    layer_of(
        k,
        c,
        q,
        p,
        tn.shared,
        tn.caches@[l],
        tn.layers@[l],
        if l + 1 < q.end { tn.layers@[l + 1].g_in } else { tn.shared.fin },
        ls[l],
        l as u32,
    )
}

/// The embedding; layers that stand alone have none.
pub open spec fn embed(s: Emitted, p: Phase, c: Cfg, n: Tn) -> (Emitted, u32) {
    if p.block_mode {
        (s, 0)
    } else {
        (
            s.then_inst(
                inst(
                    DevOp::Embed,
                    first_cus(p.rows as int),
                    on_none(),
                    Args {
                        t0: n.x,
                        t1: n.emb,
                        t2: n.ids,
                        i0: p.t,
                        i1: p.hidden,
                        f0: c.emb_scale,
                        ..no_args()
                    },
                ),
            ),
            s.next(),
        )
    }
}

/// The program up to, and without, layer `l`.
pub open spec fn up_to_layer(
    s: Emitted,
    k: EmitConfig,
    c: Cfg,
    tab: TileTable,
    q: Request,
    tn: Tensors,
    ls: Seq<u32>,
    l: int,
) -> (Emitted, u32, Option<Pending>)
    decreases l - q.first,
{
    let p = phase_of(k, c, tab, tn.shared.xr, q);
    if l <= q.first {
        let (s0, dep) = embed(s, p, c, tn.shared);
        (s0, dep, None)
    } else {
        let (s1, dep, pend) = up_to_layer(s, k, c, tab, q, tn, ls, l - 1);
        layer_step(
            s1,
            p,
            k,
            tab,
            layer_at(k, c, tab, q, tn, ls, l - 1),
            tn.shared,
            dep,
            pend,
        )
    }
}

/// How a program's head is computed.
#[derive(Clone, Copy, PartialEq, Eq, Debug, Structural)]
pub struct Head {
    /// The weight, the rows and the first row.
    pub w: u32,
    pub m: u32,
    pub row0: u32,
    pub op: DevOp,
    /// Whether the weight is narrow, and whether the product also finds the largest.
    pub narrow: bool,
    pub argmax: bool,
}

/// The head of a program: a decode step's head covers its rows, a prefill's the last row.
pub open spec fn head_of(k: EmitConfig, c: Cfg, tab: TileTable, p: Phase, n: Tn) -> Head {
    let row_product = p.gemv || (!p.decode && (match k.pf_gemv_head {
        Some(v) => v,
        None => p.amd,
    }));
    let narrow = p.decode && n.head8 != TENSOR_NONE;
    let argmax = k.fuse_argmax && p.decode && p.gemv && !narrow && p.t == 1;
    Head {
        w: if c.tied { n.emb } else { n.head },
        m: if p.decode { p.t } else { 1 },
        row0: if p.decode { 0 } else { (p.t - 1) as u32 },
        op: if argmax {
            DevOp::GemvArgmax
        } else if narrow {
            DevOp::GemvFp8
        } else if row_product {
            DevOp::Gemv
        } else {
            tile_op(p.priced, tab, 1, c.vocab, c.hidden, QuantScheme::Plain)
        },
        narrow,
        argmax,
    }
}

fn make_head(k: &EmitConfig, c: &Cfg, tab: &TileTable, p: &Phase, n: &Tn) -> (r: Head)
    requires
        head_ok(*k, *c, *tab, *p, *n),
    ensures
        r == head_of(*k, *c, *tab, *p, *n),
{
    let row_product: bool = p.gemv || (!p.decode && (match k.pf_gemv_head {
        Some(v) => v,
        None => p.amd,
    }));
    let narrow: bool = p.decode && n.head8 != TENSOR_NONE;
    let argmax: bool = k.fuse_argmax && p.decode && p.gemv && !narrow && p.t == 1;
    Head {
        w: if c.tied { n.emb } else { n.head },
        m: if p.decode { p.t } else { 1 },
        row0: if p.decode { 0 } else { p.t - 1 },
        op: if argmax {
            DevOp::GemvArgmax
        } else if narrow {
            DevOp::GemvFp8
        } else if row_product {
            DevOp::Gemv
        } else {
            pick_tile(p.priced, tab, 1, c.vocab, c.hidden, QuantScheme::Plain)
        },
        narrow,
        argmax,
    }
}

/// The head product.
pub open spec fn head_inst(
    c: Cfg,
    p: Phase,
    n: Tn,
    h: Head,
    ma: u32,
    mb: u32,
    after: u32,
) -> InstView {
    inst(
        h.op,
        first_cus(p.n_cu as int),
        on1(after),
        Args {
            t0: n.logits,
            t1: n.hn,
            t2: if h.narrow { n.head8 } else { h.w },
            t3: if h.argmax { n.amax } else { TENSOR_NONE },
            t5: if h.narrow { n.head8s } else { TENSOR_NONE },
            i0: h.m,
            i1: c.vocab,
            i2: c.hidden,
            i4: h.row0,
            i6: ma,
            i7: mb,
            f0: if h.argmax { c.softcap } else { 0 },
            ..no_args()
        },
    )
}

/// Whether a number, given by its bit pattern, is positive.
pub open spec fn positive(bits: u32) -> bool {
    0 < bits <= F32_INF
}

/// The steps behind the head product: the cap on the logits, and the choice of a token, whose
/// first half a fused head has done already.
pub open spec fn choose_token(s: Emitted, c: Cfg, p: Phase, n: Tn, h: Head, c_lm: u32) -> Emitted {
    let (s1, c_logits) = if !h.argmax && positive(c.softcap) {
        (
            s.then_inst(
                inst(
                    DevOp::SoftCap,
                    elem_cus(p, (h.m * c.vocab) as u32),
                    on1(c_lm),
                    Args {
                        t0: n.logits,
                        t1: n.logits,
                        i0: (h.m * c.vocab) as u32,
                        f0: c.softcap,
                        ..no_args()
                    },
                ),
            ),
            s.next(),
        )
    } else {
        (s, c_lm)
    };
    let (s2, c_am, parts) = if h.argmax {
        (s1, c_lm, p.n_cu)
    } else {
        (
            s1.then_inst(
                inst(
                    DevOp::Argmax,
                    first_cus(AMAX_BLOCKS as int),
                    on1(c_logits),
                    Args { t0: n.amax, t1: n.logits, i0: c.vocab, i1: p.nb, ..no_args() },
                ),
            ),
            s1.next(),
            AMAX_BLOCKS,
        )
    };
    s2.then_inst(
        inst(
            DevOp::ArgmaxFin,
            first_cus(1),
            on1(c_am),
            Args { t0: n.ids, t1: n.amax, i0: parts, i1: p.nb, ..no_args() },
        ),
    )
}

/// The head of a program: the last norm unless a layer did it, the product, and the token.
#[verifier::opaque]
pub open spec fn head(
    s: Emitted,
    k: EmitConfig,
    c: Cfg,
    tab: TileTable,
    p: Phase,
    n: Tn,
    dep: u32,
) -> Emitted {
    let (s1, c_f) = if p.fuse_norm || p.gfuse {
        (s, dep)
    } else {
        (s.then_inst(plain_norm(p, n.hn, n.x, n.fin, dep)), s.next())
    };
    let h = head_of(k, c, tab, p, n);
    let (s2, ma, mb) = two_maps(
        s1,
        p.tma && mapped(h.op),
        view_map(n.hn, (h.row0 + h.m) as u32, c.hidden, false),
        view_map(h.w, c.vocab, c.hidden, false),
    );
    let s3 = s2.then_inst(head_inst(c, p, n, h, ma, mb, c_f));
    choose_token(s3, c, p, n, h, s2.next())
}

/// Whether a program's head is a tiled product.
pub open spec fn tiled_head(k: EmitConfig, p: Phase, n: Tn) -> bool {
    &&& !p.gemv
    &&& p.decode ==> n.head8 == TENSOR_NONE
    &&& !p.decode ==> !(match k.pf_gemv_head {
        Some(v) => v,
        None => p.amd,
    })
}

/// Whether a program's head can be laid out.
pub open spec fn head_ok(k: EmitConfig, c: Cfg, tab: TileTable, p: Phase, n: Tn) -> bool {
    &&& !p.decode ==> p.t > 0
    &&& tiled_head(k, p, n) ==> has_tile(
        p.priced,
        tab,
        1,
        c.vocab,
        c.hidden,
        QuantScheme::Plain,
        Field::AllRungs,
    )
    &&& positive(c.softcap) ==> (if p.decode { p.t } else { 1 }) * c.vocab <= u32::MAX
}

fn emit_choose_token(s: &mut Emission, c: &Cfg, p: &Phase, n: &Tn, h: Head, c_lm: u32)
    requires
        old(s)@.room(3),
        positive(c.softcap) ==> h.m * c.vocab <= u32::MAX,
    ensures
        final(s)@ == choose_token(old(s)@, *c, *p, *n, h, c_lm),
        final(s)@.within(old(s)@, 3),
{
    let capped: bool = 0 < c.softcap && c.softcap <= F32_INF;
    let c_logits: u32 = if !h.argmax && capped {
        let elems: u32 = h.m * c.vocab;
        s.emit(
            DevOp::SoftCap,
            elem(p, elems),
            after1(c_lm),
            Args { t0: n.logits, t1: n.logits, i0: elems, f0: c.softcap, ..blank() },
        )
    } else {
        c_lm
    };
    let (c_am, parts) = if h.argmax {
        (c_lm, p.n_cu)
    } else {
        let c_am: u32 = s.emit(
            DevOp::Argmax,
            cus(AMAX_BLOCKS),
            after1(c_logits),
            Args { t0: n.amax, t1: n.logits, i0: c.vocab, i1: p.nb, ..blank() },
        );
        (c_am, AMAX_BLOCKS)
    };
    let _c_fin: u32 = s.emit(
        DevOp::ArgmaxFin,
        cus(1),
        after1(c_am),
        Args { t0: n.ids, t1: n.amax, i0: parts, i1: p.nb, ..blank() },
    );
}

fn emit_head(
    s: &mut Emission,
    k: &EmitConfig,
    c: &Cfg,
    tab: &TileTable,
    p: &Phase,
    n: &Tn,
    dep: u32,
)
    requires
        old(s)@.room(7),
        head_ok(*k, *c, *tab, *p, *n),
    ensures
        final(s)@ == head(old(s)@, *k, *c, *tab, *p, *n, dep),
        final(s)@.within(old(s)@, 7),
{
    proof {
        reveal(head);
    }
    let c_f: u32 = if p.fuse_norm || p.gfuse {
        dep
    } else {
        emit_rms_norm(s, p, n.hn, n.x, n.fin, TENSOR_NONE, TENSOR_NONE, after1(dep))
    };
    let h: Head = make_head(k, c, tab, p, n);
    let mappable: bool = h.op == DevOp::Gemm || h.op == DevOp::GemmMed || h.op
        == DevOp::GemmSmall;
    let on: bool = p.tma && mappable;
    let (ma, mb) = mint_head_maps(s, on, n.hn, h.w, h.row0 + h.m, c.vocab, c.hidden);
    let c_lm: u32 = s.emit(
        h.op,
        cus(p.n_cu),
        after1(c_f),
        Args {
            t0: n.logits,
            t1: n.hn,
            t2: if h.narrow { n.head8 } else { h.w },
            t3: if h.argmax { n.amax } else { TENSOR_NONE },
            t5: if h.narrow { n.head8s } else { TENSOR_NONE },
            i0: h.m,
            i1: c.vocab,
            i2: c.hidden,
            i4: h.row0,
            i6: ma,
            i7: mb,
            f0: if h.argmax { c.softcap } else { 0 },
            ..blank()
        },
    );
    emit_choose_token(s, c, p, n, h, c_lm);
}

fn mint_head_maps(
    s: &mut Emission,
    on: bool,
    a: u32,
    b: u32,
    m: u32,
    n: u32,
    k: u32,
) -> (r: (u32, u32))
    requires
        old(s)@.room(2),
    ensures
        (final(s)@, r.0, r.1) == two_maps(
            old(s)@,
            on,
            view_map(a, m, k, false),
            view_map(b, n, k, false),
        ),
        final(s)@.within(old(s)@, 2),
        final(s)@.insts == old(s)@.insts,
{
    mint_operand_maps(s, on, a, b, m, n, k, false)
}

/// A whole program.
pub open spec fn program(
    s: Emitted,
    k: EmitConfig,
    c: Cfg,
    tab: TileTable,
    q: Request,
    tn: Tensors,
    ls: Seq<u32>,
) -> Emitted {
    let p = phase_of(k, c, tab, tn.shared.xr, q);
    let (s1, dep, pend) = up_to_layer(s, k, c, tab, q, tn, ls, q.end as int);
    if p.block_mode {
        s1
    } else {
        head(s1, k, c, tab, p, tn.shared, dep)
    }
}

/// Whether layer `l` of a program can be laid out.
pub open spec fn layer_ok_at(
    k: EmitConfig,
    c: Cfg,
    tab: TileTable,
    q: Request,
    tn: Tensors,
    ls: Seq<u32>,
    l: int,
) -> bool {
    let p = phase_of(k, c, tab, tn.shared.xr, q);
    layer_inputs_ok(k, c, q, p, l as u32) && layer_ok(
        p,
        k,
        tab,
        layer_at(k, c, tab, q, tn, ls, l),
        tn.shared,
    )
}

/// Whether a program can be emitted: its layers lie within the model and each can be laid out.
pub open spec fn program_ok(
    k: EmitConfig,
    c: Cfg,
    tab: TileTable,
    q: Request,
    tn: Tensors,
    ls: Seq<u32>,
) -> bool {
    let p = phase_of(k, c, tab, tn.shared.xr, q);
    &&& phase_ok(k, c, q)
    &&& glu_priced(c, tab, q)
    &&& q.first <= q.end
    &&& q.end <= tn.caches@.len()
    &&& q.end <= tn.layers@.len()
    &&& q.end <= ls.len()
    &&& forall|l: int| q.first <= l < q.end ==> #[trigger] layer_ok_at(k, c, tab, q, tn, ls, l)
    &&& q.block_mode || head_ok(k, c, tab, p, tn.shared)
}

/// Emits one program of a dense model.
pub fn emit_phase(
    s: &mut Emission,
    k: &EmitConfig,
    c: &Cfg,
    tab: &TileTable,
    q: Request,
    tn: &Tensors,
    ls: &Vec<u32>,
)
    requires
        program_ok(*k, *c, *tab, q, *tn, ls@),
        old(s)@.room(LAYER_ROOM * (q.end - q.first) + ENDS_ROOM),
    ensures
        final(s)@ == program(old(s)@, *k, *c, *tab, q, *tn, ls@),
        final(s)@.within(old(s)@, LAYER_ROOM * (q.end - q.first) + ENDS_ROOM),
{
    let p: Phase = Phase::new(k, c, tab, tn.shared.xr, q);
    proof {
        assert(p.block_mode == q.block_mode) by {
            reveal(phase_of);
        }
    }
    let n: Tn = tn.shared;
    let mut dep: u32 = if p.block_mode {
        0
    } else {
        s.emit(
            DevOp::Embed,
            cus(p.rows),
            after_none(),
            Args {
                t0: n.x,
                t1: n.emb,
                t2: n.ids,
                i0: p.t,
                i1: p.hidden,
                f0: c.emb_scale,
                ..blank()
            },
        )
    };
    let mut pend: Option<Pending> = None;
    let mut l: u32 = q.first;
    while l < q.end
        invariant
            q.first <= l <= q.end,
            n == tn.shared,
            p == phase_of(*k, *c, *tab, tn.shared.xr, q),
            program_ok(*k, *c, *tab, q, *tn, ls@),
            old(s)@.room(LAYER_ROOM * (q.end - q.first) + ENDS_ROOM),
            s@.within(old(s)@, LAYER_ROOM * (l - q.first) + 1),
            (s@, dep, pend) == up_to_layer(old(s)@, *k, *c, *tab, q, *tn, ls@, l as int),
        decreases q.end - l,
    {
        let next_gin: u32 = if l + 1 < q.end { tn.layers[l as usize + 1].g_in } else { n.fin };
        proof {
            assert(layer_ok_at(*k, *c, *tab, q, *tn, ls@, l as int));
            assert((l as int) as u32 == l);
        }
        let y: Layer = Layer::new(
            k,
            c,
            q,
            &p,
            &n,
            tn.caches[l as usize],
            tn.layers[l as usize],
            next_gin,
            ls[l as usize],
            l,
        );
        let (d, f) = emit_layer(s, &p, k, tab, &y, &n, dep, pend);
        dep = d;
        pend = f;
        l = l + 1;
    }
    if !p.block_mode {
        emit_head(s, k, c, tab, &p, &n, dep);
    }
}

} // verus!
