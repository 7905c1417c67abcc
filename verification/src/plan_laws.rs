//! When a dense model is refused, what its plan declares and prices, and how devices share results.
use vstd::prelude::*;

use crate::arith::{ceil_div_bounds, larger};
use crate::builder::{Emitted, TmapDecl};
use crate::config::{Arch, Cfg};
use crate::declare::Gen;
use crate::dense::{
    chunk_rows, declare_for, is_ascending, prefilled, refusal, rungs_below, splits_ok, tmap_decl,
    tmap_name, widths_of, DenseError, DenseFor, TmapBytes,
};
use crate::emit_config::EmitConfig;
use crate::gemm::QuantScheme;
use crate::isa::{DepView, DevOp, TENSOR_NONE};
use crate::phase::{Mode, Request};
use crate::products::{encoding, products_upto, request_products, Product};
use crate::router::split_plan;
use crate::shape::{chunk_ok, local_kv_heads};
use crate::target::IsaLevel;
use crate::text::dec;
use crate::xreduce::{one_shot, reduce, reduce_band, reduce_cus, Band, Gather, Reduction};

verus! {

/// Whether a model can be planned: on some device; with narrow activations only beside narrow
/// weights, and of one kind; with four-bit weights only of a dense model on AMD where nothing else is
/// narrow; in a chunk that can be taken; and with decode widths, ascending, below every prefill width,
/// of a mixture at most 32.
pub open spec fn can_be_planned(k: EmitConfig, c: Cfg, f: DenseFor, wave: Seq<u32>) -> bool {
    let r = k.decode_rungs@;
    &&& c.tp > 0
    &&& !(k.w8a8 && k.w8a16)
    &&& k.w8a8 ==> k.fp8
    &&& k.mxfp4 ==> f.amd && !c.moe && !k.fp8
    &&& chunk_ok(k) && c.window <= 0x8000_0000
    &&& r.len() > 0 && is_ascending(r)
    &&& c.moe ==> r.last() <= 32
    &&& forall|i: int, j: int|
        0 <= i < r.len() && 0 <= j < widths_of(k, c, f, wave).len() ==> (#[trigger] r[i]) < (
        #[trigger] widths_of(k, c, f, wave)[j])
}

/// A model is refused exactly where it cannot be planned, or where its splits do not fit 32 bits; and
/// each refusal says the first thing that is wrong.
pub proof fn models_are_refused_for_the_first_thing_wrong(
    k: EmitConfig,
    c: Cfg,
    f: DenseFor,
    wave: Seq<u32>,
)
    ensures
        refusal(k, c, f, wave) is None <==> can_be_planned(k, c, f, wave) && splits_ok(
            f.n_cu as int,
            larger((c.heads / c.tp) as int, 1),
            chunk_rows(k, c, f),
            widths_of(k, c, f, wave),
        ),
        refusal(k, c, f, wave) == Some(DenseError::Tensors) ==> can_be_planned(k, c, f, wave),
        c.tp == 0 <==> refusal(k, c, f, wave) == Some(DenseError::NoDevice),
        refusal(k, c, f, wave) == Some(DenseError::TwoActivationProfiles) <==> c.tp > 0 && k.w8a8
            && k.w8a16,
        refusal(k, c, f, wave) == Some(DenseError::NarrowActivationsAlone) <==> c.tp > 0 && k.w8a8
            && !k.w8a16 && !k.fp8,
        refusal(k, c, f, wave) == Some(DenseError::Mxfp4) ==> k.mxfp4 && (!f.amd || c.moe || k.fp8),
        refusal(k, c, f, wave) == Some(DenseError::Chunk) ==> !chunk_ok(k) || c.window > 0x8000_0000,
        refusal(k, c, f, wave) == Some(DenseError::NoRung) ==> k.decode_rungs@.len() == 0,
        refusal(k, c, f, wave) == Some(DenseError::RungsOutOfOrder) ==> !is_ascending(k.decode_rungs@),
        refusal(k, c, f, wave) == Some(DenseError::WideMixture) ==> c.moe && k.decode_rungs@.last()
            > 32,
        refusal(k, c, f, wave) == Some(DenseError::RungsOverlapBuckets) ==> !rungs_below(
            k.decode_rungs@,
            widths_of(k, c, f, wave),
        ),
{
    let r = k.decode_rungs@;
    let w = widths_of(k, c, f, wave);
    if rungs_below(r, w) {
        assert forall|i: int, j: int| 0 <= i < r.len() && 0 <= j < w.len() implies (#[trigger] r[i])
            < (#[trigger] w[j]) by {}
    }
}

/// A plan declares the tensors of what was asked for: its encodings as they were set, full layers'
/// caches narrow only where caches are; the widest decode; a mixture's prefill unless its weights are
/// narrow and its activations are not, or it is off; and the scratch of two fused kernels on gfx942
/// alone, for narrow weights of a dense Gemma.
pub proof fn plans_declare_what_was_asked(k: EmitConfig, c: Cfg, f: DenseFor, widths: Seq<u32>)
    requires
        k.decode_rungs@.len() > 0,
    ensures
        ({
            let d = declare_for(k, c, f, widths);
            let reach = f.amd && f.isa == IsaLevel::Gfx942 && k.fp8 && c.arch == Arch::Gemma4 && !c.moe;
            &&& d.ctx == f.ctx && d.first == f.first && d.end == f.end
            &&& d.fp8 == k.fp8 && d.w8a8 == k.w8a8 && d.mx == k.mxfp4 && d.fp8_kv == k.fp8_kv
            &&& d.fp8_kv_full <==> k.fp8_kv && k.fp8_kv_full
            &&& d.dbatch == k.decode_rungs@.last()
            &&& d.moe_pf <==> c.moe && !k.moe_prefill_off && (k.fp8 ==> k.w8a8)
            &&& d.nrn_fold <==> reach && !k.no_fuse_nrn && !k.fuse_qkv_fp8
            &&& d.merge_fold <==> reach && k.fuse_hnr && k.fuse_merge
        }),
        ({
            let off = c.moe && (k.moe_prefill_off || (k.fp8 && !k.w8a8));
            &&& off ==> prefilled(k, c, widths).len() == 0
            &&& !off ==> prefilled(k, c, widths) == widths
        }),
{
}

/// A tensor map of a cache pair is named by its layer and has the pair's bytes; any other is named by
/// its tensor and the sides of its box, and has a view's. Each generates its own map.
pub proof fn tensor_maps_are_named_by_what_they_view(d: TmapDecl, b: TmapBytes)
    ensures
        d.kind is KvPair ==> tmap_name(d) == "tmap.kv."@ + dec(d.a as nat) && tmap_decl(d, b).bytes
            == b.pair,
        !(d.kind is KvPair) ==> tmap_name(d) == "tmap."@ + dec(d.a as nat) + "."@ + dec(d.b as nat)
            + "x"@ + dec(d.c as nat) && tmap_decl(d, b).bytes == b.view,
        tmap_decl(d, b).name == tmap_name(d),
        tmap_decl(d, b).gen == Gen::Tmap(d),
{
    reveal_strlit("");
    assert("tmap.kv."@ + dec(d.a as nat) + ""@ =~= "tmap.kv."@ + dec(d.a as nat));
}

/// Whether a list has a product of `m` rows from `k` to `n` columns, in an encoding.
pub open spec fn has_product(v: Seq<Product>, m: u32, n: u32, k: u32, q: QuantScheme) -> bool {
    exists|i: int|
        0 <= i < v.len() && (#[trigger] v[i]).m == m && v[i].n == n && v[i].k == k && v[i].quant == q
}

/// The tiles of a program are priced for its products: into the queries and keys of both kinds of
/// layers and back from the queries; into the device's share of the gating and back; that again in
/// bf16 for the fused form; and one row of the vocabulary, in bf16. A plain decode step has none.
pub proof fn tiles_are_priced_for_the_products(c: Cfg, q: Request, full: bool)
    requires
        c.tp > 0,
        c.heads * (if full { c.hd_full } else { c.hd_slide }) <= u32::MAX,
        local_kv_heads((if full { c.kvh_full } else { c.kvh_slide }) as int, c.tp as int) * (if full {
            c.hd_full
        } else {
            c.hd_slide
        }) <= u32::MAX,
        0 <= local_kv_heads((if full { c.kvh_full } else { c.kvh_slide }) as int, c.tp as int)
            <= u32::MAX,
    ensures
        ({
            let v = request_products(c, q);
            let e = encoding(q);
            let hd = if full { c.hd_full } else { c.hd_slide };
            let kvh = if full { c.kvh_full } else { c.kvh_slide };
            let qd = ((c.heads / c.tp) * hd) as u32;
            let kd = (local_kv_heads(kvh as int, c.tp as int) * hd) as u32;
            &&& q.mode == Mode::Decode ==> v.len() == 0
            &&& q.mode != Mode::Decode ==> {
                &&& has_product(v, q.t, qd, c.hidden, e)
                &&& has_product(v, q.t, kd, c.hidden, e)
                &&& has_product(v, q.t, c.hidden, qd, e)
                &&& has_product(v, q.t, c.inter / c.tp, c.hidden, e)
                &&& has_product(v, q.t, c.hidden, c.inter / c.tp, e)
                &&& has_product(v, q.t, c.inter / c.tp, c.hidden, QuantScheme::Plain)
                &&& has_product(v, 1, c.vocab, c.hidden, QuantScheme::Plain)
                &&& v.len() == 10
            }
        }),
        encoding(q) == (if q.mxfp4 {
            QuantScheme::Mxfp4
        } else if q.fp8 {
            QuantScheme::W8A8
        } else {
            QuantScheme::Plain
        }),
{
    let v = request_products(c, q);
    if q.mode != Mode::Decode {
        let e = encoding(q);
        let at = if full { 3int } else { 0int };
        assert(v[at].m == q.t);
        assert(v[at + 1].m == q.t);
        assert(v[at + 2].m == q.t);
        assert(v[6].m == q.t);
        assert(v[7].m == q.t);
        assert(v[8].m == q.t);
        assert(v[9].m == 1);
    }
}

proof fn products_of_one(c: Cfg, rs: Seq<Request>, n: int, i: int, x: Product)
    requires
        0 <= i < n <= rs.len(),
        request_products(c, rs[i]).contains(x),
    ensures
        products_upto(c, rs, n).contains(x),
    decreases n,
{
    let before = products_upto(c, rs, n - 1);
    let own = request_products(c, rs[n - 1]);
    let all = products_upto(c, rs, n);
    if i < n - 1 {
        products_of_one(c, rs, n - 1, i, x);
        let k = choose|k: int| 0 <= k < before.len() && before[k] == x;
        assert(all[k] == x);
    } else {
        let k = choose|k: int| 0 <= k < own.len() && own[k] == x;
        assert(all[before.len() + k] == x);
    }
}

/// The products of a model are those of its programs: each program's are among them.
pub proof fn every_program_is_priced(c: Cfg, rs: Seq<Request>, i: int, x: Product)
    requires
        0 <= i < rs.len(),
        request_products(c, rs[i]).contains(x),
    ensures
        products_upto(c, rs, rs.len() as int).contains(x),
{
    products_of_one(c, rs, rs.len() as int, i, x);
}

/// A reduction has a unit to each 512 elements, at least one and no more than were set aside, the
/// first of them.
pub proof fn reductions_take_a_unit_to_512(elems: u32, avail: u32)
    requires
        avail > 0,
    ensures
        ({
            let r = reduce_cus(elems, avail);
            &&& r.lo == 0 && 1 <= r.hi <= avail
            &&& r.hi < avail ==> 512 * r.hi >= elems
            &&& elems > 512 ==> 512 * (r.hi - 1) < elems
            &&& elems <= 512 ==> r.hi == 1
        }),
{
    ceil_div_bounds(elems as int, 512);
}

/// What is reduced is the local result, over all of its elements and the devices, in its window,
/// under a gate of its own. Decode takes one round, as does a gather that the two rounds cannot carry:
/// one whose rows are not the devices' columns side by side, or where that is off. One round carries
/// the gather's window, columns and row; two rounds take a second gate, and carry its window and
/// columns.
pub proof fn reductions_are_over_the_devices(
    s: Emitted,
    k: EmitConfig,
    decode: bool,
    avail: u32,
    deps: Seq<DepView>,
    d: Reduction,
    g: Gather,
    some: bool,
)
    requires
        s.xgate + 2 <= u32::MAX,
        d.tp * g.cols <= u32::MAX,
    ensures
        ({
            let gather = if some { Some(g) } else { None };
            let (t, r) = reduce(s, k, decode, avail, deps, d, gather);
            let i = t.insts[s.insts.len() as int];
            let a = i.args;
            let once = decode || (some && !(k.xr2_gather && g.row_w == d.tp * g.cols));
            &&& t.insts.len() == s.insts.len() + 1 && r == s.insts.len() as u32
            &&& a.t0 == d.out && a.i0 == d.elems && a.i1 == d.tp && a.i2 == d.slot && a.i3 == s.xgate
            &&& i.deps == deps && i.cus == reduce_cus(d.elems, avail)
            &&& once ==> i.op == DevOp::XReduce && t.xgate == s.xgate + 1
            &&& once && some ==> a.i4 == g.slot && a.i5 == g.cols && a.i6 == g.row_w
            &&& once && !some ==> a.i4 == 0 && a.i5 == 0 && a.i6 == 0
            &&& !once ==> i.op == DevOp::XReduceTwoShot && t.xgate == s.xgate + 2 && a.i4 == s.xgate + 1
            &&& !once && some ==> a.i6 == g.slot && a.i7 == g.cols
            &&& !once && !some ==> a.i6 == 0 && a.i7 == 0
            &&& one_shot(k, decode, d.tp, gather) == once
        }),
{
}

/// A band of a reduction takes two rounds under two gates; it has the band's first element, and the
/// residual with the place for the sum where there is one.
pub proof fn bands_are_reduced_in_two_rounds(
    s: Emitted,
    avail: u32,
    deps: Seq<DepView>,
    d: Reduction,
    b: Band,
)
    requires
        s.xgate + 2 <= u32::MAX,
    ensures
        ({
            let (t, r) = reduce_band(s, avail, deps, d, b);
            let i = t.insts[s.insts.len() as int];
            let a = i.args;
            &&& t.insts.len() == s.insts.len() + 1 && r == s.insts.len() as u32
            &&& i.op == DevOp::XReduceTwoShot && i.deps == deps && i.cus == reduce_cus(d.elems, avail)
            &&& a.t0 == d.out && a.i0 == d.elems && a.i1 == d.tp && a.i2 == d.slot
            &&& a.i3 == s.xgate && a.i4 == s.xgate + 1 && t.xgate == s.xgate + 2
            &&& a.i5 == b.e0 && a.i6 == 0 && a.i7 == 0
            &&& b.residual matches Some(x) ==> a.t1 == x.0 && a.t2 == x.1
            &&& b.residual is None ==> a.t1 == TENSOR_NONE && a.t2 == TENSOR_NONE
        }),
{
}

/// A router whose scores are computed apart has a workgroup to eight scores, of those that the
/// machine has; asked for a number, it has that many as far as they can be of use. It scores exactly
/// only where that was asked, and runs as one step where it is fused.
pub proof fn routers_have_a_workgroup_to_eight_scores(k: EmitConfig, n_cu: u32, n_exp: u32, nrow: u32)
    requires
        n_cu > 0,
        nrow * n_exp <= u32::MAX,
    ensures
        split_plan(k, n_cu, n_exp, nrow) is None <==> k.gemma_moe_router_fused,
        split_plan(k, n_cu, n_exp, nrow) matches Some(p) ==> {
            let scores = nrow * n_exp;
            &&& 1 <= p.blocks <= n_cu
            &&& k.gemma_moe_router_blocks is None && p.blocks < n_cu ==> 8 * p.blocks >= scores
            &&& p.blocks > 1 ==> 8 * (p.blocks - 1) < scores
            &&& k.gemma_moe_router_blocks matches Some(v) ==> p.blocks <= larger(v as int, 1) && (p.blocks
                == v || v == 0 || p.blocks == n_cu || 8 * p.blocks >= scores)
            &&& k.gemma_moe_router_exact ==> p.op == DevOp::MoeRouterGemmaScore
            &&& !k.gemma_moe_router_exact ==> p.op == DevOp::MoeRouterGemmaScoreFast
        },
{
    assert(nrow * n_exp >= 0) by (nonlinear_arith)
        requires
            nrow >= 0,
            n_exp >= 0,
    ;
    ceil_div_bounds(nrow * n_exp, 8);
}

} // verus!
