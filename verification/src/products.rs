//! The tiled products of a dense model: what its tiles are priced for.
use vstd::prelude::*;

use crate::amd_target::Priced;
use crate::config::Cfg;
use crate::dense::{asked, make_requests, plan_dense, refusal, DenseError, DenseFor};
use crate::dense_phase::{layer_at, tiled_head};
use crate::emit_config::EmitConfig;
use crate::gemm::{
    cheapest_is_least, chosen, eligible, entry_index, has_tile, prices, rung_op, rungs, Field,
    QuantScheme, ShapeCosts, TileTable,
};
use crate::isa::DevOp;
use crate::phase::{glu_priced, layer_of, phase_of, Mode, Request};
use crate::pricing::{candidates_of, priced_as, wanted_fits, Wanted};
use crate::shape::local_kv_heads;
use crate::steps::proj_ok;
use crate::tensors::Tensors;
use crate::tune::{priced, Measured};

verus! {

/// An `m x n x k` product in an encoding.
#[derive(Clone, Copy, PartialEq, Eq, Debug, Structural)]
pub struct Product {
    pub m: u32,
    pub n: u32,
    pub k: u32,
    pub quant: QuantScheme,
}

/// The encoding of a program's projections.
pub open spec fn encoding(q: Request) -> QuantScheme {
    if q.mxfp4 {
        QuantScheme::Mxfp4
    } else if q.fp8 {
        QuantScheme::W8A8
    } else {
        QuantScheme::Plain
    }
}

/// The width of the queries of a kind of layer on one device.
pub open spec fn query_width(c: Cfg, full: bool) -> u32 {
    ((c.heads / c.tp) * (if full { c.hd_full } else { c.hd_slide })) as u32
}

/// The width of the keys of a kind of layer on one device.
pub open spec fn key_width(c: Cfg, full: bool) -> u32 {
    (local_kv_heads((if full { c.kvh_full } else { c.kvh_slide }) as int, c.tp as int) as u32 * (
    if full { c.hd_full } else { c.hd_slide })) as u32
}

/// The products of a program around the attention of one kind of layer.
pub open spec fn attention_products(c: Cfg, q: Request, full: bool) -> Seq<Product> {
    let quant = encoding(q);
    seq![
        Product { m: q.t, n: query_width(c, full), k: c.hidden, quant },
        Product { m: q.t, n: key_width(c, full), k: c.hidden, quant },
        Product { m: q.t, n: c.hidden, k: query_width(c, full), quant },
    ]
}

/// The products of a program around its gating, and of its head. Whether gating is fused is asked of
/// plain tiles, whatever the encoding.
pub open spec fn other_products(c: Cfg, q: Request) -> Seq<Product> {
    let quant = encoding(q);
    let inter = (c.inter / c.tp) as u32;
    seq![
        Product { m: q.t, n: inter, k: c.hidden, quant },
        Product { m: q.t, n: c.hidden, k: inter, quant },
        Product { m: q.t, n: inter, k: c.hidden, quant: QuantScheme::Plain },
        Product { m: 1, n: c.vocab, k: c.hidden, quant: QuantScheme::Plain },
    ]
}

/// The tiled products of a program. A program of row products has none.
pub open spec fn request_products(c: Cfg, q: Request) -> Seq<Product> {
    if q.mode == Mode::Decode {
        Seq::empty()
    } else {
        attention_products(c, q, false) + attention_products(c, q, true) + other_products(c, q)
    }
}

/// The tiled products of the first `n` programs.
pub open spec fn products_upto(c: Cfg, rs: Seq<Request>, n: int) -> Seq<Product>
    decreases n,
{
    if n <= 0 {
        Seq::empty()
    } else {
        products_upto(c, rs, n - 1) + request_products(c, rs[n - 1])
    }
}

fn times(a: u32, b: u32) -> (r: u32)
    ensures
        r == (a * b) as u32,
{
    proof {
        crate::arith::mul_le(a as int, b as int, u32::MAX as int, u32::MAX as int);
    }
    let v: u64 = a as u64 * b as u64;
    #[verifier::truncate]
    (v as u32)
}

fn push_attention(v: &mut Vec<Product>, c: &Cfg, q: &Request, quant: QuantScheme, full: bool)
    requires
        c.tp > 0,
        quant == encoding(*q),
    ensures
        final(v)@ == old(v)@ + attention_products(*c, *q, full),
{
    let hd: u32 = if full { c.hd_full } else { c.hd_slide };
    let kvh: u32 = if full { c.kvh_full } else { c.kvh_slide };
    let qd: u32 = times(c.heads / c.tp, hd);
    let kd: u32 = times(if c.tp <= kvh { kvh / c.tp } else { 1 }, hd);
    v.push(Product { m: q.t, n: qd, k: c.hidden, quant });
    v.push(Product { m: q.t, n: kd, k: c.hidden, quant });
    v.push(Product { m: q.t, n: c.hidden, k: qd, quant });
    proof {
        assert(v@ =~= old(v)@ + attention_products(*c, *q, full));
    }
}

fn push_request(v: &mut Vec<Product>, c: &Cfg, q: &Request)
    requires
        c.tp > 0,
    ensures
        final(v)@ == old(v)@ + request_products(*c, *q),
{
    if q.mode.gemv() {
        proof {
            assert(v@ =~= old(v)@ + request_products(*c, *q));
        }
        return;
    }
    let quant: QuantScheme = if q.mxfp4 {
        QuantScheme::Mxfp4
    } else if q.fp8 {
        QuantScheme::W8A8
    } else {
        QuantScheme::Plain
    };
    push_attention(v, c, q, quant, false);
    push_attention(v, c, q, quant, true);
    let inter: u32 = c.inter / c.tp;
    v.push(Product { m: q.t, n: inter, k: c.hidden, quant });
    v.push(Product { m: q.t, n: c.hidden, k: inter, quant });
    v.push(Product { m: q.t, n: inter, k: c.hidden, quant: QuantScheme::Plain });
    v.push(Product { m: 1, n: c.vocab, k: c.hidden, quant: QuantScheme::Plain });
    proof {
        assert(v@ =~= old(v)@ + request_products(*c, *q));
    }
}

/// The tiled products of a dense model, program by program, or why the model is refused before any
/// is emitted.
pub fn dense_products(k: &EmitConfig, c: &Cfg, f: DenseFor, wave: &Vec<u32>) -> (r: Result<
    Vec<Product>,
    DenseError,
>)
    ensures
        match r {
            Err(e) => refusal(*k, *c, f, wave@) == Some(e),
            Ok(v) => {
                &&& refusal(*k, *c, f, wave@) is None
                &&& v@ == products_upto(
                    *c,
                    asked(*k, *c, f, wave@),
                    asked(*k, *c, f, wave@).len() as int,
                )
            },
        },
{
    let p = match plan_dense(k, c, f, wave) {
        Ok(p) => p,
        Err(e) => {
            return Err(e);
        },
    };
    let rs: Vec<Request> = make_requests(k, c, f, &p.buckets);
    let mut v: Vec<Product> = Vec::new();
    let mut i: usize = 0;
    while i < rs.len()
        invariant
            c.tp > 0,
            i <= rs@.len(),
            v@ == products_upto(*c, rs@, i as int),
        decreases rs@.len() - i,
    {
        push_request(&mut v, c, &rs[i]);
        i = i + 1;
    }
    Ok(v)
}

/// Whether a table has a tile for a product, and one with a gate epilogue's candidates where the
/// product is plain.
pub open spec fn tiles(tab: TileTable, p: Product) -> bool {
    &&& chosen(tab, p.m, p.n, p.k, p.quant, Field::AllRungs) is Some
    &&& p.quant == QuantScheme::Plain ==> chosen(
        tab,
        p.m,
        p.n,
        p.k,
        p.quant,
        Field::GluRungs,
    ) is Some
}

/// Whether every tile that a program asks for is found.
pub open spec fn tiles_are_found(
    k: EmitConfig,
    c: Cfg,
    tab: TileTable,
    q: Request,
    tn: Tensors,
    ls: Seq<u32>,
) -> bool {
    let p = phase_of(k, c, tab, tn.shared.xr, q);
    &&& glu_priced(c, tab, q)
    &&& forall|l: int|
        q.first <= l < q.end ==> {
            let y = #[trigger] layer_at(k, c, tab, q, tn, ls, l);
            &&& proj_ok(p, tab, p.t, y.qd, p.hidden)
            &&& proj_ok(p, tab, p.t, y.kd, p.hidden)
            &&& proj_ok(p, tab, p.t, p.hidden, y.qd)
        }
    &&& proj_ok(p, tab, p.t, p.inter, p.hidden)
    &&& proj_ok(p, tab, p.t, p.hidden, p.inter)
    &&& tiled_head(k, p, tn.shared) ==> has_tile(
        p.priced,
        tab,
        1,
        c.vocab,
        c.hidden,
        QuantScheme::Plain,
        Field::AllRungs,
    )
}

/// Where each product of a program has a tile, every tile that the program asks for is found.
proof fn products_are_enough(
    k: EmitConfig,
    c: Cfg,
    tab: TileTable,
    q: Request,
    tn: Tensors,
    ls: Seq<u32>,
)
    requires
        c.tp > 0,
        forall|i: int|
            0 <= i < request_products(c, q).len() ==> tiles(tab, #[trigger] request_products(c, q)[i]),
    ensures
        tiles_are_found(k, c, tab, q, tn, ls),
{
    reveal(phase_of);
    let p = phase_of(k, c, tab, tn.shared.xr, q);
    if q.mode != Mode::Decode {
        let v = request_products(c, q);
        assert(v.len() == 10);
        assert(tiles(tab, v[0]) && tiles(tab, v[1]) && tiles(tab, v[2]));
        assert(tiles(tab, v[3]) && tiles(tab, v[4]) && tiles(tab, v[5]));
        assert(tiles(tab, v[6]) && tiles(tab, v[7]) && tiles(tab, v[8]) && tiles(tab, v[9]));
        assert forall|l: int| q.first <= l < q.end implies ({
            let y = #[trigger] layer_at(k, c, tab, q, tn, ls, l);
            &&& proj_ok(p, tab, p.t, y.qd, p.hidden)
            &&& proj_ok(p, tab, p.t, y.kd, p.hidden)
            &&& proj_ok(p, tab, p.t, p.hidden, y.qd)
        }) by {
            reveal(layer_of);
            let y = layer_at(k, c, tab, q, tn, ls, l);
            let full = c.is_full@[l as u32 as int];
            assert(y.qd == query_width(c, full) && y.kd == key_width(c, full));
        }
    }
}

/// The first entry of a table that prices a product, where there is one.
proof fn first_entry(es: Seq<ShapeCosts>, m: u32, n: u32, k: u32, q: QuantScheme, from: int, at: int)
    requires
        0 <= from <= at < es.len(),
        prices(es[at], m, n, k, q),
    ensures
        from <= entry_index(es, m, n, k, q, from) <= at,
        prices(es[entry_index(es, m, n, k, q, from)], m, n, k, q),
    decreases at - from,
{
    if !prices(es[from], m, n, k, q) {
        first_entry(es, m, n, k, q, from + 1, at);
    }
}

/// A table of priced products has a tile for each of them.
proof fn priced_products_have_tiles(
    tab: TileTable,
    part: Priced,
    n_cu: u32,
    rows: Seq<Measured>,
    ws: Seq<Wanted>,
    i: int,
)
    requires
        tab.shapes@.len() == ws.len(),
        forall|j: int| 0 <= j < ws.len() ==> wanted_fits(part, #[trigger] ws[j]),
        forall|j: int|
            0 <= j < ws.len() ==> priced_as(#[trigger] tab.shapes@[j], part, n_cu, rows, ws[j]),
        0 <= i < ws.len(),
    ensures
        tiles(tab, Product { m: ws[i].m, n: ws[i].n, k: ws[i].k, quant: ws[i].quant }),
{
    let w = ws[i];
    assert(priced_as(tab.shapes@[i], part, n_cu, rows, w));
    first_entry(tab.shapes@, w.m, w.n, w.k, w.quant, 0, i);
    let at = entry_index(tab.shapes@, w.m, w.n, w.k, w.quant, 0);
    let x = ws[at];
    assert(priced_as(tab.shapes@[at], part, n_cu, rows, x));
    assert(wanted_fits(part, x));
    let cs = candidates_of(part, x.m, x.n, x.k, n_cu, x.quant, x.cycles@, x.ids@);
    let ks = tab.shapes@[at].kernels@;
    assert(ks == priced(rows, x.case@, cs));
    assert(ks.len() == rungs().len());
    assert(ks[0].op == cs[0].op);
    assert(rung_op(rungs()[0], w.quant) == Some(ks[0].op));
    cheapest_is_least(ks, w.quant, Field::AllRungs, ks.len() as int);
    cheapest_is_least(ks, w.quant, Field::GluRungs, ks.len() as int);
    assert(eligible(ks[0].op, w.quant, Field::AllRungs));
    if w.quant == QuantScheme::Plain {
        assert(ks[0].op == DevOp::Gemm);
        assert(eligible(ks[0].op, w.quant, Field::GluRungs));
    }
}

proof fn product_of_a_program(c: Cfg, rs: Seq<Request>, n: int, i: int, j: int)
    requires
        0 <= i < n <= rs.len(),
        0 <= j < request_products(c, rs[i]).len(),
    ensures
        products_upto(c, rs, n).contains(request_products(c, rs[i])[j]),
    decreases n,
{
    let a = products_upto(c, rs, n - 1);
    let b = request_products(c, rs[n - 1]);
    if i < n - 1 {
        product_of_a_program(c, rs, n - 1, i, j);
        let x = choose|x: int| 0 <= x < a.len() && a[x] == request_products(c, rs[i])[j];
        assert((a + b)[x] == request_products(c, rs[i])[j]);
    } else {
        assert((a + b)[a.len() + j] == b[j]);
    }
}

/// A model whose products were all priced is never refused for want of a tile: each of its programs
/// finds every tile that it asks for.
pub proof fn a_priced_model_finds_its_tiles(
    k: EmitConfig,
    c: Cfg,
    f: DenseFor,
    wave: Seq<u32>,
    tab: TileTable,
    part: Priced,
    rows: Seq<Measured>,
    ws: Seq<Wanted>,
    tn: Tensors,
    ls: Seq<u32>,
    i: int,
)
    requires
        refusal(k, c, f, wave) is None,
        0 <= i < asked(k, c, f, wave).len(),
        tab.shapes@.len() == ws.len(),
        forall|j: int| 0 <= j < ws.len() ==> wanted_fits(part, #[trigger] ws[j]),
        forall|j: int|
            0 <= j < ws.len() ==> priced_as(#[trigger] tab.shapes@[j], part, f.n_cu, rows, ws[j]),
        ({
            let v = products_upto(c, asked(k, c, f, wave), asked(k, c, f, wave).len() as int);
            &&& v.len() == ws.len()
            &&& forall|j: int|
                0 <= j < ws.len() ==> (#[trigger] v[j]) == (Product {
                    m: ws[j].m,
                    n: ws[j].n,
                    k: ws[j].k,
                    quant: ws[j].quant,
                })
        }),
    ensures
        tiles_are_found(k, c, tab, asked(k, c, f, wave)[i], tn, ls),
{
    let rs = asked(k, c, f, wave);
    let v = products_upto(c, rs, rs.len() as int);
    let q = rs[i];
    assert forall|j: int| 0 <= j < request_products(c, q).len() implies tiles(
        tab,
        #[trigger] request_products(c, q)[j],
    ) by {
        product_of_a_program(c, rs, rs.len() as int, i, j);
        let x = choose|x: int| 0 <= x < v.len() && v[x] == request_products(c, q)[j];
        priced_products_have_tiles(tab, part, f.n_cu, rows, ws, x);
    }
    products_are_enough(k, c, tab, q, tn, ls);
}

} // verus!
