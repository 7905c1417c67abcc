//! How caches and splits are sized, which tiles are chosen, and what a refused model is told.
use vstd::prelude::*;

use crate::arith::{
    ceil_div, ceil_div_bounds, divides, gcd_is_greatest, gcd_of, is_pow2, larger, next_pow2,
    next_pow2_is_least, next_pow2_monotone,
};
use crate::config::Cfg;
use crate::emit_config::EmitConfig;
use crate::finish::{covered, refuses, runs_on, Refused};
use crate::gate::{
    dispatched, foreign_tiles, geometry_fault, lacks_scale, none_in, offenders_are_exact,
    routes_in_groups, topk_refusal, unarmed, GeometryError, RopeError,
};
use crate::gemm::{
    buffers_of, cheapest, chosen, eligible, entry_index, has_tile, priced_only, prices, Field,
    QuantScheme, ShapeCosts, TileTable,
};
use crate::isa::{DevOp, InstView};
use crate::phase::{decode_splits, grid_aligned, Request};
use crate::refusals::{geometry_refusal, rope_refusal};
use crate::shape::{argmax_parts, chunk_of, group_factor, merge_dsplit, ring_of, ring_rows};
use crate::text::{begins, dec};

verus! {

/// A chosen chunk is the chunk. One that nobody chose is the least power of two, from 128 on, that
/// holds the window, and never over 8192; it is 8192 where no window limits the attention.
pub proof fn chunks_follow_from_their_windows(k: EmitConfig, window: int, p: int)
    requires
        window >= 0,
    ensures
        k.max_chunk matches Some(v) ==> chunk_of(k, window) == v,
        k.max_chunk is None ==> {
            let c = chunk_of(k, window);
            &&& 128 <= c <= 8192
            &&& is_pow2(c)
            &&& window == 0 || window > 4096 ==> c == 8192
            &&& 0 < window <= 8192 ==> c >= window
            &&& window > 0 && 128 <= p && p >= window && is_pow2(p) ==> c <= p
        },
{
    reveal_with_fuel(is_pow2, 15);
    reveal_with_fuel(next_pow2, 15);
    assert(is_pow2(128) && is_pow2(8192));
    assert(next_pow2(4097) == 8192);
    next_pow2_is_least(window);
    if window > 4096 {
        next_pow2_monotone(4097, window);
    }
}

/// A full layer's cache has a row to each of the context and no mask. A windowed layer's has the least
/// power of two of rows that holds the window behind a chunk and the chunk, or the context where that
/// is less, and is indexed by its rows less one.
pub proof fn caches_are_rings_of_a_power_of_two(ctx: int, window: int, chunk: int, p: int)
    ensures
        ring_of(true, ctx, window, chunk) == (ctx, u32::MAX as int),
        ({
            let (r, m) = ring_of(false, ctx, window, chunk);
            &&& m == r - 1
            &&& r <= ctx
            &&& r < ctx ==> is_pow2(r) && r >= window + chunk - 1
            &&& is_pow2(p) && p >= window + chunk - 1 ==> r <= p
        }),
        is_pow2(ring_rows(window, chunk)),
{
    next_pow2_is_least(window + chunk - 1);
}

/// The group factor is the chosen one where kernels are built for it, and two otherwise; a merge is
/// split as chosen, and at least in one piece; and the largest logit is searched in 64 parts, or in one
/// to each unit where the head searches and there are more.
pub proof fn chosen_numbers_are_held_to_what_is_built(k: EmitConfig, n_cu: int)
    ensures
        k.fa_gf_full is None ==> group_factor(k) == 2,
        k.fa_gf_full matches Some(v) ==> {
            &&& v == 1 || v == 2 || v == 4 || v == 8 || v == 16 ==> group_factor(k) == v
            &&& v != 1 && v != 2 && v != 4 && v != 8 && v != 16 ==> group_factor(k) == 2
        },
        k.flash_merge_dsplit is None ==> merge_dsplit(k) == 1,
        k.flash_merge_dsplit matches Some(v) ==> v > 0 ==> merge_dsplit(k) == v,
        k.flash_merge_dsplit == Some(0u32) ==> merge_dsplit(k) == 1,
        !k.fuse_argmax ==> argmax_parts(k, n_cu) == 64,
        k.fuse_argmax && n_cu >= 64 ==> argmax_parts(k, n_cu) == n_cu,
        k.fuse_argmax && n_cu < 64 ==> argmax_parts(k, n_cu) == 64,
{
}

/// Splits rounded to the grid are the least that are no fewer and with which the groups of heads go
/// round the units a whole number of times; where those are more than the most that are built, the
/// splits stay.
pub proof fn splits_go_round_the_grid(ns: int, heads: int, gf: int, n_cu: int, top: int)
    requires
        ns > 0,
        heads > 0,
        gf > 0,
        n_cu > 0,
    ensures
        ({
            let r = grid_aligned(ns, heads, gf, n_cu, top);
            let groups = larger(heads / gf, 1);
            let step = n_cu / gcd_of(groups as nat, n_cu as nat) as int;
            &&& r >= ns
            &&& step > 0 && divides(n_cu, step * groups)
            &&& r != ns ==> r <= top && r % step == 0 && r - ns < step
            &&& ns % step == 0 ==> r == ns
        }),
{
    let groups = larger(heads / gf, 1);
    let g = gcd_of(groups as nat, n_cu as nat) as int;
    gcd_is_greatest(groups as nat, n_cu as nat);
    let step = n_cu / g;
    let a = choose|a: int| #[trigger] (g * a) == n_cu;
    let b = choose|b: int| #[trigger] (g * b) == groups;
    assert(step == a && a > 0) by (nonlinear_arith)
        requires
            g > 0,
            n_cu == g * a,
            n_cu > 0,
            step == n_cu / g,
    ;
    assert(step * groups == n_cu * b) by (nonlinear_arith)
        requires
            step == a,
            n_cu == g * a,
            groups == g * b,
    ;
    ceil_div_bounds(ns, step);
    let c = ceil_div(ns, step);
    assert((c * step) % step == 0) by (nonlinear_arith)
        requires
            step > 0,
    ;
    assert((c - 1) * step == c * step - step) by (nonlinear_arith);
    if ns % step == 0 {
        let q = ns / step;
        assert(q * step == ns) by (nonlinear_arith)
            requires
                ns % step == 0,
                q == ns / step,
                step > 0,
        ;
        assert(c == q) by (nonlinear_arith)
            requires
                c * step >= q * step,
                (c - 1) * step < q * step,
                step > 0,
        ;
    }
}

/// A full layer of a long context takes whole rounds of the grid: up to 64 splits in a model of both
/// kinds of layers, and up to 128 where it has a single head of keys and a narrow cache.
pub proof fn long_full_layers_go_round_the_grid(
    k: EmitConfig,
    c: Cfg,
    q: Request,
    heads: int,
    fp8_kv: bool,
)
    requires
        q.ctx > 8192,
        k.ns_abs is None,
        k.ns_full_abs is None,
    ensures
        ({
            let mul = if k.ns_mul is Some { k.ns_mul->0 as int } else { 2int };
            let share = larger(ceil_div(q.n_cu * mul, c.heads as int), 1);
            let gf = group_factor(k) as int;
            let ns = decode_splits(k, c, q, heads, true, fp8_kv);
            &&& c.kvh_full >= 4 && c.kvh_slide != c.kvh_full ==> ns == grid_aligned(
                larger(share, 16),
                heads,
                gf,
                q.n_cu as int,
                64,
            )
            &&& c.kvh_full == 1 && fp8_kv ==> ns == grid_aligned(share, heads, gf, q.n_cu as int, 128)
        }),
{
}

/// A product is priced by the first entry of its own sizes and encoding, by the cheapest kernel that
/// may be chosen there; a target whose tiles are not priced always has one.
pub proof fn products_are_priced_by_their_own_entry(
    tab: TileTable,
    m: u32,
    n: u32,
    k: u32,
    q: QuantScheme,
    f: Field,
    i: int,
)
    ensures
        0 <= i < tab.shapes@.len() && tab.shapes@[i].m == m && tab.shapes@[i].n == n && tab.shapes@[i].k
            == k && tab.shapes@[i].quant == q && (forall|j: int|
            0 <= j < i ==> !((#[trigger] tab.shapes@[j]).m == m && tab.shapes@[j].n == n
                && tab.shapes@[j].k == k && tab.shapes@[j].quant == q)) ==> {
            let ks = tab.shapes@[i].kernels@;
            match cheapest(ks, q, f, ks.len() as int) {
                Some(b) => chosen(tab, m, n, k, q, f) == Some(ks[b].op),
                None => chosen(tab, m, n, k, q, f) is None,
            }
        },
        (forall|j: int|
            0 <= j < tab.shapes@.len() ==> !((#[trigger] tab.shapes@[j]).m == m && tab.shapes@[j].n == n
                && tab.shapes@[j].k == k && tab.shapes@[j].quant == q)) ==> chosen(tab, m, n, k, q, f)
            is None,
        has_tile(false, tab, m, n, k, q, f),
        has_tile(true, tab, m, n, k, q, f) <==> chosen(tab, m, n, k, q, f) is Some,
{
    let es = tab.shapes@;
    if 0 <= i < es.len() && prices(es[i], m, n, k, q) && (forall|j: int|
        0 <= j < i ==> !((#[trigger] es[j]).m == m && es[j].n == n && es[j].k == k && es[j].quant == q)) {
        entry_is_found(es, m, n, k, q, 0, i);
    }
    if forall|j: int|
        0 <= j < es.len() ==> !((#[trigger] es[j]).m == m && es[j].n == n && es[j].k == k && es[j].quant
            == q) {
        entry_is_found(es, m, n, k, q, 0, es.len() as int);
    }
}

proof fn entry_is_found(
    es: Seq<ShapeCosts>,
    m: u32,
    n: u32,
    k: u32,
    q: QuantScheme,
    from: int,
    i: int,
)
    requires
        0 <= from <= i <= es.len(),
        i < es.len() ==> prices(es[i], m, n, k, q),
        forall|j: int|
            from <= j < i ==> !((#[trigger] es[j]).m == m && es[j].n == n && es[j].k == k && es[j].quant
                == q),
    ensures
        entry_index(es, m, n, k, q, from) == i,
    decreases i - from,
{
    if from < i {
        assert(!prices(es[from], m, n, k, q));
        entry_is_found(es, m, n, k, q, from + 1, i);
    }
}

/// The two widest rungs, in each encoding, are the priced target's alone; it stages as many buffers as
/// its part does, and an unknown part two.
pub proof fn the_widest_rungs_are_the_priced_targets(op: DevOp)
    ensures
        priced_only(op) <==> op == DevOp::GemmWide || op == DevOp::GemmWideFp8 || op
            == DevOp::GemmWideMxfp4 || op == DevOp::GemmC5 || op == DevOp::GemmC5Fp8 || op
            == DevOp::GemmC5Mxfp4,
        buffers_of(None) == 2,
        eligible(DevOp::GemmMxfp4, QuantScheme::Mxfp4, Field::AllRungs) ==> eligible(
            DevOp::GemmMxfp4,
            QuantScheme::Mxfp4,
            Field::GluRungs,
        ),
        !eligible(DevOp::GemmWide, QuantScheme::Plain, Field::GluRungs),
        !eligible(DevOp::GemmC5, QuantScheme::Plain, Field::GluRungs),
{
}

/// The opcodes that a model is refused for are those that it carries and the target cannot run.
pub proof fn refused_opcodes_are_carried(progs: Seq<Seq<InstView>>, op: DevOp)
    ensures
        unarmed(progs).contains(op) <==> !dispatched(op) && exists|p: int, i: int|
            0 <= p < progs.len() && 0 <= i < progs[p].len() && (#[trigger] progs[p][i]).op == op,
        foreign_tiles(progs).contains(op) <==> priced_only(op) && exists|p: int, i: int|
            0 <= p < progs.len() && 0 <= i < progs[p].len() && (#[trigger] progs[p][i]).op == op,
{
    offenders_are_exact(progs, |op: DevOp| !dispatched(op), progs.len() as int, op);
    offenders_are_exact(progs, |op: DevOp| priced_only(op), progs.len() as int, op);
}

/// A model that a target can run, and that is covered, is not refused; an AMD target refuses for
/// scales and arms alone, another for tiles and groups alone; and what is not covered is refused for
/// that, unless it is not to be.
pub proof fn models_that_run_are_not_refused(
    e: Refused,
    progs: Seq<Seq<InstView>>,
    amd: bool,
    coverage: Result<(), String>,
    skip: bool,
)
    ensures
        refuses(e, progs, amd, coverage, skip) && covered(coverage, skip) ==> !runs_on(progs, amd),
        refuses(e, progs, amd, coverage, skip) && !covered(coverage, skip) ==> e is Uncovered,
        refuses(e, progs, amd, coverage, skip) && e is Uncovered ==> coverage is Err && !skip,
        refuses(e, progs, amd, coverage, skip) && (e is Scale || e is NoArm) ==> amd,
        refuses(e, progs, amd, coverage, skip) && (e is ForeignTile || e is Groups) ==> !amd,
        covered(coverage, skip) <==> coverage is Ok || skip,
        amd ==> (runs_on(progs, amd) <==> unarmed(progs).len() == 0 && none_in(
            progs,
            |i: InstView| lacks_scale(i),
        )),
        !amd ==> (runs_on(progs, amd) <==> foreign_tiles(progs).len() == 0 && none_in(
            progs,
            |i: InstView| routes_in_groups(i),
        )),
{
}

/// Latent heads are 512 wide, rotated in 64 columns or in none, and give values in multiples of four;
/// anything else is refused for the first width that is wrong.
pub proof fn latent_heads_have_their_widths(dk: u32, dr: u32, vd: u32)
    ensures
        geometry_fault(dk, dr, vd) is None <==> dk == 512 && (dr == 0 || dr == 64) && vd >= 4 && vd % 4
            == 0,
        geometry_fault(dk, dr, vd) == Some(GeometryError::Latent) <==> dk != 512,
        geometry_fault(512, dr, vd) == Some(GeometryError::Rope) <==> dr != 0 && dr != 64,
        geometry_fault(512, 64, vd) == Some(GeometryError::Value) <==> vd % 4 != 0 || vd == 0,
        geometry_fault(512, 0, vd) == geometry_fault(512, 64, vd),
{
}

/// A refused shape is told by the model's name and the width that is wrong, and by no other width.
pub proof fn refused_shapes_name_their_width(model: Seq<char>, dk: nat, dr: nat, vd: nat, x: nat, y: nat)
    ensures
        begins(
            geometry_refusal(GeometryError::Latent, model, dk, dr, vd),
            model + ": kv_lora_rank = "@ + dec(dk),
        ),
        begins(
            geometry_refusal(GeometryError::Rope, model, dk, dr, vd),
            model + ": qk_rope_head_dim = "@ + dec(dr),
        ),
        begins(
            geometry_refusal(GeometryError::Value, model, dk, dr, vd),
            model + ": v_head_dim = "@ + dec(vd),
        ),
        geometry_refusal(GeometryError::Latent, model, dk, x, y) == geometry_refusal(
            GeometryError::Latent,
            model,
            dk,
            dr,
            vd,
        ),
        geometry_refusal(GeometryError::Rope, model, x, dr, y) == geometry_refusal(
            GeometryError::Rope,
            model,
            dk,
            dr,
            vd,
        ),
        geometry_refusal(GeometryError::Value, model, x, y, vd) == geometry_refusal(
            GeometryError::Value,
            model,
            dk,
            dr,
            vd,
        ),
{
    let a = geometry_refusal(GeometryError::Latent, model, dk, dr, vd);
    let b = geometry_refusal(GeometryError::Rope, model, dk, dr, vd);
    let c = geometry_refusal(GeometryError::Value, model, dk, dr, vd);
    let p = model + ": kv_lora_rank = "@ + dec(dk);
    let q = model + ": qk_rope_head_dim = "@ + dec(dr);
    let r = model + ": v_head_dim = "@ + dec(vd);
    assert(a.take(p.len() as int) =~= p);
    assert(b.take(q.len() as int) =~= q);
    assert(c.take(r.len() as int) =~= r);
}

/// A refused rotation is told by the model's name; one of an unusable base, or of a base that should
/// not be there, by that base; and a scaled one by its kind and whether there is a scaling, too.
pub proof fn refused_rotations_name_what_is_wrong(
    e: RopeError,
    model: Seq<char>,
    theta: Seq<char>,
    kind: Seq<char>,
    scaling: bool,
    other: Seq<char>,
)
    ensures
        begins(rope_refusal(e, model, theta, kind, scaling), model),
        begins(
            rope_refusal(RopeError::UnusableTheta, model, theta, kind, scaling),
            model + ": rope_theta = "@ + theta,
        ),
        begins(
            rope_refusal(RopeError::Scaled, model, theta, kind, scaling),
            model + ": rope_type = "@ + kind + ", rope_scaling present = "@ + if scaling {
                "true"@
            } else {
                "false"@
            },
        ),
        rope_refusal(RopeError::NoTheta, model, theta, kind, scaling) == rope_refusal(
            RopeError::NoTheta,
            model,
            other,
            other,
            !scaling,
        ),
        rope_refusal(RopeError::NoPositions, model, theta, kind, scaling) == rope_refusal(
            RopeError::NoPositions,
            model,
            other,
            other,
            !scaling,
        ),
{
    let t = rope_refusal(e, model, theta, kind, scaling);
    assert(t.take(model.len() as int) =~= model);
    let a = rope_refusal(RopeError::UnusableTheta, model, theta, kind, scaling);
    let p = model + ": rope_theta = "@ + theta;
    assert(a.take(p.len() as int) =~= p);
    let b = rope_refusal(RopeError::Scaled, model, theta, kind, scaling);
    let q = model + ": rope_type = "@ + kind + ", rope_scaling present = "@ + if scaling {
        "true"@
    } else {
        "false"@
    };
    assert(b.take(q.len() as int) =~= q);
}

/// A model of too many experts to a token is told how many it has, and how many are left out.
pub proof fn too_many_experts_are_counted(model: Seq<char>, top_k: nat)
    requires
        top_k > 16,
    ensures
        begins(topk_refusal(model, top_k), model + ": top_k = "@ + dec(top_k)),
        exists|a: Seq<char>, b: Seq<char>| #[trigger]
            (a + dec((top_k - 16) as nat) + b) == topk_refusal(model, top_k),
{
    let t = topk_refusal(model, top_k);
    let p = model + ": top_k = "@ + dec(top_k);
    assert(t.take(p.len() as int) =~= p);
    let a = p + crate::gate::topk_middle() + dec(top_k) + crate::gate::topk_experts();
    assert(a + dec((top_k - 16) as nat) + crate::gate::topk_end() == t);
}

} // verus!
