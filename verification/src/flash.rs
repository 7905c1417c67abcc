//! Which producer workgroups an attention step waits for.
use vstd::prelude::*;

use crate::arith::{ceil_div, ceil_div_bounds, div_ceil, larger, max_u32};
use crate::fine_map::{
    build_wait_map, members, members_are_exact, rows_view, wait_map, waits_on, Item,
};
use crate::shape::WAVES;

verus! {

/// The workgroup, of `nblk`, that runs head item `w`: a workgroup takes `WAVES` items at a time.
pub open spec fn head_wg(nblk: int, w: int) -> int {
    (w % (nblk * WAVES)) / (WAVES as int)
}

proof fn head_wg_bound(nblk: int, w: int)
    requires
        nblk > 0,
        w >= 0,
    ensures
        0 <= head_wg(nblk, w) < nblk,
{
    let m = w % (nblk * WAVES);
    vstd::arithmetic::div_mod::lemma_mod_bound(w, nblk * WAVES);
}

pub fn headnorm_wg_of(nblk: u32, w: u32) -> (r: u32)
    requires
        nblk > 0,
        nblk * WAVES <= u32::MAX,
    ensures
        r == head_wg(nblk as int, w as int),
        r < nblk,
{
    proof {
        head_wg_bound(nblk as int, w as int);
    }
    (w % (nblk * WAVES)) / WAVES
}

/// The head items, of `total`, that workgroup `j` runs.
pub fn headnorm_items(nblk: u32, total: u32, j: u32) -> (r: Vec<u32>)
    requires
        nblk > 0,
        nblk * WAVES <= u32::MAX,
    ensures
        r@ == head_items(nblk as int, total as nat, j as int),
{
    let ghost f = |w: int| head_wg(nblk as int, w) == j;
    let mut r: Vec<u32> = Vec::new();
    let mut w: u32 = 0;
    while w < total
        invariant
            w <= total,
            nblk > 0,
            nblk * WAVES <= u32::MAX,
            f == (|w: int| head_wg(nblk as int, w) == j),
            r@ == members(w as nat, f),
        decreases total - w,
    {
        if headnorm_wg_of(nblk, w) == j {
            r.push(w);
        }
        w = w + 1;
    }
    r
}

/// The items of workgroup `j`.
pub open spec fn head_items(nblk: int, total: nat, j: int) -> Seq<u32> {
    members(total, |w: int| head_wg(nblk, w) == j)
}

/// Every head item is run by one workgroup, and by no other.
pub proof fn every_head_item_has_one_workgroup(nblk: int, total: nat, w: int, j: int)
    requires
        nblk > 0,
        0 <= w < total <= u32::MAX,
    ensures
        0 <= head_wg(nblk, w) < nblk,
        head_items(nblk, total, j).contains(w as u32) <==> j == head_wg(nblk, w),
{
    head_wg_bound(nblk, w);
    let f = |v: int| head_wg(nblk, v) == j;
    members_are_exact(total, f);
    if j == head_wg(nblk, w) {
        assert(f(w));
    }
    if head_items(nblk, total, j).contains(w as u32) {
        let k = choose|k: int|
            0 <= k < members(total, f).len() && members(total, f)[k] == w as u32;
        assert(f(members(total, f)[k] as int));
    }
}

/// Columns that one workgroup of an `n`-wide row product over `nblk` workgroups writes.
pub open spec fn cols_per_wg(n: int, nblk: int) -> int {
    ceil_div(n, nblk)
}

/// The workgroups of an `n`-wide row product over `nblk` that write columns `c0..c1`.
pub fn gemv_wgs_for_cols(n: u32, nblk: u32, c0: u32, c1: u32) -> (r: Vec<u32>)
    requires
        n > 0,
        nblk > 0,
        c1 > 0,
    ensures
        r@ == members(
            nblk as nat,
            |w: int|
                c0 as int / cols_per_wg(n as int, nblk as int) <= w <= (c1 - 1)
                    / cols_per_wg(n as int, nblk as int),
        ),
{
    let per: u32 = div_ceil(n, nblk);
    proof {
        ceil_div_bounds(n as int, nblk as int);
    }
    let lo: u32 = c0 / per;
    let hi: u32 = (c1 - 1) / per;
    let ghost f = |w: int|
        c0 as int / cols_per_wg(n as int, nblk as int) <= w <= (c1 - 1) / cols_per_wg(
            n as int,
            nblk as int,
        );
    let mut r: Vec<u32> = Vec::new();
    let mut w: u32 = 0;
    while w < nblk
        invariant
            w <= nblk,
            forall|v: int| #[trigger] f(v) == (lo <= v <= hi),
            r@ == members(w as nat, f),
        decreases nblk - w,
    {
        if lo <= w && w <= hi {
            r.push(w);
        }
        w = w + 1;
    }
    r
}

/// Column `x` of an `n`-wide row product is written by one of the workgroups listed for any range
/// that holds it.
pub proof fn the_writer_of_a_column_is_listed(n: int, nblk: int, c0: int, c1: int, x: int)
    requires
        0 < n,
        0 < nblk <= u32::MAX,
        0 <= c0 <= x < c1 <= n,
    ensures
        members(
            nblk as nat,
            |w: int| c0 / cols_per_wg(n, nblk) <= w <= (c1 - 1) / cols_per_wg(n, nblk),
        ).contains((x / cols_per_wg(n, nblk)) as u32),
{
    let per = cols_per_wg(n, nblk);
    ceil_div_bounds(n, nblk);
    let f = |w: int| c0 / per <= w <= (c1 - 1) / per;
    vstd::arithmetic::div_mod::lemma_div_is_ordered(c0, x, per);
    vstd::arithmetic::div_mod::lemma_div_is_ordered(x, c1 - 1, per);
    let w = x / per;
    assert(0 <= w < nblk) by {
        vstd::arithmetic::div_mod::lemma_fundamental_div_mod(x, per);
        assert(w < nblk) by (nonlinear_arith)
            requires
                per * w <= x,
                x < n,
                per * nblk >= n,
                per > 0,
        ;
        assert(per * nblk >= n) by (nonlinear_arith)
            requires
                ceil_div(n, nblk) * nblk >= n,
                per == ceil_div(n, nblk),
        ;
        vstd::arithmetic::div_mod::lemma_div_pos_is_pos(x, per);
    }
    members_are_exact(nblk as nat, f);
    assert(f(w));
}

/// Item `w` of a head norm over `nheads` heads of width `hd`: it reads the columns of its head
/// from a row product over `nblk_g` workgroups.
pub open spec fn head_item(nhn: int, nheads: int, hd: int, nblk_g: int, w: int) -> Item {
    let per = cols_per_wg(nheads * hd, nblk_g);
    let h = w % nheads;
    Item {
        owner: head_wg(nhn, w) as u32,
        lo: ((h * hd) / per) as u32,
        hi: (((h + 1) * hd - 1) / per) as u32,
    }
}

/// The wait map of a head norm of `t` rows on a row product.
pub open spec fn head_map(nhn: int, t: int, nheads: int, hd: int, nblk_g: int) -> Seq<Seq<u32>> {
    wait_map(
        nhn as nat,
        nblk_g as nat,
        Seq::new((t * nheads) as nat, |w: int| head_item(nhn, nheads, hd, nblk_g, w)),
    )
}

pub fn head_wait_map(nhn: u32, t: u32, nheads: u32, hd: u32, nblk_g: u32) -> (r: Vec<Vec<u32>>)
    requires
        nhn > 0,
        nhn * WAVES <= u32::MAX,
        nheads > 0,
        hd > 0,
        nblk_g > 0,
        t * nheads <= u32::MAX,
        nheads * hd <= u32::MAX,
    ensures
        rows_view(r@) == head_map(nhn as int, t as int, nheads as int, hd as int, nblk_g as int),
{
    let dim: u32 = nheads * hd;
    let total: u32 = t * nheads;
    proof {
        assert(dim > 0) by (nonlinear_arith)
            requires
                nheads > 0,
                hd > 0,
                dim == nheads * hd,
        ;
        ceil_div_bounds(dim as int, nblk_g as int);
    }
    let per: u32 = div_ceil(dim, nblk_g);
    let ghost spec_items = Seq::new(
        total as nat,
        |w: int| head_item(nhn as int, nheads as int, hd as int, nblk_g as int, w),
    );
    let mut items: Vec<Item> = Vec::new();
    let mut w: u32 = 0;
    while w < total
        invariant
            w <= total,
            nhn > 0,
            nhn * WAVES <= u32::MAX,
            nheads > 0,
            hd > 0,
            per > 0,
            nheads * hd <= u32::MAX,
            per == cols_per_wg(nheads * hd, nblk_g as int),
            spec_items == Seq::new(
                total as nat,
                |w: int| head_item(nhn as int, nheads as int, hd as int, nblk_g as int, w),
            ),
            items@ == spec_items.take(w as int),
            forall|i: int| 0 <= i < w ==> (#[trigger] items@[i]).owner < nhn,
        decreases total - w,
    {
        let h: u32 = w % nheads;
        proof {
            assert((h + 1) * hd <= nheads * hd) by (nonlinear_arith)
                requires
                    h < nheads,
            ;
            assert(h * hd <= (h + 1) * hd && (h + 1) * hd >= 1) by (nonlinear_arith)
                requires
                    hd > 0,
                    h >= 0,
            ;
        }
        let o: u32 = headnorm_wg_of(nhn, w);
        let it = Item { owner: o, lo: (h * hd) / per, hi: ((h + 1) * hd - 1) / per };
        items.push(it);
        w = w + 1;
        proof {
            assert(items@ =~= spec_items.take(w as int));
        }
    }
    proof {
        assert(spec_items.take(total as int) =~= spec_items);
    }
    build_wait_map(nhn, nblk_g, &items)
}

/// Item `w` of a decode flash over `heads` query heads split `ns` ways: the head item, of the
/// queries or of the keys and values, that it reads.
pub open spec fn flash_item(
    kv: bool,
    nblk_f: int,
    nhn: int,
    heads: int,
    kvh: int,
    ns: int,
    w: int,
) -> Item {
    let h = (w / ns) % heads;
    let row = w / (ns * heads);
    let gqa = heads / kvh;
    let src = if kv { row * kvh + h / gqa } else { row * heads + h };
    let p = head_wg(nhn, src) as u32;
    Item { owner: (w % nblk_f) as u32, lo: p, hi: p }
}

/// The wait map of a decode flash of `t` rows on the head norm of its queries or of its keys.
pub open spec fn flash_map(
    kv: bool,
    nblk_f: int,
    nhn: int,
    t: int,
    heads: int,
    kvh: int,
    ns: int,
) -> Seq<Seq<u32>> {
    wait_map(
        nblk_f as nat,
        nhn as nat,
        Seq::new((t * heads * ns) as nat, |w: int| flash_item(kv, nblk_f, nhn, heads, kvh, ns, w)),
    )
}

/// The number of the head item that flash item `w` reads stays in range.
proof fn flash_source_bound(t: int, heads: int, kvh: int, ns: int, w: int)
    requires
        t >= 0,
        heads > 0,
        0 < kvh <= heads,
        ns >= 0,
        0 <= w < t * heads * ns,
    ensures
        ns > 0,
        0 <= w / (ns * heads) < t,
        ns * heads > 0,
        0 <= (w / ns) % heads < heads,
        (w / (ns * heads)) * heads + (w / ns) % heads < t * heads,
        heads / kvh > 0,
        0 <= (w / (ns * heads)) * kvh <= (w / (ns * heads)) * heads,
        0 <= (w / (ns * heads)) * heads,
        0 <= ((w / ns) % heads) / (heads / kvh) <= (w / ns) % heads,
{
    assert(ns > 0) by (nonlinear_arith)
        requires
            0 < t * heads * ns,
            ns >= 0,
    ;
    let row = w / (ns * heads);
    let h = (w / ns) % heads;
    let g = heads / kvh;
    assert(ns * heads > 0) by (nonlinear_arith)
        requires
            ns > 0,
            heads > 0,
    ;
    vstd::arithmetic::div_mod::lemma_fundamental_div_mod(w, ns * heads);
    vstd::arithmetic::div_mod::lemma_div_pos_is_pos(w, ns * heads);
    vstd::arithmetic::div_mod::lemma_mod_bound(w, ns * heads);
    assert(row < t) by (nonlinear_arith)
        requires
            (ns * heads) * row <= w,
            w < t * heads * ns,
            ns * heads > 0,
    ;
    vstd::arithmetic::div_mod::lemma_mod_bound(w / ns, heads);
    assert(row * heads + h < t * heads) by (nonlinear_arith)
        requires
            0 <= row <= t - 1,
            0 <= h < heads,
    ;
    vstd::arithmetic::div_mod::lemma_div_is_ordered(kvh, heads, kvh);
    vstd::arithmetic::div_mod::lemma_div_by_self(kvh);
    vstd::arithmetic::div_mod::lemma_div_pos_is_pos(h, g);
    vstd::arithmetic::div_mod::lemma_div_nonincreasing(h, g);
    assert(0 <= row * kvh <= row * heads) by (nonlinear_arith)
        requires
            0 <= row,
            0 < kvh <= heads,
    ;
}

pub fn flash_wait_map(
    kv: bool,
    nblk_f: u32,
    nhn: u32,
    t: u32,
    heads: u32,
    kvh: u32,
    ns: u32,
) -> (r: Vec<Vec<u32>>)
    requires
        nblk_f > 0,
        nhn > 0,
        nhn * WAVES <= u32::MAX,
        heads > 0,
        0 < kvh <= heads,
        t * heads * ns <= u32::MAX,
        t * heads <= u32::MAX,
        ns * heads <= u32::MAX,
    ensures
        rows_view(r@) == flash_map(
            kv,
            nblk_f as int,
            nhn as int,
            t as int,
            heads as int,
            kvh as int,
            ns as int,
        ),
{
    let total: u32 = t * heads * ns;
    let gqa: u32 = heads / kvh;
    let span: u32 = ns * heads;
    let ghost spec_items = Seq::new(
        total as nat,
        |w: int|
            flash_item(kv, nblk_f as int, nhn as int, heads as int, kvh as int, ns as int, w),
    );
    let mut items: Vec<Item> = Vec::new();
    let mut w: u32 = 0;
    while w < total
        invariant
            w <= total,
            total == t * heads * ns,
            t * heads <= u32::MAX,
            gqa == heads / kvh,
            span == ns * heads,
            nblk_f > 0,
            nhn > 0,
            nhn * WAVES <= u32::MAX,
            heads > 0,
            0 < kvh <= heads,
            spec_items == Seq::new(
                total as nat,
                |w: int|
                    flash_item(
                        kv,
                        nblk_f as int,
                        nhn as int,
                        heads as int,
                        kvh as int,
                        ns as int,
                        w,
                    ),
            ),
            items@ == spec_items.take(w as int),
            forall|i: int| 0 <= i < w ==> (#[trigger] items@[i]).owner < nblk_f,
        decreases total - w,
    {
        proof {
            flash_source_bound(t as int, heads as int, kvh as int, ns as int, w as int);
        }
        let h: u32 = (w / ns) % heads;
        let row: u32 = w / span;
        let src: u32 = if kv { row * kvh + h / gqa } else { row * heads + h };
        let p: u32 = headnorm_wg_of(nhn, src);
        let it = Item { owner: w % nblk_f, lo: p, hi: p };
        items.push(it);
        w = w + 1;
        proof {
            assert(items@ =~= spec_items.take(w as int));
        }
    }
    proof {
        assert(spec_items.take(total as int) =~= spec_items);
    }
    build_wait_map(nblk_f, nhn, &items)
}

/// Item `w` of a decode flash that norms its own inputs, over groups of `gf` heads split `ns`
/// ways: the columns of its group, of the query product or of a key or value product.
pub open spec fn group_item(
    q: bool,
    nblk_f: int,
    nblk_g: int,
    heads: int,
    kvh: int,
    hd: int,
    gf: int,
    ns: int,
    w: int,
) -> Item {
    let h0 = ((w / ns) % (heads / gf)) * gf;
    let hkv = h0 / (heads / kvh);
    let per = cols_per_wg((if q { heads } else { kvh }) * hd, nblk_g);
    let (c0, c1) = if q { (h0 * hd, (h0 + gf) * hd) } else { (hkv * hd, (hkv + 1) * hd) };
    Item { owner: (w % nblk_f) as u32, lo: (c0 / per) as u32, hi: ((c1 - 1) / per) as u32 }
}

/// The wait map of such a flash of `t` rows on a product of its inputs.
pub open spec fn group_map(
    q: bool,
    nblk_f: int,
    nblk_g: int,
    t: int,
    heads: int,
    kvh: int,
    hd: int,
    gf: int,
    ns: int,
) -> Seq<Seq<u32>> {
    wait_map(
        nblk_f as nat,
        nblk_g as nat,
        Seq::new(
            (t * (heads / gf) * ns) as nat,
            |w: int| group_item(q, nblk_f, nblk_g, heads, kvh, hd, gf, ns, w),
        ),
    )
}

proof fn group_bounds(heads: int, kvh: int, hd: int, gf: int, g: int)
    requires
        heads > 0,
        0 < kvh <= heads,
        gf > 0,
        hd > 0,
        0 <= g < heads / gf,
    ensures
        heads / kvh > 0,
        0 <= g * gf,
        g * gf + gf <= heads,
        (g * gf + gf) * hd <= heads * hd,
        (g * gf + gf) * hd > 0,
        0 <= (g * gf) * hd <= (g * gf + gf) * hd,
        0 <= (g * gf) / (heads / kvh) < heads,
        ((g * gf) / (heads / kvh) + 1) * hd <= heads * hd,
        ((g * gf) / (heads / kvh) + 1) * hd > 0,
        0 <= ((g * gf) / (heads / kvh)) * hd <= ((g * gf) / (heads / kvh) + 1) * hd,
        kvh * hd <= heads * hd,
        kvh * hd > 0,
{
    let gqa = heads / kvh;
    vstd::arithmetic::div_mod::lemma_div_is_ordered(kvh, heads, kvh);
    vstd::arithmetic::div_mod::lemma_div_by_self(kvh);
    vstd::arithmetic::div_mod::lemma_fundamental_div_mod(heads, gf);
    vstd::arithmetic::div_mod::lemma_mod_bound(heads, gf);
    let n = heads / gf;
    assert(g * gf + gf <= heads && 0 <= g * gf) by (nonlinear_arith)
        requires
            0 <= g <= n - 1,
            gf * n <= heads,
            gf > 0,
    ;
    let h0 = g * gf;
    let k = h0 / gqa;
    vstd::arithmetic::div_mod::lemma_div_pos_is_pos(h0, gqa);
    vstd::arithmetic::div_mod::lemma_div_nonincreasing(h0, gqa);
    assert((h0 + gf) * hd <= heads * hd && (h0 + gf) * hd > 0 && 0 <= h0 * hd <= (h0 + gf) * hd)
        by (nonlinear_arith)
        requires
            0 <= h0,
            h0 + gf <= heads,
            gf > 0,
            hd > 0,
    ;
    assert((k + 1) * hd <= heads * hd && (k + 1) * hd > 0 && 0 <= k * hd <= (k + 1) * hd)
        by (nonlinear_arith)
        requires
            0 <= k,
            k + 1 <= heads,
            hd > 0,
    ;
    assert(0 < kvh * hd <= heads * hd) by (nonlinear_arith)
        requires
            0 < kvh <= heads,
            hd > 0,
    ;
}

pub fn group_wait_map(
    q: bool,
    nblk_f: u32,
    nblk_g: u32,
    t: u32,
    heads: u32,
    kvh: u32,
    hd: u32,
    gf: u32,
    ns: u32,
) -> (r: Vec<Vec<u32>>)
    requires
        nblk_f > 0,
        nblk_g > 0,
        heads > 0,
        0 < kvh <= heads,
        hd > 0,
        0 < gf <= heads,
        heads * hd <= u32::MAX,
        t * (heads / gf) <= u32::MAX,
        t * (heads / gf) * ns <= u32::MAX,
    ensures
        rows_view(r@) == group_map(
            q,
            nblk_f as int,
            nblk_g as int,
            t as int,
            heads as int,
            kvh as int,
            hd as int,
            gf as int,
            ns as int,
        ),
{
    let n_grp: u32 = heads / gf;
    let total: u32 = t * n_grp * ns;
    let gqa: u32 = heads / kvh;
    proof {
        assert(n_grp > 0) by {
            vstd::arithmetic::div_mod::lemma_div_is_ordered(gf as int, heads as int, gf as int);
            vstd::arithmetic::div_mod::lemma_div_by_self(gf as int);
        }
        group_bounds(heads as int, kvh as int, hd as int, gf as int, 0);
    }
    let dim: u32 = if q { heads * hd } else { kvh * hd };
    proof {
        ceil_div_bounds(dim as int, nblk_g as int);
        assert(heads * hd > 0) by (nonlinear_arith)
            requires
                heads > 0,
                hd > 0,
        ;
    }
    let per: u32 = div_ceil(dim, nblk_g);
    let ghost spec_items = Seq::new(
        total as nat,
        |w: int|
            group_item(
                q,
                nblk_f as int,
                nblk_g as int,
                heads as int,
                kvh as int,
                hd as int,
                gf as int,
                ns as int,
                w,
            ),
    );
    let mut items: Vec<Item> = Vec::new();
    let mut w: u32 = 0;
    while w < total
        invariant
            w <= total,
            n_grp == heads / gf,
            n_grp > 0,
            gqa == heads / kvh,
            nblk_f > 0,
            per > 0,
            per == cols_per_wg((if q { heads } else { kvh }) * hd, nblk_g as int),
            heads > 0,
            0 < kvh <= heads,
                hd > 0,
            gf > 0,
            total == t * n_grp * ns,
            heads * hd <= u32::MAX,
            spec_items == Seq::new(
                total as nat,
                |w: int|
                    group_item(
                        q,
                        nblk_f as int,
                        nblk_g as int,
                        heads as int,
                        kvh as int,
                        hd as int,
                        gf as int,
                        ns as int,
                        w,
                    ),
            ),
            items@ == spec_items.take(w as int),
            forall|i: int| 0 <= i < w ==> (#[trigger] items@[i]).owner < nblk_f,
        decreases total - w,
    {
        proof {
            assert(ns > 0) by (nonlinear_arith)
                requires
                    0 < t * n_grp * ns,
                    ns >= 0,
            ;
        }
        let g: u32 = (w / ns) % n_grp;
        proof {
            group_bounds(heads as int, kvh as int, hd as int, gf as int, g as int);
        }
        let h0: u32 = g * gf;
        let hkv: u32 = h0 / gqa;
        let c0: u32 = if q { h0 * hd } else { hkv * hd };
        let c1: u32 = if q { (h0 + gf) * hd } else { (hkv + 1) * hd };
        let it = Item { owner: w % nblk_f, lo: c0 / per, hi: (c1 - 1) / per };
        items.push(it);
        w = w + 1;
        proof {
            assert(items@ =~= spec_items.take(w as int));
        }
    }
    proof {
        assert(spec_items.take(total as int) =~= spec_items);
    }
    build_wait_map(nblk_f, nblk_g, &items)
}

/// Pieces that each row of a flash merge over `nblk_m` workgroups is split into.
pub open spec fn merge_pieces(n_bh: int, nblk_m: int) -> int {
    larger(ceil_div(nblk_m, larger(n_bh, 1)), 1)
}

/// The flash workgroup that wrote split `sp` of the row and head that merge item `w` folds.
pub open spec fn flash_slice(
    w: int,
    sp: int,
    dsplit: int,
    nsplit: int,
    rows_per_item: int,
    n_head: int,
    nblk_f: int,
) -> int {
    let hb = w / dsplit;
    let qt = (hb / n_head) / rows_per_item;
    ((qt * n_head + hb % n_head) * nsplit + sp) % nblk_f
}

/// Read number `k` of a flash merge: merge item `k / nsplit` reads its split `k % nsplit`.
pub open spec fn merge_item(
    k: int,
    dsplit: int,
    nsplit: int,
    rows_per_item: int,
    n_head: int,
    nblk_f: int,
    nblk_m: int,
) -> Item {
    let p = flash_slice(
        k / nsplit,
        k % nsplit,
        dsplit,
        nsplit,
        rows_per_item,
        n_head,
        nblk_f,
    ) as u32;
    Item { owner: ((k / nsplit) % nblk_m) as u32, lo: p, hi: p }
}

/// The wait map of a flash merge: `n_bh` rows and heads, each split into pieces, item `w` run by
/// workgroup `w % nblk_m`.
pub open spec fn merge_map(
    n_bh: int,
    nsplit: int,
    rows_per_item: int,
    n_head: int,
    nblk_f: int,
    nblk_m: int,
) -> Seq<Seq<u32>> {
    let dsplit = merge_pieces(n_bh, nblk_m);
    wait_map(
        nblk_m as nat,
        nblk_f as nat,
        Seq::new(
            (n_bh * dsplit * nsplit) as nat,
            |k: int| merge_item(k, dsplit, nsplit, rows_per_item, n_head, nblk_f, nblk_m),
        ),
    )
}

proof fn slice_bounds(w: int, n_bh: int, dsplit: int, nsplit: int, rows_per_item: int, n_head: int)
    requires
        dsplit > 0,
        nsplit > 0,
        rows_per_item > 0,
        n_head > 0,
        0 <= w < n_bh * dsplit,
    ensures
        0 <= w / dsplit < n_bh,
        0 <= (w / dsplit) / n_head,
        0 <= ((w / dsplit) / n_head) / rows_per_item,
        0 <= (w / dsplit) % n_head < n_head,
        0 <= (((w / dsplit) / n_head) / rows_per_item) * n_head <= n_bh,
        (((w / dsplit) / n_head) / rows_per_item) * n_head + (w / dsplit) % n_head < n_bh,
        0 <= ((((w / dsplit) / n_head) / rows_per_item) * n_head + (w / dsplit) % n_head) * nsplit
            + nsplit <= n_bh * nsplit,
{
    let hb = w / dsplit;
    let b = hb / n_head;
    let qt = b / rows_per_item;
    let h = hb % n_head;
    vstd::arithmetic::div_mod::lemma_fundamental_div_mod(w, dsplit);
    vstd::arithmetic::div_mod::lemma_mod_bound(w, dsplit);
    vstd::arithmetic::div_mod::lemma_div_pos_is_pos(w, dsplit);
    assert(hb < n_bh) by (nonlinear_arith)
        requires
            dsplit * hb <= w,
            w < n_bh * dsplit,
            dsplit > 0,
    ;
    vstd::arithmetic::div_mod::lemma_fundamental_div_mod(hb, n_head);
    vstd::arithmetic::div_mod::lemma_mod_bound(hb, n_head);
    vstd::arithmetic::div_mod::lemma_div_pos_is_pos(hb, n_head);
    vstd::arithmetic::div_mod::lemma_div_pos_is_pos(b, rows_per_item);
    vstd::arithmetic::div_mod::lemma_div_nonincreasing(b, rows_per_item);
    assert(0 <= qt * n_head <= n_head * b) by (nonlinear_arith)
        requires
            0 <= qt <= b,
            n_head > 0,
    ;
    let x = qt * n_head + h;
    assert(0 <= x * nsplit + nsplit <= n_bh * nsplit) by (nonlinear_arith)
        requires
            0 <= x <= n_bh - 1,
            nsplit > 0,
    ;
}

/// For each workgroup of a flash merge, the flash workgroups whose partial results it folds.
pub fn flash_merge_map(
    n_bh: u32,
    nsplit: u32,
    rows_per_item: u32,
    n_head: u32,
    nblk_f: u32,
    nblk_m: u32,
) -> (r: Vec<Vec<u32>>)
    requires
        n_head > 0,
        rows_per_item > 0,
        nblk_f > 0,
        n_bh * merge_pieces(n_bh as int, nblk_m as int) <= u32::MAX,
        n_bh * nsplit <= u32::MAX,
    ensures
        rows_view(r@) == merge_map(
            n_bh as int,
            nsplit as int,
            rows_per_item as int,
            n_head as int,
            nblk_f as int,
            nblk_m as int,
        ),
        r@.len() == nblk_m,
{
    let dsplit: u32 = max_u32(div_ceil(nblk_m, max_u32(n_bh, 1)), 1);
    let n_work: u32 = n_bh * dsplit;
    if nblk_m == 0 || nsplit == 0 {
        let items: Vec<Item> = Vec::new();
        let r: Vec<Vec<u32>> = build_wait_map(nblk_m, nblk_f, &items);
        proof {
            let full = Seq::new(
                (n_bh * dsplit * nsplit) as nat,
                |k: int|
                    merge_item(
                        k,
                        dsplit as int,
                        nsplit as int,
                        rows_per_item as int,
                        n_head as int,
                        nblk_f as int,
                        nblk_m as int,
                    ),
            );
            if nsplit == 0 {
                assert(n_bh * dsplit * nsplit == 0) by (nonlinear_arith)
                    requires
                        nsplit == 0,
                ;
                assert(items@ =~= full);
            } else {
                assert(wait_map(0, nblk_f as nat, items@) =~= wait_map(0, nblk_f as nat, full));
            }
            assert(rows_view(r@).len() == r@.len());
        }
        return r;
    }
    let ghost spec_items = Seq::new(
        (n_bh * dsplit * nsplit) as nat,
        |k: int|
            merge_item(
                k,
                dsplit as int,
                nsplit as int,
                rows_per_item as int,
                n_head as int,
                nblk_f as int,
                nblk_m as int,
            ),
    );
    let mut items: Vec<Item> = Vec::new();
    let mut w: u32 = 0;
    while w < n_work
        invariant
            w <= n_work,
            n_work == n_bh * dsplit,
            n_head > 0,
            rows_per_item > 0,
            nblk_f > 0,
            nblk_m > 0,
            nsplit > 0,
            dsplit > 0,
            n_bh * nsplit <= u32::MAX,
            spec_items == Seq::new(
                (n_bh * dsplit * nsplit) as nat,
                |k: int|
                    merge_item(
                        k,
                        dsplit as int,
                        nsplit as int,
                        rows_per_item as int,
                        n_head as int,
                        nblk_f as int,
                        nblk_m as int,
                    ),
            ),
            w * nsplit <= n_bh * dsplit * nsplit,
            items@ == spec_items.take(w * nsplit),
            forall|i: int| 0 <= i < items@.len() ==> (#[trigger] items@[i]).owner < nblk_m,
        decreases n_work - w,
    {
        proof {
            slice_bounds(
                w as int,
                n_bh as int,
                dsplit as int,
                nsplit as int,
                rows_per_item as int,
                n_head as int,
            );
        }
        let hb: u32 = w / dsplit;
        let b: u32 = hb / n_head;
        let h: u32 = hb % n_head;
        let qt: u32 = b / rows_per_item;
        let base: u32 = (qt * n_head + h) * nsplit;
        let mut sp: u32 = 0;
        proof {
            assert((w + 1) * nsplit == w * nsplit + nsplit) by (nonlinear_arith);
            assert((w + 1) * nsplit <= n_bh * dsplit * nsplit) by (nonlinear_arith)
                requires
                    w + 1 <= n_bh * dsplit,
                    nsplit > 0,
            ;
        }
        while sp < nsplit
            invariant
                sp <= nsplit,
                nblk_f > 0,
                nblk_m > 0,
                nsplit > 0,
                w < n_work,
                n_work == n_bh * dsplit,
                base + nsplit <= u32::MAX,
                base == (qt * n_head + h) * nsplit,
                qt == ((w as int / dsplit as int) / n_head as int) / rows_per_item as int,
                h == (w as int / dsplit as int) % (n_head as int),
                w * nsplit + nsplit <= n_bh * dsplit * nsplit,
                spec_items == Seq::new(
                    (n_bh * dsplit * nsplit) as nat,
                    |k: int|
                        merge_item(
                            k,
                            dsplit as int,
                            nsplit as int,
                            rows_per_item as int,
                            n_head as int,
                            nblk_f as int,
                            nblk_m as int,
                        ),
                ),
                items@ == spec_items.take(w * nsplit + sp),
                forall|i: int| 0 <= i < items@.len() ==> (#[trigger] items@[i]).owner < nblk_m,
            decreases nsplit - sp,
        {
            let p: u32 = (base + sp) % nblk_f;
            let ghost k = w * nsplit + sp;
            proof {
                vstd::arithmetic::div_mod::lemma_fundamental_div_mod_converse(
                    k,
                    nsplit as int,
                    w as int,
                    sp as int,
                );
            }
            let it = Item { owner: w % nblk_m, lo: p, hi: p };
            items.push(it);
            sp = sp + 1;
            proof {
                assert(it == spec_items[k]);
                assert(items@ =~= spec_items.take(k + 1));
            }
        }
        w = w + 1;
    }
    proof {
        assert(spec_items.take(n_bh * dsplit * nsplit) =~= spec_items);
    }
    let r: Vec<Vec<u32>> = build_wait_map(nblk_m, nblk_f, &items);
    proof {
        assert(rows_view(r@).len() == r@.len());
    }
    r
}

/// Whether the walk of merge workgroup `j`, which starts at piece `j` and steps by the number of
/// workgroups, reaches piece `w`.
pub open spec fn walk_reaches(nblk_m: int, j: int, w: int) -> bool {
    exists|q: int| q >= 0 && w == j + #[trigger] (q * nblk_m)
}

/// Every piece of a flash merge is folded by one workgroup, and by no other.
pub proof fn every_merge_piece_has_one_workgroup(nblk_m: int, j: int, w: int)
    requires
        w >= 0,
        0 <= j < nblk_m,
    ensures
        0 <= w % nblk_m < nblk_m,
        walk_reaches(nblk_m, j, w) <==> j == w % nblk_m,
{
    vstd::arithmetic::div_mod::lemma_mod_bound(w, nblk_m);
    vstd::arithmetic::div_mod::lemma_fundamental_div_mod(w, nblk_m);
    vstd::arithmetic::div_mod::lemma_div_pos_is_pos(w, nblk_m);
    if j == w % nblk_m {
        let q = w / nblk_m;
        assert(q * nblk_m == nblk_m * q) by (nonlinear_arith);
        assert(w == j + q * nblk_m);
    }
    if walk_reaches(nblk_m, j, w) {
        let q = choose|q: int| q >= 0 && w == j + #[trigger] (q * nblk_m);
        vstd::arithmetic::div_mod::lemma_fundamental_div_mod_converse(w, nblk_m, q, j);
    }
}

/// A merge workgroup waits for exactly the flash workgroups that wrote what it folds: no more, and
/// no fewer.
pub proof fn a_merge_waits_for_exactly_its_slices(
    n_bh: int,
    nsplit: int,
    rows_per_item: int,
    n_head: int,
    nblk_f: int,
    nblk_m: int,
    j: int,
    p: int,
)
    requires
        n_bh >= 0,
        nsplit > 0,
        rows_per_item > 0,
        n_head > 0,
        0 < nblk_f <= u32::MAX,
        0 <= j < nblk_m <= u32::MAX,
        0 <= p < nblk_f,
    ensures
        merge_map(n_bh, nsplit, rows_per_item, n_head, nblk_f, nblk_m)[j].contains(p as u32)
            <==> exists|w: int, sp: int|
            0 <= w < n_bh * merge_pieces(n_bh, nblk_m) && w % nblk_m == j && 0 <= sp < nsplit && p
                == #[trigger] flash_slice(
                w,
                sp,
                merge_pieces(n_bh, nblk_m),
                nsplit,
                rows_per_item,
                n_head,
                nblk_f,
            ),
{
    let dsplit = merge_pieces(n_bh, nblk_m);
    let n = n_bh * dsplit;
    let items = Seq::new(
        (n_bh * dsplit * nsplit) as nat,
        |k: int| merge_item(k, dsplit, nsplit, rows_per_item, n_head, nblk_f, nblk_m),
    );
    let f = |q: int| waits_on(items, j, q);
    let row = members(nblk_f as nat, f);
    members_are_exact(nblk_f as nat, f);
    assert(n * nsplit >= 0) by (nonlinear_arith)
        requires
            n >= 0,
            nsplit > 0,
    ;
    assert(n >= 0) by (nonlinear_arith)
        requires
            n_bh >= 0,
            dsplit >= 1,
            n == n_bh * dsplit,
    ;
    assert(row.contains(p as u32) <==> f(p)) by {
        if row.contains(p as u32) {
            let i = choose|i: int| 0 <= i < row.len() && row[i] == p as u32;
            assert(f(row[i] as int));
        }
    }
    let hit = exists|w: int, sp: int|
        0 <= w < n && w % nblk_m == j && 0 <= sp < nsplit && p == #[trigger] flash_slice(
            w,
            sp,
            dsplit,
            nsplit,
            rows_per_item,
            n_head,
            nblk_f,
        );
    if f(p) {
        let k = choose|k: int|
            0 <= k < items.len() && (#[trigger] items[k]).owner == j && items[k].lo <= p
                <= items[k].hi;
        let w = k / nsplit;
        let sp = k % nsplit;
        vstd::arithmetic::div_mod::lemma_fundamental_div_mod(k, nsplit);
        vstd::arithmetic::div_mod::lemma_mod_bound(k, nsplit);
        vstd::arithmetic::div_mod::lemma_div_pos_is_pos(k, nsplit);
        assert(w < n) by (nonlinear_arith)
            requires
                nsplit * w <= k,
                k < n * nsplit,
                nsplit > 0,
        ;
        vstd::arithmetic::div_mod::lemma_mod_bound(w, nblk_m);
        let s = flash_slice(w, sp, dsplit, nsplit, rows_per_item, n_head, nblk_f);
        slice_bounds(w, n_bh, dsplit, nsplit, rows_per_item, n_head);
        vstd::arithmetic::div_mod::lemma_mod_bound(
            ((((w / dsplit) / n_head) / rows_per_item) * n_head + (w / dsplit) % n_head) * nsplit
                + sp,
            nblk_f,
        );
        assert(p == s);
        assert(hit);
    }
    if hit {
        let (w, sp) = choose|w: int, sp: int|
            0 <= w < n && w % nblk_m == j && 0 <= sp < nsplit && p == #[trigger] flash_slice(
                w,
                sp,
                dsplit,
                nsplit,
                rows_per_item,
                n_head,
                nblk_f,
            );
        let k = w * nsplit + sp;
        vstd::arithmetic::div_mod::lemma_fundamental_div_mod_converse(k, nsplit, w, sp);
        assert(0 <= k < n * nsplit) by (nonlinear_arith)
            requires
                0 <= w <= n - 1,
                0 <= sp < nsplit,
                k == w * nsplit + sp,
        ;
        assert(items[k].owner == j && items[k].lo <= p <= items[k].hi);
        assert(f(p));
    }
}

/// A merge with one workgroup to a row waits, in workgroup `j`, for the splits of row `j`.
pub proof fn an_unsplit_merge_waits_for_its_own_row(
    n_bh: int,
    nsplit: int,
    n_head: int,
    nblk_f: int,
    j: int,
    p: int,
)
    requires
        nsplit > 0,
        n_head > 0,
        0 < nblk_f <= u32::MAX,
        0 <= j < n_bh <= u32::MAX,
        0 <= p < nblk_f,
    ensures
        merge_map(n_bh, nsplit, 1, n_head, nblk_f, n_bh)[j].contains(p as u32) <==> exists|sp: int|
            0 <= sp < nsplit && p == #[trigger] ((j * nsplit + sp) % nblk_f),
{
    a_merge_waits_for_exactly_its_slices(n_bh, nsplit, 1, n_head, nblk_f, n_bh, j, p);
    assert(ceil_div(n_bh, n_bh) == 1) by {
        vstd::arithmetic::div_mod::lemma_fundamental_div_mod_converse(
            n_bh + n_bh - 1,
            n_bh,
            1,
            n_bh - 1,
        );
    }
    assert(merge_pieces(n_bh, n_bh) == 1);
    assert(n_bh * 1 == n_bh);
    assert forall|w: int, sp: int| 0 <= w < n_bh implies #[trigger] flash_slice(
        w,
        sp,
        1,
        nsplit,
        1,
        n_head,
        nblk_f,
    ) == (w * nsplit + sp) % nblk_f by {
        vstd::arithmetic::div_mod::lemma_fundamental_div_mod(w, n_head);
        let q = w / n_head;
        assert(q * n_head == n_head * q) by (nonlinear_arith);
    }
    assert forall|w: int| 0 <= w < n_bh implies #[trigger] (w % n_bh) == w by {
        vstd::arithmetic::div_mod::lemma_small_mod(w as nat, n_bh as nat);
    }
    if exists|sp: int| 0 <= sp < nsplit && p == #[trigger] ((j * nsplit + sp) % nblk_f) {
        let sp = choose|sp: int| 0 <= sp < nsplit && p == #[trigger] ((j * nsplit + sp) % nblk_f);
        assert(flash_slice(j, sp, 1, nsplit, 1, n_head, nblk_f) == p);
    }
}

} // verus!
