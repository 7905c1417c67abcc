//! Which workgroups a decode step waits for, told by the rows, heads and columns that they work on.
use vstd::arithmetic::div_mod::{
    lemma_div_is_ordered, lemma_div_pos_is_pos, lemma_fundamental_div_mod,
    lemma_fundamental_div_mod_converse, lemma_mod_bound,
};
use vstd::prelude::*;

use crate::arith::{ceil_div, ceil_div_bounds, larger};
use crate::fine_map::{members, members_are_exact, wait_map, waits_on, Item};
use crate::flash::{
    a_merge_waits_for_exactly_its_slices, every_head_item_has_one_workgroup, flash_item, flash_map,
    flash_slice, group_item, group_map, head_item, head_items, head_map, head_wg, merge_map,
    merge_pieces,
};

verus! {

/// A row of a wait map lists a workgroup where one of the row's items reads it.
proof fn a_row_lists_what_its_items_read(
    rows: int,
    producers: int,
    items: Seq<Item>,
    j: int,
    p: int,
)
    requires
        0 <= j < rows,
        0 <= p < producers <= u32::MAX,
    ensures
        wait_map(rows as nat, producers as nat, items).len() == rows,
        wait_map(rows as nat, producers as nat, items)[j].contains(p as u32) <==> waits_on(
            items,
            j,
            p,
        ),
{
    let f = |q: int| waits_on(items, j, q);
    let row = members(producers as nat, f);
    members_are_exact(producers as nat, f);
    if f(p) {
        assert(row.contains(p as u32));
    }
    if row.contains(p as u32) {
        let i = choose|i: int| 0 <= i < row.len() && row[i] == p as u32;
        assert(f(row[i] as int));
    }
}

/// No row of a wait map lists a workgroup that its producer does not have.
proof fn a_row_lists_producers(rows: int, producers: int, items: Seq<Item>, j: int, p: u32)
    requires
        0 <= j < rows,
        0 <= producers <= u32::MAX,
        wait_map(rows as nat, producers as nat, items)[j].contains(p),
    ensures
        p < producers,
{
    let f = |q: int| waits_on(items, j, q);
    let row = members(producers as nat, f);
    members_are_exact(producers as nat, f);
    let i = choose|i: int| 0 <= i < row.len() && row[i] == p;
    assert(row[i] < producers);
}

/// Item `(b * heads + h) * ns + sp` has row `b`, head `h` and split `sp`, and every item is one.
proof fn item_parts(t: int, heads: int, ns: int, b: int, h: int, sp: int)
    requires
        0 <= b < t,
        0 <= h < heads,
        0 <= sp < ns,
    ensures
        ({
            let w = (b * heads + h) * ns + sp;
            &&& 0 <= w < t * heads * ns
            &&& w / ns == b * heads + h
            &&& (w / ns) % heads == h
            &&& w / (ns * heads) == b
        }),
{
    let x = b * heads + h;
    let w = x * ns + sp;
    lemma_fundamental_div_mod_converse(w, ns, x, sp);
    lemma_fundamental_div_mod_converse(x, heads, b, h);
    let r = h * ns + sp;
    assert(w == b * (ns * heads) + r) by (nonlinear_arith)
        requires
            w == (b * heads + h) * ns + sp,
            r == h * ns + sp,
    ;
    assert(0 <= r < ns * heads) by (nonlinear_arith)
        requires
            r == h * ns + sp,
            0 <= sp < ns,
            0 <= h <= heads - 1,
    ;
    lemma_fundamental_div_mod_converse(w, ns * heads, b, r);
    assert(0 <= x < t * heads) by (nonlinear_arith)
        requires
            x == b * heads + h,
            0 <= b <= t - 1,
            0 <= h < heads,
    ;
    assert(0 <= w < t * heads * ns) by (nonlinear_arith)
        requires
            w == x * ns + sp,
            0 <= x <= t * heads - 1,
            0 <= sp < ns,
    ;
}

proof fn item_of(t: int, heads: int, ns: int, w: int) -> (r: (int, int, int))
    requires
        heads > 0,
        ns >= 0,
        t >= 0,
        0 <= w < t * heads * ns,
    ensures
        0 <= r.0 < t,
        0 <= r.1 < heads,
        0 <= r.2 < ns,
        w == (r.0 * heads + r.1) * ns + r.2,
{
    assert(ns > 0) by (nonlinear_arith)
        requires
            0 < t * heads * ns,
            ns >= 0,
    ;
    let x = w / ns;
    let sp = w % ns;
    lemma_fundamental_div_mod(w, ns);
    lemma_mod_bound(w, ns);
    lemma_div_pos_is_pos(w, ns);
    assert(x < t * heads) by (nonlinear_arith)
        requires
            ns * x <= w,
            w < t * heads * ns,
            ns > 0,
    ;
    let b = x / heads;
    let h = x % heads;
    lemma_fundamental_div_mod(x, heads);
    lemma_mod_bound(x, heads);
    lemma_div_pos_is_pos(x, heads);
    assert(b < t) by (nonlinear_arith)
        requires
            heads * b <= x,
            x < t * heads,
            heads > 0,
    ;
    assert(b * heads == heads * b) by (nonlinear_arith);
    assert(x * ns == ns * x) by (nonlinear_arith);
    (b, h, sp)
}

/// Eight head items in a row share a workgroup, and the workgroups take such eights in turn.
pub proof fn workgroups_take_eight_heads_in_turn(nblk: int, total: nat, w: int, j: int)
    requires
        nblk > 0,
        0 <= w < total <= u32::MAX,
        0 <= j < nblk,
    ensures
        head_items(nblk, total, j).contains(w as u32) <==> (w / 8) % nblk == j,
{
    every_head_item_has_one_workgroup(nblk, total, w, j);
    let q = w / (nblk * 8);
    let r = w % (nblk * 8);
    assert(nblk * 8 > 0);
    lemma_fundamental_div_mod(w, nblk * 8);
    lemma_mod_bound(w, nblk * 8);
    let a = r / 8;
    assert(w == 8 * (nblk * q) + r) by (nonlinear_arith)
        requires
            w == (nblk * 8) * q + r,
    ;
    assert(w / 8 == nblk * q + a);
    assert(nblk * q == q * nblk) by (nonlinear_arith);
    assert(0 <= a < nblk);
    lemma_fundamental_div_mod_converse(w / 8, nblk, q, a);
    assert(head_wg(nblk, w) == a);
}

/// A decode flash waits, in each of its workgroups, for exactly the norm workgroups that write the
/// heads it reads: for every row, query head and split that the workgroup runs, the one with that
/// head of the queries, or with the head of keys and values that the query head shares.
pub proof fn a_flash_waits_for_exactly_its_heads(
    kv: bool,
    nblk_f: int,
    nhn: int,
    t: int,
    heads: int,
    kvh: int,
    ns: int,
    j: int,
    p: int,
)
    requires
        0 <= j < nblk_f <= u32::MAX,
        0 <= p < nhn <= u32::MAX,
        t >= 0,
        0 < kvh <= heads,
        ns >= 0,
        t * heads <= u32::MAX,
    ensures
        flash_map(kv, nblk_f, nhn, t, heads, kvh, ns).len() == nblk_f,
        flash_map(kv, nblk_f, nhn, t, heads, kvh, ns)[j].contains(p as u32) <==> exists|
            b: int,
            h: int,
            sp: int,
        |
            0 <= b < t && 0 <= h < heads && 0 <= sp < ns && #[trigger] ((b * heads + h) * ns + sp)
                % nblk_f == j && p == ((if kv {
                b * kvh + h / (heads / kvh)
            } else {
                b * heads + h
            }) / 8) % nhn,
{
    assert(t * heads * ns >= 0) by (nonlinear_arith)
        requires
            t >= 0,
            heads > 0,
            ns >= 0,
    ;
    let items = Seq::new(
        (t * heads * ns) as nat,
        |w: int| flash_item(kv, nblk_f, nhn, heads, kvh, ns, w),
    );
    a_row_lists_what_its_items_read(nblk_f, nhn, items, j, p);
    if waits_on(items, j, p) {
        let w = choose|w: int|
            0 <= w < items.len() && (#[trigger] items[w]).owner == j && items[w].lo <= p
                <= items[w].hi;
        let (b, h, sp) = item_of(t, heads, ns, w);
        item_parts(t, heads, ns, b, h, sp);
        flash_item_source(kv, nblk_f, nhn, t, heads, kvh, ns, b, h, sp);
        assert(((b * heads + h) * ns + sp) % nblk_f == j);
    }
    if exists|b: int, h: int, sp: int|
        0 <= b < t && 0 <= h < heads && 0 <= sp < ns && #[trigger] ((b * heads + h) * ns + sp)
            % nblk_f == j && p == ((if kv {
            b * kvh + h / (heads / kvh)
        } else {
            b * heads + h
        }) / 8) % nhn {
        let (b, h, sp) = choose|b: int, h: int, sp: int|
            0 <= b < t && 0 <= h < heads && 0 <= sp < ns && #[trigger] ((b * heads + h) * ns + sp)
                % nblk_f == j && p == ((if kv {
                b * kvh + h / (heads / kvh)
            } else {
                b * heads + h
            }) / 8) % nhn;
        item_parts(t, heads, ns, b, h, sp);
        flash_item_source(kv, nblk_f, nhn, t, heads, kvh, ns, b, h, sp);
        assert(items[(b * heads + h) * ns + sp].owner == j);
    }
}

proof fn flash_item_source(
    kv: bool,
    nblk_f: int,
    nhn: int,
    t: int,
    heads: int,
    kvh: int,
    ns: int,
    b: int,
    h: int,
    sp: int,
)
    requires
        0 < nblk_f <= u32::MAX,
        0 < nhn <= u32::MAX,
        0 <= b < t,
        0 <= h < heads,
        0 <= sp < ns,
        0 < kvh <= heads,
        t * heads <= u32::MAX,
    ensures
        ({
            let w = (b * heads + h) * ns + sp;
            let i = flash_item(kv, nblk_f, nhn, heads, kvh, ns, w);
            let src = if kv { b * kvh + h / (heads / kvh) } else { b * heads + h };
            i.owner == w % nblk_f && i.lo == (src / 8) % nhn && i.hi == (src / 8) % nhn
        }),
{
    item_parts(t, heads, ns, b, h, sp);
    let w = (b * heads + h) * ns + sp;
    lemma_mod_bound(w, nblk_f);
    let g = heads / kvh;
    lemma_div_is_ordered(kvh, heads, kvh);
    vstd::arithmetic::div_mod::lemma_div_by_self(kvh);
    lemma_div_pos_is_pos(h, g);
    vstd::arithmetic::div_mod::lemma_div_nonincreasing(h, g);
    let src = if kv { b * kvh + h / g } else { b * heads + h };
    assert(0 <= src < t * heads) by (nonlinear_arith)
        requires
            src == b * kvh + h / g || src == b * heads + h,
            0 <= b <= t - 1,
            0 <= h / g <= h,
            0 <= h < heads,
            0 < kvh <= heads,
    ;
    lemma_mod_bound(src / 8, nhn);
    workgroups_take_eight_heads_in_turn(nhn, (t * heads) as nat, src, (src / 8) % nhn);
    every_head_item_has_one_workgroup(nhn, (t * heads) as nat, src, (src / 8) % nhn);
    assert(head_wg(nhn, src) == (src / 8) % nhn);
}

/// A run of columns is written by the workgroups from its first column's to its last one's.
proof fn columns_have_writers(per: int, c0: int, c1: int, p: int)
    requires
        per > 0,
        0 <= c0 < c1,
    ensures
        c0 / per <= p <= (c1 - 1) / per <==> exists|x: int|
            c0 <= x < c1 && #[trigger] (x / per) == p,
{
    lemma_div_pos_is_pos(c0, per);
    if c0 / per <= p <= (c1 - 1) / per {
        lemma_fundamental_div_mod(c0, per);
        lemma_fundamental_div_mod(c1 - 1, per);
        lemma_mod_bound(c0, per);
        lemma_mod_bound(c1 - 1, per);
        let x = larger(c0, p * per);
        let lo = c0 / per;
        let hi = (c1 - 1) / per;
        assert(p * per <= c1 - 1) by (nonlinear_arith)
            requires
                p <= hi,
                per * hi <= c1 - 1,
                per > 0,
        ;
        assert(c0 < (p + 1) * per) by (nonlinear_arith)
            requires
                lo <= p,
                c0 < per * lo + per,
                per > 0,
        ;
        assert((p + 1) * per == p * per + per) by (nonlinear_arith);
        lemma_fundamental_div_mod_converse(x, per, p, x - p * per);
        assert(x / per == p);
    }
    if exists|x: int| c0 <= x < c1 && #[trigger] (x / per) == p {
        let x = choose|x: int| c0 <= x < c1 && #[trigger] (x / per) == p;
        lemma_div_is_ordered(c0, x, per);
        lemma_div_is_ordered(x, c1 - 1, per);
    }
}

/// A head norm waits, in each of its workgroups, for exactly the product workgroups that write a
/// column of one of its heads: `heads * hd` columns are dealt out in equal runs.
pub proof fn a_head_norm_waits_for_exactly_its_columns(
    nhn: int,
    t: int,
    heads: int,
    hd: int,
    nblk_g: int,
    j: int,
    p: int,
)
    requires
        0 <= j < nhn <= u32::MAX,
        0 <= p < nblk_g <= u32::MAX,
        t >= 0,
        heads > 0,
        hd > 0,
        t * heads <= u32::MAX,
        heads * hd <= u32::MAX,
    ensures
        head_map(nhn, t, heads, hd, nblk_g).len() == nhn,
        head_map(nhn, t, heads, hd, nblk_g)[j].contains(p as u32) <==> exists|
            b: int,
            h: int,
            x: int,
        |
            0 <= b < t && 0 <= h < heads && (#[trigger] (b * heads + h) / 8) % nhn == j && h * hd
                <= x < (h + 1) * hd && #[trigger] (x / ceil_div(heads * hd, nblk_g)) == p,
{
    assert(t * heads >= 0) by (nonlinear_arith)
        requires
            t >= 0,
            heads > 0,
    ;
    let items = Seq::new((t * heads) as nat, |w: int| head_item(nhn, heads, hd, nblk_g, w));
    let per = ceil_div(heads * hd, nblk_g);
    assert(heads * hd > 0) by (nonlinear_arith)
        requires
            heads > 0,
            hd > 0,
    ;
    ceil_div_bounds(heads * hd, nblk_g);
    a_row_lists_what_its_items_read(nhn, nblk_g, items, j, p);
    if waits_on(items, j, p) {
        let w = choose|w: int|
            0 <= w < items.len() && (#[trigger] items[w]).owner == j && items[w].lo <= p
                <= items[w].hi;
        assert(t * heads * 1 == t * heads);
        let (b, h, sp) = item_of(t, heads, 1, w);
        assert((b * heads + h) * 1 == b * heads + h);
        head_item_source(nhn, t, heads, hd, nblk_g, b, h);
        columns_have_writers(per, h * hd, (h + 1) * hd, p);
        let x = choose|x: int| h * hd <= x < (h + 1) * hd && #[trigger] (x / per) == p;
        assert(((b * heads + h) / 8) % nhn == j);
        assert(x / ceil_div(heads * hd, nblk_g) == p);
    }
    if exists|b: int, h: int, x: int|
        0 <= b < t && 0 <= h < heads && (#[trigger] (b * heads + h) / 8) % nhn == j && h * hd <= x
            < (h + 1) * hd && #[trigger] (x / ceil_div(heads * hd, nblk_g)) == p {
        let (b, h, x) = choose|b: int, h: int, x: int|
            0 <= b < t && 0 <= h < heads && (#[trigger] (b * heads + h) / 8) % nhn == j && h * hd
                <= x < (h + 1) * hd && #[trigger] (x / ceil_div(heads * hd, nblk_g)) == p;
        head_item_source(nhn, t, heads, hd, nblk_g, b, h);
        assert(x / per == p);
        columns_have_writers(per, h * hd, (h + 1) * hd, p);
        assert(items[b * heads + h].owner == j);
    }
}

proof fn head_item_source(nhn: int, t: int, heads: int, hd: int, nblk_g: int, b: int, h: int)
    requires
        0 < nhn <= u32::MAX,
        0 < nblk_g <= u32::MAX,
        0 <= b < t,
        0 <= h < heads,
        hd > 0,
        t * heads <= u32::MAX,
        heads * hd <= u32::MAX,
    ensures
        ({
            let w = b * heads + h;
            let i = head_item(nhn, heads, hd, nblk_g, w);
            let per = ceil_div(heads * hd, nblk_g);
            &&& 0 <= w < t * heads
            &&& per > 0
            &&& 0 <= h * hd < (h + 1) * hd
            &&& i.owner == (w / 8) % nhn
            &&& i.lo == (h * hd) / per
            &&& i.hi == ((h + 1) * hd - 1) / per
        }),
{
    let w = b * heads + h;
    lemma_fundamental_div_mod_converse(w, heads, b, h);
    assert(0 <= w < t * heads) by (nonlinear_arith)
        requires
            w == b * heads + h,
            0 <= b <= t - 1,
            0 <= h < heads,
    ;
    let per = ceil_div(heads * hd, nblk_g);
    assert(heads * hd > 0 && 0 <= h * hd < (h + 1) * hd && (h + 1) * hd <= heads * hd)
        by (nonlinear_arith)
        requires
            0 <= h <= heads - 1,
            hd > 0,
    ;
    ceil_div_bounds(heads * hd, nblk_g);
    lemma_mod_bound(w / 8, nhn);
    workgroups_take_eight_heads_in_turn(nhn, (t * heads) as nat, w, (w / 8) % nhn);
    every_head_item_has_one_workgroup(nhn, (t * heads) as nat, w, (w / 8) % nhn);
    lemma_div_pos_is_pos(h * hd, per);
    lemma_div_pos_is_pos((h + 1) * hd - 1, per);
    vstd::arithmetic::div_mod::lemma_div_nonincreasing(h * hd, per);
    vstd::arithmetic::div_mod::lemma_div_nonincreasing((h + 1) * hd - 1, per);
}

/// The workgroup that writes column `x` of the query product, or of a key or value product: their
/// columns are dealt out in equal runs.
pub open spec fn column_writer(q: bool, heads: int, kvh: int, hd: int, nblk: int, x: int) -> int {
    x / ceil_div((if q { heads } else { kvh }) * hd, nblk)
}

/// A decode flash that norms its own inputs waits, in each of its workgroups, for exactly the
/// product workgroups that write a column of a head that it reads: the queries of its group of
/// heads, or the one head of keys and values that the group shares.
pub proof fn a_norming_flash_waits_for_exactly_its_columns(
    q: bool,
    nblk_f: int,
    nblk_g: int,
    t: int,
    heads: int,
    kvh: int,
    hd: int,
    gf: int,
    ns: int,
    j: int,
    p: int,
)
    requires
        0 <= j < nblk_f <= u32::MAX,
        0 <= p < nblk_g <= u32::MAX,
        t >= 0,
        ns >= 0,
        0 < kvh <= heads,
        0 < gf <= heads,
        hd > 0,
        heads * hd <= u32::MAX,
    ensures
        group_map(q, nblk_f, nblk_g, t, heads, kvh, hd, gf, ns).len() == nblk_f,
        group_map(q, nblk_f, nblk_g, t, heads, kvh, hd, gf, ns)[j].contains(p as u32) <==> exists|
            b: int,
            g: int,
            sp: int,
            x: int,
        |
            0 <= b < t && 0 <= g < heads / gf && 0 <= sp < ns && #[trigger] ((b * (heads / gf) + g)
                * ns + sp) % nblk_f == j && (if q {
                g * gf * hd <= x < (g + 1) * gf * hd
            } else {
                ((g * gf) / (heads / kvh)) * hd <= x < ((g * gf) / (heads / kvh) + 1) * hd
            }) && #[trigger] column_writer(q, heads, kvh, hd, nblk_g, x) == p,
{
    let n = heads / gf;
    lemma_div_is_ordered(gf, heads, gf);
    vstd::arithmetic::div_mod::lemma_div_by_self(gf);
    assert(t * n * ns >= 0) by (nonlinear_arith)
        requires
            t >= 0,
            n > 0,
            ns >= 0,
    ;
    let per = ceil_div((if q { heads } else { kvh }) * hd, nblk_g);
    let items = Seq::new(
        (t * n * ns) as nat,
        |w: int| group_item(q, nblk_f, nblk_g, heads, kvh, hd, gf, ns, w),
    );
    a_row_lists_what_its_items_read(nblk_f, nblk_g, items, j, p);
    if waits_on(items, j, p) {
        let w = choose|w: int|
            0 <= w < items.len() && (#[trigger] items[w]).owner == j && items[w].lo <= p
                <= items[w].hi;
        let (b, g, sp) = item_of(t, n, ns, w);
        let (c0, c1) = group_item_source(q, nblk_f, nblk_g, t, heads, kvh, hd, gf, ns, b, g, sp);
        columns_have_writers(per, c0, c1, p);
        let x = choose|x: int| c0 <= x < c1 && #[trigger] (x / per) == p;
        assert(((b * (heads / gf) + g) * ns + sp) % nblk_f == j);
        assert(column_writer(q, heads, kvh, hd, nblk_g, x) == p);
    }
    if exists|b: int, g: int, sp: int, x: int|
        0 <= b < t && 0 <= g < heads / gf && 0 <= sp < ns && #[trigger] ((b * (heads / gf) + g) * ns
            + sp) % nblk_f == j && (if q {
            g * gf * hd <= x < (g + 1) * gf * hd
        } else {
            ((g * gf) / (heads / kvh)) * hd <= x < ((g * gf) / (heads / kvh) + 1) * hd
        }) && #[trigger] column_writer(q, heads, kvh, hd, nblk_g, x) == p {
        let (b, g, sp, x) = choose|b: int, g: int, sp: int, x: int|
            0 <= b < t && 0 <= g < heads / gf && 0 <= sp < ns && #[trigger] ((b * (heads / gf) + g)
                * ns + sp) % nblk_f == j && (if q {
                g * gf * hd <= x < (g + 1) * gf * hd
            } else {
                ((g * gf) / (heads / kvh)) * hd <= x < ((g * gf) / (heads / kvh) + 1) * hd
            }) && #[trigger] column_writer(q, heads, kvh, hd, nblk_g, x) == p;
        let (c0, c1) = group_item_source(q, nblk_f, nblk_g, t, heads, kvh, hd, gf, ns, b, g, sp);
        assert(x / per == p);
        columns_have_writers(per, c0, c1, p);
        item_parts(t, n, ns, b, g, sp);
        assert(items[(b * n + g) * ns + sp].owner == j);
    }
}

proof fn group_item_source(
    q: bool,
    nblk_f: int,
    nblk_g: int,
    t: int,
    heads: int,
    kvh: int,
    hd: int,
    gf: int,
    ns: int,
    b: int,
    g: int,
    sp: int,
) -> (r: (int, int))
    requires
        0 < nblk_f <= u32::MAX,
        0 < nblk_g <= u32::MAX,
        0 <= b < t,
        0 <= g < heads / gf,
        0 <= sp < ns,
        0 < kvh <= heads,
        0 < gf <= heads,
        hd > 0,
        heads * hd <= u32::MAX,
    ensures
        ({
            let w = (b * (heads / gf) + g) * ns + sp;
            let i = group_item(q, nblk_f, nblk_g, heads, kvh, hd, gf, ns, w);
            let per = ceil_div((if q { heads } else { kvh }) * hd, nblk_g);
            &&& per > 0
            &&& 0 <= r.0 < r.1
            &&& r.0 == (if q { g * gf * hd } else { ((g * gf) / (heads / kvh)) * hd })
            &&& r.1 == (if q { (g + 1) * gf * hd } else { ((g * gf) / (heads / kvh) + 1) * hd })
            &&& i.owner == w % nblk_f
            &&& i.lo == r.0 / per
            &&& i.hi == (r.1 - 1) / per
        }),
{
    let n = heads / gf;
    item_parts(t, n, ns, b, g, sp);
    let w = (b * n + g) * ns + sp;
    lemma_mod_bound(w, nblk_f);
    let gqa = heads / kvh;
    lemma_div_is_ordered(kvh, heads, kvh);
    vstd::arithmetic::div_mod::lemma_div_by_self(kvh);
    lemma_fundamental_div_mod(heads, gf);
    lemma_mod_bound(heads, gf);
    assert(0 <= g * gf && g * gf + gf <= heads) by (nonlinear_arith)
        requires
            0 <= g <= n - 1,
            gf * n <= heads,
            gf > 0,
    ;
    assert((g + 1) * gf == g * gf + gf) by (nonlinear_arith);
    let k = (g * gf) / gqa;
    lemma_div_pos_is_pos(g * gf, gqa);
    vstd::arithmetic::div_mod::lemma_div_nonincreasing(g * gf, gqa);
    let dim = (if q { heads } else { kvh }) * hd;
    assert(dim > 0) by (nonlinear_arith)
        requires
            dim == heads * hd || dim == kvh * hd,
            heads > 0,
            kvh > 0,
            hd > 0,
    ;
    ceil_div_bounds(dim, nblk_g);
    let per = ceil_div(dim, nblk_g);
    let c0 = if q { g * gf * hd } else { k * hd };
    let c1 = if q { (g + 1) * gf * hd } else { (k + 1) * hd };
    let u = if q { g * gf } else { k };
    let v = if q { (g + 1) * gf } else { k + 1 };
    assert(0 <= u * hd < v * hd && v * hd <= heads * hd) by (nonlinear_arith)
        requires
            0 <= u < v,
            v <= heads,
            hd > 0,
    ;
    lemma_div_pos_is_pos(c0, per);
    lemma_div_pos_is_pos(c1 - 1, per);
    vstd::arithmetic::div_mod::lemma_div_nonincreasing(c0, per);
    vstd::arithmetic::div_mod::lemma_div_nonincreasing(c1 - 1, per);
    (c0, c1)
}

/// A flash merge waits, in each of its workgroups, for exactly the flash workgroups that hold a
/// split of a row and head that it folds. A row's query tile is the row over the rows of a tile,
/// and each row and head is folded in as many pieces as leave no workgroup idle.
pub proof fn a_merge_waits_for_exactly_its_rows(
    t: int,
    heads: int,
    ns: int,
    tile: int,
    nblk_f: int,
    nblk_m: int,
    j: int,
    p: int,
)
    requires
        t >= 0,
        heads > 0,
        ns > 0,
        tile > 0,
        0 < nblk_f <= u32::MAX,
        0 <= j < nblk_m <= u32::MAX,
        0 <= p < nblk_f,
    ensures
        merge_map(t * heads, ns, tile, heads, nblk_f, nblk_m)[j].contains(p as u32) <==> exists|
            b: int,
            h: int,
            piece: int,
            sp: int,
        |
            0 <= b < t && 0 <= h < heads && 0 <= piece < larger(
                ceil_div(nblk_m, larger(t * heads, 1)),
                1,
            ) && 0 <= sp < ns && #[trigger] ((b * heads + h) * larger(
                ceil_div(nblk_m, larger(t * heads, 1)),
                1,
            ) + piece) % nblk_m == j && p == #[trigger] (((b / tile) * heads + h) * ns + sp)
                % nblk_f,
{
    let n_bh = t * heads;
    let d = larger(ceil_div(nblk_m, larger(n_bh, 1)), 1);
    assert(n_bh >= 0) by (nonlinear_arith)
        requires
            n_bh == t * heads,
            t >= 0,
            heads > 0,
    ;
    a_merge_waits_for_exactly_its_slices(n_bh, ns, tile, heads, nblk_f, nblk_m, j, p);
    assert(d == merge_pieces(n_bh, nblk_m));
    if merge_map(n_bh, ns, tile, heads, nblk_f, nblk_m)[j].contains(p as u32) {
        let (w, sp) = choose|w: int, sp: int|
            0 <= w < n_bh * d && w % nblk_m == j && 0 <= sp < ns && p == #[trigger] flash_slice(
                w,
                sp,
                d,
                ns,
                tile,
                heads,
                nblk_f,
            );
        let (b, h, piece) = item_of(t, heads, d, w);
        item_parts(t, heads, d, b, h, piece);
        lemma_fundamental_div_mod_converse(b * heads + h, heads, b, h);
        assert(((b * heads + h) * d + piece) % nblk_m == j);
        assert((((b / tile) * heads + h) * ns + sp) % nblk_f == p);
    }
    if exists|b: int, h: int, piece: int, sp: int|
        0 <= b < t && 0 <= h < heads && 0 <= piece < d && 0 <= sp < ns && #[trigger] ((b * heads
            + h) * d + piece) % nblk_m == j && p == #[trigger] (((b / tile) * heads + h) * ns + sp)
            % nblk_f {
        let (b, h, piece, sp) = choose|b: int, h: int, piece: int, sp: int|
            0 <= b < t && 0 <= h < heads && 0 <= piece < d && 0 <= sp < ns && #[trigger] ((b * heads
                + h) * d + piece) % nblk_m == j && p == #[trigger] (((b / tile) * heads + h) * ns
                + sp) % nblk_f;
        item_parts(t, heads, d, b, h, piece);
        lemma_fundamental_div_mod_converse(b * heads + h, heads, b, h);
        let w = (b * heads + h) * d + piece;
        assert(flash_slice(w, sp, d, ns, tile, heads, nblk_f) == p);
    }
}

/// No wait map names a workgroup that its producer does not have.
pub proof fn waits_are_for_workgroups_there_are(
    kv: bool,
    q: bool,
    nblk_f: int,
    nblk_g: int,
    nhn: int,
    t: int,
    heads: int,
    kvh: int,
    hd: int,
    gf: int,
    ns: int,
    j: int,
    p: u32,
)
    requires
        0 <= nblk_g <= u32::MAX,
        0 <= nhn <= u32::MAX,
    ensures
        0 <= j < nblk_f && flash_map(kv, nblk_f, nhn, t, heads, kvh, ns)[j].contains(p) ==> p < nhn,
        0 <= j < nhn && head_map(nhn, t, heads, hd, nblk_g)[j].contains(p) ==> p < nblk_g,
        0 <= j < nblk_f && group_map(q, nblk_f, nblk_g, t, heads, kvh, hd, gf, ns)[j].contains(p)
            ==> p < nblk_g,
{
    if 0 <= j < nblk_f && flash_map(kv, nblk_f, nhn, t, heads, kvh, ns)[j].contains(p) {
        a_row_lists_producers(
            nblk_f,
            nhn,
            Seq::new(
                (t * heads * ns) as nat,
                |w: int| flash_item(kv, nblk_f, nhn, heads, kvh, ns, w),
            ),
            j,
            p,
        );
    }
    if 0 <= j < nhn && head_map(nhn, t, heads, hd, nblk_g)[j].contains(p) {
        a_row_lists_producers(
            nhn,
            nblk_g,
            Seq::new((t * heads) as nat, |w: int| head_item(nhn, heads, hd, nblk_g, w)),
            j,
            p,
        );
    }
    if 0 <= j < nblk_f && group_map(q, nblk_f, nblk_g, t, heads, kvh, hd, gf, ns)[j].contains(p) {
        a_row_lists_producers(
            nblk_f,
            nblk_g,
            Seq::new(
                (t * (heads / gf) * ns) as nat,
                |w: int| group_item(q, nblk_f, nblk_g, heads, kvh, hd, gf, ns, w),
            ),
            j,
            p,
        );
    }
}

} // verus!
