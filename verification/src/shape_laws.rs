//! What a packet's sizes and constants are of: its attentions, its programs and its experts.
use vstd::prelude::*;

use crate::arith::{
    ceil_div, ceil_div_bounds, is_pow2, larger, next_pow2, next_pow2_is_least, next_pow2_monotone,
    next_pow2_of_pow2, smaller,
};
use crate::arms::{DevInst, Packet};
use crate::backends::{gf_rule, tile_source, tuning_of, Tally};
use crate::expert_parallel::{
    has_second, payload, resident, resident_upto, scales, second_bytes, starts_boundary,
    tables_upto,
};
use crate::isa::{Args, DevOp};
use crate::opcodes::Isa;
use crate::packet_laws::{attends_decode, attends_prefill, carried, sites_are_the_instructions};
use crate::packet_shape::{
    batch_upto, buckets_upto, field_of, full_upto, kv_dtypes_upto, shapes_of, sites_of, top_hd,
    top_of, Field, Full, ShapesView, Site,
};
use crate::text::ends;

verus! {

/// Whether an instruction of a decode program is attention over a batch of `b`.
pub open spec fn batches(z: bool, d: DevInst, b: int) -> bool {
    &&& z && d.args.i0 == b
    &&& d.op == DevOp::FlashDecode || d.op == DevOp::FlashDecodeFp8 || d.op
        == DevOp::FlashMlaDecode || d.op == DevOp::FlashMlaDecodeFp8 || d.op
        == DevOp::FlashGatherDecode
}

proof fn batch_is_the_widest(s: Seq<Site>, n: int)
    requires
        0 <= n <= s.len(),
    ensures
        batch_upto(s, n) >= 0,
        forall|k: int, b: int|
            0 <= k < n && #[trigger] batches(s[k].decode, s[k].inst, b) ==> b <= batch_upto(s, n),
        batch_upto(s, n) == 0 || exists|k: int|
            0 <= k < n && batches((#[trigger] s[k]).decode, s[k].inst, batch_upto(s, n)),
    decreases n,
{
    if n > 0 {
        batch_is_the_widest(s, n - 1);
        let x = s[n - 1];
        let b = batch_upto(s, n);
        if b != 0 {
            if b == batch_upto(s, n - 1) {
                let k = choose|k: int|
                    0 <= k < n - 1 && batches((#[trigger] s[k]).decode, s[k].inst, b);
                assert(0 <= k < n && batches(s[k].decode, s[k].inst, b));
            } else {
                assert(0 <= n - 1 < n && batches(s[n - 1].decode, s[n - 1].inst, b));
            }
        }
    }
}

/// The batch of a packet is the widest that an attention of a decode program takes, and zero where
/// there is none.
pub proof fn the_batch_is_the_widest_of_decode(isa: Isa, p: Packet, b: int)
    ensures
        carried(p, |z: bool, d: DevInst| batches(z, d, b)) ==> b <= shapes_of(isa, p).decode_batch,
        ({
            let top = shapes_of(isa, p).decode_batch;
            top == 0 || carried(p, |z: bool, d: DevInst| batches(z, d, top))
        }),
{
    let s = sites_of(p);
    let top = shapes_of(isa, p).decode_batch;
    batch_is_the_widest(s, s.len() as int);
    let f = |z: bool, d: DevInst| batches(z, d, b);
    let g = |z: bool, d: DevInst| batches(z, d, top);
    sites_are_the_instructions(p, f);
    sites_are_the_instructions(p, g);
    if carried(p, f) {
        let k = choose|k: int| 0 <= k < s.len() && f((#[trigger] s[k]).decode, s[k].inst);
        assert(batches(s[k].decode, s[k].inst, b));
    }
    if top != 0 {
        let k = choose|k: int| 0 <= k < s.len() && batches((#[trigger] s[k]).decode, s[k].inst, top);
        assert(g(s[k].decode, s[k].inst));
    }
}

proof fn buckets_are_of_programs(p: Packet, n: int, x: u32)
    requires
        0 <= n <= p.progs@.len(),
    ensures
        buckets_upto(p, n).contains(x) <==> exists|i: int|
            0 <= i < n && i < p.decode_lo && !(#[trigger] p.progs@[i]).packed && p.progs@[i].rows == x,
    decreases n,
{
    if n > 0 {
        buckets_are_of_programs(p, n - 1, x);
        let before = buckets_upto(p, n - 1);
        let all = buckets_upto(p, n);
        let l = p.progs@[n - 1];
        if before.contains(x) {
            let k = choose|k: int| 0 <= k < before.len() && before[k] == x;
            assert(all[k] == x);
            let i = choose|i: int|
                0 <= i < n - 1 && i < p.decode_lo && !(#[trigger] p.progs@[i]).packed
                    && p.progs@[i].rows == x;
            assert(0 <= i < n && !p.progs@[i].packed);
        }
        if n - 1 < p.decode_lo && !l.packed && l.rows == x {
            assert(all[before.len() as int] == x);
            assert(0 <= n - 1 < n && !p.progs@[n - 1].packed);
        }
        if all.contains(x) && !before.contains(x) {
            let k = choose|k: int| 0 <= k < all.len() && all[k] == x;
            if k < before.len() {
                assert(before[k] == x);
            }
        }
        if exists|i: int|
            0 <= i < n && i < p.decode_lo && !(#[trigger] p.progs@[i]).packed && p.progs@[i].rows
                == x {
            let i = choose|i: int|
                0 <= i < n && i < p.decode_lo && !(#[trigger] p.progs@[i]).packed && p.progs@[i].rows
                    == x;
            if i < n - 1 {
                assert(before.contains(x));
            }
        }
    }
}

proof fn top_is_the_largest(v: Seq<u32>, n: int)
    requires
        0 <= n <= v.len(),
    ensures
        top_of(v, n) >= 0,
        forall|k: int| 0 <= k < n ==> #[trigger] v[k] <= top_of(v, n),
        top_of(v, n) == 0 || exists|k: int| 0 <= k < n && #[trigger] v[k] == top_of(v, n),
    decreases n,
{
    if n > 0 {
        top_is_the_largest(v, n - 1);
        if top_of(v, n) == top_of(v, n - 1) && top_of(v, n) != 0 {
            let k = choose|k: int| 0 <= k < n - 1 && #[trigger] v[k] == top_of(v, n - 1);
            assert(v[k] == top_of(v, n));
        } else if top_of(v, n) != 0 {
            assert(v[n - 1] == top_of(v, n));
        }
    }
}

/// The buckets of a packet are the rows of its prefill programs that are not for packed prompts, and
/// its longest chunk is the largest of them.
pub proof fn buckets_are_those_of_single_prompts(isa: Isa, p: Packet, x: u32)
    ensures
        shapes_of(isa, p).prefill_buckets.contains(x) <==> exists|i: int|
            0 <= i < p.progs@.len() && i < p.decode_lo && !(#[trigger] p.progs@[i]).packed
                && p.progs@[i].rows == x,
        shapes_of(isa, p).prefill_buckets.contains(x) ==> x <= shapes_of(isa, p).max_chunk,
        shapes_of(isa, p).max_chunk > 0 ==> exists|k: int|
            0 <= k < shapes_of(isa, p).prefill_buckets.len()
                && #[trigger] shapes_of(isa, p).prefill_buckets[k] == shapes_of(isa, p).max_chunk,
        shapes_of(isa, p).prefill_buckets.len() == 0 ==> shapes_of(isa, p).max_chunk == 0,
{
    let b = shapes_of(isa, p).prefill_buckets;
    buckets_are_of_programs(p, p.progs@.len() as int, x);
    top_is_the_largest(b, b.len() as int);
}

/// The head size of an attention over separate keys and values.
pub open spec fn head_size(d: DevInst) -> Option<u32> {
    if attends_decode(d) || attends_prefill(d) {
        Some(d.args.i6)
    } else {
        None
    }
}

proof fn top_covers(s: Seq<Site>, n: int, k: int)
    requires
        0 <= k < n <= s.len(),
    ensures
        head_size(s[k].inst) matches Some(h) ==> h <= top_hd(s, n),
    decreases n,
{
    if k < n - 1 {
        top_covers(s, n - 1, k);
    }
}

proof fn full_stays(s: Seq<Site>, k: int, n: int)
    requires
        0 <= k < n <= s.len(),
        decides_full(s, k),
    ensures
        full_upto(s, n) == (Full {
            gqa: s[k].inst.args.i1 / s[k].inst.args.i2,
            kv_heads: s[k].inst.args.i2,
        }),
    decreases n,
{
    let a = s[k].inst.args;
    if n - 1 > k {
        full_stays(s, k, n - 1);
        top_covers(s, n, k);
    } else {
        top_is_covered(s, n, a.i6);
    }
}

proof fn top_is_covered(s: Seq<Site>, n: int, h: u32)
    requires
        0 <= n <= s.len(),
        forall|j: int|
            0 <= j < n && head_size((#[trigger] s[j]).inst) is Some ==> head_size(s[j].inst)->0 <= h,
    ensures
        top_hd(s, n) <= h,
    decreases n,
{
    if n > 0 {
        top_is_covered(s, n - 1, h);
        assert(head_size(s[n - 1].inst) == field_of(Field::HeadDim, s[n - 1].inst));
    }
}

/// Whether instruction `k` is the decode attention that full attention goes by: the last of the
/// decode programs' whose head size is the largest of all, over any heads of keys.
pub open spec fn decides_full(s: Seq<Site>, k: int) -> bool {
    let d = s[k].inst;
    &&& 0 <= k < s.len() && s[k].decode && attends_decode(d) && d.args.i2 > 0
    &&& forall|j: int|
        0 <= j < s.len() && head_size((#[trigger] s[j]).inst) is Some ==> head_size(s[j].inst)->0
            <= d.args.i6
    &&& forall|j: int|
        k < j < s.len() && (#[trigger] s[j]).decode && attends_decode(s[j].inst)
            && s[j].inst.args.i2 > 0 ==> s[j].inst.args.i6 < d.args.i6
}

/// Full attention is that of the largest head size: as many heads share one of keys as go into the
/// heads, and there are as many of those as it says.
pub proof fn full_attention_has_the_largest_heads(isa: Isa, p: Packet, k: int)
    requires
        decides_full(sites_of(p), k),
    ensures
        ({
            let a = sites_of(p)[k].inst.args;
            let f = shapes_of(isa, p).full;
            &&& f.kv_heads == a.i2
            &&& f.gqa * a.i2 <= a.i1 < (f.gqa + 1) * a.i2
        }),
{
    let s = sites_of(p);
    let a = s[k].inst.args;
    full_stays(s, k, s.len() as int);
    let q = a.i1 / a.i2;
    assert(q * a.i2 <= a.i1 < (q + 1) * a.i2) by (nonlinear_arith)
        requires
            a.i2 > 0,
            q == a.i1 / a.i2,
    ;
}

/// Whether instruction `k` is the last decode attention of a head size.
pub open spec fn last_decode(s: Seq<Site>, k: int, h: u32) -> bool {
    &&& 0 <= k < s.len() && attends_decode(s[k].inst) && s[k].inst.args.i6 == h
    &&& forall|j: int|
        k < j < s.len() && attends_decode((#[trigger] s[j]).inst) ==> s[j].inst.args.i6 != h
}

/// Whether instruction `k` is the first prefill attention of a head size that no decode has.
pub open spec fn first_prefill(s: Seq<Site>, k: int, h: u32) -> bool {
    &&& 0 <= k < s.len() && attends_prefill(s[k].inst) && s[k].inst.args.i6 == h
    &&& forall|j: int|
        0 <= j < s.len() && attends_decode((#[trigger] s[j]).inst) ==> s[j].inst.args.i6 != h
    &&& forall|j: int|
        0 <= j < k && attends_prefill((#[trigger] s[j]).inst) ==> s[j].inst.args.i6 != h
}

proof fn dtype_after_decode(s: Seq<Site>, k: int, h: u32, n: int)
    requires
        last_decode(s, k, h),
        k < n <= s.len(),
    ensures
        kv_dtypes_upto(s, n).dom().contains(h),
        kv_dtypes_upto(s, n)[h] == (s[k].inst.op == DevOp::FlashDecodeFp8),
    decreases n,
{
    if n - 1 > k {
        dtype_after_decode(s, k, h, n - 1);
    }
}

proof fn dtype_is_not_there(s: Seq<Site>, h: u32, n: int)
    requires
        0 <= n <= s.len(),
        forall|j: int| 0 <= j < n ==> head_size((#[trigger] s[j]).inst) != Some(h),
    ensures
        !kv_dtypes_upto(s, n).dom().contains(h),
    decreases n,
{
    if n > 0 {
        dtype_is_not_there(s, h, n - 1);
        assert(head_size(s[n - 1].inst) != Some(h));
    }
}

proof fn dtype_after_prefill(s: Seq<Site>, k: int, h: u32, n: int)
    requires
        first_prefill(s, k, h),
        k < n <= s.len(),
    ensures
        kv_dtypes_upto(s, n).dom().contains(h),
        kv_dtypes_upto(s, n)[h] == (s[k].inst.op == DevOp::FlashPrefillFp8),
    decreases n,
{
    if n - 1 > k {
        dtype_after_prefill(s, k, h, n - 1);
    } else {
        assert forall|j: int| 0 <= j < k implies head_size((#[trigger] s[j]).inst) != Some(h) by {}
        dtype_is_not_there(s, h, k);
    }
}

/// The keys and values of a head size are e4m3 where the last decode attention of the size reads
/// them so, and where no decode has the size, where the first prefill attention does. A size that no
/// attention has is not told.
pub proof fn caches_are_stored_as_decode_reads_them(isa: Isa, p: Packet, k: int, h: u32)
    ensures
        ({
            let s = sites_of(p);
            let m = shapes_of(isa, p).kv_dtype;
            &&& last_decode(s, k, h) ==> m.dom().contains(h) && m[h] == (s[k].inst.op
                == DevOp::FlashDecodeFp8)
            &&& first_prefill(s, k, h) ==> m.dom().contains(h) && m[h] == (s[k].inst.op
                == DevOp::FlashPrefillFp8)
            &&& (forall|j: int| 0 <= j < s.len() ==> head_size((#[trigger] s[j]).inst) != Some(h))
                ==> !m.dom().contains(h)
        }),
{
    let s = sites_of(p);
    let n = s.len() as int;
    if last_decode(s, k, h) {
        dtype_after_decode(s, k, h, n);
    }
    if first_prefill(s, k, h) {
        dtype_after_prefill(s, k, h, n);
    }
    if forall|j: int| 0 <= j < s.len() ==> head_size((#[trigger] s[j]).inst) != Some(h) {
        dtype_is_not_there(s, h, n);
    }
}

/// A work item of full attention carries eight heads where eight go into those that share one of
/// keys, all of them where they are one, two or four, and one otherwise; and the rule speaks only of
/// a single head of keys.
pub proof fn work_items_carry_shared_heads(gqa: u32, kv_heads: u32)
    ensures
        kv_heads != 1 || gqa == 0 ==> gf_rule(gqa, kv_heads) is None,
        gqa > 0 && gqa % 8 == 0 ==> gf_rule(gqa, 1) == Some(8u32),
        gqa == 1 || gqa == 2 || gqa == 4 ==> gf_rule(gqa, 1) == Some(gqa),
        gqa > 0 && gqa % 8 != 0 && gqa != 2 && gqa != 4 ==> gf_rule(gqa, 1) == Some(1u32),
{
    next_pow2_is_least(gqa as int);
    reveal_with_fuel(next_pow2, 5);
    if gqa > 8 {
        next_pow2_monotone(8, gqa as int);
        assert(next_pow2(8) == 8);
    }
    assert(next_pow2(1) == 1 && next_pow2(2) == 2 && next_pow2(3) == 4 && next_pow2(4) == 4);
    assert(next_pow2(5) == 8 && next_pow2(6) == 8 && next_pow2(7) == 8);
    let g = smaller(next_pow2(gqa as int), 8) as u32;
    if gqa == 1 {
        assert(g == 1 && 1u32 % 1u32 == 0);
    } else if gqa == 2 {
        assert(g == 2 && 2u32 % 2u32 == 0);
    } else if gqa == 4 {
        assert(g == 4 && 4u32 % 4u32 == 0);
    } else if gqa == 3 {
        assert(g == 4 && 3u32 % 4u32 == 3);
    } else if gqa > 4 {
        assert(next_pow2(gqa as int) >= 8);
        assert(g == 8);
    }
}

/// A packet's products take the least power of two of rows that holds its batch, and at least one;
/// what was looked up is kept as it is.
pub proof fn products_take_the_least_power_of_two(s: ShapesView, t: Tally, q: int)
    requires
        0 <= s.decode_batch <= 0x8000_0000,
    ensures
        ({
            let r = tuning_of(s, t).gv_mm_max;
            &&& is_pow2(r as int) && r >= 1 && r >= s.decode_batch
            &&& is_pow2(q) && q >= 1 && q >= s.decode_batch ==> q >= r
        }),
        tuning_of(s, t).tally == t,
        tuning_of(s, t).gf_full == gf_rule(s.full.gqa, s.full.kv_heads),
{
    let n = larger(s.decode_batch, 1);
    next_pow2_is_least(n);
    next_pow2_monotone(n, 0x8000_0000);
    assert(is_pow2(0x8000_0000)) by {
        reveal_with_fuel(is_pow2, 33);
    }
    next_pow2_of_pow2(0x8000_0000);
}

/// Tiles are measured where every one that was looked up was, analytical where none was, and mixed
/// otherwise.
pub proof fn tiles_say_where_they_came_from(t: Tally)
    requires
        t.hits <= t.lookups,
        t.lookups > 0,
    ensures
        t.hits == t.lookups ==> tile_source(t) == "measured"@,
        t.hits == 0 ==> tile_source(t) == "analytical"@,
        0 < t.hits < t.lookups ==> tile_source(t) == "mixed"@,
{
}

/// An expert's matrix takes four bits an element, rounded down to bytes; its scales a byte to each 32
/// of a row; and the second arrangement keeps the matrix, and scales in whole tiles of 256 rows by 8.
pub proof fn experts_take_four_bits_an_element(h: int, i: int)
    requires
        h >= 0,
        i >= 0,
    ensures
        2 * payload(h, i) <= h * i < 2 * payload(h, i) + 2,
        i % 32 == 0 ==> 32 * scales(h, i) == h * i,
        h % 256 == 0 && i % 256 == 0 ==> second_bytes(h, i) == payload(h, i) + scales(h, i),
        second_bytes(h, i) >= payload(h, i) + scales(h, i),
{
    let q = i / 32;
    if i % 32 == 0 {
        assert(32 * (h * q) == h * i) by (nonlinear_arith)
            requires
                i == 32 * q,
        ;
    }
    ceil_div_bounds(h, 256);
    ceil_div_bounds(q, 8);
    let a = ceil_div(h, 256) * 256;
    let b = ceil_div(q, 8) * 8;
    assert(a * b >= h * q) by (nonlinear_arith)
        requires
            a >= h,
            b >= q,
            h >= 0,
            q >= 0,
    ;
    if h % 256 == 0 && i % 256 == 0 {
        assert(a == h);
        assert(b == q);
    }
}

/// A rank keeps whole experts, its even share rounded up: as many as it takes, each of three
/// matrices with their scales, and the second arrangement where there is one.
pub proof fn a_rank_keeps_whole_experts(d: DevInst, second: bool, a: u32)
    requires
        starts_boundary(d),
    ensures
        ({
            let h = d.args.i1 as int;
            let i = d.args.i0 as int;
            let one = resident((DevInst { args: Args { i2: 1, ..d.args }, ..d }), second);
            &&& one == 3 * payload(h, i) + 3 * scales(h, i) + if second { second_bytes(h, i) } else {
                0
            }
            &&& d.args.i2 == a * d.args.i6 ==> resident(d, second) == a * one
            &&& d.args.i2 == a * d.args.i6 + 1 ==> resident(d, second) == (a + 1) * one
        }),
{
    let e = d.args.i2 as int;
    let g = d.args.i6 as int;
    let h = d.args.i1 as int;
    let i = d.args.i0 as int;
    let x = 3 * (payload(h, i) + scales(h, i)) + (if second { second_bytes(h, i) } else { 0 });
    assert(ceil_div(1, g) == 1) by (nonlinear_arith)
        requires
            g > 1,
            ceil_div(1, g) == (1 + g - 1) / g,
    ;
    assert(1 * x == x);
    if e == a * g {
        assert((a * g + g - 1) / g == a) by (nonlinear_arith)
            requires
                g > 1,
                a >= 0,
        ;
    }
    if e == a * g + 1 {
        assert((a * g + 1 + g - 1) / g == a + 1) by (nonlinear_arith)
            requires
                g > 1,
                a >= 0,
        ;
    }
}

proof fn tables_are_those_before(s: Seq<Site>, n: int, t: u32)
    requires
        0 <= n <= s.len(),
    ensures
        tables_upto(s, n).contains(t) <==> exists|k: int|
            0 <= k < n && starts_boundary((#[trigger] s[k]).inst) && s[k].inst.args.t2 == t,
    decreases n,
{
    if n > 0 {
        tables_are_those_before(s, n - 1, t);
        if starts_boundary(s[n - 1].inst) && s[n - 1].inst.args.t2 == t {
            assert(0 <= n - 1 < n && starts_boundary(s[n - 1].inst));
        }
        if exists|k: int|
            0 <= k < n && starts_boundary((#[trigger] s[k]).inst) && s[k].inst.args.t2 == t {
            let k = choose|k: int|
                0 <= k < n && starts_boundary((#[trigger] s[k]).inst) && s[k].inst.args.t2 == t;
            if k < n - 1 {
                assert(starts_boundary(s[k].inst));
            }
        }
    }
}

/// Each expert table is counted once: a gated product over several ranks adds its rank's bytes where
/// none before it had its table, and nothing else adds any.
pub proof fn each_table_is_counted_once(ts: Seq<String>, s: Seq<Site>, n: int)
    requires
        0 <= n < s.len(),
    ensures
        ({
            let d = s[n].inst;
            let more = resident_upto(ts, s, n + 1) - resident_upto(ts, s, n);
            let counted = exists|k: int|
                0 <= k < n && (#[trigger] s[k]).inst.op == DevOp::MoeGroupGluPf && s[k].inst.args.i6
                    > 1 && s[k].inst.args.t2 == d.args.t2;
            &&& d.op == DevOp::MoeGroupGluPf && d.args.i6 > 1 && !counted ==> more == resident(
                d,
                has_second(ts, d.args.t2),
            )
            &&& d.op != DevOp::MoeGroupGluPf || d.args.i6 <= 1 || counted ==> more == 0
        }),
        resident_upto(ts, s, 0) == 0,
{
    let d = s[n].inst;
    tables_are_those_before(s, n, d.args.t2);
    if tables_upto(s, n).contains(d.args.t2) {
        let k = choose|k: int|
            0 <= k < n && starts_boundary((#[trigger] s[k]).inst) && s[k].inst.args.t2 == d.args.t2;
        assert(s[k].inst.op == DevOp::MoeGroupGluPf);
    } else {
        assert forall|k: int| 0 <= k < n implies !((#[trigger] s[k]).inst.op == DevOp::MoeGroupGluPf
            && s[k].inst.args.i6 > 1 && s[k].inst.args.t2 == d.args.t2) by {
            assert(starts_boundary(s[k].inst) == (s[k].inst.op == DevOp::MoeGroupGluPf
                && s[k].inst.args.i6 > 1));
        }
    }
}

/// A table's experts come in a second arrangement exactly where a tensor has the table's name with
/// the second arrangement's ending in place of its own.
pub proof fn second_arrangements_are_named(ts: Seq<String>, t: u32, stem: Seq<char>)
    ensures
        has_second(ts, t) ==> t < ts.len() && ends(ts[t as int]@, "expert_weight_table_ep"@),
        t < ts.len() && ts[t as int]@ == stem + "expert_weight_table_ep"@ ==> (has_second(ts, t)
            <==> exists|i: int|
            0 <= i < ts.len() && (#[trigger] ts[i])@ == stem + "expert_weight_table_moe2_ep"@),
{
    if t < ts.len() && ts[t as int]@ == stem + "expert_weight_table_ep"@ {
        let e = "expert_weight_table_ep"@;
        let name = ts[t as int]@;
        assert(name.take(name.len() - e.len()) =~= stem);
        assert(name.subrange(stem.len() as int, name.len() as int) =~= e);
    }
}

} // verus!
