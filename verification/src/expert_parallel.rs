//! What expert parallelism of a prefill costs each rank.
use vstd::prelude::*;

use crate::arith::ceil_div;
use crate::arms::{DevInst, Packet};
use crate::isa::DevOp;
use crate::order::SortedSet;
use crate::packet_shape::Site;
use crate::text::{ends, ends_with};

verus! {

/// Whether a tensor is called `name`.
pub open spec fn is_called(ts: Seq<String>, name: Seq<char>) -> bool {
    exists|i: int| 0 <= i < ts.len() && (#[trigger] ts[i])@ == name
}

/// The name behind the prefix of an expert table.
pub open spec fn table_prefix(name: Seq<char>) -> Seq<char> {
    name.take(name.len() - "expert_weight_table_ep"@.len())
}

/// Whether the experts of a table come in a second arrangement too.
pub open spec fn has_second(ts: Seq<String>, t: u32) -> bool {
    &&& t < ts.len()
    &&& ends(ts[t as int]@, "expert_weight_table_ep"@)
    &&& is_called(ts, table_prefix(ts[t as int]@) + "expert_weight_table_moe2_ep"@)
}

fn calls(ts: &Vec<String>, name: &String) -> (r: bool)
    ensures
        r == is_called(ts@, name@),
{
    let mut i: usize = 0;
    while i < ts.len()
        invariant
            i <= ts@.len(),
            forall|j: int| 0 <= j < i ==> (#[trigger] ts@[j])@ != name@,
        decreases ts@.len() - i,
    {
        if ts[i] == *name {
            proof {
                assert(ts@[i as int]@ == name@);
            }
            return true;
        }
        i = i + 1;
    }
    false
}

fn second_arrangement(ts: &Vec<String>, t: u32) -> (r: bool)
    ensures
        r == has_second(ts@, t),
{
    if t as u64 >= ts.len() as u64 {
        return false;
    }
    let name: &str = ts[t as usize].as_str();
    if !ends_with(name, "expert_weight_table_ep") {
        return false;
    }
    let n: usize = name.unicode_len();
    let k: usize = "expert_weight_table_ep".unicode_len();
    let p: &str = name.substring_char(0, n - k);
    let mut w: String = p.to_owned();
    w.append("expert_weight_table_moe2_ep");
    proof {
        assert(p@ =~= table_prefix(name@));
    }
    calls(ts, &w)
}

/// Whether an instruction starts a boundary of expert parallelism.
pub open spec fn starts_boundary(d: DevInst) -> bool {
    d.op == DevOp::MoeGroupGluPf && d.args.i6 > 1
}

/// Bytes of one expert's matrix: four bits an element.
pub open spec fn payload(h: int, i: int) -> int {
    h * i / 2
}

/// Bytes of one expert's scales: one to thirty-two elements.
pub open spec fn scales(h: int, i: int) -> int {
    h * (i / 32)
}

/// Bytes of the second arrangement: the matrix, and scales in tiles of 256 x 8.
pub open spec fn second_bytes(h: int, i: int) -> int {
    payload(h, i) + ceil_div(h, 256) * 256 * (ceil_div(i / 32, 8) * 8)
}

/// Bytes of one rank's whole experts.
pub open spec fn resident(d: DevInst, second: bool) -> int {
    let h = d.args.i1 as int;
    let i = d.args.i0 as int;
    let one = 3 * (payload(h, i) + scales(h, i)) + (if second { second_bytes(h, i) } else { 0 });
    ceil_div(d.args.i2 as int, d.args.i6 as int) * one
}

/// The expert tables of the first `n` instructions' boundaries.
pub open spec fn tables_upto(s: Seq<Site>, n: int) -> Set<u32>
    decreases n,
{
    if n <= 0 {
        Set::empty()
    } else if starts_boundary(s[n - 1].inst) {
        tables_upto(s, n - 1).insert(s[n - 1].inst.args.t2)
    } else {
        tables_upto(s, n - 1)
    }
}

/// Whether instruction `n` starts a boundary of a table that none before it had.
pub open spec fn fresh(s: Seq<Site>, n: int) -> bool {
    starts_boundary(s[n].inst) && !tables_upto(s, n).contains(s[n].inst.args.t2)
}

/// Bytes that the first `n` instructions keep on each rank, each table counted once.
pub open spec fn resident_upto(ts: Seq<String>, s: Seq<Site>, n: int) -> int
    decreases n,
{
    if n <= 0 {
        0
    } else if fresh(s, n - 1) {
        let d = s[n - 1].inst;
        resident_upto(ts, s, n - 1) + resident(d, has_second(ts, d.args.t2))
    } else {
        resident_upto(ts, s, n - 1)
    }
}

proof fn product_bound(a: int, b: int, x: int, y: int)
    requires
        0 <= a <= x,
        0 <= b <= y,
    ensures
        0 <= a * b <= x * y,
{
    assert(0 <= a * b) by (nonlinear_arith)
        requires
            0 <= a,
            0 <= b,
    ;
    assert(a * b <= x * y) by (nonlinear_arith)
        requires
            0 <= a <= x,
            0 <= b <= y,
    ;
}

fn div_up(a: u128, b: u128) -> (r: u128)
    requires
        0 < b <= 0xFFFF_FFFF,
        a <= 0xFFFF_FFFF,
    ensures
        r == ceil_div(a as int, b as int),
        r <= a,
{
    proof {
        crate::arith::ceil_div_bounds(a as int, b as int);
    }
    (a + b - 1) / b
}

/// Bytes of one rank's whole experts.
fn resident_bytes(d: DevInst, second: bool) -> (r: u128)
    requires
        d.args.i6 > 0,
    ensures
        r == resident(d, second),
        r <= 0x2000_0000_0000_0000_0000_0000_0000,
{
    let h: u128 = d.args.i1 as u128;
    let i: u128 = d.args.i0 as u128;
    proof {
        product_bound(h as int, i as int, 0xFFFF_FFFF, 0xFFFF_FFFF);
        product_bound(h as int, (i / 32) as int, 0xFFFF_FFFF, 0xFFFF_FFFF);
    }
    let p: u128 = h * i / 2;
    let s: u128 = h * (i / 32);
    let second: u128 = if second {
        let a: u128 = div_up(h, 256) * 256;
        let b: u128 = div_up(i / 32, 8) * 8;
        proof {
            product_bound(a as int, b as int, 0x100_0000_0000, 0x8_0000_0000);
        }
        p + a * b
    } else {
        0
    };
    let one: u128 = 3 * (p + s) + second;
    let n: u128 = div_up(d.args.i2 as u128, d.args.i6 as u128);
    proof {
        product_bound(n as int, one as int, 0xFFFF_FFFF, 0x2000_0000_0000_0000_0000);
    }
    n * one
}

/// Bytes that a packet's instructions keep on each rank, where they fit in sixty-four bits.
pub fn resident_extra(p: &Packet, s: &Vec<Site>) -> (r: Option<u64>)
    ensures
        match r {
            Some(v) => v == resident_upto(p.tensors@, s@, s@.len() as int),
            None => resident_upto(p.tensors@, s@, s@.len() as int) > u64::MAX,
        },
{
    let mut seen: SortedSet<u32> = SortedSet::new();
    let mut total: u128 = 0;
    let mut i: usize = 0;
    while i < s.len()
        invariant
            i <= s@.len(),
            seen.wf(),
            seen@ == tables_upto(s@, i as int),
            total == resident_upto(p.tensors@, s@, i as int),
            total <= u64::MAX,
        decreases s@.len() - i,
    {
        let d: DevInst = s[i].inst;
        if d.op == DevOp::MoeGroupGluPf && d.args.i6 > 1 {
            if !seen.contains(&d.args.t2) {
                let b: u128 = resident_bytes(d, second_arrangement(&p.tensors, d.args.t2));
                total = total + b;
                if total > u64::MAX as u128 {
                    proof {
                        resident_grows(p.tensors@, s@, i + 1, s@.len() as int);
                    }
                    return None;
                }
            }
            seen.insert(d.args.t2);
        }
        i = i + 1;
    }
    Some(total as u64)
}

proof fn resident_grows(ts: Seq<String>, s: Seq<Site>, a: int, b: int)
    requires
        0 <= a <= b <= s.len(),
    ensures
        resident_upto(ts, s, a) <= resident_upto(ts, s, b),
    decreases b - a,
{
    if a < b {
        resident_grows(ts, s, a, b - 1);
        if fresh(s, b - 1) {
            let d = s[b - 1].inst;
            resident_is_not_negative(d, has_second(ts, d.args.t2));
        }
    }
}

proof fn resident_is_not_negative(d: DevInst, second: bool)
    requires
        d.args.i6 > 0,
    ensures
        resident(d, second) >= 0,
{
    let h = d.args.i1 as int;
    let i = d.args.i0 as int;
    product_bound(h, i, h, i);
    product_bound(h, i / 32, h, i / 32);
    crate::arith::ceil_div_bounds(h, 256);
    crate::arith::ceil_div_bounds(i / 32, 8);
    crate::arith::ceil_div_bounds(d.args.i2 as int, d.args.i6 as int);
    let a = ceil_div(h, 256) * 256;
    let b = ceil_div(i / 32, 8) * 8;
    product_bound(a, b, a, b);
    let one = 3 * (payload(h, i) + scales(h, i)) + (if second { second_bytes(h, i) } else { 0 });
    product_bound(
        ceil_div(d.args.i2 as int, d.args.i6 as int),
        one,
        ceil_div(d.args.i2 as int, d.args.i6 as int),
        one,
    );
}

} // verus!
