//! Fine-grained dependency maps.
//!
//! A fine edge names, for each workgroup of a consumer, the workgroups of the producer it has to
//! wait for. Every map here is built the same way: the consumer walks a list of work items, each
//! item belongs to one consumer workgroup, and each item reads a run of producer workgroups.
use vstd::prelude::*;

verus! {

/// The members of `0..n` that satisfy `p`, in ascending order.
pub open spec fn members(n: nat, p: spec_fn(int) -> bool) -> Seq<u32>
    decreases n,
{
    if n == 0 {
        Seq::empty()
    } else {
        let s = members((n - 1) as nat, p);
        if p(n - 1) {
            s.push((n - 1) as u32)
        } else {
            s
        }
    }
}

/// `members` depends on the predicate only below `n`.
pub proof fn members_congruence(n: nat, p: spec_fn(int) -> bool, q: spec_fn(int) -> bool)
    requires
        forall|i: int| 0 <= i < n ==> #[trigger] p(i) == q(i),
    ensures
        members(n, p) == members(n, q),
    decreases n,
{
    if n > 0 {
        members_congruence((n - 1) as nat, p, q);
    }
}

/// `members` holds exactly the numbers that satisfy the predicate, each once, ascending.
pub proof fn members_are_exact(n: nat, p: spec_fn(int) -> bool)
    requires
        n <= u32::MAX,
    ensures
        members(n, p).len() <= n,
        forall|i: int| 0 <= i < members(n, p).len() ==> (#[trigger] members(n, p)[i]) < n && p(
            members(n, p)[i] as int,
        ),
        forall|i: int, j: int|
            0 <= i < j < members(n, p).len() ==> (#[trigger] members(n, p)[i]) < (
            #[trigger] members(n, p)[j]),
        forall|x: int| 0 <= x < n && #[trigger] p(x) ==> members(n, p).contains(x as u32),
    decreases n,
{
    if n > 0 {
        let m = (n - 1) as nat;
        members_are_exact(m, p);
        let s = members(m, p);
        assert forall|x: int| 0 <= x < n && #[trigger] p(x) implies members(n, p).contains(
            x as u32,
        ) by {
            if x < m {
                let k = choose|k: int| 0 <= k < s.len() && s[k] == x as u32;
                assert(members(n, p)[k] == x as u32);
            } else {
                assert(members(n, p)[s.len() as int] == x as u32);
            }
        }
    }
}

/// The ascending list of the positions marked in `marks`.
fn collect_marks(marks: &Vec<bool>) -> (r: Vec<u32>)
    requires
        marks@.len() <= u32::MAX,
    ensures
        r@ == members(marks@.len(), |i: int| marks@[i]),
{
    let mut r: Vec<u32> = Vec::new();
    let mut i: u32 = 0;
    let ghost f = |i: int| marks@[i];
    while (i as usize) < marks.len()
        invariant
            i <= marks@.len() <= u32::MAX,
            f == (|i: int| marks@[i]),
            r@ == members(i as nat, f),
        decreases marks@.len() - i,
    {
        if marks[i as usize] {
            r.push(i);
        }
        i = i + 1;
    }
    r
}

/// A work item of a consumer: workgroup `owner` runs it, and it reads the producer workgroups
/// `lo..=hi`.
pub struct Item {
    pub owner: u32,
    pub lo: u32,
    pub hi: u32,
}

/// Whether one of the items of consumer workgroup `j` reads producer workgroup `p`.
pub open spec fn waits_on(items: Seq<Item>, j: int, p: int) -> bool {
    exists|w: int|
        0 <= w < items.len() && (#[trigger] items[w]).owner == j && items[w].lo <= p <= items[w].hi
}

/// The wait map of a walk: row `j` is the ascending list of the producer workgroups that the items
/// of consumer workgroup `j` read.
pub open spec fn wait_map(rows: nat, producers: nat, items: Seq<Item>) -> Seq<Seq<u32>> {
    Seq::new(rows, |j: int| members(producers, |p: int| waits_on(items, j, p)))
}

/// A map's rows as sequences.
pub open spec fn rows_view(m: Seq<Vec<u32>>) -> Seq<Seq<u32>> {
    Seq::new(m.len(), |i: int| m[i]@)
}

/// Builds the wait map of a walk.
pub fn build_wait_map(rows: u32, producers: u32, items: &Vec<Item>) -> (r: Vec<Vec<u32>>)
    requires
        forall|w: int| 0 <= w < items@.len() ==> (#[trigger] items@[w]).owner < rows,
    ensures
        rows_view(r@) == wait_map(rows as nat, producers as nat, items@),
{
    let mut marks: Vec<Vec<bool>> = Vec::new();
    let mut j: u32 = 0;
    while j < rows
        invariant
            j <= rows,
            marks@.len() == j,
            forall|i: int| 0 <= i < j ==> (#[trigger] marks@[i])@ == Seq::new(
                producers as nat,
                |p: int| false,
            ),
        decreases rows - j,
    {
        let mut row: Vec<bool> = Vec::new();
        let mut p: u32 = 0;
        while p < producers
            invariant
                p <= producers,
                row@ == Seq::new(p as nat, |p: int| false),
            decreases producers - p,
        {
            row.push(false);
            p = p + 1;
        }
        marks.push(row);
        j = j + 1;
    }
    let mut w: usize = 0;
    while w < items.len()
        invariant
            w <= items@.len(),
            marks@.len() == rows,
            forall|w: int| 0 <= w < items@.len() ==> (#[trigger] items@[w]).owner < rows,
            forall|i: int| 0 <= i < rows ==> (#[trigger] marks@[i])@.len() == producers,
            forall|i: int, p: int|
                0 <= i < rows && 0 <= p < producers ==> (#[trigger] marks@[i]@[p]) == waits_on(
                    items@.take(w as int),
                    i,
                    p,
                ),
        decreases items@.len() - w,
    {
        let o: usize = items[w].owner as usize;
        let lo: u32 = items[w].lo;
        let hi: u32 = items[w].hi;
        let ghost before = marks@;
        let ghost cur = items@[w as int];
        let mut p: u32 = lo;
        while p < producers && p <= hi
            invariant
                lo <= p,
                o < rows,
                marks@.len() == rows,
                forall|i: int| 0 <= i < rows ==> (#[trigger] marks@[i])@.len() == producers,
                forall|i: int, q: int|
                    0 <= i < rows && 0 <= q < producers ==> (#[trigger] marks@[i]@[q]) == (
                    before[i]@[q] || (i == o && lo <= q < p && q <= hi)),
            decreases producers - p,
        {
            let row = &mut marks[o];
            row[p as usize] = true;
            p = p + 1;
        }
        proof {
            let old_items = items@.take(w as int);
            let new_items = items@.take(w + 1);
            assert(new_items == old_items.push(cur));
            assert forall|i: int, q: int|
                0 <= i < rows && 0 <= q < producers implies (#[trigger] marks@[i]@[q]) == waits_on(
                new_items,
                i,
                q,
            ) by {
                if waits_on(old_items, i, q) {
                    let k = choose|k: int|
                        0 <= k < old_items.len() && (#[trigger] old_items[k]).owner == i
                            && old_items[k].lo <= q <= old_items[k].hi;
                    assert(new_items[k].owner == i);
                }
                if i == o && lo <= q <= hi {
                    assert(new_items[w as int].owner == i);
                }
                if waits_on(new_items, i, q) && !waits_on(old_items, i, q) {
                    let k = choose|k: int|
                        0 <= k < new_items.len() && (#[trigger] new_items[k]).owner == i
                            && new_items[k].lo <= q <= new_items[k].hi;
                    if k < w {
                        assert(old_items[k].owner == i);
                    }
                }
            }
        }
        w = w + 1;
    }
    proof {
        assert(items@.take(items@.len() as int) == items@);
    }
    let mut out: Vec<Vec<u32>> = Vec::new();
    let mut k: u32 = 0;
    while k < rows
        invariant
            k <= rows,
            marks@.len() == rows,
            forall|i: int| 0 <= i < rows ==> (#[trigger] marks@[i])@.len() == producers,
            forall|i: int, p: int|
                0 <= i < rows && 0 <= p < producers ==> (#[trigger] marks@[i]@[p]) == waits_on(
                    items@,
                    i,
                    p,
                ),
            out@.len() == k,
            forall|i: int|
                0 <= i < k ==> (#[trigger] out@[i])@ == members(
                    producers as nat,
                    |p: int| waits_on(items@, i, p),
                ),
        decreases rows - k,
    {
        let row: Vec<u32> = collect_marks(&marks[k as usize]);
        proof {
            let m = marks@[k as int]@;
            members_congruence(
                producers as nat,
                |i: int| m[i],
                |p: int| waits_on(items@, k as int, p),
            );
        }
        out.push(row);
        k = k + 1;
    }
    proof {
        assert(rows_view(out@) =~= wait_map(rows as nat, producers as nat, items@));
    }
    out
}

} // verus!
