//! The launches of a packet's programs in order, and which program sets each object's size.
use vstd::prelude::*;

use crate::arms::{programs_wf, Arm, ArmView, ProgramArms, ProgramView};
use crate::features::arm_in_items;
use crate::inventory::{
    add_arms, families, families_json, families_of, families_view, flash_op, is_flash_op, keys,
    keys_json, keys_of, keys_view,
};
use crate::json::{num_json, str_json, strs_json, strs_view, Fields, Items, Json, JsonView};
use crate::order::{listing, views, SortedSet};
use crate::text::{begins, starts_with};

verus! {

/// The limits that a segment's object must keep, on an AMD part.
#[verifier::opaque]
pub open spec fn limits_view(arch: Seq<char>, flash: bool) -> JsonView {
    if begins(arch, "gfx"@) {
        JsonView::Obj(
            map![
                "max_total_registers"@ => JsonView::Num(if flash { 512 } else { 256 }),
                "min_occupancy_waves_per_simd"@ => JsonView::Num(if flash { 1 } else { 2 }),
                "wavefront_size"@ => JsonView::Num(64),
                "max_private_segment_bytes_delta"@ => JsonView::Num(0),
                "max_vgpr_spill_delta"@ => JsonView::Num(0),
                "max_sgpr_spill_delta"@ => JsonView::Num(0),
                "policy"@ => JsonView::Str("refuse"@),
            ],
        )
    } else {
        JsonView::Null
    }
}

fn limits_json(arch: &str, flash: bool) -> (r: Json)
    ensures
        r@ == limits_view(arch@, flash),
{
    proof {
        reveal(limits_view);
    }
    if starts_with(arch, "gfx") {
        let mut o = Fields::new();
        o.put("max_total_registers", num_json(if flash { 512 } else { 256 }));
        o.put("min_occupancy_waves_per_simd", num_json(if flash { 1 } else { 2 }));
        o.put("wavefront_size", num_json(64));
        o.put("max_private_segment_bytes_delta", num_json(0));
        o.put("max_vgpr_spill_delta", num_json(0));
        o.put("max_sgpr_spill_delta", num_json(0));
        o.put("policy", str_json("refuse"));
        o.done()
    } else {
        Json::Null
    }
}

/// Whether a set of arms belongs in the attention objects.
pub open spec fn is_flash(u: Set<ArmView>) -> bool {
    exists|a: ArmView| #[trigger] u.contains(a) && flash_op(a.op)
}

fn has_flash(u: &SortedSet<Arm>) -> (r: bool)
    ensures
        r == is_flash(u@),
{
    let mut i: usize = 0;
    while i < u.items.len()
        invariant
            i <= u.items@.len(),
            forall|j: int| 0 <= j < i ==> !flash_op((#[trigger] u.items@[j])@.op),
        decreases u.items@.len() - i,
    {
        if is_flash_op(u.items[i].op.as_str()) {
            proof {
                arm_in_items(u, u.items@[i as int]@);
            }
            return true;
        }
        i = i + 1;
    }
    proof {
        assert forall|a: ArmView| #[trigger] u@.contains(a) implies !flash_op(a.op) by {
            arm_in_items(u, a);
        }
    }
    false
}

/// The number of a row's segment: zero where the program has only one.
pub open spec fn seg_of(p: ProgramView) -> u32 {
    match p.seg {
        Some(s) => s,
        None => 0,
    }
}

fn seg_number(p: &ProgramArms) -> (r: u32)
    ensures
        r == seg_of(p@),
{
    match p.seg {
        Some(s) => s,
        None => 0,
    }
}

/// The class of an object.
pub open spec fn class_text(flash: bool) -> Seq<char> {
    if flash { "flash"@ } else { "ordinary"@ }
}

fn class_str(flash: bool) -> (r: &'static str)
    ensures
        r@ == class_text(flash),
{
    if flash { "flash" } else { "ordinary" }
}

/// One segment of a chain.
#[verifier::opaque]
pub open spec fn segment_doc(arch: Seq<char>, p: ProgramView) -> JsonView {
    JsonView::Obj(
        map![
            "segment"@ => JsonView::Num(seg_of(p) as u64),
            "insts"@ => JsonView::Num(p.insts as u64),
            "arms"@ => keys_view(p.arms),
            "families"@ => families_view(p.arms),
            "object_class"@ => JsonView::Str(class_text(is_flash(p.arms))),
            "resource_contract"@ => limits_view(arch, is_flash(p.arms)),
        ],
    )
}

fn segment_json(arch: &str, p: &ProgramArms) -> (r: Json)
    requires
        p.arms.wf(),
    ensures
        r@ == segment_doc(arch@, p@),
{
    proof {
        reveal(segment_doc);
    }
    let flash: bool = has_flash(&p.arms);
    let mut o = Fields::new();
    o.put("segment", num_json(seg_number(p)));
    o.put("insts", Json::Num(p.insts as u64));
    o.put("arms", keys_json(&p.arms));
    o.put("families", families_json(&p.arms));
    o.put("object_class", str_json(class_str(flash)));
    o.put("resource_contract", limits_json(arch, flash));
    o.done()
}

/// Whether two rows can share an object: the same families, and attention or not alike.
pub open spec fn alike(a: ProgramView, b: ProgramView) -> bool {
    families_of(a.arms) == families_of(b.arms) && is_flash(a.arms) == is_flash(b.arms)
}

fn are_alike(a: &ProgramArms, b: &ProgramArms) -> (r: bool)
    ensures
        r == alike(a@, b@),
{
    let x: SortedSet<String> = families(&a.arms);
    let y: SortedSet<String> = families(&b.arms);
    proof {
        x.items_are_the_listing();
        y.items_are_the_listing();
    }
    let ghost xv = views(x.items@);
    let ghost yv = views(y.items@);
    if x.items.len() != y.items.len() {
        proof {
            assert(xv.len() != yv.len());
        }
        return false;
    }
    let mut i: usize = 0;
    while i < x.items.len()
        invariant
            i <= x.items@.len(),
            x.items@.len() == y.items@.len(),
            xv == views(x.items@),
            yv == views(y.items@),
            xv == listing::<String>(families_of(a@.arms)),
            yv == listing::<String>(families_of(b@.arms)),
            forall|j: int| 0 <= j < i ==> xv[j] == yv[j],
        decreases x.items@.len() - i,
    {
        if x.items[i] != y.items[i] {
            proof {
                assert(xv[i as int] != yv[i as int]);
            }
            return false;
        }
        i = i + 1;
    }
    proof {
        assert(xv =~= yv);
    }
    has_flash(&a.arms) == has_flash(&b.arms)
}

/// The end of the phase that starts at `lo`: the first row at or after `hi` that is not like it.
pub open spec fn phase_end(rows: Seq<ProgramView>, lo: int, hi: int) -> int
    decreases rows.len() - hi,
{
    if hi >= rows.len() {
        rows.len() as int
    } else if alike(rows[hi], rows[lo]) {
        phase_end(rows, lo, hi + 1)
    } else {
        hi
    }
}

/// The arms of the rows from `lo` to `hi`, as they are written.
pub open spec fn written(rows: Seq<ProgramView>, lo: int, hi: int) -> Set<Seq<char>>
    decreases hi - lo,
{
    if hi <= lo {
        Set::empty()
    } else {
        written(rows, lo, hi - 1).union(keys_of(rows[hi - 1].arms).to_set())
    }
}

/// One phase of a chain: consecutive segments that can share an object.
#[verifier::opaque]
pub open spec fn phase_doc(arch: Seq<char>, rows: Seq<ProgramView>, lo: int, hi: int) -> JsonView {
    let flash = is_flash(rows[lo].arms);
    JsonView::Obj(
        map![
            "first_segment"@ => JsonView::Num(seg_of(rows[lo]) as u64),
            "last_segment"@ => JsonView::Num(seg_of(rows[hi - 1]) as u64),
            "segments"@ => JsonView::Num((hi - lo) as u64),
            "arms"@ => strs_view(listing::<String>(written(rows, lo, hi))),
            "families"@ => families_view(rows[lo].arms),
            "object_class"@ => JsonView::Str(class_text(flash)),
            "resource_contract"@ => limits_view(arch, flash),
        ],
    )
}

/// The phases from `lo` on.
pub open spec fn phases_from(arch: Seq<char>, rows: Seq<ProgramView>, lo: int) -> Seq<JsonView>
    decreases rows.len() - lo,
{
    let hi = phase_end(rows, lo, lo + 1);
    if lo < hi <= rows.len() {
        seq![phase_doc(arch, rows, lo, hi)] + phases_from(arch, rows, hi)
    } else {
        Seq::empty()
    }
}

proof fn phase_end_bounds(rows: Seq<ProgramView>, lo: int, hi: int)
    requires
        lo < hi <= rows.len(),
    ensures
        hi <= phase_end(rows, lo, hi) <= rows.len(),
        forall|k: int| hi <= k < phase_end(rows, lo, hi) ==> alike(#[trigger] rows[k], rows[lo]),
        phase_end(rows, lo, hi) < rows.len() ==> !alike(
            rows[phase_end(rows, lo, hi)],
            rows[lo],
        ),
    decreases rows.len() - hi,
{
    if hi < rows.len() && alike(rows[hi], rows[lo]) {
        phase_end_bounds(rows, lo, hi + 1);
    }
}

/// The rows that a list of positions picks.
pub open spec fn picked(rows: Seq<ProgramArms>, at: Seq<usize>) -> Seq<ProgramView> {
    Seq::new(at.len(), |i: int| rows[at[i] as int]@)
}

/// Whether positions are of rows.
pub open spec fn positions_ok(rows: Seq<ProgramArms>, at: Seq<usize>) -> bool {
    forall|i: int| 0 <= i < at.len() ==> (#[trigger] at[i]) < rows.len()
}

fn find_phase_end(rows: &Vec<ProgramArms>, at: &Vec<usize>, lo: usize) -> (r: usize)
    requires
        positions_ok(rows@, at@),
        lo < at@.len(),
    ensures
        r == phase_end(picked(rows@, at@), lo as int, lo + 1),
        lo < r <= at@.len(),
{
    let ghost v = picked(rows@, at@);
    let n: usize = at.len();
    let mut hi: usize = lo + 1;
    while hi < n
        invariant
            positions_ok(rows@, at@),
            v == picked(rows@, at@),
            n == at@.len(),
            lo < hi <= n,
            phase_end(v, lo as int, lo + 1) == phase_end(v, lo as int, hi as int),
        decreases n - hi,
    {
        proof {
            assert(v[hi as int] == rows@[at@[hi as int] as int]@);
            assert(v[lo as int] == rows@[at@[lo as int] as int]@);
        }
        if !are_alike(&rows[at[hi]], &rows[at[lo]]) {
            return hi;
        }
        hi = hi + 1;
    }
    hi
}

fn written_arms(rows: &Vec<ProgramArms>, at: &Vec<usize>, lo: usize, hi: usize) -> (r: SortedSet<
    String,
>)
    requires
        programs_wf(rows@),
        positions_ok(rows@, at@),
        lo <= hi <= at@.len(),
    ensures
        r.wf(),
        r@ == written(picked(rows@, at@), lo as int, hi as int),
{
    let ghost v = picked(rows@, at@);
    let mut r: SortedSet<String> = SortedSet::new();
    let mut k: usize = lo;
    while k < hi
        invariant
            programs_wf(rows@),
            positions_ok(rows@, at@),
            v == picked(rows@, at@),
            lo <= k <= hi <= at@.len(),
            r.wf(),
            r@ == written(v, lo as int, k as int),
        decreases hi - k,
    {
        let p: &ProgramArms = &rows[at[k]];
        let ks: Vec<String> = keys(&p.arms);
        let ghost kv = views(ks@);
        let ghost before = r@;
        proof {
            assert(v[k as int] == p@);
        }
        let mut j: usize = 0;
        while j < ks.len()
            invariant
                j <= ks@.len(),
                kv == views(ks@),
                r.wf(),
                r@ == before.union(kv.take(j as int).to_set()),
            decreases ks@.len() - j,
        {
            let ghost mid = r@;
            r.insert(ks[j].clone());
            proof {
                let a = kv.take(j as int);
                let b = kv.take(j as int + 1);
                assert(b =~= a.push(kv[j as int]));
                assert forall|x: Seq<char>| b.contains(x) <==> a.contains(x) || x
                    == kv[j as int] by {
                    if a.contains(x) {
                        let i = choose|i: int| 0 <= i < a.len() && a[i] == x;
                        assert(b[i] == x);
                    }
                    assert(b[j as int] == kv[j as int]);
                    if b.contains(x) {
                        let i = choose|i: int| 0 <= i < b.len() && b[i] == x;
                        if i < j {
                            assert(a[i] == x);
                        }
                    }
                }
                assert(r@ =~= before.union(b.to_set()));
            }
            j = j + 1;
        }
        proof {
            assert(kv.take(j as int) =~= kv);
        }
        k = k + 1;
    }
    r
}

fn phase_json(arch: &str, rows: &Vec<ProgramArms>, at: &Vec<usize>, lo: usize, hi: usize) -> (r: Json)
    requires
        programs_wf(rows@),
        positions_ok(rows@, at@),
        lo < hi <= at@.len(),
    ensures
        r@ == phase_doc(arch@, picked(rows@, at@), lo as int, hi as int),
{
    proof {
        reveal(phase_doc);
        let v = picked(rows@, at@);
        assert(v[lo as int] == rows@[at@[lo as int] as int]@);
        assert(v[hi - 1] == rows@[at@[hi - 1] as int]@);
    }
    let first: &ProgramArms = &rows[at[lo]];
    let last: &ProgramArms = &rows[at[hi - 1]];
    let flash: bool = has_flash(&first.arms);
    let w: SortedSet<String> = written_arms(rows, at, lo, hi);
    proof {
        w.items_are_the_listing();
    }
    let mut o = Fields::new();
    o.put("first_segment", num_json(seg_number(first)));
    o.put("last_segment", num_json(seg_number(last)));
    o.put("segments", Json::Num((hi - lo) as u64));
    o.put("arms", strs_json(&w.items));
    o.put("families", families_json(&first.arms));
    o.put("object_class", str_json(class_str(flash)));
    o.put("resource_contract", limits_json(arch, flash));
    o.done()
}

fn phases(arch: &str, rows: &Vec<ProgramArms>, at: &Vec<usize>) -> (r: Json)
    requires
        programs_wf(rows@),
        positions_ok(rows@, at@),
    ensures
        r@ == JsonView::Arr(phases_from(arch@, picked(rows@, at@), 0)),
{
    let ghost v = picked(rows@, at@);
    let mut a = Items::new();
    let mut lo: usize = 0;
    proof {
        assert(a@ + phases_from(arch@, v, 0) =~= phases_from(arch@, v, 0));
    }
    while lo < at.len()
        invariant
            programs_wf(rows@),
            positions_ok(rows@, at@),
            v == picked(rows@, at@),
            v.len() == at@.len(),
            lo <= at@.len(),
            a@ + phases_from(arch@, v, lo as int) == phases_from(arch@, v, 0),
        decreases at@.len() - lo,
    {
        let hi: usize = find_phase_end(rows, at, lo);
        let ghost before = a@;
        a.push(phase_json(arch, rows, at, lo, hi));
        proof {
            let d = phase_doc(arch@, v, lo as int, hi as int);
            let rest = phases_from(arch@, v, hi as int);
            assert(phases_from(arch@, v, lo as int) == seq![d] + rest);
            assert(before + (seq![d] + rest) =~= before.push(d) + rest);
        }
        lo = hi;
    }
    proof {
        assert(phases_from(arch@, v, lo as int) =~= Seq::<JsonView>::empty());
        assert(a@ + Seq::<JsonView>::empty() =~= a@);
    }
    a.done()
}

/// The rows of one program among the first `n`.
pub open spec fn rows_of(rows: Seq<ProgramView>, program: usize, n: int) -> Seq<ProgramView>
    decreases n,
{
    if n <= 0 {
        Seq::empty()
    } else if rows[n - 1].program == program {
        rows_of(rows, program, n - 1).push(rows[n - 1])
    } else {
        rows_of(rows, program, n - 1)
    }
}

fn positions_of(rows: &Vec<ProgramArms>, program: usize) -> (r: Vec<usize>)
    ensures
        positions_ok(rows@, r@),
        picked(rows@, r@) == rows_of(views(rows@), program, rows@.len() as int),
{
    let ghost v = views(rows@);
    let mut r: Vec<usize> = Vec::new();
    let mut i: usize = 0;
    proof {
        assert(picked(rows@, r@) =~= rows_of(v, program, 0));
    }
    while i < rows.len()
        invariant
            v == views(rows@),
            i <= rows@.len(),
            positions_ok(rows@, r@),
            picked(rows@, r@) == rows_of(v, program, i as int),
        decreases rows@.len() - i,
    {
        proof {
            assert(v[i as int] == rows@[i as int]@);
        }
        if rows[i].program == program {
            let ghost before = r@;
            r.push(i);
            proof {
                assert(picked(rows@, r@) =~= picked(rows@, before).push(v[i as int]));
            }
        }
        i = i + 1;
    }
    r
}

/// The programs of the first `n` rows.
pub open spec fn programs_in(rows: Seq<ProgramView>, n: int) -> Set<usize>
    decreases n,
{
    if n <= 0 {
        Set::empty()
    } else {
        programs_in(rows, n - 1).insert(rows[n - 1].program)
    }
}

fn programs_of(rows: &Vec<ProgramArms>) -> (r: SortedSet<usize>)
    ensures
        r.wf(),
        r@ == programs_in(views(rows@), rows@.len() as int),
{
    let ghost v = views(rows@);
    let mut r: SortedSet<usize> = SortedSet::new();
    let mut i: usize = 0;
    while i < rows.len()
        invariant
            v == views(rows@),
            i <= rows@.len(),
            r.wf(),
            r@ == programs_in(v, i as int),
        decreases rows@.len() - i,
    {
        r.insert(rows[i].program);
        i = i + 1;
    }
    r
}

/// What a kind of programs is called.
pub open spec fn kind_text(decode: bool) -> Seq<char> {
    if decode { "decode"@ } else { "prefill"@ }
}

/// What a program's rows are called.
pub open spec fn rows_key(decode: bool) -> Seq<char> {
    if decode { "batch"@ } else { "bucket"@ }
}

/// What a program's prompts are called.
pub open spec fn topology_text(packed: bool) -> Seq<char> {
    if packed { "packed"@ } else { "ordinary"@ }
}

/// What a kind of programs is called.
pub fn kind_str(decode: bool) -> (r: &'static str)
    ensures
        r@ == kind_text(decode),
{
    if decode { "decode" } else { "prefill" }
}

/// What a program's rows are called.
pub fn rows_str(decode: bool) -> (r: &'static str)
    ensures
        r@ == rows_key(decode),
{
    if decode { "batch" } else { "bucket" }
}

/// What a program's prompts are called.
pub fn topology_str(packed: bool) -> (r: &'static str)
    ensures
        r@ == topology_text(packed),
{
    if packed { "packed" } else { "ordinary" }
}

/// How a chain is replayed: every segment one packet, in order, and the host waits once.
pub open spec fn replay_view(n: nat) -> JsonView {
    JsonView::Obj(
        map![
            "packets"@ => JsonView::Num(n as u64),
            "ordering"@ => JsonView::Str("barrier_agent_scope"@),
            "rank_commit"@ => JsonView::Str("prepare_all_ranks_then_ring_all"@),
            "host_drains"@ => JsonView::Num(1),
        ],
    )
}

fn replay_json(n: usize) -> (r: Json)
    ensures
        r@ == replay_view(n as nat),
{
    let mut o = Fields::new();
    o.put("packets", Json::Num(n as u64));
    o.put("ordering", str_json("barrier_agent_scope"));
    o.put("rank_commit", str_json("prepare_all_ranks_then_ring_all"));
    o.put("host_drains", num_json(1));
    o.done()
}

/// The segments of a chain.
pub open spec fn segments_view(arch: Seq<char>, rows: Seq<ProgramView>) -> JsonView {
    JsonView::Arr(Seq::new(rows.len(), |i: int| segment_doc(arch, rows[i])))
}

fn segments_json(arch: &str, rows: &Vec<ProgramArms>, at: &Vec<usize>) -> (r: Json)
    requires
        programs_wf(rows@),
        positions_ok(rows@, at@),
    ensures
        r@ == segments_view(arch@, picked(rows@, at@)),
{
    let ghost v = picked(rows@, at@);
    let mut a = Items::new();
    let mut i: usize = 0;
    while i < at.len()
        invariant
            programs_wf(rows@),
            positions_ok(rows@, at@),
            v == picked(rows@, at@),
            i <= at@.len(),
            a@.len() == i,
            forall|j: int| 0 <= j < i ==> #[trigger] a@[j] == segment_doc(arch@, v[j]),
        decreases at@.len() - i,
    {
        a.push(segment_json(arch, &rows[at[i]]));
        i = i + 1;
    }
    proof {
        assert(a@ =~= segments_view(arch@, v)->Arr_0);
    }
    a.done()
}

/// The chain of a program, of which `rows` are the segments.
#[verifier::opaque]
pub open spec fn chain_doc(arch: Seq<char>, program: usize, rows: Seq<ProgramView>) -> JsonView {
    JsonView::Obj(
        map![
            "program"@ => JsonView::Num(program as u64),
            "kind"@ => JsonView::Str(kind_text(rows[0].decode)),
            "topology"@ => JsonView::Str(topology_text(rows[0].packed_prefill_only)),
            rows_key(rows[0].decode) => JsonView::Num(rows[0].t as u64),
            "segments"@ => segments_view(arch, rows),
            "phases"@ => JsonView::Arr(phases_from(arch, rows, 0)),
            "aql_replay"@ => replay_view(rows.len()),
        ],
    )
}

fn chain_json(arch: &str, rows: &Vec<ProgramArms>, program: usize, at: &Vec<usize>) -> (r: Json)
    requires
        programs_wf(rows@),
        positions_ok(rows@, at@),
        at@.len() > 0,
    ensures
        r@ == chain_doc(arch@, program, picked(rows@, at@)),
{
    proof {
        reveal(chain_doc);
        assert(picked(rows@, at@)[0] == rows@[at@[0] as int]@);
    }
    let first: &ProgramArms = &rows[at[0]];
    let mut o = Fields::new();
    o.put("program", Json::Num(program as u64));
    o.put("kind", str_json(kind_str(first.decode)));
    o.put("topology", str_json(topology_str(first.packed_prefill_only)));
    o.put(rows_str(first.decode), num_json(first.t));
    o.put("segments", segments_json(arch, rows, at));
    o.put("phases", phases(arch, rows, at));
    o.put("aql_replay", replay_json(at.len()));
    o.done()
}

/// The chains of the first `n` of a list of programs.
pub open spec fn chains_upto(
    arch: Seq<char>,
    rows: Seq<ProgramView>,
    ps: Seq<usize>,
    n: int,
) -> Seq<JsonView>
    decreases n,
{
    if n <= 0 {
        Seq::empty()
    } else {
        chains_upto(arch, rows, ps, n - 1).push(
            chain_doc(arch, ps[n - 1], rows_of(rows, ps[n - 1], rows.len() as int)),
        )
    }
}

/// The chains of a packet's programs.
pub open spec fn chains_view(arch: Seq<char>, rows: Seq<ProgramView>) -> JsonView {
    let ps = listing::<usize>(programs_in(rows, rows.len() as int));
    JsonView::Arr(chains_upto(arch, rows, ps, ps.len() as int))
}

proof fn program_has_rows(rows: Seq<ProgramView>, program: usize, n: int)
    requires
        0 <= n <= rows.len(),
        programs_in(rows, n).contains(program),
    ensures
        rows_of(rows, program, n).len() > 0,
    decreases n,
{
    if n > 0 && rows[n - 1].program != program {
        program_has_rows(rows, program, n - 1);
    }
}

/// The chains of a packet's programs.
pub fn dispatch_chains(rows: &Vec<ProgramArms>, arch: &str) -> (r: Json)
    requires
        programs_wf(rows@),
    ensures
        r@ == chains_view(arch@, views(rows@)),
{
    let ghost v = views(rows@);
    let ps: SortedSet<usize> = programs_of(rows);
    proof {
        ps.items_are_the_listing();
        assert(views(ps.items@) =~= ps.items@);
    }
    let mut a = Items::new();
    let mut i: usize = 0;
    while i < ps.items.len()
        invariant
            v == views(rows@),
            programs_wf(rows@),
            i <= ps.items@.len(),
            ps@ == programs_in(v, rows@.len() as int),
            ps@ == views(ps.items@).to_set(),
            views(ps.items@) == ps.items@,
            a@ == chains_upto(arch@, v, ps.items@, i as int),
        decreases ps.items@.len() - i,
    {
        let program: usize = ps.items[i];
        let at: Vec<usize> = positions_of(rows, program);
        proof {
            assert(ps.items@.contains(program));
            assert(ps@.contains(program));
            program_has_rows(v, program, rows@.len() as int);
            assert(picked(rows@, at@).len() == at@.len());
        }
        a.push(chain_json(arch, rows, program, &at));
        i = i + 1;
    }
    a.done()
}

/// The phases of a chain cover its segments one after another: each starts where the one before it
/// ends, holds at least one segment, and its segments can share an object, which the next one
/// cannot.
pub proof fn phases_partition_a_chain(rows: Seq<ProgramView>, lo: int)
    requires
        0 <= lo < rows.len(),
    ensures
        lo < phase_end(rows, lo, lo + 1) <= rows.len(),
        forall|k: int|
            lo < k < phase_end(rows, lo, lo + 1) ==> alike(#[trigger] rows[k], rows[lo]),
        phase_end(rows, lo, lo + 1) < rows.len() ==> !alike(
            rows[phase_end(rows, lo, lo + 1)],
            rows[lo],
        ),
{
    phase_end_bounds(rows, lo, lo + 1);
}


/// The row of a kind with the most arms among the first `n`, the first of several: its rows or
/// batch, and how many arms it has.
pub open spec fn widest(rows: Seq<ProgramView>, decode: bool, n: int) -> Option<(u32, nat)>
    decreases n,
{
    if n <= 0 {
        None
    } else {
        let p = rows[n - 1];
        let c = listing::<Arm>(p.arms).len();
        let w = widest(rows, decode, n - 1);
        if p.decode != decode {
            w
        } else {
            match w {
                Some(b) => if c > b.1 { Some((p.t, c)) } else { w },
                None => Some((p.t, c)),
            }
        }
    }
}

fn widest_row(rows: &Vec<ProgramArms>, decode: bool) -> (r: Option<(u32, usize)>)
    requires
        programs_wf(rows@),
    ensures
        match (r, widest(views(rows@), decode, rows@.len() as int)) {
            (Some(a), Some(b)) => a.0 == b.0 && a.1 == b.1,
            (None, None) => true,
            _ => false,
        },
{
    let ghost v = views(rows@);
    let mut r: Option<(u32, usize)> = None;
    let mut i: usize = 0;
    while i < rows.len()
        invariant
            v == views(rows@),
            programs_wf(rows@),
            i <= rows@.len(),
            match (r, widest(v, decode, i as int)) {
                (Some(a), Some(b)) => a.0 == b.0 && a.1 == b.1,
                (None, None) => true,
                _ => false,
            },
        decreases rows@.len() - i,
    {
        let p: &ProgramArms = &rows[i];
        proof {
            p.arms.items_are_the_listing();
            assert(v[i as int] == p@);
            assert(views(p.arms.items@).len() == p.arms.items@.len());
        }
        if p.decode == decode {
            let c: usize = p.arms.items.len();
            match r {
                Some(b) => {
                    if c > b.1 {
                        r = Some((p.t, c));
                    }
                },
                None => {
                    r = Some((p.t, c));
                },
            }
        }
        i = i + 1;
    }
    r
}

/// The widest row of a kind as a document.
pub open spec fn owner_doc(decode: bool, w: (u32, nat)) -> JsonView {
    JsonView::Obj(
        map![
            "kind"@ => JsonView::Str(kind_text(decode)),
            "t"@ => JsonView::Num(w.0 as u64),
            "arms"@ => JsonView::Num(w.1 as u64),
        ],
    )
}

fn owner_json(decode: bool, t: u32, arms: usize) -> (r: Json)
    ensures
        r@ == owner_doc(decode, (t, arms as nat)),
{
    let mut o = Fields::new();
    o.put("kind", str_json(kind_str(decode)));
    o.put("t", num_json(t));
    o.put("arms", Json::Num(arms as u64));
    o.done()
}

/// A list with one kind's widest row, where the kind has any.
pub open spec fn with_owner(s: Seq<JsonView>, decode: bool, w: Option<(u32, nat)>) -> Seq<JsonView> {
    match w {
        Some(x) => s.push(owner_doc(decode, x)),
        None => s,
    }
}

/// The widest row of each kind.
pub open spec fn owners_view(rows: Seq<ProgramView>) -> JsonView {
    let n = rows.len() as int;
    let s = with_owner(Seq::empty(), true, widest(rows, true, n));
    JsonView::Arr(with_owner(s, false, widest(rows, false, n)))
}

fn owners_json(rows: &Vec<ProgramArms>) -> (r: Json)
    requires
        programs_wf(rows@),
    ensures
        r@ == owners_view(views(rows@)),
{
    let mut a = Items::new();
    if let Some(w) = widest_row(rows, true) {
        a.push(owner_json(true, w.0, w.1));
    }
    if let Some(w) = widest_row(rows, false) {
        a.push(owner_json(false, w.0, w.1));
    }
    a.done()
}

/// Whether `q` is another program, or another segment, of the kind of `p`.
pub open spec fn is_other(p: ProgramView, q: ProgramView) -> bool {
    q.decode == p.decode && (q.t != p.t || q.seg != p.seg || q.packed_prefill_only
        != p.packed_prefill_only)
}

/// The arms of the others of the kind of `p`, among the first `n` rows.
pub open spec fn others_arms(rows: Seq<ProgramView>, p: ProgramView, n: int) -> Set<ArmView>
    decreases n,
{
    if n <= 0 {
        Set::empty()
    } else if is_other(p, rows[n - 1]) {
        others_arms(rows, p, n - 1).union(rows[n - 1].arms)
    } else {
        others_arms(rows, p, n - 1)
    }
}

/// The arms that only `p` has, among the rows of its kind.
pub open spec fn exclusive(rows: Seq<ProgramView>, p: ProgramView) -> Set<ArmView> {
    p.arms.difference(others_arms(rows, p, rows.len() as int))
}

/// How many rows are of a kind, among the first `n`.
pub open spec fn count_kind(rows: Seq<ProgramView>, decode: bool, n: int) -> nat
    decreases n,
{
    if n <= 0 {
        0
    } else {
        count_kind(rows, decode, n - 1) + (if rows[n - 1].decode == decode { 1nat } else { 0nat })
    }
}

/// Whether the arms of `p` hold all those of `q`, and more.
pub open spec fn holds_more(p: ProgramView, q: ProgramView) -> bool {
    q.arms.subset_of(p.arms) && !p.arms.subset_of(q.arms)
}

/// Whether a row has all the arms of each other row of its kind, and more than each, where there
/// is another.
pub open spec fn holds_others(rows: Seq<ProgramView>, p: ProgramView) -> bool {
    &&& exists|i: int| 0 <= i < rows.len() && is_other(p, #[trigger] rows[i])
    &&& forall|i: int|
        0 <= i < rows.len() && is_other(p, #[trigger] rows[i]) ==> holds_more(p, rows[i])
}

/// Whether a row could have an object of its own: there is another of its kind, and it has arms
/// that no other has, or all that any other has and more.
pub open spec fn splits(rows: Seq<ProgramView>, p: ProgramView) -> bool {
    ||| listing::<Arm>(exclusive(rows, p)).len() > 0 && count_kind(
        rows,
        p.decode,
        rows.len() as int,
    ) > 1
    ||| holds_others(rows, p)
}

fn is_within(a: &SortedSet<Arm>, b: &SortedSet<Arm>) -> (r: bool)
    requires
        b.wf(),
    ensures
        r == a@.subset_of(b@),
{
    let mut i: usize = 0;
    while i < a.items.len()
        invariant
            b.wf(),
            i <= a.items@.len(),
            forall|j: int| 0 <= j < i ==> b@.contains((#[trigger] a.items@[j])@),
        decreases a.items@.len() - i,
    {
        if !b.contains(&a.items[i]) {
            proof {
                arm_in_items(a, a.items@[i as int]@);
            }
            return false;
        }
        i = i + 1;
    }
    proof {
        assert forall|x: ArmView| #[trigger] a@.contains(x) implies b@.contains(x) by {
            arm_in_items(a, x);
        }
    }
    true
}

fn outdoes_others(rows: &Vec<ProgramArms>, p: &ProgramArms) -> (r: bool)
    requires
        programs_wf(rows@),
        p.arms.wf(),
    ensures
        r == holds_others(views(rows@), p@),
{
    let ghost v = views(rows@);
    let mut any: bool = false;
    let mut i: usize = 0;
    while i < rows.len()
        invariant
            v == views(rows@),
            programs_wf(rows@),
            p.arms.wf(),
            i <= rows@.len(),
            any == exists|j: int| 0 <= j < i && is_other(p@, #[trigger] v[j]),
            forall|j: int| 0 <= j < i && is_other(p@, #[trigger] v[j]) ==> holds_more(p@, v[j]),
        decreases rows@.len() - i,
    {
        let q: &ProgramArms = &rows[i];
        proof {
            assert(v[i as int] == q@);
        }
        if q.decode == p.decode && (q.t != p.t || q.seg != p.seg || q.packed_prefill_only
            != p.packed_prefill_only) {
            if !is_within(&q.arms, &p.arms) || is_within(&p.arms, &q.arms) {
                return false;
            }
            any = true;
        }
        i = i + 1;
    }
    any
}

fn exclusive_arms(rows: &Vec<ProgramArms>, p: &ProgramArms) -> (r: SortedSet<Arm>)
    ensures
        r.wf(),
        r@ == exclusive(views(rows@), p@),
{
    let ghost v = views(rows@);
    let mut others: SortedSet<Arm> = SortedSet::new();
    let mut i: usize = 0;
    while i < rows.len()
        invariant
            v == views(rows@),
            i <= rows@.len(),
            others.wf(),
            others@ == others_arms(v, p@, i as int),
        decreases rows@.len() - i,
    {
        let q: &ProgramArms = &rows[i];
        proof {
            assert(v[i as int] == q@);
        }
        if q.decode == p.decode && (q.t != p.t || q.seg != p.seg || q.packed_prefill_only
            != p.packed_prefill_only) {
            add_arms(&mut others, &q.arms);
        }
        i = i + 1;
    }
    let mut r: SortedSet<Arm> = SortedSet::new();
    let mut k: usize = 0;
    while k < p.arms.items.len()
        invariant
            k <= p.arms.items@.len(),
            others.wf(),
            r.wf(),
            forall|a: ArmView| #[trigger]
                r@.contains(a) <==> !others@.contains(a) && exists|j: int|
                    0 <= j < k && (#[trigger] p.arms.items@[j])@ == a,
        decreases p.arms.items@.len() - k,
    {
        let ghost mid = r@;
        if !others.contains(&p.arms.items[k]) {
            r.insert(p.arms.items[k].copied());
        }
        proof {
            assert forall|a: ArmView| #[trigger]
                r@.contains(a) <==> !others@.contains(a) && exists|j: int|
                    0 <= j < k + 1 && (#[trigger] p.arms.items@[j])@ == a by {
                if mid.contains(a) {
                    let j = choose|j: int| 0 <= j < k && (#[trigger] p.arms.items@[j])@ == a;
                    assert(0 <= j < k + 1 && p.arms.items@[j]@ == a);
                }
                if exists|j: int| 0 <= j < k + 1 && (#[trigger] p.arms.items@[j])@ == a {
                    let j = choose|j: int| 0 <= j < k + 1 && (#[trigger] p.arms.items@[j])@ == a;
                    if j < k && !others@.contains(a) {
                        assert(mid.contains(a));
                    }
                }
            }
        }
        k = k + 1;
    }
    proof {
        assert forall|a: ArmView| r@.contains(a) <==> exclusive(v, p@).contains(a) by {
            arm_in_items(&p.arms, a);
        }
        assert(r@ =~= exclusive(v, p@));
    }
    r
}

fn count_rows(rows: &Vec<ProgramArms>, decode: bool) -> (r: usize)
    ensures
        r == count_kind(views(rows@), decode, rows@.len() as int),
{
    let ghost v = views(rows@);
    let mut r: usize = 0;
    let mut i: usize = 0;
    while i < rows.len()
        invariant
            v == views(rows@),
            i <= rows@.len(),
            r <= i,
            r == count_kind(v, decode, i as int),
        decreases rows@.len() - i,
    {
        proof {
            assert(v[i as int] == rows@[i as int]@);
        }
        if rows[i].decode == decode {
            r = r + 1;
        }
        i = i + 1;
    }
    r
}

/// A number that may not be there as a document.
pub open spec fn opt_num_view(n: Option<u32>) -> JsonView {
    match n {
        Some(x) => JsonView::Num(x as u64),
        None => JsonView::Null,
    }
}

/// A number that may not be there as a document.
pub fn opt_num_json(n: Option<u32>) -> (r: Json)
    ensures
        r@ == opt_num_view(n),
{
    match n {
        Some(x) => num_json(x),
        None => Json::Null,
    }
}

/// A row that could have an object of its own.
pub open spec fn split_doc(rows: Seq<ProgramView>, p: ProgramView) -> JsonView {
    JsonView::Obj(
        map![
            "kind"@ => JsonView::Str(kind_text(p.decode)),
            "t"@ => JsonView::Num(p.t as u64),
            "segment"@ => opt_num_view(p.seg),
            "exclusive_arms"@ => keys_view(exclusive(rows, p)),
        ],
    )
}

/// The rows that could have an object of their own, among the first `n`.
pub open spec fn split_upto(rows: Seq<ProgramView>, n: int) -> Seq<JsonView>
    decreases n,
{
    if n <= 0 {
        Seq::empty()
    } else if splits(rows, rows[n - 1]) {
        split_upto(rows, n - 1).push(split_doc(rows, rows[n - 1]))
    } else {
        split_upto(rows, n - 1)
    }
}

fn splits_json(rows: &Vec<ProgramArms>) -> (r: Json)
    requires
        programs_wf(rows@),
    ensures
        r@ == JsonView::Arr(split_upto(views(rows@), rows@.len() as int)),
{
    let ghost v = views(rows@);
    let mut a = Items::new();
    let mut i: usize = 0;
    while i < rows.len()
        invariant
            v == views(rows@),
            programs_wf(rows@),
            i <= rows@.len(),
            a@ == split_upto(v, i as int),
        decreases rows@.len() - i,
    {
        let p: &ProgramArms = &rows[i];
        let u: SortedSet<Arm> = exclusive_arms(rows, p);
        proof {
            assert(v[i as int] == p@);
            u.items_are_the_listing();
            assert(views(u.items@).len() == u.items@.len());
        }
        if (u.items.len() > 0 && count_rows(rows, p.decode) > 1) || outdoes_others(rows, p) {
            let mut o = Fields::new();
            o.put("kind", str_json(kind_str(p.decode)));
            o.put("t", num_json(p.t));
            o.put("segment", opt_num_json(p.seg));
            o.put("exclusive_arms", keys_json(&u));
            a.push(o.done());
        }
        i = i + 1;
    }
    a.done()
}

/// Which program sets each object's size, and which could have one of its own.
pub open spec fn analysis_view(rows: Seq<ProgramView>) -> JsonView {
    JsonView::Obj(
        map![
            "ceiling_owner"@ => owners_view(rows),
            "split_candidates"@ => JsonView::Arr(split_upto(rows, rows.len() as int)),
            "note"@ => JsonView::Str("arm-set attribution only; register/smem numbers need `ptxas -v` on the built object. A per-program object split is deliberately NOT implemented here — it needs plowrt to load and select among several prefill modules."@),
        ],
    )
}

/// Which program sets each object's size, and which could have one of its own.
pub fn analysis(rows: &Vec<ProgramArms>) -> (r: Json)
    requires
        programs_wf(rows@),
    ensures
        r@ == analysis_view(views(rows@)),
{
    let mut o = Fields::new();
    o.put("ceiling_owner", owners_json(rows));
    o.put("split_candidates", splits_json(rows));
    o.put("note", str_json("arm-set attribution only; register/smem numbers need `ptxas -v` on the built object. A per-program object split is deliberately NOT implemented here — it needs plowrt to load and select among several prefill modules."));
    o.done()
}

} // verus!
