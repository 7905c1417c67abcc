//! Which kernel bodies each object of a packet must carry.
use vstd::prelude::*;

use crate::arms::{arm_key, programs_wf, Arm, ArmView, ProgramArms, ProgramView};
use crate::features::{arm_in_items, has_op, op_in};
use crate::json::{bool_json, num_json, str_json, strs_json, strs_view, Fields, Json, JsonView};
use crate::opcodes::{Isa, Opcode};
use crate::order::{listing, views, SortedSet};
use crate::text::{begins, contains_text, mentions, same_text, starts_with, text};

verus! {

/// The family of an opcode, for reports and for partitioning objects.
pub open spec fn family_text(op: Seq<char>) -> Seq<char> {
    if begins(op, "Kda"@) {
        "kda"@
    } else if begins(op, "Moe"@) {
        "moe"@
    } else if begins(op, "FlashMla"@) || begins(op, "FlashGather"@) || op == "MlaMergeFold"@ || op
        == "MlaOutGate"@ || op == "MlaMaterializePack"@ {
        "mla"@
    } else if begins(op, "Flash"@) || op == "AttnSelect"@ {
        "attention"@
    } else if begins(op, "Gemm"@) || begins(op, "Gemv"@) {
        "linear"@
    } else if mentions(op, "Norm"@) || op == "Residual"@ || op == "AttnRes"@ {
        "norm_residual"@
    } else if op == "XReduce"@ || op == "XReduceTwoShot"@ || op == "XReduceScatter"@ || op
        == "XAllGather"@ {
        "collective"@
    } else {
        "elementwise"@
    }
}

/// The family of an opcode.
pub fn opcode_family(op: &str) -> (r: &'static str)
    ensures
        r@ == family_text(op@),
{
    if starts_with(op, "Kda") {
        "kda"
    } else if starts_with(op, "Moe") {
        "moe"
    } else if starts_with(op, "FlashMla") || starts_with(op, "FlashGather") || same_text(
        op,
        "MlaMergeFold",
    ) || same_text(op, "MlaOutGate") || same_text(op, "MlaMaterializePack") {
        "mla"
    } else if starts_with(op, "Flash") || same_text(op, "AttnSelect") {
        "attention"
    } else if starts_with(op, "Gemm") || starts_with(op, "Gemv") {
        "linear"
    } else if contains_text(op, "Norm") || same_text(op, "Residual") || same_text(op, "AttnRes") {
        "norm_residual"
    } else if same_text(op, "XReduce") || same_text(op, "XReduceTwoShot") || same_text(
        op,
        "XReduceScatter",
    ) || same_text(op, "XAllGather") {
        "collective"
    } else {
        "elementwise"
    }
}

/// The arms of a set, in order, as they are written.
pub open spec fn keys_of(u: Set<ArmView>) -> Seq<Seq<char>> {
    let l = listing::<Arm>(u);
    Seq::new(l.len(), |i: int| arm_key(l[i]))
}

/// The arms of a set, in order, as they are written.
pub fn keys(u: &SortedSet<Arm>) -> (r: Vec<String>)
    requires
        u.wf(),
    ensures
        views(r@) == keys_of(u@),
{
    let mut r: Vec<String> = Vec::new();
    let mut i: usize = 0;
    while i < u.items.len()
        invariant
            i <= u.items@.len(),
            r@.len() == i,
            forall|j: int| 0 <= j < i ==> (#[trigger] r@[j])@ == arm_key(u.items@[j]@),
        decreases u.items@.len() - i,
    {
        r.push(u.items[i].key());
        i = i + 1;
    }
    proof {
        u.items_are_the_listing();
        assert(views(r@) =~= keys_of(u@));
    }
    r
}

/// The arms of a set as a document.
pub open spec fn keys_view(u: Set<ArmView>) -> JsonView {
    strs_view(keys_of(u))
}

pub fn keys_json(u: &SortedSet<Arm>) -> (r: Json)
    requires
        u.wf(),
    ensures
        r@ == keys_view(u@),
{
    strs_json(&keys(u))
}

/// The families of a set of arms.
pub open spec fn families_of(u: Set<ArmView>) -> Set<Seq<char>> {
    u.map(|a: ArmView| family_text(a.op))
}

/// The families of a set of arms.
pub fn families(u: &SortedSet<Arm>) -> (r: SortedSet<String>)
    ensures
        r.wf(),
        r@ == families_of(u@),
{
    let mut r: SortedSet<String> = SortedSet::new();
    let mut i: usize = 0;
    while i < u.items.len()
        invariant
            i <= u.items@.len(),
            r.wf(),
            forall|f: Seq<char>| #[trigger]
                r@.contains(f) <==> exists|j: int|
                    0 <= j < i && f == family_text((#[trigger] u.items@[j])@.op),
        decreases u.items@.len() - i,
    {
        let ghost before = r@;
        r.insert(text(opcode_family(u.items[i].op.as_str())));
        proof {
            assert forall|f: Seq<char>| #[trigger]
                r@.contains(f) <==> exists|j: int|
                    0 <= j < i + 1 && f == family_text((#[trigger] u.items@[j])@.op) by {
                let mine = family_text(u.items@[i as int]@.op);
                if before.contains(f) {
                    let j = choose|j: int|
                        0 <= j < i && f == family_text((#[trigger] u.items@[j])@.op);
                    assert(0 <= j < i + 1 && f == family_text(u.items@[j]@.op));
                }
                if exists|j: int|
                    0 <= j < i + 1 && f == family_text((#[trigger] u.items@[j])@.op) {
                    let j = choose|j: int|
                        0 <= j < i + 1 && f == family_text((#[trigger] u.items@[j])@.op);
                    if j < i {
                        assert(before.contains(f));
                    }
                }
            }
        }
        i = i + 1;
    }
    proof {
        let want = families_of(u@);
        assert forall|f: Seq<char>| r@.contains(f) <==> want.contains(f) by {
            if r@.contains(f) {
                let j = choose|j: int|
                    0 <= j < i && f == family_text((#[trigger] u.items@[j])@.op);
                arm_in_items(u, u.items@[j]@);
                assert(u@.contains(u.items@[j]@));
            }
            if want.contains(f) {
                let a = choose|a: ArmView| u@.contains(a) && f == family_text(a.op);
                arm_in_items(u, a);
                let j = choose|j: int| 0 <= j < u.items@.len() && (#[trigger] u.items@[j])@ == a;
                assert(f == family_text(u.items@[j]@.op));
            }
        }
        assert(r@ =~= want);
    }
    r
}

/// The families of a set of arms as a document.
pub open spec fn families_view(u: Set<ArmView>) -> JsonView {
    strs_view(listing::<String>(families_of(u)))
}

pub fn families_json(u: &SortedSet<Arm>) -> (r: Json)
    ensures
        r@ == families_view(u@),
{
    let f: SortedSet<String> = families(u);
    proof {
        f.items_are_the_listing();
    }
    strs_json(&f.items)
}

/// The opcodes among the table's first `n` that no arm of a set has.
pub open spec fn excluded_upto(t: Seq<Opcode>, u: Set<ArmView>, n: int) -> Seq<Seq<char>>
    decreases n,
{
    if n <= 0 {
        Seq::empty()
    } else if op_in(u, t[n - 1].name@) {
        excluded_upto(t, u, n - 1)
    } else {
        excluded_upto(t, u, n - 1).push(t[n - 1].name@)
    }
}

/// The opcodes that no arm of a set has.
pub open spec fn excluded_of(isa: Isa, u: Set<ArmView>) -> Seq<Seq<char>> {
    excluded_upto(isa.opcodes@, u, isa.opcodes@.len() as int)
}

fn excluded(isa: &Isa, u: &SortedSet<Arm>) -> (r: Vec<String>)
    ensures
        views(r@) == excluded_of(*isa, u@),
{
    let mut r: Vec<String> = Vec::new();
    let mut i: usize = 0;
    proof {
        assert(views(r@) =~= excluded_upto(isa.opcodes@, u@, 0));
    }
    while i < isa.opcodes.len()
        invariant
            i <= isa.opcodes@.len(),
            views(r@) == excluded_upto(isa.opcodes@, u@, i as int),
        decreases isa.opcodes@.len() - i,
    {
        if !has_op(u, isa.opcodes[i].name.as_str()) {
            let ghost before = views(r@);
            r.push(isa.opcodes[i].name.clone());
            proof {
                assert(views(r@) =~= before.push(isa.opcodes@[i as int].name@));
            }
        }
        i = i + 1;
    }
    r
}

/// A kind of rows.
#[derive(Clone, Copy, PartialEq, Eq, Debug, Structural)]
pub enum Rows {
    Prefill,
    /// A decode segment of one latent attention and its merge.
    DecodeMla,
    /// Any other decode row.
    Decode,
    /// A prefill segment of one chunk product that the paired kernels take.
    PairedWu,
    /// A prefill segment of one chunk carry that the paired kernels take.
    PairedCarry,
    All,
}

/// Whether a row is a decode segment of one latent attention and its merge, and nothing else.
pub open spec fn mla_segment(p: ProgramView) -> bool {
    &&& p.decode
    &&& p.seg is Some
    &&& p.insts == 2
    &&& listing::<Arm>(p.arms).len() == 2
    &&& op_in(p.arms, "FlashMlaDecode"@)
    &&& op_in(p.arms, "MlaMergeFold"@)
    &&& forall|a: ArmView| #[trigger]
        p.arms.contains(a) ==> a.op == "FlashMlaDecode"@ || a.op == "MlaMergeFold"@
}

/// Whether an arm is one of the paired kernels'.
pub open spec fn paired_arm(a: ArmView, name: Seq<char>) -> bool {
    a.op == name && a.variant == Some("d128_qpre"@)
}

/// Whether a row is a prefill segment of one instruction that the paired kernels take.
pub open spec fn paired_segment(p: ProgramView, name: Seq<char>) -> bool {
    &&& !p.decode
    &&& p.seg is Some
    &&& p.insts == 1
    &&& listing::<Arm>(p.arms).len() == 1
    &&& paired_arm(listing::<Arm>(p.arms)[0], name)
}

/// Whether a row is of a kind.
pub open spec fn row_is(k: Rows, p: ProgramView) -> bool {
    match k {
        Rows::Prefill => !p.decode,
        Rows::DecodeMla => mla_segment(p),
        Rows::Decode => p.decode && !mla_segment(p),
        Rows::PairedWu => paired_segment(p, "KdaChunkWu"@),
        Rows::PairedCarry => paired_segment(p, "KdaChunkCarry"@),
        Rows::All => true,
    }
}

fn is_mla_segment(p: &ProgramArms) -> (r: bool)
    requires
        p.arms.wf(),
    ensures
        r == mla_segment(p@),
{
    proof {
        p.arms.items_are_the_listing();
        assert(views(p.arms.items@).len() == p.arms.items@.len());
    }
    if !p.decode || p.seg.is_none() || p.insts != 2 || p.arms.items.len() != 2 {
        return false;
    }
    if !has_op(&p.arms, "FlashMlaDecode") || !has_op(&p.arms, "MlaMergeFold") {
        return false;
    }
    let mut i: usize = 0;
    while i < p.arms.items.len()
        invariant
            i <= p.arms.items@.len(),
            forall|j: int|
                0 <= j < i ==> (#[trigger] p.arms.items@[j])@.op == "FlashMlaDecode"@
                    || p.arms.items@[j]@.op == "MlaMergeFold"@,
        decreases p.arms.items@.len() - i,
    {
        let op: &str = p.arms.items[i].op.as_str();
        if !same_text(op, "FlashMlaDecode") && !same_text(op, "MlaMergeFold") {
            proof {
                arm_in_items(&p.arms, p.arms.items@[i as int]@);
            }
            return false;
        }
        i = i + 1;
    }
    proof {
        assert forall|a: ArmView| #[trigger] p@.arms.contains(a) implies a.op
            == "FlashMlaDecode"@ || a.op == "MlaMergeFold"@ by {
            arm_in_items(&p.arms, a);
        }
    }
    true
}

fn is_paired_segment(p: &ProgramArms, name: &str) -> (r: bool)
    requires
        p.arms.wf(),
    ensures
        r == paired_segment(p@, name@),
{
    proof {
        p.arms.items_are_the_listing();
        assert(views(p.arms.items@).len() == p.arms.items@.len());
    }
    if p.decode || p.seg.is_none() || p.insts != 1 || p.arms.items.len() != 1 {
        return false;
    }
    let a: &Arm = &p.arms.items[0];
    proof {
        assert(views(p.arms.items@)[0] == a@);
    }
    match &a.variant {
        Some(v) => same_text(a.op.as_str(), name) && same_text(v.as_str(), "d128_qpre"),
        None => false,
    }
}

fn is_row(k: Rows, p: &ProgramArms) -> (r: bool)
    requires
        p.arms.wf(),
    ensures
        r == row_is(k, p@),
{
    match k {
        Rows::Prefill => !p.decode,
        Rows::DecodeMla => is_mla_segment(p),
        Rows::Decode => p.decode && !is_mla_segment(p),
        Rows::PairedWu => is_paired_segment(p, "KdaChunkWu"),
        Rows::PairedCarry => is_paired_segment(p, "KdaChunkCarry"),
        Rows::All => true,
    }
}

/// The arms of the rows of a kind, among the first `n`.
pub open spec fn arms_in(k: Rows, rows: Seq<ProgramView>, n: int) -> Set<ArmView>
    decreases n,
{
    if n <= 0 {
        Set::empty()
    } else if row_is(k, rows[n - 1]) {
        arms_in(k, rows, n - 1).union(rows[n - 1].arms)
    } else {
        arms_in(k, rows, n - 1)
    }
}

/// The arms of the rows of a kind.
pub open spec fn arms_of_kind(k: Rows, rows: Seq<ProgramView>) -> Set<ArmView> {
    arms_in(k, rows, rows.len() as int)
}

/// Adds every arm of one set to another.
pub fn add_arms(r: &mut SortedSet<Arm>, u: &SortedSet<Arm>)
    requires
        old(r).wf(),
    ensures
        final(r).wf(),
        final(r)@ == old(r)@.union(u@),
{
    let ghost before = r@;
    let mut i: usize = 0;
    while i < u.items.len()
        invariant
            i <= u.items@.len(),
            r.wf(),
            before == old(r)@,
            forall|a: ArmView| #[trigger]
                r@.contains(a) <==> before.contains(a) || exists|j: int|
                    0 <= j < i && (#[trigger] u.items@[j])@ == a,
        decreases u.items@.len() - i,
    {
        let ghost mid = r@;
        r.insert(u.items[i].copied());
        proof {
            assert forall|a: ArmView| #[trigger]
                r@.contains(a) <==> before.contains(a) || exists|j: int|
                    0 <= j < i + 1 && (#[trigger] u.items@[j])@ == a by {
                if mid.contains(a) && !before.contains(a) {
                    let j = choose|j: int| 0 <= j < i && (#[trigger] u.items@[j])@ == a;
                    assert(0 <= j < i + 1 && u.items@[j]@ == a);
                }
                if exists|j: int| 0 <= j < i + 1 && (#[trigger] u.items@[j])@ == a {
                    let j = choose|j: int| 0 <= j < i + 1 && (#[trigger] u.items@[j])@ == a;
                    if j < i {
                        assert(mid.contains(a));
                    }
                }
            }
        }
        i = i + 1;
    }
    proof {
        assert forall|a: ArmView| r@.contains(a) <==> before.union(u@).contains(a) by {
            arm_in_items(u, a);
        }
        assert(r@ =~= before.union(u@));
    }
}

/// The arms of the rows of a kind.
pub fn collect_arms(k: Rows, rows: &Vec<ProgramArms>) -> (r: SortedSet<Arm>)
    requires
        programs_wf(rows@),
    ensures
        r.wf(),
        r@ == arms_of_kind(k, views(rows@)),
{
    let mut r: SortedSet<Arm> = SortedSet::new();
    let mut i: usize = 0;
    while i < rows.len()
        invariant
            i <= rows@.len(),
            programs_wf(rows@),
            r.wf(),
            r@ == arms_in(k, views(rows@), i as int),
        decreases rows@.len() - i,
    {
        proof {
            assert(views(rows@)[i as int] == rows@[i as int]@);
        }
        if is_row(k, &rows[i]) {
            add_arms(&mut r, &rows[i].arms);
        }
        i = i + 1;
    }
    r
}

/// A kind of arms.
#[derive(Clone, Copy, PartialEq, Eq, Debug, Structural)]
pub enum Arms {
    /// Attention, and the merge of latent attention.
    Flash,
    /// Recurrence steps of packed prompts.
    PackedKda,
    /// The fused recurrence step.
    FusedKda,
}

/// Whether an opcode belongs in the attention objects.
pub open spec fn flash_op(op: Seq<char>) -> bool {
    begins(op, "Flash"@) || op == "MlaMergeFold"@
}

/// Whether an arm is of a kind.
pub open spec fn arm_is(k: Arms, a: ArmView) -> bool {
    match k {
        Arms::Flash => flash_op(a.op),
        Arms::PackedKda => a.op == "KdaStateStep"@ || a.op == "KdaConv3"@ || a.op
            == "KdaStateStepG"@,
        Arms::FusedKda => a.op == "KdaDecodeFused"@,
    }
}

/// Whether an opcode belongs in the attention objects.
pub fn is_flash_op(op: &str) -> (r: bool)
    ensures
        r == flash_op(op@),
{
    starts_with(op, "Flash") || same_text(op, "MlaMergeFold")
}

fn is_arm(k: Arms, a: &Arm) -> (r: bool)
    ensures
        r == arm_is(k, a@),
{
    let op: &str = a.op.as_str();
    match k {
        Arms::Flash => is_flash_op(op),
        Arms::PackedKda => same_text(op, "KdaStateStep") || same_text(op, "KdaConv3") || same_text(
            op,
            "KdaStateStepG",
        ),
        Arms::FusedKda => same_text(op, "KdaDecodeFused"),
    }
}

/// The arms of a set that are of a kind.
pub open spec fn arms_that(k: Arms, u: Set<ArmView>) -> Set<ArmView> {
    u.filter(|a: ArmView| arm_is(k, a))
}

fn filter_arms(k: Arms, u: &SortedSet<Arm>) -> (r: SortedSet<Arm>)
    ensures
        r.wf(),
        r@ == arms_that(k, u@),
{
    let mut r: SortedSet<Arm> = SortedSet::new();
    let mut i: usize = 0;
    while i < u.items.len()
        invariant
            i <= u.items@.len(),
            r.wf(),
            forall|a: ArmView| #[trigger]
                r@.contains(a) <==> arm_is(k, a) && exists|j: int|
                    0 <= j < i && (#[trigger] u.items@[j])@ == a,
        decreases u.items@.len() - i,
    {
        let ghost mid = r@;
        if is_arm(k, &u.items[i]) {
            r.insert(u.items[i].copied());
        }
        proof {
            assert forall|a: ArmView| #[trigger]
                r@.contains(a) <==> arm_is(k, a) && exists|j: int|
                    0 <= j < i + 1 && (#[trigger] u.items@[j])@ == a by {
                if mid.contains(a) {
                    let j = choose|j: int| 0 <= j < i && (#[trigger] u.items@[j])@ == a;
                    assert(0 <= j < i + 1 && u.items@[j]@ == a);
                }
                if exists|j: int| 0 <= j < i + 1 && (#[trigger] u.items@[j])@ == a {
                    let j = choose|j: int| 0 <= j < i + 1 && (#[trigger] u.items@[j])@ == a;
                    if j < i && arm_is(k, a) {
                        assert(mid.contains(a));
                    }
                }
            }
        }
        i = i + 1;
    }
    proof {
        assert forall|a: ArmView| r@.contains(a) <==> arms_that(k, u@).contains(a) by {
            arm_in_items(u, a);
        }
        assert(r@ =~= arms_that(k, u@));
    }
    r
}

/// The limits that an object's resources must keep, on an AMD part.
pub open spec fn contract_view(arch: Seq<char>, flash: bool) -> JsonView {
    if begins(arch, "gfx"@) {
        JsonView::Obj(
            map![
                "max_total_registers"@ => JsonView::Num(if flash { 512 } else { 256 }),
                "min_occupancy_waves_per_simd"@ => JsonView::Num(if flash { 1 } else { 2 }),
                "wavefront_size"@ => JsonView::Num(64),
                "policy"@ => JsonView::Str("refuse"@),
            ],
        )
    } else {
        JsonView::Null
    }
}

fn contract_json(arch: &str, flash: bool) -> (r: Json)
    ensures
        r@ == contract_view(arch@, flash),
{
    if starts_with(arch, "gfx") {
        let mut o = Fields::new();
        o.put("max_total_registers", num_json(if flash { 512 } else { 256 }));
        o.put("min_occupancy_waves_per_simd", num_json(if flash { 1 } else { 2 }));
        o.put("wavefront_size", num_json(64));
        o.put("policy", str_json("refuse"));
        o.done()
    } else {
        Json::Null
    }
}

/// An object that carries whatever its arms need.
pub open spec fn prunable_view(isa: Isa, arch: Seq<char>, u: Set<ArmView>) -> JsonView {
    JsonView::Obj(
        map![
            "arms"@ => keys_view(u),
            "families"@ => families_view(u),
            "excluded_opcodes"@ => strs_view(excluded_of(isa, u)),
            "resource_contract"@ => contract_view(arch, false),
            "inventory_prune_capable"@ => JsonView::Bool(true),
        ],
    )
}

fn prunable_json(isa: &Isa, arch: &str, u: &SortedSet<Arm>) -> (r: Json)
    requires
        u.wf(),
    ensures
        r@ == prunable_view(*isa, arch@, u@),
{
    let mut o = Fields::new();
    o.put("arms", keys_json(u));
    o.put("families", families_json(u));
    o.put("excluded_opcodes", strs_json(&excluded(isa, u)));
    o.put("resource_contract", contract_json(arch, false));
    o.put("inventory_prune_capable", bool_json(true));
    o.done()
}

/// Whether a set of arms has any.
pub open spec fn some_arms(u: Set<ArmView>) -> bool {
    u != Set::<ArmView>::empty()
}

fn has_arms(u: &SortedSet<Arm>) -> (r: bool)
    ensures
        r == some_arms(u@),
{
    proof {
        if u.items@.len() > 0 {
            arm_in_items(u, u.items@[0]@);
        } else {
            assert(u@ =~= Set::<ArmView>::empty());
        }
    }
    u.items.len() > 0
}

/// The objects of decode segments of one latent attention.
pub open spec fn mla_view(arch: Seq<char>, u: Set<ArmView>) -> JsonView {
    JsonView::Obj(
        map![
            "required"@ => JsonView::Bool(some_arms(u)),
            "arms"@ => keys_view(u),
            "families"@ => families_view(u),
            "resource_contract"@ => contract_view(arch, false),
        ],
    )
}

fn mla_json(arch: &str, u: &SortedSet<Arm>) -> (r: Json)
    requires
        u.wf(),
    ensures
        r@ == mla_view(arch@, u@),
{
    let mut o = Fields::new();
    o.put("required", bool_json(has_arms(u)));
    o.put("arms", keys_json(u));
    o.put("families", families_json(u));
    o.put("resource_contract", contract_json(arch, false));
    o.done()
}

/// The attention objects.
pub open spec fn flash_view(arch: Seq<char>, u: Set<ArmView>) -> JsonView {
    JsonView::Obj(
        map![
            "arms"@ => keys_view(u),
            "families"@ => families_view(u),
            "resource_contract"@ => contract_view(arch, true),
        ],
    )
}

fn flash_json(arch: &str, u: &SortedSet<Arm>) -> (r: Json)
    requires
        u.wf(),
    ensures
        r@ == flash_view(arch@, u@),
{
    let mut o = Fields::new();
    o.put("arms", keys_json(u));
    o.put("families", families_json(u));
    o.put("resource_contract", contract_json(arch, true));
    o.done()
}

/// A lean object that a set of arms asks for.
pub open spec fn lean_arms_view(u: Set<ArmView>) -> JsonView {
    JsonView::Obj(map!["required"@ => JsonView::Bool(some_arms(u)), "arms"@ => keys_view(u)])
}

fn lean_arms_json(u: &SortedSet<Arm>) -> (r: Json)
    requires
        u.wf(),
    ensures
        r@ == lean_arms_view(u@),
{
    let mut o = Fields::new();
    o.put("required", bool_json(has_arms(u)));
    o.put("arms", keys_json(u));
    o.done()
}

/// The paired kernels, which a packet needs where it has segments for both of them.
pub open spec fn pair_view(wu: Set<ArmView>, carry: Set<ArmView>) -> JsonView {
    JsonView::Obj(
        map![
            "required"@ => JsonView::Bool(some_arms(wu) && some_arms(carry)),
            "wu_arms"@ => keys_view(wu),
            "carry_arms"@ => keys_view(carry),
        ],
    )
}

fn pair_json(wu: &SortedSet<Arm>, carry: &SortedSet<Arm>) -> (r: Json)
    requires
        wu.wf(),
        carry.wf(),
    ensures
        r@ == pair_view(wu@, carry@),
{
    let mut o = Fields::new();
    o.put("required", bool_json(has_arms(wu) && has_arms(carry)));
    o.put("wu_arms", keys_json(wu));
    o.put("carry_arms", keys_json(carry));
    o.done()
}

/// The ordinary objects of a packet.
pub open spec fn ordinary_view(isa: Isa, rows: Seq<ProgramView>, arch: Seq<char>) -> JsonView {
    let prefill = arms_of_kind(Rows::Prefill, rows);
    JsonView::Obj(
        map![
            "prefill"@ => prunable_view(isa, arch, prefill),
            "decode"@ => prunable_view(isa, arch, arms_of_kind(Rows::Decode, rows)),
            "decode_mla"@ => mla_view(arch, arms_of_kind(Rows::DecodeMla, rows)),
            "flash"@ => flash_view(arch, arms_that(Arms::Flash, prefill)),
        ],
    )
}

/// The lean objects that a packet's arms ask for.
pub open spec fn lean_fields(rows: Seq<ProgramView>) -> Map<Seq<char>, JsonView> {
    map![
        "packed_kda_prefill"@ => lean_arms_view(
            arms_that(Arms::PackedKda, arms_of_kind(Rows::Prefill, rows)),
        ),
        "kda_decode_fused"@ => lean_arms_view(
            arms_that(Arms::FusedKda, arms_of_kind(Rows::Decode, rows)),
        ),
        "kda_key_factor_pair"@ => pair_view(
            arms_of_kind(Rows::PairedWu, rows),
            arms_of_kind(Rows::PairedCarry, rows),
        ),
    ]
}

/// The ordinary objects of a packet.
pub fn ordinary_objects(isa: &Isa, rows: &Vec<ProgramArms>, arch: &str) -> (r: Json)
    requires
        programs_wf(rows@),
    ensures
        r@ == ordinary_view(*isa, views(rows@), arch@),
{
    let prefill: SortedSet<Arm> = collect_arms(Rows::Prefill, rows);
    let mut o = Fields::new();
    o.put("prefill", prunable_json(isa, arch, &prefill));
    o.put("decode", prunable_json(isa, arch, &collect_arms(Rows::Decode, rows)));
    o.put("decode_mla", mla_json(arch, &collect_arms(Rows::DecodeMla, rows)));
    o.put("flash", flash_json(arch, &filter_arms(Arms::Flash, &prefill)));
    o.done()
}

/// The lean objects that a packet's arms ask for.
pub fn lean_objects(rows: &Vec<ProgramArms>) -> (r: Fields)
    requires
        programs_wf(rows@),
    ensures
        r@ == lean_fields(views(rows@)),
{
    let prefill: SortedSet<Arm> = collect_arms(Rows::Prefill, rows);
    let decode: SortedSet<Arm> = collect_arms(Rows::Decode, rows);
    let mut o = Fields::new();
    o.put("packed_kda_prefill", lean_arms_json(&filter_arms(Arms::PackedKda, &prefill)));
    o.put("kda_decode_fused", lean_arms_json(&filter_arms(Arms::FusedKda, &decode)));
    o.put(
        "kda_key_factor_pair",
        pair_json(&collect_arms(Rows::PairedWu, rows), &collect_arms(Rows::PairedCarry, rows)),
    );
    o
}

/// The objects that a packet's arms ask for.
pub open spec fn inventory_view(isa: Isa, rows: Seq<ProgramView>, arch: Seq<char>) -> JsonView {
    JsonView::Obj(
        map![
            "ordinary"@ => ordinary_view(isa, rows, arch),
            "lean"@ => JsonView::Obj(lean_fields(rows)),
        ],
    )
}

/// The objects that a packet's arms ask for.
pub fn object_inventory(isa: &Isa, rows: &Vec<ProgramArms>, arch: &str) -> (r: Json)
    requires
        programs_wf(rows@),
    ensures
        r@ == inventory_view(*isa, views(rows@), arch@),
{
    let mut o = Fields::new();
    o.put("ordinary", ordinary_objects(isa, rows, arch));
    o.put("lean", lean_objects(rows).done());
    o.done()
}

/// Every arm of a row is in the union of all rows, and every arm there is some row's.
pub proof fn the_union_covers_every_row(rows: Seq<ProgramView>, a: ArmView)
    ensures
        arms_of_kind(Rows::All, rows).contains(a) <==> exists|i: int|
            0 <= i < rows.len() && (#[trigger] rows[i]).arms.contains(a),
{
    union_covers(rows, a, rows.len() as int);
}

proof fn union_covers(rows: Seq<ProgramView>, a: ArmView, n: int)
    requires
        0 <= n <= rows.len(),
    ensures
        arms_in(Rows::All, rows, n).contains(a) <==> exists|i: int|
            0 <= i < n && (#[trigger] rows[i]).arms.contains(a),
    decreases n,
{
    if n > 0 {
        union_covers(rows, a, n - 1);
        if rows[n - 1].arms.contains(a) {
            assert(0 <= n - 1 < n && rows[n - 1].arms.contains(a));
        }
        if exists|i: int| 0 <= i < n && (#[trigger] rows[i]).arms.contains(a) {
            let i = choose|i: int| 0 <= i < n && (#[trigger] rows[i]).arms.contains(a);
            if i < n - 1 {
                assert(arms_in(Rows::All, rows, n - 1).contains(a));
            }
        }
    }
}

/// Every arm of a packet is in an ordinary object: the prefill object, the decode object, or the
/// object of latent decode segments; and these hold nothing that the packet does not reach.
pub proof fn every_arm_has_an_object(rows: Seq<ProgramView>)
    ensures
        arms_of_kind(Rows::All, rows) == arms_of_kind(Rows::Prefill, rows).union(
            arms_of_kind(Rows::Decode, rows),
        ).union(arms_of_kind(Rows::DecodeMla, rows)),
{
    kinds_cover(rows, rows.len() as int);
}

proof fn kinds_cover(rows: Seq<ProgramView>, n: int)
    ensures
        arms_in(Rows::All, rows, n) == arms_in(Rows::Prefill, rows, n).union(
            arms_in(Rows::Decode, rows, n),
        ).union(arms_in(Rows::DecodeMla, rows, n)),
    decreases n,
{
    if n > 0 {
        kinds_cover(rows, n - 1);
    }
    assert(arms_in(Rows::All, rows, n) =~= arms_in(Rows::Prefill, rows, n).union(
        arms_in(Rows::Decode, rows, n),
    ).union(arms_in(Rows::DecodeMla, rows, n)));
}

} // verus!
