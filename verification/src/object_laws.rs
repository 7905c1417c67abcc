//! What the documents of a packet say: of its objects, capabilities, precisions, shapes and programs.
use vstd::prelude::*;

use crate::arms::{arm_key, Arm, ArmView, ProgramView};
use crate::features::{
    arm_fields, axes_view, encoding_fields, expert_precision, features_view, operand_fields,
    precision_text, prefill_fields, Axes, Features, Precision,
};
use crate::inventory::{
    arms_in, arms_of_kind, arms_that, contract_view, excluded_of, excluded_upto, families_of,
    family_text, flash_view, inventory_view, keys_of, lean_arms_view, lean_fields, mla_view,
    ordinary_view, prunable_view, row_is, some_arms, Arms, Rows,
};
use crate::json::{member, strs_view, JsonView};
use crate::opcodes::{Isa, Opcode};
use crate::order::listing;
use crate::packet_laws::has_arm;
use crate::text::{begins, mentions, stands_at};

verus! {

proof fn starts_differ(op: Seq<char>)
    ensures
        begins(op, "Kda"@) ==> op.len() > 0 && op[0] == 'K',
        begins(op, "Moe"@) ==> op.len() > 1 && op[0] == 'M' && op[1] == 'o',
        begins(op, "Flash"@) ==> op.len() > 0 && op[0] == 'F',
        begins(op, "FlashMla"@) || begins(op, "FlashGather"@) ==> op.len() > 0 && op[0] == 'F',
        begins(op, "Gemm"@) || begins(op, "Gemv"@) ==> op.len() > 0 && op[0] == 'G',
        op == "MlaMergeFold"@ || op == "MlaOutGate"@ || op == "MlaMaterializePack"@ ==> op.len() > 1
            && op[0] == 'M' && op[1] == 'l',
        op == "AttnSelect"@ || op == "AttnRes"@ ==> op.len() > 0 && op[0] == 'A',
        op == "Residual"@ ==> op.len() > 0 && op[0] == 'R',
        op == "XReduce"@ || op == "XReduceTwoShot"@ || op == "XReduceScatter"@ || op
            == "XAllGather"@ ==> op.len() > 0 && op[0] == 'X',
        "AttnSelect"@ != "AttnRes"@,
{
    reveal_strlit("Kda");
    reveal_strlit("Moe");
    reveal_strlit("Flash");
    reveal_strlit("FlashMla");
    reveal_strlit("FlashGather");
    reveal_strlit("Gemm");
    reveal_strlit("Gemv");
    reveal_strlit("MlaMergeFold");
    reveal_strlit("MlaOutGate");
    reveal_strlit("MlaMaterializePack");
    reveal_strlit("AttnSelect");
    reveal_strlit("AttnRes");
    reveal_strlit("Residual");
    reveal_strlit("XReduce");
    reveal_strlit("XReduceTwoShot");
    reveal_strlit("XReduceScatter");
    reveal_strlit("XAllGather");
    assert(begins(op, "Kda"@) ==> op.take(3)[0] == op[0]);
    assert(begins(op, "Moe"@) ==> op.take(3)[0] == op[0] && op.take(3)[1] == op[1]);
    assert(begins(op, "Flash"@) ==> op.take(5)[0] == op[0]);
    assert(begins(op, "FlashMla"@) ==> op.take(8)[0] == op[0]);
    assert(begins(op, "FlashGather"@) ==> op.take(11)[0] == op[0]);
    assert(begins(op, "Gemm"@) ==> op.take(4)[0] == op[0]);
    assert(begins(op, "Gemv"@) ==> op.take(4)[0] == op[0]);
    assert("AttnSelect"@.len() != "AttnRes"@.len());
}

proof fn collectives_have_no_norm(op: Seq<char>)
    requires
        op == "XReduce"@ || op == "XReduceTwoShot"@ || op == "XReduceScatter"@ || op
            == "XAllGather"@,
    ensures
        !mentions(op, "Norm"@),
{
    reveal_strlit("XReduce");
    reveal_strlit("XReduceTwoShot");
    reveal_strlit("XReduceScatter");
    reveal_strlit("XAllGather");
    reveal_strlit("Norm");
    assert forall|k: int| 0 <= k < op.len() implies op[k] != 'N' by {
        assert(op.len() <= 14);
        assert(k == 0 || k == 1 || k == 2 || k == 3 || k == 4 || k == 5 || k == 6 || k == 7 || k == 8
            || k == 9 || k == 10 || k == 11 || k == 12 || k == 13);
    }
    if mentions(op, "Norm"@) {
        let k = choose|k: int| stands_at(op, "Norm"@, k);
        assert(op.subrange(k, k + 4)[0] == op[k]);
    }
}

/// An opcode's family goes by what its name starts with; what starts with none of the families'
/// words goes by whether it speaks of a norm, and a few opcodes are told one by one.
pub proof fn families_go_by_name(op: Seq<char>)
    ensures
        begins(op, "Kda"@) ==> family_text(op) == "kda"@,
        begins(op, "Moe"@) ==> family_text(op) == "moe"@,
        begins(op, "FlashMla"@) || begins(op, "FlashGather"@) ==> family_text(op) == "mla"@,
        op == "MlaMergeFold"@ || op == "MlaOutGate"@ || op == "MlaMaterializePack"@ ==> family_text(
            op,
        ) == "mla"@,
        begins(op, "Flash"@) && !begins(op, "FlashMla"@) && !begins(op, "FlashGather"@)
            ==> family_text(op) == "attention"@,
        op == "AttnSelect"@ ==> family_text(op) == "attention"@,
        begins(op, "Gemm"@) || begins(op, "Gemv"@) ==> family_text(op) == "linear"@,
        op == "Residual"@ || op == "AttnRes"@ ==> family_text(op) == "norm_residual"@,
        op == "XReduce"@ || op == "XReduceTwoShot"@ || op == "XReduceScatter"@ || op
            == "XAllGather"@ ==> family_text(op) == "collective"@,
        mentions(op, "Norm"@) && op.len() > 0 && op[0] != 'K' && op[0] != 'M' && op[0] != 'F' && op[0]
            != 'G' && op[0] != 'A' ==> family_text(op) == "norm_residual"@,
        !mentions(op, "Norm"@) && op.len() > 0 && op[0] != 'K' && op[0] != 'M' && op[0] != 'F' && op[0]
            != 'G' && op[0] != 'A' && op[0] != 'R' && op[0] != 'X' ==> family_text(op)
            == "elementwise"@,
{
    starts_differ(op);
    if op == "XReduce"@ || op == "XReduceTwoShot"@ || op == "XReduceScatter"@ || op
        == "XAllGather"@ {
        collectives_have_no_norm(op);
    }
}

/// The families of a set are those of its arms.
pub proof fn families_are_those_of_the_arms(u: Set<ArmView>, t: Seq<char>)
    ensures
        families_of(u).contains(t) <==> exists|a: ArmView| #[trigger]
            u.contains(a) && family_text(a.op) == t,
{
    if exists|a: ArmView| #[trigger] u.contains(a) && family_text(a.op) == t {
        let a = choose|a: ArmView| #[trigger] u.contains(a) && family_text(a.op) == t;
        assert(families_of(u).contains(t));
    }
}

proof fn kinds_have_their_rows(k: Rows, rows: Seq<ProgramView>, n: int, a: ArmView)
    requires
        0 <= n <= rows.len(),
    ensures
        arms_in(k, rows, n).contains(a) <==> exists|i: int|
            0 <= i < n && row_is(k, #[trigger] rows[i]) && rows[i].arms.contains(a),
    decreases n,
{
    if n > 0 {
        kinds_have_their_rows(k, rows, n - 1, a);
        if row_is(k, rows[n - 1]) && rows[n - 1].arms.contains(a) {
            assert(0 <= n - 1 < n && row_is(k, rows[n - 1]) && rows[n - 1].arms.contains(a));
        }
        if exists|i: int| 0 <= i < n && row_is(k, #[trigger] rows[i]) && rows[i].arms.contains(a) {
            let i = choose|i: int|
                0 <= i < n && row_is(k, #[trigger] rows[i]) && rows[i].arms.contains(a);
            if i < n - 1 {
                assert(row_is(k, rows[i]) && rows[i].arms.contains(a));
            }
        }
    }
}

/// Whether a row is one latent attention over an uncompressed cache and its merge, by themselves.
pub open spec fn is_lone_latent_decode(p: ProgramView) -> bool {
    &&& p.decode && p.seg is Some && p.insts == 2 && listing::<Arm>(p.arms).len() == 2
    &&& has_arm(p.arms, "FlashMlaDecode"@) && has_arm(p.arms, "MlaMergeFold"@)
    &&& forall|a: ArmView| #[trigger]
        p.arms.contains(a) ==> a.op == "FlashMlaDecode"@ || a.op == "MlaMergeFold"@
}

/// Whether a row is one instruction of an opcode by itself, for 128 wide heads whose queries are
/// scaled before.
pub open spec fn is_lone_chunk(p: ProgramView, op: Seq<char>) -> bool {
    &&& !p.decode && p.seg is Some && p.insts == 1 && listing::<Arm>(p.arms).len() == 1
    &&& listing::<Arm>(p.arms)[0].op == op
    &&& listing::<Arm>(p.arms)[0].variant == Some("d128_qpre"@)
}

/// The arms of a kind of rows are those of the rows of the kind: prefill rows those that do not
/// decode, lone latent decodes by themselves, and the other decode rows; the paired kernels take rows
/// of one chunk product, and of one carry.
pub proof fn objects_hold_the_arms_of_their_rows(rows: Seq<ProgramView>, a: ArmView)
    ensures
        arms_of_kind(Rows::Prefill, rows).contains(a) <==> exists|i: int|
            0 <= i < rows.len() && !(#[trigger] rows[i]).decode && rows[i].arms.contains(a),
        arms_of_kind(Rows::DecodeMla, rows).contains(a) <==> exists|i: int|
            0 <= i < rows.len() && is_lone_latent_decode(#[trigger] rows[i]) && rows[i].arms.contains(
                a,
            ),
        arms_of_kind(Rows::Decode, rows).contains(a) <==> exists|i: int|
            0 <= i < rows.len() && (#[trigger] rows[i]).decode && !is_lone_latent_decode(rows[i])
                && rows[i].arms.contains(a),
        arms_of_kind(Rows::PairedWu, rows).contains(a) <==> exists|i: int|
            0 <= i < rows.len() && is_lone_chunk(#[trigger] rows[i], "KdaChunkWu"@)
                && rows[i].arms.contains(a),
        arms_of_kind(Rows::PairedCarry, rows).contains(a) <==> exists|i: int|
            0 <= i < rows.len() && is_lone_chunk(#[trigger] rows[i], "KdaChunkCarry"@)
                && rows[i].arms.contains(a),
        arms_of_kind(Rows::All, rows).contains(a) <==> exists|i: int|
            0 <= i < rows.len() && (#[trigger] rows[i]).arms.contains(a),
{
    let n = rows.len() as int;
    kinds_have_their_rows(Rows::Prefill, rows, n, a);
    kinds_have_their_rows(Rows::DecodeMla, rows, n, a);
    kinds_have_their_rows(Rows::Decode, rows, n, a);
    kinds_have_their_rows(Rows::PairedWu, rows, n, a);
    kinds_have_their_rows(Rows::PairedCarry, rows, n, a);
    kinds_have_their_rows(Rows::All, rows, n, a);
    assert forall|p: ProgramView| #[trigger] row_is(Rows::DecodeMla, p) == is_lone_latent_decode(p) by {}
    assert forall|p: ProgramView| #[trigger]
        row_is(Rows::Decode, p) == (p.decode && !is_lone_latent_decode(p)) by {
        assert(row_is(Rows::DecodeMla, p) == is_lone_latent_decode(p));
    }
    assert forall|p: ProgramView| #[trigger]
        row_is(Rows::PairedWu, p) == is_lone_chunk(p, "KdaChunkWu"@) by {}
    assert forall|p: ProgramView| #[trigger]
        row_is(Rows::PairedCarry, p) == is_lone_chunk(p, "KdaChunkCarry"@) by {}
    assert forall|p: ProgramView| #[trigger] row_is(Rows::Prefill, p) == !p.decode by {}
    assert forall|p: ProgramView| #[trigger] row_is(Rows::All, p) by {}
}

/// The arms of a kind among a set are those of its opcodes: attention's by how they start and the
/// latent merge, the three steps of packed recurrences, and the fused step.
pub proof fn kinds_of_arms_go_by_their_opcodes(u: Set<ArmView>, a: ArmView)
    ensures
        arms_that(Arms::Flash, u).contains(a) <==> u.contains(a) && (begins(a.op, "Flash"@) || a.op
            == "MlaMergeFold"@),
        arms_that(Arms::PackedKda, u).contains(a) <==> u.contains(a) && (a.op == "KdaStateStep"@
            || a.op == "KdaStateStepG"@ || a.op == "KdaConv3"@),
        arms_that(Arms::FusedKda, u).contains(a) <==> u.contains(a) && a.op == "KdaDecodeFused"@,
{
}

proof fn excluded_are_listed(t: Seq<Opcode>, u: Set<ArmView>, n: int, x: Seq<char>)
    requires
        0 <= n <= t.len(),
    ensures
        excluded_upto(t, u, n).contains(x) <==> !has_arm(u, x) && exists|i: int|
            0 <= i < n && (#[trigger] t[i]).name@ == x,
    decreases n,
{
    if n > 0 {
        excluded_are_listed(t, u, n - 1, x);
        let before = excluded_upto(t, u, n - 1);
        let all = excluded_upto(t, u, n);
        assert(has_arm(u, t[n - 1].name@) == crate::features::op_in(u, t[n - 1].name@));
        if before.contains(x) {
            let k = choose|k: int| 0 <= k < before.len() && before[k] == x;
            assert(all[k] == x);
            let i = choose|i: int| 0 <= i < n - 1 && (#[trigger] t[i]).name@ == x;
            assert(0 <= i < n && t[i].name@ == x);
        }
        if t[n - 1].name@ == x {
            assert(0 <= n - 1 < n && t[n - 1].name@ == x);
            if !has_arm(u, x) {
                assert(all[before.len() as int] == x);
            }
        }
        if all.contains(x) && !before.contains(x) {
            let k = choose|k: int| 0 <= k < all.len() && all[k] == x;
            if k < before.len() {
                assert(before[k] == x);
            }
        }
        if !has_arm(u, x) && exists|i: int| 0 <= i < n && (#[trigger] t[i]).name@ == x {
            let i = choose|i: int| 0 <= i < n && (#[trigger] t[i]).name@ == x;
            if i < n - 1 {
                assert(before.contains(x));
            }
        }
    }
}

/// The opcodes that an object excludes are those of the table that none of its arms has.
pub proof fn excluded_opcodes_have_no_arm(isa: Isa, u: Set<ArmView>, x: Seq<char>)
    ensures
        excluded_of(isa, u).contains(x) <==> !has_arm(u, x) && exists|i: int|
            0 <= i < isa.opcodes@.len() && (#[trigger] isa.opcodes@[i]).name@ == x,
{
    excluded_are_listed(isa.opcodes@, u, isa.opcodes@.len() as int, x);
}

/// Attention objects may take twice the registers of the others, at half the waves; waves are of 64
/// lanes, an object that goes over is refused, and only AMD parts have limits.
pub proof fn attention_objects_have_twice_the_registers(arch: Seq<char>)
    ensures
        begins(arch, "gfx"@) ==> {
            let a = contract_view(arch, true);
            let b = contract_view(arch, false);
            &&& member(b, "max_total_registers"@) == Some(JsonView::Num(256))
            &&& member(a, "max_total_registers"@) == Some(JsonView::Num(512))
            &&& member(b, "min_occupancy_waves_per_simd"@) == Some(JsonView::Num(2))
            &&& member(a, "min_occupancy_waves_per_simd"@) == Some(JsonView::Num(1))
            &&& member(a, "wavefront_size"@) == Some(JsonView::Num(64))
            &&& member(b, "wavefront_size"@) == member(a, "wavefront_size"@)
            &&& member(a, "policy"@) == Some(JsonView::Str("refuse"@))
            &&& member(b, "policy"@) == member(a, "policy"@)
        },
        !begins(arch, "gfx"@) ==> contract_view(arch, true) == JsonView::Null && contract_view(
            arch,
            false,
        ) == JsonView::Null,
{
    reveal_strlit("max_total_registers");
    reveal_strlit("min_occupancy_waves_per_simd");
    reveal_strlit("wavefront_size");
    reveal_strlit("policy");
    assert("max_total_registers"@.len() == 19);
    assert("min_occupancy_waves_per_simd"@.len() == 28);
    assert("wavefront_size"@.len() == 14);
    assert("policy"@.len() == 6);
}

/// An arm of an object's document is one of its arms, as it is written; families and excluded
/// opcodes are its own too. Of the ordinary objects only attention's has attention's limits, only
/// those of prefill and decode can be pruned, and that of latent decodes says whether it is needed.
pub proof fn an_objects_document_lists_its_own(isa: Isa, arch: Seq<char>, u: Set<ArmView>)
    ensures
        member(prunable_view(isa, arch, u), "arms"@) == Some(strs_view(keys_of(u))),
        member(prunable_view(isa, arch, u), "families"@) == Some(crate::inventory::families_view(u)),
        member(prunable_view(isa, arch, u), "excluded_opcodes"@) == Some(strs_view(excluded_of(isa, u))),
        member(prunable_view(isa, arch, u), "resource_contract"@) == Some(contract_view(arch, false)),
        member(prunable_view(isa, arch, u), "inventory_prune_capable"@) == Some(JsonView::Bool(true)),
        member(mla_view(arch, u), "required"@) == Some(JsonView::Bool(some_arms(u))),
        member(mla_view(arch, u), "arms"@) == Some(strs_view(keys_of(u))),
        member(mla_view(arch, u), "families"@) == Some(crate::inventory::families_view(u)),
        member(mla_view(arch, u), "resource_contract"@) == Some(contract_view(arch, false)),
        member(flash_view(arch, u), "arms"@) == Some(strs_view(keys_of(u))),
        member(flash_view(arch, u), "families"@) == Some(crate::inventory::families_view(u)),
        member(flash_view(arch, u), "resource_contract"@) == Some(contract_view(arch, true)),
        member(lean_arms_view(u), "required"@) == Some(JsonView::Bool(some_arms(u))),
        member(lean_arms_view(u), "arms"@) == Some(strs_view(keys_of(u))),
        some_arms(u) <==> exists|a: ArmView| u.contains(a),
{
    reveal_strlit("arms");
    reveal_strlit("families");
    reveal_strlit("excluded_opcodes");
    reveal_strlit("resource_contract");
    reveal_strlit("inventory_prune_capable");
    reveal_strlit("required");
    assert("arms"@.len() == 4);
    assert("families"@.len() == 8);
    assert("excluded_opcodes"@.len() == 16);
    assert("resource_contract"@.len() == 17);
    assert("inventory_prune_capable"@.len() == 23);
    assert("required"@.len() == 8);
    assert("families"@[0] != "required"@[0]);
    if !(exists|a: ArmView| u.contains(a)) {
        assert(u =~= Set::<ArmView>::empty());
    }
}

/// Each ordinary object stands under its own name with the arms of its own rows, and each lean one
/// that arms ask for with its own; the paired kernels are needed only where both have rows.
pub proof fn objects_stand_under_their_names(isa: Isa, rows: Seq<ProgramView>, arch: Seq<char>)
    ensures
        member(ordinary_view(isa, rows, arch), "prefill"@) == Some(prunable_view(isa, arch, arms_of_kind(Rows::Prefill, rows))),
        member(ordinary_view(isa, rows, arch), "decode"@) == Some(prunable_view(isa, arch, arms_of_kind(Rows::Decode, rows))),
        member(ordinary_view(isa, rows, arch), "decode_mla"@) == Some(mla_view(arch, arms_of_kind(Rows::DecodeMla, rows))),
        member(ordinary_view(isa, rows, arch), "flash"@) == Some(flash_view(arch, arms_that(Arms::Flash, arms_of_kind(Rows::Prefill, rows)))),
        member(JsonView::Obj(lean_fields(rows)), "packed_kda_prefill"@) == Some(lean_arms_view(arms_that(Arms::PackedKda, arms_of_kind(Rows::Prefill, rows)))),
        member(JsonView::Obj(lean_fields(rows)), "kda_decode_fused"@) == Some(lean_arms_view(arms_that(Arms::FusedKda, arms_of_kind(Rows::Decode, rows)))),
        ({
            let j = member(JsonView::Obj(lean_fields(rows)), "kda_key_factor_pair"@);
            let wu = arms_of_kind(Rows::PairedWu, rows);
            let carry = arms_of_kind(Rows::PairedCarry, rows);
            &&& j is Some
            &&& member(j->0, "required"@) == Some(JsonView::Bool(some_arms(wu) && some_arms(carry)))
            &&& member(j->0, "wu_arms"@) == Some(strs_view(keys_of(wu)))
            &&& member(j->0, "carry_arms"@) == Some(strs_view(keys_of(carry)))
        }),
        member(inventory_view(isa, rows, arch), "ordinary"@) == Some(ordinary_view(isa, rows, arch)),
        member(inventory_view(isa, rows, arch), "lean"@) == Some(JsonView::Obj(lean_fields(rows))),
{
    reveal_strlit("prefill");
    reveal_strlit("decode");
    reveal_strlit("decode_mla");
    reveal_strlit("flash");
    assert("prefill"@.len() == 7);
    assert("decode"@.len() == 6);
    assert("decode_mla"@.len() == 10);
    assert("flash"@.len() == 5);
    reveal_strlit("packed_kda_prefill");
    reveal_strlit("kda_decode_fused");
    reveal_strlit("kda_key_factor_pair");
    assert("packed_kda_prefill"@.len() == 18);
    assert("kda_decode_fused"@.len() == 16);
    assert("kda_key_factor_pair"@.len() == 19);
    reveal_strlit("required");
    reveal_strlit("wu_arms");
    reveal_strlit("carry_arms");
    assert("required"@.len() == 8);
    assert("wu_arms"@.len() == 7);
    assert("carry_arms"@.len() == 10);
    reveal_strlit("ordinary");
    reveal_strlit("lean");
    assert("ordinary"@.len() == 8);
    assert("lean"@.len() == 4);
}

/// An object's arms are listed in order, each as it is written.
pub proof fn arms_are_listed_as_written(u: Set<ArmView>, i: int)
    requires
        0 <= i < listing::<Arm>(u).len(),
    ensures
        keys_of(u).len() == listing::<Arm>(u).len(),
        keys_of(u)[i] == arm_key(listing::<Arm>(u)[i]),
{
}

proof fn arm_fields_are_there(m: Map<Seq<char>, JsonView>, f: Features, x: Seq<char>)
    ensures
        arm_fields(m, f).dom().contains("fp8_kv"@) && arm_fields(m, f)["fp8_kv"@] == JsonView::Bool(f.fp8_kv),
        arm_fields(m, f).dom().contains("fp8_weights"@) && arm_fields(m, f)["fp8_weights"@] == JsonView::Bool(f.fp8_weights),
        arm_fields(m, f).dom().contains("w8a8"@) && arm_fields(m, f)["w8a8"@] == JsonView::Bool(f.w8a8),
        arm_fields(m, f).dom().contains("qwen_gdn"@) && arm_fields(m, f)["qwen_gdn"@] == JsonView::Bool(f.qwen_gdn),
        arm_fields(m, f).dom().contains("moe"@) && arm_fields(m, f)["moe"@] == JsonView::Bool(f.moe),
        arm_fields(m, f).dom().contains("mla"@) && arm_fields(m, f)["mla"@] == JsonView::Bool(f.mla),
        arm_fields(m, f).dom().contains("mamba"@) && arm_fields(m, f)["mamba"@] == JsonView::Bool(f.mamba),
        arm_fields(m, f).dom().contains("tensor_parallel"@) && arm_fields(m, f)["tensor_parallel"@] == JsonView::Bool(f.tensor_parallel),
        (x != "fp8_kv"@ && x != "fp8_weights"@ && x != "w8a8"@ && x != "qwen_gdn"@ && x != "moe"@ && x != "mla"@ && x != "mamba"@ && x != "tensor_parallel"@) ==> (arm_fields(m, f).dom().contains(x) == m.dom().contains(x)
            && arm_fields(m, f)[x] == m[x]),
{
    reveal(arm_fields);
    reveal_strlit("fp8_kv");
    reveal_strlit("fp8_weights");
    reveal_strlit("w8a8");
    reveal_strlit("qwen_gdn");
    reveal_strlit("moe");
    reveal_strlit("mla");
    reveal_strlit("mamba");
    reveal_strlit("tensor_parallel");
    assert("fp8_kv"@.len() == 6);
    assert("fp8_weights"@.len() == 11);
    assert("w8a8"@.len() == 4);
    assert("qwen_gdn"@.len() == 8);
    assert("moe"@.len() == 3);
    assert("mla"@.len() == 3);
    assert("mamba"@.len() == 5);
    assert("tensor_parallel"@.len() == 15);
    assert("moe"@[1] != "mla"@[1]);
}

proof fn encoding_fields_are_there(m: Map<Seq<char>, JsonView>, f: Features, x: Seq<char>)
    ensures
        encoding_fields(m, f).dom().contains("prefill"@) && encoding_fields(m, f)["prefill"@] == JsonView::Bool(f.prefill),
        encoding_fields(m, f).dom().contains("moe_prefill"@) && encoding_fields(m, f)["moe_prefill"@] == JsonView::Bool(f.moe_prefill),
        encoding_fields(m, f).dom().contains("materialized_residual_input"@) && encoding_fields(m, f)["materialized_residual_input"@] == JsonView::Bool(f.materialized_residual_input),
        encoding_fields(m, f).dom().contains("attnres_decode_mwg"@) && encoding_fields(m, f)["attnres_decode_mwg"@] == JsonView::Bool(f.attnres_decode_mwg),
        encoding_fields(m, f).dom().contains("a4w4"@) && encoding_fields(m, f)["a4w4"@] == JsonView::Bool(f.a4w4),
        encoding_fields(m, f).dom().contains("mxfp4_weights"@) && encoding_fields(m, f)["mxfp4_weights"@] == JsonView::Bool(f.mxfp4_weights),
        encoding_fields(m, f).dom().contains("moe_enc_mixed"@) && encoding_fields(m, f)["moe_enc_mixed"@] == JsonView::Bool(f.moe_enc_mixed),
        encoding_fields(m, f).dom().contains("moe_pf_part16"@) && encoding_fields(m, f)["moe_pf_part16"@] == JsonView::Bool(f.moe_pf_part16),
        (x != "prefill"@ && x != "moe_prefill"@ && x != "materialized_residual_input"@ && x != "attnres_decode_mwg"@ && x != "a4w4"@ && x != "mxfp4_weights"@ && x != "moe_enc_mixed"@ && x != "moe_pf_part16"@) ==> (encoding_fields(m, f).dom().contains(x) == m.dom().contains(x)
            && encoding_fields(m, f)[x] == m[x]),
{
    reveal(encoding_fields);
    reveal_strlit("prefill");
    reveal_strlit("moe_prefill");
    reveal_strlit("materialized_residual_input");
    reveal_strlit("attnres_decode_mwg");
    reveal_strlit("a4w4");
    reveal_strlit("mxfp4_weights");
    reveal_strlit("moe_enc_mixed");
    reveal_strlit("moe_pf_part16");
    assert("prefill"@.len() == 7);
    assert("moe_prefill"@.len() == 11);
    assert("materialized_residual_input"@.len() == 27);
    assert("attnres_decode_mwg"@.len() == 18);
    assert("a4w4"@.len() == 4);
    assert("mxfp4_weights"@.len() == 13);
    assert("moe_enc_mixed"@.len() == 13);
    assert("moe_pf_part16"@.len() == 13);
    assert("mxfp4_weights"@[1] != "moe_enc_mixed"@[1]);
    assert("mxfp4_weights"@[1] != "moe_pf_part16"@[1]);
    assert("moe_enc_mixed"@[4] != "moe_pf_part16"@[4]);
}

proof fn prefill_fields_are_there(m: Map<Seq<char>, JsonView>, f: Features, x: Seq<char>)
    ensures
        prefill_fields(m, f).dom().contains("moe_pf_atomic"@) && prefill_fields(m, f)["moe_pf_atomic"@] == JsonView::Bool(f.moe_pf_atomic),
        prefill_fields(m, f).dom().contains("moe_pf_det"@) && prefill_fields(m, f)["moe_pf_det"@] == JsonView::Bool(f.moe_pf_det),
        prefill_fields(m, f).dom().contains("moe_pf_a8"@) && prefill_fields(m, f)["moe_pf_a8"@] == JsonView::Bool(f.moe_pf_a8),
        prefill_fields(m, f).dom().contains("xr_combine_fold"@) && prefill_fields(m, f)["xr_combine_fold"@] == JsonView::Bool(f.xr_combine_fold),
        prefill_fields(m, f).dom().contains("kda_fb_fold"@) && prefill_fields(m, f)["kda_fb_fold"@] == JsonView::Bool(f.kda_fb_fold),
        prefill_fields(m, f).dom().contains("kda_decode_fused_arm"@) && prefill_fields(m, f)["kda_decode_fused_arm"@] == JsonView::Bool(f.kda_decode_fused_arm),
        prefill_fields(m, f).dom().contains("gemv_prefetch"@) && prefill_fields(m, f)["gemv_prefetch"@] == JsonView::Bool(f.gemv_prefetch),
        prefill_fields(m, f).dom().contains("moe_prefill_ep"@) && prefill_fields(m, f)["moe_prefill_ep"@] == JsonView::Bool(f.moe_prefill_ep),
        (x != "moe_pf_atomic"@ && x != "moe_pf_det"@ && x != "moe_pf_a8"@ && x != "xr_combine_fold"@ && x != "kda_fb_fold"@ && x != "kda_decode_fused_arm"@ && x != "gemv_prefetch"@ && x != "moe_prefill_ep"@) ==> (prefill_fields(m, f).dom().contains(x) == m.dom().contains(x)
            && prefill_fields(m, f)[x] == m[x]),
{
    reveal(prefill_fields);
    reveal_strlit("moe_pf_atomic");
    reveal_strlit("moe_pf_det");
    reveal_strlit("moe_pf_a8");
    reveal_strlit("xr_combine_fold");
    reveal_strlit("kda_fb_fold");
    reveal_strlit("kda_decode_fused_arm");
    reveal_strlit("gemv_prefetch");
    reveal_strlit("moe_prefill_ep");
    assert("moe_pf_atomic"@.len() == 13);
    assert("moe_pf_det"@.len() == 10);
    assert("moe_pf_a8"@.len() == 9);
    assert("xr_combine_fold"@.len() == 15);
    assert("kda_fb_fold"@.len() == 11);
    assert("kda_decode_fused_arm"@.len() == 20);
    assert("gemv_prefetch"@.len() == 13);
    assert("moe_prefill_ep"@.len() == 14);
    assert("moe_pf_atomic"@[0] != "gemv_prefetch"@[0]);
}

proof fn operand_fields_are_there(m: Map<Seq<char>, JsonView>, f: Features, x: Seq<char>)
    ensures
        operand_fields(m, f).dom().contains("quant_glu_fold"@) && operand_fields(m, f)["quant_glu_fold"@] == JsonView::Bool(f.quant_glu_fold),
        operand_fields(m, f).dom().contains("mla_pf_ns"@) && operand_fields(m, f)["mla_pf_ns"@] == JsonView::Bool(f.mla_pf_ns),
        operand_fields(m, f).dom().contains("glm_ofold"@) && operand_fields(m, f)["glm_ofold"@] == JsonView::Bool(f.glm_ofold),
        operand_fields(m, f).dom().contains("glm_fuse_rope"@) && operand_fields(m, f)["glm_fuse_rope"@] == JsonView::Bool(f.glm_fuse_rope),
        operand_fields(m, f).dom().contains("glm_fuse_qnorm"@) && operand_fields(m, f)["glm_fuse_qnorm"@] == JsonView::Bool(f.glm_fuse_qnorm),
        operand_fields(m, f).dom().contains("linear_bias"@) && operand_fields(m, f)["linear_bias"@] == JsonView::Bool(f.linear_bias),
        operand_fields(m, f).dom().contains("rope_half_hd64"@) && operand_fields(m, f)["rope_half_hd64"@] == JsonView::Bool(f.rope_half_hd64),
        operand_fields(m, f).dom().contains("attention_sinks"@) && operand_fields(m, f)["attention_sinks"@] == JsonView::Bool(f.attention_sinks),
        (x != "quant_glu_fold"@ && x != "mla_pf_ns"@ && x != "glm_ofold"@ && x != "glm_fuse_rope"@ && x != "glm_fuse_qnorm"@ && x != "linear_bias"@ && x != "rope_half_hd64"@ && x != "attention_sinks"@) ==> (operand_fields(m, f).dom().contains(x) == m.dom().contains(x)
            && operand_fields(m, f)[x] == m[x]),
{
    reveal(operand_fields);
    reveal_strlit("quant_glu_fold");
    reveal_strlit("mla_pf_ns");
    reveal_strlit("glm_ofold");
    reveal_strlit("glm_fuse_rope");
    reveal_strlit("glm_fuse_qnorm");
    reveal_strlit("linear_bias");
    reveal_strlit("rope_half_hd64");
    reveal_strlit("attention_sinks");
    assert("quant_glu_fold"@.len() == 14);
    assert("mla_pf_ns"@.len() == 9);
    assert("glm_ofold"@.len() == 9);
    assert("glm_fuse_rope"@.len() == 13);
    assert("glm_fuse_qnorm"@.len() == 14);
    assert("linear_bias"@.len() == 11);
    assert("rope_half_hd64"@.len() == 14);
    assert("attention_sinks"@.len() == 15);
    assert("quant_glu_fold"@[0] != "glm_fuse_qnorm"@[0]);
    assert("quant_glu_fold"@[0] != "rope_half_hd64"@[0]);
    assert("mla_pf_ns"@[0] != "glm_ofold"@[0]);
    assert("glm_fuse_qnorm"@[0] != "rope_half_hd64"@[0]);
}

/// Every capability stands in the document under its own name.
pub proof fn capabilities_stand_under_their_names(f: Features)
    ensures
        member(features_view(f), "fp8_kv"@) == Some(JsonView::Bool(f.fp8_kv)),
        member(features_view(f), "fp8_weights"@) == Some(JsonView::Bool(f.fp8_weights)),
        member(features_view(f), "w8a8"@) == Some(JsonView::Bool(f.w8a8)),
        member(features_view(f), "qwen_gdn"@) == Some(JsonView::Bool(f.qwen_gdn)),
        member(features_view(f), "moe"@) == Some(JsonView::Bool(f.moe)),
        member(features_view(f), "mla"@) == Some(JsonView::Bool(f.mla)),
        member(features_view(f), "mamba"@) == Some(JsonView::Bool(f.mamba)),
        member(features_view(f), "tensor_parallel"@) == Some(JsonView::Bool(f.tensor_parallel)),
        member(features_view(f), "prefill"@) == Some(JsonView::Bool(f.prefill)),
        member(features_view(f), "moe_prefill"@) == Some(JsonView::Bool(f.moe_prefill)),
        member(features_view(f), "materialized_residual_input"@) == Some(JsonView::Bool(f.materialized_residual_input)),
        member(features_view(f), "attnres_decode_mwg"@) == Some(JsonView::Bool(f.attnres_decode_mwg)),
        member(features_view(f), "a4w4"@) == Some(JsonView::Bool(f.a4w4)),
        member(features_view(f), "mxfp4_weights"@) == Some(JsonView::Bool(f.mxfp4_weights)),
        member(features_view(f), "moe_enc_mixed"@) == Some(JsonView::Bool(f.moe_enc_mixed)),
        member(features_view(f), "moe_pf_part16"@) == Some(JsonView::Bool(f.moe_pf_part16)),
        member(features_view(f), "moe_pf_atomic"@) == Some(JsonView::Bool(f.moe_pf_atomic)),
        member(features_view(f), "moe_pf_det"@) == Some(JsonView::Bool(f.moe_pf_det)),
        member(features_view(f), "moe_pf_a8"@) == Some(JsonView::Bool(f.moe_pf_a8)),
        member(features_view(f), "xr_combine_fold"@) == Some(JsonView::Bool(f.xr_combine_fold)),
        member(features_view(f), "kda_fb_fold"@) == Some(JsonView::Bool(f.kda_fb_fold)),
        member(features_view(f), "kda_decode_fused_arm"@) == Some(JsonView::Bool(f.kda_decode_fused_arm)),
        member(features_view(f), "gemv_prefetch"@) == Some(JsonView::Bool(f.gemv_prefetch)),
        member(features_view(f), "moe_prefill_ep"@) == Some(JsonView::Bool(f.moe_prefill_ep)),
        member(features_view(f), "quant_glu_fold"@) == Some(JsonView::Bool(f.quant_glu_fold)),
        member(features_view(f), "mla_pf_ns"@) == Some(JsonView::Bool(f.mla_pf_ns)),
        member(features_view(f), "glm_ofold"@) == Some(JsonView::Bool(f.glm_ofold)),
        member(features_view(f), "glm_fuse_rope"@) == Some(JsonView::Bool(f.glm_fuse_rope)),
        member(features_view(f), "glm_fuse_qnorm"@) == Some(JsonView::Bool(f.glm_fuse_qnorm)),
        member(features_view(f), "linear_bias"@) == Some(JsonView::Bool(f.linear_bias)),
        member(features_view(f), "rope_half_hd64"@) == Some(JsonView::Bool(f.rope_half_hd64)),
        member(features_view(f), "attention_sinks"@) == Some(JsonView::Bool(f.attention_sinks)),
{
    let a = arm_fields(Map::empty(), f);
    let b = encoding_fields(a, f);
    let c = prefill_fields(b, f);
    let d = operand_fields(c, f);
    reveal_strlit("fp8_kv");
    reveal_strlit("fp8_weights");
    reveal_strlit("w8a8");
    reveal_strlit("qwen_gdn");
    reveal_strlit("moe");
    reveal_strlit("mla");
    reveal_strlit("mamba");
    reveal_strlit("tensor_parallel");
    reveal_strlit("prefill");
    reveal_strlit("moe_prefill");
    reveal_strlit("materialized_residual_input");
    reveal_strlit("attnres_decode_mwg");
    reveal_strlit("a4w4");
    reveal_strlit("mxfp4_weights");
    reveal_strlit("moe_enc_mixed");
    reveal_strlit("moe_pf_part16");
    reveal_strlit("moe_pf_atomic");
    reveal_strlit("moe_pf_det");
    reveal_strlit("moe_pf_a8");
    reveal_strlit("xr_combine_fold");
    reveal_strlit("kda_fb_fold");
    reveal_strlit("kda_decode_fused_arm");
    reveal_strlit("gemv_prefetch");
    reveal_strlit("moe_prefill_ep");
    reveal_strlit("quant_glu_fold");
    reveal_strlit("mla_pf_ns");
    reveal_strlit("glm_ofold");
    reveal_strlit("glm_fuse_rope");
    reveal_strlit("glm_fuse_qnorm");
    reveal_strlit("linear_bias");
    reveal_strlit("rope_half_hd64");
    reveal_strlit("attention_sinks");
    assert("fp8_kv"@.len() == 6);
    assert("fp8_weights"@.len() == 11);
    assert("w8a8"@.len() == 4);
    assert("qwen_gdn"@.len() == 8);
    assert("moe"@.len() == 3);
    assert("mla"@.len() == 3);
    assert("mamba"@.len() == 5);
    assert("tensor_parallel"@.len() == 15);
    assert("prefill"@.len() == 7);
    assert("moe_prefill"@.len() == 11);
    assert("materialized_residual_input"@.len() == 27);
    assert("attnres_decode_mwg"@.len() == 18);
    assert("a4w4"@.len() == 4);
    assert("mxfp4_weights"@.len() == 13);
    assert("moe_enc_mixed"@.len() == 13);
    assert("moe_pf_part16"@.len() == 13);
    assert("moe_pf_atomic"@.len() == 13);
    assert("moe_pf_det"@.len() == 10);
    assert("moe_pf_a8"@.len() == 9);
    assert("xr_combine_fold"@.len() == 15);
    assert("kda_fb_fold"@.len() == 11);
    assert("kda_decode_fused_arm"@.len() == 20);
    assert("gemv_prefetch"@.len() == 13);
    assert("moe_prefill_ep"@.len() == 14);
    assert("quant_glu_fold"@.len() == 14);
    assert("mla_pf_ns"@.len() == 9);
    assert("glm_ofold"@.len() == 9);
    assert("glm_fuse_rope"@.len() == 13);
    assert("glm_fuse_qnorm"@.len() == 14);
    assert("linear_bias"@.len() == 11);
    assert("rope_half_hd64"@.len() == 14);
    assert("attention_sinks"@.len() == 15);
    assert("fp8_weights"@[0] != "moe_prefill"@[0]);
    assert("w8a8"@[0] != "a4w4"@[0]);
    assert("fp8_weights"@[0] != "kda_fb_fold"@[0]);
    assert("tensor_parallel"@[0] != "xr_combine_fold"@[0]);
    assert("fp8_weights"@[0] != "linear_bias"@[0]);
    assert("tensor_parallel"@[0] != "attention_sinks"@[0]);
    assert("moe_prefill"@[0] != "kda_fb_fold"@[0]);
    assert("mxfp4_weights"@[1] != "moe_pf_atomic"@[1]);
    assert("mxfp4_weights"@[0] != "gemv_prefetch"@[0]);
    assert("moe_enc_mixed"@[4] != "moe_pf_atomic"@[4]);
    assert("moe_enc_mixed"@[0] != "gemv_prefetch"@[0]);
    assert("moe_pf_part16"@[7] != "moe_pf_atomic"@[7]);
    assert("moe_pf_part16"@[0] != "gemv_prefetch"@[0]);
    assert("moe_prefill"@[0] != "linear_bias"@[0]);
    assert("mxfp4_weights"@[0] != "glm_fuse_rope"@[0]);
    assert("moe_enc_mixed"@[0] != "glm_fuse_rope"@[0]);
    assert("moe_pf_part16"@[0] != "glm_fuse_rope"@[0]);
    assert("moe_pf_atomic"@[0] != "glm_fuse_rope"@[0]);
    assert("moe_pf_a8"@[1] != "mla_pf_ns"@[1]);
    assert("moe_pf_a8"@[0] != "glm_ofold"@[0]);
    assert("xr_combine_fold"@[0] != "attention_sinks"@[0]);
    assert("kda_fb_fold"@[0] != "linear_bias"@[0]);
    assert("gemv_prefetch"@[1] != "glm_fuse_rope"@[1]);
    assert("moe_prefill_ep"@[0] != "quant_glu_fold"@[0]);
    assert("moe_prefill_ep"@[0] != "glm_fuse_qnorm"@[0]);
    assert("moe_prefill_ep"@[0] != "rope_half_hd64"@[0]);
    arm_fields_are_there(Map::empty(), f, "fp8_kv"@);
    arm_fields_are_there(Map::empty(), f, "fp8_weights"@);
    arm_fields_are_there(Map::empty(), f, "w8a8"@);
    arm_fields_are_there(Map::empty(), f, "qwen_gdn"@);
    arm_fields_are_there(Map::empty(), f, "moe"@);
    arm_fields_are_there(Map::empty(), f, "mla"@);
    arm_fields_are_there(Map::empty(), f, "mamba"@);
    arm_fields_are_there(Map::empty(), f, "tensor_parallel"@);
    encoding_fields_are_there(a, f, "fp8_kv"@);
    encoding_fields_are_there(a, f, "fp8_weights"@);
    encoding_fields_are_there(a, f, "w8a8"@);
    encoding_fields_are_there(a, f, "qwen_gdn"@);
    encoding_fields_are_there(a, f, "moe"@);
    encoding_fields_are_there(a, f, "mla"@);
    encoding_fields_are_there(a, f, "mamba"@);
    encoding_fields_are_there(a, f, "tensor_parallel"@);
    encoding_fields_are_there(a, f, "prefill"@);
    encoding_fields_are_there(a, f, "moe_prefill"@);
    encoding_fields_are_there(a, f, "materialized_residual_input"@);
    encoding_fields_are_there(a, f, "attnres_decode_mwg"@);
    encoding_fields_are_there(a, f, "a4w4"@);
    encoding_fields_are_there(a, f, "mxfp4_weights"@);
    encoding_fields_are_there(a, f, "moe_enc_mixed"@);
    encoding_fields_are_there(a, f, "moe_pf_part16"@);
    prefill_fields_are_there(b, f, "fp8_kv"@);
    prefill_fields_are_there(b, f, "fp8_weights"@);
    prefill_fields_are_there(b, f, "w8a8"@);
    prefill_fields_are_there(b, f, "qwen_gdn"@);
    prefill_fields_are_there(b, f, "moe"@);
    prefill_fields_are_there(b, f, "mla"@);
    prefill_fields_are_there(b, f, "mamba"@);
    prefill_fields_are_there(b, f, "tensor_parallel"@);
    prefill_fields_are_there(b, f, "prefill"@);
    prefill_fields_are_there(b, f, "moe_prefill"@);
    prefill_fields_are_there(b, f, "materialized_residual_input"@);
    prefill_fields_are_there(b, f, "attnres_decode_mwg"@);
    prefill_fields_are_there(b, f, "a4w4"@);
    prefill_fields_are_there(b, f, "mxfp4_weights"@);
    prefill_fields_are_there(b, f, "moe_enc_mixed"@);
    prefill_fields_are_there(b, f, "moe_pf_part16"@);
    prefill_fields_are_there(b, f, "moe_pf_atomic"@);
    prefill_fields_are_there(b, f, "moe_pf_det"@);
    prefill_fields_are_there(b, f, "moe_pf_a8"@);
    prefill_fields_are_there(b, f, "xr_combine_fold"@);
    prefill_fields_are_there(b, f, "kda_fb_fold"@);
    prefill_fields_are_there(b, f, "kda_decode_fused_arm"@);
    prefill_fields_are_there(b, f, "gemv_prefetch"@);
    prefill_fields_are_there(b, f, "moe_prefill_ep"@);
    operand_fields_are_there(c, f, "fp8_kv"@);
    operand_fields_are_there(c, f, "fp8_weights"@);
    operand_fields_are_there(c, f, "w8a8"@);
    operand_fields_are_there(c, f, "qwen_gdn"@);
    operand_fields_are_there(c, f, "moe"@);
    operand_fields_are_there(c, f, "mla"@);
    operand_fields_are_there(c, f, "mamba"@);
    operand_fields_are_there(c, f, "tensor_parallel"@);
    operand_fields_are_there(c, f, "prefill"@);
    operand_fields_are_there(c, f, "moe_prefill"@);
    operand_fields_are_there(c, f, "materialized_residual_input"@);
    operand_fields_are_there(c, f, "attnres_decode_mwg"@);
    operand_fields_are_there(c, f, "a4w4"@);
    operand_fields_are_there(c, f, "mxfp4_weights"@);
    operand_fields_are_there(c, f, "moe_enc_mixed"@);
    operand_fields_are_there(c, f, "moe_pf_part16"@);
    operand_fields_are_there(c, f, "moe_pf_atomic"@);
    operand_fields_are_there(c, f, "moe_pf_det"@);
    operand_fields_are_there(c, f, "moe_pf_a8"@);
    operand_fields_are_there(c, f, "xr_combine_fold"@);
    operand_fields_are_there(c, f, "kda_fb_fold"@);
    operand_fields_are_there(c, f, "kda_decode_fused_arm"@);
    operand_fields_are_there(c, f, "gemv_prefetch"@);
    operand_fields_are_there(c, f, "moe_prefill_ep"@);
    operand_fields_are_there(c, f, "quant_glu_fold"@);
    operand_fields_are_there(c, f, "mla_pf_ns"@);
    operand_fields_are_there(c, f, "glm_ofold"@);
    operand_fields_are_there(c, f, "glm_fuse_rope"@);
    operand_fields_are_there(c, f, "glm_fuse_qnorm"@);
    operand_fields_are_there(c, f, "linear_bias"@);
    operand_fields_are_there(c, f, "rope_half_hd64"@);
    operand_fields_are_there(c, f, "attention_sinks"@);
}

/// Experts have one precision where their operands say one thing: none 0, blocks of fp8 1, MXFP4 2.
/// Several things, or another number, are a mixture, and no experts are none.
pub proof fn experts_have_the_precision_they_say(v: u32, encs: Seq<u32>)
    ensures
        expert_precision(seq![v]) == Precision::Bf16 <==> v == 0,
        expert_precision(seq![v]) == Precision::Fp8Blk <==> v == 1,
        expert_precision(seq![v]) == Precision::Mxfp4 <==> v == 2,
        expert_precision(seq![v]) == Precision::Mixed <==> v > 2,
        encs.len() == 0 <==> expert_precision(encs) == Precision::Absent,
        encs.len() > 1 ==> expert_precision(encs) == Precision::Mixed,
{
}

/// The four precisions stand under their own names, each by itself, in their usual spelling.
pub proof fn precisions_stand_under_their_names(a: Axes, p: Precision)
    ensures
        member(axes_view(a), "weight_enc"@) == Some(JsonView::Str(precision_text(a.weight_enc))),
        member(axes_view(a), "act_enc"@) == Some(JsonView::Str(precision_text(a.act_enc))),
        member(axes_view(a), "kv_enc"@) == Some(JsonView::Str(precision_text(a.kv_enc))),
        member(axes_view(a), "expert_enc"@) == Some(JsonView::Str(precision_text(a.expert_enc))),
        p == Precision::Bf16 ==> precision_text(p) == "bf16"@,
        p == Precision::Fp8 ==> precision_text(p) == "fp8"@,
        p == Precision::Mxfp4 ==> precision_text(p) == "mxfp4"@,
        p == Precision::Fp8Blk ==> precision_text(p) == "fp8blk"@,
        p == Precision::Mixed ==> precision_text(p) == "mixed"@,
        p == Precision::Absent ==> precision_text(p) == "none"@,
{
    reveal_strlit("weight_enc");
    reveal_strlit("act_enc");
    reveal_strlit("kv_enc");
    reveal_strlit("expert_enc");
    assert("weight_enc"@.len() == 10);
    assert("act_enc"@.len() == 7);
    assert("kv_enc"@.len() == 6);
    assert("expert_enc"@.len() == 10);
    assert("weight_enc"@[0] != "expert_enc"@[0]);
}

} // verus!
