//! What holds of every dense model.
use vstd::prelude::*;

use crate::config::Cfg;
use crate::declare::{narrow_activations_have_scales, sizes_of, RopeBytes};
use crate::declare_laws::narrow_copies_are_their_own;
use crate::dense::{
    asked, declare_for, declared, emits_at, emitted_to, fresh, is_model, progs_view, widths_of,
    DenseFor, Model, TmapBytes,
};
use crate::dense_phase::program;
use crate::emit_config::EmitConfig;
use crate::finish::runs_on;
use crate::gate::{
    dispatched, foreign_tiles, lacks_scale, none_in, offenders_are_exact, routes_in_groups, unarmed,
};
use crate::gemm::{priced_only, TileTable};
use crate::isa::{insts_view, DevOp, InstView};
use crate::phase::{phase_of, Request};
use crate::program_laws::{
    all_allowed, allowed, carries_mx, copies_are_current, gates_differ,
    narrow_tiles_are_the_narrow_rungs, programs_are_sound, rules_hold, waits_earlier, Rules,
};
use crate::tensors::{Tensors, Tn};

verus! {

/// Each program of a model is emitted by itself, behind nothing but the tensor maps of those before.
pub proof fn emitted_program(
    k: EmitConfig,
    c: Cfg,
    tab: TileTable,
    rs: Seq<Request>,
    tn: Tensors,
    ls: Seq<u32>,
    base: u32,
    n: int,
    i: int,
)
    requires
        0 <= i < n,
    ensures
        emitted_to(k, c, tab, rs, tn, ls, base, n).progs.len() == n,
        emitted_to(k, c, tab, rs, tn, ls, base, n).progs[i] == program(
            fresh(emitted_to(k, c, tab, rs, tn, ls, base, i).tmaps),
            k,
            c,
            tab,
            rs[i],
            tn,
            ls,
        ).insts,
    decreases n,
{
    if i < n - 1 {
        emitted_program(k, c, tab, rs, tn, ls, base, n - 1, i);
    } else if n > 1 {
        emitted_program(k, c, tab, rs, tn, ls, base, n - 1, 0);
    } else {
        reveal_with_fuel(emitted_to, 2);
    }
}

/// What a model's instructions are held to. Narrow tiled products have an activation scale where
/// the activations of every tiled program are narrow too.
pub open spec fn rules_of(k: EmitConfig, f: DenseFor) -> Rules {
    Rules {
        priced: f.priced,
        scaled: k.fp8 ==> k.w8a8 && !k.decode_tiled,
        argmax: k.fuse_argmax,
        mx: false,
        fresh: false,
        hn: 0,
        xn2: 0,
        xqh: 0,
    }
}

/// Every program of an emitted model waits for earlier instructions only, gives no two collectives
/// one gate, and keeps to the rules. Where four-bit weights were asked for, each has products of
/// them: none is silently a program of bf16 weights.
pub proof fn models_are_sound(
    m: Model,
    k: EmitConfig,
    c: Cfg,
    tab: TileTable,
    f: DenseFor,
    ls: Seq<u32>,
    wave: Seq<u32>,
    rope: RopeBytes,
    b: TmapBytes,
    tn: Tensors,
    i: int,
)
    requires
        is_model(m, k, c, tab, f, ls, wave, rope, b, tn),
        0 <= i < m.progs@.len(),
    ensures
        m.progs@.len() == asked(k, c, f, wave).len(),
        waits_earlier(insts_view(m.progs@[i].insts@)),
        gates_differ(insts_view(m.progs@[i].insts@)),
        all_allowed(rules_of(k, f), insts_view(m.progs@[i].insts@)),
        k.mxfp4 && f.first < f.end ==> carries_mx(insts_view(m.progs@[i].insts@)),
{
    reveal(is_model);
    let rs = asked(k, c, f, wave);
    let d = declare_for(k, c, f, widths_of(k, c, f, wave));
    let base = declared(k, c, f, wave, rope).len() as u32;
    let e = emitted_to(k, c, tab, rs, tn, ls, base, rs.len() as int);
    assert(progs_view(m.progs@)[i] == insts_view(m.progs@[i].insts@));
    assert(e.progs.len() == m.progs@.len());
    if rs.len() > 0 {
        emitted_program(k, c, tab, rs, tn, ls, base, rs.len() as int, 0);
    }
    emitted_program(k, c, tab, rs, tn, ls, base, rs.len() as int, i);
    assert(emits_at(k, c, tab, rs, tn, ls, base, i));
    if k.w8a8 {
        narrow_activations_have_scales(k, c, d, sizes_of(k, c, f.n_cu, d), rope);
    }
    assert(rules_hold(
        rules_of(k, f),
        phase_of(k, c, tab, tn.shared.xr, rs[i]),
        tn.shared,
    )) by {
        reveal(phase_of);
    }
    programs_are_sound(
        rules_of(k, f),
        fresh(emitted_to(k, c, tab, rs, tn, ls, base, i).tmaps),
        k,
        c,
        tab,
        rs[i],
        tn,
        ls,
    );
}

/// A model of narrow weights and activations, or of neither, has the activation scale of every
/// narrow product, so long as its decode steps run on row products.
pub proof fn scaled_models_lack_no_scale(
    m: Model,
    k: EmitConfig,
    c: Cfg,
    tab: TileTable,
    f: DenseFor,
    ls: Seq<u32>,
    wave: Seq<u32>,
    rope: RopeBytes,
    b: TmapBytes,
    tn: Tensors,
)
    requires
        is_model(m, k, c, tab, f, ls, wave, rope, b, tn),
        k.fp8 ==> k.w8a8 && !k.decode_tiled,
    ensures
        none_in(progs_view(m.progs@), |i: InstView| lacks_scale(i)),
{
    let progs = progs_view(m.progs@);
    assert forall|p: int, i: int| 0 <= p < progs.len() && 0 <= i < progs[p].len() implies !lacks_scale(
        #[trigger] progs[p][i],
    ) by {
        models_are_sound(m, k, c, tab, f, ls, wave, rope, b, tn, p);
        assert(allowed(rules_of(k, f), insts_view(m.progs@[p].insts@)[i]));
        narrow_tiles_are_the_narrow_rungs(progs[p][i].op);
    }
}

/// Every opcode of a model has an arm on an AMD target, but for that of a head that finds the
/// largest logit.
pub proof fn models_have_their_arms(
    m: Model,
    k: EmitConfig,
    c: Cfg,
    tab: TileTable,
    f: DenseFor,
    ls: Seq<u32>,
    wave: Seq<u32>,
    rope: RopeBytes,
    b: TmapBytes,
    tn: Tensors,
)
    requires
        is_model(m, k, c, tab, f, ls, wave, rope, b, tn),
    ensures
        forall|op: DevOp| #[trigger]
            unarmed(progs_view(m.progs@)).contains(op) ==> op == DevOp::GemvArgmax && k.fuse_argmax,
{
    let progs = progs_view(m.progs@);
    assert forall|op: DevOp| #[trigger] unarmed(progs).contains(op) implies op == DevOp::GemvArgmax
        && k.fuse_argmax by {
        offenders_are_exact(progs, |op: DevOp| !dispatched(op), progs.len() as int, op);
        let (p, i) = choose|p: int, i: int|
            0 <= p < progs.len() && 0 <= i < progs[p].len() && (#[trigger] progs[p][i]).op == op;
        models_are_sound(m, k, c, tab, f, ls, wave, rope, b, tn, p);
        assert(allowed(rules_of(k, f), insts_view(m.progs@[p].insts@)[i]));
    }
}

/// A model for a target whose tiles are not priced passes that target's check: it carries no tile
/// that the target does not have.
pub proof fn unpriced_models_carry_no_foreign_tile(
    m: Model,
    k: EmitConfig,
    c: Cfg,
    tab: TileTable,
    f: DenseFor,
    ls: Seq<u32>,
    wave: Seq<u32>,
    rope: RopeBytes,
    b: TmapBytes,
    tn: Tensors,
)
    requires
        is_model(m, k, c, tab, f, ls, wave, rope, b, tn),
        !f.priced,
    ensures
        foreign_tiles(progs_view(m.progs@)).len() == 0,
{
    let progs = progs_view(m.progs@);
    let bad = foreign_tiles(progs);
    if bad.len() > 0 {
        let op = bad[0];
        assert(bad.contains(op));
        offenders_are_exact(progs, |op: DevOp| priced_only(op), progs.len() as int, op);
        let (p, i) = choose|p: int, i: int|
            0 <= p < progs.len() && 0 <= i < progs[p].len() && (#[trigger] progs[p][i]).op == op;
        models_are_sound(m, k, c, tab, f, ls, wave, rope, b, tn, p);
        assert(allowed(rules_of(k, f), insts_view(m.progs@[p].insts@)[i]));
    }
}

/// A dense model passes the last checks of its target: of an AMD target with priced tiles or of
/// another without. Left out are what an AMD target is refused: narrow tiled products whose
/// activations are wide, and a head that finds the largest logit.
pub proof fn models_run_on_their_target(
    m: Model,
    k: EmitConfig,
    c: Cfg,
    tab: TileTable,
    f: DenseFor,
    ls: Seq<u32>,
    wave: Seq<u32>,
    rope: RopeBytes,
    b: TmapBytes,
    tn: Tensors,
)
    requires
        is_model(m, k, c, tab, f, ls, wave, rope, b, tn),
        f.amd ==> (k.fp8 ==> k.w8a8 && !k.decode_tiled) && !k.fuse_argmax,
        !f.amd ==> !f.priced,
    ensures
        runs_on(progs_view(m.progs@), f.amd),
{
    let progs = progs_view(m.progs@);
    if f.amd {
        scaled_models_lack_no_scale(m, k, c, tab, f, ls, wave, rope, b, tn);
        models_have_their_arms(m, k, c, tab, f, ls, wave, rope, b, tn);
        if unarmed(progs).len() > 0 {
            assert(unarmed(progs).contains(unarmed(progs)[0]));
        }
    } else {
        unpriced_models_carry_no_foreign_tile(m, k, c, tab, f, ls, wave, rope, b, tn);
        assert forall|p: int, i: int|
            0 <= p < progs.len() && 0 <= i < progs[p].len() implies !routes_in_groups(
            #[trigger] progs[p][i],
        ) by {
            models_are_sound(m, k, c, tab, f, ls, wave, rope, b, tn, p);
            assert(allowed(rules_of(k, f), insts_view(m.progs@[p].insts@)[i]));
        }
    }
}

/// The rules of a model, with those of the copies that its narrow products read.
pub open spec fn copy_rules(k: EmitConfig, f: DenseFor, n: Tn) -> Rules {
    Rules { fresh: true, hn: n.hn, xn2: n.moe_xn2, xqh: n.xqh, ..rules_of(k, f) }
}

/// No product of a model reads a stale narrow copy: in every program of narrow activations, each
/// product of the shared narrow copy waits for the instruction that wrote it, and nothing has
/// written the copy, or what it is a copy of, in between.
pub proof fn models_read_current_copies(
    m: Model,
    k: EmitConfig,
    c: Cfg,
    tab: TileTable,
    f: DenseFor,
    ls: Seq<u32>,
    wave: Seq<u32>,
    rope: RopeBytes,
    b: TmapBytes,
    tn: Tensors,
    i: int,
)
    requires
        is_model(m, k, c, tab, f, ls, wave, rope, b, tn),
        0 <= i < m.progs@.len(),
        asked(k, c, f, wave)[i].w8a8,
    ensures
        copies_are_current(copy_rules(k, f, tn.shared), insts_view(m.progs@[i].insts@)),
{
    reveal(is_model);
    let rs = asked(k, c, f, wave);
    let d = declare_for(k, c, f, widths_of(k, c, f, wave));
    let base = declared(k, c, f, wave, rope).len() as u32;
    let e = emitted_to(k, c, tab, rs, tn, ls, base, rs.len() as int);
    assert(progs_view(m.progs@)[i] == insts_view(m.progs@[i].insts@));
    if rs.len() > 0 {
        emitted_program(k, c, tab, rs, tn, ls, base, rs.len() as int, 0);
    }
    assert(e.progs.len() == m.progs@.len());
    emitted_program(k, c, tab, rs, tn, ls, base, rs.len() as int, i);
    assert(emits_at(k, c, tab, rs, tn, ls, base, i));
    narrow_activations_have_scales(k, c, d, sizes_of(k, c, f.n_cu, d), rope);
    narrow_copies_are_their_own(k, c, d, sizes_of(k, c, f.n_cu, d), rope);
    let u = copy_rules(k, f, tn.shared);
    assert(rules_hold(u, phase_of(k, c, tab, tn.shared.xr, rs[i]), tn.shared)) by {
        reveal(phase_of);
    }
    programs_are_sound(
        u,
        fresh(emitted_to(k, c, tab, rs, tn, ls, base, i).tmaps),
        k,
        c,
        tab,
        rs[i],
        tn,
        ls,
    );
}

/// Row products finish their own norm only in a program of row products whose gated product does.
pub proof fn a_folded_norm_has_its_product(k: EmitConfig, c: Cfg, tab: TileTable, xr: u32, q: Request)
    ensures
        phase_of(k, c, tab, xr, q).fuse_nrn ==> {
            let p = phase_of(k, c, tab, xr, q);
            p.gemv && p.stages && p.fp8
        },
{
    reveal(phase_of);
}

} // verus!
