//! What the settings of an emission are: what a command line gives, what was said of them, and what
//! production defaults to.
use vstd::prelude::*;

use crate::amd_target::{by_arch, in_force, resolved, AmdTarget, GpuSpec, Priced};
use crate::args::{
    all_digits, behind, digits_of, digits_value, nothing_read, number, scan, CliError, CliView,
};
use crate::declare::DeclView;
use crate::finish::{bytes_upto, cache_names, interpreters, segmenting_of, SegmentKnobs};
use crate::knobs::{
    heard, plain_knob, recipe, record_of, said_from, seam_knob, seam_proj_knob, source_text, switch,
    switch_of, KnobView, Said, Source,
};
use crate::mixed_step_emit::Format;
use crate::production::{
    capabilities_of, default_ladder, glm_target, packs_by_default, pure_gemm_by_default,
    qualified_groups, seams_on, set_or, vendor_decodes, EmitCapabilities, GlmKnobs,
    ProductionConfig,
};
use crate::route::priced_target;
use crate::target::IsaLevel;
use crate::text::{begins, dec, digit_char};

verus! {

proof fn written_in_digits(n: nat)
    ensures
        dec(n).len() > 0,
        all_digits(dec(n)),
        digits_value(dec(n)) == n,
    decreases n,
{
    reveal_with_fuel(digits_value, 2);
    if n < 10 {
        let s = dec(n);
        assert(s.drop_last() =~= Seq::<char>::empty());
        assert(s.last() == digit_char(n));
    } else {
        written_in_digits(n / 10);
        let s = dec(n);
        assert(s.drop_last() =~= dec(n / 10));
        assert(s.last() == digit_char(n % 10));
        assert forall|i: int| 0 <= i < s.len() implies '0' <= (#[trigger] s[i]) <= '9' by {
            if i < s.len() - 1 {
                assert(s[i] == dec(n / 10)[i]);
            }
        }
    }
}

/// A number is read as it is written; a plus sign before it changes nothing; a number that does not
/// fit 32 bits, nothing at all, and anything but digits are no numbers.
pub proof fn numbers_are_read_as_written(n: nat, s: Seq<char>, i: int)
    ensures
        n <= u32::MAX ==> number(dec(n)) == Some(n as u32),
        n > u32::MAX ==> number(dec(n)) is None,
        s.len() > 0 && s[0] != '+' ==> number(seq!['+'] + s) == number(s),
        number(Seq::empty()) is None,
        0 <= i < s.len() && (i > 0 || s[0] != '+') && !('0' <= s[i] <= '9') ==> number(s) is None,
{
    written_in_digits(n);
    assert(dec(n)[0] != '+') by {
        assert('0' <= dec(n)[0] <= '9');
    }
    assert(digits_of(dec(n)) == dec(n));
    let p = seq!['+'] + s;
    assert(p[0] == '+');
    assert(p.subrange(1, p.len() as int) =~= s);
    if 0 <= i < s.len() && (i > 0 || s[0] != '+') && !('0' <= s[i] <= '9') {
        let d = digits_of(s);
        if s[0] == '+' {
            assert(d[i - 1] == s[i]);
        } else {
            assert(d[i] == s[i]);
        }
    }
}

proof fn options_are_apart(a: Seq<char>)
    ensures
        a == "--tp"@ ==> !begins(a, "--tp="@) && !(a == "--block"@) && !begins(a, "--block="@) && !(a == "--embed-cubin"@) && !begins(a, "--embed-cubin="@) && !(a == "--embed-hsaco"@) && !begins(a, "--embed-hsaco="@),
        begins(a, "--tp="@) ==> !(a == "--tp"@) && !(a == "--block"@) && !begins(a, "--block="@) && !(a == "--embed-cubin"@) && !begins(a, "--embed-cubin="@) && !(a == "--embed-hsaco"@) && !begins(a, "--embed-hsaco="@),
        a == "--block"@ ==> !(a == "--tp"@) && !begins(a, "--tp="@) && !begins(a, "--block="@) && !(a == "--embed-cubin"@) && !begins(a, "--embed-cubin="@) && !(a == "--embed-hsaco"@) && !begins(a, "--embed-hsaco="@),
        begins(a, "--block="@) ==> !(a == "--tp"@) && !begins(a, "--tp="@) && !(a == "--block"@) && !(a == "--embed-cubin"@) && !begins(a, "--embed-cubin="@) && !(a == "--embed-hsaco"@) && !begins(a, "--embed-hsaco="@),
        a == "--embed-cubin"@ ==> !(a == "--tp"@) && !begins(a, "--tp="@) && !(a == "--block"@) && !begins(a, "--block="@) && !begins(a, "--embed-cubin="@) && !(a == "--embed-hsaco"@) && !begins(a, "--embed-hsaco="@),
        begins(a, "--embed-cubin="@) ==> !(a == "--tp"@) && !begins(a, "--tp="@) && !(a == "--block"@) && !begins(a, "--block="@) && !(a == "--embed-cubin"@) && !(a == "--embed-hsaco"@) && !begins(a, "--embed-hsaco="@),
        a == "--embed-hsaco"@ ==> !(a == "--tp"@) && !begins(a, "--tp="@) && !(a == "--block"@) && !begins(a, "--block="@) && !(a == "--embed-cubin"@) && !begins(a, "--embed-cubin="@) && !begins(a, "--embed-hsaco="@),
        begins(a, "--embed-hsaco="@) ==> !(a == "--tp"@) && !begins(a, "--tp="@) && !(a == "--block"@) && !begins(a, "--block="@) && !(a == "--embed-cubin"@) && !begins(a, "--embed-cubin="@) && !(a == "--embed-hsaco"@),
{
    reveal_strlit("--tp");
    reveal_strlit("--tp=");
    reveal_strlit("--block");
    reveal_strlit("--block=");
    reveal_strlit("--embed-cubin");
    reveal_strlit("--embed-cubin=");
    reveal_strlit("--embed-hsaco");
    reveal_strlit("--embed-hsaco=");
    assert("--tp"@.len() == 4);
    assert("--tp="@.len() == 5);
    assert("--block"@.len() == 7);
    assert("--block="@.len() == 8);
    assert("--embed-cubin"@.len() == 13);
    assert("--embed-cubin="@.len() == 14);
    assert("--embed-hsaco"@.len() == 13);
    assert("--embed-hsaco="@.len() == 14);
    assert("--embed-cubin"@[8] != "--embed-hsaco"@[8]);
    assert("--embed-cubin="@[8] != "--embed-hsaco="@[8]);
    if begins(a, "--tp="@) {
        let h = a.take(5);
        assert(h[2] == a[2]);
        assert(h[3] == a[3]);
        assert(h[4] == a[4]);
    }
    if begins(a, "--block="@) {
        let h = a.take(8);
        assert(h[2] == a[2]);
        assert(h[3] == a[3]);
        assert(h[4] == a[4]);
        assert(h[5] == a[5]);
        assert(h[6] == a[6]);
        assert(h[7] == a[7]);
    }
    if begins(a, "--embed-cubin="@) {
        let h = a.take(14);
        assert(h[2] == a[2]);
        assert(h[3] == a[3]);
        assert(h[4] == a[4]);
        assert(h[5] == a[5]);
        assert(h[6] == a[6]);
        assert(h[7] == a[7]);
        assert(h[8] == a[8]);
        assert(h[9] == a[9]);
        assert(h[10] == a[10]);
        assert(h[11] == a[11]);
        assert(h[12] == a[12]);
        assert(h[13] == a[13]);
    }
    if begins(a, "--embed-hsaco="@) {
        let h = a.take(14);
        assert(h[2] == a[2]);
        assert(h[3] == a[3]);
        assert(h[4] == a[4]);
        assert(h[5] == a[5]);
        assert(h[6] == a[6]);
        assert(h[7] == a[7]);
        assert(h[8] == a[8]);
        assert(h[9] == a[9]);
        assert(h[10] == a[10]);
        assert(h[11] == a[11]);
        assert(h[12] == a[12]);
        assert(h[13] == a[13]);
    }
}

/// `--block` takes the next argument, or what stands behind an equals sign, and sets nothing else.
pub proof fn block_is_an_option(argv: Seq<Seq<char>>, s: CliView, i: int, v: Seq<char>)
    requires
        0 <= i < argv.len(),
    ensures
        argv[i] == "--block"@ && i + 1 < argv.len() && argv[i + 1] == v ==> scan(argv, s, i) == scan(
            argv,
            (CliView { block: Some(v), ..s }),
            i + 2,
        ),
        argv[i] == "--block="@ + v ==> scan(argv, s, i) == scan(
            argv,
            (CliView { block: Some(v), ..s }),
            i + 1,
        ),
        argv[i] == "--block"@ && i + 1 == argv.len() ==> scan(argv, s, i) == Err::<CliView, CliError>(
            CliError::MissingValue,
        ),
{
    options_are_apart(argv[i]);
    reveal_strlit("--block=");
    let a = "--block="@ + v;
    if argv[i] == a {
        assert(a.take(8) =~= "--block="@);
        assert(behind(a, 8) =~= v);
    }
}

/// `--embed-cubin` takes the next argument, or what stands behind an equals sign, and sets nothing else.
pub proof fn cubin_is_an_option(argv: Seq<Seq<char>>, s: CliView, i: int, v: Seq<char>)
    requires
        0 <= i < argv.len(),
    ensures
        argv[i] == "--embed-cubin"@ && i + 1 < argv.len() && argv[i + 1] == v ==> scan(argv, s, i) == scan(
            argv,
            (CliView { cubin: Some(v), ..s }),
            i + 2,
        ),
        argv[i] == "--embed-cubin="@ + v ==> scan(argv, s, i) == scan(
            argv,
            (CliView { cubin: Some(v), ..s }),
            i + 1,
        ),
        argv[i] == "--embed-cubin"@ && i + 1 == argv.len() ==> scan(argv, s, i) == Err::<CliView, CliError>(
            CliError::MissingValue,
        ),
{
    options_are_apart(argv[i]);
    reveal_strlit("--embed-cubin=");
    let a = "--embed-cubin="@ + v;
    if argv[i] == a {
        assert(a.take(14) =~= "--embed-cubin="@);
        assert(behind(a, 14) =~= v);
    }
}

/// `--embed-hsaco` takes the next argument, or what stands behind an equals sign, and sets nothing else.
pub proof fn hsaco_is_an_option(argv: Seq<Seq<char>>, s: CliView, i: int, v: Seq<char>)
    requires
        0 <= i < argv.len(),
    ensures
        argv[i] == "--embed-hsaco"@ && i + 1 < argv.len() && argv[i + 1] == v ==> scan(argv, s, i) == scan(
            argv,
            (CliView { hsaco: Some(v), ..s }),
            i + 2,
        ),
        argv[i] == "--embed-hsaco="@ + v ==> scan(argv, s, i) == scan(
            argv,
            (CliView { hsaco: Some(v), ..s }),
            i + 1,
        ),
        argv[i] == "--embed-hsaco"@ && i + 1 == argv.len() ==> scan(argv, s, i) == Err::<CliView, CliError>(
            CliError::MissingValue,
        ),
{
    options_are_apart(argv[i]);
    reveal_strlit("--embed-hsaco=");
    let a = "--embed-hsaco="@ + v;
    if argv[i] == a {
        assert(a.take(14) =~= "--embed-hsaco="@);
        assert(behind(a, 14) =~= v);
    }
}

/// `--tp` takes a number, as the next argument or behind an equals sign, and sets the devices; what
/// is no number is refused.
pub proof fn devices_are_an_option(argv: Seq<Seq<char>>, s: CliView, i: int, v: Seq<char>)
    requires
        0 <= i < argv.len(),
        (argv[i] == "--tp"@ && i + 1 < argv.len() && argv[i + 1] == v) || argv[i] == "--tp="@ + v,
    ensures
        ({
            let next = if argv[i] == "--tp"@ { i + 2 } else { i + 1 };
            match number(v) {
                Some(n) => scan(argv, s, i) == scan(argv, (CliView { tp: n, ..s }), next),
                None => scan(argv, s, i) == Err::<CliView, CliError>(CliError::Devices),
            }
        }),
{
    options_are_apart(argv[i]);
    reveal_strlit("--tp=");
    reveal_strlit("--tp");
    let a = "--tp="@ + v;
    assert(a.len() >= 5);
    if argv[i] == a {
        assert(a.take(5) =~= "--tp="@);
        assert(behind(a, 5) =~= v);
        assert("--tp"@.len() == 4);
    }
}

/// An argument that does not start with two dashes is a position, behind those before it; what was
/// read is what comes of the last argument; and before any there is one device, no file to embed, and
/// the layers that the environment names, where it names any.
pub proof fn other_arguments_are_positions(argv: Seq<Seq<char>>, s: CliView, i: int, e: Seq<char>)
    ensures
        0 <= i < argv.len() && (argv[i].len() < 2 || argv[i][0] != '-' || argv[i][1] != '-') ==> scan(
            argv,
            s,
            i,
        ) == scan(argv, (CliView { pos: s.pos.push(argv[i]), ..s }), i + 1),
        scan(argv, s, argv.len() as int) == Ok::<CliView, CliError>(s),
        ({
            let n = nothing_read(Some(e));
            &&& n.tp == 1 && n.cubin is None && n.hsaco is None && n.pos.len() == 0
            &&& e.len() > 0 ==> n.block == Some(e)
            &&& e.len() == 0 ==> n.block is None
            &&& nothing_read(None) == (CliView { block: None, ..n })
        }),
{
    if 0 <= i < argv.len() {
        let a = argv[i];
        reveal_strlit("--tp");
        reveal_strlit("--tp=");
        reveal_strlit("--block");
        reveal_strlit("--block=");
        reveal_strlit("--embed-cubin");
        reveal_strlit("--embed-cubin=");
        reveal_strlit("--embed-hsaco");
        reveal_strlit("--embed-hsaco=");
        assert(begins(a, "--tp="@) ==> a.take(5)[0] == a[0] && a.take(5)[1] == a[1]);
        assert(begins(a, "--block="@) ==> a.take(8)[0] == a[0] && a.take(8)[1] == a[1]);
        assert(begins(a, "--embed-cubin="@) ==> a.take(14)[0] == a[0] && a.take(14)[1] == a[1]);
        assert(begins(a, "--embed-hsaco="@) ==> a.take(14)[0] == a[0] && a.take(14)[1] == a[1]);
    }
    assert(nothing_read(None).pos =~= nothing_read(Some(e)).pos);
}

proof fn the_first_stands(v: Seq<Said>, id: Seq<char>, from: int, k: int)
    requires
        0 <= from <= k <= v.len(),
        forall|j: int| from <= j < k ==> (#[trigger] v[j]).id@ != id,
        k < v.len() ==> v[k].id@ == id,
    ensures
        k < v.len() ==> said_from(v, id, from) == Some(v[k].text@),
        k == v.len() ==> said_from(v, id, from) is None,
    decreases k - from,
{
    if from < k {
        the_first_stands(v, id, from + 1, k);
    }
}

/// What is said of a setting first stands; a command line goes before the environment, and what
/// neither says is not heard.
pub proof fn a_setting_is_what_was_said_first(
    cli: Seq<Said>,
    env: Seq<Said>,
    id: Seq<char>,
    k: int,
    l: int,
)
    requires
        0 <= k <= cli.len(),
        0 <= l <= env.len(),
        forall|j: int| 0 <= j < k ==> (#[trigger] cli[j]).id@ != id,
        forall|j: int| 0 <= j < l ==> (#[trigger] env[j]).id@ != id,
        k < cli.len() ==> cli[k].id@ == id,
        l < env.len() ==> env[l].id@ == id,
    ensures
        k < cli.len() ==> heard(cli, env, id) == Some((cli[k].text@, Source::Cli)),
        k == cli.len() && l < env.len() ==> heard(cli, env, id) == Some((env[l].text@, Source::Env)),
        k == cli.len() && l == env.len() ==> heard(cli, env, id) is None,
{
    the_first_stands(cli, id, 0, k);
    the_first_stands(env, id, 0, l);
}

/// A switch is on where it is said to be `true` or `1`, off where `false` or `0`, and not set by
/// anything else.
pub proof fn switches_have_four_words(t: Seq<char>)
    ensures
        switch("true"@) == Some(true),
        switch("1"@) == Some(true),
        switch("false"@) == Some(false),
        switch("0"@) == Some(false),
        t != "true"@ && t != "1"@ && t != "false"@ && t != "0"@ ==> switch(t) is None,
{
    reveal_strlit("true");
    reveal_strlit("1");
    reveal_strlit("false");
    reveal_strlit("0");
    assert("true"@.len() == 4);
    assert("1"@.len() == 1);
    assert("false"@.len() == 5);
    assert("0"@.len() == 1);
    assert("1"@[0] != "0"@[0]);
}

/// The sources are called what they are.
pub proof fn sources_are_called_what_they_are(s: Source)
    ensures
        s == Source::Cli ==> source_text(s) == "cli"@,
        s == Source::Env ==> source_text(s) == "env"@,
        s == Source::ProductionDefault ==> source_text(s) == "production_default"@,
        s == Source::Default ==> source_text(s) == "default"@,
{
}

/// Whether a recipe has a setting under a name, as it was set, on or off.
pub open spec fn has_knob(r: Seq<KnobView>, id: Seq<char>, set: Option<bool>, on: bool) -> bool {
    exists|i: int|
        0 <= i < r.len() && (#[trigger] r[i]).id == id && r[i].set == set && r[i].on == on
}

/// The recipe has each setting under its own name: on as it was set, and otherwise on where the
/// target is the qualified one. The seams are on by default only where nothing is on that they take
/// the place of, and the projections at them only where the seams are.
pub proof fn settings_stand_under_their_names(g: GlmKnobs, q: bool)
    ensures
        recipe(g, q).len() == 13,
        has_knob(
            recipe(g, q),
            "glm_fp8_kv"@,
            g.fp8_kv,
            if g.fp8_kv is Some { g.fp8_kv->0 } else { q },
        ),
        has_knob(
            recipe(g, q),
            "glm_moe_aiter"@,
            g.moe_aiter,
            if g.moe_aiter is Some { g.moe_aiter->0 } else { q },
        ),
        has_knob(
            recipe(g, q),
            "glm_moe_resident"@,
            g.moe_resident,
            if g.moe_resident is Some { g.moe_resident->0 } else { q },
        ),
        has_knob(
            recipe(g, q),
            "glm_index_tp"@,
            g.index_tp,
            if g.index_tp is Some { g.index_tp->0 } else { q },
        ),
        has_knob(
            recipe(g, q),
            "glm_select_local"@,
            g.select_local,
            if g.select_local is Some { g.select_local->0 } else { q },
        ),
        has_knob(
            recipe(g, q),
            "glm_decode_norm_rows"@,
            g.decode_norm_rows,
            if g.decode_norm_rows is Some { g.decode_norm_rows->0 } else { q },
        ),
        has_knob(
            recipe(g, q),
            "glm_gemm_lt"@,
            g.gemm_lt,
            if g.gemm_lt is Some { g.gemm_lt->0 } else { q },
        ),
        has_knob(
            recipe(g, q),
            "glm_gemm_lt_decode"@,
            g.gemm_lt_decode,
            if g.gemm_lt_decode is Some { g.gemm_lt_decode->0 } else { q },
        ),
        has_knob(
            recipe(g, q),
            "glm_gemm_lt_decode_ext"@,
            g.gemm_lt_decode_ext,
            if g.gemm_lt_decode_ext is Some { g.gemm_lt_decode_ext->0 } else { q },
        ),
        has_knob(
            recipe(g, q),
            "glm_decode_gemm_group"@,
            g.decode_gemm_group,
            if g.decode_gemm_group is Some { g.decode_gemm_group->0 } else { q },
        ),
        has_knob(
            recipe(g, q),
            "glm_fold_lt"@,
            g.fold_lt,
            if g.fold_lt is Some { g.fold_lt->0 } else { q },
        ),
        ({
            let free = q && !g.xr_res && g.xr_band is None;
            let seams = if g.seq_par is Some { g.seq_par->0 } else { free };
            &&& has_knob(recipe(g, q), "glm_seq_par"@, g.seq_par, seams)
            &&& has_knob(
                recipe(g, q),
                "glm_seq_par_proj"@,
                g.seq_par_proj,
                if g.seq_par_proj is Some { g.seq_par_proj->0 } else { q && seams },
            )
            &&& seams_on(g, q) == seams
        }),
{
    reveal(plain_knob);
    reveal(seam_knob);
    reveal(seam_proj_knob);
    let r = recipe(g, q);
    assert(r[0].id == "glm_fp8_kv"@);
    assert(r[1].id == "glm_moe_aiter"@);
    assert(r[2].id == "glm_moe_resident"@);
    assert(r[3].id == "glm_index_tp"@);
    assert(r[4].id == "glm_select_local"@);
    assert(r[5].id == "glm_decode_norm_rows"@);
    assert(r[6].id == "glm_gemm_lt"@);
    assert(r[7].id == "glm_gemm_lt_decode"@);
    assert(r[8].id == "glm_gemm_lt_decode_ext"@);
    assert(r[9].id == "glm_decode_gemm_group"@);
    assert(r[10].id == "glm_fold_lt"@);
    assert(r[11].id == "glm_seq_par"@);
    assert(r[12].id == "glm_seq_par_proj"@);
}

/// What is recorded of a setting is what was said of it and by whom; of one that nothing was said of,
/// whether it is on, as production's default on the qualified target and as a plain one elsewhere.
pub proof fn records_say_what_was_said(k: KnobView, cli: Seq<Said>, env: Seq<Said>, q: bool)
    ensures
        record_of(k, cli, env, q).id == k.id,
        heard(cli, env, k.id) matches Some(h) ==> record_of(k, cli, env, q).value == h.0 && record_of(
            k,
            cli,
            env,
            q,
        ).source == h.1,
        heard(cli, env, k.id) is None ==> {
            let r = record_of(k, cli, env, q);
            &&& k.on ==> r.value == "true"@
            &&& !k.on ==> r.value == "false"@
            &&& q ==> r.source == Source::ProductionDefault
            &&& !q ==> r.source == Source::Default
        },
        switch_of(cli, env, k.id) == (if heard(cli, env, k.id) is Some {
            switch((heard(cli, env, k.id)->0).0)
        } else {
            None
        }),
{
}

/// Which families can be emitted with what. The dense ones are the six Gemmas, Llama and Qwen 3; Qwen
/// 3.5 has decode objects as they do, and the vendor's decode products as the Gemmas do; GPT-OSS has
/// a decode ladder as the dense ones do; the two GLMs are by themselves; and nothing else has any.
pub proof fn families_have_their_capabilities(m: Seq<char>)
    ensures
        ({
            let gemma = m == "gemma3"@ || m == "gemma3_text"@ || m == "gemma4"@ || m == "gemma4_text"@ || m == "gemma4_unified"@ || m == "gemma4_unified_text"@;
            let dense = gemma || m == "llama"@ || m == "qwen3"@;
            let c = capabilities_of(m);
            &&& c.gemma <==> gemma
            &&& c.dense_packet_contracts <==> dense
            &&& c.decode_objects <==> dense || m == "qwen3_5"@
            &&& c.cublaslt_decode <==> gemma || m == "qwen3_5"@
            &&& c.decode_ladder <==> dense || m == "gpt_oss"@
            &&& c.glm <==> m == "glm_moe_dsa"@ || m == "glm5_next"@
        }),
{
}

/// A default ladder doubles from one: to sixteen on Hopper for a family that has ladders, and to eight
/// on gfx942 for a dense one; nothing else has one.
pub proof fn default_ladders_double_from_one(c: EmitCapabilities, arch: Seq<char>, i: int)
    ensures
        default_ladder(c, arch) is Some <==> (arch == "sm_90a"@ && c.decode_ladder) || (arch
            == "gfx942"@ && c.dense_packet_contracts),
        default_ladder(c, arch) matches Some(v) ==> {
            &&& v[0] == 1
            &&& 0 <= i && i + 1 < v.len() ==> v[i + 1] == 2 * v[i]
            &&& arch == "sm_90a"@ ==> v.last() == 16
            &&& arch == "gfx942"@ ==> v.last() == 8
        },
{
    reveal_strlit("sm_90a");
    reveal_strlit("gfx942");
    assert("sm_90a"@.len() == 6);
    assert("gfx942"@.len() == 6);
    assert("sm_90a"@[0] != "gfx942"@[0]);
}

/// Which defaults hold where. GLM's are qualified on eight gfx942 devices of 304 units, without MXFP4;
/// prompts are packed for dense families on Hopper, on one gfx942 device in bf16 alone, and for GLM
/// where it is qualified; segments of products alone are a Gemma's with 8-bit activations on one
/// Hopper device.
pub proof fn defaults_hold_where_they_were_qualified(
    cfg: ProductionConfig,
    c: EmitCapabilities,
    arch: Seq<char>,
    tp: u32,
    n_cu: u32,
    m: bool,
)
    ensures
        glm_target(c, arch, tp, n_cu, m) <==> c.glm && !m && n_cu == 304 && tp == 8 && arch
            == "gfx942"@,
        packs_by_default(cfg, c, arch, tp, n_cu) <==> (c.dense_packet_contracts && arch == "sm_90a"@)
            || (c.dense_packet_contracts && arch == "gfx942"@ && tp == 1 && !(cfg.fp8 || cfg.w8a8
            || cfg.w8a16 || cfg.fp8_kv)) || (c.glm && !cfg.mxfp4 && n_cu == 304 && tp == 8 && arch
            == "gfx942"@),
        pure_gemm_by_default(m, c, arch, tp) <==> c.gemma && m && tp == 1 && arch == "sm_90a"@,
        set_or(Some(m), !m) == m,
        set_or(None, m) == m,
        qualified_groups() == "o_proj,band,shared"@,
{
}

/// The vendor's library takes decode products of whole models alone, on a single Hopper device, of the
/// Gemmas and Qwen 3.5. Tiles are priced for AMD targets, and where neither an architecture nor a
/// device is named.
pub proof fn libraries_and_prices_are_for_their_targets(
    m: Seq<char>,
    arch: Seq<char>,
    gpu: Seq<char>,
    tp: u32,
    block: bool,
)
    ensures
        vendor_decodes(capabilities_of(m), arch, tp, block) ==> arch == "sm_90a"@ && tp == 1 && !block,
        vendor_decodes(capabilities_of(m), "sm_90a"@, 1, false) <==> capabilities_of(m).gemma || m
            == "qwen3_5"@,
        priced_target(true, arch, gpu),
        priced_target(false, arch, gpu) <==> arch.len() + gpu.len() == 0,
{
}

/// The caches of a stretch of layers are two to a layer, its keys and then its values.
pub proof fn caches_are_named_by_layer(first: int, end: int, l: int)
    requires
        0 <= first <= l < end,
    ensures
        cache_names(first, end).len() == 2 * (end - first),
        cache_names(first, end)[2 * (l - first)] == "kv."@ + dec(l as nat) + ".k"@,
        cache_names(first, end)[2 * (l - first) + 1] == "kv."@ + dec(l as nat) + ".v"@,
    decreases end - first,
{
    if l < end - 1 {
        caches_are_named_by_layer(first, end - 1, l);
    } else if first < end - 1 {
        caches_are_named_by_layer(first, end - 1, first);
    } else {
        assert(cache_names(first, first).len() == 0);
    }
}

/// The interpreters of a packet are those that were given, the cubin before the other, each under its
/// own kind and name with its own bytes.
pub proof fn interpreters_stand_under_their_names(f: Format, a: Seq<u8>, b: Seq<u8>)
    ensures
        interpreters(f, None, None).len() == 0,
        ({
            let x = interpreters(f, Some(a), None);
            x.len() == 1 && x[0].kind == f.sect_cubin && x[0].name == "interp_sm120"@ && x[0].data == a
        }),
        ({
            let y = interpreters(f, None, Some(b));
            y.len() == 1 && y[0].kind == f.sect_hsaco && y[0].name == "interp_gfx950"@ && y[0].data == b
        }),
        interpreters(f, Some(a), Some(b)) == interpreters(f, Some(a), None) + interpreters(
            f,
            None,
            Some(b),
        ),
{
    assert(interpreters(f, Some(a), Some(b)) =~= interpreters(f, Some(a), None) + interpreters(
        f,
        None,
        Some(b),
    ));
}

/// Segments are lean only in prefill programs of AMD targets, where they were asked to be: two of the
/// kinds on gfx950 alone. Residual inputs are fused wherever that was asked. Only a prefill program
/// of no more rows than were named is forced into one segment, and an AMD target never is otherwise.
pub proof fn segments_are_lean_where_they_can_be(
    k: SegmentKnobs,
    prefill: bool,
    amd: bool,
    isa: IsaLevel,
    t: u32,
)
    ensures
        ({
            let s = segmenting_of(k, prefill, amd, isa, t);
            &&& !prefill || !amd ==> !s.lean_moe_stage1 && !s.lean_moe_stage2 && !s.lean_moe_combine
                && !s.lean_kda_intra && !s.kda_intra_wave_items && !s.kda_key_factor
            &&& prefill && amd ==> s.lean_moe_stage1 == k.moe_stage1_lean && s.lean_moe_stage2
                == k.moe_stage2_lean && s.lean_moe_combine == k.moe_combine_lean && s.lean_kda_intra
                == k.kda_intra_cached
            &&& prefill && amd && isa == IsaLevel::Gfx950 ==> s.kda_intra_wave_items
                == k.kda_intra_wave_items && s.kda_key_factor == k.kda_key_factor
            &&& isa != IsaLevel::Gfx950 ==> !s.kda_intra_wave_items && !s.kda_key_factor
            &&& s.fuse_residual_input == k.fuse_residual_input
            &&& s.deny_uniseg == amd
            &&& s.force_uniseg <==> prefill && k.uniseg_max_t is Some && t <= k.uniseg_max_t->0
        }),
{
}

/// The bytes of a prefix are those of the tensors whose names start with it: each of them adds its
/// own, and no other adds any.
pub proof fn bytes_are_those_of_the_prefix(ts: Seq<DeclView>, p: Seq<char>, n: int)
    requires
        0 <= n < ts.len(),
    ensures
        bytes_upto(ts, p, 0) == 0,
        begins(ts[n].name, p) ==> bytes_upto(ts, p, n + 1) - bytes_upto(ts, p, n) == ts[n].bytes,
        !begins(ts[n].name, p) ==> bytes_upto(ts, p, n + 1) == bytes_upto(ts, p, n),
{
}

/// The part that stands for gfx942 has 64 KiB of workgroup memory, that for gfx950 160 KiB. A device
/// decides where it is one of the two architectures, then the architecture that is named, and
/// otherwise the target stays; with none set it is gfx950's.
pub proof fn targets_are_parts_of_their_architecture(
    old_target: Option<Priced>,
    arch: Seq<char>,
    gpu: GpuSpec,
)
    ensures
        by_arch("gfx942"@) matches Some(a) && a.isa == IsaLevel::Gfx942 && a.spec.isa == Some(
            IsaLevel::Gfx942,
        ) && a.spec.shared_mem == 64 * 1024,
        by_arch("gfx950"@) matches Some(b) && b.isa == IsaLevel::Gfx950 && b.spec.isa == Some(
            IsaLevel::Gfx950,
        ) && b.spec.shared_mem == 160 * 1024,
        arch != "gfx942"@ && arch != "gfx950"@ ==> by_arch(arch) is None,
        gpu.isa == Some(IsaLevel::Gfx942) || gpu.isa == Some(IsaLevel::Gfx950) ==> resolved(
            old_target,
            arch,
            Some(gpu),
        ) == Some(Priced { spec: gpu, isa: gpu.isa->0 }),
        gpu.isa != Some(IsaLevel::Gfx942) && gpu.isa != Some(IsaLevel::Gfx950) ==> resolved(
            old_target,
            arch,
            Some(gpu),
        ) == resolved(old_target, arch, None),
        by_arch(arch) is Some ==> resolved(old_target, arch, None) == by_arch(arch),
        by_arch(arch) is None ==> resolved(old_target, arch, None) == old_target,
        Some(in_force(AmdTarget { set: None })) == by_arch("gfx950"@),
        old_target is Some ==> in_force(AmdTarget { set: old_target }) == old_target->0,
{
    reveal_strlit("gfx942");
    reveal_strlit("gfx950");
    assert("gfx942"@.len() == 6);
    assert("gfx950"@.len() == 6);
    assert("gfx942"@[4] != "gfx950"@[4]);
}

} // verus!
