//! Where the settings of an emission come from, and what a manifest records of them.
use vstd::prelude::*;

use crate::args::{number, parse_u32};
use crate::order::views;
use crate::production::{seams_on, set_or, GlmKnobs, ProductionConfig};
use crate::text::{same_text, text};

verus! {

/// Where a setting comes from.
#[derive(Clone, Copy, PartialEq, Eq, Debug, Structural)]
pub enum Source {
    Cli,
    Env,
    /// What production defaults to on the target that the setting was qualified on.
    ProductionDefault,
    Default,
}

/// The name of a source.
pub open spec fn source_text(s: Source) -> Seq<char> {
    match s {
        Source::Cli => "cli"@,
        Source::Env => "env"@,
        Source::ProductionDefault => "production_default"@,
        Source::Default => "default"@,
    }
}

impl Source {
    /// The name of a source.
    pub fn name(self) -> (r: &'static str)
        ensures
            r@ == source_text(self),
    {
        match self {
            Source::Cli => "cli",
            Source::Env => "env",
            Source::ProductionDefault => "production_default",
            Source::Default => "default",
        }
    }
}

/// A setting and the text that it was given.
pub struct Said {
    pub id: String,
    pub text: String,
}

/// The text that a setting was given, where it was given one: the first.
pub open spec fn said_from(v: Seq<Said>, id: Seq<char>, from: int) -> Option<Seq<char>>
    decreases v.len() - from,
{
    if from < 0 || from >= v.len() {
        None
    } else if v[from].id@ == id {
        Some(v[from].text@)
    } else {
        said_from(v, id, from + 1)
    }
}

fn find_said(v: &Vec<Said>, id: &str) -> (r: Option<String>)
    ensures
        crate::opcodes::opt_text(r) == said_from(v@, id@, 0),
{
    let mut i: usize = 0;
    while i < v.len()
        invariant
            i <= v@.len(),
            said_from(v@, id@, 0) == said_from(v@, id@, i as int),
        decreases v@.len() - i,
    {
        if same_text(v[i].id.as_str(), id) {
            return Some(v[i].text.clone());
        }
        i = i + 1;
    }
    None
}

/// What was said of a setting, and by whom: a command line goes before the environment.
pub open spec fn heard(cli: Seq<Said>, env: Seq<Said>, id: Seq<char>) -> Option<
    (Seq<char>, Source),
> {
    match said_from(cli, id, 0) {
        Some(t) => Some((t, Source::Cli)),
        None => match said_from(env, id, 0) {
            Some(t) => Some((t, Source::Env)),
            None => None,
        },
    }
}

fn hear(cli: &Vec<Said>, env: &Vec<Said>, id: &str) -> (r: Option<(String, Source)>)
    ensures
        match (r, heard(cli@, env@, id@)) {
            (Some(a), Some(b)) => a.0@ == b.0 && a.1 == b.1,
            (None, None) => true,
            _ => false,
        },
{
    match find_said(cli, id) {
        Some(t) => Some((t, Source::Cli)),
        None => match find_said(env, id) {
            Some(t) => Some((t, Source::Env)),
            None => None,
        },
    }
}

/// The switch that a text gives.
pub open spec fn switch(t: Seq<char>) -> Option<bool> {
    if t == "true"@ || t == "1"@ {
        Some(true)
    } else if t == "false"@ || t == "0"@ {
        Some(false)
    } else {
        None
    }
}

/// How a switch was set, where it was.
pub open spec fn switch_of(cli: Seq<Said>, env: Seq<Said>, id: Seq<char>) -> Option<bool> {
    match heard(cli, env, id) {
        Some(h) => switch(h.0),
        None => None,
    }
}

fn read_switch(cli: &Vec<Said>, env: &Vec<Said>, id: &str) -> (r: Option<bool>)
    ensures
        r == switch_of(cli@, env@, id@),
{
    match hear(cli, env, id) {
        Some(h) => {
            let t: &str = h.0.as_str();
            if same_text(t, "true") || same_text(t, "1") {
                Some(true)
            } else if same_text(t, "false") || same_text(t, "0") {
                Some(false)
            } else {
                None
            }
        },
        None => None,
    }
}

fn read_number(cli: &Vec<Said>, env: &Vec<Said>, id: &str) -> (r: Option<u32>)
    ensures
        r == (match heard(cli@, env@, id@) {
            Some(h) => number(h.0),
            None => None,
        }),
{
    match hear(cli, env, id) {
        Some(h) => parse_u32(h.0.as_str()),
        None => None,
    }
}

/// The settings of GLM mixtures, from what was said of each.
pub fn glm_knobs(cli: &Vec<Said>, env: &Vec<Said>) -> (r: GlmKnobs)
    ensures
        r.fp8_kv == switch_of(cli@, env@, "glm_fp8_kv"@),
        r.moe_aiter == switch_of(cli@, env@, "glm_moe_aiter"@),
        r.moe_resident == switch_of(cli@, env@, "glm_moe_resident"@),
        r.index_tp == switch_of(cli@, env@, "glm_index_tp"@),
        r.select_local == switch_of(cli@, env@, "glm_select_local"@),
        r.decode_norm_rows == switch_of(cli@, env@, "glm_decode_norm_rows"@),
        r.gemm_lt == switch_of(cli@, env@, "glm_gemm_lt"@),
        r.gemm_lt_decode == switch_of(cli@, env@, "glm_gemm_lt_decode"@),
        r.gemm_lt_decode_ext == switch_of(cli@, env@, "glm_gemm_lt_decode_ext"@),
        r.decode_gemm_group == switch_of(cli@, env@, "glm_decode_gemm_group"@),
        r.fold_lt == switch_of(cli@, env@, "glm_fold_lt"@),
        r.seq_par == switch_of(cli@, env@, "glm_seq_par"@),
        r.seq_par_proj == switch_of(cli@, env@, "glm_seq_par_proj"@),
        r.xr_res == (switch_of(cli@, env@, "glm_xr_res"@) == Some(true)),
        r.xr_band == (match heard(cli@, env@, "glm_xr_band"@) {
            Some(h) => number(h.0),
            None => None,
        }),
{
    let xr_res: bool = match read_switch(cli, env, "glm_xr_res") {
        Some(b) => b,
        None => false,
    };
    GlmKnobs {
        fp8_kv: read_switch(cli, env, "glm_fp8_kv"),
        moe_aiter: read_switch(cli, env, "glm_moe_aiter"),
        moe_resident: read_switch(cli, env, "glm_moe_resident"),
        index_tp: read_switch(cli, env, "glm_index_tp"),
        select_local: read_switch(cli, env, "glm_select_local"),
        decode_norm_rows: read_switch(cli, env, "glm_decode_norm_rows"),
        gemm_lt: read_switch(cli, env, "glm_gemm_lt"),
        gemm_lt_decode: read_switch(cli, env, "glm_gemm_lt_decode"),
        gemm_lt_decode_ext: read_switch(cli, env, "glm_gemm_lt_decode_ext"),
        decode_gemm_group: read_switch(cli, env, "glm_decode_gemm_group"),
        fold_lt: read_switch(cli, env, "glm_fold_lt"),
        seq_par: read_switch(cli, env, "glm_seq_par"),
        seq_par_proj: read_switch(cli, env, "glm_seq_par_proj"),
        xr_res,
        xr_band: read_number(cli, env, "glm_xr_band"),
    }
}

/// A switch of the recipe that GLM mixtures were qualified with: how it was set, where it was, and
/// whether it is on.
pub struct Knob {
    pub id: String,
    pub set: Option<bool>,
    pub on: bool,
}

/// The value of a [`Knob`].
pub struct KnobView {
    pub id: Seq<char>,
    pub set: Option<bool>,
    pub on: bool,
}

impl View for Knob {
    type V = KnobView;

    open spec fn view(&self) -> KnobView {
        KnobView { id: self.id@, set: self.set, on: self.on }
    }
}

/// A switch that is on by default where the recipe is qualified.
#[verifier::opaque]
pub open spec fn plain_knob(id: Seq<char>, set: Option<bool>, qualified: bool) -> KnobView {
    KnobView { id, set, on: set_or(set, qualified) }
}

/// The switch of the sequence-parallel seams.
#[verifier::opaque]
pub open spec fn seam_knob(g: GlmKnobs, q: bool) -> KnobView {
    KnobView { id: "glm_seq_par"@, set: g.seq_par, on: seams_on(g, q) }
}

/// The switch of the projections at the seams.
#[verifier::opaque]
pub open spec fn seam_proj_knob(g: GlmKnobs, q: bool) -> KnobView {
    KnobView {
        id: "glm_seq_par_proj"@,
        set: g.seq_par_proj,
        on: set_or(g.seq_par_proj, q && seams_on(g, q)),
    }
}

/// The recipe that GLM mixtures were qualified with.
pub open spec fn recipe(g: GlmKnobs, q: bool) -> Seq<KnobView> {
    seq![
        plain_knob("glm_fp8_kv"@, g.fp8_kv, q),
        plain_knob("glm_moe_aiter"@, g.moe_aiter, q),
        plain_knob("glm_moe_resident"@, g.moe_resident, q),
        plain_knob("glm_index_tp"@, g.index_tp, q),
        plain_knob("glm_select_local"@, g.select_local, q),
        plain_knob("glm_decode_norm_rows"@, g.decode_norm_rows, q),
        plain_knob("glm_gemm_lt"@, g.gemm_lt, q),
        plain_knob("glm_gemm_lt_decode"@, g.gemm_lt_decode, q),
        plain_knob("glm_gemm_lt_decode_ext"@, g.gemm_lt_decode_ext, q),
        plain_knob("glm_decode_gemm_group"@, g.decode_gemm_group, q),
        plain_knob("glm_fold_lt"@, g.fold_lt, q),
        seam_knob(g, q),
        seam_proj_knob(g, q),
    ]
}

fn add_knob(v: &mut Vec<Knob>, k: Knob)
    ensures
        views(final(v)@) == views(old(v)@).push(k@),
{
    v.push(k);
    proof {
        assert(views(v@) =~= views(old(v)@).push(k@));
    }
}

fn plain(c: &ProductionConfig, id: &str, set: Option<bool>) -> (r: Knob)
    ensures
        r@ == plain_knob(id@, set, c.glm_qualified),
{
    proof {
        reveal(plain_knob);
    }
    Knob { id: text(id), set, on: c.glm_setting(set) }
}

/// The recipe that GLM mixtures were qualified with, as it stands in some settings.
pub fn glm_recipe(c: &ProductionConfig) -> (r: Vec<Knob>)
    ensures
        views(r@) == recipe(c.glm, c.glm_qualified),
{
    let g: GlmKnobs = c.glm;
    let mut v: Vec<Knob> = Vec::new();
    proof {
        assert(views(v@) =~= Seq::<KnobView>::empty());
    }
    add_knob(&mut v, plain(c, "glm_fp8_kv", g.fp8_kv));
    add_knob(&mut v, plain(c, "glm_moe_aiter", g.moe_aiter));
    add_knob(&mut v, plain(c, "glm_moe_resident", g.moe_resident));
    add_knob(&mut v, plain(c, "glm_index_tp", g.index_tp));
    add_knob(&mut v, plain(c, "glm_select_local", g.select_local));
    add_knob(&mut v, plain(c, "glm_decode_norm_rows", g.decode_norm_rows));
    add_knob(&mut v, plain(c, "glm_gemm_lt", g.gemm_lt));
    add_knob(&mut v, plain(c, "glm_gemm_lt_decode", g.gemm_lt_decode));
    add_knob(&mut v, plain(c, "glm_gemm_lt_decode_ext", g.gemm_lt_decode_ext));
    add_knob(&mut v, plain(c, "glm_decode_gemm_group", g.decode_gemm_group));
    add_knob(&mut v, plain(c, "glm_fold_lt", g.fold_lt));
    let seam: Knob = Knob { id: text("glm_seq_par"), set: g.seq_par, on: c.glm_seq_par() };
    let proj: Knob = Knob {
        id: text("glm_seq_par_proj"),
        set: g.seq_par_proj,
        on: c.glm_seq_par_proj(),
    };
    proof {
        reveal(seam_knob);
        reveal(seam_proj_knob);
        assert(seam@ == seam_knob(g, c.glm_qualified));
        assert(proj@ == seam_proj_knob(g, c.glm_qualified));
    }
    add_knob(&mut v, seam);
    add_knob(&mut v, proj);
    v
}

/// What a manifest records of a setting.
pub struct KnobRecord {
    pub id: String,
    pub value: String,
    pub source: Source,
}

/// The value of a [`KnobRecord`].
pub struct RecordView {
    pub id: Seq<char>,
    pub value: Seq<char>,
    pub source: Source,
}

impl View for KnobRecord {
    type V = RecordView;

    open spec fn view(&self) -> RecordView {
        RecordView { id: self.id@, value: self.value@, source: self.source }
    }
}

/// What is recorded of a switch: what was said of it, by whom it was said, and otherwise whether it
/// is on, as a default.
pub open spec fn record_of(k: KnobView, cli: Seq<Said>, env: Seq<Said>, q: bool) -> RecordView {
    match heard(cli, env, k.id) {
        Some(h) => RecordView { id: k.id, value: h.0, source: h.1 },
        None => RecordView {
            id: k.id,
            value: if k.on { "true"@ } else { "false"@ },
            source: if q { Source::ProductionDefault } else { Source::Default },
        },
    }
}

/// What is recorded of the recipe.
pub fn glm_records(c: &ProductionConfig, cli: &Vec<Said>, env: &Vec<Said>) -> (r: Vec<KnobRecord>)
    ensures
        r@.len() == recipe(c.glm, c.glm_qualified).len(),
        forall|i: int|
            0 <= i < r@.len() ==> (#[trigger] r@[i])@ == record_of(
                recipe(c.glm, c.glm_qualified)[i],
                cli@,
                env@,
                c.glm_qualified,
            ),
{
    let ks: Vec<Knob> = glm_recipe(c);
    let mut r: Vec<KnobRecord> = Vec::new();
    let mut i: usize = 0;
    while i < ks.len()
        invariant
            views(ks@) == recipe(c.glm, c.glm_qualified),
            i <= ks@.len(),
            r@.len() == i,
            forall|j: int|
                0 <= j < i ==> (#[trigger] r@[j])@ == record_of(
                    recipe(c.glm, c.glm_qualified)[j],
                    cli@,
                    env@,
                    c.glm_qualified,
                ),
        decreases ks@.len() - i,
    {
        let k: &Knob = &ks[i];
        proof {
            assert(views(ks@)[i as int] == k@);
        }
        let (value, source) = match hear(cli, env, k.id.as_str()) {
            Some(h) => h,
            None => (
                text(if k.on { "true" } else { "false" }),
                if c.glm_qualified { Source::ProductionDefault } else { Source::Default },
            ),
        };
        r.push(KnobRecord { id: k.id.clone(), value, source });
        i = i + 1;
    }
    r
}

/// What was said of a switch on a command line stands, whatever else was said and whatever the
/// target.
pub proof fn a_command_line_decides(g: GlmKnobs, cli: Seq<Said>, env: Seq<Said>, q: bool, i: int)
    requires
        0 <= i < recipe(g, q).len(),
        said_from(cli, recipe(g, q)[i].id, 0) is Some,
    ensures
        record_of(recipe(g, q)[i], cli, env, q).source == Source::Cli,
        Some(record_of(recipe(g, q)[i], cli, env, q).value) == said_from(
            cli,
            recipe(g, q)[i].id,
            0,
        ),
{
}

/// A switch that was set is on or off as it was set, and one that was not is off on a target that
/// the recipe was not qualified on.
pub proof fn a_setting_stands(g: GlmKnobs, q: bool, i: int)
    requires
        0 <= i < recipe(g, q).len(),
    ensures
        recipe(g, q)[i].set matches Some(b) ==> recipe(g, q)[i].on == b,
        recipe(g, q)[i].set is None && !q ==> !recipe(g, q)[i].on,
{
    reveal(plain_knob);
    reveal(seam_knob);
    reveal(seam_proj_knob);
}

} // verus!
