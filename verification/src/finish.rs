//! What an emission does once its programs stand: the last checks, the sections that go with them,
//! and what is reported.
use vstd::prelude::*;

use crate::config::Cfg;
use crate::declare::{decls_view, DeclView, TensorDecl};
use crate::dense::{progs_view, Model, Program};
use crate::gate::{
    amd_target_of, check_fp8_a_scale_bound, check_gfx950_opcode_coverage,
    check_group_routing_supported, check_nvidia_opcode_coverage, first_at, foreign_tiles,
    lacks_scale, lies_in, none_in, routes_in_groups, target_is_amd, unarmed, At, GroupRouting,
};
use crate::isa::{DevOp, InstView};
use crate::mixed_step_emit::{Format, SectionData, SectionView};
use crate::order::views;
use crate::target::IsaLevel;
use crate::text::{begins, dec, numbered, starts_with, text};

verus! {

/// Why a finished model is not written.
pub enum Refused {
    /// The checkpoint and the model do not cover each other, with the reason.
    Uncovered(String),
    /// A narrow product without an activation scale.
    Scale(At),
    /// Opcodes that the target's interpreter has no arm for.
    NoArm(Vec<DevOp>),
    /// Tiles that only another target has.
    ForeignTile(Vec<DevOp>),
    /// Routing in groups, on a target that has none.
    Groups(GroupRouting),
}

/// Whether a model's weights are covered, or are not to be.
pub open spec fn covered(coverage: Result<(), String>, skip: bool) -> bool {
    coverage is Ok || skip
}

/// Whether a target can run a model.
pub open spec fn runs_on(progs: Seq<Seq<InstView>>, amd: bool) -> bool {
    if amd {
        none_in(progs, |i: InstView| lacks_scale(i)) && unarmed(progs).len() == 0
    } else {
        foreign_tiles(progs).len() == 0 && none_in(progs, |i: InstView| routes_in_groups(i))
    }
}

/// Whether a refusal is the one that a model meets first.
pub open spec fn refuses(
    e: Refused,
    progs: Seq<Seq<InstView>>,
    amd: bool,
    coverage: Result<(), String>,
    skip: bool,
) -> bool {
    match e {
        Refused::Uncovered(s) => !covered(coverage, skip) && coverage == Err::<(), String>(s),
        Refused::Scale(a) => {
            &&& covered(coverage, skip)
            &&& amd
            &&& lies_in(progs, a)
            &&& first_at(progs, |i: InstView| lacks_scale(i), a)
            &&& lacks_scale(progs[a.prog as int][a.inst as int])
        },
        Refused::NoArm(ops) => {
            &&& covered(coverage, skip)
            &&& amd
            &&& none_in(progs, |i: InstView| lacks_scale(i))
            &&& ops@ == unarmed(progs)
            &&& ops@.len() > 0
        },
        Refused::ForeignTile(ops) => {
            &&& covered(coverage, skip)
            &&& !amd
            &&& ops@ == foreign_tiles(progs)
            &&& ops@.len() > 0
        },
        Refused::Groups(g) => {
            &&& covered(coverage, skip)
            &&& !amd
            &&& foreign_tiles(progs).len() == 0
            &&& lies_in(progs, g.at)
            &&& first_at(progs, |i: InstView| routes_in_groups(i), g.at)
            &&& routes_in_groups(progs[g.at.prog as int][g.at.inst as int])
            &&& g.n_group == progs[g.at.prog as int][g.at.inst as int].args.i6
            &&& g.topk_group == progs[g.at.prog as int][g.at.inst as int].args.i7
            &&& g.top_k == progs[g.at.prog as int][g.at.inst as int].args.i2
        },
    }
}

/// The checks that a finished model passes before it is written. `coverage` is what comparing it
/// with its checkpoint gave.
pub fn final_checks(
    progs: &Vec<Program>,
    coverage: Result<(), String>,
    skip: bool,
    arch: &str,
    gpu_is_amd: bool,
) -> (r: Result<(), Refused>)
    ensures
        match r {
            Ok(_) => covered(coverage, skip) && runs_on(
                progs_view(progs@),
                amd_target_of(arch@, gpu_is_amd),
            ),
            Err(e) => refuses(
                e,
                progs_view(progs@),
                amd_target_of(arch@, gpu_is_amd),
                coverage,
                skip,
            ),
        },
{
    let amd: bool = target_is_amd(arch, gpu_is_amd);
    if !skip {
        if let Err(e) = coverage {
            return Err(Refused::Uncovered(e));
        }
    }
    if let Err(a) = check_fp8_a_scale_bound(progs, arch, gpu_is_amd) {
        return Err(Refused::Scale(a));
    }
    if let Err(ops) = check_gfx950_opcode_coverage(progs, amd) {
        return Err(Refused::NoArm(ops));
    }
    if let Err(ops) = check_nvidia_opcode_coverage(progs, amd) {
        return Err(Refused::ForeignTile(ops));
    }
    if let Err(g) = check_group_routing_supported(progs, amd) {
        return Err(Refused::Groups(g));
    }
    Ok(())
}

/// What a block of a model is, for a program that runs the block alone.
pub struct BlockDescriptor {
    pub model: String,
    pub layer: u32,
    pub hidden: u32,
    pub fp8: bool,
    pub heads: u32,
    pub head_dim: u32,
    pub kv_heads: u32,
    /// The tensors that a step carries over to the next.
    pub kv_tensors: Vec<String>,
    /// What the weights' names in the checkpoint start with.
    pub weight_prefix: String,
    pub prefill_buckets: Vec<u32>,
    pub decode_t: u32,
}

/// The tensors of the caches of layers `first..end`: of each its keys, then its values.
pub open spec fn cache_names(first: int, end: int) -> Seq<Seq<char>>
    decreases end - first,
{
    if end <= first {
        Seq::empty()
    } else {
        cache_names(first, end - 1).push("kv."@ + dec((end - 1) as nat) + ".k"@).push(
            "kv."@ + dec((end - 1) as nat) + ".v"@,
        )
    }
}

fn make_cache_names(first: u32, end: u32) -> (r: Vec<String>)
    ensures
        views(r@) == cache_names(first as int, end as int),
{
    let mut r: Vec<String> = Vec::new();
    let mut l: u32 = first;
    proof {
        assert(views(r@) =~= cache_names(first as int, first as int));
    }
    while l < end
        invariant
            first <= l,
            l <= end || l == first,
            views(r@) == cache_names(first as int, l as int),
        decreases end - l,
    {
        let ghost before = views(r@);
        r.push(numbered("kv.", l as u64, ".k"));
        r.push(numbered("kv.", l as u64, ".v"));
        proof {
            assert(views(r@) =~= before.push("kv."@ + dec(l as nat) + ".k"@).push(
                "kv."@ + dec(l as nat) + ".v"@,
            ));
        }
        l = l + 1;
    }
    proof {
        if end < first {
            assert(cache_names(first as int, end as int) =~= cache_names(
                first as int,
                first as int,
            ));
        }
    }
    r
}

/// Describes the layers `first..end` of a model.
pub fn describe_block(
    c: &Cfg,
    model: String,
    first: u32,
    end: u32,
    fp8: bool,
    buckets: Vec<u32>,
    dbatch: u32,
) -> (r: BlockDescriptor)
    requires
        first < c.is_full@.len(),
    ensures
        r.model == model,
        r.layer == first,
        r.hidden == c.hidden,
        r.fp8 == fp8,
        r.heads == c.heads,
        r.head_dim == (if c.is_full@[first as int] { c.hd_full } else { c.hd_slide }),
        r.kv_heads == (if c.is_full@[first as int] { c.kvh_full } else { c.kvh_slide }),
        views(r.kv_tensors@) == cache_names(first as int, end as int),
        r.weight_prefix@ == c.prefix@ + "layers."@ + dec(first as nat) + "."@,
        r.prefill_buckets == buckets,
        r.decode_t == dbatch,
{
    let full: bool = c.is_full[first as usize];
    let mut prefix: String = c.prefix.clone();
    prefix.append("layers.");
    crate::text::push_dec(&mut prefix, first as u64);
    prefix.append(".");
    BlockDescriptor {
        model,
        layer: first,
        hidden: c.hidden,
        fp8,
        heads: c.heads,
        head_dim: if full { c.hd_full } else { c.hd_slide },
        kv_heads: if full { c.kvh_full } else { c.kvh_slide },
        kv_tensors: make_cache_names(first, end),
        weight_prefix: prefix,
        prefill_buckets: buckets,
        decode_t: dbatch,
    }
}

/// The sections of the interpreters that go into a packet with the model.
pub open spec fn interpreters(
    f: Format,
    cubin: Option<Seq<u8>>,
    hsaco: Option<Seq<u8>>,
) -> Seq<SectionView> {
    let s = match cubin {
        Some(b) => seq![
            SectionView { kind: f.sect_cubin, name: "interp_sm120"@, data: b },
        ],
        None => Seq::empty(),
    };
    match hsaco {
        Some(b) => s.push(SectionView { kind: f.sect_hsaco, name: "interp_gfx950"@, data: b }),
        None => s,
    }
}

/// What optional bytes hold.
pub open spec fn opt_bytes(b: Option<Vec<u8>>) -> Option<Seq<u8>> {
    match b {
        Some(v) => Some(v@),
        None => None,
    }
}

/// The sections of the interpreters that go into a packet with the model.
pub fn embed_interpreters(f: &Format, cubin: Option<Vec<u8>>, hsaco: Option<Vec<u8>>) -> (r: Vec<
    SectionData,
>)
    ensures
        views(r@) == interpreters(*f, opt_bytes(cubin), opt_bytes(hsaco)),
{
    let mut r: Vec<SectionData> = Vec::new();
    if let Some(data) = cubin {
        r.push(SectionData { kind: f.sect_cubin, name: text("interp_sm120"), data });
    }
    if let Some(data) = hsaco {
        r.push(SectionData { kind: f.sect_hsaco, name: text("interp_gfx950"), data });
    }
    proof {
        assert(views(r@) =~= interpreters(*f, opt_bytes(cubin), opt_bytes(hsaco)));
    }
    r
}

/// What is asked for of a program's segments.
#[derive(Clone, Copy, PartialEq, Eq, Debug, Structural)]
pub struct SegmentKnobs {
    pub fuse_residual_input: bool,
    pub moe_stage2_lean: bool,
    pub moe_stage1_lean: bool,
    pub moe_combine_lean: bool,
    pub kda_intra_cached: bool,
    pub kda_intra_wave_items: bool,
    pub kda_key_factor: bool,
    /// Prefill programs of at most so many rows keep one segment.
    pub uniseg_max_t: Option<u32>,
}

/// How a program's instructions are cut into segments.
#[derive(Clone, Copy, PartialEq, Eq, Debug, Structural)]
pub struct Segmenting {
    pub fuse_residual_input: bool,
    pub lean_moe_stage2: bool,
    pub lean_moe_stage1: bool,
    pub lean_moe_combine: bool,
    pub lean_kda_intra: bool,
    pub kda_intra_wave_items: bool,
    pub kda_key_factor: bool,
    pub deny_uniseg: bool,
    pub force_uniseg: bool,
}

/// How a program's instructions are cut into segments. The lean segments are an AMD target's, two
/// of them gfx950's alone, and of prefill programs only. An AMD target never joins its segments by
/// the general switch, which would undo the split by wave class.
pub open spec fn segmenting_of(
    k: SegmentKnobs,
    prefill: bool,
    amd: bool,
    isa: IsaLevel,
    t: u32,
) -> Segmenting {
    Segmenting {
        fuse_residual_input: k.fuse_residual_input,
        lean_moe_stage2: prefill && amd && k.moe_stage2_lean,
        lean_moe_stage1: prefill && amd && k.moe_stage1_lean,
        lean_moe_combine: prefill && amd && k.moe_combine_lean,
        lean_kda_intra: prefill && amd && k.kda_intra_cached,
        kda_intra_wave_items: prefill && amd && isa == IsaLevel::Gfx950 && k.kda_intra_wave_items,
        kda_key_factor: prefill && amd && isa == IsaLevel::Gfx950 && k.kda_key_factor,
        deny_uniseg: amd,
        force_uniseg: prefill && (k.uniseg_max_t matches Some(mx) && t <= mx),
    }
}

/// How a program's instructions are cut into segments.
pub fn segmenting(k: SegmentKnobs, prefill: bool, amd: bool, isa: IsaLevel, t: u32) -> (r: Segmenting)
    ensures
        r == segmenting_of(k, prefill, amd, isa, t),
{
    let lean: bool = prefill && amd;
    let gfx950: bool = lean && isa == IsaLevel::Gfx950;
    let force: bool = match k.uniseg_max_t {
        Some(mx) => prefill && t <= mx,
        None => false,
    };
    Segmenting {
        fuse_residual_input: k.fuse_residual_input,
        lean_moe_stage2: lean && k.moe_stage2_lean,
        lean_moe_stage1: lean && k.moe_stage1_lean,
        lean_moe_combine: lean && k.moe_combine_lean,
        lean_kda_intra: lean && k.kda_intra_cached,
        kda_intra_wave_items: gfx950 && k.kda_intra_wave_items,
        kda_key_factor: gfx950 && k.kda_key_factor,
        deny_uniseg: amd,
        force_uniseg: force,
    }
}

/// How the instructions of each program of a model are cut into segments.
pub fn segment_programs(k: SegmentKnobs, m: &Model, amd: bool, isa: IsaLevel) -> (r: Vec<Segmenting>)
    ensures
        r@ == Seq::new(
            m.prog_t@.len(),
            |i: int| segmenting_of(k, i < m.prefills, amd, isa, m.prog_t@[i]),
        ),
{
    let mut r: Vec<Segmenting> = Vec::new();
    let mut i: usize = 0;
    while i < m.prog_t.len()
        invariant
            i <= m.prog_t@.len(),
            r@ == Seq::new(
                i as nat,
                |j: int| segmenting_of(k, j < m.prefills, amd, isa, m.prog_t@[j]),
            ),
        decreases m.prog_t@.len() - i,
    {
        r.push(segmenting(k, i < m.prefills, amd, isa, m.prog_t[i]));
        i = i + 1;
    }
    r
}

/// Bytes of the first `n` tensors whose names start with `p`.
pub open spec fn bytes_upto(ts: Seq<DeclView>, p: Seq<char>, n: int) -> int
    decreases n,
{
    if n <= 0 {
        0
    } else {
        bytes_upto(ts, p, n - 1) + (if begins(ts[n - 1].name, p) { ts[n - 1].bytes as int } else {
            0
        })
    }
}

/// Bytes of the tensors whose names start with `p`: `kv.` for caches, `act.` for activations.
pub fn tensor_bytes(ts: &Vec<TensorDecl>, p: &str) -> (r: u128)
    ensures
        r == bytes_upto(decls_view(ts@), p@, ts@.len() as int),
{
    let ghost v = decls_view(ts@);
    let n: usize = ts.len();
    let mut r: u128 = 0;
    let mut i: usize = 0;
    while i < n
        invariant
            v == decls_view(ts@),
            n == ts@.len(),
            i <= n,
            r == bytes_upto(v, p@, i as int),
            r <= i * u64::MAX,
        decreases n - i,
    {
        proof {
            assert(v[i as int] == ts@[i as int]@);
            assert(i * u64::MAX + u64::MAX == (i + 1) * u64::MAX) by (nonlinear_arith);
            assert((i + 1) * u64::MAX <= u64::MAX * u64::MAX) by (nonlinear_arith)
                requires
                    0 <= i < u64::MAX,
            ;
        }
        if starts_with(ts[i].name.as_str(), p) {
            r = r + ts[i].bytes as u128;
        }
        i = i + 1;
    }
    r
}

} // verus!
