//! All programs of a dense model.
use vstd::prelude::*;

use crate::arith::{ceil_div, div_ceil, larger, max_u32, min_u32, smaller, POW2_TOP};
use crate::builder::{Emission, Emitted, MintView, TmapDecl, TmapKind, TmapMint};
use crate::config::{Arch, Cfg};
use crate::declare::{
    declare, declare_ok, decls_up_to, decls_view, DeclView, DeclareFor, Gen, RopeBytes, TensorDecl,
};
use crate::dense_phase::{emit_phase, program, program_ok, ENDS_ROOM, LAYER_ROOM};
use crate::emit_config::EmitConfig;
use crate::fits::{declare_fits, has_room, program_fits};
use crate::gemm::TileTable;
use crate::isa::{insts_view, Inst, InstView};
use crate::ladder::{listed, read_list};
use crate::opcodes::opt_text;
use crate::phase::{Mode, Request};
use crate::shape::{chunk_is_ok, chunk_of, chunk_ok, max_chunk, Q_TILE_ROWS};
use crate::target::IsaLevel;
use crate::tensors::Tensors;
use crate::text::{dec, numbered, push_dec};

verus! {

/// Why a dense model is not emitted.
#[derive(Clone, Copy, PartialEq, Eq, Debug, Structural)]
pub enum DenseError {
    /// No device.
    NoDevice,
    /// Two activation profiles for one weight axis.
    TwoActivationProfiles,
    /// Narrow activations without narrow weights.
    NarrowActivationsAlone,
    /// Four-bit weights beside eight-bit ones, of a mixture, or for a target without their kernels.
    Mxfp4,
    /// The chosen chunk is no power of two, or wider than the widest.
    Chunk,
    /// No decode width.
    NoRung,
    /// The decode widths do not ascend, so that the last is not the widest.
    RungsOutOfOrder,
    /// A mixture's decode step takes at most thirty-two rows.
    WideMixture,
    /// A decode width reaches a prefill width, so that programs could not be told apart.
    RungsOverlapBuckets,
    /// The model's tensors or splits pass what their fields hold.
    Tensors,
    /// The program of this many rows cannot be laid out.
    Program(u32),
}

/// What a dense model is emitted for.
#[derive(Clone, Copy, PartialEq, Eq, Debug, Structural)]
pub struct DenseFor {
    pub ctx: u32,
    pub n_cu: u32,
    /// The layers `first..end`, and whether they stand alone.
    pub first: u32,
    pub end: u32,
    pub block_mode: bool,
    /// Whether the target is AMD, and whether its tiles are priced.
    pub amd: bool,
    pub priced: bool,
    /// The instruction set of the part in force, whose arena bounds what a row product stages.
    pub isa: IsaLevel,
}

/// The standard prefill widths.
pub open spec fn standard_widths() -> Seq<u32> {
    seq![128u32, 512, 1024, 2048, 4096, 8192]
}

/// The members of `s` that are at most `cap`, in order.
pub open spec fn up_to(s: Seq<u32>, cap: u32) -> Seq<u32>
    decreases s.len(),
{
    if s.len() == 0 {
        Seq::empty()
    } else if s.last() <= cap {
        up_to(s.drop_last(), cap).push(s.last())
    } else {
        up_to(s.drop_last(), cap)
    }
}

fn keep_up_to(s: &Vec<u32>, cap: u32) -> (r: Vec<u32>)
    ensures
        r@ == up_to(s@, cap),
{
    let mut r: Vec<u32> = Vec::new();
    let mut i: usize = 0;
    while i < s.len()
        invariant
            i <= s@.len(),
            r@ == up_to(s@.take(i as int), cap),
        decreases s@.len() - i,
    {
        proof {
            assert(s@.take(i + 1).drop_last() =~= s@.take(i as int));
        }
        if s[i] <= cap {
            r.push(s[i]);
        }
        i = i + 1;
    }
    proof {
        assert(s@.take(s@.len() as int) =~= s@);
    }
    r
}

/// The place of `x` in an ascending list: before the first larger member.
pub open spec fn place_of(s: Seq<u32>, x: u32, from: int) -> int
    decreases s.len() - from,
{
    if from >= s.len() {
        s.len() as int
    } else if s[from] > x {
        from
    } else {
        place_of(s, x, from + 1)
    }
}

/// An ascending list with one more member.
pub open spec fn with_member(s: Seq<u32>, x: u32) -> Seq<u32> {
    s.insert(place_of(s, x, 0), x)
}

/// A list in ascending order.
pub open spec fn ascending(s: Seq<u32>) -> Seq<u32>
    decreases s.len(),
{
    if s.len() == 0 {
        Seq::empty()
    } else {
        with_member(ascending(s.drop_last()), s.last())
    }
}

/// Whether a list ascends.
pub open spec fn is_ascending(s: Seq<u32>) -> bool {
    forall|i: int, j: int| 0 <= i < j < s.len() ==> s[i] <= s[j]
}

proof fn place_of_is_first_larger(s: Seq<u32>, x: u32, from: int)
    requires
        0 <= from <= s.len(),
    ensures
        from <= place_of(s, x, from) <= s.len(),
        forall|i: int| from <= i < place_of(s, x, from) ==> s[i] <= x,
        place_of(s, x, from) < s.len() ==> s[place_of(s, x, from)] > x,
    decreases s.len() - from,
{
    if from < s.len() && s[from] <= x {
        place_of_is_first_larger(s, x, from + 1);
    }
}

/// `ascending` sorts: its result ascends and has the same members.
pub proof fn ascending_sorts(s: Seq<u32>)
    ensures
        is_ascending(ascending(s)),
        ascending(s).to_multiset() == s.to_multiset(),
        ascending(s).len() == s.len(),
    decreases s.len(),
{
    broadcast use vstd::seq_lib::group_to_multiset_ensures;

    if s.len() > 0 {
        let t = ascending(s.drop_last());
        let x = s.last();
        ascending_sorts(s.drop_last());
        place_of_is_first_larger(t, x, 0);
        let p = place_of(t, x, 0);
        let r = t.insert(p, x);
        assert forall|i: int, j: int| 0 <= i < j < r.len() implies r[i] <= r[j] by {
            if j > p {
                assert(r[j] == t[j - 1]);
                if i == p {
                    assert(t[p] > x);
                }
            }
        }
        assert(r.to_multiset() == t.to_multiset().insert(x)) by {
            vstd::seq_lib::to_multiset_insert(t, p, x);
        }
        assert(s =~= s.drop_last().push(x));
    } else {
        assert(s =~= Seq::<u32>::empty());
    }
}

fn sort_ascending(s: Vec<u32>) -> (r: Vec<u32>)
    ensures
        r@ == ascending(s@),
{
    let mut r: Vec<u32> = Vec::new();
    let mut i: usize = 0;
    while i < s.len()
        invariant
            i <= s@.len(),
            r@ == ascending(s@.take(i as int)),
        decreases s@.len() - i,
    {
        let x: u32 = s[i];
        let mut p: usize = 0;
        while p < r.len() && r[p] <= x
            invariant
                p <= r@.len(),
                place_of(r@, x, 0) == place_of(r@, x, p as int),
            decreases r@.len() - p,
        {
            p = p + 1;
        }
        proof {
            assert(s@.take(i + 1).drop_last() =~= s@.take(i as int));
        }
        r.insert(p, x);
        i = i + 1;
    }
    proof {
        assert(s@.take(s@.len() as int) =~= s@);
    }
    r
}

/// A list with the members of `more` that it lacks, in order, behind it.
pub open spec fn with_missing(base: Seq<u32>, more: Seq<u32>) -> Seq<u32>
    decreases more.len(),
{
    if more.len() == 0 {
        base
    } else {
        let s = with_missing(base, more.drop_last());
        if s.contains(more.last()) {
            s
        } else {
            s.push(more.last())
        }
    }
}

fn add_missing(base: Vec<u32>, more: &Vec<u32>) -> (r: Vec<u32>)
    ensures
        r@ == with_missing(base@, more@),
{
    let mut r: Vec<u32> = base;
    let mut i: usize = 0;
    proof {
        assert(more@.take(0) =~= Seq::<u32>::empty());
    }
    while i < more.len()
        invariant
            i <= more@.len(),
            r@ == with_missing(base@, more@.take(i as int)),
        decreases more@.len() - i,
    {
        let x: u32 = more[i];
        let known: bool = contains(&r, x);
        proof {
            assert(more@.take(i + 1).drop_last() =~= more@.take(i as int));
        }
        if !known {
            r.push(x);
        }
        i = i + 1;
    }
    proof {
        assert(more@.take(more@.len() as int) =~= more@);
    }
    r
}

fn contains(s: &Vec<u32>, x: u32) -> (r: bool)
    ensures
        r == s@.contains(x),
{
    let mut i: usize = 0;
    while i < s.len()
        invariant
            i <= s@.len(),
            forall|j: int| 0 <= j < i ==> s@[j] != x,
        decreases s@.len() - i,
    {
        if s[i] == x {
            return true;
        }
        i = i + 1;
    }
    false
}

/// The widths of a wave ladder: rows of tiles, each of 128 rows, as far as they fit.
pub open spec fn wave_widths(tile_rows: Seq<u32>, cap: u32) -> Seq<u32>
    decreases tile_rows.len(),
{
    if tile_rows.len() == 0 {
        Seq::empty()
    } else {
        let s = wave_widths(tile_rows.drop_last(), cap);
        let w = tile_rows.last() * 128;
        if w <= cap { s.push(w as u32) } else { s }
    }
}

fn make_wave_widths(tile_rows: &Vec<u32>, cap: u32) -> (r: Vec<u32>)
    ensures
        r@ == wave_widths(tile_rows@, cap),
{
    let mut r: Vec<u32> = Vec::new();
    let mut i: usize = 0;
    while i < tile_rows.len()
        invariant
            i <= tile_rows@.len(),
            r@ == wave_widths(tile_rows@.take(i as int), cap),
        decreases tile_rows@.len() - i,
    {
        proof {
            assert(tile_rows@.take(i + 1).drop_last() =~= tile_rows@.take(i as int));
        }
        let w: u64 = tile_rows[i] as u64 * 128;
        if w <= cap as u64 {
            r.push(w as u32);
        }
        i = i + 1;
    }
    proof {
        assert(tile_rows@.take(tile_rows@.len() as int) =~= tile_rows@);
    }
    r
}

/// The prefill widths of a model: the standard ones or a wave ladder's, and the chosen ones beside
/// them, ascending, none wider than a chunk or the context.
pub open spec fn prefill_widths(k: EmitConfig, amd: bool, wave: Seq<u32>, cap: u32) -> Seq<u32> {
    let base = if !amd && k.pf_ladder_wave {
        wave_widths(wave, cap)
    } else {
        up_to(standard_widths(), cap)
    };
    ascending(with_missing(base, up_to(listed(opt_text(k.pf_ladder_append)), cap)))
}

pub fn make_prefill_widths(k: &EmitConfig, amd: bool, wave: &Vec<u32>, cap: u32) -> (r: Vec<u32>)
    ensures
        r@ == prefill_widths(*k, amd, wave@, cap),
{
    let base: Vec<u32> = if !amd && k.pf_ladder_wave {
        make_wave_widths(wave, cap)
    } else {
        let mut s: Vec<u32> = Vec::new();
        s.push(128);
        s.push(512);
        s.push(1024);
        s.push(2048);
        s.push(4096);
        s.push(8192);
        proof {
            assert(s@ =~= standard_widths());
        }
        keep_up_to(&s, cap)
    };
    let named: Vec<u32> = match &k.pf_ladder_append {
        Some(s) => read_list(s.as_str()),
        None => Vec::new(),
    };
    let more: Vec<u32> = keep_up_to(&named, cap);
    sort_ascending(add_missing(base, &more))
}

proof fn up_to_is_capped(s: Seq<u32>, cap: u32)
    ensures
        forall|i: int| 0 <= i < up_to(s, cap).len() ==> (#[trigger] up_to(s, cap)[i]) <= cap,
    decreases s.len(),
{
    if s.len() > 0 {
        let t = up_to(s.drop_last(), cap);
        up_to_is_capped(s.drop_last(), cap);
        assert forall|i: int| 0 <= i < up_to(s, cap).len() implies (#[trigger] up_to(s, cap)[i])
            <= cap by {
            if i < t.len() {
                assert(up_to(s, cap)[i] == t[i]);
            }
        }
    }
}

proof fn wave_is_capped(s: Seq<u32>, cap: u32)
    ensures
        forall|i: int|
            0 <= i < wave_widths(s, cap).len() ==> (#[trigger] wave_widths(s, cap)[i]) <= cap,
    decreases s.len(),
{
    if s.len() > 0 {
        let t = wave_widths(s.drop_last(), cap);
        wave_is_capped(s.drop_last(), cap);
        assert forall|i: int| 0 <= i < wave_widths(s, cap).len() implies (#[trigger] wave_widths(
            s,
            cap,
        )[i]) <= cap by {
            if i < t.len() {
                assert(wave_widths(s, cap)[i] == t[i]);
            }
        }
    }
}

proof fn with_missing_is_capped(base: Seq<u32>, more: Seq<u32>, cap: u32)
    requires
        forall|i: int| 0 <= i < base.len() ==> (#[trigger] base[i]) <= cap,
        forall|i: int| 0 <= i < more.len() ==> (#[trigger] more[i]) <= cap,
    ensures
        forall|i: int|
            0 <= i < with_missing(base, more).len() ==> (#[trigger] with_missing(base, more)[i])
                <= cap,
    decreases more.len(),
{
    if more.len() > 0 {
        let t = with_missing(base, more.drop_last());
        with_missing_is_capped(base, more.drop_last(), cap);
        assert forall|i: int| 0 <= i < with_missing(base, more).len() implies (
        #[trigger] with_missing(base, more)[i]) <= cap by {
            if i < t.len() {
                assert(with_missing(base, more)[i] == t[i]);
            }
        }
    }
}

/// No prefill is wider than its cap, and the widths ascend.
pub proof fn prefill_widths_are_capped(k: EmitConfig, amd: bool, wave: Seq<u32>, cap: u32)
    ensures
        is_ascending(prefill_widths(k, amd, wave, cap)),
        forall|i: int|
            0 <= i < prefill_widths(k, amd, wave, cap).len() ==> (#[trigger] prefill_widths(
                k,
                amd,
                wave,
                cap,
            )[i]) <= cap,
{
    let base = if !amd && k.pf_ladder_wave {
        wave_widths(wave, cap)
    } else {
        up_to(standard_widths(), cap)
    };
    let named = listed(opt_text(k.pf_ladder_append));
    let more = up_to(named, cap);
    wave_is_capped(wave, cap);
    up_to_is_capped(standard_widths(), cap);
    up_to_is_capped(named, cap);
    with_missing_is_capped(base, more, cap);
    let s = with_missing(base, more);
    ascending_sorts(s);
    let r = ascending(s);
    assert forall|i: int| 0 <= i < r.len() implies (#[trigger] r[i]) <= cap by {
        broadcast use vstd::seq_lib::group_to_multiset_ensures;

        assert(r.contains(r[i]));
        assert(r.to_multiset().count(r[i]) > 0);
        assert(s.contains(r[i]));
    }
}

/// Splits of a prefill's attention over all rows and heads.
pub open spec fn width_splits(n_cu: int, hs: int, t: int) -> int {
    t * hs * larger(ceil_div(n_cu, larger(ceil_div(t, Q_TILE_ROWS as int) * hs, 1)), 1)
}

/// The most splits of any width, from the first `n` widths.
pub open spec fn most_splits(n_cu: int, hs: int, widths: Seq<u32>, n: int) -> int
    decreases n,
{
    if n <= 0 {
        0
    } else {
        larger(
            most_splits(n_cu, hs, widths, n - 1),
            width_splits(n_cu, hs, widths[n - 1] as int),
        )
    }
}

/// Splits for which partial results are kept: those of the widest need, spread over the rows, and
/// without a prefill those of one query tile on every compute unit.
pub open spec fn prefill_splits(n_cu: int, hs: int, rows: int, widths: Seq<u32>) -> int {
    let most = if widths.len() == 0 {
        n_cu * Q_TILE_ROWS
    } else {
        most_splits(n_cu, hs, widths, widths.len() as int)
    };
    larger(ceil_div(most, larger(rows * hs, 1)), 1)
}

/// Whether the splits of every width fit thirty-two bits.
pub open spec fn splits_ok(n_cu: int, hs: int, rows: int, widths: Seq<u32>) -> bool {
    &&& rows * hs <= u32::MAX
    &&& widths.len() == 0 ==> n_cu * Q_TILE_ROWS <= u32::MAX
    &&& forall|i: int|
        0 <= i < widths.len() ==> ceil_div((#[trigger] widths[i]) as int, Q_TILE_ROWS as int) * hs
            <= u32::MAX && width_splits(n_cu, hs, widths[i] as int) <= u32::MAX
}

fn fits_u32(a: u32, b: u32) -> (r: bool)
    ensures
        r == (a * b <= u32::MAX),
{
    proof {
        crate::arith::mul_le(a as int, b as int, u32::MAX as int, u32::MAX as int);
    }
    a as u64 * b as u64 <= u32::MAX as u64
}

/// Splits for which partial results are kept, where they fit thirty-two bits.
pub fn make_prefill_splits(n_cu: u32, hs: u32, rows: u32, widths: &Vec<u32>) -> (r: Option<u32>)
    ensures
        r == (if splits_ok(n_cu as int, hs as int, rows as int, widths@) {
            Some(prefill_splits(n_cu as int, hs as int, rows as int, widths@) as u32)
        } else {
            None
        }),
{
    if !fits_u32(rows, hs) {
        return None;
    }
    if widths.len() == 0 && !fits_u32(n_cu, Q_TILE_ROWS) {
        return None;
    }
    let mut most: u32 = 0;
    let mut i: usize = 0;
    while i < widths.len()
        invariant
            i <= widths@.len(),
            rows * hs <= u32::MAX,
            widths@.len() == 0 ==> n_cu * Q_TILE_ROWS <= u32::MAX,
            most == most_splits(n_cu as int, hs as int, widths@, i as int),
            forall|j: int|
                0 <= j < i ==> ceil_div((#[trigger] widths@[j]) as int, Q_TILE_ROWS as int) * hs
                    <= u32::MAX && width_splits(n_cu as int, hs as int, widths@[j] as int)
                    <= u32::MAX,
        decreases widths@.len() - i,
    {
        let t: u32 = widths[i];
        let q: u32 = div_ceil(t, Q_TILE_ROWS);
        if !fits_u32(q, hs) {
            proof {
                assert(ceil_div(widths@[i as int] as int, Q_TILE_ROWS as int) * hs > u32::MAX);
            }
            return None;
        }
        let ns: u32 = max_u32(div_ceil(n_cu, max_u32(q * hs, 1)), 1);
        proof {
            crate::arith::mul_le(t as int, hs as int, u32::MAX as int, u32::MAX as int);
        }
        let cells: u128 = t as u128 * hs as u128;
        proof {
            crate::arith::mul_le(
                cells as int,
                ns as int,
                u32::MAX * u32::MAX,
                u32::MAX as int,
            );
        }
        let total: u128 = cells * ns as u128;
        proof {
            assert(total == width_splits(n_cu as int, hs as int, widths@[i as int] as int));
        }
        if total > u32::MAX as u128 {
            return None;
        }
        most = max_u32(most, total as u32);
        i = i + 1;
    }
    let need: u32 = if widths.len() == 0 { n_cu * Q_TILE_ROWS } else { most };
    Some(max_u32(div_ceil(need, max_u32(rows * hs, 1)), 1))
}

/// How a dense model is emitted.
pub struct DensePlan {
    pub buckets: Vec<u32>,
    pub ns_pre: u32,
    pub dbatch: u32,
    pub moe_pf: bool,
    pub nrn_fold: bool,
    pub merge_fold: bool,
}

/// Whether a mixture's prefill is emitted: not where weights are narrow and activations are not.
pub open spec fn mixture_prefill(k: EmitConfig, c: Cfg) -> bool {
    c.moe && (!k.fp8 || k.w8a8) && !k.moe_prefill_off
}

/// Whether the fused kernels that need scratch of their own are in reach: narrow weights of a dense
/// model of the family, on the part that has them.
pub open spec fn folds_in_reach(k: EmitConfig, c: Cfg, f: DenseFor) -> bool {
    f.amd && f.isa == IsaLevel::Gfx942 && k.fp8 && c.arch == Arch::Gemma4 && !c.moe
}

/// Rows that a program's activations hold.
pub open spec fn chunk_rows(k: EmitConfig, c: Cfg, f: DenseFor) -> int {
    smaller(f.ctx as int, chunk_of(k, c.window as int))
}

/// Whether a model can be emitted with four-bit weights: for a target that has their kernels, and
/// where nothing else is narrow.
pub open spec fn takes_mxfp4(k: EmitConfig, c: Cfg, f: DenseFor) -> bool {
    f.amd && !c.moe && !k.fp8
}

/// Why a model is refused before anything is declared, in the order in which it is asked.
pub open spec fn refusal(k: EmitConfig, c: Cfg, f: DenseFor, wave: Seq<u32>) -> Option<DenseError> {
    if c.tp == 0 {
        Some(DenseError::NoDevice)
    } else if k.w8a8 && k.w8a16 {
        Some(DenseError::TwoActivationProfiles)
    } else if k.w8a8 && !k.fp8 {
        Some(DenseError::NarrowActivationsAlone)
    } else if k.mxfp4 && !takes_mxfp4(k, c, f) {
        Some(DenseError::Mxfp4)
    } else if !chunk_ok(k) || c.window > POW2_TOP {
        Some(DenseError::Chunk)
    } else if k.decode_rungs@.len() == 0 {
        Some(DenseError::NoRung)
    } else if !is_ascending(k.decode_rungs@) {
        Some(DenseError::RungsOutOfOrder)
    } else if c.moe && k.decode_rungs@.last() > 32 {
        Some(DenseError::WideMixture)
    } else if !rungs_below(k.decode_rungs@, widths_of(k, c, f, wave)) {
        Some(DenseError::RungsOverlapBuckets)
    } else if !splits_ok(
        f.n_cu as int,
        larger((c.heads / c.tp) as int, 1),
        chunk_rows(k, c, f),
        widths_of(k, c, f, wave),
    ) {
        Some(DenseError::Tensors)
    } else {
        None
    }
}

/// The prefill widths of a model.
pub open spec fn widths_of(k: EmitConfig, c: Cfg, f: DenseFor, wave: Seq<u32>) -> Seq<u32> {
    prefill_widths(k, f.amd, wave, chunk_rows(k, c, f) as u32)
}

/// Whether every decode width lies below every prefill width.
pub open spec fn rungs_below(rungs: Seq<u32>, widths: Seq<u32>) -> bool {
    forall|i: int, j: int|
        0 <= i < rungs.len() && 0 <= j < widths.len() ==> (#[trigger] rungs[i]) < (
        #[trigger] widths[j])
}

fn check_rungs(rungs: &Vec<u32>, widths: &Vec<u32>) -> (r: bool)
    ensures
        r == rungs_below(rungs@, widths@),
{
    let mut i: usize = 0;
    while i < rungs.len()
        invariant
            i <= rungs@.len(),
            forall|a: int, b: int|
                0 <= a < i && 0 <= b < widths@.len() ==> (#[trigger] rungs@[a]) < (
                #[trigger] widths@[b]),
        decreases rungs@.len() - i,
    {
        let mut j: usize = 0;
        while j < widths.len()
            invariant
                i < rungs@.len(),
                j <= widths@.len(),
                forall|b: int| 0 <= b < j ==> rungs@[i as int] < #[trigger] widths@[b],
            decreases widths@.len() - j,
        {
            if rungs[i] >= widths[j] {
                proof {
                    assert(!(rungs@[i as int] < widths@[j as int]));
                }
                return false;
            }
            j = j + 1;
        }
        i = i + 1;
    }
    true
}

fn check_ascending(s: &Vec<u32>) -> (r: bool)
    ensures
        r == is_ascending(s@),
{
    let mut i: usize = 1;
    while i < s.len()
        invariant
            1 <= i,
            s@.len() > 0 ==> i <= s@.len(),
            forall|a: int, b: int|
                0 <= a < b < i && b < s@.len() ==> (#[trigger] s@[a]) <= (#[trigger] s@[b]),
        decreases s@.len() - i,
    {
        if s[i - 1] > s[i] {
            proof {
                assert(!(s@[i - 1] <= s@[i as int]));
            }
            return false;
        }
        i = i + 1;
    }
    true
}

/// Plans the emission of a dense model, or says why it is refused.
pub fn plan_dense(k: &EmitConfig, c: &Cfg, f: DenseFor, wave: &Vec<u32>) -> (r: Result<
    DensePlan,
    DenseError,
>)
    ensures
        match r {
            Err(e) => refusal(*k, *c, f, wave@) == Some(e),
            Ok(p) => {
                &&& refusal(*k, *c, f, wave@) is None
                &&& p.buckets@ == widths_of(*k, *c, f, wave@)
                &&& p.ns_pre == prefill_splits(
                    f.n_cu as int,
                    larger((c.heads / c.tp) as int, 1),
                    chunk_rows(*k, *c, f),
                    p.buckets@,
                ) as u32
                &&& p.dbatch == k.decode_rungs@.last()
                &&& forall|i: int|
                    0 <= i < k.decode_rungs@.len() ==> (#[trigger] k.decode_rungs@[i]) <= p.dbatch
                &&& p.moe_pf == mixture_prefill(*k, *c)
                &&& p.nrn_fold == (folds_in_reach(*k, *c, f) && !k.no_fuse_nrn && !k.fuse_qkv_fp8)
                &&& p.merge_fold == (folds_in_reach(*k, *c, f) && k.fuse_hnr && k.fuse_merge)
            },
        },
{
    if c.tp == 0 {
        return Err(DenseError::NoDevice);
    }
    if k.w8a8 && k.w8a16 {
        return Err(DenseError::TwoActivationProfiles);
    }
    if k.w8a8 && !k.fp8 {
        return Err(DenseError::NarrowActivationsAlone);
    }
    if k.mxfp4 && (!f.amd || c.moe || k.fp8) {
        return Err(DenseError::Mxfp4);
    }
    if !chunk_is_ok(k) || c.window > POW2_TOP {
        return Err(DenseError::Chunk);
    }
    let rungs: usize = k.decode_rungs.len();
    if rungs == 0 {
        return Err(DenseError::NoRung);
    }
    if !check_ascending(&k.decode_rungs) {
        return Err(DenseError::RungsOutOfOrder);
    }
    let dbatch: u32 = k.decode_rungs[rungs - 1];
    if c.moe && dbatch > 32 {
        return Err(DenseError::WideMixture);
    }
    let cap: u32 = min_u32(f.ctx, max_chunk(k, c.window));
    let buckets: Vec<u32> = make_prefill_widths(k, f.amd, wave, cap);
    if !check_rungs(&k.decode_rungs, &buckets) {
        return Err(DenseError::RungsOverlapBuckets);
    }
    let hs: u32 = max_u32(c.heads / c.tp, 1);
    let ns_pre: u32 = match make_prefill_splits(f.n_cu, hs, cap, &buckets) {
        Some(v) => v,
        None => {
            return Err(DenseError::Tensors);
        },
    };
    let reach: bool = f.amd && f.isa == IsaLevel::Gfx942 && k.fp8 && c.arch == Arch::Gemma4
        && !c.moe;
    Ok(
        DensePlan {
            buckets,
            ns_pre,
            dbatch,
            moe_pf: c.moe && (!k.fp8 || k.w8a8) && !k.moe_prefill_off,
            nrn_fold: reach && !k.no_fuse_nrn && !k.fuse_qkv_fp8,
            merge_fold: reach && k.fuse_hnr && k.fuse_merge,
        },
    )
}

/// The request of one program: a prefill of a width, or a decode step. Only a prefill has narrow
/// activations.
pub open spec fn request_for(k: EmitConfig, f: DenseFor, prefill: bool, t: u32) -> Request {
    Request {
        t,
        ctx: f.ctx,
        mode: if prefill {
            Mode::Prefill
        } else if k.decode_tiled {
            Mode::DecodeTiled
        } else {
            Mode::Decode
        },
        n_cu: f.n_cu,
        fp8: k.fp8,
        w8a8: prefill && k.w8a8,
        fp8_kv: k.fp8_kv,
        fp8_kv_full: k.fp8_kv && k.fp8_kv_full,
        mxfp4: k.mxfp4,
        first: f.first,
        end: f.end,
        block_mode: f.block_mode,
        amd: f.amd,
        priced: f.priced,
        isa: f.isa,
    }
}

fn make_request(k: &EmitConfig, f: DenseFor, prefill: bool, t: u32) -> (r: Request)
    ensures
        r == request_for(*k, f, prefill, t),
{
    Request {
        t,
        ctx: f.ctx,
        mode: if prefill {
            Mode::Prefill
        } else if k.decode_tiled {
            Mode::DecodeTiled
        } else {
            Mode::Decode
        },
        n_cu: f.n_cu,
        fp8: k.fp8,
        w8a8: prefill && k.w8a8,
        fp8_kv: k.fp8_kv,
        fp8_kv_full: k.fp8_kv && k.fp8_kv_full,
        mxfp4: k.mxfp4,
        first: f.first,
        end: f.end,
        block_mode: f.block_mode,
        amd: f.amd,
        priced: f.priced,
        isa: f.isa,
    }
}

/// The widths that a model has a prefill of: none of a mixture without one.
pub open spec fn prefilled(k: EmitConfig, c: Cfg, widths: Seq<u32>) -> Seq<u32> {
    if c.moe && !mixture_prefill(k, c) { Seq::empty() } else { widths }
}

/// The programs of a model, in order: the prefill widths, unless it is a mixture without a
/// prefill, then the decode widths.
pub open spec fn requests(k: EmitConfig, c: Cfg, f: DenseFor, widths: Seq<u32>) -> Seq<Request> {
    let pre = prefilled(k, c, widths);
    Seq::new(
        pre.len() + k.decode_rungs@.len(),
        |i: int|
            if i < pre.len() {
                request_for(k, f, true, pre[i])
            } else {
                request_for(k, f, false, k.decode_rungs@[i - pre.len()])
            },
    )
}

pub(crate) fn make_requests(k: &EmitConfig, c: &Cfg, f: DenseFor, widths: &Vec<u32>) -> (r: Vec<Request>)
    ensures
        r@ == requests(*k, *c, f, widths@),
{
    let mut r: Vec<Request> = Vec::new();
    let moe_pf: bool = c.moe && (!k.fp8 || k.w8a8) && !k.moe_prefill_off;
    let skip: bool = c.moe && !moe_pf;
    let ghost all = requests(*k, *c, f, widths@);
    let mut i: usize = 0;
    while !skip && i < widths.len()
        invariant
            i <= widths@.len(),
            skip ==> i == 0,
            skip == (c.moe && !mixture_prefill(*k, *c)),
            all == requests(*k, *c, f, widths@),
            r@ =~= all.take(i as int),
        decreases widths@.len() - i,
    {
        r.push(make_request(k, f, true, widths[i]));
        i = i + 1;
    }
    let ghost n = if skip { 0 } else { widths@.len() as int };
    let mut j: usize = 0;
    while j < k.decode_rungs.len()
        invariant
            j <= k.decode_rungs@.len(),
            n == (if c.moe && !mixture_prefill(*k, *c) { 0 } else { widths@.len() as int }),
            all == requests(*k, *c, f, widths@),
            r@ =~= all.take(n + j),
        decreases k.decode_rungs@.len() - j,
    {
        r.push(make_request(k, f, false, k.decode_rungs[j]));
        j = j + 1;
    }
    proof {
        assert(all.take(all.len() as int) =~= all);
    }
    r
}

/// A program of a model.
pub struct Program {
    pub insts: Vec<Inst>,
}

/// The instructions of a list of programs.
pub open spec fn progs_view(p: Seq<Program>) -> Seq<Seq<InstView>> {
    Seq::new(p.len(), |i: int| insts_view(p[i].insts@))
}

/// An emission that has not begun, with the tensor maps that there are.
pub open spec fn fresh(m: MintView) -> Emitted {
    Emitted { insts: Seq::empty(), kv_rows: Seq::empty(), xgate: 0, tmaps: m }
}

/// A model emitted so far: its programs, the tensor maps, and the cache writers of the program
/// before.
pub struct Emissions {
    pub progs: Seq<Seq<InstView>>,
    pub tmaps: MintView,
    pub kv_rows: Seq<u32>,
}

/// The first `i` programs of a model, the tensor maps passed from each to the next.
pub open spec fn emitted_to(
    k: EmitConfig,
    c: Cfg,
    tab: TileTable,
    rs: Seq<Request>,
    tn: Tensors,
    ls: Seq<u32>,
    base: u32,
    i: int,
) -> Emissions
    decreases i,
{
    if i <= 0 {
        Emissions {
            progs: Seq::empty(),
            tmaps: MintView { base, decls: Seq::empty() },
            kv_rows: Seq::empty(),
        }
    } else {
        let e = emitted_to(k, c, tab, rs, tn, ls, base, i - 1);
        let s = program(fresh(e.tmaps), k, c, tab, rs[i - 1], tn, ls);
        Emissions { progs: e.progs.push(s.insts), tmaps: s.tmaps, kv_rows: s.kv_rows }
    }
}

/// Whether program `i` of a model can be emitted behind those before it.
pub open spec fn emits_at(
    k: EmitConfig,
    c: Cfg,
    tab: TileTable,
    rs: Seq<Request>,
    tn: Tensors,
    ls: Seq<u32>,
    base: u32,
    i: int,
) -> bool {
    &&& program_ok(k, c, tab, rs[i], tn, ls)
    &&& fresh(emitted_to(k, c, tab, rs, tn, ls, base, i).tmaps).room(
        LAYER_ROOM * (rs[i].end - rs[i].first) + ENDS_ROOM,
    )
}

/// The programs of a model with their tensor maps, and the cache writers of the last program.
pub struct Emitters {
    pub progs: Vec<Program>,
    pub tmaps: TmapMint,
    pub kv_rows: Vec<u32>,
}

fn emit_all(
    k: &EmitConfig,
    c: &Cfg,
    tab: &TileTable,
    rs: &Vec<Request>,
    tn: &Tensors,
    ls: &Vec<u32>,
    base: u32,
) -> (r: Result<Emitters, u32>)
    ensures
        match r {
            Ok(e) => {
                let x = emitted_to(*k, *c, *tab, rs@, *tn, ls@, base, rs@.len() as int);
                &&& progs_view(e.progs@) == x.progs
                &&& e.progs@.len() == rs@.len()
                &&& e.tmaps@ == x.tmaps
                &&& e.kv_rows@ == x.kv_rows
                &&& forall|i: int|
                    0 <= i < rs@.len() ==> #[trigger] emits_at(
                        *k,
                        *c,
                        *tab,
                        rs@,
                        *tn,
                        ls@,
                        base,
                        i,
                    )
            },
            Err(t) => exists|i: int|
                0 <= i < rs@.len() && rs@[i].t == t && !#[trigger] emits_at(
                    *k,
                    *c,
                    *tab,
                    rs@,
                    *tn,
                    ls@,
                    base,
                    i,
                ) && forall|j: int|
                    0 <= j < i ==> #[trigger] emits_at(*k, *c, *tab, rs@, *tn, ls@, base, j),
        },
{
    let mut progs: Vec<Program> = Vec::new();
    let mut tmaps = TmapMint { base, decls: Vec::new() };
    let mut kv_rows: Vec<u32> = Vec::new();
    let mut i: usize = 0;
    proof {
        assert(progs_view(progs@) =~= Seq::<Seq<InstView>>::empty());
    }
    while i < rs.len()
        invariant
            i <= rs@.len(),
            progs@.len() == i,
            progs_view(progs@) == emitted_to(*k, *c, *tab, rs@, *tn, ls@, base, i as int).progs,
            tmaps@ == emitted_to(*k, *c, *tab, rs@, *tn, ls@, base, i as int).tmaps,
            kv_rows@ == emitted_to(*k, *c, *tab, rs@, *tn, ls@, base, i as int).kv_rows,
            forall|j: int|
                0 <= j < i ==> #[trigger] emits_at(*k, *c, *tab, rs@, *tn, ls@, base, j),
        decreases rs@.len() - i,
    {
        let q: Request = rs[i];
        let mut s = Emission { insts: Vec::new(), kv_rows: Vec::new(), xgate: 0, tmaps };
        let ghost before = emitted_to(*k, *c, *tab, rs@, *tn, ls@, base, i as int);
        proof {
            assert(s@.insts =~= Seq::<InstView>::empty());
            assert(s@.kv_rows =~= Seq::<u32>::empty());
            assert(s@ == fresh(before.tmaps));
        }
        let fit: bool = program_fits(k, c, tab, q, tn, ls);
        if !fit || !has_room(&s, q.end - q.first) {
            proof {
                assert(!emits_at(*k, *c, *tab, rs@, *tn, ls@, base, i as int));
            }
            return Err(q.t);
        }
        proof {
            assert(emits_at(*k, *c, *tab, rs@, *tn, ls@, base, i as int));
        }
        emit_phase(&mut s, k, c, tab, q, tn, ls);
        let Emission { insts, kv_rows: rows, xgate: _, tmaps: maps } = s;
        let ghost old_progs = progs_view(progs@);
        let ghost iv = insts_view(insts@);
        progs.push(Program { insts });
        proof {
            assert(progs_view(progs@) =~= old_progs.push(iv));
        }
        tmaps = maps;
        kv_rows = rows;
        i = i + 1;
    }
    Ok(Emitters { progs, tmaps, kv_rows })
}

/// Bytes of a tensor map: of a plain view, and of a cache pair.
#[derive(Clone, Copy, PartialEq, Eq, Debug, Structural)]
pub struct TmapBytes {
    pub view: u64,
    pub pair: u64,
}

/// The name of a tensor map.
pub open spec fn tmap_name(d: TmapDecl) -> Seq<char> {
    match d.kind {
        TmapKind::KvPair { .. } => "tmap.kv."@ + dec(d.a as nat) + ""@,
        _ => "tmap."@ + dec(d.a as nat) + "."@ + dec(d.b as nat) + "x"@ + dec(d.c as nat),
    }
}

/// The tensor of a tensor map.
pub open spec fn tmap_decl(d: TmapDecl, b: TmapBytes) -> DeclView {
    DeclView {
        name: tmap_name(d),
        bytes: match d.kind {
            TmapKind::KvPair { .. } => b.pair,
            _ => b.view,
        },
        gen: Gen::Tmap(d),
    }
}

fn make_tmap_name(d: TmapDecl) -> (r: String)
    ensures
        r@ == tmap_name(d),
{
    match d.kind {
        TmapKind::KvPair { .. } => numbered("tmap.kv.", d.a as u64, ""),
        _ => {
            let mut s: String = numbered("tmap.", d.a as u64, ".");
            push_dec(&mut s, d.b as u64);
            s.append("x");
            push_dec(&mut s, d.c as u64);
            s
        },
    }
}

/// The tensors of a model with its tensor maps behind them.
pub fn take_tmaps(tensors: Vec<TensorDecl>, m: &TmapMint, b: TmapBytes) -> (r: Vec<TensorDecl>)
    ensures
        decls_view(r@) == decls_view(tensors@) + Seq::new(
            m.decls@.len(),
            |i: int| tmap_decl(m.decls@[i], b),
        ),
{
    let mut r: Vec<TensorDecl> = tensors;
    let ghost all = Seq::new(m.decls@.len(), |i: int| tmap_decl(m.decls@[i], b));
    let ghost before = decls_view(tensors@);
    let mut i: usize = 0;
    proof {
        assert(before + all.take(0) =~= before);
    }
    while i < m.decls.len()
        invariant
            i <= m.decls@.len(),
            all == Seq::new(m.decls@.len(), |i: int| tmap_decl(m.decls@[i], b)),
            decls_view(r@) == before + all.take(i as int),
        decreases m.decls@.len() - i,
    {
        let d: TmapDecl = m.decls[i];
        let bytes: u64 = match d.kind {
            TmapKind::KvPair { .. } => b.pair,
            _ => b.view,
        };
        let ghost prev = decls_view(r@);
        r.push(TensorDecl { name: make_tmap_name(d), bytes, gen: Gen::Tmap(d) });
        proof {
            assert(decls_view(r@) =~= prev.push(tmap_decl(d, b)));
            assert(decls_view(r@) =~= before + all.take(i + 1));
        }
        i = i + 1;
    }
    proof {
        assert(all.take(m.decls@.len() as int) =~= all);
    }
    r
}

/// A dense model, ready to be written.
pub struct Model {
    pub n_cu: u32,
    pub tensors: Vec<TensorDecl>,
    pub progs: Vec<Program>,
    /// Rows of each program.
    pub prog_t: Vec<u32>,
    /// How many programs are prefills. They come first.
    pub prefills: usize,
    /// The instructions of the widest decode step that write a cache row.
    pub kv_row_insts: Vec<u32>,
}

/// What a plan declares.
pub open spec fn declare_for(k: EmitConfig, c: Cfg, f: DenseFor, widths: Seq<u32>) -> DeclareFor {
    DeclareFor {
        ctx: f.ctx,
        ns_pre: prefill_splits(
            f.n_cu as int,
            larger((c.heads / c.tp) as int, 1),
            chunk_rows(k, c, f),
            widths,
        ) as u32,
        fp8: k.fp8,
        w8a8: k.w8a8,
        mx: k.mxfp4,
        fp8_kv: k.fp8_kv,
        fp8_kv_full: k.fp8_kv && k.fp8_kv_full,
        dbatch: k.decode_rungs@.last(),
        moe_pf: mixture_prefill(k, c),
        first: f.first,
        end: f.end,
        nrn_fold: folds_in_reach(k, c, f) && !k.no_fuse_nrn && !k.fuse_qkv_fp8,
        merge_fold: folds_in_reach(k, c, f) && k.fuse_hnr && k.fuse_merge,
    }
}

/// Whether the handles in `tn` are those of the tensors that the model declares.
pub open spec fn declares(
    k: EmitConfig,
    c: Cfg,
    n_cu: u32,
    d: DeclareFor,
    rope: RopeBytes,
    tn: Tensors,
) -> bool {
    &&& tn.shared == crate::declare::shared_handles(
        k,
        c,
        d,
        crate::declare::sizes_of(k, c, n_cu, d),
        rope,
    )
    &&& tn.caches@.len() == c.layers
    &&& tn.layers@.len() == c.layers
    &&& forall|l: int|
        0 <= l < c.layers ==> (#[trigger] tn.caches@[l]) == crate::declare::cache_handles(
            decls_up_to(k, c, n_cu, d, rope, l),
            c,
            d,
            crate::declare::layer_sizes_of(k, c, d, l),
            l as u32,
        )
    &&& forall|l: int|
        0 <= l < c.layers ==> (#[trigger] tn.layers@[l]) == crate::declare::weight_handles(
            decls_up_to(k, c, n_cu, d, rope, l),
            c,
            d,
            crate::declare::layer_sizes_of(k, c, d, l),
            l as u32,
        )
}

/// The programs that a model asks for, and the tensors before its tensor maps.
pub open spec fn asked(k: EmitConfig, c: Cfg, f: DenseFor, wave: Seq<u32>) -> Seq<Request> {
    requests(k, c, f, widths_of(k, c, f, wave))
}

pub open spec fn declared(
    k: EmitConfig,
    c: Cfg,
    f: DenseFor,
    wave: Seq<u32>,
    rope: RopeBytes,
) -> Seq<DeclView> {
    decls_up_to(
        k,
        c,
        f.n_cu,
        declare_for(k, c, f, widths_of(k, c, f, wave)),
        rope,
        c.layers as int,
    )
}

/// Whether the tensors of a model can be declared.
pub open spec fn tensors_fit(k: EmitConfig, c: Cfg, f: DenseFor, wave: Seq<u32>) -> bool {
    declare_ok(k, c, f.n_cu, declare_for(k, c, f, widths_of(k, c, f, wave)))
}

/// Whether `m` is the model that was asked for, its tensors numbered as `tn` says.
#[verifier::opaque]
pub open spec fn is_model(
    m: Model,
    k: EmitConfig,
    c: Cfg,
    tab: TileTable,
    f: DenseFor,
    ls: Seq<u32>,
    wave: Seq<u32>,
    rope: RopeBytes,
    b: TmapBytes,
    tn: Tensors,
) -> bool {
    let rs = asked(k, c, f, wave);
    let decls = declared(k, c, f, wave, rope);
    let e = emitted_to(k, c, tab, rs, tn, ls, decls.len() as u32, rs.len() as int);
    &&& declares(k, c, f.n_cu, declare_for(k, c, f, widths_of(k, c, f, wave)), rope, tn)
    &&& forall|i: int|
        0 <= i < rs.len() ==> #[trigger] emits_at(
            k,
            c,
            tab,
            rs,
            tn,
            ls,
            decls.len() as u32,
            i,
        )
    &&& m.n_cu == f.n_cu
    &&& progs_view(m.progs@) == e.progs
    &&& m.prog_t@ == Seq::new(rs.len(), |i: int| rs[i].t)
    &&& m.prefills == prefilled(k, c, widths_of(k, c, f, wave)).len()
    &&& m.kv_row_insts@ == e.kv_rows
    &&& decls_view(m.tensors@) == decls + Seq::new(
        e.tmaps.decls.len(),
        |i: int| tmap_decl(e.tmaps.decls[i], b),
    )
}

/// Whether program `i` of the model, of `t` rows, is the first that cannot be emitted.
#[verifier::opaque]
pub open spec fn stuck_at(
    k: EmitConfig,
    c: Cfg,
    tab: TileTable,
    f: DenseFor,
    ls: Seq<u32>,
    wave: Seq<u32>,
    rope: RopeBytes,
    tn: Tensors,
    i: int,
    t: u32,
) -> bool {
    let rs = asked(k, c, f, wave);
    let base = declared(k, c, f, wave, rope).len() as u32;
    &&& declares(k, c, f.n_cu, declare_for(k, c, f, widths_of(k, c, f, wave)), rope, tn)
    &&& 0 <= i < rs.len()
    &&& rs[i].t == t
    &&& !emits_at(k, c, tab, rs, tn, ls, base, i)
    &&& forall|j: int| 0 <= j < i ==> #[trigger] emits_at(k, c, tab, rs, tn, ls, base, j)
}

/// Emits every program of a dense model: plans it, declares its tensors, and emits its prefill
/// widths and its decode widths.
pub fn emit_dense_gqa(
    k: &EmitConfig,
    c: &Cfg,
    tab: &TileTable,
    f: DenseFor,
    ls: &Vec<u32>,
    wave: &Vec<u32>,
    rope: RopeBytes,
    tmap_bytes: TmapBytes,
) -> (r: Result<Model, DenseError>)
    ensures
        r matches Ok(m) ==> refusal(*k, *c, f, wave@) is None && tensors_fit(*k, *c, f, wave@),
        r matches Ok(m) ==> exists|tn: Tensors|
            #[trigger] is_model(m, *k, *c, *tab, f, ls@, wave@, rope, tmap_bytes, tn),
        r matches Err(DenseError::Program(t)) ==> refusal(*k, *c, f, wave@) is None && tensors_fit(
            *k,
            *c,
            f,
            wave@,
        ),
        r matches Err(DenseError::Program(t)) ==> exists|tn: Tensors, i: int|
            #[trigger] stuck_at(*k, *c, *tab, f, ls@, wave@, rope, tn, i, t),
        r matches Err(e) ==> e is Program || refusal(*k, *c, f, wave@) == Some(e) || (refusal(
            *k,
            *c,
            f,
            wave@,
        ) is None && e == DenseError::Tensors && !tensors_fit(*k, *c, f, wave@)),
{
    let plan: DensePlan = match plan_dense(k, c, f, wave) {
        Ok(p) => p,
        Err(e) => {
            return Err(e);
        },
    };
    let d = DeclareFor {
        ctx: f.ctx,
        ns_pre: plan.ns_pre,
        fp8: k.fp8,
        w8a8: k.w8a8,
        mx: k.mxfp4,
        fp8_kv: k.fp8_kv,
        fp8_kv_full: k.fp8_kv && k.fp8_kv_full,
        dbatch: plan.dbatch,
        moe_pf: plan.moe_pf,
        first: f.first,
        end: f.end,
        nrn_fold: plan.nrn_fold,
        merge_fold: plan.merge_fold,
    };
    if !declare_fits(k, c, f.n_cu, d) {
        return Err(DenseError::Tensors);
    }
    let (tensors, tn) = declare(k, c, f.n_cu, d, rope);
    let ghost tv = decls_view(tensors@);
    proof {
        assert(tv.len() == tensors@.len());
        assert(declares(*k, *c, f.n_cu, d, rope, tn));
    }
    let base: u32 = tensors.len() as u32;
    let rs: Vec<Request> = make_requests(k, c, f, &plan.buckets);
    let e: Emitters = match emit_all(k, c, tab, &rs, &tn, ls, base) {
        Ok(e) => e,
        Err(t) => {
            proof {
                let i = choose|i: int|
                    0 <= i < rs@.len() && rs@[i].t == t && !#[trigger] emits_at(
                        *k,
                        *c,
                        *tab,
                        rs@,
                        tn,
                        ls@,
                        base,
                        i,
                    ) && forall|j: int|
                        0 <= j < i ==> #[trigger] emits_at(*k, *c, *tab, rs@, tn, ls@, base, j);
                assert(stuck_at(*k, *c, *tab, f, ls@, wave@, rope, tn, i, t)) by {
                    reveal(stuck_at);
                }
            }
            let r: Result<Model, DenseError> = Err(DenseError::Program(t));
            proof {
                assert(r->Err_0->Program_0 == t);
            }
            return r;
        },
    };
    let Emitters { progs, tmaps, kv_rows } = e;
    let all: Vec<TensorDecl> = take_tmaps(tensors, &tmaps, tmap_bytes);
    let prog_t: Vec<u32> = widths_asked(&rs);
    let prefills: usize = if c.moe && !plan.moe_pf { 0 } else { plan.buckets.len() };
    let m = Model { n_cu: f.n_cu, tensors: all, progs, prog_t, prefills, kv_row_insts: kv_rows };
    proof {
        assert(is_model(m, *k, *c, *tab, f, ls@, wave@, rope, tmap_bytes, tn)) by {
            reveal(is_model);
        }
    }
    let r: Result<Model, DenseError> = Ok(m);
    proof {
        assert(is_model(r->Ok_0, *k, *c, *tab, f, ls@, wave@, rope, tmap_bytes, tn));
    }
    r
}

fn widths_asked(rs: &Vec<Request>) -> (r: Vec<u32>)
    ensures
        r@ == Seq::new(rs@.len(), |i: int| rs@[i].t),
{
    let mut r: Vec<u32> = Vec::new();
    let mut i: usize = 0;
    while i < rs.len()
        invariant
            i <= rs@.len(),
            r@ =~= Seq::new(i as nat, |i: int| rs@[i].t),
        decreases rs@.len() - i,
    {
        r.push(rs[i].t);
        i = i + 1;
    }
    r
}

} // verus!
