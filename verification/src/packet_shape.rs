//! Shapes that are read off a packet's instructions. Nothing here is taken from a configuration:
//! every value is an operand of an instruction that the packet carries.
use vstd::prelude::*;

use crate::arith::{larger, max_u32};
use crate::arms::{DevInst, Packet, PacketProgram};
use crate::isa::{Args, DevOp, TENSOR_NONE};
use crate::opcodes::{name_of, op_name, Isa};
use crate::order::{Ordered, SortedSet};

verus! {

/// An instruction, and whether it stands in a decode program.
#[derive(Clone, Copy, PartialEq, Eq, Debug, Structural)]
pub struct Site {
    pub decode: bool,
    pub inst: DevInst,
}

/// The instructions of program `pi`.
pub open spec fn program_sites(p: Packet, pi: int) -> Seq<Site> {
    let v = p.progs@[pi].insts@;
    Seq::new(v.len(), |i: int| Site { decode: pi >= p.decode_lo, inst: v[i] })
}

/// The instructions of the first `n` programs.
pub open spec fn sites_upto(p: Packet, n: int) -> Seq<Site>
    decreases n,
{
    if n <= 0 {
        Seq::empty()
    } else {
        sites_upto(p, n - 1) + program_sites(p, n - 1)
    }
}

/// The instructions of a packet.
pub open spec fn sites_of(p: Packet) -> Seq<Site> {
    sites_upto(p, p.progs@.len() as int)
}

/// The instructions of a packet.
pub fn sites(p: &Packet) -> (r: Vec<Site>)
    ensures
        r@ == sites_of(*p),
{
    let mut r: Vec<Site> = Vec::new();
    let mut pi: usize = 0;
    while pi < p.progs.len()
        invariant
            pi <= p.progs@.len(),
            r@ == sites_upto(*p, pi as int),
        decreases p.progs@.len() - pi,
    {
        let ghost before = r@;
        let g: &PacketProgram = &p.progs[pi];
        let mut i: usize = 0;
        while i < g.insts.len()
            invariant
                pi < p.progs@.len(),
                *g == p.progs@[pi as int],
                i <= g.insts@.len(),
                r@ == before + program_sites(*p, pi as int).take(i as int),
            decreases g.insts@.len() - i,
        {
            r.push(Site { decode: pi >= p.decode_lo, inst: g.insts[i] });
            proof {
                let v = program_sites(*p, pi as int);
                assert(v.take(i as int + 1) =~= v.take(i as int).push(v[i as int]));
            }
            i = i + 1;
        }
        proof {
            let v = program_sites(*p, pi as int);
            assert(v.take(i as int) =~= v);
        }
        pi = pi + 1;
    }
    r
}

/// What an operand of an instruction can ask of the object that runs it.
#[derive(Clone, Copy, PartialEq, Eq, Debug, Structural)]
pub enum Mark {
    /// A reduction that folds a combine in.
    XrCombineFold,
    /// A recurrence step that folds its gate product in.
    KdaFbFold,
    /// A recurrence step that runs its convolution and norm too.
    KdaDecodeFusedArm,
    /// Grouped experts on fp8 activations.
    MoePfA8,
    /// Grouped experts that scatter bf16 partials.
    MoePfPart16,
    /// Grouped experts that add into an f32 accumulator.
    MoePfAtomic,
    /// Grouped experts that add into a fixed-point accumulator.
    MoePfDet,
    /// A quantisation that computes the gated product that it quantises.
    QuantGluFold,
    /// A latent decode attention that rotates its queries.
    GlmFuseRope,
    /// A fused projection that normalises its input.
    GlmFuseQnorm,
    /// A product with a bias.
    LinearBias,
    /// A row product in a prefill program.
    PrefillGemv,
    /// Heads of sixty-four that pair their halves.
    RopeHalfHd64,
    /// A merge with attention sinks.
    AttentionSinks,
    /// A latent prefill attention that splits its history.
    MlaPfNs,
    /// A latent prefill attention whose output is folded into the product after it.
    GlmOfold,
    /// A projection of mxfp4 weights.
    Mxfp4Proj,
    /// A residual mix that materialises its input.
    MaterializedResidual,
    /// A residual mix of several workgroups to a decode row.
    AttnresDecodeMwg,
    /// A residual mix in f32.
    AttnResF32mix,
}

/// Whether an instruction carries a mark.
pub open spec fn marked(isa: Isa, m: Mark, s: Site) -> bool {
    let op = s.inst.op;
    let a = s.inst.args;
    match m {
        Mark::XrCombineFold => op == DevOp::XReduce && a.i7 != 0,
        Mark::KdaFbFold => op == DevOp::KdaStateStepG && a.i4 & 4 != 0,
        Mark::KdaDecodeFusedArm => op == DevOp::KdaStateStepG && a.i4 & 8 != 0,
        Mark::MoePfA8 => op == DevOp::MoeGroupGluPf && a.i7 != 0,
        Mark::MoePfPart16 => (op == DevOp::MoeGroupDownPf || op == DevOp::MoeCombinePf) && a.i7
            != 0,
        Mark::MoePfAtomic => op == DevOp::MoeGroupDownPf && a.i4 != 0,
        Mark::MoePfDet => op == DevOp::MoeGroupDownPf && a.i5 != 0,
        Mark::QuantGluFold => op == DevOp::QuantFp8 && a.t3 != TENSOR_NONE,
        Mark::GlmFuseRope => op == DevOp::FlashMlaDecode && a.t7 != TENSOR_NONE,
        Mark::GlmFuseQnorm => op == DevOp::GemvQkv && a.t7 != TENSOR_NONE,
        Mark::LinearBias => {
            ||| op == DevOp::GemvQkv && (a.i5 != 0 || a.i6 != 0 || a.i7 != 0)
            ||| (op == DevOp::Gemm || op == DevOp::GemmMed || op == DevOp::GemmSmall || op
                == DevOp::Gemv) && a.t7 != TENSOR_NONE
        },
        Mark::PrefillGemv => op == DevOp::Gemv && !s.decode,
        Mark::RopeHalfHd64 => op == DevOp::HeadNormRope && a.i2 == 64 && a.i5
            == isa.rope_pair_half,
        Mark::AttentionSinks => op == DevOp::FlashMerge && a.t3 != TENSOR_NONE,
        Mark::MlaPfNs => op == DevOp::FlashMlaPrefill && a.i6 & 0xff > 1 && a.t7 == TENSOR_NONE,
        Mark::GlmOfold => op == DevOp::FlashMlaPrefill && a.i6 & 0x100 != 0 && a.t7
            == TENSOR_NONE,
        Mark::Mxfp4Proj => mxfp4_projection(op),
        Mark::MaterializedResidual => op == DevOp::AttnRes && (a.t6 != TENSOR_NONE || a.t7
            != TENSOR_NONE || a.i5 != isa.no_tensor_imm),
        Mark::AttnresDecodeMwg => op == DevOp::AttnRes && a.i6 != 0,
        Mark::AttnResF32mix => s.inst.f32mix,
    }
}

/// Whether an opcode is a projection of mxfp4 weights, at any tile.
pub open spec fn mxfp4_projection(op: DevOp) -> bool {
    ||| op == DevOp::GemvMxfp4
    ||| op == DevOp::GemvGluMxfp4
    ||| op == DevOp::GemvQkvMxfp4
    ||| op == DevOp::GemmGluMxfp4
    ||| op == DevOp::GemmMxfp4
    ||| op == DevOp::GemmMedMxfp4
    ||| op == DevOp::GemmSmallMxfp4
    ||| op == DevOp::GemmWideMxfp4
    ||| op == DevOp::GemmC5Mxfp4
}

fn is_mxfp4_projection(op: DevOp) -> (r: bool)
    ensures
        r == mxfp4_projection(op),
{
    op == DevOp::GemvMxfp4 || op == DevOp::GemvGluMxfp4 || op == DevOp::GemvQkvMxfp4 || op
        == DevOp::GemmGluMxfp4 || op == DevOp::GemmMxfp4 || op == DevOp::GemmMedMxfp4 || op
        == DevOp::GemmSmallMxfp4 || op == DevOp::GemmWideMxfp4 || op == DevOp::GemmC5Mxfp4
}

fn is_marked(isa: &Isa, m: Mark, s: Site) -> (r: bool)
    ensures
        r == marked(*isa, m, s),
{
    let op: DevOp = s.inst.op;
    let a: Args = s.inst.args;
    match m {
        Mark::XrCombineFold => op == DevOp::XReduce && a.i7 != 0,
        Mark::KdaFbFold => op == DevOp::KdaStateStepG && a.i4 & 4 != 0,
        Mark::KdaDecodeFusedArm => op == DevOp::KdaStateStepG && a.i4 & 8 != 0,
        Mark::MoePfA8 => op == DevOp::MoeGroupGluPf && a.i7 != 0,
        Mark::MoePfPart16 => (op == DevOp::MoeGroupDownPf || op == DevOp::MoeCombinePf) && a.i7
            != 0,
        Mark::MoePfAtomic => op == DevOp::MoeGroupDownPf && a.i4 != 0,
        Mark::MoePfDet => op == DevOp::MoeGroupDownPf && a.i5 != 0,
        Mark::QuantGluFold => op == DevOp::QuantFp8 && a.t3 != TENSOR_NONE,
        Mark::GlmFuseRope => op == DevOp::FlashMlaDecode && a.t7 != TENSOR_NONE,
        Mark::GlmFuseQnorm => op == DevOp::GemvQkv && a.t7 != TENSOR_NONE,
        Mark::LinearBias => {
            let fused: bool = op == DevOp::GemvQkv && (a.i5 != 0 || a.i6 != 0 || a.i7 != 0);
            let plain: bool = op == DevOp::Gemm || op == DevOp::GemmMed || op == DevOp::GemmSmall
                || op == DevOp::Gemv;
            fused || plain && a.t7 != TENSOR_NONE
        },
        Mark::PrefillGemv => op == DevOp::Gemv && !s.decode,
        Mark::RopeHalfHd64 => op == DevOp::HeadNormRope && a.i2 == 64 && a.i5
            == isa.rope_pair_half,
        Mark::AttentionSinks => op == DevOp::FlashMerge && a.t3 != TENSOR_NONE,
        Mark::MlaPfNs => op == DevOp::FlashMlaPrefill && a.i6 & 0xff > 1 && a.t7 == TENSOR_NONE,
        Mark::GlmOfold => op == DevOp::FlashMlaPrefill && a.i6 & 0x100 != 0 && a.t7
            == TENSOR_NONE,
        Mark::Mxfp4Proj => is_mxfp4_projection(op),
        Mark::MaterializedResidual => op == DevOp::AttnRes && (a.t6 != TENSOR_NONE || a.t7
            != TENSOR_NONE || a.i5 != isa.no_tensor_imm),
        Mark::AttnresDecodeMwg => op == DevOp::AttnRes && a.i6 != 0,
        Mark::AttnResF32mix => s.inst.f32mix,
    }
}

/// Whether any instruction carries a mark.
pub open spec fn any_marked(isa: Isa, m: Mark, s: Seq<Site>) -> bool {
    exists|i: int| 0 <= i < s.len() && marked(isa, m, #[trigger] s[i])
}

/// Whether any instruction carries a mark.
pub fn carries(isa: &Isa, m: Mark, s: &Vec<Site>) -> (r: bool)
    ensures
        r == any_marked(*isa, m, s@),
{
    let mut i: usize = 0;
    while i < s.len()
        invariant
            i <= s@.len(),
            forall|j: int| 0 <= j < i ==> !marked(*isa, m, #[trigger] s@[j]),
        decreases s@.len() - i,
    {
        if is_marked(isa, m, s[i]) {
            proof {
                assert(marked(*isa, m, s@[i as int]));
            }
            return true;
        }
        i = i + 1;
    }
    false
}

/// Whether an opcode is attention of a decode program over separate keys and values.
pub open spec fn decode_flash(op: DevOp) -> bool {
    op == DevOp::FlashDecode || op == DevOp::FlashDecodeFp8
}

/// Whether an opcode is attention of a prefill program over separate keys and values.
pub open spec fn prefill_flash(op: DevOp) -> bool {
    op == DevOp::FlashPrefill || op == DevOp::FlashPrefillFp8
}

/// Whether an opcode is decode attention, of which `i0` is the batch.
pub open spec fn batched_flash(op: DevOp) -> bool {
    decode_flash(op) || op == DevOp::FlashMlaDecode || op == DevOp::FlashGatherDecode || op
        == DevOp::FlashMlaDecodeFp8
}

/// Whether an opcode runs grouped experts of a prefill.
pub open spec fn grouped_prefill(op: DevOp) -> bool {
    op == DevOp::MoeGroupGluPf || op == DevOp::MoeGroupDownPf
}

/// Whether an opcode runs experts of a decode step.
pub open spec fn decode_expert(op: DevOp) -> bool {
    op == DevOp::MoeExpertGluFp8Blk || op == DevOp::MoeExpertDownFp8Blk || op
        == DevOp::MoeGroupGluFp8Blk || op == DevOp::MoeGroupDownFp8Blk
}

fn is_decode_flash(op: DevOp) -> (r: bool)
    ensures
        r == decode_flash(op),
{
    op == DevOp::FlashDecode || op == DevOp::FlashDecodeFp8
}

fn is_prefill_flash(op: DevOp) -> (r: bool)
    ensures
        r == prefill_flash(op),
{
    op == DevOp::FlashPrefill || op == DevOp::FlashPrefillFp8
}

/// A number that a set takes from an instruction.
#[derive(Clone, Copy, PartialEq, Eq, Debug, Structural)]
pub enum Field {
    /// The head size of an attention.
    HeadDim,
    /// The heads of keys and values of an attention.
    KvHeads,
    /// The encoding of experts' weights. A prefill carries it in another slot than a decode step.
    ExpertEncoding,
}

/// The number, where the instruction has it.
pub open spec fn field_of(f: Field, d: DevInst) -> Option<u32> {
    match f {
        Field::HeadDim => if decode_flash(d.op) || prefill_flash(d.op) {
            Some(d.args.i6)
        } else {
            None
        },
        Field::KvHeads => if decode_flash(d.op) {
            Some(d.args.i2)
        } else if prefill_flash(d.op) {
            Some(d.args.i3)
        } else {
            None
        },
        Field::ExpertEncoding => if grouped_prefill(d.op) {
            Some(d.args.i3)
        } else if decode_expert(d.op) {
            Some(d.args.i6)
        } else {
            None
        },
    }
}

fn read_field(f: Field, d: DevInst) -> (r: Option<u32>)
    ensures
        r == field_of(f, d),
{
    match f {
        Field::HeadDim => if is_decode_flash(d.op) || is_prefill_flash(d.op) {
            Some(d.args.i6)
        } else {
            None
        },
        Field::KvHeads => if is_decode_flash(d.op) {
            Some(d.args.i2)
        } else if is_prefill_flash(d.op) {
            Some(d.args.i3)
        } else {
            None
        },
        Field::ExpertEncoding => if d.op == DevOp::MoeGroupGluPf || d.op == DevOp::MoeGroupDownPf {
            Some(d.args.i3)
        } else if d.op == DevOp::MoeExpertGluFp8Blk || d.op == DevOp::MoeExpertDownFp8Blk || d.op
            == DevOp::MoeGroupGluFp8Blk || d.op == DevOp::MoeGroupDownFp8Blk {
            Some(d.args.i6)
        } else {
            None
        },
    }
}

/// The numbers of the first `n` instructions.
pub open spec fn numbers_upto(f: Field, s: Seq<Site>, n: int) -> Set<u32>
    decreases n,
{
    if n <= 0 {
        Set::empty()
    } else {
        match field_of(f, s[n - 1].inst) {
            Some(v) => numbers_upto(f, s, n - 1).insert(v),
            None => numbers_upto(f, s, n - 1),
        }
    }
}

/// The numbers of a packet's instructions.
pub open spec fn numbers_of(f: Field, s: Seq<Site>) -> Set<u32> {
    numbers_upto(f, s, s.len() as int)
}

fn numbers(f: Field, s: &Vec<Site>) -> (r: SortedSet<u32>)
    ensures
        r.wf(),
        r@ == numbers_of(f, s@),
{
    let mut r: SortedSet<u32> = SortedSet::new();
    let mut i: usize = 0;
    while i < s.len()
        invariant
            i <= s@.len(),
            r.wf(),
            r@ == numbers_upto(f, s@, i as int),
        decreases s@.len() - i,
    {
        let x: Site = s[i];
        if let Some(v) = read_field(f, x.inst) {
            r.insert(v);
        }
        i = i + 1;
    }
    r
}

/// The largest batch of a decode program's attentions.
pub open spec fn batch_upto(s: Seq<Site>, n: int) -> int
    decreases n,
{
    if n <= 0 {
        0
    } else if s[n - 1].decode && batched_flash(s[n - 1].inst.op) {
        larger(batch_upto(s, n - 1), s[n - 1].inst.args.i0 as int)
    } else {
        batch_upto(s, n - 1)
    }
}

fn decode_batch(s: &Vec<Site>) -> (r: u32)
    ensures
        r == batch_upto(s@, s@.len() as int),
{
    let mut r: u32 = 0;
    let mut i: usize = 0;
    while i < s.len()
        invariant
            i <= s@.len(),
            r == batch_upto(s@, i as int),
        decreases s@.len() - i,
    {
        let x: Site = s[i];
        let op: DevOp = x.inst.op;
        if x.decode && (is_decode_flash(op) || op == DevOp::FlashMlaDecode || op
            == DevOp::FlashGatherDecode || op == DevOp::FlashMlaDecodeFp8) {
            r = max_u32(r, x.inst.args.i0);
        }
        i = i + 1;
    }
    r
}

/// The largest head size of the first `n` instructions' attentions.
pub open spec fn top_hd(s: Seq<Site>, n: int) -> int
    decreases n,
{
    if n <= 0 {
        0
    } else {
        match field_of(Field::HeadDim, s[n - 1].inst) {
            Some(h) => larger(top_hd(s, n - 1), h as int),
            None => top_hd(s, n - 1),
        }
    }
}

/// The layers of full attention: how many heads share one of keys and values, and how many there
/// are of those.
#[derive(Clone, Copy, PartialEq, Eq, Debug, Structural)]
pub struct Full {
    pub gqa: u32,
    pub kv_heads: u32,
}

/// The layers of full attention are those of the largest head size: what the last decode attention
/// says that no attention before it exceeds.
pub open spec fn full_upto(s: Seq<Site>, n: int) -> Full
    decreases n,
{
    if n <= 0 {
        Full { gqa: 0, kv_heads: 0 }
    } else {
        let x = s[n - 1];
        let a = x.inst.args;
        if x.decode && decode_flash(x.inst.op) && a.i2 > 0 && a.i6 >= top_hd(s, n) {
            Full { gqa: a.i1 / a.i2, kv_heads: a.i2 }
        } else {
            full_upto(s, n - 1)
        }
    }
}

fn full_layers(s: &Vec<Site>) -> (r: Full)
    ensures
        r == full_upto(s@, s@.len() as int),
{
    let mut r: Full = Full { gqa: 0, kv_heads: 0 };
    let mut top: u32 = 0;
    let mut i: usize = 0;
    while i < s.len()
        invariant
            i <= s@.len(),
            top == top_hd(s@, i as int),
            r == full_upto(s@, i as int),
        decreases s@.len() - i,
    {
        let x: Site = s[i];
        if let Some(h) = read_field(Field::HeadDim, x.inst) {
            top = max_u32(top, h);
        }
        if x.decode && is_decode_flash(x.inst.op) && x.inst.args.i2 > 0 && x.inst.args.i6 >= top {
            r = Full { gqa: x.inst.args.i1 / x.inst.args.i2, kv_heads: x.inst.args.i2 };
        }
        i = i + 1;
    }
    r
}

/// Whether the keys and values of a head size are e4m3. A decode attention says it, and a prefill
/// attention where nothing did before.
pub open spec fn kv_dtypes_upto(s: Seq<Site>, n: int) -> Map<u32, bool>
    decreases n,
{
    if n <= 0 {
        Map::empty()
    } else {
        let m = kv_dtypes_upto(s, n - 1);
        let d = s[n - 1].inst;
        if decode_flash(d.op) {
            m.insert(d.args.i6, d.op == DevOp::FlashDecodeFp8)
        } else if prefill_flash(d.op) && !m.dom().contains(d.args.i6) {
            m.insert(d.args.i6, d.op == DevOp::FlashPrefillFp8)
        } else {
            m
        }
    }
}

/// A head size, and whether its keys and values are e4m3.
#[derive(Clone, Copy, PartialEq, Eq, Debug, Structural)]
pub struct KvDtype {
    pub hd: u32,
    pub e4m3: bool,
}

/// What a list of head sizes says, each of them once.
pub open spec fn kv_map(v: Seq<KvDtype>, n: int) -> Map<u32, bool>
    decreases n,
{
    if n <= 0 {
        Map::empty()
    } else {
        kv_map(v, n - 1).insert(v[n - 1].hd, v[n - 1].e4m3)
    }
}

/// Whether no head size occurs twice.
pub open spec fn kv_distinct(v: Seq<KvDtype>) -> bool {
    forall|i: int, j: int| 0 <= i < j < v.len() ==> (#[trigger] v[i]).hd != (#[trigger] v[j]).hd
}

proof fn kv_map_at(v: Seq<KvDtype>, n: int, h: u32)
    requires
        0 <= n <= v.len(),
        kv_distinct(v),
    ensures
        kv_map(v, n).dom().contains(h) <==> exists|i: int| 0 <= i < n && (#[trigger] v[i]).hd == h,
        forall|i: int| 0 <= i < n && (#[trigger] v[i]).hd == h ==> kv_map(v, n)[h] == v[i].e4m3,
    decreases n,
{
    if n > 0 {
        kv_map_at(v, n - 1, h);
        if v[n - 1].hd == h {
            assert(v[n - 1].hd == h);
        }
    }
}

proof fn kv_map_prefix(a: Seq<KvDtype>, b: Seq<KvDtype>, n: int)
    requires
        0 <= n <= a.len(),
        n <= b.len(),
        forall|i: int| 0 <= i < n ==> a[i] == b[i],
    ensures
        kv_map(a, n) == kv_map(b, n),
    decreases n,
{
    if n > 0 {
        kv_map_prefix(a, b, n - 1);
    }
}

/// Gives a head size its encoding, over one that it had where `over` says so.
fn note_dtype(v: &mut Vec<KvDtype>, hd: u32, e4m3: bool, over: bool)
    requires
        kv_distinct(old(v)@),
    ensures
        kv_distinct(final(v)@),
        kv_map(final(v)@, final(v)@.len() as int) == (if over || !kv_map(
            old(v)@,
            old(v)@.len() as int,
        ).dom().contains(hd) {
            kv_map(old(v)@, old(v)@.len() as int).insert(hd, e4m3)
        } else {
            kv_map(old(v)@, old(v)@.len() as int)
        }),
{
    let ghost was = v@;
    let ghost m = kv_map(was, was.len() as int);
    let mut i: usize = 0;
    while i < v.len()
        invariant
            i <= v@.len(),
            v@ == was,
            was == old(v)@,
            m == kv_map(was, was.len() as int),
            kv_distinct(was),
            forall|j: int| 0 <= j < i ==> (#[trigger] was[j]).hd != hd,
        decreases v@.len() - i,
    {
        if v[i].hd == hd {
            proof {
                kv_map_at(was, was.len() as int, hd);
                assert(was[i as int].hd == hd);
            }
            if over {
                v.set(i, KvDtype { hd, e4m3 });
                proof {
                    let now = v@;
                    assert(kv_distinct(now)) by {
                        assert forall|a: int, b: int| 0 <= a < b < now.len() implies (
                        #[trigger] now[a]).hd != (#[trigger] now[b]).hd by {
                            assert(was[a].hd != was[b].hd);
                        }
                    }
                    let nm = kv_map(now, now.len() as int);
                    let want = m.insert(hd, e4m3);
                    assert forall|h: u32|
                        #![trigger nm.dom().contains(h)]
                        #![trigger want.dom().contains(h)]
                        nm.dom().contains(h) == want.dom().contains(h) && (want.dom().contains(h)
                            ==> nm[h] == want[h]) by {
                        kv_map_at(now, now.len() as int, h);
                        kv_map_at(was, was.len() as int, h);
                        if m.dom().contains(h) {
                            let k = choose|k: int| 0 <= k < was.len() && (#[trigger] was[k]).hd == h;
                            assert(now[k].hd == h);
                        }
                        if nm.dom().contains(h) {
                            let k = choose|k: int| 0 <= k < now.len() && (#[trigger] now[k]).hd == h;
                            assert(was[k].hd == h);
                        }
                        assert(now[i as int].hd == hd);
                    }
                    assert(nm =~= want);
                }
            }
            return ;
        }
        i = i + 1;
    }
    v.push(KvDtype { hd, e4m3 });
    proof {
        kv_map_at(was, was.len() as int, hd);
        kv_map_prefix(v@, was, was.len() as int);
    }
}

fn kv_dtypes(s: &Vec<Site>) -> (r: Vec<KvDtype>)
    ensures
        kv_distinct(r@),
        kv_map(r@, r@.len() as int) == kv_dtypes_upto(s@, s@.len() as int),
{
    let mut r: Vec<KvDtype> = Vec::new();
    let mut i: usize = 0;
    while i < s.len()
        invariant
            i <= s@.len(),
            kv_distinct(r@),
            kv_map(r@, r@.len() as int) == kv_dtypes_upto(s@, i as int),
        decreases s@.len() - i,
    {
        let d: DevInst = s[i].inst;
        if is_decode_flash(d.op) {
            note_dtype(&mut r, d.args.i6, d.op == DevOp::FlashDecodeFp8, true);
        } else if is_prefill_flash(d.op) {
            note_dtype(&mut r, d.args.i6, d.op == DevOp::FlashPrefillFp8, false);
        }
        i = i + 1;
    }
    r
}

/// A boundary of expert parallelism: over how many ranks, of how many experts, how wide.
#[derive(Clone, Copy, PartialEq, Eq, Debug, Structural)]
pub struct Boundary {
    pub degree: u32,
    pub experts: u32,
    pub width: u32,
}

impl View for Boundary {
    type V = Boundary;

    open spec fn view(&self) -> Boundary {
        *self
    }
}

impl Ordered for Boundary {
    open spec fn before(a: Boundary, b: Boundary) -> bool {
        ||| a.degree < b.degree
        ||| a.degree == b.degree && a.experts < b.experts
        ||| a.degree == b.degree && a.experts == b.experts && a.width < b.width
    }

    proof fn order_is_total(a: Boundary, b: Boundary, c: Boundary) {
    }

    fn is_before(&self, other: &Self) -> (r: bool) {
        self.degree < other.degree || self.degree == other.degree && self.experts < other.experts
            || self.degree == other.degree && self.experts == other.experts && self.width
            < other.width
    }
}

/// The boundary that an instruction declares: grouped experts spread over several ranks.
pub open spec fn boundary_of(d: DevInst) -> Option<Boundary> {
    if grouped_prefill(d.op) && d.args.i6 > 1 {
        Some(
            Boundary {
                degree: d.args.i6,
                experts: d.args.i2,
                width: if d.op == DevOp::MoeGroupGluPf { d.args.i0 } else { d.args.i1 },
            },
        )
    } else {
        None
    }
}

/// The boundaries of the first `n` instructions.
pub open spec fn boundaries_upto(s: Seq<Site>, n: int) -> Set<Boundary>
    decreases n,
{
    if n <= 0 {
        Set::empty()
    } else {
        match boundary_of(s[n - 1].inst) {
            Some(b) => boundaries_upto(s, n - 1).insert(b),
            None => boundaries_upto(s, n - 1),
        }
    }
}

fn boundaries(s: &Vec<Site>) -> (r: SortedSet<Boundary>)
    ensures
        r.wf(),
        r@ == boundaries_upto(s@, s@.len() as int),
{
    let mut r: SortedSet<Boundary> = SortedSet::new();
    let mut i: usize = 0;
    while i < s.len()
        invariant
            i <= s@.len(),
            r.wf(),
            r@ == boundaries_upto(s@, i as int),
        decreases s@.len() - i,
    {
        let d: DevInst = s[i].inst;
        let glu: bool = d.op == DevOp::MoeGroupGluPf;
        if (glu || d.op == DevOp::MoeGroupDownPf) && d.args.i6 > 1 {
            r.insert(
                Boundary {
                    degree: d.args.i6,
                    experts: d.args.i2,
                    width: if glu { d.args.i0 } else { d.args.i1 },
                },
            );
        }
        i = i + 1;
    }
    r
}

/// The names of the opcodes of the first `n` instructions.
pub open spec fn names_upto(isa: Isa, s: Seq<Site>, n: int) -> Set<Seq<char>>
    decreases n,
{
    if n <= 0 {
        Set::empty()
    } else {
        match name_of(isa, s[n - 1].inst.op) {
            Some(t) => names_upto(isa, s, n - 1).insert(t),
            None => names_upto(isa, s, n - 1),
        }
    }
}

fn names(isa: &Isa, s: &Vec<Site>) -> (r: SortedSet<String>)
    ensures
        r.wf(),
        r@ == names_upto(*isa, s@, s@.len() as int),
{
    let mut r: SortedSet<String> = SortedSet::new();
    let mut i: usize = 0;
    while i < s.len()
        invariant
            i <= s@.len(),
            r.wf(),
            r@ == names_upto(*isa, s@, i as int),
        decreases s@.len() - i,
    {
        let d: DevInst = s[i].inst;
        if let Some(t) = op_name(isa, d.op) {
            r.insert(t);
        }
        i = i + 1;
    }
    r
}

/// The rows of the prefill programs that serve single prompts, among the first `n`.
pub open spec fn buckets_upto(p: Packet, n: int) -> Seq<u32>
    decreases n,
{
    if n <= 0 {
        Seq::empty()
    } else if n - 1 < p.decode_lo && !p.progs@[n - 1].packed {
        buckets_upto(p, n - 1).push(p.progs@[n - 1].rows)
    } else {
        buckets_upto(p, n - 1)
    }
}

/// The largest of the first `n` numbers.
pub open spec fn top_of(v: Seq<u32>, n: int) -> int
    decreases n,
{
    if n <= 0 {
        0
    } else {
        larger(top_of(v, n - 1), v[n - 1] as int)
    }
}

fn buckets(p: &Packet) -> (r: Vec<u32>)
    ensures
        r@ == buckets_upto(*p, p.progs@.len() as int),
{
    let mut r: Vec<u32> = Vec::new();
    let mut i: usize = 0;
    while i < p.progs.len()
        invariant
            i <= p.progs@.len(),
            r@ == buckets_upto(*p, i as int),
        decreases p.progs@.len() - i,
    {
        if i < p.decode_lo && !p.progs[i].packed {
            r.push(p.progs[i].rows);
        }
        i = i + 1;
    }
    r
}

fn largest(v: &Vec<u32>) -> (r: u32)
    ensures
        r == top_of(v@, v@.len() as int),
{
    let mut r: u32 = 0;
    let mut i: usize = 0;
    while i < v.len()
        invariant
            i <= v@.len(),
            r == top_of(v@, i as int),
        decreases v@.len() - i,
    {
        r = max_u32(r, v[i]);
        i = i + 1;
    }
    r
}

/// What is read off a packet's instructions.
pub struct Shapes {
    pub sites: Vec<Site>,
    pub hd: SortedSet<u32>,
    pub kv_heads: SortedSet<u32>,
    pub full: Full,
    pub decode_batch: u32,
    pub kv_dtype: Vec<KvDtype>,
    pub max_chunk: u32,
    pub prefill_buckets: Vec<u32>,
    pub moe_enc: SortedSet<u32>,
    pub moe_prefill_ep: SortedSet<Boundary>,
    pub ops_present: SortedSet<String>,
}

pub struct ShapesView {
    pub sites: Seq<Site>,
    pub hd: Set<u32>,
    pub kv_heads: Set<u32>,
    pub full: Full,
    pub decode_batch: int,
    pub kv_dtype: Map<u32, bool>,
    pub max_chunk: int,
    pub prefill_buckets: Seq<u32>,
    pub moe_enc: Set<u32>,
    pub moe_prefill_ep: Set<Boundary>,
    pub ops_present: Set<Seq<char>>,
}

impl View for Shapes {
    type V = ShapesView;

    open spec fn view(&self) -> ShapesView {
        ShapesView {
            sites: self.sites@,
            hd: self.hd@,
            kv_heads: self.kv_heads@,
            full: self.full,
            decode_batch: self.decode_batch as int,
            kv_dtype: kv_map(self.kv_dtype@, self.kv_dtype@.len() as int),
            max_chunk: self.max_chunk as int,
            prefill_buckets: self.prefill_buckets@,
            moe_enc: self.moe_enc@,
            moe_prefill_ep: self.moe_prefill_ep@,
            ops_present: self.ops_present@,
        }
    }
}

impl Shapes {
    /// Whether the sets are in order.
    pub open spec fn wf(&self) -> bool {
        &&& self.hd.wf()
        &&& self.kv_heads.wf()
        &&& kv_distinct(self.kv_dtype@)
        &&& self.moe_enc.wf()
        &&& self.moe_prefill_ep.wf()
        &&& self.ops_present.wf()
    }
}

/// The shapes of a packet.
pub open spec fn shapes_of(isa: Isa, p: Packet) -> ShapesView {
    let s = sites_of(p);
    let n = s.len() as int;
    let b = buckets_upto(p, p.progs@.len() as int);
    ShapesView {
        sites: s,
        hd: numbers_of(Field::HeadDim, s),
        kv_heads: numbers_of(Field::KvHeads, s),
        full: full_upto(s, n),
        decode_batch: batch_upto(s, n),
        kv_dtype: kv_dtypes_upto(s, n),
        max_chunk: top_of(b, b.len() as int),
        prefill_buckets: b,
        moe_enc: numbers_of(Field::ExpertEncoding, s),
        moe_prefill_ep: boundaries_upto(s, n),
        ops_present: names_upto(isa, s, n),
    }
}

/// The shapes of a packet.
pub fn shapes(isa: &Isa, p: &Packet) -> (r: Shapes)
    ensures
        r.wf(),
        r@ == shapes_of(*isa, *p),
{
    let s: Vec<Site> = sites(p);
    let b: Vec<u32> = buckets(p);
    Shapes {
        hd: numbers(Field::HeadDim, &s),
        kv_heads: numbers(Field::KvHeads, &s),
        full: full_layers(&s),
        decode_batch: decode_batch(&s),
        kv_dtype: kv_dtypes(&s),
        max_chunk: largest(&b),
        prefill_buckets: b,
        moe_enc: numbers(Field::ExpertEncoding, &s),
        moe_prefill_ep: boundaries(&s),
        ops_present: names(isa, &s),
        sites: s,
    }
}

} // verus!
