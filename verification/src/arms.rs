//! The kernel bodies that a packet's instructions reach.
//!
//! One opcode can reach several bodies: some are instantiated by a field of the instruction. The
//! unit here is an arm, which is an opcode with the field values that select its body.
use vstd::prelude::*;

use crate::arith::{larger, smaller};
use crate::isa::{Args, DevOp};
use crate::opcodes::{name_of, op_name, opt_text, Isa};
use crate::order::{listing, text_before, text_is_before, views, Ordered, SortedSet};
use crate::text::{dec, hex, push_dec, push_hex, text};

verus! {

/// A kernel body: an opcode, and what selects one of its bodies.
#[derive(Debug)]
pub struct Arm {
    pub op: String,
    /// The head size that the body is built for.
    pub hd: Option<u32>,
    /// What else selects the body.
    pub variant: Option<String>,
}

pub struct ArmView {
    pub op: Seq<char>,
    pub hd: Option<u32>,
    pub variant: Option<Seq<char>>,
}

impl View for Arm {
    type V = ArmView;

    open spec fn view(&self) -> ArmView {
        ArmView { op: self.op@, hd: self.hd, variant: opt_text(self.variant) }
    }
}

/// Whether an optional number comes before another: nothing first.
pub open spec fn opt_num_before(a: Option<u32>, b: Option<u32>) -> bool {
    match (a, b) {
        (None, Some(_)) => true,
        (Some(x), Some(y)) => x < y,
        _ => false,
    }
}

/// Whether an optional text comes before another: nothing first.
pub open spec fn opt_text_before(a: Option<Seq<char>>, b: Option<Seq<char>>) -> bool {
    match (a, b) {
        (None, Some(_)) => true,
        (Some(x), Some(y)) => text_before(x, y),
        _ => false,
    }
}

impl Ordered for Arm {
    open spec fn before(a: ArmView, b: ArmView) -> bool {
        ||| text_before(a.op, b.op)
        ||| a.op == b.op && opt_num_before(a.hd, b.hd)
        ||| a.op == b.op && a.hd == b.hd && opt_text_before(a.variant, b.variant)
    }

    proof fn order_is_total(a: ArmView, b: ArmView, c: ArmView) {
        String::order_is_total(a.op, b.op, c.op);
        String::order_is_total(b.op, a.op, c.op);
        let t = |x: Option<Seq<char>>|
            match x {
                Some(s) => s,
                None => Seq::<char>::empty(),
            };
        String::order_is_total(t(a.variant), t(b.variant), t(c.variant));
    }

    fn is_before(&self, other: &Self) -> (r: bool) {
        if text_is_before(&self.op, &other.op) {
            return true;
        }
        if self.op != other.op {
            return false;
        }
        match (self.hd, other.hd) {
            (None, Some(_)) => {
                return true;
            },
            (Some(_), None) => {
                return false;
            },
            (Some(x), Some(y)) => {
                if x != y {
                    return x < y;
                }
            },
            (None, None) => {},
        }
        match (&self.variant, &other.variant) {
            (None, Some(_)) => true,
            (Some(x), Some(y)) => text_is_before(x, y),
            _ => false,
        }
    }
}

/// How an arm is written: its opcode, then its head size, then its variant.
pub open spec fn arm_key(a: ArmView) -> Seq<char> {
    let head = match a.hd {
        Some(h) => a.op + "/hd"@ + dec(h as nat),
        None => a.op,
    };
    match a.variant {
        Some(v) => head + "/"@ + v,
        None => head,
    }
}

impl Arm {
    /// How the arm is written.
    pub fn key(&self) -> (r: String)
        ensures
            r@ == arm_key(self@),
    {
        let mut k: String = self.op.clone();
        if let Some(h) = self.hd {
            k.append("/hd");
            push_dec(&mut k, h as u64);
        }
        if let Some(v) = &self.variant {
            k.append("/");
            k.append(v.as_str());
        }
        k
    }

    /// The same arm again.
    pub fn copied(&self) -> (r: Arm)
        ensures
            r@ == self@,
    {
        let variant: Option<String> = match &self.variant {
            Some(v) => Some(v.clone()),
            None => None,
        };
        Arm { op: self.op.clone(), hd: self.hd, variant }
    }
}

/// The head size that selects an opcode's body. Each opcode has its own slot for it.
pub open spec fn arm_hd(op: DevOp, a: Args) -> Option<u32> {
    match op {
        DevOp::FlashMerge => Some(a.i3),
        DevOp::HeadNormRope | DevOp::HeadNormRopeFp8 => Some(a.i2),
        DevOp::FlashPrefill
        | DevOp::FlashPrefillFp8
        | DevOp::FlashDecode
        | DevOp::FlashDecodeFp8 => Some(a.i6),
        _ => None,
    }
}

/// What else selects an opcode's body.
pub open spec fn arm_variant(isa: Isa, op: DevOp, a: Args) -> Option<Seq<char>> {
    match op {
        DevOp::KdaChunkPrepare | DevOp::KdaChunkIntra => Some("d"@ + dec(a.i2 as nat)),
        DevOp::KdaChunkWu | DevOp::KdaChunkCarry => if a.i4 != 0 {
            Some("d"@ + dec(a.i2 as nat) + "_qpre"@)
        } else {
            Some("d"@ + dec(a.i2 as nat))
        },
        DevOp::KdaDecodeFused => Some("abi"@ + dec(a.i7 as nat)),
        DevOp::KdaStateStep | DevOp::KdaStateStepG | DevOp::KdaConvStateStepG => Some(
            "flags"@ + hex(a.i4 as nat),
        ),
        DevOp::GemmWide => if a.i7 == isa.wide_c8_tag {
            Some("tile128x384x64"@)
        } else {
            None
        },
        _ => None,
    }
}

/// The arm that an instruction reaches, where its opcode has a name.
pub open spec fn arm_at(isa: Isa, op: DevOp, a: Args) -> Option<ArmView> {
    match name_of(isa, op) {
        Some(s) => Some(ArmView { op: s, hd: arm_hd(op, a), variant: arm_variant(isa, op, a) }),
        None => None,
    }
}

fn hd_slot(op: DevOp, a: &Args) -> (r: Option<u32>)
    ensures
        r == arm_hd(op, *a),
{
    match op {
        DevOp::FlashMerge => Some(a.i3),
        DevOp::HeadNormRope | DevOp::HeadNormRopeFp8 => Some(a.i2),
        DevOp::FlashPrefill
        | DevOp::FlashPrefillFp8
        | DevOp::FlashDecode
        | DevOp::FlashDecodeFp8 => Some(a.i6),
        _ => None,
    }
}

fn variant_name(isa: &Isa, op: DevOp, a: &Args) -> (r: Option<String>)
    ensures
        opt_text(r) == arm_variant(*isa, op, *a),
{
    match op {
        DevOp::KdaChunkPrepare | DevOp::KdaChunkIntra => {
            let mut v: String = text("d");
            push_dec(&mut v, a.i2 as u64);
            Some(v)
        },
        DevOp::KdaChunkWu | DevOp::KdaChunkCarry => {
            let mut v: String = text("d");
            push_dec(&mut v, a.i2 as u64);
            if a.i4 != 0 {
                v.append("_qpre");
            }
            Some(v)
        },
        DevOp::KdaDecodeFused => {
            let mut v: String = text("abi");
            push_dec(&mut v, a.i7 as u64);
            Some(v)
        },
        DevOp::KdaStateStep | DevOp::KdaStateStepG | DevOp::KdaConvStateStepG => {
            let mut v: String = text("flags");
            push_hex(&mut v, a.i4 as u64);
            Some(v)
        },
        DevOp::GemmWide => if a.i7 == isa.wide_c8_tag {
            Some(text("tile128x384x64"))
        } else {
            None
        },
        _ => None,
    }
}

/// What an optional arm holds.
pub open spec fn opt_arm(a: Option<Arm>) -> Option<ArmView> {
    match a {
        Some(x) => Some(x@),
        None => None,
    }
}

/// The arm that an instruction reaches, where its opcode has a name.
pub fn arm_of(isa: &Isa, op: DevOp, a: &Args) -> (r: Option<Arm>)
    ensures
        opt_arm(r) == arm_at(*isa, op, *a),
{
    match op_name(isa, op) {
        Some(s) => Some(Arm { op: s, hd: hd_slot(op, a), variant: variant_name(isa, op, a) }),
        None => None,
    }
}

/// What is read of an instruction of a packet.
#[derive(Clone, Copy, PartialEq, Eq, Debug, Structural)]
pub struct DevInst {
    pub op: DevOp,
    pub args: Args,
    /// Whether the body that mixes in f32 serves it.
    pub f32mix: bool,
}

/// An entry of an instruction stream: an instruction, its segment, and what is marked on it.
#[derive(Clone, Copy, PartialEq, Eq, Debug, Structural)]
pub struct StreamEnt {
    pub inst: u32,
    pub seg: u32,
    pub intra_wave_items: bool,
    pub carry_regstate: bool,
    pub wu_lean: bool,
}

/// A program of a packet.
pub struct PacketProgram {
    pub insts: Vec<DevInst>,
    pub stream: Vec<StreamEnt>,
    /// The stream by segment and domain, with the offsets of each.
    pub gq_stream: Vec<StreamEnt>,
    pub gq_seg_ofs: Vec<u32>,
    pub l2_domains: u32,
    /// The rows that it was compiled for, and whether it serves packed prompts only.
    pub rows: u32,
    pub packed: bool,
}

/// A packet: its tensors' names and its programs, of which those from `decode_lo` on are decode
/// programs.
pub struct Packet {
    pub n_cu: u32,
    pub tensors: Vec<String>,
    pub progs: Vec<PacketProgram>,
    pub decode_lo: usize,
}

/// The set of the arms that the first `n` instructions reach.
pub open spec fn arms_upto(isa: Isa, insts: Seq<DevInst>, n: int) -> Set<ArmView>
    decreases n,
{
    if n <= 0 {
        Set::empty()
    } else {
        with_arm(
            arms_upto(isa, insts, n - 1),
            arm_at(isa, insts[n - 1].op, insts[n - 1].args),
        )
    }
}

/// A set with one more arm, where there is one.
pub open spec fn with_arm(s: Set<ArmView>, a: Option<ArmView>) -> Set<ArmView> {
    match a {
        Some(x) => s.insert(x),
        None => s,
    }
}

/// An instruction's arm is among those of its program, and nothing else is.
pub proof fn arms_come_from_instructions(isa: Isa, insts: Seq<DevInst>, n: int, a: ArmView)
    requires
        0 <= n <= insts.len(),
    ensures
        arms_upto(isa, insts, n).contains(a) <==> exists|i: int|
            0 <= i < n && arm_at(isa, (#[trigger] insts[i]).op, insts[i].args) == Some(a),
    decreases n,
{
    if n > 0 {
        arms_come_from_instructions(isa, insts, n - 1, a);
        let l = insts[n - 1];
        if arms_upto(isa, insts, n).contains(a) && !arms_upto(isa, insts, n - 1).contains(a) {
            assert(arm_at(isa, insts[n - 1].op, insts[n - 1].args) == Some(a));
        }
        if exists|i: int|
            0 <= i < n && arm_at(isa, (#[trigger] insts[i]).op, insts[i].args) == Some(a) {
            let i = choose|i: int|
                0 <= i < n && arm_at(isa, (#[trigger] insts[i]).op, insts[i].args) == Some(a);
            if i < n - 1 {
                assert(arms_upto(isa, insts, n - 1).contains(a));
            }
        }
    }
}

/// Segments of a stream, at least one, from its first `n` entries.
pub open spec fn segments_upto(s: Seq<StreamEnt>, n: int) -> int
    decreases n,
{
    if n <= 0 {
        1
    } else {
        larger(segments_upto(s, n - 1), s[n - 1].seg + 1)
    }
}

/// Segments of a program.
pub open spec fn segment_count(p: PacketProgram) -> int {
    segments_upto(p.stream@, p.stream@.len() as int)
}

/// Whether a program counts as one segment.
pub open spec fn single_segment(p: PacketProgram) -> bool {
    segment_count(p) <= 1 || p.gq_stream@.len() == 0
}

/// Windows of the segmented stream that make up one segment: one to a domain, where the offsets
/// are by domain.
pub open spec fn domains_of(p: PacketProgram) -> int {
    if p.l2_domains != 0 && larger(p.gq_seg_ofs@.len() - 1, 0) == segment_count(p) * p.l2_domains {
        p.l2_domains as int
    } else {
        1
    }
}

/// The part of the segmented stream that is segment `s`: from, to.
pub open spec fn window(p: PacketProgram, s: int) -> (int, int) {
    let d = domains_of(p);
    let n = p.gq_stream@.len() as int;
    (
        smaller(p.gq_seg_ofs@[s * d] as int, n),
        smaller(p.gq_seg_ofs@[s * d + d] as int, n),
    )
}

/// Whether segment `s` is a stretch of the segmented stream, of instructions that exist.
pub open spec fn segment_ok(p: PacketProgram, s: int) -> bool {
    let d = domains_of(p);
    &&& s * d + d < p.gq_seg_ofs@.len()
    &&& window(p, s).0 <= window(p, s).1
    &&& forall|k: int|
        window(p, s).0 <= k < window(p, s).1 ==> (#[trigger] p.gq_stream@[k]).inst
            < p.insts@.len()
}

/// Whether every segment of a program is one.
pub open spec fn segments_ok(p: PacketProgram) -> bool {
    single_segment(p) || forall|s: int| 0 <= s < segment_count(p) ==> #[trigger] segment_ok(p, s)
}

/// Whether every program's segments are sound.
pub open spec fn packet_ok(p: Packet) -> bool {
    forall|i: int| 0 <= i < p.progs@.len() ==> segments_ok(#[trigger] p.progs@[i])
}

/// The arms of a stretch of the segmented stream.
pub open spec fn window_arms(isa: Isa, p: PacketProgram, from: int, to: int) -> Set<ArmView>
    decreases to - from,
{
    if to <= from {
        Set::empty()
    } else {
        let d = p.insts@[p.gq_stream@[to - 1].inst as int];
        with_arm(window_arms(isa, p, from, to - 1), arm_at(isa, d.op, d.args))
    }
}

/// The instructions of a stretch of the segmented stream.
pub open spec fn window_insts(p: PacketProgram, from: int, to: int) -> Set<u32>
    decreases to - from,
{
    if to <= from {
        Set::empty()
    } else {
        window_insts(p, from, to - 1).insert(p.gq_stream@[to - 1].inst)
    }
}

/// The arms of one segment: the segment, where the program has several; the arms; and how many
/// instructions reach them.
pub struct SegmentArms {
    pub seg: Option<u32>,
    pub arms: SortedSet<Arm>,
    pub insts: usize,
}

pub struct SegmentView {
    pub seg: Option<u32>,
    pub arms: Set<ArmView>,
    pub insts: int,
}

impl View for SegmentArms {
    type V = SegmentView;

    open spec fn view(&self) -> SegmentView {
        SegmentView { seg: self.seg, arms: self.arms@, insts: self.insts as int }
    }
}

/// Segment `s` of a program of several.
pub open spec fn segment_at(isa: Isa, p: PacketProgram, s: int) -> SegmentView {
    let w = window(p, s);
    SegmentView {
        seg: Some(s as u32),
        arms: window_arms(isa, p, w.0, w.1),
        insts: listing::<u32>(window_insts(p, w.0, w.1)).len() as int,
    }
}

/// The segments of a program.
pub open spec fn segments_of(isa: Isa, p: PacketProgram) -> Seq<SegmentView> {
    if single_segment(p) {
        seq![
            SegmentView {
                seg: None,
                arms: arms_upto(isa, p.insts@, p.insts@.len() as int),
                insts: p.insts@.len() as int,
            },
        ]
    } else {
        Seq::new(segment_count(p) as nat, |s: int| segment_at(isa, p, s))
    }
}

/// Whether the sets of a list of segments are in order.
pub open spec fn segments_wf(v: Seq<SegmentArms>) -> bool {
    forall|i: int| 0 <= i < v.len() ==> (#[trigger] v[i]).arms.wf()
}


fn count_segments(s: &Vec<StreamEnt>) -> (r: u64)
    ensures
        r == segments_upto(s@, s@.len() as int),
        1 <= r <= 0x1_0000_0000,
{
    let mut r: u64 = 1;
    let mut i: usize = 0;
    while i < s.len()
        invariant
            i <= s@.len(),
            r == segments_upto(s@, i as int),
            1 <= r <= 0x1_0000_0000,
        decreases s@.len() - i,
    {
        let e: StreamEnt = s[i];
        if e.seg as u64 + 1 > r {
            r = e.seg as u64 + 1;
        }
        i = i + 1;
    }
    r
}

fn domains(p: &PacketProgram, n_seg: u64) -> (r: u64)
    requires
        n_seg == segment_count(*p),
        n_seg <= 0x1_0000_0000,
    ensures
        r == domains_of(*p),
        r >= 1,
{
    let l: usize = p.gq_seg_ofs.len();
    let windows: u64 = if l == 0 { 0 } else { (l - 1) as u64 };
    proof {
        crate::arith::mul_le(
            n_seg as int,
            p.l2_domains as int,
            0x1_0000_0000,
            0xFFFF_FFFF,
        );
    }
    if p.l2_domains != 0 && windows == n_seg * (p.l2_domains as u64) {
        p.l2_domains as u64
    } else {
        1
    }
}

/// All the arms that a program's instructions reach.
fn all_arms(isa: &Isa, insts: &Vec<DevInst>) -> (r: SortedSet<Arm>)
    ensures
        r.wf(),
        r@ == arms_upto(*isa, insts@, insts@.len() as int),
{
    let mut r: SortedSet<Arm> = SortedSet::new();
    let mut i: usize = 0;
    while i < insts.len()
        invariant
            i <= insts@.len(),
            r.wf(),
            r@ == arms_upto(*isa, insts@, i as int),
        decreases insts@.len() - i,
    {
        let d: DevInst = insts[i];
        if let Some(a) = arm_of(isa, d.op, &d.args) {
            r.insert(a);
        }
        i = i + 1;
    }
    r
}

/// A position in the segmented stream, held to its length.
fn clipped(ofs: u32, n: usize) -> (r: usize)
    ensures
        r == smaller(ofs as int, n as int),
{
    if (ofs as u64) < n as u64 { ofs as usize } else { n }
}

fn one_segment(isa: &Isa, p: &PacketProgram, s: u64, d: u64) -> (r: SegmentArms)
    requires
        d == domains_of(*p),
        segment_ok(*p, s as int),
        s < 0x1_0000_0000,
    ensures
        r.arms.wf(),
        r@ == segment_at(*isa, *p, s as int),
{
    let l: usize = p.gq_seg_ofs.len();
    proof {
        assert(s * d + d < l);
        assert(s * d >= 0) by (nonlinear_arith);
    }
    let w: usize = (s * d) as usize;
    let n: usize = p.gq_stream.len();
    let a: usize = clipped(p.gq_seg_ofs[w], n);
    let b: usize = clipped(p.gq_seg_ofs[w + d as usize], n);
    let mut arms: SortedSet<Arm> = SortedSet::new();
    let mut seen: SortedSet<u32> = SortedSet::new();
    let mut k: usize = a;
    while k < b
        invariant
            a <= k <= b <= n,
            n == p.gq_stream@.len(),
            a == window(*p, s as int).0,
            b == window(*p, s as int).1,
            segment_ok(*p, s as int),
            arms.wf(),
            seen.wf(),
            arms@ == window_arms(*isa, *p, a as int, k as int),
            seen@ == window_insts(*p, a as int, k as int),
        decreases b - k,
    {
        let e: StreamEnt = p.gq_stream[k];
        proof {
            assert(p.gq_stream@[k as int].inst < p.insts@.len());
        }
        let t: DevInst = p.insts[e.inst as usize];
        seen.insert(e.inst);
        if let Some(x) = arm_of(isa, t.op, &t.args) {
            arms.insert(x);
        }
        k = k + 1;
    }
    proof {
        seen.items_are_the_listing();
        assert(views(seen.items@).len() == seen.items@.len());
    }
    SegmentArms { seg: Some(s as u32), arms, insts: seen.items.len() }
}

/// The arms of a program, by segment.
pub fn segment_arms(isa: &Isa, p: &PacketProgram) -> (r: Vec<SegmentArms>)
    requires
        segments_ok(*p),
    ensures
        segments_wf(r@),
        views(r@) == segments_of(*isa, *p),
{
    let n_seg: u64 = count_segments(&p.stream);
    let mut r: Vec<SegmentArms> = Vec::new();
    if n_seg <= 1 || p.gq_stream.len() == 0 {
        r.push(SegmentArms {
            seg: None,
            arms: all_arms(isa, &p.insts),
            insts: p.insts.len(),
        });
        proof {
            assert(views(r@) =~= segments_of(*isa, *p));
        }
        return r;
    }
    let d: u64 = domains(p, n_seg);
    let mut s: u64 = 0;
    while s < n_seg
        invariant
            s <= n_seg <= 0x1_0000_0000,
            n_seg == segment_count(*p),
            d == domains_of(*p),
            !single_segment(*p),
            segments_ok(*p),
            segments_wf(r@),
            r@.len() == s,
            forall|i: int| 0 <= i < s ==> (#[trigger] r@[i])@ == segment_at(*isa, *p, i),
        decreases n_seg - s,
    {
        proof {
            assert(segment_ok(*p, s as int));
        }
        let g: SegmentArms = one_segment(isa, p, s, d);
        r.push(g);
        s = s + 1;
    }
    proof {
        assert(views(r@) =~= segments_of(*isa, *p));
    }
    r
}

/// Whether every segment of a program is a stretch of instructions that exist.
fn segments_fit(p: &PacketProgram) -> (r: bool)
    ensures
        r == segments_ok(*p),
{
    let n_seg: u64 = count_segments(&p.stream);
    if n_seg <= 1 || p.gq_stream.len() == 0 {
        return true;
    }
    let d: u64 = domains(p, n_seg);
    let l: usize = p.gq_seg_ofs.len();
    let n: usize = p.gq_stream.len();
    let mut s: u64 = 0;
    while s < n_seg
        invariant
            s <= n_seg <= 0x1_0000_0000,
            n_seg == segment_count(*p),
            d == domains_of(*p),
            1 <= d <= 0xFFFF_FFFF,
            l == p.gq_seg_ofs@.len(),
            n == p.gq_stream@.len(),
            !single_segment(*p),
            forall|i: int| 0 <= i < s ==> #[trigger] segment_ok(*p, i),
        decreases n_seg - s,
    {
        proof {
            crate::arith::mul_le(s as int, d as int, 0xFFFF_FFFF, 0xFFFF_FFFF);
            assert(s * d >= 0) by (nonlinear_arith);
        }
        let ok: bool = s * d + d < l as u64 && segment_fits(p, s, d);
        if !ok {
            proof {
                assert(!segment_ok(*p, s as int));
            }
            return false;
        }
        s = s + 1;
    }
    true
}

fn segment_fits(p: &PacketProgram, s: u64, d: u64) -> (r: bool)
    requires
        d == domains_of(*p),
        s * d + d < p.gq_seg_ofs@.len(),
    ensures
        r == segment_ok(*p, s as int),
{
    proof {
        assert(s * d >= 0) by (nonlinear_arith);
    }
    let l: usize = p.gq_seg_ofs.len();
    let w: usize = (s * d) as usize;
    let n: usize = p.gq_stream.len();
    let a: usize = clipped(p.gq_seg_ofs[w], n);
    let b: usize = clipped(p.gq_seg_ofs[w + d as usize], n);
    if a > b {
        return false;
    }
    let mut k: usize = a;
    while k < b
        invariant
            a <= k <= b <= n,
            n == p.gq_stream@.len(),
            a == window(*p, s as int).0,
            b == window(*p, s as int).1,
            forall|i: int| a <= i < k ==> (#[trigger] p.gq_stream@[i]).inst < p.insts@.len(),
        decreases b - k,
    {
        if p.gq_stream[k].inst as u64 >= p.insts.len() as u64 {
            return false;
        }
        k = k + 1;
    }
    true
}

/// Whether every program's segments are sound.
pub fn packet_fits(p: &Packet) -> (r: bool)
    ensures
        r == packet_ok(*p),
{
    let mut i: usize = 0;
    while i < p.progs.len()
        invariant
            i <= p.progs@.len(),
            forall|j: int| 0 <= j < i ==> segments_ok(#[trigger] p.progs@[j]),
        decreases p.progs@.len() - i,
    {
        if !segments_fit(&p.progs[i]) {
            proof {
                assert(!segments_ok(p.progs@[i as int]));
            }
            return false;
        }
        i = i + 1;
    }
    true
}

/// The arms of a program, or of one segment of it.
pub struct ProgramArms {
    /// The program's position in the packet.
    pub program: usize,
    pub decode: bool,
    pub packed_prefill_only: bool,
    /// The rows of a prefill program, or the batch of a decode program.
    pub t: u32,
    pub seg: Option<u32>,
    pub arms: SortedSet<Arm>,
    /// How many instructions reach the arms.
    pub insts: usize,
}

pub struct ProgramView {
    pub program: usize,
    pub decode: bool,
    pub packed_prefill_only: bool,
    pub t: u32,
    pub seg: Option<u32>,
    pub arms: Set<ArmView>,
    pub insts: int,
}

impl View for ProgramArms {
    type V = ProgramView;

    open spec fn view(&self) -> ProgramView {
        ProgramView {
            program: self.program,
            decode: self.decode,
            packed_prefill_only: self.packed_prefill_only,
            t: self.t,
            seg: self.seg,
            arms: self.arms@,
            insts: self.insts as int,
        }
    }
}

/// Whether the sets of a list of programs are in order.
pub open spec fn programs_wf(v: Seq<ProgramArms>) -> bool {
    forall|i: int| 0 <= i < v.len() ==> (#[trigger] v[i]).arms.wf()
}

/// A segment of program `pi`.
pub open spec fn program_row(p: Packet, pi: int, g: SegmentView) -> ProgramView {
    ProgramView {
        program: pi as usize,
        decode: pi >= p.decode_lo,
        packed_prefill_only: p.progs@[pi].packed,
        t: p.progs@[pi].rows,
        seg: g.seg,
        arms: g.arms,
        insts: g.insts,
    }
}

/// The segments of program `pi`.
pub open spec fn program_rows(isa: Isa, p: Packet, pi: int) -> Seq<ProgramView> {
    let gs = segments_of(isa, p.progs@[pi]);
    Seq::new(gs.len(), |k: int| program_row(p, pi, gs[k]))
}

/// The segments of the first `n` programs.
pub open spec fn rows_upto(isa: Isa, p: Packet, n: int) -> Seq<ProgramView>
    decreases n,
{
    if n <= 0 {
        Seq::empty()
    } else {
        rows_upto(isa, p, n - 1) + program_rows(isa, p, n - 1)
    }
}

/// The segments of a packet's programs.
pub open spec fn packet_rows(isa: Isa, p: Packet) -> Seq<ProgramView> {
    rows_upto(isa, p, p.progs@.len() as int)
}

/// The arms of a packet's programs, by segment.
pub fn program_arms(isa: &Isa, p: &Packet) -> (r: Vec<ProgramArms>)
    requires
        packet_ok(*p),
    ensures
        programs_wf(r@),
        views(r@) == packet_rows(*isa, *p),
{
    let mut r: Vec<ProgramArms> = Vec::new();
    let mut pi: usize = 0;
    proof {
        assert(views(r@) =~= rows_upto(*isa, *p, 0));
    }
    while pi < p.progs.len()
        invariant
            pi <= p.progs@.len(),
            packet_ok(*p),
            programs_wf(r@),
            views(r@) == rows_upto(*isa, *p, pi as int),
        decreases p.progs@.len() - pi,
    {
        proof {
            assert(segments_ok(p.progs@[pi as int]));
        }
        let mut segs: Vec<SegmentArms> = segment_arms(isa, &p.progs[pi]);
        let ghost all = views(segs@);
        let ghost before = views(r@);
        let n: usize = segs.len();
        let mut rest: Vec<SegmentArms> = Vec::new();
        let mut k: usize = n;
        while k > 0
            invariant
                k <= n,
                n == all.len(),
                segs@.len() == k,
                rest@.len() == n - k,
                segments_wf(segs@),
                segments_wf(rest@),
                forall|i: int| 0 <= i < k ==> (#[trigger] segs@[i])@ == all[i],
                forall|i: int| 0 <= i < n - k ==> (#[trigger] rest@[i])@ == all[n - 1 - i],
            decreases k,
        {
            if let Some(g) = segs.pop() {
                rest.push(g);
            }
            k = k - 1;
        }
        let mut k: usize = 0;
        while k < n
            invariant
                k <= n,
                n == all.len(),
                pi < p.progs@.len(),
                all == segments_of(*isa, p.progs@[pi as int]),
                rest@.len() == n - k,
                segments_wf(rest@),
                forall|i: int| 0 <= i < n - k ==> (#[trigger] rest@[i])@ == all[n - 1 - i],
                programs_wf(r@),
                views(r@) == before + program_rows(*isa, *p, pi as int).take(k as int),
            decreases n - k,
        {
            let ghost top = rest@[n - k - 1]@;
            if let Some(g) = rest.pop() {
                let ghost sofar = views(r@);
                r.push(
                    ProgramArms {
                        program: pi,
                        decode: pi >= p.decode_lo,
                        packed_prefill_only: p.progs[pi].packed,
                        t: p.progs[pi].rows,
                        seg: g.seg,
                        arms: g.arms,
                        insts: g.insts,
                    },
                );
                proof {
                    let rows = program_rows(*isa, *p, pi as int);
                    assert(views(r@) =~= sofar.push(rows[k as int]));
                    assert(rows.take(k as int + 1) =~= rows.take(k as int).push(rows[k as int]));
                }
            }
            k = k + 1;
        }
        proof {
            let rows = program_rows(*isa, *p, pi as int);
            assert(rows.take(n as int) =~= rows);
        }
        pi = pi + 1;
    }
    r
}

} // verus!
