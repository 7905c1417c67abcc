//! Reductions over the devices that share a model.
use vstd::prelude::*;

use crate::arith::{ceil_div, div_ceil, larger, max_u32, min_u32, smaller};
use crate::builder::{Emission, Emitted};
use crate::emit_config::EmitConfig;
use crate::isa::{
    after1, blank, cus, deps_view, first_cus, inst, no_args, on1, Args, CuRange, Dep, DepView,
    DevOp, TENSOR_NONE,
};

verus! {

/// The compute units of a reduction of `elems` elements, of the `avail` set aside for it: one to
/// 512 elements, and at least one.
pub open spec fn reduce_cus(elems: u32, avail: u32) -> CuRange {
    first_cus(smaller(larger(ceil_div(elems as int, 512), 1), avail as int))
}

fn need_cus(elems: u32, avail: u32) -> (r: CuRange)
    ensures
        r == reduce_cus(elems, avail),
{
    cus(min_u32(max_u32(div_ceil(elems, 512), 1), avail))
}

/// A gather that rides on a reduction: its window's byte offset, the columns of one device, and
/// the width of a whole row.
#[derive(Clone, Copy, PartialEq, Eq, Debug, Structural)]
pub struct Gather {
    pub slot: u32,
    pub cols: u32,
    pub row_w: u32,
}

/// What is reduced: the local result, its elements, the devices, and the window's byte offset.
#[derive(Clone, Copy, PartialEq, Eq, Debug, Structural)]
pub struct Reduction {
    pub out: u32,
    pub elems: u32,
    pub tp: u32,
    pub slot: u32,
}

/// Whether a gather's rows are made up of the devices' columns.
pub open spec fn gather_spans_rows(g: Gather, tp: u32) -> bool {
    g.row_w == smaller(tp * g.cols, u32::MAX as int)
}

/// Whether a reduction runs in one round: a decode step does, and a prefill with a gather that the
/// two-round form cannot carry.
pub open spec fn one_shot(k: EmitConfig, decode: bool, tp: u32, gather: Option<Gather>) -> bool {
    decode || (match gather {
        Some(g) => !(k.xr2_gather && gather_spans_rows(g, tp)),
        None => false,
    })
}

/// A reduction: in one round under one gate, or as a scatter and a gather under two.
pub open spec fn reduce(
    s: Emitted,
    k: EmitConfig,
    decode: bool,
    avail: u32,
    deps: Seq<DepView>,
    d: Reduction,
    gather: Option<Gather>,
) -> (Emitted, u32) {
    let on = reduce_cus(d.elems, avail);
    if one_shot(k, decode, d.tp, gather) {
        let s1 = s.with_gate((s.xgate + 1) as u32);
        let g = match gather {
            Some(g) => g,
            None => Gather { slot: 0, cols: 0, row_w: 0 },
        };
        (
            s1.then_inst(
                inst(
                    DevOp::XReduce,
                    on,
                    deps,
                    Args {
                        t0: d.out,
                        i0: d.elems,
                        i1: d.tp,
                        i2: d.slot,
                        i3: s.xgate,
                        i4: g.slot,
                        i5: g.cols,
                        i6: g.row_w,
                        ..no_args()
                    },
                ),
            ),
            s.next(),
        )
    } else {
        let s2 = s.with_gate((s.xgate + 2) as u32);
        (
            s2.then_inst(
                inst(
                    DevOp::XReduceTwoShot,
                    on,
                    deps,
                    Args {
                        t0: d.out,
                        i0: d.elems,
                        i1: d.tp,
                        i2: d.slot,
                        i3: s.xgate,
                        i4: (s.xgate + 1) as u32,
                        i6: match gather {
                            Some(g) => g.slot,
                            None => 0,
                        },
                        i7: match gather {
                            Some(g) => g.cols,
                            None => 0,
                        },
                        ..no_args()
                    },
                ),
            ),
            s.next(),
        )
    }
}

fn saturating_mul_u32(a: u32, b: u32) -> (r: u32)
    ensures
        r == smaller(a * b, u32::MAX as int),
{
    proof {
        crate::arith::mul_le(a as int, b as int, u32::MAX as int, u32::MAX as int);
    }
    let v: u64 = a as u64 * b as u64;
    if v <= u32::MAX as u64 { v as u32 } else { u32::MAX }
}

/// A reduction, with a gather that may ride on it.
pub fn emit_xreduce_gather(
    s: &mut Emission,
    k: &EmitConfig,
    decode: bool,
    avail: u32,
    deps: Vec<Dep>,
    d: Reduction,
    gather: Option<Gather>,
) -> (r: u32)
    requires
        old(s)@.room(2),
    ensures
        (final(s)@, r) == reduce(old(s)@, *k, decode, avail, deps_view(deps@), d, gather),
        final(s)@.within(old(s)@, 2),
        final(s)@.insts.len() == old(s)@.insts.len() + 1,
        final(s)@.tmaps == old(s)@.tmaps,
        r == old(s)@.next(),
{
    let on: CuRange = need_cus(d.elems, avail);
    let folded: bool = match gather {
        Some(g) => k.xr2_gather && g.row_w == saturating_mul_u32(d.tp, g.cols),
        None => true,
    };
    if decode || !folded {
        let gate: u32 = s.take_gate();
        let g: Gather = match gather {
            Some(g) => g,
            None => Gather { slot: 0, cols: 0, row_w: 0 },
        };
        s.emit(
            DevOp::XReduce,
            on,
            deps,
            Args {
                t0: d.out,
                i0: d.elems,
                i1: d.tp,
                i2: d.slot,
                i3: gate,
                i4: g.slot,
                i5: g.cols,
                i6: g.row_w,
                ..blank()
            },
        )
    } else {
        let gate_rs: u32 = s.take_gate();
        let gate_ag: u32 = s.take_gate();
        let (gslot, gcols) = match gather {
            Some(g) => (g.slot, g.cols),
            None => (0u32, 0u32),
        };
        s.emit(
            DevOp::XReduceTwoShot,
            on,
            deps,
            Args {
                t0: d.out,
                i0: d.elems,
                i1: d.tp,
                i2: d.slot,
                i3: gate_rs,
                i4: gate_ag,
                i6: gslot,
                i7: gcols,
                ..blank()
            },
        )
    }
}

/// A reduction without a gather.
pub fn emit_xreduce(
    s: &mut Emission,
    k: &EmitConfig,
    decode: bool,
    avail: u32,
    dep: u32,
    d: Reduction,
) -> (r: u32)
    requires
        old(s)@.room(2),
    ensures
        (final(s)@, r) == reduce(old(s)@, *k, decode, avail, on1(dep), d, None),
        final(s)@.within(old(s)@, 2),
        final(s)@.insts.len() == old(s)@.insts.len() + 1,
        final(s)@.tmaps == old(s)@.tmaps,
        r == old(s)@.next(),
{
    emit_xreduce_gather(s, k, decode, avail, after1(dep), d, None)
}

/// Gates are handed out in order and none twice: a reduction uses the next one or two, and the
/// program's next free gate lies past them.
pub proof fn a_reduction_takes_fresh_gates(
    s: Emitted,
    k: EmitConfig,
    decode: bool,
    avail: u32,
    deps: Seq<DepView>,
    d: Reduction,
    gather: Option<Gather>,
)
    requires
        s.room(2),
    ensures
        ({
            let (s1, r) = reduce(s, k, decode, avail, deps, d, gather);
            let i = s1.insts.last();
            &&& s1.insts.len() == s.insts.len() + 1
            &&& i.args.i3 == s.xgate
            &&& i.op == DevOp::XReduce ==> s1.xgate == s.xgate + 1
            &&& i.op == DevOp::XReduceTwoShot ==> i.args.i4 == s.xgate + 1 && s1.xgate == s.xgate
                + 2
            &&& i.op == DevOp::XReduce || i.op == DevOp::XReduceTwoShot
        }),
{
}

/// A band of a two-round reduction: its element offset, and the residual it is added to with the
/// place for the sum.
#[derive(Clone, Copy)]
pub struct Band {
    pub e0: u32,
    pub residual: Option<(u32, u32)>,
}

/// One band of a two-round reduction. The window's offset is that of the whole region.
pub open spec fn reduce_band(
    s: Emitted,
    avail: u32,
    deps: Seq<DepView>,
    d: Reduction,
    b: Band,
) -> (Emitted, u32) {
    let s2 = s.with_gate((s.xgate + 2) as u32);
    (
        s2.then_inst(
            inst(
                DevOp::XReduceTwoShot,
                reduce_cus(d.elems, avail),
                deps,
                Args {
                    t0: d.out,
                    t1: match b.residual {
                        Some(r) => r.0,
                        None => TENSOR_NONE,
                    },
                    t2: match b.residual {
                        Some(r) => r.1,
                        None => TENSOR_NONE,
                    },
                    i0: d.elems,
                    i1: d.tp,
                    i2: d.slot,
                    i3: s.xgate,
                    i4: (s.xgate + 1) as u32,
                    i5: b.e0,
                    ..no_args()
                },
            ),
        ),
        s.next(),
    )
}

pub fn emit_xreduce_twoshot_band(
    s: &mut Emission,
    avail: u32,
    deps: Vec<Dep>,
    d: Reduction,
    b: Band,
) -> (r: u32)
    requires
        old(s)@.room(2),
    ensures
        (final(s)@, r) == reduce_band(old(s)@, avail, deps_view(deps@), d, b),
{
    let on: CuRange = need_cus(d.elems, avail);
    let gate_rs: u32 = s.take_gate();
    let gate_ag: u32 = s.take_gate();
    let (r1, r2) = match b.residual {
        Some(r) => r,
        None => (TENSOR_NONE, TENSOR_NONE),
    };
    s.emit(
        DevOp::XReduceTwoShot,
        on,
        deps,
        Args {
            t0: d.out,
            t1: r1,
            t2: r2,
            i0: d.elems,
            i1: d.tp,
            i2: d.slot,
            i3: gate_rs,
            i4: gate_ag,
            i5: b.e0,
            ..blank()
        },
    )
}

/// An exchange of heads: rows of one device, heads of one device and of all, their width, the
/// devices, the window's byte offset, and the direction, 0 towards the queries and 1 back.
#[derive(Clone, Copy, PartialEq, Eq, Debug, Structural)]
pub struct HeadExchange {
    pub dst: u32,
    pub rows: u32,
    pub nh_local: u32,
    pub d: u32,
    pub nh_total: u32,
    pub tp: u32,
    pub slot_bytes: u32,
    pub dir: u32,
}

/// Every device sends each other device its share of the heads, under one gate.
pub fn emit_xalltoall_heads(s: &mut Emission, on: CuRange, deps: Vec<Dep>, x: HeadExchange) -> (r: u32)
    requires
        old(s)@.room(1),
        x.nh_total == x.nh_local * x.tp,
        x.dir <= 1,
    ensures
        final(s)@ == old(s)@.with_gate((old(s)@.xgate + 1) as u32).then_inst(
            inst(
                DevOp::XAllToAllHeads,
                on,
                deps_view(deps@),
                (Args {
                    t0: x.dst,
                    i0: x.rows,
                    i1: x.nh_local,
                    i2: x.d,
                    i3: x.nh_total,
                    i4: old(s)@.xgate,
                    i5: x.tp,
                    i6: x.slot_bytes,
                    i7: x.dir,
                    ..no_args()
                }),
            ),
        ),
        r == old(s)@.next(),
{
    let gate: u32 = s.take_gate();
    s.emit(
        DevOp::XAllToAllHeads,
        on,
        deps,
        Args {
            t0: x.dst,
            i0: x.rows,
            i1: x.nh_local,
            i2: x.d,
            i3: x.nh_total,
            i4: gate,
            i5: x.tp,
            i6: x.slot_bytes,
            i7: x.dir,
            ..blank()
        },
    )
}

} // verus!
