//! Instructions that several stages of a program share.
use vstd::prelude::*;

use crate::arith::{ceil_div, div_ceil, larger, max_u32, min_u32, smaller};
use crate::builder::{Emission, Emitted, TmapDecl, TmapKind};
use crate::emit_config::EmitConfig;
use crate::gemm::{has_tile, pick_tile, tile_op, Field, QuantScheme, TileTable};
use crate::isa::{
    after1, blank, cus, deps_view, first_cus, inst, no_args, on1, Args, CuRange, Dep, DepView,
    DevOp, InstView, TENSOR_NONE,
};
use crate::phase::Phase;
use crate::shape::{capped_range, gemv_wg_cap};

verus! {

/// The compute units of an elementwise step over `n` elements.
pub open spec fn elem_cus(p: Phase, n: u32) -> CuRange {
    first_cus(smaller(larger(ceil_div(n as int, 4096), 1), p.n_cu as int))
}

pub fn elem(p: &Phase, n: u32) -> (r: CuRange)
    ensures
        r == elem_cus(*p, n),
{
    cus(min_u32(max_u32(div_ceil(n, 4096), 1), p.n_cu))
}

/// A row norm, with its quantized copy where `xq` and `ascale` are bound.
pub open spec fn rms_norm(
    p: Phase,
    out: u32,
    x: u32,
    gamma: u32,
    xq: u32,
    ascale: u32,
    after: Seq<DepView>,
) -> InstView {
    inst(
        DevOp::RmsNorm,
        first_cus(p.rows as int),
        after,
        Args {
            t0: out,
            t1: x,
            t2: gamma,
            t3: xq,
            t4: ascale,
            i0: p.t,
            i1: p.hidden,
            f0: p.eps,
            ..no_args()
        },
    )
}

pub fn emit_rms_norm(
    s: &mut Emission,
    p: &Phase,
    out: u32,
    x: u32,
    gamma: u32,
    xq: u32,
    ascale: u32,
    deps: Vec<Dep>,
) -> (r: u32)
    requires
        old(s)@.room(1),
    ensures
        final(s)@ == old(s)@.then_inst(
            rms_norm(*p, out, x, gamma, xq, ascale, deps_view(deps@)),
        ),
        r == old(s)@.next(),
{
    s.emit(
        DevOp::RmsNorm,
        cus(p.rows),
        deps,
        Args {
            t0: out,
            t1: x,
            t2: gamma,
            t3: xq,
            t4: ascale,
            i0: p.t,
            i1: p.hidden,
            f0: p.eps,
            ..blank()
        },
    )
}

/// The activation quantization of a tiled product's input.
pub open spec fn quant_inst(p: Phase, xq: u32, ascale: u32, src: u32, k: u32, after: u32) -> InstView {
    inst(
        DevOp::QuantFp8,
        first_cus(p.rows as int),
        on1(after),
        Args { t0: xq, t1: src, t2: ascale, i0: p.t, i1: k, ..no_args() },
    )
}

/// Quantizes a product's input where activations are narrow, and says what the product waits for.
pub open spec fn quant(
    s: Emitted,
    p: Phase,
    xq: u32,
    ascale: u32,
    src: u32,
    k: u32,
    after: u32,
) -> (Emitted, u32) {
    if !p.w8a8 {
        (s, after)
    } else {
        (s.then_inst(quant_inst(p, xq, ascale, src, k, after)), s.next())
    }
}

pub fn emit_quant(
    s: &mut Emission,
    p: &Phase,
    xq: u32,
    ascale: u32,
    src: u32,
    k: u32,
    after: u32,
) -> (r: u32)
    requires
        old(s)@.room(1),
    ensures
        (final(s)@, r) == quant(old(s)@, *p, xq, ascale, src, k, after),
        final(s)@.within(old(s)@, 1),
{
    if !p.w8a8 {
        return after;
    }
    s.emit(
        DevOp::QuantFp8,
        cus(p.rows),
        after1(after),
        Args { t0: xq, t1: src, t2: ascale, i0: p.t, i1: k, ..blank() },
    )
}

/// The tensor map of a `rows x k` view.
pub open spec fn view_map(target: u32, rows: u32, k: u32, e4m3: bool) -> TmapDecl {
    TmapDecl {
        a: target,
        b: rows,
        c: k,
        kind: if e4m3 { TmapKind::E4m3 } else { TmapKind::Bf16 },
    }
}

fn make_view_map(target: u32, rows: u32, k: u32, e4m3: bool) -> (r: TmapDecl)
    ensures
        r == view_map(target, rows, k, e4m3),
{
    TmapDecl {
        a: target,
        b: rows,
        c: k,
        kind: if e4m3 { TmapKind::E4m3 } else { TmapKind::Bf16 },
    }
}

/// Two tensor maps where `on` holds, and handles of zero elsewhere.
pub open spec fn two_maps(s: Emitted, on: bool, d: TmapDecl, e: TmapDecl) -> (Emitted, u32, u32) {
    if on {
        (s.with_tmap(d).with_tmap(e), s.tmap(d), s.with_tmap(d).tmap(e))
    } else {
        (s, 0, 0)
    }
}

fn mint_two(s: &mut Emission, on: bool, d: TmapDecl, e: TmapDecl) -> (r: (u32, u32))
    requires
        old(s)@.room(2),
    ensures
        (final(s)@, r.0, r.1) == two_maps(old(s)@, on, d, e),
        final(s)@.within(old(s)@, 2),
        final(s)@.insts == old(s)@.insts,
{
    if on {
        let a: u32 = s.tmap(d);
        let b: u32 = s.tmap(e);
        (a, b)
    } else {
        (0, 0)
    }
}

/// Three tensor maps where `on` holds, and handles of zero elsewhere.
pub open spec fn three_maps(
    s: Emitted,
    on: bool,
    d: TmapDecl,
    e: TmapDecl,
    f: TmapDecl,
) -> (Emitted, u32, u32, u32) {
    if on {
        let s1 = s.with_tmap(d);
        let s2 = s1.with_tmap(e);
        (s2.with_tmap(f), s.tmap(d), s1.tmap(e), s2.tmap(f))
    } else {
        (s, 0, 0, 0)
    }
}

/// The tensor maps of a gate and up pair: their input and their two weights.
pub open spec fn glu_maps(
    s: Emitted,
    on: bool,
    src: u32,
    wg: u32,
    wu: u32,
    t: u32,
    inter: u32,
    hidden: u32,
    e4m3: bool,
) -> (Emitted, u32, u32, u32) {
    three_maps(
        s,
        on,
        view_map(src, t, hidden, e4m3),
        view_map(wg, inter, hidden, e4m3),
        view_map(wu, inter, hidden, e4m3),
    )
}

pub fn mint_glu_maps(
    s: &mut Emission,
    on: bool,
    src: u32,
    wg: u32,
    wu: u32,
    t: u32,
    inter: u32,
    hidden: u32,
    e4m3: bool,
) -> (r: (u32, u32, u32))
    requires
        old(s)@.room(3),
    ensures
        (final(s)@, r.0, r.1, r.2) == glu_maps(
            old(s)@,
            on,
            src,
            wg,
            wu,
            t,
            inter,
            hidden,
            e4m3,
        ),
        final(s)@.within(old(s)@, 3),
        final(s)@.insts == old(s)@.insts,
{
    if on {
        let a: u32 = s.tmap(make_view_map(src, t, hidden, e4m3));
        let b: u32 = s.tmap(make_view_map(wg, inter, hidden, e4m3));
        let c: u32 = s.tmap(make_view_map(wu, inter, hidden, e4m3));
        (a, b, c)
    } else {
        (0, 0, 0)
    }
}

/// The tensor maps of a product's two operands: `m x k` and `n x k`.
pub open spec fn operand_maps(
    s: Emitted,
    on: bool,
    a: u32,
    b: u32,
    m: u32,
    n: u32,
    k: u32,
    e4m3: bool,
) -> (Emitted, u32, u32) {
    two_maps(s, on, view_map(a, m, k, e4m3), view_map(b, n, k, e4m3))
}

pub fn mint_operand_maps(
    s: &mut Emission,
    on: bool,
    a: u32,
    b: u32,
    m: u32,
    n: u32,
    k: u32,
    e4m3: bool,
) -> (r: (u32, u32))
    requires
        old(s)@.room(2),
    ensures
        (final(s)@, r.0, r.1) == operand_maps(old(s)@, on, a, b, m, n, k, e4m3),
        final(s)@.within(old(s)@, 2),
        final(s)@.insts == old(s)@.insts,
{
    mint_two(s, on, make_view_map(a, m, k, e4m3), make_view_map(b, n, k, e4m3))
}

/// Whether a tile's kernel reads its operands through tensor maps.
pub open spec fn mapped(op: DevOp) -> bool {
    op == DevOp::Gemm || op == DevOp::GemmMed || op == DevOp::GemmSmall
}

/// Whether an e4m3 tile's kernel reads its operands through tensor maps.
pub open spec fn mapped_fp8(op: DevOp) -> bool {
    op == DevOp::GemmFp8 || op == DevOp::GemmMedFp8 || op == DevOp::GemmSmallFp8
}

/// A projection: an `m x k` input times an `n x k` weight. `w` is the weight, `w8` and `scale` its
/// narrow twin and that one's scales, `xq` and `ascale` the narrow copy of the input.
#[derive(Clone, Copy, PartialEq, Eq, Debug, Structural)]
pub struct Proj {
    pub out: u32,
    pub a: u32,
    pub w: u32,
    pub w8: u32,
    pub scale: u32,
    pub xq: u32,
    pub ascale: u32,
    pub m: u32,
    pub n: u32,
    pub k: u32,
}

/// The narrow tiled form of a projection.
pub open spec fn fp8_tile_args(p: Phase, j: Proj, ma: u32, mb: u32) -> Args {
    Args {
        t0: j.out,
        t1: if p.w8a8 { j.xq } else { j.a },
        t2: j.w8,
        t3: if p.w8a8 { j.ascale } else { TENSOR_NONE },
        t4: j.scale,
        i0: j.m,
        i1: j.n,
        i2: j.k,
        i6: ma,
        i7: mb,
        ..no_args()
    }
}

/// The opcode and the compute units of a projection of four-bit weights.
pub open spec fn mx_kernel(p: Phase, k: EmitConfig, tab: TileTable, j: Proj, on: CuRange) -> (
    DevOp,
    CuRange,
) {
    if p.gemv {
        (DevOp::GemvMxfp4, capped_range(k, on))
    } else {
        (tile_op(p.priced, tab, j.m, j.n, j.k, QuantScheme::Mxfp4), on)
    }
}

/// A projection of four-bit weights: the activations are bf16.
pub open spec fn mx_args(p: Phase, j: Proj) -> Args {
    Args {
        t0: j.out,
        t1: j.a,
        t2: j.w8,
        t4: if p.gemv { TENSOR_NONE } else { j.scale },
        t5: if p.gemv { j.scale } else { TENSOR_NONE },
        i0: j.m,
        i1: j.n,
        i2: j.k,
        ..no_args()
    }
}

/// A projection as the program's kernels compute it: a row product or a tiled product, of narrow
/// weights or of bf16 weights.
pub open spec fn project(
    s: Emitted,
    p: Phase,
    k: EmitConfig,
    tab: TileTable,
    j: Proj,
    on: CuRange,
    after: u32,
) -> (Emitted, u32) {
    if p.mx {
        let (op, cus) = mx_kernel(p, k, tab, j, on);
        (s.then_inst(inst(op, cus, on1(after), mx_args(p, j))), s.next())
    } else if p.gemv && p.fp8 {
        (
            s.then_inst(
                inst(
                    DevOp::GemvFp8,
                    capped_range(k, on),
                    on1(after),
                    Args {
                        t0: j.out,
                        t1: j.a,
                        t2: j.w8,
                        t5: j.scale,
                        i0: j.m,
                        i1: j.n,
                        i2: j.k,
                        ..no_args()
                    },
                ),
            ),
            s.next(),
        )
    } else if p.fp8 {
        let op = tile_op(p.priced, tab, j.m, j.n, j.k, QuantScheme::W8A8);
        let (s1, ma, mb) = operand_maps(
            s,
            p.tma && p.w8a8 && mapped_fp8(op),
            j.xq,
            j.w8,
            j.m,
            j.n,
            j.k,
            true,
        );
        (s1.then_inst(inst(op, on, on1(after), fp8_tile_args(p, j, ma, mb))), s1.next())
    } else {
        let op = if p.gemv {
            DevOp::Gemv
        } else {
            tile_op(p.priced, tab, j.m, j.n, j.k, QuantScheme::Plain)
        };
        let (s1, ma, mb) = operand_maps(s, p.tma && mapped(op), j.a, j.w, j.m, j.n, j.k, false);
        (
            s1.then_inst(
                inst(
                    op,
                    on,
                    on1(after),
                    Args {
                        t0: j.out,
                        t1: j.a,
                        t2: j.w,
                        i0: j.m,
                        i1: j.n,
                        i2: j.k,
                        i6: ma,
                        i7: mb,
                        f0: p.eps,
                        ..no_args()
                    },
                ),
            ),
            s1.next(),
        )
    }
}

/// The encoding of a projection's weight.
pub open spec fn proj_quant(p: Phase) -> QuantScheme {
    if p.mx {
        QuantScheme::Mxfp4
    } else if p.fp8 {
        QuantScheme::W8A8
    } else {
        QuantScheme::Plain
    }
}

/// Whether an `m x n x k` projection has a kernel: a row product always, a tiled product where it
/// has a tile.
pub open spec fn proj_ok(p: Phase, tab: TileTable, m: u32, n: u32, k: u32) -> bool {
    p.gemv || has_tile(p.priced, tab, m, n, k, proj_quant(p), Field::AllRungs)
}

pub fn emit_proj(
    s: &mut Emission,
    p: &Phase,
    k: &EmitConfig,
    tab: &TileTable,
    j: Proj,
    on: CuRange,
    after: u32,
) -> (r: u32)
    requires
        old(s)@.room(2),
        proj_ok(*p, *tab, j.m, j.n, j.k),
    ensures
        (final(s)@, r) == project(old(s)@, *p, *k, *tab, j, on, after),
        final(s)@.within(old(s)@, 2),
        final(s)@.insts.len() == old(s)@.insts.len() + 1,
        r == old(s)@.next(),
{
    if p.mx {
        let (op, on) = if p.gemv {
            (DevOp::GemvMxfp4, gemv_wg_cap(k, on))
        } else {
            (pick_tile(p.priced, tab, j.m, j.n, j.k, QuantScheme::Mxfp4), on)
        };
        return s.emit(
            op,
            on,
            after1(after),
            Args {
                t0: j.out,
                t1: j.a,
                t2: j.w8,
                t4: if p.gemv { TENSOR_NONE } else { j.scale },
                t5: if p.gemv { j.scale } else { TENSOR_NONE },
                i0: j.m,
                i1: j.n,
                i2: j.k,
                ..blank()
            },
        );
    }
    if p.gemv && p.fp8 {
        return s.emit(
            DevOp::GemvFp8,
            gemv_wg_cap(k, on),
            after1(after),
            Args {
                t0: j.out,
                t1: j.a,
                t2: j.w8,
                t5: j.scale,
                i0: j.m,
                i1: j.n,
                i2: j.k,
                ..blank()
            },
        );
    }
    if p.fp8 {
        let op: DevOp = pick_tile(p.priced, tab, j.m, j.n, j.k, QuantScheme::W8A8);
        let mappable: bool = op == DevOp::GemmFp8 || op == DevOp::GemmMedFp8 || op
            == DevOp::GemmSmallFp8;
        let (ma, mb) = mint_operand_maps(
            s,
            p.tma && p.w8a8 && mappable,
            j.xq,
            j.w8,
            j.m,
            j.n,
            j.k,
            true,
        );
        return s.emit(
            op,
            on,
            after1(after),
            Args {
                t0: j.out,
                t1: if p.w8a8 { j.xq } else { j.a },
                t2: j.w8,
                t3: if p.w8a8 { j.ascale } else { TENSOR_NONE },
                t4: j.scale,
                i0: j.m,
                i1: j.n,
                i2: j.k,
                i6: ma,
                i7: mb,
                ..blank()
            },
        );
    }
    let op: DevOp = if p.gemv {
        DevOp::Gemv
    } else {
        pick_tile(p.priced, tab, j.m, j.n, j.k, QuantScheme::Plain)
    };
    let mappable: bool = op == DevOp::Gemm || op == DevOp::GemmMed || op == DevOp::GemmSmall;
    let (ma, mb) = mint_operand_maps(s, p.tma && mappable, j.a, j.w, j.m, j.n, j.k, false);
    s.emit(
        op,
        on,
        after1(after),
        Args {
            t0: j.out,
            t1: j.a,
            t2: j.w,
            i0: j.m,
            i1: j.n,
            i2: j.k,
            i6: ma,
            i7: mb,
            f0: p.eps,
            ..blank()
        },
    )
}

} // verus!
