//! The device instruction set, as far as the emitters and the build manifest read it.
use vstd::prelude::*;

verus! {

/// A device opcode.
#[derive(Clone, Copy, PartialEq, Eq, Debug, Structural)]
pub enum DevOp {
    AddNorm,
    Argmax,
    ArgmaxFin,
    AttnRes,
    AttnSelect,
    DenseGluFp8Blk,
    Embed,
    FlashDecode,
    FlashDecodeFp8,
    FlashGatherDecode,
    FlashGatherPrefill,
    FlashMerge,
    FlashMlaDecode,
    FlashMlaDecodeFp8,
    FlashMlaPrefill,
    FlashMlaPrefillFp8,
    FlashPrefill,
    FlashPrefillFp8,
    Gemm,
    GemmC5,
    GemmC5Fp8,
    GemmC5Mxfp4,
    GemmFp8,
    GemmFp8Blk,
    GemmGlu,
    GemmGluFp8,
    GemmGluMxfp4,
    GemmMed,
    GemmMedFp8,
    GemmMedMxfp4,
    GemmMxfp4,
    GemmSmall,
    GemmSmallFp8,
    GemmSmallMxfp4,
    GemmWide,
    GemmWideFp8,
    GemmWideMxfp4,
    Gemv,
    GemvArgmax,
    GemvFp8,
    GemvFp8Blk,
    GemvGlu,
    GemvGluFp8,
    GemvGluMxfp4,
    GemvMxfp4,
    GemvQkv,
    GemvQkvFp8,
    GemvQkvMxfp4,
    GemvQkvg,
    Glu,
    HeadNormRope,
    HeadNormRopeFp8,
    IndexScore,
    IndexScorePf,
    IndexSelect,
    IndexSelectPf,
    IndexUnionPf,
    KdaChunkCarry,
    KdaChunkIntra,
    KdaChunkPrepare,
    KdaChunkWu,
    KdaConv,
    KdaConv3,
    KdaConvStateStepG,
    KdaDecodeFused,
    KdaGate,
    KdaGatedNorm,
    KdaStateStep,
    KdaStateStepG,
    LayerNorm,
    MlaMergeFold,
    MlaOutGate,
    MoeAlignGemmaPf,
    MoeAlignPf,
    MoeCombine,
    MoeCombineGemma,
    MoeCombineNormGemma,
    MoeCombineNormGemmaPf,
    MoeCombinePf,
    MoeCombineResidNormGemma,
    MoeExpertDown,
    MoeExpertDownFp8Blk,
    MoeExpertDownGemma,
    MoeExpertDownGemmaFp8,
    MoeExpertGlu,
    MoeExpertGluFp8Blk,
    MoeExpertGluGemma,
    MoeExpertGluGemmaFp8,
    MoeExpertGluNormGemma,
    MoeGroupDownFp8Blk,
    MoeGroupDownGemmaPf,
    MoeGroupDownGemmaPfW8a8,
    MoeGroupDownPf,
    MoeGroupGluFp8Blk,
    MoeGroupGluGemmaPf,
    MoeGroupGluGemmaPfW8a8,
    MoeGroupGluPf,
    MoeRouter,
    MoeRouterGemma,
    MoeRouterGemmaPf,
    MoeRouterGemmaScore,
    MoeRouterGemmaScoreFast,
    MoeRouterGemmaTopk,
    MoeRouterTopk,
    MoeRouterTopkPf,
    Nop,
    NormResidual,
    NormResidualNorm,
    OUvFold,
    QuantFp8,
    Residual,
    RmsNorm,
    RowRms,
    SituGlu,
    SoftCap,
    XAllToAllHeads,
    XArgmaxFin,
    XFlashMerge,
    XReduce,
    XReduceAddNorm,
    XReduceTwoShot,
    /// An opcode that nothing here reads, by its number in the instruction table.
    Other(u16),
}

/// The operand value that binds no tensor.
pub const TENSOR_NONE: u32 = 0xFFFF_FFFF;

/// The operands of an instruction: eight tensor handles, eight immediates, two immediates that
/// hold the bit pattern of an `f32`, and two auxiliary immediates.
#[derive(Clone, Copy, PartialEq, Eq, Debug, Structural)]
pub struct Args {
    pub t0: u32,
    pub t1: u32,
    pub t2: u32,
    pub t3: u32,
    pub t4: u32,
    pub t5: u32,
    pub t6: u32,
    pub t7: u32,
    pub i0: u32,
    pub i1: u32,
    pub i2: u32,
    pub i3: u32,
    pub i4: u32,
    pub i5: u32,
    pub i6: u32,
    pub i7: u32,
    pub f0: u32,
    pub f1: u32,
    pub j0: u32,
    pub j1: u32,
}

/// Operands with nothing bound.
pub open spec fn no_args() -> Args {
    Args {
        t0: TENSOR_NONE,
        t1: TENSOR_NONE,
        t2: TENSOR_NONE,
        t3: TENSOR_NONE,
        t4: TENSOR_NONE,
        t5: TENSOR_NONE,
        t6: TENSOR_NONE,
        t7: TENSOR_NONE,
        i0: 0,
        i1: 0,
        i2: 0,
        i3: 0,
        i4: 0,
        i5: 0,
        i6: 0,
        i7: 0,
        f0: 0,
        f1: 0,
        j0: 0,
        j1: 0,
    }
}

/// Operands with nothing bound.
pub fn blank() -> (r: Args)
    ensures
        r == no_args(),
{
    Args {
        t0: TENSOR_NONE,
        t1: TENSOR_NONE,
        t2: TENSOR_NONE,
        t3: TENSOR_NONE,
        t4: TENSOR_NONE,
        t5: TENSOR_NONE,
        t6: TENSOR_NONE,
        t7: TENSOR_NONE,
        i0: 0,
        i1: 0,
        i2: 0,
        i3: 0,
        i4: 0,
        i5: 0,
        i6: 0,
        i7: 0,
        f0: 0,
        f1: 0,
        j0: 0,
        j1: 0,
    }
}

/// The bit pattern of `1.0f32`.
pub const F32_ONE: u32 = 0x3f80_0000;

/// The bit pattern of `f32::INFINITY`, the largest pattern of a positive number.
pub const F32_INF: u32 = 0x7f80_0000;

/// The compute units `lo..hi` an instruction runs on, one workgroup on each.
#[derive(Clone, Copy, PartialEq, Eq, Debug, Structural)]
pub struct CuRange {
    pub lo: u32,
    pub hi: u32,
}

impl CuRange {
    /// How many workgroups the range holds.
    pub open spec fn count(self) -> int {
        if self.lo <= self.hi { self.hi - self.lo } else { 0 }
    }

    /// How many workgroups the range holds.
    pub fn blocks(&self) -> (r: u32)
        ensures
            r == self.count(),
    {
        if self.lo <= self.hi { self.hi - self.lo } else { 0 }
    }
}

/// The first `n` compute units.
pub open spec fn first_cus(n: int) -> CuRange {
    CuRange { lo: 0, hi: n as u32 }
}

/// The first `n` compute units.
pub fn cus(n: u32) -> (r: CuRange)
    ensures
        r == first_cus(n as int),
{
    CuRange { lo: 0, hi: n }
}

/// What an instruction waits for: a whole earlier instruction, or, for each of its workgroups, the
/// listed workgroups of an earlier instruction.
pub enum Dep {
    Coarse(u32),
    Fine { producer: u32, map: Vec<Vec<u32>> },
}

/// The value of a [`Dep`].
pub enum DepView {
    Coarse(u32),
    Fine { producer: u32, map: Seq<Seq<u32>> },
}

impl View for Dep {
    type V = DepView;

    open spec fn view(&self) -> DepView {
        match *self {
            Dep::Coarse(p) => DepView::Coarse(p),
            Dep::Fine { producer, map } => DepView::Fine {
                producer,
                map: crate::fine_map::rows_view(map@),
            },
        }
    }
}

impl DepView {
    /// The instruction waited for.
    pub open spec fn producer(self) -> u32 {
        match self {
            DepView::Coarse(p) => p,
            DepView::Fine { producer, .. } => producer,
        }
    }
}

/// The values of a dependency list.
pub open spec fn deps_view(d: Seq<Dep>) -> Seq<DepView> {
    Seq::new(d.len(), |i: int| d[i]@)
}

/// No dependency.
pub fn after_none() -> (r: Vec<Dep>)
    ensures
        deps_view(r@) == on_none(),
{
    let r: Vec<Dep> = Vec::new();
    proof {
        assert(deps_view(r@) =~= Seq::<DepView>::empty());
    }
    r
}

/// A wait for one whole instruction.
pub fn after1(a: u32) -> (r: Vec<Dep>)
    ensures
        deps_view(r@) == on1(a),
{
    let mut r: Vec<Dep> = Vec::new();
    r.push(Dep::Coarse(a));
    proof {
        assert(deps_view(r@) =~= seq![DepView::Coarse(a)]);
    }
    r
}

/// A wait for two whole instructions.
pub fn after2(a: u32, b: u32) -> (r: Vec<Dep>)
    ensures
        deps_view(r@) == on2(a, b),
{
    let mut r: Vec<Dep> = Vec::new();
    r.push(Dep::Coarse(a));
    r.push(Dep::Coarse(b));
    proof {
        assert(deps_view(r@) =~= seq![DepView::Coarse(a), DepView::Coarse(b)]);
    }
    r
}

/// A wait for three whole instructions.
pub fn after3(a: u32, b: u32, c: u32) -> (r: Vec<Dep>)
    ensures
        deps_view(r@) == on3(a, b, c),
{
    let mut r: Vec<Dep> = Vec::new();
    r.push(Dep::Coarse(a));
    r.push(Dep::Coarse(b));
    r.push(Dep::Coarse(c));
    proof {
        assert(deps_view(r@) =~= seq![DepView::Coarse(a), DepView::Coarse(b), DepView::Coarse(c)]);
    }
    r
}

/// A workgroup-grained wait for one instruction.
pub fn after_fine(a: u32, map: Vec<Vec<u32>>) -> (r: Vec<Dep>)
    ensures
        deps_view(r@) == on_fine(a, crate::fine_map::rows_view(map@)),
{
    let mut r: Vec<Dep> = Vec::new();
    let ghost m = map@;
    r.push(Dep::Fine { producer: a, map });
    proof {
        assert(deps_view(r@) =~= seq![
            DepView::Fine { producer: a, map: crate::fine_map::rows_view(m) },
        ]);
    }
    r
}

/// Workgroup-grained waits for three instructions.
pub fn after_fine3(
    a: u32,
    ma: Vec<Vec<u32>>,
    b: u32,
    mb: Vec<Vec<u32>>,
    c: u32,
    mc: Vec<Vec<u32>>,
) -> (r: Vec<Dep>)
    ensures
        deps_view(r@) == on_fine3(
            a,
            crate::fine_map::rows_view(ma@),
            b,
            crate::fine_map::rows_view(mb@),
            c,
            crate::fine_map::rows_view(mc@),
        ),
{
    let mut r: Vec<Dep> = Vec::new();
    let ghost (va, vb, vc) = (ma@, mb@, mc@);
    r.push(Dep::Fine { producer: a, map: ma });
    r.push(Dep::Fine { producer: b, map: mb });
    r.push(Dep::Fine { producer: c, map: mc });
    proof {
        assert(deps_view(r@) =~= seq![
            DepView::Fine { producer: a, map: crate::fine_map::rows_view(va) },
            DepView::Fine { producer: b, map: crate::fine_map::rows_view(vb) },
            DepView::Fine { producer: c, map: crate::fine_map::rows_view(vc) },
        ]);
    }
    r
}

/// An instruction of a device program.
pub struct Inst {
    pub op: DevOp,
    pub cus: CuRange,
    pub deps: Vec<Dep>,
    pub args: Args,
}

/// The value of an [`Inst`].
pub struct InstView {
    pub op: DevOp,
    pub cus: CuRange,
    pub deps: Seq<DepView>,
    pub args: Args,
}

impl View for Inst {
    type V = InstView;

    open spec fn view(&self) -> InstView {
        InstView { op: self.op, cus: self.cus, deps: deps_view(self.deps@), args: self.args }
    }
}

/// The values of a list of instructions.
pub open spec fn insts_view(s: Seq<Inst>) -> Seq<InstView> {
    Seq::new(s.len(), |i: int| s[i]@)
}

/// An instruction that waits for whole instructions only.
pub open spec fn inst(op: DevOp, cus: CuRange, deps: Seq<DepView>, args: Args) -> InstView {
    InstView { op, cus, deps, args }
}

/// A wait for nothing.
pub open spec fn on_none() -> Seq<DepView> {
    Seq::empty()
}

/// A wait for one whole instruction.
pub open spec fn on1(a: u32) -> Seq<DepView> {
    seq![DepView::Coarse(a)]
}

/// A wait for two whole instructions.
pub open spec fn on2(a: u32, b: u32) -> Seq<DepView> {
    seq![DepView::Coarse(a), DepView::Coarse(b)]
}

/// A wait for three whole instructions.
pub open spec fn on3(a: u32, b: u32, c: u32) -> Seq<DepView> {
    seq![DepView::Coarse(a), DepView::Coarse(b), DepView::Coarse(c)]
}

/// A workgroup-grained wait for one instruction.
pub open spec fn on_fine(a: u32, map: Seq<Seq<u32>>) -> Seq<DepView> {
    seq![DepView::Fine { producer: a, map }]
}

/// Workgroup-grained waits for three instructions.
pub open spec fn on_fine3(
    a: u32,
    ma: Seq<Seq<u32>>,
    b: u32,
    mb: Seq<Seq<u32>>,
    c: u32,
    mc: Seq<Seq<u32>>,
) -> Seq<DepView> {
    seq![
        DepView::Fine { producer: a, map: ma },
        DepView::Fine { producer: b, map: mb },
        DepView::Fine { producer: c, map: mc },
    ]
}

} // verus!
