//! Which AMD part an emission prices its tiles for, and whether it prices them at all.
use vstd::prelude::*;

use crate::phase::{arena_of, gm_lds_halves};
use crate::target::{geometry_of, IsaLevel};
use crate::text::same_text;

verus! {

/// What the device registry says of a part.
#[derive(Clone, Copy, PartialEq, Eq, Debug, Structural)]
pub struct GpuSpec {
    pub sku: Sku,
    pub isa: Option<IsaLevel>,
    /// Bytes of workgroup memory.
    pub shared_mem: u64,
}

/// The parts that stand for their architectures, and all others.
#[derive(Clone, Copy, PartialEq, Eq, Debug, Structural)]
pub enum Sku {
    Mi300x,
    Mi350x,
    Other,
}

/// The part that stands for gfx942.
pub open spec fn mi300x_spec() -> GpuSpec {
    GpuSpec { sku: Sku::Mi300x, isa: Some(IsaLevel::Gfx942), shared_mem: 65_536 }
}

/// The part that stands for gfx950.
pub open spec fn mi350x_spec() -> GpuSpec {
    GpuSpec { sku: Sku::Mi350x, isa: Some(IsaLevel::Gfx950), shared_mem: 163_840 }
}

/// The part that stands for gfx942.
pub fn mi300x() -> (r: GpuSpec)
    ensures
        r == mi300x_spec(),
{
    GpuSpec { sku: Sku::Mi300x, isa: Some(IsaLevel::Gfx942), shared_mem: 65_536 }
}

/// The part that stands for gfx950.
pub fn mi350x() -> (r: GpuSpec)
    ensures
        r == mi350x_spec(),
{
    GpuSpec { sku: Sku::Mi350x, isa: Some(IsaLevel::Gfx950), shared_mem: 163_840 }
}

/// The part that tiles are priced for, and its instruction set.
#[derive(Clone, Copy, PartialEq, Eq, Debug, Structural)]
pub struct Priced {
    pub spec: GpuSpec,
    pub isa: IsaLevel,
}

/// The target of an emission, where one was set.
pub struct AmdTarget {
    pub set: Option<Priced>,
}

/// How a target came about.
#[derive(Clone, Copy, PartialEq, Eq, Debug, Structural)]
pub enum Resolution {
    /// The named device.
    Device,
    /// The part that stands for the named architecture.
    Representative,
    /// Neither name was of use: the target stayed as it was.
    Unchanged,
}

/// The target that a device gives, where it is a CDNA part.
pub open spec fn by_device(gpu: Option<GpuSpec>) -> Option<Priced> {
    match gpu {
        Some(s) => match s.isa {
            Some(i) => if i == IsaLevel::Gfx942 || i == IsaLevel::Gfx950 {
                Some(Priced { spec: s, isa: i })
            } else {
                None
            },
            None => None,
        },
        None => None,
    }
}

/// The target that an architecture gives, where it names a CDNA part.
pub open spec fn by_arch(arch: Seq<char>) -> Option<Priced> {
    if arch == "gfx942"@ {
        Some(Priced { spec: mi300x_spec(), isa: IsaLevel::Gfx942 })
    } else if arch == "gfx950"@ {
        Some(Priced { spec: mi350x_spec(), isa: IsaLevel::Gfx950 })
    } else {
        None
    }
}

/// The target after a device and an architecture were named: the device decides, then the
/// architecture, and otherwise nothing changes.
pub open spec fn resolved(
    old_target: Option<Priced>,
    arch: Seq<char>,
    gpu: Option<GpuSpec>,
) -> Option<Priced> {
    match by_device(gpu) {
        Some(t) => Some(t),
        None => match by_arch(arch) {
            Some(t) => Some(t),
            None => old_target,
        },
    }
}

/// The target in force: the one that was set, or the part that stands for gfx950.
pub open spec fn in_force(t: AmdTarget) -> Priced {
    match t.set {
        Some(p) => p,
        None => Priced { spec: mi350x_spec(), isa: IsaLevel::Gfx950 },
    }
}

/// Sets the target from an architecture's name and from what the registry knows of the device.
pub fn set_for(t: &mut AmdTarget, arch: &str, gpu: Option<GpuSpec>) -> (r: Resolution)
    ensures
        final(t).set == resolved(old(t).set, arch@, gpu),
        r == (if by_device(gpu) is Some {
            Resolution::Device
        } else if by_arch(arch@) is Some {
            Resolution::Representative
        } else {
            Resolution::Unchanged
        }),
{
    if let Some(s) = gpu {
        if let Some(i) = s.isa {
            if i == IsaLevel::Gfx942 || i == IsaLevel::Gfx950 {
                t.set = Some(Priced { spec: s, isa: i });
                return Resolution::Device;
            }
        }
    }
    if same_text(arch, "gfx942") {
        t.set = Some(Priced { spec: mi300x(), isa: IsaLevel::Gfx942 });
        Resolution::Representative
    } else if same_text(arch, "gfx950") {
        t.set = Some(Priced { spec: mi350x(), isa: IsaLevel::Gfx950 });
        Resolution::Representative
    } else {
        Resolution::Unchanged
    }
}

/// Sets the target from what the registry knows of the device.
pub fn set(t: &mut AmdTarget, gpu: Option<GpuSpec>) -> (r: Resolution)
    ensures
        final(t).set == (match by_device(gpu) {
            Some(p) => Some(p),
            None => old(t).set,
        }),
        r == (if by_device(gpu) is Some { Resolution::Device } else { Resolution::Unchanged }),
{
    proof {
        reveal_strlit("");
        reveal_strlit("gfx942");
        reveal_strlit("gfx950");
        assert(""@.len() == 0 && "gfx942"@.len() == 6 && "gfx950"@.len() == 6);
    }
    set_for(t, "", gpu)
}

/// The target in force.
pub fn active(t: &AmdTarget) -> (r: Priced)
    ensures
        r == in_force(*t),
{
    match t.set {
        Some(p) => p,
        None => Priced { spec: mi350x(), isa: IsaLevel::Gfx950 },
    }
}

pub fn set_amd_target(t: &mut AmdTarget, gpu: Option<GpuSpec>) -> (r: Resolution)
    ensures
        final(t).set == (match by_device(gpu) {
            Some(p) => Some(p),
            None => old(t).set,
        }),
        r == (if by_device(gpu) is Some { Resolution::Device } else { Resolution::Unchanged }),
{
    set(t, gpu)
}

pub fn set_amd_target_for(t: &mut AmdTarget, arch: &str, gpu: Option<GpuSpec>) -> (r: Resolution)
    ensures
        final(t).set == resolved(old(t).set, arch@, gpu),
        r == (if by_device(gpu) is Some {
            Resolution::Device
        } else if by_arch(arch@) is Some {
            Resolution::Representative
        } else {
            Resolution::Unchanged
        }),
{
    set_for(t, arch, gpu)
}

/// An architecture without a usable device never leaves the target at another architecture.
pub proof fn an_architecture_decides_without_a_device(
    old_target: Option<Priced>,
    gpu: Option<GpuSpec>,
)
    requires
        by_device(gpu) is None,
    ensures
        resolved(old_target, "gfx942"@, gpu) == Some(
            Priced { spec: mi300x_spec(), isa: IsaLevel::Gfx942 },
        ),
        resolved(old_target, "gfx950"@, gpu) == Some(
            Priced { spec: mi350x_spec(), isa: IsaLevel::Gfx950 },
        ),
{
    reveal_strlit("gfx942");
    reveal_strlit("gfx950");
    assert("gfx942"@[3] != "gfx950"@[3] || "gfx942"@[4] != "gfx950"@[4]);
}

/// A device that is a CDNA part decides whatever the architecture.
pub proof fn a_device_decides(old_target: Option<Priced>, arch: Seq<char>, gpu: Option<GpuSpec>)
    requires
        by_device(gpu) is Some,
    ensures
        resolved(old_target, arch, gpu) == by_device(gpu),
{
}

/// The target in force always has a decode arena.
pub proof fn the_target_in_force_has_an_arena(t: AmdTarget, arch: Seq<char>, gpu: Option<GpuSpec>)
    requires
        geometry_of(in_force(t).isa) is Some,
    ensures
        geometry_of(in_force(AmdTarget { set: resolved(t.set, arch, gpu) }).isa) is Some,
{
}

/// Halves of the decode arena of the target in force.
pub fn decode_arena_halves(t: &AmdTarget) -> (r: u64)
    requires
        geometry_of(in_force(*t).isa) is Some,
    ensures
        r == arena_of(in_force(*t).isa),
{
    gm_lds_halves(active(t).isa)
}

/// Whether an emission is for an AMD target, which it is until something else is said.
pub struct EmitTarget {
    pub amd: bool,
}

/// What to put back when a change of target ends.
pub struct EmitAmdGuard {
    pub prev: bool,
}

impl EmitAmdGuard {
    /// Changes the target, and keeps what it was.
    pub fn set(t: &mut EmitTarget, amd: bool) -> (r: EmitAmdGuard)
        ensures
            final(t).amd == amd,
            r.prev == old(t).amd,
    {
        let prev: bool = t.amd;
        t.amd = amd;
        EmitAmdGuard { prev }
    }

    /// Puts back what the target was.
    pub fn restore(self, t: &mut EmitTarget)
        ensures
            final(t).amd == self.prev,
    {
        t.amd = self.prev;
    }
}

/// The target that an emission begins with.
pub fn emit_target() -> (r: EmitTarget)
    ensures
        r.amd,
{
    EmitTarget { amd: true }
}

pub fn emit_is_amd(t: &EmitTarget) -> (r: bool)
    ensures
        r == t.amd,
{
    t.amd
}

/// Calls `f` under another target, and puts the target back.
pub fn with_emit_target_amd<R, F: FnOnce(bool) -> R>(t: &mut EmitTarget, amd: bool, f: F) -> (r: R)
    requires
        f.requires((amd,)),
    ensures
        final(t).amd == old(t).amd,
        f.ensures((amd,), r),
{
    let g: EmitAmdGuard = EmitAmdGuard::set(t, amd);
    let r: R = f(t.amd);
    g.restore(t);
    r
}

} // verus!
