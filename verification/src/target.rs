//! The device an emission is for.
use vstd::prelude::*;

verus! {

/// The instruction sets whose geometry is known.
#[derive(Clone, Copy, PartialEq, Eq, Debug, Structural)]
pub enum IsaLevel {
    Gfx942,
    Gfx950,
    Sm90,
    Sm120,
}

/// The decode kernels' matrix arena: its tile and how many times the tile is staged.
#[derive(Clone, Copy, PartialEq, Eq, Debug, Structural)]
pub struct ArchGeometry {
    pub bm: u64,
    pub bn: u64,
    pub bk: u64,
    pub gemm_stage_buffers: u64,
}

impl ArchGeometry {
    /// Halves of the decode arena.
    pub open spec fn arena(self) -> int {
        self.gemm_stage_buffers * (self.bm + self.bn) * (self.bk + 8)
    }

    pub fn decode_arena_halves(&self) -> (r: u64)
        requires
            self.bm + self.bn <= u64::MAX,
            self.bk + 8 <= u64::MAX,
            self.gemm_stage_buffers * (self.bm + self.bn) <= u64::MAX,
            self.arena() <= u64::MAX,
        ensures
            r == self.arena(),
    {
        self.gemm_stage_buffers * (self.bm + self.bn) * (self.bk + 8)
    }
}

/// The geometry of a part. The decode objects of gfx942 come in two profiles, and which one a
/// program meets is not known when it is emitted: this is the smaller.
pub open spec fn geometry_of(isa: IsaLevel) -> Option<ArchGeometry> {
    match isa {
        IsaLevel::Gfx942 => Some(
            ArchGeometry { bm: 128, bn: 256, bk: 32, gemm_stage_buffers: 1 },
        ),
        IsaLevel::Gfx950 => Some(
            ArchGeometry { bm: 256, bn: 256, bk: 64, gemm_stage_buffers: 2 },
        ),
        IsaLevel::Sm120 => Some(
            ArchGeometry { bm: 256, bn: 256, bk: 64, gemm_stage_buffers: 2 },
        ),
        IsaLevel::Sm90 => None,
    }
}

pub fn geometry(isa: IsaLevel) -> (r: Option<ArchGeometry>)
    ensures
        r == geometry_of(isa),
{
    match isa {
        IsaLevel::Gfx942 => Some(
            ArchGeometry { bm: 128, bn: 256, bk: 32, gemm_stage_buffers: 1 },
        ),
        IsaLevel::Gfx950 => Some(
            ArchGeometry { bm: 256, bn: 256, bk: 64, gemm_stage_buffers: 2 },
        ),
        IsaLevel::Sm120 => Some(
            ArchGeometry { bm: 256, bn: 256, bk: 64, gemm_stage_buffers: 2 },
        ),
        IsaLevel::Sm90 => None,
    }
}

/// Stage buffers of a part's tiles: two where its geometry is not known.
pub open spec fn stage_buffer_count(isa: IsaLevel) -> int {
    match geometry_of(isa) {
        Some(g) => g.gemm_stage_buffers as int,
        None => 2,
    }
}

pub fn stage_buffers(isa: IsaLevel) -> (r: u64)
    ensures
        r == stage_buffer_count(isa),
{
    match geometry(isa) {
        Some(g) => g.gemm_stage_buffers,
        None => 2,
    }
}

} // verus!
