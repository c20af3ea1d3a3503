//! Mesh assembly: flat vertex/index buffers and their bounding box.
//!
//! Every tessellated vertex carries `(x, y, edgeDistance)`; the edge
//! distance is always `1.0` (interior), since no antialiasing fringe is
//! computed. The bounding box is the running min/max over all vertex
//! coordinates; a mesh without vertices reports the all-zero rectangle
//! rather than the inverted sentinel used during accumulation.

use vstd::prelude::*;
use crate::float_bits::{
    is_nan_bits, spec_min_f32, spec_max_f32, spec_le_f32, min_f32, max_f32, le_f32,
    F32_ONE_BITS, F32_ZERO_BITS,
};

verus! {

/// Bit pattern of `f32::MAX`, the accumulation seed for minima.
pub const F32_MAX_BITS: u32 = 0x7F7F_FFFF;

/// Bit pattern of `f32::MIN` (the lowest finite value), the accumulation
/// seed for maxima.
pub const F32_LOWEST_BITS: u32 = 0xFF7F_FFFF;

/// A tessellated vertex: position and edge distance, as `f32` bit
/// patterns.
#[derive(Debug, Clone, Copy, PartialEq, Eq, Structural)]
pub struct TessVertex {
    pub x: u32,
    pub y: u32,
    /// Edge distance: `0.0` would be the boundary, `1.0` the interior.
    pub edge_dist: u32,
}

/// Axis-aligned bounds of a mesh, as `f32` bit patterns.
#[derive(Debug, Clone, Copy, PartialEq, Eq, Structural)]
pub struct MeshBounds {
    pub min_x: u32,
    pub min_y: u32,
    pub max_x: u32,
    pub max_y: u32,
}

/// The all-zero rectangle, reported for empty or degenerate meshes.
pub open spec fn zero_bounds() -> MeshBounds {
    MeshBounds {
        min_x: F32_ZERO_BITS,
        min_y: F32_ZERO_BITS,
        max_x: F32_ZERO_BITS,
        max_y: F32_ZERO_BITS,
    }
}

/// The inverted sentinel the accumulation starts from.
pub open spec fn sentinel_bounds() -> MeshBounds {
    MeshBounds {
        min_x: F32_MAX_BITS,
        min_y: F32_MAX_BITS,
        max_x: F32_LOWEST_BITS,
        max_y: F32_LOWEST_BITS,
    }
}

/// A box is valid when each minimum lies at or below its maximum.
pub open spec fn spec_bounds_valid(b: MeshBounds) -> bool {
    spec_le_f32(b.min_x, b.max_x) && spec_le_f32(b.min_y, b.max_y)
}

/// One accumulation step: widen the box to cover `(x, y)`.
pub open spec fn spec_expand_bounds(b: MeshBounds, x: u32, y: u32) -> MeshBounds {
    MeshBounds {
        min_x: spec_min_f32(b.min_x, x),
        min_y: spec_min_f32(b.min_y, y),
        max_x: spec_max_f32(b.max_x, x),
        max_y: spec_max_f32(b.max_y, y),
    }
}

/// Whether no side of a box is NaN; the accumulation keeps this, since
/// min/max ignore NaN operands.
pub open spec fn bounds_not_nan(b: MeshBounds) -> bool {
    &&& !is_nan_bits(b.min_x)
    &&& !is_nan_bits(b.min_y)
    &&& !is_nan_bits(b.max_x)
    &&& !is_nan_bits(b.max_y)
}

/// Whether a box covers a position, coordinate-wise; a NaN coordinate is
/// inside nothing and is left out.
pub open spec fn spec_pos_covered(b: MeshBounds, p: (u32, u32)) -> bool {
    &&& !is_nan_bits(p.0) ==> spec_le_f32(b.min_x, p.0) && spec_le_f32(p.0, b.max_x)
    &&& !is_nan_bits(p.1) ==> spec_le_f32(b.min_y, p.1) && spec_le_f32(p.1, b.max_y)
}

/// The box accumulated over all positions, from the sentinel.
pub open spec fn spec_fold_bounds(positions: Seq<(u32, u32)>) -> MeshBounds
    decreases positions.len(),
{
    if positions.len() == 0 {
        sentinel_bounds()
    } else {
        spec_expand_bounds(
            spec_fold_bounds(positions.drop_last()),
            positions.last().0,
            positions.last().1,
        )
    }
}

/// The bounds a mesh reports: the accumulated box where it is valid, the
/// all-zero rectangle for an empty vertex set or an invalid accumulation.
pub open spec fn spec_mesh_bounds(positions: Seq<(u32, u32)>) -> MeshBounds {
    if positions.len() == 0 {
        zero_bounds()
    } else {
        let b = spec_fold_bounds(positions);
        if spec_bounds_valid(b) {
            b
        } else {
            zero_bounds()
        }
    }
}

/// The flat vertex buffer: an `(x, y, 1.0)` triplet per position.
pub open spec fn spec_flat_vertices(positions: Seq<(u32, u32)>) -> Seq<u32>
    decreases positions.len(),
{
    if positions.len() == 0 {
        seq![]
    } else {
        spec_flat_vertices(positions.drop_last()) + seq![
            positions.last().0,
            positions.last().1,
            F32_ONE_BITS,
        ]
    }
}

pub proof fn lemma_flat_vertices_len(positions: Seq<(u32, u32)>)
    ensures
        spec_flat_vertices(positions).len() == 3 * positions.len(),
    decreases positions.len(),
{
    if positions.len() > 0 {
        lemma_flat_vertices_len(positions.drop_last());
    }
}

/// A transfer-ready triangle mesh: flat `(x, y, edgeDistance)` vertex
/// data, a triangle list of indices, and the bounding box.
#[derive(Debug, Clone, PartialEq, Eq)]
pub struct TessellatedMesh {
    /// Flat vertex data: `[x, y, edge_dist, x, y, edge_dist, ...]`.
    pub vertices: Vec<u32>,
    pub indices: Vec<u32>,
    pub bounds: MeshBounds,
}

impl TessellatedMesh {
    /// The structural invariant: whole triplets, a whole number of
    /// triangles, and every index inside the vertex buffer.
    pub open spec fn wf(&self) -> bool {
        &&& self.vertices@.len() % 3 == 0
        &&& self.indices@.len() % 3 == 0
        &&& forall|k: int|
            0 <= k < self.indices@.len() ==> 3 * (#[trigger] self.indices@[k] as int)
                < self.vertices@.len()
    }
}

impl MeshBounds {
    /// The accumulation seed.
    pub fn new() -> (b: MeshBounds)
        ensures
            b == sentinel_bounds(),
    {
        MeshBounds {
            min_x: F32_MAX_BITS,
            min_y: F32_MAX_BITS,
            max_x: F32_LOWEST_BITS,
            max_y: F32_LOWEST_BITS,
        }
    }

    /// Widens the box to cover `(x, y)`: the box never shrinks, and
    /// afterwards it covers the point — stated where no NaN is involved,
    /// since a NaN operand is ignored by the min/max accumulation.
    pub fn expand(&mut self, x: u32, y: u32)
        ensures
            *final(self) == spec_expand_bounds(*old(self), x, y),
            !is_nan_bits((*old(self)).min_x) && !is_nan_bits(x) ==> spec_le_f32(
                (*final(self)).min_x,
                (*old(self)).min_x,
            ) && spec_le_f32((*final(self)).min_x, x),
            !is_nan_bits((*old(self)).min_y) && !is_nan_bits(y) ==> spec_le_f32(
                (*final(self)).min_y,
                (*old(self)).min_y,
            ) && spec_le_f32((*final(self)).min_y, y),
            !is_nan_bits((*old(self)).max_x) && !is_nan_bits(x) ==> spec_le_f32(
                (*old(self)).max_x,
                (*final(self)).max_x,
            ) && spec_le_f32(x, (*final(self)).max_x),
            !is_nan_bits((*old(self)).max_y) && !is_nan_bits(y) ==> spec_le_f32(
                (*old(self)).max_y,
                (*final(self)).max_y,
            ) && spec_le_f32(y, (*final(self)).max_y),
            bounds_not_nan(*old(self)) ==> bounds_not_nan(*final(self)),
            !is_nan_bits((*old(self)).min_x) ==> (forall|c: u32|
                #[trigger] spec_le_f32((*old(self)).min_x, c) ==> spec_le_f32(
                    (*final(self)).min_x,
                    c,
                )),
            !is_nan_bits((*old(self)).min_y) ==> (forall|c: u32|
                #[trigger] spec_le_f32((*old(self)).min_y, c) ==> spec_le_f32(
                    (*final(self)).min_y,
                    c,
                )),
            !is_nan_bits((*old(self)).max_x) ==> (forall|c: u32|
                #[trigger] spec_le_f32(c, (*old(self)).max_x) ==> spec_le_f32(
                    c,
                    (*final(self)).max_x,
                )),
            !is_nan_bits((*old(self)).max_y) ==> (forall|c: u32|
                #[trigger] spec_le_f32(c, (*old(self)).max_y) ==> spec_le_f32(
                    c,
                    (*final(self)).max_y,
                )),
    {
        self.min_x = min_f32(self.min_x, x);
        self.min_y = min_f32(self.min_y, y);
        self.max_x = max_f32(self.max_x, x);
        self.max_y = max_f32(self.max_y, y);
    }

    /// Whether each minimum lies at or below its maximum.
    pub fn is_valid(&self) -> (r: bool)
        ensures
            r == spec_bounds_valid(*self),
    {
        le_f32(self.min_x, self.max_x) && le_f32(self.min_y, self.max_y)
    }
}

/// Assembles the tessellator's buffers into a transfer-ready mesh. An
/// empty vertex set yields an empty mesh with the all-zero bounds.
pub fn build_mesh(positions: Vec<(u32, u32)>, indices: Vec<u32>) -> (mesh: TessellatedMesh)
    requires
        indices@.len() % 3 == 0,
        forall|k: int| 0 <= k < indices@.len() ==> (#[trigger] indices@[k] as int) < positions@.len(),
    ensures
        mesh.wf(),
        mesh.vertices@ == spec_flat_vertices(positions@),
        mesh.indices@ == indices@,
        mesh.bounds == spec_mesh_bounds(positions@),
        positions@.len() == 0 ==> mesh.vertices@.len() == 0 && mesh.bounds == zero_bounds(),
        forall|i: int|
            0 <= i < positions@.len() ==> spec_pos_covered(
                spec_fold_bounds(positions@),
                #[trigger] positions@[i],
            ),
{
    let mut bounds = MeshBounds::new();
    let mut vertices: Vec<u32> = Vec::new();
    proof {
        assert(0x7F7F_FFFFu32 & 0x7FFF_FFFF <= 0x7F80_0000) by (bit_vector);
        assert(0xFF7F_FFFFu32 & 0x7FFF_FFFF <= 0x7F80_0000) by (bit_vector);
        assert(bounds_not_nan(bounds));
    }

    let n = positions.len();
    let mut i: usize = 0;
    while i < n
        invariant
            n == positions@.len(),
            i <= n,
            vertices@ == spec_flat_vertices(positions@.take(i as int)),
            bounds == spec_fold_bounds(positions@.take(i as int)),
            bounds_not_nan(bounds),
            forall|i2: int|
                0 <= i2 < i ==> spec_pos_covered(bounds, #[trigger] positions@[i2]),
            forall|k: int| 0 <= k < indices@.len() ==> (#[trigger] indices@[k] as int) < n,
        decreases n - i,
    {
        let (x, y) = positions[i];
        let v = TessVertex { x, y, edge_dist: F32_ONE_BITS };
        vertices.push(v.x);
        vertices.push(v.y);
        vertices.push(v.edge_dist);
        let ghost b0 = bounds;
        bounds.expand(x, y);
        i += 1;
        proof {
            assert(positions@.take(i as int).drop_last() =~= positions@.take(i as int - 1));
            assert(vertices@ =~= spec_flat_vertices(positions@.take(i as int)));
            assert forall|i2: int| 0 <= i2 < i implies spec_pos_covered(
                bounds,
                #[trigger] positions@[i2],
            ) by {
                if i2 < i - 1 {
                    assert(spec_pos_covered(b0, positions@[i2]));
                } else {
                    assert(positions@[i2] == (x, y));
                }
            }
        }
    }
    proof {
        assert(positions@.take(n as int) =~= positions@);
    }

    let empty = n == 0;
    let valid = bounds.is_valid();
    let final_bounds = if empty || !valid {
        MeshBounds {
            min_x: F32_ZERO_BITS,
            min_y: F32_ZERO_BITS,
            max_x: F32_ZERO_BITS,
            max_y: F32_ZERO_BITS,
        }
    } else {
        bounds
    };

    proof {
        lemma_flat_vertices_len(positions@);
        if positions@.len() == 0 {
            assert(spec_flat_vertices(positions@) =~= Seq::<u32>::empty());
        }
    }
    TessellatedMesh { vertices, indices, bounds: final_bounds }
}

} // verus!
