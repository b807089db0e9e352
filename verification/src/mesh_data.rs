//! Mesh buffers produced by chunk meshing: parallel per-vertex sequences
//! plus a triangle index list, all in fixed-point sub-block units.

use vstd::prelude::*;

use crate::chunk::ChunkCoord;
use crate::direction::Direction;

verus! {

/// A vertex position in sub-block units, local to the chunk being meshed.
/// Dividing by the meshing scale recovers block coordinates.
#[derive(Clone, Copy, PartialEq, Eq, Structural, Debug)]
pub struct VertPos {
    pub x: u64,
    pub y: u64,
    pub z: u64,
}

/// A texture coordinate in units out of [`crate::UNITS_PER_BLOCK`]:
/// `(0, 0)` is one corner of the face's texture, and a component equal to
/// `UNITS_PER_BLOCK` spans the whole texture.
#[derive(Clone, Copy, PartialEq, Eq, Structural, Debug)]
pub struct UvCoord {
    pub u: u32,
    pub v: u32,
}

/// Darkest ambient-occlusion shading level, in percent of full brightness.
pub const AO_LEVEL_0: u8 = 50;

/// Second-darkest ambient-occlusion shading level, in percent.
pub const AO_LEVEL_1: u8 = 70;

/// Second-brightest ambient-occlusion shading level, in percent.
pub const AO_LEVEL_2: u8 = 90;

/// Fully lit ambient-occlusion level, in percent.
pub const AO_LEVEL_3: u8 = 100;

/// Accumulated mesh buffers for one chunk. Parallel sequences: one entry of
/// `verts`, `norms`, `uvs`, `ao_level` and `layer_idx` per vertex, six
/// entries of `tris` per emitted quad (two triangles in a fixed fan).
#[derive(Clone, PartialEq, Eq, Debug)]
pub struct MeshData {
    /// Vertex positions in sub-block units.
    pub verts: Vec<VertPos>,
    /// Per-vertex outward face normal, one of the six axis directions.
    pub norms: Vec<Direction>,
    /// Triangle index list into `verts`.
    pub tris: Vec<u32>,
    /// Per-vertex texture coordinates.
    pub uvs: Vec<UvCoord>,
    /// Per-vertex texture layer index into the host's array texture.
    pub layer_idx: Vec<i32>,
    /// Per-vertex ambient-occlusion brightness, in percent.
    pub ao_level: Vec<u8>,
    /// Sub-block units per block edge used while meshing; the unit scale is
    /// [`crate::UNITS_PER_BLOCK`], and level-of-detail variants use larger
    /// multiples.
    pub scale: u64,
    /// World-grid position of the meshed chunk.
    pub position: ChunkCoord,
}

/// The mathematical content of a [`MeshData`]'s buffers.
#[verifier::ext_equal]
pub ghost struct MeshView {
    pub verts: Seq<VertPos>,
    pub norms: Seq<Direction>,
    pub tris: Seq<u32>,
    pub uvs: Seq<UvCoord>,
    pub layer_idx: Seq<i32>,
    pub ao_level: Seq<u8>,
}

impl MeshView {
    /// An empty set of buffers.
    pub open spec fn empty() -> MeshView {
        MeshView {
            verts: Seq::empty(),
            norms: Seq::empty(),
            tris: Seq::empty(),
            uvs: Seq::empty(),
            layer_idx: Seq::empty(),
            ao_level: Seq::empty(),
        }
    }

    /// The buffers are mutually consistent: one entry per vertex in each
    /// per-vertex sequence, four vertices and six triangle indices per quad,
    /// and every triangle index referring to an existing vertex.
    pub open spec fn wf(self) -> bool {
        &&& self.norms.len() == self.verts.len()
        &&& self.uvs.len() == self.verts.len()
        &&& self.layer_idx.len() == self.verts.len()
        &&& self.ao_level.len() == self.verts.len()
        &&& self.verts.len() % 4 == 0
        &&& self.tris.len() * 2 == self.verts.len() * 3
        &&& forall|i: int| 0 <= i < self.tris.len() ==> (#[trigger] self.tris[i]) < self.verts.len()
    }

    /// The number of quads these buffers describe.
    pub open spec fn quad_count(self) -> nat {
        self.verts.len() / 4
    }
}

impl MeshData {
    /// The buffer content of this mesh.
    pub open spec fn view_spec(self) -> MeshView {
        MeshView {
            verts: self.verts@,
            norms: self.norms@,
            tris: self.tris@,
            uvs: self.uvs@,
            layer_idx: self.layer_idx@,
            ao_level: self.ao_level@,
        }
    }

    /// Whether the mesh describes no geometry at all. An empty result is a
    /// signal to remove any previously applied mesh, not a no-op.
    pub open spec fn is_empty_spec(self) -> bool {
        self.verts@.len() == 0
    }

    /// Empty buffers for a chunk at `position`, meshed at `scale` sub-block
    /// units per block.
    pub fn new(position: ChunkCoord, scale: u64) -> (r: MeshData)
        ensures
            r.view_spec() == MeshView::empty(),
            r.scale == scale,
            r.position == position,
    {
        let r = MeshData {
            verts: Vec::new(),
            norms: Vec::new(),
            tris: Vec::new(),
            uvs: Vec::new(),
            layer_idx: Vec::new(),
            ao_level: Vec::new(),
            scale,
            position,
        };
        proof {
            assert(r.view_spec() =~= MeshView::empty());
        }
        r
    }

    /// Whether the mesh holds any geometry.
    pub fn is_empty(&self) -> (r: bool)
        ensures
            r == self.is_empty_spec(),
    {
        self.verts.len() == 0
    }
}

} // verus!
