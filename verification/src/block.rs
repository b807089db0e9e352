//! Blocks, their visual mesh styles, and the block registry that maps block
//! identifiers to per-face metadata.

use vstd::prelude::*;

use crate::direction::Direction;
use crate::UNITS_PER_BLOCK;

verus! {

/// The content of one cell of a chunk.
#[derive(Clone, Copy, PartialEq, Eq, Structural, Debug)]
pub enum BlockType {
    /// Air: nothing to mesh, fully transparent.
    Empty,
    /// An ordinary block; the identifier selects a registry entry.
    Basic(u32),
    /// An entity-backed block, drawn by its own entity rather than by chunk
    /// meshing. Treated as exposed (transparent) by neighbor queries.
    Entity(u64),
}

/// The visual style of a block: which geometry template is emitted and which
/// texture layers its faces use. Texture layers are indices into a host-side
/// array texture.
#[derive(Clone, Copy, PartialEq, Eq, Debug)]
pub enum BlockMesh {
    /// A full cube with one texture layer on every face.
    Uniform(i32),
    /// A full cube with one texture layer per face, indexed by
    /// [`Direction::idx`].
    MultiTexture([i32; 6]),
    /// A slab filling the bottom part of the cell. The first field is the
    /// slab height in sub-block units out of [`UNITS_PER_BLOCK`]; the second
    /// holds one texture layer per face.
    BottomSlab(u32, [i32; 6]),
}

impl BlockMesh {
    /// A slab's height never exceeds a full block.
    pub open spec fn wf(self) -> bool {
        match self {
            BlockMesh::BottomSlab(height, _) => height <= UNITS_PER_BLOCK,
            _ => true,
        }
    }

    /// The texture layer emitted for the given face.
    pub open spec fn face_texture(self, face: Direction) -> i32 {
        match self {
            BlockMesh::Uniform(tex) => tex,
            BlockMesh::MultiTexture(tex) => tex@[face.idx()],
            BlockMesh::BottomSlab(_, tex) => tex@[face.idx()],
        }
    }

    /// The slab height for a bottom slab, or a full block for the cube
    /// styles.
    pub open spec fn height_units(self) -> u32 {
        match self {
            BlockMesh::BottomSlab(height, _) => height,
            _ => UNITS_PER_BLOCK,
        }
    }
}

/// Visual and physical metadata for one block identifier.
#[derive(Clone, Copy, PartialEq, Eq, Debug)]
pub struct BlockEntry {
    /// The geometry template and texture layers for this block.
    pub mesh: BlockMesh,
    /// Whether the block lets light through each of its faces, indexed by
    /// [`Direction::idx`]. A face of a neighboring block is drawn exactly
    /// when the touching face of this block is transparent.
    pub transparent: [bool; 6],
}

impl BlockEntry {
    pub open spec fn wf(self) -> bool {
        self.mesh.wf()
    }

    /// An entry that is opaque on every face.
    pub fn opaque(mesh: BlockMesh) -> (r: BlockEntry)
        ensures
            r.mesh == mesh,
            forall|i: int| 0 <= i < 6 ==> !r.transparent@[i],
    {
        BlockEntry { mesh, transparent: [false, false, false, false, false, false] }
    }

    /// An entry with the given per-face transparency.
    pub fn new(mesh: BlockMesh, transparent: [bool; 6]) -> (r: BlockEntry)
        ensures
            r.mesh == mesh,
            r.transparent == transparent,
    {
        BlockEntry { mesh, transparent }
    }
}

/// Maps block identifiers to their metadata. Read-only after initialization;
/// identifier `id` names the entry at index `id`.
pub struct BlockRegistry {
    pub entries: Vec<BlockEntry>,
}

impl BlockRegistry {
    pub open spec fn wf(self) -> bool {
        forall|i: int| 0 <= i < self.entries.len() ==> (#[trigger] self.entries@[i]).wf()
    }

    /// Whether the identifier names a registered block.
    pub open spec fn has_id(self, id: u32) -> bool {
        id < self.entries.len()
    }

    /// The mesh style registered for the identifier.
    pub open spec fn mesh_of(self, id: u32) -> BlockMesh {
        self.entries@[id as int].mesh
    }

    /// Whether `block` lets light through its face pointing in direction
    /// `face`. Air and entity-backed blocks are treated as fully
    /// transparent, as is an unregistered identifier.
    pub open spec fn transparent_spec(self, block: BlockType, face: Direction) -> bool {
        match block {
            BlockType::Empty => true,
            BlockType::Basic(id) => {
                if self.has_id(id) {
                    self.entries@[id as int].transparent@[face.idx()]
                } else {
                    true
                }
            },
            BlockType::Entity(_) => true,
        }
    }

    /// An empty registry with no block identifiers.
    pub fn new() -> (r: BlockRegistry)
        ensures
            r.wf(),
            r.entries@ == Seq::<BlockEntry>::empty(),
    {
        BlockRegistry { entries: Vec::new() }
    }

    /// Registers a new block and returns its identifier.
    pub fn register(&mut self, entry: BlockEntry) -> (id: u32)
        requires
            old(self).wf(),
            entry.wf(),
            old(self).entries.len() < u32::MAX,
        ensures
            final(self).wf(),
            final(self).entries@ == old(self).entries@.push(entry),
            id == old(self).entries.len(),
    {
        let id = self.entries.len() as u32;
        self.entries.push(entry);
        id
    }

    /// The mesh style for a registered block identifier.
    pub fn get_block_mesh(&self, id: u32) -> (r: &BlockMesh)
        requires
            self.has_id(id),
        ensures
            *r == self.mesh_of(id),
    {
        &self.entries[id as usize].mesh
    }

    /// Whether `block` is transparent when seen through its `face` side.
    pub fn is_transparent(&self, block: BlockType, face: Direction) -> (r: bool)
        ensures
            r == self.transparent_spec(block, face),
    {
        match block {
            BlockType::Empty => true,
            BlockType::Basic(id) => {
                if (id as usize) < self.entries.len() {
                    self.entries[id as usize].transparent[face.to_idx()]
                } else {
                    true
                }
            },
            BlockType::Entity(_) => true,
        }
    }
}

} // verus!
