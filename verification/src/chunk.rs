//! Chunks: fixed-size cubic grids of blocks, addressed by a packed local
//! index, positioned on an integer world grid of chunk coordinates.

use vstd::prelude::*;
use vstd::arithmetic::div_mod::{
    lemma_fundamental_div_mod, lemma_fundamental_div_mod_converse,
};

use crate::block::BlockType;
use crate::direction::Direction;

verus! {

/// Integer position of a chunk in the world grid.
#[derive(Clone, Copy, PartialEq, Eq, Structural, Hash, Debug)]
pub struct ChunkCoord {
    pub x: i32,
    pub y: i32,
    pub z: i32,
}

impl ChunkCoord {
    /// The coordinate of the adjacent chunk in direction `dir`, assuming no
    /// overflow.
    pub open spec fn offset_spec(self, dir: Direction) -> ChunkCoord {
        match dir {
            Direction::PosX => (ChunkCoord { x: (self.x + 1) as i32, ..self }),
            Direction::PosY => (ChunkCoord { y: (self.y + 1) as i32, ..self }),
            Direction::PosZ => (ChunkCoord { z: (self.z + 1) as i32, ..self }),
            Direction::NegX => (ChunkCoord { x: (self.x - 1) as i32, ..self }),
            Direction::NegY => (ChunkCoord { y: (self.y - 1) as i32, ..self }),
            Direction::NegZ => (ChunkCoord { z: (self.z - 1) as i32, ..self }),
        }
    }

    /// Whether stepping one chunk in direction `dir` stays within the
    /// coordinate range.
    pub open spec fn can_offset(self, dir: Direction) -> bool {
        match dir {
            Direction::PosX => self.x < i32::MAX,
            Direction::PosY => self.y < i32::MAX,
            Direction::PosZ => self.z < i32::MAX,
            Direction::NegX => self.x > i32::MIN,
            Direction::NegY => self.y > i32::MIN,
            Direction::NegZ => self.z > i32::MIN,
        }
    }

    pub fn new(x: i32, y: i32, z: i32) -> (r: ChunkCoord)
        ensures
            r == (ChunkCoord { x, y, z }),
    {
        ChunkCoord { x, y, z }
    }

    /// The coordinate of the adjacent chunk in direction `dir`, or `None`
    /// when the step would leave the coordinate range.
    pub fn try_offset(self, dir: Direction) -> (r: Option<ChunkCoord>)
        ensures
            self.can_offset(dir) ==> r == Some(self.offset_spec(dir)),
            !self.can_offset(dir) ==> r is None,
    {
        match dir {
            Direction::PosX => if self.x < i32::MAX {
                Some(ChunkCoord { x: self.x + 1, ..self })
            } else {
                None
            },
            Direction::PosY => if self.y < i32::MAX {
                Some(ChunkCoord { y: self.y + 1, ..self })
            } else {
                None
            },
            Direction::PosZ => if self.z < i32::MAX {
                Some(ChunkCoord { z: self.z + 1, ..self })
            } else {
                None
            },
            Direction::NegX => if self.x > i32::MIN {
                Some(ChunkCoord { x: self.x - 1, ..self })
            } else {
                None
            },
            Direction::NegY => if self.y > i32::MIN {
                Some(ChunkCoord { y: self.y - 1, ..self })
            } else {
                None
            },
            Direction::NegZ => if self.z > i32::MIN {
                Some(ChunkCoord { z: self.z - 1, ..self })
            } else {
                None
            },
        }
    }

    /// The coordinate of the adjacent chunk in direction `dir`.
    pub fn offset(self, dir: Direction) -> (r: ChunkCoord)
        requires
            self.can_offset(dir),
        ensures
            r == self.offset_spec(dir),
    {
        match dir {
            Direction::PosX => ChunkCoord { x: self.x + 1, ..self },
            Direction::PosY => ChunkCoord { y: self.y + 1, ..self },
            Direction::PosZ => ChunkCoord { z: self.z + 1, ..self },
            Direction::NegX => ChunkCoord { x: self.x - 1, ..self },
            Direction::NegY => ChunkCoord { y: self.y - 1, ..self },
            Direction::NegZ => ChunkCoord { z: self.z - 1, ..self },
        }
    }
}

/// A block position local to one chunk: three coordinates, each below the
/// chunk's edge length.
#[derive(Clone, Copy, PartialEq, Eq, Structural, Debug)]
pub struct ChunkIdx {
    pub x: u8,
    pub y: u8,
    pub z: u8,
}

impl ChunkIdx {
    /// All three coordinates lie inside a chunk of edge length `size`.
    pub open spec fn valid(self, size: u8) -> bool {
        self.x < size && self.y < size && self.z < size
    }

    /// The packed (x-major) position of this cell in a chunk's block array.
    pub open spec fn flat(self, size: u8) -> int {
        (self.x * size * size) + (self.y * size) + self.z
    }

    pub fn new(x: u8, y: u8, z: u8) -> (r: ChunkIdx)
        ensures
            r == (ChunkIdx { x, y, z }),
    {
        ChunkIdx { x, y, z }
    }

    /// The local coordinates of the cell at flat block-array position `i`.
    pub open spec fn unflatten(i: int, size: u8) -> ChunkIdx {
        let s = size as int;
        ChunkIdx { x: (i / (s * s)) as u8, y: ((i / s) % s) as u8, z: (i % s) as u8 }
    }

    /// Unpacks a flat block-array position into local coordinates.
    pub fn from_usize(i: usize, size: u8) -> (r: ChunkIdx)
        requires
            size >= 1,
            i < size * size * size,
        ensures
            r.valid(size),
            r.flat(size) == i,
            r == Self::unflatten(i as int, size),
    {
        proof {
            lemma_size_products(0, 0, size as int);
            lemma_flat_unpack(i as int, size as int);
        }
        let s = size as usize;
        let x = i / (s * s);
        let y = (i / s) % s;
        let z = i % s;
        ChunkIdx { x: x as u8, y: y as u8, z: z as u8 }
    }

    /// Packs the local coordinates into a flat block-array position.
    pub fn to_usize(self, size: u8) -> (r: usize)
        requires
            self.valid(size),
        ensures
            r == self.flat(size),
    {
        proof {
            lemma_flat_bound(self, size);
            lemma_size_products(self.x as int, self.y as int, size as int);
        }
        (self.x as usize * size as usize * size as usize) + (self.y as usize * size as usize)
            + self.z as usize
    }
}

/// Bounds on the products appearing in flat-position arithmetic for an edge
/// length of at most 255 blocks; they all fit comfortably in 32 bits.
pub proof fn lemma_size_products(x: int, y: int, s: int)
    requires
        0 <= s <= 255,
        0 <= x < s,
        0 <= y < s,
    ensures
        s * s <= 65025,
        s * s * s <= 16581375,
        x * s <= 64770,
        x * s * s <= 16516350,
        y * s <= 64770,
{
    assert(s * s <= 65025 && s * s * s <= 16581375 && x * s <= 64770 && x * s * s <= 16516350
        && y * s <= 64770) by (nonlinear_arith)
        requires
            0 <= s <= 255,
            0 <= x < s,
            0 <= y < s,
    ;
}

/// The flat position of a valid local coordinate lies inside the block
/// array.
pub proof fn lemma_flat_bound(idx: ChunkIdx, size: u8)
    requires
        idx.valid(size),
    ensures
        0 <= idx.flat(size) < size * size * size,
{
    assert(idx.x * size * size + idx.y * size + idx.z < size * size * size) by (nonlinear_arith)
        requires
            idx.x < size,
            idx.y < size,
            idx.z < size,
    ;
}

/// Distinct valid local coordinates occupy distinct flat positions.
pub proof fn lemma_flat_injective(a: ChunkIdx, b: ChunkIdx, size: u8)
    requires
        a.valid(size),
        b.valid(size),
        a.flat(size) == b.flat(size),
    ensures
        a == b,
{
    assert(a.x == b.x && a.y == b.y && a.z == b.z) by (nonlinear_arith)
        requires
            a.x < size,
            a.y < size,
            a.z < size,
            b.x < size,
            b.y < size,
            b.z < size,
            a.x * size * size + a.y * size + a.z == b.x * size * size + b.y * size + b.z,
    ;
}

proof fn lemma_flat_unpack(i: int, s: int)
    requires
        s >= 1,
        0 <= i < s * s * s,
    ensures
        0 <= i / (s * s) < s,
        0 <= (i / s) % s < s,
        0 <= i % s < s,
        (i / (s * s)) * s * s + ((i / s) % s) * s + i % s == i,
{
    let x = i / (s * s);
    let y = (i / s) % s;
    let z = i % s;
    assert(s * s >= 1) by (nonlinear_arith)
        requires
            s >= 1,
    ;
    lemma_fundamental_div_mod(i, s * s);
    lemma_fundamental_div_mod(i, s);
    lemma_fundamental_div_mod(i / s, s);
    assert(0 <= z < s);
    let r2 = i % (s * s);
    assert(0 <= r2 < s * s);
    assert(i == (s * s) * x + r2);
    assert(0 <= x < s) by (nonlinear_arith)
        requires
            s >= 1,
            0 <= i < s * s * s,
            i == (s * s) * x + r2,
            0 <= r2 < s * s,
    ;
    assert(0 <= y < s);
    // i == s * (i / s) + z and i / s == s * (i / s / s) + y; it remains to
    // relate i / s / s to i / (s * s).
    assert(i == s * s * (i / s / s) + y * s + z) by (nonlinear_arith)
        requires
            s >= 1,
            i == s * (i / s) + i % s,
            i / s == s * (i / s / s) + (i / s) % s,
            y == (i / s) % s,
            z == i % s,
    ;
    assert(0 <= y * s + z < s * s) by (nonlinear_arith)
        requires
            s >= 1,
            0 <= y < s,
            0 <= z < s,
    ;
    lemma_fundamental_div_mod_converse(i, s * s, i / s / s, y * s + z);
    assert(x == i / s / s);
    assert(x * s * s + y * s + z == s * s * (i / s / s) + y * s + z) by (nonlinear_arith)
        requires
            x == i / s / s,
    ;
}

/// A cubic grid of blocks: the unit of world storage and meshing. Shared
/// immutably with meshing tasks as a cloned snapshot.
#[derive(Clone, Debug)]
pub struct Chunk {
    /// Position of this chunk in the world grid.
    pub position: ChunkCoord,
    /// Edge length of the grid, in blocks.
    pub size: u8,
    /// The blocks, packed x-major: cell (x, y, z) lives at
    /// `(x * size + y) * size + z`.
    pub blocks: Vec<BlockType>,
}

impl Chunk {
    /// The block array has exactly one cell per local coordinate.
    pub open spec fn wf(self) -> bool {
        self.size >= 1 && self.blocks.len() == self.size * self.size * self.size
    }

    /// The block at a valid local coordinate.
    pub open spec fn block_at(self, idx: ChunkIdx) -> BlockType {
        self.blocks@[idx.flat(self.size)]
    }

    /// A chunk with every cell holding `fill`.
    pub fn filled(position: ChunkCoord, size: u8, fill: BlockType) -> (r: Chunk)
        requires
            size >= 1,
        ensures
            r.wf(),
            r.position == position,
            r.size == size,
            forall|idx: ChunkIdx| idx.valid(size) ==> r.block_at(idx) == fill,
    {
        proof {
            lemma_size_products(0, 0, size as int);
        }
        let total = size as usize * size as usize * size as usize;
        let mut blocks: Vec<BlockType> = Vec::new();
        let mut i: usize = 0;
        while i < total
            invariant
                blocks.len() == i,
                i <= total,
                forall|j: int| 0 <= j < i ==> blocks@[j] == fill,
            decreases total - i,
        {
            blocks.push(fill);
            i += 1;
        }
        let r = Chunk { position, size, blocks };
        proof {
            assert forall|idx: ChunkIdx| idx.valid(size) implies r.block_at(idx) == fill by {
                lemma_flat_bound(idx, size);
            }
        }
        r
    }

    /// Reads the block at a local coordinate.
    pub fn get(&self, idx: ChunkIdx) -> (r: BlockType)
        requires
            self.wf(),
            idx.valid(self.size),
        ensures
            r == self.block_at(idx),
    {
        proof {
            lemma_flat_bound(idx, self.size);
        }
        self.blocks[idx.to_usize(self.size)]
    }

    /// Replaces the block at a local coordinate.
    pub fn set(&mut self, idx: ChunkIdx, block: BlockType)
        requires
            old(self).wf(),
            idx.valid(old(self).size),
        ensures
            final(self).wf(),
            final(self).position == old(self).position,
            final(self).size == old(self).size,
            final(self).block_at(idx) == block,
            forall|other: ChunkIdx|
                other.valid(old(self).size) && other != idx ==> final(self).block_at(other) == old(
                    self,
                ).block_at(other),
    {
        proof {
            lemma_flat_bound(idx, self.size);
        }
        let i = idx.to_usize(self.size);
        self.blocks.set(i, block);
        proof {
            assert forall|other: ChunkIdx|
                other.valid(old(self).size) && other != idx implies self.block_at(other) == old(
                self,
            ).block_at(other) by {
                lemma_flat_bound(other, old(self).size);
                if other.flat(old(self).size) == idx.flat(old(self).size) {
                    lemma_flat_injective(other, idx, old(self).size);
                }
            }
        }
    }

    /// An exact copy of this chunk's block grid, safe to hand to a
    /// background meshing task.
    pub fn snapshot(&self) -> (r: Chunk)
        requires
            self.wf(),
        ensures
            r.wf(),
            r.position == self.position,
            r.size == self.size,
            r.blocks@ == self.blocks@,
    {
        let mut blocks: Vec<BlockType> = Vec::new();
        let n = self.blocks.len();
        let mut i: usize = 0;
        while i < n
            invariant
                n == self.blocks.len(),
                blocks.len() == i,
                i <= n,
                forall|j: int| 0 <= j < i ==> blocks@[j] == self.blocks@[j],
            decreases n - i,
        {
            blocks.push(self.blocks[i]);
            i += 1;
        }
        proof {
            assert(blocks@ =~= self.blocks@);
        }
        Chunk { position: self.position, size: self.size, blocks }
    }
}

/// A slot of the chunk store: either generated block data or a placeholder
/// for a chunk that is not yet generated.
#[derive(Clone, Debug)]
pub enum ChunkType {
    /// The chunk's block grid is available.
    Full(Chunk),
    /// The chunk is known but its blocks have not been generated yet;
    /// meshing that depends on it is deferred.
    Ungenerated,
}

} // verus!
