//! The chunk store: a mapping from world-grid chunk coordinates to chunk
//! data or placeholder states, owned by the level. Meshing reads it through
//! read-only snapshots; mutation happens only between scheduling steps.

use vstd::prelude::*;

use crate::block::BlockType;
use crate::chunk::{Chunk, ChunkCoord, ChunkIdx, ChunkType};

verus! {

/// The chunk store. Every stored full chunk shares one edge length and
/// carries its own key as its position.
pub struct Level {
    /// Edge length, in blocks, of every chunk of this level.
    pub size: u8,
    /// The stored chunks, keyed by coordinate; coordinates are unique.
    pub chunks: Vec<(ChunkCoord, ChunkType)>,
}

impl Level {
    /// Keys are unique, and every full chunk is well formed, has this
    /// level's edge length and sits at its key's position.
    pub open spec fn wf(self) -> bool {
        &&& self.size >= 1
        &&& forall|i: int, j: int|
            0 <= i < j < self.chunks.len() ==> (#[trigger] self.chunks@[i]).0 != (
            #[trigger] self.chunks@[j]).0
        &&& forall|i: int|
            0 <= i < self.chunks.len() ==> match (#[trigger] self.chunks@[i]).1 {
                ChunkType::Full(c) => c.wf() && c.size == self.size && c.position
                    == self.chunks@[i].0,
                ChunkType::Ungenerated => true,
            }
    }

    /// Whether any chunk entry is stored under `coord`.
    pub open spec fn has_chunk_at(self, coord: ChunkCoord) -> bool {
        exists|i: int| 0 <= i < self.chunks.len() && (#[trigger] self.chunks@[i]).0 == coord
    }

    /// The entry stored under `coord` (meaningful when `has_chunk_at`).
    pub open spec fn chunk_at(self, coord: ChunkCoord) -> ChunkType {
        let i = choose|i: int|
            0 <= i < self.chunks.len() && (#[trigger] self.chunks@[i]).0 == coord;
        self.chunks@[i].1
    }

    /// Whether a generated (full) chunk is stored under `coord`.
    pub open spec fn full_chunk_at(self, coord: ChunkCoord) -> bool {
        self.has_chunk_at(coord) && self.chunk_at(coord) is Full
    }

    /// An empty store for chunks of edge length `size`.
    pub fn new(size: u8) -> (r: Level)
        requires
            size >= 1,
        ensures
            r.wf(),
            r.size == size,
            forall|c: ChunkCoord| !r.has_chunk_at(c),
    {
        Level { size, chunks: Vec::new() }
    }

    /// Looks up the entry stored under `coord`.
    pub fn get_chunk(&self, coord: ChunkCoord) -> (r: Option<&ChunkType>)
        requires
            self.wf(),
        ensures
            self.has_chunk_at(coord) ==> (r matches Some(ct) && *ct == self.chunk_at(coord)),
            !self.has_chunk_at(coord) ==> r is None,
    {
        let n = self.chunks.len();
        let mut i: usize = 0;
        while i < n
            invariant
                self.wf(),
                n == self.chunks.len(),
                i <= n,
                forall|j: int| 0 <= j < i ==> (#[trigger] self.chunks@[j]).0 != coord,
            decreases n - i,
        {
            let entry = &self.chunks[i];
            if entry.0 == coord {
                proof {
                    let w = choose|k: int|
                        0 <= k < self.chunks.len() && (#[trigger] self.chunks@[k]).0 == coord;
                    assert(self.chunks@[i as int].0 == coord);
                    assert(w == i as int);
                }
                return Some(&entry.1);
            }
            i += 1;
        }
        None
    }

    /// Stores `entry` under `coord`, replacing any previous entry.
    pub fn insert_chunk(&mut self, coord: ChunkCoord, entry: ChunkType)
        requires
            old(self).wf(),
            entry matches ChunkType::Full(c) ==> c.wf() && c.size == old(self).size && c.position
                == coord,
        ensures
            final(self).wf(),
            final(self).size == old(self).size,
            final(self).has_chunk_at(coord),
            final(self).chunk_at(coord) == entry,
            forall|c: ChunkCoord|
                c != coord ==> #[trigger] final(self).has_chunk_at(c) == old(self).has_chunk_at(c),
            forall|c: ChunkCoord|
                c != coord && old(self).has_chunk_at(c) ==> #[trigger] final(self).chunk_at(c)
                    == old(self).chunk_at(c),
    {
        let n = self.chunks.len();
        let mut i: usize = 0;
        while i < n
            invariant
                self == old(self),
                old(self).wf(),
                entry matches ChunkType::Full(c) ==> c.wf() && c.size == old(self).size
                    && c.position == coord,
                n == self.chunks.len(),
                i <= n,
                forall|j: int| 0 <= j < i ==> (#[trigger] self.chunks@[j]).0 != coord,
            decreases n - i,
        {
            if self.chunks[i].0 == coord {
                self.chunks.set(i, (coord, entry));
                proof {
                    assert forall|a: int|
                        0 <= a < self.chunks.len() implies (#[trigger] self.chunks@[a]).0 == old(
                        self,
                    ).chunks@[a].0 by {}
                    assert forall|a: int, b: int|
                        0 <= a < b < self.chunks.len() implies (#[trigger] self.chunks@[a]).0 != (
                    #[trigger] self.chunks@[b]).0 by {
                        assert(old(self).chunks@[a].0 != old(self).chunks@[b].0);
                    }
                    lemma_lookup_unique(*self, coord, i as int);
                    assert forall|c: ChunkCoord| c != coord implies #[trigger] self.has_chunk_at(c)
                        == old(self).has_chunk_at(c) by {
                        lemma_same_keys_lookup(*old(self), *self, c);
                    }
                    assert forall|c: ChunkCoord|
                        c != coord && old(self).has_chunk_at(c) implies #[trigger] self.chunk_at(c)
                        == old(self).chunk_at(c) by {
                        lemma_same_keys_lookup(*old(self), *self, c);
                    }
                }
                return ;
            }
            i += 1;
        }
        self.chunks.push((coord, entry));
        proof {
            lemma_lookup_unique(*self, coord, n as int);
            assert forall|c: ChunkCoord| c != coord implies #[trigger] self.has_chunk_at(c) == old(
                self,
            ).has_chunk_at(c) by {
                if old(self).has_chunk_at(c) {
                    let k = choose|k: int|
                        0 <= k < old(self).chunks.len() && (#[trigger] old(self).chunks@[k]).0
                            == c;
                    assert(self.chunks@[k].0 == c);
                }
                if self.has_chunk_at(c) {
                    let k = choose|k: int|
                        0 <= k < self.chunks.len() && (#[trigger] self.chunks@[k]).0 == c;
                    assert(k < n);
                    assert(old(self).chunks@[k].0 == c);
                }
            }
            assert forall|c: ChunkCoord|
                c != coord && old(self).has_chunk_at(c) implies #[trigger] self.chunk_at(c) == old(
                self,
            ).chunk_at(c) by {
                let k1 = choose|k: int|
                    0 <= k < old(self).chunks.len() && (#[trigger] old(self).chunks@[k]).0 == c;
                assert(self.chunks@[k1].0 == c);
                lemma_lookup_unique(*self, c, k1);
                lemma_lookup_unique(*old(self), c, k1);
            }
        }
    }

    /// Replaces the block at local cell `idx` of the full chunk stored
    /// under `coord`.
    pub fn set_block(&mut self, coord: ChunkCoord, idx: ChunkIdx, block: BlockType)
        requires
            old(self).wf(),
            old(self).full_chunk_at(coord),
            idx.valid(old(self).size),
        ensures
            final(self).wf(),
            final(self).size == old(self).size,
            final(self).full_chunk_at(coord),
            final(self).chunk_at(coord) matches ChunkType::Full(c) && (old(self).chunk_at(coord)
                matches ChunkType::Full(c0) && c.block_at(idx) == block && c.size == c0.size
                && c.position == c0.position && forall|other: ChunkIdx|
                other.valid(c0.size) && other != idx ==> c.block_at(other) == c0.block_at(other)),
            forall|c: ChunkCoord|
                #[trigger] final(self).has_chunk_at(c) == old(self).has_chunk_at(c),
            forall|c: ChunkCoord|
                c != coord && old(self).has_chunk_at(c) ==> #[trigger] final(self).chunk_at(c)
                    == old(self).chunk_at(c),
    {
        let n = self.chunks.len();
        let mut i: usize = 0;
        while i < n
            invariant
                self == old(self),
                old(self).wf(),
                old(self).full_chunk_at(coord),
                idx.valid(old(self).size),
                n == self.chunks.len(),
                i <= n,
                forall|j: int| 0 <= j < i ==> (#[trigger] self.chunks@[j]).0 != coord,
            decreases n - i,
        {
            if self.chunks[i].0 == coord {
                proof {
                    lemma_lookup_unique(*old(self), coord, i as int);
                }
                let entry = &mut self.chunks[i];
                match &mut entry.1 {
                    ChunkType::Full(c) => {
                        c.set(idx, block);
                    },
                    ChunkType::Ungenerated => {
                        // unreachable: the chunk under `coord` is full
                    },
                }
                proof {
                    assert forall|a: int|
                        0 <= a < self.chunks.len() implies (#[trigger] self.chunks@[a]).0 == old(
                        self,
                    ).chunks@[a].0 by {}
                    assert forall|a: int, b: int|
                        0 <= a < b < self.chunks.len() implies (#[trigger] self.chunks@[a]).0 != (
                    #[trigger] self.chunks@[b]).0 by {
                        assert(old(self).chunks@[a].0 != old(self).chunks@[b].0);
                    }
                    assert forall|a: int|
                        0 <= a < self.chunks.len() && a != i implies (
                    #[trigger] self.chunks@[a]).1 == old(self).chunks@[a].1 by {}
                    lemma_lookup_unique(*self, coord, i as int);
                    assert forall|c: ChunkCoord| #[trigger]
                        self.has_chunk_at(c) == old(self).has_chunk_at(c) by {
                        if c == coord {
                            assert(self.chunks@[i as int].0 == coord);
                            assert(old(self).chunks@[i as int].0 == coord);
                        } else {
                            lemma_same_keys_lookup(*old(self), *self, c);
                        }
                    }
                    assert forall|c: ChunkCoord|
                        c != coord && old(self).has_chunk_at(c) implies #[trigger] self.chunk_at(c)
                        == old(self).chunk_at(c) by {
                        lemma_same_keys_lookup(*old(self), *self, c);
                    }
                }
                return ;
            }
            i += 1;
        }
        proof {
            // unreachable: `full_chunk_at` names an existing entry
            let k = choose|k: int|
                0 <= k < old(self).chunks.len() && (#[trigger] old(self).chunks@[k]).0 == coord;
            assert(false);
        }
    }
}

/// With unique keys, any entry whose key matches is the entry that lookup
/// finds.
pub proof fn lemma_lookup_unique(level: Level, coord: ChunkCoord, i: int)
    requires
        forall|a: int, b: int|
            0 <= a < b < level.chunks.len() ==> (#[trigger] level.chunks@[a]).0 != (
            #[trigger] level.chunks@[b]).0,
        0 <= i < level.chunks.len(),
        level.chunks@[i].0 == coord,
    ensures
        level.has_chunk_at(coord),
        level.chunk_at(coord) == level.chunks@[i].1,
{
    let w = choose|k: int|
        0 <= k < level.chunks.len() && (#[trigger] level.chunks@[k]).0 == coord;
    assert(level.chunks@[i].0 == coord);
    if w < i {
        assert(level.chunks@[w].0 != level.chunks@[i].0);
    } else if i < w {
        assert(level.chunks@[i].0 != level.chunks@[w].0);
    }
}

/// Two stores whose entry sequences agree key-for-key except at one
/// changed index still agree on lookups of every other key.
proof fn lemma_same_keys_lookup(a: Level, b: Level, c: ChunkCoord)
    requires
        a.chunks.len() == b.chunks.len(),
        forall|i: int| 0 <= i < a.chunks.len() ==> (#[trigger] a.chunks@[i]).0 == b.chunks@[i].0,
        forall|i: int|
            0 <= i < a.chunks.len() && (#[trigger] a.chunks@[i]).0 == c ==> a.chunks@[i].1
                == b.chunks@[i].1,
        forall|i: int, j: int|
            0 <= i < j < a.chunks.len() ==> (#[trigger] a.chunks@[i]).0 != (
            #[trigger] a.chunks@[j]).0,
    ensures
        a.has_chunk_at(c) == b.has_chunk_at(c),
        a.has_chunk_at(c) ==> a.chunk_at(c) == b.chunk_at(c),
{
    if a.has_chunk_at(c) {
        let i = choose|i: int| 0 <= i < a.chunks.len() && (#[trigger] a.chunks@[i]).0 == c;
        assert(b.chunks@[i].0 == c);
        lemma_lookup_unique(a, c, i);
        assert forall|p: int, q: int|
            0 <= p < q < b.chunks.len() implies (#[trigger] b.chunks@[p]).0 != (
        #[trigger] b.chunks@[q]).0 by {
            assert(a.chunks@[p].0 != a.chunks@[q].0);
        }
        lemma_lookup_unique(b, c, i);
    } else if b.has_chunk_at(c) {
        let i = choose|i: int| 0 <= i < b.chunks.len() && (#[trigger] b.chunks@[i]).0 == c;
        assert(a.chunks@[i].0 == c);
    }
}

} // verus!
