//! Face culling and quad emission: turning a chunk's block grid (plus its
//! six neighbor snapshots) into mesh buffers.
//!
//! For every non-empty block and each of the six directions, the builder
//! decides whether the face is exposed, and if so emits one quad: four
//! vertices with normals, texture coordinates, a texture layer and a
//! per-vertex ambient-occlusion level, plus six triangle indices in a fixed
//! fan.

use vstd::prelude::*;
use vstd::arithmetic::div_mod::{lemma_div_is_ordered, lemma_div_multiples_vanish};
use vstd::arithmetic::mul::lemma_mul_inequality;

use crate::block::{BlockMesh, BlockRegistry, BlockType};
use crate::chunk::{Chunk, ChunkIdx};
use crate::direction::Direction;
use crate::mesh_data::{
    MeshData, MeshView, UvCoord, VertPos, AO_LEVEL_0, AO_LEVEL_1, AO_LEVEL_2, AO_LEVEL_3,
};
use crate::UNITS_PER_BLOCK;

verus! {

/// Whether a block counts as solid for ambient-occlusion sampling.
pub open spec fn is_solid(b: BlockType) -> bool {
    b is Basic
}

/// Whether the cell `(x, y, z)` lies inside the chunk and holds a solid
/// block. Out-of-range samples count as absent: ambient occlusion only
/// samples the chunk being meshed, never its neighbors.
pub open spec fn solid_in_chunk(chunk: Chunk, x: int, y: int, z: int) -> bool {
    0 <= x < chunk.size && 0 <= y < chunk.size && 0 <= z < chunk.size && is_solid(
        chunk.block_at(ChunkIdx { x: x as u8, y: y as u8, z: z as u8 }),
    )
}

/// The shading level for one face corner from its three neighbor samples:
/// the two edge-adjacent blocks and the diagonal corner block. Both edges
/// solid gives the darkest level outright; otherwise the level rises as
/// fewer samples are solid.
pub open spec fn ao_from_samples(side1: bool, side2: bool, corner: bool) -> u8 {
    let count = (if side1 {
        1int
    } else {
        0int
    }) + (if side2 {
        1int
    } else {
        0int
    }) + (if corner {
        1int
    } else {
        0int
    });
    if side1 && side2 {
        AO_LEVEL_0
    } else if count == 3 {
        AO_LEVEL_0
    } else if count == 2 {
        AO_LEVEL_1
    } else if count == 1 {
        AO_LEVEL_2
    } else {
        AO_LEVEL_3
    }
}

/// The signed unit step a corner flag selects along one axis.
pub open spec fn corner_step(positive: bool) -> int {
    if positive {
        1
    } else {
        -1
    }
}

/// The ambient-occlusion level at the corner of the cell `coord` selected
/// by the three sign flags: `side1` varies x and y, `side2` varies y and z,
/// and the corner sample varies all three.
pub open spec fn ao_level_at(
    chunk: Chunk,
    coord: ChunkIdx,
    pos_x: bool,
    pos_y: bool,
    pos_z: bool,
) -> u8 {
    let side1 = solid_in_chunk(
        chunk,
        coord.x + corner_step(pos_x),
        coord.y + corner_step(pos_y),
        coord.z as int,
    );
    let side2 = solid_in_chunk(
        chunk,
        coord.x as int,
        coord.y + corner_step(pos_y),
        coord.z + corner_step(pos_z),
    );
    let corner = solid_in_chunk(
        chunk,
        coord.x + corner_step(pos_x),
        coord.y + corner_step(pos_y),
        coord.z + corner_step(pos_z),
    );
    ao_from_samples(side1, side2, corner)
}

/// The ambient-occlusion mapping is symmetric in its two edge samples: for
/// a fixed corner sample, swapping which edge is "side1" and which is
/// "side2" never changes the level.
pub proof fn lemma_ao_edge_symmetry(side1: bool, side2: bool, corner: bool)
    ensures
        ao_from_samples(side1, side2, corner) == ao_from_samples(side2, side1, corner),
{
}

/// Maps three neighbor samples to a shading level in percent.
pub fn neighbors_to_ao(side1: bool, side2: bool, corner: bool) -> (r: u8)
    ensures
        r == ao_from_samples(side1, side2, corner),
{
    if side1 && side2 {
        return AO_LEVEL_0;
    }
    let count = (if side1 {
        1usize
    } else {
        0usize
    }) + (if side2 {
        1usize
    } else {
        0usize
    }) + (if corner {
        1usize
    } else {
        0usize
    });
    if count == 3 {
        AO_LEVEL_0
    } else if count == 2 {
        AO_LEVEL_1
    } else if count == 1 {
        AO_LEVEL_2
    } else {
        AO_LEVEL_3
    }
}

/// Samples the chunk around one corner of `coord` and appends the corner's
/// ambient-occlusion level. Samples that fall outside the chunk count as
/// absent.
pub fn add_ao(
    chunk: &Chunk,
    coord: ChunkIdx,
    pos_x: bool,
    pos_y: bool,
    pos_z: bool,
    data: &mut MeshData,
)
    requires
        chunk.wf(),
        coord.valid(chunk.size),
    ensures
        final(data).ao_level@ == old(data).ao_level@.push(
            ao_level_at(*chunk, coord, pos_x, pos_y, pos_z),
        ),
        final(data).verts == old(data).verts,
        final(data).norms == old(data).norms,
        final(data).tris == old(data).tris,
        final(data).uvs == old(data).uvs,
        final(data).layer_idx == old(data).layer_idx,
        final(data).scale == old(data).scale,
        final(data).position == old(data).position,
{
    let size = chunk.size as i32;
    let sx = coord.x as i32 + (if pos_x {
        1
    } else {
        -1
    });
    let sy = coord.y as i32 + (if pos_y {
        1
    } else {
        -1
    });
    let sz = coord.z as i32 + (if pos_z {
        1
    } else {
        -1
    });
    let mut side1 = false;
    let mut side2 = false;
    let mut corner = false;
    if 0 <= sx && sx < size && 0 <= sy && sy < size {
        side1 = matches!(
            chunk.get(ChunkIdx::new(sx as u8, sy as u8, coord.z)),
            BlockType::Basic(_)
        );
    }
    if 0 <= sy && sy < size && 0 <= sz && sz < size {
        side2 = matches!(
            chunk.get(ChunkIdx::new(coord.x, sy as u8, sz as u8)),
            BlockType::Basic(_)
        );
    }
    if 0 <= sx && sx < size && 0 <= sy && sy < size && 0 <= sz && sz < size {
        corner = matches!(
            chunk.get(ChunkIdx::new(sx as u8, sy as u8, sz as u8)),
            BlockType::Basic(_)
        );
    }
    let level = neighbors_to_ao(side1, side2, corner);
    data.ao_level.push(level);
}

/// The two triangles of a quad whose four vertices start at index `first`,
/// wound as a fixed fan: 0-1-2 then 2-3-0.
pub open spec fn tri_fan(first: int) -> Seq<u32> {
    seq![
        first as u32,
        (first + 1) as u32,
        (first + 2) as u32,
        (first + 2) as u32,
        (first + 3) as u32,
        first as u32,
    ]
}

/// Appends the two triangles of the quad whose first vertex has index
/// `first_vert_idx`.
pub fn add_tris(tris: &mut Vec<u32>, first_vert_idx: u32)
    requires
        first_vert_idx + 3 <= u32::MAX,
    ensures
        final(tris)@ == old(tris)@ + tri_fan(first_vert_idx as int),
{
    tris.push(first_vert_idx);
    tris.push(first_vert_idx + 1);
    tris.push(first_vert_idx + 2);
    tris.push(first_vert_idx + 2);
    tris.push(first_vert_idx + 3);
    tris.push(first_vert_idx);
    proof {
        assert(tris@ =~= old(tris)@ + tri_fan(first_vert_idx as int));
    }
}

/// Whether a block face is exposed and must be drawn, given the block's
/// style, the face direction, and the block touching that face. Cube styles
/// draw a face exactly when the neighbor is transparent from the touching
/// side; a bottom slab's top face is exposed by construction and always
/// drawn.
pub open spec fn should_mesh_face_spec(
    registry: BlockRegistry,
    block: BlockMesh,
    block_face: Direction,
    neighbor: BlockType,
) -> bool {
    match block {
        BlockMesh::Uniform(_) | BlockMesh::MultiTexture(_) => registry.transparent_spec(
            neighbor,
            block_face.opposite_spec(),
        ),
        BlockMesh::BottomSlab(_, _) => block_face == Direction::PosY || registry.transparent_spec(
            neighbor,
            block_face.opposite_spec(),
        ),
    }
}

/// Decides whether to emit the `block_face` side of a block with style
/// `block` whose neighbor on that side is `neighbor`.
pub fn should_mesh_face(
    registry: &BlockRegistry,
    block: &BlockMesh,
    block_face: Direction,
    neighbor: BlockType,
) -> (r: bool)
    ensures
        r == should_mesh_face_spec(*registry, *block, block_face, neighbor),
{
    match block {
        BlockMesh::Uniform(_) | BlockMesh::MultiTexture(_) => registry.is_transparent(
            neighbor,
            block_face.opposite(),
        ),
        BlockMesh::BottomSlab(_, _) => matches!(block_face, Direction::PosY)
            || registry.is_transparent(neighbor, block_face.opposite()),
    }
}

/// A bottom slab's top face is always drawn, whatever its neighbor.
pub proof fn lemma_slab_top_always_meshed(
    registry: BlockRegistry,
    height: u32,
    tex: [i32; 6],
    neighbor: BlockType,
)
    ensures
        should_mesh_face_spec(registry, BlockMesh::BottomSlab(height, tex), Direction::PosY, neighbor),
{
}

/// The vertical extent of a quad in sub-block units: the full meshing scale
/// for cube styles, the height fraction of the scale for a bottom slab.
pub open spec fn y_extent(b: BlockMesh, scale: u64) -> int {
    (b.height_units() as int) * (scale as int) / (UNITS_PER_BLOCK as int)
}

/// A quad's vertical extent never exceeds the meshing scale, and equals it
/// exactly for the full-cube styles.
pub proof fn lemma_y_extent_bounds(b: BlockMesh, scale: u64)
    requires
        b.wf(),
    ensures
        0 <= y_extent(b, scale) <= scale,
        !(b is BottomSlab) ==> y_extent(b, scale) == scale,
{
    let hu = b.height_units() as int;
    let s = scale as int;
    let d = UNITS_PER_BLOCK as int;
    lemma_mul_inequality(hu, d, s);
    lemma_div_is_ordered(hu * s, d * s, d);
    lemma_div_multiples_vanish(s, d);
    lemma_mul_inequality(0, hu, s);
    lemma_div_is_ordered(0, hu * s, d);
}

/// Vertex position `delta` sub-block units away from `origin`.
pub open spec fn vpos(origin: VertPos, dx: int, dy: int, dz: int) -> VertPos {
    VertPos { x: (origin.x + dx) as u64, y: (origin.y + dy) as u64, z: (origin.z + dz) as u64 }
}

/// The four corners of the quad for one face of a block at `origin`, in
/// emission order. The vertical extent shrinks for bottom slabs; all other
/// extents span the full scale.
pub open spec fn face_verts(b: BlockMesh, face: Direction, origin: VertPos, scale: u64) -> Seq<
    VertPos,
> {
    let s = scale as int;
    let ey = y_extent(b, scale);
    match face {
        Direction::NegZ => seq![
            vpos(origin, 0, 0, 0),
            vpos(origin, 0, ey, 0),
            vpos(origin, s, ey, 0),
            vpos(origin, s, 0, 0),
        ],
        Direction::PosZ => seq![
            vpos(origin, 0, 0, s),
            vpos(origin, s, 0, s),
            vpos(origin, s, ey, s),
            vpos(origin, 0, ey, s),
        ],
        Direction::NegX => seq![
            vpos(origin, 0, 0, s),
            vpos(origin, 0, ey, s),
            vpos(origin, 0, ey, 0),
            vpos(origin, 0, 0, 0),
        ],
        Direction::PosX => seq![
            vpos(origin, s, ey, s),
            vpos(origin, s, 0, s),
            vpos(origin, s, 0, 0),
            vpos(origin, s, ey, 0),
        ],
        Direction::PosY => seq![
            vpos(origin, 0, ey, 0),
            vpos(origin, 0, ey, s),
            vpos(origin, s, ey, s),
            vpos(origin, s, ey, 0),
        ],
        Direction::NegY => seq![
            vpos(origin, 0, 0, 0),
            vpos(origin, s, 0, 0),
            vpos(origin, s, 0, s),
            vpos(origin, 0, 0, s),
        ],
    }
}

/// The `v` texture component used where a face template spans the block's
/// height: a bottom slab shows only its height fraction of the texture on
/// the -Z, +Z and -X faces; every other combination spans the whole
/// texture.
pub open spec fn uv_v_units(b: BlockMesh, face: Direction) -> u32 {
    match face {
        Direction::NegZ | Direction::PosZ | Direction::NegX => b.height_units(),
        _ => UNITS_PER_BLOCK,
    }
}

/// The four texture coordinates of one face's quad, in emission order.
pub open spec fn face_uvs(b: BlockMesh, face: Direction) -> Seq<UvCoord> {
    let full = UNITS_PER_BLOCK;
    let v = uv_v_units(b, face);
    match face {
        Direction::NegZ => seq![
            (UvCoord { u: full, v }),
            (UvCoord { u: full, v: 0 }),
            (UvCoord { u: 0, v: 0 }),
            (UvCoord { u: 0, v }),
        ],
        Direction::PosZ => seq![
            (UvCoord { u: 0, v }),
            (UvCoord { u: full, v }),
            (UvCoord { u: full, v: 0 }),
            (UvCoord { u: 0, v: 0 }),
        ],
        Direction::NegX => seq![
            (UvCoord { u: full, v }),
            (UvCoord { u: full, v: 0 }),
            (UvCoord { u: 0, v: 0 }),
            (UvCoord { u: 0, v }),
        ],
        Direction::PosX => seq![
            (UvCoord { u: 0, v: 0 }),
            (UvCoord { u: 0, v: full }),
            (UvCoord { u: full, v: full }),
            (UvCoord { u: full, v: 0 }),
        ],
        Direction::PosY => seq![
            (UvCoord { u: full, v: full }),
            (UvCoord { u: full, v: 0 }),
            (UvCoord { u: 0, v: 0 }),
            (UvCoord { u: 0, v: full }),
        ],
        Direction::NegY => seq![
            (UvCoord { u: full, v: full }),
            (UvCoord { u: 0, v: full }),
            (UvCoord { u: 0, v: 0 }),
            (UvCoord { u: full, v: 0 }),
        ],
    }
}

/// The four ambient-occlusion corner selectors of one face's quad, in
/// emission order. Bottom slabs sample the same four bottom corners for
/// every face.
pub open spec fn face_ao_corners(b: BlockMesh, face: Direction) -> Seq<(bool, bool, bool)> {
    if b is BottomSlab {
        seq![(false, false, false), (true, false, false), (true, false, true), (false, false, true)]
    } else {
        match face {
            Direction::NegZ => seq![
                (false, false, false),
                (false, true, false),
                (true, true, false),
                (true, false, false),
            ],
            Direction::PosZ => seq![
                (false, false, true),
                (true, false, true),
                (true, true, true),
                (false, true, true),
            ],
            Direction::NegX => seq![
                (false, false, true),
                (false, true, true),
                (false, true, false),
                (false, false, false),
            ],
            Direction::PosX => seq![
                (true, true, true),
                (true, false, true),
                (true, false, false),
                (true, true, false),
            ],
            Direction::PosY => seq![
                (false, true, false),
                (false, true, true),
                (true, true, true),
                (true, true, false),
            ],
            Direction::NegY => seq![
                (false, false, false),
                (true, false, false),
                (true, false, true),
                (false, false, true),
            ],
        }
    }
}

/// The four ambient-occlusion levels of one face's quad, in emission order.
pub open spec fn face_ao_levels(b: BlockMesh, face: Direction, chunk: Chunk, coord: ChunkIdx)
    -> Seq<u8> {
    face_ao_corners(b, face).map_values(|c: (bool, bool, bool)| ao_level_at(chunk, coord, c.0, c.1, c.2))
}

/// The buffers after emitting one quad for face `face` of a block with
/// style `b` at cell `coord` of `chunk`, whose quad origin in sub-block
/// units is `origin`.
pub open spec fn emit_face(
    v: MeshView,
    chunk: Chunk,
    b: BlockMesh,
    coord: ChunkIdx,
    face: Direction,
    origin: VertPos,
    scale: u64,
) -> MeshView {
    let tex = b.face_texture(face);
    MeshView {
        verts: v.verts + face_verts(b, face, origin, scale),
        norms: v.norms + seq![face, face, face, face],
        tris: v.tris + tri_fan(v.verts.len() as int),
        uvs: v.uvs + face_uvs(b, face),
        layer_idx: v.layer_idx + seq![tex, tex, tex, tex],
        ao_level: v.ao_level + face_ao_levels(b, face, chunk, coord),
    }
}

/// Emits the quad for face `face` of a block with style `b` at cell
/// `coord`, appending four vertices and their attributes plus two
/// triangles to `data`.
pub fn mesh_face(
    b: &BlockMesh,
    chunk: &Chunk,
    coord: ChunkIdx,
    face: Direction,
    origin: VertPos,
    scale: u64,
    data: &mut MeshData,
)
    requires
        chunk.wf(),
        coord.valid(chunk.size),
        b.wf(),
        1 <= scale <= u32::MAX,
        origin.x + scale <= u64::MAX,
        origin.y + scale <= u64::MAX,
        origin.z + scale <= u64::MAX,
        old(data).verts.len() + 4 <= u32::MAX,
    ensures
        final(data).view_spec() == emit_face(
            old(data).view_spec(),
            *chunk,
            *b,
            coord,
            face,
            origin,
            scale,
        ),
        final(data).scale == old(data).scale,
        final(data).position == old(data).position,
{
    let n = data.verts.len() as u32;
    add_tris(&mut data.tris, n);
    // ambient occlusion, one sample set per corner in emission order
    match b {
        BlockMesh::BottomSlab(_, _) => {
            add_ao(chunk, coord, false, false, false, data);
            add_ao(chunk, coord, true, false, false, data);
            add_ao(chunk, coord, true, false, true, data);
            add_ao(chunk, coord, false, false, true, data);
        },
        _ => {
            match face {
                Direction::NegZ => {
                    add_ao(chunk, coord, false, false, false, data);
                    add_ao(chunk, coord, false, true, false, data);
                    add_ao(chunk, coord, true, true, false, data);
                    add_ao(chunk, coord, true, false, false, data);
                },
                Direction::PosZ => {
                    add_ao(chunk, coord, false, false, true, data);
                    add_ao(chunk, coord, true, false, true, data);
                    add_ao(chunk, coord, true, true, true, data);
                    add_ao(chunk, coord, false, true, true, data);
                },
                Direction::NegX => {
                    add_ao(chunk, coord, false, false, true, data);
                    add_ao(chunk, coord, false, true, true, data);
                    add_ao(chunk, coord, false, true, false, data);
                    add_ao(chunk, coord, false, false, false, data);
                },
                Direction::PosX => {
                    add_ao(chunk, coord, true, true, true, data);
                    add_ao(chunk, coord, true, false, true, data);
                    add_ao(chunk, coord, true, false, false, data);
                    add_ao(chunk, coord, true, true, false, data);
                },
                Direction::PosY => {
                    add_ao(chunk, coord, false, true, false, data);
                    add_ao(chunk, coord, false, true, true, data);
                    add_ao(chunk, coord, true, true, true, data);
                    add_ao(chunk, coord, true, true, false, data);
                },
                Direction::NegY => {
                    add_ao(chunk, coord, false, false, false, data);
                    add_ao(chunk, coord, true, false, false, data);
                    add_ao(chunk, coord, true, false, true, data);
                    add_ao(chunk, coord, false, false, true, data);
                },
            }
        },
    }
    // vertical extent: the slab height fraction of the scale
    let height_units: u64 = match b {
        BlockMesh::BottomSlab(h, _) => *h as u64,
        _ => UNITS_PER_BLOCK as u64,
    };
    proof {
        lemma_mul_inequality(height_units as int, UNITS_PER_BLOCK as int, scale as int);
        lemma_y_extent_bounds(*b, scale);
    }
    let ey = (height_units * scale) / (UNITS_PER_BLOCK as u64);
    match face {
        Direction::NegZ => {
            data.verts.push(VertPos { x: origin.x, y: origin.y, z: origin.z });
            data.verts.push(VertPos { x: origin.x, y: origin.y + ey, z: origin.z });
            data.verts.push(VertPos { x: origin.x + scale, y: origin.y + ey, z: origin.z });
            data.verts.push(VertPos { x: origin.x + scale, y: origin.y, z: origin.z });
        },
        Direction::PosZ => {
            data.verts.push(VertPos { x: origin.x, y: origin.y, z: origin.z + scale });
            data.verts.push(VertPos { x: origin.x + scale, y: origin.y, z: origin.z + scale });
            data.verts.push(VertPos { x: origin.x + scale, y: origin.y + ey, z: origin.z + scale });
            data.verts.push(VertPos { x: origin.x, y: origin.y + ey, z: origin.z + scale });
        },
        Direction::NegX => {
            data.verts.push(VertPos { x: origin.x, y: origin.y, z: origin.z + scale });
            data.verts.push(VertPos { x: origin.x, y: origin.y + ey, z: origin.z + scale });
            data.verts.push(VertPos { x: origin.x, y: origin.y + ey, z: origin.z });
            data.verts.push(VertPos { x: origin.x, y: origin.y, z: origin.z });
        },
        Direction::PosX => {
            data.verts.push(VertPos { x: origin.x + scale, y: origin.y + ey, z: origin.z + scale });
            data.verts.push(VertPos { x: origin.x + scale, y: origin.y, z: origin.z + scale });
            data.verts.push(VertPos { x: origin.x + scale, y: origin.y, z: origin.z });
            data.verts.push(VertPos { x: origin.x + scale, y: origin.y + ey, z: origin.z });
        },
        Direction::PosY => {
            data.verts.push(VertPos { x: origin.x, y: origin.y + ey, z: origin.z });
            data.verts.push(VertPos { x: origin.x, y: origin.y + ey, z: origin.z + scale });
            data.verts.push(VertPos { x: origin.x + scale, y: origin.y + ey, z: origin.z + scale });
            data.verts.push(VertPos { x: origin.x + scale, y: origin.y + ey, z: origin.z });
        },
        Direction::NegY => {
            data.verts.push(VertPos { x: origin.x, y: origin.y, z: origin.z });
            data.verts.push(VertPos { x: origin.x + scale, y: origin.y, z: origin.z });
            data.verts.push(VertPos { x: origin.x + scale, y: origin.y, z: origin.z + scale });
            data.verts.push(VertPos { x: origin.x, y: origin.y, z: origin.z + scale });
        },
    }
    let full = UNITS_PER_BLOCK;
    let uv_v: u32 = match face {
        Direction::NegZ | Direction::PosZ | Direction::NegX => {
            match b {
                BlockMesh::BottomSlab(h, _) => *h,
                _ => full,
            }
        },
        _ => full,
    };
    match face {
        Direction::NegZ => {
            data.uvs.push(UvCoord { u: full, v: uv_v });
            data.uvs.push(UvCoord { u: full, v: 0 });
            data.uvs.push(UvCoord { u: 0, v: 0 });
            data.uvs.push(UvCoord { u: 0, v: uv_v });
        },
        Direction::PosZ => {
            data.uvs.push(UvCoord { u: 0, v: uv_v });
            data.uvs.push(UvCoord { u: full, v: uv_v });
            data.uvs.push(UvCoord { u: full, v: 0 });
            data.uvs.push(UvCoord { u: 0, v: 0 });
        },
        Direction::NegX => {
            data.uvs.push(UvCoord { u: full, v: uv_v });
            data.uvs.push(UvCoord { u: full, v: 0 });
            data.uvs.push(UvCoord { u: 0, v: 0 });
            data.uvs.push(UvCoord { u: 0, v: uv_v });
        },
        Direction::PosX => {
            data.uvs.push(UvCoord { u: 0, v: 0 });
            data.uvs.push(UvCoord { u: 0, v: full });
            data.uvs.push(UvCoord { u: full, v: full });
            data.uvs.push(UvCoord { u: full, v: 0 });
        },
        Direction::PosY => {
            data.uvs.push(UvCoord { u: full, v: full });
            data.uvs.push(UvCoord { u: full, v: 0 });
            data.uvs.push(UvCoord { u: 0, v: 0 });
            data.uvs.push(UvCoord { u: 0, v: full });
        },
        Direction::NegY => {
            data.uvs.push(UvCoord { u: full, v: full });
            data.uvs.push(UvCoord { u: 0, v: full });
            data.uvs.push(UvCoord { u: 0, v: 0 });
            data.uvs.push(UvCoord { u: full, v: 0 });
        },
    }
    let tex: i32 = match b {
        BlockMesh::Uniform(t) => *t,
        BlockMesh::MultiTexture(t) => t[face.to_idx()],
        BlockMesh::BottomSlab(_, t) => t[face.to_idx()],
    };
    data.layer_idx.push(tex);
    data.layer_idx.push(tex);
    data.layer_idx.push(tex);
    data.layer_idx.push(tex);
    data.norms.push(face);
    data.norms.push(face);
    data.norms.push(face);
    data.norms.push(face);
    proof {
        assert(data.view_spec() =~= emit_face(
            old(data).view_spec(),
            *chunk,
            *b,
            coord,
            face,
            origin,
            scale,
        ));
    }
}

/// Every present neighbor snapshot is well formed and has the same edge
/// length as the chunk being meshed. Neighbor snapshots are indexed by
/// [`Direction::idx`].
pub open spec fn neighbors_wf(chunk: Chunk, neighbors: [Option<Chunk>; 6]) -> bool {
    forall|k: int|
        0 <= k < 6 ==> ((#[trigger] neighbors@[k]) matches Some(c) ==> c.wf() && c.size
            == chunk.size)
}

/// The block touching face `face` of cell `coord`: a cell of the same
/// chunk when `coord` is interior along that axis, otherwise the matching
/// boundary cell of the adjacent neighbor snapshot, or nothing when that
/// snapshot is absent.
pub open spec fn neighbor_block(
    chunk: Chunk,
    neighbors: [Option<Chunk>; 6],
    coord: ChunkIdx,
    face: Direction,
) -> Option<BlockType> {
    let last = (chunk.size - 1) as u8;
    match face {
        Direction::PosZ => if coord.z == last {
            match neighbors@[face.idx()] {
                Some(c) => Some(c.block_at(ChunkIdx { x: coord.x, y: coord.y, z: 0 })),
                None => None,
            }
        } else {
            Some(chunk.block_at(ChunkIdx { x: coord.x, y: coord.y, z: (coord.z + 1) as u8 }))
        },
        Direction::NegZ => if coord.z == 0 {
            match neighbors@[face.idx()] {
                Some(c) => Some(c.block_at(ChunkIdx { x: coord.x, y: coord.y, z: last })),
                None => None,
            }
        } else {
            Some(chunk.block_at(ChunkIdx { x: coord.x, y: coord.y, z: (coord.z - 1) as u8 }))
        },
        Direction::PosY => if coord.y == last {
            match neighbors@[face.idx()] {
                Some(c) => Some(c.block_at(ChunkIdx { x: coord.x, y: 0, z: coord.z })),
                None => None,
            }
        } else {
            Some(chunk.block_at(ChunkIdx { x: coord.x, y: (coord.y + 1) as u8, z: coord.z }))
        },
        Direction::NegY => if coord.y == 0 {
            match neighbors@[face.idx()] {
                Some(c) => Some(c.block_at(ChunkIdx { x: coord.x, y: last, z: coord.z })),
                None => None,
            }
        } else {
            Some(chunk.block_at(ChunkIdx { x: coord.x, y: (coord.y - 1) as u8, z: coord.z }))
        },
        Direction::PosX => if coord.x == last {
            match neighbors@[face.idx()] {
                Some(c) => Some(c.block_at(ChunkIdx { x: 0, y: coord.y, z: coord.z })),
                None => None,
            }
        } else {
            Some(chunk.block_at(ChunkIdx { x: (coord.x + 1) as u8, y: coord.y, z: coord.z }))
        },
        Direction::NegX => if coord.x == 0 {
            match neighbors@[face.idx()] {
                Some(c) => Some(c.block_at(ChunkIdx { x: last, y: coord.y, z: coord.z })),
                None => None,
            }
        } else {
            Some(chunk.block_at(ChunkIdx { x: (coord.x - 1) as u8, y: coord.y, z: coord.z }))
        },
    }
}

/// Whether the `face` side of a block with style `b` at `coord` is drawn:
/// an absent neighbor snapshot counts as exposed, otherwise the culling
/// decision is applied to the touching block.
pub open spec fn face_visible(
    reg: BlockRegistry,
    b: BlockMesh,
    chunk: Chunk,
    neighbors: [Option<Chunk>; 6],
    coord: ChunkIdx,
    face: Direction,
) -> bool {
    match neighbor_block(chunk, neighbors, coord, face) {
        Some(nb) => should_mesh_face_spec(reg, b, face, nb),
        None => true,
    }
}

/// The order in which a block's six faces are considered for emission.
pub open spec fn block_face_order() -> Seq<Direction> {
    seq![
        Direction::PosZ,
        Direction::NegZ,
        Direction::PosY,
        Direction::NegY,
        Direction::PosX,
        Direction::NegX,
    ]
}

/// The buffers after emitting the first `k` faces (in emission order) of
/// the block with style `b` at `coord` that pass the visibility decision.
pub open spec fn emit_block_upto(
    v: MeshView,
    reg: BlockRegistry,
    chunk: Chunk,
    neighbors: [Option<Chunk>; 6],
    b: BlockMesh,
    coord: ChunkIdx,
    origin: VertPos,
    scale: u64,
    k: int,
) -> MeshView
    decreases k,
{
    if k <= 0 {
        v
    } else {
        let prev = emit_block_upto(v, reg, chunk, neighbors, b, coord, origin, scale, k - 1);
        let face = block_face_order()[k - 1];
        if face_visible(reg, b, chunk, neighbors, coord, face) {
            emit_face(prev, chunk, b, coord, face, origin, scale)
        } else {
            prev
        }
    }
}

/// The buffers after emitting every visible face of the block with style
/// `b` at `coord`.
pub open spec fn emit_block(
    v: MeshView,
    reg: BlockRegistry,
    chunk: Chunk,
    neighbors: [Option<Chunk>; 6],
    b: BlockMesh,
    coord: ChunkIdx,
    origin: VertPos,
    scale: u64,
) -> MeshView {
    emit_block_upto(v, reg, chunk, neighbors, b, coord, origin, scale, 6)
}

/// Looks up the block touching face `face` of cell `coord`, crossing into
/// the adjacent neighbor snapshot when the cell lies on the chunk
/// boundary. Returns `None` when the needed snapshot is absent.
pub fn get_neighbor_block(
    chunk: &Chunk,
    neighbors: &[Option<Chunk>; 6],
    coord: ChunkIdx,
    face: Direction,
) -> (r: Option<BlockType>)
    requires
        chunk.wf(),
        neighbors_wf(*chunk, *neighbors),
        coord.valid(chunk.size),
    ensures
        r == neighbor_block(*chunk, *neighbors, coord, face),
{
    let last = chunk.size - 1;
    match face {
        Direction::PosZ => {
            if coord.z == last {
                match &neighbors[Direction::PosZ.to_idx()] {
                    Some(c) => Some(c.get(ChunkIdx::new(coord.x, coord.y, 0))),
                    None => None,
                }
            } else {
                Some(chunk.get(ChunkIdx::new(coord.x, coord.y, coord.z + 1)))
            }
        },
        Direction::NegZ => {
            if coord.z == 0 {
                match &neighbors[Direction::NegZ.to_idx()] {
                    Some(c) => Some(c.get(ChunkIdx::new(coord.x, coord.y, last))),
                    None => None,
                }
            } else {
                Some(chunk.get(ChunkIdx::new(coord.x, coord.y, coord.z - 1)))
            }
        },
        Direction::PosY => {
            if coord.y == last {
                match &neighbors[Direction::PosY.to_idx()] {
                    Some(c) => Some(c.get(ChunkIdx::new(coord.x, 0, coord.z))),
                    None => None,
                }
            } else {
                Some(chunk.get(ChunkIdx::new(coord.x, coord.y + 1, coord.z)))
            }
        },
        Direction::NegY => {
            if coord.y == 0 {
                match &neighbors[Direction::NegY.to_idx()] {
                    Some(c) => Some(c.get(ChunkIdx::new(coord.x, last, coord.z))),
                    None => None,
                }
            } else {
                Some(chunk.get(ChunkIdx::new(coord.x, coord.y - 1, coord.z)))
            }
        },
        Direction::PosX => {
            if coord.x == last {
                match &neighbors[Direction::PosX.to_idx()] {
                    Some(c) => Some(c.get(ChunkIdx::new(0, coord.y, coord.z))),
                    None => None,
                }
            } else {
                Some(chunk.get(ChunkIdx::new(coord.x + 1, coord.y, coord.z)))
            }
        },
        Direction::NegX => {
            if coord.x == 0 {
                match &neighbors[Direction::NegX.to_idx()] {
                    Some(c) => Some(c.get(ChunkIdx::new(last, coord.y, coord.z))),
                    None => None,
                }
            } else {
                Some(chunk.get(ChunkIdx::new(coord.x - 1, coord.y, coord.z)))
            }
        },
    }
}

/// Applies the visibility decision for one face of the block with style
/// `b` at `coord` and emits its quad when it passes.
fn mesh_block_face(
    chunk: &Chunk,
    neighbors: &[Option<Chunk>; 6],
    b: &BlockMesh,
    coord: ChunkIdx,
    face: Direction,
    origin: VertPos,
    scale: u64,
    data: &mut MeshData,
    registry: &BlockRegistry,
)
    requires
        chunk.wf(),
        neighbors_wf(*chunk, *neighbors),
        coord.valid(chunk.size),
        b.wf(),
        1 <= scale <= u32::MAX,
        origin.x + scale <= u64::MAX,
        origin.y + scale <= u64::MAX,
        origin.z + scale <= u64::MAX,
        old(data).verts.len() + 4 <= u32::MAX,
    ensures
        final(data).view_spec() == (if face_visible(
            *registry,
            *b,
            *chunk,
            *neighbors,
            coord,
            face,
        ) {
            emit_face(old(data).view_spec(), *chunk, *b, coord, face, origin, scale)
        } else {
            old(data).view_spec()
        }),
        final(data).scale == old(data).scale,
        final(data).position == old(data).position,
{
    let nb = get_neighbor_block(chunk, neighbors, coord, face);
    let emit = match nb {
        Some(n) => should_mesh_face(registry, b, face, n),
        None => true,
    };
    if emit {
        mesh_face(b, chunk, coord, face, origin, scale, data);
    }
}

/// Emits every visible face of the block with style `b` at cell `coord`,
/// consulting the adjacent neighbor snapshot for cells on the chunk
/// boundary. The meshing scale is taken from `data`.
pub fn mesh_block(
    chunk: &Chunk,
    neighbors: &[Option<Chunk>; 6],
    b: &BlockMesh,
    coord: ChunkIdx,
    origin: VertPos,
    data: &mut MeshData,
    registry: &BlockRegistry,
)
    requires
        chunk.wf(),
        neighbors_wf(*chunk, *neighbors),
        coord.valid(chunk.size),
        b.wf(),
        1 <= old(data).scale <= u32::MAX,
        origin.x + old(data).scale <= u64::MAX,
        origin.y + old(data).scale <= u64::MAX,
        origin.z + old(data).scale <= u64::MAX,
        old(data).verts.len() + 24 <= u32::MAX,
    ensures
        final(data).view_spec() == emit_block(
            old(data).view_spec(),
            *registry,
            *chunk,
            *neighbors,
            *b,
            coord,
            origin,
            old(data).scale,
        ),
        final(data).scale == old(data).scale,
        final(data).position == old(data).position,
{
    proof {
        reveal_with_fuel(emit_block_upto, 7);
    }
    let ghost v0 = old(data).view_spec();
    let ghost sc = old(data).scale;
    let scale = data.scale;
    mesh_block_face(chunk, neighbors, b, coord, Direction::PosZ, origin, scale, data, registry);
    proof {
        assert(data.view_spec() == emit_block_upto(
            v0,
            *registry,
            *chunk,
            *neighbors,
            *b,
            coord,
            origin,
            sc,
            1,
        ));
    }
    mesh_block_face(chunk, neighbors, b, coord, Direction::NegZ, origin, scale, data, registry);
    proof {
        assert(data.view_spec() == emit_block_upto(
            v0,
            *registry,
            *chunk,
            *neighbors,
            *b,
            coord,
            origin,
            sc,
            2,
        ));
    }
    mesh_block_face(chunk, neighbors, b, coord, Direction::PosY, origin, scale, data, registry);
    proof {
        assert(data.view_spec() == emit_block_upto(
            v0,
            *registry,
            *chunk,
            *neighbors,
            *b,
            coord,
            origin,
            sc,
            3,
        ));
    }
    mesh_block_face(chunk, neighbors, b, coord, Direction::NegY, origin, scale, data, registry);
    proof {
        assert(data.view_spec() == emit_block_upto(
            v0,
            *registry,
            *chunk,
            *neighbors,
            *b,
            coord,
            origin,
            sc,
            4,
        ));
    }
    mesh_block_face(chunk, neighbors, b, coord, Direction::PosX, origin, scale, data, registry);
    proof {
        assert(data.view_spec() == emit_block_upto(
            v0,
            *registry,
            *chunk,
            *neighbors,
            *b,
            coord,
            origin,
            sc,
            5,
        ));
    }
    mesh_block_face(chunk, neighbors, b, coord, Direction::NegX, origin, scale, data, registry);
    proof {
        assert(data.view_spec() == emit_block_upto(
            v0,
            *registry,
            *chunk,
            *neighbors,
            *b,
            coord,
            origin,
            sc,
            6,
        ));
    }
}

/// Emits the -Z face quad of a block with style `b` at `coord`.
pub fn mesh_neg_z(
    b: &BlockMesh,
    chunk: &Chunk,
    coord: ChunkIdx,
    origin: VertPos,
    scale: u64,
    data: &mut MeshData,
)
    requires
        chunk.wf(),
        coord.valid(chunk.size),
        b.wf(),
        1 <= scale <= u32::MAX,
        origin.x + scale <= u64::MAX,
        origin.y + scale <= u64::MAX,
        origin.z + scale <= u64::MAX,
        old(data).verts.len() + 4 <= u32::MAX,
    ensures
        final(data).view_spec() == emit_face(
            old(data).view_spec(),
            *chunk,
            *b,
            coord,
            Direction::NegZ,
            origin,
            scale,
        ),
        final(data).scale == old(data).scale,
        final(data).position == old(data).position,
{
    mesh_face(b, chunk, coord, Direction::NegZ, origin, scale, data)
}

/// Emits the +Z face quad of a block with style `b` at `coord`.
pub fn mesh_pos_z(
    b: &BlockMesh,
    chunk: &Chunk,
    coord: ChunkIdx,
    origin: VertPos,
    scale: u64,
    data: &mut MeshData,
)
    requires
        chunk.wf(),
        coord.valid(chunk.size),
        b.wf(),
        1 <= scale <= u32::MAX,
        origin.x + scale <= u64::MAX,
        origin.y + scale <= u64::MAX,
        origin.z + scale <= u64::MAX,
        old(data).verts.len() + 4 <= u32::MAX,
    ensures
        final(data).view_spec() == emit_face(
            old(data).view_spec(),
            *chunk,
            *b,
            coord,
            Direction::PosZ,
            origin,
            scale,
        ),
        final(data).scale == old(data).scale,
        final(data).position == old(data).position,
{
    mesh_face(b, chunk, coord, Direction::PosZ, origin, scale, data)
}

/// Emits the -X face quad of a block with style `b` at `coord`.
pub fn mesh_neg_x(
    b: &BlockMesh,
    chunk: &Chunk,
    coord: ChunkIdx,
    origin: VertPos,
    scale: u64,
    data: &mut MeshData,
)
    requires
        chunk.wf(),
        coord.valid(chunk.size),
        b.wf(),
        1 <= scale <= u32::MAX,
        origin.x + scale <= u64::MAX,
        origin.y + scale <= u64::MAX,
        origin.z + scale <= u64::MAX,
        old(data).verts.len() + 4 <= u32::MAX,
    ensures
        final(data).view_spec() == emit_face(
            old(data).view_spec(),
            *chunk,
            *b,
            coord,
            Direction::NegX,
            origin,
            scale,
        ),
        final(data).scale == old(data).scale,
        final(data).position == old(data).position,
{
    mesh_face(b, chunk, coord, Direction::NegX, origin, scale, data)
}

/// Emits the +X face quad of a block with style `b` at `coord`.
pub fn mesh_pos_x(
    b: &BlockMesh,
    chunk: &Chunk,
    coord: ChunkIdx,
    origin: VertPos,
    scale: u64,
    data: &mut MeshData,
)
    requires
        chunk.wf(),
        coord.valid(chunk.size),
        b.wf(),
        1 <= scale <= u32::MAX,
        origin.x + scale <= u64::MAX,
        origin.y + scale <= u64::MAX,
        origin.z + scale <= u64::MAX,
        old(data).verts.len() + 4 <= u32::MAX,
    ensures
        final(data).view_spec() == emit_face(
            old(data).view_spec(),
            *chunk,
            *b,
            coord,
            Direction::PosX,
            origin,
            scale,
        ),
        final(data).scale == old(data).scale,
        final(data).position == old(data).position,
{
    mesh_face(b, chunk, coord, Direction::PosX, origin, scale, data)
}

/// Emits the +Y face quad of a block with style `b` at `coord`.
pub fn mesh_pos_y(
    b: &BlockMesh,
    chunk: &Chunk,
    coord: ChunkIdx,
    origin: VertPos,
    scale: u64,
    data: &mut MeshData,
)
    requires
        chunk.wf(),
        coord.valid(chunk.size),
        b.wf(),
        1 <= scale <= u32::MAX,
        origin.x + scale <= u64::MAX,
        origin.y + scale <= u64::MAX,
        origin.z + scale <= u64::MAX,
        old(data).verts.len() + 4 <= u32::MAX,
    ensures
        final(data).view_spec() == emit_face(
            old(data).view_spec(),
            *chunk,
            *b,
            coord,
            Direction::PosY,
            origin,
            scale,
        ),
        final(data).scale == old(data).scale,
        final(data).position == old(data).position,
{
    mesh_face(b, chunk, coord, Direction::PosY, origin, scale, data)
}

/// Emits the -Y face quad of a block with style `b` at `coord`.
pub fn mesh_neg_y(
    b: &BlockMesh,
    chunk: &Chunk,
    coord: ChunkIdx,
    origin: VertPos,
    scale: u64,
    data: &mut MeshData,
)
    requires
        chunk.wf(),
        coord.valid(chunk.size),
        b.wf(),
        1 <= scale <= u32::MAX,
        origin.x + scale <= u64::MAX,
        origin.y + scale <= u64::MAX,
        origin.z + scale <= u64::MAX,
        old(data).verts.len() + 4 <= u32::MAX,
    ensures
        final(data).view_spec() == emit_face(
            old(data).view_spec(),
            *chunk,
            *b,
            coord,
            Direction::NegY,
            origin,
            scale,
        ),
        final(data).scale == old(data).scale,
        final(data).position == old(data).position,
{
    mesh_face(b, chunk, coord, Direction::NegY, origin, scale, data)
}

/// Every block of the chunk can be meshed: basic blocks name a registered
/// identifier, and no cell holds an entity-backed block (those are drawn by
/// their own entities, not by chunk meshing).
pub open spec fn chunk_blocks_meshable(chunk: Chunk, reg: BlockRegistry) -> bool {
    forall|i: int|
        0 <= i < chunk.blocks.len() ==> match #[trigger] chunk.blocks@[i] {
            BlockType::Empty => true,
            BlockType::Basic(id) => reg.has_id(id),
            BlockType::Entity(_) => false,
        }
}

/// The sub-block-unit origin of the cell `coord` when meshing at `scale`.
pub open spec fn block_origin(coord: ChunkIdx, scale: u64) -> VertPos {
    VertPos {
        x: (coord.x as int * scale as int) as u64,
        y: (coord.y as int * scale as int) as u64,
        z: (coord.z as int * scale as int) as u64,
    }
}

/// The buffers after meshing the single cell at flat position `i`: empty
/// and entity-backed cells emit nothing, basic blocks emit their visible
/// faces.
pub open spec fn emit_cell(
    v: MeshView,
    reg: BlockRegistry,
    chunk: Chunk,
    neighbors: [Option<Chunk>; 6],
    scale: u64,
    i: int,
) -> MeshView {
    let coord = ChunkIdx::unflatten(i, chunk.size);
    match chunk.blocks@[i] {
        BlockType::Empty => v,
        BlockType::Basic(id) => emit_block(
            v,
            reg,
            chunk,
            neighbors,
            reg.mesh_of(id),
            coord,
            block_origin(coord, scale),
            scale,
        ),
        BlockType::Entity(_) => v,
    }
}

/// The buffers after meshing the first `n` cells of the chunk in flat
/// order.
pub open spec fn emit_chunk_upto(
    v: MeshView,
    reg: BlockRegistry,
    chunk: Chunk,
    neighbors: [Option<Chunk>; 6],
    scale: u64,
    n: int,
) -> MeshView
    decreases n,
{
    if n <= 0 {
        v
    } else {
        emit_cell(emit_chunk_upto(v, reg, chunk, neighbors, scale, n - 1), reg, chunk, neighbors, scale, n - 1)
    }
}

/// The buffers after meshing every cell of the chunk, in flat cell order.
pub open spec fn emit_chunk(
    v: MeshView,
    reg: BlockRegistry,
    chunk: Chunk,
    neighbors: [Option<Chunk>; 6],
    scale: u64,
) -> MeshView {
    emit_chunk_upto(v, reg, chunk, neighbors, scale, chunk.blocks.len() as int)
}

/// Emitting one block adds at most four vertices per considered face.
pub proof fn lemma_emit_block_upto_len(
    v: MeshView,
    reg: BlockRegistry,
    chunk: Chunk,
    neighbors: [Option<Chunk>; 6],
    b: BlockMesh,
    coord: ChunkIdx,
    origin: VertPos,
    scale: u64,
    k: int,
)
    requires
        0 <= k,
    ensures
        v.verts.len() <= emit_block_upto(v, reg, chunk, neighbors, b, coord, origin, scale, k).verts.len()
            <= v.verts.len() + 4 * k,
    decreases k,
{
    if k > 0 {
        lemma_emit_block_upto_len(v, reg, chunk, neighbors, b, coord, origin, scale, k - 1);
    }
}

/// Meshing `n` cells adds at most 24 vertices per cell.
pub proof fn lemma_emit_chunk_upto_len(
    v: MeshView,
    reg: BlockRegistry,
    chunk: Chunk,
    neighbors: [Option<Chunk>; 6],
    scale: u64,
    n: int,
)
    requires
        0 <= n,
    ensures
        v.verts.len() <= emit_chunk_upto(v, reg, chunk, neighbors, scale, n).verts.len() <= v.verts.len()
            + 24 * n,
    decreases n,
{
    if n > 0 {
        lemma_emit_chunk_upto_len(v, reg, chunk, neighbors, scale, n - 1);
        let prev = emit_chunk_upto(v, reg, chunk, neighbors, scale, n - 1);
        let coord = ChunkIdx::unflatten(n - 1, chunk.size);
        match chunk.blocks@[n - 1] {
            BlockType::Empty => {},
            BlockType::Basic(id) => {
                lemma_emit_block_upto_len(
                    prev,
                    reg,
                    chunk,
                    neighbors,
                    reg.mesh_of(id),
                    coord,
                    block_origin(coord, scale),
                    scale,
                    6,
                );
            },
            BlockType::Entity(_) => {},
        }
    }
}

/// Emitting one quad keeps the buffers mutually consistent.
pub proof fn lemma_emit_face_wf(
    v: MeshView,
    chunk: Chunk,
    b: BlockMesh,
    coord: ChunkIdx,
    face: Direction,
    origin: VertPos,
    scale: u64,
)
    requires
        v.wf(),
        v.verts.len() + 4 <= u32::MAX,
    ensures
        emit_face(v, chunk, b, coord, face, origin, scale).wf(),
{
    let w = emit_face(v, chunk, b, coord, face, origin, scale);
    let n = v.verts.len() as int;
    assert(w.verts.len() == n + 4);
    assert forall|i: int| 0 <= i < w.tris.len() implies (#[trigger] w.tris[i]) < w.verts.len() by {
        if i < v.tris.len() {
            assert(v.tris[i] < v.verts.len());
        } else {
            assert(w.tris[i] == tri_fan(n)[i - v.tris.len()]);
        }
    }
}

/// Emitting one block keeps the buffers mutually consistent.
pub proof fn lemma_emit_block_upto_wf(
    v: MeshView,
    reg: BlockRegistry,
    chunk: Chunk,
    neighbors: [Option<Chunk>; 6],
    b: BlockMesh,
    coord: ChunkIdx,
    origin: VertPos,
    scale: u64,
    k: int,
)
    requires
        v.wf(),
        0 <= k,
        v.verts.len() + 4 * k <= u32::MAX,
    ensures
        emit_block_upto(v, reg, chunk, neighbors, b, coord, origin, scale, k).wf(),
    decreases k,
{
    if k > 0 {
        lemma_emit_block_upto_wf(v, reg, chunk, neighbors, b, coord, origin, scale, k - 1);
        lemma_emit_block_upto_len(v, reg, chunk, neighbors, b, coord, origin, scale, k - 1);
        let prev = emit_block_upto(v, reg, chunk, neighbors, b, coord, origin, scale, k - 1);
        let face = block_face_order()[k - 1];
        if face_visible(reg, b, chunk, neighbors, coord, face) {
            lemma_emit_face_wf(prev, chunk, b, coord, face, origin, scale);
        }
    }
}

/// Meshing any prefix of a chunk keeps the buffers mutually consistent.
pub proof fn lemma_emit_chunk_upto_wf(
    v: MeshView,
    reg: BlockRegistry,
    chunk: Chunk,
    neighbors: [Option<Chunk>; 6],
    scale: u64,
    n: int,
)
    requires
        v.wf(),
        0 <= n,
        v.verts.len() + 24 * n <= u32::MAX,
    ensures
        emit_chunk_upto(v, reg, chunk, neighbors, scale, n).wf(),
    decreases n,
{
    if n > 0 {
        lemma_emit_chunk_upto_wf(v, reg, chunk, neighbors, scale, n - 1);
        lemma_emit_chunk_upto_len(v, reg, chunk, neighbors, scale, n - 1);
        let prev = emit_chunk_upto(v, reg, chunk, neighbors, scale, n - 1);
        let coord = ChunkIdx::unflatten(n - 1, chunk.size);
        match chunk.blocks@[n - 1] {
            BlockType::Empty => {},
            BlockType::Basic(id) => {
                lemma_emit_block_upto_wf(
                    prev,
                    reg,
                    chunk,
                    neighbors,
                    reg.mesh_of(id),
                    coord,
                    block_origin(coord, scale),
                    scale,
                    6,
                );
            },
            BlockType::Entity(_) => {},
        }
    }
}

/// Meshes every cell of the chunk in flat order, appending the emitted
/// quads to `data`. The meshing scale is taken from `data`.
pub fn mesh_chunk(
    chunk: &Chunk,
    neighbors: &[Option<Chunk>; 6],
    data: &mut MeshData,
    registry: &BlockRegistry,
)
    requires
        chunk.wf(),
        neighbors_wf(*chunk, *neighbors),
        registry.wf(),
        chunk_blocks_meshable(*chunk, *registry),
        1 <= old(data).scale <= u32::MAX,
        old(data).verts.len() + 24 * chunk.blocks.len() <= u32::MAX,
    ensures
        final(data).view_spec() == emit_chunk(
            old(data).view_spec(),
            *registry,
            *chunk,
            *neighbors,
            old(data).scale,
        ),
        final(data).scale == old(data).scale,
        final(data).position == old(data).position,
{
    let ghost v0 = old(data).view_spec();
    let ghost sc = old(data).scale;
    let scale = data.scale;
    let total = chunk.blocks.len();
    let mut i: usize = 0;
    while i < total
        invariant
            chunk.wf(),
            neighbors_wf(*chunk, *neighbors),
            registry.wf(),
            chunk_blocks_meshable(*chunk, *registry),
            1 <= sc <= u32::MAX,
            scale == sc,
            total == chunk.blocks.len(),
            v0.verts.len() + 24 * total <= u32::MAX,
            i <= total,
            data.view_spec() == emit_chunk_upto(v0, *registry, *chunk, *neighbors, sc, i as int),
            data.scale == sc,
            data.position == old(data).position,
        decreases total - i,
    {
        proof {
            lemma_emit_chunk_upto_len(v0, *registry, *chunk, *neighbors, sc, i as int);
        }
        let block = chunk.blocks[i];
        match block {
            BlockType::Empty => {},
            BlockType::Basic(id) => {
                let coord = ChunkIdx::from_usize(i, chunk.size);
                let b = registry.get_block_mesh(id);
                proof {
                    lemma_mul_inequality(coord.x as int, 255, scale as int);
                    lemma_mul_inequality(coord.y as int, 255, scale as int);
                    lemma_mul_inequality(coord.z as int, 255, scale as int);
                }
                let origin = VertPos {
                    x: coord.x as u64 * scale,
                    y: coord.y as u64 * scale,
                    z: coord.z as u64 * scale,
                };
                mesh_block(chunk, neighbors, b, coord, origin, data, registry);
            },
            BlockType::Entity(_) => {
                // excluded by `chunk_blocks_meshable`; entity-backed blocks
                // are drawn by their own entities
            },
        }
        proof {
            assert(data.view_spec() == emit_chunk_upto(
                v0,
                *registry,
                *chunk,
                *neighbors,
                sc,
                i + 1,
            ));
        }
        i += 1;
    }
}

/// Builds the complete mesh for one chunk from its snapshot and the six
/// neighbor snapshots, at `scale` sub-block units per block. The result is
/// a pure function of the snapshots: meshing the same snapshots twice
/// yields identical buffers (see [`lemma_mesh_deterministic`]).
pub fn build_mesh(
    chunk: &Chunk,
    neighbors: &[Option<Chunk>; 6],
    registry: &BlockRegistry,
    scale: u64,
) -> (r: MeshData)
    requires
        chunk.wf(),
        neighbors_wf(*chunk, *neighbors),
        registry.wf(),
        chunk_blocks_meshable(*chunk, *registry),
        1 <= scale <= u32::MAX,
    ensures
        r.view_spec() == emit_chunk(MeshView::empty(), *registry, *chunk, *neighbors, scale),
        r.view_spec().wf(),
        r.scale == scale,
        r.position == chunk.position,
{
    proof {
        crate::chunk::lemma_size_products(0, 0, chunk.size as int);
        assert(MeshView::empty().wf());
        lemma_emit_chunk_upto_wf(
            MeshView::empty(),
            *registry,
            *chunk,
            *neighbors,
            scale,
            chunk.blocks.len() as int,
        );
    }
    let mut data = MeshData::new(chunk.position, scale);
    mesh_chunk(chunk, neighbors, &mut data, registry);
    data
}

/// Meshing is deterministic: two results built from the same chunk and
/// neighbor snapshots, registry and scale hold identical buffers, entry
/// for entry.
pub proof fn lemma_mesh_deterministic(
    r1: MeshData,
    r2: MeshData,
    chunk: Chunk,
    neighbors: [Option<Chunk>; 6],
    registry: BlockRegistry,
    scale: u64,
)
    requires
        r1.view_spec() == emit_chunk(MeshView::empty(), registry, chunk, neighbors, scale),
        r2.view_spec() == emit_chunk(MeshView::empty(), registry, chunk, neighbors, scale),
        r1.scale == scale,
        r2.scale == scale,
        r1.position == chunk.position,
        r2.position == chunk.position,
    ensures
        r1.verts@ == r2.verts@,
        r1.norms@ == r2.norms@,
        r1.tris@ == r2.tris@,
        r1.uvs@ == r2.uvs@,
        r1.layer_idx@ == r2.layer_idx@,
        r1.ao_level@ == r2.ao_level@,
        r1.scale == r2.scale,
        r1.position == r2.position,
{
}

/// A uniform-style block whose six touching neighbors are all present and
/// opaque from the touching side emits no geometry at all.
pub proof fn lemma_enclosed_uniform_emits_nothing(
    v: MeshView,
    reg: BlockRegistry,
    chunk: Chunk,
    neighbors: [Option<Chunk>; 6],
    b: BlockMesh,
    coord: ChunkIdx,
    origin: VertPos,
    scale: u64,
)
    requires
        b is Uniform,
        forall|f: Direction|
            (#[trigger] neighbor_block(chunk, neighbors, coord, f)) matches Some(nb)
                && !reg.transparent_spec(nb, f.opposite_spec()),
    ensures
        emit_block(v, reg, chunk, neighbors, b, coord, origin, scale) == v,
{
    reveal_with_fuel(emit_block_upto, 7);
    assert(!face_visible(reg, b, chunk, neighbors, coord, Direction::PosZ));
    assert(!face_visible(reg, b, chunk, neighbors, coord, Direction::NegZ));
    assert(!face_visible(reg, b, chunk, neighbors, coord, Direction::PosY));
    assert(!face_visible(reg, b, chunk, neighbors, coord, Direction::NegY));
    assert(!face_visible(reg, b, chunk, neighbors, coord, Direction::PosX));
    assert(!face_visible(reg, b, chunk, neighbors, coord, Direction::NegX));
}

/// A block whose six faces are all visible emits exactly six quads — 24
/// vertices and 36 triangle indices — one per direction, each quad carrying
/// its face's outward normal on all four vertices.
pub proof fn lemma_exposed_block_emits_all_faces(
    v: MeshView,
    reg: BlockRegistry,
    chunk: Chunk,
    neighbors: [Option<Chunk>; 6],
    b: BlockMesh,
    coord: ChunkIdx,
    origin: VertPos,
    scale: u64,
)
    requires
        forall|f: Direction| #[trigger] face_visible(reg, b, chunk, neighbors, coord, f),
    ensures
        emit_block(v, reg, chunk, neighbors, b, coord, origin, scale).verts.len() == v.verts.len()
            + 24,
        emit_block(v, reg, chunk, neighbors, b, coord, origin, scale).tris.len() == v.tris.len()
            + 36,
        emit_block(v, reg, chunk, neighbors, b, coord, origin, scale).norms == v.norms + seq![
            Direction::PosZ,
            Direction::PosZ,
            Direction::PosZ,
            Direction::PosZ,
            Direction::NegZ,
            Direction::NegZ,
            Direction::NegZ,
            Direction::NegZ,
            Direction::PosY,
            Direction::PosY,
            Direction::PosY,
            Direction::PosY,
            Direction::NegY,
            Direction::NegY,
            Direction::NegY,
            Direction::NegY,
            Direction::PosX,
            Direction::PosX,
            Direction::PosX,
            Direction::PosX,
            Direction::NegX,
            Direction::NegX,
            Direction::NegX,
            Direction::NegX,
        ],
{
    reveal_with_fuel(emit_block_upto, 7);
    assert(face_visible(reg, b, chunk, neighbors, coord, Direction::PosZ));
    assert(face_visible(reg, b, chunk, neighbors, coord, Direction::NegZ));
    assert(face_visible(reg, b, chunk, neighbors, coord, Direction::PosY));
    assert(face_visible(reg, b, chunk, neighbors, coord, Direction::NegY));
    assert(face_visible(reg, b, chunk, neighbors, coord, Direction::PosX));
    assert(face_visible(reg, b, chunk, neighbors, coord, Direction::NegX));
    assert(emit_block(v, reg, chunk, neighbors, b, coord, origin, scale).norms =~= v.norms + seq![
        Direction::PosZ,
        Direction::PosZ,
        Direction::PosZ,
        Direction::PosZ,
        Direction::NegZ,
        Direction::NegZ,
        Direction::NegZ,
        Direction::NegZ,
        Direction::PosY,
        Direction::PosY,
        Direction::PosY,
        Direction::PosY,
        Direction::NegY,
        Direction::NegY,
        Direction::NegY,
        Direction::NegY,
        Direction::PosX,
        Direction::PosX,
        Direction::PosX,
        Direction::PosX,
        Direction::NegX,
        Direction::NegX,
        Direction::NegX,
        Direction::NegX,
    ]);
}

/// The component-wise integer displacement from vertex `a` to vertex `b`.
pub open spec fn vert_delta(a: VertPos, b: VertPos) -> (int, int, int) {
    (b.x - a.x, b.y - a.y, b.z - a.z)
}

/// The cross product of two integer vectors.
pub open spec fn cross(a: (int, int, int), b: (int, int, int)) -> (int, int, int) {
    (a.1 * b.2 - a.2 * b.1, a.2 * b.0 - a.0 * b.2, a.0 * b.1 - a.1 * b.0)
}

/// The unit vector along a direction's axis.
pub open spec fn axis_vector(d: Direction) -> (int, int, int) {
    match d {
        Direction::PosX => (1, 0, 0),
        Direction::PosY => (0, 1, 0),
        Direction::PosZ => (0, 0, 1),
        Direction::NegX => (-1, 0, 0),
        Direction::NegY => (0, -1, 0),
        Direction::NegZ => (0, 0, -1),
    }
}

/// The vector `v` stretched by the factor `k`.
pub open spec fn scale_vec(k: int, v: (int, int, int)) -> (int, int, int) {
    (k * v.0, k * v.1, k * v.2)
}

/// Every quad's first triangle winds outward: the cross product of its two
/// edges is a positive multiple of the face's declared normal. (A slab of
/// zero height degenerates to a line and has no winding; any positive
/// vertical extent suffices.)
pub proof fn lemma_quad_winding(b: BlockMesh, face: Direction, origin: VertPos, scale: u64)
    requires
        b.wf(),
        scale >= 1,
        y_extent(b, scale) >= 1,
        origin.x + scale <= u64::MAX,
        origin.y + scale <= u64::MAX,
        origin.z + scale <= u64::MAX,
    ensures
        ({
            let q = face_verts(b, face, origin, scale);
            let c = cross(vert_delta(q[0], q[1]), vert_delta(q[0], q[2]));
            exists|k: int| k >= 1 && c == scale_vec(k, axis_vector(face))
        }),
{
    lemma_y_extent_bounds(b, scale);
    let s = scale as int;
    let ey = y_extent(b, scale);
    assert(ey * s >= 1 && s * ey >= 1 && s * s >= 1) by (nonlinear_arith)
        requires
            ey >= 1,
            s >= 1,
    ;
    let q = face_verts(b, face, origin, scale);
    let c = cross(vert_delta(q[0], q[1]), vert_delta(q[0], q[2]));
    match face {
        Direction::NegZ => {
            let a = vert_delta(q[0], q[1]);
            let e = vert_delta(q[0], q[2]);
            assert(a == (0int, ey, 0int));
            assert(e == (s, ey, 0int));
            assert(a.1 * e.2 - a.2 * e.1 == (ey * s) * 0) by (nonlinear_arith)
                requires
                    a.1 == ey,
                    a.2 == 0,
                    e.2 == 0,
                    e.1 == ey,
            ;
            assert(a.2 * e.0 - a.0 * e.2 == (ey * s) * 0) by (nonlinear_arith)
                requires
                    a.2 == 0,
                    a.0 == 0,
                    e.0 == s,
                    e.2 == 0,
            ;
            assert(a.0 * e.1 - a.1 * e.0 == (ey * s) * -1) by (nonlinear_arith)
                requires
                    a.0 == 0,
                    a.1 == ey,
                    e.1 == ey,
                    e.0 == s,
            ;
            assert(c == scale_vec(ey * s, axis_vector(face)));
        },
        Direction::PosZ => {
            let a = vert_delta(q[0], q[1]);
            let e = vert_delta(q[0], q[2]);
            assert(a == (s, 0int, 0int));
            assert(e == (s, ey, 0int));
            assert(a.1 * e.2 - a.2 * e.1 == (s * ey) * 0) by (nonlinear_arith)
                requires
                    a.0 == s,
                    a.1 == 0,
                    a.2 == 0,
                    e.0 == s,
                    e.1 == ey,
                    e.2 == 0,
            ;
            assert(a.2 * e.0 - a.0 * e.2 == (s * ey) * 0) by (nonlinear_arith)
                requires
                    a.0 == s,
                    a.1 == 0,
                    a.2 == 0,
                    e.0 == s,
                    e.1 == ey,
                    e.2 == 0,
            ;
            assert(a.0 * e.1 - a.1 * e.0 == (s * ey) * 1) by (nonlinear_arith)
                requires
                    a.0 == s,
                    a.1 == 0,
                    a.2 == 0,
                    e.0 == s,
                    e.1 == ey,
                    e.2 == 0,
            ;
            assert(c == scale_vec(s * ey, axis_vector(face)));
        },
        Direction::NegX => {
            let a = vert_delta(q[0], q[1]);
            let e = vert_delta(q[0], q[2]);
            assert(a == (0int, ey, 0int));
            assert(e == (0int, ey, -s));
            assert(a.1 * e.2 - a.2 * e.1 == (ey * s) * -1) by (nonlinear_arith)
                requires
                    a.1 == ey,
                    a.2 == 0,
                    e.2 == -s,
                    e.1 == ey,
            ;
            assert(a.2 * e.0 - a.0 * e.2 == (ey * s) * 0) by (nonlinear_arith)
                requires
                    a.2 == 0,
                    a.0 == 0,
                    e.0 == 0,
                    e.2 == -s,
            ;
            assert(a.0 * e.1 - a.1 * e.0 == (ey * s) * 0) by (nonlinear_arith)
                requires
                    a.0 == 0,
                    a.1 == ey,
                    e.1 == ey,
                    e.0 == 0,
            ;
            assert(c == scale_vec(ey * s, axis_vector(face)));
        },
        Direction::PosX => {
            let a = vert_delta(q[0], q[1]);
            let e = vert_delta(q[0], q[2]);
            assert(a == (0int, -ey, 0int));
            assert(e == (0int, -ey, -s));
            assert(a.1 * e.2 - a.2 * e.1 == (ey * s) * 1) by (nonlinear_arith)
                requires
                    a.0 == 0,
                    a.1 == -ey,
                    a.2 == 0,
                    e.0 == 0,
                    e.1 == -ey,
                    e.2 == -s,
            ;
            assert(a.2 * e.0 - a.0 * e.2 == (ey * s) * 0) by (nonlinear_arith)
                requires
                    a.0 == 0,
                    a.1 == -ey,
                    a.2 == 0,
                    e.0 == 0,
                    e.1 == -ey,
                    e.2 == -s,
            ;
            assert(a.0 * e.1 - a.1 * e.0 == (ey * s) * 0) by (nonlinear_arith)
                requires
                    a.0 == 0,
                    a.1 == -ey,
                    a.2 == 0,
                    e.0 == 0,
                    e.1 == -ey,
                    e.2 == -s,
            ;
            assert(c == scale_vec(ey * s, axis_vector(face)));
        },
        Direction::PosY => {
            let a = vert_delta(q[0], q[1]);
            let e = vert_delta(q[0], q[2]);
            assert(a == (0int, 0int, s));
            assert(e == (s, 0int, s));
            assert(a.1 * e.2 - a.2 * e.1 == (s * s) * 0) by (nonlinear_arith)
                requires
                    a.0 == 0,
                    a.1 == 0,
                    a.2 == s,
                    e.0 == s,
                    e.1 == 0,
                    e.2 == s,
            ;
            assert(a.2 * e.0 - a.0 * e.2 == (s * s) * 1) by (nonlinear_arith)
                requires
                    a.0 == 0,
                    a.1 == 0,
                    a.2 == s,
                    e.0 == s,
                    e.1 == 0,
                    e.2 == s,
            ;
            assert(a.0 * e.1 - a.1 * e.0 == (s * s) * 0) by (nonlinear_arith)
                requires
                    a.0 == 0,
                    a.1 == 0,
                    a.2 == s,
                    e.0 == s,
                    e.1 == 0,
                    e.2 == s,
            ;
            assert(c == scale_vec(s * s, axis_vector(face)));
        },
        Direction::NegY => {
            let a = vert_delta(q[0], q[1]);
            let e = vert_delta(q[0], q[2]);
            assert(a == (s, 0int, 0int));
            assert(e == (s, 0int, s));
            assert(a.1 * e.2 - a.2 * e.1 == (s * s) * 0) by (nonlinear_arith)
                requires
                    a.0 == s,
                    a.1 == 0,
                    a.2 == 0,
                    e.0 == s,
                    e.1 == 0,
                    e.2 == s,
            ;
            assert(a.2 * e.0 - a.0 * e.2 == (s * s) * -1) by (nonlinear_arith)
                requires
                    a.0 == s,
                    a.1 == 0,
                    a.2 == 0,
                    e.0 == s,
                    e.1 == 0,
                    e.2 == s,
            ;
            assert(a.0 * e.1 - a.1 * e.0 == (s * s) * 0) by (nonlinear_arith)
                requires
                    a.0 == s,
                    a.1 == 0,
                    a.2 == 0,
                    e.0 == s,
                    e.1 == 0,
                    e.2 == s,
            ;
            assert(c == scale_vec(s * s, axis_vector(face)));
        },
    }
}

/// Builds the reduced-resolution (level-of-detail) mesh for one coarse
/// chunk: the same culling and quad-emission logic as [`build_mesh`], at a
/// scale of `detail_factor` blocks of world space per grid cell.
pub fn build_mesh_lod(
    chunk: &Chunk,
    neighbors: &[Option<Chunk>; 6],
    registry: &BlockRegistry,
    detail_factor: u32,
) -> (r: MeshData)
    requires
        chunk.wf(),
        neighbors_wf(*chunk, *neighbors),
        registry.wf(),
        chunk_blocks_meshable(*chunk, *registry),
        1 <= detail_factor <= 65536,
    ensures
        r.view_spec() == emit_chunk(
            MeshView::empty(),
            *registry,
            *chunk,
            *neighbors,
            (UNITS_PER_BLOCK * detail_factor) as u64,
        ),
        r.view_spec().wf(),
        r.scale == (UNITS_PER_BLOCK * detail_factor) as u64,
        r.position == chunk.position,
{
    let scale = (UNITS_PER_BLOCK as u64) * (detail_factor as u64);
    build_mesh(chunk, neighbors, registry, scale)
}

} // verus!
