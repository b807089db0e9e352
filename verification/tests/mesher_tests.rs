use voxel_mesher::block::{BlockEntry, BlockMesh, BlockRegistry, BlockType};
use voxel_mesher::chunk::{Chunk, ChunkCoord, ChunkIdx};
use voxel_mesher::direction::Direction;
use voxel_mesher::mesh_data::MeshData;
use voxel_mesher::mesher::{build_mesh, get_neighbor_block, neighbors_to_ao, should_mesh_face};
use voxel_mesher::UNITS_PER_BLOCK;

const SCALE: u64 = UNITS_PER_BLOCK as u64;

fn opaque_cube_registry(tex: i32) -> BlockRegistry {
    let mut reg = BlockRegistry::new();
    reg.register(BlockEntry::opaque(BlockMesh::Uniform(tex)));
    reg
}

fn filled_chunk(coord: ChunkCoord, size: u8, fill: BlockType) -> Chunk {
    Chunk::filled(coord, size, fill)
}

fn solid_neighbors(size: u8) -> [Option<Chunk>; 6] {
    let c = |x: i32, y: i32, z: i32| {
        filled_chunk(ChunkCoord::new(x, y, z), size, BlockType::Basic(0))
    };
    [
        Some(c(1, 0, 0)),
        Some(c(0, 1, 0)),
        Some(c(0, 0, 1)),
        Some(c(-1, 0, 0)),
        Some(c(0, -1, 0)),
        Some(c(0, 0, -1)),
    ]
}

#[test]
fn isolated_block_emits_six_quads() {
    // a single solid block in an empty chunk: exactly 6 quads, 24 vertices,
    // 36 indices, one quad per direction with its outward normal
    let reg = opaque_cube_registry(7);
    let mut chunk = filled_chunk(ChunkCoord::new(0, 0, 0), 3, BlockType::Empty);
    chunk.set(ChunkIdx::new(1, 1, 1), BlockType::Basic(0));
    let neighbors: [Option<Chunk>; 6] = [None, None, None, None, None, None];
    let mesh = build_mesh(&chunk, &neighbors, &reg, SCALE);
    assert_eq!(mesh.verts.len(), 24);
    assert_eq!(mesh.tris.len(), 36);
    assert_eq!(mesh.norms.len(), 24);
    // faces are emitted in the order +Z, -Z, +Y, -Y, +X, -X
    let expected_normals = [
        Direction::PosZ,
        Direction::NegZ,
        Direction::PosY,
        Direction::NegY,
        Direction::PosX,
        Direction::NegX,
    ];
    for (q, dir) in expected_normals.iter().enumerate() {
        for v in 0..4 {
            assert_eq!(mesh.norms[q * 4 + v], *dir);
        }
    }
    // with no other solid block anywhere, every corner is fully lit
    for level in &mesh.ao_level {
        assert_eq!(*level, 100);
    }
    // every index points at an emitted vertex, six per quad as a fan
    assert_eq!(&mesh.tris[0..6], &[0, 1, 2, 2, 3, 0]);
    assert_eq!(&mesh.tris[6..12], &[4, 5, 6, 6, 7, 4]);
    // texture layer is uniform
    for layer in &mesh.layer_idx {
        assert_eq!(*layer, 7);
    }
}

#[test]
fn isolated_block_vertex_positions() {
    let reg = opaque_cube_registry(0);
    let mut chunk = filled_chunk(ChunkCoord::new(0, 0, 0), 3, BlockType::Empty);
    chunk.set(ChunkIdx::new(1, 1, 1), BlockType::Basic(0));
    let neighbors: [Option<Chunk>; 6] = [None, None, None, None, None, None];
    let mesh = build_mesh(&chunk, &neighbors, &reg, SCALE);
    // first quad is +Z: all four vertices lie on the z = 2 * scale plane
    for v in 0..4 {
        assert_eq!(mesh.verts[v].z, 2 * SCALE);
        assert!(mesh.verts[v].x == SCALE || mesh.verts[v].x == 2 * SCALE);
        assert!(mesh.verts[v].y == SCALE || mesh.verts[v].y == 2 * SCALE);
    }
    // the +Z quad starts at the block origin corner
    assert_eq!(mesh.verts[0].x, SCALE);
    assert_eq!(mesh.verts[0].y, SCALE);
}

#[test]
fn fully_enclosed_uniform_block_emits_nothing() {
    // every block surrounded by opaque neighbors on all sides: no geometry
    let reg = opaque_cube_registry(0);
    let chunk = filled_chunk(ChunkCoord::new(0, 0, 0), 3, BlockType::Basic(0));
    let neighbors = solid_neighbors(3);
    let mesh = build_mesh(&chunk, &neighbors, &reg, SCALE);
    assert_eq!(mesh.verts.len(), 0);
    assert_eq!(mesh.tris.len(), 0);
    assert!(mesh.is_empty());
}

#[test]
fn slab_top_face_always_meshed() {
    // a bottom slab's +Y face is drawn whatever the neighbor is
    let mut reg = BlockRegistry::new();
    let opaque_id = reg.register(BlockEntry::opaque(BlockMesh::Uniform(0)));
    let slab = BlockMesh::BottomSlab(128, [1, 1, 1, 1, 1, 1]);
    assert!(should_mesh_face(&reg, &slab, Direction::PosY, BlockType::Basic(opaque_id)));
    assert!(should_mesh_face(&reg, &slab, Direction::PosY, BlockType::Empty));
    // while a uniform cube's +Y face is culled behind an opaque neighbor
    let cube = BlockMesh::Uniform(0);
    assert!(!should_mesh_face(&reg, &cube, Direction::PosY, BlockType::Basic(opaque_id)));
    assert!(should_mesh_face(&reg, &cube, Direction::PosY, BlockType::Empty));
}

#[test]
fn culling_consults_neighbor_transparency_per_face() {
    let mut reg = BlockRegistry::new();
    // opaque everywhere except its -Y face
    let transparent_below = reg.register(BlockEntry::new(
        BlockMesh::Uniform(0),
        [false, false, false, false, true, false],
    ));
    let cube = BlockMesh::Uniform(0);
    // my +Y face touches the neighbor's -Y side, which lets light through
    assert!(should_mesh_face(&reg, &cube, Direction::PosY, BlockType::Basic(transparent_below)));
    // my -Y face touches the neighbor's +Y side, which is opaque
    assert!(!should_mesh_face(&reg, &cube, Direction::NegY, BlockType::Basic(transparent_below)));
    // an unregistered identifier counts as transparent
    assert!(should_mesh_face(&reg, &cube, Direction::PosX, BlockType::Basic(999)));
    // entity-backed blocks count as exposed
    assert!(should_mesh_face(&reg, &cube, Direction::PosX, BlockType::Entity(3)));
}

#[test]
fn ao_mapping_matches_level_table() {
    assert_eq!(neighbors_to_ao(false, false, false), 100);
    assert_eq!(neighbors_to_ao(true, false, false), 90);
    assert_eq!(neighbors_to_ao(false, true, false), 90);
    assert_eq!(neighbors_to_ao(false, false, true), 90);
    assert_eq!(neighbors_to_ao(true, false, true), 70);
    assert_eq!(neighbors_to_ao(false, true, true), 70);
    // both edge samples solid collapse to the darkest level outright,
    // whatever the corner
    assert_eq!(neighbors_to_ao(true, true, false), 50);
    assert_eq!(neighbors_to_ao(true, true, true), 50);
}

#[test]
fn ao_symmetric_in_edge_samples() {
    for s1 in [false, true] {
        for s2 in [false, true] {
            for c in [false, true] {
                assert_eq!(neighbors_to_ao(s1, s2, c), neighbors_to_ao(s2, s1, c));
            }
        }
    }
}

#[test]
fn diagonal_neighbor_darkens_face_corners() {
    let reg = opaque_cube_registry(0);
    let mut chunk = filled_chunk(ChunkCoord::new(0, 0, 0), 3, BlockType::Empty);
    chunk.set(ChunkIdx::new(1, 1, 1), BlockType::Basic(0));
    chunk.set(ChunkIdx::new(2, 2, 1), BlockType::Basic(0));
    let neighbors: [Option<Chunk>; 6] = [None, None, None, None, None, None];
    let mesh = build_mesh(&chunk, &neighbors, &reg, SCALE);
    // two isolated-from-each-other diagonal blocks: 12 quads
    assert_eq!(mesh.verts.len(), 48);
    // block (1,1,1) is meshed first; its +Y quad is its third, with corner
    // samples (-x,-z), (-x,+z), (+x,+z), (+x,-z); the block at (2,2,1)
    // darkens the two +x corners one step
    assert_eq!(&mesh.ao_level[8..12], &[100, 100, 90, 90]);
}

#[test]
fn meshing_is_deterministic() {
    // the same chunk and neighbor snapshots give identical buffers
    let reg = opaque_cube_registry(3);
    let mut chunk = filled_chunk(ChunkCoord::new(2, -1, 5), 4, BlockType::Empty);
    chunk.set(ChunkIdx::new(0, 0, 0), BlockType::Basic(0));
    chunk.set(ChunkIdx::new(3, 2, 1), BlockType::Basic(0));
    chunk.set(ChunkIdx::new(1, 3, 3), BlockType::Basic(0));
    let neighbors = solid_neighbors(4);
    let m1 = build_mesh(&chunk, &neighbors, &reg, SCALE);
    let m2 = build_mesh(&chunk, &neighbors, &reg, SCALE);
    assert_eq!(m1, m2);
}

#[test]
fn cavity_walls_across_chunks() {
    // a 2-block-edge chunk, all solid but one empty cell at (1,1,1),
    // surrounded by solid chunks: the six cavity walls are the only faces,
    // three from the center chunk and one from each of the +X, +Y, +Z
    // neighbors, each winding outward into the cavity
    let mut reg = opaque_cube_registry(0);
    reg.register(BlockEntry::opaque(BlockMesh::Uniform(1)));
    let size = 2u8;
    let solid = |x: i32, y: i32, z: i32| {
        filled_chunk(ChunkCoord::new(x, y, z), size, BlockType::Basic(1))
    };
    let mut center = solid(0, 0, 0);
    center.set(ChunkIdx::new(1, 1, 1), BlockType::Empty);

    // mesh the center chunk amid six solid neighbors
    let neighbors_of_center = [
        Some(solid(1, 0, 0)),
        Some(solid(0, 1, 0)),
        Some(solid(0, 0, 1)),
        Some(solid(-1, 0, 0)),
        Some(solid(0, -1, 0)),
        Some(solid(0, 0, -1)),
    ];
    let center_mesh = build_mesh(&center, &neighbors_of_center, &reg, SCALE);
    assert_eq!(center_mesh.verts.len(), 12);
    assert_eq!(center_mesh.tris.len(), 18);
    let mut center_normals: Vec<Direction> = Vec::new();
    for q in 0..3 {
        center_normals.push(center_mesh.norms[q * 4]);
    }
    // blocks below, behind and beside the cavity face into it
    assert!(center_normals.contains(&Direction::PosZ));
    assert!(center_normals.contains(&Direction::PosY));
    assert!(center_normals.contains(&Direction::PosX));

    // each of the +X, +Y, +Z neighbor chunks contributes the opposite wall
    let expectations = [
        (ChunkCoord::new(1, 0, 0), Direction::NegX),
        (ChunkCoord::new(0, 1, 0), Direction::NegY),
        (ChunkCoord::new(0, 0, 1), Direction::NegZ),
    ];
    let mut total_faces = 3;
    for (coord, expected_normal) in expectations {
        let subject = solid(coord.x, coord.y, coord.z);
        let neighbor_at = |d: Direction| {
            let nc = coord.offset(d);
            if nc == ChunkCoord::new(0, 0, 0) {
                center.snapshot()
            } else {
                solid(nc.x, nc.y, nc.z)
            }
        };
        let neighbors = [
            Some(neighbor_at(Direction::PosX)),
            Some(neighbor_at(Direction::PosY)),
            Some(neighbor_at(Direction::PosZ)),
            Some(neighbor_at(Direction::NegX)),
            Some(neighbor_at(Direction::NegY)),
            Some(neighbor_at(Direction::NegZ)),
        ];
        let mesh = build_mesh(&subject, &neighbors, &reg, SCALE);
        assert_eq!(mesh.verts.len(), 4, "one wall from chunk {:?}", coord);
        assert_eq!(mesh.tris.len(), 6);
        for v in 0..4 {
            assert_eq!(mesh.norms[v], expected_normal);
        }
        total_faces += 1;
    }
    assert_eq!(total_faces, 6);
}

#[test]
fn slab_geometry_uses_height_fraction() {
    let mut reg = BlockRegistry::new();
    let slab_tex = [10, 11, 12, 13, 14, 15];
    reg.register(BlockEntry::new(
        BlockMesh::BottomSlab(128, slab_tex),
        [true, true, true, true, false, true],
    ));
    let mut chunk = filled_chunk(ChunkCoord::new(0, 0, 0), 2, BlockType::Empty);
    chunk.set(ChunkIdx::new(0, 0, 0), BlockType::Basic(0));
    let neighbors: [Option<Chunk>; 6] = [None, None, None, None, None, None];
    let mesh = build_mesh(&chunk, &neighbors, &reg, SCALE);
    assert_eq!(mesh.verts.len(), 24);
    // +Y quad (third) sits at half height
    for v in 8..12 {
        assert_eq!(mesh.verts[v].y, 128);
    }
    // +Z quad (first) rises only to half height
    let max_y_posz = (0..4).map(|v| mesh.verts[v].y).max().unwrap();
    assert_eq!(max_y_posz, 128);
    // its texture coordinates scale v by the height fraction
    assert_eq!((mesh.uvs[0].u, mesh.uvs[0].v), (0, 128));
    assert_eq!((mesh.uvs[1].u, mesh.uvs[1].v), (256, 128));
    // per-face texture layers follow the direction table
    assert_eq!(mesh.layer_idx[0], 12); // +Z face
    assert_eq!(mesh.layer_idx[8], 11); // +Y face
}

#[test]
fn empty_chunk_gives_empty_mesh() {
    let reg = opaque_cube_registry(0);
    let chunk = filled_chunk(ChunkCoord::new(0, 0, 0), 4, BlockType::Empty);
    let neighbors: [Option<Chunk>; 6] = [None, None, None, None, None, None];
    let mesh = build_mesh(&chunk, &neighbors, &reg, SCALE);
    assert!(mesh.is_empty());
    assert_eq!(mesh.position, ChunkCoord::new(0, 0, 0));
    assert_eq!(mesh.scale, SCALE);
}

#[test]
fn lod_scale_multiplies_positions() {
    let reg = opaque_cube_registry(0);
    let mut chunk = filled_chunk(ChunkCoord::new(0, 0, 0), 2, BlockType::Empty);
    chunk.set(ChunkIdx::new(1, 1, 1), BlockType::Basic(0));
    let neighbors: [Option<Chunk>; 6] = [None, None, None, None, None, None];
    let lod = voxel_mesher::mesher::build_mesh_lod(&chunk, &neighbors, &reg, 2);
    assert_eq!(lod.scale, 2 * SCALE);
    assert_eq!(lod.verts.len(), 24);
    // the +Z quad lies at z = 2 cells * 2 blocks per cell
    assert_eq!(lod.verts[0].z, 4 * SCALE);
}

#[test]
fn mesh_data_new_is_empty() {
    let m = MeshData::new(ChunkCoord::new(1, 2, 3), SCALE);
    assert!(m.is_empty());
    assert_eq!(m.position, ChunkCoord::new(1, 2, 3));
    assert_eq!(m.tris.len(), 0);
}

#[test]
fn single_face_emission_layout() {
    let reg = opaque_cube_registry(5);
    let mut chunk = filled_chunk(ChunkCoord::new(0, 0, 0), 3, BlockType::Empty);
    chunk.set(ChunkIdx::new(1, 1, 1), BlockType::Basic(0));
    let mut data = MeshData::new(chunk.position, SCALE);
    let origin = voxel_mesher::mesh_data::VertPos { x: SCALE, y: SCALE, z: SCALE };
    voxel_mesher::mesher::mesh_pos_y(
        &BlockMesh::Uniform(5),
        &chunk,
        ChunkIdx::new(1, 1, 1),
        origin,
        SCALE,
        &mut data,
    );
    assert_eq!(data.verts.len(), 4);
    assert_eq!(data.tris, vec![0, 1, 2, 2, 3, 0]);
    assert_eq!(data.norms, vec![Direction::PosY; 4]);
    assert_eq!(data.layer_idx, vec![5; 4]);
    // all four corners on the block's top plane
    for v in &data.verts {
        assert_eq!(v.y, 2 * SCALE);
    }
    let _ = reg;
}

#[test]
fn neighbor_lookup_crosses_chunk_boundary() {
    let chunk = filled_chunk(ChunkCoord::new(0, 0, 0), 2, BlockType::Empty);
    let mut east = filled_chunk(ChunkCoord::new(1, 0, 0), 2, BlockType::Empty);
    east.set(ChunkIdx::new(0, 1, 1), BlockType::Basic(8));
    let neighbors: [Option<Chunk>; 6] = [Some(east), None, None, None, None, None];
    // interior lookup stays in the chunk
    assert_eq!(
        get_neighbor_block(&chunk, &neighbors, ChunkIdx::new(0, 1, 1), Direction::PosX),
        Some(BlockType::Empty)
    );
    // boundary lookup reads the matching cell of the +X snapshot
    assert_eq!(
        get_neighbor_block(&chunk, &neighbors, ChunkIdx::new(1, 1, 1), Direction::PosX),
        Some(BlockType::Basic(8))
    );
    // a missing snapshot yields no neighbor
    assert_eq!(
        get_neighbor_block(&chunk, &neighbors, ChunkIdx::new(1, 1, 1), Direction::PosY),
        None
    );
}
