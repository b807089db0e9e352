use voxel_mesher::block::BlockType;
use voxel_mesher::chunk::{Chunk, ChunkCoord, ChunkIdx, ChunkType};
use voxel_mesher::direction::Direction;
use voxel_mesher::level::Level;

#[test]
fn missing_chunk_lookup_is_none() {
    let level = Level::new(8);
    assert!(level.get_chunk(ChunkCoord::new(0, 0, 0)).is_none());
}

#[test]
fn insert_then_get_round_trip() {
    let mut level = Level::new(2);
    let coord = ChunkCoord::new(3, -1, 2);
    level.insert_chunk(coord, ChunkType::Full(Chunk::filled(coord, 2, BlockType::Basic(4))));
    level.insert_chunk(ChunkCoord::new(0, 0, 0), ChunkType::Ungenerated);
    match level.get_chunk(coord) {
        Some(ChunkType::Full(c)) => {
            assert_eq!(c.position, coord);
            assert_eq!(c.size, 2);
            assert_eq!(c.get(ChunkIdx::new(1, 0, 1)), BlockType::Basic(4));
        },
        _ => panic!("expected a generated chunk"),
    }
    match level.get_chunk(ChunkCoord::new(0, 0, 0)) {
        Some(ChunkType::Ungenerated) => {},
        _ => panic!("expected a placeholder"),
    }
}

#[test]
fn insert_replaces_existing_entry() {
    let mut level = Level::new(2);
    let coord = ChunkCoord::new(1, 1, 1);
    level.insert_chunk(coord, ChunkType::Ungenerated);
    level.insert_chunk(coord, ChunkType::Full(Chunk::filled(coord, 2, BlockType::Empty)));
    assert!(matches!(level.get_chunk(coord), Some(ChunkType::Full(_))));
}

#[test]
fn set_block_changes_one_cell() {
    let mut level = Level::new(2);
    let coord = ChunkCoord::new(0, 0, 0);
    level.insert_chunk(coord, ChunkType::Full(Chunk::filled(coord, 2, BlockType::Empty)));
    level.set_block(coord, ChunkIdx::new(1, 0, 1), BlockType::Basic(9));
    match level.get_chunk(coord) {
        Some(ChunkType::Full(c)) => {
            assert_eq!(c.get(ChunkIdx::new(1, 0, 1)), BlockType::Basic(9));
            assert_eq!(c.get(ChunkIdx::new(0, 0, 0)), BlockType::Empty);
            assert_eq!(c.get(ChunkIdx::new(1, 1, 1)), BlockType::Empty);
        },
        _ => panic!("expected a generated chunk"),
    }
}

#[test]
fn chunk_index_packing_round_trip() {
    let size = 5u8;
    let total = (size as usize).pow(3);
    for i in 0..total {
        let idx = ChunkIdx::from_usize(i, size);
        assert!(idx.x < size && idx.y < size && idx.z < size);
        assert_eq!(idx.to_usize(size), i);
    }
    assert_eq!(ChunkIdx::from_usize(0, size), ChunkIdx::new(0, 0, 0));
    assert_eq!(ChunkIdx::from_usize(total - 1, size), ChunkIdx::new(4, 4, 4));
}

#[test]
fn chunk_snapshot_is_equal_copy() {
    let mut chunk = Chunk::filled(ChunkCoord::new(2, 2, 2), 3, BlockType::Empty);
    chunk.set(ChunkIdx::new(2, 1, 0), BlockType::Basic(1));
    let snap = chunk.snapshot();
    assert_eq!(snap.position, chunk.position);
    assert_eq!(snap.size, chunk.size);
    assert_eq!(snap.blocks, chunk.blocks);
}

#[test]
fn coord_offset_steps_one_chunk() {
    let c = ChunkCoord::new(1, 2, 3);
    assert_eq!(c.offset(Direction::PosX), ChunkCoord::new(2, 2, 3));
    assert_eq!(c.offset(Direction::NegY), ChunkCoord::new(1, 1, 3));
    assert_eq!(c.offset(Direction::PosZ), ChunkCoord::new(1, 2, 4));
    assert_eq!(c.try_offset(Direction::NegZ), Some(ChunkCoord::new(1, 2, 2)));
    assert_eq!(ChunkCoord::new(i32::MAX, 0, 0).try_offset(Direction::PosX), None);
}
