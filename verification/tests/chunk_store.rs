use phoxels::block::{Block, BlockId, BlockMeta};
use phoxels::chunk::{ChunkData, ChunkSize, CHUNK_SIZE};

#[derive(Clone, Copy)]
struct TestBlock;

impl Block for TestBlock {
    fn spec_id(&self) -> u8 {
        1
    }
    fn spec_solid(&self) -> bool {
        true
    }
    fn spec_transparent(&self) -> bool {
        false
    }
    fn id(&self) -> u8 {
        1
    }
    fn is_solid(&self) -> bool {
        true
    }
    fn is_transparent(&self) -> bool {
        false
    }
}

#[derive(Clone, Copy)]
struct Stone;

impl Block for Stone {
    fn spec_id(&self) -> u8 {
        7
    }
    fn spec_solid(&self) -> bool {
        true
    }
    fn spec_transparent(&self) -> bool {
        false
    }
    fn id(&self) -> u8 {
        7
    }
    fn is_solid(&self) -> bool {
        true
    }
    fn is_transparent(&self) -> bool {
        false
    }
}

#[derive(Clone, Copy)]
struct Mist;

impl Block for Mist {
    fn spec_id(&self) -> u8 {
        9
    }
    fn spec_solid(&self) -> bool {
        false
    }
    fn spec_transparent(&self) -> bool {
        true
    }
    fn id(&self) -> u8 {
        9
    }
    fn is_solid(&self) -> bool {
        false
    }
    fn is_transparent(&self) -> bool {
        true
    }
}

fn palette(chunk: &ChunkData) -> Vec<BlockMeta> {
    (0..=255u8).map(|i| chunk.palette_entry(i)).collect()
}

#[test]
fn add_mesh_works() {
    let mut chunk = ChunkData::empty();
    assert_eq!(palette(&chunk), vec![BlockMeta::empty(); 256]);
    assert_ne!(palette(&chunk), vec![BlockMeta(1); 256]);
    chunk.set_block(0, 0, 0, TestBlock);
    assert_ne!(palette(&chunk), vec![BlockMeta::empty(); 256]);
}

#[test]
fn chunk_size_values() {
    assert_eq!(ChunkSize::Small.size(), 8);
    assert_eq!(ChunkSize::Medium.size(), 16);
    assert_eq!(ChunkSize::Large.size(), 32);
    assert_eq!(CHUNK_SIZE.size(), 16);
    assert_eq!(CHUNK_SIZE.aria(), 256);
    assert_eq!(CHUNK_SIZE.volume(), 4096);
    assert_eq!(ChunkSize::Small.bits_per_axis(), 4);
    assert_eq!(ChunkSize::Medium.bits_per_axis(), 5);
    assert_eq!(ChunkSize::Large.bits_per_axis(), 6);
}

#[test]
fn set_block_round_trip() {
    let mut chunk = ChunkData::empty();
    chunk.set_block(3, 4, 5, Stone);
    let m = chunk.block_meta(3, 4, 5);
    assert!(m.is_solid());
    assert!(!m.is_transparent());
    assert_eq!(chunk.texture(3, 4, 5), 7);
    assert_eq!(chunk.get_block_id(3, 4, 5), Some(BlockId(7)));
    // every other coordinate still reads as empty air
    assert_eq!(chunk.texture(4, 4, 5), 0);
    assert_eq!(chunk.block_meta(3, 4, 4), BlockMeta::empty());
    // overwriting replaces the reading at that coordinate
    chunk.set_block(3, 4, 5, Mist);
    assert_eq!(chunk.texture(3, 4, 5), 9);
    assert!(!chunk.block_meta(3, 4, 5).is_solid());
    assert!(chunk.block_meta(3, 4, 5).is_transparent());
}

#[test]
fn out_of_range_reads_are_total() {
    let chunk = ChunkData::solid(Stone);
    for &(x, y, z) in &[
        (16u32, 0u32, 0u32),
        (0, 16, 0),
        (0, 0, 16),
        (16, 16, 16),
        (u32::MAX, 0, 0),
        (0, u32::MAX, 5),
        (3, 2, u32::MAX),
    ] {
        assert_eq!(chunk.block_meta(x, y, z), BlockMeta::empty());
        assert!(chunk.block_meta(x, y, z).is_transparent());
        assert_eq!(chunk.texture(x, y, z), 0);
        assert_eq!(chunk.get_block_meta(x, y, z), None);
        assert_eq!(chunk.get_block_id(x, y, z), None);
    }
}

#[test]
fn solid_chunk_reads() {
    let chunk = ChunkData::solid(Stone);
    assert_eq!(chunk.texture(0, 0, 0), 7);
    assert_eq!(chunk.texture(15, 15, 15), 7);
    assert!(chunk.block_meta(8, 8, 8).is_solid());
    assert!(chunk.palette_filled(7));
    assert!(!chunk.palette_filled(6));
    assert_eq!(chunk.voxel_count(), 4096);
}

#[test]
fn add_meta_is_idempotent() {
    let mut chunk = ChunkData::empty();
    chunk.add_meta(Stone);
    assert!(chunk.palette_filled(7));
    let before = palette(&chunk);
    chunk.add_meta(Stone);
    assert_eq!(palette(&chunk), before);
}

#[test]
fn voxel_count_counts_filled_cells() {
    let mut chunk = ChunkData::empty();
    assert_eq!(chunk.voxel_count(), 0);
    chunk.set_block(0, 0, 0, Stone);
    chunk.set_block(1, 0, 0, Stone);
    assert_eq!(chunk.voxel_count(), 2);
    // a transparent non-solid block counts as empty space
    chunk.set_block(1, 0, 0, Mist);
    assert_eq!(chunk.voxel_count(), 1);
}

#[test]
fn in_bounds_and_index() {
    let chunk = ChunkData::empty();
    assert!(chunk.in_bounds(0, 0, 0));
    assert!(chunk.in_bounds(15, 15, 15));
    assert!(!chunk.in_bounds(16, 0, 0));
    assert_eq!(chunk.get_index(0, 0, 0), 0);
    assert_eq!(chunk.get_index(1, 0, 0), 1);
    assert_eq!(chunk.get_index(0, 0, 1), 16);
    assert_eq!(chunk.get_index(0, 1, 0), 256);
    assert_eq!(chunk.get_index(15, 15, 15), 4095);
}
