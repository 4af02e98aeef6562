use phoxels::block::Block;
use phoxels::chunk::mesh_gen::{make_mesh, Face, Vertex, VertexSet};
use phoxels::chunk::ChunkData;

#[derive(Clone, Copy)]
struct Rock;

impl Block for Rock {
    fn spec_id(&self) -> u8 {
        1
    }
    fn spec_solid(&self) -> bool {
        true
    }
    fn spec_transparent(&self) -> bool {
        false
    }
    fn id(&self) -> u8 {
        1
    }
    fn is_solid(&self) -> bool {
        true
    }
    fn is_transparent(&self) -> bool {
        false
    }
}

#[derive(Clone, Copy)]
struct Ore;

impl Block for Ore {
    fn spec_id(&self) -> u8 {
        5
    }
    fn spec_solid(&self) -> bool {
        true
    }
    fn spec_transparent(&self) -> bool {
        false
    }
    fn id(&self) -> u8 {
        5
    }
    fn is_solid(&self) -> bool {
        true
    }
    fn is_transparent(&self) -> bool {
        false
    }
}

fn unpack(v: u32) -> (u32, u32, u32, u32) {
    (v & 0x1f, (v >> 5) & 0x1f, (v >> 10) & 0x1f, v >> 18)
}

#[test]
fn empty_chunk_yields_no_geometry() {
    let mesh = make_mesh(&ChunkData::empty());
    assert_eq!(mesh.vertices.len(), 0);
    assert_eq!(mesh.indices.len(), 0);
}

#[test]
fn solid_chunk_yields_six_quads() {
    let mesh = make_mesh(&ChunkData::solid(Rock));
    // one merged quad per outer face of the cube: no interior face
    // between identical opaque neighbors is ever emitted
    assert_eq!(mesh.indices.len(), 6 * 6);
    assert_eq!(mesh.vertices.len(), 6 * 4);
    // every vertex sits on a corner of the whole chunk
    for &v in &mesh.vertices {
        let (x, y, z, id) = unpack(v);
        assert!(x == 0 || x == 16);
        assert!(y == 0 || y == 16);
        assert!(z == 0 || z == 16);
        assert_eq!(id, 1);
    }
    assert_eq!(mesh.min, (0, 0, 0));
    assert_eq!(mesh.max, (16, 16, 16));
}

#[test]
fn single_block_packs_unit_cube_corners() {
    let mut chunk = ChunkData::empty();
    chunk.set_block(0, 0, 0, Ore);
    let mesh = make_mesh(&chunk);
    // six visible unit faces, corners shared through the vertex cache
    assert_eq!(mesh.vertices.len(), 8);
    assert_eq!(mesh.indices.len(), 36);
    let mut seen: Vec<u32> = mesh.vertices.clone();
    seen.sort();
    let mut expected: Vec<u32> = Vec::new();
    for z in 0..2u32 {
        for y in 0..2u32 {
            for x in 0..2u32 {
                expected.push(x | y << 5 | z << 10 | 5 << 18);
            }
        }
    }
    expected.sort();
    assert_eq!(seen, expected);
    for &i in &mesh.indices {
        assert!((i as usize) < mesh.vertices.len());
    }
    // the box covers the voxel's position plus its unit run extents
    assert_eq!(mesh.min, (0, 0, 0));
    assert_eq!(mesh.max, (1, 1, 1));
}

#[test]
fn checkerboard_yields_no_merged_runs() {
    let mut chunk = ChunkData::empty();
    let mut present: u32 = 0;
    for y in 0..16u32 {
        for z in 0..16u32 {
            for x in 0..16u32 {
                if (x + y + z) % 2 == 0 {
                    chunk.set_block(x, y, z, Rock);
                    present += 1;
                }
            }
        }
    }
    assert_eq!(present, 2048);
    let mesh = make_mesh(&chunk);
    // all six faces of every present voxel are visible; nothing merges,
    // so each voxel contributes its eight cube corners and six unit quads
    assert_eq!(mesh.vertices.len(), 2048 * 8);
    assert_eq!(mesh.indices.len(), 2048 * 6 * 6);
    // every quad spans a single voxel: each corner offset is 0 or 1 from
    // the voxel origin, so no decoded coordinate passes 16
    for &v in &mesh.vertices {
        let (x, y, z, id) = unpack(v);
        assert!(x <= 16 && y <= 16 && z <= 16);
        assert_eq!(id, 1);
    }
}

#[test]
fn meshing_twice_is_bit_identical() {
    let mut chunk = ChunkData::empty();
    for x in 0..16u32 {
        for z in 0..16u32 {
            chunk.set_block(x, (x + z) % 4, z, Rock);
            if (x * z) % 3 == 0 {
                chunk.set_block(x, 8, z, Ore);
            }
        }
    }
    let first = make_mesh(&chunk);
    let second = make_mesh(&chunk);
    assert_eq!(first.vertices, second.vertices);
    assert_eq!(first.indices, second.indices);
    assert_eq!(first.min, second.min);
    assert_eq!(first.max, second.max);
}

#[test]
fn two_materials_do_not_merge() {
    let mut chunk = ChunkData::empty();
    chunk.set_block(0, 0, 0, Rock);
    chunk.set_block(1, 0, 0, Ore);
    let mesh = make_mesh(&chunk);
    // the shared face between the two voxels is hidden; each voxel shows
    // five unit faces and no run forms across the material change
    assert_eq!(mesh.indices.len(), 2 * 5 * 6);
    let rock_ids = mesh.vertices.iter().filter(|&&v| v >> 18 == 1).count();
    let ore_ids = mesh.vertices.iter().filter(|&&v| v >> 18 == 5).count();
    assert_eq!(rock_ids + ore_ids, mesh.vertices.len());
    assert!(rock_ids > 0 && ore_ids > 0);
    assert_eq!(mesh.min, (0, 0, 0));
    assert_eq!(mesh.max, (2, 1, 1));
}

#[test]
fn flat_floor_merges_into_few_quads() {
    let mut chunk = ChunkData::empty();
    for x in 0..16u32 {
        for z in 0..16u32 {
            chunk.set_block(x, 0, z, Rock);
        }
    }
    let mesh = make_mesh(&chunk);
    // a 16 by 16 slab of height one: top and bottom merge into one quad
    // each, and each of the four sides merges into one 16-long strip
    assert_eq!(mesh.indices.len(), 6 * 6);
    assert_eq!(mesh.vertices.len(), 6 * 4);
    assert_eq!(mesh.max, (16, 1, 16));
}

#[test]
fn face_mask_bits() {
    let mut f = Face(0);
    assert!(!f.top() && !f.bottom() && !f.left() && !f.right() && !f.back() && !f.front());
    f.set_top();
    f.set_bottom();
    f.set_left();
    f.set_right();
    f.set_back();
    f.set_front();
    assert!(f.top() && f.bottom() && f.left() && f.right() && f.back() && f.front());
    assert!(f.all());
    assert!(!Face(0x3e).all());
    assert!(Face::from_top().top());
    assert!(Face::from_bottom().bottom());
    assert!(Face::from_left().left());
    assert!(Face::from_right().right());
    assert!(Face::from_back().back());
    assert!(Face::from_front().front());
}

#[test]
fn vertex_positions_scale_with_runs() {
    assert_eq!(Vertex::LeftBottomFront.to_pos(3, 4, 5), (0, 0, 0));
    assert_eq!(Vertex::RightTopBack.to_pos(3, 4, 5), (3, 4, 5));
    assert_eq!(Vertex::RightTopFront.to_pos(3, 4, 5), (3, 4, 0));
    assert_eq!(Vertex::LeftTopBack.to_pos(3, 4, 5), (0, 4, 5));
    assert_eq!(Vertex::LeftTopFront.to_pos(3, 4, 5), (0, 4, 0));
    assert_eq!(Vertex::RightBottomBack.to_pos(3, 4, 5), (3, 0, 5));
    assert_eq!(Vertex::LeftBottomBack.to_pos(3, 4, 5), (0, 0, 5));
    assert_eq!(Vertex::RightBottomFront.to_pos(3, 4, 5), (3, 0, 0));
}

#[test]
fn vertex_set_emits_quads() {
    let mut set = VertexSet::new();
    set.add_run(
        Vertex::LeftTopBack,
        Vertex::RightTopBack,
        Vertex::RightTopFront,
        Vertex::LeftTopFront,
        4,
        1,
        2,
    );
    assert_eq!(set.vertexs.len(), 4);
    assert_eq!(set.indices, vec![0, 1, 2, 0, 2, 3]);
    // unit faces share corners through the cache
    let mut set2 = VertexSet::new();
    set2.add_face(
        Vertex::LeftTopBack,
        Vertex::RightTopBack,
        Vertex::RightTopFront,
        Vertex::LeftTopFront,
    );
    set2.add_face(
        Vertex::LeftBottomBack,
        Vertex::LeftTopBack,
        Vertex::LeftTopFront,
        Vertex::LeftBottomFront,
    );
    assert_eq!(set2.vertexs.len(), 6);
    assert_eq!(set2.indices.len(), 12);
}
