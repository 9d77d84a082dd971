use voxel_mesh::chunk::{filter_unseen_quads, Chunk, CHUNK_SIZE};
use voxel_mesh::cube::{atlas_tile, Cube, CubeType};
use voxel_mesh::quad::{Face, Quad, QuadDirection};

fn inactive() -> Cube {
    let mut c = Cube::default();
    c.is_active = false;
    c
}

fn index(x: usize, y: usize, z: usize) -> usize {
    x + 16 * z + 256 * y
}

fn empty_grid() -> Vec<Cube> {
    vec![inactive(); CHUNK_SIZE]
}

fn quads_of(mut grid: Vec<Cube>) -> Vec<Quad> {
    filter_unseen_quads(&mut grid)
}

#[test]
fn cube_default_is_active_grass_with_all_faces() {
    let c = Cube::default();
    assert!(c.is_active);
    assert_eq!(c.cube_type, CubeType::GRASS);
    assert!(c.top_face && c.bottom_face && c.left_face && c.right_face);
    assert!(c.back_face && c.front_face);
}

#[test]
fn cube_new_keeps_flags_and_material() {
    let c = Cube::new(true, false, true, false, false, true, CubeType::STONE);
    assert!(c.is_active);
    assert!(c.top_face && !c.bottom_face && c.left_face && !c.right_face);
    assert!(!c.back_face && c.front_face);
    assert_eq!(c.cube_type, CubeType::STONE);
}

#[test]
fn get_faces_emits_flagged_faces_in_order() {
    let c = Cube::new(true, true, true, true, true, true, CubeType::DIRT);
    let quads = c.get_faces((3, 4, 5));
    let faces: Vec<Face> = quads.iter().map(|q| q.rotation).collect();
    assert_eq!(
        faces,
        vec![Face::Back, Face::Front, Face::Left, Face::Right, Face::Top, Face::Bottom]
    );
    for q in &quads {
        assert_eq!(q.position, (3, 4, 5));
    }
    assert_eq!(quads[4].direction, QuadDirection::UP);
    assert_eq!(quads[5].direction, QuadDirection::DOWN);
    assert_eq!(quads[0].direction, QuadDirection::SIDE);
    for q in &quads {
        assert_eq!(q.offset, (1, 0));
    }

    let some = Cube::new(false, true, false, false, true, false, CubeType::GRASS);
    let faces: Vec<Face> = some.get_faces((0, 0, 0)).iter().map(|q| q.rotation).collect();
    assert_eq!(faces, vec![Face::Back, Face::Bottom]);
}

#[test]
fn atlas_tiles_fill_the_two_by_two_atlas() {
    assert_eq!(atlas_tile(CubeType::GRASS), (0, 0));
    assert_eq!(atlas_tile(CubeType::DIRT), (1, 0));
    assert_eq!(atlas_tile(CubeType::STONE), (0, 1));
    assert_eq!(atlas_tile(CubeType::WOOD), (1, 1));
}

#[test]
fn default_chunks_hand_over_identical_meshes() {
    let a = Chunk::new();
    let b = Chunk::new();
    assert_eq!(a.chunk_mesh().instance_words, b.chunk_mesh().instance_words);
    assert_eq!(a.chunk_mesh().indices, vec![0, 1, 2, 1, 3, 2]);
    assert_eq!(a.chunk_mesh().indices_len, 6);
    assert_eq!(a.chunk_mesh().vertex_words, b.chunk_mesh().vertex_words);
}

#[test]
fn all_active_chunk_emits_only_boundary_faces() {
    let chunk = Chunk::new();
    let mesh = chunk.chunk_mesh();
    assert_eq!(mesh.instances_len, 1536);
    assert_eq!(mesh.instances_len, 2 * (16 * 16 + 16 * 16 + 16 * 16));
    assert_eq!(mesh.instance_words.len(), 1536 * 28);
    assert_eq!(mesh.indices_len, 6);

    let quads = quads_of(vec![Cube::default(); CHUNK_SIZE]);
    assert_eq!(quads.len(), 1536);
    assert!(quads.iter().all(|q| {
        let (x, y, z) = q.position;
        match q.rotation {
            Face::Left => x == 0,
            Face::Right => x == 15,
            Face::Back => z == 0,
            Face::Front => z == 15,
            Face::Bottom => y == 0,
            Face::Top => y == 15,
        }
    }));
}

#[test]
fn all_active_chunk_recomputes_flags() {
    let chunk = Chunk::new();
    let corner = chunk.get_block(0, 0, 0);
    assert!(corner.left_face && corner.back_face && corner.bottom_face);
    assert!(!corner.right_face && !corner.front_face && !corner.top_face);
    let inner = chunk.get_block(7, 8, 9);
    assert!(!inner.left_face && !inner.right_face && !inner.top_face);
    assert!(!inner.bottom_face && !inner.back_face && !inner.front_face);
    let far = chunk.get_block(15, 15, 15);
    assert!(far.right_face && far.front_face && far.top_face);
    assert!(!far.left_face && !far.back_face && !far.bottom_face);
}

#[test]
fn all_inactive_chunk_emits_nothing() {
    let chunk = Chunk::from_voxels(empty_grid());
    let mesh = chunk.chunk_mesh();
    assert_eq!(mesh.instances_len, 0);
    assert!(mesh.instance_words.is_empty());
    assert_eq!(mesh.indices_len, 6);
    assert_eq!(mesh.vertex_words.len(), 4 * 8);
    let block = chunk.get_block(3, 3, 3);
    assert!(!block.is_active);
    assert!(block.top_face);
}

#[test]
fn single_active_voxel_emits_six_quads_anywhere() {
    for &(x, y, z) in &[(0, 0, 0), (15, 15, 15), (0, 15, 0), (7, 3, 12), (15, 0, 8)] {
        let mut grid = empty_grid();
        grid[index(x, y, z)] = Cube::default();
        let quads = quads_of(grid);
        assert_eq!(quads.len(), 6);
        assert!(quads.iter().all(|q| q.position == (x as u32, y as u32, z as u32)));
    }
}

#[test]
fn neighbor_pair_emits_ten_quads() {
    let pairs = [
        ((4, 4, 4), (5, 4, 4)),
        ((4, 4, 4), (4, 5, 4)),
        ((4, 4, 4), (4, 4, 5)),
        ((0, 0, 0), (1, 0, 0)),
        ((15, 15, 14), (15, 15, 15)),
    ];
    for &((ax, ay, az), (bx, by, bz)) in &pairs {
        let mut grid = empty_grid();
        grid[index(ax, ay, az)] = Cube::default();
        grid[index(bx, by, bz)] = Cube::default();
        let chunk = Chunk::from_voxels(grid);
        assert_eq!(chunk.chunk_mesh().instances_len, 10);
    }
    let mut grid = empty_grid();
    grid[index(4, 4, 4)] = Cube::default();
    grid[index(5, 4, 4)] = Cube::default();
    let quads = quads_of(grid);
    assert!(!quads.iter().any(|q| q.position == (4, 4, 4) && q.rotation == Face::Right));
    assert!(!quads.iter().any(|q| q.position == (5, 4, 4) && q.rotation == Face::Left));
    let faces_at = |pos: (u32, u32, u32)| -> Vec<Face> {
        quads.iter().filter(|q| q.position == pos).map(|q| q.rotation).collect()
    };
    assert_eq!(faces_at((4, 4, 4)), vec![Face::Back, Face::Front, Face::Left, Face::Top, Face::Bottom]);
    assert_eq!(faces_at((5, 4, 4)), vec![Face::Back, Face::Front, Face::Right, Face::Top, Face::Bottom]);
    assert_eq!(quads[0].position, (4, 4, 4));
    assert_eq!(quads[5].position, (5, 4, 4));
}

#[test]
fn diagonal_voxels_do_not_occlude() {
    let mut grid = empty_grid();
    grid[index(4, 4, 4)] = Cube::default();
    grid[index(5, 5, 4)] = Cube::default();
    assert_eq!(quads_of(grid).len(), 12);
}

#[test]
fn quads_follow_scan_order() {
    let mut grid = empty_grid();
    grid[index(9, 0, 0)] = Cube::default();
    grid[index(0, 1, 0)] = Cube::default();
    grid[index(0, 0, 1)] = Cube::default();
    let quads = quads_of(grid);
    assert_eq!(quads.len(), 18);
    assert_eq!(quads[0].position, (9, 0, 0));
    assert_eq!(quads[6].position, (0, 0, 1));
    assert_eq!(quads[12].position, (0, 1, 0));
}

#[test]
fn compiling_twice_gives_identical_buffers() {
    let mut grid = empty_grid();
    for i in 0..CHUNK_SIZE {
        if i % 3 == 0 || i % 7 == 1 {
            grid[i] = Cube::default();
            grid[i].cube_type = if i % 2 == 0 { CubeType::WOOD } else { CubeType::DIRT };
        }
    }
    let first = Chunk::from_voxels(grid.clone());
    let second = Chunk::from_voxels(grid.clone());
    assert_eq!(first.chunk_mesh().instance_words, second.chunk_mesh().instance_words);
    assert_eq!(first.chunk_mesh().vertex_words, second.chunk_mesh().vertex_words);
    assert_eq!(first.chunk_mesh().indices, second.chunk_mesh().indices);

    let mut voxels = grid.clone();
    let once = filter_unseen_quads(&mut voxels);
    let after_once = voxels.clone();
    let twice = filter_unseen_quads(&mut voxels);
    assert_eq!(once, twice);
    assert_eq!(after_once, voxels);
}

#[test]
fn changing_material_changes_only_atlas_offsets() {
    let mut grid = empty_grid();
    grid[index(2, 2, 2)] = Cube::default();
    grid[index(3, 2, 2)] = Cube::default();
    let before = quads_of(grid.clone());
    grid[index(2, 2, 2)].cube_type = CubeType::STONE;
    let after = quads_of(grid);
    assert_eq!(before.len(), after.len());
    for (b, a) in before.iter().zip(after.iter()) {
        assert_eq!(a.position, b.position);
        assert_eq!(a.rotation, b.rotation);
        assert_eq!(a.direction, b.direction);
        if a.position == (2, 2, 2) {
            assert_eq!(a.offset, atlas_tile(CubeType::STONE));
            assert_ne!(a.offset, b.offset);
        } else {
            assert_eq!(a.offset, b.offset);
        }
    }
}
