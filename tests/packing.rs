use nalgebra::{Matrix3, Rotation3};
use voxel_mesh::chunk::{Chunk, CHUNK_SIZE};
use voxel_mesh::cube::Cube;
use voxel_mesh::float_bits::f32_bits_of;
use voxel_mesh::mesh::{
    instance_attributes, pack_instances, unit_quad_indices, unit_quad_vertices, vertex_attributes,
    MeshData, INSTANCE_STRIDE, VERTEX_STRIDE,
};
use voxel_mesh::quad::{Face, Quad, QuadDirection, ATLAS_ROWS};

const FACES: [Face; 6] = [Face::Back, Face::Front, Face::Left, Face::Right, Face::Top, Face::Bottom];

/// The rotation each face is drawn with, built the way the renderer's maths library does.
fn reference_rotation(face: Face) -> Rotation3<f32> {
    let quarter = 90f32.to_radians();
    match face {
        Face::Back => Rotation3::identity(),
        Face::Front => Rotation3::from_euler_angles(0., 180f32.to_radians(), 0.),
        Face::Left => Rotation3::from_euler_angles(0., quarter, 0.),
        Face::Right => Rotation3::from_euler_angles(0., -quarter, 0.),
        Face::Top => Rotation3::from_euler_angles(quarter, 0., 0.),
        Face::Bottom => Rotation3::from_euler_angles(-quarter, 0., 0.),
    }
}

fn floats(words: &[u32]) -> Vec<f32> {
    words.iter().map(|w| f32::from_bits(*w)).collect()
}

#[test]
fn f32_bits_match_native_conversion() {
    for n in -300i64..=300 {
        assert_eq!(f32_bits_of(n, 0), (n as f32).to_bits(), "n = {}", n);
        assert_eq!(f32_bits_of(n, 1), (n as f32 / 2.0).to_bits(), "n = {} halved", n);
        assert_eq!(f32_bits_of(n, 3), (n as f32 / 8.0).to_bits(), "n = {} / 8", n);
    }
    for &n in &[16_777_215i64, -16_777_215, 8_388_608, 8_388_609, 65_535, 1 << 20] {
        assert_eq!(f32_bits_of(n, 0), (n as f32).to_bits(), "n = {}", n);
    }
    assert_eq!(f32_bits_of(1, 0), 0x3F80_0000);
    assert_eq!(f32_bits_of(-1, 1), 0xBF00_0000);
    assert_eq!(f32_bits_of(0, 5), 0);
}

#[test]
fn packed_matrix_is_rotation_plus_translation() {
    for &face in &FACES {
        let q = Quad::new((3, 7, 11), face, (2, 1), QuadDirection::SIDE);
        let raw = q.to_raw();
        assert_eq!(raw.matrix[3], [3, 7, 11, 1]);
        for c in 0..3 {
            assert_eq!(raw.matrix[c][3], 0);
            for r in 0..3 {
                assert_eq!(raw.matrix[c][r], raw.n_matrix[c][r]);
            }
        }
        let reference: Matrix3<f32> = reference_rotation(face).into();
        for c in 0..3 {
            for r in 0..3 {
                let expected = reference[(r, c)];
                let got = raw.n_matrix[c][r] as f32;
                assert!((expected - got).abs() < 1e-6, "{:?} ({}, {})", face, r, c);
            }
        }
        assert_eq!(raw.offset, [2, 1]);
        assert_eq!(raw.texture_rows, ATLAS_ROWS as i64);
    }
}

#[test]
fn packed_words_decode_to_the_record() {
    let q = Quad::new((15, 0, 9), Face::Top, (2, 3), QuadDirection::UP);
    let raw = q.to_raw();
    let words = raw.to_words();
    assert_eq!(words.len(), 28);
    let f = floats(&words);
    let expected: Vec<f32> = vec![
        1., 0., 0., 0., //
        0., 0., 1., 0., //
        0., -1., 0., 0., //
        15., 0., 9., 1., //
        1., 0., 0., //
        0., 0., 1., //
        0., -1., 0., //
        2., 3., 2.,
    ];
    assert_eq!(f, expected);
    let reference: Matrix3<f32> = reference_rotation(Face::Top).into();
    for c in 0..3 {
        for r in 0..3 {
            assert!((f[4 * c + r] - reference[(r, c)]).abs() < 1e-6);
        }
    }
}

#[test]
fn instance_words_concatenate_records() {
    let a = Quad::new((1, 2, 3), Face::Left, (0, 0), QuadDirection::SIDE);
    let b = Quad::new((4, 5, 6), Face::Bottom, (1, 2), QuadDirection::DOWN);
    let words = pack_instances(&vec![a, b]);
    assert_eq!(words.len(), 56);
    assert_eq!(&words[..28], &a.to_raw().to_words()[..]);
    assert_eq!(&words[28..], &b.to_raw().to_words()[..]);
    assert_eq!(floats(&words[40..44]), vec![4., 5., 6., 1.]);
}

#[test]
fn mesh_words_hold_the_packed_floats() {
    let vertices = unit_quad_vertices();
    let indices = unit_quad_indices();
    assert_eq!(indices, vec![0, 1, 2, 1, 3, 2]);
    let quads = vec![Quad::new((8, 9, 10), Face::Front, (0, 2), QuadDirection::SIDE)];
    let mesh = MeshData::new(&vertices, &indices, &quads);
    assert_eq!(mesh.indices_len, 6);
    assert_eq!(mesh.instances_len, 1);
    assert_eq!(mesh.indices, indices);
    let vertex_floats = floats(&mesh.vertex_words);
    assert_eq!(
        vertex_floats[..8].to_vec(),
        vec![-0.5, 0.5, -0.5, 1., 0., 0., 0., -1.]
    );
    assert_eq!(
        vertex_floats[24..].to_vec(),
        vec![0.5, -0.5, -0.5, 0., 1., 0., 0., -1.]
    );
    let instance_floats = floats(&mesh.instance_words);
    assert_eq!(instance_floats.len(), 28);
    assert_eq!(instance_floats[12..16].to_vec(), vec![8., 9., 10., 1.]);
    assert_eq!(instance_floats[0..3].to_vec(), vec![-1., 0., 0.]);
    assert_eq!(instance_floats[25..28].to_vec(), vec![0., 2., 2.]);
}

#[test]
fn chunk_instances_start_with_first_visible_face() {
    let mut grid = vec![Cube::default(); CHUNK_SIZE];
    for c in grid.iter_mut() {
        c.is_active = false;
    }
    grid[5 + 16 * 6 + 256 * 7] = Cube::default();
    let chunk = Chunk::from_voxels(grid);
    let mesh = chunk.chunk_mesh();
    assert_eq!(mesh.instances_len, 6);
    let instance_floats = floats(&mesh.instance_words);
    assert_eq!(instance_floats.len(), 6 * 28);
    for k in 0..6 {
        assert_eq!(instance_floats[28 * k + 12..28 * k + 16].to_vec(), vec![5., 7., 6., 1.]);
    }
}


#[test]
fn attribute_layouts_tile_the_records() {
    let instance = instance_attributes();
    assert_eq!(instance.len(), 9);
    let mut next = 0u64;
    for a in &instance {
        assert_eq!(a.offset, next);
        next += 4 * a.components as u64;
    }
    assert_eq!(next, INSTANCE_STRIDE);
    assert_eq!(INSTANCE_STRIDE, 28 * 4);
    let locations: Vec<u32> = instance.iter().map(|a| a.shader_location).collect();
    assert_eq!(locations, vec![3, 4, 5, 6, 7, 8, 9, 10, 11]);
    let vertex = vertex_attributes();
    let offsets: Vec<u64> = vertex.iter().map(|a| a.offset).collect();
    assert_eq!(offsets, vec![0, 12, 20]);
    assert_eq!(VERTEX_STRIDE, 32);
}

#[test]
fn identity_quad_packs_two_atlas_rows() {
    let q = Quad::new((1, 2, 3), Face::Back, (1, 1), QuadDirection::SIDE);
    let raw = q.to_raw();
    assert_eq!(raw.matrix, [[1, 0, 0, 0], [0, 1, 0, 0], [0, 0, 1, 0], [1, 2, 3, 1]]);
    assert_eq!(raw.n_matrix, [[1, 0, 0], [0, 1, 0], [0, 0, 1]]);
    assert_eq!(raw.offset, [1, 1]);
    assert_eq!(raw.texture_rows, 2);
    assert_eq!(ATLAS_ROWS, 2);
    assert_eq!(f32::from_bits(raw.to_words()[27]), 2.0);
}

#[test]
fn empty_instance_list_builds_zero_instance_mesh() {
    let mesh = MeshData::new(&unit_quad_vertices(), &unit_quad_indices(), &Vec::new());
    assert_eq!(mesh.instances_len, 0);
    assert!(mesh.instance_words.is_empty());
    assert_eq!(mesh.indices_len, 6);
    assert_eq!(mesh.vertex_words.len(), 32);
}
