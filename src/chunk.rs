//! The chunk: a dense 16x16x16 grid of voxels, and the compiler that finds its
//! visible faces.
use vstd::prelude::*;
use crate::cube::{cube_quads, default_cube, flagged_quad, Cube, CubeType};
use crate::mesh::{
    is_mesh_of, is_unit_quad, unit_quad_index_values, unit_quad_indices, unit_quad_vertices, MeshData,
    Vertex,
};
use crate::quad::{packable, Face, Quad};

verus! {

/// Extent of a chunk along X.
pub const CHUNK_WIDTH: usize = 16;

/// Extent of a chunk along Y.
pub const CHUNK_HEIGHT: usize = 16;

/// Extent of a chunk along Z.
pub const CHUNK_LENGTH: usize = 16;

/// Number of voxels in a chunk.
pub const CHUNK_SIZE: usize = 4096;

/// Whether `(x, y, z)` is a cell of the chunk.
pub open spec fn in_grid(x: int, y: int, z: int) -> bool {
    0 <= x < CHUNK_WIDTH && 0 <= y < CHUNK_HEIGHT && 0 <= z < CHUNK_LENGTH
}

/// The place of cell `(x, y, z)` in the flat voxel array:
/// `x + CHUNK_WIDTH * z + CHUNK_WIDTH * CHUNK_LENGTH * y`.
pub open spec fn voxel_index(x: int, y: int, z: int) -> int {
    x + 16 * z + 256 * y
}

/// Whether cell `(x, y, z)` exists and holds an active voxel.
pub open spec fn solid(v: Seq<Cube>, x: int, y: int, z: int) -> bool {
    in_grid(x, y, z) && v[voxel_index(x, y, z)].is_active
}

/// The cell across face `f` of cell `(x, y, z)`.
pub open spec fn neighbor(f: Face, x: int, y: int, z: int) -> (int, int, int) {
    match f {
        Face::Left => (x - 1, y, z),
        Face::Right => (x + 1, y, z),
        Face::Back => (x, y, z - 1),
        Face::Front => (x, y, z + 1),
        Face::Bottom => (x, y - 1, z),
        Face::Top => (x, y + 1, z),
    }
}

/// A face is visible when no active voxel lies across it: the grid ends there,
/// or the neighbouring cell is inactive.
pub open spec fn face_visible(v: Seq<Cube>, x: int, y: int, z: int, f: Face) -> bool {
    let n = neighbor(f, x, y, z);
    !solid(v, n.0, n.1, n.2)
}

/// The voxel at `(x, y, z)` after compilation: an active voxel gets its six face
/// flags from its neighbours; an inactive one is left as it is.
pub open spec fn compiled_cube(v: Seq<Cube>, x: int, y: int, z: int) -> Cube {
    let c = v[voxel_index(x, y, z)];
    if c.is_active {
        Cube {
            top_face: face_visible(v, x, y, z, Face::Top),
            bottom_face: face_visible(v, x, y, z, Face::Bottom),
            left_face: face_visible(v, x, y, z, Face::Left),
            right_face: face_visible(v, x, y, z, Face::Right),
            back_face: face_visible(v, x, y, z, Face::Back),
            front_face: face_visible(v, x, y, z, Face::Front),
            is_active: true,
            cube_type: c.cube_type,
        }
    } else {
        c
    }
}

/// The quads emitted for cell `(x, y, z)`.
pub open spec fn cell_quads(v: Seq<Cube>, x: int, y: int, z: int) -> Seq<Quad> {
    if solid(v, x, y, z) {
        cube_quads(compiled_cube(v, x, y, z), (x as u32, y as u32, z as u32))
    } else {
        seq![]
    }
}

/// The quads of the first `n` cells of row `(y, z)`, by increasing x.
pub open spec fn row_quads(v: Seq<Cube>, y: int, z: int, n: int) -> Seq<Quad>
    decreases n,
{
    if n <= 0 {
        seq![]
    } else {
        row_quads(v, y, z, n - 1) + cell_quads(v, n - 1, y, z)
    }
}

/// The quads of the first `n` rows of layer `y`, by increasing z.
pub open spec fn layer_quads(v: Seq<Cube>, y: int, n: int) -> Seq<Quad>
    decreases n,
{
    if n <= 0 {
        seq![]
    } else {
        layer_quads(v, y, n - 1) + row_quads(v, y, n - 1, CHUNK_WIDTH as int)
    }
}

/// The quads of the first `n` layers, by increasing y.
pub open spec fn grid_quads(v: Seq<Cube>, n: int) -> Seq<Quad>
    decreases n,
{
    if n <= 0 {
        seq![]
    } else {
        grid_quads(v, n - 1) + layer_quads(v, n - 1, CHUNK_LENGTH as int)
    }
}

/// All quads of a voxel grid, in the order of the flat voxel array.
pub open spec fn chunk_quads(v: Seq<Cube>) -> Seq<Quad> {
    grid_quads(v, CHUNK_HEIGHT as int)
}

/// `after` is `before` with every active voxel's face flags recomputed.
pub open spec fn is_compiled_grid(before: Seq<Cube>, after: Seq<Cube>) -> bool {
    &&& after.len() == before.len()
    &&& forall|x: int, y: int, z: int|
        #![trigger compiled_cube(before, x, y, z)]
        in_grid(x, y, z) ==> after[voxel_index(x, y, z)] == compiled_cube(before, x, y, z)
}

/// Compiles the cell at `(x, y, z)` of a grid whose activity and materials are
/// those of `v` and whose cell there is still `v`'s, appending its quads to `faces`.
fn compile_cell(
    voxels: &mut Vec<Cube>,
    faces: &mut Vec<Quad>,
    x: usize,
    y: usize,
    z: usize,
    Ghost(v): Ghost<Seq<Cube>>,
)
    requires
        in_grid(x as int, y as int, z as int),
        old(voxels)@.len() == CHUNK_SIZE,
        v.len() == CHUNK_SIZE,
        forall|i: int|
            0 <= i < CHUNK_SIZE ==> (#[trigger] old(voxels)@[i]).is_active == v[i].is_active
                && old(voxels)@[i].cube_type == v[i].cube_type,
        old(voxels)@[voxel_index(x as int, y as int, z as int)] == v[voxel_index(
            x as int,
            y as int,
            z as int,
        )],
    ensures
        final(voxels)@ == old(voxels)@.update(
            voxel_index(x as int, y as int, z as int),
            compiled_cube(v, x as int, y as int, z as int),
        ),
        final(faces)@ == old(faces)@ + cell_quads(v, x as int, y as int, z as int),
{
    let i = x + 16 * z + 256 * y;
    if !voxels[i].is_active {
        assert(voxels@ =~= old(voxels)@.update(
            i as int,
            compiled_cube(v, x as int, y as int, z as int),
        ));
        assert(faces@ =~= old(faces)@ + cell_quads(v, x as int, y as int, z as int));
        return;
    }
    let left_face = if x > 0 {
        !voxels[i - 1].is_active
    } else {
        true
    };
    let right_face = if x < CHUNK_WIDTH - 1 {
        !voxels[i + 1].is_active
    } else {
        true
    };
    let back_face = if z > 0 {
        !voxels[i - 16].is_active
    } else {
        true
    };
    let front_face = if z < CHUNK_LENGTH - 1 {
        !voxels[i + 16].is_active
    } else {
        true
    };
    let bottom_face = if y > 0 {
        !voxels[i - 256].is_active
    } else {
        true
    };
    let top_face = if y < CHUNK_HEIGHT - 1 {
        !voxels[i + 256].is_active
    } else {
        true
    };
    let cube = Cube::new(
        top_face,
        bottom_face,
        left_face,
        right_face,
        back_face,
        front_face,
        voxels[i].cube_type,
    );
    assert(cube == compiled_cube(v, x as int, y as int, z as int));
    voxels[i] = cube;
    cube.append_faces(faces, (x as u32, y as u32, z as u32));
}

/// The voxel at `(x, y, z)` once compiled; opaque, so that a loop invariant that
/// speaks of it does not unfold it cell after cell.
#[verifier::opaque]
spec fn target_cube(v: Seq<Cube>, x: int, y: int, z: int) -> Cube {
    compiled_cube(v, x, y, z)
}

/// The cells before `(x, y, z)` in scan order hold their compiled voxels.
spec fn compiled_before(cur: Seq<Cube>, v: Seq<Cube>, x: int, y: int, z: int) -> bool {
    forall|cx: int, cy: int, cz: int|
        #![trigger cur[voxel_index(cx, cy, cz)]]
        in_grid(cx, cy, cz) ==> cur[voxel_index(cx, cy, cz)] == if voxel_index(cx, cy, cz)
            < voxel_index(x, y, z) {
            target_cube(v, cx, cy, cz)
        } else {
            v[voxel_index(cx, cy, cz)]
        }
}

proof fn lemma_all_visited(cur: Seq<Cube>, v: Seq<Cube>)
    requires
        cur.len() == v.len(),
        compiled_before(cur, v, 0, 16, 0),
    ensures
        is_compiled_grid(v, cur),
{
    assert forall|x: int, y: int, z: int|
        #![trigger compiled_cube(v, x, y, z)]
        in_grid(x, y, z) implies cur[voxel_index(x, y, z)] == compiled_cube(v, x, y, z) by {
        assert(voxel_index(x, y, z) < voxel_index(0, 16, 0));
        reveal(target_cube);
    }
}

proof fn lemma_visit_cell(before: Seq<Cube>, after: Seq<Cube>, v: Seq<Cube>, x: int, y: int, z: int)
    requires
        in_grid(x, y, z),
        before.len() == CHUNK_SIZE,
        compiled_before(before, v, x, y, z),
        after == before.update(voxel_index(x, y, z), compiled_cube(v, x, y, z)),
    ensures
        compiled_before(after, v, x + 1, y, z),
{
    assert forall|cx: int, cy: int, cz: int|
        #![trigger after[voxel_index(cx, cy, cz)]]
        in_grid(cx, cy, cz) implies after[voxel_index(cx, cy, cz)] == if voxel_index(cx, cy, cz)
            < voxel_index(x + 1, y, z) {
            target_cube(v, cx, cy, cz)
        } else {
            v[voxel_index(cx, cy, cz)]
        } by {
        if voxel_index(cx, cy, cz) == voxel_index(x, y, z) {
            assert(cx == x && cy == y && cz == z);
            reveal(target_cube);
        } else {
            assert(after[voxel_index(cx, cy, cz)] == before[voxel_index(cx, cy, cz)]);
        }
    }
}

/// Every quad of `s` can be packed exactly.
pub open spec fn all_packable(s: Seq<Quad>) -> bool {
    forall|i: int| 0 <= i < s.len() ==> packable(#[trigger] s[i])
}

proof fn lemma_packable_concat(a: Seq<Quad>, b: Seq<Quad>)
    requires
        all_packable(a),
        all_packable(b),
    ensures
        all_packable(a + b),
{
    assert forall|i: int| 0 <= i < (a + b).len() implies packable(#[trigger] (a + b)[i]) by {
        if i < a.len() {
            assert(packable(a[i]));
        } else {
            assert(packable(b[i - a.len()]));
        }
    }
}

proof fn lemma_cell_packable(v: Seq<Cube>, x: int, y: int, z: int)
    requires
        in_grid(x, y, z),
    ensures
        all_packable(cell_quads(v, x, y, z)),
{
    if solid(v, x, y, z) {
        let c = compiled_cube(v, x, y, z);
        let pos = (x as u32, y as u32, z as u32);
        assert forall|f: Face| all_packable(#[trigger] flagged_quad(c, pos, f)) by {}
        let a1 = flagged_quad(c, pos, Face::Back);
        lemma_packable_concat(a1, flagged_quad(c, pos, Face::Front));
        let a2 = a1 + flagged_quad(c, pos, Face::Front);
        lemma_packable_concat(a2, flagged_quad(c, pos, Face::Left));
        let a3 = a2 + flagged_quad(c, pos, Face::Left);
        lemma_packable_concat(a3, flagged_quad(c, pos, Face::Right));
        let a4 = a3 + flagged_quad(c, pos, Face::Right);
        lemma_packable_concat(a4, flagged_quad(c, pos, Face::Top));
        let a5 = a4 + flagged_quad(c, pos, Face::Top);
        lemma_packable_concat(a5, flagged_quad(c, pos, Face::Bottom));
    }
}

proof fn lemma_row_packable(v: Seq<Cube>, y: int, z: int, n: int)
    requires
        0 <= y < 16,
        0 <= z < 16,
        0 <= n <= 16,
    ensures
        all_packable(row_quads(v, y, z, n)),
    decreases n,
{
    if n > 0 {
        lemma_row_packable(v, y, z, n - 1);
        lemma_cell_packable(v, n - 1, y, z);
        lemma_packable_concat(row_quads(v, y, z, n - 1), cell_quads(v, n - 1, y, z));
    }
}

proof fn lemma_layer_packable(v: Seq<Cube>, y: int, n: int)
    requires
        0 <= y < 16,
        0 <= n <= 16,
    ensures
        all_packable(layer_quads(v, y, n)),
    decreases n,
{
    if n > 0 {
        lemma_layer_packable(v, y, n - 1);
        lemma_row_packable(v, y, n - 1, 16);
        lemma_packable_concat(layer_quads(v, y, n - 1), row_quads(v, y, n - 1, 16));
    }
}

proof fn lemma_grid_packable(v: Seq<Cube>, n: int)
    requires
        0 <= n <= 16,
    ensures
        all_packable(grid_quads(v, n)),
    decreases n,
{
    if n > 0 {
        lemma_grid_packable(v, n - 1);
        lemma_layer_packable(v, n - 1, 16);
        lemma_packable_concat(grid_quads(v, n - 1), layer_quads(v, n - 1, 16));
    }
}

/// Recomputes the face flags of every active voxel from its neighbours and returns
/// one quad per visible face, scanning y, then z, then x.
pub fn filter_unseen_quads(voxels: &mut Vec<Cube>) -> (faces: Vec<Quad>)
    requires
        old(voxels)@.len() == CHUNK_SIZE,
    ensures
        is_compiled_grid(old(voxels)@, final(voxels)@),
        faces@ == chunk_quads(old(voxels)@),
{
    let ghost v = voxels@;
    let mut faces: Vec<Quad> = Vec::with_capacity(CHUNK_SIZE * 3);
    let mut y: usize = 0;
    while y < CHUNK_HEIGHT
        invariant
            0 <= y <= CHUNK_HEIGHT,
            voxels@.len() == CHUNK_SIZE,
            v.len() == CHUNK_SIZE,
            forall|i: int|
                0 <= i < CHUNK_SIZE ==> (#[trigger] voxels@[i]).is_active == v[i].is_active
                    && voxels@[i].cube_type == v[i].cube_type,
            compiled_before(voxels@, v, 0, y as int, 0),
            faces@ == grid_quads(v, y as int),
        decreases CHUNK_HEIGHT - y,
    {
        let mut z: usize = 0;
        while z < CHUNK_LENGTH
            invariant
                0 <= y < CHUNK_HEIGHT,
                0 <= z <= CHUNK_LENGTH,
                voxels@.len() == CHUNK_SIZE,
                v.len() == CHUNK_SIZE,
                forall|i: int|
                    0 <= i < CHUNK_SIZE ==> (#[trigger] voxels@[i]).is_active == v[i].is_active
                        && voxels@[i].cube_type == v[i].cube_type,
                compiled_before(voxels@, v, 0, y as int, z as int),
                faces@ == grid_quads(v, y as int) + layer_quads(v, y as int, z as int),
            decreases CHUNK_LENGTH - z,
        {
            let mut x: usize = 0;
            while x < CHUNK_WIDTH
                invariant
                    0 <= y < CHUNK_HEIGHT,
                    0 <= z < CHUNK_LENGTH,
                    0 <= x <= CHUNK_WIDTH,
                    voxels@.len() == CHUNK_SIZE,
                    v.len() == CHUNK_SIZE,
                    forall|i: int|
                        0 <= i < CHUNK_SIZE ==> (#[trigger] voxels@[i]).is_active
                            == v[i].is_active && voxels@[i].cube_type == v[i].cube_type,
                    compiled_before(voxels@, v, x as int, y as int, z as int),
                    faces@ == grid_quads(v, y as int) + layer_quads(v, y as int, z as int)
                        + row_quads(v, y as int, z as int, x as int),
                decreases CHUNK_WIDTH - x,
            {
                let i = x + 16 * z + 256 * y;
                assert(voxels@[voxel_index(x as int, y as int, z as int)] == v[i as int]);
                let ghost before = voxels@;
                compile_cell(voxels, &mut faces, x, y, z, Ghost(v));
                proof {
                    lemma_visit_cell(before, voxels@, v, x as int, y as int, z as int);
                }
                assert(faces@ =~= grid_quads(v, y as int) + layer_quads(v, y as int, z as int)
                    + row_quads(v, y as int, z as int, x as int + 1));
                x = x + 1;
            }
            assert(faces@ =~= grid_quads(v, y as int) + layer_quads(v, y as int, z as int + 1));
            z = z + 1;
        }
        assert(faces@ =~= grid_quads(v, y as int + 1));
        y = y + 1;
    }
    proof {
        lemma_all_visited(voxels@, v);
    }
    faces
}

/// The grid whose every cell holds the default voxel.
pub open spec fn default_grid() -> Seq<Cube> {
    Seq::new(CHUNK_SIZE as nat, |i: int| default_cube())
}

/// A chunk: its compiled voxel grid and the mesh of its visible faces.
pub struct Chunk {
    voxels: Vec<Cube>,
    chunk_mesh: MeshData,
}

impl Chunk {
    /// The voxels of the chunk, in the order of the flat voxel array.
    pub closed spec fn cells(&self) -> Seq<Cube> {
        self.voxels@
    }

    /// The mesh of the chunk.
    pub closed spec fn mesh_spec(&self) -> MeshData {
        self.chunk_mesh
    }

    #[verifier::type_invariant]
    spec fn has_full_grid(&self) -> bool {
        self.voxels@.len() == CHUNK_SIZE
    }

    /// Builds a chunk from a full voxel grid: compiles it, then packs the mesh of
    /// its visible faces around the unit quad.
    pub fn from_voxels(voxels: Vec<Cube>) -> (chunk: Chunk)
        requires
            voxels@.len() == CHUNK_SIZE,
        ensures
            is_compiled_grid(voxels@, chunk.cells()),
            chunk.mesh_spec().instances_len == chunk_quads(voxels@).len(),
            exists|vs: Seq<Vertex>|
                is_unit_quad(vs) && #[trigger] is_mesh_of(
                    chunk.mesh_spec(),
                    vs,
                    unit_quad_index_values(),
                    chunk_quads(voxels@),
                ),
    {
        let ghost v0 = voxels@;
        let mut voxels = voxels;
        let faces = filter_unseen_quads(&mut voxels);
        let vertices = unit_quad_vertices();
        let indices = unit_quad_indices();
        proof {
            lemma_grid_packable(v0, 16);
        }
        let chunk_mesh = MeshData::new(&vertices, &indices, &faces);
        assert(is_unit_quad(vertices@) && is_mesh_of(
            chunk_mesh,
            vertices@,
            unit_quad_index_values(),
            chunk_quads(v0),
        ));
        Chunk { voxels, chunk_mesh }
    }

    /// A chunk whose every voxel is the default one, active grass, compiled.
    pub fn new() -> (chunk: Chunk)
        ensures
            exists|vs: Seq<Vertex>|
                is_unit_quad(vs) && #[trigger] is_mesh_of(
                    chunk.mesh_spec(),
                    vs,
                    unit_quad_index_values(),
                    chunk_quads(default_grid()),
                ),
            chunk.mesh_spec().indices_len == 6,
            forall|x: int, y: int, z: int|
                #![trigger chunk.cells()[voxel_index(x, y, z)]]
                in_grid(x, y, z) ==> chunk.cells()[voxel_index(x, y, z)] == (Cube {
                    top_face: y == 15,
                    bottom_face: y == 0,
                    left_face: x == 0,
                    right_face: x == 15,
                    back_face: z == 0,
                    front_face: z == 15,
                    is_active: true,
                    cube_type: CubeType::GRASS,
                }),
            chunk.mesh_spec().instances_len == 1536,
    {
        let mut voxels: Vec<Cube> = Vec::with_capacity(CHUNK_SIZE);
        let mut i: usize = 0;
        while i < CHUNK_SIZE
            invariant
                0 <= i <= CHUNK_SIZE,
                voxels@.len() == i,
                forall|j: int| 0 <= j < i ==> #[trigger] voxels@[j] == default_cube(),
            decreases CHUNK_SIZE - i,
        {
            voxels.push(Cube::default());
            i = i + 1;
        }
        let ghost v = voxels@;
        assert(v =~= default_grid());
        let chunk = Chunk::from_voxels(voxels);
        proof {
            crate::occlusion::all_active_emits_boundary_faces(v);
            assert forall|x: int, y: int, z: int|
                #![trigger chunk.cells()[voxel_index(x, y, z)]]
                in_grid(x, y, z) implies chunk.cells()[voxel_index(x, y, z)] == (Cube {
                top_face: y == 15,
                bottom_face: y == 0,
                left_face: x == 0,
                right_face: x == 15,
                back_face: z == 0,
                front_face: z == 15,
                is_active: true,
                cube_type: CubeType::GRASS,
            }) by {
                assert(chunk.cells()[voxel_index(x, y, z)] == compiled_cube(v, x, y, z));
                assert(x > 0 ==> v[voxel_index(x - 1, y, z)].is_active);
                assert(x < 15 ==> v[voxel_index(x + 1, y, z)].is_active);
                assert(y > 0 ==> v[voxel_index(x, y - 1, z)].is_active);
                assert(y < 15 ==> v[voxel_index(x, y + 1, z)].is_active);
                assert(z > 0 ==> v[voxel_index(x, y, z - 1)].is_active);
                assert(z < 15 ==> v[voxel_index(x, y, z + 1)].is_active);
            }
        }
        chunk
    }

    /// The voxel at `(x, y, z)`.
    pub fn get_block(&self, x: usize, y: usize, z: usize) -> (c: &Cube)
        requires
            in_grid(x as int, y as int, z as int),
        ensures
            *c == self.cells()[voxel_index(x as int, y as int, z as int)],
    {
        proof {
            use_type_invariant(self);
        }
        &self.voxels[x + 16 * z + 256 * y]
    }

    /// The mesh of the chunk's visible faces.
    pub fn chunk_mesh(&self) -> (m: &MeshData)
        ensures
            *m == self.mesh_spec(),
    {
        &self.chunk_mesh
    }
}

} // verus!
