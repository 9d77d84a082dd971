//! What the compiled quads of a grid amount to: how many there are for whole
//! classes of grids, and which parts of the grid they depend on.
use vstd::prelude::*;
use crate::chunk::{
    cell_quads, chunk_quads, compiled_cube, face_visible, grid_quads, in_grid, is_compiled_grid,
    layer_quads, neighbor, row_quads, solid, voxel_index, CHUNK_HEIGHT, CHUNK_LENGTH, CHUNK_SIZE,
    CHUNK_WIDTH,
};
use crate::cube::{atlas_tile_spec, cube_quads, cube_quads_share_tile, face_flag, flagged_quad, Cube, CubeType};
use crate::mesh::instance_words;
use crate::quad::{Face, Quad};
use vstd::arithmetic::div_mod::{
    lemma_div_denominator, lemma_fundamental_div_mod, lemma_fundamental_div_mod_converse,
};

verus! {

/// 1 if `b` holds, else 0.
pub open spec fn one_if(b: bool) -> int {
    if b {
        1
    } else {
        0
    }
}

/// Number of faces of `c` that are marked visible.
pub open spec fn flag_count(c: Cube) -> int {
    one_if(c.back_face) + one_if(c.front_face) + one_if(c.left_face) + one_if(c.right_face)
        + one_if(c.top_face) + one_if(c.bottom_face)
}

/// 1 for each end of the range `0..16` that `c` lies on.
pub open spec fn border_hits(c: int) -> int {
    one_if(c == 0) + one_if(c == 15)
}

/// Number of ends of the range `0..16` among the first `n` coordinates.
pub open spec fn borders_below(n: int) -> int {
    one_if(n >= 1) + one_if(n >= 16)
}

/// Every cell of the grid holds an active voxel.
pub open spec fn all_active(v: Seq<Cube>) -> bool {
    forall|i: int| 0 <= i < CHUNK_SIZE ==> #[trigger] v[i].is_active
}

/// No cell of the grid holds an active voxel.
pub open spec fn none_active(v: Seq<Cube>) -> bool {
    forall|i: int| 0 <= i < CHUNK_SIZE ==> !(#[trigger] v[i].is_active)
}

/// The two grids agree on which cells are active and on every material.
#[verifier::opaque]
pub open spec fn same_solids(v: Seq<Cube>, w: Seq<Cube>) -> bool {
    forall|x: int, y: int, z: int|
        #![trigger v[voxel_index(x, y, z)]]
        #![trigger w[voxel_index(x, y, z)]]
        in_grid(x, y, z) ==> v[voxel_index(x, y, z)].is_active == w[voxel_index(
            x,
            y,
            z,
        )].is_active && v[voxel_index(x, y, z)].cube_type == w[voxel_index(x, y, z)].cube_type
}

proof fn lemma_cube_quads_len(c: Cube, pos: (u32, u32, u32))
    ensures
        cube_quads(c, pos).len() == flag_count(c),
{
}

proof fn lemma_cell_len_all_active(v: Seq<Cube>, x: int, y: int, z: int)
    requires
        v.len() == CHUNK_SIZE,
        all_active(v),
        in_grid(x, y, z),
    ensures
        cell_quads(v, x, y, z).len() == border_hits(x) + border_hits(y) + border_hits(z),
{
    let c = compiled_cube(v, x, y, z);
    assert(v[voxel_index(x, y, z)].is_active);
    assert(x > 0 ==> v[voxel_index(x - 1, y, z)].is_active);
    assert(x < 15 ==> v[voxel_index(x + 1, y, z)].is_active);
    assert(y > 0 ==> v[voxel_index(x, y - 1, z)].is_active);
    assert(y < 15 ==> v[voxel_index(x, y + 1, z)].is_active);
    assert(z > 0 ==> v[voxel_index(x, y, z - 1)].is_active);
    assert(z < 15 ==> v[voxel_index(x, y, z + 1)].is_active);
    lemma_cube_quads_len(c, (x as u32, y as u32, z as u32));
}

proof fn lemma_row_len_all_active(v: Seq<Cube>, y: int, z: int, n: int)
    requires
        v.len() == CHUNK_SIZE,
        all_active(v),
        0 <= y < 16,
        0 <= z < 16,
        0 <= n <= 16,
    ensures
        row_quads(v, y, z, n).len() == borders_below(n) + n * (border_hits(y) + border_hits(z)),
    decreases n,
{
    if n > 0 {
        lemma_row_len_all_active(v, y, z, n - 1);
        lemma_cell_len_all_active(v, n - 1, y, z);
        let k = border_hits(y) + border_hits(z);
        assert(n * k == (n - 1) * k + k) by (nonlinear_arith);
    }
}

proof fn lemma_layer_len_all_active(v: Seq<Cube>, y: int, n: int)
    requires
        v.len() == CHUNK_SIZE,
        all_active(v),
        0 <= y < 16,
        0 <= n <= 16,
    ensures
        layer_quads(v, y, n).len() == 2 * n + 16 * borders_below(n) + 16 * n * border_hits(y),
    decreases n,
{
    if n > 0 {
        lemma_layer_len_all_active(v, y, n - 1);
        lemma_row_len_all_active(v, y, n - 1, 16);
        let k = border_hits(y);
        let j = border_hits(n - 1);
        assert(16 * n * k == 16 * (n - 1) * k + 16 * k) by (nonlinear_arith);
        assert(row_quads(v, y, n - 1, 16).len() == 2 + 16 * k + 16 * j);
        assert(borders_below(n) == borders_below(n - 1) + j);
        assert(layer_quads(v, y, n).len() == layer_quads(v, y, n - 1).len() + row_quads(
            v,
            y,
            n - 1,
            16,
        ).len());
    } else {
        assert(16 * n * border_hits(y) == 0) by (nonlinear_arith)
            requires
                n == 0,
        ;
    }
}

proof fn lemma_grid_len_all_active(v: Seq<Cube>, n: int)
    requires
        v.len() == CHUNK_SIZE,
        all_active(v),
        0 <= n <= 16,
    ensures
        grid_quads(v, n).len() == 64 * n + 256 * borders_below(n),
    decreases n,
{
    if n > 0 {
        lemma_grid_len_all_active(v, n - 1);
        lemma_layer_len_all_active(v, n - 1, 16);
    }
}

/// When every voxel is active, exactly the faces on the boundary of the grid are
/// emitted: `2 * (W * H + H * L + W * L)` quads, 1536 for a 16x16x16 chunk.
pub proof fn all_active_emits_boundary_faces(v: Seq<Cube>)
    requires
        v.len() == CHUNK_SIZE,
        all_active(v),
    ensures
        chunk_quads(v).len() == 2 * (CHUNK_WIDTH * CHUNK_HEIGHT + CHUNK_HEIGHT * CHUNK_LENGTH
            + CHUNK_WIDTH * CHUNK_LENGTH),
        chunk_quads(v).len() == 1536,
{
    lemma_grid_len_all_active(v, 16);
}

proof fn lemma_grid_empty(v: Seq<Cube>, n: int)
    requires
        v.len() == CHUNK_SIZE,
        none_active(v),
        0 <= n <= 16,
    ensures
        grid_quads(v, n) == Seq::<Quad>::empty(),
    decreases n,
{
    if n > 0 {
        lemma_grid_empty(v, n - 1);
        let y = n - 1;
        assert forall|m: int| 0 <= m <= 16 implies layer_quads(v, y, m)
            == Seq::<Quad>::empty() by {
            lemma_layer_empty(v, y, m);
        }
        assert(grid_quads(v, n) =~= Seq::<Quad>::empty());
    }
}

proof fn lemma_layer_empty(v: Seq<Cube>, y: int, n: int)
    requires
        v.len() == CHUNK_SIZE,
        none_active(v),
        0 <= y < 16,
        0 <= n <= 16,
    ensures
        layer_quads(v, y, n) == Seq::<Quad>::empty(),
    decreases n,
{
    if n > 0 {
        lemma_layer_empty(v, y, n - 1);
        lemma_row_empty(v, y, n - 1, 16);
        assert(layer_quads(v, y, n) =~= Seq::<Quad>::empty());
    }
}

proof fn lemma_row_empty(v: Seq<Cube>, y: int, z: int, n: int)
    requires
        v.len() == CHUNK_SIZE,
        none_active(v),
        0 <= y < 16,
        0 <= z < 16,
        0 <= n <= 16,
    ensures
        row_quads(v, y, z, n) == Seq::<Quad>::empty(),
    decreases n,
{
    if n > 0 {
        lemma_row_empty(v, y, z, n - 1);
        assert(!v[voxel_index(n - 1, y, z)].is_active);
        assert(row_quads(v, y, z, n) =~= Seq::<Quad>::empty());
    }
}

/// When no voxel is active, no quad is emitted and the instance buffer is empty.
pub proof fn none_active_emits_nothing(v: Seq<Cube>)
    requires
        v.len() == CHUNK_SIZE,
        none_active(v),
    ensures
        chunk_quads(v) == Seq::<Quad>::empty(),
        instance_words(chunk_quads(v)) == Seq::<u32>::empty(),
{
    lemma_grid_empty(v, 16);
}

/// Every active voxel of the grid lies at `p` or at `q`.
pub open spec fn solid_only_at(v: Seq<Cube>, p: (int, int, int), q: (int, int, int)) -> bool {
    forall|x: int, y: int, z: int|
        #![trigger v[voxel_index(x, y, z)]]
        in_grid(x, y, z) && v[voxel_index(x, y, z)].is_active ==> (x, y, z) == p || (x, y, z) == q
}

/// Number of quads of cell `p`.
pub open spec fn cell_count(v: Seq<Cube>, p: (int, int, int)) -> int {
    cell_quads(v, p.0, p.1, p.2).len() as int
}

/// The quads that cell `p` adds to the first `n` cells of row `(y, z)`.
spec fn row_share(v: Seq<Cube>, p: (int, int, int), y: int, z: int, n: int) -> int {
    if p.1 == y && p.2 == z && p.0 < n {
        cell_count(v, p)
    } else {
        0
    }
}

/// The quads that cell `p` adds to the first `n` rows of layer `y`.
spec fn layer_share(v: Seq<Cube>, p: (int, int, int), y: int, n: int) -> int {
    if p.1 == y && p.2 < n {
        cell_count(v, p)
    } else {
        0
    }
}

/// The quads that cell `p` adds to the first `n` layers.
spec fn grid_share(v: Seq<Cube>, p: (int, int, int), n: int) -> int {
    if p.1 < n {
        cell_count(v, p)
    } else {
        0
    }
}

proof fn lemma_row_len_two(
    v: Seq<Cube>,
    p: (int, int, int),
    q: (int, int, int),
    y: int,
    z: int,
    n: int,
)
    requires
        v.len() == CHUNK_SIZE,
        solid_only_at(v, p, q),
        in_grid(p.0, p.1, p.2),
        in_grid(q.0, q.1, q.2),
        0 <= y < 16,
        0 <= z < 16,
        0 <= n <= 16,
    ensures
        row_quads(v, y, z, n).len() == row_share(v, p, y, z, n) + if q != p {
            row_share(v, q, y, z, n)
        } else {
            0
        },
    decreases n,
{
    if n > 0 {
        lemma_row_len_two(v, p, q, y, z, n - 1);
        let c = (n - 1, y, z);
        if c != p && c != q {
            assert(!v[voxel_index(n - 1, y, z)].is_active);
        }
    }
}

proof fn lemma_layer_len_two(v: Seq<Cube>, p: (int, int, int), q: (int, int, int), y: int, n: int)
    requires
        v.len() == CHUNK_SIZE,
        solid_only_at(v, p, q),
        in_grid(p.0, p.1, p.2),
        in_grid(q.0, q.1, q.2),
        0 <= y < 16,
        0 <= n <= 16,
    ensures
        layer_quads(v, y, n).len() == layer_share(v, p, y, n) + if q != p {
            layer_share(v, q, y, n)
        } else {
            0
        },
    decreases n,
{
    if n > 0 {
        lemma_layer_len_two(v, p, q, y, n - 1);
        lemma_row_len_two(v, p, q, y, n - 1, 16);
    }
}

proof fn lemma_grid_len_two(v: Seq<Cube>, p: (int, int, int), q: (int, int, int), n: int)
    requires
        v.len() == CHUNK_SIZE,
        solid_only_at(v, p, q),
        in_grid(p.0, p.1, p.2),
        in_grid(q.0, q.1, q.2),
        0 <= n <= 16,
    ensures
        grid_quads(v, n).len() == grid_share(v, p, n) + if q != p {
            grid_share(v, q, n)
        } else {
            0
        },
    decreases n,
{
    if n > 0 {
        lemma_grid_len_two(v, p, q, n - 1);
        lemma_layer_len_two(v, p, q, n - 1, 16);
    }
}

proof fn lemma_cell_count(v: Seq<Cube>, p: (int, int, int))
    requires
        v.len() == CHUNK_SIZE,
        in_grid(p.0, p.1, p.2),
        v[voxel_index(p.0, p.1, p.2)].is_active,
    ensures
        cell_count(v, p) == one_if(face_visible(v, p.0, p.1, p.2, Face::Back)) + one_if(
            face_visible(v, p.0, p.1, p.2, Face::Front),
        ) + one_if(face_visible(v, p.0, p.1, p.2, Face::Left)) + one_if(
            face_visible(v, p.0, p.1, p.2, Face::Right),
        ) + one_if(face_visible(v, p.0, p.1, p.2, Face::Top)) + one_if(
            face_visible(v, p.0, p.1, p.2, Face::Bottom),
        ),
{
    lemma_cube_quads_len(
        compiled_cube(v, p.0, p.1, p.2),
        (p.0 as u32, p.1 as u32, p.2 as u32),
    );
}

/// A grid whose only active voxel is at `p`, wherever `p` lies (a corner
/// included), emits exactly six quads, one per face.
pub proof fn single_voxel_emits_six(v: Seq<Cube>, p: (int, int, int))
    requires
        v.len() == CHUNK_SIZE,
        in_grid(p.0, p.1, p.2),
        v[voxel_index(p.0, p.1, p.2)].is_active,
        solid_only_at(v, p, p),
    ensures
        chunk_quads(v).len() == 6,
{
    lemma_grid_len_two(v, p, p, 16);
    lemma_cell_count(v, p);
    assert forall|f: Face| face_visible(v, p.0, p.1, p.2, f) by {
        let n = neighbor(f, p.0, p.1, p.2);
        if in_grid(n.0, n.1, n.2) {
            assert(n != p);
            assert(!v[voxel_index(n.0, n.1, n.2)].is_active);
        }
    }
    assert(face_visible(v, p.0, p.1, p.2, Face::Back));
    assert(face_visible(v, p.0, p.1, p.2, Face::Front));
    assert(face_visible(v, p.0, p.1, p.2, Face::Left));
    assert(face_visible(v, p.0, p.1, p.2, Face::Right));
    assert(face_visible(v, p.0, p.1, p.2, Face::Top));
    assert(face_visible(v, p.0, p.1, p.2, Face::Bottom));
}

/// The face of a cell that touches its neighbour across face `f`.
pub open spec fn opposite(f: Face) -> Face {
    match f {
        Face::Back => Face::Front,
        Face::Front => Face::Back,
        Face::Left => Face::Right,
        Face::Right => Face::Left,
        Face::Top => Face::Bottom,
        Face::Bottom => Face::Top,
    }
}

proof fn lemma_pair_cell(v: Seq<Cube>, p: (int, int, int), q: (int, int, int), f: Face)
    requires
        v.len() == CHUNK_SIZE,
        in_grid(p.0, p.1, p.2),
        in_grid(q.0, q.1, q.2),
        q == neighbor(f, p.0, p.1, p.2),
        v[voxel_index(p.0, p.1, p.2)].is_active,
        v[voxel_index(q.0, q.1, q.2)].is_active,
        solid_only_at(v, p, q),
    ensures
        cell_count(v, p) == 5,
{
    lemma_cell_count(v, p);
    assert forall|g: Face| face_visible(v, p.0, p.1, p.2, g) == (g != f) by {
        let n = neighbor(g, p.0, p.1, p.2);
        if g != f {
            assert(n != p);
            assert(n != q);
            if in_grid(n.0, n.1, n.2) {
                assert(!v[voxel_index(n.0, n.1, n.2)].is_active);
            }
        }
    }
    assert(face_visible(v, p.0, p.1, p.2, Face::Back) == (Face::Back != f));
    assert(face_visible(v, p.0, p.1, p.2, Face::Front) == (Face::Front != f));
    assert(face_visible(v, p.0, p.1, p.2, Face::Left) == (Face::Left != f));
    assert(face_visible(v, p.0, p.1, p.2, Face::Right) == (Face::Right != f));
    assert(face_visible(v, p.0, p.1, p.2, Face::Top) == (Face::Top != f));
    assert(face_visible(v, p.0, p.1, p.2, Face::Bottom) == (Face::Bottom != f));
}

/// Two active voxels that share a face, and no other active voxel, emit ten
/// quads: the two touching faces hide each other.
pub proof fn neighbor_pair_emits_ten(v: Seq<Cube>, p: (int, int, int), f: Face)
    requires
        v.len() == CHUNK_SIZE,
        in_grid(p.0, p.1, p.2),
        in_grid(
            neighbor(f, p.0, p.1, p.2).0,
            neighbor(f, p.0, p.1, p.2).1,
            neighbor(f, p.0, p.1, p.2).2,
        ),
        v[voxel_index(p.0, p.1, p.2)].is_active,
        v[voxel_index(
            neighbor(f, p.0, p.1, p.2).0,
            neighbor(f, p.0, p.1, p.2).1,
            neighbor(f, p.0, p.1, p.2).2,
        )].is_active,
        solid_only_at(v, p, neighbor(f, p.0, p.1, p.2)),
    ensures
        chunk_quads(v).len() == 10,
{
    let q = neighbor(f, p.0, p.1, p.2);
    assert(p == neighbor(opposite(f), q.0, q.1, q.2));
    lemma_grid_len_two(v, p, q, 16);
    lemma_pair_cell(v, p, q, f);
    assert(solid_only_at(v, q, p));
    lemma_pair_cell(v, q, p, opposite(f));
}

proof fn lemma_same_solids_compiled(v: Seq<Cube>, w: Seq<Cube>, x: int, y: int, z: int)
    requires
        v.len() == CHUNK_SIZE,
        w.len() == CHUNK_SIZE,
        same_solids(v, w),
        in_grid(x, y, z),
        v[voxel_index(x, y, z)].is_active,
    ensures
        compiled_cube(v, x, y, z) == compiled_cube(w, x, y, z),
{
    reveal(same_solids);
    assert forall|f: Face| face_visible(v, x, y, z, f) == face_visible(w, x, y, z, f) by {
        let n = neighbor(f, x, y, z);
        if in_grid(n.0, n.1, n.2) {
            assert(v[voxel_index(n.0, n.1, n.2)].is_active == w[voxel_index(
                n.0,
                n.1,
                n.2,
            )].is_active);
        }
    }
    assert(v[voxel_index(x, y, z)].is_active == w[voxel_index(x, y, z)].is_active);
    assert(face_visible(v, x, y, z, Face::Top) == face_visible(w, x, y, z, Face::Top));
    assert(face_visible(v, x, y, z, Face::Bottom) == face_visible(w, x, y, z, Face::Bottom));
    assert(face_visible(v, x, y, z, Face::Left) == face_visible(w, x, y, z, Face::Left));
    assert(face_visible(v, x, y, z, Face::Right) == face_visible(w, x, y, z, Face::Right));
    assert(face_visible(v, x, y, z, Face::Back) == face_visible(w, x, y, z, Face::Back));
    assert(face_visible(v, x, y, z, Face::Front) == face_visible(w, x, y, z, Face::Front));
}

proof fn lemma_same_solids_cell(v: Seq<Cube>, w: Seq<Cube>, x: int, y: int, z: int)
    requires
        v.len() == CHUNK_SIZE,
        w.len() == CHUNK_SIZE,
        same_solids(v, w),
        in_grid(x, y, z),
    ensures
        cell_quads(v, x, y, z) == cell_quads(w, x, y, z),
{
    reveal(same_solids);
    assert(v[voxel_index(x, y, z)].is_active == w[voxel_index(x, y, z)].is_active);
    if solid(v, x, y, z) {
        lemma_same_solids_compiled(v, w, x, y, z);
    }
}

proof fn lemma_same_solids_grid(v: Seq<Cube>, w: Seq<Cube>, n: int)
    requires
        v.len() == CHUNK_SIZE,
        w.len() == CHUNK_SIZE,
        same_solids(v, w),
        0 <= n <= 16,
    ensures
        grid_quads(v, n) == grid_quads(w, n),
    decreases n,
{
    if n > 0 {
        lemma_same_solids_grid(v, w, n - 1);
        lemma_same_solids_layer(v, w, n - 1, 16);
    }
}

proof fn lemma_same_solids_layer(v: Seq<Cube>, w: Seq<Cube>, y: int, n: int)
    requires
        v.len() == CHUNK_SIZE,
        w.len() == CHUNK_SIZE,
        same_solids(v, w),
        0 <= y < 16,
        0 <= n <= 16,
    ensures
        layer_quads(v, y, n) == layer_quads(w, y, n),
    decreases n,
{
    if n > 0 {
        lemma_same_solids_layer(v, w, y, n - 1);
        lemma_same_solids_row(v, w, y, n - 1, 16);
    }
}

proof fn lemma_same_solids_row(v: Seq<Cube>, w: Seq<Cube>, y: int, z: int, n: int)
    requires
        v.len() == CHUNK_SIZE,
        w.len() == CHUNK_SIZE,
        same_solids(v, w),
        0 <= y < 16,
        0 <= z < 16,
        0 <= n <= 16,
    ensures
        row_quads(v, y, z, n) == row_quads(w, y, z, n),
    decreases n,
{
    if n > 0 {
        lemma_same_solids_row(v, w, y, z, n - 1);
        lemma_same_solids_cell(v, w, n - 1, y, z);
    }
}

/// The quads of a grid depend only on which cells are active and on their
/// materials, never on the face flags stored in it.
pub proof fn quads_depend_only_on_solids(v: Seq<Cube>, w: Seq<Cube>)
    requires
        v.len() == CHUNK_SIZE,
        w.len() == CHUNK_SIZE,
        same_solids(v, w),
    ensures
        chunk_quads(v) == chunk_quads(w),
{
    lemma_same_solids_grid(v, w, 16);
}

proof fn lemma_compiled_cell_keeps_solid(v: Seq<Cube>, x: int, y: int, z: int)
    ensures
        compiled_cube(v, x, y, z).is_active == v[voxel_index(x, y, z)].is_active,
        compiled_cube(v, x, y, z).cube_type == v[voxel_index(x, y, z)].cube_type,
{
}

proof fn lemma_compiled_keeps_solids(v: Seq<Cube>, w: Seq<Cube>)
    requires
        v.len() == CHUNK_SIZE,
        is_compiled_grid(v, w),
    ensures
        same_solids(v, w),
{
    reveal(same_solids);
    assert forall|x: int, y: int, z: int| #![trigger w[voxel_index(x, y, z)]]
        in_grid(x, y, z) implies v[voxel_index(x, y, z)].is_active == w[voxel_index(
        x,
        y,
        z,
    )].is_active && v[voxel_index(x, y, z)].cube_type == w[voxel_index(x, y, z)].cube_type by {
        lemma_compiled_cell_keeps_solid(v, x, y, z);
    }
}

/// Every place of the flat voxel array is the index of exactly one cell.
pub proof fn voxel_index_is_bijective(i: int)
    requires
        0 <= i < CHUNK_SIZE,
    ensures
        in_grid(i % 16, i / 256, (i / 16) % 16),
        voxel_index(i % 16, i / 256, (i / 16) % 16) == i,
        forall|x: int, y: int, z: int|
            #![trigger voxel_index(x, y, z)]
            in_grid(x, y, z) && voxel_index(x, y, z) == i ==> x == i % 16 && y == i / 256 && z
                == (i / 16) % 16,
{
    let a = i / 16;
    lemma_fundamental_div_mod(i, 16);
    lemma_fundamental_div_mod(a, 16);
    lemma_div_denominator(i, 16, 16);
    assert(0 <= i % 16 < 16);
    assert(0 <= a % 16 < 16);
    assert(0 <= a / 16 < 16);
    assert forall|x: int, y: int, z: int|
        #![trigger voxel_index(x, y, z)]
        in_grid(x, y, z) && voxel_index(x, y, z) == i implies x == i % 16 && y == i / 256 && z
            == (i / 16) % 16 by {
        lemma_fundamental_div_mod_converse(i, 16, z + 16 * y, x);
        lemma_fundamental_div_mod_converse(i / 16, 16, y, z);
    }
}

/// Compiling a grid a second time emits the same quads in the same order as the
/// first time, hence the same instance buffer word for word, and leaves the grid
/// as the first compilation left it.
pub proof fn recompiling_changes_nothing(v: Seq<Cube>, w: Seq<Cube>, w2: Seq<Cube>)
    requires
        v.len() == CHUNK_SIZE,
        is_compiled_grid(v, w),
        is_compiled_grid(w, w2),
    ensures
        chunk_quads(w) == chunk_quads(v),
        instance_words(chunk_quads(w)) == instance_words(chunk_quads(v)),
        w2 == w,
{
    lemma_compiled_keeps_solids(v, w);
    quads_depend_only_on_solids(v, w);
    assert forall|i: int| 0 <= i < CHUNK_SIZE implies w2[i] == w[i] by {
        voxel_index_is_bijective(i);
        let (x, y, z) = (i % 16, i / 256, (i / 16) % 16);
        assert(w2[voxel_index(x, y, z)] == compiled_cube(w, x, y, z));
        assert(w[voxel_index(x, y, z)] == compiled_cube(v, x, y, z));
        if v[i].is_active {
            lemma_same_solids_compiled(v, w, x, y, z);
        }
    }
    assert(w2 =~= w);
}

/// `q` with the atlas tile of material `t` if it lies at cell `p`, else `q` itself.
pub open spec fn retextured(q: Quad, p: (int, int, int), t: CubeType) -> Quad {
    if q.position == (p.0 as u32, p.1 as u32, p.2 as u32) {
        Quad { offset: atlas_tile_spec(t), ..q }
    } else {
        q
    }
}

/// `b` is `a` with every quad of cell `p` given the atlas tile of material `t`.
pub open spec fn is_retextured(a: Seq<Quad>, b: Seq<Quad>, p: (int, int, int), t: CubeType) -> bool {
    &&& b.len() == a.len()
    &&& forall|i: int| 0 <= i < a.len() ==> #[trigger] b[i] == retextured(a[i], p, t)
}

/// `v` with the material of cell `p` set to `t`.
pub open spec fn with_material(v: Seq<Cube>, p: (int, int, int), t: CubeType) -> Seq<Cube> {
    v.update(voxel_index(p.0, p.1, p.2), Cube { cube_type: t, ..v[voxel_index(p.0, p.1, p.2)] })
}

proof fn lemma_retextured_concat(
    a1: Seq<Quad>,
    b1: Seq<Quad>,
    a2: Seq<Quad>,
    b2: Seq<Quad>,
    p: (int, int, int),
    t: CubeType,
)
    requires
        is_retextured(a1, b1, p, t),
        is_retextured(a2, b2, p, t),
    ensures
        is_retextured(a1 + a2, b1 + b2, p, t),
{
    assert forall|i: int| 0 <= i < (a1 + a2).len() implies #[trigger] (b1 + b2)[i] == retextured(
        (a1 + a2)[i],
        p,
        t,
    ) by {
        if i >= a1.len() {
            assert(b2[i - a1.len()] == retextured(a2[i - a1.len()], p, t));
        } else {
            assert(b1[i] == retextured(a1[i], p, t));
        }
    }
}

proof fn lemma_with_material_visible(
    v: Seq<Cube>,
    p: (int, int, int),
    t: CubeType,
    x: int,
    y: int,
    z: int,
)
    requires
        v.len() == CHUNK_SIZE,
        in_grid(p.0, p.1, p.2),
        in_grid(x, y, z),
    ensures
        with_material(v, p, t)[voxel_index(x, y, z)].is_active == v[voxel_index(x, y, z)].is_active,
        forall|f: Face| face_visible(v, x, y, z, f) == face_visible(with_material(v, p, t), x, y, z, f),
{
    let w = with_material(v, p, t);
    assert forall|f: Face| face_visible(v, x, y, z, f) == face_visible(w, x, y, z, f) by {
        let n = neighbor(f, x, y, z);
        if in_grid(n.0, n.1, n.2) {
            assert(w[voxel_index(n.0, n.1, n.2)].is_active == v[voxel_index(
                n.0,
                n.1,
                n.2,
            )].is_active);
        }
    }
}

proof fn lemma_other_cell_unchanged(
    v: Seq<Cube>,
    p: (int, int, int),
    t: CubeType,
    x: int,
    y: int,
    z: int,
)
    requires
        v.len() == CHUNK_SIZE,
        in_grid(p.0, p.1, p.2),
        in_grid(x, y, z),
        (x, y, z) != p,
    ensures
        cell_quads(v, x, y, z) == cell_quads(with_material(v, p, t), x, y, z),
{
    let w = with_material(v, p, t);
    lemma_with_material_visible(v, p, t, x, y, z);
    assert(voxel_index(x, y, z) != voxel_index(p.0, p.1, p.2));
    if solid(v, x, y, z) {
        assert(face_visible(v, x, y, z, Face::Top) == face_visible(w, x, y, z, Face::Top));
        assert(face_visible(v, x, y, z, Face::Bottom) == face_visible(w, x, y, z, Face::Bottom));
        assert(face_visible(v, x, y, z, Face::Left) == face_visible(w, x, y, z, Face::Left));
        assert(face_visible(v, x, y, z, Face::Right) == face_visible(w, x, y, z, Face::Right));
        assert(face_visible(v, x, y, z, Face::Back) == face_visible(w, x, y, z, Face::Back));
        assert(face_visible(v, x, y, z, Face::Front) == face_visible(w, x, y, z, Face::Front));
        assert(compiled_cube(v, x, y, z) == compiled_cube(w, x, y, z));
    }
}

proof fn lemma_retextured_other_cell(
    v: Seq<Cube>,
    p: (int, int, int),
    t: CubeType,
    x: int,
    y: int,
    z: int,
)
    requires
        v.len() == CHUNK_SIZE,
        in_grid(p.0, p.1, p.2),
        in_grid(x, y, z),
        (x, y, z) != p,
    ensures
        is_retextured(cell_quads(v, x, y, z), cell_quads(with_material(v, p, t), x, y, z), p, t),
{
    lemma_other_cell_unchanged(v, p, t, x, y, z);
    let a = cell_quads(v, x, y, z);
    let pos = (x as u32, y as u32, z as u32);
    if solid(v, x, y, z) {
        cube_quads_share_tile(compiled_cube(v, x, y, z), pos);
    }
    assert(pos != (p.0 as u32, p.1 as u32, p.2 as u32));
    assert forall|i: int| 0 <= i < a.len() implies retextured(a[i], p, t) == a[i] by {
        assert(a[i].position == pos);
    }
}

proof fn lemma_retextured_cube(cv: Cube, cw: Cube, p: (int, int, int), t: CubeType)
    requires
        cw == (Cube { cube_type: t, ..cv }),
        0 <= p.0 < 16,
        0 <= p.1 < 16,
        0 <= p.2 < 16,
    ensures
        is_retextured(
            cube_quads(cv, (p.0 as u32, p.1 as u32, p.2 as u32)),
            cube_quads(cw, (p.0 as u32, p.1 as u32, p.2 as u32)),
            p,
            t,
        ),
{
    let pos = (p.0 as u32, p.1 as u32, p.2 as u32);
    assert forall|f: Face| is_retextured(flagged_quad(cv, pos, f), flagged_quad(cw, pos, f), p, t) by {
        if face_flag(cv, f) {
            assert(flagged_quad(cw, pos, f)[0] == retextured(flagged_quad(cv, pos, f)[0], p, t));
        }
    }
    let a1 = flagged_quad(cv, pos, Face::Back);
    let b1 = flagged_quad(cw, pos, Face::Back);
    lemma_retextured_concat(a1, b1, flagged_quad(cv, pos, Face::Front), flagged_quad(cw, pos, Face::Front), p, t);
    let a2 = a1 + flagged_quad(cv, pos, Face::Front);
    let b2 = b1 + flagged_quad(cw, pos, Face::Front);
    lemma_retextured_concat(a2, b2, flagged_quad(cv, pos, Face::Left), flagged_quad(cw, pos, Face::Left), p, t);
    let a3 = a2 + flagged_quad(cv, pos, Face::Left);
    let b3 = b2 + flagged_quad(cw, pos, Face::Left);
    lemma_retextured_concat(a3, b3, flagged_quad(cv, pos, Face::Right), flagged_quad(cw, pos, Face::Right), p, t);
    let a4 = a3 + flagged_quad(cv, pos, Face::Right);
    let b4 = b3 + flagged_quad(cw, pos, Face::Right);
    lemma_retextured_concat(a4, b4, flagged_quad(cv, pos, Face::Top), flagged_quad(cw, pos, Face::Top), p, t);
    let a5 = a4 + flagged_quad(cv, pos, Face::Top);
    let b5 = b4 + flagged_quad(cw, pos, Face::Top);
    lemma_retextured_concat(a5, b5, flagged_quad(cv, pos, Face::Bottom), flagged_quad(cw, pos, Face::Bottom), p, t);
}

proof fn lemma_retextured_cell(v: Seq<Cube>, p: (int, int, int), t: CubeType, x: int, y: int, z: int)
    requires
        v.len() == CHUNK_SIZE,
        in_grid(p.0, p.1, p.2),
        in_grid(x, y, z),
    ensures
        is_retextured(cell_quads(v, x, y, z), cell_quads(with_material(v, p, t), x, y, z), p, t),
{
    if (x, y, z) != p {
        lemma_retextured_other_cell(v, p, t, x, y, z);
    } else {
        let w = with_material(v, p, t);
        lemma_with_material_visible(v, p, t, x, y, z);
        if solid(v, x, y, z) {
            assert(face_visible(v, x, y, z, Face::Top) == face_visible(w, x, y, z, Face::Top));
            assert(face_visible(v, x, y, z, Face::Bottom) == face_visible(w, x, y, z, Face::Bottom));
            assert(face_visible(v, x, y, z, Face::Left) == face_visible(w, x, y, z, Face::Left));
            assert(face_visible(v, x, y, z, Face::Right) == face_visible(w, x, y, z, Face::Right));
            assert(face_visible(v, x, y, z, Face::Back) == face_visible(w, x, y, z, Face::Back));
            assert(face_visible(v, x, y, z, Face::Front) == face_visible(w, x, y, z, Face::Front));
            lemma_retextured_cube(compiled_cube(v, x, y, z), compiled_cube(w, x, y, z), p, t);
        }
    }
}

proof fn lemma_retextured_row(v: Seq<Cube>, p: (int, int, int), t: CubeType, y: int, z: int, n: int)
    requires
        v.len() == CHUNK_SIZE,
        in_grid(p.0, p.1, p.2),
        0 <= y < 16,
        0 <= z < 16,
        0 <= n <= 16,
    ensures
        is_retextured(row_quads(v, y, z, n), row_quads(with_material(v, p, t), y, z, n), p, t),
    decreases n,
{
    if n > 0 {
        let w = with_material(v, p, t);
        lemma_retextured_row(v, p, t, y, z, n - 1);
        lemma_retextured_cell(v, p, t, n - 1, y, z);
        lemma_retextured_concat(
            row_quads(v, y, z, n - 1),
            row_quads(w, y, z, n - 1),
            cell_quads(v, n - 1, y, z),
            cell_quads(w, n - 1, y, z),
            p,
            t,
        );
    }
}

proof fn lemma_retextured_layer(v: Seq<Cube>, p: (int, int, int), t: CubeType, y: int, n: int)
    requires
        v.len() == CHUNK_SIZE,
        in_grid(p.0, p.1, p.2),
        0 <= y < 16,
        0 <= n <= 16,
    ensures
        is_retextured(layer_quads(v, y, n), layer_quads(with_material(v, p, t), y, n), p, t),
    decreases n,
{
    if n > 0 {
        let w = with_material(v, p, t);
        lemma_retextured_layer(v, p, t, y, n - 1);
        lemma_retextured_row(v, p, t, y, n - 1, 16);
        lemma_retextured_concat(
            layer_quads(v, y, n - 1),
            layer_quads(w, y, n - 1),
            row_quads(v, y, n - 1, 16),
            row_quads(w, y, n - 1, 16),
            p,
            t,
        );
    }
}

proof fn lemma_retextured_grid(v: Seq<Cube>, p: (int, int, int), t: CubeType, n: int)
    requires
        v.len() == CHUNK_SIZE,
        in_grid(p.0, p.1, p.2),
        0 <= n <= 16,
    ensures
        is_retextured(grid_quads(v, n), grid_quads(with_material(v, p, t), n), p, t),
    decreases n,
{
    if n > 0 {
        let w = with_material(v, p, t);
        lemma_retextured_grid(v, p, t, n - 1);
        lemma_retextured_layer(v, p, t, n - 1, 16);
        lemma_retextured_concat(
            grid_quads(v, n - 1),
            grid_quads(w, n - 1),
            layer_quads(v, n - 1, 16),
            layer_quads(w, n - 1, 16),
            p,
            t,
        );
    }
}

/// Changing the material of one voxel changes only the atlas offset of the quads
/// at that voxel: the same quads come out in the same order, with the same
/// positions, rotations and face categories, and every other quad is unchanged.
pub proof fn material_change_only_retextures(v: Seq<Cube>, p: (int, int, int), t: CubeType)
    requires
        v.len() == CHUNK_SIZE,
        in_grid(p.0, p.1, p.2),
    ensures
        is_retextured(chunk_quads(v), chunk_quads(with_material(v, p, t)), p, t),
{
    lemma_retextured_grid(v, p, t, 16);
}

proof fn lemma_row_at_most_six(v: Seq<Cube>, y: int, z: int, n: int)
    requires
        0 <= n <= 16,
    ensures
        row_quads(v, y, z, n).len() <= 6 * n,
    decreases n,
{
    if n > 0 {
        lemma_row_at_most_six(v, y, z, n - 1);
        let x = n - 1;
        if solid(v, x, y, z) {
            lemma_cube_quads_len(compiled_cube(v, x, y, z), (x as u32, y as u32, z as u32));
        }
    }
}

proof fn lemma_layer_at_most_six(v: Seq<Cube>, y: int, n: int)
    requires
        0 <= n <= 16,
    ensures
        layer_quads(v, y, n).len() <= 96 * n,
    decreases n,
{
    if n > 0 {
        lemma_layer_at_most_six(v, y, n - 1);
        lemma_row_at_most_six(v, y, n - 1, 16);
    }
}

proof fn lemma_grid_at_most_six(v: Seq<Cube>, n: int)
    requires
        0 <= n <= 16,
    ensures
        grid_quads(v, n).len() <= 1536 * n,
    decreases n,
{
    if n > 0 {
        lemma_grid_at_most_six(v, n - 1);
        lemma_layer_at_most_six(v, n - 1, 16);
    }
}

/// A grid never emits more than six quads per voxel.
pub proof fn at_most_six_quads_per_voxel(v: Seq<Cube>)
    ensures
        chunk_quads(v).len() <= 6 * CHUNK_SIZE,
{
    lemma_grid_at_most_six(v, 16);
}

/// The quads of cell `c` if `keep` holds, else none.
spec fn kept(v: Seq<Cube>, c: (int, int, int), keep: bool) -> Seq<Quad> {
    if keep {
        cell_quads(v, c.0, c.1, c.2)
    } else {
        seq![]
    }
}

proof fn lemma_row_two(v: Seq<Cube>, p: (int, int, int), q: (int, int, int), y: int, z: int, n: int)
    requires
        v.len() == CHUNK_SIZE,
        solid_only_at(v, p, q),
        in_grid(p.0, p.1, p.2),
        in_grid(q.0, q.1, q.2),
        voxel_index(p.0, p.1, p.2) < voxel_index(q.0, q.1, q.2),
        0 <= y < 16,
        0 <= z < 16,
        0 <= n <= 16,
    ensures
        row_quads(v, y, z, n) == kept(v, p, p.1 == y && p.2 == z && p.0 < n) + kept(
            v,
            q,
            q.1 == y && q.2 == z && q.0 < n,
        ),
    decreases n,
{
    if n == 0 {
        assert(row_quads(v, y, z, n) =~= kept(v, p, false) + kept(v, q, false));
    } else {
        lemma_row_two(v, p, q, y, z, n - 1);
        let c = (n - 1, y, z);
        if c == p {
            assert(row_quads(v, y, z, n) =~= kept(v, p, true) + kept(
                v,
                q,
                q.1 == y && q.2 == z && q.0 < n,
            ));
        } else if c == q {
            assert(row_quads(v, y, z, n) =~= kept(v, p, p.1 == y && p.2 == z && p.0 < n) + kept(
                v,
                q,
                true,
            ));
        } else {
            assert(!v[voxel_index(n - 1, y, z)].is_active);
            assert(cell_quads(v, n - 1, y, z) =~= Seq::<Quad>::empty());
            assert(row_quads(v, y, z, n) =~= kept(v, p, p.1 == y && p.2 == z && p.0 < n) + kept(
                v,
                q,
                q.1 == y && q.2 == z && q.0 < n,
            ));
        }
    }
}

proof fn lemma_layer_two(v: Seq<Cube>, p: (int, int, int), q: (int, int, int), y: int, n: int)
    requires
        v.len() == CHUNK_SIZE,
        solid_only_at(v, p, q),
        in_grid(p.0, p.1, p.2),
        in_grid(q.0, q.1, q.2),
        voxel_index(p.0, p.1, p.2) < voxel_index(q.0, q.1, q.2),
        0 <= y < 16,
        0 <= n <= 16,
    ensures
        layer_quads(v, y, n) == kept(v, p, p.1 == y && p.2 < n) + kept(v, q, q.1 == y && q.2 < n),
    decreases n,
{
    if n == 0 {
        assert(layer_quads(v, y, n) =~= kept(v, p, false) + kept(v, q, false));
    } else {
        lemma_layer_two(v, p, q, y, n - 1);
        lemma_row_two(v, p, q, y, n - 1, 16);
        assert(layer_quads(v, y, n) =~= kept(v, p, p.1 == y && p.2 < n) + kept(
            v,
            q,
            q.1 == y && q.2 < n,
        ));
    }
}

proof fn lemma_grid_two(v: Seq<Cube>, p: (int, int, int), q: (int, int, int), n: int)
    requires
        v.len() == CHUNK_SIZE,
        solid_only_at(v, p, q),
        in_grid(p.0, p.1, p.2),
        in_grid(q.0, q.1, q.2),
        voxel_index(p.0, p.1, p.2) < voxel_index(q.0, q.1, q.2),
        0 <= n <= 16,
    ensures
        grid_quads(v, n) == kept(v, p, p.1 < n) + kept(v, q, q.1 < n),
    decreases n,
{
    if n == 0 {
        assert(grid_quads(v, n) =~= kept(v, p, false) + kept(v, q, false));
    } else {
        lemma_grid_two(v, p, q, n - 1);
        lemma_layer_two(v, p, q, n - 1, 16);
        assert(grid_quads(v, n) =~= kept(v, p, p.1 < n) + kept(v, q, q.1 < n));
    }
}

/// Two active voxels that share a face across face `f` of `p`, and no other
/// active voxel: the quads are those of the first cell in scan order, then those
/// of the second; each cell shows every face but the touching one.
pub proof fn neighbor_pair_faces(v: Seq<Cube>, p: (int, int, int), f: Face)
    requires
        v.len() == CHUNK_SIZE,
        in_grid(p.0, p.1, p.2),
        in_grid(
            neighbor(f, p.0, p.1, p.2).0,
            neighbor(f, p.0, p.1, p.2).1,
            neighbor(f, p.0, p.1, p.2).2,
        ),
        v[voxel_index(p.0, p.1, p.2)].is_active,
        v[voxel_index(
            neighbor(f, p.0, p.1, p.2).0,
            neighbor(f, p.0, p.1, p.2).1,
            neighbor(f, p.0, p.1, p.2).2,
        )].is_active,
        solid_only_at(v, p, neighbor(f, p.0, p.1, p.2)),
    ensures
        ({
            let q = neighbor(f, p.0, p.1, p.2);
            &&& chunk_quads(v) == if voxel_index(p.0, p.1, p.2) < voxel_index(q.0, q.1, q.2) {
                cell_quads(v, p.0, p.1, p.2) + cell_quads(v, q.0, q.1, q.2)
            } else {
                cell_quads(v, q.0, q.1, q.2) + cell_quads(v, p.0, p.1, p.2)
            }
            &&& forall|g: Face| #[trigger]
                face_flag(compiled_cube(v, p.0, p.1, p.2), g) == (g != f)
            &&& forall|g: Face| #[trigger]
                face_flag(compiled_cube(v, q.0, q.1, q.2), g) == (g != opposite(f))
        }),
{
    let q = neighbor(f, p.0, p.1, p.2);
    assert(p == neighbor(opposite(f), q.0, q.1, q.2));
    assert(solid_only_at(v, q, p));
    if voxel_index(p.0, p.1, p.2) < voxel_index(q.0, q.1, q.2) {
        lemma_grid_two(v, p, q, 16);
    } else {
        lemma_grid_two(v, q, p, 16);
    }
    lemma_pair_visible(v, p, q, f);
    lemma_pair_visible(v, q, p, opposite(f));
}

proof fn lemma_pair_visible(v: Seq<Cube>, p: (int, int, int), q: (int, int, int), f: Face)
    requires
        v.len() == CHUNK_SIZE,
        in_grid(p.0, p.1, p.2),
        in_grid(q.0, q.1, q.2),
        q == neighbor(f, p.0, p.1, p.2),
        v[voxel_index(p.0, p.1, p.2)].is_active,
        v[voxel_index(q.0, q.1, q.2)].is_active,
        solid_only_at(v, p, q),
    ensures
        forall|g: Face| #[trigger] face_flag(compiled_cube(v, p.0, p.1, p.2), g) == (g != f),
{
    assert forall|g: Face| #[trigger] face_flag(compiled_cube(v, p.0, p.1, p.2), g) == (g != f) by {
        let n = neighbor(g, p.0, p.1, p.2);
        if g != f {
            assert(n != p);
            assert(n != q);
            if in_grid(n.0, n.1, n.2) {
                assert(!v[voxel_index(n.0, n.1, n.2)].is_active);
            }
        }
    }
}

} // verus!
