//! Oriented unit quads and their packed per-instance record.
use vstd::prelude::*;
use crate::float_bits::{f32_bits, f32_bits_of, F32_EXACT_LIMIT};

verus! {

/// Number of rows (and columns) of the square texture atlas shared by all materials.
pub const ATLAS_ROWS: u32 = 2;

/// Face category used to pick a column of the texture atlas.
#[allow(non_camel_case_types)]
#[derive(Clone, Copy, PartialEq, Eq, Structural, Debug)]
pub enum QuadDirection {
    UP,
    DOWN,
    SIDE,
}

/// One of the six faces of a voxel; it fixes the orientation of the quad drawn for it.
#[derive(Clone, Copy, PartialEq, Eq, Structural, Debug)]
pub enum Face {
    Back,
    Front,
    Left,
    Right,
    Top,
    Bottom,
}

/// An oriented, textured unit square placed at a voxel-grid coordinate.
#[derive(Clone, Copy, PartialEq, Eq, Debug)]
pub struct Quad {
    pub position: (u32, u32, u32),
    pub rotation: Face,
    pub offset: (u32, u32),
    pub direction: QuadDirection,
}

/// The packed per-instance record of a quad, as integer values.
///
/// `matrix` and `n_matrix` are stored column by column, as the vertex shader reads them.
#[derive(Clone, Copy, PartialEq, Eq, Debug)]
pub struct QuadRaw {
    pub matrix: [[i64; 4]; 4],
    pub n_matrix: [[i64; 3]; 3],
    pub offset: [i64; 2],
    pub texture_rows: i64,
}

/// The face category of a face: the +Y face is the top, the -Y face the bottom,
/// the four others are sides.
pub open spec fn face_category(f: Face) -> QuadDirection {
    match f {
        Face::Top => QuadDirection::UP,
        Face::Bottom => QuadDirection::DOWN,
        _ => QuadDirection::SIDE,
    }
}

/// The columns of the rotation matrix that turns the unit quad towards face `f`.
///
/// The unit quad faces -Z; sides turn about Y, top and bottom about X.
pub open spec fn rotation_columns(f: Face) -> Seq<Seq<int>> {
    match f {
        Face::Back => seq![seq![1, 0, 0], seq![0, 1, 0], seq![0, 0, 1]],
        Face::Front => seq![seq![-1, 0, 0], seq![0, 1, 0], seq![0, 0, -1]],
        Face::Left => seq![seq![0, 0, -1], seq![0, 1, 0], seq![1, 0, 0]],
        Face::Right => seq![seq![0, 0, 1], seq![0, 1, 0], seq![-1, 0, 0]],
        Face::Top => seq![seq![1, 0, 0], seq![0, 0, 1], seq![0, -1, 0]],
        Face::Bottom => seq![seq![1, 0, 0], seq![0, 0, -1], seq![0, 1, 0]],
    }
}

/// The columns of the 4x4 transform of a quad: its rotation, then the translation
/// to its grid position.
pub open spec fn transform_columns(q: Quad) -> Seq<Seq<int>> {
    let rc = rotation_columns(q.rotation);
    seq![
        rc[0].push(0),
        rc[1].push(0),
        rc[2].push(0),
        seq![q.position.0 as int, q.position.1 as int, q.position.2 as int, 1],
    ]
}

/// The atlas offset written into the packed record of a quad.
pub open spec fn packed_offset(q: Quad) -> Seq<int> {
    seq![q.offset.0 as int, q.offset.1 as int]
}

pub open spec fn mat4_view(m: [[i64; 4]; 4]) -> Seq<Seq<int>> {
    m@.map_values(|c: [i64; 4]| c@.map_values(|v: i64| v as int))
}

pub open spec fn mat3_view(m: [[i64; 3]; 3]) -> Seq<Seq<int>> {
    m@.map_values(|c: [i64; 3]| c@.map_values(|v: i64| v as int))
}

/// `raw` is the packed record of `q`.
pub open spec fn is_packed_of(raw: QuadRaw, q: Quad) -> bool {
    &&& mat4_view(raw.matrix) == transform_columns(q)
    &&& mat3_view(raw.n_matrix) == rotation_columns(q.rotation)
    &&& raw.offset@.map_values(|v: i64| v as int) == packed_offset(q)
    &&& raw.texture_rows == ATLAS_ROWS as i64
}

/// Dot product of two 3-vectors.
pub open spec fn dot3(a: Seq<int>, b: Seq<int>) -> int {
    a[0] * b[0] + a[1] * b[1] + a[2] * b[2]
}

/// Determinant of the 3x3 matrix with columns `m[0]`, `m[1]`, `m[2]`.
pub open spec fn det3(m: Seq<Seq<int>>) -> int {
    m[0][0] * (m[1][1] * m[2][2] - m[2][1] * m[1][2]) - m[1][0] * (m[0][1] * m[2][2] - m[2][1]
        * m[0][2]) + m[2][0] * (m[0][1] * m[1][2] - m[1][1] * m[0][2])
}

/// The columns form a proper rotation: they are orthonormal and keep orientation.
pub open spec fn is_rotation(m: Seq<Seq<int>>) -> bool {
    &&& m.len() == 3
    &&& forall|i: int| 0 <= i < 3 ==> (#[trigger] m[i]).len() == 3
    &&& forall|i: int, j: int|
        0 <= i < 3 && 0 <= j < 3 ==> dot3(#[trigger] m[i], #[trigger] m[j]) == if i == j {
            1int
        } else {
            0
        }
    &&& det3(m) == 1
}

/// The upper-left 3x3 block of a 4x4 matrix given by columns.
pub open spec fn linear_part(m: Seq<Seq<int>>) -> Seq<Seq<int>> {
    seq![m[0].take(3), m[1].take(3), m[2].take(3)]
}

/// The packed 4x4 matrix of a quad decodes to a rigid motion: its last row is
/// `(0, 0, 0, 1)`, its translation is the quad's grid position, and its linear
/// part is exactly one of the six face rotations (orthonormal, determinant 1,
/// so no scale and no shear), which the normal matrix repeats.
pub proof fn packed_transform_is_rigid(q: Quad, raw: QuadRaw)
    requires
        is_packed_of(raw, q),
    ensures
        mat4_view(raw.matrix)[0][3] == 0,
        mat4_view(raw.matrix)[1][3] == 0,
        mat4_view(raw.matrix)[2][3] == 0,
        mat4_view(raw.matrix)[3] == seq![
            q.position.0 as int,
            q.position.1 as int,
            q.position.2 as int,
            1,
        ],
        exists|f: Face| linear_part(mat4_view(raw.matrix)) == rotation_columns(f),
        is_rotation(linear_part(mat4_view(raw.matrix))),
        mat3_view(raw.n_matrix) == linear_part(mat4_view(raw.matrix)),
{
    let m = mat4_view(raw.matrix);
    let r = rotation_columns(q.rotation);
    assert(linear_part(m) =~~= r);
    assert(linear_part(m) == rotation_columns(q.rotation));
    lemma_face_rotation(q.rotation);
}

proof fn lemma_face_rotation(f: Face)
    ensures
        is_rotation(rotation_columns(f)),
{
    let r = rotation_columns(f);
    match f {
        Face::Back => {
            assert(r[0] == seq![1int, 0int, 0int]);
            assert(r[1] == seq![0int, 1int, 0int]);
            assert(r[2] == seq![0int, 0int, 1int]);
            lemma_columns_rotation(r);
        },
        Face::Front => {
            assert(r[0] == seq![-1int, 0int, 0int]);
            assert(r[1] == seq![0int, 1int, 0int]);
            assert(r[2] == seq![0int, 0int, -1int]);
            lemma_columns_rotation(r);
        },
        Face::Left => {
            assert(r[0] == seq![0int, 0int, -1int]);
            assert(r[1] == seq![0int, 1int, 0int]);
            assert(r[2] == seq![1int, 0int, 0int]);
            lemma_columns_rotation(r);
        },
        Face::Right => {
            assert(r[0] == seq![0int, 0int, 1int]);
            assert(r[1] == seq![0int, 1int, 0int]);
            assert(r[2] == seq![-1int, 0int, 0int]);
            lemma_columns_rotation(r);
        },
        Face::Top => {
            assert(r[0] == seq![1int, 0int, 0int]);
            assert(r[1] == seq![0int, 0int, 1int]);
            assert(r[2] == seq![0int, -1int, 0int]);
            lemma_columns_rotation(r);
        },
        Face::Bottom => {
            assert(r[0] == seq![1int, 0int, 0int]);
            assert(r[1] == seq![0int, 0int, -1int]);
            assert(r[2] == seq![0int, 1int, 0int]);
            lemma_columns_rotation(r);
        },
    }
}

proof fn lemma_columns_rotation(r: Seq<Seq<int>>)
    requires
        r.len() == 3,
        r[0].len() == 3 && r[1].len() == 3 && r[2].len() == 3,
        dot3(r[0], r[0]) == 1 && dot3(r[1], r[1]) == 1 && dot3(r[2], r[2]) == 1,
        dot3(r[0], r[1]) == 0 && dot3(r[0], r[2]) == 0 && dot3(r[1], r[2]) == 0,
        det3(r) == 1,
    ensures
        is_rotation(r),
{
    assert(dot3(r[1], r[0]) == dot3(r[0], r[1])) by (nonlinear_arith);
    assert(dot3(r[2], r[0]) == dot3(r[0], r[2])) by (nonlinear_arith);
    assert(dot3(r[2], r[1]) == dot3(r[1], r[2])) by (nonlinear_arith);
    assert forall|i: int, j: int| 0 <= i < 3 && 0 <= j < 3 implies dot3(
        #[trigger] r[i],
        #[trigger] r[j],
    ) == if i == j {
        1int
    } else {
        0
    } by {
        assert(i == 0 || i == 1 || i == 2);
        assert(j == 0 || j == 1 || j == 2);
    }
}

/// The 28 numbers of a packed record in buffer order: the 4x4 matrix and the
/// normal matrix column by column, the atlas offset, the atlas row count.
pub open spec fn raw_values(raw: QuadRaw) -> Seq<int> {
    let m = mat4_view(raw.matrix);
    let n = mat3_view(raw.n_matrix);
    m[0] + m[1] + m[2] + m[3] + n[0] + n[1] + n[2] + raw.offset@.map_values(|v: i64| v as int)
        + seq![raw.texture_rows as int]
}

/// The numbers of the packed record of `q`, in buffer order.
pub open spec fn record_values(q: Quad) -> Seq<int> {
    let t = transform_columns(q);
    let r = rotation_columns(q.rotation);
    t[0] + t[1] + t[2] + t[3] + r[0] + r[1] + r[2] + packed_offset(q) + seq![ATLAS_ROWS as int]
}

/// The single-precision bit patterns of whole numbers, one word per number.
pub open spec fn float_words(vals: Seq<int>) -> Seq<u32> {
    vals.map_values(|v: int| f32_bits(v, 0) as u32)
}

/// Every number of the record is held exactly by a single-precision float.
pub open spec fn fits_f32(vals: Seq<int>) -> bool {
    forall|i: int| 0 <= i < vals.len() ==> -F32_EXACT_LIMIT < #[trigger] vals[i] < F32_EXACT_LIMIT
}

/// The position and the atlas offset of `q` are held exactly by single-precision floats.
pub open spec fn packable(q: Quad) -> bool {
    &&& q.position.0 < F32_EXACT_LIMIT
    &&& q.position.1 < F32_EXACT_LIMIT
    &&& q.position.2 < F32_EXACT_LIMIT
    &&& q.offset.0 < F32_EXACT_LIMIT
    &&& q.offset.1 < F32_EXACT_LIMIT
}

/// The words that the packed record of `q` occupies in the instance buffer.
pub open spec fn quad_words(q: Quad) -> Seq<u32> {
    float_words(record_values(q))
}

pub(crate) proof fn lemma_packed_values(raw: QuadRaw, q: Quad)
    requires
        is_packed_of(raw, q),
    ensures
        raw_values(raw) == record_values(q),
        raw_values(raw).len() == 28,
        packable(q) ==> fits_f32(raw_values(raw)),
{
    let t = transform_columns(q);
    let r = rotation_columns(q.rotation);
    assert(r[0].len() == 3 && r[1].len() == 3 && r[2].len() == 3);
    assert(raw_values(raw) =~= record_values(q));
    if packable(q) {
        let vals = record_values(q);
        assert forall|i: int| 0 <= i < vals.len() implies -F32_EXACT_LIMIT < #[trigger] vals[i]
            < F32_EXACT_LIMIT by {
            assert(forall|c: int, k: int|
                0 <= c < 3 && 0 <= k < 3 ==> -1 <= #[trigger] r[c][k] <= 1);
        }
    }
}

fn rotation_matrix(f: Face) -> (m: [[i64; 3]; 3])
    ensures
        mat3_view(m) == rotation_columns(f),
{
    let m: [[i64; 3]; 3] = match f {
        Face::Back => [[1, 0, 0], [0, 1, 0], [0, 0, 1]],
        Face::Front => [[-1, 0, 0], [0, 1, 0], [0, 0, -1]],
        Face::Left => [[0, 0, -1], [0, 1, 0], [1, 0, 0]],
        Face::Right => [[0, 0, 1], [0, 1, 0], [-1, 0, 0]],
        Face::Top => [[1, 0, 0], [0, 0, 1], [0, -1, 0]],
        Face::Bottom => [[1, 0, 0], [0, 0, -1], [0, 1, 0]],
    };
    assert(mat3_view(m) =~~= rotation_columns(f));
    m
}

impl Quad {
    pub fn new(
        position: (u32, u32, u32),
        rotation: Face,
        offset: (u32, u32),
        direction: QuadDirection,
    ) -> (q: Quad)
        ensures
            q.position == position,
            q.rotation == rotation,
            q.offset == offset,
            q.direction == direction,
    {
        Quad { position, rotation, offset, direction }
    }

    /// Packs the quad into the record that the instance buffer holds.
    pub fn to_raw(&self) -> (raw: QuadRaw)
        ensures
            is_packed_of(raw, *self),
    {
        let n = rotation_matrix(self.rotation);
        let x = self.position.0 as i64;
        let y = self.position.1 as i64;
        let z = self.position.2 as i64;
        let matrix: [[i64; 4]; 4] = [
            [n[0][0], n[0][1], n[0][2], 0],
            [n[1][0], n[1][1], n[1][2], 0],
            [n[2][0], n[2][1], n[2][2], 0],
            [x, y, z, 1],
        ];
        let offset: [i64; 2] = [self.offset.0 as i64, self.offset.1 as i64];
        let raw = QuadRaw { matrix, n_matrix: n, offset, texture_rows: ATLAS_ROWS as i64 };
        assert(mat4_view(raw.matrix) =~~= transform_columns(*self));
        assert(raw.offset@.map_values(|v: i64| v as int) =~= packed_offset(*self));
        raw
    }
}

impl QuadRaw {
    /// The record as single-precision words, in buffer order.
    pub fn to_words(&self) -> (words: Vec<u32>)
        requires
            fits_f32(raw_values(*self)),
        ensures
            words@ == float_words(raw_values(*self)),
    {
        let m = &self.matrix;
        let n = &self.n_matrix;
        let vals: [i64; 28] = [
            m[0][0],
            m[0][1],
            m[0][2],
            m[0][3],
            m[1][0],
            m[1][1],
            m[1][2],
            m[1][3],
            m[2][0],
            m[2][1],
            m[2][2],
            m[2][3],
            m[3][0],
            m[3][1],
            m[3][2],
            m[3][3],
            n[0][0],
            n[0][1],
            n[0][2],
            n[1][0],
            n[1][1],
            n[1][2],
            n[2][0],
            n[2][1],
            n[2][2],
            self.offset[0],
            self.offset[1],
            self.texture_rows,
        ];
        let ghost want = raw_values(*self);
        assert(vals@.map_values(|v: i64| v as int) =~= want);
        let mut words: Vec<u32> = Vec::with_capacity(28);
        let mut i: usize = 0;
        while i < 28
            invariant
                0 <= i <= 28,
                want.len() == 28,
                fits_f32(want),
                forall|j: int| 0 <= j < 28 ==> vals@[j] as int == #[trigger] want[j],
                words@ == float_words(want.take(i as int)),
            decreases 28 - i,
        {
            assert(-F32_EXACT_LIMIT < want[i as int] < F32_EXACT_LIMIT);
            let w = f32_bits_of(vals[i], 0);
            words.push(w);
            assert(float_words(want.take(i + 1)) =~= float_words(want.take(i as int)).push(w));
            i = i + 1;
        }
        assert(want.take(28) =~= want);
        words
    }
}

} // verus!
