//! The buffers of a chunk's mesh: the shared unit quad, its indices, and one
//! packed record per visible face, laid out as the GPU reads them.
use vstd::prelude::*;
use crate::float_bits::{f32_bits, f32_bits_of, F32_EXACT_LIMIT};
use crate::quad::{packable, quad_words, Quad};

verus! {

/// A corner of the unit quad. `position` is given in half units, so that the
/// corners at -0.5 and 0.5 are whole numbers; `tex_cords` and `normal` in units.
/// Every 16-bit value is held exactly by a single-precision float.
#[derive(Clone, Copy, PartialEq, Eq, Debug)]
pub struct Vertex {
    pub position: [i16; 3],
    pub tex_cords: [i16; 2],
    pub normal: [i16; 3],
}

/// The eight numbers of a vertex: position (in half units), texture coordinate, normal.
pub open spec fn vertex_values(v: Vertex) -> Seq<int> {
    v.position@.map_values(|x: i16| x as int) + v.tex_cords@.map_values(|x: i16| x as int)
        + v.normal@.map_values(|x: i16| x as int)
}

/// The words of a vertex in the vertex buffer: the position halved, the rest as is.
pub open spec fn vertex_words(v: Vertex) -> Seq<u32> {
    v.position@.map_values(|x: i16| f32_bits(x as int, 1) as u32) + v.tex_cords@.map_values(
        |x: i16| f32_bits(x as int, 0) as u32,
    ) + v.normal@.map_values(|x: i16| f32_bits(x as int, 0) as u32)
}

/// The words of a sequence of vertices, one after the other.
pub open spec fn vertices_words(vs: Seq<Vertex>) -> Seq<u32>
    decreases vs.len(),
{
    if vs.len() == 0 {
        seq![]
    } else {
        vertices_words(vs.drop_last()) + vertex_words(vs.last())
    }
}

/// The words of the packed records of a sequence of quads, one after the other.
pub open spec fn instance_words(qs: Seq<Quad>) -> Seq<u32>
    decreases qs.len(),
{
    if qs.len() == 0 {
        seq![]
    } else {
        instance_words(qs.drop_last()) + quad_words(qs.last())
    }
}

/// The corners of the unit quad facing -Z, as `vertex_values`.
pub open spec fn unit_quad_values() -> Seq<Seq<int>> {
    seq![
        seq![-1, 1, -1, 1, 0, 0, 0, -1],
        seq![1, 1, -1, 0, 0, 0, 0, -1],
        seq![-1, -1, -1, 1, 1, 0, 0, -1],
        seq![1, -1, -1, 0, 1, 0, 0, -1],
    ]
}

/// `vs` are the corners of the unit quad.
pub open spec fn is_unit_quad(vs: Seq<Vertex>) -> bool {
    vs.map_values(|v: Vertex| vertex_values(v)) == unit_quad_values()
}

/// Indices of the two triangles of the unit quad.
pub open spec fn unit_quad_index_values() -> Seq<u32> {
    seq![0u32, 1, 2, 1, 3, 2]
}

/// The four corners of the unit quad that every face instance transforms.
pub fn unit_quad_vertices() -> (vs: Vec<Vertex>)
    ensures
        is_unit_quad(vs@),
{
    let normal: [i16; 3] = [0, 0, -1];
    let vs = vec![
        Vertex { position: [-1, 1, -1], tex_cords: [1, 0], normal },
        Vertex { position: [1, 1, -1], tex_cords: [0, 0], normal },
        Vertex { position: [-1, -1, -1], tex_cords: [1, 1], normal },
        Vertex { position: [1, -1, -1], tex_cords: [0, 1], normal },
    ];
    assert(vertex_values(vs@[0]) =~= unit_quad_values()[0]);
    assert(vertex_values(vs@[1]) =~= unit_quad_values()[1]);
    assert(vertex_values(vs@[2]) =~= unit_quad_values()[2]);
    assert(vertex_values(vs@[3]) =~= unit_quad_values()[3]);
    assert(vs@.map_values(|v: Vertex| vertex_values(v)) =~= unit_quad_values());
    vs
}

/// The six indices of the unit quad's two triangles.
pub fn unit_quad_indices() -> (is: Vec<u32>)
    ensures
        is@ == unit_quad_index_values(),
{
    let is = vec![0u32, 1, 2, 1, 3, 2];
    assert(is@ =~= unit_quad_index_values());
    is
}

impl Vertex {
    /// The vertex as single-precision words, in buffer order.
    pub fn to_words(&self) -> (words: Vec<u32>)
        ensures
            words@ == vertex_words(*self),
    {
        let ghost vals = vertex_values(*self);
        assert(vals[0] == self.position[0] && vals[1] == self.position[1] && vals[2]
            == self.position[2]);
        assert(vals[3] == self.tex_cords[0] && vals[4] == self.tex_cords[1]);
        assert(vals[5] == self.normal[0] && vals[6] == self.normal[1] && vals[7] == self.normal[2]);
        let words = vec![
            f32_bits_of(self.position[0] as i64, 1),
            f32_bits_of(self.position[1] as i64, 1),
            f32_bits_of(self.position[2] as i64, 1),
            f32_bits_of(self.tex_cords[0] as i64, 0),
            f32_bits_of(self.tex_cords[1] as i64, 0),
            f32_bits_of(self.normal[0] as i64, 0),
            f32_bits_of(self.normal[1] as i64, 0),
            f32_bits_of(self.normal[2] as i64, 0),
        ];
        assert(words@ =~= vertex_words(*self));
        words
    }
}

/// The words of a sequence of vertices, for the vertex buffer.
pub fn pack_vertices(vertices: &Vec<Vertex>) -> (words: Vec<u32>)
    ensures
        words@ == vertices_words(vertices@),
{
    let mut words: Vec<u32> = Vec::new();
    let mut i: usize = 0;
    while i < vertices.len()
        invariant
            0 <= i <= vertices@.len(),
            words@ == vertices_words(vertices@.take(i as int)),
        decreases vertices@.len() - i,
    {
        let mut w = vertices[i].to_words();
        words.append(&mut w);
        assert(vertices@.take(i + 1).drop_last() =~= vertices@.take(i as int));
        i = i + 1;
    }
    assert(vertices@.take(i as int) =~= vertices@);
    words
}

/// The words of the packed records of `quads`, for the instance buffer.
pub fn pack_instances(quads: &Vec<Quad>) -> (words: Vec<u32>)
    requires
        forall|i: int| 0 <= i < quads@.len() ==> packable(#[trigger] quads@[i]),
    ensures
        words@ == instance_words(quads@),
{
    let mut words: Vec<u32> = Vec::new();
    let mut i: usize = 0;
    while i < quads.len()
        invariant
            0 <= i <= quads@.len(),
            forall|j: int| 0 <= j < quads@.len() ==> packable(#[trigger] quads@[j]),
            words@ == instance_words(quads@.take(i as int)),
        decreases quads@.len() - i,
    {
        let raw = quads[i].to_raw();
        proof {
            crate::quad::lemma_packed_values(raw, quads@[i as int]);
        }
        let mut w = raw.to_words();
        words.append(&mut w);
        assert(quads@.take(i + 1).drop_last() =~= quads@.take(i as int));
        i = i + 1;
    }
    assert(quads@.take(i as int) =~= quads@);
    words
}

/// The words and counts of a chunk's mesh, ready to be uploaded as a vertex
/// buffer, an index buffer of 32-bit indices, and a per-instance buffer.
pub struct MeshData {
    pub vertex_words: Vec<u32>,
    pub indices: Vec<u32>,
    pub instance_words: Vec<u32>,
    pub indices_len: usize,
    pub instances_len: usize,
}

/// `mesh` draws `quads` as instances of the quad made of `vertices` and `indices`.
pub open spec fn is_mesh_of(
    mesh: MeshData,
    vertices: Seq<Vertex>,
    indices: Seq<u32>,
    quads: Seq<Quad>,
) -> bool {
    &&& mesh.vertex_words@ == vertices_words(vertices)
    &&& mesh.indices@ == indices
    &&& mesh.instance_words@ == instance_words(quads)
    &&& mesh.indices_len == indices.len()
    &&& mesh.instances_len == quads.len()
}

impl MeshData {
    /// Packs the shared quad geometry and one record per quad.
    pub fn new(vertices: &Vec<Vertex>, indices: &Vec<u32>, quads: &Vec<Quad>) -> (mesh: MeshData)
        requires
            forall|i: int| 0 <= i < quads@.len() ==> packable(#[trigger] quads@[i]),
        ensures
            is_mesh_of(mesh, vertices@, indices@, quads@),
            quads@.len() == 0 ==> mesh.instances_len == 0 && mesh.instance_words@.len() == 0,
    {
        MeshData {
            vertex_words: pack_vertices(vertices),
            indices: indices.clone(),
            instance_words: pack_instances(quads),
            indices_len: indices.len(),
            instances_len: quads.len(),
        }
    }
}

/// One attribute of a vertex-buffer layout: its byte offset in a record, its
/// number of 32-bit float components, and the shader location it feeds.
#[derive(Clone, Copy, PartialEq, Eq, Debug)]
pub struct AttributeSlot {
    pub offset: u64,
    pub components: u32,
    pub shader_location: u32,
}

/// Bytes of one unit-quad vertex in the vertex buffer.
pub const VERTEX_STRIDE: u64 = 32;

/// Bytes of one packed face record in the instance buffer.
pub const INSTANCE_STRIDE: u64 = 112;

pub open spec fn slot_view(a: AttributeSlot) -> (int, int, int) {
    (a.offset as int, a.components as int, a.shader_location as int)
}

/// The attributes of a unit-quad vertex: position, texture coordinate, normal.
pub open spec fn vertex_attribute_spec() -> Seq<(int, int, int)> {
    seq![(0, 3, 0), (12, 2, 1), (20, 3, 2)]
}

/// The attributes of a packed face record: the four columns of the transform,
/// the three columns of the normal matrix, the atlas offset, the atlas row count.
pub open spec fn instance_attribute_spec() -> Seq<(int, int, int)> {
    seq![
        (0, 4, 3),
        (16, 4, 4),
        (32, 4, 5),
        (48, 4, 6),
        (64, 3, 7),
        (76, 3, 8),
        (88, 3, 9),
        (100, 2, 10),
        (108, 1, 11),
    ]
}

/// The attributes cover a record of `stride` bytes exactly, one after the other,
/// with no gap and no overlap.
pub open spec fn tiles_record(attrs: Seq<(int, int, int)>, stride: int) -> bool {
    &&& attrs.len() > 0
    &&& attrs[0].0 == 0
    &&& forall|k: int|
        0 <= k < attrs.len() - 1 ==> #[trigger] attrs[k + 1].0 == attrs[k].0 + 4 * attrs[k].1
    &&& attrs.last().0 + 4 * attrs.last().1 == stride
}

/// Word offsets at which the fields of a packed record begin, and where it ends.
pub open spec fn record_field_words() -> Seq<int> {
    seq![0, 4, 8, 12, 16, 19, 22, 25, 27, 28]
}

/// The layouts match the packed data: the vertex attributes tile a vertex's eight
/// words, and the instance attributes tile a record's 28 words, each attribute
/// starting where a field of the record starts and ending where the next begins.
pub proof fn attribute_layouts_match_packing(q: Quad, v: Vertex)
    ensures
        tiles_record(vertex_attribute_spec(), VERTEX_STRIDE as int),
        VERTEX_STRIDE == 4 * vertex_words(v).len(),
        tiles_record(instance_attribute_spec(), INSTANCE_STRIDE as int),
        INSTANCE_STRIDE == 4 * quad_words(q).len(),
        forall|k: int|
            0 <= k < 9 ==> (#[trigger] instance_attribute_spec()[k]).0 == 4
                * record_field_words()[k] && instance_attribute_spec()[k].0 + 4
                * instance_attribute_spec()[k].1 == 4 * record_field_words()[k + 1],
{
    let r = crate::quad::rotation_columns(q.rotation);
    assert(r[0].len() == 3 && r[1].len() == 3 && r[2].len() == 3);
    assert(crate::quad::record_values(q).len() == 28);
    let va = vertex_attribute_spec();
    assert forall|k: int| 0 <= k < va.len() - 1 implies #[trigger] va[k + 1].0 == va[k].0 + 4
        * va[k].1 by {
        assert(k == 0 || k == 1);
    }
    let ia = instance_attribute_spec();
    assert forall|k: int| 0 <= k < ia.len() - 1 implies #[trigger] ia[k + 1].0 == ia[k].0 + 4
        * ia[k].1 by {
        assert(0 <= k < 8);
    }
    let fw = record_field_words();
    assert forall|k: int| 0 <= k < 9 implies (#[trigger] ia[k]).0 == 4 * fw[k] && ia[k].0 + 4
        * ia[k].1 == 4 * fw[k + 1] by {
        assert(0 <= k < 9);
    }
}

/// The attributes of the unit-quad vertex buffer.
pub fn vertex_attributes() -> (attrs: Vec<AttributeSlot>)
    ensures
        attrs@.map_values(|a: AttributeSlot| slot_view(a)) == vertex_attribute_spec(),
{
    let attrs = vec![
        AttributeSlot { offset: 0, components: 3, shader_location: 0 },
        AttributeSlot { offset: 12, components: 2, shader_location: 1 },
        AttributeSlot { offset: 20, components: 3, shader_location: 2 },
    ];
    assert(attrs@.map_values(|a: AttributeSlot| slot_view(a)) =~= vertex_attribute_spec());
    attrs
}

/// The attributes of the per-instance buffer of packed face records.
pub fn instance_attributes() -> (attrs: Vec<AttributeSlot>)
    ensures
        attrs@.map_values(|a: AttributeSlot| slot_view(a)) == instance_attribute_spec(),
{
    let attrs = vec![
        AttributeSlot { offset: 0, components: 4, shader_location: 3 },
        AttributeSlot { offset: 16, components: 4, shader_location: 4 },
        AttributeSlot { offset: 32, components: 4, shader_location: 5 },
        AttributeSlot { offset: 48, components: 4, shader_location: 6 },
        AttributeSlot { offset: 64, components: 3, shader_location: 7 },
        AttributeSlot { offset: 76, components: 3, shader_location: 8 },
        AttributeSlot { offset: 88, components: 3, shader_location: 9 },
        AttributeSlot { offset: 100, components: 2, shader_location: 10 },
        AttributeSlot { offset: 108, components: 1, shader_location: 11 },
    ];
    assert(attrs@.map_values(|a: AttributeSlot| slot_view(a)) =~= instance_attribute_spec());
    attrs
}

} // verus!
