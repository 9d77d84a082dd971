//! Voxels: the cells of a chunk, their material and their visible faces.
use vstd::prelude::*;
use crate::quad::{face_category, Face, Quad, QuadDirection};
use vstd::seq_lib::lemma_concat_associative;

verus! {

/// The material of a voxel.
#[allow(non_camel_case_types)]
#[derive(Clone, Copy, PartialEq, Eq, Structural, Debug)]
pub enum CubeType {
    GRASS,
    DIRT,
    STONE,
    WOOD,
}

/// One voxel: whether it is solid, its material, and which of its faces are drawn.
#[derive(Clone, Copy, PartialEq, Eq, Structural, Debug)]
pub struct Cube {
    pub top_face: bool,
    pub bottom_face: bool,
    pub left_face: bool,
    pub right_face: bool,
    pub back_face: bool,
    pub front_face: bool,
    pub is_active: bool,
    pub cube_type: CubeType,
}

/// The atlas tile (column, row) of a material in the 2x2 texture atlas. Every
/// face of a voxel samples the tile of the voxel's material.
pub open spec fn atlas_tile_spec(t: CubeType) -> (u32, u32) {
    match t {
        CubeType::GRASS => (0, 0),
        CubeType::DIRT => (1, 0),
        CubeType::STONE => (0, 1),
        CubeType::WOOD => (1, 1),
    }
}

/// Looks up the atlas tile of a material.
pub fn atlas_tile(t: CubeType) -> (r: (u32, u32))
    ensures
        r == atlas_tile_spec(t),
{
    match t {
        CubeType::GRASS => (0, 0),
        CubeType::DIRT => (1, 0),
        CubeType::STONE => (0, 1),
        CubeType::WOOD => (1, 1),
    }
}

/// Whether face `f` of `c` is marked visible.
pub open spec fn face_flag(c: Cube, f: Face) -> bool {
    match f {
        Face::Back => c.back_face,
        Face::Front => c.front_face,
        Face::Left => c.left_face,
        Face::Right => c.right_face,
        Face::Top => c.top_face,
        Face::Bottom => c.bottom_face,
    }
}

/// The quad drawn for face `f` of a voxel of material `t` at `pos`.
pub open spec fn face_quad(t: CubeType, pos: (u32, u32, u32), f: Face) -> Quad {
    Quad {
        position: pos,
        rotation: f,
        offset: atlas_tile_spec(t),
        direction: face_category(f),
    }
}

/// The quad of face `f`, if that face is marked visible.
pub open spec fn flagged_quad(c: Cube, pos: (u32, u32, u32), f: Face) -> Seq<Quad> {
    if face_flag(c, f) {
        seq![face_quad(c.cube_type, pos, f)]
    } else {
        seq![]
    }
}

/// The quads of the visible faces of `c`, in the order back, front, left, right, top, bottom.
pub open spec fn cube_quads(c: Cube, pos: (u32, u32, u32)) -> Seq<Quad> {
    flagged_quad(c, pos, Face::Back) + flagged_quad(c, pos, Face::Front) + flagged_quad(
        c,
        pos,
        Face::Left,
    ) + flagged_quad(c, pos, Face::Right) + flagged_quad(c, pos, Face::Top) + flagged_quad(
        c,
        pos,
        Face::Bottom,
    )
}

/// Every quad of `c` lies at `pos` and samples the atlas tile of `c`'s material.
pub proof fn cube_quads_share_tile(c: Cube, pos: (u32, u32, u32))
    ensures
        forall|i: int|
            0 <= i < cube_quads(c, pos).len() ==> (#[trigger] cube_quads(c, pos)[i]).position
                == pos && cube_quads(c, pos)[i].offset == atlas_tile_spec(c.cube_type),
{
    let t = atlas_tile_spec(c.cube_type);
    let a1 = flagged_quad(c, pos, Face::Back);
    let a2 = a1 + flagged_quad(c, pos, Face::Front);
    let a3 = a2 + flagged_quad(c, pos, Face::Left);
    let a4 = a3 + flagged_quad(c, pos, Face::Right);
    let a5 = a4 + flagged_quad(c, pos, Face::Top);
    let a6 = a5 + flagged_quad(c, pos, Face::Bottom);
    assert(forall|i: int| 0 <= i < a1.len() ==> (#[trigger] a1[i]).position == pos && a1[i].offset == t);
    assert(forall|i: int| 0 <= i < a2.len() ==> (#[trigger] a2[i]).position == pos && a2[i].offset == t);
    assert(forall|i: int| 0 <= i < a3.len() ==> (#[trigger] a3[i]).position == pos && a3[i].offset == t);
    assert(forall|i: int| 0 <= i < a4.len() ==> (#[trigger] a4[i]).position == pos && a4[i].offset == t);
    assert(forall|i: int| 0 <= i < a5.len() ==> (#[trigger] a5[i]).position == pos && a5[i].offset == t);
    assert(forall|i: int| 0 <= i < a6.len() ==> (#[trigger] a6[i]).position == pos && a6[i].offset == t);
}

/// The default voxel: active grass with every face marked visible.
pub open spec fn default_cube() -> Cube {
    Cube {
        top_face: true,
        bottom_face: true,
        left_face: true,
        right_face: true,
        back_face: true,
        front_face: true,
        is_active: true,
        cube_type: CubeType::GRASS,
    }
}

fn push_face(quads: &mut Vec<Quad>, c: &Cube, pos: (u32, u32, u32), f: Face)
    ensures
        final(quads)@ == old(quads)@ + flagged_quad(*c, pos, f),
{
    let visible = match f {
        Face::Back => c.back_face,
        Face::Front => c.front_face,
        Face::Left => c.left_face,
        Face::Right => c.right_face,
        Face::Top => c.top_face,
        Face::Bottom => c.bottom_face,
    };
    if visible {
        let direction = match f {
            Face::Top => QuadDirection::UP,
            Face::Bottom => QuadDirection::DOWN,
            _ => QuadDirection::SIDE,
        };
        let offset = atlas_tile(c.cube_type);
        quads.push(Quad::new(pos, f, offset, direction));
    }
    assert(final(quads)@ =~= old(quads)@ + flagged_quad(*c, pos, f));
}

impl Cube {
    /// A solid grass voxel with every face marked visible.
    pub fn default() -> (c: Self)
        ensures
            c == default_cube(),
    {
        Self {
            top_face: true,
            bottom_face: true,
            left_face: true,
            right_face: true,
            back_face: true,
            front_face: true,
            is_active: true,
            cube_type: CubeType::GRASS,
        }
    }

    /// A solid voxel of material `cube_type` with the given face flags.
    pub fn new(
        top_face: bool,
        bottom_face: bool,
        left_face: bool,
        right_face: bool,
        back_face: bool,
        front_face: bool,
        cube_type: CubeType,
    ) -> (c: Self)
        ensures
            c == (Cube {
                top_face,
                bottom_face,
                left_face,
                right_face,
                back_face,
                front_face,
                is_active: true,
                cube_type,
            }),
    {
        Self {
            top_face,
            bottom_face,
            left_face,
            right_face,
            back_face,
            front_face,
            is_active: true,
            cube_type,
        }
    }

    /// Appends the quads of the faces marked visible, placed at `position`, to `quads`.
    pub fn append_faces(&self, quads: &mut Vec<Quad>, position: (u32, u32, u32))
        ensures
            final(quads)@ == old(quads)@ + cube_quads(*self, position),
    {
        let ghost start = quads@;
        let ghost c = *self;
        push_face(quads, self, position, Face::Back);
        let ghost a1 = flagged_quad(c, position, Face::Back);
        push_face(quads, self, position, Face::Front);
        let ghost a2 = a1 + flagged_quad(c, position, Face::Front);
        proof {
            lemma_concat_associative(start, a1, flagged_quad(c, position, Face::Front));
        }
        push_face(quads, self, position, Face::Left);
        let ghost a3 = a2 + flagged_quad(c, position, Face::Left);
        proof {
            lemma_concat_associative(start, a2, flagged_quad(c, position, Face::Left));
        }
        push_face(quads, self, position, Face::Right);
        let ghost a4 = a3 + flagged_quad(c, position, Face::Right);
        proof {
            lemma_concat_associative(start, a3, flagged_quad(c, position, Face::Right));
        }
        push_face(quads, self, position, Face::Top);
        let ghost a5 = a4 + flagged_quad(c, position, Face::Top);
        proof {
            lemma_concat_associative(start, a4, flagged_quad(c, position, Face::Top));
        }
        push_face(quads, self, position, Face::Bottom);
        let ghost a6 = a5 + flagged_quad(c, position, Face::Bottom);
        proof {
            lemma_concat_associative(start, a5, flagged_quad(c, position, Face::Bottom));
        }
        assert(a6 == cube_quads(c, position));
    }

    /// The quads of the faces marked visible, placed at `position`; all of them
    /// sample the atlas tile of the voxel's material.
    pub fn get_faces(&self, position: (u32, u32, u32)) -> (quads: Vec<Quad>)
        ensures
            quads@ == cube_quads(*self, position),
            forall|i: int|
                0 <= i < quads@.len() ==> (#[trigger] quads@[i]).offset == atlas_tile_spec(
                    self.cube_type,
                ),
    {
        let mut quads: Vec<Quad> = Vec::new();
        self.append_faces(&mut quads, position);
        assert(quads@ =~= cube_quads(*self, position));
        proof {
            cube_quads_share_tile(*self, position);
        }
        quads
    }
}

} // verus!
