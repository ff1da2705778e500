//! The skinned tube mesh of a limb.
//!
//! Between two neighbouring body points lies a quad: two corners beside the
//! near point, two beside the far point, and a centre. It is cut into four
//! triangles that meet at the centre. Every vertex carries a position, a
//! place in the texture atlas for one or two texture cells, and the bones
//! that move it.

use crate::fixed::{lemma_trunc_div_bounds, magnitude, quotient, trunc_div, FINE, ONE};
use crate::geometry::{
    fine_length, fine_length_of, lemma_fine_length_covers, lemma_rescale_keeps_length, rescale,
    rescale_to, Point3,
};
use crate::model::{slots_model, Limb, LimbModel, TextureSlot, Vec2};
use crate::pairs::neighbour_pairs;
use crate::skeleton::{bone_name, first_named, make_bone_name, BoneModel, Skeleton};
use vstd::prelude::*;

verus! {

/// The most body points that a limb may have to get a mesh.
pub const MAX_SEGMENTS: usize = 0x10_0000;

/// The greatest texture cell, and the greatest texture column offset of a
/// limb, that a mesh may use.
pub const MAX_CELL: usize = 0x10_0000;

/// The greatest magnitude of a coordinate of a mesh's origin.
pub const REACH: i64 = 0x1000_0000_0000_0000;

/// One vertex of a mesh.
#[derive(Debug, Clone, Copy, PartialEq, Eq)]
pub struct Vertex {
    pub position: Point3,
    /// Place of the first texture cell in the atlas.
    pub uv: (i64, i64),
    /// Place of the second texture cell in the atlas; zero where the vertex
    /// shows one cell only.
    pub second_uv: (i64, i64),
    /// Weight of the first texture cell against the second; `ONE` where the
    /// vertex shows one cell only.
    pub blend: u32,
    /// Which of the quad's four triangles the vertex belongs to.
    pub triangle: usize,
    /// Up to four bones; unused places hold zero.
    pub bones: [usize; 4],
    /// The weights of the four bones; they sum to `ONE`.
    pub weights: [u32; 4],
}

/// The mesh of one limb.
#[derive(Debug, PartialEq)]
pub struct LimbMesh {
    /// Three vertices for every triangle.
    pub vertices: Vec<Vertex>,
    /// How far the mesh is moved in depth.
    pub depth: i32,
}

/// What a `LimbMesh` stands for.
pub struct LimbMeshModel {
    pub vertices: Seq<Vertex>,
    pub depth: i32,
}

impl View for LimbMesh {
    type V = LimbMeshModel;

    open spec fn view(&self) -> LimbMeshModel {
        LimbMeshModel { vertices: self.vertices@, depth: self.depth }
    }
}

/// How the texture slots of two neighbouring points go together.
#[derive(Debug, Clone, Copy, PartialEq, Eq)]
pub struct PairTextures {
    /// The cell drawn first.
    pub first_cell: usize,
    /// Its weight at the near point.
    pub near_weight: u32,
    /// Its weight at the far point.
    pub far_weight: u32,
    /// The cell drawn second, where the pair shows two cells.
    pub second_cell: Option<usize>,
}

/// Where the cursor stands at point `i` of `limb`: the origin moved along the
/// first `i` segments.
pub open spec fn cursor(limb: LimbModel, origin: Point3, i: int) -> (int, int)
    decreases i,
{
    if i <= 0 {
        (origin.x as int, origin.y as int)
    } else {
        let before = cursor(limb, origin, i - 1);
        (before.0 + limb.body[i - 1].dir.x, before.1 + limb.body[i - 1].dir.y)
    }
}

/// The direction of the segment that arrives at point `i`; for the first
/// point, its own direction.
pub open spec fn incoming_dir(limb: LimbModel, i: int) -> Vec2 {
    if i <= 0 {
        limb.body[0].dir
    } else {
        limb.body[i - 1].dir
    }
}

/// The offset from the middle of a cross-section to its edge: at a right
/// angle to the direction `(dx, dy)`, turned clockwise, and `size / 2` long.
pub open spec fn side_offset(dx: int, dy: int, size: int) -> (int, int) {
    let len = fine_length(dy, -dx);
    let half = size * (FINE / 2);
    (rescale(dy, half, len), rescale(-dx, half, len))
}

/// The offset to the edge of a cross-section is half the cross-section's
/// size long, a step and a part in `FINE` apart: with `half` the half size in
/// `FINE`-ths of a step and `(ox, oy)` the offset,
/// `(ox^2 + oy^2) * FINE^4 <= (FINE + 1)^2 * half^2` and
/// `((|ox| + 1)^2 + (|oy| + 1)^2) * FINE^2 > half^2`.
pub proof fn lemma_side_offset_length(dx: int, dy: int, size: int)
    requires
        dx != 0 || dy != 0,
        size >= 0,
    ensures
        ({
            let half = size * (FINE / 2);
            let offset = side_offset(dx, dy, size);
            let up_x = magnitude(offset.0) + 1;
            let up_y = magnitude(offset.1) + 1;
            &&& (offset.0 * offset.0 + offset.1 * offset.1) * (FINE * FINE * FINE * FINE) <= ((FINE
                + 1) * (FINE + 1)) * (half * half)
            &&& (up_x * up_x + up_y * up_y) * (FINE * FINE) > half * half
        }),
{
    lemma_rescale_keeps_length(dy, -dx, size * (FINE / 2));
}

/// The edge offset of the cross-section at point `i`, seen as the near end of
/// the segment that leaves it. At a seam it follows the arriving segment
/// alone; elsewhere it follows the mean of the arriving and leaving segments.
pub open spec fn near_offset(limb: LimbModel, i: int) -> (int, int) {
    let here = limb.body[i];
    let before = incoming_dir(limb, i);
    if here.discontinuous {
        side_offset(before.x as int, before.y as int, here.size as int)
    } else {
        side_offset(here.dir.x + before.x, here.dir.y + before.y, here.size as int)
    }
}

/// The edge offset of the cross-section at point `i + 1`, seen as the far end
/// of segment `i`. At a seam it repeats the near end's offset.
pub open spec fn far_offset(limb: LimbModel, i: int) -> (int, int) {
    let there = limb.body[i + 1];
    let here = limb.body[i];
    if there.discontinuous {
        near_offset(limb, i)
    } else {
        side_offset(there.dir.x + here.dir.x, there.dir.y + here.dir.y, there.size as int)
    }
}

/// The place of corner `c` of a quad in the quad's own frame, in steps: the
/// first coordinate runs along the segment, the second across it. Corners 0
/// and 1 are at the near point, 2 and 3 at the far point, and 4 is the centre.
pub open spec fn corner_uv(c: int) -> (int, int) {
    if c == 0 {
        (0, 0)
    } else if c == 1 {
        (0, ONE as int)
    } else if c == 2 {
        (ONE as int, ONE as int)
    } else if c == 3 {
        (ONE as int, 0)
    } else {
        (ONE / 2, ONE / 2)
    }
}

/// The position of corner `c` of the quad over segment `i`.
pub open spec fn corner_position(limb: LimbModel, origin: Point3, i: int, c: int) -> (int, int) {
    let at = cursor(limb, origin, i);
    let near = near_offset(limb, i);
    let far = far_offset(limb, i);
    let dir = limb.body[i].dir;
    if c == 0 {
        (at.0 - near.0, at.1 - near.1)
    } else if c == 1 {
        (at.0 + near.0, at.1 + near.1)
    } else if c == 2 {
        (at.0 + far.0 + dir.x, at.1 + far.1 + dir.y)
    } else if c == 3 {
        (at.0 - far.0 + dir.x, at.1 - far.1 + dir.y)
    } else {
        (at.0 + trunc_div(dir.x as int, 2), at.1 + trunc_div(dir.y as int, 2))
    }
}

/// The corner that vertex `s` of triangle `t` stands on: triangle `t` runs
/// from corner `t` to the next corner around the quad and on to the centre.
pub open spec fn corner_of(t: int, s: int) -> int {
    if s == 2 {
        4
    } else {
        (t + s) % 4
    }
}

/// How the slots of the near point `a` and of the far point `b` go together,
/// or `None` where they share no cell that could join them.
///
/// Two single cells must be the same cell. A single cell beside two must be
/// one of the two; the other of the two fades in from weight zero. Two cells
/// beside two must be the same two, in either order.
pub open spec fn align(a: (TextureSlot, TextureSlot), b: (TextureSlot, TextureSlot)) -> Option<
    PairTextures,
> {
    match (a.0, a.1, b.0, b.1) {
        (Some(a0), None, Some(b0), None) => if a0.0 == b0.0 {
            Some(
                PairTextures {
                    first_cell: a0.0,
                    near_weight: a0.1,
                    far_weight: b0.1,
                    second_cell: None,
                },
            )
        } else {
            None
        },
        (Some(a0), None, Some(b0), Some(b1)) => if a0.0 == b0.0 {
            Some(
                PairTextures {
                    first_cell: a0.0,
                    near_weight: a0.1,
                    far_weight: b0.1,
                    second_cell: Some(b1.0),
                },
            )
        } else if a0.0 == b1.0 {
            Some(
                PairTextures {
                    first_cell: b0.0,
                    near_weight: 0,
                    far_weight: b0.1,
                    second_cell: Some(a0.0),
                },
            )
        } else {
            None
        },
        (Some(a0), Some(a1), Some(b0), None) => if b0.0 == a0.0 {
            Some(
                PairTextures {
                    first_cell: a0.0,
                    near_weight: a0.1,
                    far_weight: b0.1,
                    second_cell: Some(a1.0),
                },
            )
        } else if b0.0 == a1.0 {
            Some(
                PairTextures {
                    first_cell: a0.0,
                    near_weight: a0.1,
                    far_weight: 0,
                    second_cell: Some(a1.0),
                },
            )
        } else {
            None
        },
        (Some(a0), Some(a1), Some(b0), Some(b1)) => if a0.0 == b0.0 && a1.0 == b1.0 {
            Some(
                PairTextures {
                    first_cell: a0.0,
                    near_weight: a0.1,
                    far_weight: b0.1,
                    second_cell: Some(a1.0),
                },
            )
        } else if a0.0 == b1.0 && a1.0 == b0.0 {
            Some(
                PairTextures {
                    first_cell: a1.0,
                    near_weight: a1.1,
                    far_weight: b0.1,
                    second_cell: Some(a0.0),
                },
            )
        } else {
            None
        },
        _ => None,
    }
}

/// The place in the atlas of the point `(cu, cv)` of the cell in column `col`
/// and row `row`, for cells of size `block`.
pub open spec fn cell_uv(block: (i32, i32), col: int, row: int, cu: int, cv: int) -> (int, int) {
    (
        trunc_div((col * ONE + cu) * block.0, ONE as int),
        trunc_div((row * ONE + cv) * block.1, ONE as int),
    )
}

/// The bones of a vertex that lies `cu` along the segment from bone `near` to
/// bone `far`, and their weights: the near bone alone in the first quarter,
/// the far bone alone in the last quarter, and both in equal parts between.
pub open spec fn skin(near: usize, far: usize, cu: int) -> ([usize; 4], [u32; 4]) {
    if cu < ONE / 4 {
        ([near, 0, 0, 0], [ONE as u32, 0, 0, 0])
    } else if cu > ONE / 4 * 3 {
        ([far, 0, 0, 0], [ONE as u32, 0, 0, 0])
    } else {
        ([near, far, 0, 0], [(ONE / 2) as u32, (ONE / 2) as u32, 0, 0])
    }
}

/// The index of the bone of point `i` of `limb`: the first bone that has the
/// name of that point.
pub open spec fn point_bone(limb: LimbModel, bones: Seq<BoneModel>, i: int) -> Option<int> {
    first_named(bones, bone_name(limb.name, i as nat))
}

/// Whether the two points of segment `i` of `limb` have textures for a quad:
/// their slots go together, and their cells are within `MAX_CELL`.
pub open spec fn pair_shaped(limb: LimbModel, i: int) -> bool {
    &&& align(limb.body[i].textures, limb.body[i + 1].textures) matches Some(pair)
    &&& pair.first_cell <= MAX_CELL
    &&& (pair.second_cell matches Some(cell) ==> cell <= MAX_CELL)
}

/// Whether both points of segment `i` of `limb` have a bone.
pub open spec fn pair_boned(limb: LimbModel, bones: Seq<BoneModel>, i: int) -> bool {
    point_bone(limb, bones, i) is Some && point_bone(limb, bones, i + 1) is Some
}

/// Whether segment `i` of `limb` can get its quad: its points have textures
/// for it, and both have a bone.
pub open spec fn pair_ready(limb: LimbModel, bones: Seq<BoneModel>, i: int) -> bool {
    pair_shaped(limb, i) && pair_boned(limb, bones, i)
}

/// Whether `limb` has the shape for a mesh at `origin`: it has between one
/// and `MAX_SEGMENTS` points, the origin is within `REACH`, the limb's
/// texture column is within `MAX_CELL`, and every segment has textures for a
/// quad.
pub open spec fn limb_shaped(limb: LimbModel, origin: Point3) -> bool {
    &&& 1 <= limb.body.len() <= MAX_SEGMENTS
    &&& -REACH <= origin.x <= REACH
    &&& -REACH <= origin.y <= REACH
    &&& limb.texture_displacement <= MAX_CELL
    &&& forall|i: int| 0 <= i < limb.body.len() - 1 ==> pair_shaped(limb, i)
}

/// Whether every point of `limb` has a bone among `bones`.
pub open spec fn limb_boned(limb: LimbModel, bones: Seq<BoneModel>) -> bool {
    forall|i: int| 0 <= i < limb.body.len() ==> (#[trigger] point_bone(limb, bones, i)) is Some
}

/// Whether `limb` can get a mesh at `origin`: it has between one and
/// `MAX_SEGMENTS` points, the origin is within `REACH`, the limb's texture
/// column is within `MAX_CELL`, and every segment can get its quad.
pub open spec fn limb_mesh_ready(limb: LimbModel, origin: Point3, bones: Seq<BoneModel>) -> bool {
    &&& 1 <= limb.body.len() <= MAX_SEGMENTS
    &&& -REACH <= origin.x <= REACH
    &&& -REACH <= origin.y <= REACH
    &&& limb.texture_displacement <= MAX_CELL
    &&& forall|i: int| 0 <= i < limb.body.len() - 1 ==> pair_ready(limb, bones, i)
}

/// A limb that has the shape for a mesh, and a bone for every point, can get
/// a mesh.
pub proof fn lemma_limb_ready(limb: LimbModel, origin: Point3, bones: Seq<BoneModel>)
    requires
        limb_shaped(limb, origin),
        limb_boned(limb, bones),
    ensures
        limb_mesh_ready(limb, origin, bones),
{
    assert forall|i: int| 0 <= i < limb.body.len() - 1 implies pair_ready(limb, bones, i) by {
        assert(pair_shaped(limb, i));
        assert(point_bone(limb, bones, i) is Some);
        assert(point_bone(limb, bones, i + 1) is Some);
    }
}

/// The positions of the five corners of the quad over segment `i`.
pub open spec fn quad_corners(limb: LimbModel, origin: Point3, i: int) -> [(i64, i64); 5] {
    [
        (
            corner_position(limb, origin, i, 0).0 as i64,
            corner_position(limb, origin, i, 0).1 as i64,
        ),
        (
            corner_position(limb, origin, i, 1).0 as i64,
            corner_position(limb, origin, i, 1).1 as i64,
        ),
        (
            corner_position(limb, origin, i, 2).0 as i64,
            corner_position(limb, origin, i, 2).1 as i64,
        ),
        (
            corner_position(limb, origin, i, 3).0 as i64,
            corner_position(limb, origin, i, 3).1 as i64,
        ),
        (
            corner_position(limb, origin, i, 4).0 as i64,
            corner_position(limb, origin, i, 4).1 as i64,
        ),
    ]
}

/// Vertex `k` of the twelve of a quad: vertex `k % 3` of triangle `k / 3`.
/// `corners` are the quad's corner positions, `z` its depth, `pair` its
/// textures, `col` its texture column, and `near` and `far` the bones of its
/// two points.
pub open spec fn quad_vertex(
    corners: [(i64, i64); 5],
    z: i64,
    pair: PairTextures,
    col: int,
    near: usize,
    far: usize,
    block: (i32, i32),
    k: int,
) -> Vertex {
    let c = corner_of(k / 3, k % 3);
    let corner = corner_uv(c);
    let first = cell_uv(block, col, pair.first_cell as int, corner.0, corner.1);
    let second = match pair.second_cell {
        Some(cell) => cell_uv(block, col, cell as int, corner.0, corner.1),
        None => (0, 0),
    };
    let blend = match pair.second_cell {
        Some(_) => if corner.0 == 0 {
            pair.near_weight
        } else {
            pair.far_weight
        },
        None => ONE as u32,
    };
    let skinned = skin(near, far, corner.0);
    Vertex {
        position: Point3 { x: corners[c].0, y: corners[c].1, z },
        uv: (first.0 as i64, first.1 as i64),
        second_uv: (second.0 as i64, second.1 as i64),
        blend,
        triangle: (k / 3) as usize,
        bones: skinned.0,
        weights: skinned.1,
    }
}

/// The twelve vertices of a quad, triangle after triangle.
pub open spec fn quad_vertices(
    corners: [(i64, i64); 5],
    z: i64,
    pair: PairTextures,
    col: int,
    near: usize,
    far: usize,
    block: (i32, i32),
) -> Seq<Vertex> {
    Seq::new(12, |k: int| quad_vertex(corners, z, pair, col, near, far, block, k))
}

/// The twelve vertices of the quad over segment `i` of `limb`.
pub open spec fn pair_vertices(
    limb: LimbModel,
    origin: Point3,
    bones: Seq<BoneModel>,
    block: (i32, i32),
    i: int,
) -> Seq<Vertex> {
    quad_vertices(
        quad_corners(limb, origin, i),
        origin.z,
        align(limb.body[i].textures, limb.body[i + 1].textures).unwrap(),
        i + limb.texture_displacement,
        point_bone(limb, bones, i).unwrap() as usize,
        point_bone(limb, bones, i + 1).unwrap() as usize,
        block,
    )
}

/// The vertices of the quads over the first `pairs` segments of `limb`.
pub open spec fn mesh_vertices(
    limb: LimbModel,
    origin: Point3,
    bones: Seq<BoneModel>,
    block: (i32, i32),
    pairs: int,
) -> Seq<Vertex>
    decreases pairs,
{
    if pairs <= 0 {
        Seq::empty()
    } else {
        mesh_vertices(limb, origin, bones, block, pairs - 1) + pair_vertices(
            limb,
            origin,
            bones,
            block,
            pairs - 1,
        )
    }
}

/// The mesh of `limb` at `origin`: a quad over every segment between two of
/// its points.
pub open spec fn limb_mesh(
    limb: LimbModel,
    origin: Point3,
    bones: Seq<BoneModel>,
    block: (i32, i32),
) -> Seq<Vertex> {
    mesh_vertices(limb, origin, bones, block, limb.body.len() - 1)
}

/// The weights of a vertex's bones sum to `ONE`.
pub open spec fn weights_sum_to_one(v: Vertex) -> bool {
    v.weights[0] + v.weights[1] + v.weights[2] + v.weights[3] == ONE
}

/// Each of a vertex's four bones is a bone of the skeleton.
pub open spec fn bones_exist(v: Vertex, bones: Seq<BoneModel>) -> bool {
    forall|k: int| 0 <= k < 4 ==> (#[trigger] v.bones[k]) < bones.len()
}

/// Every vertex of a quad has weights that sum to `ONE` and names bones of
/// the skeleton only, where the quad's two bones are bones of the skeleton.
pub proof fn lemma_vertex_skin(
    corners: [(i64, i64); 5],
    z: i64,
    pair: PairTextures,
    col: int,
    near: usize,
    far: usize,
    block: (i32, i32),
    k: int,
    bones: Seq<BoneModel>,
)
    requires
        near < bones.len(),
        far < bones.len(),
    ensures
        weights_sum_to_one(quad_vertex(corners, z, pair, col, near, far, block, k)),
        bones_exist(quad_vertex(corners, z, pair, col, near, far, block, k), bones),
{
    let v = quad_vertex(corners, z, pair, col, near, far, block, k);
    assert(v.bones[0] < bones.len());
    assert(v.bones[1] < bones.len());
    assert(v.bones[2] < bones.len());
    assert(v.bones[3] < bones.len());
}

/// Every vertex of a limb's mesh has weights that sum to `ONE` and names
/// bones of the skeleton only.
pub proof fn lemma_mesh_skin(
    limb: LimbModel,
    origin: Point3,
    bones: Seq<BoneModel>,
    block: (i32, i32),
    pairs: int,
)
    requires
        0 <= pairs <= limb.body.len() - 1,
        forall|i: int| 0 <= i < pairs ==> pair_ready(limb, bones, i),
        bones.len() <= usize::MAX,
    ensures
        mesh_vertices(limb, origin, bones, block, pairs).len() == 12 * pairs,
        forall|k: int|
            0 <= k < 12 * pairs ==> weights_sum_to_one(
                #[trigger] mesh_vertices(limb, origin, bones, block, pairs)[k],
            ) && bones_exist(mesh_vertices(limb, origin, bones, block, pairs)[k], bones),
    decreases pairs,
{
    if pairs > 0 {
        lemma_mesh_skin(limb, origin, bones, block, pairs - 1);
        let before = mesh_vertices(limb, origin, bones, block, pairs - 1);
        let here = pair_vertices(limb, origin, bones, block, pairs - 1);
        let all = mesh_vertices(limb, origin, bones, block, pairs);
        assert forall|k: int| 0 <= k < 12 * pairs implies weights_sum_to_one(#[trigger] all[k])
            && bones_exist(all[k], bones) by {
            if k >= 12 * (pairs - 1) {
                let j = k - 12 * (pairs - 1);
                let i = pairs - 1;
                assert(all[k] == here[j]);
                assert(pair_ready(limb, bones, i));
                crate::skeleton::lemma_first_named(bones, bone_name(limb.name, i as nat));
                crate::skeleton::lemma_first_named(bones, bone_name(limb.name, (i + 1) as nat));
                lemma_vertex_skin(
                    quad_corners(limb, origin, i),
                    origin.z,
                    align(limb.body[i].textures, limb.body[i + 1].textures).unwrap(),
                    i + limb.texture_displacement,
                    point_bone(limb, bones, i).unwrap() as usize,
                    point_bone(limb, bones, i + 1).unwrap() as usize,
                    block,
                    j,
                    bones,
                );
            } else {
                assert(all[k] == before[k]);
            }
        }
    }
}

/// How the slots of a near and a far point go together.
fn align_slots(a: &[TextureSlot; 2], b: &[TextureSlot; 2]) -> (pair: Option<PairTextures>)
    ensures
        pair == align(slots_model(*a), slots_model(*b)),
{
    match (a[0], a[1], b[0], b[1]) {
        (Some(a0), None, Some(b0), None) => {
            if a0.0 == b0.0 {
                Some(
                    PairTextures {
                        first_cell: a0.0,
                        near_weight: a0.1,
                        far_weight: b0.1,
                        second_cell: None,
                    },
                )
            } else {
                None
            }
        },
        (Some(a0), None, Some(b0), Some(b1)) => {
            if a0.0 == b0.0 {
                Some(
                    PairTextures {
                        first_cell: a0.0,
                        near_weight: a0.1,
                        far_weight: b0.1,
                        second_cell: Some(b1.0),
                    },
                )
            } else if a0.0 == b1.0 {
                Some(
                    PairTextures {
                        first_cell: b0.0,
                        near_weight: 0,
                        far_weight: b0.1,
                        second_cell: Some(a0.0),
                    },
                )
            } else {
                None
            }
        },
        (Some(a0), Some(a1), Some(b0), None) => {
            if b0.0 == a0.0 {
                Some(
                    PairTextures {
                        first_cell: a0.0,
                        near_weight: a0.1,
                        far_weight: b0.1,
                        second_cell: Some(a1.0),
                    },
                )
            } else if b0.0 == a1.0 {
                Some(
                    PairTextures {
                        first_cell: a0.0,
                        near_weight: a0.1,
                        far_weight: 0,
                        second_cell: Some(a1.0),
                    },
                )
            } else {
                None
            }
        },
        (Some(a0), Some(a1), Some(b0), Some(b1)) => {
            if a0.0 == b0.0 && a1.0 == b1.0 {
                Some(
                    PairTextures {
                        first_cell: a0.0,
                        near_weight: a0.1,
                        far_weight: b0.1,
                        second_cell: Some(a1.0),
                    },
                )
            } else if a0.0 == b1.0 && a1.0 == b0.0 {
                Some(
                    PairTextures {
                        first_cell: a1.0,
                        near_weight: a1.1,
                        far_weight: b0.1,
                        second_cell: Some(a0.0),
                    },
                )
            } else {
                None
            }
        },
        _ => None,
    }
}

/// The offset from the middle of a cross-section to its edge.
fn side_offset_of(dx: i64, dy: i64, size: i32) -> (offset: (i64, i64))
    requires
        -0x1_0000_0000 <= dx <= 0x1_0000_0000,
        -0x1_0000_0000 <= dy <= 0x1_0000_0000,
    ensures
        offset.0 == side_offset(dx as int, dy as int, size as int).0,
        offset.1 == side_offset(dx as int, dy as int, size as int).1,
        -0x4000_0000 <= offset.0 <= 0x4000_0000,
        -0x4000_0000 <= offset.1 <= 0x4000_0000,
{
    let len: u64 = fine_length_of(dy, -dx);
    let half: i64 = (size as i64) * 32768;
    proof {
        lemma_fine_length_covers(dy as int, -dx as int);
        assert(magnitude(half as int) / (FINE as int) <= 0x4000_0000);
    }
    (rescale_to(dy, half, len), rescale_to(-dx, half, len))
}

/// The place of corner `c` of a quad in the quad's own frame.
fn corner_uv_of(c: usize) -> (uv: (i32, i32))
    ensures
        uv.0 == corner_uv(c as int).0,
        uv.1 == corner_uv(c as int).1,
        0 <= uv.0 <= ONE,
        0 <= uv.1 <= ONE,
{
    if c == 0 {
        (0, 0)
    } else if c == 1 {
        (0, ONE)
    } else if c == 2 {
        (ONE, ONE)
    } else if c == 3 {
        (ONE, 0)
    } else {
        (ONE / 2, ONE / 2)
    }
}

/// One coordinate of a place in the atlas: `(cell + c) * block`.
fn atlas_coordinate(block: i32, cell: usize, c: i32) -> (u: i64)
    requires
        cell <= 2 * MAX_CELL,
        0 <= c <= ONE,
    ensures
        u == trunc_div((cell * ONE + c) * block, ONE as int),
{
    let scaled: i128 = (cell as i128) * (ONE as i128) + (c as i128);
    assert(0 <= scaled <= 0x400_0000_0000);
    assert(-0x400_0000_0000 * 0x8000_0000 <= scaled * block <= 0x400_0000_0000 * 0x8000_0000)
        by (nonlinear_arith)
        requires
            0 <= scaled <= 0x400_0000_0000,
            -0x8000_0000 <= block <= 0x8000_0000,
    ;
    proof {
        lemma_trunc_div_bounds(
            scaled * block,
            ONE as int,
            -0x2000_0000_0000_0000,
            0x2000_0000_0000_0000,
        );
    }
    quotient(scaled * (block as i128), ONE as i128) as i64
}

/// The place in the atlas of the point `(cu, cv)` of a cell.
fn get_uv(block: (i32, i32), col: usize, row: usize, cu: i32, cv: i32) -> (uv: (i64, i64))
    requires
        col <= 2 * MAX_CELL,
        row <= MAX_CELL,
        0 <= cu <= ONE,
        0 <= cv <= ONE,
    ensures
        uv.0 == cell_uv(block, col as int, row as int, cu as int, cv as int).0,
        uv.1 == cell_uv(block, col as int, row as int, cu as int, cv as int).1,
{
    (atlas_coordinate(block.0, col, cu), atlas_coordinate(block.1, row, cv))
}

/// The bones of a vertex and their weights.
fn skin_of(near: usize, far: usize, cu: i32) -> (skinned: ([usize; 4], [u32; 4]))
    ensures
        skinned == skin(near, far, cu as int),
{
    if cu < ONE / 4 {
        ([near, 0, 0, 0], [ONE as u32, 0, 0, 0])
    } else if cu > ONE / 4 * 3 {
        ([far, 0, 0, 0], [ONE as u32, 0, 0, 0])
    } else {
        ([near, far, 0, 0], [(ONE / 2) as u32, (ONE / 2) as u32, 0, 0])
    }
}

/// Vertex `k` of the twelve of a quad, from the quad's five corner positions.
fn make_vertex(
    corners: &[(i64, i64); 5],
    z: i64,
    pair: PairTextures,
    col: usize,
    near_bone: usize,
    far_bone: usize,
    block: (i32, i32),
    k: usize,
) -> (v: Vertex)
    requires
        k < 12,
        col <= 2 * MAX_CELL,
        pair.first_cell <= MAX_CELL,
        pair.second_cell matches Some(cell) ==> cell <= MAX_CELL,
    ensures
        v == quad_vertex(*corners, z, pair, col as int, near_bone, far_bone, block, k as int),
{
    let t: usize = k / 3;
    let s: usize = k % 3;
    let c: usize = if s == 2 {
        4
    } else {
        (t + s) % 4
    };
    let corner: (i32, i32) = corner_uv_of(c);
    let uv: (i64, i64) = get_uv(block, col, pair.first_cell, corner.0, corner.1);
    let second_uv: (i64, i64) = match pair.second_cell {
        Some(cell) => get_uv(block, col, cell, corner.0, corner.1),
        None => (0, 0),
    };
    let blend: u32 = match pair.second_cell {
        Some(_) => if corner.0 == 0 {
            pair.near_weight
        } else {
            pair.far_weight
        },
        None => ONE as u32,
    };
    let skinned: ([usize; 4], [u32; 4]) = skin_of(near_bone, far_bone, corner.0);
    let v = Vertex {
        position: Point3 { x: corners[c].0, y: corners[c].1, z },
        uv,
        second_uv,
        blend,
        triangle: t,
        bones: skinned.0,
        weights: skinned.1,
    };
    proof {
        let want = quad_vertex(*corners, z, pair, col as int, near_bone, far_bone, block, k as int);
        assert(v.position == want.position);
        assert(v.uv == want.uv);
        assert(v.second_uv == want.second_uv);
        assert(v.blend == want.blend);
    }
    v
}

/// Appends the twelve vertices of a quad to `vertices`.
fn push_quad(
    vertices: &mut Vec<Vertex>,
    corners: &[(i64, i64); 5],
    z: i64,
    pair: PairTextures,
    col: usize,
    near_bone: usize,
    far_bone: usize,
    block: (i32, i32),
)
    requires
        col <= 2 * MAX_CELL,
        pair.first_cell <= MAX_CELL,
        pair.second_cell matches Some(cell) ==> cell <= MAX_CELL,
    ensures
        final(vertices)@ == old(vertices)@ + quad_vertices(
            *corners,
            z,
            pair,
            col as int,
            near_bone,
            far_bone,
            block,
        ),
{
    let ghost all = quad_vertices(*corners, z, pair, col as int, near_bone, far_bone, block);
    let mut k: usize = 0;
    while k < 12
        invariant
            k <= 12,
            col <= 2 * MAX_CELL,
            pair.first_cell <= MAX_CELL,
            pair.second_cell matches Some(cell) ==> cell <= MAX_CELL,
            all == quad_vertices(*corners, z, pair, col as int, near_bone, far_bone, block),
            vertices@ == old(vertices)@ + all.subrange(0, k as int),
        decreases 12 - k,
    {
        let v: Vertex = make_vertex(corners, z, pair, col, near_bone, far_bone, block, k);
        vertices.push(v);
        proof {
            assert(all[k as int] == v);
            assert(all.subrange(0, k + 1) =~= all.subrange(0, k as int).push(v));
        }
        k += 1;
    }
    proof {
        assert(all.subrange(0, 12) =~= all);
    }
}

/// The textures of the quad over segment `i`, where its two points' slots go
/// together and their cells are within `MAX_CELL`.
fn quad_textures(limb: &Limb, i: usize) -> (pair: Option<PairTextures>)
    requires
        i + 1 < limb.body@.len(),
    ensures
        match pair {
            Some(p) => {
                &&& align(limb@.body[i as int].textures, limb@.body[i + 1].textures) == Some(p)
                &&& p.first_cell <= MAX_CELL
                &&& p.second_cell matches Some(cell) ==> cell <= MAX_CELL
            },
            None => !(align(limb@.body[i as int].textures, limb@.body[i + 1].textures) matches Some(
                p,
            ) && p.first_cell <= MAX_CELL && (p.second_cell matches Some(cell) ==> cell
                <= MAX_CELL)),
        },
{
    let n: usize = limb.body.len();
    let first = &limb.body[i];
    let second = &limb.body[i + 1];
    assert(first@ == limb@.body[i as int]);
    assert(second@ == limb@.body[i + 1]);
    match align_slots(&first.texture_indices, &second.texture_indices) {
        Some(pair) => {
            let second_fits: bool = match pair.second_cell {
                Some(cell) => cell <= MAX_CELL,
                None => true,
            };
            if pair.first_cell <= MAX_CELL && second_fits {
                Some(pair)
            } else {
                None
            }
        },
        None => None,
    }
}

/// The bones of the two points of segment `i`, where both have one.
fn quad_bones(limb: &Limb, skeleton: &Skeleton, i: usize) -> (found: Option<(usize, usize)>)
    requires
        i < usize::MAX,
    ensures
        match found {
            Some((near, far)) => point_bone(limb@, skeleton@, i as int) == Some(near as int)
                && point_bone(limb@, skeleton@, i + 1) == Some(far as int),
            None => point_bone(limb@, skeleton@, i as int) is None || point_bone(
                limb@,
                skeleton@,
                i + 1,
            ) is None,
        },
{
    let near_name: String = make_bone_name(limb.name.as_str(), i);
    let far_name: String = make_bone_name(limb.name.as_str(), i + 1);
    match skeleton.get_bone_id(near_name.as_str()) {
        Some(near) => match skeleton.get_bone_id(far_name.as_str()) {
            Some(far) => Some((near, far)),
            None => None,
        },
        None => None,
    }
}

/// The positions of the five corners of the quad over segment `i`, when the
/// cursor stands at `at`.
fn quad_corners_of(limb: &Limb, origin: Point3, i: usize, at: (i64, i64)) -> (corners: [(i64, i64); 5])
    requires
        i + 1 < limb.body@.len() <= MAX_SEGMENTS,
        -REACH <= origin.x <= REACH,
        -REACH <= origin.y <= REACH,
        at.0 == cursor(limb@, origin, i as int).0,
        at.1 == cursor(limb@, origin, i as int).1,
    ensures
        corners == quad_corners(limb@, origin, i as int),
{
    let ghost model = limb@;
    let first = &limb.body[i];
    let second = &limb.body[i + 1];
    let before: Vec2 = if i == 0 {
        first.dir
    } else {
        limb.body[i - 1].dir
    };
    proof {
        assert(first@ == model.body[i as int]);
        assert(second@ == model.body[i + 1]);
        assert(before == incoming_dir(model, i as int));
        lemma_cursor_bound(model, origin, i as int);
    }
    let near: (i64, i64) = if first.discontinuous {
        side_offset_of(before.x as i64, before.y as i64, first.size)
    } else {
        side_offset_of(
            first.dir.x as i64 + before.x as i64,
            first.dir.y as i64 + before.y as i64,
            first.size,
        )
    };
    let far: (i64, i64) = if second.discontinuous {
        near
    } else {
        side_offset_of(
            second.dir.x as i64 + first.dir.x as i64,
            second.dir.y as i64 + first.dir.y as i64,
            second.size,
        )
    };
    assert(near.0 == near_offset(model, i as int).0 && near.1 == near_offset(model, i as int).1);
    assert(far.0 == far_offset(model, i as int).0 && far.1 == far_offset(model, i as int).1);
    let dx: i64 = first.dir.x as i64;
    let dy: i64 = first.dir.y as i64;
    let corners: [(i64, i64); 5] = [
        (at.0 - near.0, at.1 - near.1),
        (at.0 + near.0, at.1 + near.1),
        (at.0 + far.0 + dx, at.1 + far.1 + dy),
        (at.0 - far.0 + dx, at.1 - far.1 + dy),
        (at.0 + dx / 2, at.1 + dy / 2),
    ];
    proof {
        let want = quad_corners(model, origin, i as int);
        assert(corners[0] == want[0]);
        assert(corners[1] == want[1]);
        assert(corners[2] == want[2]);
        assert(corners[3] == want[3]);
        assert(corners[4] == want[4]);
        assert(corners =~= want);
    }
    corners
}

/// The cursor stays within reach of the origin: each segment moves it by
/// less than `2^31` steps either way.
proof fn lemma_cursor_bound(limb: LimbModel, origin: Point3, i: int)
    requires
        0 <= i <= limb.body.len(),
    ensures
        origin.x - i * 0x8000_0000 <= cursor(limb, origin, i).0 <= origin.x + i * 0x8000_0000,
        origin.y - i * 0x8000_0000 <= cursor(limb, origin, i).1 <= origin.y + i * 0x8000_0000,
    decreases i,
{
    if i > 0 {
        lemma_cursor_bound(limb, origin, i - 1);
    }
}

/// The mesh of `limb` at `origin`, skinned to the bones of `skeleton` that
/// have the names of the limb's points; nothing where the limb cannot get a
/// mesh. `block` is the size of a texture cell in the atlas.
pub fn try_create_limb_mesh(limb: &Limb, origin: Point3, skeleton: &Skeleton, block: (i32, i32)) -> (mesh:
    Option<LimbMesh>)
    ensures
        mesh is Some <==> limb_mesh_ready(limb@, origin, skeleton@),
        mesh matches Some(m) ==> {
            &&& m@.vertices == limb_mesh(limb@, origin, skeleton@, block)
            &&& m@.depth == 0
            &&& m@.vertices.len() == 12 * (limb@.body.len() - 1)
            &&& forall|k: int|
                0 <= k < m@.vertices.len() ==> weights_sum_to_one(#[trigger] m@.vertices[k])
                    && bones_exist(m@.vertices[k], skeleton@)
        },
{
    let n: usize = limb.body.len();
    if n < 1 || n > MAX_SEGMENTS || origin.x < -REACH || origin.x > REACH || origin.y < -REACH
        || origin.y > REACH || limb.texture_displacement > MAX_CELL {
        return None;
    }
    let ghost model = limb@;
    let ghost bones = skeleton@;
    let mut vertices: Vec<Vertex> = Vec::new();
    let mut at: (i64, i64) = (origin.x, origin.y);
    let pairs: Vec<(usize, usize)> = neighbour_pairs(n);
    let mut k: usize = 0;
    while k < pairs.len()
        invariant
            1 <= n <= MAX_SEGMENTS,
            n == limb.body@.len(),
            model == limb@,
            bones == skeleton@,
            pairs@.len() == n - 1,
            forall|j: int|
                0 <= j < pairs@.len() ==> (#[trigger] pairs@[j]) == (j as usize, (j + 1) as usize),
            k <= n - 1,
            -REACH <= origin.x <= REACH,
            -REACH <= origin.y <= REACH,
            limb.texture_displacement <= MAX_CELL,
            at.0 == cursor(model, origin, k as int).0,
            at.1 == cursor(model, origin, k as int).1,
            forall|j: int| 0 <= j < k ==> pair_ready(model, bones, j),
            vertices@ == mesh_vertices(model, origin, bones, block, k as int),
        decreases n - 1 - k,
    {
        let i: usize = pairs[k].0;
        assert(i == k);
        let pair: PairTextures = match quad_textures(limb, i) {
            Some(pair) => pair,
            None => {
                assert(!pair_ready(model, bones, i as int));
                return None;
            },
        };
        let (near_bone, far_bone): (usize, usize) = match quad_bones(limb, skeleton, i) {
            Some(found) => found,
            None => {
                assert(!pair_ready(model, bones, i as int));
                return None;
            },
        };
        assert(pair_ready(model, bones, i as int));
        let corners: [(i64, i64); 5] = quad_corners_of(limb, origin, i, at);
        let col: usize = i + limb.texture_displacement;
        push_quad(&mut vertices, &corners, origin.z, pair, col, near_bone, far_bone, block);
        proof {
            lemma_cursor_bound(model, origin, i + 1);
            assert(limb.body@[i as int]@ == model.body[i as int]);
        }
        at = (at.0 + limb.body[i].dir.x as i64, at.1 + limb.body[i].dir.y as i64);
        k += 1;
    }
    let count: usize = skeleton.get_bone_count();
    proof {
        lemma_mesh_skin(model, origin, bones, block, n - 1);
    }
    Some(LimbMesh { vertices, depth: 0 })
}

/// The mesh of `limb` at `origin`: see `try_create_limb_mesh`.
pub fn create_limb_mesh(limb: &Limb, origin: Point3, skeleton: &Skeleton, block: (i32, i32)) -> (mesh:
    LimbMesh)
    requires
        limb_mesh_ready(limb@, origin, skeleton@),
    ensures
        mesh@.vertices == limb_mesh(limb@, origin, skeleton@, block),
        mesh@.depth == 0,
        mesh@.vertices.len() == 12 * (limb@.body.len() - 1),
        forall|k: int|
            0 <= k < mesh@.vertices.len() ==> weights_sum_to_one(#[trigger] mesh@.vertices[k])
                && bones_exist(mesh@.vertices[k], skeleton@),
{
    match try_create_limb_mesh(limb, origin, skeleton, block) {
        Some(mesh) => mesh,
        None => {
            proof {
                assert(false);
            }
            LimbMesh { vertices: Vec::new(), depth: 0 }
        },
    }
}

} // verus!
