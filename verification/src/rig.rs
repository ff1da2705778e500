//! The rig of a whole body: its skeleton and one mesh for every limb.
//!
//! The meshes come in the order of the skeleton's limbs: a limb first, then
//! the limbs that grow from it, the last point's limbs first. A limb's mesh
//! starts where the limb grows from, moved by the limb's displacement; the
//! limbs that grow from its points start at the cursor of those points.

use crate::geometry::Point3;
use crate::mesh::{
    bones_exist, cursor, lemma_limb_ready, limb_mesh, limb_mesh_ready, limb_shaped, pair_ready,
    pair_shaped, point_bone, try_create_limb_mesh, weights_sum_to_one, LimbMesh, LimbMeshModel,
    MAX_SEGMENTS, REACH,
};
use crate::model::{Animal, Limb, LimbModel};
use crate::model::{point_count, point_count_below, point_count_of};
use crate::skeleton::{
    bone_name, chain_bones, child_bones, create_animal_skeleton, lemma_bone_count,
    lemma_child_block, lemma_first_named, lemma_found_by_name, limb_bones, names_are_unique,
    skeleton_of, BoneModel, Skeleton,
};
use vstd::prelude::*;

verus! {

/// A skeleton and the meshes that hang on it.
#[derive(Debug, PartialEq)]
pub struct Rig {
    pub skeleton: Skeleton,
    pub meshes: Vec<LimbMesh>,
}

/// The models of a vector of meshes, in order.
pub open spec fn meshes_model(meshes: Seq<LimbMesh>) -> Seq<LimbMeshModel> {
    Seq::new(meshes.len(), |i: int| meshes[i]@)
}

/// Where every body starts.
pub open spec fn start() -> Point3 {
    Point3 { x: 0, y: 0, z: 0 }
}

/// Where the mesh of `limb` starts, when the limb grows from `at`.
pub open spec fn limb_origin(limb: LimbModel, at: Point3) -> Point3 {
    Point3 {
        x: (at.x + limb.displacement.x) as i64,
        y: (at.y + limb.displacement.y) as i64,
        z: at.z,
    }
}

/// Where the limbs that grow from point `p` of `limb` start, when `limb`
/// itself grows from `at`.
pub open spec fn child_origin(limb: LimbModel, at: Point3, p: int) -> Point3 {
    Point3 { x: cursor(limb, at, p).0 as i64, y: cursor(limb, at, p).1 as i64, z: at.z }
}

/// The mesh of `limb`, which grows from `at`, moved in depth by the limb's
/// displacement.
pub open spec fn own_mesh(
    limb: LimbModel,
    at: Point3,
    bones: Seq<BoneModel>,
    block: (i32, i32),
) -> LimbMeshModel {
    LimbMeshModel {
        vertices: limb_mesh(limb, limb_origin(limb, at), bones, block),
        depth: limb.displacement.z,
    }
}

/// The meshes of `limb`, which grows from `at`, and of every limb below it.
pub open spec fn limb_meshes(
    limb: LimbModel,
    at: Point3,
    bones: Seq<BoneModel>,
    block: (i32, i32),
) -> Seq<LimbMeshModel>
    decreases limb, 1int, 0int,
{
    seq![own_mesh(limb, at, bones, block)] + child_meshes(
        limb,
        at,
        bones,
        block,
        limb.body.len() as int,
    )
}

/// The meshes of the limbs that grow from the first `upto` points of `limb`,
/// the last of these points first.
pub open spec fn child_meshes(
    limb: LimbModel,
    at: Point3,
    bones: Seq<BoneModel>,
    block: (i32, i32),
    upto: int,
) -> Seq<LimbMeshModel>
    decreases limb, 0int, upto,
{
    if upto <= 0 || upto > limb.body.len() {
        Seq::empty()
    } else {
        point_limb_meshes(
            limb.body[upto - 1].limbs,
            child_origin(limb, at, upto - 1),
            bones,
            block,
            limb.body[upto - 1].limbs.len() as int,
        ) + child_meshes(limb, at, bones, block, upto - 1)
    }
}

/// The meshes of the first `upto` limbs of `limbs`, the last of them first,
/// all growing from `at`.
pub open spec fn point_limb_meshes(
    limbs: Seq<LimbModel>,
    at: Point3,
    bones: Seq<BoneModel>,
    block: (i32, i32),
    upto: int,
) -> Seq<LimbMeshModel>
    decreases limbs, 0int, upto,
{
    if upto <= 0 || upto > limbs.len() {
        Seq::empty()
    } else {
        limb_meshes(limbs[upto - 1], at, bones, block) + point_limb_meshes(
            limbs,
            at,
            bones,
            block,
            upto - 1,
        )
    }
}

/// Whether `limb`, growing from `at`, and every limb below it can get a mesh.
pub open spec fn tree_ready(limb: LimbModel, at: Point3, bones: Seq<BoneModel>) -> bool
    decreases limb, 1int, 0int,
{
    limb_mesh_ready(limb, limb_origin(limb, at), bones) && children_ready(
        limb,
        at,
        bones,
        limb.body.len() as int,
    )
}

/// Whether the limbs that grow from the first `upto` points of `limb` can all
/// get a mesh.
pub open spec fn children_ready(limb: LimbModel, at: Point3, bones: Seq<BoneModel>, upto: int) -> bool
    decreases limb, 0int, upto,
{
    if upto <= 0 || upto > limb.body.len() {
        true
    } else {
        point_limbs_ready(
            limb.body[upto - 1].limbs,
            child_origin(limb, at, upto - 1),
            bones,
            limb.body[upto - 1].limbs.len() as int,
        ) && children_ready(limb, at, bones, upto - 1)
    }
}

/// Whether the first `upto` limbs of `limbs`, growing from `at`, can all get
/// a mesh.
pub open spec fn point_limbs_ready(limbs: Seq<LimbModel>, at: Point3, bones: Seq<BoneModel>, upto: int) -> bool
    decreases limbs, 0int, upto,
{
    if upto <= 0 || upto > limbs.len() {
        true
    } else {
        tree_ready(limbs[upto - 1], at, bones) && point_limbs_ready(limbs, at, bones, upto - 1)
    }
}

/// Every vertex of the mesh has weights that sum to `ONE` and names bones of
/// the skeleton only.
pub open spec fn mesh_skinned(mesh: LimbMeshModel, bones: Seq<BoneModel>) -> bool {
    forall|k: int|
        0 <= k < mesh.vertices.len() ==> weights_sum_to_one(#[trigger] mesh.vertices[k])
            && bones_exist(mesh.vertices[k], bones)
}

/// Every mesh in the sequence is skinned.
pub open spec fn all_skinned(meshes: Seq<LimbMeshModel>, bones: Seq<BoneModel>) -> bool {
    forall|m: int| 0 <= m < meshes.len() ==> mesh_skinned(#[trigger] meshes[m], bones)
}

/// In the meshes of a body that is ready, every vertex has bone weights that
/// sum to `ONE`, and every bone it names is a bone of the skeleton.
pub proof fn lemma_tree_skinned(
    limb: LimbModel,
    at: Point3,
    bones: Seq<BoneModel>,
    block: (i32, i32),
)
    requires
        tree_ready(limb, at, bones),
        bones.len() <= usize::MAX,
    ensures
        all_skinned(limb_meshes(limb, at, bones, block), bones),
    decreases limb, 1int, 0int,
{
    lemma_children_skinned(limb, at, bones, block, limb.body.len() as int);
    crate::mesh::lemma_mesh_skin(
        limb,
        limb_origin(limb, at),
        bones,
        block,
        limb.body.len() - 1,
    );
    let own = own_mesh(limb, at, bones, block);
    assert(mesh_skinned(own, bones));
    let kids = child_meshes(limb, at, bones, block, limb.body.len() as int);
    let all = limb_meshes(limb, at, bones, block);
    assert forall|m: int| 0 <= m < all.len() implies mesh_skinned(#[trigger] all[m], bones) by {
        if m > 0 {
            assert(all[m] == kids[m - 1]);
        }
    }
}

/// The meshes of the limbs that grow from the first `upto` points of a ready
/// limb are skinned.
pub proof fn lemma_children_skinned(
    limb: LimbModel,
    at: Point3,
    bones: Seq<BoneModel>,
    block: (i32, i32),
    upto: int,
)
    requires
        children_ready(limb, at, bones, upto),
        bones.len() <= usize::MAX,
    ensures
        all_skinned(child_meshes(limb, at, bones, block, upto), bones),
    decreases limb, 0int, upto,
{
    if 0 < upto <= limb.body.len() {
        let limbs = limb.body[upto - 1].limbs;
        let from = child_origin(limb, at, upto - 1);
        lemma_point_limbs_skinned(limbs, from, bones, block, limbs.len() as int);
        lemma_children_skinned(limb, at, bones, block, upto - 1);
        let here = point_limb_meshes(limbs, from, bones, block, limbs.len() as int);
        let rest = child_meshes(limb, at, bones, block, upto - 1);
        let all = child_meshes(limb, at, bones, block, upto);
        assert forall|m: int| 0 <= m < all.len() implies mesh_skinned(#[trigger] all[m], bones) by {
            if m < here.len() {
                assert(all[m] == here[m]);
            } else {
                assert(all[m] == rest[m - here.len()]);
            }
        }
    }
}

/// The meshes of the first `upto` of some ready limbs are skinned.
pub proof fn lemma_point_limbs_skinned(
    limbs: Seq<LimbModel>,
    at: Point3,
    bones: Seq<BoneModel>,
    block: (i32, i32),
    upto: int,
)
    requires
        point_limbs_ready(limbs, at, bones, upto),
        bones.len() <= usize::MAX,
    ensures
        all_skinned(point_limb_meshes(limbs, at, bones, block, upto), bones),
    decreases limbs, 0int, upto,
{
    if 0 < upto <= limbs.len() {
        lemma_tree_skinned(limbs[upto - 1], at, bones, block);
        lemma_point_limbs_skinned(limbs, at, bones, block, upto - 1);
        let here = limb_meshes(limbs[upto - 1], at, bones, block);
        let rest = point_limb_meshes(limbs, at, bones, block, upto - 1);
        let all = point_limb_meshes(limbs, at, bones, block, upto);
        assert forall|m: int| 0 <= m < all.len() implies mesh_skinned(#[trigger] all[m], bones) by {
            if m < here.len() {
                assert(all[m] == here[m]);
            } else {
                assert(all[m] == rest[m - here.len()]);
            }
        }
    }
}

/// Whether `limb`, growing from `at`, and every limb below it has the shape
/// for a mesh.
pub open spec fn tree_shaped(limb: LimbModel, at: Point3) -> bool
    decreases limb, 1int, 0int,
{
    limb_shaped(limb, limb_origin(limb, at)) && children_shaped(limb, at, limb.body.len() as int)
}

/// Whether the limbs that grow from the first `upto` points of `limb` all
/// have the shape for a mesh.
pub open spec fn children_shaped(limb: LimbModel, at: Point3, upto: int) -> bool
    decreases limb, 0int, upto,
{
    if upto <= 0 || upto > limb.body.len() {
        true
    } else {
        point_limbs_shaped(
            limb.body[upto - 1].limbs,
            child_origin(limb, at, upto - 1),
            limb.body[upto - 1].limbs.len() as int,
        ) && children_shaped(limb, at, upto - 1)
    }
}

/// Whether the first `upto` limbs of `limbs`, growing from `at`, all have the
/// shape for a mesh.
pub open spec fn point_limbs_shaped(limbs: Seq<LimbModel>, at: Point3, upto: int) -> bool
    decreases limbs, 0int, upto,
{
    if upto <= 0 || upto > limbs.len() {
        true
    } else {
        tree_shaped(limbs[upto - 1], at) && point_limbs_shaped(limbs, at, upto - 1)
    }
}

/// Whether `part` stands together inside `whole`, from index `from` on.
pub open spec fn stands_in(part: Seq<BoneModel>, whole: Seq<BoneModel>, from: int) -> bool {
    0 <= from && from + part.len() <= whole.len() && whole.subrange(from, from + part.len())
        == part
}

/// A skeleton that holds the bones of a limb and of the limbs below it has a
/// bone for every point of them, and so they can all get a mesh if they have
/// the shape for it.
pub proof fn lemma_tree_fits(
    limb: LimbModel,
    at: Point3,
    parent: Option<int>,
    first: int,
    bones: Seq<BoneModel>,
    from: int,
)
    requires
        tree_shaped(limb, at),
        stands_in(limb_bones(limb, parent, first), bones, from),
    ensures
        tree_ready(limb, at, bones),
    decreases limb, 2int, 0int,
{
    let own = limb_bones(limb, parent, first);
    let n = limb.body.len() as int;
    lemma_bone_count(limb, parent, first);
    assert forall|i: int| 0 <= i < n implies (#[trigger] point_bone(limb, bones, i)) is Some by {
        assert(own[i] == chain_bones(limb, parent, first)[i]);
        assert(bones.subrange(from, from + own.len())[i] == bones[from + i]);
        lemma_first_named(bones, bone_name(limb.name, i as nat));
    }
    lemma_limb_ready(limb, limb_origin(limb, at), bones);
    lemma_children_fit(limb, at, parent, first, bones, from, n);
}

/// The limbs that grow from the first `upto` points of a limb whose bones
/// the skeleton holds can all get a mesh if they have the shape for it.
pub proof fn lemma_children_fit(
    limb: LimbModel,
    at: Point3,
    parent: Option<int>,
    first: int,
    bones: Seq<BoneModel>,
    from: int,
    upto: int,
)
    requires
        0 <= upto <= limb.body.len(),
        children_shaped(limb, at, upto),
        stands_in(limb_bones(limb, parent, first), bones, from),
    ensures
        children_ready(limb, at, bones, upto),
    decreases limb, 1int, upto,
{
    if upto > 0 {
        let limbs = limb.body[upto - 1].limbs;
        lemma_point_limbs_fit(limb, at, parent, first, bones, from, upto - 1, limbs.len() as int);
        lemma_children_fit(limb, at, parent, first, bones, from, upto - 1);
    }
}

/// The first `upto` limbs at point `p` of a limb whose bones the skeleton
/// holds can all get a mesh if they have the shape for it.
pub proof fn lemma_point_limbs_fit(
    limb: LimbModel,
    at: Point3,
    parent: Option<int>,
    first: int,
    bones: Seq<BoneModel>,
    from: int,
    p: int,
    upto: int,
)
    requires
        0 <= p < limb.body.len(),
        0 <= upto <= limb.body[p].limbs.len(),
        point_limbs_shaped(limb.body[p].limbs, child_origin(limb, at, p), upto),
        stands_in(limb_bones(limb, parent, first), bones, from),
    ensures
        point_limbs_ready(limb.body[p].limbs, child_origin(limb, at, p), bones, upto),
    decreases limb, 0int, upto,
{
    if upto > 0 {
        let limbs = limb.body[p].limbs;
        let child = limbs[upto - 1];
        let n = limb.body.len() as int;
        let own = limb_bones(limb, parent, first);
        let kids = child_bones(limb, first, first + n, n);
        lemma_child_block(limb, first, first + n, n, p, upto - 1);
        let inner = (point_count_below(limb, n) - point_count_below(limb, p + 1)) + (point_count_of(
            limbs,
            limbs.len() as int,
        ) - point_count_of(limbs, upto));
        let size = point_count(child) as int;
        let block = limb_bones(child, Some(first + p), first + n + inner);
        assert(kids.subrange(inner, inner + size) == block);
        assert(own.subrange(n + inner, n + inner + size) =~= kids.subrange(inner, inner + size));
        lemma_bone_count(child, Some(first + p), first + n + inner);
        assert(bones.subrange(from + n + inner, from + n + inner + size) =~= bones.subrange(
            from,
            from + own.len(),
        ).subrange(n + inner, n + inner + size));
        lemma_tree_fits(
            child,
            child_origin(limb, at, p),
            Some(first + p),
            first + n + inner,
            bones,
            from + n + inner,
        );
        lemma_point_limbs_fit(limb, at, parent, first, bones, from, p, upto - 1);
    }
}

/// In a skeleton whose bones have unique names, the bone that a point of a
/// limb is skinned to is the limb's own bone for that point: where the bones
/// of the limb stand in the skeleton from index `from` on, point `i` has bone
/// `from + i`.
pub proof fn lemma_skinned_to_own_bones(
    limb: LimbModel,
    parent: Option<int>,
    first: int,
    bones: Seq<BoneModel>,
    from: int,
    i: int,
)
    requires
        stands_in(limb_bones(limb, parent, first), bones, from),
        names_are_unique(bones),
        0 <= i < limb.body.len(),
    ensures
        point_bone(limb, bones, i) == Some(from + i),
{
    let own = limb_bones(limb, parent, first);
    lemma_bone_count(limb, parent, first);
    assert(own[i] == chain_bones(limb, parent, first)[i]);
    assert(bones.subrange(from, from + own.len())[i] == bones[from + i]);
    lemma_found_by_name(bones, from + i);
}

/// A limb that can get a mesh has the shape for it, and so has every limb
/// below it.
pub proof fn lemma_ready_is_shaped(limb: LimbModel, at: Point3, bones: Seq<BoneModel>)
    requires
        tree_ready(limb, at, bones),
    ensures
        tree_shaped(limb, at),
    decreases limb, 1int, 0int,
{
    let origin = limb_origin(limb, at);
    assert forall|i: int| 0 <= i < limb.body.len() - 1 implies pair_shaped(limb, i) by {
        assert(pair_ready(limb, bones, i));
    }
    lemma_children_ready_are_shaped(limb, at, bones, limb.body.len() as int);
}

/// The limbs that grow from the first `upto` points of a limb have the shape
/// for a mesh if they can get one.
pub proof fn lemma_children_ready_are_shaped(
    limb: LimbModel,
    at: Point3,
    bones: Seq<BoneModel>,
    upto: int,
)
    requires
        children_ready(limb, at, bones, upto),
    ensures
        children_shaped(limb, at, upto),
    decreases limb, 0int, upto,
{
    if 0 < upto <= limb.body.len() {
        let limbs = limb.body[upto - 1].limbs;
        lemma_point_limbs_ready_are_shaped(
            limbs,
            child_origin(limb, at, upto - 1),
            bones,
            limbs.len() as int,
        );
        lemma_children_ready_are_shaped(limb, at, bones, upto - 1);
    }
}

/// The first `upto` limbs of `limbs` have the shape for a mesh if they can
/// get one.
pub proof fn lemma_point_limbs_ready_are_shaped(
    limbs: Seq<LimbModel>,
    at: Point3,
    bones: Seq<BoneModel>,
    upto: int,
)
    requires
        point_limbs_ready(limbs, at, bones, upto),
    ensures
        point_limbs_shaped(limbs, at, upto),
    decreases limbs, 0int, upto,
{
    if 0 < upto <= limbs.len() {
        lemma_ready_is_shaped(limbs[upto - 1], at, bones);
        lemma_point_limbs_ready_are_shaped(limbs, at, bones, upto - 1);
    }
}

/// A body can get its meshes on its own skeleton exactly where it has the
/// shape for them: the skeleton of a body has a bone for every point of it.
pub proof fn lemma_own_skeleton_fits(body: LimbModel)
    ensures
        tree_ready(body, start(), skeleton_of(body)) <==> tree_shaped(body, start()),
{
    let bones = skeleton_of(body);
    if tree_shaped(body, start()) {
        assert(bones.subrange(0, bones.len() as int) =~= bones);
        lemma_tree_fits(body, start(), None, 0, bones, 0);
    }
    if tree_ready(body, start(), bones) {
        lemma_ready_is_shaped(body, start(), bones);
    }
}

/// The cursors of the points of `limb`, which grows from `at`.
fn cursors_of(limb: &Limb, at: Point3) -> (cursors: Vec<(i64, i64)>)
    requires
        limb.body@.len() <= MAX_SEGMENTS,
        -2 * REACH <= at.x <= 2 * REACH,
        -2 * REACH <= at.y <= 2 * REACH,
    ensures
        cursors@.len() == limb.body@.len(),
        forall|p: int|
            0 <= p < cursors@.len() ==> (#[trigger] cursors@[p]).0 == cursor(limb@, at, p).0
                && cursors@[p].1 == cursor(limb@, at, p).1,
        forall|p: int|
            0 <= p < cursors@.len() ==> -3 * REACH <= (#[trigger] cursors@[p]).0 <= 3 * REACH && -3
                * REACH <= cursors@[p].1 <= 3 * REACH,
{
    let mut cursors: Vec<(i64, i64)> = Vec::new();
    let mut here: (i64, i64) = (at.x, at.y);
    let mut p: usize = 0;
    while p < limb.body.len()
        invariant
            p <= limb.body@.len() <= MAX_SEGMENTS,
            -2 * REACH <= at.x <= 2 * REACH,
            -2 * REACH <= at.y <= 2 * REACH,
            cursors@.len() == p,
            here.0 == cursor(limb@, at, p as int).0,
            here.1 == cursor(limb@, at, p as int).1,
            at.x - p * 0x8000_0000 <= here.0 <= at.x + p * 0x8000_0000,
            at.y - p * 0x8000_0000 <= here.1 <= at.y + p * 0x8000_0000,
            forall|q: int|
                0 <= q < p ==> (#[trigger] cursors@[q]).0 == cursor(limb@, at, q).0 && cursors@[q].1
                    == cursor(limb@, at, q).1,
            forall|q: int|
                0 <= q < p ==> -3 * REACH <= (#[trigger] cursors@[q]).0 <= 3 * REACH && -3 * REACH
                    <= cursors@[q].1 <= 3 * REACH,
        decreases limb.body@.len() - p,
    {
        cursors.push(here);
        assert(limb.body@[p as int]@ == limb@.body[p as int]);
        here = (here.0 + limb.body[p].dir.x as i64, here.1 + limb.body[p].dir.y as i64);
        p += 1;
    }
    cursors
}

/// Appends to `meshes` the meshes of `limb`, which grows from `at`, and of
/// every limb below it. Tells whether all of them could get a mesh; where
/// one could not, what was appended is of no use.
fn push_limb_meshes(
    limb: &Limb,
    at: Point3,
    skeleton: &Skeleton,
    block: (i32, i32),
    meshes: &mut Vec<LimbMesh>,
) -> (ok: bool)
    requires
        -3 * REACH <= at.x <= 3 * REACH,
        -3 * REACH <= at.y <= 3 * REACH,
    ensures
        ok == tree_ready(limb@, at, skeleton@),
        ok ==> meshes_model(final(meshes)@) == meshes_model(old(meshes)@) + limb_meshes(
            limb@,
            at,
            skeleton@,
            block,
        ),
    decreases limb,
{
    let ghost model = limb@;
    let ghost bones = skeleton@;
    let origin = Point3 {
        x: at.x + limb.displacement.x as i64,
        y: at.y + limb.displacement.y as i64,
        z: at.z,
    };
    assert(origin == limb_origin(model, at));
    match try_create_limb_mesh(limb, origin, skeleton, block) {
        Some(mesh) => {
            let moved = LimbMesh { vertices: mesh.vertices, depth: limb.displacement.z };
            assert(moved@ == own_mesh(model, at, bones, block));
            meshes.push(moved);
        },
        None => {
            return false;
        },
    }
    let ghost own = seq![own_mesh(model, at, bones, block)];
    assert(meshes_model(meshes@) =~= meshes_model(old(meshes)@) + own);
    let cursors: Vec<(i64, i64)> = cursors_of(limb, at);
    let ghost n = model.body.len() as int;
    let mut p: usize = limb.body.len();
    while p > 0
        invariant
            p <= limb.body@.len(),
            model == limb@,
            bones == skeleton@,
            n == model.body.len(),
            cursors@.len() == n,
            forall|q: int|
                0 <= q < n ==> (#[trigger] cursors@[q]).0 == cursor(model, at, q).0 && cursors@[q].1
                    == cursor(model, at, q).1,
            forall|q: int|
                0 <= q < n ==> -3 * REACH <= (#[trigger] cursors@[q]).0 <= 3 * REACH && -3 * REACH
                    <= cursors@[q].1 <= 3 * REACH,
            children_ready(model, at, bones, n) == children_ready(model, at, bones, p as int),
            meshes_model(meshes@) + child_meshes(model, at, bones, block, p as int) == meshes_model(
                old(meshes)@,
            ) + own + child_meshes(model, at, bones, block, n),
        decreases p,
    {
        p -= 1;
        let point = &limb.body[p];
        let from = Point3 { x: cursors[p].0, y: cursors[p].1, z: at.z };
        let ghost limbs = model.body[p as int].limbs;
        let ghost at_point = meshes_model(meshes@);
        assert(from == child_origin(model, at, p as int));
        let mut j: usize = point.limbs.len();
        while j > 0
            invariant
                j <= point.limbs@.len(),
                p < limb.body@.len(),
                *point == limb.body@[p as int],
                model == limb@,
                bones == skeleton@,
                limbs == model.body[p as int].limbs,
                limbs.len() == point.limbs@.len(),
                n == model.body.len(),
                from == child_origin(model, at, p as int),
                children_ready(model, at, bones, n) == children_ready(model, at, bones, p + 1),
                -3 * REACH <= from.x <= 3 * REACH,
                -3 * REACH <= from.y <= 3 * REACH,
                point_limbs_ready(limbs, from, bones, limbs.len() as int) == point_limbs_ready(
                    limbs,
                    from,
                    bones,
                    j as int,
                ),
                meshes_model(meshes@) + point_limb_meshes(limbs, from, bones, block, j as int)
                    == at_point + point_limb_meshes(limbs, from, bones, block, limbs.len() as int),
            decreases j,
        {
            j -= 1;
            let ghost before = meshes_model(meshes@);
            assert(point.limbs@[j as int]@ == limbs[j as int]);
            let ok: bool = push_limb_meshes(&point.limbs[j], from, skeleton, block, meshes);
            if !ok {
                proof {
                    assert(!point_limbs_ready(limbs, from, bones, j + 1));
                    assert(!children_ready(model, at, bones, p + 1));
                    assert(!tree_ready(model, at, bones));
                }
                return false;
            }
            proof {
                let here = limb_meshes(limbs[j as int], from, bones, block);
                let rest = point_limb_meshes(limbs, from, bones, block, j as int);
                assert(before + (here + rest) =~= (before + here) + rest);
            }
        }
        proof {
            let here = point_limb_meshes(limbs, from, bones, block, limbs.len() as int);
            let rest = child_meshes(model, at, bones, block, p as int);
            assert(meshes_model(meshes@) + Seq::<LimbMeshModel>::empty() =~= meshes_model(meshes@));
            assert(at_point + (here + rest) =~= (at_point + here) + rest);
        }
    }
    proof {
        let kids = child_meshes(model, at, bones, block, n);
        assert(meshes_model(meshes@) + Seq::<LimbMeshModel>::empty() =~= meshes_model(meshes@));
        assert(meshes_model(old(meshes)@) + own + kids =~= meshes_model(old(meshes)@) + (own
            + kids));
    }
    true
}

/// One mesh for every limb of `animal`, skinned to `skeleton`; nothing where
/// a limb cannot get a mesh. `block` is the size of a texture cell.
pub fn try_create_animal_meshes(animal: &Animal, skeleton: &Skeleton, block: (i32, i32)) -> (meshes:
    Option<Vec<LimbMesh>>)
    ensures
        meshes is Some <==> tree_ready(animal@, start(), skeleton@),
        meshes matches Some(m) ==> meshes_model(m@) == limb_meshes(
            animal@,
            start(),
            skeleton@,
            block,
        ) && all_skinned(meshes_model(m@), skeleton@),
{
    let mut meshes: Vec<LimbMesh> = Vec::new();
    let at = Point3 { x: 0, y: 0, z: 0 };
    let ok: bool = push_limb_meshes(animal.body(), at, skeleton, block, &mut meshes);
    if ok {
        let count: usize = skeleton.get_bone_count();
        proof {
            assert(meshes_model(Seq::<LimbMesh>::empty()) + limb_meshes(
                animal@,
                start(),
                skeleton@,
                block,
            ) =~= limb_meshes(animal@, start(), skeleton@, block));
            lemma_tree_skinned(animal@, start(), skeleton@, block);
        }
        Some(meshes)
    } else {
        None
    }
}

/// One mesh for every limb of `animal`: see `try_create_animal_meshes`.
pub fn create_animal_meshes(animal: &Animal, skeleton: &Skeleton, block: (i32, i32)) -> (meshes: Vec<
    LimbMesh,
>)
    requires
        tree_ready(animal@, start(), skeleton@),
    ensures
        meshes_model(meshes@) == limb_meshes(animal@, start(), skeleton@, block),
        all_skinned(meshes_model(meshes@), skeleton@),
{
    match try_create_animal_meshes(animal, skeleton, block) {
        Some(meshes) => meshes,
        None => {
            proof {
                assert(false);
            }
            Vec::new()
        },
    }
}

/// The rig of `animal`: its skeleton and one mesh for every limb, skinned to
/// that skeleton; nothing where a limb cannot get a mesh.
pub fn try_create_animal(animal: &Animal, block: (i32, i32)) -> (rig: Option<Rig>)
    ensures
        rig is Some <==> tree_shaped(animal@, start()),
        rig matches Some(r) ==> {
            &&& r.skeleton@ == skeleton_of(animal@)
            &&& meshes_model(r.meshes@) == limb_meshes(
                animal@,
                start(),
                skeleton_of(animal@),
                block,
            )
            &&& all_skinned(meshes_model(r.meshes@), r.skeleton@)
        },
{
    let skeleton: Skeleton = create_animal_skeleton(animal);
    proof {
        lemma_own_skeleton_fits(animal@);
    }
    match try_create_animal_meshes(animal, &skeleton, block) {
        Some(meshes) => Some(Rig { skeleton, meshes }),
        None => None,
    }
}

/// The rig of `animal`: see `try_create_animal`.
pub fn create_animal(animal: &Animal, block: (i32, i32)) -> (rig: Rig)
    requires
        tree_shaped(animal@, start()),
    ensures
        rig.skeleton@ == skeleton_of(animal@),
        meshes_model(rig.meshes@) == limb_meshes(animal@, start(), skeleton_of(animal@), block),
        all_skinned(meshes_model(rig.meshes@), rig.skeleton@),
{
    match try_create_animal(animal, block) {
        Some(rig) => rig,
        None => {
            proof {
                assert(false);
            }
            Rig { skeleton: Skeleton::new(), meshes: Vec::new() }
        },
    }
}

} // verus!
