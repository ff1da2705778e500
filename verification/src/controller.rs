//! Driving a rig: which bones make up a limb, where each limb's target
//! moves, and how a limb is bent toward its target.
//!
//! The host that shows the rig knows where the bones are in the world. It
//! hands those positions in, and gets back the targets' moves and the bent
//! chains.

use crate::fixed::{floor_sqrt, isqrt, ONE};
use crate::geometry::Point2;
use crate::ik::{
    inverse_kinematics, reaches, solvable, solved_joints, turns_of, within, Solution, TARGET_REACH,
};
use crate::model::Vec2;
use crate::skeleton::{bone_name, first_named, make_bone_name, BoneModel, Skeleton};
use crate::trajectory::{
    advance, arc_value, clamp_point, clamp_to_reach, linear_value, resting, retarget, LinearTarget,
    ParabolicTarget, TargetState,
};
use rand::Rng;
use vstd::prelude::*;
use vstd::string::StringExecFns;

verus! {

/// The number of passes the solver makes for a limb in one frame.
pub const IK_ITERATIONS: usize = 10;

/// How far ahead of its root a leg steps, and how far behind.
pub const STRIDE: i64 = 800_000;

/// How far ahead of its root a front leg first stands, and how far behind
/// its root a back leg.
pub const STANCE: i64 = 400_000;

/// How far below its root a leg's target lies.
pub const DROP: i64 = 1_500_000;

/// How far ahead of its root the tail's target lies.
pub const TAIL_LEAD: i64 = 5_000_000;

/// The time a leg's step takes.
pub const STEP_TIME: u32 = 150_000;

/// The slope with which a leg's step rises.
pub const STEP_SLOPE: i32 = 200_000;

/// The time the tail's target takes for its way.
pub const TAIL_TIME: u32 = 1_000_000;

/// What a limb is driven as.
#[derive(Debug, Clone, Copy, PartialEq, Eq, Structural)]
pub enum LimbKind {
    /// Steps to a new target when it cannot reach the present one.
    Leg,
    /// Follows a target that sways ahead of its root.
    Tail,
}

/// The way a target moves.
#[derive(Debug, PartialEq)]
pub enum Path {
    Linear(LinearTarget),
    Parabolic(ParabolicTarget),
}

impl Path {
    /// What the target holds.
    pub open spec fn state(self) -> TargetState {
        match self {
            Path::Linear(t) => t@,
            Path::Parabolic(t) => t@,
        }
    }

    /// Where the target is.
    pub open spec fn value(self) -> Point2 {
        match self {
            Path::Linear(t) => linear_value(t@),
            Path::Parabolic(t) => arc_value(t@, t.slope()),
        }
    }

    /// Whether both paths are of one kind, with one slope.
    pub open spec fn alike(self, other: Path) -> bool {
        match (self, other) {
            (Path::Linear(_), Path::Linear(_)) => true,
            (Path::Parabolic(a), Path::Parabolic(b)) => a.slope() == b.slope(),
            _ => false,
        }
    }

    /// Where the target is now.
    pub fn target(&self) -> (p: Point2)
        ensures
            p == self.value(),
    {
        match self {
            Path::Linear(t) => t.target(),
            Path::Parabolic(t) => t.target(),
        }
    }

    /// Sets the target to `target`.
    pub fn update_target(&mut self, target: Point2)
        ensures
            final(self).state() == retarget(old(self).state(), target),
            final(self).alike(*old(self)),
    {
        match self {
            Path::Linear(t) => t.update_target(target),
            Path::Parabolic(t) => t.update_target(target),
        }
    }

    /// Lets `delta` more time pass.
    pub fn delta(&mut self, delta: u32)
        ensures
            final(self).state() == advance(old(self).state(), delta),
            final(self).alike(*old(self)),
    {
        match self {
            Path::Linear(t) => t.delta(delta),
            Path::Parabolic(t) => t.delta(delta),
        }
    }

    /// The time since the target was last set.
    pub fn elapsed(&self) -> (e: u64)
        ensures
            e == self.state().elapsed,
    {
        match self {
            Path::Linear(t) => t.elapsed(),
            Path::Parabolic(t) => t.elapsed(),
        }
    }
}

/// A limb and the target it is bent toward: the bones `start_bone` to
/// `end_bone` of the limb called `limb_name` make up the chain.
#[derive(Debug, PartialEq)]
pub struct LimbTarget {
    pub limb_name: String,
    pub kind: LimbKind,
    pub start_bone: usize,
    pub end_bone: usize,
    pub path: Path,
}

/// The bones of the limb called `name`, found among `bones` by their names,
/// as far as the first `k` of them go: bone `j` is the first bone called by
/// the limb's name and `j`, and the list ends before the first index for
/// which there is none.
pub open spec fn limb_ids_upto(bones: Seq<BoneModel>, name: Seq<char>, k: int) -> Seq<int>
    decreases k,
{
    if k <= 0 {
        Seq::empty()
    } else {
        let before = limb_ids_upto(bones, name, k - 1);
        match first_named(bones, bone_name(name, (k - 1) as nat)) {
            Some(id) => if before.len() == k - 1 {
                before.push(id)
            } else {
                before
            },
            None => before,
        }
    }
}

/// The bones of the limb called `name`: no more than the skeleton has bones.
pub open spec fn limb_ids(bones: Seq<BoneModel>, name: Seq<char>) -> Seq<int> {
    limb_ids_upto(bones, name, bones.len() as int)
}

/// The indices as mathematical integers.
pub open spec fn ids_model(ids: Seq<usize>) -> Seq<int> {
    Seq::new(ids.len(), |j: int| ids[j] as int)
}

/// The bones found for a limb are bones of the skeleton, and no more than
/// were looked for.
pub proof fn lemma_limb_ids(bones: Seq<BoneModel>, name: Seq<char>, k: int)
    requires
        0 <= k,
    ensures
        limb_ids_upto(bones, name, k).len() <= k,
        forall|j: int|
            0 <= j < limb_ids_upto(bones, name, k).len() ==> 0 <= (#[trigger] limb_ids_upto(
                bones,
                name,
                k,
            )[j]) < bones.len(),
    decreases k,
{
    if k > 0 {
        lemma_limb_ids(bones, name, k - 1);
        crate::skeleton::lemma_first_named(bones, bone_name(name, (k - 1) as nat));
    }
}

/// What `limb_ids_upto` lists: bone `j` of the list is the first bone called
/// by the limb's name and `j`, and where the list is shorter than `k`, no
/// bone is called by the limb's name and the length of the list.
pub proof fn lemma_limb_ids_found(bones: Seq<BoneModel>, name: Seq<char>, k: int)
    requires
        0 <= k,
    ensures
        limb_ids_upto(bones, name, k).len() <= k,
        forall|j: int|
            0 <= j < limb_ids_upto(bones, name, k).len() ==> first_named(
                bones,
                #[trigger] bone_name(name, j as nat),
            ) == Some(limb_ids_upto(bones, name, k)[j]),
        limb_ids_upto(bones, name, k).len() < k ==> first_named(
            bones,
            bone_name(name, limb_ids_upto(bones, name, k).len()),
        ) is None,
    decreases k,
{
    if k > 0 {
        lemma_limb_ids_found(bones, name, k - 1);
    }
}

/// The bones of the limb called `name`: the bones called by the limb's name
/// and 0, 1, 2 and so on, up to the first index for which there is none.
pub fn limb_bone_ids(skeleton: &Skeleton, name: &str) -> (ids: Vec<usize>)
    ensures
        ids_model(ids@) == limb_ids(skeleton@, name@),
        forall|j: int| 0 <= j < ids@.len() ==> (#[trigger] ids@[j]) < skeleton@.len(),
{
    let count: usize = skeleton.get_bone_count();
    let mut ids: Vec<usize> = Vec::new();
    let mut k: usize = 0;
    let mut going: bool = true;
    while k < count && going
        invariant
            k <= count,
            count == skeleton@.len(),
            ids_model(ids@) == limb_ids_upto(skeleton@, name@, k as int),
            going ==> ids@.len() == k,
            !going ==> limb_ids_upto(skeleton@, name@, k as int) == limb_ids(skeleton@, name@),
            forall|j: int| 0 <= j < ids@.len() ==> (#[trigger] ids@[j]) < skeleton@.len(),
        decreases count - k + (if going { 1int } else { 0int }),
    {
        let wanted: String = make_bone_name(name, k);
        match skeleton.get_bone_id(wanted.as_str()) {
            Some(id) => {
                proof {
                    crate::skeleton::lemma_first_named(skeleton@, wanted@);
                }
                let ghost before = ids@;
                ids.push(id);
                assert(ids_model(ids@) =~= ids_model(before).push(id as int));
                k += 1;
            },
            None => {
                proof {
                    lemma_ids_stop(skeleton@, name@, k as int, count as int);
                }
                going = false;
            },
        }
    }
    ids
}

/// Once a bone of a limb is missing, looking further finds no more.
pub proof fn lemma_ids_stop(bones: Seq<BoneModel>, name: Seq<char>, k: int, upto: int)
    requires
        0 <= k <= upto,
        first_named(bones, bone_name(name, k as nat)) is None,
    ensures
        limb_ids_upto(bones, name, upto) == limb_ids_upto(bones, name, k),
    decreases upto,
{
    if upto > k {
        lemma_ids_stop(bones, name, k, upto - 1);
        lemma_limb_ids(bones, name, k);
    }
}

/// The rest offsets of the segments of the chain from bone `start` to bone
/// `end` of a limb with the bones `ids`: the rest translations of the bones
/// after `start`, up to `end`.
pub open spec fn chain_offsets(bones: Seq<BoneModel>, ids: Seq<int>, start: int, end: int) -> Seq<
    Vec2,
> {
    Seq::new((end - start) as nat, |j: int| bones[ids[start + 1 + j]].rest)
}

/// Whether `start` to `end` is a chain of a limb that has the bones `ids`.
pub open spec fn chain_exists(ids: Seq<int>, start: int, end: int) -> bool {
    0 <= start <= end < ids.len()
}

/// The rest offsets of the chain from bone `start` to bone `end` of the limb
/// called `name`, or nothing where the limb has no such chain.
pub fn chain_offsets_of(skeleton: &Skeleton, name: &str, start: usize, end: usize) -> (offsets:
    Option<Vec<Vec2>>)
    ensures
        offsets is Some <==> chain_exists(limb_ids(skeleton@, name@), start as int, end as int),
        offsets matches Some(o) ==> o@ == chain_offsets(
            skeleton@,
            limb_ids(skeleton@, name@),
            start as int,
            end as int,
        ),
{
    let ids: Vec<usize> = limb_bone_ids(skeleton, name);
    assert(ids_model(ids@).len() == ids@.len());
    if start > end || end >= ids.len() {
        return None;
    }
    let ghost want = chain_offsets(skeleton@, ids_model(ids@), start as int, end as int);
    let mut offsets: Vec<Vec2> = Vec::new();
    let mut j: usize = start + 1;
    while j <= end
        invariant
            start + 1 <= j <= end + 1,
            end < ids@.len() <= usize::MAX,
            want == chain_offsets(skeleton@, ids_model(ids@), start as int, end as int),
            forall|i: int| 0 <= i < ids@.len() ==> (#[trigger] ids@[i]) < skeleton@.len(),
            offsets@.len() == j - start - 1,
            forall|i: int| 0 <= i < offsets@.len() ==> (#[trigger] offsets@[i]) == want[i],
        decreases end + 1 - j,
    {
        let id: usize = ids[j];
        assert(ids_model(ids@)[j as int] == id);
        assert(skeleton@[id as int].rest == skeleton.bones@[id as int].rest);
        offsets.push(skeleton.bones[id].rest);
        j += 1;
    }
    assert(offsets@ =~= want);
    Some(offsets)
}

/// The target seen from the root, where that can be told in steps.
pub open spec fn seen_from(target: Point2, root: Point2) -> Option<Point2> {
    if i64::MIN <= target.x - root.x <= i64::MAX && i64::MIN <= target.y - root.y <= i64::MAX {
        Some(Point2 { x: (target.x - root.x) as i64, y: (target.y - root.y) as i64 })
    } else {
        None
    }
}

/// The target seen from the root.
fn relative_to(target: Point2, root: Point2) -> (rel: Option<Point2>)
    ensures
        rel == seen_from(target, root),
{
    let dx: i128 = target.x as i128 - root.x as i128;
    let dy: i128 = target.y as i128 - root.y as i128;
    if dx < i64::MIN as i128 || dx > i64::MAX as i128 || dy < i64::MIN as i128 || dy > i64::MAX as i128 {
        None
    } else {
        Some(Point2 { x: dx as i64, y: dy as i64 })
    }
}

/// Whether the limb can be bent toward its target: the skeleton has the
/// limb's chain, and the solver takes the chain and the target as seen from
/// the chain's root.
pub open spec fn limb_solvable(bones: Seq<BoneModel>, limb: LimbTarget, root: Point2) -> bool {
    let ids = limb_ids(bones, limb.limb_name@);
    &&& chain_exists(ids, limb.start_bone as int, limb.end_bone as int)
    &&& seen_from(limb.path.value(), root) matches Some(rel)
    &&& solvable(chain_offsets(bones, ids, limb.start_bone as int, limb.end_bone as int), rel)
}

/// Bends the limb's chain toward the limb's target. `root` is where the
/// chain's first bone is in the world.
///
/// Returns nothing where the limb cannot be bent. Otherwise the solution is
/// that of `inverse_kinematics` for the chain's rest offsets and the target
/// as seen from `root`, after `IK_ITERATIONS` passes.
pub fn solve_limb(skeleton: &Skeleton, limb: &LimbTarget, root: Point2) -> (solution: Option<Solution>)
    ensures
        solution is Some <==> limb_solvable(skeleton@, *limb, root),
        solution matches Some(s) ==> {
            let offsets = chain_offsets(
                skeleton@,
                limb_ids(skeleton@, limb.limb_name@),
                limb.start_bone as int,
                limb.end_bone as int,
            );
            let rel = seen_from(limb.path.value(), root).unwrap();
            &&& s.joints@ == solved_joints(offsets, rel, IK_ITERATIONS as nat)
            &&& s.turns@ == turns_of(offsets, s.joints@)
            &&& s.reached == reaches(s.joints@, rel)
        },
{
    let offsets: Vec<Vec2> = match chain_offsets_of(
        skeleton,
        limb.limb_name.as_str(),
        limb.start_bone,
        limb.end_bone,
    ) {
        Some(o) => o,
        None => {
            return None;
        },
    };
    let rel: Point2 = match relative_to(limb.path.target(), root) {
        Some(r) => r,
        None => {
            return None;
        },
    };
    inverse_kinematics(offsets.as_slice(), rel, IK_ITERATIONS)
}

/// Where a limb's target is set anew in a frame, if it is: a leg that did not
/// reach its target steps ahead of its root where the target lay behind the
/// root, and behind its root otherwise, and lands `DROP` below the root; a
/// tail's target is set in every frame, `TAIL_LEAD` ahead of its root and
/// `sway` above it. A root beyond `TARGET_REACH` counts as the nearest point
/// within it.
pub open spec fn next_target(kind: LimbKind, at: Point2, reached: bool, root: Point2, sway: i32) -> Option<
    Point2,
> {
    let from = clamp_point(root);
    match kind {
        LimbKind::Leg => if reached {
            None
        } else if at.x < root.x {
            Some(Point2 { x: (from.x + STRIDE) as i64, y: (from.y - DROP) as i64 })
        } else {
            Some(Point2 { x: (from.x - STRIDE) as i64, y: (from.y - DROP) as i64 })
        },
        LimbKind::Tail => Some(Point2 { x: (from.x + TAIL_LEAD) as i64, y: (from.y + sway) as i64 }),
    }
}

/// What a target holds after a frame: it is set anew where `next_target` says
/// so, and then `delta` more time has passed.
pub open spec fn stepped(
    state: TargetState,
    kind: LimbKind,
    at: Point2,
    reached: bool,
    root: Point2,
    delta: u32,
    sway: i32,
) -> TargetState {
    match next_target(kind, at, reached, root, sway) {
        Some(target) => advance(retarget(state, target), delta),
        None => advance(state, delta),
    }
}

/// Moves a limb's target on by one frame. `reached` tells whether the limb
/// reached its target in this frame, `root` where the chain's first bone is
/// in the world, `delta` the time the frame took, and `sway` how far above
/// its root the tail's target lies in this frame.
pub fn step_target(limb: &mut LimbTarget, reached: bool, root: Point2, delta: u32, sway: i32)
    ensures
        final(limb).path.state() == stepped(
            old(limb).path.state(),
            old(limb).kind,
            old(limb).path.value(),
            reached,
            root,
            delta,
            sway,
        ),
        final(limb).path.alike(old(limb).path),
        final(limb).limb_name == old(limb).limb_name,
        final(limb).kind == old(limb).kind,
        final(limb).start_bone == old(limb).start_bone,
        final(limb).end_bone == old(limb).end_bone,
{
    let from: Point2 = clamp_to_reach(root);
    match limb.kind {
        LimbKind::Leg => {
            if !reached {
                let at: Point2 = limb.path.target();
                if at.x < root.x {
                    limb.path.update_target(Point2 { x: from.x + STRIDE, y: from.y - DROP });
                } else {
                    limb.path.update_target(Point2 { x: from.x - STRIDE, y: from.y - DROP });
                }
            }
        },
        LimbKind::Tail => {
            limb.path.update_target(Point2 { x: from.x + TAIL_LEAD, y: from.y + sway as i64 });
        },
    }
    limb.path.delta(delta);
}

/// The controller of one rig: the targets of its limbs and its clock.
#[derive(Debug, PartialEq)]
pub struct AnimalController {
    /// The limbs that are driven, legs first and the tail last.
    pub targets: Vec<LimbTarget>,
    /// The time since the controller was made.
    pub time: u64,
    /// The rest length of the front leg, in steps.
    pub limb_length: u128,
    /// When the rig next picks a new speed.
    pub random_next: u64,
}

/// What a `LimbTarget` stands for.
pub struct TargetModel {
    pub name: Seq<char>,
    pub kind: LimbKind,
    pub start_bone: int,
    pub end_bone: int,
    /// Whether the target moves on an arc.
    pub arc: bool,
    pub state: TargetState,
    /// The slope of the arc; zero for a straight line.
    pub slope: i32,
}

impl View for LimbTarget {
    type V = TargetModel;

    open spec fn view(&self) -> TargetModel {
        TargetModel {
            name: self.limb_name@,
            kind: self.kind,
            start_bone: self.start_bone as int,
            end_bone: self.end_bone as int,
            arc: self.path is Parabolic,
            state: self.path.state(),
            slope: match self.path {
                Path::Linear(_) => 0,
                Path::Parabolic(t) => t.slope(),
            },
        }
    }
}

/// The models of a vector of targets, in order.
pub open spec fn targets_model(targets: Seq<LimbTarget>) -> Seq<TargetModel> {
    Seq::new(targets.len(), |i: int| targets[i]@)
}

/// The names under which legs are looked for: `front_leg` and `back_leg`,
/// each bare and with one of `_0` to `_3` behind it. The first five are
/// front legs.
pub open spec fn leg_name(k: int) -> Seq<char> {
    (if k < 5 {
        "front_leg"@
    } else {
        "back_leg"@
    }) + (if k % 5 == 0 {
        ""@
    } else if k % 5 == 1 {
        "_0"@
    } else if k % 5 == 2 {
        "_1"@
    } else if k % 5 == 3 {
        "_2"@
    } else {
        "_3"@
    })
}

/// The number of names under which legs are looked for.
pub const LEG_NAMES: usize = 10;

/// The leg called `leg_name(k)` as a target, if the skeleton has bones of
/// that name: its chain is the whole limb, and its target rests `DROP` below
/// the limb's first bone, `STANCE` ahead of it for a front leg and `STANCE`
/// behind it for a back leg. `positions` tells where each bone of the
/// skeleton is in the world.
pub open spec fn leg_target(bones: Seq<BoneModel>, positions: Seq<Point2>, k: int) -> Option<
    TargetModel,
> {
    let ids = limb_ids(bones, leg_name(k));
    if ids.len() == 0 {
        None
    } else {
        let root = clamp_point(positions[ids[0]]);
        let stance = if k < 5 {
            STANCE as int
        } else {
            -STANCE
        };
        Some(
            TargetModel {
                name: leg_name(k),
                kind: LimbKind::Leg,
                start_bone: 0,
                end_bone: ids.len() - 1,
                arc: true,
                state: resting(
                    Point2 { x: (root.x + stance) as i64, y: (root.y - DROP) as i64 },
                    STEP_TIME,
                ),
                slope: STEP_SLOPE,
            },
        )
    }
}

/// The legs among the first `k` leg names, as targets.
pub open spec fn leg_targets(bones: Seq<BoneModel>, positions: Seq<Point2>, k: int) -> Seq<
    TargetModel,
>
    decreases k,
{
    if k <= 0 {
        Seq::empty()
    } else {
        match leg_target(bones, positions, k - 1) {
            Some(t) => leg_targets(bones, positions, k - 1).push(t),
            None => leg_targets(bones, positions, k - 1),
        }
    }
}

/// The tail as a target, if the spine has three bones or more: its chain is
/// the last three bones of the spine, and its target rests on the last.
pub open spec fn tail_target(bones: Seq<BoneModel>, positions: Seq<Point2>) -> Option<TargetModel> {
    let ids = limb_ids(bones, "spine"@);
    if ids.len() < 3 {
        None
    } else {
        Some(
            TargetModel {
                name: "spine"@,
                kind: LimbKind::Tail,
                start_bone: ids.len() - 3,
                end_bone: ids.len() - 1,
                arc: false,
                state: resting(positions[ids.last()], TAIL_TIME),
                slope: 0,
            },
        )
    }
}

/// The targets of a rig: its legs and then its tail. There are none where
/// the positions are not as many as the bones, or where there is no tail.
pub open spec fn rig_targets(bones: Seq<BoneModel>, positions: Seq<Point2>) -> Option<Seq<TargetModel>> {
    if positions.len() != bones.len() {
        None
    } else {
        match tail_target(bones, positions) {
            Some(tail) => Some(leg_targets(bones, positions, LEG_NAMES as int).push(tail)),
            None => None,
        }
    }
}

/// The rest length of a bone, in steps, rounded down.
pub open spec fn rest_length(bone: BoneModel) -> int {
    floor_sqrt(bone.rest.x * bone.rest.x + bone.rest.y * bone.rest.y)
}

/// The sum of the rest lengths of the first `n` of the bones `ids`.
pub open spec fn limb_length(bones: Seq<BoneModel>, ids: Seq<int>, n: int) -> int
    decreases n,
{
    if n <= 0 {
        0
    } else {
        limb_length(bones, ids, n - 1) + rest_length(bones[ids[n - 1]])
    }
}

/// The length that a rig's legs are taken to have: the rest length of the
/// limb called `front_leg` where the rig has any leg, and zero where it has
/// none.
pub open spec fn leg_length(bones: Seq<BoneModel>, positions: Seq<Point2>) -> int {
    if leg_targets(bones, positions, LEG_NAMES as int).len() == 0 {
        0
    } else {
        let ids = limb_ids(bones, leg_name(0));
        limb_length(bones, ids, ids.len() as int)
    }
}

/// The name under which leg `k` is looked for.
fn leg_name_of(k: usize) -> (name: String)
    requires
        k < LEG_NAMES,
    ensures
        name@ == leg_name(k as int),
{
    let stem: &str = if k < 5 {
        "front_leg"
    } else {
        "back_leg"
    };
    let tail: &str = if k % 5 == 0 {
        ""
    } else if k % 5 == 1 {
        "_0"
    } else if k % 5 == 2 {
        "_1"
    } else if k % 5 == 3 {
        "_2"
    } else {
        "_3"
    };
    let mut name: String = String::from_str(stem);
    name.append(tail);
    name
}

/// The sum of the rest lengths of the bones `ids`, in steps.
pub fn get_limb_length(ids: &Vec<usize>, skeleton: &Skeleton) -> (length: u128)
    requires
        forall|j: int| 0 <= j < ids@.len() ==> (#[trigger] ids@[j]) < skeleton@.len(),
    ensures
        length == limb_length(skeleton@, ids_model(ids@), ids@.len() as int),
{
    let mut length: u128 = 0;
    let mut j: usize = 0;
    while j < ids.len()
        invariant
            j <= ids@.len(),
            forall|i: int| 0 <= i < ids@.len() ==> (#[trigger] ids@[i]) < skeleton@.len(),
            length == limb_length(skeleton@, ids_model(ids@), j as int),
            length <= j * 0x1_0000_0000,
        decreases ids@.len() - j,
    {
        let id: usize = ids[j];
        let rest: Vec2 = skeleton.bones[id].rest;
        assert(ids_model(ids@)[j as int] == id);
        assert(skeleton@[id as int].rest == rest);
        let x: i64 = rest.x as i64;
        let y: i64 = rest.y as i64;
        assert(0 <= x * x <= 0x8000_0000 * 0x8000_0000 && 0 <= y * y <= 0x8000_0000 * 0x8000_0000)
            by (nonlinear_arith)
            requires
                -0x8000_0000 <= x <= 0x8000_0000,
                -0x8000_0000 <= y <= 0x8000_0000,
        ;
        let squares: u128 = (x * x) as u128 + (y * y) as u128;
        let here: u64 = isqrt(squares);
        proof {
            if here >= 0x1_0000_0000 {
                crate::fixed::lemma_square_monotonic(0x1_0000_0000, here as int);
            }
        }
        length = length + here as u128;
        j += 1;
    }
    length
}

impl AnimalController {
    /// The controller of a rig with the given skeleton, when the rig is first
    /// shown. `positions` tells where each bone of the skeleton is in the
    /// world. Nothing where the positions are not as many as the bones, or
    /// where the spine is too short for a tail.
    pub fn ready(skeleton: &Skeleton, positions: &[Point2]) -> (controller: Option<AnimalController>)
        ensures
            match controller {
                Some(c) => {
                    &&& rig_targets(skeleton@, positions@) == Some(targets_model(c.targets@))
                    &&& c.time == 0
                    &&& c.random_next == 0
                    &&& c.limb_length == leg_length(skeleton@, positions@)
                },
                None => rig_targets(skeleton@, positions@) is None,
            },
    {
        if positions.len() != skeleton.get_bone_count() {
            return None;
        }
        let spine: Vec<usize> = limb_bone_ids(skeleton, "spine");
        assert(ids_model(spine@).len() == spine@.len());
        if spine.len() < 3 {
            return None;
        }
        let mut targets: Vec<LimbTarget> = Vec::new();
        let mut length: u128 = 0;
        let mut k: usize = 0;
        while k < LEG_NAMES
            invariant
                k <= LEG_NAMES,
                positions@.len() == skeleton@.len(),
                targets_model(targets@) == leg_targets(skeleton@, positions@, k as int),
                length == if targets@.len() == 0 {
                    0
                } else {
                    limb_length(
                        skeleton@,
                        limb_ids(skeleton@, leg_name(0)),
                        limb_ids(skeleton@, leg_name(0)).len() as int,
                    )
                },
            decreases LEG_NAMES - k,
        {
            let name: String = leg_name_of(k);
            let ids: Vec<usize> = limb_bone_ids(skeleton, name.as_str());
            assert(ids_model(ids@).len() == ids@.len());
            if ids.len() > 0 {
                if targets.len() == 0 {
                    let front_name: String = leg_name_of(0);
                    let front: Vec<usize> = limb_bone_ids(skeleton, front_name.as_str());
                    assert(ids_model(front@).len() == front@.len());
                    length = get_limb_length(&front, skeleton);
                }
                assert(ids_model(ids@)[0] == ids@[0]);
                let root: Point2 = clamp_to_reach(positions[ids[0]]);
                let stance: i64 = if k < 5 {
                    STANCE
                } else {
                    -STANCE
                };
                let at = Point2 { x: root.x + stance, y: root.y - DROP };
                let limb = LimbTarget {
                    limb_name: name,
                    kind: LimbKind::Leg,
                    start_bone: 0,
                    end_bone: ids.len() - 1,
                    path: Path::Parabolic(ParabolicTarget::new(at, STEP_TIME, STEP_SLOPE)),
                };
                assert(Some(limb@) == leg_target(skeleton@, positions@, k as int));
                let ghost before = targets@;
                targets.push(limb);
                assert(targets_model(targets@) =~= targets_model(before).push(limb@));
            }
            k += 1;
        }
        assert(ids_model(spine@).last() == spine@[spine@.len() - 1]);
        let tail = LimbTarget {
            limb_name: String::from_str("spine"),
            kind: LimbKind::Tail,
            start_bone: spine.len() - 3,
            end_bone: spine.len() - 1,
            path: Path::Linear(LinearTarget::new(positions[spine[spine.len() - 1]], TAIL_TIME)),
        };
        assert(Some(tail@) == tail_target(skeleton@, positions@));
        let ghost legs = targets@;
        targets.push(tail);
        assert(targets_model(targets@) =~= targets_model(legs).push(tail@));
        Some(AnimalController { targets, time: 0, limb_length: length, random_next: 0 })
    }
}

/// The greatest speed the rig picks, either way, in steps a second.
pub const TOP_SPEED: i64 = 6_000_000;

/// The longest time between two picks of a speed.
pub const LONGEST_WAIT: u64 = 5_000_000;

/// The share of `ONE` that 32 random bits stand for: below `ONE`.
pub open spec fn share(bits: u32) -> int {
    (bits * ONE) / 0x1_0000_0000
}

/// The speed picked from 32 random bits: between `-TOP_SPEED` and
/// `TOP_SPEED`.
pub open spec fn picked_speed(bits: u32) -> int {
    (share(bits) - ONE / 2) * 12
}

/// The time of the next pick, from 32 random bits: up to `LONGEST_WAIT`
/// after `time`, and `u64::MAX` at most.
pub open spec fn picked_time(time: u64, bits: u32) -> int {
    if time + share(bits) * 5 > u64::MAX {
        u64::MAX as int
    } else {
        time + share(bits) * 5
    }
}

/// The share of `ONE` that 32 random bits stand for.
fn share_of(bits: u32) -> (s: u32)
    ensures
        s == share(bits),
        s < ONE,
{
    let scaled: u64 = (bits as u64) * (ONE as u64);
    let s: u64 = scaled / 0x1_0000_0000;
    s as u32
}

/// 32 random bits, from the thread's generator of `rand`: `Rng::gen` for
/// `u32`, of which every value may come.
#[verifier::external_body]
fn random_bits() -> (bits: u32) {
    rand::thread_rng().gen::<u32>()
}

/// What the targets hold after a frame: each has made its step.
pub open spec fn targets_stepped(
    before: Seq<LimbTarget>,
    after: Seq<LimbTarget>,
    reached: Seq<bool>,
    roots: Seq<Point2>,
    delta: u32,
    sway: i32,
) -> bool {
    &&& after.len() == before.len()
    &&& forall|i: int|
        0 <= i < before.len() ==> {
            &&& (#[trigger] after[i]).path.state() == stepped(
                before[i].path.state(),
                before[i].kind,
                before[i].path.value(),
                reached[i],
                roots[i],
                delta,
                sway,
            )
            &&& after[i].path.alike(before[i].path)
            &&& after[i].limb_name == before[i].limb_name
            &&& after[i].kind == before[i].kind
            &&& after[i].start_bone == before[i].start_bone
            &&& after[i].end_bone == before[i].end_bone
        }
}

impl AnimalController {
    /// A controller without targets, at time zero.
    pub fn new() -> (controller: AnimalController)
        ensures
            controller.targets@.len() == 0,
            controller.time == 0,
            controller.limb_length == 0,
            controller.random_next == 0,
    {
        AnimalController { targets: Vec::new(), time: 0, limb_length: 0, random_next: 0 }
    }

    /// What a frame does once the limbs are bent: every target makes its
    /// step, as in `step_targets`, and a new speed is picked at random where
    /// it is time to, as in `roll`. Returns the speed picked, if any; or
    /// nothing at all, and does nothing, where `reached` and `roots` are not
    /// as many as the targets.
    pub fn process(&mut self, reached: &[bool], roots: &[Point2], delta: u32, sway: i32) -> (picked:
        Option<Option<i64>>)
        ensures
            picked is Some <==> (reached@.len() == old(self).targets@.len() && roots@.len() == old(
                self,
            ).targets@.len()),
            picked is Some ==> targets_stepped(
                old(self).targets@,
                final(self).targets@,
                reached@,
                roots@,
                delta,
                sway,
            ),
            picked is None ==> final(self).targets@ == old(self).targets@ && final(self).random_next
                == old(self).random_next,
            picked matches Some(speed) ==> {
                &&& speed is Some <==> old(self).due()
                &&& speed matches Some(v) ==> -TOP_SPEED <= v < TOP_SPEED
                &&& old(self).due() ==> old(self).time <= final(self).random_next <= old(self).time
                    + LONGEST_WAIT
                &&& !old(self).due() ==> final(self).random_next == old(self).random_next
            },
            final(self).time == old(self).time,
            final(self).limb_length == old(self).limb_length,
    {
        if self.step_targets(reached, roots, delta, sway) {
            Some(self.roll())
        } else {
            None
        }
    }

    /// Moves every limb's target on by one frame: see `step_target`.
    /// `reached[i]` tells whether limb `i` reached its target in this frame,
    /// and `roots[i]` where the first bone of its chain is in the world.
    /// Does nothing, and says so, where `reached` and `roots` are not as many
    /// as the targets.
    pub fn step_targets(&mut self, reached: &[bool], roots: &[Point2], delta: u32, sway: i32) -> (done:
        bool)
        ensures
            done == (reached@.len() == old(self).targets@.len() && roots@.len() == old(
                self,
            ).targets@.len()),
            done ==> targets_stepped(
                old(self).targets@,
                final(self).targets@,
                reached@,
                roots@,
                delta,
                sway,
            ),
            !done ==> final(self).targets@ == old(self).targets@,
            final(self).time == old(self).time,
            final(self).limb_length == old(self).limb_length,
            final(self).random_next == old(self).random_next,
    {
        let n: usize = self.targets.len();
        if reached.len() != n || roots.len() != n {
            return false;
        }
        let mut i: usize = 0;
        while i < n
            invariant
                i <= n,
                n == old(self).targets@.len(),
                self.targets@.len() == n,
                reached@.len() == n,
                roots@.len() == n,
                self.time == old(self).time,
                self.limb_length == old(self).limb_length,
                self.random_next == old(self).random_next,
                forall|j: int| i <= j < n ==> self.targets@[j] == old(self).targets@[j],
                forall|j: int|
                    0 <= j < i ==> {
                        &&& (#[trigger] self.targets@[j]).path.state() == stepped(
                            old(self).targets@[j].path.state(),
                            old(self).targets@[j].kind,
                            old(self).targets@[j].path.value(),
                            reached@[j],
                            roots@[j],
                            delta,
                            sway,
                        )
                        &&& self.targets@[j].path.alike(old(self).targets@[j].path)
                        &&& self.targets@[j].limb_name == old(self).targets@[j].limb_name
                        &&& self.targets@[j].kind == old(self).targets@[j].kind
                        &&& self.targets@[j].start_bone == old(self).targets@[j].start_bone
                        &&& self.targets@[j].end_bone == old(self).targets@[j].end_bone
                    },
            decreases n - i,
        {
            step_target(&mut self.targets[i], reached[i], roots[i], delta, sway);
            i += 1;
        }
        true
    }

    /// Lets `delta` more time pass on the controller's clock, which stops at
    /// `u64::MAX`.
    pub fn pass_time(&mut self, delta: u32)
        ensures
            final(self).time == if old(self).time + delta > u64::MAX {
                u64::MAX
            } else {
                (old(self).time + delta) as u64
            },
            final(self).targets@ == old(self).targets@,
            final(self).limb_length == old(self).limb_length,
            final(self).random_next == old(self).random_next,
    {
        if self.time > u64::MAX - (delta as u64) {
            self.time = u64::MAX;
        } else {
            self.time = self.time + (delta as u64);
        }
    }

    /// Whether it is time to pick a new speed.
    pub open spec fn due(&self) -> bool {
        self.time > self.random_next
    }

    /// Picks a new speed where it is time to: the speed and the time of the
    /// next pick follow from the random bits `first` and `second`. Returns
    /// the speed, or nothing where it is not yet time.
    pub fn wander(&mut self, first: u32, second: u32) -> (speed: Option<i64>)
        ensures
            speed is Some <==> old(self).due(),
            speed matches Some(v) ==> v == picked_speed(first) && -TOP_SPEED <= v < TOP_SPEED,
            final(self).random_next == if old(self).due() {
                picked_time(old(self).time, second) as u64
            } else {
                old(self).random_next
            },
            final(self).time == old(self).time,
            final(self).targets@ == old(self).targets@,
            final(self).limb_length == old(self).limb_length,
    {
        if self.time > self.random_next {
            let speed: i64 = (share_of(first) as i64 - (ONE / 2) as i64) * 12;
            let wait: u64 = (share_of(second) as u64) * 5;
            if self.time > u64::MAX - wait {
                self.random_next = u64::MAX;
            } else {
                self.random_next = self.time + wait;
            }
            Some(speed)
        } else {
            None
        }
    }

    /// Picks a new speed at random where it is time to. Returns the speed,
    /// or nothing where it is not yet time. The next pick is due within
    /// `LONGEST_WAIT` of the present time.
    pub fn roll(&mut self) -> (speed: Option<i64>)
        ensures
            speed is Some <==> old(self).due(),
            speed matches Some(v) ==> -TOP_SPEED <= v < TOP_SPEED,
            old(self).due() ==> old(self).time <= final(self).random_next <= old(self).time
                + LONGEST_WAIT,
            !old(self).due() ==> final(self).random_next == old(self).random_next,
            final(self).time == old(self).time,
            final(self).targets@ == old(self).targets@,
            final(self).limb_length == old(self).limb_length,
    {
        if self.time > self.random_next {
            let first: u32 = random_bits();
            let second: u32 = random_bits();
            self.wander(first, second)
        } else {
            None
        }
    }
}

} // verus!
