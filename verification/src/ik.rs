//! Inverse kinematics for a chain of bones.
//!
//! A chain is given by the rest offsets of its segments. Its joints start at
//! rest, the first at the chain's root. One pass pins the last joint to the
//! target and pulls every earlier joint to its rest distance from the joint
//! after it, then pins the first joint to the root and pulls every later
//! joint to its rest distance from the joint before it. The solver makes a
//! fixed number of passes and tells whether the last joint came to lie on the
//! target.

use crate::fixed::{floor_sqrt, lemma_floor_sqrt, lemma_square_order, magnitude, FINE};
use crate::geometry::{
    fine_length, fine_length_of, lemma_fine_length_covers, lemma_rescale_bound,
    lemma_rescale_keeps_length, lemma_rescale_same, rescale, rescale_to, Point2, FINE_SPAN,
};
use crate::model::Vec2;
use crate::pairs::neighbour_pairs;
use vstd::prelude::*;

verus! {

/// The most segments that a chain may have.
pub const MAX_CHAIN: usize = 4096;

/// The greatest magnitude of a coordinate of the target.
pub const TARGET_REACH: i64 = 0x1000_0000_0000;

/// The last joint has reached the target when the square of its distance to
/// the target is below this: a hundredth of a square unit.
pub const REACHED_WITHIN: i128 = 10_000_000_000;

/// How far a solved segment is turned against its rest direction, as the
/// pair `(along, across)`: the turn's angle is the angle of the point
/// `(along, across)` seen from the origin, counted from the positive first
/// axis toward the positive second axis. A segment that is not turned has
/// `across == 0` and `along >= 0`.
#[derive(Debug, Clone, Copy, PartialEq, Eq)]
pub struct Turn {
    /// The dot product of the rest segment and the solved segment.
    pub along: i128,
    /// The cross product of the rest segment and the solved segment.
    pub across: i128,
}

/// What the solver found.
#[derive(Debug, PartialEq)]
pub struct Solution {
    /// The joints of the chain, from its root on, relative to the root.
    pub joints: Vec<Point2>,
    /// For every segment, how far it is turned against its rest direction.
    pub turns: Vec<Turn>,
    /// Whether the last joint lies on the target.
    pub reached: bool,
}

/// Joint `i` of the chain at rest: the sum of the first `i` offsets.
pub open spec fn rest_joint(offsets: Seq<Vec2>, i: int) -> Point2
    decreases i,
{
    if i <= 0 {
        Point2 { x: 0, y: 0 }
    } else {
        let before = rest_joint(offsets, i - 1);
        Point2 {
            x: (before.x + offsets[i - 1].x) as i64,
            y: (before.y + offsets[i - 1].y) as i64,
        }
    }
}

/// The joints of the chain at rest: one more than it has segments.
pub open spec fn rest_joints(offsets: Seq<Vec2>) -> Seq<Point2> {
    Seq::new(offsets.len() + 1, |i: int| rest_joint(offsets, i))
}

/// The rest length of segment `i`, in `FINE`-ths of a step.
pub open spec fn segment_length(offsets: Seq<Vec2>, i: int) -> int {
    fine_length(offsets[i].x as int, offsets[i].y as int)
}

/// The point at distance `len` (in `FINE`-ths of a step) from `anchor`, in the
/// direction of `p`; `anchor` itself where `p` lies on it.
pub open spec fn pull(p: Point2, anchor: Point2, len: int) -> Point2 {
    let dx = p.x - anchor.x;
    let dy = p.y - anchor.y;
    let from = fine_length(dx, dy);
    Point2 {
        x: (anchor.x + rescale(dx, len, from)) as i64,
        y: (anchor.y + rescale(dy, len, from)) as i64,
    }
}

/// The joints after the backward half of a pass has handled the joints from
/// `from` on: the last joint lies on the target, and every other handled
/// joint is pulled toward the joint after it.
pub open spec fn backward_pass(joints: Seq<Point2>, offsets: Seq<Vec2>, target: Point2, from: int) -> Seq<
    Point2,
>
    decreases joints.len() - from,
{
    if from >= joints.len() - 1 {
        joints.update(joints.len() - 1, target)
    } else {
        let later = backward_pass(joints, offsets, target, from + 1);
        later.update(from, pull(later[from], later[from + 1], segment_length(offsets, from)))
    }
}

/// The joints after the forward half of a pass has handled the joints up to
/// `upto`: the first joint lies on the root, and every other handled joint is
/// pulled toward the joint before it.
pub open spec fn forward_pass(joints: Seq<Point2>, offsets: Seq<Vec2>, upto: int) -> Seq<Point2>
    decreases upto,
{
    if upto <= 0 {
        joints.update(0, Point2 { x: 0, y: 0 })
    } else {
        let earlier = forward_pass(joints, offsets, upto - 1);
        earlier.update(
            upto,
            pull(earlier[upto], earlier[upto - 1], segment_length(offsets, upto - 1)),
        )
    }
}

/// The joints after one whole pass.
pub open spec fn pass(joints: Seq<Point2>, offsets: Seq<Vec2>, target: Point2) -> Seq<Point2> {
    forward_pass(backward_pass(joints, offsets, target, 0), offsets, joints.len() - 1)
}

/// The joints after `iterations` passes from rest.
pub open spec fn solved_joints(offsets: Seq<Vec2>, target: Point2, iterations: nat) -> Seq<Point2>
    decreases iterations,
{
    if iterations == 0 {
        rest_joints(offsets)
    } else {
        pass(solved_joints(offsets, target, (iterations - 1) as nat), offsets, target)
    }
}

/// The square of the distance between two points.
pub open spec fn distance_squared(a: Point2, b: Point2) -> int {
    (a.x - b.x) * (a.x - b.x) + (a.y - b.y) * (a.y - b.y)
}

/// Whether the last joint lies on the target.
pub open spec fn reaches(joints: Seq<Point2>, target: Point2) -> bool {
    distance_squared(joints.last(), target) < REACHED_WITHIN
}

/// How far the segment from `from` to `to` is turned against the rest
/// offset `rest`.
pub open spec fn turn_of(rest: Vec2, from: Point2, to: Point2) -> Turn {
    Turn {
        along: (rest.x * (to.x - from.x) + rest.y * (to.y - from.y)) as i128,
        across: (rest.x * (to.y - from.y) - rest.y * (to.x - from.x)) as i128,
    }
}

/// The turns of all segments of a chain with the given joints.
pub open spec fn turns_of(offsets: Seq<Vec2>, joints: Seq<Point2>) -> Seq<Turn> {
    Seq::new(offsets.len(), |i: int| turn_of(offsets[i], joints[i], joints[i + 1]))
}

/// Whether no segment between the joints is longer, along either axis, than
/// the segment is at rest.
pub open spec fn within_rest_lengths(joints: Seq<Point2>, offsets: Seq<Vec2>) -> bool {
    forall|i: int|
        0 <= i < offsets.len() ==> {
            &&& magnitude(#[trigger] joints[i + 1].x - joints[i].x) <= segment_length(offsets, i) / (
            FINE as int)
            &&& magnitude(joints[i + 1].y - joints[i].y) <= segment_length(offsets, i) / (FINE as int)
        }
}

/// Whether `b` lies at the distance `len` (in `FINE`-ths of a step) from `a`,
/// a step and a part in `FINE` apart: with `ex` and `ey` the offsets of `b`
/// from `a`, `(ex^2 + ey^2) * FINE^4 <= (FINE + 1)^2 * len^2` and
/// `((|ex| + 1)^2 + (|ey| + 1)^2) * FINE^2 > len^2`.
pub open spec fn at_distance(a: Point2, b: Point2, len: int) -> bool {
    let ex = b.x - a.x;
    let ey = b.y - a.y;
    let up_x = magnitude(ex) + 1;
    let up_y = magnitude(ey) + 1;
    &&& (ex * ex + ey * ey) * (FINE * FINE * FINE * FINE) <= ((FINE + 1) * (FINE + 1)) * (len * len)
    &&& (up_x * up_x + up_y * up_y) * (FINE * FINE) > len * len
}

/// Whether the forward half of a pass has given the segments their rest
/// lengths: every segment has it whose far joint, as the backward half left
/// it in `back`, did not lie on the segment's near joint.
pub open spec fn keeps_rest_lengths(back: Seq<Point2>, joints: Seq<Point2>, offsets: Seq<Vec2>) -> bool {
    forall|i: int|
        0 <= i < offsets.len() && back[i + 1] != #[trigger] joints[i] ==> at_distance(
            joints[i],
            joints[i + 1],
            segment_length(offsets, i),
        )
}

/// Whether the solver takes the chain and the target: the chain has between
/// one and `MAX_CHAIN` segments, and the target is within `TARGET_REACH`.
pub open spec fn solvable(offsets: Seq<Vec2>, target: Point2) -> bool {
    &&& 1 <= offsets.len() <= MAX_CHAIN
    &&& -TARGET_REACH <= target.x <= TARGET_REACH
    &&& -TARGET_REACH <= target.y <= TARGET_REACH
}

/// The rotation of every bone of a chain relative to the bone before it,
/// from the bones' turns against rest: the angle of the bone less the angle
/// of the bone before, and for the first bone less `parent`.
pub open spec fn relative_angles(angles: Seq<i32>, parent: i32) -> Seq<i64> {
    Seq::new(
        angles.len(),
        |i: int|
            if i == 0 {
                (angles[0] - parent) as i64
            } else {
                (angles[i] - angles[i - 1]) as i64
            },
    )
}

/// The sum of the first `n` numbers.
pub open spec fn sum_of(s: Seq<i64>, n: int) -> int
    decreases n,
{
    if n <= 0 {
        0
    } else {
        sum_of(s, n - 1) + s[n - 1]
    }
}

/// The rotations of a chain add up: the parent's angle and the relative
/// rotations of the first bones give the angle of the last of them.
pub proof fn lemma_relative_angles_add_up(angles: Seq<i32>, parent: i32, i: int)
    requires
        0 <= i < angles.len(),
    ensures
        parent + sum_of(relative_angles(angles, parent), i + 1) == angles[i],
    decreases i,
{
    let rel = relative_angles(angles, parent);
    reveal_with_fuel(sum_of, 2);
    if i > 0 {
        lemma_relative_angles_add_up(angles, parent, i - 1);
        assert(rel[i] == angles[i] - angles[i - 1]);
    } else {
        assert(rel[0] == angles[0] - parent);
    }
}

/// A joint at rest stays within `2^31` steps per segment of the root.
pub proof fn lemma_rest_joint_bound(offsets: Seq<Vec2>, i: int)
    requires
        0 <= i <= offsets.len() <= MAX_CHAIN,
    ensures
        -i * 0x8000_0000 <= rest_joint(offsets, i).x <= i * 0x8000_0000,
        -i * 0x8000_0000 <= rest_joint(offsets, i).y <= i * 0x8000_0000,
    decreases i,
{
    if i > 0 {
        lemma_rest_joint_bound(offsets, i - 1);
    }
}

/// The rest length of a segment is below `2^48` `FINE`-ths of a step.
pub proof fn lemma_segment_length_bound(x: i32, y: i32)
    ensures
        0 <= fine_length(x as int, y as int) < FINE_SPAN,
{
    let n = (x * x + y * y) * (FINE * FINE);
    assert(0 <= x * x <= 0x8000_0000 * 0x8000_0000) by (nonlinear_arith)
        requires
            -0x8000_0000 <= x <= 0x8000_0000,
    ;
    assert(0 <= y * y <= 0x8000_0000 * 0x8000_0000) by (nonlinear_arith)
        requires
            -0x8000_0000 <= y <= 0x8000_0000,
    ;
    assert(0 <= n < 0x1_0000_0000_0000 * 0x1_0000_0000_0000) by (nonlinear_arith)
        requires
            n == (x * x + y * y) * (FINE * FINE),
            0 <= x * x <= 0x8000_0000 * 0x8000_0000,
            0 <= y * y <= 0x8000_0000 * 0x8000_0000,
            FINE == 65536,
    ;
    lemma_floor_sqrt(n, 0);
    let len = floor_sqrt(n);
    assert(len * len < 0x1_0000_0000_0000 * 0x1_0000_0000_0000);
    lemma_square_order(len, 0x1_0000_0000_0000);
}

/// A point that lies at its rest offset from the anchor is left where it is.
pub proof fn lemma_pull_at_rest(p: Point2, anchor: Point2, offset: Vec2)
    requires
        p.x - anchor.x == offset.x || p.x - anchor.x == -offset.x,
        p.y - anchor.y == offset.y || p.y - anchor.y == -offset.y,
    ensures
        pull(p, anchor, fine_length(offset.x as int, offset.y as int)) == p,
{
    let dx = p.x - anchor.x;
    let dy = p.y - anchor.y;
    assert(dx * dx == offset.x * offset.x) by (nonlinear_arith)
        requires
            dx == offset.x || dx == -offset.x,
    ;
    assert(dy * dy == offset.y * offset.y) by (nonlinear_arith)
        requires
            dy == offset.y || dy == -offset.y,
    ;
    let len = fine_length(dx, dy);
    assert(len == fine_length(offset.x as int, offset.y as int));
    lemma_fine_length_covers(dx, dy);
    if len > 0 {
        lemma_rescale_same(dx, len);
        lemma_rescale_same(dy, len);
    }
}

/// The backward half of a pass leaves a chain at rest as it is, where the
/// target is the last joint at rest.
pub proof fn lemma_backward_at_rest(offsets: Seq<Vec2>, from: int)
    requires
        1 <= offsets.len() <= MAX_CHAIN,
        0 <= from,
    ensures
        backward_pass(
            rest_joints(offsets),
            offsets,
            rest_joint(offsets, offsets.len() as int),
            from,
        ) == rest_joints(offsets),
    decreases offsets.len() - from,
{
    let rest = rest_joints(offsets);
    let target = rest_joint(offsets, offsets.len() as int);
    if from >= rest.len() - 1 {
        assert(rest.update(rest.len() - 1, target) =~= rest);
    } else {
        lemma_backward_at_rest(offsets, from + 1);
        lemma_rest_joint_bound(offsets, from);
        lemma_rest_joint_bound(offsets, from + 1);
        lemma_pull_at_rest(rest[from], rest[from + 1], offsets[from]);
        assert(rest.update(from, rest[from]) =~= rest);
    }
}

/// The forward half of a pass leaves a chain at rest as it is.
pub proof fn lemma_forward_at_rest(offsets: Seq<Vec2>, upto: int)
    requires
        1 <= offsets.len() <= MAX_CHAIN,
        upto <= offsets.len(),
    ensures
        forward_pass(rest_joints(offsets), offsets, upto) == rest_joints(offsets),
    decreases upto,
{
    let rest = rest_joints(offsets);
    if upto <= 0 {
        assert(rest.update(0, Point2 { x: 0, y: 0 }) =~= rest);
    } else {
        lemma_forward_at_rest(offsets, upto - 1);
        lemma_rest_joint_bound(offsets, upto);
        lemma_rest_joint_bound(offsets, upto - 1);
        lemma_pull_at_rest(rest[upto], rest[upto - 1], offsets[upto - 1]);
        assert(rest.update(upto, rest[upto]) =~= rest);
    }
}

/// A chain whose target is its own last joint at rest stays at rest: after
/// any number of passes the joints are the rest joints, the target is
/// reached, and no segment is turned.
pub proof fn lemma_target_at_rest(offsets: Seq<Vec2>, iterations: nat)
    requires
        1 <= offsets.len() <= MAX_CHAIN,
    ensures
        ({
            let target = rest_joint(offsets, offsets.len() as int);
            let joints = solved_joints(offsets, target, iterations);
            &&& joints == rest_joints(offsets)
            &&& reaches(joints, target)
            &&& forall|i: int|
                0 <= i < offsets.len() ==> (#[trigger] turns_of(offsets, joints)[i]).across == 0
                    && turns_of(offsets, joints)[i].along >= 0
        }),
    decreases iterations,
{
    let target = rest_joint(offsets, offsets.len() as int);
    let rest = rest_joints(offsets);
    if iterations > 0 {
        lemma_target_at_rest(offsets, (iterations - 1) as nat);
        lemma_backward_at_rest(offsets, 0);
        lemma_forward_at_rest(offsets, offsets.len() as int);
    }
    assert(rest.last() == target);
    assert forall|i: int| 0 <= i < offsets.len() implies (#[trigger] turns_of(offsets, rest)[i]).across
        == 0 && turns_of(offsets, rest)[i].along >= 0 by {
        lemma_rest_joint_bound(offsets, i);
        lemma_rest_joint_bound(offsets, i + 1);
        let r = offsets[i];
        assert(rest[i + 1].x - rest[i].x == r.x);
        assert(rest[i + 1].y - rest[i].y == r.y);
        assert(r.x * r.y - r.y * r.x == 0) by (nonlinear_arith);
        assert(0 <= r.x * r.x + r.y * r.y <= 2 * (0x8000_0000 * 0x8000_0000)) by (nonlinear_arith)
            requires
                -0x8000_0000 <= r.x <= 0x8000_0000,
                -0x8000_0000 <= r.y <= 0x8000_0000,
        ;
    }
}

/// A chain of one segment whose target lies as far from the root as the
/// segment is long reaches it in one pass, and stays on it: the joints are
/// the root and the target.
pub proof fn lemma_single_segment_reaches(offset: Vec2, target: Point2, iterations: nat)
    requires
        iterations >= 1,
        fine_length(target.x as int, target.y as int) == fine_length(
            offset.x as int,
            offset.y as int,
        ),
    ensures
        solved_joints(seq![offset], target, iterations) == seq![Point2 { x: 0, y: 0 }, target],
        reaches(solved_joints(seq![offset], target, iterations), target),
    decreases iterations,
{
    let offsets = seq![offset];
    let root = Point2 { x: 0, y: 0 };
    let before = solved_joints(offsets, target, (iterations - 1) as nat);
    if iterations > 1 {
        lemma_single_segment_reaches(offset, target, (iterations - 1) as nat);
    }
    assert(before.len() == 2);
    let len = segment_length(offsets, 0);
    reveal_with_fuel(backward_pass, 2);
    reveal_with_fuel(forward_pass, 2);
    let pinned = before.update(1, target);
    assert(backward_pass(before, offsets, target, 1) == pinned);
    let back = pinned.update(0, pull(pinned[0], pinned[1], len));
    assert(backward_pass(before, offsets, target, 0) == back);
    let rooted = back.update(0, root);
    assert(forward_pass(back, offsets, 0) == rooted);
    assert(rooted[1] == target);
    lemma_fine_length_covers(target.x as int, target.y as int);
    if len > 0 {
        lemma_rescale_same(target.x as int, len);
        lemma_rescale_same(target.y as int, len);
    }
    assert(pull(target, root, len) == target);
    let after = rooted.update(1, pull(rooted[1], rooted[0], len));
    assert(forward_pass(back, offsets, 1) == after);
    assert(after =~= seq![root, target]);
    assert(pass(before, offsets, target) == after);
    assert((target.x - target.x) * (target.x - target.x) + (target.y - target.y) * (target.y
        - target.y) == 0) by (nonlinear_arith);
}

/// A point that is pulled toward an anchor it does not lie on comes to lie
/// at the wanted distance from the anchor, a step and a part in `FINE` apart.
pub proof fn lemma_pull_keeps_length(p: Point2, anchor: Point2, len: int)
    requires
        p != anchor,
        0 <= len < FINE_SPAN,
        within(p, JOINT_REACH as int),
        within(anchor, JOINT_REACH as int),
    ensures
        at_distance(anchor, pull(p, anchor, len), len),
{
    let dx = p.x - anchor.x;
    let dy = p.y - anchor.y;
    let from = fine_length(dx, dy);
    lemma_fine_length_covers(dx, dy);
    lemma_rescale_bound(dx, len, from);
    lemma_rescale_bound(dy, len, from);
    assert(magnitude(len) / (FINE as int) <= 0x1_0000_0000);
    lemma_rescale_keeps_length(dx, dy, len);
}

/// At rest no segment is longer, along either axis, than its rest length.
pub proof fn lemma_rest_within_lengths(offsets: Seq<Vec2>)
    requires
        offsets.len() <= MAX_CHAIN,
    ensures
        within_rest_lengths(rest_joints(offsets), offsets),
{
    let joints = rest_joints(offsets);
    assert forall|i: int| 0 <= i < offsets.len() implies {
        &&& magnitude(#[trigger] joints[i + 1].x - joints[i].x) <= segment_length(offsets, i) / (
        FINE as int)
        &&& magnitude(joints[i + 1].y - joints[i].y) <= segment_length(offsets, i) / (FINE as int)
    } by {
        lemma_rest_joint_bound(offsets, i);
        lemma_rest_joint_bound(offsets, i + 1);
        let x = offsets[i].x as int;
        let y = offsets[i].y as int;
        assert(joints[i + 1].x - joints[i].x == x);
        assert(joints[i + 1].y - joints[i].y == y);
        lemma_fine_length_covers(x, y);
        let len = segment_length(offsets, i);
        vstd::arithmetic::div_mod::lemma_div_is_ordered(magnitude(x) * FINE, len, FINE as int);
        vstd::arithmetic::div_mod::lemma_div_is_ordered(magnitude(y) * FINE, len, FINE as int);
        vstd::arithmetic::div_mod::lemma_div_multiples_vanish(magnitude(x), FINE as int);
        vstd::arithmetic::div_mod::lemma_div_multiples_vanish(magnitude(y), FINE as int);
        assert(magnitude(x) * FINE == FINE * magnitude(x)) by (nonlinear_arith);
        assert(magnitude(y) * FINE == FINE * magnitude(y)) by (nonlinear_arith);
    }
}

/// The greatest magnitude that a joint's coordinate takes while solving.
pub const JOINT_REACH: i64 = 0x2000_0000_0000;

/// Whether both coordinates of `p` are within `bound`.
pub open spec fn within(p: Point2, bound: int) -> bool {
    -bound <= p.x <= bound && -bound <= p.y <= bound
}

/// The point at distance `len` from `anchor`, in the direction of `p`.
fn pull_toward(p: Point2, anchor: Point2, len: u64) -> (r: Point2)
    requires
        within(p, JOINT_REACH as int),
        within(anchor, JOINT_REACH as int),
        len < FINE_SPAN,
    ensures
        r == pull(p, anchor, len as int),
        anchor.x - 0x1_0000_0000 <= r.x <= anchor.x + 0x1_0000_0000,
        anchor.y - 0x1_0000_0000 <= r.y <= anchor.y + 0x1_0000_0000,
        magnitude(r.x - anchor.x) <= len / FINE,
        magnitude(r.y - anchor.y) <= len / FINE,
        p != anchor ==> at_distance(anchor, r, len as int),
{
    proof {
        if p != anchor {
            lemma_pull_keeps_length(p, anchor, len as int);
        }
    }
    let dx: i64 = p.x - anchor.x;
    let dy: i64 = p.y - anchor.y;
    let from: u64 = fine_length_of(dx, dy);
    proof {
        lemma_fine_length_covers(dx as int, dy as int);
        assert(magnitude(len as int) / (FINE as int) <= 0x1_0000_0000);
    }
    let rx: i64 = rescale_to(dx, len as i64, from);
    let ry: i64 = rescale_to(dy, len as i64, from);
    Point2 { x: anchor.x + rx, y: anchor.y + ry }
}

/// The rest lengths of the segments, in `FINE`-ths of a step.
fn segment_lengths(offsets: &[Vec2]) -> (lengths: Vec<u64>)
    ensures
        lengths@.len() == offsets@.len(),
        forall|i: int|
            0 <= i < offsets@.len() ==> (#[trigger] lengths@[i]) == segment_length(offsets@, i)
                && lengths@[i] < FINE_SPAN,
{
    let mut lengths: Vec<u64> = Vec::new();
    let mut i: usize = 0;
    while i < offsets.len()
        invariant
            i <= offsets@.len(),
            lengths@.len() == i,
            forall|k: int|
                0 <= k < i ==> (#[trigger] lengths@[k]) == segment_length(offsets@, k)
                    && lengths@[k] < FINE_SPAN,
        decreases offsets@.len() - i,
    {
        proof {
            lemma_segment_length_bound(offsets@[i as int].x, offsets@[i as int].y);
        }
        let len: u64 = fine_length_of(offsets[i].x as i64, offsets[i].y as i64);
        lengths.push(len);
        i += 1;
    }
    lengths
}

/// The joints of the chain at rest.
fn rest_joints_of(offsets: &[Vec2]) -> (joints: Vec<Point2>)
    requires
        offsets@.len() <= MAX_CHAIN,
    ensures
        joints@ == rest_joints(offsets@),
        forall|k: int| 0 <= k < joints@.len() ==> within(#[trigger] joints@[k], JOINT_REACH as int),
        within_rest_lengths(joints@, offsets@),
{
    let mut joints: Vec<Point2> = Vec::new();
    let mut here = Point2 { x: 0, y: 0 };
    joints.push(here);
    let mut i: usize = 0;
    while i < offsets.len()
        invariant
            i <= offsets@.len() <= MAX_CHAIN,
            joints@.len() == i + 1,
            here == rest_joint(offsets@, i as int),
            forall|k: int| 0 <= k <= i ==> (#[trigger] joints@[k]) == rest_joint(offsets@, k),
            forall|k: int| 0 <= k <= i ==> within(#[trigger] joints@[k], JOINT_REACH as int),
        decreases offsets@.len() - i,
    {
        proof {
            lemma_rest_joint_bound(offsets@, i as int);
            lemma_rest_joint_bound(offsets@, i + 1);
        }
        here = Point2 { x: here.x + offsets[i].x as i64, y: here.y + offsets[i].y as i64 };
        joints.push(here);
        i += 1;
    }
    assert(joints@ =~= rest_joints(offsets@));
    proof {
        lemma_rest_within_lengths(offsets@);
    }
    joints
}

/// One pass over the joints: backward from the target, then forward from
/// the root.
fn make_pass(joints: &mut Vec<Point2>, offsets: &[Vec2], lengths: &Vec<u64>, target: Point2)
    requires
        1 <= offsets@.len() <= MAX_CHAIN,
        old(joints)@.len() == offsets@.len() + 1,
        lengths@.len() == offsets@.len(),
        forall|i: int|
            0 <= i < offsets@.len() ==> (#[trigger] lengths@[i]) == segment_length(offsets@, i)
                && lengths@[i] < FINE_SPAN,
        within(target, TARGET_REACH as int),
        forall|k: int|
            0 <= k < old(joints)@.len() ==> within(#[trigger] old(joints)@[k], JOINT_REACH as int),
    ensures
        final(joints)@ == pass(old(joints)@, offsets@, target),
        final(joints)@.len() == old(joints)@.len(),
        final(joints)@[0] == (Point2 { x: 0, y: 0 }),
        within_rest_lengths(final(joints)@, offsets@),
        keeps_rest_lengths(
            backward_pass(old(joints)@, offsets@, target, 0),
            final(joints)@,
            offsets@,
        ),
        forall|k: int|
            0 <= k < final(joints)@.len() ==> within(
                #[trigger] final(joints)@[k],
                JOINT_REACH as int,
            ),
{
    let n: usize = offsets.len();
    let ghost start = joints@;
    joints.set(n, target);
    let mut from: usize = n;
    while from > 0
        invariant
            from <= n,
            n == offsets@.len(),
            1 <= n <= MAX_CHAIN,
            joints@.len() == n + 1,
            start.len() == n + 1,
            lengths@.len() == n,
            forall|i: int|
                0 <= i < n ==> (#[trigger] lengths@[i]) == segment_length(offsets@, i) && lengths@[i]
                    < FINE_SPAN,
            within(target, TARGET_REACH as int),
            joints@ == backward_pass(start, offsets@, target, from as int),
            forall|k: int|
                from <= k <= n ==> within(
                    #[trigger] joints@[k],
                    TARGET_REACH + (n - k) * 0x1_0000_0000,
                ),
            forall|k: int| 0 <= k < from ==> within(#[trigger] joints@[k], JOINT_REACH as int),
        decreases from,
    {
        from -= 1;
        assert(within(joints@[from + 1], TARGET_REACH + (n - (from + 1)) * 0x1_0000_0000));
        assert(within(joints@[from as int], JOINT_REACH as int));
        let moved: Point2 = pull_toward(joints[from], joints[from + 1], lengths[from]);
        joints.set(from, moved);
    }
    let ghost back = joints@;
    assert(back == backward_pass(start, offsets@, target, 0));
    joints.set(0, Point2 { x: 0, y: 0 });
    let mut upto: usize = 0;
    while upto < n
        invariant
            upto <= n,
            n == offsets@.len(),
            1 <= n <= MAX_CHAIN,
            joints@.len() == n + 1,
            back.len() == n + 1,
            lengths@.len() == n,
            forall|i: int|
                0 <= i < n ==> (#[trigger] lengths@[i]) == segment_length(offsets@, i) && lengths@[i]
                    < FINE_SPAN,
            joints@ == forward_pass(back, offsets@, upto as int),
            joints@[0] == (Point2 { x: 0, y: 0 }),
            forall|k: int| upto < k <= n ==> joints@[k] == back[k],
            forall|i: int|
                0 <= i < upto && back[i + 1] != #[trigger] joints@[i] ==> at_distance(
                    joints@[i],
                    joints@[i + 1],
                    segment_length(offsets@, i),
                ),
            forall|i: int|
                0 <= i < upto ==> {
                    &&& magnitude(#[trigger] joints@[i + 1].x - joints@[i].x) <= segment_length(
                        offsets@,
                        i,
                    ) / (FINE as int)
                    &&& magnitude(joints@[i + 1].y - joints@[i].y) <= segment_length(offsets@, i) / (
                    FINE as int)
                },
            forall|k: int| 0 <= k <= upto ==> within(#[trigger] joints@[k], k * 0x1_0000_0000),
            forall|k: int| upto < k <= n ==> within(#[trigger] joints@[k], JOINT_REACH as int),
        decreases n - upto,
    {
        upto += 1;
        assert(within(joints@[upto - 1], (upto - 1) * 0x1_0000_0000));
        assert(within(joints@[upto as int], JOINT_REACH as int));
        let moved: Point2 = pull_toward(joints[upto], joints[upto - 1], lengths[upto - 1]);
        joints.set(upto, moved);
    }
    proof {
        assert forall|k: int| 0 <= k < joints@.len() implies within(
            #[trigger] joints@[k],
            JOINT_REACH as int,
        ) by {
            assert(within(joints@[k], k * 0x1_0000_0000));
        }
    }
}

/// How far the segment from `from` to `to` is turned against `rest`.
fn turn_between(rest: Vec2, from: Point2, to: Point2) -> (turn: Turn)
    requires
        within(from, JOINT_REACH as int),
        within(to, JOINT_REACH as int),
    ensures
        turn == turn_of(rest, from, to),
{
    let dx: i128 = (to.x - from.x) as i128;
    let dy: i128 = (to.y - from.y) as i128;
    let rx: i128 = rest.x as i128;
    let ry: i128 = rest.y as i128;
    assert(-0x8000_0000 * 0x4000_0000_0000 <= rx * dx <= 0x8000_0000 * 0x4000_0000_0000
        && -0x8000_0000 * 0x4000_0000_0000 <= ry * dy <= 0x8000_0000 * 0x4000_0000_0000
        && -0x8000_0000 * 0x4000_0000_0000 <= rx * dy <= 0x8000_0000 * 0x4000_0000_0000
        && -0x8000_0000 * 0x4000_0000_0000 <= ry * dx <= 0x8000_0000 * 0x4000_0000_0000)
        by (nonlinear_arith)
        requires
            -0x8000_0000 <= rx <= 0x8000_0000,
            -0x8000_0000 <= ry <= 0x8000_0000,
            -0x4000_0000_0000 <= dx <= 0x4000_0000_0000,
            -0x4000_0000_0000 <= dy <= 0x4000_0000_0000,
    ;
    Turn { along: rx * dx + ry * dy, across: rx * dy - ry * dx }
}

/// Whether `joint` lies on the target.
fn lies_on(joint: Point2, target: Point2) -> (reached: bool)
    requires
        within(joint, JOINT_REACH as int),
        within(target, TARGET_REACH as int),
    ensures
        reached == (distance_squared(joint, target) < REACHED_WITHIN),
{
    let dx: i128 = (joint.x - target.x) as i128;
    let dy: i128 = (joint.y - target.y) as i128;
    assert(0 <= dx * dx <= 0x4000_0000_0000 * 0x4000_0000_0000 && 0 <= dy * dy <= 0x4000_0000_0000
        * 0x4000_0000_0000) by (nonlinear_arith)
        requires
            -0x4000_0000_0000 <= dx <= 0x4000_0000_0000,
            -0x4000_0000_0000 <= dy <= 0x4000_0000_0000,
    ;
    dx * dx + dy * dy < REACHED_WITHIN
}

/// Bends the chain with the rest offsets `offsets` toward `target`, which is
/// given relative to the chain's root, in exactly `iterations` passes.
///
/// Returns nothing where the chain has no segment or more than `MAX_CHAIN`,
/// or where the target is beyond `TARGET_REACH`. Otherwise the solution holds
/// the joints after the passes, the turn of every segment against its rest
/// direction, and whether the last joint lies on the target.
pub fn inverse_kinematics(offsets: &[Vec2], target: Point2, iterations: usize) -> (solution: Option<
    Solution,
>)
    ensures
        solution is Some <==> solvable(offsets@, target),
        solution matches Some(s) ==> {
            &&& s.joints@ == solved_joints(offsets@, target, iterations as nat)
            &&& s.joints@.len() == offsets@.len() + 1
            &&& s.joints@[0] == (Point2 { x: 0, y: 0 })
            &&& within_rest_lengths(s.joints@, offsets@)
            &&& iterations >= 1 ==> keeps_rest_lengths(
                backward_pass(
                    solved_joints(offsets@, target, (iterations - 1) as nat),
                    offsets@,
                    target,
                    0,
                ),
                s.joints@,
                offsets@,
            )
            &&& s.turns@ == turns_of(offsets@, s.joints@)
            &&& s.reached == reaches(s.joints@, target)
        },
{
    let n: usize = offsets.len();
    if n < 1 || n > MAX_CHAIN || target.x < -TARGET_REACH || target.x > TARGET_REACH || target.y
        < -TARGET_REACH || target.y > TARGET_REACH {
        return None;
    }
    let lengths: Vec<u64> = segment_lengths(offsets);
    let mut joints: Vec<Point2> = rest_joints_of(offsets);
    let mut done: usize = 0;
    while done < iterations
        invariant
            done <= iterations,
            n == offsets@.len(),
            1 <= n <= MAX_CHAIN,
            within(target, TARGET_REACH as int),
            lengths@.len() == n,
            forall|i: int|
                0 <= i < n ==> (#[trigger] lengths@[i]) == segment_length(offsets@, i) && lengths@[i]
                    < FINE_SPAN,
            joints@.len() == n + 1,
            joints@[0] == (Point2 { x: 0, y: 0 }),
            within_rest_lengths(joints@, offsets@),
            done >= 1 ==> keeps_rest_lengths(
                backward_pass(
                    solved_joints(offsets@, target, (done - 1) as nat),
                    offsets@,
                    target,
                    0,
                ),
                joints@,
                offsets@,
            ),
            joints@ == solved_joints(offsets@, target, done as nat),
            forall|k: int| 0 <= k < joints@.len() ==> within(#[trigger] joints@[k], JOINT_REACH as int),
        decreases iterations - done,
    {
        make_pass(&mut joints, offsets, &lengths, target);
        done += 1;
    }
    let mut turns: Vec<Turn> = Vec::new();
    let pairs: Vec<(usize, usize)> = neighbour_pairs(joints.len());
    let mut i: usize = 0;
    while i < pairs.len()
        invariant
            i <= n,
            n == offsets@.len(),
            joints@.len() == n + 1,
            pairs@.len() == n,
            forall|k: int|
                0 <= k < pairs@.len() ==> (#[trigger] pairs@[k]) == (k as usize, (k + 1) as usize),
            forall|k: int| 0 <= k < joints@.len() ==> within(#[trigger] joints@[k], JOINT_REACH as int),
            turns@.len() == i,
            forall|k: int|
                0 <= k < i ==> (#[trigger] turns@[k]) == turn_of(
                    offsets@[k],
                    joints@[k],
                    joints@[k + 1],
                ),
        decreases n - i,
    {
        let (from, to): (usize, usize) = pairs[i];
        assert(from == i && to == i + 1);
        assert(within(joints@[from as int], JOINT_REACH as int));
        assert(within(joints@[to as int], JOINT_REACH as int));
        turns.push(turn_between(offsets[from], joints[from], joints[to]));
        i += 1;
    }
    assert(turns@ =~= turns_of(offsets@, joints@));
    assert(within(joints@[n as int], JOINT_REACH as int));
    let reached: bool = lies_on(joints[n], target);
    Some(Solution { joints, turns, reached })
}

/// The rotation of every bone of a chain relative to the bone before it:
/// the bone's angle less the angle of the bone before it, and for the first
/// bone less `parent`, the angle of what the chain hangs from.
pub fn local_rotations(angles: &[i32], parent: i32) -> (rotations: Vec<i64>)
    ensures
        rotations@ == relative_angles(angles@, parent),
{
    let mut rotations: Vec<i64> = Vec::new();
    let mut i: usize = 0;
    while i < angles.len()
        invariant
            i <= angles@.len(),
            rotations@.len() == i,
            forall|k: int| 0 <= k < i ==> (#[trigger] rotations@[k]) == relative_angles(
                angles@,
                parent,
            )[k],
        decreases angles@.len() - i,
    {
        let before: i32 = if i == 0 {
            parent
        } else {
            angles[i - 1]
        };
        rotations.push(angles[i] as i64 - before as i64);
        i += 1;
    }
    assert(rotations@ =~= relative_angles(angles@, parent));
    rotations
}

} // verus!
