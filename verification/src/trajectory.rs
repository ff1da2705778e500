//! Moving targets for the limbs.
//!
//! A target remembers the point it was set to before and the point it is set
//! to now, and moves from the one to the other as time passes: along the
//! straight line between them, or along an arc above that line.

use crate::fixed::{lemma_trunc_div_bounds, lemma_trunc_div_exact, magnitude, quotient, trunc_div, ONE};
use crate::geometry::Point2;
use crate::ik::{within, TARGET_REACH};
use vstd::prelude::*;

verus! {

/// What a target holds.
pub struct TargetState {
    /// The point the target was set to before.
    pub prev: Point2,
    /// The point the target is set to now.
    pub curr: Point2,
    /// The time since the target was last set; `u64::MAX` at most.
    pub elapsed: u64,
    /// The time the way from `prev` to `curr` takes.
    pub time: u32,
}

/// `c`, or the nearest coordinate within `TARGET_REACH`.
pub open spec fn clamp(c: i64) -> i64 {
    if c < -TARGET_REACH {
        (-TARGET_REACH) as i64
    } else if c > TARGET_REACH {
        TARGET_REACH
    } else {
        c
    }
}

/// `p`, or the nearest point within `TARGET_REACH`.
pub open spec fn clamp_point(p: Point2) -> Point2 {
    Point2 { x: clamp(p.x), y: clamp(p.y) }
}

/// The state after the target is set to `target`: the old point is kept as
/// the previous one, and the time starts anew.
pub open spec fn retarget(s: TargetState, target: Point2) -> TargetState {
    TargetState { prev: s.curr, curr: clamp_point(target), elapsed: 0, time: s.time }
}

/// The state after `delta` more time has passed.
pub open spec fn advance(s: TargetState, delta: u32) -> TargetState {
    TargetState {
        prev: s.prev,
        curr: s.curr,
        elapsed: if s.elapsed + delta > u64::MAX {
            u64::MAX
        } else {
            (s.elapsed + delta) as u64
        },
        time: s.time,
    }
}

/// The state of a target that rests on `target`: its time is over.
pub open spec fn resting(target: Point2, time: u32) -> TargetState {
    TargetState { prev: clamp_point(target), curr: clamp_point(target), elapsed: u64::MAX, time }
}

/// How far the way from `from` to `to` has come after `elapsed` of `time`.
/// A way that takes no time is over at once.
pub open spec fn part_way(from: int, to: int, elapsed: int, time: int) -> int {
    if time == 0 {
        to
    } else {
        from + trunc_div((to - from) * elapsed, time)
    }
}

/// Where a target on a straight line is: on the way from the previous point
/// to the present one while its time lasts, and at the previous point once
/// its time is over.
pub open spec fn linear_value(s: TargetState) -> Point2 {
    if s.elapsed > s.time {
        s.prev
    } else {
        Point2 {
            x: part_way(s.prev.x as int, s.curr.x as int, s.elapsed as int, s.time as int) as i64,
            y: part_way(s.prev.y as int, s.curr.y as int, s.elapsed as int, s.time as int) as i64,
        }
    }
}

/// The height of the arc at `x` along a way of length `diff`: zero at both
/// ends, and rising from either end with the slope `slope`, of which `ONE`
/// is a rise of one step for every step along.
pub open spec fn arc_height(slope: int, x: int, diff: int) -> int {
    if diff == 0 {
        0
    } else {
        trunc_div(
            slope * (magnitude(x) * (magnitude(diff) - magnitude(x))),
            magnitude(diff) * ONE,
        )
    }
}

/// Where a target on an arc is: at the present point once its time is over;
/// before that, as far along the first axis as the time has come, and above
/// the previous point by the height of the arc there.
pub open spec fn arc_value(s: TargetState, slope: i32) -> Point2 {
    if s.elapsed > s.time {
        s.curr
    } else {
        let diff = s.curr.x - s.prev.x;
        let x = part_way(0, diff, s.elapsed as int, s.time as int);
        Point2 { x: (s.prev.x + x) as i64, y: (s.prev.y + arc_height(slope as int, x, diff)) as i64 }
    }
}

/// The part of a way that has come lies between its ends.
pub proof fn lemma_part_way_between(from: int, to: int, elapsed: int, time: int)
    requires
        0 <= elapsed <= time,
    ensures
        from <= to ==> from <= part_way(from, to, elapsed, time) <= to,
        to <= from ==> to <= part_way(from, to, elapsed, time) <= from,
        elapsed == time ==> part_way(from, to, elapsed, time) == to,
        elapsed == 0 && time > 0 ==> part_way(from, to, elapsed, time) == from,
{
    if time > 0 {
        let d = to - from;
        if d >= 0 {
            assert(0 <= d * elapsed <= d * time) by (nonlinear_arith)
                requires
                    0 <= d,
                    0 <= elapsed <= time,
            ;
            lemma_trunc_div_bounds(d * elapsed, time, 0, d);
        } else {
            assert(d * time <= d * elapsed <= 0) by (nonlinear_arith)
                requires
                    d <= 0,
                    0 <= elapsed <= time,
            ;
            lemma_trunc_div_bounds(d * elapsed, time, d, 0);
        }
        if elapsed == time {
            lemma_trunc_div_exact(d, time);
        }
        if elapsed == 0 {
            assert(d * elapsed == 0) by (nonlinear_arith)
                requires
                    elapsed == 0,
            ;
        }
    }
}

/// The arc is level with its ends at both ends.
pub proof fn lemma_arc_ends(slope: int, diff: int)
    ensures
        arc_height(slope, 0, diff) == 0,
        arc_height(slope, diff, diff) == 0,
{
    if diff != 0 {
        let m = magnitude(diff);
        assert(slope * (0 * (m - 0)) == 0) by (nonlinear_arith);
        assert(slope * (m * (m - m)) == 0) by (nonlinear_arith);
        assert(m * ONE > 0) by (nonlinear_arith)
            requires
                m > 0,
        ;
    }
}

/// A target on a straight line that is set to `target` and then given
/// exactly its time stands on `target`.
pub proof fn lemma_linear_round_trip(s: TargetState, target: Point2)
    requires
        within(target, TARGET_REACH as int),
    ensures
        linear_value(advance(retarget(s, target), s.time)) == target,
{
    let t = advance(retarget(s, target), s.time);
    lemma_part_way_between(t.prev.x as int, t.curr.x as int, t.elapsed as int, t.time as int);
    lemma_part_way_between(t.prev.y as int, t.curr.y as int, t.elapsed as int, t.time as int);
}

/// A target on an arc that is set to `target` and then given exactly its
/// time stands on the end of the arc: as far along as `target`, and level
/// with the point it started from.
pub proof fn lemma_arc_round_trip(s: TargetState, slope: i32, target: Point2)
    requires
        within(target, TARGET_REACH as int),
    ensures
        arc_value(advance(retarget(s, target), s.time), slope) == (Point2 {
            x: target.x,
            y: s.curr.y,
        }),
{
    let t = advance(retarget(s, target), s.time);
    let diff = t.curr.x - t.prev.x;
    lemma_part_way_between(0, diff, t.elapsed as int, t.time as int);
    lemma_arc_ends(slope as int, diff);
}

/// `p`, or the nearest point within `TARGET_REACH`.
pub fn clamp_to_reach(p: Point2) -> (r: Point2)
    ensures
        r == clamp_point(p),
        within(r, TARGET_REACH as int),
{
    let x: i64 = if p.x < -TARGET_REACH {
        -TARGET_REACH
    } else if p.x > TARGET_REACH {
        TARGET_REACH
    } else {
        p.x
    };
    let y: i64 = if p.y < -TARGET_REACH {
        -TARGET_REACH
    } else if p.y > TARGET_REACH {
        TARGET_REACH
    } else {
        p.y
    };
    Point2 { x, y }
}

/// How far the way from `from` to `to` has come after `elapsed` of `time`.
fn part_way_of(from: i64, to: i64, elapsed: u64, time: u32) -> (r: i64)
    requires
        -2 * TARGET_REACH <= from <= 2 * TARGET_REACH,
        -2 * TARGET_REACH <= to <= 2 * TARGET_REACH,
        elapsed <= time,
    ensures
        r == part_way(from as int, to as int, elapsed as int, time as int),
        from <= to ==> from <= r <= to,
        to <= from ==> to <= r <= from,
{
    proof {
        lemma_part_way_between(from as int, to as int, elapsed as int, time as int);
    }
    if time == 0 {
        to
    } else {
        let d: i128 = (to - from) as i128;
        assert(-0x4000_0000_0000 * 0x1_0000_0000 <= d * elapsed <= 0x4000_0000_0000 * 0x1_0000_0000)
            by (nonlinear_arith)
            requires
                -0x4000_0000_0000 <= d <= 0x4000_0000_0000,
                0 <= elapsed <= 0x1_0000_0000,
        ;
        let moved: i128 = quotient(d * (elapsed as i128), time as i128);
        (from as i128 + moved) as i64
    }
}

/// The magnitude of `c`.
fn magnitude_of(c: i64) -> (m: i128)
    ensures
        m == magnitude(c as int),
{
    if c < 0 {
        -(c as i128)
    } else {
        c as i128
    }
}

/// The height of the arc at `x` along a way of length `diff`.
fn arc_height_of(slope: i32, x: i64, diff: i64) -> (h: i64)
    requires
        -2 * TARGET_REACH <= diff <= 2 * TARGET_REACH,
        magnitude(x as int) <= magnitude(diff as int),
    ensures
        h == arc_height(slope as int, x as int, diff as int),
        -0x200_0000_0000_0000 <= h <= 0x200_0000_0000_0000,
{
    if diff == 0 {
        0
    } else {
        let mx: i128 = magnitude_of(x);
        let md: i128 = magnitude_of(diff);
        assert(0 <= mx * (md - mx) <= md * 0x2000_0000_0000) by (nonlinear_arith)
            requires
                0 <= mx <= md,
                md <= 0x2000_0000_0000,
        ;
        assert(md * 0x2000_0000_0000 <= 0x2000_0000_0000 * 0x2000_0000_0000) by (nonlinear_arith)
            requires
                0 <= md <= 0x2000_0000_0000,
        ;
        let area: i128 = mx * (md - mx);
        assert(md * 0x2000_0000_0000 <= 0x2000_0000_0000 * 0x2000_0000_0000) by (nonlinear_arith)
            requires
                0 <= md <= 0x2000_0000_0000,
        ;
        let s: i128 = slope as i128;
        assert(-0x8000_0000 * (md * 0x2000_0000_0000) <= s * area <= 0x8000_0000 * (md
            * 0x2000_0000_0000)) by (nonlinear_arith)
            requires
                -0x8000_0000 <= s <= 0x8000_0000,
                0 <= area <= md * 0x2000_0000_0000,
        ;
        let den: i128 = md * (ONE as i128);
        assert(0x8000_0000 * (md * 0x2000_0000_0000) <= 0x200_0000_0000_0000 * den)
            by (nonlinear_arith)
            requires
                den == md * 1_000_000,
                md > 0,
        ;
        assert(-0x200_0000_0000_0000 * den <= s * area <= 0x200_0000_0000_0000 * den)
            by (nonlinear_arith)
            requires
                -0x8000_0000 * (md * 0x2000_0000_0000) <= s * area <= 0x8000_0000 * (md
                    * 0x2000_0000_0000),
                0x8000_0000 * (md * 0x2000_0000_0000) <= 0x200_0000_0000_0000 * den,
        ;
        proof {
            lemma_trunc_div_bounds(
                s * area,
                den as int,
                -0x200_0000_0000_0000,
                0x200_0000_0000_0000,
            );
        }
        quotient(s * area, den) as i64
    }
}

/// `elapsed` and `delta` more, or `u64::MAX` where that is less.
fn add_time(elapsed: u64, delta: u32) -> (sum: u64)
    ensures
        sum == if elapsed + delta > u64::MAX {
            u64::MAX
        } else {
            (elapsed + delta) as u64
        },
{
    if elapsed > u64::MAX - (delta as u64) {
        u64::MAX
    } else {
        elapsed + (delta as u64)
    }
}

/// A target that moves along the straight line from the point it was set to
/// before to the point it is set to now.
#[derive(Debug, PartialEq)]
pub struct LinearTarget {
    prev: Point2,
    curr: Point2,
    elapsed: u64,
    time: u32,
}

impl View for LinearTarget {
    type V = TargetState;

    closed spec fn view(&self) -> TargetState {
        TargetState { prev: self.prev, curr: self.curr, elapsed: self.elapsed, time: self.time }
    }
}

impl LinearTarget {
    #[verifier::type_invariant]
    spec fn in_reach(self) -> bool {
        within(self.prev, TARGET_REACH as int) && within(self.curr, TARGET_REACH as int)
    }

    /// A target that rests on `target` and will take `time` for each way.
    /// A point beyond `TARGET_REACH` is moved to the nearest point within it.
    pub fn new(target: Point2, time: u32) -> (t: LinearTarget)
        ensures
            t@ == resting(target, time),
    {
        let at: Point2 = clamp_to_reach(target);
        LinearTarget { prev: at, curr: at, elapsed: u64::MAX, time }
    }

    /// Sets the target to `target`: it starts to move there from the point it
    /// was set to before.
    pub fn update_target(&mut self, target: Point2)
        ensures
            final(self)@ == retarget(old(self)@, target),
    {
        proof {
            use_type_invariant(&*self);
        }
        let at: Point2 = clamp_to_reach(target);
        self.prev = self.curr;
        self.curr = at;
        self.elapsed = 0;
    }

    /// Lets `delta` more time pass.
    pub fn delta(&mut self, delta: u32)
        ensures
            final(self)@ == advance(old(self)@, delta),
    {
        proof {
            use_type_invariant(&*self);
        }
        self.elapsed = add_time(self.elapsed, delta);
    }

    /// Where the target is now.
    pub fn target(&self) -> (p: Point2)
        ensures
            p == linear_value(self@),
    {
        proof {
            use_type_invariant(self);
        }
        if self.elapsed > self.time as u64 {
            self.prev
        } else {
            Point2 {
                x: part_way_of(self.prev.x, self.curr.x, self.elapsed, self.time),
                y: part_way_of(self.prev.y, self.curr.y, self.elapsed, self.time),
            }
        }
    }

    /// The time since the target was last set.
    pub fn elapsed(&self) -> (e: u64)
        ensures
            e == self@.elapsed,
    {
        self.elapsed
    }
}

/// A target that moves along an arc from the point it was set to before
/// toward the point it is set to now.
#[derive(Debug, PartialEq)]
pub struct ParabolicTarget {
    prev: Point2,
    curr: Point2,
    elapsed: u64,
    arc_time: u32,
    arc_slope: i32,
}

impl View for ParabolicTarget {
    type V = TargetState;

    closed spec fn view(&self) -> TargetState {
        TargetState { prev: self.prev, curr: self.curr, elapsed: self.elapsed, time: self.arc_time }
    }
}

impl ParabolicTarget {
    #[verifier::type_invariant]
    spec fn in_reach(self) -> bool {
        within(self.prev, TARGET_REACH as int) && within(self.curr, TARGET_REACH as int)
    }

    /// The slope with which the arc rises from its ends.
    pub closed spec fn slope(&self) -> i32 {
        self.arc_slope
    }

    /// A target that rests on `target`, will take `arc_time` for each way and
    /// rise from the ends of each way with `arc_slope`. A point beyond
    /// `TARGET_REACH` is moved to the nearest point within it.
    pub fn new(target: Point2, arc_time: u32, arc_slope: i32) -> (t: ParabolicTarget)
        ensures
            t@ == resting(target, arc_time),
            t.slope() == arc_slope,
    {
        let at: Point2 = clamp_to_reach(target);
        ParabolicTarget { prev: at, curr: at, elapsed: u64::MAX, arc_time, arc_slope }
    }

    /// Sets the target to `target`: it starts to move there from the point it
    /// was set to before.
    pub fn update_target(&mut self, target: Point2)
        ensures
            final(self)@ == retarget(old(self)@, target),
            final(self).slope() == old(self).slope(),
    {
        proof {
            use_type_invariant(&*self);
        }
        let at: Point2 = clamp_to_reach(target);
        self.prev = self.curr;
        self.curr = at;
        self.elapsed = 0;
    }

    /// Lets `delta` more time pass.
    pub fn delta(&mut self, delta: u32)
        ensures
            final(self)@ == advance(old(self)@, delta),
            final(self).slope() == old(self).slope(),
    {
        proof {
            use_type_invariant(&*self);
        }
        self.elapsed = add_time(self.elapsed, delta);
    }

    /// Where the target is now.
    pub fn target(&self) -> (p: Point2)
        ensures
            p == arc_value(self@, self.slope()),
    {
        proof {
            use_type_invariant(self);
        }
        if self.elapsed > self.arc_time as u64 {
            self.curr
        } else {
            let diff: i64 = self.curr.x - self.prev.x;
            let x: i64 = part_way_of(0, diff, self.elapsed, self.arc_time);
            let h: i64 = arc_height_of(self.arc_slope, x, diff);
            Point2 { x: self.prev.x + x, y: self.prev.y + h }
        }
    }

    /// The time since the target was last set.
    pub fn elapsed(&self) -> (e: u64)
        ensures
            e == self@.elapsed,
    {
        self.elapsed
    }
}

} // verus!
