//! Weight curves for blending: one weight per body segment.

use crate::fixed::{trunc_div, ONE};
use vstd::prelude::*;

verus! {

/// One weight for each segment of a body, from the first segment on. A full
/// weight is `ONE`. A body segment past the end of the curve has weight zero.
#[derive(Debug, PartialEq)]
pub struct BodyGradient(pub Vec<u32>);

impl View for BodyGradient {
    type V = Seq<u32>;

    open spec fn view(&self) -> Seq<u32> {
        self.0@
    }
}

/// `num / den` as a weight, rounded toward zero; zero where `den` is zero.
pub open spec fn ratio(num: int, den: int) -> int {
    if den == 0 {
        0
    } else {
        trunc_div(num * ONE, den)
    }
}

/// Weight `i` of the falling line over `n` segments: full at the first
/// segment, zero at the last.
pub open spec fn falling(n: int, i: int) -> int {
    ratio(n - (i + 1), n - 1)
}

/// Weight `i` of the rising line over `n` segments: zero at the first two
/// segments, then one step of `1 / (n - 1)` more at each segment.
pub open spec fn rising(n: int, i: int) -> int {
    ratio(if i >= 1 { i - 1 } else { 0 }, n - 1)
}

/// `num / den` as a weight, for `num <= den`.
fn weight_ratio(num: usize, den: usize) -> (w: u32)
    requires
        num <= den,
    ensures
        w == ratio(num as int, den as int),
        w <= ONE,
{
    if den == 0 {
        0
    } else {
        let scaled: u128 = (num as u128) * (ONE as u128);
        let q: u128 = scaled / (den as u128);
        assert(q <= ONE) by {
            assert(num * ONE <= den * ONE) by (nonlinear_arith)
                requires
                    num <= den,
            ;
            vstd::arithmetic::div_mod::lemma_div_is_ordered(
                scaled as int,
                den * ONE,
                den as int,
            );
            vstd::arithmetic::div_mod::lemma_div_multiples_vanish(ONE as int, den as int);
            assert(den * ONE == ONE * den) by (nonlinear_arith);
        }
        q as u32
    }
}

impl BodyGradient {
    /// The line that falls from a full weight at the first of `n` segments to
    /// zero at the last. For a single segment the weight is zero.
    pub fn decreasing_linear(n: usize) -> (gradient: BodyGradient)
        ensures
            gradient@.len() == n,
            forall|i: int| 0 <= i < n ==> gradient@[i] == falling(n as int, i),
    {
        let mut v: Vec<u32> = Vec::new();
        let mut i: usize = 0;
        while i < n
            invariant
                i <= n,
                v@.len() == i,
                forall|k: int| 0 <= k < i ==> v@[k] == falling(n as int, k),
            decreases n - i,
        {
            let w: u32 = weight_ratio(n - (i + 1), n - 1);
            v.push(w);
            i += 1;
        }
        BodyGradient(v)
    }

    /// The line that rises over `n` segments: zero at the first two, and
    /// `(i - 1) / (n - 1)` at segment `i` after them. For a single segment
    /// the weight is zero.
    pub fn increasing_linear(n: usize) -> (gradient: BodyGradient)
        ensures
            gradient@.len() == n,
            forall|i: int| 0 <= i < n ==> gradient@[i] == rising(n as int, i),
    {
        let mut v: Vec<u32> = Vec::new();
        let mut i: usize = 0;
        while i < n
            invariant
                i <= n,
                v@.len() == i,
                forall|k: int| 0 <= k < i ==> v@[k] == rising(n as int, k),
            decreases n - i,
        {
            let num: usize = if i >= 1 {
                i - 1
            } else {
                0
            };
            let w: u32 = weight_ratio(num, n - 1);
            v.push(w);
            i += 1;
        }
        BodyGradient(v)
    }

    /// The curve with zero weights added at its end until it has `n` weights.
    /// A curve that already has `n` weights or more is unchanged.
    pub fn fill_zeroes_till(self, n: usize) -> (gradient: BodyGradient)
        ensures
            gradient@.len() == if self@.len() >= n { self@.len() } else { n as nat },
            forall|i: int| 0 <= i < self@.len() ==> gradient@[i] == self@[i],
            forall|i: int| self@.len() <= i < gradient@.len() ==> gradient@[i] == 0,
    {
        let mut v: Vec<u32> = self.0;
        while v.len() < n
            invariant
                v@.len() >= self@.len(),
                v@.len() <= n || v@.len() == self@.len(),
                forall|i: int| 0 <= i < self@.len() ==> v@[i] == self@[i],
                forall|i: int| self@.len() <= i < v@.len() ==> v@[i] == 0,
            decreases n - v@.len(),
        {
            v.push(0);
        }
        BodyGradient(v)
    }

    /// The curve with its first weights replaced by `vals`.
    pub fn start_with(self, vals: Vec<u32>) -> (gradient: BodyGradient)
        requires
            vals@.len() <= self@.len(),
        ensures
            gradient@.len() == self@.len(),
            forall|i: int| 0 <= i < vals@.len() ==> gradient@[i] == vals@[i],
            forall|i: int| vals@.len() <= i < self@.len() ==> gradient@[i] == self@[i],
    {
        let mut v: Vec<u32> = self.0;
        let mut i: usize = 0;
        while i < vals.len()
            invariant
                i <= vals@.len() <= v@.len(),
                v@.len() == self@.len(),
                forall|k: int| 0 <= k < i ==> v@[k] == vals@[k],
                forall|k: int| i <= k < self@.len() ==> v@[k] == self@[k],
            decreases vals@.len() - i,
        {
            v.set(i, vals[i]);
            i += 1;
        }
        BodyGradient(v)
    }
}

} // verus!
