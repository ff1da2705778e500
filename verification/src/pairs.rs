//! Neighbouring indices.

use itertools::Itertools;
use vstd::prelude::*;

verus! {

/// The pairs of neighbouring indices below `n`, in order: `(0, 1)`, `(1, 2)`
/// and so on up to `(n - 2, n - 1)`; none where `n` is below two.
///
/// The pairs are what `Itertools::tuple_windows` makes of the range `0..n`,
/// gathered by `Itertools::collect_vec`: every window of two neighbouring
/// items of the range, from the first on.
#[verifier::external_body]
pub(crate) fn neighbour_pairs(n: usize) -> (pairs: Vec<(usize, usize)>)
    ensures
        pairs@.len() == if n == 0 {
            0
        } else {
            n - 1
        },
        forall|k: int| 0 <= k < pairs@.len() ==> (#[trigger] pairs@[k]) == (k as usize, (k + 1) as usize),
{
    (0..n).tuple_windows().collect_vec()
}

} // verus!
