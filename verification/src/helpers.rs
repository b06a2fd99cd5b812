//! Helpers for guessing data resolutions.

use vstd::prelude::*;

verus! {

/// The gap between element `i` and element `i + 1`.
pub open spec fn gap(s: Seq<i128>, i: int) -> int {
    s[i + 1] - s[i]
}

/// `m` is the smallest gap between neighbouring elements of `s`.
pub open spec fn is_smallest_gap(s: Seq<i128>, m: int) -> bool {
    &&& exists|i: int| 0 <= i < s.len() - 1 && #[trigger] gap(s, i) == m
    &&& forall|j: int| 0 <= j < s.len() - 1 ==> m <= #[trigger] gap(s, j)
}

/// Guess the interval of regularly spaced values (such as timestamps in
/// nanoseconds): the smallest difference between neighbouring elements.
/// There is no guess for fewer than two elements.
pub fn guess_interval(elements: &[i128]) -> (interval: Option<i128>)
    requires
        forall|j: int|
            0 <= j < elements@.len() - 1 ==> i128::MIN <= #[trigger] gap(elements@, j)
                <= i128::MAX,
    ensures
        interval is None <==> elements@.len() < 2,
        interval matches Some(m) ==> is_smallest_gap(elements@, m as int),
{
    if elements.len() < 2 {
        return None;
    }
    assert(i128::MIN <= gap(elements@, 0) <= i128::MAX);
    let mut best: i128 = elements[1] - elements[0];
    let ghost mut best_at: int = 0;
    let mut i: usize = 1;
    while i < elements.len() - 1
        invariant
            1 <= i < elements@.len(),
            forall|j: int|
                0 <= j < elements@.len() - 1 ==> i128::MIN <= #[trigger] gap(elements@, j)
                    <= i128::MAX,
            0 <= best_at < i,
            best == gap(elements@, best_at),
            forall|j: int| 0 <= j < i ==> best <= #[trigger] gap(elements@, j),
        decreases elements@.len() - i,
    {
        assert(i128::MIN <= gap(elements@, i as int) <= i128::MAX);
        let d = elements[i + 1] - elements[i];
        if d < best {
            best = d;
            proof {
                best_at = i as int;
            }
        }
        i = i + 1;
    }
    assert(gap(elements@, best_at) == best);
    Some(best)
}

} // verus!
