//! Index bookkeeping for the sky modeller: baseline counts, the map from
//! tile indices to unflagged tile indices, and flattened shapelet
//! coefficients.

use std::collections::HashSet;

use vstd::prelude::*;

verus! {

/// The number of cross-correlation baselines between `n` tiles.
pub fn num_cross_baselines(n: usize) -> (b: usize)
    requires
        n >= 1,
        n * (n - 1) <= usize::MAX,
    ensures
        b == n * (n - 1) / 2,
{
    (n * (n - 1)) / 2
}

/// The tile indices below `n` that are not flagged, in order, as `i32`s.
pub open spec fn unflagged_indices(n: nat, flags: Set<usize>) -> Seq<i32>
    decreases n,
{
    if n == 0 {
        seq![]
    } else {
        let prev = unflagged_indices((n - 1) as nat, flags);
        if flags.contains((n - 1) as usize) {
            prev
        } else {
            prev.push((n - 1) as i32)
        }
    }
}

/// A simple map from an absolute tile index into an unflagged tile index:
/// the absolute indices of the unflagged tiles, in order, among all
/// `num_unflagged_tiles + tile_flags.len()` tiles.
pub fn tile_index_to_unflagged_tile_index_map(
    num_unflagged_tiles: usize,
    tile_flags: &HashSet<usize>,
) -> (map: Vec<i32>)
    requires
        num_unflagged_tiles + tile_flags@.len() <= usize::MAX,
    ensures
        map@ == unflagged_indices((num_unflagged_tiles + tile_flags@.len()) as nat, tile_flags@),
{
    broadcast use vstd::std_specs::hash::group_hash_axioms;

    let total = num_unflagged_tiles + tile_flags.len();
    let mut map: Vec<i32> = Vec::new();
    let mut i_tile: usize = 0;
    while i_tile < total
        invariant
            0 <= i_tile <= total,
            total == num_unflagged_tiles + tile_flags@.len(),
            map@ == unflagged_indices(i_tile as nat, tile_flags@),
        decreases total - i_tile,
    {
        if !tile_flags.contains(&i_tile) {
            map.push(i_tile as i32);
        }
        i_tile = i_tile + 1;
    }
    map
}

/// The map lists exactly the unflagged tile indices below `n`, each once,
/// in increasing order.
pub proof fn lemma_unflagged_indices(n: nat, flags: Set<usize>)
    requires
        n <= i32::MAX + 1,
    ensures
        forall|j: int|
            0 <= j < unflagged_indices(n, flags).len() ==> 0 <= #[trigger] unflagged_indices(
                n,
                flags,
            )[j] < n && !flags.contains(unflagged_indices(n, flags)[j] as usize),
        forall|j: int, k: int|
            0 <= j < k < unflagged_indices(n, flags).len() ==> #[trigger] unflagged_indices(
                n,
                flags,
            )[j] < #[trigger] unflagged_indices(n, flags)[k],
        forall|t: nat|
            t < n && !flags.contains(t as usize) ==> #[trigger] unflagged_indices(
                n,
                flags,
            ).contains(t as i32),
    decreases n,
{
    if n > 0 {
        let m = (n - 1) as nat;
        lemma_unflagged_indices(m, flags);
        let prev = unflagged_indices(m, flags);
        assert forall|t: nat| t < n && !flags.contains(t as usize) implies #[trigger] unflagged_indices(
            n,
            flags,
        ).contains(t as i32) by {
            if t < m {
                assert(prev.contains(t as i32));
                let j = choose|j: int| 0 <= j < prev.len() && prev[j] == t as i32;
                assert(unflagged_indices(n, flags)[j] == t as i32);
            } else {
                assert(unflagged_indices(n, flags).last() == t as i32);
            }
        }
    }
}

/// The lengths of the inner sequences.
pub open spec fn lengths<T>(s: Seq<Vec<T>>) -> Seq<usize> {
    s.map_values(|v: Vec<T>| v@.len() as usize)
}

/// The inner sequences one after another.
pub open spec fn flattened<T>(s: Seq<Vec<T>>) -> Seq<T>
    decreases s.len(),
{
    if s.len() == 0 {
        seq![]
    } else {
        flattened(s.drop_last()) + s.last()@
    }
}

/// The sum of the lengths.
pub open spec fn total_length<T>(s: Seq<Vec<T>>) -> nat
    decreases s.len(),
{
    if s.len() == 0 {
        0
    } else {
        total_length(s.drop_last()) + s.last()@.len()
    }
}

/// Flattening keeps every coefficient: the flattened sequence is as long as
/// the lengths add up to.
pub proof fn lemma_flattened_length<T>(s: Seq<Vec<T>>)
    ensures
        flattened(s).len() == total_length(s),
    decreases s.len(),
{
    if s.len() > 0 {
        lemma_flattened_length(s.drop_last());
    }
}

/// There are a variable number of shapelet coefficients for each shapelet
/// component. To avoid excessive dereferencing on GPUs (expensive), this
/// flattens the coefficients into a single array, with the lengths of the
/// array-of-arrays.
pub fn get_flattened_coeffs<T>(shapelet_coeffs: Vec<Vec<T>>) -> (r: (Vec<T>, Vec<usize>))
    ensures
        r.0@ == flattened(shapelet_coeffs@),
        r.1@ == lengths(shapelet_coeffs@),
{
    let ghost all = shapelet_coeffs@;
    let mut coeffs: Vec<T> = Vec::new();
    let mut coeff_lengths: Vec<usize> = Vec::new();
    let mut rest = shapelet_coeffs;
    let mut taken: Vec<Vec<T>> = Vec::new();
    // Take the components from the back, then lay them out from the front.
    while rest.len() > 0
        invariant
            rest@ + taken@.reverse() == all,
        decreases rest@.len(),
    {
        let ghost before_rest = rest@;
        let ghost before_taken = taken@;
        let v = rest.pop().unwrap();
        taken.push(v);
        assert(rest@ + taken@.reverse() =~= before_rest.drop_last() + seq![v] + before_taken.reverse());
        assert(rest@ + taken@.reverse() =~= all);
    }
    assert(taken@.reverse() =~= all);
    let ghost n = all.len();
    assert(all.take(0) =~= seq![]);
    while taken.len() > 0
        invariant
            taken@.reverse() == all.skip(all.len() - taken@.len()),
            taken@.len() <= all.len(),
            coeffs@ == flattened(all.take(all.len() - taken@.len())),
            coeff_lengths@ == lengths(all.take(all.len() - taken@.len())),
        decreases taken@.len(),
    {
        let ghost k = all.len() - taken@.len();
        let ghost before = taken@;
        let mut v = taken.pop().unwrap();
        assert(all[k] == v) by {
            assert(before.reverse()[0] == before.last());
            assert(all.skip(k)[0] == all[k]);
        }
        assert(taken@.reverse() =~= all.skip(k + 1)) by {
            assert(before.reverse().drop_first() =~= before.drop_last().reverse());
            assert(all.skip(k).drop_first() =~= all.skip(k + 1));
        }
        assert(all.take(k + 1).drop_last() =~= all.take(k));
        coeff_lengths.push(v.len());
        assert(coeff_lengths@ =~= lengths(all.take(k + 1)));
        let ghost before_coeffs = coeffs@;
        coeffs.append(&mut v);
        assert(coeffs@ =~= flattened(all.take(k + 1)));
    }
    assert(all.take(all.len() as int) =~= all);
    (coeffs, coeff_lengths)
}

} // verus!
