//! Putting the results of a map back in the order of its inputs.
//!
//! When the items of a list are handed to several workers, the results come
//! back in any order, each with the position of its input. This module
//! builds the output list from such results.

use vstd::prelude::*;

verus! {

/// The last of `results` that is meant for position `i`, if any is.
pub open spec fn last_for<U>(results: Seq<(usize, U)>, i: int) -> Option<U>
    decreases results.len(),
{
    if results.len() == 0 {
        None
    } else if results.last().0 == i {
        Some(results.last().1)
    } else {
        last_for(results.drop_last(), i)
    }
}

/// `value` is what stands at position `i` after `results` were placed: the
/// last result meant for `i`, or a default value where there is none.
pub open spec fn placed<U: Default>(results: Seq<(usize, U)>, i: int, value: U) -> bool {
    match last_for(results, i) {
        Some(u) => value == u,
        None => call_ensures(U::default, (), value),
    }
}

/// Every result is meant for a position below `n`.
pub open spec fn in_range<U>(results: Seq<(usize, U)>, n: int) -> bool {
    forall|k: int| 0 <= k < results.len() ==> (#[trigger] results[k]).0 < n
}

/// A list of `n` values in which every result stands at the position it
/// is meant for. A position for which no result came holds a default value;
/// where several came, the last one stays.
pub fn place_results<U: Default>(n: usize, results: Vec<(usize, U)>) -> (out: Vec<U>)
    requires
        in_range(results@, n as int),
    ensures
        out@.len() == n,
        forall|i: int| 0 <= i < n ==> placed(results@, i, #[trigger] out@[i]),
{
    let mut output_vec: Vec<U> = Vec::with_capacity(n);
    let mut filled: usize = 0;
    while filled < n
        invariant
            filled <= n,
            output_vec@.len() == filled,
            forall|i: int|
                0 <= i < filled ==> call_ensures(U::default, (), #[trigger] output_vec@[i]),
        decreases n - filled,
    {
        output_vec.push(U::default());
        filled += 1;
    }
    let ghost all = results@;
    assert(all.subrange(0, 0) =~= Seq::<(usize, U)>::empty());
    for pair in it: results
        invariant
            it.seq() == all,
            in_range(all, n as int),
            output_vec@.len() == n,
            forall|i: int|
                0 <= i < n ==> placed(
                    all.subrange(0, it.index() as int),
                    i,
                    #[trigger] output_vec@[i],
                ),
    {
        let ghost k = it.index() as int;
        let ghost upto = all.subrange(0, k + 1);
        assert(upto.drop_last() =~= all.subrange(0, k));
        assert(upto.last() == all[k]);
        assert(all[k] == pair);
        let (position, value) = pair;
        output_vec.set(position, value);
    }
    assert(all.subrange(0, all.len() as int) =~= all);
    output_vec
}

} // verus!
