//! Small vector exercises: element-wise addition and order-preserving
//! removal of repeated elements.

use std::collections::HashSet;
use vstd::prelude::*;

verus! {

/// `s` with `n` added to every element.
pub open spec fn shifted(s: Seq<i32>, n: int) -> Seq<int> {
    Seq::new(s.len(), |i: int| s[i] + n)
}

/// Every element of `s` plus `n` is still an `i32`.
pub open spec fn shift_fits(s: Seq<i32>, n: int) -> bool {
    forall|i: int| 0 <= i < s.len() ==> i32::MIN <= (#[trigger] s[i]) + n <= i32::MAX
}

/// A new vector holding each element of `v` plus `n`, in the same order.
pub fn add_n(v: Vec<i32>, n: i32) -> (r: Vec<i32>)
    requires
        shift_fits(v@, n as int),
    ensures
        r@.len() == v@.len(),
        forall|i: int| 0 <= i < r@.len() ==> r@[i] as int == shifted(v@, n as int)[i],
{
    let mut new_v: Vec<i32> = Vec::new();
    let mut i: usize = 0;
    while i < v.len()
        invariant
            i <= v.len(),
            new_v@.len() == i,
            shift_fits(v@, n as int),
            forall|j: int| 0 <= j < i ==> new_v@[j] as int == v@[j] + n,
        decreases v.len() - i,
    {
        new_v.push(v[i] + n);
        i += 1;
    }
    new_v
}

/// Adds `n` to every element of `v`, in place.
pub fn add_n_inplace(v: &mut Vec<i32>, n: i32)
    requires
        shift_fits(old(v)@, n as int),
    ensures
        final(v)@.len() == old(v)@.len(),
        forall|i: int| 0 <= i < final(v)@.len() ==> final(v)@[i] as int == shifted(old(v)@, n as int)[i],
{
    let ghost before = v@;
    let mut i: usize = 0;
    while i < v.len()
        invariant
            i <= v.len(),
            v@.len() == before.len(),
            shift_fits(before, n as int),
            forall|j: int| 0 <= j < i ==> v@[j] as int == before[j] + n,
            forall|j: int| i <= j < v@.len() ==> v@[j] == before[j],
        decreases v.len() - i,
    {
        let x: i32 = v[i];
        assert(x == before[i as int]);
        v.set(i, x + n);
        i += 1;
    }
}

/// The first occurrence of every value of `s`, in the order of `s`.
pub open spec fn first_occurrences(s: Seq<i32>) -> Seq<i32>
    decreases s.len(),
{
    if s.len() == 0 {
        Seq::empty()
    } else if s.drop_last().contains(s.last()) {
        first_occurrences(s.drop_last())
    } else {
        first_occurrences(s.drop_last()).push(s.last())
    }
}

/// Removes from `v` every element that equals an earlier one. What stays
/// keeps its order.
pub fn dedup(v: &mut Vec<i32>)
    ensures
        final(v)@ == first_occurrences(old(v)@),
{
    broadcast use vstd::std_specs::hash::group_hash_axioms;

    let ghost orig = v@;
    let ghost mut k: int = 0;
    let mut my_set: HashSet<i32> = HashSet::new();
    let mut i: usize = 0;
    assert(orig.subrange(0, 0) =~= Seq::<i32>::empty());
    assert(v@.subrange(0, 0) =~= Seq::<i32>::empty());
    assert(v@.subrange(0, v@.len() as int) =~= orig.subrange(0, orig.len() as int));
    while i < v.len()
        invariant
            0 <= k <= orig.len(),
            i <= v@.len(),
            v@.len() - i == orig.len() - k,
            v@.subrange(0, i as int) == first_occurrences(orig.subrange(0, k)),
            v@.subrange(i as int, v@.len() as int) == orig.subrange(k, orig.len() as int),
            forall|x: i32| my_set@.contains(x) <==> orig.subrange(0, k).contains(x),
        decreases orig.len() - k,
    {
        let x: i32 = v[i];
        let ghost seen = orig.subrange(0, k);
        let ghost grown = orig.subrange(0, k + 1);
        proof {
            assert(v@.subrange(i as int, v@.len() as int)[0] == x);
            assert(orig[k] == x);
            assert(grown.drop_last() =~= seen);
            assert(grown.last() == x);
        }
        if !my_set.contains(&x) {
            my_set.insert(x);
            assert(v@.subrange(0, i + 1) =~= v@.subrange(0, i as int).push(x));
            assert(v@.subrange(i + 1, v@.len() as int) =~= orig.subrange(k + 1, orig.len() as int))
                by {
                assert(v@.subrange(i + 1, v@.len() as int) =~= v@.subrange(
                    i as int,
                    v@.len() as int,
                ).drop_first());
                assert(orig.subrange(k + 1, orig.len() as int) =~= orig.subrange(
                    k,
                    orig.len() as int,
                ).drop_first());
            }
            assert forall|y: i32| my_set@.contains(y) <==> grown.contains(y) by {
                if grown.contains(y) {
                    let j = choose|j: int| 0 <= j < grown.len() && grown[j] == y;
                    if j < k {
                        assert(seen[j] == y);
                    }
                }
                if seen.contains(y) {
                    let j = choose|j: int| 0 <= j < seen.len() && seen[j] == y;
                    assert(grown[j] == y);
                }
                assert(grown[k] == x);
            }
            i = i + 1;
        } else {
            let ghost before = v@;
            v.remove(i);
            assert(v@.subrange(0, i as int) =~= before.subrange(0, i as int));
            assert(v@.subrange(i as int, v@.len() as int) =~= orig.subrange(
                k + 1,
                orig.len() as int,
            )) by {
                assert(v@.subrange(i as int, v@.len() as int) =~= before.subrange(
                    i as int,
                    before.len() as int,
                ).drop_first());
                assert(orig.subrange(k + 1, orig.len() as int) =~= orig.subrange(
                    k,
                    orig.len() as int,
                ).drop_first());
            }
            assert forall|y: i32| my_set@.contains(y) <==> grown.contains(y) by {
                if grown.contains(y) {
                    let j = choose|j: int| 0 <= j < grown.len() && grown[j] == y;
                    if j < k {
                        assert(seen[j] == y);
                    }
                }
                if seen.contains(y) {
                    let j = choose|j: int| 0 <= j < seen.len() && seen[j] == y;
                    assert(grown[j] == y);
                }
            }
        }
        proof {
            k = k + 1;
        }
    }
    assert(v@.subrange(0, v@.len() as int) =~= v@);
    assert(orig.subrange(0, orig.len() as int) =~= orig);
}

/// What `first_occurrences` keeps holds every value of the sequence, and
/// holds it once.
pub proof fn law_first_occurrences_keeps_each_value_once(s: Seq<i32>)
    ensures
        first_occurrences(s).no_duplicates(),
        forall|x: i32| first_occurrences(s).contains(x) <==> s.contains(x),
    decreases s.len(),
{
    let kept = first_occurrences(s);
    if s.len() > 0 {
        let rest = s.drop_last();
        let kept_rest = first_occurrences(rest);
        law_first_occurrences_keeps_each_value_once(rest);
        assert forall|x: i32| kept.contains(x) <==> s.contains(x) by {
            if s.contains(x) {
                let j = choose|j: int| 0 <= j < s.len() && s[j] == x;
                if j < rest.len() {
                    assert(rest[j] == x);
                }
            }
            if rest.contains(x) {
                let j = choose|j: int| 0 <= j < rest.len() && rest[j] == x;
                assert(s[j] == x);
            }
            if kept_rest.contains(x) {
                let j = choose|j: int| 0 <= j < kept_rest.len() && kept_rest[j] == x;
                assert(kept[j] == x);
            }
            if kept.contains(x) {
                let j = choose|j: int| 0 <= j < kept.len() && kept[j] == x;
                if j < kept_rest.len() {
                    assert(kept_rest[j] == x);
                } else {
                    assert(x == s.last());
                    assert(s[s.len() - 1] == x);
                }
            }
            if !rest.contains(s.last()) {
                assert(kept[kept.len() - 1] == s.last());
            }
        }
        if !rest.contains(s.last()) {
            assert forall|i: int, j: int|
                0 <= i < kept.len() && 0 <= j < kept.len() && i != j implies kept[i] != kept[j] by {
                if i < kept_rest.len() && j < kept_rest.len() {
                } else if i < kept_rest.len() {
                    assert(kept_rest[i] == kept[i]);
                    assert(kept_rest.contains(kept[i]));
                } else {
                    assert(kept_rest[j] == kept[j]);
                    assert(kept_rest.contains(kept[j]));
                }
            }
        }
    }
}

} // verus!
