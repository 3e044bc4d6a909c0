//! Helpers for lists of owned strings, seen as sequences of character
//! sequences.

use vstd::prelude::*;

verus! {

/// The character sequences of a list of strings, in order.
pub open spec fn texts(v: Seq<String>) -> Seq<Seq<char>> {
    Seq::new(v.len(), |i: int| v[i]@)
}

/// `i` is the first position at which `a` stands in `s`.
pub open spec fn is_first_at(s: Seq<Seq<char>>, a: Seq<char>, i: int) -> bool {
    &&& 0 <= i < s.len()
    &&& s[i] == a
    &&& forall|j: int| 0 <= j < i ==> s[j] != a
}

/// The first position at which `a` stands in `s`, where it stands in `s`.
pub open spec fn first_index(s: Seq<Seq<char>>, a: Seq<char>) -> int {
    choose|i: int| is_first_at(s, a, i)
}

/// `s` without the first entry that equals `a`; `s` itself where no entry
/// equals `a`.
pub open spec fn without_first(s: Seq<Seq<char>>, a: Seq<char>) -> Seq<Seq<char>> {
    if s.contains(a) {
        s.remove(first_index(s, a))
    } else {
        s
    }
}

/// There is only one first position.
pub proof fn lemma_first_index(s: Seq<Seq<char>>, a: Seq<char>, i: int)
    requires
        is_first_at(s, a, i),
    ensures
        first_index(s, a) == i,
        s.contains(a),
        without_first(s, a) == s.remove(i),
{
    let j = first_index(s, a);
    assert(is_first_at(s, a, j));
    if j < i {
        assert(s[j] != a);
    } else if i < j {
        assert(s[i] != a);
    }
}

/// Whatever stands in a sequence has a first position there.
pub proof fn lemma_has_first(s: Seq<Seq<char>>, a: Seq<char>, k: int)
    requires
        0 <= k < s.len(),
        s[k] == a,
    ensures
        is_first_at(s, a, first_index(s, a)),
        0 <= first_index(s, a) <= k,
    decreases k,
{
    if exists|j: int| 0 <= j < k && s[j] == a {
        let j = choose|j: int| 0 <= j < k && s[j] == a;
        lemma_has_first(s, a, j);
    } else {
        assert(is_first_at(s, a, k));
        lemma_first_index(s, a, k);
    }
}

/// Pushing a string extends the texts by its characters.
pub proof fn lemma_texts_push(v: Seq<String>, s: String)
    ensures
        texts(v.push(s)) == texts(v).push(s@),
{
    assert(texts(v.push(s)) =~= texts(v).push(s@));
}

/// Removing a string removes its text at the same position.
pub proof fn lemma_texts_remove(v: Seq<String>, i: int)
    requires
        0 <= i < v.len(),
    ensures
        texts(v.remove(i)) == texts(v).remove(i),
{
    assert(texts(v.remove(i)) =~= texts(v).remove(i));
}

/// Calls `String::push` of std, which appends one character to the end of
/// the string.
#[verifier::external_body]
pub(crate) fn push_char(s: &mut String, c: char)
    ensures
        final(s)@ == old(s)@.push(c),
{
    s.push(c);
}

/// Whether `a` and `b` hold the same characters.
pub fn same_text(a: &str, b: &str) -> (r: bool)
    ensures
        r == (a@ == b@),
{
    let left = a.to_owned();
    let right = b.to_owned();
    left == right
}

/// A copy of `v`, string by string.
pub fn copy_strings(v: &Vec<String>) -> (r: Vec<String>)
    ensures
        r@ == v@,
{
    let mut out: Vec<String> = Vec::new();
    let mut i: usize = 0;
    while i < v.len()
        invariant
            i <= v@.len(),
            out@ == v@.subrange(0, i as int),
        decreases v@.len() - i,
    {
        out.push(v[i].clone());
        assert(out@ =~= v@.subrange(0, i + 1));
        i += 1;
    }
    assert(out@ =~= v@);
    out
}

/// The first position in `v` whose text equals `a`, if there is one.
pub fn find_text(v: &Vec<String>, a: &str) -> (r: Option<usize>)
    ensures
        match r {
            Some(i) => is_first_at(texts(v@), a@, i as int),
            None => !texts(v@).contains(a@),
        },
{
    let key = a.to_owned();
    let mut i: usize = 0;
    while i < v.len()
        invariant
            i <= v@.len(),
            key@ == a@,
            forall|j: int| 0 <= j < i ==> texts(v@)[j] != a@,
        decreases v@.len() - i,
    {
        if v[i] == key {
            return Some(i);
        }
        i += 1;
    }
    None
}

} // verus!
