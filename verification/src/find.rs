//! The first element of a sequence with a property.

use vstd::prelude::*;

verus! {

/// The place of the first element with a property, counted from `from`.
pub open spec fn find_from<T>(s: Seq<T>, wanted: spec_fn(T) -> bool, from: int) -> Option<int>
    decreases s.len() - from,
{
    if from < 0 || from >= s.len() {
        None
    } else if wanted(s[from]) {
        Some(from)
    } else {
        find_from(s, wanted, from + 1)
    }
}

/// The place of the first element with a property.
pub open spec fn find<T>(s: Seq<T>, wanted: spec_fn(T) -> bool) -> Option<int> {
    find_from(s, wanted, 0)
}

/// A place found has the property, and none before it does.
pub proof fn lemma_find_from<T>(s: Seq<T>, wanted: spec_fn(T) -> bool, from: int)
    requires
        0 <= from,
    ensures
        find_from(s, wanted, from) matches Some(i) ==> from <= i < s.len() && wanted(s[i]),
        find_from(s, wanted, from) matches Some(i) ==> forall|k: int| from <= k < i ==> !wanted(s[k]),
        find_from(s, wanted, from) is None ==> forall|k: int| from <= k < s.len() ==> !wanted(s[k]),
    decreases s.len() - from,
{
    if from < s.len() && !wanted(s[from]) {
        lemma_find_from(s, wanted, from + 1);
    }
}

/// A place found has the property, and none before it does.
pub proof fn lemma_find<T>(s: Seq<T>, wanted: spec_fn(T) -> bool)
    ensures
        find(s, wanted) matches Some(i) ==> 0 <= i < s.len() && wanted(s[i]),
        find(s, wanted) matches Some(i) ==> forall|k: int| 0 <= k < i ==> !wanted(s[k]),
        find(s, wanted) is None ==> forall|k: int| 0 <= k < s.len() ==> !wanted(s[k]),
{
    lemma_find_from(s, wanted, 0);
}

/// Where the first with the property stands is where it is found.
pub proof fn lemma_found<T>(s: Seq<T>, wanted: spec_fn(T) -> bool, i: int)
    requires
        0 <= i <= s.len(),
        forall|k: int| 0 <= k < i ==> !wanted(#[trigger] s[k]),
        i < s.len() ==> wanted(s[i]),
    ensures
        find(s, wanted) == if i < s.len() {
            Some(i)
        } else {
            None
        },
{
    lemma_found_from(s, wanted, 0, i);
}

proof fn lemma_found_from<T>(s: Seq<T>, wanted: spec_fn(T) -> bool, from: int, i: int)
    requires
        0 <= from <= i <= s.len(),
        forall|k: int| from <= k < i ==> !wanted(#[trigger] s[k]),
        i < s.len() ==> wanted(s[i]),
    ensures
        find_from(s, wanted, from) == if i < s.len() {
            Some(i)
        } else {
            None
        },
    decreases i - from,
{
    if from < i {
        assert(!wanted(s[from]));
        lemma_found_from(s, wanted, from + 1, i);
    }
}

/// Sequences that agree on the property agree on where it is found.
pub proof fn lemma_find_agrees<T>(a: Seq<T>, b: Seq<T>, wanted: spec_fn(T) -> bool)
    requires
        a.len() == b.len(),
        forall|k: int| 0 <= k < a.len() ==> wanted(#[trigger] a[k]) == wanted(b[k]),
    ensures
        find(a, wanted) == find(b, wanted),
{
    lemma_find(a, wanted);
    match find(a, wanted) {
        Some(i) => {
            assert(wanted(a[i]));
            assert forall|k: int| 0 <= k < i implies !wanted(#[trigger] b[k]) by {
                assert(!wanted(a[k]));
            }
            lemma_found(b, wanted, i);
        },
        None => {
            assert forall|k: int| 0 <= k < b.len() implies !wanted(#[trigger] b[k]) by {
                assert(!wanted(a[k]));
            }
            lemma_found(b, wanted, b.len() as int);
        },
    }
}

/// What is found is still found there after something is appended.
pub proof fn lemma_find_push<T>(s: Seq<T>, x: T, wanted: spec_fn(T) -> bool)
    ensures
        find(s.push(x), wanted) == match find(s, wanted) {
            Some(i) => Some(i),
            None => if wanted(x) {
                Some(s.len() as int)
            } else {
                None
            },
        },
{
    lemma_find(s, wanted);
    let t = s.push(x);
    match find(s, wanted) {
        Some(i) => {
            assert forall|k: int| 0 <= k < i implies !wanted(#[trigger] t[k]) by {
                assert(!wanted(s[k]));
            }
            assert(t[i] == s[i]);
            lemma_found(t, wanted, i);
        },
        None => {
            assert forall|k: int| 0 <= k < s.len() implies !wanted(#[trigger] t[k]) by {
                assert(!wanted(s[k]));
            }
            if wanted(x) {
                lemma_found(t, wanted, s.len() as int);
            } else {
                lemma_found(t, wanted, t.len() as int);
            }
        },
    }
}

} // verus!
