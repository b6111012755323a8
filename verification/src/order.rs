//! Orders: texts by their bytes, and a stable sort by rank.

use vstd::prelude::*;
use vstd::utf8::*;

verus! {

/// Whether `a` stands at or before `b` byte by byte, a prefix first.
pub open spec fn bytes_le(a: Seq<u8>, b: Seq<u8>) -> bool
    decreases a.len(),
{
    if a.len() == 0 {
        true
    } else if b.len() == 0 {
        false
    } else if a[0] != b[0] {
        a[0] < b[0]
    } else {
        bytes_le(a.drop_first(), b.drop_first())
    }
}

/// Whether `a` stands at or before `b` in the order of their UTF-8 bytes.
pub open spec fn text_le(a: Seq<char>, b: Seq<char>) -> bool {
    bytes_le(encode_utf8(a), encode_utf8(b))
}

/// The byte order is total and transitive, and ties only equal strings.
pub proof fn lemma_bytes_order(a: Seq<u8>, b: Seq<u8>, c: Seq<u8>)
    ensures
        bytes_le(a, b) || bytes_le(b, a),
        bytes_le(a, b) && bytes_le(b, c) ==> bytes_le(a, c),
        bytes_le(a, b) && bytes_le(b, a) ==> a == b,
    decreases a.len() + b.len() + c.len(),
{
    if a.len() > 0 && b.len() > 0 && c.len() > 0 {
        lemma_bytes_order(a.drop_first(), b.drop_first(), c.drop_first());
    } else if a.len() > 0 && b.len() > 0 {
        lemma_bytes_order(a.drop_first(), b.drop_first(), c);
    }
    if bytes_le(a, b) && bytes_le(b, a) {
        if a.len() == 0 || b.len() == 0 {
            assert(a =~= b);
        } else {
            assert(a =~= seq![a[0]] + a.drop_first());
            assert(b =~= seq![b[0]] + b.drop_first());
        }
    }
}

/// The text order is total and transitive, and ties only equal texts.
pub proof fn lemma_text_order(a: Seq<char>, b: Seq<char>, c: Seq<char>)
    ensures
        text_le(a, b) || text_le(b, a),
        text_le(a, b) && text_le(b, c) ==> text_le(a, c),
        text_le(a, b) && text_le(b, a) ==> a == b,
{
    lemma_bytes_order(encode_utf8(a), encode_utf8(b), encode_utf8(c));
    crate::text::lemma_same_bytes(a, b);
}

/// What comes after a common beginning decides.
proof fn lemma_bytes_le_skip(a: Seq<u8>, b: Seq<u8>, k: int)
    requires
        0 <= k <= a.len(),
        k <= b.len(),
        forall|i: int| 0 <= i < k ==> a[i] == b[i],
    ensures
        bytes_le(a, b) == bytes_le(a.skip(k), b.skip(k)),
    decreases k,
{
    if k == 0 {
        assert(a.skip(0) =~= a);
        assert(b.skip(0) =~= b);
    } else {
        let (ta, tb) = (a.drop_first(), b.drop_first());
        assert(a[0] == b[0]);
        assert forall|i: int| 0 <= i < k - 1 implies ta[i] == tb[i] by {
            assert(ta[i] == a[i + 1]);
            assert(tb[i] == b[i + 1]);
        }
        lemma_bytes_le_skip(ta, tb, k - 1);
        assert(ta.skip(k - 1) =~= a.skip(k));
        assert(tb.skip(k - 1) =~= b.skip(k));
    }
}

/// Whether `a` stands at or before `b` in the order of their bytes.
pub fn text_at_most(a: &str, b: &str) -> (r: bool)
    ensures
        r == text_le(a@, b@),
{
    let x = a.as_bytes();
    let y = b.as_bytes();
    let mut k: usize = 0;
    while k < x.len() && k < y.len()
        invariant
            x@ == encode_utf8(a@),
            y@ == encode_utf8(b@),
            k <= x@.len(),
            k <= y@.len(),
            forall|i: int| 0 <= i < k ==> x@[i] == y@[i],
        decreases x@.len() - k,
    {
        if x[k] != y[k] {
            proof {
                lemma_bytes_le_skip(x@, y@, k as int);
                assert(x@.skip(k as int)[0] == x@[k as int]);
                assert(y@.skip(k as int)[0] == y@[k as int]);
            }
            return x[k] < y[k];
        }
        k = k + 1;
    }
    proof {
        lemma_bytes_le_skip(x@, y@, k as int);
    }
    k == x.len()
}

/// A type whose values have a place in a total preorder.
pub trait Ranked: Sized {
    /// Whether `self` may stand before `other`.
    spec fn rank_le(self, other: Self) -> bool;

    /// The order is total and transitive.
    proof fn lemma_rank_order(a: Self, b: Self, c: Self)
        ensures
            a.rank_le(b) || b.rank_le(a),
            a.rank_le(b) && b.rank_le(c) ==> a.rank_le(c),
    ;

    /// Whether `self` may stand before `other`.
    fn at_most(&self, other: &Self) -> (r: bool)
        ensures
            r == self.rank_le(*other),
    ;
}

impl Ranked for String {
    open spec fn rank_le(self, other: Self) -> bool {
        text_le(self@, other@)
    }

    proof fn lemma_rank_order(a: Self, b: Self, c: Self) {
        lemma_text_order(a@, b@, c@);
    }

    fn at_most(&self, other: &Self) -> (r: bool) {
        text_at_most(self.as_str(), other.as_str())
    }
}

/// `s` with `x` put behind the last element that may stand before it.
pub open spec fn insert_ranked<T: Ranked>(s: Seq<T>, x: T) -> Seq<T>
    decreases s.len(),
{
    if s.len() == 0 {
        seq![x]
    } else if s.last().rank_le(x) {
        s.push(x)
    } else {
        insert_ranked(s.drop_last(), x).push(s.last())
    }
}

/// `s` in order of rank, equals in the order in which they came.
pub open spec fn ranked<T: Ranked>(s: Seq<T>) -> Seq<T>
    decreases s.len(),
{
    if s.len() == 0 {
        s
    } else {
        insert_ranked(ranked(s.drop_last()), s.last())
    }
}

/// Whether no element of `s` stands behind one that it must precede.
pub open spec fn in_order<T: Ranked>(s: Seq<T>) -> bool {
    forall|i: int, j: int| 0 <= i <= j < s.len() ==> #[trigger] s[i].rank_le(#[trigger] s[j])
}

proof fn lemma_insert_ranked_at<T: Ranked>(s: Seq<T>, x: T, p: int)
    requires
        0 <= p <= s.len(),
        p > 0 ==> s[p - 1].rank_le(x),
        forall|k: int| p <= k < s.len() ==> !(#[trigger] s[k].rank_le(x)),
    ensures
        insert_ranked(s, x) == s.insert(p, x),
    decreases s.len() - p,
{
    if s.len() == 0 {
        assert(s.insert(p, x) =~= seq![x]);
    } else if p == s.len() {
        assert(s.insert(p, x) =~= s.push(x));
    } else {
        let t = s.drop_last();
        assert(!s[s.len() - 1].rank_le(x));
        assert forall|k: int| p <= k < t.len() implies !(#[trigger] t[k].rank_le(x)) by {
            assert(t[k] == s[k]);
        }
        lemma_insert_ranked_at(t, x, p);
        assert(t.insert(p, x).push(s.last()) =~= s.insert(p, x));
    }
}

proof fn lemma_insert_ranked<T: Ranked>(s: Seq<T>, x: T)
    ensures
        insert_ranked(s, x).len() == s.len() + 1,
        insert_ranked(s, x).to_multiset() == s.to_multiset().insert(x),
        forall|y: T| #[trigger] insert_ranked(s, x).contains(y) <==> (y == x || s.contains(y)),
        in_order(s) ==> in_order(insert_ranked(s, x)),
    decreases s.len(),
{
    broadcast use vstd::seq_lib::group_to_multiset_ensures;

    if s.len() == 0 {
        T::lemma_rank_order(x, x, x);
        assert(seq![x] =~= s.push(x));
        assert(seq![x].contains(x)) by {
            assert(seq![x][0] == x);
        }
    } else if s.last().rank_le(x) {
        let r = s.push(x);
        assert(r[s.len() as int] == x);
        assert forall|y: T| #[trigger] r.contains(y) <==> (y == x || s.contains(y)) by {
            if s.contains(y) {
                let i = choose|i: int| 0 <= i < s.len() && s[i] == y;
                assert(r[i] == y);
            }
        }
        if in_order(s) {
            assert forall|i: int, j: int| 0 <= i <= j < r.len() implies #[trigger] r[i].rank_le(
                #[trigger] r[j],
            ) by {
                if j < s.len() {
                    assert(s[i].rank_le(s[j]));
                } else if i < s.len() {
                    assert(s[i].rank_le(s[s.len() - 1]));
                    T::lemma_rank_order(s[i], s.last(), x);
                } else {
                    T::lemma_rank_order(x, x, x);
                }
            }
        }
    } else {
        let t = s.drop_last();
        let q = insert_ranked(t, x);
        lemma_insert_ranked(t, x);
        let r = q.push(s.last());
        assert(s =~= t.push(s.last()));
        assert(r.to_multiset() =~= s.to_multiset().insert(x));
        assert(r[q.len() as int] == s.last());
        assert forall|y: T| #[trigger] r.contains(y) <==> (y == x || s.contains(y)) by {
            if s.contains(y) {
                let i = choose|i: int| 0 <= i < s.len() && s[i] == y;
                if i < t.len() {
                    assert(t[i] == y);
                    assert(q.contains(y));
                    let j = choose|j: int| 0 <= j < q.len() && q[j] == y;
                    assert(r[j] == y);
                }
            }
            if y == x {
                assert(q.contains(y));
                let j = choose|j: int| 0 <= j < q.len() && q[j] == y;
                assert(r[j] == y);
            }
            if r.contains(y) {
                let j = choose|j: int| 0 <= j < r.len() && r[j] == y;
                if j < q.len() {
                    assert(q[j] == y);
                    assert(q.contains(y));
                    if t.contains(y) {
                        let i = choose|i: int| 0 <= i < t.len() && t[i] == y;
                        assert(s[i] == y);
                    }
                } else {
                    assert(s[s.len() - 1] == y);
                }
            }
        }
        if in_order(s) {
            assert forall|i: int, j: int| 0 <= i <= j < t.len() implies #[trigger] t[i].rank_le(
                #[trigger] t[j],
            ) by {
                assert(s[i].rank_le(s[j]));
            }
            assert forall|i: int, j: int| 0 <= i <= j < r.len() implies #[trigger] r[i].rank_le(
                #[trigger] r[j],
            ) by {
                if j < q.len() {
                    assert(q[i].rank_le(q[j]));
                } else if i < q.len() {
                    assert(q.contains(q[i]));
                    if q[i] == x {
                        T::lemma_rank_order(s.last(), x, x);
                    } else {
                        let k = choose|k: int| 0 <= k < t.len() && t[k] == q[i];
                        assert(s[k].rank_le(s[s.len() - 1]));
                    }
                } else {
                    T::lemma_rank_order(s.last(), s.last(), s.last());
                }
            }
        }
    }
}

/// Sorting keeps every element, as often as it occurs, and puts them in order.
pub proof fn lemma_ranked<T: Ranked>(s: Seq<T>)
    ensures
        ranked(s).len() == s.len(),
        ranked(s).to_multiset() == s.to_multiset(),
        forall|y: T| #[trigger] ranked(s).contains(y) <==> s.contains(y),
        in_order(ranked(s)),
    decreases s.len(),
{
    broadcast use vstd::seq_lib::group_to_multiset_ensures;

    if s.len() > 0 {
        let t = s.drop_last();
        lemma_ranked(t);
        lemma_insert_ranked(ranked(t), s.last());
        assert(s =~= t.push(s.last()));
        assert(ranked(s).to_multiset() =~= s.to_multiset());
        assert forall|y: T| #[trigger] ranked(s).contains(y) <==> s.contains(y) by {
            if s.contains(y) {
                let i = choose|i: int| 0 <= i < s.len() && s[i] == y;
                if i < t.len() {
                    assert(t[i] == y);
                }
            }
            if t.contains(y) {
                let i = choose|i: int| 0 <= i < t.len() && t[i] == y;
                assert(s[i] == y);
            }
            assert(s[s.len() - 1] == s.last());
        }
    }
}

/// Where no two elements tie, their order fixes the sequence.
pub proof fn lemma_in_order_unique<T: Ranked>(a: Seq<T>, b: Seq<T>)
    requires
        in_order(a),
        in_order(b),
        a.to_multiset() == b.to_multiset(),
        forall|i: int, j: int|
            0 <= i < a.len() && 0 <= j < a.len() && (#[trigger] a[i]).rank_le(#[trigger] a[j])
                && a[j].rank_le(a[i]) ==> a[i] == a[j],
    ensures
        a == b,
    decreases a.len(),
{
    broadcast use vstd::seq_lib::group_to_multiset_ensures;

    assert(a.len() == a.to_multiset().len());
    assert(b.len() == b.to_multiset().len());
    if a.len() > 0 {
        let (s, t) = (a.drop_last(), b.drop_last());
        let (x, y) = (a.last(), b.last());
        assert(a =~= s.push(x));
        assert(b =~= t.push(y));
        assert(a[a.len() - 1] == x && b[b.len() - 1] == y);
        assert(a.contains(x) && b.contains(y));
        assert(a.to_multiset().contains(x) && b.to_multiset().contains(y));
        assert(b.contains(x) && a.contains(y));
        let i = choose|i: int| 0 <= i < a.len() && a[i] == y;
        let j = choose|j: int| 0 <= j < b.len() && b[j] == x;
        assert(a[i].rank_le(a[a.len() - 1]));
        assert(b[j].rank_le(b[b.len() - 1]));
        assert(x == y);
        assert(s.to_multiset() =~= s.to_multiset().insert(x).remove(x));
        assert(t.to_multiset() =~= t.to_multiset().insert(x).remove(x));
        assert forall|i: int, j: int| 0 <= i <= j < s.len() implies #[trigger] s[i].rank_le(
            #[trigger] s[j],
        ) by {
            assert(a[i].rank_le(a[j]));
        }
        assert forall|i: int, j: int| 0 <= i <= j < t.len() implies #[trigger] t[i].rank_le(
            #[trigger] t[j],
        ) by {
            assert(b[i].rank_le(b[j]));
        }
        assert forall|i: int, j: int|
            0 <= i < s.len() && 0 <= j < s.len() && (#[trigger] s[i]).rank_le(#[trigger] s[j])
                && s[j].rank_le(s[i]) implies s[i] == s[j] by {
            assert(s[i] == a[i] && s[j] == a[j]);
        }
        lemma_in_order_unique(s, t);
    } else {
        assert(a =~= b);
    }
}

/// Puts `x` into `v` behind the last element that may stand before it.
pub fn insert_in_order<T: Ranked>(v: &mut Vec<T>, x: T)
    ensures
        final(v)@ == insert_ranked(old(v)@, x),
{
    let mut p: usize = v.len();
    while p > 0 && !v[p - 1].at_most(&x)
        invariant
            p <= v@.len(),
            v@ == old(v)@,
            forall|k: int| p <= k < v@.len() ==> !(#[trigger] v@[k].rank_le(x)),
        decreases p,
    {
        p = p - 1;
    }
    proof {
        lemma_insert_ranked_at(v@, x, p as int);
    }
    v.insert(p, x);
}

/// `v` in order of rank, equals in the order in which they came.
pub fn sort_ranked<T: Ranked>(v: Vec<T>) -> (r: Vec<T>)
    ensures
        r@ == ranked(v@),
{
    let ghost all = v@;
    let mut out: Vec<T> = Vec::new();
    for x in it: v
        invariant
            it.seq() == all,
            out@ == ranked(all.take(it.index() as int)),
    {
        insert_in_order(&mut out, x);
        proof {
            assert(all.take(it.index() + 1).drop_last() =~= all.take(it.index() as int));
        }
    }
    proof {
        assert(all.take(all.len() as int) =~= all);
    }
    out
}

/// Where two runs of bytes first differ, the smaller byte comes first; a run
/// comes before every longer one that begins with it.
pub proof fn law_the_first_difference_decides(common: Seq<u8>, a: Seq<u8>, b: Seq<u8>)
    ensures
        bytes_le(common, common + b),
        a.len() > 0 && b.len() > 0 && a[0] < b[0] ==> bytes_le(common + a, common + b)
            && !bytes_le(common + b, common + a),
        b.len() > 0 ==> !bytes_le(common + b, common),
    decreases common.len(),
{
    if common.len() > 0 {
        let rest = common.drop_first();
        law_the_first_difference_decides(rest, a, b);
        assert((common + a).drop_first() =~= rest + a);
        assert((common + b).drop_first() =~= rest + b);
    }
}

/// Sorting puts the same elements into order.
pub proof fn law_sorting_orders_the_same_elements<T: Ranked>(s: Seq<T>, i: int, j: int)
    requires
        0 <= i <= j < s.len(),
    ensures
        ranked(s).len() == s.len(),
        ranked(s).to_multiset() == s.to_multiset(),
        ranked(s)[i].rank_le(ranked(s)[j]),
        ranked(s).contains(s[i]),
        s.contains(ranked(s)[i]),
{
    lemma_ranked(s);
    assert(s.contains(s[i]));
    assert(ranked(s).contains(ranked(s)[i]));
}

} // verus!
