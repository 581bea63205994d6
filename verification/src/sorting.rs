//! Stable sorting by a key, and removal of consecutive duplicates, as
//! `sort_by` and `dedup_by` do on a vector. Both are specified over the
//! views of the elements.
use vstd::prelude::*;

use crate::text::{lemma_text_eq_iff_unordered, text_lt};

verus! {

/// The views of the elements of `s`.
pub open spec fn views_of<T: View>(s: Seq<T>) -> Seq<T::V> {
    s.map_values(|x: T| x@)
}

/// A strict order in which records are sorted, decided by their views.
pub trait SortKey: View + Sized {
    /// A record with view `a` sorts strictly before one with view `b`.
    spec fn key_before(a: Self::V, b: Self::V) -> bool;

    proof fn lemma_before_irreflexive(a: Self::V)
        ensures
            !Self::key_before(a, a),
    ;

    proof fn lemma_before_transitive(a: Self::V, b: Self::V, c: Self::V)
        requires
            Self::key_before(a, b),
            Self::key_before(b, c),
        ensures
            Self::key_before(a, c),
    ;

    /// Whether `self` sorts strictly before `other`.
    fn is_before(&self, other: &Self) -> (res: bool)
        ensures
            res == Self::key_before(self@, other@),
    ;
}

/// The index at which a stable sort puts `x` among the sorted `s`: before the
/// first element that `x` sorts before, after all others.
pub open spec fn insert_pos<T: SortKey>(s: Seq<T::V>, x: T::V) -> int
    decreases s.len(),
{
    if s.len() == 0 {
        0
    } else if T::key_before(x, s[0]) {
        0
    } else {
        1 + insert_pos::<T>(s.drop_first(), x)
    }
}

/// `s` sorted stably: elements that neither sorts before the other keep their
/// order.
pub open spec fn stable_sort<T: SortKey>(s: Seq<T::V>) -> Seq<T::V>
    decreases s.len(),
{
    if s.len() == 0 {
        Seq::<T::V>::empty()
    } else {
        let sorted = stable_sort::<T>(s.drop_last());
        sorted.insert(insert_pos::<T>(sorted, s.last()), s.last())
    }
}

/// No element sorts before an element that precedes it.
pub open spec fn is_sorted<T: SortKey>(s: Seq<T::V>) -> bool {
    forall|i: int, j: int| 0 <= i < j < s.len() ==> !T::key_before(#[trigger] s[j], #[trigger] s[i])
}

proof fn lemma_insert_pos_facts<T: SortKey>(s: Seq<T::V>, x: T::V)
    ensures
        0 <= insert_pos::<T>(s, x) <= s.len(),
        forall|k: int| 0 <= k < insert_pos::<T>(s, x) ==> !T::key_before(x, #[trigger] s[k]),
        insert_pos::<T>(s, x) < s.len() ==> T::key_before(x, s[insert_pos::<T>(s, x)]),
    decreases s.len(),
{
    if s.len() > 0 && !T::key_before(x, s[0]) {
        lemma_insert_pos_facts::<T>(s.drop_first(), x);
        assert forall|k: int| 0 <= k < insert_pos::<T>(s, x) implies !T::key_before(x, #[trigger] s[k]) by {
            if k > 0 {
                assert(s[k] == s.drop_first()[k - 1]);
            }
        }
    }
}

proof fn lemma_insert_sorted<T: SortKey>(s: Seq<T::V>, x: T::V)
    requires
        is_sorted::<T>(s),
    ensures
        is_sorted::<T>(s.insert(insert_pos::<T>(s, x), x)),
{
    lemma_insert_pos_facts::<T>(s, x);
    let p = insert_pos::<T>(s, x);
    let r = s.insert(p, x);
    assert forall|i: int, j: int| 0 <= i < j < r.len() implies !T::key_before(
        #[trigger] r[j],
        #[trigger] r[i],
    ) by {
        if i < p && j < p {
            assert(r[i] == s[i] && r[j] == s[j]);
        } else if i < p && j == p {
            assert(r[i] == s[i] && r[j] == x);
        } else if i < p && j > p {
            assert(r[i] == s[i] && r[j] == s[j - 1]);
        } else if i == p {
            assert(r[i] == x && r[j] == s[j - 1]);
            if T::key_before(r[j], x) {
                T::lemma_before_transitive(s[j - 1], x, s[p]);
                if j - 1 == p {
                    T::lemma_before_irreflexive(s[p]);
                }
            }
        } else {
            assert(r[i] == s[i - 1] && r[j] == s[j - 1]);
        }
    }
}

/// A stable sort gives a sorted sequence.
pub proof fn lemma_stable_sort_sorted<T: SortKey>(s: Seq<T::V>)
    ensures
        is_sorted::<T>(stable_sort::<T>(s)),
    decreases s.len(),
{
    if s.len() > 0 {
        lemma_stable_sort_sorted::<T>(s.drop_last());
        lemma_insert_sorted::<T>(stable_sort::<T>(s.drop_last()), s.last());
    }
}

/// A stable sort keeps every element, each as many times as it occurs.
pub proof fn lemma_stable_sort_permutes<T: SortKey>(s: Seq<T::V>)
    ensures
        stable_sort::<T>(s).to_multiset() == s.to_multiset(),
        stable_sort::<T>(s).len() == s.len(),
    decreases s.len(),
{
    broadcast use vstd::seq_lib::group_to_multiset_ensures;
    if s.len() > 0 {
        lemma_stable_sort_permutes::<T>(s.drop_last());
        let t = stable_sort::<T>(s.drop_last());
        lemma_insert_pos_facts::<T>(t, s.last());
        vstd::seq_lib::to_multiset_insert(t, insert_pos::<T>(t, s.last()), s.last());
        vstd::seq_lib::to_multiset_build(s.drop_last(), s.last());
        assert(s.drop_last().push(s.last()) =~= s);
    }
}

/// `v` sorted stably by its key.
pub fn sort_stable<T: SortKey>(v: Vec<T>) -> (res: Vec<T>)
    ensures
        views_of(res@) == stable_sort::<T>(views_of(v@)),
{
    let ghost orig = views_of(v@);
    let mut input = v;
    let mut res: Vec<T> = Vec::new();
    let ghost mut k: int = 0;
    assert(orig.skip(0) =~= orig);
    assert(views_of(res@) =~= stable_sort::<T>(orig.take(0)));
    while input.len() > 0
        invariant
            0 <= k <= orig.len(),
            views_of(input@) == orig.skip(k),
            views_of(res@) == stable_sort::<T>(orig.take(k)),
        decreases input.len(),
    {
        let ghost before_input = input@;
        let x = input.remove(0);
        proof {
            assert(views_of(input@) =~= views_of(before_input).skip(1));
            assert(orig.skip(k).skip(1) =~= orig.skip(k + 1));
            assert(orig.take(k + 1).drop_last() =~= orig.take(k));
            assert(views_of(before_input)[0] == x@);
            assert(orig.skip(k)[0] == orig[k]);
            assert(orig.take(k + 1).last() == x@);
        }
        let mut j: usize = 0;
        let ghost s = views_of(res@);
        assert(s.skip(0) =~= s);
        while j < res.len() && !x.is_before(&res[j])
            invariant
                s == views_of(res@),
                j <= res@.len(),
                insert_pos::<T>(s, x@) == j + insert_pos::<T>(s.skip(j as int), x@),
            decreases res.len() - j,
        {
            assert(s.skip(j as int).drop_first() =~= s.skip(j + 1));
            assert(s.skip(j as int)[0] == res@[j as int]@);
            j = j + 1;
        }
        proof {
            if j < res@.len() {
                assert(s.skip(j as int)[0] == res@[j as int]@);
            }
        }
        assert(insert_pos::<T>(s, x@) == j);
        let ghost before_res = res@;
        res.insert(j, x);
        assert(views_of(res@) =~= views_of(before_res).insert(j as int, x@));
        proof {
            k = k + 1;
        }
    }
    assert(orig.take(orig.len() as int) =~= orig);
    res
}

/// Records that `dedup_by` treats as duplicates of each other, decided by
/// their views.
pub trait DedupKey: View + Sized {
    spec fn key_same(a: Self::V, b: Self::V) -> bool;

    fn is_same(&self, other: &Self) -> (res: bool)
        ensures
            res == Self::key_same(self@, other@),
    ;
}

/// `s` with every element dropped that duplicates the last element kept, as
/// `Vec::dedup_by` does.
pub open spec fn dedup_seq<T: DedupKey>(s: Seq<T::V>) -> Seq<T::V>
    decreases s.len(),
{
    if s.len() == 0 {
        Seq::<T::V>::empty()
    } else {
        let d = dedup_seq::<T>(s.drop_last());
        if d.len() > 0 && T::key_same(s.last(), d.last()) {
            d
        } else {
            d.push(s.last())
        }
    }
}

/// `v` without the elements that duplicate the last one kept.
pub fn dedup_stable<T: DedupKey>(v: Vec<T>) -> (res: Vec<T>)
    ensures
        views_of(res@) == dedup_seq::<T>(views_of(v@)),
{
    let ghost orig = views_of(v@);
    let mut input = v;
    let mut res: Vec<T> = Vec::new();
    let ghost mut k: int = 0;
    assert(orig.skip(0) =~= orig);
    assert(views_of(res@) =~= dedup_seq::<T>(orig.take(0)));
    while input.len() > 0
        invariant
            0 <= k <= orig.len(),
            views_of(input@) == orig.skip(k),
            views_of(res@) == dedup_seq::<T>(orig.take(k)),
        decreases input.len(),
    {
        let ghost before_input = input@;
        let x = input.remove(0);
        proof {
            assert(views_of(input@) =~= views_of(before_input).skip(1));
            assert(orig.skip(k).skip(1) =~= orig.skip(k + 1));
            assert(orig.take(k + 1).drop_last() =~= orig.take(k));
            assert(views_of(before_input)[0] == x@);
            assert(orig.skip(k)[0] == orig[k]);
            assert(orig.take(k + 1).last() == x@);
        }
        let n = res.len();
        let ghost before_res = res@;
        if n > 0 && x.is_same(&res[n - 1]) {
            assert(views_of(res@).last() == res@[n - 1]@);
        } else {
            res.push(x);
            assert(views_of(res@) =~= views_of(before_res).push(x@));
        }
        proof {
            k = k + 1;
        }
    }
    assert(orig.take(orig.len() as int) =~= orig);
    res
}

/// Deduplication keeps a sorted sequence sorted, and drops no element that
/// differs from the one kept before it.
pub proof fn lemma_dedup_subsequence<T: DedupKey>(s: Seq<T::V>)
    ensures
        dedup_seq::<T>(s).len() <= s.len(),
        forall|i: int| 0 <= i < dedup_seq::<T>(s).len() ==> s.contains(#[trigger] dedup_seq::<T>(s)[i]),
        forall|i: int|
            0 <= i < dedup_seq::<T>(s).len() - 1 ==> !T::key_same(#[trigger] dedup_seq::<T>(s)[i + 1], dedup_seq::<T>(s)[i]),
    decreases s.len(),
{
    if s.len() > 0 {
        let q = s.drop_last();
        lemma_dedup_subsequence::<T>(q);
        let d = dedup_seq::<T>(q);
        assert forall|i: int| 0 <= i < d.len() implies s.contains(#[trigger] d[i]) by {
            let j = choose|j: int| 0 <= j < q.len() && q[j] == d[i];
            assert(s[j] == q[j]);
        }
        assert(s[s.len() - 1] == s.last());
        if !(d.len() > 0 && T::key_same(s.last(), d.last())) {
            let r = d.push(s.last());
            assert forall|i: int| 0 <= i < r.len() - 1 implies !T::key_same(#[trigger] r[i + 1], r[i]) by {
                if i + 1 < d.len() {
                    assert(r[i + 1] == d[i + 1] && r[i] == d[i]);
                } else {
                    assert(r[i] == d.last());
                }
            }
            assert forall|i: int| 0 <= i < r.len() implies s.contains(#[trigger] r[i]) by {
                if i < d.len() {
                    assert(r[i] == d[i]);
                }
            }
        }
    }
}

/// Deduplication keeps a sorted sequence sorted.
pub proof fn lemma_dedup_keeps_sorted<T: SortKey + DedupKey>(s: Seq<<T as View>::V>)
    requires
        is_sorted::<T>(s),
    ensures
        is_sorted::<T>(dedup_seq::<T>(s)),
    decreases s.len(),
{
    if s.len() > 0 {
        let q = s.drop_last();
        assert forall|i: int, j: int| 0 <= i < j < q.len() implies !T::key_before(
            #[trigger] q[j],
            #[trigger] q[i],
        ) by {
            assert(q[i] == s[i] && q[j] == s[j]);
        }
        lemma_dedup_keeps_sorted::<T>(q);
        lemma_dedup_subsequence::<T>(q);
        let d = dedup_seq::<T>(q);
        let x = s.last();
        if !(d.len() > 0 && T::key_same(x, d.last())) {
            let r = d.push(x);
            assert forall|i: int, j: int| 0 <= i < j < r.len() implies !T::key_before(
                #[trigger] r[j],
                #[trigger] r[i],
            ) by {
                if j < d.len() {
                    assert(r[i] == d[i] && r[j] == d[j]);
                } else {
                    assert(r[j] == x && r[i] == d[i]);
                    assert(q.contains(d[i]));
                    let k = choose|k: int| 0 <= k < q.len() && q[k] == d[i];
                    assert(s[k] == q[k]);
                    assert(s[s.len() - 1] == x);
                }
            }
        }
    }
}

/// A stable sort followed by deduplication gives a sorted sequence.
pub proof fn lemma_sort_dedup_sorted<T: SortKey + DedupKey>(s: Seq<<T as View>::V>)
    ensures
        is_sorted::<T>(dedup_seq::<T>(stable_sort::<T>(s))),
{
    lemma_stable_sort_sorted::<T>(s);
    lemma_dedup_keeps_sorted::<T>(stable_sort::<T>(s));
}

/// A text key by which records are both sorted and deduplicated: a record
/// sorts before another when its key comes first, and two records are
/// duplicates when their keys are equal.
pub trait OrderedKey: SortKey + DedupKey {
    spec fn order_key(a: <Self as View>::V) -> Seq<char>;

    proof fn lemma_order_key(a: <Self as View>::V, b: <Self as View>::V)
        ensures
            Self::key_before(a, b) == text_lt(Self::order_key(a), Self::order_key(b)),
            Self::key_same(a, b) == (Self::order_key(a) == Self::order_key(b)),
    ;
}

/// Two records are duplicates exactly when neither sorts before the other.
pub proof fn lemma_same_iff_unordered<T: OrderedKey>(a: <T as View>::V, b: <T as View>::V)
    ensures
        T::key_same(a, b) <==> (!T::key_before(a, b) && !T::key_before(b, a)),
{
    T::lemma_order_key(a, b);
    T::lemma_order_key(b, a);
    lemma_text_eq_iff_unordered(T::order_key(a), T::order_key(b));
}

/// Every element sorts strictly before each that follows it.
pub open spec fn strictly_sorted<T: SortKey>(s: Seq<T::V>) -> bool {
    forall|i: int, j: int| 0 <= i < j < s.len() ==> T::key_before(#[trigger] s[i], #[trigger] s[j])
}

/// Deduplicating a sorted sequence leaves each key once, in strictly
/// increasing order.
pub proof fn lemma_dedup_sorted_strict<T: OrderedKey>(s: Seq<<T as View>::V>)
    requires
        is_sorted::<T>(s),
    ensures
        strictly_sorted::<T>(dedup_seq::<T>(s)),
    decreases s.len(),
{
    if s.len() > 0 {
        let q = s.drop_last();
        assert forall|i: int, j: int| 0 <= i < j < q.len() implies !T::key_before(
            #[trigger] q[j],
            #[trigger] q[i],
        ) by {
            assert(q[i] == s[i] && q[j] == s[j]);
        }
        lemma_dedup_sorted_strict::<T>(q);
        lemma_dedup_subsequence::<T>(q);
        let d = dedup_seq::<T>(q);
        let x = s.last();
        if !(d.len() > 0 && T::key_same(x, d.last())) {
            let r = d.push(x);
            if d.len() > 0 {
                assert(q.contains(d[d.len() - 1]));
                let k = choose|k: int| 0 <= k < q.len() && q[k] == d[d.len() - 1];
                assert(s[k] == q[k]);
                assert(s[s.len() - 1] == x);
                lemma_same_iff_unordered::<T>(x, d.last());
                assert(T::key_before(d.last(), x));
            }
            assert forall|i: int, j: int| 0 <= i < j < r.len() implies T::key_before(
                #[trigger] r[i],
                #[trigger] r[j],
            ) by {
                if j < d.len() {
                    assert(r[i] == d[i] && r[j] == d[j]);
                } else {
                    assert(r[j] == x && r[i] == d[i]);
                    if i < d.len() - 1 {
                        assert(T::key_before(d[i], d[d.len() - 1]));
                        T::lemma_before_transitive(d[i], d.last(), x);
                    }
                }
            }
        }
    }
}

/// A stable sort followed by deduplication leaves each key once, in strictly
/// increasing order.
pub proof fn lemma_sort_dedup_strict<T: OrderedKey>(s: Seq<<T as View>::V>)
    ensures
        strictly_sorted::<T>(dedup_seq::<T>(stable_sort::<T>(s))),
{
    lemma_stable_sort_sorted::<T>(s);
    lemma_dedup_sorted_strict::<T>(stable_sort::<T>(s));
}

/// Where a stable sort puts `x` among `t` followed by `y`: where it goes
/// among `t`, unless that is after all of `t`.
proof fn lemma_insert_pos_push<T: SortKey>(t: Seq<T::V>, y: T::V, x: T::V)
    ensures
        insert_pos::<T>(t.push(y), x) == (if insert_pos::<T>(t, x) < t.len() {
            insert_pos::<T>(t, x)
        } else if T::key_before(x, y) {
            t.len() as int
        } else {
            t.len() + 1int
        }),
    decreases t.len(),
{
    lemma_insert_pos_facts::<T>(t, x);
    assert(insert_pos::<T>(Seq::<T::V>::empty(), x) == 0);
    if t.len() == 0 {
        assert(t.push(y)[0] == y);
        assert(t.push(y).drop_first() =~= Seq::<T::V>::empty());
    } else {
        assert(t.push(y)[0] == t[0]);
        if !T::key_before(x, t[0]) {
            assert(t.push(y).drop_first() =~= t.drop_first().push(y));
            lemma_insert_pos_push::<T>(t.drop_first(), y, x);
        }
    }
}

/// Where a stable sort puts `x` among records it sorts before none of: at
/// the end.
proof fn lemma_insert_pos_end<T: SortKey>(t: Seq<T::V>, x: T::V)
    requires
        forall|k: int| 0 <= k < t.len() ==> !T::key_before(x, #[trigger] t[k]),
    ensures
        insert_pos::<T>(t, x) == t.len(),
{
    lemma_insert_pos_facts::<T>(t, x);
}

/// The last record that deduplication keeps is a duplicate of the last
/// record, or that record itself.
proof fn lemma_dedup_last<T: OrderedKey>(t: Seq<<T as View>::V>)
    requires
        t.len() > 0,
    ensures
        dedup_seq::<T>(t).len() > 0,
        T::order_key(dedup_seq::<T>(t).last()) == T::order_key(t.last()),
{
    let d = dedup_seq::<T>(t.drop_last());
    if d.len() > 0 && T::key_same(t.last(), d.last()) {
        T::lemma_order_key(t.last(), d.last());
    }
}

/// Whether some record of `s` has the key of `x`.
pub open spec fn key_present<T: OrderedKey>(s: Seq<<T as View>::V>, x: <T as View>::V) -> bool {
    exists|i: int| 0 <= i < s.len() && T::order_key(#[trigger] s[i]) == T::order_key(x)
}

/// In a sorted sequence, keys do not decrease.
proof fn lemma_sorted_keys<T: OrderedKey>(t: Seq<<T as View>::V>, i: int, j: int)
    requires
        is_sorted::<T>(t),
        0 <= i <= j < t.len(),
    ensures
        !text_lt(T::order_key(t[j]), T::order_key(t[i])),
{
    if i < j {
        T::lemma_order_key(t[j], t[i]);
    } else {
        crate::text::lemma_text_lt_irreflexive(T::order_key(t[i]));
    }
}

/// The statement of `lemma_dedup_insert` for `t` and `x`.
pub open spec fn dedup_insert_law<T: OrderedKey>(t: Seq<<T as View>::V>, x: <T as View>::V) -> bool {
    dedup_seq::<T>(t.insert(insert_pos::<T>(t, x), x)) == (if key_present::<T>(t, x) {
        dedup_seq::<T>(t)
    } else {
        dedup_seq::<T>(t).insert(insert_pos::<T>(dedup_seq::<T>(t), x), x)
    })
}

/// Whether some record of `t` has the key of `x` does not change when a
/// record with another key follows.
proof fn lemma_key_present_push<T: OrderedKey>(tq: Seq<<T as View>::V>, y: <T as View>::V, x: <T as View>::V)
    requires
        T::order_key(x) != T::order_key(y),
    ensures
        key_present::<T>(tq.push(y), x) == key_present::<T>(tq, x),
{
    let t = tq.push(y);
    if key_present::<T>(t, x) {
        let i = choose|i: int| 0 <= i < t.len() && T::order_key(#[trigger] t[i]) == T::order_key(x);
        assert(i < tq.len());
        assert(tq[i] == t[i]);
    }
    if key_present::<T>(tq, x) {
        let i = choose|i: int| 0 <= i < tq.len() && T::order_key(#[trigger] tq[i]) == T::order_key(x);
        assert(t[i] == tq[i]);
    }
}

/// The records of a sorted sequence keep at most the key of its last one.
proof fn lemma_keys_up_to_last<T: OrderedKey>(t: Seq<<T as View>::V>)
    requires
        is_sorted::<T>(t),
        t.len() > 0,
    ensures
        forall|k: int| 0 <= k < t.len() ==> !text_lt(T::order_key(t.last()), T::order_key(#[trigger] t[k])),
{
    assert forall|k: int| 0 <= k < t.len() implies !text_lt(T::order_key(t.last()), T::order_key(#[trigger] t[k])) by {
        lemma_sorted_keys::<T>(t, k, t.len() - 1);
    }
}

/// The law when `x` goes before the last record of `t` and before another
/// record of `tq`.
proof fn lemma_dedup_insert_inside<T: OrderedKey>(tq: Seq<<T as View>::V>, y: <T as View>::V, x: <T as View>::V)
    requires
        is_sorted::<T>(tq.push(y)),
        is_sorted::<T>(tq),
        insert_pos::<T>(tq, x) < tq.len(),
        dedup_insert_law::<T>(tq, x),
    ensures
        dedup_insert_law::<T>(tq.push(y), x),
{
    let t = tq.push(y);
    let pq = insert_pos::<T>(tq, x);
    let dq = dedup_seq::<T>(tq);
    let kx = T::order_key(x);
    let ky = T::order_key(y);
    lemma_insert_pos_push::<T>(tq, y, x);
    lemma_insert_pos_facts::<T>(tq, x);
    lemma_keys_up_to_last::<T>(t);
    assert(t.last() == y);
    assert(t[pq] == tq[pq]);
    T::lemma_order_key(x, tq[pq]);
    crate::text::lemma_text_eq_iff_unordered(T::order_key(tq[pq]), ky);
    if text_lt(T::order_key(tq[pq]), ky) {
        crate::text::lemma_text_lt_transitive(kx, T::order_key(tq[pq]), ky);
    }
    crate::text::lemma_text_lt_irreflexive(kx);
    assert(kx != ky);
    lemma_key_present_push::<T>(tq, y, x);
    assert(t.insert(pq, x) =~= tq.insert(pq, x).push(y));
    assert(tq.insert(pq, x).push(y).drop_last() =~= tq.insert(pq, x));
    assert(t.drop_last() =~= tq);
    lemma_dedup_last::<T>(tq);
    T::lemma_order_key(y, dq.last());
    if !key_present::<T>(tq, x) {
        let q = insert_pos::<T>(dq, x);
        lemma_insert_pos_facts::<T>(dq, x);
        lemma_keys_up_to_last::<T>(tq);
        assert(tq[tq.len() - 1] == tq.last());
        T::lemma_order_key(x, dq.last());
        crate::text::lemma_text_eq_iff_unordered(T::order_key(tq[pq]), T::order_key(tq.last()));
        if text_lt(T::order_key(tq[pq]), T::order_key(tq.last())) {
            crate::text::lemma_text_lt_transitive(kx, T::order_key(tq[pq]), T::order_key(tq.last()));
        }
        assert(T::key_before(x, dq.last()));
        assert(dq[dq.len() - 1] == dq.last());
        assert(q < dq.len());
        let d = dq.insert(q, x);
        assert(d.last() == dq.last());
        lemma_insert_pos_push::<T>(dq, y, x);
        assert(dq.push(y).insert(q, x) =~= dq.insert(q, x).push(y));
    }
}

/// The law when `x` sorts after every record of `t`.
proof fn lemma_dedup_insert_last<T: OrderedKey>(t: Seq<<T as View>::V>, x: <T as View>::V)
    requires
        is_sorted::<T>(t),
        t.len() > 0,
        insert_pos::<T>(t, x) == t.len(),
    ensures
        dedup_insert_law::<T>(t, x),
{
    let y = t.last();
    let kx = T::order_key(x);
    let ky = T::order_key(y);
    lemma_insert_pos_facts::<T>(t, x);
    T::lemma_order_key(x, y);
    assert(t[t.len() - 1] == y);
    assert(t.insert(t.len() as int, x) =~= t.push(x));
    assert(t.push(x).drop_last() =~= t);
    assert(t.push(x).last() == x);
    lemma_dedup_last::<T>(t);
    lemma_dedup_subsequence::<T>(t);
    lemma_keys_up_to_last::<T>(t);
    let d = dedup_seq::<T>(t);
    T::lemma_order_key(x, d.last());
    if kx == ky {
        assert(T::order_key(t[t.len() - 1]) == kx);
    } else {
        crate::text::lemma_text_eq_iff_unordered(kx, ky);
        assert(text_lt(ky, kx));
        assert(!key_present::<T>(t, x)) by {
            if key_present::<T>(t, x) {
                let i = choose|i: int| 0 <= i < t.len() && T::order_key(#[trigger] t[i]) == kx;
                assert(!text_lt(ky, T::order_key(t[i])));
                crate::text::lemma_text_lt_irreflexive(kx);
            }
        }
        assert forall|k: int| 0 <= k < d.len() implies !T::key_before(x, #[trigger] d[k]) by {
            assert(t.contains(d[k]));
            let j = choose|j: int| 0 <= j < t.len() && t[j] == d[k];
            assert(!text_lt(ky, T::order_key(t[j])));
            T::lemma_order_key(x, d[k]);
            if text_lt(kx, T::order_key(d[k])) {
                crate::text::lemma_text_eq_iff_unordered(T::order_key(d[k]), ky);
                if text_lt(T::order_key(d[k]), ky) {
                    crate::text::lemma_text_lt_transitive(kx, T::order_key(d[k]), ky);
                }
                crate::text::lemma_text_lt_transitive(kx, ky, kx);
                crate::text::lemma_text_lt_irreflexive(kx);
            }
        }
        lemma_insert_pos_end::<T>(d, x);
        assert(d.insert(d.len() as int, x) =~= d.push(x));
    }
}

/// The law when `x` sorts after every record of `tq` but before `y`.
proof fn lemma_dedup_insert_between<T: OrderedKey>(tq: Seq<<T as View>::V>, y: <T as View>::V, x: <T as View>::V)
    requires
        is_sorted::<T>(tq.push(y)),
        is_sorted::<T>(tq),
        insert_pos::<T>(tq, x) == tq.len(),
        T::key_before(x, y),
        dedup_insert_law::<T>(tq, x),
    ensures
        dedup_insert_law::<T>(tq.push(y), x),
{
    let t = tq.push(y);
    let dq = dedup_seq::<T>(tq);
    let kx = T::order_key(x);
    let ky = T::order_key(y);
    lemma_insert_pos_push::<T>(tq, y, x);
    lemma_insert_pos_facts::<T>(tq, x);
    T::lemma_order_key(x, y);
    crate::text::lemma_text_lt_irreflexive(kx);
    assert(kx != ky);
    lemma_key_present_push::<T>(tq, y, x);
    assert(t.insert(tq.len() as int, x) =~= tq.push(x).push(y));
    assert(tq.insert(tq.len() as int, x) =~= tq.push(x));
    assert(tq.push(x).push(y).drop_last() =~= tq.push(x));
    assert(t.drop_last() =~= tq);
    let e = dedup_seq::<T>(tq.push(x));
    assert(tq.push(x).last() == x);
    lemma_dedup_last::<T>(tq.push(x));
    T::lemma_order_key(y, e.last());
    assert forall|k: int| 0 <= k < tq.len() implies !text_lt(kx, T::order_key(#[trigger] tq[k])) by {
        T::lemma_order_key(x, tq[k]);
    }
    if tq.len() > 0 {
        lemma_dedup_last::<T>(tq);
        T::lemma_order_key(y, dq.last());
        assert(tq[tq.len() - 1] == tq.last());
        crate::text::lemma_text_eq_iff_unordered(T::order_key(tq.last()), kx);
        if text_lt(T::order_key(tq.last()), kx) {
            crate::text::lemma_text_lt_transitive(T::order_key(tq.last()), kx, ky);
        }
        crate::text::lemma_text_lt_irreflexive(ky);
    }
    if !key_present::<T>(tq, x) {
        lemma_dedup_subsequence::<T>(tq);
        assert forall|k: int| 0 <= k < dq.len() implies !T::key_before(x, #[trigger] dq[k]) by {
            assert(tq.contains(dq[k]));
            let j = choose|j: int| 0 <= j < tq.len() && tq[j] == dq[k];
            T::lemma_order_key(x, dq[k]);
        }
        lemma_insert_pos_end::<T>(dq, x);
        assert(dq.insert(dq.len() as int, x) =~= dq.push(x));
        lemma_insert_pos_push::<T>(dq, y, x);
        assert(dq.push(y).insert(dq.len() as int, x) =~= dq.push(x).push(y));
    }
}

/// Deduplicating a sorted sequence into which `x` was inserted where a
/// stable sort puts it: the same as before when a record with the key of
/// `x` was there, otherwise `x` inserted into the deduplicated sequence
/// where a stable sort puts it.
proof fn lemma_dedup_insert<T: OrderedKey>(t: Seq<<T as View>::V>, x: <T as View>::V)
    requires
        is_sorted::<T>(t),
    ensures
        dedup_insert_law::<T>(t, x),
    decreases t.len(),
{
    lemma_insert_pos_facts::<T>(t, x);
    if t.len() == 0 {
        assert(t.insert(0, x) =~= seq![x]);
        assert(seq![x].drop_last() =~= Seq::<<T as View>::V>::empty());
        assert(dedup_seq::<T>(Seq::<<T as View>::V>::empty()) == Seq::<<T as View>::V>::empty());
        assert(insert_pos::<T>(Seq::<<T as View>::V>::empty(), x) == 0);
        assert(Seq::<<T as View>::V>::empty().insert(0, x) =~= seq![x]);
    } else {
        let tq = t.drop_last();
        let y = t.last();
        assert(tq.push(y) =~= t);
        assert forall|i: int, j: int| 0 <= i < j < tq.len() implies !T::key_before(
            #[trigger] tq[j],
            #[trigger] tq[i],
        ) by {
            assert(tq[i] == t[i] && tq[j] == t[j]);
        }
        lemma_dedup_insert::<T>(tq, x);
        lemma_insert_pos_push::<T>(tq, y, x);
        lemma_insert_pos_facts::<T>(tq, x);
        if insert_pos::<T>(tq, x) < tq.len() {
            lemma_dedup_insert_inside::<T>(tq, y, x);
        } else if T::key_before(x, y) {
            lemma_dedup_insert_between::<T>(tq, y, x);
        } else {
            lemma_dedup_insert_last::<T>(t, x);
        }
    }
}

/// An element of `d` is still there after `x` is inserted at `p`.
proof fn lemma_insert_keeps<A>(d: Seq<A>, p: int, x: A, v: A)
    requires
        0 <= p <= d.len(),
        d.contains(v),
    ensures
        d.insert(p, x).contains(v),
{
    let k = choose|k: int| 0 <= k < d.len() && d[k] == v;
    if k < p {
        assert(d.insert(p, x)[k] == v);
    } else {
        assert(d.insert(p, x)[k + 1] == v);
    }
}

/// `s` sorted stably, then without duplicates: each key once.
pub open spec fn sorted_unique<T: OrderedKey>(s: Seq<<T as View>::V>) -> Seq<<T as View>::V> {
    dedup_seq::<T>(stable_sort::<T>(s))
}

/// A record whose key no earlier record of `s` has is kept when `s` is sorted
/// and its duplicates are removed.
pub proof fn lemma_sorted_unique_keeps_first<T: OrderedKey>(s: Seq<<T as View>::V>, i: int)
    requires
        0 <= i < s.len(),
        forall|j: int| 0 <= j < i ==> T::order_key(#[trigger] s[j]) != T::order_key(s[i]),
    ensures
        sorted_unique::<T>(s).contains(s[i]),
    decreases s.len(),
{
    broadcast use vstd::seq_lib::group_to_multiset_ensures;
    let q = s.drop_last();
    let x = s.last();
    let t = stable_sort::<T>(q);
    let d = dedup_seq::<T>(t);
    assert(stable_sort::<T>(s) == t.insert(insert_pos::<T>(t, x), x));
    lemma_stable_sort_sorted::<T>(q);
    lemma_dedup_insert::<T>(t, x);
    lemma_insert_pos_facts::<T>(d, x);
    if i < s.len() - 1 {
        assert forall|j: int| 0 <= j < i implies T::order_key(#[trigger] q[j]) != T::order_key(q[i]) by {
            assert(q[j] == s[j]);
        }
        lemma_sorted_unique_keeps_first::<T>(q, i);
        assert(q[i] == s[i]);
        if !key_present::<T>(t, x) {
            lemma_insert_keeps(d, insert_pos::<T>(d, x), x, s[i]);
        }
    } else {
        assert(x == s[i]);
        lemma_stable_sort_permutes::<T>(q);
        assert(!key_present::<T>(t, x)) by {
            if key_present::<T>(t, x) {
                let k = choose|k: int| 0 <= k < t.len() && T::order_key(#[trigger] t[k]) == T::order_key(x);
                assert(t.contains(t[k]));
                assert(q.to_multiset().count(t[k]) > 0);
                assert(q.contains(t[k]));
                let j = choose|j: int| 0 <= j < q.len() && q[j] == t[k];
                assert(s[j] == q[j]);
            }
        }
        assert(d.insert(insert_pos::<T>(d, x), x)[insert_pos::<T>(d, x)] == x);
    }
}

/// `v` sorted stably by its key, keeping the first of the records that share
/// a key.
pub fn sort_unique<T: OrderedKey>(v: Vec<T>) -> (res: Vec<T>)
    ensures
        views_of(res@) == sorted_unique::<T>(views_of(v@)),
        strictly_sorted::<T>(views_of(res@)),
{
    let sorted = sort_stable(v);
    let res = dedup_stable(sorted);
    proof {
        lemma_sort_dedup_strict::<T>(views_of(v@));
    }
    res
}

} // verus!
