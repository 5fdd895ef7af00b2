//! Stable sorting by insertion, and the order of texts by their bytes.

use vstd::prelude::*;

verus! {

/// `sorted` with `x` put in behind the last element that `x` does not
/// come before.
pub open spec fn insert_sorted<T>(sorted: Seq<T>, x: T, before: spec_fn(T, T) -> bool) -> Seq<T>
    decreases sorted.len(),
{
    if sorted.len() > 0 && before(x, sorted.last()) {
        insert_sorted(sorted.drop_last(), x, before).push(sorted.last())
    } else {
        sorted.push(x)
    }
}

/// The elements of `s` in the order that `before` asks for; elements of
/// which neither comes before the other keep the order they have in `s`.
pub open spec fn stable_sort<T>(s: Seq<T>, before: spec_fn(T, T) -> bool) -> Seq<T>
    decreases s.len(),
{
    if s.len() == 0 {
        Seq::<T>::empty()
    } else {
        insert_sorted(stable_sort(s.drop_last(), before), s.last(), before)
    }
}

/// No element stands behind one that it comes before.
pub open spec fn is_sorted<T>(s: Seq<T>, before: spec_fn(T, T) -> bool) -> bool {
    forall|i: int, j: int| 0 <= i < j < s.len() ==> !before(#[trigger] s[j], #[trigger] s[i])
}

/// `before` orders the way a comparison of keys does: of two elements
/// at most one comes before the other, and where `a` does not come before
/// `b` nor `b` before `c`, `a` does not come before `c`.
pub open spec fn is_ranking<T>(before: spec_fn(T, T) -> bool) -> bool {
    &&& forall|a: T, b: T| #[trigger] before(a, b) ==> !before(b, a)
    &&& forall|a: T, b: T, c: T|
        !#[trigger] before(a, b) && !#[trigger] before(b, c) ==> !before(a, c)
}

/// One text comes before another where it is a proper prefix of it or has
/// the smaller byte at the first place where they differ.
pub open spec fn lex_less(a: Seq<u8>, b: Seq<u8>) -> bool
    decreases a.len(),
{
    if b.len() == 0 {
        false
    } else if a.len() == 0 {
        true
    } else if a[0] != b[0] {
        a[0] < b[0]
    } else {
        lex_less(a.drop_first(), b.drop_first())
    }
}

/// Putting `x` in at a place where everything behind comes after `x` and
/// the element in front does not is what [`insert_sorted`] does.
pub proof fn lemma_insert_at<T>(sorted: Seq<T>, x: T, before: spec_fn(T, T) -> bool, at: int)
    requires
        0 <= at <= sorted.len(),
        forall|j: int| at <= j < sorted.len() ==> before(x, #[trigger] sorted[j]),
        at > 0 ==> !before(x, sorted[at - 1]),
    ensures
        insert_sorted(sorted, x, before) == sorted.insert(at, x),
    decreases sorted.len(),
{
    if at == sorted.len() {
        assert(sorted.push(x) =~= sorted.insert(at, x));
    } else {
        let front = sorted.drop_last();
        assert(before(x, sorted[sorted.len() - 1]));
        assert forall|j: int| at <= j < front.len() implies before(x, #[trigger] front[j]) by {
            assert(front[j] == sorted[j]);
        }
        lemma_insert_at(front, x, before, at);
        assert(front.insert(at, x).push(sorted.last()) =~= sorted.insert(at, x));
    }
}

/// Inserting keeps every element, once.
pub proof fn lemma_insert_sorted_elements<T>(sorted: Seq<T>, x: T, before: spec_fn(T, T) -> bool)
    ensures
        insert_sorted(sorted, x, before).to_multiset() == sorted.to_multiset().insert(x),
        insert_sorted(sorted, x, before).len() == sorted.len() + 1,
    decreases sorted.len(),
{
    broadcast use vstd::seq_lib::group_to_multiset_ensures;

    if sorted.len() > 0 && before(x, sorted.last()) {
        let front = sorted.drop_last();
        lemma_insert_sorted_elements(front, x, before);
        assert(front.push(sorted.last()) == sorted);
        assert(insert_sorted(sorted, x, before).to_multiset() =~= sorted.to_multiset().insert(x));
    }
}

/// Sorting keeps every element, once: the result is a rearrangement.
pub proof fn lemma_stable_sort_elements<T>(s: Seq<T>, before: spec_fn(T, T) -> bool)
    ensures
        stable_sort(s, before).to_multiset() == s.to_multiset(),
        stable_sort(s, before).len() == s.len(),
    decreases s.len(),
{
    broadcast use vstd::seq_lib::group_to_multiset_ensures;

    if s.len() > 0 {
        let front = s.drop_last();
        lemma_stable_sort_elements(front, before);
        lemma_insert_sorted_elements(stable_sort(front, before), s.last(), before);
        assert(front.push(s.last()) == s);
    } else {
        assert(s =~= Seq::<T>::empty());
    }
}

/// Inserting into a sorted sequence leaves it sorted.
pub proof fn lemma_insert_sorted_is_sorted<T>(
    sorted: Seq<T>,
    x: T,
    before: spec_fn(T, T) -> bool,
)
    requires
        is_ranking(before),
        is_sorted(sorted, before),
    ensures
        is_sorted(insert_sorted(sorted, x, before), before),
    decreases sorted.len(),
{
    let out = insert_sorted(sorted, x, before);
    if sorted.len() > 0 && before(x, sorted.last()) {
        let front = sorted.drop_last();
        let last = sorted.last();
        assert forall|i: int, j: int| 0 <= i < j < front.len() implies !before(
            #[trigger] front[j],
            #[trigger] front[i],
        ) by {
            assert(front[j] == sorted[j] && front[i] == sorted[i]);
        }
        lemma_insert_sorted_is_sorted(front, x, before);
        lemma_insert_sorted_elements(front, x, before);
        let mid = insert_sorted(front, x, before);
        assert forall|i: int, j: int| 0 <= i < j < out.len() implies !before(
            #[trigger] out[j],
            #[trigger] out[i],
        ) by {
            if j < mid.len() {
                assert(out[j] == mid[j] && out[i] == mid[i]);
            } else {
                assert(out[j] == last);
                assert(out[i] == mid[i]);
                lemma_insert_sorted_member(front, x, before, i);
                if mid[i] == x {
                    assert(before(x, last));
                } else {
                    let k = choose|k: int| 0 <= k < front.len() && front[k] == mid[i];
                    assert(front[k] == sorted[k]);
                    assert(!before(sorted[sorted.len() - 1], sorted[k]));
                }
            }
        }
    } else {
        assert forall|i: int, j: int| 0 <= i < j < out.len() implies !before(
            #[trigger] out[j],
            #[trigger] out[i],
        ) by {
            if j < sorted.len() {
                assert(out[j] == sorted[j] && out[i] == sorted[i]);
            } else {
                assert(out[j] == x);
                assert(out[i] == sorted[i]);
                if sorted.len() > 0 {
                    let last = sorted.last();
                    assert(!before(x, last));
                    if i < sorted.len() - 1 {
                        assert(!before(sorted[sorted.len() - 1], sorted[i]));
                    }
                    assert(!before(x, sorted[i]));
                }
            }
        }
    }
}

/// Every element of the result of an insertion is the new element or one
/// of the old ones.
pub proof fn lemma_insert_sorted_member<T>(
    sorted: Seq<T>,
    x: T,
    before: spec_fn(T, T) -> bool,
    i: int,
)
    requires
        0 <= i < insert_sorted(sorted, x, before).len(),
    ensures
        insert_sorted(sorted, x, before)[i] == x || exists|k: int|
            0 <= k < sorted.len() && sorted[k] == insert_sorted(sorted, x, before)[i],
    decreases sorted.len(),
{
    lemma_insert_sorted_elements(sorted, x, before);
    if sorted.len() > 0 && before(x, sorted.last()) {
        let front = sorted.drop_last();
        lemma_insert_sorted_elements(front, x, before);
        let mid = insert_sorted(front, x, before);
        if i < mid.len() {
            lemma_insert_sorted_member(front, x, before, i);
            if mid[i] != x {
                let k = choose|k: int| 0 <= k < front.len() && front[k] == mid[i];
                assert(sorted[k] == front[k]);
            }
        } else {
            assert(sorted[sorted.len() - 1] == insert_sorted(sorted, x, before)[i]);
        }
    } else {
        if i < sorted.len() {
            assert(sorted[i] == insert_sorted(sorted, x, before)[i]);
        }
    }
}

/// The result of sorting is sorted.
pub proof fn lemma_stable_sort_is_sorted<T>(s: Seq<T>, before: spec_fn(T, T) -> bool)
    requires
        is_ranking(before),
    ensures
        is_sorted(stable_sort(s, before), before),
    decreases s.len(),
{
    if s.len() > 0 {
        lemma_stable_sort_is_sorted(s.drop_last(), before);
        lemma_insert_sorted_is_sorted(stable_sort(s.drop_last(), before), s.last(), before);
    }
}

/// Of two texts at most one comes before the other.
pub proof fn lemma_lex_less_asymmetric(a: Seq<u8>, b: Seq<u8>)
    requires
        lex_less(a, b),
    ensures
        !lex_less(b, a),
    decreases a.len(),
{
    if a.len() > 0 && b.len() > 0 && a[0] == b[0] {
        lemma_lex_less_asymmetric(a.drop_first(), b.drop_first());
    }
}

/// A text that comes before another comes before every third text or
/// has it before that other.
pub proof fn lemma_lex_less_between(a: Seq<u8>, b: Seq<u8>, c: Seq<u8>)
    requires
        lex_less(a, c),
    ensures
        lex_less(a, b) || lex_less(b, c),
    decreases a.len(),
{
    if a.len() > 0 && b.len() > 0 && c.len() > 0 && a[0] == b[0] && b[0] == c[0] {
        lemma_lex_less_between(a.drop_first(), b.drop_first(), c.drop_first());
    }
}

/// Whether `a` comes before `b` in the order of their bytes.
pub fn bytes_less(a: &[u8], b: &[u8]) -> (r: bool)
    ensures
        r == lex_less(a@, b@),
{
    let mut i: usize = 0;
    assert(a@.skip(0) == a@ && b@.skip(0) == b@);
    while i < a.len() && i < b.len()
        invariant
            i <= a.len(),
            i <= b.len(),
            lex_less(a@, b@) == lex_less(a@.skip(i as int), b@.skip(i as int)),
        decreases a.len() - i,
    {
        assert(a@.skip(i as int)[0] == a@[i as int]);
        assert(b@.skip(i as int)[0] == b@[i as int]);
        if a[i] != b[i] {
            return a[i] < b[i];
        }
        assert(a@.skip(i as int).drop_first() == a@.skip(i + 1));
        assert(b@.skip(i as int).drop_first() == b@.skip(i + 1));
        i += 1;
    }
    i < b.len()
}

} // verus!
