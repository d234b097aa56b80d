//! Stable sorting by a precedence relation.

use crate::models::view_all;
use vstd::prelude::*;

verus! {

/// `s` with `x` put in behind every element that `x` does not go before.
/// In a sequence already in order, that is the last place that keeps the
/// order.
pub open spec fn insert_sorted<T>(s: Seq<T>, x: T, before: spec_fn(T, T) -> bool) -> Seq<T>
    decreases s.len(),
{
    if s.len() == 0 {
        seq![x]
    } else if before(x, s.last()) {
        insert_sorted(s.drop_last(), x, before).push(s.last())
    } else {
        s.push(x)
    }
}

/// The elements of `s` in the order of `before`; elements of which neither
/// goes before the other keep the order they have in `s`.
pub open spec fn sorted_by<T>(s: Seq<T>, before: spec_fn(T, T) -> bool) -> Seq<T>
    decreases s.len(),
{
    if s.len() == 0 {
        s
    } else {
        insert_sorted(sorted_by(s.drop_last(), before), s.last(), before)
    }
}

/// No element of `s` goes before one that stands earlier in `s`.
pub open spec fn in_order<T>(s: Seq<T>, before: spec_fn(T, T) -> bool) -> bool {
    forall|i: int, j: int| 0 <= i < j < s.len() ==> !before(s[j], s[i])
}

/// `before` never holds both ways, and whatever goes before `c` goes before
/// `b` too unless `b` itself goes before `c`.
pub open spec fn strict_weak_order<T>(before: spec_fn(T, T) -> bool) -> bool {
    &&& forall|a: T, b: T| !(#[trigger] before(a, b) && before(b, a))
    &&& forall|a: T, b: T, c: T| #[trigger] before(a, c) ==> #[trigger] before(a, b) || before(b, c)
}

/// Where [`insert_sorted`] puts `x`: at `p`, when `x` goes before every
/// element from `p` on and not before the one just ahead of `p`.
pub proof fn lemma_insert_sorted_at<T>(s: Seq<T>, x: T, before: spec_fn(T, T) -> bool, p: int)
    requires
        0 <= p <= s.len(),
        forall|k: int| p <= k < s.len() ==> before(x, s[k]),
        p > 0 ==> !before(x, s[p - 1]),
    ensures
        insert_sorted(s, x, before) == s.insert(p, x),
    decreases s.len(),
{
    if s.len() == 0 {
        assert(seq![x] =~= s.insert(p, x));
    } else if p == s.len() {
        assert(s.push(x) =~= s.insert(p, x));
    } else {
        lemma_insert_sorted_at(s.drop_last(), x, before, p);
        assert(s.drop_last().insert(p, x).push(s.last()) =~= s.insert(p, x));
    }
}

/// Putting an element in keeps the length plus one and the elements.
pub proof fn lemma_insert_sorted_permutes<T>(s: Seq<T>, x: T, before: spec_fn(T, T) -> bool)
    ensures
        insert_sorted(s, x, before).to_multiset() == s.to_multiset().insert(x),
        insert_sorted(s, x, before).len() == s.len() + 1,
    decreases s.len(),
{
    broadcast use vstd::seq_lib::group_to_multiset_ensures;

    if s.len() == 0 {
        assert(seq![x] =~= s.push(x));
    } else if before(x, s.last()) {
        lemma_insert_sorted_permutes(s.drop_last(), x, before);
        assert(s =~= s.drop_last().push(s.last()));
        assert(insert_sorted(s.drop_last(), x, before).push(s.last()).to_multiset()
            =~= s.to_multiset().insert(x));
    }
}

/// Sorting rearranges: every element occurs as often after as before.
pub proof fn lemma_sorted_by_permutes<T>(s: Seq<T>, before: spec_fn(T, T) -> bool)
    ensures
        sorted_by(s, before).to_multiset() == s.to_multiset(),
        sorted_by(s, before).len() == s.len(),
    decreases s.len(),
{
    broadcast use vstd::seq_lib::group_to_multiset_ensures;

    if s.len() > 0 {
        lemma_sorted_by_permutes(s.drop_last(), before);
        lemma_insert_sorted_permutes(sorted_by(s.drop_last(), before), s.last(), before);
        assert(s =~= s.drop_last().push(s.last()));
    }
}

/// Putting an element into a sequence in order leaves it in order.
pub proof fn lemma_insert_sorted_in_order<T>(s: Seq<T>, x: T, before: spec_fn(T, T) -> bool)
    requires
        strict_weak_order(before),
        in_order(s, before),
    ensures
        in_order(insert_sorted(s, x, before), before),
    decreases s.len(),
{
    let r = insert_sorted(s, x, before);
    if s.len() == 0 {
    } else if before(x, s.last()) {
        let head = s.drop_last();
        let inner = insert_sorted(head, x, before);
        lemma_insert_sorted_in_order(head, x, before);
        lemma_insert_sorted_permutes(head, x, before);
        broadcast use vstd::seq_lib::group_to_multiset_ensures;

        assert forall|i: int, j: int| 0 <= i < j < r.len() implies !before(r[j], r[i]) by {
            if j < inner.len() {
                assert(r[i] == inner[i] && r[j] == inner[j]);
            } else {
                assert(r[j] == s.last());
                assert(r[i] == inner[i]);
                assert(inner.to_multiset().count(inner[i]) > 0);
                if inner[i] == x {
                    assert(!(before(x, s.last()) && before(s.last(), x)));
                } else {
                    assert(head.to_multiset().count(inner[i]) > 0);
                    assert(head.contains(inner[i]));
                    let k = choose|k: int| 0 <= k < head.len() && head[k] == inner[i];
                    assert(s[k] == inner[i]);
                    assert(!before(s[s.len() - 1], s[k]));
                }
            }
        }
    } else {
        assert forall|i: int, j: int| 0 <= i < j < r.len() implies !before(r[j], r[i]) by {
            if j < s.len() {
                assert(r[i] == s[i] && r[j] == s[j]);
            } else {
                assert(r[j] == x && r[i] == s[i]);
                if i < s.len() - 1 {
                    assert(!before(s[s.len() - 1], s[i]));
                    assert(before(x, s[i]) ==> before(x, s.last()) || before(s.last(), s[i]));
                }
            }
        }
    }
}

/// Sorting by a strict weak order puts the elements in order.
pub proof fn lemma_sorted_by_in_order<T>(s: Seq<T>, before: spec_fn(T, T) -> bool)
    requires
        strict_weak_order(before),
    ensures
        in_order(sorted_by(s, before), before),
    decreases s.len(),
{
    if s.len() > 0 {
        lemma_sorted_by_in_order(s.drop_last(), before);
        lemma_insert_sorted_in_order(sorted_by(s.drop_last(), before), s.last(), before);
    }
}

/// Sorting rearranges: where each element of the sorted sequence stood
/// before, no place being taken twice.
pub proof fn lemma_sorted_by_places<T>(s: Seq<T>, before: spec_fn(T, T) -> bool) -> (at: Seq<int>)
    ensures
        at.len() == s.len(),
        sorted_by(s, before).len() == s.len(),
        forall|k: int|
            0 <= k < at.len() ==> 0 <= #[trigger] at[k] < s.len() && sorted_by(s, before)[k]
                == s[at[k]],
        forall|k: int, l: int| 0 <= k < at.len() && 0 <= l < at.len() && k != l ==> at[k] != at[l],
    decreases s.len(),
{
    if s.len() == 0 {
        Seq::empty()
    } else {
        let head = s.drop_last();
        let places = lemma_sorted_by_places(head, before);
        let sorted = sorted_by(head, before);
        let p = choose|p: int|
            0 <= p <= sorted.len() && insert_sorted(sorted, s.last(), before) == sorted.insert(
                p,
                s.last(),
            );
        lemma_insert_sorted_somewhere(sorted, s.last(), before);
        let at = places.insert(p, s.len() - 1);
        assert forall|k: int| 0 <= k < at.len() implies 0 <= #[trigger] at[k] < s.len() && sorted_by(
            s,
            before,
        )[k] == s[at[k]] by {
            if k < p {
                assert(at[k] == places[k]);
                assert(head[places[k]] == s[places[k]]);
            } else if k > p {
                assert(at[k] == places[k - 1]);
                assert(head[places[k - 1]] == s[places[k - 1]]);
            }
        }
        assert forall|k: int, l: int|
            0 <= k < at.len() && 0 <= l < at.len() && k != l implies at[k] != at[l] by {
            let a = if k < p {
                k
            } else {
                k - 1
            };
            let b = if l < p {
                l
            } else {
                l - 1
            };
            if k != p && l != p {
                assert(at[k] == places[a] && at[l] == places[b]);
            } else if k == p {
                assert(at[l] == places[b]);
            } else {
                assert(at[k] == places[a]);
            }
        }
        at
    }
}

/// [`insert_sorted`] puts the element in somewhere and leaves the others
/// in their order.
pub proof fn lemma_insert_sorted_somewhere<T>(s: Seq<T>, x: T, before: spec_fn(T, T) -> bool)
    ensures
        exists|p: int| 0 <= p <= s.len() && insert_sorted(s, x, before) == s.insert(p, x),
    decreases s.len(),
{
    if s.len() == 0 {
        assert(seq![x] =~= s.insert(0, x));
    } else if before(x, s.last()) {
        lemma_insert_sorted_somewhere(s.drop_last(), x, before);
        let p = choose|p: int|
            0 <= p <= s.drop_last().len() && insert_sorted(s.drop_last(), x, before)
                == s.drop_last().insert(p, x);
        assert(s.drop_last().insert(p, x).push(s.last()) =~= s.insert(p, x));
    } else {
        assert(s.push(x) =~= s.insert(s.len() as int, x));
    }
}

/// A type whose values have a place in a listing.
pub trait Ranked: View + Sized {
    /// `a` is listed ahead of `b`.
    spec fn precedes(a: Self::V, b: Self::V) -> bool;

    /// Computes [`Ranked::precedes`].
    fn goes_before(&self, other: &Self) -> (b: bool)
        ensures
            b == Self::precedes(self@, other@),
    ;
}

/// The precedence of `T` as a relation.
pub open spec fn rank<T: Ranked>() -> spec_fn(T::V, T::V) -> bool {
    |a: T::V, b: T::V| T::precedes(a, b)
}

/// Puts `x` into `v` where [`insert_sorted`] puts it.
pub fn insert_ranked<T: Ranked>(v: &mut Vec<T>, x: T)
    ensures
        view_all(final(v)@) == insert_sorted(view_all(old(v)@), x@, rank::<T>()),
{
    let ghost s = view_all(v@);
    let mut p: usize = v.len();
    while p > 0 && x.goes_before(&v[p - 1])
        invariant
            p <= v.len(),
            s == view_all(v@),
            forall|k: int| p <= k < s.len() ==> rank::<T>()(x@, s[k]),
        decreases p,
    {
        p = p - 1;
    }
    proof {
        lemma_insert_sorted_at(s, x@, rank::<T>(), p as int);
    }
    let ghost xv = x@;
    v.insert(p, x);
    assert(view_all(v@) =~= s.insert(p as int, xv));
}

/// Sorts `v` by the precedence of its elements, keeping the order of
/// elements of which neither goes before the other.
pub fn sort_ranked<T: Ranked>(v: Vec<T>) -> (r: Vec<T>)
    ensures
        view_all(r@) == sorted_by(view_all(v@), rank::<T>()),
{
    let mut out: Vec<T> = Vec::new();
    let ghost s = view_all(v@);
    assert(view_all(out@) =~= sorted_by(s.take(0), rank::<T>()));
    for x in it: v
        invariant
            s == view_all(it.seq()),
            view_all(out@) == sorted_by(s.take(it.index() as int), rank::<T>()),
    {
        let ghost i = it.index() as int;
        assert(s.take(i + 1).drop_last() =~= s.take(i));
        insert_ranked(&mut out, x);
    }
    assert(s.take(s.len() as int) =~= s);
    out
}

} // verus!
