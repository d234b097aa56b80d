//! Rows that are found by a text identity, and may be marked as deleted.

use crate::models::view_all;
use vstd::prelude::*;

verus! {

/// The position of the first element of `s` that satisfies `p`.
pub open spec fn first_match<T>(s: Seq<T>, p: spec_fn(T) -> bool) -> Option<int>
    decreases s.len(),
{
    if s.len() == 0 {
        None
    } else {
        match first_match(s.drop_last(), p) {
            Some(i) => Some(i),
            None => if p(s.last()) {
                Some(s.len() - 1)
            } else {
                None
            },
        }
    }
}

/// [`first_match`] finds an element that satisfies `p` and has none before
/// it that does, or reports that there is none at all.
pub proof fn lemma_first_match<T>(s: Seq<T>, p: spec_fn(T) -> bool)
    ensures
        match first_match(s, p) {
            Some(i) => 0 <= i < s.len() && p(s[i]) && forall|j: int| 0 <= j < i ==> !p(s[j]),
            None => forall|j: int| 0 <= j < s.len() ==> !p(s[j]),
        },
    decreases s.len(),
{
    if s.len() > 0 {
        lemma_first_match(s.drop_last(), p);
        assert(forall|j: int| 0 <= j < s.len() - 1 ==> s.drop_last()[j] == s[j]);
    }
}

/// An element that satisfies `p` with none before it that does is the one
/// that [`first_match`] finds.
pub proof fn lemma_first_match_is<T>(s: Seq<T>, p: spec_fn(T) -> bool, i: int)
    requires
        0 <= i < s.len(),
        p(s[i]),
        forall|j: int| 0 <= j < i ==> !p(s[j]),
    ensures
        first_match(s, p) == Some(i),
{
    lemma_first_match(s, p);
}

/// No element satisfies `p`, so [`first_match`] finds none.
pub proof fn lemma_first_match_none<T>(s: Seq<T>, p: spec_fn(T) -> bool)
    requires
        forall|j: int| 0 <= j < s.len() ==> !p(s[j]),
    ensures
        first_match(s, p) is None,
{
    lemma_first_match(s, p);
}

/// A row of a table whose rows have a text identity.
pub trait Row: View + Sized {
    /// The identity of the row.
    spec fn key(v: Self::V) -> Seq<char>;

    /// The row is not marked as deleted.
    spec fn live(v: Self::V) -> bool;

    /// The identity of the row.
    fn id(&self) -> (k: &String)
        ensures
            k@ == Self::key(self@),
    ;

    /// Whether the row has the identity `key`.
    fn has_key(&self, key: &String) -> (b: bool)
        ensures
            b == (Self::key(self@) == key@),
    ;

    /// Whether the row is not marked as deleted.
    fn is_live(&self) -> (b: bool)
        ensures
            b == Self::live(self@),
    ;
}

/// Rows with the identity `id`, deleted or not.
pub open spec fn with_id<T: Row>(id: Seq<char>) -> spec_fn(T::V) -> bool {
    |v: T::V| T::key(v) == id
}

/// Rows with the identity `id` that are not deleted.
pub open spec fn live_with_id<T: Row>(id: Seq<char>) -> spec_fn(T::V) -> bool {
    |v: T::V| T::key(v) == id && T::live(v)
}

/// Rows that are not deleted.
pub open spec fn live_rows<T: Row>() -> spec_fn(T::V) -> bool {
    |v: T::V| T::live(v)
}

/// No two rows have the same identity.
pub open spec fn unique_ids<T: Row>(rows: Seq<T::V>) -> bool {
    forall|i: int, j: int|
        0 <= i < j < rows.len() ==> T::key(#[trigger] rows[i]) != T::key(#[trigger] rows[j])
}

/// The position of the first row with the identity `id`, deleted or not.
pub fn position_of<T: Row>(rows: &Vec<T>, id: &String) -> (r: Option<usize>)
    ensures
        match r {
            Some(i) => i < rows.len() && first_match(view_all(rows@), with_id::<T>(id@)) == Some(
                i as int,
            ),
            None => first_match(view_all(rows@), with_id::<T>(id@)) is None,
        },
{
    let mut i: usize = 0;
    while i < rows.len()
        invariant
            i <= rows.len(),
            forall|j: int| 0 <= j < i ==> !with_id::<T>(id@)(#[trigger] view_all(rows@)[j]),
        decreases rows.len() - i,
    {
        if rows[i].has_key(id) {
            proof {
                lemma_first_match_is(view_all(rows@), with_id::<T>(id@), i as int);
            }
            return Some(i);
        }
        i = i + 1;
    }
    proof {
        lemma_first_match_none(view_all(rows@), with_id::<T>(id@));
    }
    None
}

/// The position of the first row with the identity `id` that is not
/// deleted.
pub fn live_position_of<T: Row>(rows: &Vec<T>, id: &String) -> (r: Option<usize>)
    ensures
        match r {
            Some(i) => i < rows.len() && first_match(view_all(rows@), live_with_id::<T>(id@))
                == Some(i as int),
            None => first_match(view_all(rows@), live_with_id::<T>(id@)) is None,
        },
{
    let mut i: usize = 0;
    while i < rows.len()
        invariant
            i <= rows.len(),
            forall|j: int| 0 <= j < i ==> !live_with_id::<T>(id@)(#[trigger] view_all(rows@)[j]),
        decreases rows.len() - i,
    {
        if rows[i].has_key(id) && rows[i].is_live() {
            proof {
                lemma_first_match_is(view_all(rows@), live_with_id::<T>(id@), i as int);
            }
            return Some(i);
        }
        i = i + 1;
    }
    proof {
        lemma_first_match_none(view_all(rows@), live_with_id::<T>(id@));
    }
    None
}

/// Replacing the first live row with the identity `id` by a live row with
/// the same identity leaves it the first such row.
pub proof fn lemma_update_keeps_position<T: Row>(rows: Seq<T::V>, id: Seq<char>, i: int, changed: T::V)
    requires
        first_match(rows, live_with_id::<T>(id)) == Some(i),
        0 <= i < rows.len() ==> T::key(changed) == T::key(rows[i]) && T::live(changed)
            == T::live(rows[i]),
    ensures
        0 <= i < rows.len(),
        T::key(rows[i]) == id,
        T::live(rows[i]),
        first_match(rows.update(i, changed), live_with_id::<T>(id)) == Some(i),
{
    lemma_first_match(rows, live_with_id::<T>(id));
    let after = rows.update(i, changed);
    assert forall|j: int| 0 <= j < i implies !live_with_id::<T>(id)(after[j]) by {
        assert(after[j] == rows[j]);
    }
    lemma_first_match_is(after, live_with_id::<T>(id), i);
}

/// A row added behind rows none of which has its identity is the first
/// live row with that identity, if it is live.
pub proof fn lemma_push_is_found<T: Row>(rows: Seq<T::V>, row: T::V)
    requires
        first_match(rows, with_id::<T>(T::key(row))) is None,
        T::live(row),
    ensures
        first_match(rows.push(row), live_with_id::<T>(T::key(row))) == Some(rows.len() as int),
{
    let id = T::key(row);
    lemma_first_match(rows, with_id::<T>(id));
    let after = rows.push(row);
    assert forall|j: int| 0 <= j < rows.len() implies !live_with_id::<T>(id)(after[j]) by {
        assert(after[j] == rows[j]);
        assert(!with_id::<T>(id)(rows[j]));
    }
    lemma_first_match_is(after, live_with_id::<T>(id), rows.len() as int);
}

/// Whether no two rows have the same identity.
pub fn ids_unique<T: Row>(rows: &Vec<T>) -> (b: bool)
    ensures
        b == unique_ids::<T>(view_all(rows@)),
{
    let ghost all = view_all(rows@);
    let mut j: usize = 0;
    while j < rows.len()
        invariant
            j <= rows.len(),
            all == view_all(rows@),
            forall|a: int, b: int| 0 <= a < b < j ==> T::key(#[trigger] all[a]) != T::key(#[trigger] all[b]),
        decreases rows.len() - j,
    {
        let mut i: usize = 0;
        while i < j
            invariant
                i <= j < rows.len(),
                all == view_all(rows@),
                forall|a: int| 0 <= a < i ==> T::key(#[trigger] all[a]) != T::key(all[j as int]),
            decreases j - i,
        {
            if rows[i].has_key(rows[j].id()) {
                assert(T::key(all[i as int]) == T::key(all[j as int]));
                return false;
            }
            i = i + 1;
        }
        j = j + 1;
    }
    true
}

} // verus!
