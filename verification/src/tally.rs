//! Grouping sales by a key: how much and how many for each.

use crate::models::view_all;
use crate::table::{first_match, lemma_first_match, lemma_first_match_none};
use vstd::prelude::*;

verus! {

/// One sale: what it is booked under, the label shown for that key, and the
/// amount.
#[derive(Debug)]
pub struct Sale {
    pub key: String,
    pub label: String,
    pub amount: i32,
}

/// The mathematical value of a [`Sale`].
pub struct SaleView {
    pub key: Seq<char>,
    pub label: Seq<char>,
    pub amount: i32,
}

impl View for Sale {
    type V = SaleView;

    open spec fn view(&self) -> SaleView {
        SaleView { key: self.key@, label: self.label@, amount: self.amount }
    }
}

/// The sales booked under one key: their sum and their number.
#[derive(Debug)]
pub struct Tally {
    pub key: String,
    pub label: String,
    pub amount: i128,
    pub count: usize,
}

/// The mathematical value of a [`Tally`].
pub struct TallyView {
    pub key: Seq<char>,
    pub label: Seq<char>,
    pub amount: int,
    pub count: int,
}

impl View for Tally {
    type V = TallyView;

    open spec fn view(&self) -> TallyView {
        TallyView {
            key: self.key@,
            label: self.label@,
            amount: self.amount as int,
            count: self.count as int,
        }
    }
}

/// Sales booked under `key`.
pub open spec fn with_key(key: Seq<char>) -> spec_fn(SaleView) -> bool {
    |s: SaleView| s.key == key
}

/// The sum of the amounts of the sales booked under `key`.
pub open spec fn amount_for(sales: Seq<SaleView>, key: Seq<char>) -> int
    decreases sales.len(),
{
    if sales.len() == 0 {
        0
    } else {
        amount_for(sales.drop_last(), key) + if sales.last().key == key {
            sales.last().amount as int
        } else {
            0
        }
    }
}

/// The number of sales booked under `key`.
pub open spec fn count_for(sales: Seq<SaleView>, key: Seq<char>) -> int
    decreases sales.len(),
{
    if sales.len() == 0 {
        0
    } else {
        count_for(sales.drop_last(), key) + if sales.last().key == key {
            1int
        } else {
            0
        }
    }
}

/// The sum of the amounts of all sales.
pub open spec fn total_amount(sales: Seq<SaleView>) -> int
    decreases sales.len(),
{
    if sales.len() == 0 {
        0
    } else {
        total_amount(sales.drop_last()) + sales.last().amount
    }
}

/// The position of the first sale booked under `key`; the number of sales
/// if there is none.
pub open spec fn first_sale(sales: Seq<SaleView>, key: Seq<char>) -> int {
    match first_match(sales, with_key(key)) {
        Some(k) => k,
        None => sales.len() as int,
    }
}

/// `g` sums up the sales booked under its key, and shows the label of the
/// first of them.
pub open spec fn tallies(g: TallyView, sales: Seq<SaleView>) -> bool {
    &&& 0 <= first_sale(sales, g.key) < sales.len()
    &&& g.label == sales[first_sale(sales, g.key)].label
    &&& g.amount == amount_for(sales, g.key)
    &&& g.count == count_for(sales, g.key)
}

/// Some group has the key `key`.
pub open spec fn has_group(groups: Seq<TallyView>, key: Seq<char>) -> bool {
    exists|j: int| 0 <= j < groups.len() && (#[trigger] groups[j]).key == key
}

/// `groups` is the breakdown of `sales` by key: one group for each key that
/// occurs, in the order in which the keys first occur, each summing up the
/// sales under its key.
pub open spec fn grouped(groups: Seq<TallyView>, sales: Seq<SaleView>) -> bool {
    &&& forall|a: int| 0 <= a < groups.len() ==> tallies(#[trigger] groups[a], sales)
    &&& forall|a: int, b: int|
        0 <= a < b < groups.len() ==> first_sale(sales, (#[trigger] groups[a]).key) < first_sale(
            sales,
            (#[trigger] groups[b]).key,
        )
    &&& forall|k: int| 0 <= k < sales.len() ==> has_group(groups, (#[trigger] sales[k]).key)
}

/// Sums and counts stay within what the number of sales allows.
pub proof fn lemma_amount_bounds(sales: Seq<SaleView>, key: Seq<char>)
    ensures
        -(sales.len() * 0x8000_0000) <= amount_for(sales, key) <= sales.len() * 0x8000_0000,
        0 <= count_for(sales, key) <= sales.len(),
    decreases sales.len(),
{
    if sales.len() > 0 {
        lemma_amount_bounds(sales.drop_last(), key);
    }
}

/// The total stays within what the number of sales allows.
pub proof fn lemma_total_bounds(sales: Seq<SaleView>)
    ensures
        -(sales.len() * 0x8000_0000) <= total_amount(sales) <= sales.len() * 0x8000_0000,
    decreases sales.len(),
{
    if sales.len() > 0 {
        lemma_total_bounds(sales.drop_last());
    }
}

/// A key under which nothing is booked sums to nothing.
pub proof fn lemma_absent_key(sales: Seq<SaleView>, key: Seq<char>)
    requires
        forall|k: int| 0 <= k < sales.len() ==> (#[trigger] sales[k]).key != key,
    ensures
        amount_for(sales, key) == 0,
        count_for(sales, key) == 0,
        first_match(sales, with_key(key)) is None,
    decreases sales.len(),
{
    if sales.len() > 0 {
        assert(sales.last() == sales[sales.len() - 1]);
        assert forall|k: int| 0 <= k < sales.drop_last().len() implies (#[trigger] sales.drop_last()[k]).key
            != key by {
            assert(sales.drop_last()[k] == sales[k]);
        }
        lemma_absent_key(sales.drop_last(), key);
    }
    assert forall|j: int| 0 <= j < sales.len() implies !with_key(key)(sales[j]) by {}
    lemma_first_match_none(sales, with_key(key));
}

fn group_position(groups: &Vec<Tally>, key: &String) -> (r: Option<usize>)
    ensures
        match r {
            Some(j) => j < groups.len() && groups[j as int]@.key == key@,
            None => forall|j: int| 0 <= j < groups.len() ==> groups[j]@.key != key@,
        },
{
    let mut j: usize = 0;
    while j < groups.len()
        invariant
            j <= groups.len(),
            forall|a: int| 0 <= a < j ==> groups[a]@.key != key@,
        decreases groups.len() - j,
    {
        if groups[j].key == *key {
            return Some(j);
        }
        j = j + 1;
    }
    None
}

/// Breaks `sales` down by key.
pub fn tally(sales: &Vec<Sale>) -> (groups: Vec<Tally>)
    ensures
        grouped(view_all(groups@), view_all(sales@)),
{
    let mut groups: Vec<Tally> = Vec::new();
    let ghost all = view_all(sales@);
    let mut i: usize = 0;
    while i < sales.len()
        invariant
            i <= sales.len(),
            all == view_all(sales@),
            grouped(view_all(groups@), all.take(i as int)),
        decreases sales.len() - i,
    {
        let ghost done = all.take(i as int);
        let ghost next = all.take(i + 1);
        let ghost old_groups = view_all(groups@);
        let sale = &sales[i];
        let ghost key = sale@.key;
        proof {
            assert(next.drop_last() =~= done);
            assert(next.last() == all[i as int]);
            assert(all[i as int] == sale@);
            assert forall|a: int| 0 <= a < old_groups.len() implies first_sale(
                next,
                (#[trigger] old_groups[a]).key,
            ) == first_sale(done, old_groups[a].key) && first_sale(done, old_groups[a].key) < i by {
                assert(tallies(old_groups[a], done));
            }
        }
        match group_position(&groups, &sale.key) {
            Some(j) => {
                proof {
                    lemma_amount_bounds(done, key);
                    assert(tallies(old_groups[j as int], done));
                }
                let g = &groups[j];
                let merged = Tally {
                    key: g.key.clone(),
                    label: g.label.clone(),
                    amount: g.amount + sale.amount as i128,
                    count: g.count + 1,
                };
                groups.set(j, merged);
                proof {
                    let new_groups = view_all(groups@);
                    assert forall|a: int| 0 <= a < new_groups.len() implies tallies(
                        #[trigger] new_groups[a],
                        next,
                    ) by {
                        assert(tallies(old_groups[a], done));
                        assert(new_groups[a].key == old_groups[a].key);
                        if a != j {
                            assert(new_groups[a] == old_groups[a]);
                            assert(first_sale(done, old_groups[a].key) != first_sale(
                                done,
                                old_groups[j as int].key,
                            ));
                        }
                    }
                    assert forall|a: int, b: int| 0 <= a < b < new_groups.len() implies first_sale(
                        next,
                        (#[trigger] new_groups[a]).key,
                    ) < first_sale(next, (#[trigger] new_groups[b]).key) by {
                        assert(new_groups[a].key == old_groups[a].key);
                        assert(new_groups[b].key == old_groups[b].key);
                    }
                    assert forall|k: int| 0 <= k < next.len() implies has_group(
                        new_groups,
                        (#[trigger] next[k]).key,
                    ) by {
                        if k < i {
                            assert(done[k] == next[k]);
                            assert(has_group(old_groups, done[k].key));
                            let w = choose|w: int|
                                0 <= w < old_groups.len() && (#[trigger] old_groups[w]).key
                                    == done[k].key;
                            assert(new_groups[w].key == next[k].key);
                        } else {
                            assert(new_groups[j as int].key == next[k].key);
                        }
                    }
                }
            },
            None => {
                proof {
                    assert forall|k: int| 0 <= k < done.len() implies (#[trigger] done[k]).key
                        != key by {
                        assert(has_group(old_groups, done[k].key));
                    }
                    lemma_absent_key(done, key);
                }
                groups.push(
                    Tally { key: sale.key.clone(), label: sale.label.clone(), amount: sale.amount as i128, count: 1 },
                );
                proof {
                    let new_groups = view_all(groups@);
                    assert(new_groups =~= old_groups.push(
                        TallyView { key, label: sale@.label, amount: sale@.amount as int, count: 1 },
                    ));
                    assert forall|a: int| 0 <= a < new_groups.len() implies tallies(
                        #[trigger] new_groups[a],
                        next,
                    ) by {
                        if a < old_groups.len() {
                            assert(tallies(old_groups[a], done));
                            assert(new_groups[a] == old_groups[a]);
                        }
                    }
                    assert forall|a: int, b: int| 0 <= a < b < new_groups.len() implies first_sale(
                        next,
                        (#[trigger] new_groups[a]).key,
                    ) < first_sale(next, (#[trigger] new_groups[b]).key) by {
                        assert(new_groups[a] == old_groups[a]);
                        if b < old_groups.len() {
                            assert(new_groups[b] == old_groups[b]);
                        }
                    }
                    assert forall|k: int| 0 <= k < next.len() implies has_group(
                        new_groups,
                        (#[trigger] next[k]).key,
                    ) by {
                        if k < i {
                            assert(done[k] == next[k]);
                            assert(has_group(old_groups, done[k].key));
                            let w = choose|w: int|
                                0 <= w < old_groups.len() && (#[trigger] old_groups[w]).key
                                    == done[k].key;
                            assert(new_groups[w].key == next[k].key);
                        } else {
                            assert(new_groups[new_groups.len() - 1].key == next[k].key);
                        }
                    }
                }
            },
        }
        i = i + 1;
    }
    assert(all.take(i as int) =~= all);
    groups
}

/// `n` can be held in 32 bits.
pub open spec fn fits(n: int) -> bool {
    i32::MIN <= n <= i32::MAX
}

/// The sum and the number of the sales under each key that occurs can be
/// held in 32 bits.
pub open spec fn all_fit(sales: Seq<SaleView>) -> bool {
    forall|k: int|
        0 <= k < sales.len() ==> fits(amount_for(sales, (#[trigger] sales[k]).key)) && count_for(
            sales,
            sales[k].key,
        ) <= i32::MAX
}

/// The groups of a breakdown can be held in 32 bits exactly when the sums
/// and numbers under every key can.
pub proof fn lemma_groups_fit(groups: Seq<TallyView>, sales: Seq<SaleView>)
    requires
        grouped(groups, sales),
    ensures
        all_fit(sales) <==> forall|a: int|
            0 <= a < groups.len() ==> fits((#[trigger] groups[a]).amount) && groups[a].count
                <= i32::MAX,
{
    if all_fit(sales) {
        assert forall|a: int| 0 <= a < groups.len() implies fits((#[trigger] groups[a]).amount)
            && groups[a].count <= i32::MAX by {
            assert(tallies(groups[a], sales));
            lemma_first_match(sales, with_key(groups[a].key));
            let k = first_sale(sales, groups[a].key);
            assert(sales[k].key == groups[a].key);
        }
    }
    if forall|a: int|
        0 <= a < groups.len() ==> fits((#[trigger] groups[a]).amount) && groups[a].count
            <= i32::MAX {
        assert forall|k: int| 0 <= k < sales.len() implies fits(
            amount_for(sales, (#[trigger] sales[k]).key),
        ) && count_for(sales, sales[k].key) <= i32::MAX by {
            assert(has_group(groups, sales[k].key));
            let j = choose|j: int| 0 <= j < groups.len() && (#[trigger] groups[j]).key == sales[k].key;
            assert(tallies(groups[j], sales));
        }
    }
}

/// The sum of the amounts of `sales`, exactly.
pub fn total_of(sales: &Vec<Sale>) -> (total: i128)
    ensures
        total == total_amount(view_all(sales@)),
{
    let ghost all = view_all(sales@);
    let mut total: i128 = 0;
    let mut i: usize = 0;
    while i < sales.len()
        invariant
            i <= sales.len(),
            all == view_all(sales@),
            total == total_amount(all.take(i as int)),
        decreases sales.len() - i,
    {
        proof {
            lemma_total_bounds(all.take(i as int));
            assert(all.take(i + 1).drop_last() =~= all.take(i as int));
        }
        total = total + sales[i].amount as i128;
        i = i + 1;
    }
    assert(all.take(i as int) =~= all);
    total
}

} // verus!
