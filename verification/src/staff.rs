//! Staff: the people who serve customers.

use crate::error::Error;
use crate::models::{option_view, Staff, StaffView, view_all};
use crate::schema::{Database, DatabaseView, StaffRow, StaffRowView};
use crate::sorting::{rank, sort_ranked, sorted_by};
use crate::table::{
    first_match, lemma_push_is_found, lemma_update_keeps_position, live_position_of, live_rows,
    live_with_id, position_of, with_id,
};
use crate::time::Timestamp;
use crate::wellformed::{lemma_with_staff_as_wf, lemma_with_staff_wf, lemma_without_staff_wf};
use vstd::prelude::*;

verus! {

/// The staff member that a row holds.
pub open spec fn staff_in_row() -> spec_fn(StaffRowView) -> StaffView {
    |row: StaffRowView| row.staff
}

/// The row of a staff member created at `now`.
pub open spec fn new_staff_row(id: Seq<char>, now: Timestamp, name: Seq<char>) -> StaffRowView {
    StaffRowView { staff: StaffView { id, name, created_at: now, updated_at: now }, deleted_at: None }
}

impl DatabaseView {
    /// The live staff member with the identity `id`.
    pub open spec fn staff_member(self, id: Seq<char>) -> Option<StaffView> {
        match first_match(self.staff, live_with_id::<StaffRow>(id)) {
            Some(i) => Some(self.staff[i].staff),
            None => None,
        }
    }

    /// The live staff, the one created first first; staff created at the
    /// same time in table order.
    pub open spec fn staff_listed(self) -> Seq<StaffView> {
        sorted_by(
            self.staff.filter(live_rows::<StaffRow>()).map_values(staff_in_row()),
            rank::<Staff>(),
        )
    }

    /// Some staff row, deleted or not, has the identity `id`.
    pub open spec fn has_staff_id(self, id: Seq<char>) -> bool {
        first_match(self.staff, with_id::<StaffRow>(id)) is Some
    }

    /// The store after `row` was added to the staff.
    pub open spec fn with_staff(self, row: StaffRowView) -> DatabaseView {
        DatabaseView { staff: self.staff.push(row), ..self }
    }

    /// The store after the live staff member `id` was replaced by `staff`;
    /// the same store if there is no such staff member.
    pub open spec fn with_staff_as(self, id: Seq<char>, staff: StaffView) -> DatabaseView {
        match first_match(self.staff, live_with_id::<StaffRow>(id)) {
            Some(i) => DatabaseView {
                staff: self.staff.update(i, StaffRowView { staff: staff, ..self.staff[i] }),
                ..self
            },
            None => self,
        }
    }

    /// The store after the staff row with the identity `id`, deleted
    /// before or not, was marked as deleted at `now`.
    pub open spec fn without_staff(self, id: Seq<char>, now: Timestamp) -> DatabaseView {
        match first_match(self.staff, with_id::<StaffRow>(id)) {
            Some(i) => DatabaseView {
                staff: self.staff.update(
                    i,
                    StaffRowView { deleted_at: Some(now), ..self.staff[i] },
                ),
                ..self
            },
            None => self,
        }
    }
}

/// The live staff, the one created first first.
pub fn get_staff_list(db: &Database) -> (r: Vec<Staff>)
    ensures
        view_all(r@) == db@.staff_listed(),
{
    let mut out: Vec<Staff> = Vec::new();
    let mut i: usize = 0;
    let ghost table = db@.staff;
    let ghost pick = live_rows::<StaffRow>();
    let ghost join = staff_in_row();
    assert(table.take(0).filter(pick).map_values(join) =~= Seq::empty()) by {
        reveal(Seq::filter);
    }
    while i < db.staff.len()
        invariant
            i <= db.staff.len(),
            table == db@.staff,
            pick == live_rows::<StaffRow>(),
            join == staff_in_row(),
            view_all(out@) == table.take(i as int).filter(pick).map_values(join),
        decreases db.staff.len() - i,
    {
        let ghost before = view_all(out@);
        proof {
            assert(table.take(i + 1) =~= table.take(i as int).push(table[i as int]));
            broadcast use Seq::lemma_filter_push;
        }
        if db.staff[i].deleted_at.is_none() {
            out.push(db.staff[i].staff.clone());
            assert(view_all(out@) =~= before.push(join(table[i as int])));
            assert(table.take(i + 1).filter(pick).map_values(join) =~= before.push(
                join(table[i as int]),
            ));
        }
        i = i + 1;
    }
    assert(table.take(i as int) =~= table);
    sort_ranked(out)
}

/// The live staff member with the identity `id`.
pub fn get_staff_by_id(db: &Database, id: &str) -> (r: Option<Staff>)
    ensures
        option_view(r) == db@.staff_member(id@),
{
    let key = id.to_owned();
    match live_position_of(&db.staff, &key) {
        Some(i) => Some(db.staff[i].staff.clone()),
        None => None,
    }
}

/// Adds a staff member under the identity `id` at `now`.
///
/// `Storage` comes back, and the store is left as it was, when the identity
/// is taken.
pub fn create_staff(db: &mut Database, id: &str, now: Timestamp, name: &str) -> (r: Result<Staff, Error>)
    ensures
        match r {
            Ok(staff) => {
                &&& !old(db)@.has_staff_id(id@)
                &&& final(db)@ == old(db)@.with_staff(new_staff_row(id@, now, name@))
                &&& staff@ == new_staff_row(id@, now, name@).staff
                &&& final(db)@.staff_member(id@) == Some(staff@)
            },
            Err(e) => {
                &&& e == Error::Storage
                &&& old(db)@.has_staff_id(id@)
                &&& final(db)@ == old(db)@
            },
        },
        old(db)@.wf() ==> final(db)@.wf(),
{
    proof {
        if db@.wf() && !db@.has_staff_id(id@) {
            lemma_with_staff_wf(db@, new_staff_row(id@, now, name@));
        }
    }
    let key = id.to_owned();
    if position_of(&db.staff, &key).is_some() {
        return Err(Error::Storage);
    }
    let staff = Staff { id: key, name: name.to_owned(), created_at: now, updated_at: now };
    let row = StaffRow { staff: staff.clone(), deleted_at: None };
    let ghost before = db@.staff;
    proof {
        lemma_push_is_found::<StaffRow>(before, row@);
    }
    db.staff.push(row);
    assert(db@.staff =~= before.push(new_staff_row(id@, now, name@)));
    Ok(staff)
}

/// Gives the live staff member `id` the name `name` at `now`.
///
/// `NotFound` comes back, and the store is left as it was, when no live
/// staff member has the identity.
pub fn update_staff(db: &mut Database, now: Timestamp, id: &str, name: &str) -> (r: Result<Staff, Error>)
    ensures
        match r {
            Ok(staff) => {
                &&& old(db)@.staff_member(id@) matches Some(was)
                &&& staff@ == (StaffView { name: name@, updated_at: now, ..was })
                &&& final(db)@ == old(db)@.with_staff_as(id@, staff@)
                &&& final(db)@.staff_member(id@) == Some(staff@)
            },
            Err(e) => {
                &&& e == Error::NotFound
                &&& old(db)@.staff_member(id@) is None
                &&& final(db)@ == old(db)@
            },
        },
        old(db)@.wf() ==> final(db)@.wf(),
{
    proof {
        if db@.wf() && db@.staff_member(id@) is Some {
            let was = db@.staff_member(id@).unwrap();
            lemma_with_staff_as_wf(
                db@,
                id@,
                StaffView { name: name@, updated_at: now, ..was },
            );
        }
    }
    let key = id.to_owned();
    let i = match live_position_of(&db.staff, &key) {
        Some(i) => i,
        None => {
            return Err(Error::NotFound);
        },
    };
    let was = &db.staff[i].staff;
    let staff = Staff {
        id: was.id.clone(),
        name: name.to_owned(),
        created_at: was.created_at,
        updated_at: now,
    };
    let ghost before = db@.staff;
    proof {
        lemma_update_keeps_position::<StaffRow>(
            before,
            id@,
            i as int,
            StaffRowView { staff: staff@, ..before[i as int] },
        );
    }
    let row = StaffRow { staff: staff.clone(), deleted_at: db.staff[i].deleted_at };
    db.staff.set(i, row);
    assert(db@.staff =~= before.update(
        i as int,
        StaffRowView { staff: staff@, ..before[i as int] },
    ));
    Ok(staff)
}

/// Marks the staff member `id` as deleted at `now`.
pub fn delete_staff(db: &mut Database, now: Timestamp, id: &str)
    ensures
        final(db)@ == old(db)@.without_staff(id@, now),
        old(db)@.wf() ==> final(db)@.wf(),
{
    proof {
        if db@.wf() {
            lemma_without_staff_wf(db@, id@, now);
        }
    }
    let key = id.to_owned();
    match position_of(&db.staff, &key) {
        Some(i) => {
            let ghost before = db@.staff;
            let row = StaffRow { staff: db.staff[i].staff.clone(), deleted_at: Some(now) };
            db.staff.set(i, row);
            assert(db@.staff =~= before.update(
                i as int,
                StaffRowView { deleted_at: Some(now), ..before[i as int] },
            ));
        },
        None => {},
    }
}

} // verus!
