//! What holds of a store at all times, and that every change keeps it.

use crate::ledger::{line_inputs, new_ledger_row};
use crate::lines::{LineOwner, new_lines, not_attached_to, Owner};
use crate::models::{
    CreateReservationRequestView, MemberView, ReservationStatus, SeatStatus, ServiceInputView,
    ServiceSessionView, StaffView, UpdateReservationRequestView,
};
use crate::reservations::{changed_reservation_row, new_reservation_row};
use crate::schema::{
    Database, DatabaseView, LedgerRow, MemberRow, MemberRowView, ReservationRow, SessionRow,
    SessionRowView, StaffRow, StaffRowView, UserRow, UserRowView,
};
use crate::seats::seat_numbered;
use crate::sessions::{on_seat, seat_exists, session_other_than};
use crate::setup::{admin_name, default_seat_rows, default_staff_rows};
use crate::table::{
    first_match, ids_unique, lemma_first_match, live_with_id, position_of, Row, unique_ids,
    with_id,
};
use crate::time::Timestamp;
use crate::users::new_user_row;
use vstd::prelude::*;

verus! {

impl DatabaseView {
    /// No seat holds two sessions.
    pub open spec fn one_session_per_seat(self) -> bool {
        forall|i: int, j: int|
            0 <= i < j < self.sessions.len() ==> (#[trigger] self.sessions[i]).seat_id != (
            #[trigger] self.sessions[j]).seat_id
    }

    /// No two seat rows have the same number.
    pub open spec fn seats_numbered_once(self) -> bool {
        forall|i: int, j: int|
            0 <= i < j < self.seats.len() ==> (#[trigger] self.seats[i]).id != (
            #[trigger] self.seats[j]).id
    }

    /// Every session is on a seat that has a row.
    pub open spec fn sessions_have_seats(self) -> bool {
        forall|i: int|
            0 <= i < self.sessions.len() ==> self.has_seat((#[trigger] self.sessions[i]).seat_id)
    }

    /// The line items are numbered upwards in table order, from one to the
    /// last number given at most.
    pub open spec fn lines_numbered(self) -> bool {
        &&& 0 <= self.last_service_id <= i32::MAX
        &&& forall|i: int|
            0 <= i < self.services.len() ==> 1 <= (#[trigger] self.services[i]).id
                <= self.last_service_id
        &&& forall|i: int, j: int|
            0 <= i < j < self.services.len() ==> (#[trigger] self.services[i]).id < (
            #[trigger] self.services[j]).id
    }

    /// Every line item is attached to one thing and no other.
    pub open spec fn lines_singly_owned(self) -> bool {
        forall|i: int| 0 <= i < self.services.len() ==> (#[trigger] self.services[i]).has_one_owner()
    }

    /// The owner `owner` has a row: a session, a reservation (deleted or
    /// not) or a ledger entry.
    pub open spec fn has_owner(self, owner: Owner) -> bool {
        match owner {
            Owner::Session(id) => first_match(self.sessions, with_id::<SessionRow>(id)) is Some,
            Owner::Reservation(id) => first_match(
                self.reservations,
                with_id::<ReservationRow>(id),
            ) is Some,
            Owner::Ledger(id) => first_match(self.ledger, with_id::<LedgerRow>(id)) is Some,
        }
    }

    /// Every line item is attached to rows that exist.
    pub open spec fn lines_owned(self) -> bool {
        forall|i: int, owner: Owner|
            0 <= i < self.services.len() && #[trigger] self.services[i].belongs_to(owner)
                ==> self.has_owner(owner)
    }

    /// The store is well formed: identities are unique within each table,
    /// seat numbers are unique, no seat holds two sessions, every session
    /// is on a seat that has a row, and the line items are numbered upwards
    /// and attached each to one row, which exists.
    pub open spec fn wf(self) -> bool {
        &&& unique_ids::<UserRow>(self.users)
        &&& unique_ids::<MemberRow>(self.members)
        &&& unique_ids::<StaffRow>(self.staff)
        &&& unique_ids::<SessionRow>(self.sessions)
        &&& unique_ids::<ReservationRow>(self.reservations)
        &&& unique_ids::<LedgerRow>(self.ledger)
        &&& self.seats_numbered_once()
        &&& self.one_session_per_seat()
        &&& self.sessions_have_seats()
        &&& self.lines_numbered()
        &&& self.lines_singly_owned()
        &&& self.lines_owned()
    }
}

/// The empty store is well formed.
pub proof fn lemma_empty_wf()
    ensures
        DatabaseView::empty().wf(),
{
}

/// Every element that passes a filter is an element of the sequence, and
/// the elements that pass stand in the order they had.
pub proof fn lemma_filter_positions<T>(s: Seq<T>, p: spec_fn(T) -> bool) -> (at: Seq<int>)
    ensures
        at.len() == s.filter(p).len(),
        forall|k: int| 0 <= k < at.len() ==> 0 <= #[trigger] at[k] < s.len() && s.filter(p)[k] == s[at[k]]
            && p(s[at[k]]),
        forall|k: int, l: int| 0 <= k < l < at.len() ==> at[k] < at[l],
        forall|i: int| 0 <= i < s.len() && p(s[i]) ==> exists|k: int| 0 <= k < at.len() && #[trigger] at[k] == i,
    decreases s.len(),
{
    reveal(Seq::filter);
    if s.len() == 0 {
        Seq::empty()
    } else {
        let head = lemma_filter_positions(s.drop_last(), p);
        let at = if p(s.last()) {
            head.push(s.len() - 1)
        } else {
            head
        };
        assert forall|i: int| 0 <= i < s.len() && p(s[i]) implies exists|k: int|
            0 <= k < at.len() && #[trigger] at[k] == i by {
            if i < s.len() - 1 {
                assert(s.drop_last()[i] == s[i]);
                let k = choose|k: int| 0 <= k < head.len() && #[trigger] head[k] == i;
                assert(at[k] == i);
            } else {
                assert(at[at.len() - 1] == i);
            }
        }
        at
    }
}

/// Removing rows keeps identities unique.
pub proof fn lemma_filter_unique<T: Row>(rows: Seq<T::V>, p: spec_fn(T::V) -> bool)
    requires
        unique_ids::<T>(rows),
    ensures
        unique_ids::<T>(rows.filter(p)),
{
    let at = lemma_filter_positions(rows, p);
    let kept = rows.filter(p);
    assert forall|i: int, j: int| 0 <= i < j < kept.len() implies T::key(#[trigger] kept[i])
        != T::key(#[trigger] kept[j]) by {
        assert(kept[i] == rows[at[i]] && kept[j] == rows[at[j]]);
    }
}

/// Replacing a row by one with the same identity keeps identities unique.
pub proof fn lemma_update_unique<T: Row>(rows: Seq<T::V>, i: int, changed: T::V)
    requires
        unique_ids::<T>(rows),
        0 <= i < rows.len(),
        T::key(changed) == T::key(rows[i]),
    ensures
        unique_ids::<T>(rows.update(i, changed)),
{
    let after = rows.update(i, changed);
    assert forall|a: int, b: int| 0 <= a < b < after.len() implies T::key(#[trigger] after[a])
        != T::key(#[trigger] after[b]) by {
        assert(T::key(after[a]) == T::key(rows[a]));
        assert(T::key(after[b]) == T::key(rows[b]));
    }
}

/// Adding a row whose identity no row has keeps identities unique.
pub proof fn lemma_push_unique<T: Row>(rows: Seq<T::V>, row: T::V)
    requires
        unique_ids::<T>(rows),
        first_match(rows, with_id::<T>(T::key(row))) is None,
    ensures
        unique_ids::<T>(rows.push(row)),
        first_match(rows.push(row), with_id::<T>(T::key(row))) is Some,
{
    lemma_first_match(rows, with_id::<T>(T::key(row)));
    let after = rows.push(row);
    assert forall|a: int, b: int| 0 <= a < b < after.len() implies T::key(#[trigger] after[a])
        != T::key(#[trigger] after[b]) by {
        assert(after[a] == rows[a]);
        if b < rows.len() {
            assert(after[b] == rows[b]);
        } else {
            assert(!with_id::<T>(T::key(row))(rows[a]));
        }
    }
    lemma_first_match(after, with_id::<T>(T::key(row)));
    assert(with_id::<T>(T::key(row))(after[rows.len() as int]));
}

/// A row with an identity stays findable when rows are added behind it or
/// replaced by rows with the same identities.
pub proof fn lemma_still_has_id<T: Row>(rows: Seq<T::V>, after: Seq<T::V>, id: Seq<char>)
    requires
        first_match(rows, with_id::<T>(id)) is Some,
        rows.len() <= after.len(),
        forall|i: int| 0 <= i < rows.len() ==> T::key(#[trigger] after[i]) == T::key(rows[i]),
    ensures
        first_match(after, with_id::<T>(id)) is Some,
{
    lemma_first_match(rows, with_id::<T>(id));
    lemma_first_match(after, with_id::<T>(id));
    let i = first_match(rows, with_id::<T>(id)).unwrap();
    assert(with_id::<T>(id)(after[i]));
}

/// The tables that own line items have kept their rows' identities, and
/// may have grown.
pub open spec fn owners_kept(before: DatabaseView, after: DatabaseView) -> bool {
    &&& before.sessions.len() <= after.sessions.len()
    &&& forall|i: int|
        0 <= i < before.sessions.len() ==> (#[trigger] after.sessions[i]).id
            == before.sessions[i].id
    &&& before.reservations.len() <= after.reservations.len()
    &&& forall|i: int|
        0 <= i < before.reservations.len() ==> (#[trigger] after.reservations[i]).id
            == before.reservations[i].id
    &&& before.ledger.len() <= after.ledger.len()
    &&& forall|i: int|
        0 <= i < before.ledger.len() ==> (#[trigger] after.ledger[i]).id == before.ledger[i].id
}

/// An owner that had a row still has one when the owning tables have kept
/// their rows' identities.
pub proof fn lemma_owner_kept(before: DatabaseView, after: DatabaseView, owner: Owner)
    requires
        owners_kept(before, after),
        before.has_owner(owner),
    ensures
        after.has_owner(owner),
{
    match owner {
        Owner::Session(id) => {
            lemma_still_has_id::<SessionRow>(before.sessions, after.sessions, id);
        },
        Owner::Reservation(id) => {
            lemma_still_has_id::<ReservationRow>(before.reservations, after.reservations, id);
        },
        Owner::Ledger(id) => {
            lemma_still_has_id::<LedgerRow>(before.ledger, after.ledger, id);
        },
    }
}

/// Line items stay owned when the owning tables have kept their rows'
/// identities and the line items are the same.
pub proof fn lemma_lines_still_owned(before: DatabaseView, after: DatabaseView)
    requires
        before.lines_owned(),
        owners_kept(before, after),
        after.services == before.services,
    ensures
        after.lines_owned(),
{
    assert forall|i: int, owner: Owner|
        0 <= i < after.services.len() && #[trigger] after.services[i].belongs_to(
            owner,
        ) implies after.has_owner(owner) by {
        assert(before.services[i].belongs_to(owner));
        lemma_owner_kept(before, after, owner);
    }
}

/// Attaching new line items to an owner that has a row keeps the store
/// well formed.
pub proof fn lemma_with_lines_wf(db: DatabaseView, owner: Owner, inputs: Seq<ServiceInputView>)
    requires
        db.wf(),
        db.has_room_for(inputs.len()),
        db.has_owner(owner),
    ensures
        db.with_lines(owner, inputs).wf(),
{
    let after = db.with_lines(owner, inputs);
    let added = new_lines(db.last_service_id, owner, inputs);
    assert forall|i: int| 0 <= i < after.services.len() implies 1 <= (
    #[trigger] after.services[i]).id <= after.last_service_id by {
        if i < db.services.len() {
            assert(after.services[i] == db.services[i]);
        } else {
            assert(after.services[i] == added[i - db.services.len()]);
        }
    }
    assert forall|i: int, j: int| 0 <= i < j < after.services.len() implies (
    #[trigger] after.services[i]).id < (#[trigger] after.services[j]).id by {
        if j < db.services.len() {
            assert(after.services[i] == db.services[i] && after.services[j] == db.services[j]);
        } else {
            assert(after.services[j] == added[j - db.services.len()]);
            if i < db.services.len() {
                assert(after.services[i] == db.services[i]);
            } else {
                assert(after.services[i] == added[i - db.services.len()]);
            }
        }
    }
    assert forall|i: int, o: Owner|
        0 <= i < after.services.len() && #[trigger] after.services[i].belongs_to(o) implies after.has_owner(
        o,
    ) by {
        if i < db.services.len() {
            assert(after.services[i] == db.services[i]);
            assert(db.services[i].belongs_to(o));
        } else {
            assert(after.services[i] == added[i - db.services.len()]);
            assert(o == owner);
        }
    }
    assert forall|i: int| 0 <= i < after.services.len() implies (
    #[trigger] after.services[i]).has_one_owner() by {
        if i < db.services.len() {
            assert(after.services[i] == db.services[i]);
        } else {
            assert(after.services[i] == added[i - db.services.len()]);
        }
    }
}

/// Removing the line items of an owner keeps the store well formed.
pub proof fn lemma_without_lines_wf(db: DatabaseView, owner: Owner)
    requires
        db.wf(),
    ensures
        db.without_lines(owner).wf(),
        forall|i: int|
            0 <= i < db.without_lines(owner).services.len() ==> !(
            #[trigger] db.without_lines(owner).services[i]).belongs_to(owner),
{
    let after = db.without_lines(owner);
    let at = lemma_filter_positions(db.services, not_attached_to(owner));
    assert forall|i: int| 0 <= i < after.services.len() implies 1 <= (
    #[trigger] after.services[i]).id <= after.last_service_id && !after.services[i].belongs_to(
        owner,
    ) && after.services[i].has_one_owner() by {
        assert(after.services[i] == db.services[at[i]]);
    }
    assert forall|i: int, j: int| 0 <= i < j < after.services.len() implies (
    #[trigger] after.services[i]).id < (#[trigger] after.services[j]).id by {
        assert(after.services[i] == db.services[at[i]]);
        assert(after.services[j] == db.services[at[j]]);
    }
    assert forall|i: int, o: Owner|
        0 <= i < after.services.len() && #[trigger] after.services[i].belongs_to(o) implies after.has_owner(
        o,
    ) by {
        assert(after.services[i] == db.services[at[i]]);
        assert(db.services[at[i]].belongs_to(o));
    }
}

/// Adding a session that the store does not refuse keeps it well formed.
pub proof fn lemma_with_session_wf(db: DatabaseView, row: SessionRowView, inputs: Seq<ServiceInputView>)
    requires
        db.wf(),
        db.session_refusal(row, inputs) is None,
    ensures
        db.with_session(row, inputs).wf(),
{
    let mid = DatabaseView { sessions: db.sessions.push(row), ..db };
    lemma_first_match(db.sessions, on_seat(row.seat_id));
    lemma_first_match(db.sessions, with_id::<SessionRow>(row.id));
    assert(first_match(db.sessions, with_id::<SessionRow>(row.id)) is None) by {
        if first_match(db.sessions, with_id::<SessionRow>(row.id)) is Some {
            let i = first_match(db.sessions, with_id::<SessionRow>(row.id)).unwrap();
            assert(db.sessions[i].id == row.id);
            assert(db.has_session_id(row.id));
        }
    }
    lemma_push_unique::<SessionRow>(db.sessions, row);
    assert forall|i: int, j: int| 0 <= i < j < mid.sessions.len() implies (
    #[trigger] mid.sessions[i]).seat_id != (#[trigger] mid.sessions[j]).seat_id by {
        assert(mid.sessions[i] == db.sessions[i]);
        if j < db.sessions.len() {
            assert(mid.sessions[j] == db.sessions[j]);
        } else {
            assert(!on_seat(row.seat_id)(db.sessions[i]));
        }
    }
    assert forall|i: int| 0 <= i < mid.sessions.len() implies mid.has_seat(
        (#[trigger] mid.sessions[i]).seat_id,
    ) by {
        if i < db.sessions.len() {
            assert(mid.sessions[i] == db.sessions[i]);
        }
    }
    lemma_lines_still_owned(db, mid);
    assert(mid.wf());
    lemma_with_lines_wf(mid, Owner::Session(row.id), inputs);
}

/// Removing the session of a seat keeps the store well formed, and leaves
/// the seat without a session.
pub proof fn lemma_without_session_wf(db: DatabaseView, seat_id: i32)
    requires
        db.wf(),
    ensures
        db.without_session_on(seat_id).wf(),
        db.without_session_on(seat_id).session_on_seat(seat_id) is None,
{
    let after = db.without_session_on(seat_id);
    lemma_first_match(db.sessions, on_seat(seat_id));
    lemma_first_match(after.sessions, on_seat(seat_id));
    match first_match(db.sessions, on_seat(seat_id)) {
        Some(found) => {
            let id = db.sessions[found].id;
            let cleared = db.without_lines(Owner::Session(id));
            lemma_without_lines_wf(db, Owner::Session(id));
            let at = lemma_filter_positions(db.sessions, session_other_than(id));
            lemma_filter_unique::<SessionRow>(db.sessions, session_other_than(id));
            assert forall|i: int, j: int| 0 <= i < j < after.sessions.len() implies (
            #[trigger] after.sessions[i]).seat_id != (#[trigger] after.sessions[j]).seat_id by {
                assert(after.sessions[i] == db.sessions[at[i]]);
                assert(after.sessions[j] == db.sessions[at[j]]);
            }
            assert forall|i: int| 0 <= i < after.sessions.len() implies after.has_seat(
                (#[trigger] after.sessions[i]).seat_id,
            ) by {
                assert(after.sessions[i] == db.sessions[at[i]]);
                assert(db.has_seat(db.sessions[at[i]].seat_id));
            }
            assert forall|i: int, o: Owner|
                0 <= i < after.services.len() && #[trigger] after.services[i].belongs_to(
                    o,
                ) implies after.has_owner(o) by {
                assert(cleared.services[i].belongs_to(o));
                assert(cleared.has_owner(o));
                match o {
                    Owner::Session(other) => {
                        lemma_first_match(db.sessions, with_id::<SessionRow>(other));
                        let k = first_match(db.sessions, with_id::<SessionRow>(other)).unwrap();
                        assert(session_other_than(id)(db.sessions[k]));
                        let w = choose|w: int| 0 <= w < at.len() && #[trigger] at[w] == k;
                        lemma_first_match(after.sessions, with_id::<SessionRow>(other));
                        assert(with_id::<SessionRow>(other)(after.sessions[w]));
                    },
                    _ => {},
                }
            }
            if first_match(after.sessions, on_seat(seat_id)) is Some {
                let k = first_match(after.sessions, on_seat(seat_id)).unwrap();
                assert(after.sessions[k] == db.sessions[at[k]]);
                assert(db.sessions[at[k]].id != id);
                if at[k] < found {
                    assert(db.sessions[at[k]].seat_id != db.sessions[found].seat_id);
                } else if found < at[k] {
                    assert(db.sessions[found].seat_id != db.sessions[at[k]].seat_id);
                }
            }
        },
        None => {},
    }
}

/// Changing the status of a seat keeps the store well formed.
pub proof fn lemma_with_seat_status_wf(db: DatabaseView, id: i32, status: SeatStatus, now: Timestamp)
    requires
        db.wf(),
    ensures
        db.with_seat_status(id, status, now).wf(),
{
    let after = db.with_seat_status(id, status, now);
    lemma_first_match(db.seats, seat_numbered(id));
    assert(after.seats.len() == db.seats.len());
    assert forall|i: int| 0 <= i < db.seats.len() implies (#[trigger] after.seats[i]).id
        == db.seats[i].id by {}
    assert forall|i: int, j: int| 0 <= i < j < after.seats.len() implies (
    #[trigger] after.seats[i]).id != (#[trigger] after.seats[j]).id by {
        assert(after.seats[i].id == db.seats[i].id);
        assert(after.seats[j].id == db.seats[j].id);
    }
    assert forall|i: int| 0 <= i < after.sessions.len() implies after.has_seat(
        (#[trigger] after.sessions[i]).seat_id,
    ) by {
        assert(db.has_seat(db.sessions[i].seat_id));
        let k = choose|k: int|
            0 <= k < db.seats.len() && (#[trigger] db.seats[k]).id == db.sessions[i].seat_id;
        assert(after.seats[k].id == db.sessions[i].seat_id);
    }
}

/// Recording a session that the ledger does not refuse keeps the store
/// well formed.
pub proof fn lemma_with_ledger_entry_wf(db: DatabaseView, id: Seq<char>, now: Timestamp, session: ServiceSessionView)
    requires
        db.wf(),
        db.ledger_refusal(id, session) is None,
    ensures
        db.with_ledger_entry(id, now, session).wf(),
{
    let row = new_ledger_row(id, now, session);
    let mid = DatabaseView { ledger: db.ledger.push(row), ..db };
    lemma_first_match(db.ledger, with_id::<LedgerRow>(id));
    assert(first_match(db.ledger, with_id::<LedgerRow>(id)) is None) by {
        if first_match(db.ledger, with_id::<LedgerRow>(id)) is Some {
            let i = first_match(db.ledger, with_id::<LedgerRow>(id)).unwrap();
            assert(db.ledger[i].id == id);
            assert(db.has_ledger_id(id));
        }
    }
    lemma_push_unique::<LedgerRow>(db.ledger, row);
    lemma_lines_still_owned(db, mid);
    assert(mid.wf());
    lemma_with_lines_wf(mid, Owner::Ledger(id), line_inputs(session.services));
}

/// Adding a reservation that the store does not refuse keeps it well
/// formed.
pub proof fn lemma_with_reservation_wf(
    db: DatabaseView,
    id: Seq<char>,
    now: Timestamp,
    request: CreateReservationRequestView,
)
    requires
        db.wf(),
        db.reservation_refusal(id, request.services.len()) is None,
    ensures
        db.with_reservation(id, now, request).wf(),
{
    let row = new_reservation_row(id, now, request);
    let mid = DatabaseView { reservations: db.reservations.push(row), ..db };
    lemma_push_unique::<ReservationRow>(db.reservations, row);
    lemma_lines_still_owned(db, mid);
    assert(mid.wf());
    lemma_with_lines_wf(mid, Owner::Reservation(id), request.services);
}

/// Changing a reservation keeps the store well formed.
pub proof fn lemma_with_reservation_changed_wf(
    db: DatabaseView,
    id: Seq<char>,
    now: Timestamp,
    request: UpdateReservationRequestView,
)
    requires
        db.wf(),
        db.reservation_change_refusal(id, request.services.len()) is None,
    ensures
        db.with_reservation_changed(id, now, request).wf(),
{
    lemma_first_match(db.reservations, live_with_id::<ReservationRow>(id));
    let i = first_match(db.reservations, live_with_id::<ReservationRow>(id)).unwrap();
    let changed = changed_reservation_row(db.reservations[i], now, request);
    let mid = DatabaseView { reservations: db.reservations.update(i, changed), ..db };
    lemma_update_unique::<ReservationRow>(db.reservations, i, changed);
    lemma_lines_still_owned(db, mid);
    assert(mid.wf());
    lemma_without_lines_wf(mid, Owner::Reservation(id));
    let cleared = mid.without_lines(Owner::Reservation(id));
    lemma_first_match(mid.reservations, with_id::<ReservationRow>(id));
    assert(with_id::<ReservationRow>(id)(mid.reservations[i]));
    lemma_with_lines_wf(cleared, Owner::Reservation(id), request.services);
}

/// Changing the status of a reservation keeps the store well formed.
pub proof fn lemma_with_reservation_status_wf(
    db: DatabaseView,
    id: Seq<char>,
    status: ReservationStatus,
    now: Timestamp,
)
    requires
        db.wf(),
    ensures
        db.with_reservation_status(id, status, now).wf(),
{
    let after = db.with_reservation_status(id, status, now);
    lemma_first_match(db.reservations, live_with_id::<ReservationRow>(id));
    if first_match(db.reservations, live_with_id::<ReservationRow>(id)) is Some {
        let i = first_match(db.reservations, live_with_id::<ReservationRow>(id)).unwrap();
        lemma_update_unique::<ReservationRow>(db.reservations, i, after.reservations[i]);
        assert(after.reservations =~= db.reservations.update(i, after.reservations[i]));
        lemma_lines_still_owned(db, after);
    }
}

/// Deleting a reservation keeps the store well formed.
pub proof fn lemma_without_reservation_wf(db: DatabaseView, id: Seq<char>, now: Timestamp)
    requires
        db.wf(),
    ensures
        db.without_reservation(id, now).wf(),
{
    let after = db.without_reservation(id, now);
    let cleared = db.without_lines(Owner::Reservation(id));
    lemma_without_lines_wf(db, Owner::Reservation(id));
    lemma_first_match(db.reservations, with_id::<ReservationRow>(id));
    if first_match(db.reservations, with_id::<ReservationRow>(id)) is Some {
        let i = first_match(db.reservations, with_id::<ReservationRow>(id)).unwrap();
        lemma_update_unique::<ReservationRow>(db.reservations, i, after.reservations[i]);
        assert(after.reservations =~= db.reservations.update(i, after.reservations[i]));
        lemma_lines_still_owned(cleared, after);
    }
}

/// Adding a member under an identity that no member row has keeps the
/// store well formed.
pub proof fn lemma_with_member_wf(db: DatabaseView, row: MemberRowView)
    requires
        db.wf(),
        !db.has_member_id(row.member.id),
    ensures
        db.with_member(row).wf(),
{
    lemma_push_unique::<MemberRow>(db.members, row);
}

/// Replacing a member by one with the same identity keeps the store well
/// formed.
pub proof fn lemma_with_member_as_wf(db: DatabaseView, id: Seq<char>, member: MemberView)
    requires
        db.wf(),
        db.member(id) matches Some(was) ==> member.id == was.id,
    ensures
        db.with_member_as(id, member).wf(),
{
    let after = db.with_member_as(id, member);
    lemma_first_match(db.members, live_with_id::<MemberRow>(id));
    if first_match(db.members, live_with_id::<MemberRow>(id)) is Some {
        let i = first_match(db.members, live_with_id::<MemberRow>(id)).unwrap();
        lemma_update_unique::<MemberRow>(db.members, i, after.members[i]);
        assert(after.members =~= db.members.update(i, after.members[i]));
    }
}

/// Giving a member a stamp keeps the store well formed.
pub proof fn lemma_with_stamp_wf(db: DatabaseView, id: Seq<char>, now: Timestamp)
    requires
        db.wf(),
    ensures
        db.with_stamp(id, now).wf(),
{
    lemma_first_match(db.members, live_with_id::<MemberRow>(id));
    match db.member(id) {
        Some(was) => {
            lemma_with_member_as_wf(
                db,
                id,
                MemberView { stamps: (was.stamps + 1) as i32, updated_at: now, ..was },
            );
        },
        None => {},
    }
}

/// Deleting a member keeps the store well formed.
pub proof fn lemma_without_member_wf(db: DatabaseView, id: Seq<char>, now: Timestamp)
    requires
        db.wf(),
    ensures
        db.without_member(id, now).wf(),
{
    let after = db.without_member(id, now);
    lemma_first_match(db.members, with_id::<MemberRow>(id));
    if first_match(db.members, with_id::<MemberRow>(id)) is Some {
        let i = first_match(db.members, with_id::<MemberRow>(id)).unwrap();
        lemma_update_unique::<MemberRow>(db.members, i, after.members[i]);
        assert(after.members =~= db.members.update(i, after.members[i]));
    }
}

/// Adding a staff member under an identity that no staff row has keeps the
/// store well formed.
pub proof fn lemma_with_staff_wf(db: DatabaseView, row: StaffRowView)
    requires
        db.wf(),
        !db.has_staff_id(row.staff.id),
    ensures
        db.with_staff(row).wf(),
{
    lemma_push_unique::<StaffRow>(db.staff, row);
}

/// Replacing a staff member by one with the same identity keeps the store
/// well formed.
pub proof fn lemma_with_staff_as_wf(db: DatabaseView, id: Seq<char>, staff: StaffView)
    requires
        db.wf(),
        db.staff_member(id) matches Some(was) ==> staff.id == was.id,
    ensures
        db.with_staff_as(id, staff).wf(),
{
    let after = db.with_staff_as(id, staff);
    lemma_first_match(db.staff, live_with_id::<StaffRow>(id));
    if first_match(db.staff, live_with_id::<StaffRow>(id)) is Some {
        let i = first_match(db.staff, live_with_id::<StaffRow>(id)).unwrap();
        lemma_update_unique::<StaffRow>(db.staff, i, after.staff[i]);
        assert(after.staff =~= db.staff.update(i, after.staff[i]));
    }
}

/// Deleting a staff member keeps the store well formed.
pub proof fn lemma_without_staff_wf(db: DatabaseView, id: Seq<char>, now: Timestamp)
    requires
        db.wf(),
    ensures
        db.without_staff(id, now).wf(),
{
    let after = db.without_staff(id, now);
    lemma_first_match(db.staff, with_id::<StaffRow>(id));
    if first_match(db.staff, with_id::<StaffRow>(id)) is Some {
        let i = first_match(db.staff, with_id::<StaffRow>(id)).unwrap();
        lemma_update_unique::<StaffRow>(db.staff, i, after.staff[i]);
        assert(after.staff =~= db.staff.update(i, after.staff[i]));
    }
}

/// Adding an account that the store does not refuse keeps it well formed.
pub proof fn lemma_with_user_wf(db: DatabaseView, row: UserRowView)
    requires
        db.wf(),
        !db.user_refused(row.user.id, row.user.username),
    ensures
        db.with_user(row).wf(),
{
    lemma_push_unique::<UserRow>(db.users, row);
}

/// Making sure there is an administrator keeps the store well formed.
pub proof fn lemma_seed_admin_wf(db: DatabaseView, id: Seq<char>, now: Timestamp, hash: Seq<char>)
    requires
        db.wf(),
    ensures
        db.after_seed_admin(id, now, hash).0.wf(),
{
    if !db.has_live_user() && !db.user_refused(id, admin_name()) {
        lemma_with_user_wf(db, new_user_row(id, now, admin_name(), hash));
    }
}

/// Making sure there is staff keeps the store well formed.
pub proof fn lemma_seed_staff_wf(db: DatabaseView, ids: Seq<Seq<char>>, now: Timestamp)
    requires
        db.wf(),
    ensures
        db.after_seed_staff(ids, now).0.wf(),
{
    let after = db.after_seed_staff(ids, now).0;
    if !db.has_live_staff() && db.staff_ids_free(ids) {
        let rows = default_staff_rows(ids, now);
        assert forall|i: int, j: int| 0 <= i < j < after.staff.len() implies StaffRow::key(
            #[trigger] after.staff[i],
        ) != StaffRow::key(#[trigger] after.staff[j]) by {
            if j < db.staff.len() {
                assert(after.staff[i] == db.staff[i] && after.staff[j] == db.staff[j]);
            } else {
                assert(after.staff[j] == rows[j - db.staff.len()]);
                if i < db.staff.len() {
                    assert(after.staff[i] == db.staff[i]);
                    assert(db.staff[i].staff.id != ids[j - db.staff.len()]);
                } else {
                    assert(after.staff[i] == rows[i - db.staff.len()]);
                }
            }
        }
    }
}

/// Making sure there are seats keeps the store well formed.
pub proof fn lemma_seed_seats_wf(db: DatabaseView, now: Timestamp)
    requires
        db.wf(),
    ensures
        db.after_seed_seats(now).0.wf(),
{
    let after = db.after_seed_seats(now).0;
    if !db.has_live_seat() && db.seat_numbers_free() {
        let rows = default_seat_rows(now);
        assert forall|i: int, j: int| 0 <= i < j < after.seats.len() implies (
        #[trigger] after.seats[i]).id != (#[trigger] after.seats[j]).id by {
            if j < db.seats.len() {
                assert(after.seats[i] == db.seats[i] && after.seats[j] == db.seats[j]);
            } else {
                assert(after.seats[j] == rows[j - db.seats.len()]);
                if i < db.seats.len() {
                    assert(after.seats[i] == db.seats[i]);
                } else {
                    assert(after.seats[i] == rows[i - db.seats.len()]);
                }
            }
        }
        assert forall|i: int| 0 <= i < after.sessions.len() implies after.has_seat(
            (#[trigger] after.sessions[i]).seat_id,
        ) by {
            assert(db.has_seat(db.sessions[i].seat_id));
            let k = choose|k: int|
                0 <= k < db.seats.len() && (#[trigger] db.seats[k]).id == db.sessions[i].seat_id;
            assert(after.seats[k] == db.seats[k]);
        }
    }
}

fn seats_numbered_once(db: &Database) -> (b: bool)
    ensures
        b == db@.seats_numbered_once(),
{
    let mut j: usize = 0;
    while j < db.seats.len()
        invariant
            j <= db.seats.len(),
            forall|a: int, b: int|
                0 <= a < b < j ==> (#[trigger] db@.seats[a]).id != (#[trigger] db@.seats[b]).id,
        decreases db.seats.len() - j,
    {
        let mut i: usize = 0;
        while i < j
            invariant
                i <= j < db.seats.len(),
                forall|a: int| 0 <= a < i ==> (#[trigger] db@.seats[a]).id != db@.seats[j as int].id,
            decreases j - i,
        {
            if db.seats[i].id == db.seats[j].id {
                assert(db@.seats[i as int].id == db@.seats[j as int].id);
                return false;
            }
            i = i + 1;
        }
        j = j + 1;
    }
    true
}

fn one_session_per_seat(db: &Database) -> (b: bool)
    ensures
        b == db@.one_session_per_seat(),
{
    let mut j: usize = 0;
    while j < db.sessions.len()
        invariant
            j <= db.sessions.len(),
            forall|a: int, b: int|
                0 <= a < b < j ==> (#[trigger] db@.sessions[a]).seat_id != (
                #[trigger] db@.sessions[b]).seat_id,
        decreases db.sessions.len() - j,
    {
        let mut i: usize = 0;
        while i < j
            invariant
                i <= j < db.sessions.len(),
                forall|a: int|
                    0 <= a < i ==> (#[trigger] db@.sessions[a]).seat_id
                        != db@.sessions[j as int].seat_id,
            decreases j - i,
        {
            if db.sessions[i].seat_id == db.sessions[j].seat_id {
                assert(db@.sessions[i as int].seat_id == db@.sessions[j as int].seat_id);
                return false;
            }
            i = i + 1;
        }
        j = j + 1;
    }
    true
}

fn sessions_have_seats(db: &Database) -> (b: bool)
    ensures
        b == db@.sessions_have_seats(),
{
    let mut i: usize = 0;
    while i < db.sessions.len()
        invariant
            i <= db.sessions.len(),
            forall|a: int| 0 <= a < i ==> db@.has_seat((#[trigger] db@.sessions[a]).seat_id),
        decreases db.sessions.len() - i,
    {
        if !seat_exists(db, db.sessions[i].seat_id) {
            assert(!db@.has_seat(db@.sessions[i as int].seat_id));
            return false;
        }
        i = i + 1;
    }
    true
}

fn lines_numbered(db: &Database) -> (b: bool)
    ensures
        b == db@.lines_numbered(),
{
    if db.last_service_id < 0 {
        return false;
    }
    let mut i: usize = 0;
    while i < db.services.len()
        invariant
            i <= db.services.len(),
            0 <= db.last_service_id,
            forall|a: int| 0 <= a < i ==> 1 <= (#[trigger] db@.services[a]).id <= db@.last_service_id,
            forall|a: int, b: int|
                0 <= a < b < i ==> (#[trigger] db@.services[a]).id < (#[trigger] db@.services[b]).id,
        decreases db.services.len() - i,
    {
        let id = db.services[i].id;
        if id < 1 || id > db.last_service_id {
            assert(!(1 <= db@.services[i as int].id <= db@.last_service_id));
            return false;
        }
        if i > 0 && db.services[i - 1].id >= id {
            assert(db@.services[i - 1].id >= db@.services[i as int].id);
            return false;
        }
        assert forall|a: int| 0 <= a < i implies (#[trigger] db@.services[a]).id
            < db@.services[i as int].id by {
            if a < i - 1 {
                assert(db@.services[a].id < db@.services[i - 1].id);
            }
        }
        i = i + 1;
    }
    true
}

fn lines_singly_owned(db: &Database) -> (b: bool)
    ensures
        b == db@.lines_singly_owned(),
{
    let mut i: usize = 0;
    while i < db.services.len()
        invariant
            i <= db.services.len(),
            forall|a: int| 0 <= a < i ==> (#[trigger] db@.services[a]).has_one_owner(),
        decreases db.services.len() - i,
    {
        let line = &db.services[i];
        let session = line.service_session_id.is_some();
        let reservation = line.reservation_id.is_some();
        let ledger = line.ledger_entry_id.is_some();
        let one = (session && !reservation && !ledger) || (!session && reservation && !ledger) || (
        !session && !reservation && ledger);
        if !one {
            assert(!db@.services[i as int].has_one_owner());
            return false;
        }
        i = i + 1;
    }
    true
}

fn owner_exists(db: &Database, owner: &LineOwner) -> (b: bool)
    ensures
        b == db@.has_owner(owner@),
{
    match owner {
        LineOwner::Session(id) => position_of(&db.sessions, id).is_some(),
        LineOwner::Reservation(id) => position_of(&db.reservations, id).is_some(),
        LineOwner::Ledger(id) => position_of(&db.ledger, id).is_some(),
    }
}

/// The owner that a field of a line item names, if it names one.
fn field_owned(db: &Database, field: &Option<String>, kind: u8) -> (b: bool)
    requires
        kind < 3,
    ensures
        b == match field.deep_view() {
            Some(id) => db@.has_owner(
                if kind == 0 {
                    Owner::Session(id)
                } else if kind == 1 {
                    Owner::Reservation(id)
                } else {
                    Owner::Ledger(id)
                },
            ),
            None => true,
        },
{
    match field {
        Some(id) => {
            let owner = if kind == 0 {
                LineOwner::Session(id.clone())
            } else if kind == 1 {
                LineOwner::Reservation(id.clone())
            } else {
                LineOwner::Ledger(id.clone())
            };
            owner_exists(db, &owner)
        },
        None => true,
    }
}

fn lines_owned(db: &Database) -> (b: bool)
    ensures
        b == db@.lines_owned(),
{
    let mut i: usize = 0;
    while i < db.services.len()
        invariant
            i <= db.services.len(),
            forall|a: int, owner: Owner|
                0 <= a < i && #[trigger] db@.services[a].belongs_to(owner) ==> db@.has_owner(owner),
        decreases db.services.len() - i,
    {
        let line = &db.services[i];
        let ghost v = db@.services[i as int];
        if !field_owned(db, &line.service_session_id, 0) {
            assert(v.belongs_to(Owner::Session(v.service_session_id.unwrap())));
            return false;
        }
        if !field_owned(db, &line.reservation_id, 1) {
            assert(v.belongs_to(Owner::Reservation(v.reservation_id.unwrap())));
            return false;
        }
        if !field_owned(db, &line.ledger_entry_id, 2) {
            assert(v.belongs_to(Owner::Ledger(v.ledger_entry_id.unwrap())));
            return false;
        }
        i = i + 1;
    }
    true
}

/// Whether the store is well formed. A store that was read from outside is
/// to be checked before it is worked on.
pub fn is_well_formed(db: &Database) -> (b: bool)
    ensures
        b == db@.wf(),
{
    ids_unique(&db.users) && ids_unique(&db.members) && ids_unique(&db.staff) && ids_unique(
        &db.sessions,
    ) && ids_unique(&db.reservations) && ids_unique(&db.ledger) && seats_numbered_once(db)
        && one_session_per_seat(db) && sessions_have_seats(db) && lines_numbered(db)
        && lines_singly_owned(db) && lines_owned(db)
}

} // verus!
