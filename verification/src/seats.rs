//! The seats: the fixed service stations and their status.

use crate::models::{option_view, Seat, SeatStatus, SeatView, view_all};
use crate::schema::{Database, DatabaseView, SeatRow, SeatRowView};
use crate::sessions::get_session_by_seat_id;
use crate::sorting::{rank, sort_ranked, sorted_by};
use crate::table::{first_match, lemma_first_match_is, lemma_first_match_none};
use crate::time::Timestamp;
use crate::wellformed::lemma_with_seat_status_wf;
use vstd::prelude::*;

verus! {

/// Rows of the table of seats that are live and have the number `id`.
pub open spec fn live_seat(id: i32) -> spec_fn(SeatRowView) -> bool {
    |r: SeatRowView| r.id == id && r.deleted_at is None
}

/// Rows of the table of seats with the number `id`, deleted or not.
pub open spec fn seat_numbered(id: i32) -> spec_fn(SeatRowView) -> bool {
    |r: SeatRowView| r.id == id
}

/// Rows of the table of seats that are not deleted.
pub open spec fn live_seats() -> spec_fn(SeatRowView) -> bool {
    |r: SeatRowView| r.deleted_at is None
}

/// Joins a seat row with the session on the seat in `db`.
pub open spec fn seat_joined_in(db: DatabaseView) -> spec_fn(SeatRowView) -> SeatView {
    |r: SeatRowView| db.seat_of(r)
}

impl DatabaseView {
    /// Some row of the table of seats, live or not, has the number `id`.
    pub open spec fn has_seat(self, id: i32) -> bool {
        exists|i: int| 0 <= i < self.seats.len() && #[trigger] self.seats[i].id == id
    }

    /// The seat that `row` and the session in progress on it make up.
    pub open spec fn seat_of(self, row: SeatRowView) -> SeatView {
        SeatView {
            id: row.id,
            name: row.name,
            status: row.status,
            current_session: self.session_on_seat(row.id),
            created_at: row.created_at,
            updated_at: row.updated_at,
        }
    }

    /// The live seat with the number `id`, with its session.
    pub open spec fn seat(self, id: i32) -> Option<SeatView> {
        match first_match(self.seats, live_seat(id)) {
            Some(i) => Some(self.seat_of(self.seats[i])),
            None => None,
        }
    }

    /// The store after the seat row with the number `id`, deleted or not,
    /// was given the status `status` at the time `now`; the same store if
    /// no seat row has the number.
    pub open spec fn with_seat_status(self, id: i32, status: SeatStatus, now: Timestamp) -> DatabaseView {
        match first_match(self.seats, seat_numbered(id)) {
            Some(i) => DatabaseView {
                seats: self.seats.update(
                    i,
                    SeatRowView { status: status, updated_at: now, ..self.seats[i] },
                ),
                ..self
            },
            None => self,
        }
    }

    /// The live seats with their sessions, by ascending number.
    pub open spec fn all_seats(self) -> Seq<SeatView> {
        sorted_by(self.seats.filter(live_seats()).map_values(seat_joined_in(self)), rank::<Seat>())
    }
}

/// The position of the first seat row with the number `id`, deleted or not.
pub fn seat_position(db: &Database, id: i32) -> (r: Option<usize>)
    ensures
        match r {
            Some(i) => i < db.seats.len() && first_match(db@.seats, seat_numbered(id)) == Some(
                i as int,
            ),
            None => first_match(db@.seats, seat_numbered(id)) is None,
        },
{
    let mut i: usize = 0;
    while i < db.seats.len()
        invariant
            i <= db.seats.len(),
            forall|j: int| 0 <= j < i ==> !seat_numbered(id)(#[trigger] db@.seats[j]),
        decreases db.seats.len() - i,
    {
        if db.seats[i].id == id {
            proof {
                lemma_first_match_is(db@.seats, seat_numbered(id), i as int);
            }
            return Some(i);
        }
        i = i + 1;
    }
    proof {
        lemma_first_match_none(db@.seats, seat_numbered(id));
    }
    None
}

/// The position of the first live seat row with the number `id`.
pub fn live_seat_position(db: &Database, id: i32) -> (r: Option<usize>)
    ensures
        match r {
            Some(i) => i < db.seats.len() && first_match(db@.seats, live_seat(id)) == Some(
                i as int,
            ),
            None => first_match(db@.seats, live_seat(id)) is None,
        },
{
    let mut i: usize = 0;
    while i < db.seats.len()
        invariant
            i <= db.seats.len(),
            forall|j: int| 0 <= j < i ==> !live_seat(id)(#[trigger] db@.seats[j]),
        decreases db.seats.len() - i,
    {
        if db.seats[i].id == id && db.seats[i].deleted_at.is_none() {
            proof {
                lemma_first_match_is(db@.seats, live_seat(id), i as int);
            }
            return Some(i);
        }
        i = i + 1;
    }
    proof {
        lemma_first_match_none(db@.seats, live_seat(id));
    }
    None
}

fn joined_seat(db: &Database, row: &SeatRow) -> (r: Seat)
    ensures
        r@ == db@.seat_of(row@),
{
    Seat {
        id: row.id,
        name: row.name.clone(),
        status: row.status,
        current_session: get_session_by_seat_id(db, row.id),
        created_at: row.created_at,
        updated_at: row.updated_at,
    }
}

/// The live seat with the number `id`, with the session in progress on it.
pub fn get_seat_by_id(db: &Database, id: i32) -> (r: Option<Seat>)
    ensures
        option_view(r) == db@.seat(id),
{
    match live_seat_position(db, id) {
        Some(i) => Some(joined_seat(db, &db.seats[i])),
        None => None,
    }
}

/// Every live seat with the session in progress on it, by ascending number.
pub fn get_seats(db: &Database) -> (r: Vec<Seat>)
    ensures
        view_all(r@) == db@.all_seats(),
{
    let mut out: Vec<Seat> = Vec::new();
    let mut i: usize = 0;
    let ghost table = db@.seats;
    let ghost pick = live_seats();
    let ghost join = seat_joined_in(db@);
    assert(table.take(0).filter(pick).map_values(join) =~= Seq::empty()) by {
        reveal(Seq::filter);
    }
    while i < db.seats.len()
        invariant
            i <= db.seats.len(),
            table == db@.seats,
            pick == live_seats(),
            join == seat_joined_in(db@),
            view_all(out@) == table.take(i as int).filter(pick).map_values(join),
        decreases db.seats.len() - i,
    {
        let ghost before = view_all(out@);
        proof {
            assert(table.take(i + 1) =~= table.take(i as int).push(table[i as int]));
            broadcast use Seq::lemma_filter_push;
        }
        if db.seats[i].deleted_at.is_none() {
            out.push(joined_seat(db, &db.seats[i]));
            assert(view_all(out@) =~= before.push(join(table[i as int])));
            assert(table.take(i + 1).filter(pick).map_values(join) =~= before.push(
                join(table[i as int]),
            ));
        }
        i = i + 1;
    }
    assert(table.take(i as int) =~= table);
    sort_ranked(out)
}

/// Gives the seat row with the number `id` the status `status`, whatever
/// its status and whether or not a session is in progress on it.
pub fn update_seat_status(db: &mut Database, now: Timestamp, id: i32, status: SeatStatus)
    ensures
        final(db)@ == old(db)@.with_seat_status(id, status, now),
        old(db)@.wf() ==> final(db)@.wf(),
{
    proof {
        if db@.wf() {
            lemma_with_seat_status_wf(db@, id, status, now);
        }
    }
    match seat_position(db, id) {
        Some(i) => {
            let ghost before = db@.seats;
            let row = &db.seats[i];
            let changed = SeatRow {
                id: row.id,
                name: row.name.clone(),
                status,
                created_at: row.created_at,
                updated_at: now,
                deleted_at: row.deleted_at,
            };
            db.seats.set(i, changed);
            assert(db@.seats =~= before.update(
                i as int,
                SeatRowView { status: status, updated_at: now, ..before[i as int] },
            ));
        },
        None => {},
    }
}

} // verus!
