//! Service sessions: at most one in progress on each seat.

use crate::error::Error;
use crate::lines::{
    append_lines, has_room_for, LineOwner, lines_attached_to, lines_of, Owner, remove_lines,
};
use crate::models::{
    option_view, SelectedServiceView, ServiceInput, ServiceInputView, ServiceSession,
    ServiceSessionView, view_all,
};
use crate::schema::{Database, DatabaseView, SessionRow, SessionRowView};
use crate::table::{first_match, lemma_first_match_is, lemma_first_match_none};
use crate::time::Timestamp;
use crate::wellformed::{lemma_with_session_wf, lemma_without_session_wf};
use vstd::prelude::*;

verus! {

/// Rows of the table of sessions that hold the seat `seat_id`.
pub open spec fn on_seat(seat_id: i32) -> spec_fn(SessionRowView) -> bool {
    |r: SessionRowView| r.seat_id == seat_id
}

/// Rows of the table of sessions other than those with the identity `id`.
pub open spec fn session_other_than(id: Seq<char>) -> spec_fn(SessionRowView) -> bool {
    |r: SessionRowView| r.id != id
}

/// The session that `row` and its line items among `services` make up.
pub open spec fn session_of(row: SessionRowView, services: Seq<SelectedServiceView>) -> ServiceSessionView {
    ServiceSessionView {
        id: row.id,
        seat_id: row.seat_id,
        member_id: row.member_id,
        member_name: row.member_name,
        services: lines_of(services, Owner::Session(row.id)),
        total_price: row.total_price,
        staff_id: row.staff_id,
        staff_name: row.staff_name,
        start_time: row.start_time,
        reservation_id: row.reservation_id,
        created_at: row.created_at,
        updated_at: row.updated_at,
    }
}

/// The row of a session that starts at `now` with the given fields.
pub open spec fn new_session_row(
    id: Seq<char>,
    now: Timestamp,
    seat_id: i32,
    member_id: Option<Seq<char>>,
    member_name: Seq<char>,
    staff_id: Seq<char>,
    staff_name: Seq<char>,
    total_price: i32,
    reservation_id: Option<Seq<char>>,
) -> SessionRowView {
    SessionRowView {
        id,
        seat_id,
        member_id,
        member_name,
        total_price,
        staff_id,
        staff_name,
        start_time: now,
        reservation_id,
        created_at: now,
        updated_at: now,
    }
}

impl DatabaseView {
    /// Some row of the table of sessions has the identity `id`.
    pub open spec fn has_session_id(self, id: Seq<char>) -> bool {
        exists|i: int| 0 <= i < self.sessions.len() && #[trigger] self.sessions[i].id == id
    }

    /// The session in progress on the seat `seat_id`.
    pub open spec fn session_on_seat(self, seat_id: i32) -> Option<ServiceSessionView> {
        match first_match(self.sessions, on_seat(seat_id)) {
            Some(i) => Some(session_of(self.sessions[i], self.services)),
            None => None,
        }
    }

    /// Why the session `row` cannot be added, if it cannot: the seat already
    /// holds a session; or the identity is taken, the seat does not exist,
    /// or the numbers for its line items have run out.
    pub open spec fn session_refusal(self, row: SessionRowView, inputs: Seq<ServiceInputView>) -> Option<Error> {
        if first_match(self.sessions, on_seat(row.seat_id)) is Some {
            Some(Error::Conflict)
        } else if self.has_session_id(row.id) || !self.has_seat(row.seat_id) || !self.has_room_for(
            inputs.len(),
        ) {
            Some(Error::Storage)
        } else {
            None
        }
    }

    /// The store after the session `row` was added with `inputs` as its
    /// line items.
    pub open spec fn with_session(self, row: SessionRowView, inputs: Seq<ServiceInputView>) -> DatabaseView {
        DatabaseView { sessions: self.sessions.push(row), ..self }.with_lines(
            Owner::Session(row.id),
            inputs,
        )
    }

    /// The store after the session on the seat `seat_id` was removed with
    /// its line items; the same store if the seat holds none.
    pub open spec fn without_session_on(self, seat_id: i32) -> DatabaseView {
        match first_match(self.sessions, on_seat(seat_id)) {
            Some(i) => {
                let id = self.sessions[i].id;
                DatabaseView {
                    sessions: self.sessions.filter(session_other_than(id)),
                    ..self.without_lines(Owner::Session(id))
                }
            },
            None => self,
        }
    }
}

/// The position of the session row of the seat `seat_id`.
pub fn session_position(db: &Database, seat_id: i32) -> (r: Option<usize>)
    ensures
        match r {
            Some(i) => i < db.sessions.len() && first_match(db@.sessions, on_seat(seat_id))
                == Some(i as int),
            None => first_match(db@.sessions, on_seat(seat_id)) is None,
        },
{
    let mut i: usize = 0;
    while i < db.sessions.len()
        invariant
            i <= db.sessions.len(),
            forall|j: int| 0 <= j < i ==> !on_seat(seat_id)(#[trigger] db@.sessions[j]),
        decreases db.sessions.len() - i,
    {
        if db.sessions[i].seat_id == seat_id {
            proof {
                lemma_first_match_is(db@.sessions, on_seat(seat_id), i as int);
            }
            return Some(i);
        }
        i = i + 1;
    }
    proof {
        lemma_first_match_none(db@.sessions, on_seat(seat_id));
    }
    None
}

/// Whether a session row has the identity `id`.
pub fn session_id_taken(db: &Database, id: &String) -> (b: bool)
    ensures
        b == db@.has_session_id(id@),
{
    let mut i: usize = 0;
    while i < db.sessions.len()
        invariant
            i <= db.sessions.len(),
            forall|j: int| 0 <= j < i ==> #[trigger] db@.sessions[j].id != id@,
        decreases db.sessions.len() - i,
    {
        if db.sessions[i].id == *id {
            assert(db@.sessions[i as int].id == id@);
            return true;
        }
        i = i + 1;
    }
    false
}

/// Whether a seat row, live or not, has the number `id`.
pub fn seat_exists(db: &Database, id: i32) -> (b: bool)
    ensures
        b == db@.has_seat(id),
{
    let mut i: usize = 0;
    while i < db.seats.len()
        invariant
            i <= db.seats.len(),
            forall|j: int| 0 <= j < i ==> #[trigger] db@.seats[j].id != id,
        decreases db.seats.len() - i,
    {
        if db.seats[i].id == id {
            assert(db@.seats[i as int].id == id);
            return true;
        }
        i = i + 1;
    }
    false
}

fn joined_session(db: &Database, row: &SessionRow) -> (r: ServiceSession)
    ensures
        r@ == session_of(row@, db@.services),
{
    ServiceSession {
        id: row.id.clone(),
        seat_id: row.seat_id,
        member_id: row.member_id.clone(),
        member_name: row.member_name.clone(),
        services: lines_attached_to(db, &LineOwner::Session(row.id.clone())),
        total_price: row.total_price,
        staff_id: row.staff_id.clone(),
        staff_name: row.staff_name.clone(),
        start_time: row.start_time,
        reservation_id: row.reservation_id.clone(),
        created_at: row.created_at,
        updated_at: row.updated_at,
    }
}

/// The session in progress on the seat `seat_id`, with its line items.
pub fn get_session_by_seat_id(db: &Database, seat_id: i32) -> (r: Option<ServiceSession>)
    ensures
        option_view(r) == db@.session_on_seat(seat_id),
{
    match session_position(db, seat_id) {
        Some(i) => Some(joined_session(db, &db.sessions[i])),
        None => None,
    }
}

pub(crate) fn text_of(o: Option<&str>) -> (r: Option<String>)
    ensures
        r.deep_view() == o.deep_view(),
{
    match o {
        Some(s) => Some(s.to_owned()),
        None => None,
    }
}

/// Starts a session on the seat `seat_id` under the identity `id` at the
/// time `now`.
///
/// A seat holds one session at most: with a session on the seat already
/// the store is left as it was and `Conflict` comes back. `Storage` comes
/// back, and the store is left as it was, when the identity is taken, no
/// seat row has the number, or the line items cannot be numbered.
pub fn create_session(
    db: &mut Database,
    id: &str,
    now: Timestamp,
    seat_id: i32,
    member_id: Option<&str>,
    member_name: &str,
    staff_id: &str,
    staff_name: &str,
    services: &[ServiceInput],
    total_price: i32,
    reservation_id: Option<&str>,
) -> (r: Result<ServiceSession, Error>)
    ensures
        ({
            let row = new_session_row(
                id@,
                now,
                seat_id,
                member_id.deep_view(),
                member_name@,
                staff_id@,
                staff_name@,
                total_price,
                reservation_id.deep_view(),
            );
            let inputs = view_all(services@);
            match r {
                Ok(s) => {
                    &&& old(db)@.session_refusal(row, inputs) is None
                    &&& final(db)@ == old(db)@.with_session(row, inputs)
                    &&& s@ == session_of(row, final(db)@.services)
                },
                Err(e) => {
                    &&& old(db)@.session_refusal(row, inputs) == Some(e)
                    &&& final(db)@ == old(db)@
                },
            }
        }),
        old(db)@.wf() ==> final(db)@.wf(),
{
    proof {
        let row = new_session_row(
            id@,
            now,
            seat_id,
            member_id.deep_view(),
            member_name@,
            staff_id@,
            staff_name@,
            total_price,
            reservation_id.deep_view(),
        );
        if db@.wf() && db@.session_refusal(row, view_all(services@)) is None {
            lemma_with_session_wf(db@, row, view_all(services@));
        }
    }
    let key = id.to_owned();
    if session_position(db, seat_id).is_some() {
        return Err(Error::Conflict);
    }
    if session_id_taken(db, &key) || !seat_exists(db, seat_id) || !has_room_for(
        db,
        services.len(),
    ) {
        return Err(Error::Storage);
    }
    let row = SessionRow {
        id: key.clone(),
        seat_id,
        member_id: text_of(member_id),
        member_name: member_name.to_owned(),
        total_price,
        staff_id: staff_id.to_owned(),
        staff_name: staff_name.to_owned(),
        start_time: now,
        reservation_id: text_of(reservation_id),
        created_at: now,
        updated_at: now,
    };
    let ghost before = view_all(db.sessions@);
    db.sessions.push(row.clone());
    assert(view_all(db.sessions@) =~= before.push(row@));
    append_lines(db, &LineOwner::Session(key), services);
    Ok(joined_session(db, &row))
}

fn remove_sessions_with_id(db: &mut Database, id: &String)
    ensures
        final(db)@ == (DatabaseView {
            sessions: old(db)@.sessions.filter(session_other_than(id@)),
            ..old(db)@
        }),
{
    let mut rows: Vec<SessionRow> = Vec::new();
    core::mem::swap(&mut rows, &mut db.sessions);
    let ghost table = view_all(rows@);
    assert(view_all(db.sessions@) =~= Seq::empty());
    assert(table.take(0).filter(session_other_than(id@)) =~= Seq::empty()) by {
        reveal(Seq::filter);
    }
    for row in it: rows
        invariant
            table == view_all(it.seq()),
            view_all(db.sessions@) == table.take(it.index() as int).filter(
                session_other_than(id@),
            ),
            db.users == old(db).users,
            db.members == old(db).members,
            db.staff == old(db).staff,
            db.seats == old(db).seats,
            db.services == old(db).services,
            db.reservations == old(db).reservations,
            db.ledger == old(db).ledger,
            db.last_service_id == old(db).last_service_id,
    {
        let ghost before = view_all(db.sessions@);
        let ghost i = it.index() as int;
        proof {
            assert(table.take(i + 1) =~= table.take(i).push(table[i]));
            broadcast use Seq::lemma_filter_push;
        }
        if row.id != *id {
            db.sessions.push(row);
            assert(view_all(db.sessions@) =~= before.push(table[i]));
        }
    }
    assert(table.take(table.len() as int) =~= table);
}

/// Ends the session on the seat `seat_id`: removes its row and its line
/// items, and hands back what it was. A seat without a session leaves the
/// store as it was.
pub fn delete_session(db: &mut Database, seat_id: i32) -> (r: Option<ServiceSession>)
    ensures
        option_view(r) == old(db)@.session_on_seat(seat_id),
        final(db)@ == old(db)@.without_session_on(seat_id),
        old(db)@.wf() ==> final(db)@.wf(),
{
    proof {
        if db@.wf() {
            lemma_without_session_wf(db@, seat_id);
        }
    }
    let session = get_session_by_seat_id(db, seat_id);
    match &session {
        Some(s) => {
            remove_lines(db, &LineOwner::Session(s.id.clone()));
            remove_sessions_with_id(db, &s.id);
        },
        None => {},
    }
    session
}

} // verus!
