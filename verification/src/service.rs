//! The life of a service on a seat: started, then completed or cancelled.
//!
//! A seat is empty or holds exactly one session. Starting a service puts a
//! session on an empty seat; completing it records the session in the
//! ledger, awards a stamp and frees the seat; cancelling it frees the seat
//! without a record. A reservation linked to the session follows along.

use crate::error::Error;
use crate::ids::fresh_id;
use crate::laws::{
    law_cancel_service_keeps_wf, law_cancelled_service_frees_seat,
    law_complete_service_keeps_wf, law_completed_service_frees_seat, law_start_service_keeps_wf,
};
use crate::ledger::{create_ledger_entry, ledger_entry_of, new_ledger_row};
use crate::members::add_stamp;
use crate::models::{
    LedgerEntry, LedgerEntryView, ReservationStatus, result_view, Seat, SeatStatus, SeatView,
    StartServiceRequest, StartServiceRequestView,
};
use crate::reservations::update_reservation_status;
use crate::schema::{Database, DatabaseView, SessionRowView};
use crate::seats::{get_seat_by_id, live_seat, update_seat_status};
use crate::sessions::{create_session, delete_session, get_session_by_seat_id, new_session_row};
use crate::table::lemma_first_match;
use crate::time::{now, Timestamp};
use vstd::prelude::*;

verus! {

/// The seat `seat_id` stands free in `after`, as it stood in `before` but
/// for that: no session is on it, and if its row is live, asking for it
/// shows it available and without a session.
pub open spec fn seat_freed(before: DatabaseView, after: DatabaseView, seat_id: i32) -> bool {
    &&& after.session_on_seat(seat_id) is None
    &&& before.seat(seat_id) is Some <==> after.seat(seat_id) is Some
    &&& after.seat(seat_id) matches Some(seat) ==> seat.id == seat_id && seat.status
        == SeatStatus::Available && seat.current_session is None
}

/// The session row that `request` asks for on the seat `seat_id`.
pub open spec fn requested_session(
    session_id: Seq<char>,
    now: Timestamp,
    seat_id: i32,
    request: StartServiceRequestView,
) -> SessionRowView {
    new_session_row(
        session_id,
        now,
        seat_id,
        request.member_id,
        request.member_name,
        request.staff_id,
        request.staff_name,
        request.total_price,
        request.reservation_id,
    )
}

impl DatabaseView {
    /// The store with the reservation `id`, if one is named, given the
    /// status `status` at `now`. A reservation that is not there is passed
    /// over.
    pub open spec fn with_linked_reservation(
        self,
        id: Option<Seq<char>>,
        status: ReservationStatus,
        now: Timestamp,
    ) -> DatabaseView {
        match id {
            Some(id) => self.with_reservation_status(id, status, now),
            None => self,
        }
    }

    /// The store with one more stamp for the member `id`, if one is named.
    /// A member who is not there, or whose counter is full, is passed over.
    pub open spec fn with_linked_stamp(self, id: Option<Seq<char>>, now: Timestamp) -> DatabaseView {
        match id {
            Some(id) => self.with_stamp(id, now),
            None => self,
        }
    }

    /// Starting a service on the seat `seat_id` at `now`, the new session
    /// under the identity `session_id`: the store that results, and what
    /// is reported.
    ///
    /// The seat must be live (`NotFound`), must not be in use and must hold
    /// no session (`Conflict`), and the session must be storable
    /// (`Storage`); a refusal leaves the store as it was. Otherwise the
    /// session is added with its line items, the seat is put in use, a
    /// reservation named by the request is put in progress, and the seat is
    /// reported as it then stands.
    pub open spec fn after_start_service(
        self,
        seat_id: i32,
        request: StartServiceRequestView,
        session_id: Seq<char>,
        now: Timestamp,
    ) -> (DatabaseView, Result<SeatView, Error>) {
        match self.seat(seat_id) {
            None => (self, Err(Error::NotFound)),
            Some(seat) => if seat.status != SeatStatus::Available && seat.status
                != SeatStatus::Reserved {
                (self, Err(Error::Conflict))
            } else {
                let row = requested_session(session_id, now, seat_id, request);
                match self.session_refusal(row, request.services) {
                    Some(e) => (self, Err(e)),
                    None => {
                        let started = self.with_session(row, request.services).with_seat_status(
                            seat_id,
                            SeatStatus::InUse,
                            now,
                        ).with_linked_reservation(
                            request.reservation_id,
                            ReservationStatus::InProgress,
                            now,
                        );
                        match started.seat(seat_id) {
                            Some(seat) => (started, Ok(seat)),
                            None => (started, Err(Error::NotFound)),
                        }
                    },
                }
            },
        }
    }

    /// Completing the service on the seat `seat_id` at `now`, the ledger
    /// entry under the identity `ledger_id`: the store that results, and
    /// what is reported.
    ///
    /// The seat must hold a session (`NotFound`) and the entry must be
    /// storable (`Storage`); a refusal leaves the store as it was.
    /// Otherwise the session is recorded in the ledger with its line items,
    /// its member gets a stamp, its reservation is completed, the session
    /// is removed and the seat is made available. The entry is reported.
    pub open spec fn after_complete_service(self, seat_id: i32, ledger_id: Seq<char>, now: Timestamp) -> (
        DatabaseView,
        Result<LedgerEntryView, Error>,
    ) {
        match self.session_on_seat(seat_id) {
            None => (self, Err(Error::NotFound)),
            Some(session) => match self.ledger_refusal(ledger_id, session) {
                Some(e) => (self, Err(e)),
                None => {
                    let recorded = self.with_ledger_entry(ledger_id, now, session);
                    let entry = ledger_entry_of(
                        new_ledger_row(ledger_id, now, session),
                        recorded.services,
                    );
                    let settled = recorded.with_linked_stamp(session.member_id, now)
                        .with_linked_reservation(
                        session.reservation_id,
                        ReservationStatus::Completed,
                        now,
                    );
                    (
                        settled.without_session_on(seat_id).with_seat_status(
                            seat_id,
                            SeatStatus::Available,
                            now,
                        ),
                        Ok(entry),
                    )
                },
            },
        }
    }

    /// Cancelling the service on the seat `seat_id` at `now`: the store
    /// that results, and what is reported.
    ///
    /// The seat must hold a session (`NotFound`, the store as it was).
    /// Otherwise its reservation is scheduled again, the session is removed
    /// and the seat is made available.
    pub open spec fn after_cancel_service(self, seat_id: i32, now: Timestamp) -> (
        DatabaseView,
        Result<(), Error>,
    ) {
        match self.session_on_seat(seat_id) {
            None => (self, Err(Error::NotFound)),
            Some(session) => (
                self.with_linked_reservation(
                    session.reservation_id,
                    ReservationStatus::Scheduled,
                    now,
                ).without_session_on(seat_id).with_seat_status(seat_id, SeatStatus::Available, now),
                Ok(()),
            ),
        }
    }
}

/// Starts a service on the seat `seat_id` at `now`, the new session under
/// the identity `session_id`; see [`DatabaseView::after_start_service`].
pub fn start_service_at(
    db: &mut Database,
    session_id: &str,
    now: Timestamp,
    seat_id: i32,
    request: &StartServiceRequest,
) -> (r: Result<Seat, Error>)
    ensures
        (final(db)@, result_view(r)) == old(db)@.after_start_service(
            seat_id,
            request@,
            session_id@,
            now,
        ),
        old(db)@.wf() ==> final(db)@.wf(),
{
    proof {
        if db@.wf() {
            law_start_service_keeps_wf(db@, seat_id, request@, session_id@, now);
        }
    }
    let seat = match get_seat_by_id(db, seat_id) {
        Some(seat) => seat,
        None => {
            return Err(Error::NotFound);
        },
    };
    if seat.status != SeatStatus::Available && seat.status != SeatStatus::Reserved {
        return Err(Error::Conflict);
    }
    let member_id = match &request.member_id {
        Some(id) => Some(id.as_str()),
        None => None,
    };
    let reservation_id = match &request.reservation_id {
        Some(id) => Some(id.as_str()),
        None => None,
    };
    match create_session(
        db,
        session_id,
        now,
        seat_id,
        member_id,
        request.member_name.as_str(),
        request.staff_id.as_str(),
        request.staff_name.as_str(),
        request.services.as_slice(),
        request.total_price,
        reservation_id,
    ) {
        Ok(_) => {},
        Err(e) => {
            return Err(e);
        },
    }
    update_seat_status(db, now, seat_id, SeatStatus::InUse);
    match &request.reservation_id {
        Some(id) => {
            let _ = update_reservation_status(db, now, id.as_str(), ReservationStatus::InProgress);
        },
        None => {},
    }
    match get_seat_by_id(db, seat_id) {
        Some(seat) => Ok(seat),
        None => Err(Error::NotFound),
    }
}

/// Completes the service on the seat `seat_id` at `now`, the ledger entry
/// under the identity `ledger_id`; see
/// [`DatabaseView::after_complete_service`].
pub fn complete_service_at(db: &mut Database, ledger_id: &str, now: Timestamp, seat_id: i32) -> (r: Result<
    LedgerEntry,
    Error,
>)
    ensures
        (final(db)@, result_view(r)) == old(db)@.after_complete_service(seat_id, ledger_id@, now),
        old(db)@.wf() ==> final(db)@.wf(),
        old(db)@.wf() && r is Ok ==> seat_freed(old(db)@, final(db)@, seat_id),
{
    proof {
        if db@.wf() {
            law_complete_service_keeps_wf(db@, seat_id, ledger_id@, now);
            if db@.after_complete_service(seat_id, ledger_id@, now).1 is Ok {
                law_completed_service_frees_seat(db@, seat_id, ledger_id@, now);
                lemma_first_match(db@.seats, live_seat(seat_id));
            }
        }
    }
    let session = match get_session_by_seat_id(db, seat_id) {
        Some(session) => session,
        None => {
            return Err(Error::NotFound);
        },
    };
    let entry = match create_ledger_entry(db, ledger_id, now, &session) {
        Ok(entry) => entry,
        Err(e) => {
            return Err(e);
        },
    };
    match &session.member_id {
        Some(id) => {
            let _ = add_stamp(db, now, id.as_str());
        },
        None => {},
    }
    match &session.reservation_id {
        Some(id) => {
            let _ = update_reservation_status(db, now, id.as_str(), ReservationStatus::Completed);
        },
        None => {},
    }
    let _ = delete_session(db, seat_id);
    update_seat_status(db, now, seat_id, SeatStatus::Available);
    Ok(entry)
}

/// Cancels the service on the seat `seat_id` at `now`; see
/// [`DatabaseView::after_cancel_service`].
pub fn cancel_service_at(db: &mut Database, now: Timestamp, seat_id: i32) -> (r: Result<(), Error>)
    ensures
        (final(db)@, r) == old(db)@.after_cancel_service(seat_id, now),
        old(db)@.wf() ==> final(db)@.wf(),
        old(db)@.wf() && r is Ok ==> seat_freed(old(db)@, final(db)@, seat_id),
{
    proof {
        if db@.wf() {
            law_cancel_service_keeps_wf(db@, seat_id, now);
            if db@.after_cancel_service(seat_id, now).1 is Ok {
                law_cancelled_service_frees_seat(db@, seat_id, now);
                lemma_first_match(db@.seats, live_seat(seat_id));
            }
        }
    }
    let session = match get_session_by_seat_id(db, seat_id) {
        Some(session) => session,
        None => {
            return Err(Error::NotFound);
        },
    };
    match &session.reservation_id {
        Some(id) => {
            let _ = update_reservation_status(db, now, id.as_str(), ReservationStatus::Scheduled);
        },
        None => {},
    }
    let _ = delete_session(db, seat_id);
    update_seat_status(db, now, seat_id, SeatStatus::Available);
    Ok(())
}

/// Starts a service on the seat `id` now, under a fresh identity.
///
/// What happens is what [`DatabaseView::after_start_service`] says for the
/// identity and the time that were drawn.
pub fn start_service(db: &mut Database, id: i32, request: StartServiceRequest) -> (r: Result<Seat, Error>)
    ensures
        exists|session_id: Seq<char>, now: Timestamp|
            (final(db)@, result_view(r)) == #[trigger] old(db)@.after_start_service(
                id,
                request@,
                session_id,
                now,
            ),
        old(db)@.wf() ==> final(db)@.wf(),
{
    let session_id = fresh_id();
    let at = now();
    start_service_at(db, session_id.as_str(), at, id, &request)
}

/// Completes the service on the seat `id` now, the ledger entry under a
/// fresh identity.
///
/// What happens is what [`DatabaseView::after_complete_service`] says for
/// the identity and the time that were drawn. In a well-formed store a
/// completion that goes through leaves the seat free.
pub fn complete_service(db: &mut Database, id: i32) -> (r: Result<LedgerEntry, Error>)
    ensures
        exists|ledger_id: Seq<char>, now: Timestamp|
            (final(db)@, result_view(r)) == #[trigger] old(db)@.after_complete_service(
                id,
                ledger_id,
                now,
            ),
        old(db)@.wf() ==> final(db)@.wf(),
        old(db)@.wf() && r is Ok ==> seat_freed(old(db)@, final(db)@, id),
        old(db)@.session_on_seat(id) is None ==> r == Err::<LedgerEntry, Error>(Error::NotFound)
            && final(db)@ == old(db)@,
{
    let ledger_id = fresh_id();
    let at = now();
    complete_service_at(db, ledger_id.as_str(), at, id)
}

/// Cancels the service on the seat `id` now.
///
/// What happens is what [`DatabaseView::after_cancel_service`] says for
/// the time that was read.
pub fn cancel_service(db: &mut Database, id: i32) -> (r: Result<(), Error>)
    ensures
        exists|now: Timestamp| (final(db)@, r) == #[trigger] old(db)@.after_cancel_service(id, now),
        old(db)@.wf() ==> final(db)@.wf(),
        old(db)@.wf() && r is Ok ==> seat_freed(old(db)@, final(db)@, id),
        r is Ok <==> old(db)@.session_on_seat(id) is Some,
{
    let at = now();
    cancel_service_at(db, at, id)
}

} // verus!
