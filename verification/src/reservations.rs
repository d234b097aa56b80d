//! Reservations: services scheduled for a later time, and their status.

use crate::error::Error;
use crate::lines::{
    append_lines, has_room_for, LineOwner, lines_attached_to, lines_of, Owner, remove_lines,
};
use crate::models::{
    CreateReservationRequest, CreateReservationRequestView, option_view, Reservation,
    ReservationQuery, ReservationQueryView, ReservationStatus, ReservationView,
    SelectedServiceView, UpdateReservationRequest, UpdateReservationRequestView, view_all,
};
use crate::schema::{Database, DatabaseView, ReservationRow, ReservationRowView};
use crate::sorting::{rank, sort_ranked, sorted_by};
use crate::table::{
    first_match, lemma_first_match, lemma_first_match_is, live_position_of, live_with_id,
    position_of, with_id,
};
use crate::text::{same_text, text_at_most, text_le};
use crate::time::Timestamp;
use crate::wellformed::{
    lemma_with_reservation_changed_wf, lemma_with_reservation_status_wf,
    lemma_with_reservation_wf, lemma_without_reservation_wf,
};
use vstd::prelude::*;

verus! {

/// The reservation that `row` and its line items among `services` make up.
pub open spec fn reservation_of(row: ReservationRowView, services: Seq<SelectedServiceView>) -> ReservationView {
    ReservationView {
        id: row.id,
        member_id: row.member_id,
        member_name: row.member_name,
        member_phone: row.member_phone,
        seat_id: row.seat_id,
        staff_id: row.staff_id,
        staff_name: row.staff_name,
        services: lines_of(services, Owner::Reservation(row.id)),
        total_price: row.total_price,
        reserved_at: row.reserved_at,
        estimated_duration: row.estimated_duration,
        status: row.status,
        created_at: row.created_at,
        updated_at: row.updated_at,
    }
}

/// Joins a reservation row with its line items among `services`.
pub open spec fn reservation_joined_with(services: Seq<SelectedServiceView>) -> spec_fn(
    ReservationRowView,
) -> ReservationView {
    |row: ReservationRowView| reservation_of(row, services)
}

/// The row of the reservation that `request` asks for, made at `now` under
/// the identity `id`: scheduled, and not deleted.
pub open spec fn new_reservation_row(
    id: Seq<char>,
    now: Timestamp,
    request: CreateReservationRequestView,
) -> ReservationRowView {
    ReservationRowView {
        id,
        member_id: request.member_id,
        member_name: request.member_name,
        member_phone: request.member_phone,
        seat_id: request.seat_id,
        staff_id: request.staff_id,
        staff_name: request.staff_name,
        total_price: request.total_price,
        reserved_at: request.reserved_at,
        estimated_duration: request.estimated_duration,
        status: ReservationStatus::Scheduled,
        created_at: now,
        updated_at: now,
        deleted_at: None,
    }
}

/// `row` with the fields of `request`, changed at `now`. Identity, status
/// and time of creation stay.
pub open spec fn changed_reservation_row(
    row: ReservationRowView,
    now: Timestamp,
    request: UpdateReservationRequestView,
) -> ReservationRowView {
    ReservationRowView {
        member_id: request.member_id,
        member_name: request.member_name,
        member_phone: request.member_phone,
        seat_id: request.seat_id,
        staff_id: request.staff_id,
        staff_name: request.staff_name,
        total_price: request.total_price,
        reserved_at: request.reserved_at,
        estimated_duration: request.estimated_duration,
        updated_at: now,
        ..row
    }
}

impl ReservationQueryView {
    /// The day of `at` passes the query on the day `today`: it is the day
    /// asked for; or, with no day asked for, everything is asked for (`all`
    /// is the text `true`) or the day is `today` or later, days compared as
    /// `YYYY-MM-DD` texts.
    pub open spec fn selects_day(self, at: Timestamp, today: Timestamp) -> bool {
        match self.date {
            Some(day) => at.date_text() == Some(day),
            None => self.all == Some("true"@) || (at.date_text() matches Some(day)
                && today.date_text() matches Some(first) && text_le(first, day)),
        }
    }

    /// The row is live and passes the query's conditions on the status and
    /// on the day.
    pub open spec fn selects(self, row: ReservationRowView, today: Timestamp) -> bool {
        &&& row.deleted_at is None
        &&& match self.status {
            Some(status) => row.status.text() == status,
            None => true,
        }
        &&& self.selects_day(row.reserved_at, today)
    }
}

/// Reservation rows that pass `query` on the day `today`.
pub open spec fn listed_by(query: ReservationQueryView, today: Timestamp) -> spec_fn(
    ReservationRowView,
) -> bool {
    |row: ReservationRowView| query.selects(row, today)
}

impl DatabaseView {
    /// The live reservation with the identity `id`, with its line items.
    pub open spec fn reservation(self, id: Seq<char>) -> Option<ReservationView> {
        match first_match(self.reservations, live_with_id::<ReservationRow>(id)) {
            Some(i) => Some(reservation_of(self.reservations[i], self.services)),
            None => None,
        }
    }

    /// Why a reservation cannot be added under the identity `id` with
    /// `lines` line items, if it cannot: the identity is taken, or the
    /// numbers for its line items have run out.
    pub open spec fn reservation_refusal(self, id: Seq<char>, lines: nat) -> Option<Error> {
        if first_match(self.reservations, with_id::<ReservationRow>(id)) is Some
            || !self.has_room_for(lines) {
            Some(Error::Storage)
        } else {
            None
        }
    }

    /// The store after the reservation that `request` asks for was added
    /// under the identity `id` at `now`.
    pub open spec fn with_reservation(
        self,
        id: Seq<char>,
        now: Timestamp,
        request: CreateReservationRequestView,
    ) -> DatabaseView {
        DatabaseView {
            reservations: self.reservations.push(new_reservation_row(id, now, request)),
            ..self
        }.with_lines(Owner::Reservation(id), request.services)
    }

    /// Why the reservation `id` cannot be given `lines` new line items, if
    /// it cannot: no live reservation has the identity, or the numbers for
    /// the line items have run out.
    pub open spec fn reservation_change_refusal(self, id: Seq<char>, lines: nat) -> Option<Error> {
        if first_match(self.reservations, live_with_id::<ReservationRow>(id)) is None {
            Some(Error::NotFound)
        } else if !self.has_room_for(lines) {
            Some(Error::Storage)
        } else {
            None
        }
    }

    /// The store after the live reservation `id` was given the fields of
    /// `request` at `now`, its line items replaced by those of the request.
    pub open spec fn with_reservation_changed(
        self,
        id: Seq<char>,
        now: Timestamp,
        request: UpdateReservationRequestView,
    ) -> DatabaseView {
        match first_match(self.reservations, live_with_id::<ReservationRow>(id)) {
            Some(i) => DatabaseView {
                reservations: self.reservations.update(
                    i,
                    changed_reservation_row(self.reservations[i], now, request),
                ),
                ..self
            }.without_lines(Owner::Reservation(id)).with_lines(
                Owner::Reservation(id),
                request.services,
            ),
            None => self,
        }
    }

    /// The store after the live reservation `id` was given the status
    /// `status` at `now`; the same store if there is no such reservation.
    pub open spec fn with_reservation_status(
        self,
        id: Seq<char>,
        status: ReservationStatus,
        now: Timestamp,
    ) -> DatabaseView {
        match first_match(self.reservations, live_with_id::<ReservationRow>(id)) {
            Some(i) => DatabaseView {
                reservations: self.reservations.update(
                    i,
                    ReservationRowView { status: status, updated_at: now, ..self.reservations[i] },
                ),
                ..self
            },
            None => self,
        }
    }

    /// The store after the line items of the reservation `id` were removed
    /// and the reservation row with that identity, deleted before or not,
    /// was marked as deleted at `now`.
    pub open spec fn without_reservation(self, id: Seq<char>, now: Timestamp) -> DatabaseView {
        let cleared = self.without_lines(Owner::Reservation(id));
        match first_match(self.reservations, with_id::<ReservationRow>(id)) {
            Some(i) => DatabaseView {
                reservations: self.reservations.update(
                    i,
                    ReservationRowView { deleted_at: Some(now), ..self.reservations[i] },
                ),
                ..cleared
            },
            None => cleared,
        }
    }

    /// The reservations that pass `query` on the day `today`, each with its
    /// line items, the earliest appointment first; appointments at the same
    /// time in table order.
    pub open spec fn reservations_listed(self, query: ReservationQueryView, today: Timestamp) -> Seq<
        ReservationView,
    > {
        sorted_by(
            self.reservations.filter(listed_by(query, today)).map_values(
                reservation_joined_with(self.services),
            ),
            rank::<Reservation>(),
        )
    }
}

fn joined_reservation(db: &Database, row: &ReservationRow) -> (r: Reservation)
    ensures
        r@ == reservation_of(row@, db@.services),
{
    Reservation {
        id: row.id.clone(),
        member_id: row.member_id.clone(),
        member_name: row.member_name.clone(),
        member_phone: row.member_phone.clone(),
        seat_id: row.seat_id,
        staff_id: row.staff_id.clone(),
        staff_name: row.staff_name.clone(),
        services: lines_attached_to(db, &LineOwner::Reservation(row.id.clone())),
        total_price: row.total_price,
        reserved_at: row.reserved_at,
        estimated_duration: row.estimated_duration,
        status: row.status,
        created_at: row.created_at,
        updated_at: row.updated_at,
    }
}

/// The live reservation with the identity `id`, with its line items.
pub fn get_reservation_by_id(db: &Database, id: &str) -> (r: Option<Reservation>)
    ensures
        option_view(r) == db@.reservation(id@),
{
    let key = id.to_owned();
    match live_position_of(&db.reservations, &key) {
        Some(i) => Some(joined_reservation(db, &db.reservations[i])),
        None => None,
    }
}

/// Adds the reservation that `request` asks for under the identity `id` at
/// `now`, with the status `Scheduled`.
///
/// `Storage` comes back, and the store is left as it was, when the identity
/// is taken or the line items cannot be numbered.
pub fn create_reservation(
    db: &mut Database,
    id: &str,
    now: Timestamp,
    request: &CreateReservationRequest,
) -> (r: Result<Reservation, Error>)
    ensures
        match r {
            Ok(reservation) => {
                &&& old(db)@.reservation_refusal(id@, request@.services.len()) is None
                &&& final(db)@ == old(db)@.with_reservation(id@, now, request@)
                &&& reservation@ == reservation_of(
                    new_reservation_row(id@, now, request@),
                    final(db)@.services,
                )
            },
            Err(e) => {
                &&& old(db)@.reservation_refusal(id@, request@.services.len()) == Some(e)
                &&& final(db)@ == old(db)@
            },
        },
        old(db)@.wf() ==> final(db)@.wf(),
{
    proof {
        if db@.wf() && db@.reservation_refusal(id@, request@.services.len()) is None {
            lemma_with_reservation_wf(db@, id@, now, request@);
        }
    }
    let key = id.to_owned();
    assert(view_all(request.services@).len() == request.services@.len());
    if position_of(&db.reservations, &key).is_some() || !has_room_for(
        db,
        request.services.len(),
    ) {
        return Err(Error::Storage);
    }
    let row = ReservationRow {
        id: key.clone(),
        member_id: request.member_id.clone(),
        member_name: request.member_name.clone(),
        member_phone: request.member_phone.clone(),
        seat_id: request.seat_id,
        staff_id: request.staff_id.clone(),
        staff_name: request.staff_name.clone(),
        total_price: request.total_price,
        reserved_at: request.reserved_at,
        estimated_duration: request.estimated_duration,
        status: ReservationStatus::Scheduled,
        created_at: now,
        updated_at: now,
        deleted_at: None,
    };
    let ghost before = db@.reservations;
    db.reservations.push(row.clone());
    assert(db@.reservations =~= before.push(row@));
    append_lines(db, &LineOwner::Reservation(key), request.services.as_slice());
    Ok(joined_reservation(db, &row))
}

/// Gives the live reservation `id` the fields of `request` at `now`, and
/// replaces its line items by those of the request.
///
/// `NotFound` comes back when no live reservation has the identity,
/// `Storage` when the line items cannot be numbered; either way the store
/// is left as it was.
pub fn update_reservation(
    db: &mut Database,
    now: Timestamp,
    id: &str,
    request: &UpdateReservationRequest,
) -> (r: Result<Reservation, Error>)
    ensures
        match r {
            Ok(reservation) => {
                &&& old(db)@.reservation_change_refusal(id@, request@.services.len()) is None
                &&& final(db)@ == old(db)@.with_reservation_changed(id@, now, request@)
                &&& Some(reservation@) == final(db)@.reservation(id@)
                &&& reservation@.updated_at == now
            },
            Err(e) => {
                &&& old(db)@.reservation_change_refusal(id@, request@.services.len()) == Some(e)
                &&& final(db)@ == old(db)@
            },
        },
        old(db)@.wf() ==> final(db)@.wf(),
{
    proof {
        if db@.wf() && db@.reservation_change_refusal(id@, request@.services.len()) is None {
            lemma_with_reservation_changed_wf(db@, id@, now, request@);
        }
    }
    let key = id.to_owned();
    assert(view_all(request.services@).len() == request.services@.len());
    let i = match live_position_of(&db.reservations, &key) {
        Some(i) => i,
        None => {
            return Err(Error::NotFound);
        },
    };
    if !has_room_for(db, request.services.len()) {
        return Err(Error::Storage);
    }
    let ghost before = db@.reservations;
    let row = &db.reservations[i];
    let changed = ReservationRow {
        id: row.id.clone(),
        member_id: request.member_id.clone(),
        member_name: request.member_name.clone(),
        member_phone: request.member_phone.clone(),
        seat_id: request.seat_id,
        staff_id: request.staff_id.clone(),
        staff_name: request.staff_name.clone(),
        total_price: request.total_price,
        reserved_at: request.reserved_at,
        estimated_duration: request.estimated_duration,
        status: row.status,
        created_at: row.created_at,
        updated_at: now,
        deleted_at: row.deleted_at,
    };
    let ghost changed_view = changed@;
    db.reservations.set(i, changed);
    assert(db@.reservations =~= before.update(i as int, changed_view));
    proof {
        lemma_first_match(before, live_with_id::<ReservationRow>(id@));
        assert forall|j: int| 0 <= j < i implies !live_with_id::<ReservationRow>(id@)(
            #[trigger] db@.reservations[j],
        ) by {
            assert(db@.reservations[j] == before[j]);
        }
        lemma_first_match_is(
            db@.reservations,
            live_with_id::<ReservationRow>(id@),
            i as int,
        );
    }
    let owner = LineOwner::Reservation(key);
    remove_lines(db, &owner);
    append_lines(db, &owner, request.services.as_slice());
    Ok(joined_reservation(db, &db.reservations[i]))
}

/// Gives the live reservation `id` the status `status` at `now`, whatever
/// its status was.
///
/// `NotFound` comes back, and the store is left as it was, when no live
/// reservation has the identity.
pub fn update_reservation_status(db: &mut Database, now: Timestamp, id: &str, status: ReservationStatus) -> (r:
    Result<Reservation, Error>)
    ensures
        final(db)@ == old(db)@.with_reservation_status(id@, status, now),
        match r {
            Ok(reservation) => {
                &&& old(db)@.reservation(id@) is Some
                &&& Some(reservation@) == final(db)@.reservation(id@)
                &&& reservation@.status == status
                &&& reservation@.updated_at == now
            },
            Err(e) => e == Error::NotFound && old(db)@.reservation(id@) is None,
        },
        old(db)@.wf() ==> final(db)@.wf(),
{
    proof {
        if db@.wf() {
            lemma_with_reservation_status_wf(db@, id@, status, now);
        }
    }
    let key = id.to_owned();
    let i = match live_position_of(&db.reservations, &key) {
        Some(i) => i,
        None => {
            return Err(Error::NotFound);
        },
    };
    let ghost before = db@.reservations;
    let row = &db.reservations[i];
    let changed = ReservationRow {
        id: row.id.clone(),
        member_id: row.member_id.clone(),
        member_name: row.member_name.clone(),
        member_phone: row.member_phone.clone(),
        seat_id: row.seat_id,
        staff_id: row.staff_id.clone(),
        staff_name: row.staff_name.clone(),
        total_price: row.total_price,
        reserved_at: row.reserved_at,
        estimated_duration: row.estimated_duration,
        status,
        created_at: row.created_at,
        updated_at: now,
        deleted_at: row.deleted_at,
    };
    let ghost changed_view = changed@;
    db.reservations.set(i, changed);
    assert(db@.reservations =~= before.update(i as int, changed_view));
    proof {
        lemma_first_match(before, live_with_id::<ReservationRow>(id@));
        assert forall|j: int| 0 <= j < i implies !live_with_id::<ReservationRow>(id@)(
            #[trigger] db@.reservations[j],
        ) by {
            assert(db@.reservations[j] == before[j]);
        }
        lemma_first_match_is(
            db@.reservations,
            live_with_id::<ReservationRow>(id@),
            i as int,
        );
    }
    Ok(joined_reservation(db, &db.reservations[i]))
}

/// Removes the line items of the reservation `id` and marks the
/// reservation as deleted at `now`.
pub fn delete_reservation(db: &mut Database, now: Timestamp, id: &str)
    ensures
        final(db)@ == old(db)@.without_reservation(id@, now),
        old(db)@.wf() ==> final(db)@.wf(),
{
    proof {
        if db@.wf() {
            lemma_without_reservation_wf(db@, id@, now);
        }
    }
    let key = id.to_owned();
    remove_lines(db, &LineOwner::Reservation(key.clone()));
    match position_of(&db.reservations, &key) {
        Some(i) => {
            let ghost before = db@.reservations;
            let row = &db.reservations[i];
            let changed = ReservationRow {
                id: row.id.clone(),
                member_id: row.member_id.clone(),
                member_name: row.member_name.clone(),
                member_phone: row.member_phone.clone(),
                seat_id: row.seat_id,
                staff_id: row.staff_id.clone(),
                staff_name: row.staff_name.clone(),
                total_price: row.total_price,
                reserved_at: row.reserved_at,
                estimated_duration: row.estimated_duration,
                status: row.status,
                created_at: row.created_at,
                updated_at: row.updated_at,
                deleted_at: Some(now),
            };
            let ghost changed_view = changed@;
            db.reservations.set(i, changed);
            assert(db@.reservations =~= before.update(i as int, changed_view));
        },
        None => {},
    }
}

fn day_selected(query: &ReservationQuery, at: &Timestamp, today: &Timestamp) -> (b: bool)
    ensures
        b == query@.selects_day(*at, *today),
{
    match &query.date {
        Some(day) => match at.date_string() {
            Some(text) => text == *day,
            None => false,
        },
        None => {
            let everything = match &query.all {
                Some(all) => same_text(all.as_str(), "true"),
                None => false,
            };
            if everything {
                true
            } else {
                match (at.date_string(), today.date_string()) {
                    (Some(day), Some(first)) => text_at_most(first.as_str(), day.as_str()),
                    _ => false,
                }
            }
        },
    }
}

/// Whether `row` passes the conditions of `query` on the day `today`.
pub fn reservation_query_selects(query: &ReservationQuery, row: &ReservationRow, today: &Timestamp) -> (b:
    bool)
    ensures
        b == query@.selects(row@, *today),
{
    let status_ok = match &query.status {
        Some(status) => same_text(row.status.as_str(), status.as_str()),
        None => true,
    };
    row.deleted_at.is_none() && status_ok && day_selected(query, &row.reserved_at, today)
}

/// The reservations that pass `query` on the day `today`, each with its
/// line items, the earliest appointment first.
pub fn get_reservations(db: &Database, query: &ReservationQuery, today: &Timestamp) -> (r: Vec<
    Reservation,
>)
    ensures
        view_all(r@) == db@.reservations_listed(query@, *today),
{
    let mut out: Vec<Reservation> = Vec::new();
    let mut i: usize = 0;
    let ghost table = db@.reservations;
    let ghost pick = listed_by(query@, *today);
    let ghost join = reservation_joined_with(db@.services);
    assert(table.take(0).filter(pick).map_values(join) =~= Seq::empty()) by {
        reveal(Seq::filter);
    }
    while i < db.reservations.len()
        invariant
            i <= db.reservations.len(),
            table == db@.reservations,
            pick == listed_by(query@, *today),
            join == reservation_joined_with(db@.services),
            view_all(out@) == table.take(i as int).filter(pick).map_values(join),
        decreases db.reservations.len() - i,
    {
        let ghost before = view_all(out@);
        proof {
            assert(table.take(i + 1) =~= table.take(i as int).push(table[i as int]));
            broadcast use Seq::lemma_filter_push;
        }
        if reservation_query_selects(query, &db.reservations[i], today) {
            out.push(joined_reservation(db, &db.reservations[i]));
            assert(view_all(out@) =~= before.push(join(table[i as int])));
            assert(table.take(i + 1).filter(pick).map_values(join) =~= before.push(
                join(table[i as int]),
            ));
        }
        i = i + 1;
    }
    assert(table.take(i as int) =~= table);
    sort_ranked(out)
}

} // verus!
