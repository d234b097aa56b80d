//! Laws of the store that relate several of its operations.

use crate::error::Error;
use crate::ledger::{
    ledger_joined_with, line_inputs, new_ledger_row, row_revenue, selected_by, staff_sales,
    total_revenue,
};
use crate::lines::{attached_to, lines_of, new_lines, not_attached_to, Owner};
use crate::members::{found_by, member_in_row};
use crate::models::{
    CreateReservationRequestView, LedgerEntry, LedgerEntryView, LedgerQueryView, Member,
    MemberView, Reservation, ReservationQueryView, ReservationStatus, Seat, SeatStatus,
    SeatView, SelectedServiceView, Staff, StartServiceRequestView,
};
use crate::reservations::{listed_by, new_reservation_row, reservation_joined_with};
use crate::schema::{
    DatabaseView, LedgerRowView, MemberRow, MemberRowView, ReservationRow, ReservationRowView,
    SeatRowView, SessionRow, StaffRow,
};
use crate::seats::{live_seat, live_seats, seat_joined_in, seat_numbered};
use crate::service::requested_session;
use crate::sessions::{on_seat, session_other_than};
use crate::sorting::{
    insert_sorted, lemma_sorted_by_in_order, lemma_sorted_by_permutes, lemma_sorted_by_places,
    rank, sorted_by, strict_weak_order,
};
use crate::staff::staff_in_row;
use crate::table::{
    first_match, lemma_first_match, lemma_first_match_is, lemma_push_is_found,
    lemma_update_keeps_position, live_rows, live_with_id, Row,
};
use crate::time::Timestamp;
use crate::wellformed::{
    lemma_filter_positions, lemma_with_ledger_entry_wf, lemma_with_reservation_status_wf,
    lemma_with_seat_status_wf, lemma_with_session_wf, lemma_with_stamp_wf,
    lemma_without_session_wf,
};
use vstd::prelude::*;

verus! {

/// In a well-formed store at most one session is in progress on any seat.
pub proof fn law_at_most_one_session(db: DatabaseView, seat_id: i32)
    requires
        db.wf(),
    ensures
        db.sessions.filter(on_seat(seat_id)).len() <= 1,
{
    let at = lemma_filter_positions(db.sessions, on_seat(seat_id));
    if at.len() >= 2 {
        assert(at[0] < at[1]);
        assert(db.sessions[at[0]].seat_id != db.sessions[at[1]].seat_id);
    }
}

/// Starting a service keeps the store well formed, whether it goes through
/// or not.
pub proof fn law_start_service_keeps_wf(
    db: DatabaseView,
    seat_id: i32,
    request: StartServiceRequestView,
    session_id: Seq<char>,
    now: Timestamp,
)
    requires
        db.wf(),
    ensures
        db.after_start_service(seat_id, request, session_id, now).0.wf(),
{
    let row = requested_session(session_id, now, seat_id, request);
    if db.seat(seat_id) is Some && db.session_refusal(row, request.services) is None {
        let added = db.with_session(row, request.services);
        lemma_with_session_wf(db, row, request.services);
        let used = added.with_seat_status(seat_id, SeatStatus::InUse, now);
        lemma_with_seat_status_wf(added, seat_id, SeatStatus::InUse, now);
        match request.reservation_id {
            Some(id) => {
                lemma_with_reservation_status_wf(used, id, ReservationStatus::InProgress, now);
            },
            None => {},
        }
    }
}

/// Completing a service keeps the store well formed, whether it goes
/// through or not.
pub proof fn law_complete_service_keeps_wf(db: DatabaseView, seat_id: i32, ledger_id: Seq<char>, now: Timestamp)
    requires
        db.wf(),
    ensures
        db.after_complete_service(seat_id, ledger_id, now).0.wf(),
{
    match db.session_on_seat(seat_id) {
        Some(session) => {
            if db.ledger_refusal(ledger_id, session) is None {
                let recorded = db.with_ledger_entry(ledger_id, now, session);
                lemma_with_ledger_entry_wf(db, ledger_id, now, session);
                let stamped = recorded.with_linked_stamp(session.member_id, now);
                match session.member_id {
                    Some(id) => {
                        lemma_with_stamp_wf(recorded, id, now);
                    },
                    None => {},
                }
                let settled = stamped.with_linked_reservation(
                    session.reservation_id,
                    ReservationStatus::Completed,
                    now,
                );
                match session.reservation_id {
                    Some(id) => {
                        lemma_with_reservation_status_wf(
                            stamped,
                            id,
                            ReservationStatus::Completed,
                            now,
                        );
                    },
                    None => {},
                }
                lemma_without_session_wf(settled, seat_id);
                lemma_with_seat_status_wf(
                    settled.without_session_on(seat_id),
                    seat_id,
                    SeatStatus::Available,
                    now,
                );
            }
        },
        None => {},
    }
}

/// Cancelling a service keeps the store well formed, whether it goes
/// through or not.
pub proof fn law_cancel_service_keeps_wf(db: DatabaseView, seat_id: i32, now: Timestamp)
    requires
        db.wf(),
    ensures
        db.after_cancel_service(seat_id, now).0.wf(),
{
    match db.session_on_seat(seat_id) {
        Some(session) => {
            let synced = db.with_linked_reservation(
                session.reservation_id,
                ReservationStatus::Scheduled,
                now,
            );
            match session.reservation_id {
                Some(id) => {
                    lemma_with_reservation_status_wf(db, id, ReservationStatus::Scheduled, now);
                },
                None => {},
            }
            lemma_without_session_wf(synced, seat_id);
            lemma_with_seat_status_wf(
                synced.without_session_on(seat_id),
                seat_id,
                SeatStatus::Available,
                now,
            );
        },
        None => {},
    }
}

/// Starting a service on a seat that is in use is refused with `Conflict`,
/// whatever the request, and changes nothing: no second session is made.
pub proof fn law_start_on_seat_in_use_conflicts(
    db: DatabaseView,
    seat_id: i32,
    request: StartServiceRequestView,
    session_id: Seq<char>,
    now: Timestamp,
)
    requires
        db.seat(seat_id) matches Some(seat) && seat.status == SeatStatus::InUse,
    ensures
        db.after_start_service(seat_id, request, session_id, now) == (db, Err::<SeatView, Error>(Error::Conflict)),
{
}

/// Starting a service on a live seat that holds a session is refused with
/// `Conflict`, whatever the status of the seat, and changes nothing.
pub proof fn law_start_on_occupied_seat_conflicts(
    db: DatabaseView,
    seat_id: i32,
    request: StartServiceRequestView,
    session_id: Seq<char>,
    now: Timestamp,
)
    requires
        db.seat(seat_id) is Some,
        db.session_on_seat(seat_id) is Some,
    ensures
        db.after_start_service(seat_id, request, session_id, now) == (db, Err::<SeatView, Error>(Error::Conflict)),
{
}

/// A service that was started shows on its seat: the seat is in use and
/// holds the session that the request asked for, in a well-formed store.
pub proof fn law_started_service_shows(
    db: DatabaseView,
    seat_id: i32,
    request: StartServiceRequestView,
    session_id: Seq<char>,
    now: Timestamp,
)
    requires
        db.wf(),
        db.after_start_service(seat_id, request, session_id, now).1 is Ok,
    ensures
        ({
            let (after, shown) = db.after_start_service(seat_id, request, session_id, now);
            &&& shown matches Ok(seat)
            &&& after.seat(seat_id) == Some(seat)
            &&& seat.status == SeatStatus::InUse
            &&& seat.current_session matches Some(session)
            &&& session.id == session_id
            &&& session.seat_id == seat_id
            &&& session.staff_id == request.staff_id
            &&& session.member_id == request.member_id
            &&& session.total_price == request.total_price
            &&& session.reservation_id == request.reservation_id
        }),
{
    let row = requested_session(session_id, now, seat_id, request);
    let added = db.with_session(row, request.services);
    let used = added.with_seat_status(seat_id, SeatStatus::InUse, now);
    let after = used.with_linked_reservation(
        request.reservation_id,
        ReservationStatus::InProgress,
        now,
    );
    lemma_first_match(db.sessions, on_seat(seat_id));
    lemma_first_match(after.sessions, on_seat(seat_id));
    assert(after.sessions == db.sessions.push(row));
    assert(on_seat(seat_id)(after.sessions[db.sessions.len() as int]));
    assert(first_match(after.sessions, on_seat(seat_id)) == Some(db.sessions.len() as int)) by {
        let k = first_match(after.sessions, on_seat(seat_id)).unwrap();
        if k < db.sessions.len() {
            assert(after.sessions[k] == db.sessions[k]);
        }
    }
    lemma_seat_after_status(added, seat_id, SeatStatus::InUse, now);
    assert(after.seats == used.seats);
}

/// Where seat numbers are unique, the live seat shows the status it was
/// last given.
pub proof fn lemma_seat_after_status(db: DatabaseView, id: i32, status: SeatStatus, now: Timestamp)
    requires
        db.seats_numbered_once(),
    ensures
        first_match(db.with_seat_status(id, status, now).seats, live_seat(id)) == first_match(
            db.seats,
            live_seat(id),
        ),
        first_match(db.seats, live_seat(id)) matches Some(i) ==> 0 <= i < db.seats.len()
            && db.seats[i].id == id && db.with_seat_status(id, status, now).seats[i] == (
        SeatRowView { status: status, updated_at: now, ..db.seats[i] }),
        db.with_seat_status(id, status, now).sessions == db.sessions,
        db.with_seat_status(id, status, now).services == db.services,
{
    let after = db.with_seat_status(id, status, now);
    lemma_first_match(db.seats, seat_numbered(id));
    lemma_first_match(db.seats, live_seat(id));
    lemma_first_match(after.seats, live_seat(id));
    assert(after.seats.len() == db.seats.len());
    assert forall|k: int| 0 <= k < db.seats.len() implies live_seat(id)(#[trigger] after.seats[k])
        == live_seat(id)(db.seats[k]) by {}
    match first_match(db.seats, live_seat(id)) {
        Some(i) => {
            let first = first_match(db.seats, seat_numbered(id)).unwrap();
            assert(seat_numbered(id)(db.seats[i]));
            if first < i {
                assert(db.seats[first].id != db.seats[i].id);
            }
            assert(first == i);
            assert(live_seat(id)(after.seats[i]));
            let found = first_match(after.seats, live_seat(id)).unwrap();
            if found < i {
                assert(live_seat(id)(db.seats[found]));
            }
        },
        None => {
            if first_match(after.seats, live_seat(id)) is Some {
                let found = first_match(after.seats, live_seat(id)).unwrap();
                assert(live_seat(id)(db.seats[found]));
            }
        },
    }
}

/// Right after a service was completed its seat is available and holds no
/// session: asking for the seat shows the seat as it was, with that status
/// and without a session.
pub proof fn law_completed_service_frees_seat(db: DatabaseView, seat_id: i32, ledger_id: Seq<char>, now: Timestamp)
    requires
        db.wf(),
        db.after_complete_service(seat_id, ledger_id, now).1 is Ok,
    ensures
        ({
            let after = db.after_complete_service(seat_id, ledger_id, now).0;
            &&& after.session_on_seat(seat_id) is None
            &&& after.seat(seat_id) == match db.seat(seat_id) {
                Some(seat) => Some(
                    SeatView {
                        status: SeatStatus::Available,
                        current_session: None,
                        updated_at: now,
                        ..seat
                    },
                ),
                None => None,
            }
        }),
{
    law_complete_service_keeps_wf(db, seat_id, ledger_id, now);
    let session = db.session_on_seat(seat_id).unwrap();
    let recorded = db.with_ledger_entry(ledger_id, now, session);
    lemma_with_ledger_entry_wf(db, ledger_id, now, session);
    let stamped = recorded.with_linked_stamp(session.member_id, now);
    match session.member_id {
        Some(id) => {
            lemma_with_stamp_wf(recorded, id, now);
        },
        None => {},
    }
    let settled = stamped.with_linked_reservation(
        session.reservation_id,
        ReservationStatus::Completed,
        now,
    );
    match session.reservation_id {
        Some(id) => {
            lemma_with_reservation_status_wf(stamped, id, ReservationStatus::Completed, now);
        },
        None => {},
    }
    assert(settled.seats == db.seats);
    let freed = settled.without_session_on(seat_id);
    lemma_without_session_wf(settled, seat_id);
    assert(freed.seats == db.seats);
    lemma_seat_after_status(freed, seat_id, SeatStatus::Available, now);
    let after = freed.with_seat_status(seat_id, SeatStatus::Available, now);
    assert(after == db.after_complete_service(seat_id, ledger_id, now).0);
    assert(after.session_on_seat(seat_id) == freed.session_on_seat(seat_id));
}

/// Right after a service was cancelled its seat is available and holds no
/// session.
pub proof fn law_cancelled_service_frees_seat(db: DatabaseView, seat_id: i32, now: Timestamp)
    requires
        db.wf(),
        db.after_cancel_service(seat_id, now).1 is Ok,
    ensures
        ({
            let after = db.after_cancel_service(seat_id, now).0;
            &&& after.session_on_seat(seat_id) is None
            &&& after.seat(seat_id) == match db.seat(seat_id) {
                Some(seat) => Some(
                    SeatView {
                        status: SeatStatus::Available,
                        current_session: None,
                        updated_at: now,
                        ..seat
                    },
                ),
                None => None,
            }
        }),
{
    let session = db.session_on_seat(seat_id).unwrap();
    let synced = db.with_linked_reservation(
        session.reservation_id,
        ReservationStatus::Scheduled,
        now,
    );
    match session.reservation_id {
        Some(id) => {
            lemma_with_reservation_status_wf(db, id, ReservationStatus::Scheduled, now);
        },
        None => {},
    }
    assert(synced.seats == db.seats);
    let freed = synced.without_session_on(seat_id);
    lemma_without_session_wf(synced, seat_id);
    assert(freed.seats == db.seats);
    lemma_seat_after_status(freed, seat_id, SeatStatus::Available, now);
    let after = freed.with_seat_status(seat_id, SeatStatus::Available, now);
    assert(after == db.after_cancel_service(seat_id, now).0);
    assert(after.session_on_seat(seat_id) == freed.session_on_seat(seat_id));
}

/// A completed service is recorded once: the ledger has one more row, the
/// one the service's session made, and the entry that is reported carries
/// the session's price and people.
pub proof fn law_completed_service_is_recorded(db: DatabaseView, seat_id: i32, ledger_id: Seq<char>, now: Timestamp)
    requires
        db.after_complete_service(seat_id, ledger_id, now).1 is Ok,
    ensures
        ({
            let (after, reported) = db.after_complete_service(seat_id, ledger_id, now);
            &&& db.session_on_seat(seat_id) matches Some(session)
            &&& reported matches Ok(entry)
            &&& after.ledger == db.ledger.push(
                new_ledger_row(ledger_id, now, session),
            )
            &&& entry.id == ledger_id
            &&& entry.seat_id == session.seat_id
            &&& entry.total_price == session.total_price
            &&& entry.staff_id == session.staff_id
            &&& entry.member_id == session.member_id
            &&& entry.reservation_id == session.reservation_id
            &&& entry.completed_at == now
        }),
{
}

/// A filter that every element passes changes nothing.
pub proof fn lemma_filter_all<T>(s: Seq<T>, p: spec_fn(T) -> bool)
    requires
        forall|i: int| 0 <= i < s.len() ==> p(#[trigger] s[i]),
    ensures
        s.filter(p) == s,
    decreases s.len(),
{
    reveal(Seq::filter);
    if s.len() > 0 {
        assert forall|i: int| 0 <= i < s.drop_last().len() implies p(#[trigger] s.drop_last()[i]) by {
            assert(s.drop_last()[i] == s[i]);
        }
        lemma_filter_all(s.drop_last(), p);
        assert(s.drop_last().push(s.last()) =~= s);
    }
}

/// A filter that no element passes leaves nothing.
pub proof fn lemma_filter_none<T>(s: Seq<T>, p: spec_fn(T) -> bool)
    requires
        forall|i: int| 0 <= i < s.len() ==> !p(#[trigger] s[i]),
    ensures
        s.filter(p) == Seq::<T>::empty(),
    decreases s.len(),
{
    reveal(Seq::filter);
    if s.len() > 0 {
        assert forall|i: int| 0 <= i < s.drop_last().len() implies !p(#[trigger] s.drop_last()[i]) by {
            assert(s.drop_last()[i] == s[i]);
        }
        lemma_filter_none(s.drop_last(), p);
    }
}

/// A reservation that was created is found under its identity, scheduled,
/// with the member, the staff, the seat, the time and the line items that
/// the request named.
pub proof fn law_created_reservation_is_found(
    db: DatabaseView,
    id: Seq<char>,
    now: Timestamp,
    request: CreateReservationRequestView,
)
    requires
        db.wf(),
        db.reservation_refusal(id, request.services.len()) is None,
    ensures
        ({
            let after = db.with_reservation(id, now, request);
            &&& after.reservation(id) matches Some(found)
            &&& found.id == id
            &&& found.status == ReservationStatus::Scheduled
            &&& found.member_id == request.member_id
            &&& found.member_name == request.member_name
            &&& found.member_phone == request.member_phone
            &&& found.seat_id == request.seat_id
            &&& found.staff_id == request.staff_id
            &&& found.staff_name == request.staff_name
            &&& found.total_price == request.total_price
            &&& found.reserved_at == request.reserved_at
            &&& found.estimated_duration == request.estimated_duration
            &&& line_inputs(found.services) == request.services
        }),
{
    let after = db.with_reservation(id, now, request);
    let row = new_reservation_row(id, now, request);
    let owner = Owner::Reservation(id);
    lemma_push_is_found::<ReservationRow>(db.reservations, row);
    let added = new_lines(db.last_service_id, owner, request.services);
    assert forall|i: int| 0 <= i < db.services.len() implies !attached_to(owner)(
        #[trigger] db.services[i],
    ) by {
        if db.services[i].belongs_to(owner) {
            assert(db.has_owner(owner));
        }
    }
    lemma_filter_none(db.services, attached_to(owner));
    assert forall|i: int| 0 <= i < added.len() implies attached_to(owner)(
        #[trigger] added[i],
    ) by {}
    lemma_filter_all(added, attached_to(owner));
    Seq::filter_distributes_over_add(db.services, added, attached_to(owner));
    assert(lines_of(after.services, owner) =~= added);
    assert(line_inputs(added) =~= request.services);
}

/// One more entry adds its total price to the revenue.
pub proof fn lemma_revenue_push(entries: Seq<LedgerEntryView>, entry: LedgerEntryView)
    ensures
        total_revenue(entries.push(entry)) == total_revenue(entries) + entry.total_price,
{
    assert(staff_sales(entries.push(entry)).drop_last() =~= staff_sales(entries));
}

/// Putting an entry in at any place adds its total price to the revenue.
pub proof fn lemma_revenue_insert(entries: Seq<LedgerEntryView>, entry: LedgerEntryView)
    ensures
        total_revenue(insert_sorted(entries, entry, rank::<LedgerEntry>())) == total_revenue(
            entries,
        ) + entry.total_price,
    decreases entries.len(),
{
    let before = rank::<LedgerEntry>();
    if entries.len() == 0 {
        assert(seq![entry] =~= entries.push(entry));
        lemma_revenue_push(entries, entry);
    } else if before(entry, entries.last()) {
        lemma_revenue_insert(entries.drop_last(), entry);
        lemma_revenue_push(insert_sorted(entries.drop_last(), entry, before), entries.last());
        lemma_revenue_push(entries.drop_last(), entries.last());
        assert(entries.drop_last().push(entries.last()) =~= entries);
    } else {
        lemma_revenue_push(entries, entry);
    }
}

/// Listing entries in order does not change their revenue.
pub proof fn lemma_revenue_sorted(entries: Seq<LedgerEntryView>)
    ensures
        total_revenue(sorted_by(entries, rank::<LedgerEntry>())) == total_revenue(entries),
    decreases entries.len(),
{
    if entries.len() > 0 {
        lemma_revenue_sorted(entries.drop_last());
        lemma_revenue_insert(
            sorted_by(entries.drop_last(), rank::<LedgerEntry>()),
            entries.last(),
        );
        lemma_revenue_push(entries.drop_last(), entries.last());
        assert(entries.drop_last().push(entries.last()) =~= entries);
    }
}

/// The total revenue that a summary of the ledger reports for a query is
/// the sum of the total prices of exactly the ledger rows that pass the
/// query, and the number it reports is the number of those rows.
pub proof fn law_revenue_is_sum_of_selected(db: DatabaseView, query: LedgerQueryView)
    ensures
        total_revenue(db.ledger_entries(query)) == row_revenue(
            db.ledger.filter(selected_by(query)),
        ),
        db.ledger_entries(query).len() == db.ledger.filter(selected_by(query)).len(),
{
    let rows = db.ledger.filter(selected_by(query));
    let joined = rows.map_values(ledger_joined_with(db.services));
    lemma_revenue_sorted(joined);
    lemma_sorted_by_permutes(joined, rank::<LedgerEntry>());
    lemma_revenue_joined(rows, db);
}

/// Joining ledger rows with their line items does not change their
/// revenue.
pub proof fn lemma_revenue_joined(rows: Seq<LedgerRowView>, db: DatabaseView)
    ensures
        total_revenue(rows.map_values(ledger_joined_with(db.services))) == row_revenue(rows),
    decreases rows.len(),
{
    let join = ledger_joined_with(db.services);
    if rows.len() > 0 {
        lemma_revenue_joined(rows.drop_last(), db);
        assert(rows.map_values(join) =~= rows.drop_last().map_values(join).push(
            join(rows.last()),
        ));
        lemma_revenue_push(rows.drop_last().map_values(join), join(rows.last()));
    } else {
        assert(staff_sales(rows.map_values(join)) =~= Seq::empty());
    }
}

/// Listing by time is listing by a strict weak order, whichever way.
pub proof fn lemma_listing_orders()
    ensures
        strict_weak_order(rank::<LedgerEntry>()),
        strict_weak_order(rank::<Member>()),
        strict_weak_order(rank::<Staff>()),
        strict_weak_order(rank::<Reservation>()),
        strict_weak_order(rank::<Seat>()),
{
}

/// The ledger entries of a query are listed with no entry ahead of one
/// that was completed later.
pub proof fn law_ledger_entries_latest_first(db: DatabaseView, query: LedgerQueryView)
    ensures
        forall|i: int, j: int|
            0 <= i < j < db.ledger_entries(query).len() ==> !db.ledger_entries(
                query,
            )[i].completed_at.before(db.ledger_entries(query)[j].completed_at),
{
    lemma_listing_orders();
    lemma_sorted_by_in_order(
        db.ledger.filter(selected_by(query)).map_values(ledger_joined_with(db.services)),
        rank::<LedgerEntry>(),
    );
    let listed = db.ledger_entries(query);
    assert forall|i: int, j: int| 0 <= i < j < listed.len() implies !listed[i].completed_at.before(
        listed[j].completed_at,
    ) by {
        assert(!rank::<LedgerEntry>()(listed[j], listed[i]));
    }
}

/// The seats are listed with no seat ahead of one with a lower number,
/// and by strictly ascending number where seat numbers are unique.
pub proof fn law_seats_by_number(db: DatabaseView)
    ensures
        forall|i: int, j: int|
            0 <= i < j < db.all_seats().len() ==> db.all_seats()[i].id <= db.all_seats()[j].id,
        db.seats_numbered_once() ==> forall|i: int, j: int|
            0 <= i < j < db.all_seats().len() ==> db.all_seats()[i].id < db.all_seats()[j].id,
{
    lemma_listing_orders();
    let live = db.seats.filter(live_seats());
    let joined = live.map_values(seat_joined_in(db));
    lemma_sorted_by_in_order(joined, rank::<Seat>());
    let listed = db.all_seats();
    assert forall|i: int, j: int| 0 <= i < j < listed.len() implies listed[i].id
        <= listed[j].id by {
        assert(!rank::<Seat>()(listed[j], listed[i]));
    }
    if db.seats_numbered_once() {
        let rows = lemma_filter_positions(db.seats, live_seats());
        let places = lemma_sorted_by_places(joined, rank::<Seat>());
        assert forall|i: int, j: int| 0 <= i < j < listed.len() implies listed[i].id
            < listed[j].id by {
            let a = places[i];
            let b = places[j];
            assert(listed[i] == joined[a] && listed[j] == joined[b]);
            assert(joined[a].id == live[a].id && joined[b].id == live[b].id);
            assert(live[a] == db.seats[rows[a]] && live[b] == db.seats[rows[b]]);
            if a < b {
                assert(rows[a] < rows[b]);
            } else {
                assert(rows[b] < rows[a]);
            }
        }
    }
}

/// The members are listed with no member ahead of one created later.
pub proof fn law_members_newest_first(db: DatabaseView, search: Option<Seq<char>>)
    ensures
        forall|i: int, j: int|
            0 <= i < j < db.members_listed(search).len() ==> !db.members_listed(
                search,
            )[i].created_at.before(db.members_listed(search)[j].created_at),
{
    lemma_listing_orders();
    lemma_sorted_by_in_order(
        db.members.filter(found_by(search)).map_values(
            member_in_row(),
        ),
        rank::<Member>(),
    );
    let listed = db.members_listed(search);
    assert forall|i: int, j: int| 0 <= i < j < listed.len() implies !listed[i].created_at.before(
        listed[j].created_at,
    ) by {
        assert(!rank::<Member>()(listed[j], listed[i]));
    }
}

/// The staff is listed with no staff member ahead of one created earlier.
pub proof fn law_staff_oldest_first(db: DatabaseView)
    ensures
        forall|i: int, j: int|
            0 <= i < j < db.staff_listed().len() ==> !db.staff_listed()[j].created_at.before(
                db.staff_listed()[i].created_at,
            ),
{
    lemma_listing_orders();
    lemma_sorted_by_in_order(
        db.staff.filter(live_rows::<StaffRow>()).map_values(
            staff_in_row(),
        ),
        rank::<Staff>(),
    );
    let listed = db.staff_listed();
    assert forall|i: int, j: int| 0 <= i < j < listed.len() implies !listed[j].created_at.before(
        listed[i].created_at,
    ) by {
        assert(!rank::<Staff>()(listed[j], listed[i]));
    }
}

/// The reservations of a query are listed with no reservation ahead of
/// one with an earlier appointment.
pub proof fn law_reservations_earliest_first(
    db: DatabaseView,
    query: ReservationQueryView,
    today: Timestamp,
)
    ensures
        forall|i: int, j: int|
            0 <= i < j < db.reservations_listed(query, today).len() ==> !db.reservations_listed(
                query,
                today,
            )[j].reserved_at.before(db.reservations_listed(query, today)[i].reserved_at),
{
    lemma_listing_orders();
    lemma_sorted_by_in_order(
        db.reservations.filter(listed_by(query, today)).map_values(
            reservation_joined_with(db.services),
        ),
        rank::<Reservation>(),
    );
    let listed = db.reservations_listed(query, today);
    assert forall|i: int, j: int| 0 <= i < j < listed.len() implies !listed[j].reserved_at.before(
        listed[i].reserved_at,
    ) by {
        assert(!rank::<Reservation>()(listed[j], listed[i]));
    }
}

/// A live reservation that is given a status shows that status.
pub proof fn lemma_reservation_shows_status(
    db: DatabaseView,
    id: Seq<char>,
    status: ReservationStatus,
    now: Timestamp,
)
    requires
        db.reservation(id) is Some,
    ensures
        db.with_reservation_status(id, status, now).reservation(id) matches Some(r) && r.status
            == status,
        db.with_reservation_status(id, status, now).sessions == db.sessions,
        db.with_reservation_status(id, status, now).seats == db.seats,
        db.with_reservation_status(id, status, now).members == db.members,
{
    let i = first_match(db.reservations, live_with_id::<ReservationRow>(id)).unwrap();
    lemma_first_match(db.reservations, live_with_id::<ReservationRow>(id));
    lemma_update_keeps_position::<ReservationRow>(
        db.reservations,
        id,
        i,
        ReservationRowView { status: status, updated_at: now, ..db.reservations[i] },
    );
}

/// A live reservation that a started service names is in progress.
pub proof fn law_started_service_takes_reservation(
    db: DatabaseView,
    seat_id: i32,
    request: StartServiceRequestView,
    session_id: Seq<char>,
    now: Timestamp,
    reservation_id: Seq<char>,
)
    requires
        db.after_start_service(seat_id, request, session_id, now).1 is Ok,
        request.reservation_id == Some(reservation_id),
        db.reservation(reservation_id) is Some,
    ensures
        db.after_start_service(seat_id, request, session_id, now).0.reservation(
            reservation_id,
        ) matches Some(r) && r.status == ReservationStatus::InProgress,
{
    let row = requested_session(session_id, now, seat_id, request);
    let used = db.with_session(row, request.services).with_seat_status(
        seat_id,
        SeatStatus::InUse,
        now,
    );
    assert(used.reservations == db.reservations);
    lemma_reservation_shows_status(used, reservation_id, ReservationStatus::InProgress, now);
}

/// A live reservation linked to a service that was completed is completed.
pub proof fn law_completed_service_completes_reservation(
    db: DatabaseView,
    seat_id: i32,
    ledger_id: Seq<char>,
    now: Timestamp,
    reservation_id: Seq<char>,
)
    requires
        db.after_complete_service(seat_id, ledger_id, now).1 is Ok,
        db.session_on_seat(seat_id) matches Some(session) && session.reservation_id == Some(
            reservation_id,
        ),
        db.reservation(reservation_id) is Some,
    ensures
        db.after_complete_service(seat_id, ledger_id, now).0.reservation(
            reservation_id,
        ) matches Some(r) && r.status == ReservationStatus::Completed,
{
    let session = db.session_on_seat(seat_id).unwrap();
    let stamped = db.with_ledger_entry(ledger_id, now, session).with_linked_stamp(
        session.member_id,
        now,
    );
    assert(stamped.reservations == db.reservations);
    lemma_reservation_shows_status(stamped, reservation_id, ReservationStatus::Completed, now);
    let settled = stamped.with_reservation_status(
        reservation_id,
        ReservationStatus::Completed,
        now,
    );
    let after = settled.without_session_on(seat_id).with_seat_status(
        seat_id,
        SeatStatus::Available,
        now,
    );
    assert(after.reservations == settled.reservations);
}

/// A live reservation linked to a service that was cancelled is scheduled
/// again.
pub proof fn law_cancelled_service_reschedules_reservation(
    db: DatabaseView,
    seat_id: i32,
    now: Timestamp,
    reservation_id: Seq<char>,
)
    requires
        db.session_on_seat(seat_id) matches Some(session) && session.reservation_id == Some(
            reservation_id,
        ),
        db.reservation(reservation_id) is Some,
    ensures
        db.after_cancel_service(seat_id, now).0.reservation(reservation_id) matches Some(r)
            && r.status == ReservationStatus::Scheduled,
{
    lemma_reservation_shows_status(db, reservation_id, ReservationStatus::Scheduled, now);
    let synced = db.with_reservation_status(reservation_id, ReservationStatus::Scheduled, now);
    let after = synced.without_session_on(seat_id).with_seat_status(
        seat_id,
        SeatStatus::Available,
        now,
    );
    assert(after.reservations == synced.reservations);
}

/// A live member linked to a service that was completed has one stamp
/// more, unless the counter was full.
pub proof fn law_completed_service_awards_stamp(
    db: DatabaseView,
    seat_id: i32,
    ledger_id: Seq<char>,
    now: Timestamp,
    member_id: Seq<char>,
)
    requires
        db.after_complete_service(seat_id, ledger_id, now).1 is Ok,
        db.session_on_seat(seat_id) matches Some(session) && session.member_id == Some(member_id),
        db.member(member_id) matches Some(was) && was.stamps < i32::MAX,
    ensures
        db.after_complete_service(seat_id, ledger_id, now).0.member(member_id) matches Some(m)
            && m.stamps == db.member(member_id).unwrap().stamps + 1,
{
    let session = db.session_on_seat(seat_id).unwrap();
    let was = db.member(member_id).unwrap();
    let recorded = db.with_ledger_entry(ledger_id, now, session);
    assert(recorded.members == db.members);
    let i = first_match(db.members, live_with_id::<MemberRow>(member_id)).unwrap();
    lemma_first_match(db.members, live_with_id::<MemberRow>(member_id));
    lemma_update_keeps_position::<MemberRow>(
        db.members,
        member_id,
        i,
        MemberRowView {
            member: MemberView { stamps: (was.stamps + 1) as i32, updated_at: now, ..was },
            ..db.members[i]
        },
    );
    let stamped = recorded.with_stamp(member_id, now);
    let settled = stamped.with_linked_reservation(
        session.reservation_id,
        ReservationStatus::Completed,
        now,
    );
    assert(settled.members == stamped.members);
    let after = settled.without_session_on(seat_id).with_seat_status(
        seat_id,
        SeatStatus::Available,
        now,
    );
    assert(after.members == settled.members);
}

/// Filtering by a condition after filtering by one that it implies is
/// filtering by the condition alone.
pub proof fn lemma_filter_twice<T>(s: Seq<T>, wide: spec_fn(T) -> bool, narrow: spec_fn(T) -> bool)
    requires
        forall|x: T| #[trigger] narrow(x) ==> wide(x),
    ensures
        s.filter(wide).filter(narrow) == s.filter(narrow),
    decreases s.len(),
{
    reveal(Seq::filter);
    if s.len() > 0 {
        lemma_filter_twice(s.drop_last(), wide, narrow);
        broadcast use Seq::lemma_filter_push;

        assert(s.drop_last().push(s.last()) =~= s);
    }
}

/// The session that a completed service ends is gone with its line items,
/// which are removed, not handed on: nothing in the store names the session
/// any more.
pub proof fn law_completed_service_removes_session(
    db: DatabaseView,
    seat_id: i32,
    ledger_id: Seq<char>,
    now: Timestamp,
)
    requires
        db.wf(),
        db.after_complete_service(seat_id, ledger_id, now).1 is Ok,
    ensures
        ({
            let ended = db.session_on_seat(seat_id).unwrap();
            let after = db.after_complete_service(seat_id, ledger_id, now).0;
            &&& !after.has_session_id(ended.id)
            &&& lines_of(after.services, Owner::Session(ended.id)) == Seq::<
                SelectedServiceView,
            >::empty()
        }),
{
    let session = db.session_on_seat(seat_id).unwrap();
    let settled = db.with_ledger_entry(ledger_id, now, session).with_linked_stamp(
        session.member_id,
        now,
    ).with_linked_reservation(session.reservation_id, ReservationStatus::Completed, now);
    assert(settled.sessions == db.sessions);
    lemma_first_match(db.sessions, on_seat(seat_id));
    let id = session.id;
    let freed = settled.without_session_on(seat_id);
    let after = freed.with_seat_status(seat_id, SeatStatus::Available, now);
    assert(after.sessions == freed.sessions && after.services == freed.services);
    let rows = lemma_filter_positions(settled.sessions, session_other_than(id));
    if after.has_session_id(id) {
        let k = choose|k: int| 0 <= k < after.sessions.len() && #[trigger] after.sessions[k].id == id;
        assert(after.sessions[k] == settled.sessions[rows[k]]);
    }
    let lines = lemma_filter_positions(settled.services, not_attached_to(Owner::Session(id)));
    assert forall|i: int| 0 <= i < after.services.len() implies !attached_to(Owner::Session(id))(
        #[trigger] after.services[i],
    ) by {
        assert(after.services[i] == settled.services[lines[i]]);
    }
    lemma_filter_none(after.services, attached_to(Owner::Session(id)));
}

/// Completing the service on one seat leaves the session on any other seat
/// as it is, with its line items.
pub proof fn law_completed_service_leaves_other_seats(
    db: DatabaseView,
    seat_id: i32,
    ledger_id: Seq<char>,
    now: Timestamp,
    other: i32,
)
    requires
        db.wf(),
        db.after_complete_service(seat_id, ledger_id, now).1 is Ok,
        other != seat_id,
    ensures
        db.after_complete_service(seat_id, ledger_id, now).0.session_on_seat(other)
            == db.session_on_seat(other),
{
    let session = db.session_on_seat(seat_id).unwrap();
    let recorded = db.with_ledger_entry(ledger_id, now, session);
    let settled = recorded.with_linked_stamp(session.member_id, now).with_linked_reservation(
        session.reservation_id,
        ReservationStatus::Completed,
        now,
    );
    assert(settled.sessions == db.sessions);
    assert(settled.services == recorded.services);
    lemma_first_match(db.sessions, on_seat(seat_id));
    lemma_first_match(db.sessions, on_seat(other));
    let found = first_match(db.sessions, on_seat(seat_id)).unwrap();
    let id = db.sessions[found].id;
    let freed = settled.without_session_on(seat_id);
    let after = freed.with_seat_status(seat_id, SeatStatus::Available, now);
    assert(after.sessions == freed.sessions && after.services == freed.services);
    assert(after.sessions == db.sessions.filter(session_other_than(id)));
    let rows = lemma_filter_positions(db.sessions, session_other_than(id));
    lemma_first_match(after.sessions, on_seat(other));
    match first_match(db.sessions, on_seat(other)) {
        Some(o) => {
            let row = db.sessions[o];
            assert(o != found);
            if o < found {
                assert(SessionRow::key(db.sessions[o]) != SessionRow::key(db.sessions[found]));
            } else {
                assert(SessionRow::key(db.sessions[found]) != SessionRow::key(db.sessions[o]));
            }
            assert(row.id != id);
            assert(session_other_than(id)(db.sessions[o]));
            let k = choose|k: int| 0 <= k < rows.len() && #[trigger] rows[k] == o;
            assert(after.sessions[k] == row);
            assert forall|j: int| 0 <= j < k implies !on_seat(other)(after.sessions[j]) by {
                assert(after.sessions[j] == db.sessions[rows[j]]);
                assert(rows[j] < rows[k]);
            }
            lemma_first_match_is(after.sessions, on_seat(other), k);
            // The line items of the other session are the same.
            let mine = attached_to(Owner::Session(row.id));
            let not_ended = not_attached_to(Owner::Session(id));
            let added = new_lines(
                db.last_service_id,
                Owner::Ledger(ledger_id),
                line_inputs(session.services),
            );
            assert(settled.services == db.services + added);
            assert forall|x: SelectedServiceView| #[trigger] mine(x) implies not_ended(x) by {}
            lemma_filter_twice(settled.services, not_ended, mine);
            Seq::filter_distributes_over_add(db.services, added, mine);
            assert forall|i: int| 0 <= i < added.len() implies !mine(#[trigger] added[i]) by {}
            lemma_filter_none(added, mine);
            assert(lines_of(after.services, Owner::Session(row.id)) =~= lines_of(
                db.services,
                Owner::Session(row.id),
            ));
        },
        None => {
            if first_match(after.sessions, on_seat(other)) is Some {
                let k = first_match(after.sessions, on_seat(other)).unwrap();
                assert(after.sessions[k] == db.sessions[rows[k]]);
            }
        },
    }
}

} // verus!
