//! The operations as a front end calls them: identities drawn fresh, the
//! time read from the clock, what is not there reported as an error.

use crate::error::Error;
use crate::ids::fresh_id;
use crate::ledger;
use crate::ledger::{day_lines, month_fits, summarizes, summary_fits};
use crate::members;
use crate::members::new_member_row;
use crate::models::{
    CreateMemberRequest, CreateReservationRequest, CreateStaffRequest, DailySummary,
    LedgerEntry, LedgerQuery, LedgerQueryView, LedgerSummary, Member, MemberView, Reservation,
    ReservationQuery, ReservationQueryView, Seat, Staff, StaffView, UpdateMemberRequest,
    UpdateReservationRequest, UpdateReservationStatusRequest, UpdateStaffRequest, view_all,
};
use crate::reservations;
use crate::reservations::{new_reservation_row, reservation_of};
use crate::schema::Database;
use crate::seats;
use crate::staff;
use crate::staff::new_staff_row;
use crate::time::{now, Timestamp};
use vstd::prelude::*;

verus! {

// ==================== Members ====================

/// The live member with the identity `id`; `NotFound` if there is none.
pub fn get_member(db: &Database, id: &str) -> (r: Result<Member, Error>)
    ensures
        match r {
            Ok(member) => db@.member(id@) == Some(member@),
            Err(e) => e == Error::NotFound && db@.member(id@) is None,
        },
{
    match members::get_member_by_id(db, id) {
        Some(member) => Ok(member),
        None => Err(Error::NotFound),
    }
}

/// The live member with the phone number `phone`; `NotFound` if there is
/// none.
pub fn search_member_by_phone(db: &Database, phone: &str) -> (r: Result<Member, Error>)
    ensures
        match r {
            Ok(member) => db@.member_by_phone(phone@) == Some(member@),
            Err(e) => e == Error::NotFound && db@.member_by_phone(phone@) is None,
        },
{
    match members::get_member_by_phone(db, phone) {
        Some(member) => Ok(member),
        None => Err(Error::NotFound),
    }
}

/// Adds the member that `request` asks for under the identity `id` at
/// `now`, unless a live member has the phone number already.
///
/// `Validation` comes back when the phone number is taken, `Storage` when
/// the identity is; either way the store is left as it was.
pub fn create_member_with(db: &mut Database, id: &str, now: Timestamp, request: &CreateMemberRequest) -> (r:
    Result<Member, Error>)
    ensures
        match r {
            Ok(member) => {
                &&& !old(db)@.phone_taken(request.phone@, None)
                &&& !old(db)@.has_member_id(id@)
                &&& member@ == new_member_row(id@, now, request.name@, request.phone@).member
                &&& final(db)@ == old(db)@.with_member(
                    new_member_row(id@, now, request.name@, request.phone@),
                )
            },
            Err(e) => {
                &&& final(db)@ == old(db)@
                &&& if old(db)@.phone_taken(request.phone@, None) {
                    e == Error::Validation
                } else {
                    e == Error::Storage && old(db)@.has_member_id(id@)
                }
            },
        },
        old(db)@.wf() ==> final(db)@.wf(),
        old(db)@.phones_unique() ==> final(db)@.phones_unique(),
{
    proof {
        if db@.phones_unique() && !db@.phone_taken(request.phone@, None) {
            members::lemma_new_phone_keeps_unique(
                db@,
                new_member_row(id@, now, request.name@, request.phone@),
            );
        }
    }
    if members::phone_exists(db, request.phone.as_str(), None) {
        return Err(Error::Validation);
    }
    members::create_member(db, id, now, request.name.as_str(), request.phone.as_str())
}

/// Adds the member that `request` asks for, now and under a fresh
/// identity, unless a live member has the phone number already.
///
/// `Validation` comes back exactly when the phone number is taken;
/// `Storage` only when the identity that was drawn is in use, which takes a
/// member row to be there. Either way the store is left as it was.
pub fn create_member(db: &mut Database, request: &CreateMemberRequest) -> (r: Result<Member, Error>)
    ensures
        match r {
            Ok(member) => {
                &&& !old(db)@.phone_taken(request.phone@, None)
                &&& !old(db)@.has_member_id(member@.id)
                &&& member@ == new_member_row(
                    member@.id,
                    member@.created_at,
                    request.name@,
                    request.phone@,
                ).member
                &&& final(db)@ == old(db)@.with_member(
                    new_member_row(member@.id, member@.created_at, request.name@, request.phone@),
                )
            },
            Err(e) => {
                &&& final(db)@ == old(db)@
                &&& (e == Error::Validation || e == Error::Storage)
                &&& e == Error::Validation <==> old(db)@.phone_taken(request.phone@, None)
                &&& e == Error::Storage ==> exists|id: Seq<char>| #[trigger] old(db)@.has_member_id(id)
            },
        },
        old(db)@.wf() ==> final(db)@.wf(),
        old(db)@.phones_unique() ==> final(db)@.phones_unique(),
{
    let id = fresh_id();
    let at = now();
    create_member_with(db, id.as_str(), at, request)
}

/// Gives the live member `id` the name and the phone number of `request`
/// at `now`, unless another live member has the phone number.
///
/// `Validation` comes back when the phone number is taken by another
/// member, `NotFound` when no live member has the identity; either way the
/// store is left as it was.
pub fn update_member_at(db: &mut Database, now: Timestamp, id: &str, request: &UpdateMemberRequest) -> (r:
    Result<Member, Error>)
    ensures
        match r {
            Ok(member) => {
                &&& !old(db)@.phone_taken(request.phone@, Some(id@))
                &&& old(db)@.member(id@) matches Some(was)
                &&& member@ == (MemberView {
                    name: request.name@,
                    phone: request.phone@,
                    updated_at: now,
                    ..was
                })
                &&& final(db)@ == old(db)@.with_member_as(id@, member@)
                &&& final(db)@.member(id@) == Some(member@)
            },
            Err(e) => {
                &&& final(db)@ == old(db)@
                &&& if old(db)@.phone_taken(request.phone@, Some(id@)) {
                    e == Error::Validation
                } else {
                    e == Error::NotFound && old(db)@.member(id@) is None
                }
            },
        },
        old(db)@.wf() ==> final(db)@.wf(),
        old(db)@.wf() && old(db)@.phones_unique() ==> final(db)@.phones_unique(),
{
    proof {
        if db@.wf() && db@.phones_unique() && !db@.phone_taken(request.phone@, Some(id@))
            && db@.member(id@) is Some {
            let was = db@.member(id@).unwrap();
            members::lemma_changed_phone_keeps_unique(
                db@,
                id@,
                MemberView { name: request.name@, phone: request.phone@, updated_at: now, ..was },
            );
        }
    }
    if members::phone_exists(db, request.phone.as_str(), Some(id)) {
        return Err(Error::Validation);
    }
    members::update_member(db, now, id, request.name.as_str(), request.phone.as_str())
}

/// Gives the live member `id` the name and the phone number of `request`,
/// now; see [`update_member_at`].
pub fn update_member(db: &mut Database, id: &str, request: &UpdateMemberRequest) -> (r: Result<Member, Error>)
    ensures
        match r {
            Ok(member) => {
                &&& !old(db)@.phone_taken(request.phone@, Some(id@))
                &&& old(db)@.member(id@) matches Some(was)
                &&& member@ == (MemberView {
                    name: request.name@,
                    phone: request.phone@,
                    updated_at: member@.updated_at,
                    ..was
                })
                &&& final(db)@ == old(db)@.with_member_as(id@, member@)
                &&& final(db)@.member(id@) == Some(member@)
            },
            Err(e) => {
                &&& final(db)@ == old(db)@
                &&& if old(db)@.phone_taken(request.phone@, Some(id@)) {
                    e == Error::Validation
                } else {
                    e == Error::NotFound && old(db)@.member(id@) is None
                }
            },
        },
        old(db)@.wf() ==> final(db)@.wf(),
        old(db)@.wf() && old(db)@.phones_unique() ==> final(db)@.phones_unique(),
{
    let at = now();
    update_member_at(db, at, id, request)
}

/// Marks the member `id` as deleted, now.
pub fn delete_member(db: &mut Database, id: &str)
    ensures
        exists|now: Timestamp| final(db)@ == #[trigger] old(db)@.without_member(id@, now),
        old(db)@.wf() ==> final(db)@.wf(),
{
    let at = now();
    members::delete_member(db, at, id);
}

/// Adds one stamp to the live member `id`, now.
///
/// `NotFound` comes back when no live member has the identity, `Storage`
/// when the counter is at its highest value; either way the store is left
/// as it was.
pub fn add_stamp(db: &mut Database, id: &str) -> (r: Result<Member, Error>)
    ensures
        match r {
            Ok(member) => {
                &&& old(db)@.member(id@) matches Some(was)
                &&& was.stamps < i32::MAX
                &&& member@ == (MemberView {
                    stamps: (was.stamps + 1) as i32,
                    updated_at: member@.updated_at,
                    ..was
                })
                &&& final(db)@ == old(db)@.with_member_as(id@, member@)
                &&& final(db)@.member(id@) == Some(member@)
            },
            Err(e) => {
                &&& final(db)@ == old(db)@
                &&& match old(db)@.member(id@) {
                    Some(was) => e == Error::Storage && was.stamps == i32::MAX,
                    None => e == Error::NotFound,
                }
            },
        },
        old(db)@.wf() ==> final(db)@.wf(),
{
    let at = now();
    members::add_stamp(db, at, id)
}

/// Sets the stamp counter of the live member `id` to zero, now.
///
/// `NotFound` comes back, and the store is left as it was, when no live
/// member has the identity.
pub fn reset_stamps(db: &mut Database, id: &str) -> (r: Result<Member, Error>)
    ensures
        match r {
            Ok(member) => {
                &&& old(db)@.member(id@) matches Some(was)
                &&& member@ == (MemberView { stamps: 0, updated_at: member@.updated_at, ..was })
                &&& final(db)@ == old(db)@.with_member_as(id@, member@)
                &&& final(db)@.member(id@) == Some(member@)
            },
            Err(e) => {
                &&& e == Error::NotFound
                &&& old(db)@.member(id@) is None
                &&& final(db)@ == old(db)@
            },
        },
        old(db)@.wf() ==> final(db)@.wf(),
{
    let at = now();
    members::reset_stamps(db, at, id)
}

// ==================== Staff ====================

/// The live staff member with the identity `id`; `NotFound` if there is
/// none.
pub fn get_staff(db: &Database, id: &str) -> (r: Result<Staff, Error>)
    ensures
        match r {
            Ok(staff) => db@.staff_member(id@) == Some(staff@),
            Err(e) => e == Error::NotFound && db@.staff_member(id@) is None,
        },
{
    match staff::get_staff_by_id(db, id) {
        Some(staff) => Ok(staff),
        None => Err(Error::NotFound),
    }
}

/// Adds the staff member that `request` asks for, now and under a fresh
/// identity.
///
/// `Storage` comes back, and the store is left as it was, when the
/// identity that was drawn is in use.
pub fn create_staff(db: &mut Database, request: &CreateStaffRequest) -> (r: Result<Staff, Error>)
    ensures
        match r {
            Ok(staff) => {
                &&& !old(db)@.has_staff_id(staff@.id)
                &&& staff@ == new_staff_row(staff@.id, staff@.created_at, request.name@).staff
                &&& final(db)@ == old(db)@.with_staff(
                    new_staff_row(staff@.id, staff@.created_at, request.name@),
                )
            },
            Err(e) => {
                &&& e == Error::Storage
                &&& final(db)@ == old(db)@
                &&& exists|id: Seq<char>| #[trigger] old(db)@.has_staff_id(id)
            },
        },
        old(db)@.wf() ==> final(db)@.wf(),
{
    let id = fresh_id();
    let at = now();
    staff::create_staff(db, id.as_str(), at, request.name.as_str())
}

/// Gives the live staff member `id` the name of `request`, now.
///
/// `NotFound` comes back, and the store is left as it was, when no live
/// staff member has the identity.
pub fn update_staff(db: &mut Database, id: &str, request: &UpdateStaffRequest) -> (r: Result<Staff, Error>)
    ensures
        match r {
            Ok(staff) => {
                &&& old(db)@.staff_member(id@) matches Some(was)
                &&& staff@ == (StaffView {
                    name: request.name@,
                    updated_at: staff@.updated_at,
                    ..was
                })
                &&& final(db)@ == old(db)@.with_staff_as(id@, staff@)
                &&& final(db)@.staff_member(id@) == Some(staff@)
            },
            Err(e) => {
                &&& e == Error::NotFound
                &&& old(db)@.staff_member(id@) is None
                &&& final(db)@ == old(db)@
            },
        },
        old(db)@.wf() ==> final(db)@.wf(),
{
    let at = now();
    staff::update_staff(db, at, id, request.name.as_str())
}

/// Marks the staff member `id` as deleted, now.
pub fn delete_staff(db: &mut Database, id: &str)
    ensures
        exists|now: Timestamp| final(db)@ == #[trigger] old(db)@.without_staff(id@, now),
        old(db)@.wf() ==> final(db)@.wf(),
{
    let at = now();
    staff::delete_staff(db, at, id);
}

// ==================== Seats ====================

/// The live seat with the number `id`, with the session in progress on it;
/// `NotFound` if there is none.
pub fn get_seat(db: &Database, id: i32) -> (r: Result<Seat, Error>)
    ensures
        match r {
            Ok(seat) => db@.seat(id) == Some(seat@),
            Err(e) => e == Error::NotFound && db@.seat(id) is None,
        },
{
    match seats::get_seat_by_id(db, id) {
        Some(seat) => Ok(seat),
        None => Err(Error::NotFound),
    }
}

// ==================== Reservations ====================

/// The reservations of the given status on the given day, the earliest
/// appointment first. Without a day, those from today on; or all of them,
/// where `all` is the text `true`. Today is read from the clock.
pub fn get_reservations(
    db: &Database,
    status: Option<String>,
    date: Option<String>,
    all: Option<String>,
) -> (r: Vec<Reservation>)
    ensures
        exists|today: Timestamp|
            view_all(r@) == #[trigger] db@.reservations_listed(
                ReservationQueryView {
                    status: status.deep_view(),
                    date: date.deep_view(),
                    all: all.deep_view(),
                },
                today,
            ),
{
    let query = ReservationQuery { status, date, all };
    let today = now();
    reservations::get_reservations(db, &query, &today)
}

/// The live reservation with the identity `id`; `NotFound` if there is
/// none.
pub fn get_reservation(db: &Database, id: &str) -> (r: Result<Reservation, Error>)
    ensures
        match r {
            Ok(reservation) => db@.reservation(id@) == Some(reservation@),
            Err(e) => e == Error::NotFound && db@.reservation(id@) is None,
        },
{
    match reservations::get_reservation_by_id(db, id) {
        Some(reservation) => Ok(reservation),
        None => Err(Error::NotFound),
    }
}

/// Adds the reservation that `request` asks for, now and under a fresh
/// identity, with the status `Scheduled`.
///
/// `Storage` comes back, and the store is left as it was, when the
/// identity that was drawn is in use or the line items cannot be numbered.
pub fn create_reservation(db: &mut Database, request: &CreateReservationRequest) -> (r: Result<
    Reservation,
    Error,
>)
    ensures
        match r {
            Ok(reservation) => {
                &&& old(db)@.reservation_refusal(reservation@.id, request@.services.len()) is None
                &&& final(db)@ == old(db)@.with_reservation(
                    reservation@.id,
                    reservation@.created_at,
                    request@,
                )
                &&& reservation@ == reservation_of(
                    new_reservation_row(reservation@.id, reservation@.created_at, request@),
                    final(db)@.services,
                )
            },
            Err(e) => {
                &&& e == Error::Storage
                &&& final(db)@ == old(db)@
                &&& exists|id: Seq<char>|
                    #[trigger] old(db)@.reservation_refusal(id, request@.services.len()) == Some(e)
            },
        },
        old(db)@.wf() ==> final(db)@.wf(),
{
    let id = fresh_id();
    let at = now();
    reservations::create_reservation(db, id.as_str(), at, request)
}

/// Gives the live reservation `id` the fields and the line items of
/// `request`, now.
///
/// `NotFound` comes back when no live reservation has the identity,
/// `Storage` when the line items cannot be numbered; either way the store
/// is left as it was.
pub fn update_reservation(db: &mut Database, id: &str, request: &UpdateReservationRequest) -> (r: Result<
    Reservation,
    Error,
>)
    ensures
        match r {
            Ok(reservation) => {
                &&& old(db)@.reservation_change_refusal(id@, request@.services.len()) is None
                &&& final(db)@ == old(db)@.with_reservation_changed(
                    id@,
                    reservation@.updated_at,
                    request@,
                )
                &&& Some(reservation@) == final(db)@.reservation(id@)
            },
            Err(e) => {
                &&& old(db)@.reservation_change_refusal(id@, request@.services.len()) == Some(e)
                &&& final(db)@ == old(db)@
            },
        },
        old(db)@.wf() ==> final(db)@.wf(),
{
    let at = now();
    reservations::update_reservation(db, at, id, request)
}

/// Gives the live reservation `id` the status of `request`, now, whatever
/// its status was.
///
/// `NotFound` comes back, and the store is left as it was, when no live
/// reservation has the identity.
pub fn update_reservation_status(db: &mut Database, id: &str, request: &UpdateReservationStatusRequest) -> (r:
    Result<Reservation, Error>)
    ensures
        match r {
            Ok(reservation) => {
                &&& old(db)@.reservation(id@) is Some
                &&& final(db)@ == old(db)@.with_reservation_status(
                    id@,
                    request.status,
                    reservation@.updated_at,
                )
                &&& Some(reservation@) == final(db)@.reservation(id@)
                &&& reservation@.status == request.status
            },
            Err(e) => {
                &&& e == Error::NotFound
                &&& old(db)@.reservation(id@) is None
                &&& final(db)@ == old(db)@
            },
        },
        old(db)@.wf() ==> final(db)@.wf(),
{
    let at = now();
    reservations::update_reservation_status(db, at, id, request.status)
}

/// Removes the line items of the reservation `id` and marks it as deleted,
/// now.
pub fn delete_reservation(db: &mut Database, id: &str)
    ensures
        exists|now: Timestamp| final(db)@ == #[trigger] old(db)@.without_reservation(id@, now),
        old(db)@.wf() ==> final(db)@.wf(),
{
    let at = now();
    reservations::delete_reservation(db, at, id);
}

// ==================== Ledger ====================

/// The ledger entries of the given day, or range of days, and staff
/// member, the latest completion first.
pub fn get_ledger_entries(
    db: &Database,
    date: Option<String>,
    start_date: Option<String>,
    end_date: Option<String>,
    staff_id: Option<String>,
) -> (r: Vec<LedgerEntry>)
    ensures
        view_all(r@) == db@.ledger_entries(
            LedgerQueryView {
                date: date.deep_view(),
                start_date: start_date.deep_view(),
                end_date: end_date.deep_view(),
                staff_id: staff_id.deep_view(),
            },
        ),
{
    let query = LedgerQuery { date, start_date, end_date, staff_id };
    ledger::get_ledger_entries(db, &query)
}

/// The summary of the ledger entries of the given day, or range of days,
/// over all staff; see [`ledger::get_ledger_summary`].
pub fn get_ledger_summary(
    db: &Database,
    date: Option<String>,
    start_date: Option<String>,
    end_date: Option<String>,
) -> (r: Result<LedgerSummary, Error>)
    ensures
        ({
            let entries = db@.ledger_entries(
                LedgerQueryView {
                    date: date.deep_view(),
                    start_date: start_date.deep_view(),
                    end_date: end_date.deep_view(),
                    staff_id: None,
                },
            );
            match r {
                Ok(summary) => summary_fits(entries) && summarizes(summary@, entries),
                Err(e) => e == Error::Storage && !summary_fits(entries),
            }
        }),
{
    let query = LedgerQuery { date, start_date, end_date, staff_id: None };
    ledger::get_ledger_summary(db, &query)
}

/// The year and the month that are asked for: those given, and for what
/// is not given those that a clock `offset` minutes ahead of UTC shows at
/// the time `today`.
pub open spec fn month_asked(today: Timestamp, offset: int, year: Option<i32>, month: Option<u32>) -> (
    i32,
    u32,
) {
    let shown = match today.local_day(offset) {
        Some(day) => (day.year as i32, day.month as u32),
        None => (today.year, today.month),
    };
    (
        match year {
            Some(y) => y,
            None => shown.0,
        },
        match month {
            Some(m) => m,
            None => shown.1,
        },
    )
}

/// The daily summary of the month `month` of the year `year`, days taken
/// as a clock `offset_minutes` ahead of UTC shows them; what that clock
/// shows at the time `today` stands in for what is not given.
pub fn get_daily_summary_at(
    db: &Database,
    today: &Timestamp,
    year: Option<i32>,
    month: Option<u32>,
    offset_minutes: i32,
) -> (r: Result<Vec<DailySummary>, Error>)
    ensures
        ({
            let (y, m) = month_asked(*today, offset_minutes as int, year, month);
            match r {
                Ok(lines) => month_fits(db@.ledger, offset_minutes as int, y, m) && view_all(lines@)
                    == day_lines(db@.ledger, offset_minutes as int, y, m, 31),
                Err(e) => e == Error::Storage && !month_fits(db@.ledger, offset_minutes as int, y, m),
            }
        }),
{
    let shown = match today.local_date(offset_minutes) {
        Some(date) => (date.year, date.month),
        None => (today.year, today.month),
    };
    let y = match year {
        Some(y) => y,
        None => shown.0,
    };
    let m = match month {
        Some(m) => m,
        None => shown.1,
    };
    ledger::get_daily_summary(db, y, m, offset_minutes)
}

/// The daily summary of the month `month` of the year `year`, days taken
/// as a clock `offset_minutes` ahead of UTC shows them; the year and month
/// that this clock shows now stand in for what is not given.
pub fn get_daily_summary(db: &Database, year: Option<i32>, month: Option<u32>, offset_minutes: i32) -> (r:
    Result<Vec<DailySummary>, Error>)
    ensures
        exists|today: Timestamp|
            ({
                let (y, m) = #[trigger] month_asked(today, offset_minutes as int, year, month);
                match r {
                    Ok(lines) => month_fits(db@.ledger, offset_minutes as int, y, m) && view_all(
                        lines@,
                    ) == day_lines(db@.ledger, offset_minutes as int, y, m, 31),
                    Err(e) => e == Error::Storage && !month_fits(
                        db@.ledger,
                        offset_minutes as int,
                        y,
                        m,
                    ),
                }
            }),
        year is Some && month is Some ==> ({
            let y = year.unwrap();
            let m = month.unwrap();
            match r {
                Ok(lines) => month_fits(db@.ledger, offset_minutes as int, y, m) && view_all(lines@)
                    == day_lines(db@.ledger, offset_minutes as int, y, m, 31),
                Err(e) => e == Error::Storage && !month_fits(db@.ledger, offset_minutes as int, y, m),
            }
        }),
{
    let today = now();
    let r = get_daily_summary_at(db, &today, year, month, offset_minutes);
    assert(month_asked(today, offset_minutes as int, year, month) == month_asked(
        today,
        offset_minutes as int,
        year,
        month,
    ));
    r
}

} // verus!
