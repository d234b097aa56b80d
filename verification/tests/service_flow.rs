use timehair::error::Error;
use timehair::ledger::get_ledger_entries;
use timehair::members::{create_member, get_member_by_id};
use timehair::models::{
    CreateReservationRequest, LedgerQuery, ReservationStatus, SeatStatus, ServiceInput,
    StartServiceRequest,
};
use timehair::reservations::{create_reservation, get_reservation_by_id};
use timehair::schema::Database;
use timehair::seats::{get_seat_by_id, get_seats, update_seat_status};
use timehair::service::{
    cancel_service, cancel_service_at, complete_service, complete_service_at, start_service,
    start_service_at,
};
use timehair::sessions::{create_session, delete_session, get_session_by_seat_id};
use timehair::setup::{create_tables, seed_seats};
use timehair::lines::get_services_by_session_id;
use timehair::time::Timestamp;

fn at(hour: u32, minute: u32) -> Timestamp {
    Timestamp { year: 2024, month: 3, day: 15, hour, minute, second: 0, nanosecond: 0 }
}

fn store() -> Database {
    let mut db = create_tables();
    seed_seats(&mut db, at(8, 0)).unwrap();
    db
}

fn cut(price: i32) -> ServiceInput {
    ServiceInput { name: "cut".to_string(), length: None, price }
}

fn request(staff: &str, services: Vec<ServiceInput>, total: i32) -> StartServiceRequest {
    StartServiceRequest {
        member_id: None,
        member_name: "walk-in".to_string(),
        staff_id: staff.to_string(),
        staff_name: "Kim".to_string(),
        services,
        total_price: total,
        reservation_id: None,
    }
}

fn all_ledger() -> LedgerQuery {
    LedgerQuery { date: None, start_date: None, end_date: None, staff_id: None }
}

#[test]
fn start_then_complete_records_and_frees_the_seat() {
    let mut db = store();
    assert_eq!(get_seat_by_id(&db, 1).unwrap().status, SeatStatus::Available);

    let seat = start_service_at(&mut db, "session-1", at(9, 0), 1, &request("s1", vec![cut(15000)], 15000))
        .unwrap();
    assert_eq!(seat.id, 1);
    assert_eq!(seat.status, SeatStatus::InUse);
    let session = seat.current_session.unwrap();
    assert_eq!(session.id, "session-1");
    assert_eq!(session.staff_id, "s1");
    assert_eq!(session.total_price, 15000);
    assert_eq!(session.start_time, at(9, 0));
    assert_eq!(session.services.len(), 1);
    assert_eq!(session.services[0].name, "cut");
    assert_eq!(session.services[0].price, 15000);
    assert_eq!(session.services[0].service_session_id.as_deref(), Some("session-1"));

    let entry = complete_service_at(&mut db, "entry-1", at(9, 40), 1).unwrap();
    assert_eq!(entry.id, "entry-1");
    assert_eq!(entry.total_price, 15000);
    assert_eq!(entry.seat_id, 1);
    assert_eq!(entry.staff_id, "s1");
    assert_eq!(entry.completed_at, at(9, 40));
    assert_eq!(entry.services.len(), 1);
    assert_eq!(entry.services[0].name, "cut");
    assert_eq!(entry.services[0].ledger_entry_id.as_deref(), Some("entry-1"));
    assert_eq!(entry.services[0].service_session_id, None);

    let seat = get_seat_by_id(&db, 1).unwrap();
    assert_eq!(seat.status, SeatStatus::Available);
    assert!(seat.current_session.is_none());
    assert!(get_session_by_seat_id(&db, 1).is_none());
    assert!(get_services_by_session_id(&db, "session-1").is_empty());
    assert_eq!(get_ledger_entries(&db, &all_ledger()).len(), 1);
}

#[test]
fn completing_awards_one_stamp_to_the_member() {
    let mut db = store();
    create_member(&mut db, "m1", at(8, 30), "Lee", "010-1111-2222").unwrap();
    let mut req = request("s1", vec![cut(15000)], 15000);
    req.member_id = Some("m1".to_string());
    start_service_at(&mut db, "session-1", at(9, 0), 1, &req).unwrap();
    assert_eq!(get_member_by_id(&db, "m1").unwrap().stamps, 0);
    let entry = complete_service_at(&mut db, "entry-1", at(9, 40), 1).unwrap();
    assert_eq!(entry.member_id.as_deref(), Some("m1"));
    let member = get_member_by_id(&db, "m1").unwrap();
    assert_eq!(member.stamps, 1);
    assert_eq!(member.updated_at, at(9, 40));
}

#[test]
fn completing_with_an_unknown_member_still_frees_the_seat() {
    let mut db = store();
    let mut req = request("s1", vec![cut(15000)], 15000);
    req.member_id = Some("nobody".to_string());
    req.reservation_id = Some("no-reservation".to_string());
    start_service_at(&mut db, "session-1", at(9, 0), 2, &req).unwrap();
    let entry = complete_service_at(&mut db, "entry-1", at(9, 40), 2).unwrap();
    assert_eq!(entry.total_price, 15000);
    assert_eq!(get_seat_by_id(&db, 2).unwrap().status, SeatStatus::Available);
    assert!(get_session_by_seat_id(&db, 2).is_none());
}

#[test]
fn second_start_on_the_same_seat_conflicts() {
    let mut db = store();
    start_service_at(&mut db, "session-1", at(9, 0), 1, &request("s1", vec![cut(15000)], 15000))
        .unwrap();
    let second =
        start_service_at(&mut db, "session-2", at(9, 5), 1, &request("s2", vec![cut(9000)], 9000));
    assert_eq!(second.unwrap_err(), Error::Conflict);
    assert_eq!(db.sessions.len(), 1);
    assert_eq!(db.sessions[0].id, "session-1");
    assert_eq!(db.services.len(), 1);
    let session = get_session_by_seat_id(&db, 1).unwrap();
    assert_eq!(session.id, "session-1");
    assert_eq!(session.staff_id, "s1");
}

#[test]
fn start_on_a_seat_in_use_conflicts_even_without_a_session() {
    let mut db = store();
    update_seat_status(&mut db, at(8, 10), 3, SeatStatus::InUse);
    let r = start_service_at(&mut db, "session-1", at(9, 0), 3, &request("s1", vec![], 0));
    assert_eq!(r.unwrap_err(), Error::Conflict);
    assert!(db.sessions.is_empty());
}

#[test]
fn start_on_an_available_seat_that_holds_a_session_conflicts() {
    let mut db = store();
    create_session(&mut db, "session-1", at(9, 0), 4, None, "walk-in", "s1", "Kim", &[], 0, None)
        .unwrap();
    assert_eq!(get_seat_by_id(&db, 4).unwrap().status, SeatStatus::Available);
    let r = start_service_at(&mut db, "session-2", at(9, 5), 4, &request("s1", vec![], 0));
    assert_eq!(r.unwrap_err(), Error::Conflict);
    assert_eq!(db.sessions.len(), 1);
}

#[test]
fn start_on_a_reserved_seat_goes_through() {
    let mut db = store();
    update_seat_status(&mut db, at(8, 10), 5, SeatStatus::Reserved);
    let seat = start_service_at(&mut db, "session-1", at(9, 0), 5, &request("s1", vec![], 0)).unwrap();
    assert_eq!(seat.status, SeatStatus::InUse);
    assert_eq!(seat.updated_at, at(9, 0));
}

#[test]
fn start_on_an_unknown_seat_is_not_found() {
    let mut db = store();
    let r = start_service_at(&mut db, "session-1", at(9, 0), 7, &request("s1", vec![], 0));
    assert_eq!(r.unwrap_err(), Error::NotFound);
    assert!(db.sessions.is_empty());
}

#[test]
fn start_with_a_taken_session_identity_is_a_storage_error() {
    let mut db = store();
    start_service_at(&mut db, "session-1", at(9, 0), 1, &request("s1", vec![cut(1)], 1)).unwrap();
    let r = start_service_at(&mut db, "session-1", at(9, 5), 2, &request("s1", vec![cut(1)], 1));
    assert_eq!(r.unwrap_err(), Error::Storage);
    assert_eq!(db.sessions.len(), 1);
    assert_eq!(get_seat_by_id(&db, 2).unwrap().status, SeatStatus::Available);
}

#[test]
fn complete_without_a_session_is_not_found() {
    let mut db = store();
    assert_eq!(complete_service_at(&mut db, "entry-1", at(9, 0), 1).unwrap_err(), Error::NotFound);
    assert!(db.ledger.is_empty());
}

#[test]
fn complete_with_a_taken_ledger_identity_changes_nothing() {
    let mut db = store();
    start_service_at(&mut db, "a", at(9, 0), 1, &request("s1", vec![cut(10)], 10)).unwrap();
    complete_service_at(&mut db, "entry-1", at(9, 30), 1).unwrap();
    start_service_at(&mut db, "b", at(10, 0), 1, &request("s1", vec![cut(20)], 20)).unwrap();
    let r = complete_service_at(&mut db, "entry-1", at(10, 30), 1);
    assert_eq!(r.unwrap_err(), Error::Storage);
    assert_eq!(db.ledger.len(), 1);
    assert_eq!(get_seat_by_id(&db, 1).unwrap().status, SeatStatus::InUse);
    assert_eq!(get_session_by_seat_id(&db, 1).unwrap().id, "b");
}

#[test]
fn cancel_frees_the_seat_without_a_record() {
    let mut db = store();
    start_service_at(&mut db, "session-1", at(9, 0), 1, &request("s1", vec![cut(15000)], 15000))
        .unwrap();
    cancel_service_at(&mut db, at(9, 10), 1).unwrap();
    let seat = get_seat_by_id(&db, 1).unwrap();
    assert_eq!(seat.status, SeatStatus::Available);
    assert!(seat.current_session.is_none());
    assert!(db.sessions.is_empty());
    assert!(db.services.is_empty());
    assert!(db.ledger.is_empty());
}

#[test]
fn cancel_without_a_session_is_not_found() {
    let mut db = store();
    assert_eq!(cancel_service_at(&mut db, at(9, 0), 1).unwrap_err(), Error::NotFound);
}

fn reserve(db: &mut Database, id: &str) {
    let req = CreateReservationRequest {
        member_id: None,
        member_name: "Park".to_string(),
        member_phone: None,
        seat_id: Some(1),
        staff_id: "s1".to_string(),
        staff_name: "Kim".to_string(),
        services: vec![cut(15000)],
        total_price: 15000,
        reserved_at: at(9, 0),
        estimated_duration: 30,
    };
    create_reservation(db, id, at(8, 0), &req).unwrap();
}

#[test]
fn a_linked_reservation_follows_the_session() {
    let mut db = store();
    reserve(&mut db, "r1");
    assert_eq!(get_reservation_by_id(&db, "r1").unwrap().status, ReservationStatus::Scheduled);

    let mut req = request("s1", vec![cut(15000)], 15000);
    req.reservation_id = Some("r1".to_string());
    start_service_at(&mut db, "session-1", at(9, 0), 1, &req).unwrap();
    assert_eq!(get_reservation_by_id(&db, "r1").unwrap().status, ReservationStatus::InProgress);

    cancel_service_at(&mut db, at(9, 5), 1).unwrap();
    assert_eq!(get_reservation_by_id(&db, "r1").unwrap().status, ReservationStatus::Scheduled);

    start_service_at(&mut db, "session-2", at(9, 10), 1, &req).unwrap();
    let entry = complete_service_at(&mut db, "entry-1", at(9, 50), 1).unwrap();
    assert_eq!(entry.reservation_id.as_deref(), Some("r1"));
    assert_eq!(get_reservation_by_id(&db, "r1").unwrap().status, ReservationStatus::Completed);
    // The reservation keeps its own line item; the session's is gone and
    // the ledger entry has a copy.
    assert_eq!(get_reservation_by_id(&db, "r1").unwrap().services.len(), 1);
    assert_eq!(db.services.len(), 2);
}

#[test]
fn line_items_are_numbered_upwards_and_never_reused() {
    let mut db = store();
    start_service_at(&mut db, "a", at(9, 0), 1, &request("s1", vec![cut(1), cut(2)], 3)).unwrap();
    let ids: Vec<i32> = get_services_by_session_id(&db, "a").iter().map(|s| s.id).collect();
    assert_eq!(ids, vec![1, 2]);
    cancel_service_at(&mut db, at(9, 5), 1).unwrap();
    start_service_at(&mut db, "b", at(9, 10), 1, &request("s1", vec![cut(3)], 3)).unwrap();
    let ids: Vec<i32> = get_services_by_session_id(&db, "b").iter().map(|s| s.id).collect();
    assert_eq!(ids, vec![3]);
    assert_eq!(db.last_service_id, 3);
}

#[test]
fn running_out_of_line_numbers_is_a_storage_error() {
    let mut db = store();
    db.last_service_id = i32::MAX - 1;
    let r = start_service_at(&mut db, "a", at(9, 0), 1, &request("s1", vec![cut(1), cut(2)], 3));
    assert_eq!(r.unwrap_err(), Error::Storage);
    assert!(db.sessions.is_empty());
    assert!(db.services.is_empty());
    start_service_at(&mut db, "a", at(9, 0), 1, &request("s1", vec![cut(1)], 1)).unwrap();
    assert_eq!(get_services_by_session_id(&db, "a")[0].id, i32::MAX);
}

#[test]
fn create_session_refuses_a_seat_without_a_row() {
    let mut db = store();
    let r = create_session(&mut db, "a", at(9, 0), 42, None, "x", "s1", "Kim", &[], 0, None);
    assert_eq!(r.unwrap_err(), Error::Storage);
}

#[test]
fn delete_session_hands_back_the_session() {
    let mut db = store();
    assert!(delete_session(&mut db, 1).is_none());
    create_session(
        &mut db,
        "a",
        at(9, 0),
        1,
        Some("m1"),
        "Lee",
        "s1",
        "Kim",
        &[cut(5), cut(7)],
        12,
        Some("r1"),
    )
    .unwrap();
    let gone = delete_session(&mut db, 1).unwrap();
    assert_eq!(gone.id, "a");
    assert_eq!(gone.member_id.as_deref(), Some("m1"));
    assert_eq!(gone.reservation_id.as_deref(), Some("r1"));
    assert_eq!(gone.services.len(), 2);
    assert!(db.sessions.is_empty());
    assert!(db.services.is_empty());
}

#[test]
fn sessions_on_other_seats_are_left_alone() {
    let mut db = store();
    start_service_at(&mut db, "a", at(9, 0), 1, &request("s1", vec![cut(1)], 1)).unwrap();
    start_service_at(&mut db, "b", at(9, 1), 2, &request("s2", vec![cut(2)], 2)).unwrap();
    complete_service_at(&mut db, "e", at(9, 30), 1).unwrap();
    let seats = get_seats(&db);
    assert_eq!(seats.len(), 6);
    assert_eq!(seats[0].status, SeatStatus::Available);
    assert_eq!(seats[1].status, SeatStatus::InUse);
    assert_eq!(seats[1].current_session.as_ref().unwrap().id, "b");
    assert_eq!(get_services_by_session_id(&db, "b").len(), 1);
}

#[test]
fn the_clocked_operations_run_the_same_life() {
    let mut db = store();
    let seat = start_service(&mut db, 1, request("s1", vec![cut(15000)], 15000)).unwrap();
    assert_eq!(seat.status, SeatStatus::InUse);
    let session = seat.current_session.unwrap();
    // The identity is a hyphenated UUID, the time a calendar time.
    assert_eq!(session.id.len(), 36);
    assert_eq!(session.id.chars().filter(|c| *c == '-').count(), 4);
    let started = session.start_time;
    assert!(started.year >= 2024);
    assert!((1..=12).contains(&started.month));
    assert!((1..=31).contains(&started.day));
    assert!(started.hour <= 23 && started.minute <= 59 && started.second <= 59);
    assert!(started.nanosecond < 2_000_000_000);
    assert!(started.is_dated());
    let again = start_service(&mut db, 1, request("s1", vec![cut(15000)], 15000));
    assert_eq!(again.unwrap_err(), Error::Conflict);
    let entry = complete_service(&mut db, 1).unwrap();
    assert_eq!(entry.total_price, 15000);
    assert_eq!(entry.id.len(), 36);
    assert_ne!(entry.id, session.id);
    assert!(!entry.completed_at.is_before(&started));
    assert_eq!(get_seat_by_id(&db, 1).unwrap().status, SeatStatus::Available);
    start_service(&mut db, 1, request("s1", vec![], 0)).unwrap();
    cancel_service(&mut db, 1).unwrap();
    assert_eq!(cancel_service(&mut db, 1).unwrap_err(), Error::NotFound);
    assert!(get_seat_by_id(&db, 1).unwrap().current_session.is_none());
}
