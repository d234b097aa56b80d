use timehair::commands;
use timehair::error::Error;
use timehair::lines::get_services_by_reservation_id;
use timehair::models::{
    CreateReservationRequest, ReservationQuery, ReservationStatus, ServiceInput,
    UpdateReservationRequest, UpdateReservationStatusRequest,
};
use timehair::reservations::{
    create_reservation, delete_reservation, get_reservation_by_id, get_reservations,
    update_reservation, update_reservation_status,
};
use timehair::schema::Database;
use timehair::time::Timestamp;

fn on(day: u32, hour: u32) -> Timestamp {
    Timestamp { year: 2024, month: 3, day, hour, minute: 0, second: 0, nanosecond: 0 }
}

fn line(name: &str, length: Option<&str>, price: i32) -> ServiceInput {
    ServiceInput { name: name.to_string(), length: length.map(|s| s.to_string()), price }
}

fn request(member: &str, reserved_at: Timestamp) -> CreateReservationRequest {
    CreateReservationRequest {
        member_id: Some("m1".to_string()),
        member_name: member.to_string(),
        member_phone: Some("010-1111-2222".to_string()),
        seat_id: Some(2),
        staff_id: "s1".to_string(),
        staff_name: "Kim".to_string(),
        services: vec![line("cut", None, 15000), line("perm", Some("long"), 80000)],
        total_price: 95000,
        reserved_at,
        estimated_duration: 120,
    }
}

fn query(status: Option<&str>, date: Option<&str>, all: Option<&str>) -> ReservationQuery {
    ReservationQuery {
        status: status.map(|s| s.to_string()),
        date: date.map(|s| s.to_string()),
        all: all.map(|s| s.to_string()),
    }
}

fn ids(db: &Database, q: &ReservationQuery, today: Timestamp) -> Vec<String> {
    get_reservations(db, q, &today).into_iter().map(|r| r.id).collect()
}

#[test]
fn a_created_reservation_is_read_back_as_requested() {
    let mut db = Database::new();
    let req = request("Lee", on(20, 14));
    let made = create_reservation(&mut db, "r1", on(10, 9), &req).unwrap();
    let read = get_reservation_by_id(&db, "r1").unwrap();
    for r in [&made, &read] {
        assert_eq!(r.id, "r1");
        assert_eq!(r.status, ReservationStatus::Scheduled);
        assert_eq!(r.member_id.as_deref(), Some("m1"));
        assert_eq!(r.member_name, "Lee");
        assert_eq!(r.member_phone.as_deref(), Some("010-1111-2222"));
        assert_eq!(r.seat_id, Some(2));
        assert_eq!(r.staff_id, "s1");
        assert_eq!(r.staff_name, "Kim");
        assert_eq!(r.total_price, 95000);
        assert_eq!(r.reserved_at, on(20, 14));
        assert_eq!(r.estimated_duration, 120);
        assert_eq!(r.created_at, on(10, 9));
        assert_eq!(r.updated_at, on(10, 9));
        assert_eq!(r.services.len(), 2);
        assert_eq!(r.services[0].name, "cut");
        assert_eq!(r.services[0].length, None);
        assert_eq!(r.services[0].price, 15000);
        assert_eq!(r.services[1].name, "perm");
        assert_eq!(r.services[1].length.as_deref(), Some("long"));
        assert_eq!(r.services[1].price, 80000);
        assert_eq!(r.services[1].reservation_id.as_deref(), Some("r1"));
        assert_eq!(r.services[1].service_session_id, None);
        assert_eq!(r.services[1].ledger_entry_id, None);
    }
}

#[test]
fn the_front_end_draws_identity_and_time() {
    let mut db = Database::new();
    let made = commands::create_reservation(&mut db, &request("Lee", on(20, 14))).unwrap();
    assert_eq!(made.id.len(), 36);
    assert_eq!(made.status, ReservationStatus::Scheduled);
    let read = commands::get_reservation(&db, &made.id).unwrap();
    assert_eq!(read.member_name, "Lee");
    assert_eq!(read.services.len(), 2);
    assert_eq!(commands::get_reservation(&db, "other").unwrap_err(), Error::NotFound);
    let other = commands::create_reservation(&mut db, &request("Kim", on(20, 15))).unwrap();
    assert_ne!(other.id, made.id);
}

#[test]
fn a_taken_reservation_identity_is_a_storage_error() {
    let mut db = Database::new();
    create_reservation(&mut db, "r1", on(10, 9), &request("Lee", on(20, 14))).unwrap();
    let r = create_reservation(&mut db, "r1", on(10, 10), &request("Kim", on(21, 14)));
    assert_eq!(r.unwrap_err(), Error::Storage);
    assert_eq!(db.reservations.len(), 1);
    assert_eq!(db.services.len(), 2);
}

#[test]
fn update_replaces_fields_and_line_items_but_not_the_status() {
    let mut db = Database::new();
    create_reservation(&mut db, "r1", on(10, 9), &request("Lee", on(20, 14))).unwrap();
    update_reservation_status(&mut db, on(10, 10), "r1", ReservationStatus::InProgress).unwrap();
    let change = UpdateReservationRequest {
        member_id: None,
        member_name: "Lee Jr".to_string(),
        member_phone: None,
        seat_id: None,
        staff_id: "s2".to_string(),
        staff_name: "Park".to_string(),
        services: vec![line("color", None, 50000)],
        total_price: 50000,
        reserved_at: on(22, 10),
        estimated_duration: 60,
    };
    let changed = update_reservation(&mut db, on(11, 9), "r1", &change).unwrap();
    assert_eq!(changed.member_id, None);
    assert_eq!(changed.member_name, "Lee Jr");
    assert_eq!(changed.seat_id, None);
    assert_eq!(changed.staff_id, "s2");
    assert_eq!(changed.total_price, 50000);
    assert_eq!(changed.reserved_at, on(22, 10));
    assert_eq!(changed.estimated_duration, 60);
    assert_eq!(changed.status, ReservationStatus::InProgress);
    assert_eq!(changed.created_at, on(10, 9));
    assert_eq!(changed.updated_at, on(11, 9));
    assert_eq!(changed.services.len(), 1);
    assert_eq!(changed.services[0].name, "color");
    assert_eq!(changed.services[0].id, 3);
    assert_eq!(get_services_by_reservation_id(&db, "r1").len(), 1);
    assert_eq!(update_reservation(&mut db, on(11, 9), "r2", &change).unwrap_err(), Error::NotFound);
    assert_eq!(db.services.len(), 1);
    assert_eq!(commands::update_reservation(&mut db, "r2", &change).unwrap_err(), Error::NotFound);
    assert_eq!(commands::update_reservation(&mut db, "r1", &change).unwrap().services[0].id, 4);
}

#[test]
fn any_status_can_follow_any_status() {
    let mut db = Database::new();
    create_reservation(&mut db, "r1", on(10, 9), &request("Lee", on(20, 14))).unwrap();
    for status in [
        ReservationStatus::Completed,
        ReservationStatus::Scheduled,
        ReservationStatus::Cancelled,
        ReservationStatus::InProgress,
        ReservationStatus::InProgress,
    ] {
        let r = update_reservation_status(&mut db, on(10, 10), "r1", status).unwrap();
        assert_eq!(r.status, status);
        assert_eq!(get_reservation_by_id(&db, "r1").unwrap().status, status);
    }
    let r = update_reservation_status(&mut db, on(10, 10), "nope", ReservationStatus::Completed);
    assert_eq!(r.unwrap_err(), Error::NotFound);
    let req = UpdateReservationStatusRequest { status: ReservationStatus::Cancelled };
    assert_eq!(
        commands::update_reservation_status(&mut db, "r1", &req).unwrap().status,
        ReservationStatus::Cancelled
    );
    assert_eq!(commands::update_reservation_status(&mut db, "nope", &req).unwrap_err(), Error::NotFound);
}

#[test]
fn delete_hides_the_reservation_and_removes_its_line_items() {
    let mut db = Database::new();
    create_reservation(&mut db, "r1", on(10, 9), &request("Lee", on(20, 14))).unwrap();
    create_reservation(&mut db, "r2", on(10, 9), &request("Kim", on(20, 15))).unwrap();
    delete_reservation(&mut db, on(11, 9), "r1");
    assert!(get_reservation_by_id(&db, "r1").is_none());
    assert_eq!(db.reservations.len(), 2);
    assert_eq!(db.reservations[0].deleted_at, Some(on(11, 9)));
    assert!(get_services_by_reservation_id(&db, "r1").is_empty());
    assert_eq!(get_services_by_reservation_id(&db, "r2").len(), 2);
    let r = update_reservation_status(&mut db, on(12, 9), "r1", ReservationStatus::Completed);
    assert_eq!(r.unwrap_err(), Error::NotFound);
    commands::delete_reservation(&mut db, "r2");
    assert!(get_reservation_by_id(&db, "r2").is_none());
    assert!(db.services.is_empty());
}

#[test]
fn listing_filters_by_day_and_status_and_sorts_by_time() {
    let mut db = Database::new();
    create_reservation(&mut db, "late", on(1, 9), &request("A", on(20, 16))).unwrap();
    create_reservation(&mut db, "past", on(1, 9), &request("B", on(5, 10))).unwrap();
    create_reservation(&mut db, "early", on(1, 9), &request("C", on(20, 9))).unwrap();
    create_reservation(&mut db, "next", on(1, 9), &request("D", on(21, 9))).unwrap();
    create_reservation(&mut db, "gone", on(1, 9), &request("E", on(20, 12))).unwrap();
    delete_reservation(&mut db, on(2, 9), "gone");
    update_reservation_status(&mut db, on(2, 9), "late", ReservationStatus::Completed).unwrap();
    let today = on(20, 13);

    // Without a day: from today on.
    assert_eq!(ids(&db, &query(None, None, None), today), vec!["early", "late", "next"]);
    assert_eq!(ids(&db, &query(None, None, Some("false")), today), vec!["early", "late", "next"]);
    // Everything.
    assert_eq!(ids(&db, &query(None, None, Some("true")), today), vec!["past", "early", "late", "next"]);
    // One day, whatever today is.
    assert_eq!(ids(&db, &query(None, Some("2024-03-05"), None), today), vec!["past"]);
    assert_eq!(ids(&db, &query(None, Some("2024-03-20"), Some("true")), today), vec!["early", "late"]);
    assert_eq!(ids(&db, &query(None, Some("2024-3-20"), None), today), Vec::<String>::new());
    // Status.
    assert_eq!(ids(&db, &query(Some("completed"), None, Some("true")), today), vec!["late"]);
    assert_eq!(ids(&db, &query(Some("scheduled"), None, None), today), vec!["early", "next"]);
    assert_eq!(ids(&db, &query(Some("Scheduled"), None, None), today), Vec::<String>::new());
    // Each comes with its line items.
    let listed = get_reservations(&db, &query(None, Some("2024-03-21"), None), &today);
    assert_eq!(listed[0].services.len(), 2);
}

#[test]
fn the_front_end_lists_from_the_current_day() {
    let mut db = Database::new();
    let far = Timestamp { year: 9999, month: 12, day: 31, hour: 0, minute: 0, second: 0, nanosecond: 0 };
    create_reservation(&mut db, "past", on(1, 9), &request("B", on(5, 10))).unwrap();
    create_reservation(&mut db, "far", on(1, 9), &request("C", far)).unwrap();
    let listed = commands::get_reservations(&db, None, None, None);
    assert_eq!(listed.len(), 1);
    assert_eq!(listed[0].id, "far");
    let listed = commands::get_reservations(&db, None, None, Some("true".to_string()));
    assert_eq!(listed.len(), 2);
}
