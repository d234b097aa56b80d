use timehair::commands::{create_member_with, update_member_at};
use timehair::ledger::{create_ledger_entry, get_ledger_entry_by_id};
use timehair::lines::{get_services_by_ledger_id, get_services_by_session_id};
use timehair::members::delete_member;
use timehair::models::{
    CreateMemberRequest, CreateReservationRequest, SelectedService, ServiceInput, ServiceSession,
    StartServiceRequest, UpdateMemberRequest,
};
use timehair::reservations::{create_reservation, delete_reservation};
use timehair::schema::Database;
use timehair::service::{cancel_service_at, complete_service_at, start_service_at};
use timehair::setup::seed_data;
use timehair::time::Timestamp;
use timehair::wellformed::is_well_formed;

fn at(day: u32) -> Timestamp {
    Timestamp { year: 2024, month: 5, day, hour: 0, minute: 0, second: 0, nanosecond: 0 }
}

fn five() -> [String; 5] {
    ["a".to_string(), "b".to_string(), "c".to_string(), "d".to_string(), "e".to_string()]
}

fn line(name: &str, price: i32) -> ServiceInput {
    ServiceInput { name: name.to_string(), length: None, price }
}

fn busy_store() -> Database {
    let mut db = Database::new();
    seed_data(&mut db, at(1), "u1", "hash", &five()).unwrap();
    let reservation = CreateReservationRequest {
        member_id: None,
        member_name: "Lee".to_string(),
        member_phone: None,
        seat_id: None,
        staff_id: "a".to_string(),
        staff_name: "A".to_string(),
        services: vec![line("cut", 10)],
        total_price: 10,
        reserved_at: at(3),
        estimated_duration: 30,
    };
    create_reservation(&mut db, "r1", at(1), &reservation).unwrap();
    create_reservation(&mut db, "r2", at(1), &reservation).unwrap();
    delete_reservation(&mut db, at(2), "r2");
    for (seat, session) in [(1, "s1"), (2, "s2"), (3, "s3")] {
        let request = StartServiceRequest {
            member_id: None,
            member_name: "Lee".to_string(),
            staff_id: "a".to_string(),
            staff_name: "A".to_string(),
            services: vec![line("cut", 10), line("perm", 20)],
            total_price: 30,
            reservation_id: if seat == 1 { Some("r1".to_string()) } else { None },
        };
        start_service_at(&mut db, session, at(3), seat, &request).unwrap();
    }
    complete_service_at(&mut db, "e1", at(3), 1).unwrap();
    cancel_service_at(&mut db, at(3), 2).unwrap();
    db
}

#[test]
fn what_the_operations_leave_is_well_formed() {
    assert!(is_well_formed(&Database::new()));
    let db = busy_store();
    assert_eq!(db.sessions.len(), 1);
    assert_eq!(db.ledger.len(), 1);
    assert!(is_well_formed(&db));
}

#[test]
fn two_sessions_on_a_seat_are_not_well_formed() {
    let mut db = busy_store();
    let mut second = db.sessions[0].clone();
    second.id = "other".to_string();
    db.sessions.push(second);
    assert!(!is_well_formed(&db));
}

#[test]
fn a_key_twice_is_not_well_formed() {
    let mut db = busy_store();
    let twin = db.staff[0].clone();
    db.staff.push(twin);
    assert!(!is_well_formed(&db));

    let mut db = busy_store();
    let twin = db.seats[0].clone();
    db.seats.push(twin);
    assert!(!is_well_formed(&db));

    let mut db = busy_store();
    let twin = db.ledger[0].clone();
    db.ledger.push(twin);
    assert!(!is_well_formed(&db));
}

#[test]
fn a_session_without_a_seat_is_not_well_formed() {
    let mut db = busy_store();
    db.sessions[0].seat_id = 99;
    assert!(!is_well_formed(&db));
}

#[test]
fn line_items_out_of_order_or_without_owner_are_not_well_formed() {
    let mut db = busy_store();
    db.services.swap(0, 1);
    assert!(!is_well_formed(&db));

    let mut db = busy_store();
    db.last_service_id = db.services.last().unwrap().id - 1;
    assert!(!is_well_formed(&db));

    let mut db = busy_store();
    db.last_service_id = -1;
    db.services.clear();
    assert!(!is_well_formed(&db));

    let mut db = busy_store();
    db.services[0].id = 0;
    assert!(!is_well_formed(&db));

    let mut db = busy_store();
    let n = db.services.len();
    db.services[n - 1].ledger_entry_id = Some("nothing".to_string());
    assert!(!is_well_formed(&db));

    let mut db = busy_store();
    let orphan = SelectedService {
        id: db.last_service_id,
        service_session_id: Some("gone".to_string()),
        reservation_id: None,
        ledger_entry_id: None,
        name: "cut".to_string(),
        length: None,
        price: 1,
    };
    db.services.pop();
    db.services.push(orphan);
    assert!(!is_well_formed(&db));
}

#[test]
fn a_line_item_with_two_owners_or_none_is_not_well_formed() {
    let mut db = busy_store();
    // The entry's line item also names the session that is in progress.
    let session = db.sessions[0].id.clone();
    let of_entry = db.services.iter().position(|s| s.ledger_entry_id.is_some()).unwrap();
    db.services[of_entry].service_session_id = Some(session);
    assert!(!is_well_formed(&db));

    let mut db = busy_store();
    db.services[0].service_session_id = None;
    db.services[0].reservation_id = None;
    db.services[0].ledger_entry_id = None;
    assert!(!is_well_formed(&db));
}

#[test]
fn line_items_that_are_listed_have_the_one_owner_asked_for() {
    let db = busy_store();
    let of_entry = get_services_by_ledger_id(&db, "e1");
    assert_eq!(of_entry.len(), 2);
    for line in of_entry.iter() {
        assert_eq!(line.ledger_entry_id.as_deref(), Some("e1"));
        assert!(line.service_session_id.is_none());
        assert!(line.reservation_id.is_none());
    }
    let of_session = get_services_by_session_id(&db, "s3");
    assert_eq!(of_session.len(), 2);
    for line in of_session.iter() {
        assert!(line.ledger_entry_id.is_none() && line.reservation_id.is_none());
    }
    assert!(get_services_by_ledger_id(&db, "s3").is_empty());
    assert!(get_services_by_session_id(&db, "s1").is_empty());
}

#[test]
fn a_ledger_entry_is_found_by_its_identity() {
    let mut db = Database::new();
    let session = ServiceSession {
        id: "s".to_string(),
        seat_id: 4,
        member_id: None,
        member_name: "Lee".to_string(),
        services: vec![],
        total_price: 77,
        staff_id: "a".to_string(),
        staff_name: "A".to_string(),
        start_time: at(1),
        reservation_id: None,
        created_at: at(1),
        updated_at: at(1),
    };
    create_ledger_entry(&mut db, "e1", at(2), &session).unwrap();
    let found = get_ledger_entry_by_id(&db, "e1").unwrap();
    assert_eq!(found.total_price, 77);
    assert_eq!(found.seat_id, 4);
    assert_eq!(found.completed_at, at(2));
    assert!(get_ledger_entry_by_id(&db, "e2").is_none());
}

#[test]
fn live_members_never_share_a_phone_number() {
    let mut db = Database::new();
    let lee = CreateMemberRequest { name: "Lee".to_string(), phone: "010-1".to_string() };
    let kim = CreateMemberRequest { name: "Kim".to_string(), phone: "010-2".to_string() };
    create_member_with(&mut db, "m1", at(1), &lee).unwrap();
    create_member_with(&mut db, "m2", at(1), &kim).unwrap();
    assert!(create_member_with(&mut db, "m3", at(1), &lee).is_err());
    let steal = UpdateMemberRequest { name: "Kim".to_string(), phone: "010-1".to_string() };
    assert!(update_member_at(&mut db, at(2), "m2", &steal).is_err());
    delete_member(&mut db, at(3), "m1");
    update_member_at(&mut db, at(4), "m2", &steal).unwrap();
    create_member_with(&mut db, "m4", at(5), &kim).unwrap();
    let live: Vec<&str> = db
        .members
        .iter()
        .filter(|r| r.deleted_at.is_none())
        .map(|r| r.member.phone.as_str())
        .collect();
    assert_eq!(live, vec!["010-1", "010-2"]);
}
