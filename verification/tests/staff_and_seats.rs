use timehair::commands;
use timehair::error::Error;
use timehair::models::{CreateStaffRequest, SeatStatus, UpdateStaffRequest};
use timehair::schema::{Database, SeatRow};
use timehair::seats::{get_seat_by_id, get_seats, update_seat_status};
use timehair::staff::{create_staff, delete_staff, get_staff_by_id, get_staff_list, update_staff};
use timehair::time::Timestamp;

fn at(day: u32) -> Timestamp {
    Timestamp { year: 2024, month: 1, day, hour: 0, minute: 0, second: 0, nanosecond: 0 }
}

fn seat(id: i32, deleted: bool) -> SeatRow {
    SeatRow {
        id,
        name: format!("seat {}", id),
        status: SeatStatus::Available,
        created_at: at(1),
        updated_at: at(1),
        deleted_at: if deleted { Some(at(2)) } else { None },
    }
}

#[test]
fn staff_is_listed_oldest_first() {
    let mut db = Database::new();
    create_staff(&mut db, "s2", at(2), "Bora").unwrap();
    create_staff(&mut db, "s1", at(1), "Ara").unwrap();
    create_staff(&mut db, "s3", at(2), "Chul").unwrap();
    let names: Vec<String> = get_staff_list(&db).into_iter().map(|s| s.name).collect();
    assert_eq!(names, vec!["Ara", "Bora", "Chul"]);
    delete_staff(&mut db, at(3), "s2");
    let names: Vec<String> = get_staff_list(&db).into_iter().map(|s| s.name).collect();
    assert_eq!(names, vec!["Ara", "Chul"]);
    assert!(get_staff_by_id(&db, "s2").is_none());
    assert_eq!(commands::get_staff(&db, "s2").unwrap_err(), Error::NotFound);
    assert_eq!(commands::get_staff(&db, "s3").unwrap().name, "Chul");
}

#[test]
fn staff_is_created_and_renamed() {
    let mut db = Database::new();
    let made = create_staff(&mut db, "s1", at(1), "Ara").unwrap();
    assert_eq!(made.id, "s1");
    assert_eq!(made.created_at, at(1));
    assert_eq!(made.updated_at, at(1));
    assert_eq!(create_staff(&mut db, "s1", at(2), "Bora").unwrap_err(), Error::Storage);
    let renamed = update_staff(&mut db, at(3), "s1", "Ara Kim").unwrap();
    assert_eq!(renamed.name, "Ara Kim");
    assert_eq!(renamed.created_at, at(1));
    assert_eq!(renamed.updated_at, at(3));
    assert_eq!(get_staff_by_id(&db, "s1").unwrap().name, "Ara Kim");
    assert_eq!(update_staff(&mut db, at(3), "s9", "X").unwrap_err(), Error::NotFound);
    delete_staff(&mut db, at(4), "s1");
    assert_eq!(update_staff(&mut db, at(5), "s1", "X").unwrap_err(), Error::NotFound);
}

#[test]
fn the_front_end_draws_staff_identities() {
    let mut db = Database::new();
    let a = commands::create_staff(&mut db, &CreateStaffRequest { name: "Ara".to_string() }).unwrap();
    let b = commands::create_staff(&mut db, &CreateStaffRequest { name: "Bora".to_string() }).unwrap();
    assert_eq!(a.id.len(), 36);
    assert_ne!(a.id, b.id);
    let renamed =
        commands::update_staff(&mut db, &a.id, &UpdateStaffRequest { name: "Ara Kim".to_string() })
            .unwrap();
    assert_eq!(renamed.name, "Ara Kim");
    commands::delete_staff(&mut db, &b.id);
    assert_eq!(get_staff_list(&db).len(), 1);
}

#[test]
fn seats_are_listed_by_number_without_the_deleted() {
    let mut db = Database::new();
    db.seats.push(seat(3, false));
    db.seats.push(seat(1, false));
    db.seats.push(seat(2, true));
    db.seats.push(seat(4, false));
    let numbers: Vec<i32> = get_seats(&db).into_iter().map(|s| s.id).collect();
    assert_eq!(numbers, vec![1, 3, 4]);
    assert!(get_seat_by_id(&db, 2).is_none());
    assert_eq!(commands::get_seat(&db, 2).unwrap_err(), Error::NotFound);
    assert_eq!(commands::get_seat(&db, 3).unwrap().name, "seat 3");
}

#[test]
fn seat_status_is_written_without_any_check() {
    let mut db = Database::new();
    db.seats.push(seat(1, false));
    db.seats.push(seat(2, true));
    for status in [SeatStatus::Reserved, SeatStatus::InUse, SeatStatus::InUse, SeatStatus::Available] {
        update_seat_status(&mut db, at(5), 1, status);
        let seat = get_seat_by_id(&db, 1).unwrap();
        assert_eq!(seat.status, status);
        assert_eq!(seat.updated_at, at(5));
        assert_eq!(seat.created_at, at(1));
    }
    update_seat_status(&mut db, at(6), 2, SeatStatus::InUse);
    assert_eq!(db.seats[1].status, SeatStatus::InUse);
    update_seat_status(&mut db, at(6), 9, SeatStatus::InUse);
    assert_eq!(db.seats.len(), 2);
    assert_eq!(db.seats[0].status, SeatStatus::Available);
}
