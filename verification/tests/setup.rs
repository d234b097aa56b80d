use timehair::auth::login;
use timehair::error::Error;
use timehair::models::{LoginRequest, SeatStatus};
use timehair::schema::Database;
use timehair::seats::get_seats;
use timehair::setup::{
    create_tables, init_database, seed_admin, seed_data, seed_defaults, seed_seats, seed_staff,
    DEFAULT_SEATS, DEFAULT_STAFF,
};
use timehair::staff::{delete_staff, get_staff_list};
use timehair::time::Timestamp;

fn at(day: u32) -> Timestamp {
    Timestamp { year: 2024, month: 1, day, hour: 0, minute: 0, second: 0, nanosecond: 0 }
}

fn five(prefix: &str) -> [String; 5] {
    [
        format!("{}0", prefix),
        format!("{}1", prefix),
        format!("{}2", prefix),
        format!("{}3", prefix),
        format!("{}4", prefix),
    ]
}

#[test]
fn new_tables_are_empty() {
    let db = create_tables();
    assert!(db.users.is_empty());
    assert!(db.members.is_empty());
    assert!(db.staff.is_empty());
    assert!(db.seats.is_empty());
    assert!(db.sessions.is_empty());
    assert!(db.services.is_empty());
    assert!(db.reservations.is_empty());
    assert!(db.ledger.is_empty());
    assert_eq!(db.last_service_id, 0);
}

#[test]
fn a_fresh_store_has_admin_staff_and_seats() {
    let db = init_database().unwrap();
    assert_eq!(db.users.len(), 1);
    assert_eq!(db.users[0].user.username, "admin");
    assert_ne!(db.users[0].user.password, "admin");
    let staff: Vec<String> = get_staff_list(&db).into_iter().map(|s| s.name).collect();
    assert_eq!(staff, vec!["원장", "직원1", "직원2", "직원3", "직원4"]);
    assert_eq!(staff.len(), DEFAULT_STAFF);
    let seats = get_seats(&db);
    assert_eq!(seats.len() as i32, DEFAULT_SEATS);
    for (k, seat) in seats.iter().enumerate() {
        assert_eq!(seat.id, k as i32 + 1);
        assert_eq!(seat.name, format!("{}번 좌석", k + 1));
        assert_eq!(seat.status, SeatStatus::Available);
        assert!(seat.current_session.is_none());
    }
    let request = LoginRequest { username: "admin".to_string(), password: "admin".to_string() };
    assert_eq!(login(&db, &request).unwrap().id, db.users[0].user.id);
    let wrong = LoginRequest { username: "admin".to_string(), password: "nimda".to_string() };
    assert_eq!(login(&db, &wrong).unwrap_err(), Error::Auth);
}

#[test]
fn default_seeding_leaves_a_seeded_store_alone() {
    let mut db = Database::new();
    seed_data(&mut db, at(1), "u1", "hash", &five("s")).unwrap();
    seed_defaults(&mut db).unwrap();
    assert_eq!((db.users.len(), db.staff.len(), db.seats.len()), (1, 5, 6));
    assert_eq!(db.users[0].user.password, "hash");
    assert_eq!(db.users[0].user.updated_at, at(1));
}

#[test]
fn default_seeding_adds_only_what_is_missing() {
    let mut db = Database::new();
    seed_admin(&mut db, "u1", at(1), "hash").unwrap();
    seed_defaults(&mut db).unwrap();
    assert_eq!((db.users.len(), db.staff.len(), db.seats.len()), (1, 5, 6));
    assert_eq!(db.users[0].user.password, "hash");
    assert_eq!(db.staff[0].staff.id.len(), 36);
    assert_ne!(db.staff[0].staff.id, db.staff[1].staff.id);
    assert_eq!(db.staff[4].staff.name, "직원4");
}

#[test]
fn seeding_twice_adds_nothing() {
    let mut db = Database::new();
    seed_data(&mut db, at(1), "u1", "hash", &five("s")).unwrap();
    assert_eq!((db.users.len(), db.staff.len(), db.seats.len()), (1, 5, 6));
    assert_eq!(db.staff[2].staff.id, "s2");
    assert_eq!(db.staff[2].staff.created_at, at(1));
    seed_data(&mut db, at(2), "u2", "hash", &five("t")).unwrap();
    assert_eq!((db.users.len(), db.staff.len(), db.seats.len()), (1, 5, 6));
    assert_eq!(db.users[0].user.id, "u1");
}

#[test]
fn seeding_fills_only_what_is_missing() {
    let mut db = Database::new();
    seed_seats(&mut db, at(1)).unwrap();
    seed_data(&mut db, at(2), "u1", "hash", &five("s")).unwrap();
    assert_eq!(db.seats.len(), 6);
    assert_eq!(db.seats[0].created_at, at(1));
    assert_eq!(db.staff.len(), 5);
    // With all staff deleted, five more are made.
    for id in five("s").iter() {
        delete_staff(&mut db, at(3), id);
    }
    seed_staff(&mut db, &five("t"), at(4)).unwrap();
    assert_eq!(db.staff.len(), 10);
    assert_eq!(get_staff_list(&db).len(), 5);
}

#[test]
fn seeding_refuses_identities_that_are_not_free() {
    let mut db = Database::new();
    let mut twice = five("s");
    twice[4] = "s0".to_string();
    assert_eq!(seed_staff(&mut db, &twice, at(1)).unwrap_err(), Error::Storage);
    assert!(db.staff.is_empty());
    seed_staff(&mut db, &five("s"), at(1)).unwrap();
    for id in five("s").iter() {
        delete_staff(&mut db, at(2), id);
    }
    let mut taken = five("t");
    taken[2] = "s3".to_string();
    assert_eq!(seed_staff(&mut db, &taken, at(3)).unwrap_err(), Error::Storage);
    assert_eq!(db.staff.len(), 5);
}

#[test]
fn seeding_refuses_a_deleted_admin_row_in_the_way() {
    let mut db = Database::new();
    seed_admin(&mut db, "u1", at(1), "hash").unwrap();
    db.users[0].deleted_at = Some(at(2));
    assert_eq!(seed_admin(&mut db, "u2", at(3), "hash").unwrap_err(), Error::Storage);
    assert_eq!(seed_data(&mut db, at(3), "u2", "hash", &five("s")).unwrap_err(), Error::Storage);
    assert!(db.staff.is_empty());
    assert!(db.seats.is_empty());
}

#[test]
fn seeding_refuses_deleted_seats_in_the_way() {
    let mut db = Database::new();
    seed_seats(&mut db, at(1)).unwrap();
    for row in db.seats.iter_mut() {
        row.deleted_at = Some(at(2));
    }
    assert_eq!(seed_seats(&mut db, at(3)).unwrap_err(), Error::Storage);
    assert_eq!(db.seats.len(), 6);
}
