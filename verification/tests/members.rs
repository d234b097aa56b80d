use timehair::commands;
use timehair::error::Error;
use timehair::members::{
    add_stamp, create_member, delete_member, get_member_by_id, get_member_by_phone, get_members,
    phone_exists, reset_stamps, update_member,
};
use timehair::models::{CreateMemberRequest, UpdateMemberRequest};
use timehair::schema::Database;
use timehair::time::Timestamp;

fn at(day: u32, hour: u32) -> Timestamp {
    Timestamp { year: 2024, month: 3, day, hour, minute: 0, second: 0, nanosecond: 0 }
}

fn names(db: &Database, search: Option<&str>) -> Vec<String> {
    get_members(db, search).into_iter().map(|m| m.name).collect()
}

#[test]
fn duplicate_phone_is_a_validation_error() {
    let mut db = Database::new();
    let first = CreateMemberRequest { name: "Lee".to_string(), phone: "010-1111-2222".to_string() };
    let member = commands::create_member(&mut db, &first).unwrap();
    assert_eq!(member.phone, "010-1111-2222");
    assert_eq!(member.stamps, 0);
    assert_eq!(member.created_at, member.updated_at);
    let second = CreateMemberRequest { name: "Kim".to_string(), phone: "010-1111-2222".to_string() };
    assert_eq!(commands::create_member(&mut db, &second).unwrap_err(), Error::Validation);
    assert_eq!(db.members.len(), 1);
}

#[test]
fn a_deleted_members_phone_can_be_used_again() {
    let mut db = Database::new();
    let req = CreateMemberRequest { name: "Lee".to_string(), phone: "010-1111-2222".to_string() };
    let first = commands::create_member_with(&mut db, "m1", at(1, 9), &req).unwrap();
    delete_member(&mut db, at(2, 9), &first.id);
    assert!(!phone_exists(&db, "010-1111-2222", None));
    let again = commands::create_member_with(&mut db, "m2", at(3, 9), &req).unwrap();
    assert_eq!(again.id, "m2");
    assert_eq!(get_member_by_phone(&db, "010-1111-2222").unwrap().id, "m2");
}

#[test]
fn a_taken_member_identity_is_a_storage_error() {
    let mut db = Database::new();
    create_member(&mut db, "m1", at(1, 9), "Lee", "1").unwrap();
    assert_eq!(create_member(&mut db, "m1", at(1, 10), "Kim", "2").unwrap_err(), Error::Storage);
    delete_member(&mut db, at(1, 11), "m1");
    assert_eq!(create_member(&mut db, "m1", at(1, 12), "Kim", "2").unwrap_err(), Error::Storage);
    assert_eq!(db.members.len(), 1);
}

#[test]
fn phone_exists_can_leave_one_member_out() {
    let mut db = Database::new();
    create_member(&mut db, "m1", at(1, 9), "Lee", "010-1").unwrap();
    create_member(&mut db, "m2", at(1, 9), "Kim", "010-2").unwrap();
    assert!(phone_exists(&db, "010-1", None));
    assert!(!phone_exists(&db, "010-1", Some("m1")));
    assert!(phone_exists(&db, "010-1", Some("m2")));
    assert!(!phone_exists(&db, "010-3", None));
}

#[test]
fn update_checks_the_phone_against_other_members_only() {
    let mut db = Database::new();
    create_member(&mut db, "m1", at(1, 9), "Lee", "010-1").unwrap();
    create_member(&mut db, "m2", at(1, 9), "Kim", "010-2").unwrap();
    let same = UpdateMemberRequest { name: "Lee Jr".to_string(), phone: "010-1".to_string() };
    let changed = commands::update_member_at(&mut db, at(2, 9), "m1", &same).unwrap();
    assert_eq!(changed.name, "Lee Jr");
    assert_eq!(changed.updated_at, at(2, 9));
    assert_eq!(changed.created_at, at(1, 9));
    let taken = UpdateMemberRequest { name: "Lee".to_string(), phone: "010-2".to_string() };
    assert_eq!(commands::update_member_at(&mut db, at(3, 9), "m1", &taken).unwrap_err(), Error::Validation);
    assert_eq!(commands::update_member(&mut db, "m1", &taken).unwrap_err(), Error::Validation);
    assert_eq!(get_member_by_id(&db, "m1").unwrap().phone, "010-1");
    let free = UpdateMemberRequest { name: "X".to_string(), phone: "010-9".to_string() };
    assert_eq!(commands::update_member_at(&mut db, at(3, 9), "nobody", &free).unwrap_err(), Error::NotFound);
    assert_eq!(update_member(&mut db, at(3, 9), "nobody", "X", "010-9").unwrap_err(), Error::NotFound);
}

#[test]
fn members_are_listed_newest_first() {
    let mut db = Database::new();
    create_member(&mut db, "m1", at(2, 9), "Bora", "010-2").unwrap();
    create_member(&mut db, "m2", at(3, 9), "Chul", "010-3").unwrap();
    create_member(&mut db, "m3", at(1, 9), "Ara", "010-1").unwrap();
    create_member(&mut db, "m4", at(3, 9), "Dami", "010-4").unwrap();
    assert_eq!(names(&db, None), vec!["Chul", "Dami", "Bora", "Ara"]);
    delete_member(&mut db, at(4, 9), "m2");
    assert_eq!(names(&db, None), vec!["Dami", "Bora", "Ara"]);
    assert!(get_member_by_id(&db, "m2").is_none());
    assert!(commands::get_member(&db, "m2").is_err());
    assert_eq!(commands::get_member(&db, "m3").unwrap().name, "Ara");
    assert_eq!(commands::search_member_by_phone(&db, "010-1").unwrap().id, "m3");
    assert_eq!(commands::search_member_by_phone(&db, "010-3").unwrap_err(), Error::NotFound);
}

#[test]
fn search_finds_text_in_name_or_phone() {
    let mut db = Database::new();
    create_member(&mut db, "m1", at(1, 9), "Anna Lee", "010-1111-2222").unwrap();
    create_member(&mut db, "m2", at(2, 9), "Bob Kim", "010-3333-4444").unwrap();
    create_member(&mut db, "m3", at(3, 9), "leeway", "02-555").unwrap();
    assert_eq!(names(&db, Some("lee")), vec!["leeway", "Anna Lee"]);
    assert_eq!(names(&db, Some("LEE")), vec!["leeway", "Anna Lee"]);
    assert_eq!(names(&db, Some("3333")), vec!["Bob Kim"]);
    assert_eq!(names(&db, Some("")), vec!["leeway", "Bob Kim", "Anna Lee"]);
    assert_eq!(names(&db, Some("zzz")), Vec::<String>::new());
    // `_` stands for any one character, `%` for any run.
    assert_eq!(names(&db, Some("b_b")), vec!["Bob Kim"]);
    assert_eq!(names(&db, Some("a%e")), vec!["Anna Lee"]);
    assert_eq!(names(&db, Some("e%a")), vec!["leeway"]);
    assert_eq!(names(&db, Some("010-%-4")), vec!["Bob Kim"]);
}

#[test]
fn stamps_count_up_and_reset() {
    let mut db = Database::new();
    create_member(&mut db, "m1", at(1, 9), "Lee", "010-1").unwrap();
    assert_eq!(add_stamp(&mut db, at(2, 9), "m1").unwrap().stamps, 1);
    let member = add_stamp(&mut db, at(3, 9), "m1").unwrap();
    assert_eq!(member.stamps, 2);
    assert_eq!(member.updated_at, at(3, 9));
    assert_eq!(commands::add_stamp(&mut db, "m1").unwrap().stamps, 3);
    assert_eq!(get_member_by_id(&db, "m1").unwrap().stamps, 3);
    assert_eq!(reset_stamps(&mut db, at(4, 9), "m1").unwrap().stamps, 0);
    assert_eq!(get_member_by_id(&db, "m1").unwrap().stamps, 0);
    assert_eq!(commands::reset_stamps(&mut db, "m1").unwrap().stamps, 0);
    assert_eq!(add_stamp(&mut db, at(5, 9), "m2").unwrap_err(), Error::NotFound);
    assert_eq!(reset_stamps(&mut db, at(5, 9), "m2").unwrap_err(), Error::NotFound);
    assert_eq!(commands::add_stamp(&mut db, "m2").unwrap_err(), Error::NotFound);
}

#[test]
fn a_full_stamp_counter_is_a_storage_error() {
    let mut db = Database::new();
    create_member(&mut db, "m1", at(1, 9), "Lee", "010-1").unwrap();
    db.members[0].member.stamps = i32::MAX;
    assert_eq!(add_stamp(&mut db, at(2, 9), "m1").unwrap_err(), Error::Storage);
    assert_eq!(get_member_by_id(&db, "m1").unwrap().stamps, i32::MAX);
    assert_eq!(get_member_by_id(&db, "m1").unwrap().updated_at, at(1, 9));
}

#[test]
fn deleting_through_the_front_end_hides_the_member() {
    let mut db = Database::new();
    create_member(&mut db, "m1", at(1, 9), "Lee", "010-1").unwrap();
    commands::delete_member(&mut db, "m1");
    assert!(get_member_by_id(&db, "m1").is_none());
    assert!(db.members[0].deleted_at.is_some());
    commands::delete_member(&mut db, "nobody");
    assert_eq!(db.members.len(), 1);
}
