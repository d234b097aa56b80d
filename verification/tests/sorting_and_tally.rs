use timehair::lines::{
    append_lines, get_services_by_reservation_id, get_services_by_session_id, has_room_for,
    lines_attached_to, remove_lines, LineOwner,
};
use timehair::models::{Member, ServiceInput};
use timehair::schema::Database;
use timehair::sorting::{insert_ranked, sort_ranked};
use timehair::tally::{tally, total_of, Sale};
use timehair::time::Timestamp;

fn at(day: u32) -> Timestamp {
    Timestamp { year: 2024, month: 1, day, hour: 0, minute: 0, second: 0, nanosecond: 0 }
}

fn member(name: &str, day: u32) -> Member {
    Member {
        id: name.to_string(),
        name: name.to_string(),
        phone: String::new(),
        stamps: 0,
        created_at: at(day),
        updated_at: at(day),
    }
}

fn sale(key: &str, label: &str, amount: i32) -> Sale {
    Sale { key: key.to_string(), label: label.to_string(), amount }
}

#[test]
fn sorting_is_stable() {
    let sorted = sort_ranked(vec![
        member("a", 2),
        member("b", 3),
        member("c", 2),
        member("d", 1),
        member("e", 3),
    ]);
    let names: Vec<String> = sorted.into_iter().map(|m| m.name).collect();
    // Newest first; members of the same day in the order given.
    assert_eq!(names, vec!["b", "e", "a", "c", "d"]);
    assert!(sort_ranked(Vec::<Member>::new()).is_empty());
}

#[test]
fn inserting_keeps_the_order() {
    let mut v = vec![member("b", 3), member("a", 2), member("d", 1)];
    insert_ranked(&mut v, member("c", 2));
    insert_ranked(&mut v, member("z", 9));
    insert_ranked(&mut v, member("y", 0));
    let names: Vec<String> = v.into_iter().map(|m| m.name).collect();
    assert_eq!(names, vec!["z", "b", "a", "c", "d", "y"]);
}

#[test]
fn tally_groups_in_order_of_first_occurrence() {
    let groups = tally(&vec![
        sale("b", "Bee", 5),
        sale("a", "Ay", 7),
        sale("b", "Bee again", -2),
        sale("c", "Cee", 0),
        sale("a", "Ay", 1),
    ]);
    let got: Vec<(String, String, i128, usize)> =
        groups.into_iter().map(|g| (g.key, g.label, g.amount, g.count)).collect();
    assert_eq!(
        got,
        vec![
            ("b".to_string(), "Bee".to_string(), 3, 2),
            ("a".to_string(), "Ay".to_string(), 8, 2),
            ("c".to_string(), "Cee".to_string(), 0, 1),
        ]
    );
    assert!(tally(&vec![]).is_empty());
}

#[test]
fn totals_are_exact_beyond_32_bits() {
    let sales = vec![sale("a", "", i32::MAX), sale("a", "", i32::MAX), sale("b", "", 2)];
    assert_eq!(total_of(&sales), 2 * (i32::MAX as i128) + 2);
    assert_eq!(tally(&sales)[0].amount, 2 * (i32::MAX as i128));
    assert_eq!(total_of(&vec![sale("a", "", i32::MIN), sale("a", "", i32::MIN)]), -(1i128 << 32));
    assert_eq!(total_of(&vec![]), 0);
}

#[test]
fn line_items_belong_to_one_owner() {
    let mut db = Database::new();
    let cut = ServiceInput { name: "cut".to_string(), length: Some("short".to_string()), price: 10 };
    let perm = ServiceInput { name: "perm".to_string(), length: None, price: 20 };
    append_lines(&mut db, &LineOwner::Session("x".to_string()), &[cut, perm]);
    let color = ServiceInput { name: "color".to_string(), length: None, price: 30 };
    append_lines(&mut db, &LineOwner::Reservation("x".to_string()), &[color]);
    assert_eq!(db.last_service_id, 3);
    let session = get_services_by_session_id(&db, "x");
    assert_eq!(session.len(), 2);
    assert_eq!(session[0].id, 1);
    assert_eq!(session[0].length.as_deref(), Some("short"));
    assert_eq!(session[1].id, 2);
    let reservation = get_services_by_reservation_id(&db, "x");
    assert_eq!(reservation.len(), 1);
    assert_eq!(reservation[0].id, 3);
    assert_eq!(reservation[0].name, "color");
    assert!(lines_attached_to(&db, &LineOwner::Ledger("x".to_string())).is_empty());
    assert!(get_services_by_session_id(&db, "y").is_empty());
    remove_lines(&mut db, &LineOwner::Session("x".to_string()));
    assert_eq!(db.services.len(), 1);
    assert_eq!(db.services[0].id, 3);
    assert_eq!(db.last_service_id, 3);
}

#[test]
fn room_for_line_items_ends_at_the_highest_number() {
    let mut db = Database::new();
    assert!(has_room_for(&db, 0));
    assert!(has_room_for(&db, i32::MAX as usize));
    assert!(!has_room_for(&db, i32::MAX as usize + 1));
    assert!(!has_room_for(&db, usize::MAX));
    db.last_service_id = i32::MAX;
    assert!(has_room_for(&db, 0));
    assert!(!has_room_for(&db, 1));
}
