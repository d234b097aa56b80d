use timehair::commands;
use timehair::error::Error;
use timehair::ledger::{
    create_ledger_entry, get_daily_summary, get_ledger_entries, get_ledger_summary, summary_of,
};
use timehair::lines::get_services_by_ledger_id;
use timehair::models::{LedgerEntry, LedgerQuery, SelectedService, ServiceSession};
use timehair::schema::Database;
use timehair::time::Timestamp;

fn on(month: u32, day: u32, hour: u32) -> Timestamp {
    Timestamp { year: 2024, month, day, hour, minute: 30, second: 0, nanosecond: 0 }
}

fn service(name: &str, price: i32) -> SelectedService {
    SelectedService {
        id: 0,
        service_session_id: Some("x".to_string()),
        reservation_id: None,
        ledger_entry_id: None,
        name: name.to_string(),
        length: None,
        price,
    }
}

fn session(staff: (&str, &str), services: Vec<SelectedService>, total: i32) -> ServiceSession {
    ServiceSession {
        id: "x".to_string(),
        seat_id: 1,
        member_id: Some("m1".to_string()),
        member_name: "Lee".to_string(),
        services,
        total_price: total,
        staff_id: staff.0.to_string(),
        staff_name: staff.1.to_string(),
        start_time: on(1, 1, 1),
        reservation_id: Some("r1".to_string()),
        created_at: on(1, 1, 1),
        updated_at: on(1, 1, 1),
    }
}

fn query(
    date: Option<&str>,
    start: Option<&str>,
    end: Option<&str>,
    staff: Option<&str>,
) -> LedgerQuery {
    LedgerQuery {
        date: date.map(|s| s.to_string()),
        start_date: start.map(|s| s.to_string()),
        end_date: end.map(|s| s.to_string()),
        staff_id: staff.map(|s| s.to_string()),
    }
}

/// Five entries: three in March (two on the 15th), one in April, one in
/// March of staff s2.
fn store() -> Database {
    let mut db = Database::new();
    let kim = ("s1", "Kim");
    let park = ("s2", "Park");
    let entries = [
        ("e1", on(3, 15, 10), session(kim, vec![service("cut", 15000)], 15000)),
        ("e2", on(3, 15, 16), session(park, vec![service("cut", 18000), service("perm", 80000)], 98000)),
        ("e3", on(3, 20, 11), session(kim, vec![service("perm", 70000)], 70000)),
        ("e4", on(4, 1, 9), session(kim, vec![service("color", 50000)], 50000)),
        ("e5", on(3, 2, 9), session(park, vec![], 0)),
    ];
    for (id, at, s) in entries.iter() {
        create_ledger_entry(&mut db, id, *at, s).unwrap();
    }
    db
}

fn ids(db: &Database, q: &LedgerQuery) -> Vec<String> {
    get_ledger_entries(db, q).into_iter().map(|e| e.id).collect()
}

#[test]
fn record_copies_the_session_under_new_ownership() {
    let mut db = Database::new();
    let s = session(("s1", "Kim"), vec![service("cut", 15000), service("perm", 80000)], 95000);
    let entry = create_ledger_entry(&mut db, "e1", on(3, 15, 10), &s).unwrap();
    assert_eq!(entry.id, "e1");
    assert_eq!(entry.reservation_id.as_deref(), Some("r1"));
    assert_eq!(entry.member_id.as_deref(), Some("m1"));
    assert_eq!(entry.member_name, "Lee");
    assert_eq!(entry.seat_id, 1);
    assert_eq!(entry.staff_id, "s1");
    assert_eq!(entry.staff_name, "Kim");
    assert_eq!(entry.total_price, 95000);
    assert_eq!(entry.completed_at, on(3, 15, 10));
    assert_eq!(entry.created_at, on(3, 15, 10));
    assert_eq!(entry.services.len(), 2);
    assert_eq!(entry.services[0].id, 1);
    assert_eq!(entry.services[1].id, 2);
    assert_eq!(entry.services[1].name, "perm");
    assert_eq!(entry.services[1].price, 80000);
    assert_eq!(entry.services[1].ledger_entry_id.as_deref(), Some("e1"));
    assert_eq!(entry.services[1].service_session_id, None);
    assert_eq!(get_services_by_ledger_id(&db, "e1").len(), 2);
    assert!(get_services_by_ledger_id(&db, "e2").is_empty());
    assert_eq!(create_ledger_entry(&mut db, "e1", on(3, 15, 11), &s).unwrap_err(), Error::Storage);
    assert_eq!(db.ledger.len(), 1);
    assert_eq!(db.services.len(), 2);
}

#[test]
fn entries_are_listed_latest_first() {
    let db = store();
    assert_eq!(ids(&db, &query(None, None, None, None)), vec!["e4", "e3", "e2", "e1", "e5"]);
}

#[test]
fn entries_are_selected_by_day_range_and_staff() {
    let db = store();
    assert_eq!(ids(&db, &query(Some("2024-03-15"), None, None, None)), vec!["e2", "e1"]);
    assert_eq!(ids(&db, &query(Some("2024-03-15"), None, None, Some("s1"))), vec!["e1"]);
    assert_eq!(ids(&db, &query(None, Some("2024-03-15"), Some("2024-03-31"), None)), vec!["e3", "e2", "e1"]);
    assert_eq!(ids(&db, &query(None, Some("2024-03-15"), Some("2024-03-15"), None)), vec!["e2", "e1"]);
    assert_eq!(ids(&db, &query(None, Some("2024-03-21"), Some("2024-03-01"), None)), Vec::<String>::new());
    // A day wins over a range; half a range is no range.
    assert_eq!(ids(&db, &query(Some("2024-04-01"), Some("2024-03-01"), Some("2024-03-31"), None)), vec!["e4"]);
    assert_eq!(ids(&db, &query(None, Some("2024-03-16"), None, None)).len(), 5);
    assert_eq!(ids(&db, &query(None, None, Some("2024-03-16"), Some("s2"))), vec!["e2", "e5"]);
    // Days are compared as texts.
    assert_eq!(ids(&db, &query(None, Some("2024-03"), Some("2024-04"), None)), vec!["e3", "e2", "e1", "e5"]);
    assert_eq!(ids(&db, &query(Some("2024-3-15"), None, None, None)), Vec::<String>::new());
    assert_eq!(ids(&db, &query(None, None, None, Some("s3"))), Vec::<String>::new());
    let listed = commands::get_ledger_entries(&db, None, None, None, Some("s2".to_string()));
    assert_eq!(listed.len(), 2);
    assert_eq!(listed[0].services.len(), 2);
}

#[test]
fn summary_totals_the_selected_entries() {
    let db = store();
    let all = get_ledger_summary(&db, &query(None, None, None, None)).unwrap();
    assert_eq!(all.total_revenue, 15000 + 98000 + 70000 + 50000);
    assert_eq!(all.total_count, 5);
    let day = get_ledger_summary(&db, &query(Some("2024-03-15"), None, None, None)).unwrap();
    assert_eq!(day.total_revenue, 113000);
    assert_eq!(day.total_count, 2);
    let kim = get_ledger_summary(&db, &query(None, Some("2024-03-01"), Some("2024-03-31"), Some("s1")))
        .unwrap();
    assert_eq!(kim.total_revenue, 85000);
    assert_eq!(kim.total_count, 2);
    let none = get_ledger_summary(&db, &query(Some("2023-01-01"), None, None, None)).unwrap();
    assert_eq!(none.total_revenue, 0);
    assert_eq!(none.total_count, 0);
    assert!(none.by_staff.is_empty());
    assert!(none.by_service.is_empty());
    let front = commands::get_ledger_summary(&db, Some("2024-03-15".to_string()), None, None).unwrap();
    assert_eq!(front.total_revenue, 113000);
}

#[test]
fn summary_breaks_down_by_staff_and_by_service_name() {
    let db = store();
    let s = get_ledger_summary(&db, &query(None, None, None, None)).unwrap();
    // Listed latest first: e4 (Kim), e3 (Kim), e2 (Park), e1 (Kim), e5 (Park).
    assert_eq!(s.by_staff.len(), 2);
    assert_eq!(s.by_staff[0].staff_id, "s1");
    assert_eq!(s.by_staff[0].staff_name, "Kim");
    assert_eq!(s.by_staff[0].revenue, 135000);
    assert_eq!(s.by_staff[0].count, 3);
    assert_eq!(s.by_staff[1].staff_id, "s2");
    assert_eq!(s.by_staff[1].staff_name, "Park");
    assert_eq!(s.by_staff[1].revenue, 98000);
    assert_eq!(s.by_staff[1].count, 2);
    // Same name, different prices: one line.
    assert_eq!(s.by_service.len(), 3);
    assert_eq!(s.by_service[0].service_name, "color");
    assert_eq!((s.by_service[0].count, s.by_service[0].revenue), (1, 50000));
    assert_eq!(s.by_service[1].service_name, "perm");
    assert_eq!((s.by_service[1].count, s.by_service[1].revenue), (2, 150000));
    assert_eq!(s.by_service[2].service_name, "cut");
    assert_eq!((s.by_service[2].count, s.by_service[2].revenue), (2, 33000));
}

fn entry(staff: (&str, &str), services: Vec<SelectedService>, total: i32) -> LedgerEntry {
    LedgerEntry {
        id: "e".to_string(),
        reservation_id: None,
        member_id: None,
        member_name: "x".to_string(),
        seat_id: 1,
        staff_id: staff.0.to_string(),
        staff_name: staff.1.to_string(),
        services,
        total_price: total,
        completed_at: on(3, 1, 1),
        created_at: on(3, 1, 1),
    }
}

#[test]
fn a_staff_member_shows_under_the_first_name_seen() {
    let s = summary_of(&vec![
        entry(("s1", "Kim"), vec![], 10),
        entry(("s1", "Kim (new)"), vec![], 5),
    ])
    .unwrap();
    assert_eq!(s.by_staff.len(), 1);
    assert_eq!(s.by_staff[0].staff_name, "Kim");
    assert_eq!(s.by_staff[0].revenue, 15);
    assert_eq!(s.by_staff[0].count, 2);
}

#[test]
fn figures_that_do_not_fit_are_a_storage_error() {
    let big = i32::MAX;
    let total = summary_of(&vec![entry(("s1", "Kim"), vec![], big), entry(("s2", "Park"), vec![], 1)]);
    assert_eq!(total.unwrap_err(), Error::Storage);
    let service = summary_of(&vec![
        entry(("s1", "Kim"), vec![service("cut", big)], 0),
        entry(("s2", "Park"), vec![service("cut", 1)], 0),
    ]);
    assert_eq!(service.unwrap_err(), Error::Storage);
    let negative = summary_of(&vec![
        entry(("s1", "Kim"), vec![], i32::MIN),
        entry(("s1", "Kim"), vec![], -1),
        entry(("s2", "Park"), vec![], 1000),
    ]);
    assert_eq!(negative.unwrap_err(), Error::Storage);
    // Sums that pass the limit on the way but end within it are fine.
    let back = summary_of(&vec![
        entry(("s1", "Kim"), vec![], big),
        entry(("s2", "Park"), vec![], big),
        entry(("s1", "Kim"), vec![], -big),
    ])
    .unwrap();
    assert_eq!(back.total_revenue, big);
    assert_eq!(back.by_staff[0].revenue, 0);
    assert_eq!(back.by_staff[1].revenue, big);
}

#[test]
fn daily_summary_groups_a_month_by_day() {
    let db = store();
    let march = get_daily_summary(&db, 2024, 3, 0).unwrap();
    let lines: Vec<(String, i32, i32)> =
        march.into_iter().map(|d| (d.date, d.revenue, d.count)).collect();
    assert_eq!(
        lines,
        vec![
            ("2024-03-02".to_string(), 0, 1),
            ("2024-03-15".to_string(), 113000, 2),
            ("2024-03-20".to_string(), 70000, 1),
        ]
    );
    let april = get_daily_summary(&db, 2024, 4, 0).unwrap();
    assert_eq!(april.len(), 1);
    assert_eq!(april[0].date, "2024-04-01");
    assert_eq!(april[0].revenue, 50000);
    assert!(get_daily_summary(&db, 2023, 3, 0).unwrap().is_empty());
    assert!(get_daily_summary(&db, 2024, 13, 0).unwrap().is_empty());
    assert!(get_daily_summary(&db, 2024, 0, 0).unwrap().is_empty());
    assert!(get_daily_summary(&db, -2024, 3, 0).unwrap().is_empty());
}

#[test]
fn daily_summary_that_does_not_fit_is_a_storage_error() {
    let mut db = Database::new();
    let s = session(("s1", "Kim"), vec![], i32::MAX);
    create_ledger_entry(&mut db, "e1", on(3, 15, 10), &s).unwrap();
    create_ledger_entry(&mut db, "e2", on(3, 15, 11), &s).unwrap();
    assert_eq!(get_daily_summary(&db, 2024, 3, 0).unwrap_err(), Error::Storage);
    assert!(get_daily_summary(&db, 2024, 4, 0).unwrap().is_empty());
}

#[test]
fn daily_summary_defaults_to_the_month_given_as_today() {
    let db = store();
    let today = on(4, 9, 9);
    let april = commands::get_daily_summary_at(&db, &today, None, None, 0).unwrap();
    assert_eq!(april.len(), 1);
    assert_eq!(april[0].date, "2024-04-01");
    let march = commands::get_daily_summary_at(&db, &today, None, Some(3), 0).unwrap();
    assert_eq!(march.len(), 3);
    let other_year = commands::get_daily_summary_at(&db, &today, Some(2023), None, 0).unwrap();
    assert!(other_year.is_empty());
    let clocked = commands::get_daily_summary(&db, Some(2024), Some(3), 0).unwrap();
    assert_eq!(clocked.len(), 3);
    assert!(commands::get_daily_summary(&db, Some(1999), None, 0).unwrap().is_empty());
}

#[test]
fn a_timestamp_without_a_date_passes_no_day_filter() {
    let mut db = Database::new();
    let odd = Timestamp { year: 12024, month: 3, day: 15, hour: 0, minute: 0, second: 0, nanosecond: 0 };
    create_ledger_entry(&mut db, "e1", odd, &session(("s1", "Kim"), vec![], 5)).unwrap();
    assert_eq!(ids(&db, &query(None, None, None, None)), vec!["e1"]);
    assert!(ids(&db, &query(None, Some("0000-01-01"), Some("9999-12-31"), None)).is_empty());
    assert!(get_daily_summary(&db, 12024, 3, 0).unwrap().is_empty());
}

fn days(db: &Database, year: i32, month: u32, offset: i32) -> Vec<(String, i32, i32)> {
    get_daily_summary(db, year, month, offset)
        .unwrap()
        .into_iter()
        .map(|d| (d.date, d.revenue, d.count))
        .collect()
}

#[test]
fn daily_summary_takes_the_day_from_the_local_clock() {
    let db = store();
    // Nine hours ahead of UTC: the completion at 16:30 falls on the next day.
    assert_eq!(
        days(&db, 2024, 3, 540),
        vec![
            ("2024-03-02".to_string(), 0, 1),
            ("2024-03-15".to_string(), 15000, 1),
            ("2024-03-16".to_string(), 98000, 1),
            ("2024-03-20".to_string(), 70000, 1),
        ]
    );
    assert_eq!(days(&db, 2024, 4, 540), vec![("2024-04-01".to_string(), 50000, 1)]);
    // Ten hours behind: the completions at 09:30 fall on the day before,
    // that of the first of April into March.
    assert_eq!(
        days(&db, 2024, 3, -600),
        vec![
            ("2024-03-01".to_string(), 0, 1),
            ("2024-03-15".to_string(), 113000, 2),
            ("2024-03-20".to_string(), 70000, 1),
            ("2024-03-31".to_string(), 50000, 1),
        ]
    );
    assert!(days(&db, 2024, 4, -600).is_empty());
    // Every entry is counted in exactly one month.
    let all: i32 = (1..=12).map(|m| days(&db, 2024, m, -600).iter().map(|d| d.2).sum::<i32>()).sum();
    assert_eq!(all, 5);
}

#[test]
fn daily_summary_defaults_to_the_local_month() {
    let db = store();
    // The last evening of March in UTC is the first of April nine hours ahead.
    let today = Timestamp { year: 2024, month: 3, day: 31, hour: 20, minute: 0, second: 0, nanosecond: 0 };
    let local = commands::get_daily_summary_at(&db, &today, None, None, 540).unwrap();
    assert_eq!(local.len(), 1);
    assert_eq!(local[0].date, "2024-04-01");
    let utc = commands::get_daily_summary_at(&db, &today, None, None, 0).unwrap();
    assert_eq!(utc.len(), 3);
    // New Year's Eve in UTC is already January nine hours ahead.
    let eve = Timestamp { year: 2023, month: 12, day: 31, hour: 15, minute: 0, second: 0, nanosecond: 0 };
    assert!(commands::get_daily_summary_at(&db, &eve, None, Some(3), 0).unwrap().is_empty());
    assert_eq!(commands::get_daily_summary_at(&db, &eve, None, Some(3), 540).unwrap().len(), 4);
}
