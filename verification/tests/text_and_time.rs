use timehair::text::{
    chars_of, fold, like_match, pattern_containing, push_four_digits, push_two_digits, same_text,
    text_at_most,
};
use timehair::time::{is_leap_year, month_length, Date, Timestamp};

fn like(pattern: &str, text: &str) -> bool {
    like_match(&pattern.chars().collect(), &text.chars().collect())
}

fn stamp(year: i32, month: u32, day: u32) -> Timestamp {
    Timestamp { year, month, day, hour: 12, minute: 30, second: 15, nanosecond: 5 }
}

#[test]
fn texts_compare_by_code_point() {
    assert!(text_at_most("", ""));
    assert!(text_at_most("", "a"));
    assert!(!text_at_most("a", ""));
    assert!(text_at_most("abc", "abc"));
    assert!(text_at_most("abc", "abd"));
    assert!(!text_at_most("abd", "abc"));
    assert!(text_at_most("ab", "abc"));
    assert!(!text_at_most("abc", "ab"));
    assert!(text_at_most("Z", "a"));
    assert!(text_at_most("2024-03-15", "2024-03-15"));
    assert!(text_at_most("2024-03-15", "2024-04-01"));
    assert!(!text_at_most("2024-3-15", "2024-03-15"));
    assert!(text_at_most("z", "가"));
    assert!(text_at_most("가", "나"));
    assert!(!text_at_most("나", "가"));
}

#[test]
fn texts_are_equal_by_content() {
    assert!(same_text("", ""));
    assert!(same_text("좌석", "좌석"));
    assert!(!same_text("a", "A"));
    assert!(!same_text("a", "ab"));
    assert_eq!(chars_of("a가b"), vec!['a', '가', 'b']);
}

#[test]
fn like_matches_with_wildcards() {
    assert!(like("", ""));
    assert!(!like("", "a"));
    assert!(like("%", ""));
    assert!(like("%", "anything"));
    assert!(like("%%", ""));
    assert!(!like("_", ""));
    assert!(like("_", "x"));
    assert!(!like("_", "xy"));
    assert!(like("a%", "abc"));
    assert!(like("%c", "abc"));
    assert!(!like("a%", "bac"));
    assert!(like("a_c", "abc"));
    assert!(!like("a_c", "abbc"));
    assert!(like("a%c", "abbc"));
    assert!(like("%b%b%", "abab"));
    assert!(!like("%b%b%b%", "abab"));
    assert!(like("abc", "abc"));
    assert!(!like("abc", "abcd"));
    assert!(!like("abcd", "abc"));
    assert!(like("%a%", "a"));
    assert!(like("%%a", "ba"));
    assert!(like("_%", "a"));
    assert!(!like("_%_", "a"));
}

#[test]
fn like_ignores_the_case_of_ascii_letters_only() {
    assert!(like("ABC", "abc"));
    assert!(like("abc", "ABC"));
    assert!(like("%Lee%", "anna lee"));
    assert!(!like("é", "É"));
    assert!(like("가", "가"));
    assert!(!like("@", "`"));
    assert!(!like("[", "{"));
    assert_eq!(fold('A'), 'a' as u32);
    assert_eq!(fold('Z'), 'z' as u32);
    assert_eq!(fold('a'), 'a' as u32);
    assert_eq!(fold('@'), '@' as u32);
    assert_eq!(fold('['), '[' as u32);
}

#[test]
fn a_search_pattern_wraps_the_text() {
    assert_eq!(pattern_containing("ab"), vec!['%', 'a', 'b', '%']);
    assert_eq!(pattern_containing(""), vec!['%', '%']);
}

#[test]
fn digits_are_written_at_fixed_width() {
    let mut s = String::from("x");
    push_two_digits(&mut s, 7);
    push_two_digits(&mut s, 42);
    push_four_digits(&mut s, 5);
    push_four_digits(&mut s, 2024);
    push_four_digits(&mut s, 9999);
    push_two_digits(&mut s, 0);
    assert_eq!(s, "x074200052024999900");
}

#[test]
fn dates_are_written_as_year_month_day() {
    assert_eq!(stamp(2024, 3, 5).date_string().as_deref(), Some("2024-03-05"));
    assert_eq!(stamp(2024, 12, 31).date_string().as_deref(), Some("2024-12-31"));
    assert_eq!(stamp(7, 1, 1).date_string().as_deref(), Some("0007-01-01"));
    assert_eq!(stamp(0, 1, 1).date_string().as_deref(), Some("0000-01-01"));
    assert_eq!(stamp(9999, 1, 1).date_string().as_deref(), Some("9999-01-01"));
    assert_eq!(stamp(10000, 1, 1).date_string(), None);
    assert_eq!(stamp(-1, 1, 1).date_string(), None);
    assert_eq!(stamp(2024, 0, 1).date_string(), None);
    assert_eq!(stamp(2024, 13, 1).date_string(), None);
    assert_eq!(stamp(2024, 1, 0).date_string(), None);
    assert_eq!(stamp(2024, 1, 32).date_string(), None);
    assert!(stamp(2024, 2, 31).is_dated());
    assert!(!stamp(2024, 2, 32).is_dated());
}

#[test]
fn timestamps_are_ordered_field_by_field() {
    let base = stamp(2024, 3, 5);
    assert!(!base.is_before(&base));
    assert!(stamp(2023, 12, 31).is_before(&base));
    assert!(!base.is_before(&stamp(2023, 12, 31)));
    assert!(stamp(2024, 2, 28).is_before(&base));
    assert!(stamp(2024, 3, 4).is_before(&base));
    let later = [
        Timestamp { hour: 13, minute: 0, second: 0, nanosecond: 0, ..base },
        Timestamp { minute: 31, second: 0, nanosecond: 0, ..base },
        Timestamp { second: 16, nanosecond: 0, ..base },
        Timestamp { nanosecond: 6, ..base },
    ];
    for t in later.iter() {
        assert!(base.is_before(t));
        assert!(!t.is_before(&base));
    }
}

fn local(year: i32, month: u32, day: u32, hour: u32, minute: u32, offset: i32) -> Option<(i32, u32, u32)> {
    Timestamp { year, month, day, hour, minute, second: 59, nanosecond: 0 }
        .local_date(offset)
        .map(|d| (d.year, d.month, d.day))
}

#[test]
fn leap_years_and_month_lengths() {
    assert!(is_leap_year(2024));
    assert!(!is_leap_year(2023));
    assert!(!is_leap_year(1900));
    assert!(is_leap_year(2000));
    assert!(is_leap_year(0));
    let lengths: Vec<u32> = (1..=12).map(|m| month_length(2023, m)).collect();
    assert_eq!(lengths, vec![31, 28, 31, 30, 31, 30, 31, 31, 30, 31, 30, 31]);
    assert_eq!(month_length(2024, 2), 29);
    assert_eq!(month_length(2100, 2), 28);
}

#[test]
fn the_local_day_follows_the_offset_over_midnight() {
    assert_eq!(local(2024, 3, 15, 10, 30, 0), Some((2024, 3, 15)));
    assert_eq!(local(2024, 3, 15, 14, 59, 540), Some((2024, 3, 15)));
    assert_eq!(local(2024, 3, 15, 15, 0, 540), Some((2024, 3, 16)));
    assert_eq!(local(2024, 3, 15, 4, 59, -300), Some((2024, 3, 14)));
    assert_eq!(local(2024, 3, 15, 5, 0, -300), Some((2024, 3, 15)));
    // Ends of months and years, and the 29th of February.
    assert_eq!(local(2024, 2, 28, 23, 30, 60), Some((2024, 2, 29)));
    assert_eq!(local(2023, 2, 28, 23, 30, 60), Some((2023, 3, 1)));
    assert_eq!(local(2024, 3, 1, 0, 30, -60), Some((2024, 2, 29)));
    assert_eq!(local(2023, 3, 1, 0, 30, -60), Some((2023, 2, 28)));
    assert_eq!(local(2023, 12, 31, 23, 0, 60), Some((2024, 1, 1)));
    assert_eq!(local(2024, 1, 1, 0, 0, -1), Some((2023, 12, 31)));
    assert_eq!(local(2024, 4, 30, 23, 59, 1), Some((2024, 5, 1)));
    assert_eq!(local(2024, 5, 1, 0, 0, -1), Some((2024, 4, 30)));
    // More than a day either way.
    assert_eq!(local(2024, 3, 15, 12, 0, 3 * 1440), Some((2024, 3, 18)));
    assert_eq!(local(2024, 3, 15, 12, 0, -15 * 1440), Some((2024, 2, 29)));
    assert_eq!(local(2024, 12, 15, 12, 0, 366 * 1440), Some((2025, 12, 16)));
    // Beyond the years that have a date text, the day is still there.
    assert_eq!(local(9999, 12, 31, 23, 0, 60), Some((10000, 1, 1)));
    assert_eq!(local(0, 1, 1, 0, 0, -1), Some((-1, 12, 31)));
    // A timestamp whose fields name no minute of a day has no local day.
    assert_eq!(local(2024, 3, 15, 24, 0, 0), None);
    assert_eq!(local(2024, 3, 15, 0, 60, 0), None);
    assert_eq!(local(2024, 13, 1, 0, 0, 0), None);
    assert_eq!(local(10000, 1, 1, 0, 0, 0), None);
    let d = Date { year: 2024, month: 3, day: 15 };
    assert_eq!(d, Date { year: 2024, month: 3, day: 15 });
}
