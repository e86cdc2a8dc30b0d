use loomra_core::dates::{parse_date, Date};
use loomra_core::records::HabitCompletionData;
use loomra_core::store::Store;
use loomra_core::text::str_le;

fn completion(id: &str, habit_id: &str, date: &str, completed: bool) -> HabitCompletionData {
    HabitCompletionData {
        id: id.to_string(),
        habit_id: habit_id.to_string(),
        date: date.to_string(),
        completed,
        actual_amount: "1".to_string(),
        target_amount: "1".to_string(),
        completed_at: None,
        note: String::new(),
        mood: None,
        difficulty: None,
        skipped: false,
        created_at: "2024-01-01T00:00:00Z".to_string(),
        updated_at: "2024-01-01T00:00:00Z".to_string(),
    }
}

fn store_with(completions: Vec<HabitCompletionData>) -> Store {
    let mut s = Store::new();
    s.completions = completions;
    s
}

#[test]
fn streak_breaks_at_uncompleted_day() {
    // Mon done, Tue done, Wed missed, Thu done: the streak ends at Wed.
    let s = store_with(vec![
        completion("c1", "h1", "2024-01-01", true),
        completion("c2", "h1", "2024-01-02", true),
        completion("c3", "h1", "2024-01-03", false),
        completion("c4", "h1", "2024-01-04", true),
    ]);
    assert_eq!(s.compute_streak(&"h1".to_string()), 1);
}

#[test]
fn streak_counts_consecutive_days() {
    let s = store_with(vec![
        completion("c1", "h1", "2024-01-01", true),
        completion("c2", "h1", "2024-01-02", true),
        completion("c3", "h1", "2024-01-03", true),
    ]);
    assert_eq!(s.compute_streak(&"h1".to_string()), 3);
}

#[test]
fn streak_of_empty_history_is_zero() {
    let s = store_with(vec![]);
    assert_eq!(s.compute_streak(&"h1".to_string()), 0);
}

#[test]
fn streak_of_single_completed_record_is_one() {
    let s = store_with(vec![completion("c1", "h1", "2024-03-15", true)]);
    assert_eq!(s.compute_streak(&"h1".to_string()), 1);
}

#[test]
fn streak_is_zero_when_latest_not_completed() {
    let s = store_with(vec![
        completion("c1", "h1", "2024-01-01", true),
        completion("c2", "h1", "2024-01-02", false),
    ]);
    assert_eq!(s.compute_streak(&"h1".to_string()), 0);
}

#[test]
fn streak_breaks_at_calendar_gap() {
    let s = store_with(vec![
        completion("c1", "h1", "2024-01-01", true),
        completion("c2", "h1", "2024-01-03", true),
    ]);
    assert_eq!(s.compute_streak(&"h1".to_string()), 1);
}

#[test]
fn streak_crosses_month_boundary() {
    let s = store_with(vec![
        completion("c1", "h1", "2024-01-31", true),
        completion("c2", "h1", "2024-02-01", true),
    ]);
    assert_eq!(s.compute_streak(&"h1".to_string()), 2);
}

#[test]
fn streak_crosses_leap_day() {
    let s = store_with(vec![
        completion("c1", "h1", "2024-02-28", true),
        completion("c2", "h1", "2024-02-29", true),
        completion("c3", "h1", "2024-03-01", true),
    ]);
    assert_eq!(s.compute_streak(&"h1".to_string()), 3);
}

#[test]
fn streak_respects_non_leap_february() {
    let s = store_with(vec![
        completion("c1", "h1", "2023-02-28", true),
        completion("c2", "h1", "2023-03-01", true),
    ]);
    assert_eq!(s.compute_streak(&"h1".to_string()), 2);
    // A "February 29th" in a non-leap year does not even parse.
    assert_eq!(parse_date("2023-02-29"), None);
}

#[test]
fn streak_crosses_year_boundary() {
    let s = store_with(vec![
        completion("c1", "h1", "2023-12-31", true),
        completion("c2", "h1", "2024-01-01", true),
    ]);
    assert_eq!(s.compute_streak(&"h1".to_string()), 2);
}

#[test]
fn streak_ignores_other_habits() {
    let s = store_with(vec![
        completion("c1", "h1", "2024-01-01", true),
        completion("c2", "h2", "2024-01-02", true),
    ]);
    assert_eq!(s.compute_streak(&"h1".to_string()), 1);
    assert_eq!(s.compute_streak(&"h2".to_string()), 1);
    assert_eq!(s.compute_streak(&"h3".to_string()), 0);
}

#[test]
fn streak_does_not_depend_on_stored_order() {
    let s = store_with(vec![
        completion("c3", "h1", "2024-01-03", true),
        completion("c1", "h1", "2024-01-01", true),
        completion("c2", "h1", "2024-01-02", true),
    ]);
    assert_eq!(s.compute_streak(&"h1".to_string()), 3);
}

#[test]
fn parse_date_reads_valid_dates() {
    assert_eq!(
        parse_date("2024-06-09"),
        Some(Date { year: 2024, month: 6, day: 9 })
    );
    assert_eq!(
        parse_date("0001-01-01"),
        Some(Date { year: 1, month: 1, day: 1 })
    );
    assert_eq!(
        parse_date("2024-02-29"),
        Some(Date { year: 2024, month: 2, day: 29 })
    );
}

#[test]
fn parse_date_rejects_malformed_text() {
    assert_eq!(parse_date(""), None);
    assert_eq!(parse_date("2024-6-9"), None);
    assert_eq!(parse_date("2024/06/09"), None);
    assert_eq!(parse_date("2024-13-01"), None);
    assert_eq!(parse_date("2024-00-10"), None);
    assert_eq!(parse_date("2024-04-31"), None);
    assert_eq!(parse_date("2024-01-00"), None);
    assert_eq!(parse_date("not a date"), None);
    assert_eq!(parse_date("2024-01-015"), None);
}

#[test]
fn str_le_orders_dates_like_the_calendar() {
    assert!(str_le("2024-01-01", "2024-01-02"));
    assert!(str_le("2023-12-31", "2024-01-01"));
    assert!(str_le("2024-01-01", "2024-01-01"));
    assert!(!str_le("2024-02-01", "2024-01-31"));
}

#[test]
fn history_query_orders_and_filters() {
    let s = store_with(vec![
        completion("c1", "h1", "2024-01-01", true),
        completion("c3", "h1", "2024-01-03", true),
        completion("c2", "h1", "2024-01-02", false),
        completion("x1", "h2", "2024-01-02", true),
    ]);
    let all = s.get_habit_completions(&"h1".to_string(), &None, &None, None);
    let dates: Vec<&str> = all.iter().map(|c| c.date.as_str()).collect();
    assert_eq!(dates, vec!["2024-01-03", "2024-01-02", "2024-01-01"]);

    let ranged = s.get_habit_completions(
        &"h1".to_string(),
        &Some("2024-01-02".to_string()),
        &Some("2024-01-03".to_string()),
        None,
    );
    let dates: Vec<&str> = ranged.iter().map(|c| c.date.as_str()).collect();
    assert_eq!(dates, vec!["2024-01-03", "2024-01-02"]);

    let limited = s.get_habit_completions(&"h1".to_string(), &None, &None, Some(2));
    assert_eq!(limited.len(), 2);
    assert_eq!(limited[0].date, "2024-01-03");

    // A negative limit means no limit, as in the underlying query.
    let unlimited = s.get_habit_completions(&"h1".to_string(), &None, &None, Some(-1));
    assert_eq!(unlimited.len(), 3);

    let zero = s.get_habit_completions(&"h1".to_string(), &None, &None, Some(0));
    assert_eq!(zero.len(), 0);
}
