use lunch_search::dates::CalendarDate;
use lunch_search::dates::date_timestamp;
use lunch_search::dates::parse_date;
use lunch_search::dates::week_anchors;
use lunch_search::fetch::FetchError;
use lunch_search::fetch::Warning;
use lunch_search::fetch::collect_fetch_results;
use lunch_search::fetch::str_eq;
use lunch_search::fetch::take_day;
use lunch_search::lunch::contains_pattern;
use lunch_search::lunch::count_matches;
use lunch_search::lunch::target_day_offset;
use lunch_search::menu::FoodInfo;
use lunch_search::menu::MenuDay;
use lunch_search::menu::MenuItem;
use lunch_search::menu::build_documents;
use lunch_search::menu::retain_food_items;

fn item(name: &str) -> MenuItem {
    MenuItem {
        text: name.to_string(),
        food: Some(FoodInfo { name: name.to_string(), serving_size_info: None }),
    }
}

fn bare_item(text: &str) -> MenuItem {
    MenuItem { text: text.to_string(), food: None }
}

fn day(date: &str, items: Vec<MenuItem>) -> MenuDay {
    MenuDay { date: date.to_string(), menu_items: items }
}

#[test]
fn anchors_are_week_apart() {
    let anchors = week_anchors(1700000000, 3);
    assert_eq!(anchors, vec![1700000000, 1700604800, 1701209600]);
}

#[test]
fn anchors_single_week() {
    let anchors = week_anchors(0, 1);
    assert_eq!(anchors, vec![0]);
}

#[test]
fn parse_date_accepts_valid() {
    assert_eq!(
        parse_date("2024-01-10"),
        Some(CalendarDate { year: 2024, month: 1, day: 10 })
    );
    assert_eq!(
        parse_date("2024-02-29"),
        Some(CalendarDate { year: 2024, month: 2, day: 29 })
    );
    assert_eq!(
        parse_date("9999-12-31"),
        Some(CalendarDate { year: 9999, month: 12, day: 31 })
    );
}

#[test]
fn parse_date_rejects_invalid() {
    assert_eq!(parse_date("2023-02-29"), None);
    assert_eq!(parse_date("2024-13-01"), None);
    assert_eq!(parse_date("2024-00-10"), None);
    assert_eq!(parse_date("2024-04-31"), None);
    assert_eq!(parse_date("1969-01-01"), None);
    assert_eq!(parse_date("2024-1-10"), None);
    assert_eq!(parse_date("abcd-01-10"), None);
    assert_eq!(parse_date(""), None);
    assert_eq!(parse_date("2024/01/10"), None);
}

#[test]
fn timestamp_is_noon_at_fixed_offset() {
    // 2024-01-10 00:00 UTC is 1704844800; noon at UTC-5 is 17:00 UTC.
    assert_eq!(date_timestamp("2024-01-10"), Some(1704906000));
    assert_eq!(date_timestamp("1970-01-01"), Some(61200));
    assert_eq!(date_timestamp("2024-02-29"), Some(1709226000));
    assert_eq!(date_timestamp("2023-12-31"), Some(1704042000));
    assert_eq!(date_timestamp("not a date"), None);
}

#[test]
fn timestamp_round_trips_to_same_day() {
    let ts = date_timestamp("2024-01-10").unwrap();
    // Read the timestamp back at the fixed UTC-5 offset: the calendar day
    // and time of day must be 2024-01-10, noon.
    let local_seconds = ts - 5 * 3600;
    let day_number = local_seconds.div_euclid(86400);
    let second_of_day = local_seconds.rem_euclid(86400);
    assert_eq!(second_of_day, 12 * 3600);
    // 19732 days after 1970-01-01 is 2024-01-10.
    assert_eq!(day_number, 19732);
}

#[test]
fn collect_keeps_successes_and_warns_failures() {
    let week_a = vec![day("2024-01-10", vec![item("Cheese Pizza")])];
    let week_b = vec![day("2024-01-17", vec![item("Taco")])];
    let results = vec![
        Ok(week_a),
        Err(FetchError::Network("connection reset".to_string())),
        Ok(week_b),
    ];
    let (successes, warnings) = collect_fetch_results(results);
    assert_eq!(successes.len(), 2);
    assert_eq!(successes[0][0].date, "2024-01-10");
    assert_eq!(successes[1][0].date, "2024-01-17");
    assert_eq!(warnings.len(), 1);
    match &warnings[0] {
        Warning::FetchFailed(FetchError::Network(d)) => assert_eq!(d, "connection reset"),
        other => panic!("unexpected warning: {:?}", other),
    }
}

#[test]
fn warning_messages_name_the_failure() {
    let w = Warning::FetchFailed(FetchError::HttpStatus(500));
    assert_eq!(
        w.message(),
        "failed to fetch a week of lunch, result may be missing entries: received non-success status code"
    );
    let w = Warning::CommitFailed("disk full".to_string());
    assert_eq!(
        w.message(),
        "failed to commit index, result may be missing entries: disk full"
    );
    let e = FetchError::NoLunchForDate("2024-01-13".to_string());
    assert_eq!(e.message(), "no lunch found for date 2024-01-13");
}

#[test]
fn take_day_finds_matching_date() {
    let mut week = vec![
        day("2024-01-10", vec![item("Cheese Pizza")]),
        day("2024-01-11", vec![item("Taco")]),
    ];
    let items = take_day(&mut week, "2024-01-11").unwrap();
    assert_eq!(items.len(), 1);
    assert_eq!(items[0].food.as_ref().unwrap().name, "Taco");
    assert_eq!(week.len(), 1);
}

#[test]
fn take_day_errors_on_missing_date() {
    let mut week = vec![day("2024-01-10", vec![item("Cheese Pizza")])];
    match take_day(&mut week, "2024-01-13") {
        Err(FetchError::NoLunchForDate(d)) => assert_eq!(d, "2024-01-13"),
        other => panic!("unexpected result: {:?}", other),
    }
    assert_eq!(week.len(), 1);
}

#[test]
fn str_eq_compares_characters() {
    assert!(str_eq("taco", "taco"));
    assert!(!str_eq("taco", "tacos"));
    assert!(!str_eq("taco", "paco"));
    assert!(str_eq("", ""));
}

#[test]
fn build_documents_one_per_eligible_item() {
    let weeks = vec![
        vec![
            day("2024-01-10", vec![item("Cheese Pizza"), bare_item("Salad Bar")]),
            day("2024-01-11", vec![item("Taco")]),
        ],
        vec![day("2024-01-17", vec![item("Taco")])],
    ];
    let docs = build_documents(&weeks);
    assert_eq!(docs.len(), 3);
    assert_eq!(docs[0].content, "Cheese Pizza");
    assert_eq!(docs[0].date, "2024-01-10");
    assert_eq!(docs[1].content, "Taco");
    assert_eq!(docs[1].date, "2024-01-11");
    assert_eq!(docs[2].content, "Taco");
    assert_eq!(docs[2].date, "2024-01-17");
}

#[test]
fn retain_food_items_drops_unresolved() {
    let days = vec![day(
        "2024-01-10",
        vec![bare_item("Soup of the Day"), item("Cheese Pizza"), bare_item("Dessert")],
    )];
    let kept = retain_food_items(days);
    assert_eq!(kept.len(), 1);
    assert_eq!(kept[0].date, "2024-01-10");
    assert_eq!(kept[0].menu_items.len(), 1);
    assert_eq!(kept[0].menu_items[0].text, "Cheese Pizza");
}

#[test]
fn contains_pattern_finds_substrings() {
    assert!(contains_pattern("when is tuesday lunch", "tues"));
    assert!(!contains_pattern("when is monday lunch", "tues"));
    assert!(contains_pattern("abc", "abc"));
    assert!(!contains_pattern("ab", "abc"));
}

#[test]
fn count_matches_counts_nonoverlapping() {
    assert_eq!(count_matches("tmr tmr tomorrow", "tmr"), 2);
    assert_eq!(count_matches("tomorrow tomorrow", "tomorrow"), 2);
    assert_eq!(count_matches("aaaa", "aa"), 2);
    assert_eq!(count_matches("what lunch", "tmr"), 0);
}

#[test]
fn target_day_offset_matches_weekdays() {
    // Today is Tuesday (1): Friday is three days out.
    assert_eq!(target_day_offset("what lunch friday", 1), 3);
    // Today is Wednesday (2): Monday already passed, so next week's.
    assert_eq!(target_day_offset("what lunch monday", 2), 5);
    // No weekday named: today.
    assert_eq!(target_day_offset("what lunch", 3), 0);
    // Each tmr/tomorrow adds a day.
    assert_eq!(target_day_offset("what lunch tmr", 0), 1);
    assert_eq!(target_day_offset("what lunch tmr tmr", 0), 2);
    assert_eq!(target_day_offset("what lunch tomorrow", 6), 1);
    // A weekday and a tomorrow combine.
    assert_eq!(target_day_offset("what lunch tuesday tmr", 0), 2);
}
