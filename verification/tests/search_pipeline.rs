use lunch_search::index::RawHit;
use lunch_search::query::resolve_hits;
use lunch_search::fetch::FetchError;
use lunch_search::index::build_index;
use lunch_search::menu::FoodInfo;
use lunch_search::menu::MenuDay;
use lunch_search::menu::MenuItem;
use lunch_search::query::RankedHit;
use lunch_search::query::run_query;
use lunch_search::search::SearchError;
use lunch_search::search::SearchOutcome;
use lunch_search::search::run_search;

fn item(name: &str) -> MenuItem {
    MenuItem {
        text: name.to_string(),
        food: Some(FoodInfo { name: name.to_string(), serving_size_info: None }),
    }
}

fn day(date: &str, items: Vec<MenuItem>) -> MenuDay {
    MenuDay { date: date.to_string(), menu_items: items }
}

fn sample_weeks() -> Vec<Result<Vec<MenuDay>, FetchError>> {
    vec![Ok(vec![
        day("2024-01-10", vec![item("Cheese Pizza")]),
        day("2024-01-11", vec![item("Taco")]),
        day("2024-01-12", vec![item("Chicken Taco")]),
    ])]
}

fn resolved_contents(outcome: &SearchOutcome) -> Vec<String> {
    outcome
        .hits
        .iter()
        .map(|h| match h {
            RankedHit::Resolved { content, .. } => content.clone(),
            RankedHit::Unresolved { rank, .. } => panic!("unresolved hit at rank {}", rank),
        })
        .collect()
}

#[test]
fn all_fetches_succeed_no_warnings() {
    let outcome = run_search(sample_weeks(), "taco", 10).unwrap();
    assert!(outcome.warnings.is_empty());
}

#[test]
fn query_returns_matching_documents_only() {
    let outcome = run_search(sample_weeks(), "taco", 10).unwrap();
    let contents = resolved_contents(&outcome);
    assert!(contents.iter().any(|c| c == "Taco"));
    assert!(contents.iter().any(|c| c == "Chicken Taco"));
    assert!(!contents.iter().any(|c| c == "Cheese Pizza"));
}

#[test]
fn one_failed_fetch_one_warning_other_weeks_indexed() {
    let results = vec![
        Ok(vec![day("2024-01-10", vec![item("Taco")])]),
        Err(FetchError::Network("timed out".to_string())),
        Ok(vec![day("2024-01-17", vec![item("Taco Salad")])]),
    ];
    let outcome = run_search(results, "taco", 10).unwrap();
    assert_eq!(outcome.warnings.len(), 1);
    let contents = resolved_contents(&outcome);
    assert_eq!(contents.len(), 2);
    assert!(contents.iter().any(|c| c == "Taco"));
    assert!(contents.iter().any(|c| c == "Taco Salad"));
}

#[test]
fn hits_never_exceed_limit() {
    let results = vec![Ok(vec![
        day("2024-01-10", vec![item("Taco"), item("Fish Taco"), item("Beef Taco")]),
        day("2024-01-11", vec![item("Taco Salad"), item("Chicken Taco")]),
    ])];
    let outcome = run_search(results, "taco", 2).unwrap();
    assert!(outcome.hits.len() <= 2);
    let outcome = run_search(sample_weeks(), "taco", 1).unwrap();
    assert!(outcome.hits.len() <= 1);
}

#[test]
fn hit_timestamp_is_noon_at_fixed_offset_of_stored_date() {
    let results = vec![Ok(vec![day("2024-01-10", vec![item("Taco")])])];
    let outcome = run_search(results, "taco", 10).unwrap();
    assert_eq!(outcome.hits.len(), 1);
    match &outcome.hits[0] {
        RankedHit::Resolved { rank, content, date, timestamp, .. } => {
            assert_eq!(*rank, 0);
            assert_eq!(content, "Taco");
            assert_eq!(date, "2024-01-10");
            assert_eq!(*timestamp, 1704906000);
        },
        other => panic!("unexpected hit: {:?}", hit_label(other)),
    }
}

fn hit_label(h: &RankedHit) -> String {
    match h {
        RankedHit::Resolved { content, .. } => format!("resolved {}", content),
        RankedHit::Unresolved { rank, message } => format!("unresolved {} {}", rank, message),
    }
}

#[test]
fn rebuilding_and_requerying_is_deterministic() {
    let first = run_search(sample_weeks(), "taco", 10).unwrap();
    let second = run_search(sample_weeks(), "taco", 10).unwrap();
    assert_eq!(first.hits.len(), second.hits.len());
    for (a, b) in first.hits.iter().zip(second.hits.iter()) {
        match (a, b) {
            (
                RankedHit::Resolved { rank: r1, content: c1, date: d1, timestamp: t1, score: s1 },
                RankedHit::Resolved { rank: r2, content: c2, date: d2, timestamp: t2, score: s2 },
            ) => {
                assert_eq!(r1, r2);
                assert_eq!(c1, c2);
                assert_eq!(d1, d2);
                assert_eq!(t1, t2);
                assert_eq!(s1, s2);
            },
            _ => panic!("hit shapes differ between runs"),
        }
    }
}

#[test]
fn malformed_query_is_fatal_not_empty() {
    match run_search(sample_weeks(), "\"taco", 10) {
        Err(SearchError::InvalidQuery(_)) => {},
        Ok(outcome) => panic!(
            "malformed query succeeded with {} hits instead of failing",
            outcome.hits.len()
        ),
        Err(other) => panic!("unexpected error kind: {:?}", other),
    }
}

#[test]
fn empty_result_is_valid_success() {
    let outcome = run_search(sample_weeks(), "lasagna", 10).unwrap();
    assert!(outcome.hits.is_empty());
    assert!(outcome.warnings.is_empty());
}

#[test]
fn no_weeks_yields_empty_index() {
    let outcome = run_search(vec![], "taco", 10).unwrap();
    assert!(outcome.hits.is_empty());
    assert!(outcome.warnings.is_empty());
}

#[test]
fn items_without_food_are_not_indexed() {
    let results = vec![Ok(vec![day(
        "2024-01-10",
        vec![
            item("Taco"),
            MenuItem { text: "Taco Bar".to_string(), food: None },
        ],
    )])];
    let outcome = run_search(results, "taco", 10).unwrap();
    let contents = resolved_contents(&outcome);
    assert_eq!(contents, vec!["Taco".to_string()]);
}

#[test]
fn build_index_then_query_directly() {
    let weeks = vec![vec![
        day("2024-01-10", vec![item("Cheese Pizza")]),
        day("2024-01-11", vec![item("Taco")]),
    ]];
    let (index, warnings) = build_index(&weeks).unwrap();
    assert!(warnings.is_empty());
    let (hits, query_warnings) = run_query(&index, "pizza", 10).unwrap();
    assert!(query_warnings.is_empty());
    assert_eq!(hits.len(), 1);
    match &hits[0] {
        RankedHit::Resolved { content, date, .. } => {
            assert_eq!(content, "Cheese Pizza");
            assert_eq!(date, "2024-01-10");
        },
        _ => panic!("expected a resolved hit"),
    }
}

#[test]
fn zero_limit_returns_no_hits() {
    let weeks = vec![vec![day("2024-01-10", vec![item("Taco")])]];
    let (index, _) = build_index(&weeks).unwrap();
    let (hits, warnings) = run_query(&index, "taco", 0).unwrap();
    assert!(hits.is_empty());
    assert!(warnings.is_empty());
}

#[test]
fn unresolvable_documents_become_placeholders() {
    let raw = vec![
        RawHit {
            score: "1.2".to_string(),
            content: Some("Taco".to_string()),
            date: Some("2024-01-10".to_string()),
        },
        RawHit {
            score: "1.1".to_string(),
            content: Some("Burger".to_string()),
            date: Some("not a date".to_string()),
        },
        RawHit { score: "1.0".to_string(), content: None, date: None },
    ];
    let hits = resolve_hits(&raw);
    assert_eq!(hits.len(), 3);
    match &hits[0] {
        RankedHit::Resolved { rank, content, timestamp, score, .. } => {
            assert_eq!(*rank, 0);
            assert_eq!(content, "Taco");
            assert_eq!(*timestamp, 1704906000);
            assert_eq!(score, "1.2");
        },
        _ => panic!("expected the first hit resolved"),
    }
    match &hits[1] {
        RankedHit::Unresolved { rank, message } => {
            assert_eq!(*rank, 1);
            assert_eq!(message, "error retrieving document");
        },
        _ => panic!("expected a placeholder for the corrupt date"),
    }
    match &hits[2] {
        RankedHit::Unresolved { rank, .. } => assert_eq!(*rank, 2),
        _ => panic!("expected a placeholder for the missing fields"),
    }
}
