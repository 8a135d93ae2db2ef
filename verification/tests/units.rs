//! The functions of the library one by one, on chosen values.

use session_cache::command::{Command, Query};
use session_cache::gate::{
    cache_request, can_cache, extract_item_id, hash_request, is_dynamic, page_key_of,
    popularity_query, GateAction, GateEvent,
};
use session_cache::inventory;
use session_cache::keys::{cart_key_of, history_key_of, prefixed, row_key_of};
use session_cache::params::{first_value, has_field, values_of};
use session_cache::reaper::{
    clean_full_sessions, clean_sessions, eviction_commands, session_keys, ReaperAction, ReaperEvent,
};
use session_cache::schedule::{
    cache_rows, schedule_row_cache, store_row, unschedule_commands, RefreshAction, RefreshEvent,
};
use session_cache::session::{add_to_cart, check_token, update_token};
use session_cache::text::{signed_text, unsigned_text};

fn strings(items: &[&str]) -> Vec<String> {
    items.iter().map(|s| s.to_string()).collect()
}

#[test]
fn decimal_text_of_numbers() {
    assert_eq!(unsigned_text(0), "0");
    assert_eq!(unsigned_text(7), "7");
    assert_eq!(unsigned_text(10), "10");
    assert_eq!(unsigned_text(1234567890), "1234567890");
    assert_eq!(unsigned_text(u64::MAX), "18446744073709551615");
    assert_eq!(signed_text(0), "0");
    assert_eq!(signed_text(-1), "-1");
    assert_eq!(signed_text(305), "305");
    assert_eq!(signed_text(i64::MAX), "9223372036854775807");
    assert_eq!(signed_text(i64::MIN), "-9223372036854775808");
}

#[test]
fn keys_are_prefix_and_name() {
    assert_eq!(prefixed("a:", "b"), "a:b");
    assert_eq!(history_key_of("t1"), "viewed:t1");
    assert_eq!(cart_key_of("t1"), "cart:t1");
    assert_eq!(row_key_of("itemX"), "inv:itemX");
    assert_eq!(history_key_of(""), "viewed:");
}

#[test]
fn update_token_with_item_records_the_view() {
    let plan = update_token("t1", "alice", Some("itemX"), 42);
    assert_eq!(plan.len(), 5);
    match &plan[2] {
        Command::SortedAdd { key, member, score } => {
            assert_eq!((key.as_str(), member.as_str(), *score), ("viewed:t1", "itemX", 42));
        }
        other => panic!("unexpected command {:?}", other),
    }
    match &plan[3] {
        Command::SortedTrim { key, start, stop } => {
            assert_eq!((key.as_str(), *start, *stop), ("viewed:t1", 0, -26));
        }
        other => panic!("unexpected command {:?}", other),
    }
    match &plan[4] {
        Command::SortedIncrement { key, member, delta } => {
            assert_eq!((key.as_str(), member.as_str(), *delta), ("viewed:", "itemX", -1));
        }
        other => panic!("unexpected command {:?}", other),
    }
}

#[test]
fn check_token_reads_the_login_hash() {
    match check_token("t1") {
        Query::HashGet { key, field } => assert_eq!((key.as_str(), field.as_str()), ("login:", "t1")),
        other => panic!("unexpected query {:?}", other),
    }
}

#[test]
fn add_to_cart_with_zero_or_less_deletes_the_line() {
    for count in [0, -1, i64::MIN] {
        match add_to_cart("t1", "itemY", count) {
            Command::HashDelete { key, fields } => {
                assert_eq!(key, "cart:t1");
                assert_eq!(fields, strings(&["itemY"]));
            }
            other => panic!("unexpected command {:?}", other),
        }
    }
    match add_to_cart("t1", "no such item", i64::MAX) {
        Command::HashSet { key, field, value } => {
            assert_eq!(key, "cart:t1");
            assert_eq!(field, "no such item");
            assert_eq!(value, "9223372036854775807");
        }
        other => panic!("unexpected command {:?}", other),
    }
}

#[test]
fn reaper_stops_when_cancelled_and_measures_otherwise() {
    assert!(matches!(clean_sessions(5, ReaperEvent::Wake { cancelled: true }), ReaperAction::Stop));
    assert!(matches!(
        clean_full_sessions(5, ReaperEvent::Wake { cancelled: true }),
        ReaperAction::Stop
    ));
    match clean_sessions(5, ReaperEvent::Wake { cancelled: false }) {
        ReaperAction::Measure(Query::SortedCount { key }) => assert_eq!(key, "recent:"),
        other => panic!("unexpected action {:?}", other),
    }
}

fn selected_stop(limit: i64, size: i64) -> Option<i64> {
    match clean_sessions(limit, ReaperEvent::Size(size)) {
        ReaperAction::Sleep { millis } => {
            assert_eq!(millis, 1000);
            None
        }
        ReaperAction::Select(Query::SortedRange { key, start, stop }) => {
            assert_eq!(key, "recent:");
            assert_eq!(start, 0);
            Some(stop)
        }
        other => panic!("unexpected action {:?}", other),
    }
}

#[test]
fn reaper_batch_is_the_excess_capped_at_100() {
    assert_eq!(selected_stop(10, 10), None);
    assert_eq!(selected_stop(10, 3), None);
    assert_eq!(selected_stop(10, 11), Some(0));
    assert_eq!(selected_stop(10, 109), Some(98));
    assert_eq!(selected_stop(10, 110), Some(99));
    assert_eq!(selected_stop(10, 111), Some(99));
    assert_eq!(selected_stop(0, 1_000_000), Some(99));
    assert_eq!(selected_stop(i64::MIN, i64::MAX), Some(99));
    assert_eq!(selected_stop(-1, 0), Some(0));
}

#[test]
fn eviction_removes_what_belongs_to_the_sessions_first() {
    let tokens = strings(&["a", "b"]);
    assert_eq!(session_keys(&tokens, false), strings(&["viewed:a", "viewed:b"]));
    assert_eq!(session_keys(&tokens, true), strings(&["viewed:a", "cart:a", "viewed:b", "cart:b"]));
    let plan = eviction_commands(tokens.clone(), true);
    assert_eq!(plan.len(), 3);
    match (&plan[0], &plan[1], &plan[2]) {
        (
            Command::Delete { keys },
            Command::HashDelete { key: login, fields },
            Command::SortedRemove { key: recent, members },
        ) => {
            assert_eq!(keys, &strings(&["viewed:a", "cart:a", "viewed:b", "cart:b"]));
            assert_eq!(login, "login:");
            assert_eq!(fields, &tokens);
            assert_eq!(recent, "recent:");
            assert_eq!(members, &tokens);
        }
        other => panic!("unexpected plan {:?}", other),
    }
    match clean_sessions(0, ReaperEvent::Batch(tokens.clone())) {
        ReaperAction::Evict(plan) => match &plan[0] {
            Command::Delete { keys } => assert_eq!(keys, &strings(&["viewed:a", "viewed:b"])),
            other => panic!("unexpected command {:?}", other),
        },
        other => panic!("unexpected action {:?}", other),
    }
}

fn field(name: &str, values: &[&str]) -> (String, Vec<String>) {
    (name.to_string(), strings(values))
}

#[test]
fn parameters_are_found_by_name() {
    let fields = vec![field("a", &["1", "2"]), field("item", &["x", "y"]), field("a", &["3"])];
    assert_eq!(values_of(&fields, "a"), Some(&strings(&["1", "2"])));
    assert_eq!(values_of(&fields, "b"), None);
    assert_eq!(first_value(&fields, "item"), Some("x".to_string()));
    assert_eq!(first_value(&fields, "a"), Some("1".to_string()));
    assert_eq!(first_value(&fields, "missing"), None);
    assert_eq!(first_value(&vec![field("e", &[])], "e"), None);
    assert!(has_field(&fields, "item"));
    assert!(!has_field(&fields, "_"));
    assert!(!has_field(&Vec::new(), "item"));
}

#[test]
fn item_and_dynamic_marker_are_read_from_the_query() {
    assert_eq!(extract_item_id("http://test.com/?item=itemX"), Some("itemX".to_string()));
    assert_eq!(extract_item_id("http://test.com/?a=1&item=first&item=second"), Some("first".to_string()));
    assert_eq!(extract_item_id("http://test.com/?item=a%20b"), Some("a b".to_string()));
    assert_eq!(extract_item_id("http://test.com"), None);
    assert_eq!(extract_item_id("http://test.com/?other=1"), None);
    assert_eq!(extract_item_id("http://test.com/?item="), None);
    assert_eq!(extract_item_id("http://test.com/?itemX"), None);
    assert_eq!(extract_item_id(""), None);
    assert!(is_dynamic("http://test.com/?item=itemX&_=1234536"));
    assert!(is_dynamic("http://test.com/?_=1"));
    assert!(!is_dynamic("http://test.com/?item=itemX"));
    assert!(!is_dynamic("http://test.com/?item=_"));
    assert!(!is_dynamic("http://test.com"));
}

#[test]
fn can_cache_needs_item_no_marker_and_rank_below_10000() {
    let url = "http://test.com/?item=itemX";
    assert!(can_cache(url, Some(0)));
    assert!(can_cache(url, Some(9999)));
    assert!(!can_cache(url, Some(10000)));
    assert!(!can_cache(url, Some(u64::MAX)));
    assert!(!can_cache(url, None));
    assert!(!can_cache("http://test.com", Some(0)));
    assert!(!can_cache("http://test.com/?item=itemX&_=1234536", Some(0)));
    assert!(!can_cache("http://test.com/?_=1", Some(0)));
}

#[test]
fn popularity_query_asks_for_the_rank_of_the_item() {
    match popularity_query("http://test.com/?item=itemX") {
        Some(Query::SortedRank { key, member }) => {
            assert_eq!((key.as_str(), member.as_str()), ("viewed:", "itemX"));
        }
        other => panic!("unexpected query {:?}", other),
    }
    assert!(popularity_query("http://test.com").is_none());
    assert!(popularity_query("http://test.com/?item=itemX&_=1").is_none());
}

#[test]
fn hash_request_is_a_decimal_number_that_depends_on_the_request() {
    let a = hash_request("http://test.com/?item=itemX");
    let b = hash_request("http://test.com/?item=itemX");
    let c = hash_request("http://test.com/?item=itemY");
    assert_eq!(a, b);
    assert_ne!(a, c);
    assert_ne!(a, "http://test.com/?item=itemX");
    assert!(!a.is_empty() && a.chars().all(|ch| ch.is_ascii_digit()));
    assert_eq!(a.parse::<u64>().unwrap().to_string(), a);
    assert_eq!(page_key_of("http://test.com/?item=itemX"), format!("cache:{}", a));
}

#[test]
fn cache_request_steps() {
    let url = "http://test.com/?item=itemX";
    let render = |r: &str| format!("page of {}", r);
    assert!(matches!(cache_request(url, GateEvent::Arrived, &render), GateAction::AskRank(_)));
    match cache_request("http://test.com", GateEvent::Arrived, &render) {
        GateAction::Serve { content, store } => {
            assert_eq!(content, "page of http://test.com");
            assert!(store.is_none());
        }
        other => panic!("unexpected action {:?}", other),
    }
    match cache_request(url, GateEvent::Rank(Some(3)), &render) {
        GateAction::AskCached(Query::Get { key }) => assert_eq!(key, page_key_of(url)),
        other => panic!("unexpected action {:?}", other),
    }
    match cache_request(url, GateEvent::Rank(Some(10000)), &render) {
        GateAction::Serve { content, store } => {
            assert_eq!(content, format!("page of {}", url));
            assert!(store.is_none());
        }
        other => panic!("unexpected action {:?}", other),
    }
    match cache_request(url, GateEvent::Cached { rank: Some(3), page: None }, &render) {
        GateAction::Serve { content, store: Some(Command::PutExpiring { key, value, seconds }) } => {
            assert_eq!(content, format!("page of {}", url));
            assert_eq!(key, page_key_of(url));
            assert_eq!(value, content);
            assert_eq!(seconds, 300);
        }
        other => panic!("unexpected action {:?}", other),
    }
    let kept = Some("kept".to_string());
    match cache_request(url, GateEvent::Cached { rank: Some(3), page: kept.clone() }, &render) {
        GateAction::Serve { content, store: Some(Command::PutExpiring { value, seconds, .. }) } => {
            assert_eq!(content, "kept");
            assert_eq!(value, "kept");
            assert_eq!(seconds, 300);
        }
        other => panic!("unexpected action {:?}", other),
    }
    match cache_request(url, GateEvent::Cached { rank: None, page: kept }, &render) {
        GateAction::Serve { content, store } => {
            assert_eq!(content, format!("page of {}", url));
            assert!(store.is_none());
        }
        other => panic!("unexpected action {:?}", other),
    }
}

#[test]
fn schedule_row_cache_notes_delay_and_due_time() {
    let plan = schedule_row_cache("itemX", 5, 1000);
    assert_eq!(plan.len(), 2);
    match (&plan[0], &plan[1]) {
        (
            Command::SortedAdd { key: k0, member: m0, score: s0 },
            Command::SortedAdd { key: k1, member: m1, score: s1 },
        ) => {
            assert_eq!((k0.as_str(), m0.as_str(), *s0), ("delay:", "itemX", 5));
            assert_eq!((k1.as_str(), m1.as_str(), *s1), ("schedule:", "itemX", 1000));
        }
        other => panic!("unexpected plan {:?}", other),
    }
}

#[test]
fn refresh_worker_steps() {
    assert!(matches!(cache_rows(RefreshEvent::Wake { cancelled: true }), RefreshAction::Stop));
    match cache_rows(RefreshEvent::Wake { cancelled: false }) {
        RefreshAction::Peek(Query::SortedRangeScored { key, start, stop }) => {
            assert_eq!((key.as_str(), start, stop), ("schedule:", 0, 0));
        }
        other => panic!("unexpected action {:?}", other),
    }
    assert!(matches!(
        cache_rows(RefreshEvent::Next { entry: None, now: 10 }),
        RefreshAction::Sleep { millis: 50 }
    ));
    assert!(matches!(
        cache_rows(RefreshEvent::Next { entry: Some(("r".to_string(), 11)), now: 10 }),
        RefreshAction::Sleep { millis: 50 }
    ));
    match cache_rows(RefreshEvent::Next { entry: Some(("r".to_string(), 10)), now: 10 }) {
        RefreshAction::ReadDelay { row_id, now, query: Query::SortedScore { key, member } } => {
            assert_eq!((row_id.as_str(), now, key.as_str(), member.as_str()), ("r", 10, "delay:", "r"));
        }
        other => panic!("unexpected action {:?}", other),
    }
    match cache_rows(RefreshEvent::Delay { row_id: "r".to_string(), delay: 5, now: 10 }) {
        RefreshAction::Fetch { row_id, due } => assert_eq!((row_id.as_str(), due), ("r", 15)),
        other => panic!("unexpected action {:?}", other),
    }
    for delay in [0, -1] {
        match cache_rows(RefreshEvent::Delay { row_id: "r".to_string(), delay, now: 10 }) {
            RefreshAction::Unschedule(plan) => {
                assert_eq!(plan.len(), 3);
                match (&plan[0], &plan[1], &plan[2]) {
                    (
                        Command::SortedRemove { key: k0, members: m0 },
                        Command::SortedRemove { key: k1, members: m1 },
                        Command::Delete { keys },
                    ) => {
                        assert_eq!((k0.as_str(), m0), ("delay:", &strings(&["r"])));
                        assert_eq!((k1.as_str(), m1), ("schedule:", &strings(&["r"])));
                        assert_eq!(keys, &strings(&["inv:r"]));
                    }
                    other => panic!("unexpected plan {:?}", other),
                }
            }
            other => panic!("unexpected action {:?}", other),
        }
    }
    assert_eq!(unschedule_commands("r".to_string()).len(), 3);
}

#[test]
fn fetched_row_is_stored_as_json_and_made_due() {
    let record = vec![
        ("name".to_string(), "a \"quoted\" value".to_string()),
        ("id".to_string(), "r".to_string()),
    ];
    match cache_rows(RefreshEvent::Record { row_id: "r".to_string(), due: 15, record }) {
        RefreshAction::Store(plan) => match (&plan[0], &plan[1]) {
            (Command::SortedAdd { key, member, score }, Command::Put { key: row, value }) => {
                assert_eq!((key.as_str(), member.as_str(), *score), ("schedule:", "r", 15));
                assert_eq!(row, "inv:r");
                assert_eq!(value, "{\"id\":\"r\",\"name\":\"a \\\"quoted\\\" value\"}");
            }
            other => panic!("unexpected plan {:?}", other),
        },
        other => panic!("unexpected action {:?}", other),
    }
}

#[test]
fn store_row_fails_where_the_row_was_not_written() {
    let error = serde_json::from_str::<u8>("no number").unwrap_err();
    assert!(matches!(store_row("r".to_string(), 15, Err(error)), RefreshAction::Fail(_)));
    match store_row("r".to_string(), 15, Ok("{}".to_string())) {
        RefreshAction::Store(plan) => match &plan[1] {
            Command::Put { key, value } => assert_eq!((key.as_str(), value.as_str()), ("inv:r", "{}")),
            other => panic!("unexpected command {:?}", other),
        },
        other => panic!("unexpected action {:?}", other),
    }
}

#[test]
fn inventory_row_records_the_time_of_the_read() {
    assert_eq!(
        inventory::get("itemX", 1234),
        vec![
            ("cached".to_string(), "1234".to_string()),
            ("data".to_string(), "data to cache...".to_string()),
            ("id".to_string(), "itemX".to_string()),
        ]
    );
    assert_ne!(inventory::get("itemX", 1234), inventory::get("itemX", 1235));
}
