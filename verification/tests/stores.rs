use chopd::context::ContextStore;
use chopd::fields::Fields;
use chopd::logs::{LogEntry, LogStore};
use chopd::retention::{
    expired, push_capped, retain_unexpired, Retained, MAX_ENTRIES, TTL_MILLIS,
};

fn entry(id: &str, at: i64) -> LogEntry {
    LogEntry {
        request_id: id.to_string(),
        method: "GET".to_string(),
        url: format!("/{}", id),
        headers: Fields::new(),
        body: None,
        timestamp: at,
        response: None,
        contexts: None,
    }
}

fn ids(entries: &Vec<LogEntry>) -> Vec<String> {
    entries.iter().map(|e| e.request_id.clone()).collect()
}

#[test]
fn retention_constants() {
    assert_eq!(MAX_ENTRIES, 1000);
    assert_eq!(TTL_MILLIS, 60 * 60 * 1000);
}

#[test]
fn appending_1001_entries_leaves_the_newest_1000() {
    let mut store = LogStore::new();
    for i in 0..1001 {
        store.append(entry(&format!("r{}", i), i));
    }
    assert_eq!(store.len(), 1000);
    let held = ids(&store.snapshot());
    let expected: Vec<String> = (1..1001).map(|i| format!("r{}", i)).collect();
    assert_eq!(held, expected);
}

#[test]
fn the_cap_does_not_look_at_age() {
    let mut store = LogStore::new();
    store.append(entry("young", 1_000_000));
    for i in 0..1000 {
        store.append(entry(&format!("old{}", i), 0));
    }
    let held = ids(&store.snapshot());
    assert_eq!(held.len(), 1000);
    assert_eq!(held[0], "old0");
    assert!(!held.contains(&"young".to_string()));
}

#[test]
fn exactly_1000_entries_are_all_kept() {
    let mut store = LogStore::new();
    for i in 0..1000 {
        store.append(entry(&format!("r{}", i), i));
    }
    assert_eq!(store.len(), 1000);
    assert_eq!(store.snapshot()[0].request_id, "r0");
}

#[test]
fn eviction_removes_what_has_reached_the_age_limit() {
    let mut store = LogStore::new();
    store.append(entry("older", 0));
    store.append(entry("at-limit", 1));
    store.append(entry("younger", 2));
    store.append(entry("future", 9_000_000));
    store.evict_expired(3_600_001, TTL_MILLIS);
    assert_eq!(ids(&store.snapshot()), vec!["younger".to_string(), "future".to_string()]);
}

#[test]
fn eviction_keeps_a_lone_young_entry_and_drops_a_lone_old_one() {
    let mut store = LogStore::new();
    store.append(entry("only", 10));
    store.evict_expired(3_600_009, TTL_MILLIS);
    assert_eq!(ids(&store.snapshot()), vec!["only".to_string()]);
    store.evict_expired(3_600_010, TTL_MILLIS);
    assert_eq!(store.len(), 0);
    store.evict_expired(3_600_010, TTL_MILLIS);
    assert_eq!(store.len(), 0);
}

#[test]
fn eviction_keeps_the_order_of_what_stays() {
    let mut store = LogStore::new();
    for (i, at) in [50, 0, 60, 1, 70, 2].iter().enumerate() {
        store.append(entry(&format!("r{}", i), *at));
    }
    store.evict_expired(40, 30);
    assert_eq!(ids(&store.snapshot()), vec!["r0".to_string(), "r2".to_string(), "r4".to_string()]);
}

#[test]
fn eviction_does_not_overflow_at_the_ends_of_the_clock() {
    assert!(expired(i64::MIN, i64::MAX, u64::MAX));
    assert!(!expired(i64::MAX, i64::MIN, 0));
    assert!(expired(5, 5, 0));
    assert!(!expired(5, 5, 1));
    assert!(expired(0, 3_600_000, TTL_MILLIS));
    assert!(!expired(0, 3_599_999, TTL_MILLIS));
}

#[test]
fn generic_cap_and_eviction_on_plain_pairs() {
    let mut pairs: Vec<(i64, String)> = Vec::new();
    for i in 0..5 {
        push_capped(&mut pairs, (i, format!("n{}", i)), 3);
    }
    assert_eq!(
        pairs,
        vec![(2, "n2".to_string()), (3, "n3".to_string()), (4, "n4".to_string())]
    );
    retain_unexpired(&mut pairs, 13, 10);
    assert_eq!(pairs, vec![(4, "n4".to_string())]);
    push_capped(&mut pairs, (9, "z".to_string()), 0);
    assert_eq!(pairs, vec![(9, "z".to_string())]);
}

#[test]
fn snapshot_is_a_copy() {
    let mut store = LogStore::new();
    store.append(entry("a", 1));
    let before = store.snapshot();
    store.append(entry("b", 2));
    assert_eq!(ids(&before), vec!["a".to_string()]);
    assert_eq!(ids(&store.snapshot()), vec!["a".to_string(), "b".to_string()]);
}

#[test]
fn fragments_are_read_back_in_the_order_reported() {
    let mut contexts = ContextStore::new();
    contexts.append("R".to_string(), "a".to_string());
    contexts.append("S".to_string(), "x".to_string());
    contexts.append("R".to_string(), "b".to_string());
    assert_eq!(contexts.get(&"R".to_string()), Some(vec!["a".to_string(), "b".to_string()]));
    assert_eq!(contexts.get(&"S".to_string()), Some(vec!["x".to_string()]));
    assert_eq!(contexts.get(&"T".to_string()), None);

    let read = contexts.merge_into(&vec![entry("R", 1), entry("T", 2), entry("S", 3)]);
    assert_eq!(read.len(), 3);
    assert_eq!(read[0].contexts, Some(vec!["a".to_string(), "b".to_string()]));
    assert_eq!(read[1].contexts, None);
    assert_eq!(read[2].contexts, Some(vec!["x".to_string()]));
    assert_eq!(ids(&read), vec!["R".to_string(), "T".to_string(), "S".to_string()]);
}

#[test]
fn duplicate_fragments_are_stored_as_they_come() {
    let mut contexts = ContextStore::new();
    contexts.append("R".to_string(), "a".to_string());
    contexts.append("R".to_string(), "a".to_string());
    contexts.append("R".to_string(), String::new());
    assert_eq!(
        contexts.get(&"R".to_string()),
        Some(vec!["a".to_string(), "a".to_string(), String::new()])
    );
}

#[test]
fn an_empty_store_sets_no_context() {
    let contexts = ContextStore::new();
    let read = contexts.merge_into(&vec![entry("R", 1)]);
    assert_eq!(read[0].contexts, None);
    assert!(contexts.merge_into(&Vec::new()).is_empty());
}

#[test]
fn a_retained_log_obeys_both_rules() {
    let mut log: Retained<(i64, String)> = Retained::new();
    assert_eq!(log.len(), 0);
    for i in 0..1003 {
        log.append((i, format!("n{}", i)));
    }
    assert_eq!(log.len(), 1000);
    assert_eq!(log.entries()[0], (3, "n3".to_string()));
    assert_eq!(log.entries()[999], (1002, "n1002".to_string()));
    log.evict_expired(1100, 100);
    assert_eq!(log.len(), 2);
    assert_eq!(log.entries(), &vec![(1001, "n1001".to_string()), (1002, "n1002".to_string())]);
    log.clear();
    assert_eq!(log.len(), 0);
    log.evict_expired(0, 0);
    assert!(log.entries().is_empty());
}
