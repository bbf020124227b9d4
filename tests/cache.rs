use dioxus_query::{CachedResult, QueryRegistry, QueryResult, RegistryEntry, STALE_TIME};

const USER_1: u64 = 1;
const USER_2: u64 = 2;
const FETCH_USER: u64 = 10;
const FETCH_OTHER: u64 = 11;

type Registry = QueryRegistry<i32, String, &'static str>;

fn entry(keys: &[u64], fn_id: u64) -> RegistryEntry {
    RegistryEntry::new(keys.to_vec(), fn_id)
}

fn value_at<'a>(reg: &'a Registry, e: &RegistryEntry) -> &'a CachedResult<i32, String> {
    let i = reg.find(e).expect("record is registered");
    &reg.record(i).value
}

#[test]
fn first_subscription_fetches_then_caches() {
    let mut reg = Registry::new();
    let e = entry(&[USER_1], FETCH_USER);
    reg.subscribe(entry(&[USER_1], FETCH_USER), "fetch_user", 100);
    assert!(matches!(value_at(&reg, &e).value(), QueryResult::Loading(None)));

    let v = reg.begin_validation(&e, 0).unwrap();
    assert!(v.fetch);
    assert!(v.notify.is_empty());
    assert!(matches!(value_at(&reg, &e).value(), QueryResult::Loading(None)));

    let notify = reg.complete_fetch(&e, QueryResult::Value(42), 10);
    assert_eq!(notify, vec![100]);
    let cached = value_at(&reg, &e);
    assert!(matches!(cached.value(), QueryResult::Value(42)));
    assert!(cached.is_fresh(10));
    assert!(cached.has_been_cached());
    assert!(cached.has_been_queried());

    // A second subscription within the freshness window sees the value and
    // starts no fetch.
    let i = reg.subscribe(entry(&[USER_1], FETCH_USER), "other_closure", 200);
    assert_eq!(reg.len(), 1);
    assert_eq!(reg.record(i).query_fn, "fetch_user");
    let v = reg.begin_validation(&e, 60).unwrap();
    assert!(!v.fetch);
    assert_eq!(v.notify, vec![100, 200]);
    assert!(matches!(value_at(&reg, &e).value(), QueryResult::Value(42)));
}

#[test]
fn invalidate_shows_previous_value_while_loading() {
    let mut reg = Registry::new();
    let e = entry(&[USER_1], FETCH_USER);
    reg.subscribe(entry(&[USER_1], FETCH_USER), "fetch_user", 100);
    reg.begin_validation(&e, 0);
    reg.complete_fetch(&e, QueryResult::Value(42), 10);

    let refetches = reg.begin_invalidation(&vec![USER_1], 20);
    assert_eq!(refetches.len(), 1);
    assert_eq!(refetches[0].notify, vec![100]);
    assert!(refetches[0].entry.same_as(&e));
    assert!(matches!(value_at(&reg, &e).value(), QueryResult::Loading(Some(42))));

    let notify = reg.complete_fetch(&refetches[0].entry, QueryResult::Value(43), 30);
    assert_eq!(notify, vec![100]);
    assert!(matches!(value_at(&reg, &e).value(), QueryResult::Value(43)));
}

#[test]
fn resubscribe_after_last_listener_left_starts_over() {
    let mut reg = Registry::new();
    let e = entry(&[USER_1], FETCH_USER);
    reg.subscribe(entry(&[USER_1], FETCH_USER), "fetch_user", 100);
    reg.begin_validation(&e, 0);
    reg.complete_fetch(&e, QueryResult::Value(42), 10);

    assert!(reg.unsubscribe(&e, 100));
    assert_eq!(reg.find(&e), None);
    assert_eq!(reg.len(), 0);

    reg.subscribe(entry(&[USER_1], FETCH_USER), "fetch_user", 100);
    let cached = value_at(&reg, &e);
    assert!(!cached.has_been_queried());
    assert!(matches!(cached.value(), QueryResult::Loading(None)));
    let v = reg.begin_validation(&e, 20).unwrap();
    assert!(v.fetch);
}

#[test]
fn different_keys_or_functions_get_their_own_records() {
    let mut reg = Registry::new();
    let a = reg.subscribe(entry(&[USER_1], FETCH_USER), "a", 1);
    let b = reg.subscribe(entry(&[USER_2], FETCH_USER), "b", 1);
    let c = reg.subscribe(entry(&[USER_1], FETCH_OTHER), "c", 1);
    let d = reg.subscribe(entry(&[USER_1, USER_2], FETCH_USER), "d", 1);
    let again = reg.subscribe(entry(&[USER_1], FETCH_USER), "e", 2);
    assert_eq!(reg.len(), 4);
    assert_eq!(again, a);
    assert!(a != b && a != c && a != d && b != c && b != d && c != d);
}

#[test]
fn same_listener_twice_is_registered_once() {
    let mut reg = Registry::new();
    let i = reg.subscribe(entry(&[USER_1], FETCH_USER), "a", 7);
    reg.subscribe(entry(&[USER_1], FETCH_USER), "a", 7);
    assert_eq!(reg.record(i).listeners, vec![7]);
}

#[test]
fn removing_one_of_several_listeners_keeps_the_record() {
    let mut reg = Registry::new();
    let e = entry(&[USER_1], FETCH_USER);
    reg.subscribe(entry(&[USER_1], FETCH_USER), "a", 1);
    reg.subscribe(entry(&[USER_1], FETCH_USER), "a", 2);
    reg.subscribe(entry(&[USER_1], FETCH_USER), "a", 3);
    assert!(!reg.unsubscribe(&e, 2));
    let i = reg.find(&e).unwrap();
    assert_eq!(reg.record(i).listeners, vec![1, 3]);
    assert!(!reg.unsubscribe(&e, 1));
    assert!(reg.unsubscribe(&e, 3));
    assert_eq!(reg.find(&e), None);
}

#[test]
fn unsubscribe_of_unknown_entry_changes_nothing() {
    let mut reg = Registry::new();
    reg.subscribe(entry(&[USER_1], FETCH_USER), "a", 1);
    assert!(!reg.unsubscribe(&entry(&[USER_2], FETCH_USER), 1));
    assert_eq!(reg.len(), 1);
    assert!(reg.begin_validation(&entry(&[USER_2], FETCH_USER), 0).is_none());
    assert!(reg.complete_fetch(&entry(&[USER_2], FETCH_USER), QueryResult::Value(1), 0).is_empty());
}

#[test]
fn invalidation_touches_only_matching_entries() {
    let mut reg = Registry::new();
    let e1 = entry(&[USER_1], FETCH_USER);
    let e2 = entry(&[USER_2], FETCH_USER);
    let e12 = entry(&[USER_2, USER_1], FETCH_OTHER);
    for (e, l) in [(&e1, 1u64), (&e2, 2), (&e12, 3)] {
        reg.subscribe(entry(&e.query_keys, e.query_fn_id), "f", l);
        reg.begin_validation(e, 0);
        reg.complete_fetch(e, QueryResult::Value(l as i32), 5);
    }
    let refetches = reg.begin_invalidation(&vec![USER_1, 99], 50);
    assert_eq!(refetches.len(), 2);
    assert!(refetches[0].entry.same_as(&e1));
    assert!(refetches[1].entry.same_as(&e12));
    assert_eq!(refetches[1].notify, vec![3]);
    assert!(matches!(value_at(&reg, &e1).value(), QueryResult::Loading(Some(1))));
    assert!(matches!(value_at(&reg, &e12).value(), QueryResult::Loading(Some(3))));
    let untouched = value_at(&reg, &e2);
    assert!(matches!(untouched.value(), QueryResult::Value(2)));
    assert_eq!(untouched.instant, Some(5));

    assert!(reg.begin_invalidation(&vec![], 60).is_empty());
}

#[test]
fn invalidating_an_error_loads_without_value() {
    let mut reg = Registry::new();
    let e = entry(&[USER_1], FETCH_USER);
    reg.subscribe(entry(&[USER_1], FETCH_USER), "f", 1);
    reg.begin_validation(&e, 0);
    reg.complete_fetch(&e, QueryResult::Error("boom".to_string()), 5);
    assert!(value_at(&reg, &e).value().is_err());
    reg.begin_invalidation(&vec![USER_1], 6);
    assert!(matches!(value_at(&reg, &e).value(), QueryResult::Loading(None)));
}

#[test]
fn staleness_follows_the_threshold() {
    let cached: CachedResult<i32, String> = CachedResult::settled(QueryResult::Value(1), 1000);
    assert!(cached.is_fresh(1000));
    assert!(cached.is_fresh(1000 + STALE_TIME - 1));
    assert!(!cached.is_fresh(1000 + STALE_TIME));
    assert!(!cached.is_fresh(5000));
    assert!(cached.is_fresh(999));
    let never: CachedResult<i32, String> = CachedResult::new();
    assert!(!never.is_fresh(0));
    assert!(!never.has_been_cached());
    assert_eq!(STALE_TIME, 100);
}

#[test]
fn stale_value_is_refetched_with_previous_value_shown() {
    let mut reg = Registry::new();
    let e = entry(&[USER_1], FETCH_USER);
    reg.subscribe(entry(&[USER_1], FETCH_USER), "f", 1);
    reg.begin_validation(&e, 0);
    reg.complete_fetch(&e, QueryResult::Value(42), 10);
    reg.subscribe(entry(&[USER_1], FETCH_USER), "f", 2);
    let v = reg.begin_validation(&e, 10 + STALE_TIME).unwrap();
    assert!(v.fetch);
    assert_eq!(v.notify, vec![1, 2]);
    let cached = value_at(&reg, &e);
    assert!(matches!(cached.value(), QueryResult::Loading(Some(42))));
    assert_eq!(cached.instant, Some(10 + STALE_TIME));
    // While that fetch runs no other validation starts one.
    let again = reg.begin_validation(&e, 10_000).unwrap();
    assert!(!again.fetch);
}

#[test]
fn first_fetch_runs_only_once_per_cycle() {
    let mut reg = Registry::new();
    let e = entry(&[USER_1], FETCH_USER);
    reg.subscribe(entry(&[USER_1], FETCH_USER), "f", 1);
    reg.subscribe(entry(&[USER_1], FETCH_USER), "f", 2);
    assert!(reg.begin_validation(&e, 0).unwrap().fetch);
    let second = reg.begin_validation(&e, 0).unwrap();
    assert!(!second.fetch);
    assert_eq!(second.notify, vec![1, 2]);
}

#[test]
fn query_result_helpers() {
    let ok: QueryResult<i32, String> = QueryResult::from_result(Ok(5));
    assert!(ok.is_ok() && !ok.is_err() && !ok.is_loading());
    assert_eq!(ok.into_previous(), Some(5));
    let err: QueryResult<i32, String> = QueryResult::from_result(Err("e".to_string()));
    assert!(err.is_err());
    assert_eq!(err.into_previous(), None);
    let loading: QueryResult<i32, String> = QueryResult::loading_empty();
    assert!(loading.is_loading());
    assert_eq!(QueryResult::<i32, String>::Loading(Some(3)).into_previous(), Some(3));
}

#[test]
fn mark_loading_keeps_last_value() {
    let mut cached: CachedResult<i32, String> = CachedResult::settled(QueryResult::Value(8), 1);
    cached.mark_loading(40);
    assert!(matches!(cached.value(), QueryResult::Loading(Some(8))));
    assert_eq!(cached.instant, Some(40));
    assert!(cached.has_been_queried());
}

#[test]
fn entries_compare_by_keys_and_function() {
    assert!(entry(&[1, 2], 3).same_as(&entry(&[1, 2], 3)));
    assert!(!entry(&[1, 2], 3).same_as(&entry(&[2, 1], 3)));
    assert!(!entry(&[1, 2], 3).same_as(&entry(&[1, 2], 4)));
    assert!(!entry(&[1], 3).same_as(&entry(&[1, 2], 3)));
    assert!(entry(&[1, 2], 3).shares_key(&vec![5, 2]));
    assert!(!entry(&[1, 2], 3).shares_key(&vec![5, 6]));
    assert!(!entry(&[], 3).shares_key(&vec![1]));
    let d = entry(&[4, 5], 6).duplicate();
    assert_eq!(d.query_keys, vec![4, 5]);
    assert_eq!(d.query_fn_id, 6);
}
