use scooby::store::{DbStoreArgs, Store};

fn args(method: &str, service: &str, route: &str, url: &str, payload: Option<&str>) -> DbStoreArgs {
    DbStoreArgs {
        method: method.to_string(),
        service: service.to_string(),
        url: url.to_string(),
        route_url: route.to_string(),
        payload: payload.map(|p| p.to_string()),
    }
}

#[test]
fn insert_assigns_monotonic_ids_and_stamps_time() {
    let mut store = Store::new();
    let r1 = store.insert_at(args("GET", "svcA", "r", "u", None), None, 100);
    let r2 = store.insert_at(args("POST", "svcB", "r2", "u2", None), Some("{}".to_string()), 200);
    assert_eq!(r1.id, 1);
    assert_eq!(r2.id, 2);
    assert_eq!(r1.created_at, 100);
    assert_eq!(r2.method, "POST");
    assert_eq!(r2.response_json, Some("{}".to_string()));
}

#[test]
fn query_all_is_ascending_by_created_at() {
    let mut store = Store::new();
    store.insert_at(args("GET", "a", "r", "u", None), None, 300);
    store.insert_at(args("GET", "b", "r", "u", None), None, 100);
    store.insert_at(args("GET", "c", "r", "u", None), None, 200);
    let all = store.query_all();
    let stamps: Vec<i64> = all.iter().map(|r| r.created_at).collect();
    assert_eq!(stamps, vec![100, 200, 300]);
}

#[test]
fn query_all_breaks_time_ties_by_id() {
    let mut store = Store::new();
    store.insert_at(args("GET", "a", "r", "u", None), None, 100);
    store.insert_at(args("GET", "b", "r", "u", None), None, 100);
    store.insert_at(args("GET", "c", "r", "u", None), None, 100);
    let all = store.query_all();
    let ids: Vec<i64> = all.iter().map(|r| r.id).collect();
    assert_eq!(ids, vec![1, 2, 3]);
}

#[test]
fn time_range_query_is_strict_and_ascending() {
    let mut store = Store::new();
    store.insert_at(args("GET", "a", "r", "u", None), None, 10);
    store.insert_at(args("GET", "b", "r", "u", None), None, 20);
    store.insert_at(args("GET", "c", "r", "u", None), None, 30);
    let hits = store.query_by_time_range(20);
    assert_eq!(hits.len(), 1);
    assert_eq!(hits[0].service, "c");
    let hits = store.query_by_time_range(9);
    let stamps: Vec<i64> = hits.iter().map(|r| r.created_at).collect();
    assert_eq!(stamps, vec![10, 20, 30]);
    let none = store.query_by_time_range(30);
    assert!(none.is_empty());
}

#[test]
fn service_query_returns_matching_records_in_order() {
    // Scenario: svcA, svcB, svcA at t1 < t2 < t3; asking for svcA since
    // t0 < t1 yields the first and third records, in that order.
    let mut store = Store::new();
    let r1 = store.insert_at(args("GET", "svcA", "r1", "u1", None), None, 11);
    let _r2 = store.insert_at(args("GET", "svcB", "r2", "u2", None), None, 12);
    let r3 = store.insert_at(args("GET", "svcA", "r3", "u3", None), None, 13);
    let hits = store.query_by_service_and_time_range("svcA", 10);
    assert_eq!(hits.len(), 2);
    assert_eq!(hits[0], r1);
    assert_eq!(hits[1], r3);
}

#[test]
fn service_query_refines_time_query() {
    let mut store = Store::new();
    store.insert_at(args("GET", "svcA", "r", "u", None), None, 10);
    store.insert_at(args("GET", "svcB", "r", "u", None), None, 20);
    store.insert_at(args("GET", "svcA", "r", "u", None), None, 30);
    let by_service = store.query_by_service_and_time_range("svcA", 5);
    let by_time = store.query_by_time_range(5);
    for hit in &by_service {
        assert!(by_time.contains(hit));
        assert_eq!(hit.service, "svcA");
    }
}

#[test]
fn load_rebuilds_and_sorts() {
    let mut store = Store::new();
    store.insert_at(args("GET", "a", "r", "u", None), None, 300);
    store.insert_at(args("GET", "b", "r", "u", None), None, 100);
    let rows = store.query_all();
    let reloaded = Store::load(rows).expect("rows from a store reload");
    let stamps: Vec<i64> = reloaded.query_all().iter().map(|r| r.created_at).collect();
    assert_eq!(stamps, vec![100, 300]);
}

#[test]
fn load_rejects_duplicate_ids() {
    let mut store = Store::new();
    let r1 = store.insert_at(args("GET", "a", "r", "u", None), None, 100);
    let mut rows = store.query_all();
    rows.push(r1);
    assert!(Store::load(rows).is_none());
}

#[test]
fn load_rejects_out_of_range_ids() {
    let mut store = Store::new();
    let mut r1 = store.insert_at(args("GET", "a", "r", "u", None), None, 100);
    r1.id = 0;
    assert!(Store::load(vec![r1]).is_none());
}

#[test]
fn contains_id_sees_inserted_records() {
    let mut store = Store::new();
    let r1 = store.insert_at(args("GET", "a", "r", "u", None), None, 100);
    assert!(store.contains_id(r1.id));
    assert!(!store.contains_id(99));
}

#[test]
fn insert_with_clock_assigns_next_id() {
    let mut store = Store::new();
    let r1 = store.insert(args("GET", "a", "r", "u", None), None);
    let r2 = store.insert(args("GET", "b", "r", "u", None), None);
    assert_eq!(r1.id, 1);
    assert_eq!(r2.id, 2);
    // The stamps come from the real clock; they can only move forward.
    assert!(r2.created_at >= r1.created_at);
    assert!(r1.created_at > 1_500_000_000); // well after 2017, on any sane clock
}

#[test]
fn load_continues_id_assignment_past_the_largest_id() {
    let mut store = Store::new();
    store.insert_at(args("GET", "a", "r", "u", None), None, 100);
    store.insert_at(args("GET", "b", "r", "u", None), None, 200);
    let rows = store.query_all();
    let mut reloaded = Store::load(rows).expect("rows from a store reload");
    assert_eq!(reloaded.next_id(), 3);
    let r3 = reloaded.insert_at(args("GET", "c", "r", "u", None), None, 300);
    assert_eq!(r3.id, 3);
    assert_eq!(Store::load(Vec::new()).expect("an empty table reloads").next_id(), 1);
}
