use scooby::project::{build_label, decimal_string, to_display};
use scooby::store::{DbStoreArgs, Store};

#[test]
fn decimal_rendering_is_exact() {
    assert_eq!(decimal_string(0), "0");
    assert_eq!(decimal_string(7), "7");
    assert_eq!(decimal_string(10), "10");
    assert_eq!(decimal_string(305), "305");
    assert_eq!(decimal_string(18446744073709551615), "18446744073709551615");
}

#[test]
fn label_embeds_id_method_service_and_url() {
    let mut store = Store::new();
    let rec = store.insert_at(
        DbStoreArgs {
            method: "GET".to_string(),
            service: "svcA".to_string(),
            url: "https://api.example/s/r".to_string(),
            route_url: "r".to_string(),
            payload: None,
        },
        None,
        42,
    );
    assert_eq!(build_label(&rec), "[1] GET svcA https://api.example/s/r");
}

#[test]
fn projection_keeps_order_and_content() {
    let mut store = Store::new();
    store.insert_at(
        DbStoreArgs {
            method: "GET".to_string(),
            service: "a".to_string(),
            url: "u1".to_string(),
            route_url: "r1".to_string(),
            payload: Some("{\"x\":1}".to_string()),
        },
        Some("{\"y\":2}".to_string()),
        100,
    );
    store.insert_at(
        DbStoreArgs {
            method: "POST".to_string(),
            service: "b".to_string(),
            url: "u2".to_string(),
            route_url: "r2".to_string(),
            payload: None,
        },
        None,
        200,
    );
    let records = store.query_all();
    let rows = to_display(&records);
    assert_eq!(rows.len(), 2);
    assert_eq!(rows[0].id, 1);
    assert_eq!(rows[0].key, "[1] GET a u1");
    assert_eq!(rows[0].payload, Some("{\"x\":1}".to_string()));
    assert_eq!(rows[0].response, Some("{\"y\":2}".to_string()));
    assert_eq!(rows[1].id, 2);
    assert_eq!(rows[1].key, "[2] POST b u2");
    assert_eq!(rows[1].payload, None);
    assert_eq!(rows[1].response, None);
}
