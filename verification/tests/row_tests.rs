use scooby::row::{decode_row, ColValue, DecodeError};

fn full_row() -> Vec<(String, ColValue)> {
    vec![
        ("id".to_string(), ColValue::Integer(7)),
        ("method".to_string(), ColValue::Text("GET".to_string())),
        ("service".to_string(), ColValue::Text("svcA".to_string())),
        ("route_url".to_string(), ColValue::Text("r".to_string())),
        ("full_url".to_string(), ColValue::Text("https://u".to_string())),
        ("payload".to_string(), ColValue::Text("{\"a\":1}".to_string())),
        ("response_json".to_string(), ColValue::Null),
        (
            "created_at".to_string(),
            ColValue::Text("2024-03-01T10:00:00+00:00".to_string()),
        ),
    ]
}

#[test]
fn decode_reads_columns_by_name() {
    let mut cols = full_row();
    cols.reverse(); // order of columns must not matter
    let rec = decode_row(&cols).expect("a complete row");
    assert_eq!(rec.id, 7);
    assert_eq!(rec.method, "GET");
    assert_eq!(rec.service, "svcA");
    assert_eq!(rec.route_url, "r");
    assert_eq!(rec.url, "https://u");
    assert_eq!(rec.payload_json, Some("{\"a\":1}".to_string()));
    assert_eq!(rec.response_json, None);
    let expected = "2024-03-01T10:00:00+00:00"
        .parse::<chrono::DateTime<chrono::Utc>>()
        .unwrap()
        .timestamp();
    assert_eq!(rec.created_at, expected);
}

#[test]
fn decode_reports_missing_column() {
    let cols: Vec<(String, ColValue)> =
        full_row().into_iter().filter(|c| c.0 != "service").collect();
    assert_eq!(decode_row(&cols), Err(DecodeError::MissingColumn));
}

#[test]
fn decode_reports_wrong_type() {
    let mut cols = full_row();
    cols[0].1 = ColValue::Text("7".to_string());
    assert_eq!(decode_row(&cols), Err(DecodeError::WrongType));
    let mut cols = full_row();
    cols[5].1 = ColValue::Integer(3);
    assert_eq!(decode_row(&cols), Err(DecodeError::WrongType));
    let mut cols = full_row();
    cols[7].1 = ColValue::Other;
    assert_eq!(decode_row(&cols), Err(DecodeError::WrongType));
}

#[test]
fn decode_reports_bad_timestamp() {
    let mut cols = full_row();
    cols[7].1 = ColValue::Text("yesterday-ish".to_string());
    assert_eq!(decode_row(&cols), Err(DecodeError::BadTimestamp));
}

#[test]
fn decode_accepts_null_payload() {
    let mut cols = full_row();
    cols[5].1 = ColValue::Null;
    let rec = decode_row(&cols).expect("a complete row");
    assert_eq!(rec.payload_json, None);
}
