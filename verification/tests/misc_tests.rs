use scooby::cfg::Cfg;
use scooby::json::json_display;
use scooby::cli::{AskCommand, ListAllCommand, ModularService, ServerEnv};
use scooby::http::HttpClientParams;

#[test]
fn cfg_lookup_returns_value_or_empty() {
    let cfg = Cfg::new(vec![
        ("db_path".to_string(), "/tmp/dooby".to_string()),
        ("token".to_string(), "token-123".to_string()),
    ]);
    assert_eq!(cfg.get("db_path"), "/tmp/dooby");
    assert_eq!(cfg.get("token"), "token-123");
    assert_eq!(cfg.get("absent"), "");
}

#[test]
fn cfg_lookup_takes_first_match() {
    let cfg = Cfg::new(vec![
        ("k".to_string(), "first".to_string()),
        ("k".to_string(), "second".to_string()),
    ]);
    assert_eq!(cfg.get("k"), "first");
}

#[test]
fn service_segments_are_fixed() {
    assert_eq!(ModularService::HPI.as_ref(), "windmill-service-v1");
    assert_eq!(ModularService::HSI.as_ref(), "sales-invoice-service-v1");
    assert_eq!(ModularService::CR.as_ref(), "cloudreader-v1");
    assert_eq!(ModularService::CIS.as_ref(), "circula-integration-service-v1");
}

#[test]
fn env_segments_are_fixed() {
    assert_eq!(ServerEnv::Dev.as_ref(), "dev");
    assert_eq!(ServerEnv::Test.as_ref(), "test");
    assert_eq!(ServerEnv::Prod.as_ref(), "cloud");
}

#[test]
fn ask_command_carries_its_range() {
    let cmd = AskCommand::ListAll(ListAllCommand { time_range: "2024-03-01".to_string() });
    match cmd {
        AskCommand::ListAll(list) => assert_eq!(list.time_range, "2024-03-01"),
        AskCommand::ListByService(_) => panic!("wrong variant"),
    }
    let params = HttpClientParams { timeout_secs: 15, token: "token-123".to_string() };
    assert_eq!(params.timeout_secs, 15);
}

#[test]
fn json_display_pretty_prints_or_marks() {
    assert_eq!(json_display(&None), "null");
    assert_eq!(json_display(&Some("{\"a\":1}".to_string())), "{\n  \"a\": 1\n}");
    assert_eq!(json_display(&Some("{oops".to_string())), "<invalid json>");
}

#[test]
fn ask_since_is_midnight_utc_of_the_date() {
    let cmd = AskCommand::ListAll(ListAllCommand { time_range: "2024-03-01".to_string() });
    let expected = "2024-03-01T00:00:00+00:00"
        .parse::<chrono::DateTime<chrono::Utc>>()
        .unwrap()
        .timestamp();
    assert_eq!(cmd.since(), Some(expected));
    let bad = AskCommand::ListAll(ListAllCommand { time_range: "yesterday".to_string() });
    assert_eq!(bad.since(), None);
}
