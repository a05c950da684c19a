use log_sync::auth::{basic_auth_value, document_url};
use log_sync::broker::line_message;
use log_sync::fetch::fetch_request;
use log_sync::kafka::{parse_u64, route_topic, Config, ErrorLog, InfoLog, Loggable, WarnLog};
use log_sync::record::{kind_table, InfoLog as InfoRow, Log, LogEntry, LogKind, Timestamp, WarnLog as WarnRow, GetTimestamp};
use log_sync::watermark::{initial_watermark, watermark_path, Watermark};

const NOW: i64 = 1_700_000_000_000_000_000;

#[test]
fn missing_watermark_starts_one_day_back() {
    let w = initial_watermark(None, Timestamp { nanos: NOW });
    assert_eq!(w.last_processed_timestamp.nanos, NOW - 86_400_000_000_000);
    let req = fetch_request("logs", &w);
    assert_eq!(req.since, "2023-11-13 22:13:20.000000000");
}

#[test]
fn persisted_watermark_is_used_as_is() {
    let stored = Watermark { last_processed_timestamp: Timestamp { nanos: 42 } };
    assert_eq!(initial_watermark(Some(stored), Timestamp { nanos: NOW }), stored);
}

#[test]
fn default_watermark_saturates_at_earliest_instant() {
    let w = initial_watermark(None, Timestamp { nanos: i64::MIN + 5 });
    assert_eq!(w.last_processed_timestamp.nanos, i64::MIN);
}

#[test]
fn fetch_query_filters_and_orders_by_timestamp() {
    let w = Watermark { last_processed_timestamp: Timestamp { nanos: NOW + 7 } };
    let req = fetch_request("info_logs", &w);
    assert_eq!(
        req.query,
        "SELECT * FROM info_logs WHERE timestamp > toDateTime64(?, 9, 'UTC') ORDER BY timestamp"
    );
    assert_eq!(req.since, "2023-11-14 22:13:20.000000007");
}

#[test]
fn watermark_file_is_named_after_the_table() {
    assert_eq!(watermark_path("warn_logs"), "watermark_warn_logs.json");
}

#[test]
fn odd_counts_go_to_the_first_topic() {
    assert_eq!(route_topic(1), "kafka-test-1");
    assert_eq!(route_topic(7), "kafka-test-1");
    assert_eq!(route_topic(0), "kafka-test-2");
    assert_eq!(route_topic(2), "kafka-test-2");
    assert_eq!(route_topic(-1), "kafka-test-2");
    assert_eq!(route_topic(i32::MAX), "kafka-test-1");
}

#[test]
fn error_log_keeps_its_fields() {
    let e = ErrorLog::new("ERROR".to_string(), "disk full".to_string(), "host-a".to_string(), "t0".to_string(), 507);
    assert_eq!(e.level, "ERROR");
    assert_eq!(e.message, "disk full");
    assert_eq!(e.hostname, "host-a");
    assert_eq!(e.timestamp, "t0");
    assert_eq!(e.error_code, 507);
    assert_eq!(e.topic(), "error_logs");
}

#[test]
fn each_message_kind_has_its_topic() {
    let i = InfoLog::new("INFO".into(), "m".into(), "h".into(), "t".into());
    let w = WarnLog::new("WARN".into(), "m".into(), "h".into(), "t".into(), "slow".into());
    assert_eq!(i.topic(), "info_logs");
    assert_eq!(w.topic(), "warn_logs");
    assert_eq!(w.reason, "slow");
}

#[test]
fn config_defaults_apply_when_unset_or_unreadable() {
    let c = Config::from_settings(None, None);
    assert_eq!(c.broker, "localhost:9092");
    assert_eq!(c.send_timeout_secs, 5);
    let c = Config::from_settings(Some("kafka:29092".to_string()), Some("30"));
    assert_eq!(c.broker, "kafka:29092");
    assert_eq!(c.send_timeout_secs, 30);
    assert_eq!(Config::from_settings(None, Some("soon")).send_timeout_secs, 5);
}

#[test]
fn decimal_text_reads_as_std_does() {
    for text in ["", "+", "-1", "12a", " 1", "18446744073709551616", "99999999999999999999"] {
        assert_eq!(parse_u64(text), None, "{text}");
        assert_eq!(text.parse::<u64>().ok(), None);
    }
    for text in ["0", "+5", "007", "18446744073709551615", "1844674407370955161"] {
        assert_eq!(parse_u64(text), text.parse::<u64>().ok(), "{text}");
    }
    assert_eq!(parse_u64("18446744073709551615"), Some(u64::MAX));
}

#[test]
fn rows_are_routed_to_their_tables() {
    let t = Timestamp { nanos: 9 };
    let info = Log::Info(InfoRow::new(t, "i".into(), "login".into()));
    let warn = Log::Warn(WarnRow::new(t, "10.0.0.1".into(), "/x".into(), 1200));
    let entry = Log::Entry(LogEntry::new(Timestamp { nanos: 11 }, "Log".into(), "m".into()));
    assert_eq!(info.target_table(), "info_logs");
    assert_eq!(warn.target_table(), "warn_logs");
    assert_eq!(entry.target_table(), "logs");
    assert_eq!(entry.ordering_value(), Timestamp { nanos: 11 });
    assert_eq!(LogEntry::new(t, "a".into(), "b".into()).get_timestamp(), t);
}

#[test]
fn blank_lines_carry_no_message() {
    assert_eq!(line_message("  \t\r\n"), None);
    assert_eq!(line_message(""), None);
    assert_eq!(line_message("  {\"Info\":{}}\r\n"), Some("{\"Info\":{}}".to_string()));
}

#[test]
fn basic_auth_encodes_user_and_password() {
    assert_eq!(basic_auth_value("user", "pass"), "Basic dXNlcjpwYXNz");
    assert_eq!(basic_auth_value("admin", ""), "Basic YWRtaW46");
    assert_eq!(basic_auth_value("", ""), "Basic Og==");
}

#[test]
fn document_url_appends_index_and_doc() {
    assert_eq!(document_url("https://search:9200", "test-application-logs"), "https://search:9200/test-application-logs/_doc");
}

#[test]
fn encoded_credentials_get_the_basic_scheme() {
    assert_eq!(log_sync::auth::basic_auth_from_encoded("abc="), "Basic abc=");
    assert_eq!(log_sync::auth::basic_credentials_bytes("u", "p:q"), b"u:p:q".to_vec());
}

#[test]
fn trimmed_text_is_a_message_unless_empty() {
    assert_eq!(log_sync::broker::message_of_trimmed(""), None);
    assert_eq!(log_sync::broker::message_of_trimmed("{}"), Some("{}".to_string()));
}

#[test]
fn each_kind_has_its_table() {
    assert_eq!(kind_table(LogKind::Info), "info_logs");
    assert_eq!(kind_table(LogKind::Warn), "warn_logs");
    assert_eq!(kind_table(LogKind::Entry), "logs");
}
