use alert_distributor::config::env::{unescape_newlines_text, AppConfig};
use alert_distributor::config::number::{parse_bool_text, parse_unsigned_text};
use alert_distributor::errors::AppError;
use alert_distributor::kafka::consumer::{
    alert_consumer_config, alert_message_action, control_consumer_config, AlertMessageAction,
};

fn base_vars() -> Vec<(String, String)> {
    [
        ("DB_HOST", "localhost"),
        ("DB_USER", "user"),
        ("DB_PASSWORD", "pass"),
        ("DB_PORT", "5432"),
        ("DB_NAME", "app_db"),
        ("KAFKA_BROKERS", "redpanda:9092"),
        ("KAFKA_TOPIC", "unit-alerts"),
        ("KAFKA_GROUP_ID", "alert-distributor"),
        ("RUST_LOG", "info"),
        ("KAFKA_SASL_MECHANISM", "SCRAM-SHA-256"),
        ("KAFKA_USERNAME", "siscom-live-consumer"),
        ("KAFKA_PASSWORD", "liveconsumerpassword"),
        ("KAFKA_SECURITY_PROTOCOL", "SASL_PLAINTEXT"),
        ("WS_BIND_ADDR", "0.0.0.0:8080"),
        ("WS_CHANNEL_CAPACITY", "1024"),
        ("JWT_PUBLIC_KEY_PEM", "-----BEGIN PUBLIC KEY-----\\nABC\\n-----END PUBLIC KEY-----"),
    ]
    .iter()
    .map(|(k, v)| (k.to_string(), v.to_string()))
    .collect()
}

fn with(mut vars: Vec<(String, String)>, key: &str, value: &str) -> Vec<(String, String)> {
    vars.retain(|(k, _)| k != key);
    vars.push((key.to_string(), value.to_string()));
    vars
}

fn without(mut vars: Vec<(String, String)>, key: &str) -> Vec<(String, String)> {
    vars.retain(|(k, _)| k != key);
    vars
}

#[test]
fn config_reads_all_settings_with_defaults() {
    let config = AppConfig::from_vars(&base_vars()).expect("valid settings");
    assert_eq!(config.db_host, "localhost");
    assert_eq!(config.db_port, 5432);
    assert_eq!(config.ws_channel_capacity, 1024);
    assert_eq!(config.ws_heartbeat_interval_secs, 30);
    assert_eq!(config.ws_heartbeat_timeout_secs, 60);
    assert_eq!(config.jwt_public_key_pem, "-----BEGIN PUBLIC KEY-----\nABC\n-----END PUBLIC KEY-----");
    assert_eq!(config.aws_region, "us-east-1");
    assert!(!config.sns_enabled);
    assert_eq!(config.sns_retry_count, 3);
    assert_eq!(config.sns_batch_timeout_ms, 100);
    assert_eq!(config.kafka_security_protocol, "SASL_PLAINTEXT");
    assert_eq!(config.ws_bind_addr, "0.0.0.0:8080");
}

#[test]
fn config_reads_optional_settings() {
    let vars = with(with(with(base_vars(), "SNS_ENABLED", "true"), "AWS_REGION", "sa-east-1"), "SNS_RETRY_COUNT", "+7");
    let config = AppConfig::from_vars(&vars).unwrap();
    assert!(config.sns_enabled);
    assert_eq!(config.aws_region, "sa-east-1");
    assert_eq!(config.sns_retry_count, 7);
}

fn error_of(vars: &Vec<(String, String)>) -> AppError {
    match AppConfig::from_vars(vars) {
        Ok(_) => panic!("settings should be refused"),
        Err(e) => e,
    }
}

#[test]
fn config_reports_missing_and_invalid_settings() {
    match error_of(&without(base_vars(), "DB_PORT")) {
        AppError::MissingEnvVar(name) => assert_eq!(name, "DB_PORT"),
        other => panic!("unexpected {:?}", other),
    }
    match error_of(&with(base_vars(), "DB_PORT", "70000")) {
        AppError::InvalidEnvVar(name) => assert_eq!(name, "DB_PORT"),
        other => panic!("unexpected {:?}", other),
    }
    match error_of(&without(base_vars(), "WS_BIND_ADDR")) {
        AppError::MissingEnvVar(name) => assert_eq!(name, "WS_BIND_ADDR"),
        other => panic!("unexpected {:?}", other),
    }
    match error_of(&with(base_vars(), "SNS_ENABLED", "yes")) {
        AppError::InvalidEnvVar(name) => assert_eq!(name, "SNS_ENABLED"),
        other => panic!("unexpected {:?}", other),
    }
    match error_of(&with(base_vars(), "WS_HEARTBEAT_TIMEOUT_SECS", "30")) {
        AppError::InvalidEnvVar(name) => assert_eq!(name, "WS_HEARTBEAT_TIMEOUT_SECS"),
        other => panic!("unexpected {:?}", other),
    }
    // the first setting read wins
    match error_of(&without(without(base_vars(), "DB_HOST"), "WS_CHANNEL_CAPACITY")) {
        AppError::MissingEnvVar(name) => assert_eq!(name, "WS_CHANNEL_CAPACITY"),
        other => panic!("unexpected {:?}", other),
    }
}

#[test]
fn app_error_messages() {
    assert_eq!(
        AppError::MissingEnvVar("DB_PORT".to_string()).describe(),
        "missing required environment variable: DB_PORT"
    );
    assert_eq!(AppError::Jwt("bad".to_string()).describe(), "jwt error: bad");
    assert_eq!(AppError::InvalidUuid("x".to_string()).describe(), "invalid uuid value: x");
}

#[test]
fn numbers_read_like_str_parse() {
    assert_eq!(parse_unsigned_text("65535", 65535), Some(65535));
    assert_eq!(parse_unsigned_text("65536", 65535), None);
    assert_eq!(parse_unsigned_text("+12", 65535), Some(12));
    assert_eq!(parse_unsigned_text("007", 65535), Some(7));
    assert_eq!(parse_unsigned_text("-1", 65535), None);
    assert_eq!(parse_unsigned_text("+", 65535), None);
    assert_eq!(parse_unsigned_text("", 65535), None);
    assert_eq!(parse_unsigned_text(" 1", 65535), None);
    assert_eq!(parse_unsigned_text("18446744073709551615", u64::MAX), Some(u64::MAX));
    assert_eq!(parse_unsigned_text("18446744073709551616", u64::MAX), None);
    for text in ["0", "+9", "99999", "12a", "4294967296"] {
        assert_eq!(parse_unsigned_text(text, u32::MAX as u64), text.parse::<u32>().ok().map(|v| v as u64));
    }
    assert_eq!(parse_bool_text("true"), Some(true));
    assert_eq!(parse_bool_text("false"), Some(false));
    assert_eq!(parse_bool_text("True"), None);
}

#[test]
fn newline_escapes_are_restored() {
    assert_eq!(unescape_newlines_text("a\\nb"), "a\nb");
    assert_eq!(unescape_newlines_text("a\\\\nb"), "a\\\nb");
    assert_eq!(unescape_newlines_text("\\n\\n"), "\n\n");
    assert_eq!(unescape_newlines_text("\\"), "\\");
}

#[test]
fn consumer_settings_are_complete() {
    let config = AppConfig::from_vars(&base_vars()).unwrap();
    let settings = alert_consumer_config(&config);
    let pairs: Vec<(&str, &str)> = settings.iter().map(|(k, v)| (k.as_str(), v.as_str())).collect();
    assert_eq!(
        pairs,
        vec![
            ("bootstrap.servers", "redpanda:9092"),
            ("group.id", "alert-distributor"),
            ("enable.auto.commit", "false"),
            ("auto.offset.reset", "earliest"),
            ("security.protocol", "SASL_PLAINTEXT"),
            ("sasl.mechanism", "SCRAM-SHA-256"),
            ("sasl.username", "siscom-live-consumer"),
            ("sasl.password", "liveconsumerpassword"),
        ]
    );
    let control = control_consumer_config(&config, "group-x", "client-y");
    assert_eq!(control.len(), 9);
    assert_eq!(control[1], ("group.id".to_string(), "group-x".to_string()));
    assert_eq!(control[2], ("client.id".to_string(), "client-y".to_string()));
}

#[test]
fn only_parsed_alerts_are_committed() {
    assert_eq!(alert_message_action(false, false), AlertMessageAction::SkipEmpty);
    assert_eq!(alert_message_action(true, false), AlertMessageAction::ReportParseFailure);
    assert_eq!(alert_message_action(true, true), AlertMessageAction::DispatchAndCommit);
}

#[test]
fn unsigned_numbers_respect_small_limits() {
    assert_eq!(parse_unsigned_text("3", 3), Some(3));
    assert_eq!(parse_unsigned_text("5", 3), None);
    assert_eq!(parse_unsigned_text("0", 0), Some(0));
    assert_eq!(parse_unsigned_text("1", 0), None);
    assert_eq!(parse_unsigned_text("+2", 2), Some(2));
    assert_eq!(parse_unsigned_text("12", 9), None);
}
