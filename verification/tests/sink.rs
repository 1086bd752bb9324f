use std::time::Duration;

use questdb::ErrorCode;
use questdb::ingress::AckLevel;
use questdb_sink::batch::BatchOutcome;
use questdb_sink::flush::{
    FlushCall, FlushError, FlushPhase, SinkError, call_failed, connect_error, connect_task_error, flush_task_error, is_retryable,
    is_transient,
};
use questdb_sink::sink::{
    DEFAULT_BATCH_SIZE, FlushStep, parse_ack_level, validate_column_overlap,
};
use questdb_sink::span::{Timeout, read_span};
use questdb_sink::{QuestDbSink, QuestDbSinkConfig, TimestampSource, TimestampUnit};
use secrecy::{ExposeSecret, SecretString};

fn config() -> QuestDbSinkConfig<SecretString> {
    QuestDbSinkConfig {
        connection_string: SecretString::from("ws::addr=localhost:9000;"),
        table: "iggy_events".to_owned(),
        timestamp_source: None,
        timestamp_field: None,
        timestamp_unit: None,
        symbol_columns: None,
        uuid_columns: None,
        include_stream_column: None,
        include_topic_column: None,
        include_partition_column: None,
        include_offset_column: None,
        include_headers: None,
        ack_level: None,
        flush_timeout: None,
        batch_size: None,
        log_rejected_payload: None,
        verbose_logging: None,
    }
}

fn duration(timeout: Timeout) -> Duration {
    Duration::new(timeout.secs, timeout.nanos)
}

fn reason(error: Option<SinkError>) -> String {
    match error {
        Some(SinkError::InvalidConfigValue(reason)) => reason,
        other => panic!("unexpected {other:?}"),
    }
}

#[test]
fn given_minimal_config_when_constructed_should_apply_defaults() {
    let sink = QuestDbSink::new(1, config());
    assert!(sink.init_error.is_none());
    assert_eq!(sink.batch_size, DEFAULT_BATCH_SIZE as usize);
    assert_eq!(duration(sink.flush_timeout), Duration::from_secs(30));
    assert_eq!(sink.ack_level, AckLevel::Ok);
    assert_eq!(sink.mapping.timestamp_source, TimestampSource::Message);
    assert!(sink.mapping.include_stream_column);
    assert!(sink.mapping.include_topic_column);
    assert!(!sink.mapping.include_partition_column);
}

#[test]
fn given_payload_timestamp_without_field_when_opened_should_fail() {
    let mut config = config();
    config.timestamp_source = Some("payload".to_owned());
    let mut sink = QuestDbSink::new(1, config);
    assert!(matches!(
        sink.take_init_error(),
        Err(SinkError::InvalidConfigValue(_))
    ));
}

#[test]
fn given_payload_timestamp_with_field_when_constructed_should_succeed() {
    let mut config = config();
    config.timestamp_source = Some("payload".to_owned());
    config.timestamp_field = Some("event_time".to_owned());
    let sink = QuestDbSink::new(1, config);
    assert!(sink.init_error.is_none());
    assert_eq!(sink.mapping.timestamp_source, TimestampSource::Payload);
    assert_eq!(sink.mapping.timestamp_field.as_deref(), Some("event_time"));
}

#[test]
fn given_unknown_enum_values_when_constructed_should_record_init_error() {
    for (field, value) in [
        ("timestamp_source", "yesterday"),
        ("timestamp_unit", "fortnights"),
        ("ack_level", "maybe"),
    ] {
        let mut config = config();
        match field {
            "timestamp_source" => config.timestamp_source = Some(value.to_owned()),
            "timestamp_unit" => config.timestamp_unit = Some(value.to_owned()),
            _ => config.ack_level = Some(value.to_owned()),
        }
        let sink = QuestDbSink::new(1, config);
        assert!(
            matches!(sink.init_error, Some(SinkError::InvalidConfigValue(_))),
            "{field} should reject {value}"
        );
    }
}

#[test]
fn given_column_in_symbol_and_uuid_lists_when_constructed_should_record_init_error() {
    let mut config = config();
    config.symbol_columns = Some(vec!["id".to_owned()]);
    config.uuid_columns = Some(vec!["id".to_owned()]);
    let sink = QuestDbSink::new(1, config);
    assert!(matches!(
        sink.init_error,
        Some(SinkError::InvalidConfigValue(_))
    ));
}

#[test]
fn given_timestamp_field_also_listed_as_symbol_when_constructed_should_record_init_error() {
    let mut config = config();
    config.timestamp_source = Some("payload".to_owned());
    config.timestamp_field = Some("event_time".to_owned());
    config.symbol_columns = Some(vec!["event_time".to_owned()]);
    let sink = QuestDbSink::new(1, config);
    assert!(matches!(
        sink.init_error,
        Some(SinkError::InvalidConfigValue(_))
    ));
}

#[test]
fn given_invalid_flush_timeout_when_constructed_should_fall_back_to_default() {
    let mut config = config();
    config.flush_timeout = Some("not-a-duration".to_owned());
    let sink = QuestDbSink::new(1, config);
    assert!(sink.init_error.is_none());
    assert_eq!(duration(sink.flush_timeout), Duration::from_secs(30));
}

fn optional_text(table: &toml::Table, key: &str) -> Option<String> {
    table
        .get(key)
        .map(|value| value.as_str().unwrap().to_owned())
}

fn optional_list(table: &toml::Table, key: &str) -> Option<Vec<String>> {
    table.get(key).map(|value| {
        let items = value.as_array().unwrap();
        items
            .iter()
            .map(|item| item.as_str().unwrap().to_owned())
            .collect()
    })
}

#[test]
fn given_toml_config_when_deserialized_should_populate_fields() {
    let raw = r#"
            connection_string = "ws::addr=questdb:9000;"
            table = "trades"
            timestamp_source = "payload"
            timestamp_field = "ts"
            symbol_columns = ["symbol", "side"]
            batch_size = 500
        "#;
    let table: toml::Table = toml::from_str(raw).unwrap();
    let mut config = config();
    config.connection_string =
        SecretString::from(optional_text(&table, "connection_string").unwrap());
    config.table = optional_text(&table, "table").unwrap();
    config.timestamp_source = optional_text(&table, "timestamp_source");
    config.timestamp_field = optional_text(&table, "timestamp_field");
    config.symbol_columns = optional_list(&table, "symbol_columns");
    config.batch_size = table
        .get("batch_size")
        .map(|value| u32::try_from(value.as_integer().unwrap()).unwrap());
    let sink = QuestDbSink::new(7, config);
    assert!(sink.init_error.is_none());
    assert_eq!(sink.batch_size, 500);
    assert_eq!(sink.mapping.table, "trades");
    assert!(sink.mapping.symbol_columns.contains("side"));
}

#[test]
fn given_retryable_code_when_not_in_doubt_should_be_retryable() {
    assert!(is_retryable(ErrorCode::FailoverRetry, false));
    assert!(is_retryable(ErrorCode::SocketError, false));
}

#[test]
fn given_retryable_code_when_in_doubt_should_not_be_retryable() {
    assert!(!is_retryable(ErrorCode::FailoverRetry, true));
    assert!(!is_retryable(ErrorCode::SocketError, true));
}

#[test]
fn given_server_rejection_when_classified_should_not_be_retryable() {
    assert!(!is_retryable(ErrorCode::ServerSchemaMismatch, false));
    assert!(!is_retryable(ErrorCode::ServerSecurityError, false));
    assert!(!is_retryable(ErrorCode::ServerParseError, false));
}

#[test]
fn given_ack_wait_failure_when_mapped_should_be_permanent() {
    let sink = QuestDbSink::new(1, config());
    let failure = FlushError::awaiting(questdb::Error::new(
        ErrorCode::FailoverRetry,
        "wait(durable) timed out with no ack progress",
    ));
    assert!(matches!(
        sink.map_client_error(failure),
        SinkError::PermanentHttpError(_)
    ));
}

#[test]
fn given_publish_failure_when_mapped_should_stay_retryable() {
    let sink = QuestDbSink::new(1, config());
    let failure = FlushError::publishing(questdb::Error::new(
        ErrorCode::SocketError,
        "connection reset",
    ));
    assert!(matches!(
        sink.map_client_error(failure),
        SinkError::CannotStoreData(_)
    ));
}

#[test]
fn given_schema_mismatch_when_mapped_should_be_schema_error() {
    let sink = QuestDbSink::new(1, config());
    let failure = FlushError::publishing(questdb::Error::new(
        ErrorCode::ServerSchemaMismatch,
        "long arrays are not supported",
    ));
    assert!(matches!(
        sink.map_client_error(failure),
        SinkError::SchemaMismatch(_)
    ));
}

#[test]
fn given_debug_output_when_formatted_should_not_leak_connection_string() {
    let mut config = config();
    config.connection_string =
        SecretString::from("ws::addr=questdb:9000;username=admin;password=hunter2;");
    let sink = QuestDbSink::new(1, config);
    let rendered = format!("{sink:?}");
    assert!(!rendered.contains("hunter2"), "{rendered}");
}

#[test]
fn connection_string_is_handed_through() {
    let sink = QuestDbSink::new(1, config());
    assert_eq!(
        sink.connection_string.expose_secret(),
        "ws::addr=localhost:9000;"
    );
    assert_eq!(sink.id, 1);
}

#[test]
fn configured_values_take_the_place_of_the_defaults() {
    let mut config = config();
    config.timestamp_source = Some("ORIGIN".to_owned());
    config.timestamp_unit = Some("Ms".to_owned());
    config.symbol_columns = Some(vec!["a".to_owned(), "b".to_owned(), "a".to_owned()]);
    config.uuid_columns = Some(vec!["c".to_owned()]);
    config.include_stream_column = Some(false);
    config.include_topic_column = Some(false);
    config.include_partition_column = Some(true);
    config.include_offset_column = Some(true);
    config.include_headers = Some(true);
    config.ack_level = Some("Durable".to_owned());
    config.flush_timeout = Some("1m 2s 5ms".to_owned());
    config.batch_size = Some(7);
    config.log_rejected_payload = Some(true);
    config.verbose_logging = Some(true);
    let sink = QuestDbSink::new(3, config);
    assert!(sink.init_error.is_none());
    assert_eq!(sink.mapping.timestamp_source, TimestampSource::Origin);
    assert_eq!(sink.mapping.timestamp_unit, TimestampUnit::Millis);
    assert!(sink.mapping.symbol_columns.contains("a"));
    assert!(sink.mapping.symbol_columns.contains("b"));
    assert!(!sink.mapping.symbol_columns.contains("c"));
    assert!(sink.mapping.uuid_columns.contains("c"));
    assert!(!sink.mapping.include_stream_column);
    assert!(!sink.mapping.include_topic_column);
    assert!(sink.mapping.include_partition_column);
    assert!(sink.mapping.include_offset_column);
    assert!(sink.mapping.include_headers);
    assert_eq!(sink.ack_level, AckLevel::Durable);
    assert_eq!(duration(sink.flush_timeout), Duration::from_millis(62_005));
    assert_eq!(sink.batch_size, 7);
    assert!(sink.log_rejected_payload);
    assert!(sink.verbose);
}

#[test]
fn the_first_fault_of_a_config_is_the_one_recorded() {
    let mut config = config();
    config.symbol_columns = Some(vec!["id".to_owned()]);
    config.uuid_columns = Some(vec!["id".to_owned()]);
    assert_eq!(
        reason(QuestDbSink::new(1, config.clone()).init_error),
        "column id is listed in both symbol_columns and uuid_columns"
    );
    config.ack_level = Some("maybe".to_owned());
    assert_eq!(
        reason(QuestDbSink::new(1, config.clone()).init_error),
        "ack_level"
    );
    config.timestamp_source = Some("payload".to_owned());
    assert_eq!(
        reason(QuestDbSink::new(1, config.clone()).init_error),
        "timestamp_field"
    );
    config.timestamp_unit = Some("fortnights".to_owned());
    assert_eq!(
        reason(QuestDbSink::new(1, config.clone()).init_error),
        "timestamp_unit"
    );
    config.timestamp_source = Some("yesterday".to_owned());
    assert_eq!(
        reason(QuestDbSink::new(1, config.clone()).init_error),
        "timestamp_source"
    );
}

#[test]
fn a_timestamp_field_in_a_column_list_is_named() {
    let mut config = config();
    config.timestamp_field = Some("ts".to_owned());
    config.uuid_columns = Some(vec!["ts".to_owned()]);
    let sink = QuestDbSink::new(1, config);
    assert!(validate_column_overlap(&sink.mapping).is_err());
    assert_eq!(
        reason(sink.init_error),
        "timestamp_field ts cannot also be a symbol or uuid column"
    );
}

#[test]
fn an_init_error_is_handed_out_once() {
    let mut config = config();
    config.ack_level = Some("maybe".to_owned());
    let mut sink = QuestDbSink::new(1, config);
    assert!(sink.take_init_error().is_err());
    assert!(sink.take_init_error().is_ok());
}

#[test]
fn timeouts_are_read_from_any_numbers() {
    let mut config = config();
    for (text, read) in [
        ("1 5 00ms", Duration::from_millis(1500)),
        ("1h30m", Duration::from_secs(5400)),
        (" 2min 30.5s ", Duration::from_millis(150_500)),
        ("1. 25 s250ms", Duration::from_millis(1500)),
        ("7\u{b5}s 3us", Duration::from_micros(10)),
        ("1000000000000000ns", Duration::from_secs(1_000_000)),
        ("1000000000s 1000000000ns", Duration::from_secs(1_000_000_001)),
        (
            "123456789012345s 1000ms 1000000000ns",
            Duration::from_secs(123_456_789_012_347),
        ),
        (
            "18446744073709551615s 999999999ns",
            Duration::new(u64::MAX, 999_999_999),
        ),
        (
            "18446744073709551614s 500ms 500ms",
            Duration::from_secs(u64::MAX),
        ),
    ] {
        config.flush_timeout = Some(text.to_owned());
        let sink = QuestDbSink::new(1, config.clone());
        assert_eq!(duration(sink.flush_timeout), read, "{text}");
        assert!(!sink.timeout_defaulted, "{text}");
        assert!(sink.init_error.is_none());
    }
}

#[test]
fn timeouts_past_every_span_are_taken_for_the_default() {
    let mut config = config();
    for text in [
        "99999999999999999999999s",
        "18446744073709551615s 1s",
        "18446744073709551615s 1000ms",
        "18446744073709551615s 500ms 0.5s",
        "584554530872years 18446744073709551615s",
        "123456789012345s 123456789012345x",
        "1s 2",
        "",
    ] {
        config.flush_timeout = Some(text.to_owned());
        let sink = QuestDbSink::new(1, config.clone());
        assert_eq!(duration(sink.flush_timeout), Duration::from_secs(30), "{text}");
        assert!(sink.timeout_defaulted, "{text}");
        assert!(read_span(text).is_none(), "{text}");
    }
}

#[test]
fn a_timeout_read_elsewhere_is_taken_as_it_is() {
    let read = Timeout {
        secs: 10_000,
        nanos: 100,
    };
    let mut config = config();
    config.flush_timeout = Some("x".to_owned());
    let sink = QuestDbSink::with_timeout(1, config, Some(read));
    assert_eq!(sink.flush_timeout, read);
    assert!(!sink.timeout_defaulted);
}

#[test]
fn a_failed_call_belongs_to_its_half_of_the_flush() {
    let sink = QuestDbSink::new(1, config());
    for (call, phase) in [
        (FlushCall::Borrow, FlushPhase::Publishing),
        (FlushCall::Publish, FlushPhase::Publishing),
        (FlushCall::Await, FlushPhase::Awaiting),
    ] {
        let failure = call_failed(call, questdb::Error::new(ErrorCode::SocketError, "reset"));
        assert_eq!(failure.phase, phase);
        assert_eq!(failure.error.msg(), "reset");
        let error = sink.map_client_error(failure);
        assert_eq!(
            matches!(error, SinkError::CannotStoreData(_)),
            call != FlushCall::Await
        );
    }
}

#[test]
fn a_timeout_that_cannot_be_read_is_warned_of() {
    let mut config = config();
    assert!(
        QuestDbSink::new(4, config.clone())
            .timeout_warning_text()
            .is_none()
    );
    config.flush_timeout = Some("soon".to_owned());
    assert_eq!(
        QuestDbSink::new(4, config).timeout_warning_text().as_deref(),
        Some("Invalid flush_timeout for QuestDB sink ID: 4, defaulting to 30s")
    );
}

#[test]
fn errors_say_what_is_wrong() {
    for error in [
        SinkError::InvalidConfigValue("x".to_owned()),
        SinkError::CannotStoreData("x".to_owned()),
        SinkError::SchemaMismatch("x".to_owned()),
        SinkError::PermanentHttpError("x".to_owned()),
        SinkError::InitError("x".to_owned()),
    ] {
        assert_eq!(error.message(), "x");
    }
}

#[test]
fn ack_levels_are_read_whatever_their_case() {
    assert_eq!(parse_ack_level(None), Some(AckLevel::Ok));
    assert_eq!(parse_ack_level(Some("OK")), Some(AckLevel::Ok));
    assert_eq!(parse_ack_level(Some("dUrAbLe")), Some(AckLevel::Durable));
    assert_eq!(parse_ack_level(Some("durabl")), None);
    assert_eq!(parse_ack_level(Some("durable ")), None);
}

#[test]
fn every_transport_code_is_retryable_and_no_other() {
    for code in [
        ErrorCode::SocketError,
        ErrorCode::ConnectTimeout,
        ErrorCode::FailoverRetry,
        ErrorCode::RoleMismatch,
        ErrorCode::ServerFlushError,
        ErrorCode::ServerInternalError,
        ErrorCode::CouldNotResolveAddr,
    ] {
        assert!(is_retryable(code, false), "{code:?}");
        assert!(!is_retryable(code, true), "{code:?}");
        assert!(is_transient(&questdb::Error::new(code, "x")), "{code:?}");
    }
    for code in [
        ErrorCode::InvalidApiCall,
        ErrorCode::InvalidUtf8,
        ErrorCode::InvalidName,
        ErrorCode::InvalidTimestamp,
        ErrorCode::AuthError,
        ErrorCode::TlsError,
        ErrorCode::ProtocolError,
    ] {
        assert!(!is_retryable(code, false), "{code:?}");
        assert!(!is_transient(&questdb::Error::new(code, "x")), "{code:?}");
    }
}

#[test]
fn a_mapped_error_names_the_sink_and_the_cause() {
    let sink = QuestDbSink::new(12, config());
    let failure = FlushError::publishing(questdb::Error::new(ErrorCode::AuthError, "denied"));
    match sink.map_client_error(failure) {
        SinkError::PermanentHttpError(text) => assert_eq!(text, "QuestDB sink ID: 12: denied"),
        other => panic!("unexpected {other:?}"),
    }
}

#[test]
fn a_schema_mismatch_while_awaiting_is_a_schema_error() {
    let sink = QuestDbSink::new(1, config());
    let failure = FlushError::awaiting(questdb::Error::new(
        ErrorCode::ServerSchemaMismatch,
        "long arrays are not supported",
    ));
    assert!(matches!(
        sink.map_client_error(failure),
        SinkError::SchemaMismatch(_)
    ));
}

#[test]
fn failed_tasks_and_connections_are_reported() {
    assert!(matches!(
        connect_task_error("cancelled"),
        SinkError::InitError(text) if text == "connect task failed: cancelled"
    ));
    assert!(matches!(
        connect_error(&questdb::Error::new(ErrorCode::SocketError, "refused")),
        SinkError::InitError(text) if text == "cannot connect to QuestDB: refused"
    ));
    assert!(matches!(
        flush_task_error("panicked"),
        SinkError::CannotStoreData(text) if text == "blocking flush task failed: panicked"
    ));
}

#[test]
fn only_batches_with_rows_are_flushed_and_only_some_awaited() {
    let outcome = |rows_written: usize| BatchOutcome {
        rows_written,
        rejected_rows: 1,
        last_rejection: Some("x".to_owned()),
    };
    let mut config = config();
    let sink = QuestDbSink::new(1, config.clone());
    assert_eq!(sink.flush_policy().flush_step(&outcome(0)), FlushStep::Skip);
    assert_eq!(sink.flush_policy().flush_step(&outcome(1)), FlushStep::PublishAndAwait);
    config.flush_timeout = Some("0s".to_owned());
    let sink = QuestDbSink::new(1, config.clone());
    assert_eq!(sink.flush_policy().flush_step(&outcome(1)), FlushStep::Publish);
    config.ack_level = Some("durable".to_owned());
    let sink = QuestDbSink::new(1, config);
    assert_eq!(sink.flush_policy().flush_step(&outcome(1)), FlushStep::PublishAndAwait);
}
