use questdb::ErrorCode;
use questdb::ingress::{Buffer, ProtocolVersion, TimestampNanos};
use questdb_sink::array::array_depth;
use questdb_sink::client::{Stamp, same_column};
use questdb_sink::columns::ColumnSet;
use questdb_sink::json::{Document, Value};
use questdb_sink::mapping::{micros_or_now, scalar_to_symbol, timestamp_number};
use questdb_sink::message::{ConsumedMessage, Payload};
use questdb_sink::uuid::parse_uuid;
use questdb_sink::{Mapping, RowContext, RowError, TimestampSource, TimestampUnit};
use simd_json::prelude::{ValueAsArray, ValueAsObject};
use simd_json::{OwnedValue, StaticNode};

/// V1 is the all-text InfluxDB-compatible encoding, so the exact output can be
/// asserted.
fn buffer() -> Buffer {
    Buffer::new(ProtocolVersion::V1)
}

fn mapping() -> Mapping {
    Mapping {
        table: "events".to_owned(),
        symbol_columns: ColumnSet::new(),
        uuid_columns: ColumnSet::new(),
        timestamp_source: TimestampSource::Message,
        timestamp_field: None,
        timestamp_unit: TimestampUnit::Auto,
        include_stream_column: false,
        include_topic_column: false,
        include_partition_column: false,
        include_offset_column: false,
        include_headers: false,
    }
}

fn context() -> RowContext<'static> {
    RowContext {
        stream: "user_events",
        topic: "trades",
        partition_id: 3,
    }
}

fn parsed(json: &str) -> OwnedValue {
    let mut bytes = json.as_bytes().to_vec();
    simd_json::to_owned_value(&mut bytes).unwrap()
}

fn value(value: &OwnedValue) -> Value {
    match value {
        OwnedValue::Static(node) => Value::Static(*node),
        OwnedValue::String(text) => Value::String(text.clone()),
        OwnedValue::Array(items) => Value::Array(items.iter().map(self::value).collect()),
        OwnedValue::Object(_) => Value::Object(value.clone()),
    }
}

fn document(raw: OwnedValue) -> Document {
    let fields = raw.as_object().map(|object| {
        object
            .iter()
            .map(|(name, field)| (name.clone(), value(field)))
            .collect()
    });
    Document { raw, fields }
}

fn json_message(json: &str) -> ConsumedMessage {
    ConsumedMessage {
        id: 7,
        offset: 42,
        checksum: 0,
        timestamp: 1_788_523_200_000_000,
        origin_timestamp: 1_700_000_000_000_000,
        headers: None,
        payload: Payload::Json(document(parsed(json))),
    }
}

fn rendered(buffer: &Buffer) -> String {
    String::from_utf8_lossy(buffer.as_bytes()).into_owned()
}

/// The row of `json`, as text.
fn line(mapping: &Mapping, json: &str) -> String {
    let mut buffer = buffer();
    mapping
        .append_row(&mut buffer, &json_message(json), context())
        .unwrap();
    rendered(&buffer)
}

/// Why the row of `json` is invalid.
fn fault(mapping: &Mapping, json: &str) -> String {
    let mut buffer = buffer();
    let error = mapping
        .append_row(&mut buffer, &json_message(json), context())
        .unwrap_err();
    assert!(buffer.is_empty(), "rejected row must leave nothing behind");
    match error {
        RowError::Invalid(reason) => reason,
        RowError::Client(error) => panic!("unexpected {error:?}"),
    }
}

#[test]
fn given_symbol_columns_when_appending_should_emit_symbols_before_columns() {
    let mut mapping = mapping();
    mapping.symbol_columns.insert("side".to_owned());
    let mut buffer = buffer();

    mapping
        .append_row(
            &mut buffer,
            &json_message(r#"{"side":"buy","price":1.5}"#),
            context(),
        )
        .unwrap();

    let line = rendered(&buffer);
    let symbol_at = line.find("side=buy").expect("symbol missing");
    let column_at = line.find("price=").expect("column missing");
    assert!(
        symbol_at < column_at,
        "symbol must precede column, got: {line}"
    );
}

#[test]
fn given_metadata_flags_when_appending_should_add_stream_topic_partition_offset() {
    let mut mapping = mapping();
    mapping.include_stream_column = true;
    mapping.include_topic_column = true;
    mapping.include_partition_column = true;
    mapping.include_offset_column = true;
    let mut buffer = buffer();

    mapping
        .append_row(&mut buffer, &json_message(r#"{"price":1.5}"#), context())
        .unwrap();

    let line = rendered(&buffer);
    assert!(line.contains("stream=user_events"), "{line}");
    assert!(line.contains("topic=trades"), "{line}");
    assert!(line.contains("partition_id=3i"), "{line}");
    assert!(line.contains("offset=42i"), "{line}");
}

#[test]
fn given_null_field_when_appending_should_omit_the_column() {
    let mut buffer = buffer();
    mapping()
        .append_row(
            &mut buffer,
            &json_message(r#"{"price":1.5,"missing":null}"#),
            context(),
        )
        .unwrap();

    let line = rendered(&buffer);
    assert!(line.contains("price="), "{line}");
    assert!(
        !line.contains("missing"),
        "null must be omitted, got: {line}"
    );
}

#[test]
fn given_nested_object_when_appending_should_store_json_text() {
    let mut buffer = buffer();
    mapping()
        .append_row(
            &mut buffer,
            &json_message(r#"{"meta":{"venue":"nyse"}}"#),
            context(),
        )
        .unwrap();

    assert!(rendered(&buffer).contains("venue"), "{}", rendered(&buffer));
}

#[test]
fn given_message_timestamp_source_when_appending_should_use_message_timestamp() {
    let mut buffer = buffer();
    mapping()
        .append_row(&mut buffer, &json_message(r#"{"price":1.5}"#), context())
        .unwrap();

    // Message timestamp is microseconds; ILP renders nanoseconds.
    assert!(
        rendered(&buffer).contains("1788523200000000000"),
        "{}",
        rendered(&buffer)
    );
}

#[test]
fn given_origin_timestamp_source_when_appending_should_use_origin_timestamp() {
    let mut mapping = mapping();
    mapping.timestamp_source = TimestampSource::Origin;
    let mut buffer = buffer();

    mapping
        .append_row(&mut buffer, &json_message(r#"{"price":1.5}"#), context())
        .unwrap();

    assert!(
        rendered(&buffer).contains("1700000000000000000"),
        "{}",
        rendered(&buffer)
    );
}

#[test]
fn given_payload_timestamp_source_when_appending_should_consume_the_field() {
    let mut mapping = mapping();
    mapping.timestamp_source = TimestampSource::Payload;
    mapping.timestamp_field = Some("event_time".to_owned());
    mapping.timestamp_unit = TimestampUnit::Micros;
    let mut buffer = buffer();

    mapping
        .append_row(
            &mut buffer,
            &json_message(r#"{"event_time":1788523200000000,"price":1.5}"#),
            context(),
        )
        .unwrap();

    let line = rendered(&buffer);
    assert!(line.contains("1788523200000000000"), "{line}");
    assert!(
        !line.contains("event_time="),
        "timestamp field must not double as a column, got: {line}"
    );
}

#[test]
fn given_missing_payload_timestamp_when_appending_should_reject_row() {
    let mut mapping = mapping();
    mapping.timestamp_source = TimestampSource::Payload;
    mapping.timestamp_field = Some("event_time".to_owned());
    let mut buffer = buffer();

    let error = mapping
        .append_row(&mut buffer, &json_message(r#"{"price":1.5}"#), context())
        .unwrap_err();

    assert!(matches!(error, RowError::Invalid(_)));
    assert!(buffer.is_empty(), "rejected row must leave nothing behind");
}

#[test]
fn given_non_object_payload_when_appending_should_reject_row() {
    let mut buffer = buffer();
    let error = mapping()
        .append_row(&mut buffer, &json_message("[1,2,3]"), context())
        .unwrap_err();

    assert!(matches!(error, RowError::Invalid(_)));
    assert!(buffer.is_empty());
}

#[test]
fn given_mid_row_failure_when_appending_should_rewind_and_keep_batch_usable() {
    // The bad UUID is reached only after the table, a symbol and a column
    // are already encoded, so this exercises the rewind rather than an
    // up-front rejection.
    let mut mapping = mapping();
    mapping.symbol_columns.insert("side".to_owned());
    mapping.uuid_columns.insert("trade_id".to_owned());
    let mut buffer = buffer();

    mapping
        .append_row(
            &mut buffer,
            &json_message(r#"{"side":"buy","price":1.0}"#),
            context(),
        )
        .unwrap();
    let after_good = rendered(&buffer);

    let error = mapping
        .append_row(
            &mut buffer,
            &json_message(r#"{"side":"sell","price":2.0,"trade_id":"not-a-uuid"}"#),
            context(),
        )
        .unwrap_err();
    assert!(matches!(error, RowError::Invalid(_)));
    assert_eq!(
        rendered(&buffer),
        after_good,
        "rejected row must be rewound exactly"
    );

    // The buffer is still usable for the next record.
    mapping
        .append_row(
            &mut buffer,
            &json_message(r#"{"side":"buy","price":3.0}"#),
            context(),
        )
        .unwrap();
    assert_eq!(buffer.row_count(), 2);
}

#[test]
fn given_headers_enabled_when_appending_should_prefix_header_columns() {
    let mut mapping = mapping();
    mapping.include_headers = true;
    let mut message = json_message(r#"{"price":1.5}"#);
    message.headers = Some(vec![("source".to_owned(), "gateway".to_owned())]);
    let mut buffer = buffer();

    mapping
        .append_row(&mut buffer, &message, context())
        .unwrap();

    assert!(
        rendered(&buffer).contains("header_source="),
        "{}",
        rendered(&buffer)
    );
}

#[test]
fn given_text_payload_when_appending_should_store_it_in_payload_column() {
    let mut buffer = buffer();
    let mut message = json_message(r#"{"unused":1}"#);
    message.payload = Payload::Text("raw body".to_owned());

    mapping()
        .append_row(&mut buffer, &message, context())
        .unwrap();

    assert!(
        rendered(&buffer).contains("payload="),
        "{}",
        rendered(&buffer)
    );
}

#[test]
fn given_every_structureless_payload_when_appending_should_store_it_verbatim() {
    // Raw, Proto, FlatBuffer and Avro all reach QuestDB through the same
    // `payload` column, so each variant must round-trip its bytes rather
    // than being dropped for having no JSON fields.
    let body = "structureless body";
    let variants = [
        Payload::Raw(body.as_bytes().to_vec()),
        Payload::Proto(body.to_owned()),
        Payload::FlatBuffer(body.as_bytes().to_vec()),
        Payload::Avro(body.as_bytes().to_vec()),
    ];

    for payload in variants {
        let label = format!("{payload:?}");
        let mut buffer = buffer();
        let mut message = json_message(r#"{"unused":1}"#);
        message.payload = payload;

        mapping()
            .append_row(&mut buffer, &message, context())
            .unwrap();

        let line = rendered(&buffer);
        assert!(line.contains(body), "{label} did not round-trip: {line}");
    }
}

#[test]
fn given_non_utf8_binary_payload_when_appending_should_reject_row() {
    // 0xFF is never valid UTF-8, and a VARCHAR column cannot hold it.
    let mut buffer = buffer();
    let mut message = json_message(r#"{"unused":1}"#);
    message.payload = Payload::Raw(vec![0xFF, 0xFE, 0xFD]);

    let error = mapping()
        .append_row(&mut buffer, &message, context())
        .unwrap_err();

    assert!(matches!(error, RowError::Invalid(_)));
    assert!(buffer.is_empty(), "rejected row must leave nothing behind");
}

#[test]
fn given_structureless_payload_when_metadata_enabled_should_still_add_columns() {
    // A payload with no fields must not skip the stream/topic/offset
    // columns, which are the only way to trace such a row back.
    let mut mapping = mapping();
    mapping.include_stream_column = true;
    mapping.include_topic_column = true;
    mapping.include_offset_column = true;
    let mut buffer = buffer();
    let mut message = json_message(r#"{"unused":1}"#);
    message.payload = Payload::Text("body".to_owned());

    mapping
        .append_row(&mut buffer, &message, context())
        .unwrap();

    let line = rendered(&buffer);
    assert!(line.contains("stream=user_events"), "{line}");
    assert!(line.contains("topic=trades"), "{line}");
    assert!(line.contains("offset=42i"), "{line}");
    assert!(line.contains("payload="), "{line}");
}

#[test]
fn given_canonical_uuid_when_parsed_should_use_java_uuid_halves() {
    let (lo, hi) = parse_uuid("123e4567-e89b-12d3-a456-426614174000").unwrap();
    assert_eq!(hi, 0x123e_4567_e89b_12d3);
    assert_eq!(lo, 0xa456_4266_1417_4000);
}

#[test]
fn given_uuid_without_dashes_when_parsed_should_succeed() {
    let dashed = parse_uuid("123e4567-e89b-12d3-a456-426614174000").unwrap();
    let plain = parse_uuid("123e4567e89b12d3a456426614174000").unwrap();
    assert_eq!(dashed, plain);
}

#[test]
fn given_malformed_uuid_when_parsed_should_return_none() {
    assert!(parse_uuid("not-a-uuid").is_none());
    assert!(parse_uuid("123e4567-e89b-12d3-a456-42661417400").is_none());
    assert!(parse_uuid("123e4567-e89b-12d3-a456-4266141740000").is_none());
}

#[test]
fn given_auto_unit_when_converting_should_pick_bucket_by_magnitude() {
    // 2026-09-04T12:00:00Z in each unit maps to the same nanosecond value.
    let nanos = 1_788_523_200_000_000_000i64;
    assert_eq!(TimestampUnit::Auto.to_nanos(1_788_523_200), nanos);
    assert_eq!(TimestampUnit::Auto.to_nanos(1_788_523_200_000), nanos);
    assert_eq!(TimestampUnit::Auto.to_nanos(1_788_523_200_000_000), nanos);
    assert_eq!(TimestampUnit::Auto.to_nanos(nanos), nanos);
}

#[test]
fn given_explicit_unit_when_converting_should_ignore_magnitude() {
    assert_eq!(TimestampUnit::Seconds.to_nanos(1), 1_000_000_000);
    assert_eq!(TimestampUnit::Millis.to_nanos(1), 1_000_000);
    assert_eq!(TimestampUnit::Micros.to_nanos(1), 1_000);
    assert_eq!(TimestampUnit::Nanos.to_nanos(1), 1);
}

#[test]
fn given_unknown_names_when_parsing_enums_should_return_none() {
    assert!(TimestampSource::parse(Some("nonsense")).is_none());
    assert!(TimestampUnit::parse(Some("fortnights")).is_none());
    assert_eq!(TimestampSource::parse(None), Some(TimestampSource::Message));
    assert_eq!(TimestampUnit::parse(None), Some(TimestampUnit::Auto));
}

fn items(json: &str) -> Vec<Value> {
    parsed(json).as_array().unwrap().iter().map(value).collect()
}

#[test]
fn given_nested_arrays_when_measuring_depth_should_count_levels() {
    let flat = items("[1.0, 2.0]");
    let nested = items("[[1.0], [2.0]]");

    assert_eq!(array_depth(&flat), 1);
    assert_eq!(array_depth(&nested), 2);
}

#[test]
fn depth_goes_by_the_first_item() {
    assert_eq!(array_depth(&items("[]")), 1);
    assert_eq!(array_depth(&items("[1, [2]]")), 1);
    assert_eq!(array_depth(&items("[[[[1]]]]")), 4);
}

#[test]
fn names_are_read_whatever_their_case() {
    assert_eq!(
        TimestampSource::parse(Some("Server")),
        Some(TimestampSource::Server)
    );
    assert_eq!(
        TimestampSource::parse(Some("PAYLOAD")),
        Some(TimestampSource::Payload)
    );
    for (name, unit) in [
        ("auto", TimestampUnit::Auto),
        ("S", TimestampUnit::Seconds),
        ("seconds", TimestampUnit::Seconds),
        ("MS", TimestampUnit::Millis),
        ("Millis", TimestampUnit::Millis),
        ("us", TimestampUnit::Micros),
        ("micros", TimestampUnit::Micros),
        ("nS", TimestampUnit::Nanos),
        ("NANOS", TimestampUnit::Nanos),
    ] {
        assert_eq!(TimestampUnit::parse(Some(name)), Some(unit), "{name}");
    }
    assert_eq!(TimestampUnit::parse(Some("")), None);
    assert_eq!(TimestampUnit::default(), TimestampUnit::Auto);
    assert_eq!(TimestampSource::default(), TimestampSource::Message);
}

#[test]
fn nanoseconds_saturate_at_both_ends() {
    assert_eq!(TimestampUnit::Seconds.to_nanos(i64::MAX), i64::MAX);
    assert_eq!(TimestampUnit::Seconds.to_nanos(i64::MIN), i64::MIN);
    assert_eq!(TimestampUnit::Millis.to_nanos(-9_223_372_036_855), i64::MIN);
    assert_eq!(
        TimestampUnit::Millis.to_nanos(-9_223_372_036_854),
        -9_223_372_036_854_000_000
    );
    assert_eq!(TimestampUnit::Auto.to_nanos(99_999_999_999), i64::MAX);
    assert_eq!(TimestampUnit::Auto.to_nanos(i64::MIN), i64::MIN);
    assert_eq!(
        TimestampUnit::Auto.to_nanos(-100_000_000_000),
        -100_000_000_000_000_000
    );
}

#[test]
fn uuid_digits_may_be_capitals_and_dashes_may_stand_anywhere() {
    let plain = parse_uuid("123e4567e89b12d3a456426614174000").unwrap();
    assert_eq!(parse_uuid("123E4567E89B12D3A456426614174000"), Some(plain));
    assert_eq!(parse_uuid("-123e4567e89b12d3a45642661417400--0-"), Some(plain));
    assert_eq!(parse_uuid("123e4567e89b12d3a45642661417400g"), None);
    assert_eq!(parse_uuid(""), None);
    assert_eq!(
        parse_uuid("ffffffffffffffffffffffffffffffff"),
        Some((u64::MAX, u64::MAX))
    );
}

#[test]
fn a_row_of_every_scalar_type_reads_as_expected() {
    assert_eq!(
        line(
            &mapping(),
            r#"{"a":true,"b":-7,"c":1.25,"d":"x","e":9223372036854775807}"#
        ),
        "events a=t,b=-7i,c=1.25,d=\"x\",e=9223372036854775807i 1788523200000000000\n"
    );
}

#[test]
fn integers_past_the_signed_range_become_doubles() {
    assert_eq!(
        line(&mapping(), r#"{"a":9223372036854775808}"#),
        "events a=9.223372036854776e18 1788523200000000000\n"
    );
}

#[test]
fn scalars_become_symbols() {
    let mut mapping = mapping();
    for name in ["a", "b", "c", "d", "e"] {
        mapping.symbol_columns.insert(name.to_owned());
    }
    assert_eq!(
        line(
            &mapping,
            r#"{"x":1,"a":true,"b":-7,"c":1.5,"d":"buy","e":null}"#
        ),
        "events,a=true,b=-7,c=1.5,d=buy x=1i 1788523200000000000\n"
    );
    assert_eq!(
        scalar_to_symbol(&Value::Static(StaticNode::Bool(false))).as_deref(),
        Some("false")
    );
    assert_eq!(
        scalar_to_symbol(&Value::Static(StaticNode::U64(u64::MAX))).as_deref(),
        Some("18446744073709551615")
    );
    assert_eq!(
        scalar_to_symbol(&Value::Static(StaticNode::I64(i64::MIN))).as_deref(),
        Some("-9223372036854775808")
    );
    assert_eq!(
        scalar_to_symbol(&Value::Static(StaticNode::F64(-0.1))).as_deref(),
        Some("-0.1")
    );
    assert_eq!(scalar_to_symbol(&Value::Static(StaticNode::Null)), None);
}

#[test]
fn nested_objects_are_stored_as_their_json_text() {
    assert_eq!(
        line(&mapping(), r#"{"meta":{"venue":"nyse"}}"#),
        "events meta=\"{\\\"venue\\\":\\\"nyse\\\"}\" 1788523200000000000\n"
    );
}

#[test]
fn arrays_and_objects_are_kept_where_they_are_listed_as_symbols() {
    let mut mapping = mapping();
    mapping.symbol_columns.insert("meta".to_owned());
    mapping.symbol_columns.insert("a".to_owned());
    assert_eq!(
        line(&mapping, r#"{"meta":{"venue":"nyse"}}"#),
        "events meta=\"{\\\"venue\\\":\\\"nyse\\\"}\" 1788523200000000000\n"
    );
    mapping.timestamp_source = TimestampSource::Payload;
    mapping.timestamp_field = Some("ts".to_owned());
    mapping.timestamp_unit = TimestampUnit::Nanos;
    let mut buffer = Buffer::new(ProtocolVersion::V2);
    mapping
        .append_row(&mut buffer, &json_message(r#"{"ts":5,"a":[1,2]}"#), context())
        .unwrap();
    assert_eq!(
        buffer.as_bytes(),
        expected(|buffer| {
            buffer.column_arr("a", &vec![1.0f64, 2.0]).unwrap();
        })
    );
    assert_eq!(
        fault(&mapping, r#"{"ts":5,"a":["x"]}"#),
        "column a is not a numeric array"
    );
}

#[test]
fn names_that_are_not_ascii_are_written_like_others() {
    let mut mapping = mapping();
    mapping.include_headers = true;
    mapping.include_offset_column = true;
    mapping.symbol_columns.insert("\u{df}".to_owned());
    let mut message = json_message(
        "{\"\u{e9}\":1,\"\u{e8}\":\"x\",\"a\":true,\"\u{df}\":\"y\",\"\u{436}\":2}",
    );
    message.headers = Some(vec![
        ("\u{fc}".to_owned(), "1".to_owned()),
        ("\u{f6}".to_owned(), "2".to_owned()),
        ("b".to_owned(), "3".to_owned()),
    ]);
    let mut text = buffer();
    mapping.append_row(&mut text, &message, context()).unwrap();
    assert_eq!(
        rendered(&text),
        "events,\u{df}=y offset=42i,header_\u{fc}=\"1\",header_\u{f6}=\"2\",header_b=\"3\",\
         \u{e9}=1i,\u{e8}=\"x\",a=t,\u{436}=2i 1788523200000000000\n"
    );
    let mut columnar = Buffer::new_qwp_ws();
    mapping
        .append_row(&mut columnar, &message, context())
        .unwrap();
    let columns = format!("{columnar:?}").matches("QwpWsColumnBuffer {").count();
    // Nine cells and the timestamp.
    assert_eq!(columns, 10);
}

#[test]
fn columns_are_the_same_whatever_the_case_of_their_letters() {
    assert!(same_column("Side", "sIDE"));
    assert!(!same_column("side", "sides"));
    assert!(same_column("\u{c9}t\u{e9}", "\u{e9}T\u{c9}"));
    assert!(!same_column("\u{e9}", "e"));
    // The Kelvin sign is small as a `k`.
    assert!(same_column("\u{212a}", "K"));
    let mut mapping = mapping();
    mapping.timestamp_source = TimestampSource::Server;
    let message = json_message("{\"\u{c9}\":1,\"\u{e9}\":2,\"a\":3}");
    let mut columnar = Buffer::new_qwp_ws();
    mapping
        .append_row(&mut columnar, &message, context())
        .unwrap();
    let columns = format!("{columnar:?}").matches("QwpWsColumnBuffer {").count();
    assert_eq!(columns, 2);
}

#[test]
fn metadata_stands_between_symbols_and_fields() {
    let mut mapping = mapping();
    mapping.include_stream_column = true;
    mapping.include_topic_column = true;
    mapping.include_partition_column = true;
    mapping.include_offset_column = true;
    mapping.include_headers = true;
    mapping.symbol_columns.insert("side".to_owned());
    let mut message = json_message(r#"{"price":1.5,"side":"buy"}"#);
    message.headers = Some(vec![
        ("a".to_owned(), "1".to_owned()),
        ("b".to_owned(), "2".to_owned()),
    ]);
    let mut buffer = buffer();
    mapping
        .append_row(&mut buffer, &message, context())
        .unwrap();
    assert_eq!(
        rendered(&buffer),
        "events,stream=user_events,topic=trades,side=buy partition_id=3i,offset=42i,\
         header_a=\"1\",header_b=\"2\",price=1.5 1788523200000000000\n"
    );
}

#[test]
fn headers_are_left_out_unless_asked_for() {
    let mut message = json_message(r#"{"price":1.5}"#);
    message.headers = Some(vec![("a".to_owned(), "1".to_owned())]);
    let mut buffer = buffer();
    mapping()
        .append_row(&mut buffer, &message, context())
        .unwrap();
    assert_eq!(rendered(&buffer), "events price=1.5 1788523200000000000\n");
}

#[test]
fn offsets_keep_their_bits() {
    let mut mapping = mapping();
    mapping.include_offset_column = true;
    let mut message = json_message("{}");
    message.offset = u64::MAX;
    let mut buffer = buffer();
    mapping
        .append_row(&mut buffer, &message, context())
        .unwrap();
    assert_eq!(rendered(&buffer), "events offset=-1i 1788523200000000000\n");
}

#[test]
fn an_unset_timestamp_is_left_to_the_server() {
    assert_eq!(micros_or_now(0), None);
    assert_eq!(micros_or_now(5), Some(Stamp::Micros(5)));
    for source in [TimestampSource::Message, TimestampSource::Origin] {
        let mut mapping = mapping();
        mapping.timestamp_source = source;
        let mut message = json_message(r#"{"price":1.5}"#);
        message.timestamp = 0;
        message.origin_timestamp = 0;
        let mut buffer = buffer();
        mapping
            .append_row(&mut buffer, &message, context())
            .unwrap();
        assert_eq!(rendered(&buffer), "events price=1.5\n");
    }
}

#[test]
fn the_server_stamps_rows_when_asked_to() {
    let mut mapping = mapping();
    mapping.timestamp_source = TimestampSource::Server;
    assert_eq!(line(&mapping, r#"{"price":1.5}"#), "events price=1.5\n");
}

#[test]
fn payload_timestamps_are_read_from_any_number() {
    let mut mapping = mapping();
    mapping.timestamp_source = TimestampSource::Payload;
    mapping.timestamp_field = Some("ts".to_owned());
    assert_eq!(
        line(&mapping, r#"{"a":1,"ts":1788523200}"#),
        "events a=1i 1788523200000000000\n"
    );
    mapping.timestamp_unit = TimestampUnit::Seconds;
    assert_eq!(
        line(&mapping, r#"{"a":1,"ts":12.9}"#),
        "events a=1i 12000000000\n"
    );
    assert_eq!(
        timestamp_number(&Value::Static(StaticNode::F64(-12.9))),
        Some(-12)
    );
    assert_eq!(
        timestamp_number(&Value::Static(StaticNode::F64(1e300))),
        Some(i64::MAX)
    );
    assert_eq!(
        timestamp_number(&Value::Static(StaticNode::U64(u64::MAX))),
        None
    );
}

#[test]
fn payload_timestamps_that_cannot_be_read_are_named() {
    let mut mapping = mapping();
    mapping.timestamp_source = TimestampSource::Payload;
    assert_eq!(fault(&mapping, r#"{"a":1}"#), "timestamp_field is not set");
    mapping.timestamp_field = Some("ts".to_owned());
    assert_eq!(fault(&mapping, r#"{"a":1}"#), "timestamp field ts is missing");
    assert_eq!(
        fault(&mapping, r#"{"a":1,"ts":"now"}"#),
        "timestamp field ts is not a number"
    );
    let mut message = json_message("{}");
    message.payload = Payload::Text("x".to_owned());
    let error = mapping
        .append_row(&mut buffer(), &message, context())
        .unwrap_err();
    assert!(matches!(
        error,
        RowError::Invalid(reason) if reason == "timestamp field ts is missing"
    ));
}

#[test]
fn invalid_payloads_are_named() {
    assert_eq!(fault(&mapping(), "[1]"), "JSON payload is not an object");
    let mut message = json_message("{}");
    message.payload = Payload::Avro(vec![0xC3]);
    let error = mapping()
        .append_row(&mut buffer(), &message, context())
        .unwrap_err();
    assert!(matches!(
        error,
        RowError::Invalid(reason) if reason == "payload is not valid UTF-8"
    ));
}

#[test]
fn invalid_columns_are_named() {
    let mut mapping = mapping();
    mapping.uuid_columns.insert("id".to_owned());
    assert_eq!(
        fault(&mapping, r#"{"id":"x"}"#),
        "column id is not a valid UUID"
    );
    for json in [
        r#"{"a":[1,"x"]}"#,
        r#"{"a":[1,[2]]}"#,
        r#"{"a":[[1],2]}"#,
        r#"{"a":[[1],[null]]}"#,
        r#"{"a":[[[1]],[2]]}"#,
        r#"{"a":[[[1],[true]]]}"#,
    ] {
        assert_eq!(
            fault(&mapping, json),
            "column a is not a numeric array",
            "{json}"
        );
    }
    assert_eq!(
        fault(&mapping, r#"{"a":[[[[1]]]]}"#),
        "column a exceeds the supported array nesting depth of 3"
    );
}

/// The bytes of a row with the one column `write` gives it.
fn expected(write: impl Fn(&mut Buffer)) -> Vec<u8> {
    let mut buffer = Buffer::new(ProtocolVersion::V2);
    buffer.table("events").unwrap();
    write(&mut buffer);
    buffer.at(TimestampNanos::new(5)).unwrap();
    buffer.as_bytes().to_vec()
}

/// The bytes of the row of `json`.
fn actual(json: &str) -> Vec<u8> {
    let mut mapping = mapping();
    mapping.timestamp_source = TimestampSource::Payload;
    mapping.timestamp_field = Some("ts".to_owned());
    mapping.timestamp_unit = TimestampUnit::Nanos;
    let mut buffer = Buffer::new(ProtocolVersion::V2);
    mapping
        .append_row(&mut buffer, &json_message(json), context())
        .unwrap();
    buffer.as_bytes().to_vec()
}

#[test]
fn arrays_of_up_to_three_dimensions_are_widened_to_doubles() {
    assert_eq!(
        actual(r#"{"ts":5,"a":[1,2.5,-3]}"#),
        expected(|buffer| {
            buffer.column_arr("a", &vec![1.0f64, 2.5, -3.0]).unwrap();
        })
    );
    assert_eq!(
        actual(r#"{"ts":5,"a":[[1,2],[3,4]]}"#),
        expected(|buffer| {
            buffer
                .column_arr("a", &vec![vec![1.0f64, 2.0], vec![3.0, 4.0]])
                .unwrap();
        })
    );
    assert_eq!(
        actual(r#"{"ts":5,"a":[[[1,2]],[[3,4]],[[5,6]]]}"#),
        expected(|buffer| {
            buffer
                .column_arr(
                    "a",
                    &vec![
                        vec![vec![1.0f64, 2.0]],
                        vec![vec![3.0, 4.0]],
                        vec![vec![5.0, 6.0]],
                    ],
                )
                .unwrap();
        })
    );
    assert_eq!(
        actual(r#"{"ts":5,"a":1.5}"#),
        expected(|buffer| {
            buffer.column_f64("a", 1.5).unwrap();
        })
    );
}

#[test]
fn uuids_are_written_as_such() {
    let mut mapping = mapping();
    mapping.uuid_columns.insert("id".to_owned());
    let message = json_message(r#"{"id":"123e4567-e89b-12d3-a456-426614174000"}"#);
    let mut buffer = Buffer::new_qwp_ws();
    mapping
        .append_row(&mut buffer, &message, context())
        .unwrap();
    assert_eq!(buffer.row_count(), 1);
    let cell = format!("({}, {})", 0xa456_4266_1417_4000u64, 0x123e_4567_e89b_12d3u64);
    assert!(format!("{buffer:?}").contains(&cell), "{buffer:?}");
    // The text protocol has no such column: the client itself refuses it.
    let mut text = self::buffer();
    let error = mapping
        .append_row(&mut text, &message, context())
        .unwrap_err();
    assert!(matches!(
        error,
        RowError::Client(error) if error.code() == ErrorCode::InvalidApiCall
    ));
    assert!(text.is_empty());
}

#[test]
fn names_that_the_client_refuses_reject_the_row() {
    let mut mapping = mapping();
    mapping.table = "a?b".to_owned();
    let error = mapping
        .append_row(&mut buffer(), &json_message(r#"{"a":1}"#), context())
        .unwrap_err();
    assert!(matches!(
        error,
        RowError::Client(error) if error.code() == ErrorCode::InvalidName
    ));
}

#[test]
fn a_row_cannot_start_inside_another() {
    let mut buffer = buffer();
    buffer.table("other").unwrap();
    let error = mapping()
        .append_row(&mut buffer, &json_message(r#"{"a":1}"#), context())
        .unwrap_err();
    assert!(matches!(error, RowError::Client(_)));
    assert_eq!(rendered(&buffer), "other");
}

#[test]
fn a_rejected_row_is_rewound_from_a_columnar_buffer_too() {
    let mut mapping = mapping();
    mapping.uuid_columns.insert("id".to_owned());
    let mut buffer = Buffer::new_qwp_ws();
    let good = json_message(r#"{"a":1,"id":"123e4567-e89b-12d3-a456-426614174000"}"#);
    mapping.append_row(&mut buffer, &good, context()).unwrap();
    let before = buffer.len();
    let bad = json_message(r#"{"a":2,"b":3,"id":"x"}"#);
    mapping
        .append_row(&mut buffer, &bad, context())
        .unwrap_err();
    assert_eq!(buffer.len(), before);
    assert_eq!(buffer.row_count(), 1);
    mapping.append_row(&mut buffer, &good, context()).unwrap();
    assert_eq!(buffer.row_count(), 2);
    assert!(buffer.rewind_to_marker().is_err());
}

#[test]
fn timestamp_fields_are_known_by_name_and_source() {
    let mut mapping = mapping();
    mapping.timestamp_field = Some("ts".to_owned());
    assert!(!mapping.is_timestamp_field("ts"));
    mapping.timestamp_source = TimestampSource::Payload;
    assert!(mapping.is_timestamp_field("ts"));
    assert!(!mapping.is_timestamp_field("t"));
}

#[test]
fn column_sets_hold_each_name_once() {
    let mut set = ColumnSet::from_list(&vec!["a".to_owned(), "b".to_owned(), "a".to_owned()]);
    assert!(set.contains("a"));
    assert!(!set.contains("A"));
    assert!(!set.insert("b".to_owned()));
    assert!(set.insert("c".to_owned()));
    let mut other = ColumnSet::new();
    assert!(set.shared(&other).is_none());
    other.insert("c".to_owned());
    assert_eq!(set.shared(&other).map(String::as_str), Some("c"));
}

#[test]
fn a_repeated_column_is_left_to_the_client() {
    let mut mapping = mapping();
    mapping.include_stream_column = true;
    mapping.timestamp_source = TimestampSource::Server;
    mapping.symbol_columns.insert("Stream".to_owned());
    let repeated = json_message(r#"{"Stream":"other","a":1}"#);
    let plain = json_message(r#"{"a":1}"#);
    // The text protocol takes both cells.
    let mut text = buffer();
    mapping.append_row(&mut text, &repeated, context()).unwrap();
    assert_eq!(
        rendered(&text),
        "events,stream=user_events,Stream=other a=1i\n"
    );
    // The columnar one keeps the first.
    let mut columnar = Buffer::new_qwp_ws();
    mapping
        .append_row(&mut columnar, &repeated, context())
        .unwrap();
    let mut expected = Buffer::new_qwp_ws();
    mapping
        .append_row(&mut expected, &plain, context())
        .unwrap();
    assert_eq!(columnar.len(), expected.len());
    assert_eq!(columnar.row_count(), 1);
}

#[test]
fn later_ticks_are_never_earlier_instants() {
    let ticks = [i64::MIN, -5, 0, 7, 9_223_372_037, i64::MAX];
    for unit in [
        TimestampUnit::Seconds,
        TimestampUnit::Millis,
        TimestampUnit::Micros,
        TimestampUnit::Nanos,
    ] {
        for pair in ticks.windows(2) {
            assert!(unit.to_nanos(pair[0]) <= unit.to_nanos(pair[1]), "{pair:?}");
        }
    }
}
