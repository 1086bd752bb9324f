use questdb::ErrorCode;
use questdb::ingress::{Buffer, ProtocolVersion};
use questdb_sink::batch::{BatchOutcome, BatchReport, LogScope, fill_batch};
use questdb_sink::columns::ColumnSet;
use questdb_sink::consume::{Consumption, State};
use questdb_sink::flush::{FlushPhase, SinkError};
use questdb_sink::json::{Document, Value};
use questdb_sink::message::{ConsumedMessage, Payload};
use questdb_sink::preview::payload_preview;
use questdb_sink::{Mapping, RowContext, RowError, TimestampSource, TimestampUnit};
use simd_json::{OwnedValue, StaticNode};

fn mapping() -> Mapping {
    Mapping {
        table: "events".to_owned(),
        symbol_columns: ColumnSet::new(),
        uuid_columns: ColumnSet::new(),
        timestamp_source: TimestampSource::Server,
        timestamp_field: None,
        timestamp_unit: TimestampUnit::Auto,
        include_stream_column: false,
        include_topic_column: false,
        include_partition_column: false,
        include_offset_column: false,
        include_headers: false,
    }
}

fn context() -> RowContext<'static> {
    RowContext {
        stream: "s",
        topic: "t",
        partition_id: 3,
    }
}

fn message(offset: u64, payload: Payload) -> ConsumedMessage {
    ConsumedMessage {
        id: 100 + u128::from(offset),
        offset,
        checksum: 0,
        timestamp: 1,
        origin_timestamp: 1,
        headers: None,
        payload,
    }
}

fn good(offset: u64) -> ConsumedMessage {
    message(offset, Payload::Text(format!("body {offset}")))
}

fn bad(offset: u64) -> ConsumedMessage {
    message(offset, Payload::Raw(vec![0xFF]))
}

fn scope() -> LogScope {
    LogScope {
        id: 9,
        log_payload: false,
    }
}

fn filled(scope: LogScope, messages: &Vec<ConsumedMessage>) -> (BatchReport, String) {
    let mut buffer = Buffer::new(ProtocolVersion::V1);
    let report = fill_batch(&mapping(), scope, &mut buffer, messages, context()).unwrap();
    (
        report,
        String::from_utf8(buffer.as_bytes().to_vec()).unwrap(),
    )
}

#[test]
fn a_batch_holds_the_rows_of_the_messages_that_were_not_rejected() {
    let (report, rows) = filled(scope(), &vec![good(1), bad(2), good(3)]);
    assert_eq!(
        rows,
        "events payload=\"body 1\"\nevents payload=\"body 3\"\n"
    );
    assert_eq!(report.outcome.rows_written, 2);
    assert_eq!(report.outcome.rejected_rows, 1);
    assert_eq!(
        report.outcome.last_rejection.as_deref(),
        Some("payload is not valid UTF-8")
    );
    assert_eq!(
        report.lines,
        vec![
            "QuestDB sink ID: 9 rejected message, stream: s, topic: t, partition_id: 3, \
             offset: 2, message_id: 102, reason: payload is not valid UTF-8"
                .to_owned()
        ]
    );
}

#[test]
fn rejected_payloads_are_shown_when_asked_for() {
    let scope = LogScope {
        id: 9,
        log_payload: true,
    };
    let (report, _) = filled(scope, &vec![bad(2)]);
    assert_eq!(
        report.lines,
        vec![
            "QuestDB sink ID: 9 rejected message, stream: s, topic: t, partition_id: 3, \
             offset: 2, message_id: 102, reason: payload is not valid UTF-8, payload: <1 bytes>"
                .to_owned()
        ]
    );
}

#[test]
fn twenty_rejections_are_logged_one_by_one_and_the_rest_summed_up() {
    let (report, rows) = filled(scope(), &(0..20).map(bad).collect());
    assert_eq!(rows, "");
    assert_eq!(report.lines.len(), 20);
    let (report, _) = filled(scope(), &(0..25).map(bad).collect());
    assert_eq!(report.outcome.rejected_rows, 25);
    assert_eq!(report.lines.len(), 21);
    assert_eq!(
        report.lines[20],
        "QuestDB sink ID: 9 rejected 25 messages in this batch, stream: s, topic: t, \
         partition_id: 3; 5 further rejections were not logged individually"
    );
}

#[test]
fn an_empty_batch_reports_nothing() {
    let (report, rows) = filled(scope(), &vec![]);
    assert_eq!(rows, "");
    assert_eq!(report.outcome.rows_written, 0);
    assert_eq!(report.outcome.rejected_rows, 0);
    assert!(report.outcome.last_rejection.is_none());
    assert!(report.lines.is_empty());
}

#[test]
fn a_refusal_of_the_client_is_a_rejection_unless_it_may_pass() {
    let mut report = BatchReport::default();
    let refused = RowError::Client(questdb::Error::new(ErrorCode::InvalidName, "bad name"));
    report
        .note(scope(), context(), &good(1), Err(refused))
        .unwrap();
    assert_eq!(report.outcome.rejected_rows, 1);
    assert_eq!(report.outcome.last_rejection.as_deref(), Some("bad name"));
    let passing = RowError::Client(questdb::Error::new(ErrorCode::SocketError, "reset"));
    let failure = report
        .note(scope(), context(), &good(2), Err(passing))
        .unwrap_err();
    assert_eq!(failure.phase, FlushPhase::Publishing);
    assert_eq!(failure.error.msg(), "reset");
    assert_eq!(report.outcome.rejected_rows, 1);
}

#[test]
fn a_table_that_the_client_refuses_rejects_every_message() {
    let mut mapping = mapping();
    mapping.table = "a?b".to_owned();
    let mut buffer = Buffer::new(ProtocolVersion::V1);
    let messages = vec![good(1), good(2)];
    let report = fill_batch(&mapping, scope(), &mut buffer, &messages, context()).unwrap();
    assert!(buffer.is_empty());
    assert_eq!(report.outcome.rows_written, 0);
    assert_eq!(report.outcome.rejected_rows, 2);
}

#[test]
fn outcomes_merge() {
    let outcome = |rows_written: usize, rejected_rows: usize, last: Option<&str>| BatchOutcome {
        rows_written,
        rejected_rows,
        last_rejection: last.map(str::to_owned),
    };
    let mut total = BatchOutcome::default();
    total.merge(outcome(3, 1, Some("a")));
    assert_eq!(total.last_rejection.as_deref(), Some("a"));
    total.merge(outcome(4, 0, None));
    assert_eq!(total.last_rejection.as_deref(), Some("a"));
    total.merge(outcome(0, 2, Some("b")));
    assert_eq!(total.rows_written, 7);
    assert_eq!(total.rejected_rows, 3);
    assert_eq!(total.last_rejection.as_deref(), Some("b"));
}

#[test]
fn messages_are_written_in_batches_and_in_order() {
    let mut work = Consumption::start(true, (0..7).map(good).collect())
        .unwrap()
        .unwrap();
    assert_eq!(work.received, 7);
    let mut sizes = Vec::new();
    let mut offsets = Vec::new();
    while let Some(batch) = work.next_batch(3) {
        sizes.push(batch.len());
        offsets.extend(batch.iter().map(|message| message.offset));
        work.batch_done(BatchOutcome {
            rows_written: batch.len() - 1,
            rejected_rows: 1,
            last_rejection: Some(format!("batch {}", sizes.len())),
        });
    }
    assert_eq!(sizes, vec![3, 3, 1]);
    assert_eq!(offsets, (0..7).collect::<Vec<u64>>());
    assert_eq!(
        work.warning_text(scope()).as_deref(),
        Some("QuestDB sink ID: 9 rejected 3 of 7 messages, last reason: batch 3")
    );
    let mut state = State::default();
    state.record(&work);
    state.record(&work);
    assert_eq!(state.messages_processed, 14);
    assert_eq!(state.rows_written, 8);
    assert_eq!(state.rejected_rows, 6);
}

#[test]
fn nothing_is_taken_without_a_connection_or_messages() {
    assert!(matches!(
        Consumption::start(false, vec![good(1)]),
        Err(SinkError::InitError(text)) if text == "QuestDB pool is not initialized"
    ));
    assert!(matches!(Consumption::start(false, vec![]), Err(_)));
    assert!(matches!(Consumption::start(true, vec![]), Ok(None)));
}

#[test]
fn no_warning_is_given_where_nothing_was_rejected() {
    let mut work = Consumption::start(true, vec![good(1)]).unwrap().unwrap();
    work.next_batch(1000).unwrap();
    work.batch_done(BatchOutcome {
        rows_written: 1,
        rejected_rows: 0,
        last_rejection: None,
    });
    assert!(work.next_batch(1000).is_none());
    assert!(work.warning_text(scope()).is_none());
}

fn json(text: &str) -> Payload {
    let mut bytes = text.as_bytes().to_vec();
    let raw = simd_json::to_owned_value(&mut bytes).unwrap();
    Payload::Json(Document { raw, fields: None })
}

#[test]
fn short_payloads_are_shown_in_full() {
    assert_eq!(payload_preview(&Payload::Text("x".repeat(512))), "x".repeat(512));
    assert_eq!(payload_preview(&Payload::Proto(String::new())), "");
    assert_eq!(payload_preview(&Payload::FlatBuffer(vec![0; 1000])), "<1000 bytes>");
    assert_eq!(payload_preview(&json("[1, {\"a\": null}]")), "[1,{\"a\":null}]");
}

#[test]
fn long_payloads_are_cut_between_characters() {
    assert_eq!(
        payload_preview(&Payload::Text("x".repeat(513))),
        format!("{}\u{2026} (513 bytes total)", "x".repeat(512))
    );
    // The 171st of these three-byte characters would end past the limit.
    assert_eq!(
        payload_preview(&Payload::Text("\u{20AC}".repeat(200))),
        format!("{}\u{2026} (600 bytes total)", "\u{20AC}".repeat(170))
    );
}

#[test]
fn values_and_documents_can_be_shown() {
    let document = Document {
        raw: OwnedValue::from(1),
        fields: Some(vec![("a".to_owned(), Value::Static(StaticNode::Null))]),
    };
    assert!(format!("{document:?}").contains("Null"));
}

#[test]
fn a_rejected_message_affects_no_other() {
    let all = vec![bad(1), good(2), bad(3), bad(4), good(5)];
    let (_, rows) = filled(scope(), &all);
    let (report, alone) = filled(scope(), &vec![good(2), good(5)]);
    assert_eq!(rows, alone);
    assert_eq!(report.outcome.rejected_rows, 0);
}

#[test]
fn a_rejected_message_leaves_no_column_behind_in_a_columnar_buffer() {
    let field = |value: Value, id: &str| {
        let fields = vec![
            ("a".to_owned(), value),
            ("id".to_owned(), Value::String(id.to_owned())),
        ];
        let raw = OwnedValue::from(0);
        message(
            1,
            Payload::Json(Document {
                raw,
                fields: Some(fields),
            }),
        )
    };
    let id = "123e4567-e89b-12d3-a456-426614174000";
    let text = || Value::String("x".to_owned());
    let number = || Value::Static(StaticNode::I64(1));
    let mut mapping = mapping();
    mapping.uuid_columns.insert("id".to_owned());
    // The first message would make `a` a text column; it is rejected, so `a` is still free.
    let mut buffer = Buffer::new_qwp_ws();
    let messages = vec![field(text(), "no uuid"), field(number(), id)];
    let report = fill_batch(&mapping, scope(), &mut buffer, &messages, context()).unwrap();
    assert_eq!(report.outcome.rows_written, 1);
    // Where the first one is accepted, it is not.
    let mut buffer = Buffer::new_qwp_ws();
    let messages = vec![field(text(), id), field(number(), id)];
    let report = fill_batch(&mapping, scope(), &mut buffer, &messages, context()).unwrap();
    assert_eq!(report.outcome.rows_written, 1);
    assert_eq!(report.outcome.rejected_rows, 1);
}
