//! What is counted, logged, flushed and reported.

use crate::batch::{
    aborts, appends, batch_ends, reason_of, rejection_line, report_of, summary_line, AbortedBatch,
    BatchOutcome, BatchReport, LogScope, Report, Step, Tally,
};
use crate::client::{error_code, error_in_doubt, error_message};
use crate::consume::{batch_len, batches, Consumption, State};
use crate::flush::{
    connect_task_text, connect_text, flush_task_text, reports, retryable, transient, FlushCall,
    FlushError, FlushPhase, SinkError,
};
use crate::json::json_text;
use crate::laws::{law_report_counts, rows_in};
use crate::mapping::Mapping;
use crate::message::{ConsumedMessage, Payload, RowContext};
use crate::preview::{kept, rendered, shortened};
use crate::row::RowError;
use crate::sink::{FlushPolicy, FlushStep, QuestDbSink};
use crate::text::decimal;
use questdb::ingress::{AckLevel, Buffer};
use questdb::ErrorCode;
use vstd::prelude::*;
use vstd::string::*;
use vstd::utf8::encode_utf8;

verus! {

/// Merged outcomes count what both count, and give the later reason where there is one.
pub proof fn law_merge_adds(a: BatchOutcome, b: BatchOutcome)
    ensures
        a@.merged(b@).rows_written == a.rows_written + b.rows_written,
        a@.merged(b@).rejected_rows == a.rejected_rows + b.rejected_rows,
        b.last_rejection matches Some(reason) ==> a@.merged(b@).last_rejection == Some(reason@),
        b.last_rejection is None ==> (a.last_rejection matches Some(reason) ==> a@.merged(
            b@,
        ).last_rejection == Some(reason@)),
        b.last_rejection is None && a.last_rejection is None ==> a@.merged(
            b@,
        ).last_rejection is None,
        Tally::none().rows_written == 0,
        Tally::none().rejected_rows == 0,
        Tally::none().last_rejection is None,
{
}

/// A report holds its outcome and its lines.
pub proof fn law_report_view(report: BatchReport, i: int)
    requires
        0 <= i < report.lines@.len(),
    ensures
        report@.tally == report.outcome@,
        report@.lines.len() == report.lines@.len(),
        report@.lines[i] == report.lines@[i]@,
{
}

/// An invalid message is rejected for what is wrong with it, a refused one for what the client
/// says, and a written one not at all.
pub proof fn law_reasons(result: Result<(), RowError>)
    ensures
        result is Ok ==> reason_of(result) is None,
        result matches Err(RowError::Invalid(reason)) ==> reason_of(result) == Some(reason@),
        result matches Err(RowError::Client(error)) ==> reason_of(result) == Some(
            error_message(error),
        ),
{
}

/// A batch ends early just on a client error that may be retried.
pub proof fn law_aborts(result: Result<(), RowError>)
    ensures
        result is Ok ==> !aborts(result),
        result matches Err(RowError::Invalid(_)) ==> !aborts(result),
        result matches Err(RowError::Client(error)) ==> (aborts(result) <==> !error_in_doubt(error)
            && retryable(error_code(error), false)),
{
}

/// A further message that is written adds to the rows and to nothing else.
pub proof fn law_written_message_is_counted(
    scope: LogScope,
    context: RowContext,
    messages: Seq<ConsumedMessage>,
    steps: Seq<Step>,
    step: Step,
)
    requires
        step.result is Ok,
        steps.len() < messages.len(),
    ensures
        ({
            let before = report_of(scope, context, messages, steps);
            let after = report_of(scope, context, messages, steps.push(step));
            &&& after.tally.rows_written == before.tally.rows_written + 1
            &&& after.tally.rejected_rows == before.tally.rejected_rows
            &&& after.tally.last_rejection == before.tally.last_rejection
            &&& after.lines == before.lines
        }),
{
    assert(steps.push(step).drop_last() =~= steps);
}

/// A further message that is rejected adds to the rejections, gives the last reason, and as
/// long as no more than nineteen came before has its own line.
pub proof fn law_rejected_message_is_counted(
    scope: LogScope,
    context: RowContext,
    messages: Seq<ConsumedMessage>,
    steps: Seq<Step>,
    step: Step,
)
    requires
        step.result is Err,
        steps.len() < messages.len(),
    ensures
        ({
            let before = report_of(scope, context, messages, steps);
            let after = report_of(scope, context, messages, steps.push(step));
            let reason = reason_of(step.result)->0;
            &&& after.tally.rows_written == before.tally.rows_written
            &&& after.tally.rejected_rows == before.tally.rejected_rows + 1
            &&& after.tally.last_rejection == Some(reason)
            &&& before.tally.rejected_rows <= 19 ==> after.lines == before.lines.push(
                rejection_line(scope, context, messages[steps.len() as int], reason),
            )
            &&& before.tally.rejected_rows >= 20 ==> after.lines == before.lines
        }),
{
    assert(steps.push(step).drop_last() =~= steps);
}

/// A report starts empty, and at its end only a summary may be added: where there were more
/// than twenty rejections.
pub proof fn law_report_starts_and_ends(report: Report, scope: LogScope, context: RowContext)
    ensures
        Report::none().lines.len() == 0,
        Report::none().tally == Tally::none(),
        report.closed(scope, context).tally == report.tally,
        report.tally.rejected_rows <= 20 ==> report.closed(scope, context).lines == report.lines,
        report.tally.rejected_rows > 20 ==> report.closed(scope, context).lines
            == report.lines.push(summary_line(scope, context, report.tally.rejected_rows)),
{
}

/// The line of a rejected message names the sink, the stream, the topic, the partition, the
/// offset, the message and the reason, and shows the payload just where that is asked for.
pub proof fn law_rejection_line(
    scope: LogScope,
    context: RowContext,
    message: ConsumedMessage,
    reason: Seq<char>,
)
    ensures
        ({
            let line = "QuestDB sink ID: "@ + decimal(scope.id as nat)
                + " rejected message, stream: "@ + context.stream@ + ", topic: "@ + context.topic@
                + ", partition_id: "@ + decimal(context.partition_id as nat) + ", offset: "@
                + decimal(message.offset as nat) + ", message_id: "@ + decimal(message.id as nat)
                + ", reason: "@ + reason;
            &&& !scope.log_payload ==> rejection_line(scope, context, message, reason) == line
            &&& scope.log_payload ==> rejection_line(scope, context, message, reason) == line
                + ", payload: "@ + shortened(rendered(message.payload))
        }),
{
    reveal_strlit(" rejected message, stream: ");
    reveal_strlit(" rejected message");
    reveal_strlit(", stream: ");
    assert(" rejected message, stream: "@ =~= " rejected message"@ + ", stream: "@);
    let line = "QuestDB sink ID: "@ + decimal(scope.id as nat) + " rejected message, stream: "@
        + context.stream@ + ", topic: "@ + context.topic@ + ", partition_id: "@ + decimal(
        context.partition_id as nat,
    ) + ", offset: "@ + decimal(message.offset as nat) + ", message_id: "@ + decimal(
        message.id as nat,
    ) + ", reason: "@ + reason;
    if scope.log_payload {
        assert(rejection_line(scope, context, message, reason) =~= line + ", payload: "@
            + shortened(rendered(message.payload)));
    } else {
        assert(rejection_line(scope, context, message, reason) =~= line);
    }
}

/// The summary of a batch names the sink, where the messages come from, how many were
/// rejected, and how many of these past the first twenty.
pub proof fn law_summary_line(scope: LogScope, context: RowContext, rejected: nat)
    requires
        rejected > 20,
    ensures
        summary_line(scope, context, rejected) == "QuestDB sink ID: "@ + decimal(scope.id as nat)
            + " rejected "@ + decimal(rejected) + " messages in this batch, stream: "@
            + context.stream@ + ", topic: "@ + context.topic@ + ", partition_id: "@ + decimal(
            context.partition_id as nat,
        ) + "; "@ + decimal((rejected - 20) as nat)
            + " further rejections were not logged individually"@,
{
    reveal_strlit(" messages in this batch, stream: ");
    reveal_strlit(" messages in this batch");
    reveal_strlit(", stream: ");
    assert(" messages in this batch, stream: "@ =~= " messages in this batch"@ + ", stream: "@);
    assert(summary_line(scope, context, rejected) =~= "QuestDB sink ID: "@ + decimal(
        scope.id as nat,
    ) + " rejected "@ + decimal(rejected) + " messages in this batch, stream: "@ + context.stream@
        + ", topic: "@ + context.topic@ + ", partition_id: "@ + decimal(
        context.partition_id as nat,
    ) + "; "@ + decimal((rejected - 20) as nat)
        + " further rejections were not logged individually"@);
}

/// A payload is shown as its JSON text, its own text, or for bytes their number.
pub proof fn law_payload_is_rendered(payload: Payload)
    ensures
        payload matches Payload::Json(document) ==> rendered(payload) == match json_text(
            document.raw,
        ) {
            Some(text) => text,
            None => "<unrenderable>"@,
        },
        payload matches Payload::Text(text) ==> rendered(payload) == text@,
        payload matches Payload::Proto(text) ==> rendered(payload) == text@,
        payload matches Payload::Raw(bytes) ==> rendered(payload) == "<"@ + decimal(bytes@.len())
            + " bytes>"@,
        payload matches Payload::FlatBuffer(bytes) ==> rendered(payload) == "<"@ + decimal(
            bytes@.len(),
        ) + " bytes>"@,
        payload matches Payload::Avro(bytes) ==> rendered(payload) == "<"@ + decimal(bytes@.len())
            + " bytes>"@,
{
}

/// A text of up to 512 bytes is shown as it is. Of a longer one its longest beginning of whole
/// characters within 512 bytes is shown, and how many bytes it has in all.
pub proof fn law_shown_text(text: Seq<char>)
    ensures
        encode_utf8(text).len() <= 512 ==> shortened(text) == text,
        encode_utf8(text).len() > 512 ==> {
            &&& shortened(text) == kept(text) + "\u{2026} ("@ + decimal(encode_utf8(text).len())
                + " bytes total)"@
            &&& kept(text).is_prefix_of(text)
            &&& encode_utf8(kept(text)).len() <= 512
            &&& kept(text).len() < text.len()
            &&& encode_utf8(text.take(kept(text).len() as int + 1)).len() > 512
        },
{
    if encode_utf8(text).len() > 512 {
        crate::laws::law_preview_is_longest_that_fits(text);
        assert(text.take(text.len() as int) =~= text);
        let n = kept(text).len() as int;
        if n == text.len() {
            assert(kept(text) =~= text);
        }
        assert(n < text.len());
        if encode_utf8(text.take(n + 1)).len() <= 512 {
            assert(n + 1 <= kept(text).len());
        }
    }
}

/// A batch is skipped just where it has no rows, whatever was rejected. With rows it is
/// published, and its acknowledgement is awaited just where more than acceptance is asked for
/// or there is time to wait.
pub proof fn law_flush_step(policy: FlushPolicy, outcome: BatchOutcome)
    ensures
        policy.flush_due(outcome@) == FlushStep::Skip <==> outcome.rows_written == 0,
        policy.flush_due(outcome@) == FlushStep::PublishAndAwait <==> outcome.rows_written > 0 && (
        policy.ack_level != AckLevel::Ok || policy.timeout.secs > 0 || policy.timeout.nanos > 0),
        policy.flush_due(outcome@) == FlushStep::Publish <==> outcome.rows_written > 0
            && policy.ack_level == AckLevel::Ok && policy.timeout.secs == 0
            && policy.timeout.nanos == 0,
{
}

/// A failure may be retried just where it is one of the transport, and the rows are known not
/// to have been delivered.
pub proof fn law_retryable_codes(code: ErrorCode, in_doubt: bool)
    ensures
        in_doubt ==> !retryable(code, in_doubt),
        !in_doubt ==> (retryable(code, in_doubt) <==> code == ErrorCode::SocketError || code
            == ErrorCode::ConnectTimeout || code == ErrorCode::FailoverRetry || code
            == ErrorCode::RoleMismatch || code == ErrorCode::ServerFlushError || code
            == ErrorCode::ServerInternalError || code == ErrorCode::CouldNotResolveAddr),
{
}

/// An error is transient by its own code and doubt.
pub proof fn law_transient(error: questdb::Error)
    ensures
        transient(error) <==> retryable(error_code(error), error_in_doubt(error)),
{
}

/// Taking a sender and publishing come before the rows are out; only waiting comes after.
pub proof fn law_flush_phases(call: FlushCall)
    ensures
        call.phase() == FlushPhase::Awaiting <==> call == FlushCall::Await,
        call.phase() == FlushPhase::Publishing <==> call == FlushCall::Borrow || call
            == FlushCall::Publish,
{
}

/// A failed flush is reported as one thing, with the text that is given: to be retried where
/// it came before the rows were out and may pass, else as a mismatch of the schema where the
/// server says so, and else as permanent.
pub proof fn law_failures_are_reported(failure: FlushError, text: Seq<char>, r: SinkError)
    requires
        reports(failure, text, r),
    ensures
        r.text() == text,
        r is CannotStoreData <==> failure.phase == FlushPhase::Publishing && retryable(
            error_code(failure.error),
            error_in_doubt(failure.error),
        ),
        r is SchemaMismatch <==> !(r is CannotStoreData) && error_code(failure.error)
            == ErrorCode::ServerSchemaMismatch,
        r is PermanentHttpError <==> !(r is CannotStoreData) && error_code(failure.error)
            != ErrorCode::ServerSchemaMismatch,
{
}

/// What an error says is the text that it was made with.
pub proof fn law_error_texts(text: String)
    ensures
        SinkError::InvalidConfigValue(text).text() == text@,
        SinkError::CannotStoreData(text).text() == text@,
        SinkError::SchemaMismatch(text).text() == text@,
        SinkError::PermanentHttpError(text).text() == text@,
        SinkError::InitError(text).text() == text@,
{
}

/// A client error is reported with the sink's own id and the client's own words.
pub proof fn law_client_error_text<S>(sink: QuestDbSink<S>, error: questdb::Error)
    ensures
        sink.client_error_text(error) == "QuestDB sink ID: "@ + decimal(sink.id as nat) + ": "@
            + error_message(error),
{
}

/// The warning after a consumption comes just where messages were rejected, and tells how many
/// of how many, and why the last.
pub proof fn law_consumption_warning(work: Consumption, scope: LogScope)
    ensures
        work.total.rejected_rows == 0 ==> work.warning(scope) is None,
        work.total.rejected_rows > 0 ==> work.warning(scope) == Some(
            "QuestDB sink ID: "@ + decimal(scope.id as nat) + " rejected "@ + decimal(
                work.total.rejected_rows as nat,
            ) + " of "@ + decimal(work.received as nat) + " messages, last reason: "@
                + match work.total.last_rejection {
                Some(reason) => reason@,
                None => "unknown"@,
            },
        ),
{
}

/// The next batch takes the first messages: as many as the batch size, or all where there are
/// no more.
pub proof fn law_first_batch(messages: Seq<ConsumedMessage>, size: nat)
    requires
        size > 0,
        messages.len() > 0,
    ensures
        size <= messages.len() ==> batch_len(messages.len(), size) == size,
        size > messages.len() ==> batch_len(messages.len(), size) == messages.len(),
        batches(messages, size)[0] == messages.take(batch_len(messages.len(), size) as int),
{
}

/// A batch that ends well has appended every message, and its report counts each of them once
/// and closes with the summary where one is due.
pub proof fn law_finished_batch(
    mapping: Mapping,
    scope: LogScope,
    messages: Seq<ConsumedMessage>,
    context: RowContext,
    before: Buffer,
    steps: Seq<Step>,
    after: Buffer,
    report: BatchReport,
)
    requires
        batch_ends(mapping, scope, messages, context, before, steps, after, Ok(report)),
    ensures
        steps.len() == messages.len(),
        forall|i: int| 0 <= i < steps.len() ==> !aborts((#[trigger] steps[i]).result),
        report.outcome.rows_written == rows_in(steps),
        report.outcome.rows_written + report.outcome.rejected_rows == messages.len(),
        report.outcome.rejected_rows <= 20 ==> report@.lines == report_of(
            scope,
            context,
            messages,
            steps,
        ).lines,
        report.outcome.rejected_rows > 20 ==> report@.lines == report_of(
            scope,
            context,
            messages,
            steps,
        ).lines.push(summary_line(scope, context, report.outcome.rejected_rows as nat)),
        messages.len() > 0 ==> after == steps.last().after,
        messages.len() == 0 ==> after == before,
{
    law_report_counts(scope, context, messages, steps);
}

/// A batch that ends early has done so on its last message and on no other, with that failure
/// as one of publishing, and has the report of the messages before.
pub proof fn law_aborted_batch(
    mapping: Mapping,
    scope: LogScope,
    messages: Seq<ConsumedMessage>,
    context: RowContext,
    before: Buffer,
    steps: Seq<Step>,
    after: Buffer,
    aborted: AbortedBatch,
)
    requires
        batch_ends(mapping, scope, messages, context, before, steps, after, Err(aborted)),
    ensures
        0 < steps.len() <= messages.len(),
        forall|i: int| 0 <= i < steps.len() - 1 ==> !aborts((#[trigger] steps[i]).result),
        steps.last().result == Err::<(), RowError>(RowError::Client(aborted.failure.error)),
        transient(aborted.failure.error),
        aborted.failure.phase == FlushPhase::Publishing,
        aborted.report@ == report_of(scope, context, messages, steps.drop_last()),
        after == steps.last().after,
{
    assert forall|i: int| 0 <= i < steps.len() - 1 implies !aborts(
        (#[trigger] steps[i]).result,
    ) by {
        assert(steps.drop_last()[i] == steps[i]);
    }
}

/// The messages of a batch are appended in their order, each to the buffer that the one before
/// it left.
pub proof fn law_messages_are_appended_in_order(
    mapping: Mapping,
    messages: Seq<ConsumedMessage>,
    context: RowContext,
    before: Buffer,
    steps: Seq<Step>,
    i: int,
)
    requires
        appends(mapping, messages, context, before, steps),
        0 <= i < steps.len(),
    ensures
        i < messages.len(),
        i == 0 ==> mapping.appended(messages[0], context, before, steps[0].after, steps[0].result),
        i > 0 ==> mapping.appended(
            messages[i],
            context,
            steps[i - 1].after,
            steps[i].after,
            steps[i].result,
        ),
{
}

/// The counters of a sink are balanced just where each message was written or rejected.
pub proof fn law_balance(state: State)
    ensures
        state.balanced() <==> state.messages_processed == state.rows_written + state.rejected_rows,
{
}

/// A consumption counts each message once, and is finished just where none is pending or being
/// written.
pub proof fn law_consumption_counts(work: Consumption)
    ensures
        work.wf() <==> work.received == work.total.rows_written + work.total.rejected_rows
            + work.in_flight + work.pending@.len(),
        work.finished() <==> work.in_flight == 0 && work.pending@.len() == 0,
{
}

/// Work starts on all messages in their order, with nothing counted. Without a connection none
/// is started, and without messages there is none.
pub proof fn law_work_starts(
    connected: bool,
    messages: Seq<ConsumedMessage>,
    r: Result<Option<Consumption>, SinkError>,
)
    requires
        Consumption::started(connected, messages, r),
    ensures
        r is Err <==> !connected,
        r matches Err(error) ==> error is InitError && error.text()
            == "QuestDB pool is not initialized"@,
        connected ==> (r->Ok_0 is None <==> messages.len() == 0),
        r matches Ok(Some(work)) ==> {
            &&& work.pending@ == messages
            &&& work.received == messages.len()
            &&& work.in_flight == 0
            &&& work.total.rows_written == 0
            &&& work.total.rejected_rows == 0
            &&& work.total.last_rejection is None
        },
{
}

/// A batch taken and what is left are the messages that were pending, in their order. The batch
/// has as many as its size allows.
pub proof fn law_batch_is_taken(
    before: Consumption,
    size: nat,
    r: Option<Vec<ConsumedMessage>>,
    after: Consumption,
)
    requires
        before.batch_taken(size, r, after),
    ensures
        r is None <==> before.pending@.len() == 0,
        r is None ==> after == before,
        r matches Some(batch) ==> {
            &&& batch@ + after.pending@ == before.pending@
            &&& batch@.len() <= size
            &&& batch@.len() == size || after.pending@.len() == 0
            &&& after.in_flight == batch@.len()
            &&& after.received == before.received
            &&& after.total == before.total
        },
{
    if let Some(batch) = r {
        assert(batch@ + after.pending@ =~= before.pending@);
    }
}

/// The outcome of a batch is added to the total, and no message is touched by it.
pub proof fn law_batch_is_added(before: Consumption, outcome: BatchOutcome, after: Consumption)
    requires
        before.batch_added(outcome, after),
    ensures
        after.total.rows_written == before.total.rows_written + outcome.rows_written,
        after.total.rejected_rows == before.total.rejected_rows + outcome.rejected_rows,
        outcome.last_rejection matches Some(reason) ==> (after.total.last_rejection matches Some(
            last,
        ) && last@ == reason@),
        after.in_flight == 0,
        after.pending@ == before.pending@,
        after.received == before.received,
{
    assert(after.total@.last_rejection == before.total@.merged(outcome@).last_rejection);
}

/// A sink counts every message received, every row written and every row rejected.
pub proof fn law_work_is_counted(before: State, work: Consumption, after: State)
    requires
        before.counted(work, after),
    ensures
        after.messages_processed - before.messages_processed == work.received,
        after.rows_written - before.rows_written == work.total.rows_written,
        after.rejected_rows - before.rejected_rows == work.total.rejected_rows,
{
}

/// What is said of a task or a connection that failed names what failed, and then the cause.
pub proof fn law_failed_tasks(cause: Seq<char>, error: questdb::Error)
    ensures
        connect_task_text(cause) == "connect task failed: "@ + cause,
        flush_task_text(cause) == "blocking flush task failed: "@ + cause,
        connect_text(error) == "cannot connect to QuestDB: "@ + error_message(error),
{
}

/// A sink flushes and logs as it is configured.
pub proof fn law_sink_settings<S>(sink: QuestDbSink<S>)
    ensures
        sink.policy().ack_level == sink.ack_level,
        sink.policy().timeout.secs == sink.flush_timeout.secs,
        sink.policy().timeout.nanos == sink.flush_timeout.nanos,
        sink.scope().id == sink.id,
        sink.scope().log_payload == sink.log_rejected_payload,
        sink.scope().name() == "QuestDB sink ID: "@ + decimal(sink.id as nat),
{
}

/// What is wrong with a configuration surfaces once, and nothing else changes by it.
pub proof fn law_fault_surfaces_once<S>(
    before: QuestDbSink<S>,
    r: Result<(), SinkError>,
    after: QuestDbSink<S>,
)
    requires
        before.surfaced(r, after),
    ensures
        r is Ok <==> before.init_error is None,
        r matches Err(error) ==> before.init_error == Some(error),
        after.init_error is None,
        after.id == before.id,
        after.connection_string == before.connection_string,
        after.mapping == before.mapping,
        after.ack_level == before.ack_level,
        after.flush_timeout == before.flush_timeout,
        after.batch_size == before.batch_size,
        after.verbose == before.verbose,
        after.log_rejected_payload == before.log_rejected_payload,
        after.timeout_defaulted == before.timeout_defaulted,
{
}

} // verus!
