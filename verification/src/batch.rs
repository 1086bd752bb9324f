//! Batches: the rows of many messages, and the account given of them.

use crate::client::error_message;
use crate::flush::{is_transient, transient, FlushError, FlushPhase};
use crate::mapping::Mapping;
use crate::message::{ConsumedMessage, RowContext};
use crate::preview::{payload_preview, rendered, shortened};
use crate::row::RowError;
use crate::text::{decimal, decimal_text};
use questdb::ingress::Buffer;
use vstd::prelude::*;
use vstd::string::*;

verus! {

/// Rejections are logged one line per record so a bad message can be traced
/// back to its offset. A batch where every record is malformed would otherwise
/// emit one line per message, so the tail is collapsed into a single summary.
pub const MAX_LOGGED_REJECTIONS_PER_BATCH: usize = 20;

/// How many rows were written and rejected, and why the last of these was.
#[derive(Debug)]
pub struct BatchOutcome {
    pub rows_written: usize,
    pub rejected_rows: usize,
    pub last_rejection: Option<String>,
}

/// The counts of a [`BatchOutcome`].
pub struct Tally {
    pub rows_written: nat,
    pub rejected_rows: nat,
    pub last_rejection: Option<Seq<char>>,
}

impl Tally {
    /// Nothing counted.
    pub open spec fn none() -> Tally {
        Tally { rows_written: 0, rejected_rows: 0, last_rejection: None }
    }

    /// This tally and then `other`.
    pub open spec fn merged(self, other: Tally) -> Tally {
        Tally {
            rows_written: self.rows_written + other.rows_written,
            rejected_rows: self.rejected_rows + other.rejected_rows,
            last_rejection: if other.last_rejection is Some {
                other.last_rejection
            } else {
                self.last_rejection
            },
        }
    }
}

impl View for BatchOutcome {
    type V = Tally;

    open spec fn view(&self) -> Tally {
        Tally {
            rows_written: self.rows_written as nat,
            rejected_rows: self.rejected_rows as nat,
            last_rejection: match self.last_rejection {
                Some(reason) => Some(reason@),
                None => None,
            },
        }
    }
}

impl Default for BatchOutcome {
    fn default() -> (r: Self)
        ensures
            r@ == Tally::none(),
    {
        BatchOutcome { rows_written: 0, rejected_rows: 0, last_rejection: None }
    }
}

impl BatchOutcome {
    /// Adds what came of a further batch.
    pub fn merge(&mut self, other: BatchOutcome)
        requires
            old(self).rows_written + other.rows_written <= usize::MAX,
            old(self).rejected_rows + other.rejected_rows <= usize::MAX,
        ensures
            final(self)@ == old(self)@.merged(other@),
    {
        self.rows_written = self.rows_written + other.rows_written;
        self.rejected_rows = self.rejected_rows + other.rejected_rows;
        if other.last_rejection.is_some() {
            self.last_rejection = other.last_rejection;
        }
    }
}

/// What the log lines of a sink start from: its id, and whether they show payloads.
#[derive(Debug, Clone, Copy)]
pub struct LogScope {
    pub id: u32,
    pub log_payload: bool,
}

impl LogScope {
    /// The name of the sink.
    pub open spec fn name(self) -> Seq<char> {
        "QuestDB sink ID: "@ + decimal(self.id as nat)
    }

    /// Writes the name of the sink.
    pub fn name_text(&self) -> (r: String)
        ensures
            r@ == self.name(),
    {
        let mut r: String = "QuestDB sink ID: ".to_owned();
        r.append(decimal_text(self.id as u128).as_str());
        r
    }
}

/// Where the messages of a batch come from.
pub open spec fn origin(context: RowContext) -> Seq<char> {
    ", stream: "@ + context.stream@ + ", topic: "@ + context.topic@ + ", partition_id: "@ + decimal(
        context.partition_id as nat,
    )
}

fn append_origin(line: &mut String, context: RowContext<'_>)
    ensures
        final(line)@ == old(line)@ + origin(context),
{
    line.append(", stream: ");
    line.append(context.stream);
    line.append(", topic: ");
    line.append(context.topic);
    line.append(", partition_id: ");
    line.append(decimal_text(context.partition_id as u128).as_str());
    assert(line@ =~= old(line)@ + origin(context));
}

/// The log line of a rejected message.
pub open spec fn rejection_line(
    scope: LogScope,
    context: RowContext,
    message: ConsumedMessage,
    reason: Seq<char>,
) -> Seq<char> {
    scope.name() + " rejected message"@ + origin(context) + ", offset: "@ + decimal(
        message.offset as nat,
    ) + ", message_id: "@ + decimal(message.id as nat) + ", reason: "@ + reason + if scope.log_payload {
        ", payload: "@ + shortened(rendered(message.payload))
    } else {
        seq![]
    }
}

/// Writes the log line of a rejected message.
pub fn rejection_text(
    scope: LogScope,
    context: RowContext<'_>,
    message: &ConsumedMessage,
    reason: &str,
) -> (r: String)
    ensures
        r@ == rejection_line(scope, context, *message, reason@),
{
    let mut line: String = scope.name_text();
    line.append(" rejected message");
    append_origin(&mut line, context);
    line.append(", offset: ");
    line.append(decimal_text(message.offset as u128).as_str());
    line.append(", message_id: ");
    line.append(decimal_text(message.id).as_str());
    line.append(", reason: ");
    line.append(reason);
    if scope.log_payload {
        let mut payload: String = ", payload: ".to_owned();
        payload.append(payload_preview(&message.payload).as_str());
        line.append(payload.as_str());
    }
    assert(line@ =~= rejection_line(scope, context, *message, reason@));
    line
}

/// The log line on the rejections that got none of their own.
pub open spec fn summary_line(scope: LogScope, context: RowContext, rejected: nat) -> Seq<char> {
    scope.name() + " rejected "@ + decimal(rejected) + " messages in this batch"@ + origin(context)
        + "; "@ + decimal((rejected - MAX_LOGGED_REJECTIONS_PER_BATCH) as nat)
        + " further rejections were not logged individually"@
}

/// Writes the log line on the rejections that got none of their own.
pub fn summary_text(scope: LogScope, context: RowContext<'_>, rejected: usize) -> (r: String)
    requires
        rejected > MAX_LOGGED_REJECTIONS_PER_BATCH,
    ensures
        r@ == summary_line(scope, context, rejected as nat),
{
    let mut line: String = scope.name_text();
    line.append(" rejected ");
    line.append(decimal_text(rejected as u128).as_str());
    line.append(" messages in this batch");
    append_origin(&mut line, context);
    line.append("; ");
    line.append(decimal_text((rejected - MAX_LOGGED_REJECTIONS_PER_BATCH) as u128).as_str());
    line.append(" further rejections were not logged individually");
    line
}

/// What came of a batch, and the lines that the log is to show of it at level
/// `error`.
#[derive(Debug)]
pub struct BatchReport {
    pub outcome: BatchOutcome,
    pub lines: Vec<String>,
}

/// The contents of a [`BatchReport`].
pub struct Report {
    pub tally: Tally,
    pub lines: Seq<Seq<char>>,
}

impl View for BatchReport {
    type V = Report;

    open spec fn view(&self) -> Report {
        Report {
            tally: self.outcome@,
            lines: self.lines@.map_values(|line: String| line@),
        }
    }
}

/// Why a row was rejected; `None` where it was written.
pub open spec fn reason_of(result: Result<(), RowError>) -> Option<Seq<char>> {
    match result {
        Ok(_) => None,
        Err(RowError::Invalid(reason)) => Some(reason@),
        Err(RowError::Client(error)) => Some(error_message(error)),
    }
}

/// Whether a row's failure ends the batch: the client failed in a way that may pass.
pub open spec fn aborts(result: Result<(), RowError>) -> bool {
    result matches Err(RowError::Client(error)) && transient(error)
}

impl Report {
    /// A report of nothing.
    pub open spec fn none() -> Report {
        Report { tally: Tally::none(), lines: seq![] }
    }

    /// This report after one more row.
    pub open spec fn noting(
        self,
        scope: LogScope,
        context: RowContext,
        message: ConsumedMessage,
        result: Result<(), RowError>,
    ) -> Report {
        match reason_of(result) {
            None => Report {
                tally: Tally { rows_written: self.tally.rows_written + 1, ..self.tally },
                ..self
            },
            Some(reason) => Report {
                tally: Tally {
                    rejected_rows: self.tally.rejected_rows + 1,
                    last_rejection: Some(reason),
                    ..self.tally
                },
                lines: if self.tally.rejected_rows < MAX_LOGGED_REJECTIONS_PER_BATCH {
                    self.lines.push(rejection_line(scope, context, message, reason))
                } else {
                    self.lines
                },
            },
        }
    }

    /// This report at the end of the batch.
    pub open spec fn closed(self, scope: LogScope, context: RowContext) -> Report {
        Report {
            lines: if self.tally.rejected_rows > MAX_LOGGED_REJECTIONS_PER_BATCH {
                self.lines.push(summary_line(scope, context, self.tally.rejected_rows))
            } else {
                self.lines
            },
            ..self
        }
    }
}

impl Default for BatchReport {
    fn default() -> (r: Self)
        ensures
            r@ == Report::none(),
    {
        let r = BatchReport { outcome: BatchOutcome::default(), lines: Vec::new() };
        assert(r@.lines =~= seq![]);
        r
    }
}

impl BatchReport {
    /// Takes note of one more row. A failure of the client that may pass is handed back
    /// instead: it ends the batch.
    pub fn note(
        &mut self,
        scope: LogScope,
        context: RowContext<'_>,
        message: &ConsumedMessage,
        result: Result<(), RowError>,
    ) -> (r: Result<(), FlushError>)
        requires
            old(self).outcome.rows_written < usize::MAX,
            old(self).outcome.rejected_rows < usize::MAX,
        ensures
            r is Err <==> aborts(result),
            r is Ok ==> final(self)@ == old(self)@.noting(scope, context, *message, result),
            r matches Err(failure) ==> {
                &&& result == Err::<(), RowError>(RowError::Client(failure.error))
                &&& failure.phase == FlushPhase::Publishing
                &&& *final(self) == *old(self)
            },
    {
        let reason: String = match result {
            Ok(()) => {
                self.outcome.rows_written = self.outcome.rows_written + 1;
                assert(self@ == old(self)@.noting(scope, context, *message, result));
                return Ok(());
            },
            Err(RowError::Invalid(reason)) => reason,
            Err(RowError::Client(error)) => {
                if is_transient(&error) {
                    return Err(FlushError::publishing(error));
                }
                error.msg().to_owned()
            },
        };
        self.outcome.rejected_rows = self.outcome.rejected_rows + 1;
        if self.outcome.rejected_rows <= MAX_LOGGED_REJECTIONS_PER_BATCH {
            let line: String = rejection_text(scope, context, message, reason.as_str());
            self.lines.push(line);
            assert(self@.lines =~= old(self)@.lines.push(line@));
        }
        self.outcome.last_rejection = Some(reason);
        Ok(())
    }

    /// Ends the report of a batch.
    pub fn close(&mut self, scope: LogScope, context: RowContext<'_>)
        ensures
            final(self)@ == old(self)@.closed(scope, context),
    {
        if self.outcome.rejected_rows > MAX_LOGGED_REJECTIONS_PER_BATCH {
            let line: String = summary_text(scope, context, self.outcome.rejected_rows);
            self.lines.push(line);
            assert(self@.lines =~= old(self)@.lines.push(line@));
        }
    }
}

/// A batch that a failure of the client ended, and the report of the messages before the
/// one on which it failed.
#[derive(Debug)]
pub struct AbortedBatch {
    pub failure: FlushError,
    pub report: BatchReport,
}

/// What became of one message of a batch: the row's result, and the buffer after it.
pub struct Step {
    pub result: Result<(), RowError>,
    pub after: Buffer,
}

/// The buffer after the first `n` steps of a batch that started with `before`.
pub open spec fn buffer_after(before: Buffer, steps: Seq<Step>, n: int) -> Buffer {
    if n <= 0 {
        before
    } else {
        steps[n - 1].after
    }
}

/// Whether `steps` append the rows of the first messages, one after the other, to a
/// buffer that starts as `before`.
pub open spec fn appends(
    mapping: Mapping,
    messages: Seq<ConsumedMessage>,
    context: RowContext,
    before: Buffer,
    steps: Seq<Step>,
) -> bool {
    &&& steps.len() <= messages.len()
    &&& forall|i: int|
        0 <= i < steps.len() ==> mapping.appended(
            messages[i],
            context,
            buffer_after(before, steps, i),
            (#[trigger] steps[i]).after,
            steps[i].result,
        )
}

/// The report of the first messages, after `steps`.
pub open spec fn report_of(
    scope: LogScope,
    context: RowContext,
    messages: Seq<ConsumedMessage>,
    steps: Seq<Step>,
) -> Report
    decreases steps.len(),
{
    if steps.len() == 0 {
        Report::none()
    } else {
        report_of(scope, context, messages, steps.drop_last()).noting(
            scope,
            context,
            messages[steps.len() - 1],
            steps.last().result,
        )
    }
}

/// Whether none of `steps` ends the batch.
pub open spec fn none_aborts(steps: Seq<Step>) -> bool {
    forall|i: int| 0 <= i < steps.len() ==> !aborts((#[trigger] steps[i]).result)
}

/// Whether a batch that took `steps` ends in `r`, with the buffer as `after`.
pub open spec fn batch_ends(
    mapping: Mapping,
    scope: LogScope,
    messages: Seq<ConsumedMessage>,
    context: RowContext,
    before: Buffer,
    steps: Seq<Step>,
    after: Buffer,
    r: Result<BatchReport, AbortedBatch>,
) -> bool {
    &&& appends(mapping, messages, context, before, steps)
    &&& after == buffer_after(before, steps, steps.len() as int)
    &&& match r {
        Ok(report) => {
            &&& steps.len() == messages.len()
            &&& none_aborts(steps)
            &&& report@ == report_of(scope, context, messages, steps).closed(scope, context)
        },
        Err(aborted) => {
            &&& steps.len() > 0
            &&& none_aborts(steps.drop_last())
            &&& aborts(steps.last().result)
            &&& steps.last().result == Err::<(), RowError>(RowError::Client(aborted.failure.error))
            &&& aborted.failure.phase == FlushPhase::Publishing
            &&& aborted.report@ == report_of(scope, context, messages, steps.drop_last())
        },
    }
}

/// Appends the rows of a batch. A message that is rejected leaves no row, is counted
/// and, up to a limit, logged; the others still get theirs. A failure of the client
/// that may pass ends the batch; what was rejected until then is still to be logged.
pub fn fill_batch(
    mapping: &Mapping,
    scope: LogScope,
    buffer: &mut Buffer,
    messages: &Vec<ConsumedMessage>,
    context: RowContext<'_>,
) -> (r: Result<BatchReport, AbortedBatch>)
    ensures
        exists|steps: Seq<Step>|
            #[trigger] batch_ends(
                *mapping,
                scope,
                messages@,
                context,
                *old(buffer),
                steps,
                *final(buffer),
                r,
            ),
        r matches Ok(report) ==> report.outcome.rows_written + report.outcome.rejected_rows
            == messages@.len(),
{
    let ghost before = *buffer;
    let ghost mut steps: Seq<Step> = seq![];
    let mut report = BatchReport::default();
    for i in 0..messages.len()
        invariant
            before == *old(buffer),
            steps.len() == i,
            appends(*mapping, messages@, context, before, steps),
            none_aborts(steps),
            *buffer == buffer_after(before, steps, i as int),
            report@ == report_of(scope, context, messages@, steps),
            report.outcome.rows_written + report.outcome.rejected_rows == i,
    {
        let ghost done = steps;
        let result = mapping.append_row(buffer, &messages[i], context);
        proof {
            let step = Step { result, after: *buffer };
            steps = steps.push(step);
            assert(steps.drop_last() =~= done);
            assert(steps.last() == step);
            assert forall|j: int| 0 <= j < steps.len() implies mapping.appended(
                messages@[j],
                context,
                buffer_after(before, steps, j),
                (#[trigger] steps[j]).after,
                steps[j].result,
            ) by {
                if j < done.len() {
                    assert(steps[j] == done[j]);
                    assert(buffer_after(before, steps, j) == buffer_after(before, done, j));
                } else {
                    assert(buffer_after(before, steps, j) == buffer_after(before, done, j));
                }
            }
        }
        match report.note(scope, context, &messages[i], result) {
            Ok(()) => {
                assert forall|j: int| 0 <= j < steps.len() implies !aborts(
                    (#[trigger] steps[j]).result,
                ) by {
                    if j < done.len() {
                        assert(steps[j] == done[j]);
                    }
                }
            },
            Err(failure) => {
                let aborted = AbortedBatch { failure, report };
                assert(batch_ends(
                    *mapping,
                    scope,
                    messages@,
                    context,
                    before,
                    steps,
                    *buffer,
                    Err(aborted),
                ));
                return Err(aborted);
            },
        }
    }
    report.close(scope, context);
    assert(batch_ends(
        *mapping,
        scope,
        messages@,
        context,
        before,
        steps,
        *buffer,
        Ok(report),
    ));
    Ok(report)
}

} // verus!
