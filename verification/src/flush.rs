//! Failures: which are worth a retry, and what the sink reports.

use crate::client::{error_code, error_in_doubt, error_message};
use questdb::ErrorCode;
use vstd::prelude::*;
use vstd::string::*;

verus! {

/// What the sink reports to the connectors runtime.
#[derive(Debug)]
pub enum SinkError {
    /// A configured value cannot be used.
    InvalidConfigValue(String),
    /// The rows could not be stored; a retry may succeed.
    CannotStoreData(String),
    /// The rows do not fit the table.
    SchemaMismatch(String),
    /// The rows could not be stored, and a retry must not be made.
    PermanentHttpError(String),
    /// The sink is not ready for work.
    InitError(String),
}

impl SinkError {
    /// What is said of the error.
    pub open spec fn text(self) -> Seq<char> {
        match self {
            SinkError::InvalidConfigValue(text) => text@,
            SinkError::CannotStoreData(text) => text@,
            SinkError::SchemaMismatch(text) => text@,
            SinkError::PermanentHttpError(text) => text@,
            SinkError::InitError(text) => text@,
        }
    }

    /// What is said of the error.
    pub fn message(&self) -> (r: &str)
        ensures
            r@ == self.text(),
    {
        match self {
            SinkError::InvalidConfigValue(text) => text.as_str(),
            SinkError::CannotStoreData(text) => text.as_str(),
            SinkError::SchemaMismatch(text) => text.as_str(),
            SinkError::PermanentHttpError(text) => text.as_str(),
            SinkError::InitError(text) => text.as_str(),
        }
    }
}

/// Which half of the flush failed.
///
/// Publishing either appends the frame to the local publication log or it
/// does not, so a failure there can be safe to re-send. By the time the
/// acknowledgement is awaited the frame is already published and the rows may already
/// be committed, so a failure there is never safe to re-send. A durable-ACK stall
/// against a server without replication configured is exactly this case: the rows
/// land, only the watermark never advances.
#[derive(Debug, Clone, Copy, PartialEq, Eq, Structural)]
pub enum FlushPhase {
    Publishing,
    Awaiting,
}

/// A flush that failed.
#[derive(Debug)]
pub struct FlushError {
    pub phase: FlushPhase,
    pub error: questdb::Error,
}

impl FlushError {
    /// A failure before the rows were published.
    pub fn publishing(error: questdb::Error) -> (r: Self)
        ensures
            r.phase == FlushPhase::Publishing,
            r.error == error,
    {
        FlushError { phase: FlushPhase::Publishing, error }
    }

    /// A failure while waiting for the acknowledgement.
    pub fn awaiting(error: questdb::Error) -> (r: Self)
        ensures
            r.phase == FlushPhase::Awaiting,
            r.error == error,
    {
        FlushError { phase: FlushPhase::Awaiting, error }
    }
}

/// The calls that flush a batch.
#[derive(Debug, Clone, Copy, PartialEq, Eq, Structural)]
pub enum FlushCall {
    /// Taking a sender from the pool.
    Borrow,
    /// Publishing the rows.
    Publish,
    /// Waiting for the acknowledgement.
    Await,
}

impl FlushCall {
    /// Which half of the flush the call belongs to.
    pub open spec fn phase(self) -> FlushPhase {
        match self {
            FlushCall::Borrow => FlushPhase::Publishing,
            FlushCall::Publish => FlushPhase::Publishing,
            FlushCall::Await => FlushPhase::Awaiting,
        }
    }
}

/// What the flush has failed with where `call` failed with `error`.
pub fn call_failed(call: FlushCall, error: questdb::Error) -> (r: FlushError)
    ensures
        r.phase == call.phase(),
        r.error == error,
{
    match call {
        FlushCall::Borrow => FlushError::publishing(error),
        FlushCall::Publish => FlushError::publishing(error),
        FlushCall::Await => FlushError::awaiting(error),
    }
}

/// The codes of failures of the transport, after which the same rows may get through.
pub open spec fn retryable_code(code: ErrorCode) -> bool {
    ||| code is SocketError
    ||| code is ConnectTimeout
    ||| code is FailoverRetry
    ||| code is RoleMismatch
    ||| code is ServerFlushError
    ||| code is ServerInternalError
    ||| code is CouldNotResolveAddr
}

/// Whether a retry may be made: the code allows it, and the rows are known not to
/// have been delivered.
pub open spec fn retryable(code: ErrorCode, in_doubt: bool) -> bool {
    retryable_code(code) && !in_doubt
}

/// Whether a retry may be made after `error`.
pub open spec fn transient(error: questdb::Error) -> bool {
    retryable(error_code(error), error_in_doubt(error))
}

/// Transport-level failures are worth retrying; server rejections are not,
/// because a rejection is deterministic. The server refused the frame, so the
/// same bytes will be refused again and the rows were never stored.
///
/// A retryable code alone is not enough. The client sets `in_doubt` when
/// delivery is unknown, and documents that `FailoverRetry` in particular can
/// carry it, so re-sending would duplicate rows the server may already hold.
/// Both must hold for a failure to count as transient.
pub fn is_transient(error: &questdb::Error) -> (r: bool)
    ensures
        r == transient(*error),
{
    is_retryable(error.code(), error.in_doubt())
}

/// The rule of [`is_transient`] on the code and the doubt alone.
pub fn is_retryable(code: ErrorCode, in_doubt: bool) -> (r: bool)
    ensures
        r == retryable(code, in_doubt),
{
    if in_doubt {
        return false;
    }
    match code {
        ErrorCode::SocketError => true,
        ErrorCode::ConnectTimeout => true,
        ErrorCode::FailoverRetry => true,
        ErrorCode::RoleMismatch => true,
        ErrorCode::ServerFlushError => true,
        ErrorCode::ServerInternalError => true,
        ErrorCode::CouldNotResolveAddr => true,
        _ => false,
    }
}

/// What is reported of `failure`, with `text` for the message.
pub open spec fn reports(failure: FlushError, text: Seq<char>, r: SinkError) -> bool {
    let retry = failure.phase == FlushPhase::Publishing && transient(failure.error);
    let mismatch = error_code(failure.error) is ServerSchemaMismatch;
    match r {
        SinkError::CannotStoreData(message) => retry && message@ == text,
        SinkError::SchemaMismatch(message) => !retry && mismatch && message@ == text,
        SinkError::PermanentHttpError(message) => !retry && !mismatch && message@ == text,
        _ => false,
    }
}

/// Puts the part of `failure` that decides into the error to report, with `text` for
/// the message.
pub fn classify(failure: &FlushError, text: String) -> (r: SinkError)
    ensures
        reports(*failure, text@, r),
{
    if failure.phase == FlushPhase::Publishing && is_transient(&failure.error) {
        return SinkError::CannotStoreData(text);
    }
    match failure.error.code() {
        ErrorCode::ServerSchemaMismatch => SinkError::SchemaMismatch(text),
        _ => SinkError::PermanentHttpError(text),
    }
}

/// What is said of a task that was to connect and did not end well.
pub open spec fn connect_task_text(cause: Seq<char>) -> Seq<char> {
    "connect task failed: "@ + cause
}

/// What is said of a client that could not connect.
pub open spec fn connect_text(error: questdb::Error) -> Seq<char> {
    "cannot connect to QuestDB: "@ + error_message(error)
}

/// What is said of a task that was to flush and did not end well.
pub open spec fn flush_task_text(cause: Seq<char>) -> Seq<char> {
    "blocking flush task failed: "@ + cause
}

/// Reports that the task which was to connect did not end well.
pub fn connect_task_error(cause: &str) -> (r: SinkError)
    ensures
        r is InitError,
        r.text() == connect_task_text(cause@),
{
    let mut text: String = "connect task failed: ".to_owned();
    text.append(cause);
    SinkError::InitError(text)
}

/// Reports that the client could not connect.
pub fn connect_error(error: &questdb::Error) -> (r: SinkError)
    ensures
        r is InitError,
        r.text() == connect_text(*error),
{
    let mut text: String = "cannot connect to QuestDB: ".to_owned();
    text.append(error.msg());
    SinkError::InitError(text)
}

/// Reports that the task which was to flush did not end well.
pub fn flush_task_error(cause: &str) -> (r: SinkError)
    ensures
        r is CannotStoreData,
        r.text() == flush_task_text(cause@),
{
    let mut text: String = "blocking flush task failed: ".to_owned();
    text.append(cause);
    SinkError::CannotStoreData(text)
}

} // verus!
