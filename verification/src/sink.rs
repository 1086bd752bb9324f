//! The sink: its configuration, and what it decides.

use crate::batch::{BatchOutcome, LogScope, Tally};
use crate::client::error_message;
use crate::columns::{names_in, ColumnSet};
use crate::flush::{classify, reports, FlushError, SinkError};
use crate::mapping::Mapping;
use crate::span::{read_span, span_of, Timeout};
use crate::text::{lowered, reads_as};
use crate::timestamp::{TimestampSource, TimestampUnit};
use questdb::ingress::AckLevel;
use std::sync::Arc;
use vstd::prelude::*;
use vstd::string::*;

verus! {

/// `questdb::ingress::AckLevel`: what a flush waits for.
#[verifier::external_type_specification]
pub struct ExAckLevel(questdb::ingress::AckLevel);

/// Messages per batch where none are configured.
pub const DEFAULT_BATCH_SIZE: u32 = 1000;

/// Seconds to wait for an acknowledgement where no time is configured.
pub const DEFAULT_FLUSH_TIMEOUT_SECS: u64 = 30;

/// The acknowledgement that a configured name stands for, whatever the case of its
/// ASCII letters. No name stands for server acceptance.
pub open spec fn ack_level_named(raw: Option<Seq<char>>) -> Option<AckLevel> {
    match raw {
        None => Some(AckLevel::Ok),
        Some(name) => if lowered(name) == "ok"@ {
            Some(AckLevel::Ok)
        } else if lowered(name) == "durable"@ {
            Some(AckLevel::Durable)
        } else {
            None
        },
    }
}

/// Reads a configured acknowledgement; `None` where the name is unknown.
pub fn parse_ack_level(raw: Option<&str>) -> (r: Option<AckLevel>)
    ensures
        r == ack_level_named(
            match raw {
                Some(name) => Some(name@),
                None => None,
            },
        ),
{
    match raw {
        None => Some(AckLevel::Ok),
        Some(name) => if reads_as(name, "ok") {
            Some(AckLevel::Ok)
        } else if reads_as(name, "durable") {
            Some(AckLevel::Durable)
        } else {
            None
        },
    }
}

/// Whether columns are configured for two uses at once: as a symbol and as a UUID, or
/// as one of these and as the timestamp.
pub open spec fn overlaps(
    symbols: Set<Seq<char>>,
    uuids: Set<Seq<char>>,
    field: Option<Seq<char>>,
) -> bool {
    ||| !symbols.disjoint(uuids)
    ||| (field matches Some(name) && (symbols.contains(name) || uuids.contains(name)))
}

/// Whether `reason` says rightly what overlaps.
pub open spec fn names_overlap(
    symbols: Set<Seq<char>>,
    uuids: Set<Seq<char>>,
    field: Option<Seq<char>>,
    reason: Seq<char>,
) -> bool {
    if symbols.disjoint(uuids) {
        &&& field matches Some(name)
        &&& symbols.contains(name) || uuids.contains(name)
        &&& reason == "timestamp_field "@ + name + " cannot also be a symbol or uuid column"@
    } else {
        exists|column: Seq<char>|
            symbols.contains(column) && #[trigger] uuids.contains(column) && reason == "column "@
                + column + " is listed in both symbol_columns and uuid_columns"@
    }
}

/// What an optional text reads.
pub open spec fn text_in(text: Option<String>) -> Option<Seq<char>> {
    match text {
        Some(text) => Some(text@),
        None => None,
    }
}

fn as_text(text: &Option<String>) -> (r: Option<&str>)
    ensures
        text_in(*text) == match r {
            Some(text) => Some(text@),
            None => None,
        },
{
    match text {
        Some(text) => Some(text.as_str()),
        None => None,
    }
}

/// A column cannot be both a `SYMBOL` and a `UUID`, and neither can double as
/// the designated timestamp. Catching it here beats a per-row failure later.
pub fn validate_column_overlap(mapping: &Mapping) -> (r: Result<(), SinkError>)
    ensures
        r is Err <==> overlaps(
            mapping.symbol_columns@,
            mapping.uuid_columns@,
            text_in(mapping.timestamp_field),
        ),
        r matches Err(error) ==> error matches SinkError::InvalidConfigValue(reason)
            && names_overlap(
            mapping.symbol_columns@,
            mapping.uuid_columns@,
            text_in(mapping.timestamp_field),
            reason@,
        ),
{
    if let Some(column) = mapping.symbol_columns.shared(&mapping.uuid_columns) {
        let mut reason: String = "column ".to_owned();
        reason.append(column.as_str());
        reason.append(" is listed in both symbol_columns and uuid_columns");
        assert(mapping.uuid_columns@.contains(column@));
        return Err(SinkError::InvalidConfigValue(reason));
    }
    if let Some(field) = &mapping.timestamp_field {
        if mapping.symbol_columns.contains(field.as_str()) || mapping.uuid_columns.contains(
            field.as_str(),
        ) {
            let mut reason: String = "timestamp_field ".to_owned();
            reason.append(field.as_str());
            reason.append(" cannot also be a symbol or uuid column");
            return Err(SinkError::InvalidConfigValue(reason));
        }
    }
    Ok(())
}

/// The configuration of a sink. `S` is the type of the connect string, which may
/// carry credentials and is handed through unread.
#[derive(Debug, Clone)]
pub struct QuestDbSinkConfig<S> {
    /// QuestDB connect string, `ws::` or `wss::`. May carry credentials, so it
    /// is treated as a secret throughout.
    pub connection_string: S,
    pub table: String,
    pub timestamp_source: Option<String>,
    pub timestamp_field: Option<String>,
    pub timestamp_unit: Option<String>,
    pub symbol_columns: Option<Vec<String>>,
    pub uuid_columns: Option<Vec<String>>,
    pub include_stream_column: Option<bool>,
    pub include_topic_column: Option<bool>,
    pub include_partition_column: Option<bool>,
    pub include_offset_column: Option<bool>,
    pub include_headers: Option<bool>,
    pub ack_level: Option<String>,
    pub flush_timeout: Option<String>,
    pub batch_size: Option<u32>,
    /// Include a truncated payload in the log line for a rejected message.
    /// Off by default: a rejected payload is still user data and may carry
    /// personal or otherwise sensitive fields.
    pub log_rejected_payload: Option<bool>,
    pub verbose_logging: Option<bool>,
}

/// The columns of an optional list.
pub open spec fn listed(list: Option<Vec<String>>) -> Set<Seq<char>> {
    match list {
        Some(list) => names_in(list@),
        None => Set::empty(),
    }
}

fn column_set(list: &Option<Vec<String>>) -> (r: ColumnSet)
    ensures
        r@ == listed(*list),
{
    match list {
        Some(list) => ColumnSet::from_list(list),
        None => ColumnSet::new(),
    }
}

impl<S> QuestDbSinkConfig<S> {
    /// The first of the settings that holds a value which cannot be used on its own.
    pub open spec fn bad_setting(self) -> Option<Seq<char>> {
        if TimestampSource::named(text_in(self.timestamp_source)) is None {
            Some("timestamp_source"@)
        } else if TimestampUnit::named(text_in(self.timestamp_unit)) is None {
            Some("timestamp_unit"@)
        } else if TimestampSource::named(text_in(self.timestamp_source)) == Some(
            TimestampSource::Payload,
        ) && self.timestamp_field is None {
            Some("timestamp_field"@)
        } else if ack_level_named(text_in(self.ack_level)) is None {
            Some("ack_level"@)
        } else {
            None
        }
    }

    /// Whether columns are configured for two uses at once.
    pub open spec fn overlapping(self) -> bool {
        overlaps(
            listed(self.symbol_columns),
            listed(self.uuid_columns),
            text_in(self.timestamp_field),
        )
    }

    /// Whether `error` is what is to be reported of this configuration: the first thing
    /// that is wrong with it, or nothing.
    pub open spec fn faulted(self, error: Option<SinkError>) -> bool {
        match self.bad_setting() {
            Some(setting) => error matches Some(SinkError::InvalidConfigValue(reason)) && reason@
                == setting,
            None => if self.overlapping() {
                error matches Some(SinkError::InvalidConfigValue(reason)) && names_overlap(
                    listed(self.symbol_columns),
                    listed(self.uuid_columns),
                    text_in(self.timestamp_field),
                    reason@,
                )
            } else {
                error is None
            },
        }
    }

    /// Whether `mapping` is what this configuration asks for.
    pub open spec fn maps_to(self, mapping: Mapping) -> bool {
        &&& mapping.table@ == self.table@
        &&& mapping.symbol_columns@ == listed(self.symbol_columns)
        &&& mapping.uuid_columns@ == listed(self.uuid_columns)
        &&& mapping.timestamp_source == match TimestampSource::named(
            text_in(self.timestamp_source),
        ) {
            Some(source) => source,
            None => TimestampSource::Message,
        }
        &&& text_in(mapping.timestamp_field) == text_in(self.timestamp_field)
        &&& mapping.timestamp_unit == match TimestampUnit::named(text_in(self.timestamp_unit)) {
            Some(unit) => unit,
            None => TimestampUnit::Auto,
        }
        &&& mapping.include_stream_column == self.include_stream_column.unwrap_or(true)
        &&& mapping.include_topic_column == self.include_topic_column.unwrap_or(true)
        &&& mapping.include_partition_column == self.include_partition_column.unwrap_or(false)
        &&& mapping.include_offset_column == self.include_offset_column.unwrap_or(false)
        &&& mapping.include_headers == self.include_headers.unwrap_or(false)
    }
}

/// What is left to do once the rows of a batch stand in the buffer.
#[derive(Debug, Clone, Copy, PartialEq, Eq, Structural)]
pub enum FlushStep {
    /// Nothing: there are no rows.
    Skip,
    /// Publish the rows.
    Publish,
    /// Publish the rows, and wait for the acknowledgement.
    PublishAndAwait,
}

/// How a batch is flushed: what is waited for, and how long.
#[derive(Debug, Clone, Copy)]
pub struct FlushPolicy {
    pub ack_level: AckLevel,
    pub timeout: Timeout,
}

impl FlushPolicy {
    /// Whether the acknowledgement of a flush is waited for: always for a durable one,
    /// and for server acceptance unless no time is given to it.
    pub open spec fn awaits(self) -> bool {
        !(self.ack_level is Ok) || self.timeout.secs > 0 || self.timeout.nanos > 0
    }

    /// What is left to do for a batch with that outcome. A batch without rows is not
    /// flushed.
    pub open spec fn flush_due(self, outcome: Tally) -> FlushStep {
        if outcome.rows_written == 0 {
            FlushStep::Skip
        } else if self.awaits() {
            FlushStep::PublishAndAwait
        } else {
            FlushStep::Publish
        }
    }

    /// Decides what is left to do for a batch with that outcome.
    pub fn flush_step(&self, outcome: &BatchOutcome) -> (r: FlushStep)
        ensures
            r == self.flush_due(outcome@),
    {
        if outcome.rows_written == 0 {
            return FlushStep::Skip;
        }
        let awaits = match self.ack_level {
            AckLevel::Ok => self.timeout.secs > 0 || self.timeout.nanos > 0,
            _ => true,
        };
        if awaits {
            FlushStep::PublishAndAwait
        } else {
            FlushStep::Publish
        }
    }
}

/// The sink. A bad configuration does not keep it from being made: it is recorded in
/// `init_error` and surfaces when the sink is opened.
#[derive(Debug)]
pub struct QuestDbSink<S> {
    pub id: u32,
    pub connection_string: S,
    pub mapping: Arc<Mapping>,
    pub ack_level: AckLevel,
    pub flush_timeout: Timeout,
    pub batch_size: usize,
    pub verbose: bool,
    pub log_rejected_payload: bool,
    /// Whether a flush timeout was configured that could not be read.
    pub timeout_defaulted: bool,
    pub init_error: Option<SinkError>,
}

impl<S> QuestDbSink<S> {
    /// Whether this sink is what `config` asks for, where its flush timeout reads
    /// `timeout`.
    pub open spec fn built_from(
        self,
        id: u32,
        config: QuestDbSinkConfig<S>,
        timeout: Option<Timeout>,
    ) -> bool {
        &&& self.id == id
        &&& self.connection_string == config.connection_string
        &&& config.maps_to(*self.mapping)
        &&& self.ack_level == match ack_level_named(text_in(config.ack_level)) {
            Some(level) => level,
            None => AckLevel::Ok,
        }
        &&& self.flush_timeout == match timeout {
            Some(timeout) => timeout,
            None => (Timeout { secs: DEFAULT_FLUSH_TIMEOUT_SECS, nanos: 0 }),
        }
        &&& self.batch_size == config.batch_size.unwrap_or(DEFAULT_BATCH_SIZE)
        &&& self.verbose == config.verbose_logging.unwrap_or(false)
        &&& self.log_rejected_payload == config.log_rejected_payload.unwrap_or(false)
        &&& self.timeout_defaulted == (config.flush_timeout is Some && timeout is None)
        &&& config.faulted(self.init_error)
    }

    /// The flush timeout that `config` holds, where it can be read.
    pub open spec fn configured_timeout(config: QuestDbSinkConfig<S>) -> Option<Timeout> {
        match config.flush_timeout {
            Some(text) => span_of(text@),
            None => None,
        }
    }

    /// Makes a sink. A flush timeout that cannot be read is taken for the default.
    pub fn new(id: u32, config: QuestDbSinkConfig<S>) -> (r: Self)
        ensures
            r.built_from(id, config, Self::configured_timeout(config)),
            r.flush_timeout.nanos < 1_000_000_000,
    {
        let timeout: Option<Timeout> = match &config.flush_timeout {
            Some(text) => read_span(text.as_str()),
            None => None,
        };
        Self::with_timeout(id, config, timeout)
    }

    /// Makes a sink whose configured flush timeout has been read already; `None` stands
    /// for one that is not configured or cannot be read.
    pub fn with_timeout(id: u32, config: QuestDbSinkConfig<S>, timeout: Option<Timeout>) -> (r:
        Self)
        ensures
            r.built_from(id, config, timeout),
    {
        let mut init_error: Option<SinkError> = None;
        let timestamp_source = match TimestampSource::parse(as_text(&config.timestamp_source)) {
            Some(source) => source,
            None => {
                init_error = first_fault(init_error, "timestamp_source");
                TimestampSource::default()
            },
        };
        let timestamp_unit = match TimestampUnit::parse(as_text(&config.timestamp_unit)) {
            Some(unit) => unit,
            None => {
                init_error = first_fault(init_error, "timestamp_unit");
                TimestampUnit::default()
            },
        };
        if timestamp_source == TimestampSource::Payload && config.timestamp_field.is_none() {
            init_error = first_fault(init_error, "timestamp_field");
        }
        let ack_level = match parse_ack_level(as_text(&config.ack_level)) {
            Some(level) => level,
            None => {
                init_error = first_fault(init_error, "ack_level");
                AckLevel::Ok
            },
        };
        let timeout_defaulted = config.flush_timeout.is_some() && timeout.is_none();
        let flush_timeout = match timeout {
            Some(timeout) => timeout,
            None => Timeout { secs: DEFAULT_FLUSH_TIMEOUT_SECS, nanos: 0 },
        };
        let symbol_columns = column_set(&config.symbol_columns);
        let uuid_columns = column_set(&config.uuid_columns);
        let mapping = Mapping {
            table: config.table,
            symbol_columns,
            uuid_columns,
            timestamp_source,
            timestamp_field: config.timestamp_field,
            timestamp_unit,
            include_stream_column: config.include_stream_column.unwrap_or(true),
            include_topic_column: config.include_topic_column.unwrap_or(true),
            include_partition_column: config.include_partition_column.unwrap_or(false),
            include_offset_column: config.include_offset_column.unwrap_or(false),
            include_headers: config.include_headers.unwrap_or(false),
        };
        if let Err(error) = validate_column_overlap(&mapping) {
            if init_error.is_none() {
                init_error = Some(error);
            }
        }
        QuestDbSink {
            id,
            connection_string: config.connection_string,
            mapping: Arc::new(mapping),
            ack_level,
            flush_timeout,
            batch_size: config.batch_size.unwrap_or(DEFAULT_BATCH_SIZE) as usize,
            verbose: config.verbose_logging.unwrap_or(false),
            log_rejected_payload: config.log_rejected_payload.unwrap_or(false),
            timeout_defaulted,
            init_error,
        }
    }

    /// Whether `r` is what is wrong with the configuration, and `after` this sink without it.
    pub open spec fn surfaced(self, r: Result<(), SinkError>, after: QuestDbSink<S>) -> bool {
        &&& r == match self.init_error {
            Some(error) => Err::<(), SinkError>(error),
            None => Ok::<(), SinkError>(()),
        }
        &&& after == (QuestDbSink { init_error: None, ..self })
    }

    /// Hands out what is wrong with the configuration, once.
    pub fn take_init_error(&mut self) -> (r: Result<(), SinkError>)
        ensures
            old(self).surfaced(r, *final(self)),
    {
        match self.init_error.take() {
            Some(error) => Err(error),
            None => Ok(()),
        }
    }

    /// What the log lines of this sink start from.
    pub open spec fn scope(self) -> LogScope {
        LogScope { id: self.id, log_payload: self.log_rejected_payload }
    }

    /// What the log lines of this sink start from.
    pub fn log_scope(&self) -> (r: LogScope)
        ensures
            r == self.scope(),
    {
        LogScope { id: self.id, log_payload: self.log_rejected_payload }
    }

    /// The warning on a flush timeout that could not be read, where there is one.
    pub open spec fn timeout_warning(self) -> Option<Seq<char>> {
        if self.timeout_defaulted {
            Some(
                "Invalid flush_timeout for "@ + (LogScope {
                    id: self.id,
                    log_payload: self.log_rejected_payload,
                }).name() + ", defaulting to 30s"@,
            )
        } else {
            None
        }
    }

    /// Writes the warning on a flush timeout that could not be read, where there is one.
    pub fn timeout_warning_text(&self) -> (r: Option<String>)
        ensures
            self.timeout_warning() == text_in(r),
    {
        if !self.timeout_defaulted {
            return None;
        }
        let mut text: String = "Invalid flush_timeout for ".to_owned();
        text.append(self.log_scope().name_text().as_str());
        text.append(", defaulting to 30s");
        Some(text)
    }

    /// How this sink flushes.
    pub open spec fn policy(self) -> FlushPolicy {
        FlushPolicy { ack_level: self.ack_level, timeout: self.flush_timeout }
    }

    /// How this sink flushes.
    pub fn flush_policy(&self) -> (r: FlushPolicy)
        ensures
            r == self.policy(),
    {
        FlushPolicy { ack_level: self.ack_level, timeout: self.flush_timeout }
    }

    /// What is said of a client error.
    pub open spec fn client_error_text(self, error: questdb::Error) -> Seq<char> {
        (LogScope { id: self.id, log_payload: self.log_rejected_payload }).name() + ": "@
            + error_message(error)
    }

    /// Turns a failed flush into what the sink reports.
    pub fn map_client_error(&self, failure: FlushError) -> (r: SinkError)
        ensures
            reports(failure, self.client_error_text(failure.error), r),
    {
        let mut text: String = self.log_scope().name_text();
        text.append(": ");
        text.append(failure.error.msg());
        classify(&failure, text)
    }
}

/// The error found before, or else that `setting` cannot be used.
fn first_fault(found: Option<SinkError>, setting: &str) -> (r: Option<SinkError>)
    ensures
        found is Some ==> r == found,
        found is None ==> (r matches Some(SinkError::InvalidConfigValue(reason)) && reason@
            == setting@),
{
    match found {
        Some(error) => Some(error),
        None => Some(SinkError::InvalidConfigValue(setting.to_owned())),
    }
}

} // verus!
