//! From a message to a row.

use crate::array::{append_array, array_plan, column_error};
use crate::client;
use crate::client::{
    marker, marker_refusal, origin, recorded, refusal_of, Entry, Origin, Refusal, Stamp,
};
use crate::columns::ColumnSet;
use crate::json;
use crate::json::{double_text, json_text, lookup, truncated, Value};
use crate::message::{ConsumedMessage, Payload, RowContext};
use crate::row::{
    end_row, lemma_ran_next, lemma_ran_nothing, lemma_ran_stops, nothing, one, only_if, ran,
    reject, row_end, run, write_bool, write_double, write_long, write_symbol,
    write_table, write_text, write_uuid, Plan, RowError,
};
use crate::text::{decimal, decimal_text, same_text, signed_decimal, signed_decimal_text};
use crate::timestamp::{TimestampSource, TimestampUnit};
use crate::uuid::{is_uuid, parse_uuid, uuid_halves};
use questdb::ingress::Buffer;
use simd_json::StaticNode;
use vstd::prelude::*;
use vstd::string::*;
use vstd::utf8::{decode_utf8, valid_utf8};

verus! {

/// Everything needed to turn a `ConsumedMessage` into a QuestDB row.
#[derive(Debug)]
pub struct Mapping {
    pub table: String,
    pub symbol_columns: ColumnSet,
    pub uuid_columns: ColumnSet,
    pub timestamp_source: TimestampSource,
    pub timestamp_field: Option<String>,
    pub timestamp_unit: TimestampUnit,
    pub include_stream_column: bool,
    pub include_topic_column: bool,
    pub include_partition_column: bool,
    pub include_offset_column: bool,
    pub include_headers: bool,
}

/// The `i64` with the 64 bits of `n`.
pub open spec fn wrapped(n: u64) -> i64 {
    if n <= i64::MAX {
        n as i64
    } else {
        (n - 0x1_0000_0000_0000_0000) as i64
    }
}

fn wrap(n: u64) -> (r: i64)
    ensures
        r == wrapped(n),
{
    if n <= i64::MAX as u64 {
        n as i64
    } else {
        ((n as i128) - 0x1_0000_0000_0000_0000) as i64
    }
}

/// The text of a value that a symbol can hold.
pub open spec fn symbol_text(value: Value) -> Option<Seq<char>> {
    match value {
        Value::Static(StaticNode::Null) => None,
        Value::Static(StaticNode::Bool(flag)) => Some(
            if flag {
                "true"@
            } else {
                "false"@
            },
        ),
        Value::Static(StaticNode::I64(number)) => Some(signed_decimal(number as int)),
        Value::Static(StaticNode::U64(number)) => Some(decimal(number as nat)),
        Value::Static(StaticNode::F64(_)) => Some(double_text(value->Static_0)),
        Value::String(text) => Some(text@),
        Value::Array(_) => None,
        Value::Object(_) => None,
    }
}

/// Renders a scalar as the text of a symbol; `None` for null, arrays and objects.
pub fn scalar_to_symbol(value: &Value) -> (r: Option<String>)
    ensures
        symbol_text(*value) == match r {
            Some(text) => Some(text@),
            None => None,
        },
{
    match value {
        Value::Static(node) => match node {
            StaticNode::Null => None,
            StaticNode::Bool(flag) => if *flag {
                Some("true".to_owned())
            } else {
                Some("false".to_owned())
            },
            StaticNode::I64(number) => Some(signed_decimal_text(*number)),
            StaticNode::U64(number) => Some(decimal_text(*number as u128)),
            StaticNode::F64(_) => Some(json::write_double(node)),
        },
        Value::String(text) => Some(text.clone()),
        _ => None,
    }
}

/// Whether a symbol can hold the value.
fn is_scalar(value: &Value) -> (r: bool)
    ensures
        r == symbol_text(*value) is Some,
{
    match value {
        Value::Static(StaticNode::Null) => false,
        Value::Static(_) => true,
        Value::String(_) => true,
        _ => false,
    }
}

/// The number that a value gives as a timestamp.
pub open spec fn stamp_number(value: Value) -> Option<i64> {
    match value {
        Value::Static(StaticNode::I64(number)) => Some(number),
        Value::Static(StaticNode::U64(number)) => if number <= i64::MAX {
            Some(number as i64)
        } else {
            None
        },
        Value::Static(StaticNode::F64(_)) => Some(truncated(value->Static_0)),
        _ => None,
    }
}

/// Reads a timestamp; `None` for what is no number and for one past the range.
pub fn timestamp_number(value: &Value) -> (r: Option<i64>)
    ensures
        r == stamp_number(*value),
{
    match value {
        Value::Static(node) => match node {
            StaticNode::I64(number) => Some(*number),
            StaticNode::U64(number) => if *number <= i64::MAX as u64 {
                Some(*number as i64)
            } else {
                None
            },
            StaticNode::F64(_) => Some(json::truncate(node)),
            _ => None,
        },
        _ => None,
    }
}

/// The stamp of a message's own timestamp. Zero means unset in Apache Iggy, so the row
/// falls back to the server clock.
pub open spec fn micros_stamp(micros: u64) -> Option<Stamp> {
    if micros == 0 {
        None
    } else {
        Some(Stamp::Micros(wrapped(micros)))
    }
}

/// `timestamp == 0` means unset in Apache Iggy, so the row falls back to the
/// server clock, which `None` stands for, rather than landing at the Unix epoch.
pub fn micros_or_now(micros: u64) -> (r: Option<Stamp>)
    ensures
        r == micros_stamp(micros),
{
    if micros == 0 {
        None
    } else {
        Some(Stamp::Micros(wrap(micros)))
    }
}

/// What is wrong with the timestamp field `field`.
pub open spec fn timestamp_fault(field: Seq<char>, fault: Seq<char>) -> Seq<char> {
    "timestamp field "@ + field + fault
}

fn timestamp_error(field: &str, fault: &str) -> (r: RowError)
    ensures
        r matches RowError::Invalid(reason) && reason@ == timestamp_fault(field@, fault@),
{
    let mut reason: String = "timestamp field ".to_owned();
    reason.append(field);
    reason.append(fault);
    RowError::Invalid(reason)
}

/// `String::from_utf8` on a copy of `bytes`: the text that they encode, where they are
/// valid UTF-8.
#[verifier::external_body]
fn utf8_text(bytes: &Vec<u8>) -> (r: Option<String>)
    ensures
        r is Some <==> valid_utf8(bytes@),
        r matches Some(text) ==> text@ == decode_utf8(bytes@),
{
    String::from_utf8(bytes.clone()).ok()
}

/// The text of a payload without fields; `None` where its bytes are no text.
pub open spec fn text_of(payload: Payload) -> Option<Seq<char>> {
    match payload {
        Payload::Text(text) => Some(text@),
        Payload::Proto(text) => Some(text@),
        Payload::Raw(bytes) => bytes_text(bytes@),
        Payload::FlatBuffer(bytes) => bytes_text(bytes@),
        Payload::Avro(bytes) => bytes_text(bytes@),
        Payload::Json(_) => None,
    }
}

/// The text that `bytes` encode, where they are valid UTF-8.
pub open spec fn bytes_text(bytes: Seq<u8>) -> Option<Seq<char>> {
    if valid_utf8(bytes) {
        Some(decode_utf8(bytes))
    } else {
        None
    }
}

/// The fields of a payload that is a JSON object.
pub open spec fn fields_of(payload: Payload) -> Option<Seq<(String, Value)>> {
    match payload {
        Payload::Json(document) => match document.fields {
            Some(fields) => Some(fields@),
            None => None,
        },
        _ => None,
    }
}

/// Whether a payload is JSON but not an object.
pub open spec fn is_bare_json(payload: Payload) -> bool {
    payload is Json && fields_of(payload) is None
}

/// One `VARCHAR` cell for each of the headers, in their order.
pub open spec fn headers_plan(headers: Seq<(String, String)>) -> Plan
    decreases headers.len(),
{
    if headers.len() == 0 {
        nothing()
    } else {
        headers_plan(headers.drop_last()).followed_by(
            one(Entry::Text("header_"@ + headers.last().0@, headers.last().1@)),
        )
    }
}

/// What a row asks for by way of a message's headers.
pub open spec fn header_columns(message: ConsumedMessage) -> Plan {
    match message.headers {
        Some(headers) => headers_plan(headers@),
        None => nothing(),
    }
}

/// What becomes of a message.
pub enum RowFate {
    /// It got its row, and the buffer now holds these entries.
    Written(Seq<Entry>),
    /// It is invalid for this reason.
    Invalid(Seq<char>),
    /// The client refused it.
    Refused(Refusal),
}

impl Mapping {
    /// Whether the field `name` is the one that the designated timestamp is read from.
    pub open spec fn names_timestamp(self, name: Seq<char>) -> bool {
        &&& self.timestamp_source == TimestampSource::Payload
        &&& self.timestamp_field matches Some(field)
        &&& field@ == name
    }

    /// Whether the field `name` is stored as a symbol: it is listed as one, and its value
    /// is one that a symbol can hold.
    pub open spec fn is_symbol(self, name: Seq<char>, value: Value) -> bool {
        self.symbol_columns@.contains(name) && symbol_text(value) is Some
    }

    /// What a row asks for where the field `name` is to be a symbol.
    pub open spec fn symbol_plan(self, name: Seq<char>, value: Value) -> Plan {
        if !self.names_timestamp(name) && self.is_symbol(name, value) {
            one(Entry::Symbol(name, symbol_text(value)->0))
        } else {
            nothing()
        }
    }

    /// What a row asks for by way of symbols from the payload.
    pub open spec fn symbols_plan(self, fields: Seq<(String, Value)>) -> Plan
        decreases fields.len(),
    {
        if fields.len() == 0 {
            nothing()
        } else {
            self.symbols_plan(fields.drop_last()).followed_by(
                self.symbol_plan(fields.last().0@, fields.last().1),
            )
        }
    }

    /// What a row asks for where the field `name` is to be a column of its own type.
    pub open spec fn column_plan(self, name: Seq<char>, value: Value) -> Plan {
        match value {
            Value::Static(StaticNode::Null) => nothing(),
            Value::Static(StaticNode::Bool(flag)) => one(Entry::Bool(name, flag)),
            Value::Static(StaticNode::I64(number)) => one(Entry::Long(name, number)),
            Value::Static(StaticNode::U64(number)) => if number <= i64::MAX {
                one(Entry::Long(name, number as i64))
            } else {
                one(Entry::Double(name, value->Static_0))
            },
            Value::Static(StaticNode::F64(_)) => one(Entry::Double(name, value->Static_0)),
            Value::String(text) => if !self.uuid_columns@.contains(name) {
                one(Entry::Text(name, text@))
            } else if is_uuid(text@) {
                one(
                    Entry::Uuid(
                        name,
                        uuid_halves(text@).0 as u64,
                        uuid_halves(text@).1 as u64,
                    ),
                )
            } else {
                reject("column "@ + name + " is not a valid UUID"@)
            },
            Value::Array(items) => array_plan(name, items@),
            Value::Object(object) => match json_text(object) {
                Some(text) => one(Entry::Text(name, text)),
                None => reject("column "@ + name + " is not serializable"@),
            },
        }
    }

    /// What a row asks for by way of a column where the payload has the field `name`: nothing
    /// where it is the timestamp or a symbol. An array or an object is a column even where
    /// it is listed as a symbol.
    pub open spec fn field_plan(self, name: Seq<char>, value: Value) -> Plan {
        only_if(
            !self.names_timestamp(name) && !self.is_symbol(name, value),
            self.column_plan(name, value),
        )
    }

    /// What a row asks for by way of columns from the payload.
    pub open spec fn columns_plan(self, fields: Seq<(String, Value)>) -> Plan
        decreases fields.len(),
    {
        if fields.len() == 0 {
            nothing()
        } else {
            self.columns_plan(fields.drop_last()).followed_by(
                self.field_plan(fields.last().0@, fields.last().1),
            )
        }
    }

    /// How a row starts: its table, and the symbols that every row of a batch shares.
    pub open spec fn head_plan(self, context: RowContext) -> Plan {
        one(Entry::Table(self.table@)).followed_by(
            only_if(self.include_stream_column, one(Entry::Symbol("stream"@, context.stream@))),
        ).followed_by(
            only_if(self.include_topic_column, one(Entry::Symbol("topic"@, context.topic@))),
        )
    }

    /// The columns on where a message comes from, and its headers.
    pub open spec fn metadata_plan(self, message: ConsumedMessage, context: RowContext) -> Plan {
        only_if(
            self.include_partition_column,
            one(Entry::Long("partition_id"@, context.partition_id as i64)),
        ).followed_by(
            only_if(
                self.include_offset_column,
                one(Entry::Long("offset"@, wrapped(message.offset))),
            ),
        ).followed_by(
            only_if(self.include_headers, header_columns(message)),
        )
    }

    /// The columns of the payload: one for each field that is no symbol, or one for
    /// the whole of a payload without fields.
    pub open spec fn body_plan(self, payload: Payload) -> Plan {
        match fields_of(payload) {
            Some(fields) => self.columns_plan(fields),
            None => match text_of(payload) {
                Some(text) => one(Entry::Text("payload"@, text)),
                None => reject("payload is not valid UTF-8"@),
            },
        }
    }

    /// How a row ends: with its designated timestamp.
    pub open spec fn timestamp_plan(self, message: ConsumedMessage) -> Plan {
        match self.timestamp_source {
            TimestampSource::Server => one(row_end(None)),
            TimestampSource::Message => one(row_end(micros_stamp(message.timestamp))),
            TimestampSource::Origin => one(row_end(micros_stamp(message.origin_timestamp))),
            TimestampSource::Payload => match self.timestamp_field {
                None => reject("timestamp_field is not set"@),
                Some(field) => match fields_of(message.payload) {
                    None => reject(timestamp_fault(field@, " is missing"@)),
                    Some(fields) => match lookup(fields, field@) {
                        None => reject(timestamp_fault(field@, " is missing"@)),
                        Some(value) => match stamp_number(value) {
                            None => reject(timestamp_fault(field@, " is not a number"@)),
                            Some(number) => one(
                                row_end(
                                    Some(Stamp::Nanos(self.timestamp_unit.nanos(number as int))),
                                ),
                            ),
                        },
                    },
                },
            },
        }
    }

    /// The symbols that a payload's fields give.
    pub open spec fn payload_symbols(self, payload: Payload) -> Plan {
        match fields_of(payload) {
            Some(fields) => self.symbols_plan(fields),
            None => nothing(),
        }
    }

    /// What the row of `message` asks for. QuestDB requires every symbol to precede
    /// every other column.
    pub open spec fn row_plan(self, message: ConsumedMessage, context: RowContext) -> Plan {
        if is_bare_json(message.payload) {
            reject("JSON payload is not an object"@)
        } else {
            self.head_plan(context).followed_by(
                self.payload_symbols(message.payload),
            ).followed_by(self.metadata_plan(message, context)).followed_by(
                self.body_plan(message.payload),
            ).followed_by(self.timestamp_plan(message))
        }
    }

    /// What becomes of the row of `message` where it is appended to a buffer made as
    /// `origin` that holds `held`.
    pub open spec fn row_fate(
        self,
        message: ConsumedMessage,
        context: RowContext,
        origin: Origin,
        held: Seq<Entry>,
    ) -> RowFate {
        let plan = self.row_plan(message, context);
        let run = run(origin, held, plan.entries);
        if let Some(refusal) = marker_refusal(origin, held) {
            RowFate::Refused(refusal)
        } else if let Some(refusal) = run.refusal {
            RowFate::Refused(refusal)
        } else if let Some(reason) = plan.invalid {
            RowFate::Invalid(reason)
        } else {
            RowFate::Written(run.held)
        }
    }

    /// Whether appending the row of `message` to the buffer `before` ends in `r`, with the
    /// buffer as `after`.
    pub open spec fn appended(
        self,
        message: ConsumedMessage,
        context: RowContext,
        before: Buffer,
        after: Buffer,
        r: Result<(), RowError>,
    ) -> bool {
        &&& origin(after) == origin(before)
        &&& marker(after) == if marker_refusal(origin(before), recorded(before)) is Some {
            marker(before)
        } else {
            None
        }
        &&& match self.row_fate(message, context, origin(before), recorded(before)) {
            RowFate::Written(held) => r is Ok && recorded(after) == held,
            RowFate::Invalid(reason) => {
                &&& r matches Err(RowError::Invalid(text))
                &&& text@ == reason
                &&& recorded(after) == recorded(before)
            },
            RowFate::Refused(refusal) => {
                &&& r matches Err(RowError::Client(error))
                &&& refusal_of(error) == refusal
                &&& recorded(after) == recorded(before)
            },
        }
    }

    /// Appends one row. On `Err` the buffer is rewound to the row boundary, so
    /// a rejected message never leaves a half-written row behind.
    pub fn append_row(
        &self,
        buffer: &mut Buffer,
        message: &ConsumedMessage,
        context: RowContext<'_>,
    ) -> (r: Result<(), RowError>)
        ensures
            self.appended(*message, context, *old(buffer), *final(buffer), r),
            r is Err ==> recorded(*final(buffer)) == recorded(*old(buffer)),
    {
        match client::set_marker(buffer) {
            Ok(()) => {},
            Err(error) => {
                return Err(RowError::from(error));
            },
        }
        match self.append_row_inner(buffer, message, context) {
            Ok(()) => {
                client::clear_marker(buffer);
                Ok(())
            },
            Err(error) => {
                let _ = client::rewind_to_marker(buffer);
                Err(error)
            },
        }
    }

    /// Writes one row, and stops where it cannot go on.
    pub fn append_row_inner(
        &self,
        buffer: &mut Buffer,
        message: &ConsumedMessage,
        context: RowContext<'_>,
    ) -> (r: Result<(), RowError>)
        ensures
            ran(*old(buffer), self.row_plan(*message, context), *final(buffer), r),
    {
        let ghost start = *buffer;
        let fields = match self.payload_object(message) {
            Ok(fields) => fields,
            Err(error) => {
                return Err(error);
            },
        };
        let ghost symbols = self.payload_symbols(message.payload);
        let ghost metadata = self.metadata_plan(*message, context);
        let ghost body = self.body_plan(message.payload);
        let ghost last = self.timestamp_plan(*message);
        let ghost to_head = self.head_plan(context);
        let ghost to_symbols = to_head.followed_by(symbols);
        let ghost to_metadata = to_symbols.followed_by(metadata);
        let ghost to_body = to_metadata.followed_by(body);

        let head_result = self.append_head(buffer, context);
        if head_result.is_err() {
            proof {
                lemma_ran_stops(start, to_head, *buffer, head_result, symbols);
                lemma_ran_stops(start, to_symbols, *buffer, head_result, metadata);
                lemma_ran_stops(start, to_metadata, *buffer, head_result, body);
                lemma_ran_stops(start, to_body, *buffer, head_result, last);
            }
            return head_result;
        }
        // QuestDB requires every symbol to precede every non-symbol column, so
        // the payload is walked twice rather than once.
        let ghost mid = *buffer;
        let symbols_result = match fields {
            Some(fields) => self.append_symbols(buffer, fields),
            None => {
                proof {
                    lemma_ran_nothing(mid);
                }
                Ok(())
            },
        };
        proof {
            lemma_ran_next(start, to_head, mid, symbols, *buffer, symbols_result);
        }
        if symbols_result.is_err() {
            proof {
                lemma_ran_stops(start, to_symbols, *buffer, symbols_result, metadata);
                lemma_ran_stops(start, to_metadata, *buffer, symbols_result, body);
                lemma_ran_stops(start, to_body, *buffer, symbols_result, last);
            }
            return symbols_result;
        }
        let ghost mid = *buffer;
        let metadata_result = self.append_metadata(buffer, message, context);
        proof {
            lemma_ran_next(start, to_symbols, mid, metadata, *buffer, metadata_result);
        }
        if metadata_result.is_err() {
            proof {
                lemma_ran_stops(start, to_metadata, *buffer, metadata_result, body);
                lemma_ran_stops(start, to_body, *buffer, metadata_result, last);
            }
            return metadata_result;
        }
        let ghost mid = *buffer;
        let body_result = match fields {
            Some(fields) => self.append_columns(buffer, fields),
            // Raw / Text payloads have no field structure, so they land in
            // a single column rather than being silently dropped.
            None => match self.payload_text(message) {
                Ok(text) => write_text(buffer, "payload", text.as_str()),
                Err(error) => Err(error),
            },
        };
        proof {
            lemma_ran_next(start, to_metadata, mid, body, *buffer, body_result);
        }
        if body_result.is_err() {
            proof {
                lemma_ran_stops(start, to_body, *buffer, body_result, last);
            }
            return body_result;
        }
        let ghost mid = *buffer;
        let r = self.append_timestamp(buffer, message, fields);
        proof {
            lemma_ran_next(start, to_body, mid, last, *buffer, r);
        }
        r
    }

    /// Whether the field `name` is the one that the designated timestamp is read from.
    pub fn is_timestamp_field(&self, name: &str) -> (r: bool)
        ensures
            r == self.names_timestamp(name@),
    {
        match &self.timestamp_field {
            Some(field) => self.timestamp_source == TimestampSource::Payload && same_text(
                field.as_str(),
                name,
            ),
            None => false,
        }
    }

    /// `Some` for JSON object payloads, `None` for payloads with no field
    /// structure.
    pub fn payload_object<'m>(&self, message: &'m ConsumedMessage) -> (r: Result<
        Option<&'m Vec<(String, Value)>>,
        RowError,
    >)
        ensures
            r is Err <==> is_bare_json(message.payload),
            r matches Err(error) ==> error matches RowError::Invalid(reason) && reason@
                == "JSON payload is not an object"@,
            r matches Ok(fields) ==> fields_of(message.payload) == match fields {
                Some(fields) => Some(fields@),
                None => None,
            },
    {
        match &message.payload {
            Payload::Json(document) => match &document.fields {
                Some(fields) => Ok(Some(fields)),
                None => Err(RowError::Invalid("JSON payload is not an object".to_owned())),
            },
            _ => Ok(None),
        }
    }

    /// The text of a payload without fields.
    pub fn payload_text(&self, message: &ConsumedMessage) -> (r: Result<String, RowError>)
        requires
            !(message.payload is Json),
        ensures
            r is Ok <==> text_of(message.payload) is Some,
            r matches Ok(text) ==> text_of(message.payload) == Some(text@),
            r matches Err(error) ==> error matches RowError::Invalid(reason) && reason@
                == "payload is not valid UTF-8"@,
    {
        let text = match &message.payload {
            Payload::Text(text) => Some(text.clone()),
            Payload::Proto(text) => Some(text.clone()),
            Payload::Raw(bytes) => utf8_text(bytes),
            Payload::FlatBuffer(bytes) => utf8_text(bytes),
            Payload::Avro(bytes) => utf8_text(bytes),
            Payload::Json(_) => None,
        };
        match text {
            Some(text) => Ok(text),
            None => Err(RowError::Invalid("payload is not valid UTF-8".to_owned())),
        }
    }

    /// Starts the row.
    fn append_head(&self, buffer: &mut Buffer, context: RowContext<'_>) -> (r: Result<
        (),
        RowError,
    >)
        ensures
            ran(*old(buffer), self.head_plan(context), *final(buffer), r),
    {
        let ghost start = *buffer;
        let ghost table = one(Entry::Table(self.table@));
        let ghost stream = only_if(
            self.include_stream_column,
            one(Entry::Symbol("stream"@, context.stream@)),
        );
        let ghost topic = only_if(
            self.include_topic_column,
            one(Entry::Symbol("topic"@, context.topic@)),
        );
        let table_result = write_table(buffer, self.table.as_str());
        if table_result.is_err() {
            proof {
                lemma_ran_stops(start, table, *buffer, table_result, stream);
                lemma_ran_stops(
                    start,
                    table.followed_by(stream),
                    *buffer,
                    table_result,
                    topic,
                );
            }
            return table_result;
        }
        let ghost mid = *buffer;
        let stream_result = if self.include_stream_column {
            write_symbol(buffer, "stream", context.stream)
        } else {
            proof {
                lemma_ran_nothing(mid);
            }
            Ok(())
        };
        proof {
            lemma_ran_next(start, table, mid, stream, *buffer, stream_result);
        }
        if stream_result.is_err() {
            proof {
                lemma_ran_stops(
                    start,
                    table.followed_by(stream),
                    *buffer,
                    stream_result,
                    topic,
                );
            }
            return stream_result;
        }
        let ghost mid = *buffer;
        let r = if self.include_topic_column {
            write_symbol(buffer, "topic", context.topic)
        } else {
            proof {
                lemma_ran_nothing(mid);
            }
            Ok(())
        };
        proof {
            lemma_ran_next(start, table.followed_by(stream), mid, topic, *buffer, r);
        }
        r
    }

    /// Writes the fields that are symbols.
    fn append_symbols(&self, buffer: &mut Buffer, fields: &Vec<(String, Value)>) -> (r: Result<
        (),
        RowError,
    >)
        ensures
            ran(*old(buffer), self.symbols_plan(fields@), *final(buffer), r),
    {
        let ghost start = *buffer;
        proof {
            lemma_ran_nothing(start);
        }
        for i in 0..fields.len()
            invariant
                start == *old(buffer),
                ran(start, self.symbols_plan(fields@.take(i as int)), *buffer, Ok(())),
        {
            let ghost mid = *buffer;
            let name = fields[i].0.as_str();
            let ghost plan = self.symbol_plan(name@, fields@[i as int].1);
            let text = if self.is_timestamp_field(name) || !self.symbol_columns.contains(name) {
                None
            } else {
                scalar_to_symbol(&fields[i].1)
            };
            let r = match text {
                Some(text) => write_symbol(buffer, name, text.as_str()),
                None => {
                    proof {
                        lemma_ran_nothing(mid);
                    }
                    Ok(())
                },
            };
            proof {
                assert(fields@.take(i + 1).drop_last() =~= fields@.take(i as int));
                lemma_ran_next(
                    start,
                    self.symbols_plan(fields@.take(i as int)),
                    mid,
                    plan,
                    *buffer,
                    r,
                );
            }
            if r.is_err() {
                proof {
                    self.lemma_symbols_stop(fields@, i + 1, start, *buffer, r);
                }
                return r;
            }
        }
        assert(fields@.take(fields@.len() as int) =~= fields@);
        Ok(())
    }

    proof fn lemma_symbols_stop(
        self,
        fields: Seq<(String, Value)>,
        n: int,
        before: Buffer,
        after: Buffer,
        r: Result<(), RowError>,
    )
        requires
            0 <= n <= fields.len(),
            ran(before, self.symbols_plan(fields.take(n)), after, r),
            r is Err,
        ensures
            ran(before, self.symbols_plan(fields), after, r),
        decreases fields.len() - n,
    {
        if n == fields.len() {
            assert(fields.take(n) =~= fields);
        } else {
            let more = fields.take(n + 1);
            assert(more.drop_last() =~= fields.take(n));
            lemma_ran_stops(
                before,
                self.symbols_plan(fields.take(n)),
                after,
                r,
                self.symbol_plan(more.last().0@, more.last().1),
            );
            self.lemma_symbols_stop(fields, n + 1, before, after, r);
        }
    }

    /// Writes the columns on where the message comes from, and its headers.
    fn append_metadata(
        &self,
        buffer: &mut Buffer,
        message: &ConsumedMessage,
        context: RowContext<'_>,
    ) -> (r: Result<(), RowError>)
        ensures
            ran(*old(buffer), self.metadata_plan(*message, context), *final(buffer), r),
    {
        let ghost start = *buffer;
        let ghost partition = only_if(
            self.include_partition_column,
            one(Entry::Long("partition_id"@, context.partition_id as i64)),
        );
        let ghost offset = only_if(
            self.include_offset_column,
            one(Entry::Long("offset"@, wrapped(message.offset))),
        );
        let ghost headers = only_if(self.include_headers, header_columns(*message));
        let partition_result = if self.include_partition_column {
            write_long(buffer, "partition_id", context.partition_id as i64)
        } else {
            proof {
                lemma_ran_nothing(start);
            }
            Ok(())
        };
        if partition_result.is_err() {
            proof {
                lemma_ran_stops(start, partition, *buffer, partition_result, offset);
                lemma_ran_stops(
                    start,
                    partition.followed_by(offset),
                    *buffer,
                    partition_result,
                    headers,
                );
            }
            return partition_result;
        }
        let ghost mid = *buffer;
        let offset_result = if self.include_offset_column {
            write_long(buffer, "offset", wrap(message.offset))
        } else {
            proof {
                lemma_ran_nothing(mid);
            }
            Ok(())
        };
        proof {
            lemma_ran_next(start, partition, mid, offset, *buffer, offset_result);
        }
        if offset_result.is_err() {
            proof {
                lemma_ran_stops(
                    start,
                    partition.followed_by(offset),
                    *buffer,
                    offset_result,
                    headers,
                );
            }
            return offset_result;
        }
        let ghost mid = *buffer;
        let r = if self.include_headers {
            self.append_headers(buffer, message)
        } else {
            proof {
                lemma_ran_nothing(mid);
            }
            Ok(())
        };
        proof {
            lemma_ran_next(start, partition.followed_by(offset), mid, headers, *buffer, r);
        }
        r
    }

    /// Writes each header as a column.
    pub fn append_headers(&self, buffer: &mut Buffer, message: &ConsumedMessage) -> (r: Result<
        (),
        RowError,
    >)
        ensures
            ran(*old(buffer), header_columns(*message), *final(buffer), r),
    {
        let ghost start = *buffer;
        proof {
            lemma_ran_nothing(start);
        }
        let headers = match &message.headers {
            Some(headers) => headers,
            None => {
                return Ok(());
            },
        };
        for i in 0..headers.len()
            invariant
                start == *old(buffer),
                ran(start, headers_plan(headers@.take(i as int)), *buffer, Ok(())),
                message.headers == Some(*headers),
        {
            let ghost mid = *buffer;
            let mut column: String = "header_".to_owned();
            column.append(headers[i].0.as_str());
            let r = write_text(buffer, column.as_str(), headers[i].1.as_str());
            proof {
                assert(headers@.take(i + 1).drop_last() =~= headers@.take(i as int));
                lemma_ran_next(
                    start,
                    headers_plan(headers@.take(i as int)),
                    mid,
                    one(Entry::Text(column@, headers@[i as int].1@)),
                    *buffer,
                    r,
                );
            }
            if r.is_err() {
                proof {
                    lemma_headers_stop(headers@, i + 1, start, *buffer, r);
                }
                return r;
            }
        }
        assert(headers@.take(headers@.len() as int) =~= headers@);
        Ok(())
    }

    /// Writes the fields that are no symbols.
    fn append_columns(&self, buffer: &mut Buffer, fields: &Vec<(String, Value)>) -> (r: Result<
        (),
        RowError,
    >)
        ensures
            ran(*old(buffer), self.columns_plan(fields@), *final(buffer), r),
    {
        let ghost start = *buffer;
        proof {
            lemma_ran_nothing(start);
        }
        for i in 0..fields.len()
            invariant
                start == *old(buffer),
                ran(start, self.columns_plan(fields@.take(i as int)), *buffer, Ok(())),
        {
            let ghost mid = *buffer;
            let name = fields[i].0.as_str();
            let ghost plan = self.field_plan(name@, fields@[i as int].1);
            let r = if self.is_timestamp_field(name) || (is_scalar(&fields[i].1)
                && self.symbol_columns.contains(name)) {
                proof {
                    lemma_ran_nothing(mid);
                }
                Ok(())
            } else {
                self.append_column(buffer, name, &fields[i].1)
            };
            proof {
                assert(fields@.take(i + 1).drop_last() =~= fields@.take(i as int));
                lemma_ran_next(
                    start,
                    self.columns_plan(fields@.take(i as int)),
                    mid,
                    plan,
                    *buffer,
                    r,
                );
            }
            if r.is_err() {
                proof {
                    self.lemma_columns_stop(fields@, i + 1, start, *buffer, r);
                }
                return r;
            }
        }
        assert(fields@.take(fields@.len() as int) =~= fields@);
        Ok(())
    }

    proof fn lemma_columns_stop(
        self,
        fields: Seq<(String, Value)>,
        n: int,
        before: Buffer,
        after: Buffer,
        r: Result<(), RowError>,
    )
        requires
            0 <= n <= fields.len(),
            ran(before, self.columns_plan(fields.take(n)), after, r),
            r is Err,
        ensures
            ran(before, self.columns_plan(fields), after, r),
        decreases fields.len() - n,
    {
        if n == fields.len() {
            assert(fields.take(n) =~= fields);
        } else {
            let more = fields.take(n + 1);
            assert(more.drop_last() =~= fields.take(n));
            lemma_ran_stops(
                before,
                self.columns_plan(fields.take(n)),
                after,
                r,
                self.field_plan(more.last().0@, more.last().1),
            );
            self.lemma_columns_stop(fields, n + 1, before, after, r);
        }
    }

    /// Writes the field `name` as a column of its own type.
    pub fn append_column(&self, buffer: &mut Buffer, name: &str, value: &Value) -> (r: Result<
        (),
        RowError,
    >)
        ensures
            ran(*old(buffer), self.column_plan(name@, *value), *final(buffer), r),
    {
        match value {
            Value::Static(node) => match node {
                // Omitting the column is how QWP encodes a null.
                StaticNode::Null => {
                    proof {
                        lemma_ran_nothing(*buffer);
                    }
                    Ok(())
                },
                StaticNode::Bool(flag) => write_bool(buffer, name, *flag),
                StaticNode::I64(number) => write_long(buffer, name, *number),
                // QuestDB has no unsigned 64-bit column; anything past i64::MAX
                // would wrap, so it degrades to DOUBLE rather than corrupting.
                StaticNode::U64(number) => if *number <= i64::MAX as u64 {
                    write_long(buffer, name, *number as i64)
                } else {
                    write_double(buffer, name, node)
                },
                StaticNode::F64(_) => write_double(buffer, name, node),
            },
            Value::String(text) => if self.uuid_columns.contains(name) {
                match parse_uuid(text.as_str()) {
                    Some((lo, hi)) => write_uuid(buffer, name, lo, hi),
                    None => Err(column_error(name, " is not a valid UUID")),
                }
            } else {
                write_text(buffer, name, text.as_str())
            },
            Value::Array(items) => append_array(buffer, name, items),
            // Nested objects have no QuestDB column type; store the JSON
            // text so the data is preserved rather than dropped.
            Value::Object(object) => match json::write_json(object) {
                Some(encoded) => write_text(buffer, name, encoded.as_str()),
                None => Err(column_error(name, " is not serializable")),
            },
        }
    }

    /// Ends the row with its designated timestamp.
    pub fn append_timestamp(
        &self,
        buffer: &mut Buffer,
        message: &ConsumedMessage,
        fields: Option<&Vec<(String, Value)>>,
    ) -> (r: Result<(), RowError>)
        requires
            fields_of(message.payload) == match fields {
                Some(fields) => Some(fields@),
                None => None,
            },
        ensures
            ran(*old(buffer), self.timestamp_plan(*message), *final(buffer), r),
    {
        match self.timestamp_source {
            TimestampSource::Server => end_row(buffer, None),
            TimestampSource::Message => end_row(buffer, micros_or_now(message.timestamp)),
            TimestampSource::Origin => end_row(buffer, micros_or_now(message.origin_timestamp)),
            TimestampSource::Payload => {
                let field = match &self.timestamp_field {
                    Some(field) => field,
                    None => {
                        return Err(RowError::Invalid("timestamp_field is not set".to_owned()));
                    },
                };
                let raw = match fields {
                    Some(fields) => json::get(fields, field),
                    None => None,
                };
                let value = match raw {
                    Some(value) => value,
                    None => {
                        return Err(timestamp_error(field.as_str(), " is missing"));
                    },
                };
                match timestamp_number(value) {
                    Some(number) => end_row(
                        buffer,
                        Some(Stamp::Nanos(self.timestamp_unit.to_nanos(number))),
                    ),
                    None => Err(timestamp_error(field.as_str(), " is not a number")),
                }
            },
        }
    }
}

proof fn lemma_headers_stop(
    headers: Seq<(String, String)>,
    n: int,
    before: Buffer,
    after: Buffer,
    r: Result<(), RowError>,
)
    requires
        0 <= n <= headers.len(),
        ran(before, headers_plan(headers.take(n)), after, r),
        r is Err,
    ensures
        ran(before, headers_plan(headers), after, r),
    decreases headers.len() - n,
{
    if n == headers.len() {
        assert(headers.take(n) =~= headers);
    } else {
        let more = headers.take(n + 1);
        assert(more.drop_last() =~= headers.take(n));
        lemma_ran_stops(
            before,
            headers_plan(headers.take(n)),
            after,
            r,
            one(Entry::Text("header_"@ + more.last().0@, more.last().1@)),
        );
        lemma_headers_stop(headers, n + 1, before, after, r);
    }
}

} // verus!
