//! What a row holds, from its table to its timestamp.

use crate::client::{
    column_key, has_cell, lowercase, marker, marker_refusal, origin, recorded, refusal,
    refusal_of, refused, taken, Entry, Origin, Stamp,
};
use crate::json::Value;
use crate::laws::law_structureless_payload;
use crate::mapping::{fields_of, stamp_number, Mapping, RowFate};
use crate::message::{ConsumedMessage, Payload, RowContext};
use crate::row::{ran, run, Plan, RowError};
use crate::text::lowered;
use crate::timestamp::TimestampSource;
use crate::value_laws::{
    law_lookup_finds_first, law_lookup_finds_nothing_else, law_message_stamp,
};
use questdb::ingress::Buffer;
use vstd::prelude::*;
use vstd::string::*;
use vstd::utf8::{decode_utf8_encode_utf8, encode_utf8, is_ascii_chars, valid_utf8};

verus! {

/// `entry` alone where it is wanted.
pub open spec fn cell_if(wanted: bool, entry: Entry) -> Seq<Entry> {
    if wanted {
        seq![entry]
    } else {
        seq![]
    }
}

/// The cells of a message's headers, where they are wanted.
pub open spec fn header_cells(wanted: bool, message: ConsumedMessage) -> Seq<Entry> {
    match message.headers {
        Some(headers) => if wanted {
            headers@.map_values(
                |header: (String, String)| Entry::Text("header_"@ + header.0@, header.1@),
            )
        } else {
            seq![]
        },
        None => seq![],
    }
}

/// What a plan asks for next comes after what it asked for before, unless the message proved
/// invalid by then.
pub proof fn law_plans_follow_in_order(first: Plan, second: Plan)
    ensures
        first.invalid is Some ==> first.followed_by(second) == first,
        first.invalid is None ==> first.followed_by(second).entries == first.entries
            + second.entries && first.followed_by(second).invalid == second.invalid,
{
}

/// The symbols of a payload are those of its fields, one after the other.
pub proof fn law_symbols_by_field(
    mapping: Mapping,
    fields: Seq<(String, Value)>,
    field: (String, Value),
)
    ensures
        mapping.symbols_plan(seq![]).entries.len() == 0,
        mapping.symbols_plan(seq![]).invalid is None,
        mapping.symbols_plan(fields).invalid is None ==> mapping.symbols_plan(
            fields.push(field),
        ).entries == mapping.symbols_plan(fields).entries + mapping.symbol_plan(
            field.0@,
            field.1,
        ).entries,
{
    assert(fields.push(field).drop_last() =~= fields);
}

/// The columns of a payload are those of its fields, one after the other, up to the first
/// one that is invalid.
pub proof fn law_columns_by_field(
    mapping: Mapping,
    fields: Seq<(String, Value)>,
    field: (String, Value),
)
    ensures
        mapping.columns_plan(seq![]).entries.len() == 0,
        mapping.columns_plan(seq![]).invalid is None,
        mapping.columns_plan(fields).invalid is Some ==> mapping.columns_plan(fields.push(field))
            == mapping.columns_plan(fields),
        mapping.columns_plan(fields).invalid is None ==> {
            &&& mapping.columns_plan(fields.push(field)).entries == mapping.columns_plan(
                fields,
            ).entries + mapping.field_plan(field.0@, field.1).entries
            &&& mapping.columns_plan(fields.push(field)).invalid == mapping.field_plan(
                field.0@,
                field.1,
            ).invalid
        },
{
    assert(fields.push(field).drop_last() =~= fields);
}

/// Each field of a payload that is no symbol and not the timestamp has its cell among the
/// columns, where all are valid.
pub proof fn law_no_field_is_lost(mapping: Mapping, fields: Seq<(String, Value)>, at: int, k: int)
    requires
        0 <= at < fields.len(),
        mapping.columns_plan(fields).invalid is None,
        0 <= k < mapping.field_plan(fields[at].0@, fields[at].1).entries.len(),
    ensures
        mapping.columns_plan(fields).entries.contains(
            mapping.field_plan(fields[at].0@, fields[at].1).entries[k],
        ),
    decreases fields.len(),
{
    let init = fields.drop_last();
    let last = mapping.field_plan(fields.last().0@, fields.last().1).entries;
    let before = mapping.columns_plan(init).entries;
    let cell = mapping.field_plan(fields[at].0@, fields[at].1).entries[k];
    law_columns_by_field(mapping, init, fields.last());
    assert(init.push(fields.last()) =~= fields);
    if at < init.len() {
        law_no_field_is_lost(mapping, init, at, k);
        let i = choose|i: int| 0 <= i < before.len() && before[i] == cell;
        assert((before + last)[i] == cell);
    } else {
        assert((before + last)[before.len() + k] == cell);
    }
}

/// Each listed scalar of a payload has its symbol.
pub proof fn law_no_symbol_is_lost(
    mapping: Mapping,
    fields: Seq<(String, Value)>,
    at: int,
    k: int,
)
    requires
        0 <= at < fields.len(),
        0 <= k < mapping.symbol_plan(fields[at].0@, fields[at].1).entries.len(),
    ensures
        mapping.symbols_plan(fields).invalid is None,
        mapping.symbols_plan(fields).entries.contains(
            mapping.symbol_plan(fields[at].0@, fields[at].1).entries[k],
        ),
    decreases fields.len(),
{
    let init = fields.drop_last();
    let last = mapping.symbol_plan(fields.last().0@, fields.last().1).entries;
    let before = mapping.symbols_plan(init).entries;
    let cell = mapping.symbol_plan(fields[at].0@, fields[at].1).entries[k];
    lemma_symbols_are_valid(mapping, init);
    law_symbols_by_field(mapping, init, fields.last());
    assert(init.push(fields.last()) =~= fields);
    if at < init.len() {
        law_no_symbol_is_lost(mapping, init, at, k);
        let i = choose|i: int| 0 <= i < before.len() && before[i] == cell;
        assert((before + last)[i] == cell);
    } else {
        assert((before + last)[before.len() + k] == cell);
    }
    lemma_symbols_are_valid(mapping, fields);
}

proof fn lemma_symbols_are_valid(mapping: Mapping, fields: Seq<(String, Value)>)
    ensures
        mapping.symbols_plan(fields).invalid is None,
    decreases fields.len(),
{
    if fields.len() > 0 {
        lemma_symbols_are_valid(mapping, fields.drop_last());
    }
}

/// A row starts with its table, then the stream and the topic where they are wanted, each
/// with its own name and value.
pub proof fn law_row_starts(mapping: Mapping, context: RowContext)
    ensures
        mapping.head_plan(context).invalid is None,
        mapping.head_plan(context).entries == seq![Entry::Table(mapping.table@)] + cell_if(
            mapping.include_stream_column,
            Entry::Symbol("stream"@, context.stream@),
        ) + cell_if(mapping.include_topic_column, Entry::Symbol("topic"@, context.topic@)),
{
}

/// The columns on where a message comes from are its partition, its offset and its headers,
/// each where it is wanted and with its own name and value.
pub proof fn law_row_metadata(mapping: Mapping, message: ConsumedMessage, context: RowContext)
    ensures
        mapping.metadata_plan(message, context).invalid is None,
        mapping.metadata_plan(message, context).entries == cell_if(
            mapping.include_partition_column,
            Entry::Long("partition_id"@, context.partition_id as i64),
        ) + cell_if(
            mapping.include_offset_column,
            Entry::Long(
                "offset"@,
                if message.offset <= i64::MAX {
                    message.offset as i64
                } else {
                    (message.offset - 0x1_0000_0000_0000_0000) as i64
                },
            ),
        ) + header_cells(mapping.include_headers, message),
{
    if let Some(headers) = message.headers {
        crate::laws::law_headers_become_columns(headers@);
    }
}

/// The fields of a JSON object are those that it has; no other payload has any.
pub proof fn law_payload_fields(payload: Payload)
    ensures
        payload matches Payload::Json(document) ==> (document.fields matches Some(fields)
            ==> fields_of(payload) == Some(fields@)),
        payload matches Payload::Json(document) ==> (document.fields is None ==> fields_of(
            payload,
        ) is None),
        !(payload is Json) ==> fields_of(payload) is None,
{
}

/// A JSON payload that is no object writes nothing and is named for it.
pub proof fn law_bare_json_is_invalid(
    mapping: Mapping,
    message: ConsumedMessage,
    context: RowContext,
)
    requires
        message.payload matches Payload::Json(document) && document.fields is None,
    ensures
        mapping.row_plan(message, context).entries.len() == 0,
        mapping.row_plan(message, context).invalid == Some("JSON payload is not an object"@),
{
}

/// The row of a JSON object: its start, the symbols of the fields, where it comes from, the
/// columns of the fields, and its timestamp; it ends early at the first of these that proves
/// the message invalid.
pub proof fn law_json_row(
    mapping: Mapping,
    message: ConsumedMessage,
    context: RowContext,
    fields: Vec<(String, Value)>,
)
    requires
        message.payload matches Payload::Json(document) && document.fields == Some(fields),
    ensures
        ({
            let plan = mapping.row_plan(message, context);
            let columns = mapping.columns_plan(fields@);
            let last = mapping.timestamp_plan(message);
            let cells = mapping.head_plan(context).entries + mapping.symbols_plan(fields@).entries
                + mapping.metadata_plan(message, context).entries + columns.entries;
            &&& columns.invalid is Some ==> plan.entries == cells && plan.invalid
                == columns.invalid
            &&& columns.invalid is None ==> plan.entries == cells + last.entries && plan.invalid
                == last.invalid
        }),
{
    lemma_symbols_are_valid(mapping, fields@);
    law_row_starts(mapping, context);
    law_row_metadata(mapping, message, context);
    lemma_five(
        mapping.head_plan(context),
        mapping.symbols_plan(fields@),
        mapping.metadata_plan(message, context),
        mapping.columns_plan(fields@),
        mapping.timestamp_plan(message),
    );
}

proof fn lemma_five(head: Plan, symbols: Plan, metadata: Plan, body: Plan, last: Plan)
    requires
        head.invalid is None,
        symbols.invalid is None,
        metadata.invalid is None,
    ensures
        ({
            let plan = head.followed_by(symbols).followed_by(metadata).followed_by(
                body,
            ).followed_by(last);
            let cells = head.entries + symbols.entries + metadata.entries + body.entries;
            &&& body.invalid is Some ==> plan.entries == cells && plan.invalid == body.invalid
            &&& body.invalid is None ==> plan.entries == cells + last.entries && plan.invalid
                == last.invalid
        }),
{
}

/// A text payload, of whatever length, is stored in the column `payload` with exactly its
/// characters.
pub proof fn law_text_payload_is_verbatim(
    mapping: Mapping,
    message: ConsumedMessage,
    context: RowContext,
    text: String,
)
    requires
        message.payload == Payload::Text(text) || message.payload == Payload::Proto(text),
    ensures
        mapping.body_plan(message.payload).invalid is None,
        mapping.body_plan(message.payload).entries == seq![Entry::Text("payload"@, text@)],
        mapping.row_plan(message, context).entries == mapping.head_plan(context).entries
            + mapping.metadata_plan(message, context).entries + seq![
            Entry::Text("payload"@, text@),
        ] + mapping.timestamp_plan(message).entries,
        mapping.row_plan(message, context).invalid == mapping.timestamp_plan(message).invalid,
{
    law_structureless_payload(mapping, message, context, text@);
}

/// A payload of bytes that are UTF-8 is stored in the column `payload` as the text that these
/// very bytes encode; bytes that are not are invalid, and the row stops at them.
pub proof fn law_byte_payload_is_verbatim(
    mapping: Mapping,
    message: ConsumedMessage,
    context: RowContext,
    bytes: Vec<u8>,
)
    requires
        message.payload == Payload::Raw(bytes) || message.payload == Payload::FlatBuffer(bytes)
            || message.payload == Payload::Avro(bytes),
    ensures
        valid_utf8(bytes@) ==> {
            &&& mapping.body_plan(message.payload).invalid is None
            &&& mapping.body_plan(message.payload).entries.len() == 1
            &&& mapping.body_plan(message.payload).entries[0] matches Entry::Text(column, text)
            &&& column == "payload"@
            &&& encode_utf8(text) == bytes@
            &&& mapping.row_plan(message, context).entries == mapping.head_plan(context).entries
                + mapping.metadata_plan(message, context).entries + seq![
                Entry::Text("payload"@, text),
            ] + mapping.timestamp_plan(message).entries
            &&& mapping.row_plan(message, context).invalid == mapping.timestamp_plan(
                message,
            ).invalid
        },
        !valid_utf8(bytes@) ==> {
            &&& mapping.body_plan(message.payload).entries.len() == 0
            &&& mapping.row_plan(message, context).invalid == Some("payload is not valid UTF-8"@)
        },
{
    if valid_utf8(bytes@) {
        decode_utf8_encode_utf8(bytes@);
        law_structureless_payload(
            mapping,
            message,
            context,
            vstd::utf8::decode_utf8(bytes@),
        );
    } else {
        law_row_starts(mapping, context);
        law_row_metadata(mapping, message, context);
    }
}

/// A row stamped by the server ends so; one stamped by the message ends with the message's
/// own timestamp or that of its origin, whichever is asked for, and with the server's where
/// that is not set.
pub proof fn law_row_ends(mapping: Mapping, message: ConsumedMessage)
    ensures
        mapping.timestamp_source != TimestampSource::Payload ==> mapping.timestamp_plan(
            message,
        ).invalid is None && mapping.timestamp_plan(message).entries.len() == 1,
        mapping.timestamp_source == TimestampSource::Server ==> mapping.timestamp_plan(
            message,
        ).entries[0] == Entry::AtNow,
        mapping.timestamp_source == TimestampSource::Message ==> {
            &&& message.timestamp == 0 ==> mapping.timestamp_plan(message).entries[0]
                == Entry::AtNow
            &&& 0 < message.timestamp <= i64::MAX ==> mapping.timestamp_plan(message).entries[0]
                == Entry::At(Stamp::Micros(message.timestamp as i64))
            &&& message.timestamp > i64::MAX ==> mapping.timestamp_plan(message).entries[0]
                == Entry::At(Stamp::Micros((message.timestamp - 0x1_0000_0000_0000_0000) as i64))
        },
        mapping.timestamp_source == TimestampSource::Origin ==> {
            &&& message.origin_timestamp == 0 ==> mapping.timestamp_plan(message).entries[0]
                == Entry::AtNow
            &&& 0 < message.origin_timestamp <= i64::MAX ==> mapping.timestamp_plan(
                message,
            ).entries[0] == Entry::At(Stamp::Micros(message.origin_timestamp as i64))
            &&& message.origin_timestamp > i64::MAX ==> mapping.timestamp_plan(message).entries[0]
                == Entry::At(
                Stamp::Micros((message.origin_timestamp - 0x1_0000_0000_0000_0000) as i64),
            )
        },
{
    law_message_stamp(message.timestamp);
    law_message_stamp(message.origin_timestamp);
}

/// A row stamped by a field of its payload ends with the number of the first field of that
/// name, in nanoseconds by the configured unit; what is no number is invalid and named.
pub proof fn law_payload_timestamp(
    mapping: Mapping,
    message: ConsumedMessage,
    fields: Vec<(String, Value)>,
    field: String,
    at: int,
)
    requires
        mapping.timestamp_source == TimestampSource::Payload,
        mapping.timestamp_field == Some(field),
        message.payload matches Payload::Json(document) && document.fields == Some(fields),
        0 <= at < fields@.len(),
        fields@[at].0@ == field@,
        forall|i: int| 0 <= i < at ==> (#[trigger] fields@[i]).0@ != field@,
    ensures
        match stamp_number(fields@[at].1) {
            Some(number) => {
                &&& mapping.timestamp_plan(message).invalid is None
                &&& mapping.timestamp_plan(message).entries == seq![
                    Entry::At(Stamp::Nanos(mapping.timestamp_unit.nanos(number as int))),
                ]
            },
            None => {
                &&& mapping.timestamp_plan(message).entries.len() == 0
                &&& mapping.timestamp_plan(message).invalid == Some(
                    "timestamp field "@ + field@ + " is not a number"@,
                )
            },
        },
{
    law_lookup_finds_first(fields@, field@, at);
}

/// A row that is to be stamped by a field which its payload lacks is invalid and names it;
/// without a configured field, that is what is named.
pub proof fn law_missing_timestamp(mapping: Mapping, message: ConsumedMessage)
    requires
        mapping.timestamp_source == TimestampSource::Payload,
    ensures
        mapping.timestamp_field is None ==> mapping.timestamp_plan(message).entries.len() == 0
            && mapping.timestamp_plan(message).invalid == Some("timestamp_field is not set"@),
        mapping.timestamp_field matches Some(field) ==> ((fields_of(message.payload) matches Some(
            fields,
        ) ==> forall|i: int| 0 <= i < fields.len() ==> (#[trigger] fields[i]).0@ != field@)
            ==> mapping.timestamp_plan(message).entries.len() == 0 && mapping.timestamp_plan(
            message,
        ).invalid == Some("timestamp field "@ + field@ + " is missing"@)),
{
    if let Some(field) = mapping.timestamp_field {
        if let Some(fields) = fields_of(message.payload) {
            if forall|i: int| 0 <= i < fields.len() ==> (#[trigger] fields[i]).0@ != field@ {
                law_lookup_finds_nothing_else(fields, field@);
            }
        }
    }
}

/// ASCII names are the same column but for the case of their letters; of others the small
/// letters decide.
pub proof fn law_column_keys(name: Seq<char>)
    ensures
        is_ascii_chars(name) ==> column_key(name) == lowered(name),
        !is_ascii_chars(name) ==> column_key(name) == lowercase(name),
{
}

/// The columns of the row under way are those of the cells since its table.
pub proof fn law_cells_of_row(held: Seq<Entry>, entry: Entry, name: Seq<char>)
    ensures
        !has_cell(seq![], name),
        entry is Table ==> !has_cell(held.push(entry), name),
        entry.column() matches Some(other) ==> (has_cell(held.push(entry), name) <==> has_cell(
            held,
            name,
        ) || column_key(other) == column_key(name)),
{
    assert(held.push(entry).drop_last() =~= held);
}

/// The column of a cell is the name that it was given; starts and ends of rows have none.
pub proof fn law_cell_columns(entry: Entry)
    ensures
        entry matches Entry::Symbol(name, _) ==> entry.column() == Some(name),
        entry matches Entry::Bool(name, _) ==> entry.column() == Some(name),
        entry matches Entry::Long(name, _) ==> entry.column() == Some(name),
        entry matches Entry::Double(name, _) ==> entry.column() == Some(name),
        entry matches Entry::Text(name, _) ==> entry.column() == Some(name),
        entry matches Entry::Uuid(name, _, _) ==> entry.column() == Some(name),
        entry matches Entry::Array(name, _) ==> entry.column() == Some(name),
        entry is Table || entry is At || entry is AtNow ==> entry.column() is None,
{
}

/// A buffer that takes an entry holds it last. Only a columnar one holds less: it passes over
/// a second cell of one column in a row, and keeps the first.
pub proof fn law_entries_are_taken(origin: Origin, held: Seq<Entry>, entry: Entry)
    ensures
        entry.column() is None ==> taken(origin, held, entry) == held.push(entry),
        !origin.columnar ==> taken(origin, held, entry) == held.push(entry),
        entry.column() matches Some(name) ==> (!has_cell(held, name) ==> taken(
            origin,
            held,
            entry,
        ) == held.push(entry)),
        entry.column() matches Some(name) ==> (origin.columnar && has_cell(held, name) ==> taken(
            origin,
            held,
            entry,
        ) == held),
{
}

/// Entries are written one after the other, up to the first refusal.
pub proof fn law_run_goes_entry_by_entry(
    origin: Origin,
    held: Seq<Entry>,
    entries: Seq<Entry>,
    entry: Entry,
)
    ensures
        run(origin, held, seq![]).held == held,
        run(origin, held, seq![]).refusal is None,
        run(origin, held, entries).refusal is Some ==> run(origin, held, entries.push(entry))
            == run(origin, held, entries),
        run(origin, held, entries).refusal is None ==> ({
            let before = run(origin, held, entries).held;
            let after = run(origin, held, entries.push(entry));
            &&& after.refusal == refusal(origin, before, entry)
            &&& after.refusal is None ==> after.held == taken(origin, before, entry)
            &&& after.refusal is Some ==> after.held == before
        }),
{
    assert(entries.push(entry).drop_last() =~= entries);
}

/// A message is written just where the client takes all that its row asks for and the message
/// is valid; a refusal, which comes first, is what it is rejected for, and else its fault.
pub proof fn law_row_fate(
    mapping: Mapping,
    message: ConsumedMessage,
    context: RowContext,
    origin: Origin,
    held: Seq<Entry>,
)
    ensures
        ({
            let plan = mapping.row_plan(message, context);
            let end = run(origin, held, plan.entries);
            let fate = mapping.row_fate(message, context, origin, held);
            let early = marker_refusal(origin, held);
            &&& early is Some ==> fate == RowFate::Refused(early->0)
            &&& early is None && end.refusal is Some ==> fate == RowFate::Refused(end.refusal->0)
            &&& early is None && end.refusal is None && plan.invalid is Some ==> fate
                == RowFate::Invalid(plan.invalid->0)
            &&& early is None && end.refusal is None && plan.invalid is None ==> fate
                == RowFate::Written(end.held)
        }),
{
}

/// What is read of a client error is its code, its message and its doubt.
pub proof fn law_refusals(error: questdb::Error)
    ensures
        refused(Ok(())) is None,
        refused(Err(error)) == Some(refusal_of(error)),
        refusal_of(error).code == crate::client::error_code(error),
        refusal_of(error).message == crate::client::error_message(error),
        refusal_of(error).in_doubt == crate::client::error_in_doubt(error),
{
}

/// Carrying out a plan ends well just where it is valid and nothing is refused; then the buffer
/// holds what was written. An invalid message fails after what comes before its fault, and a
/// refusal is handed on as it is.
pub proof fn law_plans_are_carried_out(
    before: Buffer,
    plan: Plan,
    after: Buffer,
    r: Result<(), RowError>,
)
    requires
        ran(before, plan, after, r),
    ensures
        ({
            let end = run(origin(before), recorded(before), plan.entries);
            &&& origin(after) == origin(before)
            &&& marker(after) == marker(before)
            &&& r is Ok <==> end.refusal is None && plan.invalid is None
            &&& end.refusal is None ==> recorded(after) == end.held
            &&& end.refusal is None ==> (plan.invalid matches Some(reason) ==> (r matches Err(
                RowError::Invalid(text),
            ) && text@ == reason))
            &&& end.refusal matches Some(refusal) ==> (r matches Err(RowError::Client(error))
                && refusal_of(error) == refusal)
        }),
{
}

/// Appending a row ends well just where the message is valid and nothing is refused; then the
/// buffer holds the row behind what it held. Else it holds just what it held.
pub proof fn law_rows_are_appended_whole_or_not_at_all(
    mapping: Mapping,
    message: ConsumedMessage,
    context: RowContext,
    before: Buffer,
    after: Buffer,
    r: Result<(), RowError>,
)
    requires
        mapping.appended(message, context, before, after, r),
    ensures
        ({
            let plan = mapping.row_plan(message, context);
            let end = run(origin(before), recorded(before), plan.entries);
            let early = marker_refusal(origin(before), recorded(before));
            &&& origin(after) == origin(before)
            &&& r is Ok <==> early is None && end.refusal is None && plan.invalid is None
            &&& r is Ok ==> recorded(after) == end.held
            &&& r is Err ==> recorded(after) == recorded(before)
            &&& early is None ==> marker(after) is None
            &&& early is None && end.refusal is None ==> (plan.invalid matches Some(reason) ==> (
            r matches Err(RowError::Invalid(text)) && text@ == reason))
            &&& early is None ==> (end.refusal matches Some(refusal) ==> (r matches Err(
                RowError::Client(error),
            ) && refusal_of(error) == refusal))
            &&& early matches Some(refusal) ==> (r matches Err(RowError::Client(error))
                && refusal_of(error) == refusal)
        }),
{
}

} // verus!
