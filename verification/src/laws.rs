//! What holds of the library as a whole.

use crate::batch::{
    appends, batch_ends, buffer_after, reason_of, report_of, AbortedBatch, BatchReport, LogScope,
    Step, Tally, MAX_LOGGED_REJECTIONS_PER_BATCH,
};
use crate::client::{
    column_key, error_code, error_in_doubt, has_cell, marker_refusal, origin, recorded, Entry,
    Origin,
};
use crate::consume::{batch_len, batches, Consumption};
use crate::flush::{reports, retryable_code, FlushCall, FlushError, SinkError};
use crate::json::Value;
use crate::mapping::{
    fields_of, headers_plan, is_bare_json, symbol_text, text_of, Mapping, RowFate,
};
use crate::message::{ConsumedMessage, Payload, RowContext};
use crate::preview::{cut, kept, REJECTED_PAYLOAD_PREVIEW_BYTES};
use crate::row::{lemma_run_concat, nothing, one, run, Plan, RowError, Run};
use crate::sink::{
    ack_level_named, QuestDbSink, QuestDbSinkConfig, DEFAULT_BATCH_SIZE,
    DEFAULT_FLUSH_TIMEOUT_SECS,
};
use crate::span::Timeout;
use crate::text::lowered;
use crate::timestamp::{TimestampSource, TimestampUnit};
use crate::uuid::{hex_number, is_hex, is_uuid, lemma_hex_number_fits, lemma_pow_16_16, undashed, uuid_halves};
use questdb::ingress::{AckLevel, Buffer};
use simd_json::StaticNode;
use vstd::prelude::*;
use vstd::utf8::{
    decode_utf8, decode_utf8_encode_utf8, decode_utf8_split, encode_utf8,
    encode_utf8_decode_utf8, encode_utf8_valid_utf8, is_char_boundary, valid_utf8,
    valid_utf8_split,
};

verus! {

/// Whether all entries are symbol cells.
pub open spec fn all_symbols(entries: Seq<Entry>) -> bool {
    forall|i: int| 0 <= i < entries.len() ==> (#[trigger] entries[i]) is Symbol
}

/// Whether all entries are cells, and none of them a symbol.
pub open spec fn no_symbols(entries: Seq<Entry>) -> bool {
    forall|i: int|
        0 <= i < entries.len() ==> (#[trigger] entries[i]).column() is Some
            && !(entries[i] is Symbol)
}

proof fn lemma_payload_symbols(mapping: Mapping, fields: Seq<(String, Value)>)
    ensures
        all_symbols(mapping.symbols_plan(fields).entries),
        mapping.symbols_plan(fields).invalid is None,
    decreases fields.len(),
{
    if fields.len() > 0 {
        lemma_payload_symbols(mapping, fields.drop_last());
    }
}

proof fn lemma_payload_columns(mapping: Mapping, fields: Seq<(String, Value)>)
    ensures
        no_symbols(mapping.columns_plan(fields).entries),
    decreases fields.len(),
{
    if fields.len() > 0 {
        lemma_payload_columns(mapping, fields.drop_last());
    }
}

proof fn lemma_header_columns(headers: Seq<(String, String)>)
    ensures
        no_symbols(headers_plan(headers).entries),
        headers_plan(headers).invalid is None,
    decreases headers.len(),
{
    if headers.len() > 0 {
        lemma_header_columns(headers.drop_last());
    }
}

/// The symbols and the other cells of the row of `message`, in that order, up to its
/// timestamp.
pub open spec fn row_symbols(
    mapping: Mapping,
    message: ConsumedMessage,
    context: RowContext,
) -> Seq<Entry> {
    mapping.head_plan(context).entries.skip(1) + mapping.payload_symbols(message.payload).entries
}

/// The cells of the row of `message` that are no symbols.
pub open spec fn row_columns(
    mapping: Mapping,
    message: ConsumedMessage,
    context: RowContext,
) -> Seq<Entry> {
    mapping.metadata_plan(message, context).entries + mapping.body_plan(message.payload).entries
}

proof fn lemma_head(mapping: Mapping, context: RowContext)
    ensures
        mapping.head_plan(context).invalid is None,
        mapping.head_plan(context).entries == seq![Entry::Table(mapping.table@)]
            + mapping.head_plan(context).entries.skip(1),
        all_symbols(mapping.head_plan(context).entries.skip(1)),
{
    let head = mapping.head_plan(context).entries;
    assert(head[0] == Entry::Table(mapping.table@));
    assert(head =~= seq![Entry::Table(mapping.table@)] + head.skip(1));
}

proof fn lemma_metadata(mapping: Mapping, message: ConsumedMessage, context: RowContext)
    ensures
        mapping.metadata_plan(message, context).invalid is None,
        no_symbols(mapping.metadata_plan(message, context).entries),
{
    if let Some(headers) = message.headers {
        lemma_header_columns(headers@);
    }
}

proof fn lemma_body(mapping: Mapping, payload: Payload)
    ensures
        mapping.payload_symbols(payload).invalid is None,
        all_symbols(mapping.payload_symbols(payload).entries),
        no_symbols(mapping.body_plan(payload).entries),
{
    if let Some(fields) = fields_of(payload) {
        lemma_payload_symbols(mapping, fields);
        lemma_payload_columns(mapping, fields);
    }
}

/// How a row ends: with one entry, unless its timestamp proves invalid.
proof fn lemma_end(mapping: Mapping, message: ConsumedMessage)
    ensures
        ({
            let last = mapping.timestamp_plan(message);
            &&& last.invalid is Some ==> last.entries.len() == 0
            &&& last.invalid is None ==> last.entries.len() == 1 && (last.entries[0] is At
                || last.entries[0] is AtNow)
        }),
{
}

/// The parts of a row: its table, its symbols, its other cells and, unless the message
/// proved invalid, its end.
proof fn lemma_row_parts(mapping: Mapping, message: ConsumedMessage, context: RowContext)
    requires
        !is_bare_json(message.payload),
    ensures
        all_symbols(row_symbols(mapping, message, context)),
        no_symbols(row_columns(mapping, message, context)),
        ({
            let plan = mapping.row_plan(message, context);
            let body = mapping.body_plan(message.payload);
            let last = mapping.timestamp_plan(message);
            let cells = seq![Entry::Table(mapping.table@)] + row_symbols(
                mapping,
                message,
                context,
            ) + row_columns(mapping, message, context);
            &&& body.invalid is Some ==> plan.entries == cells && plan.invalid == body.invalid
            &&& body.invalid is None ==> plan.entries == cells + last.entries && plan.invalid
                == last.invalid
        }),
{
    lemma_head(mapping, context);
    lemma_metadata(mapping, message, context);
    lemma_body(mapping, message.payload);
    lemma_join(
        mapping.head_plan(context),
        mapping.payload_symbols(message.payload),
        mapping.metadata_plan(message, context),
        mapping.body_plan(message.payload),
        mapping.timestamp_plan(message),
    );
    let head = mapping.head_plan(context).entries;
    let symbols = mapping.payload_symbols(message.payload).entries;
    let metadata = mapping.metadata_plan(message, context).entries;
    let body = mapping.body_plan(message.payload).entries;
    lemma_regroup(Entry::Table(mapping.table@), head.skip(1), symbols, metadata, body);
}

proof fn lemma_join(head: Plan, symbols: Plan, metadata: Plan, body: Plan, last: Plan)
    requires
        head.invalid is None,
        symbols.invalid is None,
        metadata.invalid is None,
    ensures
        ({
            let plan = head.followed_by(symbols).followed_by(metadata).followed_by(
                body,
            ).followed_by(last);
            let cells = head.entries + symbols.entries + metadata.entries + body.entries;
            &&& body.invalid is Some ==> plan.entries == cells && plan.invalid == body.invalid
            &&& body.invalid is None ==> plan.entries == cells + last.entries && plan.invalid
                == last.invalid
        }),
{
}

proof fn lemma_regroup(
    table: Entry,
    shared: Seq<Entry>,
    symbols: Seq<Entry>,
    metadata: Seq<Entry>,
    body: Seq<Entry>,
)
    ensures
        seq![table] + shared + symbols + metadata + body == seq![table] + (shared + symbols) + (
        metadata + body),
{
    assert(seq![table] + shared + symbols + metadata + body =~= seq![table] + (shared + symbols) + (
    metadata + body));
}

/// A row starts with its table, ends with its timestamp, and has nothing but cells
/// in between.
pub proof fn law_row_shape(mapping: Mapping, message: ConsumedMessage, context: RowContext)
    requires
        mapping.row_plan(message, context).invalid is None,
    ensures
        ({
            let entries = mapping.row_plan(message, context).entries;
            &&& entries.len() >= 2
            &&& entries[0] == Entry::Table(mapping.table@)
            &&& entries.last() is At || entries.last() is AtNow
            &&& forall|i: int|
                0 < i < entries.len() - 1 ==> (#[trigger] entries[i]).column() is Some
        }),
{
    lemma_row_parts(mapping, message, context);
    lemma_end(mapping, message);
}

proof fn lemma_symbols_lead(
    table: Entry,
    symbols: Seq<Entry>,
    columns: Seq<Entry>,
    last: Seq<Entry>,
    i: int,
    j: int,
)
    requires
        all_symbols(symbols),
        no_symbols(columns),
        last.len() <= 1,
        last.len() == 1 ==> !(last[0] is Symbol),
        0 < i < j < (seq![table] + symbols + columns + last).len(),
        (seq![table] + symbols + columns + last)[j] is Symbol,
    ensures
        (seq![table] + symbols + columns + last)[i] is Symbol,
{
    let entries = seq![table] + symbols + columns + last;
    let n = symbols.len() as int;
    if j > n + columns.len() {
        assert(entries[j] == last[0]);
    } else if j > n {
        assert(entries[j] == columns[j - 1 - n]);
    }
    assert(entries[i] == symbols[i - 1]);
}

/// In every row, and in what is written of a row that proves invalid, no symbol comes
/// after a cell that is none.
pub proof fn law_symbols_come_first(
    mapping: Mapping,
    message: ConsumedMessage,
    context: RowContext,
    i: int,
    j: int,
)
    requires
        0 < i < j < mapping.row_plan(message, context).entries.len(),
        mapping.row_plan(message, context).entries[j] is Symbol,
    ensures
        mapping.row_plan(message, context).entries[i] is Symbol,
{
    if !is_bare_json(message.payload) {
        lemma_row_parts(mapping, message, context);
        lemma_end(mapping, message);
        let last = if mapping.body_plan(message.payload).invalid is Some {
            seq![]
        } else {
            mapping.timestamp_plan(message).entries
        };
        let cells = seq![Entry::Table(mapping.table@)] + row_symbols(mapping, message, context)
            + row_columns(mapping, message, context);
        assert(cells + seq![] =~= cells);
        lemma_symbols_lead(
            Entry::Table(mapping.table@),
            row_symbols(mapping, message, context),
            row_columns(mapping, message, context),
            last,
            i,
            j,
        );
    }
}

/// Whether none of `entries` is a cell of the column `name`.
pub open spec fn lacks_column(entries: Seq<Entry>, name: Seq<char>) -> bool {
    forall|i: int| 0 <= i < entries.len() ==> (#[trigger] entries[i]).column() != Some(name)
}

/// The field that the designated timestamp is read from gives no cell.
pub proof fn law_timestamp_field_is_no_column(
    mapping: Mapping,
    fields: Seq<(String, Value)>,
    name: Seq<char>,
)
    requires
        mapping.names_timestamp(name),
    ensures
        lacks_column(mapping.symbols_plan(fields).entries, name),
        lacks_column(mapping.columns_plan(fields).entries, name),
    decreases fields.len(),
{
    if fields.len() > 0 {
        law_timestamp_field_is_no_column(mapping, fields.drop_last(), name);
    }
}

/// A field that is neither null nor the timestamp is stored once, under its own name: as a
/// symbol where it is listed as one and its value is a scalar, else as a column of its own
/// type, arrays and objects among them, unless that proves invalid.
pub proof fn law_field_is_stored_once(mapping: Mapping, name: Seq<char>, value: Value)
    requires
        !mapping.names_timestamp(name),
        value != Value::Static(StaticNode::Null),
    ensures
        mapping.is_symbol(name, value) ==> {
            &&& mapping.symbol_plan(name, value) == one(
                Entry::Symbol(name, symbol_text(value)->0),
            )
            &&& mapping.field_plan(name, value) == nothing()
        },
        !mapping.is_symbol(name, value) ==> {
            &&& mapping.symbol_plan(name, value) == nothing()
            &&& mapping.field_plan(name, value) == mapping.column_plan(name, value)
            &&& mapping.column_plan(name, value).invalid is None ==> {
                &&& mapping.column_plan(name, value).entries.len() == 1
                &&& mapping.column_plan(name, value).entries[0].column() == Some(name)
                &&& !(mapping.column_plan(name, value).entries[0] is Symbol)
            }
        },
{
}

/// An array or an object is stored alike whether or not it is listed as a symbol.
pub proof fn law_nested_values_are_no_symbols(mapping: Mapping, name: Seq<char>, value: Value)
    requires
        value is Array || value is Object,
        !mapping.names_timestamp(name),
    ensures
        mapping.symbol_plan(name, value) == nothing(),
        mapping.field_plan(name, value) == mapping.column_plan(name, value),
{
}

/// A null field gives no cell: the cells are those of the payload without it.
pub proof fn law_null_is_omitted(mapping: Mapping, fields: Seq<(String, Value)>, at: int)
    requires
        0 <= at < fields.len(),
        fields[at].1 == Value::Static(StaticNode::Null),
    ensures
        mapping.symbols_plan(fields.remove(at)) == mapping.symbols_plan(fields),
        mapping.columns_plan(fields.remove(at)) == mapping.columns_plan(fields),
    decreases fields.len(),
{
    let fewer = fields.remove(at);
    let init = fields.drop_last();
    if at == fields.len() - 1 {
        assert(fewer =~= init);
        lemma_followed_by_nothing(mapping.symbols_plan(init));
        lemma_followed_by_nothing(mapping.columns_plan(init));
    } else {
        law_null_is_omitted(mapping, init, at);
        assert(fewer.drop_last() =~= init.remove(at));
        assert(fewer.last() == fields.last());
    }
}

proof fn lemma_followed_by_nothing(plan: Plan)
    ensures
        plan.followed_by(nothing()) == plan,
{
    assert(plan.entries + nothing().entries =~= plan.entries);
}

/// Each header gives one `VARCHAR` cell, in a column called after its key.
pub proof fn law_headers_become_columns(headers: Seq<(String, String)>)
    ensures
        headers_plan(headers).invalid is None,
        headers_plan(headers).entries == headers.map_values(
            |header: (String, String)| Entry::Text("header_"@ + header.0@, header.1@),
        ),
    decreases headers.len(),
{
    let cell = |header: (String, String)| Entry::Text("header_"@ + header.0@, header.1@);
    if headers.len() == 0 {
        assert(headers.map_values(cell) =~= seq![]);
    } else {
        law_headers_become_columns(headers.drop_last());
        assert(headers.map_values(cell) =~= headers.drop_last().map_values(cell).push(
            cell(headers.last()),
        ));
    }
}

/// A payload without fields lands as it is in the one column `payload`, and its row has
/// the same columns on where it comes from as any other.
pub proof fn law_structureless_payload(
    mapping: Mapping,
    message: ConsumedMessage,
    context: RowContext,
    text: Seq<char>,
)
    requires
        !(message.payload is Json),
        text_of(message.payload) == Some(text),
    ensures
        mapping.row_plan(message, context).invalid == mapping.timestamp_plan(message).invalid,
        mapping.row_plan(message, context).entries == mapping.head_plan(context).entries
            + mapping.metadata_plan(message, context).entries + seq![
            Entry::Text("payload"@, text),
        ] + mapping.timestamp_plan(message).entries,
{
    lemma_row_parts(mapping, message, context);
    let head = mapping.head_plan(context).entries;
    let metadata = mapping.metadata_plan(message, context).entries;
    let last = mapping.timestamp_plan(message).entries;
    assert(mapping.row_plan(message, context).entries =~= head + metadata + seq![
        Entry::Text("payload"@, text),
    ] + last);
}

/// Whether no two cells of `entries` are of the same column.
pub open spec fn columns_distinct(entries: Seq<Entry>) -> bool {
    forall|i: int, j: int|
        0 <= i < j < entries.len() && (#[trigger] entries[i]).column() is Some && (
        #[trigger] entries[j]).column() is Some ==> column_key(entries[i].column()->0)
            != column_key(entries[j].column()->0)
}

proof fn lemma_has_no_cell(before: Seq<Entry>, row: Seq<Entry>, name: Seq<char>)
    requires
        row.len() > 0,
        row[0] is Table,
        forall|i: int|
            0 <= i < row.len() && (#[trigger] row[i]).column() is Some ==> column_key(
                row[i].column()->0,
            ) != column_key(name),
    ensures
        !has_cell(before + row, name),
    decreases row.len(),
{
    assert((before + row).last() == row.last());
    if row.len() > 1 {
        assert((before + row).drop_last() =~= before + row.drop_last());
        lemma_has_no_cell(before, row.drop_last(), name);
    }
}

/// A row whose columns differ is held in full, whatever the buffer: no cell is passed over.
pub proof fn law_distinct_cells_are_kept(origin: Origin, held: Seq<Entry>, entries: Seq<Entry>)
    requires
        run(origin, held, entries).refusal is None,
        entries.len() > 0 ==> entries[0] is Table,
        columns_distinct(entries),
    ensures
        run(origin, held, entries).held == held + entries,
    decreases entries.len(),
{
    if entries.len() == 0 {
        assert(held + entries =~= held);
    } else {
        let init = entries.drop_last();
        let last = entries.last();
        law_distinct_cells_are_kept(origin, held, init);
        if init.len() > 0 {
            if let Some(name) = last.column() {
                lemma_has_no_cell(held, init, name);
            }
        }
        assert((held + init).push(last) =~= held + entries);
    }
}

/// A buffer that is not columnar holds every entry that it took.
pub proof fn law_all_cells_are_kept(origin: Origin, held: Seq<Entry>, entries: Seq<Entry>)
    requires
        run(origin, held, entries).refusal is None,
        !origin.columnar,
    ensures
        run(origin, held, entries).held == held + entries,
    decreases entries.len(),
{
    if entries.len() == 0 {
        assert(held + entries =~= held);
    } else {
        law_all_cells_are_kept(origin, held, entries.drop_last());
        assert((held + entries.drop_last()).push(entries.last()) =~= held + entries);
    }
}

/// Where the client refuses nothing that it asks for, a valid message gets its row and an
/// invalid one is rejected for what is wrong with it.
pub proof fn law_row_is_owed(
    mapping: Mapping,
    message: ConsumedMessage,
    context: RowContext,
    before: Buffer,
    after: Buffer,
    r: Result<(), RowError>,
)
    requires
        mapping.appended(message, context, before, after, r),
        marker_refusal(origin(before), recorded(before)) is None,
        run(
            origin(before),
            recorded(before),
            mapping.row_plan(message, context).entries,
        ).refusal is None,
    ensures
        r is Ok <==> mapping.row_plan(message, context).invalid is None,
        reason_of(r) == mapping.row_plan(message, context).invalid,
{
}

/// What a buffer holds after `messages` were appended, one after the other.
pub open spec fn held_after(
    mapping: Mapping,
    context: RowContext,
    origin: Origin,
    held: Seq<Entry>,
    messages: Seq<ConsumedMessage>,
) -> Seq<Entry>
    decreases messages.len(),
{
    if messages.len() == 0 {
        held
    } else {
        let before = held_after(mapping, context, origin, held, messages.drop_last());
        match mapping.row_fate(messages.last(), context, origin, before) {
            RowFate::Written(after) => after,
            _ => before,
        }
    }
}

/// What becomes of each of `messages` where they are appended one after the other.
pub open spec fn fates(
    mapping: Mapping,
    context: RowContext,
    origin: Origin,
    held: Seq<Entry>,
    messages: Seq<ConsumedMessage>,
) -> Seq<RowFate>
    decreases messages.len(),
{
    if messages.len() == 0 {
        seq![]
    } else {
        fates(mapping, context, origin, held, messages.drop_last()).push(
            mapping.row_fate(
                messages.last(),
                context,
                origin,
                held_after(mapping, context, origin, held, messages.drop_last()),
            ),
        )
    }
}

/// Those of `messages` that get their rows where they are appended one after the other.
pub open spec fn accepted_messages(
    mapping: Mapping,
    context: RowContext,
    origin: Origin,
    held: Seq<Entry>,
    messages: Seq<ConsumedMessage>,
) -> Seq<ConsumedMessage>
    decreases messages.len(),
{
    if messages.len() == 0 {
        seq![]
    } else {
        let before = accepted_messages(mapping, context, origin, held, messages.drop_last());
        if fates(mapping, context, origin, held, messages).last() is Written {
            before.push(messages.last())
        } else {
            before
        }
    }
}

proof fn lemma_fates_len(
    mapping: Mapping,
    context: RowContext,
    origin: Origin,
    held: Seq<Entry>,
    messages: Seq<ConsumedMessage>,
)
    ensures
        fates(mapping, context, origin, held, messages).len() == messages.len(),
    decreases messages.len(),
{
    if messages.len() > 0 {
        lemma_fates_len(mapping, context, origin, held, messages.drop_last());
    }
}

/// A rejected message changes nothing for the others: without it each of them fares the
/// same, and the buffer comes to hold the same.
pub proof fn law_rejected_message_affects_no_other(
    mapping: Mapping,
    context: RowContext,
    origin: Origin,
    held: Seq<Entry>,
    messages: Seq<ConsumedMessage>,
    at: int,
)
    requires
        0 <= at < messages.len(),
        !(fates(mapping, context, origin, held, messages)[at] is Written),
    ensures
        held_after(mapping, context, origin, held, messages.remove(at)) == held_after(
            mapping,
            context,
            origin,
            held,
            messages,
        ),
        fates(mapping, context, origin, held, messages.remove(at)) == fates(
            mapping,
            context,
            origin,
            held,
            messages,
        ).remove(at),
    decreases messages.len(),
{
    let all = fates(mapping, context, origin, held, messages);
    let init = messages.drop_last();
    let fewer = messages.remove(at);
    lemma_fates_len(mapping, context, origin, held, messages);
    lemma_fates_len(mapping, context, origin, held, init);
    if at == messages.len() - 1 {
        assert(fewer =~= init);
        assert(all.remove(at) =~= fates(mapping, context, origin, held, init));
    } else {
        assert(all[at] == fates(mapping, context, origin, held, init)[at]);
        law_rejected_message_affects_no_other(mapping, context, origin, held, init, at);
        assert(fewer.drop_last() =~= init.remove(at));
        assert(fewer.last() == messages.last());
        assert(all.remove(at) =~= fates(mapping, context, origin, held, init).remove(at).push(
            all.last(),
        ));
    }
}

/// Appending only the messages that are accepted gives all of them their rows, and leaves
/// the buffer with what it holds after all messages were appended.
pub proof fn law_only_accepted_messages_matter(
    mapping: Mapping,
    context: RowContext,
    origin: Origin,
    held: Seq<Entry>,
    messages: Seq<ConsumedMessage>,
)
    ensures
        ({
            let kept = accepted_messages(mapping, context, origin, held, messages);
            let kept_fates = fates(mapping, context, origin, held, kept);
            &&& held_after(mapping, context, origin, held, kept) == held_after(
                mapping,
                context,
                origin,
                held,
                messages,
            )
            &&& kept_fates.len() == kept.len()
            &&& forall|i: int|
                0 <= i < kept_fates.len() ==> (#[trigger] kept_fates[i]) is Written
        }),
    decreases messages.len(),
{
    if messages.len() > 0 {
        let init = messages.drop_last();
        law_only_accepted_messages_matter(mapping, context, origin, held, init);
        let before = accepted_messages(mapping, context, origin, held, init);
        let kept = accepted_messages(mapping, context, origin, held, messages);
        if fates(mapping, context, origin, held, messages).last() is Written {
            assert(kept.drop_last() =~= before);
            assert(kept.last() == messages.last());
        }
    }
}

proof fn lemma_appends_init(
    mapping: Mapping,
    messages: Seq<ConsumedMessage>,
    context: RowContext,
    before: Buffer,
    steps: Seq<Step>,
)
    requires
        appends(mapping, messages, context, before, steps),
        steps.len() > 0,
    ensures
        appends(mapping, messages, context, before, steps.drop_last()),
        buffer_after(before, steps.drop_last(), steps.len() - 1) == buffer_after(
            before,
            steps,
            steps.len() - 1,
        ),
{
    let init = steps.drop_last();
    assert forall|i: int| 0 <= i < init.len() implies mapping.appended(
        messages[i],
        context,
        buffer_after(before, init, i),
        (#[trigger] init[i]).after,
        init[i].result,
    ) by {
        assert(init[i] == steps[i]);
        assert(buffer_after(before, init, i) == buffer_after(before, steps, i));
    }
}

/// Whether `result` is how a row with that fate ends.
pub open spec fn ends_as(result: Result<(), RowError>, fate: RowFate) -> bool {
    match fate {
        RowFate::Written(_) => result is Ok,
        RowFate::Invalid(reason) => result is Err && reason_of(result) == Some(reason),
        RowFate::Refused(refusal) => result is Err && reason_of(result) == Some(refusal.message),
    }
}

/// What a batch comes to is fixed by how its buffer was made, what that held, and the
/// messages: the result of each, and what the buffer holds in the end.
pub proof fn law_batch_is_determined(
    mapping: Mapping,
    messages: Seq<ConsumedMessage>,
    context: RowContext,
    before: Buffer,
    steps: Seq<Step>,
)
    requires
        appends(mapping, messages, context, before, steps),
    ensures
        ({
            let done = messages.take(steps.len() as int);
            let after = buffer_after(before, steps, steps.len() as int);
            let ends = fates(mapping, context, origin(before), recorded(before), done);
            &&& origin(after) == origin(before)
            &&& recorded(after) == held_after(
                mapping,
                context,
                origin(before),
                recorded(before),
                done,
            )
            &&& ends.len() == steps.len()
            &&& forall|i: int|
                0 <= i < steps.len() ==> ends_as((#[trigger] steps[i]).result, ends[i])
        }),
    decreases steps.len(),
{
    if steps.len() > 0 {
        let n = steps.len() - 1;
        let init = steps.drop_last();
        let done = messages.take(steps.len() as int);
        lemma_appends_init(mapping, messages, context, before, steps);
        law_batch_is_determined(mapping, messages, context, before, init);
        assert(done.drop_last() =~= messages.take(n));
        assert(done.last() == messages[n]);
        assert(steps[n] == steps.last());
        let ends = fates(mapping, context, origin(before), recorded(before), done);
        let first = fates(mapping, context, origin(before), recorded(before), done.drop_last());
        assert forall|i: int| 0 <= i < steps.len() implies ends_as(
            (#[trigger] steps[i]).result,
            ends[i],
        ) by {
            if i < n {
                assert(steps[i] == init[i]);
                assert(ends[i] == first[i]);
            }
        }
    }
}

/// The entries that the rows of the accepted messages ask for, in their order.
pub open spec fn accepted(
    mapping: Mapping,
    messages: Seq<ConsumedMessage>,
    context: RowContext,
    steps: Seq<Step>,
) -> Seq<Entry>
    decreases steps.len(),
{
    if steps.len() == 0 {
        seq![]
    } else {
        accepted(mapping, messages, context, steps.drop_last()) + accepted_row(
            mapping,
            messages[steps.len() - 1],
            context,
            steps.last(),
        )
    }
}

/// The entries that the row of `message` asks for, if it was accepted.
pub open spec fn accepted_row(
    mapping: Mapping,
    message: ConsumedMessage,
    context: RowContext,
    step: Step,
) -> Seq<Entry> {
    if step.result is Ok {
        mapping.row_plan(message, context).entries
    } else {
        seq![]
    }
}

proof fn lemma_holds_accepted_rows(
    mapping: Mapping,
    messages: Seq<ConsumedMessage>,
    context: RowContext,
    before: Buffer,
    steps: Seq<Step>,
)
    requires
        appends(mapping, messages, context, before, steps),
    ensures
        origin(buffer_after(before, steps, steps.len() as int)) == origin(before),
        run(
            origin(before),
            recorded(before),
            accepted(mapping, messages, context, steps),
        ) == (Run {
            held: recorded(buffer_after(before, steps, steps.len() as int)),
            refusal: None,
        }),
    decreases steps.len(),
{
    if steps.len() > 0 {
        let init = steps.drop_last();
        let n = steps.len() - 1;
        lemma_appends_init(mapping, messages, context, before, steps);
        lemma_holds_accepted_rows(mapping, messages, context, before, init);
        assert(steps[n] == steps.last());
        lemma_run_concat(
            origin(before),
            recorded(before),
            accepted(mapping, messages, context, init),
            accepted_row(mapping, messages[n], context, steps.last()),
        );
    }
}

/// After a batch, whether it ended well or not, the buffer holds what writing the rows of
/// the accepted messages, in their order, and nothing else gives it.
pub proof fn law_batch_holds_accepted_rows(
    mapping: Mapping,
    scope: LogScope,
    messages: Seq<ConsumedMessage>,
    context: RowContext,
    before: Buffer,
    steps: Seq<Step>,
    after: Buffer,
    r: Result<BatchReport, AbortedBatch>,
)
    requires
        batch_ends(mapping, scope, messages, context, before, steps, after, r),
    ensures
        run(
            origin(before),
            recorded(before),
            accepted(mapping, messages, context, steps),
        ) == (Run { held: recorded(after), refusal: None }),
{
    lemma_holds_accepted_rows(mapping, messages, context, before, steps);
}

/// Where no row has two cells of the same column, the buffer holds after a batch what it
/// held before and then the rows of the accepted messages, cell for cell.
pub proof fn law_batch_keeps_distinct_cells(
    mapping: Mapping,
    messages: Seq<ConsumedMessage>,
    context: RowContext,
    before: Buffer,
    steps: Seq<Step>,
)
    requires
        appends(mapping, messages, context, before, steps),
        forall|i: int|
            0 <= i < messages.len() ==> columns_distinct(
                mapping.row_plan(#[trigger] messages[i], context).entries,
            ),
    ensures
        recorded(buffer_after(before, steps, steps.len() as int)) == recorded(before) + accepted(
            mapping,
            messages,
            context,
            steps,
        ),
        origin(buffer_after(before, steps, steps.len() as int)) == origin(before),
    decreases steps.len(),
{
    if steps.len() == 0 {
        assert(recorded(before) + accepted(mapping, messages, context, steps) =~= recorded(
            before,
        ));
    } else {
        let init = steps.drop_last();
        let last = steps.last();
        let n = steps.len() - 1;
        lemma_appends_init(mapping, messages, context, before, steps);
        law_batch_keeps_distinct_cells(mapping, messages, context, before, init);
        let mid = buffer_after(before, steps, n);
        assert(steps[n] == last);
        assert(columns_distinct(mapping.row_plan(messages[n], context).entries));
        if last.result is Ok {
            law_row_shape(mapping, messages[n], context);
            law_distinct_cells_are_kept(
                origin(mid),
                recorded(mid),
                mapping.row_plan(messages[n], context).entries,
            );
        }
        assert(recorded(last.after) =~= recorded(before) + accepted(
            mapping,
            messages,
            context,
            steps,
        ));
    }
}

/// How many of `steps` wrote a row.
pub open spec fn rows_in(steps: Seq<Step>) -> nat
    decreases steps.len(),
{
    if steps.len() == 0 {
        0
    } else {
        rows_in(steps.drop_last()) + if steps.last().result is Ok {
            1nat
        } else {
            0nat
        }
    }
}

/// The report of a batch counts each message once: as written if it got its row, else as
/// rejected. It holds one line for each rejection, up to the limit.
pub proof fn law_report_counts(
    scope: LogScope,
    context: RowContext,
    messages: Seq<ConsumedMessage>,
    steps: Seq<Step>,
)
    ensures
        ({
            let report = report_of(scope, context, messages, steps);
            &&& report.tally.rows_written == rows_in(steps)
            &&& report.tally.rows_written + report.tally.rejected_rows == steps.len()
            &&& report.lines.len() == if report.tally.rejected_rows
                < MAX_LOGGED_REJECTIONS_PER_BATCH {
                report.tally.rejected_rows as int
            } else {
                MAX_LOGGED_REJECTIONS_PER_BATCH as int
            }
        }),
    decreases steps.len(),
{
    if steps.len() > 0 {
        law_report_counts(scope, context, messages, steps.drop_last());
    }
}

/// The log shows at most twenty rejections of a batch one by one, and after these at
/// most one summary.
pub proof fn law_log_is_bounded(
    scope: LogScope,
    context: RowContext,
    messages: Seq<ConsumedMessage>,
    steps: Seq<Step>,
)
    ensures
        ({
            let report = report_of(scope, context, messages, steps).closed(scope, context);
            if report.tally.rejected_rows <= 20 {
                report.lines.len() == report.tally.rejected_rows
            } else {
                report.lines.len() == 21
            }
        }),
{
    law_report_counts(scope, context, messages, steps);
}

/// The last rejection that a report gives is that of the last message rejected.
pub proof fn law_last_rejection(
    scope: LogScope,
    context: RowContext,
    messages: Seq<ConsumedMessage>,
    steps: Seq<Step>,
    at: int,
)
    requires
        0 <= at < steps.len(),
        steps[at].result is Err,
        forall|i: int| at < i < steps.len() ==> (#[trigger] steps[i]).result is Ok,
    ensures
        report_of(scope, context, messages, steps).tally.last_rejection == reason_of(
            steps[at].result,
        ),
    decreases steps.len(),
{
    if at < steps.len() - 1 {
        let init = steps.drop_last();
        assert(steps[steps.len() - 1].result is Ok);
        assert forall|i: int| at < i < init.len() implies (#[trigger] init[i]).result is Ok by {
            assert(init[i] == steps[i]);
        }
        law_last_rejection(scope, context, messages, init, at);
    }
}

/// Outcomes merge in any grouping, and an empty one changes nothing.
pub proof fn law_merge(a: Tally, b: Tally, c: Tally)
    ensures
        a.merged(b).merged(c) == a.merged(b.merged(c)),
        a.merged(Tally::none()) == a,
        Tally::none().merged(a) == a,
{
}

/// A failure while waiting for the acknowledgement is never reported as one to retry,
/// whatever its code.
pub proof fn law_await_failure_is_never_retryable(
    failure: FlushError,
    text: Seq<char>,
    r: SinkError,
)
    requires
        reports(failure, text, r),
        failure.phase == FlushCall::Await.phase(),
    ensures
        !(r is CannotStoreData),
{
}

/// A failure that leaves the delivery in doubt is never reported as one to retry,
/// whatever its code.
pub proof fn law_doubt_is_never_retryable(failure: FlushError, text: Seq<char>, r: SinkError)
    requires
        reports(failure, text, r),
        error_in_doubt(failure.error),
    ensures
        !(r is CannotStoreData),
{
}

/// A failure of the transport before the rows were published, with no doubt about their
/// delivery, is reported as one to retry.
pub proof fn law_transport_failure_is_retryable(
    call: FlushCall,
    failure: FlushError,
    text: Seq<char>,
    r: SinkError,
)
    requires
        reports(failure, text, r),
        call != FlushCall::Await,
        failure.phase == call.phase(),
        retryable_code(error_code(failure.error)),
        !error_in_doubt(failure.error),
    ensures
        r is CannotStoreData,
{
}

/// What the server refuses for good, it refuses again: such a failure is never reported
/// as one to retry, and one over the table's schema is reported as that.
pub proof fn law_server_rejection_is_permanent(
    failure: FlushError,
    text: Seq<char>,
    r: SinkError,
)
    requires
        reports(failure, text, r),
        error_code(failure.error) is ServerSchemaMismatch || error_code(
            failure.error,
        ) is ServerParseError || error_code(failure.error) is ServerSecurityError,
    ensures
        !(r is CannotStoreData),
        error_code(failure.error) is ServerSchemaMismatch ==> r is SchemaMismatch,
{
}

/// The batches hold all messages in their order. Each takes as many as the batch size
/// allows, but for the last, which takes what is left, and none is empty.
pub proof fn law_batches_partition(messages: Seq<ConsumedMessage>, size: nat)
    requires
        size > 0,
    ensures
        batches(messages, size).flatten() == messages,
        forall|i: int|
            0 <= i < batches(messages, size).len() ==> 0 < (#[trigger] batches(
                messages,
                size,
            )[i]).len() <= size,
        forall|i: int|
            0 <= i < batches(messages, size).len() - 1 ==> (#[trigger] batches(
                messages,
                size,
            )[i]).len() == size,
    decreases messages.len(),
{
    let all = batches(messages, size);
    if messages.len() == 0 {
        assert(all =~= seq![]);
        assert(all.flatten() =~= messages);
    } else {
        let n = batch_len(messages.len(), size) as int;
        let first = messages.take(n);
        let rest = messages.skip(n);
        law_batches_partition(rest, size);
        assert(all.drop_first() =~= batches(rest, size));
        assert(all.first() == first);
        assert(all.flatten() == first + batches(rest, size).flatten());
        assert(first + rest =~= messages);
        assert forall|i: int| 0 <= i < all.len() implies 0 < (#[trigger] all[i]).len() <= size by {
            if i > 0 {
                assert(all[i] == batches(rest, size)[i - 1]);
            }
        }
        assert forall|i: int| 0 <= i < all.len() - 1 implies (#[trigger] all[i]).len() == size by {
            if i > 0 {
                assert(all[i] == batches(rest, size)[i - 1]);
            } else {
                assert(batches(rest, size).len() > 0);
                assert(rest.len() > 0);
            }
        }
    }
}

/// There are as many batches as it takes: the number of messages by the batch size, rounded
/// up.
pub proof fn law_batch_count(messages: Seq<ConsumedMessage>, size: nat)
    requires
        size > 0,
    ensures
        batches(messages, size).len() == (messages.len() + size - 1) / size as int,
    decreases messages.len(),
{
    let total = messages.len() as int;
    if total == 0 {
        assert((size - 1) / size as int == 0) by (nonlinear_arith)
            requires
                size > 0,
        ;
    } else {
        let n = batch_len(messages.len(), size) as int;
        let rest = messages.skip(n);
        law_batch_count(rest, size);
        assert(batches(messages, size).len() == 1 + batches(rest, size).len());
        if n == size {
            assert((total + size - 1) / size as int == 1 + (total - size + size - 1) / size as int)
                by (nonlinear_arith)
                requires
                    size > 0,
            ;
        } else {
            assert(rest.len() == 0);
            assert((total + size - 1) / size as int == 1) by (nonlinear_arith)
                requires
                    0 < total < size,
            ;
            assert((size - 1) / size as int == 0) by (nonlinear_arith)
                requires
                    size > 0,
            ;
        }
    }
}

/// Once nothing is left to write, every message received was either written or rejected.
pub proof fn law_all_messages_are_accounted_for(work: Consumption)
    requires
        work.wf(),
        work.finished(),
    ensures
        work.total@.rows_written + work.total@.rejected_rows == work.received,
{
}

/// Names of sources, units and acknowledgements are read whatever the case of their
/// ASCII letters.
pub proof fn law_names_ignore_case(a: Seq<char>, b: Seq<char>)
    requires
        lowered(a) == lowered(b),
    ensures
        TimestampSource::named(Some(a)) == TimestampSource::named(Some(b)),
        TimestampUnit::named(Some(a)) == TimestampUnit::named(Some(b)),
        ack_level_named(Some(a)) == ack_level_named(Some(b)),
{
}

/// An explicit unit ignores the magnitude of a value: as long as nothing saturates, each
/// tick counts for the same.
pub proof fn law_explicit_unit_is_linear(unit: TimestampUnit, value: int)
    requires
        unit != TimestampUnit::Auto,
        i64::MIN <= value * unit.nanos_per_tick() <= i64::MAX,
    ensures
        unit.nanos(value) == value * unit.nanos_per_tick(),
{
}

/// `Auto` reads the same instant alike in all four units, from March 1973 on, as long as
/// its nanoseconds fit, and likewise before November 1966.
pub proof fn law_auto_reads_every_unit(seconds: int)
    requires
        100_000_000 <= seconds <= 9_223_372_036 || -9_223_372_036 <= seconds <= -100_000_000,
    ensures
        TimestampUnit::Auto.nanos(seconds) == seconds * 1_000_000_000,
        TimestampUnit::Auto.nanos(seconds * 1_000) == seconds * 1_000_000_000,
        TimestampUnit::Auto.nanos(seconds * 1_000_000) == seconds * 1_000_000_000,
        TimestampUnit::Auto.nanos(seconds * 1_000_000_000) == seconds * 1_000_000_000,
{
}

/// Later ticks of an explicit unit are never earlier instants.
pub proof fn law_explicit_unit_keeps_order(unit: TimestampUnit, a: int, b: int)
    requires
        unit != TimestampUnit::Auto,
        a <= b,
    ensures
        unit.nanos(a) <= unit.nanos(b),
{
    let tick = unit.nanos_per_tick();
    assert(a * tick <= b * tick) by (nonlinear_arith)
        requires
            a <= b,
            tick > 0,
    ;
}

proof fn lemma_hex_concat(a: Seq<char>, b: Seq<char>)
    ensures
        hex_number(a + b) == hex_number(a) * vstd::arithmetic::power::pow(16, b.len())
            + hex_number(b),
    decreases b.len(),
{
    vstd::arithmetic::power::lemma_pow0(16);
    if b.len() == 0 {
        assert(a + b =~= a);
    } else {
        let init = b.drop_last();
        lemma_hex_concat(a, init);
        assert((a + b).drop_last() =~= a + init);
        vstd::arithmetic::power::lemma_pow1(16);
        vstd::arithmetic::power::lemma_pow_adds(16, init.len(), 1);
        let p = vstd::arithmetic::power::pow(16, init.len());
        let h = hex_number(a);
        assert((h * p + hex_number(init)) * 16 == h * (p * 16) + hex_number(init) * 16)
            by (nonlinear_arith);
        assert(b.len() == init.len() + 1);
    }
}

/// The two halves of a UUID are the number that its digits write: the more significant
/// half, then sixteen digits of the other.
pub proof fn law_uuid_halves(text: Seq<char>)
    requires
        is_uuid(text),
    ensures
        uuid_halves(text).0 <= u64::MAX,
        uuid_halves(text).1 <= u64::MAX,
        hex_number(undashed(text)) == uuid_halves(text).1 * 0x1_0000_0000_0000_0000
            + uuid_halves(text).0,
{
    let digits = undashed(text);
    let high = digits.take(16);
    let low = digits.skip(16);
    assert(high + low =~= digits);
    assert forall|i: int| 0 <= i < 16 implies is_hex(#[trigger] high[i]) by {
        assert(high[i] == digits[i]);
    }
    assert forall|i: int| 0 <= i < 16 implies is_hex(#[trigger] low[i]) by {
        assert(low[i] == digits[i + 16]);
    }
    lemma_hex_number_fits(high);
    lemma_hex_number_fits(low);
    lemma_hex_concat(high, low);
    lemma_pow_16_16();
}

/// Dashes mean nothing in a UUID: without them it reads the same.
pub proof fn law_uuid_dashes_are_ignored(text: Seq<char>)
    ensures
        is_uuid(undashed(text)) == is_uuid(text),
        uuid_halves(undashed(text)) == uuid_halves(text),
{
    lemma_undashed_twice(text);
}

proof fn lemma_undashed_twice(text: Seq<char>)
    ensures
        undashed(undashed(text)) == undashed(text),
    decreases text.len(),
{
    reveal(Seq::filter);
    if text.len() > 0 {
        lemma_undashed_twice(text.drop_last());
        let init = undashed(text.drop_last());
        if text.last() != '-' {
            assert(init.push(text.last()).drop_last() =~= init);
        }
    }
}

proof fn lemma_encode_concat(a: Seq<char>, b: Seq<char>)
    ensures
        encode_utf8(a + b) == encode_utf8(a) + encode_utf8(b),
        is_char_boundary(encode_utf8(a + b), encode_utf8(a).len() as int),
        encode_utf8(a).len() >= a.len(),
    decreases a.len(),
{
    encode_utf8_valid_utf8(a + b);
    if a.len() == 0 {
        assert(a + b =~= b);
        assert(encode_utf8(a) + encode_utf8(b) =~= encode_utf8(b));
    } else {
        let rest = a.drop_first();
        lemma_encode_concat(rest, b);
        assert((a + b).drop_first() =~= rest + b);
        assert((a + b)[0] == a[0]);
        let bytes = encode_utf8(a + b);
        vstd::utf8::encode_utf8_first_scalar(a + b);
        assert(vstd::utf8::pop_first_scalar(bytes) =~= encode_utf8(rest + b));
        assert(bytes =~= encode_utf8(a) + encode_utf8(b));
        assert(encode_utf8(a).len() == vstd::utf8::length_of_first_scalar(bytes) + encode_utf8(
            rest,
        ).len());
    }
}

proof fn lemma_cut(bytes: Seq<u8>, limit: nat)
    requires
        valid_utf8(bytes),
    ensures
        cut(bytes, limit) <= limit,
        is_char_boundary(bytes, cut(bytes, limit) as int),
        forall|i: int|
            0 <= i <= limit && #[trigger] is_char_boundary(bytes, i) ==> i <= cut(bytes, limit),
    decreases limit,
{
    if limit > 0 && !is_char_boundary(bytes, limit as int) {
        lemma_cut(bytes, (limit - 1) as nat);
    }
}

/// What the log shows of a long payload is its longest beginning that is made of whole
/// characters and has no more bytes than the limit.
pub proof fn law_preview_is_longest_that_fits(text: Seq<char>)
    requires
        encode_utf8(text).len() > REJECTED_PAYLOAD_PREVIEW_BYTES,
    ensures
        kept(text).is_prefix_of(text),
        encode_utf8(kept(text)).len() <= REJECTED_PAYLOAD_PREVIEW_BYTES,
        forall|n: int|
            0 <= n <= text.len() && (#[trigger] encode_utf8(text.take(n))).len()
                <= REJECTED_PAYLOAD_PREVIEW_BYTES ==> n <= kept(text).len(),
{
    let limit = REJECTED_PAYLOAD_PREVIEW_BYTES as nat;
    let bytes = encode_utf8(text);
    let end = cut(bytes, limit) as int;
    encode_utf8_valid_utf8(text);
    encode_utf8_decode_utf8(text);
    lemma_cut(bytes, limit);
    decode_utf8_split(bytes, end);
    valid_utf8_split(bytes, end);
    assert(bytes.subrange(0, end) =~= bytes.take(end));
    decode_utf8_encode_utf8(bytes.take(end));
    let rest = decode_utf8(bytes.subrange(end, bytes.len() as int));
    assert(text == kept(text) + rest);
    assert(text.take(kept(text).len() as int) =~= kept(text));
    assert forall|n: int|
        0 <= n <= text.len() && (#[trigger] encode_utf8(text.take(n))).len() <= limit implies n
        <= kept(text).len() by {
        assert(text.take(n) + text.skip(n) =~= text);
        lemma_encode_concat(text.take(n), text.skip(n));
        if n > kept(text).len() {
            let more = text.take(n).skip(kept(text).len() as int);
            assert(kept(text) + more =~= text.take(n));
            lemma_encode_concat(kept(text), more);
            lemma_encode_concat(more, seq![]);
        }
    }
}

/// A configuration that holds nothing but what it must asks for the defaults.
pub proof fn law_minimal_config<S>(id: u32, config: QuestDbSinkConfig<S>, sink: QuestDbSink<S>)
    requires
        sink.built_from(id, config, QuestDbSink::configured_timeout(config)),
        config.timestamp_source is None,
        config.timestamp_field is None,
        config.timestamp_unit is None,
        config.symbol_columns is None,
        config.uuid_columns is None,
        config.include_stream_column is None,
        config.include_topic_column is None,
        config.include_partition_column is None,
        config.include_offset_column is None,
        config.include_headers is None,
        config.ack_level is None,
        config.flush_timeout is None,
        config.batch_size is None,
        config.log_rejected_payload is None,
        config.verbose_logging is None,
    ensures
        sink.init_error is None,
        sink.mapping.table@ == config.table@,
        sink.mapping.timestamp_source == TimestampSource::Message,
        sink.mapping.timestamp_unit == TimestampUnit::Auto,
        sink.mapping.symbol_columns@ == Set::<Seq<char>>::empty(),
        sink.mapping.uuid_columns@ == Set::<Seq<char>>::empty(),
        sink.mapping.include_stream_column,
        sink.mapping.include_topic_column,
        !sink.mapping.include_partition_column,
        !sink.mapping.include_offset_column,
        !sink.mapping.include_headers,
        sink.ack_level == AckLevel::Ok,
        sink.flush_timeout == (Timeout { secs: DEFAULT_FLUSH_TIMEOUT_SECS, nanos: 0 }),
        !sink.timeout_defaulted,
        sink.batch_size == DEFAULT_BATCH_SIZE,
        !sink.log_rejected_payload,
        !sink.verbose,
{
}

/// Neither the flush timeout nor the batch size decides whether a configuration can be used.
pub proof fn law_faults_ignore_timeout_and_batch_size<S>(
    config: QuestDbSinkConfig<S>,
    timeout: Option<String>,
    batch_size: Option<u32>,
    error: Option<SinkError>,
)
    ensures
        (QuestDbSinkConfig { flush_timeout: timeout, batch_size, ..config }).faulted(error)
            == config.faulted(error),
{
}

/// A sink that opens has no column in two uses: none is both a symbol and a UUID, and the
/// timestamp field is neither.
pub proof fn law_open_sink_has_no_overlap<S>(
    id: u32,
    config: QuestDbSinkConfig<S>,
    timeout: Option<Timeout>,
    sink: QuestDbSink<S>,
)
    requires
        sink.built_from(id, config, timeout),
        sink.init_error is None,
    ensures
        sink.mapping.symbol_columns@.disjoint(sink.mapping.uuid_columns@),
        sink.mapping.timestamp_field matches Some(field) ==> !sink.mapping.symbol_columns@.contains(
            field@,
        ) && !sink.mapping.uuid_columns@.contains(field@),
        sink.mapping.timestamp_source == TimestampSource::Payload
            ==> sink.mapping.timestamp_field is Some,
{
}

} // verus!
