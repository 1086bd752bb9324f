//! What a configuration asks for, and when it cannot be used.

use crate::columns::names_in;
use crate::flush::SinkError;
use crate::sink::{
    ack_level_named, names_overlap, overlaps, text_in, QuestDbSink, QuestDbSinkConfig,
};
use crate::span::{
    after_unit, duration_of, is_digit, is_letter, number_start, single, span_of, starts_number,
    sum_before, sum_of, Timeout,
};
use crate::text::{decimal, lowered};
use crate::timestamp::{TimestampSource, TimestampUnit};
use questdb::ingress::AckLevel;
use vstd::prelude::*;
use vstd::string::*;

verus! {

/// Each acknowledgement is known by its own name, in any case of letters, and by no other.
/// Naming acceptance is the same as naming none.
pub proof fn law_ack_level_names(name: Seq<char>)
    ensures
        ack_level_named(Some(name)) == Some(AckLevel::Ok) <==> lowered(name) == "ok"@,
        ack_level_named(Some(name)) == Some(AckLevel::Durable) <==> lowered(name) == "durable"@,
        ack_level_named(Some(name)) is None <==> lowered(name) != "ok"@ && lowered(name)
            != "durable"@,
        ack_level_named(None) == Some(AckLevel::Ok),
        ack_level_named(Some("ok"@)) == Some(AckLevel::Ok),
        ack_level_named(Some("durable"@)) == Some(AckLevel::Durable),
{
    reveal_strlit("ok");
    reveal_strlit("durable");
    assert("ok"@.len() == 2 && "durable"@.len() == 7);
    assert(lowered("ok"@) =~= "ok"@);
    assert(lowered("durable"@) =~= "durable"@);
}

/// A setting reads as it is written, and one that is left out reads as none.
pub proof fn law_settings_are_read_as_written(text: String)
    ensures
        text_in(Some(text)) == Some(text@),
        text_in(None) is None,
{
}

/// A list holds the names that stand in it.
pub proof fn law_listed_names(list: Seq<String>, name: Seq<char>)
    ensures
        names_in(list).contains(name) <==> exists|i: int|
            0 <= i < list.len() && (#[trigger] list[i])@ == name,
{
}

/// Two lists overlap just where they share a name, and a timestamp field overlaps where either
/// holds it.
pub proof fn law_overlap(symbols: Seq<String>, uuids: Seq<String>, field: Option<Seq<char>>)
    ensures
        overlaps(names_in(symbols), names_in(uuids), field) <==> {
            ||| exists|i: int, j: int|
                0 <= i < symbols.len() && 0 <= j < uuids.len() && (#[trigger] symbols[i])@ == (
                #[trigger] uuids[j])@
            ||| (field matches Some(name) && exists|i: int|
                0 <= i < symbols.len() && (#[trigger] symbols[i])@ == name)
            ||| (field matches Some(name) && exists|j: int|
                0 <= j < uuids.len() && (#[trigger] uuids[j])@ == name)
        },
{
    if !names_in(symbols).disjoint(names_in(uuids)) {
        let name = choose|name: Seq<char>|
            names_in(symbols).contains(name) && names_in(uuids).contains(name);
        let i = choose|i: int| 0 <= i < symbols.len() && (#[trigger] symbols[i])@ == name;
        let j = choose|j: int| 0 <= j < uuids.len() && (#[trigger] uuids[j])@ == name;
        assert(symbols[i]@ == uuids[j]@);
    }
    if exists|i: int, j: int|
        0 <= i < symbols.len() && 0 <= j < uuids.len() && (#[trigger] symbols[i])@ == (
        #[trigger] uuids[j])@ {
        let (i, j): (int, int) = choose|i: int, j: int|
            0 <= i < symbols.len() && 0 <= j < uuids.len() && (#[trigger] symbols[i])@ == (
            #[trigger] uuids[j])@;
        assert(names_in(symbols).contains(symbols[i]@));
        assert(names_in(uuids).contains(symbols[i]@));
    }
}

/// What is said of an overlap names a column in both sets or, where there is none, the
/// timestamp field.
pub proof fn law_overlap_is_named(
    symbols: Set<Seq<char>>,
    uuids: Set<Seq<char>>,
    field: Option<Seq<char>>,
    reason: Seq<char>,
)
    requires
        names_overlap(symbols, uuids, field, reason),
    ensures
        !symbols.disjoint(uuids) ==> exists|column: Seq<char>|
            symbols.contains(column) && #[trigger] uuids.contains(column) && reason == "column "@
                + column + " is listed in both symbol_columns and uuid_columns"@,
        symbols.disjoint(uuids) ==> (field matches Some(name) && (symbols.contains(name)
            || uuids.contains(name)) && reason == "timestamp_field "@ + name
            + " cannot also be a symbol or uuid column"@),
{
}

/// Whether what is recorded is that `setting` cannot be used.
pub open spec fn blames(error: Option<SinkError>, setting: Seq<char>) -> bool {
    error matches Some(SinkError::InvalidConfigValue(reason)) && reason@ == setting
}

/// The first setting that is wrong is blamed, in this order: an unknown source, an unknown
/// unit, a payload timestamp without its field, an unknown acknowledgement, and then columns
/// in two uses. Where nothing is wrong, nothing is recorded.
pub proof fn law_first_fault_is_blamed<S>(config: QuestDbSinkConfig<S>, error: Option<SinkError>)
    requires
        config.faulted(error),
    ensures
        ({
            let source = TimestampSource::named(text_in(config.timestamp_source));
            let unit = TimestampUnit::named(text_in(config.timestamp_unit));
            let level = ack_level_named(text_in(config.ack_level));
            if source is None {
                blames(error, "timestamp_source"@)
            } else if unit is None {
                blames(error, "timestamp_unit"@)
            } else if source == Some(TimestampSource::Payload) && config.timestamp_field is None {
                blames(error, "timestamp_field"@)
            } else if level is None {
                blames(error, "ack_level"@)
            } else if config.overlapping() {
                error is Some
            } else {
                error is None
            }
        }),
{
}

/// A configuration overlaps as its own lists and its own timestamp field do.
pub proof fn law_config_overlap<S>(
    config: QuestDbSinkConfig<S>,
    symbols: Vec<String>,
    uuids: Vec<String>,
)
    requires
        config.symbol_columns == Some(symbols),
        config.uuid_columns == Some(uuids),
    ensures
        config.overlapping() <==> overlaps(
            names_in(symbols@),
            names_in(uuids@),
            text_in(config.timestamp_field),
        ),
{
}

/// Lists that are left out hold nothing, and then only the other one can overlap with the
/// timestamp field.
pub proof fn law_config_overlap_without_lists<S>(config: QuestDbSinkConfig<S>)
    ensures
        config.symbol_columns is None && config.uuid_columns is None ==> !config.overlapping(),
        config.symbol_columns is None ==> (config.uuid_columns matches Some(uuids) ==> (
        config.overlapping() <==> (text_in(config.timestamp_field) matches Some(field) && names_in(
            uuids@,
        ).contains(field)))),
        config.uuid_columns is None ==> (config.symbol_columns matches Some(symbols) ==> (
        config.overlapping() <==> (text_in(config.timestamp_field) matches Some(field) && names_in(
            symbols@,
        ).contains(field)))),
{
}

/// What is configured is what the sink has.
pub proof fn law_configured_values<S>(
    id: u32,
    config: QuestDbSinkConfig<S>,
    timeout: Option<Timeout>,
    sink: QuestDbSink<S>,
)
    requires
        sink.built_from(id, config, timeout),
    ensures
        sink.id == id,
        sink.connection_string == config.connection_string,
        sink.mapping.table@ == config.table@,
        config.symbol_columns matches Some(list) ==> sink.mapping.symbol_columns@ == names_in(
            list@,
        ),
        config.uuid_columns matches Some(list) ==> sink.mapping.uuid_columns@ == names_in(list@),
        config.timestamp_field matches Some(field) ==> (sink.mapping.timestamp_field matches Some(
            same,
        ) && same@ == field@),
        config.timestamp_field is None ==> sink.mapping.timestamp_field is None,
        config.include_stream_column matches Some(wanted) ==> sink.mapping.include_stream_column
            == wanted,
        config.include_topic_column matches Some(wanted) ==> sink.mapping.include_topic_column
            == wanted,
        config.include_partition_column matches Some(wanted)
            ==> sink.mapping.include_partition_column == wanted,
        config.include_offset_column matches Some(wanted) ==> sink.mapping.include_offset_column
            == wanted,
        config.include_headers matches Some(wanted) ==> sink.mapping.include_headers == wanted,
        config.batch_size matches Some(size) ==> sink.batch_size == size,
        config.log_rejected_payload matches Some(wanted) ==> sink.log_rejected_payload == wanted,
        config.verbose_logging matches Some(wanted) ==> sink.verbose == wanted,
        timeout matches Some(span) ==> sink.flush_timeout == span,
        timeout is None ==> sink.flush_timeout.secs == 30 && sink.flush_timeout.nanos == 0,
        sink.timeout_defaulted <==> config.flush_timeout is Some && timeout is None,
        TimestampSource::named(text_in(config.timestamp_source)) matches Some(source)
            ==> sink.mapping.timestamp_source == source,
        TimestampUnit::named(text_in(config.timestamp_unit)) matches Some(unit)
            ==> sink.mapping.timestamp_unit == unit,
        ack_level_named(text_in(config.ack_level)) matches Some(level) ==> sink.ack_level == level,
        config.faulted(sink.init_error),
{
}

/// Each setting that is left out has its own default, whatever else is configured.
pub proof fn law_defaults<S>(
    id: u32,
    config: QuestDbSinkConfig<S>,
    timeout: Option<Timeout>,
    sink: QuestDbSink<S>,
)
    requires
        sink.built_from(id, config, timeout),
    ensures
        config.timestamp_source is None ==> sink.mapping.timestamp_source
            == TimestampSource::Message,
        config.timestamp_unit is None ==> sink.mapping.timestamp_unit == TimestampUnit::Auto,
        config.symbol_columns is None ==> sink.mapping.symbol_columns@ == Set::<
            Seq<char>,
        >::empty(),
        config.uuid_columns is None ==> sink.mapping.uuid_columns@ == Set::<Seq<char>>::empty(),
        config.include_stream_column is None ==> sink.mapping.include_stream_column,
        config.include_topic_column is None ==> sink.mapping.include_topic_column,
        config.include_partition_column is None ==> !sink.mapping.include_partition_column,
        config.include_offset_column is None ==> !sink.mapping.include_offset_column,
        config.include_headers is None ==> !sink.mapping.include_headers,
        config.ack_level is None ==> sink.ack_level == AckLevel::Ok,
        config.batch_size is None ==> sink.batch_size == 1000,
        config.log_rejected_payload is None ==> !sink.log_rejected_payload,
        config.verbose_logging is None ==> !sink.verbose,
        config.flush_timeout is None ==> QuestDbSink::configured_timeout(config) is None,
        config.flush_timeout matches Some(text) ==> QuestDbSink::configured_timeout(config)
            == span_of(text@),
{
}

/// The warning on a timeout comes just where one could not be read, and names the sink.
pub proof fn law_timeout_warning<S>(sink: QuestDbSink<S>)
    ensures
        !sink.timeout_defaulted ==> sink.timeout_warning() is None,
        sink.timeout_defaulted ==> sink.timeout_warning() == Some(
            "Invalid flush_timeout for QuestDB sink ID: "@ + decimal(sink.id as nat)
                + ", defaulting to 30s"@,
        ),
{
    reveal_strlit("Invalid flush_timeout for QuestDB sink ID: ");
    reveal_strlit("Invalid flush_timeout for ");
    reveal_strlit("QuestDB sink ID: ");
    assert("Invalid flush_timeout for QuestDB sink ID: "@ =~= "Invalid flush_timeout for "@
        + "QuestDB sink ID: "@);
    if sink.timeout_defaulted {
        assert(sink.timeout_warning()->0 =~= "Invalid flush_timeout for QuestDB sink ID: "@
            + decimal(sink.id as nat) + ", defaulting to 30s"@);
    }
}

/// Digits are the ten decimal ones, and letters those of the units of spans.
pub proof fn law_span_characters(c: char)
    ensures
        is_digit(c) <==> 48 <= c as int <= 57,
        is_letter(c) <==> 97 <= c as int <= 122 || 65 <= c as int <= 90 || c as int == 181,
{
}

proof fn lemma_after_unit(text: Seq<char>, n: int)
    requires
        0 <= n <= text.len(),
    ensures
        after_unit(text, n) ==> exists|j: int| 0 <= j < n && is_letter(#[trigger] text[j]),
    decreases n,
{
    if n > 0 {
        if after_unit(text, n) {
            if is_letter(text[n - 1]) {
                assert(0 <= n - 1 < n && is_letter(text[n - 1]));
            } else {
                lemma_after_unit(text, n - 1);
            }
        }
    }
}

/// Some digit after a letter is the first one after it.
proof fn lemma_digit_after_letter(text: Seq<char>, j: int, k: int)
    requires
        0 <= j < k < text.len(),
        is_letter(text[j]),
        is_digit(text[k]),
    ensures
        !single(text),
    decreases k - j,
{
    if after_unit(text, k) {
        assert(starts_number(text, k));
    } else {
        lemma_no_unit(text, j, k);
        let i = choose|i: int| j < i < k && is_digit(#[trigger] text[i]);
        lemma_digit_after_letter(text, j, i);
    }
}

proof fn lemma_no_unit(text: Seq<char>, j: int, n: int)
    requires
        0 <= j < n <= text.len(),
        is_letter(text[j]),
        !after_unit(text, n),
    ensures
        exists|i: int| j < i < n && is_digit(#[trigger] text[i]),
    decreases n,
{
    if is_digit(text[n - 1]) {
        assert(j < n - 1 < n);
    } else {
        lemma_no_unit(text, j, n - 1);
        let i = choose|i: int| j < i < n - 1 && is_digit(#[trigger] text[i]);
        assert(j < i < n && is_digit(text[i]));
    }
}

/// A text has one number at most just where no digit comes after a letter.
pub proof fn law_single_number(text: Seq<char>)
    ensures
        single(text) <==> forall|j: int, k: int|
            0 <= j < k < text.len() && is_letter(#[trigger] text[j]) ==> !is_digit(
                #[trigger] text[k],
            ),
{
    if single(text) {
        assert forall|j: int, k: int|
            0 <= j < k < text.len() && is_letter(#[trigger] text[j]) implies !is_digit(
            #[trigger] text[k],
        ) by {
            if is_digit(text[k]) {
                lemma_digit_after_letter(text, j, k);
            }
        }
    } else {
        let k = choose|k: int| 0 <= k < text.len() && #[trigger] starts_number(text, k);
        lemma_after_unit(text, k);
        let j = choose|j: int| 0 <= j < k && is_letter(#[trigger] text[j]);
        assert(is_letter(text[j]) && is_digit(text[k]));
    }
}

proof fn lemma_prefix(a: Seq<char>, b: Seq<char>, n: int)
    requires
        0 <= n <= a.len(),
    ensures
        after_unit(a + b, n) == after_unit(a, n),
        number_start(a + b, n) == number_start(a, n),
        0 <= number_start(a, n) <= n,
        sum_before(a + b, n) == sum_before(a, n),
    decreases n,
{
    if n > 0 {
        lemma_prefix(a, b, n - 1);
        assert((a + b)[n - 1] == a[n - 1]);
        let start = number_start(a, n - 1);
        assert((a + b).subrange(start, n - 1) =~= a.subrange(start, n - 1));
    }
}

proof fn lemma_suffix(a: Seq<char>, b: Seq<char>, n: int)
    requires
        0 < n <= b.len(),
        is_digit(b[0]),
        single(b),
        after_unit(a, a.len() as int),
    ensures
        after_unit(a + b, a.len() + n) == after_unit(b, n),
        number_start(a + b, a.len() + n) == a.len(),
        sum_before(a + b, a.len() + n) == sum_of(a),
    decreases n,
{
    let all = a + b;
    let len = a.len() as int;
    assert(all[len + n - 1] == b[n - 1]);
    if n == 1 {
        lemma_prefix(a, b, len);
        assert(starts_number(all, len));
        assert(all.subrange(number_start(a, len), len) =~= a.subrange(
            number_start(a, len),
            len,
        ));
        assert(!after_unit(all, len + 1));
    } else {
        lemma_suffix(a, b, n - 1);
        assert(!starts_number(b, n - 1));
        assert(!starts_number(all, len + n - 1));
    }
}

/// Numbers add up: a text of numbers with one more behind it comes to what it came to and that
/// one together, and to nothing where either cannot be read.
pub proof fn law_numbers_add_up(a: Seq<char>, b: Seq<char>)
    requires
        after_unit(a, a.len() as int),
        single(b),
        b.len() > 0,
        is_digit(b[0]),
    ensures
        sum_of(a + b) == match (sum_of(a), duration_of(b)) {
            (Some(sum), Some(span)) => Some(
                (sum + span.secs * 1_000_000_000 + span.nanos) as nat,
            ),
            _ => None,
        },
{
    lemma_suffix(a, b, b.len() as int);
    assert((a + b).subrange(a.len() as int, (a + b).len() as int) =~= b);
}

/// A single number is what it reads as. Several are what the whole text reads as where each
/// can be read and they come to less than 2^64 seconds, and nothing else.
pub proof fn law_spans(text: Seq<char>)
    ensures
        single(text) ==> span_of(text) == duration_of(text),
        single(text) ==> sum_of(text) == match duration_of(text) {
            Some(span) => Some((span.secs * 1_000_000_000 + span.nanos) as nat),
            None => None,
        },
        !single(text) ==> (if sum_of(text) matches Some(sum) && sum
            < 0x1_0000_0000_0000_0000 * 1_000_000_000 {
            span_of(text) == duration_of(text)
        } else {
            span_of(text) is None
        }),
{
    if single(text) {
        lemma_single_sum(text, text.len() as int);
        assert(text.subrange(0, text.len() as int) =~= text);
    }
}

proof fn lemma_single_sum(text: Seq<char>, n: int)
    requires
        single(text),
        0 <= n <= text.len(),
    ensures
        number_start(text, n) == 0,
        sum_before(text, n) == Some(0nat),
    decreases n,
{
    if n > 0 {
        assert(!starts_number(text, n - 1));
        lemma_single_sum(text, n - 1);
    }
}

} // verus!
