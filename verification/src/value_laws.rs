//! What the values of rows mean: numbers, texts, UUIDs, arrays and timestamps.

use crate::array::array_plan;
use crate::client::{cubes_view, rows_view, Entry, Grid, NumericArray, Stamp};
use crate::json::{double_text, is_number, json_text, lookup, truncated, Value};
use crate::mapping::{micros_stamp, stamp_number, symbol_text, wrapped, Mapping};
use crate::row::row_end;
use crate::text::{ascii_lower, decimal, lowered, signed_decimal};
use crate::timestamp::{clamped, TimestampSource, TimestampUnit};
use crate::uuid::{hex_number, hex_value, is_hex, is_uuid, undashed, uuid_halves};
use simd_json::StaticNode;
use vstd::prelude::*;
use vstd::string::*;

verus! {

/// The number that a text of decimal digits reads.
pub open spec fn digits_value(text: Seq<char>) -> int
    decreases text.len(),
{
    if text.len() == 0 {
        0
    } else {
        digits_value(text.drop_last()) * 10 + (text.last() as int - 48)
    }
}

/// Whether a text is a decimal number without needless zeros.
pub open spec fn is_decimal(text: Seq<char>) -> bool {
    &&& text.len() > 0
    &&& forall|i: int| 0 <= i < text.len() ==> 48 <= (#[trigger] text[i]) as int <= 57
    &&& text.len() > 1 ==> text[0] as int != 48
}

/// A number is written in decimal digits that read as it.
pub proof fn law_decimal_reads_back(n: nat)
    ensures
        is_decimal(decimal(n)),
        digits_value(decimal(n)) == n,
    decreases n,
{
    if n < 10 {
        let text = decimal(n);
        assert(text.len() == 1);
        assert(text.drop_last() =~= seq![]);
        assert(text.last() as int == n + 48);
        reveal_with_fuel(digits_value, 2);
    } else {
        law_decimal_reads_back(n / 10);
        let init = decimal(n / 10);
        let text = decimal(n);
        assert(text.drop_last() =~= init);
        assert(text.last() as int == n % 10 + 48);
        assert forall|i: int| 0 <= i < text.len() implies 48 <= (#[trigger] text[i]) as int
            <= 57 by {
            if i < init.len() {
                assert(text[i] == init[i]);
            }
        }
        assert(text[0] == init[0]);
        if init.len() == 1 {
            assert(init.drop_last() =~= seq![]);
            reveal_with_fuel(digits_value, 2);
            assert(init[0] as int - 48 == n / 10);
        }
    }
}

/// A negative number is written as a minus sign and its magnitude, any other one as that
/// alone.
pub proof fn law_signed_decimal(n: int)
    ensures
        n >= 0 ==> is_decimal(signed_decimal(n)) && digits_value(signed_decimal(n)) == n,
        n < 0 ==> {
            &&& signed_decimal(n)[0] == '-'
            &&& is_decimal(signed_decimal(n).skip(1))
            &&& digits_value(signed_decimal(n).skip(1)) == -n
        },
{
    if n < 0 {
        reveal_strlit("-");
        law_decimal_reads_back((-n) as nat);
        assert(signed_decimal(n).skip(1) =~= decimal((-n) as nat));
    } else {
        law_decimal_reads_back(n as nat);
    }
}

/// Making a text small moves each ASCII capital to the letter 32 places on and keeps every
/// other character.
pub proof fn law_lowered(text: Seq<char>, i: int)
    requires
        0 <= i < text.len(),
    ensures
        lowered(text).len() == text.len(),
        65 <= text[i] as int <= 90 ==> lowered(text)[i] as int == text[i] as int + 32,
        !(65 <= text[i] as int <= 90) ==> lowered(text)[i] == text[i],
{
    assert(lowered(text)[i] == ascii_lower(text[i]));
}

/// The hexadecimal digits are the ten decimal ones and the letters from a to f in either
/// case, and stand for their places in that order.
pub proof fn law_hex_digits(c: char)
    ensures
        is_hex(c) <==> (48 <= c as int <= 57 || 97 <= c as int <= 102 || 65 <= c as int <= 70),
        48 <= c as int <= 57 ==> hex_value(c) == c as int - 48,
        97 <= c as int <= 102 ==> hex_value(c) == c as int - 87,
        65 <= c as int <= 70 ==> hex_value(c) == c as int - 55,
{
}

/// A further digit moves the number up by one hexadecimal place.
pub proof fn law_hex_number_grows(digits: Seq<char>, c: char)
    ensures
        hex_number(seq![]) == 0,
        hex_number(digits.push(c)) == 16 * hex_number(digits) + hex_value(c),
{
    assert(digits.push(c).drop_last() =~= digits);
}

/// Leaving the dashes out goes character by character: a dash is dropped and any other
/// character kept, in order.
pub proof fn law_undashed_by_character(text: Seq<char>, c: char)
    ensures
        undashed(seq![]) == Seq::<char>::empty(),
        c == '-' ==> undashed(text.push(c)) == undashed(text),
        c != '-' ==> undashed(text.push(c)) == undashed(text).push(c),
{
    reveal(Seq::filter);
    assert(text.push(c).drop_last() =~= text);
    assert(undashed(seq![]) =~= Seq::<char>::empty());
}

/// A text is a UUID just where it has 32 characters besides its dashes, all of them
/// hexadecimal digits.
pub proof fn law_uuid_is_32_digits(text: Seq<char>)
    ensures
        is_uuid(text) <==> undashed(text).len() == 32 && forall|i: int|
            0 <= i < undashed(text).len() ==> is_hex(#[trigger] undashed(text)[i]),
{
}

/// The more significant half of a UUID is its first sixteen digits, the other one the rest.
pub proof fn law_uuid_halves_are_read_in_order(text: Seq<char>, high: Seq<char>, low: Seq<char>)
    requires
        undashed(text) == high + low,
        high.len() == 16,
        low.len() == 16,
    ensures
        uuid_halves(text) == (hex_number(low), hex_number(high)),
{
    assert((high + low).take(16) =~= high);
    assert((high + low).skip(16) =~= low);
}

/// `n` with its 64 bits as a signed number: the same number up to a multiple of 2^64.
pub proof fn law_wrapped_keeps_bits(n: u64)
    ensures
        n <= i64::MAX ==> wrapped(n) == n,
        n > i64::MAX ==> wrapped(n) == n - 0x1_0000_0000_0000_0000,
{
}

/// Holding a number to the range of an `i64` gives the nearest one of that range.
pub proof fn law_clamped_is_nearest(n: int, other: i64)
    ensures
        i64::MIN <= n <= i64::MAX ==> clamped(n) == n,
        n > i64::MAX ==> clamped(n) >= other,
        n < i64::MIN ==> clamped(n) <= other,
{
}

/// What a value of a unit comes to in nanoseconds, where that fits, and where it does not
/// the end of the range on its side.
pub proof fn law_units(value: int)
    ensures
        TimestampUnit::Seconds.nanos(value) == clamped(value * 1_000_000_000),
        TimestampUnit::Millis.nanos(value) == clamped(value * 1_000_000),
        TimestampUnit::Micros.nanos(value) == clamped(value * 1_000),
        TimestampUnit::Nanos.nanos(value) == clamped(value),
{
}

/// `Auto` goes by the size of a value alone: seconds below 10^11, milliseconds below 10^14,
/// microseconds below 10^17, and nanoseconds from there on, on both sides of zero.
pub proof fn law_auto_goes_by_magnitude(value: int)
    ensures
        -100_000_000_000 < value < 100_000_000_000 ==> TimestampUnit::Auto.nanos(value)
            == TimestampUnit::Seconds.nanos(value),
        100_000_000_000 <= value < 100_000_000_000_000 || -100_000_000_000_000 < value
            <= -100_000_000_000 ==> TimestampUnit::Auto.nanos(value)
            == TimestampUnit::Millis.nanos(value),
        100_000_000_000_000 <= value < 100_000_000_000_000_000 || -100_000_000_000_000_000 < value
            <= -100_000_000_000_000 ==> TimestampUnit::Auto.nanos(value)
            == TimestampUnit::Micros.nanos(value),
        value >= 100_000_000_000_000_000 || value <= -100_000_000_000_000_000
            ==> TimestampUnit::Auto.nanos(value) == TimestampUnit::Nanos.nanos(value),
{
}

/// From March 1973 on, `Auto` reads an instant in any unit as that instant, to the tick.
pub proof fn law_auto_reads_every_instant(instant: int)
    requires
        100_000_000_000_000_000 <= instant <= i64::MAX,
    ensures
        TimestampUnit::Auto.nanos(instant / 1_000_000_000) == (instant / 1_000_000_000)
            * 1_000_000_000,
        TimestampUnit::Auto.nanos(instant / 1_000_000) == (instant / 1_000_000) * 1_000_000,
        TimestampUnit::Auto.nanos(instant / 1_000) == (instant / 1_000) * 1_000,
        TimestampUnit::Auto.nanos(instant) == instant,
{
    law_auto_goes_by_magnitude(instant / 1_000_000_000);
    law_auto_goes_by_magnitude(instant / 1_000_000);
    law_auto_goes_by_magnitude(instant / 1_000);
    law_auto_goes_by_magnitude(instant);
}

/// Each source is known by its own name, in any case of letters, and by no other. Naming the
/// message timestamp is the same as naming none.
pub proof fn law_source_names(name: Seq<char>)
    ensures
        TimestampSource::named(Some(name)) == Some(TimestampSource::Message) <==> lowered(name)
            == "message"@,
        TimestampSource::named(Some(name)) == Some(TimestampSource::Origin) <==> lowered(name)
            == "origin"@,
        TimestampSource::named(Some(name)) == Some(TimestampSource::Payload) <==> lowered(name)
            == "payload"@,
        TimestampSource::named(Some(name)) == Some(TimestampSource::Server) <==> lowered(name)
            == "server"@,
        TimestampSource::named(None) == Some(TimestampSource::Message),
{
    reveal_strlit("message");
    reveal_strlit("origin");
    reveal_strlit("payload");
    reveal_strlit("server");
    assert("message"@[0] == 'm');
    assert("origin"@[0] == 'o');
    assert("payload"@[0] == 'p');
    assert("server"@[0] == 's');
}

/// The documented names stand for their sources as they are written.
pub proof fn law_documented_source_names()
    ensures
        TimestampSource::named(Some("message"@)) == Some(TimestampSource::Message),
        TimestampSource::named(Some("origin"@)) == Some(TimestampSource::Origin),
        TimestampSource::named(Some("payload"@)) == Some(TimestampSource::Payload),
        TimestampSource::named(Some("server"@)) == Some(TimestampSource::Server),
        TimestampSource::named(Some("message"@)) == TimestampSource::named(None),
{
    law_source_names("message"@);
    law_source_names("origin"@);
    law_source_names("payload"@);
    law_source_names("server"@);
    reveal_strlit("message");
    reveal_strlit("origin");
    reveal_strlit("payload");
    reveal_strlit("server");
    assert(lowered("message"@) =~= "message"@);
    assert(lowered("origin"@) =~= "origin"@);
    assert(lowered("payload"@) =~= "payload"@);
    assert(lowered("server"@) =~= "server"@);
}

/// Each unit is known by its own names, in any case of letters, and by no others. Naming
/// `auto` is the same as naming none.
pub proof fn law_unit_names(name: Seq<char>)
    ensures
        TimestampUnit::named(Some(name)) == Some(TimestampUnit::Auto) <==> lowered(name)
            == "auto"@,
        TimestampUnit::named(Some(name)) == Some(TimestampUnit::Seconds) <==> lowered(name)
            == "seconds"@ || lowered(name) == "s"@,
        TimestampUnit::named(Some(name)) == Some(TimestampUnit::Millis) <==> lowered(name)
            == "millis"@ || lowered(name) == "ms"@,
        TimestampUnit::named(Some(name)) == Some(TimestampUnit::Micros) <==> lowered(name)
            == "micros"@ || lowered(name) == "us"@,
        TimestampUnit::named(Some(name)) == Some(TimestampUnit::Nanos) <==> lowered(name)
            == "nanos"@ || lowered(name) == "ns"@,
        TimestampUnit::named(None) == Some(TimestampUnit::Auto),
{
    reveal_strlit("auto");
    reveal_strlit("seconds");
    reveal_strlit("s");
    reveal_strlit("millis");
    reveal_strlit("ms");
    reveal_strlit("micros");
    reveal_strlit("us");
    reveal_strlit("nanos");
    reveal_strlit("ns");
    assert("auto"@.len() == 4 && "seconds"@.len() == 7 && "s"@.len() == 1);
    assert("millis"@.len() == 6 && "micros"@.len() == 6 && "nanos"@.len() == 5);
    assert("millis"@[2] == 'l' && "micros"@[2] == 'c');
    assert("ms"@.len() == 2 && "us"@.len() == 2 && "ns"@.len() == 2);
    assert("ms"@[0] == 'm' && "us"@[0] == 'u' && "ns"@[0] == 'n');
}

/// The documented names stand for their units as they are written.
pub proof fn law_documented_unit_names()
    ensures
        TimestampUnit::named(Some("auto"@)) == Some(TimestampUnit::Auto),
        TimestampUnit::named(Some("seconds"@)) == Some(TimestampUnit::Seconds),
        TimestampUnit::named(Some("millis"@)) == Some(TimestampUnit::Millis),
        TimestampUnit::named(Some("micros"@)) == Some(TimestampUnit::Micros),
        TimestampUnit::named(Some("nanos"@)) == Some(TimestampUnit::Nanos),
        TimestampUnit::named(Some("auto"@)) == TimestampUnit::named(None),
{
    law_unit_names("auto"@);
    law_unit_names("seconds"@);
    law_unit_names("millis"@);
    law_unit_names("micros"@);
    law_unit_names("nanos"@);
    reveal_strlit("auto");
    reveal_strlit("seconds");
    reveal_strlit("millis");
    reveal_strlit("micros");
    reveal_strlit("nanos");
    assert(lowered("auto"@) =~= "auto"@);
    assert(lowered("seconds"@) =~= "seconds"@);
    assert(lowered("millis"@) =~= "millis"@);
    assert(lowered("micros"@) =~= "micros"@);
    assert(lowered("nanos"@) =~= "nanos"@);
}

/// A boolean is the text of a symbol as `true` or `false`.
pub proof fn law_boolean_symbol(flag: bool)
    ensures
        symbol_text(Value::Static(StaticNode::Bool(flag))) == Some(
            if flag {
                seq!['t', 'r', 'u', 'e']
            } else {
                seq!['f', 'a', 'l', 's', 'e']
            },
        ),
{
    reveal_strlit("true");
    reveal_strlit("false");
    assert("true"@ =~= seq!['t', 'r', 'u', 'e']);
    assert("false"@ =~= seq!['f', 'a', 'l', 's', 'e']);
}

/// An integer is the text of a symbol as its decimal digits, which read back as it.
pub proof fn law_integer_symbol(signed: i64, unsigned: u64)
    ensures
        symbol_text(Value::Static(StaticNode::I64(signed))) matches Some(text) && (if signed < 0 {
            &&& text[0] == '-'
            &&& is_decimal(text.skip(1))
            &&& digits_value(text.skip(1)) == -signed
        } else {
            is_decimal(text) && digits_value(text) == signed
        }),
        symbol_text(Value::Static(StaticNode::U64(unsigned))) matches Some(text) && is_decimal(
            text,
        ) && digits_value(text) == unsigned,
{
    law_signed_decimal(signed as int);
    law_decimal_reads_back(unsigned as nat);
}

/// A string is the text of a symbol as it is, a double as its text, and null, arrays and
/// objects are none.
pub proof fn law_other_symbols(value: Value)
    ensures
        value matches Value::String(text) ==> symbol_text(value) == Some(text@),
        value matches Value::Static(node) ==> (node is F64 ==> symbol_text(value) == Some(
            double_text(node),
        )),
        value == Value::Static(StaticNode::Null) ==> symbol_text(value) is None,
        value is Array || value is Object ==> symbol_text(value) is None,
{
}

/// An integer of the signed range is the timestamp that it reads, a double is cut to one, and
/// nothing else is a timestamp.
pub proof fn law_timestamp_numbers(value: Value)
    ensures
        value matches Value::Static(StaticNode::I64(n)) ==> stamp_number(value) == Some(n),
        value matches Value::Static(StaticNode::U64(n)) ==> (if n <= i64::MAX {
            stamp_number(value) == Some(n as i64)
        } else {
            stamp_number(value) is None
        }),
        value matches Value::Static(node) ==> (node is F64 ==> stamp_number(value) == Some(
            truncated(node),
        )),
        value matches Value::Static(node) ==> (node is Bool || node is Null ==> stamp_number(
            value,
        ) is None),
        value is String || value is Array || value is Object ==> stamp_number(value) is None,
{
}

/// A message timestamp is kept to the microsecond; zero is none and is left to the server.
pub proof fn law_message_stamp(micros: u64)
    ensures
        micros == 0 ==> row_end(micros_stamp(micros)) == Entry::AtNow,
        0 < micros <= i64::MAX ==> row_end(micros_stamp(micros)) == Entry::At(
            Stamp::Micros(micros as i64),
        ),
        micros > i64::MAX ==> row_end(micros_stamp(micros)) == Entry::At(
            Stamp::Micros((micros - 0x1_0000_0000_0000_0000) as i64),
        ),
{
}

/// The first field of a name is the one that is found, and one is found where there is one.
pub proof fn law_lookup_finds_first(fields: Seq<(String, Value)>, name: Seq<char>, at: int)
    requires
        0 <= at < fields.len(),
        fields[at].0@ == name,
        forall|i: int| 0 <= i < at ==> (#[trigger] fields[i]).0@ != name,
    ensures
        lookup(fields, name) == Some(fields[at].1),
    decreases at,
{
    if at > 0 {
        let rest = fields.drop_first();
        assert(fields[0].0@ != name);
        assert forall|i: int| 0 <= i < at - 1 implies (#[trigger] rest[i]).0@ != name by {
            assert(rest[i] == fields[i + 1]);
        }
        assert(rest[at - 1] == fields[at]);
        law_lookup_finds_first(rest, name, at - 1);
    }
}

/// No field is found where none has the name.
pub proof fn law_lookup_finds_nothing_else(fields: Seq<(String, Value)>, name: Seq<char>)
    requires
        forall|i: int| 0 <= i < fields.len() ==> (#[trigger] fields[i]).0@ != name,
    ensures
        lookup(fields, name) is None,
    decreases fields.len(),
{
    if fields.len() > 0 {
        let rest = fields.drop_first();
        assert(fields[0].0@ != name);
        assert forall|i: int| 0 <= i < rest.len() implies (#[trigger] rest[i]).0@ != name by {
            assert(rest[i] == fields[i + 1]);
        }
        law_lookup_finds_nothing_else(rest, name);
    }
}

/// What an array column holds is what it was given, number by number.
pub proof fn law_array_view(array: NumericArray)
    ensures
        array matches NumericArray::One(values) ==> array@ == Grid::One(values@),
        array matches NumericArray::Two(rows) ==> (array@ matches Grid::Two(grid) && grid.len()
            == rows@.len() && forall|i: int|
            0 <= i < grid.len() ==> (#[trigger] grid[i]) == rows@[i]@),
        array matches NumericArray::Three(cubes) ==> (array@ matches Grid::Three(grid)
            && grid.len() == cubes@.len() && forall|i: int|
            0 <= i < grid.len() ==> (#[trigger] grid[i]).len() == cubes@[i]@.len() && forall|j: int|
                0 <= j < grid[i].len() ==> (#[trigger] grid[i][j]) == cubes@[i]@[j]@),
{
    match array {
        NumericArray::Three(cubes) => {
            assert forall|i: int| 0 <= i < cubes@.len() implies (#[trigger] cubes_view(
                cubes@,
            )[i]).len() == cubes@[i]@.len() && forall|j: int|
                0 <= j < cubes_view(cubes@)[i].len() ==> (#[trigger] cubes_view(cubes@)[i][j])
                    == cubes@[i]@[j]@ by {
                assert(cubes_view(cubes@)[i] == rows_view(cubes@[i]@));
            }
        },
        _ => {},
    }
}

/// Whether `items` are the numbers `nodes`, in the same order.
pub open spec fn mirrors(items: Seq<Value>, nodes: Seq<StaticNode>) -> bool {
    &&& items.len() == nodes.len()
    &&& forall|i: int|
        0 <= i < items.len() ==> (#[trigger] items[i]) == Value::Static(nodes[i]) && (
        nodes[i] is I64 || nodes[i] is U64 || nodes[i] is F64)
}

/// Whether `items` are arrays of the numbers in `rows`, in the same order.
pub open spec fn mirrors_rows(items: Seq<Value>, rows: Seq<Seq<StaticNode>>) -> bool {
    &&& items.len() == rows.len()
    &&& forall|i: int|
        0 <= i < items.len() ==> ((#[trigger] items[i]) matches Value::Array(inner) && mirrors(
            inner@,
            rows[i],
        ))
}

/// Whether `items` are arrays of arrays of the numbers in `layers`, in the same order.
pub open spec fn mirrors_layers(items: Seq<Value>, layers: Seq<Seq<Seq<StaticNode>>>) -> bool {
    &&& items.len() == layers.len()
    &&& forall|i: int|
        0 <= i < items.len() ==> ((#[trigger] items[i]) matches Value::Array(inner)
            && mirrors_rows(inner@, layers[i]))
}

proof fn lemma_flat(items: Seq<Value>, nodes: Seq<StaticNode>)
    requires
        mirrors(items, nodes),
    ensures
        crate::array::flat(items) == Some(nodes),
{
    assert forall|i: int| 0 <= i < items.len() implies crate::array::number_of(
        #[trigger] items[i],
    ) == Some(nodes[i]) by {}
    assert(crate::array::flat(items)->0 =~= nodes);
}

proof fn lemma_rows(items: Seq<Value>, rows: Seq<Seq<StaticNode>>)
    requires
        mirrors_rows(items, rows),
    ensures
        crate::array::rows_of(items) == Some(rows),
{
    assert forall|i: int| 0 <= i < items.len() implies crate::array::row_of(#[trigger] items[i])
        == Some(rows[i]) by {
        match items[i] {
            Value::Array(inner) => {
                lemma_flat(inner@, rows[i]);
            },
            _ => {},
        }
    }
    assert(crate::array::rows_of(items)->0 =~= rows);
}

proof fn lemma_layers(items: Seq<Value>, layers: Seq<Seq<Seq<StaticNode>>>)
    requires
        mirrors_layers(items, layers),
    ensures
        crate::array::layers_of(items) == Some(layers),
{
    assert forall|i: int| 0 <= i < items.len() implies crate::array::layer_of(#[trigger] items[i])
        == Some(layers[i]) by {
        match items[i] {
            Value::Array(inner) => {
                lemma_rows(inner@, layers[i]);
            },
            _ => {},
        }
    }
    assert(crate::array::layers_of(items)->0 =~= layers);
}

/// A flat array of numbers is one array cell with just these numbers.
pub proof fn law_flat_array_is_kept(name: Seq<char>, items: Seq<Value>, nodes: Seq<StaticNode>)
    requires
        mirrors(items, nodes),
    ensures
        array_plan(name, items).invalid is None,
        array_plan(name, items).entries == seq![Entry::Array(name, Grid::One(nodes))],
{
    lemma_flat(items, nodes);
    if items.len() > 0 {
        assert(items[0] == Value::Static(nodes[0]));
    }
}

/// An array of arrays of numbers is one array cell with just these rows.
pub proof fn law_nested_array_is_kept(
    name: Seq<char>,
    items: Seq<Value>,
    rows: Seq<Seq<StaticNode>>,
)
    requires
        mirrors_rows(items, rows),
        items.len() > 0,
    ensures
        array_plan(name, items).invalid is None,
        array_plan(name, items).entries == seq![Entry::Array(name, Grid::Two(rows))],
{
    lemma_rows(items, rows);
    let inner = items[0]->Array_0;
    assert(mirrors(inner@, rows[0]));
    if inner@.len() > 0 {
        assert(inner@[0] == Value::Static(rows[0][0]));
    }
    assert(crate::array::depth(inner@) == 1);
}

/// An array of arrays of arrays of numbers is one array cell with just these layers.
pub proof fn law_deeply_nested_array_is_kept(
    name: Seq<char>,
    items: Seq<Value>,
    layers: Seq<Seq<Seq<StaticNode>>>,
)
    requires
        mirrors_layers(items, layers),
        items.len() > 0,
        layers[0].len() > 0,
    ensures
        array_plan(name, items).invalid is None,
        array_plan(name, items).entries == seq![Entry::Array(name, Grid::Three(layers))],
{
    lemma_layers(items, layers);
    let inner = items[0]->Array_0;
    assert(mirrors_rows(inner@, layers[0]));
    let innermost = inner@[0]->Array_0;
    assert(mirrors(innermost@, layers[0][0]));
    if innermost@.len() > 0 {
        assert(innermost@[0] == Value::Static(layers[0][0][0]));
    }
    assert(crate::array::depth(innermost@) == 1);
    assert(crate::array::depth(inner@) == 2);
}

/// Whether the first items of `items` nest to a fourth level.
pub open spec fn nests_too_deep(items: Seq<Value>) -> bool {
    &&& items.len() > 0
    &&& items[0] matches Value::Array(second)
    &&& second@.len() > 0
    &&& second@[0] matches Value::Array(third)
    &&& third@.len() > 0
    &&& third@[0] is Array
}

/// An array is stored only as what it holds: one cell whose numbers are its items, in shape
/// and order. Else it is invalid, for its depth where its first items nest to a fourth level,
/// and for what it holds where they do not.
pub proof fn law_array_is_kept_or_invalid(name: Seq<char>, items: Seq<Value>)
    ensures
        nests_too_deep(items) ==> array_plan(name, items).invalid == Some(
            "column "@ + name + " exceeds the supported array nesting depth of 3"@,
        ),
        array_plan(name, items).invalid is Some && !nests_too_deep(items) ==> array_plan(
            name,
            items,
        ).invalid == Some("column "@ + name + " is not a numeric array"@),
        array_plan(name, items).invalid is Some ==> array_plan(name, items).entries.len() == 0,
        array_plan(name, items).invalid is None ==> {
            &&& array_plan(name, items).entries.len() == 1
            &&& array_plan(name, items).entries[0] matches Entry::Array(column, grid)
            &&& column == name
            &&& match grid {
                Grid::One(nodes) => mirrors(items, nodes),
                Grid::Two(rows) => mirrors_rows(items, rows),
                Grid::Three(layers) => mirrors_layers(items, layers),
            }
        },
{
    reveal_with_fuel(crate::array::depth, 5);
    if array_plan(name, items).invalid is None {
        match crate::array::grid_of(items)->0 {
            Grid::One(nodes) => {
                lemma_flat_mirrors(items, nodes);
            },
            Grid::Two(rows) => {
                lemma_rows_mirror(items, rows);
            },
            Grid::Three(layers) => {
                assert forall|i: int| 0 <= i < items.len() implies ((#[trigger] items[i]) matches
                    Value::Array(inner) && mirrors_rows(inner@, layers[i])) by {
                    assert(crate::array::layer_of(items[i]) is Some);
                    assert(layers[i] == crate::array::layer_of(items[i])->0);
                    lemma_rows_mirror(items[i]->Array_0@, layers[i]);
                }
            },
        }
    }
}

proof fn lemma_flat_mirrors(items: Seq<Value>, nodes: Seq<StaticNode>)
    requires
        crate::array::flat(items) == Some(nodes),
    ensures
        mirrors(items, nodes),
{
    assert forall|i: int| 0 <= i < items.len() implies (#[trigger] items[i]) == Value::Static(
        nodes[i],
    ) && (nodes[i] is I64 || nodes[i] is U64 || nodes[i] is F64) by {
        assert(crate::array::number_of(items[i]) is Some);
        assert(nodes[i] == crate::array::number_of(items[i])->0);
    }
}

proof fn lemma_rows_mirror(items: Seq<Value>, rows: Seq<Seq<StaticNode>>)
    requires
        crate::array::rows_of(items) == Some(rows),
    ensures
        mirrors_rows(items, rows),
{
    assert forall|i: int| 0 <= i < items.len() implies ((#[trigger] items[i]) matches Value::Array(
        inner,
    ) && mirrors(inner@, rows[i])) by {
        assert(crate::array::row_of(items[i]) is Some);
        assert(rows[i] == crate::array::row_of(items[i])->0);
        lemma_flat_mirrors(items[i]->Array_0@, rows[i]);
    }
}

/// Just integers and doubles are numbers.
pub proof fn law_numbers(node: StaticNode)
    ensures
        is_number(node) <==> !(node is Bool) && !(node is Null),
{
}

/// A boolean field is one `BOOLEAN` cell with its own value.
pub proof fn law_boolean_field(mapping: Mapping, name: Seq<char>, flag: bool)
    requires
        !mapping.names_timestamp(name),
        !mapping.symbol_columns@.contains(name),
    ensures
        mapping.field_plan(name, Value::Static(StaticNode::Bool(flag))).invalid is None,
        mapping.field_plan(name, Value::Static(StaticNode::Bool(flag))).entries == seq![
            Entry::Bool(name, flag),
        ],
{
}

/// An integer field is one `LONG` cell with its own value, or past the signed range one
/// `DOUBLE` cell of that number; a double is one `DOUBLE` cell.
pub proof fn law_number_field(mapping: Mapping, name: Seq<char>, node: StaticNode)
    requires
        !mapping.names_timestamp(name),
        !mapping.symbol_columns@.contains(name),
        node is I64 || node is U64 || node is F64,
    ensures
        mapping.field_plan(name, Value::Static(node)).invalid is None,
        mapping.field_plan(name, Value::Static(node)).entries.len() == 1,
        ({
            let cell = mapping.field_plan(name, Value::Static(node)).entries[0];
            &&& node matches StaticNode::I64(n) ==> cell == Entry::Long(name, n)
            &&& node matches StaticNode::U64(n) ==> (if n <= i64::MAX {
                cell matches Entry::Long(column, value) && column == name && value == n
            } else {
                cell == Entry::Double(name, node)
            })
            &&& node is F64 ==> cell == Entry::Double(name, node)
        }),
{
}

/// A string field is one `VARCHAR` cell with its own characters, or where it is listed as a
/// UUID one `UUID` cell whose halves make up the number of its digits. A listed one that is
/// none is invalid and named.
pub proof fn law_string_field(mapping: Mapping, name: Seq<char>, text: String)
    requires
        !mapping.names_timestamp(name),
        !mapping.symbol_columns@.contains(name),
    ensures
        ({
            let plan = mapping.field_plan(name, Value::String(text));
            if !mapping.uuid_columns@.contains(name) {
                plan.invalid is None && plan.entries == seq![Entry::Text(name, text@)]
            } else if is_uuid(text@) {
                &&& plan.invalid is None
                &&& plan.entries.len() == 1
                &&& plan.entries[0] matches Entry::Uuid(column, lo, hi)
                &&& column == name
                &&& hi * 0x1_0000_0000_0000_0000 + lo == hex_number(undashed(text@))
            } else {
                &&& plan.entries.len() == 0
                &&& plan.invalid == Some("column "@ + name + " is not a valid UUID"@)
            }
        }),
{
    if is_uuid(text@) {
        crate::laws::law_uuid_halves(text@);
    }
}

/// An array field gives what its items give, listed as a symbol or not.
pub proof fn law_array_field(mapping: Mapping, name: Seq<char>, items: Vec<Value>)
    requires
        !mapping.names_timestamp(name),
    ensures
        mapping.field_plan(name, Value::Array(items)) == array_plan(name, items@),
{
}

/// An object field is one `VARCHAR` cell with its JSON text, listed as a symbol or not. One
/// without such a text is invalid and named.
pub proof fn law_object_field(mapping: Mapping, name: Seq<char>, object: simd_json::OwnedValue)
    requires
        !mapping.names_timestamp(name),
    ensures
        ({
            let plan = mapping.field_plan(name, Value::Object(object));
            match json_text(object) {
                Some(text) => plan.invalid is None && plan.entries == seq![
                    Entry::Text(name, text),
                ],
                None => plan.entries.len() == 0 && plan.invalid == Some(
                    "column "@ + name + " is not serializable"@,
                ),
            }
        }),
{
}

/// A null field gives no cell of any kind, and is not invalid.
pub proof fn law_null_field(mapping: Mapping, name: Seq<char>)
    ensures
        mapping.field_plan(name, Value::Static(StaticNode::Null)).entries.len() == 0,
        mapping.field_plan(name, Value::Static(StaticNode::Null)).invalid is None,
        mapping.symbol_plan(name, Value::Static(StaticNode::Null)).entries.len() == 0,
        mapping.symbol_plan(name, Value::Static(StaticNode::Null)).invalid is None,
{
}

/// The field that the timestamp is read from is known by its name, and only where the
/// timestamp is read from the payload.
pub proof fn law_timestamp_field(mapping: Mapping, name: Seq<char>)
    ensures
        mapping.timestamp_source != TimestampSource::Payload ==> !mapping.names_timestamp(name),
        mapping.timestamp_field is None ==> !mapping.names_timestamp(name),
        mapping.timestamp_source == TimestampSource::Payload
            && mapping.timestamp_field is Some ==> (mapping.names_timestamp(name) <==> (
        mapping.timestamp_field->0)@ == name),
{
}

/// A scalar that is listed is one symbol with its own text and no column, and no field is a
/// symbol that is not listed or that is the timestamp.
pub proof fn law_symbol_field(mapping: Mapping, name: Seq<char>, value: Value)
    ensures
        ({
            let plan = mapping.symbol_plan(name, value);
            let listed = mapping.symbol_columns@.contains(name) && !mapping.names_timestamp(name);
            &&& plan.invalid is None
            &&& !listed ==> plan.entries.len() == 0
            &&& listed ==> (symbol_text(value) matches Some(text) ==> plan.entries == seq![
                Entry::Symbol(name, text),
            ] && mapping.field_plan(name, value).entries.len() == 0)
            &&& symbol_text(value) is None ==> plan.entries.len() == 0
        }),
{
}

} // verus!
