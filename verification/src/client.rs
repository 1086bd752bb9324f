//! The QuestDB client: its errors, and the row buffer that it sends.

use crate::json::is_number;
use crate::text::lowered;
use questdb::ingress::{Buffer, TimestampMicros, TimestampNanos};
use questdb::ErrorCode;
use simd_json::prelude::ValueAsScalar;
use simd_json::StaticNode;
use vstd::prelude::*;
use vstd::utf8::is_ascii_chars;

verus! {

/// `questdb::ErrorCode`: what kind of failure the client reports.
#[verifier::external_type_specification]
pub struct ExErrorCode(questdb::ErrorCode);

/// `questdb::Error`: a failure that the client reports.
#[verifier::external_type_specification]
#[verifier::external_body]
pub struct ExError(questdb::Error);

/// `questdb::ingress::Buffer`: the rows that the client is to send.
#[verifier::external_type_specification]
#[verifier::external_body]
pub struct ExBuffer(questdb::ingress::Buffer);

/// The code of a client error.
pub uninterp spec fn error_code(error: questdb::Error) -> ErrorCode;

/// `questdb::Error::code` gives the code that the error carries.
pub assume_specification[ questdb::Error::code ](error: &questdb::Error) -> (r: ErrorCode)
    ensures
        r == error_code(*error),
;

/// The message of a client error, which is also how the error is displayed.
pub uninterp spec fn error_message(error: questdb::Error) -> Seq<char>;

/// `questdb::Error::msg` gives the message that the error carries.
pub assume_specification[ questdb::Error::msg ](error: &questdb::Error) -> (r: &str)
    ensures
        r@ == error_message(*error),
;

/// Whether the client does not know if what failed was delivered.
pub uninterp spec fn error_in_doubt(error: questdb::Error) -> bool;

/// `questdb::Error::in_doubt` gives the mark that the error carries.
pub assume_specification[ questdb::Error::in_doubt ](error: &questdb::Error) -> (r: bool)
    ensures
        r == error_in_doubt(*error),
;

/// What the library reads of a client error.
pub struct Refusal {
    pub code: ErrorCode,
    pub message: Seq<char>,
    pub in_doubt: bool,
}

/// What the library reads of `error`.
pub open spec fn refusal_of(error: questdb::Error) -> Refusal {
    Refusal {
        code: error_code(error),
        message: error_message(error),
        in_doubt: error_in_doubt(error),
    }
}

/// The refusal that a call of the client ended in.
pub open spec fn refused(r: Result<(), questdb::Error>) -> Option<Refusal> {
    match r {
        Ok(_) => None,
        Err(error) => Some(refusal_of(error)),
    }
}

/// A designated timestamp that the client is given.
#[derive(Debug, Clone, Copy, PartialEq, Eq, Structural)]
pub enum Stamp {
    /// Microseconds since the Unix epoch.
    Micros(i64),
    /// Nanoseconds since the Unix epoch.
    Nanos(i64),
}

/// The numbers of an array column, in the shape in which they are nested.
#[derive(Debug)]
pub enum NumericArray {
    One(Vec<StaticNode>),
    Two(Vec<Vec<StaticNode>>),
    Three(Vec<Vec<Vec<StaticNode>>>),
}

/// The numbers of an array, in the shape in which they are nested.
pub enum Grid {
    One(Seq<StaticNode>),
    Two(Seq<Seq<StaticNode>>),
    Three(Seq<Seq<Seq<StaticNode>>>),
}

/// The rows of a two-dimensional array.
pub open spec fn rows_view(rows: Seq<Vec<StaticNode>>) -> Seq<Seq<StaticNode>> {
    rows.map_values(|row: Vec<StaticNode>| row@)
}

/// The layers of a three-dimensional array.
pub open spec fn cubes_view(cubes: Seq<Vec<Vec<StaticNode>>>) -> Seq<Seq<Seq<StaticNode>>> {
    cubes.map_values(|rows: Vec<Vec<StaticNode>>| rows_view(rows@))
}

/// Whether all nodes are numbers.
pub open spec fn all_numbers(nodes: Seq<StaticNode>) -> bool {
    forall|i: int| 0 <= i < nodes.len() ==> is_number(#[trigger] nodes[i])
}

impl View for NumericArray {
    type V = Grid;

    open spec fn view(&self) -> Grid {
        match *self {
            NumericArray::One(values) => Grid::One(values@),
            NumericArray::Two(rows) => Grid::Two(rows_view(rows@)),
            NumericArray::Three(cubes) => Grid::Three(cubes_view(cubes@)),
        }
    }
}

impl Grid {
    /// Whether the array holds numbers only.
    pub open spec fn numeric(self) -> bool {
        match self {
            Grid::One(values) => all_numbers(values),
            Grid::Two(rows) => forall|i: int|
                0 <= i < rows.len() ==> all_numbers(#[trigger] rows[i]),
            Grid::Three(cubes) => forall|i: int, j: int|
                0 <= i < cubes.len() && 0 <= j < cubes[i].len() ==> all_numbers(
                    #[trigger] cubes[i][j],
                ),
        }
    }
}

/// One step of writing rows: the start of a row, a cell of it, or its end.
pub enum Entry {
    /// The row's table.
    Table(Seq<char>),
    /// A `SYMBOL` cell.
    Symbol(Seq<char>, Seq<char>),
    /// A `BOOLEAN` cell.
    Bool(Seq<char>, bool),
    /// A `LONG` cell.
    Long(Seq<char>, i64),
    /// A `DOUBLE` cell, given as the JSON number that it is read from.
    Double(Seq<char>, StaticNode),
    /// A `VARCHAR` cell.
    Text(Seq<char>, Seq<char>),
    /// A `UUID` cell, as its less and its more significant half.
    Uuid(Seq<char>, u64, u64),
    /// A `DOUBLE` array cell.
    Array(Seq<char>, Grid),
    /// The row's end, with its designated timestamp.
    At(Stamp),
    /// The row's end, to be stamped by the server.
    AtNow,
}

impl Entry {
    /// The column of a cell.
    pub open spec fn column(self) -> Option<Seq<char>> {
        match self {
            Entry::Symbol(name, _) => Some(name),
            Entry::Bool(name, _) => Some(name),
            Entry::Long(name, _) => Some(name),
            Entry::Double(name, _) => Some(name),
            Entry::Text(name, _) => Some(name),
            Entry::Uuid(name, _, _) => Some(name),
            Entry::Array(name, _) => Some(name),
            Entry::Table(_) => None,
            Entry::At(_) => None,
            Entry::AtNow => None,
        }
    }
}

/// A text with its letters made small.
pub uninterp spec fn lowercase(text: Seq<char>) -> Seq<char>;

/// `str::to_lowercase`: the text with its letters made small. Of ASCII text that is its
/// ASCII letters; of other text the result is a function of the text and is left to
/// `lowercase`.
#[verifier::external_body]
fn to_lowercase(text: &str) -> (r: String)
    ensures
        r@ == if is_ascii_chars(text@) {
            lowered(text@)
        } else {
            lowercase(text@)
        },
{
    text.to_lowercase()
}

/// What a columnar buffer knows a column by: its name, with the letters made small.
pub open spec fn column_key(name: Seq<char>) -> Seq<char> {
    if is_ascii_chars(name) {
        lowered(name)
    } else {
        lowercase(name)
    }
}

/// Whether a columnar buffer takes two names for the same column.
pub fn same_column(a: &str, b: &str) -> (r: bool)
    ensures
        r == (column_key(a@) == column_key(b@)),
{
    to_lowercase(a) == to_lowercase(b)
}

/// Whether the row under way, the last one of `held`, has a cell in column `name`.
pub open spec fn has_cell(held: Seq<Entry>, name: Seq<char>) -> bool
    decreases held.len(),
{
    if held.len() == 0 || held.last() is Table {
        false
    } else {
        ||| has_cell(held.drop_last(), name)
        ||| (held.last().column() matches Some(other) && column_key(other) == column_key(name))
    }
}

/// What stays the same of a buffer while rows are written to it.
pub struct Origin {
    /// Whether it keeps its cells by column. Such a buffer passes over a further cell for
    /// a column that the row has already.
    pub columnar: bool,
    /// The buffer as it was before anything that it holds was written.
    pub start: Buffer,
}

/// What a buffer that held `held` holds after taking `entry`.
pub open spec fn taken(origin: Origin, held: Seq<Entry>, entry: Entry) -> Seq<Entry> {
    if origin.columnar && (entry.column() matches Some(name) && has_cell(held, name)) {
        held
    } else {
        held.push(entry)
    }
}

/// What a buffer holds: the entries written to it, less the repeated cells that it
/// passed over and less what was rewound.
pub uninterp spec fn recorded(buffer: Buffer) -> Seq<Entry>;

/// How a buffer was made. That and what it holds decide what the buffer refuses; a rewind
/// leaves no other trace in it.
pub uninterp spec fn origin(buffer: Buffer) -> Origin;

/// What a buffer held when its marker was set; `None` where none is set.
pub uninterp spec fn marker(buffer: Buffer) -> Option<Seq<Entry>>;

/// Why a buffer refuses to set its marker, if it does.
pub uninterp spec fn marker_refusal(origin: Origin, held: Seq<Entry>) -> Option<Refusal>;

/// `Buffer::set_marker`: remembers what the buffer holds, in place of an earlier
/// marker. Where it refuses, nothing has changed.
#[verifier::external_body]
pub(crate) fn set_marker(buffer: &mut Buffer) -> (r: Result<(), questdb::Error>)
    ensures
        refused(r) == marker_refusal(origin(*old(buffer)), recorded(*old(buffer))),
        recorded(*final(buffer)) == recorded(*old(buffer)),
        origin(*final(buffer)) == origin(*old(buffer)),
        r is Ok ==> marker(*final(buffer)) == Some(recorded(*old(buffer))),
        r is Err ==> marker(*final(buffer)) == marker(*old(buffer)),
{
    buffer.set_marker()
}

/// `Buffer::rewind_to_marker`: takes the buffer back to its marker, which is used up.
/// It fails where no marker is set.
#[verifier::external_body]
pub(crate) fn rewind_to_marker(buffer: &mut Buffer) -> (r: Result<(), questdb::Error>)
    ensures
        r is Ok <==> marker(*old(buffer)) is Some,
        origin(*final(buffer)) == origin(*old(buffer)),
        marker(*old(buffer)) matches Some(held) ==> recorded(*final(buffer)) == held,
        marker(*final(buffer)) is None,
{
    buffer.rewind_to_marker()
}

/// `Buffer::clear_marker`: forgets the marker and leaves the rows alone.
#[verifier::external_body]
pub(crate) fn clear_marker(buffer: &mut Buffer)
    ensures
        recorded(*final(buffer)) == recorded(*old(buffer)),
        origin(*final(buffer)) == origin(*old(buffer)),
        marker(*final(buffer)) is None,
{
    buffer.clear_marker()
}

/// Why a buffer refuses to start a row of a table, if it does.
pub uninterp spec fn table_refusal(
    origin: Origin,
    held: Seq<Entry>,
    name: Seq<char>,
) -> Option<Refusal>;

/// `Buffer::table`: starts a row of the table. It refuses a name that no table can
/// have, and a call inside a row.
/// What the row under way holds after a refusal is left open.
#[verifier::external_body]
pub(crate) fn table(buffer: &mut Buffer, name: &str) -> (r: Result<(), questdb::Error>)
    ensures
        refused(r) == table_refusal(
            origin(*old(buffer)),
            recorded(*old(buffer)),
            name@,
        ),
        r is Ok ==> recorded(*final(buffer)) == taken(
            origin(*old(buffer)),
            recorded(*old(buffer)),
            Entry::Table(name@),
        ),
        origin(*final(buffer)) == origin(*old(buffer)),
        marker(*final(buffer)) == marker(*old(buffer)),
{
    buffer.table(name).map(|_| ())
}

/// Why a buffer refuses a `SYMBOL` cell, if it does.
pub uninterp spec fn symbol_refusal(
    origin: Origin,
    held: Seq<Entry>,
    name: Seq<char>,
    value: Seq<char>,
) -> Option<Refusal>;

/// `Buffer::symbol`: writes a `SYMBOL` cell.
/// What the row under way holds after a refusal is left open.
#[verifier::external_body]
pub(crate) fn symbol(buffer: &mut Buffer, name: &str, value: &str) -> (r: Result<
    (),
    questdb::Error,
>)
    ensures
        refused(r) == symbol_refusal(
            origin(*old(buffer)),
            recorded(*old(buffer)),
            name@,
            value@,
        ),
        r is Ok ==> recorded(*final(buffer)) == taken(
            origin(*old(buffer)),
            recorded(*old(buffer)),
            Entry::Symbol(name@, value@),
        ),
        origin(*final(buffer)) == origin(*old(buffer)),
        marker(*final(buffer)) == marker(*old(buffer)),
{
    buffer.symbol(name, value).map(|_| ())
}

/// Why a buffer refuses a `BOOLEAN` cell, if it does.
pub uninterp spec fn bool_refusal(
    origin: Origin,
    held: Seq<Entry>,
    name: Seq<char>,
    value: bool,
) -> Option<Refusal>;

/// `Buffer::column_bool`: writes a `BOOLEAN` cell.
/// What the row under way holds after a refusal is left open.
#[verifier::external_body]
pub(crate) fn column_bool(buffer: &mut Buffer, name: &str, value: bool) -> (r: Result<
    (),
    questdb::Error,
>)
    ensures
        refused(r) == bool_refusal(
            origin(*old(buffer)),
            recorded(*old(buffer)),
            name@,
            value,
        ),
        r is Ok ==> recorded(*final(buffer)) == taken(
            origin(*old(buffer)),
            recorded(*old(buffer)),
            Entry::Bool(name@, value),
        ),
        origin(*final(buffer)) == origin(*old(buffer)),
        marker(*final(buffer)) == marker(*old(buffer)),
{
    buffer.column_bool(name, value).map(|_| ())
}

/// Why a buffer refuses a `LONG` cell, if it does.
pub uninterp spec fn long_refusal(
    origin: Origin,
    held: Seq<Entry>,
    name: Seq<char>,
    value: i64,
) -> Option<Refusal>;

/// `Buffer::column_i64`: writes a `LONG` cell.
/// What the row under way holds after a refusal is left open.
#[verifier::external_body]
pub(crate) fn column_i64(buffer: &mut Buffer, name: &str, value: i64) -> (r: Result<
    (),
    questdb::Error,
>)
    ensures
        refused(r) == long_refusal(
            origin(*old(buffer)),
            recorded(*old(buffer)),
            name@,
            value,
        ),
        r is Ok ==> recorded(*final(buffer)) == taken(
            origin(*old(buffer)),
            recorded(*old(buffer)),
            Entry::Long(name@, value),
        ),
        origin(*final(buffer)) == origin(*old(buffer)),
        marker(*final(buffer)) == marker(*old(buffer)),
{
    buffer.column_i64(name, value).map(|_| ())
}

/// Why a buffer refuses a `DOUBLE` cell, if it does.
pub uninterp spec fn double_refusal(
    origin: Origin,
    held: Seq<Entry>,
    name: Seq<char>,
    value: StaticNode,
) -> Option<Refusal>;

/// `Buffer::column_f64`: writes a `DOUBLE` cell with the number that `value` holds, read
/// by `cast_f64`, which widens an integer to a double.
/// What the row under way holds after a refusal is left open.
#[verifier::external_body]
pub(crate) fn column_double(buffer: &mut Buffer, name: &str, value: &StaticNode) -> (r: Result<
    (),
    questdb::Error,
>)
    requires
        is_number(*value),
    ensures
        refused(r) == double_refusal(
            origin(*old(buffer)),
            recorded(*old(buffer)),
            name@,
            *value,
        ),
        r is Ok ==> recorded(*final(buffer)) == taken(
            origin(*old(buffer)),
            recorded(*old(buffer)),
            Entry::Double(name@, *value),
        ),
        origin(*final(buffer)) == origin(*old(buffer)),
        marker(*final(buffer)) == marker(*old(buffer)),
{
    buffer.column_f64(name, value.cast_f64().unwrap_or_default()).map(|_| ())
}

/// Why a buffer refuses a `VARCHAR` cell, if it does.
pub uninterp spec fn text_refusal(
    origin: Origin,
    held: Seq<Entry>,
    name: Seq<char>,
    value: Seq<char>,
) -> Option<Refusal>;

/// `Buffer::column_str`: writes a `VARCHAR` cell.
/// What the row under way holds after a refusal is left open.
#[verifier::external_body]
pub(crate) fn column_str(buffer: &mut Buffer, name: &str, value: &str) -> (r: Result<
    (),
    questdb::Error,
>)
    ensures
        refused(r) == text_refusal(
            origin(*old(buffer)),
            recorded(*old(buffer)),
            name@,
            value@,
        ),
        r is Ok ==> recorded(*final(buffer)) == taken(
            origin(*old(buffer)),
            recorded(*old(buffer)),
            Entry::Text(name@, value@),
        ),
        origin(*final(buffer)) == origin(*old(buffer)),
        marker(*final(buffer)) == marker(*old(buffer)),
{
    buffer.column_str(name, value).map(|_| ())
}

/// Why a buffer refuses a `UUID` cell, if it does.
pub uninterp spec fn uuid_refusal(
    origin: Origin,
    held: Seq<Entry>,
    name: Seq<char>,
    lo: u64,
    hi: u64,
) -> Option<Refusal>;

/// `Buffer::column_uuid`: writes a `UUID` cell. `hi` is the more significant half.
/// What the row under way holds after a refusal is left open.
#[verifier::external_body]
pub(crate) fn column_uuid(buffer: &mut Buffer, name: &str, lo: u64, hi: u64) -> (r: Result<
    (),
    questdb::Error,
>)
    ensures
        refused(r) == uuid_refusal(
            origin(*old(buffer)),
            recorded(*old(buffer)),
            name@,
            lo,
            hi,
        ),
        r is Ok ==> recorded(*final(buffer)) == taken(
            origin(*old(buffer)),
            recorded(*old(buffer)),
            Entry::Uuid(name@, lo, hi),
        ),
        origin(*final(buffer)) == origin(*old(buffer)),
        marker(*final(buffer)) == marker(*old(buffer)),
{
    buffer.column_uuid(name, lo, hi).map(|_| ())
}

/// Why a buffer refuses an array cell, if it does.
pub uninterp spec fn array_refusal(
    origin: Origin,
    held: Seq<Entry>,
    name: Seq<char>,
    array: Grid,
) -> Option<Refusal>;

/// `Buffer::column_arr`: writes a `DOUBLE` array cell of one, two or three
/// dimensions, its numbers read by `cast_f64`, which widens integers to doubles.
/// What the row under way holds after a refusal is left open.
#[verifier::external_body]
pub(crate) fn column_arr(buffer: &mut Buffer, name: &str, array: &NumericArray) -> (r: Result<
    (),
    questdb::Error,
>)
    requires
        array@.numeric(),
    ensures
        refused(r) == array_refusal(
            origin(*old(buffer)),
            recorded(*old(buffer)),
            name@,
            array@,
        ),
        r is Ok ==> recorded(*final(buffer)) == taken(
            origin(*old(buffer)),
            recorded(*old(buffer)),
            Entry::Array(name@, array@),
        ),
        origin(*final(buffer)) == origin(*old(buffer)),
        marker(*final(buffer)) == marker(*old(buffer)),
{
    let flat = |row: &Vec<StaticNode>| -> Vec<_> {
        row.iter().map(|node| node.cast_f64().unwrap_or_default()).collect()
    };
    let deep = |rows: &Vec<Vec<StaticNode>>| -> Vec<_> { rows.iter().map(flat).collect() };
    match array {
        NumericArray::One(row) => buffer.column_arr(name, &flat(row)).map(|_| ()),
        NumericArray::Two(rows) => buffer.column_arr(name, &deep(rows)).map(|_| ()),
        NumericArray::Three(cubes) => {
            let cubes: Vec<_> = cubes.iter().map(deep).collect();
            buffer.column_arr(name, &cubes).map(|_| ())
        },
    }
}

/// Why a buffer refuses to end the row with a timestamp, if it does.
pub uninterp spec fn at_refusal(origin: Origin, held: Seq<Entry>, stamp: Stamp) -> Option<Refusal>;

/// `Buffer::at`: ends the row, with the designated timestamp `stamp`.
/// What the row under way holds after a refusal is left open.
#[verifier::external_body]
pub(crate) fn at(buffer: &mut Buffer, stamp: Stamp) -> (r: Result<(), questdb::Error>)
    ensures
        refused(r) == at_refusal(
            origin(*old(buffer)),
            recorded(*old(buffer)),
            stamp,
        ),
        r is Ok ==> recorded(*final(buffer)) == taken(
            origin(*old(buffer)),
            recorded(*old(buffer)),
            Entry::At(stamp),
        ),
        origin(*final(buffer)) == origin(*old(buffer)),
        marker(*final(buffer)) == marker(*old(buffer)),
{
    match stamp {
        Stamp::Micros(micros) => buffer.at(TimestampMicros::new(micros)),
        Stamp::Nanos(nanos) => buffer.at(TimestampNanos::new(nanos)),
    }
}

/// Why a buffer refuses to end the row without a timestamp, if it does.
pub uninterp spec fn at_now_refusal(origin: Origin, held: Seq<Entry>) -> Option<Refusal>;

/// `Buffer::at_now`: ends the row, and leaves its timestamp to the server.
/// What the row under way holds after a refusal is left open.
#[verifier::external_body]
pub(crate) fn at_now(buffer: &mut Buffer) -> (r: Result<(), questdb::Error>)
    ensures
        refused(r) == at_now_refusal(origin(*old(buffer)), recorded(*old(buffer))),
        r is Ok ==> recorded(*final(buffer)) == taken(
            origin(*old(buffer)),
            recorded(*old(buffer)),
            Entry::AtNow,
        ),
        origin(*final(buffer)) == origin(*old(buffer)),
        marker(*final(buffer)) == marker(*old(buffer)),
{
    buffer.at_now()
}

/// Why a buffer made as `origin` that holds `held` refuses `entry`, if it does. Nothing else
/// decides: neither what was rewound before, nor whether a marker is set.
pub open spec fn refusal(origin: Origin, held: Seq<Entry>, entry: Entry) -> Option<Refusal> {
    match entry {
        Entry::Table(name) => table_refusal(origin, held, name),
        Entry::Symbol(name, value) => symbol_refusal(origin, held, name, value),
        Entry::Bool(name, value) => bool_refusal(origin, held, name, value),
        Entry::Long(name, value) => long_refusal(origin, held, name, value),
        Entry::Double(name, value) => double_refusal(origin, held, name, value),
        Entry::Text(name, value) => text_refusal(origin, held, name, value),
        Entry::Uuid(name, lo, hi) => uuid_refusal(origin, held, name, lo, hi),
        Entry::Array(name, array) => array_refusal(origin, held, name, array),
        Entry::At(stamp) => at_refusal(origin, held, stamp),
        Entry::AtNow => at_now_refusal(origin, held),
    }
}

} // verus!
