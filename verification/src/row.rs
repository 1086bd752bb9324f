//! What writing a row comes to: the entries that it asks for, and how far they got.

use crate::client;
use crate::client::{
    marker, origin, recorded, refusal, refusal_of, refused, taken, Entry, NumericArray, Origin,
    Refusal, Stamp,
};
use questdb::ingress::Buffer;
use simd_json::StaticNode;
use vstd::prelude::*;
use vstd::std_specs::convert::FromSpecImpl;

verus! {

/// A message that could not be turned into a row. The batch continues; the
/// caller counts and logs these.
#[derive(Debug)]
pub enum RowError {
    /// The payload was not a JSON object, or a required field was missing.
    Invalid(String),
    /// The QuestDB client rejected the row. Carries the underlying error so the
    /// caller can decide whether it is transient.
    Client(questdb::Error),
}

impl FromSpecImpl<questdb::Error> for RowError {
    open spec fn obeys_from_spec() -> bool {
        true
    }

    open spec fn from_spec(error: questdb::Error) -> RowError {
        RowError::Client(error)
    }
}

impl From<questdb::Error> for RowError {
    fn from(error: questdb::Error) -> (r: Self) {
        RowError::Client(error)
    }
}

/// What a message asks of a buffer: the entries to write, in order, and then the
/// reason why the message is invalid, where it is.
pub struct Plan {
    pub entries: Seq<Entry>,
    pub invalid: Option<Seq<char>>,
}

/// Nothing to write.
pub open spec fn nothing() -> Plan {
    Plan { entries: seq![], invalid: None }
}

/// One entry to write.
pub open spec fn one(entry: Entry) -> Plan {
    Plan { entries: seq![entry], invalid: None }
}

/// Nothing to write: the message is invalid.
pub open spec fn reject(reason: Seq<char>) -> Plan {
    Plan { entries: seq![], invalid: Some(reason) }
}

/// `plan` where `wanted`, else nothing.
pub open spec fn only_if(wanted: bool, plan: Plan) -> Plan {
    if wanted {
        plan
    } else {
        nothing()
    }
}

impl Plan {
    /// This plan, and `next` after it unless the message proved invalid before.
    pub open spec fn followed_by(self, next: Plan) -> Plan {
        if self.invalid is Some {
            self
        } else {
            Plan { entries: self.entries + next.entries, invalid: next.invalid }
        }
    }
}

/// How far writing entries got: what the buffer holds of them, and the refusal that ended
/// it, if one did.
pub struct Run {
    pub held: Seq<Entry>,
    pub refusal: Option<Refusal>,
}

/// Writing `entries`, in order, to a buffer made as `origin` that holds `held`, up to the
/// first one that it refuses.
pub open spec fn run(origin: Origin, held: Seq<Entry>, entries: Seq<Entry>) -> Run
    decreases entries.len(),
{
    if entries.len() == 0 {
        Run { held, refusal: None }
    } else {
        let before = run(origin, held, entries.drop_last());
        if before.refusal is Some {
            before
        } else {
            match refusal(origin, before.held, entries.last()) {
                Some(refusal) => Run { held: before.held, refusal: Some(refusal) },
                None => Run {
                    held: taken(origin, before.held, entries.last()),
                    refusal: None,
                },
            }
        }
    }
}

/// What carrying out `plan` on the buffer `before` comes to.
pub open spec fn plan_run(before: Buffer, plan: Plan) -> Run {
    run(origin(before), recorded(before), plan.entries)
}

/// Whether carrying out `plan` on the buffer `before` ends in `r`, with the buffer as
/// `after`. What the buffer holds after a refusal is left open.
pub open spec fn ran(before: Buffer, plan: Plan, after: Buffer, r: Result<(), RowError>) -> bool {
    let run = plan_run(before, plan);
    &&& origin(after) == origin(before)
    &&& marker(after) == marker(before)
    &&& match r {
        Ok(_) => {
            &&& run.refusal is None
            &&& plan.invalid is None
            &&& recorded(after) == run.held
        },
        Err(RowError::Invalid(reason)) => {
            &&& run.refusal is None
            &&& plan.invalid == Some(reason@)
            &&& recorded(after) == run.held
        },
        Err(RowError::Client(error)) => run.refusal == Some(refusal_of(error)),
    }
}

/// Writing one sequence of entries and then another is writing both.
pub proof fn lemma_run_concat(
    origin: Origin,
    held: Seq<Entry>,
    first: Seq<Entry>,
    second: Seq<Entry>,
)
    ensures
        run(origin, held, first + second) == if run(origin, held, first).refusal is Some {
            run(origin, held, first)
        } else {
            run(origin, run(origin, held, first).held, second)
        },
    decreases second.len(),
{
    if second.len() == 0 {
        assert(first + second =~= first);
    } else {
        lemma_run_concat(origin, held, first, second.drop_last());
        assert((first + second).drop_last() =~= first + second.drop_last());
        assert((first + second).last() == second.last());
    }
}

/// Carrying out a plan that goes through, and then another, is carrying out both.
pub proof fn lemma_ran_next(
    before: Buffer,
    first: Plan,
    mid: Buffer,
    second: Plan,
    after: Buffer,
    r: Result<(), RowError>,
)
    requires
        ran(before, first, mid, Ok(())),
        ran(mid, second, after, r),
    ensures
        ran(before, first.followed_by(second), after, r),
{
    lemma_run_concat(origin(before), recorded(before), first.entries, second.entries);
}

/// A plan that fails fails in the same way whatever was to follow it.
pub proof fn lemma_ran_stops(
    before: Buffer,
    first: Plan,
    after: Buffer,
    r: Result<(), RowError>,
    second: Plan,
)
    requires
        ran(before, first, after, r),
        r is Err,
    ensures
        ran(before, first.followed_by(second), after, r),
{
    lemma_run_concat(origin(before), recorded(before), first.entries, second.entries);
}

/// Carrying out nothing leaves the buffer as it is.
pub proof fn lemma_ran_nothing(buffer: Buffer)
    ensures
        ran(buffer, nothing(), buffer, Ok(())),
{
}

/// What one call of the client comes to.
pub proof fn lemma_ran_one(
    before: Buffer,
    entry: Entry,
    after: Buffer,
    r: Result<(), questdb::Error>,
)
    requires
        refused(r) == refusal(origin(before), recorded(before), entry),
        r is Ok ==> recorded(after) == taken(origin(before), recorded(before), entry),
        origin(after) == origin(before),
        marker(after) == marker(before),
    ensures
        r is Ok ==> ran(before, one(entry), after, Ok(())),
        r matches Err(error) ==> ran(before, one(entry), after, Err(RowError::Client(error))),
{
    let entries = seq![entry];
    assert(entries.drop_last() =~= seq![]);
    assert(entries.last() == entry);
    assert(run(origin(before), recorded(before), entries.drop_last()) == (Run {
        held: recorded(before),
        refusal: None,
    }));
}

/// The outcome of a call of the client, as that of a row.
fn row_result(r: Result<(), questdb::Error>) -> (out: Result<(), RowError>)
    ensures
        r is Ok ==> out == Ok::<(), RowError>(()),
        r matches Err(error) ==> out == Err::<(), RowError>(RowError::Client(error)),
{
    match r {
        Ok(()) => Ok(()),
        Err(error) => Err(RowError::from(error)),
    }
}

/// Starts a row.
pub(crate) fn write_table(buffer: &mut Buffer, name: &str) -> (r: Result<(), RowError>)
    ensures
        ran(*old(buffer), one(Entry::Table(name@)), *final(buffer), r),
{
    let done = client::table(buffer, name);
    proof {
        lemma_ran_one(*old(buffer), Entry::Table(name@), *buffer, done);
    }
    row_result(done)
}

/// Writes a `SYMBOL` cell.
pub(crate) fn write_symbol(buffer: &mut Buffer, name: &str, value: &str) -> (r: Result<
    (),
    RowError,
>)
    ensures
        ran(*old(buffer), one(Entry::Symbol(name@, value@)), *final(buffer), r),
{
    let done = client::symbol(buffer, name, value);
    proof {
        lemma_ran_one(*old(buffer), Entry::Symbol(name@, value@), *buffer, done);
    }
    row_result(done)
}

/// Writes a `BOOLEAN` cell.
pub(crate) fn write_bool(buffer: &mut Buffer, name: &str, value: bool) -> (r: Result<
    (),
    RowError,
>)
    ensures
        ran(*old(buffer), one(Entry::Bool(name@, value)), *final(buffer), r),
{
    let done = client::column_bool(buffer, name, value);
    proof {
        lemma_ran_one(*old(buffer), Entry::Bool(name@, value), *buffer, done);
    }
    row_result(done)
}

/// Writes a `LONG` cell.
pub(crate) fn write_long(buffer: &mut Buffer, name: &str, value: i64) -> (r: Result<(), RowError>)
    ensures
        ran(*old(buffer), one(Entry::Long(name@, value)), *final(buffer), r),
{
    let done = client::column_i64(buffer, name, value);
    proof {
        lemma_ran_one(*old(buffer), Entry::Long(name@, value), *buffer, done);
    }
    row_result(done)
}

/// Writes a `DOUBLE` cell.
pub(crate) fn write_double(buffer: &mut Buffer, name: &str, value: &StaticNode) -> (r: Result<
    (),
    RowError,
>)
    requires
        crate::json::is_number(*value),
    ensures
        ran(*old(buffer), one(Entry::Double(name@, *value)), *final(buffer), r),
{
    let done = client::column_double(buffer, name, value);
    proof {
        lemma_ran_one(*old(buffer), Entry::Double(name@, *value), *buffer, done);
    }
    row_result(done)
}

/// Writes a `VARCHAR` cell.
pub(crate) fn write_text(buffer: &mut Buffer, name: &str, value: &str) -> (r: Result<(), RowError>)
    ensures
        ran(*old(buffer), one(Entry::Text(name@, value@)), *final(buffer), r),
{
    let done = client::column_str(buffer, name, value);
    proof {
        lemma_ran_one(*old(buffer), Entry::Text(name@, value@), *buffer, done);
    }
    row_result(done)
}

/// Writes a `UUID` cell.
pub(crate) fn write_uuid(buffer: &mut Buffer, name: &str, lo: u64, hi: u64) -> (r: Result<
    (),
    RowError,
>)
    ensures
        ran(*old(buffer), one(Entry::Uuid(name@, lo, hi)), *final(buffer), r),
{
    let done = client::column_uuid(buffer, name, lo, hi);
    proof {
        lemma_ran_one(*old(buffer), Entry::Uuid(name@, lo, hi), *buffer, done);
    }
    row_result(done)
}

/// Writes a `DOUBLE` array cell.
pub(crate) fn write_array(buffer: &mut Buffer, name: &str, array: &NumericArray) -> (r: Result<
    (),
    RowError,
>)
    requires
        array@.numeric(),
    ensures
        ran(*old(buffer), one(Entry::Array(name@, array@)), *final(buffer), r),
{
    let done = client::column_arr(buffer, name, array);
    proof {
        lemma_ran_one(*old(buffer), Entry::Array(name@, array@), *buffer, done);
    }
    row_result(done)
}

/// Ends a row, with `stamp` as its timestamp or, for `None`, to be stamped by the
/// server.
pub(crate) fn end_row(buffer: &mut Buffer, stamp: Option<Stamp>) -> (r: Result<(), RowError>)
    ensures
        ran(*old(buffer), one(row_end(stamp)), *final(buffer), r),
{
    match stamp {
        Some(stamp) => {
            let done = client::at(buffer, stamp);
            proof {
                lemma_ran_one(*old(buffer), Entry::At(stamp), *buffer, done);
            }
            row_result(done)
        },
        None => {
            let done = client::at_now(buffer);
            proof {
                lemma_ran_one(*old(buffer), Entry::AtNow, *buffer, done);
            }
            row_result(done)
        },
    }
}

/// The entry that ends a row stamped with `stamp` or, for `None`, by the server.
pub open spec fn row_end(stamp: Option<Stamp>) -> Entry {
    match stamp {
        Some(stamp) => Entry::At(stamp),
        None => Entry::AtNow,
    }
}

} // verus!
