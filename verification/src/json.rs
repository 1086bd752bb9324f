//! JSON values as rows read them.

use simd_json::prelude::ValueAsScalar;
use simd_json::{OwnedValue, StaticNode};
use vstd::prelude::*;

verus! {

/// `simd_json::StaticNode`: a JSON number, boolean or null.
#[verifier::external_type_specification]
pub struct ExStaticNode(simd_json::StaticNode);

/// `simd_json::OwnedValue`: a JSON value, carried as it is.
#[verifier::external_type_specification]
#[verifier::external_body]
pub struct ExOwnedValue(simd_json::OwnedValue);

/// A JSON value: what a field of a JSON object holds. An object inside is kept as
/// it came, since no column type has a place for its parts.
#[derive(Debug)]
pub enum Value {
    /// A number, a boolean or null.
    Static(StaticNode),
    /// A string.
    String(String),
    /// An array.
    Array(Vec<Value>),
    /// An object.
    Object(OwnedValue),
}

/// A JSON payload.
#[derive(Debug)]
pub struct Document {
    /// The payload as it came.
    pub raw: OwnedValue,
    /// The names and values of its fields, in the order in which the object gives
    /// them; `None` where the payload is not an object.
    pub fields: Option<Vec<(String, Value)>>,
}

/// Whether `node` is a number.
pub open spec fn is_number(node: StaticNode) -> bool {
    node is I64 || node is U64 || node is F64
}

/// The value of the first field called `name`.
pub open spec fn lookup(fields: Seq<(String, Value)>, name: Seq<char>) -> Option<Value>
    decreases fields.len(),
{
    if fields.len() == 0 {
        None
    } else if fields[0].0@ == name {
        Some(fields[0].1)
    } else {
        lookup(fields.drop_first(), name)
    }
}

/// Finds the first field called `name`.
pub fn get<'a>(fields: &'a Vec<(String, Value)>, name: &String) -> (r: Option<&'a Value>)
    ensures
        r is Some <==> lookup(fields@, name@) is Some,
        r matches Some(value) ==> lookup(fields@, name@) == Some(*value),
{
    assert(fields@.skip(0) =~= fields@);
    for i in 0..fields.len()
        invariant
            lookup(fields@, name@) == lookup(fields@.skip(i as int), name@),
    {
        assert(fields@.skip(i as int)[0] == fields@[i as int]);
        if fields[i].0 == *name {
            return Some(&fields[i].1);
        }
        assert(fields@.skip(i as int).drop_first() =~= fields@.skip(i + 1));
    }
    None
}

/// The JSON text of a value; `None` where it cannot be written as text.
pub uninterp spec fn json_text(value: OwnedValue) -> Option<Seq<char>>;

/// `simd_json::to_string` on a value. The text that it writes is a function of the
/// value; which characters those are is left to `json_text`.
#[verifier::external_body]
pub(crate) fn write_json(value: &OwnedValue) -> (r: Option<String>)
    ensures
        json_text(*value) == match r {
            Some(text) => Some(text@),
            None => None,
        },
{
    simd_json::to_string(value).ok()
}

/// How a double is written: the shortest decimal text that reads back as it.
pub uninterp spec fn double_text(node: StaticNode) -> Seq<char>;

/// `to_string` on the double that `node` holds. The text is a function of the double;
/// which characters those are is left to `double_text`.
#[verifier::external_body]
pub(crate) fn write_double(node: &StaticNode) -> (r: String)
    requires
        node is F64,
    ensures
        r@ == double_text(*node),
{
    node.cast_f64().unwrap_or_default().to_string()
}

/// The whole number that a double is cut down to.
pub uninterp spec fn truncated(node: StaticNode) -> i64;

/// The double that `node` holds, read by `cast_f64` and cast to an `i64`: cut
/// towards zero, held to the range of the type, zero for what is no number. The
/// result is a function of the double and is left to `truncated`.
#[verifier::external_body]
pub(crate) fn truncate(node: &StaticNode) -> (r: i64)
    requires
        node is F64,
    ensures
        r == truncated(*node),
{
    node.cast_f64().unwrap_or_default() as i64
}

} // verus!
