//! JSON arrays as array columns.

use crate::client::{all_numbers, cubes_view, rows_view, Entry, Grid, NumericArray};
use crate::json::{is_number, Value};
use crate::row::{one, ran, reject, write_array, Plan, RowError};
use questdb::ingress::Buffer;
use simd_json::StaticNode;
use vstd::prelude::*;
use vstd::string::*;

verus! {

/// How deep arrays nest in `items`, going by the first item of each.
pub open spec fn depth(items: Seq<Value>) -> nat
    decreases items,
{
    if items.len() > 0 {
        match items[0] {
            Value::Array(inner) => 1 + depth(inner@),
            _ => 1,
        }
    } else {
        1
    }
}

/// The depth of `items`, as far as a `usize` counts.
pub fn array_depth(items: &Vec<Value>) -> (r: usize)
    ensures
        r == if depth(items@) <= usize::MAX {
            depth(items@) as int
        } else {
            usize::MAX as int
        },
    decreases items,
{
    if items.len() == 0 {
        return 1;
    }
    match &items[0] {
        Value::Array(inner) => {
            let below: usize = array_depth(inner);
            if below == usize::MAX {
                below
            } else {
                below + 1
            }
        },
        _ => 1,
    }
}

/// The number that a value is.
pub open spec fn number_of(value: Value) -> Option<StaticNode> {
    match value {
        Value::Static(node) => if is_number(node) {
            Some(node)
        } else {
            None
        },
        _ => None,
    }
}

/// The numbers of an array that holds nothing else.
pub open spec fn flat(items: Seq<Value>) -> Option<Seq<StaticNode>> {
    if forall|i: int| 0 <= i < items.len() ==> number_of(#[trigger] items[i]) is Some {
        Some(items.map_values(|item: Value| number_of(item)->0))
    } else {
        None
    }
}

/// The numbers of a value that is an array of numbers.
pub open spec fn row_of(value: Value) -> Option<Seq<StaticNode>> {
    match value {
        Value::Array(items) => flat(items@),
        _ => None,
    }
}

/// The rows of an array that holds arrays of numbers and nothing else.
pub open spec fn rows_of(items: Seq<Value>) -> Option<Seq<Seq<StaticNode>>> {
    if forall|i: int| 0 <= i < items.len() ==> row_of(#[trigger] items[i]) is Some {
        Some(items.map_values(|item: Value| row_of(item)->0))
    } else {
        None
    }
}

/// The rows of a value that is an array of arrays of numbers.
pub open spec fn layer_of(value: Value) -> Option<Seq<Seq<StaticNode>>> {
    match value {
        Value::Array(items) => rows_of(items@),
        _ => None,
    }
}

/// The layers of an array that holds arrays of arrays of numbers and nothing else.
pub open spec fn layers_of(items: Seq<Value>) -> Option<Seq<Seq<Seq<StaticNode>>>> {
    if forall|i: int| 0 <= i < items.len() ==> layer_of(#[trigger] items[i]) is Some {
        Some(items.map_values(|item: Value| layer_of(item)->0))
    } else {
        None
    }
}

/// The array column that `items` of that depth make, where they make one.
pub open spec fn grid_of(items: Seq<Value>) -> Option<Grid> {
    if depth(items) == 1 {
        match flat(items) {
            Some(values) => Some(Grid::One(values)),
            None => None,
        }
    } else if depth(items) == 2 {
        match rows_of(items) {
            Some(rows) => Some(Grid::Two(rows)),
            None => None,
        }
    } else {
        match layers_of(items) {
            Some(layers) => Some(Grid::Three(layers)),
            None => None,
        }
    }
}

/// What a row asks for where the field `name` holds the array `items`.
pub open spec fn array_plan(name: Seq<char>, items: Seq<Value>) -> Plan {
    if depth(items) > 3 {
        reject("column "@ + name + " exceeds the supported array nesting depth of 3"@)
    } else {
        match grid_of(items) {
            Some(grid) => one(Entry::Array(name, grid)),
            None => reject("column "@ + name + " is not a numeric array"@),
        }
    }
}

/// Collects the numbers of a flat array; `None` where an item is no number.
pub fn flat_array(items: &Vec<Value>) -> (r: Option<Vec<StaticNode>>)
    ensures
        flat(items@) == match r {
            Some(values) => Some(values@),
            None => None,
        },
        r matches Some(values) ==> all_numbers(values@),
{
    let mut values: Vec<StaticNode> = Vec::with_capacity(items.len());
    for i in 0..items.len()
        invariant
            values@.len() == i,
            forall|j: int|
                0 <= j < i ==> number_of(#[trigger] items@[j]) == Some(values@[j]),
            all_numbers(values@),
    {
        match &items[i] {
            Value::Static(StaticNode::I64(number)) => values.push(StaticNode::I64(*number)),
            Value::Static(StaticNode::U64(number)) => values.push(StaticNode::U64(*number)),
            Value::Static(StaticNode::F64(number)) => values.push(StaticNode::F64(*number)),
            _ => {
                assert(number_of(items@[i as int]) is None);
                return None;
            },
        }
    }
    assert(values@ =~= flat(items@)->0);
    Some(values)
}

/// Collects the rows of a two-dimensional array; `None` where an item is no array of
/// numbers.
pub fn array_rows(items: &Vec<Value>) -> (r: Option<Vec<Vec<StaticNode>>>)
    ensures
        rows_of(items@) == match r {
            Some(rows) => Some(rows_view(rows@)),
            None => None,
        },
        r matches Some(rows) ==> forall|i: int|
            0 <= i < rows@.len() ==> all_numbers(#[trigger] rows@[i]@),
{
    let mut rows: Vec<Vec<StaticNode>> = Vec::with_capacity(items.len());
    for i in 0..items.len()
        invariant
            rows@.len() == i,
            forall|j: int| 0 <= j < i ==> row_of(#[trigger] items@[j]) == Some(rows@[j]@),
            forall|j: int| 0 <= j < rows@.len() ==> all_numbers(#[trigger] rows@[j]@),
    {
        let row = match &items[i] {
            Value::Array(nested) => flat_array(nested),
            _ => None,
        };
        match row {
            Some(row) => rows.push(row),
            None => {
                assert(row_of(items@[i as int]) is None);
                return None;
            },
        }
    }
    assert(rows_view(rows@) =~= rows_of(items@)->0);
    Some(rows)
}

/// Collects the layers of a three-dimensional array; `None` where an item is no array
/// of arrays of numbers.
pub fn array_layers(items: &Vec<Value>) -> (r: Option<Vec<Vec<Vec<StaticNode>>>>)
    ensures
        layers_of(items@) == match r {
            Some(layers) => Some(cubes_view(layers@)),
            None => None,
        },
        r matches Some(layers) ==> forall|i: int, j: int|
            0 <= i < layers@.len() && 0 <= j < layers@[i]@.len() ==> all_numbers(
                #[trigger] layers@[i]@[j]@,
            ),
{
    let mut layers: Vec<Vec<Vec<StaticNode>>> = Vec::with_capacity(items.len());
    for i in 0..items.len()
        invariant
            layers@.len() == i,
            forall|j: int|
                0 <= j < i ==> layer_of(#[trigger] items@[j]) == Some(rows_view(layers@[j]@)),
            forall|j: int, k: int|
                0 <= j < layers@.len() && 0 <= k < layers@[j]@.len() ==> all_numbers(
                    #[trigger] layers@[j]@[k]@,
                ),
    {
        let layer = match &items[i] {
            Value::Array(nested) => array_rows(nested),
            _ => None,
        };
        match layer {
            Some(layer) => layers.push(layer),
            None => {
                assert(layer_of(items@[i as int]) is None);
                return None;
            },
        }
    }
    assert(cubes_view(layers@) =~= layers_of(items@)->0);
    Some(layers)
}

/// Says of the column `name` what is wrong with it.
pub(crate) fn column_error(name: &str, fault: &str) -> (r: RowError)
    ensures
        r matches RowError::Invalid(reason) && reason@ == "column "@ + name@ + fault@,
{
    let mut reason: String = "column ".to_owned();
    reason.append(name);
    reason.append(fault);
    RowError::Invalid(reason)
}

/// Writes an array cell. QuestDB only stores `DOUBLE` arrays, so integers are widened
/// rather than rejected. Arrays nest to three dimensions.
pub fn append_array(buffer: &mut Buffer, name: &str, items: &Vec<Value>) -> (r: Result<
    (),
    RowError,
>)
    ensures
        ran(*old(buffer), array_plan(name@, items@), *final(buffer), r),
{
    let levels: usize = array_depth(items);
    if levels > 3 {
        return Err(column_error(name, " exceeds the supported array nesting depth of 3"));
    }
    let array: Option<NumericArray> = match levels {
        1 => match flat_array(items) {
            Some(values) => Some(NumericArray::One(values)),
            None => None,
        },
        2 => match array_rows(items) {
            Some(rows) => Some(NumericArray::Two(rows)),
            None => None,
        },
        _ => match array_layers(items) {
            Some(layers) => Some(NumericArray::Three(layers)),
            None => None,
        },
    };
    match array {
        Some(array) => write_array(buffer, name, &array),
        None => Err(column_error(name, " is not a numeric array")),
    }
}

} // verus!
