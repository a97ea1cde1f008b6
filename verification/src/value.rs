//! The JSON value algebra rendered by the layout engine.
//!
//! `StructuredValue` models one JSON value: scalars keep their source text
//! (numbers verbatim), arrays keep element order, objects keep their entries
//! in source order. Specifications quantify over these values directly.

use vstd::prelude::*;

verus! {

/// A structured (JSON) value: the render target of the layout engine.
///
/// Numeric text is preserved verbatim from the source; objects keep their
/// entries in source order.
#[derive(Debug, PartialEq)]
pub enum StructuredValue {
    Null,
    Boolean(bool),
    Number(String),
    Text(String),
    Array(Vec<StructuredValue>),
    Object(Vec<(String, StructuredValue)>),
}

/// A scalar is any value that is not an array and not an object.
pub open spec fn is_scalar(v: StructuredValue) -> bool {
    match v {
        StructuredValue::Array(_) => false,
        StructuredValue::Object(_) => false,
        _ => true,
    }
}

/// Every element of `items` is a scalar.
pub open spec fn all_scalars(items: Seq<StructuredValue>) -> bool {
    forall|i: int| 0 <= i < items.len() ==> is_scalar(items[i])
}

/// Every value of `entries` is a scalar.
pub open spec fn all_scalar_values(entries: Seq<(String, StructuredValue)>) -> bool {
    forall|i: int| 0 <= i < entries.len() ==> is_scalar(entries[i].1)
}

/// Nesting depth of a value: 1 for a scalar, 1 more for each container level.
pub open spec fn depth(v: StructuredValue) -> nat
    decreases v,
{
    match v {
        StructuredValue::Array(items) => 1 + items_depth(items@),
        StructuredValue::Object(entries) => 1 + entries_depth(entries@),
        _ => 1,
    }
}

/// Largest depth among the elements of an array.
pub open spec fn items_depth(items: Seq<StructuredValue>) -> nat
    decreases items,
{
    if items.len() == 0 {
        0
    } else {
        let head = depth(items[0]);
        let rest = items_depth(items.subrange(1, items.len() as int));
        if head >= rest {
            head
        } else {
            rest
        }
    }
}

/// Largest depth among the values of an object.
pub open spec fn entries_depth(entries: Seq<(String, StructuredValue)>) -> nat
    decreases entries,
{
    if entries.len() == 0 {
        0
    } else {
        let head = depth(entries[0].1);
        let rest = entries_depth(entries.subrange(1, entries.len() as int));
        if head >= rest {
            head
        } else {
            rest
        }
    }
}

impl StructuredValue {
    /// Whether this value is a scalar (not an array or object).
    pub fn is_scalar_value(&self) -> (r: bool)
        ensures
            r == is_scalar(*self),
    {
        match self {
            StructuredValue::Array(_) => false,
            StructuredValue::Object(_) => false,
            _ => true,
        }
    }
}

} // verus!
