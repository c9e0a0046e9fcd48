//! Typed accessors for decoded union values.

use vstd::prelude::*;
use crate::model::ConvexField;
use crate::names::spec_struct_name;
use crate::values::{ModelValue, TypedValue};

verus! {

/// An accessor invoked on the wrong variant: carries the enclosing union
/// type's resolved name and the 1-based variant that was expected.
#[derive(Debug, PartialEq)]
pub struct AccessError {
    pub union_name: String,
    pub variant: u64,
}

impl ConvexField {
    /// The payload of a decoded union value if it is the 1-based variant
    /// `idx` of this field's union, else an error naming the enclosing
    /// type and the expected variant.
    pub fn as_variant<'a>(&self, value: &'a ModelValue, idx: u64) -> (r: Result<
        &'a ModelValue,
        AccessError,
    >)
        ensures
            (match value@ {
                TypedValue::Variant(i, payload) => if i == idx as nat {
                    r matches Result::Ok(p) && p@ == *payload
                } else {
                    r matches Result::Err(e) && e.union_name@ == spec_struct_name(self@.name)
                        && e.variant == idx
                },
                _ => r matches Result::Err(e) && e.union_name@ == spec_struct_name(self@.name)
                    && e.variant == idx,
            }),
    {
        match value {
            ModelValue::Variant(i, payload) => if *i == idx {
                Result::Ok(&**payload)
            } else {
                Result::Err(
                    AccessError { union_name: self.name.to_struct_name(), variant: idx },
                )
            },
            _ => Result::Err(
                AccessError { union_name: self.name.to_struct_name(), variant: idx },
            ),
        }
    }
}

} // verus!
