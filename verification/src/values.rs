//! The value models on either side of the compiled schema.
//!
//! [`ConvexValue`] is the abstract dynamic value consumed while decoding: a
//! closed tagged union projected from the host database's value type.
//! [`ModelValue`] is the typed value a successful decode produces.
//! [`JsonValue`] is the generic JSON-like tree the encoder emits.
//! 64-bit floating-point payloads are carried as their IEEE 754 bit
//! patterns, so that every operation on them stays in integer arithmetic.

use vstd::prelude::*;

verus! {

/// A dynamic value received from the database layer.
#[derive(Debug, PartialEq)]
pub enum ConvexValue {
    Null,
    Boolean(bool),
    Int64(i64),
    /// IEEE 754 bit pattern of the 64-bit float payload.
    Float64(u64),
    Str(String),
    /// An ordered-key mapping; lookups take the first entry with the key.
    Object(Vec<(String, ConvexValue)>),
}

/// A typed value: what a record or union field holds after decoding.
#[derive(Debug, PartialEq)]
pub enum ModelValue {
    /// The unit payload of a null-typed field.
    Unit,
    Bool(bool),
    Int(i64),
    /// IEEE 754 bit pattern of a number-typed payload.
    Float(u64),
    Str(String),
    /// A decoded record: one entry per declared field, in declaration order.
    Record(Vec<(String, ModelValue)>),
    /// A decoded union value: the 1-based branch index and its payload.
    Variant(u64, Box<ModelValue>),
    /// An optional field with no value present.
    Absent,
    /// An optional field holding a value.
    Present(Box<ModelValue>),
}

/// A generic JSON-like output value.
#[derive(Debug, PartialEq)]
pub enum JsonValue {
    Null,
    Bool(bool),
    Int(i64),
    /// IEEE 754 bit pattern of a floating-point number.
    Float(u64),
    Str(String),
    Object(Vec<(String, JsonValue)>),
}

/// Mathematical model of a [`ConvexValue`].
pub enum DynValue {
    Null,
    Boolean(bool),
    Int64(i64),
    Float64(u64),
    Str(Seq<char>),
    Object(Seq<(Seq<char>, DynValue)>),
}

/// Mathematical model of a [`ModelValue`].
pub enum TypedValue {
    Unit,
    Bool(bool),
    Int(i64),
    Float(u64),
    Str(Seq<char>),
    Record(Seq<(Seq<char>, TypedValue)>),
    Variant(nat, Box<TypedValue>),
    Absent,
    Present(Box<TypedValue>),
}

/// Mathematical model of a [`JsonValue`].
pub enum JsonModel {
    Null,
    Bool(bool),
    Int(i64),
    Float(u64),
    Str(Seq<char>),
    Object(Seq<(Seq<char>, JsonModel)>),
}

pub open spec fn view_dyn_entries(entries: Vec<(String, ConvexValue)>, i: int) -> Seq<
    (Seq<char>, DynValue),
>
    decreases entries, entries@.len() - i,
    when 0 <= i <= entries@.len()
{
    if i == entries@.len() {
        Seq::empty()
    } else {
        seq![(entries@[i].0@, entries@[i].1@)] + view_dyn_entries(entries, i + 1)
    }
}

impl View for ConvexValue {
    type V = DynValue;

    open spec fn view(&self) -> DynValue
        decreases self,
    {
        match self {
            ConvexValue::Null => DynValue::Null,
            ConvexValue::Boolean(b) => DynValue::Boolean(*b),
            ConvexValue::Int64(i) => DynValue::Int64(*i),
            ConvexValue::Float64(bits) => DynValue::Float64(*bits),
            ConvexValue::Str(s) => DynValue::Str(s@),
            ConvexValue::Object(entries) => DynValue::Object(view_dyn_entries(*entries, 0)),
        }
    }
}

pub open spec fn view_typed_entries(entries: Vec<(String, ModelValue)>, i: int) -> Seq<
    (Seq<char>, TypedValue),
>
    decreases entries, entries@.len() - i,
    when 0 <= i <= entries@.len()
{
    if i == entries@.len() {
        Seq::empty()
    } else {
        seq![(entries@[i].0@, entries@[i].1@)] + view_typed_entries(entries, i + 1)
    }
}

impl View for ModelValue {
    type V = TypedValue;

    open spec fn view(&self) -> TypedValue
        decreases self,
    {
        match self {
            ModelValue::Unit => TypedValue::Unit,
            ModelValue::Bool(b) => TypedValue::Bool(*b),
            ModelValue::Int(i) => TypedValue::Int(*i),
            ModelValue::Float(bits) => TypedValue::Float(*bits),
            ModelValue::Str(s) => TypedValue::Str(s@),
            ModelValue::Record(entries) => TypedValue::Record(view_typed_entries(*entries, 0)),
            ModelValue::Variant(i, payload) => TypedValue::Variant(
                *i as nat,
                Box::new((**payload)@),
            ),
            ModelValue::Absent => TypedValue::Absent,
            ModelValue::Present(inner) => TypedValue::Present(Box::new((**inner)@)),
        }
    }
}

pub open spec fn view_json_entries(entries: Vec<(String, JsonValue)>, i: int) -> Seq<
    (Seq<char>, JsonModel),
>
    decreases entries, entries@.len() - i,
    when 0 <= i <= entries@.len()
{
    if i == entries@.len() {
        Seq::empty()
    } else {
        seq![(entries@[i].0@, entries@[i].1@)] + view_json_entries(entries, i + 1)
    }
}

impl View for JsonValue {
    type V = JsonModel;

    open spec fn view(&self) -> JsonModel
        decreases self,
    {
        match self {
            JsonValue::Null => JsonModel::Null,
            JsonValue::Bool(b) => JsonModel::Bool(*b),
            JsonValue::Int(i) => JsonModel::Int(*i),
            JsonValue::Float(bits) => JsonModel::Float(*bits),
            JsonValue::Str(s) => JsonModel::Str(s@),
            JsonValue::Object(entries) => JsonModel::Object(view_json_entries(*entries, 0)),
        }
    }
}

pub proof fn lemma_view_dyn_entries_index(v: Vec<(String, ConvexValue)>, i: int)
    requires
        0 <= i <= v@.len(),
    ensures
        view_dyn_entries(v, i).len() == v@.len() - i,
        forall|j: int|
            0 <= j < v@.len() - i ==> view_dyn_entries(v, i)[j] == (v@[i + j].0@, v@[i + j].1@),
    decreases v@.len() - i,
{
    if i < v@.len() {
        lemma_view_dyn_entries_index(v, i + 1);
        assert(view_dyn_entries(v, i) == seq![(v@[i].0@, v@[i].1@)] + view_dyn_entries(v, i + 1));
        assert forall|j: int|
            0 <= j < v@.len() - i implies view_dyn_entries(v, i)[j] == (v@[i + j].0@, v@[i + j].1@) by {
            if j > 0 {
                assert(view_dyn_entries(v, i)[j] == view_dyn_entries(v, i + 1)[j - 1]);
            }
        }
    }
}

pub proof fn lemma_view_typed_entries_index(v: Vec<(String, ModelValue)>, i: int)
    requires
        0 <= i <= v@.len(),
    ensures
        view_typed_entries(v, i).len() == v@.len() - i,
        forall|j: int|
            0 <= j < v@.len() - i ==> view_typed_entries(v, i)[j] == (v@[i + j].0@, v@[i + j].1@),
    decreases v@.len() - i,
{
    if i < v@.len() {
        lemma_view_typed_entries_index(v, i + 1);
        assert(view_typed_entries(v, i) == seq![(v@[i].0@, v@[i].1@)] + view_typed_entries(v, i + 1));
        assert forall|j: int|
            0 <= j < v@.len() - i implies view_typed_entries(v, i)[j] == (v@[i + j].0@, v@[i + j].1@) by {
            if j > 0 {
                assert(view_typed_entries(v, i)[j] == view_typed_entries(v, i + 1)[j - 1]);
            }
        }
    }
}

pub proof fn lemma_view_json_entries_index(v: Vec<(String, JsonValue)>, i: int)
    requires
        0 <= i <= v@.len(),
    ensures
        view_json_entries(v, i).len() == v@.len() - i,
        forall|j: int|
            0 <= j < v@.len() - i ==> view_json_entries(v, i)[j] == (v@[i + j].0@, v@[i + j].1@),
    decreases v@.len() - i,
{
    if i < v@.len() {
        lemma_view_json_entries_index(v, i + 1);
        assert(view_json_entries(v, i) == seq![(v@[i].0@, v@[i].1@)] + view_json_entries(v, i + 1));
        assert forall|j: int|
            0 <= j < v@.len() - i implies view_json_entries(v, i)[j] == (v@[i + j].0@, v@[i + j].1@) by {
            if j > 0 {
                assert(view_json_entries(v, i)[j] == view_json_entries(v, i + 1)[j - 1]);
            }
        }
    }
}

/// The JSON shape of a dynamic value, for stating round-trip laws: each
/// dynamic tag maps to its natural JSON counterpart.
pub open spec fn json_of_dyn(v: DynValue) -> JsonModel
    decreases v,
{
    match v {
        DynValue::Null => JsonModel::Null,
        DynValue::Boolean(b) => JsonModel::Bool(b),
        DynValue::Int64(i) => JsonModel::Int(i),
        DynValue::Float64(bits) => JsonModel::Float(bits),
        DynValue::Str(s) => JsonModel::Str(s),
        DynValue::Object(entries) => JsonModel::Object(json_of_dyn_entries(entries)),
    }
}

pub open spec fn json_of_dyn_entries(entries: Seq<(Seq<char>, DynValue)>) -> Seq<
    (Seq<char>, JsonModel),
>
    decreases entries,
{
    if entries.len() == 0 {
        Seq::empty()
    } else {
        seq![(entries[0].0, json_of_dyn(entries[0].1))] + json_of_dyn_entries(entries.drop_first())
    }
}

} // verus!
