//! The type model: the in-memory tree that one parsed schema compiles to.
//!
//! A schema is a [`ConvexField`] whose type is always [`ConvexType::Object`].
//! The model is built once by the parser and then read by the decoder and
//! the encoder; it has no behavior of its own.

use vstd::prelude::*;

verus! {

/// Identity of a field: the ordered names of its ancestors (root-exclusive)
/// plus its own name.  Two names denote the same field exactly when their
/// full paths are equal.
#[derive(Debug)]
pub struct ConvexName {
    pub path: Vec<String>,
    pub id: String,
}

/// One declared field: its qualified name and its validator type.
#[derive(Debug)]
pub struct ConvexField {
    pub name: ConvexName,
    pub t: ConvexType,
}

/// The closed set of validator types.
///
/// Literals are widened to their base primitive at the type level; the
/// literal value is enforced only while decoding.
#[derive(Debug)]
pub enum ConvexType {
    /// An opaque reference into the named table, held as a string.
    Id(String),
    Null,
    Int64,
    /// A 64-bit floating-point number, held as its IEEE 754 bit pattern.
    Number,
    Bool,
    String,
    /// A record; field order is declaration order.
    Object(Vec<ConvexField>),
    /// A closed sum; branches are tried positionally, in declaration order.
    Union(Vec<ConvexType>),
    StringLiteral(String),
    BoolLiteral(bool),
    IntLiteral(i64),
    /// Presence wrapper; the inner field shares this field's name.
    Optional(Box<ConvexField>),
}

/// Mathematical model of a [`ConvexName`].
pub struct NameModel {
    pub path: Seq<Seq<char>>,
    pub id: Seq<char>,
}

/// Mathematical model of a [`ConvexField`].
pub struct FieldModel {
    pub name: NameModel,
    pub t: TypeModel,
}

/// Mathematical model of a [`ConvexType`].
pub enum TypeModel {
    Id(Seq<char>),
    Null,
    Int64,
    Number,
    Bool,
    Str,
    Object(Seq<FieldModel>),
    Union(Seq<TypeModel>),
    StrLiteral(Seq<char>),
    BoolLiteral(bool),
    IntLiteral(i64),
    Optional(Box<FieldModel>),
}

impl NameModel {
    /// The full path of the field: ancestors then its own name.
    pub open spec fn full_path(self) -> Seq<Seq<char>> {
        self.path.push(self.id)
    }
}

impl View for ConvexName {
    type V = NameModel;

    open spec fn view(&self) -> NameModel {
        NameModel { path: self.path.deep_view(), id: self.id@ }
    }
}

pub open spec fn view_fields(fields: Vec<ConvexField>, i: int) -> Seq<FieldModel>
    decreases fields, fields@.len() - i,
    when 0 <= i <= fields@.len()
{
    if i == fields@.len() {
        Seq::empty()
    } else {
        seq![fields@[i]@] + view_fields(fields, i + 1)
    }
}

pub open spec fn view_branches(branches: Vec<ConvexType>, i: int) -> Seq<TypeModel>
    decreases branches, branches@.len() - i,
    when 0 <= i <= branches@.len()
{
    if i == branches@.len() {
        Seq::empty()
    } else {
        seq![branches@[i]@] + view_branches(branches, i + 1)
    }
}

impl View for ConvexField {
    type V = FieldModel;

    open spec fn view(&self) -> FieldModel
        decreases self,
    {
        FieldModel { name: self.name@, t: self.t@ }
    }
}

impl View for ConvexType {
    type V = TypeModel;

    open spec fn view(&self) -> TypeModel
        decreases self,
    {
        match self {
            ConvexType::Id(table) => TypeModel::Id(table@),
            ConvexType::Null => TypeModel::Null,
            ConvexType::Int64 => TypeModel::Int64,
            ConvexType::Number => TypeModel::Number,
            ConvexType::Bool => TypeModel::Bool,
            ConvexType::String => TypeModel::Str,
            ConvexType::Object(fields) => TypeModel::Object(view_fields(*fields, 0)),
            ConvexType::Union(branches) => TypeModel::Union(view_branches(*branches, 0)),
            ConvexType::StringLiteral(s) => TypeModel::StrLiteral(s@),
            ConvexType::BoolLiteral(b) => TypeModel::BoolLiteral(*b),
            ConvexType::IntLiteral(i) => TypeModel::IntLiteral(*i),
            ConvexType::Optional(inner) => TypeModel::Optional(Box::new((**inner)@)),
        }
    }
}

pub proof fn lemma_view_fields_index(v: Vec<ConvexField>, i: int)
    requires
        0 <= i <= v@.len(),
    ensures
        view_fields(v, i).len() == v@.len() - i,
        forall|j: int| 0 <= j < v@.len() - i ==> view_fields(v, i)[j] == v@[i + j]@,
    decreases v@.len() - i,
{
    if i < v@.len() {
        lemma_view_fields_index(v, i + 1);
        assert(view_fields(v, i) == seq![v@[i]@] + view_fields(v, i + 1));
        assert forall|j: int| 0 <= j < v@.len() - i implies view_fields(v, i)[j] == v@[i + j]@ by {
            if j > 0 {
                assert(view_fields(v, i)[j] == view_fields(v, i + 1)[j - 1]);
            }
        }
    } else {
        assert(view_fields(v, i) == Seq::<FieldModel>::empty());
    }
}

pub proof fn lemma_view_branches_index(v: Vec<ConvexType>, i: int)
    requires
        0 <= i <= v@.len(),
    ensures
        view_branches(v, i).len() == v@.len() - i,
        forall|j: int| 0 <= j < v@.len() - i ==> view_branches(v, i)[j] == v@[i + j]@,
    decreases v@.len() - i,
{
    if i < v@.len() {
        lemma_view_branches_index(v, i + 1);
        assert(view_branches(v, i) == seq![v@[i]@] + view_branches(v, i + 1));
        assert forall|j: int| 0 <= j < v@.len() - i implies view_branches(v, i)[j] == v@[i + j]@ by {
            if j > 0 {
                assert(view_branches(v, i)[j] == view_branches(v, i + 1)[j - 1]);
            }
        }
    } else {
        assert(view_branches(v, i) == Seq::<TypeModel>::empty());
    }
}

/// A union branch may not itself be a union or an optional; authors must
/// interpose an object.  Enforced by the parser, relied on by the decoder.
pub open spec fn wf_branch(t: TypeModel) -> bool
    decreases t,
{
    match t {
        TypeModel::Union(_) => false,
        TypeModel::Optional(_) => false,
        TypeModel::Object(fields) => wf_field_seq(fields),
        _ => true,
    }
}

/// Structural invariants a parsed type satisfies: every union has at least
/// two branches and no union or optional stands directly under a union.
pub open spec fn wf_type(t: TypeModel) -> bool
    decreases t,
{
    match t {
        TypeModel::Object(fields) => wf_field_seq(fields),
        TypeModel::Union(branches) => {
            &&& branches.len() >= 2
            &&& forall|i: int| 0 <= i < branches.len() ==> wf_branch(#[trigger] branches[i])
        },
        TypeModel::Optional(inner) => wf_type(inner.t),
        _ => true,
    }
}

pub open spec fn wf_field_seq(fields: Seq<FieldModel>) -> bool
    decreases fields,
{
    forall|i: int| 0 <= i < fields.len() ==> wf_type(#[trigger] fields[i].t)
}

/// The invariant of a whole parsed schema: a well-formed object at the root.
pub open spec fn wf_schema(f: FieldModel) -> bool {
    &&& f.t is Object
    &&& wf_type(f.t)
}

/// The naming rule of the parser: below a field whose full path is `base`,
/// every declared field's path equals `base` extended as declared, and the
/// inner field of an optional shares its wrapper's name.
pub open spec fn rooted_type(t: TypeModel, base: Seq<Seq<char>>) -> bool
    decreases t,
{
    match t {
        TypeModel::Object(fields) => forall|i: int|
            0 <= i < fields.len() ==> (#[trigger] fields[i]).name.path == base && rooted_type(
                fields[i].t,
                fields[i].name.full_path(),
            ),
        TypeModel::Union(branches) => forall|i: int|
            0 <= i < branches.len() ==> rooted_type(#[trigger] branches[i], base),
        TypeModel::Optional(inner) => inner.name.full_path() == base && rooted_type(inner.t, base),
        _ => true,
    }
}

/// A whole schema's names are fully qualified from the root: the root has
/// an empty path and every nested field extends its parent's full path.
pub open spec fn rooted_schema(f: FieldModel) -> bool {
    &&& f.name.path.len() == 0
    &&& rooted_type(f.t, f.name.full_path())
}

} // verus!
