//! The extraction side of the compiled schema: validating decode from a
//! dynamic value to a typed value.
//!
//! The whole decode semantics is stated by the `spec_decode_*` functions;
//! every executable decoder returns exactly what they say.  Decoding is
//! fail-fast: the first failing field aborts a record, and a union takes
//! the first branch whose full decode succeeds, in declaration order.

use vstd::prelude::*;
use crate::model::{ConvexField, ConvexName, ConvexType, FieldModel, TypeModel};
use crate::model::view_fields;
use crate::model::view_branches;
use crate::numeric::{spec_f64_bits_trunc, spec_i64_to_f64_bits, f64_bits_trunc_to_i64,
    i64_to_f64_bits};
use crate::values::{ConvexValue, DynValue, ModelValue, TypedValue, view_dyn_entries,
    view_typed_entries};

verus! {

/// What a failing decode expected at the failing field, mirroring the
/// generated error messages: a kind mismatch on a literal field is kept
/// distinct from a value mismatch against the literal itself.
#[derive(Debug, PartialEq)]
pub enum Expected {
    /// An object-typed field was absent or the input was not an object.
    Object,
    /// A union-typed field was absent.
    Union,
    /// No branch of a union matched the value.
    UnionMatch,
    Null,
    Bool,
    Int,
    Number,
    Str,
    /// A boolean literal field saw a value of the wrong kind.
    BoolLitKind,
    /// An integer literal field saw a value of the wrong kind.
    IntLitKind,
    /// A string literal field saw a value of the wrong kind.
    StrLitKind,
    /// A boolean literal field saw the wrong boolean.
    BoolLit(bool),
    /// An integer literal field saw the wrong integer.
    IntLit(i64),
    /// A string literal field saw the wrong string.
    StrLit(String),
}

/// A decode failure: the failing field's fully qualified label and what
/// was expected of it.
#[derive(Debug, PartialEq)]
pub struct DecodeError {
    pub path: Vec<String>,
    pub expected: Expected,
}

/// Mathematical model of [`Expected`].
pub enum ExpectedModel {
    Object,
    Union,
    UnionMatch,
    Null,
    Bool,
    Int,
    Number,
    Str,
    BoolLitKind,
    IntLitKind,
    StrLitKind,
    BoolLit(bool),
    IntLit(i64),
    StrLit(Seq<char>),
}

/// Mathematical model of a [`DecodeError`].
pub struct ErrModel {
    pub path: Seq<Seq<char>>,
    pub expected: ExpectedModel,
}

impl View for Expected {
    type V = ExpectedModel;

    open spec fn view(&self) -> ExpectedModel {
        match self {
            Expected::Object => ExpectedModel::Object,
            Expected::Union => ExpectedModel::Union,
            Expected::UnionMatch => ExpectedModel::UnionMatch,
            Expected::Null => ExpectedModel::Null,
            Expected::Bool => ExpectedModel::Bool,
            Expected::Int => ExpectedModel::Int,
            Expected::Number => ExpectedModel::Number,
            Expected::Str => ExpectedModel::Str,
            Expected::BoolLitKind => ExpectedModel::BoolLitKind,
            Expected::IntLitKind => ExpectedModel::IntLitKind,
            Expected::StrLitKind => ExpectedModel::StrLitKind,
            Expected::BoolLit(b) => ExpectedModel::BoolLit(*b),
            Expected::IntLit(i) => ExpectedModel::IntLit(*i),
            Expected::StrLit(s) => ExpectedModel::StrLit(s@),
        }
    }
}

impl View for DecodeError {
    type V = ErrModel;

    open spec fn view(&self) -> ErrModel {
        ErrModel { path: self.path.deep_view(), expected: self.expected@ }
    }
}

/// The value stored under `key` from position `i` on, at the first entry
/// carrying it.
pub open spec fn lookup_from(
    entries: Seq<(Seq<char>, DynValue)>,
    key: Seq<char>,
    i: int,
) -> Option<DynValue>
    decreases entries.len() - i,
    when 0 <= i <= entries.len()
{
    if i == entries.len() {
        Option::None
    } else if entries[i].0 == key {
        Option::Some(entries[i].1)
    } else {
        lookup_from(entries, key, i + 1)
    }
}

/// The value stored under `key`, at the first entry carrying it.
pub open spec fn lookup_entry(entries: Seq<(Seq<char>, DynValue)>, key: Seq<char>) -> Option<
    DynValue,
> {
    lookup_from(entries, key, 0)
}

/// Decode of a primitive or literal type: the base kind must match (an
/// integer field also takes a float, truncated toward zero; a number
/// field also takes an integer, widened), and a literal type additionally
/// requires equality with the literal.
pub open spec fn spec_decode_prim(t: TypeModel, path: Seq<Seq<char>>, v: Option<DynValue>) -> Result<
    TypedValue,
    ErrModel,
> {
    match t {
        TypeModel::Id(_) | TypeModel::Str => match v {
            Option::Some(DynValue::Str(s)) => Result::Ok(TypedValue::Str(s)),
            _ => Result::Err(ErrModel { path, expected: ExpectedModel::Str }),
        },
        TypeModel::Null => match v {
            Option::Some(DynValue::Null) => Result::Ok(TypedValue::Unit),
            _ => Result::Err(ErrModel { path, expected: ExpectedModel::Null }),
        },
        TypeModel::Int64 => match v {
            Option::Some(DynValue::Int64(i)) => Result::Ok(TypedValue::Int(i)),
            Option::Some(DynValue::Float64(b)) => Result::Ok(
                TypedValue::Int(spec_f64_bits_trunc(b)),
            ),
            _ => Result::Err(ErrModel { path, expected: ExpectedModel::Int }),
        },
        TypeModel::Number => match v {
            Option::Some(DynValue::Float64(b)) => Result::Ok(TypedValue::Float(b)),
            Option::Some(DynValue::Int64(i)) => Result::Ok(
                TypedValue::Float(spec_i64_to_f64_bits(i)),
            ),
            _ => Result::Err(ErrModel { path, expected: ExpectedModel::Number }),
        },
        TypeModel::Bool => match v {
            Option::Some(DynValue::Boolean(b)) => Result::Ok(TypedValue::Bool(b)),
            _ => Result::Err(ErrModel { path, expected: ExpectedModel::Bool }),
        },
        TypeModel::IntLiteral(lit) => match v {
            Option::Some(DynValue::Int64(i)) => if i == lit {
                Result::Ok(TypedValue::Int(i))
            } else {
                Result::Err(ErrModel { path, expected: ExpectedModel::IntLit(lit) })
            },
            Option::Some(DynValue::Float64(b)) => if spec_f64_bits_trunc(b) == lit {
                Result::Ok(TypedValue::Int(spec_f64_bits_trunc(b)))
            } else {
                Result::Err(ErrModel { path, expected: ExpectedModel::IntLit(lit) })
            },
            _ => Result::Err(ErrModel { path, expected: ExpectedModel::IntLitKind }),
        },
        TypeModel::BoolLiteral(lit) => match v {
            Option::Some(DynValue::Boolean(b)) => if b == lit {
                Result::Ok(TypedValue::Bool(b))
            } else {
                Result::Err(ErrModel { path, expected: ExpectedModel::BoolLit(lit) })
            },
            _ => Result::Err(ErrModel { path, expected: ExpectedModel::BoolLitKind }),
        },
        TypeModel::StrLiteral(lit) => match v {
            Option::Some(DynValue::Str(s)) => if s == lit {
                Result::Ok(TypedValue::Str(s))
            } else {
                Result::Err(ErrModel { path, expected: ExpectedModel::StrLit(lit) })
            },
            _ => Result::Err(ErrModel { path, expected: ExpectedModel::StrLitKind }),
        },
        _ => Result::Err(ErrModel { path, expected: ExpectedModel::Object }),
    }
}

/// Decode of one declared field against the value found under its key;
/// an absent key arrives as `None`.
pub open spec fn spec_decode_field(f: FieldModel, v: Option<DynValue>) -> Result<
    TypedValue,
    ErrModel,
>
    decreases f, 3int,
{
    match f.t {
        TypeModel::Object(fields) => match v {
            Option::Some(dv) => spec_decode_record(f.name.full_path(), fields, dv),
            Option::None => Result::Err(
                ErrModel { path: f.name.full_path(), expected: ExpectedModel::Object },
            ),
        },
        TypeModel::Union(branches) => match v {
            Option::Some(dv) => spec_decode_union(f.name.full_path(), branches, dv),
            Option::None => Result::Err(
                ErrModel { path: f.name.full_path(), expected: ExpectedModel::Union },
            ),
        },
        TypeModel::Optional(inner) => match v {
            Option::None => Result::Ok(TypedValue::Absent),
            Option::Some(DynValue::Null) => Result::Ok(TypedValue::Absent),
            Option::Some(dv) => match spec_decode_field(*inner, Option::Some(dv)) {
                Result::Ok(tv) => Result::Ok(TypedValue::Present(Box::new(tv))),
                Result::Err(e) => Result::Err(e),
            },
        },
        _ => spec_decode_prim(f.t, f.name.full_path(), v),
    }
}

/// Decode of a record: the value must be an object, and every declared
/// field must decode from the entry under its name.
pub open spec fn spec_decode_record(
    path: Seq<Seq<char>>,
    fields: Seq<FieldModel>,
    v: DynValue,
) -> Result<TypedValue, ErrModel>
    decreases fields, 5int,
{
    match v {
        DynValue::Object(entries) => match spec_decode_fields(fields, entries) {
            Result::Ok(tvs) => Result::Ok(TypedValue::Record(tvs)),
            Result::Err(e) => Result::Err(e),
        },
        _ => Result::Err(ErrModel { path, expected: ExpectedModel::Object }),
    }
}

/// Fail-fast decode of a record's declared fields, in declaration order:
/// the first failing field's error is the record's error.
pub open spec fn spec_decode_fields(
    fields: Seq<FieldModel>,
    entries: Seq<(Seq<char>, DynValue)>,
) -> Result<Seq<(Seq<char>, TypedValue)>, ErrModel>
    decreases fields, 4int,
{
    if fields.len() == 0 {
        Result::Ok(Seq::empty())
    } else {
        match spec_decode_field(fields[0], lookup_entry(entries, fields[0].name.id)) {
            Result::Err(e) => Result::Err(e),
            Result::Ok(tv) => match spec_decode_fields(fields.drop_first(), entries) {
                Result::Err(e) => Result::Err(e),
                Result::Ok(rest) => Result::Ok(seq![(fields[0].name.id, tv)] + rest),
            },
        }
    }
}

/// Trial decode of one union branch; `None` means the branch does not
/// match.  Branches that the parser forbids (unions, optionals) match
/// nothing.
pub open spec fn spec_decode_branch(t: TypeModel, v: DynValue) -> Option<TypedValue>
    decreases t, 5int,
{
    match t {
        TypeModel::Id(_) | TypeModel::Str => match v {
            DynValue::Str(s) => Option::Some(TypedValue::Str(s)),
            _ => Option::None,
        },
        TypeModel::Null => match v {
            DynValue::Null => Option::Some(TypedValue::Unit),
            _ => Option::None,
        },
        TypeModel::Int64 => match v {
            DynValue::Int64(i) => Option::Some(TypedValue::Int(i)),
            DynValue::Float64(b) => Option::Some(TypedValue::Int(spec_f64_bits_trunc(b))),
            _ => Option::None,
        },
        TypeModel::Number => match v {
            DynValue::Int64(i) => Option::Some(TypedValue::Float(spec_i64_to_f64_bits(i))),
            DynValue::Float64(b) => Option::Some(TypedValue::Float(b)),
            _ => Option::None,
        },
        TypeModel::Bool => match v {
            DynValue::Boolean(b) => Option::Some(TypedValue::Bool(b)),
            _ => Option::None,
        },
        TypeModel::IntLiteral(lit) => match v {
            DynValue::Int64(i) => if i == lit {
                Option::Some(TypedValue::Int(i))
            } else {
                Option::None
            },
            DynValue::Float64(b) => if spec_f64_bits_trunc(b) == lit {
                Option::Some(TypedValue::Int(spec_f64_bits_trunc(b)))
            } else {
                Option::None
            },
            _ => Option::None,
        },
        TypeModel::BoolLiteral(lit) => match v {
            DynValue::Boolean(b) => if b == lit {
                Option::Some(TypedValue::Bool(b))
            } else {
                Option::None
            },
            _ => Option::None,
        },
        TypeModel::StrLiteral(lit) => match v {
            DynValue::Str(s) => if s == lit {
                Option::Some(TypedValue::Str(s))
            } else {
                Option::None
            },
            _ => Option::None,
        },
        TypeModel::Object(fields) => match v {
            DynValue::Object(entries) => match spec_decode_fields(fields, entries) {
                Result::Ok(tvs) => Option::Some(TypedValue::Record(tvs)),
                Result::Err(_) => Option::None,
            },
            _ => Option::None,
        },
        TypeModel::Union(_) => Option::None,
        TypeModel::Optional(_) => Option::None,
    }
}

/// Trial decode of the branches from position `i` on: the first branch
/// whose decode succeeds wins, carrying its 1-based position.
pub open spec fn spec_decode_union_from(
    path: Seq<Seq<char>>,
    branches: Seq<TypeModel>,
    v: DynValue,
    i: int,
) -> Result<TypedValue, ErrModel>
    decreases branches, 6int, branches.len() - i,
    when 0 <= i <= branches.len()
{
    if i == branches.len() {
        Result::Err(ErrModel { path, expected: ExpectedModel::UnionMatch })
    } else {
        match spec_decode_branch(branches[i], v) {
            Option::Some(tv) => Result::Ok(TypedValue::Variant((i + 1) as nat, Box::new(tv))),
            Option::None => spec_decode_union_from(path, branches, v, i + 1),
        }
    }
}

/// Decode of a union-typed field.
pub open spec fn spec_decode_union(
    path: Seq<Seq<char>>,
    branches: Seq<TypeModel>,
    v: DynValue,
) -> Result<TypedValue, ErrModel>
    decreases branches, 7int,
{
    spec_decode_union_from(path, branches, v, 0)
}

/// The model of an executable decode result.
pub open spec fn view_decode_result(r: Result<ModelValue, DecodeError>) -> Result<
    TypedValue,
    ErrModel,
> {
    match r {
        Result::Ok(v) => Result::Ok(v@),
        Result::Err(e) => Result::Err(e@),
    }
}

/// The model of an optional borrowed dynamic value.
pub open spec fn view_opt(v: Option<&ConvexValue>) -> Option<DynValue> {
    match v {
        Option::Some(x) => Option::Some(x@),
        Option::None => Option::None,
    }
}

/// The model of a trial decode's result.
pub open spec fn view_opt_decoded(r: Option<ModelValue>) -> Option<TypedValue> {
    match r {
        Option::Some(v) => Option::Some(v@),
        Option::None => Option::None,
    }
}

/// The model of a decoded field list's result.
pub open spec fn view_fields_result(r: Result<Vec<(String, ModelValue)>, DecodeError>) -> Result<
    Seq<(Seq<char>, TypedValue)>,
    ErrModel,
> {
    match r {
        Result::Ok(v) => Result::Ok(view_typed_entries(v, 0)),
        Result::Err(e) => Result::Err(e@),
    }
}

/// When every declared field decodes, the record's field list decodes to
/// exactly those values, keyed by the fields' own names.
pub proof fn lemma_decode_fields_all_ok(
    fields: Seq<FieldModel>,
    entries: Seq<(Seq<char>, DynValue)>,
    out: Seq<(Seq<char>, TypedValue)>,
)
    requires
        out.len() == fields.len(),
        forall|k: int|
            0 <= k < fields.len() ==> spec_decode_field(
                #[trigger] fields[k],
                lookup_entry(entries, fields[k].name.id),
            ) == Result::<TypedValue, ErrModel>::Ok(out[k].1) && out[k].0 == fields[k].name.id,
    ensures
        spec_decode_fields(fields, entries) == Result::<Seq<(Seq<char>, TypedValue)>, ErrModel>::Ok(
            out,
        ),
    decreases fields.len(),
{
    if fields.len() > 0 {
        lemma_decode_fields_all_ok(fields.drop_first(), entries, out.drop_first());
        assert(seq![(fields[0].name.id, out[0].1)] + out.drop_first() =~= out);
    } else {
        assert(out =~= Seq::<(Seq<char>, TypedValue)>::empty());
    }
}

/// Object decode is fail-fast: when the fields before position `j` decode
/// and the field at `j` fails, the whole record fails with exactly that
/// field's error, and no partial record is produced.
pub proof fn lemma_decode_fields_first_err(
    fields: Seq<FieldModel>,
    entries: Seq<(Seq<char>, DynValue)>,
    j: int,
    e: ErrModel,
)
    requires
        0 <= j < fields.len(),
        forall|k: int|
            0 <= k < j ==> spec_decode_field(
                #[trigger] fields[k],
                lookup_entry(entries, fields[k].name.id),
            ) is Ok,
        spec_decode_field(fields[j], lookup_entry(entries, fields[j].name.id)) == Result::<
            TypedValue,
            ErrModel,
        >::Err(e),
    ensures
        spec_decode_fields(fields, entries) == Result::<Seq<(Seq<char>, TypedValue)>, ErrModel>::Err(
            e,
        ),
    decreases j,
{
    if j > 0 {
        lemma_decode_fields_first_err(fields.drop_first(), entries, j - 1, e);
    }
}

/// Branches that do not match are skipped without effect: trial decoding
/// from `i` equals trial decoding from `j` when no branch in between
/// matches.
pub proof fn lemma_union_from_skip(
    path: Seq<Seq<char>>,
    branches: Seq<TypeModel>,
    v: DynValue,
    i: int,
    j: int,
)
    requires
        0 <= i <= j <= branches.len(),
        forall|k: int| i <= k < j ==> spec_decode_branch(#[trigger] branches[k], v) is None,
    ensures
        spec_decode_union_from(path, branches, v, i) == spec_decode_union_from(
            path,
            branches,
            v,
            j,
        ),
    decreases j - i,
{
    if i < j {
        lemma_union_from_skip(path, branches, v, i + 1, j);
    }
}

/// Finds the first entry of the mapping holding the given key.
fn lookup<'a>(entries: &'a Vec<(String, ConvexValue)>, key: &String) -> (r: Option<
    &'a ConvexValue,
>)
    ensures
        view_opt(r) == lookup_entry(view_dyn_entries(*entries, 0), key@),
{
    proof {
        crate::values::lemma_view_dyn_entries_index(*entries, 0);
    }
    let ghost em = view_dyn_entries(*entries, 0);
    let mut j: usize = 0;
    while j < entries.len()
        invariant
            j <= entries@.len(),
            em == view_dyn_entries(*entries, 0),
            em.len() == entries@.len(),
            forall|k: int| 0 <= k < em.len() ==> em[k] == (entries@[k].0@, entries@[k].1@),
            lookup_entry(em, key@) == lookup_from(em, key@, j as int),
        decreases entries@.len() - j,
    {
        if entries[j].0.eq(key) {
            return Option::Some(&entries[j].1);
        }
        j = j + 1;
    }
    Option::None
}

/// Decodes a primitive or literal field per [`spec_decode_prim`].
fn decode_prim(t: &ConvexType, name: &ConvexName, v: Option<&ConvexValue>) -> (r: Result<
    ModelValue,
    DecodeError,
>)
    ensures
        view_decode_result(r) == spec_decode_prim(t@, name@.full_path(), view_opt(v)),
{
    match t {
        ConvexType::Id(_) | ConvexType::String => match v {
            Option::Some(ConvexValue::Str(s)) => Result::Ok(ModelValue::Str(s.clone())),
            _ => Result::Err(
                DecodeError { path: name.full_path(), expected: Expected::Str },
            ),
        },
        ConvexType::Null => match v {
            Option::Some(ConvexValue::Null) => Result::Ok(ModelValue::Unit),
            _ => Result::Err(
                DecodeError { path: name.full_path(), expected: Expected::Null },
            ),
        },
        ConvexType::Int64 => match v {
            Option::Some(ConvexValue::Int64(i)) => Result::Ok(ModelValue::Int(*i)),
            Option::Some(ConvexValue::Float64(b)) => Result::Ok(
                ModelValue::Int(f64_bits_trunc_to_i64(*b)),
            ),
            _ => Result::Err(DecodeError { path: name.full_path(), expected: Expected::Int }),
        },
        ConvexType::Number => match v {
            Option::Some(ConvexValue::Float64(b)) => Result::Ok(ModelValue::Float(*b)),
            Option::Some(ConvexValue::Int64(i)) => Result::Ok(
                ModelValue::Float(i64_to_f64_bits(*i)),
            ),
            _ => Result::Err(
                DecodeError { path: name.full_path(), expected: Expected::Number },
            ),
        },
        ConvexType::Bool => match v {
            Option::Some(ConvexValue::Boolean(b)) => Result::Ok(ModelValue::Bool(*b)),
            _ => Result::Err(DecodeError { path: name.full_path(), expected: Expected::Bool }),
        },
        ConvexType::IntLiteral(lit) => match v {
            Option::Some(ConvexValue::Int64(i)) => if *i == *lit {
                Result::Ok(ModelValue::Int(*i))
            } else {
                Result::Err(
                    DecodeError { path: name.full_path(), expected: Expected::IntLit(*lit) },
                )
            },
            Option::Some(ConvexValue::Float64(b)) => {
                let tr = f64_bits_trunc_to_i64(*b);
                if tr == *lit {
                    Result::Ok(ModelValue::Int(tr))
                } else {
                    Result::Err(
                        DecodeError { path: name.full_path(), expected: Expected::IntLit(*lit) },
                    )
                }
            },
            _ => Result::Err(
                DecodeError { path: name.full_path(), expected: Expected::IntLitKind },
            ),
        },
        ConvexType::BoolLiteral(lit) => match v {
            Option::Some(ConvexValue::Boolean(b)) => if *b == *lit {
                Result::Ok(ModelValue::Bool(*b))
            } else {
                Result::Err(
                    DecodeError { path: name.full_path(), expected: Expected::BoolLit(*lit) },
                )
            },
            _ => Result::Err(
                DecodeError { path: name.full_path(), expected: Expected::BoolLitKind },
            ),
        },
        ConvexType::StringLiteral(lit) => match v {
            Option::Some(ConvexValue::Str(s)) => if s.eq(lit) {
                Result::Ok(ModelValue::Str(s.clone()))
            } else {
                Result::Err(
                    DecodeError {
                        path: name.full_path(),
                        expected: Expected::StrLit(lit.clone()),
                    },
                )
            },
            _ => Result::Err(
                DecodeError { path: name.full_path(), expected: Expected::StrLitKind },
            ),
        },
        _ => Result::Err(DecodeError { path: name.full_path(), expected: Expected::Object }),
    }
}

/// Decodes one declared field against the value found under its key; an
/// absent key arrives as `None`.
pub fn decode_field(f: &ConvexField, v: Option<&ConvexValue>) -> (r: Result<
    ModelValue,
    DecodeError,
>)
    ensures
        view_decode_result(r) == spec_decode_field(f@, view_opt(v)),
    decreases *f, 3int,
{
    match &f.t {
        ConvexType::Object(fields) => match v {
            Option::Some(dv) => decode_record(&f.name, fields, dv),
            Option::None => Result::Err(
                DecodeError { path: f.name.full_path(), expected: Expected::Object },
            ),
        },
        ConvexType::Union(branches) => match v {
            Option::Some(dv) => decode_union(&f.name, branches, dv),
            Option::None => Result::Err(
                DecodeError { path: f.name.full_path(), expected: Expected::Union },
            ),
        },
        ConvexType::Optional(inner) => match v {
            Option::None => Result::Ok(ModelValue::Absent),
            Option::Some(ConvexValue::Null) => Result::Ok(ModelValue::Absent),
            Option::Some(dv) => match decode_field(&**inner, Option::Some(dv)) {
                Result::Ok(tv) => Result::Ok(ModelValue::Present(Box::new(tv))),
                Result::Err(e) => Result::Err(e),
            },
        },
        _ => decode_prim(&f.t, &f.name, v),
    }
}

/// Decodes a record: the value must be an object, and every declared
/// field must decode from the entry under its name.
fn decode_record(name: &ConvexName, fields: &Vec<ConvexField>, v: &ConvexValue) -> (r: Result<
    ModelValue,
    DecodeError,
>)
    ensures
        view_decode_result(r) == spec_decode_record(name@.full_path(), view_fields(*fields, 0), v@),
    decreases *fields, 5int,
{
    match v {
        ConvexValue::Object(entries) => match decode_fields(fields, entries) {
            Result::Ok(tvs) => Result::Ok(ModelValue::Record(tvs)),
            Result::Err(e) => Result::Err(e),
        },
        _ => Result::Err(DecodeError { path: name.full_path(), expected: Expected::Object }),
    }
}

/// Fail-fast decode of a record's declared fields, in declaration order.
fn decode_fields(fields: &Vec<ConvexField>, entries: &Vec<(String, ConvexValue)>) -> (r: Result<
    Vec<(String, ModelValue)>,
    DecodeError,
>)
    ensures
        view_fields_result(r) == spec_decode_fields(
            view_fields(*fields, 0),
            view_dyn_entries(*entries, 0),
        ),
    decreases *fields, 4int,
{
    let ghost fm = view_fields(*fields, 0);
    let ghost em = view_dyn_entries(*entries, 0);
    proof {
        crate::model::lemma_view_fields_index(*fields, 0);
    }
    let mut out: Vec<(String, ModelValue)> = Vec::new();
    let mut j: usize = 0;
    while j < fields.len()
        invariant
            j <= fields@.len(),
            out@.len() == j,
            fm == view_fields(*fields, 0),
            em == view_dyn_entries(*entries, 0),
            fm.len() == fields@.len(),
            forall|k: int| 0 <= k < fm.len() ==> fm[k] == #[trigger] fields@[k]@,
            forall|k: int|
                0 <= k < j ==> spec_decode_field(
                    #[trigger] fm[k],
                    lookup_entry(em, fm[k].name.id),
                ) == Result::<TypedValue, ErrModel>::Ok(out@[k].1@) && out@[k].0@
                    == fm[k].name.id,
        decreases fields@.len() - j,
    {
        let fld = &fields[j];
        let found = lookup(entries, &fld.name.id);
        match decode_field(fld, found) {
            Result::Err(e) => {
                proof {
                    lemma_decode_fields_first_err(fm, em, j as int, e@);
                }
                return Result::Err(e);
            },
            Result::Ok(tv) => {
                out.push((fld.name.id.clone(), tv));
                j = j + 1;
            },
        }
    }
    proof {
        crate::values::lemma_view_typed_entries_index(out, 0);
        lemma_decode_fields_all_ok(fm, em, view_typed_entries(out, 0));
    }
    Result::Ok(out)
}

/// Trial decode of one union branch; `None` means the branch does not
/// match.
fn decode_branch(t: &ConvexType, v: &ConvexValue) -> (r: Option<ModelValue>)
    ensures
        view_opt_decoded(r) == spec_decode_branch(t@, v@),
    decreases *t, 5int,
{
    match t {
        ConvexType::Id(_) | ConvexType::String => match v {
            ConvexValue::Str(s) => Option::Some(ModelValue::Str(s.clone())),
            _ => Option::None,
        },
        ConvexType::Null => match v {
            ConvexValue::Null => Option::Some(ModelValue::Unit),
            _ => Option::None,
        },
        ConvexType::Int64 => match v {
            ConvexValue::Int64(i) => Option::Some(ModelValue::Int(*i)),
            ConvexValue::Float64(b) => Option::Some(ModelValue::Int(f64_bits_trunc_to_i64(*b))),
            _ => Option::None,
        },
        ConvexType::Number => match v {
            ConvexValue::Int64(i) => Option::Some(ModelValue::Float(i64_to_f64_bits(*i))),
            ConvexValue::Float64(b) => Option::Some(ModelValue::Float(*b)),
            _ => Option::None,
        },
        ConvexType::Bool => match v {
            ConvexValue::Boolean(b) => Option::Some(ModelValue::Bool(*b)),
            _ => Option::None,
        },
        ConvexType::IntLiteral(lit) => match v {
            ConvexValue::Int64(i) => if *i == *lit {
                Option::Some(ModelValue::Int(*i))
            } else {
                Option::None
            },
            ConvexValue::Float64(b) => {
                let tr = f64_bits_trunc_to_i64(*b);
                if tr == *lit {
                    Option::Some(ModelValue::Int(tr))
                } else {
                    Option::None
                }
            },
            _ => Option::None,
        },
        ConvexType::BoolLiteral(lit) => match v {
            ConvexValue::Boolean(b) => if *b == *lit {
                Option::Some(ModelValue::Bool(*b))
            } else {
                Option::None
            },
            _ => Option::None,
        },
        ConvexType::StringLiteral(lit) => match v {
            ConvexValue::Str(s) => if s.eq(lit) {
                Option::Some(ModelValue::Str(s.clone()))
            } else {
                Option::None
            },
            _ => Option::None,
        },
        ConvexType::Object(fields) => match v {
            ConvexValue::Object(entries) => match decode_fields(fields, entries) {
                Result::Ok(tvs) => Option::Some(ModelValue::Record(tvs)),
                Result::Err(_) => Option::None,
            },
            _ => Option::None,
        },
        ConvexType::Union(_) => Option::None,
        ConvexType::Optional(_) => Option::None,
    }
}

/// Decodes a union-typed field: branches are tried in declaration order
/// and the first whose full decode succeeds wins.
fn decode_union(name: &ConvexName, branches: &Vec<ConvexType>, v: &ConvexValue) -> (r: Result<
    ModelValue,
    DecodeError,
>)
    ensures
        view_decode_result(r) == spec_decode_union(
            name@.full_path(),
            view_branches(*branches, 0),
            v@,
        ),
    decreases *branches, 7int,
{
    let ghost bm = view_branches(*branches, 0);
    proof {
        crate::model::lemma_view_branches_index(*branches, 0);
    }
    let mut j: usize = 0;
    while j < branches.len()
        invariant
            j <= branches@.len(),
            bm == view_branches(*branches, 0),
            bm.len() == branches@.len(),
            forall|k: int| 0 <= k < bm.len() ==> bm[k] == #[trigger] branches@[k]@,
            forall|k: int| 0 <= k < j ==> spec_decode_branch(#[trigger] bm[k], v@) is None,
        decreases branches@.len() - j,
    {
        match decode_branch(&branches[j], v) {
            Option::Some(mv) => {
                proof {
                    lemma_union_from_skip(name@.full_path(), bm, v@, 0, j as int);
                }
                return Result::Ok(ModelValue::Variant((j as u64) + 1, Box::new(mv)));
            },
            Option::None => {
                j = j + 1;
            },
        }
    }
    proof {
        lemma_union_from_skip(name@.full_path(), bm, v@, 0, bm.len() as int);
    }
    Result::Err(DecodeError { path: name.full_path(), expected: Expected::UnionMatch })
}

/// The shape of typed values a schema type produces: the runtime
/// counterpart of the generated record and variant declarations, with
/// literals widened to their base type.
pub open spec fn value_of_type(t: TypeModel, tv: TypedValue) -> bool
    decreases t, 1int,
{
    match t {
        TypeModel::Id(_) | TypeModel::Str | TypeModel::StrLiteral(_) => tv is Str,
        TypeModel::Null => tv is Unit,
        TypeModel::Int64 | TypeModel::IntLiteral(_) => tv is Int,
        TypeModel::Number => tv is Float,
        TypeModel::Bool | TypeModel::BoolLiteral(_) => tv is Bool,
        TypeModel::Object(fields) => value_of_fields(fields, tv),
        TypeModel::Union(branches) => tv matches TypedValue::Variant(i, p) && 1 <= i
            <= branches.len() && value_of_type(branches[i - 1], *p),
        TypeModel::Optional(inner) => tv is Absent || (tv matches TypedValue::Present(p)
            && value_of_type(inner.t, *p)),
    }
}

/// The shape of a decoded record: one entry per declared field, in
/// declaration order, under the field's own name.
pub open spec fn value_of_fields(fields: Seq<FieldModel>, tv: TypedValue) -> bool
    decreases fields, 0int,
{
    tv matches TypedValue::Record(entries) && entries.len() == fields.len() && forall|j: int|
        0 <= j < fields.len() ==> (#[trigger] entries[j]).0 == fields[j].name.id && value_of_type(
            fields[j].t,
            entries[j].1,
        )
}

/// Type soundness of record decoding: a record is only constructed once
/// every declared field has decoded, and then each entry has the shape
/// its field's type declares.
pub proof fn lemma_decode_fields_well_typed(
    fields: Seq<FieldModel>,
    entries: Seq<(Seq<char>, DynValue)>,
    tvs: Seq<(Seq<char>, TypedValue)>,
)
    requires
        spec_decode_fields(fields, entries) == Result::<Seq<(Seq<char>, TypedValue)>, ErrModel>::Ok(
            tvs,
        ),
    ensures
        value_of_fields(fields, TypedValue::Record(tvs)),
    decreases fields, 4int,
{
    if fields.len() > 0 {
        let tv0 = spec_decode_field(fields[0], lookup_entry(entries, fields[0].name.id));
        lemma_decode_field_well_typed(fields[0], lookup_entry(entries, fields[0].name.id));
        let rest = spec_decode_fields(fields.drop_first(), entries);
        lemma_decode_fields_well_typed(fields.drop_first(), entries, rest->Ok_0);
        assert forall|j: int|
            0 <= j < fields.len() implies (#[trigger] tvs[j]).0 == fields[j].name.id
            && value_of_type(fields[j].t, tvs[j].1) by {
            if j > 0 {
                assert(tvs[j] == rest->Ok_0[j - 1]);
                assert(fields[j] == fields.drop_first()[j - 1]);
            }
        }
    }
}

/// Type soundness of union trial decoding from position `i`.
pub proof fn lemma_decode_union_well_typed(
    path: Seq<Seq<char>>,
    branches: Seq<TypeModel>,
    v: DynValue,
    i: int,
)
    requires
        0 <= i <= branches.len(),
        spec_decode_union_from(path, branches, v, i) is Ok,
    ensures
        ({
            let tv = spec_decode_union_from(path, branches, v, i)->Ok_0;
            tv matches TypedValue::Variant(k, p) && i + 1 <= k <= branches.len() && value_of_type(
                branches[k - 1],
                *p,
            )
        }),
    decreases branches, 6int, branches.len() - i,
{
    match spec_decode_branch(branches[i], v) {
        Option::Some(tv) => {
            lemma_decode_branch_well_typed(branches[i], v);
        },
        Option::None => {
            lemma_decode_union_well_typed(path, branches, v, i + 1);
        },
    }
}

/// Type soundness of one branch's trial decode.
pub proof fn lemma_decode_branch_well_typed(t: TypeModel, v: DynValue)
    requires
        spec_decode_branch(t, v) is Some,
    ensures
        value_of_type(t, spec_decode_branch(t, v)->Some_0),
    decreases t, 5int,
{
    match t {
        TypeModel::Object(fields) => {
            if let DynValue::Object(entries) = v {
                let r = spec_decode_fields(fields, entries);
                if r is Ok {
                    lemma_decode_fields_well_typed(fields, entries, r->Ok_0);
                }
            }
        },
        _ => {},
    }
}

/// Type soundness of decoding: whenever a field decodes, the typed value
/// has exactly the shape the field's type declares.
pub proof fn lemma_decode_field_well_typed(f: FieldModel, v: Option<DynValue>)
    requires
        spec_decode_field(f, v) is Ok,
    ensures
        value_of_type(f.t, spec_decode_field(f, v)->Ok_0),
    decreases f, 3int,
{
    match f.t {
        TypeModel::Object(fields) => {
            if let Option::Some(DynValue::Object(entries)) = v {
                let r = spec_decode_fields(fields, entries);
                assert(spec_decode_field(f, v) == spec_decode_record(
                    f.name.full_path(),
                    fields,
                    DynValue::Object(entries),
                ));
                assert(r is Ok && spec_decode_field(f, v)->Ok_0 == TypedValue::Record(r->Ok_0));
                lemma_decode_fields_well_typed(fields, entries, r->Ok_0);
            }
        },
        TypeModel::Union(branches) => {
            if let Option::Some(dv) = v {
                assert(spec_decode_field(f, v) == spec_decode_union(
                    f.name.full_path(),
                    branches,
                    dv,
                ));
                assert(spec_decode_union(f.name.full_path(), branches, dv)
                    == spec_decode_union_from(f.name.full_path(), branches, dv, 0));
                lemma_decode_union_well_typed(f.name.full_path(), branches, dv, 0);
            }
        },
        TypeModel::Optional(inner) => {
            if let Option::Some(dv) = v {
                if dv != DynValue::Null {
                    if spec_decode_field(*inner, Option::Some(dv)) is Ok {
                        lemma_decode_field_well_typed(*inner, Option::Some(dv));
                    }
                }
            }
        },
        _ => {},
    }
}

/// Numeric coercion: a number field takes both an integer-tagged and a
/// float-tagged value, widening the integer; an integer field takes both,
/// truncating the float toward zero; and the decoded payloads encode back
/// float-tagged and integer-tagged respectively.
pub proof fn lemma_numeric_coercion(nf: FieldModel, intf: FieldModel, i: i64, bits: u64)
    requires
        nf.t == TypeModel::Number,
        intf.t == TypeModel::Int64,
    ensures
        spec_decode_field(nf, Option::Some(DynValue::Int64(i))) == Result::<
            TypedValue,
            ErrModel,
        >::Ok(TypedValue::Float(spec_i64_to_f64_bits(i))),
        spec_decode_field(nf, Option::Some(DynValue::Float64(bits))) == Result::<
            TypedValue,
            ErrModel,
        >::Ok(TypedValue::Float(bits)),
        spec_decode_field(intf, Option::Some(DynValue::Int64(i))) == Result::<
            TypedValue,
            ErrModel,
        >::Ok(TypedValue::Int(i)),
        spec_decode_field(intf, Option::Some(DynValue::Float64(bits))) == Result::<
            TypedValue,
            ErrModel,
        >::Ok(TypedValue::Int(spec_f64_bits_trunc(bits))),
        crate::encode::spec_encode(TypedValue::Float(bits)) == crate::values::JsonModel::Float(
            bits,
        ),
        crate::encode::spec_encode(TypedValue::Int(i)) == crate::values::JsonModel::Int(i),
{
}

/// Literal enforcement: a string literal field accepts exactly the
/// literal; a different string fails with a literal mismatch, a value of
/// another kind with a kind mismatch, and the two errors differ.
pub proof fn lemma_literal_enforcement(f: FieldModel, lit: Seq<char>, v: DynValue)
    requires
        f.t == TypeModel::StrLiteral(lit),
    ensures
        v matches DynValue::Str(s) ==> spec_decode_field(f, Option::Some(v)) == (if s == lit {
            Result::<TypedValue, ErrModel>::Ok(TypedValue::Str(s))
        } else {
            Result::<TypedValue, ErrModel>::Err(
                ErrModel { path: f.name.full_path(), expected: ExpectedModel::StrLit(lit) },
            )
        }),
        !(v matches DynValue::Str(_)) ==> spec_decode_field(f, Option::Some(v)) == Result::<
            TypedValue,
            ErrModel,
        >::Err(ErrModel { path: f.name.full_path(), expected: ExpectedModel::StrLitKind }),
        ExpectedModel::StrLit(lit) != ExpectedModel::StrLitKind,
{
}

/// Optional absence: a missing key and an explicit null both decode an
/// optional field to the absent value; any other value decodes via the
/// inner field, a present value on success and the inner error on
/// failure.
pub proof fn lemma_optional_absence(f: FieldModel, inner: Box<FieldModel>)
    requires
        f.t == TypeModel::Optional(inner),
    ensures
        spec_decode_field(f, Option::None) == Result::<TypedValue, ErrModel>::Ok(
            TypedValue::Absent,
        ),
        spec_decode_field(f, Option::Some(DynValue::Null)) == Result::<TypedValue, ErrModel>::Ok(
            TypedValue::Absent,
        ),
        forall|dv: DynValue|
            dv != DynValue::Null ==> #[trigger] spec_decode_field(f, Option::Some(dv)) == (
            match spec_decode_field(*inner, Option::Some(dv)) {
                Result::Ok(tv) => Result::<TypedValue, ErrModel>::Ok(
                    TypedValue::Present(Box::new(tv)),
                ),
                Result::Err(e) => Result::<TypedValue, ErrModel>::Err(e),
            }),
{
}

/// Success is owed to a union whenever any branch matches: the
/// no-branch-matched error arises only when no branch accepts the value.
pub proof fn lemma_union_match_succeeds(
    path: Seq<Seq<char>>,
    branches: Seq<TypeModel>,
    v: DynValue,
    i: int,
    j: int,
)
    requires
        0 <= i <= j < branches.len(),
        spec_decode_branch(branches[j], v) is Some,
    ensures
        spec_decode_union_from(path, branches, v, i) is Ok,
    decreases j - i,
{
    if i < j && spec_decode_branch(branches[i], v) is None {
        lemma_union_match_succeeds(path, branches, v, i + 1, j);
    }
}

/// Decoding an explicit null against a union carrying a null-typed branch
/// selects the first such branch, never a failure.
pub proof fn lemma_null_union_branch(path: Seq<Seq<char>>, branches: Seq<TypeModel>, j: int)
    requires
        0 <= j < branches.len(),
        branches[j] == TypeModel::Null,
        forall|k: int| 0 <= k < j ==> #[trigger] branches[k] != TypeModel::Null,
    ensures
        spec_decode_union(path, branches, DynValue::Null) == Result::<TypedValue, ErrModel>::Ok(
            TypedValue::Variant((j + 1) as nat, Box::new(TypedValue::Unit)),
        ),
{
    assert forall|k: int| 0 <= k < j implies spec_decode_branch(
        #[trigger] branches[k],
        DynValue::Null,
    ) is None by {
        let t = branches[k];
        assert(!(t is Null));
    }
    lemma_union_from_skip(path, branches, DynValue::Null, 0, j);
}

impl ConvexField {
    /// Decodes a dynamic value against this schema field, producing the
    /// typed value or the first failing field's error.
    pub fn from_convex_value(&self, value: &ConvexValue) -> (r: Result<ModelValue, DecodeError>)
        ensures
            view_decode_result(r) == spec_decode_field(self@, Option::Some(value@)),
    {
        decode_field(self, Option::Some(value))
    }
}

} // verus!
