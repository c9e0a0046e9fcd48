//! The serialization side of the compiled schema: total encoding of a
//! typed value into the generic JSON-like value model.
//!
//! A well-formed typed value always encodes; there is no failure path.
//! A union value encodes as the wrapped value itself, never as a tagged
//! envelope, and an absent optional encodes as null.

use vstd::prelude::*;
use crate::values::{JsonModel, JsonValue, ModelValue, TypedValue, view_json_entries,
    view_typed_entries, lemma_view_json_entries_index, lemma_view_typed_entries_index};

verus! {

broadcast use vstd::std_specs::vec::group_vec_axioms;

/// The encoding of a typed value: primitives map to their natural JSON
/// counterparts, records to objects, an absent optional to null, and a
/// present optional or a union variant to the inner value directly.
pub open spec fn spec_encode(v: TypedValue) -> JsonModel
    decreases v, 1int,
{
    match v {
        TypedValue::Unit => JsonModel::Null,
        TypedValue::Bool(b) => JsonModel::Bool(b),
        TypedValue::Int(i) => JsonModel::Int(i),
        TypedValue::Float(bits) => JsonModel::Float(bits),
        TypedValue::Str(s) => JsonModel::Str(s),
        TypedValue::Record(entries) => JsonModel::Object(spec_encode_entries(entries)),
        TypedValue::Variant(_, payload) => spec_encode(*payload),
        TypedValue::Absent => JsonModel::Null,
        TypedValue::Present(inner) => spec_encode(*inner),
    }
}

/// The encoding of a record's entries, one per field, in order, under the
/// same keys the decoder looked up.
pub open spec fn spec_encode_entries(entries: Seq<(Seq<char>, TypedValue)>) -> Seq<
    (Seq<char>, JsonModel),
>
    decreases entries, 0int,
{
    if entries.len() == 0 {
        Seq::empty()
    } else {
        seq![(entries[0].0, spec_encode(entries[0].1))] + spec_encode_entries(entries.drop_first())
    }
}

pub proof fn lemma_encode_entries_index(entries: Seq<(Seq<char>, TypedValue)>)
    ensures
        spec_encode_entries(entries).len() == entries.len(),
        forall|k: int|
            0 <= k < entries.len() ==> spec_encode_entries(entries)[k] == (
                entries[k].0,
                spec_encode(entries[k].1),
            ),
    decreases entries.len(),
{
    if entries.len() > 0 {
        lemma_encode_entries_index(entries.drop_first());
        assert forall|k: int|
            0 <= k < entries.len() implies spec_encode_entries(entries)[k] == (
            entries[k].0,
            spec_encode(entries[k].1),
        ) by {
            if k > 0 {
                assert(spec_encode_entries(entries)[k] == spec_encode_entries(
                    entries.drop_first(),
                )[k - 1]);
            }
        }
    }
}

/// Encoding never wraps a union value in an envelope: a variant encodes
/// exactly as its payload does, whatever the branch position.
pub proof fn lemma_union_encode_flattens(i: nat, payload: TypedValue)
    ensures
        spec_encode(TypedValue::Variant(i, Box::new(payload))) == spec_encode(payload),
{
}

/// Round trip for primitive and literal fields: when such a field decodes
/// a value whose tag matches the field's own kind, encoding the result
/// reproduces the value's JSON shape exactly.  The numeric coercions are
/// the one exception and are excluded here: an integer fed to a number
/// field comes back float-tagged, and a float fed to an integer field
/// comes back integer-tagged.
pub proof fn lemma_round_trip_primitive(
    f: crate::model::FieldModel,
    v: crate::values::DynValue,
    tv: TypedValue,
)
    requires
        !(f.t is Object),
        !(f.t is Union),
        !(f.t is Optional),
        crate::decode::spec_decode_field(f, Option::Some(v)) == Result::<
            TypedValue,
            crate::decode::ErrModel,
        >::Ok(tv),
        !(f.t is Int64 && v is Float64),
        !(f.t is IntLiteral && v is Float64),
        !(f.t is Number && v is Int64),
    ensures
        spec_encode(tv) == crate::values::json_of_dyn(v),
{
}

/// Encodes a typed value; total, per [`spec_encode`].
#[verifier::loop_isolation(false)]
pub fn encode(v: &ModelValue) -> (r: JsonValue)
    ensures
        r@ == spec_encode(v@),
    decreases *v,
{
    match v {
        ModelValue::Unit => JsonValue::Null,
        ModelValue::Bool(b) => JsonValue::Bool(*b),
        ModelValue::Int(i) => JsonValue::Int(*i),
        ModelValue::Float(bits) => JsonValue::Float(*bits),
        ModelValue::Str(s) => JsonValue::Str(s.clone()),
        ModelValue::Record(entries) => {
            let ghost em = view_typed_entries(*entries, 0);
            proof {
                lemma_view_typed_entries_index(*entries, 0);
                lemma_encode_entries_index(em);
            }
            let mut out: Vec<(String, JsonValue)> = Vec::new();
            let mut j: usize = 0;
            while j < entries.len()
                invariant
                    j <= entries@.len(),
                    out@.len() == j,
                    em == view_typed_entries(*entries, 0),
                    em.len() == entries@.len(),
                    forall|k: int| #![trigger em[k]]
                        0 <= k < em.len() ==> em[k] == (entries@[k].0@, entries@[k].1@),
                    forall|k: int| #![trigger out@[k]]
                        0 <= k < j ==> out@[k].0@ == em[k].0 && out@[k].1@ == spec_encode(em[k].1),
                decreases entries@.len() - j,
            {
                let entry = &entries[j];
                let jv = encode(&entry.1);
                out.push((entry.0.clone(), jv));
                j = j + 1;
            }
            proof {
                lemma_view_json_entries_index(out, 0);
                assert(view_json_entries(out, 0) =~= spec_encode_entries(em));
            }
            JsonValue::Object(out)
        },
        ModelValue::Variant(_, payload) => encode(&**payload),
        ModelValue::Absent => JsonValue::Null,
        ModelValue::Present(inner) => encode(&**inner),
    }
}

} // verus!
