//! The name resolver: canonical identifiers for generated record and
//! variant types, derived from a field's nesting path.
//!
//! Capitalization is the Unicode uppercase mapping of the leading
//! character, which may expand it to several characters.

use vstd::prelude::*;
use crate::model::{ConvexName, NameModel};

verus! {

/// What `char::to_uppercase` yields for a character: its Unicode
/// uppercase mapping, one or more characters.
pub uninterp spec fn upper_of(c: char) -> Seq<char>;

/// Relies on `char::to_uppercase`: yields the Unicode uppercase mapping
/// of the character, which depends on the character alone.
#[verifier::external_body]
fn char_to_uppercase(c: char) -> (r: Vec<char>)
    ensures
        r@ == upper_of(c),
{
    c.to_uppercase().collect()
}

/// The capitalization of a whole segment: the first character is replaced
/// by its Unicode uppercase mapping, the rest is kept as it is.
pub open spec fn spec_capitalize(s: Seq<char>) -> Seq<char> {
    if s.len() == 0 {
        s
    } else {
        upper_of(s[0]) + s.skip(1)
    }
}

/// The type name a qualified field name resolves to: every path segment
/// and the id capitalized, concatenated in path order.
pub open spec fn spec_struct_name_parts(parts: Seq<Seq<char>>) -> Seq<char>
    decreases parts.len(),
{
    if parts.len() == 0 {
        Seq::empty()
    } else {
        spec_struct_name_parts(parts.drop_last()) + spec_capitalize(parts.last())
    }
}

pub open spec fn spec_struct_name(n: NameModel) -> Seq<char> {
    spec_struct_name_parts(n.full_path())
}

/// Capitalizes the first character of a segment, leaving the rest intact.
pub fn capitalize_first_char(s: &str) -> (r: String)
    ensures
        r@ == spec_capitalize(s@),
{
    let n: usize = s.unicode_len();
    if n == 0 {
        let r = String::new();
        assert(r@ =~= spec_capitalize(s@));
        r
    } else {
        let c: char = s.get_char(0);
        let rest: &str = s.substring_char(1, n);
        let ups = char_to_uppercase(c);
        let mut r = String::new();
        let mut i: usize = 0;
        while i < ups.len()
            invariant
                i <= ups@.len(),
                ups@ == upper_of(c),
                r@ == upper_of(c).take(i as int),
            decreases ups@.len() - i,
        {
            push_char(&mut r, ups[i]);
            proof {
                assert(upper_of(c).take(i + 1) =~= upper_of(c).take(i as int).push(
                    upper_of(c)[i as int],
                ));
            }
            i = i + 1;
        }
        proof {
            assert(r@ =~= upper_of(c));
        }
        r.append(rest);
        assert(r@ =~= spec_capitalize(s@));
        r
    }
}

/// Relies on `String::push`: appends the given character to the end of
/// the string.
#[verifier::external_body]
pub fn push_char(s: &mut String, c: char)
    ensures
        final(s)@ == old(s)@.push(c),
{
    s.push(c);
}

impl ConvexName {
    /// The full path of this field: its ancestors' names then its own.
    pub fn full_path(&self) -> (r: Vec<String>)
        ensures
            r.deep_view() == self@.full_path(),
    {
        let mut v: Vec<String> = Vec::new();
        let mut i: usize = 0;
        while i < self.path.len()
            invariant
                i <= self.path.len(),
                v@.len() == i,
                forall|j: int| 0 <= j < i ==> v@[j] == self.path@[j],
            decreases self.path.len() - i,
        {
            v.push(self.path[i].clone());
            i = i + 1;
        }
        v.push(self.id.clone());
        assert(v.deep_view() =~= self@.full_path());
        v
    }

    /// The name of the record or variant type generated for this field.
    pub fn to_struct_name(&self) -> (r: String)
        ensures
            r@ == spec_struct_name(self@),
    {
        let parts = self.full_path();
        let mut r = String::new();
        let mut i: usize = 0;
        while i < parts.len()
            invariant
                i <= parts.len(),
                parts.deep_view() == self@.full_path(),
                r@ == spec_struct_name_parts(parts.deep_view().take(i as int)),
            decreases parts.len() - i,
        {
            let cap = capitalize_first_char(parts[i].as_str());
            r.append(cap.as_str());
            proof {
                assert(parts.deep_view().take(i + 1).drop_last() =~= parts.deep_view().take(
                    i as int,
                ));
                assert(parts.deep_view().take(i + 1).last() == parts.deep_view()[i as int]);
            }
            i = i + 1;
        }
        proof {
            assert(parts.deep_view().take(parts.deep_view().len() as int) =~= parts.deep_view());
        }
        r
    }

    /// A copy of this name, equal to it in the model.
    pub fn duplicate(&self) -> (r: ConvexName)
        ensures
            r@ == self@,
    {
        let mut v: Vec<String> = Vec::new();
        let mut i: usize = 0;
        while i < self.path.len()
            invariant
                i <= self.path.len(),
                v@.len() == i,
                forall|j: int| 0 <= j < i ==> v@[j] == self.path@[j],
            decreases self.path.len() - i,
        {
            v.push(self.path[i].clone());
            i = i + 1;
        }
        let r = ConvexName { path: v, id: self.id.clone() };
        assert(r@.path =~= self@.path);
        r
    }

    /// The member name generated for this field: its id, verbatim.
    pub fn to_field_name(&self) -> (r: String)
        ensures
            r@ == self@.id,
    {
        self.id.clone()
    }
}

/// Identical qualified names resolve to identical type names: resolution
/// is a pure function of the full path.
pub proof fn lemma_struct_name_deterministic(a: NameModel, b: NameModel)
    requires
        a.full_path() == b.full_path(),
    ensures
        spec_struct_name(a) == spec_struct_name(b),
{
}

} // verus!
