//! Attribute lookup and the field-tag resolution rules: which attribute a
//! tag name selects, what literal an attribute argument carries, and the
//! `delta_ignore` disposition that decides whether a field is exposed.

use vstd::prelude::*;

use crate::ast::{AttrArgs, AttrNode, FieldNode, LitValue, MacroError};
use crate::text::str_eq;

verus! {

/// Whether the attribute is an outer attribute carrying the given name.
pub open spec fn attr_matches(a: AttrNode, name: Seq<char>) -> bool {
    a.outer && a.name@ == name
}

/// The index of the first outer attribute with the given name, if any.
pub open spec fn find_attr_from(attrs: Seq<AttrNode>, name: Seq<char>, i: int) -> Option<int>
    decreases attrs.len() - i,
{
    if i < 0 || i >= attrs.len() {
        None
    } else if attr_matches(attrs[i], name) {
        Some(i)
    } else {
        find_attr_from(attrs, name, i + 1)
    }
}

/// The index of the first outer attribute with the given name, if any.
pub open spec fn find_attr(attrs: Seq<AttrNode>, name: Seq<char>) -> Option<int> {
    find_attr_from(attrs, name, 0)
}

/// Whether some outer attribute with the given name is present.
pub open spec fn has_attr(attrs: Seq<AttrNode>, name: Seq<char>) -> bool {
    find_attr(attrs, name) is Some
}

proof fn lemma_find_attr_from(attrs: Seq<AttrNode>, name: Seq<char>, k: int, i: int)
    requires
        0 <= k <= i <= attrs.len(),
        forall|j: int| k <= j < i ==> !attr_matches(attrs[j], name),
        i < attrs.len() ==> attr_matches(attrs[i], name),
    ensures
        find_attr_from(attrs, name, k) == if i < attrs.len() {
            Some(i)
        } else {
            None::<int>
        },
    decreases i - k,
{
    if k < i {
        lemma_find_attr_from(attrs, name, k + 1, i);
    }
}

/// Whether the attribute is written in outer style; only such attributes
/// take part in tag lookup.
pub fn is_outer_attribute(attr: &AttrNode) -> (r: bool)
    ensures
        r == attr.outer,
{
    attr.outer
}

/// Finds the first outer attribute of the field carrying the given name and
/// returns its position.
pub fn has_attribute(field: &FieldNode, attr_type: &str) -> (r: Option<usize>)
    ensures
        r matches Some(i) ==> i < field.attrs@.len() && attr_matches(field.attrs@[i as int], attr_type@)
            && find_attr(field.attrs@, attr_type@) == Some(i as int),
        r is None ==> find_attr(field.attrs@, attr_type@) is None,
{
    let n = field.attrs.len();
    let mut i: usize = 0;
    while i < n
        invariant
            0 <= i <= n,
            n == field.attrs@.len(),
            forall|j: int| 0 <= j < i ==> !attr_matches(field.attrs@[j], attr_type@),
        decreases n - i,
    {
        let attr = &field.attrs[i];
        if is_outer_attribute(attr) && str_eq(attr.name.as_str(), attr_type) {
            proof {
                lemma_find_attr_from(field.attrs@, attr_type@, 0, i as int);
            }
            return Some(i);
        }
        i += 1;
    }
    proof {
        lemma_find_attr_from(field.attrs@, attr_type@, 0, n as int);
    }
    None
}

/// Whether the field is declared public.
pub fn is_public(field: &FieldNode) -> (r: bool)
    ensures
        r == field.public,
{
    field.public
}

/// The outcome of looking for a single literal argument on an attribute.
#[derive(Debug, PartialEq)]
pub enum LitLookup {
    /// Exactly one literal argument was found.
    Found(LitValue),
    /// A nested meta item stood where a literal was demanded.
    Rejected,
    /// No usable argument; the tag's default behavior applies.
    Absent,
}

/// What [`get_arg_literal`] returns for the given arguments: a single
/// literal is handed out; a single nested meta item is rejected when the
/// caller demanded a literal; everything else counts as no argument.
pub open spec fn spec_arg_literal(args: AttrArgs, raise_error: bool) -> LitLookup {
    match args {
        AttrArgs::LitArg(l) => LitLookup::Found(l),
        AttrArgs::MetaArg => if raise_error {
            LitLookup::Rejected
        } else {
            LitLookup::Absent
        },
        AttrArgs::NoArgs => LitLookup::Absent,
        AttrArgs::Multi => LitLookup::Absent,
    }
}

/// Extracts the single literal argument of an attribute, if it has one.
/// With `raise_error` set, a nested meta item in argument position is
/// reported instead of being passed over.
pub fn get_arg_literal(attr: &AttrNode, raise_error: bool) -> (r: LitLookup)
    ensures
        r == spec_arg_literal(attr.args, raise_error),
{
    match &attr.args {
        AttrArgs::LitArg(l) => LitLookup::Found(l.clone()),
        AttrArgs::MetaArg => if raise_error {
            LitLookup::Rejected
        } else {
            LitLookup::Absent
        },
        AttrArgs::NoArgs => LitLookup::Absent,
        AttrArgs::Multi => LitLookup::Absent,
    }
}

/// The `delta_ignore` disposition of a field: an explicit boolean argument
/// wins; a bare tag means ignored; no tag falls back to the visibility
/// default (public fields are ignored, non-public fields are exposed). A
/// non-boolean literal or a nested meta item is a compile error located at
/// the field.
pub open spec fn spec_delta_ignore(f: FieldNode) -> Result<bool, MacroError> {
    match find_attr(f.attrs@, "delta_ignore"@) {
        None => Ok(f.public),
        Some(i) => match spec_arg_literal(f.attrs@[i].args, true) {
            LitLookup::Found(LitValue::Bool(b)) => Ok(b),
            LitLookup::Found(_) => Err(MacroError::BadTagArg { field: f.name }),
            LitLookup::Rejected => Err(MacroError::BadTagArg { field: f.name }),
            LitLookup::Absent => Ok(true),
        },
    }
}

/// Resolves whether setter and reset generation is suppressed for the
/// field.
pub fn delta_ignore(field: &FieldNode) -> (r: Result<bool, MacroError>)
    ensures
        r == spec_delta_ignore(*field),
{
    match has_attribute(field, "delta_ignore") {
        None => Ok(is_public(field)),
        Some(i) => match get_arg_literal(&field.attrs[i], true) {
            LitLookup::Found(LitValue::Bool(b)) => Ok(b),
            LitLookup::Found(_) => Err(
                MacroError::BadTagArg { field: field.name.clone() },
            ),
            LitLookup::Rejected => Err(MacroError::BadTagArg { field: field.name.clone() }),
            LitLookup::Absent => Ok(true),
        },
    }
}

} // verus!
