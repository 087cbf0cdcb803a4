//! The derive synthesizer: resolves every field of the augmented record
//! into a [`FieldPlan`] — exposed or suppressed, aggregate-reset member or
//! not, declared default — and emits the generated per-field surface: the
//! names of the setter and reset methods, the aggregate reset participants,
//! and the default constructor.

use vstd::prelude::*;

use crate::ast::{is_reserved_name, FieldNode, LitValue, MacroError, RecordFields, RecordNode};
use crate::attrs::{
    delta_ignore, find_attr, get_arg_literal, has_attr, has_attribute, spec_arg_literal,
    spec_delta_ignore, LitLookup,
};
use crate::text::{concat_names, str_eq};

verus! {

/// What the derive decided for one non-reserved field.
#[derive(Debug, Clone, PartialEq)]
pub struct FieldPlan {
    /// The field's name.
    pub name: String,
    /// The field's type expression, as text.
    pub ty: String,
    /// Whether a setter and a per-field reset are generated.
    pub exposed: bool,
    /// Whether the field takes part in the aggregate reset.
    pub in_reset: bool,
    /// The user-declared default literal, if the field carries one.
    pub default_lit: Option<LitValue>,
}

/// The generated per-field surface of one record: every non-reserved field
/// in declaration order, and the capacity stored into `__num_fields`.
#[derive(Debug, Clone, PartialEq)]
pub struct NodeSurface {
    /// The record's type name.
    pub record_name: String,
    /// One plan per non-reserved field, in declaration order.
    pub fields: Vec<FieldPlan>,
    /// The value the default constructor stores into `__num_fields`: the
    /// count of non-reserved fields.
    pub num_fields: usize,
}

/// The synthesized default constructor: a heap allocation that fills the
/// listed fields with their defaults, stores the capacity, and zeroes the
/// population count.
#[derive(Debug, Clone, PartialEq)]
pub struct InitDecl {
    /// The record's type name.
    pub record_name: String,
    /// The fields the constructor fills, in declaration order.
    pub field_names: Vec<String>,
    /// The value stored into `__num_fields`.
    pub num_fields: usize,
}

/// A field that per-field generation considers: one not owned by the
/// framework.
pub open spec fn non_reserved(f: FieldNode) -> bool {
    !is_reserved_name(f.name@)
}

/// The non-reserved fields of a record, in declaration order.
pub open spec fn kept_fields(ifs: Seq<FieldNode>) -> Seq<FieldNode>
    decreases ifs.len(),
{
    if ifs.len() == 0 {
        Seq::empty()
    } else {
        let rest = kept_fields(ifs.drop_last());
        if non_reserved(ifs.last()) {
            rest.push(ifs.last())
        } else {
            rest
        }
    }
}

/// Whether the field carries the tag that keeps it out of the aggregate
/// reset.
pub open spec fn spec_noreset(f: FieldNode) -> bool {
    has_attr(f.attrs@, "delta_noreset"@)
}

/// The declared default literal of a field: the single literal argument of
/// its `delta_default` tag, if both are present.
pub open spec fn spec_default_lit(f: FieldNode) -> Option<LitValue> {
    match find_attr(f.attrs@, "delta_default"@) {
        None => None,
        Some(i) => match spec_arg_literal(f.attrs@[i].args, false) {
            LitLookup::Found(l) => Some(l),
            LitLookup::Rejected => None,
            LitLookup::Absent => None,
        },
    }
}

/// The plan the derive owes a non-reserved field: name and type carried
/// over, exposure by the `delta_ignore` disposition, aggregate-reset
/// membership unless `delta_noreset` is present, and the declared default.
pub open spec fn plan_matches_field(p: FieldPlan, f: FieldNode) -> bool {
    &&& p.name == f.name
    &&& p.ty == f.ty
    &&& spec_delta_ignore(f) matches Ok(ig) && p.exposed == !ig
    &&& p.in_reset == (p.exposed && !spec_noreset(f))
    &&& p.default_lit == spec_default_lit(f)
}

/// Every non-reserved field's `delta_ignore` disposition resolves without a
/// compile error.
pub open spec fn fields_resolve(ifs: Seq<FieldNode>) -> bool {
    forall|i: int|
        0 <= i < ifs.len() && non_reserved(#[trigger] ifs[i]) ==> spec_delta_ignore(ifs[i]) is Ok
}

/// The surface the derive owes a record: its name, one matching plan per
/// non-reserved field in order, and the capacity equal to their count.
pub open spec fn surface_matches_record(s: NodeSurface, input: RecordNode) -> bool {
    &&& s.record_name == input.name
    &&& input.fields matches RecordFields::Named(ifs) && {
        let kept = kept_fields(ifs@);
        &&& s.fields@.len() == kept.len()
        &&& forall|k: int|
            0 <= k < kept.len() ==> #[trigger] plan_matches_field(s.fields@[k], kept[k])
        &&& s.num_fields == kept.len()
    }
}

/// The error of the first non-reserved field whose `delta_ignore`
/// disposition fails, with every earlier non-reserved field resolving.
pub open spec fn first_field_error(ifs: Seq<FieldNode>, e: MacroError) -> bool {
    exists|i: int|
        0 <= i < ifs.len() && non_reserved(#[trigger] ifs[i]) && spec_delta_ignore(ifs[i])
            == Err::<bool, MacroError>(e) && (forall|j: int|
            0 <= j < i && non_reserved(#[trigger] ifs[j]) ==> spec_delta_ignore(ifs[j]) is Ok)
}

/// Resolves the augmented record into its generated per-field surface.
/// Records without named fields are rejected; a malformed `delta_ignore`
/// argument on the first offending field is reported as the field's error.
pub fn register_delta_node(input: &RecordNode) -> (r: Result<NodeSurface, MacroError>)
    ensures
        r is Ok <==> (input.fields matches RecordFields::Named(ifs) && fields_resolve(ifs@)),
        !(input.fields is Named) ==> r == Err::<NodeSurface, MacroError>(
            MacroError::UnsupportedShape,
        ),
        r matches Ok(s) ==> surface_matches_record(s, *input),
        r matches Err(e) ==> input.fields matches RecordFields::Named(ifs) ==> first_field_error(
            ifs@,
            e,
        ),
{
    let fields = match &input.fields {
        RecordFields::Named(fs) => fs,
        RecordFields::Unnamed => {
            return Err(MacroError::UnsupportedShape);
        },
        RecordFields::Unit => {
            return Err(MacroError::UnsupportedShape);
        },
    };
    let n = fields.len();
    let mut plans: Vec<FieldPlan> = Vec::new();
    let mut i: usize = 0;
    while i < n
        invariant
            input.fields == RecordFields::Named(*fields),
            0 <= i <= n,
            n == fields@.len(),
            plans@.len() == kept_fields(fields@.take(i as int)).len(),
            forall|k: int|
                0 <= k < plans@.len() ==> #[trigger] plan_matches_field(
                    plans@[k],
                    kept_fields(fields@.take(i as int))[k],
                ),
            forall|j: int|
                0 <= j < i && non_reserved(#[trigger] fields@[j]) ==> spec_delta_ignore(fields@[j])
                    is Ok,
        decreases n - i,
    {
        let f = &fields[i];
        let reserved = str_eq(f.name.as_str(), "__set_fields") || str_eq(
            f.name.as_str(),
            "__num_fields",
        );
        if !reserved {
            let ignored = match delta_ignore(f) {
                Ok(b) => b,
                Err(e) => {
                    proof {
                        assert(non_reserved(fields@[i as int]));
                        assert(spec_delta_ignore(fields@[i as int]) == Err::<bool, MacroError>(e));
                        assert(!fields_resolve(fields@));
                        assert(first_field_error(fields@, e)) by {
                            assert((i as int) < fields@.len() && non_reserved(
                                fields@[i as int],
                            ) && spec_delta_ignore(fields@[i as int]) == Err::<bool, MacroError>(e)
                                && (forall|j: int|
                                0 <= j < i as int && non_reserved(#[trigger] fields@[j])
                                    ==> spec_delta_ignore(fields@[j]) is Ok));
                        }
                    }
                    return Err(e);
                },
            };
            let noreset = match has_attribute(f, "delta_noreset") {
                Some(_) => true,
                None => false,
            };
            let default_lit = match has_attribute(f, "delta_default") {
                Some(j) => match get_arg_literal(&f.attrs[j], false) {
                    LitLookup::Found(l) => Some(l),
                    LitLookup::Rejected => None,
                    LitLookup::Absent => None,
                },
                None => None,
            };
            plans.push(
                FieldPlan {
                    name: f.name.clone(),
                    ty: f.ty.clone(),
                    exposed: !ignored,
                    in_reset: !ignored && !noreset,
                    default_lit,
                },
            );
        }
        proof {
            assert(fields@.take(i as int + 1).drop_last() =~= fields@.take(i as int));
            assert(fields@.take(i as int + 1).last() == fields@[i as int]);
        }
        i += 1;
    }
    proof {
        assert(fields@.take(n as int) =~= fields@);
    }
    let num_fields = plans.len();
    Ok(NodeSurface { record_name: input.name.clone(), fields: plans, num_fields })
}

/// Builds the default constructor for the given field list: every listed
/// field is filled with its default, `__num_fields` is set to the count of
/// listed fields, and `__set_fields` to zero.
pub fn default_initialize(field_list: &Vec<String>, name: &String) -> (r: InitDecl)
    ensures
        r.record_name == *name,
        r.field_names@.len() == field_list@.len(),
        forall|k: int| 0 <= k < field_list@.len() ==> r.field_names@[k] == field_list@[k],
        r.num_fields == field_list@.len(),
{
    let n = field_list.len();
    let mut names: Vec<String> = Vec::new();
    let mut i: usize = 0;
    while i < n
        invariant
            0 <= i <= n,
            n == field_list@.len(),
            names@.len() == i,
            forall|k: int| 0 <= k < i ==> names@[k] == field_list@[k],
        decreases n - i,
    {
        names.push(field_list[i].clone());
        i += 1;
    }
    InitDecl { record_name: name.clone(), field_names: names, num_fields: n }
}

/// The names of the fields the default constructor fills: every
/// non-reserved field, in declaration order.
pub fn init_field_list(surface: &NodeSurface) -> (r: Vec<String>)
    ensures
        r@.len() == surface.fields@.len(),
        forall|k: int| 0 <= k < r@.len() ==> r@[k] == surface.fields@[k].name,
{
    let n = surface.fields.len();
    let mut names: Vec<String> = Vec::new();
    let mut i: usize = 0;
    while i < n
        invariant
            0 <= i <= n,
            n == surface.fields@.len(),
            names@.len() == i,
            forall|k: int| 0 <= k < i ==> names@[k] == surface.fields@[k].name,
        decreases n - i,
    {
        names.push(surface.fields[i].name.clone());
        i += 1;
    }
    names
}

/// The exposed plans of a surface: the fields that receive a setter and a
/// per-field reset.
pub open spec fn exposed_plans(ps: Seq<FieldPlan>) -> Seq<FieldPlan>
    decreases ps.len(),
{
    if ps.len() == 0 {
        Seq::empty()
    } else {
        let rest = exposed_plans(ps.drop_last());
        if ps.last().exposed {
            rest.push(ps.last())
        } else {
            rest
        }
    }
}

/// The plans that take part in the aggregate reset.
pub open spec fn reset_plans(ps: Seq<FieldPlan>) -> Seq<FieldPlan>
    decreases ps.len(),
{
    if ps.len() == 0 {
        Seq::empty()
    } else {
        let rest = reset_plans(ps.drop_last());
        if ps.last().in_reset {
            rest.push(ps.last())
        } else {
            rest
        }
    }
}

/// The names of the generated per-field methods: for each exposed field, in
/// declaration order, its setter `__set_<field>` followed by its reset
/// `__reset_<field>`.
pub fn generated_method_names(surface: &NodeSurface) -> (r: Vec<String>)
    ensures
        r@.len() == 2 * exposed_plans(surface.fields@).len(),
        forall|k: int|
            0 <= k < exposed_plans(surface.fields@).len() ==> #[trigger] r@[2 * k]@ == "__set_"@
                + exposed_plans(surface.fields@)[k].name@,
        forall|k: int|
            0 <= k < exposed_plans(surface.fields@).len() ==> #[trigger] r@[2 * k + 1]@
                == "__reset_"@ + exposed_plans(surface.fields@)[k].name@,
{
    let n = surface.fields.len();
    let mut names: Vec<String> = Vec::new();
    let mut i: usize = 0;
    while i < n
        invariant
            0 <= i <= n,
            n == surface.fields@.len(),
            names@.len() == 2 * exposed_plans(surface.fields@.take(i as int)).len(),
            forall|k: int|
                0 <= k < exposed_plans(surface.fields@.take(i as int)).len() ==> #[trigger] names@[2
                    * k]@ == "__set_"@ + exposed_plans(surface.fields@.take(i as int))[k].name@,
            forall|k: int|
                0 <= k < exposed_plans(surface.fields@.take(i as int)).len() ==> #[trigger] names@[2
                    * k + 1]@ == "__reset_"@ + exposed_plans(
                    surface.fields@.take(i as int),
                )[k].name@,
        decreases n - i,
    {
        let p = &surface.fields[i];
        if p.exposed {
            names.push(concat_names("__set_", p.name.as_str()));
            names.push(concat_names("__reset_", p.name.as_str()));
        }
        proof {
            assert(surface.fields@.take(i as int + 1).drop_last() =~= surface.fields@.take(
                i as int,
            ));
            assert(surface.fields@.take(i as int + 1).last() == surface.fields@[i as int]);
        }
        i += 1;
    }
    proof {
        assert(surface.fields@.take(n as int) =~= surface.fields@);
    }
    names
}

/// The names of the per-field resets the aggregate reset invokes, in
/// declaration order: one `__reset_<field>` per participating field.
pub fn reset_call_names(surface: &NodeSurface) -> (r: Vec<String>)
    ensures
        r@.len() == reset_plans(surface.fields@).len(),
        forall|k: int|
            0 <= k < reset_plans(surface.fields@).len() ==> #[trigger] r@[k]@ == "__reset_"@
                + reset_plans(surface.fields@)[k].name@,
{
    let n = surface.fields.len();
    let mut names: Vec<String> = Vec::new();
    let mut i: usize = 0;
    while i < n
        invariant
            0 <= i <= n,
            n == surface.fields@.len(),
            names@.len() == reset_plans(surface.fields@.take(i as int)).len(),
            forall|k: int|
                0 <= k < reset_plans(surface.fields@.take(i as int)).len() ==> #[trigger] names@[k]@
                    == "__reset_"@ + reset_plans(surface.fields@.take(i as int))[k].name@,
        decreases n - i,
    {
        let p = &surface.fields[i];
        if p.in_reset {
            names.push(concat_names("__reset_", p.name.as_str()));
        }
        proof {
            assert(surface.fields@.take(i as int + 1).drop_last() =~= surface.fields@.take(
                i as int,
            ));
            assert(surface.fields@.take(i as int + 1).last() == surface.fields@[i as int]);
        }
        i += 1;
    }
    proof {
        assert(surface.fields@.take(n as int) =~= surface.fields@);
    }
    names
}

} // verus!
