//! The struct transformer: appends the two reserved bookkeeping counters to
//! a named-field record, leaving the user's fields first and untouched.

use vstd::prelude::*;

use crate::ast::{FieldNode, MacroError, RecordFields, RecordNode};

verus! {

/// A reserved counter field as the struct transformer appends it: the given
/// name, the canonical integer type, non-public, and bare of attributes.
pub open spec fn reserved_counter_field(f: FieldNode, name: Seq<char>) -> bool {
    &&& f.name@ == name
    &&& f.ty@ == "i32"@
    &&& !f.public
    &&& f.attrs@.len() == 0
}

/// The augmented field list equals the user's list followed by exactly
/// `__num_fields` and `__set_fields`.
pub open spec fn augmented_fields(ifs: Seq<FieldNode>, ofs: Seq<FieldNode>) -> bool {
    &&& ofs.len() == ifs.len() + 2
    &&& forall|i: int| 0 <= i < ifs.len() ==> ofs[i] == ifs[i]
    &&& reserved_counter_field(ofs[ifs.len() as int], "__num_fields"@)
    &&& reserved_counter_field(ofs[ifs.len() as int + 1], "__set_fields"@)
}

/// Appends the two reserved counter fields to a named-field record. The
/// transformer accepts no arguments; records without named fields are
/// rejected with a shape error.
pub fn delta_node_struct(args: &Vec<String>, input: RecordNode) -> (r: Result<
    RecordNode,
    MacroError,
>)
    ensures
        r is Ok <==> args@.len() == 0 && input.fields is Named,
        args@.len() > 0 ==> r == Err::<RecordNode, MacroError>(MacroError::UnexpectedArgs),
        args@.len() == 0 && !(input.fields is Named) ==> r == Err::<RecordNode, MacroError>(
            MacroError::UnsupportedShape,
        ),
        r matches Ok(out) ==> {
            &&& out.name == input.name
            &&& out.fields is Named
            &&& input.fields matches RecordFields::Named(ifs) ==> (out.fields matches
                RecordFields::Named(ofs) && augmented_fields(ifs@, ofs@))
        },
{
    if args.len() > 0 {
        return Err(MacroError::UnexpectedArgs);
    }
    match input.fields {
        RecordFields::Named(fields) => {
            let mut fields = fields;
            fields.push(
                FieldNode {
                    name: "__num_fields".to_owned(),
                    ty: "i32".to_owned(),
                    public: false,
                    attrs: Vec::new(),
                },
            );
            fields.push(
                FieldNode {
                    name: "__set_fields".to_owned(),
                    ty: "i32".to_owned(),
                    public: false,
                    attrs: Vec::new(),
                },
            );
            Ok(RecordNode { name: input.name, fields: RecordFields::Named(fields) })
        },
        RecordFields::Unnamed => Err(MacroError::UnsupportedShape),
        RecordFields::Unit => Err(MacroError::UnsupportedShape),
    }
}

} // verus!
