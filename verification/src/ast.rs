//! The structured model of user source that the transformers rewrite.
//!
//! A record declaration, its fields, their attributes, and the methods of an
//! impl block are held as plain values: names as strings, literals as
//! [`LitValue`], attribute arguments as [`AttrArgs`]. The transformers read
//! and produce these models; turning program text into a model and a model
//! back into text is the caller's concern.

use vstd::prelude::*;

verus! {

/// A literal that can stand as an attribute argument.
#[derive(Debug, PartialEq)]
pub enum LitValue {
    /// A boolean literal.
    Bool(bool),
    /// An integer literal.
    Int(i64),
    /// A string literal.
    Text(String),
    /// A literal of any other kind.
    Other,
}

impl Clone for LitValue {
    /// Clones the literal, keeping its value.
    fn clone(&self) -> (r: Self)
        ensures
            r == *self,
    {
        match self {
            LitValue::Bool(b) => LitValue::Bool(*b),
            LitValue::Int(n) => LitValue::Int(*n),
            LitValue::Text(s) => LitValue::Text(s.clone()),
            LitValue::Other => LitValue::Other,
        }
    }
}

/// The parenthesized arguments of an attribute, as far as the transformers
/// inspect them.
#[derive(Debug, Clone, PartialEq)]
pub enum AttrArgs {
    /// No argument list, or one that holds no usable item.
    NoArgs,
    /// Exactly one literal argument.
    LitArg(LitValue),
    /// Exactly one argument, but a nested meta item rather than a literal.
    MetaArg,
    /// More than one argument.
    Multi,
}

/// One attribute attached to a field.
#[derive(Debug, Clone, PartialEq)]
pub struct AttrNode {
    /// Whether the attribute is written in outer style; only outer
    /// attributes are inspected.
    pub outer: bool,
    /// The attribute's path, as text.
    pub name: String,
    /// Its arguments.
    pub args: AttrArgs,
}

/// Whether the name is one of the two reserved bookkeeping fields that the
/// struct transformer appends; such fields are owned by the framework and
/// skipped by all per-field generation.
pub open spec fn is_reserved_name(s: Seq<char>) -> bool {
    s == "__num_fields"@ || s == "__set_fields"@
}

/// One named field of a record declaration.
#[derive(Debug, Clone, PartialEq)]
pub struct FieldNode {
    /// The field's name.
    pub name: String,
    /// The field's type expression, as text.
    pub ty: String,
    /// Whether the field is declared public.
    pub public: bool,
    /// The attributes attached to the field.
    pub attrs: Vec<AttrNode>,
}

/// The shape of a record's field list.
#[derive(Debug, Clone, PartialEq)]
pub enum RecordFields {
    /// Named fields, in declaration order.
    Named(Vec<FieldNode>),
    /// Unnamed (tuple) fields.
    Unnamed,
    /// No fields at all.
    Unit,
}

/// A record declaration.
#[derive(Debug, Clone, PartialEq)]
pub struct RecordNode {
    /// The record's type name.
    pub name: String,
    /// Its field list.
    pub fields: RecordFields,
}

/// One method of a user impl block: its name and the wrapper tags attached
/// to it. Bodies are never inspected.
#[derive(Debug, Clone, PartialEq)]
pub struct MethodNode {
    /// The method's name.
    pub name: String,
    /// The method-level tag texts attached to it, in source order.
    pub tags: Vec<String>,
}

/// A user impl block.
#[derive(Debug, Clone, PartialEq)]
pub struct ImplNode {
    /// The name of the type the block implements.
    pub self_ty: String,
    /// Its methods, in source order.
    pub methods: Vec<MethodNode>,
}

/// The body of a synthesized method.
#[derive(Debug, Clone, PartialEq)]
pub enum MethodBody {
    /// Invoke another method or function, optionally through the receiver.
    Invoke { target: String, through_self: bool },
    /// A literal placeholder expression; empty text means an empty body.
    Placeholder(String),
}

/// A synthesized method, ready to be rendered into an impl block.
#[derive(Debug, Clone, PartialEq)]
pub struct MethodDecl {
    /// The method's name.
    pub name: String,
    /// Whether the method is exposed.
    pub public: bool,
    /// Whether the method takes the node by exclusive mutable reference.
    pub takes_receiver: bool,
    /// The return type expression, as text, if the method returns a value.
    pub return_ty: Option<String>,
    /// The method's body.
    pub body: MethodBody,
}

/// A structured compile-time diagnostic. Every transformer error is one of
/// these; the name it carries locates the offending item.
#[derive(Debug, Clone, PartialEq)]
pub enum MacroError {
    /// A transformer was handed arguments; none accepts any.
    UnexpectedArgs,
    /// The record is not a named-field aggregate.
    UnsupportedShape,
    /// A tag on the named field received a nested meta item or a literal of
    /// the wrong kind.
    BadTagArg { field: String },
    /// Two method tags claim the named lifecycle slot.
    DuplicateSlotClaim { slot: String },
    /// A name fragment handed to the wrapper emitter does not form a valid
    /// identifier.
    BadNameFragment { fragment: String },
}

/// The four reserved lifecycle slots of a completed node.
#[derive(Debug, Clone, Copy, PartialEq, Eq, Structural)]
pub enum SlotKind {
    /// `__custom_initialize`, run once after default construction.
    CustomInitialize,
    /// `__pre_execute`, the first phase of execution.
    PreExecute,
    /// `__on_execute`, the phase whose impulse execution returns.
    OnExecute,
    /// `__post_execute`, the last phase of execution.
    PostExecute,
}

} // verus!
