//! A compile-time code-generation framework for dataflow execution nodes.
//!
//! A node is a user-written record plus an impl block, completed by three
//! transformers into a uniform surface: per-field setters and resets, an
//! aggregate reset, a default constructor, and the four lifecycle phases
//! (custom-initialize, pre-execute, on-execute, post-execute). The on-phase
//! emits an [`Impulse`].
//!
//! The transformers here rewrite a structured model of the user's source:
//! [`struct_transform`] appends the two reserved bookkeeping fields,
//! [`derive`] synthesizes the per-field surface, and [`impl_transform`]
//! completes the lifecycle slots. [`node`] gives the generated surface its
//! runtime meaning and proves the framework's behavioral laws over it.

use vstd::prelude::*;

pub mod ast;
pub mod attrs;
pub mod derive;
pub mod impl_transform;
pub mod impulse;
pub mod node;
pub mod struct_transform;
pub mod text;
pub mod wrapper;

verus! {

/// Adds two machine integers; the free-function arithmetic helper of the
/// node collection.
pub fn add_integers(x: i32, y: i32) -> (r: i32)
    requires
        i32::MIN <= x + y <= i32::MAX,
    ensures
        r == x + y,
{
    x + y
}

} // verus!
