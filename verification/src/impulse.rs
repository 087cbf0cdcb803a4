//! The runtime contract shared by every completed node: the [`Impulse`]
//! emission type and the [`DeltaNode`] capability that the derive
//! synthesizer implements for each node type.

use vstd::prelude::*;

verus! {

/// The emission of a node's on-phase: no emission, an advance signal, or a
/// single payload.
#[derive(Debug, PartialEq)]
pub enum Impulse<T> {
    /// No emission.
    NOOP,
    /// Pass a single payload on.
    SEND(T),
    /// Tell the engine to step forward, with no payload.
    TICK,
}

/// The abstract capability of a completed node: it can be constructed on the
/// heap and executed once. The derive synthesizer is the sole intended
/// implementer; user code only invokes the two entry points.
pub trait DeltaNode<ReturnType, NodeType> {
    /// Consumes the node, runs pre-, on- and post-execute in order, and
    /// yields the on-phase's emission.
    fn __execute(self) -> ReturnType;

    /// Allocates a node, fills every field with its default, then runs the
    /// custom initializer on it.
    fn __initialize() -> Box<NodeType>;
}

} // verus!
