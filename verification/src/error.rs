//! What can go wrong while a program is built or lowered.

use crate::graph::NodeIndex;
use vstd::prelude::*;

verus! {

/// The ways in which building or lowering a program fails.
#[derive(Clone, Copy, Debug, PartialEq, Eq, Structural)]
pub enum Error {
    /// A gadget was invoked with a number of inputs other than the one it
    /// declares.
    GadgetInputMismatch { expected: usize, found: usize },
    /// The plaintext literal at this node has no serialized form.
    PlaintextSerialization { node: NodeIndex },
    /// The graph has no room for the nodes or edges that were asked for.
    GraphFull,
    /// A context was installed while another one was still active.
    NestedContext,
    /// A builder was reached while no context was active.
    NoActiveContext,
}

} // verus!
