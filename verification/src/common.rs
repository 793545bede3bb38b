//! What the frontends share: the roles of edges and the types that hold
//! node tags and whole graphs.

use crate::graph::{OperationGraph, ViewEq};
use vstd::prelude::*;

verus! {

/// The role of an edge's source at its target.
#[derive(Clone, Copy, Debug, PartialEq, Eq, Structural, Hash)]
pub enum EdgeInfo {
    /// The source is the left operand of the target.
    Left,
    /// The source is the right operand of the target.
    Right,
    /// The source is the single operand of the target.
    Unary,
    /// The source is one of several operands whose order does not matter.
    Unordered,
    /// The source is the operand at the given position.
    Ordered(usize),
}

impl View for EdgeInfo {
    type V = EdgeInfo;

    open spec fn view(&self) -> EdgeInfo {
        *self
    }
}

impl ViewEq for EdgeInfo {
    fn same(&self, other: &Self) -> (r: bool) {
        *self == *other
    }
}

/// What a graph keeps at a node: the node's operation.
#[derive(Clone, Copy, Debug, PartialEq, Eq, Hash)]
pub struct NodeInfo<O> {
    pub operation: O,
}

impl<O: View> View for NodeInfo<O> {
    type V = O::V;

    open spec fn view(&self) -> O::V {
        self.operation@
    }
}

impl<O: ViewEq> ViewEq for NodeInfo<O> {
    fn same(&self, other: &Self) -> (r: bool) {
        self.operation.same(&other.operation)
    }
}

/// The graph of a program over the operations `O`.
pub struct CompilationResult<O>(pub OperationGraph<NodeInfo<O>, EdgeInfo>);

} // verus!
