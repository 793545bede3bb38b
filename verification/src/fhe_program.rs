//! The tag vocabulary of the FHE backend: what a lowered program is made of.

use crate::graph::OperationGraph;
use vstd::prelude::*;

verus! {

/// The encryption scheme a program is compiled for.
#[derive(Clone, Copy, Debug, PartialEq, Eq, Structural, Hash)]
pub enum SchemeType {
    /// The Brakerski/Fan-Vercauteren scheme.
    Bfv,
}

/// The security the scheme's parameters are chosen for.
#[derive(Clone, Copy, Debug, PartialEq, Eq, Structural, Hash)]
pub enum SecurityLevel {
    /// 128 bits of security.
    TC128,
    /// 192 bits of security.
    TC192,
    /// 256 bits of security.
    TC256,
}

/// A literal operand of the backend.
#[derive(Clone, Debug, PartialEq, Eq)]
pub enum Literal {
    /// An unsigned 64-bit integer.
    U64(u64),
    /// A plaintext in serialized form.
    Plaintext(Vec<u8>),
}

/// What a backend literal stands for.
pub enum LiteralView {
    U64(u64),
    Plaintext(Seq<u8>),
}

impl View for Literal {
    type V = LiteralView;

    open spec fn view(&self) -> LiteralView {
        match self {
            Literal::U64(x) => LiteralView::U64(*x),
            Literal::Plaintext(bytes) => LiteralView::Plaintext(bytes@),
        }
    }
}

/// An operation of the backend.
#[derive(Clone, Debug, PartialEq, Eq)]
pub enum Operation {
    /// Loads the ciphertext given as the argument at this position.
    InputCiphertext(usize),
    /// Loads the plaintext given as the argument at this position.
    InputPlaintext(usize),
    /// A literal operand.
    Literal(Literal),
    Add,
    AddPlaintext,
    Sub,
    SubPlaintext,
    Negate,
    Multiply,
    MultiplyPlaintext,
    ShiftLeft,
    ShiftRight,
    SwapRows,
    /// Marks its operand as a result of the program.
    OutputCiphertext,
}

/// What a backend operation stands for.
pub enum OperationView {
    InputCiphertext(usize),
    InputPlaintext(usize),
    Literal(LiteralView),
    Add,
    AddPlaintext,
    Sub,
    SubPlaintext,
    Negate,
    Multiply,
    MultiplyPlaintext,
    ShiftLeft,
    ShiftRight,
    SwapRows,
    OutputCiphertext,
}

impl View for Operation {
    type V = OperationView;

    open spec fn view(&self) -> OperationView {
        match self {
            Operation::InputCiphertext(k) => OperationView::InputCiphertext(*k),
            Operation::InputPlaintext(k) => OperationView::InputPlaintext(*k),
            Operation::Literal(x) => OperationView::Literal(x@),
            Operation::Add => OperationView::Add,
            Operation::AddPlaintext => OperationView::AddPlaintext,
            Operation::Sub => OperationView::Sub,
            Operation::SubPlaintext => OperationView::SubPlaintext,
            Operation::Negate => OperationView::Negate,
            Operation::Multiply => OperationView::Multiply,
            Operation::MultiplyPlaintext => OperationView::MultiplyPlaintext,
            Operation::ShiftLeft => OperationView::ShiftLeft,
            Operation::ShiftRight => OperationView::ShiftRight,
            Operation::SwapRows => OperationView::SwapRows,
            Operation::OutputCiphertext => OperationView::OutputCiphertext,
        }
    }
}

/// What the backend keeps at a node.
#[derive(Clone, Debug, PartialEq, Eq)]
pub struct NodeInfo {
    pub operation: Operation,
}

impl View for NodeInfo {
    type V = OperationView;

    open spec fn view(&self) -> OperationView {
        self.operation@
    }
}

impl NodeInfo {
    /// The node information for an operation.
    pub fn new(operation: Operation) -> (info: Self)
        ensures
            info.operation == operation,
    {
        NodeInfo { operation }
    }
}

/// The role of an edge in the backend.
#[derive(Clone, Copy, Debug, PartialEq, Eq, Structural, Hash)]
pub enum EdgeInfo {
    LeftOperand,
    RightOperand,
    UnaryOperand,
}

impl View for EdgeInfo {
    type V = EdgeInfo;

    open spec fn view(&self) -> EdgeInfo {
        *self
    }
}

/// A program in the backend's vocabulary, its nodes numbered from zero
/// without gaps.
pub struct FheProgram {
    pub scheme: SchemeType,
    pub graph: OperationGraph<NodeInfo, EdgeInfo>,
}

impl FheProgram {
    /// A program for the given scheme, without nodes.
    pub fn new(scheme: SchemeType) -> (program: Self)
        ensures
            program.scheme == scheme,
            program.graph.wf(),
            program.graph@ == crate::view::GraphView::<OperationView, EdgeInfo>::empty(),
    {
        FheProgram { scheme, graph: OperationGraph::new() }
    }
}

} // verus!
