//! The frontend of FHE programs: the operations a program is made of, the
//! context that records them as a graph, and the lowering of that graph to
//! the backend's vocabulary.

use crate::error::Error;
use crate::fhe_program::{
    EdgeInfo, FheProgram, Literal as FheProgramLiteral, NodeInfo, Operation as FheProgramOperation,
    OperationView as FheProgramOperationView, LiteralView as FheProgramLiteralView, SchemeType,
    SecurityLevel,
};
use crate::isomorphism::{isomorphic, lemma_isomorphic_reflexive};
use crate::graph::{NodeIndex, OperationGraph, ViewEq};
use crate::view::{
    is_first_slot, lemma_slot_of, lemma_slot_of_is, lemma_with_node_once_again,
    lemma_with_node_once_distinct, slot_of, EdgeView, GraphView,
};
use vstd::prelude::*;

verus! {

/// The encoded value of a plaintext: the bytes it serializes to, or
/// nothing where its encoding has no serialized form.
#[derive(Clone, Debug, PartialEq, Eq)]
pub struct InnerPlaintext {
    pub serialized: Option<Vec<u8>>,
}

impl View for InnerPlaintext {
    type V = Option<Seq<u8>>;

    open spec fn view(&self) -> Option<Seq<u8>> {
        match self.serialized {
            Some(bytes) => Some(bytes@),
            None => None,
        }
    }
}

/// Whether two byte strings are equal.
fn same_bytes(a: &Vec<u8>, b: &Vec<u8>) -> (r: bool)
    ensures
        r == (a@ == b@),
{
    if a.len() != b.len() {
        return false;
    }
    let mut i: usize = 0;
    while i < a.len()
        invariant
            a.len() == b.len(),
            i <= a.len(),
            forall|j: int| 0 <= j < i ==> a@[j] == b@[j],
        decreases a.len() - i,
    {
        if a[i] != b[i] {
            return false;
        }
        i = i + 1;
    }
    assert(a@ =~= b@);
    true
}

/// A copy of a byte string.
fn copy_bytes(a: &Vec<u8>) -> (r: Vec<u8>)
    ensures
        r@ == a@,
{
    let mut r: Vec<u8> = Vec::new();
    let mut i: usize = 0;
    while i < a.len()
        invariant
            i <= a.len(),
            r@ == a@.take(i as int),
        decreases a.len() - i,
    {
        r.push(a[i]);
        assert(a@.take(i + 1) =~= a@.take(i as int).push(a@[i as int]));
        i = i + 1;
    }
    assert(a@.take(a.len() as int) =~= a@);
    r
}

impl InnerPlaintext {
    /// The plaintext that serializes to `bytes`.
    pub fn new(bytes: Vec<u8>) -> (p: Self)
        ensures
            p@ == Some(bytes@),
    {
        InnerPlaintext { serialized: Some(bytes) }
    }

    /// A plaintext whose encoding has no serialized form.
    pub fn malformed() -> (p: Self)
        ensures
            p@ is None,
    {
        InnerPlaintext { serialized: None }
    }

    /// The serialized plaintext, if it has a serialized form.
    pub fn to_bytes(&self) -> (r: Option<Vec<u8>>)
        ensures
            match r {
                Some(bytes) => self@ == Some(bytes@),
                None => self@ is None,
            },
    {
        match &self.serialized {
            Some(bytes) => Some(copy_bytes(bytes)),
            None => None,
        }
    }
}

impl ViewEq for InnerPlaintext {
    fn same(&self, other: &Self) -> (r: bool) {
        match (&self.serialized, &other.serialized) {
            (Some(a), Some(b)) => same_bytes(a, b),
            (None, None) => true,
            _ => false,
        }
    }
}

/// The data of a literal node.
#[derive(Clone, Debug, PartialEq)]
pub enum Literal {
    /// An unsigned 64-bit integer.
    U64(u64),
    /// An encoded plaintext value.
    Plaintext(InnerPlaintext),
}

/// What a literal stands for.
pub enum LiteralView {
    U64(u64),
    Plaintext(Option<Seq<u8>>),
}

impl View for Literal {
    type V = LiteralView;

    open spec fn view(&self) -> LiteralView {
        match self {
            Literal::U64(x) => LiteralView::U64(*x),
            Literal::Plaintext(p) => LiteralView::Plaintext(p@),
        }
    }
}

impl ViewEq for Literal {
    fn same(&self, other: &Self) -> (r: bool) {
        match (self, other) {
            (Literal::U64(a), Literal::U64(b)) => *a == *b,
            (Literal::Plaintext(a), Literal::Plaintext(b)) => a.same(b),
            _ => false,
        }
    }
}

/// An operation of the frontend's graph.
#[derive(Clone, Debug, PartialEq)]
pub enum Operation {
    /// Loads a ciphertext from an input.
    InputCiphertext,
    /// Loads a plaintext from an input.
    InputPlaintext,
    /// Addition.
    Add,
    /// Adds a plaintext to a ciphertext.
    AddPlaintext,
    /// Subtraction.
    Sub,
    /// Subtracts a plaintext.
    SubPlaintext,
    /// Unary negation: given x, computes -x.
    Negate,
    /// Multiplication.
    Multiply,
    /// Multiplies a ciphertext by a plaintext.
    MultiplyPlaintext,
    /// A literal that serves as an operand to other operations.
    Literal(Literal),
    /// Rotate left.
    RotateLeft,
    /// Rotate right.
    RotateRight,
    /// Swaps the rows of a batched vector.
    SwapRows,
    /// Marks the operand as a result of the program.
    Output,
}

/// What an operation stands for.
pub enum OperationView {
    InputCiphertext,
    InputPlaintext,
    Add,
    AddPlaintext,
    Sub,
    SubPlaintext,
    Negate,
    Multiply,
    MultiplyPlaintext,
    Literal(LiteralView),
    RotateLeft,
    RotateRight,
    SwapRows,
    Output,
}

impl View for Operation {
    type V = OperationView;

    open spec fn view(&self) -> OperationView {
        match self {
            Operation::InputCiphertext => OperationView::InputCiphertext,
            Operation::InputPlaintext => OperationView::InputPlaintext,
            Operation::Add => OperationView::Add,
            Operation::AddPlaintext => OperationView::AddPlaintext,
            Operation::Sub => OperationView::Sub,
            Operation::SubPlaintext => OperationView::SubPlaintext,
            Operation::Negate => OperationView::Negate,
            Operation::Multiply => OperationView::Multiply,
            Operation::MultiplyPlaintext => OperationView::MultiplyPlaintext,
            Operation::Literal(x) => OperationView::Literal(x@),
            Operation::RotateLeft => OperationView::RotateLeft,
            Operation::RotateRight => OperationView::RotateRight,
            Operation::SwapRows => OperationView::SwapRows,
            Operation::Output => OperationView::Output,
        }
    }
}

impl ViewEq for Operation {
    fn same(&self, other: &Self) -> (r: bool) {
        match (self, other) {
            (Operation::InputCiphertext, Operation::InputCiphertext) => true,
            (Operation::InputPlaintext, Operation::InputPlaintext) => true,
            (Operation::Add, Operation::Add) => true,
            (Operation::AddPlaintext, Operation::AddPlaintext) => true,
            (Operation::Sub, Operation::Sub) => true,
            (Operation::SubPlaintext, Operation::SubPlaintext) => true,
            (Operation::Negate, Operation::Negate) => true,
            (Operation::Multiply, Operation::Multiply) => true,
            (Operation::MultiplyPlaintext, Operation::MultiplyPlaintext) => true,
            (Operation::Literal(a), Operation::Literal(b)) => a.same(b),
            (Operation::RotateLeft, Operation::RotateLeft) => true,
            (Operation::RotateRight, Operation::RotateRight) => true,
            (Operation::SwapRows, Operation::SwapRows) => true,
            (Operation::Output, Operation::Output) => true,
            _ => false,
        }
    }
}

/// The role of an edge's source at its target.
#[derive(Clone, Copy, Debug, PartialEq, Eq, Structural, Hash)]
pub enum OperandInfo {
    /// The source is the left operand of the target.
    Left,
    /// The source is the right operand of the target.
    Right,
    /// The source is the single operand of the target.
    Unary,
}

impl View for OperandInfo {
    type V = OperandInfo;

    open spec fn view(&self) -> OperandInfo {
        *self
    }
}

impl ViewEq for OperandInfo {
    fn same(&self, other: &Self) -> (r: bool) {
        *self == *other
    }
}

/// The frontend's graph as the contracts see it.
pub type FrontendView = GraphView<OperationView, OperandInfo>;

/// The operations that take a left and a right operand.
pub open spec fn is_binary(op: OperationView) -> bool {
    op is Add || op is AddPlaintext || op is Sub || op is SubPlaintext || op is Multiply
        || op is MultiplyPlaintext || op is RotateLeft || op is RotateRight
}

/// The operations that take a single operand.
pub open spec fn is_unary(op: OperationView) -> bool {
    op is Negate || op is SwapRows || op is Output
}

/// The operations whose value comes from outside the graph.
pub open spec fn is_input(op: OperationView) -> bool {
    op is InputCiphertext || op is InputPlaintext
}

/// The edges into a node are the ones its operation asks for: a left and
/// a right operand for a binary operation, one operand for a unary
/// operation, none for an input or a literal.
pub open spec fn in_edges_ok(op: OperationView, ins: Seq<EdgeView<OperandInfo>>) -> bool {
    if is_binary(op) {
        ins.len() == 2 && ins[0].role == OperandInfo::Left && ins[1].role == OperandInfo::Right
    } else if is_unary(op) {
        ins.len() == 1 && ins[0].role == OperandInfo::Unary
    } else {
        ins.len() == 0
    }
}

/// Every node has the incoming edges that its operation asks for.
pub open spec fn well_shaped(g: FrontendView) -> bool {
    forall|n: int| 0 <= n < g.nodes.len() ==> in_edges_ok(g.nodes[n], #[trigger] g.in_edges(n))
}

/// In a well-shaped graph a binary operation has exactly two incoming
/// edges, the first from its left and the second from its right operand; a
/// unary operation has exactly one, from its single operand; an input and
/// a literal have none.
pub proof fn lemma_in_degrees(g: FrontendView, n: int)
    requires
        well_shaped(g),
        0 <= n < g.nodes.len(),
    ensures
        is_binary(g.nodes[n]) ==> {
            &&& g.in_edges(n).len() == 2
            &&& g.in_edges(n)[0].role == OperandInfo::Left
            &&& g.in_edges(n)[1].role == OperandInfo::Right
        },
        is_unary(g.nodes[n]) ==> g.in_edges(n).len() == 1 && g.in_edges(n)[0].role
            == OperandInfo::Unary,
        is_input(g.nodes[n]) || g.nodes[n] is Literal ==> g.in_edges(n).len() == 0,
{
    assert(in_edges_ok(g.nodes[n], g.in_edges(n)));
}

/// No two literal nodes hold the same value.
pub open spec fn literals_unique(nodes: Seq<OperationView>) -> bool {
    forall|i: int, j: int|
        0 <= i < j < nodes.len() && nodes[i] is Literal ==> #[trigger] nodes[i] != #[trigger] nodes[j]
}

/// Asking for the same literal twice gives the same node both times and
/// leaves the graph, after the first time, as it is; asking for two
/// different literals gives two different nodes.
pub proof fn lemma_literals_kept_once(g: FrontendView, first: LiteralView, second: LiteralView)
    ensures
        slot_of(g.with_node_once(OperationView::Literal(first)).nodes, OperationView::Literal(first))
            == slot_of(g.nodes, OperationView::Literal(first)),
        g.with_node_once(OperationView::Literal(first)).with_node_once(
            OperationView::Literal(first),
        ) == g.with_node_once(OperationView::Literal(first)),
        first != second ==> slot_of(g.nodes, OperationView::Literal(first)) != slot_of(
            g.with_node_once(OperationView::Literal(first)).nodes,
            OperationView::Literal(second),
        ),
{
    lemma_with_node_once_again(g, OperationView::Literal(first));
    if first != second {
        lemma_with_node_once_distinct(
            g,
            OperationView::Literal(first),
            OperationView::Literal(second),
        );
    }
}

/// The parameters of the scheme that a program is built for.
#[derive(Debug, PartialEq, Eq)]
pub struct Params {
    pub lattice_dimension: u64,
    pub coeff_modulus: Vec<u64>,
    pub plain_modulus: u64,
    pub scheme_type: SchemeType,
    pub security_level: SecurityLevel,
}

impl Params {
    /// The two sets of parameters hold the same values.
    pub open spec fn matches(&self, other: &Params) -> bool {
        &&& self.lattice_dimension == other.lattice_dimension
        &&& self.coeff_modulus@ == other.coeff_modulus@
        &&& self.plain_modulus == other.plain_modulus
        &&& self.scheme_type == other.scheme_type
        &&& self.security_level == other.security_level
    }
}

impl Clone for Params {
    /// A copy that holds the same values.
    fn clone(&self) -> (r: Self)
        ensures
            r.matches(self),
    {
        let mut coeff_modulus: Vec<u64> = Vec::new();
        let mut i: usize = 0;
        while i < self.coeff_modulus.len()
            invariant
                i <= self.coeff_modulus.len(),
                coeff_modulus@ == self.coeff_modulus@.take(i as int),
            decreases self.coeff_modulus.len() - i,
        {
            coeff_modulus.push(self.coeff_modulus[i]);
            assert(self.coeff_modulus@.take(i + 1) =~= self.coeff_modulus@.take(i as int).push(
                self.coeff_modulus@[i as int],
            ));
            i = i + 1;
        }
        assert(self.coeff_modulus@.take(self.coeff_modulus.len() as int) =~= self.coeff_modulus@);
        Params {
            lattice_dimension: self.lattice_dimension,
            coeff_modulus,
            plain_modulus: self.plain_modulus,
            scheme_type: self.scheme_type,
            security_level: self.security_level,
        }
    }
}

/// The graph of a program in the frontend's vocabulary.
pub struct FrontendCompilation {
    /// The dependency graph of the program.
    pub graph: OperationGraph<Operation, OperandInfo>,
}

/// A handle to a run of node identifiers in a context's store.
#[derive(Clone, Copy, Debug, PartialEq, Eq, Structural, Hash)]
pub struct FheProgramNode {
    /// Where the run starts in the store.
    pub offset: usize,
    /// How many identifiers the run holds.
    pub len: usize,
}

impl FheProgramNode {
    /// The identifiers that the handle stands for in `store`.
    pub open spec fn ids(self, store: Seq<NodeIndex>) -> Seq<NodeIndex> {
        store.subrange(self.offset as int, self.offset + self.len)
    }
}

/// Whether the handle stands for the run `ids` in `store`.
fn holds_run(store: &Vec<NodeIndex>, handle: FheProgramNode, ids: &[NodeIndex]) -> (r: bool)
    requires
        handle.offset + handle.len <= store@.len(),
    ensures
        r == (handle.ids(store@) == ids@),
{
    if handle.len != ids.len() {
        return false;
    }
    let size: usize = store.len();
    let mut i: usize = 0;
    while i < handle.len
        invariant
            size == store@.len(),
            handle.offset + handle.len <= size,
            handle.len == ids@.len(),
            i <= handle.len,
            forall|j: int| 0 <= j < i ==> store@[handle.offset + j] == ids@[j],
        decreases handle.len - i,
    {
        if store[handle.offset + i] != ids[i] {
            assert(handle.ids(store@)[i as int] == store@[handle.offset + i]);
            return false;
        }
        i = i + 1;
    }
    assert(handle.ids(store@) =~= ids@);
    true
}

/// The context in which the graph of one program is built.
pub struct Context {
    /// The graph built so far.
    pub compilation: FrontendCompilation,
    /// The parameters the graph is built for.
    pub params: Params,
    /// The node identifiers that handles refer to, run after run.
    pub indicies_store: Vec<NodeIndex>,
    /// The handles given out so far, oldest first.
    pub fhe_program_nodes: Vec<FheProgramNode>,
}

impl Context {
    /// The graph built so far, as the contracts see it.
    pub open spec fn graph(&self) -> FrontendView {
        self.compilation.graph@
    }

    /// The invariant of a context: the graph is sound, every node has the
    /// edges its operation asks for, every edge leads from an older node to
    /// a younger one, no literal occurs twice, and every handle lies within
    /// the store.
    pub open spec fn wf(&self) -> bool {
        &&& self.compilation.graph.wf()
        &&& self.graph().edges_forward()
        &&& well_shaped(self.graph())
        &&& literals_unique(self.graph().nodes)
        &&& forall|h: int|
            0 <= h < self.fhe_program_nodes@.len() ==> (#[trigger] self.fhe_program_nodes@[h]).offset
                + self.fhe_program_nodes@[h].len <= self.indicies_store@.len()
    }

    /// The graph can take `nodes` more nodes and `edges` more edges.
    pub open spec fn has_room(&self, nodes: int, edges: int) -> bool {
        &&& self.graph().nodes.len() + nodes <= u32::MAX
        &&& self.graph().edges.len() + edges <= u32::MAX
    }

    /// Everything but the graph is as it was in `before`.
    pub open spec fn same_bookkeeping(&self, before: &Context) -> bool {
        &&& self.params == before.params
        &&& self.indicies_store == before.indicies_store
        &&& self.fhe_program_nodes == before.fhe_program_nodes
    }

    /// What a binary operation may be added to: a sound context that holds
    /// both operands and has room for a node and two edges.
    pub open spec fn takes_binary(&self, left: NodeIndex, right: NodeIndex) -> bool {
        &&& self.wf()
        &&& left.0 < self.graph().nodes.len()
        &&& right.0 < self.graph().nodes.len()
        &&& self.has_room(1, 2)
    }

    /// What a unary operation may be added to: a sound context that holds
    /// the operand and has room for a node and an edge.
    pub open spec fn takes_unary(&self, operand: NodeIndex) -> bool {
        &&& self.wf()
        &&& operand.0 < self.graph().nodes.len()
        &&& self.has_room(1, 1)
    }

    /// This context is `before` with one more node `id`, tagged `op`, and
    /// the edges into it from `left` and from `right`, in that order.
    pub open spec fn is_binary_step(
        &self,
        before: &Context,
        op: OperationView,
        left: NodeIndex,
        right: NodeIndex,
        id: NodeIndex,
    ) -> bool {
        &&& self.wf()
        &&& self.graph() == before.graph().with_binary(
            op,
            left.0 as int,
            right.0 as int,
            OperandInfo::Left,
            OperandInfo::Right,
        )
        &&& id.0 == before.graph().nodes.len()
        &&& self.same_bookkeeping(before)
    }

    /// This context is `before` with one more node `id`, tagged `op`, and
    /// the edge into it from `operand`.
    pub open spec fn is_unary_step(
        &self,
        before: &Context,
        op: OperationView,
        operand: NodeIndex,
        id: NodeIndex,
    ) -> bool {
        &&& self.wf()
        &&& self.graph() == before.graph().with_unary(op, operand.0 as int, OperandInfo::Unary)
        &&& id.0 == before.graph().nodes.len()
        &&& self.same_bookkeeping(before)
    }

    /// This context is `before` with one more node `id`, tagged `op`, that
    /// no edge touches.
    pub open spec fn is_leaf_step(&self, before: &Context, op: OperationView, id: NodeIndex) -> bool {
        &&& self.wf()
        &&& self.graph() == before.graph().with_node(op)
        &&& id.0 == before.graph().nodes.len()
        &&& self.same_bookkeeping(before)
    }

    /// This context is `before` after a literal was asked for: `id` is the
    /// first node of `before` that holds the literal, and then nothing has
    /// changed; or `before` holds no such node, and then `id` is one more
    /// node, which holds the literal and which no edge touches.
    pub open spec fn is_literal_step(&self, before: &Context, literal: OperationView, id: NodeIndex)
        -> bool {
        &&& self.wf()
        &&& is_first_slot(before.graph().nodes, literal, id.0 as int)
        &&& id.0 == slot_of(before.graph().nodes, literal)
        &&& self.graph() == if id.0 < before.graph().nodes.len() {
            before.graph()
        } else {
            before.graph().with_node(literal)
        }
        &&& self.graph() == before.graph().with_node_once(literal)
        &&& self.same_bookkeeping(before)
    }

    /// Whether the graph can take `nodes` more nodes and `edges` more edges.
    pub fn has_room_for(&self, nodes: usize, edges: usize) -> (r: bool)
        requires
            self.compilation.graph.wf(),
        ensures
            r == self.has_room(nodes as int, edges as int),
    {
        let limit: usize = u32::MAX as usize;
        let node_count: usize = self.compilation.graph.node_count();
        let edge_count: usize = self.compilation.graph.edge_count();
        node_count <= limit && nodes <= limit - node_count && edge_count <= limit && edges <= limit
            - edge_count
    }

    /// A context with an empty graph for the given parameters.
    pub fn new(params: &Params) -> (ctx: Self)
        ensures
            ctx.wf(),
            ctx.graph() == FrontendView::empty(),
            ctx.params.matches(params),
            ctx.indicies_store@.len() == 0,
            ctx.fhe_program_nodes@.len() == 0,
    {
        let ctx = Self {
            compilation: FrontendCompilation { graph: OperationGraph::new() },
            params: params.clone(),
            indicies_store: Vec::new(),
            fhe_program_nodes: Vec::new(),
        };
        proof {
            assert forall|n: int| 0 <= n < ctx.graph().nodes.len() implies in_edges_ok(
                ctx.graph().nodes[n],
                #[trigger] ctx.graph().in_edges(n),
            ) by {}
        }
        ctx
    }

    /// Adds a node for a binary operation together with the edges from
    /// its two operands.
    fn add_2_input(&mut self, op: Operation, left: NodeIndex, right: NodeIndex) -> (id: NodeIndex)
        requires
            old(self).takes_binary(left, right),
            is_binary(op@),
        ensures
            final(self).is_binary_step(old(self), op@, left, right, id),
    {
        proof {
            self.compilation.graph.lemma_view_well_formed();
            lemma_binary_keeps_shape(self.graph(), op@, left.0 as int, right.0 as int);
        }
        let new_id = self.compilation.graph.add_node(op);
        self.compilation.graph.add_edge(left, new_id, OperandInfo::Left);
        self.compilation.graph.add_edge(right, new_id, OperandInfo::Right);
        new_id
    }

    /// Adds a node for a unary operation together with the edge from its
    /// operand.
    fn add_1_input(&mut self, op: Operation, i: NodeIndex) -> (id: NodeIndex)
        requires
            old(self).takes_unary(i),
            is_unary(op@),
        ensures
            final(self).is_unary_step(old(self), op@, i, id),
    {
        proof {
            self.compilation.graph.lemma_view_well_formed();
            lemma_unary_keeps_shape(self.graph(), op@, i.0 as int);
        }
        let new_id = self.compilation.graph.add_node(op);
        self.compilation.graph.add_edge(i, new_id, OperandInfo::Unary);
        new_id
    }

    /// Adds a ciphertext input.
    pub fn add_ciphertext_input(&mut self) -> (id: NodeIndex)
        requires
            old(self).wf(),
            old(self).has_room(1, 0),
        ensures
            final(self).is_leaf_step(old(self), OperationView::InputCiphertext, id),
    {
        proof {
            self.compilation.graph.lemma_view_well_formed();
            lemma_leaf_keeps_shape(self.graph(), OperationView::InputCiphertext);
        }
        self.compilation.graph.add_node(Operation::InputCiphertext)
    }

    /// Adds a plaintext input.
    pub fn add_plaintext_input(&mut self) -> (id: NodeIndex)
        requires
            old(self).wf(),
            old(self).has_room(1, 0),
        ensures
            final(self).is_leaf_step(old(self), OperationView::InputPlaintext, id),
    {
        proof {
            self.compilation.graph.lemma_view_well_formed();
            lemma_leaf_keeps_shape(self.graph(), OperationView::InputPlaintext);
        }
        self.compilation.graph.add_node(Operation::InputPlaintext)
    }

    /// Adds a plaintext literal, or finds the node that already holds it.
    pub fn add_plaintext_literal(&mut self, plaintext: InnerPlaintext) -> (id: NodeIndex)
        requires
            old(self).wf(),
            old(self).graph().nodes.contains(
                OperationView::Literal(LiteralView::Plaintext(plaintext@)),
            ) || old(self).has_room(1, 0),
        ensures
            final(self).is_literal_step(
                old(self),
                OperationView::Literal(LiteralView::Plaintext(plaintext@)),
                id,
            ),
    {
        self.add_literal(Literal::Plaintext(plaintext))
    }

    /// Adds a subtraction.
    pub fn add_subtraction(&mut self, left: NodeIndex, right: NodeIndex) -> (id: NodeIndex)
        requires
            old(self).takes_binary(left, right),
        ensures
            final(self).is_binary_step(old(self), OperationView::Sub, left, right, id),
    {
        self.add_2_input(Operation::Sub, left, right)
    }

    /// Adds the subtraction of a plaintext.
    pub fn add_subtraction_plaintext(&mut self, left: NodeIndex, right: NodeIndex) -> (id:
        NodeIndex)
        requires
            old(self).takes_binary(left, right),
        ensures
            final(self).is_binary_step(old(self), OperationView::SubPlaintext, left, right, id),
    {
        self.add_2_input(Operation::SubPlaintext, left, right)
    }

    /// Adds a negation.
    pub fn add_negate(&mut self, x: NodeIndex) -> (id: NodeIndex)
        requires
            old(self).takes_unary(x),
        ensures
            final(self).is_unary_step(old(self), OperationView::Negate, x, id),
    {
        self.add_1_input(Operation::Negate, x)
    }

    /// Adds an addition.
    pub fn add_addition(&mut self, left: NodeIndex, right: NodeIndex) -> (id: NodeIndex)
        requires
            old(self).takes_binary(left, right),
        ensures
            final(self).is_binary_step(old(self), OperationView::Add, left, right, id),
    {
        self.add_2_input(Operation::Add, left, right)
    }

    /// Adds the addition of a plaintext.
    pub fn add_addition_plaintext(&mut self, left: NodeIndex, right: NodeIndex) -> (id: NodeIndex)
        requires
            old(self).takes_binary(left, right),
        ensures
            final(self).is_binary_step(old(self), OperationView::AddPlaintext, left, right, id),
    {
        self.add_2_input(Operation::AddPlaintext, left, right)
    }

    /// Adds a multiplication.
    pub fn add_multiplication(&mut self, left: NodeIndex, right: NodeIndex) -> (id: NodeIndex)
        requires
            old(self).takes_binary(left, right),
        ensures
            final(self).is_binary_step(old(self), OperationView::Multiply, left, right, id),
    {
        self.add_2_input(Operation::Multiply, left, right)
    }

    /// Adds the multiplication by a plaintext.
    pub fn add_multiplication_plaintext(&mut self, left: NodeIndex, right: NodeIndex) -> (id:
        NodeIndex)
        requires
            old(self).takes_binary(left, right),
        ensures
            final(self).is_binary_step(old(self), OperationView::MultiplyPlaintext, left, right, id),
    {
        self.add_2_input(Operation::MultiplyPlaintext, left, right)
    }

    /// Adds a literal, or finds the node that already holds it: the nodes
    /// are scanned in insertion order for a literal of the same value, and
    /// only if there is none does the graph get a new node.
    pub fn add_literal(&mut self, literal: Literal) -> (id: NodeIndex)
        requires
            old(self).wf(),
            old(self).graph().nodes.contains(OperationView::Literal(literal@)) || old(
                self,
            ).has_room(1, 0),
        ensures
            final(self).is_literal_step(old(self), OperationView::Literal(literal@), id),
    {
        let tag = Operation::Literal(literal);
        proof {
            lemma_slot_of(self.graph().nodes, tag@);
        }
        match self.compilation.graph.find_node(&tag) {
            Some(x) => x,
            None => {
                proof {
                    self.compilation.graph.lemma_view_well_formed();
                    lemma_leaf_keeps_shape(self.graph(), tag@);
                }
                self.compilation.graph.add_node(tag)
            },
        }
    }

    /// Adds a rotation to the left.
    pub fn add_rotate_left(&mut self, left: NodeIndex, right: NodeIndex) -> (id: NodeIndex)
        requires
            old(self).takes_binary(left, right),
        ensures
            final(self).is_binary_step(old(self), OperationView::RotateLeft, left, right, id),
    {
        self.add_2_input(Operation::RotateLeft, left, right)
    }

    /// Adds a rotation to the right.
    pub fn add_rotate_right(&mut self, left: NodeIndex, right: NodeIndex) -> (id: NodeIndex)
        requires
            old(self).takes_binary(left, right),
        ensures
            final(self).is_binary_step(old(self), OperationView::RotateRight, left, right, id),
    {
        self.add_2_input(Operation::RotateRight, left, right)
    }

    /// Adds a swap of rows.
    pub fn add_swap_rows(&mut self, x: NodeIndex) -> (id: NodeIndex)
        requires
            old(self).takes_unary(x),
        ensures
            final(self).is_unary_step(old(self), OperationView::SwapRows, x, id),
    {
        self.add_1_input(Operation::SwapRows, x)
    }

    /// Adds a node that marks `i` as a result of the program.
    pub fn add_output(&mut self, i: NodeIndex) -> (id: NodeIndex)
        requires
            old(self).takes_unary(i),
        ensures
            final(self).is_unary_step(old(self), OperationView::Output, i, id),
    {
        self.add_1_input(Operation::Output, i)
    }

    /// The runs of identifiers that the handles given out so far stand for.
    pub open spec fn runs(&self) -> Seq<Seq<NodeIndex>> {
        self.fhe_program_nodes@.map_values(|h: FheProgramNode| h.ids(self.indicies_store@))
    }

    /// The handle for the run of identifiers `ids`.
    ///
    /// The handles given out so far are scanned, oldest first, for one
    /// that stands for the same run; it is returned if there is one.
    /// Otherwise the run is appended to the store and gets a new handle.
    /// The store only grows, so every handle keeps standing for its run.
    pub fn get_fhe_program_node(&mut self, ids: &[NodeIndex]) -> (node: FheProgramNode)
        requires
            old(self).wf(),
            old(self).indicies_store@.len() + ids@.len() <= usize::MAX,
        ensures
            final(self).wf(),
            final(self).compilation == old(self).compilation,
            final(self).params == old(self).params,
            node.ids(final(self).indicies_store@) == ids@,
            forall|k: int|
                0 <= k < old(self).runs().len() ==> #[trigger] final(self).runs()[k] == old(
                    self,
                ).runs()[k],
            slot_of(old(self).runs(), ids@) < old(self).runs().len() ==> {
                &&& node == old(self).fhe_program_nodes@[slot_of(old(self).runs(), ids@)]
                &&& final(self).indicies_store@ == old(self).indicies_store@
                &&& final(self).fhe_program_nodes@ == old(self).fhe_program_nodes@
            },
            slot_of(old(self).runs(), ids@) == old(self).runs().len() ==> {
                &&& node == (FheProgramNode {
                    offset: old(self).indicies_store@.len() as usize,
                    len: ids@.len() as usize,
                })
                &&& final(self).indicies_store@ == old(self).indicies_store@ + ids@
                &&& final(self).fhe_program_nodes@ == old(self).fhe_program_nodes@.push(node)
            },
    {
        let ghost runs = self.runs();
        proof {
            lemma_slot_of(runs, ids@);
        }
        let count: usize = self.fhe_program_nodes.len();
        let mut k: usize = 0;
        while k < count
            invariant
                self.wf(),
                *self == *old(self),
                runs == self.runs(),
                count == self.fhe_program_nodes@.len(),
                k <= count,
                forall|j: int| 0 <= j < k ==> runs[j] != ids@,
            decreases count - k,
        {
            let handle = self.fhe_program_nodes[k];
            if holds_run(&self.indicies_store, handle, ids) {
                proof {
                    lemma_slot_of_is(runs, ids@, k as int);
                }
                return handle;
            }
            k = k + 1;
        }
        proof {
            lemma_slot_of_is(runs, ids@, count as int);
        }
        let offset: usize = self.indicies_store.len();
        let mut i: usize = 0;
        while i < ids.len()
            invariant
                i <= ids@.len(),
                offset + ids@.len() <= usize::MAX,
                self.compilation == old(self).compilation,
                self.params == old(self).params,
                self.fhe_program_nodes == old(self).fhe_program_nodes,
                self.indicies_store@ == old(self).indicies_store@ + ids@.take(i as int),
                offset == old(self).indicies_store@.len(),
            decreases ids@.len() - i,
        {
            self.indicies_store.push(ids[i]);
            assert(ids@.take(i + 1) =~= ids@.take(i as int).push(ids@[i as int]));
            assert(self.indicies_store@ =~= old(self).indicies_store@ + ids@.take(i + 1));
            i = i + 1;
        }
        assert(ids@.take(ids@.len() as int) =~= ids@);
        let node = FheProgramNode { offset, len: ids.len() };
        self.fhe_program_nodes.push(node);
        assert(node.ids(self.indicies_store@) =~= ids@);
        assert forall|k: int| 0 <= k < runs.len() implies #[trigger] self.runs()[k] == runs[k] by {
            let h = old(self).fhe_program_nodes@[k];
            assert(h.ids(self.indicies_store@) =~= h.ids(old(self).indicies_store@));
        }
        node
    }
}

/// Adding a binary operation to a well-shaped graph leaves it well-shaped.
pub proof fn lemma_binary_keeps_shape(g: FrontendView, op: OperationView, left: int, right: int)
    requires
        g.well_formed(),
        g.edges_forward(),
        well_shaped(g),
        literals_unique(g.nodes),
        is_binary(op),
        0 <= left < g.nodes.len(),
        0 <= right < g.nodes.len(),
    ensures
        well_shaped(g.with_binary(op, left, right, OperandInfo::Left, OperandInfo::Right)),
        literals_unique(g.with_binary(op, left, right, OperandInfo::Left, OperandInfo::Right).nodes),
        g.with_binary(op, left, right, OperandInfo::Left, OperandInfo::Right).edges_forward(),
{
    let after = g.with_binary(op, left, right, OperandInfo::Left, OperandInfo::Right);
    g.lemma_with_binary(op, left, right, OperandInfo::Left, OperandInfo::Right);
    assert forall|n: int| 0 <= n < after.nodes.len() implies in_edges_ok(
        after.nodes[n],
        #[trigger] after.in_edges(n),
    ) by {
        if n < g.nodes.len() {
            assert(in_edges_ok(g.nodes[n], g.in_edges(n)));
        }
    }
}

/// Adding a unary operation to a well-shaped graph leaves it well-shaped.
pub proof fn lemma_unary_keeps_shape(g: FrontendView, op: OperationView, operand: int)
    requires
        g.well_formed(),
        g.edges_forward(),
        well_shaped(g),
        literals_unique(g.nodes),
        is_unary(op),
        0 <= operand < g.nodes.len(),
    ensures
        well_shaped(g.with_unary(op, operand, OperandInfo::Unary)),
        literals_unique(g.with_unary(op, operand, OperandInfo::Unary).nodes),
        g.with_unary(op, operand, OperandInfo::Unary).edges_forward(),
{
    let after = g.with_unary(op, operand, OperandInfo::Unary);
    g.lemma_with_unary(op, operand, OperandInfo::Unary);
    assert forall|n: int| 0 <= n < after.nodes.len() implies in_edges_ok(
        after.nodes[n],
        #[trigger] after.in_edges(n),
    ) by {
        if n < g.nodes.len() {
            assert(in_edges_ok(g.nodes[n], g.in_edges(n)));
        }
    }
}

/// Adding an input or a literal that the graph does not hold yet leaves
/// it well-shaped.
pub proof fn lemma_leaf_keeps_shape(g: FrontendView, op: OperationView)
    requires
        g.well_formed(),
        g.edges_forward(),
        well_shaped(g),
        literals_unique(g.nodes),
        !is_binary(op),
        !is_unary(op),
        op is Literal ==> !g.nodes.contains(op),
    ensures
        well_shaped(g.with_node(op)),
        literals_unique(g.with_node(op).nodes),
        g.with_node(op).edges_forward(),
{
    let after = g.with_node(op);
    g.lemma_no_edges_beyond(g.nodes.len() as int);
    assert forall|n: int| 0 <= n < after.nodes.len() implies in_edges_ok(
        after.nodes[n],
        #[trigger] after.in_edges(n),
    ) by {
        g.lemma_in_edges_with_node(op, n);
        if n < g.nodes.len() {
            assert(in_edges_ok(g.nodes[n], g.in_edges(n)));
        }
    }
    assert forall|i: int, j: int|
        0 <= i < j < after.nodes.len() && after.nodes[i] is Literal implies #[trigger] after.nodes[i]
        != #[trigger] after.nodes[j] by {
        if j == g.nodes.len() {
            if after.nodes[i] == op {
                assert(g.nodes[i] == op);
                assert(g.nodes.contains(op));
            }
        } else {
            assert(g.nodes[i] != g.nodes[j]);
        }
    }
}

/// The backend's graph as the contracts see it.
pub type BackendView = GraphView<FheProgramOperationView, EdgeInfo>;

/// The tag of a plaintext literal that has no serialized form.
pub open spec fn unserializable() -> OperationView {
    OperationView::Literal(LiteralView::Plaintext(None))
}

/// The number of input nodes before position `i`: the position, among the
/// arguments of a call, of the argument that an input node at `i` loads.
pub open spec fn input_rank(nodes: Seq<OperationView>, i: int) -> int {
    nodes.take(i).filter(|op: OperationView| is_input(op)).len() as int
}

/// The backend operation that a frontend operation becomes, where `rank`
/// is the number of input nodes before it. A plaintext literal without a
/// serialized form becomes none.
pub open spec fn lower_operation(op: OperationView, rank: int) -> Option<FheProgramOperationView> {
    match op {
        OperationView::InputCiphertext => Some(
            FheProgramOperationView::InputCiphertext(rank as usize),
        ),
        OperationView::InputPlaintext => Some(FheProgramOperationView::InputPlaintext(rank as usize)),
        OperationView::Add => Some(FheProgramOperationView::Add),
        OperationView::AddPlaintext => Some(FheProgramOperationView::AddPlaintext),
        OperationView::Sub => Some(FheProgramOperationView::Sub),
        OperationView::SubPlaintext => Some(FheProgramOperationView::SubPlaintext),
        OperationView::Negate => Some(FheProgramOperationView::Negate),
        OperationView::Multiply => Some(FheProgramOperationView::Multiply),
        OperationView::MultiplyPlaintext => Some(FheProgramOperationView::MultiplyPlaintext),
        OperationView::Literal(LiteralView::U64(x)) => Some(
            FheProgramOperationView::Literal(FheProgramLiteralView::U64(x)),
        ),
        OperationView::Literal(LiteralView::Plaintext(Some(bytes))) => Some(
            FheProgramOperationView::Literal(FheProgramLiteralView::Plaintext(bytes)),
        ),
        OperationView::Literal(LiteralView::Plaintext(None)) => None,
        OperationView::RotateLeft => Some(FheProgramOperationView::ShiftLeft),
        OperationView::RotateRight => Some(FheProgramOperationView::ShiftRight),
        OperationView::SwapRows => Some(FheProgramOperationView::SwapRows),
        OperationView::Output => Some(FheProgramOperationView::OutputCiphertext),
    }
}

/// The backend role that a frontend role becomes.
pub open spec fn lower_operand(role: OperandInfo) -> EdgeInfo {
    match role {
        OperandInfo::Left => EdgeInfo::LeftOperand,
        OperandInfo::Right => EdgeInfo::RightOperand,
        OperandInfo::Unary => EdgeInfo::UnaryOperand,
    }
}

/// The backend graph that a frontend graph becomes: node for node and
/// edge for edge, under the same indices.
pub open spec fn lowered(g: FrontendView) -> BackendView {
    GraphView {
        nodes: Seq::new(
            g.nodes.len(),
            |i: int| lower_operation(g.nodes[i], input_rank(g.nodes, i)).unwrap(),
        ),
        edges: Seq::new(
            g.edges.len(),
            |k: int|
                EdgeView {
                    from: g.edges[k].from,
                    to: g.edges[k].to,
                    role: lower_operand(g.edges[k].role),
                },
        ),
    }
}

/// Lowering drops no node and no edge, keeps every index, and so gives a
/// graph of the same shape as its source.
pub proof fn lemma_lowered_keeps_shape(g: FrontendView)
    requires
        g.well_formed(),
    ensures
        lowered(g).nodes.len() == g.nodes.len(),
        lowered(g).edges.len() == g.edges.len(),
        lowered(g).well_formed(),
        lowered(g).shape() == g.shape(),
        isomorphic(g.shape(), lowered(g).shape()),
{
    assert(lowered(g).shape().nodes =~= g.shape().nodes);
    assert(lowered(g).shape().edges =~= g.shape().edges);
    assert(g.shape().well_formed());
    lemma_isomorphic_reflexive(g.shape());
}

/// The rank of the next position counts the node at this one if it is an input.
proof fn lemma_input_rank_step(nodes: Seq<OperationView>, i: int)
    requires
        0 <= i < nodes.len(),
    ensures
        input_rank(nodes, i + 1) == input_rank(nodes, i) + if is_input(nodes[i]) {
            1int
        } else {
            0int
        },
        0 <= input_rank(nodes, i) <= i,
{
    let pred = |op: OperationView| is_input(op);
    assert(nodes.take(i + 1) =~= nodes.take(i).push(nodes[i]));
    nodes.take(i).lemma_filter_len_push(pred, nodes[i]);
    nodes.take(i).lemma_filter_len(pred);
}

/// The backend operation for a frontend operation that has `rank` input
/// nodes before it.
fn lower_node(op: &Operation, rank: usize) -> (r: Option<FheProgramOperation>)
    ensures
        match r {
            Some(lowered) => lower_operation(op@, rank as int) == Some(lowered@),
            None => op@ == unserializable(),
        },
{
    match op {
        Operation::Add => Some(FheProgramOperation::Add),
        Operation::InputCiphertext => Some(FheProgramOperation::InputCiphertext(rank)),
        Operation::InputPlaintext => Some(FheProgramOperation::InputPlaintext(rank)),
        Operation::Literal(Literal::U64(x)) => Some(
            FheProgramOperation::Literal(FheProgramLiteral::U64(*x)),
        ),
        Operation::Literal(Literal::Plaintext(x)) => match x.to_bytes() {
            Some(bytes) => Some(FheProgramOperation::Literal(FheProgramLiteral::Plaintext(bytes))),
            None => None,
        },
        Operation::Sub => Some(FheProgramOperation::Sub),
        Operation::SubPlaintext => Some(FheProgramOperation::SubPlaintext),
        Operation::Negate => Some(FheProgramOperation::Negate),
        Operation::Multiply => Some(FheProgramOperation::Multiply),
        Operation::MultiplyPlaintext => Some(FheProgramOperation::MultiplyPlaintext),
        Operation::Output => Some(FheProgramOperation::OutputCiphertext),
        Operation::RotateLeft => Some(FheProgramOperation::ShiftLeft),
        Operation::RotateRight => Some(FheProgramOperation::ShiftRight),
        Operation::SwapRows => Some(FheProgramOperation::SwapRows),
        Operation::AddPlaintext => Some(FheProgramOperation::AddPlaintext),
    }
}

/// The backend role for a frontend role.
fn lower_edge(role: &OperandInfo) -> (r: EdgeInfo)
    ensures
        r == lower_operand(*role),
{
    match role {
        OperandInfo::Left => EdgeInfo::LeftOperand,
        OperandInfo::Right => EdgeInfo::RightOperand,
        OperandInfo::Unary => EdgeInfo::UnaryOperand,
    }
}

impl FrontendCompilation {
    /// Lowers the graph to the backend's vocabulary.
    ///
    /// Every operation becomes the backend operation of the same meaning,
    /// an input node the load of the argument at its rank among the input
    /// nodes, and every role the backend role of the same meaning; nodes
    /// and edges keep their indices, which run from zero without gaps.
    /// A plaintext literal without a serialized form fails the lowering,
    /// and the error names the first such node.
    pub fn compile(&self) -> (r: Result<FheProgram, Error>)
        requires
            self.graph.wf(),
        ensures
            match r {
                Ok(program) => {
                    &&& !self.graph@.nodes.contains(unserializable())
                    &&& program.scheme == SchemeType::Bfv
                    &&& program.graph.wf()
                    &&& program.graph@ == lowered(self.graph@)
                    &&& program.graph@.nodes.len() == self.graph@.nodes.len()
                    &&& program.graph@.edges.len() == self.graph@.edges.len()
                    &&& isomorphic(self.graph@.shape(), program.graph@.shape())
                },
                Err(e) => {
                    &&& self.graph@.nodes.contains(unserializable())
                    &&& e matches Error::PlaintextSerialization { node }
                    &&& e->node.0 == slot_of(self.graph@.nodes, unserializable())
                    &&& is_first_slot(self.graph@.nodes, unserializable(), e->node.0 as int)
                },
            },
    {
        let ghost source = self.graph@;
        proof {
            self.graph.lemma_view_well_formed();
            lemma_lowered_keeps_shape(source);
        }
        let node_count: usize = self.graph.node_count();
        let mut nodes: Vec<NodeInfo> = Vec::new();
        let mut rank: usize = 0;
        let mut i: usize = 0;
        while i < node_count
            invariant
                self.graph.wf(),
                source == self.graph@,
                node_count == source.nodes.len(),
                i <= node_count,
                nodes@.len() == i,
                rank == input_rank(source.nodes, i as int),
                rank <= i,
                forall|j: int| 0 <= j < i ==> source.nodes[j] != unserializable(),
                forall|j: int|
                    0 <= j < i ==> lower_operation(source.nodes[j], input_rank(source.nodes, j))
                        == Some(#[trigger] nodes@[j]@),
            decreases node_count - i,
        {
            proof {
                lemma_input_rank_step(source.nodes, i as int);
            }
            let op = self.graph.node(NodeIndex::new(i));
            match lower_node(op, rank) {
                Some(lowered) => {
                    nodes.push(NodeInfo::new(lowered));
                },
                None => {
                    proof {
                        crate::view::lemma_slot_of_is(source.nodes, unserializable(), i as int);
                        assert(source.nodes.contains(unserializable()));
                    }
                    return Err(Error::PlaintextSerialization { node: NodeIndex::new(i) });
                },
            }
            match op {
                Operation::InputCiphertext => {
                    rank = rank + 1;
                },
                Operation::InputPlaintext => {
                    rank = rank + 1;
                },
                _ => {},
            }
            i = i + 1;
        }
        let edge_count: usize = self.graph.edge_count();
        let mut roles: Vec<EdgeInfo> = Vec::new();
        let mut k: usize = 0;
        while k < edge_count
            invariant
                self.graph.wf(),
                source == self.graph@,
                edge_count == source.edges.len(),
                k <= edge_count,
                roles@.len() == k,
                forall|j: int| 0 <= j < k ==> #[trigger] roles@[j] == lower_operand(source.edges[j].role),
            decreases edge_count - k,
        {
            roles.push(lower_edge(self.graph.role(k)));
            k = k + 1;
        }
        let mut fhe_program = FheProgram::new(SchemeType::Bfv);
        fhe_program.graph = self.graph.with_weights(nodes, roles);
        proof {
            assert(fhe_program.graph@.nodes =~= lowered(source).nodes);
            assert(fhe_program.graph@.edges =~= lowered(source).edges);
            assert(!source.nodes.contains(unserializable()));
        }
        Ok(fhe_program)
    }

    /// Whether the two graphs encode the same program: whether they are
    /// the same up to the numbering of their nodes and edges. Meant for
    /// small graphs; see `OperationGraph::structurally_equal`.
    pub fn eq(&self, b: &Self) -> (r: bool)
        requires
            self.graph.wf(),
            b.graph.wf(),
            self.graph.searchable(),
            b.graph.searchable(),
        ensures
            r == isomorphic(self.graph@, b.graph@),
    {
        self.graph.structurally_equal(&b.graph)
    }
}

} // verus!
