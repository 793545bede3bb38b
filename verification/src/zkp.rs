//! The frontend of ZKP programs: the operations a circuit is made of, the
//! context that records them as a graph, the expansion of gadgets, and the
//! lowering of the graph to the vocabulary of the proof systems.

use crate::common::{CompilationResult, EdgeInfo, NodeInfo};
use crate::error::Error;
use crate::graph::{NodeIndex, OperationGraph, ViewEq};
use crate::isomorphism::{isomorphic, lemma_isomorphic_reflexive};
use crate::view::{
    is_first_slot, lemma_shaped_with_edge, lemma_shaped_with_node, lemma_slot_of, shaped_by,
    slot_of, EdgeView, GraphView,
};
use crate::zkp_backend::{
    BigInt, CompiledZkpProgram, Gadget, GadgetDescriptor, GadgetDescriptorView,
    Operation as JitOperation, OperationView,
};
use crate::render::{decimal, push_decimal};
use crate::zkp_backend::big_int_text;
use vstd::prelude::*;
use vstd::std_specs::cmp::PartialEqSpecImpl;
use vstd::string::StringExecFns;

verus! {

/// An operation of a circuit under construction.
#[derive(Clone, Copy, Debug, Eq, Hash)]
pub enum Operation {
    /// The private input with the given slot.
    PrivateInput(usize),
    /// The public input with the given slot.
    PublicInput(usize),
    /// The constant input with the given slot.
    ConstantInput(usize),
    /// The hidden input with the given position among those of its gadget.
    HiddenInput(usize),
    /// The constraint that the operand equals the given value.
    Constraint(BigInt),
    /// The given value.
    Constant(BigInt),
    /// The invocation of the described gadget.
    InvokeGadget(GadgetDescriptor),
    /// Addition.
    Add,
    /// Subtraction.
    Sub,
    /// Multiplication.
    Mul,
    /// Negation.
    Neg,
}

impl View for Operation {
    type V = OperationView;

    open spec fn view(&self) -> OperationView {
        match self {
            Operation::PrivateInput(x) => OperationView::PrivateInput(*x),
            Operation::PublicInput(x) => OperationView::PublicInput(*x),
            Operation::ConstantInput(x) => OperationView::ConstantInput(*x),
            Operation::HiddenInput(x) => OperationView::HiddenInput(*x),
            Operation::Constraint(x) => OperationView::Constraint(x@),
            Operation::Constant(x) => OperationView::Constant(x@),
            Operation::InvokeGadget(g) => OperationView::InvokeGadget(g@),
            Operation::Add => OperationView::Add,
            Operation::Sub => OperationView::Sub,
            Operation::Mul => OperationView::Mul,
            Operation::Neg => OperationView::Neg,
        }
    }
}

impl PartialEq for Operation {
    /// Two operations are equal when they are of the same kind and carry
    /// the same slot, value or gadget.
    fn eq(&self, other: &Self) -> (r: bool) {
        match (self, other) {
            (Operation::PrivateInput(x), Operation::PrivateInput(y)) => *x == *y,
            (Operation::PublicInput(x), Operation::PublicInput(y)) => *x == *y,
            (Operation::ConstantInput(x), Operation::ConstantInput(y)) => *x == *y,
            (Operation::HiddenInput(x), Operation::HiddenInput(y)) => *x == *y,
            (Operation::Constraint(x), Operation::Constraint(y)) => x.same(y),
            (Operation::Constant(x), Operation::Constant(y)) => x.same(y),
            (Operation::InvokeGadget(x), Operation::InvokeGadget(y)) => x.same(y),
            (Operation::Add, Operation::Add) => true,
            (Operation::Sub, Operation::Sub) => true,
            (Operation::Mul, Operation::Mul) => true,
            (Operation::Neg, Operation::Neg) => true,
            _ => false,
        }
    }
}

impl PartialEqSpecImpl for Operation {
    open spec fn obeys_eq_spec() -> bool {
        true
    }

    open spec fn eq_spec(&self, other: &Self) -> bool {
        self@ == other@
    }
}

impl ViewEq for Operation {
    fn same(&self, other: &Self) -> (r: bool) {
        *self == *other
    }
}

impl Operation {
    /// Whether the operation takes a left and a right operand.
    pub fn is_binary(&self) -> (r: bool)
        ensures
            r == (self@ is Add || self@ is Mul || self@ is Sub),
    {
        matches!(self, Operation::Add | Operation::Mul | Operation::Sub)
    }

    /// Whether the operation gives the same result with its operands swapped.
    pub fn is_commutative(&self) -> (r: bool)
        ensures
            r == (self@ is Add || self@ is Mul),
    {
        matches!(self, Operation::Add | Operation::Mul)
    }

    /// Whether the operation takes a single operand.
    pub fn is_unary(&self) -> (r: bool)
        ensures
            r == (self@ is Neg),
    {
        matches!(self, Operation::Neg)
    }

    /// Whether the order of the operation's operands does not matter.
    pub fn is_unordered(&self) -> (r: bool)
        ensures
            r == (self@ is Constant),
    {
        matches!(self, Operation::Constant(_))
    }

    /// Whether the operation's operands come at numbered positions.
    pub fn is_ordered(&self) -> (r: bool)
        ensures
            r == (self@ is InvokeGadget),
    {
        matches!(self, Operation::InvokeGadget(_))
    }

    /// Whether the operation is an addition.
    pub fn is_add(&self) -> (r: bool)
        ensures
            r == (self@ is Add),
    {
        matches!(self, Operation::Add)
    }

    /// Whether the operation is a subtraction.
    pub fn is_sub(&self) -> (r: bool)
        ensures
            r == (self@ is Sub),
    {
        matches!(self, Operation::Sub)
    }

    /// Whether the operation is a multiplication.
    pub fn is_mul(&self) -> (r: bool)
        ensures
            r == (self@ is Mul),
    {
        matches!(self, Operation::Mul)
    }

    /// Whether the operation is a negation.
    pub fn is_neg(&self) -> (r: bool)
        ensures
            r == (self@ is Neg),
    {
        matches!(self, Operation::Neg)
    }

    /// Whether the operation is a private input.
    pub fn is_private_input(&self) -> (r: bool)
        ensures
            r == (self@ is PrivateInput),
    {
        matches!(self, Operation::PrivateInput(_))
    }

    /// Whether the operation is a public input.
    pub fn is_public_input(&self) -> (r: bool)
        ensures
            r == (self@ is PublicInput),
    {
        matches!(self, Operation::PublicInput(_))
    }

    /// Whether the operation is a hidden input.
    pub fn is_hidden_input(&self) -> (r: bool)
        ensures
            r == (self@ is HiddenInput),
    {
        matches!(self, Operation::HiddenInput(_))
    }
}

/// An operation as text: the name of its kind and, in parentheses, what
/// it carries: the slot of an input, the value of a constraint or a
/// constant, the name of a gadget.
pub open spec fn rendered(op: OperationView) -> Seq<char> {
    match op {
        OperationView::PrivateInput(x) => "PrivateInput("@ + decimal(x as nat) + ")"@,
        OperationView::PublicInput(x) => "PublicInput("@ + decimal(x as nat) + ")"@,
        OperationView::ConstantInput(x) => "ConstantInput("@ + decimal(x as nat) + ")"@,
        OperationView::HiddenInput(x) => "HiddenInput("@ + decimal(x as nat) + ")"@,
        OperationView::Constraint(x) => "Constraint("@ + big_int_text(x) + ")"@,
        OperationView::Constant(x) => "Constant("@ + big_int_text(x) + ")"@,
        OperationView::InvokeGadget(g) => "InvokeGadget("@ + g.name + ")"@,
        OperationView::Add => "Add"@,
        OperationView::Sub => "Sub"@,
        OperationView::Mul => "Mul"@,
        OperationView::Neg => "Neg"@,
    }
}

/// The text of a kind that carries a slot.
fn render_slot(kind: &str, slot: usize) -> (text: String)
    ensures
        text@ == kind@ + decimal(slot as nat) + ")"@,
{
    let mut text = String::from_str(kind);
    push_decimal(&mut text, slot);
    text.append(")");
    text
}

/// The text of a kind that carries a value.
fn render_value(kind: &str, value: &BigInt) -> (text: String)
    ensures
        text@ == kind@ + big_int_text(value@) + ")"@,
{
    let mut text = String::from_str(kind);
    let digits = value.render();
    text.append(digits.as_str());
    text.append(")");
    text
}

impl Operation {
    /// The operation as text.
    pub fn render(&self) -> (text: String)
        ensures
            text@ == rendered(self@),
    {
        match self {
            Operation::PrivateInput(x) => render_slot("PrivateInput(", *x),
            Operation::PublicInput(x) => render_slot("PublicInput(", *x),
            Operation::ConstantInput(x) => render_slot("ConstantInput(", *x),
            Operation::HiddenInput(x) => render_slot("HiddenInput(", *x),
            Operation::Constraint(x) => render_value("Constraint(", x),
            Operation::Constant(x) => render_value("Constant(", x),
            Operation::InvokeGadget(g) => {
                let mut text = String::from_str("InvokeGadget(");
                text.append(g.name);
                text.append(")");
                text
            },
            Operation::Add => String::from_str("Add"),
            Operation::Sub => String::from_str("Sub"),
            Operation::Mul => String::from_str("Mul"),
            Operation::Neg => String::from_str("Neg"),
        }
    }
}

/// How many public, private and constant inputs a circuit has been given
/// so far: the slot that the next input of each kind gets.
pub struct ZkpData {
    pub next_public_input: usize,
    pub next_private_input: usize,
    pub next_constant_input: usize,
}

impl ZkpData {
    /// The counters of a circuit without inputs.
    pub fn new() -> (data: Self)
        ensures
            data.next_public_input == 0,
            data.next_private_input == 0,
            data.next_constant_input == 0,
    {
        Self { next_private_input: 0, next_public_input: 0, next_constant_input: 0 }
    }
}

impl Default for ZkpData {
    /// The counters of a circuit without inputs.
    fn default() -> (data: Self)
        ensures
            data.next_public_input == 0,
            data.next_private_input == 0,
            data.next_constant_input == 0,
    {
        Self::new()
    }
}

/// The graph of a circuit in the frontend's vocabulary.
pub type ZkpFrontendCompilation = CompilationResult<Operation>;

/// A circuit's graph as the contracts see it.
pub type ZkpView = GraphView<OperationView, EdgeInfo>;

/// The edges into a node are the ones its operation asks for: a left and
/// a right operand for an addition, subtraction or multiplication; one
/// operand for a negation; one unordered operand for a constraint; none
/// for an input from outside or a constant. A gadget invocation has its
/// inputs so far at the positions 0, 1, 2 and so on, and a hidden input at
/// most the edge from its gadget.
pub open spec fn in_edges_ok(op: OperationView, ins: Seq<EdgeView<EdgeInfo>>) -> bool {
    match op {
        OperationView::Add | OperationView::Sub | OperationView::Mul => {
            ins.len() == 2 && ins[0].role == EdgeInfo::Left && ins[1].role == EdgeInfo::Right
        },
        OperationView::Neg => ins.len() == 1 && ins[0].role == EdgeInfo::Unary,
        OperationView::Constraint(_) => ins.len() == 1 && ins[0].role == EdgeInfo::Unordered,
        OperationView::InvokeGadget(gadget) => {
            &&& ins.len() <= gadget.gadget_input_count
            &&& forall|j: int| 0 <= j < ins.len() ==> (#[trigger] ins[j]).role == EdgeInfo::Ordered(j as usize)
        },
        OperationView::HiddenInput(_) => {
            &&& ins.len() <= 1
            &&& forall|j: int| 0 <= j < ins.len() ==> (#[trigger] ins[j]).role == EdgeInfo::Unary
        },
        _ => ins.len() == 0,
    }
}

/// Every node has incoming edges that its operation asks for.
pub open spec fn well_shaped(g: ZkpView) -> bool {
    shaped_by(g, |op: OperationView, ins: Seq<EdgeView<EdgeInfo>>| in_edges_ok(op, ins))
}

/// In a well-shaped circuit an addition, subtraction or multiplication has
/// exactly two incoming edges, the first from its left and the second from
/// its right operand; a negation has exactly one, from its single operand;
/// an input from outside and a constant have none.
pub proof fn lemma_in_degrees(g: ZkpView, n: int)
    requires
        well_shaped(g),
        0 <= n < g.nodes.len(),
    ensures
        g.nodes[n] is Add || g.nodes[n] is Sub || g.nodes[n] is Mul ==> {
            &&& g.in_edges(n).len() == 2
            &&& g.in_edges(n)[0].role == EdgeInfo::Left
            &&& g.in_edges(n)[1].role == EdgeInfo::Right
        },
        g.nodes[n] is Neg ==> g.in_edges(n).len() == 1 && g.in_edges(n)[0].role == EdgeInfo::Unary,
        g.nodes[n] is PublicInput || g.nodes[n] is PrivateInput || g.nodes[n] is ConstantInput
            || g.nodes[n] is Constant ==> g.in_edges(n).len() == 0,
{
    assert(in_edges_ok(g.nodes[n], g.in_edges(n)));
}

/// The operations of which a circuit holds no two alike: constants, and
/// the inputs from outside, each with its slot.
pub open spec fn is_single(op: OperationView) -> bool {
    op is Constant || op is PublicInput || op is PrivateInput || op is ConstantInput
}

/// No constant and no input slot occurs at two nodes.
pub open spec fn singles_unique(nodes: Seq<OperationView>) -> bool {
    forall|i: int, j: int|
        0 <= i < j < nodes.len() && is_single(nodes[i]) ==> #[trigger] nodes[i] != #[trigger] nodes[j]
}

/// Every input slot in use lies below the counter of its kind, and no
/// counter exceeds the number of nodes.
pub open spec fn slots_counted(nodes: Seq<OperationView>, data: ZkpData) -> bool {
    &&& data.next_public_input <= nodes.len()
    &&& data.next_private_input <= nodes.len()
    &&& data.next_constant_input <= nodes.len()
    &&& forall|i: int|
        0 <= i < nodes.len() ==> match #[trigger] nodes[i] {
            OperationView::PublicInput(slot) => slot < data.next_public_input,
            OperationView::PrivateInput(slot) => slot < data.next_private_input,
            OperationView::ConstantInput(slot) => slot < data.next_constant_input,
            _ => true,
        }
}

/// The context in which the graph of one circuit is built.
pub struct ZkpContext {
    /// The graph built so far.
    pub graph: ZkpFrontendCompilation,
    /// The input slots handed out so far.
    pub data: ZkpData,
}

impl ZkpContext {
    /// The graph built so far, as the contracts see it.
    pub open spec fn view(&self) -> ZkpView {
        self.graph.0@
    }

    /// The invariant of a context: the graph is sound, every node has the
    /// edges its operation asks for, every edge leads from an older node to
    /// a younger one, no constant and no input slot occurs twice, and the
    /// counters lie above every slot in use.
    pub open spec fn wf(&self) -> bool {
        &&& self.graph.0.wf()
        &&& self@.well_formed()
        &&& self@.edges_forward()
        &&& well_shaped(self@)
        &&& singles_unique(self@.nodes)
        &&& slots_counted(self@.nodes, self.data)
    }

    /// The graph can take `nodes` more nodes and `edges` more edges.
    pub open spec fn has_room(&self, nodes: int, edges: int) -> bool {
        &&& self@.nodes.len() + nodes <= u32::MAX
        &&& self@.edges.len() + edges <= u32::MAX
    }

    /// What a binary operation may be added to: a sound context that holds
    /// both operands and has room for a node and two edges.
    pub open spec fn takes_binary(&self, left: NodeIndex, right: NodeIndex) -> bool {
        &&& self.wf()
        &&& left.0 < self@.nodes.len()
        &&& right.0 < self@.nodes.len()
        &&& self.has_room(1, 2)
    }

    /// What a unary operation may be added to: a sound context that holds
    /// the operand and has room for a node and an edge.
    pub open spec fn takes_unary(&self, operand: NodeIndex) -> bool {
        &&& self.wf()
        &&& operand.0 < self@.nodes.len()
        &&& self.has_room(1, 1)
    }

    /// This context is `before` with one more node `id`, tagged `op`, and
    /// the edges into it from `left` and from `right`, in that order.
    pub open spec fn is_binary_step(
        &self,
        before: &ZkpContext,
        op: OperationView,
        left: NodeIndex,
        right: NodeIndex,
        id: NodeIndex,
    ) -> bool {
        &&& self.wf()
        &&& self@ == before@.with_binary(
            op,
            left.0 as int,
            right.0 as int,
            EdgeInfo::Left,
            EdgeInfo::Right,
        )
        &&& id.0 == before@.nodes.len()
        &&& self.data == before.data
    }

    /// This context is `before` with one more node `id`, tagged `op`, and
    /// the edge into it from `operand` in the given role.
    pub open spec fn is_unary_step(
        &self,
        before: &ZkpContext,
        op: OperationView,
        operand: NodeIndex,
        role: EdgeInfo,
        id: NodeIndex,
    ) -> bool {
        &&& self.wf()
        &&& self@ == before@.with_unary(op, operand.0 as int, role)
        &&& id.0 == before@.nodes.len()
        &&& self.data == before.data
    }

    /// This context is `before` with one more node `id`, tagged `op`, that
    /// no edge touches.
    pub open spec fn is_leaf_step(&self, before: &ZkpContext, op: OperationView, id: NodeIndex)
        -> bool {
        &&& self.wf()
        &&& self@ == before@.with_node(op)
        &&& id.0 == before@.nodes.len()
    }

    /// Whether the graph can take `nodes` more nodes and `edges` more edges.
    pub fn has_room_for(&self, nodes: usize, edges: usize) -> (r: bool)
        requires
            self.graph.0.wf(),
        ensures
            r == self.has_room(nodes as int, edges as int),
    {
        let limit: usize = u32::MAX as usize;
        let node_count: usize = self.graph.0.node_count();
        let edge_count: usize = self.graph.0.edge_count();
        node_count <= limit && nodes <= limit - node_count && edge_count <= limit && edges <= limit
            - edge_count
    }

    /// A context with an empty graph and all counters at zero.
    pub fn new() -> (ctx: Self)
        ensures
            ctx.wf(),
            ctx@ == ZkpView::empty(),
            ctx.data.next_public_input == 0,
            ctx.data.next_private_input == 0,
            ctx.data.next_constant_input == 0,
    {
        let ctx = ZkpContext { graph: CompilationResult(OperationGraph::new()), data: ZkpData::new() };
        proof {
            assert forall|n: int| 0 <= n < ctx@.nodes.len() implies in_edges_ok(
                ctx@.nodes[n],
                #[trigger] ctx@.in_edges(n),
            ) by {}
        }
        ctx
    }

    /// Adds a node that no edge touches, and sets the counters.
    fn add_counted_node(&mut self, operation: Operation, data: ZkpData) -> (id: NodeIndex)
        requires
            old(self).wf(),
            old(self).has_room(1, 0),
            in_edges_ok(operation@, Seq::empty()),
            is_single(operation@) ==> !old(self)@.nodes.contains(operation@),
            slots_counted(old(self)@.nodes.push(operation@), data),
        ensures
            final(self).is_leaf_step(old(self), operation@, id),
            final(self).data == data,
    {
        proof {
            lemma_shaped_with_node(
                self@,
                |op: OperationView, ins: Seq<EdgeView<EdgeInfo>>| in_edges_ok(op, ins),
                operation@,
            );
            lemma_single_stays_unique(self@.nodes, operation@);
        }
        let id = self.graph.0.add_node(NodeInfo { operation });
        self.data = data;
        id
    }

    /// Adds a node that no edge touches.
    fn add_node(&mut self, operation: Operation) -> (id: NodeIndex)
        requires
            old(self).wf(),
            old(self).has_room(1, 0),
            in_edges_ok(operation@, Seq::empty()),
            is_single(operation@) ==> !old(self)@.nodes.contains(operation@),
            slots_counted(old(self)@.nodes.push(operation@), old(self).data),
        ensures
            final(self).is_leaf_step(old(self), operation@, id),
            final(self).data == old(self).data,
    {
        proof {
            lemma_shaped_with_node(
                self@,
                |op: OperationView, ins: Seq<EdgeView<EdgeInfo>>| in_edges_ok(op, ins),
                operation@,
            );
            lemma_single_stays_unique(self@.nodes, operation@);
        }
        self.graph.0.add_node(NodeInfo { operation })
    }

    /// Adds an edge whose target accepts it after the edges it already has.
    fn add_edge(&mut self, from: NodeIndex, to: NodeIndex, role: EdgeInfo)
        requires
            old(self).wf(),
            old(self).has_room(0, 1),
            from.0 < to.0 < old(self)@.nodes.len(),
            in_edges_ok(
                old(self)@.nodes[to.0 as int],
                old(self)@.in_edges(to.0 as int).push(
                    EdgeView { from: from.0 as int, to: to.0 as int, role },
                ),
            ),
        ensures
            final(self).wf(),
            final(self)@ == old(self)@.with_edge(from.0 as int, to.0 as int, role),
            final(self).data == old(self).data,
    {
        proof {
            lemma_shaped_with_edge(
                self@,
                |op: OperationView, ins: Seq<EdgeView<EdgeInfo>>| in_edges_ok(op, ins),
                from.0 as int,
                to.0 as int,
                role,
            );
        }
        self.graph.0.add_edge(from, to, role);
    }

    /// Adds a node for a binary operation together with the edges from
    /// its two operands.
    fn add_binary_operation(&mut self, operation: Operation, left: NodeIndex, right: NodeIndex)
        -> (id: NodeIndex)
        requires
            old(self).takes_binary(left, right),
            operation@ is Add || operation@ is Sub || operation@ is Mul,
        ensures
            final(self).is_binary_step(old(self), operation@, left, right, id),
    {
        let ghost before = self@;
        let ghost n = before.nodes.len() as int;
        proof {
            before.lemma_with_binary(
                operation@,
                left.0 as int,
                right.0 as int,
                EdgeInfo::Left,
                EdgeInfo::Right,
            );
            let after = before.with_binary(
                operation@,
                left.0 as int,
                right.0 as int,
                EdgeInfo::Left,
                EdgeInfo::Right,
            );
            assert forall|m: int| 0 <= m < after.nodes.len() implies in_edges_ok(
                after.nodes[m],
                #[trigger] after.in_edges(m),
            ) by {
                if m < n {
                    assert(in_edges_ok(before.nodes[m], before.in_edges(m)));
                }
            }
            lemma_single_stays_unique(before.nodes, operation@);
        }
        let id = self.graph.0.add_node(NodeInfo { operation });
        self.graph.0.add_edge(left, id, EdgeInfo::Left);
        self.graph.0.add_edge(right, id, EdgeInfo::Right);
        id
    }

    /// Adds a node together with the edge from its one operand.
    fn add_unary_operation(&mut self, operation: Operation, operand: NodeIndex, role: EdgeInfo)
        -> (id: NodeIndex)
        requires
            old(self).takes_unary(operand),
            (operation@ is Neg && role == EdgeInfo::Unary) || (operation@ is Constraint && role
                == EdgeInfo::Unordered),
        ensures
            final(self).is_unary_step(old(self), operation@, operand, role, id),
    {
        let ghost before = self@;
        let ghost n = before.nodes.len() as int;
        proof {
            before.lemma_with_unary(operation@, operand.0 as int, role);
            let after = before.with_unary(operation@, operand.0 as int, role);
            assert forall|m: int| 0 <= m < after.nodes.len() implies in_edges_ok(
                after.nodes[m],
                #[trigger] after.in_edges(m),
            ) by {
                if m < n {
                    assert(in_edges_ok(before.nodes[m], before.in_edges(m)));
                }
            }
            lemma_single_stays_unique(before.nodes, operation@);
        }
        let id = self.graph.0.add_node(NodeInfo { operation });
        self.graph.0.add_edge(operand, id, role);
        id
    }
}

/// A new node keeps constants and input slots unique if it is neither, or
/// is one that the graph does not hold yet.
pub proof fn lemma_single_stays_unique(nodes: Seq<OperationView>, op: OperationView)
    requires
        singles_unique(nodes),
        is_single(op) ==> !nodes.contains(op),
    ensures
        singles_unique(nodes.push(op)),
{
    let after = nodes.push(op);
    assert forall|i: int, j: int|
        0 <= i < j < after.len() && is_single(after[i]) implies #[trigger] after[i]
        != #[trigger] after[j] by {
        if j == nodes.len() {
            if after[i] == op {
                assert(nodes[i] == op);
                assert(nodes.contains(op));
            }
        } else {
            assert(nodes[i] != nodes[j]);
        }
    }
}

/// The operations by which a circuit is built.
pub trait ZkpContextOps: Sized {
    /// The context that the operations work on.
    spec fn context(&self) -> ZkpContext;

    /// Adds the next public input and gives it the next public slot.
    fn add_public_input(&mut self) -> (id: NodeIndex)
        requires
            old(self).context().wf(),
            old(self).context().has_room(1, 0),
        ensures
            final(self).context().is_leaf_step(
                &old(self).context(),
                OperationView::PublicInput(old(self).context().data.next_public_input),
                id,
            ),
            final(self).context().data == (ZkpData {
                next_public_input: (old(self).context().data.next_public_input + 1) as usize,
                ..old(self).context().data
            }),
    ;

    /// Adds the next private input and gives it the next private slot.
    fn add_private_input(&mut self) -> (id: NodeIndex)
        requires
            old(self).context().wf(),
            old(self).context().has_room(1, 0),
        ensures
            final(self).context().is_leaf_step(
                &old(self).context(),
                OperationView::PrivateInput(old(self).context().data.next_private_input),
                id,
            ),
            final(self).context().data == (ZkpData {
                next_private_input: (old(self).context().data.next_private_input + 1) as usize,
                ..old(self).context().data
            }),
    ;

    /// Adds the next constant input and gives it the next constant slot.
    fn add_constant_input(&mut self) -> (id: NodeIndex)
        requires
            old(self).context().wf(),
            old(self).context().has_room(1, 0),
        ensures
            final(self).context().is_leaf_step(
                &old(self).context(),
                OperationView::ConstantInput(old(self).context().data.next_constant_input),
                id,
            ),
            final(self).context().data == (ZkpData {
                next_constant_input: (old(self).context().data.next_constant_input + 1) as usize,
                ..old(self).context().data
            }),
    ;

    /// Adds a hidden input that stands at the given position among the
    /// hidden inputs of its gadget.
    fn add_hidden_input(&mut self, gadget_arg_id: usize) -> (id: NodeIndex)
        requires
            old(self).context().wf(),
            old(self).context().has_room(1, 0),
        ensures
            final(self).context().is_leaf_step(
                &old(self).context(),
                OperationView::HiddenInput(gadget_arg_id),
                id,
            ),
            final(self).context().data == old(self).context().data,
    ;

    /// Adds an addition.
    fn add_addition(&mut self, left: NodeIndex, right: NodeIndex) -> (id: NodeIndex)
        requires
            old(self).context().takes_binary(left, right),
        ensures
            final(self).context().is_binary_step(
                &old(self).context(),
                OperationView::Add,
                left,
                right,
                id,
            ),
    ;

    /// Adds a multiplication.
    fn add_multiplication(&mut self, left: NodeIndex, right: NodeIndex) -> (id: NodeIndex)
        requires
            old(self).context().takes_binary(left, right),
        ensures
            final(self).context().is_binary_step(
                &old(self).context(),
                OperationView::Mul,
                left,
                right,
                id,
            ),
    ;

    /// Adds a negation.
    fn add_negate(&mut self, left: NodeIndex) -> (id: NodeIndex)
        requires
            old(self).context().takes_unary(left),
        ensures
            final(self).context().is_unary_step(
                &old(self).context(),
                OperationView::Neg,
                left,
                EdgeInfo::Unary,
                id,
            ),
    ;

    /// Adds a subtraction.
    fn add_subtraction(&mut self, left: NodeIndex, right: NodeIndex) -> (id: NodeIndex)
        requires
            old(self).context().takes_binary(left, right),
        ensures
            final(self).context().is_binary_step(
                &old(self).context(),
                OperationView::Sub,
                left,
                right,
                id,
            ),
    ;

    /// Adds the constraint that `left` equals `val`.
    fn add_constraint(&mut self, left: NodeIndex, val: &BigInt) -> (id: NodeIndex)
        requires
            old(self).context().takes_unary(left),
        ensures
            final(self).context().is_unary_step(
                &old(self).context(),
                OperationView::Constraint(val@),
                left,
                EdgeInfo::Unordered,
                id,
            ),
    ;

    /// Adds the constant `val`, or finds the node that already holds it:
    /// the nodes are scanned in insertion order for a constant of the same
    /// value, and only if there is none does the graph get a new node.
    fn add_constant(&mut self, val: &BigInt) -> (id: NodeIndex)
        requires
            old(self).context().wf(),
            old(self).context()@.nodes.contains(OperationView::Constant(val@)) || old(
                self,
            ).context().has_room(1, 0),
        ensures
            final(self).context().wf(),
            is_first_slot(old(self).context()@.nodes, OperationView::Constant(val@), id.0 as int),
            id.0 == slot_of(old(self).context()@.nodes, OperationView::Constant(val@)),
            final(self).context()@ == if id.0 < old(self).context()@.nodes.len() {
                old(self).context()@
            } else {
                old(self).context()@.with_node(OperationView::Constant(val@))
            },
            final(self).context()@ == old(self).context()@.with_node_once(
                OperationView::Constant(val@),
            ),
            final(self).context().data == old(self).context().data,
    ;

    /// Adds the bare node of a gadget invocation.
    fn add_invoke_gadget(&mut self, gadget: GadgetDescriptor) -> (id: NodeIndex)
        requires
            old(self).context().wf(),
            old(self).context().has_room(1, 0),
        ensures
            final(self).context().is_leaf_step(
                &old(self).context(),
                OperationView::InvokeGadget(gadget@),
                id,
            ),
            final(self).context().data == old(self).context().data,
    ;
}

impl ZkpContextOps for ZkpContext {
    open spec fn context(&self) -> ZkpContext {
        *self
    }

    fn add_public_input(&mut self) -> (id: NodeIndex) {
        let slot: usize = self.data.next_public_input;
        proof {
            lemma_fresh_slot(self@.nodes, self.data, OperationView::PublicInput(slot));
        }
        let data = ZkpData {
            next_public_input: slot + 1,
            next_private_input: self.data.next_private_input,
            next_constant_input: self.data.next_constant_input,
        };
        self.add_counted_node(Operation::PublicInput(slot), data)
    }

    fn add_private_input(&mut self) -> (id: NodeIndex) {
        let slot: usize = self.data.next_private_input;
        proof {
            lemma_fresh_slot(self@.nodes, self.data, OperationView::PrivateInput(slot));
        }
        let data = ZkpData {
            next_public_input: self.data.next_public_input,
            next_private_input: slot + 1,
            next_constant_input: self.data.next_constant_input,
        };
        self.add_counted_node(Operation::PrivateInput(slot), data)
    }

    fn add_constant_input(&mut self) -> (id: NodeIndex) {
        let slot: usize = self.data.next_constant_input;
        proof {
            lemma_fresh_slot(self@.nodes, self.data, OperationView::ConstantInput(slot));
        }
        let data = ZkpData {
            next_public_input: self.data.next_public_input,
            next_private_input: self.data.next_private_input,
            next_constant_input: slot + 1,
        };
        self.add_counted_node(Operation::ConstantInput(slot), data)
    }

    fn add_hidden_input(&mut self, gadget_arg_id: usize) -> (id: NodeIndex) {
        self.add_node(Operation::HiddenInput(gadget_arg_id))
    }

    fn add_addition(&mut self, left: NodeIndex, right: NodeIndex) -> (id: NodeIndex) {
        self.add_binary_operation(Operation::Add, left, right)
    }

    fn add_multiplication(&mut self, left: NodeIndex, right: NodeIndex) -> (id: NodeIndex) {
        self.add_binary_operation(Operation::Mul, left, right)
    }

    fn add_negate(&mut self, left: NodeIndex) -> (id: NodeIndex) {
        self.add_unary_operation(Operation::Neg, left, EdgeInfo::Unary)
    }

    fn add_subtraction(&mut self, left: NodeIndex, right: NodeIndex) -> (id: NodeIndex) {
        self.add_binary_operation(Operation::Sub, left, right)
    }

    fn add_constraint(&mut self, left: NodeIndex, val: &BigInt) -> (id: NodeIndex) {
        self.add_unary_operation(Operation::Constraint(*val), left, EdgeInfo::Unordered)
    }

    fn add_constant(&mut self, val: &BigInt) -> (id: NodeIndex) {
        let tag = NodeInfo { operation: Operation::Constant(*val) };
        proof {
            lemma_slot_of(self@.nodes, tag@);
        }
        match self.graph.0.find_node(&tag) {
            Some(found) => found,
            None => self.add_node(Operation::Constant(*val)),
        }
    }

    fn add_invoke_gadget(&mut self, gadget: GadgetDescriptor) -> (id: NodeIndex) {
        self.add_node(Operation::InvokeGadget(gadget))
    }
}

/// The slot at a counter is in use at no node.
proof fn lemma_fresh_slot(nodes: Seq<OperationView>, data: ZkpData, op: OperationView)
    requires
        slots_counted(nodes, data),
        op == OperationView::PublicInput(data.next_public_input) || op
            == OperationView::PrivateInput(data.next_private_input) || op
            == OperationView::ConstantInput(data.next_constant_input),
    ensures
        !nodes.contains(op),
{
    if nodes.contains(op) {
        let i = choose|i: int| 0 <= i < nodes.len() && nodes[i] == op;
        assert(nodes[i] == op);
    }
}

/// The backend operation of the same meaning.
fn lower_operation(operation: &Operation) -> (r: JitOperation)
    ensures
        r@ == operation@,
{
    match operation {
        Operation::PrivateInput(x) => JitOperation::PrivateInput(*x),
        Operation::PublicInput(x) => JitOperation::PublicInput(*x),
        Operation::ConstantInput(x) => JitOperation::ConstantInput(*x),
        Operation::HiddenInput(x) => JitOperation::HiddenInput(*x),
        Operation::InvokeGadget(g) => JitOperation::InvokeGadget(*g),
        Operation::Add => JitOperation::Add,
        Operation::Mul => JitOperation::Mul,
        Operation::Neg => JitOperation::Neg,
        Operation::Sub => JitOperation::Sub,
        Operation::Constraint(x) => JitOperation::Constraint(*x),
        Operation::Constant(x) => JitOperation::Constant(*x),
    }
}

/// Lowers a finished circuit to the vocabulary of the proof systems.
///
/// Every operation becomes the backend operation of the same meaning and
/// every edge keeps its role; nodes and edges keep their order and are
/// numbered from zero without gaps. No node and no edge is dropped.
pub fn compile(program: &ZkpFrontendCompilation) -> (jit: CompiledZkpProgram)
    requires
        program.0.wf(),
    ensures
        jit.0.wf(),
        jit.0@ == program.0@,
        jit.0@.nodes.len() == program.0@.nodes.len(),
        jit.0@.edges.len() == program.0@.edges.len(),
        isomorphic(program.0@, jit.0@),
{
    let ghost source = program.0@;
    proof {
        program.0.lemma_view_well_formed();
        lemma_isomorphic_reflexive(source);
    }
    let node_count: usize = program.0.node_count();
    let mut nodes: Vec<NodeInfo<JitOperation>> = Vec::new();
    let mut i: usize = 0;
    while i < node_count
        invariant
            program.0.wf(),
            source == program.0@,
            node_count == source.nodes.len(),
            i <= node_count,
            nodes@.len() == i,
            forall|j: int| 0 <= j < i ==> (#[trigger] nodes@[j])@ == source.nodes[j],
        decreases node_count - i,
    {
        let n = program.0.node(NodeIndex::new(i));
        let operation = lower_operation(&n.operation);
        nodes.push(NodeInfo { operation });
        i = i + 1;
    }
    let edge_count: usize = program.0.edge_count();
    let mut roles: Vec<EdgeInfo> = Vec::new();
    let mut k: usize = 0;
    while k < edge_count
        invariant
            program.0.wf(),
            source == program.0@,
            edge_count == source.edges.len(),
            k <= edge_count,
            roles@.len() == k,
            forall|j: int| 0 <= j < k ==> #[trigger] roles@[j] == source.edges[j].role,
        decreases edge_count - k,
    {
        roles.push(*program.0.role(k));
        k = k + 1;
    }
    let jit = program.0.with_weights(nodes, roles);
    proof {
        assert(jit@.nodes =~= source.nodes);
        assert(jit@.edges =~= source.edges);
    }
    CompilationResult(jit)
}

/// The edges from a gadget invocation at node `n` to its `count` hidden
/// inputs, which are the nodes that follow it.
pub open spec fn hidden_wiring(n: int, count: nat) -> Seq<EdgeView<EdgeInfo>> {
    Seq::new(count, |i: int| EdgeView { from: n, to: n + 1 + i, role: EdgeInfo::Unary })
}

/// The edges from the inputs of a gadget to its invocation at node `n`:
/// the input at position `i` of the sequence is the operand at position `i`.
pub open spec fn input_wiring(n: int, inputs: Seq<NodeIndex>) -> Seq<EdgeView<EdgeInfo>> {
    Seq::new(
        inputs.len(),
        |i: int| EdgeView { from: inputs[i].0 as int, to: n, role: EdgeInfo::Ordered(i as usize) },
    )
}

/// The hidden inputs of a gadget with `count` of them.
pub open spec fn hidden_nodes(count: nat) -> Seq<OperationView> {
    Seq::new(count, |i: int| OperationView::HiddenInput(i as usize))
}

/// The circuit with a gadget expanded: after the nodes it had come the
/// invocation and then the hidden inputs; after the edges it had come the
/// edges from the invocation to each hidden input and then the edges from
/// each input to the invocation.
pub open spec fn with_gadget(g: ZkpView, gadget: GadgetDescriptorView, inputs: Seq<NodeIndex>)
    -> ZkpView {
    GraphView {
        nodes: g.nodes.push(OperationView::InvokeGadget(gadget)) + hidden_nodes(
            gadget.hidden_input_count as nat,
        ),
        edges: g.edges + hidden_wiring(g.nodes.len() as int, gadget.hidden_input_count as nat)
            + input_wiring(g.nodes.len() as int, inputs),
    }
}

/// What a gadget can be expanded in: a sound context that holds every
/// input and has room for the invocation, the hidden inputs and their edges.
pub open spec fn takes_gadget(ctx: &ZkpContext, gadget: GadgetDescriptor, inputs: Seq<NodeIndex>)
    -> bool {
    &&& ctx.wf()
    &&& forall|i: int| 0 <= i < inputs.len() ==> (#[trigger] inputs[i]).0 < ctx@.nodes.len()
    &&& ctx.has_room(1 + gadget.hidden_input_count, gadget.hidden_input_count + inputs.len())
}

/// One more hidden input, wired to its gadget, extends the expansion by one.
proof fn lemma_hidden_step(before: ZkpView, tag: OperationView, g: ZkpView, i: nat)
    requires
        g.nodes == before.nodes.push(tag) + hidden_nodes(i),
        g.edges == before.edges + hidden_wiring(before.nodes.len() as int, i),
        g.in_edges(before.nodes.len() as int) == Seq::<EdgeView<EdgeInfo>>::empty(),
        g.out_edges(before.nodes.len() as int) == hidden_wiring(before.nodes.len() as int, i),
    ensures
        ({
            let n = before.nodes.len() as int;
            let after = g.with_unary(OperationView::HiddenInput(i as usize), n, EdgeInfo::Unary);
            &&& g.nodes.len() == n + 1 + i
            &&& after.nodes == before.nodes.push(tag) + hidden_nodes(i + 1)
            &&& after.edges == before.edges + hidden_wiring(n, i + 1)
            &&& after.in_edges(n) == Seq::<EdgeView<EdgeInfo>>::empty()
            &&& after.out_edges(n) == hidden_wiring(n, i + 1)
        }),
{
    let n = before.nodes.len() as int;
    let op = OperationView::HiddenInput(i as usize);
    let g1 = g.with_node(op);
    let edge = EdgeView { from: n, to: n + 1 + i, role: EdgeInfo::Unary };
    let after = g1.with_edge(n, n + 1 + i, EdgeInfo::Unary);
    assert(after.nodes == g.nodes.push(op));
    assert(after.edges == g.edges.push(edge));
    assert(g.nodes.push(op) =~= before.nodes.push(tag) + hidden_nodes(i + 1)) by {
        assert(hidden_nodes(i).push(op) =~= hidden_nodes(i + 1));
    }
    assert(g.edges.push(edge) =~= before.edges + hidden_wiring(n, i + 1)) by {
        assert(hidden_wiring(n, i).push(edge) =~= hidden_wiring(n, i + 1));
    }
    assert(after.in_edges(n) == g.in_edges(n)) by {
        g.lemma_in_edges_with_node(op, n);
        g1.lemma_in_edges_with_edge(n, n + 1 + i, EdgeInfo::Unary, n);
    }
    assert(after.out_edges(n) == g.out_edges(n).push(edge)) by {
        g.lemma_in_edges_with_node(op, n);
        g1.lemma_out_edges_with_edge(n, n + 1 + i, EdgeInfo::Unary, n);
    }
    assert(hidden_wiring(n, i).push(edge) =~= hidden_wiring(n, i + 1));
}

/// One more input, wired to the gadget, extends the expansion by one.
proof fn lemma_input_step(wired: ZkpView, n: int, g: ZkpView, inputs: Seq<NodeIndex>, i: int)
    requires
        0 <= i < inputs.len(),
        inputs[i].0 != n,
        g.nodes == wired.nodes,
        g.edges == wired.edges + input_wiring(n, inputs.take(i)),
        g.in_edges(n) == input_wiring(n, inputs.take(i)),
        g.out_edges(n) == wired.out_edges(n),
    ensures
        ({
            let after = g.with_edge(inputs[i].0 as int, n, EdgeInfo::Ordered(i as usize));
            &&& after.nodes == wired.nodes
            &&& after.edges == wired.edges + input_wiring(n, inputs.take(i + 1))
            &&& after.in_edges(n) == input_wiring(n, inputs.take(i + 1))
            &&& after.out_edges(n) == wired.out_edges(n)
            &&& g.in_edges(n).push(
                EdgeView { from: inputs[i].0 as int, to: n, role: EdgeInfo::Ordered(i as usize) },
            ) == input_wiring(n, inputs.take(i + 1))
        }),
{
    let role = EdgeInfo::Ordered(i as usize);
    let edge = EdgeView { from: inputs[i].0 as int, to: n, role };
    let after = g.with_edge(inputs[i].0 as int, n, role);
    assert(after.edges == g.edges.push(edge));
    assert(input_wiring(n, inputs.take(i)).push(edge) =~= input_wiring(n, inputs.take(i + 1)));
    assert(g.edges.push(edge) =~= wired.edges + input_wiring(n, inputs.take(i + 1)));
    assert(after.in_edges(n) == g.in_edges(n).push(edge)) by {
        g.lemma_in_edges_with_edge(inputs[i].0 as int, n, role, n);
    }
    assert(after.out_edges(n) == g.out_edges(n)) by {
        g.lemma_out_edges_with_edge(inputs[i].0 as int, n, role, n);
    }
}

/// The edges that `input_wiring` gives are what a gadget invocation asks for.
proof fn lemma_input_wiring_ok(gadget: GadgetDescriptorView, n: int, inputs: Seq<NodeIndex>)
    requires
        inputs.len() <= gadget.gadget_input_count,
    ensures
        in_edges_ok(OperationView::InvokeGadget(gadget), input_wiring(n, inputs)),
{
}

impl ZkpContext {
    /// Adds the hidden input at position `i` of the gadget invoked at
    /// `invocation`, with the edge from the invocation to it.
    fn add_wired_hidden_input(&mut self, invocation: NodeIndex, i: usize) -> (id: NodeIndex)
        requires
            old(self).wf(),
            old(self).has_room(1, 1),
            invocation.0 < old(self)@.nodes.len(),
        ensures
            final(self).wf(),
            final(self)@ == old(self)@.with_unary(
                OperationView::HiddenInput(i),
                invocation.0 as int,
                EdgeInfo::Unary,
            ),
            id.0 == old(self)@.nodes.len(),
            final(self).data == old(self).data,
    {
        let ghost g0 = self@;
        let hidden_input = self.add_hidden_input(i);
        proof {
            g0.lemma_no_edges_beyond(g0.nodes.len() as int);
            g0.lemma_in_edges_with_node(OperationView::HiddenInput(i), g0.nodes.len() as int);
            assert(self@.in_edges(hidden_input.0 as int).push(
                EdgeView {
                    from: invocation.0 as int,
                    to: hidden_input.0 as int,
                    role: EdgeInfo::Unary,
                },
            ).len() == 1);
        }
        self.add_edge(invocation, hidden_input, EdgeInfo::Unary);
        hidden_input
    }
}

/// Wires a gadget into the circuit.
///
/// Fails, leaving the context as it was, unless the number of inputs is
/// the one the gadget declares. Otherwise adds the invocation node, then
/// each hidden input with a unary edge from the invocation to it, then an
/// edge from each input to the invocation, ordered by the input's position
/// among the arguments, and returns the hidden inputs.
pub fn expand_gadget(ctx: &mut ZkpContext, gadget: GadgetDescriptor, gadget_inputs: &[NodeIndex])
    -> (r: Result<Vec<NodeIndex>, Error>)
    requires
        old(ctx).wf(),
        gadget_inputs@.len() == gadget.gadget_input_count ==> takes_gadget(
            old(ctx),
            gadget,
            gadget_inputs@,
        ),
    ensures
        match r {
            Ok(hidden_inputs) => {
                &&& gadget_inputs@.len() == gadget.gadget_input_count
                &&& final(ctx).wf()
                &&& final(ctx)@ == with_gadget(old(ctx)@, gadget@, gadget_inputs@)
                &&& final(ctx).data == old(ctx).data
                &&& hidden_inputs@.len() == gadget.hidden_input_count
                &&& forall|i: int|
                    0 <= i < hidden_inputs@.len() ==> (#[trigger] hidden_inputs@[i]).0 == old(
                        ctx,
                    )@.nodes.len() + 1 + i
                &&& final(ctx)@.in_edges(old(ctx)@.nodes.len() as int) == input_wiring(
                    old(ctx)@.nodes.len() as int,
                    gadget_inputs@,
                )
                &&& final(ctx)@.out_edges(old(ctx)@.nodes.len() as int) == hidden_wiring(
                    old(ctx)@.nodes.len() as int,
                    gadget.hidden_input_count as nat,
                )
            },
            Err(e) => {
                &&& gadget_inputs@.len() != gadget.gadget_input_count
                &&& e == Error::GadgetInputMismatch {
                    expected: gadget.gadget_input_count,
                    found: gadget_inputs@.len() as usize,
                }
                &&& *final(ctx) == *old(ctx)
            },
        },
{
    if gadget.gadget_input_count != gadget_inputs.len() {
        return Err(
            Error::GadgetInputMismatch {
                expected: gadget.gadget_input_count,
                found: gadget_inputs.len(),
            },
        );
    }
    let ghost before = ctx@;
    let ghost n = before.nodes.len() as int;
    let ghost tag = OperationView::InvokeGadget(gadget@);
    let hidden_inputs_count: usize = gadget.hidden_input_count;
    let mut hidden_inputs: Vec<NodeIndex> = Vec::new();

    let invocation = ctx.add_invoke_gadget(gadget);
    proof {
        before.lemma_no_edges_beyond(n);
        before.lemma_in_edges_with_node(tag, n);
        assert(ctx@.nodes =~= before.nodes.push(tag) + hidden_nodes(0));
        assert(ctx@.edges =~= before.edges + hidden_wiring(n, 0));
        assert(ctx@.out_edges(n) =~= hidden_wiring(n, 0));
    }

    let mut i: usize = 0;
    while i < hidden_inputs_count
        invariant
            ctx.wf(),
            ctx.data == old(ctx).data,
            n == before.nodes.len(),
            invocation.0 == n,
            i <= hidden_inputs_count,
            before.nodes.len() + 1 + hidden_inputs_count <= u32::MAX,
            before.edges.len() + hidden_inputs_count <= u32::MAX,
            ctx@.nodes == before.nodes.push(tag) + hidden_nodes(i as nat),
            ctx@.edges == before.edges + hidden_wiring(n, i as nat),
            ctx@.in_edges(n) == Seq::<EdgeView<EdgeInfo>>::empty(),
            ctx@.out_edges(n) == hidden_wiring(n, i as nat),
            hidden_inputs@.len() == i,
            forall|j: int| 0 <= j < i ==> (#[trigger] hidden_inputs@[j]).0 == n + 1 + j,
        decreases hidden_inputs_count - i,
    {
        proof {
            lemma_hidden_step(before, tag, ctx@, i as nat);
        }
        let hidden_input = ctx.add_wired_hidden_input(invocation, i);
        hidden_inputs.push(hidden_input);
        i = i + 1;
    }

    let ghost wired = ctx@;
    proof {
        assert(wired.edges + input_wiring(n, gadget_inputs@.take(0)) =~= wired.edges);
        assert(wired.in_edges(n) =~= input_wiring(n, gadget_inputs@.take(0)));
        assert(wired.nodes[n] == tag);
    }
    let mut i: usize = 0;
    while i < gadget_inputs.len()
        invariant
            ctx.wf(),
            ctx.data == old(ctx).data,
            0 <= n < wired.nodes.len(),
            invocation.0 == n,
            i <= gadget_inputs@.len(),
            gadget_inputs@.len() == gadget.gadget_input_count,
            forall|j: int| 0 <= j < gadget_inputs@.len() ==> (#[trigger] gadget_inputs@[j]).0 < n,
            wired.nodes[n] == tag,
            tag == OperationView::InvokeGadget(gadget@),
            wired.edges.len() + gadget_inputs@.len() <= u32::MAX,
            wired.nodes.len() <= u32::MAX,
            ctx@.nodes == wired.nodes,
            ctx@.edges.len() == wired.edges.len() + i,
            ctx@.edges == wired.edges + input_wiring(n, gadget_inputs@.take(i as int)),
            ctx@.in_edges(n) == input_wiring(n, gadget_inputs@.take(i as int)),
            ctx@.out_edges(n) == wired.out_edges(n),
        decreases gadget_inputs@.len() - i,
    {
        let gadget_input = gadget_inputs[i];
        proof {
            lemma_input_step(wired, n, ctx@, gadget_inputs@, i as int);
            lemma_input_wiring_ok(gadget@, n, gadget_inputs@.take(i + 1));
        }
        ctx.add_edge(gadget_input, invocation, EdgeInfo::Ordered(i));
        i = i + 1;
    }
    proof {
        assert(gadget_inputs@.take(gadget_inputs@.len() as int) =~= gadget_inputs@);
        assert(ctx@.edges =~= with_gadget(before, gadget@, gadget_inputs@).edges);
    }
    Ok(hidden_inputs)
}

/// Why a gadget cannot be invoked, if it cannot: with another number of
/// inputs than it declares, the invocation fails with
/// `GadgetInputMismatch`; without room in the graph for the invocation, the
/// hidden inputs and their edges, it fails with `GraphFull`.
pub open spec fn gadget_refusal(
    before: ZkpContext,
    gadget: GadgetDescriptor,
    gadget_inputs: Seq<NodeIndex>,
) -> Option<Error> {
    if gadget_inputs.len() != gadget.gadget_input_count {
        Some(
            Error::GadgetInputMismatch {
                expected: gadget.gadget_input_count,
                found: gadget_inputs.len() as usize,
            },
        )
    } else if !before.has_room(
        1 + gadget.hidden_input_count,
        gadget.hidden_input_count + gadget_inputs.len(),
    ) {
        Some(Error::GraphFull)
    } else {
        None
    }
}

/// The context `wired` is `before` with the gadget wired in as
/// `with_gadget` says, and `hidden_inputs` are the gadget's hidden inputs:
/// the nodes that follow the invocation.
pub open spec fn gadget_wired(
    before: ZkpContext,
    wired: ZkpContext,
    gadget: GadgetDescriptor,
    gadget_inputs: Seq<NodeIndex>,
    hidden_inputs: Seq<NodeIndex>,
) -> bool {
    &&& wired.wf()
    &&& wired@ == with_gadget(before@, gadget@, gadget_inputs)
    &&& wired.data == before.data
    &&& hidden_inputs.len() == gadget.hidden_input_count
    &&& forall|i: int|
        0 <= i < hidden_inputs.len() ==> (#[trigger] hidden_inputs[i]).0 == before@.nodes.len() + 1
            + i
}

/// Invokes a gadget: wires it into the circuit as `expand_gadget` does,
/// then has the gadget add its sub-circuit and returns the nodes of the
/// gadget's outputs as the gadget gave them.
///
/// The gadget is asked for its name and its counts. With another number of
/// inputs than it reports the invocation fails with `GadgetInputMismatch`,
/// and without room in the graph for the gadget's nodes and edges it fails
/// with `GraphFull`; either way the context is left as it was. Otherwise
/// the gadget is handed the wired context with its inputs and its hidden
/// inputs, and the invocation gives the context as the gadget left it and
/// the nodes that the gadget returned.
pub fn invoke_gadget<G: Gadget>(ctx: &mut ZkpContext, g: &G, gadget_inputs: &[NodeIndex]) -> (r:
    Result<Vec<NodeIndex>, Error>)
    requires
        old(ctx).wf(),
        forall|i: int|
            0 <= i < gadget_inputs@.len() ==> (#[trigger] gadget_inputs@[i]).0 < old(
                ctx,
            )@.nodes.len(),
    ensures
        exists|gadget: GadgetDescriptor|
            {
                &&& call_ensures(G::hidden_input_count, (g,), gadget.hidden_input_count)
                &&& call_ensures(G::gadget_input_count, (g,), gadget.gadget_input_count)
                &&& call_ensures(G::debug_name, (g,), gadget.name)
                &&& match #[trigger] gadget_refusal(*old(ctx), gadget, gadget_inputs@) {
                    Some(e) => r == Err::<Vec<NodeIndex>, Error>(e) && *final(ctx) == *old(ctx),
                    None => exists|wired: &mut ZkpContext, hidden_inputs: &[NodeIndex]|
                        {
                            &&& gadget_wired(
                                *old(ctx),
                                *wired,
                                gadget,
                                gadget_inputs@,
                                hidden_inputs@,
                            )
                            &&& *final(wired) == *final(ctx)
                            &&& r is Ok
                            &&& #[trigger] call_ensures(
                                G::gen_circuit,
                                (g, wired, gadget_inputs, hidden_inputs),
                                r->Ok_0,
                            )
                        },
                }
            },
{
    let hidden_inputs_count: usize = g.hidden_input_count();
    let gadget_input_count: usize = g.gadget_input_count();
    let gadget = GadgetDescriptor {
        name: g.debug_name(),
        gadget_input_count,
        hidden_input_count: hidden_inputs_count,
    };
    if gadget_input_count == gadget_inputs.len() {
        let fits = match (
            hidden_inputs_count.checked_add(1),
            hidden_inputs_count.checked_add(gadget_input_count),
        ) {
            (Some(nodes), Some(edges)) => ctx.has_room_for(nodes, edges),
            _ => false,
        };
        if !fits {
            assert(gadget_refusal(*old(ctx), gadget, gadget_inputs@) == Some(Error::GraphFull));
            return Err(Error::GraphFull);
        }
    }
    match expand_gadget(ctx, gadget, gadget_inputs) {
        Ok(hidden_inputs) => {
            assert forall|i: int| 0 <= i < hidden_inputs@.len() implies {
                &&& (#[trigger] hidden_inputs@[i]).0 < ctx@.nodes.len()
                &&& ctx@.nodes[hidden_inputs@[i].0 as int] == OperationView::HiddenInput(i as usize)
            } by {
                assert(hidden_nodes(gadget.hidden_input_count as nat)[i]
                    == OperationView::HiddenInput(i as usize));
            }
            let hidden_slice = hidden_inputs.as_slice();
            assert(gadget_refusal(*old(ctx), gadget, gadget_inputs@) is None);
            assert(gadget_wired(*old(ctx), *ctx, gadget, gadget_inputs@, hidden_slice@));
            let outputs = g.gen_circuit(ctx, gadget_inputs, hidden_slice);
            let r: Result<Vec<NodeIndex>, Error> = Ok(outputs);
            assert(r->Ok_0 == outputs);
            r
        },
        Err(e) => {
            assert(gadget_refusal(*old(ctx), gadget, gadget_inputs@) == Some(e));
            Err(e)
        },
    }
}

} // verus!
