use sunscreen::common::{EdgeInfo, NodeInfo};
use sunscreen::graph::{NodeIndex, ViewEq};
use sunscreen::zkp::{
    compile, expand_gadget, invoke_gadget, Operation, ZkpContext, ZkpContextOps, ZkpData,
};
use sunscreen::zkp_backend::{BigInt, Gadget, GadgetDescriptor, Operation as JitOperation};
use sunscreen::Error;

fn tag(ctx: &ZkpContext, node: NodeIndex) -> Operation {
    ctx.graph.0.node(node).operation
}

fn edges_into(ctx: &ZkpContext, node: NodeIndex) -> Vec<(NodeIndex, EdgeInfo)> {
    let mut found = vec![];
    for k in 0..ctx.graph.0.edge_count() {
        let (from, to) = ctx.graph.0.edge_endpoints(k).unwrap();
        if to == node {
            found.push((from, *ctx.graph.0.role(k)));
        }
    }
    found
}

fn edges_out_of(ctx: &ZkpContext, node: NodeIndex) -> Vec<(NodeIndex, EdgeInfo)> {
    let mut found = vec![];
    for k in 0..ctx.graph.0.edge_count() {
        let (from, to) = ctx.graph.0.edge_endpoints(k).unwrap();
        if from == node {
            found.push((to, *ctx.graph.0.role(k)));
        }
    }
    found
}

struct TwoInThreeHidden;

impl Gadget for TwoInThreeHidden {
    fn gen_circuit(
        &self,
        ctx: &mut ZkpContext,
        gadget_inputs: &[NodeIndex],
        hidden_inputs: &[NodeIndex],
    ) -> Vec<NodeIndex> {
        let sum = ctx.add_addition(gadget_inputs[0], gadget_inputs[1]);
        let product = ctx.add_multiplication(hidden_inputs[0], hidden_inputs[2]);
        vec![sum, product, hidden_inputs[1]]
    }

    fn compute_inputs(&self, gadget_inputs: &[BigInt]) -> Vec<BigInt> {
        vec![gadget_inputs[0], gadget_inputs[1], BigInt::one()]
    }

    fn gadget_input_count(&self) -> usize {
        2
    }

    fn hidden_input_count(&self) -> usize {
        3
    }

    fn debug_name(&self) -> &'static str {
        "TwoInThreeHidden"
    }
}

struct Endless;

impl Gadget for Endless {
    fn gen_circuit(
        &self,
        _ctx: &mut ZkpContext,
        _gadget_inputs: &[NodeIndex],
        _hidden_inputs: &[NodeIndex],
    ) -> Vec<NodeIndex> {
        vec![]
    }

    fn compute_inputs(&self, _gadget_inputs: &[BigInt]) -> Vec<BigInt> {
        vec![]
    }

    fn gadget_input_count(&self) -> usize {
        0
    }

    fn hidden_input_count(&self) -> usize {
        usize::MAX
    }

    fn debug_name(&self) -> &'static str {
        "Endless"
    }
}

const DESCRIPTOR: GadgetDescriptor =
    GadgetDescriptor { name: "TwoInThreeHidden", gadget_input_count: 2, hidden_input_count: 3 };

#[test]
fn zkp_data_starts_at_zero() {
    let data = ZkpData::new();
    assert_eq!(data.next_public_input, 0);
    assert_eq!(data.next_private_input, 0);
    assert_eq!(data.next_constant_input, 0);
    let data = ZkpData::default();
    assert_eq!(data.next_public_input, 0);
    assert_eq!(data.next_private_input, 0);
    assert_eq!(data.next_constant_input, 0);
}

#[test]
fn new_zkp_context_is_empty() {
    let ctx = ZkpContext::new();
    assert_eq!(ctx.graph.0.node_count(), 0);
    assert_eq!(ctx.graph.0.edge_count(), 0);
    assert_eq!(ctx.data.next_public_input, 0);
    assert_eq!(ctx.data.next_private_input, 0);
    assert_eq!(ctx.data.next_constant_input, 0);
}

#[test]
fn input_slots_count_up_by_kind() {
    let mut ctx = ZkpContext::new();
    let a = ctx.add_public_input();
    let b = ctx.add_private_input();
    let c = ctx.add_public_input();
    let d = ctx.add_constant_input();
    let e = ctx.add_private_input();
    let f = ctx.add_private_input();
    assert_eq!(tag(&ctx, a), Operation::PublicInput(0));
    assert_eq!(tag(&ctx, b), Operation::PrivateInput(0));
    assert_eq!(tag(&ctx, c), Operation::PublicInput(1));
    assert_eq!(tag(&ctx, d), Operation::ConstantInput(0));
    assert_eq!(tag(&ctx, e), Operation::PrivateInput(1));
    assert_eq!(tag(&ctx, f), Operation::PrivateInput(2));
    assert_eq!(ctx.data.next_public_input, 2);
    assert_eq!(ctx.data.next_private_input, 3);
    assert_eq!(ctx.data.next_constant_input, 1);
    assert_eq!(f.index(), 5);
    assert_eq!(ctx.graph.0.edge_count(), 0);
}

#[test]
fn arithmetic_is_wired_to_its_operands() {
    let mut ctx = ZkpContext::new();
    let a = ctx.add_public_input();
    let b = ctx.add_private_input();
    let sum = ctx.add_addition(a, b);
    let product = ctx.add_multiplication(sum, a);
    let difference = ctx.add_subtraction(b, product);
    let negation = ctx.add_negate(difference);
    assert_eq!(tag(&ctx, sum), Operation::Add);
    assert_eq!(tag(&ctx, product), Operation::Mul);
    assert_eq!(tag(&ctx, difference), Operation::Sub);
    assert_eq!(tag(&ctx, negation), Operation::Neg);
    assert_eq!(edges_into(&ctx, sum), vec![(a, EdgeInfo::Left), (b, EdgeInfo::Right)]);
    assert_eq!(edges_into(&ctx, product), vec![(sum, EdgeInfo::Left), (a, EdgeInfo::Right)]);
    assert_eq!(edges_into(&ctx, difference), vec![(b, EdgeInfo::Left), (product, EdgeInfo::Right)]);
    assert_eq!(edges_into(&ctx, negation), vec![(difference, EdgeInfo::Unary)]);
    assert!(edges_into(&ctx, a).is_empty());
    assert!(edges_into(&ctx, b).is_empty());
    assert_eq!(ctx.graph.0.node_count(), 6);
    assert_eq!(ctx.graph.0.edge_count(), 7);
    assert_eq!(ctx.data.next_public_input, 1);
    assert_eq!(ctx.data.next_private_input, 1);
}

#[test]
fn a_squared_value_gets_both_edges_from_one_node() {
    let mut ctx = ZkpContext::new();
    let five = ctx.add_constant(&BigInt::from_u32(5));
    let again = ctx.add_constant(&BigInt::from_u32(5));
    assert_eq!(five, again);
    let square = ctx.add_multiplication(five, again);
    assert_eq!(ctx.graph.0.node_count(), 2);
    assert_eq!(edges_into(&ctx, square), vec![(five, EdgeInfo::Left), (five, EdgeInfo::Right)]);
}

#[test]
fn constants_are_kept_once() {
    let mut ctx = ZkpContext::new();
    let one = ctx.add_constant(&BigInt::one());
    let a = ctx.add_private_input();
    let two = ctx.add_constant(&BigInt::from_u32(2));
    let one_again = ctx.add_constant(&BigInt::from_u32(1));
    let two_again = ctx.add_constant(&BigInt::from_words([2, 0, 0, 0, 0, 0, 0, 0]));
    assert_eq!(one, one_again);
    assert_eq!(two, two_again);
    assert_ne!(one, two);
    assert_ne!(one, a);
    assert_eq!(ctx.graph.0.node_count(), 3);
    assert_eq!(tag(&ctx, one), Operation::Constant(BigInt::one()));
    assert!(edges_into(&ctx, one).is_empty());
}

#[test]
fn constraints_are_not_shared() {
    let mut ctx = ZkpContext::new();
    let a = ctx.add_private_input();
    let first = ctx.add_constraint(a, &BigInt::zero());
    let second = ctx.add_constraint(a, &BigInt::zero());
    assert_ne!(first, second);
    assert_eq!(tag(&ctx, first), Operation::Constraint(BigInt::zero()));
    assert_eq!(edges_into(&ctx, first), vec![(a, EdgeInfo::Unordered)]);
    assert_eq!(edges_into(&ctx, second), vec![(a, EdgeInfo::Unordered)]);
    assert_eq!(ctx.graph.0.node_count(), 3);
    assert_eq!(ctx.graph.0.edge_count(), 2);
}

#[test]
fn bare_gadget_nodes_have_no_edges() {
    let mut ctx = ZkpContext::new();
    let g = ctx.add_invoke_gadget(DESCRIPTOR);
    let h = ctx.add_hidden_input(4);
    assert_eq!(tag(&ctx, g), Operation::InvokeGadget(DESCRIPTOR));
    assert_eq!(tag(&ctx, h), Operation::HiddenInput(4));
    assert_eq!(ctx.graph.0.edge_count(), 0);
}

#[test]
fn gadget_with_one_input_too_few_leaves_the_graph_untouched() {
    let mut ctx = ZkpContext::new();
    let a = ctx.add_public_input();
    ctx.add_private_input();
    ctx.add_addition(a, a);
    let nodes = ctx.graph.0.node_count();
    let edges = ctx.graph.0.edge_count();
    let r = expand_gadget(&mut ctx, DESCRIPTOR, &[a]);
    assert_eq!(r, Err(Error::GadgetInputMismatch { expected: 2, found: 1 }));
    assert_eq!(ctx.graph.0.node_count(), nodes);
    assert_eq!(ctx.graph.0.edge_count(), edges);
    let r = invoke_gadget(&mut ctx, &TwoInThreeHidden, &[a]);
    assert_eq!(r, Err(Error::GadgetInputMismatch { expected: 2, found: 1 }));
    assert_eq!(ctx.graph.0.node_count(), nodes);
    assert_eq!(ctx.graph.0.edge_count(), edges);
    let r = invoke_gadget(&mut ctx, &TwoInThreeHidden, &[a, a, a]);
    assert_eq!(r, Err(Error::GadgetInputMismatch { expected: 2, found: 3 }));
    assert_eq!(ctx.graph.0.node_count(), nodes);
    assert_eq!(ctx.graph.0.edge_count(), edges);
    assert_eq!(ctx.data.next_public_input, 1);
    assert_eq!(ctx.data.next_private_input, 1);
}

#[test]
fn gadget_with_two_inputs_is_wired_in_argument_order() {
    let mut ctx = ZkpContext::new();
    let a = ctx.add_public_input();
    let b = ctx.add_private_input();
    let hidden = expand_gadget(&mut ctx, DESCRIPTOR, &[b, a]).unwrap();
    assert_eq!(ctx.graph.0.node_count(), 2 + 1 + 3);
    assert_eq!(ctx.graph.0.edge_count(), 3 + 2);
    let invocation = NodeIndex::new(2);
    assert_eq!(tag(&ctx, invocation), Operation::InvokeGadget(DESCRIPTOR));
    assert_eq!(hidden, vec![NodeIndex::new(3), NodeIndex::new(4), NodeIndex::new(5)]);
    for (i, h) in hidden.iter().enumerate() {
        assert_eq!(tag(&ctx, *h), Operation::HiddenInput(i));
        assert_eq!(edges_into(&ctx, *h), vec![(invocation, EdgeInfo::Unary)]);
    }
    assert_eq!(
        edges_out_of(&ctx, invocation),
        vec![
            (hidden[0], EdgeInfo::Unary),
            (hidden[1], EdgeInfo::Unary),
            (hidden[2], EdgeInfo::Unary)
        ]
    );
    assert_eq!(
        edges_into(&ctx, invocation),
        vec![(b, EdgeInfo::Ordered(0)), (a, EdgeInfo::Ordered(1))]
    );
    assert_eq!(ctx.data.next_public_input, 1);
    assert_eq!(ctx.data.next_private_input, 1);
}

#[test]
fn invoking_a_gadget_runs_its_circuit_and_returns_its_outputs() {
    let mut ctx = ZkpContext::new();
    let a = ctx.add_public_input();
    let b = ctx.add_private_input();
    let outputs = invoke_gadget(&mut ctx, &TwoInThreeHidden, &[a, b]).unwrap();
    let invocation = NodeIndex::new(2);
    let hidden = [NodeIndex::new(3), NodeIndex::new(4), NodeIndex::new(5)];
    let sum = NodeIndex::new(6);
    let product = NodeIndex::new(7);
    assert_eq!(outputs, vec![sum, product, hidden[1]]);
    assert_eq!(ctx.graph.0.node_count(), 8);
    assert_eq!(ctx.graph.0.edge_count(), 3 + 2 + 4);
    assert_eq!(tag(&ctx, invocation), Operation::InvokeGadget(DESCRIPTOR));
    assert_eq!(tag(&ctx, sum), Operation::Add);
    assert_eq!(tag(&ctx, product), Operation::Mul);
    assert_eq!(edges_into(&ctx, sum), vec![(a, EdgeInfo::Left), (b, EdgeInfo::Right)]);
    assert_eq!(
        edges_into(&ctx, product),
        vec![(hidden[0], EdgeInfo::Left), (hidden[2], EdgeInfo::Right)]
    );
    assert_eq!(
        edges_into(&ctx, invocation),
        vec![(a, EdgeInfo::Ordered(0)), (b, EdgeInfo::Ordered(1))]
    );
    assert_eq!(edges_out_of(&ctx, invocation).len(), 3);
}

#[test]
fn a_gadget_that_cannot_fit_is_refused() {
    let mut ctx = ZkpContext::new();
    let a = ctx.add_public_input();
    let r = invoke_gadget(&mut ctx, &Endless, &[]);
    assert_eq!(r, Err(Error::GraphFull));
    assert_eq!(ctx.graph.0.node_count(), 1);
    assert_eq!(ctx.graph.0.edge_count(), 0);
    assert_eq!(tag(&ctx, a), Operation::PublicInput(0));
}

#[test]
fn a_gadget_without_inputs_or_hidden_inputs_adds_one_node() {
    let mut ctx = ZkpContext::new();
    let bare = GadgetDescriptor { name: "bare", gadget_input_count: 0, hidden_input_count: 0 };
    let hidden = expand_gadget(&mut ctx, bare, &[]).unwrap();
    assert!(hidden.is_empty());
    assert_eq!(ctx.graph.0.node_count(), 1);
    assert_eq!(ctx.graph.0.edge_count(), 0);
}

#[test]
fn gadget_values_are_computed_outside_the_graph() {
    let values = TwoInThreeHidden.compute_inputs(&[BigInt::from_u32(3), BigInt::from_u32(4)]);
    assert_eq!(values, vec![BigInt::from_u32(3), BigInt::from_u32(4), BigInt::one()]);
}

#[test]
fn zkp_lowering_keeps_every_node_and_edge() {
    let mut ctx = ZkpContext::new();
    let a = ctx.add_public_input();
    let b = ctx.add_private_input();
    let c = ctx.add_constant_input();
    let k = ctx.add_constant(&BigInt::from_u32(9));
    let s = ctx.add_addition(a, b);
    let m = ctx.add_multiplication(s, c);
    let d = ctx.add_subtraction(m, k);
    let n = ctx.add_negate(d);
    ctx.add_constraint(n, &BigInt::zero());
    invoke_gadget(&mut ctx, &TwoInThreeHidden, &[a, b]).unwrap();
    let jit = compile(&ctx.graph);
    assert_eq!(jit.0.node_count(), ctx.graph.0.node_count());
    assert_eq!(jit.0.edge_count(), ctx.graph.0.edge_count());
    let expected = vec![
        JitOperation::PublicInput(0),
        JitOperation::PrivateInput(0),
        JitOperation::ConstantInput(0),
        JitOperation::Constant(BigInt::from_u32(9)),
        JitOperation::Add,
        JitOperation::Mul,
        JitOperation::Sub,
        JitOperation::Neg,
        JitOperation::Constraint(BigInt::zero()),
        JitOperation::InvokeGadget(DESCRIPTOR),
        JitOperation::HiddenInput(0),
        JitOperation::HiddenInput(1),
        JitOperation::HiddenInput(2),
        JitOperation::Add,
        JitOperation::Mul,
    ];
    assert_eq!(jit.0.node_count(), expected.len());
    for (i, op) in expected.iter().enumerate() {
        assert_eq!(&jit.0.node(NodeIndex::new(i)).operation, op);
    }
    for e in 0..jit.0.edge_count() {
        assert_eq!(jit.0.edge_endpoints(e), ctx.graph.0.edge_endpoints(e));
        assert_eq!(jit.0.role(e), ctx.graph.0.role(e));
    }
    assert!(jit.0.contains_node(NodeIndex::new(expected.len() - 1)));
    assert!(!jit.0.contains_node(NodeIndex::new(expected.len())));
}

#[test]
fn circuits_built_in_different_orders_are_equal() {
    let mut first = ZkpContext::new();
    let a = first.add_public_input();
    let k = first.add_constant(&BigInt::from_u32(3));
    first.add_multiplication(a, k);

    let mut second = ZkpContext::new();
    let k = second.add_constant(&BigInt::from_u32(3));
    let a = second.add_public_input();
    second.add_multiplication(a, k);

    assert!(first.graph.0.structurally_equal(&second.graph.0));
    assert!(second.graph.0.structurally_equal(&first.graph.0));

    let mut third = ZkpContext::new();
    let a = third.add_public_input();
    let k = third.add_constant(&BigInt::from_u32(4));
    third.add_multiplication(a, k);
    assert!(!first.graph.0.structurally_equal(&third.graph.0));
}

#[test]
fn operation_kinds_are_told_apart() {
    let all = [
        Operation::PrivateInput(0),
        Operation::PublicInput(0),
        Operation::ConstantInput(0),
        Operation::HiddenInput(0),
        Operation::Constraint(BigInt::zero()),
        Operation::Constant(BigInt::zero()),
        Operation::InvokeGadget(DESCRIPTOR),
        Operation::Add,
        Operation::Sub,
        Operation::Mul,
        Operation::Neg,
    ];
    let flags = |f: fn(&Operation) -> bool| -> Vec<bool> { all.iter().map(f).collect() };
    let only = |k: &[usize]| -> Vec<bool> { (0..all.len()).map(|i| k.contains(&i)).collect() };
    assert_eq!(flags(Operation::is_binary), only(&[7, 8, 9]));
    assert_eq!(flags(Operation::is_commutative), only(&[7, 9]));
    assert_eq!(flags(Operation::is_unary), only(&[10]));
    assert_eq!(flags(Operation::is_unordered), only(&[5]));
    assert_eq!(flags(Operation::is_ordered), only(&[6]));
    assert_eq!(flags(Operation::is_add), only(&[7]));
    assert_eq!(flags(Operation::is_sub), only(&[8]));
    assert_eq!(flags(Operation::is_mul), only(&[9]));
    assert_eq!(flags(Operation::is_neg), only(&[10]));
    assert_eq!(flags(Operation::is_private_input), only(&[0]));
    assert_eq!(flags(Operation::is_public_input), only(&[1]));
    assert_eq!(flags(Operation::is_hidden_input), only(&[3]));
}

#[test]
fn operations_are_the_same_when_kind_and_payload_agree() {
    let all = [
        Operation::PrivateInput(0),
        Operation::PrivateInput(1),
        Operation::PublicInput(0),
        Operation::ConstantInput(0),
        Operation::ConstantInput(1),
        Operation::HiddenInput(0),
        Operation::Constraint(BigInt::zero()),
        Operation::Constraint(BigInt::one()),
        Operation::Constant(BigInt::zero()),
        Operation::InvokeGadget(DESCRIPTOR),
        Operation::InvokeGadget(GadgetDescriptor { name: "other", ..DESCRIPTOR }),
        Operation::InvokeGadget(GadgetDescriptor { hidden_input_count: 4, ..DESCRIPTOR }),
        Operation::Add,
        Operation::Sub,
        Operation::Mul,
        Operation::Neg,
    ];
    for (i, a) in all.iter().enumerate() {
        for (j, b) in all.iter().enumerate() {
            assert_eq!(a.same(b), i == j);
            assert_eq!(a == b, i == j);
            assert_eq!(NodeInfo { operation: *a }.same(&NodeInfo { operation: *b }), i == j);
        }
    }
    let name = String::from("TwoInThreeHidden");
    let leaked: &'static str = Box::leak(name.into_boxed_str());
    let copy = GadgetDescriptor { name: leaked, ..DESCRIPTOR };
    assert!(Operation::InvokeGadget(copy).same(&Operation::InvokeGadget(DESCRIPTOR)));
}

#[test]
fn operations_render_as_kind_and_payload() {
    assert_eq!(Operation::PrivateInput(0).render(), "PrivateInput(0)");
    assert_eq!(Operation::PublicInput(7).render(), "PublicInput(7)");
    assert_eq!(Operation::ConstantInput(10).render(), "ConstantInput(10)");
    assert_eq!(Operation::HiddenInput(1234567890).render(), "HiddenInput(1234567890)");
    assert_eq!(
        Operation::PrivateInput(usize::MAX).render(),
        format!("PrivateInput({})", usize::MAX)
    );
    let zeros = "0".repeat(112);
    assert_eq!(
        Operation::Constant(BigInt::from_u32(0xdeadbeef)).render(),
        format!("Constant(0x{zeros}00000000deadbeef)")
    );
    assert_eq!(
        Operation::Constraint(BigInt::from_words([1, 0, 0, 0, 0, 0, 0, 0xabc])).render(),
        format!("Constraint(0x0000000000000abc{}0000000000000001)", "0".repeat(96))
    );
    assert_eq!(Operation::InvokeGadget(DESCRIPTOR).render(), "InvokeGadget(TwoInThreeHidden)");
    assert_eq!(Operation::Add.render(), "Add");
    assert_eq!(Operation::Sub.render(), "Sub");
    assert_eq!(Operation::Mul.render(), "Mul");
    assert_eq!(Operation::Neg.render(), "Neg");
}

#[test]
fn zkp_in_degrees_follow_the_kind_of_operation() {
    let mut ctx = ZkpContext::new();
    let a = ctx.add_public_input();
    let b = ctx.add_private_input();
    let c = ctx.add_constant_input();
    let k = ctx.add_constant(&BigInt::from_u32(2));
    let s = ctx.add_addition(a, b);
    let m = ctx.add_multiplication(s, c);
    let d = ctx.add_subtraction(m, k);
    let n = ctx.add_negate(d);
    let constraint = ctx.add_constraint(n, &BigInt::zero());
    let graph = &ctx.graph.0;
    for leaf in [a, b, c, k] {
        assert_eq!(graph.edges_into(leaf).len(), 0);
    }
    for binary in [s, m, d] {
        let ins = graph.edges_into(binary);
        assert_eq!(ins.len(), 2);
        assert_eq!(graph.role(ins[0]), &EdgeInfo::Left);
        assert_eq!(graph.role(ins[1]), &EdgeInfo::Right);
    }
    let ins = graph.edges_into(n);
    assert_eq!(ins.len(), 1);
    assert_eq!(graph.role(ins[0]), &EdgeInfo::Unary);
    let ins = graph.edges_into(constraint);
    assert_eq!(ins.len(), 1);
    assert_eq!(graph.role(ins[0]), &EdgeInfo::Unordered);
}

#[test]
fn a_zkp_context_tells_whether_it_has_room() {
    let mut ctx = ZkpContext::new();
    assert!(ctx.has_room_for(4, 5));
    assert!(!ctx.has_room_for(usize::MAX, 0));
    ctx.add_public_input();
    assert!(ctx.has_room_for(u32::MAX as usize - 1, 0));
    assert!(!ctx.has_room_for(u32::MAX as usize, 0));
}
