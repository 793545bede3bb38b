use sunscreen::fhe_program::{
    EdgeInfo as BackendEdge, Literal as BackendLiteral, Operation as BackendOperation,
};
use sunscreen::graph::{NodeIndex, ViewEq};
use sunscreen::{
    Context, Error, FheProgramNode, InnerPlaintext, Literal, OperandInfo, Operation, Params,
    SchemeType, SecurityLevel,
};

fn params() -> Params {
    Params {
        lattice_dimension: 4096,
        coeff_modulus: vec![1 << 30, 1 << 31],
        plain_modulus: 600,
        scheme_type: SchemeType::Bfv,
        security_level: SecurityLevel::TC128,
    }
}

fn in_edges(ctx: &Context, node: NodeIndex) -> Vec<(NodeIndex, OperandInfo)> {
    let graph = &ctx.compilation.graph;
    let mut found = vec![];
    for k in 0..graph.edge_count() {
        let (from, to) = graph.edge_endpoints(k).unwrap();
        if to == node {
            found.push((from, *graph.role(k)));
        }
    }
    found
}

#[test]
fn new_context_is_empty_and_keeps_the_parameters() {
    let p = params();
    let ctx = Context::new(&p);
    assert_eq!(ctx.compilation.graph.node_count(), 0);
    assert_eq!(ctx.compilation.graph.edge_count(), 0);
    assert_eq!(ctx.params, p);
    assert!(ctx.indicies_store.is_empty());
    assert!(ctx.fhe_program_nodes.is_empty());
}

#[test]
fn params_clone_holds_the_same_values() {
    let p = params();
    let q = p.clone();
    assert_eq!(p, q);
    assert_eq!(q.coeff_modulus, vec![1 << 30, 1 << 31]);
}

#[test]
fn sum_of_two_inputs_lowers_to_four_nodes() {
    let mut ctx = Context::new(&params());
    let a = ctx.add_ciphertext_input();
    let b = ctx.add_ciphertext_input();
    let sum = ctx.add_addition(a, b);
    assert_eq!(ctx.compilation.graph.node_count(), 3);
    assert_eq!(ctx.compilation.graph.node(a), &Operation::InputCiphertext);
    assert_eq!(ctx.compilation.graph.node(b), &Operation::InputCiphertext);
    assert_eq!(ctx.compilation.graph.node(sum), &Operation::Add);
    let out = ctx.add_output(sum);
    assert_eq!(ctx.compilation.graph.node_count(), 4);
    assert_eq!(ctx.compilation.graph.node(out), &Operation::Output);
    assert_eq!(in_edges(&ctx, out), vec![(sum, OperandInfo::Unary)]);

    let program = ctx.compilation.compile().unwrap();
    assert_eq!(program.scheme, SchemeType::Bfv);
    assert_eq!(program.graph.node_count(), 4);
    assert_eq!(program.graph.edge_count(), 3);
    assert_eq!(
        program.graph.node(NodeIndex::new(0)).operation,
        BackendOperation::InputCiphertext(0)
    );
    assert_eq!(
        program.graph.node(NodeIndex::new(1)).operation,
        BackendOperation::InputCiphertext(1)
    );
    assert_eq!(program.graph.node(NodeIndex::new(2)).operation, BackendOperation::Add);
    assert_eq!(
        program.graph.node(NodeIndex::new(3)).operation,
        BackendOperation::OutputCiphertext
    );
    assert_eq!(program.graph.edge_endpoints(0), Some((a, sum)));
    assert_eq!(program.graph.edge_endpoints(1), Some((b, sum)));
    assert_eq!(program.graph.edge_endpoints(2), Some((sum, out)));
    assert_eq!(program.graph.role(0), &BackendEdge::LeftOperand);
    assert_eq!(program.graph.role(1), &BackendEdge::RightOperand);
    assert_eq!(program.graph.role(2), &BackendEdge::UnaryOperand);
    let mut outputs = 0;
    for i in 0..4 {
        if program.graph.node(NodeIndex::new(i)).operation == BackendOperation::OutputCiphertext {
            outputs += 1;
        }
    }
    assert_eq!(outputs, 1);
}

fn five() -> Literal {
    Literal::U64(2 + 3)
}

#[test]
fn literal_five_is_kept_once() {
    let mut ctx = Context::new(&params());
    let first = ctx.add_literal(Literal::U64(5));
    let again = ctx.add_literal(five());
    assert_eq!(first, again);
    assert_eq!(ctx.compilation.graph.node_count(), 1);
    let product = ctx.add_multiplication(first, again);
    assert_eq!(ctx.compilation.graph.node_count(), 2);
    assert_eq!(ctx.compilation.graph.edge_count(), 2);
    assert_eq!(
        in_edges(&ctx, product),
        vec![(first, OperandInfo::Left), (first, OperandInfo::Right)]
    );
    assert_eq!(ctx.compilation.graph.node(product), &Operation::Multiply);
}

#[test]
fn same_literal_gives_same_node() {
    let mut ctx = Context::new(&params());
    ctx.add_ciphertext_input();
    let a = ctx.add_literal(Literal::U64(42));
    ctx.add_plaintext_input();
    let b = ctx.add_literal(Literal::U64(42));
    assert_eq!(a, b);
    assert_eq!(a.index(), 1);
    assert_eq!(ctx.compilation.graph.node_count(), 3);
}

#[test]
fn distinct_literals_give_distinct_nodes() {
    let mut ctx = Context::new(&params());
    let a = ctx.add_literal(Literal::U64(1));
    let b = ctx.add_literal(Literal::U64(2));
    assert_ne!(a, b);
    assert_eq!(ctx.compilation.graph.node_count(), 2);
    assert_eq!(ctx.add_literal(Literal::U64(1)), a);
    assert_eq!(ctx.add_literal(Literal::U64(2)), b);
    assert_eq!(ctx.compilation.graph.node_count(), 2);
}

#[test]
fn plaintext_literals_are_kept_once() {
    let mut ctx = Context::new(&params());
    let a = ctx.add_plaintext_literal(InnerPlaintext::new(vec![1, 2, 3]));
    let b = ctx.add_plaintext_literal(InnerPlaintext::new(vec![1, 2, 3]));
    let c = ctx.add_literal(Literal::Plaintext(InnerPlaintext::new(vec![1, 2, 3])));
    let d = ctx.add_plaintext_literal(InnerPlaintext::new(vec![1, 2]));
    let e = ctx.add_literal(Literal::U64(1));
    assert_eq!(a, b);
    assert_eq!(a, c);
    assert_ne!(a, d);
    assert_ne!(a, e);
    assert_ne!(d, e);
    assert_eq!(ctx.compilation.graph.node_count(), 3);
}

#[test]
fn every_builder_adds_its_operation() {
    let mut ctx = Context::new(&params());
    let a = ctx.add_ciphertext_input();
    let b = ctx.add_plaintext_input();
    let binary = [
        (ctx.add_subtraction(a, a), Operation::Sub),
        (ctx.add_subtraction_plaintext(a, b), Operation::SubPlaintext),
        (ctx.add_addition(a, a), Operation::Add),
        (ctx.add_addition_plaintext(a, b), Operation::AddPlaintext),
        (ctx.add_multiplication(a, a), Operation::Multiply),
        (ctx.add_multiplication_plaintext(a, b), Operation::MultiplyPlaintext),
        (ctx.add_rotate_left(a, b), Operation::RotateLeft),
        (ctx.add_rotate_right(a, b), Operation::RotateRight),
    ];
    let unary = [
        (ctx.add_negate(a), Operation::Negate),
        (ctx.add_swap_rows(a), Operation::SwapRows),
        (ctx.add_output(a), Operation::Output),
    ];
    assert_eq!(ctx.compilation.graph.node_count(), 13);
    assert_eq!(ctx.compilation.graph.edge_count(), 8 * 2 + 3);
    for (k, (id, op)) in binary.iter().enumerate() {
        assert_eq!(id.index(), 2 + k);
        assert_eq!(ctx.compilation.graph.node(*id), op);
        let ins = in_edges(&ctx, *id);
        assert_eq!(ins.len(), 2);
        assert_eq!(ins[0].1, OperandInfo::Left);
        assert_eq!(ins[1].1, OperandInfo::Right);
        assert_eq!(ins[0].0, a);
    }
    for (id, op) in unary.iter() {
        assert_eq!(ctx.compilation.graph.node(*id), op);
        assert_eq!(in_edges(&ctx, *id), vec![(a, OperandInfo::Unary)]);
    }
    assert!(in_edges(&ctx, a).is_empty());
    assert!(in_edges(&ctx, b).is_empty());
}

#[test]
fn inputs_and_literals_have_no_incoming_edges() {
    let mut ctx = Context::new(&params());
    let a = ctx.add_ciphertext_input();
    let lit = ctx.add_literal(Literal::U64(9));
    let p = ctx.add_plaintext_input();
    let m = ctx.add_multiplication_plaintext(a, lit);
    ctx.add_addition_plaintext(m, p);
    for leaf in [a, lit, p] {
        assert_eq!(in_edges(&ctx, leaf).len(), 0);
    }
}

#[test]
fn every_edge_leads_to_a_younger_node() {
    let mut ctx = Context::new(&params());
    let a = ctx.add_ciphertext_input();
    let b = ctx.add_ciphertext_input();
    let s = ctx.add_subtraction(b, a);
    let n = ctx.add_negate(s);
    ctx.add_output(n);
    let graph = &ctx.compilation.graph;
    for k in 0..graph.edge_count() {
        let (from, to) = graph.edge_endpoints(k).unwrap();
        assert!(from.index() < to.index());
    }
}

#[test]
fn lowering_maps_every_operation() {
    let mut ctx = Context::new(&params());
    let a = ctx.add_ciphertext_input();
    let b = ctx.add_plaintext_input();
    ctx.add_subtraction(a, a);
    ctx.add_subtraction_plaintext(a, b);
    ctx.add_addition(a, a);
    ctx.add_addition_plaintext(a, b);
    ctx.add_multiplication(a, a);
    ctx.add_multiplication_plaintext(a, b);
    ctx.add_rotate_left(a, b);
    ctx.add_rotate_right(a, b);
    ctx.add_negate(a);
    ctx.add_swap_rows(a);
    ctx.add_output(a);
    ctx.add_literal(Literal::U64(77));
    ctx.add_plaintext_literal(InnerPlaintext::new(vec![9, 8, 7]));
    let program = ctx.compilation.compile().unwrap();
    let expected = vec![
        BackendOperation::InputCiphertext(0),
        BackendOperation::InputPlaintext(1),
        BackendOperation::Sub,
        BackendOperation::SubPlaintext,
        BackendOperation::Add,
        BackendOperation::AddPlaintext,
        BackendOperation::Multiply,
        BackendOperation::MultiplyPlaintext,
        BackendOperation::ShiftLeft,
        BackendOperation::ShiftRight,
        BackendOperation::Negate,
        BackendOperation::SwapRows,
        BackendOperation::OutputCiphertext,
        BackendOperation::Literal(BackendLiteral::U64(77)),
        BackendOperation::Literal(BackendLiteral::Plaintext(vec![9, 8, 7])),
    ];
    assert_eq!(program.graph.node_count(), expected.len());
    assert_eq!(program.graph.node_count(), ctx.compilation.graph.node_count());
    assert_eq!(program.graph.edge_count(), ctx.compilation.graph.edge_count());
    for (i, op) in expected.iter().enumerate() {
        assert_eq!(&program.graph.node(NodeIndex::new(i)).operation, op);
    }
    for k in 0..program.graph.edge_count() {
        assert_eq!(program.graph.edge_endpoints(k), ctx.compilation.graph.edge_endpoints(k));
    }
}

#[test]
fn inputs_are_numbered_by_their_rank_among_inputs() {
    let mut ctx = Context::new(&params());
    ctx.add_literal(Literal::U64(3));
    let a = ctx.add_ciphertext_input();
    let n = ctx.add_negate(a);
    let b = ctx.add_plaintext_input();
    ctx.add_addition_plaintext(n, b);
    let c = ctx.add_ciphertext_input();
    let program = ctx.compilation.compile().unwrap();
    assert_eq!(program.graph.node(a).operation, BackendOperation::InputCiphertext(0));
    assert_eq!(program.graph.node(b).operation, BackendOperation::InputPlaintext(1));
    assert_eq!(program.graph.node(c).operation, BackendOperation::InputCiphertext(2));
}

#[test]
fn malformed_plaintext_fails_only_at_lowering() {
    let mut ctx = Context::new(&params());
    let a = ctx.add_ciphertext_input();
    let good = ctx.add_plaintext_literal(InnerPlaintext::new(vec![1]));
    let bad = ctx.add_plaintext_literal(InnerPlaintext::malformed());
    let m = ctx.add_multiplication_plaintext(a, bad);
    ctx.add_addition_plaintext(m, good);
    assert_eq!(ctx.compilation.graph.node_count(), 5);
    match ctx.compilation.compile() {
        Err(e) => assert_eq!(e, Error::PlaintextSerialization { node: bad }),
        Ok(_) => panic!("lowering a malformed plaintext succeeded"),
    }
    assert_eq!(bad.index(), 2);
}

#[test]
fn lowering_an_empty_graph_gives_an_empty_program() {
    let ctx = Context::new(&params());
    let program = ctx.compilation.compile().unwrap();
    assert_eq!(program.graph.node_count(), 0);
    assert_eq!(program.graph.edge_count(), 0);
}

#[test]
fn plaintext_serializes_to_its_bytes() {
    assert_eq!(InnerPlaintext::new(vec![4, 5]).to_bytes(), Some(vec![4, 5]));
    assert_eq!(InnerPlaintext::new(vec![]).to_bytes(), Some(vec![]));
    assert_eq!(InnerPlaintext::malformed().to_bytes(), None);
}

#[test]
fn operations_compare_by_value() {
    assert!(Operation::Add.same(&Operation::Add));
    assert!(!Operation::Add.same(&Operation::AddPlaintext));
    assert!(Operation::Literal(Literal::U64(3)).same(&Operation::Literal(Literal::U64(3))));
    assert!(!Operation::Literal(Literal::U64(3)).same(&Operation::Literal(Literal::U64(4))));
    let p = Literal::Plaintext(InnerPlaintext::new(vec![1, 2]));
    let q = Literal::Plaintext(InnerPlaintext::new(vec![1, 2]));
    let r = Literal::Plaintext(InnerPlaintext::new(vec![1, 3]));
    let s = Literal::Plaintext(InnerPlaintext::new(vec![1]));
    assert!(p.same(&q));
    assert!(!p.same(&r));
    assert!(!p.same(&s));
    assert!(!p.same(&Literal::U64(1)));
    assert!(Literal::Plaintext(InnerPlaintext::malformed())
        .same(&Literal::Plaintext(InnerPlaintext::malformed())));
    assert!(!p.same(&Literal::Plaintext(InnerPlaintext::malformed())));
}

#[test]
fn contexts_built_in_different_orders_are_equal() {
    let mut first = Context::new(&params());
    let a = first.add_ciphertext_input();
    let lit = first.add_literal(Literal::U64(7));
    let m = first.add_multiplication_plaintext(a, lit);
    first.add_output(m);

    let mut second = Context::new(&params());
    let lit = second.add_literal(Literal::U64(7));
    let a = second.add_ciphertext_input();
    let m = second.add_multiplication_plaintext(a, lit);
    second.add_output(m);

    assert!(first.compilation.eq(&second.compilation));
    assert!(second.compilation.eq(&first.compilation));
    assert!(first.compilation.eq(&first.compilation));
}

#[test]
fn contexts_of_different_programs_are_not_equal() {
    let mut first = Context::new(&params());
    let a = first.add_ciphertext_input();
    let b = first.add_ciphertext_input();
    first.add_addition(a, b);

    let mut second = Context::new(&params());
    let a = second.add_ciphertext_input();
    let b = second.add_ciphertext_input();
    second.add_subtraction(a, b);

    assert!(!first.compilation.eq(&second.compilation));
    assert!(!second.compilation.eq(&first.compilation));
}

#[test]
fn a_context_with_a_squared_input_equals_itself() {
    let mut ctx = Context::new(&params());
    let a = ctx.add_ciphertext_input();
    let sq = ctx.add_multiplication(a, a);
    ctx.add_output(sq);
    assert!(ctx.compilation.eq(&ctx.compilation));
}

#[test]
fn node_handles_are_cached_by_their_identifiers() {
    let mut ctx = Context::new(&params());
    let a = ctx.add_ciphertext_input();
    let b = ctx.add_ciphertext_input();
    let c = ctx.add_addition(a, b);
    let first = ctx.get_fhe_program_node(&[a, b]);
    assert_eq!(first, FheProgramNode { offset: 0, len: 2 });
    assert_eq!(ctx.indicies_store, vec![a, b]);
    let second = ctx.get_fhe_program_node(&[c]);
    assert_eq!(second, FheProgramNode { offset: 2, len: 1 });
    assert_eq!(ctx.indicies_store, vec![a, b, c]);
    let again = ctx.get_fhe_program_node(&[a, b]);
    assert_eq!(again, first);
    assert_eq!(ctx.indicies_store, vec![a, b, c]);
    assert_eq!(ctx.fhe_program_nodes, vec![first, second]);
    let swapped = ctx.get_fhe_program_node(&[b, a]);
    assert_eq!(swapped, FheProgramNode { offset: 3, len: 2 });
    let empty = ctx.get_fhe_program_node(&[]);
    assert_eq!(empty, FheProgramNode { offset: 5, len: 0 });
    assert_eq!(ctx.get_fhe_program_node(&[]), empty);
    assert_eq!(ctx.fhe_program_nodes.len(), 4);
    assert_eq!(ctx.compilation.graph.node_count(), 3);
    assert_eq!(&ctx.indicies_store[first.offset..first.offset + first.len], &[a, b]);
}

#[test]
fn in_degrees_follow_the_kind_of_operation() {
    let mut ctx = Context::new(&params());
    let a = ctx.add_ciphertext_input();
    let b = ctx.add_plaintext_input();
    let lit = ctx.add_literal(Literal::U64(2));
    let m = ctx.add_multiplication_plaintext(a, lit);
    let s = ctx.add_subtraction_plaintext(m, b);
    let r = ctx.add_rotate_left(s, lit);
    let n = ctx.add_negate(r);
    let w = ctx.add_swap_rows(n);
    let o = ctx.add_output(w);
    let graph = &ctx.compilation.graph;
    for leaf in [a, b, lit] {
        assert_eq!(graph.edges_into(leaf).len(), 0);
    }
    for binary in [m, s, r] {
        let ins = graph.edges_into(binary);
        assert_eq!(ins.len(), 2);
        assert_eq!(graph.role(ins[0]), &OperandInfo::Left);
        assert_eq!(graph.role(ins[1]), &OperandInfo::Right);
    }
    for unary in [n, w, o] {
        let ins = graph.edges_into(unary);
        assert_eq!(ins.len(), 1);
        assert_eq!(graph.role(ins[0]), &OperandInfo::Unary);
    }
    assert_eq!(graph.edges_out_of(lit).len(), 2);
    assert_eq!(graph.edges_out_of(o).len(), 0);
}

#[test]
fn a_context_tells_whether_it_has_room() {
    let mut ctx = Context::new(&params());
    assert!(ctx.has_room_for(1, 2));
    assert!(ctx.has_room_for(u32::MAX as usize, u32::MAX as usize));
    assert!(!ctx.has_room_for(u32::MAX as usize + 1, 0));
    assert!(!ctx.has_room_for(0, usize::MAX));
    ctx.add_ciphertext_input();
    assert!(!ctx.has_room_for(u32::MAX as usize, 0));
    assert!(ctx.has_room_for(u32::MAX as usize - 1, u32::MAX as usize));
}
