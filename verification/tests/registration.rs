use sunscreen::context::with_zkp_ctx;
use sunscreen::graph::NodeIndex;
use sunscreen::zkp::{ZkpContext, ZkpContextOps};
use sunscreen::{
    with_ctx, ActiveContext, Context, Error, Params, SchemeType, SecurityLevel,
};

fn context() -> Context {
    Context::new(&Params {
        lattice_dimension: 1024,
        coeff_modulus: vec![12289],
        plain_modulus: 17,
        scheme_type: SchemeType::Bfv,
        security_level: SecurityLevel::TC192,
    })
}

#[test]
fn a_new_slot_holds_no_context() {
    let mut slot: ActiveContext<Context> = ActiveContext::new();
    assert!(!slot.is_active());
    assert!(slot.uninstall().is_none());
    assert!(!slot.is_active());
}

#[test]
fn install_then_uninstall_hands_the_context_back() {
    let mut slot = ActiveContext::new();
    let mut ctx = context();
    ctx.add_ciphertext_input();
    assert_eq!(slot.install(ctx), Ok(()));
    assert!(slot.is_active());
    let back = slot.uninstall().unwrap();
    assert_eq!(back.compilation.graph.node_count(), 1);
    assert!(!slot.is_active());
}

#[test]
fn nested_installation_is_refused_and_keeps_the_first_context() {
    let mut slot = ActiveContext::new();
    let mut first = context();
    first.add_ciphertext_input();
    first.add_ciphertext_input();
    assert_eq!(slot.install(first), Ok(()));
    assert_eq!(slot.install(context()), Err(Error::NestedContext));
    assert!(slot.is_active());
    assert_eq!(slot.uninstall().unwrap().compilation.graph.node_count(), 2);
    assert_eq!(slot.install(context()), Ok(()));
}

#[test]
fn with_ctx_reaches_the_installed_context() {
    let mut slot = ActiveContext::new();
    slot.install(context()).unwrap();
    let a = with_ctx(&mut slot, |ctx| ctx.add_ciphertext_input());
    let b = with_ctx(&mut slot, |ctx| ctx.add_ciphertext_input());
    let sum = with_ctx(&mut slot, |ctx| ctx.add_addition(a, b));
    assert_eq!(sum, NodeIndex::new(2));
    assert!(slot.is_active());
    let count = with_ctx(&mut slot, |ctx| ctx.compilation.graph.node_count());
    assert_eq!(count, 3);
    let built = slot.uninstall().unwrap();
    assert_eq!(built.compilation.graph.edge_count(), 2);
}

#[test]
fn with_zkp_ctx_reaches_the_installed_context() {
    let mut slot = ActiveContext::new();
    slot.install(ZkpContext::new()).unwrap();
    let a = with_zkp_ctx(&mut slot, |ctx| ctx.add_public_input());
    let b = with_zkp_ctx(&mut slot, |ctx| ctx.add_private_input());
    let product = with_zkp_ctx(&mut slot, |ctx| ctx.add_multiplication(a, b));
    assert_eq!(product.index(), 2);
    let built = slot.uninstall().unwrap();
    assert_eq!(built.graph.0.node_count(), 3);
    assert_eq!(built.data.next_public_input, 1);
    assert_eq!(built.data.next_private_input, 1);
}

#[test]
fn construct_leaves_the_slot_empty() {
    let mut slot = ActiveContext::new();
    let built = slot
        .construct(context(), |slot| {
            let a = with_ctx(slot, |ctx| ctx.add_ciphertext_input());
            with_ctx(slot, |ctx| ctx.add_negate(a));
        })
        .unwrap();
    assert_eq!(built.compilation.graph.node_count(), 2);
    assert!(!slot.is_active());
    let next = slot.construct(context(), |_| {}).unwrap();
    assert_eq!(next.compilation.graph.node_count(), 0);
    assert!(!slot.is_active());
}

#[test]
fn construct_inside_a_construction_is_refused() {
    let mut slot = ActiveContext::new();
    let mut inner_result = None;
    let built = slot
        .construct(context(), |slot| {
            with_ctx(slot, |ctx| ctx.add_plaintext_input());
            inner_result = Some(slot.construct(context(), |_| {}).map(|_| ()));
            with_ctx(slot, |ctx| ctx.add_plaintext_input());
        })
        .unwrap();
    assert_eq!(inner_result, Some(Err(Error::NestedContext)));
    assert_eq!(built.compilation.graph.node_count(), 2);
    assert!(!slot.is_active());
}

#[test]
fn construct_reports_a_context_that_was_taken_away() {
    let mut slot = ActiveContext::new();
    let r = slot.construct(context(), |slot| {
        slot.uninstall();
    });
    assert!(matches!(r, Err(Error::NoActiveContext)));
    assert!(!slot.is_active());
}
