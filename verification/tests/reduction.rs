//! Identifier reduction: idempotence, aliasing order, dense renumbering.

use cmt_flatten::error::StructuralViolation;
use cmt_flatten::ir::EntityId;
use cmt_flatten::ir::OpId;
use cmt_flatten::reducer::IdReducer;
use cmt_flatten::reducer::Reduced;
use cmt_flatten::reducer::Reducer;

#[test]
fn reduce_allocates_dense_indices() {
    let mut reducer = Reducer::new();
    assert_eq!(reducer.reduce(EntityId(40)).idx(), 0);
    assert_eq!(reducer.reduce(EntityId(17)).idx(), 1);
    assert_eq!(reducer.reduce(EntityId(99)).idx(), 2);
    assert_eq!(reducer.n, 3);
}

#[test]
fn reduce_is_idempotent() {
    let mut reducer = Reducer::new();
    let first = reducer.reduce(EntityId(7));
    assert!(matches!(first, Reduced::New(0)));
    let second = reducer.reduce(EntityId(7));
    assert!(matches!(second, Reduced::Old(0)));
    let third = reducer.reduce(EntityId(7));
    assert_eq!(third.idx(), 0);
    assert_eq!(reducer.n, 1);
}

#[test]
fn target_binding_must_come_first() {
    let mut reducer = Reducer::new();
    let allocated = reducer.new_value();
    assert_eq!(allocated, 0);
    // Binding a fresh identifier to an owned flat value succeeds.
    let bound = reducer.reduce_with_target(EntityId(5), allocated);
    assert!(matches!(bound, Ok(Reduced::Old(0))));
    // A second binding of the same identifier fails.
    let again = reducer.reduce_with_target(EntityId(5), allocated);
    assert_eq!(again, Err(StructuralViolation::RepeatedBinding(5)));
    // A reduction after binding returns the bound flat value.
    let reduced = reducer.reduce(EntityId(5));
    assert!(matches!(reduced, Reduced::Old(0)));
}

#[test]
fn binding_after_reduction_fails() {
    let mut reducer = Reducer::new();
    let idx = reducer.reduce(EntityId(3)).idx();
    assert_eq!(idx, 0);
    let target = reducer.new_value();
    let bound = reducer.reduce_with_target(EntityId(3), target);
    assert_eq!(bound, Err(StructuralViolation::RepeatedBinding(3)));
}

#[test]
fn id_reducer_renumbers_in_order_of_first_appearance() {
    let mut reducer = IdReducer::new();
    assert_eq!(reducer.reduce_entity(EntityId(30)), 0);
    assert_eq!(reducer.reduce_entity(EntityId(10)), 1);
    assert_eq!(reducer.reduce_entity(EntityId(30)), 0);
    assert_eq!(reducer.reduce_entity(EntityId(20)), 2);
    assert_eq!(reducer.reduce_op(OpId(8)), 0);
    assert_eq!(reducer.reduce_op(OpId(9)), 1);
    assert_eq!(reducer.reduce_op(OpId(8)), 0);
}
