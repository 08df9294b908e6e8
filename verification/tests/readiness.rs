//! The readiness state machines: sizing, no double or unknown updates,
//! order independence, and the two-part wait of a selection.

use cmt_flatten::error::StructuralViolation;
use cmt_flatten::events::Comb;
use cmt_flatten::events::CondCheck;
use cmt_flatten::events::DefUseTopo;
use cmt_flatten::events::Event;
use cmt_flatten::events::LdReg;
use cmt_flatten::events::ListenChannel;
use cmt_flatten::events::SelectEvent;
use cmt_flatten::events::StReg;
use cmt_flatten::events::WriteChannel;
use cmt_flatten::ir::CombOp;
use cmt_flatten::ir::CombKind;
use cmt_flatten::ir::OpEnum;

fn comb_op() -> OpEnum {
    OpEnum::Comb(CombOp { id: 0, parent: None, kind: CombKind::Assign, uses: vec![], defs: vec![] })
}

#[test]
fn listen_and_load_are_always_ready() {
    let mut listen = ListenChannel::new(vec![0], vec![4]);
    listen.initialize();
    assert!(listen.ready());
    assert_eq!(listen.get_defs(), vec![4]);
    assert_eq!(listen.get_uses(), Vec::<usize>::new());
    assert_eq!(listen.update(4), Err(StructuralViolation::UnknownUse(4)));

    let mut load = LdReg::new(vec![9]);
    load.initialize();
    assert!(load.ready());
    assert_eq!(load.get_defs(), vec![9]);
    assert_eq!(load.update(9), Err(StructuralViolation::UnknownUse(9)));
}

#[test]
fn readiness_sizing_matches_declared_uses() {
    let mut write = WriteChannel::new(vec![0, 1, 2], vec![5, 6, 7]);
    write.initialize();
    assert_eq!(write.waited_n, 3);
    assert!(!write.ready());

    let mut store = StReg::new(vec![8], vec![3]);
    store.initialize();
    assert_eq!(store.waited_n, 1);

    let mut comb = Comb::new(vec![1, 2], vec![3], comb_op());
    comb.initialize();
    assert_eq!(comb.waited_n, 2);

    let mut check = CondCheck::new(vec![4, 5, 6, 7], 9, true, false);
    check.initialize();
    assert_eq!(check.waited_n, 4);

    let mut select = SelectEvent::new(9, 5, vec![6, 7]);
    select.initialize();
    assert_eq!(select.waited_n, 2);
    assert!(!select.has_idx);
}

#[test]
fn unknown_and_repeated_updates_fail_for_every_kind() {
    let mut write = WriteChannel::new(vec![0], vec![5]);
    write.initialize();
    assert_eq!(write.update(6), Err(StructuralViolation::UnknownUse(6)));
    assert_eq!(write.update(5), Ok(true));
    assert_eq!(write.update(5), Err(StructuralViolation::RepeatedUpdate(5)));

    let mut store = StReg::new(vec![8], vec![3]);
    store.initialize();
    assert_eq!(store.update(3), Err(StructuralViolation::UnknownUse(3)));
    assert_eq!(store.update(8), Ok(true));
    assert_eq!(store.update(8), Err(StructuralViolation::RepeatedUpdate(8)));

    let mut comb = Comb::new(vec![1, 2], vec![3], comb_op());
    comb.initialize();
    assert_eq!(comb.update(3), Err(StructuralViolation::UnknownUse(3)));
    assert_eq!(comb.update(1), Ok(false));
    assert_eq!(comb.update(1), Err(StructuralViolation::RepeatedUpdate(1)));

    let mut check = CondCheck::new(vec![4, 5], 9, true, true);
    check.initialize();
    assert_eq!(check.update(9), Err(StructuralViolation::UnknownUse(9)));
    assert_eq!(check.update(5), Ok(false));
    assert_eq!(check.update(5), Err(StructuralViolation::RepeatedUpdate(5)));

    let mut select = SelectEvent::new(9, 5, vec![6, 7]);
    select.initialize();
    assert_eq!(select.update(10), Err(StructuralViolation::UnknownUse(10)));
    assert_eq!(select.update(5), Ok(false));
    assert_eq!(select.update(5), Err(StructuralViolation::RepeatedUpdate(5)));
    assert_eq!(select.update(6), Ok(false));
    assert_eq!(select.update(6), Err(StructuralViolation::RepeatedUpdate(6)));
}

#[test]
fn readiness_is_order_independent() {
    // One order of arrivals.
    let mut comb = Comb::new(vec![1, 2, 3], vec![9], comb_op());
    comb.initialize();
    assert_eq!(comb.update(2), Ok(false));
    assert!(!comb.ready());
    assert_eq!(comb.update(3), Ok(false));
    assert!(!comb.ready());
    assert_eq!(comb.update(1), Ok(true));
    assert!(comb.ready());

    // The reverse order reaches the same readiness.
    let mut again = Comb::new(vec![1, 2, 3], vec![9], comb_op());
    again.initialize();
    assert_eq!(again.update(1), Ok(false));
    assert_eq!(again.update(3), Ok(false));
    assert_eq!(again.update(2), Ok(true));
    assert!(again.ready());
}

#[test]
fn select_needs_decision_and_every_candidate() {
    // Candidates first, decision last.
    let mut select = SelectEvent::new(9, 5, vec![6, 7, 8]);
    select.initialize();
    assert_eq!(select.get_uses(), vec![5, 6, 7, 8]);
    assert_eq!(select.get_defs(), vec![9]);
    assert_eq!(select.update(6), Ok(false));
    assert_eq!(select.update(7), Ok(false));
    assert_eq!(select.update(8), Ok(false));
    assert!(!select.ready());
    assert_eq!(select.update(5), Ok(true));
    assert!(select.ready());

    // Decision first, candidates afterwards.
    let mut other = SelectEvent::new(9, 5, vec![6, 7, 8]);
    other.initialize();
    assert_eq!(other.update(5), Ok(false));
    assert!(!other.ready());
    assert_eq!(other.update(8), Ok(false));
    assert_eq!(other.update(6), Ok(false));
    assert!(!other.ready());
    assert_eq!(other.update(7), Ok(true));
    assert!(other.ready());
}

#[test]
fn event_dispatch_matches_the_wrapped_kind() {
    let mut event = Event::WriteChannel(WriteChannel::new(vec![0, 1], vec![5, 6]));
    event.initialize();
    assert_eq!(event.get_uses(), vec![5, 6]);
    assert_eq!(event.get_defs(), Vec::<usize>::new());
    assert!(!event.ready());
    assert_eq!(event.update(5), Ok(false));
    assert_eq!(event.update(6), Ok(true));
    assert!(event.ready());
}
