//! Whole-design flattening: scenarios, boundary channels, guard merging,
//! and the fatal structural violations.

use cmt_flatten::common::ArrayAttr;
use cmt_flatten::common::BoolAttr;
use cmt_flatten::common::CombBinaryPredicate;
use cmt_flatten::common::CombICmpPredicate;
use cmt_flatten::common::CombUnaryPredicate;
use cmt_flatten::common::CombVariadicPredicate;
use cmt_flatten::common::DataTypeEnum;
use cmt_flatten::common::StringAttr;
use cmt_flatten::common::UIntType;
use cmt_flatten::error::StructuralViolation;
use cmt_flatten::events::DefUseTopo;
use cmt_flatten::events::Event;
use cmt_flatten::guard::Condition;
use cmt_flatten::interp::Interpreter;
use cmt_flatten::ir::Cases;
use cmt_flatten::ir::CmtIR;
use cmt_flatten::ir::CombKind;
use cmt_flatten::ir::CombOp;
use cmt_flatten::ir::EntityEnum;
use cmt_flatten::ir::EntityId;
use cmt_flatten::ir::EventDef;
use cmt_flatten::ir::HwInput;
use cmt_flatten::ir::HwInstance;
use cmt_flatten::ir::HwModule;
use cmt_flatten::ir::HwOutput;
use cmt_flatten::ir::OpEnum;
use cmt_flatten::ir::OpId;
use cmt_flatten::ir::Region;
use cmt_flatten::ir::RegionId;
use cmt_flatten::ir::SeqCompReg;
use cmt_flatten::ir::Select;
use cmt_flatten::ir::Wire;
use cmt_flatten::utils::from_bits_to_u32;

fn wire(cmt: &mut CmtIR, width: usize) -> EntityId {
    cmt.add_entity(EntityEnum::Wire(Wire::new(
        Some(DataTypeEnum::UInt(UIntType(width))),
        None,
        None,
    )))
}

fn clk_wire(cmt: &mut CmtIR) -> EntityId {
    cmt.add_entity(EntityEnum::Wire(Wire::new(Some(DataTypeEnum::Clk), None, None)))
}

fn region_of(cmt: &mut CmtIR, ops: Vec<OpId>) -> RegionId {
    let mut region = Region::new(false);
    for op in ops {
        region.add_op_child(op).unwrap();
    }
    cmt.add_region(region)
}

fn module_op(cmt: &mut CmtIR, body: RegionId, top: bool, name: &str) -> OpId {
    cmt.add_op(OpEnum::HwModule(HwModule {
        id: 0,
        parent: None,
        name: Some(StringAttr(String::from(name))),
        top: Some(BoolAttr(top)),
        arg_names: Some(ArrayAttr(vec![])),
        arg_types: Some(ArrayAttr(vec![])),
        output_names: Some(ArrayAttr(vec![])),
        output_types: Some(ArrayAttr(vec![])),
        body: Some(body),
    }))
}

#[test]
fn single_register_delay_module() {
    let mut cmt = CmtIR::new();
    let inp = wire(&mut cmt, 8);
    let reg_out = wire(&mut cmt, 8);
    let clk = clk_wire(&mut cmt);
    let op_in = cmt.add_op(OpEnum::HwInput(HwInput { id: 0, parent: None, inputs: vec![inp] }));
    let op_reg = cmt.add_op(OpEnum::SeqCompReg(SeqCompReg {
        id: 0,
        parent: None,
        input: Some(inp),
        output: Some(reg_out),
        clk: Some(clk),
        reset: None,
        reset_val: None,
    }));
    let op_out =
        cmt.add_op(OpEnum::HwOutput(HwOutput { id: 0, parent: None, outputs: vec![reg_out] }));
    let body = region_of(&mut cmt, vec![op_in, op_reg, op_out]);
    let top = module_op(&mut cmt, body, true, "delay");

    let itprt = Interpreter::from_hw_module(&cmt, top).unwrap();

    assert_eq!(itprt.events.len(), 4);
    match &itprt.events[0] {
        Event::ListenChannel(lc) => {
            assert_eq!(lc.values, vec![0]);
            assert_eq!(lc.channels, vec![0]);
        },
        other => panic!("expected a listening channel, got {:?}", other),
    }
    match &itprt.events[1] {
        Event::LdReg(ld) => assert_eq!(ld.regs, vec![1]),
        other => panic!("expected a register read, got {:?}", other),
    }
    match &itprt.events[2] {
        Event::StReg(st) => {
            assert_eq!(st.values, vec![0]);
            assert_eq!(st.regs, vec![1]);
        },
        other => panic!("expected a register write, got {:?}", other),
    }
    match &itprt.events[3] {
        Event::WriteChannel(wc) => {
            assert_eq!(wc.values, vec![1]);
            assert_eq!(wc.channels, vec![1]);
        },
        other => panic!("expected a writing channel, got {:?}", other),
    }
    assert_eq!(itprt.values.len(), 2);
    assert_eq!(itprt.channels.len(), 2);
    // The storage cells start out as zero.
    assert_eq!(itprt.channels[0].data.value, num_bigint::BigUint::default());
}

#[test]
fn instance_inlining_produces_no_boundary_channels() {
    let mut cmt = CmtIR::new();
    // The submodule: out := in, ports declared before the body logic.
    let s_in = wire(&mut cmt, 4);
    let s_out = wire(&mut cmt, 4);
    let sub_in = cmt.add_op(OpEnum::HwInput(HwInput { id: 0, parent: None, inputs: vec![s_in] }));
    let sub_out =
        cmt.add_op(OpEnum::HwOutput(HwOutput { id: 0, parent: None, outputs: vec![s_out] }));
    let assign = cmt.add_op(OpEnum::Comb(CombOp {
        id: 0,
        parent: None,
        kind: CombKind::Assign,
        uses: vec![s_in],
        defs: vec![s_out],
    }));
    let sub_body = region_of(&mut cmt, vec![sub_in, sub_out, assign]);
    let sub = module_op(&mut cmt, sub_body, false, "pass");

    // The top module instantiates it once.
    let t_in = wire(&mut cmt, 4);
    let t_out = wire(&mut cmt, 4);
    let top_in = cmt.add_op(OpEnum::HwInput(HwInput { id: 0, parent: None, inputs: vec![t_in] }));
    let inst = cmt.add_op(OpEnum::HwInstance(HwInstance {
        id: 0,
        parent: None,
        outputs: vec![t_out],
        inputs: vec![t_in],
        target_op_id: Some(sub),
        name: Some(StringAttr(String::from("pass_inst"))),
    }));
    let top_out =
        cmt.add_op(OpEnum::HwOutput(HwOutput { id: 0, parent: None, outputs: vec![t_out] }));
    let top_body = region_of(&mut cmt, vec![top_in, inst, top_out]);
    let top = module_op(&mut cmt, top_body, true, "top");

    let itprt = Interpreter::from_hw_module(&cmt, top).unwrap();

    let listens = itprt
        .events
        .iter()
        .filter(|e| matches!(e, Event::ListenChannel(_)))
        .count();
    let writes = itprt
        .events
        .iter()
        .filter(|e| matches!(e, Event::WriteChannel(_)))
        .count();
    assert_eq!(listens, 1);
    assert_eq!(writes, 1);
    // Only the top module's two ports are exposed.
    assert_eq!(itprt.channels.len(), 2);
    // The submodule's port wires alias the instantiation's actual wires.
    let flat_t_in = *itprt.reducer.hash_map.get(&t_in.0).unwrap();
    let flat_s_in = *itprt.reducer.hash_map.get(&s_in.0).unwrap();
    assert_eq!(flat_t_in, flat_s_in);
    let flat_t_out = *itprt.reducer.hash_map.get(&t_out.0).unwrap();
    let flat_s_out = *itprt.reducer.hash_map.get(&s_out.0).unwrap();
    assert_eq!(flat_t_out, flat_s_out);
}

#[test]
fn one_hot_select_with_default() {
    let mut cmt = CmtIR::new();
    let c0 = wire(&mut cmt, 1);
    let c1 = wire(&mut cmt, 1);
    let v0 = wire(&mut cmt, 8);
    let v1 = wire(&mut cmt, 8);
    let dflt = wire(&mut cmt, 8);
    let lhs = wire(&mut cmt, 8);
    let op_in = cmt.add_op(OpEnum::HwInput(HwInput {
        id: 0,
        parent: None,
        inputs: vec![c0, c1, v0, v1, dflt],
    }));
    let op_select = cmt.add_op(OpEnum::Select(Select {
        id: 0,
        parent: None,
        lhs: Some(lhs),
        default: Some(dflt),
        conds: vec![c0, c1],
        values: vec![v0, v1],
        onehot: Some(BoolAttr(true)),
    }));
    let op_out = cmt.add_op(OpEnum::HwOutput(HwOutput { id: 0, parent: None, outputs: vec![lhs] }));
    let body = region_of(&mut cmt, vec![op_in, op_select, op_out]);
    let top = module_op(&mut cmt, body, true, "selector");

    let mut itprt = Interpreter::from_hw_module(&cmt, top).unwrap();

    // One selector check over the conditions, then one selection.
    match &itprt.events[1] {
        Event::CondCheck(cc) => {
            assert_eq!(cc.conds, vec![0, 1]);
            assert_eq!(cc.result, 5);
            assert!(cc.onehot);
            assert!(cc.has_default);
        },
        other => panic!("expected a selector check, got {:?}", other),
    }
    // The dependency edge pairs the check with the selection.
    assert_eq!(itprt.dependency.dependency[1], vec![2]);
    match &mut itprt.events[2] {
        Event::Select(sel) => {
            assert_eq!(sel.get_uses(), vec![5, 2, 3, 4]);
            assert_eq!(sel.get_defs(), vec![6]);
            // Candidates and default first, decision last.
            sel.initialize();
            assert_eq!(sel.update(2), Ok(false));
            assert_eq!(sel.update(3), Ok(false));
            assert_eq!(sel.update(4), Ok(false));
            assert!(!sel.ready());
            assert_eq!(sel.update(5), Ok(true));
            assert!(sel.ready());
            // Decision first, candidates in another order.
            sel.initialize();
            assert_eq!(sel.update(5), Ok(false));
            assert!(!sel.ready());
            assert_eq!(sel.update(4), Ok(false));
            assert_eq!(sel.update(2), Ok(false));
            assert_eq!(sel.update(3), Ok(true));
            assert!(sel.ready());
        },
        other => panic!("expected a selection, got {:?}", other),
    }
}

#[test]
fn guard_merge_is_a_disjunction() {
    let mut cmt = CmtIR::new();
    let w = wire(&mut cmt, 1);
    let mut itprt = Interpreter::new();
    let idx = itprt.add_entity(&cmt, w, Condition::Value(10)).unwrap();
    assert_eq!(idx, 0);
    let again = itprt.add_entity(&cmt, w, Condition::Value(11)).unwrap();
    assert_eq!(again, 0);
    match &itprt.value_conds[0] {
        Condition::Or(children) => {
            assert_eq!(children.len(), 2);
            assert!(matches!(children[0], Condition::Value(10)));
            assert!(matches!(children[1], Condition::Value(11)));
        },
        other => panic!("expected a disjunction, got {:?}", other),
    }
    // A third write extends the same disjunction in place.
    itprt.add_entity(&cmt, w, Condition::Value(12)).unwrap();
    match &itprt.value_conds[0] {
        Condition::Or(children) => {
            assert_eq!(children.len(), 3);
            assert!(matches!(children[2], Condition::Value(12)));
        },
        other => panic!("expected a flattened disjunction, got {:?}", other),
    }
}

#[test]
fn guard_algebra_laws() {
    // Never is the identity of disjunction.
    let merged = Condition::Never.or(Condition::Value(3));
    assert!(matches!(merged, Condition::Value(3)));
    // Must absorbs.
    let absorbed = Condition::Must.or(Condition::Value(3));
    assert!(matches!(absorbed, Condition::Must));
    // Conjunction wraps both sides without simplification.
    let both = Condition::Value(1).and(Condition::Value(2));
    match both {
        Condition::And(children) => {
            assert_eq!(children.len(), 2);
            assert!(matches!(children[0], Condition::Value(1)));
            assert!(matches!(children[1], Condition::Value(2)));
        },
        other => panic!("expected a conjunction, got {:?}", other),
    }
}

#[test]
fn missing_top_module_is_fatal() {
    let mut cmt = CmtIR::new();
    let body = region_of(&mut cmt, vec![]);
    let not_top = module_op(&mut cmt, body, false, "inner");
    assert_eq!(
        Interpreter::from_hw_module(&cmt, not_top).err(),
        Some(StructuralViolation::MissingTopModule(not_top.0))
    );
    assert_eq!(
        Interpreter::from_hw_module(&cmt, OpId(99)).err(),
        Some(StructuralViolation::MissingTopModule(99))
    );
}

#[test]
fn register_reset_is_unsupported() {
    let mut cmt = CmtIR::new();
    let inp = wire(&mut cmt, 8);
    let out = wire(&mut cmt, 8);
    let clk = clk_wire(&mut cmt);
    let rst = wire(&mut cmt, 1);
    let op_reg = cmt.add_op(OpEnum::SeqCompReg(SeqCompReg {
        id: 0,
        parent: None,
        input: Some(inp),
        output: Some(out),
        clk: Some(clk),
        reset: Some(rst),
        reset_val: None,
    }));
    let body = region_of(&mut cmt, vec![op_reg]);
    let top = module_op(&mut cmt, body, true, "resetful");
    assert_eq!(
        Interpreter::from_hw_module(&cmt, top).err(),
        Some(StructuralViolation::RegisterReset(op_reg.0))
    );
}

#[test]
fn non_one_hot_selection_is_unsupported() {
    let mut cmt = CmtIR::new();
    let c0 = wire(&mut cmt, 1);
    let v0 = wire(&mut cmt, 8);
    let lhs = wire(&mut cmt, 8);
    let op_select = cmt.add_op(OpEnum::Select(Select {
        id: 0,
        parent: None,
        lhs: Some(lhs),
        default: None,
        conds: vec![c0],
        values: vec![v0],
        onehot: Some(BoolAttr(false)),
    }));
    let body = region_of(&mut cmt, vec![op_select]);
    let top = module_op(&mut cmt, body, true, "priority");
    assert_eq!(
        Interpreter::from_hw_module(&cmt, top).err(),
        Some(StructuralViolation::NonOneHotSelection(op_select.0))
    );
}

#[test]
fn uninterpreted_operations_are_unsupported() {
    let mut cmt = CmtIR::new();
    let lhs = wire(&mut cmt, 1);
    let op_event =
        cmt.add_op(OpEnum::EventDef(EventDef { id: 0, parent: None, lhs: Some(lhs) }));
    let body = region_of(&mut cmt, vec![op_event]);
    let top = module_op(&mut cmt, body, true, "evented");
    assert_eq!(
        Interpreter::from_hw_module(&cmt, top).err(),
        Some(StructuralViolation::UnsupportedOperation(op_event.0))
    );
}

#[test]
fn dangling_identifiers_are_malformed() {
    let mut cmt = CmtIR::new();
    let op_comb = cmt.add_op(OpEnum::Comb(CombOp {
        id: 0,
        parent: None,
        kind: CombKind::Variadic(CombVariadicPredicate::Add),
        uses: vec![EntityId(77)],
        defs: vec![],
    }));
    let body = region_of(&mut cmt, vec![op_comb]);
    let top = module_op(&mut cmt, body, true, "dangling");
    assert_eq!(
        Interpreter::from_hw_module(&cmt, top).err(),
        Some(StructuralViolation::MalformedOperation(77))
    );
}

#[test]
fn repeated_ports_in_one_region_are_fatal() {
    let mut cmt = CmtIR::new();
    let a = wire(&mut cmt, 1);
    let b = wire(&mut cmt, 1);
    let in_one = cmt.add_op(OpEnum::HwInput(HwInput { id: 0, parent: None, inputs: vec![a] }));
    let in_two = cmt.add_op(OpEnum::HwInput(HwInput { id: 0, parent: None, inputs: vec![b] }));
    let body = region_of(&mut cmt, vec![in_one, in_two]);
    let top = module_op(&mut cmt, body, true, "twice");
    assert_eq!(
        Interpreter::from_hw_module(&cmt, top).err(),
        Some(StructuralViolation::RepeatedInputPort(body.0))
    );
}

#[test]
fn cyclic_instantiation_hits_the_recursion_limit() {
    let mut cmt = CmtIR::new();
    // A module that instantiates itself, with no ports at all.
    let mut region = Region::new(false);
    let inst_id = OpId(1);
    region.add_op_child(inst_id).unwrap();
    let body = cmt.add_region(region);
    let top = module_op(&mut cmt, body, true, "ouroboros");
    let inst = cmt.add_op(OpEnum::HwInstance(HwInstance {
        id: 0,
        parent: None,
        outputs: vec![],
        inputs: vec![],
        target_op_id: Some(top),
        name: Some(StringAttr(String::from("me"))),
    }));
    assert_eq!(inst, inst_id);
    let outcome = Interpreter::from_hw_module(&cmt, top);
    assert!(matches!(outcome, Err(StructuralViolation::RecursionLimit(_))));
}

#[test]
fn cases_arms_recurse_under_their_condition() {
    let mut cmt = CmtIR::new();
    let c0 = wire(&mut cmt, 1);
    let c1 = wire(&mut cmt, 1);
    let y = wire(&mut cmt, 8);
    let w0 = wire(&mut cmt, 8);
    let w1 = wire(&mut cmt, 8);
    let op_in = cmt.add_op(OpEnum::HwInput(HwInput { id: 0, parent: None, inputs: vec![c0, c1] }));
    let op_const = cmt.add_op(OpEnum::Comb(CombOp {
        id: 0,
        parent: None,
        kind: CombKind::Constant(cmt_flatten::common::ConstantAttr(vec![true])),
        uses: vec![],
        defs: vec![y],
    }));
    // Both arms read the same wire, once under each arm's condition.
    let arm0 = cmt.add_op(OpEnum::Comb(CombOp {
        id: 0,
        parent: None,
        kind: CombKind::Assign,
        uses: vec![y],
        defs: vec![w0],
    }));
    let arm1 = cmt.add_op(OpEnum::Comb(CombOp {
        id: 0,
        parent: None,
        kind: CombKind::Assign,
        uses: vec![y],
        defs: vec![w1],
    }));
    let body0 = region_of(&mut cmt, vec![arm0]);
    let body1 = region_of(&mut cmt, vec![arm1]);
    let op_cases = cmt.add_op(OpEnum::Cases(Cases {
        id: 0,
        parent: None,
        conds: vec![c0, c1],
        onehot: Some(BoolAttr(true)),
        dflt: None,
        bodies: vec![body0, body1],
    }));
    let main = region_of(&mut cmt, vec![op_in, op_const, op_cases]);
    let top = module_op(&mut cmt, main, true, "cased");

    let itprt = Interpreter::from_hw_module(&cmt, top).unwrap();
    let flat_y = *itprt.reducer.hash_map.get(&y.0).unwrap();
    // Reached once under the first arm's guard and once under the second
    // arm's: the final guard is their disjunction, never an overwrite.
    match &itprt.value_conds[flat_y] {
        Condition::Or(children) => {
            assert_eq!(children.len(), 2);
            assert!(matches!(children[0], Condition::And(_)));
            assert!(matches!(children[1], Condition::And(_)));
        },
        other => panic!("expected a disjunction of arm guards, got {:?}", other),
    }
}

#[test]
fn dependency_edges_accumulate() {
    let mut dep = cmt_flatten::interp::Dependency::new();
    dep.add(3, 7).unwrap();
    assert_eq!(dep.dependency.len(), 4);
    assert_eq!(dep.dependency[3], vec![7]);
    assert_eq!(dep.max_from_idx, 3);
    dep.add(1, 2).unwrap();
    dep.add(3, 9).unwrap();
    assert_eq!(dep.dependency[3], vec![7, 9]);
    assert_eq!(dep.dependency[1], vec![2]);
}

#[test]
fn constant_bits_read_least_significant_first() {
    assert_eq!(from_bits_to_u32(vec![]), 0);
    assert_eq!(from_bits_to_u32(vec![true]), 1);
    assert_eq!(from_bits_to_u32(vec![false, true, true]), 6);
    assert_eq!(from_bits_to_u32(vec![true, false, false, true]), 9);
    assert_eq!(from_bits_to_u32(vec![true; 32]), u32::MAX);
}

#[test]
fn predicate_mnemonics() {
    assert_eq!(CombVariadicPredicate::Add.get_str(), "add");
    assert_eq!(CombVariadicPredicate::Xor.get_str(), "xor");
    assert_eq!(CombUnaryPredicate::Not.get_str(), "not");
    assert_eq!(CombBinaryPredicate::Shl.get_str(), "shl");
    assert_eq!(CombICmpPredicate::ULE.get_str(), "ule");
}
