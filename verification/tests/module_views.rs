//! The wire-by-wire module view: signatures, wire guards, and a printed
//! two-register startup design.

use cmt_flatten::common::ArrayAttr;
use cmt_flatten::common::AttributeEnum;
use cmt_flatten::common::BoolAttr;
use cmt_flatten::common::DataTypeEnum;
use cmt_flatten::common::StringAttr;
use cmt_flatten::common::TypeAttr;
use cmt_flatten::common::UIntType;
use cmt_flatten::error::StructuralViolation;
use cmt_flatten::ir::CmtIR;
use cmt_flatten::ir::EntityEnum;
use cmt_flatten::ir::EntityId;
use cmt_flatten::ir::HwInput;
use cmt_flatten::ir::HwModule;
use cmt_flatten::ir::HwOutput;
use cmt_flatten::ir::OpEnum;
use cmt_flatten::ir::OpId;
use cmt_flatten::ir::Region;
use cmt_flatten::ir::RegionId;
use cmt_flatten::ir::SeqCompReg;
use cmt_flatten::ir::Wire;
use cmt_flatten::module_view::ItprtGuard;
use cmt_flatten::module_view::ItprtMod;
use cmt_flatten::module_view::ItprtSig;
use cmt_flatten::module_view::ItprtWire;
use cmt_flatten::module_view::ItprtWireId;

fn wire(cmt: &mut CmtIR, dtype: DataTypeEnum) -> EntityId {
    cmt.add_entity(EntityEnum::Wire(Wire::new(Some(dtype), None, None)))
}

fn region_of(cmt: &mut CmtIR, ops: Vec<OpId>) -> RegionId {
    let mut region = Region::new(false);
    for op in ops {
        region.add_op_child(op).unwrap();
    }
    cmt.add_region(region)
}

fn delay2_design() -> (CmtIR, OpId) {
    let mut cmt = CmtIR::new();
    let clk = wire(&mut cmt, DataTypeEnum::Clk);
    let inp = wire(&mut cmt, DataTypeEnum::UInt(UIntType(8)));
    let r1 = wire(&mut cmt, DataTypeEnum::UInt(UIntType(8)));
    let r2 = wire(&mut cmt, DataTypeEnum::UInt(UIntType(8)));
    let op_in =
        cmt.add_op(OpEnum::HwInput(HwInput { id: 0, parent: None, inputs: vec![clk, inp] }));
    let reg1 = cmt.add_op(OpEnum::SeqCompReg(SeqCompReg {
        id: 0,
        parent: None,
        input: Some(inp),
        output: Some(r1),
        clk: Some(clk),
        reset: None,
        reset_val: None,
    }));
    let reg2 = cmt.add_op(OpEnum::SeqCompReg(SeqCompReg {
        id: 0,
        parent: None,
        input: Some(r1),
        output: Some(r2),
        clk: Some(clk),
        reset: None,
        reset_val: None,
    }));
    let op_out = cmt.add_op(OpEnum::HwOutput(HwOutput { id: 0, parent: None, outputs: vec![r2] }));
    let body = region_of(&mut cmt, vec![op_in, reg1, reg2, op_out]);
    let top = cmt.add_op(OpEnum::HwModule(HwModule {
        id: 0,
        parent: None,
        name: Some(StringAttr(String::from("Delay2"))),
        top: Some(BoolAttr(true)),
        arg_names: Some(ArrayAttr(vec![
            AttributeEnum::StringAttr(StringAttr(String::from("clk"))),
            AttributeEnum::StringAttr(StringAttr(String::from("inp"))),
        ])),
        arg_types: Some(ArrayAttr(vec![
            AttributeEnum::TypeAttr(TypeAttr(DataTypeEnum::Clk)),
            AttributeEnum::TypeAttr(TypeAttr(DataTypeEnum::UInt(UIntType(8)))),
        ])),
        output_names: Some(ArrayAttr(vec![AttributeEnum::StringAttr(StringAttr(String::from(
            "outp",
        )))])),
        output_types: Some(ArrayAttr(vec![AttributeEnum::TypeAttr(TypeAttr(
            DataTypeEnum::UInt(UIntType(8)),
        ))])),
        body: Some(body),
    }));
    (cmt, top)
}

#[test]
fn print_startup() {
    let (cmt, top) = delay2_design();
    let itprt_mod = ItprtMod::from_cmt(&cmt, top).unwrap();
    println!("{:#?}", itprt_mod)
}

#[test]
fn delay2_view_records_ports_and_registers() {
    let (cmt, top) = delay2_design();
    let viewed = ItprtMod::from_cmt(&cmt, top).unwrap();
    assert_eq!(viewed.sig.name, "Delay2");
    assert_eq!(viewed.sig.arg_names, vec![String::from("clk"), String::from("inp")]);
    assert_eq!(viewed.sig.output_names, vec![String::from("outp")]);
    // Ports renumbered densely in order of first appearance: clk 0, inp 1.
    assert_eq!(viewed.inputs, vec![ItprtWireId(0), ItprtWireId(1)]);
    assert_eq!(viewed.registers.len(), 2);
    // The first register stores inp into r1, the second r1 into r2.
    assert_eq!(viewed.registers[0].input.0, 1);
    assert_eq!(viewed.registers[0].output.0, 2);
    assert_eq!(viewed.registers[1].input.0, 2);
    assert_eq!(viewed.registers[1].output.0, 3);
    assert_eq!(viewed.outputs, vec![ItprtWireId(3)]);
}

#[test]
fn repeated_output_port_is_fatal_in_the_view() {
    let mut cmt = CmtIR::new();
    let a = wire(&mut cmt, DataTypeEnum::UInt(UIntType(1)));
    let out_one = cmt.add_op(OpEnum::HwOutput(HwOutput { id: 0, parent: None, outputs: vec![a] }));
    let out_two = cmt.add_op(OpEnum::HwOutput(HwOutput { id: 0, parent: None, outputs: vec![a] }));
    let body = region_of(&mut cmt, vec![out_one, out_two]);
    let top = cmt.add_op(OpEnum::HwModule(HwModule {
        id: 0,
        parent: None,
        name: Some(StringAttr(String::from("twice"))),
        top: Some(BoolAttr(true)),
        arg_names: Some(ArrayAttr(vec![])),
        arg_types: Some(ArrayAttr(vec![])),
        output_names: Some(ArrayAttr(vec![])),
        output_types: Some(ArrayAttr(vec![])),
        body: Some(body),
    }));
    let outcome = ItprtMod::from_cmt(&cmt, top);
    assert!(matches!(outcome, Err(StructuralViolation::RepeatedOutputPort(r)) if r == body.0));
}

#[test]
fn signature_requires_well_typed_attributes() {
    let name = Some(StringAttr(String::from("m")));
    let names = Some(ArrayAttr(vec![AttributeEnum::StringAttr(StringAttr(String::from("a")))]));
    let types = Some(ArrayAttr(vec![AttributeEnum::TypeAttr(TypeAttr(DataTypeEnum::UInt(
        UIntType(1),
    )))]));
    let sig = ItprtSig::new(OpId(4), &name, &names, &types, &names, &types).unwrap();
    assert_eq!(sig.op_id, OpId(4));
    assert_eq!(sig.name, "m");
    assert_eq!(sig.arg_names, vec![String::from("a")]);
    assert_eq!(sig.arg_types.len(), 1);

    // A missing attribute fails.
    let missing = ItprtSig::new(OpId(4), &None, &names, &types, &names, &types);
    assert!(matches!(missing, Err(StructuralViolation::MalformedOperation(4))));
    // A wrongly typed entry fails.
    let wrong = ItprtSig::new(OpId(4), &name, &types, &types, &names, &types);
    assert!(matches!(wrong, Err(StructuralViolation::MalformedOperation(4))));
}

#[test]
fn wire_guards_merge_by_disjunction() {
    let mut this = empty_view();
    this.add_wire(
        EntityId(2),
        DataTypeEnum::UInt(UIntType(1)),
        ItprtGuard::Wire(ItprtWireId(0)),
    )
    .unwrap();
    assert_eq!(this.wires.len(), 3);
    assert!(this.wires[0].empty);
    assert!(!this.wires[2].empty);
    // The recorded wire keeps the data type it was recorded with.
    assert!(matches!(this.wires[2].data_type, DataTypeEnum::UInt(UIntType(1))));
    assert!(matches!(this.wire_guards[2], ItprtGuard::Wire(ItprtWireId(0))));
    // A clock wire is ignored.
    this.add_wire(EntityId(9), DataTypeEnum::Clk, ItprtGuard::Free).unwrap();
    assert_eq!(this.wires.len(), 3);
    // A second write merges by disjunction, never overwrites.
    this.add_wire(
        EntityId(2),
        DataTypeEnum::UInt(UIntType(1)),
        ItprtGuard::Wire(ItprtWireId(1)),
    )
    .unwrap();
    match &this.wire_guards[2] {
        ItprtGuard::Or(children) => {
            assert_eq!(children.len(), 2);
            assert!(matches!(children[0], ItprtGuard::Wire(ItprtWireId(0))));
            assert!(matches!(children[1], ItprtGuard::Wire(ItprtWireId(1))));
        },
        other => panic!("expected a disjunction, got {:?}", other),
    }
}

#[test]
fn view_records_selection_with_dependency_edge() {
    let mut cmt = CmtIR::new();
    let c0 = wire(&mut cmt, DataTypeEnum::UInt(UIntType(1)));
    let v0 = wire(&mut cmt, DataTypeEnum::UInt(UIntType(8)));
    let lhs = wire(&mut cmt, DataTypeEnum::UInt(UIntType(8)));
    let op_in =
        cmt.add_op(OpEnum::HwInput(HwInput { id: 0, parent: None, inputs: vec![c0, v0] }));
    let op_select = cmt.add_op(OpEnum::Select(cmt_flatten::ir::Select {
        id: 0,
        parent: None,
        lhs: Some(lhs),
        default: None,
        conds: vec![c0],
        values: vec![v0],
        onehot: Some(BoolAttr(true)),
    }));
    let body = region_of(&mut cmt, vec![op_in, op_select]);
    let top = cmt.add_op(OpEnum::HwModule(HwModule {
        id: 0,
        parent: None,
        name: Some(StringAttr(String::from("chooser"))),
        top: Some(BoolAttr(true)),
        arg_names: Some(ArrayAttr(vec![])),
        arg_types: Some(ArrayAttr(vec![])),
        output_names: Some(ArrayAttr(vec![])),
        output_types: Some(ArrayAttr(vec![])),
        body: Some(body),
    }));
    let viewed = ItprtMod::from_cmt(&cmt, top).unwrap();
    // The selector check and the selection stand consecutively.
    assert_eq!(viewed.ops.len(), 2);
    assert!(matches!(viewed.ops[0].op, OpEnum::ItprtCondCheck(_)));
    assert!(matches!(viewed.ops[1].op, OpEnum::Select(_)));
    // The explicit dependency edge pairs the two positions.
    assert_eq!(viewed.dependency.dependency[0], vec![1]);
}

#[test]
fn view_guard_merge_short_circuits() {
    // The not-yet-driven guard is the identity of the merge.
    let merged = ItprtGuard::Free.or(ItprtGuard::Wire(ItprtWireId(3)));
    assert!(matches!(merged, ItprtGuard::Wire(ItprtWireId(3))));
    // A repeated merge extends the existing disjunction instead of nesting.
    let extended = ItprtGuard::Wire(ItprtWireId(0))
        .or(ItprtGuard::Wire(ItprtWireId(1)))
        .or(ItprtGuard::Wire(ItprtWireId(2)));
    match &extended {
        ItprtGuard::Or(children) => {
            assert_eq!(children.len(), 3);
            assert!(matches!(children[0], ItprtGuard::Wire(ItprtWireId(0))));
            assert!(matches!(children[2], ItprtGuard::Wire(ItprtWireId(2))));
        },
        other => panic!("expected a flattened disjunction, got {:?}", other),
    }
}

#[test]
fn placeholder_wires_are_empty() {
    let slot = ItprtWire::default();
    assert!(slot.empty);
    assert_eq!(slot.idx, 0);
    let real = ItprtWire::new(DataTypeEnum::UInt(UIntType(3)), 7);
    assert!(!real.empty);
    assert_eq!(real.idx, 7);
}

fn empty_view() -> ItprtMod {
    let (cmt, top) = delay2_design();
    let mut viewed = ItprtMod::from_cmt(&cmt, top).unwrap();
    viewed.wires = Vec::new();
    viewed.wire_guards = Vec::new();
    viewed
}
