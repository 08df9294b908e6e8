//! The wire-by-wire view of one module: a flat table of wires with their
//! guards, the registers, the inlined instances, and the operations in a
//! densely renumbered form.
//!
//! This view renumbers every structural identifier in order of first
//! appearance and records, per wire, the disjunction of the guards of all
//! writes that target it; arms of a region-bodied selection contribute
//! their writes under the guard of their condition.

use vstd::prelude::*;

use crate::common::AttributeEnum;
use crate::common::ArrayAttr;
use crate::common::BoolAttr;
use crate::common::DataTypeEnum;
use crate::common::StringAttr;
use crate::common::UIntType;
use crate::error::StructuralViolation;
use crate::guard::GuardShape;
use crate::guard::spec_or;
use crate::interp::Dependency;
use crate::ir::Cases;
use crate::ir::CmtIR;
use crate::ir::CombOp;
use crate::ir::EntityId;
use crate::ir::ItprtCondCheck;
use crate::ir::OpEnum;
use crate::ir::OpId;
use crate::ir::RegionId;
use crate::ir::Select;
use crate::reducer::IdReducer;

verus! {

/// A clock identity in the dense renumbering.
#[derive(Clone, Copy, Debug, PartialEq, Eq, Structural)]
pub struct ItprtClk(pub usize);

/// The signature of a viewed module: its name and the names and types of
/// its ports.
#[derive(Debug)]
pub struct ItprtSig {
    /// The module operation this signature was read from.
    pub op_id: OpId,
    /// The module's name.
    pub name: String,
    /// The input port names, in port order.
    pub arg_names: Vec<String>,
    /// The input port types, in port order.
    pub arg_types: Vec<DataTypeEnum>,
    /// The output port names, in port order.
    pub output_names: Vec<String>,
    /// The output port types, in port order.
    pub output_types: Vec<DataTypeEnum>,
}

/// The strings of a list of string attributes; fails on any other
/// attribute kind.
fn extract_names(attrs: &Vec<AttributeEnum>, who: usize) -> (r: Result<
    Vec<String>,
    StructuralViolation,
>)
    ensures
        r is Ok <==> (forall|i: int| 0 <= i < attrs@.len() ==> (#[trigger] attrs@[i]) is StringAttr),
        match r {
            Ok(names) => names@.len() == attrs@.len() && (forall|i: int|
                0 <= i < attrs@.len() ==> ((#[trigger] attrs@[i])
                    matches AttributeEnum::StringAttr(sa) && names@[i] == sa.0)),
            Err(v) => v == StructuralViolation::MalformedOperation(who),
        },
{
    let mut out: Vec<String> = Vec::new();
    let mut i: usize = 0;
    while i < attrs.len()
        invariant
            i <= attrs@.len(),
            out@.len() == i,
            forall|k: int|
                0 <= k < i ==> ((#[trigger] attrs@[k]) matches AttributeEnum::StringAttr(sa)
                    && out@[k] == sa.0),
        decreases attrs@.len() - i,
    {
        match &attrs[i] {
            AttributeEnum::StringAttr(sa) => out.push(sa.0.clone()),
            _ => {
                return Err(StructuralViolation::MalformedOperation(who));
            },
        }
        i = i + 1;
    }
    Ok(out)
}

/// The data types of a list of type attributes; fails on any other
/// attribute kind.
fn extract_types(attrs: &Vec<AttributeEnum>, who: usize) -> (r: Result<
    Vec<DataTypeEnum>,
    StructuralViolation,
>)
    ensures
        r is Ok <==> (forall|i: int| 0 <= i < attrs@.len() ==> (#[trigger] attrs@[i]) is TypeAttr),
        match r {
            Ok(types) => types@.len() == attrs@.len() && (forall|i: int|
                0 <= i < attrs@.len() ==> ((#[trigger] attrs@[i]) matches AttributeEnum::TypeAttr(
                    ta,
                ) && types@[i]@ == ta.0@)),
            Err(v) => v == StructuralViolation::MalformedOperation(who),
        },
{
    let mut out: Vec<DataTypeEnum> = Vec::new();
    let mut i: usize = 0;
    while i < attrs.len()
        invariant
            i <= attrs@.len(),
            out@.len() == i,
            forall|k: int|
                0 <= k < i ==> ((#[trigger] attrs@[k]) matches AttributeEnum::TypeAttr(ta)
                    && out@[k]@ == ta.0@),
        decreases attrs@.len() - i,
    {
        match &attrs[i] {
            AttributeEnum::TypeAttr(ta) => out.push(ta.0.duplicate()),
            _ => {
                return Err(StructuralViolation::MalformedOperation(who));
            },
        }
        i = i + 1;
    }
    Ok(out)
}

impl ItprtSig {
    /// Read a signature out of a module's attributes; every attribute must
    /// be present and of the right kind.
    pub fn new(
        op_id: OpId,
        name: &Option<StringAttr>,
        arg_names: &Option<ArrayAttr>,
        arg_types: &Option<ArrayAttr>,
        output_names: &Option<ArrayAttr>,
        output_types: &Option<ArrayAttr>,
    ) -> (r: Result<ItprtSig, StructuralViolation>)
        ensures
            r is Ok <==> ({
                &&& name is Some && arg_names is Some && arg_types is Some && output_names is Some
                    && output_types is Some
                &&& (forall|i: int|
                    0 <= i < arg_names->Some_0.0@.len() ==> (#[trigger] arg_names->Some_0.0@[i])
                        is StringAttr)
                &&& (forall|i: int|
                    0 <= i < arg_types->Some_0.0@.len() ==> (#[trigger] arg_types->Some_0.0@[i])
                        is TypeAttr)
                &&& (forall|i: int|
                    0 <= i < output_names->Some_0.0@.len() ==> (
                    #[trigger] output_names->Some_0.0@[i]) is StringAttr)
                &&& (forall|i: int|
                    0 <= i < output_types->Some_0.0@.len() ==> (
                    #[trigger] output_types->Some_0.0@[i]) is TypeAttr)
            }),
            match r {
                Ok(sig) => ({
                    &&& sig.op_id == op_id
                    &&& (name matches Some(sa) && sig.name == sa.0)
                    &&& (arg_names matches Some(an) && sig.arg_names@.len() == an.0@.len() && (
                    forall|i: int|
                        0 <= i < an.0@.len() ==> ((#[trigger] an.0@[i])
                            matches AttributeEnum::StringAttr(sa2) && sig.arg_names@[i]
                            == sa2.0)))
                    &&& (arg_types matches Some(at) && sig.arg_types@.len() == at.0@.len() && (
                    forall|i: int|
                        0 <= i < at.0@.len() ==> ((#[trigger] at.0@[i])
                            matches AttributeEnum::TypeAttr(ta2) && sig.arg_types@[i]@
                            == ta2.0@)))
                    &&& (output_names matches Some(on) && sig.output_names@.len() == on.0@.len()
                        && (forall|i: int|
                        0 <= i < on.0@.len() ==> ((#[trigger] on.0@[i])
                            matches AttributeEnum::StringAttr(sa2) && sig.output_names@[i]
                            == sa2.0)))
                    &&& (output_types matches Some(ot) && sig.output_types@.len() == ot.0@.len()
                        && (forall|i: int|
                        0 <= i < ot.0@.len() ==> ((#[trigger] ot.0@[i])
                            matches AttributeEnum::TypeAttr(ta2) && sig.output_types@[i]@
                            == ta2.0@)))
                }),
                Err(v) => v == StructuralViolation::MalformedOperation(op_id.0),
            },
    {
        match (name, arg_names, arg_types, output_names, output_types) {
            (Some(name), Some(arg_names), Some(arg_types), Some(output_names), Some(output_types)) => {
                let parsed_arg_names = match extract_names(&arg_names.0, op_id.0) {
                    Ok(names) => names,
                    Err(v) => {
                        return Err(v);
                    },
                };
                let parsed_arg_types = match extract_types(&arg_types.0, op_id.0) {
                    Ok(types) => types,
                    Err(v) => {
                        return Err(v);
                    },
                };
                let parsed_output_names = match extract_names(&output_names.0, op_id.0) {
                    Ok(names) => names,
                    Err(v) => {
                        return Err(v);
                    },
                };
                let parsed_output_types = match extract_types(&output_types.0, op_id.0) {
                    Ok(types) => types,
                    Err(v) => {
                        return Err(v);
                    },
                };
                Ok(
                    ItprtSig {
                        op_id,
                        name: name.0.clone(),
                        arg_names: parsed_arg_names,
                        arg_types: parsed_arg_types,
                        output_names: parsed_output_names,
                        output_types: parsed_output_types,
                    },
                )
            },
            _ => Err(StructuralViolation::MalformedOperation(op_id.0)),
        }
    }
}

/// A wire identity in the dense renumbering.
#[derive(Clone, Copy, Debug, PartialEq, Eq, Structural)]
pub struct ItprtWireId(pub usize);

/// One wire of the viewed module: its dense index and data type, or an
/// empty placeholder where no wire has been recorded yet.
#[derive(Debug)]
pub struct ItprtWire {
    /// Whether this slot is still a placeholder.
    pub empty: bool,
    /// The wire's dense index.
    pub idx: usize,
    /// The wire's data type.
    pub data_type: DataTypeEnum,
}

impl ItprtWire {
    /// The placeholder slot.
    pub fn default() -> (r: ItprtWire)
        ensures
            r.empty == true,
            r.idx == 0,
            r.data_type == DataTypeEnum::UInt(UIntType(0)),
    {
        ItprtWire { empty: true, idx: 0, data_type: DataTypeEnum::UInt(UIntType(0)) }
    }

    /// A recorded wire.
    pub fn new(data_type: DataTypeEnum, idx: usize) -> (r: ItprtWire)
        ensures
            r.empty == false,
            r.idx == idx,
            r.data_type == data_type,
    {
        ItprtWire { empty: false, idx, data_type }
    }
}

/// A register of the viewed module, by dense wire identities.
#[derive(Clone, Copy, Debug, PartialEq, Eq, Structural)]
pub struct ItprtReg {
    /// The register operation this was read from.
    pub op_id: OpId,
    /// The next-state wire.
    pub input: ItprtWireId,
    /// The current-state wire.
    pub output: ItprtWireId,
    /// The clock wire.
    pub clk: ItprtClk,
}

impl ItprtReg {
    /// A register from the reduced identifiers of its operation; every
    /// one of them must be present.
    pub fn new(
        op_id: OpId,
        input: Option<EntityId>,
        output: Option<EntityId>,
        clk: Option<EntityId>,
    ) -> (r: Result<ItprtReg, StructuralViolation>)
        ensures
            r is Ok <==> (input is Some && output is Some && clk is Some),
            match r {
                Ok(reg) => reg.op_id == op_id && reg.input.0 == input->Some_0.0 && reg.output.0
                    == output->Some_0.0 && reg.clk.0 == clk->Some_0.0,
                Err(v) => v == StructuralViolation::MalformedOperation(op_id.0),
            },
    {
        match (input, output, clk) {
            (Some(input), Some(output), Some(clk)) => Ok(
                ItprtReg {
                    op_id,
                    input: ItprtWireId(input.0),
                    output: ItprtWireId(output.0),
                    clk: ItprtClk(clk.0),
                },
            ),
            _ => Err(StructuralViolation::MalformedOperation(op_id.0)),
        }
    }
}

/// An inlined instance of the viewed module: its name, the view of the
/// instantiated module, and the caller-side wires of its ports.
#[derive(Debug)]
pub struct ItprtInst {
    /// The instance's name.
    pub name: String,
    /// The view of the instantiated module.
    pub target_mod: ItprtMod,
    /// The caller-side input wires, in port order.
    pub inputs: Vec<ItprtWireId>,
    /// The caller-side output wires, in port order.
    pub outputs: Vec<ItprtWireId>,
}

impl ItprtInst {
    /// An instance record; the instance must carry a name.
    pub fn new(
        name: Option<StringAttr>,
        target_mod: ItprtMod,
        inputs: Vec<EntityId>,
        outputs: Vec<EntityId>,
    ) -> (r: Result<ItprtInst, StructuralViolation>)
        ensures
            r is Ok <==> name is Some,
            match r {
                Ok(inst) => ({
                    &&& inst.name == name->Some_0.0
                    &&& inst.target_mod == target_mod
                    &&& inst.inputs@.len() == inputs@.len()
                    &&& inst.outputs@.len() == outputs@.len()
                    &&& (forall|i: int|
                        0 <= i < inputs@.len() ==> (#[trigger] inst.inputs@[i]).0
                            == inputs@[i].0)
                    &&& (forall|i: int|
                        0 <= i < outputs@.len() ==> (#[trigger] inst.outputs@[i]).0
                            == outputs@[i].0)
                }),
                Err(v) => v matches StructuralViolation::MalformedOperation(_),
            },
    {
        match name {
            Some(name) => {
                let mut wire_inputs: Vec<ItprtWireId> = Vec::new();
                let mut i: usize = 0;
                while i < inputs.len()
                    invariant
                        i <= inputs@.len(),
                        wire_inputs@.len() == i,
                        forall|k: int|
                            0 <= k < i ==> (#[trigger] wire_inputs@[k]).0 == inputs@[k].0,
                    decreases inputs@.len() - i,
                {
                    wire_inputs.push(ItprtWireId(inputs[i].0));
                    i = i + 1;
                }
                let mut wire_outputs: Vec<ItprtWireId> = Vec::new();
                let mut j: usize = 0;
                while j < outputs.len()
                    invariant
                        j <= outputs@.len(),
                        wire_outputs@.len() == j,
                        forall|k: int|
                            0 <= k < j ==> (#[trigger] wire_outputs@[k]).0 == outputs@[k].0,
                    decreases outputs@.len() - j,
                {
                    wire_outputs.push(ItprtWireId(outputs[j].0));
                    j = j + 1;
                }
                Ok(
                    ItprtInst {
                        name: name.0,
                        target_mod,
                        inputs: wire_inputs,
                        outputs: wire_outputs,
                    },
                )
            },
            None => Err(StructuralViolation::MalformedOperation(0)),
        }
    }
}

/// A per-wire guard of the viewed module, merged by the same short-circuit
/// disjunction as the traversal's guard algebra: the not-yet-driven guard
/// is the identity and an existing disjunction is extended in place.
#[derive(Debug)]
pub enum ItprtGuard {
    /// No guard recorded yet.
    Free,
    /// Active iff the wire with this dense identity is true.
    Wire(ItprtWireId),
    /// Conjunction of the children.
    And(Vec<ItprtGuard>),
    /// Disjunction of the children.
    Or(Vec<ItprtGuard>),
    /// Negation of the child.
    Not(Box<ItprtGuard>),
}

impl View for ItprtGuard {
    type V = GuardShape;

    open spec fn view(&self) -> GuardShape
        decreases self,
    {
        match self {
            ItprtGuard::Free => GuardShape::Never,
            ItprtGuard::Wire(w) => GuardShape::Value(w.0),
            ItprtGuard::And(gs) => GuardShape::And(iguard_shapes_of(gs@)),
            ItprtGuard::Or(gs) => GuardShape::Or(iguard_shapes_of(gs@)),
            ItprtGuard::Not(g) => GuardShape::Not(Box::new((**g)@)),
        }
    }
}

/// The shapes of a list of wire guards, in order.
pub open spec fn iguard_shapes_of(s: Seq<ItprtGuard>) -> Seq<GuardShape>
    decreases s,
{
    if s.len() == 0 {
        Seq::empty()
    } else {
        iguard_shapes_of(s.subrange(0, s.len() - 1)).push(s[s.len() - 1]@)
    }
}

/// `iguard_shapes_of` maps the list pointwise.
pub proof fn lemma_iguard_shapes_of(s: Seq<ItprtGuard>)
    ensures
        iguard_shapes_of(s).len() == s.len(),
        forall|i: int| 0 <= i < s.len() ==> iguard_shapes_of(s)[i] == #[trigger] s[i]@,
    decreases s.len(),
{
    if s.len() > 0 {
        let sub = s.subrange(0, s.len() - 1);
        lemma_iguard_shapes_of(sub);
        assert(iguard_shapes_of(s) == iguard_shapes_of(sub).push(s[s.len() - 1]@));
        assert forall|i: int| 0 <= i < s.len() implies iguard_shapes_of(s)[i] == #[trigger] s[i]@ by {
            if i < s.len() - 1 {
                assert(sub[i] == s[i]);
                assert(iguard_shapes_of(s)[i] == iguard_shapes_of(sub)[i]);
            }
        }
    }
}

/// Appending a guard to a list appends its shape to the list's shapes.
pub proof fn lemma_iguard_shapes_of_push(s: Seq<ItprtGuard>, g: ItprtGuard)
    ensures
        iguard_shapes_of(s.push(g)) == iguard_shapes_of(s).push(g@),
{
    assert(s.push(g).subrange(0, s.push(g).len() - 1) =~= s);
}

impl ItprtGuard {
    /// Merge `that` into `self` as a disjunction: the not-yet-driven guard
    /// gives way to `that`, an existing disjunction is extended in place,
    /// and any other guard pairs with `that` in a fresh `Or` node; the
    /// shape of the result is exactly `spec_or` of the two shapes.
    pub fn or(self, that: ItprtGuard) -> (r: ItprtGuard)
        ensures
            r@ == spec_or(self@, that@),
    {
        let ghost b = that@;
        let ghost that_value = that;
        match self {
            ItprtGuard::Free => that,
            ItprtGuard::Or(mut gs) => {
                let ghost old_gs = gs@;
                gs.push(that);
                proof {
                    lemma_iguard_shapes_of_push(old_gs, that_value);
                }
                ItprtGuard::Or(gs)
            },
            other => {
                let ghost a = other@;
                let children = vec![other, that];
                proof {
                    lemma_iguard_shapes_of(children@);
                    assert(iguard_shapes_of(children@) =~= seq![a, b]);
                }
                ItprtGuard::Or(children)
            },
        }
    }

    /// Conjoin `that` to `self`: always a fresh two-child `And` node.
    pub fn and(self, that: ItprtGuard) -> (r: ItprtGuard)
        ensures
            r@ == GuardShape::And(seq![self@, that@]),
    {
        let ghost a = self@;
        let ghost b = that@;
        let children = vec![self, that];
        proof {
            lemma_iguard_shapes_of(children@);
            assert(iguard_shapes_of(children@) =~= seq![a, b]);
        }
        ItprtGuard::And(children)
    }

    /// A structurally identical copy of the guard tree.
    pub fn duplicate(&self) -> (r: ItprtGuard)
        ensures
            r@ == self@,
        decreases self,
    {
        match self {
            ItprtGuard::Free => ItprtGuard::Free,
            ItprtGuard::Wire(w) => ItprtGuard::Wire(*w),
            ItprtGuard::And(gs) => {
                let copies = duplicate_iguards(gs);
                proof {
                    lemma_iguard_shapes_of(copies@);
                    lemma_iguard_shapes_of(gs@);
                    assert forall|i: int| 0 <= i < gs@.len()
                        implies iguard_shapes_of(copies@)[i] == iguard_shapes_of(gs@)[i] by {
                        assert(copies@[i]@ == gs@[i]@);
                    }
                    assert(iguard_shapes_of(copies@) =~= iguard_shapes_of(gs@));
                }
                ItprtGuard::And(copies)
            },
            ItprtGuard::Or(gs) => {
                let copies = duplicate_iguards(gs);
                proof {
                    lemma_iguard_shapes_of(copies@);
                    lemma_iguard_shapes_of(gs@);
                    assert forall|i: int| 0 <= i < gs@.len()
                        implies iguard_shapes_of(copies@)[i] == iguard_shapes_of(gs@)[i] by {
                        assert(copies@[i]@ == gs@[i]@);
                    }
                    assert(iguard_shapes_of(copies@) =~= iguard_shapes_of(gs@));
                }
                ItprtGuard::Or(copies)
            },
            ItprtGuard::Not(g) => ItprtGuard::Not(Box::new(g.duplicate())),
        }
    }
}

/// A structurally identical copy of a wire-guard list.
fn duplicate_iguards(gs: &Vec<ItprtGuard>) -> (r: Vec<ItprtGuard>)
    ensures
        r@.len() == gs@.len(),
        forall|i: int| 0 <= i < gs@.len() ==> r@[i]@ == #[trigger] gs@[i]@,
    decreases gs,
{
    let mut out: Vec<ItprtGuard> = Vec::new();
    let mut i: usize = 0;
    while i < gs.len()
        invariant
            i <= gs@.len(),
            out@.len() == i,
            forall|k: int| 0 <= k < i ==> out@[k]@ == #[trigger] gs@[k]@,
        decreases gs@.len() - i,
    {
        let g = gs[i].duplicate();
        out.push(g);
        i = i + 1;
    }
    out
}

/// One renumbered operation of the viewed module.
#[derive(Debug)]
pub struct ItprtOp {
    /// The operation's position among the module's recorded operations.
    pub idx: usize,
    /// The operation, with densely renumbered identifiers.
    pub op: OpEnum,
}

impl ItprtOp {
    /// Record an operation under its position.
    pub fn new(idx: usize, op: OpEnum) -> (r: ItprtOp)
        ensures
            r.idx == idx,
            r.op == op,
    {
        ItprtOp { idx, op }
    }
}


/// The wire-by-wire view of one module.
#[derive(Debug)]
pub struct ItprtMod {
    /// The module's signature.
    pub sig: ItprtSig,
    /// The dense identities of the input port wires.
    pub inputs: Vec<ItprtWireId>,
    /// The dense identities of the output port wires.
    pub outputs: Vec<ItprtWireId>,
    /// The inlined instances.
    pub instances: Vec<ItprtInst>,
    /// The registers.
    pub registers: Vec<ItprtReg>,
    /// The wire table, indexed by dense wire identity.
    pub wires: Vec<ItprtWire>,
    /// The renumbered operations, in order.
    pub ops: Vec<ItprtOp>,
    /// Edges from each selector check to its paired selection.
    pub dependency: Dependency,
    /// The guard of each wire, index for index with the wire table.
    pub wire_guards: Vec<ItprtGuard>,
}

/// A copy of a list of reduced identifiers.
fn copy_entity_ids(ids: &Vec<EntityId>) -> (r: Vec<EntityId>)
    ensures
        r@ == ids@,
{
    let mut out: Vec<EntityId> = Vec::new();
    let mut i: usize = 0;
    while i < ids.len()
        invariant
            i <= ids@.len(),
            out@ == ids@.subrange(0, i as int),
        decreases ids@.len() - i,
    {
        out.push(ids[i]);
        i = i + 1;
    }
    proof {
        assert(out@ =~= ids@);
    }
    out
}

/// The dense identifiers of a list of structural identifiers, allocated in
/// order of first appearance.
fn reduce_entities(reducer: &mut IdReducer, ids: &Vec<EntityId>) -> (r: Vec<EntityId>)
    ensures
        r@.len() == ids@.len(),
        final(reducer).op_set@ == old(reducer).op_set@,
{
    let mut out: Vec<EntityId> = Vec::new();
    let mut i: usize = 0;
    while i < ids.len()
        invariant
            i <= ids@.len(),
            out@.len() == i,
            reducer.op_set@ == old(reducer).op_set@,
        decreases ids@.len() - i,
    {
        let dense = reducer.reduce_entity(ids[i]);
        out.push(EntityId(dense));
        i = i + 1;
    }
    out
}

/// The data types of a list of entities; fails where an entity is missing
/// or has no data type.
fn collect_dtypes(env: &CmtIR, ids: &Vec<EntityId>, who: usize) -> (r: Result<
    Vec<DataTypeEnum>,
    StructuralViolation,
>)
    ensures
        match r {
            Ok(types) => types@.len() == ids@.len() && (forall|i: int|
                0 <= i < ids@.len() ==> ((#[trigger] ids@[i]).0 < env.entities@.len() && (
                env.entities@[ids@[i].0 as int].spec_dtype() matches Some(d0) && types@[i]@
                    == d0@))),
            Err(v) => v matches StructuralViolation::MalformedOperation(_),
        },
{
    let mut out: Vec<DataTypeEnum> = Vec::new();
    let mut i: usize = 0;
    while i < ids.len()
        invariant
            i <= ids@.len(),
            out@.len() == i,
            forall|k: int|
                0 <= k < i ==> ((#[trigger] ids@[k]).0 < env.entities@.len() && (
                env.entities@[ids@[k].0 as int].spec_dtype() matches Some(d0) && out@[k]@
                    == d0@)),
        decreases ids@.len() - i,
    {
        match env.get_entity(ids[i]) {
            Some(record) => match record.get_dtype() {
                Some(dtype) => out.push(dtype),
                None => {
                    return Err(StructuralViolation::MalformedOperation(who));
                },
            },
            None => {
                return Err(StructuralViolation::MalformedOperation(who));
            },
        }
        i = i + 1;
    }
    Ok(out)
}

/// The placeholder standing in a wire slot no recording has reached.
pub open spec fn placeholder_wire() -> ItprtWire {
    ItprtWire { empty: true, idx: 0, data_type: DataTypeEnum::UInt(UIntType(0)) }
}

/// What recording one wire under a guard does to the wire table and the
/// guard table: a clock wire changes nothing; a fresh slot is grown with
/// placeholders as needed and takes the wire and the guard; an occupied
/// slot keeps its wire and its guard gains the new guard as a disjunct.
pub open spec fn spec_record_wire(
    wires: Seq<ItprtWire>,
    guards: Seq<GuardShape>,
    e: EntityId,
    d: DataTypeEnum,
    g: GuardShape,
) -> Option<(Seq<ItprtWire>, Seq<GuardShape>)> {
    if d is Clk {
        Some((wires, guards))
    } else if e.0 >= usize::MAX {
        None
    } else if e.0 < wires.len() && !wires[e.0 as int].empty {
        Some((wires, guards.update(e.0 as int, spec_or(guards[e.0 as int], g))))
    } else {
        let grown = if wires.len() < e.0 + 1 {
            (e.0 + 1 - wires.len()) as nat
        } else {
            0nat
        };
        let gw = wires + Seq::new(grown, |i: int| placeholder_wire());
        let gg = guards + Seq::new(grown, |i: int| GuardShape::Never);
        Some(
            (
                gw.update(e.0 as int, ItprtWire { empty: false, idx: e.0, data_type: d }),
                gg.update(e.0 as int, g),
            ),
        )
    }
}

/// What recording a list of wires does, pair by pair, each under the same
/// guard: the fold of `spec_record_wire` over the zipped lists; surplus
/// elements of the longer list are ignored.
pub open spec fn spec_record_wires(
    wires: Seq<ItprtWire>,
    guards: Seq<GuardShape>,
    es: Seq<EntityId>,
    ds: Seq<DataTypeEnum>,
    g: GuardShape,
) -> Option<(Seq<ItprtWire>, Seq<GuardShape>)>
    decreases es.len(),
{
    if es.len() == 0 || ds.len() == 0 {
        Some((wires, guards))
    } else {
        match spec_record_wire(wires, guards, es[0], ds[0], g) {
            None => None,
            Some(st) => spec_record_wires(
                st.0,
                st.1,
                es.subrange(1, es.len() as int),
                ds.subrange(1, ds.len() as int),
                g,
            ),
        }
    }
}

/// How many of a region's children are input-port operations.
pub open spec fn count_input_ports(ops: Seq<OpEnum>, children: Seq<OpId>) -> int
    decreases children.len(),
{
    if children.len() == 0 {
        0
    } else {
        (if children[0].0 < ops.len() && ops[children[0].0 as int] is HwInput {
            1int
        } else {
            0int
        }) + count_input_ports(ops, children.subrange(1, children.len() as int))
    }
}

/// How many of a region's children are output-port operations.
pub open spec fn count_output_ports(ops: Seq<OpEnum>, children: Seq<OpId>) -> int
    decreases children.len(),
{
    if children.len() == 0 {
        0
    } else {
        (if children[0].0 < ops.len() && ops[children[0].0 as int] is HwOutput {
            1int
        } else {
            0int
        }) + count_output_ports(ops, children.subrange(1, children.len() as int))
    }
}

/// Whether the exploration accepts a region child: the fatal kinds of the
/// failure taxonomy are ruled out — no foreign or uninterpreted operation,
/// no register with reset, no non-one-hot selection, and an instance only
/// in the top-level region of the module under view.
pub open spec fn explorable_child(
    env: &CmtIR,
    module_op: OpId,
    region: RegionId,
    child: OpId,
) -> bool {
    child.0 < env.ops@.len() && match env.ops@[child.0 as int] {
        OpEnum::HwModule(_) => false,
        OpEnum::ItprtCondCheck(_) => false,
        OpEnum::EventDef(_) => false,
        OpEnum::SeqCompReg(r) => r.reset is None && r.reset_val is None,
        OpEnum::Select(sel) => sel.onehot matches Some(b) && b.0,
        OpEnum::Cases(c) => c.onehot matches Some(b) && b.0,
        OpEnum::HwInstance(_) => module_op.0 < env.ops@.len() && (
        env.ops@[module_op.0 as int] matches OpEnum::HwModule(m) && m.body == Some(region)),
        _ => true,
    }
}

/// A selector check recorded immediately before its paired selection,
/// with the explicit dependency edge between the two positions.
pub open spec fn selection_recorded(this: ItprtMod, p: int, cases: bool) -> bool {
    &&& 0 <= p
    &&& p + 1 < this.ops@.len()
    &&& this.ops@[p].op is ItprtCondCheck
    &&& (if cases {
        this.ops@[p + 1].op is Cases
    } else {
        this.ops@[p + 1].op is Select
    })
    &&& 0 <= p < this.dependency.dependency@.len()
    &&& this.dependency.dependency@[p]@.contains((p + 1) as usize)
}

/// The view only ever appends: recorded operations stay where they are and
/// recorded dependency edges survive.
pub open spec fn view_extends(a: ItprtMod, b: ItprtMod) -> bool {
    &&& b.ops@.len() >= a.ops@.len()
    &&& forall|k: int| 0 <= k < a.ops@.len() ==> (#[trigger] b.ops@[k]) == a.ops@[k]
    &&& b.dependency.dependency@.len() >= a.dependency.dependency@.len()
    &&& forall|p: int, q: usize|
        0 <= p < a.dependency.dependency@.len() && a.dependency.dependency@[p]@.contains(q)
            ==> (#[trigger] b.dependency.dependency@[p]@.contains(q))
}

/// View extension is transitive.
pub proof fn lemma_view_extends_trans(a: ItprtMod, b: ItprtMod, c: ItprtMod)
    requires
        view_extends(a, b),
        view_extends(b, c),
    ensures
        view_extends(a, c),
{
    assert forall|k: int| 0 <= k < a.ops@.len() implies (#[trigger] c.ops@[k]) == a.ops@[k] by {
        assert(b.ops@[k] == a.ops@[k]);
    }
    assert forall|p: int, q: usize|
        0 <= p < a.dependency.dependency@.len() && a.dependency.dependency@[p]@.contains(q)
            implies (#[trigger] c.dependency.dependency@[p]@.contains(q)) by {
        assert(b.dependency.dependency@[p]@.contains(q));
    }
}

/// A recorded selection pair survives any later appends.
pub proof fn lemma_selection_persists(a: ItprtMod, b: ItprtMod, p: int, cases: bool)
    requires
        selection_recorded(a, p, cases),
        view_extends(a, b),
    ensures
        selection_recorded(b, p, cases),
{
    assert(a.dependency.dependency@[p]@.contains((p + 1) as usize));
}

/// The fewest records one operation adds to the view when its step
/// succeeds: an instance its instance record, a register its register
/// record, a combinational operation one renumbered operation, and a
/// selection its selector check and its selection operation.
pub open spec fn min_recordings_of_op(op: OpEnum) -> int {
    match op {
        OpEnum::HwInstance(_) => 1,
        OpEnum::SeqCompReg(_) => 1,
        OpEnum::Comb(_) => 1,
        OpEnum::Select(_) => 2,
        OpEnum::Cases(_) => 2,
        _ => 0,
    }
}

/// The fewest records a region adds to the view when its exploration
/// succeeds: the sum over its children.
pub open spec fn min_recordings_of_children(ops: Seq<OpEnum>, children: Seq<OpId>) -> int
    decreases children.len(),
{
    if children.len() == 0 {
        0
    } else {
        (if children[0].0 < ops.len() {
            min_recordings_of_op(ops[children[0].0 as int])
        } else {
            0
        }) + min_recordings_of_children(ops, children.subrange(1, children.len() as int))
    }
}

/// The region floor is never negative.
pub proof fn lemma_min_recordings_nonneg(ops: Seq<OpEnum>, children: Seq<OpId>)
    ensures
        min_recordings_of_children(ops, children) >= 0,
    decreases children.len(),
{
    if children.len() > 0 {
        lemma_min_recordings_nonneg(ops, children.subrange(1, children.len() as int));
    }
}

impl ItprtMod {
    /// One guard per wire.
    pub open spec fn wf(&self) -> bool {
        self.wires@.len() == self.wire_guards@.len()
    }

    /// The shapes of the per-wire guards, index for index.
    pub open spec fn wire_guard_shapes(&self) -> Seq<GuardShape> {
        iguard_shapes_of(self.wire_guards@)
    }

    /// View a whole module: its signature is read from the module
    /// operation, then its body is explored wire by wire.
    pub fn from_cmt(env: &CmtIR, op_id: OpId) -> (r: Result<ItprtMod, StructuralViolation>)
        ensures
            match r {
                Ok(this) => ({
                    &&& this.wf()
                    &&& this.sig.op_id == op_id
                    &&& op_id.0 < env.ops@.len()
                    &&& (env.ops@[op_id.0 as int] matches OpEnum::HwModule(m) && (m.name
                        matches Some(sa) && this.sig.name == sa.0) && (m.arg_names matches Some(an)
                        && this.sig.arg_names@.len() == an.0@.len()) && (m.output_names
                        matches Some(on) && this.sig.output_names@.len() == on.0@.len()))
                    &&& (env.ops@[op_id.0 as int] matches OpEnum::HwModule(m) ==> (m.body
                        matches Some(b) ==> (b.0 < env.regions@.len() ==> this.ops@.len()
                        + this.registers@.len() + this.instances@.len()
                        >= min_recordings_of_children(
                        env.ops@,
                        env.regions@[b.0 as int].op_children@,
                    ))))
                }),
                Err(_) => true,
            },
            env.ops@[op_id.0 as int] matches OpEnum::HwModule(m2) ==> (m2.body matches Some(b2)
                ==> ((op_id.0 < env.ops@.len() && m2.name is Some && m2.arg_names is Some
                && m2.arg_types is Some && m2.output_names is Some && m2.output_types is Some && (
                forall|i: int|
                    0 <= i < m2.arg_names->Some_0.0@.len() ==> (
                    #[trigger] m2.arg_names->Some_0.0@[i]) is StringAttr) && (forall|i: int|
                    0 <= i < m2.arg_types->Some_0.0@.len() ==> (
                    #[trigger] m2.arg_types->Some_0.0@[i]) is TypeAttr) && (forall|i: int|
                    0 <= i < m2.output_names->Some_0.0@.len() ==> (
                    #[trigger] m2.output_names->Some_0.0@[i]) is StringAttr) && (forall|i: int|
                    0 <= i < m2.output_types->Some_0.0@.len() ==> (
                    #[trigger] m2.output_types->Some_0.0@[i]) is TypeAttr) && b2.0
                < env.regions@.len() && env.regions@[b2.0 as int].op_children@.len() == 0) ==> r
                is Ok)),
    {
        let fuel: u128 = ((env.ops.len() as u128) + (env.regions.len() as u128) + 2) * 4;
        ItprtMod::from_cmt_with_fuel(env, op_id, fuel)
    }

    /// View a module under a recursion budget.
    fn from_cmt_with_fuel(env: &CmtIR, op_id: OpId, fuel: u128) -> (r: Result<
        ItprtMod,
        StructuralViolation,
    >)
        ensures
            match r {
                Ok(this) => ({
                    &&& this.wf()
                    &&& this.sig.op_id == op_id
                    &&& op_id.0 < env.ops@.len()
                    &&& (env.ops@[op_id.0 as int] matches OpEnum::HwModule(m) && (m.name
                        matches Some(sa) && this.sig.name == sa.0) && (m.arg_names matches Some(an)
                        && this.sig.arg_names@.len() == an.0@.len()) && (m.output_names
                        matches Some(on) && this.sig.output_names@.len() == on.0@.len()))
                    &&& (env.ops@[op_id.0 as int] matches OpEnum::HwModule(m) ==> (m.body
                        matches Some(b) ==> (b.0 < env.regions@.len() ==> this.ops@.len()
                        + this.registers@.len() + this.instances@.len()
                        >= min_recordings_of_children(
                        env.ops@,
                        env.regions@[b.0 as int].op_children@,
                    ))))
                }),
                Err(_) => true,
            },
            env.ops@[op_id.0 as int] matches OpEnum::HwModule(m2) ==> (m2.body matches Some(b2)
                ==> ((fuel >= 2 && op_id.0 < env.ops@.len() && m2.name is Some && m2.arg_names is Some
                && m2.arg_types is Some && m2.output_names is Some && m2.output_types is Some && (
                forall|i: int|
                    0 <= i < m2.arg_names->Some_0.0@.len() ==> (
                    #[trigger] m2.arg_names->Some_0.0@[i]) is StringAttr) && (forall|i: int|
                    0 <= i < m2.arg_types->Some_0.0@.len() ==> (
                    #[trigger] m2.arg_types->Some_0.0@[i]) is TypeAttr) && (forall|i: int|
                    0 <= i < m2.output_names->Some_0.0@.len() ==> (
                    #[trigger] m2.output_names->Some_0.0@[i]) is StringAttr) && (forall|i: int|
                    0 <= i < m2.output_types->Some_0.0@.len() ==> (
                    #[trigger] m2.output_types->Some_0.0@[i]) is TypeAttr) && b2.0
                < env.regions@.len() && env.regions@[b2.0 as int].op_children@.len() == 0) ==> r
                is Ok)),
        decreases fuel, 0int,
    {
        if fuel == 0 {
            return Err(StructuralViolation::RecursionLimit(op_id.0));
        }
        let mut reducer = IdReducer::new();
        match env.get_op(op_id) {
            Some(OpEnum::HwModule(m)) => {
                let sig = match ItprtSig::new(
                    OpId(m.id),
                    &m.name,
                    &m.arg_names,
                    &m.arg_types,
                    &m.output_names,
                    &m.output_types,
                ) {
                    Ok(sig) => sig,
                    Err(v) => {
                        return Err(v);
                    },
                };
                let body = match &m.body {
                    Some(body) => *body,
                    None => {
                        return Err(StructuralViolation::MalformedOperation(op_id.0));
                    },
                };
                let sig = ItprtSig { op_id, ..sig };
                let mut this = ItprtMod {
                    sig,
                    inputs: Vec::new(),
                    outputs: Vec::new(),
                    instances: Vec::new(),
                    registers: Vec::new(),
                    wires: Vec::new(),
                    ops: Vec::new(),
                    dependency: Dependency::new(),
                    wire_guards: Vec::new(),
                };
                match this.explore(env, body, &mut reducer, &ItprtGuard::Free, fuel - 1) {
                    Ok(()) => Ok(this),
                    Err(v) => Err(v),
                }
            },
            _ => Err(StructuralViolation::MalformedOperation(op_id.0)),
        }
    }

    /// Record one wire under a guard. A clock wire is ignored; a wire seen
    /// for the first time takes the guard as it stands; a wire written
    /// again keeps its slot and its guard gains the new guard as a
    /// disjunct — never an overwrite.
    #[verifier::loop_isolation(false)]
    pub fn add_wire(&mut self, entity_id: EntityId, data_type: DataTypeEnum, guard: ItprtGuard) -> (
    r: Result<(), StructuralViolation>)
        requires
            old(self).wf(),
        ensures
            final(self).wf(),
            final(self).sig == old(self).sig,
            final(self).inputs@ == old(self).inputs@,
            final(self).outputs@ == old(self).outputs@,
            final(self).registers@ == old(self).registers@,
            final(self).instances@ == old(self).instances@,
            final(self).ops@ == old(self).ops@,
            final(self).dependency == old(self).dependency,
            r is Ok <==> (data_type is Clk || entity_id.0 < usize::MAX),
            r is Ok <==> spec_record_wire(
                old(self).wires@,
                old(self).wire_guard_shapes(),
                entity_id,
                data_type,
                guard@,
            ) is Some,
            (data_type is Clk || r is Err) ==> *final(self) == *old(self),
            r is Ok ==> ({
                let stepped = spec_record_wire(
                    old(self).wires@,
                    old(self).wire_guard_shapes(),
                    entity_id,
                    data_type,
                    guard@,
                )->Some_0;
                final(self).wires@ == stepped.0 && final(self).wire_guard_shapes() == stepped.1
            }),
            (!(data_type is Clk) && r is Ok) ==> ({
                let r = entity_id.0;
                &&& final(self).wires@.len() >= r + 1
                &&& final(self).wires@.len() >= old(self).wires@.len()
                &&& if r < old(self).wires@.len() && !old(self).wires@[r as int].empty {
                    final(self).wires@ == old(self).wires@ && final(self).wire_guard_shapes()
                        == old(self).wire_guard_shapes().update(
                        r as int,
                        spec_or(old(self).wire_guard_shapes()[r as int], guard@),
                    )
                } else {
                    &&& final(self).wire_guard_shapes().len() == final(self).wires@.len()
                    &&& final(self).wire_guard_shapes()[r as int] == guard@
                    &&& final(self).wires@[r as int].empty == false
                    &&& final(self).wires@[r as int].idx == r
                    &&& final(self).wires@[r as int].data_type == data_type
                    &&& forall|k: int|
                        0 <= k < old(self).wires@.len() && k != r ==> (#[trigger] final(self).wires@[k]) == old(self).wires@[k]
                }
            }),
    {
        match &data_type {
            DataTypeEnum::Clk => {
                return Ok(());
            },
            _ => {},
        }
        let reduced = entity_id.0;
        if reduced == usize::MAX {
            return Err(StructuralViolation::ValueSpaceExhausted);
        }
        let ghost g_shape = guard@;
        let ghost d_value = data_type;
        let ghost pre_guards = self.wire_guards@;
        if reduced >= self.wires.len() {
            while self.wires.len() < reduced + 1
                invariant
                    self.wf(),
                    self.wires@.len() >= pre_guards.len(),
                    self.wires@.len() <= reduced + 1,
                    reduced < usize::MAX,
                    self.sig == old(self).sig,
                    self.inputs@ == old(self).inputs@,
                    self.outputs@ == old(self).outputs@,
                    self.registers@ == old(self).registers@,
                    self.instances@ == old(self).instances@,
                    self.ops@ == old(self).ops@,
                    self.dependency == old(self).dependency,
                    self.wires@.len() >= old(self).wires@.len(),
                    forall|k: int|
                        0 <= k < old(self).wires@.len() ==> (#[trigger] self.wires@[k]) == old(self).wires@[k],
                    forall|k: int|
                        old(self).wires@.len() <= k < self.wires@.len() ==> (
                        #[trigger] self.wires@[k]) == placeholder_wire(),
                    forall|k: int|
                        0 <= k < old(self).wires@.len() ==> (#[trigger] self.wire_guards@[k])
                            == pre_guards[k],
                    forall|k: int|
                        old(self).wires@.len() <= k < self.wire_guards@.len() ==> (
                        #[trigger] self.wire_guards@[k]) == ItprtGuard::Free,
                decreases reduced + 1 - self.wires@.len(),
            {
                self.wires.push(ItprtWire::default());
                self.wire_guards.push(ItprtGuard::Free);
            }
        }
        let ghost grown_count = (self.wires@.len() - old(self).wires@.len()) as nat;
        let ghost grown_wires = old(self).wires@ + Seq::new(grown_count, |i: int| placeholder_wire());
        let ghost grown_guard_shapes = old(self).wire_guard_shapes() + Seq::new(
            grown_count,
            |i: int| GuardShape::Never,
        );
        proof {
            assert(self.wires@ =~= grown_wires);
            lemma_iguard_shapes_of(self.wire_guards@);
            lemma_iguard_shapes_of(pre_guards);
            assert forall|k: int|
                0 <= k < self.wire_guards@.len() implies iguard_shapes_of(self.wire_guards@)[k]
                == grown_guard_shapes[k] by {
                assert(iguard_shapes_of(self.wire_guards@)[k] == self.wire_guards@[k]@);
                if k < pre_guards.len() {
                    assert(self.wire_guards@[k] == pre_guards[k]);
                    assert(iguard_shapes_of(pre_guards)[k] == pre_guards[k]@);
                }
            }
            assert(iguard_shapes_of(self.wire_guards@) =~= grown_guard_shapes);
        }
        let ghost grown = self.wire_guards@;
        if self.wires[reduced].empty {
            let ghost guard_value = guard;
            let ghost pre_set_wires = self.wires@;
            self.wires.set(reduced, ItprtWire::new(data_type, reduced));
            let ghost before = self.wire_guards@;
            self.wire_guards.remove(reduced);
            self.wire_guards.insert(reduced, guard);
            proof {
                assert(self.wire_guards@ =~= before.update(reduced as int, guard_value));
                lemma_iguard_shapes_of(self.wire_guards@);
                assert(self.wire_guards@[reduced as int]@ == guard_value@);
                assert(iguard_shapes_of(self.wire_guards@)[reduced as int]
                    == self.wire_guards@[reduced as int]@);
                assert(self.wires@[reduced as int] == ItprtWire {
                    empty: false,
                    idx: reduced,
                    data_type: data_type,
                });
                assert(self.wires@ =~= grown_wires.update(
                    reduced as int,
                    ItprtWire { empty: false, idx: reduced, data_type: data_type },
                ));
                assert forall|k: int|
                    0 <= k < self.wire_guards@.len() implies iguard_shapes_of(
                    self.wire_guards@,
                )[k] == grown_guard_shapes.update(reduced as int, guard_value@)[k] by {
                    assert(iguard_shapes_of(self.wire_guards@)[k] == self.wire_guards@[k]@);
                    if k != reduced {
                        assert(self.wire_guards@[k] == grown[k]);
                        assert(iguard_shapes_of(grown)[k] == grown[k]@);
                    }
                }
                assert(iguard_shapes_of(self.wire_guards@) =~= grown_guard_shapes.update(
                    reduced as int,
                    guard_value@,
                ));
            }
        } else {
            let stored = self.wire_guards.remove(reduced);
            let merged = stored.or(guard);
            self.wire_guards.insert(reduced, merged);
            proof {
                assert(self.wire_guards@ =~= grown.update(reduced as int, merged));
                lemma_iguard_shapes_of(grown);
                lemma_iguard_shapes_of(self.wire_guards@);
                assert forall|i: int|
                    0 <= i < self.wire_guards@.len() implies iguard_shapes_of(
                    self.wire_guards@,
                )[i] == iguard_shapes_of(grown).update(reduced as int, merged@)[i] by {
                    assert(iguard_shapes_of(self.wire_guards@)[i] == self.wire_guards@[i]@);
                    if i != reduced {
                        assert(self.wire_guards@[i] == grown[i]);
                        assert(iguard_shapes_of(grown)[i] == grown[i]@);
                    }
                }
                assert(iguard_shapes_of(self.wire_guards@) =~= iguard_shapes_of(grown).update(
                    reduced as int,
                    merged@,
                ));
            }
        }
        proof {
            let old_w = old(self).wires@;
            let old_s = old(self).wire_guard_shapes();
            let stepped = spec_record_wire(old_w, old_s, entity_id, d_value, g_shape)->Some_0;
            if reduced < old_w.len() && !old_w[reduced as int].empty {
                assert(grown_count == 0);
                assert(grown_wires =~= old_w);
                assert(grown_guard_shapes =~= old_s);
                assert(stepped.0 =~= self.wires@);
                assert(stepped.1 =~= iguard_shapes_of(self.wire_guards@));
            } else {
                let model_grown = if old_w.len() < reduced + 1 {
                    (reduced + 1 - old_w.len()) as nat
                } else {
                    0nat
                };
                assert(model_grown == grown_count);
                assert(old_w + Seq::new(model_grown, |i: int| placeholder_wire())
                    =~= grown_wires);
                assert(old_s + Seq::new(model_grown, |i: int| GuardShape::Never)
                    =~= grown_guard_shapes);
                assert(stepped.0 =~= self.wires@);
                assert(stepped.1 =~= iguard_shapes_of(self.wire_guards@));
            }
        }
        Ok(())
    }

    /// Record a list of wires, pairwise with their data types, each under
    /// a copy of the guard.
    #[verifier::loop_isolation(false)]
    pub fn add_wires(
        &mut self,
        entity_id: Vec<EntityId>,
        data_type: Vec<DataTypeEnum>,
        guard: ItprtGuard,
    ) -> (r: Result<(), StructuralViolation>)
        requires
            old(self).wf(),
        ensures
            final(self).wf(),
            final(self).sig == old(self).sig,
            final(self).inputs@ == old(self).inputs@,
            final(self).outputs@ == old(self).outputs@,
            final(self).registers@ == old(self).registers@,
            final(self).instances@ == old(self).instances@,
            final(self).ops@ == old(self).ops@,
            final(self).dependency == old(self).dependency,
            final(self).wires@.len() >= old(self).wires@.len(),
            r is Ok <==> spec_record_wires(
                old(self).wires@,
                old(self).wire_guard_shapes(),
                entity_id@,
                data_type@,
                guard@,
            ) is Some,
            r is Ok ==> ({
                let recorded = spec_record_wires(
                    old(self).wires@,
                    old(self).wire_guard_shapes(),
                    entity_id@,
                    data_type@,
                    guard@,
                )->Some_0;
                final(self).wires@ == recorded.0 && final(self).wire_guard_shapes() == recorded.1
            }),
            r is Ok ==> (forall|j: int|
                0 <= j < entity_id@.len() && j < data_type@.len() && !((
                #[trigger] data_type@[j]) is Clk) ==> final(self).wires@.len()
                    > entity_id@[j].0),
    {
        let ghost typed = data_type@;
        let ghost es = entity_id@;
        let ghost g_shape = guard@;
        let n = if entity_id.len() < data_type.len() {
            entity_id.len()
        } else {
            data_type.len()
        };
        let mut data_type = data_type;
        proof {
            assert(typed.subrange(0, typed.len() as int) =~= typed);
            assert(es.subrange(0, es.len() as int) =~= es);
        }
        let mut i: usize = 0;
        while i < n
            invariant
                self.wf(),
                self.sig == old(self).sig,
                self.inputs@ == old(self).inputs@,
                self.outputs@ == old(self).outputs@,
                self.registers@ == old(self).registers@,
                self.instances@ == old(self).instances@,
                self.ops@ == old(self).ops@,
                self.dependency == old(self).dependency,
                self.wires@.len() >= old(self).wires@.len(),
                n <= es.len(),
                n <= typed.len(),
                i <= n,
                data_type@ == typed.subrange(i as int, typed.len() as int),
                spec_record_wires(
                    old(self).wires@,
                    old(self).wire_guard_shapes(),
                    es,
                    typed,
                    g_shape,
                ) == spec_record_wires(
                    self.wires@,
                    self.wire_guard_shapes(),
                    es.subrange(i as int, es.len() as int),
                    typed.subrange(i as int, typed.len() as int),
                    g_shape,
                ),
                forall|j: int|
                    0 <= j < i && !((#[trigger] typed[j]) is Clk) ==> self.wires@.len()
                        > es[j].0,
            decreases n - i,
        {
            let ghost mid = *self;
            let ghost es_rest = es.subrange(i as int, es.len() as int);
            let ghost ds_rest = typed.subrange(i as int, typed.len() as int);
            let dtype = data_type.remove(0);
            proof {
                assert(dtype == typed[i as int]);
                assert(es_rest[0] == es[i as int]);
                assert(ds_rest[0] == typed[i as int]);
                assert(data_type@ =~= typed.subrange(i + 1, typed.len() as int));
            }
            match self.add_wire(entity_id[i], dtype, guard.duplicate()) {
                Ok(()) => {},
                Err(v) => {
                    proof {
                        assert(spec_record_wire(
                            mid.wires@,
                            mid.wire_guard_shapes(),
                            es[i as int],
                            typed[i as int],
                            g_shape,
                        ) is None);
                    }
                    return Err(v);
                },
            }
            i = i + 1;
            proof {
                assert(es_rest.subrange(1, es_rest.len() as int) =~= es.subrange(
                    i as int,
                    es.len() as int,
                ));
                assert(ds_rest.subrange(1, ds_rest.len() as int) =~= typed.subrange(
                    i as int,
                    typed.len() as int,
                ));
                assert(spec_record_wire(
                    mid.wires@,
                    mid.wire_guard_shapes(),
                    es[i - 1],
                    typed[i - 1],
                    g_shape,
                ) matches Some(st) && st.0 == self.wires@ && st.1 == self.wire_guard_shapes());
            }
        }
        proof {
            assert(es.subrange(i as int, es.len() as int).len() == 0 || typed.subrange(
                i as int,
                typed.len() as int,
            ).len() == 0);
        }
        Ok(())
    }
}


impl ItprtMod {
    /// Explore one region of the module: record every wire, register,
    /// instance and operation it holds, wires under the active guard, and
    /// descend into the arms of a region-bodied selection under the guard
    /// of their condition.
    #[verifier::loop_isolation(false)]
    fn explore(
        &mut self,
        env: &CmtIR,
        region: RegionId,
        reducer: &mut IdReducer,
        guard: &ItprtGuard,
        fuel: u128,
    ) -> (r: Result<(), StructuralViolation>)
        requires
            old(self).wf(),
        ensures
            final(self).wf(),
            final(self).sig == old(self).sig,
            final(self).ops@.len() >= old(self).ops@.len(),
            final(self).registers@.len() >= old(self).registers@.len(),
            final(self).instances@.len() >= old(self).instances@.len(),
            (r is Ok && region.0 < env.regions@.len()) ==> final(self).ops@.len() + final(self).registers@.len() + final(self).instances@.len() >= old(self).ops@.len() + old(self).registers@.len() + old(self).instances@.len() + min_recordings_of_children(
                env.ops@,
                env.regions@[region.0 as int].op_children@,
            ),
            (fuel > 0 && region.0 < env.regions@.len()
                && env.regions@[region.0 as int].op_children@.len() == 0) ==> r is Ok,
            view_extends(*old(self), *final(self)),
            (r is Ok && region.0 < env.regions@.len()) ==> ({
                let kids = env.regions@[region.0 as int].op_children@;
                &&& count_input_ports(env.ops@, kids) <= 1
                &&& count_output_ports(env.ops@, kids) <= 1
                &&& (forall|k: int|
                    0 <= k < kids.len() ==> explorable_child(
                        env,
                        old(self).sig.op_id,
                        region,
                        #[trigger] kids[k],
                    ))
                &&& (forall|k: int|
                    0 <= k < kids.len() && (#[trigger] kids[k]).0 < env.ops@.len() && (
                    env.ops@[kids[k].0 as int] is Select || env.ops@[kids[k].0 as int] is Cases)
                        ==> exists|p: int|
                        #[trigger] selection_recorded(
                            *final(self),
                            p,
                            env.ops@[kids[k].0 as int] is Cases,
                        ))
            }),
        decreases fuel, 1int,
    {
        if fuel == 0 {
            return Err(StructuralViolation::RecursionLimit(region.0));
        }
        let region_record = match env.get_region(region) {
            Some(record) => record,
            None => {
                return Err(StructuralViolation::MalformedOperation(region.0));
            },
        };
        let ghost children = region_record.op_children@;
        proof {
            assert(children.subrange(0, children.len() as int) =~= children);
        }
        let mut seen_inputs: usize = 0;
        let mut seen_outputs: usize = 0;
        let mut scan: usize = 0;
        while scan < region_record.op_children.len()
            invariant
                scan <= children.len(),
                seen_inputs <= 1,
                seen_outputs <= 1,
                count_input_ports(env.ops@, children) == seen_inputs + count_input_ports(
                    env.ops@,
                    children.subrange(scan as int, children.len() as int),
                ),
                count_output_ports(env.ops@, children) == seen_outputs + count_output_ports(
                    env.ops@,
                    children.subrange(scan as int, children.len() as int),
                ),
            decreases children.len() - scan,
        {
            let ghost srest = children.subrange(scan as int, children.len() as int);
            proof {
                assert(srest[0] == children[scan as int]);
            }
            match env.get_op(region_record.op_children[scan]) {
                Some(OpEnum::HwInput(_)) => {
                    if seen_inputs >= 1 {
                        return Err(StructuralViolation::RepeatedInputPort(region.0));
                    }
                    seen_inputs = seen_inputs + 1;
                },
                Some(OpEnum::HwOutput(_)) => {
                    if seen_outputs >= 1 {
                        return Err(StructuralViolation::RepeatedOutputPort(region.0));
                    }
                    seen_outputs = seen_outputs + 1;
                },
                _ => {},
            }
            scan = scan + 1;
            proof {
                assert(srest.subrange(1, srest.len() as int) =~= children.subrange(
                    scan as int,
                    children.len() as int,
                ));
            }
        }
        proof {
            assert(children.subrange(scan as int, children.len() as int) =~= Seq::<OpId>::empty());
        }
        let mut i: usize = 0;
        while i < region_record.op_children.len()
            invariant
                self.wf(),
                self.sig == old(self).sig,
                i <= children.len(),
                self.ops@.len() >= old(self).ops@.len(),
                self.registers@.len() >= old(self).registers@.len(),
                self.instances@.len() >= old(self).instances@.len(),
                self.ops@.len() + self.registers@.len() + self.instances@.len() >= old(self).ops@.len() + old(self).registers@.len() + old(self).instances@.len()
                    + min_recordings_of_children(env.ops@, children) - min_recordings_of_children(
                    env.ops@,
                    children.subrange(i as int, children.len() as int),
                ),
                view_extends(*old(self), *self),
                forall|k: int|
                    0 <= k < i ==> explorable_child(
                        env,
                        old(self).sig.op_id,
                        region,
                        #[trigger] children[k],
                    ),
                forall|k: int|
                    0 <= k < i && (#[trigger] children[k]).0 < env.ops@.len() && (
                    env.ops@[children[k].0 as int] is Select || env.ops@[children[k].0 as int]
                        is Cases) ==> exists|p: int|
                        #[trigger] selection_recorded(
                            *self,
                            p,
                            env.ops@[children[k].0 as int] is Cases,
                        ),
                fuel >= 1,
            decreases region_record.op_children@.len() - i,
        {
            let op_id = region_record.op_children[i];
            let ghost mid = *self;
            let ghost rest = children.subrange(i as int, children.len() as int);
            proof {
                assert(rest[0] == children[i as int]);
                lemma_min_recordings_nonneg(env.ops@, rest.subrange(1, rest.len() as int));
            }
            let op = match env.get_op(op_id) {
                Some(op) => op,
                None => {
                    return Err(StructuralViolation::MalformedOperation(op_id.0));
                },
            };
            match op {
                OpEnum::HwInstance(hw_instance) => {
                    let in_module_region = match env.get_op(self.sig.op_id) {
                        Some(OpEnum::HwModule(m)) => match &m.body {
                            Some(body) => body.0 == region.0,
                            None => false,
                        },
                        _ => false,
                    };
                    if !in_module_region {
                        return Err(StructuralViolation::MalformedOperation(hw_instance.id));
                    }
                    let target_op_id = match &hw_instance.target_op_id {
                        Some(t) => *t,
                        None => {
                            return Err(StructuralViolation::MalformedOperation(hw_instance.id));
                        },
                    };
                    let target_mod = match ItprtMod::from_cmt_with_fuel(env, target_op_id, fuel - 1) {
                        Ok(m) => m,
                        Err(v) => {
                            return Err(v);
                        },
                    };
                    let data_types = match collect_dtypes(env, &hw_instance.inputs, hw_instance.id) {
                        Ok(types) => types,
                        Err(v) => {
                            return Err(v);
                        },
                    };
                    let reduced_inputs = reduce_entities(reducer, &hw_instance.inputs);
                    let input_wires = copy_entity_ids(&reduced_inputs);
                    let reduced_outputs = reduce_entities(reducer, &hw_instance.outputs);
                    let inst = match ItprtInst::new(
                        hw_instance.name.clone(),
                        target_mod,
                        reduced_inputs,
                        reduced_outputs,
                    ) {
                        Ok(inst) => inst,
                        Err(_) => {
                            return Err(StructuralViolation::MalformedOperation(hw_instance.id));
                        },
                    };
                    self.instances.push(inst);
                    match self.add_wires(input_wires, data_types, guard.duplicate()) {
                        Ok(()) => {},
                        Err(v) => {
                            return Err(v);
                        },
                    }
                },
                OpEnum::HwInput(hw_input) => {
                    if self.inputs.len() != 0 {
                        return Err(StructuralViolation::RepeatedInputPort(region.0));
                    }
                    let reduced = reduce_entities(reducer, &hw_input.inputs);
                    let mut k: usize = 0;
                    while k < reduced.len()
                        invariant
                            self.wf(),
                            self.sig == old(self).sig,
                            self.ops@ == mid.ops@,
                            self.registers@ == mid.registers@,
                            self.instances@ == mid.instances@,
                            self.dependency == mid.dependency,
                        decreases reduced@.len() - k,
                    {
                        self.inputs.push(ItprtWireId(reduced[k].0));
                        k = k + 1;
                    }
                },
                OpEnum::HwOutput(hw_output) => {
                    if self.outputs.len() != 0 {
                        return Err(StructuralViolation::RepeatedOutputPort(region.0));
                    }
                    let data_types = match collect_dtypes(env, &hw_output.outputs, hw_output.id) {
                        Ok(types) => types,
                        Err(v) => {
                            return Err(v);
                        },
                    };
                    let reduced = reduce_entities(reducer, &hw_output.outputs);
                    let mut k: usize = 0;
                    while k < reduced.len()
                        invariant
                            self.wf(),
                            self.sig == old(self).sig,
                            self.ops@ == mid.ops@,
                            self.registers@ == mid.registers@,
                            self.instances@ == mid.instances@,
                            self.dependency == mid.dependency,
                        decreases reduced@.len() - k,
                    {
                        self.outputs.push(ItprtWireId(reduced[k].0));
                        k = k + 1;
                    }
                    match self.add_wires(reduced, data_types, guard.duplicate()) {
                        Ok(()) => {},
                        Err(v) => {
                            return Err(v);
                        },
                    }
                },
                OpEnum::SeqCompReg(seq_comp_reg) => {
                    if seq_comp_reg.reset.is_some() || seq_comp_reg.reset_val.is_some() {
                        return Err(StructuralViolation::RegisterReset(seq_comp_reg.id));
                    }
                    let input = match &seq_comp_reg.input {
                        Some(input) => *input,
                        None => {
                            return Err(StructuralViolation::MalformedOperation(seq_comp_reg.id));
                        },
                    };
                    let data_type = match env.get_entity(input) {
                        Some(record) => match record.get_dtype() {
                            Some(dtype) => dtype,
                            None => {
                                return Err(
                                    StructuralViolation::MalformedOperation(seq_comp_reg.id),
                                );
                            },
                        },
                        None => {
                            return Err(StructuralViolation::MalformedOperation(seq_comp_reg.id));
                        },
                    };
                    let reduced_input = EntityId(reducer.reduce_entity(input));
                    let reduced_output = match &seq_comp_reg.output {
                        Some(output) => Some(EntityId(reducer.reduce_entity(*output))),
                        None => None,
                    };
                    let reduced_clk = match &seq_comp_reg.clk {
                        Some(clk) => Some(EntityId(reducer.reduce_entity(*clk))),
                        None => None,
                    };
                    let reg = match ItprtReg::new(
                        OpId(seq_comp_reg.id),
                        Some(reduced_input),
                        reduced_output,
                        reduced_clk,
                    ) {
                        Ok(reg) => reg,
                        Err(v) => {
                            return Err(v);
                        },
                    };
                    self.registers.push(reg);
                    match self.add_wire(reduced_input, data_type, guard.duplicate()) {
                        Ok(()) => {},
                        Err(v) => {
                            return Err(v);
                        },
                    }
                },
                OpEnum::Comb(comb) => {
                    let data_types = match collect_dtypes(env, &comb.uses, comb.id) {
                        Ok(types) => types,
                        Err(v) => {
                            return Err(v);
                        },
                    };
                    let reduced_uses = reduce_entities(reducer, &comb.uses);
                    let use_wires = copy_entity_ids(&reduced_uses);
                    let reduced_defs = reduce_entities(reducer, &comb.defs);
                    let reduced_op = CombOp {
                        id: comb.id,
                        parent: comb.parent,
                        kind: comb.kind.clone(),
                        uses: reduced_uses,
                        defs: reduced_defs,
                    };
                    self.ops.push(ItprtOp::new(self.ops.len(), OpEnum::Comb(reduced_op)));
                    match self.add_wires(use_wires, data_types, guard.duplicate()) {
                        Ok(()) => {},
                        Err(v) => {
                            return Err(v);
                        },
                    }
                },
                OpEnum::Select(select) => {
                    let onehot = match &select.onehot {
                        Some(flag) => flag.0,
                        None => {
                            return Err(StructuralViolation::MalformedOperation(select.id));
                        },
                    };
                    if !onehot {
                        return Err(StructuralViolation::NonOneHotSelection(select.id));
                    }
                    let data_types = match collect_dtypes(env, &select.values, select.id) {
                        Ok(types) => types,
                        Err(v) => {
                            return Err(v);
                        },
                    };
                    let default_data_type = match &select.default {
                        Some(d) => {
                            match env.get_entity(*d) {
                                Some(record) => match record.get_dtype() {
                                    Some(dtype) => Some(dtype),
                                    None => {
                                        return Err(
                                            StructuralViolation::MalformedOperation(select.id),
                                        );
                                    },
                                },
                                None => {
                                    return Err(
                                        StructuralViolation::MalformedOperation(select.id),
                                    );
                                },
                            }
                        },
                        None => None,
                    };
                    let reduced_conds = reduce_entities(reducer, &select.conds);
                    let conds_for_guards = copy_entity_ids(&reduced_conds);
                    let check_conds = copy_entity_ids(&reduced_conds);
                    let reduced_values = reduce_entities(reducer, &select.values);
                    let values_for_guards = copy_entity_ids(&reduced_values);
                    let reduced_lhs = match &select.lhs {
                        Some(lhs) => Some(EntityId(reducer.reduce_entity(*lhs))),
                        None => None,
                    };
                    let reduced_default = match &select.default {
                        Some(d) => Some(EntityId(reducer.reduce_entity(*d))),
                        None => None,
                    };
                    let cond_check = ItprtCondCheck {
                        id: select.id,
                        parent: select.parent,
                        conds: check_conds,
                        has_default: Some(BoolAttr(reduced_default.is_some())),
                        onehot: Some(BoolAttr(onehot)),
                    };
                    self.ops.push(
                        ItprtOp::new(self.ops.len(), OpEnum::ItprtCondCheck(cond_check)),
                    );
                    let reduced_select = Select {
                        id: select.id,
                        parent: select.parent,
                        lhs: reduced_lhs,
                        default: reduced_default,
                        conds: reduced_conds,
                        values: reduced_values,
                        onehot: select.onehot,
                    };
                    self.ops.push(ItprtOp::new(self.ops.len(), OpEnum::Select(reduced_select)));
                    let from = self.ops.len() - 2;
                    let to = self.ops.len() - 1;
                    match self.dependency.add(from, to) {
                        Ok(()) => {},
                        Err(_) => {
                            proof {
                                assert(false);
                            }
                        },
                    }
                    let ghost w_state = *self;
                    proof {
                        assert(self.ops@[from as int].op is ItprtCondCheck);
                        assert(self.ops@[from + 1].op is Select);
                        assert(self.dependency.dependency@[from as int]@.contains(to)) by {
                            let row = self.dependency.dependency@[from as int]@;
                            assert(row[row.len() - 1] == to);
                        }
                        assert(selection_recorded(w_state, from as int, false));
                        assert(view_extends(mid, w_state)) by {
                            assert forall|p: int, q: usize|
                                0 <= p < mid.dependency.dependency@.len()
                                    && mid.dependency.dependency@[p]@.contains(q) implies (
                            #[trigger] w_state.dependency.dependency@[p]@.contains(q)) by {
                                let row0 = mid.dependency.dependency@[p]@;
                                let idx = choose|idx: int|
                                    0 <= idx < row0.len() && row0[idx] == q;
                                assert(w_state.dependency.dependency@[p]@[idx] == q);
                            }
                        }
                    }
                    let mut k: usize = 0;
                    let n_arms = if conds_for_guards.len() < values_for_guards.len() {
                        conds_for_guards.len()
                    } else {
                        values_for_guards.len()
                    };
                    let mut arm_values = values_for_guards;
                    let mut arm_types = data_types;
                    while k < n_arms
                        invariant
                            self.wf(),
                            self.sig == old(self).sig,
                            self.ops@.len() == mid.ops@.len() + 2,
                            self.ops@ == w_state.ops@,
                            self.registers@ == mid.registers@,
                            self.instances@ == mid.instances@,
                            self.dependency == w_state.dependency,
                            n_arms <= conds_for_guards@.len(),
                            k <= n_arms,
                        decreases n_arms - k,
                    {
                        if arm_values.len() == 0 || arm_types.len() == 0 {
                            proof {
                                lemma_view_extends_trans(*old(self), mid, w_state);
                                assert(view_extends(w_state, *self));
                                lemma_view_extends_trans(*old(self), w_state, *self);
                            }
                            return Err(StructuralViolation::MalformedOperation(select.id));
                        }
                        let value = arm_values.remove(0);
                        let dtype = arm_types.remove(0);
                        let arm_guard = guard.duplicate().and(
                            ItprtGuard::Wire(ItprtWireId(conds_for_guards[k].0)),
                        );
                        match self.add_wire(value, dtype, arm_guard) {
                            Ok(()) => {},
                            Err(v) => {
                                proof {
                                    lemma_view_extends_trans(*old(self), mid, w_state);
                                    assert(view_extends(w_state, *self));
                                    lemma_view_extends_trans(*old(self), w_state, *self);
                                }
                                return Err(v);
                            },
                        }
                        k = k + 1;
                    }
                    match reduced_default {
                        Some(default_id) => {
                            let dflt_dtype = match default_data_type {
                                Some(dtype) => dtype,
                                None => {
                                    proof {
                                        lemma_view_extends_trans(*old(self), mid, w_state);
                                        assert(view_extends(w_state, *self));
                                        lemma_view_extends_trans(*old(self), w_state, *self);
                                    }
                                    return Err(
                                        StructuralViolation::MalformedOperation(select.id),
                                    );
                                },
                            };
                            let mut arm_conds: Vec<ItprtGuard> = Vec::new();
                            let mut c: usize = 0;
                            while c < conds_for_guards.len()
                                invariant
                                    c <= conds_for_guards@.len(),
                                decreases conds_for_guards@.len() - c,
                            {
                                arm_conds.push(
                                    ItprtGuard::Wire(ItprtWireId(conds_for_guards[c].0)),
                                );
                                c = c + 1;
                            }
                            let none_taken = ItprtGuard::Not(Box::new(ItprtGuard::Or(arm_conds)));
                            match self.add_wire(
                                default_id,
                                dflt_dtype,
                                guard.duplicate().and(none_taken),
                            ) {
                                Ok(()) => {},
                                Err(v) => {
                                    proof {
                                        lemma_view_extends_trans(*old(self), mid, w_state);
                                        assert(view_extends(w_state, *self));
                                        lemma_view_extends_trans(*old(self), w_state, *self);
                                    }
                                    return Err(v);
                                },
                            }
                        },
                        None => {},
                    }
                    proof {
                        lemma_selection_persists(w_state, *self, from as int, false);
                        assert(exists|p: int| selection_recorded(*self, p, false));
                        assert(view_extends(w_state, *self));
                        lemma_view_extends_trans(mid, w_state, *self);
                    }
                },
                OpEnum::Cases(cases) => {
                    let onehot = match &cases.onehot {
                        Some(flag) => flag.0,
                        None => {
                            return Err(StructuralViolation::MalformedOperation(cases.id));
                        },
                    };
                    if !onehot {
                        return Err(StructuralViolation::NonOneHotSelection(cases.id));
                    }
                    let reduced_conds = reduce_entities(reducer, &cases.conds);
                    let conds_for_guards = copy_entity_ids(&reduced_conds);
                    let check_conds = copy_entity_ids(&reduced_conds);
                    let has_default = cases.dflt.is_some();
                    let cond_check = ItprtCondCheck {
                        id: cases.id,
                        parent: cases.parent,
                        conds: check_conds,
                        has_default: Some(BoolAttr(has_default)),
                        onehot: Some(BoolAttr(onehot)),
                    };
                    self.ops.push(
                        ItprtOp::new(self.ops.len(), OpEnum::ItprtCondCheck(cond_check)),
                    );
                    let mut body_copy: Vec<RegionId> = Vec::new();
                    let mut b: usize = 0;
                    while b < cases.bodies.len()
                        invariant
                            b <= cases.bodies@.len(),
                            body_copy@.len() == b,
                            forall|t: int| 0 <= t < b ==> body_copy@[t] == cases.bodies@[t],
                        decreases cases.bodies@.len() - b,
                    {
                        body_copy.push(cases.bodies[b]);
                        b = b + 1;
                    }
                    let reduced_cases = Cases {
                        id: cases.id,
                        parent: cases.parent,
                        conds: reduced_conds,
                        onehot: cases.onehot,
                        dflt: cases.dflt,
                        bodies: body_copy,
                    };
                    self.ops.push(ItprtOp::new(self.ops.len(), OpEnum::Cases(reduced_cases)));
                    let from = self.ops.len() - 2;
                    let to = self.ops.len() - 1;
                    match self.dependency.add(from, to) {
                        Ok(()) => {},
                        Err(_) => {
                            proof {
                                assert(false);
                            }
                        },
                    }
                    let ghost w_state = *self;
                    proof {
                        assert(self.ops@[from as int].op is ItprtCondCheck);
                        assert(self.ops@[from + 1].op is Cases);
                        assert(self.dependency.dependency@[from as int]@.contains(to)) by {
                            let row = self.dependency.dependency@[from as int]@;
                            assert(row[row.len() - 1] == to);
                        }
                        assert(selection_recorded(w_state, from as int, true));
                        assert(view_extends(mid, w_state)) by {
                            assert forall|p: int, q: usize|
                                0 <= p < mid.dependency.dependency@.len()
                                    && mid.dependency.dependency@[p]@.contains(q) implies (
                            #[trigger] w_state.dependency.dependency@[p]@.contains(q)) by {
                                let row0 = mid.dependency.dependency@[p]@;
                                let idx = choose|idx: int|
                                    0 <= idx < row0.len() && row0[idx] == q;
                                assert(w_state.dependency.dependency@[p]@[idx] == q);
                            }
                        }
                    }
                    let n_arms = if conds_for_guards.len() < cases.bodies.len() {
                        conds_for_guards.len()
                    } else {
                        cases.bodies.len()
                    };
                    let mut k: usize = 0;
                    while k < n_arms
                        invariant
                            self.wf(),
                            self.sig == old(self).sig,
                            self.ops@.len() >= mid.ops@.len() + 2,
                            self.registers@.len() >= mid.registers@.len(),
                            self.instances@.len() >= mid.instances@.len(),
                            view_extends(w_state, *self),
                            fuel >= 1,
                            n_arms <= conds_for_guards@.len(),
                            n_arms <= cases.bodies@.len(),
                            k <= n_arms,
                        decreases n_arms - k,
                    {
                        let arm_guard = guard.duplicate().and(
                            ItprtGuard::Wire(ItprtWireId(conds_for_guards[k].0)),
                        );
                        let ghost before_arm = *self;
                        let arm_step = self.explore(
                            env,
                            cases.bodies[k],
                            reducer,
                            &arm_guard,
                            fuel - 1,
                        );
                        proof {
                            lemma_view_extends_trans(w_state, before_arm, *self);
                        }
                        match arm_step {
                            Ok(()) => {},
                            Err(v) => {
                                proof {
                                    lemma_view_extends_trans(*old(self), mid, w_state);
                                    lemma_view_extends_trans(*old(self), w_state, *self);
                                }
                                return Err(v);
                            },
                        }
                        k = k + 1;
                    }
                    match &cases.dflt {
                        Some(dflt_region) => {
                            let mut arm_conds: Vec<ItprtGuard> = Vec::new();
                            let mut c: usize = 0;
                            while c < conds_for_guards.len()
                                invariant
                                    c <= conds_for_guards@.len(),
                                decreases conds_for_guards@.len() - c,
                            {
                                arm_conds.push(
                                    ItprtGuard::Wire(ItprtWireId(conds_for_guards[c].0)),
                                );
                                c = c + 1;
                            }
                            let none_taken = ItprtGuard::Not(Box::new(ItprtGuard::Or(arm_conds)));
                            let dflt_guard = guard.duplicate().and(none_taken);
                            let ghost before_dflt = *self;
                            let dflt_step = self.explore(
                                env,
                                *dflt_region,
                                reducer,
                                &dflt_guard,
                                fuel - 1,
                            );
                            proof {
                                lemma_view_extends_trans(w_state, before_dflt, *self);
                            }
                            match dflt_step {
                                Ok(()) => {},
                                Err(v) => {
                                    proof {
                                        lemma_view_extends_trans(*old(self), mid, w_state);
                                        lemma_view_extends_trans(*old(self), w_state, *self);
                                    }
                                    return Err(v);
                                },
                            }
                        },
                        None => {},
                    }
                    proof {
                        lemma_selection_persists(w_state, *self, from as int, true);
                        assert(exists|p: int| selection_recorded(*self, p, true));
                        lemma_view_extends_trans(mid, w_state, *self);
                    }
                },
                OpEnum::HwModule(m) => {
                    return Err(StructuralViolation::UnsupportedOperation(m.id));
                },
                OpEnum::ItprtCondCheck(c) => {
                    return Err(StructuralViolation::UnsupportedOperation(c.id));
                },
                OpEnum::EventDef(e) => {
                    return Err(StructuralViolation::UnsupportedOperation(e.id));
                },
            }
            i = i + 1;
            proof {
                assert(rest.subrange(1, rest.len() as int) =~= children.subrange(
                    i as int,
                    children.len() as int,
                ));
                assert(view_extends(mid, *self));
                lemma_view_extends_trans(*old(self), mid, *self);
                assert forall|k2: int|
                    0 <= k2 < i && (#[trigger] children[k2]).0 < env.ops@.len() && (
                    env.ops@[children[k2].0 as int] is Select || env.ops@[children[k2].0 as int]
                        is Cases) implies exists|p: int|
                    #[trigger] selection_recorded(
                        *self,
                        p,
                        env.ops@[children[k2].0 as int] is Cases,
                    ) by {
                    let c = env.ops@[children[k2].0 as int] is Cases;
                    if k2 < i - 1 {
                        let p = choose|p: int| selection_recorded(mid, p, c);
                        lemma_selection_persists(mid, *self, p, c);
                    }
                }
            }
        }
        proof {
            assert(children.subrange(i as int, children.len() as int) =~= Seq::<OpId>::empty());
        }
        Ok(())
    }
}

} // verus!
