//! The source intermediate representation that the flattening engine reads.
//!
//! A design is three index-addressed tables: entities (wires), operations,
//! and regions. Structural identifiers are plain indices into those tables;
//! the engine consumes them read-only through `CmtIR`'s query methods.

use vstd::prelude::*;

use crate::common::ArrayAttr;
use crate::common::BoolAttr;
use crate::common::CombBinaryPredicate;
use crate::common::CombICmpPredicate;
use crate::common::CombUnaryPredicate;
use crate::common::CombVariadicPredicate;
use crate::common::ConstantAttr;
use crate::common::DataTypeEnum;
use crate::common::StringAttr;
use crate::error::StructuralViolation;

verus! {

/// Anything that carries a dense numeric identity.
pub trait Id: Sized {
    /// The identity as the contracts see it.
    spec fn spec_id(&self) -> usize;

    /// Read the identity.
    fn id(&self) -> (r: usize)
        ensures
            r == self.spec_id(),
    ;

    /// Replace the identity.
    fn set_id(&mut self, id: usize)
        ensures
            final(self).spec_id() == id,
    ;
}

/// A structural identifier of an entity (a wire) in the source design.
#[derive(Clone, Copy, Debug, PartialEq, Eq, Structural, Hash)]
pub struct EntityId(pub usize);

impl Id for EntityId {
    open spec fn spec_id(&self) -> usize {
        self.0
    }

    fn id(&self) -> usize {
        self.0
    }

    fn set_id(&mut self, id: usize) {
        self.0 = id;
    }
}

/// A structural identifier of an operation in the source design.
#[derive(Clone, Copy, Debug, PartialEq, Eq, Structural, Hash)]
pub struct OpId(pub usize);

impl Id for OpId {
    open spec fn spec_id(&self) -> usize {
        self.0
    }

    fn id(&self) -> usize {
        self.0
    }

    fn set_id(&mut self, id: usize) {
        self.0 = id;
    }
}

/// A structural identifier of a region in the source design.
#[derive(Clone, Copy, Debug, PartialEq, Eq, Structural, Hash)]
pub struct RegionId(pub usize);

impl Id for RegionId {
    open spec fn spec_id(&self) -> usize {
        self.0
    }

    fn id(&self) -> usize {
        self.0
    }

    fn set_id(&mut self, id: usize) {
        self.0 = id;
    }
}

/// An ordered body of operations, owned by a module or by one arm of a
/// region-bodied selection.
#[derive(Debug)]
pub struct Region {
    /// This region's identity in the region table.
    pub id: usize,
    /// Whether the region isolates names from its surroundings.
    pub isolated: bool,
    /// The operations of the region, in program order.
    pub op_children: Vec<OpId>,
    /// The entities declared in the region.
    pub entity_children: Vec<EntityId>,
}

impl Id for Region {
    open spec fn spec_id(&self) -> usize {
        self.id
    }

    fn id(&self) -> usize {
        self.id
    }

    fn set_id(&mut self, id: usize) {
        self.id = id;
    }
}

impl Region {
    /// An empty region awaiting children.
    pub fn new(isolated: bool) -> (r: Region)
        ensures
            r.id == 0,
            r.isolated == isolated,
            r.op_children@.len() == 0,
            r.entity_children@.len() == 0,
    {
        Region { id: 0, isolated, op_children: Vec::new(), entity_children: Vec::new() }
    }

    /// This region's identifier.
    pub fn as_id(&self) -> (r: RegionId)
        ensures
            r.0 == self.id,
    {
        RegionId(self.id)
    }

    /// Append an operation to the region; an operation may stand in a
    /// region only once.
    pub fn add_op_child(&mut self, op: OpId) -> (r: Result<(), StructuralViolation>)
        ensures
            match r {
                Ok(()) => !old(self).op_children@.contains(op)
                    && final(self).op_children@ == old(self).op_children@.push(op)
                    && final(self).entity_children@ == old(self).entity_children@
                    && final(self).id == old(self).id
                    && final(self).isolated == old(self).isolated,
                Err(v) => old(self).op_children@.contains(op) && *final(self) == *old(self)
                    && v == StructuralViolation::MalformedOperation(op.0),
            },
    {
        let mut i: usize = 0;
        while i < self.op_children.len()
            invariant
                i <= self.op_children@.len(),
                forall|k: int| 0 <= k < i ==> self.op_children@[k] != op,
            decreases self.op_children@.len() - i,
        {
            if self.op_children[i].0 == op.0 {
                return Err(StructuralViolation::MalformedOperation(op.0));
            }
            i = i + 1;
        }
        self.op_children.push(op);
        Ok(())
    }

    /// Append an entity to the region; an entity may stand in a region only
    /// once.
    pub fn add_entity_child(&mut self, entity: EntityId) -> (r: Result<(), StructuralViolation>)
        ensures
            match r {
                Ok(()) => !old(self).entity_children@.contains(entity)
                    && final(self).entity_children@ == old(self).entity_children@.push(entity)
                    && final(self).op_children@ == old(self).op_children@
                    && final(self).id == old(self).id
                    && final(self).isolated == old(self).isolated,
                Err(v) => old(self).entity_children@.contains(entity) && *final(self) == *old(self)
                    && v == StructuralViolation::MalformedOperation(entity.0),
            },
    {
        let mut i: usize = 0;
        while i < self.entity_children.len()
            invariant
                i <= self.entity_children@.len(),
                forall|k: int| 0 <= k < i ==> self.entity_children@[k] != entity,
            decreases self.entity_children@.len() - i,
        {
            if self.entity_children[i].0 == entity.0 {
                return Err(StructuralViolation::MalformedOperation(entity.0));
            }
            i = i + 1;
        }
        self.entity_children.push(entity);
        Ok(())
    }
}

/// A wire of the source design: the entity whose data type the flat value
/// table copies.
#[derive(Debug)]
pub struct Wire {
    /// This wire's identity in the entity table.
    pub id: usize,
    /// The region that declares the wire.
    pub parent: Option<RegionId>,
    /// The wire's data type.
    pub dtype: Option<DataTypeEnum>,
    /// An optional label.
    pub name: Option<StringAttr>,
    /// Whether the wire was marked for diagnostics.
    pub debug: Option<BoolAttr>,
}

impl Wire {
    /// A fresh wire, not yet placed in any table or region.
    pub fn new(
        dtype: Option<DataTypeEnum>,
        name: Option<StringAttr>,
        debug: Option<BoolAttr>,
    ) -> (r: Wire)
        ensures
            r.id == 0,
            r.parent is None,
            r.dtype is Some <==> dtype is Some,
    {
        Wire { id: 0, parent: None, dtype, name, debug }
    }
}

/// A module symbol entity of the source design.
#[derive(Debug)]
pub struct Module {
    /// This entity's identity in the entity table.
    pub id: usize,
    /// The region that declares the entity.
    pub parent: Option<RegionId>,
    /// Modules carry no data type.
    pub dtype: Option<DataTypeEnum>,
    /// The module's name.
    pub name: Option<StringAttr>,
}

impl Module {
    /// A fresh module symbol, not yet placed in any table or region.
    pub fn new(dtype: Option<DataTypeEnum>, name: Option<StringAttr>) -> (r: Module)
        ensures
            r.id == 0,
            r.parent is None,
            r.dtype is Some <==> dtype is Some,
    {
        Module { id: 0, parent: None, dtype, name }
    }
}

/// Any entity the source design may declare.
#[derive(Debug)]
pub enum EntityEnum {
    /// A wire.
    Wire(Wire),
    /// A module symbol.
    Module(Module),
}

impl EntityEnum {
    /// The stored data type, as the contracts see it.
    pub open spec fn spec_dtype(&self) -> Option<DataTypeEnum> {
        match self {
            EntityEnum::Wire(w) => w.dtype,
            EntityEnum::Module(m) => m.dtype,
        }
    }

    /// The identity, as the contracts see it.
    pub open spec fn spec_id(&self) -> usize {
        match self {
            EntityEnum::Wire(w) => w.id,
            EntityEnum::Module(m) => m.id,
        }
    }

    /// A copy of the entity's data type, present exactly when one is
    /// stored, with exactly the stored shape.
    pub fn get_dtype(&self) -> (r: Option<DataTypeEnum>)
        ensures
            r is Some <==> self.spec_dtype() is Some,
            self.spec_dtype() matches Some(d0) ==> (r matches Some(d) && d@ == d0@),
    {
        match self {
            EntityEnum::Wire(w) => match &w.dtype {
                Some(d) => Some(d.duplicate()),
                None => None,
            },
            EntityEnum::Module(m) => match &m.dtype {
                Some(d) => Some(d.duplicate()),
                None => None,
            },
        }
    }

    /// This entity's identifier.
    pub fn as_id(&self) -> (r: EntityId)
        ensures
            r.0 == self.spec_id(),
    {
        EntityId(self.id())
    }

    /// Read the identity.
    pub fn id(&self) -> (r: usize)
        ensures
            r == self.spec_id(),
    {
        match self {
            EntityEnum::Wire(w) => w.id,
            EntityEnum::Module(m) => m.id,
        }
    }

    /// Replace the identity, leaving every other field as it was.
    pub fn set_id(&mut self, id: usize)
        ensures
            final(self).spec_id() == id,
            final(self).spec_dtype() == old(self).spec_dtype(),
            (*final(self)) is Wire <==> (*old(self)) is Wire,
    {
        match self {
            EntityEnum::Wire(w) => {
                w.id = id;
            },
            EntityEnum::Module(m) => {
                m.id = id;
            },
        }
    }
}

/// The kind of a generic combinational operation; the flattening traversal
/// treats every kind alike, as a pure function of its operands.
#[derive(Clone, Debug)]
pub enum CombKind {
    /// A plain connection.
    Assign,
    /// A bit-level reinterpretation.
    BitCast,
    /// A constant bit vector.
    Constant(ConstantAttr),
    /// An aggregate constant.
    AggregateConstant,
    /// Array concatenation.
    ArrayConcat,
    /// Array construction.
    ArrayCreate,
    /// Array element read.
    ArrayGet,
    /// Array slice.
    ArraySlice,
    /// Struct construction.
    StructCreate,
    /// Struct decomposition into all fields.
    StructExplode,
    /// Struct field read.
    StructExtract,
    /// Struct field replacement.
    StructInject,
    /// A variadic operator.
    Variadic(CombVariadicPredicate),
    /// A binary operator.
    Binary(CombBinaryPredicate),
    /// A comparison operator.
    ICmp(CombICmpPredicate),
    /// A two-way multiplexer.
    Mux2,
    /// A unary operator.
    Unary(CombUnaryPredicate),
}

/// A module definition: the unit the traversal flattens.
#[derive(Debug)]
pub struct HwModule {
    /// This operation's identity in the operation table.
    pub id: usize,
    /// The region holding the operation.
    pub parent: Option<RegionId>,
    /// The module's name.
    pub name: Option<StringAttr>,
    /// Whether this module is the design's top.
    pub top: Option<BoolAttr>,
    /// Names of the input ports.
    pub arg_names: Option<ArrayAttr>,
    /// Types of the input ports.
    pub arg_types: Option<ArrayAttr>,
    /// Names of the output ports.
    pub output_names: Option<ArrayAttr>,
    /// Types of the output ports.
    pub output_types: Option<ArrayAttr>,
    /// The module's body.
    pub body: Option<RegionId>,
}

/// The input-port operation of a module body: defines the port wires.
#[derive(Debug)]
pub struct HwInput {
    /// This operation's identity in the operation table.
    pub id: usize,
    /// The region holding the operation.
    pub parent: Option<RegionId>,
    /// The input port wires, in port order.
    pub inputs: Vec<EntityId>,
}

/// The output-port operation of a module body: uses the port wires.
#[derive(Debug)]
pub struct HwOutput {
    /// This operation's identity in the operation table.
    pub id: usize,
    /// The region holding the operation.
    pub parent: Option<RegionId>,
    /// The output port wires, in port order.
    pub outputs: Vec<EntityId>,
}

/// A submodule instantiation, inlined away by the traversal.
#[derive(Debug)]
pub struct HwInstance {
    /// This operation's identity in the operation table.
    pub id: usize,
    /// The region holding the operation.
    pub parent: Option<RegionId>,
    /// The wires the instance drives, in the callee's output port order.
    pub outputs: Vec<EntityId>,
    /// The wires the instance reads, in the callee's input port order.
    pub inputs: Vec<EntityId>,
    /// The instantiated module.
    pub target_op_id: Option<OpId>,
    /// The instance's name.
    pub name: Option<StringAttr>,
}

/// A clocked register; reset semantics are unsupported.
#[derive(Debug)]
pub struct SeqCompReg {
    /// This operation's identity in the operation table.
    pub id: usize,
    /// The region holding the operation.
    pub parent: Option<RegionId>,
    /// The next-state wire.
    pub input: Option<EntityId>,
    /// The current-state wire.
    pub output: Option<EntityId>,
    /// The clock wire.
    pub clk: Option<EntityId>,
    /// An unsupported reset wire; its presence is a structural violation.
    pub reset: Option<EntityId>,
    /// An unsupported reset value; its presence is a structural violation.
    pub reset_val: Option<EntityId>,
}

/// A generic combinational operation: reads its uses, drives its defs.
#[derive(Clone, Debug)]
pub struct CombOp {
    /// This operation's identity in the operation table.
    pub id: usize,
    /// The region holding the operation.
    pub parent: Option<RegionId>,
    /// What the operation computes.
    pub kind: CombKind,
    /// The operand wires.
    pub uses: Vec<EntityId>,
    /// The result wires.
    pub defs: Vec<EntityId>,
}

/// A value-bodied one-hot selection.
#[derive(Debug)]
pub struct Select {
    /// This operation's identity in the operation table.
    pub id: usize,
    /// The region holding the operation.
    pub parent: Option<RegionId>,
    /// The selected result wire.
    pub lhs: Option<EntityId>,
    /// The value chosen when no condition holds.
    pub default: Option<EntityId>,
    /// The condition wires, one per candidate.
    pub conds: Vec<EntityId>,
    /// The candidate value wires.
    pub values: Vec<EntityId>,
    /// Whether selection is one-hot; anything else is unsupported.
    pub onehot: Option<BoolAttr>,
}

/// A region-bodied one-hot selection: each arm is a region flattened under
/// its condition's guard.
#[derive(Debug)]
pub struct Cases {
    /// This operation's identity in the operation table.
    pub id: usize,
    /// The region holding the operation.
    pub parent: Option<RegionId>,
    /// The condition wires, one per arm.
    pub conds: Vec<EntityId>,
    /// Whether selection is one-hot; anything else is unsupported.
    pub onehot: Option<BoolAttr>,
    /// The body taken when no condition holds.
    pub dflt: Option<RegionId>,
    /// The arm bodies, one per condition.
    pub bodies: Vec<RegionId>,
}

/// A selector-check operation of the flattened form: it evaluates the
/// condition wires of a selection. It is produced by flattening, never
/// consumed by it.
#[derive(Debug)]
pub struct ItprtCondCheck {
    /// This operation's identity in the operation table.
    pub id: usize,
    /// The region holding the operation.
    pub parent: Option<RegionId>,
    /// The condition wires.
    pub conds: Vec<EntityId>,
    /// Whether the selection declared a default arm.
    pub has_default: Option<BoolAttr>,
    /// Whether the selection is one-hot.
    pub onehot: Option<BoolAttr>,
}

/// An operation of a dialect the flattening engine does not interpret;
/// reaching one is a structural violation.
#[derive(Debug)]
pub struct EventDef {
    /// This operation's identity in the operation table.
    pub id: usize,
    /// The region holding the operation.
    pub parent: Option<RegionId>,
    /// The defined entity.
    pub lhs: Option<EntityId>,
}

/// Any operation the source design may hold.
#[derive(Debug)]
pub enum OpEnum {
    /// A module definition.
    HwModule(HwModule),
    /// A module's input-port operation.
    HwInput(HwInput),
    /// A module's output-port operation.
    HwOutput(HwOutput),
    /// A submodule instantiation.
    HwInstance(HwInstance),
    /// A clocked register.
    SeqCompReg(SeqCompReg),
    /// A generic combinational operation.
    Comb(CombOp),
    /// A value-bodied one-hot selection.
    Select(Select),
    /// A region-bodied one-hot selection.
    Cases(Cases),
    /// A selector check of the flattened form.
    ItprtCondCheck(ItprtCondCheck),
    /// An uninterpreted operation of another dialect.
    EventDef(EventDef),
}

impl OpEnum {
    /// The identity, as the contracts see it.
    pub open spec fn spec_id(&self) -> usize {
        match self {
            OpEnum::HwModule(o) => o.id,
            OpEnum::HwInput(o) => o.id,
            OpEnum::HwOutput(o) => o.id,
            OpEnum::HwInstance(o) => o.id,
            OpEnum::SeqCompReg(o) => o.id,
            OpEnum::Comb(o) => o.id,
            OpEnum::Select(o) => o.id,
            OpEnum::Cases(o) => o.id,
            OpEnum::ItprtCondCheck(o) => o.id,
            OpEnum::EventDef(o) => o.id,
        }
    }

    /// Read the identity.
    pub fn id(&self) -> (r: usize)
        ensures
            r == self.spec_id(),
    {
        match self {
            OpEnum::HwModule(o) => o.id,
            OpEnum::HwInput(o) => o.id,
            OpEnum::HwOutput(o) => o.id,
            OpEnum::HwInstance(o) => o.id,
            OpEnum::SeqCompReg(o) => o.id,
            OpEnum::Comb(o) => o.id,
            OpEnum::Select(o) => o.id,
            OpEnum::Cases(o) => o.id,
            OpEnum::ItprtCondCheck(o) => o.id,
            OpEnum::EventDef(o) => o.id,
        }
    }

    /// Replace the identity.
    pub fn set_id(&mut self, id: usize)
        ensures
            final(self).spec_id() == id,
    {
        match self {
            OpEnum::HwModule(o) => {
                o.id = id;
            },
            OpEnum::HwInput(o) => {
                o.id = id;
            },
            OpEnum::HwOutput(o) => {
                o.id = id;
            },
            OpEnum::HwInstance(o) => {
                o.id = id;
            },
            OpEnum::SeqCompReg(o) => {
                o.id = id;
            },
            OpEnum::Comb(o) => {
                o.id = id;
            },
            OpEnum::Select(o) => {
                o.id = id;
            },
            OpEnum::Cases(o) => {
                o.id = id;
            },
            OpEnum::ItprtCondCheck(o) => {
                o.id = id;
            },
            OpEnum::EventDef(o) => {
                o.id = id;
            },
        }
    }
}

/// The design's tables: entities, operations and regions, each addressed by
/// its dense identifier. The flattening engine reads them; a front end
/// builds them.
#[derive(Debug)]
pub struct CmtIR {
    /// The entity table; `EntityId(k)` names `entities[k]`.
    pub entities: Vec<EntityEnum>,
    /// The operation table; `OpId(k)` names `ops[k]`.
    pub ops: Vec<OpEnum>,
    /// The region table; `RegionId(k)` names `regions[k]`.
    pub regions: Vec<Region>,
}

impl CmtIR {
    /// An empty design.
    pub fn new() -> (r: CmtIR)
        ensures
            r.entities@.len() == 0,
            r.ops@.len() == 0,
            r.regions@.len() == 0,
    {
        CmtIR { entities: Vec::new(), ops: Vec::new(), regions: Vec::new() }
    }

    /// Place an entity in the table and hand back its identifier.
    pub fn add_entity(&mut self, entity: EntityEnum) -> (r: EntityId)
        ensures
            r.0 == old(self).entities@.len(),
            final(self).entities@.len() == old(self).entities@.len() + 1,
            final(self).entities@[r.0 as int].spec_id() == r.0,
            final(self).entities@[r.0 as int].spec_dtype() == entity.spec_dtype(),
            forall|k: int|
                0 <= k < old(self).entities@.len() ==> final(self).entities@[k] == #[trigger] old(
                    self,
                ).entities@[k],
            final(self).ops@ == old(self).ops@,
            final(self).regions@ == old(self).regions@,
    {
        let mut entity = entity;
        let id = self.entities.len();
        entity.set_id(id);
        self.entities.push(entity);
        EntityId(id)
    }

    /// Place an operation in the table and hand back its identifier.
    pub fn add_op(&mut self, op: OpEnum) -> (r: OpId)
        ensures
            r.0 == old(self).ops@.len(),
            final(self).ops@.len() == old(self).ops@.len() + 1,
            final(self).ops@[r.0 as int].spec_id() == r.0,
            forall|k: int|
                0 <= k < old(self).ops@.len() ==> final(self).ops@[k] == #[trigger] old(
                    self,
                ).ops@[k],
            final(self).entities@ == old(self).entities@,
            final(self).regions@ == old(self).regions@,
    {
        let mut op = op;
        let id = self.ops.len();
        op.set_id(id);
        self.ops.push(op);
        OpId(id)
    }

    /// Place a region in the table and hand back its identifier.
    pub fn add_region(&mut self, region: Region) -> (r: RegionId)
        ensures
            r.0 == old(self).regions@.len(),
            final(self).regions@.len() == old(self).regions@.len() + 1,
            final(self).regions@[r.0 as int].spec_id() == r.0,
            final(self).regions@[r.0 as int].op_children@ == region.op_children@,
            final(self).regions@[r.0 as int].entity_children@ == region.entity_children@,
            forall|k: int|
                0 <= k < old(self).regions@.len() ==> final(self).regions@[k] == #[trigger] old(
                    self,
                ).regions@[k],
            final(self).entities@ == old(self).entities@,
            final(self).ops@ == old(self).ops@,
    {
        let mut region = region;
        let id = self.regions.len();
        region.id = id;
        self.regions.push(region);
        RegionId(id)
    }

    /// Look an entity up; absent exactly when the identifier is out of the
    /// table's range.
    pub fn get_entity(&self, id: EntityId) -> (r: Option<&EntityEnum>)
        ensures
            match r {
                Some(e) => id.0 < self.entities@.len() && *e == self.entities@[id.0 as int],
                None => id.0 >= self.entities@.len(),
            },
    {
        if id.0 < self.entities.len() {
            Some(&self.entities[id.0])
        } else {
            None
        }
    }

    /// Look an operation up; absent exactly when the identifier is out of
    /// the table's range.
    pub fn get_op(&self, id: OpId) -> (r: Option<&OpEnum>)
        ensures
            match r {
                Some(op) => id.0 < self.ops@.len() && *op == self.ops@[id.0 as int],
                None => id.0 >= self.ops@.len(),
            },
    {
        if id.0 < self.ops.len() {
            Some(&self.ops[id.0])
        } else {
            None
        }
    }

    /// Look a region up; absent exactly when the identifier is out of the
    /// table's range.
    pub fn get_region(&self, id: RegionId) -> (r: Option<&Region>)
        ensures
            match r {
                Some(region) => id.0 < self.regions@.len() && *region == self.regions@[id.0 as int],
                None => id.0 >= self.regions@.len(),
            },
    {
        if id.0 < self.regions.len() {
            Some(&self.regions[id.0])
        } else {
            None
        }
    }
}

} // verus!
