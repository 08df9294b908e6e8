//! The flattening traversal: a recursive descent over the hierarchical
//! design that inlines every submodule instance.
//!
//! One call per region, dispatching on operation kind. Port operations
//! become channels only at the outermost module; inside an inlined
//! instance they alias the caller's wires instead, so a flattened design
//! exposes boundary channels for the top module's ports alone. Arms of a
//! region-bodied selection are flattened under the guard of their
//! condition.

use vstd::prelude::*;

use crate::error::StructuralViolation;
use crate::events::Event;
use crate::events::copy_ids;
use crate::guard::Condition;
use crate::ir::Cases;
use crate::ir::EntityEnum;
use crate::ir::EntityId;
use crate::ir::CmtIR;
use crate::ir::CombOp;
use crate::ir::HwInput;
use crate::ir::HwInstance;
use crate::ir::HwOutput;
use crate::ir::OpEnum;
use crate::ir::OpId;
use crate::ir::RegionId;
use crate::ir::SeqCompReg;
use crate::ir::Select;
use crate::common::BoolAttr;
use crate::interp::Interpreter;
use crate::interp::SMSetting;
use crate::interp::Setting;
use crate::interp::extends;
use crate::interp::spec_flatten_all;
use crate::interp::spec_flatten_one;
use crate::interp::lemma_extends_trans;
use crate::interp::map_extends;
use crate::guard::GuardShape;
use crate::guard::lemma_shapes_of;
use crate::reducer::lemma_bind_all_resolves;
use crate::reducer::spec_bind_all;

verus! {

/// Whatever the step appended, none of it is a boundary port: no
/// listening and no writing channel operation.
pub open spec fn adds_no_ports(pre: Interpreter, post: Interpreter) -> bool {
    forall|k: int|
        pre.events@.len() <= k < post.events@.len() ==> !((#[trigger] post.events@[k])
            is ListenChannel) && !(post.events@[k] is WriteChannel)
}

/// Appending no ports is preserved across two consecutive steps.
pub proof fn lemma_no_ports_trans(a: Interpreter, b: Interpreter, c: Interpreter)
    requires
        extends(a, b),
        extends(b, c),
        adds_no_ports(a, b),
        adds_no_ports(b, c),
    ensures
        adds_no_ports(a, c),
{
    assert forall|k: int|
        a.events@.len() <= k < c.events@.len() implies !((#[trigger] c.events@[k])
        is ListenChannel) && !(c.events@[k] is WriteChannel) by {
        if k < b.events@.len() {
            assert(c.events@[k] == b.events@[k]);
        }
    }
}

/// Whether an operation is a module definition marked as the design's
/// top.
pub open spec fn is_marked_top(op: OpEnum) -> bool {
    op matches OpEnum::HwModule(m) && m.top matches Some(b) && b.0
}

/// The `j`-th input-port wire of a region child, when that child is an
/// input-port operation, is bound to the `j`-th caller-supplied value.
pub open spec fn input_port_bound(
    cmt: &CmtIR,
    kid: OpId,
    j: int,
    m: Map<usize, usize>,
    inputs_from: Seq<usize>,
) -> bool {
    kid.0 < cmt.ops@.len() ==> (cmt.ops@[kid.0 as int] matches OpEnum::HwInput(h) ==> (
    h.inputs@.len() == inputs_from.len() && (0 <= j < h.inputs@.len() ==> (m.dom().contains(
        h.inputs@[j].0,
    ) && m[h.inputs@[j].0] == inputs_from[j]))))
}

/// The `j`-th output-port wire of a region child, when that child is an
/// output-port operation, is bound to the `j`-th caller-supplied value.
pub open spec fn output_port_bound(
    cmt: &CmtIR,
    kid: OpId,
    j: int,
    m: Map<usize, usize>,
    outputs_to: Seq<usize>,
) -> bool {
    kid.0 < cmt.ops@.len() ==> (cmt.ops@[kid.0 as int] matches OpEnum::HwOutput(h) ==> (
    h.outputs@.len() == outputs_to.len() && (0 <= j < h.outputs@.len() ==> (m.dom().contains(
        h.outputs@[j].0,
    ) && m[h.outputs@[j].0] == outputs_to[j]))))
}

/// Every port operation among the first `upto` children of a region is
/// bound, port for port, to the caller-supplied flat values: input port
/// wires to `inputs_from`, output port wires to `outputs_to`.
pub open spec fn ports_bound_to(
    cmt: &CmtIR,
    kids: Seq<OpId>,
    upto: int,
    m: Map<usize, usize>,
    inputs_from: Seq<usize>,
    outputs_to: Seq<usize>,
) -> bool {
    &&& (forall|k: int, j: int|
        0 <= k < upto && k < kids.len() ==> #[trigger] input_port_bound(
            cmt,
            kids[k],
            j,
            m,
            inputs_from,
        ))
    &&& (forall|k: int, j: int|
        0 <= k < upto && k < kids.len() ==> #[trigger] output_port_bound(
            cmt,
            kids[k],
            j,
            m,
            outputs_to,
        ))
}

/// Recorded port bindings survive any later extension of the mapping.
pub proof fn lemma_ports_bound_persist(
    cmt: &CmtIR,
    kids: Seq<OpId>,
    upto: int,
    m1: Map<usize, usize>,
    m2: Map<usize, usize>,
    inputs_from: Seq<usize>,
    outputs_to: Seq<usize>,
)
    requires
        ports_bound_to(cmt, kids, upto, m1, inputs_from, outputs_to),
        map_extends(m1, m2),
    ensures
        ports_bound_to(cmt, kids, upto, m2, inputs_from, outputs_to),
{
    assert forall|k: int, j: int|
        0 <= k < upto && k < kids.len() implies #[trigger] input_port_bound(
        cmt,
        kids[k],
        j,
        m2,
        inputs_from,
    ) by {
        assert(input_port_bound(cmt, kids[k], j, m1, inputs_from));
        if kids[k].0 < cmt.ops@.len() && cmt.ops@[kids[k].0 as int] is HwInput {
            let h = cmt.ops@[kids[k].0 as int]->HwInput_0;
            if 0 <= j < h.inputs@.len() {
                assert(m1.dom().contains(h.inputs@[j].0));
            }
        }
    }
    assert forall|k: int, j: int|
        0 <= k < upto && k < kids.len() implies #[trigger] output_port_bound(
        cmt,
        kids[k],
        j,
        m2,
        outputs_to,
    ) by {
        assert(output_port_bound(cmt, kids[k], j, m1, outputs_to));
        if kids[k].0 < cmt.ops@.len() && cmt.ops@[kids[k].0 as int] is HwOutput {
            let h = cmt.ops@[kids[k].0 as int]->HwOutput_0;
            if 0 <= j < h.outputs@.len() {
                assert(m1.dom().contains(h.outputs@[j].0));
            }
        }
    }
}

/// The part of a traversal step's contract that every operation kind
/// shares: the program only grows, and under an inlined submodule no
/// boundary channel appears.
pub open spec fn step_extends(itfc: &Setting, pre: Interpreter, post: Interpreter) -> bool {
    &&& post.wf()
    &&& extends(pre, post)
    &&& ((*itfc) is SubModule ==> post.channels@.len() == pre.channels@.len() && adds_no_ports(
        pre,
        post,
    ))
}

/// The fewest events one operation adds when its step succeeds: a port
/// becomes a channel operation at top level only, a register becomes its
/// read/write pair, a combinational operation one event, a selection its
/// check and its selection event, a region-bodied selection at least its
/// check; an inlined instance may add none of its own.
pub open spec fn min_events_of_op(op: OpEnum, itfc: Setting) -> int {
    match op {
        OpEnum::HwInput(_) => if itfc is Top {
            1int
        } else {
            0int
        },
        OpEnum::HwOutput(_) => if itfc is Top {
            1int
        } else {
            0int
        },
        OpEnum::SeqCompReg(_) => 2,
        OpEnum::Comb(_) => 1,
        OpEnum::Select(_) => 2,
        OpEnum::Cases(_) => 1,
        _ => 0,
    }
}

/// The fewest events a region adds when its traversal succeeds: the sum
/// over its children.
pub open spec fn min_events_of_children(ops: Seq<OpEnum>, children: Seq<OpId>, itfc: Setting) -> int
    decreases children.len(),
{
    if children.len() == 0 {
        0
    } else {
        (if children[0].0 < ops.len() {
            min_events_of_op(ops[children[0].0 as int], itfc)
        } else {
            0
        }) + min_events_of_children(ops, children.subrange(1, children.len() as int), itfc)
    }
}

/// The region floor is never negative.
pub proof fn lemma_min_events_nonneg(ops: Seq<OpEnum>, children: Seq<OpId>, itfc: Setting)
    ensures
        min_events_of_children(ops, children, itfc) >= 0,
    decreases children.len(),
{
    if children.len() > 0 {
        lemma_min_events_nonneg(ops, children.subrange(1, children.len() as int), itfc);
    }
}

impl Interpreter {
    /// Flatten a whole design: the operation must be a module marked as
    /// top; its body is traversed at top level, so its ports become the
    /// design's channels.
    pub fn from_hw_module(cmt: &CmtIR, op_id: OpId) -> (r: Result<
        Interpreter,
        StructuralViolation,
    >)
        ensures
            match r {
                Ok(itprt) => ({
                    &&& itprt.wf()
                    &&& op_id.0 < cmt.ops@.len()
                    &&& is_marked_top(cmt.ops@[op_id.0 as int])
                    &&& (cmt.ops@[op_id.0 as int] matches OpEnum::HwModule(m) ==> (m.body
                        matches Some(b) ==> (b.0 < cmt.regions@.len() ==> itprt.events@.len()
                        >= min_events_of_children(
                        cmt.ops@,
                        cmt.regions@[b.0 as int].op_children@,
                        Setting::Top,
                    ))))
                }),
                Err(v) => (op_id.0 >= cmt.ops@.len() || !is_marked_top(cmt.ops@[op_id.0 as int]))
                    ==> v == StructuralViolation::MissingTopModule(op_id.0),
            },
            cmt.ops@[op_id.0 as int] matches OpEnum::HwModule(m2) ==> (m2.body matches Some(b2)
                ==> ((op_id.0 < cmt.ops@.len() && is_marked_top(cmt.ops@[op_id.0 as int]) && b2.0
                < cmt.regions@.len() && cmt.regions@[b2.0 as int].op_children@.len() == 0) ==> r
                is Ok)),
    {
        let mut this = Interpreter::new();
        let is_top = match cmt.get_op(op_id) {
            Some(OpEnum::HwModule(m)) => match &m.top {
                Some(flag) => flag.0,
                None => false,
            },
            _ => false,
        };
        if !is_top {
            return Err(StructuralViolation::MissingTopModule(op_id.0));
        }
        proof {
            assert(is_marked_top(cmt.ops@[op_id.0 as int]));
        }
        let fuel: u128 = ((cmt.ops.len() as u128) + (cmt.regions.len() as u128) + 2) * 4;
        match this.extend_with_hw_module(cmt, op_id, Setting::Top, fuel) {
            Ok(()) => Ok(this),
            Err(v) => Err(v),
        }
    }

    /// Flatten a module's body under a binding context: the callee of an
    /// instance is traversed with the instance's port bindings, the top
    /// module with the top context.
    pub fn extend_with_hw_module(
        &mut self,
        cmt: &CmtIR,
        op_id: OpId,
        itfc: Setting,
        fuel: u128,
    ) -> (r: Result<(), StructuralViolation>)
        requires
            old(self).wf(),
        ensures
            step_extends(&itfc, *old(self), *final(self)),
            r is Ok ==> (cmt.ops@[op_id.0 as int] matches OpEnum::HwModule(m) ==> (m.body
                matches Some(b) ==> (b.0 < cmt.regions@.len() ==> final(self).events@.len() >= old(
                self,
            ).events@.len() + min_events_of_children(
                cmt.ops@,
                cmt.regions@[b.0 as int].op_children@,
                itfc,
            )))),
            cmt.ops@[op_id.0 as int] matches OpEnum::HwModule(m2) ==> (m2.body matches Some(b2)
                ==> ((fuel >= 2 && op_id.0 < cmt.ops@.len() && b2.0 < cmt.regions@.len()
                && cmt.regions@[b2.0 as int].op_children@.len() == 0) ==> r is Ok)),
            itfc matches Setting::SubModule(s) ==> (r is Ok ==> (cmt.ops@[op_id.0 as int]
                matches OpEnum::HwModule(m3) ==> (m3.body matches Some(b3) ==> (b3.0
                < cmt.regions@.len() ==> ports_bound_to(
                cmt,
                cmt.regions@[b3.0 as int].op_children@,
                cmt.regions@[b3.0 as int].op_children@.len() as int,
                final(self).reducer.hash_map@,
                s.inputs_from@,
                s.outputs_to@,
            ))))),
        decreases fuel, 0int,
    {
        if fuel == 0 {
            return Err(StructuralViolation::RecursionLimit(op_id.0));
        }
        let body: RegionId = match cmt.get_op(op_id) {
            Some(OpEnum::HwModule(m)) => match &m.body {
                Some(region) => *region,
                None => {
                    return Err(StructuralViolation::MalformedOperation(op_id.0));
                },
            },
            _ => {
                return Err(StructuralViolation::MalformedOperation(op_id.0));
            },
        };
        let guard = itfc.condition();
        self.extend_with_region(cmt, body, &itfc, &guard, fuel - 1)
    }

    /// Flatten every operation of a region, in order, under a binding
    /// context and an active guard.
    #[verifier::loop_isolation(false)]
    pub fn extend_with_region(
        &mut self,
        cmt: &CmtIR,
        region_id: RegionId,
        itfc: &Setting,
        guard: &Condition,
        fuel: u128,
    ) -> (r: Result<(), StructuralViolation>)
        requires
            old(self).wf(),
        ensures
            step_extends(itfc, *old(self), *final(self)),
            (r is Ok && region_id.0 < cmt.regions@.len()) ==> final(self).events@.len() >= old(
                self,
            ).events@.len() + min_events_of_children(
                cmt.ops@,
                cmt.regions@[region_id.0 as int].op_children@,
                *itfc,
            ),
            (fuel > 0 && region_id.0 < cmt.regions@.len()
                && cmt.regions@[region_id.0 as int].op_children@.len() == 0) ==> r is Ok,
            itfc matches Setting::SubModule(s) ==> (r is Ok ==> (region_id.0 < cmt.regions@.len()
                ==> ports_bound_to(
                cmt,
                cmt.regions@[region_id.0 as int].op_children@,
                cmt.regions@[region_id.0 as int].op_children@.len() as int,
                final(self).reducer.hash_map@,
                s.inputs_from@,
                s.outputs_to@,
            ))),
        decreases fuel, 3int,
    {
        if fuel == 0 {
            return Err(StructuralViolation::RecursionLimit(region_id.0));
        }
        let region = match cmt.get_region(region_id) {
            Some(region) => region,
            None => {
                return Err(StructuralViolation::MalformedOperation(region_id.0));
            },
        };
        let mut seen_inputs: usize = 0;
        let mut seen_outputs: usize = 0;
        let mut scan: usize = 0;
        while scan < region.op_children.len()
            invariant
                seen_inputs <= 1,
                seen_outputs <= 1,
            decreases region.op_children@.len() - scan,
        {
            match cmt.get_op(region.op_children[scan]) {
                Some(OpEnum::HwInput(_)) => {
                    if seen_inputs >= 1 {
                        return Err(StructuralViolation::RepeatedInputPort(region_id.0));
                    }
                    seen_inputs = seen_inputs + 1;
                },
                Some(OpEnum::HwOutput(_)) => {
                    if seen_outputs >= 1 {
                        return Err(StructuralViolation::RepeatedOutputPort(region_id.0));
                    }
                    seen_outputs = seen_outputs + 1;
                },
                _ => {},
            }
            scan = scan + 1;
        }
        let ghost pre = *self;
        let ghost children = region.op_children@;
        proof {
            assert(children.subrange(0, children.len() as int) =~= children);
        }
        let mut i: usize = 0;
        while i < region.op_children.len()
            invariant
                self.wf(),
                i <= children.len(),
                extends(pre, *self),
                self.events@.len() >= pre.events@.len() + min_events_of_children(
                    cmt.ops@,
                    children,
                    *itfc,
                ) - min_events_of_children(
                    cmt.ops@,
                    children.subrange(i as int, children.len() as int),
                    *itfc,
                ),
                (*itfc) is SubModule ==> self.channels@.len() == pre.channels@.len()
                    && adds_no_ports(pre, *self),
                itfc matches Setting::SubModule(s2) ==> ports_bound_to(
                    cmt,
                    children,
                    i as int,
                    self.reducer.hash_map@,
                    s2.inputs_from@,
                    s2.outputs_to@,
                ),
                fuel >= 1,
            decreases region.op_children@.len() - i,
        {
            let op_id = region.op_children[i];
            let ghost mid = *self;
            let ghost rest = children.subrange(i as int, children.len() as int);
            proof {
                assert(rest[0] == children[i as int]);
                lemma_min_events_nonneg(
                    cmt.ops@,
                    rest.subrange(1, rest.len() as int),
                    *itfc,
                );
            }
            let step = match cmt.get_op(op_id) {
                Some(op) => op.to_interpret(self, cmt, itfc, guard, fuel - 1),
                None => Err(StructuralViolation::MalformedOperation(op_id.0)),
            };
            proof {
                lemma_extends_step(pre, mid, *self, itfc);
            }
            match step {
                Ok(()) => {},
                Err(v) => {
                    return Err(v);
                },
            }
            i = i + 1;
            proof {
                assert(rest.subrange(1, rest.len() as int) =~= children.subrange(
                    i as int,
                    children.len() as int,
                ));
                match itfc {
                    Setting::Top => {},
                    Setting::SubModule(s2) => {
                    lemma_ports_bound_persist(
                        cmt,
                        children,
                        i - 1,
                        mid.reducer.hash_map@,
                        self.reducer.hash_map@,
                        s2.inputs_from@,
                        s2.outputs_to@,
                    );
                    assert forall|j: int| true implies #[trigger] input_port_bound(
                        cmt,
                        children[i - 1],
                        j,
                        self.reducer.hash_map@,
                        s2.inputs_from@,
                    ) by {
                        if children[i - 1].0 < cmt.ops@.len() && cmt.ops@[children[i - 1].0 as int]
                            is HwInput {
                            let h = cmt.ops@[children[i - 1].0 as int]->HwInput_0;
                            if 0 <= j < h.inputs@.len() {
                                assert(self.reducer.hash_map@.dom().contains(h.inputs@[j].0));
                            }
                        }
                    }
                    assert forall|j: int| true implies #[trigger] output_port_bound(
                        cmt,
                        children[i - 1],
                        j,
                        self.reducer.hash_map@,
                        s2.outputs_to@,
                    ) by {
                        if children[i - 1].0 < cmt.ops@.len() && cmt.ops@[children[i - 1].0 as int]
                            is HwOutput {
                            let h = cmt.ops@[children[i - 1].0 as int]->HwOutput_0;
                            if 0 <= j < h.outputs@.len() {
                                assert(self.reducer.hash_map@.dom().contains(h.outputs@[j].0));
                            }
                        }
                    }
                    assert forall|k: int, j: int|
                        0 <= k < i && k < children.len() implies #[trigger] input_port_bound(
                        cmt,
                        children[k],
                        j,
                        self.reducer.hash_map@,
                        s2.inputs_from@,
                    ) by {
                        if k < i - 1 {
                            assert(input_port_bound(
                                cmt,
                                children[k],
                                j,
                                self.reducer.hash_map@,
                                s2.inputs_from@,
                            ));
                        }
                    }
                    assert forall|k: int, j: int|
                        0 <= k < i && k < children.len() implies #[trigger] output_port_bound(
                        cmt,
                        children[k],
                        j,
                        self.reducer.hash_map@,
                        s2.outputs_to@,
                    ) by {
                        if k < i - 1 {
                            assert(output_port_bound(
                                cmt,
                                children[k],
                                j,
                                self.reducer.hash_map@,
                                s2.outputs_to@,
                            ));
                        }
                    }
                    },
                }
            }
        }
        proof {
            assert(children.subrange(i as int, children.len() as int) =~= Seq::<OpId>::empty());
        }
        Ok(())
    }

    /// Flatten one generic combinational operation: its operands under the
    /// active guard, its results under no guard of their own, and one
    /// combinational event over the flattened identities.
    pub fn add_comb_from_op(&mut self, cmt: &CmtIR, op: &CombOp, condition: Condition) -> (r:
        Result<(), StructuralViolation>)
        requires
            old(self).wf(),
        ensures
            final(self).wf(),
            extends(*old(self), *final(self)),
            final(self).channels@.len() == old(self).channels@.len(),
            adds_no_ports(*old(self), *final(self)),
            r is Ok <==> (spec_flatten_all(
                old(self).reducer.hash_map@,
                old(self).guard_shapes(),
                cmt.entities@,
                op.uses@,
                condition@,
            ) matches Some(st1) && spec_flatten_all(
                st1.0,
                st1.1,
                cmt.entities@,
                op.defs@,
                GuardShape::Never,
            ) is Some),
            match r {
                Ok(()) => ({
                    let st1 = spec_flatten_all(
                        old(self).reducer.hash_map@,
                        old(self).guard_shapes(),
                        cmt.entities@,
                        op.uses@,
                        condition@,
                    )->Some_0;
                    let st2 = spec_flatten_all(
                        st1.0,
                        st1.1,
                        cmt.entities@,
                        op.defs@,
                        GuardShape::Never,
                    )->Some_0;
                    &&& final(self).reducer.hash_map@ == st2.0
                    &&& final(self).guard_shapes() == st2.1
                    &&& final(self).events@.len() == old(self).events@.len() + 1
                    &&& (final(self).events@.last() matches Event::Comb(c) && c.uses@ == st1.2
                        && c.defs@ == st2.2 && c.uses@.len()
                        == op.uses@.len() && c.defs@.len() == op.defs@.len() && (forall|j: int|
                        0 <= j < op.uses@.len() ==> c.uses@[j] == final(self).reducer.hash_map@[(#[trigger] op.uses@[j]).0]) && (forall|j: int|
                        0 <= j < op.defs@.len() ==> c.defs@[j] == final(self).reducer.hash_map@[(#[trigger] op.defs@[j]).0]))
                }),
                Err(_) => final(self).events@.len() == old(self).events@.len(),
            },
    {
        let ghost pre = *self;
        let use_ids = match self.add_entities(cmt, &op.uses, &condition) {
            Ok(ids) => ids,
            Err(v) => {
                return Err(v);
            },
        };
        let ghost mid = *self;
        let def_ids = match self.add_entities(cmt, &op.defs, &Condition::Never) {
            Ok(ids) => ids,
            Err(v) => {
                proof {
                    lemma_extends_trans(pre, mid, *self);
                }
                return Err(v);
            },
        };
        proof {
            lemma_extends_trans(pre, mid, *self);
            assert forall|j: int|
                0 <= j < op.uses@.len() implies use_ids@[j] == self.reducer.hash_map@[(
            #[trigger] op.uses@[j]).0] by {
                assert(mid.reducer.hash_map@.dom().contains(op.uses@[j].0));
            }
        }
        let comb = self.add_comb(use_ids, def_ids, OpEnum::Comb(op.clone()));
        self.add_event(Event::Comb(comb));
        Ok(())
    }
}

/// Extension and the no-ports clause carry over a completed sub-step.
proof fn lemma_extends_step(pre: Interpreter, mid: Interpreter, post: Interpreter, itfc: &Setting)
    requires
        extends(pre, mid),
        extends(mid, post),
        (*itfc) is SubModule ==> mid.channels@.len() == pre.channels@.len() && adds_no_ports(
            pre,
            mid,
        ),
        (*itfc) is SubModule ==> post.channels@.len() == mid.channels@.len() && adds_no_ports(
            mid,
            post,
        ),
    ensures
        extends(pre, post),
        (*itfc) is SubModule ==> post.channels@.len() == pre.channels@.len() && adds_no_ports(
            pre,
            post,
        ),
{
    lemma_extends_trans(pre, mid, post);
    if (*itfc) is SubModule {
        lemma_no_ports_trans(pre, mid, post);
    }
}

impl OpEnum {
    /// Flatten one operation, dispatching on its kind; an operation of a
    /// dialect the engine does not interpret is a structural violation.
    pub fn to_interpret(
        &self,
        itprt: &mut Interpreter,
        cmt: &CmtIR,
        itfc: &Setting,
        guard: &Condition,
        fuel: u128,
    ) -> (r: Result<(), StructuralViolation>)
        requires
            old(itprt).wf(),
        ensures
            step_extends(itfc, *old(itprt), *final(itprt)),
            r is Ok ==> final(itprt).events@.len() >= old(itprt).events@.len()
                + min_events_of_op(*self, *itfc),
            self matches OpEnum::HwModule(m) ==> r == Err::<(), StructuralViolation>(
                StructuralViolation::UnsupportedOperation(m.id),
            ),
            self matches OpEnum::ItprtCondCheck(c) ==> r == Err::<(), StructuralViolation>(
                StructuralViolation::UnsupportedOperation(c.id),
            ),
            self matches OpEnum::EventDef(e) ==> r == Err::<(), StructuralViolation>(
                StructuralViolation::UnsupportedOperation(e.id),
            ),
            self matches OpEnum::SeqCompReg(reg) ==> ((reg.reset is Some || reg.reset_val
                is Some) ==> r == Err::<(), StructuralViolation>(
                StructuralViolation::RegisterReset(reg.id),
            )),
            self matches OpEnum::Select(sel) ==> (sel.onehot matches Some(BoolAttr(b)) ==> (!b
                ==> r == Err::<(), StructuralViolation>(
                StructuralViolation::NonOneHotSelection(sel.id),
            ))),
            self matches OpEnum::Cases(c) ==> (c.onehot matches Some(BoolAttr(b2)) ==> ((!b2
                && fuel > 0) ==> r == Err::<(), StructuralViolation>(
                StructuralViolation::NonOneHotSelection(c.id),
            ))),
            self matches OpEnum::HwInput(h) ==> (itfc matches Setting::SubModule(s) ==> (r is Ok
                ==> (h.inputs@.len() == s.inputs_from@.len() && (forall|j: int|
                0 <= j < h.inputs@.len() ==> final(itprt).reducer.hash_map@.dom().contains(
                    (#[trigger] h.inputs@[j]).0,
                ) && final(itprt).reducer.hash_map@[h.inputs@[j].0] == s.inputs_from@[j])))),
            self matches OpEnum::HwOutput(h) ==> (itfc matches Setting::SubModule(s) ==> (r is Ok
                ==> (h.outputs@.len() == s.outputs_to@.len() && (forall|j: int|
                0 <= j < h.outputs@.len() ==> final(itprt).reducer.hash_map@.dom().contains(
                    (#[trigger] h.outputs@[j]).0,
                ) && final(itprt).reducer.hash_map@[h.outputs@[j].0] == s.outputs_to@[j])))),
            self matches OpEnum::HwInput(h) ==> ((*itfc) is Top ==> (r is Ok ==> ({
                let folded = spec_flatten_all(
                    old(itprt).reducer.hash_map@,
                    old(itprt).guard_shapes(),
                    cmt.entities@,
                    h.inputs@,
                    GuardShape::Must,
                )->Some_0;
                &&& final(itprt).events@.len() == old(itprt).events@.len() + 1
                &&& (final(itprt).events@.last() matches Event::ListenChannel(lc) && lc.values@
                    == folded.2)
                &&& final(itprt).channels@.len() == old(itprt).channels@.len() + h.inputs@.len()
            }))),
            self matches OpEnum::HwOutput(h) ==> ((*itfc) is Top ==> (r is Ok ==> ({
                let folded = spec_flatten_all(
                    old(itprt).reducer.hash_map@,
                    old(itprt).guard_shapes(),
                    cmt.entities@,
                    h.outputs@,
                    GuardShape::Must,
                )->Some_0;
                &&& final(itprt).events@.len() == old(itprt).events@.len() + 1
                &&& (final(itprt).events@.last() matches Event::WriteChannel(wc) && wc.values@
                    == folded.2)
                &&& final(itprt).channels@.len() == old(itprt).channels@.len() + h.outputs@.len()
            }))),
            self matches OpEnum::Comb(op) ==> (r is Ok ==> ({
                let st1 = spec_flatten_all(
                    old(itprt).reducer.hash_map@,
                    old(itprt).guard_shapes(),
                    cmt.entities@,
                    op.uses@,
                    guard@,
                )->Some_0;
                let st2 = spec_flatten_all(st1.0, st1.1, cmt.entities@, op.defs@, GuardShape::Never)->Some_0;
                &&& final(itprt).events@.len() == old(itprt).events@.len() + 1
                &&& (final(itprt).events@.last() matches Event::Comb(c2) && c2.uses@ == st1.2
                    && c2.defs@ == st2.2)
            })),
            self matches OpEnum::SeqCompReg(reg) ==> (r is Ok ==> ({
                &&& final(itprt).events@.len() == old(itprt).events@.len() + 2
                &&& (final(itprt).events@[final(itprt).events@.len() - 2]
                    matches Event::LdReg(ld) && ld.regs@.len() == 1 && ld.regs@[0] == final(itprt).reducer.hash_map@[reg.output->Some_0.0])
                &&& (final(itprt).events@.last() matches Event::StReg(st) && st.values@.len() == 1
                    && st.values@[0] == final(itprt).reducer.hash_map@[reg.input->Some_0.0]
                    && st.regs@.len() == 1 && st.regs@[0] == final(itprt).reducer.hash_map@[reg.output->Some_0.0])
            })),
            self matches OpEnum::Select(sel) ==> (r is Ok ==> ({
                let stepped = spec_flatten_select(
                    old(itprt).reducer.hash_map@,
                    old(itprt).guard_shapes(),
                    cmt.entities@,
                    sel.conds@,
                    sel.values@,
                    sel.default,
                    sel.lhs->Some_0,
                    guard@,
                )->Some_0;
                &&& final(itprt).events@.len() == old(itprt).events@.len() + 2
                &&& (final(itprt).events@[final(itprt).events@.len() - 2]
                    matches Event::CondCheck(cc) && cc.conds@ == stepped.4 && cc.result
                    == stepped.2 && cc.onehot && cc.has_default == (sel.default is Some))
                &&& (final(itprt).events@.last() matches Event::Select(se) && se.idx == stepped.2
                    && se.result == stepped.3 && se.values@ == (match stepped.6 {
                    Some(d) => stepped.5.push(d),
                    None => stepped.5,
                }))
            })),
        decreases fuel, 2int,
    {
        match self {
            OpEnum::HwInput(hw_input) => hw_input.to_interpret(itprt, cmt, itfc),
            OpEnum::HwOutput(hw_output) => hw_output.to_interpret(itprt, cmt, itfc),
            OpEnum::HwInstance(hw_instance) => hw_instance.to_interpret(itprt, cmt, itfc, fuel),
            OpEnum::SeqCompReg(reg) => reg.to_interpret(itprt, cmt, itfc),
            OpEnum::Comb(comb) => itprt.add_comb_from_op(cmt, comb, guard.duplicate()),
            OpEnum::Select(select) => select.to_interpret(itprt, cmt, itfc, guard),
            OpEnum::Cases(cases) => cases.to_interpret(itprt, cmt, itfc, guard, fuel),
            OpEnum::HwModule(m) => Err(StructuralViolation::UnsupportedOperation(m.id)),
            OpEnum::ItprtCondCheck(c) => Err(StructuralViolation::UnsupportedOperation(c.id)),
            OpEnum::EventDef(e) => Err(StructuralViolation::UnsupportedOperation(e.id)),
        }
    }
}

impl HwInput {
    /// Flatten a module's input-port operation. At top level the port
    /// wires become fresh flat values behind one listening channel
    /// operation; inside an inlined submodule they alias the caller's
    /// actual input values and nothing is emitted.
    #[verifier::loop_isolation(false)]
    pub fn to_interpret(&self, itprt: &mut Interpreter, cmt: &CmtIR, itfc: &Setting) -> (r: Result<
        (),
        StructuralViolation,
    >)
        requires
            old(itprt).wf(),
        ensures
            step_extends(itfc, *old(itprt), *final(itprt)),
            (*itfc) is Top ==> (r is Ok <==> spec_flatten_all(
                old(itprt).reducer.hash_map@,
                old(itprt).guard_shapes(),
                cmt.entities@,
                self.inputs@,
                GuardShape::Must,
            ) is Some),
            itfc matches Setting::SubModule(s) ==> (r is Ok <==> (s.condition is Must
                && self.inputs@.len() == s.inputs_from@.len() && (forall|t: int|
                0 <= t < s.inputs_from@.len() ==> (#[trigger] s.inputs_from@[t]) < old(
                    itprt,
                ).reducer.n) && spec_bind_all(
                old(itprt).reducer.hash_map@,
                self.inputs@,
                s.inputs_from@,
            ) is Some)),
            match r {
                Ok(()) => match itfc {
                    Setting::Top => ({
                        let folded = spec_flatten_all(
                            old(itprt).reducer.hash_map@,
                            old(itprt).guard_shapes(),
                            cmt.entities@,
                            self.inputs@,
                            GuardShape::Must,
                        )->Some_0;
                        &&& final(itprt).reducer.hash_map@ == folded.0
                        &&& final(itprt).guard_shapes() == folded.1
                        &&& final(itprt).events@.len() == old(itprt).events@.len() + 1
                        &&& (final(itprt).events@.last() matches Event::ListenChannel(lc)
                            && lc.values@ == folded.2 && lc.values@.len() == self.inputs@.len() && (
                        forall|j: int|
                            0 <= j < self.inputs@.len() ==> lc.values@[j] == final(itprt).reducer.hash_map@[(#[trigger] self.inputs@[j]).0]))
                        &&& final(itprt).channels@.len() == old(itprt).channels@.len()
                            + self.inputs@.len()
                    }),
                    Setting::SubModule(s) => ({
                        &&& final(itprt).events@ == old(itprt).events@
                        &&& final(itprt).channels@ == old(itprt).channels@
                        &&& self.inputs@.len() == s.inputs_from@.len()
                        &&& (forall|j: int|
                            0 <= j < self.inputs@.len() ==> final(itprt).reducer.hash_map@.dom().contains((#[trigger] self.inputs@[j]).0)
                                && final(itprt).reducer.hash_map@[self.inputs@[j].0]
                                == s.inputs_from@[j])
                    }),
                },
                Err(_) => true,
            },
    {
        match itfc {
            Setting::Top => {
                let ghost pre = *itprt;
                let ids = match itprt.add_entities(cmt, &self.inputs, &Condition::Must) {
                    Ok(ids) => ids,
                    Err(v) => {
                        return Err(v);
                    },
                };
                let ghost mid = *itprt;
                proof {
                    assert forall|j: int| 0 <= j < ids@.len() implies (#[trigger] ids@[j])
                        < itprt.values@.len() by {
                        assert(ids@[j] == itprt.reducer.hash_map@[(self.inputs@[j]).0]);
                    }
                }
                let listen = itprt.add_listen_channel(ids);
                let event = Event::ListenChannel(listen);
                itprt.add_event(event);
                proof {
                    lemma_extends_trans(pre, mid, *itprt);
                }
                Ok(())
            },
            Setting::SubModule(s) => {
                match &s.condition {
                    Condition::Must => {},
                    _ => {
                        return Err(StructuralViolation::UnsupportedOperation(self.id));
                    },
                }
                if self.inputs.len() != s.inputs_from.len() {
                    return Err(StructuralViolation::MalformedOperation(self.id));
                }
                let mut t: usize = 0;
                while t < s.inputs_from.len()
                    invariant
                        t <= s.inputs_from@.len(),
                        forall|k: int|
                            0 <= k < t ==> (#[trigger] s.inputs_from@[k]) < itprt.reducer.n,
                    decreases s.inputs_from@.len() - t,
                {
                    if s.inputs_from[t] >= itprt.reducer.n {
                        return Err(StructuralViolation::MalformedOperation(self.id));
                    }
                    t = t + 1;
                }
                let r = itprt.add_entities_with_target(cmt, &self.inputs, &s.inputs_from);
                match r {
                    Ok(()) => {
                        proof {
                            lemma_bind_all_resolves(
                                old(itprt).reducer.hash_map@,
                                self.inputs@,
                                s.inputs_from@,
                            );
                        }
                        Ok(())
                    },
                    Err(v) => Err(v),
                }
            },
        }
    }
}

impl HwOutput {
    /// Flatten a module's output-port operation. At top level the port
    /// wires become fresh flat values behind one writing channel
    /// operation; inside an inlined submodule they alias the caller's
    /// actual result values and nothing is emitted.
    #[verifier::loop_isolation(false)]
    pub fn to_interpret(&self, itprt: &mut Interpreter, cmt: &CmtIR, itfc: &Setting) -> (r: Result<
        (),
        StructuralViolation,
    >)
        requires
            old(itprt).wf(),
        ensures
            step_extends(itfc, *old(itprt), *final(itprt)),
            (*itfc) is Top ==> (r is Ok <==> spec_flatten_all(
                old(itprt).reducer.hash_map@,
                old(itprt).guard_shapes(),
                cmt.entities@,
                self.outputs@,
                GuardShape::Must,
            ) is Some),
            itfc matches Setting::SubModule(s) ==> (r is Ok <==> (s.condition is Must
                && self.outputs@.len() == s.outputs_to@.len() && (forall|t: int|
                0 <= t < s.outputs_to@.len() ==> (#[trigger] s.outputs_to@[t]) < old(
                    itprt,
                ).reducer.n) && spec_bind_all(
                old(itprt).reducer.hash_map@,
                self.outputs@,
                s.outputs_to@,
            ) is Some)),
            match r {
                Ok(()) => match itfc {
                    Setting::Top => ({
                        let folded = spec_flatten_all(
                            old(itprt).reducer.hash_map@,
                            old(itprt).guard_shapes(),
                            cmt.entities@,
                            self.outputs@,
                            GuardShape::Must,
                        )->Some_0;
                        &&& final(itprt).reducer.hash_map@ == folded.0
                        &&& final(itprt).guard_shapes() == folded.1
                        &&& final(itprt).events@.len() == old(itprt).events@.len() + 1
                        &&& (final(itprt).events@.last() matches Event::WriteChannel(wc)
                            && wc.values@ == folded.2 && wc.values@.len() == self.outputs@.len() && (
                        forall|j: int|
                            0 <= j < self.outputs@.len() ==> wc.values@[j] == final(itprt).reducer.hash_map@[(#[trigger] self.outputs@[j]).0]))
                        &&& final(itprt).channels@.len() == old(itprt).channels@.len()
                            + self.outputs@.len()
                    }),
                    Setting::SubModule(s) => ({
                        &&& final(itprt).events@ == old(itprt).events@
                        &&& final(itprt).channels@ == old(itprt).channels@
                        &&& self.outputs@.len() == s.outputs_to@.len()
                        &&& (forall|j: int|
                            0 <= j < self.outputs@.len() ==> final(itprt).reducer.hash_map@.dom().contains((#[trigger] self.outputs@[j]).0)
                                && final(itprt).reducer.hash_map@[self.outputs@[j].0]
                                == s.outputs_to@[j])
                    }),
                },
                Err(_) => true,
            },
    {
        match itfc {
            Setting::Top => {
                let ghost pre = *itprt;
                let ids = match itprt.add_entities(cmt, &self.outputs, &Condition::Must) {
                    Ok(ids) => ids,
                    Err(v) => {
                        return Err(v);
                    },
                };
                let ghost mid = *itprt;
                proof {
                    assert forall|j: int| 0 <= j < ids@.len() implies (#[trigger] ids@[j])
                        < itprt.values@.len() by {
                        assert(ids@[j] == itprt.reducer.hash_map@[(self.outputs@[j]).0]);
                    }
                }
                let write = itprt.add_write_channel(ids);
                let event = Event::WriteChannel(write);
                itprt.add_event(event);
                proof {
                    lemma_extends_trans(pre, mid, *itprt);
                }
                Ok(())
            },
            Setting::SubModule(s) => {
                match &s.condition {
                    Condition::Must => {},
                    _ => {
                        return Err(StructuralViolation::UnsupportedOperation(self.id));
                    },
                }
                if self.outputs.len() != s.outputs_to.len() {
                    return Err(StructuralViolation::MalformedOperation(self.id));
                }
                let mut t: usize = 0;
                while t < s.outputs_to.len()
                    invariant
                        t <= s.outputs_to@.len(),
                        forall|k: int|
                            0 <= k < t ==> (#[trigger] s.outputs_to@[k]) < itprt.reducer.n,
                    decreases s.outputs_to@.len() - t,
                {
                    if s.outputs_to[t] >= itprt.reducer.n {
                        return Err(StructuralViolation::MalformedOperation(self.id));
                    }
                    t = t + 1;
                }
                let r = itprt.add_entities_with_target(cmt, &self.outputs, &s.outputs_to);
                match r {
                    Ok(()) => {
                        proof {
                            lemma_bind_all_resolves(
                                old(itprt).reducer.hash_map@,
                                self.outputs@,
                                s.outputs_to@,
                            );
                        }
                        Ok(())
                    },
                    Err(v) => Err(v),
                }
            },
        }
    }
}

impl HwInstance {
    /// Flatten a submodule instantiation: its actual wires are flattened
    /// in the caller's context, then the callee's body is traversed with a
    /// binding context made of them, so the callee's boundary aliases
    /// instead of emitting; no channel is ever created here.
    pub fn to_interpret(
        &self,
        itprt: &mut Interpreter,
        cmt: &CmtIR,
        itfc: &Setting,
        fuel: u128,
    ) -> (r: Result<(), StructuralViolation>)
        requires
            old(itprt).wf(),
        ensures
            step_extends(itfc, *old(itprt), *final(itprt)),
            final(itprt).channels@.len() == old(itprt).channels@.len(),
            adds_no_ports(*old(itprt), *final(itprt)),
            r is Ok ==> ({
                &&& self.target_op_id is Some
                &&& (itfc matches Setting::SubModule(s) ==> s.condition is Must)
                &&& (spec_flatten_all(
                    old(itprt).reducer.hash_map@,
                    old(itprt).guard_shapes(),
                    cmt.entities@,
                    self.inputs@,
                    GuardShape::Must,
                ) matches Some(st1) && spec_flatten_all(
                    st1.0,
                    st1.1,
                    cmt.entities@,
                    self.outputs@,
                    GuardShape::Must,
                ) is Some)
                &&& (forall|j: int|
                    0 <= j < self.inputs@.len() ==> final(itprt).reducer.hash_map@.dom().contains((#[trigger] self.inputs@[j]).0))
                &&& (forall|j: int|
                    0 <= j < self.outputs@.len() ==> final(itprt).reducer.hash_map@.dom().contains((#[trigger] self.outputs@[j]).0))
            }),
            r is Ok ==> (self.target_op_id matches Some(t) ==> (cmt.ops@[t.0 as int]
                matches OpEnum::HwModule(m3) ==> (m3.body matches Some(b3) ==> (b3.0
                < cmt.regions@.len() ==> ({
                let st1 = spec_flatten_all(
                    old(itprt).reducer.hash_map@,
                    old(itprt).guard_shapes(),
                    cmt.entities@,
                    self.inputs@,
                    GuardShape::Must,
                )->Some_0;
                let st2 = spec_flatten_all(st1.0, st1.1, cmt.entities@, self.outputs@, GuardShape::Must)->Some_0;
                ports_bound_to(
                    cmt,
                    cmt.regions@[b3.0 as int].op_children@,
                    cmt.regions@[b3.0 as int].op_children@.len() as int,
                    final(itprt).reducer.hash_map@,
                    st1.2,
                    st2.2,
                )
            }))))),
            self.target_op_id matches Some(t) ==> (cmt.ops@[t.0 as int]
                matches OpEnum::HwModule(m4) ==> (m4.body matches Some(b4) ==> ((fuel >= 3 && t.0
                < cmt.ops@.len() && (itfc matches Setting::SubModule(sx) ==> sx.condition is Must)
                && (spec_flatten_all(
                old(itprt).reducer.hash_map@,
                old(itprt).guard_shapes(),
                cmt.entities@,
                self.inputs@,
                GuardShape::Must,
            ) matches Some(sta) && spec_flatten_all(
                sta.0,
                sta.1,
                cmt.entities@,
                self.outputs@,
                GuardShape::Must,
            ) is Some) && b4.0 < cmt.regions@.len()
                && cmt.regions@[b4.0 as int].op_children@.len() == 0) ==> r is Ok))),
        decreases fuel, 1int,
    {
        if fuel == 0 {
            return Err(StructuralViolation::RecursionLimit(self.id));
        }
        let target_op_id = match &self.target_op_id {
            Some(t) => *t,
            None => {
                return Err(StructuralViolation::MalformedOperation(self.id));
            },
        };
        match itfc {
            Setting::SubModule(s) => {
                match &s.condition {
                    Condition::Must => {},
                    _ => {
                        return Err(StructuralViolation::UnsupportedOperation(self.id));
                    },
                }
            },
            Setting::Top => {},
        }
        let ghost pre = *itprt;
        let inputs = match itprt.add_entities(cmt, &self.inputs, &Condition::Must) {
            Ok(ids) => ids,
            Err(v) => {
                return Err(v);
            },
        };
        let ghost mid = *itprt;
        let outputs = match itprt.add_entities(cmt, &self.outputs, &Condition::Must) {
            Ok(ids) => ids,
            Err(v) => {
                proof {
                    lemma_extends_trans(pre, mid, *itprt);
                }
                return Err(v);
            },
        };
        let ghost mid2 = *itprt;
        proof {
            lemma_extends_trans(pre, mid, mid2);
            assert forall|k: int| 0 <= k < inputs@.len() implies (#[trigger] inputs@[k])
                < itprt.reducer.n by {
                assert(inputs@[k] == mid.reducer.hash_map@[(self.inputs@[k]).0]);
                assert(inputs@[k] < mid.values@.len());
            }
        }
        let new_itfc = Setting::SubModule(
            SMSetting { inputs_from: inputs, outputs_to: outputs, condition: Condition::Must },
        );
        let step = itprt.extend_with_hw_module(cmt, target_op_id, new_itfc, fuel - 1);
        proof {
            lemma_extends_trans(pre, mid2, *itprt);
            lemma_no_ports_trans(pre, mid2, *itprt);
            assert forall|j: int|
                0 <= j < self.inputs@.len() implies itprt.reducer.hash_map@.dom().contains(
                (#[trigger] self.inputs@[j]).0,
            ) by {
                assert(mid.reducer.hash_map@.dom().contains(self.inputs@[j].0));
            }
            assert forall|j: int|
                0 <= j < self.outputs@.len() implies itprt.reducer.hash_map@.dom().contains(
                (#[trigger] self.outputs@[j]).0,
            ) by {
                assert(mid2.reducer.hash_map@.dom().contains(self.outputs@[j].0));
            }
        }
        step
    }
}

impl SeqCompReg {
    /// Flatten a clocked register: its output wire becomes a flat value
    /// defined by a register read, its input wire a flat value consumed
    /// by a register write targeting the same slot. Reset semantics are
    /// unsupported and rejected.
    pub fn to_interpret(&self, itprt: &mut Interpreter, cmt: &CmtIR, itfc: &Setting) -> (r: Result<
        (),
        StructuralViolation,
    >)
        requires
            old(itprt).wf(),
        ensures
            step_extends(itfc, *old(itprt), *final(itprt)),
            final(itprt).channels@.len() == old(itprt).channels@.len(),
            adds_no_ports(*old(itprt), *final(itprt)),
            (self.reset is Some || self.reset_val is Some) ==> r == Err::<
                (),
                StructuralViolation,
            >(StructuralViolation::RegisterReset(self.id)),
            r is Ok <==> ({
                &&& self.reset is None && self.reset_val is None
                &&& self.input is Some && self.output is Some
                &&& (itfc matches Setting::SubModule(s) ==> s.condition is Must)
                &&& (spec_flatten_one(
                    old(itprt).reducer.hash_map@,
                    old(itprt).guard_shapes(),
                    cmt.entities@,
                    self.output->Some_0,
                    GuardShape::Must,
                ) matches Some(st1) && spec_flatten_one(
                    st1.0,
                    st1.1,
                    cmt.entities@,
                    self.input->Some_0,
                    GuardShape::Must,
                ) is Some)
            }),
            match r {
                Ok(()) => ({
                    let st1 = spec_flatten_one(
                        old(itprt).reducer.hash_map@,
                        old(itprt).guard_shapes(),
                        cmt.entities@,
                        self.output->Some_0,
                        GuardShape::Must,
                    )->Some_0;
                    let st2 = spec_flatten_one(
                        st1.0,
                        st1.1,
                        cmt.entities@,
                        self.input->Some_0,
                        GuardShape::Must,
                    )->Some_0;
                    &&& final(itprt).reducer.hash_map@ == st2.0
                    &&& final(itprt).guard_shapes() == st2.1
                    &&& self.reset is None && self.reset_val is None
                    &&& final(itprt).events@.len() == old(itprt).events@.len() + 2
                    &&& (final(itprt).events@[final(itprt).events@.len() - 2]
                        matches Event::LdReg(ld) && ld.regs@.len() == 1 && ld.regs@[0] == final(itprt).reducer.hash_map@[self.output->Some_0.0])
                    &&& (final(itprt).events@.last() matches Event::StReg(st) && st.values@.len()
                        == 1 && st.values@[0] == final(itprt).reducer.hash_map@[self.input->Some_0.0] && st.regs@.len() == 1 && st.regs@[0]
                        == final(itprt).reducer.hash_map@[self.output->Some_0.0])
                }),
                Err(_) => true,
            },
    {
        if self.reset.is_some() || self.reset_val.is_some() {
            return Err(StructuralViolation::RegisterReset(self.id));
        }
        let output = match &self.output {
            Some(output) => *output,
            None => {
                return Err(StructuralViolation::MalformedOperation(self.id));
            },
        };
        let input = match &self.input {
            Some(input) => *input,
            None => {
                return Err(StructuralViolation::MalformedOperation(self.id));
            },
        };
        match itfc {
            Setting::SubModule(s) => {
                match &s.condition {
                    Condition::Must => {},
                    _ => {
                        return Err(StructuralViolation::UnsupportedOperation(self.id));
                    },
                }
            },
            Setting::Top => {},
        }
        let ghost pre = *itprt;
        let out_id = match itprt.add_entity(cmt, output, Condition::Must) {
            Ok(id) => id,
            Err(v) => {
                return Err(v);
            },
        };
        let mut out_regs: Vec<usize> = Vec::new();
        out_regs.push(out_id);
        let e_ld_reg = itprt.add_load_reg(out_regs);
        itprt.add_event(Event::LdReg(e_ld_reg));
        let ghost mid = *itprt;
        let in_id = match itprt.add_entity(cmt, input, Condition::Must) {
            Ok(id) => id,
            Err(v) => {
                proof {
                    lemma_extends_trans(pre, mid, *itprt);
                }
                return Err(v);
            },
        };
        let ghost mid2 = *itprt;
        let mut st_values: Vec<usize> = Vec::new();
        st_values.push(in_id);
        let mut st_regs: Vec<usize> = Vec::new();
        st_regs.push(out_id);
        let e_st_reg = itprt.add_store_reg(st_values, st_regs);
        itprt.add_event(Event::StReg(e_st_reg));
        proof {
            lemma_extends_trans(pre, mid, mid2);
            lemma_extends_trans(pre, mid2, *itprt);
            assert(mid.reducer.hash_map@.dom().contains(output.0));
        }
        Ok(())
    }
}

/// What the selection step does to the reducer mapping and the guard
/// table: the conditions are flattened under the active guard, the
/// synthetic checked value is allocated under it, then the default (when
/// present) and the candidates under it, and finally the result under no
/// guard of its own. Yields the final mapping and guards together with
/// the checked value's and the result's flat identities; one identifier
/// that does not resolve, or an exhausted value space, fails the step.
pub open spec fn spec_flatten_select(
    m: Map<usize, usize>,
    guards: Seq<GuardShape>,
    entities: Seq<EntityEnum>,
    conds: Seq<EntityId>,
    values: Seq<EntityId>,
    default: Option<EntityId>,
    lhs: EntityId,
    g: GuardShape,
) -> Option<(Map<usize, usize>, Seq<GuardShape>, usize, usize, Seq<usize>, Seq<usize>, Option<
    usize,
>)> {
    match spec_flatten_all(m, guards, entities, conds, g) {
        None => None,
        Some(st1) => if st1.1.len() < usize::MAX {
            let checked = st1.1.len() as usize;
            let dflt_step = match default {
                None => Some((st1.0, st1.1.push(g), Option::<usize>::None)),
                Some(d) => match spec_flatten_one(st1.0, st1.1.push(g), entities, d, g) {
                    None => None,
                    Some(st2) => Some((st2.0, st2.1, Some(st2.2))),
                },
            };
            match dflt_step {
                None => None,
                Some(st3) => match spec_flatten_all(st3.0, st3.1, entities, values, g) {
                    None => None,
                    Some(st4) => match spec_flatten_one(
                        st4.0,
                        st4.1,
                        entities,
                        lhs,
                        GuardShape::Never,
                    ) {
                        None => None,
                        Some(st5) => Some((st5.0, st5.1, checked, st5.2, st1.2, st4.2, st3.2)),
                    },
                },
            }
        } else {
            None
        },
    }
}

impl Select {
    /// Flatten a value-bodied one-hot selection: the conditions feed a
    /// selector check defining a synthetic decision value; the candidates,
    /// the default and the decision feed one selection event; an explicit
    /// dependency edge pairs the two. Priority selection is unsupported
    /// and rejected.
    pub fn to_interpret(
        &self,
        itprt: &mut Interpreter,
        cmt: &CmtIR,
        itfc: &Setting,
        guard: &Condition,
    ) -> (r: Result<(), StructuralViolation>)
        requires
            old(itprt).wf(),
        ensures
            step_extends(itfc, *old(itprt), *final(itprt)),
            final(itprt).channels@.len() == old(itprt).channels@.len(),
            adds_no_ports(*old(itprt), *final(itprt)),
            (self.onehot matches Some(BoolAttr(b)) && !b) ==> r == Err::<
                (),
                StructuralViolation,
            >(StructuralViolation::NonOneHotSelection(self.id)),
            r is Ok <==> (self.onehot matches Some(BoolAttr(true)) && self.lhs is Some
                && spec_flatten_select(
                old(itprt).reducer.hash_map@,
                old(itprt).guard_shapes(),
                cmt.entities@,
                self.conds@,
                self.values@,
                self.default,
                self.lhs->Some_0,
                guard@,
            ) is Some),
            match r {
                Ok(()) => ({
                    let stepped = spec_flatten_select(
                        old(itprt).reducer.hash_map@,
                        old(itprt).guard_shapes(),
                        cmt.entities@,
                        self.conds@,
                        self.values@,
                        self.default,
                        self.lhs->Some_0,
                        guard@,
                    )->Some_0;
                    &&& final(itprt).reducer.hash_map@ == stepped.0
                    &&& final(itprt).guard_shapes() == stepped.1
                    &&& self.onehot matches Some(BoolAttr(true))
                    &&& final(itprt).events@.len() == old(itprt).events@.len() + 2
                    &&& (final(itprt).events@[final(itprt).events@.len() - 2]
                        matches Event::CondCheck(cc) && cc.conds@ == stepped.4 && cc.conds@.len()
                        == self.conds@.len() && cc.result == stepped.2 && cc.onehot
                        && cc.has_default == (self.default is Some))
                    &&& (final(itprt).events@.last() matches Event::Select(sel) && sel.idx
                        == stepped.2 && sel.result == stepped.3 && sel.values@ == (
                    match stepped.6 {
                        Some(d) => stepped.5.push(d),
                        None => stepped.5,
                    }) && sel.values@.len() == self.values@.len() + (if self.default is Some {
                        1int
                    } else {
                        0int
                    }) && sel.result == final(itprt).reducer.hash_map@[self.lhs->Some_0.0])
                }),
                Err(_) => true,
            },
    {
        let onehot = match &self.onehot {
            Some(flag) => flag.0,
            None => {
                return Err(StructuralViolation::MalformedOperation(self.id));
            },
        };
        if !onehot {
            return Err(StructuralViolation::NonOneHotSelection(self.id));
        }
        let lhs = match &self.lhs {
            Some(lhs) => *lhs,
            None => {
                return Err(StructuralViolation::MalformedOperation(self.id));
            },
        };
        let ghost pre = *itprt;
        let conds = match itprt.add_entities(cmt, &self.conds, guard) {
            Ok(ids) => ids,
            Err(v) => {
                return Err(v);
            },
        };
        let has_default = self.default.is_some();
        let ghost mid1 = *itprt;
        let ghost st1 = spec_flatten_all(
            pre.reducer.hash_map@,
            pre.guard_shapes(),
            cmt.entities@,
            self.conds@,
            guard@,
        )->Some_0;
        let ghost conds_ids = conds@;
        proof {
            assert(st1.0 == mid1.reducer.hash_map@ && st1.1 == mid1.guard_shapes());
            lemma_shapes_of(mid1.value_conds@);
            assert(st1.1.len() == mid1.values@.len());
        }
        let cond_checked_value = match itprt.add_cond_check(
            conds,
            onehot,
            has_default,
            guard.duplicate(),
        ) {
            Ok(idx) => idx,
            Err(v) => {
                proof {
                    lemma_extends_trans(pre, mid1, *itprt);
                    assert(st1.1.len() >= usize::MAX);
                }
                return Err(v);
            },
        };
        let ghost mid2 = *itprt;
        proof {
            lemma_extends_trans(pre, mid1, mid2);
            assert(mid2.reducer.hash_map@ == st1.0);
            assert(mid2.guard_shapes() == st1.1.push(guard@));
            assert(cond_checked_value == st1.1.len());
        }
        let default = match &self.default {
            Some(d) => {
                match itprt.add_entity(cmt, *d, guard.duplicate()) {
                    Ok(id) => Some(id),
                    Err(v) => {
                        proof {
                            lemma_extends_trans(pre, mid2, *itprt);
                        }
                        return Err(v);
                    },
                }
            },
            None => None,
        };
        let ghost mid3 = *itprt;
        proof {
            lemma_extends_trans(pre, mid2, mid3);
        }
        let values = match itprt.add_entities(cmt, &self.values, guard) {
            Ok(ids) => ids,
            Err(v) => {
                proof {
                    lemma_extends_trans(pre, mid3, *itprt);
                }
                return Err(v);
            },
        };
        let ghost mid4 = *itprt;
        proof {
            lemma_extends_trans(pre, mid3, mid4);
        }
        let lhs_id = match itprt.add_entity(cmt, lhs, Condition::Never) {
            Ok(id) => id,
            Err(v) => {
                proof {
                    lemma_extends_trans(pre, mid4, *itprt);
                }
                return Err(v);
            },
        };
        let ghost mid5 = *itprt;
        let ghost values_ids = values@;
        proof {
            lemma_extends_trans(pre, mid4, mid5);
            assert(spec_flatten_select(
                pre.reducer.hash_map@,
                pre.guard_shapes(),
                cmt.entities@,
                self.conds@,
                self.values@,
                self.default,
                self.lhs->Some_0,
                guard@,
            ) matches Some(stepped) && stepped.0 == mid5.reducer.hash_map@ && stepped.1
                == mid5.guard_shapes() && stepped.2 == cond_checked_value && stepped.3 == lhs_id
                && stepped.4 == conds_ids && stepped.5 == values_ids && stepped.6 == default);
        }
        itprt.add_select(lhs_id, cond_checked_value, values, default);
        let from = itprt.events.len() - 2;
        let to = itprt.events.len() - 1;
        match itprt.dependency.add(from, to) {
            Ok(()) => {},
            Err(_) => {
                proof {
                    assert(false);
                }
            },
        }
        proof {
            lemma_extends_trans(pre, mid5, *itprt);
        }
        Ok(())
    }
}

impl Cases {
    /// Flatten a region-bodied one-hot selection: the conditions feed a
    /// selector check, then each arm's body is traversed under the active
    /// guard conjoined with its condition, and the default body, when one
    /// exists, under the active guard conjoined with the negation of every
    /// condition. Priority selection is unsupported and rejected.
    #[verifier::loop_isolation(false)]
    pub fn to_interpret(
        &self,
        itprt: &mut Interpreter,
        cmt: &CmtIR,
        itfc: &Setting,
        guard: &Condition,
        fuel: u128,
    ) -> (r: Result<(), StructuralViolation>)
        requires
            old(itprt).wf(),
        ensures
            step_extends(itfc, *old(itprt), *final(itprt)),
            (self.onehot matches Some(BoolAttr(b)) && !b && fuel > 0) ==> r == Err::<
                (),
                StructuralViolation,
            >(StructuralViolation::NonOneHotSelection(self.id)),
            (self.onehot matches Some(BoolAttr(true)) && self.conds@.len() == 0
                && self.bodies@.len() == 0 && self.dflt is None && old(itprt).values@.len()
                < usize::MAX && fuel > 0) ==> r is Ok,
            r is Ok ==> ({
                &&& self.onehot matches Some(BoolAttr(true))
                &&& self.bodies@.len() == self.conds@.len()
                &&& final(itprt).events@.len() >= old(itprt).events@.len() + 1
                &&& spec_flatten_all(
                    old(itprt).reducer.hash_map@,
                    old(itprt).guard_shapes(),
                    cmt.entities@,
                    self.conds@,
                    guard@,
                ) is Some
            }),
        decreases fuel, 1int,
    {
        if fuel == 0 {
            return Err(StructuralViolation::RecursionLimit(self.id));
        }
        let onehot = match &self.onehot {
            Some(flag) => flag.0,
            None => {
                return Err(StructuralViolation::MalformedOperation(self.id));
            },
        };
        if !onehot {
            return Err(StructuralViolation::NonOneHotSelection(self.id));
        }
        if self.bodies.len() != self.conds.len() {
            return Err(StructuralViolation::MalformedOperation(self.id));
        }
        let ghost pre = *itprt;
        let conds = match itprt.add_entities(cmt, &self.conds, guard) {
            Ok(ids) => ids,
            Err(v) => {
                return Err(v);
            },
        };
        let cond_ids = copy_ids(&conds);
        let ghost mid1 = *itprt;
        match itprt.add_cond_check(conds, onehot, self.dflt.is_some(), guard.duplicate()) {
            Ok(_) => {},
            Err(v) => {
                proof {
                    lemma_extends_trans(pre, mid1, *itprt);
                }
                return Err(v);
            },
        }
        proof {
            lemma_extends_trans(pre, mid1, *itprt);
        }
        let mut i: usize = 0;
        while i < self.bodies.len()
            invariant
                itprt.wf(),
                extends(pre, *itprt),
                itprt.events@.len() >= pre.events@.len() + 1,
                (*itfc) is SubModule ==> itprt.channels@.len() == pre.channels@.len()
                    && adds_no_ports(pre, *itprt),
                cond_ids@.len() == self.conds@.len(),
                self.bodies@.len() == self.conds@.len(),
                i <= self.bodies@.len(),
                fuel >= 1,
            decreases self.bodies@.len() - i,
        {
            let arm_guard = guard.duplicate().and(Condition::Value(cond_ids[i]));
            let ghost mid = *itprt;
            let step = itprt.extend_with_region(cmt, self.bodies[i], itfc, &arm_guard, fuel - 1);
            proof {
                lemma_extends_step(pre, mid, *itprt, itfc);
            }
            match step {
                Ok(()) => {},
                Err(v) => {
                    return Err(v);
                },
            }
            i = i + 1;
        }
        match &self.dflt {
            Some(dflt_region) => {
                let mut arm_conds: Vec<Condition> = Vec::new();
                let mut k: usize = 0;
                while k < cond_ids.len()
                    invariant
                        k <= cond_ids@.len(),
                    decreases cond_ids@.len() - k,
                {
                    arm_conds.push(Condition::Value(cond_ids[k]));
                    k = k + 1;
                }
                let none_taken = Condition::Not(Box::new(Condition::Or(arm_conds)));
                let dflt_guard = guard.duplicate().and(none_taken);
                let ghost mid = *itprt;
                let step = itprt.extend_with_region(cmt, *dflt_region, itfc, &dflt_guard, fuel - 1);
                proof {
                    lemma_extends_step(pre, mid, *itprt, itfc);
                }
                step
            },
            None => Ok(()),
        }
    }
}

} // verus!
