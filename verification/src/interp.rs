//! The flattened program and the primitive steps that build it.
//!
//! An `Interpreter` accumulates the artifact of one elaboration run: the
//! flat value table with per-value guards, the readiness-tracked events,
//! the top-level channels, and the extra dependency edges that pair a
//! selector check with its selection. The steps here allocate flat values,
//! merge guards — always by disjunction, never by overwrite — and append
//! events; the recursive traversal that drives them lives beside them.

use vstd::prelude::*;

use crate::common::DataTypeEnum;
use crate::error::StructuralViolation;
use crate::events::Comb;
use crate::events::CondCheck;
use crate::events::Event;
use crate::events::LdReg;
use crate::events::ListenChannel;
use crate::events::SelectEvent;
use crate::events::StReg;
use crate::events::WriteChannel;
use crate::guard::Condition;
use crate::guard::GuardShape;
use crate::guard::lemma_shapes_of;
use crate::guard::lemma_shapes_of_push;
use crate::guard::lemma_shapes_of_update;
use crate::guard::shapes_of;
use crate::guard::spec_or;
use crate::ir::CmtIR;
use crate::ir::EntityEnum;
use crate::ir::EntityId;
use crate::ir::OpEnum;
use crate::reducer::Reducer;
use crate::reducer::spec_bind;
use crate::reducer::spec_bind_all;

verus! {

/// Relies on `num_bigint::BigUint`: the arbitrary-precision storage cell
/// of a flat value, opaque to this crate, only created and copied.
#[verifier::external_type_specification]
#[verifier::external_body]
pub struct ExBigUint(num_bigint::BigUint);

/// Relies on `num_bigint::BigUint::default`: a fresh zero-valued storage
/// cell for a flat value that nothing has driven yet.
#[verifier::external_body]
fn new_cell() -> num_bigint::BigUint {
    num_bigint::BigUint::default()
}

/// Relies on `num_bigint::BigUint::clone`: an equal copy of a stored
/// number.
#[verifier::external_body]
fn clone_cell(v: &num_bigint::BigUint) -> (r: num_bigint::BigUint)
    ensures
        r == *v,
{
    v.clone()
}

/// A flat value of the flattened program: its data type and its runtime
/// storage cell, which only the execution driver mutates.
#[derive(Debug)]
pub struct Value {
    /// The data type copied from the structural entity.
    pub data_type: DataTypeEnum,
    /// The runtime storage cell, initially zero.
    pub value: num_bigint::BigUint,
}

impl Value {
    /// A structurally identical copy of the value.
    pub fn duplicate(&self) -> Value {
        Value { data_type: self.data_type.duplicate(), value: clone_cell(&self.value) }
    }
}

/// A top-level port binding: one flat value exposed at the design
/// boundary.
#[derive(Debug)]
pub struct Channel {
    /// The exposed value.
    pub data: Value,
}

impl Channel {
    /// Wrap a value as a channel.
    pub fn new(value: Value) -> (r: Channel)
        ensures
            r.data == value,
    {
        Channel { data: value }
    }
}

/// The binding context of one instantiated submodule: where its input
/// ports read from, where its output ports write to, and the guard under
/// which the instantiation is active.
#[derive(Debug)]
pub struct SMSetting {
    /// The caller's flat values feeding the callee's input ports, in port
    /// order.
    pub inputs_from: Vec<usize>,
    /// The caller's flat values fed by the callee's output ports, in port
    /// order.
    pub outputs_to: Vec<usize>,
    /// The guard of the instantiation; conditional instantiation is
    /// unsupported, so it is always `Must`.
    pub condition: Condition,
}

/// Whether a region is flattened as the outermost module or as an inlined
/// submodule body.
#[derive(Debug)]
pub enum Setting {
    /// The outermost module: its ports become channels.
    Top,
    /// An inlined submodule: its ports alias the caller's wires.
    SubModule(SMSetting),
}

impl Setting {
    /// The shape of the context's activation guard.
    pub open spec fn condition_shape(&self) -> GuardShape {
        match self {
            Setting::Top => GuardShape::Must,
            Setting::SubModule(s) => s.condition@,
        }
    }

    /// The guard under which this context is active: `Must` at top level,
    /// the instantiation's guard inside a submodule.
    pub fn condition(&self) -> (r: Condition)
        ensures
            r@ == self.condition_shape(),
    {
        match self {
            Setting::Top => Condition::Must,
            Setting::SubModule(s) => s.condition.duplicate(),
        }
    }
}

/// Dependency edges between events that def-use tracking cannot see: the
/// edge from a selector check to its paired selection.
#[derive(Debug)]
pub struct Dependency {
    /// The largest source index an edge was recorded for.
    pub max_from_idx: usize,
    /// For each source event index, the indices of the events that depend
    /// on it.
    pub dependency: Vec<Vec<usize>>,
}

impl Dependency {
    /// No edges.
    pub fn new() -> (r: Dependency)
        ensures
            r.dependency@.len() == 0,
            r.max_from_idx == 0,
    {
        Dependency { max_from_idx: 0, dependency: Vec::new() }
    }

    /// Record an edge from one event index to another.
    pub fn add(&mut self, from: usize, to: usize) -> (r: Result<(), StructuralViolation>)
        ensures
            match r {
                Ok(()) => ({
                    &&& final(self).max_from_idx == (if from > old(self).max_from_idx {
                        from
                    } else {
                        old(self).max_from_idx
                    })
                    &&& final(self).dependency@.len() > from
                    &&& final(self).dependency@.len() >= old(self).dependency@.len()
                    &&& final(self).dependency@[from as int]@ == (if from
                        < old(self).dependency@.len() {
                        old(self).dependency@[from as int]@.push(to)
                    } else {
                        seq![to]
                    })
                    &&& forall|k: int|
                        0 <= k < final(self).dependency@.len() && k != from
                            ==> (#[trigger] final(self).dependency@[k]@) == (if k < old(
                            self,
                        ).dependency@.len() {
                            old(self).dependency@[k]@
                        } else {
                            Seq::<usize>::empty()
                        })
                }),
                Err(_) => from == usize::MAX && *final(self) == *old(self),
            },
    {
        if from == usize::MAX {
            return Err(StructuralViolation::ValueSpaceExhausted);
        }
        let ghost pre = self.dependency@;
        let ghost pre_max = self.max_from_idx;
        while self.dependency.len() <= from
            invariant
                self.max_from_idx == pre_max,
                self.dependency@.len() >= pre.len() || self.dependency@.len() <= from,
                self.dependency@.len() >= pre.len(),
                forall|k: int| 0 <= k < pre.len() ==> (#[trigger] self.dependency@[k]) == pre[k],
                forall|k: int|
                    pre.len() <= k < self.dependency@.len() ==> (#[trigger] self.dependency@[k])@
                        == Seq::<usize>::empty(),
                from < usize::MAX,
            decreases from + 1 - self.dependency@.len(),
        {
            self.dependency.push(Vec::new());
        }
        if from > self.max_from_idx {
            self.max_from_idx = from;
        }
        self.dependency[from].push(to);
        Ok(())
    }
}

/// What flattening one structural identifier under a guard does to the
/// reducer mapping and the guard table. An already-reduced identifier
/// keeps its flat value and its guard gains the new guard as a disjunct;
/// a fresh identifier that resolves to an entity with a data type takes
/// the next flat value, guarded as given; anything else is a structural
/// violation.
pub open spec fn spec_flatten_one(
    m: Map<usize, usize>,
    guards: Seq<GuardShape>,
    entities: Seq<EntityEnum>,
    e: EntityId,
    g: GuardShape,
) -> Option<(Map<usize, usize>, Seq<GuardShape>, usize)> {
    if m.contains_key(e.0) {
        Some((m, guards.update(m[e.0] as int, spec_or(guards[m[e.0] as int], g)), m[e.0]))
    } else if e.0 < entities.len() && entities[e.0 as int].spec_dtype() is Some && guards.len()
        < usize::MAX {
        Some((m.insert(e.0, guards.len() as usize), guards.push(g), guards.len() as usize))
    } else {
        None
    }
}

/// What flattening a list of identifiers does, element by element, each
/// under the same guard: the fold of `spec_flatten_one`. One identifier
/// that does not resolve fails the whole list.
pub open spec fn spec_flatten_all(
    m: Map<usize, usize>,
    guards: Seq<GuardShape>,
    entities: Seq<EntityEnum>,
    es: Seq<EntityId>,
    g: GuardShape,
) -> Option<(Map<usize, usize>, Seq<GuardShape>, Seq<usize>)>
    decreases es.len(),
{
    if es.len() == 0 {
        Some((m, guards, Seq::empty()))
    } else {
        match spec_flatten_one(m, guards, entities, es[0], g) {
            None => None,
            Some(first) => match spec_flatten_all(
                first.0,
                first.1,
                entities,
                es.subrange(1, es.len() as int),
                g,
            ) {
                None => None,
                Some(rest) => Some((rest.0, rest.1, seq![first.2] + rest.2)),
            },
        }
    }
}

/// Whether one reducer mapping extends another without changing any
/// recorded flat value.
pub open spec fn map_extends(m1: Map<usize, usize>, m2: Map<usize, usize>) -> bool {
    forall|k: usize|
        #[trigger] m1.dom().contains(k) ==> m2.dom().contains(k) && m2[k] == m1[k]
}

/// The accumulator of one elaboration run: flat values with their guards,
/// readiness-tracked events, top-level channels, the reducer, and the
/// extra dependency edges.
#[derive(Debug)]
pub struct Interpreter {
    /// The flat value table.
    pub values: Vec<Value>,
    /// The guard of each flat value, index for index.
    pub value_conds: Vec<Condition>,
    /// The readiness-tracked operations, in creation order.
    pub events: Vec<Event>,
    /// The identifier reducer of this run.
    pub reducer: Reducer,
    /// The top-level port bindings.
    pub channels: Vec<Channel>,
    /// Edges from selector checks to their paired selections.
    pub dependency: Dependency,
}

/// Flat values and events, once created, are never removed or
/// reassigned: a later state of the program extends an earlier one.
pub open spec fn extends(pre: Interpreter, post: Interpreter) -> bool {
    &&& post.values@.len() >= pre.values@.len()
    &&& forall|k: int| 0 <= k < pre.values@.len() ==> (#[trigger] post.values@[k]) == pre.values@[k]
    &&& post.value_conds@.len() >= pre.value_conds@.len()
    &&& post.events@.len() >= pre.events@.len()
    &&& forall|k: int| 0 <= k < pre.events@.len() ==> (#[trigger] post.events@[k]) == pre.events@[k]
    &&& post.channels@.len() >= pre.channels@.len()
    &&& forall|k: int|
        0 <= k < pre.channels@.len() ==> (#[trigger] post.channels@[k]) == pre.channels@[k]
    &&& map_extends(pre.reducer.hash_map@, post.reducer.hash_map@)
}

/// Extension is transitive.
pub proof fn lemma_extends_trans(a: Interpreter, b: Interpreter, c: Interpreter)
    requires
        extends(a, b),
        extends(b, c),
    ensures
        extends(a, c),
{
    assert forall|k: int| 0 <= k < a.events@.len() implies (#[trigger] c.events@[k])
        == a.events@[k] by {
        assert(b.events@[k] == a.events@[k]);
    }
    assert forall|k: int| 0 <= k < a.values@.len() implies (#[trigger] c.values@[k])
        == a.values@[k] by {
        assert(b.values@[k] == a.values@[k]);
    }
    assert forall|k: int| 0 <= k < a.channels@.len() implies (#[trigger] c.channels@[k])
        == a.channels@[k] by {
        assert(b.channels@[k] == a.channels@[k]);
    }
    assert forall|k: usize| #[trigger]
        a.reducer.hash_map@.dom().contains(k) implies c.reducer.hash_map@.dom().contains(k)
        && c.reducer.hash_map@[k] == a.reducer.hash_map@[k] by {
        assert(b.reducer.hash_map@.dom().contains(k));
    }
}

impl Interpreter {
    /// The shapes of the per-value guards, index for index.
    pub open spec fn guard_shapes(&self) -> Seq<GuardShape> {
        shapes_of(self.value_conds@)
    }

    /// The tables agree: one guard per flat value, and the reducer's
    /// counter is the value table's size, with every recorded flat value
    /// in range.
    pub open spec fn wf(&self) -> bool {
        &&& self.reducer.wf()
        &&& self.reducer.n == self.values@.len()
        &&& self.value_conds@.len() == self.values@.len()
    }

    /// An empty program: nothing flattened yet.
    pub fn new() -> (r: Interpreter)
        ensures
            r.wf(),
            r.values@.len() == 0,
            r.events@.len() == 0,
            r.channels@.len() == 0,
            r.reducer.hash_map@ == Map::<usize, usize>::empty(),
    {
        Interpreter {
            values: Vec::new(),
            value_conds: Vec::new(),
            events: Vec::new(),
            reducer: Reducer::new(),
            channels: Vec::new(),
            dependency: Dependency::new(),
        }
    }

    /// Allocate a flat value with no structural identifier behind it, with
    /// the given data type and guard. Fails only when the flat value space
    /// is exhausted.
    pub fn new_value(&mut self, data_type: DataTypeEnum, condition: Condition) -> (r: Result<
        usize,
        StructuralViolation,
    >)
        requires
            old(self).wf(),
        ensures
            final(self).wf(),
            extends(*old(self), *final(self)),
            final(self).events@ == old(self).events@,
            final(self).channels@ == old(self).channels@,
            final(self).dependency == old(self).dependency,
            final(self).reducer.hash_map@ == old(self).reducer.hash_map@,
            r is Ok <==> old(self).values@.len() < usize::MAX,
            match r {
                Ok(idx) => ({
                    &&& idx == old(self).values@.len()
                    &&& final(self).values@.len() == old(self).values@.len() + 1
                    &&& final(self).guard_shapes() == old(self).guard_shapes().push(condition@)
                }),
                Err(v) => *final(self) == *old(self) && v
                    == StructuralViolation::ValueSpaceExhausted,
            },
    {
        if self.values.len() == usize::MAX {
            return Err(StructuralViolation::ValueSpaceExhausted);
        }
        let ghost old_conds = self.value_conds@;
        let new_value = self.reducer.new_value();
        self.values.push(Value { data_type, value: new_cell() });
        self.value_conds.push(condition);
        proof {
            lemma_shapes_of_push(old_conds, self.value_conds@[self.value_conds@.len() - 1]);
        }
        Ok(new_value)
    }

    /// Flatten one structural identifier under a guard: on first use,
    /// allocate a flat value carrying the entity's data type and the
    /// guard; on a later use, merge the guard into the value's existing
    /// guard by disjunction. Fails when a fresh identifier does not
    /// resolve to an entity with a data type, or when the flat value space
    /// is exhausted.
    pub fn add_entity(&mut self, cmt: &CmtIR, entity: EntityId, condition: Condition) -> (r: Result<
        usize,
        StructuralViolation,
    >)
        requires
            old(self).wf(),
        ensures
            final(self).wf(),
            extends(*old(self), *final(self)),
            final(self).events@ == old(self).events@,
            final(self).channels@ == old(self).channels@,
            final(self).dependency == old(self).dependency,
            r is Ok <==> (old(self).reducer.hash_map@.contains_key(entity.0) || (entity.0
                < cmt.entities@.len() && cmt.entities@[entity.0 as int].spec_dtype() is Some && old(
                self,
            ).values@.len() < usize::MAX)),
            r is Ok <==> spec_flatten_one(
                old(self).reducer.hash_map@,
                old(self).guard_shapes(),
                cmt.entities@,
                entity,
                condition@,
            ) is Some,
            match r {
                Ok(idx) => ({
                    let stepped = spec_flatten_one(
                        old(self).reducer.hash_map@,
                        old(self).guard_shapes(),
                        cmt.entities@,
                        entity,
                        condition@,
                    )->Some_0;
                    &&& final(self).reducer.hash_map@ == stepped.0
                    &&& final(self).guard_shapes() == stepped.1
                    &&& idx == stepped.2
                    &&& final(self).reducer.hash_map@.contains_key(entity.0)
                    &&& final(self).reducer.hash_map@[entity.0] == idx
                    &&& idx < final(self).values@.len()
                    &&& if old(self).reducer.hash_map@.contains_key(entity.0) {
                        &&& idx == old(self).reducer.hash_map@[entity.0]
                        &&& final(self).values@.len() == old(self).values@.len()
                        &&& final(self).reducer.hash_map@ == old(self).reducer.hash_map@
                        &&& final(self).guard_shapes() == old(self).guard_shapes().update(
                            idx as int,
                            spec_or(old(self).guard_shapes()[idx as int], condition@),
                        )
                    } else {
                        &&& idx == old(self).values@.len()
                        &&& final(self).values@.len() == old(self).values@.len() + 1
                        &&& final(self).reducer.hash_map@ == old(self).reducer.hash_map@.insert(
                            entity.0,
                            idx,
                        )
                        &&& final(self).guard_shapes() == old(self).guard_shapes().push(condition@)
                        &&& (cmt.entities@[entity.0 as int].spec_dtype() matches Some(d0) && final(self).values@[idx as int].data_type@ == d0@)
                    }
                }),
                Err(v) => ({
                    &&& *final(self) == *old(self)
                    &&& (v == StructuralViolation::MalformedOperation(entity.0) || v
                        == StructuralViolation::ValueSpaceExhausted)
                }),
            },
    {
        proof {
            lemma_shapes_of(self.value_conds@);
        }
        let existing: Option<usize> = match self.reducer.hash_map.get(&entity.0) {
            Some(idx) => Some(*idx),
            None => None,
        };
        match existing {
            Some(idx) => {
                proof {
                    assert(self.reducer.hash_map@[entity.0] < self.reducer.n);
                    lemma_shapes_of(self.value_conds@);
                }
                let ghost old_conds = self.value_conds@;
                let stored = self.value_conds.remove(idx);
                let merged = stored.or(condition);
                self.value_conds.insert(idx, merged);
                proof {
                    assert(self.value_conds@ =~= old_conds.update(idx as int, merged));
                    lemma_shapes_of_update(old_conds, idx as int, merged);
                    assert(shapes_of(old_conds)[idx as int] == old_conds[idx as int]@);
                }
                Ok(idx)
            },
            None => {
                match cmt.get_entity(entity) {
                    None => Err(StructuralViolation::MalformedOperation(entity.0)),
                    Some(record) => {
                        match record.get_dtype() {
                            None => Err(StructuralViolation::MalformedOperation(entity.0)),
                            Some(dtype) => {
                                if self.values.len() == usize::MAX {
                                    return Err(StructuralViolation::ValueSpaceExhausted);
                                }
                                let red = self.reducer.reduce(entity);
                                let idx = red.idx();
                                let ghost old_conds = self.value_conds@;
                                self.values.push(Value { data_type: dtype, value: new_cell() });
                                self.value_conds.push(condition);
                                proof {
                                    lemma_shapes_of_push(
                                        old_conds,
                                        self.value_conds@[self.value_conds@.len() - 1],
                                    );
                                }
                                Ok(idx)
                            },
                        }
                    },
                }
            },
        }
    }

    /// Flatten a list of structural identifiers in order, each under a
    /// copy of the guard. Succeeds whenever every identifier resolves and
    /// the flat value space suffices.
    #[verifier::loop_isolation(false)]
    pub fn add_entities(&mut self, cmt: &CmtIR, entities: &Vec<EntityId>, condition: &Condition) -> (
    r: Result<Vec<usize>, StructuralViolation>)
        requires
            old(self).wf(),
        ensures
            final(self).wf(),
            extends(*old(self), *final(self)),
            final(self).events@ == old(self).events@,
            final(self).channels@ == old(self).channels@,
            final(self).dependency == old(self).dependency,
            final(self).values@.len() <= old(self).values@.len() + entities@.len(),
            ((forall|i: int|
                0 <= i < entities@.len() ==> (#[trigger] entities@[i]).0 < cmt.entities@.len()
                    && cmt.entities@[entities@[i].0 as int].spec_dtype() is Some) && old(
                self,
            ).values@.len() + entities@.len() <= usize::MAX) ==> r is Ok,
            r is Ok <==> spec_flatten_all(
                old(self).reducer.hash_map@,
                old(self).guard_shapes(),
                cmt.entities@,
                entities@,
                condition@,
            ) is Some,
            match r {
                Ok(ids) => ({
                    let folded = spec_flatten_all(
                        old(self).reducer.hash_map@,
                        old(self).guard_shapes(),
                        cmt.entities@,
                        entities@,
                        condition@,
                    )->Some_0;
                    &&& final(self).reducer.hash_map@ == folded.0
                    &&& final(self).guard_shapes() == folded.1
                    &&& ids@ == folded.2
                    &&& ids@.len() == entities@.len()
                    &&& forall|i: int|
                        0 <= i < entities@.len() ==> final(self).reducer.hash_map@.contains_key(
                            (#[trigger] entities@[i]).0,
                        ) && ids@[i] == final(self).reducer.hash_map@[entities@[i].0] && ids@[i]
                            < final(self).values@.len()
                }),
                Err(v) => (v matches StructuralViolation::MalformedOperation(_) || v
                    == StructuralViolation::ValueSpaceExhausted),
            },
    {
        let ghost pre = *self;
        proof {
            assert(entities@.subrange(0, entities@.len() as int) =~= entities@);
            match spec_flatten_all(
                pre.reducer.hash_map@,
                pre.guard_shapes(),
                cmt.entities@,
                entities@,
                condition@,
            ) {
                Some(rest) => {
                    assert(Seq::<usize>::empty() + rest.2 =~= rest.2);
                },
                None => {},
            }
        }
        let mut ids: Vec<usize> = Vec::new();
        let mut i: usize = 0;
        while i < entities.len()
            invariant
                self.wf(),
                extends(pre, *self),
                self.events@ == pre.events@,
                self.channels@ == pre.channels@,
                self.dependency == pre.dependency,
                i <= entities@.len(),
                ids@.len() == i,
                self.values@.len() <= pre.values@.len() + i,
                spec_flatten_all(
                    pre.reducer.hash_map@,
                    pre.guard_shapes(),
                    cmt.entities@,
                    entities@,
                    condition@,
                ) == (match spec_flatten_all(
                    self.reducer.hash_map@,
                    self.guard_shapes(),
                    cmt.entities@,
                    entities@.subrange(i as int, entities@.len() as int),
                    condition@,
                ) {
                    None => None,
                    Some(rest) => Some((rest.0, rest.1, ids@ + rest.2)),
                }),
                forall|k: int|
                    0 <= k < i ==> self.reducer.hash_map@.contains_key(
                        (#[trigger] entities@[k]).0,
                    ) && ids@[k] == self.reducer.hash_map@[entities@[k].0] && ids@[k]
                        < self.values@.len(),
            decreases entities@.len() - i,
        {
            let ghost mid = *self;
            let ghost es_rest = entities@.subrange(i as int, entities@.len() as int);
            proof {
                assert(es_rest[0] == entities@[i as int]);
            }
            let id = match self.add_entity(cmt, entities[i], condition.duplicate()) {
                Ok(id) => id,
                Err(v) => {
                    proof {
                        assert(spec_flatten_one(
                            mid.reducer.hash_map@,
                            mid.guard_shapes(),
                            cmt.entities@,
                            es_rest[0],
                            condition@,
                        ) is None);
                        if (forall|t: int|
                            0 <= t < entities@.len() ==> (#[trigger] entities@[t]).0
                                < cmt.entities@.len()
                                && cmt.entities@[entities@[t].0 as int].spec_dtype() is Some) && pre.values@.len()
                            + entities@.len() <= usize::MAX {
                            assert(entities@[i as int].0 < cmt.entities@.len());
                            assert(mid.values@.len() < usize::MAX);
                            assert(false);
                        }
                    }
                    return Err(v);
                },
            };
            ids.push(id);
            i = i + 1;
            proof {
                lemma_extends_trans(pre, mid, *self);
                assert(es_rest.subrange(1, es_rest.len() as int) =~= entities@.subrange(
                    i as int,
                    entities@.len() as int,
                ));
                assert(spec_flatten_one(
                    mid.reducer.hash_map@,
                    mid.guard_shapes(),
                    cmt.entities@,
                    es_rest[0],
                    condition@,
                ) matches Some(first) && first.0 == self.reducer.hash_map@ && first.1
                    == self.guard_shapes() && first.2 == id);
                assert forall|k: int|
                    0 <= k < i implies self.reducer.hash_map@.contains_key(
                    (#[trigger] entities@[k]).0,
                ) && ids@[k] == self.reducer.hash_map@[entities@[k].0] && ids@[k]
                    < self.values@.len() by {
                    if k < i - 1 {
                        assert(mid.reducer.hash_map@.dom().contains(entities@[k].0));
                    }
                }
            }
        }
        proof {
            assert(entities@.subrange(i as int, entities@.len() as int) =~= Seq::<
                EntityId,
            >::empty());
        }
        Ok(ids)
    }

    /// Alias a list of structural identifiers, port by port, to flat
    /// values the caller already owns. Fails exactly when some identifier
    /// was already reduced or bound when its turn came: aliasing must
    /// precede any independent use.
    #[verifier::loop_isolation(false)]
    pub fn add_entities_with_target(
        &mut self,
        cmt: &CmtIR,
        entities: &Vec<EntityId>,
        targets: &Vec<usize>,
    ) -> (r: Result<(), StructuralViolation>)
        requires
            old(self).wf(),
            entities@.len() == targets@.len(),
            forall|i: int| 0 <= i < targets@.len() ==> (#[trigger] targets@[i]) < old(self).reducer.n,
        ensures
            final(self).wf(),
            extends(*old(self), *final(self)),
            final(self).events@ == old(self).events@,
            final(self).channels@ == old(self).channels@,
            final(self).values@ == old(self).values@,
            final(self).dependency == old(self).dependency,
            final(self).guard_shapes() == old(self).guard_shapes(),
            match r {
                Ok(()) => ({
                    &&& spec_bind_all(old(self).reducer.hash_map@, entities@, targets@)
                        matches Some(m2) && final(self).reducer.hash_map@ == m2
                    &&& forall|i: int|
                        0 <= i < entities@.len() ==> final(self).reducer.hash_map@.contains_key(
                            (#[trigger] entities@[i]).0,
                        )
                }),
                Err(v) => ({
                    &&& spec_bind_all(old(self).reducer.hash_map@, entities@, targets@) is None
                    &&& v matches StructuralViolation::RepeatedBinding(_)
                }),
            },
    {
        let ghost pre = *self;
        proof {
            assert(entities@.subrange(0, entities@.len() as int) =~= entities@);
            assert(targets@.subrange(0, targets@.len() as int) =~= targets@);
        }
        let mut i: usize = 0;
        while i < entities.len()
            invariant
                self.wf(),
                extends(pre, *self),
                self.events@ == pre.events@,
                self.channels@ == pre.channels@,
                self.values@ == pre.values@,
                self.value_conds@ == pre.value_conds@,
                self.dependency == pre.dependency,
                self.reducer.n == pre.reducer.n,
                i <= entities@.len(),
                entities@.len() == targets@.len(),
                forall|t: int| 0 <= t < targets@.len() ==> (#[trigger] targets@[t]) < pre.reducer.n,
                spec_bind_all(pre.reducer.hash_map@, entities@, targets@) == spec_bind_all(
                    self.reducer.hash_map@,
                    entities@.subrange(i as int, entities@.len() as int),
                    targets@.subrange(i as int, targets@.len() as int),
                ),
                forall|k: int|
                    0 <= k < i ==> self.reducer.hash_map@.contains_key(
                        (#[trigger] entities@[k]).0,
                    ),
            decreases entities@.len() - i,
        {
            let ghost mid = *self;
            let ghost es = entities@.subrange(i as int, entities@.len() as int);
            let ghost ts = targets@.subrange(i as int, targets@.len() as int);
            proof {
                assert(es[0] == entities@[i as int]);
                assert(ts[0] == targets@[i as int]);
            }
            match self.reducer.reduce_with_target(entities[i], targets[i]) {
                Ok(_) => {},
                Err(v) => {
                    proof {
                        assert(spec_bind(mid.reducer.hash_map@, es[0].0, ts[0]) is None);
                    }
                    return Err(v);
                },
            }
            i = i + 1;
            proof {
                assert(es.subrange(1, es.len() as int) =~= entities@.subrange(
                    i as int,
                    entities@.len() as int,
                ));
                assert(ts.subrange(1, ts.len() as int) =~= targets@.subrange(
                    i as int,
                    targets@.len() as int,
                ));
                assert(spec_bind(mid.reducer.hash_map@, es[0].0, ts[0]) matches Some(m1)
                    && self.reducer.hash_map@ == m1);
                assert forall|k: int|
                    0 <= k < i implies self.reducer.hash_map@.contains_key(
                    (#[trigger] entities@[k]).0,
                ) by {
                    if k < i - 1 {
                        assert(mid.reducer.hash_map@.dom().contains(entities@[k].0));
                    }
                }
            }
        }
        proof {
            assert(entities@.subrange(i as int, entities@.len() as int) =~= Seq::<
                EntityId,
            >::empty());
            assert(targets@.subrange(i as int, targets@.len() as int) =~= Seq::<usize>::empty());
        }
        Ok(())
    }

    /// Append an event to the program.
    pub fn add_event(&mut self, event: Event) -> (r: ())
        ensures
            final(self).events@ == old(self).events@.push(event),
            final(self).values@ == old(self).values@,
            final(self).value_conds@ == old(self).value_conds@,
            final(self).channels@ == old(self).channels@,
            final(self).reducer == old(self).reducer,
            final(self).dependency == old(self).dependency,
    {
        self.events.push(event);
    }

    /// Expose a list of flat values as fresh channels, one each, in
    /// order.
    pub fn add_channels(&mut self, values: &Vec<usize>) -> (r: Vec<usize>)
        requires
            old(self).wf(),
            forall|i: int| 0 <= i < values@.len() ==> (#[trigger] values@[i]) < old(self).values@.len(),
        ensures
            final(self).wf(),
            extends(*old(self), *final(self)),
            final(self).events@ == old(self).events@,
            final(self).values@ == old(self).values@,
            final(self).value_conds@ == old(self).value_conds@,
            final(self).reducer == old(self).reducer,
            final(self).dependency == old(self).dependency,
            r@.len() == values@.len(),
            final(self).channels@.len() == old(self).channels@.len() + values@.len(),
            forall|i: int| 0 <= i < values@.len() ==> (#[trigger] r@[i]) == old(self).channels@.len() + i,
    {
        let ghost pre = *self;
        let mut out: Vec<usize> = Vec::new();
        let mut i: usize = 0;
        while i < values.len()
            invariant
                self.wf(),
                self.events@ == pre.events@,
                self.values@ == pre.values@,
                self.value_conds@ == pre.value_conds@,
                self.reducer == pre.reducer,
                self.dependency == pre.dependency,
                i <= values@.len(),
                out@.len() == i,
                self.channels@.len() == pre.channels@.len() + i,
                forall|k: int|
                    0 <= k < pre.channels@.len() ==> (#[trigger] self.channels@[k])
                        == pre.channels@[k],
                forall|k: int|
                    0 <= k < values@.len() ==> (#[trigger] values@[k]) < self.values@.len(),
                forall|k: int| 0 <= k < i ==> (#[trigger] out@[k]) == pre.channels@.len() + k,
            decreases values@.len() - i,
        {
            let channel_idx = self.channels.len();
            let copy = self.values[values[i]].duplicate();
            self.channels.push(Channel::new(copy));
            out.push(channel_idx);
            i = i + 1;
        }
        out
    }

    /// Make a listening port over the given flat values, exposing one
    /// fresh channel per value.
    pub fn add_listen_channel(&mut self, values: Vec<usize>) -> (r: ListenChannel)
        requires
            old(self).wf(),
            forall|i: int| 0 <= i < values@.len() ==> (#[trigger] values@[i]) < old(self).values@.len(),
        ensures
            final(self).wf(),
            extends(*old(self), *final(self)),
            final(self).events@ == old(self).events@,
            final(self).values@ == old(self).values@,
            final(self).value_conds@ == old(self).value_conds@,
            final(self).reducer == old(self).reducer,
            final(self).dependency == old(self).dependency,
            final(self).channels@.len() == old(self).channels@.len() + values@.len(),
            r.values@ == values@,
            r.channels@.len() == values@.len(),
    {
        let channels = self.add_channels(&values);
        ListenChannel::new(channels, values)
    }

    /// Make a writing port over the given flat values, exposing one fresh
    /// channel per value.
    pub fn add_write_channel(&mut self, values: Vec<usize>) -> (r: WriteChannel)
        requires
            old(self).wf(),
            forall|i: int| 0 <= i < values@.len() ==> (#[trigger] values@[i]) < old(self).values@.len(),
        ensures
            final(self).wf(),
            extends(*old(self), *final(self)),
            final(self).events@ == old(self).events@,
            final(self).values@ == old(self).values@,
            final(self).value_conds@ == old(self).value_conds@,
            final(self).reducer == old(self).reducer,
            final(self).dependency == old(self).dependency,
            final(self).channels@.len() == old(self).channels@.len() + values@.len(),
            r.values@ == values@,
            r.channels@.len() == values@.len(),
            r.status@.len() == 0 && r.waited_n == 0,
    {
        let channels = self.add_channels(&values);
        WriteChannel::new(channels, values)
    }

    /// Make a register read over the given register slots.
    pub fn add_load_reg(&mut self, regs: Vec<usize>) -> (r: LdReg)
        ensures
            *final(self) == *old(self),
            r.regs@ == regs@,
    {
        LdReg::new(regs)
    }

    /// Make a register write of the given next-state values into the given
    /// register slots.
    pub fn add_store_reg(&mut self, values: Vec<usize>, regs: Vec<usize>) -> (r: StReg)
        ensures
            *final(self) == *old(self),
            r.values@ == values@,
            r.regs@ == regs@,
            r.status@.len() == 0 && r.waited_n == 0,
    {
        StReg::new(values, regs)
    }

    /// Make a combinational event over the given flat values.
    pub fn add_comb(&mut self, uses: Vec<usize>, defs: Vec<usize>, op: OpEnum) -> (r: Comb)
        ensures
            *final(self) == *old(self),
            r.uses@ == uses@,
            r.defs@ == defs@,
            r.op == op,
            r.status@.len() == 0 && r.waited_n == 0,
    {
        Comb::new(uses, defs, op)
    }

    /// Allocate the synthetic checked value of a selector and append the
    /// selector-check event over the given condition flat values.
    pub fn add_cond_check(
        &mut self,
        conds: Vec<usize>,
        onehot: bool,
        has_default: bool,
        condition: Condition,
    ) -> (r: Result<usize, StructuralViolation>)
        requires
            old(self).wf(),
        ensures
            final(self).wf(),
            extends(*old(self), *final(self)),
            final(self).channels@ == old(self).channels@,
            final(self).reducer.hash_map@ == old(self).reducer.hash_map@,
            final(self).dependency == old(self).dependency,
            r is Ok <==> old(self).values@.len() < usize::MAX,
            match r {
                Ok(checked) => ({
                    &&& checked == old(self).values@.len()
                    &&& final(self).values@.len() == old(self).values@.len() + 1
                    &&& final(self).guard_shapes() == old(self).guard_shapes().push(condition@)
                    &&& final(self).events@.len() == old(self).events@.len() + 1
                    &&& (final(self).events@.last() matches Event::CondCheck(cc) && cc.conds@
                        == conds@ && cc.result == checked && cc.onehot == onehot && cc.has_default
                        == has_default && cc.status@.len() == 0 && cc.waited_n == 0)
                }),
                Err(v) => v == StructuralViolation::ValueSpaceExhausted && final(self).events@
                    == old(self).events@,
            },
    {
        let ghost conds_view = conds@;
        let checked_value = match self.new_value(DataTypeEnum::Void, condition) {
            Ok(idx) => idx,
            Err(v) => {
                return Err(v);
            },
        };
        let event = Event::CondCheck(CondCheck::new(conds, checked_value, onehot, has_default));
        self.add_event(event);
        Ok(checked_value)
    }

    /// Append the selection event: its uses are the decision value, then
    /// the candidates, then the default value when one exists.
    pub fn add_select(
        &mut self,
        lhs: usize,
        cond_checked_value: usize,
        values: Vec<usize>,
        default: Option<usize>,
    ) -> (r: ())
        ensures
            final(self).events@.len() == old(self).events@.len() + 1,
            forall|k: int|
                0 <= k < old(self).events@.len() ==> (#[trigger] final(self).events@[k]) == old(
                    self,
                ).events@[k],
            (final(self).events@.last() matches Event::Select(s) && s.result == lhs && s.idx
                == cond_checked_value && s.values@ == (match default {
                Some(d) => values@.push(d),
                None => values@,
            }) && s.has_idx == false && s.status@.len() == 0 && s.waited_n == 0),
            final(self).values@ == old(self).values@,
            final(self).value_conds@ == old(self).value_conds@,
            final(self).channels@ == old(self).channels@,
            final(self).reducer == old(self).reducer,
            final(self).dependency == old(self).dependency,
    {
        let mut values = values;
        match default {
            Some(d) => values.push(d),
            None => {},
        }
        let event = Event::Select(SelectEvent::new(lhs, cond_checked_value, values));
        self.add_event(event);
    }
}

} // verus!
