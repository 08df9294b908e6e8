//! The identifier reducers: dense flat identities for structural
//! identifiers.
//!
//! `Reducer` serves the flattening traversal: a structural identifier is
//! either reduced on first use, allocating the next flat value index, or
//! target-bound to a flat value the caller already owns (port aliasing).
//! Target-binding must come first: binding an identifier that was already
//! reduced or bound is a structural violation. `IdReducer` is the simpler
//! dense renumbering used when a single module is viewed wire by wire.

use std::collections::HashMap;

use vstd::prelude::*;

use crate::error::StructuralViolation;
use crate::ir::EntityId;
use crate::ir::OpId;

verus! {

broadcast use vstd::std_specs::hash::group_hash_axioms;

/// What one reduction step does to the map, the counter, and the returned
/// flat index: an already-mapped identifier keeps its flat value, a fresh
/// one takes the next index.
pub open spec fn spec_reduce(m: Map<usize, usize>, n: int, id: usize) -> (
    Map<usize, usize>,
    int,
    int,
) {
    if m.contains_key(id) {
        (m, n, m[id] as int)
    } else {
        (m.insert(id, n as usize), n + 1, n)
    }
}

/// What target-binding does: it records the caller's flat value for a
/// fresh identifier, and refuses an identifier that is already mapped.
pub open spec fn spec_bind(m: Map<usize, usize>, id: usize, target: usize) -> Option<
    Map<usize, usize>,
> {
    if m.contains_key(id) {
        None
    } else {
        Some(m.insert(id, target))
    }
}

/// What a sequence of target-bindings does, port by port: each identifier
/// must be fresh when its turn comes; one repeated identifier fails the
/// whole sequence.
pub open spec fn spec_bind_all(
    m: Map<usize, usize>,
    entities: Seq<EntityId>,
    targets: Seq<usize>,
) -> Option<Map<usize, usize>>
    decreases entities.len(),
{
    if entities.len() == 0 {
        Some(m)
    } else {
        match spec_bind(m, entities[0].0, targets[0]) {
            None => None,
            Some(m1) => spec_bind_all(
                m1,
                entities.subrange(1, entities.len() as int),
                targets.subrange(1, targets.len() as int),
            ),
        }
    }
}

/// A successful sequence of target-bindings resolves each identifier to
/// its own target, and leaves every earlier binding as it was.
pub proof fn lemma_bind_all_resolves(
    m: Map<usize, usize>,
    entities: Seq<EntityId>,
    targets: Seq<usize>,
)
    requires
        entities.len() == targets.len(),
        spec_bind_all(m, entities, targets) is Some,
    ensures
        ({
            let m2 = spec_bind_all(m, entities, targets)->Some_0;
            &&& (forall|k: usize|
                #[trigger] m.dom().contains(k) ==> m2.dom().contains(k) && m2[k] == m[k])
            &&& (forall|i: int|
                0 <= i < entities.len() ==> m2.dom().contains((#[trigger] entities[i]).0)
                    && m2[entities[i].0] == targets[i])
        }),
    decreases entities.len(),
{
    if entities.len() > 0 {
        let m1 = spec_bind(m, entities[0].0, targets[0])->Some_0;
        let es = entities.subrange(1, entities.len() as int);
        let ts = targets.subrange(1, targets.len() as int);
        lemma_bind_all_resolves(m1, es, ts);
        let m2 = spec_bind_all(m, entities, targets)->Some_0;
        assert(spec_bind_all(m1, es, ts)->Some_0 == m2);
        assert forall|k: usize| #[trigger]
            m.dom().contains(k) implies m2.dom().contains(k) && m2[k] == m[k] by {
            assert(m1.dom().contains(k));
            assert(m1[k] == m[k]);
        }
        assert forall|i: int|
            0 <= i < entities.len() implies m2.dom().contains((#[trigger] entities[i]).0)
            && m2[entities[i].0] == targets[i] by {
            if i == 0 {
                assert(m1.dom().contains(entities[0].0));
            } else {
                assert(es[i - 1] == entities[i]);
                assert(ts[i - 1] == targets[i]);
            }
        }
    }
}

/// Idempotent reduction: reducing the same identifier a second time, with
/// no target-binding in between, returns the same flat value as the first
/// time and changes nothing.
pub proof fn lemma_reduce_idempotent(m: Map<usize, usize>, n: int, id: usize)
    requires
        0 <= n <= usize::MAX,
    ensures
        ({
            let (m1, n1, i1) = spec_reduce(m, n, id);
            let (m2, n2, i2) = spec_reduce(m1, n1, id);
            i2 == i1 && m2 == m1 && n2 == n1
        }),
{
}

/// Aliasing ordering: target-binding an identifier succeeds exactly when
/// no reduction or binding of it came first; after a successful binding, a
/// second binding of the same identifier fails, and a reduction of it
/// returns the bound flat value instead of allocating.
pub proof fn lemma_aliasing_ordering(
    m: Map<usize, usize>,
    n: int,
    id: usize,
    target: usize,
    target2: usize,
)
    ensures
        spec_bind(m, id, target) is Some <==> !m.contains_key(id),
        spec_bind(m, id, target) matches Some(m1) ==> spec_bind(m1, id, target2) is None,
        spec_bind(m, id, target) matches Some(m1) ==> spec_reduce(m1, n, id) == (
            m1,
            n,
            target as int,
        ),
{
}

/// The result of a reduction: a freshly allocated flat value, or the one
/// the identifier was already mapped to.
#[derive(Clone, Copy, Debug, PartialEq, Eq, Structural)]
pub enum Reduced {
    /// The identifier was not mapped before; this flat value was allocated
    /// for it.
    New(usize),
    /// The identifier was already mapped to this flat value.
    Old(usize),
}

impl Reduced {
    /// The carried flat value index, whichever way it was obtained.
    pub open spec fn spec_idx(&self) -> usize {
        match self {
            Reduced::New(idx) => *idx,
            Reduced::Old(idx) => *idx,
        }
    }

    /// The carried flat value index, whichever way it was obtained.
    pub fn idx(self) -> (r: usize)
        ensures
            r == self.spec_idx(),
    {
        match self {
            Reduced::New(idx) => idx,
            Reduced::Old(idx) => idx,
        }
    }
}

/// The flattening traversal's reducer: a map from structural identifiers
/// to flat value indices, with the next free index.
#[derive(Debug)]
pub struct Reducer {
    /// The recorded mapping, keyed by the structural identifier's number.
    pub hash_map: HashMap<usize, usize>,
    /// The next flat value index to allocate.
    pub n: usize,
}

impl Reducer {
    /// Every recorded flat value lies below the allocation counter.
    pub open spec fn wf(&self) -> bool {
        forall|k: usize|
            self.hash_map@.dom().contains(k) ==> (#[trigger] self.hash_map@[k]) < self.n
    }

    /// An empty reducer: nothing mapped, nothing allocated.
    pub fn new() -> (r: Reducer)
        ensures
            r.hash_map@ == Map::<usize, usize>::empty(),
            r.n == 0,
            r.wf(),
    {
        Reducer { hash_map: HashMap::new(), n: 0 }
    }

    /// Reduce a structural identifier: allocate the next flat value on
    /// first use, return the recorded one afterwards. The result is `New`
    /// exactly on first use.
    pub fn reduce(&mut self, entity: EntityId) -> (r: Reduced)
        requires
            old(self).n < usize::MAX,
            old(self).wf(),
        ensures
            final(self).wf(),
            ({
                let (m2, n2, idx) = spec_reduce(old(self).hash_map@, old(self).n as int, entity.0);
                &&& final(self).hash_map@ == m2
                &&& final(self).n as int == n2
                &&& r.spec_idx() as int == idx
                &&& (r is Old <==> old(self).hash_map@.contains_key(entity.0))
            }),
            final(self).hash_map@.contains_key(entity.0),
            final(self).hash_map@[entity.0] == r.spec_idx(),
    {
        match self.hash_map.get(&entity.0) {
            Some(idx) => Reduced::Old(*idx),
            None => {
                let new_id = self.n;
                self.n = self.n + 1;
                self.hash_map.insert(entity.0, new_id);
                Reduced::New(new_id)
            },
        }
    }

    /// Bind a structural identifier to a flat value the caller already
    /// owns. Fails, changing nothing, exactly when the identifier was
    /// already reduced or bound: aliasing must precede any independent
    /// use.
    pub fn reduce_with_target(&mut self, entity: EntityId, target: usize) -> (r: Result<
        Reduced,
        StructuralViolation,
    >)
        requires
            target < old(self).n,
            old(self).wf(),
        ensures
            final(self).wf(),
            final(self).n == old(self).n,
            match r {
                Ok(red) => ({
                    &&& spec_bind(old(self).hash_map@, entity.0, target) matches Some(m2)
                        && final(self).hash_map@ == m2
                    &&& red == Reduced::Old(target)
                }),
                Err(v) => ({
                    &&& spec_bind(old(self).hash_map@, entity.0, target) is None
                    &&& final(self).hash_map@ == old(self).hash_map@
                    &&& v == StructuralViolation::RepeatedBinding(entity.0)
                }),
            },
    {
        if self.hash_map.contains_key(&entity.0) {
            Err(StructuralViolation::RepeatedBinding(entity.0))
        } else {
            self.hash_map.insert(entity.0, target);
            Ok(Reduced::Old(target))
        }
    }

    /// Allocate a flat value index with no structural identifier behind
    /// it, for synthetic values such as a selector's checked value.
    pub fn new_value(&mut self) -> (r: usize)
        requires
            old(self).n < usize::MAX,
            old(self).wf(),
        ensures
            final(self).wf(),
            r == old(self).n,
            final(self).n == old(self).n + 1,
            final(self).hash_map@ == old(self).hash_map@,
    {
        let new_id = self.n;
        self.n = self.n + 1;
        new_id
    }
}

/// A dense renumbering of entity and operation identifiers, keyed by order
/// of first appearance.
#[derive(Debug)]
pub struct IdReducer {
    /// Entity identifiers seen so far, each mapped to its dense number.
    pub entity_set: HashMap<usize, usize>,
    /// Operation identifiers seen so far, each mapped to its dense number.
    pub op_set: HashMap<usize, usize>,
}

impl IdReducer {
    /// An empty renumbering.
    pub fn new() -> (r: IdReducer)
        ensures
            r.entity_set@ == Map::<usize, usize>::empty(),
            r.op_set@ == Map::<usize, usize>::empty(),
    {
        IdReducer { entity_set: HashMap::new(), op_set: HashMap::new() }
    }

    /// The dense number of an entity identifier, allocated in order of
    /// first appearance.
    pub fn reduce_entity(&mut self, id: EntityId) -> (r: usize)
        ensures
            final(self).op_set@ == old(self).op_set@,
            old(self).entity_set@.contains_key(id.0) ==> r == old(self).entity_set@[id.0]
                && final(self).entity_set@ == old(self).entity_set@,
            !old(self).entity_set@.contains_key(id.0) ==> final(self).entity_set@ == old(self).entity_set@.insert(id.0, r),
            final(self).entity_set@.contains_key(id.0),
            final(self).entity_set@[id.0] == r,
    {
        let len = self.entity_set.len();
        match self.entity_set.get(&id.0) {
            Some(existing) => *existing,
            None => {
                self.entity_set.insert(id.0, len);
                len
            },
        }
    }

    /// The dense number of an operation identifier, allocated in order of
    /// first appearance.
    pub fn reduce_op(&mut self, id: OpId) -> (r: usize)
        ensures
            final(self).entity_set@ == old(self).entity_set@,
            old(self).op_set@.contains_key(id.0) ==> r == old(self).op_set@[id.0] && final(self).op_set@ == old(self).op_set@,
            !old(self).op_set@.contains_key(id.0) ==> final(self).op_set@ == old(self).op_set@.insert(id.0, r),
            final(self).op_set@.contains_key(id.0),
            final(self).op_set@[id.0] == r,
    {
        let len = self.op_set.len();
        match self.op_set.get(&id.0) {
            Some(existing) => *existing,
            None => {
                self.op_set.insert(id.0, len);
                len
            },
        }
    }
}

} // verus!
