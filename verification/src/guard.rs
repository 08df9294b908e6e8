//! The guard algebra: boolean predicate trees recording under which
//! condition a flat value is driven or an operation's branch is taken.
//!
//! Merging two guards that drive the same value is always a disjunction,
//! never an overwrite: `Never` is the identity of `or`, `Must` absorbs, and
//! an existing `Or` node is extended in place rather than nested.

use vstd::prelude::*;

verus! {

/// The mathematical shape of a guard tree, used in every contract that
/// speaks about guards.
#[verifier::ext_equal]
pub enum GuardShape {
    /// Unconditionally active.
    Must,
    /// Not driven yet; the identity of disjunction.
    Never,
    /// Active iff the boolean flat value with this index is true.
    Value(usize),
    /// Active iff every child is active.
    And(Seq<GuardShape>),
    /// Active iff some child is active.
    Or(Seq<GuardShape>),
    /// Active iff the child is not active.
    Not(Box<GuardShape>),
}

/// The activation condition of a flat value or of an operation.
#[derive(Debug)]
pub enum Condition {
    /// Unconditionally active.
    Must,
    /// Not driven yet; placeholder merged away by the first real write.
    Never,
    /// Active iff the boolean flat value with this index is true.
    Value(usize),
    /// Conjunction of the children.
    And(Vec<Condition>),
    /// Disjunction of the children.
    Or(Vec<Condition>),
    /// Negation of the child.
    Not(Box<Condition>),
}

impl View for Condition {
    type V = GuardShape;

    open spec fn view(&self) -> GuardShape
        decreases self,
    {
        match self {
            Condition::Must => GuardShape::Must,
            Condition::Never => GuardShape::Never,
            Condition::Value(v) => GuardShape::Value(*v),
            Condition::And(cs) => GuardShape::And(shapes_of(cs@)),
            Condition::Or(cs) => GuardShape::Or(shapes_of(cs@)),
            Condition::Not(c) => GuardShape::Not(Box::new((**c)@)),
        }
    }
}

/// The shapes of a list of guards, in order.
pub open spec fn shapes_of(s: Seq<Condition>) -> Seq<GuardShape>
    decreases s,
{
    if s.len() == 0 {
        Seq::empty()
    } else {
        shapes_of(s.subrange(0, s.len() - 1)).push(s[s.len() - 1]@)
    }
}

/// `shapes_of` maps the list pointwise: it keeps the length and takes the
/// shape of each element.
pub proof fn lemma_shapes_of(s: Seq<Condition>)
    ensures
        shapes_of(s).len() == s.len(),
        forall|i: int| 0 <= i < s.len() ==> shapes_of(s)[i] == #[trigger] s[i]@,
    decreases s.len(),
{
    if s.len() > 0 {
        let sub = s.subrange(0, s.len() - 1);
        lemma_shapes_of(sub);
        assert(shapes_of(s) == shapes_of(sub).push(s[s.len() - 1]@));
        assert forall|i: int| 0 <= i < s.len() implies shapes_of(s)[i] == #[trigger] s[i]@ by {
            if i < s.len() - 1 {
                assert(sub[i] == s[i]);
                assert(shapes_of(s)[i] == shapes_of(sub)[i]);
            }
        }
    }
}

/// Appending a guard to a list appends its shape to the list's shapes.
pub proof fn lemma_shapes_of_push(s: Seq<Condition>, c: Condition)
    ensures
        shapes_of(s.push(c)) == shapes_of(s).push(c@),
{
    assert(s.push(c).subrange(0, s.push(c).len() - 1) =~= s);
}

/// Replacing a guard in a list replaces its shape in the list's shapes.
pub proof fn lemma_shapes_of_update(s: Seq<Condition>, j: int, c: Condition)
    requires
        0 <= j < s.len(),
    ensures
        shapes_of(s.update(j, c)) == shapes_of(s).update(j, c@),
{
    let t = s.update(j, c);
    lemma_shapes_of(s);
    lemma_shapes_of(t);
    assert forall|i: int| 0 <= i < s.len() implies shapes_of(t)[i] == shapes_of(s).update(j, c@)[i] by {
        assert(shapes_of(t)[i] == t[i]@);
        assert(shapes_of(s)[i] == s[i]@);
    }
    assert(shapes_of(t) =~= shapes_of(s).update(j, c@));
}

/// What merging a new guard into an existing one yields: the disjunction,
/// with `Never` as identity, `Must` absorbing, and an existing `Or` list
/// extended rather than nested.
pub open spec fn spec_or(a: GuardShape, b: GuardShape) -> GuardShape {
    match a {
        GuardShape::Never => b,
        GuardShape::Must => GuardShape::Must,
        GuardShape::Or(cs) => GuardShape::Or(cs.push(b)),
        _ => GuardShape::Or(seq![a, b]),
    }
}


/// Whether a guard holds under an assignment of truth values to flat
/// values: `Must` always, `Never` never, a value reference exactly when
/// the assignment maps it to true.
pub open spec fn holds_under(g: GuardShape, env: Map<usize, bool>) -> bool
    decreases g,
{
    match g {
        GuardShape::Must => true,
        GuardShape::Never => false,
        GuardShape::Value(v) => env.contains_key(v) && env[v],
        GuardShape::And(cs) => all_hold(cs, env),
        GuardShape::Or(cs) => any_holds(cs, env),
        GuardShape::Not(g2) => !holds_under(*g2, env),
    }
}

/// Whether every guard of a list holds under the assignment.
pub open spec fn all_hold(s: Seq<GuardShape>, env: Map<usize, bool>) -> bool
    decreases s,
{
    if s.len() == 0 {
        true
    } else {
        all_hold(s.subrange(0, s.len() - 1), env) && holds_under(s[s.len() - 1], env)
    }
}

/// Whether some guard of a list holds under the assignment.
pub open spec fn any_holds(s: Seq<GuardShape>, env: Map<usize, bool>) -> bool
    decreases s,
{
    if s.len() == 0 {
        false
    } else {
        any_holds(s.subrange(0, s.len() - 1), env) || holds_under(s[s.len() - 1], env)
    }
}

/// Merging guards is semantically a disjunction: under every assignment,
/// the merged guard holds exactly when one of the two merged guards does —
/// also where the merge flattens into an existing disjunction instead of
/// nesting.
pub proof fn lemma_guard_or_semantics(a: GuardShape, b: GuardShape, env: Map<usize, bool>)
    ensures
        holds_under(spec_or(a, b), env) == (holds_under(a, env) || holds_under(b, env)),
{
    match a {
        GuardShape::Never => {},
        GuardShape::Must => {},
        GuardShape::Or(cs) => {
            let grown = cs.push(b);
            assert(grown.subrange(0, grown.len() - 1) =~= cs);
            assert(grown[grown.len() - 1] == b);
            assert(any_holds(grown, env) == (any_holds(cs, env) || holds_under(b, env)));
        },
        _ => {
            let pair = seq![a, b];
            let single = pair.subrange(0, 1);
            assert(single =~= seq![a]);
            assert(pair[1] == b);
            assert(any_holds(pair, env) == (any_holds(single, env) || holds_under(b, env)));
            let head = seq![a];
            let empty = head.subrange(0, 0);
            assert(empty =~= Seq::<GuardShape>::empty());
            assert(head[0] == a);
            assert(any_holds(head, env) == (any_holds(empty, env) || holds_under(a, env)));
            assert(!any_holds(empty, env));
        },
    }
}

/// Conjoining guards is semantically a conjunction: under every
/// assignment, the combined guard holds exactly when both sides do.
pub proof fn lemma_guard_and_semantics(a: GuardShape, b: GuardShape, env: Map<usize, bool>)
    ensures
        holds_under(GuardShape::And(seq![a, b]), env) == (holds_under(a, env) && holds_under(
            b,
            env,
        )),
{
    let pair = seq![a, b];
    let single = pair.subrange(0, 1);
    assert(single =~= seq![a]);
    assert(pair[1] == b);
    assert(all_hold(pair, env) == (all_hold(single, env) && holds_under(b, env)));
    let head = seq![a];
    let empty = head.subrange(0, 0);
    assert(empty =~= Seq::<GuardShape>::empty());
    assert(head[0] == a);
    assert(all_hold(head, env) == (all_hold(empty, env) && holds_under(a, env)));
    assert(all_hold(empty, env));
}

/// Guard merge law: merging a later write's guard into a value's guard is
/// always a disjunction, never an overwrite and never a conjunction: a
/// `Never` placeholder gives way to the new guard, `Must` absorbs, an
/// existing disjunction is extended in place, and any other guard `A`
/// merged with `B` becomes exactly `Or(A, B)`.
pub proof fn lemma_guard_merge(a: GuardShape, b: GuardShape)
    ensures
        a is Never ==> spec_or(a, b) == b,
        a is Must ==> spec_or(a, b) == GuardShape::Must,
        a matches GuardShape::Or(cs) ==> spec_or(a, b) == GuardShape::Or(cs.push(b)),
        (!(a is Never) && !(a is Must) && !(a is Or)) ==> spec_or(a, b) == GuardShape::Or(
            seq![a, b],
        ),
{
}

impl Condition {
    /// Merge `that` into `self` as a disjunction; the shape of the result is
    /// exactly `spec_or` of the two shapes.
    pub fn or(self, that: Condition) -> (r: Condition)
        ensures
            r@ == spec_or(self@, that@),
    {
        let ghost b = that@;
        let ghost that_value = that;
        match self {
            Condition::Never => that,
            Condition::Must => Condition::Must,
            Condition::Or(mut cs) => {
                let ghost old_cs = cs@;
                cs.push(that);
                proof {
                    lemma_shapes_of_push(old_cs, that_value);
                }
                Condition::Or(cs)
            },
            other => {
                let ghost a = other@;
                let children = vec![other, that];
                proof {
                    lemma_shapes_of(children@);
                    assert(shapes_of(children@) =~= seq![a, b]);
                }
                Condition::Or(children)
            },
        }
    }

    /// Conjoin `that` to `self`; always builds a two-child `And` node, with
    /// no simplification.
    pub fn and(self, that: Condition) -> (r: Condition)
        ensures
            r@ == GuardShape::And(seq![self@, that@]),
    {
        let ghost a = self@;
        let ghost b = that@;
        let children = vec![self, that];
        proof {
            lemma_shapes_of(children@);
            assert(shapes_of(children@) =~= seq![a, b]);
        }
        Condition::And(children)
    }

    /// A structurally identical copy of the guard tree.
    pub fn duplicate(&self) -> (r: Condition)
        ensures
            r@ == self@,
        decreases self,
    {
        match self {
            Condition::Must => Condition::Must,
            Condition::Never => Condition::Never,
            Condition::Value(v) => Condition::Value(*v),
            Condition::And(cs) => {
                let copies = duplicate_children(cs);
                proof {
                    lemma_shapes_of(copies@);
                    lemma_shapes_of(cs@);
                    assert forall|i: int| 0 <= i < cs@.len()
                        implies shapes_of(copies@)[i] == shapes_of(cs@)[i] by {
                        assert(copies@[i]@ == cs@[i]@);
                    }
                    assert(shapes_of(copies@) =~= shapes_of(cs@));
                }
                Condition::And(copies)
            },
            Condition::Or(cs) => {
                let copies = duplicate_children(cs);
                proof {
                    lemma_shapes_of(copies@);
                    lemma_shapes_of(cs@);
                    assert forall|i: int| 0 <= i < cs@.len()
                        implies shapes_of(copies@)[i] == shapes_of(cs@)[i] by {
                        assert(copies@[i]@ == cs@[i]@);
                    }
                    assert(shapes_of(copies@) =~= shapes_of(cs@));
                }
                Condition::Or(copies)
            },
            Condition::Not(c) => Condition::Not(Box::new(c.duplicate())),
        }
    }
}

/// A structurally identical copy of a guard list.
fn duplicate_children(cs: &Vec<Condition>) -> (r: Vec<Condition>)
    ensures
        r@.len() == cs@.len(),
        forall|i: int| 0 <= i < cs@.len() ==> r@[i]@ == #[trigger] cs@[i]@,
    decreases cs,
{
    let mut out: Vec<Condition> = Vec::new();
    let mut i: usize = 0;
    while i < cs.len()
        invariant
            i <= cs@.len(),
            out@.len() == i,
            forall|k: int| 0 <= k < i ==> out@[k]@ == #[trigger] cs@[k]@,
        decreases cs@.len() - i,
    {
        let c = cs[i].duplicate();
        out.push(c);
        i = i + 1;
    }
    out
}

} // verus!
