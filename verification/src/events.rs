//! The readiness-tracked operation model.
//!
//! Every flattened operation is one of a closed set of kinds, each exposing
//! its defined and used flat values and a readiness state machine driven by
//! the arrival of its uses: an operation may fire once every declared use
//! has arrived, in any order. `Select` waits for two things at once: its
//! decision value, tracked by a separate flag, and every candidate value,
//! tracked by a countdown.

use vstd::prelude::*;

use crate::error::StructuralViolation;
use crate::ir::OpEnum;

verus! {

/// How many positions of an arrival record are still pending.
pub open spec fn count_false(s: Seq<bool>) -> nat
    decreases s,
{
    if s.len() == 0 {
        0
    } else {
        count_false(s.subrange(0, s.len() - 1)) + (if s[s.len() - 1] {
            0nat
        } else {
            1nat
        })
    }
}

/// Nothing is pending exactly when every position has arrived.
pub proof fn lemma_count_false_zero(s: Seq<bool>)
    ensures
        (count_false(s) == 0) <==> (forall|i: int| 0 <= i < s.len() ==> s[i]),
    decreases s.len(),
{
    if s.len() > 0 {
        let sub = s.subrange(0, s.len() - 1);
        lemma_count_false_zero(sub);
        assert forall|i: int| 0 <= i < sub.len() implies sub[i] == s[i] by {}
    }
}

/// In an all-pending record, everything is pending.
pub proof fn lemma_count_false_all_false(s: Seq<bool>)
    requires
        forall|i: int| 0 <= i < s.len() ==> !s[i],
    ensures
        count_false(s) == s.len(),
    decreases s.len(),
{
    if s.len() > 0 {
        lemma_count_false_all_false(s.subrange(0, s.len() - 1));
    }
}

/// Marking one pending position as arrived lowers the pending count by one.
pub proof fn lemma_count_false_update_true(s: Seq<bool>, j: int)
    requires
        0 <= j < s.len(),
        !s[j],
    ensures
        count_false(s.update(j, true)) + 1 == count_false(s),
    decreases s.len(),
{
    let t = s.update(j, true);
    if j == s.len() - 1 {
        assert(t.subrange(0, t.len() - 1) =~= s.subrange(0, s.len() - 1));
    } else {
        assert(t.subrange(0, t.len() - 1) =~= s.subrange(0, s.len() - 1).update(j, true));
        lemma_count_false_update_true(s.subrange(0, s.len() - 1), j);
    }
}

/// Pending counts add up over a record split into a first flag and a rest.
pub proof fn lemma_count_false_prepend(b: bool, s: Seq<bool>)
    ensures
        count_false(seq![b] + s) == (if b {
            0nat
        } else {
            1nat
        }) + count_false(s),
    decreases s.len(),
{
    let whole = seq![b] + s;
    if s.len() == 0 {
        assert(whole =~= seq![b]);
        assert(count_false(seq![b]) == count_false(seq![b].subrange(0, 0)) + (if b {
            0nat
        } else {
            1nat
        }));
        assert(seq![b].subrange(0, 0) =~= Seq::<bool>::empty());
    } else {
        assert(whole.subrange(0, whole.len() - 1) =~= seq![b] + s.subrange(0, s.len() - 1));
        lemma_count_false_prepend(b, s.subrange(0, s.len() - 1));
    }
}

/// The position of the first occurrence of `x` in `s`, or a negative value
/// when `x` does not occur.
pub open spec fn first_pos(s: Seq<usize>, x: usize) -> int
    decreases s,
{
    if s.len() == 0 {
        -1
    } else if s[0] == x {
        0
    } else {
        if first_pos(s.subrange(1, s.len() as int), x) < 0 {
            -1
        } else {
            first_pos(s.subrange(1, s.len() as int), x) + 1
        }
    }
}

/// What `first_pos` finds: a first occurrence when one exists, nothing when
/// `x` does not occur.
pub proof fn lemma_first_pos(s: Seq<usize>, x: usize)
    ensures
        first_pos(s, x) >= 0 ==> first_pos(s, x) < s.len() && s[first_pos(s, x)] == x && (forall|
            k: int,
        | 0 <= k < first_pos(s, x) ==> s[k] != x),
        first_pos(s, x) < 0 ==> (forall|k: int| 0 <= k < s.len() ==> s[k] != x),
    decreases s.len(),
{
    if s.len() > 0 && s[0] != x {
        let rest = s.subrange(1, s.len() as int);
        lemma_first_pos(rest, x);
        let fp = first_pos(rest, x);
        if fp >= 0 {
            assert(first_pos(s, x) == fp + 1);
            assert(s[fp + 1] == rest[fp]);
            assert forall|k: int| 0 <= k < fp + 1 implies s[k] != x by {
                if k > 0 {
                    assert(s[k] == rest[k - 1]);
                }
            }
        } else {
            assert forall|k: int| 0 <= k < s.len() implies s[k] != x by {
                if k > 0 {
                    assert(s[k] == rest[k - 1]);
                }
            }
        }
    }
}

/// A first occurrence determines `first_pos`.
pub proof fn lemma_first_pos_witness(s: Seq<usize>, x: usize, j: int)
    requires
        0 <= j < s.len(),
        s[j] == x,
        forall|k: int| 0 <= k < j ==> s[k] != x,
    ensures
        first_pos(s, x) == j,
    decreases s.len(),
{
    if j > 0 {
        let rest = s.subrange(1, s.len() as int);
        assert forall|k: int| 0 <= k < rest.len() implies rest[k] == s[k + 1] by {}
        lemma_first_pos_witness(rest, x, j - 1);
    }
}

/// Scan for the first occurrence of `x` in `uses`.
fn find_first(uses: &Vec<usize>, x: usize) -> (r: Option<usize>)
    ensures
        match r {
            Some(j) => j == first_pos(uses@, x) && j < uses@.len(),
            None => first_pos(uses@, x) < 0,
        },
{
    let mut i: usize = 0;
    while i < uses.len()
        invariant
            i <= uses@.len(),
            forall|k: int| 0 <= k < i ==> uses@[k] != x,
        decreases uses@.len() - i,
    {
        if uses[i] == x {
            proof {
                lemma_first_pos_witness(uses@, x, i as int);
            }
            return Some(i);
        }
        i = i + 1;
    }
    proof {
        lemma_first_pos(uses@, x);
        if first_pos(uses@, x) >= 0 {
            assert(uses@[first_pos(uses@, x)] == x);
        }
    }
    None
}

/// An all-pending arrival record of the given size.
fn falses(n: usize) -> (r: Vec<bool>)
    ensures
        r@ == Seq::new(n as nat, |i: int| false),
{
    let mut out: Vec<bool> = Vec::new();
    let mut i: usize = 0;
    while i < n
        invariant
            i <= n,
            out@.len() == i,
            forall|k: int| 0 <= k < i ==> !out@[k],
        decreases n - i,
    {
        out.push(false);
        i = i + 1;
    }
    proof {
        assert(out@ =~= Seq::new(n as nat, |i: int| false));
    }
    out
}

/// A copy of a list of flat value indices.
pub(crate) fn copy_ids(v: &Vec<usize>) -> (r: Vec<usize>)
    ensures
        r@ == v@,
{
    let mut out: Vec<usize> = Vec::new();
    let mut i: usize = 0;
    while i < v.len()
        invariant
            i <= v@.len(),
            out@ == v@.subrange(0, i as int),
        decreases v@.len() - i,
    {
        out.push(v[i]);
        i = i + 1;
    }
    proof {
        assert(out@ =~= v@);
    }
    out
}

/// The countdown step shared by every kind that waits on a list of uses:
/// mark the first occurrence of `new_use` as arrived, or report why it
/// cannot be marked. The record and the pending count are left untouched on
/// an error.
fn mark_arrived(
    uses: &Vec<usize>,
    status: &mut Vec<bool>,
    waited_n: &mut usize,
    new_use: usize,
) -> (r: Result<bool, StructuralViolation>)
    requires
        old(status)@.len() == uses@.len(),
        *old(waited_n) as nat == count_false(old(status)@),
    ensures
        match r {
            Ok(became_ready) => ({
                let j = first_pos(uses@, new_use);
                &&& 0 <= j < uses@.len()
                &&& !old(status)@[j]
                &&& final(status)@ == old(status)@.update(j, true)
                &&& *final(waited_n) as nat == count_false(final(status)@)
                &&& became_ready == (*final(waited_n) == 0)
            }),
            Err(v) => ({
                let j = first_pos(uses@, new_use);
                &&& *final(status) == *old(status)
                &&& *final(waited_n) == *old(waited_n)
                &&& (j < 0 ==> v == StructuralViolation::UnknownUse(new_use))
                &&& (j >= 0 ==> old(status)@[j] && v == StructuralViolation::RepeatedUpdate(
                    new_use,
                ))
            }),
        },
{
    match find_first(uses, new_use) {
        None => Err(StructuralViolation::UnknownUse(new_use)),
        Some(j) => {
            proof {
                lemma_first_pos(uses@, new_use);
            }
            if status[j] {
                Err(StructuralViolation::RepeatedUpdate(new_use))
            } else {
                proof {
                    lemma_count_false_update_true(status@, j as int);
                }
                status.set(j, true);
                *waited_n = *waited_n - 1;
                Ok(*waited_n == 0)
            }
        },
    }
}

/// The four-operation readiness contract every operation kind implements:
/// expose defs and uses, size the arrival record, take arrivals one at a
/// time, and tell when the operation may fire.
pub trait DefUseTopo: Sized {
    /// The declared uses, in order; `Select` lists its decision value
    /// first.
    spec fn uses_seq(&self) -> Seq<usize>;

    /// The declared defs, in order.
    spec fn defs_seq(&self) -> Seq<usize>;

    /// Which use positions have arrived.
    spec fn arrived_seq(&self) -> Seq<bool>;

    /// The operation has been initialized: its arrival record matches its
    /// use list and its pending count agrees with the record.
    spec fn wf(&self) -> bool;

    /// The two operations agree on everything but the arrival tracking:
    /// the fields initialization and updates must leave as they are.
    spec fn same_config(&self, other: &Self) -> bool;

    /// The defined flat values.
    fn get_defs(&self) -> (r: Vec<usize>)
        ensures
            r@ == self.defs_seq(),
    ;

    /// The used flat values.
    fn get_uses(&self) -> (r: Vec<usize>)
        ensures
            r@ == self.uses_seq(),
    ;

    /// Size the arrival record to the use list, with every use pending.
    fn initialize(&mut self)
        ensures
            final(self).wf(),
            final(self).same_config(old(self)),
            final(self).uses_seq() == old(self).uses_seq(),
            final(self).defs_seq() == old(self).defs_seq(),
            final(self).arrived_seq() == Seq::new(old(self).uses_seq().len(), |i: int| false),
    ;

    /// Record the arrival of a used flat value. Fails, leaving the
    /// operation unchanged, exactly when the value is not among the
    /// declared uses or its first occurrence has already arrived; on
    /// success tells whether the operation just became ready.
    fn update(&mut self, new_use: usize) -> (r: Result<bool, StructuralViolation>)
        requires
            old(self).wf(),
        ensures
            final(self).wf(),
            final(self).same_config(old(self)),
            final(self).uses_seq() == old(self).uses_seq(),
            final(self).defs_seq() == old(self).defs_seq(),
            match r {
                Ok(became_ready) => ({
                    let j = first_pos(old(self).uses_seq(), new_use);
                    &&& 0 <= j < old(self).arrived_seq().len()
                    &&& !old(self).arrived_seq()[j]
                    &&& final(self).arrived_seq() == old(self).arrived_seq().update(j, true)
                    &&& became_ready == (count_false(final(self).arrived_seq()) == 0)
                }),
                Err(v) => ({
                    let j = first_pos(old(self).uses_seq(), new_use);
                    &&& *final(self) == *old(self)
                    &&& (j < 0 ==> v == StructuralViolation::UnknownUse(new_use))
                    &&& (j >= 0 ==> old(self).arrived_seq()[j] && v
                        == StructuralViolation::RepeatedUpdate(new_use))
                }),
            },
    ;

    /// Whether every wait of the operation is satisfied.
    fn ready(&self) -> (r: bool)
        requires
            self.wf(),
        ensures
            r == (count_false(self.arrived_seq()) == 0),
    ;
}

/// A top-level input port: always ready, it stands for external arrival.
#[derive(Debug)]
pub struct ListenChannel {
    /// The channel indices the port exposes, one per port wire.
    pub channels: Vec<usize>,
    /// The flat values the port defines.
    pub values: Vec<usize>,
}

impl ListenChannel {
    /// A listening port over the given channels and flat values.
    pub fn new(channels: Vec<usize>, values: Vec<usize>) -> (r: ListenChannel)
        ensures
            r.channels@ == channels@,
            r.values@ == values@,
    {
        ListenChannel { channels, values }
    }
}

impl DefUseTopo for ListenChannel {
    open spec fn uses_seq(&self) -> Seq<usize> {
        Seq::empty()
    }

    open spec fn same_config(&self, other: &Self) -> bool {
        self.channels@ == other.channels@ && self.values@ == other.values@
    }

    open spec fn defs_seq(&self) -> Seq<usize> {
        self.values@
    }

    open spec fn arrived_seq(&self) -> Seq<bool> {
        Seq::empty()
    }

    open spec fn wf(&self) -> bool {
        true
    }

    fn get_defs(&self) -> Vec<usize> {
        copy_ids(&self.values)
    }

    fn get_uses(&self) -> Vec<usize> {
        Vec::new()
    }

    fn initialize(&mut self) {
        proof {
            assert(self.arrived_seq() =~= Seq::new(self.uses_seq().len(), |i: int| false));
        }
    }

    fn update(&mut self, new_use: usize) -> Result<bool, StructuralViolation> {
        Err(StructuralViolation::UnknownUse(new_use))
    }

    fn ready(&self) -> bool {
        true
    }
}

/// A top-level output port: ready when every port value has arrived once.
#[derive(Debug)]
pub struct WriteChannel {
    /// The channel indices the port exposes, one per port wire.
    pub channels: Vec<usize>,
    /// The flat values the port uses.
    pub values: Vec<usize>,
    /// Which uses have arrived.
    pub status: Vec<bool>,
    /// How many uses are still pending.
    pub waited_n: usize,
}

impl WriteChannel {
    /// A writing port over the given channels and flat values, awaiting
    /// initialization.
    pub fn new(channels: Vec<usize>, values: Vec<usize>) -> (r: WriteChannel)
        ensures
            r.channels@ == channels@,
            r.values@ == values@,
            r.status@.len() == 0,
            r.waited_n == 0,
    {
        WriteChannel { channels, values, status: Vec::new(), waited_n: 0 }
    }
}

impl DefUseTopo for WriteChannel {
    open spec fn uses_seq(&self) -> Seq<usize> {
        self.values@
    }

    open spec fn same_config(&self, other: &Self) -> bool {
        self.channels@ == other.channels@ && self.values@ == other.values@
    }

    open spec fn defs_seq(&self) -> Seq<usize> {
        Seq::empty()
    }

    open spec fn arrived_seq(&self) -> Seq<bool> {
        self.status@
    }

    open spec fn wf(&self) -> bool {
        self.status@.len() == self.values@.len() && self.waited_n as nat == count_false(
            self.status@,
        )
    }

    fn get_defs(&self) -> Vec<usize> {
        Vec::new()
    }

    fn get_uses(&self) -> Vec<usize> {
        copy_ids(&self.values)
    }

    fn initialize(&mut self) {
        self.waited_n = self.values.len();
        self.status = falses(self.waited_n);
        proof {
            lemma_count_false_all_false(self.status@);
        }
    }

    fn update(&mut self, new_use: usize) -> (r: Result<bool, StructuralViolation>) {
        let ghost pre = *self;
        let r = mark_arrived(&self.values, &mut self.status, &mut self.waited_n, new_use);
        proof {
            let j = first_pos(pre.uses_seq(), new_use);
            if r is Ok {
                assert(0 <= j < pre.arrived_seq().len());
                assert(self.arrived_seq() == pre.arrived_seq().update(j, true));
            }
        }
        r
    }

    fn ready(&self) -> bool {
        self.waited_n == 0
    }
}

/// A register read: always ready, it produces the register's old value.
#[derive(Debug)]
pub struct LdReg {
    /// The flat values holding the registers' current state.
    pub regs: Vec<usize>,
}

impl LdReg {
    /// A register read defining the given flat values.
    pub fn new(regs: Vec<usize>) -> (r: LdReg)
        ensures
            r.regs@ == regs@,
    {
        LdReg { regs }
    }
}

impl DefUseTopo for LdReg {
    open spec fn uses_seq(&self) -> Seq<usize> {
        Seq::empty()
    }

    open spec fn same_config(&self, other: &Self) -> bool {
        self.regs@ == other.regs@
    }

    open spec fn defs_seq(&self) -> Seq<usize> {
        self.regs@
    }

    open spec fn arrived_seq(&self) -> Seq<bool> {
        Seq::empty()
    }

    open spec fn wf(&self) -> bool {
        true
    }

    fn get_defs(&self) -> Vec<usize> {
        copy_ids(&self.regs)
    }

    fn get_uses(&self) -> Vec<usize> {
        Vec::new()
    }

    fn initialize(&mut self) {
        proof {
            assert(self.arrived_seq() =~= Seq::new(self.uses_seq().len(), |i: int| false));
        }
    }

    fn update(&mut self, new_use: usize) -> Result<bool, StructuralViolation> {
        Err(StructuralViolation::UnknownUse(new_use))
    }

    fn ready(&self) -> bool {
        true
    }
}

/// A register write: ready when its next-state value has arrived; it
/// targets the register slot keyed by the paired output value.
#[derive(Debug)]
pub struct StReg {
    /// The flat values carrying the next state.
    pub values: Vec<usize>,
    /// The paired register output flat values.
    pub regs: Vec<usize>,
    /// Which uses have arrived.
    pub status: Vec<bool>,
    /// How many uses are still pending.
    pub waited_n: usize,
}

impl StReg {
    /// A register write of the given next-state values into the given
    /// register slots, awaiting initialization.
    pub fn new(values: Vec<usize>, regs: Vec<usize>) -> (r: StReg)
        ensures
            r.values@ == values@,
            r.regs@ == regs@,
            r.status@.len() == 0,
            r.waited_n == 0,
    {
        StReg { values, regs, status: Vec::new(), waited_n: 0 }
    }
}

impl DefUseTopo for StReg {
    open spec fn uses_seq(&self) -> Seq<usize> {
        self.values@
    }

    open spec fn same_config(&self, other: &Self) -> bool {
        self.values@ == other.values@ && self.regs@ == other.regs@
    }

    open spec fn defs_seq(&self) -> Seq<usize> {
        Seq::empty()
    }

    open spec fn arrived_seq(&self) -> Seq<bool> {
        self.status@
    }

    open spec fn wf(&self) -> bool {
        self.status@.len() == self.values@.len() && self.waited_n as nat == count_false(
            self.status@,
        )
    }

    fn get_defs(&self) -> Vec<usize> {
        Vec::new()
    }

    fn get_uses(&self) -> Vec<usize> {
        copy_ids(&self.values)
    }

    fn initialize(&mut self) {
        self.waited_n = self.values.len();
        self.status = falses(self.waited_n);
        proof {
            lemma_count_false_all_false(self.status@);
        }
    }

    fn update(&mut self, new_use: usize) -> (r: Result<bool, StructuralViolation>) {
        let ghost pre = *self;
        let r = mark_arrived(&self.values, &mut self.status, &mut self.waited_n, new_use);
        proof {
            let j = first_pos(pre.uses_seq(), new_use);
            if r is Ok {
                assert(0 <= j < pre.arrived_seq().len());
                assert(self.arrived_seq() == pre.arrived_seq().update(j, true));
            }
        }
        r
    }

    fn ready(&self) -> bool {
        self.waited_n == 0
    }
}

/// A generic combinational operation: ready when every operand has arrived
/// exactly once.
#[derive(Debug)]
pub struct Comb {
    /// The operand flat values.
    pub uses: Vec<usize>,
    /// The result flat values.
    pub defs: Vec<usize>,
    /// The source operation, kept for the execution driver.
    pub op: OpEnum,
    /// Which uses have arrived.
    pub status: Vec<bool>,
    /// How many uses are still pending.
    pub waited_n: usize,
}

impl Comb {
    /// A combinational operation over the given flat values, awaiting
    /// initialization.
    pub fn new(uses: Vec<usize>, defs: Vec<usize>, op: OpEnum) -> (r: Comb)
        ensures
            r.uses@ == uses@,
            r.defs@ == defs@,
            r.op == op,
            r.status@.len() == 0,
            r.waited_n == 0,
    {
        Comb { uses, defs, op, status: Vec::new(), waited_n: 0 }
    }
}

impl DefUseTopo for Comb {
    open spec fn uses_seq(&self) -> Seq<usize> {
        self.uses@
    }

    open spec fn same_config(&self, other: &Self) -> bool {
        self.uses@ == other.uses@ && self.defs@ == other.defs@ && self.op == other.op
    }

    open spec fn defs_seq(&self) -> Seq<usize> {
        self.defs@
    }

    open spec fn arrived_seq(&self) -> Seq<bool> {
        self.status@
    }

    open spec fn wf(&self) -> bool {
        self.status@.len() == self.uses@.len() && self.waited_n as nat == count_false(self.status@)
    }

    fn get_defs(&self) -> Vec<usize> {
        copy_ids(&self.defs)
    }

    fn get_uses(&self) -> Vec<usize> {
        copy_ids(&self.uses)
    }

    fn initialize(&mut self) {
        self.waited_n = self.uses.len();
        self.status = falses(self.waited_n);
        proof {
            lemma_count_false_all_false(self.status@);
        }
    }

    fn update(&mut self, new_use: usize) -> (r: Result<bool, StructuralViolation>) {
        let ghost pre = *self;
        let r = mark_arrived(&self.uses, &mut self.status, &mut self.waited_n, new_use);
        proof {
            let j = first_pos(pre.uses_seq(), new_use);
            if r is Ok {
                assert(0 <= j < pre.arrived_seq().len());
                assert(self.arrived_seq() == pre.arrived_seq().update(j, true));
            }
        }
        r
    }

    fn ready(&self) -> bool {
        self.waited_n == 0
    }
}

/// The selector evaluator of a selection: ready when every condition has
/// arrived; it defines a synthetic checked value and records whether the
/// selection declared a default arm and whether it is one-hot.
#[derive(Debug)]
pub struct CondCheck {
    /// The condition flat values.
    pub conds: Vec<usize>,
    /// The synthetic checked flat value this operation defines.
    pub result: usize,
    /// Whether the selection is one-hot.
    pub onehot: bool,
    /// Whether the selection declared a default arm.
    pub has_default: bool,
    /// Which conditions have arrived.
    pub status: Vec<bool>,
    /// How many conditions are still pending.
    pub waited_n: usize,
}

impl CondCheck {
    /// A selector evaluator over the given conditions, awaiting
    /// initialization.
    pub fn new(conds: Vec<usize>, result: usize, onehot: bool, has_default: bool) -> (r: CondCheck)
        ensures
            r.conds@ == conds@,
            r.result == result,
            r.onehot == onehot,
            r.has_default == has_default,
            r.status@.len() == 0,
            r.waited_n == 0,
    {
        CondCheck { conds, result, onehot, has_default, status: Vec::new(), waited_n: 0 }
    }
}

impl DefUseTopo for CondCheck {
    open spec fn uses_seq(&self) -> Seq<usize> {
        self.conds@
    }

    open spec fn same_config(&self, other: &Self) -> bool {
        self.conds@ == other.conds@ && self.result == other.result && self.onehot
            == other.onehot && self.has_default == other.has_default
    }

    open spec fn defs_seq(&self) -> Seq<usize> {
        seq![self.result]
    }

    open spec fn arrived_seq(&self) -> Seq<bool> {
        self.status@
    }

    open spec fn wf(&self) -> bool {
        self.status@.len() == self.conds@.len() && self.waited_n as nat == count_false(self.status@)
    }

    fn get_defs(&self) -> (r: Vec<usize>) {
        let mut out: Vec<usize> = Vec::new();
        out.push(self.result);
        proof {
            assert(out@ =~= seq![self.result]);
        }
        out
    }

    fn get_uses(&self) -> Vec<usize> {
        copy_ids(&self.conds)
    }

    fn initialize(&mut self) {
        self.waited_n = self.conds.len();
        self.status = falses(self.waited_n);
        proof {
            lemma_count_false_all_false(self.status@);
        }
    }

    fn update(&mut self, new_use: usize) -> (r: Result<bool, StructuralViolation>) {
        let ghost pre = *self;
        let r = mark_arrived(&self.conds, &mut self.status, &mut self.waited_n, new_use);
        proof {
            let j = first_pos(pre.uses_seq(), new_use);
            if r is Ok {
                assert(0 <= j < pre.arrived_seq().len());
                assert(self.arrived_seq() == pre.arrived_seq().update(j, true));
            }
        }
        r
    }

    fn ready(&self) -> bool {
        self.waited_n == 0
    }
}

/// A one-hot selection: ready only when its decision value has arrived
/// exactly once and every candidate value has arrived exactly once,
/// whatever the interleaving.
#[derive(Debug)]
pub struct SelectEvent {
    /// The selected result flat value.
    pub result: usize,
    /// The decision flat value, tracked apart from the countdown.
    pub idx: usize,
    /// The candidate flat values, the default last when one exists.
    pub values: Vec<usize>,
    /// Whether the decision value has arrived.
    pub has_idx: bool,
    /// Which candidates have arrived.
    pub status: Vec<bool>,
    /// How many candidates are still pending.
    pub waited_n: usize,
}

impl SelectEvent {
    /// A selection event over the given decision and candidates, awaiting
    /// initialization.
    pub fn new(result: usize, idx: usize, values: Vec<usize>) -> (r: SelectEvent)
        ensures
            r.result == result,
            r.idx == idx,
            r.values@ == values@,
            r.has_idx == false,
            r.status@.len() == 0,
            r.waited_n == 0,
    {
        SelectEvent { result, idx, values, has_idx: false, status: Vec::new(), waited_n: 0 }
    }
}

impl DefUseTopo for SelectEvent {
    open spec fn uses_seq(&self) -> Seq<usize> {
        seq![self.idx] + self.values@
    }

    open spec fn same_config(&self, other: &Self) -> bool {
        self.result == other.result && self.idx == other.idx && self.values@
            == other.values@
    }

    open spec fn defs_seq(&self) -> Seq<usize> {
        seq![self.result]
    }

    open spec fn arrived_seq(&self) -> Seq<bool> {
        seq![self.has_idx] + self.status@
    }

    open spec fn wf(&self) -> bool {
        self.status@.len() == self.values@.len() && self.waited_n as nat == count_false(
            self.status@,
        )
    }

    fn get_defs(&self) -> (r: Vec<usize>) {
        let mut out: Vec<usize> = Vec::new();
        out.push(self.result);
        proof {
            assert(out@ =~= seq![self.result]);
        }
        out
    }

    fn get_uses(&self) -> (r: Vec<usize>) {
        let mut out: Vec<usize> = Vec::new();
        out.push(self.idx);
        let mut i: usize = 0;
        while i < self.values.len()
            invariant
                i <= self.values@.len(),
                out@ == seq![self.idx] + self.values@.subrange(0, i as int),
            decreases self.values@.len() - i,
        {
            out.push(self.values[i]);
            proof {
                assert(out@ =~= seq![self.idx] + self.values@.subrange(0, i + 1));
            }
            i = i + 1;
        }
        proof {
            assert(out@ =~= seq![self.idx] + self.values@);
        }
        out
    }

    fn initialize(&mut self) {
        self.has_idx = false;
        self.waited_n = self.values.len();
        self.status = falses(self.waited_n);
        proof {
            lemma_count_false_all_false(self.status@);
            assert(self.arrived_seq() =~= Seq::new(self.uses_seq().len(), |i: int| false));
        }
    }

    fn update(&mut self, new_use: usize) -> (r: Result<bool, StructuralViolation>) {
        let ghost pre = *self;
        if new_use == self.idx {
            if self.has_idx {
                proof {
                    assert(pre.uses_seq()[0] == new_use);
                    assert(pre.arrived_seq()[0]);
                }
                Err(StructuralViolation::RepeatedUpdate(new_use))
            } else {
                self.has_idx = true;
                let became = self.waited_n == 0;
                proof {
                    assert(pre.uses_seq()[0] == new_use);
                    assert(self.arrived_seq() =~= pre.arrived_seq().update(0, true));
                    lemma_count_false_prepend(true, self.status@);
                }
                Ok(became)
            }
        } else {
            proof {
                assert(pre.uses_seq()[0] != new_use);
                assert(pre.uses_seq().subrange(1, pre.uses_seq().len() as int) =~= pre.values@);
            }
            let r = mark_arrived(&self.values, &mut self.status, &mut self.waited_n, new_use);
            match r {
                Ok(_) => {
                    let became = self.waited_n == 0 && self.has_idx;
                    proof {
                        let j = first_pos(pre.values@, new_use);
                        assert(first_pos(pre.uses_seq(), new_use) == j + 1);
                        assert(self.arrived_seq() =~= pre.arrived_seq().update(j + 1, true));
                        lemma_count_false_prepend(self.has_idx, self.status@);
                    }
                    Ok(became)
                },
                Err(v) => {
                    proof {
                        let j = first_pos(pre.values@, new_use);
                        lemma_first_pos(pre.values@, new_use);
                        if j >= 0 {
                            assert(first_pos(pre.uses_seq(), new_use) == j + 1);
                            assert(pre.arrived_seq()[j + 1] == pre.status@[j]);
                        }
                    }
                    Err(v)
                },
            }
        }
    }

    fn ready(&self) -> (r: bool) {
        let r = self.waited_n == 0 && self.has_idx;
        proof {
            lemma_count_false_prepend(self.has_idx, self.status@);
        }
        r
    }
}

/// Any readiness-tracked operation of a flattened program.
#[derive(Debug)]
pub enum Event {
    /// A top-level input port.
    ListenChannel(ListenChannel),
    /// A top-level output port.
    WriteChannel(WriteChannel),
    /// A register read.
    LdReg(LdReg),
    /// A register write.
    StReg(StReg),
    /// A generic combinational operation.
    Comb(Comb),
    /// A selector evaluator.
    CondCheck(CondCheck),
    /// A one-hot selection.
    Select(SelectEvent),
}

impl Event {
    /// The declared uses of the wrapped operation.
    pub open spec fn uses_seq(&self) -> Seq<usize> {
        match self {
            Event::ListenChannel(e) => e.uses_seq(),
            Event::WriteChannel(e) => e.uses_seq(),
            Event::LdReg(e) => e.uses_seq(),
            Event::StReg(e) => e.uses_seq(),
            Event::Comb(e) => e.uses_seq(),
            Event::CondCheck(e) => e.uses_seq(),
            Event::Select(e) => e.uses_seq(),
        }
    }

    /// The declared defs of the wrapped operation.
    pub open spec fn defs_seq(&self) -> Seq<usize> {
        match self {
            Event::ListenChannel(e) => e.defs_seq(),
            Event::WriteChannel(e) => e.defs_seq(),
            Event::LdReg(e) => e.defs_seq(),
            Event::StReg(e) => e.defs_seq(),
            Event::Comb(e) => e.defs_seq(),
            Event::CondCheck(e) => e.defs_seq(),
            Event::Select(e) => e.defs_seq(),
        }
    }

    /// The arrival record of the wrapped operation.
    pub open spec fn arrived_seq(&self) -> Seq<bool> {
        match self {
            Event::ListenChannel(e) => e.arrived_seq(),
            Event::WriteChannel(e) => e.arrived_seq(),
            Event::LdReg(e) => e.arrived_seq(),
            Event::StReg(e) => e.arrived_seq(),
            Event::Comb(e) => e.arrived_seq(),
            Event::CondCheck(e) => e.arrived_seq(),
            Event::Select(e) => e.arrived_seq(),
        }
    }

    /// The two events agree on everything but the arrival tracking.
    pub open spec fn same_config(&self, other: &Event) -> bool {
        match (self, other) {
            (Event::ListenChannel(a), Event::ListenChannel(b)) => a.same_config(b),
            (Event::WriteChannel(a), Event::WriteChannel(b)) => a.same_config(b),
            (Event::LdReg(a), Event::LdReg(b)) => a.same_config(b),
            (Event::StReg(a), Event::StReg(b)) => a.same_config(b),
            (Event::Comb(a), Event::Comb(b)) => a.same_config(b),
            (Event::CondCheck(a), Event::CondCheck(b)) => a.same_config(b),
            (Event::Select(a), Event::Select(b)) => a.same_config(b),
            _ => false,
        }
    }

    /// Whether the wrapped operation has been initialized.
    pub open spec fn wf(&self) -> bool {
        match self {
            Event::ListenChannel(e) => e.wf(),
            Event::WriteChannel(e) => e.wf(),
            Event::LdReg(e) => e.wf(),
            Event::StReg(e) => e.wf(),
            Event::Comb(e) => e.wf(),
            Event::CondCheck(e) => e.wf(),
            Event::Select(e) => e.wf(),
        }
    }

    /// The defined flat values.
    pub fn get_defs(&self) -> (r: Vec<usize>)
        ensures
            r@ == self.defs_seq(),
    {
        match self {
            Event::ListenChannel(e) => e.get_defs(),
            Event::WriteChannel(e) => e.get_defs(),
            Event::LdReg(e) => e.get_defs(),
            Event::StReg(e) => e.get_defs(),
            Event::Comb(e) => e.get_defs(),
            Event::CondCheck(e) => e.get_defs(),
            Event::Select(e) => e.get_defs(),
        }
    }

    /// The used flat values.
    pub fn get_uses(&self) -> (r: Vec<usize>)
        ensures
            r@ == self.uses_seq(),
    {
        match self {
            Event::ListenChannel(e) => e.get_uses(),
            Event::WriteChannel(e) => e.get_uses(),
            Event::LdReg(e) => e.get_uses(),
            Event::StReg(e) => e.get_uses(),
            Event::Comb(e) => e.get_uses(),
            Event::CondCheck(e) => e.get_uses(),
            Event::Select(e) => e.get_uses(),
        }
    }

    /// Size the arrival record to the use list, with every use pending.
    pub fn initialize(&mut self)
        ensures
            final(self).wf(),
            final(self).same_config(old(self)),
            final(self).uses_seq() == old(self).uses_seq(),
            final(self).defs_seq() == old(self).defs_seq(),
            final(self).arrived_seq() == Seq::new(old(self).uses_seq().len(), |i: int| false),
    {
        match self {
            Event::ListenChannel(e) => e.initialize(),
            Event::WriteChannel(e) => e.initialize(),
            Event::LdReg(e) => e.initialize(),
            Event::StReg(e) => e.initialize(),
            Event::Comb(e) => e.initialize(),
            Event::CondCheck(e) => e.initialize(),
            Event::Select(e) => e.initialize(),
        }
    }

    /// Record the arrival of a used flat value, as the wrapped kind does.
    pub fn update(&mut self, new_use: usize) -> (r: Result<bool, StructuralViolation>)
        requires
            old(self).wf(),
        ensures
            final(self).wf(),
            final(self).same_config(old(self)),
            final(self).uses_seq() == old(self).uses_seq(),
            final(self).defs_seq() == old(self).defs_seq(),
            match r {
                Ok(became_ready) => ({
                    let j = first_pos(old(self).uses_seq(), new_use);
                    &&& 0 <= j < old(self).arrived_seq().len()
                    &&& !old(self).arrived_seq()[j]
                    &&& final(self).arrived_seq() == old(self).arrived_seq().update(j, true)
                    &&& became_ready == (count_false(final(self).arrived_seq()) == 0)
                }),
                Err(v) => ({
                    let j = first_pos(old(self).uses_seq(), new_use);
                    &&& *final(self) == *old(self)
                    &&& (j < 0 ==> v == StructuralViolation::UnknownUse(new_use))
                    &&& (j >= 0 ==> old(self).arrived_seq()[j] && v
                        == StructuralViolation::RepeatedUpdate(new_use))
                }),
            },
    {
        match self {
            Event::ListenChannel(e) => e.update(new_use),
            Event::WriteChannel(e) => e.update(new_use),
            Event::LdReg(e) => e.update(new_use),
            Event::StReg(e) => e.update(new_use),
            Event::Comb(e) => e.update(new_use),
            Event::CondCheck(e) => e.update(new_use),
            Event::Select(e) => e.update(new_use),
        }
    }

    /// Whether every wait of the wrapped operation is satisfied.
    pub fn ready(&self) -> (r: bool)
        requires
            self.wf(),
        ensures
            r == (count_false(self.arrived_seq()) == 0),
    {
        match self {
            Event::ListenChannel(e) => e.ready(),
            Event::WriteChannel(e) => e.ready(),
            Event::LdReg(e) => e.ready(),
            Event::StReg(e) => e.ready(),
            Event::Comb(e) => e.ready(),
            Event::CondCheck(e) => e.ready(),
            Event::Select(e) => e.ready(),
        }
    }
}

/// Order-independent readiness: an initialized operation is ready exactly
/// when every position of its arrival record has arrived. Which order the
/// arrivals came in leaves no trace in the record, so readiness depends
/// only on the set of uses that have arrived. Note that an arrival always
/// marks the first occurrence of its value: an operation whose use list
/// repeats a value can never complete its record, since the repeated
/// position is unreachable.
pub proof fn lemma_order_independent_readiness<T: DefUseTopo>(op: &T)
    ensures
        (count_false(op.arrived_seq()) == 0) <==> (forall|i: int|
            0 <= i < op.arrived_seq().len() ==> op.arrived_seq()[i]),
{
    lemma_count_false_zero(op.arrived_seq());
}

/// Readiness sizing: right after initialization the arrival record is all
/// pending, so the remaining count equals the declared use count — zero for
/// the kinds that declare no uses.
pub proof fn lemma_readiness_sizing(arrived: Seq<bool>, n: nat)
    requires
        arrived == Seq::new(n, |i: int| false),
    ensures
        count_false(arrived) == n,
{
    lemma_count_false_all_false(arrived);
}

/// Once ready, an operation takes no further arrival: on a fully arrived
/// record every update fails, so an operation becomes ready exactly once.
pub proof fn lemma_ready_is_final(uses: Seq<usize>, arrived: Seq<bool>, x: usize)
    requires
        arrived.len() == uses.len(),
        count_false(arrived) == 0,
    ensures
        first_pos(uses, x) >= 0 ==> arrived[first_pos(uses, x)],
{
    lemma_count_false_zero(arrived);
    lemma_first_pos(uses, x);
}

/// Two-part readiness of a selection: it is ready exactly when the decision
/// value has arrived and every candidate has arrived, independent of the
/// order in which they came.
pub proof fn lemma_select_two_part_readiness(s: &SelectEvent)
    requires
        s.wf(),
    ensures
        (count_false(s.arrived_seq()) == 0) <==> (s.has_idx && (forall|i: int|
            0 <= i < s.status@.len() ==> s.status@[i])),
{
    lemma_count_false_prepend(s.has_idx, s.status@);
    lemma_count_false_zero(s.status@);
}

} // verus!
