use std::collections::BTreeMap;
use vstd::prelude::*;

use crate::instruction::{Instruction, InstructionType};
use crate::maps::keys_of;
use crate::opcodes::Op;
use crate::state::{simplify_spec, State, StateChange, UnknownReason};

verus! {

broadcast use {vstd::std_specs::btree::group_btree_axioms, vstd::laws_cmp::group_laws_cmp};

/// Whether two sequences of addresses are equal, element by element.
pub fn same_trace(a: &Vec<usize>, b: &Vec<usize>) -> (r: bool)
    ensures
        r == (a@ == b@),
{
    if a.len() != b.len() {
        return false;
    }
    let mut i: usize = 0;
    while i < a.len()
        invariant
            a@.len() == b@.len(),
            i <= a@.len(),
            forall|j: int| 0 <= j < i ==> a@[j] == b@[j],
        decreases a.len() - i,
    {
        if a[i] != b[i] {
            return false;
        }
        i += 1;
    }
    assert(a@ =~= b@);
    true
}

/// Structure representing a subroutine.
#[derive(Debug)]
pub struct Subroutine {
    pub pc: usize,
    pub label: String,
    pub instructions: BTreeMap<usize, Instruction>,
    pub state_changes: BTreeMap<usize, StateChange>,
    pub unknown_state_changes: BTreeMap<usize, StateChange>,
    pub stack_traces: Vec<Vec<usize>>,
    pub contains_indirect_jumps: bool,
    pub contains_assertions: bool,
}

/// Whether an instruction ends the incipit of a subroutine.
pub open spec fn ends_incipit(i: Instruction) -> bool {
    i.type_spec() == InstructionType::SepRep || i.is_control_spec()
}

impl Subroutine {
    /// Known changes are known, unknown ones unknown; each instruction is filed
    /// under its own address; no stack trace is recorded twice.
    pub open spec fn wf(self) -> bool {
        &&& forall|pc: usize| #[trigger]
            self.state_changes@.contains_key(pc) ==> self.state_changes@[pc].unknown_reason
                == UnknownReason::Known
        &&& forall|pc: usize| #[trigger]
            self.unknown_state_changes@.contains_key(pc)
                ==> self.unknown_state_changes@[pc].unknown_reason != UnknownReason::Known
        &&& forall|pc: usize| #[trigger]
            self.instructions@.contains_key(pc) ==> self.instructions@[pc].pc == pc
        &&& forall|i: int, j: int|
            0 <= i < j < self.stack_traces@.len() ==> #[trigger] self.stack_traces@[i]@
                != #[trigger] self.stack_traces@[j]@
    }

    /// The recorded stack traces, as a set of address sequences.
    pub open spec fn traces(self) -> Set<Seq<usize>> {
        Set::new(
            |t: Seq<usize>|
                exists|i: int| 0 <= i < self.stack_traces@.len() && #[trigger] self.stack_traces@[i]@ == t,
        )
    }

    /// Whether some unknown change carries the given reason.
    pub open spec fn unknown_because_of(self, reason: UnknownReason) -> bool {
        exists|pc: usize| #[trigger]
            self.unknown_state_changes@.contains_key(pc)
                && self.unknown_state_changes@[pc].unknown_reason == reason
    }

    /// Whether the subroutine has an unknown state change.
    pub open spec fn has_unknown(self) -> bool {
        exists|pc: usize| #[trigger] self.unknown_state_changes@.contains_key(pc)
    }

    /// The known changes, each simplified against `state`.
    pub open spec fn simplified_set(self, state: State) -> Set<StateChange> {
        Set::new(
            |c: StateChange|
                exists|pc: usize| #[trigger]
                    self.state_changes@.contains_key(pc) && simplify_spec(
                        self.state_changes@[pc],
                        state,
                    ) == c,
        )
    }

    /// Whether some known change sets M to `b`.
    pub open spec fn sets_m(self, b: bool) -> bool {
        exists|pc: usize| #[trigger]
            self.state_changes@.contains_key(pc) && self.state_changes@[pc].m == Some(b)
    }

    /// Whether some known change sets X to `b`.
    pub open spec fn sets_x(self, b: bool) -> bool {
        exists|pc: usize| #[trigger]
            self.state_changes@.contains_key(pc) && self.state_changes@[pc].x == Some(b)
    }

    /// Whether two unknown changes carry different reasons.
    pub open spec fn mixed_reasons(self) -> bool {
        exists|p: usize, q: usize| #[trigger]
            self.unknown_state_changes@.contains_key(p) && #[trigger]
            self.unknown_state_changes@.contains_key(q)
                && self.unknown_state_changes@[p].unknown_reason
                != self.unknown_state_changes@[q].unknown_reason
    }

    /// The merge of all known return changes, when it has no contradiction.
    pub open spec fn combined_spec(self) -> Option<StateChange> {
        if self.state_changes@.dom().len() == 0 || self.mixed_reasons() || (self.sets_m(true)
            && self.sets_m(false)) || (self.sets_x(true) && self.sets_x(false)) {
            None
        } else {
            Some(
                StateChange {
                    m: if self.sets_m(true) {
                        Some(true)
                    } else if self.sets_m(false) {
                        Some(false)
                    } else {
                        None
                    },
                    x: if self.sets_x(true) {
                        Some(true)
                    } else if self.sets_x(false) {
                        Some(false)
                    } else {
                        None
                    },
                    unknown_reason: UnknownReason::Known,
                },
            )
        }
    }

    /// Whether the first instruction that is a PHP, a SEP/REP or a control
    /// instruction is a PHP.
    pub open spec fn saves_state_spec(self) -> bool {
        exists|pc: usize| #[trigger]
            self.instructions@.contains_key(pc) && self.instructions@[pc].op_spec() == Op::PHP && (
            forall|q: usize| #[trigger]
                self.instructions@.contains_key(q) && q < pc ==> !ends_incipit(
                    self.instructions@[q],
                ) && self.instructions@[q].op_spec() != Op::PHP)
    }

    /// Instantiate a new subroutine.
    pub fn new(pc: usize, label: String) -> (r: Self)
        ensures
            r.wf(),
            r.pc == pc,
            r.label@ == label@,
            r.instructions@ == Map::<usize, Instruction>::empty(),
            r.state_changes@ == Map::<usize, StateChange>::empty(),
            r.unknown_state_changes@ == Map::<usize, StateChange>::empty(),
            r.stack_traces@.len() == 0,
            !r.contains_indirect_jumps,
            !r.contains_assertions,
    {
        Self {
            pc,
            label,
            instructions: BTreeMap::new(),
            state_changes: BTreeMap::new(),
            unknown_state_changes: BTreeMap::new(),
            stack_traces: Vec::new(),
            contains_indirect_jumps: false,
            contains_assertions: false,
        }
    }

    /// Return the subroutine's entry address.
    pub fn pc(&self) -> (r: usize)
        ensures
            r == self.pc,
    {
        self.pc
    }

    /// Return the subroutine's label.
    pub fn label(&self) -> (r: &String)
        ensures
            r@ == self.label@,
    {
        &self.label
    }

    /// Set the subroutine's label.
    pub fn set_label(&mut self, label: String)
        ensures
            final(self).label@ == label@,
            final(self).pc == old(self).pc,
            final(self).instructions@ == old(self).instructions@,
            final(self).state_changes@ == old(self).state_changes@,
            final(self).unknown_state_changes@ == old(self).unknown_state_changes@,
            final(self).stack_traces@ == old(self).stack_traces@,
            final(self).contains_assertions == old(self).contains_assertions,
            final(self).contains_indirect_jumps == old(self).contains_indirect_jumps,
    {
        self.label = label;
    }

    /// Return the subroutine's instructions, by address.
    pub fn instructions(&self) -> (r: &BTreeMap<usize, Instruction>)
        ensures
            r@ == self.instructions@,
    {
        &self.instructions
    }

    /// Return the known return state changes, by address of the return.
    pub fn state_changes(&self) -> (r: &BTreeMap<usize, StateChange>)
        ensures
            r@ == self.state_changes@,
    {
        &self.state_changes
    }

    /// Return the unknown state changes, by address of the instruction at fault.
    pub fn unknown_state_changes(&self) -> (r: &BTreeMap<usize, StateChange>)
        ensures
            r@ == self.unknown_state_changes@,
    {
        &self.unknown_state_changes
    }

    /// Return the recorded stack traces.
    pub fn stack_traces(&self) -> (r: &Vec<Vec<usize>>)
        ensures
            r@ == self.stack_traces@,
    {
        &self.stack_traces
    }

    /// Return whether the subroutine contains indirect jumps.
    pub fn contains_indirect_jumps(&self) -> (r: bool)
        ensures
            r == self.contains_indirect_jumps,
    {
        self.contains_indirect_jumps
    }

    /// Return whether the subroutine contains assertions.
    pub fn contains_assertions(&self) -> (r: bool)
        ensures
            r == self.contains_assertions,
    {
        self.contains_assertions
    }

    /// Add an instruction to the subroutine.
    pub fn add_instruction(&mut self, instruction: Instruction)
        requires
            old(self).wf(),
        ensures
            final(self).wf(),
            final(self).instructions@ == old(self).instructions@.insert(
                instruction.pc,
                instruction,
            ),
            final(self).pc == old(self).pc,
            final(self).label@ == old(self).label@,
            final(self).state_changes@ == old(self).state_changes@,
            final(self).unknown_state_changes@ == old(self).unknown_state_changes@,
            final(self).stack_traces@ == old(self).stack_traces@,
            final(self).contains_assertions == old(self).contains_assertions,
            final(self).contains_indirect_jumps == old(self).contains_indirect_jumps,
    {
        self.instructions.insert(instruction.pc, instruction);
    }

    /// Add a state change to the subroutine, filed as known or unknown.
    pub fn add_state_change(&mut self, pc: usize, state_change: StateChange)
        requires
            old(self).wf(),
        ensures
            final(self).wf(),
            state_change.unknown_reason == UnknownReason::Known ==> final(self).state_changes@
                == old(self).state_changes@.insert(pc, state_change) && final(self).unknown_state_changes@ == old(self).unknown_state_changes@,
            state_change.unknown_reason != UnknownReason::Known ==> final(self).unknown_state_changes@ == old(self).unknown_state_changes@.insert(pc, state_change)
                && final(self).state_changes@ == old(self).state_changes@,
            final(self).pc == old(self).pc,
            final(self).label@ == old(self).label@,
            final(self).instructions@ == old(self).instructions@,
            final(self).stack_traces@ == old(self).stack_traces@,
            final(self).contains_assertions == old(self).contains_assertions,
            final(self).contains_indirect_jumps == old(self).contains_indirect_jumps,
    {
        if state_change.unknown() {
            self.unknown_state_changes.insert(pc, state_change);
        } else {
            self.state_changes.insert(pc, state_change);
        }
    }

    /// Add a stack trace to the subroutine (a trace already recorded is kept once).
    pub fn add_stack_trace(&mut self, stack_trace: Vec<usize>)
        requires
            old(self).wf(),
        ensures
            final(self).wf(),
            final(self).traces() == old(self).traces().insert(stack_trace@),
            final(self).pc == old(self).pc,
            final(self).label@ == old(self).label@,
            final(self).instructions@ == old(self).instructions@,
            final(self).state_changes@ == old(self).state_changes@,
            final(self).unknown_state_changes@ == old(self).unknown_state_changes@,
            final(self).contains_assertions == old(self).contains_assertions,
            final(self).contains_indirect_jumps == old(self).contains_indirect_jumps,
    {
        let mut i: usize = 0;
        while i < self.stack_traces.len()
            invariant
                *self == *old(self),
                old(self).wf(),
                i <= self.stack_traces@.len(),
                forall|j: int| 0 <= j < i ==> #[trigger] self.stack_traces@[j]@ != stack_trace@,
            decreases self.stack_traces.len() - i,
        {
            if same_trace(&self.stack_traces[i], &stack_trace) {
                assert(old(self).traces().contains(stack_trace@));
                assert(self.traces() =~= old(self).traces().insert(stack_trace@));
                return;
            }
            i += 1;
        }
        self.stack_traces.push(stack_trace);
        proof {
            let n = old(self).stack_traces@.len();
            assert(self.stack_traces@[n as int]@ == stack_trace@);
            assert forall|t: Seq<usize>| #[trigger]
                self.traces().contains(t) == old(self).traces().insert(stack_trace@).contains(
                    t,
                ) by {
                if old(self).traces().contains(t) {
                    let k = choose|k: int|
                        0 <= k < old(self).stack_traces@.len() && #[trigger] old(self).stack_traces@[k]@ == t;
                    assert(self.stack_traces@[k]@ == t);
                }
                if self.traces().contains(t) && t != stack_trace@ {
                    let k = choose|k: int|
                        0 <= k < self.stack_traces@.len() && #[trigger] self.stack_traces@[k]@
                            == t;
                    assert(old(self).stack_traces@[k]@ == t);
                }
            }
            assert(self.traces() =~= old(self).traces().insert(stack_trace@));
        }
    }

    /// Set whether the subroutine contains indirect jumps.
    pub fn set_contains_indirect_jumps(&mut self, value: bool)
        ensures
            final(self).contains_indirect_jumps == value,
            final(self).contains_assertions == old(self).contains_assertions,
            final(self).pc == old(self).pc,
            final(self).label@ == old(self).label@,
            final(self).instructions@ == old(self).instructions@,
            final(self).state_changes@ == old(self).state_changes@,
            final(self).unknown_state_changes@ == old(self).unknown_state_changes@,
            final(self).stack_traces@ == old(self).stack_traces@,
    {
        self.contains_indirect_jumps = value;
    }

    /// Set whether the subroutine contains assertions.
    pub fn set_contains_assertions(&mut self, value: bool)
        ensures
            final(self).contains_assertions == value,
            final(self).contains_indirect_jumps == old(self).contains_indirect_jumps,
            final(self).pc == old(self).pc,
            final(self).label@ == old(self).label@,
            final(self).instructions@ == old(self).instructions@,
            final(self).state_changes@ == old(self).state_changes@,
            final(self).unknown_state_changes@ == old(self).unknown_state_changes@,
            final(self).stack_traces@ == old(self).stack_traces@,
    {
        self.contains_assertions = value;
    }

    /// Return true if the subroutine has an unknown state change, false otherwise.
    pub fn has_unknown_state_change(&self) -> (r: bool)
        ensures
            r == self.has_unknown(),
    {
        let keys = keys_of(&self.unknown_state_changes);
        if keys.len() > 0 {
            assert(keys@.to_set().contains(keys@[0]));
            true
        } else {
            assert forall|pc: usize| !#[trigger] self.unknown_state_changes@.contains_key(pc) by {
                if self.unknown_state_changes@.contains_key(pc) {
                    assert(keys@.to_set().contains(pc));
                }
            }
            false
        }
    }

    /// Return true if the subroutine is unknown because of `reason`, false otherwise.
    pub fn is_unknown_because_of(&self, reason: UnknownReason) -> (r: bool)
        ensures
            r == self.unknown_because_of(reason),
    {
        let keys = keys_of(&self.unknown_state_changes);
        let mut i: usize = 0;
        while i < keys.len()
            invariant
                i <= keys@.len(),
                keys@.to_set() == self.unknown_state_changes@.dom(),
                forall|j: int|
                    0 <= j < i ==> self.unknown_state_changes@[#[trigger] keys@[j]].unknown_reason
                        != reason,
            decreases keys.len() - i,
        {
            let k = keys[i];
            assert(keys@.to_set().contains(k));
            let c = *self.unknown_state_changes.get(&k).unwrap();
            if c.unknown_reason == reason {
                return true;
            }
            i += 1;
        }
        assert forall|pc: usize| #[trigger]
            self.unknown_state_changes@.contains_key(pc) implies self.unknown_state_changes@[pc].unknown_reason
            != reason by {
            assert(keys@.to_set().contains(pc));
            let j = choose|j: int| 0 <= j < keys@.len() && keys@[j] == pc;
            assert(self.unknown_state_changes@[keys@[j]].unknown_reason != reason);
        }
        false
    }

    /// Return the known state changes simplified against the given state,
    /// without duplicates.
    pub fn simplified_state_changes(&self, state: State) -> (r: Vec<StateChange>)
        ensures
            r@.to_set() == self.simplified_set(state),
            r@.no_duplicates(),
    {
        let keys = keys_of(&self.state_changes);
        let mut out: Vec<StateChange> = Vec::new();
        let mut i: usize = 0;
        while i < keys.len()
            invariant
                i <= keys@.len(),
                keys@.to_set() == self.state_changes@.dom(),
                out@.no_duplicates(),
                forall|c: StateChange|
                    out@.contains(c) <==> exists|j: int|
                        0 <= j < i && simplify_spec(
                            self.state_changes@[#[trigger] keys@[j]],
                            state,
                        ) == c,
            decreases keys.len() - i,
        {
            let k = keys[i];
            assert(keys@.to_set().contains(k));
            let c = self.state_changes.get(&k).unwrap().simplify(state);
            let mut found = false;
            let mut j: usize = 0;
            while j < out.len()
                invariant
                    j <= out@.len(),
                    found == exists|t: int| 0 <= t < j && out@[t] == c,
                decreases out.len() - j,
            {
                if out[j] == c {
                    found = true;
                }
                j += 1;
            }
            let ghost before = out@;
            if !found {
                out.push(c);
                proof {
                    assert forall|a: int, b: int|
                        0 <= a < out@.len() && 0 <= b < out@.len() && a != b implies out@[a]
                        != out@[b] by {
                        if a < before.len() && b < before.len() {
                        } else if a == before.len() {
                            assert(!before.contains(c));
                        } else {
                            assert(!before.contains(c));
                        }
                    }
                }
            }
            proof {
                assert forall|x: StateChange| out@.contains(x) <==> exists|j: int|
                    0 <= j < i + 1 && simplify_spec(
                        self.state_changes@[#[trigger] keys@[j]],
                        state,
                    ) == x by {
                    if x == c {
                        assert(simplify_spec(self.state_changes@[keys@[i as int]], state) == x);
                        if found {
                            let t = choose|t: int| 0 <= t < out@.len() && out@[t] == c;
                            assert(out@.contains(c));
                        } else {
                            assert(out@[out@.len() - 1] == c);
                        }
                    }
                    if out@.contains(x) && x != c {
                        assert(before.contains(x));
                    }
                    if !found && before.contains(x) {
                        let t = choose|t: int| 0 <= t < before.len() && before[t] == x;
                        assert(out@[t] == x);
                    }
                }
            }
            i += 1;
        }
        proof {
            assert forall|c: StateChange| out@.to_set().contains(c) == self.simplified_set(
                state,
            ).contains(c) by {
                if self.simplified_set(state).contains(c) {
                    let pc = choose|pc: usize| #[trigger]
                        self.state_changes@.contains_key(pc) && simplify_spec(
                            self.state_changes@[pc],
                            state,
                        ) == c;
                    assert(keys@.to_set().contains(pc));
                    let j = choose|j: int| 0 <= j < keys@.len() && keys@[j] == pc;
                    assert(simplify_spec(self.state_changes@[keys@[j]], state) == c);
                }
                if out@.contains(c) {
                    let j = choose|j: int|
                        0 <= j < keys@.len() && simplify_spec(
                            self.state_changes@[#[trigger] keys@[j]],
                            state,
                        ) == c;
                    assert(keys@.to_set().contains(keys@[j]));
                }
            }
            assert(out@.to_set() =~= self.simplified_set(state));
        }
        out
    }

    /// Return a state change formed by combining all the known return changes,
    /// if it is possible to do so without any contradictions.
    pub fn combined_state_change(&self) -> (r: Option<StateChange>)
        ensures
            r == self.combined_spec(),
    {
        let keys = keys_of(&self.state_changes);
        if keys.len() == 0 {
            return None;
        }
        if self.has_mixed_reasons() {
            return None;
        }
        let mut m_true = false;
        let mut m_false = false;
        let mut x_true = false;
        let mut x_false = false;
        let mut i: usize = 0;
        while i < keys.len()
            invariant
                i <= keys@.len(),
                keys@.to_set() == self.state_changes@.dom(),
                m_true == exists|j: int|
                    0 <= j < i && self.state_changes@[#[trigger] keys@[j]].m == Some(true),
                m_false == exists|j: int|
                    0 <= j < i && self.state_changes@[#[trigger] keys@[j]].m == Some(false),
                x_true == exists|j: int|
                    0 <= j < i && self.state_changes@[#[trigger] keys@[j]].x == Some(true),
                x_false == exists|j: int|
                    0 <= j < i && self.state_changes@[#[trigger] keys@[j]].x == Some(false),
            decreases keys.len() - i,
        {
            let k = keys[i];
            assert(keys@.to_set().contains(k));
            let c = *self.state_changes.get(&k).unwrap();
            match c.m {
                Some(true) => m_true = true,
                Some(false) => m_false = true,
                None => {},
            }
            match c.x {
                Some(true) => x_true = true,
                Some(false) => x_false = true,
                None => {},
            }
            i += 1;
        }
        proof {
            self.lemma_sets_from_keys(keys@);
        }
        if (m_true && m_false) || (x_true && x_false) {
            return None;
        }
        let m = if m_true {
            Some(true)
        } else if m_false {
            Some(false)
        } else {
            None
        };
        let x = if x_true {
            Some(true)
        } else if x_false {
            Some(false)
        } else {
            None
        };
        Some(StateChange::new(m, x))
    }

    /// The flags `sets_m`/`sets_x` read over a sequence holding exactly the keys.
    proof fn lemma_sets_from_keys(self, keys: Seq<usize>)
        requires
            keys.to_set() == self.state_changes@.dom(),
        ensures
            forall|b: bool|
                #![trigger self.sets_m(b)]
                self.sets_m(b) <==> exists|j: int|
                    0 <= j < keys.len() && self.state_changes@[#[trigger] keys[j]].m == Some(b),
            forall|b: bool|
                #![trigger self.sets_x(b)]
                self.sets_x(b) <==> exists|j: int|
                    0 <= j < keys.len() && self.state_changes@[#[trigger] keys[j]].x == Some(b),
    {
        assert forall|b: bool| self.sets_m(b) <==> exists|j: int|
            0 <= j < keys.len() && self.state_changes@[#[trigger] keys[j]].m == Some(b) by {
            if self.sets_m(b) {
                let pc = choose|pc: usize| #[trigger]
                    self.state_changes@.contains_key(pc) && self.state_changes@[pc].m == Some(b);
                assert(keys.to_set().contains(pc));
                let j = choose|j: int| 0 <= j < keys.len() && keys[j] == pc;
                assert(self.state_changes@[keys[j]].m == Some(b));
            }
            if exists|j: int| 0 <= j < keys.len() && self.state_changes@[#[trigger] keys[j]].m == Some(b) {
                let j = choose|j: int| 0 <= j < keys.len() && self.state_changes@[#[trigger] keys[j]].m == Some(b);
                assert(keys.to_set().contains(keys[j]));
            }
        }
        assert forall|b: bool| self.sets_x(b) <==> exists|j: int|
            0 <= j < keys.len() && self.state_changes@[#[trigger] keys[j]].x == Some(b) by {
            if self.sets_x(b) {
                let pc = choose|pc: usize| #[trigger]
                    self.state_changes@.contains_key(pc) && self.state_changes@[pc].x == Some(b);
                assert(keys.to_set().contains(pc));
                let j = choose|j: int| 0 <= j < keys.len() && keys[j] == pc;
                assert(self.state_changes@[keys[j]].x == Some(b));
            }
            if exists|j: int| 0 <= j < keys.len() && self.state_changes@[#[trigger] keys[j]].x == Some(b) {
                let j = choose|j: int| 0 <= j < keys.len() && self.state_changes@[#[trigger] keys[j]].x == Some(b);
                assert(keys.to_set().contains(keys[j]));
            }
        }
    }

    /// Whether two unknown changes carry different reasons.
    fn has_mixed_reasons(&self) -> (r: bool)
        ensures
            r == self.mixed_reasons(),
    {
        let keys = keys_of(&self.unknown_state_changes);
        if keys.len() == 0 {
            assert forall|p: usize| !#[trigger] self.unknown_state_changes@.contains_key(p) by {
                if self.unknown_state_changes@.contains_key(p) {
                    assert(keys@.to_set().contains(p));
                }
            }
            return false;
        }
        let k0 = keys[0];
        assert(keys@.to_set().contains(k0));
        let first = self.unknown_state_changes.get(&k0).unwrap().unknown_reason;
        let mut i: usize = 1;
        while i < keys.len()
            invariant
                1 <= i <= keys@.len(),
                k0 == keys@[0],
                keys@.to_set() == self.unknown_state_changes@.dom(),
                self.unknown_state_changes@.contains_key(k0),
                first == self.unknown_state_changes@[k0].unknown_reason,
                forall|j: int|
                    0 <= j < i ==> self.unknown_state_changes@[#[trigger] keys@[j]].unknown_reason
                        == first,
            decreases keys.len() - i,
        {
            let k = keys[i];
            assert(keys@.to_set().contains(k));
            let c = self.unknown_state_changes.get(&k).unwrap().unknown_reason;
            if c != first {
                assert(self.unknown_state_changes@.contains_key(k));
                return true;
            }
            i += 1;
        }
        assert forall|p: usize| #[trigger]
            self.unknown_state_changes@.contains_key(p) implies self.unknown_state_changes@[p].unknown_reason
            == first by {
            assert(keys@.to_set().contains(p));
            let j = choose|j: int| 0 <= j < keys@.len() && keys@[j] == p;
            assert(self.unknown_state_changes@[keys@[j]].unknown_reason == first);
        }
        false
    }

    /// Return true if the subroutine saves the processor state at the
    /// beginning: a PHP comes before any SEP/REP or control instruction.
    pub fn saves_state_in_incipit(&self) -> (r: bool)
        requires
            self.wf(),
        ensures
            r == self.saves_state_spec(),
    {
        let keys = keys_of(&self.instructions);
        let mut i: usize = 0;
        while i < keys.len()
            invariant
                i <= keys@.len(),
                keys@.to_set() == self.instructions@.dom(),
                forall|a: int, b: int| 0 <= a < b < keys@.len() ==> keys@[a] < keys@[b],
                forall|j: int|
                    0 <= j < i ==> !ends_incipit(self.instructions@[#[trigger] keys@[j]])
                        && self.instructions@[keys@[j]].op_spec() != Op::PHP,
            decreases keys.len() - i,
        {
            let k = keys[i];
            assert(keys@.to_set().contains(k));
            let instr = self.instructions.get(&k).unwrap();
            if instr.operation() == Op::PHP {
                proof {
                    assert forall|q: usize| #[trigger]
                        self.instructions@.contains_key(q) && q < k implies !ends_incipit(
                            self.instructions@[q],
                        ) && self.instructions@[q].op_spec() != Op::PHP by {
                        assert(keys@.to_set().contains(q));
                        let j = choose|j: int| 0 <= j < keys@.len() && keys@[j] == q;
                        if j >= i {
                            assert(keys@[i as int] <= keys@[j]);
                        }
                    }
                }
                return true;
            } else if instr.is_sep_rep() || instr.is_control() {
                proof {
                    assert forall|pc: usize| #[trigger]
                        self.instructions@.contains_key(pc) && self.instructions@[pc].op_spec()
                            == Op::PHP implies !(forall|q: usize| #[trigger]
                        self.instructions@.contains_key(q) && q < pc ==> !ends_incipit(
                            self.instructions@[q],
                        ) && self.instructions@[q].op_spec() != Op::PHP) by {
                        assert(keys@.to_set().contains(pc));
                        let j = choose|j: int| 0 <= j < keys@.len() && keys@[j] == pc;
                        if j < i {
                            assert(self.instructions@[keys@[j]].op_spec() != Op::PHP);
                        } else if j == i {
                        } else {
                            assert(keys@[i as int] < keys@[j]);
                            assert(self.instructions@.contains_key(k) && k < pc);
                        }
                    }
                }
                return false;
            }
            i += 1;
        }
        proof {
            assert forall|pc: usize| #[trigger]
                self.instructions@.contains_key(pc) implies self.instructions@[pc].op_spec()
                != Op::PHP by {
                assert(keys@.to_set().contains(pc));
                let j = choose|j: int| 0 <= j < keys@.len() && keys@[j] == pc;
                assert(self.instructions@[keys@[j]].op_spec() != Op::PHP);
            }
        }
        false
    }

    /// Return true if the subroutine is responsible for the unknown state
    /// (every unknown change originated here), false if the responsible
    /// subroutine is one of the ones it calls.
    pub fn is_responsible_for_unknown(&self) -> (r: bool)
        ensures
            r == (self.has_unknown() && !self.unknown_because_of(UnknownReason::Unknown)),
    {
        self.has_unknown_state_change() && !self.is_unknown_because_of(UnknownReason::Unknown)
    }
}

/// The unknown map is non-empty exactly when the subroutine has an unknown
/// state change: a subroutine is unknown-at-return iff some instruction of it
/// recorded an unknown change.
pub proof fn lemma_unknown_iff_nonempty(s: Subroutine)
    ensures
        s.has_unknown() <==> s.unknown_state_changes@.dom() != Set::<usize>::empty(),
{
    if s.has_unknown() {
        let pc = choose|pc: usize| #[trigger] s.unknown_state_changes@.contains_key(pc);
        assert(s.unknown_state_changes@.dom().contains(pc));
    }
    if !s.has_unknown() {
        assert(s.unknown_state_changes@.dom() =~= Set::<usize>::empty());
    }
}

} // verus!
