use std::collections::BTreeMap;
use vstd::prelude::*;

use crate::error::{Error, Result};
use crate::instruction::{Instruction, InstructionType};
use crate::labels::{
    injective_pairs, label_pairs, without_pairs, labels_contains_left, labels_get_by_left, labels_get_by_right,
    labels_insert, labels_new, labels_remove_by_left, lemma_insert_keeps_injective, LabelMap,
};
use crate::maps::keys_of;
use crate::rom::{is_ram_spec, ROMType, ROM, NMI, RESET};
use crate::state::{State, StateChange, UnknownReason};
use crate::subroutine::Subroutine;
use crate::cpu::{decodable, CPU};
use crate::opcodes::Op;
use crate::state::empty_change;
use crate::text::{
    chars_of, drop_first, starts_with_char, concat, hex_padded, hex_upper, identifier_pattern, is_identifier, regex_is_match,
    starts_with,
};

verus! {

broadcast use {vstd::std_specs::btree::group_btree_axioms, vstd::laws_cmp::group_laws_cmp};

/// ROM's entry point.
#[derive(Clone, Debug)]
pub struct EntryPoint {
    pub label: String,
    pub pc: usize,
    pub p: u8,
}

/// Code reference: an instruction refers to `target`, within `subroutine`.
#[derive(Copy, Clone, Debug, PartialEq, Eq, Hash, Structural)]
pub struct Reference {
    pub target: usize,
    pub subroutine: usize,
}

/// Jump table entry: the caller jumps to `target` when X holds `x` (if relevant).
#[derive(Copy, Clone, Debug, PartialEq, Eq, Hash, Structural)]
pub struct JumpTableEntry {
    pub x: Option<usize>,
    pub target: usize,
}

/// Suggested assertions.
#[derive(Copy, Clone, Debug)]
pub enum Assertion {
    Instruction(StateChange),
    Subroutine(StateChange),
}

/// Types of indirect jumps.
#[derive(Copy, Clone, Debug, PartialEq, Eq, Hash, Structural)]
pub enum IndirectJump {
    Call,
    Jump,
    ReturnCall,
    ReturnJump,
}

/// Whether the records hold one at `pc` of subroutine `s` with processor state `p`.
pub open spec fn recorded(instrs: Map<usize, Vec<Instruction>>, pc: usize, s: usize, p: u8) -> bool {
    &&& instrs.contains_key(pc)
    &&& exists|k: int|
        0 <= k < instrs[pc]@.len() && (#[trigger] instrs[pc]@[k]).subroutine == s && instrs[pc]@[k].state.p
            == p
}

/// Whether the subroutine assertions hold one for `pc` in subroutine `s`.
pub open spec fn has_pair(m: Map<usize, BTreeMap<usize, StateChange>>, s: usize, pc: usize) -> bool {
    m.contains_key(s) && m[s]@.contains_key(pc)
}

/// What a run walked under and what it recorded: the assertions, then the
/// instruction, subroutine and reference tables.
pub type WalkRecord = (
    Map<usize, StateChange>,
    Map<usize, BTreeMap<usize, StateChange>>,
    Map<usize, Vec<JumpTableEntry>>,
    Map<usize, Vec<Instruction>>,
    Map<usize, Subroutine>,
    Map<usize, Vec<Reference>>,
);

/// Whether two instruction records have the same identity.
pub open spec fn same_id(a: Instruction, b: Instruction) -> bool {
    a.pc == b.pc && a.subroutine == b.subroutine && a.state.p == b.state.p
}

/// Whether a list of jump table entries names `target`.
pub open spec fn names_target(entries: Seq<JumpTableEntry>, target: usize) -> bool {
    exists|k: int| 0 <= k < entries.len() && #[trigger] entries[k].target == target
}

/// The callers whose jump assertions name `target`.
pub open spec fn callers_of(ja: Map<usize, Vec<JumpTableEntry>>, target: usize) -> Set<usize> {
    ja.dom().filter(|c: usize| names_target(ja[c]@, target))
}

/// Label of a subroutine with no name of its own: `sub_` and its address.
pub open spec fn default_sub_label(pc: usize) -> Seq<char> {
    seq!['s', 'u', 'b', '_'] + hex_padded(pc as nat, 6)
}

/// Steps that one run of the interpreter may take.
pub const STEP_BUDGET: u64 = 0xFFFF_FFFF_FFFF;

/// Structure holding the state of the analysis.
pub struct Analysis {
    /// Reference to the ROM being analyzed.
    pub rom: ROM,
    /// All analyzed instructions, by address (one record per subroutine and state).
    pub instructions: BTreeMap<usize, Vec<Instruction>>,
    /// All analyzed subroutines.
    pub subroutines: BTreeMap<usize, Subroutine>,
    /// Instructions referenced by other instructions.
    pub references: BTreeMap<usize, Vec<Reference>>,
    /// Instructions acting like indirect jumps.
    pub indirect_jumps: BTreeMap<usize, IndirectJump>,
    /// Instructions that manipulate the stack in tricky ways.
    pub stack_manipulations: Vec<usize>,
    /// Subroutine labels.
    pub subroutine_labels: LabelMap,
    /// Subroutine local labels.
    pub local_labels: BTreeMap<usize, LabelMap>,
    /// ROM's entry points.
    pub entry_points: Vec<EntryPoint>,
    /// Labels set by the user.
    pub custom_labels: BTreeMap<usize, String>,
    /// Assertions on instruction state changes.
    pub instruction_assertions: BTreeMap<usize, StateChange>,
    /// Assertions on subroutine state changes.
    pub subroutine_assertions: BTreeMap<usize, BTreeMap<usize, StateChange>>,
    /// Assertions on jump table targets.
    pub jump_assertions: BTreeMap<usize, Vec<JumpTableEntry>>,
    /// Addresses that are targets for jump tables, with their reference counts.
    pub jump_table_targets: BTreeMap<usize, usize>,
    /// Instruction comments.
    pub comments: BTreeMap<usize, String>,
    /// Interpretation steps that the current run may still take: a bound far
    /// beyond what any walk of a ROM needs, which makes every walk finite.
    pub steps_left: u64,
    /// What the last run walked under and recorded.
    pub walked: Ghost<WalkRecord>,
}

impl Analysis {
    /// The instruction records at `pc` are filed there, belong to known
    /// subroutines, and no two of them share an identity.
    pub open spec fn visited_wf(self, pc: usize) -> bool {
        let v = self.instructions@[pc]@;
        &&& forall|k: int|
            0 <= k < v.len() ==> #[trigger] v[k].pc == pc && self.subroutines@.contains_key(
                v[k].subroutine,
            ) && self.subroutines@[v[k].subroutine].instructions@.contains_key(pc)
        &&& forall|a: int, b: int| 0 <= a < b < v.len() ==> !same_id(#[trigger] v[a], #[trigger] v[b])
    }

    /// The registry of instructions and subroutines is consistent.
    pub open spec fn registry_wf(self) -> bool {
        &&& forall|pc: usize| #[trigger]
            self.instructions@.contains_key(pc) ==> self.visited_wf(pc)
        &&& forall|s: usize| #[trigger]
            self.subroutines@.contains_key(s) ==> self.subroutines@[s].wf()
                && self.subroutines@[s].pc == s
        &&& injective_pairs(label_pairs(self.subroutine_labels))
        &&& self.changes_at_instructions()
    }

    /// Every state change recorded for a subroutine is at one of its instructions.
    pub open spec fn changes_at_instructions(self) -> bool {
        &&& forall|s: usize, pc: usize|
            self.subroutines@.contains_key(s) && #[trigger] self.subroutines@[s].state_changes@.contains_key(pc)
                ==> self.subroutines@[s].instructions@.contains_key(pc)
        &&& forall|s: usize, pc: usize|
            self.subroutines@.contains_key(s) && #[trigger] self.subroutines@[s].unknown_state_changes@.contains_key(pc)
                ==> self.subroutines@[s].instructions@.contains_key(pc)
    }

    /// Every instruction of every subroutine of `before` is still there.
    pub open spec fn grows_from(self, before: Analysis) -> bool {
        forall|s: usize, pc: usize|
            before.subroutines@.contains_key(s) && #[trigger] before.subroutines@[s].instructions@.contains_key(pc)
                ==> self.subroutines@.contains_key(s) && self.subroutines@[s].instructions@.contains_key(pc)
    }

    /// Each jump table target counts the callers that assert it.
    pub open spec fn jump_wf(self) -> bool {
        &&& forall|t: usize| #[trigger]
            self.jump_table_targets@.contains_key(t) ==> self.jump_table_targets@[t]
                == callers_of(self.jump_assertions@, t).len() && self.jump_table_targets@[t] > 0
        &&& forall|t: usize|
            !self.jump_table_targets@.contains_key(t) ==> #[trigger] callers_of(
                self.jump_assertions@,
                t,
            ).len() == 0
    }

    /// Each caller's jump table entries are ordered by their X.
    pub open spec fn entries_ordered(self) -> bool {
        forall|c: usize| #[trigger] self.jump_assertions@.contains_key(c) ==> ordered_by_x(self.jump_assertions@[c]@)
    }

    /// The analysis is consistent.
    pub open spec fn wf(self) -> bool {
        self.registry_wf() && self.jump_wf() && self.entries_ordered()
    }

    /// Whether an instruction with the same identity was recorded.
    pub open spec fn visited(self, i: Instruction) -> bool {
        &&& self.instructions@.contains_key(i.pc)
        &&& exists|k: int|
            0 <= k < self.instructions@[i.pc]@.len() && same_id(
                #[trigger] self.instructions@[i.pc]@[k],
                i,
            )
    }

    /// The tables that describe the user's input: they survive a run.
    pub open spec fn same_input(self, other: Analysis) -> bool {
        &&& self.rom == other.rom
        &&& self.instruction_assertions@ == other.instruction_assertions@
        &&& self.subroutine_assertions@ == other.subroutine_assertions@
        &&& self.jump_assertions@ == other.jump_assertions@
        &&& self.jump_table_targets@ == other.jump_table_targets@
        &&& self.entry_points@ == other.entry_points@
    }

    /// The records at `pc` stay consistent when the records are unchanged and
    /// no subroutine is removed.
    pub proof fn lemma_visited_wf_frame(a: Analysis, b: Analysis, pc: usize)
        requires
            a.visited_wf(pc),
            a.instructions@ == b.instructions@,
            b.grows_from(a),
        ensures
            b.visited_wf(pc),
    {
        let v = a.instructions@[pc]@;
        assert(b.instructions@[pc]@ == v);
        assert forall|k: int| 0 <= k < v.len() implies #[trigger] v[k].pc == pc
            && b.subroutines@.contains_key(v[k].subroutine)
            && b.subroutines@[v[k].subroutine].instructions@.contains_key(pc) by {
            assert(v[k].pc == pc);
            assert(a.subroutines@[v[k].subroutine].instructions@.contains_key(pc));
        }
    }

    /// The registry stays consistent when its instructions, subroutines and
    /// labels are unchanged.
    pub proof fn lemma_registry_frame(a: Analysis, b: Analysis)
        requires
            a.registry_wf(),
            a.instructions@ == b.instructions@,
            a.subroutines@ == b.subroutines@,
            a.subroutine_labels == b.subroutine_labels,
        ensures
            b.registry_wf(),
    {
        assert forall|pc: usize| #[trigger] b.instructions@.contains_key(pc) implies b.visited_wf(pc) by {
            assert(a.visited_wf(pc));
        }
    }

    /// The assertions and the walk tables, as they stand.
    pub open spec fn record(self) -> WalkRecord {
        (
            self.instruction_assertions@,
            self.subroutine_assertions@,
            self.jump_assertions@,
            self.instructions@,
            self.subroutines@,
            self.references@,
        )
    }

    /// Whether the walk tables are those that the last run recorded, under
    /// the assertions that stand now.
    pub open spec fn walk_current(self) -> bool {
        self.walked@ == self.record()
    }

    /// The user's input and the step budget are unchanged.
    pub open spec fn same_run(self, other: Analysis) -> bool {
        self.same_input(other) && self.steps_left == other.steps_left
    }

    /// Instantiate a new Analysis object, with the ROM's reset and NMI vectors
    /// as entry points when the ROM's type is known.
    pub fn new(rom: ROM) -> (r: Analysis)
        ensures
            r.wf(),
            r.rom == rom,
            r.instructions@.dom() == Set::<usize>::empty(),
            r.subroutines@.dom() == Set::<usize>::empty(),
            r.jump_assertions@.dom() == Set::<usize>::empty(),
            r.instruction_assertions@.dom() == Set::<usize>::empty(),
            r.subroutine_assertions@.dom() == Set::<usize>::empty(),
    {
        let entry_points = Self::default_entry_points(&rom);
        let r = Analysis {
            rom,
            instructions: BTreeMap::new(),
            subroutines: BTreeMap::new(),
            references: BTreeMap::new(),
            indirect_jumps: BTreeMap::new(),
            stack_manipulations: Vec::new(),
            subroutine_labels: labels_new(),
            local_labels: BTreeMap::new(),
            entry_points,
            custom_labels: BTreeMap::new(),
            instruction_assertions: BTreeMap::new(),
            subroutine_assertions: BTreeMap::new(),
            jump_assertions: BTreeMap::new(),
            jump_table_targets: BTreeMap::new(),
            comments: BTreeMap::new(),
            steps_left: STEP_BUDGET,
            walked: Ghost(arbitrary()),
        };
        proof {
            assert(label_pairs(r.subroutine_labels).dom() =~= Set::<Seq<char>>::empty());
            assert forall|t: usize| !r.jump_table_targets@.contains_key(t) implies #[trigger] callers_of(
                r.jump_assertions@,
                t,
            ).len() == 0 by {
                assert(callers_of(r.jump_assertions@, t) =~= Set::<usize>::empty());
            }
        }
        r
    }

    /// Return the default entry points for the ROM under analysis: `reset` and
    /// `nmi`, in 8-bit mode, when the ROM's type is known and its vectors can be read.
    fn default_entry_points(rom: &ROM) -> (r: Vec<EntryPoint>)
        ensures
            rom.rom_type == ROMType::Unknown ==> r@.len() == 0,
    {
        let mut v: Vec<EntryPoint> = Vec::new();
        if rom.rom_type() == ROMType::Unknown {
            return v;
        }
        if rom.is_readable(RESET) && rom.is_readable(RESET + 1) {
            v.push(EntryPoint { label: "reset".to_owned(), pc: rom.reset_vector(), p: 0b0011_0000 });
        }
        if rom.is_readable(NMI) && rom.is_readable(NMI + 1) {
            v.push(EntryPoint { label: "nmi".to_owned(), pc: rom.nmi_vector(), p: 0b0011_0000 });
        }
        v
    }

    /// Return the ROM under analysis.
    pub fn rom(&self) -> (r: &ROM)
        ensures
            *r == self.rom,
    {
        &self.rom
    }

    /// Clear the results of the analysis (instructions, subroutines,
    /// references, labels), keeping the user's input.
    fn clear(&mut self)
        requires
            old(self).jump_wf(),
            old(self).entries_ordered(),
        ensures
            final(self).wf(),
            final(self).same_run(*old(self)),
            final(self).instructions@.dom() == Set::<usize>::empty(),
            final(self).subroutines@.dom() == Set::<usize>::empty(),
            final(self).entry_points@ == old(self).entry_points@,
            final(self).custom_labels@ == old(self).custom_labels@,
    {
        self.instructions = BTreeMap::new();
        self.subroutines = BTreeMap::new();
        self.references = BTreeMap::new();
        self.indirect_jumps = BTreeMap::new();
        self.stack_manipulations = Vec::new();
        self.subroutine_labels = labels_new();
        self.local_labels = BTreeMap::new();
        proof {
            assert(label_pairs(self.subroutine_labels).dom() =~= Set::<Seq<char>>::empty());
        }
    }

    /// Reset the analysis: drop every assertion, label and comment, restore
    /// the default entry points, and clear the results.
    pub fn reset(&mut self)
        ensures
            final(self).wf(),
            final(self).rom == old(self).rom,
            final(self).instructions@.dom() == Set::<usize>::empty(),
            final(self).subroutines@.dom() == Set::<usize>::empty(),
            final(self).jump_assertions@.dom() == Set::<usize>::empty(),
            final(self).jump_table_targets@.dom() == Set::<usize>::empty(),
            final(self).instruction_assertions@.dom() == Set::<usize>::empty(),
            final(self).subroutine_assertions@.dom() == Set::<usize>::empty(),
    {
        self.entry_points = Self::default_entry_points(&self.rom);
        self.custom_labels = BTreeMap::new();
        self.instruction_assertions = BTreeMap::new();
        self.subroutine_assertions = BTreeMap::new();
        self.jump_assertions = BTreeMap::new();
        self.jump_table_targets = BTreeMap::new();
        self.comments = BTreeMap::new();
        proof {
            assert forall|t: usize| !self.jump_table_targets@.contains_key(t) implies #[trigger] callers_of(
                self.jump_assertions@,
                t,
            ).len() == 0 by {
                assert(callers_of(self.jump_assertions@, t) =~= Set::<usize>::empty());
            }
        }
        self.clear();
    }

    /// Return true if the instruction has already been analyzed, false otherwise.
    pub fn is_visited(&self, instruction: Instruction) -> (r: bool)
        ensures
            r == self.visited(instruction),
    {
        match self.instructions.get(&instruction.pc) {
            None => false,
            Some(v) => {
                let mut k: usize = 0;
                while k < v.len()
                    invariant
                        self.instructions@.contains_key(instruction.pc),
                        v@ == self.instructions@[instruction.pc]@,
                        k <= v@.len(),
                        forall|j: int| 0 <= j < k ==> !same_id(#[trigger] v@[j], instruction),
                    decreases v.len() - k,
                {
                    if v[k].same_identity(&instruction) {
                        assert(self.instructions@[instruction.pc]@[k as int] == v@[k as int]);
                        return true;
                    }
                    k += 1;
                }
                false
            },
        }
    }

    /// Return true if an instruction with the same address has already been
    /// analyzed, false otherwise.
    pub fn is_visited_pc(&self, pc: usize) -> (r: bool)
        ensures
            r == self.instructions@.contains_key(pc),
    {
        self.instructions.contains_key(&pc)
    }

    /// Return true if a subroutine at the given PC is an entry point.
    pub fn is_entry_point(&self, pc: usize) -> (r: bool)
        ensures
            r == exists|k: int| 0 <= k < self.entry_points@.len() && #[trigger] self.entry_points@[k].pc == pc,
    {
        let mut k: usize = 0;
        while k < self.entry_points.len()
            invariant
                k <= self.entry_points@.len(),
                forall|j: int| 0 <= j < k ==> #[trigger] self.entry_points@[j].pc != pc,
            decreases self.entry_points.len() - k,
        {
            if self.entry_points[k].pc == pc {
                return true;
            }
            k += 1;
        }
        false
    }

    /// Return true if the given subroutine is part of the analysis, false otherwise.
    pub fn is_subroutine(&self, pc: usize) -> (r: bool)
        ensures
            r == self.subroutines@.contains_key(pc),
    {
        self.subroutines.contains_key(&pc)
    }

    /// Return true if the given address is the target of a jump table, false otherwise.
    pub fn is_jump_table_target(&self, pc: usize) -> (r: bool)
        ensures
            r == self.jump_table_targets@.contains_key(pc),
    {
        self.jump_table_targets.contains_key(&pc)
    }

    /// Return any of the instructions recorded at address `pc`.
    pub fn any_instruction(&self, pc: usize) -> (r: Option<Instruction>)
        requires
            self.wf(),
        ensures
            match r {
                Some(i) => self.instructions@.contains_key(pc) && i.pc == pc
                    && self.instructions@[pc]@.len() > 0 && i == self.instructions@[pc]@[0]
                    && self.instructions@[pc]@.contains(i),
                None => !self.instructions@.contains_key(pc) || self.instructions@[pc]@.len()
                    == 0,
            },
    {
        match self.instructions.get(&pc) {
            None => None,
            Some(v) => {
                if v.len() == 0 {
                    None
                } else {
                    assert(self.visited_wf(pc));
                    assert(v@[0].pc == pc);
                    Some(v[0])
                }
            },
        }
    }

    /// Find the instruction that covers the given address, if any: one that
    /// starts there, or one that starts up to three bytes before and is long
    /// enough to reach it.
    pub fn find_instruction(&self, address: usize) -> (r: Option<usize>)
        requires
            self.wf(),
        ensures
            match r {
                Some(pc) => pc <= address && address - pc <= 3 && self.instructions@.contains_key(
                    pc,
                ),
                None => !self.instructions@.contains_key(address),
            },
    {
        if self.is_visited_pc(address) {
            return Some(address);
        }
        let mut back: usize = 1;
        while back <= 3
            invariant
                self.wf(),
                1 <= back <= 4,
                !self.instructions@.contains_key(address),
            decreases 4 - back,
        {
            if address >= back {
                if let Some(i) = self.any_instruction(address - back) {
                    if i.size() > back {
                        return Some(address - back);
                    }
                }
            }
            back += 1;
        }
        None
    }

    /// Add an instruction to the analysis, unless an instruction with the
    /// same identity is already there.
    pub fn add_instruction(&mut self, instruction: Instruction) -> (r: Instruction)
        requires
            old(self).wf(),
            old(self).subroutines@.contains_key(instruction.subroutine),
        ensures
            final(self).grows_from(*old(self)),
            r == instruction,
            final(self).wf(),
            final(self).same_run(*old(self)),
            final(self).visited(instruction),
            final(self).subroutines@.dom() == old(self).subroutines@.dom(),
            final(self).subroutines@[instruction.subroutine].instructions@ == old(
                self,
            ).subroutines@[instruction.subroutine].instructions@.insert(
                instruction.pc,
                instruction,
            ),
            forall|s: usize| s != instruction.subroutine ==> #[trigger] final(self).subroutines@[s] == old(self).subroutines@[s],
            forall|i: Instruction| old(self).visited(i) ==> #[trigger] final(self).visited(i),
            forall|q: usize, s: usize, p: u8| #[trigger] recorded(old(self).instructions@, q, s, p) ==> recorded(final(self).instructions@, q, s, p),
            recorded(final(self).instructions@, instruction.pc, instruction.subroutine, instruction.state.p),
            forall|q: usize| q != instruction.pc ==> (#[trigger] final(self).instructions@.contains_key(q)
                == old(self).instructions@.contains_key(q)) && final(self).instructions@[q] == old(self).instructions@[q],
            old(self).visited(instruction) ==> final(self).instructions@ == old(self).instructions@,
            !old(self).visited(instruction) ==> final(self).instructions@.contains_key(instruction.pc)
                && final(self).instructions@[instruction.pc]@ == (if old(self).instructions@.contains_key(instruction.pc) {
                    old(self).instructions@[instruction.pc]@
                } else {
                    Seq::<Instruction>::empty()
                }).push(instruction),
    {
        let pc = instruction.pc;
        let seen = self.is_visited(instruction);
        let ghost before: Seq<Instruction> = if old(self).instructions@.contains_key(pc) {
            old(self).instructions@[pc]@
        } else {
            Seq::<Instruction>::empty()
        };
        if !seen {
            let mut v = match self.instructions.remove(&pc) {
                Some(v) => v,
                None => Vec::new(),
            };
            assert(v@ == before);
            v.push(instruction);
            self.instructions.insert(pc, v);
            assert(self.instructions@[pc]@ == before.push(instruction));
        } else {
            assert(self.instructions@ == old(self).instructions@);
        }
        let mut sub = self.subroutines.remove(&instruction.subroutine).unwrap();
        sub.add_instruction(instruction);
        self.subroutines.insert(instruction.subroutine, sub);
        proof {
            assert(self.subroutines@.dom() =~= old(self).subroutines@.dom());
            assert forall|q: usize| #[trigger] self.instructions@.contains_key(q) implies self.visited_wf(q) by {
                let w = self.instructions@[q]@;
                if q != pc || seen {
                    assert(old(self).instructions@.contains_key(q));
                    assert(old(self).visited_wf(q));
                    assert(w == old(self).instructions@[q]@);
                    assert forall|k: int| 0 <= k < w.len() implies #[trigger] w[k].pc == q
                        && self.subroutines@.contains_key(w[k].subroutine)
                        && self.subroutines@[w[k].subroutine].instructions@.contains_key(q) by {
                        assert(w[k].pc == q);
                        assert(old(self).subroutines@[w[k].subroutine].instructions@.contains_key(q));
                    }
                } else {
                    if old(self).instructions@.contains_key(pc) {
                        assert(old(self).visited_wf(pc));
                    }
                    assert forall|k: int| 0 <= k < w.len() implies #[trigger] w[k].pc == q
                        && self.subroutines@.contains_key(w[k].subroutine)
                        && self.subroutines@[w[k].subroutine].instructions@.contains_key(q) by {
                        if k < before.len() {
                            assert(w[k] == before[k]);
                            assert(before[k].pc == q);
                            assert(old(self).subroutines@[w[k].subroutine].instructions@.contains_key(q));
                        } else {
                            assert(w[k] == instruction);
                        }
                    }
                    assert forall|a: int, b: int| 0 <= a < b < w.len() implies !same_id(
                        #[trigger] w[a],
                        #[trigger] w[b],
                    ) by {
                        if b == before.len() {
                            assert(w[a] == before[a]);
                            assert(!same_id(before[a], instruction));
                        } else {
                            assert(w[a] == before[a] && w[b] == before[b]);
                        }
                    }
                }
            }
            assert forall|i: Instruction| old(self).visited(i) implies #[trigger] self.visited(i) by {
                let k = choose|k: int|
                    0 <= k < old(self).instructions@[i.pc]@.len() && same_id(
                        #[trigger] old(self).instructions@[i.pc]@[k],
                        i,
                    );
                if i.pc == pc && !seen {
                    assert(self.instructions@[i.pc]@[k] == old(self).instructions@[i.pc]@[k]);
                } else {
                    assert(self.instructions@[i.pc] == old(self).instructions@[i.pc]);
                }
            }
            if !seen {
                assert(self.instructions@[pc]@[before.len() as int] == instruction);
            }
            assert forall|q: usize, t: usize, p: u8| #[trigger] recorded(old(self).instructions@, q, t, p) implies recorded(self.instructions@, q, t, p) by {
                let k = choose|k: int|
                    0 <= k < old(self).instructions@[q]@.len() && (#[trigger] old(self).instructions@[q]@[k]).subroutine
                        == t && old(self).instructions@[q]@[k].state.p == p;
                if q == pc && !seen {
                    assert(self.instructions@[q]@[k] == old(self).instructions@[q]@[k]);
                } else {
                    assert(self.instructions@[q] == old(self).instructions@[q]);
                    assert(self.instructions@[q]@[k] == old(self).instructions@[q]@[k]);
                }
            }
            let k = choose|k: int|
                0 <= k < self.instructions@[pc]@.len() && same_id(#[trigger] self.instructions@[pc]@[k], instruction);
            assert(self.instructions@[pc]@[k].subroutine == instruction.subroutine);
        }
        instruction
    }

    /// Add a state change to a subroutine.
    pub fn add_state_change(&mut self, subroutine: usize, pc: usize, state_change: StateChange)
        requires
            old(self).wf(),
            old(self).subroutines@.contains_key(subroutine),
            old(self).subroutines@[subroutine].instructions@.contains_key(pc),
        ensures
            final(self).grows_from(*old(self)),
            final(self).wf(),
            final(self).same_run(*old(self)),
            final(self).instructions@ == old(self).instructions@,
            final(self).subroutines@.dom() == old(self).subroutines@.dom(),
            forall|s: usize|
                s != subroutine ==> #[trigger] final(self).subroutines@[s] == old(self).subroutines@[s],
            state_change.unknown_reason != UnknownReason::Known ==> final(self).subroutines@[subroutine].unknown_state_changes@
                == old(self).subroutines@[subroutine].unknown_state_changes@.insert(
                pc,
                state_change,
            ),
            state_change.unknown_reason == UnknownReason::Known ==> final(self).subroutines@[subroutine].state_changes@
                == old(self).subroutines@[subroutine].state_changes@.insert(pc, state_change),
    {
        let mut sub = self.subroutines.remove(&subroutine).unwrap();
        sub.add_state_change(pc, state_change);
        self.subroutines.insert(subroutine, sub);
        proof {
            assert(self.subroutines@.dom() =~= old(self).subroutines@.dom());
            assert forall|q: usize| #[trigger] self.instructions@.contains_key(q) implies self.visited_wf(q) by {
                assert(old(self).visited_wf(q));
            }
        }
    }

    /// Add a subroutine to the analysis (unless it exists), and record the
    /// stack trace through which it was reached. Its label is the user's label
    /// for the address, else the given one (which the user's labels then
    /// remember), else `sub_XXXXXX`.
    pub fn add_subroutine(&mut self, pc: usize, label: Option<String>, stack_trace: Vec<usize>)
        requires
            old(self).wf(),
        ensures
            final(self).grows_from(*old(self)),
            final(self).wf(),
            final(self).same_run(*old(self)),
            final(self).instructions@ == old(self).instructions@,
            final(self).subroutines@.dom() == old(self).subroutines@.dom().insert(pc),
            forall|s: usize|
                s != pc ==> #[trigger] final(self).subroutines@[s] == old(self).subroutines@[s],
            old(self).subroutines@.contains_key(pc) ==> final(self).subroutines@[pc].state_changes@
                == old(self).subroutines@[pc].state_changes@ && final(
                self).subroutines@[pc].unknown_state_changes@ == old(
                self).subroutines@[pc].unknown_state_changes@ && final(
                self).subroutines@[pc].instructions@ == old(self).subroutines@[pc].instructions@,
            final(self).subroutines@[pc].traces().contains(stack_trace@),
            !old(self).subroutines@.contains_key(pc) ==> final(self).subroutines@[pc].label@ == (
            if old(self).custom_labels@.contains_key(pc) {
                old(self).custom_labels@[pc]@
            } else if label is Some {
                label->0@
            } else {
                default_sub_label(pc)
            }),
    {
        proof {
            reveal_strlit("sub_");
        }
        let name = match self.custom_labels.get(&pc) {
            Some(l) => l.clone(),
            None => match label {
                Some(l) => {
                    self.custom_labels.insert(pc, l.clone());
                    l
                },
                None => {
                    let digits = hex_upper(pc, 6);
                    concat("sub_", digits.as_str())
                },
            },
        };
        let ghost pairs = label_pairs(self.subroutine_labels);
        labels_insert(&mut self.subroutine_labels, name.clone(), pc);
        proof {
            lemma_insert_keeps_injective(pairs, name@, pc);
        }
        let mut sub = match self.subroutines.remove(&pc) {
            Some(s) => s,
            None => Subroutine::new(pc, name),
        };
        sub.add_stack_trace(stack_trace);
        self.subroutines.insert(pc, sub);
        proof {
            assert(self.subroutines@.dom() =~= old(self).subroutines@.dom().insert(pc));
            assert(self.instructions@ == old(self).instructions@);
            assert forall|q: usize| #[trigger] self.instructions@.contains_key(q) implies self.visited_wf(q) by {
                assert(old(self).instructions@.contains_key(q));
                Self::lemma_visited_wf_frame(*old(self), *self, q);
            }
        }
    }

    /// Add a reference from an instruction to another (recorded once).
    pub fn add_reference(&mut self, source: usize, target: usize, subroutine: usize)
        requires
            old(self).wf(),
        ensures
            final(self).grows_from(*old(self)),
            final(self).wf(),
            final(self).same_run(*old(self)),
            final(self).instructions@ == old(self).instructions@,
            final(self).subroutines@ == old(self).subroutines@,
            final(self).references@.contains_key(source),
            final(self).references@[source]@.contains(Reference { target, subroutine }),
    {
        let r = Reference { target, subroutine };
        let mut v = match self.references.remove(&source) {
            Some(v) => v,
            None => Vec::new(),
        };
        let mut k: usize = 0;
        let mut found = false;
        while k < v.len()
            invariant
                k <= v@.len(),
                found ==> v@.contains(r),
            decreases v.len() - k,
        {
            if v[k] == r {
                found = true;
            }
            k += 1;
        }
        if !found {
            v.push(r);
            assert(v@[v@.len() - 1] == r);
        }
        self.references.insert(source, v);
        proof {
            assert forall|q: usize| #[trigger] self.instructions@.contains_key(q) implies self.visited_wf(q) by {
                assert(old(self).visited_wf(q));
            }
        }
    }

    /// Add an indirect jump instruction to the analysis, and flag its subroutine.
    pub fn add_indirect_jump(&mut self, sub_pc: usize, pc: usize, kind: IndirectJump)
        requires
            old(self).wf(),
            old(self).subroutines@.contains_key(sub_pc),
        ensures
            final(self).grows_from(*old(self)),
            final(self).wf(),
            final(self).same_run(*old(self)),
            final(self).instructions@ == old(self).instructions@,
            final(self).subroutines@.dom() == old(self).subroutines@.dom(),
            forall|s: usize|
                s != sub_pc ==> #[trigger] final(self).subroutines@[s] == old(self).subroutines@[s],
            final(self).subroutines@[sub_pc].contains_indirect_jumps,
            final(self).subroutines@[sub_pc].state_changes@ == old(self).subroutines@[sub_pc].state_changes@,
            final(self).subroutines@[sub_pc].unknown_state_changes@ == old(self).subroutines@[sub_pc].unknown_state_changes@,
            final(self).indirect_jumps@ == old(self).indirect_jumps@.insert(pc, kind),
    {
        self.indirect_jumps.insert(pc, kind);
        let mut sub = self.subroutines.remove(&sub_pc).unwrap();
        sub.set_contains_indirect_jumps(true);
        self.subroutines.insert(sub_pc, sub);
        proof {
            assert(self.subroutines@.dom() =~= old(self).subroutines@.dom());
            assert forall|q: usize| #[trigger] self.instructions@.contains_key(q) implies self.visited_wf(q) by {
                assert(old(self).visited_wf(q));
            }
        }
    }

    /// Add a stack manipulating instruction to the analysis.
    pub fn add_stack_manipulation(&mut self, pc: usize)
        ensures
            final(self).stack_manipulations@.contains(pc),
            final(self).instructions@ == old(self).instructions@,
            final(self).subroutines@ == old(self).subroutines@,
    {
        let mut k: usize = 0;
        while k < self.stack_manipulations.len()
            invariant
                k <= self.stack_manipulations@.len(),
            decreases self.stack_manipulations.len() - k,
        {
            if self.stack_manipulations[k] == pc {
                return;
            }
            k += 1;
        }
        self.stack_manipulations.push(pc);
        assert(self.stack_manipulations@[self.stack_manipulations@.len() - 1] == pc);
    }

    /// Add an assertion on an instruction state change.
    pub fn add_instruction_assertion(&mut self, pc: usize, state_change: StateChange)
        requires
            old(self).wf(),
        ensures
            final(self).subroutine_assertions@ == old(self).subroutine_assertions@,
            final(self).walked == old(self).walked,
            final(self).assertions_grow_from(*old(self)),
            final(self).entry_points@ == old(self).entry_points@,
            final(self).wf(),
            final(self).rom == old(self).rom,
            final(self).instructions@ == old(self).instructions@,
            final(self).subroutines@ == old(self).subroutines@,
            final(self).instruction_assertions@ == old(self).instruction_assertions@.insert(
                pc,
                state_change,
            ),
    {
        self.instruction_assertions.insert(pc, state_change);
        proof {
            Self::lemma_registry_frame(*old(self), *self);
        }
    }

    /// Add an assertion on a subroutine state change.
    pub fn add_subroutine_assertion(&mut self, sub_pc: usize, pc: usize, state_change: StateChange)
        requires
            old(self).wf(),
        ensures
            forall|t: usize, q: usize| #[trigger] has_pair(final(self).subroutine_assertions@, t, q)
                <==> has_pair(old(self).subroutine_assertions@, t, q) || (t == sub_pc && q == pc),
            final(self).walked == old(self).walked,
            final(self).assertions_grow_from(*old(self)),
            final(self).entry_points@ == old(self).entry_points@,
            final(self).wf(),
            final(self).rom == old(self).rom,
            final(self).instructions@ == old(self).instructions@,
            final(self).subroutines@ == old(self).subroutines@,
            final(self).subroutine_assertions@.contains_key(sub_pc),
            final(self).subroutine_assertions@[sub_pc]@ == (if old(self).subroutine_assertions@.contains_key(sub_pc) {
                old(self).subroutine_assertions@[sub_pc]@
            } else {
                Map::empty()
            }).insert(pc, state_change),
            forall|s: usize| s != sub_pc ==> #[trigger] final(self).subroutine_assertions@.contains_key(s)
                == old(self).subroutine_assertions@.contains_key(s),
            forall|s: usize| s != sub_pc && old(self).subroutine_assertions@.contains_key(s) ==>
                #[trigger] final(self).subroutine_assertions@[s]@ == old(self).subroutine_assertions@[s]@,
    {
        let mut m = match self.subroutine_assertions.remove(&sub_pc) {
            Some(m) => m,
            None => BTreeMap::new(),
        };
        m.insert(pc, state_change);
        self.subroutine_assertions.insert(sub_pc, m);
        proof {
            Self::lemma_registry_frame(*old(self), *self);
        }
    }

    /// Remove an assertion on an instruction state change.
    pub fn del_instruction_assertion(&mut self, pc: usize)
        ensures
            final(self).instruction_assertions@ == old(self).instruction_assertions@.remove(pc),
    {
        self.instruction_assertions.remove(&pc);
    }

    /// Remove an assertion on a subroutine state change (and the subroutine's
    /// table when it becomes empty).
    pub fn del_subroutine_assertion(&mut self, subroutine: usize, pc: usize)
        ensures
            old(self).subroutine_assertions@.contains_key(subroutine) && final(self).subroutine_assertions@.contains_key(subroutine)
                ==> final(self).subroutine_assertions@[subroutine]@ == old(self).subroutine_assertions@[subroutine]@.remove(pc),
            !old(self).subroutine_assertions@.contains_key(subroutine) ==> final(self).subroutine_assertions@.dom()
                == old(self).subroutine_assertions@.dom(),
            forall|s: usize| s != subroutine ==> #[trigger] final(self).subroutine_assertions@.contains_key(s)
                == old(self).subroutine_assertions@.contains_key(s),
            forall|s: usize, q: usize| #[trigger] has_pair(final(self).subroutine_assertions@, s, q)
                <==> has_pair(old(self).subroutine_assertions@, s, q) && !(s == subroutine && q == pc),
            final(self).instruction_assertions@ == old(self).instruction_assertions@,
            final(self).jump_assertions@ == old(self).jump_assertions@,
            final(self).jump_table_targets@ == old(self).jump_table_targets@,
            final(self).instructions@ == old(self).instructions@,
            final(self).subroutines@ == old(self).subroutines@,
            final(self).subroutine_labels == old(self).subroutine_labels,
            final(self).rom == old(self).rom,
            final(self).entry_points@ == old(self).entry_points@,
            final(self).steps_left == old(self).steps_left,
            final(self).indirect_jumps@ == old(self).indirect_jumps@,
            final(self).references@ == old(self).references@,
            final(self).walked == old(self).walked,
    {
        let ghost sa = self.subroutine_assertions@;
        match self.subroutine_assertions.remove(&subroutine) {
            None => {
                assert(self.subroutine_assertions@ =~= old(self).subroutine_assertions@);
            },
            Some(mut m) => {
                m.remove(&pc);
                if m.len() > 0 {
                    self.subroutine_assertions.insert(subroutine, m);
                } else {
                    assert(m@.dom() =~= Set::<usize>::empty());
                }
            },
        }
        proof {
            assert forall|s: usize, q: usize| #[trigger] has_pair(self.subroutine_assertions@, s, q)
                <==> has_pair(sa, s, q) && !(s == subroutine && q == pc) by {
                if s != subroutine {
                    assert(self.subroutine_assertions@.contains_key(s) == sa.contains_key(s));
                    if sa.contains_key(s) {
                        assert(self.subroutine_assertions@[s] == sa[s]);
                    }
                }
            }
        }
    }

    /// Get a state change assertion for an instruction, if any.
    pub fn instruction_assertion(&self, pc: usize) -> (r: Option<StateChange>)
        ensures
            r == (if self.instruction_assertions@.contains_key(pc) {
                Some(self.instruction_assertions@[pc])
            } else {
                None
            }),
    {
        match self.instruction_assertions.get(&pc) {
            Some(c) => Some(*c),
            None => None,
        }
    }

    /// Get a state change assertion for an instruction of a subroutine, if any.
    pub fn subroutine_assertion(&self, subroutine: usize, pc: usize) -> (r: Option<StateChange>)
        ensures
            r == (if self.subroutine_assertions@.contains_key(subroutine)
                && self.subroutine_assertions@[subroutine]@.contains_key(pc) {
                Some(self.subroutine_assertions@[subroutine]@[pc])
            } else {
                None
            }),
    {
        match self.subroutine_assertions.get(&subroutine) {
            Some(m) => match m.get(&pc) {
                Some(c) => Some(*c),
                None => None,
            },
            None => None,
        }
    }

    /// Add an entry point to the analysis; an address that is already an
    /// entry point, or was already analyzed, is refused.
    pub fn add_entry_point(&mut self, pc: usize, name: String, state: State) -> (r: Result<()>)
        ensures
            r is Err <==> ((exists|k: int| 0 <= k < old(self).entry_points@.len() && #[trigger] old(self).entry_points@[k].pc == pc)
                || old(self).instructions@.contains_key(pc)),
            r is Err ==> r == Err::<(), Error>(Error::AlreadyAnalyzed) && final(self).entry_points@ == old(self).entry_points@,
            r is Ok ==> final(self).entry_points@.len() == old(self).entry_points@.len() + 1
                && final(self).entry_points@.last().pc == pc
                && final(self).entry_points@.last().p == state.p
                && final(self).entry_points@.last().label@ == name@,
            final(self).instructions@ == old(self).instructions@,
            final(self).subroutines@ == old(self).subroutines@,
    {
        if self.is_entry_point(pc) || self.is_visited_pc(pc) {
            return Err(Error::AlreadyAnalyzed);
        }
        self.entry_points.push(EntryPoint { label: name, pc, p: state.p });
        Ok(())
    }

    /// Set or clear (with an empty text) the comment at an address.
    pub fn set_comment(&mut self, pc: usize, comment: String)
        ensures
            comment@.len() == 0 ==> final(self).comments@ == old(self).comments@.remove(pc),
            comment@.len() > 0 ==> final(self).comments@.contains_key(pc) && final(self).comments@[pc]@ == comment@,
    {
        if comment.as_str().is_empty() {
            self.comments.remove(&pc);
        } else {
            self.comments.insert(pc, comment);
        }
    }

    /// Remember a user's label for an address.
    pub fn set_custom_label(&mut self, pc: usize, label: String)
        ensures
            final(self).custom_labels@.contains_key(pc),
            final(self).custom_labels@[pc]@ == label@,
    {
        self.custom_labels.insert(pc, label);
    }

    /// Return the label associated with an address, if any: the subroutine's
    /// label, else the local label (written with a leading `.`) inside the
    /// given subroutine.
    pub fn label(&self, pc: usize, subroutine: Option<usize>) -> (r: Option<String>)
        ensures
            label_pairs(self.subroutine_labels).dom().contains(r->0@) || r is None
                || subroutine is Some,
            (exists|k: Seq<char>| #[trigger] label_pairs(self.subroutine_labels).contains_key(k)
                && label_pairs(self.subroutine_labels)[k] == pc) ==> r is Some
                && label_pairs(self.subroutine_labels).contains_key(r->0@)
                && label_pairs(self.subroutine_labels)[r->0@] == pc,
            !(exists|k: Seq<char>| #[trigger] label_pairs(self.subroutine_labels).contains_key(k)
                && label_pairs(self.subroutine_labels)[k] == pc) ==> match subroutine {
                Some(s) => if self.local_labels@.contains_key(s) && exists|k: Seq<char>|
                    #[trigger] label_pairs(self.local_labels@[s]).contains_key(k) && label_pairs(self.local_labels@[s])[k] == pc {
                    r matches Some(t) && t@.len() > 0 && t@[0] == '.' && label_pairs(self.local_labels@[s]).contains_key(
                        t@.subrange(1, t@.len() as int),
                    ) && label_pairs(self.local_labels@[s])[t@.subrange(1, t@.len() as int)] == pc
                } else {
                    r is None
                },
                None => r is None,
            },
    {
        proof {
            reveal_strlit(".");
        }
        match labels_get_by_right(&self.subroutine_labels, pc) {
            Some(label) => Some(label),
            None => match subroutine {
                None => None,
                Some(s) => match self.local_labels.get(&s) {
                    Some(labels) => match labels_get_by_right(labels, pc) {
                        Some(label) => {
                            let t = concat(".", label.as_str());
                            assert(t@.subrange(1, t@.len() as int) =~= label@);
                            Some(t)
                        },
                        None => None,
                    },
                    None => None,
                },
            },
        }
    }

    /// Return the address associated with a subroutine label, if any.
    pub fn label_value(&self, label: String) -> (r: Option<usize>)
        ensures
            r == (if label_pairs(self.subroutine_labels).contains_key(label@) {
                Some(label_pairs(self.subroutine_labels)[label@])
            } else {
                None
            }),
    {
        labels_get_by_left(&self.subroutine_labels, label.as_str())
    }
}

/// The address of the word at index `x` of the jump table that `caller` reads.
pub open spec fn table_address(caller: Instruction, x: int) -> int {
    ((caller.pc & 0xFF0000) | ((caller.argument_spec()->0 + x) as usize)) as int
}

/// Whether the word at index `x` of the table can be read.
pub open spec fn table_readable(rom: ROM, caller: Instruction, x: int) -> bool {
    &&& caller.argument_spec()->0 + x <= usize::MAX
    &&& table_address(caller, x) < usize::MAX
    &&& rom.readable(table_address(caller, x) as usize)
    &&& rom.readable((table_address(caller, x) + 1) as usize)
}

/// The jump table entry at index `x`: the word there, in the caller's bank.
pub open spec fn table_entry(rom: ROM, caller: Instruction, x: int) -> JumpTableEntry {
    JumpTableEntry {
        x: Some(x as usize),
        target: (caller.pc & 0xFF0000) | (rom.word_at(table_address(caller, x) as usize) as usize),
    }
}

/// Whether an entry, whose X lies in `range`, names `target`.
pub open spec fn in_range_entry(e: JumpTableEntry, range: (usize, usize), target: usize) -> bool {
    e.target == target && (e.x matches Some(x) && range.0 <= x <= range.1)
}

/// Whether some entry whose X lies in `range` names `target`.
pub open spec fn in_range_target(entries: Seq<JumpTableEntry>, range: (usize, usize), target: usize) -> bool {
    exists|k: int| 0 <= k < entries.len() && in_range_entry(#[trigger] entries[k], range, target)
}

/// Whether some record at `pc` belongs to subroutine `s`.
pub open spec fn recorded_in(a: Analysis, pc: usize, s: usize) -> bool {
    a.instructions@.contains_key(pc) && exists|k: int|
        0 <= k < a.instructions@[pc]@.len() && #[trigger] a.instructions@[pc]@[k].subroutine == s
}

/// Whether some label names address `s`.
pub open spec fn named(pairs: Map<Seq<char>, usize>, s: usize) -> bool {
    exists|k: Seq<char>| #[trigger] pairs.contains_key(k) && pairs[k] == s
}

/// Whether reference `j` from `src` points at an address that is not a subroutine.
pub open spec fn refers_locally(a: Analysis, src: usize, j: int) -> bool {
    &&& a.references@.contains_key(src)
    &&& 0 <= j < a.references@[src]@.len()
    &&& !a.subroutines@.contains_key(a.references@[src]@[j].target)
}

/// Whether X value `x` comes strictly before `y`.
pub open spec fn x_before_spec(x: Option<usize>, y: Option<usize>) -> bool {
    match (x, y) {
        (None, Some(_)) => true,
        (Some(a), Some(b)) => a < b,
        _ => false,
    }
}

/// Whether X value `a` comes no later than `b` (no X first).
pub open spec fn x_le(a: Option<usize>, b: Option<usize>) -> bool {
    match (a, b) {
        (None, _) => true,
        (Some(_), None) => false,
        (Some(p), Some(q)) => p <= q,
    }
}

/// Whether jump table entries are ordered by their X.
pub open spec fn ordered_by_x(e: Seq<JumpTableEntry>) -> bool {
    forall|i: int, j: int| 0 <= i < j < e.len() ==> x_le(#[trigger] e[i].x, #[trigger] e[j].x)
}

/// Whether a list of addresses holds `x`.
fn holds_address(v: &Vec<usize>, x: usize) -> (r: bool)
    ensures
        r == v@.contains(x),
{
    let mut i: usize = 0;
    while i < v.len()
        invariant
            i <= v@.len(),
            forall|j: int| 0 <= j < i ==> v@[j] != x,
        decreases v.len() - i,
    {
        if v[i] == x {
            return true;
        }
        i += 1;
    }
    false
}

/// Whether `x` comes before `y` when jump table entries are ordered by X.
fn x_before(x: Option<usize>, y: Option<usize>) -> (r: bool)
    ensures
        r == x_before_spec(x, y),
{
    match (x, y) {
        (None, Some(_)) => true,
        (Some(a), Some(b)) => a < b,
        _ => false,
    }
}

/// Whether a list of jump table entries names `target`.
fn has_target(entries: &Vec<JumpTableEntry>, target: usize) -> (r: bool)
    ensures
        r == names_target(entries@, target),
{
    let mut k: usize = 0;
    while k < entries.len()
        invariant
            k <= entries@.len(),
            forall|j: int| 0 <= j < k ==> #[trigger] entries@[j].target != target,
        decreases entries.len() - k,
    {
        if entries[k].target == target {
            return true;
        }
        k += 1;
    }
    false
}

/// The entries of a list that do not name `target`.
fn without_target(entries: &Vec<JumpTableEntry>, target: usize) -> (r: Vec<JumpTableEntry>)
    ensures
        !names_target(r@, target),
        forall|u: usize| u != target ==> (names_target(r@, u) <==> names_target(entries@, u)),
        r@.len() <= entries@.len(),
        names_target(entries@, target) ==> r@.len() < entries@.len(),
        forall|e: JumpTableEntry| r@.contains(e) <==> (entries@.contains(e) && e.target != target),
        ordered_by_x(entries@) ==> ordered_by_x(r@),
{
    let mut out: Vec<JumpTableEntry> = Vec::new();
    let mut k: usize = 0;
    while k < entries.len()
        invariant
            k <= entries@.len(),
            out@.len() <= k,
            names_target(entries@.subrange(0, k as int), target) ==> out@.len() < k,
            forall|j: int| 0 <= j < out@.len() ==> #[trigger] out@[j].target != target,
            forall|e: JumpTableEntry| out@.contains(e) <==> (entries@.subrange(0, k as int).contains(e) && e.target != target),
            forall|u: usize|
                u != target ==> (names_target(out@, u) <==> names_target(
                    entries@.subrange(0, k as int),
                    u,
                )),
            ordered_by_x(entries@) ==> ordered_by_x(out@),
            ordered_by_x(entries@) ==> forall|q: int, m: int| 0 <= q < out@.len() && k <= m < entries@.len()
                ==> x_le(#[trigger] out@[q].x, #[trigger] entries@[m].x),
            forall|q: int| #![trigger out@[q]] 0 <= q < out@.len() ==> exists|m: int| 0 <= m < k && #[trigger] entries@[m] == out@[q],
        decreases entries.len() - k,
    {
        let e = entries[k];
        let ghost prev = entries@.subrange(0, k as int);
        let ghost next = entries@.subrange(0, k + 1);
        let ghost before = out@;
        assert(next =~= prev.push(e));
        if e.target != target {
            out.push(e);
        }
        proof {
            assert forall|u: usize| u != target implies (names_target(out@, u) <==> names_target(
                next,
                u,
            )) by {
                if names_target(next, u) {
                    let j = choose|j: int| 0 <= j < next.len() && #[trigger] next[j].target == u;
                    if j < prev.len() {
                        assert(prev[j].target == u);
                        assert(names_target(prev, u));
                        assert(names_target(before, u));
                        let t = choose|t: int| 0 <= t < before.len() && #[trigger] before[t].target == u;
                        assert(out@[t] == before[t]);
                        assert(out@[t].target == u);
                    } else {
                        assert(out@[out@.len() - 1].target == u);
                    }
                }
                if names_target(out@, u) {
                    let j = choose|j: int| 0 <= j < out@.len() && #[trigger] out@[j].target == u;
                    if j < before.len() {
                        assert(out@[j] == before[j]);
                        assert(before[j].target == u);
                        assert(names_target(before, u));
                        assert(names_target(prev, u));
                        let t = choose|t: int| 0 <= t < prev.len() && #[trigger] prev[t].target == u;
                        assert(next[t] == prev[t]);
                        assert(next[t].target == u);
                    } else {
                        assert(next[k as int].target == u);
                    }
                }
            }
            if names_target(next, target) {
                if !names_target(prev, target) {
                    let j = choose|j: int| 0 <= j < next.len() && #[trigger] next[j].target == target;
                    assert(j == k);
                }
            }
        }
        proof {
            assert(out@ =~= (if e.target != target { before.push(e) } else { before }));
            assert forall|q: int| #![trigger out@[q]] 0 <= q < out@.len() implies exists|m: int| 0 <= m < k + 1 && #[trigger] entries@[m] == out@[q] by {
                if q < before.len() {
                    assert(out@[q] == before[q]);
                    let m = choose|m: int| 0 <= m < k && #[trigger] entries@[m] == before[q];
                } else {
                    assert(entries@[k as int] == out@[q]);
                }
            }
            if ordered_by_x(entries@) {
                assert forall|q: int, m: int| 0 <= q < out@.len() && k + 1 <= m < entries@.len()
                    implies x_le(#[trigger] out@[q].x, #[trigger] entries@[m].x) by {
                    if q < before.len() {
                        assert(out@[q] == before[q]);
                        assert(x_le(before[q].x, entries@[m].x));
                    } else {
                        assert(entries@[k as int] == out@[q]);
                        assert(x_le(entries@[k as int].x, entries@[m].x));
                    }
                }
                assert forall|a: int, b: int| 0 <= a < b < out@.len() implies x_le(#[trigger] out@[a].x, #[trigger] out@[b].x) by {
                    if b < before.len() {
                        assert(out@[a] == before[a] && out@[b] == before[b]);
                    } else {
                        assert(out@[a] == before[a]);
                        assert(x_le(before[a].x, entries@[k as int].x));
                    }
                }
            }
            assert forall|x: JumpTableEntry| out@.contains(x) <==> (next.contains(x) && x.target != target) by {
                if out@.contains(x) {
                    let u = choose|u: int| 0 <= u < out@.len() && out@[u] == x;
                    if u < before.len() {
                        assert(before[u] == x);
                        assert(before.contains(x));
                        let w = choose|w: int| 0 <= w < prev.len() && prev[w] == x;
                        assert(next[w] == x);
                    } else {
                        assert(next[k as int] == x);
                    }
                }
                if next.contains(x) && x.target != target {
                    let w = choose|w: int| 0 <= w < next.len() && next[w] == x;
                    if w < prev.len() {
                        assert(prev[w] == x);
                        assert(prev.contains(x));
                        assert(before.contains(x));
                        let u = choose|u: int| 0 <= u < before.len() && before[u] == x;
                        assert(out@[u] == before[u]);
                        assert(out@[u] == x);
                    } else {
                        assert(out@[out@.len() - 1] == x);
                    }
                }
            }
        }
        k += 1;
    }
    assert(entries@.subrange(0, entries@.len() as int) =~= entries@);
    out
}

/// The number of callers of a target, after a caller's entries change from
/// `old_entries` to `new_entries`.
proof fn lemma_callers_update(
    ja: Map<usize, Vec<JumpTableEntry>>,
    caller: usize,
    entries: Vec<JumpTableEntry>,
    t: usize,
)
    requires
        ja.dom().finite(),
    ensures
        ({
            let named_before = ja.contains_key(caller) && names_target(ja[caller]@, t);
            let names_now = names_target(entries@, t);
            let before = callers_of(ja, t);
            let after = callers_of(ja.insert(caller, entries), t);
            &&& after.finite()
            &&& before.finite()
            &&& (named_before == names_now ==> after.len() == before.len())
            &&& (!named_before && names_now ==> after.len() == before.len() + 1)
            &&& (named_before && !names_now ==> after.len() + 1 == before.len())
        }),
{
    let named_before = ja.contains_key(caller) && names_target(ja[caller]@, t);
    let names_now = names_target(entries@, t);
    let before = callers_of(ja, t);
    let ja2 = ja.insert(caller, entries);
    let after = callers_of(ja2, t);
    assert(before.finite()) by {
        assert(before.subset_of(ja.dom()));
        vstd::set_lib::lemma_len_subset(before, ja.dom());
    }
    assert(ja2.dom().finite());
    assert(after.finite()) by {
        vstd::set_lib::lemma_len_subset(after, ja2.dom());
    }
    if named_before == names_now {
        assert(after =~= before);
    } else if !named_before && names_now {
        assert(after =~= before.insert(caller));
    } else {
        assert(after =~= before.remove(caller));
    }
}

/// Removing a caller changes only the counts of the targets it named.
proof fn lemma_callers_remove(ja: Map<usize, Vec<JumpTableEntry>>, caller: usize, t: usize)
    requires
        ja.dom().finite(),
        ja.contains_key(caller),
        ja[caller]@.len() == 0,
    ensures
        callers_of(ja.remove(caller), t) == callers_of(ja, t),
{
    assert(!names_target(ja[caller]@, t));
    assert(callers_of(ja.remove(caller), t) =~= callers_of(ja, t));
}

impl Analysis {
    /// Add a jump assertion: the caller jumps to `target_pc` when X holds `x`
    /// (if relevant). A target that the caller did not name yet counts one
    /// more caller.
    pub fn add_jump_assertion(&mut self, caller_pc: usize, target_pc: Option<usize>, x: Option<usize>)
        requires
            old(self).wf(),
        ensures
            final(self).wf(),
            final(self).instructions@ == old(self).instructions@,
            final(self).subroutines@ == old(self).subroutines@,
            final(self).rom == old(self).rom,
            final(self).steps_left == old(self).steps_left,
            final(self).instruction_assertions@ == old(self).instruction_assertions@,
            final(self).subroutine_assertions@ == old(self).subroutine_assertions@,
            final(self).jump_assertions@.dom() == old(self).jump_assertions@.dom().insert(caller_pc),
            forall|c: usize| c != caller_pc ==> #[trigger] final(self).jump_assertions@[c] == old(self).jump_assertions@[c],
            target_pc matches Some(t) ==> final(self).jump_assertions@[caller_pc]@.contains(
                JumpTableEntry { x, target: t },
            ),
            target_pc matches Some(t) ==> forall|e: JumpTableEntry|
                final(self).jump_assertions@[caller_pc]@.contains(e) <==> (e == JumpTableEntry { x, target: t } || (
                old(self).jump_assertions@.contains_key(caller_pc) && old(self).jump_assertions@[caller_pc]@.contains(e))),
            target_pc is None ==> final(self).jump_table_targets@ == old(self).jump_table_targets@
                && final(self).jump_assertions@[caller_pc]@ == (if old(self).jump_assertions@.contains_key(caller_pc) {
                    old(self).jump_assertions@[caller_pc]@
                } else {
                    Seq::<JumpTableEntry>::empty()
                }),
    {
        let mut entries = match self.jump_assertions.remove(&caller_pc) {
            Some(v) => v,
            None => Vec::new(),
        };
        let ghost ja = old(self).jump_assertions@;
        assert(self.jump_assertions@ == ja.remove(caller_pc));
        let target = match target_pc {
            None => {
                let ghost e = entries;
                self.jump_assertions.insert(caller_pc, entries);
                proof {
                    assert(ja.contains_key(caller_pc) ==> e == ja[caller_pc]);
                    assert forall|t: usize| #[trigger] callers_of(self.jump_assertions@, t) == callers_of(ja, t) by {
                        if !ja.contains_key(caller_pc) {
                            assert(!names_target(e@, t));
                        }
                        assert(callers_of(self.jump_assertions@, t) =~= callers_of(ja, t));
                    }
                    Self::lemma_registry_frame(*old(self), *self);
                }
                return;
            },
            Some(t) => t,
        };
        let had = has_target(&entries, target);
        let entry = JumpTableEntry { x, target };
        proof {
            if ja.contains_key(caller_pc) {
                assert(old(self).jump_assertions@.contains_key(caller_pc));
                assert(ordered_by_x(ja[caller_pc]@));
            }
        }
        assert(ordered_by_x(entries@));
        let mut present = false;
        let mut pos: usize = entries.len();
        let mut k: usize = 0;
        while k < entries.len()
            invariant
                k <= entries@.len(),
                pos <= entries@.len(),
                present ==> entries@.contains(entry),
                ordered_by_x(entries@),
                pos == entries@.len() ==> forall|m: int| 0 <= m < k ==> !x_before_spec(x, #[trigger] entries@[m].x),
                pos < entries@.len() ==> pos < k && x_before_spec(x, entries@[pos as int].x) && forall|m: int|
                    0 <= m < pos ==> !x_before_spec(x, #[trigger] entries@[m].x),
            decreases entries.len() - k,
        {
            if entries[k] == entry {
                present = true;
            }
            if pos == entries.len() && x_before(x, entries[k].x) {
                pos = k;
            }
            k += 1;
        }
        let ghost old_entries = entries@;
        if !present {
            entries.insert(pos, entry);
            assert(entries@[pos as int] == entry);
            assert(ordered_by_x(entries@)) by {
                assert forall|a: int, b: int| 0 <= a < b < entries@.len() implies x_le(#[trigger] entries@[a].x, #[trigger] entries@[b].x) by {
                    if b < pos {
                        assert(entries@[a] == old_entries[a] && entries@[b] == old_entries[b]);
                    } else if b == pos {
                        assert(entries@[a] == old_entries[a]);
                        assert(!x_before_spec(x, old_entries[a].x));
                    } else if a == pos {
                        assert(entries@[b] == old_entries[b - 1]);
                        assert(x_before_spec(x, old_entries[pos as int].x));
                        if b - 1 > pos {
                            assert(x_le(old_entries[pos as int].x, old_entries[b - 1].x));
                        }
                    } else if a < pos {
                        assert(entries@[a] == old_entries[a] && entries@[b] == old_entries[b - 1]);
                    } else {
                        assert(entries@[a] == old_entries[a - 1] && entries@[b] == old_entries[b - 1]);
                    }
                }
            }
        }
        assert(ordered_by_x(entries@));
        assert(entries@.contains(entry));
        assert forall|e: JumpTableEntry| entries@.contains(e) <==> (e == entry || old_entries.contains(e)) by {
            if !present {
                if entries@.contains(e) && e != entry {
                    let j = choose|j: int| 0 <= j < entries@.len() && entries@[j] == e;
                    if j < pos {
                        assert(old_entries[j] == e);
                    } else {
                        assert(j != pos);
                        assert(old_entries[j - 1] == e);
                    }
                }
                if old_entries.contains(e) {
                    let j = choose|j: int| 0 <= j < old_entries.len() && old_entries[j] == e;
                    if j < pos {
                        assert(entries@[j] == e);
                    } else {
                        assert(entries@[j + 1] == e);
                    }
                }
            }
        }
        assert(names_target(entries@, target)) by {
            let j = choose|j: int| 0 <= j < entries@.len() && entries@[j] == entry;
            assert(entries@[j].target == target);
        }
        assert forall|u: usize| u != target implies (names_target(entries@, u) <==> names_target(old_entries, u)) by {
            if !present {
                if names_target(entries@, u) {
                    let j = choose|j: int| 0 <= j < entries@.len() && #[trigger] entries@[j].target == u;
                    if j < pos {
                        assert(old_entries[j].target == u);
                    } else {
                        assert(j != pos);
                        assert(old_entries[j - 1].target == u);
                    }
                }
                if names_target(old_entries, u) {
                    let j = choose|j: int| 0 <= j < old_entries.len() && #[trigger] old_entries[j].target == u;
                    if j < pos {
                        assert(entries@[j].target == u);
                    } else {
                        assert(entries@[j + 1].target == u);
                    }
                }
            }
        }
        let ghost e = entries;
        self.jump_assertions.insert(caller_pc, entries);
        let n_callers = self.jump_assertions.len();
        proof {
            assert(ja.contains_key(caller_pc) ==> old_entries == ja[caller_pc]@);
            assert(self.jump_assertions@ == ja.insert(caller_pc, e));
            assert forall|u: usize| u != target implies #[trigger] callers_of(self.jump_assertions@, u) == callers_of(ja, u) by {
                if !ja.contains_key(caller_pc) {
                    assert(!names_target(old_entries, u));
                }
                assert(callers_of(self.jump_assertions@, u) =~= callers_of(ja, u));
            }
            lemma_callers_update(ja, caller_pc, e, target);
            let after = callers_of(self.jump_assertions@, target);
            vstd::set_lib::lemma_len_subset(after, self.jump_assertions@.dom());
        }
        if !had {
            let n = match self.jump_table_targets.get(&target) {
                Some(n) => *n,
                None => 0,
            };
            proof {
                let before = callers_of(ja, target);
                assert(!ja.contains_key(caller_pc) || !names_target(ja[caller_pc]@, target));
                assert(n == before.len());
            }
            self.jump_table_targets.insert(target, n + 1);
        }
        proof {
            Self::lemma_registry_frame(*old(self), *self);
        }
    }
    /// Remove the jump assertions of a caller that name `target_pc`, or all
    /// of the caller's jump assertions when no target is given.
    pub fn del_jump_assertion(&mut self, caller_pc: usize, target_pc: Option<usize>)
        requires
            old(self).wf(),
        ensures
            final(self).wf(),
            final(self).instructions@ == old(self).instructions@,
            final(self).subroutines@ == old(self).subroutines@,
            final(self).rom == old(self).rom,
            final(self).steps_left == old(self).steps_left,
            final(self).instruction_assertions@ == old(self).instruction_assertions@,
            final(self).subroutine_assertions@ == old(self).subroutine_assertions@,
            forall|c: usize| c != caller_pc ==> (#[trigger] final(self).jump_assertions@.contains_key(c)
                == old(self).jump_assertions@.contains_key(c)),
            target_pc is None ==> !final(self).jump_assertions@.contains_key(caller_pc),
            target_pc matches Some(t) ==> (final(self).jump_assertions@.contains_key(caller_pc)
                ==> !names_target(final(self).jump_assertions@[caller_pc]@, t)),
            forall|c: usize| c != caller_pc && old(self).jump_assertions@.contains_key(c)
                ==> #[trigger] final(self).jump_assertions@[c] == old(self).jump_assertions@[c],
            target_pc matches Some(t) ==> (final(self).jump_assertions@.contains_key(caller_pc) ==> final(self).jump_assertions@[caller_pc]@.len() > 0 && forall|e: JumpTableEntry|
                final(self).jump_assertions@[caller_pc]@.contains(e) <==> (old(self).jump_assertions@[caller_pc]@.contains(e)
                    && e.target != t)),
        decreases (if old(self).jump_assertions@.contains_key(caller_pc) {
            old(self).jump_assertions@[caller_pc]@.len()
        } else {
            0
        }), (if target_pc is None { 1nat } else { 0nat }),
    {
        match target_pc {
            Some(target) => self.del_jump_target(caller_pc, target),
            None => {
                if let Some(entries) = self.jump_assertions.get(&caller_pc) {
                    if entries.len() == 0 {
                        let ghost ja = self.jump_assertions@;
                        self.jump_assertions.remove(&caller_pc);
                        proof {
                            assert forall|t: usize| #[trigger] callers_of(self.jump_assertions@, t) == callers_of(ja, t) by {
                                lemma_callers_remove(ja, caller_pc, t);
                            }
                        }
                    } else {
                        let t = entries[0].target;
                        assert(names_target(entries@, t));
                        self.del_jump_target(caller_pc, t);
                        self.del_jump_assertion(caller_pc, None);
                    }
                }
            },
        }
    }

    /// Remove the jump assertions of a caller that name `target`.
    fn del_jump_target(&mut self, caller_pc: usize, target: usize)
        requires
            old(self).wf(),
        ensures
            final(self).wf(),
            final(self).instructions@ == old(self).instructions@,
            final(self).subroutines@ == old(self).subroutines@,
            final(self).rom == old(self).rom,
            final(self).steps_left == old(self).steps_left,
            final(self).instruction_assertions@ == old(self).instruction_assertions@,
            final(self).subroutine_assertions@ == old(self).subroutine_assertions@,
            forall|c: usize| c != caller_pc ==> (#[trigger] final(self).jump_assertions@.contains_key(c)
                == old(self).jump_assertions@.contains_key(c)),
            final(self).jump_assertions@.contains_key(caller_pc) ==> old(self).jump_assertions@.contains_key(caller_pc)
                && !names_target(final(self).jump_assertions@[caller_pc]@, target)
                && final(self).jump_assertions@[caller_pc]@.len() <= old(self).jump_assertions@[caller_pc]@.len()
                && (names_target(old(self).jump_assertions@[caller_pc]@, target) ==>
                    final(self).jump_assertions@[caller_pc]@.len() < old(self).jump_assertions@[caller_pc]@.len()),
            forall|c: usize| c != caller_pc && old(self).jump_assertions@.contains_key(c)
                ==> #[trigger] final(self).jump_assertions@[c] == old(self).jump_assertions@[c],
            final(self).jump_assertions@.contains_key(caller_pc) ==> final(self).jump_assertions@[caller_pc]@.len() > 0
                && forall|e: JumpTableEntry| final(self).jump_assertions@[caller_pc]@.contains(e)
                <==> (old(self).jump_assertions@[caller_pc]@.contains(e) && e.target != target),
            old(self).jump_assertions@.contains_key(caller_pc) && !final(self).jump_assertions@.contains_key(caller_pc)
                ==> forall|e: JumpTableEntry| old(self).jump_assertions@[caller_pc]@.contains(e) ==> e.target == target,
    {
        let ghost ja = self.jump_assertions@;
        let entries = match self.jump_assertions.remove(&caller_pc) {
            None => {
                assert(self.jump_assertions@ =~= ja);
                proof {
                    Self::lemma_registry_frame(*old(self), *self);
                }
                return;
            },
            Some(v) => v,
        };
        let had = has_target(&entries, target);
        let kept = without_target(&entries, target);
        let ghost e = kept;
        let empty = kept.len() == 0;
        self.jump_assertions.insert(caller_pc, kept);
        proof {
            assert(self.jump_assertions@ == ja.insert(caller_pc, e));
            assert forall|u: usize| u != target implies #[trigger] callers_of(self.jump_assertions@, u) == callers_of(ja, u) by {
                assert(callers_of(self.jump_assertions@, u) =~= callers_of(ja, u));
            }
            lemma_callers_update(ja, caller_pc, e, target);
        }
        if had {
            let n = match self.jump_table_targets.get(&target) {
                Some(n) => *n,
                None => 0,
            };
            proof {
                assert(callers_of(ja, target).contains(caller_pc));
                assert(self.jump_table_targets@.contains_key(target));
                assert(n >= 1);
            }
            if n <= 1 {
                self.jump_table_targets.remove(&target);
            } else {
                self.jump_table_targets.insert(target, n - 1);
            }
        }
        assert(self.jump_wf());
        if empty {
            let ghost ja2 = self.jump_assertions@;
            self.jump_assertions.remove(&caller_pc);
            proof {
                assert forall|t: usize| #[trigger] callers_of(self.jump_assertions@, t) == callers_of(ja2, t) by {
                    lemma_callers_remove(ja2, caller_pc, t);
                }
            }
        }
        proof {
            Self::lemma_registry_frame(*old(self), *self);
        }
    }
}
/// Priority of an unknown reason when suggestions are made: indirect jumps
/// first, then stack manipulations, multiple return states and recursion.
pub open spec fn reason_priority(r: UnknownReason) -> u8 {
    match r {
        UnknownReason::IndirectJump => 0,
        UnknownReason::StackManipulation => 1,
        UnknownReason::MultipleReturnStates => 2,
        UnknownReason::Recursion => 3,
        _ => 4,
    }
}

/// Priority of an unknown reason when suggestions are made.
fn priority(r: UnknownReason) -> (p: u8)
    ensures
        p == reason_priority(r),
{
    match r {
        UnknownReason::IndirectJump => 0,
        UnknownReason::StackManipulation => 1,
        UnknownReason::MultipleReturnStates => 2,
        UnknownReason::Recursion => 3,
        _ => 4,
    }
}

/// Relies on `itertools::Itertools::sorted_by_key`: the same pairs, ordered
/// by their first component.
#[verifier::external_body]
fn sorted_by_priority(v: Vec<(u8, usize)>) -> (r: Vec<(u8, usize)>)
    ensures
        r@.to_multiset() == v@.to_multiset(),
        forall|i: int, j: int| 0 <= i < j < r@.len() ==> r@[i].0 <= r@[j].0,
{
    itertools::Itertools::sorted_by_key(v.into_iter(), |e| e.0).collect()
}

/// The suggestion for an instruction of a subroutine whose change at that
/// instruction is unknown for `reason`.
pub open spec fn suggestion(
    i: Instruction,
    sub: Subroutine,
    reason: UnknownReason,
    indirect: Option<IndirectJump>,
) -> Option<Assertion> {
    let combined = match sub.combined_spec() {
        Some(c) => Assertion::Subroutine(c),
        None => if sub.saves_state_spec() {
            Assertion::Subroutine(empty_change())
        } else {
            Assertion::Subroutine(i.state_change)
        },
    };
    match i.type_spec() {
        InstructionType::Call => if reason == UnknownReason::IndirectJump || reason
            == UnknownReason::MultipleReturnStates {
            Some(Assertion::Instruction(empty_change()))
        } else if reason == UnknownReason::Recursion {
            Some(combined)
        } else {
            None
        },
        InstructionType::Jump => if reason == UnknownReason::IndirectJump {
            if sub.saves_state_spec() {
                Some(Assertion::Subroutine(empty_change()))
            } else {
                Some(combined)
            }
        } else if reason == UnknownReason::Recursion {
            Some(combined)
        } else {
            None
        },
        InstructionType::Return => if reason == UnknownReason::StackManipulation {
            Some(combined)
        } else if reason == UnknownReason::IndirectJump && indirect == Some(
            IndirectJump::ReturnCall,
        ) {
            Some(Assertion::Instruction(empty_change()))
        } else if reason == UnknownReason::Recursion {
            Some(combined)
        } else {
            None
        },
        _ => if i.op_spec() == Op::PLP && reason == UnknownReason::StackManipulation {
            Some(Assertion::Instruction(empty_change()))
        } else if reason == UnknownReason::Recursion {
            Some(combined)
        } else {
            None
        },
    }
}

/// Labels of the forms that the analysis gives on its own: `sub_...`, `loc_...`.
pub open spec fn reserved_label(label: Seq<char>) -> bool {
    label.len() >= 4 && (label.subrange(0, 4) == seq!['s', 'u', 'b', '_'] || label.subrange(0, 4)
        == seq!['l', 'o', 'c', '_'])
}

impl Analysis {
    /// Analyze the ROM: walk the code from every entry point, then derive the
    /// local labels and flag the subroutines that hold assertions.
    pub fn run(&mut self)
        requires
            old(self).wf(),
        ensures
            final(self).walk_current(),
            final(self).wf(),
            final(self).same_input(*old(self)),
            forall|k: int| 0 <= k < old(self).entry_points@.len() ==> #[trigger] final(self).subroutines@.contains_key(
                old(self).entry_points@[k].pc,
            ),
            final(self).entry_points@ == old(self).entry_points@,
            final(self).steps_left > 0 ==> forall|k: int|
                0 <= k < old(self).entry_points@.len() && !is_ram_spec(old(self).entry_points@[k].pc)
                    && decodable(old(self).rom, old(self).entry_points@[k].pc, State { p: old(self).entry_points@[k].p })
                    ==> #[trigger] final(self).subroutines@[old(self).entry_points@[k].pc].instructions@.contains_key(
                    old(self).entry_points@[k].pc,
                ),
    {
        self.clear();
        self.steps_left = STEP_BUDGET;
        let n = self.entry_points.len();
        let mut k: usize = 0;
        while k < n
            invariant
                self.wf(),
                self.same_input(*old(self)),
                n == self.entry_points@.len(),
                self.entry_points@ == old(self).entry_points@,
                k <= n,
                forall|j: int| 0 <= j < k ==> #[trigger] self.subroutines@.contains_key(
                    self.entry_points@[j].pc,
                ),
                forall|j: int|
                    0 <= j < k && self.steps_left > 0 && !is_ram_spec(self.entry_points@[j].pc)
                        && decodable(self.rom, self.entry_points@[j].pc, State { p: self.entry_points@[j].p })
                        ==> #[trigger] self.subroutines@[self.entry_points@[j].pc].instructions@.contains_key(
                        self.entry_points@[j].pc,
                    ),
            decreases n - k,
        {
            let label = self.entry_points[k].label.clone();
            let pc = self.entry_points[k].pc;
            let p = self.entry_points[k].p;
            let ghost pre = *self;
            self.add_subroutine(pc, Some(label), Vec::new());
            let mut cpu = CPU::new(pc, pc, p);
            let ghost subs = self.subroutines@.dom();
            let ghost mid = *self;
            assert(subs.contains(pc));
            cpu.run(self);
            proof {
                assert forall|j: int|
                    0 <= j <= k && self.steps_left > 0 && !is_ram_spec(self.entry_points@[j].pc)
                        && decodable(self.rom, self.entry_points@[j].pc, State { p: self.entry_points@[j].p })
                        implies #[trigger] self.subroutines@[self.entry_points@[j].pc].instructions@.contains_key(
                        self.entry_points@[j].pc,
                    ) by {
                    let e = self.entry_points@[j];
                    if j == k {
                        assert(recorded(self.instructions@, pc, pc, p));
                        assert(self.visited_wf(pc));
                        let w = self.instructions@[pc]@;
                        let i = choose|i: int| 0 <= i < w.len() && (#[trigger] w[i]).subroutine == pc && w[i].state.p == p;
                        assert(w[i].pc == pc);
                    } else {
                        assert(pre.steps_left > 0);
                        assert(pre.subroutines@[e.pc].instructions@.contains_key(e.pc));
                        assert(mid.subroutines@[e.pc].instructions@.contains_key(e.pc));
                    }
                }
                assert forall|j: int| 0 <= j <= k implies #[trigger] self.subroutines@.contains_key(
                    self.entry_points@[j].pc,
                ) by {
                    assert(subs.contains(self.entry_points@[j].pc));
                }
            }
            k += 1;
        }
        let ghost walked = *self;
        self.generate_local_labels();
        self.generate_asserted_subroutines();
        proof {
            assert forall|k: int|
                0 <= k < old(self).entry_points@.len() && self.steps_left > 0 && !is_ram_spec(old(self).entry_points@[k].pc)
                    && decodable(old(self).rom, old(self).entry_points@[k].pc, State { p: old(self).entry_points@[k].p })
                    implies #[trigger] self.subroutines@[old(self).entry_points@[k].pc].instructions@.contains_key(
                    old(self).entry_points@[k].pc,
                ) by {
                let e = old(self).entry_points@[k];
                assert(walked.entry_points@[k] == e);
                assert(walked.subroutines@[e.pc].instructions@.contains_key(e.pc));
            }
        }
        self.walked = Ghost(self.record());
    }

    /// Analyze, and apply suggested assertions as far as possible: repeat
    /// until a whole pass applies none.
    pub fn auto_run(&mut self) -> (settled: bool)
        requires
            old(self).wf(),
        ensures
            final(self).wf(),
            final(self).rom == old(self).rom,
            final(self).entry_points@ == old(self).entry_points@,
            forall|k: int| 0 <= k < old(self).entry_points@.len() ==> #[trigger] final(self).subroutines@.contains_key(
                old(self).entry_points@[k].pc,
            ),
            final(self).assertions_grow_from(*old(self)),
            forall|t: usize, q: usize| #[trigger] has_pair(final(self).subroutine_assertions@, t, q)
                ==> has_pair(old(self).subroutine_assertions@, t, q) || final(self).placed(t, q),
            settled ==> final(self).walk_current(),
            settled ==> forall|s: usize, pc: usize| #[trigger] final(self).suggestion_at(s, pc) is None,
    {
        // Every pass walks the code, drops the subroutine assertions that it
        // added before and that no longer stand at an instruction of their
        // subroutine, and applies the suggestions. The bound on the number of
        // passes only makes their end visible.
        let kept = self.subroutine_assertions.clone();
        let mut settled = false;
        let mut passes: u64 = 0;
        while !settled && passes < STEP_BUDGET
            invariant
                self.wf(),
                self.rom == old(self).rom,
                self.entry_points@ == old(self).entry_points@,
                kept@ == old(self).subroutine_assertions@,
                passes > 0 || !settled,
                passes > 0 ==> forall|k: int| 0 <= k < self.entry_points@.len() ==> #[trigger] self.subroutines@.contains_key(
                    self.entry_points@[k].pc,
                ),
                passes == 0 ==> *self == *old(self),
                self.assertions_grow_from(*old(self)),
                forall|t: usize, q: usize| #[trigger] has_pair(self.subroutine_assertions@, t, q)
                    ==> has_pair(kept@, t, q) || self.placed(t, q),
                settled ==> self.walk_current(),
                settled ==> forall|s: usize, pc: usize| #[trigger] self.suggestion_at(s, pc) is None,
            decreases STEP_BUDGET - passes,
        {
            passes += 1;
            let ghost start = *self;
            self.run();
            let ghost after_run = *self;
            let removed = self.prune_unplaced(&kept);
            proof {
                assert forall|pc: usize| #[trigger] old(self).instruction_assertions@.contains_key(pc)
                    implies self.instruction_assertions@.contains_key(pc) by {
                    assert(start.instruction_assertions@.contains_key(pc));
                }
                assert forall|t: usize, q: usize|
                    old(self).subroutine_assertions@.contains_key(t) && #[trigger] old(self).subroutine_assertions@[t]@.contains_key(q)
                    implies self.subroutine_assertions@.contains_key(t) && self.subroutine_assertions@[t]@.contains_key(q) by {
                    assert(has_pair(kept@, t, q));
                    assert(has_pair(start.subroutine_assertions@, t, q));
                    assert(has_pair(after_run.subroutine_assertions@, t, q));
                    assert(has_pair(self.subroutine_assertions@, t, q));
                }
            }
            if !removed {
                let mut applied = false;
                let ghost walked_state = *self;
                let subs = keys_of(&self.subroutines);
                let mut s: usize = 0;
                while s < subs.len()
                    invariant
                        self.wf(),
                        self.rom == old(self).rom,
                        self.entry_points@ == old(self).entry_points@,
                        kept@ == old(self).subroutine_assertions@,
                        forall|k: int| 0 <= k < self.entry_points@.len() ==> #[trigger] self.subroutines@.contains_key(
                            self.entry_points@[k].pc,
                        ),
                        self.assertions_grow_from(*old(self)),
                        forall|t: usize, q: usize| #[trigger] has_pair(self.subroutine_assertions@, t, q)
                            ==> has_pair(kept@, t, q) || self.placed(t, q),
                        self.subroutines@ == walked_state.subroutines@,
                        walked_state.walk_current(),
                        subs@.to_set() == walked_state.subroutines@.dom(),
                        !applied ==> *self == walked_state,
                        !applied ==> forall|j: int, pc: usize|
                            0 <= j < s ==> #[trigger] self.suggestion_at(subs@[j], pc) is None,
                    decreases subs.len() - s,
                {
                    let sub_pc = subs[s];
                    let suggestions = self.collect_suggestions(sub_pc);
                    let ghost pre = *self;
                    let ghost applied_pre = applied;
                    let mut t: usize = 0;
                    while t < suggestions.len()
                        invariant
                            self.wf(),
                            self.rom == old(self).rom,
                            self.entry_points@ == old(self).entry_points@,
                            kept@ == old(self).subroutine_assertions@,
                            forall|k: int| 0 <= k < self.entry_points@.len() ==> #[trigger] self.subroutines@.contains_key(
                                self.entry_points@[k].pc,
                            ),
                            self.assertions_grow_from(*old(self)),
                            forall|a: usize, q: usize| #[trigger] has_pair(self.subroutine_assertions@, a, q)
                                ==> has_pair(kept@, a, q) || self.placed(a, q),
                            self.subroutines@ == pre.subroutines@,
                            forall|k: int| 0 <= k < suggestions@.len() ==> pre.suggestion_at(sub_pc, #[trigger] suggestions@[k].0)
                                == Some(suggestions@[k].1),
                            t > 0 ==> applied,
                            t == 0 ==> *self == pre && applied == applied_pre,
                        decreases suggestions.len() - t,
                    {
                        let (pc, assertion) = suggestions[t];
                        let ghost before = *self;
                        assert(pre.suggestion_at(sub_pc, suggestions@[t as int].0) == Some(suggestions@[t as int].1));
                        assert(pre.placed(sub_pc, pc));
                        match assertion {
                            Assertion::Instruction(c) => self.add_instruction_assertion(pc, c),
                            Assertion::Subroutine(c) => self.add_subroutine_assertion(sub_pc, pc, c),
                        }
                        proof {
                            Self::lemma_assertions_grow_trans(*old(self), before, *self);
                            assert forall|a: usize, q: usize| #[trigger] has_pair(self.subroutine_assertions@, a, q)
                                implies has_pair(kept@, a, q) || self.placed(a, q) by {
                                if !(a == sub_pc && q == pc) {
                                    assert(has_pair(before.subroutine_assertions@, a, q));
                                }
                            }
                        }
                        applied = true;
                        t += 1;
                    }
                    proof {
                        if !applied {
                            assert(suggestions@.len() == 0);
                            assert forall|j: int, pc: usize| 0 <= j < s + 1 implies #[trigger] self.suggestion_at(subs@[j], pc) is None by {
                                if j == s {
                                    assert(!(self.suggestion_at(sub_pc, pc) is Some));
                                }
                            }
                        }
                    }
                    s += 1;
                }
                if !applied {
                    settled = true;
                    proof {
                        assert forall|t: usize, pc: usize| #[trigger] self.suggestion_at(t, pc) is None by {
                            if self.subroutines@.contains_key(t) {
                                assert(subs@.to_set().contains(t));
                                let j = choose|j: int| 0 <= j < subs@.len() && subs@[j] == t;
                                assert(self.suggestion_at(subs@[j], pc) is None);
                            }
                        }
                    }
                }
            }
        }
        settled
    }

    /// Every assertion of `before` is still there (its value may change).
    pub open spec fn assertions_grow_from(self, before: Analysis) -> bool {
        &&& forall|pc: usize| #[trigger] before.instruction_assertions@.contains_key(pc)
            ==> self.instruction_assertions@.contains_key(pc)
        &&& forall|s: usize, pc: usize|
            before.subroutine_assertions@.contains_key(s) && #[trigger] before.subroutine_assertions@[s]@.contains_key(pc)
                ==> self.subroutine_assertions@.contains_key(s) && self.subroutine_assertions@[s]@.contains_key(pc)
    }

    /// Growth of the assertion tables composes.
    proof fn lemma_assertions_grow_trans(a: Analysis, b: Analysis, c: Analysis)
        requires
            b.assertions_grow_from(a),
            c.assertions_grow_from(b),
        ensures
            c.assertions_grow_from(a),
    {
        assert forall|s: usize, pc: usize|
            a.subroutine_assertions@.contains_key(s) && #[trigger] a.subroutine_assertions@[s]@.contains_key(pc)
            implies c.subroutine_assertions@.contains_key(s) && c.subroutine_assertions@[s]@.contains_key(pc) by {
            assert(b.subroutine_assertions@[s]@.contains_key(pc));
        }
    }

    /// Whether the instruction at `pc` belongs to subroutine `s`.
    pub open spec fn placed(self, s: usize, pc: usize) -> bool {
        self.subroutines@.contains_key(s) && self.subroutines@[s].instructions@.contains_key(pc)
    }

    /// Remove every subroutine assertion that is not in `kept` and does not
    /// stand at an instruction of its subroutine; return whether any was.
    fn prune_unplaced(&mut self, kept: &BTreeMap<usize, BTreeMap<usize, StateChange>>) -> (removed: bool)
        requires
            old(self).wf(),
        ensures
            final(self).wf(),
            final(self).instructions@ == old(self).instructions@,
            final(self).subroutines@ == old(self).subroutines@,
            final(self).references@ == old(self).references@,
            final(self).instruction_assertions@ == old(self).instruction_assertions@,
            final(self).jump_assertions@ == old(self).jump_assertions@,
            final(self).rom == old(self).rom,
            final(self).entry_points@ == old(self).entry_points@,
            final(self).steps_left == old(self).steps_left,
            final(self).walked == old(self).walked,
            forall|t: usize, q: usize| #[trigger] has_pair(final(self).subroutine_assertions@, t, q)
                <==> has_pair(old(self).subroutine_assertions@, t, q) && (has_pair(kept@, t, q) || old(self).placed(t, q)),
            !removed ==> final(self).subroutine_assertions@ == old(self).subroutine_assertions@,
    {
        let ghost sa0 = self.subroutine_assertions@;
        let outer = keys_of(&self.subroutine_assertions);
        let mut removed = false;
        let mut i: usize = 0;
        while i < outer.len()
            invariant
                self.wf(),
                self.instructions@ == old(self).instructions@,
                self.subroutines@ == old(self).subroutines@,
                self.references@ == old(self).references@,
                self.instruction_assertions@ == old(self).instruction_assertions@,
                self.jump_assertions@ == old(self).jump_assertions@,
                self.rom == old(self).rom,
                self.entry_points@ == old(self).entry_points@,
                self.steps_left == old(self).steps_left,
                self.walked == old(self).walked,
                sa0 == old(self).subroutine_assertions@,
                i <= outer@.len(),
                outer@.to_set() == sa0.dom(),
                outer@.no_duplicates(),
                forall|t: usize, q: usize| #[trigger] has_pair(self.subroutine_assertions@, t, q)
                    <==> has_pair(sa0, t, q) && (outer@.subrange(0, i as int).contains(t) ==> (has_pair(kept@, t, q) || old(self).placed(t, q))),
                !removed ==> self.subroutine_assertions@ == sa0,
            decreases outer.len() - i,
        {
            let t = outer[i];
            assert(outer@.to_set().contains(t));
            assert(!outer@.subrange(0, i as int).contains(t)) by {
                if outer@.subrange(0, i as int).contains(t) {
                    let j = choose|j: int| 0 <= j < i && outer@.subrange(0, i as int)[j] == t;
                    assert(outer@[j] == outer@[i as int]);
                }
            }
            let inner = match self.subroutine_assertions.get(&t) {
                Some(m) => keys_of(m),
                None => Vec::new(),
            };
            proof {
                assert forall|q: usize| inner@.to_set().contains(q) <==> has_pair(sa0, t, q) by {
                    assert(has_pair(self.subroutine_assertions@, t, q) == has_pair(sa0, t, q));
                }
            }
            let mut k: usize = 0;
            while k < inner.len()
                invariant
                    self.wf(),
                    self.instructions@ == old(self).instructions@,
                    self.subroutines@ == old(self).subroutines@,
                    self.references@ == old(self).references@,
                    self.instruction_assertions@ == old(self).instruction_assertions@,
                    self.jump_assertions@ == old(self).jump_assertions@,
                    self.rom == old(self).rom,
                    self.entry_points@ == old(self).entry_points@,
                    self.steps_left == old(self).steps_left,
                    self.walked == old(self).walked,
                    sa0 == old(self).subroutine_assertions@,
                    k <= inner@.len(),
                    i < outer@.len(),
                    t == outer@[i as int],
                    !outer@.subrange(0, i as int).contains(t),
                    forall|q: usize| inner@.to_set().contains(q) <==> has_pair(sa0, t, q),
                    forall|u: usize, q: usize| #[trigger] has_pair(self.subroutine_assertions@, u, q)
                        <==> has_pair(sa0, u, q) && ((outer@.subrange(0, i as int).contains(u) || (u == t && inner@.subrange(0, k as int).contains(q)))
                            ==> (has_pair(kept@, u, q) || old(self).placed(u, q))),
                    !removed ==> self.subroutine_assertions@ == sa0,
                decreases inner.len() - k,
            {
                let q = inner[k];
                let in_kept = match kept.get(&t) {
                    Some(m) => m.contains_key(&q),
                    None => false,
                };
                let here = match self.subroutines.get(&t) {
                    Some(sub) => sub.instructions.contains_key(&q),
                    None => false,
                };
                let ghost pre = *self;
                if !in_kept && !here {
                    self.del_subroutine_assertion(t, q);
                    removed = true;
                    proof {
                        Self::lemma_registry_frame(pre, *self);
                    }
                }
                proof {
                    let ik = inner@.subrange(0, k as int);
                    let ik1 = inner@.subrange(0, k + 1);
                    assert(ik1 =~= ik.push(q));
                    assert forall|u: usize, r: usize| #[trigger] has_pair(self.subroutine_assertions@, u, r)
                        <==> has_pair(sa0, u, r) && ((outer@.subrange(0, i as int).contains(u) || (u == t && ik1.contains(r)))
                            ==> (has_pair(kept@, u, r) || old(self).placed(u, r))) by {
                        assert(has_pair(pre.subroutine_assertions@, u, r) <==> has_pair(sa0, u, r) && ((outer@.subrange(0, i as int).contains(u) || (u == t && ik.contains(r)))
                            ==> (has_pair(kept@, u, r) || old(self).placed(u, r))));
                        assert(ik1.contains(r) <==> (ik.contains(r) || r == q)) by {
                            if ik1.contains(r) {
                                let w = choose|w: int| 0 <= w < ik1.len() && ik1[w] == r;
                                if w < ik.len() {
                                    assert(ik[w] == r);
                                }
                            }
                            if ik.contains(r) {
                                let w = choose|w: int| 0 <= w < ik.len() && ik[w] == r;
                                assert(ik1[w] == r);
                            }
                            if r == q {
                                assert(ik1[k as int] == q);
                            }
                        }
                    }
                }
                k += 1;
            }
            proof {
                let oi = outer@.subrange(0, i as int);
                let oi1 = outer@.subrange(0, i + 1);
                assert(oi1 =~= oi.push(t));
                assert(inner@.subrange(0, inner@.len() as int) =~= inner@);
                assert forall|u: usize, q: usize| #[trigger] has_pair(self.subroutine_assertions@, u, q)
                    <==> has_pair(sa0, u, q) && (oi1.contains(u) ==> (has_pair(kept@, u, q) || old(self).placed(u, q))) by {
                    assert(oi1.contains(u) <==> (oi.contains(u) || u == t)) by {
                        if oi1.contains(u) {
                            let w = choose|w: int| 0 <= w < oi1.len() && oi1[w] == u;
                            if w < oi.len() {
                                assert(oi[w] == u);
                            }
                        }
                        if oi.contains(u) {
                            let w = choose|w: int| 0 <= w < oi.len() && oi[w] == u;
                            assert(oi1[w] == u);
                        }
                        if u == t {
                            assert(oi1[i as int] == t);
                        }
                    }
                    if u == t && has_pair(sa0, u, q) {
                        assert(inner@.to_set().contains(q));
                    }
                }
            }
            i += 1;
        }
        proof {
            assert(outer@.subrange(0, outer@.len() as int) =~= outer@);
            assert forall|t: usize, q: usize| #[trigger] has_pair(self.subroutine_assertions@, t, q)
                <==> has_pair(sa0, t, q) && (has_pair(kept@, t, q) || old(self).placed(t, q)) by {
                if has_pair(sa0, t, q) {
                    assert(outer@.to_set().contains(t));
                }
            }
        }
        removed
    }

    /// Whether an assertion already targets the instruction at `pc` of subroutine `s`.
    pub open spec fn asserted_at(self, s: usize, pc: usize) -> bool {
        self.instruction_assertions@.contains_key(pc) || (self.subroutine_assertions@.contains_key(s)
            && self.subroutine_assertions@[s]@.contains_key(pc))
    }

    /// The assertion that the analysis suggests at `pc` in subroutine `s`, if
    /// any: `s` is responsible for an unknown change at an instruction `pc`
    /// that no assertion targets yet.
    pub open spec fn suggestion_at(self, s: usize, pc: usize) -> Option<Assertion> {
        if self.subroutines@.contains_key(s) && self.subroutines@[s].has_unknown()
            && !self.subroutines@[s].unknown_because_of(UnknownReason::Unknown)
            && self.subroutines@[s].unknown_state_changes@.contains_key(pc)
            && self.subroutines@[s].instructions@.contains_key(pc) && !self.asserted_at(s, pc) {
            suggestion(
                self.subroutines@[s].instructions@[pc],
                self.subroutines@[s],
                self.subroutines@[s].unknown_state_changes@[pc].unknown_reason,
                if self.indirect_jumps@.contains_key(pc) {
                    Some(self.indirect_jumps@[pc])
                } else {
                    None
                },
            )
        } else {
            None
        }
    }

    /// The suggestions for the unknown changes of a subroutine that is
    /// responsible for them, by priority of their reasons (indirect jumps,
    /// stack manipulations, multiple return states, recursion, the rest).
    pub fn collect_suggestions(&self, sub_pc: usize) -> (r: Vec<(usize, Assertion)>)
        requires
            self.wf(),
        ensures
            forall|k: int| 0 <= k < r@.len() ==> self.suggestion_at(sub_pc, #[trigger] r@[k].0) == Some(r@[k].1),
            forall|pc: usize| #[trigger] self.suggestion_at(sub_pc, pc) is Some ==> r@.len() > 0,
            forall|i: int, j: int| 0 <= i < j < r@.len() ==> reason_priority(
                self.subroutines@[sub_pc].unknown_state_changes@[#[trigger] r@[i].0].unknown_reason,
            ) <= reason_priority(self.subroutines@[sub_pc].unknown_state_changes@[#[trigger] r@[j].0].unknown_reason),
    {
        let mut out: Vec<(usize, Assertion)> = Vec::new();
        let sub = match self.subroutines.get(&sub_pc) {
            Some(s) => s,
            None => return out,
        };
        if !sub.is_responsible_for_unknown() {
            return out;
        }
        assert(sub.wf() && sub.pc == sub_pc);
        let keys = keys_of(&sub.unknown_state_changes);
        let mut pairs: Vec<(u8, usize)> = Vec::new();
        let mut k: usize = 0;
        while k < keys.len()
            invariant
                k <= keys@.len(),
                keys@.to_set() == sub.unknown_state_changes@.dom(),
                pairs@.len() == k,
                forall|j: int| 0 <= j < k ==> #[trigger] pairs@[j] == (
                    reason_priority(sub.unknown_state_changes@[keys@[j]].unknown_reason),
                    keys@[j],
                ),
            decreases keys.len() - k,
        {
            let pc = keys[k];
            assert(keys@.to_set().contains(pc));
            let reason = sub.unknown_state_changes.get(&pc).unwrap().unknown_reason;
            pairs.push((priority(reason), pc));
            k += 1;
        }
        let ghost pairs0 = pairs@;
        let ordered = sorted_by_priority(pairs);
        proof {
            assert forall|pc: usize| #[trigger] self.suggestion_at(sub_pc, pc) is Some implies exists|i: int|
                0 <= i < ordered@.len() && ordered@[i].1 == pc by {
                assert(keys@.to_set().contains(pc));
                let j = choose|j: int| 0 <= j < keys@.len() && keys@[j] == pc;
                let e = pairs0[j];
                assert(pairs0.contains(e));
                vstd::seq_lib::to_multiset_contains(pairs0, e);
                vstd::seq_lib::to_multiset_contains(ordered@, e);
                let i = choose|i: int| 0 <= i < ordered@.len() && ordered@[i] == e;
                assert(ordered@[i].1 == pc);
            }
            assert forall|i: int| 0 <= i < ordered@.len() implies #[trigger] ordered@[i].0 == reason_priority(
                sub.unknown_state_changes@[ordered@[i].1].unknown_reason,
            ) by {
                let e = ordered@[i];
                assert(ordered@.contains(e));
                vstd::seq_lib::to_multiset_contains(ordered@, e);
                vstd::seq_lib::to_multiset_contains(pairs0, e);
                let j = choose|j: int| 0 <= j < pairs0.len() && pairs0[j] == e;
                assert(pairs0[j] == e);
            }
        }
        let mut k: usize = 0;
        while k < ordered.len()
            invariant
                self.wf(),
                self.subroutines@.contains_key(sub_pc),
                *sub == self.subroutines@[sub_pc],
                sub.wf(),
                sub.pc == sub_pc,
                sub.has_unknown() && !sub.unknown_because_of(UnknownReason::Unknown),
                k <= ordered@.len(),
                forall|a: int, b: int| 0 <= a < b < ordered@.len() ==> (#[trigger] ordered@[a]).0 <= (#[trigger] ordered@[b]).0,
                forall|i: int| 0 <= i < ordered@.len() ==> #[trigger] ordered@[i].0 == reason_priority(
                    sub.unknown_state_changes@[ordered@[i].1].unknown_reason,
                ),
                forall|q: int| 0 <= q < out@.len() ==> self.suggestion_at(sub_pc, #[trigger] out@[q].0) == Some(out@[q].1),
                forall|q: int| #![trigger out@[q]] 0 <= q < out@.len() ==> exists|i: int| 0 <= i < k && #[trigger] ordered@[i].1 == out@[q].0,
                forall|i: int| 0 <= i < k && self.suggestion_at(sub_pc, #[trigger] ordered@[i].1) is Some ==> out@.len() > 0,
                forall|a: int, b: int| 0 <= a < b < out@.len() ==> reason_priority(
                    sub.unknown_state_changes@[#[trigger] out@[a].0].unknown_reason,
                ) <= reason_priority(sub.unknown_state_changes@[#[trigger] out@[b].0].unknown_reason),
            decreases ordered.len() - k,
        {
            let pc = ordered[k].1;
            let ghost before = out@;
            // An unknown change in RAM has no instruction to suggest for.
            if let Some(instr) = sub.instructions.get(&pc) {
                let suggested = self.suggest_assertions(*instr, sub);
                proof {
                    assert(instr.pc == pc);
                }
                if suggested.len() > 0 {
                    let a = suggested[0];
                    out.push((pc, a));
                    proof {
                        assert(suggested@ == seq![a]);
                        assert forall|x: int, y: int| 0 <= x < y < out@.len() implies reason_priority(
                            sub.unknown_state_changes@[#[trigger] out@[x].0].unknown_reason,
                        ) <= reason_priority(sub.unknown_state_changes@[#[trigger] out@[y].0].unknown_reason) by {
                            if y == before.len() {
                                let i = choose|i: int| 0 <= i < k && #[trigger] ordered@[i].1 == before[x].0;
                                assert(ordered@[i].0 <= ordered@[k as int].0);
                                assert(out@[x] == before[x]);
                            } else {
                                assert(out@[x] == before[x] && out@[y] == before[y]);
                            }
                        }
                        assert forall|q: int| #![trigger out@[q]] 0 <= q < out@.len() implies exists|i: int| 0 <= i < k + 1 && #[trigger] ordered@[i].1 == out@[q].0 by {
                            if q < before.len() {
                                assert(out@[q] == before[q]);
                                let i = choose|i: int| 0 <= i < k && #[trigger] ordered@[i].1 == before[q].0;
                            } else {
                                assert(ordered@[k as int].1 == out@[q].0);
                            }
                        }
                    }
                } else {
                    assert(self.suggestion_at(sub_pc, pc) is None);
                }
            } else {
                assert(self.suggestion_at(sub_pc, pc) is None);
            }
            proof {
                assert forall|q: int| #![trigger out@[q]] 0 <= q < out@.len() implies exists|i: int| 0 <= i < k + 1 && #[trigger] ordered@[i].1 == out@[q].0 by {
                    if q < before.len() {
                        assert(out@[q] == before[q]);
                        let i = choose|i: int| 0 <= i < k && #[trigger] ordered@[i].1 == before[q].0;
                    } else {
                        assert(ordered@[k as int].1 == out@[q].0);
                    }
                }
            }
            k += 1;
        }
        out
    }

    /// Return the assertions suggested for an instruction of a subroutine:
    /// none if an assertion already targets it or its change is known.
    pub fn suggest_assertions(&self, i: Instruction, sub: &Subroutine) -> (r: Vec<Assertion>)
        requires
            sub.wf(),
        ensures
            (self.instruction_assertions@.contains_key(i.pc) || (
            self.subroutine_assertions@.contains_key(sub.pc)
                && self.subroutine_assertions@[sub.pc]@.contains_key(i.pc))
                || !sub.unknown_state_changes@.contains_key(i.pc)) ==> r@.len() == 0,
            !(self.instruction_assertions@.contains_key(i.pc) || (
            self.subroutine_assertions@.contains_key(sub.pc)
                && self.subroutine_assertions@[sub.pc]@.contains_key(i.pc))
                || !sub.unknown_state_changes@.contains_key(i.pc)) ==> r@ == (match suggestion(
                i,
                *sub,
                sub.unknown_state_changes@[i.pc].unknown_reason,
                if self.indirect_jumps@.contains_key(i.pc) {
                    Some(self.indirect_jumps@[i.pc])
                } else {
                    None
                },
            ) {
                Some(a) => seq![a],
                None => Seq::<Assertion>::empty(),
            }),
    {
        let mut assertions: Vec<Assertion> = Vec::new();
        if self.instruction_assertion(i.pc).is_some() || self.subroutine_assertion(sub.pc, i.pc).is_some() {
            return assertions;
        }
        let reason = match sub.unknown_state_changes.get(&i.pc) {
            Some(c) => c.unknown_reason,
            None => return assertions,
        };
        let indirect = match self.indirect_jumps.get(&i.pc) {
            Some(k) => Some(*k),
            None => None,
        };
        let combined = match sub.combined_state_change() {
            Some(c) => Assertion::Subroutine(c),
            None => if sub.saves_state_in_incipit() {
                Assertion::Subroutine(StateChange::new_empty())
            } else {
                Assertion::Subroutine(i.state_change)
            },
        };
        let none = StateChange::new_empty();
        let suggested: Option<Assertion> = match i.typ() {
            // Indirect JSR/JSL typically don't rely on a specific state being set.
            InstructionType::Call => if reason == UnknownReason::IndirectJump || reason
                == UnknownReason::MultipleReturnStates {
                Some(Assertion::Instruction(none))
            } else if reason == UnknownReason::Recursion {
                Some(combined)
            } else {
                None
            },
            // Indirect JMP/JML: a PHP in the incipit typically means that the
            // state is restored before returning.
            InstructionType::Jump => if reason == UnknownReason::IndirectJump {
                if sub.saves_state_in_incipit() {
                    Some(Assertion::Subroutine(none))
                } else {
                    Some(combined)
                }
            } else if reason == UnknownReason::Recursion {
                Some(combined)
            } else {
                None
            },
            // RTS/RTL to a manipulated address.
            InstructionType::Return => if reason == UnknownReason::StackManipulation {
                Some(combined)
            } else if reason == UnknownReason::IndirectJump && indirect == Some(IndirectJump::ReturnCall) {
                Some(Assertion::Instruction(none))
            } else if reason == UnknownReason::Recursion {
                Some(combined)
            } else {
                None
            },
            // PLP from a manipulated stack.
            _ => if i.operation() == Op::PLP && reason == UnknownReason::StackManipulation {
                Some(Assertion::Instruction(none))
            } else if reason == UnknownReason::Recursion {
                Some(combined)
            } else {
                None
            },
        };
        if let Some(a) = suggested {
            assertions.push(a);
        }
        proof {
            assert(assertions@ =~= match suggestion(i, *sub, reason, indirect) {
                Some(a) => seq![a],
                None => Seq::<Assertion>::empty(),
            });
        }
        assertions
    }

    /// Add a jump table assertion: the caller reads its target from a table
    /// of words, indexed by X from `range.0` to `range.1` (included) by steps
    /// of 2. Entries whose word cannot be read are left out.
    pub fn add_jumptable_assertion(&mut self, caller_pc: usize, range: (usize, usize))
        requires
            old(self).wf(),
        ensures
            final(self).wf(),
            final(self).instructions@ == old(self).instructions@,
            final(self).subroutines@ == old(self).subroutines@,
            final(self).rom == old(self).rom,
            final(self).instruction_assertions@ == old(self).instruction_assertions@,
            final(self).subroutine_assertions@ == old(self).subroutine_assertions@,
            forall|c: usize| c != caller_pc ==> #[trigger] final(self).jump_assertions@.contains_key(c)
                == old(self).jump_assertions@.contains_key(c),
            forall|c: usize| c != caller_pc ==> #[trigger] final(self).jump_assertions@[c] == old(self).jump_assertions@[c],
            old(self).instructions@.contains_key(caller_pc) && old(self).instructions@[caller_pc]@.len() > 0
                && old(self).instructions@[caller_pc]@[0].argument_spec() is Some ==> forall|m: nat|
                #![trigger table_entry(old(self).rom, old(self).instructions@[caller_pc]@[0], range.0 + 2 * m)]
                range.0 + 2 * m <= range.1 && table_readable(old(self).rom, old(self).instructions@[caller_pc]@[0], range.0 + 2 * m)
                    ==> final(self).jump_assertions@.contains_key(caller_pc) && final(self).jump_assertions@[caller_pc]@.contains(
                    table_entry(old(self).rom, old(self).instructions@[caller_pc]@[0], range.0 + 2 * m),
                ),
    {
        let caller = match self.any_instruction(caller_pc) {
            Some(i) => i,
            None => return,
        };
        let argument = match caller.argument() {
            Some(a) => a,
            None => return,
        };
        let bank = caller.pc & 0xFF0000;
        let mut x = range.0;
        let mut halted = false;
        let ghost mut done: nat = 0;
        while x <= range.1 && !halted
            invariant
                self.wf(),
                self.instructions@ == old(self).instructions@,
                self.subroutines@ == old(self).subroutines@,
                self.rom == old(self).rom,
                self.instruction_assertions@ == old(self).instruction_assertions@,
                self.subroutine_assertions@ == old(self).subroutine_assertions@,
                old(self).instructions@.contains_key(caller_pc),
                old(self).instructions@[caller_pc]@.len() > 0,
                caller == old(self).instructions@[caller_pc]@[0],
                caller.argument_spec() == Some(argument),
                bank == caller.pc & 0xFF0000,
                !halted ==> x == range.0 + 2 * done,
                forall|c: usize| c != caller_pc ==> #[trigger] self.jump_assertions@.contains_key(c)
                    == old(self).jump_assertions@.contains_key(c),
                forall|c: usize| c != caller_pc ==> #[trigger] self.jump_assertions@[c] == old(self).jump_assertions@[c],
                forall|m: nat|
                    #![trigger table_entry(self.rom, caller, range.0 + 2 * m)]
                    m < done && table_readable(self.rom, caller, range.0 + 2 * m)
                        ==> self.jump_assertions@.contains_key(caller_pc) && self.jump_assertions@[caller_pc]@.contains(
                        table_entry(self.rom, caller, range.0 + 2 * m),
                    ),
                halted ==> forall|m: nat|
                    #![trigger table_entry(self.rom, caller, range.0 + 2 * m)]
                    m >= done && range.0 + 2 * m <= range.1 ==> !table_readable(self.rom, caller, range.0 + 2 * m),
            decreases range.1 - x + 2, if halted { 0nat } else { 1nat },
        {
            if argument > usize::MAX - x {
                halted = true;
                proof {
                    assert forall|m: nat|
                        #![trigger table_entry(self.rom, caller, range.0 + 2 * m)]
                        m >= done && range.0 + 2 * m <= range.1 implies !table_readable(self.rom, caller, range.0 + 2 * m) by {
                        assert(range.0 + 2 * m >= x);
                    }
                }
            } else {
                let address = bank | (argument + x);
                let ghost before = self.jump_assertions@;
                if address < usize::MAX && self.rom.is_readable(address) && self.rom.is_readable(address + 1) {
                    let word = self.rom.read_word(address) as usize;
                    self.add_jump_assertion(caller_pc, Some(bank | word), Some(x));
                    assert(table_entry(self.rom, caller, x as int) == JumpTableEntry { x: Some(x), target: bank | word });
                    assert forall|c: usize| c != caller_pc implies #[trigger] self.jump_assertions@[c] == old(self).jump_assertions@[c] by {
                        assert(self.jump_assertions@[c] == before[c]);
                    }
                }
                proof {
                    assert forall|m: nat|
                        #![trigger table_entry(self.rom, caller, range.0 + 2 * m)]
                        m < done + 1 && table_readable(self.rom, caller, range.0 + 2 * m)
                            implies self.jump_assertions@.contains_key(caller_pc) && self.jump_assertions@[caller_pc]@.contains(
                            table_entry(self.rom, caller, range.0 + 2 * m),
                        ) by {
                        if m < done {
                            assert(before.contains_key(caller_pc) && before[caller_pc]@.contains(table_entry(self.rom, caller, range.0 + 2 * m)));
                        } else {
                            assert(range.0 + 2 * m == x);
                        }
                    }
                }
                if x > usize::MAX - 2 {
                    halted = true;
                    proof {
                        done = done + 1;
                        assert forall|m: nat|
                            #![trigger table_entry(self.rom, caller, range.0 + 2 * m)]
                            m >= done && range.0 + 2 * m <= range.1 implies !table_readable(self.rom, caller, range.0 + 2 * m) by {
                            assert(range.0 + 2 * m >= x + 2);
                        }
                    }
                } else {
                    x = x + 2;
                    proof {
                        done = done + 1;
                    }
                }
            }
        }
        proof {
            assert forall|m: nat|
                #![trigger table_entry(self.rom, caller, range.0 + 2 * m)]
                range.0 + 2 * m <= range.1 && table_readable(self.rom, caller, range.0 + 2 * m)
                    implies self.jump_assertions@.contains_key(caller_pc) && self.jump_assertions@[caller_pc]@.contains(
                    table_entry(self.rom, caller, range.0 + 2 * m),
                ) by {
                if m >= done {
                    assert(range.0 + 2 * m <= range.1);
                }
            }
        }
    }

    /// Remove the jump table assertions of a caller whose X lies in `range`
    /// (included): every target that such an entry names is removed.
    pub fn del_jumptable_assertion(&mut self, caller_pc: usize, range: (usize, usize))
        requires
            old(self).wf(),
        ensures
            final(self).wf(),
            final(self).instructions@ == old(self).instructions@,
            final(self).subroutines@ == old(self).subroutines@,
            final(self).rom == old(self).rom,
            final(self).instruction_assertions@ == old(self).instruction_assertions@,
            final(self).subroutine_assertions@ == old(self).subroutine_assertions@,
            forall|c: usize| c != caller_pc ==> #[trigger] final(self).jump_assertions@.contains_key(c)
                == old(self).jump_assertions@.contains_key(c),
            forall|c: usize| c != caller_pc && old(self).jump_assertions@.contains_key(c)
                ==> #[trigger] final(self).jump_assertions@[c] == old(self).jump_assertions@[c],
            !old(self).jump_assertions@.contains_key(caller_pc) ==> !final(self).jump_assertions@.contains_key(caller_pc),
            final(self).jump_assertions@.contains_key(caller_pc) ==> forall|e: JumpTableEntry|
                final(self).jump_assertions@[caller_pc]@.contains(e) <==> (old(self).jump_assertions@[caller_pc]@.contains(e)
                    && !in_range_target(old(self).jump_assertions@[caller_pc]@, range, e.target)),
            old(self).jump_assertions@.contains_key(caller_pc) && !final(self).jump_assertions@.contains_key(caller_pc)
                ==> forall|e: JumpTableEntry| old(self).jump_assertions@[caller_pc]@.contains(e)
                ==> in_range_target(old(self).jump_assertions@[caller_pc]@, range, e.target),
    {
        let mut targets: Vec<usize> = Vec::new();
        let ghost entries0: Seq<JumpTableEntry>;
        match self.jump_assertions.get(&caller_pc) {
            None => return,
            Some(entries) => {
                proof {
                    entries0 = entries@;
                }
                let mut k: usize = 0;
                while k < entries.len()
                    invariant
                        k <= entries@.len(),
                        forall|t: usize| targets@.contains(t) <==> in_range_target(entries@.subrange(0, k as int), range, t),
                    decreases entries.len() - k,
                {
                    let ghost prev = entries@.subrange(0, k as int);
                    let ghost next = entries@.subrange(0, k + 1);
                    let ghost before = targets@;
                    assert(next =~= prev.push(entries@[k as int]));
                    if let Some(x) = entries[k].x {
                        if x >= range.0 && x <= range.1 {
                            targets.push(entries[k].target);
                        }
                    }
                    proof {
                        assert forall|t: usize| targets@.contains(t) <==> in_range_target(next, range, t) by {
                            if targets@.contains(t) {
                                let u = choose|u: int| 0 <= u < targets@.len() && targets@[u] == t;
                                if u < before.len() {
                                    assert(before[u] == t);
                                    assert(before.contains(t));
                                    assert(in_range_target(prev, range, t));
                                    let w = choose|w: int| 0 <= w < prev.len() && in_range_entry(#[trigger] prev[w], range, t);
                                    assert(next[w] == prev[w]);
                                } else {
                                    assert(in_range_entry(next[k as int], range, t));
                                }
                            }
                            if in_range_target(next, range, t) {
                                let w = choose|w: int| 0 <= w < next.len() && in_range_entry(#[trigger] next[w], range, t);
                                if w < prev.len() {
                                    assert(prev[w] == next[w]);
                                    assert(in_range_target(prev, range, t));
                                    assert(before.contains(t));
                                    let u = choose|u: int| 0 <= u < before.len() && before[u] == t;
                                    assert(targets@[u] == t);
                                } else {
                                    assert(targets@[targets@.len() - 1] == t);
                                }
                            }
                        }
                    }
                    k += 1;
                }
                assert(entries@.subrange(0, entries@.len() as int) =~= entries@);
            },
        }
        let mut k: usize = 0;
        while k < targets.len()
            invariant
                self.wf(),
                self.instructions@ == old(self).instructions@,
                self.subroutines@ == old(self).subroutines@,
                self.rom == old(self).rom,
                self.instruction_assertions@ == old(self).instruction_assertions@,
                self.subroutine_assertions@ == old(self).subroutine_assertions@,
                k <= targets@.len(),
                old(self).jump_assertions@.contains_key(caller_pc),
                entries0 == old(self).jump_assertions@[caller_pc]@,
                forall|t: usize| targets@.contains(t) <==> in_range_target(entries0, range, t),
                forall|c: usize| c != caller_pc ==> #[trigger] self.jump_assertions@.contains_key(c)
                    == old(self).jump_assertions@.contains_key(c),
                forall|c: usize| c != caller_pc && old(self).jump_assertions@.contains_key(c)
                    ==> #[trigger] self.jump_assertions@[c] == old(self).jump_assertions@[c],
                self.jump_assertions@.contains_key(caller_pc) ==> forall|e: JumpTableEntry|
                    #![trigger self.jump_assertions@[caller_pc]@.contains(e)]
                    #![trigger entries0.contains(e)]
                    self.jump_assertions@[caller_pc]@.contains(e) <==> (entries0.contains(e)
                        && !targets@.subrange(0, k as int).contains(e.target)),
                !self.jump_assertions@.contains_key(caller_pc) ==> forall|e: JumpTableEntry|
                    #![trigger entries0.contains(e)]
                    entries0.contains(e) ==> targets@.subrange(0, k as int).contains(e.target),
            decreases targets.len() - k,
        {
            let t = targets[k];
            let ghost before = *self;
            let ghost tk = targets@.subrange(0, k as int);
            let ghost tk1 = targets@.subrange(0, k + 1);
            assert(tk1 =~= tk.push(t));
            self.del_jump_target(caller_pc, t);
            proof {
                assert forall|x: usize| tk1.contains(x) <==> (tk.contains(x) || x == t) by {
                    if tk1.contains(x) {
                        let u = choose|u: int| 0 <= u < tk1.len() && tk1[u] == x;
                        if u < tk.len() {
                            assert(tk[u] == x);
                        }
                    }
                    if tk.contains(x) {
                        let u = choose|u: int| 0 <= u < tk.len() && tk[u] == x;
                        assert(tk1[u] == x);
                    }
                    if x == t {
                        assert(tk1[k as int] == t);
                    }
                }
                assert forall|c: usize| c != caller_pc && old(self).jump_assertions@.contains_key(c)
                    implies #[trigger] self.jump_assertions@[c] == old(self).jump_assertions@[c] by {
                    assert(before.jump_assertions@.contains_key(c));
                    assert(self.jump_assertions@[c] == before.jump_assertions@[c]);
                }
                if self.jump_assertions@.contains_key(caller_pc) {
                    assert(before.jump_assertions@.contains_key(caller_pc));
                    assert forall|e: JumpTableEntry| self.jump_assertions@[caller_pc]@.contains(e) <==> (entries0.contains(e)
                        && !tk1.contains(e.target)) by {
                        assert(self.jump_assertions@[caller_pc]@.contains(e) <==> (before.jump_assertions@[caller_pc]@.contains(e)
                            && e.target != t));
                        assert(before.jump_assertions@[caller_pc]@.contains(e) <==> (entries0.contains(e) && !tk.contains(e.target)));
                    }
                } else {
                    assert forall|e: JumpTableEntry| entries0.contains(e) implies tk1.contains(e.target) by {
                        if before.jump_assertions@.contains_key(caller_pc) {
                            if !tk.contains(e.target) {
                                assert(before.jump_assertions@[caller_pc]@.contains(e));
                            }
                        } else {
                            assert(tk.contains(e.target));
                        }
                    }
                }
            }
            k += 1;
        }
        proof {
            assert(targets@.subrange(0, targets@.len() as int) =~= targets@);
            if self.jump_assertions@.contains_key(caller_pc) {
                assert forall|e: JumpTableEntry| self.jump_assertions@[caller_pc]@.contains(e) <==> (entries0.contains(e)
                    && !in_range_target(entries0, range, e.target)) by {
                    assert(targets@.contains(e.target) <==> in_range_target(entries0, range, e.target));
                }
            } else {
                assert forall|e: JumpTableEntry| entries0.contains(e) implies in_range_target(entries0, range, e.target) by {
                    assert(targets@.contains(e.target));
                }
            }
        }
    }

    /// Return the subroutines that contain an instruction at `pc` (each once).
    pub fn instruction_subroutines(&self, pc: usize) -> (r: Vec<usize>)
        requires
            self.wf(),
        ensures
            r@.no_duplicates(),
            forall|s: usize| r@.contains(s) <==> (self.instructions@.contains_key(pc) && exists|k: int|
                0 <= k < self.instructions@[pc]@.len() && #[trigger] self.instructions@[pc]@[k].subroutine == s),
            forall|s: usize| r@.contains(s) ==> self.subroutines@.contains_key(s),
    {
        let mut out: Vec<usize> = Vec::new();
        match self.instructions.get(&pc) {
            None => {},
            Some(v) => {
                let mut k: usize = 0;
                while k < v.len()
                    invariant
                        self.wf(),
                        self.instructions@.contains_key(pc),
                        v@ == self.instructions@[pc]@,
                        k <= v@.len(),
                        out@.no_duplicates(),
                        forall|s: usize| out@.contains(s) <==> exists|j: int| 0 <= j < k && #[trigger] v@[j].subroutine == s,
                    decreases v.len() - k,
                {
                    let s = v[k].subroutine;
                    let ghost before = out@;
                    if !holds_address(&out, s) {
                        out.push(s);
                    }
                    proof {
                        assert forall|t: usize| out@.contains(t) <==> exists|j: int| 0 <= j < k + 1 && #[trigger] v@[j].subroutine == t by {
                            if t == s {
                                assert(v@[k as int].subroutine == t);
                                if before.contains(s) {
                                    let i = choose|i: int| 0 <= i < before.len() && before[i] == s;
                                    assert(out@[i] == s);
                                } else {
                                    assert(out@[out@.len() - 1] == s);
                                }
                            } else {
                                if out@.contains(t) {
                                    let i = choose|i: int| 0 <= i < out@.len() && out@[i] == t;
                                    assert(before[i] == t);
                                    assert(before.contains(t));
                                }
                                if exists|j: int| 0 <= j < k + 1 && #[trigger] v@[j].subroutine == t {
                                    let j = choose|j: int| 0 <= j < k + 1 && #[trigger] v@[j].subroutine == t;
                                    assert(j < k);
                                    assert(before.contains(t));
                                    let i = choose|i: int| 0 <= i < before.len() && before[i] == t;
                                    assert(out@[i] == t);
                                }
                            }
                        }
                    }
                    k += 1;
                }
                proof {
                    assert(self.visited_wf(pc));
                    assert forall|s: usize| out@.contains(s) implies self.subroutines@.contains_key(s) by {
                        let j = choose|j: int| 0 <= j < v@.len() && #[trigger] v@[j].subroutine == s;
                        assert(v@[j].pc == pc);
                    }
                }
            },
        }
        out
    }

    /// Return the labels of the subroutines that contain an instruction at `pc`.
    pub fn instruction_subroutine_labels(&self, instr_pc: usize) -> (r: Vec<String>)
        requires
            self.wf(),
        ensures
            forall|i: int| 0 <= i < r@.len() ==> label_pairs(self.subroutine_labels).contains_key(#[trigger] r@[i]@),
            forall|i: int| 0 <= i < r@.len() ==> recorded_in(*self, instr_pc, label_pairs(self.subroutine_labels)[#[trigger] r@[i]@]),
            forall|s: usize| #[trigger] recorded_in(*self, instr_pc, s) && named(label_pairs(self.subroutine_labels), s)
                ==> exists|i: int| 0 <= i < r@.len() && label_pairs(self.subroutine_labels)[#[trigger] r@[i]@] == s,
    {
        let subs = self.instruction_subroutines(instr_pc);
        let mut out: Vec<String> = Vec::new();
        let mut k: usize = 0;
        while k < subs.len()
            invariant
                k <= subs@.len(),
                forall|s: usize| subs@.contains(s) <==> recorded_in(*self, instr_pc, s),
                forall|i: int| 0 <= i < out@.len() ==> label_pairs(self.subroutine_labels).contains_key(#[trigger] out@[i]@),
                forall|i: int| 0 <= i < out@.len() ==> recorded_in(*self, instr_pc, label_pairs(self.subroutine_labels)[#[trigger] out@[i]@]),
                forall|j: int| 0 <= j < k && named(label_pairs(self.subroutine_labels), #[trigger] subs@[j])
                    ==> exists|i: int| 0 <= i < out@.len() && label_pairs(self.subroutine_labels)[#[trigger] out@[i]@] == subs@[j],
            decreases subs.len() - k,
        {
            let s = subs[k];
            assert(subs@.contains(s));
            let ghost before = out@;
            if let Some(l) = self.label(s, None) {
                out.push(l);
                proof {
                    assert(out@[out@.len() - 1] == l);
                    assert forall|j: int| 0 <= j < k + 1 && named(label_pairs(self.subroutine_labels), #[trigger] subs@[j])
                        implies exists|i: int| 0 <= i < out@.len() && label_pairs(self.subroutine_labels)[#[trigger] out@[i]@] == subs@[j] by {
                        if j < k {
                            let i = choose|i: int| 0 <= i < before.len() && label_pairs(self.subroutine_labels)[#[trigger] before[i]@] == subs@[j];
                            assert(out@[i] == before[i]);
                        } else {
                            assert(label_pairs(self.subroutine_labels)[out@[out@.len() - 1]@] == s);
                        }
                    }
                    assert forall|i: int| 0 <= i < out@.len() implies recorded_in(*self, instr_pc, label_pairs(self.subroutine_labels)[#[trigger] out@[i]@]) by {
                        if i < before.len() {
                            assert(out@[i] == before[i]);
                        }
                    }
                }
            }
            k += 1;
        }
        proof {
            assert forall|s: usize| #[trigger] recorded_in(*self, instr_pc, s) && named(label_pairs(self.subroutine_labels), s)
                implies exists|i: int| 0 <= i < out@.len() && label_pairs(self.subroutine_labels)[#[trigger] out@[i]@] == s by {
                assert(subs@.contains(s));
                let j = choose|j: int| 0 <= j < subs@.len() && subs@[j] == s;
                assert(named(label_pairs(self.subroutine_labels), subs@[j]));
            }
        }
        out
    }

    /// Generate local labels: every referenced address that is not a
    /// subroutine gets a label (the user's, or `loc_XXXXXX`) inside the
    /// subroutine that refers to it.
    fn generate_local_labels(&mut self)
        requires
            old(self).wf(),
        ensures
            final(self).wf(),
            final(self).same_run(*old(self)),
            final(self).instructions@ == old(self).instructions@,
            final(self).subroutines@ == old(self).subroutines@,
            final(self).entry_points@ == old(self).entry_points@,
            final(self).references@ == old(self).references@,
            forall|src: usize, j: int| #[trigger] refers_locally(*final(self), src, j)
                ==> final(self).local_labels@.contains_key(final(self).references@[src]@[j].subroutine),
    {
        proof {
            reveal_strlit("loc_");
        }
        let sources = keys_of(&self.references);
        let mut k: usize = 0;
        while k < sources.len()
            invariant
                self.wf(),
                self.same_run(*old(self)),
                self.instructions@ == old(self).instructions@,
                self.subroutines@ == old(self).subroutines@,
                self.entry_points@ == old(self).entry_points@,
                self.references@ == old(self).references@,
                sources@.to_set() == self.references@.dom(),
                k <= sources@.len(),
                forall|src: usize, j: int| #[trigger] refers_locally(*self, src, j) && sources@.subrange(0, k as int).contains(src)
                    ==> self.local_labels@.contains_key(self.references@[src]@[j].subroutine),
            decreases sources.len() - k,
        {
            let source = sources[k];
            assert(sources@.to_set().contains(source));
            let n = self.references.get(&source).unwrap().len();
            let mut j: usize = 0;
            while j < n
                invariant
                    self.wf(),
                    self.same_run(*old(self)),
                    self.instructions@ == old(self).instructions@,
                    self.subroutines@ == old(self).subroutines@,
                    self.entry_points@ == old(self).entry_points@,
                    self.references@ == old(self).references@,
                    self.references@.contains_key(source),
                    n == self.references@[source]@.len(),
                    source == sources@[k as int],
                    k < sources@.len(),
                    j <= n,
                    forall|src: usize, i: int| #[trigger] refers_locally(*self, src, i) && (sources@.subrange(0, k as int).contains(src)
                        || (src == source && i < j)) ==> self.local_labels@.contains_key(self.references@[src]@[i].subroutine),
                decreases n - j,
            {
                let r = self.references.get(&source).unwrap()[j];
                let ghost pre = *self;
                let ghost before = self.local_labels@;
                if !self.is_subroutine(r.target) {
                    let label = match self.custom_labels.get(&r.target) {
                        Some(l) => l.clone(),
                        None => {
                            let digits = hex_upper(r.target, 6);
                            concat("loc_", digits.as_str())
                        },
                    };
                    let mut labels = match self.local_labels.remove(&r.subroutine) {
                        Some(m) => m,
                        None => labels_new(),
                    };
                    labels_insert(&mut labels, label, r.target);
                    self.local_labels.insert(r.subroutine, labels);
                }
                proof {
                    assert forall|x: usize| before.contains_key(x) implies #[trigger] self.local_labels@.contains_key(x) by {}
                    assert(r == self.references@[source]@[j as int]);
                    assert forall|src: usize, i: int| #[trigger] refers_locally(*self, src, i) && (sources@.subrange(0, k as int).contains(src)
                        || (src == source && i < j + 1)) implies self.local_labels@.contains_key(self.references@[src]@[i].subroutine) by {
                        if !(src == source && i == j) {
                            assert(refers_locally(pre, src, i));
                            assert(before.contains_key(self.references@[src]@[i].subroutine));
                        }
                    }
                }
                j += 1;
            }
            proof {
                let sk = sources@.subrange(0, k as int);
                let sk1 = sources@.subrange(0, k + 1);
                assert(sk1 =~= sk.push(source));
                assert forall|src: usize, i: int| #[trigger] refers_locally(*self, src, i) && sk1.contains(src)
                    implies self.local_labels@.contains_key(self.references@[src]@[i].subroutine) by {
                    if !sk.contains(src) {
                        let w = choose|w: int| 0 <= w < sk1.len() && sk1[w] == src;
                        if w < sk.len() {
                            assert(sk[w] == src);
                        }
                    }
                }
            }
            k += 1;
        }
        proof {
            assert(sources@.subrange(0, sources@.len() as int) =~= sources@);
            assert forall|src: usize, j: int| #[trigger] refers_locally(*self, src, j)
                implies self.local_labels@.contains_key(self.references@[src]@[j].subroutine) by {
                assert(sources@.to_set().contains(src));
            }
        }
    }

    /// Flag the subroutines that contain assertions.
    fn generate_asserted_subroutines(&mut self)
        requires
            old(self).wf(),
        ensures
            final(self).grows_from(*old(self)),
            final(self).wf(),
            final(self).same_run(*old(self)),
            final(self).instructions@ == old(self).instructions@,
            final(self).subroutines@.dom() == old(self).subroutines@.dom(),
            final(self).entry_points@ == old(self).entry_points@,
    {
        let instr_pcs = keys_of(&self.instruction_assertions);
        let mut k: usize = 0;
        while k < instr_pcs.len()
            invariant
                self.wf(),
                self.same_run(*old(self)),
                self.instructions@ == old(self).instructions@,
                self.subroutines@.dom() == old(self).subroutines@.dom(),
                self.entry_points@ == old(self).entry_points@,
                self.grows_from(*old(self)),
            decreases instr_pcs.len() - k,
        {
            self.flag_asserted_subroutines(instr_pcs[k]);
            k += 1;
        }
        let sub_pcs = keys_of(&self.subroutine_assertions);
        let mut k: usize = 0;
        while k < sub_pcs.len()
            invariant
                self.wf(),
                self.same_run(*old(self)),
                self.instructions@ == old(self).instructions@,
                self.subroutines@.dom() == old(self).subroutines@.dom(),
                self.entry_points@ == old(self).entry_points@,
                self.grows_from(*old(self)),
            decreases sub_pcs.len() - k,
        {
            self.flag_asserted_subroutine(sub_pcs[k]);
            k += 1;
        }
        let callers = keys_of(&self.jump_assertions);
        let mut k: usize = 0;
        while k < callers.len()
            invariant
                self.wf(),
                self.same_run(*old(self)),
                self.instructions@ == old(self).instructions@,
                self.subroutines@.dom() == old(self).subroutines@.dom(),
                self.entry_points@ == old(self).entry_points@,
                self.grows_from(*old(self)),
            decreases callers.len() - k,
        {
            self.flag_asserted_subroutines(callers[k]);
            k += 1;
        }
    }

    /// Flag a given subroutine as containing an assertion.
    fn flag_asserted_subroutine(&mut self, sub_pc: usize)
        requires
            old(self).wf(),
        ensures
            final(self).grows_from(*old(self)),
            final(self).wf(),
            final(self).same_run(*old(self)),
            final(self).instructions@ == old(self).instructions@,
            final(self).subroutines@.dom() == old(self).subroutines@.dom(),
            final(self).entry_points@ == old(self).entry_points@,
            old(self).subroutines@.contains_key(sub_pc) ==> final(self).subroutines@[sub_pc].contains_assertions,
    {
        if let Some(mut sub) = self.subroutines.remove(&sub_pc) {
            sub.set_contains_assertions(true);
            self.subroutines.insert(sub_pc, sub);
            proof {
                assert(self.subroutines@.dom() =~= old(self).subroutines@.dom());
                assert forall|q: usize| #[trigger] self.instructions@.contains_key(q) implies self.visited_wf(q) by {
                    assert(old(self).instructions@.contains_key(q));
                    Self::lemma_visited_wf_frame(*old(self), *self, q);
                }
            }
        } else {
            assert(self.subroutines@ =~= old(self).subroutines@);
        }
    }

    /// Flag all the subroutines that contain an instruction at `instr_pc`.
    fn flag_asserted_subroutines(&mut self, instr_pc: usize)
        requires
            old(self).wf(),
        ensures
            final(self).grows_from(*old(self)),
            final(self).wf(),
            final(self).same_run(*old(self)),
            final(self).instructions@ == old(self).instructions@,
            final(self).subroutines@.dom() == old(self).subroutines@.dom(),
            final(self).entry_points@ == old(self).entry_points@,
    {
        let subs = self.instruction_subroutines(instr_pc);
        let mut k: usize = 0;
        while k < subs.len()
            invariant
                self.wf(),
                self.same_run(*old(self)),
                self.instructions@ == old(self).instructions@,
                self.subroutines@.dom() == old(self).subroutines@.dom(),
                self.entry_points@ == old(self).entry_points@,
                self.grows_from(*old(self)),
            decreases subs.len() - k,
        {
            self.flag_asserted_subroutine(subs[k]);
            k += 1;
        }
    }

    /// Check that a label is valid for a subroutine or a local label: not
    /// already used, an identifier, and not of the reserved forms.
    pub fn validate_label(labels: &LabelMap, label: String) -> (r: Result<()>)
        ensures
            label_pairs(*labels).contains_key(label@) ==> (r matches Err(Error::LabelAlreadyUsed(
                s,
            )) && s@ == label@),
            !label_pairs(*labels).contains_key(label@) && !is_identifier(label@) ==> (r matches Err(
                Error::InvalidLabel(s),
            ) && s@ == label@),
            !label_pairs(*labels).contains_key(label@) && is_identifier(label@) && reserved_label(
                label@,
            ) ==> (r matches Err(Error::ReservedLabel(s)) && s@ == label@),
            !label_pairs(*labels).contains_key(label@) && is_identifier(label@) && !reserved_label(
                label@,
            ) ==> r is Ok,
    {
        proof {
            reveal_strlit("^[_A-Za-z][_A-Za-z0-9]*$");
        }
        if labels_contains_left(labels, label.as_str()) {
            return Err(Error::LabelAlreadyUsed(label));
        }
        let pattern = "^[_A-Za-z][_A-Za-z0-9]*$";
        assert(pattern@ =~= identifier_pattern());
        if !regex_is_match(pattern, label.as_str()) {
            return Err(Error::InvalidLabel(label));
        }
        let chars = chars_of(label.as_str());
        if starts_with(&chars, &['s', 'u', 'b', '_']) || starts_with(&chars, &['l', 'o', 'c', '_']) {
            return Err(Error::ReservedLabel(label));
        }
        Ok(())
    }
}

impl Analysis {
    /// Rename a subroutine or a local label (written with a leading `.`; the
    /// subroutine it belongs to is then required).
    pub fn rename_label(&mut self, old_label: String, new_label: String, subroutine: Option<usize>) -> (r: Result<()>)
        requires
            old(self).wf(),
        ensures
            old_label@.len() > 0 && old_label@[0] == '.' && subroutine is Some && !(new_label@.len() > 0 && new_label@[0] == '.')
                ==> r == Err::<(), Error>(Error::InvalidLabelType),
            old_label@.len() > 0 && old_label@[0] == '.' && subroutine is Some && new_label@.len() > 0 && new_label@[0] == '.'
                && !(old(self).local_labels@.contains_key(subroutine->0) && label_pairs(old(self).local_labels@[subroutine->0]).contains_key(
                old_label@.subrange(1, old_label@.len() as int)))
                ==> (r matches Err(Error::UnknownLabel(e)) && e@ == old_label@),
            r is Err ==> final(self).subroutine_labels == old(self).subroutine_labels
                && final(self).subroutines@ == old(self).subroutines@
                && final(self).custom_labels@ == old(self).custom_labels@
                && final(self).local_labels@ == old(self).local_labels@,
            !(old_label@.len() > 0 && old_label@[0] == '.') && !(new_label@.len() > 0 && new_label@[0] == '.') && label_pairs(old(self).subroutine_labels).contains_key(old_label@)
                && label_pairs(old(self).subroutine_labels).contains_key(new_label@)
                ==> (r matches Err(Error::LabelAlreadyUsed(e)) && e@ == new_label@),
            !(old_label@.len() > 0 && old_label@[0] == '.') && !(new_label@.len() > 0 && new_label@[0] == '.') && label_pairs(old(self).subroutine_labels).contains_key(old_label@)
                && !label_pairs(old(self).subroutine_labels).contains_key(new_label@) && !is_identifier(new_label@)
                ==> (r matches Err(Error::InvalidLabel(e)) && e@ == new_label@),
            !(old_label@.len() > 0 && old_label@[0] == '.') && !(new_label@.len() > 0 && new_label@[0] == '.') && label_pairs(old(self).subroutine_labels).contains_key(old_label@)
                && !label_pairs(old(self).subroutine_labels).contains_key(new_label@) && is_identifier(new_label@)
                && reserved_label(new_label@) ==> (r matches Err(Error::ReservedLabel(e)) && e@ == new_label@),
            final(self).wf(),
            final(self).instructions@ == old(self).instructions@,
            final(self).subroutines@.dom() == old(self).subroutines@.dom(),
            old_label@.len() > 0 && old_label@[0] == '.' && subroutine is None ==> r == Err::<(), Error>(Error::NoSelectedSubroutine),
            !(old_label@.len() > 0 && old_label@[0] == '.') && new_label@.len() > 0 && new_label@[0] == '.' ==> r == Err::<(), Error>(Error::InvalidLabelType),
            !(old_label@.len() > 0 && old_label@[0] == '.') && !(new_label@.len() > 0 && new_label@[0] == '.') && !label_pairs(old(self).subroutine_labels).contains_key(old_label@)
                ==> (r matches Err(Error::UnknownLabel(s)) && s@ == old_label@),
            !(old_label@.len() > 0 && old_label@[0] == '.') && !(new_label@.len() > 0 && new_label@[0] == '.') && label_pairs(old(self).subroutine_labels).contains_key(old_label@)
                && !label_pairs(old(self).subroutine_labels).contains_key(new_label@) && is_identifier(new_label@) && !reserved_label(new_label@)
                ==> r is Ok && label_pairs(final(self).subroutine_labels) == without_pairs(
                    label_pairs(old(self).subroutine_labels).remove(old_label@),
                    new_label@,
                    label_pairs(old(self).subroutine_labels)[old_label@],
                ).insert(new_label@, label_pairs(old(self).subroutine_labels)[old_label@]),
    {
        if starts_with_char(old_label.as_str(), '.') {
            match subroutine {
                None => Err(Error::NoSelectedSubroutine),
                Some(s) => self.rename_local_label(old_label, new_label, s),
            }
        } else {
            self.rename_subroutine(old_label, new_label)
        }
    }

    /// Rename a local label of a subroutine (both names begin with `.`).
    fn rename_local_label(&mut self, old_label: String, new_label: String, subroutine: usize) -> (r: Result<()>)
        requires
            old(self).wf(),
            old_label@.len() > 0,
        ensures
            r is Err ==> final(self).subroutine_labels == old(self).subroutine_labels
                && final(self).subroutines@ == old(self).subroutines@
                && final(self).custom_labels@ == old(self).custom_labels@
                && final(self).local_labels@ == old(self).local_labels@,
            final(self).wf(),
            final(self).instructions@ == old(self).instructions@,
            final(self).subroutines@ == old(self).subroutines@,
            !(new_label@.len() > 0 && new_label@[0] == '.') ==> r == Err::<(), Error>(Error::InvalidLabelType),
            new_label@.len() > 0 && new_label@[0] == '.' && !((old(self).local_labels@.contains_key(subroutine) && label_pairs(old(self).local_labels@[subroutine]).contains_key(old_label@.subrange(1, old_label@.len() as int))))
                ==> (r matches Err(Error::UnknownLabel(e)) && e@ == old_label@),
            new_label@.len() > 0 && new_label@[0] == '.' && (old(self).local_labels@.contains_key(subroutine) && label_pairs(old(self).local_labels@[subroutine]).contains_key(old_label@.subrange(1, old_label@.len() as int)))
                && !label_pairs(old(self).local_labels@[subroutine]).contains_key(new_label@.subrange(1, new_label@.len() as int))
                && is_identifier(new_label@.subrange(1, new_label@.len() as int))
                && !reserved_label(new_label@.subrange(1, new_label@.len() as int))
                ==> r is Ok && final(self).local_labels@.contains_key(subroutine) && label_pairs(final(self).local_labels@[subroutine]) == without_pairs(
                    label_pairs(old(self).local_labels@[subroutine]).remove(old_label@.subrange(1, old_label@.len() as int)),
                    new_label@.subrange(1, new_label@.len() as int),
                    label_pairs(old(self).local_labels@[subroutine])[old_label@.subrange(1, old_label@.len() as int)],
                ).insert(
                    new_label@.subrange(1, new_label@.len() as int),
                    label_pairs(old(self).local_labels@[subroutine])[old_label@.subrange(1, old_label@.len() as int)],
                ),
    {
        if !starts_with_char(new_label.as_str(), '.') {
            return Err(Error::InvalidLabelType);
        }
        let old_name = drop_first(old_label.as_str());
        let new_name = drop_first(new_label.as_str());
        let ghost ll = self.local_labels@;
        let mut labels = match self.local_labels.remove(&subroutine) {
            Some(m) => m,
            None => {
                assert(self.local_labels@ =~= ll);
                proof {
                    Self::lemma_registry_frame(*old(self), *self);
                }
                return Err(Error::UnknownLabel(old_label));
            },
        };
        let pc = match labels_get_by_left(&labels, old_name.as_str()) {
            Some(pc) => pc,
            None => {
                self.local_labels.insert(subroutine, labels);
                assert(self.local_labels@ =~= ll);
                proof {
                    Self::lemma_registry_frame(*old(self), *self);
                }
                return Err(Error::UnknownLabel(old_label));
            },
        };
        match Self::validate_label(&labels, new_name.clone()) {
            Ok(()) => {},
            Err(e) => {
                self.local_labels.insert(subroutine, labels);
                assert(self.local_labels@ =~= ll);
                proof {
                    Self::lemma_registry_frame(*old(self), *self);
                }
                return Err(e);
            },
        }
        labels_remove_by_left(&mut labels, old_name.as_str());
        labels_insert(&mut labels, new_name.clone(), pc);
        self.local_labels.insert(subroutine, labels);
        self.custom_labels.insert(pc, new_name);
        proof {
            Self::lemma_registry_frame(*old(self), *self);
        }
        Ok(())
    }

    /// Rename a subroutine.
    fn rename_subroutine(&mut self, old_label: String, new_label: String) -> (r: Result<()>)
        requires
            old(self).wf(),
        ensures
            r is Err ==> final(self).subroutine_labels == old(self).subroutine_labels
                && final(self).subroutines@ == old(self).subroutines@
                && final(self).custom_labels@ == old(self).custom_labels@
                && final(self).local_labels@ == old(self).local_labels@,
            !(new_label@.len() > 0 && new_label@[0] == '.') && label_pairs(old(self).subroutine_labels).contains_key(old_label@)
                && label_pairs(old(self).subroutine_labels).contains_key(new_label@)
                ==> (r matches Err(Error::LabelAlreadyUsed(e)) && e@ == new_label@),
            !(new_label@.len() > 0 && new_label@[0] == '.') && label_pairs(old(self).subroutine_labels).contains_key(old_label@)
                && !label_pairs(old(self).subroutine_labels).contains_key(new_label@) && !is_identifier(new_label@)
                ==> (r matches Err(Error::InvalidLabel(e)) && e@ == new_label@),
            !(new_label@.len() > 0 && new_label@[0] == '.') && label_pairs(old(self).subroutine_labels).contains_key(old_label@)
                && !label_pairs(old(self).subroutine_labels).contains_key(new_label@) && is_identifier(new_label@)
                && reserved_label(new_label@) ==> (r matches Err(Error::ReservedLabel(e)) && e@ == new_label@),
            final(self).wf(),
            final(self).instructions@ == old(self).instructions@,
            final(self).subroutines@.dom() == old(self).subroutines@.dom(),
            new_label@.len() > 0 && new_label@[0] == '.' ==> r == Err::<(), Error>(Error::InvalidLabelType),
            !(new_label@.len() > 0 && new_label@[0] == '.') && !label_pairs(old(self).subroutine_labels).contains_key(old_label@)
                ==> (r matches Err(Error::UnknownLabel(s)) && s@ == old_label@),
            !(new_label@.len() > 0 && new_label@[0] == '.') && label_pairs(old(self).subroutine_labels).contains_key(old_label@)
                && !label_pairs(old(self).subroutine_labels).contains_key(new_label@) && is_identifier(new_label@) && !reserved_label(new_label@)
                ==> r is Ok && label_pairs(final(self).subroutine_labels) == without_pairs(
                    label_pairs(old(self).subroutine_labels).remove(old_label@),
                    new_label@,
                    label_pairs(old(self).subroutine_labels)[old_label@],
                ).insert(new_label@, label_pairs(old(self).subroutine_labels)[old_label@]),
    {
        if starts_with_char(new_label.as_str(), '.') {
            return Err(Error::InvalidLabelType);
        }
        let pc = match labels_get_by_left(&self.subroutine_labels, old_label.as_str()) {
            Some(pc) => pc,
            None => return Err(Error::UnknownLabel(old_label)),
        };
        match Self::validate_label(&self.subroutine_labels, new_label.clone()) {
            Ok(()) => {},
            Err(e) => return Err(e),
        }
        let ghost pairs = label_pairs(self.subroutine_labels);
        labels_remove_by_left(&mut self.subroutine_labels, old_label.as_str());
        let ghost removed = label_pairs(self.subroutine_labels);
        assert(injective_pairs(removed)) by {
            assert forall|a: Seq<char>, b: Seq<char>|
                #[trigger] removed.contains_key(a) && #[trigger] removed.contains_key(b) && a != b implies removed[a] != removed[b] by {
                assert(pairs.contains_key(a) && pairs.contains_key(b));
            }
        }
        labels_insert(&mut self.subroutine_labels, new_label.clone(), pc);
        proof {
            lemma_insert_keeps_injective(removed, new_label@, pc);
        }
        let ghost mid = *self;
        if let Some(mut sub) = self.subroutines.remove(&pc) {
            sub.set_label(new_label.clone());
            self.subroutines.insert(pc, sub);
            proof {
                assert(self.subroutines@.dom() =~= old(self).subroutines@.dom());
                assert forall|t: usize, q: usize|
                    old(self).subroutines@.contains_key(t) && #[trigger] old(self).subroutines@[t].instructions@.contains_key(q)
                    implies self.subroutines@.contains_key(t) && self.subroutines@[t].instructions@.contains_key(q) by {
                    if t != pc {
                        assert(self.subroutines@[t] == mid.subroutines@[t]);
                    }
                }
                assert forall|q: usize| #[trigger] self.instructions@.contains_key(q) implies self.visited_wf(q) by {
                    assert(old(self).instructions@.contains_key(q));
                    Self::lemma_visited_wf_frame(*old(self), *self, q);
                }
            }
        } else {
            assert(self.subroutines@ =~= old(self).subroutines@);
        }
        self.custom_labels.insert(pc, new_label);
        Ok(())
    }
}

impl Analysis {
    /// All analyzed subroutines, by address.
    pub fn subroutines(&self) -> (r: &BTreeMap<usize, Subroutine>)
        ensures
            r@ == self.subroutines@,
    {
        &self.subroutines
    }

    /// All analyzed instructions, by address.
    pub fn instructions(&self) -> (r: &BTreeMap<usize, Vec<Instruction>>)
        ensures
            r@ == self.instructions@,
    {
        &self.instructions
    }

    /// Instructions referenced by other instructions.
    pub fn references(&self) -> (r: &BTreeMap<usize, Vec<Reference>>)
        ensures
            r@ == self.references@,
    {
        &self.references
    }

    /// Instructions acting like indirect jumps.
    pub fn indirect_jumps(&self) -> (r: &BTreeMap<usize, IndirectJump>)
        ensures
            r@ == self.indirect_jumps@,
    {
        &self.indirect_jumps
    }

    /// Instructions that manipulate the stack in tricky ways.
    pub fn stack_manipulations(&self) -> (r: &Vec<usize>)
        ensures
            r@ == self.stack_manipulations@,
    {
        &self.stack_manipulations
    }

    /// Local labels, by subroutine.
    pub fn local_labels(&self) -> (r: &BTreeMap<usize, LabelMap>)
        ensures
            r@ == self.local_labels@,
    {
        &self.local_labels
    }

    /// The ROM's entry points.
    pub fn entry_points(&self) -> (r: &Vec<EntryPoint>)
        ensures
            r@ == self.entry_points@,
    {
        &self.entry_points
    }

    /// Labels set by the user.
    pub fn custom_labels(&self) -> (r: &BTreeMap<usize, String>)
        ensures
            r@ == self.custom_labels@,
    {
        &self.custom_labels
    }

    /// Assertions on instruction state changes.
    pub fn instruction_assertions(&self) -> (r: &BTreeMap<usize, StateChange>)
        ensures
            r@ == self.instruction_assertions@,
    {
        &self.instruction_assertions
    }

    /// Assertions on subroutine state changes.
    pub fn subroutine_assertions(&self) -> (r: &BTreeMap<usize, BTreeMap<usize, StateChange>>)
        ensures
            r@ == self.subroutine_assertions@,
    {
        &self.subroutine_assertions
    }

    /// Assertions on jump table targets.
    pub fn jump_assertions(&self) -> (r: &BTreeMap<usize, Vec<JumpTableEntry>>)
        ensures
            r@ == self.jump_assertions@,
    {
        &self.jump_assertions
    }

    /// Jump table targets, with the number of callers that name them.
    pub fn jump_table_targets(&self) -> (r: &BTreeMap<usize, usize>)
        ensures
            r@ == self.jump_table_targets@,
    {
        &self.jump_table_targets
    }

    /// Instruction comments.
    pub fn comments(&self) -> (r: &BTreeMap<usize, String>)
        ensures
            r@ == self.comments@,
    {
        &self.comments
    }

    /// Subroutine labels.
    pub fn subroutine_labels(&self) -> (r: &LabelMap)
        ensures
            *r == self.subroutine_labels,
    {
        &self.subroutine_labels
    }
}

impl Instruction {
    /// Return the label that names the instruction's target, if the
    /// instruction transfers control to an address that has one.
    pub fn argument_alias(&self, analysis: &Analysis) -> (r: Option<String>)
        ensures
            r is Some ==> self.is_control_spec() && self.absolute_argument_spec() is Some,
    {
        match self.absolute_argument() {
            Some(arg) => {
                if self.is_control() {
                    analysis.label(arg, Some(self.subroutine))
                } else {
                    None
                }
            },
            None => None,
        }
    }
}

/// Every recorded instruction belongs to a subroutine of the analysis.
pub proof fn lemma_instructions_in_subroutines(a: Analysis, pc: usize, k: int)
    requires
        a.wf(),
        a.instructions@.contains_key(pc),
        0 <= k < a.instructions@[pc]@.len(),
    ensures
        a.subroutines@.contains_key(a.instructions@[pc]@[k].subroutine),
{
    assert(a.visited_wf(pc));
    assert(a.instructions@[pc]@[k].pc == pc);
}

/// The records at one address differ in their subroutine or processor
/// state: the same (address, subroutine, P) is recorded at most once.
pub proof fn lemma_visited_unique(a: Analysis, pc: usize, i: int, j: int)
    requires
        a.wf(),
        a.instructions@.contains_key(pc),
        0 <= i < a.instructions@[pc]@.len(),
        0 <= j < a.instructions@[pc]@.len(),
        i != j,
    ensures
        a.instructions@[pc]@[i].subroutine != a.instructions@[pc]@[j].subroutine
            || a.instructions@[pc]@[i].state.p != a.instructions@[pc]@[j].state.p,
{
    assert(a.visited_wf(pc));
    let v = a.instructions@[pc]@;
    if i < j {
        assert(!same_id(v[i], v[j]));
    } else {
        assert(!same_id(v[j], v[i]));
    }
    assert(v[i].pc == pc && v[j].pc == pc);
}

/// A state change that the analysis recorded for a subroutine at `pc` is at
/// one of the subroutine's instructions.
pub proof fn lemma_recorded_changes_at_instructions(a: Analysis, s: usize, pc: usize)
    requires
        a.wf(),
        a.subroutines@.contains_key(s),
        a.subroutines@[s].state_changes@.contains_key(pc)
            || a.subroutines@[s].unknown_state_changes@.contains_key(pc),
    ensures
        a.subroutines@[s].instructions@.contains_key(pc),
{
}

/// The reference count of a jump table target is the number of distinct
/// callers whose jump assertions name it (zero when it is not a target).
pub proof fn lemma_jump_table_refcount(a: Analysis, target: usize)
    requires
        a.wf(),
    ensures
        a.jump_table_targets@.contains_key(target) ==> a.jump_table_targets@[target] == callers_of(
            a.jump_assertions@,
            target,
        ).len(),
        !a.jump_table_targets@.contains_key(target) ==> callers_of(a.jump_assertions@, target).len() == 0,
{
}

} // verus!
