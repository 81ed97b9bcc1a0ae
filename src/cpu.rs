use vstd::prelude::*;

use crate::analysis::{recorded, same_id, Analysis, IndirectJump, Reference};
use crate::instruction::{argument_size_of, Instruction, InstructionType};
use crate::opcodes::{opcode_table, AddressMode, Op};
use crate::register::Register;
use crate::rom::{is_ram_spec, ROM};
use crate::stack::{above, slots_above, Data, Entry, Stack};
use crate::state::{empty_change, inference_spec, m_of, unknown_change, x_of, State, StateChange, UnknownReason};
use crate::subroutine::Subroutine;

verus! {

broadcast use {vstd::std_specs::btree::group_btree_axioms, vstd::laws_cmp::group_laws_cmp};

/// SNES CPU emulation: one path of the symbolic walk.
pub struct CPU {
    /// Whether we should stop emulating after the current instruction.
    pub stop: bool,
    /// Program Counter.
    pub pc: usize,
    /// Subroutine currently being executed.
    pub subroutine: usize,
    /// Processor state.
    pub state: State,
    /// Processor state change caused by the execution of this subroutine.
    pub state_change: StateChange,
    /// What we know about the CPU state based on the instructions executed.
    pub state_inference: StateChange,
    /// Stack.
    pub stack: Stack,
    /// Accumulator.
    pub a: Register,
    /// Addresses of the calls that led to this subroutine.
    pub stack_trace: Vec<usize>,
    /// Subroutines that are waiting for this one to return.
    pub callers: Vec<usize>,
}

/// A copy of a list of addresses.
fn copy_addresses(v: &Vec<usize>) -> (r: Vec<usize>)
    ensures
        r@ == v@,
{
    let mut out: Vec<usize> = Vec::new();
    let mut i: usize = 0;
    while i < v.len()
        invariant
            i <= v@.len(),
            out@ == v@.subrange(0, i as int),
        decreases v.len() - i,
    {
        out.push(v[i]);
        i += 1;
        assert(out@ =~= v@.subrange(0, i as int));
    }
    assert(out@ =~= v@);
    out
}

/// Whether a list of addresses holds `x`.
fn holds(v: &Vec<usize>, x: usize) -> (r: bool)
    ensures
        r == v@.contains(x),
{
    let mut i: usize = 0;
    while i < v.len()
        invariant
            i <= v@.len(),
            forall|j: int| 0 <= j < i ==> v@[j] != x,
        decreases v.len() - i,
    {
        if v[i] == x {
            return true;
        }
        i += 1;
    }
    false
}

/// The bytes of an instruction's argument, little-endian.
fn read_argument(rom: &ROM, pc: usize, size: usize) -> (r: usize)
    requires
        size <= 3,
        pc < usize::MAX - 4,
        forall|j: int| 1 <= j <= size ==> #[trigger] rom.readable((pc + j) as usize),
    ensures
        r <= 0xFFFFFF,
{
    let b1: usize = if size >= 1 {
        rom.read_byte(pc + 1) as usize
    } else {
        0
    };
    let b2: usize = if size >= 2 {
        rom.read_byte(pc + 2) as usize
    } else {
        0
    };
    let b3: usize = if size >= 3 {
        rom.read_byte(pc + 3) as usize
    } else {
        0
    };
    b1 + b2 * 0x100 + b3 * 0x10000
}

/// Whether the instruction at `pc` can be decoded in `state`: its opcode
/// and every byte of its argument lie in the image.
pub open spec fn decodable(rom: ROM, pc: usize, state: State) -> bool {
    &&& pc < usize::MAX - 4
    &&& rom.readable(pc)
    &&& forall|k: int|
        1 <= k <= argument_size_of(opcode_table(rom.byte_at(pc)).1, state) ==> #[trigger] rom.readable(
            (pc + k) as usize,
        )
}

/// The inference after an instruction: an immediate operand whose width
/// the subroutine has not changed yet tells the width it was entered with.
pub open spec fn inferred(i: Instruction, state: State, change: StateChange, inference: StateChange) -> StateChange {
    StateChange {
        m: if i.mode_spec() == AddressMode::ImmediateM && change.m is None {
            Some(state.m_flag())
        } else {
            inference.m
        },
        x: if i.mode_spec() == AddressMode::ImmediateX && change.x is None {
            Some(state.x_flag())
        } else {
            inference.x
        },
        ..inference
    }
}

/// The accumulated change after a SEP or REP, simplified by the inference.
pub open spec fn sep_rep_change(i: Instruction, change: StateChange, inference: StateChange) -> StateChange {
    let mask = (i.raw_argument & 0xFF) as u8;
    let bit = i.op_spec() == Op::SEP;
    inference_spec(
        StateChange {
            m: if m_of(mask) { Some(bit) } else { change.m },
            x: if x_of(mask) { Some(bit) } else { change.x },
            ..change
        },
        inference,
    )
}

/// P after a SEP (bits of the mask set) or a REP (bits cleared), M and X only.
pub open spec fn sep_rep_p(i: Instruction, p: u8) -> u8 {
    let mask = (i.raw_argument & 0xFF) as u8;
    if i.op_spec() == Op::SEP {
        p | (mask & 0x30)
    } else {
        p & !(mask & 0x30)
    }
}

/// The value of the accumulator shadow in the given state, if known.
pub open spec fn a_value(a: Register, state: State) -> Option<u16> {
    if a.size_spec(state) == 1 {
        a.lo
    } else {
        a.whole_spec()
    }
}

/// 16-bit sum, wrapping around.
pub open spec fn wrap_add(v: u16, w: u16) -> u16 {
    ((v as int + w as int) % 0x10000) as u16
}

/// 16-bit difference, wrapping around.
pub open spec fn wrap_sub(v: u16, w: u16) -> u16 {
    ((v as int - w as int + 0x10000) % 0x10000) as u16
}

/// 16-bit sum, wrapping around.
fn fold_add(v: u16, w: u16) -> (r: u16)
    ensures
        r == wrap_add(v, w),
{
    if v as u32 + w as u32 >= 0x10000 {
        (v as u32 + w as u32 - 0x10000) as u16
    } else {
        v + w
    }
}

/// 16-bit difference, wrapping around.
fn fold_sub(v: u16, w: u16) -> (r: u16)
    ensures
        r == wrap_sub(v, w),
{
    if v >= w {
        v - w
    } else {
        (v as u32 + 0x10000 - w as u32) as u16
    }
}

/// The 16-bit immediate operand of an instruction.
pub open spec fn immediate_word(i: Instruction) -> u16 {
    (i.argument_spec()->0 % 0x10000) as u16
}

/// The state after applying a change's components to it.
pub open spec fn applied_state_ok(before: State, after: State, c: StateChange) -> bool {
    &&& after.m_flag() == (match c.m {
        Some(m) => m,
        None => before.m_flag(),
    })
    &&& after.x_flag() == (match c.x {
        Some(x) => x,
        None => before.x_flag(),
    })
}

/// The accumulated change after recording a change's components in it.
pub open spec fn applied_change(before: StateChange, c: StateChange) -> StateChange {
    StateChange {
        m: if c.m is Some {
            c.m
        } else {
            before.m
        },
        x: if c.x is Some {
            c.x
        } else {
            before.x
        },
        ..before
    }
}

/// The known changes that the subroutines `targets` return with, each
/// simplified against `state`.
pub open spec fn returns_union(analysis: Analysis, targets: Seq<usize>, state: State) -> Set<StateChange> {
    Set::new(
        |c: StateChange|
            exists|j: int|
                0 <= j < targets.len() && analysis.subroutines@.contains_key(#[trigger] targets[j])
                    && analysis.subroutines@[targets[j]].simplified_set(state).contains(c),
    )
}

/// A callee on the call stack that has not returned yet: it is known, has
/// no unknown change and no known return.
pub open spec fn recursive_callee(analysis: Analysis, target: usize, cpu: CPU) -> bool {
    &&& analysis.subroutines@.contains_key(target)
    &&& !analysis.subroutines@[target].has_unknown()
    &&& analysis.subroutines@[target].simplified_set(cpu.state) == Set::<StateChange>::empty()
    &&& (target == cpu.subroutine || cpu.callers@.contains(target))
}

/// Whether a PLP that pops `e` restores a state that a PHP saved.
pub open spec fn plp_restores(e: Entry) -> bool {
    match e {
        Entry { instruction: Some(src), data: Data::State(_, _) } => src.op_spec() == Op::PHP,
        _ => false,
    }
}

/// Whether an instruction or subroutine assertion resolves unknowns at `pc`.
pub open spec fn asserted_here(analysis: Analysis, sub: usize, pc: usize) -> bool {
    analysis.instruction_assertions@.contains_key(pc) || (analysis.subroutine_assertions@.contains_key(sub)
        && analysis.subroutine_assertions@[sub]@.contains_key(pc))
}

/// A called subroutine whose returns can be propagated: it is known, it
/// returns only known changes, and it is not a recursive call that has not
/// returned yet.
pub open spec fn callee_returns(analysis: Analysis, target: usize, cpu: CPU) -> bool {
    analysis.subroutines@.contains_key(target) ==> !analysis.subroutines@[target].has_unknown() && !(
    analysis.subroutines@[target].simplified_set(cpu.state) == Set::<StateChange>::empty() && (target
        == cpu.subroutine || cpu.callers@.contains(target)))
}

impl CPU {
    /// The CPU can run against the analysis: the analysis is consistent and
    /// knows the CPU's subroutine.
    pub open spec fn ready(self, analysis: Analysis) -> bool {
        &&& analysis.wf()
        &&& analysis.subroutines@.contains_key(self.subroutine)
        &&& self.a.wf()
    }

    /// What every handler keeps: the analysis stays consistent, keeps the
    /// user's input and every subroutine it had, and the CPU its subroutine.
    pub open spec fn keeps(
        self,
        before: CPU,
        analysis: Analysis,
        analysis_before: Analysis,
    ) -> bool {
        &&& analysis.wf()
        &&& analysis.same_input(analysis_before)
        &&& analysis_before.subroutines@.dom().subset_of(analysis.subroutines@.dom())
        &&& analysis.grows_from(analysis_before)
        &&& forall|pc: usize, s: usize, p: u8|
            #[trigger] recorded(analysis_before.instructions@, pc, s, p) ==> recorded(analysis.instructions@, pc, s, p)
        &&& self.subroutine == before.subroutine
        &&& self.a.wf()
    }

    /// The instruction at `pc` was recorded in the CPU's subroutine.
    pub open spec fn knows(self, analysis: Analysis, pc: usize) -> bool {
        analysis.subroutines@[self.subroutine].instructions@.contains_key(pc)
    }

    /// Instantiate a CPU at `pc`, in `subroutine`, with processor state `p`.
    pub fn new(pc: usize, subroutine: usize, p: u8) -> (r: Self)
        ensures
            !r.stop,
            r.pc == pc,
            r.subroutine == subroutine,
            r.state.p == p,
            r.state_change == empty_change(),
            r.state_inference == empty_change(),
            r.a.wf(),
    {
        Self {
            stop: false,
            pc,
            subroutine,
            state: State::new(p),
            state_change: StateChange::new_empty(),
            state_inference: StateChange::new_empty(),
            stack: Stack::new(),
            a: Register::new(true),
            stack_trace: Vec::new(),
            callers: Vec::new(),
        }
    }

    /// A copy of this CPU, to walk another path.
    pub fn fork(&self) -> (r: Self)
        ensures
            r.stop == self.stop,
            r.pc == self.pc,
            r.subroutine == self.subroutine,
            r.state == self.state,
            r.state_change == self.state_change,
            r.state_inference == self.state_inference,
            r.stack.memory@ == self.stack.memory@,
            r.stack.pointer == self.stack.pointer,
            r.a == self.a,
            r.stack_trace@ == self.stack_trace@,
            r.callers@ == self.callers@,
    {
        Self {
            stop: self.stop,
            pc: self.pc,
            subroutine: self.subroutine,
            state: self.state,
            state_change: self.state_change,
            state_inference: self.state_inference,
            stack: Stack {
                memory: self.stack.memory.clone(),
                pointer: self.stack.pointer,
                last_pointer_changer: self.stack.last_pointer_changer,
            },
            a: self.a,
            stack_trace: copy_addresses(&self.stack_trace),
            callers: copy_addresses(&self.callers),
        }
    }

    /// Start emulating, until this path stops.
    pub fn run(&mut self, analysis: &mut Analysis)
        requires
            old(self).ready(*old(analysis)),
        ensures
            final(self).stop,
            final(self).keeps(*old(self), *final(analysis), *old(analysis)),
            final(analysis).steps_left <= old(analysis).steps_left,
            !old(self).stop && old(analysis).steps_left > 0 && !is_ram_spec(old(self).pc) && decodable(old(analysis).rom, old(self).pc, old(self).state)
                ==> recorded(final(analysis).instructions@, old(self).pc, old(self).subroutine, old(self).state.p),
        decreases old(analysis).steps_left, 4nat,
    {
        if self.stop {
            return;
        }
        self.step(analysis);
        while !self.stop
            invariant
                self.ready(*analysis),
                self.keeps(*old(self), *analysis, *old(analysis)),
                analysis.steps_left <= old(analysis).steps_left,
                old(analysis).steps_left > 0 && !is_ram_spec(old(self).pc) && decodable(old(analysis).rom, old(self).pc, old(self).state)
                    ==> recorded(analysis.instructions@, old(self).pc, old(self).subroutine, old(self).state.p),
            decreases analysis.steps_left, if self.stop { 0nat } else { 1nat },
        {
            self.step(analysis);
        }
    }

    /// Fetch and execute the next instruction.
    fn step(&mut self, analysis: &mut Analysis)
        requires
            old(self).ready(*old(analysis)),
        ensures
            final(self).ready(*final(analysis)),
            final(self).keeps(*old(self), *final(analysis), *old(analysis)),
            final(analysis).steps_left < old(analysis).steps_left || final(self).stop,
            final(analysis).steps_left <= old(analysis).steps_left,
            old(analysis).steps_left > 0 && !is_ram_spec(old(self).pc) && decodable(old(analysis).rom, old(self).pc, old(self).state)
                ==> recorded(final(analysis).instructions@, old(self).pc, old(self).subroutine, old(self).state.p),
        decreases old(analysis).steps_left, 3nat,
    {
        if analysis.steps_left == 0 || ROM::is_ram(self.pc) || self.pc >= usize::MAX - 4 {
            self.stop = true;
            return;
        }
        let pc = self.pc;
        if !analysis.rom.is_readable(pc) {
            // The code runs off the end of the image.
            self.stop = true;
            return;
        }
        let opcode = analysis.rom.read_byte(pc);
        let probe = Instruction {
            pc,
            subroutine: self.subroutine,
            state: self.state,
            opcode,
            raw_argument: 0,
            state_change: self.state_change,
        };
        let size = probe.argument_size();
        let mut k: usize = 1;
        while k <= size
            invariant
                *self == *old(self),
                *analysis == *old(analysis),
                self.ready(*analysis),
                pc == self.pc,
                analysis.steps_left > 0,
                analysis.rom.readable(pc),
                size == argument_size_of(opcode_table(analysis.rom.byte_at(pc)).1, self.state),
                1 <= k <= size + 1,
                size <= 3,
                pc < usize::MAX - 4,
                forall|j: int| 1 <= j < k ==> #[trigger] analysis.rom.readable((pc + j) as usize),
            decreases size + 1 - k,
        {
            if !analysis.rom.is_readable(pc + k) {
                // The argument runs off the end of the image.
                proof {
                    assert(size == argument_size_of(opcode_table(analysis.rom.byte_at(pc)).1, self.state));
                    assert(!decodable(analysis.rom, pc, self.state)) by {
                        assert(!analysis.rom.readable((pc + k as int) as usize));
                    }
                }
                self.stop = true;
                return;
            }
            k += 1;
        }
        analysis.steps_left = analysis.steps_left - 1;
        assert(self.ready(*analysis));
        let argument = read_argument(&analysis.rom, pc, size);
        let instruction = Instruction {
            pc,
            subroutine: self.subroutine,
            state: self.state,
            opcode,
            raw_argument: argument,
            state_change: self.state_change,
        };
        if analysis.is_visited(instruction) {
            proof {
                let j = choose|j: int|
                    0 <= j < analysis.instructions@[pc]@.len() && same_id(#[trigger] analysis.instructions@[pc]@[j], instruction);
                assert(analysis.instructions@[pc]@[j].subroutine == self.subroutine);
            }
            self.stop = true;
        } else {
            analysis.add_instruction(instruction);
            assert(self.ready(*analysis));
            self.execute(analysis, instruction);
        }
    }

    /// Emulate an instruction.
    pub fn execute(&mut self, analysis: &mut Analysis, instruction: Instruction)
        requires
            old(self).knows(*old(analysis), instruction.pc),
            old(self).ready(*old(analysis)),
            instruction.pc == old(self).pc,
            instruction.pc < usize::MAX - 4,
            instruction.subroutine == old(self).subroutine,
            instruction.state == old(self).state,
        ensures
            (instruction.type_spec() == InstructionType::Other || instruction.type_spec() == InstructionType::Push
                || instruction.type_spec() == InstructionType::Pop || instruction.type_spec() == InstructionType::SepRep
                || instruction.type_spec() == InstructionType::Interrupt || instruction.type_spec() == InstructionType::Return)
                ==> final(self).pc == old(self).pc + instruction.size_spec(),
            instruction.type_spec() == InstructionType::SepRep ==> final(self).state_change == sep_rep_change(
                instruction,
                old(self).state_change,
                inferred(instruction, old(self).state, old(self).state_change, old(self).state_inference),
            ) && final(self).state.p == sep_rep_p(instruction, old(self).state.p) && final(self).stop == old(self).stop,
            instruction.type_spec() == InstructionType::Branch ==> (instruction.absolute_argument_spec() matches Some(t)
                ==> final(self).pc == t && final(analysis).references@[instruction.pc]@.contains(
                Reference { target: t, subroutine: old(self).subroutine },
            )),
            instruction.type_spec() == InstructionType::Jump && instruction.absolute_argument_spec() is Some
                ==> final(self).stop,
            instruction.type_spec() == InstructionType::Call ==> (instruction.absolute_argument_spec() matches Some(t)
                ==> final(analysis).subroutines@.contains_key(t)),
            instruction.type_spec() == InstructionType::Return ==> final(self).stop && (
                final(analysis).subroutines@[old(self).subroutine].state_changes@.contains_key(instruction.pc)
                || final(analysis).subroutines@[old(self).subroutine].unknown_state_changes@.contains_key(instruction.pc)
                || old(analysis).instruction_assertions@.contains_key(instruction.pc)),
            final(self).ready(*final(analysis)),
            final(self).keeps(*old(self), *final(analysis), *old(analysis)),
            final(analysis).steps_left <= old(analysis).steps_left,
        decreases old(analysis).steps_left, 2nat,
    {
        self.pc = self.pc + instruction.size();

        // See if we can learn something about the *required*
        // state of the CPU based on the current instruction.
        self.derive_state_inference(instruction);

        match instruction.typ() {
            InstructionType::Branch => self.branch(analysis, instruction),
            InstructionType::Call => self.call(analysis, instruction),
            InstructionType::Interrupt => self.interrupt(analysis, instruction),
            InstructionType::Jump => self.jump(analysis, instruction),
            InstructionType::Return => self.ret(analysis, instruction),
            InstructionType::SepRep => self.sep_rep(instruction),
            InstructionType::Pop => self.pop(analysis, instruction),
            InstructionType::Push => self.push(instruction),
            _ => {
                if instruction.changes_a() {
                    self.change_a(instruction);
                } else if instruction.changes_stack() {
                    self.change_stack(analysis, instruction);
                }
            },
        }
    }

    /// Run a copy of this CPU from `pc`, if the step budget allows it.
    fn run_fork(analysis: &mut Analysis, cpu: &mut CPU)
        requires
            old(cpu).ready(*old(analysis)),
        ensures
            final(cpu).keeps(*old(cpu), *final(analysis), *old(analysis)),
            final(analysis).steps_left <= old(analysis).steps_left,
        decreases old(analysis).steps_left, 0nat,
    {
        if analysis.steps_left > 0 {
            analysis.steps_left = analysis.steps_left - 1;
            cpu.run(analysis);
        }
    }

    /// Branch instruction emulation: the path that does not take the branch
    /// is walked first, then this one takes it.
    fn branch(&mut self, analysis: &mut Analysis, instruction: Instruction)
        requires
            old(self).knows(*old(analysis), instruction.pc),
            old(self).ready(*old(analysis)),
            instruction.subroutine == old(self).subroutine,
        ensures
            instruction.absolute_argument_spec() matches Some(t) ==> final(analysis).references@.contains_key(instruction.pc)
                && final(analysis).references@[instruction.pc]@.contains(Reference { target: t, subroutine: old(self).subroutine }),
            final(self).ready(*final(analysis)),
            final(self).keeps(*old(self), *final(analysis), *old(analysis)),
            final(analysis).steps_left <= old(analysis).steps_left,
            instruction.absolute_argument_spec() matches Some(t) ==> final(self).pc == t,
        decreases old(analysis).steps_left, 1nat,
    {
        let mut cpu = self.fork();
        Self::run_fork(analysis, &mut cpu);
        match instruction.absolute_argument() {
            Some(target) => {
                analysis.add_reference(instruction.pc, target, self.subroutine);
                self.pc = target;
            },
            None => {
                self.stop = true;
            },
        }
    }

    /// Given a jump or call instruction, return its target(s), if any: the
    /// absolute argument, or else the asserted jump table.
    fn jump_targets(&self, analysis: &Analysis, instruction: Instruction) -> (r: Option<Vec<usize>>)
        ensures
            instruction.absolute_argument_spec() matches Some(t) ==> r matches Some(v) && v@
                == seq![t],
            instruction.absolute_argument_spec() is None ==> (r is Some
                <==> analysis.jump_assertions@.contains_key(instruction.pc)),
    {
        match instruction.absolute_argument() {
            Some(target) => {
                let mut v: Vec<usize> = Vec::new();
                v.push(target);
                assert(v@ =~= seq![target]);
                Some(v)
            },
            None => match analysis.jump_assertions.get(&instruction.pc) {
                None => None,
                Some(entries) => {
                    let mut v: Vec<usize> = Vec::new();
                    let mut k: usize = 0;
                    while k < entries.len()
                        invariant
                            k <= entries@.len(),
                        decreases entries.len() - k,
                    {
                        let t = entries[k].target;
                        if !holds(&v, t) {
                            v.push(t);
                        }
                        k += 1;
                    }
                    Some(v)
                },
            },
        }
    }

    /// Call instruction emulation: each target is walked as a subroutine,
    /// then its return state is propagated to this path.
    fn call(&mut self, analysis: &mut Analysis, instruction: Instruction)
        requires
            old(self).knows(*old(analysis), instruction.pc),
            old(self).ready(*old(analysis)),
            instruction.subroutine == old(self).subroutine,
        ensures
            instruction.absolute_argument_spec() matches Some(t) ==> final(analysis).subroutines@.contains_key(t),
            final(self).ready(*final(analysis)),
            final(self).keeps(*old(self), *final(analysis), *old(analysis)),
            final(analysis).steps_left <= old(analysis).steps_left,
        decreases old(analysis).steps_left, 1nat,
    {
        let targets = match self.jump_targets(analysis, instruction) {
            Some(t) => t,
            None => {
                analysis.add_indirect_jump(self.subroutine, instruction.pc, IndirectJump::Call);
                self.unknown_state_change(analysis, instruction.pc, UnknownReason::IndirectJump);
                return;
            },
        };
        let ret_size: usize = if instruction.operation() == Op::JSL {
            3
        } else {
            2
        };
        let mut trace = copy_addresses(&self.stack_trace);
        trace.push(instruction.pc);
        let mut k: usize = 0;
        while k < targets.len()
            invariant
                k <= targets@.len(),
                forall|j: int| 0 <= j < k ==> #[trigger] analysis.subroutines@.contains_key(targets@[j]),
                self.ready(*analysis),
                self.keeps(*old(self), *analysis, *old(analysis)),
                analysis.steps_left <= old(analysis).steps_left,
                ret_size <= 4,
            decreases targets.len() - k,
        {
            let target = targets[k];
            analysis.add_subroutine(target, None, copy_addresses(&trace));
            analysis.add_reference(instruction.pc, target, self.subroutine);

            // Create a parallel instance of the CPU to execute the
            // subroutine that is being called.
            let mut cpu = self.fork();
            cpu.state_change = StateChange::new_empty();
            cpu.state_inference = StateChange::new_empty();
            cpu.subroutine = target;
            cpu.pc = target;
            cpu.stack_trace = copy_addresses(&trace);
            cpu.callers.push(self.subroutine);
            let ret_address = if self.pc > 0 {
                self.pc - 1
            } else {
                0
            };
            cpu.stack.push(instruction, Data::Value(ret_address), ret_size);
            let ghost subs = analysis.subroutines@.dom();
            assert(subs.contains(target));
            Self::run_fork(analysis, &mut cpu);
            assert forall|j: int| 0 <= j <= k implies #[trigger] analysis.subroutines@.contains_key(targets@[j]) by {
                assert(subs.contains(targets@[j]));
            }
            k += 1;
        }
        let ghost subs = analysis.subroutines@.dom();
        proof {
            if let Some(t) = instruction.absolute_argument_spec() {
                assert(targets@[0] == t);
                assert(subs.contains(t));
            }
        }
        self.propagate_subroutine_state(analysis, instruction.pc, &targets);
        assert(subs.subset_of(analysis.subroutines@.dom()));
    }

    /// Take the state changes of the called subroutines and propagate them
    /// to the current path: a single possible change is applied; anything
    /// else is an unknown state change.
    fn propagate_subroutine_state(&mut self, analysis: &mut Analysis, call_pc: usize, targets: &Vec<usize>)
        requires
            old(self).knows(*old(analysis), call_pc),
            old(self).ready(*old(analysis)),
        ensures
            final(self).ready(*final(analysis)),
            final(self).keeps(*old(self), *final(analysis), *old(analysis)),
            final(analysis).steps_left == old(analysis).steps_left,
            (forall|j: int| 0 <= j < targets@.len() ==> #[trigger] callee_returns(*old(analysis), targets@[j], *old(self)))
                ==> forall|c: StateChange| returns_union(*old(analysis), targets@, old(self).state) == set![c]
                ==> final(self).state_change == applied_change(old(self).state_change, c)
                    && applied_state_ok(old(self).state, final(self).state, c)
                    && final(self).stop == old(self).stop,
            !asserted_here(*old(analysis), old(self).subroutine, call_pc) ==> forall|j: int|
                0 <= j < targets@.len() && (forall|i: int| 0 <= i < j ==> #[trigger] callee_returns(*old(analysis), targets@[i], *old(self)))
                    && #[trigger] recursive_callee(*old(analysis), targets@[j], *old(self))
                    ==> final(self).stop && final(analysis).subroutines@[old(self).subroutine].unknown_state_changes@[call_pc]
                    == unknown_change(UnknownReason::Recursion),
            !asserted_here(*old(analysis), old(self).subroutine, call_pc) ==> forall|j: int|
                0 <= j < targets@.len() && (forall|i: int| 0 <= i < j ==> #[trigger] callee_returns(*old(analysis), targets@[i], *old(self)))
                    && old(analysis).subroutines@.contains_key(#[trigger] targets@[j])
                    && old(analysis).subroutines@[targets@[j]].has_unknown()
                    ==> final(self).stop && final(analysis).subroutines@[old(self).subroutine].unknown_state_changes@[call_pc]
                    == unknown_change(UnknownReason::Unknown),
            !asserted_here(*old(analysis), old(self).subroutine, call_pc) && (forall|j: int|
                0 <= j < targets@.len() ==> #[trigger] callee_returns(*old(analysis), targets@[j], *old(self)))
                && (forall|c: StateChange| returns_union(*old(analysis), targets@, old(self).state) != set![c])
                ==> final(self).stop && final(analysis).subroutines@[old(self).subroutine].unknown_state_changes@[call_pc]
                == unknown_change(UnknownReason::MultipleReturnStates),
    {
        let mut changes: Vec<StateChange> = Vec::new();
        let mut k: usize = 0;
        while k < targets.len()
            invariant
                self.ready(*analysis),
                self.knows(*analysis, call_pc),
                *self == *old(self),
                *analysis == *old(analysis),
                k <= targets@.len(),
                changes@.no_duplicates(),
                forall|i: int| 0 <= i < k ==> #[trigger] callee_returns(*analysis, targets@[i], *self),
                changes@.to_set() == returns_union(*analysis, targets@.subrange(0, k as int), self.state),
            decreases targets.len() - k,
        {
            let target = targets[k];
            let ghost before = changes@;
            let ghost prev = targets@.subrange(0, k as int);
            let ghost next = targets@.subrange(0, k + 1);
            assert(next =~= prev.push(target));
            let sub: &Subroutine = match analysis.subroutines.get(&target) {
                Some(s) => s,
                None => {
                    proof {
                        assert(returns_union(*analysis, next, self.state) =~= returns_union(*analysis, prev, self.state)) by {
                            assert forall|c: StateChange| returns_union(*analysis, next, self.state).contains(c) implies returns_union(*analysis, prev, self.state).contains(c) by {
                                let j = choose|j: int| 0 <= j < next.len() && analysis.subroutines@.contains_key(#[trigger] next[j]) && analysis.subroutines@[next[j]].simplified_set(self.state).contains(c);
                                assert(j < prev.len());
                                assert(prev[j] == next[j]);
                            }
                            assert forall|c: StateChange| returns_union(*analysis, prev, self.state).contains(c) implies returns_union(*analysis, next, self.state).contains(c) by {
                                let j = choose|j: int| 0 <= j < prev.len() && analysis.subroutines@.contains_key(#[trigger] prev[j]) && analysis.subroutines@[prev[j]].simplified_set(self.state).contains(c);
                                assert(next[j] == prev[j]);
                            }
                        }
                    }
                    assert(callee_returns(*analysis, targets@[k as int], *self));
                    k += 1;
                    continue;
                },
            };
            if sub.has_unknown_state_change() {
                assert(!callee_returns(*old(analysis), targets@[k as int], *old(self)));
                proof {
                    assert forall|j: int|
                        0 <= j < targets@.len() && (forall|i: int| 0 <= i < j ==> #[trigger] callee_returns(*old(analysis), targets@[i], *old(self)))
                            && old(analysis).subroutines@.contains_key(#[trigger] targets@[j])
                            && old(analysis).subroutines@[targets@[j]].has_unknown() implies j == k by {
                        if j < k {
                            assert(callee_returns(*old(analysis), targets@[j], *old(self)));
                        } else if j > k {
                            assert(callee_returns(*old(analysis), targets@[k as int], *old(self)));
                        }
                    }
                    assert forall|j: int|
                        0 <= j < targets@.len() && (forall|i: int| 0 <= i < j ==> #[trigger] callee_returns(*old(analysis), targets@[i], *old(self)))
                            && #[trigger] recursive_callee(*old(analysis), targets@[j], *old(self)) implies false by {
                        if j < k {
                            assert(callee_returns(*old(analysis), targets@[j], *old(self)));
                        } else if j > k {
                            assert(callee_returns(*old(analysis), targets@[k as int], *old(self)));
                        }
                    }
                }
                return self.unknown_state_change(analysis, call_pc, UnknownReason::Unknown);
            }
            let simplified = sub.simplified_state_changes(self.state);
            if simplified.len() == 0 && (target == self.subroutine || holds(&self.callers, target)) {
                proof {
                    assert(simplified@.to_set() =~= Set::<StateChange>::empty());
                    assert(!callee_returns(*old(analysis), targets@[k as int], *old(self)));
                    assert forall|j: int|
                        0 <= j < targets@.len() && (forall|i: int| 0 <= i < j ==> #[trigger] callee_returns(*old(analysis), targets@[i], *old(self)))
                            && old(analysis).subroutines@.contains_key(#[trigger] targets@[j])
                            && old(analysis).subroutines@[targets@[j]].has_unknown() implies false by {
                        if j < k {
                            assert(callee_returns(*old(analysis), targets@[j], *old(self)));
                        } else if j > k {
                            assert(callee_returns(*old(analysis), targets@[k as int], *old(self)));
                        }
                    }
                    assert forall|j: int|
                        0 <= j < targets@.len() && (forall|i: int| 0 <= i < j ==> #[trigger] callee_returns(*old(analysis), targets@[i], *old(self)))
                            && #[trigger] recursive_callee(*old(analysis), targets@[j], *old(self)) implies j == k by {
                        if j < k {
                            assert(callee_returns(*old(analysis), targets@[j], *old(self)));
                        } else if j > k {
                            assert(callee_returns(*old(analysis), targets@[k as int], *old(self)));
                        }
                    }
                }
                return self.unknown_state_change(analysis, call_pc, UnknownReason::Recursion);
            }
            let mut j: usize = 0;
            while j < simplified.len()
                invariant
                    j <= simplified@.len(),
                    changes@.no_duplicates(),
                    changes@.to_set() == before.to_set().union(simplified@.subrange(0, j as int).to_set()),
                decreases simplified.len() - j,
            {
                let c = simplified[j];
                let ghost cur = changes@;
                let mut seen = false;
                let mut t: usize = 0;
                while t < changes.len()
                    invariant
                        t <= changes@.len(),
                        seen == exists|u: int| 0 <= u < t && changes@[u] == c,
                    decreases changes.len() - t,
                {
                    if changes[t] == c {
                        seen = true;
                    }
                    t += 1;
                }
                if !seen {
                    changes.push(c);
                    proof {
                        assert forall|a: int, b: int| 0 <= a < changes@.len() && 0 <= b < changes@.len() && a != b implies changes@[a] != changes@[b] by {
                            if a < cur.len() && b < cur.len() {
                            } else {
                                assert(!cur.contains(c));
                            }
                        }
                    }
                }
                proof {
                    let sj = simplified@.subrange(0, j as int);
                    let sj1 = simplified@.subrange(0, j + 1);
                    assert(sj1 =~= sj.push(c));
                    assert forall|x: StateChange| changes@.to_set().contains(x) == before.to_set().union(sj1.to_set()).contains(x) by {
                        assert(cur.to_set().contains(x) == before.to_set().union(sj.to_set()).contains(x));
                        if x == c {
                            assert(sj1[j as int] == c);
                            assert(sj1.contains(c));
                            if seen {
                                let u = choose|u: int| 0 <= u < cur.len() && cur[u] == c;
                                assert(changes@[u] == c);
                                assert(changes@.contains(c));
                            } else {
                                assert(changes@[changes@.len() - 1] == c);
                                assert(changes@.contains(c));
                            }
                        } else {
                            assert(changes@.contains(x) == cur.contains(x)) by {
                                if changes@.contains(x) {
                                    let u = choose|u: int| 0 <= u < changes@.len() && changes@[u] == x;
                                    assert(u < cur.len());
                                    assert(cur[u] == x);
                                }
                                if cur.contains(x) {
                                    let u = choose|u: int| 0 <= u < cur.len() && cur[u] == x;
                                    assert(changes@[u] == x);
                                }
                            }
                            assert(sj1.contains(x) == sj.contains(x)) by {
                                if sj1.contains(x) {
                                    let u = choose|u: int| 0 <= u < sj1.len() && sj1[u] == x;
                                    assert(u < sj.len());
                                    assert(sj[u] == x);
                                }
                                if sj.contains(x) {
                                    let u = choose|u: int| 0 <= u < sj.len() && sj[u] == x;
                                    assert(sj1[u] == x);
                                }
                            }
                        }
                    }
                    assert(changes@.to_set() =~= before.to_set().union(sj1.to_set()));
                }
                j += 1;
            }
            proof {
                assert(simplified@.subrange(0, simplified@.len() as int) =~= simplified@);
                let st = sub.simplified_set(self.state);
                assert(changes@.to_set() =~= returns_union(*analysis, next, self.state)) by {
                    assert forall|c: StateChange| changes@.to_set().contains(c) == returns_union(*analysis, next, self.state).contains(c) by {
                        if returns_union(*analysis, next, self.state).contains(c) {
                            let u = choose|u: int| 0 <= u < next.len() && analysis.subroutines@.contains_key(#[trigger] next[u]) && analysis.subroutines@[next[u]].simplified_set(self.state).contains(c);
                            if u < prev.len() {
                                assert(prev[u] == next[u]);
                                assert(returns_union(*analysis, prev, self.state).contains(c));
                            } else {
                                assert(st.contains(c));
                                assert(simplified@.to_set().contains(c));
                            }
                        }
                        if changes@.to_set().contains(c) {
                            if before.to_set().contains(c) {
                                let u = choose|u: int| 0 <= u < prev.len() && analysis.subroutines@.contains_key(#[trigger] prev[u]) && analysis.subroutines@[prev[u]].simplified_set(self.state).contains(c);
                                assert(next[u] == prev[u]);
                            } else {
                                assert(simplified@.to_set().contains(c));
                                assert(st.contains(c));
                                assert(next[k as int] == target);
                            }
                        }
                    }
                }
            }
            proof {
                if sub.simplified_set(self.state) == Set::<StateChange>::empty() {
                    if simplified@.len() > 0 {
                        assert(simplified@.to_set().contains(simplified@[0]));
                    }
                }
                assert(callee_returns(*analysis, targets@[k as int], *self));
            }
            k += 1;
        }
        proof {
            assert(targets@.subrange(0, targets@.len() as int) =~= targets@);
            assert forall|j: int| 0 <= j < targets@.len() && old(analysis).subroutines@.contains_key(#[trigger] targets@[j])
                implies !old(analysis).subroutines@[targets@[j]].has_unknown() by {
                assert(callee_returns(*old(analysis), targets@[j], *old(self)));
            }
            assert forall|j: int| 0 <= j < targets@.len() implies !#[trigger] recursive_callee(*old(analysis), targets@[j], *old(self)) by {
                assert(callee_returns(*old(analysis), targets@[j], *old(self)));
            }
        }
        if changes.len() != 1 {
            proof {
                assert forall|c: StateChange| returns_union(*old(analysis), targets@, old(self).state) != set![c] by {
                    if changes@.len() == 0 {
                        assert(set![c].contains(c));
                        assert(!changes@.to_set().contains(c));
                    } else {
                        assert(changes@[0] != changes@[1]);
                        assert(changes@.to_set().contains(changes@[0]));
                        assert(changes@.to_set().contains(changes@[1]));
                    }
                }
            }
            return self.unknown_state_change(analysis, call_pc, UnknownReason::MultipleReturnStates);
        }
        let change = changes[0];
        proof {
            assert(changes@.to_set() =~= set![change]) by {
                assert forall|x: StateChange| changes@.to_set().contains(x) implies x == change by {
                    let u = choose|u: int| 0 <= u < changes@.len() && changes@[u] == x;
                }
            }
        }
        proof {
            assert forall|c: StateChange| returns_union(*old(analysis), targets@, old(self).state) == set![c] implies c == change by {
                assert(changes@.to_set().contains(change));
            }
        }
        self.apply_state_change(change);
    }

    /// Signal an unknown state change at `pc`: an instruction assertion is
    /// applied and the walk goes on; otherwise the subroutine assertion, or
    /// the unknown change, is recorded and this path stops.
    fn unknown_state_change(&mut self, analysis: &mut Analysis, pc: usize, reason: UnknownReason)
        requires
            old(self).knows(*old(analysis), pc),
            old(self).ready(*old(analysis)),
        ensures
            final(self).pc == old(self).pc,
            final(self).ready(*final(analysis)),
            final(self).keeps(*old(self), *final(analysis), *old(analysis)),
            final(analysis).steps_left == old(analysis).steps_left,
            old(analysis).instruction_assertions@.contains_key(pc) ==> !final(self).stop
                == !old(self).stop && final(self).state_change == applied_change(
                old(self).state_change,
                old(analysis).instruction_assertions@[pc],
            ) && applied_state_ok(old(self).state, final(self).state, old(analysis).instruction_assertions@[pc])
                && *final(analysis) == *old(analysis),
            !old(analysis).instruction_assertions@.contains_key(pc) ==> final(self).stop
                && (final(analysis).subroutines@[old(self).subroutine].state_changes@.contains_key(pc)
                || final(analysis).subroutines@[old(self).subroutine].unknown_state_changes@.contains_key(pc)),
            !old(analysis).instruction_assertions@.contains_key(pc) ==> ({
                let sa = old(analysis).subroutine_assertions@;
                let sub = old(self).subroutine;
                let c = if sa.contains_key(sub) && sa[sub]@.contains_key(pc) {
                    sa[sub]@[pc]
                } else {
                    unknown_change(reason)
                };
                &&& c.unknown_reason == UnknownReason::Known ==> final(analysis).subroutines@[sub].state_changes@[pc] == c
                &&& c.unknown_reason != UnknownReason::Known ==> final(analysis).subroutines@[sub].unknown_state_changes@[pc] == c
            }),
    {
        match analysis.instruction_assertion(pc) {
            Some(state_change) => {
                self.apply_state_change(state_change);
            },
            None => {
                let state_change = match analysis.subroutine_assertion(self.subroutine, pc) {
                    Some(state_change) => state_change,
                    None => StateChange::new_unknown(reason),
                };
                analysis.add_state_change(self.subroutine, pc, state_change);
                self.stop = true;
            },
        }
    }

    /// Apply a state change to the current path: to the processor state and
    /// to the accumulated change.
    pub fn apply_state_change(&mut self, change: StateChange)
        ensures
            applied_state_ok(old(self).state, final(self).state, change),
            final(self).state_change == applied_change(old(self).state_change, change),
            final(self).stop == old(self).stop,
            final(self).pc == old(self).pc,
            final(self).subroutine == old(self).subroutine,
            final(self).a == old(self).a,
            final(self).state_inference == old(self).state_inference,
    {
        if let Some(m) = change.m {
            self.state.set_m(m);
            self.state_change.set_m(m);
        }
        if let Some(x) = change.x {
            self.state.set_x(x);
            self.state_change.set_x(x);
        }
    }

    /// Record what the instruction's operand size tells about the state in
    /// which the subroutine was entered.
    pub fn derive_state_inference(&mut self, instruction: Instruction)
        ensures
            final(self).state_inference.m == (if instruction.mode_spec() == AddressMode::ImmediateM
                && old(self).state_change.m is None {
                Some(old(self).state.m_flag())
            } else {
                old(self).state_inference.m
            }),
            final(self).state_inference.x == (if instruction.mode_spec() == AddressMode::ImmediateX
                && old(self).state_change.x is None {
                Some(old(self).state.x_flag())
            } else {
                old(self).state_inference.x
            }),
            final(self).state_inference.unknown_reason == old(self).state_inference.unknown_reason,
            final(self).state == old(self).state,
            final(self).state_change == old(self).state_change,
            final(self).stop == old(self).stop,
            final(self).pc == old(self).pc,
            final(self).subroutine == old(self).subroutine,
            final(self).a == old(self).a,
    {
        match instruction.address_mode() {
            AddressMode::ImmediateM => {
                if self.state_change.m.is_none() {
                    self.state_inference.set_m(self.state.m());
                }
            },
            AddressMode::ImmediateX => {
                if self.state_change.x.is_none() {
                    self.state_inference.set_x(self.state.x());
                }
            },
            _ => {},
        }
    }

    /// SEP/REP instruction emulation: the mask sets (or clears) bits of the
    /// state and of the accumulated change, which the inference then simplifies.
    pub fn sep_rep(&mut self, instruction: Instruction)
        requires
            instruction.op_spec() == Op::SEP || instruction.op_spec() == Op::REP,
        ensures
            final(self).state_change == sep_rep_change(instruction, old(self).state_change, old(self).state_inference),
            final(self).state.p == sep_rep_p(instruction, old(self).state.p),
            final(self).state_inference == old(self).state_inference,
            final(self).stop == old(self).stop,
            final(self).pc == old(self).pc,
            final(self).subroutine == old(self).subroutine,
            final(self).a == old(self).a,
    {
        let mask = (instruction.raw_argument & 0xFF) as u8;
        if instruction.operation() == Op::SEP {
            self.state.set(mask);
            self.state_change.set(mask);
        } else {
            self.state.reset(mask);
            self.state_change.reset(mask);
        }
        // If we know that the processor is already in the mode that the
        // instruction switches to, no state change is being performed.
        let inference = self.state_inference;
        self.state_change.apply_inference(inference);
    }

    /// Push instruction emulation.
    fn push(&mut self, instruction: Instruction)
        requires
            old(self).a.wf(),
        ensures
            final(self).a == old(self).a,
            final(self).stop == old(self).stop,
            final(self).pc == old(self).pc,
            final(self).subroutine == old(self).subroutine,
            final(self).state == old(self).state,
            final(self).state_change == old(self).state_change,
    {
        match instruction.operation() {
            Op::PHP => self.stack.push_one(
                instruction,
                Data::State(self.state, self.state_change),
            ),
            Op::PHA => {
                let data = match self.a.get(self.state) {
                    Some(v) => Data::Value(v as usize),
                    None => Data::Empty,
                };
                let size = self.state.a_size();
                self.stack.push(instruction, data, size);
            },
            Op::PHX | Op::PHY => {
                let size = self.state.x_size();
                self.stack.push(instruction, Data::Empty, size);
            },
            Op::PHB | Op::PHK => self.stack.push(instruction, Data::Empty, 1),
            Op::PEA => {
                let data = match instruction.argument() {
                    Some(v) => Data::Value(v),
                    None => Data::Empty,
                };
                self.stack.push(instruction, data, 2);
            },
            _ => self.stack.push(instruction, Data::Empty, 2),
        }
    }

    /// Pop instruction emulation: PLP restores the state that a PHP saved;
    /// anything else on the stack there is a manipulation of the stack.
    fn pop(&mut self, analysis: &mut Analysis, instruction: Instruction)
        requires
            old(self).knows(*old(analysis), instruction.pc),
            old(self).ready(*old(analysis)),
        ensures
            instruction.op_spec() == Op::PLP && !plp_restores(old(self).stack.read_spec(above(old(self).stack.pointer)))
                && !asserted_here(*old(analysis), old(self).subroutine, instruction.pc)
                ==> final(analysis).subroutines@[old(self).subroutine].unknown_state_changes@[instruction.pc]
                == unknown_change(UnknownReason::StackManipulation),
            instruction.op_spec() == Op::PLA ==> final(self).stack.pointer == slots_above(
                old(self).stack.pointer,
                (if old(self).state.m_flag() { 1nat } else { 2nat }),
            ) && final(self).a.lo is None,
            (instruction.op_spec() == Op::PLX || instruction.op_spec() == Op::PLY) ==> final(self).stack.pointer
                == slots_above(old(self).stack.pointer, (if old(self).state.x_flag() { 1nat } else { 2nat })),
            instruction.op_spec() == Op::PLB ==> final(self).stack.pointer == slots_above(old(self).stack.pointer, 1),
            instruction.op_spec() == Op::PLD ==> final(self).stack.pointer == slots_above(old(self).stack.pointer, 2),
            final(self).pc == old(self).pc,
            instruction.op_spec() == Op::PLP ==> (match old(self).stack.read_spec(above(old(self).stack.pointer)) {
                Entry { instruction: Some(src), data: Data::State(st, ch) } => src.op_spec() == Op::PHP
                    ==> final(self).state == st && final(self).state_change == ch,
                _ => final(self).stop,
            }),
            final(self).ready(*final(analysis)),
            final(self).keeps(*old(self), *final(analysis), *old(analysis)),
            final(analysis).steps_left == old(analysis).steps_left,
    {
        match instruction.operation() {
            Op::PLP => {
                let entry = self.stack.pop_one();
                match (entry.instruction, entry.data) {
                    (Some(i), Data::State(state, state_change)) => {
                        if i.operation() == Op::PHP {
                            self.state = state;
                            self.state_change = state_change;
                        } else {
                            self.unknown_state_change(
                                analysis,
                                instruction.pc,
                                UnknownReason::StackManipulation,
                            );
                            self.stop = true;
                        }
                    },
                    _ => {
                        self.unknown_state_change(
                            analysis,
                            instruction.pc,
                            UnknownReason::StackManipulation,
                        );
                        self.stop = true;
                    },
                }
            },
            Op::PLA => {
                let size = self.state.a_size();
                self.stack.pop(size);
                self.a.set(self.state, None);
            },
            Op::PLX | Op::PLY => {
                let size = self.state.x_size();
                self.stack.pop(size);
            },
            Op::PLB => {
                self.stack.pop(1);
            },
            _ => {
                self.stack.pop(2);
            },
        }
    }

    /// Emulate instructions that modify the value of A.
    pub fn change_a(&mut self, i: Instruction)
        requires
            old(self).a.wf(),
        ensures
            i.mode_spec() == AddressMode::ImmediateM && i.op_spec() == Op::LDA ==> final(self).a.lo
                == Some(((i.argument_spec()->0 % 0x10000) as u16) % 256),
            i.mode_spec() != AddressMode::ImmediateM && i.op_spec() == Op::TSC ==> final(self).a.whole_spec()
                == Some(old(self).stack.pointer),
            i.op_spec() != Op::LDA && i.op_spec() != Op::ADC && i.op_spec() != Op::SBC && i.op_spec() != Op::TSC
                ==> final(self).a.lo is None,
            i.mode_spec() != AddressMode::ImmediateM && (i.op_spec() == Op::LDA || i.op_spec() == Op::ADC
                || i.op_spec() == Op::SBC) ==> final(self).a.lo is None,
            i.mode_spec() == AddressMode::ImmediateM && i.op_spec() == Op::ADC && !old(self).state.m_flag()
                && old(self).a.is_accumulator ==> final(self).a.hi == (match a_value(old(self).a, old(self).state) {
                Some(v) => Some(wrap_add(v, immediate_word(i)) / 256),
                None => None,
            }),
            i.mode_spec() == AddressMode::ImmediateM && i.op_spec() == Op::SBC && !old(self).state.m_flag()
                && old(self).a.is_accumulator ==> final(self).a.hi == (match a_value(old(self).a, old(self).state) {
                Some(v) => Some(wrap_sub(v, immediate_word(i)) / 256),
                None => None,
            }),
            i.mode_spec() == AddressMode::ImmediateM && i.op_spec() == Op::LDA && !old(self).state.m_flag()
                && old(self).a.is_accumulator ==> final(self).a.hi == Some(immediate_word(i) / 256),
            i.mode_spec() == AddressMode::ImmediateM && i.op_spec() == Op::ADC ==> final(self).a.lo == (match a_value(
                old(self).a,
                old(self).state,
            ) {
                Some(v) => Some(wrap_add(v, immediate_word(i)) % 256),
                None => None,
            }),
            i.mode_spec() == AddressMode::ImmediateM && i.op_spec() == Op::SBC ==> final(self).a.lo == (match a_value(
                old(self).a,
                old(self).state,
            ) {
                Some(v) => Some(wrap_sub(v, immediate_word(i)) % 256),
                None => None,
            }),
            final(self).a.wf(),
            final(self).stop == old(self).stop,
            final(self).pc == old(self).pc,
            final(self).subroutine == old(self).subroutine,
            final(self).state == old(self).state,
            final(self).state_change == old(self).state_change,
    {
        let s = self.state;
        match i.address_mode() {
            AddressMode::ImmediateM => {
                let a = self.a.get(s);
                let arg = match i.argument() {
                    Some(v) => {
                        assert(v & 0xFFFF == v % 0x10000) by (bit_vector);
                        (v & 0xFFFF) as u16
                    },
                    None => 0,
                };
                match i.operation() {
                    Op::LDA => self.a.set(s, Some(arg)),
                    Op::ADC => match a {
                        Some(v) => self.a.set(s, Some(fold_add(v, arg))),
                        None => self.a.set(s, None),
                    },
                    Op::SBC => match a {
                        Some(v) => self.a.set(s, Some(fold_sub(v, arg))),
                        None => self.a.set(s, None),
                    },
                    _ => self.a.set(s, None),
                }
            },
            _ => match i.operation() {
                Op::TSC => self.a.set_whole(Some(self.stack.pointer())),
                _ => self.a.set(s, None),
            },
        }
    }

    /// Emulate instructions that modify the stack pointer: TCS with a known
    /// accumulator moves the stack; otherwise the stack is manipulated.
    fn change_stack(&mut self, analysis: &mut Analysis, i: Instruction)
        requires
            old(self).knows(*old(analysis), i.pc),
            old(self).ready(*old(analysis)),
        ensures
            final(self).pc == old(self).pc,
            final(self).ready(*final(analysis)),
            final(self).keeps(*old(self), *final(analysis), *old(analysis)),
            final(analysis).steps_left == old(analysis).steps_left,
    {
        let whole = if i.operation() == Op::TCS {
            self.a.get_whole()
        } else {
            None
        };
        match whole {
            Some(a) => self.stack.set_pointer(i, a),
            None => self.unknown_state_change(analysis, i.pc, UnknownReason::StackManipulation),
        }
    }

    /// Interrupt instruction emulation.
    fn interrupt(&mut self, analysis: &mut Analysis, i: Instruction)
        requires
            old(self).knows(*old(analysis), i.pc),
            old(self).ready(*old(analysis)),
        ensures
            final(self).pc == old(self).pc,
            final(analysis).subroutines@[old(self).subroutine].state_changes@.contains_key(i.pc)
                || final(analysis).subroutines@[old(self).subroutine].unknown_state_changes@.contains_key(i.pc)
                || old(analysis).instruction_assertions@.contains_key(i.pc),
            final(self).ready(*final(analysis)),
            final(self).keeps(*old(self), *final(analysis), *old(analysis)),
            final(analysis).steps_left == old(analysis).steps_left,
    {
        self.unknown_state_change(analysis, i.pc, UnknownReason::SuspectInstruction);
    }

    /// Jump instruction emulation: each target is walked by a copy of this
    /// path, and this one stops; a jump without known targets is unknown.
    fn jump(&mut self, analysis: &mut Analysis, instruction: Instruction)
        requires
            old(self).knows(*old(analysis), instruction.pc),
            old(self).ready(*old(analysis)),
            instruction.subroutine == old(self).subroutine,
        ensures
            instruction.absolute_argument_spec() is Some ==> final(self).stop,
            final(self).ready(*final(analysis)),
            final(self).keeps(*old(self), *final(analysis), *old(analysis)),
            final(analysis).steps_left <= old(analysis).steps_left,
        decreases old(analysis).steps_left, 1nat,
    {
        let targets = match self.jump_targets(analysis, instruction) {
            Some(t) => t,
            None => {
                analysis.add_indirect_jump(self.subroutine, instruction.pc, IndirectJump::Jump);
                self.unknown_state_change(analysis, instruction.pc, UnknownReason::IndirectJump);
                return;
            },
        };
        let mut trace = copy_addresses(&self.stack_trace);
        trace.push(instruction.pc);
        let mut k: usize = 0;
        while k < targets.len()
            invariant
                self.ready(*analysis),
                self.keeps(*old(self), *analysis, *old(analysis)),
                analysis.steps_left <= old(analysis).steps_left,
            decreases targets.len() - k,
        {
            let target = targets[k];
            analysis.add_reference(instruction.pc, target, self.subroutine);
            let mut cpu = self.fork();
            cpu.pc = target;
            if analysis.is_jump_table_target(target) {
                // A target of a jump table is walked as a subroutine of its own.
                analysis.add_subroutine(target, None, copy_addresses(&trace));
                cpu.subroutine = target;
                cpu.state_change = StateChange::new_empty();
                cpu.state_inference = StateChange::new_empty();
                cpu.stack_trace = copy_addresses(&trace);
            }
            Self::run_fork(analysis, &mut cpu);
            k += 1;
        }
        // Targets have already been executed: stop here.
        self.stop = true;
    }

    /// Return instruction emulation: the accumulated change is published as
    /// the subroutine's return change, when the return address is the one a
    /// call pushed; a return to an address pushed otherwise is an indirect
    /// jump, and a return to anything else a manipulation of the stack.
    fn ret(&mut self, analysis: &mut Analysis, i: Instruction)
        requires
            old(self).knows(*old(analysis), i.pc),
            old(self).ready(*old(analysis)),
            i.subroutine == old(self).subroutine,
        ensures
            final(self).pc == old(self).pc,
            final(self).stop,
            final(analysis).subroutines@[old(self).subroutine].state_changes@.contains_key(i.pc)
                || final(analysis).subroutines@[old(self).subroutine].unknown_state_changes@.contains_key(i.pc)
                || old(analysis).instruction_assertions@.contains_key(i.pc),
            final(self).ready(*final(analysis)),
            final(self).keeps(*old(self), *final(analysis), *old(analysis)),
            final(analysis).steps_left == old(analysis).steps_left,
    {
        let op = i.operation();
        if op == Op::RTI {
            self.stop = true;
            analysis.add_state_change(self.subroutine, i.pc, self.state_change);
            return;
        }
        let size: usize = if op == Op::RTL {
            3
        } else {
            2
        };
        let entries = self.stack.pop(size);
        let mut from_call = true;
        let mut from_push = false;
        let mut k: usize = 0;
        while k < entries.len()
            invariant
                k <= entries@.len(),
            decreases entries.len() - k,
        {
            match entries[k].instruction {
                Some(src) => {
                    let t = src.typ();
                    if t != InstructionType::Call {
                        from_call = false;
                    }
                    if t == InstructionType::Push {
                        from_push = true;
                    }
                },
                None => {
                    from_call = false;
                },
            }
            k += 1;
        }
        if from_call {
            self.stop = true;
            analysis.add_state_change(self.subroutine, i.pc, self.state_change);
        } else if from_push {
            // The return jumps to an address pushed on purpose; if another
            // pushed address waits below it, the jump acts as a call.
            let below = self.stack.pop_one();
            let kind = match below.instruction {
                Some(src) => if src.typ() == InstructionType::Push {
                    IndirectJump::ReturnCall
                } else {
                    IndirectJump::ReturnJump
                },
                None => IndirectJump::ReturnJump,
            };
            analysis.add_indirect_jump(self.subroutine, i.pc, kind);
            self.unknown_state_change(analysis, i.pc, UnknownReason::IndirectJump);
            self.stop = true;
        } else {
            self.unknown_state_change(analysis, i.pc, UnknownReason::StackManipulation);
            self.stop = true;
        }
    }
}

} // verus!
