use vstd::prelude::*;

use crate::opcodes::{decode, mode_size, op_name, opcode_table, AddressMode, Op};
use crate::state::{empty_change, State, StateChange};
use crate::text::{concat, hex_padded, hex_upper, owned};

verus! {

/// Categories of instructions.
#[derive(Copy, Clone, Debug, PartialEq, Eq, Hash, Structural)]
pub enum InstructionType {
    Branch,
    Call,
    Interrupt,
    Other,
    Jump,
    Pop,
    Push,
    Return,
    SepRep,
}

/// The category of an operation.
pub open spec fn op_type(op: Op) -> InstructionType {
    match op {
        Op::JSR | Op::JSL => InstructionType::Call,
        Op::JMP | Op::JML | Op::BRA | Op::BRL => InstructionType::Jump,
        Op::RTS | Op::RTL | Op::RTI => InstructionType::Return,
        Op::BRK => InstructionType::Interrupt,
        Op::SEP | Op::REP => InstructionType::SepRep,
        Op::PLA | Op::PLB | Op::PLD | Op::PLP | Op::PLX | Op::PLY => InstructionType::Pop,
        Op::PEA | Op::PEI | Op::PER | Op::PHA | Op::PHB | Op::PHD | Op::PHK | Op::PHP | Op::PHX
        | Op::PHY => InstructionType::Push,
        Op::BCC | Op::BCS | Op::BEQ | Op::BMI | Op::BNE | Op::BPL | Op::BVC | Op::BVS => {
            InstructionType::Branch
        },
        _ => InstructionType::Other,
    }
}

/// Whether a category transfers control.
pub open spec fn is_control_type(t: InstructionType) -> bool {
    t == InstructionType::Branch || t == InstructionType::Call || t == InstructionType::Jump || t
        == InstructionType::Return || t == InstructionType::Interrupt
}

/// Whether an operation writes the accumulator.
pub open spec fn op_changes_a(op: Op) -> bool {
    match op {
        Op::ADC | Op::AND | Op::ASL | Op::DEC | Op::EOR | Op::INC | Op::LDA | Op::LSR | Op::ORA
        | Op::PLA | Op::ROL | Op::ROR | Op::SBC | Op::TDC | Op::TSC | Op::TXA | Op::TYA
        | Op::XBA => true,
        _ => false,
    }
}

/// Argument size in bytes of an addressing mode under a processor state.
pub open spec fn argument_size_of(mode: AddressMode, state: State) -> usize {
    match mode_size(mode) {
        Some(s) => s,
        None => if mode == AddressMode::ImmediateM {
            if state.m_flag() {
                1usize
            } else {
                2usize
            }
        } else {
            if state.x_flag() {
                1usize
            } else {
                2usize
            }
        },
    }
}

/// An 8-bit value read as a two's-complement number.
pub open spec fn sign_extend8(v: int) -> int {
    if v >= 0x80 {
        v - 0x100
    } else {
        v
    }
}

/// A 16-bit value read as a two's-complement number.
pub open spec fn sign_extend16(v: int) -> int {
    if v >= 0x8000 {
        v - 0x10000
    } else {
        v
    }
}

/// Structure representing an instruction: an opcode decoded at a given
/// address, as part of a given subroutine, in a given processor state.
#[derive(Copy, Clone, Debug)]
pub struct Instruction {
    /// The address of the instruction.
    pub pc: usize,
    /// The address of the subroutine this instruction belongs to.
    pub subroutine: usize,
    /// Processor state in which the instruction is executed.
    pub state: State,
    /// The instruction's opcode byte.
    pub opcode: u8,
    /// The bytes that follow the opcode, little-endian (only the low
    /// `argument_size` bytes belong to the instruction).
    pub raw_argument: usize,
    /// State change of the subroutine accumulated when this instruction is reached.
    pub state_change: StateChange,
}

impl Instruction {
    /// The instruction's operation.
    pub open spec fn op_spec(self) -> Op {
        opcode_table(self.opcode).0
    }

    /// The instruction's addressing mode.
    pub open spec fn mode_spec(self) -> AddressMode {
        opcode_table(self.opcode).1
    }

    /// The instruction's category.
    pub open spec fn type_spec(self) -> InstructionType {
        op_type(self.op_spec())
    }

    /// Size of the argument in bytes.
    pub open spec fn argument_size_spec(self) -> usize {
        argument_size_of(self.mode_spec(), self.state)
    }

    /// Size of the instruction in bytes.
    pub open spec fn size_spec(self) -> usize {
        (1 + self.argument_size_spec()) as usize
    }

    /// The argument, masked to its size.
    pub open spec fn argument_spec(self) -> Option<usize> {
        let s = self.argument_size_spec();
        if s == 0 {
            None
        } else if s == 1 {
            Some(self.raw_argument & 0xFF)
        } else if s == 2 {
            Some(self.raw_argument & 0xFFFF)
        } else {
            Some(self.raw_argument & 0xFFFFFF)
        }
    }

    /// Whether the instruction transfers control.
    pub open spec fn is_control_spec(self) -> bool {
        is_control_type(self.type_spec())
    }

    /// The target of a relative branch: `pc + size + offset`, if it is an address.
    pub open spec fn relative_target(self, offset: int) -> Option<usize> {
        let t = self.pc + self.size_spec() + offset;
        if 0 <= t <= usize::MAX {
            Some(t as usize)
        } else {
            None
        }
    }

    /// The argument as an absolute value, when it can be known.
    pub open spec fn absolute_argument_spec(self) -> Option<usize> {
        match self.argument_spec() {
            None => None,
            Some(arg) => match self.mode_spec() {
                AddressMode::ImmediateM | AddressMode::ImmediateX | AddressMode::Immediate8
                | AddressMode::AbsoluteLong => Some(arg),
                AddressMode::Absolute => if self.is_control_spec() {
                    Some((self.pc & 0xFF0000) | arg)
                } else {
                    None
                },
                AddressMode::Relative => self.relative_target(sign_extend8(arg as int)),
                AddressMode::RelativeLong => self.relative_target(sign_extend16(arg as int)),
                _ => None,
            },
        }
    }

    /// `$` and the argument in hexadecimal, two digits per byte.
    pub open spec fn arg_text(self) -> Seq<char> {
        let a = self.argument_spec()->0 as nat;
        let s = self.argument_size_spec();
        seq!['$'] + if s == 1 {
            hex_padded(a, 2)
        } else if s == 2 {
            hex_padded(a, 4)
        } else {
            hex_padded(a, 6)
        }
    }

    /// The argument as it is written in assembly, following the addressing mode.
    pub open spec fn argument_text(self) -> Seq<char> {
        let t = self.arg_text();
        match self.mode_spec() {
            AddressMode::Implied => Seq::empty(),
            AddressMode::ImpliedAccumulator => seq!['a'],
            AddressMode::ImmediateM | AddressMode::ImmediateX | AddressMode::Immediate8 => seq![
                '#',
            ] + t,
            AddressMode::Relative | AddressMode::RelativeLong | AddressMode::DirectPage
            | AddressMode::Absolute | AddressMode::AbsoluteLong | AddressMode::StackAbsolute => t,
            AddressMode::DirectPageIndexedX | AddressMode::AbsoluteIndexedX
            | AddressMode::AbsoluteIndexedLong => t + seq![',', 'x'],
            AddressMode::DirectPageIndexedY | AddressMode::AbsoluteIndexedY => t + seq![',', 'y'],
            AddressMode::DirectPageIndirect | AddressMode::AbsoluteIndirect
            | AddressMode::PeiDirectPageIndirect => seq!['('] + t + seq![')'],
            AddressMode::DirectPageIndirectLong | AddressMode::AbsoluteIndirectLong => seq!['[']
                + t + seq![']'],
            AddressMode::DirectPageIndexedIndirect | AddressMode::AbsoluteIndexedIndirect => seq![
                '(',
            ] + t + seq![',', 'x', ')'],
            AddressMode::DirectPageIndirectIndexed => seq!['('] + t + seq![')', ',', 'y'],
            AddressMode::DirectPageIndirectIndexedLong => seq!['['] + t + seq![']', ',', 'y'],
            AddressMode::StackRelative => t + seq![',', 's'],
            AddressMode::StackRelativeIndirectIndexed => seq!['('] + t + seq![',', 's', ')', ',', 'y'],
            AddressMode::Move => {
                let a = self.argument_spec()->0;
                seq!['$'] + hex_padded((a >> 8) as nat, 2) + seq![',', '$'] + hex_padded(
                    (a & 0xFF) as nat,
                    2,
                )
            },
        }
    }

    /// Instantiate an instruction (with an empty state change at entry).
    pub fn new(pc: usize, subroutine: usize, p: u8, opcode: u8, argument: usize) -> (r: Self)
        ensures
            r.pc == pc,
            r.subroutine == subroutine,
            r.state.p == p,
            r.opcode == opcode,
            r.raw_argument == argument,
            r.state_change == empty_change(),
    {
        Self {
            pc,
            subroutine,
            state: State::new(p),
            opcode,
            raw_argument: argument,
            state_change: StateChange::new_empty(),
        }
    }

    /// Return the address of the instruction.
    pub fn pc(&self) -> (r: usize)
        ensures
            r == self.pc,
    {
        self.pc
    }

    /// Return the address of the subroutine the instruction belongs to.
    pub fn subroutine(&self) -> (r: usize)
        ensures
            r == self.subroutine,
    {
        self.subroutine
    }

    /// Return the processor state in which the instruction is executed.
    pub fn state(&self) -> (r: State)
        ensures
            r == self.state,
    {
        self.state
    }

    /// Return the subroutine's state change accumulated at this instruction.
    pub fn state_change(&self) -> (r: StateChange)
        ensures
            r == self.state_change,
    {
        self.state_change
    }

    /// Whether two instructions are the same record: same address, same
    /// subroutine, same processor state.
    pub fn same_identity(&self, other: &Instruction) -> (r: bool)
        ensures
            r == (self.pc == other.pc && self.subroutine == other.subroutine && self.state.p
                == other.state.p),
    {
        self.pc == other.pc && self.subroutine == other.subroutine && self.state.p == other.state.p
    }

    /// Return the name of the instruction's operation, in lower case.
    pub fn name(&self) -> (r: String)
        ensures
            r@ == op_name(self.op_spec())@,
    {
        owned(self.operation().name())
    }

    /// Return the instruction's operation.
    pub fn operation(&self) -> (r: Op)
        ensures
            r == self.op_spec(),
    {
        decode(self.opcode).0
    }

    /// Return the instruction's address mode.
    pub fn address_mode(&self) -> (r: AddressMode)
        ensures
            r == self.mode_spec(),
    {
        decode(self.opcode).1
    }

    /// Category of the instruction.
    pub fn typ(&self) -> (r: InstructionType)
        ensures
            r == self.type_spec(),
    {
        match self.operation() {
            Op::JSR | Op::JSL => InstructionType::Call,
            Op::JMP | Op::JML | Op::BRA | Op::BRL => InstructionType::Jump,
            Op::RTS | Op::RTL | Op::RTI => InstructionType::Return,
            Op::BRK => InstructionType::Interrupt,
            Op::SEP | Op::REP => InstructionType::SepRep,
            Op::PLA | Op::PLB | Op::PLD | Op::PLP | Op::PLX | Op::PLY => InstructionType::Pop,
            Op::PEA | Op::PEI | Op::PER | Op::PHA | Op::PHB | Op::PHD | Op::PHK | Op::PHP
            | Op::PHX | Op::PHY => InstructionType::Push,
            Op::BCC | Op::BCS | Op::BEQ | Op::BMI | Op::BNE | Op::BPL | Op::BVC | Op::BVS => {
                InstructionType::Branch
            },
            _ => InstructionType::Other,
        }
    }

    /// Return the instruction's size in bytes: one for the opcode, plus the argument.
    pub fn size(&self) -> (r: usize)
        ensures
            r == self.size_spec(),
            r == 1 + argument_size_of(self.mode_spec(), self.state),
            1 <= r <= 4,
    {
        self.argument_size() + 1
    }

    /// Return the instruction's argument size in bytes, which depends on the
    /// addressing mode and, for the immediate modes, on the M or X bit.
    pub fn argument_size(&self) -> (r: usize)
        ensures
            r == self.argument_size_spec(),
            r <= 3,
    {
        let mode = self.address_mode();
        match mode.fixed_size() {
            Some(s) => s,
            None => match mode {
                AddressMode::ImmediateM => self.state.a_size(),
                _ => self.state.x_size(),
            },
        }
    }

    /// Return the instruction's argument, if any.
    pub fn argument(&self) -> (r: Option<usize>)
        ensures
            r == self.argument_spec(),
    {
        match self.argument_size() {
            0 => None,
            1 => Some(self.raw_argument & 0xFF),
            2 => Some(self.raw_argument & 0xFFFF),
            _ => Some(self.raw_argument & 0xFFFFFF),
        }
    }

    /// Compute `pc + size + offset`, if it is an address.
    fn relative(&self, offset: i64) -> (r: Option<usize>)
        requires
            -0x8000 <= offset < 0x8000,
        ensures
            r == self.relative_target(offset as int),
    {
        let size = self.size();
        let pc = self.pc;
        if offset >= 0 {
            let o = offset as usize;
            if pc > usize::MAX - (size + o) {
                None
            } else {
                Some(pc + size + o)
            }
        } else {
            let o = (0 - offset) as usize;
            if pc >= o {
                if pc - o > usize::MAX - size {
                    None
                } else {
                    Some(pc - o + size)
                }
            } else if size >= o - pc {
                Some(size - (o - pc))
            } else {
                None
            }
        }
    }

    /// Return the instruction's argument as an absolute value, if possible.
    pub fn absolute_argument(&self) -> (r: Option<usize>)
        ensures
            r == self.absolute_argument_spec(),
    {
        let argument = match self.argument() {
            None => return None,
            Some(a) => a,
        };
        let raw = self.raw_argument;
        assert(raw & 0xFF <= 0xFF && raw & 0xFFFF <= 0xFFFF) by (bit_vector);
        match self.address_mode() {
            AddressMode::ImmediateM | AddressMode::ImmediateX | AddressMode::Immediate8
            | AddressMode::AbsoluteLong => Some(argument),
            AddressMode::Absolute => {
                if self.is_control() {
                    Some((self.pc & 0xFF0000) | argument)
                } else {
                    None
                }
            },
            AddressMode::Relative => {
                let a = argument as i64;
                let offset = if a >= 0x80 {
                    a - 0x100
                } else {
                    a
                };
                self.relative(offset)
            },
            AddressMode::RelativeLong => {
                let a = argument as i64;
                let offset = if a >= 0x8000 {
                    a - 0x10000
                } else {
                    a
                };
                self.relative(offset)
            },
            _ => None,
        }
    }

    /// Return whether this is a control instruction.
    pub fn is_control(&self) -> (r: bool)
        ensures
            r == self.is_control_spec(),
    {
        let typ = self.typ();
        typ == InstructionType::Branch || typ == InstructionType::Call || typ
            == InstructionType::Jump || typ == InstructionType::Return || typ
            == InstructionType::Interrupt
    }

    /// Return whether this is a SEP or REP instruction.
    pub fn is_sep_rep(&self) -> (r: bool)
        ensures
            r == (self.type_spec() == InstructionType::SepRep),
    {
        self.typ() == InstructionType::SepRep
    }

    /// Return whether this instruction modifies A.
    pub fn changes_a(&self) -> (r: bool)
        ensures
            r == op_changes_a(self.op_spec()),
    {
        match self.operation() {
            Op::ADC | Op::AND | Op::ASL | Op::DEC | Op::EOR | Op::INC | Op::LDA | Op::LSR
            | Op::ORA | Op::PLA | Op::ROL | Op::ROR | Op::SBC | Op::TDC | Op::TSC | Op::TXA
            | Op::TYA | Op::XBA => true,
            _ => false,
        }
    }

    /// Return whether this instruction modifies the stack pointer.
    pub fn changes_stack(&self) -> (r: bool)
        ensures
            r == (self.op_spec() == Op::TCS || self.op_spec() == Op::TXS),
    {
        let op = self.operation();
        op == Op::TCS || op == Op::TXS
    }

    /// `$` followed by the argument in hexadecimal.
    fn arg_string(&self) -> (r: String)
        requires
            self.argument_spec() is Some,
        ensures
            r@ == self.arg_text(),
    {
        proof {
            reveal_strlit("$");
        }
        let a = match self.argument() {
            Some(a) => a,
            None => 0,
        };
        let s = self.argument_size();
        let digits = if s == 1 {
            hex_upper(a, 2)
        } else if s == 2 {
            hex_upper(a, 4)
        } else {
            hex_upper(a, 6)
        };
        concat("$", digits.as_str())
    }

    /// Return the instruction's argument as a string, formatted as its
    /// addressing mode is written in assembly.
    pub fn argument_string(&self) -> (r: String)
        ensures
            r@ == self.argument_text(),
    {
        proof {
            reveal_strlit("");
            reveal_strlit("a");
            reveal_strlit("#");
            reveal_strlit(",x");
            reveal_strlit(",y");
            reveal_strlit("(");
            reveal_strlit(")");
            reveal_strlit("[");
            reveal_strlit("]");
            reveal_strlit(",x)");
            reveal_strlit("),y");
            reveal_strlit("],y");
            reveal_strlit(",s");
            reveal_strlit(",s),y");
            reveal_strlit("$");
            reveal_strlit(",$");
        }
        let mode = self.address_mode();
        let r = match mode {
            AddressMode::Implied => owned(""),
            AddressMode::ImpliedAccumulator => owned("a"),
            AddressMode::ImmediateM | AddressMode::ImmediateX | AddressMode::Immediate8 => {
                concat("#", self.arg_string().as_str())
            },
            AddressMode::Relative | AddressMode::RelativeLong | AddressMode::DirectPage
            | AddressMode::Absolute | AddressMode::AbsoluteLong | AddressMode::StackAbsolute => {
                self.arg_string()
            },
            AddressMode::DirectPageIndexedX | AddressMode::AbsoluteIndexedX
            | AddressMode::AbsoluteIndexedLong => concat(self.arg_string().as_str(), ",x"),
            AddressMode::DirectPageIndexedY | AddressMode::AbsoluteIndexedY => concat(
                self.arg_string().as_str(),
                ",y",
            ),
            AddressMode::DirectPageIndirect | AddressMode::AbsoluteIndirect
            | AddressMode::PeiDirectPageIndirect => concat(
                concat("(", self.arg_string().as_str()).as_str(),
                ")",
            ),
            AddressMode::DirectPageIndirectLong | AddressMode::AbsoluteIndirectLong => concat(
                concat("[", self.arg_string().as_str()).as_str(),
                "]",
            ),
            AddressMode::DirectPageIndexedIndirect | AddressMode::AbsoluteIndexedIndirect => concat(
                concat("(", self.arg_string().as_str()).as_str(),
                ",x)",
            ),
            AddressMode::DirectPageIndirectIndexed => concat(
                concat("(", self.arg_string().as_str()).as_str(),
                "),y",
            ),
            AddressMode::DirectPageIndirectIndexedLong => concat(
                concat("[", self.arg_string().as_str()).as_str(),
                "],y",
            ),
            AddressMode::StackRelative => concat(self.arg_string().as_str(), ",s"),
            AddressMode::StackRelativeIndirectIndexed => concat(
                concat("(", self.arg_string().as_str()).as_str(),
                ",s),y",
            ),
            AddressMode::Move => {
                let a = match self.argument() {
                    Some(a) => a,
                    None => 0,
                };
                let hi = hex_upper(a >> 8, 2);
                let lo = hex_upper(a & 0xFF, 2);
                let first = concat("$", hi.as_str());
                let second = concat(",$", lo.as_str());
                concat(first.as_str(), second.as_str())
            },
        };
        assert(r@ =~= self.argument_text());
        r
    }
}

} // verus!
