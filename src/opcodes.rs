use vstd::prelude::*;

verus! {

/// Memory addressing modes.
#[derive(Copy, Clone, Debug, PartialEq, Eq, Hash, Structural)]
pub enum AddressMode {
    Implied,
    ImmediateM,
    ImmediateX,
    Immediate8,
    Relative,
    RelativeLong,
    DirectPage,
    DirectPageIndexedX,
    DirectPageIndexedY,
    DirectPageIndirect,
    DirectPageIndexedIndirect,
    DirectPageIndirectIndexed,
    DirectPageIndirectLong,
    DirectPageIndirectIndexedLong,
    Absolute,
    AbsoluteIndexedX,
    AbsoluteIndexedY,
    AbsoluteLong,
    AbsoluteIndexedLong,
    StackRelative,
    StackRelativeIndirectIndexed,
    AbsoluteIndirect,
    AbsoluteIndirectLong,
    AbsoluteIndexedIndirect,
    ImpliedAccumulator,
    Move,
    StackAbsolute,
    PeiDirectPageIndirect,
}

/// 65c816 operations.
#[derive(Copy, Clone, Debug, PartialEq, Eq, Hash, Structural)]
pub enum Op {
    ADC,
    AND,
    ASL,
    BCC,
    BCS,
    BEQ,
    BIT,
    BMI,
    BNE,
    BPL,
    BRA,
    BRK,
    BRL,
    BVC,
    BVS,
    CLC,
    CLD,
    CLI,
    CLV,
    CMP,
    COP,
    CPX,
    CPY,
    DEC,
    DEX,
    DEY,
    EOR,
    INC,
    INX,
    INY,
    JML,
    JMP,
    JSL,
    JSR,
    LDA,
    LDX,
    LDY,
    LSR,
    MVN,
    MVP,
    NOP,
    ORA,
    PEA,
    PEI,
    PER,
    PHA,
    PHB,
    PHD,
    PHK,
    PHP,
    PHX,
    PHY,
    PLA,
    PLB,
    PLD,
    PLP,
    PLX,
    PLY,
    REP,
    ROL,
    ROR,
    RTI,
    RTL,
    RTS,
    SBC,
    SEC,
    SED,
    SEI,
    SEP,
    STA,
    STP,
    STX,
    STY,
    STZ,
    TAX,
    TAY,
    TCD,
    TCS,
    TDC,
    TRB,
    TSB,
    TSC,
    TSX,
    TXA,
    TXS,
    TXY,
    TYA,
    TYX,
    WAI,
    WDM,
    XBA,
    XCE,
}

/// Size in bytes of the argument of an addressing mode; `None` for the
/// immediate modes whose size depends on the M or X bit.
pub open spec fn mode_size(mode: AddressMode) -> Option<usize> {
    match mode {
        AddressMode::Implied => Some(0usize),
        AddressMode::ImmediateM => None,
        AddressMode::ImmediateX => None,
        AddressMode::Immediate8 => Some(1usize),
        AddressMode::Relative => Some(1usize),
        AddressMode::RelativeLong => Some(2usize),
        AddressMode::DirectPage => Some(1usize),
        AddressMode::DirectPageIndexedX => Some(1usize),
        AddressMode::DirectPageIndexedY => Some(1usize),
        AddressMode::DirectPageIndirect => Some(1usize),
        AddressMode::DirectPageIndexedIndirect => Some(1usize),
        AddressMode::DirectPageIndirectIndexed => Some(1usize),
        AddressMode::DirectPageIndirectLong => Some(1usize),
        AddressMode::DirectPageIndirectIndexedLong => Some(1usize),
        AddressMode::Absolute => Some(2usize),
        AddressMode::AbsoluteIndexedX => Some(2usize),
        AddressMode::AbsoluteIndexedY => Some(2usize),
        AddressMode::AbsoluteLong => Some(3usize),
        AddressMode::AbsoluteIndexedLong => Some(3usize),
        AddressMode::StackRelative => Some(1usize),
        AddressMode::StackRelativeIndirectIndexed => Some(1usize),
        AddressMode::AbsoluteIndirect => Some(2usize),
        AddressMode::AbsoluteIndirectLong => Some(2usize),
        AddressMode::AbsoluteIndexedIndirect => Some(2usize),
        AddressMode::ImpliedAccumulator => Some(0usize),
        AddressMode::Move => Some(2usize),
        AddressMode::StackAbsolute => Some(2usize),
        AddressMode::PeiDirectPageIndirect => Some(1usize),
    }
}

impl AddressMode {
    /// Size in bytes of the argument of this addressing mode, when it does not
    /// depend on the processor state.
    pub fn fixed_size(self) -> (r: Option<usize>)
        ensures
            r == mode_size(self),
    {
        match self {
            AddressMode::Implied => Some(0),
            AddressMode::ImmediateM => None,
            AddressMode::ImmediateX => None,
            AddressMode::Immediate8 => Some(1),
            AddressMode::Relative => Some(1),
            AddressMode::RelativeLong => Some(2),
            AddressMode::DirectPage => Some(1),
            AddressMode::DirectPageIndexedX => Some(1),
            AddressMode::DirectPageIndexedY => Some(1),
            AddressMode::DirectPageIndirect => Some(1),
            AddressMode::DirectPageIndexedIndirect => Some(1),
            AddressMode::DirectPageIndirectIndexed => Some(1),
            AddressMode::DirectPageIndirectLong => Some(1),
            AddressMode::DirectPageIndirectIndexedLong => Some(1),
            AddressMode::Absolute => Some(2),
            AddressMode::AbsoluteIndexedX => Some(2),
            AddressMode::AbsoluteIndexedY => Some(2),
            AddressMode::AbsoluteLong => Some(3),
            AddressMode::AbsoluteIndexedLong => Some(3),
            AddressMode::StackRelative => Some(1),
            AddressMode::StackRelativeIndirectIndexed => Some(1),
            AddressMode::AbsoluteIndirect => Some(2),
            AddressMode::AbsoluteIndirectLong => Some(2),
            AddressMode::AbsoluteIndexedIndirect => Some(2),
            AddressMode::ImpliedAccumulator => Some(0),
            AddressMode::Move => Some(2),
            AddressMode::StackAbsolute => Some(2),
            AddressMode::PeiDirectPageIndirect => Some(1),
        }
    }
}

/// The operation and addressing mode of every opcode byte.
pub open spec fn opcode_table(opcode: u8) -> (Op, AddressMode) {
    match opcode {
        0x00u8 => (Op::BRK, AddressMode::Immediate8),
        0x01u8 => (Op::ORA, AddressMode::DirectPageIndexedIndirect),
        0x02u8 => (Op::COP, AddressMode::Immediate8),
        0x03u8 => (Op::ORA, AddressMode::StackRelative),
        0x04u8 => (Op::TSB, AddressMode::DirectPage),
        0x05u8 => (Op::ORA, AddressMode::DirectPage),
        0x06u8 => (Op::ASL, AddressMode::DirectPage),
        0x07u8 => (Op::ORA, AddressMode::DirectPageIndirectLong),
        0x08u8 => (Op::PHP, AddressMode::Implied),
        0x09u8 => (Op::ORA, AddressMode::ImmediateM),
        0x0Au8 => (Op::ASL, AddressMode::ImpliedAccumulator),
        0x0Bu8 => (Op::PHD, AddressMode::Implied),
        0x0Cu8 => (Op::TSB, AddressMode::Absolute),
        0x0Du8 => (Op::ORA, AddressMode::Absolute),
        0x0Eu8 => (Op::ASL, AddressMode::Absolute),
        0x0Fu8 => (Op::ORA, AddressMode::AbsoluteLong),
        0x10u8 => (Op::BPL, AddressMode::Relative),
        0x11u8 => (Op::ORA, AddressMode::DirectPageIndirectIndexed),
        0x12u8 => (Op::ORA, AddressMode::DirectPageIndirect),
        0x13u8 => (Op::ORA, AddressMode::StackRelativeIndirectIndexed),
        0x14u8 => (Op::TRB, AddressMode::DirectPage),
        0x15u8 => (Op::ORA, AddressMode::DirectPageIndexedX),
        0x16u8 => (Op::ASL, AddressMode::DirectPageIndexedX),
        0x17u8 => (Op::ORA, AddressMode::DirectPageIndirectIndexedLong),
        0x18u8 => (Op::CLC, AddressMode::Implied),
        0x19u8 => (Op::ORA, AddressMode::AbsoluteIndexedY),
        0x1Au8 => (Op::INC, AddressMode::ImpliedAccumulator),
        0x1Bu8 => (Op::TCS, AddressMode::Implied),
        0x1Cu8 => (Op::TRB, AddressMode::Absolute),
        0x1Du8 => (Op::ORA, AddressMode::AbsoluteIndexedX),
        0x1Eu8 => (Op::ASL, AddressMode::AbsoluteIndexedX),
        0x1Fu8 => (Op::ORA, AddressMode::AbsoluteIndexedLong),
        0x20u8 => (Op::JSR, AddressMode::Absolute),
        0x21u8 => (Op::AND, AddressMode::DirectPageIndexedIndirect),
        0x22u8 => (Op::JSL, AddressMode::AbsoluteLong),
        0x23u8 => (Op::AND, AddressMode::StackRelative),
        0x24u8 => (Op::BIT, AddressMode::DirectPage),
        0x25u8 => (Op::AND, AddressMode::DirectPage),
        0x26u8 => (Op::ROL, AddressMode::DirectPage),
        0x27u8 => (Op::AND, AddressMode::DirectPageIndirectLong),
        0x28u8 => (Op::PLP, AddressMode::Implied),
        0x29u8 => (Op::AND, AddressMode::ImmediateM),
        0x2Au8 => (Op::ROL, AddressMode::ImpliedAccumulator),
        0x2Bu8 => (Op::PLD, AddressMode::Implied),
        0x2Cu8 => (Op::BIT, AddressMode::Absolute),
        0x2Du8 => (Op::AND, AddressMode::Absolute),
        0x2Eu8 => (Op::ROL, AddressMode::Absolute),
        0x2Fu8 => (Op::AND, AddressMode::AbsoluteLong),
        0x30u8 => (Op::BMI, AddressMode::Relative),
        0x31u8 => (Op::AND, AddressMode::DirectPageIndirectIndexed),
        0x32u8 => (Op::AND, AddressMode::DirectPageIndirect),
        0x33u8 => (Op::AND, AddressMode::StackRelativeIndirectIndexed),
        0x34u8 => (Op::BIT, AddressMode::DirectPageIndexedX),
        0x35u8 => (Op::AND, AddressMode::DirectPageIndexedX),
        0x36u8 => (Op::ROL, AddressMode::DirectPageIndexedX),
        0x37u8 => (Op::AND, AddressMode::DirectPageIndirectIndexedLong),
        0x38u8 => (Op::SEC, AddressMode::Implied),
        0x39u8 => (Op::AND, AddressMode::AbsoluteIndexedY),
        0x3Au8 => (Op::DEC, AddressMode::ImpliedAccumulator),
        0x3Bu8 => (Op::TSC, AddressMode::Implied),
        0x3Cu8 => (Op::BIT, AddressMode::AbsoluteIndexedX),
        0x3Du8 => (Op::AND, AddressMode::AbsoluteIndexedX),
        0x3Eu8 => (Op::ROL, AddressMode::AbsoluteIndexedX),
        0x3Fu8 => (Op::AND, AddressMode::AbsoluteIndexedLong),
        0x40u8 => (Op::RTI, AddressMode::Implied),
        0x41u8 => (Op::EOR, AddressMode::DirectPageIndexedIndirect),
        0x42u8 => (Op::WDM, AddressMode::Immediate8),
        0x43u8 => (Op::EOR, AddressMode::StackRelative),
        0x44u8 => (Op::MVP, AddressMode::Move),
        0x45u8 => (Op::EOR, AddressMode::DirectPage),
        0x46u8 => (Op::LSR, AddressMode::DirectPage),
        0x47u8 => (Op::EOR, AddressMode::DirectPageIndirectLong),
        0x48u8 => (Op::PHA, AddressMode::Implied),
        0x49u8 => (Op::EOR, AddressMode::ImmediateM),
        0x4Au8 => (Op::LSR, AddressMode::ImpliedAccumulator),
        0x4Bu8 => (Op::PHK, AddressMode::Implied),
        0x4Cu8 => (Op::JMP, AddressMode::Absolute),
        0x4Du8 => (Op::EOR, AddressMode::Absolute),
        0x4Eu8 => (Op::LSR, AddressMode::Absolute),
        0x4Fu8 => (Op::EOR, AddressMode::AbsoluteLong),
        0x50u8 => (Op::BVC, AddressMode::Relative),
        0x51u8 => (Op::EOR, AddressMode::DirectPageIndirectIndexed),
        0x52u8 => (Op::EOR, AddressMode::DirectPageIndirect),
        0x53u8 => (Op::EOR, AddressMode::StackRelativeIndirectIndexed),
        0x54u8 => (Op::MVN, AddressMode::Move),
        0x55u8 => (Op::EOR, AddressMode::DirectPageIndexedX),
        0x56u8 => (Op::LSR, AddressMode::DirectPageIndexedX),
        0x57u8 => (Op::EOR, AddressMode::DirectPageIndirectIndexedLong),
        0x58u8 => (Op::CLI, AddressMode::Implied),
        0x59u8 => (Op::EOR, AddressMode::AbsoluteIndexedY),
        0x5Au8 => (Op::PHY, AddressMode::Implied),
        0x5Bu8 => (Op::TCD, AddressMode::Implied),
        0x5Cu8 => (Op::JML, AddressMode::AbsoluteLong),
        0x5Du8 => (Op::EOR, AddressMode::AbsoluteIndexedX),
        0x5Eu8 => (Op::LSR, AddressMode::AbsoluteIndexedX),
        0x5Fu8 => (Op::EOR, AddressMode::AbsoluteIndexedLong),
        0x60u8 => (Op::RTS, AddressMode::Implied),
        0x61u8 => (Op::ADC, AddressMode::DirectPageIndexedIndirect),
        0x62u8 => (Op::PER, AddressMode::RelativeLong),
        0x63u8 => (Op::ADC, AddressMode::StackRelative),
        0x64u8 => (Op::STZ, AddressMode::DirectPage),
        0x65u8 => (Op::ADC, AddressMode::DirectPage),
        0x66u8 => (Op::ROR, AddressMode::DirectPage),
        0x67u8 => (Op::ADC, AddressMode::DirectPageIndirectLong),
        0x68u8 => (Op::PLA, AddressMode::Implied),
        0x69u8 => (Op::ADC, AddressMode::ImmediateM),
        0x6Au8 => (Op::ROR, AddressMode::ImpliedAccumulator),
        0x6Bu8 => (Op::RTL, AddressMode::Implied),
        0x6Cu8 => (Op::JMP, AddressMode::AbsoluteIndirect),
        0x6Du8 => (Op::ADC, AddressMode::Absolute),
        0x6Eu8 => (Op::ROR, AddressMode::Absolute),
        0x6Fu8 => (Op::ADC, AddressMode::AbsoluteLong),
        0x70u8 => (Op::BVS, AddressMode::Relative),
        0x71u8 => (Op::ADC, AddressMode::DirectPageIndirectIndexed),
        0x72u8 => (Op::ADC, AddressMode::DirectPageIndirect),
        0x73u8 => (Op::ADC, AddressMode::StackRelativeIndirectIndexed),
        0x74u8 => (Op::STZ, AddressMode::DirectPageIndexedX),
        0x75u8 => (Op::ADC, AddressMode::DirectPageIndexedX),
        0x76u8 => (Op::ROR, AddressMode::DirectPageIndexedX),
        0x77u8 => (Op::ADC, AddressMode::DirectPageIndirectIndexedLong),
        0x78u8 => (Op::SEI, AddressMode::Implied),
        0x79u8 => (Op::ADC, AddressMode::AbsoluteIndexedY),
        0x7Au8 => (Op::PLY, AddressMode::Implied),
        0x7Bu8 => (Op::TDC, AddressMode::Implied),
        0x7Cu8 => (Op::JMP, AddressMode::AbsoluteIndexedIndirect),
        0x7Du8 => (Op::ADC, AddressMode::AbsoluteIndexedX),
        0x7Eu8 => (Op::ROR, AddressMode::AbsoluteIndexedX),
        0x7Fu8 => (Op::ADC, AddressMode::AbsoluteIndexedLong),
        0x80u8 => (Op::BRA, AddressMode::Relative),
        0x81u8 => (Op::STA, AddressMode::DirectPageIndexedIndirect),
        0x82u8 => (Op::BRL, AddressMode::RelativeLong),
        0x83u8 => (Op::STA, AddressMode::StackRelative),
        0x84u8 => (Op::STY, AddressMode::DirectPage),
        0x85u8 => (Op::STA, AddressMode::DirectPage),
        0x86u8 => (Op::STX, AddressMode::DirectPage),
        0x87u8 => (Op::STA, AddressMode::DirectPageIndirectLong),
        0x88u8 => (Op::DEY, AddressMode::Implied),
        0x89u8 => (Op::BIT, AddressMode::ImmediateM),
        0x8Au8 => (Op::TXA, AddressMode::Implied),
        0x8Bu8 => (Op::PHB, AddressMode::Implied),
        0x8Cu8 => (Op::STY, AddressMode::Absolute),
        0x8Du8 => (Op::STA, AddressMode::Absolute),
        0x8Eu8 => (Op::STX, AddressMode::Absolute),
        0x8Fu8 => (Op::STA, AddressMode::AbsoluteLong),
        0x90u8 => (Op::BCC, AddressMode::Relative),
        0x91u8 => (Op::STA, AddressMode::DirectPageIndirectIndexed),
        0x92u8 => (Op::STA, AddressMode::DirectPageIndirect),
        0x93u8 => (Op::STA, AddressMode::StackRelativeIndirectIndexed),
        0x94u8 => (Op::STY, AddressMode::DirectPageIndexedX),
        0x95u8 => (Op::STA, AddressMode::DirectPageIndexedX),
        0x96u8 => (Op::STX, AddressMode::DirectPageIndexedY),
        0x97u8 => (Op::STA, AddressMode::DirectPageIndirectIndexedLong),
        0x98u8 => (Op::TYA, AddressMode::Implied),
        0x99u8 => (Op::STA, AddressMode::AbsoluteIndexedY),
        0x9Au8 => (Op::TXS, AddressMode::Implied),
        0x9Bu8 => (Op::TXY, AddressMode::Implied),
        0x9Cu8 => (Op::STZ, AddressMode::Absolute),
        0x9Du8 => (Op::STA, AddressMode::AbsoluteIndexedX),
        0x9Eu8 => (Op::STZ, AddressMode::AbsoluteIndexedX),
        0x9Fu8 => (Op::STA, AddressMode::AbsoluteIndexedLong),
        0xA0u8 => (Op::LDY, AddressMode::ImmediateX),
        0xA1u8 => (Op::LDA, AddressMode::DirectPageIndexedIndirect),
        0xA2u8 => (Op::LDX, AddressMode::ImmediateX),
        0xA3u8 => (Op::LDA, AddressMode::StackRelative),
        0xA4u8 => (Op::LDY, AddressMode::DirectPage),
        0xA5u8 => (Op::LDA, AddressMode::DirectPage),
        0xA6u8 => (Op::LDX, AddressMode::DirectPage),
        0xA7u8 => (Op::LDA, AddressMode::DirectPageIndirectLong),
        0xA8u8 => (Op::TAY, AddressMode::Implied),
        0xA9u8 => (Op::LDA, AddressMode::ImmediateM),
        0xAAu8 => (Op::TAX, AddressMode::Implied),
        0xABu8 => (Op::PLB, AddressMode::Implied),
        0xACu8 => (Op::LDY, AddressMode::Absolute),
        0xADu8 => (Op::LDA, AddressMode::Absolute),
        0xAEu8 => (Op::LDX, AddressMode::Absolute),
        0xAFu8 => (Op::LDA, AddressMode::AbsoluteLong),
        0xB0u8 => (Op::BCS, AddressMode::Relative),
        0xB1u8 => (Op::LDA, AddressMode::DirectPageIndirectIndexed),
        0xB2u8 => (Op::LDA, AddressMode::DirectPageIndirect),
        0xB3u8 => (Op::LDA, AddressMode::StackRelativeIndirectIndexed),
        0xB4u8 => (Op::LDY, AddressMode::DirectPageIndexedX),
        0xB5u8 => (Op::LDA, AddressMode::DirectPageIndexedX),
        0xB6u8 => (Op::LDX, AddressMode::DirectPageIndexedY),
        0xB7u8 => (Op::LDA, AddressMode::DirectPageIndirectIndexedLong),
        0xB8u8 => (Op::CLV, AddressMode::Implied),
        0xB9u8 => (Op::LDA, AddressMode::AbsoluteIndexedY),
        0xBAu8 => (Op::TSX, AddressMode::Implied),
        0xBBu8 => (Op::TYX, AddressMode::Implied),
        0xBCu8 => (Op::LDY, AddressMode::AbsoluteIndexedX),
        0xBDu8 => (Op::LDA, AddressMode::AbsoluteIndexedX),
        0xBEu8 => (Op::LDX, AddressMode::AbsoluteIndexedY),
        0xBFu8 => (Op::LDA, AddressMode::AbsoluteIndexedLong),
        0xC0u8 => (Op::CPY, AddressMode::ImmediateX),
        0xC1u8 => (Op::CMP, AddressMode::DirectPageIndexedIndirect),
        0xC2u8 => (Op::REP, AddressMode::Immediate8),
        0xC3u8 => (Op::CMP, AddressMode::StackRelative),
        0xC4u8 => (Op::CPY, AddressMode::DirectPage),
        0xC5u8 => (Op::CMP, AddressMode::DirectPage),
        0xC6u8 => (Op::DEC, AddressMode::DirectPage),
        0xC7u8 => (Op::CMP, AddressMode::DirectPageIndirectLong),
        0xC8u8 => (Op::INY, AddressMode::Implied),
        0xC9u8 => (Op::CMP, AddressMode::ImmediateM),
        0xCAu8 => (Op::DEX, AddressMode::Implied),
        0xCBu8 => (Op::WAI, AddressMode::Implied),
        0xCCu8 => (Op::CPY, AddressMode::Absolute),
        0xCDu8 => (Op::CMP, AddressMode::Absolute),
        0xCEu8 => (Op::DEC, AddressMode::Absolute),
        0xCFu8 => (Op::CMP, AddressMode::AbsoluteLong),
        0xD0u8 => (Op::BNE, AddressMode::Relative),
        0xD1u8 => (Op::CMP, AddressMode::DirectPageIndirectIndexed),
        0xD2u8 => (Op::CMP, AddressMode::DirectPageIndirect),
        0xD3u8 => (Op::CMP, AddressMode::DirectPageIndirect),
        0xD4u8 => (Op::PEI, AddressMode::PeiDirectPageIndirect),
        0xD5u8 => (Op::CMP, AddressMode::DirectPageIndexedX),
        0xD6u8 => (Op::DEC, AddressMode::DirectPageIndexedX),
        0xD7u8 => (Op::CMP, AddressMode::DirectPageIndirectIndexedLong),
        0xD8u8 => (Op::CLD, AddressMode::Implied),
        0xD9u8 => (Op::CMP, AddressMode::AbsoluteIndexedY),
        0xDAu8 => (Op::PHX, AddressMode::Implied),
        0xDBu8 => (Op::STP, AddressMode::Implied),
        0xDCu8 => (Op::JML, AddressMode::AbsoluteIndirectLong),
        0xDDu8 => (Op::CMP, AddressMode::AbsoluteIndexedX),
        0xDEu8 => (Op::DEC, AddressMode::AbsoluteIndexedX),
        0xDFu8 => (Op::CMP, AddressMode::AbsoluteIndexedLong),
        0xE0u8 => (Op::CPX, AddressMode::ImmediateX),
        0xE1u8 => (Op::SBC, AddressMode::DirectPageIndexedIndirect),
        0xE2u8 => (Op::SEP, AddressMode::Immediate8),
        0xE3u8 => (Op::SBC, AddressMode::StackRelative),
        0xE4u8 => (Op::CPX, AddressMode::DirectPage),
        0xE5u8 => (Op::SBC, AddressMode::DirectPage),
        0xE6u8 => (Op::INC, AddressMode::DirectPage),
        0xE7u8 => (Op::SBC, AddressMode::DirectPageIndirectLong),
        0xE8u8 => (Op::INX, AddressMode::Implied),
        0xE9u8 => (Op::SBC, AddressMode::ImmediateM),
        0xEAu8 => (Op::NOP, AddressMode::Implied),
        0xEBu8 => (Op::XBA, AddressMode::Implied),
        0xECu8 => (Op::CPX, AddressMode::Absolute),
        0xEDu8 => (Op::SBC, AddressMode::Absolute),
        0xEEu8 => (Op::INC, AddressMode::Absolute),
        0xEFu8 => (Op::SBC, AddressMode::AbsoluteLong),
        0xF0u8 => (Op::BEQ, AddressMode::Relative),
        0xF1u8 => (Op::SBC, AddressMode::DirectPageIndirectIndexed),
        0xF2u8 => (Op::SBC, AddressMode::DirectPageIndirect),
        0xF3u8 => (Op::SBC, AddressMode::StackRelativeIndirectIndexed),
        0xF4u8 => (Op::PEA, AddressMode::StackAbsolute),
        0xF5u8 => (Op::SBC, AddressMode::DirectPageIndexedX),
        0xF6u8 => (Op::INC, AddressMode::DirectPageIndexedX),
        0xF7u8 => (Op::SBC, AddressMode::DirectPageIndirectIndexedLong),
        0xF8u8 => (Op::SED, AddressMode::Implied),
        0xF9u8 => (Op::SBC, AddressMode::AbsoluteIndexedY),
        0xFAu8 => (Op::PLX, AddressMode::Implied),
        0xFBu8 => (Op::XCE, AddressMode::Implied),
        0xFCu8 => (Op::JSR, AddressMode::AbsoluteIndexedIndirect),
        0xFDu8 => (Op::SBC, AddressMode::AbsoluteIndexedX),
        0xFEu8 => (Op::INC, AddressMode::AbsoluteIndexedX),
        _ => (Op::SBC, AddressMode::AbsoluteIndexedLong),
    }
}

/// Decode an opcode byte into its operation and addressing mode.
pub fn decode(opcode: u8) -> (r: (Op, AddressMode))
    ensures
        r == opcode_table(opcode),
{
    match opcode {
        0x00 => (Op::BRK, AddressMode::Immediate8),
        0x01 => (Op::ORA, AddressMode::DirectPageIndexedIndirect),
        0x02 => (Op::COP, AddressMode::Immediate8),
        0x03 => (Op::ORA, AddressMode::StackRelative),
        0x04 => (Op::TSB, AddressMode::DirectPage),
        0x05 => (Op::ORA, AddressMode::DirectPage),
        0x06 => (Op::ASL, AddressMode::DirectPage),
        0x07 => (Op::ORA, AddressMode::DirectPageIndirectLong),
        0x08 => (Op::PHP, AddressMode::Implied),
        0x09 => (Op::ORA, AddressMode::ImmediateM),
        0x0A => (Op::ASL, AddressMode::ImpliedAccumulator),
        0x0B => (Op::PHD, AddressMode::Implied),
        0x0C => (Op::TSB, AddressMode::Absolute),
        0x0D => (Op::ORA, AddressMode::Absolute),
        0x0E => (Op::ASL, AddressMode::Absolute),
        0x0F => (Op::ORA, AddressMode::AbsoluteLong),
        0x10 => (Op::BPL, AddressMode::Relative),
        0x11 => (Op::ORA, AddressMode::DirectPageIndirectIndexed),
        0x12 => (Op::ORA, AddressMode::DirectPageIndirect),
        0x13 => (Op::ORA, AddressMode::StackRelativeIndirectIndexed),
        0x14 => (Op::TRB, AddressMode::DirectPage),
        0x15 => (Op::ORA, AddressMode::DirectPageIndexedX),
        0x16 => (Op::ASL, AddressMode::DirectPageIndexedX),
        0x17 => (Op::ORA, AddressMode::DirectPageIndirectIndexedLong),
        0x18 => (Op::CLC, AddressMode::Implied),
        0x19 => (Op::ORA, AddressMode::AbsoluteIndexedY),
        0x1A => (Op::INC, AddressMode::ImpliedAccumulator),
        0x1B => (Op::TCS, AddressMode::Implied),
        0x1C => (Op::TRB, AddressMode::Absolute),
        0x1D => (Op::ORA, AddressMode::AbsoluteIndexedX),
        0x1E => (Op::ASL, AddressMode::AbsoluteIndexedX),
        0x1F => (Op::ORA, AddressMode::AbsoluteIndexedLong),
        0x20 => (Op::JSR, AddressMode::Absolute),
        0x21 => (Op::AND, AddressMode::DirectPageIndexedIndirect),
        0x22 => (Op::JSL, AddressMode::AbsoluteLong),
        0x23 => (Op::AND, AddressMode::StackRelative),
        0x24 => (Op::BIT, AddressMode::DirectPage),
        0x25 => (Op::AND, AddressMode::DirectPage),
        0x26 => (Op::ROL, AddressMode::DirectPage),
        0x27 => (Op::AND, AddressMode::DirectPageIndirectLong),
        0x28 => (Op::PLP, AddressMode::Implied),
        0x29 => (Op::AND, AddressMode::ImmediateM),
        0x2A => (Op::ROL, AddressMode::ImpliedAccumulator),
        0x2B => (Op::PLD, AddressMode::Implied),
        0x2C => (Op::BIT, AddressMode::Absolute),
        0x2D => (Op::AND, AddressMode::Absolute),
        0x2E => (Op::ROL, AddressMode::Absolute),
        0x2F => (Op::AND, AddressMode::AbsoluteLong),
        0x30 => (Op::BMI, AddressMode::Relative),
        0x31 => (Op::AND, AddressMode::DirectPageIndirectIndexed),
        0x32 => (Op::AND, AddressMode::DirectPageIndirect),
        0x33 => (Op::AND, AddressMode::StackRelativeIndirectIndexed),
        0x34 => (Op::BIT, AddressMode::DirectPageIndexedX),
        0x35 => (Op::AND, AddressMode::DirectPageIndexedX),
        0x36 => (Op::ROL, AddressMode::DirectPageIndexedX),
        0x37 => (Op::AND, AddressMode::DirectPageIndirectIndexedLong),
        0x38 => (Op::SEC, AddressMode::Implied),
        0x39 => (Op::AND, AddressMode::AbsoluteIndexedY),
        0x3A => (Op::DEC, AddressMode::ImpliedAccumulator),
        0x3B => (Op::TSC, AddressMode::Implied),
        0x3C => (Op::BIT, AddressMode::AbsoluteIndexedX),
        0x3D => (Op::AND, AddressMode::AbsoluteIndexedX),
        0x3E => (Op::ROL, AddressMode::AbsoluteIndexedX),
        0x3F => (Op::AND, AddressMode::AbsoluteIndexedLong),
        0x40 => (Op::RTI, AddressMode::Implied),
        0x41 => (Op::EOR, AddressMode::DirectPageIndexedIndirect),
        0x42 => (Op::WDM, AddressMode::Immediate8),
        0x43 => (Op::EOR, AddressMode::StackRelative),
        0x44 => (Op::MVP, AddressMode::Move),
        0x45 => (Op::EOR, AddressMode::DirectPage),
        0x46 => (Op::LSR, AddressMode::DirectPage),
        0x47 => (Op::EOR, AddressMode::DirectPageIndirectLong),
        0x48 => (Op::PHA, AddressMode::Implied),
        0x49 => (Op::EOR, AddressMode::ImmediateM),
        0x4A => (Op::LSR, AddressMode::ImpliedAccumulator),
        0x4B => (Op::PHK, AddressMode::Implied),
        0x4C => (Op::JMP, AddressMode::Absolute),
        0x4D => (Op::EOR, AddressMode::Absolute),
        0x4E => (Op::LSR, AddressMode::Absolute),
        0x4F => (Op::EOR, AddressMode::AbsoluteLong),
        0x50 => (Op::BVC, AddressMode::Relative),
        0x51 => (Op::EOR, AddressMode::DirectPageIndirectIndexed),
        0x52 => (Op::EOR, AddressMode::DirectPageIndirect),
        0x53 => (Op::EOR, AddressMode::StackRelativeIndirectIndexed),
        0x54 => (Op::MVN, AddressMode::Move),
        0x55 => (Op::EOR, AddressMode::DirectPageIndexedX),
        0x56 => (Op::LSR, AddressMode::DirectPageIndexedX),
        0x57 => (Op::EOR, AddressMode::DirectPageIndirectIndexedLong),
        0x58 => (Op::CLI, AddressMode::Implied),
        0x59 => (Op::EOR, AddressMode::AbsoluteIndexedY),
        0x5A => (Op::PHY, AddressMode::Implied),
        0x5B => (Op::TCD, AddressMode::Implied),
        0x5C => (Op::JML, AddressMode::AbsoluteLong),
        0x5D => (Op::EOR, AddressMode::AbsoluteIndexedX),
        0x5E => (Op::LSR, AddressMode::AbsoluteIndexedX),
        0x5F => (Op::EOR, AddressMode::AbsoluteIndexedLong),
        0x60 => (Op::RTS, AddressMode::Implied),
        0x61 => (Op::ADC, AddressMode::DirectPageIndexedIndirect),
        0x62 => (Op::PER, AddressMode::RelativeLong),
        0x63 => (Op::ADC, AddressMode::StackRelative),
        0x64 => (Op::STZ, AddressMode::DirectPage),
        0x65 => (Op::ADC, AddressMode::DirectPage),
        0x66 => (Op::ROR, AddressMode::DirectPage),
        0x67 => (Op::ADC, AddressMode::DirectPageIndirectLong),
        0x68 => (Op::PLA, AddressMode::Implied),
        0x69 => (Op::ADC, AddressMode::ImmediateM),
        0x6A => (Op::ROR, AddressMode::ImpliedAccumulator),
        0x6B => (Op::RTL, AddressMode::Implied),
        0x6C => (Op::JMP, AddressMode::AbsoluteIndirect),
        0x6D => (Op::ADC, AddressMode::Absolute),
        0x6E => (Op::ROR, AddressMode::Absolute),
        0x6F => (Op::ADC, AddressMode::AbsoluteLong),
        0x70 => (Op::BVS, AddressMode::Relative),
        0x71 => (Op::ADC, AddressMode::DirectPageIndirectIndexed),
        0x72 => (Op::ADC, AddressMode::DirectPageIndirect),
        0x73 => (Op::ADC, AddressMode::StackRelativeIndirectIndexed),
        0x74 => (Op::STZ, AddressMode::DirectPageIndexedX),
        0x75 => (Op::ADC, AddressMode::DirectPageIndexedX),
        0x76 => (Op::ROR, AddressMode::DirectPageIndexedX),
        0x77 => (Op::ADC, AddressMode::DirectPageIndirectIndexedLong),
        0x78 => (Op::SEI, AddressMode::Implied),
        0x79 => (Op::ADC, AddressMode::AbsoluteIndexedY),
        0x7A => (Op::PLY, AddressMode::Implied),
        0x7B => (Op::TDC, AddressMode::Implied),
        0x7C => (Op::JMP, AddressMode::AbsoluteIndexedIndirect),
        0x7D => (Op::ADC, AddressMode::AbsoluteIndexedX),
        0x7E => (Op::ROR, AddressMode::AbsoluteIndexedX),
        0x7F => (Op::ADC, AddressMode::AbsoluteIndexedLong),
        0x80 => (Op::BRA, AddressMode::Relative),
        0x81 => (Op::STA, AddressMode::DirectPageIndexedIndirect),
        0x82 => (Op::BRL, AddressMode::RelativeLong),
        0x83 => (Op::STA, AddressMode::StackRelative),
        0x84 => (Op::STY, AddressMode::DirectPage),
        0x85 => (Op::STA, AddressMode::DirectPage),
        0x86 => (Op::STX, AddressMode::DirectPage),
        0x87 => (Op::STA, AddressMode::DirectPageIndirectLong),
        0x88 => (Op::DEY, AddressMode::Implied),
        0x89 => (Op::BIT, AddressMode::ImmediateM),
        0x8A => (Op::TXA, AddressMode::Implied),
        0x8B => (Op::PHB, AddressMode::Implied),
        0x8C => (Op::STY, AddressMode::Absolute),
        0x8D => (Op::STA, AddressMode::Absolute),
        0x8E => (Op::STX, AddressMode::Absolute),
        0x8F => (Op::STA, AddressMode::AbsoluteLong),
        0x90 => (Op::BCC, AddressMode::Relative),
        0x91 => (Op::STA, AddressMode::DirectPageIndirectIndexed),
        0x92 => (Op::STA, AddressMode::DirectPageIndirect),
        0x93 => (Op::STA, AddressMode::StackRelativeIndirectIndexed),
        0x94 => (Op::STY, AddressMode::DirectPageIndexedX),
        0x95 => (Op::STA, AddressMode::DirectPageIndexedX),
        0x96 => (Op::STX, AddressMode::DirectPageIndexedY),
        0x97 => (Op::STA, AddressMode::DirectPageIndirectIndexedLong),
        0x98 => (Op::TYA, AddressMode::Implied),
        0x99 => (Op::STA, AddressMode::AbsoluteIndexedY),
        0x9A => (Op::TXS, AddressMode::Implied),
        0x9B => (Op::TXY, AddressMode::Implied),
        0x9C => (Op::STZ, AddressMode::Absolute),
        0x9D => (Op::STA, AddressMode::AbsoluteIndexedX),
        0x9E => (Op::STZ, AddressMode::AbsoluteIndexedX),
        0x9F => (Op::STA, AddressMode::AbsoluteIndexedLong),
        0xA0 => (Op::LDY, AddressMode::ImmediateX),
        0xA1 => (Op::LDA, AddressMode::DirectPageIndexedIndirect),
        0xA2 => (Op::LDX, AddressMode::ImmediateX),
        0xA3 => (Op::LDA, AddressMode::StackRelative),
        0xA4 => (Op::LDY, AddressMode::DirectPage),
        0xA5 => (Op::LDA, AddressMode::DirectPage),
        0xA6 => (Op::LDX, AddressMode::DirectPage),
        0xA7 => (Op::LDA, AddressMode::DirectPageIndirectLong),
        0xA8 => (Op::TAY, AddressMode::Implied),
        0xA9 => (Op::LDA, AddressMode::ImmediateM),
        0xAA => (Op::TAX, AddressMode::Implied),
        0xAB => (Op::PLB, AddressMode::Implied),
        0xAC => (Op::LDY, AddressMode::Absolute),
        0xAD => (Op::LDA, AddressMode::Absolute),
        0xAE => (Op::LDX, AddressMode::Absolute),
        0xAF => (Op::LDA, AddressMode::AbsoluteLong),
        0xB0 => (Op::BCS, AddressMode::Relative),
        0xB1 => (Op::LDA, AddressMode::DirectPageIndirectIndexed),
        0xB2 => (Op::LDA, AddressMode::DirectPageIndirect),
        0xB3 => (Op::LDA, AddressMode::StackRelativeIndirectIndexed),
        0xB4 => (Op::LDY, AddressMode::DirectPageIndexedX),
        0xB5 => (Op::LDA, AddressMode::DirectPageIndexedX),
        0xB6 => (Op::LDX, AddressMode::DirectPageIndexedY),
        0xB7 => (Op::LDA, AddressMode::DirectPageIndirectIndexedLong),
        0xB8 => (Op::CLV, AddressMode::Implied),
        0xB9 => (Op::LDA, AddressMode::AbsoluteIndexedY),
        0xBA => (Op::TSX, AddressMode::Implied),
        0xBB => (Op::TYX, AddressMode::Implied),
        0xBC => (Op::LDY, AddressMode::AbsoluteIndexedX),
        0xBD => (Op::LDA, AddressMode::AbsoluteIndexedX),
        0xBE => (Op::LDX, AddressMode::AbsoluteIndexedY),
        0xBF => (Op::LDA, AddressMode::AbsoluteIndexedLong),
        0xC0 => (Op::CPY, AddressMode::ImmediateX),
        0xC1 => (Op::CMP, AddressMode::DirectPageIndexedIndirect),
        0xC2 => (Op::REP, AddressMode::Immediate8),
        0xC3 => (Op::CMP, AddressMode::StackRelative),
        0xC4 => (Op::CPY, AddressMode::DirectPage),
        0xC5 => (Op::CMP, AddressMode::DirectPage),
        0xC6 => (Op::DEC, AddressMode::DirectPage),
        0xC7 => (Op::CMP, AddressMode::DirectPageIndirectLong),
        0xC8 => (Op::INY, AddressMode::Implied),
        0xC9 => (Op::CMP, AddressMode::ImmediateM),
        0xCA => (Op::DEX, AddressMode::Implied),
        0xCB => (Op::WAI, AddressMode::Implied),
        0xCC => (Op::CPY, AddressMode::Absolute),
        0xCD => (Op::CMP, AddressMode::Absolute),
        0xCE => (Op::DEC, AddressMode::Absolute),
        0xCF => (Op::CMP, AddressMode::AbsoluteLong),
        0xD0 => (Op::BNE, AddressMode::Relative),
        0xD1 => (Op::CMP, AddressMode::DirectPageIndirectIndexed),
        0xD2 => (Op::CMP, AddressMode::DirectPageIndirect),
        0xD3 => (Op::CMP, AddressMode::DirectPageIndirect),
        0xD4 => (Op::PEI, AddressMode::PeiDirectPageIndirect),
        0xD5 => (Op::CMP, AddressMode::DirectPageIndexedX),
        0xD6 => (Op::DEC, AddressMode::DirectPageIndexedX),
        0xD7 => (Op::CMP, AddressMode::DirectPageIndirectIndexedLong),
        0xD8 => (Op::CLD, AddressMode::Implied),
        0xD9 => (Op::CMP, AddressMode::AbsoluteIndexedY),
        0xDA => (Op::PHX, AddressMode::Implied),
        0xDB => (Op::STP, AddressMode::Implied),
        0xDC => (Op::JML, AddressMode::AbsoluteIndirectLong),
        0xDD => (Op::CMP, AddressMode::AbsoluteIndexedX),
        0xDE => (Op::DEC, AddressMode::AbsoluteIndexedX),
        0xDF => (Op::CMP, AddressMode::AbsoluteIndexedLong),
        0xE0 => (Op::CPX, AddressMode::ImmediateX),
        0xE1 => (Op::SBC, AddressMode::DirectPageIndexedIndirect),
        0xE2 => (Op::SEP, AddressMode::Immediate8),
        0xE3 => (Op::SBC, AddressMode::StackRelative),
        0xE4 => (Op::CPX, AddressMode::DirectPage),
        0xE5 => (Op::SBC, AddressMode::DirectPage),
        0xE6 => (Op::INC, AddressMode::DirectPage),
        0xE7 => (Op::SBC, AddressMode::DirectPageIndirectLong),
        0xE8 => (Op::INX, AddressMode::Implied),
        0xE9 => (Op::SBC, AddressMode::ImmediateM),
        0xEA => (Op::NOP, AddressMode::Implied),
        0xEB => (Op::XBA, AddressMode::Implied),
        0xEC => (Op::CPX, AddressMode::Absolute),
        0xED => (Op::SBC, AddressMode::Absolute),
        0xEE => (Op::INC, AddressMode::Absolute),
        0xEF => (Op::SBC, AddressMode::AbsoluteLong),
        0xF0 => (Op::BEQ, AddressMode::Relative),
        0xF1 => (Op::SBC, AddressMode::DirectPageIndirectIndexed),
        0xF2 => (Op::SBC, AddressMode::DirectPageIndirect),
        0xF3 => (Op::SBC, AddressMode::StackRelativeIndirectIndexed),
        0xF4 => (Op::PEA, AddressMode::StackAbsolute),
        0xF5 => (Op::SBC, AddressMode::DirectPageIndexedX),
        0xF6 => (Op::INC, AddressMode::DirectPageIndexedX),
        0xF7 => (Op::SBC, AddressMode::DirectPageIndirectIndexedLong),
        0xF8 => (Op::SED, AddressMode::Implied),
        0xF9 => (Op::SBC, AddressMode::AbsoluteIndexedY),
        0xFA => (Op::PLX, AddressMode::Implied),
        0xFB => (Op::XCE, AddressMode::Implied),
        0xFC => (Op::JSR, AddressMode::AbsoluteIndexedIndirect),
        0xFD => (Op::SBC, AddressMode::AbsoluteIndexedX),
        0xFE => (Op::INC, AddressMode::AbsoluteIndexedX),
        _ => (Op::SBC, AddressMode::AbsoluteIndexedLong),
    }
}

/// Lower-case mnemonic of an operation.
pub open spec fn op_name(op: Op) -> &'static str {
    match op {
        Op::ADC => "adc",
        Op::AND => "and",
        Op::ASL => "asl",
        Op::BCC => "bcc",
        Op::BCS => "bcs",
        Op::BEQ => "beq",
        Op::BIT => "bit",
        Op::BMI => "bmi",
        Op::BNE => "bne",
        Op::BPL => "bpl",
        Op::BRA => "bra",
        Op::BRK => "brk",
        Op::BRL => "brl",
        Op::BVC => "bvc",
        Op::BVS => "bvs",
        Op::CLC => "clc",
        Op::CLD => "cld",
        Op::CLI => "cli",
        Op::CLV => "clv",
        Op::CMP => "cmp",
        Op::COP => "cop",
        Op::CPX => "cpx",
        Op::CPY => "cpy",
        Op::DEC => "dec",
        Op::DEX => "dex",
        Op::DEY => "dey",
        Op::EOR => "eor",
        Op::INC => "inc",
        Op::INX => "inx",
        Op::INY => "iny",
        Op::JML => "jml",
        Op::JMP => "jmp",
        Op::JSL => "jsl",
        Op::JSR => "jsr",
        Op::LDA => "lda",
        Op::LDX => "ldx",
        Op::LDY => "ldy",
        Op::LSR => "lsr",
        Op::MVN => "mvn",
        Op::MVP => "mvp",
        Op::NOP => "nop",
        Op::ORA => "ora",
        Op::PEA => "pea",
        Op::PEI => "pei",
        Op::PER => "per",
        Op::PHA => "pha",
        Op::PHB => "phb",
        Op::PHD => "phd",
        Op::PHK => "phk",
        Op::PHP => "php",
        Op::PHX => "phx",
        Op::PHY => "phy",
        Op::PLA => "pla",
        Op::PLB => "plb",
        Op::PLD => "pld",
        Op::PLP => "plp",
        Op::PLX => "plx",
        Op::PLY => "ply",
        Op::REP => "rep",
        Op::ROL => "rol",
        Op::ROR => "ror",
        Op::RTI => "rti",
        Op::RTL => "rtl",
        Op::RTS => "rts",
        Op::SBC => "sbc",
        Op::SEC => "sec",
        Op::SED => "sed",
        Op::SEI => "sei",
        Op::SEP => "sep",
        Op::STA => "sta",
        Op::STP => "stp",
        Op::STX => "stx",
        Op::STY => "sty",
        Op::STZ => "stz",
        Op::TAX => "tax",
        Op::TAY => "tay",
        Op::TCD => "tcd",
        Op::TCS => "tcs",
        Op::TDC => "tdc",
        Op::TRB => "trb",
        Op::TSB => "tsb",
        Op::TSC => "tsc",
        Op::TSX => "tsx",
        Op::TXA => "txa",
        Op::TXS => "txs",
        Op::TXY => "txy",
        Op::TYA => "tya",
        Op::TYX => "tyx",
        Op::WAI => "wai",
        Op::WDM => "wdm",
        Op::XBA => "xba",
        Op::XCE => "xce",
    }
}

/// Description of an operation.
pub open spec fn op_description(op: Op) -> &'static str {
    match op {
        Op::ADC => "Add With Carry",
        Op::AND => "AND Accumulator With Memory",
        Op::ASL => "Accumulator or Memory Shift Left",
        Op::BCC => "Branch if Carry Clear",
        Op::BCS => "Branch if Carry Set",
        Op::BEQ => "Branch if Equal",
        Op::BIT => "Test Bits",
        Op::BMI => "Branch if Minus",
        Op::BNE => "Branch if Not Equal",
        Op::BPL => "Branch if Plus",
        Op::BRA => "Branch Always",
        Op::BRK => "Break",
        Op::BRL => "Branch Long Always",
        Op::BVC => "Branch if Overflow Clear",
        Op::BVS => "Branch if Overflow Set",
        Op::CLC => "Clear Carry",
        Op::CLD => "Clear Decimal Mode Flag",
        Op::CLI => "Clear Interrupt Disable Flag",
        Op::CLV => "Clear Overflow Flag",
        Op::CMP => "Compare Accumulator With Memory",
        Op::COP => "Co-Processor Enable",
        Op::CPX => "Compare Index Register X with Memory",
        Op::CPY => "Compare Index Register Y with Memory",
        Op::DEC => "Decrement",
        Op::DEX => "Decrement Index Register X",
        Op::DEY => "Decrement Index Register Y",
        Op::EOR => "Exclusive-OR Accumulator with Memory",
        Op::INC => "Increment",
        Op::INX => "Increment Index Register X",
        Op::INY => "Increment Index Register Y",
        Op::JML => "Jump Long",
        Op::JMP => "Jump",
        Op::JSL => "Jump to Subroutine Long",
        Op::JSR => "Jump to Subroutine",
        Op::LDA => "Load Accumulator from Memory",
        Op::LDX => "Load Index Register X from Memory",
        Op::LDY => "Load Index Register Y from Memory",
        Op::LSR => "Logical Shift Memory or Accumulator Right",
        Op::MVN => "Block Move Negative",
        Op::MVP => "Block Move Positive",
        Op::NOP => "No Operation",
        Op::ORA => "OR Accumulator with Memory",
        Op::PEA => "Push Effective Absolute Address",
        Op::PEI => "Push Effective Indirect Address",
        Op::PER => "Push Effective PC Relative Indirect Address",
        Op::PHA => "Push Accumulator",
        Op::PHB => "Push Data Bank Register",
        Op::PHD => "Push Direct Page Register",
        Op::PHK => "Push Program Bank Register",
        Op::PHP => "Push Processor Status Register",
        Op::PHX => "Push Index Register X",
        Op::PHY => "Push Index Register Y",
        Op::PLA => "Pull Accumulator",
        Op::PLB => "Pull Data Bank Register",
        Op::PLD => "Pull Direct Page Register",
        Op::PLP => "Pull Processor Status Register",
        Op::PLX => "Pull Index Register X",
        Op::PLY => "Pull Index Register Y",
        Op::REP => "Reset Processor Status Bits",
        Op::ROL => "Rotate Memory or Accumulator Left",
        Op::ROR => "Rotate Memory or Accumulator Right",
        Op::RTI => "Return from Interrupt",
        Op::RTL => "Return from Subroutine Long",
        Op::RTS => "Return from Subroutine",
        Op::SBC => "Subtract with Borrow from Accumulator",
        Op::SEC => "Set Carry Flag",
        Op::SED => "Set Decimal Flag",
        Op::SEI => "Set Interrupt Disable Flag",
        Op::SEP => "Set Processor Status Bits",
        Op::STA => "Store Accumulator to Memory",
        Op::STP => "Stop Processor",
        Op::STX => "Store Index Register X to Memory",
        Op::STY => "Store Index Register Y to Memory",
        Op::STZ => "Store Zero to Memory",
        Op::TAX => "Transfer Accumulator to Index Register X",
        Op::TAY => "Transfer Accumulator to Index Register Y",
        Op::TCD => "Transfer 16-bit Accumulator to Direct Page Register",
        Op::TCS => "Transfer 16-bit Accumulator to Stack Pointer",
        Op::TDC => "Transfer Direct Page Register to 16-bit Accumulator",
        Op::TRB => "Test and Reset Memory Bits Against Accumulator",
        Op::TSB => "Test and Set Memory Bits Against Accumulator",
        Op::TSC => "Transfer Stack Pointer to 16-bit Accumulator",
        Op::TSX => "Transfer Stack Pointer to Index Register X",
        Op::TXA => "Transfer Index Register X to Accumulator",
        Op::TXS => "Transfer Index Register X to Stack Pointer",
        Op::TXY => "Transfer Index Register X to Index Register Y",
        Op::TYA => "Transfer Index Register Y to Accumulator",
        Op::TYX => "Transfer Index Register Y to Index Register X",
        Op::WAI => "Wait for Interrupt",
        Op::WDM => "Reserved for Future Expansion",
        Op::XBA => "Exchange B and A 8-bit Accumulators",
        Op::XCE => "Exchange Carry and Emulation Flags",
    }
}

impl Op {
    /// Return the operation's lower-case mnemonic.
    pub fn name(self) -> (r: &'static str)
        ensures
            r == op_name(self),
    {
        match self {
            Op::ADC => "adc",
            Op::AND => "and",
            Op::ASL => "asl",
            Op::BCC => "bcc",
            Op::BCS => "bcs",
            Op::BEQ => "beq",
            Op::BIT => "bit",
            Op::BMI => "bmi",
            Op::BNE => "bne",
            Op::BPL => "bpl",
            Op::BRA => "bra",
            Op::BRK => "brk",
            Op::BRL => "brl",
            Op::BVC => "bvc",
            Op::BVS => "bvs",
            Op::CLC => "clc",
            Op::CLD => "cld",
            Op::CLI => "cli",
            Op::CLV => "clv",
            Op::CMP => "cmp",
            Op::COP => "cop",
            Op::CPX => "cpx",
            Op::CPY => "cpy",
            Op::DEC => "dec",
            Op::DEX => "dex",
            Op::DEY => "dey",
            Op::EOR => "eor",
            Op::INC => "inc",
            Op::INX => "inx",
            Op::INY => "iny",
            Op::JML => "jml",
            Op::JMP => "jmp",
            Op::JSL => "jsl",
            Op::JSR => "jsr",
            Op::LDA => "lda",
            Op::LDX => "ldx",
            Op::LDY => "ldy",
            Op::LSR => "lsr",
            Op::MVN => "mvn",
            Op::MVP => "mvp",
            Op::NOP => "nop",
            Op::ORA => "ora",
            Op::PEA => "pea",
            Op::PEI => "pei",
            Op::PER => "per",
            Op::PHA => "pha",
            Op::PHB => "phb",
            Op::PHD => "phd",
            Op::PHK => "phk",
            Op::PHP => "php",
            Op::PHX => "phx",
            Op::PHY => "phy",
            Op::PLA => "pla",
            Op::PLB => "plb",
            Op::PLD => "pld",
            Op::PLP => "plp",
            Op::PLX => "plx",
            Op::PLY => "ply",
            Op::REP => "rep",
            Op::ROL => "rol",
            Op::ROR => "ror",
            Op::RTI => "rti",
            Op::RTL => "rtl",
            Op::RTS => "rts",
            Op::SBC => "sbc",
            Op::SEC => "sec",
            Op::SED => "sed",
            Op::SEI => "sei",
            Op::SEP => "sep",
            Op::STA => "sta",
            Op::STP => "stp",
            Op::STX => "stx",
            Op::STY => "sty",
            Op::STZ => "stz",
            Op::TAX => "tax",
            Op::TAY => "tay",
            Op::TCD => "tcd",
            Op::TCS => "tcs",
            Op::TDC => "tdc",
            Op::TRB => "trb",
            Op::TSB => "tsb",
            Op::TSC => "tsc",
            Op::TSX => "tsx",
            Op::TXA => "txa",
            Op::TXS => "txs",
            Op::TXY => "txy",
            Op::TYA => "tya",
            Op::TYX => "tyx",
            Op::WAI => "wai",
            Op::WDM => "wdm",
            Op::XBA => "xba",
            Op::XCE => "xce",
        }
    }

    /// Return the operation's description.
    pub fn description(self) -> (r: &'static str)
        ensures
            r == op_description(self),
    {
        match self {
            Op::ADC => "Add With Carry",
            Op::AND => "AND Accumulator With Memory",
            Op::ASL => "Accumulator or Memory Shift Left",
            Op::BCC => "Branch if Carry Clear",
            Op::BCS => "Branch if Carry Set",
            Op::BEQ => "Branch if Equal",
            Op::BIT => "Test Bits",
            Op::BMI => "Branch if Minus",
            Op::BNE => "Branch if Not Equal",
            Op::BPL => "Branch if Plus",
            Op::BRA => "Branch Always",
            Op::BRK => "Break",
            Op::BRL => "Branch Long Always",
            Op::BVC => "Branch if Overflow Clear",
            Op::BVS => "Branch if Overflow Set",
            Op::CLC => "Clear Carry",
            Op::CLD => "Clear Decimal Mode Flag",
            Op::CLI => "Clear Interrupt Disable Flag",
            Op::CLV => "Clear Overflow Flag",
            Op::CMP => "Compare Accumulator With Memory",
            Op::COP => "Co-Processor Enable",
            Op::CPX => "Compare Index Register X with Memory",
            Op::CPY => "Compare Index Register Y with Memory",
            Op::DEC => "Decrement",
            Op::DEX => "Decrement Index Register X",
            Op::DEY => "Decrement Index Register Y",
            Op::EOR => "Exclusive-OR Accumulator with Memory",
            Op::INC => "Increment",
            Op::INX => "Increment Index Register X",
            Op::INY => "Increment Index Register Y",
            Op::JML => "Jump Long",
            Op::JMP => "Jump",
            Op::JSL => "Jump to Subroutine Long",
            Op::JSR => "Jump to Subroutine",
            Op::LDA => "Load Accumulator from Memory",
            Op::LDX => "Load Index Register X from Memory",
            Op::LDY => "Load Index Register Y from Memory",
            Op::LSR => "Logical Shift Memory or Accumulator Right",
            Op::MVN => "Block Move Negative",
            Op::MVP => "Block Move Positive",
            Op::NOP => "No Operation",
            Op::ORA => "OR Accumulator with Memory",
            Op::PEA => "Push Effective Absolute Address",
            Op::PEI => "Push Effective Indirect Address",
            Op::PER => "Push Effective PC Relative Indirect Address",
            Op::PHA => "Push Accumulator",
            Op::PHB => "Push Data Bank Register",
            Op::PHD => "Push Direct Page Register",
            Op::PHK => "Push Program Bank Register",
            Op::PHP => "Push Processor Status Register",
            Op::PHX => "Push Index Register X",
            Op::PHY => "Push Index Register Y",
            Op::PLA => "Pull Accumulator",
            Op::PLB => "Pull Data Bank Register",
            Op::PLD => "Pull Direct Page Register",
            Op::PLP => "Pull Processor Status Register",
            Op::PLX => "Pull Index Register X",
            Op::PLY => "Pull Index Register Y",
            Op::REP => "Reset Processor Status Bits",
            Op::ROL => "Rotate Memory or Accumulator Left",
            Op::ROR => "Rotate Memory or Accumulator Right",
            Op::RTI => "Return from Interrupt",
            Op::RTL => "Return from Subroutine Long",
            Op::RTS => "Return from Subroutine",
            Op::SBC => "Subtract with Borrow from Accumulator",
            Op::SEC => "Set Carry Flag",
            Op::SED => "Set Decimal Flag",
            Op::SEI => "Set Interrupt Disable Flag",
            Op::SEP => "Set Processor Status Bits",
            Op::STA => "Store Accumulator to Memory",
            Op::STP => "Stop Processor",
            Op::STX => "Store Index Register X to Memory",
            Op::STY => "Store Index Register Y to Memory",
            Op::STZ => "Store Zero to Memory",
            Op::TAX => "Transfer Accumulator to Index Register X",
            Op::TAY => "Transfer Accumulator to Index Register Y",
            Op::TCD => "Transfer 16-bit Accumulator to Direct Page Register",
            Op::TCS => "Transfer 16-bit Accumulator to Stack Pointer",
            Op::TDC => "Transfer Direct Page Register to 16-bit Accumulator",
            Op::TRB => "Test and Reset Memory Bits Against Accumulator",
            Op::TSB => "Test and Set Memory Bits Against Accumulator",
            Op::TSC => "Transfer Stack Pointer to 16-bit Accumulator",
            Op::TSX => "Transfer Stack Pointer to Index Register X",
            Op::TXA => "Transfer Index Register X to Accumulator",
            Op::TXS => "Transfer Index Register X to Stack Pointer",
            Op::TXY => "Transfer Index Register X to Index Register Y",
            Op::TYA => "Transfer Index Register Y to Accumulator",
            Op::TYX => "Transfer Index Register Y to Index Register X",
            Op::WAI => "Wait for Interrupt",
            Op::WDM => "Reserved for Future Expansion",
            Op::XBA => "Exchange B and A 8-bit Accumulators",
            Op::XCE => "Exchange Carry and Emulation Flags",
        }
    }
}

} // verus!
