use gilgamesh::instruction::{Instruction, InstructionType};
use gilgamesh::opcodes::{AddressMode, Op};

#[test]
fn test_instruction_lda() {
    let instruction = Instruction::new(0x8000, 0x8000, 0b0000_0000, 0xA9, 0x1234);
    assert_eq!(instruction.name(), "lda");
    assert_eq!(instruction.operation(), Op::LDA);
    assert_eq!(instruction.address_mode(), AddressMode::ImmediateM);
    assert_eq!(instruction.typ(), InstructionType::Other);
    assert_eq!(instruction.argument_size(), 2);
    assert_eq!(instruction.size(), 3);
    assert_eq!(instruction.argument().unwrap(), 0x1234);
    assert_eq!(instruction.absolute_argument().unwrap(), 0x1234);
    assert_eq!(instruction.argument_string(), "#$1234");
    assert!(!instruction.is_control());
}

#[test]
fn test_instruction_brl() {
    let instruction = Instruction::new(0x8000, 0x8000, 0b0000_0000, 0x82, 0xFFFD);

    assert_eq!(instruction.name(), "brl");
    assert_eq!(instruction.operation(), Op::BRL);
    assert_eq!(instruction.address_mode(), AddressMode::RelativeLong);
    assert_eq!(instruction.argument_size(), 2);
    assert_eq!(instruction.size(), 3);
    assert_eq!(instruction.argument().unwrap(), 0xFFFD);
    assert_eq!(instruction.absolute_argument().unwrap(), 0x8000);
    assert_eq!(instruction.argument_string(), "$FFFD");
    assert_eq!(instruction.typ(), InstructionType::Jump);
    assert!(instruction.is_control());
}

#[test]
fn immediate_size_follows_state() {
    let lda8 = Instruction::new(0x8000, 0x8000, 0b0010_0000, 0xA9, 0x1234);
    assert_eq!(lda8.size(), 2);
    assert_eq!(lda8.argument(), Some(0x34));
    let ldx16 = Instruction::new(0x8000, 0x8000, 0b0010_0000, 0xA2, 0x1234);
    assert_eq!(ldx16.size(), 3);
    let ldx8 = Instruction::new(0x8000, 0x8000, 0b0001_0000, 0xA2, 0x1234);
    assert_eq!(ldx8.size(), 2);
    let nop = Instruction::new(0x8000, 0x8000, 0, 0xEA, 0x1234);
    assert_eq!(nop.size(), 1);
    assert_eq!(nop.argument(), None);
    assert_eq!(nop.argument_string(), "");
    let jsl = Instruction::new(0x8000, 0x8000, 0, 0x22, 0x123456);
    assert_eq!(jsl.size(), 4);
}

#[test]
fn absolute_arguments() {
    let jsr = Instruction::new(0x018000, 0x018000, 0x30, 0x20, 0x9000);
    assert_eq!(jsr.absolute_argument(), Some(0x019000));
    let lda_abs = Instruction::new(0x018000, 0x018000, 0x30, 0xAD, 0x9000);
    assert_eq!(lda_abs.absolute_argument(), None);
    let bcc_back = Instruction::new(0x8010, 0x8000, 0x30, 0x90, 0xFE);
    assert_eq!(bcc_back.absolute_argument(), Some(0x8010));
    let bcc_fwd = Instruction::new(0x8000, 0x8000, 0x30, 0x90, 0x10);
    assert_eq!(bcc_fwd.absolute_argument(), Some(0x8012));
}

#[test]
fn argument_strings_by_mode() {
    let cases: Vec<(u8, usize, &str)> = vec![
        (0x0A, 0, "a"),
        (0xA5, 0x12, "$12"),
        (0xB5, 0x12, "$12,x"),
        (0xB6, 0x12, "$12,y"),
        (0xB2, 0x12, "($12)"),
        (0xA1, 0x12, "($12,x)"),
        (0xB1, 0x12, "($12),y"),
        (0xA7, 0x12, "[$12]"),
        (0xB7, 0x12, "[$12],y"),
        (0xBD, 0x1234, "$1234,x"),
        (0xAF, 0x123456, "$123456"),
        (0xBF, 0x123456, "$123456,x"),
        (0xA3, 0x12, "$12,s"),
        (0xB3, 0x12, "($12,s),y"),
        (0x6C, 0x1234, "($1234)"),
        (0xDC, 0x1234, "[$1234]"),
        (0x7C, 0x1234, "($1234,x)"),
        (0x54, 0x1234, "$12,$34"),
        (0xE2, 0x30, "#$30"),
    ];
    for (opcode, argument, text) in cases {
        let i = Instruction::new(0x8000, 0x8000, 0x30, opcode, argument);
        assert_eq!(i.argument_string(), text, "opcode {:02X}", opcode);
    }
}

#[test]
fn categories() {
    let typ = |opcode: u8| Instruction::new(0x8000, 0x8000, 0x30, opcode, 0).typ();
    assert_eq!(typ(0x20), InstructionType::Call);
    assert_eq!(typ(0x4C), InstructionType::Jump);
    assert_eq!(typ(0x60), InstructionType::Return);
    assert_eq!(typ(0x00), InstructionType::Interrupt);
    assert_eq!(typ(0xC2), InstructionType::SepRep);
    assert_eq!(typ(0x28), InstructionType::Pop);
    assert_eq!(typ(0x08), InstructionType::Push);
    assert_eq!(typ(0x90), InstructionType::Branch);
    let tcs = Instruction::new(0x8000, 0x8000, 0x30, 0x1B, 0);
    assert!(tcs.changes_stack());
    let tsc = Instruction::new(0x8000, 0x8000, 0x30, 0x3B, 0);
    assert!(tsc.changes_a());
    assert_eq!(Op::LDA.description(), "Load Accumulator from Memory");
}
