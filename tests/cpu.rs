use gilgamesh::analysis::{Analysis, Reference};
use gilgamesh::cpu::CPU;
use gilgamesh::instruction::Instruction;
use gilgamesh::rom::ROM;

fn setup_cpu(p: u8) -> (CPU, Analysis) {
    let mut analysis = Analysis::new(ROM::new());
    analysis.add_subroutine(0x8000, None, Vec::new());
    (CPU::new(0x8000, 0x8000, p), analysis)
}

fn setup_instruction(cpu: &CPU, opcode: u8, argument: usize) -> Instruction {
    Instruction::new(cpu.pc, cpu.subroutine, cpu.state.p(), opcode, argument)
}

#[test]
fn test_branch() {
    let (mut cpu, mut analysis) = setup_cpu(0b0000_0000);
    cpu.stop = true;

    let bcc = setup_instruction(&cpu, 0x90, 0x10);
    cpu.execute(&mut analysis, bcc);
    assert_eq!(cpu.pc, 0x8012);
}

#[test]
fn test_call() {
    let (mut cpu, mut analysis) = setup_cpu(0b0000_0000);
    cpu.stop = true;

    let jsr = setup_instruction(&cpu, 0x20, 0x9000);
    cpu.execute(&mut analysis, jsr);

    assert_eq!(cpu.pc, 0x8003);
    assert!(analysis.is_subroutine(0x9000));
}

#[test]
fn test_interrupt() {
    let (mut cpu, mut analysis) = setup_cpu(0b0000_0000);
    let brk = setup_instruction(&cpu, 0x00, 0x00);
    cpu.execute(&mut analysis, brk);
    assert!(cpu.stop);
}

#[test]
fn test_jump() {
    let (mut cpu, mut analysis) = setup_cpu(0b0000_0000);
    cpu.stop = true;

    let jmp = setup_instruction(&cpu, 0x4C, 0x9000);
    cpu.execute(&mut analysis, jmp);

    let references = &analysis.references;
    assert!(references[&0x8000].contains(&Reference { target: 0x9000, subroutine: 0x8000 }));
}

#[test]
fn test_ret() {
    let (mut cpu, mut analysis) = setup_cpu(0b0000_0000);
    let rts = setup_instruction(&cpu, 0x60, 0x00);
    cpu.execute(&mut analysis, rts);
    assert!(cpu.stop);

    let (mut cpu, mut analysis) = setup_cpu(0b0000_0000);
    let rtl = setup_instruction(&cpu, 0x6B, 0x00);
    cpu.execute(&mut analysis, rtl);
    assert!(cpu.stop);
}

#[test]
fn test_sep_rep() {
    let (mut cpu, mut analysis) = setup_cpu(0b0000_0000);

    let sep = setup_instruction(&cpu, 0xE2, 0x30);
    cpu.execute(&mut analysis, sep);
    assert_eq!(cpu.pc, sep.pc() + 2);
    assert_eq!(cpu.state.p(), 0b0011_0000);

    let rep = setup_instruction(&cpu, 0xC2, 0x30);
    cpu.execute(&mut analysis, rep);
    assert_eq!(cpu.pc, rep.pc() + 2);
    assert_eq!(cpu.state.p(), 0b0000_0000);
}

#[test]
fn rep_in_known_context_is_no_change() {
    let (mut cpu, mut analysis) = setup_cpu(0b0000_0000);
    let lda = setup_instruction(&cpu, 0xA9, 0x1234);
    cpu.execute(&mut analysis, lda);
    let rep = setup_instruction(&cpu, 0xC2, 0x20);
    cpu.execute(&mut analysis, rep);
    assert_eq!(cpu.state_change.m, None);
    let sep = setup_instruction(&cpu, 0xE2, 0x20);
    cpu.execute(&mut analysis, sep);
    assert_eq!(cpu.state_change.m, Some(true));
}

#[test]
fn accumulator_shadow_moves_the_stack() {
    let (mut cpu, mut analysis) = setup_cpu(0b0000_0000);
    let lda = setup_instruction(&cpu, 0xA9, 0x1FF0);
    cpu.execute(&mut analysis, lda);
    let tcs = setup_instruction(&cpu, 0x1B, 0);
    cpu.execute(&mut analysis, tcs);
    assert_eq!(cpu.stack.pointer(), 0x1FF0);
    assert!(!cpu.stop);
}
