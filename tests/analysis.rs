use gilgamesh::analysis::{Analysis, Reference};
use gilgamesh::instruction::Instruction;
use gilgamesh::opcodes::Op;
use gilgamesh::rom::ROM;
use gilgamesh::state::{State, UnknownReason};

/// A 32 KiB LoROM image with the given code (SNES address, bytes), the reset
/// vector at $8000 and the NMI vector at `nmi`.
fn lorom(code: &[(usize, &[u8])], nmi: u16) -> ROM {
    let mut data = vec![0u8; 0x8000];
    for (address, bytes) in code {
        let offset = address & 0x7FFF;
        data[offset..offset + bytes.len()].copy_from_slice(bytes);
    }
    data[0x7FC0..0x7FC4].copy_from_slice(b"TEST");
    data[0x7FFC] = 0x00;
    data[0x7FFD] = 0x80;
    data[0x7FEA] = (nmi & 0xFF) as u8;
    data[0x7FEB] = (nmi >> 8) as u8;
    ROM::from("test.sfc".to_string(), data)
}

fn setup_infinite_loop() -> ROM {
    lorom(&[(0x8000, &[0x4C, 0x00, 0x80])], 0)
}

fn setup_elidable_state_change() -> ROM {
    lorom(
        &[
            (0x8000, &[0xC2, 0x20, 0x20, 0x0A, 0x80, 0xE2, 0x20, 0x4C, 0x07, 0x80]),
            (0x800A, &[0xA9, 0x34, 0x12, 0xC2, 0x20, 0xA9, 0x34, 0x12, 0xEA, 0xEA, 0x60]),
        ],
        0,
    )
}

fn setup_jump_tables() -> ROM {
    lorom(
        &[
            (0x8000, &[0x7C, 0x03, 0x80, 0x00, 0x81, 0x00, 0x82]),
            (0x8100, &[0x4C, 0x00, 0x81]),
            (0x8200, &[0x4C, 0x00, 0x82]),
        ],
        0,
    )
}

fn setup_php_plp() -> ROM {
    lorom(
        &[
            (0x8000, &[0xE2, 0x30, 0x20, 0x0A, 0x80, 0xC2, 0x30, 0x4C, 0x07, 0x80]),
            (0x800A, &[0x08, 0xC2, 0x30, 0xE2, 0x20, 0x28, 0x60]),
        ],
        0,
    )
}

fn setup_simplified_state_changes() -> ROM {
    lorom(
        &[
            (
                0x8000,
                &[0xE2, 0x30, 0x20, 0x0E, 0x80, 0xAD, 0x34, 0x12, 0xAE, 0x34, 0x12, 0x4C, 0x0B, 0x80],
            ),
            (0x800E, &[0x90, 0x03, 0xE2, 0x30, 0x60, 0xE2, 0x20, 0x60]),
        ],
        0,
    )
}

fn setup_state_change() -> ROM {
    lorom(
        &[
            (
                0x8000,
                &[0xE2, 0x30, 0x20, 0x0E, 0x80, 0xA9, 0x34, 0x12, 0xA2, 0x34, 0x12, 0x4C, 0x0B, 0x80],
            ),
            (0x800E, &[0xC2, 0x30, 0x60]),
        ],
        0,
    )
}

fn setup_unknown_call_jump() -> ROM {
    lorom(
        &[
            (0x8000, &[0x6C, 0x34, 0x12]),
            (0x8003, &[0xE2, 0x30, 0xFC, 0x34, 0x12]),
            (0x9002, &[0x4C, 0x02, 0x90]),
        ],
        0x8003,
    )
}

fn setup_unknown_responsibility() -> ROM {
    lorom(&[(0x8000, &[0xE2, 0x30, 0x20, 0x06, 0x80, 0xEA, 0x6C, 0x34, 0x12])], 0)
}

#[test]
fn test_instruction_subroutine_references() {
    let mut analysis = Analysis::new(ROM::new());

    analysis.add_subroutine(0x8000, None, Vec::new());
    assert!(analysis.is_subroutine(0x8000));

    let nop = Instruction::new(0x8000, 0x8000, 0b0011_0000, 0xEA, 0x00);
    analysis.add_instruction(nop);
    assert!(analysis.is_visited_pc(0x8000));
}

#[test]
fn test_elidable_state_change() {
    let mut analysis = Analysis::new(setup_elidable_state_change());
    analysis.run();

    // Test there are two subroutines (+ NMI).
    let subroutines = &analysis.subroutines;
    assert_eq!(subroutines.len(), 3);

    // Test there's a `reset` sub with the correct number of instructions.
    let reset_sub = &subroutines[&0x8000];
    assert_eq!(reset_sub.label(), "reset");
    assert_eq!(reset_sub.instructions().len(), 4);

    // Test there's a sub with the correct number of instructions.
    let elidable_change_sub = &subroutines[&0x800A];
    assert_eq!(elidable_change_sub.instructions().len(), 6);

    // Test that the state is preserved.
    let state_changes = elidable_change_sub.state_changes();
    assert_eq!(state_changes.len(), 1);
    let state_change = state_changes.values().next().unwrap();
    assert_eq!(state_change.to_string(), "none");
}

#[test]
fn test_infinite_loop() {
    let mut analysis = Analysis::new(setup_infinite_loop());
    analysis.run();

    // Check there is a single subroutine with one instruction.
    let subroutines = &analysis.subroutines;
    assert_eq!(subroutines.len() - 1, 1);
    assert_eq!(subroutines[&0x8000].pc(), 0x8000);
    assert_eq!(subroutines[&0x8000].instructions().len(), 1);

    // Check there is a single instruction.
    let instructions = &analysis.instructions;
    assert_eq!(instructions.len(), 1);
    assert_eq!(instructions[&0x8000].len(), 1);

    // Check the instruction is a jump.
    let jmp = instructions[&0x8000][0];
    assert_eq!(jmp.pc(), 0x8000);
    assert_eq!(jmp.subroutine(), 0x8000);
    assert_eq!(jmp.operation(), Op::JMP);

    // Check the instruction points to itself.
    let references = &analysis.references;
    assert_eq!(references.len(), 1);
    assert!(references[&0x8000].contains(&Reference { target: 0x8000, subroutine: 0x8000 }));
}

#[test]
fn test_jump_tables() {
    let mut analysis = Analysis::new(setup_jump_tables());
    analysis.run();

    // Test that there's a single subroutine, which is unknown
    // because of an unexplored indirect jump instruction.
    {
        let reset_sub = &analysis.subroutines[&0x8000];
        assert_eq!(reset_sub.label(), "reset");
        assert_eq!(reset_sub.instructions().len(), 1);
        assert!(reset_sub.is_unknown_because_of(UnknownReason::IndirectJump));
    }

    // Specify the limits of the jumptable.
    analysis.add_jumptable_assertion(0x8000, (0, 2));
    analysis.run();

    // Verify that the subroutines that contains the jumptable
    // has been flagged as containing assertions.
    assert!(analysis.subroutines[&0x8000].contains_assertions());

    // Verify that the subroutines pointed by
    // the jumptable have been explored.
    assert_eq!(analysis.subroutines.len() - 1, 3);
    assert!(analysis.is_subroutine(0x8100));
    assert!(analysis.is_subroutine(0x8200));
    assert!(analysis.is_jump_table_target(0x8100));
    assert!(analysis.is_jump_table_target(0x8200));

    // Verify that, after deleting the assertions, the targets
    // are not considered to be part of a jump table anymore.
    analysis.del_jumptable_assertion(0x8000, (0, 0));
    assert!(!analysis.is_jump_table_target(0x8100));

    analysis.del_jump_assertion(0x8000, None);
    assert!(!analysis.is_jump_table_target(0x8200));
}

#[test]
fn test_php_plp() {
    let mut analysis = Analysis::new(setup_php_plp());
    analysis.run();

    {
        // Test there are two subroutines (+ NMI).
        let subroutines = &analysis.subroutines;
        assert_eq!(subroutines.len() - 1, 2);

        // Test there's a `reset` sub with the correct number of instructions.
        let reset_sub = &subroutines[&0x8000];
        assert_eq!(reset_sub.label(), "reset");
        assert_eq!(reset_sub.instructions().len(), 4);
        assert!(!reset_sub.saves_state_in_incipit());

        // Test there's a PHP/PLP sub with the correct number of instructions.
        let php_plp_sub = &subroutines[&0x800A];
        assert_eq!(php_plp_sub.instructions().len(), 5);
        assert!(php_plp_sub.saves_state_in_incipit());

        // Test that the state is preserved.
        let state_changes = php_plp_sub.state_changes();
        assert_eq!(state_changes.len(), 1);
        let state_change = state_changes.values().next().unwrap();
        assert_eq!(state_change.to_string(), "none");
    }

    // Test that renaming subroutine label works (even after analysis).
    analysis.rename_label("reset".to_string(), "new_reset".to_string(), None).ok();
    analysis.run();
    assert_eq!(analysis.label(0x8000, None).unwrap(), "new_reset".to_string());

    // Test that renaming local labels works.
    analysis.rename_label(".loc_008007".to_string(), ".loop".to_string(), Some(0x8000)).ok();
    analysis.run();
    assert_eq!(analysis.label(0x8007, Some(0x8000)).unwrap(), ".loop".to_string());
}

#[test]
fn test_simplified_state_changes() {
    let mut analysis = Analysis::new(setup_simplified_state_changes());
    analysis.run();

    // Test there are two subroutines (+ NMI).
    let subroutines = &analysis.subroutines;
    assert_eq!(subroutines.len() - 1, 2);

    // Test there's a `reset` sub with the correct number of instructions.
    let reset_sub = &subroutines[&0x8000];
    assert_eq!(reset_sub.label(), "reset");
    assert_eq!(reset_sub.instructions().len(), 5);

    // Test there's a `double_state_change` with the correct number of instructions.
    let double_state_sub = &subroutines[&0x800E];
    assert_eq!(double_state_sub.instructions().len(), 5);

    // Test that the state is simplified.
    let state_changes = double_state_sub.state_changes();
    assert_eq!(state_changes.len(), 2);
    assert!(!reset_sub.has_unknown_state_change());
}

#[test]
fn test_state_change() {
    let mut analysis = Analysis::new(setup_state_change());
    analysis.run();

    // Check there are two subroutines (+ NMI).
    let subroutines = &analysis.subroutines;
    assert_eq!(subroutines.len() - 1, 2);

    // Check the subroutines have the right name and number of instructions.
    let reset_sub = &subroutines[&0x8000];
    assert_eq!(reset_sub.label(), "reset");
    assert_eq!(reset_sub.instructions().len(), 5);
    let state_change_sub = &subroutines[&0x800E];
    assert_eq!(state_change_sub.label(), "sub_00800E");
    assert_eq!(state_change_sub.instructions().len(), 2);

    // Check the `state_change` subroutine sets M/X to 0.
    let state_change = state_change_sub.state_changes().values().next().unwrap();
    assert_eq!(state_change_sub.state_changes().len(), 1);
    assert_eq!(state_change.m().unwrap(), false);
    assert_eq!(state_change.x().unwrap(), false);

    // Check LDA and LDX have the right operand size.
    let instructions = &analysis.instructions;
    let lda = instructions[&0x8005][0];
    assert_eq!(lda.operation(), Op::LDA);
    assert_eq!(lda.argument().unwrap(), 0x1234);
    let ldx = instructions[&0x8008][0];
    assert_eq!(ldx.operation(), Op::LDX);
    assert_eq!(ldx.argument().unwrap(), 0x1234);
}

#[test]
fn test_unknown_call_jump() {
    let mut analysis = Analysis::new(setup_unknown_call_jump());
    analysis.run();

    {
        let subroutines = &analysis.subroutines;
        assert_eq!(subroutines.len(), 2);

        let reset_sub = &subroutines[&0x8000];
        assert_eq!(reset_sub.label(), "reset");
        assert_eq!(reset_sub.instructions().len(), 1);
        let nmi_sub = &subroutines[&0x8003];
        assert_eq!(nmi_sub.label(), "nmi");
        assert_eq!(nmi_sub.instructions().len(), 2);

        assert!(reset_sub.has_unknown_state_change());
        assert!(nmi_sub.has_unknown_state_change());
    }

    // Test adding a custom entry point.
    analysis.add_entry_point(0x9002, "loop".to_string(), State::from_mx(true, true)).unwrap();
    analysis.run();

    let subroutines = &analysis.subroutines;
    let loop_sub = &subroutines[&0x9002];
    assert_eq!(loop_sub.label(), "loop");
    assert_eq!(loop_sub.instructions().len(), 1);
}

#[test]
fn test_unknown_responsibility() {
    let mut analysis = Analysis::new(setup_unknown_responsibility());
    analysis.run();
    let subroutines = &analysis.subroutines;

    let reset_sub = &subroutines[&0x8000];
    assert!(reset_sub.has_unknown_state_change());
    assert!(!reset_sub.is_responsible_for_unknown());

    let unknown_sub = &subroutines[&0x8006];
    assert!(unknown_sub.has_unknown_state_change());
    assert!(unknown_sub.is_responsible_for_unknown());
}

#[test]
fn test_instructions() {
    let rom = setup_infinite_loop();
    let mut analysis = Analysis::new(rom);
    analysis.run();

    assert!(analysis.is_visited_pc(0x8000));
}
