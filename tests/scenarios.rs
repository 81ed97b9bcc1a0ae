use gilgamesh::analysis::{Analysis, Assertion, IndirectJump, Reference};
use gilgamesh::error::Error;
use gilgamesh::instruction::Instruction;
use gilgamesh::rom::ROM;
use gilgamesh::state::{StateChange, UnknownReason};

/// A 32 KiB LoROM image with the given code, the reset vector at $8000 and
/// no NMI handler.
fn image(code: &[(usize, &[u8])]) -> ROM {
    let mut data = vec![0u8; 0x8000];
    for (address, bytes) in code {
        let offset = address & 0x7FFF;
        data[offset..offset + bytes.len()].copy_from_slice(bytes);
    }
    data[0x7FFC] = 0x00;
    data[0x7FFD] = 0x80;
    ROM::from(String::new(), data)
}

#[test]
fn scenario_infinite_loop() {
    let mut analysis = Analysis::new(image(&[(0x8000, &[0x4C, 0x00, 0x80])]));
    analysis.run();
    let reset = &analysis.subroutines[&0x8000];
    assert_eq!(reset.label(), "reset");
    assert_eq!(reset.instructions().len(), 1);
    assert!(!reset.has_unknown_state_change());
    assert_eq!(analysis.references[&0x8000], vec![Reference { target: 0x8000, subroutine: 0x8000 }]);
}

#[test]
fn scenario_state_change_sub() {
    // REP #$20; REP #$10; JSR $800E; JMP $8007 -- SEP #$20; SEP #$10; RTS
    let mut analysis = Analysis::new(image(&[
        (0x8000, &[0xC2, 0x20, 0xC2, 0x10, 0x20, 0x0E, 0x80, 0x4C, 0x07, 0x80]),
        (0x800E, &[0xE2, 0x20, 0xE2, 0x10, 0x60]),
    ]));
    analysis.run();
    let sub = &analysis.subroutines[&0x800E];
    assert_eq!(sub.label(), "sub_00800E");
    assert_eq!(sub.state_changes().len(), 1);
    assert_eq!(sub.state_changes().values().next().unwrap().to_string(), "m=1,x=1");
    assert!(!analysis.subroutines[&0x8000].has_unknown_state_change());
    // The caller goes on in the state that the subroutine returns with.
    assert_eq!(analysis.instructions[&0x8007][0].state().p(), 0x30);
}

#[test]
fn scenario_php_plp_guarded_sub() {
    // SEP #$30; JSR $800A; JMP $8005 -- PHP; REP #$30; PLP; RTS
    let mut analysis = Analysis::new(image(&[
        (0x8000, &[0xE2, 0x30, 0x20, 0x0A, 0x80, 0x4C, 0x05, 0x80]),
        (0x800A, &[0x08, 0xC2, 0x30, 0x28, 0x60]),
    ]));
    analysis.run();
    let sub = &analysis.subroutines[&0x800A];
    assert!(sub.saves_state_in_incipit());
    assert_eq!(sub.state_changes().values().next().unwrap().to_string(), "none");
}

#[test]
fn scenario_indirect_jump() {
    // JMP ($1234), with a word table at $8003.
    let mut analysis = Analysis::new(image(&[
        (0x8000, &[0x6C, 0x34, 0x12, 0x00, 0x81, 0x00, 0x82]),
        (0x8100, &[0x4C, 0x00, 0x81]),
        (0x8200, &[0x4C, 0x00, 0x82]),
    ]));
    analysis.run();
    assert_eq!(analysis.indirect_jumps[&0x8000], IndirectJump::Jump);
    assert!(analysis.subroutines[&0x8000].is_unknown_because_of(UnknownReason::IndirectJump));
    assert!(analysis.subroutines[&0x8000].contains_indirect_jumps());

    analysis.add_jump_assertion(0x8000, Some(0x8100), None);
    analysis.add_jump_assertion(0x8000, Some(0x8200), None);
    analysis.run();
    assert!(analysis.is_subroutine(0x8100));
    assert!(analysis.is_subroutine(0x8200));
    assert!(analysis.subroutines[&0x8000].contains_assertions());
    assert_eq!(analysis.jump_table_targets[&0x8100], 1);

    analysis.del_jump_assertion(0x8000, Some(0x8100));
    assert!(!analysis.is_jump_table_target(0x8100));
    assert!(analysis.is_jump_table_target(0x8200));
}

#[test]
fn scenario_elidable_state_change() {
    // REP #$20; JSR $8008; JMP $8005 -- LDA #$1234; REP #$20; RTS
    let mut analysis = Analysis::new(image(&[
        (0x8000, &[0xC2, 0x20, 0x20, 0x08, 0x80, 0x4C, 0x05, 0x80]),
        (0x8008, &[0xA9, 0x34, 0x12, 0xC2, 0x20, 0x60]),
    ]));
    analysis.run();
    let sub = &analysis.subroutines[&0x8008];
    assert_eq!(sub.state_changes().len(), 1);
    assert_eq!(sub.state_changes().values().next().unwrap().to_string(), "none");
}

#[test]
fn scenario_stack_manipulation() {
    // SEP #$30; JSR $800A; JMP $8005 -- PLA; PLA; RTS
    let mut analysis = Analysis::new(image(&[
        (0x8000, &[0xE2, 0x30, 0x20, 0x0A, 0x80, 0x4C, 0x05, 0x80]),
        (0x800A, &[0x68, 0x68, 0x60]),
    ]));
    analysis.run();
    {
        let sub = &analysis.subroutines[&0x800A];
        assert!(sub.is_unknown_because_of(UnknownReason::StackManipulation));
        assert!(sub.is_responsible_for_unknown());
        let rts = sub.instructions()[&0x800C];
        let suggested = analysis.suggest_assertions(rts, sub);
        assert_eq!(suggested.len(), 1);
        match suggested[0] {
            Assertion::Subroutine(c) => assert_eq!(c, StateChange::new_empty()),
            Assertion::Instruction(_) => panic!("expected a subroutine assertion"),
        }
    }
    assert!(analysis.auto_run());
    assert!(!analysis.subroutines[&0x800A].has_unknown_state_change());
    assert!(analysis.subroutine_assertion(0x800A, 0x800C).is_some());
    assert!(analysis.is_visited_pc(0x8005));
}

#[test]
fn jump_table_counts_distinct_callers() {
    let mut analysis = Analysis::new(image(&[(0x8000, &[0x4C, 0x00, 0x80])]));
    analysis.add_jump_assertion(0x8000, Some(0x9000), Some(0));
    analysis.add_jump_assertion(0x8000, Some(0x9000), Some(2));
    analysis.add_jump_assertion(0x8000, Some(0x9000), Some(2));
    assert_eq!(analysis.jump_table_targets[&0x9000], 1);
    analysis.add_jump_assertion(0x8100, Some(0x9000), None);
    assert_eq!(analysis.jump_table_targets[&0x9000], 2);
    analysis.del_jump_assertion(0x8000, None);
    assert_eq!(analysis.jump_table_targets[&0x9000], 1);
    analysis.del_jump_assertion(0x8100, Some(0x9000));
    assert!(!analysis.is_jump_table_target(0x9000));
    assert!(analysis.jump_assertions.is_empty());
}

#[test]
fn rename_errors() {
    let mut analysis = Analysis::new(image(&[(0x8000, &[0x4C, 0x00, 0x80])]));
    analysis.run();
    assert_eq!(
        analysis.rename_label("reset".to_string(), ".x".to_string(), None),
        Err(Error::InvalidLabelType)
    );
    assert_eq!(
        analysis.rename_label("nothing".to_string(), "x".to_string(), None),
        Err(Error::UnknownLabel("nothing".to_string()))
    );
    assert_eq!(
        analysis.rename_label("reset".to_string(), "9lives".to_string(), None),
        Err(Error::InvalidLabel("9lives".to_string()))
    );
    assert_eq!(
        analysis.rename_label("reset".to_string(), "sub_1234".to_string(), None),
        Err(Error::ReservedLabel("sub_1234".to_string()))
    );
    assert_eq!(
        analysis.rename_label("reset".to_string(), "reset".to_string(), None),
        Err(Error::LabelAlreadyUsed("reset".to_string()))
    );
    assert_eq!(
        analysis.rename_label(".loc".to_string(), ".x".to_string(), None),
        Err(Error::NoSelectedSubroutine)
    );
    assert_eq!(analysis.rename_label("reset".to_string(), "start".to_string(), None), Ok(()));
    assert_eq!(analysis.label_value("start".to_string()), Some(0x8000));
    assert_eq!(analysis.label_value("reset".to_string()), None);
}

#[test]
fn entry_point_already_analyzed() {
    let mut analysis = Analysis::new(image(&[(0x8000, &[0x4C, 0x00, 0x80])]));
    analysis.run();
    let state = gilgamesh::state::State::from_mx(true, true);
    assert_eq!(analysis.add_entry_point(0x8000, "again".to_string(), state), Err(Error::AlreadyAnalyzed));
}

#[test]
fn instruction_assertion_resolves_unknown_call() {
    // SEP #$30; JSR ($1234,x); JMP $8005
    let mut analysis = Analysis::new(image(&[(0x8000, &[0xE2, 0x30, 0xFC, 0x34, 0x12, 0x4C, 0x05, 0x80])]));
    analysis.run();
    assert!(analysis.subroutines[&0x8000].is_unknown_because_of(UnknownReason::IndirectJump));
    analysis.add_instruction_assertion(0x8002, StateChange::new_empty());
    analysis.run();
    assert!(!analysis.subroutines[&0x8000].has_unknown_state_change());
    assert!(analysis.is_visited_pc(0x8005));
    assert!(analysis.subroutines[&0x8000].contains_assertions());
    assert_eq!(analysis.find_instruction(0x8006), Some(0x8005));
    assert_eq!(analysis.instruction_subroutines(0x8005), vec![0x8000]);
}

#[test]
fn suggestions_come_by_priority() {
    let mut analysis = Analysis::new(image(&[(0x8000, &[0x4C, 0x00, 0x80])]));
    analysis.add_subroutine(0x8000, None, Vec::new());
    let jmp = Instruction::new(0x8010, 0x8000, 0x30, 0x4C, 0x8010);
    let call = Instruction::new(0x8020, 0x8000, 0x30, 0xFC, 0x1234);
    analysis.add_instruction(jmp);
    analysis.add_instruction(call);
    analysis.add_state_change(0x8000, 0x8010, StateChange::new_unknown(UnknownReason::Recursion));
    analysis.add_state_change(0x8000, 0x8020, StateChange::new_unknown(UnknownReason::IndirectJump));
    let suggestions = analysis.collect_suggestions(0x8000);
    assert_eq!(suggestions.len(), 2);
    assert_eq!(suggestions[0].0, 0x8020);
    match suggestions[0].1 {
        Assertion::Instruction(c) => assert_eq!(c, StateChange::new_empty()),
        Assertion::Subroutine(_) => panic!("expected an instruction assertion"),
    }
    assert_eq!(suggestions[1].0, 0x8010);
}

#[test]
fn last_byte_of_image_is_decoded() {
    // JMP $FFFF, and a NOP in the last byte of the image.
    let mut analysis = Analysis::new(image(&[(0x8000, &[0x4C, 0xFF, 0xFF]), (0xFFFF, &[0xEA])]));
    analysis.run();
    assert!(analysis.is_visited_pc(0xFFFF));
    assert_eq!(analysis.subroutines[&0x8000].instructions().len(), 2);
}
