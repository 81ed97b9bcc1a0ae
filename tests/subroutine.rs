use gilgamesh::instruction::Instruction;
use gilgamesh::state::{State, StateChange, UnknownReason};
use gilgamesh::subroutine::Subroutine;

#[test]
fn test_add_state_change() {
    let mut subroutine = Subroutine::new(0x8000, "reset".to_string());

    subroutine.add_state_change(0x8000, StateChange::new_empty());
    assert!(!subroutine.has_unknown_state_change());

    subroutine.add_state_change(0x8000, StateChange::new_unknown(UnknownReason::Unknown));
    assert!(subroutine.has_unknown_state_change());
}

#[test]
fn combined_state_change_merges_or_refuses() {
    let mut sub = Subroutine::new(0x8000, "s".to_string());
    assert_eq!(sub.combined_state_change(), None);
    sub.add_state_change(0x8010, StateChange::new(Some(true), None));
    sub.add_state_change(0x8020, StateChange::new(None, Some(false)));
    assert_eq!(sub.combined_state_change(), Some(StateChange::new(Some(true), Some(false))));
    sub.add_state_change(0x8030, StateChange::new(Some(false), None));
    assert_eq!(sub.combined_state_change(), None);

    let mut mixed = Subroutine::new(0x9000, "t".to_string());
    mixed.add_state_change(0x9010, StateChange::new_empty());
    mixed.add_state_change(0x9020, StateChange::new_unknown(UnknownReason::IndirectJump));
    mixed.add_state_change(0x9030, StateChange::new_unknown(UnknownReason::StackManipulation));
    assert_eq!(mixed.combined_state_change(), None);
}

#[test]
fn responsibility_and_reasons() {
    let mut sub = Subroutine::new(0x8000, "s".to_string());
    assert!(!sub.is_responsible_for_unknown());
    sub.add_state_change(0x8010, StateChange::new_unknown(UnknownReason::IndirectJump));
    assert!(sub.is_responsible_for_unknown());
    assert!(sub.is_unknown_because_of(UnknownReason::IndirectJump));
    assert!(!sub.is_unknown_because_of(UnknownReason::Recursion));
    sub.add_state_change(0x8020, StateChange::new_unknown(UnknownReason::Unknown));
    assert!(!sub.is_responsible_for_unknown());
}

#[test]
fn simplified_state_changes_are_deduplicated() {
    let mut sub = Subroutine::new(0x8000, "s".to_string());
    sub.add_state_change(0x8010, StateChange::new(Some(true), Some(true)));
    sub.add_state_change(0x8020, StateChange::new(Some(true), None));
    let changes = sub.simplified_state_changes(State::from_mx(true, true));
    assert_eq!(changes, vec![StateChange::new_empty()]);
    let changes = sub.simplified_state_changes(State::from_mx(false, true));
    assert_eq!(changes.len(), 1);
    assert_eq!(changes[0], StateChange::new(Some(true), None));
}

#[test]
fn incipit_with_php() {
    let mut sub = Subroutine::new(0x8000, "s".to_string());
    sub.add_instruction(Instruction::new(0x8000, 0x8000, 0x30, 0x08, 0));
    sub.add_instruction(Instruction::new(0x8001, 0x8000, 0x30, 0xC2, 0x30));
    assert!(sub.saves_state_in_incipit());

    let mut other = Subroutine::new(0x9000, "t".to_string());
    other.add_instruction(Instruction::new(0x9000, 0x9000, 0x30, 0xC2, 0x30));
    other.add_instruction(Instruction::new(0x9002, 0x9000, 0x30, 0x08, 0));
    assert!(!other.saves_state_in_incipit());

    let mut traces = Subroutine::new(0xA000, "u".to_string());
    traces.add_stack_trace(vec![0x8000]);
    traces.add_stack_trace(vec![0x8000]);
    traces.add_stack_trace(vec![0x9000]);
    assert_eq!(traces.stack_traces().len(), 2);
}
