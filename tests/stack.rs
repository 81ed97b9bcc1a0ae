use gilgamesh::instruction::Instruction;
use gilgamesh::stack::{Data, Stack};

fn setup_stack() -> Stack {
    let mut stack = Stack::new();
    let tcs = Instruction::new(0x8000, 0x8000, 0b0011_0000, 0x1B, 0x00);
    stack.set_pointer(tcs, 0x100);
    stack
}

#[test]
fn test_push_pop_one() {
    let mut stack = setup_stack();

    let pha = Instruction::new(0x8001, 0x8000, 0b0011_0000, 0x48, 0x00);
    stack.push_one(pha, Data::Value(0xFF));
    assert_eq!(stack.pop_one().data, Data::Value(0xFF));
}

#[test]
fn test_push_pop() {
    let mut stack = setup_stack();

    let pha = Instruction::new(0x8001, 0x8000, 0b0000_0000, 0x48, 0x00);
    stack.push(pha, Data::Value(0x1234), 2);

    let values: Vec<_> = stack.pop(2).iter().map(|e| e.data).collect();
    assert_eq!(values, vec![Data::Value(0x34), Data::Value(0x12)]);
}

#[test]
fn pop_below_watermark_names_pointer_changer() {
    let mut stack = setup_stack();
    let entry = stack.pop_one();
    assert_eq!(entry.data, Data::Empty);
    assert_eq!(entry.instruction.unwrap().pc(), 0x8000);
    assert_eq!(stack.pointer(), 0x101);
}
