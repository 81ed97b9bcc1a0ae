use std::collections::BTreeMap;
use vstd::prelude::*;

use crate::instruction::Instruction;
use crate::state::{State, StateChange};

verus! {

broadcast use vstd::std_specs::btree::group_btree_axioms;

/// Optional payload (value pushed onto the stack).
#[derive(Copy, Clone, Debug, PartialEq, Eq, Structural)]
pub enum Data {
    Empty,
    Value(usize),
    State(State, StateChange),
}

/// Stack entry: the instruction that pushed it, and what it pushed.
#[derive(Copy, Clone, Debug)]
pub struct Entry {
    pub instruction: Option<Instruction>,
    pub data: Data,
}

impl Entry {
    /// Instantiate a stack entry.
    pub fn new(instruction: Option<Instruction>, data: Data) -> (r: Self)
        ensures
            r.instruction == instruction,
            r.data == data,
    {
        Self { instruction, data }
    }
}

/// The address below `p` on a 16-bit stack.
pub open spec fn below(p: u16) -> u16 {
    if p == 0 {
        0xFFFF
    } else {
        (p - 1) as u16
    }
}

/// The address above `p` on a 16-bit stack.
pub open spec fn above(p: u16) -> u16 {
    if p == 0xFFFF {
        0
    } else {
        (p + 1) as u16
    }
}

/// The address `k` slots below `p`.
pub open spec fn slots_below(p: u16, k: nat) -> u16 {
    ((p as int - k as int) % 0x10000) as u16
}

/// The address `k` slots above `p`.
pub open spec fn slots_above(p: u16, k: nat) -> u16 {
    ((p as int + k as int) % 0x10000) as u16
}

/// The `i`-th byte of a pushed value (byte 0 is the least significant); any
/// other payload is pushed whole into every slot.
pub open spec fn byte_of(data: Data, i: nat) -> Data {
    match data {
        Data::Value(b) => Data::Value(((b as nat / pow256(i)) % 256) as usize),
        _ => data,
    }
}

/// 256 to the power `i`.
pub open spec fn pow256(i: nat) -> nat
    decreases i,
{
    if i == 0 {
        1
    } else {
        256 * pow256((i - 1) as nat)
    }
}

/// SNES stack.
#[derive(Clone, Debug)]
pub struct Stack {
    pub memory: BTreeMap<u16, Entry>,
    pub pointer: u16,
    pub last_pointer_changer: Option<Instruction>,
}

impl Stack {
    /// What a pop at address `a` reads: the entry stored there, or a sentinel
    /// naming the last instruction that set the stack pointer.
    pub open spec fn read_spec(self, a: u16) -> Entry {
        if self.memory@.contains_key(a) {
            self.memory@[a]
        } else {
            Entry { instruction: self.last_pointer_changer, data: Data::Empty }
        }
    }

    /// Instantiate a new, empty stack.
    pub fn new() -> (r: Self)
        ensures
            r.memory@ == Map::<u16, Entry>::empty(),
            r.pointer == 0x100,
            r.last_pointer_changer is None,
    {
        Self { memory: BTreeMap::new(), pointer: 0x100, last_pointer_changer: None }
    }

    /// Return the stack pointer.
    pub fn pointer(&self) -> (r: u16)
        ensures
            r == self.pointer,
    {
        self.pointer
    }

    /// Set a new stack pointer.
    pub fn set_pointer(&mut self, instruction: Instruction, pointer: u16)
        ensures
            final(self).pointer == pointer,
            final(self).last_pointer_changer == Some(instruction),
            final(self).memory@ == old(self).memory@,
    {
        self.last_pointer_changer = Some(instruction);
        self.pointer = pointer;
    }

    /// Push a value of `size` bytes onto the stack, most significant byte first.
    pub fn push(&mut self, instruction: Instruction, data: Data, size: usize)
        requires
            size <= 4,
        ensures
            final(self).pointer == slots_below(old(self).pointer, size as nat),
            final(self).last_pointer_changer == old(self).last_pointer_changer,
            forall|k: nat|
                k < size ==> #[trigger] final(self).memory@[slots_below(old(self).pointer, k)]
                    == (Entry {
                    instruction: Some(instruction),
                    data: byte_of(data, (size - 1 - k) as nat),
                }) && final(self).memory@.contains_key(slots_below(old(self).pointer, k)),
            forall|a: u16|
                (forall|k: nat| k < size ==> a != #[trigger] slots_below(old(self).pointer, k))
                    ==> final(self).read_spec(a) == old(self).read_spec(a),
    {
        let mut i: usize = size;
        while i > 0
            invariant
                size <= 4,
                i <= size,
                self.pointer == slots_below(old(self).pointer, (size - i) as nat),
                self.last_pointer_changer == old(self).last_pointer_changer,
                forall|k: nat|
                    k < size - i ==> #[trigger] self.memory@[slots_below(old(self).pointer, k)]
                        == (Entry {
                        instruction: Some(instruction),
                        data: byte_of(data, (size - 1 - k) as nat),
                    }) && self.memory@.contains_key(slots_below(old(self).pointer, k)),
                forall|a: u16|
                    (forall|k: nat| k < size - i ==> a != #[trigger] slots_below(old(self).pointer, k))
                        ==> self.read_spec(a) == old(self).read_spec(a),
            decreases i,
        {
            i -= 1;
            let piece = match data {
                Data::Value(b) => {
                    let shifted = b >> (i * 8);
                    proof {
                        lemma_shift_is_division(b, i);
                    }
                    Data::Value(shifted & 0xFF)
                },
                _ => data,
            };
            assert(piece == byte_of(data, i as nat)) by {
                if let Data::Value(b) = data {
                    let s = b >> (i * 8) as usize;
                    assert(s & 0xFF == s % 256) by (bit_vector);
                }
            }
            let ghost prev = self.pointer;
            let ghost done = (size - 1 - i) as nat;
            assert(prev == slots_below(old(self).pointer, done));
            self.memory.insert(self.pointer, Entry::new(Some(instruction), piece));
            self.pointer = if self.pointer == 0 {
                0xFFFF
            } else {
                self.pointer - 1
            };
            proof {
                lemma_slots_below_distinct(old(self).pointer, done);
                assert(self.pointer == slots_below(old(self).pointer, done + 1));
                assert forall|k: nat| k < size - i implies #[trigger] self.memory@[slots_below(
                    old(self).pointer,
                    k,
                )] == (Entry {
                    instruction: Some(instruction),
                    data: byte_of(data, (size - 1 - k) as nat),
                }) && self.memory@.contains_key(slots_below(old(self).pointer, k)) by {
                    if k < done {
                        assert(slots_below(old(self).pointer, k) != prev);
                    }
                }
                assert forall|a: u16|
                    (forall|k: nat| k < size - i ==> a != #[trigger] slots_below(
                        old(self).pointer,
                        k,
                    )) implies self.read_spec(a) == old(self).read_spec(a) by {
                    assert(a != slots_below(old(self).pointer, done));
                    assert forall|k: nat| k < size - i - 1 implies a != #[trigger] slots_below(
                        old(self).pointer,
                        k,
                    ) by {}
                }
            }
        }
    }

    /// Push one value onto the stack.
    pub fn push_one(&mut self, instruction: Instruction, data: Data)
        ensures
            final(self).pointer == below(old(self).pointer),
            final(self).last_pointer_changer == old(self).last_pointer_changer,
            final(self).memory@ == old(self).memory@.insert(
                old(self).pointer,
                Entry { instruction: Some(instruction), data },
            ),
    {
        self.memory.insert(self.pointer, Entry::new(Some(instruction), data));
        self.pointer = if self.pointer == 0 {
            0xFFFF
        } else {
            self.pointer - 1
        };
    }

    /// Pop `size` values from the stack, the first popped first.
    pub fn pop(&mut self, size: usize) -> (r: Vec<Entry>)
        ensures
            r@.len() == size,
            forall|k: int|
                0 <= k < size ==> #[trigger] r@[k] == old(self).read_spec(
                    slots_above(old(self).pointer, (k + 1) as nat),
                ),
            final(self).pointer == slots_above(old(self).pointer, size as nat),
            final(self).memory@ == old(self).memory@,
            final(self).last_pointer_changer == old(self).last_pointer_changer,
    {
        let mut v: Vec<Entry> = Vec::new();
        let mut i: usize = 0;
        while i < size
            invariant
                i <= size,
                v@.len() == i,
                self.memory@ == old(self).memory@,
                self.last_pointer_changer == old(self).last_pointer_changer,
                self.pointer == slots_above(old(self).pointer, i as nat),
                forall|k: int|
                    0 <= k < i ==> #[trigger] v@[k] == old(self).read_spec(
                        slots_above(old(self).pointer, (k + 1) as nat),
                    ),
            decreases size - i,
        {
            let ghost p = self.pointer;
            let e = self.pop_one();
            assert(above(p) == slots_above(old(self).pointer, (i + 1) as nat));
            v.push(e);
            i += 1;
        }
        v
    }

    /// Pop one value from the stack.
    pub fn pop_one(&mut self) -> (r: Entry)
        ensures
            final(self).pointer == above(old(self).pointer),
            r == old(self).read_spec(above(old(self).pointer)),
            final(self).memory@ == old(self).memory@,
            final(self).last_pointer_changer == old(self).last_pointer_changer,
    {
        self.pointer = if self.pointer == 0xFFFF {
            0
        } else {
            self.pointer + 1
        };
        match self.memory.get(&self.pointer) {
            Some(entry) => *entry,
            None => Entry::new(self.last_pointer_changer, Data::Empty),
        }
    }
}

/// Shifting right by whole bytes divides by a power of 256.
proof fn lemma_shift_is_division(b: usize, i: usize)
    requires
        i < 4,
    ensures
        (b >> (i * 8) as usize) as nat == b as nat / pow256(i as nat),
{
    reveal_with_fuel(pow256, 4);
    assert(pow256(0) == 1);
    assert(pow256(1) == 0x100);
    assert(pow256(2) == 0x10000);
    assert(pow256(3) == 0x1000000);
    if i == 0 {
        assert(b >> 0usize == b) by (bit_vector);
    } else if i == 1 {
        assert(b >> 8usize == b / 0x100) by (bit_vector);
    } else if i == 2 {
        assert(b >> 16usize == b / 0x10000) by (bit_vector);
    } else {
        assert(b >> 24usize == b / 0x1000000) by (bit_vector);
    }
}

/// The slots below a pointer are distinct, up to the size of the stack.
proof fn lemma_slots_below_distinct(p: u16, n: nat)
    requires
        n < 4,
    ensures
        forall|k: nat| k < n ==> #[trigger] slots_below(p, k) != slots_below(p, n),
        slots_below(p, n + 1) == below(slots_below(p, n)),
{
}

} // verus!
