//! Static analysis of 65c816 (SNES) machine code: recovery of subroutines,
//! of the processor's M/X state at every reachable instruction, and of the
//! state changes that subroutines cause.
//!
//! The ROM image (`rom`) is decoded through the opcode table (`opcodes`) into
//! instructions (`instruction`). A symbolic CPU (`cpu`) walks the code from
//! every entry point, tracking the M/X state (`state`), a shadow of the
//! accumulator (`register`) and an abstract stack (`stack`), and records what
//! it finds in the analysis registry (`analysis`), which owns the subroutine
//! records (`subroutine`) and the user's assertions.

pub mod analysis;
pub mod command;
pub mod cpu;
pub mod error;
pub mod instruction;
pub mod labels;
pub mod maps;
pub mod opcodes;
pub mod register;
pub mod rom;
pub mod stack;
pub mod state;
pub mod subroutine;
pub mod text;
