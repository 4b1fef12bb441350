pub mod chip8;
pub mod laws;
pub mod model;

use vstd::prelude::*;
use crate::chip8::CPU;
use crate::model::{CpuState, initial_state};

verus! {

/// Program counter of the machine that `build_processor` makes.
pub const START_PC: usize = 0xF00;

/// The address of the instruction after the one at `START_PC`.
pub const NEXT_PC: usize = START_PC + 2;

/// The address two instructions after `START_PC`.
pub const SKIPPED_PC: usize = START_PC + (2 * 2);

/// A fresh machine with the program counter at `START_PC` and registers
/// `v0..vF` holding `0, 0, 1, 1, ..., 7, 7`.
pub fn build_processor() -> (p: CPU)
    ensures
        p@ =~~= (CpuState {
            pc: START_PC,
            v: seq![0u8, 0, 1, 1, 2, 2, 3, 3, 4, 4, 5, 5, 6, 6, 7, 7],
            ..initial_state()
        }),
{
    let mut processor = CPU::init();
    processor.pc = START_PC;
    processor.v = [0, 0, 1, 1, 2, 2, 3, 3, 4, 4, 5, 5, 6, 6, 7, 7];
    processor
}

} // verus!
