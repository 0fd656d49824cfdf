//! A CHIP-8 interpreter core: instruction decoding, the machine state and
//! one fetch-decode-execute cycle at a time, with contracts over a
//! mathematical model of the machine.

pub mod instr;
pub mod chip8;
pub mod semantics;
pub mod laws;
