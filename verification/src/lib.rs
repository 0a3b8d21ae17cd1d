//! A CHIP-8 / SuperChip virtual machine core with verified instruction
//! semantics: memory, registers, call stack, timers and framebuffer, a
//! pure instruction decoder, one verified handler per opcode, and the
//! cadence decisions of the driving loop.

pub mod decode;
pub mod keys;
pub mod quirks;
pub mod rng;
pub mod sched;
pub mod semantics;
pub mod step;
pub mod vm;
