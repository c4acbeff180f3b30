//! A verified interpreter core for the CHIP-8 virtual machine: memory and
//! call stack, register file, keypad latch, frame buffer, instruction
//! decoder and executor, and the per-cycle timer schedule.

pub mod cpu;
pub mod display;
pub mod emulator;
pub mod error;
pub mod input;
pub mod instruction;
pub mod memory;
