//! A CHIP-8 processor core: memory, registers, call stack, delay timer and
//! frame buffer, with an instruction decoder whose every effect is specified.

pub mod font;
pub mod processor;
pub mod laws;
