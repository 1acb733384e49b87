//! An emulator for the 32-bit base integer RISC-V instruction set, with a
//! one-pass assembler that feeds it.

pub mod math_utils;
pub mod immediates;
pub mod register;
pub mod instruction;
pub mod lexer;
pub mod assembly_compiler;
pub mod processor;
