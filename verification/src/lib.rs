//! A 16-bit educational instruction set architecture: an assembler from
//! mnemonic source to packed machine words, and an emulator that fetches,
//! decodes and executes those words against a register file and memory.

pub mod alu;
pub mod assemble;
pub mod decode;
pub mod emulator;
pub mod encode;
pub mod flags;
pub mod image;
pub mod memory;
pub mod operands;
pub mod registers;
pub mod sections;
pub mod tokens;
