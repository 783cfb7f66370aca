//! A small register-based virtual machine and the two-pass assembler that
//! turns mnemonic source text into its fixed-width instruction stream.

pub mod opcode;
pub mod assembler;
pub mod instruction;
pub mod vm;
pub mod repl;
