//! A register-based bytecode virtual machine.
//!
//! The machine owns a file of 32 signed 32-bit registers, a byte program, a
//! program counter, a remainder register and an equality flag. Instructions
//! are decoded one at a time from the byte stream; the whole decode-execute
//! step is specified by a mathematical transition function and the executable
//! interpreter is proved to implement it exactly.

pub mod instruction;
pub mod laws;
pub mod repl;
pub mod vm;
