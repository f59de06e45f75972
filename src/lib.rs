//! `rusty_chip`: a CHIP-8 virtual machine whose decoder and execution engine
//! are verified against mathematical models of the machine.

pub mod quirks;
pub mod opcodes;
pub mod machine;
pub mod interpreter;
pub mod laws;
