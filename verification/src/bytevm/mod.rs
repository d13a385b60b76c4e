//! A byte-code machine: each byte of memory is an opcode; 0 halts, anything else is illegal.
pub mod cpu;
pub mod memory;
pub mod register;
pub mod vm;
