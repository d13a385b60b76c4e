//! The virtual machine: registers, program counter, memory and the execution of instructions.
pub mod memory;
pub mod cpu;
pub mod vm;
pub mod instruction;
pub mod register;
