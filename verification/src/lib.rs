//! A small RISC-style instruction set, a virtual machine that runs it and an assembler for it.
pub mod isa;
pub mod shared;
pub mod vm;
pub mod assembler;
pub mod bytevm;
