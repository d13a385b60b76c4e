//! The instruction set: registers, immediates and the encoding of instructions into words.
pub mod instruction;
pub mod operand;
pub mod register;

pub use instruction::Instruction;

pub use register::Register;
