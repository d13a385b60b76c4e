//! Assembler directives, sections and symbols.
pub mod directive;
pub mod section;
pub mod symbol;
