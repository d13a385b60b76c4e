//! Kinds of symbols and labels.
use vstd::prelude::*;

verus! {

/// What a symbol stands for.
#[derive(Debug, Clone, Copy, PartialEq, Eq, Structural)]
pub enum SymbolType {
    /// An address, which may change when the program is relocated
    Label,
    /// An absolute value
    Constant,
}

impl SymbolType {
    /// A label.
    pub fn default() -> (r: SymbolType)
        ensures
            r == SymbolType::Label,
    {
        SymbolType::Label
    }
}

/// How a label is written.
#[derive(Debug, Clone, Copy, PartialEq, Eq, Structural)]
pub enum LabelType {
    /// A name followed by a colon, kept in the symbol table: `get_age:`
    Symbolic,
    /// A single decimal digit followed by a colon, which may be defined again: `1:`
    Numeric,
}

impl LabelType {
    /// A symbolic label.
    pub fn default() -> (r: LabelType)
        ensures
            r == LabelType::Symbolic,
    {
        LabelType::Symbolic
    }
}

} // verus!
