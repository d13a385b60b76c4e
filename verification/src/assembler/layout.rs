//! The layout of the sections, made from the intermediate representation.
use vstd::prelude::*;

use crate::assembler::ir::IR;

verus! {

/// The placement of the program's items in its sections.
pub struct Layout;

impl Layout {
    /// The layout of `ir`.
    pub fn new(ir: IR) -> (r: Layout) {
        Layout
    }
}

} // verus!
