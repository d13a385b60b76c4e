//! Assembler directives.
use vstd::prelude::*;

use crate::assembler::helper::bytes_eq;
use crate::shared::{EnumCount, EnumVariants};

verus! {

/// The directives, in the order of their names in `EnumVariants::variants`.
#[derive(Debug, Clone, Copy, PartialEq, Eq, Structural)]
pub enum DirectiveType {
    /// Create symbol/add symbol to the symbol table as local symbol: `.set name, expression`
    SetSymbol,
    /// `.equ name, expression`: same as `SetSymbol`
    Equ,
    /// `.global name`: turn a local symbol into a global one
    Global,
    /// `.byte expression [, expression]*`: emit one or more 8-bit comma separated words
    Byte,
    /// `.half expression [, expression]*`: emit one or more 16-bit comma separated words
    Half,
    /// `.word expression [, expression]*`: emit one or more 32-bit comma separated words
    Word,
    /// `.string string`: emit a NUL terminated string
    String,
    /// `.asciz string`: emit a NUL terminated string (alias for `.string`)
    Asciz,
    /// `.ascii string`: emit a string without NUL character
    Ascii,
    /// `.align N`: advance the location counter to the next multiple of `2^N`
    Align,
    /// `.balign b,[pad_val=0]`: byte align
    Balign,
    /// `.p2align p2,[pad_val=0],max`: align to power of 2
    P2align,
    /// `.section name`: make the named section the active one
    Section,
    /// The `.text` section
    Text,
    /// The `.data` section
    Data,
    /// The `.rodata` section
    Rodata,
    /// The `.bss` section
    Bss,
    /// A section of a user defined name, after `.section`
    CustomSection,
    /// `symbol, size, align`: emit a common object to .bss (local)
    Comm,
    /// `symbol, size, align`: emit a common object to .bss (global)
    LComm,
    /// `.skip N`: advance the location counter by N units
    Skip,
}

/// The directive named `name` (its lower-case variant name), if any.
pub open spec fn spec_directive_of(name: Seq<u8>) -> Option<DirectiveType> {
    if name == seq![115u8, 101u8, 116u8] {
        Some(DirectiveType::SetSymbol)
    } else     if name == seq![101u8, 113u8, 117u8] {
        Some(DirectiveType::Equ)
    } else     if name == seq![103u8, 108u8, 111u8, 98u8, 97u8, 108u8] {
        Some(DirectiveType::Global)
    } else     if name == seq![98u8, 121u8, 116u8, 101u8] {
        Some(DirectiveType::Byte)
    } else     if name == seq![104u8, 97u8, 108u8, 102u8] {
        Some(DirectiveType::Half)
    } else     if name == seq![119u8, 111u8, 114u8, 100u8] {
        Some(DirectiveType::Word)
    } else     if name == seq![115u8, 116u8, 114u8, 105u8, 110u8, 103u8] {
        Some(DirectiveType::String)
    } else     if name == seq![97u8, 115u8, 99u8, 105u8, 122u8] {
        Some(DirectiveType::Asciz)
    } else     if name == seq![97u8, 115u8, 99u8, 105u8, 105u8] {
        Some(DirectiveType::Ascii)
    } else     if name == seq![97u8, 108u8, 105u8, 103u8, 110u8] {
        Some(DirectiveType::Align)
    } else     if name == seq![98u8, 97u8, 108u8, 105u8, 103u8, 110u8] {
        Some(DirectiveType::Balign)
    } else     if name == seq![112u8, 50u8, 97u8, 108u8, 105u8, 103u8, 110u8] {
        Some(DirectiveType::P2align)
    } else     if name == seq![115u8, 101u8, 99u8, 116u8, 105u8, 111u8, 110u8] {
        Some(DirectiveType::Section)
    } else     if name == seq![116u8, 101u8, 120u8, 116u8] {
        Some(DirectiveType::Text)
    } else     if name == seq![100u8, 97u8, 116u8, 97u8] {
        Some(DirectiveType::Data)
    } else     if name == seq![114u8, 111u8, 100u8, 97u8, 116u8, 97u8] {
        Some(DirectiveType::Rodata)
    } else     if name == seq![98u8, 115u8, 115u8] {
        Some(DirectiveType::Bss)
    } else     if name == seq![99u8, 117u8, 115u8, 116u8, 111u8, 109u8, 115u8, 101u8, 99u8, 116u8, 105u8, 111u8, 110u8] {
        Some(DirectiveType::CustomSection)
    } else     if name == seq![99u8, 111u8, 109u8, 109u8] {
        Some(DirectiveType::Comm)
    } else     if name == seq![108u8, 99u8, 111u8, 109u8, 109u8] {
        Some(DirectiveType::LComm)
    } else     if name == seq![115u8, 107u8, 105u8, 112u8] {
        Some(DirectiveType::Skip)
    } else {
        None
    }
}

impl DirectiveType {
    /// The lower-case name of the directive.
    pub open spec fn spec_name(self) -> Seq<u8> {
        match self {
            DirectiveType::SetSymbol => seq![115u8, 101u8, 116u8],
            DirectiveType::Equ => seq![101u8, 113u8, 117u8],
            DirectiveType::Global => seq![103u8, 108u8, 111u8, 98u8, 97u8, 108u8],
            DirectiveType::Byte => seq![98u8, 121u8, 116u8, 101u8],
            DirectiveType::Half => seq![104u8, 97u8, 108u8, 102u8],
            DirectiveType::Word => seq![119u8, 111u8, 114u8, 100u8],
            DirectiveType::String => seq![115u8, 116u8, 114u8, 105u8, 110u8, 103u8],
            DirectiveType::Asciz => seq![97u8, 115u8, 99u8, 105u8, 122u8],
            DirectiveType::Ascii => seq![97u8, 115u8, 99u8, 105u8, 105u8],
            DirectiveType::Align => seq![97u8, 108u8, 105u8, 103u8, 110u8],
            DirectiveType::Balign => seq![98u8, 97u8, 108u8, 105u8, 103u8, 110u8],
            DirectiveType::P2align => seq![112u8, 50u8, 97u8, 108u8, 105u8, 103u8, 110u8],
            DirectiveType::Section => seq![115u8, 101u8, 99u8, 116u8, 105u8, 111u8, 110u8],
            DirectiveType::Text => seq![116u8, 101u8, 120u8, 116u8],
            DirectiveType::Data => seq![100u8, 97u8, 116u8, 97u8],
            DirectiveType::Rodata => seq![114u8, 111u8, 100u8, 97u8, 116u8, 97u8],
            DirectiveType::Bss => seq![98u8, 115u8, 115u8],
            DirectiveType::CustomSection => seq![99u8, 117u8, 115u8, 116u8, 111u8, 109u8, 115u8, 101u8, 99u8, 116u8, 105u8, 111u8, 110u8],
            DirectiveType::Comm => seq![99u8, 111u8, 109u8, 109u8],
            DirectiveType::LComm => seq![108u8, 99u8, 111u8, 109u8, 109u8],
            DirectiveType::Skip => seq![115u8, 107u8, 105u8, 112u8],
        }
    }

    /// The directive named `name`, if any.
    pub fn from_name(name: &[u8]) -> (r: Option<DirectiveType>)
        ensures
            r == spec_directive_of(name@),
    {
        if bytes_eq(name, [115u8, 101u8, 116u8].as_slice()) {
            return Some(DirectiveType::SetSymbol);
        }
        if bytes_eq(name, [101u8, 113u8, 117u8].as_slice()) {
            return Some(DirectiveType::Equ);
        }
        if bytes_eq(name, [103u8, 108u8, 111u8, 98u8, 97u8, 108u8].as_slice()) {
            return Some(DirectiveType::Global);
        }
        if bytes_eq(name, [98u8, 121u8, 116u8, 101u8].as_slice()) {
            return Some(DirectiveType::Byte);
        }
        if bytes_eq(name, [104u8, 97u8, 108u8, 102u8].as_slice()) {
            return Some(DirectiveType::Half);
        }
        if bytes_eq(name, [119u8, 111u8, 114u8, 100u8].as_slice()) {
            return Some(DirectiveType::Word);
        }
        if bytes_eq(name, [115u8, 116u8, 114u8, 105u8, 110u8, 103u8].as_slice()) {
            return Some(DirectiveType::String);
        }
        if bytes_eq(name, [97u8, 115u8, 99u8, 105u8, 122u8].as_slice()) {
            return Some(DirectiveType::Asciz);
        }
        if bytes_eq(name, [97u8, 115u8, 99u8, 105u8, 105u8].as_slice()) {
            return Some(DirectiveType::Ascii);
        }
        if bytes_eq(name, [97u8, 108u8, 105u8, 103u8, 110u8].as_slice()) {
            return Some(DirectiveType::Align);
        }
        if bytes_eq(name, [98u8, 97u8, 108u8, 105u8, 103u8, 110u8].as_slice()) {
            return Some(DirectiveType::Balign);
        }
        if bytes_eq(name, [112u8, 50u8, 97u8, 108u8, 105u8, 103u8, 110u8].as_slice()) {
            return Some(DirectiveType::P2align);
        }
        if bytes_eq(name, [115u8, 101u8, 99u8, 116u8, 105u8, 111u8, 110u8].as_slice()) {
            return Some(DirectiveType::Section);
        }
        if bytes_eq(name, [116u8, 101u8, 120u8, 116u8].as_slice()) {
            return Some(DirectiveType::Text);
        }
        if bytes_eq(name, [100u8, 97u8, 116u8, 97u8].as_slice()) {
            return Some(DirectiveType::Data);
        }
        if bytes_eq(name, [114u8, 111u8, 100u8, 97u8, 116u8, 97u8].as_slice()) {
            return Some(DirectiveType::Rodata);
        }
        if bytes_eq(name, [98u8, 115u8, 115u8].as_slice()) {
            return Some(DirectiveType::Bss);
        }
        if bytes_eq(name, [99u8, 117u8, 115u8, 116u8, 111u8, 109u8, 115u8, 101u8, 99u8, 116u8, 105u8, 111u8, 110u8].as_slice()) {
            return Some(DirectiveType::CustomSection);
        }
        if bytes_eq(name, [99u8, 111u8, 109u8, 109u8].as_slice()) {
            return Some(DirectiveType::Comm);
        }
        if bytes_eq(name, [108u8, 99u8, 111u8, 109u8, 109u8].as_slice()) {
            return Some(DirectiveType::LComm);
        }
        if bytes_eq(name, [115u8, 107u8, 105u8, 112u8].as_slice()) {
            return Some(DirectiveType::Skip);
        }
        None
    }
}

/// The name of every directive is read back as that directive.
pub proof fn lemma_directive_name(d: DirectiveType)
    ensures
        spec_directive_of(d.spec_name()) == Some(d),
{
    let n = d.spec_name();
    assert(n =~= d.spec_name());
}

impl EnumCount for DirectiveType {
    const VARIANT_COUNT: usize = 21;
}

impl EnumVariants<21> for DirectiveType {
    fn variants() -> (r: [&'static str; 21])
        ensures
            r@ == seq!["set", "equ", "global", "byte", "half", "word", "string", "asciz", "ascii", "align", "balign", "p2align", "section", "text", "data", "rodata", "bss", "customsection", "comm", "lcomm", "skip"],
    {
        ["set", "equ", "global", "byte", "half", "word", "string", "asciz", "ascii", "align", "balign", "p2align", "section", "text", "data", "rodata", "bss", "customsection", "comm", "lcomm", "skip"]
    }
}

} // verus!
