//! Sections: the parts of the output that the source fills, as ELF section headers describe them.
use vstd::prelude::*;

use crate::assembler::assembly::directive::DirectiveType;
use crate::assembler::interner::StrId;

verus! {

/// The kinds of section.
#[derive(Debug, Clone, Copy, PartialEq, Eq, Hash, Structural)]
pub enum SectionType {
    Text,
    Data,
    Rodata,
    Bss,
    CustomSection,
}

/// The section that a section directive makes active: `.data`, `.rodata`, `.bss` and a custom
/// section name their own kind, every other directive the text section.
pub open spec fn spec_section_type_of(d: DirectiveType) -> SectionType {
    match d {
        DirectiveType::Data => SectionType::Data,
        DirectiveType::Rodata => SectionType::Rodata,
        DirectiveType::Bss => SectionType::Bss,
        DirectiveType::CustomSection => SectionType::CustomSection,
        _ => SectionType::Text,
    }
}

impl SectionType {
    /// The text section.
    pub fn default() -> (r: SectionType)
        ensures
            r == SectionType::Text,
    {
        SectionType::Text
    }

    /// Number of kinds of section.
    pub fn count() -> (r: usize)
        ensures
            r == 5,
    {
        5
    }

    /// The kind of section that the directive `value` stands for.
    pub fn from_directive(value: DirectiveType) -> (r: SectionType)
        ensures
            r == spec_section_type_of(value),
    {
        match value {
            DirectiveType::Data => SectionType::Data,
            DirectiveType::Rodata => SectionType::Rodata,
            DirectiveType::Bss => SectionType::Bss,
            DirectiveType::CustomSection => SectionType::CustomSection,
            _ => SectionType::Text,
        }
    }

    /// The number of the kind, in declaration order.
    pub open spec fn spec_index(self) -> u8 {
        match self {
            SectionType::Text => 0,
            SectionType::Data => 1,
            SectionType::Rodata => 2,
            SectionType::Bss => 3,
            SectionType::CustomSection => 4,
        }
    }

    /// The number of the kind, in declaration order.
    pub fn index(&self) -> (r: u8)
        ensures
            r == self.spec_index(),
    {
        match *self {
            SectionType::Text => 0,
            SectionType::Data => 1,
            SectionType::Rodata => 2,
            SectionType::Bss => 3,
            SectionType::CustomSection => 4,
        }
    }
}

/// Section attributes, as the bits of ELF's `sh_flags`.
#[derive(Debug, Clone, Copy, PartialEq, Eq, Structural)]
pub struct Flag {
    pub bits: u32,
}

impl Flag {
    /// The section is writable (e.g. `.data`, `.bss`).
    pub const WRITE: u32 = 0x1;

    /// The section takes memory while the program runs (e.g. `.text`, `.data`).
    pub const ALLOC: u32 = 0x2;

    /// The section holds instructions (e.g. `.text`).
    pub const EXECINSTR: u32 = 0x4;

    /// The flags with the given bits.
    pub fn from_bits(bits: u32) -> (r: Flag)
        ensures
            r.bits == bits,
    {
        Flag { bits }
    }

    /// The bits.
    pub fn bits(&self) -> (r: u32)
        ensures
            r == self.bits,
    {
        self.bits
    }

    /// The flags of both.
    pub fn union(self, other: Flag) -> (r: Flag)
        ensures
            r.bits == self.bits | other.bits,
    {
        Flag { bits: self.bits | other.bits }
    }

    /// Whether every flag of `other` is set.
    pub fn contains(&self, other: Flag) -> (r: bool)
        ensures
            r == (self.bits & other.bits == other.bits),
    {
        self.bits & other.bits == other.bits
    }
}

/// The alignment of a section, a power of two.
#[derive(Debug, Clone, Copy, PartialEq, Eq, Structural)]
pub struct Alignment {
    pub value: u32,
}

impl Alignment {
    /// Four bytes for text, one for the other sections.
    pub fn new(ty: SectionType) -> (r: Alignment)
        ensures
            r.value == (if ty == SectionType::Text {
                4u32
            } else {
                1u32
            }),
    {
        Alignment {
            value: match ty {
                SectionType::Text => 4,
                _ => 1,
            },
        }
    }
}

/// What a section holds.
#[derive(Debug, Clone, Copy, PartialEq, Eq, Structural)]
pub enum ContentType {
    /// Program data (`.text`, `.data`, `.rodata`, a custom section)
    Progbits,
    /// Data with no initial value (`.bss`)
    Nobits,
}

impl ContentType {
    /// Program data.
    pub fn default() -> (r: ContentType)
        ensures
            r == ContentType::Progbits,
    {
        ContentType::Progbits
    }
}

/// What tells sections apart: the name and the kind.
#[derive(Debug, Clone, Copy, PartialEq, Eq, Hash, Structural)]
pub struct SectionTag {
    pub str_id: StrId,
    pub ty: SectionType,
}

impl SectionTag {
    pub fn new(str_id: StrId, ty: SectionType) -> (r: SectionTag)
        ensures
            r.str_id == str_id,
            r.ty == ty,
    {
        SectionTag { str_id, ty }
    }

    /// The id of the name.
    pub fn strid(&self) -> (r: StrId)
        ensures
            r == self.str_id,
    {
        self.str_id
    }

    /// The kind.
    pub fn ty(&self) -> (r: SectionType)
        ensures
            r == self.ty,
    {
        self.ty
    }
}

/// The position of a section among the sections.
#[derive(Debug, Clone, Copy, PartialEq, Eq, Hash, Structural)]
pub struct SectionId(pub u8);

impl SectionId {
    pub fn new(value: u8) -> (r: SectionId)
        ensures
            r.0 == value,
    {
        SectionId(value)
    }

    /// Change the position.
    pub fn set(&mut self, value: u8)
        ensures
            final(self).0 == value,
    {
        self.0 = value;
    }

    /// The position as an index.
    pub fn index(&self) -> (r: usize)
        ensures
            r == self.0,
    {
        self.0 as usize
    }
}

/// A section of the output.
#[derive(Debug, Clone, Copy)]
pub struct Section {
    /// Its position among the sections
    pub id: SectionId,
    /// Whether it holds program data or only takes room
    pub content_type: ContentType,
    /// Its attributes
    pub flags: Flag,
    /// Its alignment
    pub alignment: Alignment,
    /// Its name and kind
    pub tag: SectionTag,
}

impl Section {
    /// The section `tag` at position `id`: `.bss` holds no data, the others hold program data;
    /// every section is allocated, `.text` also holds instructions, and `.data` and `.bss` are
    /// writable.
    pub fn new(tag: SectionTag, id: SectionId) -> (r: Section)
        ensures
            r.id == id,
            r.tag == tag,
            r.content_type == (if tag.ty == SectionType::Bss {
                ContentType::Nobits
            } else {
                ContentType::Progbits
            }),
            r.flags.bits == spec_section_flags(tag.ty),
            r.alignment == Alignment::new_spec(tag.ty),
            r == Section::spec_new(tag, id),
    {
        let ty = tag.ty;
        let content_type = match ty {
            SectionType::Text => ContentType::Progbits,
            SectionType::Data => ContentType::Progbits,
            SectionType::Rodata => ContentType::Progbits,
            SectionType::Bss => ContentType::Nobits,
            SectionType::CustomSection => ContentType::Progbits,
        };
        let alloc = Flag::from_bits(Flag::ALLOC);
        let flags = match ty {
            SectionType::Text => alloc.union(Flag::from_bits(Flag::EXECINSTR)),
            SectionType::Data => alloc.union(Flag::from_bits(Flag::WRITE)),
            SectionType::Bss => alloc.union(Flag::from_bits(Flag::WRITE)),
            SectionType::Rodata => alloc,
            SectionType::CustomSection => alloc,
        };
        Section { id, flags, alignment: Alignment::new(ty), tag, content_type }
    }

    /// The section `tag` at position `id`, as `new` makes it.
    pub open spec fn spec_new(tag: SectionTag, id: SectionId) -> Section {
        Section {
            id,
            tag,
            content_type: if tag.ty == SectionType::Bss {
                ContentType::Nobits
            } else {
                ContentType::Progbits
            },
            flags: Flag { bits: spec_section_flags(tag.ty) },
            alignment: Alignment::new_spec(tag.ty),
        }
    }

    /// Its name and kind.
    pub fn tag(&self) -> (r: SectionTag)
        ensures
            r == self.tag,
    {
        self.tag
    }
}

/// The flags of a section of kind `ty`: allocated, with instructions in `.text`, writable in
/// `.data` and `.bss`.
pub open spec fn spec_section_flags(ty: SectionType) -> u32 {
    match ty {
        SectionType::Text => Flag::ALLOC | Flag::EXECINSTR,
        SectionType::Data => Flag::ALLOC | Flag::WRITE,
        SectionType::Bss => Flag::ALLOC | Flag::WRITE,
        _ => Flag::ALLOC,
    }
}

impl Alignment {
    /// The alignment of a section of kind `ty`.
    pub open spec fn new_spec(ty: SectionType) -> Alignment {
        Alignment { value: if ty == SectionType::Text { 4 } else { 1 } }
    }
}


/// The directives that make a section active.
pub open spec fn is_section_directive(d: DirectiveType) -> bool {
    d == DirectiveType::Text || d == DirectiveType::Data || d == DirectiveType::Rodata || d
        == DirectiveType::Bss || d == DirectiveType::CustomSection
}

/// Each section directive makes a section of its own kind: two different section directives
/// never give the same kind, only `.text` gives a section of instructions, only `.data` and
/// `.bss` give writable sections, only `.bss` one that holds no data, and `.text` alone is
/// aligned on four bytes; every section is allocated.
pub proof fn lemma_section_directive_kinds(d: DirectiveType, e: DirectiveType)
    requires
        is_section_directive(d),
        is_section_directive(e),
    ensures
        d != e ==> spec_section_type_of(d) != spec_section_type_of(e),
        ({
            let f = spec_section_flags(spec_section_type_of(d));
            &&& (f & Flag::EXECINSTR != 0) == (d == DirectiveType::Text)
            &&& (f & Flag::WRITE != 0) == (d == DirectiveType::Data || d == DirectiveType::Bss)
            &&& f & Flag::ALLOC != 0
        }),
        (spec_section_type_of(d) == SectionType::Bss) == (d == DirectiveType::Bss),
        (Alignment::new_spec(spec_section_type_of(d)).value == 4) == (d == DirectiveType::Text),
{
    assert((0x2u32 | 0x4u32) & 0x4u32 != 0 && (0x2u32 | 0x4u32) & 0x1u32 == 0 && (0x2u32 | 0x4u32)
        & 0x2u32 != 0) by (bit_vector);
    assert((0x2u32 | 0x1u32) & 0x4u32 == 0 && (0x2u32 | 0x1u32) & 0x1u32 != 0 && (0x2u32 | 0x1u32)
        & 0x2u32 != 0) by (bit_vector);
    assert(0x2u32 & 0x4u32 == 0 && 0x2u32 & 0x1u32 == 0 && 0x2u32 & 0x2u32 != 0) by (bit_vector);
}

} // verus!
