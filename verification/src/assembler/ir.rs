//! The intermediate representation: what the parser makes of the source.
use vstd::prelude::*;

use rustc_hash::FxHashMap;

use crate::assembler::assembly::section::{Section, SectionId, SectionTag, SectionType};
use crate::assembler::helper::IntErrorKind;
use crate::assembler::instruction::{Instruction, Operand};
use crate::isa::instruction::Mnemonic;
use crate::assembler::interner::{
    lemma_position_of, position_of, spec_intern, Interner, StrId,
};

verus! {

/// Why a value could not be read.
#[derive(Debug, Clone, Copy, PartialEq, Eq, Structural)]
pub enum IRError {
    /// The digits are no integer of the wanted type
    ParseIntError(IntErrorKind),
    /// The token is no value
    UnknownValue,
}

/// The position of an instruction among the instructions.
#[derive(Debug, Clone, Copy, PartialEq, Eq, Structural)]
pub struct InstructionId(pub usize);

/// An item of the program, in source order.
#[derive(Debug)]
pub enum Node {
    Word(u32),
    Byte(u8),
    Half(u16),
    /// The bytes of a string
    String(Vec<u8>),
    /// A switch to the section
    Section(SectionId),
    Instruction(InstructionId),
    Label(StrId),
    Global(StrId),
    Align(u32),
    Skip(u32),
}

/// A node, with the bytes of a string as a sequence.
pub enum NodeView {
    Word(u32),
    Byte(u8),
    Half(u16),
    String(Seq<u8>),
    Section(SectionId),
    Instruction(InstructionId),
    Label(StrId),
    Global(StrId),
    Align(u32),
    Skip(u32),
}

impl View for Node {
    type V = NodeView;

    open spec fn view(&self) -> NodeView {
        match self {
            Node::Word(v) => NodeView::Word(*v),
            Node::Byte(v) => NodeView::Byte(*v),
            Node::Half(v) => NodeView::Half(*v),
            Node::String(v) => NodeView::String(v@),
            Node::Section(v) => NodeView::Section(*v),
            Node::Instruction(v) => NodeView::Instruction(*v),
            Node::Label(v) => NodeView::Label(*v),
            Node::Global(v) => NodeView::Global(*v),
            Node::Align(v) => NodeView::Align(*v),
            Node::Skip(v) => NodeView::Skip(*v),
        }
    }
}

/// What a map from section keys (name id, kind number) to section ids holds.
pub uninterp spec fn section_ids(m: FxHashMap<(u32, u8), u8>) -> Map<(u32, u8), u8>;

/// `FxHashMap::default`: an empty map.
#[verifier::external_body]
fn section_ids_new() -> (r: FxHashMap<(u32, u8), u8>)
    ensures
        section_ids(r) =~= Map::empty(),
{
    FxHashMap::default()
}

/// `HashMap::get`: the id stored under the key `k`, if any.
#[verifier::external_body]
fn section_ids_get(m: &FxHashMap<(u32, u8), u8>, k: (u32, u8)) -> (r: Option<u8>)
    ensures
        r == (if section_ids(*m).contains_key(k) {
            Some(section_ids(*m)[k])
        } else {
            None
        }),
{
    m.get(&k).copied()
}

/// `HashMap::insert`: afterwards `k` is stored with `v`, the other keys keep theirs.
#[verifier::external_body]
fn section_ids_insert(m: &mut FxHashMap<(u32, u8), u8>, k: (u32, u8), v: u8)
    ensures
        section_ids(*final(m)) == section_ids(*old(m)).insert(k, v),
{
    m.insert(k, v);
}

/// The key of a section tag in the map: the name id and the kind number.
pub open spec fn tag_key(t: SectionTag) -> (u32, u8) {
    (t.str_id.0, t.ty.spec_index())
}

/// The sections after switching to the section `tag`, and its id: the id it has, or the next
/// (taken modulo 256).
pub open spec fn spec_switch(tags: Seq<SectionTag>, tag: SectionTag) -> (Seq<SectionTag>, u8) {
    match position_of(tags, tag) {
        Some(i) => (tags, i as u8),
        None => (tags.push(tag), tags.len() as u8),
    }
}

/// Switching to a section and looking its id up gives the section back; switching to it again
/// gives the same id and leaves the sections as they are.
pub proof fn lemma_switch_lookup(tags: Seq<SectionTag>, tag: SectionTag)
    requires
        tags.len() + 1 < 256,
    ensures
        ({
            let (t, id) = spec_switch(tags, tag);
            &&& id < t.len()
            &&& t[id as int] == tag
            &&& spec_switch(t, tag) == (t, id)
        }),
{
    lemma_position_of(tags, tag);
    let (t, id) = spec_switch(tags, tag);
    lemma_position_of(t, tag);
    if position_of(tags, tag) is None {
        assert(t[tags.len() as int] == tag);
        if let Some(p) = position_of(t, tag) {
            assert(p == tags.len());
        }
    }
}

/// The sections, in the order they were first switched to.
#[derive(Debug)]
pub struct Sections {
    map: FxHashMap<(u32, u8), u8>,
    vec: Vec<Section>,
}

impl View for Sections {
    type V = Seq<SectionTag>;

    closed spec fn view(&self) -> Seq<SectionTag> {
        self.vec@.map_values(|s: Section| s.tag)
    }
}

proof fn lemma_tag_key_injective(a: SectionTag, b: SectionTag)
    ensures
        tag_key(a) == tag_key(b) ==> a == b,
{
}

impl Sections {
    /// The map and the sections agree, no tag is held twice, and each section knows its id.
    pub closed spec fn wf(&self) -> bool {
        &&& forall|i: int, j: int| 0 <= i < j < self@.len() ==> self@[i] != self@[j]
        &&& forall|k: (u32, u8)| #[trigger]
            section_ids(self.map).contains_key(k) <==> exists|i: int|
                0 <= i < self@.len() && tag_key(self@[i]) == k
        &&& forall|i: int| 0 <= i < self@.len() ==> #[trigger] section_ids(self.map)[tag_key(
            self@[i],
        )] == i as u8
        &&& forall|i: int| 0 <= i < self.vec@.len() ==> (#[trigger] self.vec@[i]).id.0 == i as u8
            && self.vec@[i] == Section::spec_new(self.vec@[i].tag, self.vec@[i].id)
    }

    /// No section yet.
    pub fn new() -> (r: Sections)
        ensures
            r.wf(),
            r@ == Seq::<SectionTag>::empty(),
    {
        let r = Sections { map: section_ids_new(), vec: Vec::with_capacity(SectionType::count()) };
        assert(r@ =~= Seq::<SectionTag>::empty());
        r
    }

    /// Number of sections.
    pub fn len(&self) -> (r: usize)
        ensures
            r == self@.len(),
    {
        self.vec.len()
    }

    /// The id of the section named `str_id` of kind `ty`, which is added if it is new.
    pub fn switch(&mut self, str_id: StrId, ty: SectionType) -> (r: SectionId)
        requires
            old(self).wf(),
        ensures
            final(self).wf(),
            (final(self)@, r.0) == spec_switch(old(self)@, SectionTag { str_id, ty }),
    {
        let tag = SectionTag::new(str_id, ty);
        proof {
            lemma_position_of(self@, tag);
        }
        match section_ids_get(&self.map, (str_id.0, ty.index())) {
            Some(id) => {
                proof {
                    let i = choose|i: int| 0 <= i < self@.len() && tag_key(self@[i]) == tag_key(tag);
                    lemma_tag_key_injective(self@[i], tag);
                    assert(section_ids(self.map)[tag_key(self@[i])] == i as u8);
                    if let Some(p) = position_of(self@, tag) {
                        assert(p == i);
                    }
                }
                SectionId::new(id)
            },
            None => {
                proof {
                    if let Some(p) = position_of(self@, tag) {
                        assert(tag_key(self@[p as int]) == tag_key(tag));
                    }
                }
                let id = self.generate_id();
                self.insert(tag, id);
                id
            },
        }
    }

    /// Add the section `tag` under the id `id`, which must be the next, for a tag not held.
    pub fn insert(&mut self, tag: SectionTag, id: SectionId)
        requires
            old(self).wf(),
            !old(self)@.contains(tag),
            id.0 == old(self)@.len() as u8,
        ensures
            final(self).wf(),
            final(self)@ == old(self)@.push(tag),
    {
        let ghost old_tags = self@;
        let section = Section::new(tag, id);
        section_ids_insert(&mut self.map, (tag.str_id.0, tag.ty.index()), id.0);
        self.vec.push(section);
        assert(self@ =~= old_tags.push(tag));
        assert forall|k: (u32, u8)| #[trigger]
            section_ids(self.map).contains_key(k) <==> exists|i: int|
                0 <= i < self@.len() && tag_key(self@[i]) == k by {
            if k == tag_key(tag) {
                assert(tag_key(self@[old_tags.len() as int]) == k);
            } else if exists|i: int| 0 <= i < self@.len() && tag_key(self@[i]) == k {
                let i = choose|i: int| 0 <= i < self@.len() && tag_key(self@[i]) == k;
                assert(i < old_tags.len());
                assert(tag_key(old_tags[i]) == k);
            } else if section_ids(self.map).contains_key(k) {
                let i = choose|i: int| 0 <= i < old_tags.len() && tag_key(old_tags[i]) == k;
                assert(tag_key(self@[i]) == k);
            }
        }
        assert forall|i: int| 0 <= i < self@.len() implies #[trigger] section_ids(self.map)[tag_key(
            self@[i],
        )] == i as u8 by {
            if i < old_tags.len() {
                assert(self@[i] == old_tags[i]);
                lemma_tag_key_injective(old_tags[i], tag);
            }
        }
        assert forall|i: int, j: int| 0 <= i < j < self@.len() implies self@[i] != self@[j] by {
            if j == old_tags.len() {
                assert(old_tags.contains(old_tags[i]));
            }
        }
    }

    /// The section with the id `id`: the section `Section::new` makes of its tag and id, so its
    /// content type, flags and alignment follow from its kind.
    pub fn lookup(&self, id: SectionId) -> (r: &Section)
        requires
            id.0 < self@.len(),
        ensures
            r.tag == self@[id.0 as int],
            self.wf() ==> *r == Section::spec_new(self@[id.0 as int], id),
    {
        &self.vec[id.0 as usize]
    }

    /// The id the next new section gets.
    pub fn generate_id(&self) -> (r: SectionId)
        ensures
            r.0 == self@.len() as u8,
    {
        SectionId::new(#[verifier::truncate] (self.vec.len() as u8))
    }
}

/// The instructions, in source order.
#[derive(Debug)]
pub struct Instructions {
    vec: Vec<Instruction>,
}

impl View for Instructions {
    type V = Seq<(Mnemonic, Seq<Operand>)>;

    closed spec fn view(&self) -> Seq<(Mnemonic, Seq<Operand>)> {
        self.vec@.map_values(|i: Instruction| i@)
    }
}

impl Instructions {
    fn new() -> (r: Instructions)
        ensures
            r@ == Seq::<(Mnemonic, Seq<Operand>)>::empty(),
    {
        let r = Instructions { vec: Vec::new() };
        assert(r@ =~= Seq::<(Mnemonic, Seq<Operand>)>::empty());
        r
    }

    /// Add an instruction; its id is its position.
    pub fn add(&mut self, value: Instruction) -> (r: InstructionId)
        ensures
            final(self)@ == old(self)@.push(value@),
            r.0 == old(self)@.len(),
    {
        let ghost v = value@;
        self.vec.push(value);
        assert(self@ =~= old(self)@.push(v));
        InstructionId(self.vec.len() - 1)
    }
}

/// What the intermediate representation holds.
pub struct IRView {
    pub nodes: Seq<NodeView>,
    pub strs: Seq<Seq<u8>>,
    pub sections: Seq<SectionTag>,
    pub instructions: Seq<(Mnemonic, Seq<Operand>)>,
}

/// The nodes, the names, the sections and the instructions of a program.
#[derive(Debug)]
pub struct IR {
    nodes: Vec<Node>,
    str_tab: Interner,
    sections: Sections,
    instructions: Instructions,
}

impl View for IR {
    type V = IRView;

    closed spec fn view(&self) -> IRView {
        IRView {
            nodes: self.nodes@.map_values(|n: Node| n@),
            strs: self.str_tab@,
            sections: self.sections@,
            instructions: self.instructions@,
        }
    }
}

impl IR {
    /// The names and the sections are consistent.
    pub closed spec fn wf(&self) -> bool {
        self.str_tab.wf() && self.sections.wf()
    }

    /// Nothing yet. The capacity is a hint only.
    pub fn new(cap: usize) -> (r: IR)
        ensures
            r.wf(),
            r@.nodes == Seq::<NodeView>::empty(),
            r@.strs == Seq::<Seq<u8>>::empty(),
            r@.sections == Seq::<SectionTag>::empty(),
            r@.instructions == Seq::<(Mnemonic, Seq<Operand>)>::empty(),
    {
        let r = IR {
            nodes: Vec::new(),
            str_tab: Interner::with_capacity(cap),
            sections: Sections::new(),
            instructions: Instructions::new(),
        };
        assert(r@.nodes =~= Seq::<NodeView>::empty());
        r
    }

    pub fn nodes(&self) -> (r: &[Node])
        ensures
            r@.map_values(|n: Node| n@) == self@.nodes,
    {
        self.nodes.as_slice()
    }

    /// The id of the name `name`, which is added if it is new.
    pub fn alloc_str(&mut self, name: &[u8]) -> (r: StrId)
        requires
            old(self).wf(),
        ensures
            final(self).wf(),
            (final(self)@.strs, r.0) == spec_intern(old(self)@.strs, name@),
            final(self)@.nodes == old(self)@.nodes,
            final(self)@.sections == old(self)@.sections,
            final(self)@.instructions == old(self)@.instructions,
    {
        self.str_tab.intern(name)
    }

    /// Declare the name `name` global.
    pub fn add_global_symbol(&mut self, name: &[u8])
        requires
            old(self).wf(),
        ensures
            final(self).wf(),
            ({
                let (strs, id) = spec_intern(old(self)@.strs, name@);
                &&& final(self)@.strs == strs
                &&& final(self)@.nodes == old(self)@.nodes.push(NodeView::Global(StrId(id)))
            }),
            final(self)@.sections == old(self)@.sections,
            final(self)@.instructions == old(self)@.instructions,
    {
        let str_id = self.str_tab.intern(name);
        self.push(Node::Global(str_id));
    }

    /// Add an instruction and its node.
    pub fn add_instruction(&mut self, ins: Instruction)
        requires
            old(self).wf(),
        ensures
            final(self).wf(),
            final(self)@.instructions == old(self)@.instructions.push(ins@),
            final(self)@.nodes == old(self)@.nodes.push(
                NodeView::Instruction(InstructionId(old(self)@.instructions.len() as usize)),
            ),
            final(self)@.strs == old(self)@.strs,
            final(self)@.sections == old(self)@.sections,
    {
        let id = self.instructions.add(ins);
        self.push(Node::Instruction(id));
    }

    /// Switch to the section named `name` of kind `ty`, and add its node.
    pub fn add_section(&mut self, name: &[u8], ty: SectionType)
        requires
            old(self).wf(),
        ensures
            final(self).wf(),
            ({
                let (strs, id) = spec_intern(old(self)@.strs, name@);
                let (tags, sid) = spec_switch(old(self)@.sections, SectionTag { str_id: StrId(id), ty });
                &&& final(self)@.strs == strs
                &&& final(self)@.sections == tags
                &&& final(self)@.nodes == old(self)@.nodes.push(NodeView::Section(SectionId(sid)))
            }),
            final(self)@.instructions == old(self)@.instructions,
    {
        let str_id = self.str_tab.intern(name);
        let id = self.sections.switch(str_id, ty);
        self.push(Node::Section(id));
    }

    /// Add a node.
    pub fn push(&mut self, node: Node)
        ensures
            final(self)@.nodes == old(self)@.nodes.push(node@),
            final(self)@.strs == old(self)@.strs,
            final(self)@.sections == old(self)@.sections,
            final(self)@.instructions == old(self)@.instructions,
            old(self).wf() ==> final(self).wf(),
    {
        let ghost n = node@;
        self.nodes.push(node);
        assert(self@.nodes =~= old(self)@.nodes.push(n));
    }

    /// The names, to change them.
    pub fn str_tab_mut(&mut self) -> (r: &mut Interner)
        ensures
            r@ == old(self)@.strs,
            old(self).wf() ==> r.wf(),
            final(self)@.strs == final(r)@,
            final(self)@.nodes == old(self)@.nodes,
            final(self)@.sections == old(self)@.sections,
            final(self)@.instructions == old(self)@.instructions,
            old(self).wf() && final(r).wf() ==> final(self).wf(),
    {
        &mut self.str_tab
    }

    /// The sections, to change them.
    pub fn sections_mut(&mut self) -> (r: &mut Sections)
        ensures
            r@ == old(self)@.sections,
            old(self).wf() ==> r.wf(),
            final(self)@.sections == final(r)@,
            final(self)@.nodes == old(self)@.nodes,
            final(self)@.strs == old(self)@.strs,
            final(self)@.instructions == old(self)@.instructions,
            old(self).wf() && final(r).wf() ==> final(self).wf(),
    {
        &mut self.sections
    }

    /// The names of the program.
    pub fn str_tab(&self) -> (r: &Interner)
        ensures
            r@ == self@.strs,
            self.wf() ==> r.wf(),
    {
        &self.str_tab
    }
}

} // verus!
