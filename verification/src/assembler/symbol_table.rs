//! Symbols: constants, labels, and the local and global names of the sections.
use vstd::prelude::*;

use rustc_hash::FxHashMap;

use crate::assembler::assembly::directive::DirectiveType;
use crate::assembler::assembly::section::SectionId;
use crate::assembler::assembly::symbol::SymbolType;
use crate::assembler::exprs::{Expr, Exprs};
use crate::assembler::interner::StrId;

verus! {

/// Why a symbol could not be defined.
#[derive(Debug, Clone, PartialEq, Eq)]
pub enum SymbolError {
    /// The name, which is already defined
    DuplicateSymbol(Vec<u8>),
}

impl View for SymbolError {
    type V = Seq<u8>;

    open spec fn view(&self) -> Seq<u8> {
        match self {
            SymbolError::DuplicateSymbol(n) => n@,
        }
    }
}

/// Whether a symbol is seen outside its file.
#[derive(Debug, Clone, Copy, PartialEq, Eq, Structural)]
pub enum Visibility {
    Local,
    Global,
}

impl Visibility {
    /// Local.
    pub fn default() -> (r: Visibility)
        ensures
            r == Visibility::Local,
    {
        Visibility::Local
    }
}

/// The directive that defines a constant: `.set` or `.equ`, which define a name alike.
#[derive(Debug, Clone, Copy, PartialEq, Eq, Structural)]
pub enum ConstantSymbolDir {
    SetSymbol,
    Equ,
}

impl ConstantSymbolDir {
    /// `.set` for the set directive, `.equ` for every other.
    pub fn from_directive(value: DirectiveType) -> (r: ConstantSymbolDir)
        ensures
            r == (if value == DirectiveType::SetSymbol {
                ConstantSymbolDir::SetSymbol
            } else {
                ConstantSymbolDir::Equ
            }),
    {
        match value {
            DirectiveType::SetSymbol => ConstantSymbolDir::SetSymbol,
            _ => ConstantSymbolDir::Equ,
        }
    }
}

/// What a constant holds: its name, whether its value is known, and its expression.
pub struct ConstantView {
    pub name_id: StrId,
    pub resolved: bool,
    pub exprs: Seq<Expr>,
}

/// A constant defined by `.set` or `.equ`.
#[derive(Debug)]
pub struct ConstantSymbol {
    name_id: StrId,
    resolved: bool,
    exprs: Exprs,
}

impl View for ConstantSymbol {
    type V = ConstantView;

    closed spec fn view(&self) -> ConstantView {
        ConstantView { name_id: self.name_id, resolved: self.resolved, exprs: self.exprs@ }
    }
}

impl ConstantSymbol {
    /// The constant `name_id` with the expression `value`, not yet resolved.
    pub fn new(name_id: StrId, value: Exprs) -> (r: ConstantSymbol)
        ensures
            r@ == (ConstantView { name_id, resolved: false, exprs: value@ }),
    {
        ConstantSymbol { resolved: false, name_id, exprs: value }
    }

    /// The id of the name.
    pub fn name_id(&self) -> (r: StrId)
        ensures
            r == self@.name_id,
    {
        self.name_id
    }
}

/// What a map from name ids to constants holds.
pub uninterp spec fn constant_entries(m: FxHashMap<u32, ConstantSymbol>) -> Map<u32, ConstantSymbol>;

/// `FxHashMap::default`: an empty map.
#[verifier::external_body]
fn constant_entries_new() -> (r: FxHashMap<u32, ConstantSymbol>)
    ensures
        constant_entries(r) =~= Map::empty(),
{
    FxHashMap::default()
}

/// `HashMap::insert`: afterwards `v` is stored under `k`, the other keys keep theirs.
#[verifier::external_body]
fn constant_entries_insert(m: &mut FxHashMap<u32, ConstantSymbol>, k: u32, v: ConstantSymbol)
    ensures
        constant_entries(*final(m)) == constant_entries(*old(m)).insert(k, v),
{
    m.insert(k, v);
}

/// The constants, by the id of their name.
#[derive(Debug)]
pub struct ConstantSymbols {
    constants: FxHashMap<u32, ConstantSymbol>,
}

impl View for ConstantSymbols {
    type V = Map<u32, ConstantView>;

    closed spec fn view(&self) -> Map<u32, ConstantView> {
        Map::new(
            |k: u32| constant_entries(self.constants).contains_key(k),
            |k: u32| constant_entries(self.constants)[k]@,
        )
    }
}

/// The constants after defining `c`: `.set` and `.equ` alike define the name anew, whether or
/// not it was defined before.
pub open spec fn spec_insert_constant(m: Map<u32, ConstantView>, c: ConstantView) -> Map<
    u32,
    ConstantView,
> {
    m.insert(c.name_id.0, c)
}

impl ConstantSymbols {
    /// No constant.
    pub fn default() -> (r: ConstantSymbols)
        ensures
            r@ == Map::<u32, ConstantView>::empty(),
    {
        let r = ConstantSymbols { constants: constant_entries_new() };
        assert(r@ =~= Map::<u32, ConstantView>::empty());
        r
    }

    /// Define the constant `constant`, named `name`, with the directive `ty`: either directive
    /// defines the name anew, over any earlier definition.
    pub fn insert(&mut self, ty: ConstantSymbolDir, constant: ConstantSymbol, name: &[u8]) -> (r:
        Result<(), SymbolError>)
        ensures
            r is Ok,
            final(self)@ == spec_insert_constant(old(self)@, constant@),
    {
        let key = constant.name_id.0;
        let ghost c = constant@;
        let ghost before = self@;
        constant_entries_insert(&mut self.constants, key, constant);
        assert(self@ =~= before.insert(key, c));
        Ok(())
    }
}

/// A label or a constant, local or global, with its value where it is known.
#[derive(Debug, Clone, Copy, PartialEq, Eq)]
pub struct Symbol {
    pub name: StrId,
    pub vis: Visibility,
    pub value: Option<u32>,
    pub ty: SymbolType,
}

impl Symbol {
    pub fn new(name: StrId, vis: Visibility, value: Option<u32>, ty: SymbolType) -> (r: Symbol)
        ensures
            r == (Symbol { name, vis, value, ty }),
    {
        Symbol { vis, name, value, ty }
    }

    /// The id of the name.
    pub fn name(&self) -> (r: StrId)
        ensures
            r == self.name,
    {
        self.name
    }
}


/// The id of a symbol's name.
pub trait SymbolKind {
    spec fn spec_name(&self) -> StrId;

    fn name(&self) -> (r: StrId)
        ensures
            r == self.spec_name(),
    ;
}

impl SymbolKind for Symbol {
    open spec fn spec_name(&self) -> StrId {
        self.name
    }

    fn name(&self) -> (r: StrId) {
        self.name
    }
}

/// Where the local symbol of a global name stands: its section and its position there.
#[derive(Debug, Clone, Copy, PartialEq, Eq)]
pub struct GlobalHandle {
    pub section_idx: SectionId,
    pub local_idx: usize,
}

/// A name declared global, with its local symbol once that is defined.
#[derive(Debug, Clone, Copy, PartialEq, Eq)]
pub struct GlobalSymbol {
    pub name: StrId,
    pub handle: Option<GlobalHandle>,
}

impl SymbolKind for GlobalSymbol {
    open spec fn spec_name(&self) -> StrId {
        self.name
    }

    fn name(&self) -> (r: StrId) {
        self.name
    }
}

/// A bare name.
#[derive(Debug, Clone, Copy, PartialEq, Eq)]
pub struct SymbolName(pub StrId);

impl SymbolName {
    pub fn from_str_id(value: StrId) -> (r: SymbolName)
        ensures
            r.0 == value,
    {
        SymbolName(value)
    }
}

impl SymbolKind for SymbolName {
    open spec fn spec_name(&self) -> StrId {
        self.0
    }

    fn name(&self) -> (r: StrId) {
        self.0
    }
}

/// Whether a symbol of `syms` has the name `name`.
pub open spec fn has_name<T: SymbolKind>(syms: Seq<T>, name: StrId) -> bool {
    exists|i: int| 0 <= i < syms.len() && (#[trigger] syms[i]).spec_name() == name
}

/// The error where a symbol of `syms` already has the name `name`.
pub fn dupe_check<T: SymbolKind>(syms: &[T], name: StrId, error_str: &[u8]) -> (r: Result<
    (),
    SymbolError,
>)
    ensures
        r is Ok <==> !has_name(syms@, name),
        r matches Err(e) ==> e@ == error_str@,
{
    let mut i: usize = 0;
    while i < syms.len()
        invariant
            i <= syms@.len(),
            forall|j: int| 0 <= j < i ==> (#[trigger] syms@[j]).spec_name() != name,
        decreases syms@.len() - i,
    {
        if syms[i].name() == name {
            return Err(SymbolError::DuplicateSymbol(vstd::slice::slice_to_vec(error_str)));
        }
        i = i + 1;
    }
    Ok(())
}

/// Symbols that can be searched for a name already taken.
pub trait DupeCheck {
    /// Whether a symbol has the name `name`.
    spec fn spec_has_name(&self, name: StrId) -> bool;

    /// The error where a symbol already has the name `name`.
    fn dupe_check(&self, name: StrId, error_str: &[u8]) -> (r: Result<(), SymbolError>)
        ensures
            r is Ok <==> !self.spec_has_name(name),
            r matches Err(e) ==> e@ == error_str@,
    ;
}

impl DupeCheck for Vec<Symbol> {
    open spec fn spec_has_name(&self, name: StrId) -> bool {
        has_name(self@, name)
    }

    fn dupe_check(&self, name: StrId, error_str: &[u8]) -> (r: Result<(), SymbolError>) {
        dupe_check(self.as_slice(), name, error_str)
    }
}

impl DupeCheck for Vec<GlobalSymbol> {
    open spec fn spec_has_name(&self, name: StrId) -> bool {
        has_name(self@, name)
    }

    fn dupe_check(&self, name: StrId, error_str: &[u8]) -> (r: Result<(), SymbolError>) {
        dupe_check(self.as_slice(), name, error_str)
    }
}

/// The position of the first symbol of `syms` named `name`, if any.
pub open spec fn first_named<T: SymbolKind>(syms: Seq<T>, name: StrId) -> Option<int>
    decreases syms.len(),
{
    if syms.len() == 0 {
        None
    } else {
        match first_named(syms.drop_last(), name) {
            Some(i) => Some(i),
            None => if syms.last().spec_name() == name {
                Some(syms.len() - 1)
            } else {
                None
            },
        }
    }
}

/// The position of the last symbol of `syms` named `name`, if any.
pub open spec fn last_named(syms: Seq<Symbol>, name: StrId) -> Option<int>
    decreases syms.len(),
{
    if syms.len() == 0 {
        None
    } else if syms.last().name == name {
        Some(syms.len() - 1)
    } else {
        last_named(syms.drop_last(), name)
    }
}

/// The position of the first declaration of `name`, where it has no symbol yet; an error
/// where it has one; `None` where `name` is not declared.
fn pending_global_index(globals: &[GlobalSymbol], name: StrId, error_str: &[u8]) -> (r: Result<
    Option<usize>,
    SymbolError,
>)
    ensures
        match first_named(globals@, name) {
            None => r == Ok::<Option<usize>, SymbolError>(None),
            Some(i) => if globals@[i].handle is Some {
                r matches Err(e) && e@ == error_str@
            } else {
                r == Ok::<Option<usize>, SymbolError>(Some(i as usize))
            },
        },
{
    proof {
        lemma_first_named(globals@, name);
    }
    let mut i: usize = 0;
    while i < globals.len()
        invariant
            i <= globals@.len(),
            forall|j: int| 0 <= j < i ==> (#[trigger] globals@[j]).spec_name() != name,
        decreases globals@.len() - i,
    {
        if globals[i].name == name {
            proof {
                lemma_first_named(globals@, name);
                assert(globals@[i as int].spec_name() == name);
                if let Some(p) = first_named(globals@, name) {
                    if p < i {
                        assert(globals@[p].spec_name() != name);
                    }
                    if p > i {
                        assert(globals@[i as int].spec_name() != name);
                    }
                } else {
                    assert(has_name(globals@, name));
                }
            }
            if globals[i].handle.is_some() {
                return Err(SymbolError::DuplicateSymbol(vstd::slice::slice_to_vec(error_str)));
            }
            return Ok(Some(i));
        }
        i = i + 1;
    }
    Ok(None)
}

/// What a map from section ids to their local symbols holds.
pub uninterp spec fn local_symbols(m: FxHashMap<u8, Vec<Symbol>>) -> Map<u8, Seq<Symbol>>;

/// `FxHashMap::default`: an empty map.
#[verifier::external_body]
fn local_symbols_new() -> (r: FxHashMap<u8, Vec<Symbol>>)
    ensures
        local_symbols(r) =~= Map::empty(),
{
    FxHashMap::default()
}

/// `HashMap::remove`: the symbols stored under `k`, if any, which leave the map.
#[verifier::external_body]
fn local_symbols_remove(m: &mut FxHashMap<u8, Vec<Symbol>>, k: u8) -> (r: Option<Vec<Symbol>>)
    ensures
        local_symbols(*final(m)) == local_symbols(*old(m)).remove(k),
        r is Some <==> local_symbols(*old(m)).contains_key(k),
        r matches Some(v) ==> v@ == local_symbols(*old(m))[k],
{
    m.remove(&k)
}

/// `HashMap::insert`: afterwards `v` is stored under `k`, the other keys keep theirs.
#[verifier::external_body]
fn local_symbols_insert(m: &mut FxHashMap<u8, Vec<Symbol>>, k: u8, v: Vec<Symbol>)
    ensures
        local_symbols(*final(m)) == local_symbols(*old(m)).insert(k, v@),
{
    m.insert(k, v);
}

/// What the symbol table holds.
pub struct SymbolTableView {
    pub locals: Map<u8, Seq<Symbol>>,
    pub globals: Seq<GlobalSymbol>,
    pub constants: Map<u32, ConstantView>,
}

/// The local symbols of the section `k`: none where it has none yet.
pub open spec fn locals_of(locals: Map<u8, Seq<Symbol>>, k: u8) -> Seq<Symbol> {
    if locals.contains_key(k) {
        locals[k]
    } else {
        Seq::empty()
    }
}

/// Defining the label `name` in `section`: an error where a global of that name already has
/// its symbol (the table unchanged), or where the section holds the name (the section then
/// listed, with its symbols); else the label is added, global where the name was declared
/// global, and that declaration learns where it stands.
pub open spec fn spec_insert_symbol(t: SymbolTableView, section: u8, name: StrId, err: Seq<u8>) -> (
    SymbolTableView,
    Result<(), Seq<u8>>,
) {
    let pg = first_named(t.globals, name);
    if pg matches Some(i) && t.globals[i].handle is Some {
        (t, Err(err))
    } else {
        let ls = locals_of(t.locals, section);
        if has_name(ls, name) {
            (SymbolTableView { locals: t.locals.insert(section, ls), ..t }, Err(err))
        } else {
            let sym = Symbol {
                name,
                vis: if pg is Some {
                    Visibility::Global
                } else {
                    Visibility::Local
                },
                value: None,
                ty: SymbolType::Label,
            };
            let globals = match pg {
                Some(i) => t.globals.update(
                    i,
                    GlobalSymbol {
                        name: t.globals[i].name,
                        handle: Some(
                            GlobalHandle { section_idx: SectionId(section), local_idx: ls.len() as usize },
                        ),
                    },
                ),
                None => t.globals,
            };
            (SymbolTableView { locals: t.locals.insert(section, ls.push(sym)), globals, ..t }, Ok(()))
        }
    }
}

/// Declaring `name` global in `section`: an error where it is already declared (the table
/// unchanged); else the last local of that name there, if any, turns global and the
/// declaration records the section and the number of its symbols.
pub open spec fn spec_declare_global(t: SymbolTableView, section: u8, name: StrId, err: Seq<u8>) -> (
    SymbolTableView,
    Result<(), Seq<u8>>,
) {
    if has_name(t.globals, name) {
        (t, Err(err))
    } else if t.locals.contains_key(section) && last_named(t.locals[section], name) is Some {
        let ls = t.locals[section];
        let j = last_named(ls, name)->0;
        let g = GlobalSymbol {
            name,
            handle: Some(GlobalHandle { section_idx: SectionId(section), local_idx: ls.len() as usize }),
        };
        (
            SymbolTableView {
                locals: t.locals.insert(
                    section,
                    ls.update(j, Symbol { vis: Visibility::Global, ..ls[j] }),
                ),
                globals: t.globals.push(g),
                ..t
            },
            Ok(()),
        )
    } else {
        (
            SymbolTableView { globals: t.globals.push(GlobalSymbol { name, handle: None }), ..t },
            Ok(()),
        )
    }
}

/// A label defined in a section cannot be defined there again: the second definition is
/// refused with the name given.
pub proof fn lemma_insert_symbol_twice(
    t: SymbolTableView,
    section: u8,
    name: StrId,
    err: Seq<u8>,
    err2: Seq<u8>,
)
    requires
        spec_insert_symbol(t, section, name, err).1 is Ok,
    ensures
        spec_insert_symbol(spec_insert_symbol(t, section, name, err).0, section, name, err2).1
            == Err::<(), Seq<u8>>(err2),
{
    let t2 = spec_insert_symbol(t, section, name, err).0;
    let ls = locals_of(t.locals, section);
    let ls2 = locals_of(t2.locals, section);
    assert(ls2 == ls.push(
        Symbol {
            name,
            vis: if first_named(t.globals, name) is Some {
                Visibility::Global
            } else {
                Visibility::Local
            },
            value: None,
            ty: SymbolType::Label,
        },
    ));
    assert(ls2[ls.len() as int].spec_name() == name);
    assert(has_name(ls2, name));
}

/// `.equ` is the same as `.set`: either defines the name anew, over any earlier definition, and
/// a later definition of the name replaces an earlier one.
pub proof fn lemma_redefine_constant(m: Map<u32, ConstantView>, c: ConstantView, c2: ConstantView)
    requires
        c2.name_id == c.name_id,
    ensures
        spec_insert_constant(spec_insert_constant(m, c), c2) == spec_insert_constant(m, c2),
        spec_insert_constant(m, c2)[c2.name_id.0] == c2,
{
    assert(spec_insert_constant(spec_insert_constant(m, c), c2) =~= spec_insert_constant(m, c2));
}

/// The local and global symbols of the sections, and the constants.
#[derive(Debug)]
pub struct SymbolTable {
    locals: FxHashMap<u8, Vec<Symbol>>,
    globals: Vec<GlobalSymbol>,
    constants: ConstantSymbols,
}

impl View for SymbolTable {
    type V = SymbolTableView;

    closed spec fn view(&self) -> SymbolTableView {
        SymbolTableView {
            locals: local_symbols(self.locals),
            globals: self.globals@,
            constants: self.constants@,
        }
    }
}

/// Defining a label that succeeds adds one symbol, named after it, at the end of its section's
/// symbols; the symbol is global exactly where the name was declared global before, and
/// local otherwise. The other sections keep their symbols.
pub proof fn lemma_label_visibility(t: SymbolTableView, section: u8, name: StrId, err: Seq<u8>)
    requires
        spec_insert_symbol(t, section, name, err).1 is Ok,
    ensures
        ({
            let t2 = spec_insert_symbol(t, section, name, err).0;
            let before = locals_of(t.locals, section);
            let after = locals_of(t2.locals, section);
            &&& after.len() == before.len() + 1
            &&& after.subrange(0, before.len() as int) == before
            &&& after.last().name == name
            &&& after.last().ty == SymbolType::Label
            &&& after.last().value is None
            &&& (after.last().vis == Visibility::Global) == (exists|i: int|
                0 <= i < t.globals.len() && (#[trigger] t.globals[i]).name == name)
            &&& (after.last().vis == Visibility::Local) == !(exists|i: int|
                0 <= i < t.globals.len() && (#[trigger] t.globals[i]).name == name)
            &&& forall|k: u8| k != section ==> #[trigger] locals_of(t2.locals, k) == locals_of(
                t.locals,
                k,
            )
        }),
{
    lemma_first_named(t.globals, name);
    let t2 = spec_insert_symbol(t, section, name, err).0;
    let before = locals_of(t.locals, section);
    let after = locals_of(t2.locals, section);
    assert(after.subrange(0, before.len() as int) =~= before);
    if let Some(i) = first_named(t.globals, name) {
        assert(t.globals[i].name == name);
    }
}

/// A label defined after `.global` declared its name is a global symbol.
pub proof fn lemma_declare_then_define(
    t: SymbolTableView,
    decl_section: u8,
    section: u8,
    name: StrId,
    err: Seq<u8>,
    err2: Seq<u8>,
)
    requires
        spec_declare_global(t, decl_section, name, err).1 is Ok,
        spec_insert_symbol(spec_declare_global(t, decl_section, name, err).0, section, name, err2).1 is Ok,
    ensures
        locals_of(
            spec_insert_symbol(spec_declare_global(t, decl_section, name, err).0, section, name, err2).0.locals,
            section,
        ).last() == (Symbol { name, vis: Visibility::Global, value: None, ty: SymbolType::Label }),
{
    let t1 = spec_declare_global(t, decl_section, name, err).0;
    assert(t1.globals.last().name == name);
    lemma_label_visibility(t1, section, name, err2);
}

/// Declaring a name global after its label was defined in a section turns that label global,
/// and the declaration records the section.
pub proof fn lemma_define_then_declare(
    t: SymbolTableView,
    section: u8,
    name: StrId,
    err: Seq<u8>,
    err2: Seq<u8>,
)
    requires
        spec_insert_symbol(t, section, name, err).1 is Ok,
        spec_declare_global(spec_insert_symbol(t, section, name, err).0, section, name, err2).1 is Ok,
    ensures
        ({
            let t1 = spec_insert_symbol(t, section, name, err).0;
            let t2 = spec_declare_global(t1, section, name, err2).0;
            let ls = locals_of(t2.locals, section);
            &&& ls.len() == locals_of(t1.locals, section).len()
            &&& exists|j: int| 0 <= j < ls.len() && (#[trigger] ls[j]).name == name && ls[j].vis
                == Visibility::Global
            &&& t2.globals.last().name == name
            &&& t2.globals.last().handle matches Some(h) && h.section_idx == SectionId(section)
        }),
{
    let t1 = spec_insert_symbol(t, section, name, err).0;
    lemma_label_visibility(t, section, name, err);
    let ls1 = locals_of(t1.locals, section);
    assert(ls1.last().name == name);
    lemma_last_named_found(ls1, name, ls1.len() - 1);
    let j = last_named(ls1, name)->0;
    lemma_last_named(ls1, name);
    let t2 = spec_declare_global(t1, section, name, err2).0;
    let ls = locals_of(t2.locals, section);
    assert(ls[j].name == name && ls[j].vis == Visibility::Global);
}

/// A name held at `k` is found by `last_named`.
proof fn lemma_last_named_found(syms: Seq<Symbol>, name: StrId, k: int)
    requires
        0 <= k < syms.len(),
        syms[k].name == name,
    ensures
        last_named(syms, name) is Some,
    decreases syms.len(),
{
    if k < syms.len() - 1 {
        lemma_last_named_found(syms.drop_last(), name, k);
    }
}

proof fn lemma_first_named<T: SymbolKind>(syms: Seq<T>, name: StrId)
    ensures
        first_named(syms, name) matches Some(i) ==> 0 <= i < syms.len() && syms[i].spec_name()
            == name && forall|j: int| 0 <= j < i ==> (#[trigger] syms[j]).spec_name() != name,
        first_named(syms, name) is None ==> !has_name(syms, name),
    decreases syms.len(),
{
    if syms.len() > 0 {
        let d = syms.drop_last();
        lemma_first_named(d, name);
        assert forall|j: int| 0 <= j < d.len() implies d[j] == syms[j] by {}
        if first_named(syms, name) is None {
            assert forall|j: int| 0 <= j < syms.len() implies (#[trigger] syms[j]).spec_name() != name by {
                if j < d.len() {
                    assert(d[j] == syms[j]);
                }
            }
        }
    }
}

proof fn lemma_last_named(syms: Seq<Symbol>, name: StrId)
    ensures
        last_named(syms, name) matches Some(j) ==> 0 <= j < syms.len() && syms[j].name == name,
        last_named(syms, name) is None ==> forall|j: int| 0 <= j < syms.len() ==> (
        #[trigger] syms[j]).name != name,
    decreases syms.len(),
{
    if syms.len() > 0 {
        let d = syms.drop_last();
        lemma_last_named(d, name);
        assert forall|j: int| 0 <= j < d.len() implies d[j] == syms[j] by {}
    }
}

impl SymbolTable {
    /// An empty table.
    pub fn new() -> (r: SymbolTable)
        ensures
            r@.locals == Map::<u8, Seq<Symbol>>::empty(),
            r@.globals == Seq::<GlobalSymbol>::empty(),
            r@.constants == Map::<u32, ConstantView>::empty(),
    {
        SymbolTable {
            locals: local_symbols_new(),
            globals: Vec::new(),
            constants: ConstantSymbols::default(),
        }
    }

    /// Define the label `name` in `section`; see `spec_insert_symbol`.
    pub fn insert(&mut self, section: SectionId, name: StrId, error_str: &[u8]) -> (r: Result<
        (),
        SymbolError,
    >)
        requires
            old(self)@.globals.len() < usize::MAX,
        ensures
            ({
                let (t, res) = spec_insert_symbol(old(self)@, section.0, name, error_str@);
                &&& final(self)@ == t
                &&& match res {
                    Ok(_) => r is Ok,
                    Err(n) => r matches Err(e) && e@ == n,
                }
            }),
    {
        let pending = pending_global_index(self.globals.as_slice(), name, error_str)?;
        proof {
            lemma_first_named(self.globals@, name);
        }
        let mut locals = match local_symbols_remove(&mut self.locals, section.0) {
            Some(v) => v,
            None => Vec::new(),
        };
        let ghost ls = locals@;
        assert(ls == locals_of(old(self)@.locals, section.0));
        match locals.dupe_check(name, error_str) {
            Ok(_) => {},
            Err(e) => {
                local_symbols_insert(&mut self.locals, section.0, locals);
                proof {
                    assert(local_symbols(self.locals) =~= old(self)@.locals.insert(section.0, ls));
                }
                return Err(e);
            },
        }
        let mut symbol = Symbol::new(name, Visibility::default(), None, SymbolType::default());
        if let Some(p) = pending {
            symbol.vis = Visibility::Global;
            let handle = GlobalHandle { section_idx: section, local_idx: locals.len() };
            let g = GlobalSymbol { name: self.globals[p].name, handle: Some(handle) };
            self.globals.set(p, g);
        }
        locals.push(symbol);
        local_symbols_insert(&mut self.locals, section.0, locals);
        proof {
            assert(local_symbols(self.locals) =~= old(self)@.locals.insert(section.0, ls.push(symbol)));
        }
        Ok(())
    }

    /// Declare `name` global in `section`; see `spec_declare_global`.
    pub fn declare_global(&mut self, section: SectionId, name: StrId, error_str: &[u8]) -> (r:
        Result<(), SymbolError>)
        ensures
            ({
                let (t, res) = spec_declare_global(old(self)@, section.0, name, error_str@);
                &&& final(self)@ == t
                &&& match res {
                    Ok(_) => r is Ok,
                    Err(n) => r matches Err(e) && e@ == n,
                }
            }),
    {
        self.globals.dupe_check(name, error_str)?;
        let mut global_symbol = GlobalSymbol { name, handle: None };
        match local_symbols_remove(&mut self.locals, section.0) {
            None => {
                assert(local_symbols(self.locals) =~= old(self)@.locals);
            },
            Some(mut section_locals) => {
                let ghost ls = section_locals@;
                proof {
                    lemma_last_named(ls, name);
                }
                let mut j = section_locals.len();
                assert(ls.subrange(0, ls.len() as int) =~= ls);
                while j > 0
                    invariant
                        j <= section_locals@.len(),
                        section_locals@ == ls,
                        last_named(ls, name) == last_named(ls.subrange(0, j as int), name),
                    ensures
                        j <= section_locals@.len(),
                        last_named(ls, name) == last_named(ls.subrange(0, j as int), name),
                        j == 0 || ls[j - 1].name == name,
                    decreases j,
                {
                    if section_locals[j - 1].name == name {
                        break;
                    }
                    proof {
                        let sub = ls.subrange(0, j as int);
                        assert(sub.drop_last() =~= ls.subrange(0, j - 1));
                    }
                    j = j - 1;
                }
                proof {
                    if j == 0 {
                        assert(ls.subrange(0, 0) =~= Seq::<Symbol>::empty());
                    } else {
                        let sub = ls.subrange(0, j as int);
                        assert(sub.last() == ls[j - 1]);
                        assert(last_named(sub, name) == Some(j - 1));
                    }
                }
                if j > 0 {
                    let old_sym = section_locals[j - 1];
                    let len = section_locals.len();
                    section_locals.set(j - 1, Symbol { vis: Visibility::Global, ..old_sym });
                    global_symbol.handle = Some(GlobalHandle { section_idx: section, local_idx: len });
                }
                local_symbols_insert(&mut self.locals, section.0, section_locals);
                proof {
                    if j == 0 {
                        assert(local_symbols(self.locals) =~= old(self)@.locals);
                    } else {
                        assert(last_named(ls, name) == Some(j - 1));
                        assert(local_symbols(self.locals) =~= old(self)@.locals.insert(
                            section.0,
                            ls.update(j - 1, Symbol { vis: Visibility::Global, ..ls[j - 1] }),
                        ));
                        assert(section == SectionId(section.0));
                    }
                }
            },
        }
        self.globals.push(global_symbol);
        Ok(())
    }

    /// Define a constant; see `ConstantSymbols::insert`.
    pub fn insert_constant(&mut self, ty: ConstantSymbolDir, str_id: StrId, value: Exprs, name: &[u8]) -> (r:
        Result<(), SymbolError>)
        ensures
            final(self)@.locals == old(self)@.locals,
            final(self)@.globals == old(self)@.globals,
            r is Ok,
            final(self)@.constants == spec_insert_constant(
                old(self)@.constants,
                ConstantView { name_id: str_id, resolved: false, exprs: value@ },
            ),
    {
        self.constants.insert(ty, ConstantSymbol::new(str_id, value), name)
    }

    /// The local symbols of the sections.
    pub fn locals(&self) -> (r: &FxHashMap<u8, Vec<Symbol>>)
        ensures
            local_symbols(*r) == self@.locals,
    {
        &self.locals
    }

    /// The global declarations.
    pub fn globals(&self) -> (r: &[GlobalSymbol])
        ensures
            r@ == self@.globals,
    {
        self.globals.as_slice()
    }

    /// The first declaration of `name` still without its symbol, if any.
    pub fn pending_global(&self, name: StrId) -> (r: Option<&GlobalSymbol>)
        ensures
            r matches Some(g) ==> exists|i: int|
                0 <= i < self@.globals.len() && self@.globals[i] == *g && g.name == name
                    && g.handle is None && forall|j: int|
                    0 <= j < i ==> !((#[trigger] self@.globals[j]).name == name
                        && self@.globals[j].handle is None),
            r is None ==> forall|j: int|
                0 <= j < self@.globals.len() ==> !((#[trigger] self@.globals[j]).name == name
                    && self@.globals[j].handle is None),
    {
        let mut i: usize = 0;
        while i < self.globals.len()
            invariant
                i <= self@.globals.len(),
                forall|j: int|
                    0 <= j < i ==> !((#[trigger] self@.globals[j]).name == name
                        && self@.globals[j].handle is None),
            decreases self@.globals.len() - i,
        {
            if self.globals[i].handle.is_none() && self.globals[i].name == name {
                return Some(&self.globals[i]);
            }
            i = i + 1;
        }
        None
    }
}

} // verus!
