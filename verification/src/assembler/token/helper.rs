//! Lexer state, identifier classification and integer literal helpers.
use vstd::prelude::*;

use crate::assembler::helper::bytes_eq;
use crate::assembler::lexer::scan::LexFault;
use crate::assembler::token::Token;
use crate::isa::instruction::Mnemonic;
use crate::isa::register::spec_register;
use crate::isa::Register;

verus! {

/// A position in the source: row and column.
#[derive(Debug, Clone, Copy)]
pub struct Cell {
    row: usize,
    column: usize,
}

impl Cell {
    pub closed spec fn spec_row(self) -> usize {
        self.row
    }

    pub closed spec fn spec_column(self) -> usize {
        self.column
    }

    /// The row.
    pub fn row(&self) -> (r: usize)
        ensures
            r == self.spec_row(),
    {
        self.row
    }

    /// Row 1, column 1.
    pub fn default() -> (r: Cell)
        ensures
            r.spec_row() == 1,
            r.spec_column() == 1,
    {
        Cell { row: 1, column: 1 }
    }
}

/// What the lexer carries from one token to the next: its position and the last token.
#[derive(Debug, Clone, Copy)]
pub struct State {
    cell: Cell,
    last_token: Token,
}

impl State {
    pub closed spec fn spec_cell(self) -> Cell {
        self.cell
    }

    pub closed spec fn spec_last_token(self) -> Token {
        self.last_token
    }

    /// At row 1, column 1, after an end of line.
    pub fn default() -> (r: State)
        ensures
            r.spec_cell().spec_row() == 1,
            r.spec_cell().spec_column() == 1,
            r.spec_last_token() == Token::Eol,
    {
        State { cell: Cell::default(), last_token: Token::Eol }
    }

    /// Move to the next row.
    pub fn advance_row(&mut self)
        requires
            old(self).spec_cell().spec_row() < usize::MAX,
        ensures
            final(self).spec_cell().spec_row() == old(self).spec_cell().spec_row() + 1,
            final(self).spec_cell().spec_column() == old(self).spec_cell().spec_column(),
            final(self).spec_last_token() == old(self).spec_last_token(),
    {
        self.cell.row += 1;
    }

    /// Remember `token` as the last token.
    pub fn set_last_token(&mut self, token: Token)
        ensures
            final(self).spec_cell() == old(self).spec_cell(),
            final(self).spec_last_token() == token,
    {
        self.last_token = token;
    }

    /// The last token.
    pub fn last_token(&self) -> (r: Token)
        ensures
            r == self.spec_last_token(),
    {
        self.last_token
    }

    /// The current position.
    pub fn cell(&self) -> (r: &Cell)
        ensures
            *r == self.spec_cell(),
    {
        &self.cell
    }

    /// A new line starts: next row, first column.
    pub fn on_newline(&mut self)
        requires
            old(self).spec_cell().spec_row() < usize::MAX,
        ensures
            final(self).spec_cell().spec_row() == old(self).spec_cell().spec_row() + 1,
            final(self).spec_cell().spec_column() == 1,
            final(self).spec_last_token() == old(self).spec_last_token(),
    {
        self.cell.row += 1;
        self.cell.column = 1;
    }
}

/// Why the source could not be split into tokens.
#[derive(Debug, Clone, PartialEq, Eq)]
pub enum LexingError {
    /// A dot and a name that is no directive, with the row
    UnknownDirective(String, usize),
    /// The bytes after the digits of an integer literal, with the column
    InvalidSuffix(String, usize),
    /// A byte that is not ASCII, with the row
    NonAsciiCharacter(usize),
    /// A byte where no token starts, with the row
    UnknownSyntax(String, usize),
    /// Any other error
    Error,
}

impl View for LexingError {
    type V = LexFault;

    open spec fn view(&self) -> LexFault {
        match self {
            LexingError::UnknownDirective(t, r) => LexFault::UnknownDirective(t@, *r as int),
            LexingError::InvalidSuffix(t, c) => LexFault::InvalidSuffix(t@, *c as int),
            LexingError::NonAsciiCharacter(r) => LexFault::NonAsciiCharacter(*r as int),
            LexingError::UnknownSyntax(t, r) => LexFault::UnknownSyntax(t@, *r as int),
            LexingError::Error => LexFault::Error,
        }
    }
}

/// What an identifier names.
#[derive(Debug, Copy, Clone, PartialEq, Eq, Structural)]
pub enum IdentifierType {
    Mnemonic(Mnemonic),
    Register(Register),
    Symbol,
}

/// The mnemonic whose lower-case name is `name`, if any.
pub open spec fn spec_mnemonic_of(name: Seq<u8>) -> Option<Mnemonic> {
    if name == seq![97u8, 100u8, 100u8] {
        Some(Mnemonic::Add)
    } else     if name == seq![115u8, 117u8, 98u8] {
        Some(Mnemonic::Sub)
    } else     if name == seq![109u8, 117u8, 108u8] {
        Some(Mnemonic::Mul)
    } else     if name == seq![97u8, 110u8, 100u8] {
        Some(Mnemonic::And)
    } else     if name == seq![111u8, 114u8] {
        Some(Mnemonic::Or)
    } else     if name == seq![120u8, 111u8, 114u8] {
        Some(Mnemonic::Xor)
    } else     if name == seq![115u8, 104u8, 108u8] {
        Some(Mnemonic::Shl)
    } else     if name == seq![115u8, 104u8, 114u8] {
        Some(Mnemonic::Shr)
    } else     if name == seq![115u8, 104u8, 114u8, 97u8] {
        Some(Mnemonic::ShrA)
    } else     if name == seq![97u8, 100u8, 100u8, 105u8] {
        Some(Mnemonic::AddI)
    } else     if name == seq![108u8, 117u8, 105u8] {
        Some(Mnemonic::Lui)
    } else     if name == seq![108u8, 119u8] {
        Some(Mnemonic::Lw)
    } else     if name == seq![115u8, 119u8] {
        Some(Mnemonic::Sw)
    } else     if name == seq![115u8, 121u8, 115u8, 99u8, 97u8, 108u8, 108u8] {
        Some(Mnemonic::Syscall)
    } else {
        None
    }
}

/// The lower-case name of a mnemonic.
pub open spec fn spec_mnemonic_name(m: Mnemonic) -> Seq<u8> {
    match m {
        Mnemonic::Add => seq![97u8, 100u8, 100u8],
        Mnemonic::Sub => seq![115u8, 117u8, 98u8],
        Mnemonic::Mul => seq![109u8, 117u8, 108u8],
        Mnemonic::And => seq![97u8, 110u8, 100u8],
        Mnemonic::Or => seq![111u8, 114u8],
        Mnemonic::Xor => seq![120u8, 111u8, 114u8],
        Mnemonic::Shl => seq![115u8, 104u8, 108u8],
        Mnemonic::Shr => seq![115u8, 104u8, 114u8],
        Mnemonic::ShrA => seq![115u8, 104u8, 114u8, 97u8],
        Mnemonic::AddI => seq![97u8, 100u8, 100u8, 105u8],
        Mnemonic::Lui => seq![108u8, 117u8, 105u8],
        Mnemonic::Lw => seq![108u8, 119u8],
        Mnemonic::Sw => seq![115u8, 119u8],
        Mnemonic::Syscall => seq![115u8, 121u8, 115u8, 99u8, 97u8, 108u8, 108u8],
    }
}

/// The name of every mnemonic is read back as that mnemonic, by the lexer too.
pub proof fn lemma_mnemonic_name(m: Mnemonic)
    ensures
        spec_mnemonic_of(spec_mnemonic_name(m)) == Some(m),
        spec_identifier_type(spec_mnemonic_name(m)) == IdentifierType::Mnemonic(m),
{
}

/// The name `x0` to `x31` of a register.
pub open spec fn spec_register_name(r: Register) -> Seq<u8> {
    let i = r.spec_index();
    if i < 10 {
        seq![120u8, (48 + i) as u8]
    } else {
        seq![120u8, (48 + i / 10) as u8, (48 + i % 10) as u8]
    }
}

/// The name of every register is read back as that register, by the lexer too.
pub proof fn lemma_register_name(r: Register)
    ensures
        spec_register_of(spec_register_name(r)) == Some(r),
        spec_identifier_type(spec_register_name(r)) == IdentifierType::Register(r),
{
    crate::isa::register::lemma_register_index_roundtrip(r);
    let n = spec_register_name(r);
    let i = r.spec_index();
    if i >= 10 {
        assert(((n[1] - 48) * 10 + (n[2] - 48)) == i);
    }
    assert(spec_mnemonic_of(n) is None);
}

/// Whether `b` is an ASCII decimal digit.
pub open spec fn is_digit(b: u8) -> bool {
    48 <= b <= 57
}

/// The register named `name` (`x0` to `x31`), if any.
pub open spec fn spec_register_of(name: Seq<u8>) -> Option<Register> {
    if name.len() == 2 && name[0] == 120 && is_digit(name[1]) {
        Some(spec_register((name[1] - 48) as u32))
    } else if name.len() == 3 && name[0] == 120 && 49 <= name[1] <= 51 && is_digit(name[2]) && (
    name[1] - 48) * 10 + (name[2] - 48) < 32 {
        Some(spec_register(((name[1] - 48) * 10 + (name[2] - 48)) as u32))
    } else {
        None
    }
}

/// The identifier type of `name`: a mnemonic, else a register, else a symbol.
pub open spec fn spec_identifier_type(name: Seq<u8>) -> IdentifierType {
    match spec_mnemonic_of(name) {
        Some(m) => IdentifierType::Mnemonic(m),
        None => match spec_register_of(name) {
            Some(r) => IdentifierType::Register(r),
            None => IdentifierType::Symbol,
        },
    }
}

/// The mnemonic whose lower-case name is `name`, if any.
pub fn mnemonic_of(name: &[u8]) -> (r: Option<Mnemonic>)
    ensures
        r == spec_mnemonic_of(name@),
{
    if bytes_eq(name, [97u8, 100u8, 100u8].as_slice()) {
        return Some(Mnemonic::Add);
    }
    if bytes_eq(name, [115u8, 117u8, 98u8].as_slice()) {
        return Some(Mnemonic::Sub);
    }
    if bytes_eq(name, [109u8, 117u8, 108u8].as_slice()) {
        return Some(Mnemonic::Mul);
    }
    if bytes_eq(name, [97u8, 110u8, 100u8].as_slice()) {
        return Some(Mnemonic::And);
    }
    if bytes_eq(name, [111u8, 114u8].as_slice()) {
        return Some(Mnemonic::Or);
    }
    if bytes_eq(name, [120u8, 111u8, 114u8].as_slice()) {
        return Some(Mnemonic::Xor);
    }
    if bytes_eq(name, [115u8, 104u8, 108u8].as_slice()) {
        return Some(Mnemonic::Shl);
    }
    if bytes_eq(name, [115u8, 104u8, 114u8].as_slice()) {
        return Some(Mnemonic::Shr);
    }
    if bytes_eq(name, [115u8, 104u8, 114u8, 97u8].as_slice()) {
        return Some(Mnemonic::ShrA);
    }
    if bytes_eq(name, [97u8, 100u8, 100u8, 105u8].as_slice()) {
        return Some(Mnemonic::AddI);
    }
    if bytes_eq(name, [108u8, 117u8, 105u8].as_slice()) {
        return Some(Mnemonic::Lui);
    }
    if bytes_eq(name, [108u8, 119u8].as_slice()) {
        return Some(Mnemonic::Lw);
    }
    if bytes_eq(name, [115u8, 119u8].as_slice()) {
        return Some(Mnemonic::Sw);
    }
    if bytes_eq(name, [115u8, 121u8, 115u8, 99u8, 97u8, 108u8, 108u8].as_slice()) {
        return Some(Mnemonic::Syscall);
    }
    None
}

/// The register named `name`, if any.
pub fn register_of(name: &[u8]) -> (r: Option<Register>)
    ensures
        r == spec_register_of(name@),
{
    if name.len() == 2 && name[0] == 120 && name[1] >= 48 && name[1] <= 57 {
        Some(Register::from_u32((name[1] - 48) as u32))
    } else if name.len() == 3 && name[0] == 120 && name[1] >= 49 && name[1] <= 51 && name[2] >= 48
        && name[2] <= 57 && ((name[1] - 48) as u32 * 10 + (name[2] - 48) as u32) < 32 {
        Some(Register::from_u32((name[1] - 48) as u32 * 10 + (name[2] - 48) as u32))
    } else {
        None
    }
}

impl IdentifierType {
    /// Classify an identifier.
    pub fn from_bytes(value: &[u8]) -> (r: IdentifierType)
        ensures
            r == spec_identifier_type(value@),
    {
        if let Some(m) = mnemonic_of(value) {
            return IdentifierType::Mnemonic(m);
        }
        if let Some(r) = register_of(value) {
            return IdentifierType::Register(r);
        }
        IdentifierType::Symbol
    }
}

/// Whether `b` is not a decimal digit.
pub fn on_decimal(b: &u8) -> (r: bool)
    ensures
        r == !is_digit(*b),
{
    !(*b >= 48 && *b <= 57)
}

/// Whether `b` is neither `0` nor `1`.
pub fn on_bin(b: &u8) -> (r: bool)
    ensures
        r == !(*b == 48 || *b == 49),
{
    *b != 48 && *b != 49
}

/// Whether `b` is an ASCII hexadecimal digit.
pub open spec fn is_hex_digit(b: u8) -> bool {
    is_digit(b) || 65 <= b <= 70 || 97 <= b <= 102
}

/// Whether `b` is not a hexadecimal digit.
pub fn on_hex(b: &u8) -> (r: bool)
    ensures
        r == !is_hex_digit(*b),
{
    !((*b >= 48 && *b <= 57) || (*b >= 65 && *b <= 70) || (*b >= 97 && *b <= 102))
}

/// The kinds of integer literal.
#[derive(Debug, Clone, Copy, PartialEq, Eq, Structural)]
pub enum LiteralIntegerType {
    Decimal,
    Hex,
    Binary,
    Unknown,
}

/// Whether `b` is a digit of a literal of kind `id` (0 decimal, 1 hex, else binary).
pub open spec fn is_literal_digit(id: u8, b: u8) -> bool {
    if id == 0 {
        is_digit(b)
    } else if id == 1 {
        is_hex_digit(b)
    } else {
        b == 48 || b == 49
    }
}

/// The length of the prefix of a literal of kind `id`: none for decimal, `0x`/`0b` else.
pub open spec fn spec_head_len(id: u8) -> nat {
    if id == 0 {
        0
    } else {
        2
    }
}

impl LiteralIntegerType {
    /// Whether `b` is not a digit of a literal of kind `id`.
    pub fn cb(id: u8, b: &u8) -> (r: bool)
        ensures
            r == !is_literal_digit(id, *b),
    {
        if id == 0 {
            on_decimal(b)
        } else if id == 1 {
            on_hex(b)
        } else {
            on_bin(b)
        }
    }

    /// The length of the "head" e.g. hex: `0x`, bin: `0b`.
    pub fn head_len(id: u8) -> (r: usize)
        ensures
            r == spec_head_len(id),
    {
        if id == 0 {
            0
        } else {
            2
        }
    }

    /// The bytes after the sign and the head.
    pub fn filter(bytes: &[u8], head: usize) -> (r: &[u8])
        requires
            bytes@.len() >= 1,
            head + 1 <= bytes@.len(),
        ensures
            r@ == bytes@.subrange(
                (if bytes@[0] == 45 {
                    head + 1
                } else {
                    head as int
                }),
                bytes@.len() as int,
            ),
    {
        let mut head = head;
        if Self::is_signed(bytes[0]) {
            head += 1;
        }
        vstd::slice::slice_subrange(bytes, head, bytes.len())
    }

    /// The radix.
    pub fn base(&self) -> (r: u32)
        ensures
            r == (match self {
                LiteralIntegerType::Decimal => 10u32,
                LiteralIntegerType::Hex => 16u32,
                LiteralIntegerType::Binary => 2u32,
                LiteralIntegerType::Unknown => 0u32,
            }),
    {
        match self {
            LiteralIntegerType::Decimal => 10,
            LiteralIntegerType::Hex => 16,
            LiteralIntegerType::Binary => 2,
            LiteralIntegerType::Unknown => 0,
        }
    }

    /// Whether a literal starting with `byte` is negative.
    pub fn is_signed(byte: u8) -> (r: bool)
        ensures
            r == (byte == 45),
    {
        byte == 45
    }

    /// The length of sign and head of a literal of kind `id` whose first byte is `first`.
    pub fn prefix_len(first: u8, id: u8) -> (r: usize)
        ensures
            r == spec_head_len(id) + (if first == 45 { 1int } else { 0int }),
    {
        Self::head_len(id) + if Self::is_signed(first) {
            1
        } else {
            0
        }
    }

    /// The number of the kind: decimal 0, hex 1, binary 2, unknown 3.
    pub fn id(&self) -> (r: u8)
        ensures
            r == (match self {
                LiteralIntegerType::Decimal => 0u8,
                LiteralIntegerType::Hex => 1u8,
                LiteralIntegerType::Binary => 2u8,
                LiteralIntegerType::Unknown => 3u8,
            }),
    {
        match self {
            LiteralIntegerType::Decimal => 0,
            LiteralIntegerType::Hex => 1,
            LiteralIntegerType::Binary => 2,
            LiteralIntegerType::Unknown => 3,
        }
    }

    /// The kind of a literal token.
    pub fn from_token(value: Token) -> (r: LiteralIntegerType)
        ensures
            r == (match value {
                Token::LiteralDecimal => LiteralIntegerType::Decimal,
                Token::LiteralHex => LiteralIntegerType::Hex,
                Token::LiteralBinary => LiteralIntegerType::Binary,
                _ => LiteralIntegerType::Unknown,
            }),
    {
        match value {
            Token::LiteralDecimal => LiteralIntegerType::Decimal,
            Token::LiteralHex => LiteralIntegerType::Hex,
            Token::LiteralBinary => LiteralIntegerType::Binary,
            _ => LiteralIntegerType::Unknown,
        }
    }
}

} // verus!
