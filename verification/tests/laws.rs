use asmvm::assembler::assembly::section::SectionId;
use asmvm::assembler::lexer::Lexer;
use asmvm::assembler::parser::Parser;
use asmvm::bytevm::register::pc::ProgramCounter as BytePc;
use asmvm::shared::RangeChunks;
use asmvm::vm::cpu::ProgramCounter;
use asmvm::vm::memory::{LinearMemory, MemoryManager, ReadWrite};

#[test]
fn slice_reset_to_clamps_to_last_index() {
    let lexemes = Lexer::new().tokenize(b"add x1, x2").unwrap();
    let mut s = lexemes.slice(1..4).unwrap();
    assert_eq!(s.token_len(), 3);
    s.reset_to(10);
    assert_eq!(s.len(), 1);
    s.reset_to(3);
    assert_eq!(s.len(), 0);
    s.reset_to(1);
    assert_eq!(s.len(), 2);
    let mut empty = lexemes.slice(2..2).unwrap();
    empty.reset_to(5);
    assert_eq!(empty.len(), 0);
}

#[test]
fn slice_remainder_range_ends_with_the_slice() {
    let lexemes = Lexer::new().tokenize(b"add x1, x2").unwrap();
    let mut s = lexemes.slice(1..4).unwrap();
    assert_eq!(s.remainder_range(), 1..4);
    s.next();
    assert_eq!(s.remainder_range(), 2..4);
}

#[test]
fn chunks_cover_the_range() {
    let mut c = (0usize..10).chunks(4);
    assert_eq!(c.next(), Some(0..4));
    assert_eq!(c.next(), Some(4..8));
    assert_eq!(c.next(), Some(8..10));
    assert_eq!(c.next(), None);
    let mut e = (5usize..5).chunks(3);
    assert_eq!(e.next(), None);
}

#[test]
fn read_after_write_with_other_writes_between() {
    let mut m = MemoryManager::new(64);
    m.write(8, 0x1122_3344).unwrap();
    m.write(12, 7).unwrap();
    m.write(4, 9).unwrap();
    assert_eq!(m.read(8).unwrap(), 0x1122_3344);
    assert_eq!(m.size(), 16);
}

#[test]
fn linear_memory_size_after_writes() {
    let mut mem = LinearMemory::new(64);
    assert_eq!(mem.size(), 0);
    ReadWrite::<u32>::write(&mut mem, 8, 1).unwrap();
    assert_eq!(mem.size(), 12);
    ReadWrite::<u32>::write(&mut mem, 0, 2).unwrap();
    assert_eq!(mem.size(), 12);
    ReadWrite::<u32>::write(&mut mem, 20, 3).unwrap();
    assert_eq!(mem.size(), 24);
}

#[test]
fn counters_after_increments() {
    let mut pc = ProgramCounter::new();
    for _ in 0..5 {
        pc.increment();
    }
    assert_eq!(pc.value(), 20);
    let mut bpc = BytePc::new();
    for _ in 0..5 {
        bpc.increment();
    }
    assert_eq!(bpc.count(), 5);
}

#[test]
fn parsed_sections_carry_their_flags() {
    let source: &[u8] = b".data\n.text\n";
    let lexemes = Lexer::new().tokenize(source).unwrap();
    let mut p = Parser::new(source, lexemes);
    let mut ir = p.parse().unwrap();
    let data = *ir.sections_mut().lookup(SectionId::new(0));
    assert_eq!(data.flags.bits(), 3);
    assert_eq!(data.alignment.value, 1);
    let text = *ir.sections_mut().lookup(SectionId::new(1));
    assert_eq!(text.flags.bits(), 6);
    assert_eq!(text.alignment.value, 4);
}
