use asmvm::assembler::assembly::section::{Section, SectionId, SectionTag, SectionType};
use asmvm::assembler::interner::StrId;
use asmvm::assembler::symbol_table::{SymbolError, SymbolTable, Visibility};
use asmvm::bytevm::memory::{LinearMemory, Mem};
use asmvm::bytevm::register::instruction::{InstructionHandler, Opcode};
use asmvm::bytevm::vm::VM as ByteVm;
use asmvm::shared::VMInstruction;
use asmvm::vm::register::instruction::{Instruction as OldInstruction, Operand};
use asmvm::vm::register::Register as OldRegister;

#[test]
fn test_opcode() {
    let nop = OldInstruction::Nop;
    let halt = OldInstruction::Halt;
    assert_eq!(nop.opcode(), 0xff);
    assert_eq!(halt.opcode(), 0x0);
}

#[test]
fn test_encodings() {
    let ops: Vec<OldInstruction> = vec![
        OldInstruction::Add {
            dest: OldRegister::X1,
            src1: Operand::Immediate(1),
            src2: Operand::Immediate(2),
        },
        OldInstruction::Sub {
            dest: OldRegister::X1,
            src1: Operand::Immediate(1),
            src2: Operand::Immediate(2),
        },
        OldInstruction::Mul {
            dest: OldRegister::X1,
            src1: Operand::Immediate(1),
            src2: Operand::Immediate(2),
        },
        OldInstruction::And {
            dest: OldRegister::X1,
            src1: Operand::Immediate(1),
            src2: Operand::Immediate(2),
        },
        OldInstruction::Or {
            dest: OldRegister::X1,
            src1: Operand::Immediate(1),
            src2: Operand::Immediate(2),
        },
    ];
    let opcodes: Vec<u8> = ops.iter().map(|o| o.opcode()).collect();
    assert_eq!(opcodes, vec![1, 2, 3, 4, 5]);
}

#[test]
fn old_operands() {
    assert_eq!(Operand::from_u32(0), Operand::Register(OldRegister::Zero));
    assert_eq!(Operand::from_u32(1), Operand::Immediate(1));
    assert_eq!(Operand::from_u32(2), Operand::Address(2));
    assert_eq!(Operand::from_u32(7), Operand::LabelRef(0));
    assert_eq!(OldRegister::from_u32(7), OldRegister::BP);
    assert_eq!(Operand::Register(OldRegister::RA).bitand(0xff), 9);
}

#[test]
fn bytevm_runs_and_memory() {
    let mut vm = ByteVm::new(16);
    assert_eq!(vm.run(), Ok(()));
    assert_eq!(vm.fetch(0), Opcode::HLT);
    assert_eq!(vm.fetch(7), Opcode::IGL);

    let mut m = LinearMemory::new(8);
    Mem::<u32>::write(&mut m, 2, 0x0403_0201).unwrap();
    let b: u8 = Mem::<u8>::read(&m, 2).unwrap();
    assert_eq!(b, 1);
    let h: u16 = Mem::<u16>::read(&m, 3).unwrap();
    assert_eq!(h, 0x0302);
    let w: u32 = Mem::<u32>::read(&m, 2).unwrap();
    assert_eq!(w, 0x0403_0201);
    assert_eq!(m.size(), 8);
}

#[test]
fn sections_and_symbols() {
    let bss = Section::new(SectionTag::new(StrId(0), SectionType::Bss), SectionId::new(3));
    assert_eq!(bss.flags.bits(), 3);
    assert_eq!(bss.alignment.value, 1);
    let text = Section::new(SectionTag::new(StrId(1), SectionType::Text), SectionId::new(0));
    assert_eq!(text.flags.bits(), 6);
    assert_eq!(text.alignment.value, 4);
    let data = Section::new(SectionTag::new(StrId(2), SectionType::Data), SectionId::new(1));
    assert_eq!(data.flags.bits(), 3);
    let rodata = Section::new(SectionTag::new(StrId(3), SectionType::Rodata), SectionId::new(2));
    assert_eq!(rodata.flags.bits(), 2);

    let mut table = SymbolTable::new();
    table.declare_global(SectionId(0), StrId(5), b"main").unwrap();
    assert!(table.pending_global(StrId(5)).is_some());
    table.insert(SectionId(0), StrId(5), b"main").unwrap();
    assert!(table.pending_global(StrId(5)).is_none());
    assert_eq!(
        table.insert(SectionId(0), StrId(5), b"main"),
        Err(SymbolError::DuplicateSymbol(b"main".to_vec()))
    );
    assert_eq!(
        table.declare_global(SectionId(0), StrId(5), b"main"),
        Err(SymbolError::DuplicateSymbol(b"main".to_vec()))
    );
    table.insert(SectionId(1), StrId(6), b"loop").unwrap();
    table.declare_global(SectionId(1), StrId(6), b"loop").unwrap();
    assert_eq!(table.globals().len(), 2);
    let locals = table.locals();
    assert_eq!(locals.get(&1).unwrap()[0].vis, Visibility::Global);
}
