use asmvm::isa::instruction::{Codec, Instruction, Mnemonic};
use asmvm::isa::operand::{Immediate14, Immediate19, ImmediateValueError};
use asmvm::isa::Register;
use asmvm::shared::{DecodeError, VMInstruction};

#[test]
fn instruction_t_opcode() {
    let op1 = Instruction::Lui {
        dest: Register::X0,
        value: Immediate19::new(150),
    }
    .encode() as u8;

    assert_eq!(op1.to_le_bytes(), 0xff_u8.to_le_bytes());
}

#[test]
fn instruction_t_encode_decode() -> Result<(), DecodeError> {
    let ins: Vec<Instruction> = vec![
        Instruction::Add {
            dest: Register::X10,
            src1: Register::X11,
            src2: Register::X12,
        },
        Instruction::Lui {
            dest: Register::X5,
            value: Immediate19::new(150),
        },
        Instruction::Lui {
            dest: Register::X5,
            value: Immediate19::new(150),
        },
        Instruction::AddI {
            dest: Register::X10,
            src: Register::X11,
            value: Immediate14::new(-31),
        },
        Instruction::Syscall {
            src1: Register::X11,
            src2: Register::X12,
            src3: Register::X13,
        },
    ];

    let encoded: Vec<u32> = ins.iter().map(|x| x.encode()).collect();
    for (l, r) in ins.iter().zip(encoded.iter()) {
        println!("instruction: {:?}, memory representation: {1}", l, r);
        let decoded = Instruction::try_from(*r)?;
        assert_eq!(*l, decoded);
    }
    Ok(())
}

#[test]
fn operand_t_imm() {
    let imm = Immediate14::new(-31);
    let result = imm.encode(0x3FFF, 18);
    assert_eq!(result, 0xFF840000);

    let result = Immediate14::decode(4286958867, 18, 0x3FFF);
    assert_eq!(result, imm);
}

#[test]
fn isa_encode_exact_words() {
    let add = Instruction::Add {
        dest: Register::X1,
        src1: Register::X2,
        src2: Register::X3,
    };
    assert_eq!(add.encode(), 0x1 | (1 << 8) | (2 << 13) | (3 << 18));
    let lw = Instruction::Lw {
        dest: Register::X1,
        src: Register::X2,
        offset: Immediate14::new(-1),
    };
    assert_eq!(lw.encode(), 0xc | (1 << 8) | (2 << 13) | (0x3fff << 18));
    assert_eq!(Instruction::try_from(lw.encode()), Ok(lw));
    assert_eq!(lw.opcode(), 0xc);
    assert_eq!(lw.mnemonic(), Mnemonic::Lw);
}

#[test]
fn isa_decode_unknown_opcode() {
    assert_eq!(Instruction::try_from(0x42), Err(DecodeError::UnknownOpcode(0x42)));
}

#[test]
fn isa_immediate_range() {
    assert_eq!(Immediate14::try_new(8191).map(|i| i.value()), Ok(8191));
    assert_eq!(
        Immediate14::try_new(8192),
        Err(ImmediateValueError::OutOfRange { value: 8192, bits: 14 })
    );
    assert_eq!(
        Immediate19::try_new(-262145),
        Err(ImmediateValueError::OutOfRange { value: -262145, bits: 19 })
    );
    assert_eq!(Immediate19::decode(0x7ffff << 13, 13, 0x7ffff).value(), -1);
}

#[test]
fn isa_register_codec() {
    assert_eq!(Register::X31.encode(0x1f, 8), 31 << 8);
    assert_eq!(Register::decode(31 << 8, 8, 0x1f), Register::X31);
    assert_eq!(Register::from_u32(40), Register::X0);
}
