use asmvm::isa::instruction::Instruction;
use asmvm::isa::instruction::Instruction::{AddI, Lui, Lw, Sw, Syscall};
use asmvm::isa::operand::{Immediate14, Immediate19};
use asmvm::isa::Register;
use asmvm::shared::{DecodeError, VMInstruction};
use asmvm::vm::instruction::register::Register as AbiRegister;
use asmvm::vm::instruction::Instruction as LiInstruction;
use asmvm::vm::memory::MemoryConfiguration;
use asmvm::vm::vm::VM;

const CASES: [(i32, i32); 10] = [
    (1, 1),
    (2, 2),
    (12, -1),
    (-2, 4),
    (-32, -33),
    (111, -112),
    (-1000, 52),
    (-201, -97),
    (333, 333),
    (300, 20),
];

#[test]
fn t_arith() {
    let size = 1024 * 1024;

    let mut vm = VM::new(MemoryConfiguration::new(size));
    for (a, b) in CASES {
        let program = &[
            AddI {
                dest: Register::T2,
                src: Register::Zero,
                value: Immediate14::new(a),
            },
            AddI {
                dest: Register::T3,
                src: Register::T2,
                value: Immediate14::new(b),
            },
            Syscall {
                src1: Register::Zero,
                src2: Register::Zero,
                src3: Register::Zero,
            },
        ];

        match vm.test_run(program) {
            Ok(_) => {}
            Err(e) => println!("Test run went wrong {:?}", e),
        }
        println!("\n");
        assert_eq!(
            vm.cpu.registers.get(Register::T3),
            (a + b) as u32,
            "Variable: {a} and {b}"
        );
        vm.reset();
    }
}

#[test]
fn t_load_store_on_the_stack() {
    let size = 1024 * 1024;

    let mut vm = VM::new(MemoryConfiguration::new(size));

    let program: &[Instruction] = &[
        AddI {
            dest: Register::RA,
            src: Register::Zero,
            value: Immediate14::new(5),
        },
        AddI {
            dest: Register::S0,
            src: Register::Zero,
            value: Immediate14::new(13),
        },
        AddI {
            dest: Register::SP,
            src: Register::SP,
            value: Immediate14::new(-15),
        },
        Sw {
            dest: Register::SP,
            src: Register::RA,
            offset: Immediate14::new(0),
        },
        Sw {
            dest: Register::SP,
            src: Register::S0,
            offset: Immediate14::new(4),
        },
        Lui {
            dest: Register::T0,
            value: Immediate19::new(43),
        },
        Sw {
            dest: Register::SP,
            src: Register::T0,
            offset: Immediate14::new(8),
        },
        Lw {
            dest: Register::T1,
            src: Register::SP,
            offset: Immediate14::new(0),
        },
        Lw {
            dest: Register::T2,
            src: Register::SP,
            offset: Immediate14::new(4),
        },
        Lw {
            dest: Register::T3,
            src: Register::SP,
            offset: Immediate14::new(8),
        },
        Syscall {
            src1: Register::Zero,
            src2: Register::Zero,
            src3: Register::Zero,
        },
    ];

    match vm.test_run(program) {
        Ok(_) => {}
        Err(e) => println!("Test run went wrong {:?}", e),
    }

    assert_eq!(vm.cpu.registers.get(Register::T1), 5);
    assert_eq!(vm.cpu.registers.get(Register::S0), 13);
    assert_eq!(vm.cpu.registers.get(Register::T0), 43);
    vm.reset();
}

#[test]
fn mod_t_opcode() {
    let op1 = LiInstruction::Li {
        dest: AbiRegister::Zero,
        value: 150,
    }
    .encode() as u8;

    assert_eq!(op1.to_le_bytes(), 0xff_u8.to_le_bytes());
}

#[test]
fn t_overflow_todo() {}

#[test]
fn mod_t_encode_decode() -> Result<(), DecodeError> {
    let ops: Vec<LiInstruction> = vec![
        LiInstruction::Add {
            dest: AbiRegister::A0,
            src1: AbiRegister::A1,
            src2: AbiRegister::A2,
        },
        LiInstruction::Li {
            dest: AbiRegister::T0,
            value: 150,
        },
        LiInstruction::AddI {
            dest: AbiRegister::A0,
            src: AbiRegister::A1,
            value: 13,
        },
        LiInstruction::Syscall {
            src1: AbiRegister::A1,
            src2: AbiRegister::A2,
            src3: AbiRegister::A3,
        },
    ];

    let encoded: Vec<u32> = ops.iter().map(|x| x.encode()).collect();
    for (i, (l, r)) in ops.iter().zip(encoded.iter()).enumerate() {
        println!("{i} instruction: {:?}, memory representation: {1}", l, r);
        let decoded = LiInstruction::try_from(*r)?;
        println!("Decoded: {:?}", decoded);
        assert_eq!(*l, decoded);
    }
    Ok(())
}

#[test]
fn t_memory_translation() {}

#[test]
fn li_isa_opcodes_and_fields() {
    let i = LiInstruction::LoadWord {
        dest: AbiRegister::A7,
        src: AbiRegister::SP,
        offset: 0x3fff,
    };
    assert_eq!(i.opcode(), 0xc);
    assert_eq!(i.encode(), 0xc | (17 << 8) | (2 << 13) | (0x3fff << 18));
    assert_eq!(LiInstruction::try_from(i.encode()), Ok(i));
    assert_eq!(LiInstruction::try_from(0x10), Err(DecodeError::UnknownOpcode(0x10)));
    assert_eq!(AbiRegister::from_u32(31), AbiRegister::Zero);
}

#[test]
fn vm_lui_and_shift() {
    let mut vm = VM::new(MemoryConfiguration::new(4096));
    let program = &[
        Lui {
            dest: Register::T0,
            value: Immediate19::new(-2),
        },
        Syscall {
            src1: Register::Zero,
            src2: Register::Zero,
            src3: Register::Zero,
        },
    ];
    assert!(vm.test_run(program).is_ok());
    assert_eq!(vm.cpu.registers.get(Register::T0), (-2i32) as u32);
}
