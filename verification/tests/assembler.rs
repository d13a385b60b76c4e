use asmvm::assembler::assembly::directive::DirectiveType;
use asmvm::assembler::helper::{parse_int, IntErrorKind};
use asmvm::assembler::instruction::{Operand, OperandError};
use asmvm::assembler::interner::{Interner, StrId};
use asmvm::assembler::ir::Node;
use asmvm::assembler::lexer::Lexer;
use asmvm::assembler::parser::grammar::RuleToken;
use asmvm::assembler::parser::{Parser, ParserError, RuntimeTodo};
use asmvm::assembler::token::{IdentifierType, LexingError, Token};
use asmvm::assembler::{Assembler, AssemblerError};
use asmvm::isa::instruction::Mnemonic;
use asmvm::isa::Register;

#[test]
fn t_tokenize() {
    let lex = Lexer::new();

    let raw_source = r#"
        .section .data
        main: add x1, x2, x3
            0x1000MP # invalid literal bin
            99beto // invalid literal decimal
            0b11kl // invalid literal Binary
            lw x5, 0x1000(x0)
            
            addi x5, x6, 10
            # my_symbol x11, x22, 11 //this is a wrong instruction pattern
            # sw x7, 0x2000(x9) // invalid literal Hex
            # eds0110xFF //valid symbol
            # addi x6, 0x2000(x4)
            # lui x6, 0b111(x4)
            lw x1, 10(x5)
            sw x1, 111(x5)
            lui x1, 0x1212
        "#;

    let source = raw_source.as_bytes();
    let tokens_result = lex.tokenize(source);
    assert!(tokens_result.is_err());
}

#[test]
fn t_parser() {
    let lex = Lexer::new();

    let raw_source = r#"
        .section .text
        .set symbol1, 1 + 2 - 3
        main:
            .global main
            addi x5, x6, my_symbol
            // my_symbol x11, x22, 11 //this is a wrong instruction pattern
            // eds0110xFF //valid symbol
            // sw x6, -2147483647(x4) //error too small imm value
            add x6, x0, x4
            lw x1, 10(x5)
            sw x1, 111(x5)
            lui x1, 0x1212
            // 0x1000MP # invalid literal bin
            // 99beto // invalid literal decimal
            // 0b11kl // invalid literal Binary
        // .set symbol5, 1 + 1 + 2 + 1 + 1 + 2 + 1 + 1
        .section .my_cust
        .section .bss
        .section .rodata
        .section .data
        "#;

    let source = raw_source.as_bytes();
    let lexemes = lex.tokenize(source).unwrap();

    let mut parser = Parser::new(source, lexemes);
    assert!(match parser.parse() {
        Ok(_) => true,
        Err(e) => panic!("{:?}", e),
    })
}

#[test]
fn t_parser_global() {
    let lex = Lexer::new();

    let raw_source = r#"
        .section .text
        // .set symbol1, 1 + 1
        main:
            .global main"#;

    let source = raw_source.as_bytes();
    let lexemes = lex.tokenize(source).unwrap();

    let mut parser = Parser::new(source, lexemes);
    assert!(match parser.parse() {
        Ok(_) => true,
        Err(e) => panic!("{:?}", e),
    })
}

#[test]
fn lexer_tokens_and_spans() {
    let source = b"main: addi x5, x6, -10 # c\n.text \"a\\\"b\"";
    let lexemes = Lexer::new().tokenize(source).unwrap();
    assert_eq!(
        lexemes.tokens(),
        &[
            Token::Label,
            Token::Identifier(IdentifierType::Mnemonic(Mnemonic::AddI)),
            Token::Identifier(IdentifierType::Register(Register::X5)),
            Token::Comma,
            Token::Identifier(IdentifierType::Register(Register::X6)),
            Token::Comma,
            Token::LiteralDecimal,
            Token::Eol,
            Token::Directive(DirectiveType::Text),
            Token::LiteralString,
            Token::Eof,
        ]
    );
    let spans: Vec<(usize, usize)> = lexemes.spans().iter().map(|r| (r.start, r.end)).collect();
    assert_eq!(spans[0], (0, 4));
    assert_eq!(spans[6], (19, 22));
    assert_eq!(spans[8], (28, 32));
    assert_eq!(spans[9], (34, 38));
    assert_eq!(spans[10], (38, 38));
}

#[test]
fn lexer_errors() {
    let lex = Lexer::new();
    assert_eq!(
        lex.tokenize(b".foo").err(),
        Some(LexingError::UnknownDirective(".foo".to_string(), 1))
    );
    assert_eq!(
        lex.tokenize(b"0x1000MP").err(),
        Some(LexingError::InvalidSuffix("MP".to_string(), 1))
    );
    assert_eq!(
        lex.tokenize(b"99beto").err(),
        Some(LexingError::InvalidSuffix("beto".to_string(), 1))
    );
    assert_eq!(
        lex.tokenize(b"0b11kl").err(),
        Some(LexingError::InvalidSuffix("kl".to_string(), 1))
    );
    assert_eq!(
        lex.tokenize(b"@").err(),
        Some(LexingError::UnknownSyntax("@".to_string(), 2))
    );
    assert_eq!(
        lex.tokenize(b"\n@").err(),
        Some(LexingError::UnknownSyntax("@".to_string(), 4))
    );
    assert_eq!(lex.tokenize("é".as_bytes()).err(), Some(LexingError::NonAsciiCharacter(2)));
    assert_eq!(lex.tokenize(b"").unwrap().len(), 0);
    let custom = lex.tokenize(b".section .mine").unwrap();
    assert_eq!(custom.tokens()[1], Token::Directive(DirectiveType::CustomSection));
}

#[test]
fn parser_errors() {
    let lex = Lexer::new();
    let parse = |s: &[u8]| {
        let l = lex.tokenize(s).unwrap();
        let mut p = Parser::new(s, l);
        p.parse().err()
    };
    assert_eq!(
        parse(b"add x1, x2"),
        Some(ParserError::UnexpectedToken { expected: RuleToken::Comma, found: Some(vec![]) })
    );
    assert_eq!(
        parse(b"add x1, x2, x3, x4"),
        Some(ParserError::UnexpectedToken { expected: RuleToken::Break, found: Some(b",".to_vec()) })
    );
    assert_eq!(
        parse(b".byte 1"),
        Some(ParserError::UnimplementedFeature(RuntimeTodo::Dir(DirectiveType::Byte)))
    );
    assert_eq!(parse(b".equ ab, 1\n.equ ab, 2"), None);
    assert_eq!(parse(b".set ab, 1\n.equ ab, 2"), None);
    assert_eq!(parse(b".set ab, 1\n.set ab, 2"), None);
    assert_eq!(parse(b"x1"), Some(ParserError::SyntaxError));
    assert_eq!(
        parse(b"addi x1, x2, 8192"),
        Some(ParserError::ValueError(OperandError::ImmediateError(
            asmvm::isa::operand::ImmediateValueError::OutOfRange { value: 8192, bits: 14 }
        )))
    );
    assert_eq!(
        parse(b".text x1"),
        Some(ParserError::UnexpectedToken {
            expected: RuleToken::Break,
            found: Some(b"register".to_vec())
        })
    );
}

#[test]
fn parser_builds_nodes() {
    let source = b".text\nmain: addi x5, x6, -10\n.global main\nsw x1, 4(x2)";
    let lexemes = Lexer::new().tokenize(source).unwrap();
    let mut parser = Parser::new(source, lexemes);
    let ir = parser.parse().unwrap();
    let nodes = ir.nodes();
    assert_eq!(nodes.len(), 5);
    assert!(matches!(nodes[0], Node::Section(_)));
    assert!(matches!(nodes[1], Node::Label(StrId(1))));
    assert!(matches!(nodes[2], Node::Instruction(_)));
    assert!(matches!(nodes[3], Node::Global(StrId(1))));
    assert!(matches!(nodes[4], Node::Instruction(_)));
    assert_eq!(ir.str_tab().lookup(StrId(0)), b"text");
    assert_eq!(ir.str_tab().lookup(StrId(1)), b"main");
}

#[test]
fn operand_reading() {
    assert!(matches!(
        Operand::try_from(Token::LiteralHex, asmvm::assembler::parser::grammar::OperandRuleType::RI, b"-0x10"),
        Ok(Operand::Imm19(i)) if i.value() == -16
    ));
    assert!(matches!(
        Operand::try_from(Token::LiteralDecimal, asmvm::assembler::parser::grammar::OperandRuleType::R3, b"5"),
        Ok(Operand::Empty)
    ));
    assert_eq!(parse_int(b"2147483648", 10, false, -0x8000_0000, 0x7fff_ffff), Err(IntErrorKind::PosOverflow));
    assert_eq!(parse_int(b"2147483648", 10, true, -0x8000_0000, 0x7fff_ffff), Ok(-2147483648));
    assert_eq!(parse_int(b"ff", 16, false, 0, 0xffff_ffff), Ok(255));
    assert_eq!(parse_int(b"102", 2, false, 0, 0xffff_ffff), Err(IntErrorKind::InvalidDigit));
}

#[test]
fn interner_roundtrip() {
    let mut interner = Interner::with_capacity(4);
    let a = interner.intern(b"alpha");
    let b = interner.intern(b"beta");
    let a2 = interner.intern(b"alpha");
    assert_eq!(a, a2);
    assert_ne!(a, b);
    assert_eq!(interner.lookup(a), b"alpha");
    assert_eq!(interner.lookup(b), b"beta");
    assert_eq!(interner.len(), 2);
}

#[test]
fn assembler_assemble() {
    let mut assembler = Assembler::new();
    assert_eq!(assembler.assemble(b"add x1, x2, x3\n"), Ok(()));
    assert!(matches!(assembler.assemble(b".nope"), Err(AssemblerError::LexerError(_))));
    assert!(matches!(assembler.assemble(b"x1 x2"), Err(AssemblerError::ParserErrorError(ParserError::SyntaxError))));
}

#[test]
fn sections_switch_back() {
    let source = b".text\n.data\n.text\n.section .extra\n.data";
    let lexemes = Lexer::new().tokenize(source).unwrap();
    let mut parser = Parser::new(source, lexemes);
    let ir = parser.parse().unwrap();
    let ids: Vec<u8> = ir
        .nodes()
        .iter()
        .map(|n| match n {
            Node::Section(s) => s.0,
            _ => 255,
        })
        .collect();
    assert_eq!(ids, vec![0, 1, 0, 2, 1]);
}

#[test]
fn lexer_reads_names() {
    let lexemes = Lexer::new().tokenize(b"syscall x31 .skip shra sum").unwrap();
    assert_eq!(
        lexemes.tokens(),
        &[
            Token::Identifier(IdentifierType::Mnemonic(Mnemonic::Syscall)),
            Token::Identifier(IdentifierType::Register(Register::X31)),
            Token::Directive(DirectiveType::Skip),
            Token::Identifier(IdentifierType::Mnemonic(Mnemonic::ShrA)),
            Token::Identifier(IdentifierType::Symbol),
            Token::Eof,
        ]
    );
    let symbols = lexemes.symbols();
    assert_eq!(symbols.len(), 1);
    assert_eq!((symbols[0].1.start, symbols[0].1.end), (23, 26));
}
