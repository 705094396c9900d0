use msp430_sim::asm_line::AsmLine;
use msp430_sim::ccode::CC;
use msp430_sim::get_verbs::{
    consume_rest_of_line, consume_whitespace, get_tokens, parse_initial_bytes, Global, ParseError,
};
use msp430_sim::operand::{Operand, Reg};
use msp430_sim::parse_operand::{parse_imm, parse_operand, parse_reg, parse_signed_int};
use msp430_sim::source_cursor::SourceCodeCursor;

fn cursor(s: &str) -> SourceCodeCursor {
    SourceCodeCursor::new(s.to_string())
}

#[test]
fn cursor_peeks_and_advances() {
    let mut c = cursor("ab\ncd");
    assert_eq!(c.peek(), Some('a'));
    assert_eq!(c.peek_nth(1), Some('a'));
    assert_eq!(c.peek_nth(3), Some('\n'));
    assert_eq!(c.peek_nth(6), None);
    assert!(c.begins_with("ab\n"));
    assert!(!c.begins_with("abc"));
    assert!(!c.begins_with("ab\ncde"));
    assert_eq!(c.next(), Some('a'));
    assert_eq!(c.next(), Some('b'));
    assert_eq!(c.peek(), Some('\n'));
    let mut e = cursor("");
    assert_eq!(e.peek(), None);
    assert_eq!(e.next(), None);
    assert!(e.begins_with(""));
}

#[test]
fn whitespace_and_line_ends() {
    let mut c = cursor(" \t x ; note\nnext");
    consume_whitespace(&mut c);
    assert_eq!(c.peek(), Some('x'));
    consume_rest_of_line(&mut c);
    assert_eq!(c.peek(), Some('n'));
    consume_rest_of_line(&mut c);
    assert_eq!(c.peek(), None);
}

#[test]
fn registers() {
    let mut c = cursor("r15,r4SP");
    assert_eq!(parse_reg(&mut c), Some(Reg::R15));
    assert_eq!(c.next(), Some(','));
    assert_eq!(parse_reg(&mut c), Some(Reg::R4));
    assert_eq!(parse_reg(&mut c), Some(Reg::SP));
    let mut c = cursor("r3");
    assert_eq!(parse_reg(&mut c), None);
    assert_eq!(c.peek(), Some('r'));
}

#[test]
fn immediates() {
    let mut c = cursor("#13,");
    assert_eq!(parse_imm(&mut c), Some(Operand::Imm(13)));
    assert_eq!(c.peek(), Some(','));
    let mut c = cursor("#65536");
    assert_eq!(parse_imm(&mut c), Some(Operand::ImmLabel("65536".to_string())));
    let mut c = cursor("#my_func\n");
    assert_eq!(parse_imm(&mut c), Some(Operand::ImmLabel("my_func".to_string())));
    assert_eq!(c.peek(), Some('\n'));
    let mut c = cursor("r5");
    assert_eq!(parse_imm(&mut c), None);
}

#[test]
fn signed_offsets() {
    let mut c = cursor("-4(r5)");
    assert_eq!(parse_signed_int(&mut c), Some(-4));
    assert_eq!(c.peek(), Some('('));
    let mut c = cursor("-32768");
    assert_eq!(parse_signed_int(&mut c), Some(-32768));
    let mut c = cursor("32768");
    assert_eq!(parse_signed_int(&mut c), None);
    assert_eq!(c.peek(), Some('3'));
    let mut c = cursor("x");
    assert_eq!(parse_signed_int(&mut c), None);
}

#[test]
fn operand_forms() {
    assert_eq!(parse_operand(&mut cursor("SR")), Ok(Operand::Reg(Reg::SR)));
    assert_eq!(parse_operand(&mut cursor("@r5+")), Ok(Operand::IndirectAutoInc(Reg::R5)));
    assert_eq!(parse_operand(&mut cursor("@r12")), Ok(Operand::Indirect(Reg::R12)));
    assert_eq!(parse_operand(&mut cursor("&g_x+0")), Ok(Operand::AbsLabel("g_x".to_string())));
    assert_eq!(parse_operand(&mut cursor("2(r15)")), Ok(Operand::IndexedReg(Reg::R15, 2)));
    assert_eq!(parse_operand(&mut cursor("-6(SP)")), Ok(Operand::IndexedReg(Reg::SP, -6)));
    assert_eq!(parse_operand(&mut cursor("#8")), Ok(Operand::Imm(8)));
    assert_eq!(parse_operand(&mut cursor("&g+1")), Err(ParseError::BadOperand));
    assert_eq!(parse_operand(&mut cursor("2(r3)")), Err(ParseError::BadOperand));
    assert_eq!(parse_operand(&mut cursor("@x")), Err(ParseError::BadOperand));
}

#[test]
fn bits_values() {
    let mut c = cursor(" 0x1234,16\n");
    assert_eq!(parse_initial_bytes(&mut c), Ok(vec![0x34, 0x12]));
    assert_eq!(c.peek(), Some('\n'));
    assert_eq!(parse_initial_bytes(&mut cursor("0x5,8")), Ok(vec![5]));
    assert_eq!(
        parse_initial_bytes(&mut cursor("0xffffffffffffffff,128")),
        Ok(vec![0xFF; 8])
    );
    assert_eq!(parse_initial_bytes(&mut cursor("12,8")), Err(ParseError::BadGlobal));
    assert_eq!(parse_initial_bytes(&mut cursor("0x12 8")), Err(ParseError::BadGlobal));
}

#[test]
fn listing_to_lines() {
    let src = "; generated listing\n        .text\ng:\n        .bits 0x0102,16\nmain:\n        MOV.W     #4,r15\n        MOV.B     &g+0,r14\n        JMP       main\n        RET\n        INC.W     r15\n        CALL      #f\n";
    let (globals, lines) = get_tokens(src.to_string()).unwrap();
    assert_eq!(globals, vec![Global { label: "g".to_string(), initial_bytes: vec![0x02, 0x01] }]);
    assert_eq!(
        lines,
        vec![
            AsmLine::Label("main".to_string()),
            AsmLine::MOV(Operand::Imm(4), Operand::Reg(Reg::R15), false),
            AsmLine::MOV(Operand::AbsLabel("g".to_string()), Operand::Reg(Reg::R14), true),
            AsmLine::Jump(CC::Unconditional, "main".to_string()),
            AsmLine::MOV(Operand::IndirectAutoInc(Reg::SP), Operand::Reg(Reg::PC), false),
            AsmLine::ADD(Operand::Imm(1), Operand::Reg(Reg::R15), false),
            AsmLine::CALL(Operand::ImmLabel("f".to_string()), false),
        ]
    );
}

#[test]
fn listing_errors() {
    assert_eq!(
        get_tokens("        FOO r4\n".to_string()),
        Err(ParseError::UnknownMnemonic("FOO".to_string()))
    );
    assert_eq!(get_tokens("        MOV r4 r5\n".to_string()), Err(ParseError::MissingComma));
    assert_eq!(get_tokens("        .bits 0x1,8\n".to_string()), Err(ParseError::BadGlobal));
    assert_eq!(get_tokens(String::new()), Ok((vec![], vec![])));
}

#[test]
fn parsed_listing_encodes_and_runs() {
    let src = "main:\n        MOV.W     #4660,r14\n        ADD.W     #1,r14\n        JMP       main\n";
    let (globals, lines) = get_tokens(src.to_string()).unwrap();
    let bytes = msp430_sim::byte_generator::generate_bytes(globals, lines).unwrap();
    let mut cpu_emu = msp430_sim::emulator::Emulator::new(&bytes);
    for _ in 0..4 {
        cpu_emu.run_one_instr().unwrap();
    }
    assert_eq!(cpu_emu.regs[14], 0x1235);
    assert_eq!(cpu_emu.regs[0], 12);
}
