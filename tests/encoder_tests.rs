use msp430_sim::asm_line::AsmLine;
use msp430_sim::get_verbs::Global;
use msp430_sim::byte_generator::{generate_bytes, EncodeError};
use msp430_sim::ccode::CC;
use msp430_sim::emulator::Emulator;
use msp430_sim::operand::{Operand, Reg};
use msp430_sim::stages::{exec_stage_1, exec_stage_2a, exec_stage_3a};

fn label(s: &str) -> AsmLine {
    AsmLine::Label(s.to_string())
}

#[test]
fn add_constant_four_is_one_word() {
    let lines = vec![label("main"), AsmLine::ADD(Operand::Imm(4), Operand::Reg(Reg::R5), false)];
    let bytes = generate_bytes(vec![], lines).unwrap();
    assert_eq!(bytes, vec![0x31, 0x40, 0x00, 0x80, 0x00, 0x3C, 0x25, 0x52]);
}

#[test]
fn constant_generator_values_take_no_word() {
    for v in [0u16, 1, 2, 4, 8, 0xFFFF] {
        let lines = vec![label("main"), AsmLine::MOV(Operand::Imm(v), Operand::Reg(Reg::R5), false)];
        assert_eq!(generate_bytes(vec![], lines).unwrap().len(), 8);
    }
    let lines = vec![label("main"), AsmLine::MOV(Operand::Imm(3), Operand::Reg(Reg::R5), false)];
    let bytes = generate_bytes(vec![], lines).unwrap();
    assert_eq!(bytes[6..], [0x35, 0x40, 0x03, 0x00]);
}

fn jump_over(n: usize) -> Result<Vec<u8>, EncodeError> {
    let mut lines = vec![label("main"), AsmLine::Jump(CC::Unconditional, "far".to_string())];
    for _ in 0..n {
        lines.push(AsmLine::MOV(Operand::Reg(Reg::R4), Operand::Reg(Reg::R5), false));
    }
    lines.push(label("far"));
    generate_bytes(vec![], lines)
}

#[test]
fn forward_jump_of_511_words_encodes() {
    let bytes = jump_over(511).unwrap();
    assert_eq!(bytes[6], 0xFF);
    assert_eq!(bytes[7], 0x3D);
}

#[test]
fn forward_jump_of_512_words_is_out_of_range() {
    let r = jump_over(512);
    assert!(matches!(r, Err(EncodeError::JumpOutOfRange(ref l)) if l == "far"));
}

#[test]
fn backward_jump_encodes_negative_displacement() {
    let lines = vec![
        label("main"),
        AsmLine::MOV(Operand::Reg(Reg::R4), Operand::Reg(Reg::R5), false),
        AsmLine::Jump(CC::NotEq, "main".to_string()),
    ];
    let bytes = generate_bytes(vec![], lines).unwrap();
    // the jump at 8 targets 4: -2 words, low ten bits 0x3FE, condition code 0
    assert_eq!(bytes[8], 0xFE);
    assert_eq!(bytes[9], 0x23);
}

#[test]
fn zero_index_encodes_as_indirect() {
    let a = vec![
        label("main"),
        AsmLine::MOV(Operand::IndexedReg(Reg::R7, 0), Operand::Reg(Reg::R5), false),
        AsmLine::PUSH(Operand::IndexedReg(Reg::R8, 0), false),
    ];
    let b = vec![
        label("main"),
        AsmLine::MOV(Operand::Indirect(Reg::R7), Operand::Reg(Reg::R5), false),
        AsmLine::PUSH(Operand::Indirect(Reg::R8), false),
    ];
    let ba = generate_bytes(vec![], a).unwrap();
    assert_eq!(ba, generate_bytes(vec![], b).unwrap());
    assert_eq!(ba.len(), 10);
    let c = vec![
        label("main"),
        AsmLine::MOV(Operand::IndexedReg(Reg::R7, 2), Operand::Reg(Reg::R5), false),
    ];
    assert_eq!(generate_bytes(vec![], c).unwrap()[6..], [0x15, 0x47, 0x02, 0x00]);
}

#[test]
fn words_are_little_endian() {
    let lines = vec![
        label("main"),
        AsmLine::MOV(Operand::Imm(0x1234), Operand::Abs(0xABCD), true),
    ];
    let bytes = generate_bytes(vec![], lines).unwrap();
    // MOV.B #0x1234,&0xABCD = 0x40F2
    assert_eq!(bytes[6..], [0xF2, 0x40, 0x34, 0x12, 0xCD, 0xAB]);
}

#[test]
fn globals_come_first_and_code_is_aligned() {
    let globals = vec![Global { label: "g".to_string(), initial_bytes: vec![1, 2, 3] }];
    let lines = vec![
        label("main"),
        AsmLine::MOV(Operand::AbsLabel("g".to_string()), Operand::Reg(Reg::R4), false),
    ];
    let bytes = generate_bytes(globals, lines).unwrap();
    assert_eq!(bytes.len(), 14);
    assert_eq!(bytes[6..10], [1, 2, 3, 0]);
    // MOV &g,R4 with g at offset 6
    assert_eq!(bytes[10..], [0x14, 0x42, 0x06, 0x00]);
    // main is at 10, recorded as 8: the jump at 4 goes 2 words ahead
    assert_eq!(bytes[4], 0x02);
    assert_eq!(bytes[5], 0x3C);
}

#[test]
fn call_to_label_takes_full_word() {
    let lines = vec![
        label("main"),
        AsmLine::CALL(Operand::ImmLabel("f".to_string()), false),
        label("f"),
        AsmLine::RRA(Operand::Reg(Reg::R4), false),
    ];
    let bytes = generate_bytes(vec![], lines).unwrap();
    // f is recorded at 10 - 2 = 8
    assert_eq!(bytes[6..], [0xB0, 0x12, 0x08, 0x00, 0x04, 0x11]);
}

#[test]
fn missing_main_is_unresolved() {
    let r = generate_bytes(vec![], vec![AsmLine::SWPB(Operand::Reg(Reg::R4), false)]);
    assert!(matches!(r, Err(EncodeError::UnresolvedLabel(ref l)) if l == "main"));
}

#[test]
fn misaligned_jump_target() {
    let globals = vec![
        Global { label: "a".to_string(), initial_bytes: vec![1] },
        Global { label: "b".to_string(), initial_bytes: vec![2] },
    ];
    let lines = vec![label("main"), AsmLine::Jump(CC::Eq, "b".to_string())];
    let r = generate_bytes(globals, lines);
    assert!(matches!(r, Err(EncodeError::MisalignedJump(ref l)) if l == "b"));
}

#[test]
fn invalid_destination_is_refused() {
    for dst in [
        Operand::Imm(5),
        Operand::Indirect(Reg::R4),
        Operand::IndirectAutoInc(Reg::R4),
        Operand::ImmLabel("main".to_string()),
    ] {
        let lines = vec![label("main"), AsmLine::MOV(Operand::Reg(Reg::R4), dst, false)];
        assert!(matches!(generate_bytes(vec![], lines), Err(EncodeError::InvalidDestination)));
    }
}

#[test]
fn unsupported_opcodes_are_refused() {
    let lines = vec![label("main"), AsmLine::RETI];
    assert!(matches!(generate_bytes(vec![], lines), Err(EncodeError::UnsupportedOpcode)));
    let lines = vec![
        label("main"),
        AsmLine::DADD(Operand::Reg(Reg::R4), Operand::Reg(Reg::R5), false),
    ];
    assert!(matches!(generate_bytes(vec![], lines), Err(EncodeError::UnsupportedOpcode)));
}

#[test]
fn encoded_program_runs() {
    let lines = vec![
        label("main"),
        AsmLine::MOV(Operand::Imm(0x1234), Operand::Reg(Reg::R14), false),
        AsmLine::CALL(Operand::ImmLabel("f".to_string()), false),
        AsmLine::Jump(CC::Unconditional, "main".to_string()),
        label("f"),
        AsmLine::ADD(Operand::Imm(1), Operand::Reg(Reg::R14), false),
        AsmLine::MOV(Operand::IndirectAutoInc(Reg::SP), Operand::Reg(Reg::PC), false),
    ];
    let bytes = generate_bytes(vec![], lines).unwrap();
    let mut cpu_emu = Emulator::new(&bytes);
    for _ in 0..6 {
        cpu_emu.run_one_instr().unwrap();
    }
    assert_eq!(cpu_emu.regs[14], 0x1235);
    assert_eq!(cpu_emu.regs[1], 0x8000);
    assert_eq!(cpu_emu.regs[0], 14);
    cpu_emu.run_one_instr().unwrap();
    assert_eq!(cpu_emu.regs[0], 6);
}

#[test]
fn condition_codes_and_operand_fields() {
    assert_eq!(CC::NotEq.to_bits_repr(), 0x0000);
    assert_eq!(CC::GreaterEq.to_bits_repr(), 0x1400);
    assert_eq!(CC::Unconditional.to_bits_repr(), 0x1C00);
    assert_eq!(Reg::R13.to_bits(), 13);
    assert_eq!(Operand::Imm(8).to_as_bits(), 0x30);
    assert_eq!(Operand::Imm(8).to_reg_bits(), 2);
    assert_eq!(Operand::Imm(0xFFFF).to_reg_bits(), 3);
    assert_eq!(Operand::Imm(0x7777).to_reg_bits(), 0);
    assert_eq!(Operand::IndirectAutoInc(Reg::R9).to_as_bits(), 0x30);
    assert_eq!(Operand::Abs(3).to_ad_bit(), Some(0x80));
    assert_eq!(Operand::Indirect(Reg::R4).to_ad_bit(), None);
    assert_eq!(Operand::IndexedReg(Reg::R4, -2).get_imm_word(), (Some(0xFFFE), None));
    assert_eq!(Operand::Imm(2).get_imm_word(), (None, None));
    assert_eq!(
        Operand::AbsLabel("x".to_string()).get_imm_word(),
        (Some(0), Some("x".to_string()))
    );
    assert_eq!(label("x").as_label_str(), "x");
}

#[test]
fn encoded_operands_decode_back() {
    let lines = vec![
        label("main"),
        AsmLine::MOV(Operand::IndexedReg(Reg::R7, 2), Operand::Abs(0x8000), true),
    ];
    let bytes = generate_bytes(vec![], lines).unwrap();
    let word = u16::from_le_bytes([bytes[6], bytes[7]]);
    let next_word = u16::from_le_bytes([bytes[8], bytes[9]]);
    let next_next_word = u16::from_le_bytes([bytes[10], bytes[11]]);
    let d = exec_stage_1(word);
    assert_eq!((d.opcode, d.src_addr_mode, d.src_reg_id), (4, 1, 7));
    assert_eq!((d.dst_addr_mode, d.dst_reg_id, d.is_byte_instr), (1, 2, true));
    let mut regs = vec![0u16; 16];
    regs[7] = 0x0100;
    let s2 = exec_stage_2a(word, next_word, d.src_addr_mode, d.src_reg_id, &regs);
    assert_eq!(s2.mem_read_addr_0, 0x0102);
    assert!(s2.used_instr_word_for_src);
    let s3 = exec_stage_3a(
        word,
        next_word,
        next_next_word,
        s2.used_instr_word_for_src,
        d.dst_addr_mode,
        d.dst_reg_id,
        &regs,
    );
    assert_eq!(s3.mem_read_addr_1, 0x8000);

    // the constant generator: #8 is SR in mode 3, #-1 is CG in mode 3
    let lines = vec![label("main"), AsmLine::PUSH(Operand::Imm(8), false)];
    let bytes = generate_bytes(vec![], lines).unwrap();
    let d = exec_stage_1(u16::from_le_bytes([bytes[6], bytes[7]]));
    assert_eq!((d.opcode, d.src_addr_mode, d.src_reg_id), (4, 3, 2));
}
