use msp430_sim::alu::{process_double_operand_w, process_single_operand_w};
use msp430_sim::emulator::Emulator;
use msp430_sim::stages::{exec_stage_1, exec_stage_4, ExecError};

fn convert_words_to_bytes(words: Vec<u16>) -> Vec<u8> {
    let mut bytes = Vec::new();
    for w in words {
        let [low, high] = w.to_le_bytes();
        bytes.push(low);
        bytes.push(high);
    }
    bytes
}

#[test]
fn test_call_and_ret() {
    let instrs: Vec<u16> = vec![
        0x4031, 0x8000, //  MOV.W  #0x8000,SP
        0x12B0, 0x000A, //  CALL  0x0000A
        0x403F, 0x1101, //  MOV.W  #0x1101,R15
        0x4130, // RET
    ];
    let mut cpu_emu = Emulator::new(&convert_words_to_bytes(instrs));

    cpu_emu.run_one_instr().unwrap();
    cpu_emu.run_one_instr().unwrap();
    assert_eq!(cpu_emu.regs[0], 0x000C);
    assert_eq!(cpu_emu.regs[1], 0x7FFE);
    assert_eq!(cpu_emu.mem[0x7FFE], 0x06);
    assert_eq!(cpu_emu.mem[0x7FFF], 0x00);
    cpu_emu.run_one_instr().unwrap();
    assert_eq!(cpu_emu.regs[0], 0x0008);
    assert_eq!(cpu_emu.regs[1], 0x8000);
    cpu_emu.run_one_instr().unwrap();
    assert_eq!(cpu_emu.regs[0], 0x000C);
    assert_eq!(cpu_emu.regs[1], 0x8000);
    assert_eq!(cpu_emu.regs[15], 0x1101);
}

#[test]
fn test_mov_imm() {
    let instrs: Vec<u16> = vec![0x4031, 0x8000]; //  MOV.W  #0x8000,SP
    let mut cpu_emu = Emulator::new(&convert_words_to_bytes(instrs));

    cpu_emu.run_one_instr().unwrap();
    assert_eq!(cpu_emu.regs[0], 4);
    assert_eq!(cpu_emu.regs[1], 0x8000);
}

#[test]
fn test_mov_between_regs() {
    let instrs: Vec<u16> = vec![0x403F, 0x8000, 0x4F0E];
    //  MOV.W  #0x8000,R15
    //  MOV.W R15,R14

    let mut cpu_emu = Emulator::new(&convert_words_to_bytes(instrs));

    cpu_emu.run_one_instr().unwrap();
    assert_eq!(cpu_emu.regs[0], 4);
    assert_eq!(cpu_emu.regs[15], 0x8000);
    cpu_emu.run_one_instr().unwrap();
    assert_eq!(cpu_emu.regs[0], 6);
    assert_eq!(cpu_emu.regs[15], 0x8000);
    assert_eq!(cpu_emu.regs[14], 0x8000);
}

#[test]
fn test_indirect_addressing() {
    let instrs: Vec<u16> = vec![0x403F, 0x8000, 0x40BF, 0x1234, 0x0000];
    //  MOV.W  #0x8000,R15
    //  MOV.W  #0x1234,@R15

    let mut cpu_emu = Emulator::new(&convert_words_to_bytes(instrs));
    cpu_emu.run_one_instr().unwrap();
    assert_eq!(cpu_emu.regs[0], 4);
    cpu_emu.run_one_instr().unwrap();
    assert_eq!(cpu_emu.regs[0], 0xA);
    assert_eq!(cpu_emu.mem[0x8000], 0x34);
    assert_eq!(cpu_emu.mem[0x8001], 0x12);
}

#[test]
fn test_indirect_auto_inc_addressing() {
    let instrs: Vec<u16> = vec![0x403F, 0x8000, 0x40BF, 0x1234, 0x0000, 0x4F3E];
    //  MOV.W  #0x8000,R15
    //  MOV.W  #0x1234,@R15
    //  MOV.W  @R15+,R14

    let mut cpu_emu = Emulator::new(&convert_words_to_bytes(instrs));
    cpu_emu.run_one_instr().unwrap();
    assert_eq!(cpu_emu.regs[0], 4);
    cpu_emu.run_one_instr().unwrap();
    assert_eq!(cpu_emu.regs[0], 0xA);
    assert_eq!(cpu_emu.mem[0x8000], 0x34);
    assert_eq!(cpu_emu.mem[0x8001], 0x12);
    cpu_emu.run_one_instr().unwrap();
    assert_eq!(cpu_emu.regs[0], 0xC);
    assert_eq!(cpu_emu.regs[15], 0x8002);
    assert_eq!(cpu_emu.regs[14], 0x1234);
}

#[test]
fn test_abs_addressing() {
    let instrs: Vec<u16> = vec![
        0x403F, 0x8000, //  MOV.W  #0x8000,R15
        0x40BF, 0x1234, 0x0000, //  MOV.W  #0x1234,@R15
        0x421E, 0x8000, //  MOV.W  &0x8000,R14
        0x40B2, 0x2256, 0x8000, //  MOV.W  #0x2256,&0x8000
        0x421E, 0x8000, //  MOV.W  &0x8000,R14
    ];

    let mut cpu_emu = Emulator::new(&convert_words_to_bytes(instrs));
    cpu_emu.run_one_instr().unwrap();
    assert_eq!(cpu_emu.regs[0], 0x4);
    cpu_emu.run_one_instr().unwrap();
    assert_eq!(cpu_emu.regs[0], 0xA);
    cpu_emu.run_one_instr().unwrap();
    assert_eq!(cpu_emu.regs[0], 0xE);
    assert_eq!(cpu_emu.regs[14], 0x1234);
    cpu_emu.run_one_instr().unwrap();
    cpu_emu.run_one_instr().unwrap();
    assert_eq!(cpu_emu.regs[0], 0x18);
    assert_eq!(cpu_emu.regs[14], 0x2256);
}

#[test]
fn test_indexed_addressing() {
    let instrs: Vec<u16> = vec![
        0x403F, 0x8000, //  MOV.W  #0x8000,R15
        0x40BF, 0x1234, 0x0002, //  MOV.W  #0x1234,2(R15)
    ];
    let mut cpu_emu = Emulator::new(&convert_words_to_bytes(instrs));
    cpu_emu.run_one_instr().unwrap();
    assert_eq!(cpu_emu.regs[0], 0x4);
    assert_eq!(cpu_emu.regs[15], 0x8000);
    cpu_emu.run_one_instr().unwrap();
    assert_eq!(cpu_emu.regs[0], 0xA);
    assert_eq!(cpu_emu.mem[0x8002], 0x34);
    assert_eq!(cpu_emu.mem[0x8003], 0x12);
}

#[test]
fn test_sub_instruction() {
    let instrs: Vec<u16> = vec![
        0x403F, 0x0001, //  MOV.W  #1,R15
        0x403E, 0x0002, //  MOV.W  #2,R14
        0x8A0B, // SUB.W R10,R11
        0x9E0F, // CMP.W R14,R15
        0x8F0E, // SUB.W R15,R14
    ];

    let mut cpu_emu = Emulator::new(&convert_words_to_bytes(instrs));
    cpu_emu.run_one_instr().unwrap();
    cpu_emu.run_one_instr().unwrap();
    cpu_emu.run_one_instr().unwrap();
    assert_eq!(cpu_emu.regs[2], 0x0003);
    cpu_emu.run_one_instr().unwrap();
    assert_eq!(cpu_emu.regs[2], 0x0004);
    cpu_emu.run_one_instr().unwrap();
    assert_eq!(cpu_emu.regs[2], 0x01);
    assert_eq!(cpu_emu.regs[14], 1);
}

#[test]
fn store_then_load_absolute() {
    let instrs: Vec<u16> = vec![
        0x40B2, 0x1234, 0x8000, // MOV.W #0x1234,&0x8000
        0x421E, 0x8000, // MOV.W &0x8000,R14
    ];
    let mut cpu_emu = Emulator::new(&convert_words_to_bytes(instrs));
    cpu_emu.run_one_instr().unwrap();
    cpu_emu.run_one_instr().unwrap();
    assert_eq!(cpu_emu.regs[14], 0x1234);
    assert_eq!(cpu_emu.mem[0x8000], 0x34);
    assert_eq!(cpu_emu.mem[0x8001], 0x12);
}

#[test]
fn new_emulator_is_zeroed() {
    let cpu_emu = Emulator::new(&vec![0xAB, 0xCD, 0xEF]);
    assert_eq!(cpu_emu.mem.len(), 65536);
    assert_eq!(cpu_emu.mem[0], 0xAB);
    assert_eq!(cpu_emu.mem[2], 0xEF);
    assert_eq!(cpu_emu.mem[3], 0);
    assert_eq!(cpu_emu.mem[65535], 0);
    assert!(cpu_emu.regs.iter().all(|r| *r == 0));
    assert!(!cpu_emu.halted);
}

#[test]
fn unsupported_opcode_halts_without_commit() {
    // MOV #5,R4 then RETI (0x1300)
    let instrs: Vec<u16> = vec![0x4034, 0x0005, 0x1300];
    let mut cpu_emu = Emulator::new(&convert_words_to_bytes(instrs));
    cpu_emu.run_one_instr().unwrap();
    let regs_before = cpu_emu.regs.clone();
    assert_eq!(cpu_emu.run_one_instr(), Err(ExecError::UnsupportedOpcode));
    assert!(cpu_emu.halted);
    assert_eq!(cpu_emu.regs, regs_before);
    assert_eq!(cpu_emu.run_one_instr(), Err(ExecError::Halted));
    assert_eq!(cpu_emu.regs, regs_before);
}

#[test]
fn dadd_is_unsupported_at_runtime() {
    // DADD R4,R5
    let mut cpu_emu = Emulator::new(&convert_words_to_bytes(vec![0xA405]));
    assert_eq!(cpu_emu.run_one_instr(), Err(ExecError::UnsupportedOpcode));
    assert_eq!(cpu_emu.regs[0], 0);
}

#[test]
fn run_some_instrs_runs_twenty() {
    // twenty copies of ADD #1,R4 (constant generator: 0x5314)
    let instrs: Vec<u16> = vec![0x5314; 25];
    let mut cpu_emu = Emulator::new(&convert_words_to_bytes(instrs));
    cpu_emu.run_some_instrs().unwrap();
    assert_eq!(cpu_emu.regs[4], 20);
    assert_eq!(cpu_emu.regs[0], 40);
}

#[test]
fn run_some_instrs_stops_at_fault() {
    let instrs: Vec<u16> = vec![0x5314, 0x5314, 0x1300];
    let mut cpu_emu = Emulator::new(&convert_words_to_bytes(instrs));
    assert_eq!(cpu_emu.run_some_instrs(), Err(ExecError::UnsupportedOpcode));
    assert_eq!(cpu_emu.regs[4], 2);
    assert_eq!(cpu_emu.regs[0], 4);
    assert!(cpu_emu.halted);
}

#[test]
fn jumps_taken_and_not_taken() {
    // 0: JMP +2 words -> lands at 0 + 4 + 2 = 6
    // 2: MOV #1,R4 (skipped) ; 6: ADD #2,R5
    let instrs: Vec<u16> = vec![0x3C02, 0x4314, 0x0000, 0x5325];
    let mut cpu_emu = Emulator::new(&convert_words_to_bytes(instrs));
    cpu_emu.run_one_instr().unwrap();
    assert_eq!(cpu_emu.regs[0], 6);
    cpu_emu.run_one_instr().unwrap();
    assert_eq!(cpu_emu.regs[5], 2);
    assert_eq!(cpu_emu.regs[4], 0);

    // JZ with the zero flag clear falls through
    let mut cpu_emu = Emulator::new(&convert_words_to_bytes(vec![0x2405]));
    cpu_emu.run_one_instr().unwrap();
    assert_eq!(cpu_emu.regs[0], 2);

    // a backward jump: JMP -1 word from 4 lands at 4 - 2 + 2 = 4
    let mut cpu_emu = Emulator::new(&convert_words_to_bytes(vec![0x4304, 0x4304, 0x3FFF]));
    cpu_emu.regs[0] = 4;
    cpu_emu.run_one_instr().unwrap();
    assert_eq!(cpu_emu.regs[0], 4);
}

#[test]
fn push_writes_the_stack() {
    // MOV #0x8000,SP ; MOV #0x1234,R5 ; PUSH R5
    let instrs: Vec<u16> = vec![0x4031, 0x8000, 0x4035, 0x1234, 0x1205];
    let mut cpu_emu = Emulator::new(&convert_words_to_bytes(instrs));
    cpu_emu.run_one_instr().unwrap();
    cpu_emu.run_one_instr().unwrap();
    cpu_emu.run_one_instr().unwrap();
    assert_eq!(cpu_emu.regs[1], 0x7FFE);
    assert_eq!(cpu_emu.mem[0x7FFE], 0x34);
    assert_eq!(cpu_emu.mem[0x7FFF], 0x12);
    assert_eq!(cpu_emu.regs[5], 0x1234);
    assert_eq!(cpu_emu.regs[0], 10);
}

#[test]
fn memory_mapped_io() {
    let mut cpu_emu = Emulator::new(&vec![]);
    cpu_emu.set_switch_states(0xBEEF);
    assert_eq!(cpu_emu.mem[0x8A00], 0xEF);
    assert_eq!(cpu_emu.mem[0x8A01], 0xBE);
    cpu_emu.set_button_states(0x15);
    assert_eq!(cpu_emu.mem[0x8A02], 0x15);
    cpu_emu.mem[0x8A04] = 0x34;
    cpu_emu.mem[0x8A05] = 0x12;
    assert_eq!(cpu_emu.get_led_output(), 0x1234);
    cpu_emu.mem[0x8000] = 7;
    cpu_emu.mem[0x895F] = 9;
    let gfx = cpu_emu.get_gfx_buffer();
    assert_eq!(gfx.len(), 0x960);
    assert_eq!(gfx[0], 7);
    assert_eq!(gfx[0x95F], 9);
}

#[test]
fn decode_fields() {
    let d = exec_stage_1(0x40B2);
    assert_eq!(d.opcode, 4);
    assert_eq!(d.src_addr_mode, 3);
    assert_eq!(d.dst_addr_mode, 1);
    assert_eq!(d.src_reg_id, 0);
    assert_eq!(d.dst_reg_id, 2);
    assert!(!d.is_byte_instr);
    let d = exec_stage_1(0x12B0);
    assert_eq!(d.opcode, 5);
    assert_eq!(d.src_reg_id, 0);
    assert_eq!(d.dst_reg_id, 0);
    let d = exec_stage_1(0x2C05);
    assert_eq!(d.opcode, 3);
}

#[test]
fn jump_conditions() {
    let mut regs = vec![0u16; 16];
    // JGE with N and V both set is taken
    regs[2] = 0x0104;
    let s = exec_stage_4(0x3400, 5, 0x1234, 0, &regs).ok().unwrap();
    assert_eq!(s.new_pc_val, 0x1234);
    // JL is not taken then
    let s = exec_stage_4(0x3800, 6, 0x1234, 0, &regs).ok().unwrap();
    assert_eq!(s.new_pc_val, 0);
    // JC without carry is not taken, JNC is
    let s = exec_stage_4(0x2C00, 3, 0x1234, 0, &regs).ok().unwrap();
    assert_eq!(s.new_pc_val, 0);
    let s = exec_stage_4(0x2800, 2, 0x1234, 0, &regs).ok().unwrap();
    assert_eq!(s.new_pc_val, 0x1234);
}

#[test]
fn single_operand_table() {
    let regs = vec![0x0100u16; 16];
    // RRC with carry in
    let r = process_single_operand_w(0x0003, true, 0, &regs);
    assert_eq!(r.0, 0x8001);
    assert_eq!((r.1, r.2, r.3, r.4), (Some(true), Some(false), Some(true), Some(false)));
    // SWPB
    assert_eq!(process_single_operand_w(0x12AB, false, 1, &regs).0, 0xAB12);
    // RRA keeps the sign
    let r = process_single_operand_w(0x8004, false, 2, &regs);
    assert_eq!(r.0, 0xC002);
    assert_eq!(r.1, Some(false));
    assert_eq!(r.3, Some(true));
    // SXT
    let r = process_single_operand_w(0x1280, false, 3, &regs);
    assert_eq!(r.0, 0xFF80);
    assert_eq!(r.1, Some(true));
    assert_eq!(process_single_operand_w(0x127F, false, 3, &regs).0, 0x007F);
    // PUSH
    let r = process_single_operand_w(0x5555, false, 4, &regs);
    assert_eq!((r.0, r.5, r.6), (0x5555, true, 0));
    // CALL
    let r = process_single_operand_w(0x4444, false, 5, &regs);
    assert_eq!((r.0, r.5, r.6), (0x0102, true, 0x4444));
}

#[test]
fn double_operand_table() {
    // ADD: carry without signed overflow
    let r = process_double_operand_w(0xFFFF, 0x0001, false, 5);
    assert_eq!(r, (0x0000, Some(true), Some(true), Some(false), Some(false)));
    // ADD: signed overflow without carry
    let r = process_double_operand_w(0x7FFF, 0x0001, false, 5);
    assert_eq!(r, (0x8000, Some(false), Some(false), Some(true), Some(true)));
    // ADDC adds the carry
    assert_eq!(process_double_operand_w(1, 2, true, 6).0, 4);
    // SUB: dst - src, carry set when no borrow
    let r = process_double_operand_w(1, 3, false, 8);
    assert_eq!(r, (2, Some(true), Some(false), Some(false), Some(false)));
    let r = process_double_operand_w(3, 1, false, 8);
    assert_eq!(r, (0xFFFE, Some(false), Some(false), Some(true), Some(false)));
    // SUBC without carry borrows one more
    assert_eq!(process_double_operand_w(1, 3, false, 7).0, 1);
    assert_eq!(process_double_operand_w(1, 3, true, 7).0, 2);
    // SUB: signed overflow
    let r = process_double_operand_w(1, 0x8000, false, 8);
    assert_eq!(r.4, Some(true));
    // AND / BIT
    assert_eq!(process_double_operand_w(0x0F0F, 0x00FF, false, 15), (0x000F, Some(true), Some(false), Some(false), Some(false)));
    // BIC, BIS: no flags
    assert_eq!(process_double_operand_w(0x000F, 0x00FF, false, 12), (0x00F0, None, None, None, None));
    assert_eq!(process_double_operand_w(0x0F00, 0x00F0, false, 13), (0x0FF0, None, None, None, None));
    // XOR: overflow when both signs are set
    let r = process_double_operand_w(0x8001, 0x8000, false, 14);
    assert_eq!(r, (0x0001, Some(true), Some(false), Some(false), Some(true)));
    // MOV
    assert_eq!(process_double_operand_w(0xABCD, 0, false, 4), (0xABCD, None, None, None, None));
}
