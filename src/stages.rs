use vstd::prelude::*;

use crate::alu::{
    double_opcode_supported, double_operand_spec, process_double_operand_w,
    process_single_operand_w, single_operand_spec,
};
use crate::operand::{decode_dest, decode_source, src_uses_word, Operand};

verus! {

/// A fault that stops execution.
#[derive(Debug, Clone, Copy, PartialEq, Eq, Structural)]
pub enum ExecError {
    /// RETI, DADD or an undefined opcode was reached.
    UnsupportedOpcode,
    /// An earlier instruction faulted; the emulator makes no further progress.
    Halted,
}

/// The address after `a` in the 16-bit address space.
pub open spec fn next_addr(a: u16) -> u16 {
    a.wrapping_add(1)
}

/// The little-endian word at address `a`.
pub open spec fn word_at(mem: Seq<u8>, a: u16) -> u16 {
    (mem[a as int] as int + 256 * mem[next_addr(a) as int] as int) as u16
}

/// Memory with the little-endian word `v` written at address `a`.
pub open spec fn write_word(mem: Seq<u8>, a: u16, v: u16) -> Seq<u8> {
    mem.update(a as int, (v % 256) as u8).update(next_addr(a) as int, (v / 256) as u8)
}

/// Single- (and no-) operand family: the top three bits are zero.
pub open spec fn single_family(w: u16) -> bool {
    w & 0xE000 == 0
}

/// Jump family: the top two bits are zero, the third is not.
pub open spec fn jump_family(w: u16) -> bool {
    !single_family(w) && w & 0xC000 == 0
}

/// Double-operand family: the top two bits are not both zero.
pub open spec fn double_family(w: u16) -> bool {
    !single_family(w) && w & 0xC000 != 0
}

/// The jump displacement in bytes: the signed 10-bit word count, doubled,
/// as a 16-bit two's-complement word.
pub open spec fn jump_displacement(w: u16) -> u16 {
    (2 * (w % 1024) + if w % 1024 >= 512 { 0xF800int } else { 0 }) as u16
}

fn read_word(mem: &[u8], a: u16) -> (r: u16)
    requires
        mem@.len() == 65536,
    ensures
        r == word_at(mem@, a),
{
    let low = mem[a as usize] as u16;
    let high = mem[a.wrapping_add(1) as usize] as u16;
    low + high * 256
}

pub struct Stage0Result {
    pub curr_instr: u16,
    pub next_word: u16,
    pub next_next_word: u16,
}

/// Fetch: the word at the program counter and the two words after it.
pub fn exec_stage_0(mem: &[u8], pc: u16) -> (r: Stage0Result)
    requires
        mem@.len() == 65536,
    ensures
        r.curr_instr == word_at(mem@, pc),
        r.next_word == word_at(mem@, pc.wrapping_add(2)),
        r.next_next_word == word_at(mem@, pc.wrapping_add(4)),
{
    let curr_instr = read_word(mem, pc);
    let next_word = read_word(mem, pc.wrapping_add(2));
    let next_next_word = read_word(mem, pc.wrapping_add(4));
    Stage0Result { curr_instr, next_word, next_next_word }
}

pub struct Stage1Result {
    /// 2-bit source addressing mode.
    pub src_addr_mode: u16,
    /// 1-bit destination addressing mode.
    pub dst_addr_mode: u16,
    pub is_byte_instr: bool,
    /// 3-bit (single-operand, jump) or 4-bit (double-operand) opcode.
    pub opcode: u16,
    pub src_reg_id: u16,
    pub dst_reg_id: u16,
}

/// The opcode field of an instruction word, by family.
pub open spec fn opcode_of(w: u16) -> u16 {
    if single_family(w) {
        (w >> 7) & 0x7
    } else if w & 0xC000 == 0 {
        (w >> 10) & 0x7
    } else {
        (w >> 12) & 0xF
    }
}

proof fn lemma_decode_bounds(w: u16)
    by (bit_vector)
    ensures
        (w >> 4) & 0x3 < 4,
        (w >> 7) & 0x1 < 2,
        (w >> 6) & 0x1 < 2,
        (w >> 7) & 0x7 < 8,
        (w >> 10) & 0x7 < 8,
        (w >> 12) & 0xF < 16,
        (w >> 12) & 0xF >= 4 || w & 0xC000 == 0,
        (w >> 8) & 0x0F < 16,
        w & 0x0F < 16,
        w & 0xC000 != 0 ==> w & 0xE000 != 0,
{
}

/// The fields of an instruction word. A single-operand instruction names its
/// operand's register in the low four bits; the other families name the
/// source in bits 11:8 and the destination in the low four bits.
pub open spec fn stage_1_spec(w: u16) -> Stage1Result {
    Stage1Result {
        src_addr_mode: (w >> 4) & 0x3,
        dst_addr_mode: (w >> 7) & 0x1,
        is_byte_instr: (w >> 6) & 0x1 == 1,
        opcode: opcode_of(w),
        src_reg_id: if single_family(w) {
            w & 0x0F
        } else {
            (w >> 8) & 0x0F
        },
        dst_reg_id: if single_family(w) {
            0
        } else {
            w & 0x0F
        },
    }
}

/// Decode.
pub fn exec_stage_1(curr_instr: u16) -> (r: Stage1Result)
    ensures
        r == stage_1_spec(curr_instr),
        r.src_addr_mode < 4,
        r.dst_addr_mode < 2,
        r.src_reg_id < 16,
        r.dst_reg_id < 16,
        jump_family(curr_instr) ==> r.opcode < 8,
        single_family(curr_instr) ==> r.opcode < 8,
        double_family(curr_instr) ==> 4 <= r.opcode < 16,
{
    proof {
        lemma_decode_bounds(curr_instr);
    }
    let src_addr_mode = (curr_instr >> 4) & 0x3;
    let dst_addr_mode = (curr_instr >> 7) & 0x1;
    let is_byte_instr = (curr_instr >> 6) & 0x1 == 1;
    let opcode = if (curr_instr & 0xE000) == 0 {
        (curr_instr >> 7) & 0x7
    } else if (curr_instr & 0xC000) == 0 {
        (curr_instr >> 10) & 0x7
    } else {
        (curr_instr >> 12) & 0xF
    };
    let (src_reg_id, dst_reg_id) = if (curr_instr & 0xE000) == 0 {
        (curr_instr & 0x0F, 0)
    } else {
        ((curr_instr >> 8) & 0x0F, curr_instr & 0x0F)
    };
    Stage1Result { src_addr_mode, dst_addr_mode, is_byte_instr, opcode, src_reg_id, dst_reg_id }
}

pub struct Stage2AResult {
    /// The source's effective address; zero when the source is not in memory.
    pub mem_read_addr_0: u16,
    pub inc_src_reg: bool,
    pub used_instr_word_for_src: bool,
}

pub struct Stage2BResult {
    pub operand_0: u16,
}

/// The effective address of the source that the decoder reads from `mode`,
/// `reg` and the next instruction-stream word; zero for a register or a
/// constant-generator value. An immediate word lives right after the
/// instruction word.
pub open spec fn source_address(mode: u16, reg: u16, word: u16, regs: Seq<u16>) -> u16 {
    match decode_source(mode, reg, word) {
        Operand::IndexedReg(..) => regs[reg as int].wrapping_add(word),
        Operand::Abs(a) => a,
        Operand::Indirect(_) | Operand::IndirectAutoInc(_) => regs[reg as int],
        Operand::Imm(_) => if src_uses_word(mode, reg) {
            regs[0].wrapping_add(2)
        } else {
            0
        },
        _ => 0,
    }
}

/// Source address calculation; a jump has no source.
pub open spec fn stage_2a_spec(
    curr_instr: u16,
    next_word: u16,
    src_addr_mode: u16,
    src_reg_id: u16,
    regs: Seq<u16>,
) -> Stage2AResult {
    if jump_family(curr_instr) {
        Stage2AResult { mem_read_addr_0: 0, inc_src_reg: false, used_instr_word_for_src: false }
    } else {
        Stage2AResult {
            mem_read_addr_0: source_address(src_addr_mode, src_reg_id, next_word, regs),
            inc_src_reg: decode_source(src_addr_mode, src_reg_id, next_word) is IndirectAutoInc,
            used_instr_word_for_src: src_uses_word(src_addr_mode, src_reg_id),
        }
    }
}

/// Source address calculation.
pub fn exec_stage_2a(
    curr_instr: u16,
    next_word: u16,
    src_addr_mode: u16,
    src_reg_id: u16,
    regs: &[u16],
) -> (r: Stage2AResult)
    requires
        src_addr_mode < 4,
        src_reg_id < 16,
        regs@.len() == 16,
    ensures
        r == stage_2a_spec(curr_instr, next_word, src_addr_mode, src_reg_id, regs@),
{
    let mut mem_read_addr_0: u16 = 0;
    let mut inc_src_reg = false;
    let mut used_instr_word_for_src = false;
    if (curr_instr & 0xE000) == 0 || (curr_instr & 0xC000) != 0 {
        if src_addr_mode == 1 {
            if src_reg_id == 2 {
                // absolute
                mem_read_addr_0 = next_word;
                used_instr_word_for_src = true;
            } else if src_reg_id != 3 {
                // indexed
                mem_read_addr_0 = regs[src_reg_id as usize].wrapping_add(next_word);
                used_instr_word_for_src = true;
            }
        } else if src_addr_mode == 2 {
            if src_reg_id != 2 && src_reg_id != 3 {
                // indirect
                mem_read_addr_0 = regs[src_reg_id as usize];
            }
        } else if src_addr_mode == 3 {
            if src_reg_id == 0 {
                // immediate
                mem_read_addr_0 = regs[0].wrapping_add(2);
                used_instr_word_for_src = true;
            } else if src_reg_id != 2 && src_reg_id != 3 {
                // indirect auto-increment
                mem_read_addr_0 = regs[src_reg_id as usize];
                inc_src_reg = true;
            }
        }
    }
    Stage2AResult { mem_read_addr_0, inc_src_reg, used_instr_word_for_src }
}

/// The source operand: read from memory when it has an address, else the
/// register or the constant-generator value; for a jump, the target address.
/// A source whose address came out as zero is read from address zero.
pub open spec fn stage_2b_spec(
    curr_instr: u16,
    mode: u16,
    reg: u16,
    addr: u16,
    mem: Seq<u8>,
    regs: Seq<u16>,
) -> u16 {
    if addr != 0 {
        word_at(mem, addr)
    } else if !jump_family(curr_instr) {
        match decode_source(mode, reg, 0) {
            Operand::Reg(_) => regs[reg as int],
            Operand::Imm(v) => if src_uses_word(mode, reg) {
                word_at(mem, 0)
            } else {
                v
            },
            _ => word_at(mem, 0),
        }
    } else {
        regs[0].wrapping_add(jump_displacement(curr_instr))
    }
}

/// Source operand load.
pub fn exec_stage_2b(
    curr_instr: u16,
    src_addr_mode: u16,
    src_reg_id: u16,
    mem_read_addr_0: u16,
    mem: &[u8],
    regs: &[u16],
) -> (r: Stage2BResult)
    requires
        src_addr_mode < 4,
        src_reg_id < 16,
        mem@.len() == 65536,
        regs@.len() == 16,
    ensures
        r.operand_0 == stage_2b_spec(
            curr_instr,
            src_addr_mode,
            src_reg_id,
            mem_read_addr_0,
            mem@,
            regs@,
        ),
{
    let operand_0 = if mem_read_addr_0 != 0 {
        read_word(mem, mem_read_addr_0)
    } else if (curr_instr & 0xE000) == 0 || (curr_instr & 0xC000) != 0 {
        if src_addr_mode == 0 {
            regs[src_reg_id as usize]
        } else if src_addr_mode == 1 && src_reg_id == 3 {
            1
        } else if src_addr_mode == 2 && src_reg_id == 2 {
            4
        } else if src_addr_mode == 2 && src_reg_id == 3 {
            2
        } else if src_addr_mode == 3 && src_reg_id == 2 {
            8
        } else if src_addr_mode == 3 && src_reg_id == 3 {
            0xFFFF
        } else {
            read_word(mem, 0)
        }
    } else {
        let words = curr_instr % 1024;
        let mut displacement = words * 2;
        if words >= 512 {
            displacement = displacement + 0xF800;
        }
        regs[0].wrapping_add(displacement)
    };
    Stage2BResult { operand_0 }
}

pub struct Stage3AResult {
    /// The destination's effective address; zero for a register destination.
    pub mem_read_addr_1: u16,
    pub used_instr_word_for_dst: bool,
}

pub struct Stage3BResult {
    pub operand_1: u16,
}

/// Destination address calculation: only a double-operand instruction has a
/// destination, and an indexed or absolute one takes the instruction-stream
/// word that the source left.
pub open spec fn stage_3a_spec(
    curr_instr: u16,
    next_word: u16,
    next_next_word: u16,
    used_instr_word_for_src: bool,
    dst_addr_mode: u16,
    dst_reg_id: u16,
    regs: Seq<u16>,
) -> Stage3AResult {
    if double_family(curr_instr) && dst_addr_mode == 1 {
        let word = if used_instr_word_for_src {
            next_next_word
        } else {
            next_word
        };
        Stage3AResult {
            mem_read_addr_1: match decode_dest(1, dst_reg_id, word) {
                Operand::Abs(a) => a,
                _ => regs[dst_reg_id as int].wrapping_add(word),
            },
            used_instr_word_for_dst: true,
        }
    } else {
        Stage3AResult { mem_read_addr_1: 0, used_instr_word_for_dst: false }
    }
}

pub fn exec_stage_3a(
    curr_instr: u16,
    next_word: u16,
    next_next_word: u16,
    used_instr_word_for_src: bool,
    dst_addr_mode: u16,
    dst_reg_id: u16,
    regs: &[u16],
) -> (r: Stage3AResult)
    requires
        dst_addr_mode < 2,
        dst_reg_id < 16,
        regs@.len() == 16,
    ensures
        r == stage_3a_spec(
            curr_instr,
            next_word,
            next_next_word,
            used_instr_word_for_src,
            dst_addr_mode,
            dst_reg_id,
            regs@,
        ),
{
    proof {
        lemma_decode_bounds(curr_instr);
    }
    let mut mem_read_addr_1: u16 = 0;
    let mut used_instr_word_for_dst = false;
    if (curr_instr & 0xC000) != 0 && dst_addr_mode == 1 {
        used_instr_word_for_dst = true;
        let word = if used_instr_word_for_src {
            next_next_word
        } else {
            next_word
        };
        if dst_reg_id == 2 {
            // absolute
            mem_read_addr_1 = word;
        } else {
            // indexed
            mem_read_addr_1 = regs[dst_reg_id as usize].wrapping_add(word);
        }
    }
    Stage3AResult { mem_read_addr_1, used_instr_word_for_dst }
}

/// Destination operand load: from memory when it has an address, else the register.
pub fn exec_stage_3b(dst_reg_id: u16, mem_read_addr_1: u16, mem: &[u8], regs: &[u16]) -> (r:
    Stage3BResult)
    requires
        dst_reg_id < 16,
        mem@.len() == 65536,
        regs@.len() == 16,
    ensures
        r.operand_1 == if mem_read_addr_1 != 0 {
            word_at(mem@, mem_read_addr_1)
        } else {
            regs@[dst_reg_id as int]
        },
{
    let operand_1 = if mem_read_addr_1 != 0 {
        read_word(mem, mem_read_addr_1)
    } else {
        regs[dst_reg_id as usize]
    };
    Stage3BResult { operand_1 }
}

pub struct Stage4Result {
    pub dec_sp: bool,
    pub new_cf: Option<bool>,
    pub new_zf: Option<bool>,
    pub new_nf: Option<bool>,
    pub new_vf: Option<bool>,
    pub result: u16,
    /// The jump or call target; zero when control does not transfer.
    pub new_pc_val: u16,
}

/// Status register bits.
pub open spec fn carry_flag(sr: u16) -> bool {
    sr & 0x01 != 0
}

pub open spec fn zero_flag(sr: u16) -> bool {
    sr & 0x02 != 0
}

pub open spec fn neg_flag(sr: u16) -> bool {
    sr & 0x04 != 0
}

pub open spec fn overflow_flag(sr: u16) -> bool {
    sr & 0x100 != 0
}

/// Whether the jump with condition code `cc` is taken under status register `sr`.
pub open spec fn jump_taken(cc: u16, sr: u16) -> bool {
    if cc == 0 {
        !zero_flag(sr)
    } else if cc == 1 {
        zero_flag(sr)
    } else if cc == 2 {
        !carry_flag(sr)
    } else if cc == 3 {
        carry_flag(sr)
    } else if cc == 4 {
        neg_flag(sr)
    } else if cc == 5 {
        neg_flag(sr) == overflow_flag(sr)
    } else if cc == 6 {
        neg_flag(sr) != overflow_flag(sr)
    } else {
        true
    }
}

/// The execute stage, or `None` for an opcode without an ALU entry (RETI,
/// an undefined single-operand opcode, DADD).
pub open spec fn stage_4_spec(
    curr_instr: u16,
    opcode: u16,
    operand_0: u16,
    operand_1: u16,
    regs: Seq<u16>,
) -> Option<Stage4Result> {
    let sr = regs[2];
    if single_family(curr_instr) {
        if opcode <= 5 {
            let t = single_operand_spec(operand_0, carry_flag(sr), opcode, regs[0]);
            Some(
                Stage4Result {
                    dec_sp: t.5,
                    new_cf: t.1,
                    new_zf: t.2,
                    new_nf: t.3,
                    new_vf: t.4,
                    result: t.0,
                    new_pc_val: t.6,
                },
            )
        } else {
            None
        }
    } else if jump_family(curr_instr) {
        Some(
            Stage4Result {
                dec_sp: false,
                new_cf: None,
                new_zf: None,
                new_nf: None,
                new_vf: None,
                result: 0,
                new_pc_val: if jump_taken(opcode, sr) {
                    operand_0
                } else {
                    0
                },
            },
        )
    } else if double_opcode_supported(opcode) {
        let t = double_operand_spec(operand_0, operand_1, carry_flag(sr), opcode);
        Some(
            Stage4Result {
                dec_sp: false,
                new_cf: t.1,
                new_zf: t.2,
                new_nf: t.3,
                new_vf: t.4,
                result: t.0,
                new_pc_val: 0,
            },
        )
    } else {
        None
    }
}

/// Execute: the ALU tables, or the jump condition.
pub fn exec_stage_4(
    curr_instr: u16,
    opcode: u16,
    operand_0: u16,
    operand_1: u16,
    regs: &[u16],
) -> (r: Result<Stage4Result, ExecError>)
    requires
        regs@.len() == 16,
    ensures
        match stage_4_spec(curr_instr, opcode, operand_0, operand_1, regs@) {
            Some(s) => r == Ok::<Stage4Result, ExecError>(s),
            None => r == Err::<Stage4Result, ExecError>(ExecError::UnsupportedOpcode),
        },
{
    let sr = regs[2];
    let carry = sr & 0x01 != 0;
    if (curr_instr & 0xE000) == 0 {
        if opcode > 5 {
            return Err(ExecError::UnsupportedOpcode);
        }
        let (result, new_cf, new_zf, new_nf, new_vf, dec_sp, new_pc_val) =
            process_single_operand_w(operand_0, carry, opcode, regs);
        Ok(Stage4Result { dec_sp, new_cf, new_zf, new_nf, new_vf, result, new_pc_val })
    } else if (curr_instr & 0xC000) == 0 {
        let zero = sr & 0x02 != 0;
        let neg = sr & 0x04 != 0;
        let overflow = sr & 0x100 != 0;
        let taken = if opcode == 0 {
            !zero
        } else if opcode == 1 {
            zero
        } else if opcode == 2 {
            !carry
        } else if opcode == 3 {
            carry
        } else if opcode == 4 {
            neg
        } else if opcode == 5 {
            neg == overflow
        } else if opcode == 6 {
            neg != overflow
        } else {
            true
        };
        let new_pc_val = if taken {
            operand_0
        } else {
            0
        };
        Ok(
            Stage4Result {
                dec_sp: false,
                new_cf: None,
                new_zf: None,
                new_nf: None,
                new_vf: None,
                result: 0,
                new_pc_val,
            },
        )
    } else {
        if opcode < 4 || opcode > 15 || opcode == 10 {
            return Err(ExecError::UnsupportedOpcode);
        }
        let (result, new_cf, new_zf, new_nf, new_vf) = process_double_operand_w(
            operand_0,
            operand_1,
            carry,
            opcode,
        );
        Ok(
            Stage4Result {
                dec_sp: false,
                new_cf,
                new_zf,
                new_nf,
                new_vf,
                result,
                new_pc_val: 0,
            },
        )
    }
}

pub struct Stage5Result {
    pub regs: Vec<u16>,
    /// Where the result goes in memory; zero when it goes nowhere there.
    pub mem_write_addr: u16,
}

/// A status register with one flag set, cleared, or (`None`) left alone.
pub open spec fn set_flag(sr: u16, f: Option<bool>, bit: u16) -> u16 {
    match f {
        Some(true) => sr | bit,
        Some(false) => sr & !bit,
        None => sr,
    }
}

/// The registers after writeback: flags, then the stack-pointer drop and the
/// source auto-increment, then the result, then the program counter.
///
/// A single-operand result goes back to its own register in register mode; a
/// PUSH or CALL also writes it to the stack, any other single-operand
/// instruction to its operand's address. CMP and BIT keep no result.
pub open spec fn stage_5a_spec(
    regs: Seq<u16>,
    inc_src_reg: bool,
    dec_sp: bool,
    new_cf: Option<bool>,
    new_zf: Option<bool>,
    new_nf: Option<bool>,
    new_vf: Option<bool>,
    src_reg_id: u16,
    dst_reg_id: u16,
    curr_instr: u16,
    opcode: u16,
    src_addr_mode: u16,
    dst_addr_mode: u16,
    result: u16,
    mem_read_addr_0: u16,
    mem_read_addr_1: u16,
    new_pc_val: u16,
    used_instr_word_for_src: bool,
    used_instr_word_for_dst: bool,
) -> (Seq<u16>, u16) {
    let sr = set_flag(
        set_flag(set_flag(set_flag(regs[2], new_cf, 0x1), new_zf, 0x2), new_nf, 0x4),
        new_vf,
        0x100,
    );
    let r1 = regs.update(2, sr);
    let r2 = if dec_sp {
        r1.update(1, r1[1].wrapping_sub(2))
    } else {
        r1
    };
    let r3 = if inc_src_reg {
        r2.update(src_reg_id as int, r2[src_reg_id as int].wrapping_add(2))
    } else {
        r2
    };
    let (r4, addr) = if single_family(curr_instr) {
        (
            if src_addr_mode == 0 {
                r3.update(src_reg_id as int, result)
            } else {
                r3
            },
            if opcode == 4 || opcode == 5 {
                r3[1]
            } else if src_addr_mode != 0 {
                mem_read_addr_0
            } else {
                0
            },
        )
    } else if jump_family(curr_instr) || opcode == 9 || opcode == 11 {
        (r3, 0u16)
    } else if dst_addr_mode == 0 {
        (r3.update(dst_reg_id as int, result), 0u16)
    } else {
        (r3, mem_read_addr_1)
    };
    let step: u16 = if used_instr_word_for_src && used_instr_word_for_dst {
        6
    } else if used_instr_word_for_src || used_instr_word_for_dst {
        4
    } else {
        2
    };
    let pc = if new_pc_val != 0 {
        new_pc_val.wrapping_add(2)
    } else {
        r4[0].wrapping_add(step)
    };
    (r4.update(0, pc), addr)
}

fn apply_flag(sr: u16, f: Option<bool>, bit: u16) -> (r: u16)
    ensures
        r == set_flag(sr, f, bit),
{
    match f {
        Some(true) => sr | bit,
        Some(false) => sr & !bit,
        None => sr,
    }
}

/// Writeback to the registers, and the memory address of the result.
pub fn exec_stage_5a(
    regs: Vec<u16>,
    inc_src_reg: bool,
    dec_sp: bool,
    new_cf: Option<bool>,
    new_zf: Option<bool>,
    new_nf: Option<bool>,
    new_vf: Option<bool>,
    src_reg_id: u16,
    dst_reg_id: u16,
    curr_instr: u16,
    opcode: u16,
    src_addr_mode: u16,
    dst_addr_mode: u16,
    result: u16,
    mem_read_addr_0: u16,
    mem_read_addr_1: u16,
    new_pc_val: u16,
    used_instr_word_for_src: bool,
    used_instr_word_for_dst: bool,
) -> (r: Stage5Result)
    requires
        regs@.len() == 16,
        src_reg_id < 16,
        dst_reg_id < 16,
    ensures
        (r.regs@, r.mem_write_addr) == stage_5a_spec(
            regs@,
            inc_src_reg,
            dec_sp,
            new_cf,
            new_zf,
            new_nf,
            new_vf,
            src_reg_id,
            dst_reg_id,
            curr_instr,
            opcode,
            src_addr_mode,
            dst_addr_mode,
            result,
            mem_read_addr_0,
            mem_read_addr_1,
            new_pc_val,
            used_instr_word_for_src,
            used_instr_word_for_dst,
        ),
        r.regs@.len() == 16,
{
    let mut regs = regs;
    let mut sr = regs[2];
    sr = apply_flag(sr, new_cf, 0x1);
    sr = apply_flag(sr, new_zf, 0x2);
    sr = apply_flag(sr, new_nf, 0x4);
    sr = apply_flag(sr, new_vf, 0x100);
    regs.set(2, sr);
    if dec_sp {
        let sp = regs[1].wrapping_sub(2);
        regs.set(1, sp);
    }
    if inc_src_reg {
        let v = regs[src_reg_id as usize].wrapping_add(2);
        regs.set(src_reg_id as usize, v);
    }
    let mut mem_write_addr: u16 = 0;
    if (curr_instr & 0xE000) == 0 {
        if opcode == 4 || opcode == 5 {
            // PUSH, CALL: onto the stack
            mem_write_addr = regs[1];
        } else if src_addr_mode != 0 {
            mem_write_addr = mem_read_addr_0;
        }
        if src_addr_mode == 0 {
            regs.set(src_reg_id as usize, result);
        }
    } else if (curr_instr & 0xC000) == 0 || opcode == 9 || opcode == 11 {
        // jumps, CMP and BIT write no result
    } else if dst_addr_mode == 0 {
        regs.set(dst_reg_id as usize, result);
    } else {
        mem_write_addr = mem_read_addr_1;
    }
    let pc = if new_pc_val != 0 {
        new_pc_val.wrapping_add(2)
    } else if used_instr_word_for_src && used_instr_word_for_dst {
        regs[0].wrapping_add(6)
    } else if used_instr_word_for_src || used_instr_word_for_dst {
        regs[0].wrapping_add(4)
    } else {
        regs[0].wrapping_add(2)
    };
    regs.set(0, pc);
    Stage5Result { regs, mem_write_addr }
}

/// Writeback to memory, low byte first.
pub fn exec_stage_5b(mem_write_addr: u16, result: u16, mem: &mut Vec<u8>)
    requires
        old(mem)@.len() == 65536,
    ensures
        final(mem)@ == if mem_write_addr != 0 {
            write_word(old(mem)@, mem_write_addr, result)
        } else {
            old(mem)@
        },
{
    if mem_write_addr != 0 {
        mem.set(mem_write_addr as usize, (result % 256) as u8);
        mem.set(mem_write_addr.wrapping_add(1) as usize, (result / 256) as u8);
    }
}

} // verus!
