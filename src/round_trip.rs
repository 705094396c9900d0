use vstd::prelude::*;

use crate::asm_line::AsmLine;
use crate::byte_generator::{byte_bit, instr_word, word_bytes};
use crate::operand::{
    decode_dest, decode_source, lemma_dest_decode_encode, lemma_source_decode_encode,
    src_uses_word, Operand,
};
use crate::stages::{
    double_family, jump_family, single_family, stage_1_spec, word_at, write_word,
};

verus! {

proof fn lemma_double_word_fields(opc: u16, bb: u16, as_mode: u16, ad: u16, sreg: u16, dreg: u16)
    by (bit_vector)
    requires
        4 <= opc < 16,
        bb == 0 || bb == 0x40,
        as_mode < 4,
        ad < 2,
        sreg < 16,
        dreg < 16,
    ensures
        ({
            let w = (((((((opc * 4096) as u16) | bb) | ((as_mode * 16) as u16)) | ((ad * 128) as u16))
                | ((sreg * 256) as u16)) | dreg);
            &&& w & 0xE000 != 0
            &&& w & 0xC000 != 0
            &&& (w >> 12) & 0xF == opc
            &&& (w >> 4) & 0x3 == as_mode
            &&& (w >> 7) & 0x1 == ad
            &&& ((w >> 6) & 0x1 == 1) == (bb == 0x40)
            &&& (w >> 8) & 0x0F == sreg
            &&& w & 0x0F == dreg
        }),
{
}

proof fn lemma_single_word_fields(opc: u16, bb: u16, as_mode: u16, reg: u16)
    by (bit_vector)
    requires
        opc <= 5,
        bb == 0 || bb == 0x40,
        as_mode < 4,
        reg < 16,
    ensures
        ({
            let w = (((0x1000u16 | ((opc * 128) as u16)) | bb) | ((as_mode * 16) as u16)) | reg;
            &&& w & 0xE000 == 0
            &&& (w >> 7) & 0x7 == opc
            &&& (w >> 4) & 0x3 == as_mode
            &&& ((w >> 6) & 0x1 == 1) == (bb == 0x40)
            &&& w & 0x0F == reg
        }),
{
}

proof fn lemma_jump_word_fields(cc: u16)
    by (bit_vector)
    requires
        cc < 8,
    ensures
        ({
            let w = 0x2000u16 | ((cc * 1024) as u16);
            &&& w & 0xE000 != 0
            &&& w & 0xC000 == 0
            &&& (w >> 10) & 0x7 == cc
        }),
{
}

/// Decoding the word that the encoder emits for a double-operand line gives
/// back its opcode, byte flag and operand fields, and the decoder reads the
/// same source and destination operands from them, with the trailing words
/// that the encoder placed after the instruction word.
pub proof fn lemma_double_round_trip(l: AsmLine, src_word: u16, dst_word: u16)
    requires
        l.is_double(),
        l.dst().valid_dst(),
        l.src().ext_label() is None,
        l.dst().ext_label() is None,
        l.src().ext_word() is Some ==> l.src().ext_word() == Some(src_word),
        l.dst().ext_word() is Some ==> l.dst().ext_word() == Some(dst_word),
        !(l.src() is Imm && l.src()->Imm_0 == 0),
        !(l.src() is IndexedReg && (l.src()->IndexedReg_0.id() == 2 || l.src()->IndexedReg_0.id()
            == 3)),
        !(l.src() is Indirect && (l.src()->Indirect_0.id() == 2 || l.src()->Indirect_0.id() == 3)),
        !(l.src() is IndirectAutoInc && (l.src()->IndirectAutoInc_0.id() == 0
            || l.src()->IndirectAutoInc_0.id() == 2 || l.src()->IndirectAutoInc_0.id() == 3)),
        !(l.dst() is IndexedReg && l.dst()->IndexedReg_0.id() == 2),
    ensures
        ({
            let d = stage_1_spec(instr_word(l));
            &&& double_family(instr_word(l))
            &&& d.opcode == l.double_opcode()
            &&& d.is_byte_instr == l.byte_flag()
            &&& decode_source(d.src_addr_mode, d.src_reg_id, src_word) == l.src()
            &&& src_uses_word(d.src_addr_mode, d.src_reg_id) == (l.src().ext_word() is Some)
            &&& decode_dest(d.dst_addr_mode, d.dst_reg_id, dst_word) == l.dst()
            &&& d.dst_addr_mode == 1 <==> l.dst().ext_word() is Some
        }),
{
    let src = l.src();
    let dst = l.dst();
    lemma_double_word_fields(
        l.double_opcode(),
        byte_bit(l.byte_flag()),
        src.as_mode(),
        dst.ad_mode(),
        src.reg_field(),
        dst.reg_field(),
    );
    let d = stage_1_spec(instr_word(l));
    assert(d.src_addr_mode == src.as_mode() && d.src_reg_id == src.reg_field());
    lemma_source_decode_encode(d.src_addr_mode, d.src_reg_id, src_word);
    lemma_dest_decode_encode(d.dst_addr_mode, d.dst_reg_id, dst_word);
    lemma_word_i16_round_trip_inv(src);
    lemma_word_i16_round_trip_inv(dst);
}

proof fn lemma_word_i16_round_trip_inv(op: Operand)
    ensures
        op is IndexedReg ==> ((op->IndexedReg_1 as u16) as i16) == op->IndexedReg_1,
{
    if op is IndexedReg {
        let o = op->IndexedReg_1;
        assert(((o as u16) as i16) == o) by (bit_vector);
    }
}

/// Decoding the word that the encoder emits for a single-operand line gives
/// back its opcode, byte flag and operand field.
pub proof fn lemma_single_round_trip(l: AsmLine)
    requires
        l.is_single(),
    ensures
        ({
            let d = stage_1_spec(instr_word(l));
            &&& single_family(instr_word(l))
            &&& d.opcode == l.single_opcode()
            &&& d.is_byte_instr == l.byte_flag()
            &&& d.src_addr_mode == l.src().as_mode()
            &&& d.src_reg_id == l.src().reg_field()
        }),
{
    lemma_single_word_fields(
        l.single_opcode(),
        byte_bit(l.byte_flag()),
        l.src().as_mode(),
        l.src().reg_field(),
    );
}

/// Decoding the word that the encoder emits for a jump gives back its
/// condition code.
pub proof fn lemma_jump_round_trip(l: AsmLine)
    requires
        l is Jump,
    ensures
        jump_family(instr_word(l)),
        stage_1_spec(instr_word(l)).opcode == l->Jump_0.code(),
{
    lemma_jump_word_fields(l->Jump_0.code());
}

/// The emulator stores words low byte first, at the lower address: a word
/// written to memory reads back unchanged, and its bytes are the ones the
/// encoder emits for it.
pub proof fn lemma_memory_word_round_trip(mem: Seq<u8>, a: u16, v: u16)
    requires
        mem.len() == 65536,
    ensures
        word_at(write_word(mem, a, v), a) == v,
        write_word(mem, a, v)[a as int] == word_bytes(v)[0],
        write_word(mem, a, v)[a.wrapping_add(1) as int] == word_bytes(v)[1],
{
}

} // verus!
