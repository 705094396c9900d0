use vstd::prelude::*;

verus! {

/// The sixteen architectural registers, in the order of their 4-bit ids.
#[derive(Debug, Clone, Copy, PartialEq, Eq, Structural)]
pub enum Reg {
    PC,
    SP,
    SR,
    CG,
    R4,
    R5,
    R6,
    R7,
    R8,
    R9,
    R10,
    R11,
    R12,
    R13,
    R14,
    R15,
}

/// The register whose 4-bit id is `id` (ids above 15 are read modulo 16).
pub open spec fn reg_of(id: u16) -> Reg {
    let n = id % 16;
    if n == 0 { Reg::PC }
    else if n == 1 { Reg::SP }
    else if n == 2 { Reg::SR }
    else if n == 3 { Reg::CG }
    else if n == 4 { Reg::R4 }
    else if n == 5 { Reg::R5 }
    else if n == 6 { Reg::R6 }
    else if n == 7 { Reg::R7 }
    else if n == 8 { Reg::R8 }
    else if n == 9 { Reg::R9 }
    else if n == 10 { Reg::R10 }
    else if n == 11 { Reg::R11 }
    else if n == 12 { Reg::R12 }
    else if n == 13 { Reg::R13 }
    else if n == 14 { Reg::R14 }
    else { Reg::R15 }
}

impl Reg {
    /// The register's 4-bit id.
    pub open spec fn id(self) -> u16 {
        match self {
            Reg::PC => 0,
            Reg::SP => 1,
            Reg::SR => 2,
            Reg::CG => 3,
            Reg::R4 => 4,
            Reg::R5 => 5,
            Reg::R6 => 6,
            Reg::R7 => 7,
            Reg::R8 => 8,
            Reg::R9 => 9,
            Reg::R10 => 10,
            Reg::R11 => 11,
            Reg::R12 => 12,
            Reg::R13 => 13,
            Reg::R14 => 14,
            Reg::R15 => 15,
        }
    }

    pub fn to_bits(&self) -> (r: u16)
        ensures
            r == self.id(),
            r < 16,
            reg_of(r) == *self,
    {
        match self {
            Reg::PC => 0x0,
            Reg::SP => 0x1,
            Reg::SR => 0x2,
            Reg::CG => 0x3,
            Reg::R4 => 0x4,
            Reg::R5 => 0x5,
            Reg::R6 => 0x6,
            Reg::R7 => 0x7,
            Reg::R8 => 0x8,
            Reg::R9 => 0x9,
            Reg::R10 => 0xA,
            Reg::R11 => 0xB,
            Reg::R12 => 0xC,
            Reg::R13 => 0xD,
            Reg::R14 => 0xE,
            Reg::R15 => 0xF,
        }
    }
}

/// An instruction operand. Symbolic (PC-relative) addressing is not modelled.
#[derive(Debug, Clone, PartialEq, Eq)]
pub enum Operand {
    Reg(Reg),
    IndexedReg(Reg, i16),
    Abs(u16),
    /// An absolute address given by a label, used for global variables.
    AbsLabel(String),
    Indirect(Reg),
    IndirectAutoInc(Reg),
    Imm(u16),
    /// An immediate given by a label, used for calling functions.
    ImmLabel(String),
}

/// The six values that the constant generator supplies without a trailing word.
pub open spec fn is_cg_value(v: u16) -> bool {
    v == 0 || v == 1 || v == 2 || v == 4 || v == 8 || v == 0xFFFF
}

impl Operand {
    /// The 2-bit source addressing mode.
    pub open spec fn as_mode(self) -> u16 {
        match self {
            Operand::Reg(_) => 0,
            Operand::IndexedReg(_, _) => 1,
            Operand::Abs(_) | Operand::AbsLabel(_) => 1,
            Operand::Indirect(_) => 2,
            Operand::IndirectAutoInc(_) => 3,
            Operand::Imm(v) => {
                if v == 0 { 0 }
                else if v == 1 { 1 }
                else if v == 2 || v == 4 { 2 }
                else { 3 }
            },
            Operand::ImmLabel(_) => 3,
        }
    }

    /// The 4-bit register field.
    pub open spec fn reg_field(self) -> u16 {
        match self {
            Operand::Reg(r) | Operand::IndexedReg(r, _) | Operand::Indirect(r)
            | Operand::IndirectAutoInc(r) => r.id(),
            Operand::Abs(_) | Operand::AbsLabel(_) => 2,
            Operand::Imm(v) => {
                if v == 4 || v == 8 { 2 }
                else if is_cg_value(v) { 3 }
                else { 0 }
            },
            Operand::ImmLabel(_) => 0,
        }
    }

    /// Whether the operand may stand as a destination.
    pub open spec fn valid_dst(self) -> bool {
        match self {
            Operand::Reg(_) | Operand::IndexedReg(_, _) | Operand::Abs(_)
            | Operand::AbsLabel(_) => true,
            _ => false,
        }
    }

    /// The 1-bit destination addressing mode of a valid destination.
    pub open spec fn ad_mode(self) -> u16 {
        match self {
            Operand::Reg(_) => 0,
            _ => 1,
        }
    }

    /// The trailing word that follows the instruction word, if any; a label
    /// takes the place of a zero word until it is resolved.
    pub open spec fn ext_word(self) -> Option<u16> {
        match self {
            Operand::IndexedReg(_, off) => Some(off as u16),
            Operand::Abs(a) => Some(a),
            Operand::Imm(v) => if is_cg_value(v) { None } else { Some(v) },
            Operand::AbsLabel(_) | Operand::ImmLabel(_) => Some(0),
            _ => None,
        }
    }

    /// The label whose address the trailing word will hold, if any.
    pub open spec fn ext_label(self) -> Option<Seq<char>> {
        match self {
            Operand::AbsLabel(l) | Operand::ImmLabel(l) => Some(l@),
            _ => None,
        }
    }

    pub fn to_as_bits(&self) -> (r: u16)
        ensures
            r == self.as_mode() * 16,
    {
        match self {
            Operand::Reg(_) => 0x00,
            Operand::IndexedReg(_, _) => 0x10,
            Operand::Abs(_) | Operand::AbsLabel(_) => 0x10,
            Operand::Indirect(_) => 0x20,
            Operand::IndirectAutoInc(_) => 0x30,
            Operand::Imm(v) => {
                if *v == 0 {
                    0x00
                } else if *v == 1 {
                    0x10
                } else if *v == 2 || *v == 4 {
                    0x20
                } else {
                    0x30
                }
            },
            Operand::ImmLabel(_) => 0x30,
        }
    }

    /// The destination addressing bit (bit 7), or `None` for an operand that
    /// cannot be a destination.
    pub fn to_ad_bit(&self) -> (r: Option<u16>)
        ensures
            r is Some <==> self.valid_dst(),
            r is Some ==> r->0 == self.ad_mode() * 128,
    {
        match self {
            Operand::Reg(_) => Some(0x00),
            Operand::IndexedReg(_, _) | Operand::Abs(_) | Operand::AbsLabel(_) => Some(0x80),
            _ => None,
        }
    }

    pub fn get_imm_word(&self) -> (r: (Option<u16>, Option<String>))
        ensures
            r.0 == self.ext_word(),
            r.1 is Some <==> self.ext_label() is Some,
            r.1 is Some ==> r.1->0@ == self.ext_label()->0,
    {
        match self {
            Operand::IndexedReg(_, offset) => (Some(*offset as u16), None),
            Operand::Abs(a) => (Some(*a), None),
            Operand::Imm(v) => {
                if *v == 0 || *v == 1 || *v == 2 || *v == 4 || *v == 8 || *v == 0xFFFF {
                    (None, None)
                } else {
                    (Some(*v), None)
                }
            },
            Operand::AbsLabel(label) | Operand::ImmLabel(label) => (Some(0), Some(label.clone())),
            _ => (None, None),
        }
    }

    pub fn to_reg_bits(&self) -> (r: u16)
        ensures
            r == self.reg_field(),
            r < 16,
    {
        match self {
            Operand::Reg(r) | Operand::IndexedReg(r, _) | Operand::Indirect(r)
            | Operand::IndirectAutoInc(r) => r.to_bits(),
            Operand::Abs(_) | Operand::AbsLabel(_) => 0x2,
            Operand::Imm(v) => {
                if *v == 4 || *v == 8 {
                    0x2
                } else if *v == 0 || *v == 1 || *v == 2 || *v == 0xFFFF {
                    0x3
                } else {
                    0x0
                }
            },
            Operand::ImmLabel(_) => 0x0,
        }
    }
}

/// Whether a source operand with this mode and register id takes the next
/// instruction-stream word.
pub open spec fn src_uses_word(mode: u16, reg: u16) -> bool {
    (mode == 1 && reg != 3) || (mode == 3 && reg == 0)
}

/// The operand that the decoder reads from a source mode, register id and the
/// instruction-stream word after it; the SR and CG ids stand for constants in
/// the modes where the constant generator applies.
pub open spec fn decode_source(mode: u16, reg: u16, word: u16) -> Operand {
    if mode == 0 {
        Operand::Reg(reg_of(reg))
    } else if mode == 1 {
        if reg == 3 {
            Operand::Imm(1)
        } else if reg == 2 {
            Operand::Abs(word)
        } else {
            Operand::IndexedReg(reg_of(reg), word as i16)
        }
    } else if mode == 2 {
        if reg == 2 {
            Operand::Imm(4)
        } else if reg == 3 {
            Operand::Imm(2)
        } else {
            Operand::Indirect(reg_of(reg))
        }
    } else {
        if reg == 0 {
            Operand::Imm(word)
        } else if reg == 2 {
            Operand::Imm(8)
        } else if reg == 3 {
            Operand::Imm(0xFFFF)
        } else {
            Operand::IndirectAutoInc(reg_of(reg))
        }
    }
}

/// The operand that the decoder reads from a destination mode, register id and
/// the instruction-stream word that belongs to it.
pub open spec fn decode_dest(mode: u16, reg: u16, word: u16) -> Operand {
    if mode == 0 {
        Operand::Reg(reg_of(reg))
    } else if reg == 2 {
        Operand::Abs(word)
    } else {
        Operand::IndexedReg(reg_of(reg), word as i16)
    }
}

proof fn lemma_reg_of_id(reg: u16)
    requires
        reg < 16,
    ensures
        reg_of(reg).id() == reg,
{
}

proof fn lemma_word_i16_round_trip(word: u16)
    ensures
        (word as i16) as u16 == word,
{
    assert((word as i16) as u16 == word) by (bit_vector);
}

/// Every source (mode, register) pair is the encoding of the operand that the
/// decoder reads from it, trailing word included; the one exception is an
/// immediate word that holds a constant-generator value, which the encoder
/// folds into another pair. So decoding the encoding of that operand gives
/// the same operand back.
pub proof fn lemma_source_decode_encode(mode: u16, reg: u16, word: u16)
    requires
        mode < 4,
        reg < 16,
        !(mode == 3 && reg == 0 && is_cg_value(word)),
    ensures
        decode_source(mode, reg, word).as_mode() == mode,
        decode_source(mode, reg, word).reg_field() == reg,
        decode_source(mode, reg, word).ext_word() == (if src_uses_word(mode, reg) {
            Some(word)
        } else {
            None::<u16>
        }),
        decode_source(mode, reg, word).ext_label() is None,
        decode_source(
            decode_source(mode, reg, word).as_mode(),
            decode_source(mode, reg, word).reg_field(),
            word,
        ) == decode_source(mode, reg, word),
{
    lemma_reg_of_id(reg);
    lemma_word_i16_round_trip(word);
}

/// Every destination (mode, register) pair is the encoding of the operand that
/// the decoder reads from it, and that operand is a valid destination.
pub proof fn lemma_dest_decode_encode(mode: u16, reg: u16, word: u16)
    requires
        mode < 2,
        reg < 16,
    ensures
        decode_dest(mode, reg, word).valid_dst(),
        decode_dest(mode, reg, word).ad_mode() == mode,
        decode_dest(mode, reg, word).reg_field() == reg,
        decode_dest(mode, reg, word).ext_word() == (if mode == 1 {
            Some(word)
        } else {
            None::<u16>
        }),
        decode_dest(mode, reg, word).ext_label() is None,
{
    lemma_reg_of_id(reg);
    lemma_word_i16_round_trip(word);
}

} // verus!
