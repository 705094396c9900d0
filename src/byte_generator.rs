use vstd::prelude::*;

use crate::asm_line::AsmLine;
use crate::get_verbs::Global;
use crate::ccode::CC;
use crate::operand::{Operand, Reg};

verus! {

/// The stack pointer's start: the top of RAM.
const STACK_INIT_POSITION: u16 = 0x8000;

/// A patch that the image still owes: the byte offset of the word to patch
/// and the label whose address goes there.
#[derive(Debug)]
pub enum UnresolvedLabel {
    /// The whole word takes the label's absolute offset.
    FullWord { offset: usize, label: String },
    /// The low ten bits take the signed word distance from the offset to the label.
    Low10Bits { offset: usize, label: String },
}

/// Why a program could not be encoded.
#[derive(Debug, PartialEq, Eq)]
pub enum EncodeError {
    /// A label that no line or global defines.
    UnresolvedLabel(String),
    /// A jump to a label more than 511 words ahead or 512 words back.
    JumpOutOfRange(String),
    /// A jump to a label at an odd distance in bytes.
    MisalignedJump(String),
    /// An indirect, auto-increment or immediate destination operand.
    InvalidDestination,
    /// RETI or DADD, which the encoder does not support.
    UnsupportedOpcode,
}

/// What an `EncodeError` says, with labels as character sequences.
pub enum EncodeFault {
    UnresolvedLabel(Seq<char>),
    JumpOutOfRange(Seq<char>),
    MisalignedJump(Seq<char>),
    InvalidDestination,
    UnsupportedOpcode,
}

impl View for EncodeError {
    type V = EncodeFault;

    open spec fn view(&self) -> EncodeFault {
        match self {
            EncodeError::UnresolvedLabel(l) => EncodeFault::UnresolvedLabel(l@),
            EncodeError::JumpOutOfRange(l) => EncodeFault::JumpOutOfRange(l@),
            EncodeError::MisalignedJump(l) => EncodeFault::MisalignedJump(l@),
            EncodeError::InvalidDestination => EncodeFault::InvalidDestination,
            EncodeError::UnsupportedOpcode => EncodeFault::UnsupportedOpcode,
        }
    }
}

/// A relocation record: patch kind, byte offset and label.
pub struct Reloc {
    pub full_word: bool,
    pub offset: int,
    pub label: Seq<char>,
}

impl View for UnresolvedLabel {
    type V = Reloc;

    open spec fn view(&self) -> Reloc {
        match self {
            UnresolvedLabel::FullWord { offset, label } => Reloc {
                full_word: true,
                offset: *offset as int,
                label: label@,
            },
            UnresolvedLabel::Low10Bits { offset, label } => Reloc {
                full_word: false,
                offset: *offset as int,
                label: label@,
            },
        }
    }
}

/// An entry of the label table.
struct LabelEntry {
    name: String,
    offset: usize,
}

impl View for LabelEntry {
    type V = (Seq<char>, int);

    closed spec fn view(&self) -> (Seq<char>, int) {
        (self.name@, self.offset as int)
    }
}

pub open spec fn relocs_view(rs: Seq<UnresolvedLabel>) -> Seq<Reloc> {
    rs.map_values(|r: UnresolvedLabel| r@)
}

spec fn labels_view(ls: Seq<LabelEntry>) -> Seq<(Seq<char>, int)> {
    ls.map_values(|l: LabelEntry| l@)
}

/// A 16-bit word as it is stored: low byte first.
pub open spec fn word_bytes(w: u16) -> Seq<u8> {
    seq![(w % 256) as u8, (w / 256) as u8]
}

/// The trailing word of an operand, as bytes.
pub open spec fn ext_bytes(op: Operand) -> Seq<u8> {
    match op.ext_word() {
        Some(w) => word_bytes(w),
        None => Seq::empty(),
    }
}

pub open spec fn byte_bit(b: bool) -> u16 {
    if b { 0x40 } else { 0 }
}

/// The instruction word of a jump, single- or double-operand line.
pub open spec fn instr_word(l: AsmLine) -> u16 {
    match l {
        AsmLine::Jump(cc, _) => 0x2000u16 | ((cc.code() * 1024) as u16),
        _ => if l.is_single() {
            (((0x1000u16 | ((l.single_opcode() * 128) as u16)) | byte_bit(l.byte_flag()))
                | ((l.src().as_mode() * 16) as u16)) | l.src().reg_field()
        } else {
            ((((((l.double_opcode() * 4096) as u16) | byte_bit(l.byte_flag())) | ((
            l.src().as_mode() * 16) as u16)) | ((l.dst().ad_mode() * 128) as u16)) | ((
            l.src().reg_field() * 256) as u16)) | l.dst().reg_field()
        },
    }
}

/// Why a line cannot be encoded, if it cannot.
pub open spec fn line_fault(l: AsmLine) -> Option<EncodeFault> {
    match l {
        AsmLine::RETI | AsmLine::DADD(..) => Some(EncodeFault::UnsupportedOpcode),
        _ => if l.is_double() && !l.dst().valid_dst() {
            Some(EncodeFault::InvalidDestination)
        } else {
            None
        },
    }
}

/// The bytes a line emits before relocation.
pub open spec fn line_bytes(l: AsmLine) -> Seq<u8> {
    if l is Jump {
        word_bytes(instr_word(l))
    } else if l.is_single() {
        word_bytes(instr_word(l)) + ext_bytes(l.src())
    } else if l.is_double() {
        word_bytes(instr_word(l)) + ext_bytes(l.src()) + ext_bytes(l.dst())
    } else {
        Seq::empty()
    }
}

/// The full-word relocation of an operand's trailing word at `at`, if it holds a label.
pub open spec fn operand_relocs(op: Operand, at: int) -> Seq<Reloc> {
    match op.ext_label() {
        Some(label) => seq![Reloc { full_word: true, offset: at, label }],
        None => Seq::empty(),
    }
}

/// The relocations that a line placed at byte offset `at` queues.
pub open spec fn line_relocs(l: AsmLine, at: int) -> Seq<Reloc> {
    match l {
        AsmLine::Jump(_, label) => seq![Reloc { full_word: false, offset: at, label: label@ }],
        _ => if l.is_single() {
            operand_relocs(l.src(), at + 2)
        } else if l.is_double() {
            operand_relocs(l.src(), at + 2) + operand_relocs(
                l.dst(),
                at + 2 + ext_bytes(l.src()).len(),
            )
        } else {
            Seq::empty()
        },
    }
}

/// The label-table entries that a line placed at byte offset `at` adds: a
/// label is recorded two bytes early, since a jump lands two bytes past its target.
pub open spec fn line_labels(l: AsmLine, at: int) -> Seq<(Seq<char>, int)> {
    match l {
        AsmLine::Label(s) => seq![(s@, at - 2)],
        _ => Seq::empty(),
    }
}

pub open spec fn code_bytes(lines: Seq<AsmLine>) -> Seq<u8>
    decreases lines.len(),
{
    if lines.len() == 0 {
        Seq::empty()
    } else {
        code_bytes(lines.drop_last()) + line_bytes(lines.last())
    }
}

pub open spec fn code_relocs(lines: Seq<AsmLine>, start: int) -> Seq<Reloc>
    decreases lines.len(),
{
    if lines.len() == 0 {
        Seq::empty()
    } else {
        code_relocs(lines.drop_last(), start) + line_relocs(
            lines.last(),
            start + code_bytes(lines.drop_last()).len(),
        )
    }
}

pub open spec fn code_labels(lines: Seq<AsmLine>, start: int) -> Seq<(Seq<char>, int)>
    decreases lines.len(),
{
    if lines.len() == 0 {
        Seq::empty()
    } else {
        code_labels(lines.drop_last(), start) + line_labels(
            lines.last(),
            start + code_bytes(lines.drop_last()).len(),
        )
    }
}

/// The fault of the first line that cannot be encoded.
pub open spec fn code_fault(lines: Seq<AsmLine>) -> Option<EncodeFault>
    decreases lines.len(),
{
    if lines.len() == 0 {
        None
    } else {
        match code_fault(lines.drop_last()) {
            Some(f) => Some(f),
            None => line_fault(lines.last()),
        }
    }
}

pub open spec fn data_bytes(globals: Seq<Global>) -> Seq<u8>
    decreases globals.len(),
{
    if globals.len() == 0 {
        Seq::empty()
    } else {
        data_bytes(globals.drop_last()) + globals.last().initial_bytes@
    }
}

pub open spec fn data_labels(globals: Seq<Global>, start: int) -> Seq<(Seq<char>, int)>
    decreases globals.len(),
{
    if globals.len() == 0 {
        Seq::empty()
    } else {
        data_labels(globals.drop_last(), start).push(
            (globals.last().label@, start + data_bytes(globals.drop_last()).len()),
        )
    }
}

/// The two bootstrap instructions: `MOV #0x8000,SP` and `JMP main`.
pub open spec fn boot_bytes() -> Seq<u8> {
    seq![0x31u8, 0x40u8, 0x00u8, 0x80u8, 0x00u8, 0x3Cu8]
}

pub open spec fn main_label() -> Seq<char> {
    seq!['m', 'a', 'i', 'n']
}

pub open spec fn boot_relocs() -> Seq<Reloc> {
    seq![Reloc { full_word: false, offset: 4, label: main_label() }]
}

/// A zero byte appended to an odd-length image, so that code starts on an even offset.
pub open spec fn pad_even(s: Seq<u8>) -> Seq<u8> {
    if s.len() % 2 == 1 {
        s.push(0)
    } else {
        s
    }
}

/// The offset of the last table entry for `name`: a later entry overrides an earlier one.
pub open spec fn lookup(labels: Seq<(Seq<char>, int)>, name: Seq<char>) -> Option<int>
    decreases labels.len(),
{
    if labels.len() == 0 {
        None
    } else if labels.last().0 == name {
        Some(labels.last().1)
    } else {
        lookup(labels.drop_last(), name)
    }
}

/// The image after one relocation.
pub open spec fn patch(bytes: Seq<u8>, r: Reloc, labels: Seq<(Seq<char>, int)>) -> Result<
    Seq<u8>,
    EncodeFault,
> {
    match lookup(labels, r.label) {
        None => Err(EncodeFault::UnresolvedLabel(r.label)),
        Some(loc) => if r.full_word {
            let w = word_bytes((loc % 65536) as u16);
            Ok(bytes.update(r.offset, w[0]).update(r.offset + 1, w[1]))
        } else {
            let diff = loc - r.offset;
            if diff % 2 != 0 {
                Err(EncodeFault::MisalignedJump(r.label))
            } else if diff / 2 > 511 || diff / 2 < -512 {
                Err(EncodeFault::JumpOutOfRange(r.label))
            } else {
                let bits = (diff / 2) % 1024;
                Ok(
                    bytes.update(r.offset, (bits % 256) as u8).update(
                        r.offset + 1,
                        bytes[r.offset + 1] | ((bits / 256) as u8),
                    ),
                )
            }
        },
    }
}

/// The image after all relocations, in order, or the fault of the first that fails.
pub open spec fn resolve(bytes: Seq<u8>, relocs: Seq<Reloc>, labels: Seq<(Seq<char>, int)>) -> Result<
    Seq<u8>,
    EncodeFault,
>
    decreases relocs.len(),
{
    if relocs.len() == 0 {
        Ok(bytes)
    } else {
        match resolve(bytes, relocs.drop_last(), labels) {
            Err(f) => Err(f),
            Ok(b) => patch(b, relocs.last(), labels),
        }
    }
}

/// The lines as they are encoded.
pub open spec fn normalized(instrs: Seq<AsmLine>) -> Seq<AsmLine> {
    instrs.map_values(|l: AsmLine| l.normalize())
}

/// The byte image of a program: bootstrap, global data, padding, then code,
/// with every label resolved.
pub open spec fn encode_program(globals: Seq<Global>, instrs: Seq<AsmLine>) -> Result<
    Seq<u8>,
    EncodeFault,
> {
    let lines = normalized(instrs);
    match code_fault(lines) {
        Some(f) => Err(f),
        None => {
            let data = pad_even(boot_bytes() + data_bytes(globals));
            resolve(
                data + code_bytes(lines),
                boot_relocs() + code_relocs(lines, data.len() as int),
                data_labels(globals, 6) + code_labels(lines, data.len() as int),
            )
        },
    }
}

/// The fault of the first bad line stays the fault of every longer program.
proof fn lemma_code_fault_persists(lines: Seq<AsmLine>, i: int, f: EncodeFault)
    requires
        0 <= i <= lines.len(),
        code_fault(lines.take(i)) == Some(f),
    ensures
        code_fault(lines) == Some(f),
    decreases lines.len() - i,
{
    if i < lines.len() {
        assert(lines.take(i + 1).drop_last() =~= lines.take(i));
        lemma_code_fault_persists(lines, i + 1, f);
    } else {
        assert(lines.take(i) =~= lines);
    }
}

/// The fault of the first failing relocation is the fault of the whole resolution.
proof fn lemma_resolve_fault_persists(
    bytes: Seq<u8>,
    relocs: Seq<Reloc>,
    labels: Seq<(Seq<char>, int)>,
    i: int,
    f: EncodeFault,
)
    requires
        0 <= i <= relocs.len(),
        resolve(bytes, relocs.take(i), labels) == Err::<Seq<u8>, EncodeFault>(f),
    ensures
        resolve(bytes, relocs, labels) == Err::<Seq<u8>, EncodeFault>(f),
    decreases relocs.len() - i,
{
    if i < relocs.len() {
        assert(relocs.take(i + 1).drop_last() =~= relocs.take(i));
        lemma_resolve_fault_persists(bytes, relocs, labels, i + 1, f);
    } else {
        assert(relocs.take(i) =~= relocs);
    }
}

/// Appends a word, low byte first.
fn push_word(result: &mut Vec<u8>, w: u16)
    ensures
        final(result)@ == old(result)@ + word_bytes(w),
{
    result.push((w % 256) as u8);
    result.push((w / 256) as u8);
    assert(result@ =~= old(result)@ + word_bytes(w));
}

/// Appends an operand's trailing word, if it has one, and queues a full-word
/// relocation for it if it holds a label.
fn push_ext_word(op: &Operand, result: &mut Vec<u8>, relocs: &mut Vec<UnresolvedLabel>)
    ensures
        final(result)@ == old(result)@ + ext_bytes(*op),
        relocs_view(final(relocs)@) == relocs_view(old(relocs)@) + operand_relocs(
            *op,
            old(result)@.len() as int,
        ),
{
    let ghost old_relocs = relocs@;
    match op.get_imm_word() {
        (Some(imm), label) => {
            if let Some(label) = label {
                relocs.push(UnresolvedLabel::FullWord { offset: result.len(), label });
            }
            push_word(result, imm);
        },
        (None, _) => {},
    }
    assert(relocs_view(relocs@) =~= relocs_view(old_relocs) + operand_relocs(
        *op,
        old(result)@.len() as int,
    ));
}

fn convert_instr_to_bytes(
    instr: &AsmLine,
    result: &mut Vec<u8>,
    unresolved_labels: &mut Vec<UnresolvedLabel>,
    label_map: &mut Vec<LabelEntry>,
) -> (r: Result<(), EncodeError>)
    requires
        instr is Label ==> old(result)@.len() >= 2,
    ensures
        r is Err <==> line_fault(*instr) is Some,
        r is Err ==> r->Err_0@ == line_fault(*instr)->0,
        r is Ok ==> {
            &&& final(result)@ == old(result)@ + line_bytes(*instr)
            &&& relocs_view(final(unresolved_labels)@) == relocs_view(old(unresolved_labels)@)
                + line_relocs(*instr, old(result)@.len() as int)
            &&& labels_view(final(label_map)@) == labels_view(old(label_map)@) + line_labels(
                *instr,
                old(result)@.len() as int,
            )
        },
{
    let ghost old_relocs = unresolved_labels@;
    let ghost old_labels = label_map@;
    let ghost at = result@.len() as int;
    match instr {
        AsmLine::Label(s) => {
            let offset = result.len() - 2;
            label_map.push(LabelEntry { name: s.clone(), offset });
            assert(labels_view(label_map@) =~= labels_view(old_labels) + line_labels(*instr, at));
            assert(relocs_view(unresolved_labels@) =~= relocs_view(old_relocs) + line_relocs(
                *instr,
                at,
            ));
            assert(result@ =~= old(result)@ + line_bytes(*instr));
            Ok(())
        },
        AsmLine::Jump(cc, label) => {
            unresolved_labels.push(
                UnresolvedLabel::Low10Bits { offset: result.len(), label: label.clone() },
            );
            let word: u16 = 0x2000 | cc.to_bits_repr();
            push_word(result, word);
            assert(labels_view(label_map@) =~= labels_view(old_labels) + line_labels(*instr, at));
            assert(relocs_view(unresolved_labels@) =~= relocs_view(old_relocs) + line_relocs(
                *instr,
                at,
            ));
            Ok(())
        },
        AsmLine::RRC(op, is_byte_instr)
        | AsmLine::SWPB(op, is_byte_instr)
        | AsmLine::RRA(op, is_byte_instr)
        | AsmLine::SXT(op, is_byte_instr)
        | AsmLine::PUSH(op, is_byte_instr)
        | AsmLine::CALL(op, is_byte_instr) => {
            let opcode: u16 = match instr {
                AsmLine::RRC(..) => 0x000,
                AsmLine::SWPB(..) => 0x080,
                AsmLine::RRA(..) => 0x100,
                AsmLine::SXT(..) => 0x180,
                AsmLine::PUSH(..) => 0x200,
                _ => 0x280,
            };
            let byte_flag: u16 = if *is_byte_instr { 0x40 } else { 0 };
            let mut word: u16 = 0x1000 | opcode;
            word = word | byte_flag;
            word = word | op.to_as_bits();
            word = word | op.to_reg_bits();
            push_word(result, word);
            push_ext_word(op, result, unresolved_labels);
            assert(labels_view(label_map@) =~= labels_view(old_labels) + line_labels(*instr, at));
            Ok(())
        },
        AsmLine::MOV(src_op, dst_op, is_byte_instr)
        | AsmLine::ADD(src_op, dst_op, is_byte_instr)
        | AsmLine::ADDC(src_op, dst_op, is_byte_instr)
        | AsmLine::SUB(src_op, dst_op, is_byte_instr)
        | AsmLine::SUBC(src_op, dst_op, is_byte_instr)
        | AsmLine::CMP(src_op, dst_op, is_byte_instr)
        | AsmLine::BIT(src_op, dst_op, is_byte_instr)
        | AsmLine::BIC(src_op, dst_op, is_byte_instr)
        | AsmLine::BIS(src_op, dst_op, is_byte_instr)
        | AsmLine::XOR(src_op, dst_op, is_byte_instr)
        | AsmLine::AND(src_op, dst_op, is_byte_instr) => {
            let ad_bit = match dst_op.to_ad_bit() {
                Some(b) => b,
                None => {
                    return Err(EncodeError::InvalidDestination);
                },
            };
            let opcode: u16 = match instr {
                AsmLine::MOV(..) => 0x4000,
                AsmLine::ADD(..) => 0x5000,
                AsmLine::ADDC(..) => 0x6000,
                AsmLine::SUBC(..) => 0x7000,
                AsmLine::SUB(..) => 0x8000,
                AsmLine::CMP(..) => 0x9000,
                AsmLine::BIT(..) => 0xB000,
                AsmLine::BIC(..) => 0xC000,
                AsmLine::BIS(..) => 0xD000,
                AsmLine::XOR(..) => 0xE000,
                _ => 0xF000,
            };
            let byte_flag: u16 = if *is_byte_instr { 0x40 } else { 0 };
            let mut word: u16 = opcode;
            word = word | byte_flag;
            word = word | src_op.to_as_bits();
            word = word | ad_bit;
            word = word | src_op.to_reg_bits() * 256;
            word = word | dst_op.to_reg_bits();
            push_word(result, word);
            let ghost mid = result@.len() as int;
            let ghost mid_relocs = unresolved_labels@;
            push_ext_word(src_op, result, unresolved_labels);
            push_ext_word(dst_op, result, unresolved_labels);
            assert(labels_view(label_map@) =~= labels_view(old_labels) + line_labels(*instr, at));
            assert(relocs_view(unresolved_labels@) =~= relocs_view(old_relocs) + line_relocs(
                *instr,
                at,
            ));
            assert(result@ =~= old(result)@ + line_bytes(*instr));
            Ok(())
        },
        AsmLine::RETI | AsmLine::DADD(..) => Err(EncodeError::UnsupportedOpcode),
    }
}

/// The offset of the last entry of the label table named `name`.
fn lookup_label(label_map: &Vec<LabelEntry>, name: &String) -> (r: Option<usize>)
    ensures
        r is None ==> lookup(labels_view(label_map@), name@) is None,
        r is Some ==> lookup(labels_view(label_map@), name@) == Some(r->0 as int),
{
    let mut i = label_map.len();
    assert(label_map@.take(i as int) =~= label_map@);
    while i > 0
        invariant
            i <= label_map@.len(),
            lookup(labels_view(label_map@), name@) == lookup(
                labels_view(label_map@.take(i as int)),
                name@,
            ),
        decreases i,
    {
        let ghost prefix = labels_view(label_map@.take(i as int));
        assert(prefix.drop_last() =~= labels_view(label_map@.take(i - 1)));
        assert(prefix.last() == label_map@[i - 1]@);
        if label_map[i - 1].name == *name {
            return Some(label_map[i - 1].offset);
        }
        i -= 1;
    }
    None
}

fn resolve_labels(
    result_bytes: &mut Vec<u8>,
    unresolved_labels: &Vec<UnresolvedLabel>,
    label_map: &Vec<LabelEntry>,
) -> (r: Result<(), EncodeError>)
    requires
        forall|k: int|
            0 <= k < unresolved_labels@.len() ==> 0 <= #[trigger] relocs_view(
                unresolved_labels@,
            )[k].offset && relocs_view(unresolved_labels@)[k].offset + 2 <= old(
                result_bytes,
            )@.len(),
    ensures
        match resolve(old(result_bytes)@, relocs_view(unresolved_labels@), labels_view(label_map@)) {
            Ok(b) => r is Ok && final(result_bytes)@ == b,
            Err(f) => r is Err && r->Err_0@ == f,
        },
{
    let ghost relocs = relocs_view(unresolved_labels@);
    let ghost labels = labels_view(label_map@);
    let ghost start = result_bytes@;
    let mut i: usize = 0;
    while i < unresolved_labels.len()
        invariant
            i <= unresolved_labels@.len(),
            relocs == relocs_view(unresolved_labels@),
            labels == labels_view(label_map@),
            start == old(result_bytes)@,
            result_bytes@.len() == start.len(),
            forall|k: int|
                0 <= k < unresolved_labels@.len() ==> 0 <= #[trigger] relocs[k].offset
                    && relocs[k].offset + 2 <= start.len(),
            resolve(start, relocs.take(i as int), labels) == Ok::<Seq<u8>, EncodeFault>(
                result_bytes@,
            ),
        decreases unresolved_labels@.len() - i,
    {
        assert(relocs.take(i + 1).drop_last() =~= relocs.take(i as int));
        let ghost before = result_bytes@;
        let ghost rel = relocs[i as int];
        assert(rel == unresolved_labels@[i as int]@);
        assert(0 <= rel.offset && rel.offset + 2 <= start.len());
        match &unresolved_labels[i] {
            UnresolvedLabel::FullWord { offset, label } => {
                let location = match lookup_label(label_map, label) {
                    Some(l) => l,
                    None => {
                        proof {
                            lemma_resolve_fault_persists(
                                start,
                                relocs,
                                labels,
                                i + 1,
                                EncodeFault::UnresolvedLabel(label@),
                            );
                        }
                        return Err(EncodeError::UnresolvedLabel(label.clone()));
                    },
                };
                let word = (location % 65536) as u16;
                assert(*offset as int == rel.offset);
                assert(*offset + 2 <= result_bytes.len());
                result_bytes.set(*offset, (word % 256) as u8);
                result_bytes.set(*offset + 1, (word / 256) as u8);
                assert(result_bytes@ =~= patch(before, rel, labels)->Ok_0);
            },
            UnresolvedLabel::Low10Bits { offset, label } => {
                let location = match lookup_label(label_map, label) {
                    Some(l) => l,
                    None => {
                        proof {
                            lemma_resolve_fault_persists(
                                start,
                                relocs,
                                labels,
                                i + 1,
                                EncodeFault::UnresolvedLabel(label@),
                            );
                        }
                        return Err(EncodeError::UnresolvedLabel(label.clone()));
                    },
                };
                let offset = *offset;
                assert(offset as int == rel.offset);
                assert(offset + 2 <= result_bytes.len());
                let backward = location < offset;
                let distance = if backward {
                    offset - location
                } else {
                    location - offset
                };
                if distance % 2 != 0 {
                    proof {
                        lemma_resolve_fault_persists(
                            start,
                            relocs,
                            labels,
                            i + 1,
                            EncodeFault::MisalignedJump(label@),
                        );
                    }
                    return Err(EncodeError::MisalignedJump(label.clone()));
                }
                let words = distance / 2;
                if (!backward && words > 511) || (backward && words > 512) {
                    proof {
                        lemma_resolve_fault_persists(
                            start,
                            relocs,
                            labels,
                            i + 1,
                            EncodeFault::JumpOutOfRange(label@),
                        );
                    }
                    return Err(EncodeError::JumpOutOfRange(label.clone()));
                }
                let bits: u16 = if backward && words > 0 {
                    (1024 - words) as u16
                } else {
                    words as u16
                };
                assert(bits as int == ((location - offset) / 2) % 1024);
                result_bytes.set(offset, (bits % 256) as u8);
                let high = result_bytes[offset + 1] | ((bits / 256) as u8);
                result_bytes.set(offset + 1, high);
                assert(result_bytes@ =~= patch(before, rel, labels)->Ok_0);
            },
        }
        i += 1;
    }
    assert(relocs.take(i as int) =~= relocs);
    Ok(())
}

/// Rewrites a zero-offset indexed operand `0(Rn)` to the shorter `@Rn`.
fn optimize_zero_index_operand(op: &mut Operand)
    ensures
        *final(op) == (if *old(op) is IndexedReg && old(op)->IndexedReg_1 == 0 {
            Operand::Indirect(old(op)->IndexedReg_0)
        } else {
            *old(op)
        }),
{
    if let Operand::IndexedReg(reg, offset) = op {
        if *offset == 0 {
            let r = *reg;
            *op = Operand::Indirect(r);
        }
    }
}

/// Rewrites a zero-offset indexed source `0(Rn)` to the shorter `@Rn`.
fn optimize_zero_index_instr(instr: &mut AsmLine)
    ensures
        *final(instr) == old(instr).normalize(),
{
    match instr {
        AsmLine::RRC(src, _) => optimize_zero_index_operand(src),
        AsmLine::SWPB(src, _) => optimize_zero_index_operand(src),
        AsmLine::RRA(src, _) => optimize_zero_index_operand(src),
        AsmLine::SXT(src, _) => optimize_zero_index_operand(src),
        AsmLine::PUSH(src, _) => optimize_zero_index_operand(src),
        AsmLine::CALL(src, _) => optimize_zero_index_operand(src),
        AsmLine::MOV(src, _, _) => optimize_zero_index_operand(src),
        AsmLine::ADD(src, _, _) => optimize_zero_index_operand(src),
        AsmLine::ADDC(src, _, _) => optimize_zero_index_operand(src),
        AsmLine::SUB(src, _, _) => optimize_zero_index_operand(src),
        AsmLine::SUBC(src, _, _) => optimize_zero_index_operand(src),
        AsmLine::CMP(src, _, _) => optimize_zero_index_operand(src),
        AsmLine::BIT(src, _, _) => optimize_zero_index_operand(src),
        AsmLine::BIC(src, _, _) => optimize_zero_index_operand(src),
        AsmLine::BIS(src, _, _) => optimize_zero_index_operand(src),
        AsmLine::XOR(src, _, _) => optimize_zero_index_operand(src),
        AsmLine::AND(src, _, _) => optimize_zero_index_operand(src),
        _ => {},
    }
}

proof fn lemma_boot_words()
    by (bit_vector)
    ensures
        ((((((0x4000u16 | 0u16) | 0x30u16) | 0u16) | 0u16) | 1u16) == 0x4031u16),
        (0x2000u16 | 0x1C00u16) == 0x3C00u16,
{
}

proof fn lemma_line_relocs_in_bounds(l: AsmLine, at: int)
    ensures
        forall|j: int|
            0 <= j < line_relocs(l, at).len() ==> at <= #[trigger] line_relocs(l, at)[j].offset
                && line_relocs(l, at)[j].offset + 2 <= at + line_bytes(l).len(),
{
}

/// Encodes a program: the bootstrap, the globals in order, then the lines,
/// with every label resolved. Fails with the first line that cannot be
/// encoded, else with the first relocation that cannot be resolved.
pub fn generate_bytes(globals: Vec<Global>, instrs: Vec<AsmLine>) -> (r: Result<
    Vec<u8>,
    EncodeError,
>)
    ensures
        match encode_program(globals@, instrs@) {
            Ok(b) => r is Ok && r->Ok_0@ == b,
            Err(f) => r is Err && r->Err_0@ == f,
        },
{
    let mut result_bytes: Vec<u8> = Vec::new();
    let mut unresolved_labels: Vec<UnresolvedLabel> = Vec::new();
    let mut label_map: Vec<LabelEntry> = Vec::new();

    let boot_mov = AsmLine::MOV(Operand::Imm(STACK_INIT_POSITION), Operand::Reg(Reg::SP), false);
    let boot_jump = AsmLine::Jump(CC::Unconditional, "main".to_owned());
    proof {
        reveal_strlit("main");
        assert("main"@ =~= main_label());
        lemma_boot_words();
    }
    let _ = convert_instr_to_bytes(
        &boot_mov,
        &mut result_bytes,
        &mut unresolved_labels,
        &mut label_map,
    );
    let _ = convert_instr_to_bytes(
        &boot_jump,
        &mut result_bytes,
        &mut unresolved_labels,
        &mut label_map,
    );
    assert(result_bytes@ =~= boot_bytes());
    assert(relocs_view(unresolved_labels@) =~= boot_relocs());
    assert(labels_view(label_map@) =~= data_labels(globals@.take(0), 6));
    assert(boot_bytes() + data_bytes(globals@.take(0)) =~= boot_bytes());

    let mut g: usize = 0;
    while g < globals.len()
        invariant
            g <= globals@.len(),
            result_bytes@ == boot_bytes() + data_bytes(globals@.take(g as int)),
            relocs_view(unresolved_labels@) == boot_relocs(),
            labels_view(label_map@) == data_labels(globals@.take(g as int), 6),
        decreases globals@.len() - g,
    {
        let global = &globals[g];
        let ghost labels_before = labels_view(label_map@);
        label_map.push(LabelEntry { name: global.label.clone(), offset: result_bytes.len() });
        assert(labels_view(label_map@) =~= labels_before.push(
            (global.label@, result_bytes@.len() as int),
        ));
        let ghost before = result_bytes@;
        let mut k: usize = 0;
        while k < global.initial_bytes.len()
            invariant
                k <= global.initial_bytes@.len(),
                result_bytes@ == before + global.initial_bytes@.take(k as int),
            decreases global.initial_bytes@.len() - k,
        {
            result_bytes.push(global.initial_bytes[k]);
            k += 1;
            assert(result_bytes@ =~= before + global.initial_bytes@.take(k as int));
        }
        assert(global.initial_bytes@.take(k as int) =~= global.initial_bytes@);
        assert(globals@.take(g + 1).drop_last() =~= globals@.take(g as int));
        assert(result_bytes@ =~= boot_bytes() + data_bytes(globals@.take(g + 1)));
        g += 1;
    }
    assert(globals@.take(g as int) =~= globals@);
    if result_bytes.len() % 2 != 0 {
        result_bytes.push(0x00);
    }
    let ghost data = pad_even(boot_bytes() + data_bytes(globals@));
    let ghost start = data.len() as int;
    assert(result_bytes@ =~= data);

    let mut lines_vec = instrs;
    let ghost orig = lines_vec@;
    let ghost lines = normalized(orig);
    assert(data + code_bytes(lines.take(0)) =~= data);
    assert(boot_relocs() + code_relocs(lines.take(0), start) =~= boot_relocs());
    assert(data_labels(globals@, 6) + code_labels(lines.take(0), start) =~= data_labels(
        globals@,
        6,
    ));
    let mut i: usize = 0;
    while i < lines_vec.len()
        invariant
            lines_vec@.len() == orig.len(),
            lines.len() == orig.len(),
            lines == normalized(orig),
            orig == instrs@,
            start == data.len(),
            data == pad_even(boot_bytes() + data_bytes(globals@)),
            i <= orig.len(),
            forall|k: int| i <= k < orig.len() ==> lines_vec@[k] == orig[k],
            code_fault(lines.take(i as int)) is None,
            result_bytes@ == data + code_bytes(lines.take(i as int)),
            relocs_view(unresolved_labels@) == boot_relocs() + code_relocs(
                lines.take(i as int),
                start,
            ),
            labels_view(label_map@) == data_labels(globals@, 6) + code_labels(
                lines.take(i as int),
                start,
            ),
            result_bytes@.len() >= 6,
            forall|k: int|
                0 <= k < unresolved_labels@.len() ==> 0 <= #[trigger] relocs_view(
                    unresolved_labels@,
                )[k].offset && relocs_view(unresolved_labels@)[k].offset + 2
                    <= result_bytes@.len(),
        decreases orig.len() - i,
    {
        optimize_zero_index_instr(&mut lines_vec[i]);
        assert(lines_vec@[i as int] == lines[i as int]);
        let ghost at = result_bytes@.len() as int;
        let ghost relocs_before = relocs_view(unresolved_labels@);
        let res = convert_instr_to_bytes(
            &lines_vec[i],
            &mut result_bytes,
            &mut unresolved_labels,
            &mut label_map,
        );
        assert(lines.take(i + 1).drop_last() =~= lines.take(i as int));
        assert(lines.take(i + 1).last() == lines[i as int]);
        assert(code_fault(lines.take(i + 1)) == match code_fault(lines.take(i as int)) {
            Some(f) => Some(f),
            None => line_fault(lines[i as int]),
        });
        if let Err(e) = res {
            proof {
                lemma_code_fault_persists(lines, i + 1, e@);
            }
            return Err(e);
        }
        assert(relocs_view(unresolved_labels@) == relocs_before + line_relocs(
            lines[i as int],
            at,
        ));
        proof {
            lemma_line_relocs_in_bounds(lines[i as int], at);
            let rv = relocs_view(unresolved_labels@);
            assert(rv.len() == unresolved_labels@.len());
            assert forall|k: int| 0 <= k < unresolved_labels@.len() implies 0
                <= #[trigger] relocs_view(unresolved_labels@)[k].offset && relocs_view(
                unresolved_labels@,
            )[k].offset + 2 <= result_bytes@.len() by {
                if k >= relocs_before.len() {
                    assert(rv[k] == line_relocs(lines[i as int], at)[k - relocs_before.len()]);
                } else {
                    assert(rv[k] == relocs_before[k]);
                }
            }
        }
        assert(result_bytes@ =~= data + code_bytes(lines.take(i + 1)));
        assert(at == start + code_bytes(lines.take(i as int)).len());
        assert(code_relocs(lines.take(i + 1), start) == code_relocs(lines.take(i as int), start)
            + line_relocs(lines[i as int], at));
        assert(relocs_view(unresolved_labels@) =~= boot_relocs() + code_relocs(
            lines.take(i + 1),
            start,
        ));
        assert(labels_view(label_map@) =~= data_labels(globals@, 6) + code_labels(
            lines.take(i + 1),
            start,
        ));
        i += 1;
    }
    assert(lines.take(i as int) =~= lines);
    match resolve_labels(&mut result_bytes, &unresolved_labels, &label_map) {
        Ok(()) => Ok(result_bytes),
        Err(e) => Err(e),
    }
}

/// A zero-offset indexed source `0(Rn)` and the indirect source `@Rn`, in the
/// same line of the same program, give the same image or the same fault.
pub proof fn lemma_zero_index_same_encoding(
    globals: Seq<Global>,
    instrs: Seq<AsmLine>,
    k: int,
    r: Reg,
)
    requires
        0 <= k < instrs.len(),
        instrs[k].has_src(),
    ensures
        encode_program(globals, instrs.update(k, instrs[k].with_src(Operand::IndexedReg(r, 0))))
            == encode_program(globals, instrs.update(k, instrs[k].with_src(Operand::Indirect(r)))),
{
    let a = instrs.update(k, instrs[k].with_src(Operand::IndexedReg(r, 0)));
    let b = instrs.update(k, instrs[k].with_src(Operand::Indirect(r)));
    assert(a[k].normalize() == b[k].normalize());
    assert(normalized(a) =~= normalized(b));
}

/// A jump reaches a label exactly 511 words ahead; a label 512 words ahead
/// is out of range.
pub proof fn lemma_forward_jump_reach(
    bytes: Seq<u8>,
    offset: int,
    label: Seq<char>,
    labels: Seq<(Seq<char>, int)>,
)
    ensures
        lookup(labels, label) == Some(offset + 1022) ==> patch(
            bytes,
            Reloc { full_word: false, offset, label },
            labels,
        ) is Ok,
        lookup(labels, label) == Some(offset + 1024) ==> patch(
            bytes,
            Reloc { full_word: false, offset, label },
            labels,
        ) == Err::<Seq<u8>, EncodeFault>(EncodeFault::JumpOutOfRange(label)),
{
}

/// Words are emitted low byte first: the byte at the lower offset holds bits
/// 7:0, the next one bits 15:8.
pub proof fn lemma_word_bytes_little_endian(w: u16)
    ensures
        word_bytes(w).len() == 2,
        word_bytes(w)[0] == (w & 0xFF) as u8,
        word_bytes(w)[1] == (w >> 8) as u8,
        word_bytes(w)[0] as int + 256 * word_bytes(w)[1] as int == w,
{
    assert((w % 256) as u8 == (w & 0xFF) as u8 && (w / 256) as u8 == (w >> 8) as u8)
        by (bit_vector);
}

} // verus!
