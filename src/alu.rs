use vstd::prelude::*;

verus! {

/// A 16-bit word read as a two's-complement integer.
pub open spec fn signed(v: u16) -> int {
    if v >= 0x8000 {
        v - 0x10000
    } else {
        v as int
    }
}

/// Whether an integer lies outside the signed 16-bit range.
pub open spec fn signed_overflow(x: int) -> bool {
    x < -0x8000 || x > 0x7FFF
}

/// The sign bit of a word.
pub open spec fn negative(v: u16) -> bool {
    v >= 0x8000
}

/// The single-operand table: result, new carry, zero, negative and overflow
/// flags (`None` leaves a flag alone), whether the stack pointer drops, and the
/// new program counter (zero when none). `pc` is the address of the instruction.
pub open spec fn single_operand_spec(x: u16, carry: bool, opcode: u16, pc: u16) -> (
    u16,
    Option<bool>,
    Option<bool>,
    Option<bool>,
    Option<bool>,
    bool,
    u16,
) {
    if opcode == 0 {
        // RRC: rotate right through carry
        let r = (x / 2 + if carry { 0x8000int } else { 0 }) as u16;
        (r, Some(x % 2 != 0), Some(r == 0), Some(carry), Some(false), false, 0)
    } else if opcode == 1 {
        // SWPB: swap the bytes
        (((x % 256) * 256 + x / 256) as u16, None, None, None, None, false, 0)
    } else if opcode == 2 {
        // RRA: arithmetic shift right
        let r = (x / 2 + if negative(x) { 0x8000int } else { 0 }) as u16;
        (r, Some(x % 2 != 0), Some(r == 0), Some(negative(r)), Some(false), false, 0)
    } else if opcode == 3 {
        // SXT: sign-extend the low byte
        let low = x % 256;
        let r = (if low >= 0x80 { low + 0xFF00 } else { low as int }) as u16;
        (r, Some(r != 0), Some(r == 0), Some(low >= 0x80), Some(false), false, 0)
    } else if opcode == 4 {
        // PUSH
        (x, None, None, None, None, true, 0)
    } else {
        // CALL: the return address is pushed, control goes to the operand
        (pc.wrapping_add(2), None, None, None, None, true, x)
    }
}

/// The double-operand table: result and new carry, zero, negative and
/// overflow flags (`None` leaves a flag alone) of `dst op src`.
pub open spec fn double_operand_spec(src: u16, dst: u16, carry: bool, opcode: u16) -> (
    u16,
    Option<bool>,
    Option<bool>,
    Option<bool>,
    Option<bool>,
) {
    let c: int = if carry { 1 } else { 0 };
    if opcode == 4 {
        // MOV
        (src, None, None, None, None)
    } else if opcode == 5 || opcode == 6 {
        // ADD, ADDC
        let cin = if opcode == 6 { c } else { 0 };
        let r = ((src + dst + cin) % 0x10000) as u16;
        (
            r,
            Some(src + dst + cin > 0xFFFF),
            Some(r == 0),
            Some(negative(r)),
            Some(signed_overflow(signed(src) + signed(dst) + cin)),
        )
    } else if opcode == 7 || opcode == 8 || opcode == 9 {
        // SUBC, SUB, CMP: carry set when no borrow occurs
        let bin = if opcode == 7 { 1 - c } else { 0 };
        let d = dst - src - bin;
        let r = ((d + 0x10000) % 0x10000) as u16;
        (
            r,
            Some(d >= 0),
            Some(r == 0),
            Some(negative(r)),
            Some(signed_overflow(signed(dst) - signed(src) - bin)),
        )
    } else if opcode == 11 || opcode == 15 {
        // BIT, AND
        let r = src & dst;
        (r, Some(r != 0), Some(r == 0), Some(negative(r)), Some(false))
    } else if opcode == 12 {
        // BIC
        (!src & dst, None, None, None, None)
    } else if opcode == 13 {
        // BIS
        (src | dst, None, None, None, None)
    } else {
        // XOR
        let r = src ^ dst;
        (r, Some(r != 0), Some(r == 0), Some(negative(r)), Some(negative(src) && negative(dst)))
    }
}

/// The opcodes of the double-operand table; DADD (0xA) is not among them.
pub open spec fn double_opcode_supported(opcode: u16) -> bool {
    4 <= opcode <= 15 && opcode != 10
}

fn to_signed(v: u16) -> (r: i32)
    ensures
        r as int == signed(v),
{
    if v >= 0x8000 {
        v as i32 - 0x10000
    } else {
        v as i32
    }
}

pub fn process_single_operand_w(operand_1: u16, carry_bit: bool, opcode: u16, regs: &[u16]) -> (r: (
    u16,
    Option<bool>,
    Option<bool>,
    Option<bool>,
    Option<bool>,
    bool,
    u16,
))
    requires
        opcode <= 5,
        regs@.len() == 16,
    ensures
        r == single_operand_spec(operand_1, carry_bit, opcode, regs@[0]),
{
    if opcode == 0 {
        let high: u16 = if carry_bit { 0x8000 } else { 0 };
        let result = operand_1 / 2 + high;
        (result, Some(operand_1 % 2 != 0), Some(result == 0), Some(carry_bit), Some(false), false, 0)
    } else if opcode == 1 {
        ((operand_1 % 256) * 256 + operand_1 / 256, None, None, None, None, false, 0)
    } else if opcode == 2 {
        let high: u16 = if operand_1 >= 0x8000 { 0x8000 } else { 0 };
        let result = operand_1 / 2 + high;
        (
            result,
            Some(operand_1 % 2 != 0),
            Some(result == 0),
            Some(result >= 0x8000),
            Some(false),
            false,
            0,
        )
    } else if opcode == 3 {
        let low = operand_1 % 256;
        let is_negative = low >= 0x80;
        let result = if is_negative {
            low + 0xFF00
        } else {
            low
        };
        (result, Some(result != 0), Some(result == 0), Some(is_negative), Some(false), false, 0)
    } else if opcode == 4 {
        (operand_1, None, None, None, None, true, 0)
    } else {
        (regs[0].wrapping_add(2), None, None, None, None, true, operand_1)
    }
}

pub fn process_double_operand_w(operand_1: u16, operand_2: u16, carry_bit: bool, opcode: u16) -> (r: (
    u16,
    Option<bool>,
    Option<bool>,
    Option<bool>,
    Option<bool>,
))
    requires
        double_opcode_supported(opcode),
    ensures
        r == double_operand_spec(operand_1, operand_2, carry_bit, opcode),
{
    let c: u32 = if carry_bit { 1 } else { 0 };
    if opcode == 4 {
        (operand_1, None, None, None, None)
    } else if opcode == 5 || opcode == 6 {
        let carry_in: u32 = if opcode == 6 { c } else { 0 };
        let sum: u32 = operand_1 as u32 + operand_2 as u32 + carry_in;
        let result = (sum % 0x10000) as u16;
        let signed_sum: i32 = to_signed(operand_1) + to_signed(operand_2) + carry_in as i32;
        (
            result,
            Some(sum > 0xFFFF),
            Some(result == 0),
            Some(result >= 0x8000),
            Some(signed_sum < -0x8000 || signed_sum > 0x7FFF),
        )
    } else if opcode == 7 || opcode == 8 || opcode == 9 {
        let borrow_in: i32 = if opcode == 7 { 1 - c as i32 } else { 0 };
        let diff: i32 = operand_2 as i32 - operand_1 as i32 - borrow_in;
        let result = ((diff + 0x10000) % 0x10000) as u16;
        let signed_diff: i32 = to_signed(operand_2) - to_signed(operand_1) - borrow_in;
        (
            result,
            Some(diff >= 0),
            Some(result == 0),
            Some(result >= 0x8000),
            Some(signed_diff < -0x8000 || signed_diff > 0x7FFF),
        )
    } else if opcode == 11 || opcode == 15 {
        let result = operand_1 & operand_2;
        (result, Some(result != 0), Some(result == 0), Some(result >= 0x8000), Some(false))
    } else if opcode == 12 {
        (!operand_1 & operand_2, None, None, None, None)
    } else if opcode == 13 {
        (operand_1 | operand_2, None, None, None, None)
    } else {
        let result = operand_1 ^ operand_2;
        (
            result,
            Some(result != 0),
            Some(result == 0),
            Some(result >= 0x8000),
            Some(operand_1 >= 0x8000 && operand_2 >= 0x8000),
        )
    }
}

} // verus!
