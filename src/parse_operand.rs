use vstd::prelude::*;

use crate::get_verbs::{
    lemma_span_bound, numeral, numeral_at, span, string_from_chars, take_run, CharClass, ParseError,
};
use crate::operand::{reg_of, Operand, Reg};
use crate::source_cursor::{first, SourceCodeCursor};

verus! {

/// An operand as text gives it, labels as character sequences.
pub enum OperandText {
    Reg(Reg),
    IndexedReg(Reg, i16),
    Abs(u16),
    AbsLabel(Seq<char>),
    Indirect(Reg),
    IndirectAutoInc(Reg),
    Imm(u16),
    ImmLabel(Seq<char>),
}

/// What an operand read from text holds.
pub open spec fn operand_text(op: Operand) -> OperandText {
    match op {
        Operand::Reg(r) => OperandText::Reg(r),
        Operand::IndexedReg(r, o) => OperandText::IndexedReg(r, o),
        Operand::AbsLabel(l) => OperandText::AbsLabel(l@),
        Operand::Indirect(r) => OperandText::Indirect(r),
        Operand::IndirectAutoInc(r) => OperandText::IndirectAutoInc(r),
        Operand::Imm(v) => OperandText::Imm(v),
        Operand::ImmLabel(l) => OperandText::ImmLabel(l@),
        Operand::Abs(a) => OperandText::Abs(a),
    }
}

pub open spec fn char_digit(c: char) -> int {
    c as u32 - '0' as u32
}

/// A register name at the front of `s` and its length: `r4` to `r15`, `SP`, `SR`.
pub open spec fn reg_token(s: Seq<char>) -> Option<(Reg, int)> {
    if s.len() >= 3 && s[0] == 'r' && s[1] == '1' && 0 <= char_digit(s[2]) <= 5 {
        Some((reg_of((10 + char_digit(s[2])) as u16), 3))
    } else if s.len() >= 2 && s[0] == 'S' && s[1] == 'P' {
        Some((Reg::SP, 2))
    } else if s.len() >= 2 && s[0] == 'S' && s[1] == 'R' {
        Some((Reg::SR, 2))
    } else if s.len() >= 2 && s[0] == 'r' && 4 <= char_digit(s[1]) <= 9 {
        Some((reg_of(char_digit(s[1]) as u16), 2))
    } else {
        None
    }
}

/// The value of a decimal `i16` numeral: digits, or a minus sign then digits.
pub open spec fn signed_numeral(s: Seq<char>) -> Option<int> {
    if s.len() > 0 && s[0] == '-' {
        match numeral(s.drop_first(), 10, 32768) {
            Some(v) => Some(-v),
            None => None,
        }
    } else {
        numeral(s, 10, 32767)
    }
}

/// An immediate `#...` at the front of `s` and its length: a decimal `u16`
/// numeral, or else a label.
pub open spec fn imm_token(s: Seq<char>) -> Option<(OperandText, int)> {
    if first(s) == Some('#') {
        let t = s.drop_first();
        let w = t.take(span(t, CharClass::Word) as int);
        Some(
            (
                match numeral(w, 10, 65535) {
                    Some(v) => OperandText::Imm(v as u16),
                    None => OperandText::ImmLabel(w),
                },
                1 + w.len() as int,
            ),
        )
    } else {
        None
    }
}

/// The operand at the front of `s` and its length, in the order the forms are
/// tried: a register, an immediate, `@Rn` or `@Rn+`, `&label+0`, `offset(Rn)`.
pub open spec fn operand_token(s: Seq<char>) -> Option<(OperandText, int)> {
    if reg_token(s) is Some {
        Some((OperandText::Reg((reg_token(s)->0).0), (reg_token(s)->0).1))
    } else if imm_token(s) is Some {
        imm_token(s)
    } else if first(s) == Some('@') {
        let t = s.drop_first();
        match reg_token(t) {
            None => None,
            Some((r, n)) => if first(t.skip(n)) == Some('+') {
                Some((OperandText::IndirectAutoInc(r), 2 + n))
            } else {
                Some((OperandText::Indirect(r), 1 + n))
            },
        }
    } else if first(s) == Some('&') {
        let t = s.drop_first();
        let n = span(t, CharClass::Word) as int;
        if t.len() >= n + 2 && t[n] == '+' && t[n + 1] == '0' {
            Some((OperandText::AbsLabel(t.take(n)), n + 3))
        } else {
            None
        }
    } else {
        let n = span(s, CharClass::SignedDigit) as int;
        match signed_numeral(s.take(n)) {
            None => None,
            Some(o) => {
                let t = s.skip(n);
                if first(t) == Some('(') {
                    match reg_token(t.drop_first()) {
                        None => None,
                        Some((r, m)) => if t.len() >= m + 2 && t[m + 1] == ')' {
                            Some((OperandText::IndexedReg(r, o as i16), n + m + 2))
                        } else {
                            None
                        },
                    }
                } else {
                    None
                }
            },
        }
    }
}

fn reg_from_id(id: u16) -> (r: Reg)
    requires
        id < 16,
    ensures
        r == reg_of(id),
{
    match id {
        0 => Reg::PC,
        1 => Reg::SP,
        2 => Reg::SR,
        3 => Reg::CG,
        4 => Reg::R4,
        5 => Reg::R5,
        6 => Reg::R6,
        7 => Reg::R7,
        8 => Reg::R8,
        9 => Reg::R9,
        10 => Reg::R10,
        11 => Reg::R11,
        12 => Reg::R12,
        13 => Reg::R13,
        14 => Reg::R14,
        _ => Reg::R15,
    }
}

/// Consumes `n` characters.
pub(crate) fn skip_chars(cursor: &mut SourceCodeCursor, n: usize)
    requires
        n <= old(cursor).rest().len(),
    ensures
        final(cursor).rest().len() <= old(cursor).rest().len(),
        final(cursor).rest() == old(cursor).rest().skip(n as int),
{
    let mut i: usize = 0;
    while i < n
        invariant
            i <= n,
            n <= old(cursor).rest().len(),
            cursor.rest() == old(cursor).rest().skip(i as int),
        decreases n - i,
    {
        cursor.next();
        i += 1;
        assert(cursor.rest() =~= old(cursor).rest().skip(i as int));
    }
}

/// Reads a register name; the cursor moves only when one is read.
pub fn parse_reg(cursor: &mut SourceCodeCursor) -> (r: Option<Reg>)
    ensures
        final(cursor).rest().len() <= old(cursor).rest().len(),
        match reg_token(old(cursor).rest()) {
            Some((reg, n)) => r == Some(reg) && final(cursor).rest() == old(cursor).rest().skip(n),
            None => r is None && final(cursor).rest() == old(cursor).rest(),
        },
{
    let a = cursor.peek_nth(1);
    let b = cursor.peek_nth(2);
    let c = cursor.peek_nth(3);
    if let (Some('r'), Some('1'), Some(c)) = (a, b, c) {
        if '0' as u32 <= c as u32 && c as u32 <= '5' as u32 {
            skip_chars(cursor, 3);
            return Some(reg_from_id((10 + (c as u32 - '0' as u32)) as u16));
        }
    }
    match (a, b) {
        (Some('S'), Some('P')) => {
            skip_chars(cursor, 2);
            Some(Reg::SP)
        },
        (Some('S'), Some('R')) => {
            skip_chars(cursor, 2);
            Some(Reg::SR)
        },
        (Some('r'), Some(d)) => {
            if '4' as u32 <= d as u32 && d as u32 <= '9' as u32 {
                skip_chars(cursor, 2);
                Some(reg_from_id((d as u32 - '0' as u32) as u16))
            } else {
                None
            }
        },
        _ => None,
    }
}

/// Reads a run of letters, digits and underscores.
pub fn parse_label(cursor: &mut SourceCodeCursor) -> (r: String)
    ensures
        final(cursor).rest().len() <= old(cursor).rest().len(),
        r@ == old(cursor).rest().take(span(old(cursor).rest(), CharClass::Word) as int),
        final(cursor).rest() == old(cursor).rest().skip(span(old(cursor).rest(), CharClass::Word) as int),
{
    let text = take_run(cursor, CharClass::Word);
    string_from_chars(&text)
}

/// Reads an immediate `#value` or `#label`; the cursor does not move when
/// the text does not start with `#`.
pub fn parse_imm(cursor: &mut SourceCodeCursor) -> (r: Option<Operand>)
    ensures
        final(cursor).rest().len() <= old(cursor).rest().len(),
        match imm_token(old(cursor).rest()) {
            Some((t, n)) => r is Some && operand_text(r->0) == t && final(cursor).rest() == old(
                cursor,
            ).rest().skip(n),
            None => r is None && final(cursor).rest() == old(cursor).rest(),
        },
{
    match cursor.peek() {
        Some('#') => {},
        _ => {
            return None;
        },
    }
    let ghost s = cursor.rest();
    proof {
        lemma_span_bound(s.drop_first(), CharClass::Word);
    }
    cursor.next();
    let text = take_run(cursor, CharClass::Word);
    proof {
        let t = s.drop_first();
        let n = span(t, CharClass::Word) as int;
        assert(t.skip(n) =~= s.skip(1 + n));
        assert(text@.skip(0) =~= text@);
    }
    match numeral_at(&text, 0, 10, 65535) {
        Some(v) => Some(Operand::Imm(v as u16)),
        None => Some(Operand::ImmLabel(string_from_chars(&text))),
    }
}

/// Reads a decimal `i16`; the cursor moves only when one is read.
pub fn parse_signed_int(cursor: &mut SourceCodeCursor) -> (r: Option<i16>)
    ensures
        final(cursor).rest().len() <= old(cursor).rest().len(),
        ({
            let s = old(cursor).rest();
            let n = span(s, CharClass::SignedDigit) as int;
            match signed_numeral(s.take(n)) {
                Some(v) => r == Some(v as i16) && final(cursor).rest() == s.skip(n),
                None => r is None && final(cursor).rest() == s,
            }
        }),
{
    let ghost s = cursor.rest();
    let mut lookahead = cursor.duplicate();
    let text = take_run(&mut lookahead, CharClass::SignedDigit);
    let len = text.len();
    let value: Option<i16> = if len > 0 && text[0] == '-' {
        match numeral_at(&text, 1, 10, 32768) {
            Some(v) => Some((0 - v as i32) as i16),
            None => None,
        }
    } else {
        match numeral_at(&text, 0, 10, 32767) {
            Some(v) => Some(v as i16),
            None => None,
        }
    };
    proof {
        assert(text@.skip(0) =~= text@);
        if len > 0 {
            assert(text@.skip(1) =~= text@.drop_first());
        }
    }
    if value.is_some() {
        *cursor = lookahead;
    }
    value
}

/// Reads an operand in any of the forms that `operand_token` lists.
pub fn parse_operand(cursor: &mut SourceCodeCursor) -> (r: Result<Operand, ParseError>)
    ensures
        final(cursor).rest().len() <= old(cursor).rest().len(),
        match operand_token(old(cursor).rest()) {
            Some((t, n)) => r is Ok && operand_text(r->Ok_0) == t && final(cursor).rest() == old(
                cursor,
            ).rest().skip(n),
            None => r is Err,
        },
        r is Err ==> r->Err_0 is BadOperand,
{
    let ghost s = cursor.rest();
    if let Some(r) = parse_reg(cursor) {
        return Ok(Operand::Reg(r));
    }
    if let Some(operand) = parse_imm(cursor) {
        return Ok(operand);
    }
    if cursor.peek() == Some('@') {
        cursor.next();
        let reg = match parse_reg(cursor) {
            Some(r) => r,
            None => {
                return Err(ParseError::BadOperand);
            },
        };
        if cursor.peek() == Some('+') {
            cursor.next();
            proof {
                let t = s.drop_first();
                let n = (reg_token(t)->0).1;
                assert(t.skip(n).drop_first() =~= s.skip(2 + n));
            }
            return Ok(Operand::IndirectAutoInc(reg));
        } else {
            proof {
                let t = s.drop_first();
                let n = (reg_token(t)->0).1;
                assert(t.skip(n) =~= s.skip(1 + n));
            }
            return Ok(Operand::Indirect(reg));
        }
    }
    if cursor.peek() == Some('&') {
        cursor.next();
        let label = parse_label(cursor);
        let ghost t = s.drop_first();
        let ghost n = span(t, CharClass::Word) as int;
        proof {
            lemma_span_bound(t, CharClass::Word);
        }
        let plus = cursor.next();
        let zero = cursor.next();
        if plus != Some('+') || zero != Some('0') {
            return Err(ParseError::BadOperand);
        }
        proof {
            assert(t.skip(n)[0] == t[n]);
            assert(t.skip(n).drop_first()[0] == t[n + 1]);
            assert(t.skip(n).drop_first().drop_first() =~= s.skip(n + 3));
        }
        return Ok(Operand::AbsLabel(label));
    }
    let offset = match parse_signed_int(cursor) {
        Some(o) => o,
        None => {
            return Err(ParseError::BadOperand);
        },
    };
    let ghost n = span(s, CharClass::SignedDigit) as int;
    let ghost t = s.skip(n);
    proof {
        lemma_span_bound(s, CharClass::SignedDigit);
    }
    if cursor.next() != Some('(') {
        return Err(ParseError::BadOperand);
    }
    let reg = match parse_reg(cursor) {
        Some(r) => r,
        None => {
            return Err(ParseError::BadOperand);
        },
    };
    let ghost m = (reg_token(t.drop_first())->0).1;
    let close = cursor.next();
    if close != Some(')') {
        return Err(ParseError::BadOperand);
    }
    proof {
        assert(t.drop_first().skip(m)[0] == t[m + 1]);
        assert(t.drop_first().skip(m).drop_first() =~= s.skip(n + m + 2));
    }
    Ok(Operand::IndexedReg(reg, offset))
}

} // verus!
