use vstd::prelude::*;

use crate::asm_line::AsmLine;
use crate::ccode::CC;
use crate::operand::{Operand, Reg};
use crate::parse_operand::{parse_operand, skip_chars};
use crate::source_cursor::{first, SourceCodeCursor};

verus! {

/// A global variable: a label and the bytes it starts with.
#[derive(Debug, PartialEq, Eq)]
pub struct Global {
    pub label: String,
    pub initial_bytes: Vec<u8>,
}

/// Why a source text could not be read.
#[derive(Debug, PartialEq, Eq)]
pub enum ParseError {
    /// A mnemonic that is neither an instruction nor a pseudo-instruction.
    UnknownMnemonic(String),
    /// An operand that fits none of the addressing forms.
    BadOperand,
    /// A double-operand instruction without the comma between its operands.
    MissingComma,
    /// A `.bits` directive that does not follow a label, or whose value is malformed.
    BadGlobal,
}

/// The character classes that the reader scans runs of.
#[derive(Clone, Copy, PartialEq, Eq, Structural)]
pub enum CharClass {
    /// Space or tab.
    Blank,
    /// Anything but ASCII whitespace.
    NonSpace,
    /// ASCII letters, digits and the underscore.
    Word,
    /// ASCII digits and the minus sign.
    SignedDigit,
    /// Hexadecimal digits.
    HexDigit,
    /// Decimal digits.
    Digit,
    /// Anything but a newline.
    NotNewline,
}

pub open spec fn is_digit(c: char) -> bool {
    '0' as u32 <= c as u32 <= '9' as u32
}

pub open spec fn is_hex_letter(c: char) -> bool {
    ('a' as u32 <= c as u32 <= 'f' as u32) || ('A' as u32 <= c as u32 <= 'F' as u32)
}

pub open spec fn is_letter(c: char) -> bool {
    ('a' as u32 <= c as u32 <= 'z' as u32) || ('A' as u32 <= c as u32 <= 'Z' as u32)
}

/// ASCII whitespace: space, tab, newline, form feed, carriage return.
pub open spec fn is_space(c: char) -> bool {
    c == ' ' || c == '\t' || c == '\n' || c == '\x0C' || c == '\r'
}

pub open spec fn in_class(k: CharClass, c: char) -> bool {
    match k {
        CharClass::Blank => c == ' ' || c == '\t',
        CharClass::NonSpace => !is_space(c),
        CharClass::Word => is_letter(c) || is_digit(c) || c == '_',
        CharClass::SignedDigit => is_digit(c) || c == '-',
        CharClass::HexDigit => is_digit(c) || is_hex_letter(c),
        CharClass::Digit => is_digit(c),
        CharClass::NotNewline => c != '\n',
    }
}

/// The length of the longest prefix of `s` in class `k`.
pub open spec fn span(s: Seq<char>, k: CharClass) -> nat
    decreases s.len(),
{
    if s.len() > 0 && in_class(k, s[0]) {
        1 + span(s.drop_first(), k)
    } else {
        0
    }
}

pub(crate) proof fn lemma_span_bound(s: Seq<char>, k: CharClass)
    ensures
        span(s, k) <= s.len(),
        forall|i: int| 0 <= i < span(s, k) ==> in_class(k, #[trigger] s[i]),
        span(s, k) < s.len() ==> !in_class(k, s[span(s, k) as int]),
    decreases s.len(),
{
    if s.len() > 0 && in_class(k, s[0]) {
        lemma_span_bound(s.drop_first(), k);
        assert forall|i: int| 0 <= i < span(s, k) implies in_class(k, #[trigger] s[i]) by {
            if i > 0 {
                assert(s[i] == s.drop_first()[i - 1]);
            }
        }
    }
}

fn char_in_class(k: CharClass, c: char) -> (r: bool)
    ensures
        r == in_class(k, c),
{
    let n = c as u32;
    let digit = '0' as u32 <= n && n <= '9' as u32;
    match k {
        CharClass::Blank => c == ' ' || c == '\t',
        CharClass::NonSpace => !(c == ' ' || c == '\t' || c == '\n' || c == '\x0C' || c == '\r'),
        CharClass::Word => ('a' as u32 <= n && n <= 'z' as u32) || ('A' as u32 <= n && n
            <= 'Z' as u32) || digit || c == '_',
        CharClass::SignedDigit => digit || c == '-',
        CharClass::HexDigit => digit || ('a' as u32 <= n && n <= 'f' as u32) || ('A' as u32 <= n
            && n <= 'F' as u32),
        CharClass::Digit => digit,
        CharClass::NotNewline => c != '\n',
    }
}

/// Consumes the longest run of characters of class `k` and returns it.
pub fn take_run(cursor: &mut SourceCodeCursor, k: CharClass) -> (r: Vec<char>)
    ensures
        final(cursor).rest().len() <= old(cursor).rest().len(),
        r@ == old(cursor).rest().take(span(old(cursor).rest(), k) as int),
        final(cursor).rest() == old(cursor).rest().skip(span(old(cursor).rest(), k) as int),
{
    let ghost s = cursor.rest();
    proof {
        lemma_span_bound(s, k);
    }
    let mut run: Vec<char> = Vec::new();
    loop
        invariant
            span(s, k) <= s.len(),
            run@.len() <= span(s, k),
            run@ == s.take(run@.len() as int),
            cursor.rest() == s.skip(run@.len() as int),
            forall|i: int| 0 <= i < span(s, k) ==> in_class(k, #[trigger] s[i]),
            span(s, k) < s.len() ==> !in_class(k, s[span(s, k) as int]),
        ensures
            run@ == s.take(span(s, k) as int),
            cursor.rest() == s.skip(span(s, k) as int),
        decreases s.len() - run@.len(),
    {
        match cursor.peek() {
            Some(c) => {
                if !char_in_class(k, c) {
                    assert(run@.len() == span(s, k));
                    break ;
                }
                assert(run@.len() < span(s, k));
                cursor.next();
                run.push(c);
                assert(run@ =~= s.take(run@.len() as int));
                assert(cursor.rest() =~= s.skip(run@.len() as int));
            },
            None => {
                break ;
            },
        }
    }
    run
}

/// Relies on `String`'s `FromIterator<char>`: the string holds the characters in order.
#[verifier::external_body]
pub(crate) fn string_from_chars(cs: &Vec<char>) -> (r: String)
    ensures
        r@ == cs@,
{
    cs.iter().collect()
}

/// The text after the first newline of `s`, or nothing when there is none.
pub open spec fn after_line(s: Seq<char>) -> Seq<char> {
    let n = span(s, CharClass::NotNewline);
    if n < s.len() {
        s.skip(n as int + 1)
    } else {
        s.skip(n as int)
    }
}

proof fn lemma_after_line_shorter(s: Seq<char>)
    ensures
        after_line(s).len() <= s.len(),
        s.len() > 0 ==> after_line(s).len() < s.len(),
{
    lemma_span_bound(s, CharClass::NotNewline);
}

/// Consumes the rest of the line, newline included.
pub fn consume_rest_of_line(cursor: &mut SourceCodeCursor)
    ensures
        final(cursor).rest().len() <= old(cursor).rest().len(),
        final(cursor).rest() == after_line(old(cursor).rest()),
{
    proof {
        lemma_span_bound(cursor.rest(), CharClass::NotNewline);
    }
    let _ = take_run(cursor, CharClass::NotNewline);
    cursor.next();
    proof {
        let s = old(cursor).rest();
        let n = span(s, CharClass::NotNewline) as int;
        if n < s.len() {
            assert(s.skip(n).drop_first() =~= s.skip(n + 1));
        }
    }
}

/// Consumes spaces and tabs.
pub fn consume_whitespace(cursor: &mut SourceCodeCursor)
    ensures
        final(cursor).rest().len() <= old(cursor).rest().len(),
        final(cursor).rest() == old(cursor).rest().skip(span(old(cursor).rest(), CharClass::Blank) as int),
{
    let _ = take_run(cursor, CharClass::Blank);
}

/// The value of a digit in base 10 or 16.
pub open spec fn digit_value(c: char) -> int {
    if is_digit(c) {
        c as u32 - '0' as u32
    } else if 'a' as u32 <= c as u32 <= 'f' as u32 {
        c as u32 - 'a' as u32 + 10
    } else {
        c as u32 - 'A' as u32 + 10
    }
}

/// The value of a numeral in base `radix`.
pub open spec fn numeral_value(s: Seq<char>, radix: int) -> int
    decreases s.len(),
{
    if s.len() == 0 {
        0
    } else {
        numeral_value(s.drop_last(), radix) * radix + digit_value(s.last())
    }
}

/// The digit class of base 10 or 16.
pub open spec fn digit_class(radix: u32) -> CharClass {
    if radix == 16 {
        CharClass::HexDigit
    } else {
        CharClass::Digit
    }
}

/// The value of a non-empty numeral of base `radix`, if it is one and at most `limit`.
pub open spec fn numeral(s: Seq<char>, radix: u32, limit: int) -> Option<int> {
    if s.len() > 0 && (forall|i: int| 0 <= i < s.len() ==> in_class(digit_class(radix), #[trigger] s[i]))
        && numeral_value(s, radix as int) <= limit {
        Some(numeral_value(s, radix as int))
    } else {
        None
    }
}

proof fn lemma_numeral_prefix(s: Seq<char>, radix: int, i: int)
    requires
        radix == 10 || radix == 16,
        0 <= i <= s.len(),
        forall|j: int| 0 <= j < s.len() ==> 0 <= #[trigger] digit_value(s[j]) < radix,
    ensures
        0 <= numeral_value(s.take(i), radix) <= numeral_value(s, radix),
    decreases s.len(),
{
    if s.len() > 0 {
        let t = s.drop_last();
        assert forall|j: int| 0 <= j < t.len() implies 0 <= #[trigger] digit_value(t[j]) < radix by {
            assert(t[j] == s[j]);
        }
        if i < s.len() {
            assert(s.take(i) =~= t.take(i));
            lemma_numeral_prefix(t, radix, i);
        } else {
            assert(s.take(i) =~= s);
        }
        lemma_numeral_prefix(t, radix, t.len() as int);
        assert(t.take(t.len() as int) =~= t);
        assert(0 <= digit_value(s.last()) < radix);
        assert(numeral_value(t, radix) * radix >= numeral_value(t, radix)) by (nonlinear_arith)
            requires
                numeral_value(t, radix) >= 0,
                radix >= 1,
        ;
    } else {
        assert(s.take(i) =~= s);
    }
}

/// The value of the numeral `s[start..]` in base 10 or 16, when it is one and
/// at most `limit`.
pub(crate) fn numeral_at(s: &Vec<char>, start: usize, radix: u32, limit: u128) -> (r: Option<u128>)
    requires
        radix == 10 || radix == 16,
        start <= s@.len(),
        limit <= u64::MAX,
    ensures
        r is Some <==> numeral(s@.skip(start as int), radix, limit as int) is Some,
        r is Some ==> r->0 as int == numeral(s@.skip(start as int), radix, limit as int)->0,
{
    let ghost t = s@.skip(start as int);
    let class = if radix == 16 {
        CharClass::HexDigit
    } else {
        CharClass::Digit
    };
    if start == s.len() {
        return None;
    }
    let mut value: u128 = 0;
    let mut i: usize = start;
    while i < s.len()
        invariant
            radix == 10 || radix == 16,
            class == digit_class(radix),
            start <= i <= s@.len(),
            t == s@.skip(start as int),
            limit <= u64::MAX,
            value as int == numeral_value(t.take(i - start), radix as int),
            value <= limit,
            forall|j: int| 0 <= j < i - start ==> in_class(class, #[trigger] t[j]),
        decreases s@.len() - i,
    {
        let c = s[i];
        assert(c == t[i - start]);
        if !char_in_class(class, c) {
            return None;
        }
        let d: u128 = if '0' as u32 <= c as u32 && c as u32 <= '9' as u32 {
            (c as u32 - '0' as u32) as u128
        } else if 'a' as u32 <= c as u32 && c as u32 <= 'f' as u32 {
            (c as u32 - 'a' as u32 + 10) as u128
        } else {
            (c as u32 - 'A' as u32 + 10) as u128
        };
        assert(t.take(i + 1 - start).drop_last() =~= t.take(i - start));
        assert(value * radix as u128 <= u64::MAX * 16) by (nonlinear_arith)
            requires
                value <= u64::MAX,
                radix <= 16,
        ;
        value = value * radix as u128 + d;
        i += 1;
        if value > limit {
            proof {
                if forall|j: int| 0 <= j < t.len() ==> in_class(class, #[trigger] t[j]) {
                    assert forall|j: int| 0 <= j < t.len() implies 0 <= #[trigger] digit_value(
                        t[j],
                    ) < radix by {
                        assert(in_class(class, t[j]));
                    }
                    lemma_numeral_prefix(t, radix as int, i - start);
                }
            }
            return None;
        }
    }
    assert(t.take(i - start) =~= t);
    Some(value)
}

/// The first `n` bytes of `value`, low byte first.
pub open spec fn le_bytes(value: int, n: nat) -> Seq<u8>
    decreases n,
{
    if n == 0 {
        Seq::empty()
    } else {
        seq![(value % 256) as u8] + le_bytes(value / 256, (n - 1) as nat)
    }
}

/// The bytes of a `.bits` value `0x<hex>,<bits>` at the front of `s` (after
/// blanks): the low `bits / 8` bytes of the 64-bit value, at most eight.
pub open spec fn bits_value(s: Seq<char>) -> Option<Seq<u8>> {
    let t = s.skip(span(s, CharClass::Blank) as int);
    if t.len() >= 2 && t[0] == '0' && t[1] == 'x' {
        let u = t.skip(2);
        let h = span(u, CharClass::HexDigit) as int;
        let v = u.skip(h + 1);
        let d = span(v, CharClass::Digit) as int;
        if h < u.len() && u[h] == ',' {
            match (numeral(u.take(h), 16, u64::MAX as int), numeral(v.take(d), 10, u64::MAX as int)) {
                (Some(value), Some(bits)) => Some(
                    le_bytes(value, if bits / 8 < 8 { (bits / 8) as nat } else { 8 }),
                ),
                _ => None,
            }
        } else {
            None
        }
    } else {
        None
    }
}

proof fn lemma_le_bytes_len(value: int, n: nat)
    ensures
        le_bytes(value, n).len() == n,
    decreases n,
{
    if n > 0 {
        lemma_le_bytes_len(value / 256, (n - 1) as nat);
    }
}

/// Reads the value of a `.bits` directive: `0x<hex>,<bits>`.
pub fn parse_initial_bytes(cursor: &mut SourceCodeCursor) -> (r: Result<Vec<u8>, ParseError>)
    ensures
        final(cursor).rest().len() <= old(cursor).rest().len(),
        match bits_value(old(cursor).rest()) {
            Some(b) => r is Ok && r->Ok_0@ == b,
            None => r is Err,
        },
        r is Ok ==> r->Ok_0@.len() <= 8,
        r is Err ==> r->Err_0 is BadGlobal,
{
    let ghost s = cursor.rest();
    consume_whitespace(cursor);
    let ghost t = cursor.rest();
    proof {
        reveal_strlit("0x");
    }
    if !cursor.begins_with("0x") {
        proof {
            if t.len() >= 2 && t[0] == '0' && t[1] == 'x' {
                assert(t.take(2) =~= "0x"@);
            }
        }
        return Err(ParseError::BadGlobal);
    }
    assert(t.take(2) =~= seq!['0', 'x']);
    assert(t[0] == t.take(2)[0] && t[1] == t.take(2)[1]);
    cursor.next();
    cursor.next();
    let ghost u = t.skip(2);
    assert(cursor.rest() =~= u);
    let hex = take_run(cursor, CharClass::HexDigit);
    let ghost h = span(u, CharClass::HexDigit) as int;
    proof {
        lemma_span_bound(u, CharClass::HexDigit);
    }
    match cursor.next() {
        Some(',') => {},
        _ => {
            return Err(ParseError::BadGlobal);
        },
    }
    assert(u.skip(h)[0] == u[h]);
    assert(cursor.rest() =~= u.skip(h + 1));
    let bits = take_run(cursor, CharClass::Digit);
    assert(hex@.skip(0) =~= hex@);
    assert(bits@.skip(0) =~= bits@);
    let value = match numeral_at(&hex, 0, 16, u64::MAX as u128) {
        Some(v) => v,
        None => {
            return Err(ParseError::BadGlobal);
        },
    };
    let num_bits = match numeral_at(&bits, 0, 10, u64::MAX as u128) {
        Some(v) => v,
        None => {
            return Err(ParseError::BadGlobal);
        },
    };
    let num_bytes: usize = if num_bits / 8 < 8 {
        (num_bits / 8) as usize
    } else {
        8
    };
    let mut bytes: Vec<u8> = Vec::new();
    let mut rest: u128 = value;
    let mut i: usize = 0;
    while i < num_bytes
        invariant
            num_bytes <= 8,
            i <= num_bytes,
            bytes@ + le_bytes(rest as int, (num_bytes - i) as nat) == le_bytes(
                value as int,
                num_bytes as nat,
            ),
        decreases num_bytes - i,
    {
        let ghost before = bytes@;
        bytes.push((rest % 256) as u8);
        proof {
            assert(le_bytes(rest as int, (num_bytes - i) as nat) == seq![(rest % 256) as u8]
                + le_bytes(rest as int / 256, (num_bytes - i - 1) as nat));
            assert(bytes@ + le_bytes(rest as int / 256, (num_bytes - i - 1) as nat) =~= before
                + le_bytes(rest as int, (num_bytes - i) as nat));
        }
        rest = rest / 256;
        i += 1;
    }
    assert(bytes@ =~= bytes@ + le_bytes(rest as int, 0));
    proof {
        lemma_le_bytes_len(value as int, num_bytes as nat);
    }
    Ok(bytes)
}

/// Reads a jump target: blanks, then everything up to the next whitespace.
fn parse_jmp_label(cursor: &mut SourceCodeCursor) -> (r: String)
    ensures
        final(cursor).rest().len() <= old(cursor).rest().len(),
        ({
            let t = old(cursor).rest().skip(span(old(cursor).rest(), CharClass::Blank) as int);
            &&& r@ == t.take(span(t, CharClass::NonSpace) as int)
            &&& final(cursor).rest() == t.skip(span(t, CharClass::NonSpace) as int)
        }),
{
    consume_whitespace(cursor);
    let text = take_run(cursor, CharClass::NonSpace);
    string_from_chars(&text)
}

/// Whether the characters `w` spell `lit`.
fn word_is(w: &Vec<char>, lit: &str) -> (r: bool)
    ensures
        r == (w@ == lit@),
{
    let n = lit.unicode_len();
    if w.len() != n {
        return false;
    }
    let mut i: usize = 0;
    while i < n
        invariant
            n == lit@.len(),
            w@.len() == n,
            i <= n,
            w@.take(i as int) == lit@.take(i as int),
        decreases n - i,
    {
        if w[i] != lit.get_char(i) {
            assert(w@[i as int] != lit@[i as int]);
            return false;
        }
        assert(w@.take(i + 1) =~= lit@.take(i + 1));
        i += 1;
    }
    assert(w@ =~= w@.take(n as int));
    assert(lit@ =~= lit@.take(n as int));
    true
}

/// The single-operand mnemonics.
pub open spec fn single_mnemonic(m: Seq<char>) -> bool {
    m == "RRC"@ || m == "SWPB"@ || m == "RRA"@ || m == "SXT"@ || m == "PUSH"@ || m == "CALL"@
}

/// The jump mnemonics, with their aliases.
pub open spec fn jump_mnemonic(m: Seq<char>) -> bool {
    m == "JNE"@ || m == "JNZ"@ || m == "JEQ"@ || m == "JZ"@ || m == "JNC"@ || m == "JLO"@ || m
        == "JC"@ || m == "JHS"@ || m == "JN"@ || m == "JGE"@ || m == "JL"@ || m == "JMP"@
}

/// The double-operand mnemonics.
pub open spec fn double_mnemonic(m: Seq<char>) -> bool {
    m == "MOV"@ || m == "ADD"@ || m == "ADDC"@ || m == "SUB"@ || m == "SUBC"@ || m == "CMP"@ || m
        == "DADD"@ || m == "BIT"@ || m == "BIC"@ || m == "BIS"@ || m == "XOR"@ || m == "AND"@
}

/// The pseudo-instructions, each standing for a real instruction.
pub open spec fn pseudo_mnemonic(m: Seq<char>) -> bool {
    m == "ADC"@ || m == "BR"@ || m == "CLR"@ || m == "DEC"@ || m == "DECD"@ || m == "INC"@ || m
        == "INCD"@ || m == "NOP"@ || m == "POP"@ || m == "RET"@ || m == "RLA"@ || m == "RLC"@
        || m == "SBC"@ || m == "TST"@
}

pub open spec fn known_mnemonic(m: Seq<char>) -> bool {
    m.len() > 0 && (single_mnemonic(m) || jump_mnemonic(m) || double_mnemonic(m)
        || pseudo_mnemonic(m) || m == "RETI"@)
}

/// Reads the operands of the instruction named `base` and builds its line.
/// Pseudo-instructions become the instructions they stand for.
fn parse_instruction(base: &Vec<char>, is_byte_instr: bool, cursor: &mut SourceCodeCursor) -> (r:
    Result<AsmLine, ParseError>)
    ensures
        final(cursor).rest().len() <= old(cursor).rest().len(),
        (r matches Err(ParseError::UnknownMnemonic(_))) <==> !known_mnemonic(base@),
        r matches Err(ParseError::UnknownMnemonic(m)) ==> m@ == base@,
        r matches Ok(AsmLine::Jump(_, _)) ==> jump_mnemonic(base@),
{
    if base.len() == 0 {
        return Err(ParseError::UnknownMnemonic(String::new()));
    }
    if word_is(base, "RRC") || word_is(base, "SWPB") || word_is(base, "RRA") || word_is(base, "SXT") || word_is(base, "PUSH") || word_is(base, "CALL") {
        consume_whitespace(cursor);
        let operand = match parse_operand(cursor) {
            Ok(op) => op,
            Err(e) => {
                return Err(e);
            },
        };
        if word_is(base, "RRC") {
            Ok(AsmLine::RRC(operand, is_byte_instr))
        } else if word_is(base, "SWPB") {
            Ok(AsmLine::SWPB(operand, false))
        } else if word_is(base, "RRA") {
            Ok(AsmLine::RRA(operand, is_byte_instr))
        } else if word_is(base, "SXT") {
            Ok(AsmLine::SXT(operand, false))
        } else if word_is(base, "PUSH") {
            Ok(AsmLine::PUSH(operand, is_byte_instr))
        } else {
            Ok(AsmLine::CALL(operand, false))
        }
    } else if word_is(base, "RETI") {
        Ok(AsmLine::RETI)
    } else if word_is(base, "JNE") || word_is(base, "JNZ") {
        Ok(AsmLine::Jump(CC::NotEq, parse_jmp_label(cursor)))
    } else if word_is(base, "JEQ") || word_is(base, "JZ") {
        Ok(AsmLine::Jump(CC::Eq, parse_jmp_label(cursor)))
    } else if word_is(base, "JNC") || word_is(base, "JLO") {
        Ok(AsmLine::Jump(CC::NoCarry, parse_jmp_label(cursor)))
    } else if word_is(base, "JC") || word_is(base, "JHS") {
        Ok(AsmLine::Jump(CC::Carry, parse_jmp_label(cursor)))
    } else if word_is(base, "JN") {
        Ok(AsmLine::Jump(CC::Neg, parse_jmp_label(cursor)))
    } else if word_is(base, "JGE") {
        Ok(AsmLine::Jump(CC::GreaterEq, parse_jmp_label(cursor)))
    } else if word_is(base, "JL") {
        Ok(AsmLine::Jump(CC::Less, parse_jmp_label(cursor)))
    } else if word_is(base, "JMP") {
        Ok(AsmLine::Jump(CC::Unconditional, parse_jmp_label(cursor)))
    } else if word_is(base, "MOV") || word_is(base, "ADD") || word_is(base, "ADDC") || word_is(base, "SUB") || word_is(base, "SUBC") || word_is(base, "CMP") || word_is(base, "DADD") || word_is(base, "BIT") || word_is(base, "BIC") || word_is(base, "BIS") || word_is(base, "XOR") || word_is(base, "AND") {
        consume_whitespace(cursor);
        let src = match parse_operand(cursor) {
            Ok(op) => op,
            Err(e) => {
                return Err(e);
            },
        };
        match cursor.next() {
            Some(',') => {},
            _ => {
                return Err(ParseError::MissingComma);
            },
        }
        let dst = match parse_operand(cursor) {
            Ok(op) => op,
            Err(e) => {
                return Err(e);
            },
        };
        if word_is(base, "MOV") {
            Ok(AsmLine::MOV(src, dst, is_byte_instr))
        } else if word_is(base, "ADD") {
            Ok(AsmLine::ADD(src, dst, is_byte_instr))
        } else if word_is(base, "ADDC") {
            Ok(AsmLine::ADDC(src, dst, is_byte_instr))
        } else if word_is(base, "SUB") {
            Ok(AsmLine::SUB(src, dst, is_byte_instr))
        } else if word_is(base, "SUBC") {
            Ok(AsmLine::SUBC(src, dst, is_byte_instr))
        } else if word_is(base, "CMP") {
            Ok(AsmLine::CMP(src, dst, is_byte_instr))
        } else if word_is(base, "DADD") {
            Ok(AsmLine::DADD(src, dst, is_byte_instr))
        } else if word_is(base, "BIT") {
            Ok(AsmLine::BIT(src, dst, is_byte_instr))
        } else if word_is(base, "BIC") {
            Ok(AsmLine::BIC(src, dst, is_byte_instr))
        } else if word_is(base, "BIS") {
            Ok(AsmLine::BIS(src, dst, is_byte_instr))
        } else if word_is(base, "XOR") {
            Ok(AsmLine::XOR(src, dst, is_byte_instr))
        } else {
            Ok(AsmLine::AND(src, dst, is_byte_instr))
        }
    } else if word_is(base, "NOP") {
        Ok(AsmLine::MOV(Operand::Imm(0), Operand::Reg(Reg::CG), false))
    } else if word_is(base, "RET") {
        Ok(AsmLine::MOV(Operand::IndirectAutoInc(Reg::SP), Operand::Reg(Reg::PC), false))
    } else if word_is(base, "ADC") || word_is(base, "BR") || word_is(base, "CLR") || word_is(base, "DEC") || word_is(base, "DECD") || word_is(base, "INC") || word_is(base, "INCD") || word_is(base, "POP") || word_is(base, "RLA") || word_is(base, "RLC") || word_is(base, "SBC") || word_is(base, "TST") {
        consume_whitespace(cursor);
        let operand = match parse_operand(cursor) {
            Ok(op) => op,
            Err(e) => {
                return Err(e);
            },
        };
        if word_is(base, "ADC") {
            Ok(AsmLine::ADDC(Operand::Imm(0), operand, is_byte_instr))
        } else if word_is(base, "BR") {
            Ok(AsmLine::MOV(operand, Operand::Reg(Reg::PC), false))
        } else if word_is(base, "CLR") {
            Ok(AsmLine::MOV(Operand::Imm(0), operand, is_byte_instr))
        } else if word_is(base, "DEC") {
            Ok(AsmLine::SUB(Operand::Imm(1), operand, is_byte_instr))
        } else if word_is(base, "DECD") {
            Ok(AsmLine::SUB(Operand::Imm(2), operand, is_byte_instr))
        } else if word_is(base, "INC") {
            Ok(AsmLine::ADD(Operand::Imm(1), operand, is_byte_instr))
        } else if word_is(base, "INCD") {
            Ok(AsmLine::ADD(Operand::Imm(2), operand, is_byte_instr))
        } else if word_is(base, "POP") {
            Ok(AsmLine::MOV(Operand::IndirectAutoInc(Reg::SP), operand, is_byte_instr))
        } else if word_is(base, "RLA") {
            Ok(AsmLine::ADD(operand.clone(), operand, is_byte_instr))
        } else if word_is(base, "RLC") {
            Ok(AsmLine::ADDC(operand.clone(), operand, is_byte_instr))
        } else if word_is(base, "SBC") {
            Ok(AsmLine::SUBC(Operand::Imm(0), operand, is_byte_instr))
        } else {
            Ok(AsmLine::CMP(Operand::Imm(0), operand, is_byte_instr))
        }
    } else {
        Err(ParseError::UnknownMnemonic(string_from_chars(base)))
    }
}

/// The first `n` characters of `w`.
fn prefix_chars(w: &Vec<char>, n: usize) -> (r: Vec<char>)
    requires
        n <= w@.len(),
    ensures
        r@ == w@.take(n as int),
{
    let mut r: Vec<char> = Vec::new();
    let mut i: usize = 0;
    while i < n
        invariant
            n <= w@.len(),
            i <= n,
            r@ == w@.take(i as int),
        decreases n - i,
    {
        r.push(w[i]);
        i += 1;
        assert(r@ =~= w@.take(i as int));
    }
    r
}

/// Reads an assembly listing, one line at a time: blank lines, comments and
/// directives are skipped, but for `.bits`, which turns the label before it
/// into a global variable; `name:` is a label; anything else is an
/// instruction, with an optional `.W` or `.B` suffix, and its operands.
pub fn get_tokens(source_code_contents: String) -> (r: Result<
    (Vec<Global>, Vec<AsmLine>),
    ParseError,
>)
    ensures
        r is Ok ==> forall|i: int|
            0 <= i < r->Ok_0.0@.len() ==> #[trigger] r->Ok_0.0@[i].initial_bytes@.len() <= 8,
        r matches Err(ParseError::UnknownMnemonic(m)) ==> !known_mnemonic(m@),
{
    let mut cursor = SourceCodeCursor::new(source_code_contents);
    let mut globals: Vec<Global> = Vec::new();
    let mut lines: Vec<AsmLine> = Vec::new();
    while cursor.peek().is_some()
        invariant
            forall|i: int| 0 <= i < globals@.len() ==> #[trigger] globals@[i].initial_bytes@.len() <= 8,
        decreases cursor.rest().len(),
    {
        let ghost start = cursor.rest().len();
        consume_whitespace(&mut cursor);
        proof {
            lemma_span_bound(cursor.rest(), CharClass::NotNewline);
        }
        let c = match cursor.peek() {
            Some(c) => c,
            None => {
                break ;
            },
        };
        if c == '\n' || c == ';' || c == '.' {
            if cursor.begins_with(".bits") {
                proof {
                    reveal_strlit(".bits");
                }
                skip_chars(&mut cursor, 5);
                consume_whitespace(&mut cursor);
                let label = match lines.pop() {
                    Some(AsmLine::Label(l)) => l,
                    _ => {
                        return Err(ParseError::BadGlobal);
                    },
                };
                let initial_bytes = match parse_initial_bytes(&mut cursor) {
                    Ok(b) => b,
                    Err(e) => {
                        return Err(e);
                    },
                };
                globals.push(Global { label, initial_bytes });
                assert(globals@.last().initial_bytes@.len() <= 8);
            }
            proof {
                lemma_after_line_shorter(cursor.rest());
            }
            consume_rest_of_line(&mut cursor);
        } else {
            let word = take_run(&mut cursor, CharClass::NonSpace);
            let len = word.len();
            if len == 0 {
                return Err(ParseError::UnknownMnemonic(String::new()));
            }
            if word[len - 1] == ':' {
                let name = prefix_chars(&word, len - 1);
                lines.push(AsmLine::Label(string_from_chars(&name)));
            } else {
                let mut is_byte_instr = false;
                let mut base_len = len;
                if len >= 2 && word[len - 2] == '.' && (word[len - 1] == 'W' || word[len - 1]
                    == 'B') {
                    is_byte_instr = word[len - 1] == 'B';
                    base_len = len - 2;
                }
                let base = prefix_chars(&word, base_len);
                match parse_instruction(&base, is_byte_instr, &mut cursor) {
                    Ok(line) => lines.push(line),
                    Err(e) => {
                        return Err(e);
                    },
                }
            }
            proof {
                lemma_after_line_shorter(cursor.rest());
            }
            consume_rest_of_line(&mut cursor);
        }
        assert(cursor.rest().len() < start);
    }
    Ok((globals, lines))
}

} // verus!
