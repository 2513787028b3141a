//! A recursive-descent parser for the assembly grammar.
//!
//! Every executable parsing function mirrors a specification function over
//! the character sequence of the source; its contract says it returns
//! exactly what the specification function denotes. Alternatives are
//! ordered so that a float immediate is tried before an integer immediate,
//! and sigil-led operands before a label usage.

use crate::instruction::{mnemonic_opcode, Opcode};
use crate::tokens::{AssemblerInstruction, GInstruction, GToken, Program, Token};
use vstd::prelude::*;

verus! {

/// Whitespace between tokens: space, tab, carriage return, line feed.
pub open spec fn is_space_char(c: char) -> bool {
    c == ' ' || c == '\t' || c == '\r' || c == '\n'
}

/// A decimal digit.
pub open spec fn is_digit_char(c: char) -> bool {
    48 <= c as u32 <= 57
}

/// An ASCII letter or digit, the alphabet of identifiers.
pub open spec fn is_alnum_char(c: char) -> bool {
    (97 <= c as u32 <= 122) || (65 <= c as u32 <= 90) || (48 <= c as u32 <= 57)
}

/// The numeric value of a decimal digit character.
pub open spec fn digit_val(c: char) -> int {
    c as u32 - 48
}

fn is_space(c: char) -> (r: bool)
    ensures
        r == is_space_char(c),
{
    c == ' ' || c == '\t' || c == '\r' || c == '\n'
}

fn is_digit(c: char) -> (r: bool)
    ensures
        r == is_digit_char(c),
{
    let u = c as u32;
    48 <= u && u <= 57
}

fn is_alnum(c: char) -> (r: bool)
    ensures
        r == is_alnum_char(c),
{
    let u = c as u32;
    (97 <= u && u <= 122) || (65 <= u && u <= 90) || (48 <= u && u <= 57)
}

/// The first position at or after `pos` that does not hold whitespace.
pub open spec fn spec_skip_ws(s: Seq<char>, pos: int) -> int
    decreases s.len() - pos,
{
    if pos < s.len() && is_space_char(s[pos]) {
        spec_skip_ws(s, pos + 1)
    } else {
        pos
    }
}


/// The end of the maximal run of digits starting at `pos`.
pub open spec fn spec_end_digits(s: Seq<char>, pos: int) -> int
    decreases s.len() - pos,
{
    if pos < s.len() && is_digit_char(s[pos]) {
        spec_end_digits(s, pos + 1)
    } else {
        pos
    }
}


/// The end of the maximal run of letters and digits starting at `pos`.
pub open spec fn spec_end_alnum(s: Seq<char>, pos: int) -> int
    decreases s.len() - pos,
{
    if pos < s.len() && is_alnum_char(s[pos]) {
        spec_end_alnum(s, pos + 1)
    } else {
        pos
    }
}


/// The value of the digit run `s[from..to]`, read left to right.
pub open spec fn spec_digits_val(s: Seq<char>, from: int, to: int) -> int
    decreases to - from,
{
    if to <= from {
        0
    } else {
        spec_digits_val(s, from, to - 1) * 10 + digit_val(s[to - 1])
    }
}

/// A digit run's value is at least the value of any of its prefixes, and
/// never negative.
pub proof fn lemma_digits_val_mono(s: Seq<char>, from: int, mid: int, to: int)
    requires
        from <= mid <= to,
        forall|j: int| from <= j < to ==> is_digit_char(s[j]),
        0 <= from,
        to <= s.len(),
    ensures
        0 <= spec_digits_val(s, from, mid) <= spec_digits_val(s, from, to),
    decreases to - mid,
{
    if mid == to {
        lemma_digits_val_nonneg(s, from, to);
    } else {
        lemma_digits_val_mono(s, from, mid, to - 1);
        lemma_digits_val_nonneg(s, from, to - 1);
    }
}

pub proof fn lemma_digits_val_nonneg(s: Seq<char>, from: int, to: int)
    requires
        from <= to,
        forall|j: int| from <= j < to ==> is_digit_char(s[j]),
        0 <= from,
        to <= s.len(),
    ensures
        spec_digits_val(s, from, to) >= 0,
    decreases to - from,
{
    if to > from {
        lemma_digits_val_nonneg(s, from, to - 1);
    }
}

/// Advances past whitespace.
fn skip_ws(s: &str, len: usize, pos: usize) -> (r: usize)
    requires
        len == s@.len(),
        pos <= len,
    ensures
        r == spec_skip_ws(s@, pos as int),
        pos <= r <= len,
{
    let mut p: usize = pos;
    while p < len && is_space(s.get_char(p))
        invariant
            pos <= p <= len,
            len == s@.len(),
            spec_skip_ws(s@, pos as int) == spec_skip_ws(s@, p as int),
        decreases len - p,
    {
        p = p + 1;
    }
    p
}

/// Finds the end of the digit run starting at `pos`.
fn end_digits(s: &str, len: usize, pos: usize) -> (r: usize)
    requires
        len == s@.len(),
        pos <= len,
    ensures
        r == spec_end_digits(s@, pos as int),
        pos <= r <= len,
        forall|j: int| pos <= j < r ==> is_digit_char(s@[j]),
{
    let mut p: usize = pos;
    while p < len && is_digit(s.get_char(p))
        invariant
            pos <= p <= len,
            len == s@.len(),
            spec_end_digits(s@, pos as int) == spec_end_digits(s@, p as int),
            forall|j: int| pos <= j < p ==> is_digit_char(s@[j]),
        decreases len - p,
    {
        p = p + 1;
    }
    p
}

/// Finds the end of the identifier run starting at `pos`.
fn end_alnum(s: &str, len: usize, pos: usize) -> (r: usize)
    requires
        len == s@.len(),
        pos <= len,
    ensures
        r == spec_end_alnum(s@, pos as int),
        pos <= r <= len,
{
    let mut p: usize = pos;
    while p < len && is_alnum(s.get_char(p))
        invariant
            pos <= p <= len,
            len == s@.len(),
            spec_end_alnum(s@, pos as int) == spec_end_alnum(s@, p as int),
        decreases len - p,
    {
        p = p + 1;
    }
    p
}

/// Reads the value of the digit run `s[from..to]`, refusing values above
/// `cap`.
fn digits_value(s: &str, len: usize, from: usize, to: usize, cap: u32) -> (r: Option<u32>)
    requires
        len == s@.len(),
        from <= to <= len,
        forall|j: int| from <= j < to ==> is_digit_char(s@[j]),
    ensures
        match r {
            Option::Some(v) => spec_digits_val(s@, from as int, to as int) == v && v <= cap,
            Option::None => spec_digits_val(s@, from as int, to as int) > cap,
        },
{
    let mut acc: u64 = 0;
    let mut i: usize = from;
    while i < to
        invariant
            from <= i <= to <= len,
            len == s@.len(),
            forall|j: int| from <= j < to ==> is_digit_char(s@[j]),
            acc == spec_digits_val(s@, from as int, i as int),
            acc <= cap,
            cap <= u32::MAX,
        decreases to - i,
    {
        let c = s.get_char(i);
        let d: u32 = (c as u32) - 48;
        acc = acc * 10 + (d as u64);
        i = i + 1;
        if acc > cap as u64 {
            proof {
                lemma_digits_val_mono(s@, from as int, i as int, to as int);
            }
            return Option::None;
        }
    }
    Some(acc as u32)
}

/// Builds an owned string out of the characters `s[from..to]`.
fn slice_owned(s: &str, len: usize, from: usize, to: usize) -> (r: String)
    requires
        len == s@.len(),
        from <= to <= len,
    ensures
        r@ == s@.subrange(from as int, to as int),
{
    s.substring_char(from, to).to_owned()
}

/// The position of the first quote at or after `pos`, or the length of
/// the source when no quote follows.
pub open spec fn spec_find_quote(s: Seq<char>, pos: int) -> int
    decreases s.len() - pos,
{
    if pos < s.len() {
        if s[pos] == '\'' {
            pos
        } else {
            spec_find_quote(s, pos + 1)
        }
    } else {
        pos
    }
}


/// Finds the next quote character.
fn find_quote(s: &str, len: usize, pos: usize) -> (r: usize)
    requires
        len == s@.len(),
        pos <= len,
    ensures
        r == spec_find_quote(s@, pos as int),
        pos <= r <= len,
{
    let mut p: usize = pos;
    while p < len && s.get_char(p) != '\''
        invariant
            pos <= p <= len,
            len == s@.len(),
            spec_find_quote(s@, pos as int) == spec_find_quote(s@, p as int),
        decreases len - p,
    {
        p = p + 1;
    }
    p
}

/// A register operand: `$` followed by a register number up to 255.
pub open spec fn spec_parse_register(s: Seq<char>, pos: int) -> Option<(int, GToken)> {
    let p1 = spec_skip_ws(s, pos);
    if p1 < s.len() && s[p1] == '$' {
        let e = spec_end_digits(s, p1 + 1);
        if e == p1 + 1 || spec_digits_val(s, p1 + 1, e) > 255 {
            Option::None
        } else {
            Option::Some(
                (
                    spec_skip_ws(s, e),
                    GToken::Register { reg_num: spec_digits_val(s, p1 + 1, e) as u8 },
                ),
            )
        }
    } else {
        Option::None
    }
}

/// Parses a register operand such as `$3`.
pub fn parse_register(s: &str, pos: usize) -> (r: Option<(usize, Token)>)
    requires
        pos <= s@.len(),
    ensures
        match r {
            Option::Some((p, t)) => spec_parse_register(s@, pos as int) == Option::Some(
                (p as int, t@),
            ) && pos < p <= s@.len(),
            Option::None => spec_parse_register(s@, pos as int) is None,
        },
{
    let len = s.unicode_len();
    let p1 = skip_ws(s, len, pos);
    if p1 < len && s.get_char(p1) == '$' {
        let e = end_digits(s, len, p1 + 1);
        if e == p1 + 1 {
            return Option::None;
        }
        match digits_value(s, len, p1 + 1, e, 255) {
            Option::Some(v) => {
                let p = skip_ws(s, len, e);
                Option::Some((p, Token::Register { reg_num: v as u8 }))
            },
            Option::None => Option::None,
        }
    } else {
        Option::None
    }
}

/// An integer immediate: `#` followed by digits, read as an `i32`.
pub open spec fn spec_parse_integer_operand(s: Seq<char>, pos: int) -> Option<(int, GToken)> {
    let p1 = spec_skip_ws(s, pos);
    if p1 < s.len() && s[p1] == '#' {
        let e = spec_end_digits(s, p1 + 1);
        if e == p1 + 1 || spec_digits_val(s, p1 + 1, e) > i32::MAX {
            Option::None
        } else {
            Option::Some(
                (
                    spec_skip_ws(s, e),
                    GToken::IntegerOperand { value: spec_digits_val(s, p1 + 1, e) as i32 },
                ),
            )
        }
    } else {
        Option::None
    }
}

/// Parses an integer immediate such as `#100`.
pub fn parse_integer_operand(s: &str, pos: usize) -> (r: Option<(usize, Token)>)
    requires
        pos <= s@.len(),
    ensures
        match r {
            Option::Some((p, t)) => spec_parse_integer_operand(s@, pos as int) == Option::Some(
                (p as int, t@),
            ) && pos < p <= s@.len(),
            Option::None => spec_parse_integer_operand(s@, pos as int) is None,
        },
{
    let len = s.unicode_len();
    let p1 = skip_ws(s, len, pos);
    if p1 < len && s.get_char(p1) == '#' {
        let e = end_digits(s, len, p1 + 1);
        if e == p1 + 1 {
            return Option::None;
        }
        match digits_value(s, len, p1 + 1, e, 0x7FFF_FFFF) {
            Option::Some(v) => {
                let p = skip_ws(s, len, e);
                Option::Some((p, Token::IntegerOperand { value: v as i32 }))
            },
            Option::None => Option::None,
        }
    } else {
        Option::None
    }
}

/// A float immediate: `#`, an optional minus sign, digits, a dot, digits.
pub open spec fn spec_parse_float_operand(s: Seq<char>, pos: int) -> Option<(int, GToken)> {
    let p1 = spec_skip_ws(s, pos);
    if p1 < s.len() && s[p1] == '#' {
        let neg = p1 + 1 < s.len() && s[p1 + 1] == '-';
        let p2 = if neg {
            p1 + 2
        } else {
            p1 + 1
        };
        let e1 = spec_end_digits(s, p2);
        if e1 == p2 || !(e1 < s.len() && s[e1] == '.') {
            Option::None
        } else {
            let e2 = spec_end_digits(s, e1 + 1);
            if e2 == e1 + 1 || spec_digits_val(s, p2, e1) > u32::MAX || spec_digits_val(
                s,
                e1 + 1,
                e2,
            ) > u32::MAX {
                Option::None
            } else {
                Option::Some(
                    (
                        spec_skip_ws(s, e2),
                        GToken::FloatOperand {
                            neg,
                            whole: spec_digits_val(s, p2, e1) as u32,
                            frac: spec_digits_val(s, e1 + 1, e2) as u32,
                            frac_len: (e2 - (e1 + 1)) as u32,
                        },
                    ),
                )
            }
        }
    } else {
        Option::None
    }
}

/// Parses a float immediate such as `#-100.3`.
pub fn parse_float_operand(s: &str, pos: usize) -> (r: Option<(usize, Token)>)
    requires
        pos <= s@.len(),
    ensures
        match r {
            Option::Some((p, t)) => spec_parse_float_operand(s@, pos as int) == Option::Some(
                (p as int, t@),
            ) && pos < p <= s@.len(),
            Option::None => spec_parse_float_operand(s@, pos as int) is None,
        },
{
    let len = s.unicode_len();
    let p1 = skip_ws(s, len, pos);
    if p1 < len && s.get_char(p1) == '#' {
        let neg = p1 + 1 < len && s.get_char(p1 + 1) == '-';
        let p2 = if neg {
            p1 + 2
        } else {
            p1 + 1
        };
        let e1 = end_digits(s, len, p2);
        if e1 == p2 || !(e1 < len && s.get_char(e1) == '.') {
            return Option::None;
        }
        let e2 = end_digits(s, len, e1 + 1);
        if e2 == e1 + 1 {
            return Option::None;
        }
        let whole = match digits_value(s, len, p2, e1, 0xFFFF_FFFF) {
            Option::Some(v) => v,
            Option::None => {
                return Option::None;
            },
        };
        let frac = match digits_value(s, len, e1 + 1, e2, 0xFFFF_FFFF) {
            Option::Some(v) => v,
            Option::None => {
                return Option::None;
            },
        };
        let p = skip_ws(s, len, e2);
        Option::Some(
            (p, Token::FloatOperand { neg, whole, frac, frac_len: (e2 - (e1 + 1)) as u32 }),
        )
    } else {
        Option::None
    }
}

/// A label usage: `@` followed by an identifier.
pub open spec fn spec_parse_label_usage(s: Seq<char>, pos: int) -> Option<(int, GToken)> {
    let p1 = spec_skip_ws(s, pos);
    if p1 < s.len() && s[p1] == '@' {
        let p2 = spec_skip_ws(s, p1 + 1);
        let e = spec_end_alnum(s, p2);
        if e == p2 {
            Option::None
        } else {
            Option::Some(
                (spec_skip_ws(s, e), GToken::LabelUsage { name: s.subrange(p2, e) }),
            )
        }
    } else {
        Option::None
    }
}

/// Parses a label usage such as `@loop1`.
pub fn parse_label_usage(s: &str, pos: usize) -> (r: Option<(usize, Token)>)
    requires
        pos <= s@.len(),
    ensures
        match r {
            Option::Some((p, t)) => spec_parse_label_usage(s@, pos as int) == Option::Some(
                (p as int, t@),
            ) && pos < p <= s@.len(),
            Option::None => spec_parse_label_usage(s@, pos as int) is None,
        },
{
    let len = s.unicode_len();
    let p1 = skip_ws(s, len, pos);
    if p1 < len && s.get_char(p1) == '@' {
        let p2 = skip_ws(s, len, p1 + 1);
        let e = end_alnum(s, len, p2);
        if e == p2 {
            return Option::None;
        }
        let name = slice_owned(s, len, p2, e);
        let p = skip_ws(s, len, e);
        Option::Some((p, Token::LabelUsage { name }))
    } else {
        Option::None
    }
}

/// A string literal: a quote, any characters but a quote, a closing quote.
pub open spec fn spec_parse_irstring(s: Seq<char>, pos: int) -> Option<(int, GToken)> {
    let p1 = spec_skip_ws(s, pos);
    if p1 < s.len() && s[p1] == '\'' {
        let q = spec_find_quote(s, p1 + 1);
        if q < s.len() {
            Option::Some(
                (spec_skip_ws(s, q + 1), GToken::IrString { name: s.subrange(p1 + 1, q) }),
            )
        } else {
            Option::None
        }
    } else {
        Option::None
    }
}

/// Parses a string literal such as `'Hello'`.
pub fn parse_irstring(s: &str, pos: usize) -> (r: Option<(usize, Token)>)
    requires
        pos <= s@.len(),
    ensures
        match r {
            Option::Some((p, t)) => spec_parse_irstring(s@, pos as int) == Option::Some(
                (p as int, t@),
            ) && pos < p <= s@.len(),
            Option::None => spec_parse_irstring(s@, pos as int) is None,
        },
{
    let len = s.unicode_len();
    let p1 = skip_ws(s, len, pos);
    if p1 < len && s.get_char(p1) == '\'' {
        let q = find_quote(s, len, p1 + 1);
        if q < len {
            let name = slice_owned(s, len, p1 + 1, q);
            let p = skip_ws(s, len, q + 1);
            Option::Some((p, Token::IrString { name }))
        } else {
            Option::None
        }
    } else {
        Option::None
    }
}

/// An operand. A float immediate is tried before an integer immediate
/// (the integer form is a prefix of the float form), and the sigil-led
/// forms before nothing else: register and immediates come before a
/// label usage, and a string literal is tried last.
pub open spec fn spec_parse_operand(s: Seq<char>, pos: int) -> Option<(int, GToken)> {
    if spec_parse_float_operand(s, pos) is Some {
        spec_parse_float_operand(s, pos)
    } else if spec_parse_integer_operand(s, pos) is Some {
        spec_parse_integer_operand(s, pos)
    } else if spec_parse_register(s, pos) is Some {
        spec_parse_register(s, pos)
    } else if spec_parse_label_usage(s, pos) is Some {
        spec_parse_label_usage(s, pos)
    } else {
        spec_parse_irstring(s, pos)
    }
}

/// Parses any operand form.
pub fn parse_operand(s: &str, pos: usize) -> (r: Option<(usize, Token)>)
    requires
        pos <= s@.len(),
    ensures
        match r {
            Option::Some((p, t)) => spec_parse_operand(s@, pos as int) == Option::Some(
                (p as int, t@),
            ) && pos < p <= s@.len(),
            Option::None => spec_parse_operand(s@, pos as int) is None,
        },
{
    match parse_float_operand(s, pos) {
        Option::Some(x) => {
            return Option::Some(x);
        },
        Option::None => {},
    }
    match parse_integer_operand(s, pos) {
        Option::Some(x) => {
            return Option::Some(x);
        },
        Option::None => {},
    }
    match parse_register(s, pos) {
        Option::Some(x) => {
            return Option::Some(x);
        },
        Option::None => {},
    }
    match parse_label_usage(s, pos) {
        Option::Some(x) => {
            return Option::Some(x);
        },
        Option::None => {},
    }
    parse_irstring(s, pos)
}

/// A label declaration: an identifier followed by a colon.
pub open spec fn spec_parse_label_decl(s: Seq<char>, pos: int) -> Option<(int, GToken)> {
    let p1 = spec_skip_ws(s, pos);
    let e = spec_end_alnum(s, p1);
    if e == p1 {
        Option::None
    } else {
        let p2 = spec_skip_ws(s, e);
        if p2 < s.len() && s[p2] == ':' {
            Option::Some(
                (spec_skip_ws(s, p2 + 1), GToken::LabelDeclaration { name: s.subrange(p1, e) }),
            )
        } else {
            Option::None
        }
    }
}

/// Parses a label declaration such as `start:`.
pub fn parse_label_decl(s: &str, pos: usize) -> (r: Option<(usize, Token)>)
    requires
        pos <= s@.len(),
    ensures
        match r {
            Option::Some((p, t)) => spec_parse_label_decl(s@, pos as int) == Option::Some(
                (p as int, t@),
            ) && pos < p <= s@.len(),
            Option::None => spec_parse_label_decl(s@, pos as int) is None,
        },
{
    let len = s.unicode_len();
    let p1 = skip_ws(s, len, pos);
    let e = end_alnum(s, len, p1);
    if e == p1 {
        return Option::None;
    }
    let p2 = skip_ws(s, len, e);
    if p2 < len && s.get_char(p2) == ':' {
        let name = slice_owned(s, len, p1, e);
        let p = skip_ws(s, len, p2 + 1);
        Option::Some((p, Token::LabelDeclaration { name }))
    } else {
        Option::None
    }
}

/// An opcode: an identifier, looked up in the keyword table. Unknown
/// identifiers still parse, as the illegal opcode.
pub open spec fn spec_parse_opcode(s: Seq<char>, pos: int) -> Option<(int, GToken)> {
    let p1 = spec_skip_ws(s, pos);
    let e = spec_end_alnum(s, p1);
    if e == p1 {
        Option::None
    } else {
        Option::Some(
            (spec_skip_ws(s, e), GToken::Op { code: mnemonic_opcode(s.subrange(p1, e)) }),
        )
    }
}

/// Parses an opcode mnemonic such as `load`.
pub fn parse_opcode(s: &str, pos: usize) -> (r: Option<(usize, Token)>)
    requires
        pos <= s@.len(),
    ensures
        match r {
            Option::Some((p, t)) => spec_parse_opcode(s@, pos as int) == Option::Some(
                (p as int, t@),
            ) && pos < p <= s@.len(),
            Option::None => spec_parse_opcode(s@, pos as int) is None,
        },
{
    let len = s.unicode_len();
    let p1 = skip_ws(s, len, pos);
    let e = end_alnum(s, len, p1);
    if e == p1 {
        return Option::None;
    }
    let name = slice_owned(s, len, p1, e);
    let code = Opcode::from_mnemonic(name.as_str());
    let p = skip_ws(s, len, e);
    Option::Some((p, Token::Op { code }))
}

/// A directive name: a dot followed by an identifier.
pub open spec fn spec_parse_directive_decl(s: Seq<char>, pos: int) -> Option<(int, GToken)> {
    let p1 = spec_skip_ws(s, pos);
    if p1 < s.len() && s[p1] == '.' {
        let p2 = spec_skip_ws(s, p1 + 1);
        let e = spec_end_alnum(s, p2);
        if e == p2 {
            Option::None
        } else {
            Option::Some(
                (spec_skip_ws(s, e), GToken::Directive { name: s.subrange(p2, e) }),
            )
        }
    } else {
        Option::None
    }
}

/// Parses a directive name such as `.data`.
pub fn parse_directive_decl(s: &str, pos: usize) -> (r: Option<(usize, Token)>)
    requires
        pos <= s@.len(),
    ensures
        match r {
            Option::Some((p, t)) => spec_parse_directive_decl(s@, pos as int) == Option::Some(
                (p as int, t@),
            ) && pos < p <= s@.len(),
            Option::None => spec_parse_directive_decl(s@, pos as int) is None,
        },
{
    let len = s.unicode_len();
    let p1 = skip_ws(s, len, pos);
    if p1 < len && s.get_char(p1) == '.' {
        let p2 = skip_ws(s, len, p1 + 1);
        let e = end_alnum(s, len, p2);
        if e == p2 {
            return Option::None;
        }
        let name = slice_owned(s, len, p2, e);
        let p = skip_ws(s, len, e);
        Option::Some((p, Token::Directive { name }))
    } else {
        Option::None
    }
}

/// An opcode-led line: an optional label declaration, an opcode, and up
/// to three operands filled greedily from the left.
pub open spec fn spec_parse_instruction(s: Seq<char>, pos: int) -> Option<(int, GInstruction)> {
    let labr = spec_parse_label_decl(s, pos);
    let label = match labr {
        Option::Some(pt) => Option::Some(pt.1),
        Option::None => Option::None,
    };
    let lpos = match labr {
        Option::Some(pt) => pt.0,
        Option::None => pos,
    };
    match spec_parse_opcode(s, lpos) {
        Option::None => Option::None,
        Option::Some(oc) => {
            let o1r = spec_parse_operand(s, oc.0);
            let o1 = match o1r {
                Option::Some(pt) => Option::Some(pt.1),
                Option::None => Option::None,
            };
            let p1 = match o1r {
                Option::Some(pt) => pt.0,
                Option::None => oc.0,
            };
            let o2r = spec_parse_operand(s, p1);
            let o2 = match o2r {
                Option::Some(pt) => Option::Some(pt.1),
                Option::None => Option::None,
            };
            let p2 = match o2r {
                Option::Some(pt) => pt.0,
                Option::None => p1,
            };
            let o3r = spec_parse_operand(s, p2);
            let o3 = match o3r {
                Option::Some(pt) => Option::Some(pt.1),
                Option::None => Option::None,
            };
            let p3 = match o3r {
                Option::Some(pt) => pt.0,
                Option::None => p2,
            };
            Option::Some(
                (
                    p3,
                    GInstruction {
                        label,
                        directive: Option::None,
                        opcode: Option::Some(oc.1),
                        operand1: o1,
                        operand2: o2,
                        operand3: o3,
                    },
                ),
            )
        },
    }
}

/// Parses an opcode-led line such as `start: load $0 #100`.
pub fn parse_instruction(s: &str, pos: usize) -> (r: Option<(usize, AssemblerInstruction)>)
    requires
        pos <= s@.len(),
    ensures
        match r {
            Option::Some((p, inst)) => spec_parse_instruction(s@, pos as int) == Option::Some(
                (p as int, inst@),
            ) && pos < p <= s@.len(),
            Option::None => spec_parse_instruction(s@, pos as int) is None,
        },
{
    let labr = parse_label_decl(s, pos);
    let (lpos, label): (usize, Option<Token>) = match labr {
        Option::Some((p, t)) => (p, Option::Some(t)),
        Option::None => (pos, Option::None),
    };
    match parse_opcode(s, lpos) {
        Option::None => Option::None,
        Option::Some((opos, op)) => {
            let (p1, o1): (usize, Option<Token>) = match parse_operand(s, opos) {
                Option::Some((p, t)) => (p, Option::Some(t)),
                Option::None => (opos, Option::None),
            };
            let (p2, o2): (usize, Option<Token>) = match parse_operand(s, p1) {
                Option::Some((p, t)) => (p, Option::Some(t)),
                Option::None => (p1, Option::None),
            };
            let (p3, o3): (usize, Option<Token>) = match parse_operand(s, p2) {
                Option::Some((p, t)) => (p, Option::Some(t)),
                Option::None => (p2, Option::None),
            };
            Option::Some(
                (
                    p3,
                    AssemblerInstruction {
                        label,
                        directive: Option::None,
                        opcode: Option::Some(op),
                        operand1: o1,
                        operand2: o2,
                        operand3: o3,
                    },
                ),
            )
        },
    }
}

/// A directive-led line: an optional label declaration, a directive
/// name, and up to three operands filled greedily from the left.
pub open spec fn spec_parse_directive(s: Seq<char>, pos: int) -> Option<(int, GInstruction)> {
    let labr = spec_parse_label_decl(s, pos);
    let label = match labr {
        Option::Some(pt) => Option::Some(pt.1),
        Option::None => Option::None,
    };
    let lpos = match labr {
        Option::Some(pt) => pt.0,
        Option::None => pos,
    };
    match spec_parse_directive_decl(s, lpos) {
        Option::None => Option::None,
        Option::Some(dc) => {
            let o1r = spec_parse_operand(s, dc.0);
            let o1 = match o1r {
                Option::Some(pt) => Option::Some(pt.1),
                Option::None => Option::None,
            };
            let p1 = match o1r {
                Option::Some(pt) => pt.0,
                Option::None => dc.0,
            };
            let o2r = spec_parse_operand(s, p1);
            let o2 = match o2r {
                Option::Some(pt) => Option::Some(pt.1),
                Option::None => Option::None,
            };
            let p2 = match o2r {
                Option::Some(pt) => pt.0,
                Option::None => p1,
            };
            let o3r = spec_parse_operand(s, p2);
            let o3 = match o3r {
                Option::Some(pt) => Option::Some(pt.1),
                Option::None => Option::None,
            };
            let p3 = match o3r {
                Option::Some(pt) => pt.0,
                Option::None => p2,
            };
            Option::Some(
                (
                    p3,
                    GInstruction {
                        label,
                        directive: Option::Some(dc.1),
                        opcode: Option::None,
                        operand1: o1,
                        operand2: o2,
                        operand3: o3,
                    },
                ),
            )
        },
    }
}

/// Parses a directive-led line such as `hello: .asciiz 'Hi'`.
pub fn parse_directive(s: &str, pos: usize) -> (r: Option<(usize, AssemblerInstruction)>)
    requires
        pos <= s@.len(),
    ensures
        match r {
            Option::Some((p, inst)) => spec_parse_directive(s@, pos as int) == Option::Some(
                (p as int, inst@),
            ) && pos < p <= s@.len(),
            Option::None => spec_parse_directive(s@, pos as int) is None,
        },
{
    let labr = parse_label_decl(s, pos);
    let (lpos, label): (usize, Option<Token>) = match labr {
        Option::Some((p, t)) => (p, Option::Some(t)),
        Option::None => (pos, Option::None),
    };
    match parse_directive_decl(s, lpos) {
        Option::None => Option::None,
        Option::Some((dpos, d)) => {
            let (p1, o1): (usize, Option<Token>) = match parse_operand(s, dpos) {
                Option::Some((p, t)) => (p, Option::Some(t)),
                Option::None => (dpos, Option::None),
            };
            let (p2, o2): (usize, Option<Token>) = match parse_operand(s, p1) {
                Option::Some((p, t)) => (p, Option::Some(t)),
                Option::None => (p1, Option::None),
            };
            let (p3, o3): (usize, Option<Token>) = match parse_operand(s, p2) {
                Option::Some((p, t)) => (p, Option::Some(t)),
                Option::None => (p2, Option::None),
            };
            Option::Some(
                (
                    p3,
                    AssemblerInstruction {
                        label,
                        directive: Option::Some(d),
                        opcode: Option::None,
                        operand1: o1,
                        operand2: o2,
                        operand3: o3,
                    },
                ),
            )
        },
    }
}

/// One line of the program: an opcode form, or else a directive form.
pub open spec fn spec_parse_item(s: Seq<char>, pos: int) -> Option<(int, GInstruction)> {
    if spec_parse_instruction(s, pos) is Some {
        spec_parse_instruction(s, pos)
    } else {
        spec_parse_directive(s, pos)
    }
}

/// Parses one line of the program.
fn parse_item(s: &str, pos: usize) -> (r: Option<(usize, AssemblerInstruction)>)
    requires
        pos <= s@.len(),
    ensures
        match r {
            Option::Some((p, inst)) => spec_parse_item(s@, pos as int) == Option::Some(
                (p as int, inst@),
            ) && pos < p <= s@.len(),
            Option::None => spec_parse_item(s@, pos as int) is None,
        },
{
    match parse_instruction(s, pos) {
        Option::Some(x) => Option::Some(x),
        Option::None => parse_directive(s, pos),
    }
}

/// The greedy collection of lines starting at `pos`: the position where
/// collection stops and the instructions gathered up to there.
pub open spec fn spec_parse_program_rec(s: Seq<char>, pos: int) -> (int, Seq<GInstruction>)
    decreases s.len() - pos,
{
    match spec_parse_item(s, pos) {
        Option::None => (pos, Seq::<GInstruction>::empty()),
        Option::Some(pi) => if pos < pi.0 <= s.len() {
            let rest = spec_parse_program_rec(s, pi.0);
            (rest.0, seq![pi.1] + rest.1)
        } else {
            (pos, Seq::<GInstruction>::empty())
        },
    }
}

/// The whole program: at least one line must parse; the remainder starts
/// where collection stopped.
pub open spec fn spec_parse_program(s: Seq<char>) -> Option<(int, Seq<GInstruction>)> {
    if spec_parse_item(s, 0) is Some {
        Option::Some(spec_parse_program_rec(s, 0))
    } else {
        Option::None
    }
}

/// A structural failure to parse any instruction.
#[derive(Debug, Clone, PartialEq)]
pub struct ParserError {
    pub message: String,
}

/// The message reported when no instruction parses at all.
pub open spec fn spec_parse_fail_message() -> Seq<char> {
    "no instruction could be parsed from the source"@
}

/// Parses a source string into a program, greedily consuming as many
/// lines as possible; what it could not consume comes back as the
/// remainder.
pub fn parse_program(s: &str) -> (r: Result<(String, Program), ParserError>)
    ensures
        match r {
            Result::Ok(rp) => {
                &&& spec_parse_program(s@) == Option::Some(
                    (s@.len() - rp.0@.len(), rp.1@),
                )
                &&& rp.0@ == s@.skip(s@.len() - rp.0@.len())
            },
            Result::Err(e) => spec_parse_program(s@) is None && e.message@
                == spec_parse_fail_message(),
        },
{
    let len = s.unicode_len();
    let mut cur = parse_item(s, 0);
    if cur.is_none() {
        let msg = "no instruction could be parsed from the source".to_owned();
        return Result::Err(ParserError { message: msg });
    }
    let ghost whole = spec_parse_program_rec(s@, 0);
    let mut insts: Vec<AssemblerInstruction> = Vec::new();
    let mut pos: usize = 0;
    while cur.is_some()
        invariant
            pos <= len,
            len == s@.len(),
            whole == spec_parse_program_rec(s@, 0),
            whole.0 == spec_parse_program_rec(s@, pos as int).0,
            whole.1 == insts@.map_values(|i: AssemblerInstruction| i@) + spec_parse_program_rec(
                s@,
                pos as int,
            ).1,
            match cur {
                Option::Some((p, inst)) => spec_parse_item(s@, pos as int) == Option::Some(
                    (p as int, inst@),
                ) && pos < p <= len,
                Option::None => spec_parse_item(s@, pos as int) is None,
            },
        decreases len - pos,
    {
        let (p2, inst) = cur.unwrap();
        proof {
            let prev = insts@.map_values(|i: AssemblerInstruction| i@);
            let stepped = insts@.push(inst).map_values(|i: AssemblerInstruction| i@);
            assert(stepped =~= prev.push(inst@));
            assert(seq![inst@] + spec_parse_program_rec(s@, p2 as int).1
                == spec_parse_program_rec(s@, pos as int).1);
            assert(prev + (seq![inst@] + spec_parse_program_rec(s@, p2 as int).1) =~= stepped
                + spec_parse_program_rec(s@, p2 as int).1);
        }
        insts.push(inst);
        pos = p2;
        cur = parse_item(s, pos);
    }
    proof {
        assert(spec_parse_program_rec(s@, pos as int) == (
            pos as int,
            Seq::<GInstruction>::empty(),
        ));
        assert(whole.1 =~= insts@.map_values(|i: AssemblerInstruction| i@));
    }
    let remainder = slice_owned(s, len, pos, len);
    proof {
        assert(s@.subrange(pos as int, len as int) =~= s@.skip(pos as int));
    }
    Result::Ok((remainder, Program { instructions: insts }))
}

} // verus!
