//! Opcodes of the virtual machine: their wire ordinals and their mnemonics.

use vstd::prelude::*;

verus! {

/// One opcode of the virtual machine.
#[derive(Debug, Clone, Copy, PartialEq, Eq, Structural)]
#[allow(clippy::upper_case_acronyms)]
pub enum Opcode {
    /// Load a 16-bit immediate into a register.
    LOAD,
    /// `registers[rd] = registers[r1] + registers[r2]` (wrapping).
    ADD,
    /// `registers[rd] = registers[r1] - registers[r2]` (wrapping).
    SUB,
    /// `registers[rd] = registers[r1] * registers[r2]` (wrapping).
    MUL,
    /// Truncating division; the remainder register receives the rest.
    DIV,
    /// Halt the machine with exit code 0.
    HLT,
    /// Absolute jump to the address held in a register.
    JMP,
    /// Relative jump forwards.
    JMPF,
    /// Relative jump backwards.
    JMPB,
    /// Set the equal flag to `registers[r1] == registers[r2]`.
    EQ,
    /// Set the equal flag to `registers[r1] != registers[r2]`.
    NEQ,
    /// Set the equal flag to `registers[r1] > registers[r2]`.
    GT,
    /// Set the equal flag to `registers[r1] < registers[r2]`.
    LT,
    /// Set the equal flag to `registers[r1] >= registers[r2]`.
    GTE,
    /// Set the equal flag to `registers[r1] <= registers[r2]`.
    LTE,
    /// Jump to the address held in a register when the equal flag is set.
    JMPE,
    /// No operation; consumes its padding.
    NOP,
    /// Grow the heap by the byte count held in a register.
    ALOC,
    /// Increment a register by one (wrapping).
    INC,
    /// Decrement a register by one (wrapping).
    DEC,
    /// Jump to a 16-bit immediate address when the equal flag is set.
    DJMPE,
    /// Print the null-terminated string at a read-only data offset.
    PRTS,
    /// Illegal instruction; halts the machine with exit code 1.
    IGL,
    /// Load an immediate into a float register.
    LOADF64,
    ADDF64,
    SUBF64,
    MULF64,
    DIVF64,
    EQF64,
    NEQF64,
    GTF64,
    GTEF64,
    LTF64,
    LTEF64,
}

/// The wire ordinal of each opcode: byte 0 of its encoding.
pub open spec fn opcode_code(op: Opcode) -> u8 {
    match op {
        Opcode::LOAD => 0,
        Opcode::ADD => 1,
        Opcode::SUB => 2,
        Opcode::MUL => 3,
        Opcode::DIV => 4,
        Opcode::HLT => 5,
        Opcode::JMP => 6,
        Opcode::JMPF => 7,
        Opcode::JMPB => 8,
        Opcode::EQ => 9,
        Opcode::NEQ => 10,
        Opcode::GT => 11,
        Opcode::LT => 12,
        Opcode::GTE => 13,
        Opcode::LTE => 14,
        Opcode::JMPE => 15,
        Opcode::NOP => 16,
        Opcode::ALOC => 17,
        Opcode::INC => 18,
        Opcode::DEC => 19,
        Opcode::DJMPE => 20,
        Opcode::PRTS => 21,
        Opcode::LOADF64 => 22,
        Opcode::ADDF64 => 23,
        Opcode::SUBF64 => 24,
        Opcode::MULF64 => 25,
        Opcode::DIVF64 => 26,
        Opcode::EQF64 => 27,
        Opcode::NEQF64 => 28,
        Opcode::GTF64 => 29,
        Opcode::GTEF64 => 30,
        Opcode::LTF64 => 31,
        Opcode::LTEF64 => 32,
        Opcode::IGL => 100,
    }
}

/// The opcode a byte decodes to; bytes outside the defined range give `IGL`.
pub open spec fn code_opcode(v: u8) -> Opcode {
    if v == 0 {
        Opcode::LOAD
    } else if v == 1 {
        Opcode::ADD
    } else if v == 2 {
        Opcode::SUB
    } else if v == 3 {
        Opcode::MUL
    } else if v == 4 {
        Opcode::DIV
    } else if v == 5 {
        Opcode::HLT
    } else if v == 6 {
        Opcode::JMP
    } else if v == 7 {
        Opcode::JMPF
    } else if v == 8 {
        Opcode::JMPB
    } else if v == 9 {
        Opcode::EQ
    } else if v == 10 {
        Opcode::NEQ
    } else if v == 11 {
        Opcode::GT
    } else if v == 12 {
        Opcode::LT
    } else if v == 13 {
        Opcode::GTE
    } else if v == 14 {
        Opcode::LTE
    } else if v == 15 {
        Opcode::JMPE
    } else if v == 16 {
        Opcode::NOP
    } else if v == 17 {
        Opcode::ALOC
    } else if v == 18 {
        Opcode::INC
    } else if v == 19 {
        Opcode::DEC
    } else if v == 20 {
        Opcode::DJMPE
    } else if v == 21 {
        Opcode::PRTS
    } else if v == 22 {
        Opcode::LOADF64
    } else if v == 23 {
        Opcode::ADDF64
    } else if v == 24 {
        Opcode::SUBF64
    } else if v == 25 {
        Opcode::MULF64
    } else if v == 26 {
        Opcode::DIVF64
    } else if v == 27 {
        Opcode::EQF64
    } else if v == 28 {
        Opcode::NEQF64
    } else if v == 29 {
        Opcode::GTF64
    } else if v == 30 {
        Opcode::GTEF64
    } else if v == 31 {
        Opcode::LTF64
    } else if v == 32 {
        Opcode::LTEF64
    } else {
        Opcode::IGL
    }
}

impl Opcode {
    /// Encodes the opcode as its wire ordinal.
    pub fn to_byte(self) -> (r: u8)
        ensures
            r == opcode_code(self),
    {
        match self {
            Opcode::LOAD => 0,
            Opcode::ADD => 1,
            Opcode::SUB => 2,
            Opcode::MUL => 3,
            Opcode::DIV => 4,
            Opcode::HLT => 5,
            Opcode::JMP => 6,
            Opcode::JMPF => 7,
            Opcode::JMPB => 8,
            Opcode::EQ => 9,
            Opcode::NEQ => 10,
            Opcode::GT => 11,
            Opcode::LT => 12,
            Opcode::GTE => 13,
            Opcode::LTE => 14,
            Opcode::JMPE => 15,
            Opcode::NOP => 16,
            Opcode::ALOC => 17,
            Opcode::INC => 18,
            Opcode::DEC => 19,
            Opcode::DJMPE => 20,
            Opcode::PRTS => 21,
            Opcode::LOADF64 => 22,
            Opcode::ADDF64 => 23,
            Opcode::SUBF64 => 24,
            Opcode::MULF64 => 25,
            Opcode::DIVF64 => 26,
            Opcode::EQF64 => 27,
            Opcode::NEQF64 => 28,
            Opcode::GTF64 => 29,
            Opcode::GTEF64 => 30,
            Opcode::LTF64 => 31,
            Opcode::LTEF64 => 32,
            Opcode::IGL => 100,
        }
    }

    /// Decodes a byte into its opcode; undefined ordinals give `IGL`.
    pub fn from_byte(v: u8) -> (r: Opcode)
        ensures
            r == code_opcode(v),
    {
        match v {
            0 => Opcode::LOAD,
            1 => Opcode::ADD,
            2 => Opcode::SUB,
            3 => Opcode::MUL,
            4 => Opcode::DIV,
            5 => Opcode::HLT,
            6 => Opcode::JMP,
            7 => Opcode::JMPF,
            8 => Opcode::JMPB,
            9 => Opcode::EQ,
            10 => Opcode::NEQ,
            11 => Opcode::GT,
            12 => Opcode::LT,
            13 => Opcode::GTE,
            14 => Opcode::LTE,
            15 => Opcode::JMPE,
            16 => Opcode::NOP,
            17 => Opcode::ALOC,
            18 => Opcode::INC,
            19 => Opcode::DEC,
            20 => Opcode::DJMPE,
            21 => Opcode::PRTS,
            22 => Opcode::LOADF64,
            23 => Opcode::ADDF64,
            24 => Opcode::SUBF64,
            25 => Opcode::MULF64,
            26 => Opcode::DIVF64,
            27 => Opcode::EQF64,
            28 => Opcode::NEQF64,
            29 => Opcode::GTF64,
            30 => Opcode::GTEF64,
            31 => Opcode::LTF64,
            32 => Opcode::LTEF64,
            _ => Opcode::IGL,
        }
    }
}

/// Whether two strings hold the same characters.
pub fn str_eq_chars(a: &str, b: &str) -> (r: bool)
    ensures
        r == (a@ == b@),
{
    let alen = a.unicode_len();
    let blen = b.unicode_len();
    if alen != blen {
        return false;
    }
    let mut i: usize = 0;
    while i < alen
        invariant
            i <= alen,
            alen == a@.len(),
            alen == b@.len(),
            forall|j: int| 0 <= j < i ==> a@[j] == b@[j],
        decreases alen - i,
    {
        if a.get_char(i) != b.get_char(i) {
            return false;
        }
        i = i + 1;
    }
    proof {
        assert(a@ =~= b@);
    }
    true
}

/// The opcode a mnemonic names; unknown mnemonics give `IGL`.
pub open spec fn mnemonic_opcode(s: Seq<char>) -> Opcode {
    if s == "load"@ {
        Opcode::LOAD
    } else if s == "add"@ {
        Opcode::ADD
    } else if s == "sub"@ {
        Opcode::SUB
    } else if s == "mul"@ {
        Opcode::MUL
    } else if s == "div"@ {
        Opcode::DIV
    } else if s == "hlt"@ {
        Opcode::HLT
    } else if s == "jmp"@ {
        Opcode::JMP
    } else if s == "jmpf"@ {
        Opcode::JMPF
    } else if s == "jmpb"@ {
        Opcode::JMPB
    } else if s == "eq"@ {
        Opcode::EQ
    } else if s == "neq"@ {
        Opcode::NEQ
    } else if s == "gte"@ {
        Opcode::GTE
    } else if s == "gt"@ {
        Opcode::GT
    } else if s == "lte"@ {
        Opcode::LTE
    } else if s == "lt"@ {
        Opcode::LT
    } else if s == "jmpe"@ {
        Opcode::JMPE
    } else if s == "nop"@ {
        Opcode::NOP
    } else if s == "aloc"@ {
        Opcode::ALOC
    } else if s == "inc"@ {
        Opcode::INC
    } else if s == "dec"@ {
        Opcode::DEC
    } else if s == "djmpe"@ {
        Opcode::DJMPE
    } else if s == "prts"@ {
        Opcode::PRTS
    } else if s == "loadf64"@ {
        Opcode::LOADF64
    } else if s == "addf64"@ {
        Opcode::ADDF64
    } else if s == "subf64"@ {
        Opcode::SUBF64
    } else if s == "mulf64"@ {
        Opcode::MULF64
    } else if s == "divf64"@ {
        Opcode::DIVF64
    } else if s == "eqf64"@ {
        Opcode::EQF64
    } else if s == "neqf64"@ {
        Opcode::NEQF64
    } else if s == "gtf64"@ {
        Opcode::GTF64
    } else if s == "gtef64"@ {
        Opcode::GTEF64
    } else if s == "ltf64"@ {
        Opcode::LTF64
    } else if s == "ltef64"@ {
        Opcode::LTEF64
    } else {
        Opcode::IGL
    }
}

impl Opcode {
    /// Looks a mnemonic up in the keyword table; unknown names give `IGL`.
    pub fn from_mnemonic(s: &str) -> (r: Opcode)
        ensures
            r == mnemonic_opcode(s@),
    {
        if str_eq_chars(s, "load") {
            Opcode::LOAD
        } else if str_eq_chars(s, "add") {
            Opcode::ADD
        } else if str_eq_chars(s, "sub") {
            Opcode::SUB
        } else if str_eq_chars(s, "mul") {
            Opcode::MUL
        } else if str_eq_chars(s, "div") {
            Opcode::DIV
        } else if str_eq_chars(s, "hlt") {
            Opcode::HLT
        } else if str_eq_chars(s, "jmp") {
            Opcode::JMP
        } else if str_eq_chars(s, "jmpf") {
            Opcode::JMPF
        } else if str_eq_chars(s, "jmpb") {
            Opcode::JMPB
        } else if str_eq_chars(s, "eq") {
            Opcode::EQ
        } else if str_eq_chars(s, "neq") {
            Opcode::NEQ
        } else if str_eq_chars(s, "gte") {
            Opcode::GTE
        } else if str_eq_chars(s, "gt") {
            Opcode::GT
        } else if str_eq_chars(s, "lte") {
            Opcode::LTE
        } else if str_eq_chars(s, "lt") {
            Opcode::LT
        } else if str_eq_chars(s, "jmpe") {
            Opcode::JMPE
        } else if str_eq_chars(s, "nop") {
            Opcode::NOP
        } else if str_eq_chars(s, "aloc") {
            Opcode::ALOC
        } else if str_eq_chars(s, "inc") {
            Opcode::INC
        } else if str_eq_chars(s, "dec") {
            Opcode::DEC
        } else if str_eq_chars(s, "djmpe") {
            Opcode::DJMPE
        } else if str_eq_chars(s, "prts") {
            Opcode::PRTS
        } else if str_eq_chars(s, "loadf64") {
            Opcode::LOADF64
        } else if str_eq_chars(s, "addf64") {
            Opcode::ADDF64
        } else if str_eq_chars(s, "subf64") {
            Opcode::SUBF64
        } else if str_eq_chars(s, "mulf64") {
            Opcode::MULF64
        } else if str_eq_chars(s, "divf64") {
            Opcode::DIVF64
        } else if str_eq_chars(s, "eqf64") {
            Opcode::EQF64
        } else if str_eq_chars(s, "neqf64") {
            Opcode::NEQF64
        } else if str_eq_chars(s, "gtf64") {
            Opcode::GTF64
        } else if str_eq_chars(s, "gtef64") {
            Opcode::GTEF64
        } else if str_eq_chars(s, "ltf64") {
            Opcode::LTF64
        } else if str_eq_chars(s, "ltef64") {
            Opcode::LTEF64
        } else {
            Opcode::IGL
        }
    }

    /// Whether this opcode works on the float register file.
    pub open spec fn spec_is_float(self) -> bool {
        22 <= opcode_code(self) <= 32
    }

    /// Whether this opcode works on the float register file.
    pub fn is_float(self) -> (r: bool)
        ensures
            r == self.spec_is_float(),
    {
        let c = self.to_byte();
        22 <= c && c <= 32
    }
}

/// An opcode paired for execution; operands live in the byte stream.
#[derive(Debug, Clone, Copy, PartialEq, Eq, Structural)]
pub struct Instruction {
    pub opcode: Opcode,
}

impl Instruction {
    /// Creates a new instruction around an opcode.
    pub fn new(opcode: Opcode) -> (r: Instruction)
        ensures
            r.opcode == opcode,
    {
        Instruction { opcode }
    }
}

} // verus!
