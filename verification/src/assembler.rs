//! The two-pass assembler: symbol collection and read-only data layout in
//! the first pass, 4-byte instruction encoding in the second, and a
//! 64-byte header in front of the image.
//!
//! Every pass is specified as a fold over the parsed program, so the
//! whole of `assemble` is a function of the source text alone.

use crate::ext::u32_le_bytes;
use crate::instruction::{opcode_code, Opcode};
use crate::parser::parse_program;
use crate::symbols::{
    spec_has_symbol, spec_set_symbol_offset, spec_symbol_value, AssemblerPhase, GSymbol, Symbol,
    SymbolTable, SymbolType,
};
use crate::tokens::{AssemblerInstruction, GInstruction, GToken, Program, Token};
use vstd::prelude::*;
use vstd::utf8::encode_utf8;

verus! {

/// An error found while assembling. Errors are collected, not raised.
#[derive(Debug, PartialEq)]
pub enum AssemblerError {
    /// The source could not be parsed at all.
    ParseError { error: String },
    /// A label or non-section directive stood before any section header.
    NoSegmentDeclarationFound { instruction: u32 },
    /// A string constant stood without a label to name it.
    StringConstantDeclaredWithoutLabel { instruction: u32 },
    /// A label was declared twice.
    SymbolAlreadyDeclared,
    /// A directive name that the assembler does not know.
    UnknownDirectiveFound { directive: String },
    /// Fewer or more than the required two section headers were seen.
    InsufficientSections,
}

/// The mathematical shape of an assembler error.
pub enum GAsmError {
    ParseError { error: Seq<char> },
    NoSegmentDeclarationFound { instruction: u32 },
    StringConstantDeclaredWithoutLabel { instruction: u32 },
    SymbolAlreadyDeclared,
    UnknownDirectiveFound { directive: Seq<char> },
    InsufficientSections,
}

impl View for AssemblerError {
    type V = GAsmError;

    open spec fn view(&self) -> GAsmError {
        match self {
            AssemblerError::ParseError { error } => GAsmError::ParseError { error: error@ },
            AssemblerError::NoSegmentDeclarationFound { instruction } =>
                GAsmError::NoSegmentDeclarationFound { instruction: *instruction },
            AssemblerError::StringConstantDeclaredWithoutLabel { instruction } =>
                GAsmError::StringConstantDeclaredWithoutLabel { instruction: *instruction },
            AssemblerError::SymbolAlreadyDeclared => GAsmError::SymbolAlreadyDeclared,
            AssemblerError::UnknownDirectiveFound { directive } =>
                GAsmError::UnknownDirectiveFound { directive: directive@ },
            AssemblerError::InsufficientSections => GAsmError::InsufficientSections,
        }
    }
}

impl AssemblerError {
    /// A copy of the error that provably carries the same content.
    pub fn duplicate(&self) -> (r: AssemblerError)
        ensures
            r@ == self@,
    {
        match self {
            AssemblerError::ParseError { error } => AssemblerError::ParseError {
                error: error.clone(),
            },
            AssemblerError::NoSegmentDeclarationFound { instruction } =>
                AssemblerError::NoSegmentDeclarationFound { instruction: *instruction },
            AssemblerError::StringConstantDeclaredWithoutLabel { instruction } =>
                AssemblerError::StringConstantDeclaredWithoutLabel { instruction: *instruction },
            AssemblerError::SymbolAlreadyDeclared => AssemblerError::SymbolAlreadyDeclared,
            AssemblerError::UnknownDirectiveFound { directive } =>
                AssemblerError::UnknownDirectiveFound { directive: directive.clone() },
            AssemblerError::InsufficientSections => AssemblerError::InsufficientSections,
        }
    }
}

/// A section of the program, as named by a section-header directive.
#[derive(Debug, Clone, Copy, PartialEq)]
pub enum AssemblerSection {
    Data { starting_instruction: Option<u32> },
    Code { starting_instruction: Option<u32> },
    Unknown,
}

impl Default for AssemblerSection {
    /// Before any header is seen, the section is unknown.
    fn default() -> (r: Self)
        ensures
            r == AssemblerSection::Unknown,
    {
        AssemblerSection::Unknown
    }
}

/// A read-only data offset as a `u32`: the length saturates at the
/// largest representable offset.
pub open spec fn spec_ro_off(l: nat) -> u32 {
    if l < 0xFFFF_FFFF {
        l as u32
    } else {
        0xFFFF_FFFF
    }
}

/// The section a header name denotes: `data`, `code`, or unknown.
pub open spec fn spec_section_for(name: Seq<char>) -> AssemblerSection {
    if name == "data"@ {
        AssemblerSection::Data { starting_instruction: Option::None }
    } else if name == "code"@ {
        AssemblerSection::Code { starting_instruction: Option::None }
    } else {
        AssemblerSection::Unknown
    }
}

impl AssemblerSection {
    /// Maps a section-header name to its section.
    pub fn from_name(name: &str) -> (r: AssemblerSection)
        ensures
            r == spec_section_for(name@),
    {
        if crate::instruction::str_eq_chars(name, "data") {
            AssemblerSection::Data { starting_instruction: Option::None }
        } else if crate::instruction::str_eq_chars(name, "code") {
            AssemblerSection::Code { starting_instruction: Option::None }
        } else {
            AssemblerSection::Unknown
        }
    }
}

/// The mathematical state of the assembler.
#[verifier::ext_equal]
pub struct GAsm {
    pub phase: AssemblerPhase,
    pub symbols: Seq<GSymbol>,
    pub ro: Seq<u8>,
    pub bytecode: Seq<u8>,
    pub sections: Seq<AssemblerSection>,
    pub current_section: Option<AssemblerSection>,
    pub current_instruction: u32,
    pub code_offset: u32,
    pub errors: Seq<GAsmError>,
}

/// The two-pass assembler.
#[derive(Debug)]
pub struct Assembler {
    /// Which pass the assembler is in.
    pub phase: AssemblerPhase,
    /// The symbol table built during the first pass.
    pub symbols: SymbolTable,
    /// The read-only data the first pass lays out.
    pub ro: Vec<u8>,
    /// Room for compiled bytecode.
    pub bytecode: Vec<u8>,
    /// Errors found along the way; any error fails the assembly.
    pub errors: Vec<AssemblerError>,
    /// Every section header seen so far.
    sections: Vec<AssemblerSection>,
    /// The section the first pass is currently inside.
    current_section: Option<AssemblerSection>,
    /// The index of the instruction being processed.
    current_instruction: u32,
    /// The code-segment byte offset of the next code instruction.
    code_offset: u32,
}

impl View for Assembler {
    type V = GAsm;

    closed spec fn view(&self) -> GAsm {
        GAsm {
            phase: self.phase,
            symbols: self.symbols@,
            ro: self.ro@,
            bytecode: self.bytecode@,
            sections: self.sections@,
            current_section: self.current_section,
            current_instruction: self.current_instruction,
            code_offset: self.code_offset,
            errors: self.errors@.map_values(|e: AssemblerError| e@),
        }
    }
}

/// The state after a label declaration is processed: the label joins the
/// symbol table, with its code offset when it stands on a code
/// instruction; duplicates and labels outside any section are errors.
pub open spec fn spec_process_label_decl(st: GAsm, inst: GInstruction) -> GAsm {
    match inst.spec_label_name() {
        Option::None => GAsm {
            errors: st.errors.push(
                GAsmError::StringConstantDeclaredWithoutLabel {
                    instruction: st.current_instruction,
                },
            ),
            ..st
        },
        Option::Some(name) => {
            if spec_has_symbol(st.symbols, name) {
                GAsm { errors: st.errors.push(GAsmError::SymbolAlreadyDeclared), ..st }
            } else if inst.spec_is_opcode() {
                GAsm {
                    symbols: st.symbols.push(
                        GSymbol {
                            name,
                            offset: Option::Some(st.code_offset),
                            symbol_type: SymbolType::Label,
                        },
                    ),
                    ..st
                }
            } else {
                GAsm {
                    symbols: st.symbols.push(
                        GSymbol { name, offset: Option::None, symbol_type: SymbolType::Label },
                    ),
                    ..st
                }
            }
        },
    }
}

/// The state after a section header is processed: known sections are
/// recorded and become current; unknown names change nothing.
pub open spec fn spec_process_section_header(st: GAsm, name: Seq<char>) -> GAsm {
    let sec = spec_section_for(name);
    if sec is Unknown {
        st
    } else {
        GAsm { sections: st.sections.push(sec), current_section: Option::Some(sec), ..st }
    }
}

/// The state after an `asciiz` directive is processed in the first pass:
/// the label's offset becomes the current end of the read-only data, and
/// the string's UTF-8 bytes follow it there, closed by a null byte.
pub open spec fn spec_handle_asciiz(st: GAsm, inst: GInstruction) -> GAsm {
    if st.phase != AssemblerPhase::First {
        st
    } else {
        match inst.spec_string_constant() {
            Option::None => st,
            Option::Some(content) => match inst.spec_label_name() {
                Option::None => GAsm {
                    errors: st.errors.push(
                        GAsmError::StringConstantDeclaredWithoutLabel {
                            instruction: st.current_instruction,
                        },
                    ),
                    ..st
                },
                Option::Some(name) => GAsm {
                    symbols: spec_set_symbol_offset(st.symbols, name, spec_ro_off(st.ro.len())),
                    ro: st.ro + encode_utf8(content) + seq![0u8],
                    ..st
                },
            },
        }
    }
}

/// The state after a directive is processed: section headers take no
/// operands; `asciiz` is the one directive with operands; any other
/// directive with operands is an error.
pub open spec fn spec_process_directive(st: GAsm, inst: GInstruction) -> GAsm {
    match inst.spec_directive_name() {
        Option::None => st,
        Option::Some(dname) => {
            if inst.spec_has_operands() {
                if dname == "asciiz"@ {
                    spec_handle_asciiz(st, inst)
                } else {
                    GAsm {
                        errors: st.errors.push(
                            GAsmError::UnknownDirectiveFound { directive: dname },
                        ),
                        ..st
                    }
                }
            } else {
                spec_process_section_header(st, dname)
            }
        },
    }
}

/// One first-pass step over one instruction: label handling, then
/// directive handling, then the bookkeeping of offsets and indices.
pub open spec fn spec_first_step(st: GAsm, inst: GInstruction) -> GAsm {
    let st1 = if inst.spec_is_label() {
        if st.current_section is Some {
            spec_process_label_decl(st, inst)
        } else {
            GAsm {
                errors: st.errors.push(
                    GAsmError::NoSegmentDeclarationFound { instruction: st.current_instruction },
                ),
                ..st
            }
        }
    } else {
        st
    };
    let st2 = if inst.spec_is_directive() {
        spec_process_directive(st1, inst)
    } else {
        st1
    };
    let st3 = if inst.spec_is_opcode() {
        GAsm { code_offset: st2.code_offset.wrapping_add(4), ..st2 }
    } else {
        st2
    };
    GAsm { current_instruction: st3.current_instruction.wrapping_add(1), ..st3 }
}

/// The state of a freshly created assembler.
pub open spec fn spec_new_asm() -> GAsm {
    GAsm {
        phase: AssemblerPhase::First,
        symbols: Seq::<GSymbol>::empty(),
        ro: Seq::<u8>::empty(),
        bytecode: Seq::<u8>::empty(),
        sections: Seq::<AssemblerSection>::empty(),
        current_section: Option::None,
        current_instruction: 0,
        code_offset: 0,
        errors: Seq::<GAsmError>::empty(),
    }
}

/// The first pass folded over a whole program.
pub open spec fn spec_first_fold(st: GAsm, insts: Seq<GInstruction>) -> GAsm
    decreases insts.len(),
{
    if insts.len() == 0 {
        st
    } else {
        spec_first_fold(spec_first_step(st, insts[0]), insts.drop_first())
    }
}

/// The whole first pass: the fold, and the move to the second phase.
pub open spec fn spec_first_phase(st: GAsm, insts: Seq<GInstruction>) -> GAsm {
    GAsm { phase: AssemblerPhase::Second, ..spec_first_fold(st, insts) }
}

impl Assembler {
    /// Creates a fresh assembler, ready for its first pass.
    pub fn new() -> (r: Assembler)
        ensures
            r@ == spec_new_asm(),
    {
        let r = Assembler {
            phase: AssemblerPhase::First,
            symbols: SymbolTable::new(),
            ro: Vec::new(),
            bytecode: Vec::new(),
            errors: Vec::new(),
            sections: Vec::new(),
            current_section: Option::None,
            current_instruction: 0,
            code_offset: 0,
        };
        proof {
            assert(r@ =~= spec_new_asm());
        }
        r
    }

    /// Pushes an error, in both worlds.
    fn push_error(&mut self, e: AssemblerError)
        ensures
            final(self)@ == (GAsm { errors: old(self)@.errors.push(e@), ..old(self)@ }),
    {
        let ghost g = e@;
        self.errors.push(e);
        proof {
            assert(self@.errors =~= old(self)@.errors.push(g));
            assert(self@ =~= GAsm { errors: old(self)@.errors.push(g), ..old(self)@ });
        }
    }

    /// A copy of the collected errors that provably carries the same
    /// content.
    fn duplicate_errors(&self) -> (r: Vec<AssemblerError>)
        ensures
            r@.map_values(|e: AssemblerError| e@) == self@.errors,
    {
        let mut out: Vec<AssemblerError> = Vec::new();
        let n = self.errors.len();
        let mut i: usize = 0;
        proof {
            assert(out@.map_values(|e: AssemblerError| e@) =~= self@.errors.take(0));
        }
        while i < n
            invariant
                i <= n,
                n == self.errors@.len(),
                self@.errors.len() == n,
                out@.map_values(|e: AssemblerError| e@) == self@.errors.take(i as int),
            decreases n - i,
        {
            let d = self.errors[i].duplicate();
            proof {
                assert(out@.push(d).map_values(|e: AssemblerError| e@) =~= out@.map_values(
                    |e: AssemblerError| e@,
                ).push(d@));
                assert(self@.errors.take(i as int).push(self@.errors[i as int]) =~= self@
                    .errors.take(i + 1));
            }
            out.push(d);
            i = i + 1;
        }
        proof {
            assert(self@.errors.take(n as int) =~= self@.errors);
        }
        out
    }

    /// Handles a label declaration: the label joins the symbol table,
    /// with its code offset when it stands on a code instruction.
    fn process_label_decl(&mut self, inst: &AssemblerInstruction)
        ensures
            final(self)@ == spec_process_label_decl(old(self)@, inst@),
    {
        let name = match inst.get_label_name() {
            Option::Some(name) => name,
            Option::None => {
                let idx = self.current_instruction;
                self.push_error(
                    AssemblerError::StringConstantDeclaredWithoutLabel { instruction: idx },
                );
                return ;
            },
        };
        if self.symbols.has_symbol(name.as_str()) {
            self.push_error(AssemblerError::SymbolAlreadyDeclared);
            return ;
        }
        if inst.is_opcode() {
            let off = self.code_offset;
            self.symbols.add_symbol(Symbol::new_with_offset(name, SymbolType::Label, off));
        } else {
            self.symbols.add_symbol(Symbol::new(name, SymbolType::Label));
        }
        proof {
            assert(self@ =~= spec_process_label_decl(old(self)@, inst@));
        }
    }

    /// Handles a section header: known sections are recorded and become
    /// current.
    fn process_section_header(&mut self, header_name: &str)
        ensures
            final(self)@ == spec_process_section_header(old(self)@, header_name@),
    {
        let new_section = AssemblerSection::from_name(header_name);
        match new_section {
            AssemblerSection::Unknown => {
                return ;
            },
            _ => {},
        }
        self.sections.push(new_section);
        self.current_section = Option::Some(new_section);
        proof {
            assert(self@ =~= spec_process_section_header(old(self)@, header_name@));
        }
    }

    /// Handles `label: .asciiz 'text'`: the label's offset becomes the
    /// current end of the read-only data, and the string's bytes follow
    /// there, closed by a null byte.
    fn handle_asciiz(&mut self, inst: &AssemblerInstruction)
        ensures
            final(self)@ == spec_handle_asciiz(old(self)@, inst@),
    {
        if !matches!(self.phase, AssemblerPhase::First) {
            return ;
        }
        let content = match inst.get_string_constant() {
            Option::Some(content) => content,
            Option::None => {
                return ;
            },
        };
        let name = match inst.get_label_name() {
            Option::Some(name) => name,
            Option::None => {
                let idx = self.current_instruction;
                self.push_error(
                    AssemblerError::StringConstantDeclaredWithoutLabel { instruction: idx },
                );
                return ;
            },
        };
        let l = self.ro.len();
        let off: u32 = if l < 0xFFFF_FFFF as usize {
            l as u32
        } else {
            0xFFFF_FFFF
        };
        self.symbols.set_symbol_offset(name.as_str(), off);
        let bytes = content.as_str().as_bytes();
        let m = bytes.len();
        let ghost content_bytes = encode_utf8(content@);
        proof {
            assert(bytes@ == content_bytes);
            assert(self@.ro =~= old(self)@.ro + content_bytes.take(0));
        }
        let mut i: usize = 0;
        while i < m
            invariant
                i <= m,
                m == bytes@.len(),
                bytes@ == content_bytes,
                self@.ro == old(self)@.ro + content_bytes.take(i as int),
                self@ == (GAsm { ro: self@.ro, ..spec_set_state(old(self)@, name@, off) }),
            decreases m - i,
        {
            let b = bytes[i];
            self.ro.push(b);
            proof {
                assert((old(self)@.ro + content_bytes.take(i as int)).push(bytes@[i as int])
                    =~= old(self)@.ro + content_bytes.take(i + 1));
                assert(self@ =~= GAsm { ro: self@.ro, ..spec_set_state(old(self)@, name@, off) });
            }
            i = i + 1;
        }
        self.ro.push(0);
        proof {
            assert(content_bytes.take(m as int) =~= content_bytes);
            assert(self@.ro =~= old(self)@.ro + content_bytes + seq![0u8]);
            assert(self@ =~= spec_handle_asciiz(old(self)@, inst@));
        }
    }

    /// Handles any directive: a section header when it has no operands,
    /// `asciiz` when it has, and an error for any other name.
    fn process_directive(&mut self, inst: &AssemblerInstruction)
        ensures
            final(self)@ == spec_process_directive(old(self)@, inst@),
    {
        let directive_name = match inst.get_directive_name() {
            Option::Some(name) => name,
            Option::None => {
                return ;
            },
        };
        if inst.has_operands() {
            if crate::instruction::str_eq_chars(directive_name.as_str(), "asciiz") {
                self.handle_asciiz(inst);
            } else {
                self.push_error(
                    AssemblerError::UnknownDirectiveFound { directive: directive_name },
                );
            }
        } else {
            self.process_section_header(directive_name.as_str());
        }
    }

    /// Runs the first pass: walks the program in order, collecting
    /// symbols, sections, read-only data and errors, and moves the
    /// assembler to its second phase.
    pub fn process_first_phase(&mut self, p: &Program)
        ensures
            final(self)@ == spec_first_phase(old(self)@, p@),
    {
        let n = p.instructions.len();
        let mut i: usize = 0;
        proof {
            assert(p@.skip(0) =~= p@);
        }
        while i < n
            invariant
                i <= n,
                n == p.instructions@.len(),
                p@.len() == n,
                spec_first_fold(old(self)@, p@) == spec_first_fold(self@, p@.skip(i as int)),
            decreases n - i,
        {
            let ghost pre = self@;
            let ghost gi = p@[i as int];
            let inst = &p.instructions[i];
            if inst.is_label() {
                if self.current_section.is_some() {
                    self.process_label_decl(inst);
                } else {
                    let idx = self.current_instruction;
                    self.push_error(
                        AssemblerError::NoSegmentDeclarationFound { instruction: idx },
                    );
                }
            }
            if inst.is_directive() {
                self.process_directive(inst);
            }
            if inst.is_opcode() {
                self.code_offset = self.code_offset.wrapping_add(4);
            }
            self.current_instruction = self.current_instruction.wrapping_add(1);
            proof {
                assert(self@ =~= spec_first_step(pre, gi));
                assert(p@.skip(i as int).drop_first() =~= p@.skip(i + 1));
                assert(p@.skip(i as int)[0] == gi);
            }
            i = i + 1;
        }
        proof {
            assert(p@.skip(n as int) =~= Seq::<GInstruction>::empty());
        }
        self.phase = AssemblerPhase::Second;
        proof {
            assert(self@ =~= spec_first_phase(old(self)@, p@));
        }
    }
}

/// The symbol-table part of an `asciiz` step, for stating loop
/// invariants: everything but the read-only data.
pub open spec fn spec_set_state(st: GAsm, name: Seq<char>, off: u32) -> GAsm {
    GAsm { symbols: spec_set_symbol_offset(st.symbols, name, off), ..st }
}


/// The bytes one operand contributes to an encoding: a register is one
/// byte; an integer immediate is two big-endian bytes of its low 16
/// bits; a label usage is two big-endian bytes of its resolved offset,
/// or nothing when the label has no offset; a float immediate
/// contributes its truncated whole part only on a float opcode; any
/// other token contributes nothing.
pub open spec fn spec_operand_bytes(t: GToken, syms: Seq<GSymbol>, float_op: bool) -> Seq<u8> {
    match t {
        GToken::Register { reg_num } => seq![reg_num],
        GToken::IntegerOperand { value } => seq![
            ((value & 0xFFFF) >> 8) as u8,
            ((value & 0xFFFF) & 0xFF) as u8,
        ],
        GToken::LabelUsage { name } => match spec_symbol_value(syms, name) {
            Option::Some(off) => seq![((off >> 8) & 0xFF) as u8, (off & 0xFF) as u8],
            Option::None => Seq::<u8>::empty(),
        },
        GToken::FloatOperand { neg, whole, frac: _, frac_len: _ } => if float_op {
            seq![
                (spec_float_imm(neg, whole) >> 8) as u8,
                (spec_float_imm(neg, whole) & 0xFF) as u8,
            ]
        } else {
            Seq::<u8>::empty()
        },
        _ => Seq::<u8>::empty(),
    }
}

/// The 16-bit immediate a float literal encodes to: its whole part,
/// negated when the literal is negative, truncated to 16 bits.
pub open spec fn spec_float_imm(neg: bool, whole: u32) -> u16 {
    if neg {
        (0 as u16).wrapping_sub((whole & 0xFFFF) as u16)
    } else {
        (whole & 0xFFFF) as u16
    }
}

/// The bytes an optional operand slot contributes.
pub open spec fn spec_opt_operand_bytes(o: Option<GToken>, syms: Seq<GSymbol>, float_op: bool) -> Seq<
    u8,
> {
    match o {
        Option::Some(t) => spec_operand_bytes(t, syms, float_op),
        Option::None => Seq::<u8>::empty(),
    }
}

/// The opcode byte of an instruction, when its opcode slot holds one.
pub open spec fn spec_opcode_byte(inst: GInstruction) -> Seq<u8> {
    match inst.opcode {
        Option::Some(GToken::Op { code }) => seq![opcode_code(code)],
        _ => Seq::<u8>::empty(),
    }
}

/// Whether the instruction's opcode works on the float register file.
pub open spec fn spec_inst_float(inst: GInstruction) -> bool {
    match inst.opcode {
        Option::Some(GToken::Op { code }) => code.spec_is_float(),
        _ => false,
    }
}

/// Exactly four bytes: truncated after four, zero-padded up to four.
pub open spec fn spec_pad4(b: Seq<u8>) -> Seq<u8> {
    if b.len() >= 4 {
        b.take(4)
    } else {
        b + Seq::new((4 - b.len()) as nat, |i: int| 0u8)
    }
}

/// The exactly-four-byte encoding of one instruction: the opcode byte,
/// the operand bytes packed left to right, and zero padding.
pub open spec fn spec_inst_bytes(inst: GInstruction, syms: Seq<GSymbol>) -> Seq<u8> {
    spec_pad4(
        spec_opcode_byte(inst) + spec_opt_operand_bytes(
            inst.operand1,
            syms,
            spec_inst_float(inst),
        ) + spec_opt_operand_bytes(inst.operand2, syms, spec_inst_float(inst))
            + spec_opt_operand_bytes(inst.operand3, syms, spec_inst_float(inst)),
    )
}

/// Appends the bytes one operand contributes to an encoding.
fn extract_operand(t: &Token, results: &mut Vec<u8>, symbols: &SymbolTable, float_op: bool)
    ensures
        final(results)@ == old(results)@ + spec_operand_bytes(t@, symbols@, float_op),
{
    match t {
        Token::Register { reg_num } => {
            results.push(*reg_num);
        },
        Token::IntegerOperand { value } => {
            let v: i32 = *value;
            proof {
                assert(0 <= (v & 0xFFFF) >> 8 < 256) by (bit_vector);
                assert(0 <= (v & 0xFFFF) & 0xFF < 256) by (bit_vector);
            }
            results.push(((v & 0xFFFF) >> 8) as u8);
            results.push(((v & 0xFFFF) & 0xFF) as u8);
        },
        Token::LabelUsage { name } => {
            match symbols.symbol_value(name.as_str()) {
                Option::Some(off) => {
                    proof {
                        assert((off >> 8) & 0xFF < 256) by (bit_vector);
                        assert(off & 0xFF < 256) by (bit_vector);
                    }
                    results.push(((off >> 8) & 0xFF) as u8);
                    results.push((off & 0xFF) as u8);
                },
                Option::None => {},
            }
        },
        Token::FloatOperand { neg, whole, frac: _, frac_len: _ } => {
            if float_op {
                proof {
                    assert(*whole & 0xFFFF < 0x1_0000) by (bit_vector);
                }
                let base: u16 = (*whole & 0xFFFF) as u16;
                let w: u16 = if *neg {
                    (0 as u16).wrapping_sub(base)
                } else {
                    base
                };
                proof {
                    assert(w >> 8 < 256) by (bit_vector);
                    assert(w & 0xFF < 256) by (bit_vector);
                }
                results.push((w >> 8) as u8);
                results.push((w & 0xFF) as u8);
            }
        },
        _ => {},
    }
    proof {
        assert(results@ =~= old(results)@ + spec_operand_bytes(t@, symbols@, float_op));
    }
}

impl AssemblerInstruction {
    /// Whether this line's opcode works on the float register file.
    fn is_float_opcode(&self) -> (r: bool)
        ensures
            r == spec_inst_float(self@),
    {
        match &self.opcode {
            Option::Some(Token::Op { code }) => code.is_float(),
            _ => false,
        }
    }

    /// Encodes this line into exactly four bytes, resolving label usages
    /// through the symbol table.
    #[verifier::rlimit(50)]
    pub fn to_bytes(&self, symbols: &SymbolTable) -> (r: Vec<u8>)
        ensures
            r@ == spec_inst_bytes(self@, symbols@),
            r@.len() == 4,
    {
        let mut results: Vec<u8> = Vec::new();
        let fl = self.is_float_opcode();
        let ghost a = spec_opcode_byte(self@);
        let ghost b1 = spec_opt_operand_bytes(self@.operand1, symbols@, fl);
        let ghost b2 = spec_opt_operand_bytes(self@.operand2, symbols@, fl);
        let ghost b3 = spec_opt_operand_bytes(self@.operand3, symbols@, fl);
        match &self.opcode {
            Option::Some(Token::Op { code }) => {
                results.push(code.to_byte());
            },
            _ => {},
        }
        proof {
            assert(results@ =~= a);
        }
        match &self.operand1 {
            Option::Some(t) => extract_operand(t, &mut results, symbols, fl),
            Option::None => {},
        }
        proof {
            assert(results@ =~= a + b1);
        }
        match &self.operand2 {
            Option::Some(t) => extract_operand(t, &mut results, symbols, fl),
            Option::None => {},
        }
        proof {
            assert(results@ =~= (a + b1) + b2);
        }
        match &self.operand3 {
            Option::Some(t) => extract_operand(t, &mut results, symbols, fl),
            Option::None => {},
        }
        let ghost raw = results@;
        proof {
            assert(raw =~= ((a + b1) + b2) + b3);
            assert(raw == a + b1 + b2 + b3);
        }
        if results.len() >= 4 {
            results.truncate(4);
            proof {
                assert(results@ =~= raw.take(4));
            }
        } else {
            while results.len() < 4
                invariant
                    raw.len() < 4,
                    raw.len() <= results@.len() <= 4,
                    results@.take(raw.len() as int) == raw,
                    forall|j: int| raw.len() <= j < results@.len() ==> results@[j] == 0,
                decreases 4 - results@.len(),
            {
                results.push(0);
            }
            proof {
                assert(results@ =~= raw + Seq::new((4 - raw.len()) as nat, |i: int| 0u8));
            }
        }
        results
    }
}

/// The concatenated encodings of every line of a program, directives
/// included.
pub open spec fn spec_program_bytes(insts: Seq<GInstruction>, syms: Seq<GSymbol>) -> Seq<u8>
    decreases insts.len(),
{
    if insts.len() == 0 {
        Seq::<u8>::empty()
    } else {
        spec_inst_bytes(insts[0], syms) + spec_program_bytes(insts.drop_first(), syms)
    }
}

impl Program {
    /// Encodes every line of the program, four bytes each.
    pub fn to_bytes(&self, symbols: &SymbolTable) -> (r: Vec<u8>)
        ensures
            r@ == spec_program_bytes(self@, symbols@),
            r@.len() == 4 * self@.len(),
    {
        let mut out: Vec<u8> = Vec::new();
        let n = self.instructions.len();
        let mut i: usize = 0;
        proof {
            assert(self@.skip(0) =~= self@);
            assert(out@ + spec_program_bytes(self@, symbols@) =~= spec_program_bytes(
                self@,
                symbols@,
            ));
        }
        while i < n
            invariant
                i <= n,
                n == self.instructions@.len(),
                self@.len() == n,
                out@ + spec_program_bytes(self@.skip(i as int), symbols@) == spec_program_bytes(
                    self@,
                    symbols@,
                ),
                out@.len() == 4 * i,
            decreases n - i,
        {
            let mut bytes = self.instructions[i].to_bytes(symbols);
            proof {
                assert(self@.skip(i as int)[0] == self@[i as int]);
                assert(self@.skip(i as int).drop_first() =~= self@.skip(i + 1));
                assert((out@ + bytes@) + spec_program_bytes(self@.skip(i + 1), symbols@)
                    =~= out@ + (bytes@ + spec_program_bytes(self@.skip(i + 1), symbols@)));
            }
            out.append(&mut bytes);
            i = i + 1;
        }
        proof {
            assert(self@.skip(n as int) =~= Seq::<GInstruction>::empty());
            assert(out@ + Seq::<u8>::empty() =~= out@);
        }
        out
    }
}

/// The code the second pass emits: the concatenated encodings of the
/// opcode-bearing lines; directives contribute nothing.
pub open spec fn spec_second_fold(insts: Seq<GInstruction>, syms: Seq<GSymbol>) -> Seq<u8>
    decreases insts.len(),
{
    if insts.len() == 0 {
        Seq::<u8>::empty()
    } else {
        (if insts[0].spec_is_opcode() {
            spec_inst_bytes(insts[0], syms)
        } else {
            Seq::<u8>::empty()
        }) + spec_second_fold(insts.drop_first(), syms)
    }
}

/// The length of the code the second pass emits is four bytes per
/// opcode-bearing line.
pub open spec fn spec_code_count(insts: Seq<GInstruction>) -> int
    decreases insts.len(),
{
    if insts.len() == 0 {
        0int
    } else {
        (if insts[0].spec_is_opcode() {
            1int
        } else {
            0int
        }) + spec_code_count(insts.drop_first())
    }
}

pub proof fn lemma_second_fold_len(insts: Seq<GInstruction>, syms: Seq<GSymbol>)
    ensures
        spec_second_fold(insts, syms).len() == 4 * spec_code_count(insts),
        spec_code_count(insts) >= 0,
    decreases insts.len(),
{
    if insts.len() > 0 {
        lemma_second_fold_len(insts.drop_first(), syms);
    }
}

/// Whether exactly two section headers were seen, one data and one code.
pub open spec fn spec_sections_ok(secs: Seq<AssemblerSection>) -> bool {
    secs.len() == 2 && ((secs[0] is Data && secs[1] is Code) || (secs[0] is Code
        && secs[1] is Data))
}

/// The 64-byte image header: the magic prefix, the little-endian length
/// of the read-only data, and zero padding.
pub open spec fn spec_header(ro_len: nat) -> Seq<u8> {
    crate::pie_prefix() + u32_le_bytes(spec_ro_off(ro_len)) + Seq::new(56, |i: int| 0u8)
}

/// What assembling a source yields: the image, or the errors collected.
pub open spec fn spec_assemble(st: GAsm, src: Seq<char>) -> Result<Seq<u8>, Seq<GAsmError>> {
    match crate::parser::spec_parse_program(src) {
        Option::None => Result::Err(
            seq![GAsmError::ParseError { error: crate::parser::spec_parse_fail_message() }],
        ),
        Option::Some(pr) => {
            let st1 = spec_first_phase(st, pr.1);
            if st1.errors.len() > 0 {
                Result::Err(st1.errors)
            } else if !spec_sections_ok(st1.sections) {
                Result::Err(st1.errors.push(GAsmError::InsufficientSections))
            } else {
                Result::Ok(
                    spec_header(st1.ro.len()) + st1.ro + spec_second_fold(pr.1, st1.symbols),
                )
            }
        },
    }
}

/// The assembler's state after assembling a source.
pub open spec fn spec_assemble_state(st: GAsm, src: Seq<char>) -> GAsm {
    match crate::parser::spec_parse_program(src) {
        Option::None => st,
        Option::Some(pr) => {
            let st1 = spec_first_phase(st, pr.1);
            if st1.errors.len() > 0 {
                st1
            } else if !spec_sections_ok(st1.sections) {
                GAsm { errors: st1.errors.push(GAsmError::InsufficientSections), ..st1 }
            } else {
                GAsm { current_instruction: 0, ..st1 }
            }
        },
    }
}

/// The image, or the errors that assembling collected.
pub type AssemblerResult = Result<Vec<u8>, Vec<AssemblerError>>;

/// A fresh byte vector with the same contents.
fn duplicate_bytes(v: &Vec<u8>) -> (r: Vec<u8>)
    ensures
        r@ == v@,
{
    let mut out: Vec<u8> = Vec::new();
    let n = v.len();
    let mut i: usize = 0;
    while i < n
        invariant
            i <= n,
            n == v@.len(),
            out@ == v@.take(i as int),
        decreases n - i,
    {
        let b = v[i];
        proof {
            assert(v@.take(i as int).push(v@[i as int]) =~= v@.take(i + 1));
        }
        out.push(b);
        i = i + 1;
    }
    proof {
        assert(v@.take(n as int) =~= v@);
    }
    out
}

impl Assembler {
    /// Whether exactly two section headers were seen, one data and one
    /// code.
    fn sections_ok(&self) -> (r: bool)
        ensures
            r == spec_sections_ok(self@.sections),
    {
        if self.sections.len() != 2 {
            return false;
        }
        let a = &self.sections[0];
        let b = &self.sections[1];
        let a_data = match a {
            AssemblerSection::Data { .. } => true,
            _ => false,
        };
        let a_code = match a {
            AssemblerSection::Code { .. } => true,
            _ => false,
        };
        let b_data = match b {
            AssemblerSection::Data { .. } => true,
            _ => false,
        };
        let b_code = match b {
            AssemblerSection::Code { .. } => true,
            _ => false,
        };
        (a_data && b_code) || (a_code && b_data)
    }

    /// Builds the 64-byte header in front of the current read-only data.
    fn write_pie_header(&self) -> (r: Vec<u8>)
        ensures
            r@ == spec_header(self@.ro.len()),
            r@.len() == 64,
    {
        let mut header: Vec<u8> = Vec::new();
        header.push(0x45);
        header.push(0x50);
        header.push(0x49);
        header.push(0x45);
        let l = self.ro.len();
        let lv: u32 = if l < 0xFFFF_FFFF as usize {
            l as u32
        } else {
            0xFFFF_FFFF
        };
        let mut w = crate::ext::write_u32_le(lv);
        proof {
            assert(header@ =~= crate::pie_prefix());
        }
        header.append(&mut w);
        let ghost front = crate::pie_prefix() + u32_le_bytes(spec_ro_off(self@.ro.len()));
        proof {
            assert(header@ =~= front);
        }
        while header.len() < 64
            invariant
                8 <= header@.len() <= 64,
                header@.take(8) == front,
                forall|j: int| 8 <= j < header@.len() ==> header@[j] == 0,
            decreases 64 - header@.len(),
        {
            header.push(0);
        }
        proof {
            assert(header@ =~= front + Seq::new(56, |i: int| 0u8));
        }
        header
    }

    /// Runs the second pass: encodes each opcode-bearing line to four
    /// bytes, in program order.
    pub fn process_second_phase(&mut self, p: &Program) -> (r: Vec<u8>)
        ensures
            r@ == spec_second_fold(p@, old(self)@.symbols),
            final(self)@ == (GAsm { current_instruction: 0, ..old(self)@ }),
    {
        self.current_instruction = 0;
        let mut program: Vec<u8> = Vec::new();
        let n = p.instructions.len();
        let mut i: usize = 0;
        proof {
            assert(self@ =~= (GAsm { current_instruction: 0, ..old(self)@ }));
            assert(p@.skip(0) =~= p@);
            assert(program@ + spec_second_fold(p@, self@.symbols) =~= spec_second_fold(
                p@,
                self@.symbols,
            ));
        }
        while i < n
            invariant
                i <= n,
                n == p.instructions@.len(),
                p@.len() == n,
                self@ == (GAsm { current_instruction: 0, ..old(self)@ }),
                program@ + spec_second_fold(p@.skip(i as int), self@.symbols) == spec_second_fold(
                    p@,
                    self@.symbols,
                ),
            decreases n - i,
        {
            let inst = &p.instructions[i];
            proof {
                assert(p@.skip(i as int)[0] == p@[i as int]);
                assert(p@.skip(i as int).drop_first() =~= p@.skip(i + 1));
            }
            if inst.is_opcode() {
                let mut bytes = inst.to_bytes(&self.symbols);
                proof {
                    assert((program@ + bytes@) + spec_second_fold(p@.skip(i + 1), self@.symbols)
                        =~= program@ + (bytes@ + spec_second_fold(p@.skip(i + 1), self@.symbols)));
                }
                program.append(&mut bytes);
            } else {
                proof {
                    assert(Seq::<u8>::empty() + spec_second_fold(p@.skip(i + 1), self@.symbols)
                        =~= spec_second_fold(p@.skip(i + 1), self@.symbols));
                }
            }
            i = i + 1;
        }
        proof {
            assert(p@.skip(n as int) =~= Seq::<GInstruction>::empty());
            assert(program@ + Seq::<u8>::empty() =~= program@);
        }
        program
    }

    /// Assembles a source string: parses it, runs both passes, and
    /// returns the image — header, read-only data, code — or every
    /// error found on the way.
    pub fn assemble(&mut self, raw: &str) -> (r: AssemblerResult)
        ensures
            final(self)@ == spec_assemble_state(old(self)@, raw@),
            match (r, spec_assemble(old(self)@, raw@)) {
                (Result::Ok(v), Result::Ok(b)) => v@ == b,
                (Result::Err(es), Result::Err(ges)) => es@.map_values(|e: AssemblerError| e@)
                    == ges,
                _ => false,
            },
    {
        match parse_program(raw) {
            Result::Err(pe) => {
                let mut es: Vec<AssemblerError> = Vec::new();
                es.push(AssemblerError::ParseError { error: pe.message });
                proof {
                    assert(es@.map_values(|e: AssemblerError| e@) =~= seq![
                        GAsmError::ParseError { error: crate::parser::spec_parse_fail_message() },
                    ]);
                }
                Result::Err(es)
            },
            Result::Ok((_remainder, program)) => {
                self.process_first_phase(&program);
                if self.errors.len() > 0 {
                    return Result::Err(self.duplicate_errors());
                }
                if !self.sections_ok() {
                    self.push_error(AssemblerError::InsufficientSections);
                    return Result::Err(self.duplicate_errors());
                }
                let mut body = self.process_second_phase(&program);
                let mut assembled_program = self.write_pie_header();
                let mut ro_copy = duplicate_bytes(&self.ro);
                assembled_program.append(&mut ro_copy);
                assembled_program.append(&mut body);
                Result::Ok(assembled_program)
            },
        }
    }
}

/// For every source accepted without error, the image is exactly the
/// 64-byte header, the read-only data, and the code, in that order.
pub proof fn lemma_image_structure(
    src: Seq<char>,
    rem: int,
    prog: Seq<GInstruction>,
    bytes: Seq<u8>,
)
    requires
        crate::parser::spec_parse_program(src) == Option::Some((rem, prog)),
        spec_assemble(spec_new_asm(), src) == Result::<Seq<u8>, Seq<GAsmError>>::Ok(bytes),
    ensures
        ({
            let st1 = spec_first_phase(spec_new_asm(), prog);
            bytes == spec_header(st1.ro.len()) + st1.ro + spec_second_fold(prog, st1.symbols)
        }),
{
}

/// For every source accepted without error, the image length is
/// `64 + L + 4 * C`: the header, `L` read-only bytes, and four bytes for
/// each opcode-bearing instruction.
pub proof fn lemma_image_length(src: Seq<char>, rem: int, prog: Seq<GInstruction>, bytes: Seq<u8>)
    requires
        crate::parser::spec_parse_program(src) == Option::Some((rem, prog)),
        spec_assemble(spec_new_asm(), src) == Result::<Seq<u8>, Seq<GAsmError>>::Ok(bytes),
    ensures
        bytes.len() == 64 + spec_first_phase(spec_new_asm(), prog).ro.len() + 4 * spec_code_count(
            prog,
        ),
{
    let st1 = spec_first_phase(spec_new_asm(), prog);
    lemma_second_fold_len(prog, st1.symbols);
    assert(spec_header(st1.ro.len()).len() == 64);
}

/// The first four bytes of any successfully assembled image are the
/// magic prefix.
pub proof fn lemma_image_magic(st: GAsm, src: Seq<char>, bytes: Seq<u8>)
    requires
        spec_assemble(st, src) == Result::<Seq<u8>, Seq<GAsmError>>::Ok(bytes),
    ensures
        bytes.len() >= 4,
        bytes.subrange(0, 4) == crate::pie_prefix(),
{
    assert(bytes.subrange(0, 4) =~= crate::pie_prefix());
}

/// Bytes 4 to 8 of the image, read as a little-endian `u32`, are the
/// length of the read-only section, which sits at bytes 64 onward.
pub proof fn lemma_image_ro(src: Seq<char>, rem: int, prog: Seq<GInstruction>, bytes: Seq<u8>)
    requires
        crate::parser::spec_parse_program(src) == Option::Some((rem, prog)),
        spec_assemble(spec_new_asm(), src) == Result::<Seq<u8>, Seq<GAsmError>>::Ok(bytes),
        spec_first_phase(spec_new_asm(), prog).ro.len() < 0xFFFF_FFFF,
    ensures
        ({
            let ro = spec_first_phase(spec_new_asm(), prog).ro;
            crate::ext::le_u32(bytes.subrange(4, 8)) == ro.len() && bytes.subrange(
                64,
                64 + ro.len() as int,
            ) == ro
        }),
{
    let st1 = spec_first_phase(spec_new_asm(), prog);
    let ro = st1.ro;
    let lv = spec_ro_off(ro.len());
    assert(bytes.subrange(4, 8) =~= crate::ext::u32_le_bytes(lv));
    crate::ext::lemma_le_u32_roundtrip(lv);
    assert(bytes.subrange(64, 64 + ro.len() as int) =~= ro);
}

/// Handling `label: .asciiz 'text'` in the first pass resolves the
/// label to the exact position where the string's first byte is laid
/// down in the read-only data, and the bytes follow there, closed by a
/// null byte.
pub proof fn lemma_asciiz_offset(st: GAsm, inst: GInstruction, name: Seq<char>, content: Seq<char>)
    requires
        st.phase == AssemblerPhase::First,
        inst.spec_label_name() == Option::Some(name),
        inst.spec_string_constant() == Option::Some(content),
        spec_has_symbol(st.symbols, name),
        st.ro.len() < 0xFFFF_FFFF,
    ensures
        ({
            let st2 = spec_handle_asciiz(st, inst);
            &&& spec_symbol_value(st2.symbols, name) == Option::Some(st.ro.len() as u32)
            &&& st2.ro == st.ro + encode_utf8(content) + seq![0u8]
            &&& st2.ro.subrange(
                st.ro.len() as int,
                (st.ro.len() + encode_utf8(content).len()) as int,
            ) == encode_utf8(content)
        }),
{
    crate::symbols::lemma_symbol_value_after_set(st.symbols, name, spec_ro_off(st.ro.len()));
    let st2 = spec_handle_asciiz(st, inst);
    assert(st2.ro.subrange(
        st.ro.len() as int,
        (st.ro.len() + encode_utf8(content).len()) as int,
    ) =~= encode_utf8(content));
}

/// Assembling is a function of the source alone: two runs from fresh
/// assembler state yield byte-identical results.
pub proof fn lemma_assemble_deterministic(
    src: Seq<char>,
    r1: Result<Seq<u8>, Seq<GAsmError>>,
    r2: Result<Seq<u8>, Seq<GAsmError>>,
)
    requires
        r1 == spec_assemble(spec_new_asm(), src),
        r2 == spec_assemble(spec_new_asm(), src),
    ensures
        r1 == r2,
{
}

/// A first-pass step on a line that does not declare a given label
/// keeps that label's resolved offset, and only ever appends to the
/// read-only data.
pub proof fn lemma_first_step_preserves_symbol(
    st: GAsm,
    inst: GInstruction,
    name: Seq<char>,
    off: u32,
)
    requires
        spec_symbol_value(st.symbols, name) == Option::Some(off),
        inst.spec_label_name() != Option::Some(name),
    ensures
        spec_symbol_value(spec_first_step(st, inst).symbols, name) == Option::Some(off),
        spec_first_step(st, inst).ro.len() >= st.ro.len(),
        spec_first_step(st, inst).ro.take(st.ro.len() as int) == st.ro,
{
    crate::symbols::lemma_value_some_implies_has(st.symbols, name);
    let st1 = if inst.spec_is_label() && st.current_section is Some {
        spec_process_label_decl(st, inst)
    } else if inst.spec_is_label() {
        GAsm {
            errors: st.errors.push(
                GAsmError::NoSegmentDeclarationFound { instruction: st.current_instruction },
            ),
            ..st
        }
    } else {
        st
    };
    match inst.spec_label_name() {
        Option::Some(lname) => {
            crate::symbols::lemma_symbol_value_push(
                st.symbols,
                name,
                GSymbol {
                    name: lname,
                    offset: Option::Some(st.code_offset),
                    symbol_type: crate::symbols::SymbolType::Label,
                },
            );
            crate::symbols::lemma_symbol_value_push(
                st.symbols,
                name,
                GSymbol {
                    name: lname,
                    offset: Option::None,
                    symbol_type: crate::symbols::SymbolType::Label,
                },
            );
            if inst.spec_is_directive() {
                crate::symbols::lemma_set_symbol_offset_other(
                    st1.symbols,
                    name,
                    lname,
                    spec_ro_off(st1.ro.len()),
                );
            }
        },
        Option::None => {},
    }
    assert(spec_first_step(st, inst).ro.take(st.ro.len() as int) =~= st.ro);
}

/// The whole first pass keeps a resolved label and the read-only bytes
/// already laid down, as long as no later line declares the same label
/// again.
pub proof fn lemma_first_fold_preserves_symbol(
    st: GAsm,
    insts: Seq<GInstruction>,
    name: Seq<char>,
    off: u32,
)
    requires
        spec_symbol_value(st.symbols, name) == Option::Some(off),
        forall|k: int|
            0 <= k < insts.len() ==> (#[trigger] insts[k].spec_label_name()) != Option::Some(
                name,
            ),
    ensures
        spec_symbol_value(spec_first_fold(st, insts).symbols, name) == Option::Some(off),
        spec_first_fold(st, insts).ro.len() >= st.ro.len(),
        spec_first_fold(st, insts).ro.take(st.ro.len() as int) == st.ro,
    decreases insts.len(),
{
    if insts.len() == 0 {
        assert(st.ro.take(st.ro.len() as int) =~= st.ro);
    } else {
        lemma_first_step_preserves_symbol(st, insts[0], name, off);
        let st1 = spec_first_step(st, insts[0]);
        assert forall|k: int|
            0 <= k < insts.drop_first().len() implies (#[trigger] insts.drop_first()[
            k].spec_label_name()) != Option::Some(name) by {
            assert(insts.drop_first()[k] == insts[k + 1]);
        }
        lemma_first_fold_preserves_symbol(st1, insts.drop_first(), name, off);
        let stn = spec_first_fold(st1, insts.drop_first());
        assert(stn.ro.take(st.ro.len() as int) =~= stn.ro.take(st1.ro.len() as int).take(
            st.ro.len() as int,
        ));
    }
}

} // verus!
