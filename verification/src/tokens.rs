//! Tokens of the assembly language, the structured instruction record the
//! parser produces, and their mathematical views.

use crate::instruction::Opcode;
use vstd::prelude::*;

verus! {

/// One token of the assembly language.
///
/// A float literal is kept as its decimal parts: sign, digits before the
/// dot, digits after the dot, and how many digits the fractional part has.
#[derive(Debug, Clone, PartialEq)]
pub enum Token {
    Op { code: Opcode },
    Register { reg_num: u8 },
    IntegerOperand { value: i32 },
    FloatOperand { neg: bool, whole: u32, frac: u32, frac_len: u32 },
    LabelDeclaration { name: String },
    LabelUsage { name: String },
    Directive { name: String },
    IrString { name: String },
}

/// The mathematical shape of a token: names are character sequences.
pub enum GToken {
    Op { code: Opcode },
    Register { reg_num: u8 },
    IntegerOperand { value: i32 },
    FloatOperand { neg: bool, whole: u32, frac: u32, frac_len: u32 },
    LabelDeclaration { name: Seq<char> },
    LabelUsage { name: Seq<char> },
    Directive { name: Seq<char> },
    IrString { name: Seq<char> },
}

impl View for Token {
    type V = GToken;

    open spec fn view(&self) -> GToken {
        match self {
            Token::Op { code } => GToken::Op { code: *code },
            Token::Register { reg_num } => GToken::Register { reg_num: *reg_num },
            Token::IntegerOperand { value } => GToken::IntegerOperand { value: *value },
            Token::FloatOperand { neg, whole, frac, frac_len } => GToken::FloatOperand {
                neg: *neg,
                whole: *whole,
                frac: *frac,
                frac_len: *frac_len,
            },
            Token::LabelDeclaration { name } => GToken::LabelDeclaration { name: name@ },
            Token::LabelUsage { name } => GToken::LabelUsage { name: name@ },
            Token::Directive { name } => GToken::Directive { name: name@ },
            Token::IrString { name } => GToken::IrString { name: name@ },
        }
    }
}

/// The view of an optional token.
pub open spec fn opt_token_view(o: Option<Token>) -> Option<GToken> {
    match o {
        Option::Some(t) => Option::Some(t@),
        Option::None => Option::None,
    }
}

/// One line of assembly, as parsed: an optional label declaration, then
/// either a directive or an opcode, then up to three operands filled from
/// the left.
#[derive(Debug, Clone, PartialEq)]
pub struct AssemblerInstruction {
    pub label: Option<Token>,
    pub directive: Option<Token>,
    pub opcode: Option<Token>,
    pub operand1: Option<Token>,
    pub operand2: Option<Token>,
    pub operand3: Option<Token>,
}

/// The mathematical shape of a parsed instruction.
pub struct GInstruction {
    pub label: Option<GToken>,
    pub directive: Option<GToken>,
    pub opcode: Option<GToken>,
    pub operand1: Option<GToken>,
    pub operand2: Option<GToken>,
    pub operand3: Option<GToken>,
}

impl View for AssemblerInstruction {
    type V = GInstruction;

    open spec fn view(&self) -> GInstruction {
        GInstruction {
            label: opt_token_view(self.label),
            directive: opt_token_view(self.directive),
            opcode: opt_token_view(self.opcode),
            operand1: opt_token_view(self.operand1),
            operand2: opt_token_view(self.operand2),
            operand3: opt_token_view(self.operand3),
        }
    }
}

impl GInstruction {
    /// Whether the line bears a label declaration.
    pub open spec fn spec_is_label(self) -> bool {
        self.label is Some
    }

    /// Whether the line bears an opcode.
    pub open spec fn spec_is_opcode(self) -> bool {
        self.opcode is Some
    }

    /// Whether the line bears a directive.
    pub open spec fn spec_is_directive(self) -> bool {
        self.directive is Some
    }

    /// Whether any operand slot is filled.
    pub open spec fn spec_has_operands(self) -> bool {
        self.operand1 is Some || self.operand2 is Some || self.operand3 is Some
    }

    /// The label name, when the label slot holds a declaration.
    pub open spec fn spec_label_name(self) -> Option<Seq<char>> {
        match self.label {
            Option::Some(GToken::LabelDeclaration { name }) => Option::Some(name),
            _ => Option::None,
        }
    }

    /// The directive name, when the directive slot holds a directive.
    pub open spec fn spec_directive_name(self) -> Option<Seq<char>> {
        match self.directive {
            Option::Some(GToken::Directive { name }) => Option::Some(name),
            _ => Option::None,
        }
    }

    /// The string constant, when the first operand is a string literal.
    pub open spec fn spec_string_constant(self) -> Option<Seq<char>> {
        match self.operand1 {
            Option::Some(GToken::IrString { name }) => Option::Some(name),
            _ => Option::None,
        }
    }
}

impl AssemblerInstruction {
    /// Whether the line bears a label declaration.
    pub fn is_label(&self) -> (r: bool)
        ensures
            r == self@.spec_is_label(),
    {
        self.label.is_some()
    }

    /// Whether the line bears an opcode.
    pub fn is_opcode(&self) -> (r: bool)
        ensures
            r == self@.spec_is_opcode(),
    {
        self.opcode.is_some()
    }

    /// Whether the line bears a directive.
    pub fn is_directive(&self) -> (r: bool)
        ensures
            r == self@.spec_is_directive(),
    {
        self.directive.is_some()
    }

    /// Whether any operand slot is filled.
    pub fn has_operands(&self) -> (r: bool)
        ensures
            r == self@.spec_has_operands(),
    {
        self.operand1.is_some() || self.operand2.is_some() || self.operand3.is_some()
    }

    /// The label name, when the label slot holds a declaration.
    pub fn get_label_name(&self) -> (r: Option<String>)
        ensures
            match r {
                Option::Some(n) => self@.spec_label_name() == Option::Some(n@),
                Option::None => self@.spec_label_name() is None,
            },
    {
        match &self.label {
            Option::Some(Token::LabelDeclaration { name }) => Option::Some(name.clone()),
            _ => Option::None,
        }
    }

    /// The directive name, when the directive slot holds a directive.
    pub fn get_directive_name(&self) -> (r: Option<String>)
        ensures
            match r {
                Option::Some(n) => self@.spec_directive_name() == Option::Some(n@),
                Option::None => self@.spec_directive_name() is None,
            },
    {
        match &self.directive {
            Option::Some(Token::Directive { name }) => Option::Some(name.clone()),
            _ => Option::None,
        }
    }

    /// The string constant, when the first operand is a string literal.
    pub fn get_string_constant(&self) -> (r: Option<String>)
        ensures
            match r {
                Option::Some(n) => self@.spec_string_constant() == Option::Some(n@),
                Option::None => self@.spec_string_constant() is None,
            },
    {
        match &self.operand1 {
            Option::Some(Token::IrString { name }) => Option::Some(name.clone()),
            _ => Option::None,
        }
    }
}

/// A parsed assembly program: the instructions in source order.
#[derive(Debug, Clone, PartialEq)]
pub struct Program {
    pub instructions: Vec<AssemblerInstruction>,
}

impl View for Program {
    type V = Seq<GInstruction>;

    open spec fn view(&self) -> Seq<GInstruction> {
        self.instructions@.map_values(|i: AssemblerInstruction| i@)
    }
}

} // verus!
