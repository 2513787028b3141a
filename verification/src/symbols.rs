//! The assembler's symbol table: label names and their resolved offsets.

use crate::instruction::str_eq_chars;
use vstd::prelude::*;

verus! {

/// The kind of a symbol. Labels are the only kind this assembler knows.
#[derive(Debug, Clone, Copy, PartialEq, Eq, Structural)]
pub enum SymbolType {
    Label,
}

/// A named symbol and, once resolved, its byte offset within its segment.
#[derive(Debug, Clone)]
pub struct Symbol {
    name: String,
    offset: Option<u32>,
    symbol_type: SymbolType,
}

/// The mathematical shape of a symbol.
pub struct GSymbol {
    pub name: Seq<char>,
    pub offset: Option<u32>,
    pub symbol_type: SymbolType,
}

impl View for Symbol {
    type V = GSymbol;

    closed spec fn view(&self) -> GSymbol {
        GSymbol { name: self.name@, offset: self.offset, symbol_type: self.symbol_type }
    }
}

impl Symbol {
    /// Creates a symbol with no offset yet.
    pub fn new(name: String, symbol_type: SymbolType) -> (r: Symbol)
        ensures
            r@.name == name@,
            r@.offset is None,
            r@.symbol_type == symbol_type,
    {
        Symbol { name, symbol_type, offset: Option::None }
    }

    /// Creates a symbol with a known offset.
    pub fn new_with_offset(name: String, symbol_type: SymbolType, offset: u32) -> (r: Symbol)
        ensures
            r@.name == name@,
            r@.offset == Option::Some(offset),
            r@.symbol_type == symbol_type,
    {
        Symbol { name, symbol_type, offset: Option::Some(offset) }
    }
}

/// Whether some symbol in the table bears the name.
pub open spec fn spec_has_symbol(syms: Seq<GSymbol>, name: Seq<char>) -> bool {
    exists|i: int| 0 <= i < syms.len() && syms[i].name == name
}

/// The offset of the first symbol bearing the name, if any symbol does.
pub open spec fn spec_symbol_value(syms: Seq<GSymbol>, name: Seq<char>) -> Option<u32>
    decreases syms.len(),
{
    if syms.len() == 0 {
        Option::None
    } else if syms[0].name == name {
        syms[0].offset
    } else {
        spec_symbol_value(syms.drop_first(), name)
    }
}

/// The table after the first symbol bearing the name has its offset set.
pub open spec fn spec_set_symbol_offset(syms: Seq<GSymbol>, name: Seq<char>, offset: u32) -> Seq<
    GSymbol,
>
    decreases syms.len(),
{
    if syms.len() == 0 {
        syms
    } else if syms[0].name == name {
        syms.update(
            0,
            GSymbol {
                name: syms[0].name,
                offset: Option::Some(offset),
                symbol_type: syms[0].symbol_type,
            },
        )
    } else {
        seq![syms[0]] + spec_set_symbol_offset(syms.drop_first(), name, offset)
    }
}

/// Scanning past a prefix without the name does not change the lookup.
proof fn lemma_symbol_value_skip(syms: Seq<GSymbol>, name: Seq<char>, i: int)
    requires
        0 <= i <= syms.len(),
        forall|j: int| 0 <= j < i ==> syms[j].name != name,
    ensures
        spec_symbol_value(syms, name) == spec_symbol_value(syms.skip(i), name),
    decreases i,
{
    if i > 0 {
        lemma_symbol_value_skip(syms.drop_first(), name, i - 1);
        assert(syms.drop_first().skip(i - 1) =~= syms.skip(i));
    } else {
        assert(syms.skip(0) =~= syms);
    }
}

/// An ordered collection of symbols; lookups take the first match.
#[derive(Debug, Clone)]
pub struct SymbolTable {
    pub symbols: Vec<Symbol>,
}

impl View for SymbolTable {
    type V = Seq<GSymbol>;

    open spec fn view(&self) -> Seq<GSymbol> {
        self.symbols@.map_values(|s: Symbol| s@)
    }
}

impl SymbolTable {
    /// Creates an empty symbol table.
    pub fn new() -> (r: SymbolTable)
        ensures
            r@ == Seq::<GSymbol>::empty(),
    {
        let r = SymbolTable { symbols: Vec::new() };
        proof {
            assert(r@ =~= Seq::<GSymbol>::empty());
        }
        r
    }

    /// Appends a symbol to the table.
    pub fn add_symbol(&mut self, s: Symbol)
        ensures
            final(self)@ == old(self)@.push(s@),
    {
        self.symbols.push(s);
        proof {
            assert(self@ =~= old(self)@.push(s@));
        }
    }

    /// Whether some symbol bears the name.
    pub fn has_symbol(&self, s: &str) -> (r: bool)
        ensures
            r == spec_has_symbol(self@, s@),
    {
        let n = self.symbols.len();
        let mut i: usize = 0;
        while i < n
            invariant
                i <= n,
                n == self@.len(),
                self@.len() == self.symbols@.len(),
                forall|j: int| 0 <= j < i ==> self@[j].name != s@,
            decreases n - i,
        {
            if str_eq_chars(self.symbols[i].name.as_str(), s) {
                proof {
                    assert(self@[i as int].name == s@);
                }
                return true;
            }
            i = i + 1;
        }
        false
    }

    /// The offset of the first symbol bearing the name, if any symbol does.
    pub fn symbol_value(&self, s: &str) -> (r: Option<u32>)
        ensures
            r == spec_symbol_value(self@, s@),
    {
        let n = self.symbols.len();
        let mut i: usize = 0;
        while i < n
            invariant
                i <= n,
                n == self@.len(),
                self@.len() == self.symbols@.len(),
                forall|j: int| 0 <= j < i ==> self@[j].name != s@,
            decreases n - i,
        {
            if str_eq_chars(self.symbols[i].name.as_str(), s) {
                proof {
                    lemma_symbol_value_skip(self@, s@, i as int);
                    assert(self@.skip(i as int)[0] == self@[i as int]);
                }
                return self.symbols[i].offset;
            }
            i = i + 1;
        }
        proof {
            lemma_symbol_value_skip(self@, s@, n as int);
            assert(self@.skip(n as int) =~= Seq::<GSymbol>::empty());
        }
        Option::None
    }

    /// Sets the offset of the first symbol bearing the name; reports
    /// whether one was found.
    pub fn set_symbol_offset(&mut self, s: &str, offset: u32) -> (r: bool)
        ensures
            final(self)@ == spec_set_symbol_offset(old(self)@, s@, offset),
            r == spec_has_symbol(old(self)@, s@),
    {
        let n = self.symbols.len();
        let mut i: usize = 0;
        while i < n
            invariant
                i <= n,
                n == self@.len(),
                self@.len() == self.symbols@.len(),
                self@ == old(self)@,
                forall|j: int| 0 <= j < i ==> self@[j].name != s@,
            decreases n - i,
        {
            if str_eq_chars(self.symbols[i].name.as_str(), s) {
                let updated = Symbol {
                    name: self.symbols[i].name.clone(),
                    offset: Option::Some(offset),
                    symbol_type: self.symbols[i].symbol_type,
                };
                self.symbols.set(i, updated);
                proof {
                    lemma_set_symbol_offset_at(old(self)@, s@, offset, i as int);
                    assert(self@ =~= old(self)@.update(
                        i as int,
                        GSymbol {
                            name: old(self)@[i as int].name,
                            offset: Option::Some(offset),
                            symbol_type: old(self)@[i as int].symbol_type,
                        },
                    ));
                }
                return true;
            }
            i = i + 1;
        }
        proof {
            lemma_set_symbol_offset_none(self@, s@, offset);
        }
        false
    }
}

/// When no symbol bears the name, setting its offset changes nothing.
proof fn lemma_set_symbol_offset_none(syms: Seq<GSymbol>, name: Seq<char>, offset: u32)
    requires
        forall|j: int| 0 <= j < syms.len() ==> syms[j].name != name,
    ensures
        spec_set_symbol_offset(syms, name, offset) == syms,
    decreases syms.len(),
{
    if syms.len() > 0 {
        lemma_set_symbol_offset_none(syms.drop_first(), name, offset);
        assert(seq![syms[0]] + syms.drop_first() =~= syms);
    }
}

/// When the first match sits at `i`, setting the offset updates exactly
/// that entry.
proof fn lemma_set_symbol_offset_at(syms: Seq<GSymbol>, name: Seq<char>, offset: u32, i: int)
    requires
        0 <= i < syms.len(),
        syms[i].name == name,
        forall|j: int| 0 <= j < i ==> syms[j].name != name,
    ensures
        spec_set_symbol_offset(syms, name, offset) == syms.update(
            i,
            GSymbol { name: syms[i].name, offset: Option::Some(offset), symbol_type: syms[i].symbol_type },
        ),
    decreases i,
{
    if i == 0 {
    } else {
        lemma_set_symbol_offset_at(syms.drop_first(), name, offset, i - 1);
        assert(seq![syms[0]] + syms.drop_first().update(
            i - 1,
            GSymbol {
                name: syms[i].name,
                offset: Option::Some(offset),
                symbol_type: syms[i].symbol_type,
            },
        ) =~= syms.update(
            i,
            GSymbol {
                name: syms[i].name,
                offset: Option::Some(offset),
                symbol_type: syms[i].symbol_type,
            },
        ));
    }
}

/// After the first symbol bearing a name has its offset set, looking
/// the name up yields exactly that offset.
pub proof fn lemma_symbol_value_after_set(syms: Seq<GSymbol>, name: Seq<char>, offset: u32)
    requires
        spec_has_symbol(syms, name),
    ensures
        spec_symbol_value(spec_set_symbol_offset(syms, name, offset), name) == Option::Some(
            offset,
        ),
    decreases syms.len(),
{
    if syms.len() > 0 {
        if syms[0].name == name {
            let upd = syms.update(
                0,
                GSymbol {
                    name: syms[0].name,
                    offset: Option::Some(offset),
                    symbol_type: syms[0].symbol_type,
                },
            );
            assert(spec_symbol_value(upd, name) == upd[0].offset);
        } else {
            let i = choose|i: int| 0 <= i < syms.len() && syms[i].name == name;
            assert(syms.drop_first()[i - 1].name == name);
            lemma_symbol_value_after_set(syms.drop_first(), name, offset);
            let tail = spec_set_symbol_offset(syms.drop_first(), name, offset);
            assert((seq![syms[0]] + tail).drop_first() =~= tail);
        }
    }
}

/// A successful lookup means some symbol bears the name.
pub proof fn lemma_value_some_implies_has(syms: Seq<GSymbol>, name: Seq<char>)
    requires
        spec_symbol_value(syms, name) is Some,
    ensures
        spec_has_symbol(syms, name),
    decreases syms.len(),
{
    if syms.len() > 0 {
        if syms[0].name == name {
        } else {
            lemma_value_some_implies_has(syms.drop_first(), name);
            let i = choose|i: int|
                0 <= i < syms.drop_first().len() && syms.drop_first()[i].name == name;
            assert(syms[i + 1].name == name);
        }
    }
}

/// Appending a symbol never changes the lookup of a name the table
/// already holds.
pub proof fn lemma_symbol_value_push(syms: Seq<GSymbol>, name: Seq<char>, x: GSymbol)
    requires
        spec_has_symbol(syms, name),
    ensures
        spec_symbol_value(syms.push(x), name) == spec_symbol_value(syms, name),
    decreases syms.len(),
{
    if syms.len() > 0 {
        assert(syms.push(x)[0] == syms[0]);
        if syms[0].name == name {
        } else {
            let i = choose|i: int| 0 <= i < syms.len() && syms[i].name == name;
            assert(syms.drop_first()[i - 1].name == name);
            lemma_symbol_value_push(syms.drop_first(), name, x);
            assert(syms.push(x).drop_first() =~= syms.drop_first().push(x));
        }
    }
}

/// Setting one name's offset never changes the lookup of another name.
pub proof fn lemma_set_symbol_offset_other(
    syms: Seq<GSymbol>,
    name: Seq<char>,
    other: Seq<char>,
    offset: u32,
)
    requires
        name != other,
    ensures
        spec_symbol_value(spec_set_symbol_offset(syms, other, offset), name) == spec_symbol_value(
            syms,
            name,
        ),
    decreases syms.len(),
{
    if syms.len() > 0 {
        if syms[0].name == other {
            let upd = syms.update(
                0,
                GSymbol {
                    name: syms[0].name,
                    offset: Option::Some(offset),
                    symbol_type: syms[0].symbol_type,
                },
            );
            assert(upd.drop_first() =~= syms.drop_first());
        } else {
            lemma_set_symbol_offset_other(syms.drop_first(), name, other, offset);
            let tail = spec_set_symbol_offset(syms.drop_first(), other, offset);
            assert((seq![syms[0]] + tail)[0] == syms[0]);
            assert((seq![syms[0]] + tail).drop_first() =~= tail);
        }
    }
}

/// The two passes of the assembler.
#[derive(Debug, Clone, Copy, PartialEq, Eq, Structural)]
pub enum AssemblerPhase {
    First,
    Second,
}

impl Default for AssemblerPhase {
    /// The assembler starts in its first pass.
    fn default() -> (r: Self)
        ensures
            r == AssemblerPhase::First,
    {
        AssemblerPhase::First
    }
}

} // verus!
