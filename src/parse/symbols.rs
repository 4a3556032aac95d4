//! Symbols: tokens after the parser has checked and resolved them.
use vstd::prelude::*;

use crate::lexer::tokens::CodeSegment;
use crate::parse::instructions::{Instruction, Register};

verus! {

/// A resolved symbol, with the span of source it came from.
#[derive(Debug)]
pub enum Symbol {
    Directive(Directive, CodeSegment),
    DefLabel(DefLabel, CodeSegment),
    /// A reference to a label, used as an operand.
    Label(Label, CodeSegment),
    /// An instruction; its span runs from the mnemonic to its last operand.
    Instruction(Instruction, CodeSegment),
    Register(Register, CodeSegment),
    StringLiteral(StringLiteral, CodeSegment),
    NumberLiteral(NumberLiteral, CodeSegment),
}

#[derive(Debug)]
pub struct Directive {
    pub id: String,
}

#[derive(Debug)]
pub struct DefLabel {
    pub id: String,
}

#[derive(Debug)]
pub struct Label {
    pub id: String,
}

#[derive(Debug)]
pub struct StringLiteral {
    pub content: String,
}

#[derive(Debug)]
pub struct NumberLiteral {
    pub value: i32,
}

/// The mathematical value of a symbol.
pub enum SymbolView {
    Directive(Seq<char>, CodeSegment),
    DefLabel(Seq<char>, CodeSegment),
    Label(Seq<char>, CodeSegment),
    Instruction(Instruction, CodeSegment),
    Register(Register, CodeSegment),
    StringLiteral(Seq<char>, CodeSegment),
    NumberLiteral(i32, CodeSegment),
}

impl View for Symbol {
    type V = SymbolView;

    open spec fn view(&self) -> SymbolView {
        match self {
            Symbol::Directive(d, g) => SymbolView::Directive(d.id@, *g),
            Symbol::DefLabel(d, g) => SymbolView::DefLabel(d.id@, *g),
            Symbol::Label(l, g) => SymbolView::Label(l.id@, *g),
            Symbol::Instruction(i, g) => SymbolView::Instruction(*i, *g),
            Symbol::Register(r, g) => SymbolView::Register(*r, *g),
            Symbol::StringLiteral(s, g) => SymbolView::StringLiteral(s.content@, *g),
            Symbol::NumberLiteral(n, g) => SymbolView::NumberLiteral(n.value, *g),
        }
    }
}

} // verus!
