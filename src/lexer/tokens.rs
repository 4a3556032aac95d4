//! Tokens produced by the lexer, each with the span of source it came from.
use vstd::prelude::*;

verus! {

/// Where a token or symbol came from: the line, the offset of its first
/// character in the trimmed line, and the number of characters it covers.
#[derive(Debug, Clone, Copy, PartialEq, Eq, Structural)]
pub struct CodeSegment {
    pub line: usize,
    pub idx: usize,
    pub len: usize,
}

/// One lexical unit of a line, holding its raw spelling.
#[derive(Debug, Clone, PartialEq, Eq)]
pub enum Token {
    /// `.name`: controls how the following tokens are read.
    Directive(String, CodeSegment),
    /// `name:`: names the location of what follows.
    DefLabel(String, CodeSegment),
    /// A bare word: a mnemonic, or a label when used as an operand.
    Identifier(String, CodeSegment),
    /// `$name`, with the name as written and not yet resolved.
    Register(String, CodeSegment),
    /// `"text"`, holding the raw characters between the quotes.
    StringLiteral(String, CodeSegment),
    NumberLiteral(i32, CodeSegment),
    /// Nothing: what a comment or a lone space produces. Never part of a
    /// lexer's output.
    Empty,
}

/// The mathematical value of a token.
pub enum TokenView {
    Directive(Seq<char>, CodeSegment),
    DefLabel(Seq<char>, CodeSegment),
    Identifier(Seq<char>, CodeSegment),
    Register(Seq<char>, CodeSegment),
    StringLiteral(Seq<char>, CodeSegment),
    NumberLiteral(i32, CodeSegment),
    Empty,
}

impl View for Token {
    type V = TokenView;

    open spec fn view(&self) -> TokenView {
        match self {
            Token::Directive(s, g) => TokenView::Directive(s@, *g),
            Token::DefLabel(s, g) => TokenView::DefLabel(s@, *g),
            Token::Identifier(s, g) => TokenView::Identifier(s@, *g),
            Token::Register(s, g) => TokenView::Register(s@, *g),
            Token::StringLiteral(s, g) => TokenView::StringLiteral(s@, *g),
            Token::NumberLiteral(n, g) => TokenView::NumberLiteral(*n, *g),
            Token::Empty => TokenView::Empty,
        }
    }
}

/// The views of a sequence of tokens.
pub open spec fn token_views(v: Seq<Token>) -> Seq<TokenView> {
    v.map_values(|t: Token| t@)
}

impl TokenView {
    /// The span of a token; `Empty` has none, and gets a zero span.
    pub open spec fn segment(self) -> CodeSegment {
        match self {
            TokenView::Directive(_, g) => g,
            TokenView::DefLabel(_, g) => g,
            TokenView::Identifier(_, g) => g,
            TokenView::Register(_, g) => g,
            TokenView::StringLiteral(_, g) => g,
            TokenView::NumberLiteral(_, g) => g,
            TokenView::Empty => CodeSegment { line: 0, idx: 0, len: 0 },
        }
    }
}

impl Token {
    /// A copy of the token.
    pub fn duplicate(&self) -> (r: Token)
        ensures
            r@ == self@,
    {
        match self {
            Token::Directive(s, g) => Token::Directive(s.clone(), *g),
            Token::DefLabel(s, g) => Token::DefLabel(s.clone(), *g),
            Token::Identifier(s, g) => Token::Identifier(s.clone(), *g),
            Token::Register(s, g) => Token::Register(s.clone(), *g),
            Token::StringLiteral(s, g) => Token::StringLiteral(s.clone(), *g),
            Token::NumberLiteral(n, g) => Token::NumberLiteral(*n, *g),
            Token::Empty => Token::Empty,
        }
    }

    /// The name of the token's kind, as diagnostics print it.
    pub fn kind_name(&self) -> (r: &'static str)
        ensures
            r@ == self@.kind_name(),
    {
        match self {
            Token::Directive(_, _) => "Directive",
            Token::DefLabel(_, _) => "DefineLabel",
            Token::Identifier(_, _) => "Identifier",
            Token::Register(_, _) => "Register",
            Token::StringLiteral(_, _) => "StringLiteral",
            Token::NumberLiteral(_, _) => "NumberLiteral",
            Token::Empty => "Empty",
        }
    }

    /// The span of the token (a zero span for `Empty`).
    pub fn segment(&self) -> (r: CodeSegment)
        ensures
            r == self@.segment(),
    {
        match self {
            Token::Directive(_, g) => *g,
            Token::DefLabel(_, g) => *g,
            Token::Identifier(_, g) => *g,
            Token::Register(_, g) => *g,
            Token::StringLiteral(_, g) => *g,
            Token::NumberLiteral(_, g) => *g,
            Token::Empty => CodeSegment { line: 0, idx: 0, len: 0 },
        }
    }
}

impl TokenView {
    /// The name of a token's kind.
    pub open spec fn kind_name(self) -> Seq<char> {
        match self {
            TokenView::Directive(_, _) => "Directive"@,
            TokenView::DefLabel(_, _) => "DefineLabel"@,
            TokenView::Identifier(_, _) => "Identifier"@,
            TokenView::Register(_, _) => "Register"@,
            TokenView::StringLiteral(_, _) => "StringLiteral"@,
            TokenView::NumberLiteral(_, _) => "NumberLiteral"@,
            TokenView::Empty => "Empty"@,
        }
    }
}

} // verus!
