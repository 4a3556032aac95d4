//! Front end of a MIPS assembler: a line-oriented lexer that turns source
//! text into located tokens, and a recursive-descent parser that turns the
//! tokens into a syntax tree of resolved symbols.
pub mod ansi;
pub mod errors;
pub mod lexer;
pub mod mips;
pub mod text;
pub mod parse;
