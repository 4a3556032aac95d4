//! One parser per symbol kind. A parser starts at the token under the
//! cursor and leaves the cursor on the last token it used.
use vstd::prelude::*;

use crate::errors::{self, ErrType, ErrView, Msg, MsgView};
use crate::lexer::tokens::{token_views, CodeSegment, Token, TokenView};
use crate::parse::ast::{lemma_nodes_view_push, nodes_view, ASTNode, ASTree, NodeView, Tree};
use crate::parse::instructions::{self, li_spec, la_spec, register_named, resolve_register};
use crate::parse::symbols::{self, Symbol, SymbolView};
use crate::parse::{self as parse, parse_all, parse_one_spec, parse_result};
use crate::text::same_text;

verus! {

/// What a parser yields: the node or the error, each with how far past its
/// start the cursor was left.
pub type Parsed = Result<(NodeView<SymbolView>, nat), (ErrView, nat)>;

/// The view of a parser's result and of where it left the cursor.
pub open spec fn parsed(r: Result<ASTNode<Symbol>, errors::Diagnostic>, from: usize, to: usize) -> Parsed {
    match r {
        Ok(n) => Ok((n@, (to - from) as nat)),
        Err(e) => Err((e@, (to - from) as nat)),
    }
}

/// A parse error at span `g`.
pub open spec fn assemble_error(g: CodeSegment, msg: MsgView) -> ErrView {
    ErrView { segment: g, errtype: ErrType::Assemble, msg }
}

/// The span that errors past the last token point at: that of the last
/// token, or an empty span if there are no tokens.
pub open spec fn end_segment(toks: Seq<TokenView>) -> CodeSegment {
    if toks.len() == 0 {
        CodeSegment { line: 0, idx: 0, len: 0 }
    } else {
        toks.last().segment()
    }
}

/// The error for finding the wrong token at `i`, or none, where `expected`
/// was wanted.
pub open spec fn unexpected(toks: Seq<TokenView>, i: int, expected: Seq<char>) -> ErrView {
    if 0 <= i < toks.len() {
        assemble_error(
            toks[i].segment(),
            MsgView::Many(seq!["Unexpected token "@ + toks[i].kind_name() + "."@, expected]),
        )
    } else {
        assemble_error(end_segment(toks), MsgView::Many(seq!["Unexpected end of input."@, expected]))
    }
}

/// A label reference: an identifier used as an operand.
pub open spec fn label_spec(toks: Seq<TokenView>, i: int) -> Parsed {
    if 0 <= i < toks.len() && toks[i] is Identifier {
        let (id, g) = (toks[i]->Identifier_0, toks[i]->Identifier_1);
        Ok((NodeView::Leaf(SymbolView::Label(id, g)), 0))
    } else {
        Err((unexpected(toks, i, "Expected label."@), 0))
    }
}

/// A number literal operand.
pub open spec fn number_spec(toks: Seq<TokenView>, i: int) -> Parsed {
    if 0 <= i < toks.len() && toks[i] is NumberLiteral {
        let (v, g) = (toks[i]->NumberLiteral_0, toks[i]->NumberLiteral_1);
        Ok((NodeView::Leaf(SymbolView::NumberLiteral(v, g)), 0))
    } else {
        Err((unexpected(toks, i, "Expected number literal."@), 0))
    }
}

/// A register operand, resolved to the register it names.
pub open spec fn register_spec(toks: Seq<TokenView>, i: int) -> Parsed {
    if 0 <= i < toks.len() && toks[i] is Register {
        let (id, g) = (toks[i]->Register_0, toks[i]->Register_1);
        match register_named(id) {
            Some(r) => Ok((NodeView::Leaf(SymbolView::Register(r, g)), 0)),
            None => Err((assemble_error(g, MsgView::One("Unknown register "@ + id + "."@)), 0)),
        }
    } else {
        Err((unexpected(toks, i, "Expected register."@), 0))
    }
}

/// An instruction: a mnemonic and the operands its form asks for.
pub open spec fn instruction_spec(toks: Seq<TokenView>, i: int) -> Parsed {
    if 0 <= i < toks.len() && toks[i] is Identifier {
        let (id, g) = (toks[i]->Identifier_0, toks[i]->Identifier_1);
        if id == "li"@ {
            li_spec(toks, i)
        } else if id == "la"@ {
            la_spec(toks, i)
        } else if id == "syscall"@ {
            Ok((NodeView::Leaf(SymbolView::Instruction(instructions::Instruction::SystemCall, g)), 0))
        } else {
            Err((assemble_error(g, MsgView::One("Unknown instruction "@ + id + "."@)), 0))
        }
    } else {
        Err((unexpected(toks, i, "Expected identifier as instruction."@), 0))
    }
}

/// A label definition, with the symbol that follows it as its one child.
pub open spec fn deflabel_spec(toks: Seq<TokenView>, i: int) -> Parsed
    decreases toks.len() - i, 1int,
{
    if 0 <= i < toks.len() && toks[i] is DefLabel {
        let (id, g) = (toks[i]->DefLabel_0, toks[i]->DefLabel_1);
        match parse_one_spec(toks, i + 1) {
            Ok((child, adv)) => Ok((NodeView::Interior(SymbolView::DefLabel(id, g), seq![child]), adv + 1)),
            Err((e, adv)) => Err((e, adv + 1)),
        }
    } else {
        Err((unexpected(toks, i, "Expected label definition."@), 0))
    }
}

/// Whether a token is a section directive, `.data` or `.text`.
pub open spec fn is_section(t: TokenView) -> bool {
    t is Directive && (t->Directive_0 == "data"@ || t->Directive_0 == "text"@)
}

/// The index of the first section directive at or after `i`, or the number
/// of tokens if there is none.
pub open spec fn section_end(toks: Seq<TokenView>, i: int) -> int
    decreases toks.len() - i,
{
    if 0 <= i < toks.len() && !is_section(toks[i]) {
        section_end(toks, i + 1)
    } else {
        i
    }
}

pub proof fn lemma_section_end_bounds(toks: Seq<TokenView>, i: int)
    requires
        0 <= i <= toks.len(),
    ensures
        i <= section_end(toks, i) <= toks.len(),
        section_end(toks, i) < toks.len() ==> is_section(toks[section_end(toks, i)]),
    decreases toks.len() - i,
{
    if i < toks.len() && !is_section(toks[i]) {
        lemma_section_end_bounds(toks, i + 1);
    }
}

/// A directive. `.data` and `.text` take every token up to the next of
/// them, parsed on its own as their children; `.asciiz` takes one string
/// literal.
pub open spec fn directive_spec(toks: Seq<TokenView>, i: int) -> Parsed
    decreases toks.len() - i, 1int,
{
    if 0 <= i < toks.len() && toks[i] is Directive {
        let (id, g) = (toks[i]->Directive_0, toks[i]->Directive_1);
        let root = SymbolView::Directive(id, g);
        if id == "data"@ || id == "text"@ {
            let end = section_end(toks, i + 1);
            proof {
                lemma_section_end_bounds(toks, i + 1);
            }
            match parse_all(toks.subrange(i + 1, end), 0) {
                Ok(children) => Ok((NodeView::Interior(root, children), (end - 1 - i) as nat)),
                Err(e) => Err((e, (end - 1 - i) as nat)),
            }
        } else if id == "asciiz"@ {
            if i + 1 < toks.len() && toks[i + 1] is StringLiteral {
                let (s, sg) = (toks[i + 1]->StringLiteral_0, toks[i + 1]->StringLiteral_1);
                Ok((NodeView::Interior(root, seq![NodeView::Leaf(SymbolView::StringLiteral(s, sg))]), 1))
            } else {
                Err((unexpected(toks, i + 1, "Expected string literal."@), 0))
            }
        } else {
            Err((assemble_error(g, MsgView::One("Unknown directive "@ + id + "."@)), 0))
        }
    } else {
        Err((unexpected(toks, i, "Expected directive."@), 0))
    }
}

/// The error for finding the wrong token at `i`, or none.
pub fn unexpected_token(tokens: &Vec<Token>, i: usize, expected: &str) -> (e: errors::Diagnostic)
    ensures
        e@ == unexpected(token_views(tokens@), i as int, expected@),
{
    let (segment, first) = if i < tokens.len() {
        let mut first = String::from_str("Unexpected token ");
        first.append(tokens[i].kind_name());
        first.append(".");
        (tokens[i].segment(), first)
    } else {
        (parse::last_segment(tokens), String::from_str("Unexpected end of input."))
    };
    errors::Diagnostic { segment, errtype: ErrType::Assemble, msg: errors::two_lines(first, String::from_str(expected)) }
}

pub trait Parser {
    /// Parses the symbol that starts at `*idx`, leaving `*idx` on the last
    /// token it used.
    fn parse(idx: &mut usize, tokens: &Vec<Token>) -> (r: Result<ASTNode<Symbol>, errors::Diagnostic>)
        ensures
            *old(idx) <= *final(idx),
            r is Ok ==> *final(idx) < tokens@.len(),
    ;
}

pub struct Label;

impl Parser for Label {
    fn parse(idx: &mut usize, tokens: &Vec<Token>) -> (r: Result<ASTNode<Symbol>, errors::Diagnostic>)
        ensures
            parsed(r, *old(idx), *final(idx)) == label_spec(token_views(tokens@), *old(idx) as int),
    {
        if *idx < tokens.len() {
            if let Token::Identifier(id, segment) = &tokens[*idx] {
                let symbol = Symbol::Label(symbols::Label { id: id.clone() }, *segment);
                return Ok(ASTNode::Node(symbol));
            }
        }
        Err(unexpected_token(tokens, *idx, "Expected label."))
    }
}

pub struct NumberLiteral;

impl Parser for NumberLiteral {
    fn parse(idx: &mut usize, tokens: &Vec<Token>) -> (r: Result<ASTNode<Symbol>, errors::Diagnostic>)
        ensures
            parsed(r, *old(idx), *final(idx)) == number_spec(token_views(tokens@), *old(idx) as int),
    {
        if *idx < tokens.len() {
            if let Token::NumberLiteral(num, segment) = &tokens[*idx] {
                let symbol = Symbol::NumberLiteral(symbols::NumberLiteral { value: *num }, *segment);
                return Ok(ASTNode::Node(symbol));
            }
        }
        Err(unexpected_token(tokens, *idx, "Expected number literal."))
    }
}

pub struct Register;

impl Parser for Register {
    fn parse(idx: &mut usize, tokens: &Vec<Token>) -> (r: Result<ASTNode<Symbol>, errors::Diagnostic>)
        ensures
            parsed(r, *old(idx), *final(idx)) == register_spec(token_views(tokens@), *old(idx) as int),
    {
        if *idx < tokens.len() {
            if let Token::Register(id, segment) = &tokens[*idx] {
                return match resolve_register(id.as_str()) {
                    Some(register) => Ok(ASTNode::Node(Symbol::Register(register, *segment))),
                    None => {
                        let mut text = String::from_str("Unknown register ");
                        text.append(id.as_str());
                        text.append(".");
                        Err(parse::call_err(segment, Msg::One(text)))
                    },
                };
            }
        }
        Err(unexpected_token(tokens, *idx, "Expected register."))
    }
}

pub struct Instruction;

impl Parser for Instruction {
    fn parse(idx: &mut usize, tokens: &Vec<Token>) -> (r: Result<ASTNode<Symbol>, errors::Diagnostic>)
        ensures
            parsed(r, *old(idx), *final(idx)) == instruction_spec(token_views(tokens@), *old(idx) as int),
    {
        if *idx < tokens.len() {
            if let Token::Identifier(id, segment) = &tokens[*idx] {
                if same_text(id.as_str(), "li") {
                    return instructions::parse_li(idx, tokens);
                } else if same_text(id.as_str(), "la") {
                    return instructions::parse_la(idx, tokens);
                } else if same_text(id.as_str(), "syscall") {
                    return instructions::parse_syscall(idx, tokens);
                } else {
                    let mut text = String::from_str("Unknown instruction ");
                    text.append(id.as_str());
                    text.append(".");
                    return Err(parse::call_err(segment, Msg::One(text)));
                }
            }
        }
        Err(unexpected_token(tokens, *idx, "Expected identifier as instruction."))
    }
}

} // verus!

verus! {

pub struct DefLabel {}

impl Parser for DefLabel {
    fn parse(idx: &mut usize, tokens: &Vec<Token>) -> (r: Result<ASTNode<Symbol>, errors::Diagnostic>)
        ensures
            parsed(r, *old(idx), *final(idx)) == deflabel_spec(token_views(tokens@), *old(idx) as int),
    {
        parse_def_label(idx, tokens)
    }
}

/// A label definition: the label attaches to whatever symbol follows it,
/// an instruction or a data allocation, which becomes its one child.
pub fn parse_def_label(idx: &mut usize, tokens: &Vec<Token>) -> (r: Result<ASTNode<Symbol>, errors::Diagnostic>)
    ensures
        parsed(r, *old(idx), *final(idx)) == deflabel_spec(token_views(tokens@), *old(idx) as int),
        *old(idx) <= *final(idx),
        r is Ok ==> *final(idx) < tokens@.len(),
    decreases tokens@.len() - *old(idx), 1int,
{
    if *idx < tokens.len() {
        if let Token::DefLabel(id, segment) = &tokens[*idx] {
            let symbol = Symbol::DefLabel(symbols::DefLabel { id: id.clone() }, *segment);
            let mut tree = ASTree::new(symbol);
            *idx = *idx + 1;
            match parse::parse_one(idx, tokens) {
                Ok(child) => {
                    proof {
                        lemma_nodes_view_push(tree.children@, child);
                    }
                    tree.add_node(child);
                    assert(nodes_view(tree.children@) =~= seq![child@]);
                },
                Err(e) => return Err(e),
            }
            return Ok(ASTNode::Tree(tree));
        }
    }
    Err(unexpected_token(tokens, *idx, "Expected label definition."))
}

pub struct Directive {}

impl Parser for Directive {
    fn parse(idx: &mut usize, tokens: &Vec<Token>) -> (r: Result<ASTNode<Symbol>, errors::Diagnostic>)
        ensures
            parsed(r, *old(idx), *final(idx)) == directive_spec(token_views(tokens@), *old(idx) as int),
    {
        parse_directive(idx, tokens)
    }
}

/// A directive and what it governs.
pub fn parse_directive(idx: &mut usize, tokens: &Vec<Token>) -> (r: Result<ASTNode<Symbol>, errors::Diagnostic>)
    ensures
        parsed(r, *old(idx), *final(idx)) == directive_spec(token_views(tokens@), *old(idx) as int),
        *old(idx) <= *final(idx),
        r is Ok ==> *final(idx) < tokens@.len(),
    decreases tokens@.len() - *old(idx), 1int,
{
    if *idx < tokens.len() {
        if let Token::Directive(id, segment) = &tokens[*idx] {
            let root = Symbol::Directive(symbols::Directive { id: id.clone() }, *segment);
            if same_text(id.as_str(), "data") || same_text(id.as_str(), "text") {
                // every token up to the next section directive belongs to this one
                proof {
                    lemma_section_end_bounds(token_views(tokens@), *idx + 1);
                }
                let children = match parse_until_next_directive(idx, tokens) {
                    Ok(nodes) => nodes,
                    Err(e) => return Err(e),
                };
                return Ok(ASTNode::Tree(ASTree { root, children }));
            } else if same_text(id.as_str(), "asciiz") {
                let next = *idx + 1;
                if next < tokens.len() {
                    if let Token::StringLiteral(content, string_segment) = &tokens[next] {
                        let mut tree = ASTree::new(root);
                        let leaf = Symbol::StringLiteral(symbols::StringLiteral { content: content.clone() }, *string_segment);
                        proof {
                            lemma_nodes_view_push(tree.children@, ASTNode::Node(leaf));
                        }
                        tree.add_node(ASTNode::Node(leaf));
                        assert(nodes_view(tree.children@) =~= seq![NodeView::Leaf(leaf@)]);
                        *idx = next;
                        return Ok(ASTNode::Tree(tree));
                    }
                }
                return Err(unexpected_token(tokens, next, "Expected string literal."));
            } else {
                let mut text = String::from_str("Unknown directive ");
                text.append(id.as_str());
                text.append(".");
                return Err(parse::call_err(segment, Msg::One(text)));
            }
        }
    }
    Err(unexpected_token(tokens, *idx, "Expected directive."))
}

/// Whether a token is `.data` or `.text`.
pub fn is_section_token(t: &Token) -> (r: bool)
    ensures
        r == is_section(t@),
{
    match t {
        Token::Directive(id, _) => same_text(id.as_str(), "data") || same_text(id.as_str(), "text"),
        _ => false,
    }
}

/// Parses, on their own, the tokens after the section directive at `*idx` up
/// to the next section directive, and leaves `*idx` on the last of them.
fn parse_until_next_directive(idx: &mut usize, tokens: &Vec<Token>) -> (r: Result<Vec<ASTNode<Symbol>>, errors::Diagnostic>)
    requires
        *old(idx) < tokens@.len(),
    ensures
        parse_result(r) == parse_all(
            token_views(tokens@).subrange(
                *old(idx) + 1,
                section_end(token_views(tokens@), *old(idx) + 1),
            ),
            0,
        ),
        *final(idx) == section_end(token_views(tokens@), *old(idx) + 1) - 1,
    decreases tokens@.len() - *old(idx), 0int,
{
    let ghost tv = token_views(tokens@);
    let n = tokens.len();
    let start = *idx + 1;
    let mut j = start;
    let mut nodes: Vec<Token> = Vec::new();
    proof {
        lemma_section_end_bounds(tv, start as int);
    }
    while j < tokens.len() && !is_section_token(&tokens[j])
        invariant
            tv == token_views(tokens@),
            start <= j <= tokens@.len(),
            section_end(tv, start as int) == section_end(tv, j as int),
            token_views(nodes@) =~= tv.subrange(start as int, j as int),
        decreases tokens@.len() - j,
    {
        let ghost before = nodes@;
        nodes.push(tokens[j].duplicate());
        assert(token_views(nodes@) =~= token_views(before).push(tv[j as int]));
        j = j + 1;
    }
    *idx = j - 1;
    parse::parse(&nodes)
}

} // verus!

verus! {

/// A bare word in instruction position that is not a known mnemonic fails
/// with a parse error at that word whose message names it, and the cursor
/// stays on it.
pub proof fn lemma_unknown_mnemonic(toks: Seq<TokenView>, i: int)
    requires
        0 <= i < toks.len(),
        toks[i] is Identifier,
        toks[i]->Identifier_0 != "li"@,
        toks[i]->Identifier_0 != "la"@,
        toks[i]->Identifier_0 != "syscall"@,
    ensures
        parse_one_spec(toks, i) == Err::<(NodeView<SymbolView>, nat), (ErrView, nat)>(
            (
                assemble_error(
                    toks[i]->Identifier_1,
                    MsgView::One("Unknown instruction "@ + toks[i]->Identifier_0 + "."@),
                ),
                0,
            ),
        ),
{
}

/// A register operand whose spelling names no register fails with a parse
/// error at the register whose message names the spelling, and the cursor
/// stays on it.
pub proof fn lemma_unknown_register(toks: Seq<TokenView>, i: int)
    requires
        0 <= i < toks.len(),
        toks[i] is Register,
        register_named(toks[i]->Register_0) is None,
    ensures
        register_spec(toks, i) == Err::<(NodeView<SymbolView>, nat), (ErrView, nat)>(
            (
                assemble_error(
                    toks[i]->Register_1,
                    MsgView::One("Unknown register "@ + toks[i]->Register_0 + "."@),
                ),
                0,
            ),
        ),
{
}

} // verus!

verus! {

/// Directive scoping: a section directive (`.data`, `.text`) at `i` becomes
/// one interior node whose children are exactly the nodes of the tokens
/// between it and the next section directive, parsed on their own; the parse
/// then goes on at that next section directive.
pub proof fn lemma_section_scope(toks: Seq<TokenView>, i: int)
    requires
        0 <= i < toks.len(),
        is_section(toks[i]),
    ensures
        i + 1 <= section_end(toks, i + 1) <= toks.len(),
        section_end(toks, i + 1) < toks.len() ==> is_section(toks[section_end(toks, i + 1)]),
        parse_all(toks, i) == match parse_all(toks.subrange(i + 1, section_end(toks, i + 1)), 0) {
            Err(e) => Err(e),
            Ok(children) => match parse_all(toks, section_end(toks, i + 1)) {
                Err(e) => Err(e),
                Ok(rest) => Ok(
                    seq![
                        NodeView::Interior(
                            SymbolView::Directive(toks[i]->Directive_0, toks[i]->Directive_1),
                            children,
                        ),
                    ] + rest,
                ),
            },
        },
{
    lemma_section_end_bounds(toks, i + 1);
    let end = section_end(toks, i + 1);
    let root = SymbolView::Directive(toks[i]->Directive_0, toks[i]->Directive_1);
    assert(parse_one_spec(toks, i) == directive_spec(toks, i));
    match parse_all(toks.subrange(i + 1, end), 0) {
        Err(e) => {},
        Ok(children) => {
            assert(directive_spec(toks, i) == Ok::<(NodeView<SymbolView>, nat), (ErrView, nat)>(
                (NodeView::Interior(root, children), (end - 1 - i) as nat),
            ));
            assert(i + (end - 1 - i) as nat + 1 == end);
        },
    }
}

} // verus!
