//! The parser: turns the token sequence into syntax-tree nodes.
//!
//! A shared cursor moves over the tokens; the kind of the token under it
//! selects a parser. Section directives hand the tokens they govern to a
//! parse of their own, whose indices are local to that sub-sequence.
pub mod ast;
pub mod instructions;
pub mod parsers;
pub mod symbols;

use vstd::prelude::*;

use crate::errors::{self, ErrType, ErrView, Msg, MsgView};
use crate::lexer::tokens::{token_views, CodeSegment, Token, TokenView};
use crate::parse::ast::{lemma_nodes_view_push, nodes_view, ASTNode, BaseASTree, NodeView, Tree};
use crate::parse::parsers::{
    assemble_error, deflabel_spec, directive_spec, end_segment, instruction_spec, parsed, Parsed, Parser,
};
use crate::parse::symbols::{Symbol, SymbolView};

verus! {

/// The symbol that starts at token `i`: a directive, a label definition, or
/// an instruction. Any other token is out of place here.
pub open spec fn parse_one_spec(toks: Seq<TokenView>, i: int) -> Parsed
    decreases toks.len() - i, 2int,
{
    if 0 <= i < toks.len() {
        let t = toks[i];
        if t is Directive {
            directive_spec(toks, i)
        } else if t is DefLabel {
            deflabel_spec(toks, i)
        } else if t is Identifier {
            instruction_spec(toks, i)
        } else {
            Err((assemble_error(t.segment(), MsgView::One("Unexpected token "@ + t.kind_name() + "."@)), 0))
        }
    } else {
        Err((assemble_error(end_segment(toks), MsgView::One("Unexpected end of input."@)), 0))
    }
}

/// The nodes of the tokens from `i` on, one symbol after another, or the
/// first error.
pub open spec fn parse_all(toks: Seq<TokenView>, i: int) -> Result<Seq<NodeView<SymbolView>>, ErrView>
    decreases toks.len() - i, 3int,
{
    if 0 <= i < toks.len() {
        match parse_one_spec(toks, i) {
            Err((e, _)) => Err(e),
            Ok((node, adv)) => {
                let next = if i + adv + 1 > toks.len() { toks.len() as int } else { i + adv + 1 };
                match parse_all(toks, next) {
                    Ok(rest) => Ok(seq![node] + rest),
                    Err(e) => Err(e),
                }
            },
        }
    } else {
        Ok(seq![])
    }
}

/// The nodes of a whole token sequence, or the first error.
pub open spec fn parse_program(toks: Seq<TokenView>) -> Result<Seq<NodeView<SymbolView>>, ErrView> {
    parse_all(toks, 0)
}

/// The view of a parse's result.
pub open spec fn parse_result(r: Result<Vec<ASTNode<Symbol>>, errors::Diagnostic>) -> Result<Seq<NodeView<SymbolView>>, ErrView> {
    match r {
        Ok(v) => Ok(nodes_view(v@)),
        Err(e) => Err(e@),
    }
}

/// Parses the symbol that starts at `*idx`, leaving `*idx` on the last token
/// it used.
pub fn parse_one(idx: &mut usize, program: &Vec<Token>) -> (r: Result<ASTNode<Symbol>, errors::Diagnostic>)
    ensures
        parsed(r, *old(idx), *final(idx)) == parse_one_spec(token_views(program@), *old(idx) as int),
        *old(idx) <= *final(idx),
        r is Ok ==> *final(idx) < program@.len(),
    decreases program@.len() - *old(idx), 2int,
{
    if *idx >= program.len() {
        return Err(errors::Diagnostic {
            segment: last_segment(program),
            errtype: ErrType::Assemble,
            msg: Msg::One(String::from_str("Unexpected end of input.")),
        });
    }
    let token = &program[*idx];
    match token {
        Token::Directive(_, _) => parsers::parse_directive(idx, program),
        Token::DefLabel(_, _) => parsers::parse_def_label(idx, program),
        // a bare word here is an instruction: a label used as an operand is
        // taken by the instruction it belongs to
        Token::Identifier(_, _) => parsers::Instruction::parse(idx, program),
        _ => {
            let mut text = String::from_str("Unexpected token ");
            text.append(token.kind_name());
            text.append(".");
            Err(errors::Diagnostic { segment: extract_segment(token), errtype: ErrType::Assemble, msg: Msg::One(text) })
        },
    }
}

/// Parses a token sequence into its top-level nodes.
pub fn parse(program: &Vec<Token>) -> (r: Result<Vec<ASTNode<Symbol>>, errors::Diagnostic>)
    ensures
        parse_result(r) == parse_program(token_views(program@)),
    decreases program@.len(), 3int,
{
    let ghost toks = token_views(program@);
    let mut nodes: Vec<ASTNode<Symbol>> = Vec::new();
    let mut idx: usize = 0;
    assert(seq![] + parse_all(toks, 0)->Ok_0 =~= parse_all(toks, 0)->Ok_0);
    while idx < program.len()
        invariant
            toks == token_views(program@),
            idx <= program@.len(),
            parse_all(toks, 0) == match parse_all(toks, idx as int) {
                Ok(rest) => Ok(nodes_view(nodes@) + rest),
                Err(e) => Err(e),
            },
        decreases program@.len() - idx,
    {
        let ghost start = idx as int;
        let ghost before = nodes@;
        match parse_one(&mut idx, program) {
            Ok(symbol) => {
                proof {
                    lemma_nodes_view_push(before, symbol);
                }
                nodes.push(symbol);
            },
            Err(e) => return Err(e),
        }
        idx = idx + 1;
        proof {
            match parse_all(toks, idx as int) {
                Ok(rest) => {
                    assert(nodes_view(before) + parse_all(toks, start)->Ok_0 =~= nodes_view(nodes@) + rest);
                },
                Err(_) => {},
            }
        }
    }
    assert(nodes_view(nodes@) + seq![] =~= nodes_view(nodes@));
    Ok(nodes)
}

/// Gathers the top-level nodes under a base tree.
pub fn transform(nodes: Vec<ASTNode<Symbol>>) -> (r: BaseASTree<Symbol>)
    ensures
        r.children@ == nodes@,
{
    let mut basetree = BaseASTree::<Symbol>::new();
    let mut rest = nodes;
    while rest.len() > 0
        invariant
            basetree.children@ + rest@ == nodes@,
        decreases rest@.len(),
    {
        let node = rest.remove(0);
        basetree.add_node(node);
        assert(basetree.children@ + rest@ =~= nodes@);
    }
    assert(basetree.children@ =~= nodes@);
    basetree
}

/// A parse error at `segment`.
pub fn call_err(segment: &CodeSegment, msg: Msg) -> (e: errors::Diagnostic)
    ensures
        e@ == assemble_error(*segment, msg@),
{
    errors::Diagnostic { segment: *segment, errtype: ErrType::Assemble, msg }
}

/// The span of a token.
pub fn extract_segment(token: &Token) -> (g: CodeSegment)
    ensures
        g == token@.segment(),
{
    token.segment()
}

/// The span that errors past the last token point at.
pub fn last_segment(tokens: &Vec<Token>) -> (g: CodeSegment)
    ensures
        g == end_segment(token_views(tokens@)),
{
    if tokens.len() == 0 {
        CodeSegment { line: 0, idx: 0, len: 0 }
    } else {
        tokens[tokens.len() - 1].segment()
    }
}

} // verus!
