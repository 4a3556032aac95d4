use mips_asm::errors::{ErrType, Msg};
use mips_asm::lexer::tokenize;
use mips_asm::lexer::tokens::{CodeSegment, Token};
use mips_asm::parse::ast::{ASTNode, ASTree, BaseASTree, Tree};
use mips_asm::parse::instructions::{resolve_register, Instruction, Register};
use mips_asm::parse::symbols::Symbol;
use mips_asm::parse::{parse, parse_one, transform};

fn seg(line: usize, idx: usize, len: usize) -> CodeSegment {
    CodeSegment { line, idx, len }
}

fn lex(src: &[&str]) -> Vec<Token> {
    let program: Vec<String> = src.iter().map(|s| s.to_string()).collect();
    tokenize(&program).unwrap()
}

fn tree(node: &ASTNode<Symbol>) -> &ASTree<Symbol> {
    match node {
        ASTNode::Tree(t) => t,
        ASTNode::Node(s) => panic!("expected an interior node, found {:?}", s),
    }
}

fn leaf(node: &ASTNode<Symbol>) -> &Symbol {
    match node {
        ASTNode::Node(s) => s,
        ASTNode::Tree(t) => panic!("expected a leaf, found {:?}", t),
    }
}

#[test]
fn both_spellings_of_every_register_agree() {
    let mnemonics = [
        "zero", "at", "v0", "v1", "a0", "a1", "a2", "a3", "t0", "t1", "t2", "t3", "t4", "t5", "t6", "t7", "s0",
        "s1", "s2", "s3", "s4", "s5", "s6", "s7", "t8", "t9", "k0", "k1", "gp", "sp", "fp", "ra",
    ];
    for (n, name) in mnemonics.iter().enumerate() {
        let by_number = resolve_register(&n.to_string());
        let by_name = resolve_register(name);
        assert!(by_number.is_some());
        assert_eq!(by_number, by_name);
    }
    assert_eq!(resolve_register("0"), Some(Register::Z0));
    assert_eq!(resolve_register("zero"), Some(Register::Z0));
    assert_eq!(resolve_register("8"), Some(Register::T0));
    assert_eq!(resolve_register("t0"), Some(Register::T0));
    assert_eq!(resolve_register("31"), Some(Register::RA));
    assert_eq!(resolve_register("32"), None);
    assert_eq!(resolve_register("zz"), None);
}

#[test]
fn load_immediate_has_two_operands_and_a_full_span() {
    let nodes = parse(&lex(&["li $t0, 5"])).unwrap();
    assert_eq!(nodes.len(), 1);
    let t = tree(&nodes[0]);
    assert!(matches!(t.root, Symbol::Instruction(Instruction::LoadImmediate, g) if g == seg(0, 0, 9)));
    assert_eq!(t.children.len(), 2);
    assert!(matches!(leaf(&t.children[0]), Symbol::Register(Register::T0, g) if *g == seg(0, 4, 2)));
    assert!(matches!(leaf(&t.children[1]), Symbol::NumberLiteral(n, g) if n.value == 5 && *g == seg(0, 8, 1)));
}

#[test]
fn missing_operand_names_the_kind_wanted() {
    let err = parse(&lex(&["li $t0"])).unwrap_err();
    assert_eq!(err.errtype, ErrType::Assemble);
    assert_eq!(err.segment, seg(0, 4, 2));
    assert_eq!(
        err.msg,
        Msg::Many(vec!["Unexpected end of input.".to_string(), "Expected number literal.".to_string()])
    );
}

#[test]
fn wrong_operand_kind_names_the_kind_wanted() {
    let err = parse(&lex(&["la $a0, 5"])).unwrap_err();
    assert_eq!(err.errtype, ErrType::Assemble);
    assert_eq!(err.segment, seg(0, 8, 1));
    assert_eq!(
        err.msg,
        Msg::Many(vec!["Unexpected token NumberLiteral.".to_string(), "Expected label.".to_string()])
    );
}

#[test]
fn unknown_mnemonic_is_named() {
    let err = parse(&lex(&["foo $t0, 5"])).unwrap_err();
    assert_eq!(err.errtype, ErrType::Assemble);
    assert_eq!(err.segment, seg(0, 0, 3));
    assert_eq!(err.msg, Msg::One("Unknown instruction foo.".to_string()));
}

#[test]
fn unknown_register_is_named() {
    let err = parse(&lex(&["li $zz, 5"])).unwrap_err();
    assert_eq!(err.errtype, ErrType::Assemble);
    assert_eq!(err.segment, seg(0, 4, 2));
    assert_eq!(err.msg, Msg::One("Unknown register zz.".to_string()));
}

#[test]
fn sections_hold_the_tokens_up_to_the_next_section() {
    let tokens = vec![
        Token::Directive("data".to_string(), seg(0, 0, 5)),
        Token::DefLabel("msg".to_string(), seg(1, 0, 4)),
        Token::Directive("asciiz".to_string(), seg(1, 5, 7)),
        Token::StringLiteral("hi".to_string(), seg(1, 13, 4)),
        Token::Directive("text".to_string(), seg(2, 0, 5)),
        Token::Identifier("syscall".to_string(), seg(3, 0, 7)),
    ];
    let nodes = parse(&tokens).unwrap();
    assert_eq!(nodes.len(), 2);

    let data = tree(&nodes[0]);
    assert!(matches!(&data.root, Symbol::Directive(d, _) if d.id == "data"));
    assert_eq!(data.children.len(), 1);
    let label = tree(&data.children[0]);
    assert!(matches!(&label.root, Symbol::DefLabel(d, g) if d.id == "msg" && *g == seg(1, 0, 4)));
    assert_eq!(label.children.len(), 1);
    let asciiz = tree(&label.children[0]);
    assert!(matches!(&asciiz.root, Symbol::Directive(d, _) if d.id == "asciiz"));
    assert!(matches!(leaf(&asciiz.children[0]), Symbol::StringLiteral(s, _) if s.content == "hi"));

    let text = tree(&nodes[1]);
    assert!(matches!(&text.root, Symbol::Directive(d, _) if d.id == "text"));
    assert_eq!(text.children.len(), 1);
    assert!(matches!(leaf(&text.children[0]), Symbol::Instruction(Instruction::SystemCall, g) if *g == seg(3, 0, 7)));
}

#[test]
fn a_whole_program() {
    let nodes = parse(&lex(&[
        ".data",
        "msg: .asciiz \"hello\"",
        ".text",
        "main: li $v0, 4",
        "la $a0, msg",
        "syscall",
    ]))
    .unwrap();
    assert_eq!(nodes.len(), 2);
    let text = tree(&nodes[1]);
    assert_eq!(text.children.len(), 3);
    let main = tree(&text.children[0]);
    assert!(matches!(&main.root, Symbol::DefLabel(d, _) if d.id == "main"));
    let li = tree(&main.children[0]);
    assert!(matches!(li.root, Symbol::Instruction(Instruction::LoadImmediate, g) if g == seg(3, 6, 9)));
    let la = tree(&text.children[1]);
    assert!(matches!(la.root, Symbol::Instruction(Instruction::LoadAddress, g) if g == seg(4, 0, 11)));
    assert!(matches!(leaf(&la.children[1]), Symbol::Label(l, _) if l.id == "msg"));
}

#[test]
fn stray_token_at_top_level_is_unexpected() {
    let err = parse(&lex(&["5"])).unwrap_err();
    assert_eq!(err.errtype, ErrType::Assemble);
    assert_eq!(err.segment, seg(0, 0, 1));
    assert_eq!(err.msg, Msg::One("Unexpected token NumberLiteral.".to_string()));
}

#[test]
fn unknown_directive_is_named() {
    let err = parse(&lex(&[".word 5"])).unwrap_err();
    assert_eq!(err.segment, seg(0, 0, 5));
    assert_eq!(err.msg, Msg::One("Unknown directive word.".to_string()));
}

#[test]
fn asciiz_needs_a_string() {
    let err = parse(&lex(&[".asciiz 5"])).unwrap_err();
    assert_eq!(err.segment, seg(0, 8, 1));
    assert_eq!(
        err.msg,
        Msg::Many(vec!["Unexpected token NumberLiteral.".to_string(), "Expected string literal.".to_string()])
    );
}

#[test]
fn label_at_the_end_has_nothing_to_name() {
    let err = parse(&lex(&["end:"])).unwrap_err();
    assert_eq!(err.segment, seg(0, 0, 4));
    assert_eq!(err.msg, Msg::One("Unexpected end of input.".to_string()));
}

#[test]
fn parse_one_leaves_the_cursor_on_the_last_token() {
    let tokens = lex(&["li $t0, 5", "syscall"]);
    let mut idx = 0;
    let node = parse_one(&mut idx, &tokens).unwrap();
    assert_eq!(idx, 2);
    assert_eq!(tree(&node).children.len(), 2);
    idx += 1;
    parse_one(&mut idx, &tokens).unwrap();
    assert_eq!(idx, 3);
}

#[test]
fn transform_keeps_the_nodes_in_order() {
    let nodes = parse(&lex(&["syscall", "li $t0, 1"])).unwrap();
    let base: BaseASTree<Symbol> = transform(nodes);
    let children = base.get_children();
    assert_eq!(children.len(), 2);
    assert!(matches!(leaf(&children[0]), Symbol::Instruction(Instruction::SystemCall, _)));
}

#[test]
fn empty_program_parses_to_nothing() {
    assert_eq!(parse(&Vec::new()).unwrap().len(), 0);
}

#[test]
fn cursor_after_errors() {
    // an unexpected token leaves the cursor on it
    let tokens = lex(&["5"]);
    let mut idx = 0;
    assert!(parse_one(&mut idx, &tokens).is_err());
    assert_eq!(idx, 0);
    // a missing operand leaves the cursor where it was wanted
    let tokens = lex(&["li $t0"]);
    let mut idx = 0;
    assert!(parse_one(&mut idx, &tokens).is_err());
    assert_eq!(idx, 2);
    // a bad register leaves the cursor on the register
    let tokens = lex(&["li $zz, 5"]);
    let mut idx = 0;
    assert!(parse_one(&mut idx, &tokens).is_err());
    assert_eq!(idx, 1);
    // a label passes on where its symbol's parse stopped
    let tokens = lex(&["here: la $a0, 5"]);
    let mut idx = 0;
    assert!(parse_one(&mut idx, &tokens).is_err());
    assert_eq!(idx, 3);
}
