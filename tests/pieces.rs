use mips_asm::errors::{DisplayableErr, Diagnostic, ErrType, Msg};
use mips_asm::lexer::tokens::{CodeSegment, Token};
use mips_asm::lexer::Lexer;
use mips_asm::mips::syntax_highlight;
use mips_asm::parse::ast::{ASTNode, ASTree, BaseASTree, Tree};
use mips_asm::parse::instructions::{instruction_span, Instruction};
use mips_asm::parse::symbols::{NumberLiteral, Symbol};
use mips_asm::parse::{call_err, extract_segment, last_segment};
use mips_asm::text::same_text;

fn lexer_with_buffer(buffer: &str, start: usize) -> Lexer {
    Lexer {
        line: 4,
        text: "abc.data".to_string(),
        width: 8,
        buffer: buffer.to_string(),
        start,
    }
}

#[test]
fn verify_buffer_accepts_an_empty_buffer() {
    let lexer = lexer_with_buffer("", 0);
    assert_eq!(lexer.len(), 0);
    assert_eq!(lexer.verify_buffer("directive"), Ok(Token::Empty));
}

#[test]
fn verify_buffer_names_what_it_holds() {
    let lexer = lexer_with_buffer("abc", 0);
    assert_eq!(lexer.len(), 3);
    let err = lexer.verify_buffer("register").unwrap_err();
    assert_eq!(err.segment, CodeSegment { line: 4, idx: 0, len: 3 });
    assert_eq!(err.errtype, ErrType::Syntax);
    assert_eq!(
        err.msg,
        Msg::Many(vec![
            "Trying to consume register but buffer length = 3".to_string(),
            "buffer = \"abc\"".to_string(),
            "Buffer should be empty.".to_string(),
        ])
    );
}

#[test]
fn lexer_error_is_a_syntax_error_on_its_line() {
    let lexer = lexer_with_buffer("", 0);
    let err = lexer.error(2, 1, Msg::One("bad".to_string())).unwrap_err();
    assert_eq!(
        err,
        Diagnostic {
            segment: CodeSegment { line: 4, idx: 2, len: 1 },
            errtype: ErrType::Syntax,
            msg: Msg::One("bad".to_string())
        }
    );
}

#[test]
fn tree_methods_append_in_order() {
    let root = Symbol::Instruction(Instruction::SystemCall, CodeSegment { line: 0, idx: 0, len: 7 });
    let mut tree: ASTree<Symbol> = ASTree::new(root);
    tree.add_child(Symbol::NumberLiteral(NumberLiteral { value: 1 }, CodeSegment { line: 0, idx: 1, len: 1 }));
    let inner = ASTree::new(Symbol::NumberLiteral(NumberLiteral { value: 2 }, CodeSegment { line: 0, idx: 2, len: 1 }));
    tree.add_subtree(inner);
    assert_eq!(tree.children.len(), 2);
    assert!(matches!(tree.children[0], ASTNode::Node(Symbol::NumberLiteral(ref n, _)) if n.value == 1));
    assert!(matches!(tree.children[1], ASTNode::Tree(_)));
    let root = ASTree::new(Symbol::NumberLiteral(NumberLiteral { value: 9 }, CodeSegment { line: 0, idx: 0, len: 1 })).root();
    assert!(matches!(root, Symbol::NumberLiteral(n, _) if n.value == 9));

    let mut base: BaseASTree<Symbol> = BaseASTree::new();
    base.add_child(Symbol::NumberLiteral(NumberLiteral { value: 3 }, CodeSegment { line: 1, idx: 0, len: 1 }));
    assert_eq!(base.get_children().len(), 1);
}

#[test]
fn instruction_span_runs_from_head_to_tail() {
    let head = CodeSegment { line: 2, idx: 3, len: 2 };
    let tail = CodeSegment { line: 2, idx: 10, len: 4 };
    assert_eq!(instruction_span(head, tail), CodeSegment { line: 2, idx: 3, len: 11 });
    // a tail that ends before the head gives an empty span
    assert_eq!(instruction_span(tail, head), CodeSegment { line: 2, idx: 10, len: 0 });
}

#[test]
fn helpers() {
    let g = CodeSegment { line: 1, idx: 2, len: 3 };
    assert_eq!(extract_segment(&Token::Register("t0".to_string(), g)), g);
    assert_eq!(last_segment(&vec![]), CodeSegment { line: 0, idx: 0, len: 0 });
    assert_eq!(last_segment(&vec![Token::Identifier("x".to_string(), g)]), g);
    let err = call_err(&g, Msg::One("m".to_string()));
    assert_eq!(err.errtype, ErrType::Assemble);
    assert_eq!(err.segment, g);
    assert!(same_text("abc", "abc"));
    assert!(!same_text("abc", "abd"));
    assert!(!same_text("ab", "abc"));
    assert_eq!(syntax_highlight("li $t0, 5".to_string()), "li $t0, 5");
    let shown = DisplayableErr::new(err, &"x".to_string());
    assert_eq!(shown.line, "x");
}
