use mips_asm::errors::{DisplayableErr, Msg};
use mips_asm::lexer::tokenize;
use mips_asm::parse::parse;
use mips_asm::text::decimal_text;

fn program(src: &[&str]) -> Vec<String> {
    src.iter().map(|s| s.to_string()).collect()
}

#[test]
fn renders_the_line_and_a_marker_under_the_span() {
    colored::control::set_override(false);
    let src = program(&["syscall", "  li $t0"]);
    let err = parse(&tokenize(&src).unwrap()).unwrap_err();
    let line = src[err.segment.line].clone();
    let shown = DisplayableErr::new(err, &line).render();
    assert_eq!(
        shown,
        "Error (parse error) on line 2 at 5.\nli $t0\n    ^^ Unexpected end of input.\n    ^^ Expected number literal."
    );
}

#[test]
fn renders_a_one_line_message() {
    colored::control::set_override(false);
    let src = program(&["foo.data"]);
    let err = tokenize(&src).unwrap_err();
    let shown = DisplayableErr::new(err, &src[0]).render();
    assert_eq!(
        shown,
        "Error (syntax error) on line 1 at 1.\nfoo.data\n^^^ Trying to consume directive but buffer length = 3\n^^^ buffer = \"foo\"\n^^^ Buffer should be empty."
    );
    let err = mips_asm::errors::Diagnostic {
        segment: mips_asm::lexer::tokens::CodeSegment { line: 0, idx: 0, len: 3 },
        errtype: mips_asm::errors::ErrType::Assemble,
        msg: Msg::One("Unknown instruction foo.".to_string()),
    };
    let shown = DisplayableErr::new(err, &"foo $t0, 5".to_string()).render();
    assert_eq!(shown, "Error (parse error) on line 1 at 1.\nfoo $t0, 5\n^^^ Unknown instruction foo.");
}

#[test]
fn decimal_spelling() {
    assert_eq!(decimal_text(0), "0");
    assert_eq!(decimal_text(7), "7");
    assert_eq!(decimal_text(1203), "1203");
}
