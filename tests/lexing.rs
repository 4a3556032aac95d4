use mips_asm::errors::{ErrType, Msg};
use mips_asm::lexer::consumers::parse_number;
use mips_asm::lexer::tokens::{CodeSegment, Token};
use mips_asm::lexer::{tokenize, tokenize_line};

fn lines(src: &[&str]) -> Vec<String> {
    src.iter().map(|s| s.to_string()).collect()
}

fn seg(line: usize, idx: usize, len: usize) -> CodeSegment {
    CodeSegment { line, idx, len }
}

fn slice(text: &str, g: &CodeSegment) -> String {
    text.chars().skip(g.idx).take(g.len).collect()
}

#[test]
fn spans_reslice_the_trimmed_line() {
    let line = "li $t0, 5 # comment";
    let tokens = tokenize(&lines(&[line])).unwrap();
    assert_eq!(
        tokens,
        vec![
            Token::Identifier("li".to_string(), seg(0, 0, 2)),
            Token::Register("t0".to_string(), seg(0, 4, 2)),
            Token::NumberLiteral(5, seg(0, 8, 1)),
        ]
    );
    let texts: Vec<String> = tokens.iter().map(|t| slice(line, &t.segment())).collect();
    assert_eq!(texts, vec!["li", "t0", "5"]);
}

#[test]
fn lines_are_trimmed_before_lexing() {
    let tokens = tokenize(&lines(&["   syscall   "])).unwrap();
    assert_eq!(tokens, vec![Token::Identifier("syscall".to_string(), seg(0, 0, 7))]);
}

#[test]
fn tokens_of_several_lines_keep_their_line_numbers() {
    let tokens = tokenize(&lines(&[".data", "", "msg: .asciiz \"hi\"", ".text", "la $a0, msg"])).unwrap();
    assert_eq!(
        tokens,
        vec![
            Token::Directive("data".to_string(), seg(0, 0, 5)),
            Token::DefLabel("msg".to_string(), seg(2, 0, 4)),
            Token::Directive("asciiz".to_string(), seg(2, 5, 7)),
            Token::StringLiteral("hi".to_string(), seg(2, 13, 4)),
            Token::Directive("text".to_string(), seg(3, 0, 5)),
            Token::Identifier("la".to_string(), seg(4, 0, 2)),
            Token::Register("a0".to_string(), seg(4, 4, 2)),
            Token::Identifier("msg".to_string(), seg(4, 8, 3)),
        ]
    );
}

#[test]
fn buffered_word_before_a_directive_is_a_syntax_error() {
    let err = tokenize(&lines(&["foo.data"])).unwrap_err();
    assert_eq!(err.errtype, ErrType::Syntax);
    assert_eq!(err.segment, seg(0, 0, 3));
    assert_eq!(
        err.msg,
        Msg::Many(vec![
            "Trying to consume directive but buffer length = 3".to_string(),
            "buffer = \"foo\"".to_string(),
            "Buffer should be empty.".to_string(),
        ])
    );
}

#[test]
fn comment_right_after_a_word_is_a_syntax_error() {
    let err = tokenize(&lines(&["syscall# done"])).unwrap_err();
    assert_eq!(err.errtype, ErrType::Syntax);
    assert_eq!(err.segment, seg(0, 0, 7));
    assert_eq!(
        err.msg,
        Msg::Many(vec![
            "Line ended but buffer length = 7".to_string(),
            "buffer = \"syscall\"".to_string(),
            "Buffer should be empty.".to_string(),
        ])
    );
}

#[test]
fn relexing_gives_equal_tokens() {
    let program = lines(&[".data", "msg: .asciiz \"a b\"", ".text", "li $v0, 4", "la $a0, msg", "syscall"]);
    let first = tokenize(&program).unwrap();
    let second = tokenize(&program).unwrap();
    assert_eq!(first.len(), second.len());
    for (a, b) in first.iter().zip(second.iter()) {
        assert_eq!(a, b);
    }
}

#[test]
fn blank_and_comment_lines_give_no_tokens() {
    assert_eq!(tokenize(&lines(&["", "   ", "# only a comment"])).unwrap(), vec![]);
}

#[test]
fn number_literals() {
    let tokens = tokenize_line(0, "li $t1, -42").unwrap();
    assert_eq!(tokens[2], Token::NumberLiteral(-42, seg(0, 8, 3)));
    let tokens = tokenize_line(0, "li $t1, 7   # spaces then a comment").unwrap();
    assert_eq!(tokens[2], Token::NumberLiteral(7, seg(0, 8, 1)));
    let tokens = tokenize_line(0, "li $t1, -2147483648").unwrap();
    assert_eq!(tokens[2], Token::NumberLiteral(i32::MIN, seg(0, 8, 11)));
}

#[test]
fn number_that_does_not_fit_is_a_syntax_error() {
    let err = tokenize_line(0, "li $t1, 2147483648").unwrap_err();
    assert_eq!(err.errtype, ErrType::Syntax);
    assert_eq!(err.segment, seg(0, 8, 10));
    assert_eq!(
        err.msg,
        Msg::One("Could not cast 2147483648 to a number: number too large to fit in target type".to_string())
    );
}

#[test]
fn number_followed_by_a_word_is_a_syntax_error() {
    let err = tokenize_line(0, "li $t1, 5 x").unwrap_err();
    assert_eq!(err.segment, seg(0, 10, 1));
    assert_eq!(err.msg, Msg::One("Unexpected character x while reading whitespace.".to_string()));
    let err = tokenize_line(0, "li $t1, 5x").unwrap_err();
    assert_eq!(err.segment, seg(0, 9, 1));
    assert_eq!(err.msg, Msg::One("Illegal character \"x\" while consuming number.".to_string()));
}

#[test]
fn parse_number_reasons() {
    assert_eq!(parse_number("123"), Ok(123));
    assert_eq!(parse_number("-0"), Ok(0));
    assert_eq!(parse_number("2147483647"), Ok(i32::MAX));
    assert_eq!(parse_number("-"), Err("invalid digit found in string"));
    assert_eq!(parse_number("1-2"), Err("invalid digit found in string"));
    assert_eq!(parse_number("-2147483649"), Err("number too small to fit in target type"));
    assert_eq!(parse_number("99999999999999999999"), Err("number too large to fit in target type"));
}

#[test]
fn register_names_longer_than_two_characters_are_rejected() {
    let err = tokenize_line(0, "li $zero, 5").unwrap_err();
    assert_eq!(err.errtype, ErrType::Syntax);
    assert_eq!(err.segment, seg(0, 4, 4));
    assert_eq!(
        err.msg,
        Msg::Many(vec![
            "Illegal register form \"zero\".".to_string(),
            "Registers' names do not exceed two characters.".to_string(),
        ])
    );
}

#[test]
fn register_with_an_illegal_character_is_rejected() {
    let err = tokenize_line(0, "li $T0, 5").unwrap_err();
    assert_eq!(err.segment, seg(0, 4, 1));
}

#[test]
fn register_at_line_end_or_before_a_comment() {
    let tokens = tokenize_line(3, "li $t0").unwrap();
    assert_eq!(tokens[1], Token::Register("t0".to_string(), seg(3, 4, 2)));
    let tokens = tokenize_line(3, "li $t0# c").unwrap();
    assert_eq!(tokens.len(), 2);
}

#[test]
fn string_literal_with_an_escaped_quote() {
    let tokens = tokenize_line(0, ".asciiz \"a\\\"b\"").unwrap();
    assert_eq!(tokens[1], Token::StringLiteral("a\\\"b".to_string(), seg(0, 8, 6)));
}

#[test]
fn unterminated_string_is_a_syntax_error() {
    let err = tokenize_line(0, ".asciiz \"abc").unwrap_err();
    assert_eq!(err.errtype, ErrType::Syntax);
    assert_eq!(err.segment, seg(0, 8, 4));
    assert_eq!(err.msg, Msg::One("Unterminated string literal.".to_string()));
}

#[test]
fn directive_with_a_digit_is_a_syntax_error() {
    let err = tokenize_line(0, ".da1ta").unwrap_err();
    assert_eq!(err.segment, seg(0, 3, 1));
    assert_eq!(
        err.msg,
        Msg::Many(vec![
            "Illegal symbol \"1\" while consuming directive.".to_string(),
            "Directives may only have alphabetic names.".to_string(),
        ])
    );
}

#[test]
fn label_definition_covers_name_and_colon() {
    let tokens = tokenize_line(1, "main: syscall").unwrap();
    assert_eq!(
        tokens,
        vec![
            Token::DefLabel("main".to_string(), seg(1, 0, 5)),
            Token::Identifier("syscall".to_string(), seg(1, 6, 7)),
        ]
    );
}

#[test]
fn first_failing_line_decides_the_error() {
    let err = tokenize(&lines(&["syscall", "foo.data", "bar.text"])).unwrap_err();
    assert_eq!(err.segment, seg(1, 0, 3));
}

#[test]
fn register_followed_by_a_word_is_a_syntax_error() {
    let err = tokenize_line(0, "li $t0 x, 5").unwrap_err();
    assert_eq!(err.errtype, ErrType::Syntax);
    assert_eq!(err.segment, seg(0, 7, 1));
    assert_eq!(
        err.msg,
        Msg::Many(vec![
            "Illegal symbol \"x\" while consuming register.".to_string(),
            "Registers may only have alphanumeric names.".to_string(),
        ])
    );
    let err = tokenize_line(0, "la $a0 msg").unwrap_err();
    assert_eq!(err.segment, seg(0, 7, 1));
    let err = tokenize_line(0, "li $t0 , 5").unwrap_err();
    assert_eq!(err.segment, seg(0, 7, 1));
}

#[test]
fn register_followed_by_spaces_and_a_comment() {
    let tokens = tokenize_line(0, "li $t0   # load").unwrap();
    assert_eq!(
        tokens,
        vec![
            Token::Identifier("li".to_string(), seg(0, 0, 2)),
            Token::Register("t0".to_string(), seg(0, 4, 2)),
        ]
    );
}

#[test]
fn whitespace_of_other_kinds_is_trimmed() {
    let tokens = tokenize(&lines(&["\t\u{a0}syscall\u{3000}\r"])).unwrap();
    assert_eq!(tokens, vec![Token::Identifier("syscall".to_string(), seg(0, 0, 7))]);
}
