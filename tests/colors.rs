use mips_asm::errors::DisplayableErr;
use mips_asm::lexer::tokenize;
use mips_asm::parse::parse;

fn program(src: &[&str]) -> Vec<String> {
    src.iter().map(|s| s.to_string()).collect()
}

#[test]
fn colors_mark_the_span_when_enabled() {
    colored::control::set_override(true);
    let src = program(&["foo $t0, 5"]);
    let err = parse(&tokenize(&src).unwrap()).unwrap_err();
    let shown = DisplayableErr::new(err, &src[0]).render();
    colored::control::unset_override();
    assert!(shown.contains("\u{1b}[31mf\u{1b}[0m"));
    assert!(shown.contains("\u{1b}[1;31m^^^\u{1b}[0m"));
    assert!(shown.contains("\u{1b}[1mUnknown instruction foo.\u{1b}[0m"));
    assert!(shown.contains("\u{1b}[90mparse error\u{1b}[0m"));
}
