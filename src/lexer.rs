//! The lexer: turns lines of source into a flat sequence of located tokens.
//!
//! Lines are lexed independently. Within a line a cursor moves left to right;
//! the character under it selects a consumer, and characters that select
//! none wait in a scratch buffer until a space or a colon flushes them.
pub mod consumers;
pub mod tokens;

use vstd::prelude::*;

use crate::errors::{self, ErrType, ErrView, Msg, MsgView};
use crate::lexer::consumers::{
    buffer_error, deflabel_spec, directive_spec, identifier_spec, is_digit,
    number_spec, register_spec, run_end, seg, string_spec, syntax_error, CharClass, Consumer,
};
use crate::lexer::tokens::{token_views, CodeSegment, Token, TokenView};
use crate::text::{decimal, decimal_text, trimmed};

verus! {

/// The state of the lexer over one line.
pub struct Lexer {
    /// line number
    pub line: usize,
    /// the trimmed text of the line
    pub text: String,
    /// the number of characters in `text`
    pub width: usize,
    /// characters seen that no token has taken yet
    pub buffer: String,
    /// where the characters in `buffer` start
    pub start: usize,
}

/// Whether a character selects a consumer other than the comment.
pub open spec fn selects_consumer(c: char) -> bool {
    c == '.' || c == ':' || c == '$' || c == '"' || is_digit(c) || c == '-' || c == ' '
}

/// The consumer that the character at `pos` selects.
pub open spec fn consume_spec(line: usize, t: Seq<char>, pos: int, buf: Seq<char>) -> Result<(TokenView, nat), ErrView> {
    let c = t[pos];
    if c == '.' {
        directive_spec(line, t, pos, buf)
    } else if c == ':' {
        deflabel_spec(line, pos, buf)
    } else if c == '$' {
        register_spec(line, t, pos, buf)
    } else if c == '"' {
        string_spec(line, t, pos, buf)
    } else if is_digit(c) || c == '-' {
        number_spec(line, t, pos, buf)
    } else {
        identifier_spec(line, pos, buf)
    }
}

/// The error for a line whose comment starts while the buffer holds `buf`.
pub open spec fn line_end_error(line: usize, pos: int, buf: Seq<char>) -> ErrView {
    syntax_error(
        line,
        pos - buf.len(),
        buf.len() as int,
        MsgView::Many(
            seq![
                "Line ended but buffer length = "@ + decimal(buf.len()),
                "buffer = \""@ + buf + "\""@,
                "Buffer should be empty."@,
            ],
        ),
    )
}

/// The tokens that a consumer's result adds to the output: none for `Empty`.
pub open spec fn emitted(t: TokenView) -> Seq<TokenView> {
    if t is Empty {
        seq![]
    } else {
        seq![t]
    }
}

/// `r` with `prefix` put in front of its tokens.
pub open spec fn prepend(prefix: Seq<TokenView>, r: Result<Seq<TokenView>, ErrView>) -> Result<Seq<TokenView>, ErrView> {
    match r {
        Ok(rest) => Ok(prefix + rest),
        Err(e) => Err(e),
    }
}

/// `i`, but no more than the length of `t`.
pub open spec fn clip(t: Seq<char>, i: int) -> int {
    if i > t.len() {
        t.len() as int
    } else {
        i
    }
}

/// Lexes line `line`, whose trimmed text is `t`, from position `pos` on, with
/// `buf` in the scratch buffer (the characters just before `pos`).
pub open spec fn lex_from(line: usize, t: Seq<char>, pos: int, buf: Seq<char>) -> Result<Seq<TokenView>, ErrView>
    decreases t.len() - pos,
{
    if pos < 0 || pos >= t.len() {
        // the end of the line ends a bare word as a space does
        if buf.len() == 0 {
            Ok(seq![])
        } else {
            Ok(seq![TokenView::Identifier(buf, seg(line, t.len() - buf.len(), buf.len() as int))])
        }
    } else if t[pos] == '#' {
        if buf.len() == 0 {
            Ok(seq![])
        } else {
            Err(line_end_error(line, pos, buf))
        }
    } else if !selects_consumer(t[pos]) {
        lex_from(line, t, pos + 1, buf.push(t[pos]))
    } else {
        match consume_spec(line, t, pos, buf) {
            Err(e) => Err(e),
            Ok((tok, adv)) => prepend(emitted(tok), lex_from(line, t, clip(t, pos + adv + 1), seq![])),
        }
    }
}

/// The tokens of line `line` whose trimmed text is `t`, or the first error.
pub open spec fn lex_line(line: usize, t: Seq<char>) -> Result<Seq<TokenView>, ErrView> {
    lex_from(line, t, 0, seq![])
}

/// The tokens of the first `n` lines of a program, line after line, or the
/// first error.
pub open spec fn lex_lines(lines: Seq<Seq<char>>, n: nat) -> Result<Seq<TokenView>, ErrView>
    decreases n,
{
    if n == 0 {
        Ok(seq![])
    } else {
        match lex_lines(lines, (n - 1) as nat) {
            Err(e) => Err(e),
            Ok(front) => prepend(front, lex_line((n - 1) as usize, trimmed(lines[n - 1]))),
        }
    }
}

/// Once a line fails, the program fails with that line's error.
proof fn lemma_lex_lines_fail(lines: Seq<Seq<char>>, k: nat, m: nat)
    requires
        k <= m,
        lex_lines(lines, k) is Err,
    ensures
        lex_lines(lines, m) == lex_lines(lines, k),
    decreases m - k,
{
    if k < m {
        lemma_lex_lines_fail(lines, k, (m - 1) as nat);
    }
}

/// The tokens of a whole program, or the first error.
pub open spec fn lex_program(lines: Seq<Seq<char>>) -> Result<Seq<TokenView>, ErrView> {
    lex_lines(lines, lines.len())
}

/// The view of a lexer's result.
pub open spec fn lex_result(r: Result<Vec<Token>, errors::Diagnostic>) -> Result<Seq<TokenView>, ErrView> {
    match r {
        Ok(v) => Ok(token_views(v@)),
        Err(e) => Err(e@),
    }
}

/// The views of the lines of a program.
pub open spec fn line_views(program: Seq<String>) -> Seq<Seq<char>> {
    program.map_values(|s: String| s@)
}

impl Lexer {
    /// `width` counts the characters of the text, and the buffered
    /// characters lie within it.
    pub open spec fn wf(&self) -> bool {
        &&& self.width == self.text@.len()
        &&& self.start + self.buffer@.len() <= self.width
    }

    /// The lexer may run a consumer at `i`: the buffer holds the characters
    /// just before it.
    pub open spec fn ready_at(&self, i: int) -> bool {
        &&& self.wf()
        &&& 0 <= i < self.width
        &&& self.buffer@.len() > 0 ==> self.start + self.buffer@.len() == i
    }

    /// The character at `idx`.
    fn idx(&self, idx: usize) -> (c: char)
        requires
            self.wf(),
            idx < self.width,
        ensures
            c == self.text@[idx as int],
    {
        self.text.as_str().get_char(idx)
    }

    /// A syntax error on this line.
    fn diagnostic(&self, idx: usize, len: usize, msg: Msg) -> (e: errors::Diagnostic)
        ensures
            e@ == syntax_error(self.line, idx as int, len as int, msg@),
            e.msg == msg,
    {
        errors::Diagnostic { segment: CodeSegment { line: self.line, idx, len }, errtype: ErrType::Syntax, msg }
    }

    /// Fails with a syntax error on this line.
    pub fn error(&self, idx: usize, len: usize, msg: Msg) -> (r: Result<Token, errors::Diagnostic>)
        ensures
            r matches Err(e) && e@ == syntax_error(self.line, idx as int, len as int, msg@) && e.msg == msg,
    {
        Err(self.diagnostic(idx, len, msg))
    }

    /// The number of characters in the scratch buffer.
    pub fn len(&self) -> (n: usize)
        ensures
            n == self.buffer@.len(),
    {
        self.buffer.as_str().unicode_len()
    }

    /// Succeeds with `Empty` if the scratch buffer is empty; otherwise fails,
    /// naming `consumer` and what the buffer holds.
    pub fn verify_buffer(&self, consumer: &str) -> (r: Result<Token, errors::Diagnostic>)
        requires
            self.wf(),
        ensures
            self.buffer@.len() == 0 ==> r == Ok::<Token, errors::Diagnostic>(Token::Empty),
            self.buffer@.len() > 0 ==> (r matches Err(e) && e@ == buffer_error(
                self.line,
                self.start + self.buffer@.len(),
                self.buffer@,
                consumer@,
            )),
    {
        let n = self.len();
        if n > 0 {
            let mut first = String::from_str("Trying to consume ");
            first.append(consumer);
            first.append(" but buffer length = ");
            first.append(decimal_text(n as u128).as_str());
            let mut second = String::from_str("buffer = \"");
            second.append(self.buffer.as_str());
            second.append("\"");
            let msgs = errors::three_lines(first, second, String::from_str("Buffer should be empty."));
            return self.error(self.start, n, msgs);
        }
        Ok(Token::Empty)
    }

    /// The end of the run of characters of class `k` that starts at `from`.
    fn scan(&self, from: usize, k: CharClass) -> (j: usize)
        requires
            self.wf(),
            from <= self.width,
        ensures
            j == run_end(self.text@, from as int, k),
            from <= j <= self.width,
    {
        let mut j = from;
        while j < self.width && consumers::is_in_class(k, self.idx(j))
            invariant
                self.wf(),
                from <= j <= self.width,
                run_end(self.text@, from as int, k) == run_end(self.text@, j as int, k),
            decreases self.width - j,
        {
            j = j + 1;
        }
        j
    }

    /// Takes what the scratch buffer holds, leaving it empty.
    fn take_buffer(&mut self) -> (s: String)
        ensures
            s@ == old(self).buffer@,
            final(self).buffer@.len() == 0,
            final(self).line == old(self).line,
            final(self).text == old(self).text,
            final(self).width == old(self).width,
            final(self).start == old(self).start,
    {
        let s = self.buffer.clone();
        self.buffer = String::new();
        s
    }
}

/// Runs the consumer that the character at `*idx` selects.
fn consume_at(idx: &mut usize, lexer: &mut Lexer) -> (r: Result<Token, errors::Diagnostic>)
    requires
        old(lexer).ready_at(*old(idx) as int),
        selects_consumer(old(lexer).text@[*old(idx) as int]),
    ensures
        final(lexer).line == old(lexer).line,
        final(lexer).text@ == old(lexer).text@,
        final(lexer).width == old(lexer).width,
        final(lexer).wf(),
        r is Ok ==> *old(idx) <= *final(idx) <= old(lexer).width && final(lexer).buffer@.len() == 0,
        consumers::consumed(r, *old(idx), *final(idx)) == consume_spec(
            old(lexer).line,
            old(lexer).text@,
            *old(idx) as int,
            old(lexer).buffer@,
        ),
{
    let c = lexer.idx(*idx);
    if c == '.' {
        consumers::Directive::consume(idx, lexer)
    } else if c == ':' {
        consumers::DefLabel::consume(idx, lexer)
    } else if c == '$' {
        consumers::Register::consume(idx, lexer)
    } else if c == '"' {
        consumers::StringLiteral::consume(idx, lexer)
    } else if ('0' <= c && c <= '9') || c == '-' {
        consumers::NumberLiteral::consume(idx, lexer)
    } else {
        consumers::Identifier::consume(idx, lexer)
    }
}

/// Lexes line number `line` whose trimmed text is `text`.
pub fn tokenize_line(line: usize, text: &str) -> (r: Result<Vec<Token>, errors::Diagnostic>)
    ensures
        lex_result(r) == lex_line(line, text@),
{
    let width = text.unicode_len();
    let mut lexer = Lexer { line, text: String::from_str(text), width, buffer: String::new(), start: 0 };
    let mut tokens: Vec<Token> = Vec::new();
    let ghost t = text@;
    let mut idx: usize = 0;
    while idx < width
        invariant
            lexer.wf(),
            lexer.line == line,
            lexer.text@ == t,
            t == text@,
            lexer.width == width,
            idx <= width,
            lexer.buffer@.len() > 0 ==> lexer.start + lexer.buffer@.len() == idx,
            lex_line(line, t) == prepend(token_views(tokens@), lex_from(line, t, idx as int, lexer.buffer@)),
        decreases width - idx,
    {
        let ghost pos = idx as int;
        let ghost buf = lexer.buffer@;
        let ghost before = token_views(tokens@);
        let c = lexer.idx(idx);
        if c == '#' {
            // a comment ends the line; characters still waiting in the buffer
            // would be lost, so they are an error
            if lexer.len() > 0 {
                let mut first = String::from_str("Line ended but buffer length = ");
                first.append(decimal_text(lexer.len() as u128).as_str());
                let mut second = String::from_str("buffer = \"");
                second.append(lexer.buffer.as_str());
                second.append("\"");
                let msgs = errors::three_lines(first, second, String::from_str("Buffer should be empty."));
                let e = lexer.diagnostic(lexer.start, lexer.len(), msgs);
                assert(e@ == line_end_error(line, pos, buf));
                return Err(e);
            }
            consumers::Comment::consume(&mut idx, &mut lexer);
            assert(before + seq![] =~= before);
            return Ok(tokens);
        }
        if !(c == '.' || c == ':' || c == '$' || c == '"' || ('0' <= c && c <= '9') || c == '-' || c == ' ') {
            // not yet classified: keep it until a space or a colon decides
            if lexer.len() == 0 {
                lexer.start = idx;
            }
            lexer.buffer.push(c);
            assert(!selects_consumer(c));
            assert(lex_from(line, t, pos, buf) == lex_from(line, t, pos + 1, buf.push(c)));
            idx = idx + 1;
            continue;
        }
        let result = consume_at(&mut idx, &mut lexer);
        match result {
            Ok(token) => {
                let ghost next = clip(t, pos + (idx - pos) + 1);
                assert(lex_from(line, t, pos, buf) == prepend(emitted(token@), lex_from(line, t, next, seq![])));
                if !matches!(token, Token::Empty) {
                    tokens.push(token);
                }
                assert(token_views(tokens@) =~= before + emitted(token@));
                assert(before + (emitted(token@) + seq![]) =~= token_views(tokens@) + seq![]);
                idx = if idx >= width { width } else { idx + 1 };
                assert(lexer.buffer@ =~= seq![]);
                assert(idx == next);
                proof {
                    match lex_from(line, t, next, seq![]) {
                        Ok(rest) => {
                            assert(before + (emitted(token@) + rest) =~= token_views(tokens@) + rest);
                        },
                        Err(_) => {},
                    }
                }
            },
            Err(e) => return Err(e),
        }
    }
    let ghost buf = lexer.buffer@;
    let ghost before = token_views(tokens@);
    // the end of the line ends a bare word as a space does
    if lexer.len() > 0 {
        let name = lexer.take_buffer();
        let len = name.as_str().unicode_len();
        tokens.push(Token::Identifier(name, CodeSegment { line, idx: width - len, len }));
        assert(token_views(tokens@) =~= before + seq![
            TokenView::Identifier(buf, seg(line, t.len() - buf.len(), buf.len() as int)),
        ]);
    } else {
        assert(before + seq![] =~= before);
    }
    Ok(tokens)
}

/// Lexes a program given as its lines: each line is trimmed and lexed on its
/// own, and the tokens of all lines are joined in order. Fails with the first
/// error.
pub fn tokenize(program: &Vec<String>) -> (r: Result<Vec<Token>, errors::Diagnostic>)
    ensures
        lex_result(r) == lex_program(line_views(program@)),
{
    let mut tokens: Vec<Token> = Vec::new();
    let ghost lines = line_views(program@);
    assert(token_views(tokens@) =~= seq![]);
    let mut n: usize = 0;
    while n < program.len()
        invariant
            n <= program@.len(),
            lines == line_views(program@),
            lex_lines(lines, n as nat) == Ok::<Seq<TokenView>, ErrView>(token_views(tokens@)),
        decreases program@.len() - n,
    {
        let line = program[n].as_str().trim();
        assert(lines[n as int] == program@[n as int]@);
        match tokenize_line(n, line) {
            Ok(mut more) => {
                let ghost before = tokens@;
                let ghost added = more@;
                tokens.append(&mut more);
                assert(token_views(tokens@) =~= token_views(before) + token_views(added));
            },
            Err(e) => {
                assert(lex_lines(lines, (n + 1) as nat) == Err::<Seq<TokenView>, ErrView>(e@));
                proof {
                    lemma_lex_lines_fail(lines, (n + 1) as nat, lines.len());
                }
                return Err(e);
            },
        }
        n = n + 1;
    }
    assert(lines.len() == n);
    Ok(tokens)
}

} // verus!

verus! {

/// Buffer discipline: a consumer that reads a delimited run (a directive, a
/// register, a string or a number) never starts while characters wait in
/// the scratch buffer, and a comment never ends a line on them. The line
/// fails there with a syntax error over the buffered characters, rather than
/// merging them into a token.
pub proof fn lemma_buffer_discipline(line: usize, t: Seq<char>, pos: int, buf: Seq<char>)
    requires
        0 <= pos < t.len(),
        buf.len() > 0,
        t[pos] == '.' || t[pos] == '$' || t[pos] == '"' || is_digit(t[pos]) || t[pos] == '-' || t[pos] == '#',
    ensures
        lex_from(line, t, pos, buf) matches Err(e) && e.errtype == ErrType::Syntax && e.segment == seg(
            line,
            pos - buf.len(),
            buf.len() as int,
        ),
{
}

/// Lexing is a function of the lines alone: two runs over the same lines
/// give equal token sequences, element for element, or the same error.
pub proof fn lemma_relex_same_tokens(
    lines: Seq<Seq<char>>,
    first: Result<Vec<Token>, errors::Diagnostic>,
    second: Result<Vec<Token>, errors::Diagnostic>,
)
    requires
        lex_result(first) == lex_program(lines),
        lex_result(second) == lex_program(lines),
    ensures
        first is Ok <==> second is Ok,
        first is Ok ==> first->Ok_0@.len() == second->Ok_0@.len() && forall|i: int|
            0 <= i < first->Ok_0@.len() ==> (#[trigger] first->Ok_0@[i])@ == second->Ok_0@[i]@,
        first is Err ==> first->Err_0@ == second->Err_0@,
{
    if first is Ok {
        let a = first->Ok_0@;
        let b = second->Ok_0@;
        assert(token_views(a) == token_views(b));
        assert forall|i: int| 0 <= i < a.len() implies (#[trigger] a[i])@ == b[i]@ by {
            assert(token_views(a)[i] == token_views(b)[i]);
        }
    }
}

} // verus!

verus! {

/// The characters of line `t` that span `g` covers.
pub open spec fn covered(t: Seq<char>, g: CodeSegment) -> Seq<char> {
    t.subrange(g.idx as int, g.idx + g.len)
}

/// A token lies in line `line`, within its text `t`, and its span re-slices
/// to its spelling: the dot and the name of a directive, the name and the
/// colon of a label definition, the name of a bare word or of a register
/// (without the sigil), a string literal with its quotes, and digits whose
/// value is that of a number literal.
pub open spec fn well_placed(line: usize, t: Seq<char>, tok: TokenView) -> bool {
    let g = tok.segment();
    &&& g.line == line
    &&& g.idx + g.len <= t.len()
    &&& match tok {
        TokenView::Directive(name, _) => covered(t, g) == seq!['.'] + name,
        TokenView::DefLabel(name, _) => covered(t, g) == name.push(':'),
        TokenView::Identifier(name, _) => covered(t, g) == name,
        TokenView::Register(name, _) => covered(t, g) == name,
        TokenView::StringLiteral(content, _) => covered(t, g) == seq!['"'] + content + seq!['"'],
        TokenView::NumberLiteral(v, _) => consumers::number_value(covered(t, g)) == Ok::<i32, Seq<char>>(v),
        TokenView::Empty => false,
    }
}

/// Where a span ends.
pub open spec fn seg_end(g: CodeSegment) -> int {
    g.idx + g.len
}

/// The spans of `toks` come in order along the line and do not overlap.
pub open spec fn in_order(toks: Seq<TokenView>) -> bool {
    forall|i: int, j: int|
        0 <= i < j < toks.len() ==> seg_end((#[trigger] toks[i]).segment()) <= (#[trigger] toks[j]).segment().idx
}

/// A bare word: not empty, and holding no character that selects a
/// consumer or starts a comment.
pub open spec fn bare_word(name: Seq<char>) -> bool {
    &&& name.len() > 0
    &&& forall|k: int| 0 <= k < name.len() ==> !selects_consumer(#[trigger] name[k]) && name[k] != '#'
}

/// Everything a line's tokens are known to satisfy, from position `from` on.
pub open spec fn placed_from(line: usize, t: Seq<char>, from: int, toks: Seq<TokenView>) -> bool {
    &&& forall|i: int| 0 <= i < toks.len() ==> well_placed(line, t, #[trigger] toks[i])
    &&& forall|i: int| 0 <= i < toks.len() ==> (#[trigger] toks[i]).segment().idx >= from
    &&& forall|i: int| 0 <= i < toks.len() ==> ((#[trigger] toks[i]) is Identifier ==> bare_word(toks[i]->Identifier_0))
    &&& in_order(toks)
}

proof fn lemma_consume_placed(line: usize, t: Seq<char>, pos: int, buf: Seq<char>)
    requires
        t.len() <= usize::MAX,
        0 <= pos < t.len(),
        selects_consumer(t[pos]),
        buf.len() <= pos,
        buf == t.subrange(pos - buf.len(), pos),
    ensures
        consume_spec(line, t, pos, buf) matches Ok((tok, adv)) ==> (tok is Empty || (well_placed(line, t, tok)
            && tok.segment().idx >= pos - buf.len() && seg_end(tok.segment()) <= clip(t, pos + adv + 1)
            && (tok is Identifier ==> tok->Identifier_0 == buf && buf.len() > 0))),
{
    let c = t[pos];
    if c == '.' {
        consumers::lemma_run_end(t, pos + 1, CharClass::Alpha);
        let j = run_end(t, pos + 1, CharClass::Alpha);
        assert(t.subrange(pos, j) =~= seq!['.'] + t.subrange(pos + 1, j));
    } else if c == ':' {
        assert(t.subrange(pos - buf.len(), pos + 1) =~= buf.push(':'));
    } else if c == '$' {
        consumers::lemma_run_end(t, pos + 1, CharClass::RegName);
        let j = run_end(t, pos + 1, CharClass::RegName);
        consumers::lemma_run_end(t, j, CharClass::Space);
    } else if c == '"' {
        consumers::lemma_closing_quote(t, pos + 1);
        let j = consumers::closing_quote(t, pos + 1);
        if j < t.len() {
            assert(t.subrange(pos, j + 1) =~= seq!['"'] + t.subrange(pos + 1, j) + seq!['"']);
        }
    } else if is_digit(c) || c == '-' {
        consumers::lemma_run_end(t, pos, CharClass::Number);
        let j = run_end(t, pos, CharClass::Number);
        consumers::lemma_run_end(t, j, CharClass::Space);
    } else {
    }
}

proof fn lemma_lex_from_placed(line: usize, t: Seq<char>, pos: int, buf: Seq<char>)
    requires
        t.len() <= usize::MAX,
        0 <= pos <= t.len(),
        buf.len() <= pos,
        buf == t.subrange(pos - buf.len(), pos),
        forall|k: int| 0 <= k < buf.len() ==> !selects_consumer(#[trigger] buf[k]) && buf[k] != '#',
    ensures
        lex_from(line, t, pos, buf) matches Ok(toks) ==> placed_from(line, t, pos - buf.len(), toks),
    decreases t.len() - pos,
{
    if pos >= t.len() {
        if buf.len() > 0 {
            let toks = lex_from(line, t, pos, buf)->Ok_0;
            assert(well_placed(line, t, toks[0]));
        }
    } else if t[pos] == '#' {
    } else if !selects_consumer(t[pos]) {
        let more = buf.push(t[pos]);
        assert(more =~= t.subrange(pos + 1 - (buf.len() + 1), pos + 1));
        assert forall|k: int| 0 <= k < more.len() implies !selects_consumer(#[trigger] more[k]) && more[k] != '#' by {
            if k < buf.len() {
                assert(more[k] == buf[k]);
            }
        }
        lemma_lex_from_placed(line, t, pos + 1, more);
    } else {
        lemma_consume_placed(line, t, pos, buf);
        match consume_spec(line, t, pos, buf) {
            Err(_) => {},
            Ok((tok, adv)) => {
                let next = clip(t, pos + adv + 1);
                assert(seq![] =~= t.subrange(next, next));
                lemma_lex_from_placed(line, t, next, seq![]);
                match lex_from(line, t, next, seq![]) {
                    Err(_) => {},
                    Ok(rest) => {
                        let head = emitted(tok);
                        let toks = head + rest;
                        assert forall|i: int| 0 <= i < toks.len() implies well_placed(line, t, #[trigger] toks[i])
                            && toks[i].segment().idx >= pos - buf.len()
                            && (toks[i] is Identifier ==> bare_word(toks[i]->Identifier_0)) by {
                            if i < head.len() {
                                assert(toks[i] == tok);
                            } else {
                                assert(toks[i] == rest[i - head.len()]);
                            }
                        }
                        assert forall|i: int, j: int| 0 <= i < j < toks.len() implies seg_end(
                            (#[trigger] toks[i]).segment(),
                        ) <= (#[trigger] toks[j]).segment().idx by {
                            assert(toks[j] == rest[j - head.len()]);
                            if i < head.len() {
                                assert(toks[i] == tok);
                            } else {
                                assert(toks[i] == rest[i - head.len()]);
                            }
                        }
                    },
                }
            },
        }
    }
}

/// Every token of a line lies within the line's trimmed text and re-slices
/// from it to its own spelling; the spans come in order along the line and
/// do not overlap; and every bare word is flushed whole from the buffer: it
/// is not empty and holds no character that selects a consumer or starts a
/// comment.
pub proof fn lemma_spans_exact(line: usize, t: Seq<char>)
    requires
        t.len() <= usize::MAX,
    ensures
        lex_line(line, t) matches Ok(toks) ==> placed_from(line, t, 0, toks),
{
    assert(seq![] =~= t.subrange(0, 0));
    lemma_lex_from_placed(line, t, 0, seq![]);
}

} // verus!
