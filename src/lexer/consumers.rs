//! One consumer per token shape. A consumer starts at the character that
//! selected it, advances the shared cursor over what it reads, and hands back
//! a token (or `Empty`) or a syntax error.
use vstd::prelude::*;

use crate::errors::{self, ErrType, ErrView, Msg, MsgView};
use crate::lexer::tokens::{CodeSegment, Token, TokenView};
use crate::lexer::Lexer;
use crate::text::{char_text, decimal};

verus! {

/// The classes of characters that consumers read in runs.
#[derive(Clone, Copy, PartialEq, Eq, Structural)]
pub enum CharClass {
    /// ASCII letters: the names of directives.
    Alpha,
    /// Lower-case ASCII letters and digits: the names of registers.
    RegName,
    /// Digits and `-`: number literals.
    Number,
    /// The space character.
    Space,
}

pub open spec fn is_digit(c: char) -> bool {
    '0' <= c <= '9'
}

pub open spec fn in_class(k: CharClass, c: char) -> bool {
    match k {
        CharClass::Alpha => ('A' <= c <= 'Z') || ('a' <= c <= 'z'),
        CharClass::RegName => ('a' <= c <= 'z') || is_digit(c),
        CharClass::Number => is_digit(c) || c == '-',
        CharClass::Space => c == ' ',
    }
}

pub fn is_in_class(k: CharClass, c: char) -> (r: bool)
    ensures
        r == in_class(k, c),
{
    match k {
        CharClass::Alpha => ('A' <= c && c <= 'Z') || ('a' <= c && c <= 'z'),
        CharClass::RegName => ('a' <= c && c <= 'z') || ('0' <= c && c <= '9'),
        CharClass::Number => ('0' <= c && c <= '9') || c == '-',
        CharClass::Space => c == ' ',
    }
}

/// The first index at or after `i` whose character is not in class `k`, or
/// the length of `t` if there is none.
pub open spec fn run_end(t: Seq<char>, i: int, k: CharClass) -> int
    decreases t.len() - i,
{
    if 0 <= i < t.len() && in_class(k, t[i]) {
        run_end(t, i + 1, k)
    } else {
        i
    }
}

/// The index of the quote that closes a string literal whose content starts
/// at `i`: the first `"` not preceded by a backslash, or the length of `t`.
pub open spec fn closing_quote(t: Seq<char>, i: int) -> int
    decreases t.len() - i,
{
    if i < 0 || i >= t.len() {
        t.len() as int
    } else if t[i] == '"' && !(i > 0 && t[i - 1] == '\\') {
        i
    } else {
        closing_quote(t, i + 1)
    }
}

/// The span `(line, idx, len)`.
pub open spec fn seg(line: usize, idx: int, len: int) -> CodeSegment {
    CodeSegment { line, idx: idx as usize, len: len as usize }
}

/// A syntax error at the given span.
pub open spec fn syntax_error(line: usize, idx: int, len: int, msg: MsgView) -> ErrView {
    ErrView { segment: seg(line, idx, len), errtype: ErrType::Syntax, msg }
}

/// The error of a consumer called `consumer` that starts at `pos` while the
/// scratch buffer, which ends just before `pos`, still holds `buf`.
pub open spec fn buffer_error(line: usize, pos: int, buf: Seq<char>, consumer: Seq<char>) -> ErrView {
    syntax_error(
        line,
        pos - buf.len(),
        buf.len() as int,
        MsgView::Many(
            seq![
                "Trying to consume "@ + consumer + " but buffer length = "@ + decimal(buf.len()),
                "buffer = \""@ + buf + "\""@,
                "Buffer should be empty."@,
            ],
        ),
    )
}

/// What a consumer yields: the token and how far past its start the cursor
/// was left, or an error.
pub open spec fn consumed(r: Result<Token, errors::Diagnostic>, from: usize, to: usize) -> Result<(TokenView, nat), ErrView> {
    match r {
        Ok(t) => Ok((t@, (to - from) as nat)),
        Err(e) => Err(e@),
    }
}

/// `.name`: an alphabetic name up to a space or the end of the line. The
/// span covers the dot and the name.
pub open spec fn directive_spec(line: usize, t: Seq<char>, pos: int, buf: Seq<char>) -> Result<(TokenView, nat), ErrView> {
    let j = run_end(t, pos + 1, CharClass::Alpha);
    if buf.len() > 0 {
        Err(buffer_error(line, pos, buf, "directive"@))
    } else if j < t.len() && t[j] != ' ' {
        Err(
            syntax_error(
                line,
                j,
                1,
                MsgView::Many(
                    seq![
                        "Illegal symbol \""@ + seq![t[j]] + "\" while consuming directive."@,
                        "Directives may only have alphabetic names."@,
                    ],
                ),
            ),
        )
    } else {
        Ok((TokenView::Directive(t.subrange(pos + 1, j), seg(line, pos, j - pos)), (j - pos) as nat))
    }
}

/// `name:`: the buffered characters are the name; the span covers them and
/// the colon.
pub open spec fn deflabel_spec(line: usize, pos: int, buf: Seq<char>) -> Result<(TokenView, nat), ErrView> {
    Ok((TokenView::DefLabel(buf, seg(line, pos - buf.len(), buf.len() + 1int)), 0))
}

/// A space: the buffered characters, if any, become an identifier.
pub open spec fn identifier_spec(line: usize, pos: int, buf: Seq<char>) -> Result<(TokenView, nat), ErrView> {
    if buf.len() == 0 {
        Ok((TokenView::Empty, 0))
    } else {
        Ok((TokenView::Identifier(buf, seg(line, pos - buf.len(), buf.len() as int)), 0))
    }
}

/// How far past `pos` a consumer leaves the cursor when its text ends at
/// `j`: on a comma or a space, which are used up, or before a comment, which
/// is left to be read.
pub open spec fn advance_to(t: Seq<char>, pos: int, j: int) -> nat {
    if j < t.len() && t[j] == '#' {
        (j - 1 - pos) as nat
    } else {
        (j - pos) as nat
    }
}

/// The error for a character `t[b]` that may not follow a register's name.
pub open spec fn illegal_in_register(line: usize, t: Seq<char>, b: int) -> ErrView {
    syntax_error(
        line,
        b,
        1,
        MsgView::Many(
            seq![
                "Illegal symbol \""@ + seq![t[b]] + "\" while consuming register."@,
                "Registers may only have alphanumeric names."@,
            ],
        ),
    )
}

/// After a register's name, which ends at `j`: a comma, or spaces up to a
/// comment or the end of the line. Gives how far past `pos` the cursor is
/// left.
pub open spec fn register_tail(line: usize, t: Seq<char>, pos: int, j: int) -> Result<nat, ErrView> {
    let k = run_end(t, j, CharClass::Space);
    if j >= t.len() || t[j] == ',' || t[j] == '#' {
        Ok(advance_to(t, pos, j))
    } else if t[j] == ' ' {
        if k >= t.len() || t[k] == '#' {
            Ok(advance_to(t, pos, k))
        } else {
            Err(illegal_in_register(line, t, k))
        }
    } else {
        Err(illegal_in_register(line, t, j))
    }
}

/// `$name`: lower-case letters and digits, at most two of them, followed by
/// a comma, or by spaces up to a comment or the end of the line. The span
/// covers the name without the sigil.
pub open spec fn register_spec(line: usize, t: Seq<char>, pos: int, buf: Seq<char>) -> Result<(TokenView, nat), ErrView> {
    let j = run_end(t, pos + 1, CharClass::RegName);
    let name = t.subrange(pos + 1, j);
    if buf.len() > 0 {
        Err(buffer_error(line, pos, buf, "register"@))
    } else {
        match register_tail(line, t, pos, j) {
            Err(e) => Err(e),
            Ok(adv) => if name.len() > 2 {
                Err(
                    syntax_error(
                        line,
                        pos + 1,
                        name.len() as int,
                        MsgView::Many(
                            seq![
                                "Illegal register form \""@ + name + "\"."@,
                                "Registers' names do not exceed two characters."@,
                            ],
                        ),
                    ),
                )
            } else {
                Ok((TokenView::Register(name, seg(line, pos + 1, name.len() as int)), adv))
            },
        }
    }
}

/// `"text"`: raw characters up to the first quote that no backslash
/// precedes. The span covers both quotes.
pub open spec fn string_spec(line: usize, t: Seq<char>, pos: int, buf: Seq<char>) -> Result<(TokenView, nat), ErrView> {
    let j = closing_quote(t, pos + 1);
    if buf.len() > 0 {
        Err(buffer_error(line, pos, buf, "string"@))
    } else if j >= t.len() {
        Err(syntax_error(line, pos, t.len() - pos, MsgView::One("Unterminated string literal."@)))
    } else {
        Ok((TokenView::StringLiteral(t.subrange(pos + 1, j), seg(line, pos, j - pos + 1)), (j - pos) as nat))
    }
}

/// The value of a run of decimal digits.
pub open spec fn digits_value(s: Seq<char>) -> int
    decreases s.len(),
{
    if s.len() == 0 {
        0
    } else {
        digits_value(s.drop_last()) * 10 + (s.last() as int - '0' as int)
    }
}

/// Whether every character of `s` is a decimal digit.
pub open spec fn all_digits(s: Seq<char>) -> bool {
    forall|k: int| 0 <= k < s.len() ==> is_digit(#[trigger] s[k])
}

/// The number of sign characters that start `s`: one for a leading `-`.
pub open spec fn sign_len(s: Seq<char>) -> int {
    if s.len() > 0 && s[0] == '-' {
        1
    } else {
        0
    }
}

/// Reads a signed 32-bit decimal: an optional `-` and at least one digit.
/// The error is the reason it is not one.
pub open spec fn number_value(s: Seq<char>) -> Result<i32, Seq<char>> {
    let body = s.subrange(sign_len(s), s.len() as int);
    let v = if sign_len(s) == 1 { -digits_value(body) } else { digits_value(body) };
    if body.len() == 0 || !all_digits(body) {
        Err("invalid digit found in string"@)
    } else if v > i32::MAX {
        Err("number too large to fit in target type"@)
    } else if v < i32::MIN {
        Err("number too small to fit in target type"@)
    } else {
        Ok(v as i32)
    }
}

/// After the digits of a number end at `j`: spaces may follow, up to a comma,
/// a comment or the end of the line. Gives how far past `pos` the cursor is
/// left.
pub open spec fn number_tail(line: usize, t: Seq<char>, pos: int, j: int) -> Result<nat, ErrView> {
    let k = run_end(t, j, CharClass::Space);
    if j >= t.len() || t[j] == ',' || t[j] == '#' {
        Ok(advance_to(t, pos, j))
    } else if t[j] == ' ' {
        if k >= t.len() || t[k] == ',' || t[k] == '#' {
            Ok(advance_to(t, pos, k))
        } else {
            Err(
                syntax_error(
                    line,
                    k,
                    1,
                    MsgView::One("Unexpected character "@ + seq![t[k]] + " while reading whitespace."@),
                ),
            )
        }
    } else {
        Err(
            syntax_error(
                line,
                j,
                1,
                MsgView::One("Illegal character \""@ + seq![t[j]] + "\" while consuming number."@),
            ),
        )
    }
}

/// A number literal: digits and `-`, read as a signed 32-bit integer. The
/// span covers exactly those characters.
pub open spec fn number_spec(line: usize, t: Seq<char>, pos: int, buf: Seq<char>) -> Result<(TokenView, nat), ErrView> {
    let j = run_end(t, pos, CharClass::Number);
    let digits = t.subrange(pos, j);
    let cast_error = |reason: Seq<char>|
        syntax_error(line, pos, j - pos, MsgView::One("Could not cast "@ + digits + " to a number: "@ + reason));
    if buf.len() > 0 {
        Err(buffer_error(line, pos, buf, "number"@))
    } else if j == pos {
        Err(cast_error("invalid digit found in string"@))
    } else {
        match number_tail(line, t, pos, j) {
            Err(e) => Err(e),
            Ok(adv) => match number_value(digits) {
                Ok(v) => Ok((TokenView::NumberLiteral(v, seg(line, pos, j - pos)), adv)),
                Err(reason) => Err(cast_error(reason)),
            },
        }
    }
}

pub trait Consumer {
    /// Reads a token that starts at `*idx`, leaving `*idx` on the last
    /// character it used up.
    fn consume(idx: &mut usize, lexer: &mut Lexer) -> (r: Result<Token, errors::Diagnostic>)
        requires
            old(lexer).ready_at(*old(idx) as int),
        ensures
            final(lexer).line == old(lexer).line,
            final(lexer).text@ == old(lexer).text@,
            final(lexer).width == old(lexer).width,
            final(lexer).wf(),
            r is Ok ==> *old(idx) <= *final(idx) <= old(lexer).width,
            r is Err ==> final(lexer).buffer@ == old(lexer).buffer@,
    ;
}

pub struct Comment {}

impl Consumer for Comment {
    /// Skips the rest of the line.
    fn consume(idx: &mut usize, lexer: &mut Lexer) -> (r: Result<Token, errors::Diagnostic>)
        ensures
            r == Ok::<Token, errors::Diagnostic>(Token::Empty),
            *final(idx) == old(lexer).width,
            final(lexer).buffer@ == old(lexer).buffer@,
    {
        *idx = lexer.width;
        Ok(Token::Empty)
    }
}

pub struct Directive {}

impl Consumer for Directive {
    fn consume(idx: &mut usize, lexer: &mut Lexer) -> (r: Result<Token, errors::Diagnostic>)
        ensures
            r is Ok ==> final(lexer).buffer@.len() == 0,
            consumed(r, *old(idx), *final(idx)) == directive_spec(
                old(lexer).line,
                old(lexer).text@,
                *old(idx) as int,
                old(lexer).buffer@,
            ),
    {
        let pos = *idx;
        let checked = lexer.verify_buffer("directive");
        if checked.is_err() {
            return checked;
        }
        let j = lexer.scan(pos + 1, CharClass::Alpha);
        if j < lexer.width {
            let c = lexer.idx(j);
            if c != ' ' {
                let mut first = String::from_str("Illegal symbol \"");
                first.append(char_text(c).as_str());
                first.append("\" while consuming directive.");
                let msg = errors::two_lines(first, String::from_str("Directives may only have alphabetic names."));
                return lexer.error(j, 1, msg);
            }
        }
        let name = String::from_str(lexer.text.as_str().substring_char(pos + 1, j));
        *idx = j;
        Ok(Token::Directive(name, CodeSegment { line: lexer.line, idx: pos, len: j - pos }))
    }
}

pub struct DefLabel {}

impl Consumer for DefLabel {
    fn consume(idx: &mut usize, lexer: &mut Lexer) -> (r: Result<Token, errors::Diagnostic>)
        ensures
            r is Ok ==> final(lexer).buffer@.len() == 0,
            consumed(r, *old(idx), *final(idx)) == deflabel_spec(
                old(lexer).line,
                *old(idx) as int,
                old(lexer).buffer@,
            ),
    {
        // the name was buffered before the colon; take it and leave the buffer empty
        let name = lexer.take_buffer();
        let len = name.as_str().unicode_len();
        Ok(Token::DefLabel(name, CodeSegment { line: lexer.line, idx: *idx - len, len: len + 1 }))
    }
}

pub struct Identifier {}

impl Consumer for Identifier {
    fn consume(idx: &mut usize, lexer: &mut Lexer) -> (r: Result<Token, errors::Diagnostic>)
        ensures
            r is Ok ==> final(lexer).buffer@.len() == 0,
            consumed(r, *old(idx), *final(idx)) == identifier_spec(
                old(lexer).line,
                *old(idx) as int,
                old(lexer).buffer@,
            ),
    {
        let name = lexer.take_buffer();
        let len = name.as_str().unicode_len();
        if len == 0 {
            return Ok(Token::Empty);
        }
        Ok(Token::Identifier(name, CodeSegment { line: lexer.line, idx: *idx - len, len }))
    }
}

pub struct Register {}

impl Consumer for Register {
    fn consume(idx: &mut usize, lexer: &mut Lexer) -> (r: Result<Token, errors::Diagnostic>)
        ensures
            r is Ok ==> final(lexer).buffer@.len() == 0,
            consumed(r, *old(idx), *final(idx)) == register_spec(
                old(lexer).line,
                old(lexer).text@,
                *old(idx) as int,
                old(lexer).buffer@,
            ),
    {
        let pos = *idx;
        let checked = lexer.verify_buffer("register");
        if checked.is_err() {
            return checked;
        }
        let j = lexer.scan(pos + 1, CharClass::RegName);
        let end = match skip_register_tail(pos, j, lexer) {
            Ok(end) => end,
            Err(e) => return Err(e),
        };
        let name = String::from_str(lexer.text.as_str().substring_char(pos + 1, j));
        let len = j - pos - 1;
        if len > 2 {
            let mut first = String::from_str("Illegal register form \"");
            first.append(name.as_str());
            first.append("\".");
            let msg = errors::two_lines(first, String::from_str("Registers' names do not exceed two characters."));
            return lexer.error(pos + 1, len, msg);
        }
        *idx = end;
        Ok(Token::Register(name, CodeSegment { line: lexer.line, idx: pos + 1, len }))
    }
}

pub struct StringLiteral {}

impl Consumer for StringLiteral {
    fn consume(idx: &mut usize, lexer: &mut Lexer) -> (r: Result<Token, errors::Diagnostic>)
        ensures
            r is Ok ==> final(lexer).buffer@.len() == 0,
            consumed(r, *old(idx), *final(idx)) == string_spec(
                old(lexer).line,
                old(lexer).text@,
                *old(idx) as int,
                old(lexer).buffer@,
            ),
    {
        let pos = *idx;
        let checked = lexer.verify_buffer("string");
        if checked.is_err() {
            return checked;
        }
        let ghost t = lexer.text@;
        let mut j = pos + 1;
        while j < lexer.width && !(lexer.idx(j) == '"' && lexer.idx(j - 1) != '\\')
            invariant
                lexer.wf(),
                t == lexer.text@,
                pos < j <= lexer.width,
                closing_quote(t, pos + 1) == closing_quote(t, j as int),
            decreases lexer.width - j,
        {
            j = j + 1;
        }
        if j >= lexer.width {
            let msg = Msg::One(String::from_str("Unterminated string literal."));
            return lexer.error(pos, lexer.width - pos, msg);
        }
        let content = String::from_str(lexer.text.as_str().substring_char(pos + 1, j));
        *idx = j;
        Ok(Token::StringLiteral(content, CodeSegment { line: lexer.line, idx: pos, len: j - pos + 1 }))
    }
}

pub struct NumberLiteral {}

impl Consumer for NumberLiteral {
    fn consume(idx: &mut usize, lexer: &mut Lexer) -> (r: Result<Token, errors::Diagnostic>)
        ensures
            r is Ok ==> final(lexer).buffer@.len() == 0,
            consumed(r, *old(idx), *final(idx)) == number_spec(
                old(lexer).line,
                old(lexer).text@,
                *old(idx) as int,
                old(lexer).buffer@,
            ),
    {
        let pos = *idx;
        let checked = lexer.verify_buffer("number");
        if checked.is_err() {
            return checked;
        }
        let j = lexer.scan(pos, CharClass::Number);
        let digits = lexer.text.as_str().substring_char(pos, j);
        let end = if j == pos {
            pos
        } else {
            match skip_whitespace(pos, j, lexer) {
                Ok(end) => end,
                Err(e) => return Err(e),
            }
        };
        match parse_number(digits) {
            Ok(value) => {
                *idx = end;
                Ok(Token::NumberLiteral(value, CodeSegment { line: lexer.line, idx: pos, len: j - pos }))
            },
            Err(reason) => {
                let mut text = String::from_str("Could not cast ");
                text.append(digits);
                text.append(" to a number: ");
                text.append(reason);
                lexer.error(pos, j - pos, Msg::One(text))
            },
        }
    }
}

/// The error for a character at `b` that may not follow a register's name.
fn illegal_register_symbol(b: usize, lexer: &Lexer) -> (e: errors::Diagnostic)
    requires
        lexer.wf(),
        b < lexer.width,
    ensures
        e@ == illegal_in_register(lexer.line, lexer.text@, b as int),
{
    let mut first = String::from_str("Illegal symbol \"");
    first.append(char_text(lexer.idx(b)).as_str());
    first.append("\" while consuming register.");
    let msg = errors::two_lines(first, String::from_str("Registers may only have alphanumeric names."));
    lexer.diagnostic(b, 1, msg)
}

/// Past a register's name, which ends at `j`: accepts a comma, or spaces up
/// to a comment or the end of the line, and gives the index the cursor is
/// left on.
fn skip_register_tail(pos: usize, j: usize, lexer: &Lexer) -> (r: Result<usize, errors::Diagnostic>)
    requires
        lexer.wf(),
        pos < j <= lexer.width,
    ensures
        match r {
            Ok(end) => register_tail(lexer.line, lexer.text@, pos as int, j as int) == Ok::<nat, ErrView>(
                (end - pos) as nat,
            ) && pos <= end <= lexer.width,
            Err(e) => register_tail(lexer.line, lexer.text@, pos as int, j as int) == Err::<nat, ErrView>(e@),
        },
{
    if j >= lexer.width {
        return Ok(j);
    }
    let c = lexer.idx(j);
    if c == ',' {
        return Ok(j);
    }
    if c == '#' {
        // a comment is left for the main loop to read
        return Ok(j - 1);
    }
    if c != ' ' {
        return Err(illegal_register_symbol(j, lexer));
    }
    let k = lexer.scan(j, CharClass::Space);
    if k >= lexer.width {
        Ok(k)
    } else if lexer.idx(k) == '#' {
        Ok(k - 1)
    } else {
        Err(illegal_register_symbol(k, lexer))
    }
}

/// Past the digits of a number, which end at `j`: skips spaces up to a comma,
/// a comment or the end of the line, and gives the index the cursor is left on.
fn skip_whitespace(pos: usize, j: usize, lexer: &Lexer) -> (r: Result<usize, errors::Diagnostic>)
    requires
        lexer.wf(),
        pos < j <= lexer.width,
    ensures
        match r {
            Ok(end) => number_tail(lexer.line, lexer.text@, pos as int, j as int) == Ok::<nat, ErrView>(
                (end - pos) as nat,
            ) && pos <= end <= lexer.width,
            Err(e) => number_tail(lexer.line, lexer.text@, pos as int, j as int) == Err::<nat, ErrView>(e@),
        },
{
    if j >= lexer.width {
        return Ok(j);
    }
    let c = lexer.idx(j);
    if c == ',' {
        return Ok(j);
    }
    if c == '#' {
        // put the comment back into view
        return Ok(j - 1);
    }
    if c != ' ' {
        let mut text = String::from_str("Illegal character \"");
        text.append(char_text(c).as_str());
        text.append("\" while consuming number.");
        return Err(lexer.diagnostic(j, 1, Msg::One(text)));
    }
    let k = lexer.scan(j, CharClass::Space);
    if k >= lexer.width {
        return Ok(k);
    }
    let d = lexer.idx(k);
    if d == ',' {
        Ok(k)
    } else if d == '#' {
        Ok(k - 1)
    } else {
        let mut text = String::from_str("Unexpected character ");
        text.append(char_text(d).as_str());
        text.append(" while reading whitespace.");
        Err(lexer.diagnostic(k, 1, Msg::One(text)))
    }
}

/// The largest magnitude that the parse keeps track of: one more than any
/// 32-bit value needs.
pub const MAGNITUDE_CAP: u64 = 2147483649;

/// Reads `s` as a signed 32-bit decimal, or gives the reason it is not one.
pub fn parse_number(s: &str) -> (r: Result<i32, &'static str>)
    ensures
        match r {
            Ok(v) => number_value(s@) == Ok::<i32, Seq<char>>(v),
            Err(m) => number_value(s@) == Err::<i32, Seq<char>>(m@),
        },
{
    let n = s.unicode_len();
    let neg = n > 0 && s.get_char(0) == '-';
    let begin: usize = if neg { 1 } else { 0 };
    let ghost body = s@.subrange(begin as int, n as int);
    if begin >= n {
        return Err("invalid digit found in string");
    }
    let mut i: usize = begin;
    while i < n
        invariant
            n == s@.len(),
            begin == sign_len(s@),
            begin <= i <= n,
            body == s@.subrange(begin as int, n as int),
            forall|k: int| 0 <= k < i - begin ==> is_digit(#[trigger] body[k]),
        decreases n - i,
    {
        let c = s.get_char(i);
        if !('0' <= c && c <= '9') {
            assert(!is_digit(body[i - begin]));
            assert(!all_digits(body));
            return Err("invalid digit found in string");
        }
        i = i + 1;
    }
    let mut acc: u64 = 0;
    i = begin;
    while i < n
        invariant
            n == s@.len(),
            begin == sign_len(s@),
            begin <= i <= n,
            body == s@.subrange(begin as int, n as int),
            forall|k: int| 0 <= k < body.len() ==> is_digit(#[trigger] body[k]),
            digits_value(body.subrange(0, i - begin)) >= 0,
            acc == if digits_value(body.subrange(0, i - begin)) < MAGNITUDE_CAP {
                digits_value(body.subrange(0, i - begin))
            } else {
                MAGNITUDE_CAP as int
            },
        decreases n - i,
    {
        assert(s@[i as int] == body[i - begin]);
        let d = (s.get_char(i) as u32 - '0' as u32) as u64;
        let ghost prev = body.subrange(0, i - begin);
        let ghost next = body.subrange(0, i + 1 - begin);
        assert(next.drop_last() =~= prev);
        assert(is_digit(body[i - begin]));
        assert(next.last() == body[i - begin]);
        let ghost dv = digits_value(prev);
        assert(digits_value(next) == dv * 10 + d);
        if acc < MAGNITUDE_CAP {
            acc = acc * 10 + d;
            if acc > MAGNITUDE_CAP {
                acc = MAGNITUDE_CAP;
            }
        } else {
            assert(dv * 10 + d >= MAGNITUDE_CAP) by (nonlinear_arith)
                requires
                    dv >= MAGNITUDE_CAP,
                    d >= 0,
            ;
        }
        i = i + 1;
    }
    assert(body.subrange(0, n - begin) =~= body);
    if neg {
        if acc > 2147483648 {
            Err("number too small to fit in target type")
        } else {
            Ok((0 - acc as i64) as i32)
        }
    } else {
        if acc > 2147483647 {
            Err("number too large to fit in target type")
        } else {
            Ok(acc as i32)
        }
    }
}

} // verus!

verus! {

/// The end of a run lies between its start and the end of the text, and
/// every character before it is in the class.
pub proof fn lemma_run_end(t: Seq<char>, i: int, k: CharClass)
    requires
        0 <= i <= t.len(),
    ensures
        i <= run_end(t, i, k) <= t.len(),
        forall|m: int| i <= m < run_end(t, i, k) ==> in_class(k, #[trigger] t[m]),
        run_end(t, i, k) < t.len() ==> !in_class(k, t[run_end(t, i, k)]),
    decreases t.len() - i,
{
    if i < t.len() && in_class(k, t[i]) {
        lemma_run_end(t, i + 1, k);
    }
}

/// The closing quote lies between the start of the content and the end of
/// the text, and is a quote when it is inside the text.
pub proof fn lemma_closing_quote(t: Seq<char>, i: int)
    requires
        0 <= i <= t.len(),
    ensures
        i <= closing_quote(t, i) <= t.len(),
        closing_quote(t, i) < t.len() ==> t[closing_quote(t, i)] == '"',
    decreases t.len() - i,
{
    if i < t.len() && !(t[i] == '"' && !(i > 0 && t[i - 1] == '\\')) {
        lemma_closing_quote(t, i + 1);
    }
}

} // verus!
