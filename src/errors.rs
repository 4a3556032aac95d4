//! Diagnostics: the error type shared by the lexer and the parser.
use vstd::prelude::*;

use crate::ansi::{bold, bright_black, lemma_concat, lemma_plain, no_escape, painted, red, red_bold};
use crate::lexer::tokens::CodeSegment;
use crate::mips::syntax_highlight;
use crate::text::{char_text, decimal, decimal_text, repeat, repeat_char, trimmed};

verus! {

/// The text of a diagnostic: one line, or several stacked lines.
#[derive(Debug, Clone, PartialEq, Eq)]
pub enum Msg {
    One(String),
    Many(Vec<String>),
}

/// The mathematical value of a message.
pub enum MsgView {
    One(Seq<char>),
    Many(Seq<Seq<char>>),
}

impl View for Msg {
    type V = MsgView;

    open spec fn view(&self) -> MsgView {
        match self {
            Msg::One(s) => MsgView::One(s@),
            Msg::Many(v) => MsgView::Many(v@.map_values(|s: String| s@)),
        }
    }
}

/// The stage that found the error: the lexer (`Syntax`) or the parser (`Assemble`).
#[derive(Debug, Clone, Copy, PartialEq, Eq, Structural)]
pub enum ErrType {
    Syntax,
    Assemble,
}

/// A diagnostic: where the error is, which stage found it, and what it says.
#[derive(Debug, Clone, PartialEq, Eq)]
pub struct Diagnostic {
    pub segment: CodeSegment,
    pub errtype: ErrType,
    pub msg: Msg,
}

/// The mathematical value of a diagnostic.
pub struct ErrView {
    pub segment: CodeSegment,
    pub errtype: ErrType,
    pub msg: MsgView,
}

impl View for Diagnostic {
    type V = ErrView;

    open spec fn view(&self) -> ErrView {
        ErrView { segment: self.segment, errtype: self.errtype, msg: self.msg@ }
    }
}

/// A message of three lines.
pub fn three_lines(a: String, b: String, c: String) -> (r: Msg)
    ensures
        r@ == MsgView::Many(seq![a@, b@, c@]),
{
    let mut v: Vec<String> = Vec::new();
    v.push(a);
    v.push(b);
    v.push(c);
    let r = Msg::Many(v);
    assert(r@ == MsgView::Many(seq![a@, b@, c@])) by {
        assert(v@.map_values(|s: String| s@) =~= seq![a@, b@, c@]);
    }
    r
}

/// A message of two lines.
pub fn two_lines(a: String, b: String) -> (r: Msg)
    ensures
        r@ == MsgView::Many(seq![a@, b@]),
{
    let mut v: Vec<String> = Vec::new();
    v.push(a);
    v.push(b);
    let r = Msg::Many(v);
    assert(r@ == MsgView::Many(seq![a@, b@])) by {
        assert(v@.map_values(|s: String| s@) =~= seq![a@, b@]);
    }
    r
}

/// A diagnostic paired with the source line it points into, ready to be shown.
pub struct DisplayableErr {
    pub err: Diagnostic,
    pub line: String,
}

impl DisplayableErr {
    pub fn new(err: Diagnostic, line: &String) -> (r: DisplayableErr)
        ensures
            r.err == err,
            r.line@ == line@,
    {
        DisplayableErr { err, line: line.clone() }
    }
}

/// The words that name an error's category.
pub open spec fn category_text(t: ErrType) -> Seq<char> {
    match t {
        ErrType::Syntax => "syntax error"@,
        ErrType::Assemble => "parse error"@,
    }
}

/// The first line of a rendering: the category and where the error is,
/// counting lines and characters from one.
pub open spec fn prelude_text(e: ErrView) -> Seq<char> {
    "Error"@ + " ("@ + category_text(e.errtype) + ") on line "@ + decimal(e.segment.line as nat + 1) + " at "@
        + decimal(e.segment.idx as nat + 1) + "."@
}

/// A marker under the span, then the message: spaces up to the span, a `^`
/// for each character of it, a space, and the text.
pub open spec fn marker_line(g: CodeSegment, m: Seq<char>) -> Seq<char> {
    repeat(' ', g.idx as nat) + repeat('^', g.len as nat) + " "@ + m
}

/// One marker line for each message, stacked.
pub open spec fn marker_lines(g: CodeSegment, ms: Seq<Seq<char>>) -> Seq<char>
    decreases ms.len(),
{
    if ms.len() == 0 {
        seq![]
    } else if ms.len() == 1 {
        marker_line(g, ms[0])
    } else {
        marker_lines(g, ms.drop_last()) + "\n"@ + marker_line(g, ms.last())
    }
}

/// The marker lines of a diagnostic.
pub open spec fn message_text(e: ErrView) -> Seq<char> {
    match e.msg {
        MsgView::One(m) => marker_line(e.segment, m),
        MsgView::Many(ms) => marker_lines(e.segment, ms),
    }
}

/// A diagnostic as it is shown, without colors: the prelude, the trimmed
/// source line, and the marker lines.
pub open spec fn rendered(e: ErrView, line: Seq<char>) -> Seq<char> {
    prelude_text(e) + "\n"@ + trimmed(line) + "\n"@ + message_text(e)
}

/// Whether the texts of a message hold no escape character.
pub open spec fn msg_plain(m: MsgView) -> bool {
    match m {
        MsgView::One(s) => no_escape(s),
        MsgView::Many(ms) => forall|i: int| 0 <= i < ms.len() ==> #[trigger] no_escape(ms[i]),
    }
}

proof fn lemma_fixed_texts()
    ensures
        no_escape("Error"@),
        no_escape(" ("@),
        no_escape("syntax error"@),
        no_escape("parse error"@),
        no_escape(") on line "@),
        no_escape(" at "@),
        no_escape("."@),
        no_escape("\n"@),
        no_escape(" "@),
{
    reveal_strlit("Error");
    reveal_strlit(" (");
    reveal_strlit("syntax error");
    reveal_strlit("parse error");
    reveal_strlit(") on line ");
    reveal_strlit(" at ");
    reveal_strlit(".");
    reveal_strlit("\n");
    reveal_strlit(" ");
}

proof fn lemma_decimal_plain(n: nat)
    ensures
        no_escape(decimal(n)),
    decreases n,
{
    if n >= 10 {
        lemma_decimal_plain(n / 10);
    }
}

/// Appending painted text to painted text.
proof fn lemma_extend(out: Seq<char>, plain: Seq<char>, piece: Seq<char>, p: Seq<char>)
    requires
        painted(out, plain),
        painted(piece, p),
    ensures
        painted(out + piece, plain + p),
{
    lemma_concat(out, piece);
}

/// Appends `piece` to `out`.
fn extend(out: &mut String, piece: &str, Ghost(plain): Ghost<Seq<char>>, Ghost(p): Ghost<Seq<char>>)
    ensures
        final(out)@ == old(out)@ + piece@,
        painted(old(out)@, plain) && painted(piece@, p) ==> painted(final(out)@, plain + p),
{
    proof {
        if painted(old(out)@, plain) && painted(piece@, p) {
            lemma_extend(old(out)@, plain, piece@, p);
        }
    }
    out.append(piece);
}

/// Appends text that holds no escape character.
fn extend_plain(out: &mut String, piece: &str, Ghost(plain): Ghost<Seq<char>>)
    requires
        no_escape(piece@),
    ensures
        final(out)@ == old(out)@ + piece@,
        painted(old(out)@, plain) ==> painted(final(out)@, plain + piece@),
{
    proof {
        lemma_plain(piece@);
    }
    extend(out, piece, Ghost(plain), Ghost(piece@));
}

/// Appends the marker line for message `m`.
fn extend_marker(out: &mut String, g: CodeSegment, m: &String, Ghost(plain): Ghost<Seq<char>>)
    ensures
        no_escape(m@) && painted(old(out)@, plain) ==> painted(final(out)@, plain + marker_line(g, m@)),
{
    let spaces = repeat_char(' ', g.idx);
    let carets = red_bold(repeat_char('^', g.len).as_str());
    let text = bold(m.as_str());
    proof {
        lemma_fixed_texts();
        assert(no_escape(repeat('^', g.len as nat)));
    }
    extend_plain(out, spaces.as_str(), Ghost(plain));
    let ghost spaced = plain + repeat(' ', g.idx as nat);
    extend(out, carets.as_str(), Ghost(spaced), Ghost(repeat('^', g.len as nat)));
    let ghost marked = spaced + repeat('^', g.len as nat);
    extend_plain(out, " ", Ghost(marked));
    let ghost gapped = marked + " "@;
    extend(out, text.as_str(), Ghost(gapped), Ghost(m@));
    assert(gapped + m@ =~= plain + marker_line(g, m@));
}

impl DisplayableErr {
    /// The diagnostic as it is shown: the prelude, the trimmed source line
    /// with the span in red, and under it a marker of the span's width
    /// followed by each line of the message. Stripped of its colors, it is
    /// exactly `rendered`, whenever the line and the message hold no escape
    /// character of their own.
    pub fn render(&self) -> (r: String)
        ensures
            no_escape(trimmed(self.line@)) && msg_plain(self.err.msg@) ==> painted(
                r@,
                rendered(self.err@, self.line@),
            ),
    {
        let g = self.err.segment;
        let ghost e = self.err@;
        proof {
            lemma_fixed_texts();
            lemma_decimal_plain(g.line as nat + 1);
            lemma_decimal_plain(g.idx as nat + 1);
            lemma_plain(seq![]);
        }
        let kind = match self.err.errtype {
            ErrType::Syntax => "syntax error",
            ErrType::Assemble => "parse error",
        };
        let mut out = String::new();
        let ghost p = Seq::<char>::empty();
        assert(out@ =~= p);
        extend(&mut out, red_bold("Error").as_str(), Ghost(p), Ghost("Error"@));
        assert(p + "Error"@ =~= "Error"@);
        let ghost p = "Error"@;
        extend_plain(&mut out, " (", Ghost(p));
        let ghost p = p + " ("@;
        extend(&mut out, bright_black(kind).as_str(), Ghost(p), Ghost(category_text(e.errtype)));
        let ghost p = p + category_text(e.errtype);
        extend_plain(&mut out, ") on line ", Ghost(p));
        let ghost p = p + ") on line "@;
        extend_plain(&mut out, decimal_text(g.line as u128 + 1).as_str(), Ghost(p));
        let ghost p = p + decimal(g.line as nat + 1);
        extend_plain(&mut out, " at ", Ghost(p));
        let ghost p = p + " at "@;
        extend_plain(&mut out, decimal_text(g.idx as u128 + 1).as_str(), Ghost(p));
        let ghost p = p + decimal(g.idx as nat + 1);
        extend_plain(&mut out, ".", Ghost(p));
        let ghost p = p + "."@;
        assert(p =~= prelude_text(e));
        extend_plain(&mut out, "\n", Ghost(p));
        let ghost p = p + "\n"@;

        let line = syntax_highlight(String::from_str(self.line.as_str().trim()));
        let ghost t = line@;
        let ghost good = no_escape(trimmed(self.line@)) && msg_plain(self.err.msg@);
        let width = line.as_str().unicode_len();
        let mut k: usize = 0;
        assert(p + t.subrange(0, 0) =~= p);
        while k < width
            invariant
                width == t.len(),
                t == line@,
                t == trimmed(self.line@),
                good == (no_escape(trimmed(self.line@)) && msg_plain(self.err.msg@)),
                k <= width,
                good ==> painted(out@, p + t.subrange(0, k as int)),
            decreases width - k,
        {
            let c = line.as_str().get_char(k);
            let ghost before = p + t.subrange(0, k as int);
            let ghost cs = seq![c];
            proof {
                if good {
                    assert(no_escape(seq![c])) by {
                        assert(seq![c][0] == t[k as int]);
                    }
                    lemma_plain(seq![c]);
                }
            }
            if k >= g.idx && k - g.idx < g.len {
                let piece = red(char_text(c).as_str());
                extend(&mut out, piece.as_str(), Ghost(before), Ghost(cs));
            } else {
                let piece = char_text(c);
                extend(&mut out, piece.as_str(), Ghost(before), Ghost(cs));
            }
            assert(before + seq![c] =~= p + t.subrange(0, k + 1));
            k = k + 1;
        }
        assert(t.subrange(0, width as int) =~= t);
        let ghost p = p + t;
        extend_plain(&mut out, "\n", Ghost(p));
        let ghost p = p + "\n"@;
        match &self.err.msg {
            Msg::One(m) => {
                extend_marker(&mut out, g, m, Ghost(p));
            },
            Msg::Many(ms) => {
                let ghost views = ms@.map_values(|s: String| s@);
                let n = ms.len();
                let mut i: usize = 0;
                assert(p + marker_lines(g, views.subrange(0, 0)) =~= p);
                while i < n
                    invariant
                        n == ms@.len(),
                        views == ms@.map_values(|s: String| s@),
                        self.err.msg@ == MsgView::Many(views),
                        good == (no_escape(trimmed(self.line@)) && msg_plain(self.err.msg@)),
                        i <= n,
                        good ==> painted(out@, p + marker_lines(g, views.subrange(0, i as int))),
                    decreases n - i,
                {
                    proof {
                        lemma_fixed_texts();
                    }
                    let ghost done = p + marker_lines(g, views.subrange(0, i as int));
                    let ghost next = views.subrange(0, i + 1);
                    assert(next.drop_last() =~= views.subrange(0, i as int));
                    assert(views[i as int] == ms@[i as int]@);
                    assert(next.last() == views[i as int]);
                    proof {
                        if good {
                            assert(msg_plain(MsgView::Many(views)));
                            assert(MsgView::Many(views)->Many_0 == views);
                            assert(forall|q: int| 0 <= q < views.len() ==> #[trigger] no_escape(views[q]));
                            assert(0 <= i < views.len());
                            assert(no_escape(views[i as int]));
                        }
                    }
                    if i > 0 {
                        extend_plain(&mut out, "\n", Ghost(done));
                        extend_marker(&mut out, g, &ms[i], Ghost(done + "\n"@));
                        assert(done + "\n"@ + marker_line(g, views[i as int]) =~= p + marker_lines(g, next));
                    } else {
                        extend_marker(&mut out, g, &ms[i], Ghost(done));
                        assert(done + marker_line(g, views[i as int]) =~= p + marker_lines(g, next));
                    }
                    i = i + 1;
                }
                assert(views.subrange(0, n as int) =~= views);
            },
        }
        out
    }
}

} // verus!
