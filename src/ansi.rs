//! Terminal color codes, and the colored text that diagnostics are drawn in.
//!
//! Whether colors are drawn at all depends on the terminal and the
//! environment, so the contracts here speak of what holds either way: with
//! its color codes stripped, colored text is the text itself.
use vstd::prelude::*;

use colored::Colorize;

verus! {

/// The character that starts a color code.
pub open spec fn is_escape(c: char) -> bool {
    c == '\u{1b}'
}

/// Whether `s` holds no escape character.
pub open spec fn no_escape(s: Seq<char>) -> bool {
    forall|i: int| 0 <= i < s.len() ==> !is_escape(#[trigger] s[i])
}

/// The index of the first `m` at or after `i`, or the length of `s`.
pub open spec fn code_end(s: Seq<char>, i: int) -> int
    decreases s.len() - i,
{
    if 0 <= i < s.len() && s[i] != 'm' {
        code_end(s, i + 1)
    } else {
        i
    }
}

/// `s` without its color codes: each runs from an escape character to the
/// next `m`.
pub open spec fn stripped(s: Seq<char>) -> Seq<char>
    decreases s.len(),
{
    if s.len() == 0 {
        s
    } else if is_escape(s[0]) {
        let k = code_end(s, 1);
        proof {
            lemma_code_end_bounds(s, 1);
        }
        if k < s.len() {
            stripped(s.subrange(k + 1, s.len() as int))
        } else {
            seq![]
        }
    } else {
        seq![s[0]] + stripped(s.drop_first())
    }
}

/// Whether every color code in `s` is complete: each escape character has
/// an `m` after it.
pub open spec fn closed(s: Seq<char>) -> bool
    decreases s.len(),
{
    if s.len() == 0 {
        true
    } else if is_escape(s[0]) {
        let k = code_end(s, 1);
        proof {
            lemma_code_end_bounds(s, 1);
        }
        k < s.len() && closed(s.subrange(k + 1, s.len() as int))
    } else {
        closed(s.drop_first())
    }
}

/// `r` is `s` drawn with colors, or without: its codes are complete, and
/// stripping them gives `s`.
pub open spec fn painted(r: Seq<char>, s: Seq<char>) -> bool {
    closed(r) && stripped(r) == s
}

pub proof fn lemma_code_end_bounds(s: Seq<char>, i: int)
    requires
        0 <= i <= s.len(),
    ensures
        i <= code_end(s, i) <= s.len(),
        code_end(s, i) < s.len() ==> s[code_end(s, i)] == 'm',
    decreases s.len() - i,
{
    if i < s.len() && s[i] != 'm' {
        lemma_code_end_bounds(s, i + 1);
    }
}

proof fn lemma_code_end_concat(a: Seq<char>, b: Seq<char>, i: int)
    requires
        0 <= i <= a.len(),
        code_end(a, i) < a.len(),
    ensures
        code_end(a + b, i) == code_end(a, i),
    decreases a.len() - i,
{
    if a[i] != 'm' {
        lemma_code_end_concat(a, b, i + 1);
    }
}

/// Text without escape characters is its own stripping, and closed.
pub proof fn lemma_plain(s: Seq<char>)
    requires
        no_escape(s),
    ensures
        painted(s, s),
    decreases s.len(),
{
    if s.len() > 0 {
        assert(!is_escape(s[0]));
        assert(no_escape(s.drop_first())) by {
            assert forall|i: int| 0 <= i < s.drop_first().len() implies !is_escape(
                #[trigger] s.drop_first()[i],
            ) by {
                assert(s.drop_first()[i] == s[i + 1]);
            }
        }
        lemma_plain(s.drop_first());
        assert(seq![s[0]] + s.drop_first() =~= s);
    }
}

/// After closed text, stripping goes piece by piece, and closed pieces make
/// closed text.
pub proof fn lemma_concat(a: Seq<char>, b: Seq<char>)
    requires
        closed(a),
    ensures
        stripped(a + b) == stripped(a) + stripped(b),
        closed(b) ==> closed(a + b),
    decreases a.len(),
{
    if a.len() == 0 {
        assert(a + b =~= b);
        assert(stripped(a) + stripped(b) =~= stripped(b));
    } else if is_escape(a[0]) {
        let k = code_end(a, 1);
        lemma_code_end_bounds(a, 1);
        lemma_code_end_concat(a, b, 1);
        assert((a + b)[0] == a[0]);
        let rest = a.subrange(k + 1, a.len() as int);
        assert((a + b).subrange(k + 1, (a + b).len() as int) =~= rest + b);
        lemma_concat(rest, b);
    } else {
        assert((a + b)[0] == a[0]);
        assert((a + b).drop_first() =~= a.drop_first() + b);
        lemma_concat(a.drop_first(), b);
        assert(seq![a[0]] + (stripped(a.drop_first()) + stripped(b)) =~= (seq![a[0]] + stripped(
            a.drop_first(),
        )) + stripped(b));
    }
}

/// Relies on colored's `Colorize::red` and the `Display` of its
/// `ColoredString`: the text comes back as it is, or inside a color code and
/// a reset code, as colored's global setting decides.
#[verifier::external_body]
pub(crate) fn red(s: &str) -> (r: String)
    ensures
        no_escape(s@) ==> painted(r@, s@),
{
    s.red().to_string()
}

/// Relies on colored's `Colorize::bold` and the `Display` of its
/// `ColoredString`: the text comes back as it is, or inside a style code and
/// a reset code, as colored's global setting decides.
#[verifier::external_body]
pub(crate) fn bold(s: &str) -> (r: String)
    ensures
        no_escape(s@) ==> painted(r@, s@),
{
    s.bold().to_string()
}

/// Relies on colored's `Colorize::red`, `ColoredString::bold` and the
/// `Display` of `ColoredString`: the text comes back as it is, or inside one
/// code for both and a reset code, as colored's global setting decides.
#[verifier::external_body]
pub(crate) fn red_bold(s: &str) -> (r: String)
    ensures
        no_escape(s@) ==> painted(r@, s@),
{
    s.red().bold().to_string()
}

/// Relies on colored's `Colorize::bright_black` and the `Display` of its
/// `ColoredString`: the text comes back as it is, or inside a color code and
/// a reset code, as colored's global setting decides.
#[verifier::external_body]
pub(crate) fn bright_black(s: &str) -> (r: String)
    ensures
        no_escape(s@) ==> painted(r@, s@),
{
    s.bright_black().to_string()
}

} // verus!
