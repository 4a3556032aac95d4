//! Instruction mnemonics, the register file, and the resolvers that turn
//! operand tokens into instruction nodes.
use vstd::prelude::*;

use crate::errors::{self, ErrView};
use crate::lexer::tokens::{token_views, CodeSegment, Token, TokenView};
use crate::parse::ast::{lemma_nodes_view_push, nodes_view, ASTNode, ASTree, NodeView, Tree};
use crate::parse::parsers::{self, label_spec, number_spec, parsed, register_spec, unexpected, Parsed, Parser};
use crate::parse::parse_one_spec;
use crate::parse::symbols::{Symbol, SymbolView};
use crate::text::{decimal, same_text};

verus! {

/// The instructions that the parser knows.
#[derive(Debug, Clone, Copy, PartialEq, Eq, Structural)]
pub enum Instruction {
    /// `li reg, number`
    LoadImmediate,
    /// `la reg, label`
    LoadAddress,
    /// `syscall`
    SystemCall,
}

/// The 32 general-purpose registers, in the order of their numbers.
#[derive(Debug, Clone, Copy, PartialEq, Eq, Structural)]
pub enum Register {
    Z0,  // zero = 0
    AT,  // reserved for assembler
    V0,  // values
    V1,
    A0,  // arguments
    A1,
    A2,
    A3,
    T0,  // temporary
    T1,
    T2,
    T3,
    T4,
    T5,
    T6,
    T7,
    S0,  // saved
    S1,
    S2,
    S3,
    S4,
    S5,
    S6,
    S7,
    T8,  // additional temporaries
    T9,
    K0,  // reserved by operating system
    K1,
    GP,  // global pointer
    SP,  // stack pointer
    FP,  // frame pointer
    RA,  // return address
}

impl Register {
    /// The register's number.
    pub open spec fn number(self) -> nat {
        match self {
            Register::Z0 => 0,
            Register::AT => 1,
            Register::V0 => 2,
            Register::V1 => 3,
            Register::A0 => 4,
            Register::A1 => 5,
            Register::A2 => 6,
            Register::A3 => 7,
            Register::T0 => 8,
            Register::T1 => 9,
            Register::T2 => 10,
            Register::T3 => 11,
            Register::T4 => 12,
            Register::T5 => 13,
            Register::T6 => 14,
            Register::T7 => 15,
            Register::S0 => 16,
            Register::S1 => 17,
            Register::S2 => 18,
            Register::S3 => 19,
            Register::S4 => 20,
            Register::S5 => 21,
            Register::S6 => 22,
            Register::S7 => 23,
            Register::T8 => 24,
            Register::T9 => 25,
            Register::K0 => 26,
            Register::K1 => 27,
            Register::GP => 28,
            Register::SP => 29,
            Register::FP => 30,
            Register::RA => 31,
        }
    }

    /// The register's number, spelled in decimal.
    pub open spec fn numeric_name(self) -> Seq<char> {
        match self {
            Register::Z0 => "0"@,
            Register::AT => "1"@,
            Register::V0 => "2"@,
            Register::V1 => "3"@,
            Register::A0 => "4"@,
            Register::A1 => "5"@,
            Register::A2 => "6"@,
            Register::A3 => "7"@,
            Register::T0 => "8"@,
            Register::T1 => "9"@,
            Register::T2 => "10"@,
            Register::T3 => "11"@,
            Register::T4 => "12"@,
            Register::T5 => "13"@,
            Register::T6 => "14"@,
            Register::T7 => "15"@,
            Register::S0 => "16"@,
            Register::S1 => "17"@,
            Register::S2 => "18"@,
            Register::S3 => "19"@,
            Register::S4 => "20"@,
            Register::S5 => "21"@,
            Register::S6 => "22"@,
            Register::S7 => "23"@,
            Register::T8 => "24"@,
            Register::T9 => "25"@,
            Register::K0 => "26"@,
            Register::K1 => "27"@,
            Register::GP => "28"@,
            Register::SP => "29"@,
            Register::FP => "30"@,
            Register::RA => "31"@,
        }
    }

    /// The register's conventional name.
    pub open spec fn mnemonic(self) -> Seq<char> {
        match self {
            Register::Z0 => "zero"@,
            Register::AT => "at"@,
            Register::V0 => "v0"@,
            Register::V1 => "v1"@,
            Register::A0 => "a0"@,
            Register::A1 => "a1"@,
            Register::A2 => "a2"@,
            Register::A3 => "a3"@,
            Register::T0 => "t0"@,
            Register::T1 => "t1"@,
            Register::T2 => "t2"@,
            Register::T3 => "t3"@,
            Register::T4 => "t4"@,
            Register::T5 => "t5"@,
            Register::T6 => "t6"@,
            Register::T7 => "t7"@,
            Register::S0 => "s0"@,
            Register::S1 => "s1"@,
            Register::S2 => "s2"@,
            Register::S3 => "s3"@,
            Register::S4 => "s4"@,
            Register::S5 => "s5"@,
            Register::S6 => "s6"@,
            Register::S7 => "s7"@,
            Register::T8 => "t8"@,
            Register::T9 => "t9"@,
            Register::K0 => "k0"@,
            Register::K1 => "k1"@,
            Register::GP => "gp"@,
            Register::SP => "sp"@,
            Register::FP => "fp"@,
            Register::RA => "ra"@,
        }
    }
}

/// The register that `name` spells, by number (`8`) or by its conventional
/// name (`t0`), if any.
pub open spec fn register_named(name: Seq<char>) -> Option<Register> {
    if name == "0"@ || name == "zero"@ {
        Some(Register::Z0)
    } else if name == "1"@ || name == "at"@ {
        Some(Register::AT)
    } else if name == "2"@ || name == "v0"@ {
        Some(Register::V0)
    } else if name == "3"@ || name == "v1"@ {
        Some(Register::V1)
    } else if name == "4"@ || name == "a0"@ {
        Some(Register::A0)
    } else if name == "5"@ || name == "a1"@ {
        Some(Register::A1)
    } else if name == "6"@ || name == "a2"@ {
        Some(Register::A2)
    } else if name == "7"@ || name == "a3"@ {
        Some(Register::A3)
    } else if name == "8"@ || name == "t0"@ {
        Some(Register::T0)
    } else if name == "9"@ || name == "t1"@ {
        Some(Register::T1)
    } else if name == "10"@ || name == "t2"@ {
        Some(Register::T2)
    } else if name == "11"@ || name == "t3"@ {
        Some(Register::T3)
    } else if name == "12"@ || name == "t4"@ {
        Some(Register::T4)
    } else if name == "13"@ || name == "t5"@ {
        Some(Register::T5)
    } else if name == "14"@ || name == "t6"@ {
        Some(Register::T6)
    } else if name == "15"@ || name == "t7"@ {
        Some(Register::T7)
    } else if name == "16"@ || name == "s0"@ {
        Some(Register::S0)
    } else if name == "17"@ || name == "s1"@ {
        Some(Register::S1)
    } else if name == "18"@ || name == "s2"@ {
        Some(Register::S2)
    } else if name == "19"@ || name == "s3"@ {
        Some(Register::S3)
    } else if name == "20"@ || name == "s4"@ {
        Some(Register::S4)
    } else if name == "21"@ || name == "s5"@ {
        Some(Register::S5)
    } else if name == "22"@ || name == "s6"@ {
        Some(Register::S6)
    } else if name == "23"@ || name == "s7"@ {
        Some(Register::S7)
    } else if name == "24"@ || name == "t8"@ {
        Some(Register::T8)
    } else if name == "25"@ || name == "t9"@ {
        Some(Register::T9)
    } else if name == "26"@ || name == "k0"@ {
        Some(Register::K0)
    } else if name == "27"@ || name == "k1"@ {
        Some(Register::K1)
    } else if name == "28"@ || name == "gp"@ {
        Some(Register::GP)
    } else if name == "29"@ || name == "sp"@ {
        Some(Register::SP)
    } else if name == "30"@ || name == "fp"@ {
        Some(Register::FP)
    } else if name == "31"@ || name == "ra"@ {
        Some(Register::RA)
    } else {
        None
    }
}

/// Resolves a register's spelling.
pub fn resolve_register(name: &str) -> (r: Option<Register>)
    ensures
        r == register_named(name@),
{
    if same_text(name, "0") || same_text(name, "zero") {
        Some(Register::Z0)
    } else if same_text(name, "1") || same_text(name, "at") {
        Some(Register::AT)
    } else if same_text(name, "2") || same_text(name, "v0") {
        Some(Register::V0)
    } else if same_text(name, "3") || same_text(name, "v1") {
        Some(Register::V1)
    } else if same_text(name, "4") || same_text(name, "a0") {
        Some(Register::A0)
    } else if same_text(name, "5") || same_text(name, "a1") {
        Some(Register::A1)
    } else if same_text(name, "6") || same_text(name, "a2") {
        Some(Register::A2)
    } else if same_text(name, "7") || same_text(name, "a3") {
        Some(Register::A3)
    } else if same_text(name, "8") || same_text(name, "t0") {
        Some(Register::T0)
    } else if same_text(name, "9") || same_text(name, "t1") {
        Some(Register::T1)
    } else if same_text(name, "10") || same_text(name, "t2") {
        Some(Register::T2)
    } else if same_text(name, "11") || same_text(name, "t3") {
        Some(Register::T3)
    } else if same_text(name, "12") || same_text(name, "t4") {
        Some(Register::T4)
    } else if same_text(name, "13") || same_text(name, "t5") {
        Some(Register::T5)
    } else if same_text(name, "14") || same_text(name, "t6") {
        Some(Register::T6)
    } else if same_text(name, "15") || same_text(name, "t7") {
        Some(Register::T7)
    } else if same_text(name, "16") || same_text(name, "s0") {
        Some(Register::S0)
    } else if same_text(name, "17") || same_text(name, "s1") {
        Some(Register::S1)
    } else if same_text(name, "18") || same_text(name, "s2") {
        Some(Register::S2)
    } else if same_text(name, "19") || same_text(name, "s3") {
        Some(Register::S3)
    } else if same_text(name, "20") || same_text(name, "s4") {
        Some(Register::S4)
    } else if same_text(name, "21") || same_text(name, "s5") {
        Some(Register::S5)
    } else if same_text(name, "22") || same_text(name, "s6") {
        Some(Register::S6)
    } else if same_text(name, "23") || same_text(name, "s7") {
        Some(Register::S7)
    } else if same_text(name, "24") || same_text(name, "t8") {
        Some(Register::T8)
    } else if same_text(name, "25") || same_text(name, "t9") {
        Some(Register::T9)
    } else if same_text(name, "26") || same_text(name, "k0") {
        Some(Register::K0)
    } else if same_text(name, "27") || same_text(name, "k1") {
        Some(Register::K1)
    } else if same_text(name, "28") || same_text(name, "gp") {
        Some(Register::GP)
    } else if same_text(name, "29") || same_text(name, "sp") {
        Some(Register::SP)
    } else if same_text(name, "30") || same_text(name, "fp") {
        Some(Register::FP)
    } else if same_text(name, "31") || same_text(name, "ra") {
        Some(Register::RA)
    } else {
        None
    }
}

/// The characters of each register spelling.
proof fn lemma_spelling_chars()
    ensures
        "0"@.len() == 1 && "0"@[0] == '0',
        "1"@.len() == 1 && "1"@[0] == '1',
        "2"@.len() == 1 && "2"@[0] == '2',
        "3"@.len() == 1 && "3"@[0] == '3',
        "4"@.len() == 1 && "4"@[0] == '4',
        "5"@.len() == 1 && "5"@[0] == '5',
        "6"@.len() == 1 && "6"@[0] == '6',
        "7"@.len() == 1 && "7"@[0] == '7',
        "8"@.len() == 1 && "8"@[0] == '8',
        "9"@.len() == 1 && "9"@[0] == '9',
        "10"@.len() == 2 && "10"@[0] == '1' && "10"@[1] == '0',
        "11"@.len() == 2 && "11"@[0] == '1' && "11"@[1] == '1',
        "12"@.len() == 2 && "12"@[0] == '1' && "12"@[1] == '2',
        "13"@.len() == 2 && "13"@[0] == '1' && "13"@[1] == '3',
        "14"@.len() == 2 && "14"@[0] == '1' && "14"@[1] == '4',
        "15"@.len() == 2 && "15"@[0] == '1' && "15"@[1] == '5',
        "16"@.len() == 2 && "16"@[0] == '1' && "16"@[1] == '6',
        "17"@.len() == 2 && "17"@[0] == '1' && "17"@[1] == '7',
        "18"@.len() == 2 && "18"@[0] == '1' && "18"@[1] == '8',
        "19"@.len() == 2 && "19"@[0] == '1' && "19"@[1] == '9',
        "20"@.len() == 2 && "20"@[0] == '2' && "20"@[1] == '0',
        "21"@.len() == 2 && "21"@[0] == '2' && "21"@[1] == '1',
        "22"@.len() == 2 && "22"@[0] == '2' && "22"@[1] == '2',
        "23"@.len() == 2 && "23"@[0] == '2' && "23"@[1] == '3',
        "24"@.len() == 2 && "24"@[0] == '2' && "24"@[1] == '4',
        "25"@.len() == 2 && "25"@[0] == '2' && "25"@[1] == '5',
        "26"@.len() == 2 && "26"@[0] == '2' && "26"@[1] == '6',
        "27"@.len() == 2 && "27"@[0] == '2' && "27"@[1] == '7',
        "28"@.len() == 2 && "28"@[0] == '2' && "28"@[1] == '8',
        "29"@.len() == 2 && "29"@[0] == '2' && "29"@[1] == '9',
        "30"@.len() == 2 && "30"@[0] == '3' && "30"@[1] == '0',
        "31"@.len() == 2 && "31"@[0] == '3' && "31"@[1] == '1',
        "zero"@.len() == 4 && "zero"@[0] == 'z' && "zero"@[1] == 'e' && "zero"@[2] == 'r' && "zero"@[3] == 'o',
        "at"@.len() == 2 && "at"@[0] == 'a' && "at"@[1] == 't',
        "v0"@.len() == 2 && "v0"@[0] == 'v' && "v0"@[1] == '0',
        "v1"@.len() == 2 && "v1"@[0] == 'v' && "v1"@[1] == '1',
        "a0"@.len() == 2 && "a0"@[0] == 'a' && "a0"@[1] == '0',
        "a1"@.len() == 2 && "a1"@[0] == 'a' && "a1"@[1] == '1',
        "a2"@.len() == 2 && "a2"@[0] == 'a' && "a2"@[1] == '2',
        "a3"@.len() == 2 && "a3"@[0] == 'a' && "a3"@[1] == '3',
        "t0"@.len() == 2 && "t0"@[0] == 't' && "t0"@[1] == '0',
        "t1"@.len() == 2 && "t1"@[0] == 't' && "t1"@[1] == '1',
        "t2"@.len() == 2 && "t2"@[0] == 't' && "t2"@[1] == '2',
        "t3"@.len() == 2 && "t3"@[0] == 't' && "t3"@[1] == '3',
        "t4"@.len() == 2 && "t4"@[0] == 't' && "t4"@[1] == '4',
        "t5"@.len() == 2 && "t5"@[0] == 't' && "t5"@[1] == '5',
        "t6"@.len() == 2 && "t6"@[0] == 't' && "t6"@[1] == '6',
        "t7"@.len() == 2 && "t7"@[0] == 't' && "t7"@[1] == '7',
        "s0"@.len() == 2 && "s0"@[0] == 's' && "s0"@[1] == '0',
        "s1"@.len() == 2 && "s1"@[0] == 's' && "s1"@[1] == '1',
        "s2"@.len() == 2 && "s2"@[0] == 's' && "s2"@[1] == '2',
        "s3"@.len() == 2 && "s3"@[0] == 's' && "s3"@[1] == '3',
        "s4"@.len() == 2 && "s4"@[0] == 's' && "s4"@[1] == '4',
        "s5"@.len() == 2 && "s5"@[0] == 's' && "s5"@[1] == '5',
        "s6"@.len() == 2 && "s6"@[0] == 's' && "s6"@[1] == '6',
        "s7"@.len() == 2 && "s7"@[0] == 's' && "s7"@[1] == '7',
        "t8"@.len() == 2 && "t8"@[0] == 't' && "t8"@[1] == '8',
        "t9"@.len() == 2 && "t9"@[0] == 't' && "t9"@[1] == '9',
        "k0"@.len() == 2 && "k0"@[0] == 'k' && "k0"@[1] == '0',
        "k1"@.len() == 2 && "k1"@[0] == 'k' && "k1"@[1] == '1',
        "gp"@.len() == 2 && "gp"@[0] == 'g' && "gp"@[1] == 'p',
        "sp"@.len() == 2 && "sp"@[0] == 's' && "sp"@[1] == 'p',
        "fp"@.len() == 2 && "fp"@[0] == 'f' && "fp"@[1] == 'p',
        "ra"@.len() == 2 && "ra"@[0] == 'r' && "ra"@[1] == 'a',
{
    reveal_strlit("0");
    reveal_strlit("1");
    reveal_strlit("2");
    reveal_strlit("3");
    reveal_strlit("4");
    reveal_strlit("5");
    reveal_strlit("6");
    reveal_strlit("7");
    reveal_strlit("8");
    reveal_strlit("9");
    reveal_strlit("10");
    reveal_strlit("11");
    reveal_strlit("12");
    reveal_strlit("13");
    reveal_strlit("14");
    reveal_strlit("15");
    reveal_strlit("16");
    reveal_strlit("17");
    reveal_strlit("18");
    reveal_strlit("19");
    reveal_strlit("20");
    reveal_strlit("21");
    reveal_strlit("22");
    reveal_strlit("23");
    reveal_strlit("24");
    reveal_strlit("25");
    reveal_strlit("26");
    reveal_strlit("27");
    reveal_strlit("28");
    reveal_strlit("29");
    reveal_strlit("30");
    reveal_strlit("31");
    reveal_strlit("zero");
    reveal_strlit("at");
    reveal_strlit("v0");
    reveal_strlit("v1");
    reveal_strlit("a0");
    reveal_strlit("a1");
    reveal_strlit("a2");
    reveal_strlit("a3");
    reveal_strlit("t0");
    reveal_strlit("t1");
    reveal_strlit("t2");
    reveal_strlit("t3");
    reveal_strlit("t4");
    reveal_strlit("t5");
    reveal_strlit("t6");
    reveal_strlit("t7");
    reveal_strlit("s0");
    reveal_strlit("s1");
    reveal_strlit("s2");
    reveal_strlit("s3");
    reveal_strlit("s4");
    reveal_strlit("s5");
    reveal_strlit("s6");
    reveal_strlit("s7");
    reveal_strlit("t8");
    reveal_strlit("t9");
    reveal_strlit("k0");
    reveal_strlit("k1");
    reveal_strlit("gp");
    reveal_strlit("sp");
    reveal_strlit("fp");
    reveal_strlit("ra");
}

/// Both spellings of every register, its number in decimal and its
/// conventional name, resolve to that register.
pub proof fn lemma_register_spellings(r: Register)
    ensures
        r.numeric_name() == decimal(r.number()),
        register_named(r.numeric_name()) == Some(r),
        register_named(r.mnemonic()) == Some(r),
{
    lemma_spelling_chars();
    reveal_with_fuel(decimal, 2);
    assert(r.numeric_name() =~= decimal(r.number()));
    match r {
        Register::Z0 => {},
        Register::AT => {},
        Register::V0 => {},
        Register::V1 => {},
        Register::A0 => {},
        Register::A1 => {},
        Register::A2 => {},
        Register::A3 => {},
        Register::T0 => {},
        Register::T1 => {},
        Register::T2 => {},
        Register::T3 => {},
        Register::T4 => {},
        Register::T5 => {},
        Register::T6 => {},
        Register::T7 => {},
        Register::S0 => {},
        Register::S1 => {},
        Register::S2 => {},
        Register::S3 => {},
        Register::S4 => {},
        Register::S5 => {},
        Register::S6 => {},
        Register::S7 => {},
        Register::T8 => {},
        Register::T9 => {},
        Register::K0 => {},
        Register::K1 => {},
        Register::GP => {},
        Register::SP => {},
        Register::FP => {},
        Register::RA => {},
    }
}

} // verus!

verus! {

/// The span of an instruction: from the start of its mnemonic to the end of
/// its last operand. It is empty where that would run backwards.
pub open spec fn span_between(head: CodeSegment, tail: CodeSegment) -> CodeSegment {
    let end = tail.idx + tail.len;
    CodeSegment {
        line: head.line,
        idx: head.idx,
        len: if head.idx <= end <= usize::MAX {
            (end - head.idx) as usize
        } else {
            0
        },
    }
}

/// `li reg, number`.
pub open spec fn li_spec(toks: Seq<TokenView>, i: int) -> Parsed {
    match register_spec(toks, i + 1) {
        Err((e, adv)) => Err((e, adv + 1)),
        Ok((reg, _)) => match number_spec(toks, i + 2) {
            Err((e, adv)) => Err((e, adv + 2)),
            Ok((value, _)) => Ok(
                (
                    NodeView::Interior(
                        SymbolView::Instruction(
                            Instruction::LoadImmediate,
                            span_between(toks[i].segment(), toks[i + 2].segment()),
                        ),
                        seq![reg, value],
                    ),
                    2,
                ),
            ),
        },
    }
}

/// `la reg, label`.
pub open spec fn la_spec(toks: Seq<TokenView>, i: int) -> Parsed {
    match register_spec(toks, i + 1) {
        Err((e, adv)) => Err((e, adv + 1)),
        Ok((reg, _)) => match label_spec(toks, i + 2) {
            Err((e, adv)) => Err((e, adv + 2)),
            Ok((label, _)) => Ok(
                (
                    NodeView::Interior(
                        SymbolView::Instruction(
                            Instruction::LoadAddress,
                            span_between(toks[i].segment(), toks[i + 2].segment()),
                        ),
                        seq![reg, label],
                    ),
                    2,
                ),
            ),
        },
    }
}

/// The span from the start of `head` to the end of `tail`.
pub fn instruction_span(head: CodeSegment, tail: CodeSegment) -> (g: CodeSegment)
    ensures
        g == span_between(head, tail),
{
    let len = if tail.idx <= usize::MAX - tail.len && head.idx <= tail.idx + tail.len {
        tail.idx + tail.len - head.idx
    } else {
        0
    };
    CodeSegment { line: head.line, idx: head.idx, len }
}

/// An instruction node with two operands.
fn two_operands(
    kind: Instruction,
    segment: CodeSegment,
    first: ASTNode<Symbol>,
    second: ASTNode<Symbol>,
) -> (r: ASTNode<Symbol>)
    ensures
        r@ == NodeView::Interior(SymbolView::Instruction(kind, segment), seq![first@, second@]),
{
    let mut tree = ASTree::<Symbol>::new(Symbol::Instruction(kind, segment));
    proof {
        lemma_nodes_view_push(tree.children@, first);
    }
    tree.add_node(first);
    proof {
        lemma_nodes_view_push(tree.children@, second);
    }
    tree.add_node(second);
    assert(nodes_view(tree.children@) =~= seq![first@, second@]);
    ASTNode::Tree(tree)
}

/// `syscall`, which takes no operands.
pub fn parse_syscall(idx: &mut usize, tokens: &Vec<Token>) -> (r: Result<ASTNode<Symbol>, errors::Diagnostic>)
    requires
        *old(idx) < tokens@.len(),
    ensures
        *final(idx) == *old(idx),
        r matches Ok(n) && n@ == NodeView::Leaf(
            SymbolView::Instruction(Instruction::SystemCall, tokens@[*old(idx) as int]@.segment()),
        ),
{
    let instruction = Symbol::Instruction(Instruction::SystemCall, crate::parse::extract_segment(&tokens[*idx]));
    Ok(ASTNode::Node(instruction))
}

/// `la reg, label`, with the mnemonic at `*idx`.
pub fn parse_la(idx: &mut usize, tokens: &Vec<Token>) -> (r: Result<ASTNode<Symbol>, errors::Diagnostic>)
    requires
        *old(idx) < tokens@.len(),
    ensures
        parsed(r, *old(idx), *final(idx)) == la_spec(token_views(tokens@), *old(idx) as int),
        *old(idx) <= *final(idx),
        r is Ok ==> *final(idx) < tokens@.len(),
{
    let n = tokens.len();
    let start = *idx;
    *idx = *idx + 1;
    let register = match parsers::Register::parse(idx, tokens) {
        Ok(node) => node,
        Err(err) => return Err(err),
    };
    *idx = *idx + 1;
    let value = match parsers::Label::parse(idx, tokens) {
        Ok(node) => node,
        Err(err) => return Err(err),
    };
    let full = instruction_span(crate::parse::extract_segment(&tokens[start]), crate::parse::extract_segment(&tokens[*idx]));
    Ok(two_operands(Instruction::LoadAddress, full, register, value))
}

/// `li reg, number`, with the mnemonic at `*idx`.
pub fn parse_li(idx: &mut usize, tokens: &Vec<Token>) -> (r: Result<ASTNode<Symbol>, errors::Diagnostic>)
    requires
        *old(idx) < tokens@.len(),
    ensures
        parsed(r, *old(idx), *final(idx)) == li_spec(token_views(tokens@), *old(idx) as int),
        *old(idx) <= *final(idx),
        r is Ok ==> *final(idx) < tokens@.len(),
{
    let n = tokens.len();
    let start = *idx;
    *idx = *idx + 1;
    let register = match parsers::Register::parse(idx, tokens) {
        Ok(node) => node,
        Err(err) => return Err(err),
    };
    *idx = *idx + 1;
    let value = match parsers::NumberLiteral::parse(idx, tokens) {
        Ok(node) => node,
        Err(err) => return Err(err),
    };
    let full = instruction_span(crate::parse::extract_segment(&tokens[start]), crate::parse::extract_segment(&tokens[*idx]));
    Ok(two_operands(Instruction::LoadImmediate, full, register, value))
}

} // verus!

verus! {

/// Arity of `li`: followed by a register and a number literal, it becomes an
/// instruction node with exactly those two operands as children, spanning
/// from the mnemonic through the number; with the number missing at the end
/// of the tokens, it fails with a parse error that asks for a number literal,
/// leaving the cursor where the number was wanted.
pub proof fn lemma_load_immediate_arity(toks: Seq<TokenView>, i: int)
    requires
        0 <= i,
        i + 1 < toks.len(),
        toks[i] is Identifier,
        toks[i]->Identifier_0 == "li"@,
        toks[i + 1] is Register,
        register_named(toks[i + 1]->Register_0) is Some,
    ensures
        i + 2 < toks.len() && toks[i + 2] is NumberLiteral ==> parse_one_spec(toks, i) == Ok::<
            (NodeView<SymbolView>, nat),
            (ErrView, nat),
        >(
            (
                NodeView::Interior(
                    SymbolView::Instruction(
                        Instruction::LoadImmediate,
                        span_between(toks[i]->Identifier_1, toks[i + 2]->NumberLiteral_1),
                    ),
                    seq![
                        NodeView::Leaf(
                            SymbolView::Register(
                                register_named(toks[i + 1]->Register_0)->Some_0,
                                toks[i + 1]->Register_1,
                            ),
                        ),
                        NodeView::Leaf(
                            SymbolView::NumberLiteral(toks[i + 2]->NumberLiteral_0, toks[i + 2]->NumberLiteral_1),
                        ),
                    ],
                ),
                2,
            ),
        ),
        i + 2 == toks.len() ==> parse_one_spec(toks, i) == Err::<(NodeView<SymbolView>, nat), (ErrView, nat)>(
            (unexpected(toks, i + 2, "Expected number literal."@), 2),
        ),
{
}

} // verus!
