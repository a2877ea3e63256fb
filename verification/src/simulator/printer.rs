//! The text of an instruction, as the parser reads it back.

use crate::simulator::lexer::{
    decimal, digits, immediate_of, is_digit, is_space, label_of, lemma_words_after_word,
    lemma_words_of_word, register_of, solid, uppers, words,
};
use crate::simulator::parser::parse_line;
use crate::simulator::{Error, Instructions, InstructionsView};
use vstd::prelude::*;
use vstd::string::StringExecFns;

verus! {

/// The character that writes the digit `d`.
pub open spec fn digit_char(d: nat) -> char
    recommends
        d < 10,
{
    if d == 0 {
        '0'
    } else if d == 1 {
        '1'
    } else if d == 2 {
        '2'
    } else if d == 3 {
        '3'
    } else if d == 4 {
        '4'
    } else if d == 5 {
        '5'
    } else if d == 6 {
        '6'
    } else if d == 7 {
        '7'
    } else if d == 8 {
        '8'
    } else {
        '9'
    }
}

/// The digits that write `n` in base ten, without leading zeros.
pub open spec fn decimal_text(n: nat) -> Seq<char>
    decreases n,
{
    if n < 10 {
        seq![digit_char(n)]
    } else {
        decimal_text(n / 10).push(digit_char(n % 10))
    }
}

/// The text of a register operand: `$` and its number.
pub open spec fn register_text(r: usize) -> Seq<char> {
    seq!['$'] + decimal_text(r as nat)
}

/// The text of an immediate: its digits, after `-` if it is negative.
pub open spec fn immediate_text(v: i32) -> Seq<char> {
    if v < 0 {
        seq!['-'] + decimal_text((-v) as nat)
    } else {
        decimal_text(v as nat)
    }
}

/// The text of a label operand: `@` and the name.
pub open spec fn label_text(name: Seq<char>) -> Seq<char> {
    seq!['@'] + name
}

/// The words joined by single spaces.
pub open spec fn join(parts: Seq<Seq<char>>) -> Seq<char>
    decreases parts.len(),
{
    if parts.len() == 0 {
        Seq::empty()
    } else if parts.len() == 1 {
        parts[0]
    } else {
        parts[0] + seq![' '] + join(parts.drop_first())
    }
}

/// The words that write an instruction: its mnemonic and its operands. The
/// two placeholders have no text of their own in the language; they are
/// written by their names.
pub open spec fn parts_of(instruction: InstructionsView) -> Seq<Seq<char>> {
    match instruction {
        InstructionsView::LI(a, v) => seq!["LI"@, register_text(a), immediate_text(v)],
        InstructionsView::MOVE(a, b) => seq!["MOVE"@, register_text(a), register_text(b)],
        InstructionsView::ADD(a, b, c) => seq![
            "ADD"@,
            register_text(a),
            register_text(b),
            register_text(c),
        ],
        InstructionsView::SUB(a, b, c) => seq![
            "SUB"@,
            register_text(a),
            register_text(b),
            register_text(c),
        ],
        InstructionsView::MUL(a, b, c) => seq![
            "MUL"@,
            register_text(a),
            register_text(b),
            register_text(c),
        ],
        InstructionsView::DIV(a, b, c) => seq![
            "DIV"@,
            register_text(a),
            register_text(b),
            register_text(c),
        ],
        InstructionsView::REM(a, b, c) => seq![
            "REM"@,
            register_text(a),
            register_text(b),
            register_text(c),
        ],
        InstructionsView::PRINT(a) => seq!["PRINT"@, register_text(a)],
        InstructionsView::EXIT => seq!["EXIT"@],
        InstructionsView::SKIP => seq!["SKIP"@],
        InstructionsView::LABEL => seq!["LABEL"@],
        InstructionsView::JUMP(l) => seq!["JUMP"@, label_text(l)],
        InstructionsView::BEQ(a, b, l) => seq![
            "BEQ"@,
            register_text(a),
            register_text(b),
            label_text(l),
        ],
        InstructionsView::BNE(a, b, l) => seq![
            "BNE"@,
            register_text(a),
            register_text(b),
            label_text(l),
        ],
        InstructionsView::BLT(a, b, l) => seq![
            "BLT"@,
            register_text(a),
            register_text(b),
            label_text(l),
        ],
        InstructionsView::BLE(a, b, l) => seq![
            "BLE"@,
            register_text(a),
            register_text(b),
            label_text(l),
        ],
        InstructionsView::BGT(a, b, l) => seq![
            "BGT"@,
            register_text(a),
            register_text(b),
            label_text(l),
        ],
        InstructionsView::BGE(a, b, l) => seq![
            "BGE"@,
            register_text(a),
            register_text(b),
            label_text(l),
        ],
    }
}

/// The text of an instruction: its words with a space between them.
pub open spec fn text_of(instruction: InstructionsView) -> Seq<char> {
    join(parts_of(instruction))
}

/// The text that writes the digit `d`.
fn digit_text(d: u64) -> (text: &'static str)
    requires
        d < 10,
    ensures
        text@ == seq![digit_char(d as nat)],
{
    proof {
        reveal_strlit("0");
        reveal_strlit("1");
        reveal_strlit("2");
        reveal_strlit("3");
        reveal_strlit("4");
        reveal_strlit("5");
        reveal_strlit("6");
        reveal_strlit("7");
        reveal_strlit("8");
        reveal_strlit("9");
    }
    if d == 0 {
        "0"
    } else if d == 1 {
        "1"
    } else if d == 2 {
        "2"
    } else if d == 3 {
        "3"
    } else if d == 4 {
        "4"
    } else if d == 5 {
        "5"
    } else if d == 6 {
        "6"
    } else if d == 7 {
        "7"
    } else if d == 8 {
        "8"
    } else {
        "9"
    }
}

/// Writes `n` in base ten.
pub fn write_number(n: u64) -> (text: String)
    ensures
        text@ == decimal_text(n as nat),
    decreases n,
{
    if n < 10 {
        String::from_str(digit_text(n))
    } else {
        let mut text = write_number(n / 10);
        text.append(digit_text(n % 10));
        text
    }
}

/// Writes a register operand.
pub fn write_register(r: usize) -> (text: String)
    ensures
        text@ == register_text(r),
{
    proof {
        reveal_strlit("$");
    }
    String::from_str("$").concat(write_number(r as u64).as_str())
}

/// Writes an immediate.
pub fn write_immediate(v: i32) -> (text: String)
    ensures
        text@ == immediate_text(v),
{
    if v < 0 {
        proof {
            reveal_strlit("-");
        }
        let magnitude: u64 = (-(v as i64)) as u64;
        String::from_str("-").concat(write_number(magnitude).as_str())
    } else {
        write_number(v as u64)
    }
}

/// Writes a label operand.
pub fn write_label(name: &str) -> (text: String)
    ensures
        text@ == label_text(name@),
{
    proof {
        reveal_strlit("@");
    }
    String::from_str("@").concat(name)
}

/// Appends a space and `word` to `text`.
fn push_word(text: &mut String, word: &str)
    ensures
        final(text)@ == old(text)@ + seq![' '] + word@,
{
    proof {
        reveal_strlit(" ");
    }
    text.append(" ");
    text.append(word);
}

/// The text of a mnemonic and one operand.
fn write_two(mnemonic: &str, a: String) -> (text: String)
    ensures
        text@ == join(seq![mnemonic@, a@]),
{
    let mut text = String::from_str(mnemonic);
    push_word(&mut text, a.as_str());
    proof {
        lemma_join(seq![mnemonic@, a@]);
    }
    text
}

/// The text of a mnemonic and two operands.
fn write_three(mnemonic: &str, a: String, b: String) -> (text: String)
    ensures
        text@ == join(seq![mnemonic@, a@, b@]),
{
    let mut text = String::from_str(mnemonic);
    push_word(&mut text, a.as_str());
    push_word(&mut text, b.as_str());
    proof {
        lemma_join(seq![mnemonic@, a@, b@]);
        assert(seq![mnemonic@, a@, b@].drop_first() =~= seq![a@, b@]);
        lemma_join(seq![a@, b@]);
    }
    text
}

/// The text of a mnemonic and three operands.
fn write_four(mnemonic: &str, a: String, b: String, c: String) -> (text: String)
    ensures
        text@ == join(seq![mnemonic@, a@, b@, c@]),
{
    let mut text = String::from_str(mnemonic);
    push_word(&mut text, a.as_str());
    push_word(&mut text, b.as_str());
    push_word(&mut text, c.as_str());
    proof {
        lemma_join(seq![mnemonic@, a@, b@, c@]);
        assert(seq![mnemonic@, a@, b@, c@].drop_first() =~= seq![a@, b@, c@]);
        lemma_join(seq![a@, b@, c@]);
        assert(seq![a@, b@, c@].drop_first() =~= seq![b@, c@]);
        lemma_join(seq![b@, c@]);
    }
    text
}

/// What `join` is, one step at a time.
pub proof fn lemma_join(parts: Seq<Seq<char>>)
    ensures
        parts.len() == 0 ==> join(parts) == Seq::<char>::empty(),
        parts.len() == 1 ==> join(parts) == parts[0],
        parts.len() > 1 ==> join(parts) == parts[0] + seq![' '] + join(parts.drop_first()),
{
}

impl Instructions {
    /// The text of the instruction: its mnemonic and its operands with a
    /// space between them.
    pub fn to_text(&self) -> (text: String)
        ensures
            text@ == text_of(self@),
    {
        match self {
            Instructions::LI(a, v) => write_three("LI", write_register(*a), write_immediate(*v)),
            Instructions::MOVE(a, b) => write_three(
                "MOVE",
                write_register(*a),
                write_register(*b),
            ),
            Instructions::ADD(a, b, c) => write_four(
                "ADD",
                write_register(*a),
                write_register(*b),
                write_register(*c),
            ),
            Instructions::SUB(a, b, c) => write_four(
                "SUB",
                write_register(*a),
                write_register(*b),
                write_register(*c),
            ),
            Instructions::MUL(a, b, c) => write_four(
                "MUL",
                write_register(*a),
                write_register(*b),
                write_register(*c),
            ),
            Instructions::DIV(a, b, c) => write_four(
                "DIV",
                write_register(*a),
                write_register(*b),
                write_register(*c),
            ),
            Instructions::REM(a, b, c) => write_four(
                "REM",
                write_register(*a),
                write_register(*b),
                write_register(*c),
            ),
            Instructions::PRINT(a) => write_two("PRINT", write_register(*a)),
            Instructions::EXIT => String::from_str("EXIT"),
            Instructions::SKIP => String::from_str("SKIP"),
            Instructions::LABEL => String::from_str("LABEL"),
            Instructions::JUMP(l) => write_two("JUMP", write_label(l.as_str())),
            Instructions::BEQ(a, b, l) => write_four(
                "BEQ",
                write_register(*a),
                write_register(*b),
                write_label(l.as_str()),
            ),
            Instructions::BNE(a, b, l) => write_four(
                "BNE",
                write_register(*a),
                write_register(*b),
                write_label(l.as_str()),
            ),
            Instructions::BLT(a, b, l) => write_four(
                "BLT",
                write_register(*a),
                write_register(*b),
                write_label(l.as_str()),
            ),
            Instructions::BLE(a, b, l) => write_four(
                "BLE",
                write_register(*a),
                write_register(*b),
                write_label(l.as_str()),
            ),
            Instructions::BGT(a, b, l) => write_four(
                "BGT",
                write_register(*a),
                write_register(*b),
                write_label(l.as_str()),
            ),
            Instructions::BGE(a, b, l) => write_four(
                "BGE",
                write_register(*a),
                write_register(*b),
                write_label(l.as_str()),
            ),
        }
    }
}

/// The digits that write a number are digits, hold no whitespace, and write
/// that number.
pub proof fn lemma_decimal_text(n: nat)
    ensures
        digits(decimal_text(n)),
        decimal(decimal_text(n)) == n,
        solid(decimal_text(n)),
    decreases n,
{
    if n < 10 {
        let s = seq![digit_char(n)];
        assert(decimal(s.drop_last()) == 0);
    } else {
        lemma_decimal_text(n / 10);
        let front = decimal_text(n / 10);
        let s = front.push(digit_char(n % 10));
        assert(s.drop_last() =~= front);
        assert forall|i: int| 0 <= i < s.len() implies is_digit(#[trigger] s[i]) && !is_space(
            s[i],
        ) by {}
    }
}

/// The text of a register operand is one word, and names that register.
pub proof fn lemma_register_text(r: usize)
    ensures
        register_of(register_text(r)) == Some(r),
        solid(register_text(r)),
        register_text(r).len() > 0,
{
    lemma_decimal_text(r as nat);
    let t = register_text(r);
    assert(t.skip(1) =~= decimal_text(r as nat));
    assert forall|i: int| 0 <= i < t.len() implies !is_space(#[trigger] t[i]) by {}
}

/// The text of an immediate is one word, and writes that immediate.
pub proof fn lemma_immediate_text(v: i32)
    ensures
        immediate_of(immediate_text(v)) == Some(v),
        solid(immediate_text(v)),
        immediate_text(v).len() > 0,
{
    let t = immediate_text(v);
    if v < 0 {
        let body = decimal_text((-v) as nat);
        lemma_decimal_text((-v) as nat);
        assert(t.skip(1) =~= body);
        assert forall|i: int| 0 <= i < t.len() implies !is_space(#[trigger] t[i]) by {}
    } else {
        lemma_decimal_text(v as nat);
    }
}

/// The text of a label operand whose name is in capital letters is one
/// word, and refers to that label.
pub proof fn lemma_label_text(name: Seq<char>)
    requires
        uppers(name),
    ensures
        label_of(label_text(name)) == Some(name),
        solid(label_text(name)),
        label_text(name).len() > 0,
{
    let t = label_text(name);
    assert forall|i: int| 0 <= i < t.len() implies !is_space(#[trigger] t[i]) by {
        if i > 0 {
            assert(t[i] == name[i - 1]);
        }
    }
}

/// Words joined by spaces split into the same words again.
pub proof fn lemma_words_of_join(parts: Seq<Seq<char>>)
    requires
        forall|k: int| 0 <= k < parts.len() ==> (#[trigger] parts[k]).len() > 0 && solid(parts[k]),
    ensures
        words(join(parts)) == parts,
    decreases parts.len(),
{
    if parts.len() == 1 {
        lemma_words_of_word(parts[0]);
    } else if parts.len() > 1 {
        let rest = parts.drop_first();
        assert forall|k: int| 0 <= k < rest.len() implies (#[trigger] rest[k]).len() > 0 && solid(
            rest[k],
        ) by {}
        lemma_words_of_join(rest);
        lemma_words_after_word(parts[0], ' ', join(rest));
    }
}

/// Whether an instruction has a text that the parser reads: it is none of
/// the two placeholders, and the label it names, if any, is written in
/// capital letters.
pub open spec fn printable(instruction: InstructionsView) -> bool {
    match instruction {
        InstructionsView::SKIP | InstructionsView::LABEL => false,
        InstructionsView::JUMP(l) => uppers(l),
        InstructionsView::BEQ(_, _, l) => uppers(l),
        InstructionsView::BNE(_, _, l) => uppers(l),
        InstructionsView::BLT(_, _, l) => uppers(l),
        InstructionsView::BLE(_, _, l) => uppers(l),
        InstructionsView::BGT(_, _, l) => uppers(l),
        InstructionsView::BGE(_, _, l) => uppers(l),
        _ => true,
    }
}

/// Whether `w` is one of the sixteen mnemonics.
pub open spec fn is_mnemonic(w: Seq<char>) -> bool {
    ||| w == "LI"@
    ||| w == "MOVE"@
    ||| w == "ADD"@
    ||| w == "SUB"@
    ||| w == "MUL"@
    ||| w == "DIV"@
    ||| w == "REM"@
    ||| w == "PRINT"@
    ||| w == "EXIT"@
    ||| w == "JUMP"@
    ||| w == "BEQ"@
    ||| w == "BNE"@
    ||| w == "BLT"@
    ||| w == "BLE"@
    ||| w == "BGT"@
    ||| w == "BGE"@
}

/// A mnemonic is a word of capital letters.
pub proof fn lemma_mnemonic(w: Seq<char>)
    requires
        is_mnemonic(w),
    ensures
        uppers(w),
        solid(w),
        label_of(w) is None,
{
    reveal_strlit("LI");
    reveal_strlit("MOVE");
    reveal_strlit("ADD");
    reveal_strlit("SUB");
    reveal_strlit("MUL");
    reveal_strlit("DIV");
    reveal_strlit("REM");
    reveal_strlit("PRINT");
    reveal_strlit("EXIT");
    reveal_strlit("JUMP");
    reveal_strlit("BEQ");
    reveal_strlit("BNE");
    reveal_strlit("BLT");
    reveal_strlit("BLE");
    reveal_strlit("BGT");
    reveal_strlit("BGE");
}

/// The place of a mnemonic in the list of the sixteen, from 0; 16 for any
/// other word.
pub open spec fn mnemonic_number(w: Seq<char>) -> int {
    if w == "LI"@ {
        0
    } else if w == "MOVE"@ {
        1
    } else if w == "ADD"@ {
        2
    } else if w == "SUB"@ {
        3
    } else if w == "MUL"@ {
        4
    } else if w == "DIV"@ {
        5
    } else if w == "REM"@ {
        6
    } else if w == "PRINT"@ {
        7
    } else if w == "EXIT"@ {
        8
    } else if w == "JUMP"@ {
        9
    } else if w == "BEQ"@ {
        10
    } else if w == "BNE"@ {
        11
    } else if w == "BLT"@ {
        12
    } else if w == "BLE"@ {
        13
    } else if w == "BGT"@ {
        14
    } else if w == "BGE"@ {
        15
    } else {
        16
    }
}

/// The sixteen mnemonics are sixteen different words.
pub proof fn lemma_mnemonics_differ()
    ensures
        mnemonic_number("LI"@) == 0,
        mnemonic_number("MOVE"@) == 1,
        mnemonic_number("ADD"@) == 2,
        mnemonic_number("SUB"@) == 3,
        mnemonic_number("MUL"@) == 4,
        mnemonic_number("DIV"@) == 5,
        mnemonic_number("REM"@) == 6,
        mnemonic_number("PRINT"@) == 7,
        mnemonic_number("EXIT"@) == 8,
        mnemonic_number("JUMP"@) == 9,
        mnemonic_number("BEQ"@) == 10,
        mnemonic_number("BNE"@) == 11,
        mnemonic_number("BLT"@) == 12,
        mnemonic_number("BLE"@) == 13,
        mnemonic_number("BGT"@) == 14,
        mnemonic_number("BGE"@) == 15,
{
    reveal_strlit("LI");
    reveal_strlit("MOVE");
    reveal_strlit("ADD");
    reveal_strlit("SUB");
    reveal_strlit("MUL");
    reveal_strlit("DIV");
    reveal_strlit("REM");
    reveal_strlit("PRINT");
    reveal_strlit("EXIT");
    reveal_strlit("JUMP");
    reveal_strlit("BEQ");
    reveal_strlit("BNE");
    reveal_strlit("BLT");
    reveal_strlit("BLE");
    reveal_strlit("BGT");
    reveal_strlit("BGE");
    assert("MOVE"@ =~= seq!['M', 'O', 'V', 'E']);
    assert("ADD"@ =~= seq!['A', 'D', 'D']);
    assert("SUB"@ =~= seq!['S', 'U', 'B']);
    assert("MUL"@ =~= seq!['M', 'U', 'L']);
    assert("DIV"@ =~= seq!['D', 'I', 'V']);
    assert("REM"@ =~= seq!['R', 'E', 'M']);
    assert("PRINT"@ =~= seq!['P', 'R', 'I', 'N', 'T']);
    assert("EXIT"@ =~= seq!['E', 'X', 'I', 'T']);
    assert("JUMP"@ =~= seq!['J', 'U', 'M', 'P']);
    assert("BEQ"@ =~= seq!['B', 'E', 'Q']);
    assert("BNE"@ =~= seq!['B', 'N', 'E']);
    assert("BLT"@ =~= seq!['B', 'L', 'T']);
    assert("BLE"@ =~= seq!['B', 'L', 'E']);
    assert("BGT"@ =~= seq!['B', 'G', 'T']);
    assert("BGE"@ =~= seq!['B', 'G', 'E']);
}

/// The parser reads the text of an instruction back as that instruction:
/// the words of the text are the mnemonic and the operands, and they parse
/// to the instruction.
#[verifier::rlimit(40)]
pub proof fn lemma_round_trip(instruction: InstructionsView)
    requires
        printable(instruction),
    ensures
        words(text_of(instruction)) == parts_of(instruction),
        parse_line(text_of(instruction)) == Ok::<InstructionsView, Error>(instruction),
{
    match instruction {
        InstructionsView::LI(a, v) => {
            lemma_register_text(a);
            lemma_immediate_text(v);
        },
        InstructionsView::MOVE(a, b) => {
            lemma_register_text(a);
            lemma_register_text(b);
        },
        InstructionsView::ADD(a, b, c)
        | InstructionsView::SUB(a, b, c)
        | InstructionsView::MUL(a, b, c)
        | InstructionsView::DIV(a, b, c)
        | InstructionsView::REM(a, b, c) => {
            lemma_register_text(a);
            lemma_register_text(b);
            lemma_register_text(c);
        },
        InstructionsView::PRINT(a) => {
            lemma_register_text(a);
        },
        InstructionsView::JUMP(l) => {
            lemma_label_text(l);
        },
        InstructionsView::BEQ(a, b, l)
        | InstructionsView::BNE(a, b, l)
        | InstructionsView::BLT(a, b, l)
        | InstructionsView::BLE(a, b, l)
        | InstructionsView::BGT(a, b, l)
        | InstructionsView::BGE(a, b, l) => {
            lemma_register_text(a);
            lemma_register_text(b);
            lemma_label_text(l);
        },
        _ => {},
    }
    lemma_mnemonic(parts_of(instruction)[0]);
    lemma_words_of_join(parts_of(instruction));
    lemma_mnemonics_differ();
}

} // verus!
