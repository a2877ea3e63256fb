//! The grammar of the instruction language, and the parser that reads one
//! line of it.

use crate::simulator::labels::Labels;
use crate::simulator::lexer::{immediate_of, label_of, opens_comment, register_of, words, Line};
use crate::simulator::machine::{within, Machine};
use crate::simulator::{Error, Instructions, InstructionsView, Simulator};
use vstd::prelude::*;

verus! {

/// Whether a line holds nothing to execute: it is empty but for whitespace,
/// or the first thing on it is a comment, which `//` opens.
pub open spec fn is_blank_or_comment(s: Seq<char>) -> bool {
    words(s).len() == 0 || opens_comment(words(s)[0])
}

/// The name that a line declares, if it is a label declaration: one word,
/// `@` followed by capital letters.
pub open spec fn declared_label(s: Seq<char>) -> Option<Seq<char>> {
    if words(s).len() == 1 {
        label_of(words(s)[0])
    } else {
        None
    }
}

/// The operands of `LI`: a register and an immediate.
pub open spec fn li_operands(w: Seq<Seq<char>>) -> Option<(usize, i32)> {
    if w.len() == 3 && register_of(w[1]) is Some && immediate_of(w[2]) is Some {
        Some((register_of(w[1])->0, immediate_of(w[2])->0))
    } else {
        None
    }
}

/// The operands of `MOVE`: two registers.
pub open spec fn move_operands(w: Seq<Seq<char>>) -> Option<(usize, usize)> {
    if w.len() == 3 && register_of(w[1]) is Some && register_of(w[2]) is Some {
        Some((register_of(w[1])->0, register_of(w[2])->0))
    } else {
        None
    }
}

/// The operands of `ADD`, `SUB`, `MUL`, `DIV` and `REM`: three registers.
pub open spec fn arithmetic_operands(w: Seq<Seq<char>>) -> Option<(usize, usize, usize)> {
    if w.len() == 4 && register_of(w[1]) is Some && register_of(w[2]) is Some && register_of(
        w[3],
    ) is Some {
        Some((register_of(w[1])->0, register_of(w[2])->0, register_of(w[3])->0))
    } else {
        None
    }
}

/// The operand of `PRINT`: a register.
pub open spec fn print_operand(w: Seq<Seq<char>>) -> Option<usize> {
    if w.len() == 2 {
        register_of(w[1])
    } else {
        None
    }
}

/// The operand of `JUMP`: a label.
pub open spec fn jump_operand(w: Seq<Seq<char>>) -> Option<Seq<char>> {
    if w.len() == 2 {
        label_of(w[1])
    } else {
        None
    }
}

/// The operands of `BEQ`, `BNE`, `BLT`, `BLE`, `BGT` and `BGE`: two registers
/// and a label.
pub open spec fn branch_operands(w: Seq<Seq<char>>) -> Option<(usize, usize, Seq<char>)> {
    if w.len() == 4 && register_of(w[1]) is Some && register_of(w[2]) is Some && label_of(w[3])
        is Some {
        Some((register_of(w[1])->0, register_of(w[2])->0, label_of(w[3])->0))
    } else {
        None
    }
}

/// What a line of source text means. A label declaration stands for the
/// placeholder that keeps its address. Otherwise the first word must be a
/// mnemonic, written in capitals, and the words after it the operands that
/// the mnemonic takes, no more and no fewer.
pub open spec fn parse_line(s: Seq<char>) -> Result<InstructionsView, Error> {
    let w = words(s);
    if w.len() == 0 {
        Err(Error::InvalidInstruction)
    } else if declared_label(s) is Some {
        Ok(InstructionsView::LABEL)
    } else if w[0] == "LI"@ {
        match li_operands(w) {
            Some((a, v)) => Ok(InstructionsView::LI(a, v)),
            None => Err(Error::InvalidParameter),
        }
    } else if w[0] == "MOVE"@ {
        match move_operands(w) {
            Some((a, b)) => Ok(InstructionsView::MOVE(a, b)),
            None => Err(Error::InvalidParameter),
        }
    } else if w[0] == "ADD"@ {
        match arithmetic_operands(w) {
            Some((a, b, c)) => Ok(InstructionsView::ADD(a, b, c)),
            None => Err(Error::InvalidParameter),
        }
    } else if w[0] == "SUB"@ {
        match arithmetic_operands(w) {
            Some((a, b, c)) => Ok(InstructionsView::SUB(a, b, c)),
            None => Err(Error::InvalidParameter),
        }
    } else if w[0] == "MUL"@ {
        match arithmetic_operands(w) {
            Some((a, b, c)) => Ok(InstructionsView::MUL(a, b, c)),
            None => Err(Error::InvalidParameter),
        }
    } else if w[0] == "DIV"@ {
        match arithmetic_operands(w) {
            Some((a, b, c)) => Ok(InstructionsView::DIV(a, b, c)),
            None => Err(Error::InvalidParameter),
        }
    } else if w[0] == "REM"@ {
        match arithmetic_operands(w) {
            Some((a, b, c)) => Ok(InstructionsView::REM(a, b, c)),
            None => Err(Error::InvalidParameter),
        }
    } else if w[0] == "PRINT"@ {
        match print_operand(w) {
            Some(a) => Ok(InstructionsView::PRINT(a)),
            None => Err(Error::InvalidParameter),
        }
    } else if w[0] == "EXIT"@ {
        if w.len() == 1 {
            Ok(InstructionsView::EXIT)
        } else {
            Err(Error::InvalidParameter)
        }
    } else if w[0] == "JUMP"@ {
        match jump_operand(w) {
            Some(l) => Ok(InstructionsView::JUMP(l)),
            None => Err(Error::InvalidParameter),
        }
    } else if w[0] == "BEQ"@ {
        match branch_operands(w) {
            Some((a, b, l)) => Ok(InstructionsView::BEQ(a, b, l)),
            None => Err(Error::InvalidParameter),
        }
    } else if w[0] == "BNE"@ {
        match branch_operands(w) {
            Some((a, b, l)) => Ok(InstructionsView::BNE(a, b, l)),
            None => Err(Error::InvalidParameter),
        }
    } else if w[0] == "BLT"@ {
        match branch_operands(w) {
            Some((a, b, l)) => Ok(InstructionsView::BLT(a, b, l)),
            None => Err(Error::InvalidParameter),
        }
    } else if w[0] == "BLE"@ {
        match branch_operands(w) {
            Some((a, b, l)) => Ok(InstructionsView::BLE(a, b, l)),
            None => Err(Error::InvalidParameter),
        }
    } else if w[0] == "BGT"@ {
        match branch_operands(w) {
            Some((a, b, l)) => Ok(InstructionsView::BGT(a, b, l)),
            None => Err(Error::InvalidParameter),
        }
    } else if w[0] == "BGE"@ {
        match branch_operands(w) {
            Some((a, b, l)) => Ok(InstructionsView::BGE(a, b, l)),
            None => Err(Error::InvalidParameter),
        }
    } else {
        Err(Error::InvalidInstruction)
    }
}

/// The texts of source lines.
pub open spec fn texts(lines: Seq<String>) -> Seq<Seq<char>> {
    lines.map_values(|line: String| line@)
}

/// The lines that are left once the blank lines and the comments are taken
/// out. The address of an instruction is the place of its line among these.
pub open spec fn strip(lines: Seq<Seq<char>>) -> Seq<Seq<char>> {
    lines.filter(|line: Seq<char>| !is_blank_or_comment(line))
}

/// The label table of a program text: each declared name with the address of
/// its declaration. Where a name is declared more than once, the last
/// declaration counts.
pub open spec fn label_table(lines: Seq<Seq<char>>) -> Map<Seq<char>, usize>
    decreases lines.len(),
{
    if lines.len() == 0 {
        Map::empty()
    } else {
        let earlier = label_table(lines.drop_last());
        match declared_label(lines.last()) {
            Some(name) => earlier.insert(name, (lines.len() - 1) as usize),
            None => earlier,
        }
    }
}

/// The program that a text stands for, one instruction for each line, or
/// the error of the first line that is none.
pub open spec fn assemble(lines: Seq<Seq<char>>) -> Result<Seq<InstructionsView>, Error>
    decreases lines.len(),
{
    if lines.len() == 0 {
        Ok(Seq::empty())
    } else {
        match assemble(lines.drop_last()) {
            Ok(program) => match parse_line(lines.last()) {
                Ok(instruction) => Ok(program.push(instruction)),
                Err(e) => Err(e),
            },
            Err(e) => Err(e),
        }
    }
}

/// The machine `m` with the program of `lines` in place of its own, and the
/// instruction pointer at the first address. The registers stay.
pub open spec fn loaded(m: Machine, lines: Seq<Seq<char>>) -> Result<Machine, Error> {
    match assemble(lines) {
        Ok(program) => Ok(
            Machine {
                registers: m.registers,
                counter: 0,
                labels: label_table(lines),
                instructions: program,
            },
        ),
        Err(e) => Err(e),
    }
}

/// A program has one instruction for each line of its text: that which the
/// line stands for.
pub proof fn lemma_assemble_lines(lines: Seq<Seq<char>>)
    ensures
        match assemble(lines) {
            Ok(program) => {
                &&& program.len() == lines.len()
                &&& forall|i: int|
                    0 <= i < lines.len() ==> parse_line(#[trigger] lines[i]) == Ok::<
                        InstructionsView,
                        Error,
                    >(program[i])
            },
            Err(e) => exists|i: int|
                {
                    &&& 0 <= i < lines.len()
                    &&& parse_line(#[trigger] lines[i]) == Err::<InstructionsView, Error>(e)
                    &&& forall|j: int| 0 <= j < i ==> parse_line(#[trigger] lines[j]) is Ok
                },
        },
    decreases lines.len(),
{
    if lines.len() > 0 {
        let front = lines.drop_last();
        lemma_assemble_lines(front);
        assert forall|j: int| 0 <= j < front.len() implies #[trigger] lines[j] == front[j] by {}
        if let Err(e) = assemble(front) {
            let i = choose|i: int|
                {
                    &&& 0 <= i < front.len()
                    &&& parse_line(#[trigger] front[i]) == Err::<InstructionsView, Error>(e)
                    &&& forall|j: int| 0 <= j < i ==> parse_line(#[trigger] front[j]) is Ok
                };
            assert(lines[i] == front[i]);
        }
    }
}

/// Whether line `i` is the first line of the text that is no instruction,
/// and `e` its error.
pub open spec fn first_error(lines: Seq<Seq<char>>, i: int, e: Error) -> bool {
    &&& 0 <= i < lines.len()
    &&& parse_line(lines[i]) == Err::<InstructionsView, Error>(e)
    &&& forall|j: int| 0 <= j < i ==> parse_line(#[trigger] lines[j]) is Ok
}

/// A text fails to assemble with the error of its first line that is no
/// instruction.
pub proof fn lemma_assemble_first_error(lines: Seq<Seq<char>>, i: int, e: Error)
    requires
        first_error(lines, i, e),
    ensures
        assemble(lines) == Err::<Seq<InstructionsView>, Error>(e),
{
    lemma_assemble_lines(lines);
}

/// An error in the first `k` lines of a text is the error of the whole.
pub proof fn lemma_assemble_stops(lines: Seq<Seq<char>>, k: int)
    requires
        0 <= k <= lines.len(),
        assemble(lines.take(k)) is Err,
    ensures
        assemble(lines) == assemble(lines.take(k)),
    decreases lines.len() - k,
{
    if k < lines.len() {
        assert(lines.take(k + 1).drop_last() =~= lines.take(k));
        lemma_assemble_stops(lines, k + 1);
    } else {
        assert(lines.take(k) =~= lines);
    }
}

/// A label table binds exactly the names that the text declares, each to
/// the address of its last declaration, which is a line of the text.
pub proof fn lemma_label_table(lines: Seq<Seq<char>>)
    requires
        lines.len() <= usize::MAX,
    ensures
        within(label_table(lines), lines.len()),
        forall|name: Seq<char>| #[trigger]
            label_table(lines).contains_key(name) <==> exists|i: int|
                0 <= i < lines.len() && declared_label(#[trigger] lines[i]) == Some(name),
        forall|name: Seq<char>| #[trigger]
            label_table(lines).contains_key(name) ==> {
                let address = label_table(lines)[name] as int;
                &&& 0 <= address < lines.len()
                &&& declared_label(lines[address]) == Some(name)
                &&& forall|j: int|
                    address < j < lines.len() ==> declared_label(#[trigger] lines[j]) != Some(
                        name,
                    )
            },
    decreases lines.len(),
{
    if lines.len() > 0 {
        let front = lines.drop_last();
        lemma_label_table(front);
        assert forall|j: int| 0 <= j < front.len() implies #[trigger] lines[j] == front[j] by {}
    }
}

/// Reads one line of source text as an instruction.
pub fn parse_instruction(line: &str) -> (res: Result<Instructions, Error>)
    ensures
        match res {
            Ok(instruction) => parse_line(line@) == Ok::<InstructionsView, Error>(instruction@),
            Err(e) => parse_line(line@) == Err::<InstructionsView, Error>(e),
        },
{
    let line = Line::scan(line);
    if line.len() == 0 {
        Err(Error::InvalidInstruction)
    } else if line.len() == 1 && line.is_label(0) {
        Ok(Instructions::LABEL)
    } else if line.word_is(0, "LI") {
        let params = parse_li(&line)?;
        Ok(Instructions::LI(params.0, params.1))
    } else if line.word_is(0, "MOVE") {
        let params = parse_move(&line)?;
        Ok(Instructions::MOVE(params.0, params.1))
    } else if line.word_is(0, "ADD") {
        let params = parse_arithmetic(&line)?;
        Ok(Instructions::ADD(params.0, params.1, params.2))
    } else if line.word_is(0, "SUB") {
        let params = parse_arithmetic(&line)?;
        Ok(Instructions::SUB(params.0, params.1, params.2))
    } else if line.word_is(0, "MUL") {
        let params = parse_arithmetic(&line)?;
        Ok(Instructions::MUL(params.0, params.1, params.2))
    } else if line.word_is(0, "DIV") {
        let params = parse_arithmetic(&line)?;
        Ok(Instructions::DIV(params.0, params.1, params.2))
    } else if line.word_is(0, "REM") {
        let params = parse_arithmetic(&line)?;
        Ok(Instructions::REM(params.0, params.1, params.2))
    } else if line.word_is(0, "PRINT") {
        let params = parse_print(&line)?;
        Ok(Instructions::PRINT(params))
    } else if line.word_is(0, "EXIT") {
        if line.len() == 1 {
            Ok(Instructions::EXIT)
        } else {
            Err(Error::InvalidParameter)
        }
    } else if line.word_is(0, "JUMP") {
        let params = parse_jump(&line)?;
        Ok(Instructions::JUMP(params))
    } else if line.word_is(0, "BEQ") {
        let params = parser_cond_jump(&line)?;
        Ok(Instructions::BEQ(params.0, params.1, params.2))
    } else if line.word_is(0, "BNE") {
        let params = parser_cond_jump(&line)?;
        Ok(Instructions::BNE(params.0, params.1, params.2))
    } else if line.word_is(0, "BLT") {
        let params = parser_cond_jump(&line)?;
        Ok(Instructions::BLT(params.0, params.1, params.2))
    } else if line.word_is(0, "BLE") {
        let params = parser_cond_jump(&line)?;
        Ok(Instructions::BLE(params.0, params.1, params.2))
    } else if line.word_is(0, "BGT") {
        let params = parser_cond_jump(&line)?;
        Ok(Instructions::BGT(params.0, params.1, params.2))
    } else if line.word_is(0, "BGE") {
        let params = parser_cond_jump(&line)?;
        Ok(Instructions::BGE(params.0, params.1, params.2))
    } else {
        Err(Error::InvalidInstruction)
    }
}

/// Reads the operands of `LI`.
fn parse_li(line: &Line) -> (res: Result<(usize, i32), Error>)
    ensures
        res == (match li_operands(line.words()) {
            Some(operands) => Ok::<(usize, i32), Error>(operands),
            None => Err(Error::InvalidParameter),
        }),
{
    if line.len() != 3 {
        return Err(Error::InvalidParameter);
    }
    match (line.register(1), line.immediate(2)) {
        (Some(a), Some(b)) => Ok((a, b)),
        _ => Err(Error::InvalidParameter),
    }
}

/// Reads the operands of `MOVE`.
fn parse_move(line: &Line) -> (res: Result<(usize, usize), Error>)
    ensures
        res == (match move_operands(line.words()) {
            Some(operands) => Ok::<(usize, usize), Error>(operands),
            None => Err(Error::InvalidParameter),
        }),
{
    if line.len() != 3 {
        return Err(Error::InvalidParameter);
    }
    match (line.register(1), line.register(2)) {
        (Some(a), Some(b)) => Ok((a, b)),
        _ => Err(Error::InvalidParameter),
    }
}

/// Reads the operands of an arithmetic instruction.
fn parse_arithmetic(line: &Line) -> (res: Result<(usize, usize, usize), Error>)
    ensures
        res == (match arithmetic_operands(line.words()) {
            Some(operands) => Ok::<(usize, usize, usize), Error>(operands),
            None => Err(Error::InvalidParameter),
        }),
{
    if line.len() != 4 {
        return Err(Error::InvalidParameter);
    }
    match (line.register(1), line.register(2), line.register(3)) {
        (Some(a), Some(b), Some(c)) => Ok((a, b, c)),
        _ => Err(Error::InvalidParameter),
    }
}

/// Reads the operand of `PRINT`.
fn parse_print(line: &Line) -> (res: Result<usize, Error>)
    ensures
        res == (match print_operand(line.words()) {
            Some(operand) => Ok::<usize, Error>(operand),
            None => Err(Error::InvalidParameter),
        }),
{
    if line.len() != 2 {
        return Err(Error::InvalidParameter);
    }
    match line.register(1) {
        Some(a) => Ok(a),
        None => Err(Error::InvalidParameter),
    }
}

/// Reads the operand of `JUMP`.
fn parse_jump(line: &Line) -> (res: Result<String, Error>)
    ensures
        match res {
            Ok(name) => jump_operand(line.words()) == Some(name@),
            Err(e) => jump_operand(line.words()) is None && e == Error::InvalidParameter,
        },
{
    if line.len() != 2 {
        return Err(Error::InvalidParameter);
    }
    match line.label(1) {
        Some(name) => Ok(name),
        None => Err(Error::InvalidParameter),
    }
}

/// Reads the operands of a conditional jump.
fn parser_cond_jump(line: &Line) -> (res: Result<(usize, usize, String), Error>)
    ensures
        match res {
            Ok((a, b, name)) => branch_operands(line.words()) == Some((a, b, name@)),
            Err(e) => branch_operands(line.words()) is None && e == Error::InvalidParameter,
        },
{
    if line.len() != 4 {
        return Err(Error::InvalidParameter);
    }
    match (line.register(1), line.register(2), line.label(3)) {
        (Some(a), Some(b), Some(name)) => Ok((a, b, name)),
        _ => Err(Error::InvalidParameter),
    }
}

/// Whether a line holds nothing to execute.
pub fn blank_or_comment(line: &str) -> (b: bool)
    ensures
        b == is_blank_or_comment(line@),
{
    let line = Line::scan(line);
    line.len() == 0 || line.comment(0)
}

/// The name that a line declares, if it is a label declaration.
pub fn label_declaration(line: &str) -> (name: Option<String>)
    ensures
        match name {
            Some(name) => declared_label(line@) == Some(name@),
            None => declared_label(line@) is None,
        },
{
    let line = Line::scan(line);
    if line.len() == 1 {
        line.label(0)
    } else {
        None
    }
}

/// Returns the lines without the comments and the empty lines.
pub fn preprocess_lines(lines: &[String]) -> (container: Vec<String>)
    ensures
        texts(container@) == strip(texts(lines@)),
{
    let ghost all = texts(lines@);
    let ghost keep = |line: Seq<char>| !is_blank_or_comment(line);
    let mut container: Vec<String> = Vec::with_capacity(lines.len());
    let mut i: usize = 0;
    proof {
        reveal(Seq::filter);
    }
    while i < lines.len()
        invariant
            i <= lines.len(),
            all == texts(lines@),
            keep == (|line: Seq<char>| !is_blank_or_comment(line)),
            texts(container@) == all.take(i as int).filter(keep),
        decreases lines.len() - i,
    {
        proof {
            reveal(Seq::filter);
            assert(all.take(i + 1).drop_last() =~= all.take(i as int));
        }
        if !blank_or_comment(lines[i].as_str()) {
            container.push(lines[i].clone());
        }
        i += 1;
    }
    assert(all.take(i as int) =~= all);
    container
}

/// Builds the label table of a program text.
pub fn resolve_labels(lines: &[String]) -> (labels: Labels)
    ensures
        labels@ == label_table(texts(lines@)),
{
    let ghost all = texts(lines@);
    let mut labels = Labels::new();
    let mut i: usize = 0;
    while i < lines.len()
        invariant
            i <= lines.len(),
            all == texts(lines@),
            labels@ == label_table(all.take(i as int)),
        decreases lines.len() - i,
    {
        assert(all.take(i + 1).drop_last() =~= all.take(i as int));
        match label_declaration(lines[i].as_str()) {
            Some(name) => {
                labels.insert(name, i);
            },
            None => {},
        }
        i += 1;
    }
    assert(all.take(i as int) =~= all);
    labels
}

/// Finds the first line that is no instruction: its address and its error.
/// This is the line at which loading the text fails.
pub fn find_error(lines: &[String]) -> (res: Option<(usize, Error)>)
    ensures
        match res {
            Some((i, e)) => {
                &&& first_error(texts(lines@), i as int, e)
                &&& assemble(texts(lines@)) == Err::<Seq<InstructionsView>, Error>(e)
            },
            None => assemble(texts(lines@)) is Ok,
        },
{
    let ghost all = texts(lines@);
    let mut i: usize = 0;
    while i < lines.len()
        invariant
            i <= lines.len(),
            all == texts(lines@),
            forall|j: int| 0 <= j < i ==> parse_line(#[trigger] all[j]) is Ok,
        decreases lines.len() - i,
    {
        match parse_instruction(lines[i].as_str()) {
            Ok(_) => {},
            Err(e) => {
                proof {
                    lemma_assemble_first_error(all, i as int, e);
                }
                return Some((i, e));
            },
        }
        i += 1;
    }
    proof {
        lemma_assemble_lines(all);
    }
    None
}

/// Parses `lines` and puts their program and their labels into `sim`. Every
/// line must be an instruction or a label declaration: at the first that is
/// neither, this fails with its error and `sim` keeps what it had.
pub fn process_lines(lines: &[String], sim: &mut Simulator) -> (res: Result<(), Error>)
    requires
        old(sim).wf(),
    ensures
        final(sim).wf(),
        match loaded(old(sim)@, texts(lines@)) {
            Ok(machine) => res is Ok && final(sim)@ == machine,
            Err(e) => res == Err::<(), Error>(e) && final(sim)@ == old(sim)@,
        },
{
    let ghost all = texts(lines@);
    let labels = resolve_labels(lines);
    let mut instructions: Vec<Instructions> = Vec::with_capacity(lines.len());
    let mut i: usize = 0;
    assert(instructions@.map_values(|i: Instructions| i@) =~= Seq::<InstructionsView>::empty());
    while i < lines.len()
        invariant
            i <= lines.len(),
            all == texts(lines@),
            sim.wf(),
            sim@ == old(sim)@,
            assemble(all.take(i as int)) == Ok::<Seq<InstructionsView>, Error>(
                instructions@.map_values(|i: Instructions| i@),
            ),
        decreases lines.len() - i,
    {
        let ghost before = instructions@.map_values(|i: Instructions| i@);
        assert(all.take(i + 1).drop_last() =~= all.take(i as int));
        match parse_instruction(lines[i].as_str()) {
            Ok(instruction) => {
                instructions.push(instruction);
                assert(instructions@.map_values(|i: Instructions| i@) =~= before.push(
                    instruction@,
                ));
            },
            Err(e) => {
                proof {
                    lemma_assemble_stops(all, i + 1);
                }
                return Err(e);
            },
        }
        i += 1;
    }
    proof {
        assert(all.take(i as int) =~= all);
        lemma_assemble_lines(all);
        lemma_label_table(all);
    }
    sim.install(instructions, labels);
    Ok(())
}

} // verus!
