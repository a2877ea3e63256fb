//! What holds of the machine whatever program it runs.

use crate::simulator::labels::lookup;
use crate::simulator::machine::{
    compute, emitted, entry_label, holds, lemma_division, lemma_step_keeps, quotient, remainder,
    wrap, Arithmetic, Comparison, Machine, Run,
};
use crate::simulator::parser::{
    declared_label, lemma_assemble_lines, lemma_label_table, loaded, parse_line,
};
use crate::simulator::{Action, Error, InstructionsView, REGISTERS};
use vstd::prelude::*;

verus! {

/// Whether `r` is one of the register operands of `instruction`.
pub open spec fn references(instruction: InstructionsView, r: usize) -> bool {
    match instruction {
        InstructionsView::LI(a, _) => r == a,
        InstructionsView::MOVE(a, b) => r == a || r == b,
        InstructionsView::ADD(a, b, c) => r == a || r == b || r == c,
        InstructionsView::SUB(a, b, c) => r == a || r == b || r == c,
        InstructionsView::MUL(a, b, c) => r == a || r == b || r == c,
        InstructionsView::DIV(a, b, c) => r == a || r == b || r == c,
        InstructionsView::REM(a, b, c) => r == a || r == b || r == c,
        InstructionsView::PRINT(a) => r == a,
        InstructionsView::EXIT => false,
        InstructionsView::SKIP => false,
        InstructionsView::LABEL => false,
        InstructionsView::JUMP(_) => false,
        InstructionsView::BEQ(a, b, _) => r == a || r == b,
        InstructionsView::BNE(a, b, _) => r == a || r == b,
        InstructionsView::BLT(a, b, _) => r == a || r == b,
        InstructionsView::BLE(a, b, _) => r == a || r == b,
        InstructionsView::BGT(a, b, _) => r == a || r == b,
        InstructionsView::BGE(a, b, _) => r == a || r == b,
    }
}

/// Register 0 is wired to zero: a write to it, of any value, changes
/// nothing, and a read of it after a write to any register gives 0.
pub proof fn lemma_register_zero(m: Machine, r: usize, v: i32)
    requires
        m.wf(),
        r < REGISTERS,
    ensures
        m.write(0, v) == m,
        m.write(0, v).read(0) == 0,
        m.write(r, v).read(0) == 0,
        m.write(r, v).wf(),
{
}

/// An instruction that writes to register 0 leaves it at zero.
pub proof fn lemma_register_zero_by_instruction(m: Machine, v: i32, b: usize, c: usize)
    requires
        m.wf(),
        b < REGISTERS,
        c < REGISTERS,
    ensures
        m.execute(InstructionsView::LI(0, v)) == Ok::<(Action, Machine), Error>((Action::Next, m)),
        m.execute(InstructionsView::MOVE(0, b)) == Ok::<(Action, Machine), Error>(
            (Action::Next, m),
        ),
        m.execute(InstructionsView::ADD(0, b, c)) == Ok::<(Action, Machine), Error>(
            (Action::Next, m),
        ),
        m.execute(InstructionsView::SUB(0, b, c)) == Ok::<(Action, Machine), Error>(
            (Action::Next, m),
        ),
        m.execute(InstructionsView::MUL(0, b, c)) == Ok::<(Action, Machine), Error>(
            (Action::Next, m),
        ),
{
}

/// `wrap(v)` is the one signed 32-bit integer that differs from `v` by a
/// multiple of 2^32.
pub proof fn lemma_wrap(v: int, w: i32)
    ensures
        (wrap(v) - v) % 0x1_0000_0000 == 0,
        (w - v) % 0x1_0000_0000 == 0 ==> w == wrap(v),
        i32::MIN <= v <= i32::MAX ==> wrap(v) == v,
{
}

/// Sums, differences and products of register values wrap around: the
/// result is what the wrapping operations of `i32` give, the two's-complement
/// integer that differs from the exact result by a multiple of 2^32.
pub proof fn lemma_wrapping_arithmetic(x: i32, y: i32)
    ensures
        compute(Arithmetic::Add, x, y) == x.wrapping_add(y),
        compute(Arithmetic::Sub, x, y) == x.wrapping_sub(y),
        compute(Arithmetic::Mul, x, y) == x.wrapping_mul(y),
        (compute(Arithmetic::Add, x, y) - (x + y)) % 0x1_0000_0000 == 0,
        (compute(Arithmetic::Sub, x, y) - (x - y)) % 0x1_0000_0000 == 0,
        (compute(Arithmetic::Mul, x, y) - (x * y)) % 0x1_0000_0000 == 0,
        i32::MIN <= x + y <= i32::MAX ==> compute(Arithmetic::Add, x, y) == x + y,
        i32::MIN <= x - y <= i32::MAX ==> compute(Arithmetic::Sub, x, y) == x - y,
        i32::MIN <= x * y <= i32::MAX ==> compute(Arithmetic::Mul, x, y) == x * y,
{
    lemma_wrap(x + y, 0);
    lemma_wrap(x - y, 0);
    lemma_wrap(x * y, 0);
}

/// `ADD`, `SUB` and `MUL` on registers of the machine never fail for the
/// values that the registers hold: the first register takes the wrapped
/// result.
pub proof fn lemma_arithmetic_wraps(m: Machine, a: usize, b: usize, c: usize)
    requires
        m.wf(),
        a < REGISTERS,
        b < REGISTERS,
        c < REGISTERS,
    ensures
        m.execute(InstructionsView::ADD(a, b, c)) == Ok::<(Action, Machine), Error>(
            (Action::Next, m.write(a, wrap(m.read(b) + m.read(c)))),
        ),
        m.execute(InstructionsView::SUB(a, b, c)) == Ok::<(Action, Machine), Error>(
            (Action::Next, m.write(a, wrap(m.read(b) - m.read(c)))),
        ),
        m.execute(InstructionsView::MUL(a, b, c)) == Ok::<(Action, Machine), Error>(
            (Action::Next, m.write(a, wrap(m.read(b) * m.read(c)))),
        ),
{
}

/// A division of register values gives the quotient rounded toward zero,
/// and a remainder what that quotient leaves. One quotient does not fit a
/// register, that of the least value by -1: it wraps around to the least
/// value, and its remainder is 0.
pub proof fn lemma_division_results(x: i32, y: i32)
    requires
        y != 0,
    ensures
        !(x == i32::MIN && y == -1) ==> compute(Arithmetic::Div, x, y) == quotient(
            x as int,
            y as int,
        ),
        x == i32::MIN && y == -1 ==> compute(Arithmetic::Div, x, y) == i32::MIN,
        compute(Arithmetic::Rem, x, y) == remainder(x as int, y as int),
        x == compute(Arithmetic::Rem, x, y) + y * quotient(x as int, y as int),
{
    lemma_division(x as int, y as int);
}

/// `DIV` and `REM` by a register that holds zero fail with `DivisionByZero`,
/// whatever the other registers hold, and change nothing.
pub proof fn lemma_division_by_zero(m: Machine, a: usize, b: usize, c: usize)
    requires
        a < REGISTERS,
        b < REGISTERS,
        c < REGISTERS,
        m.read(c) == 0,
    ensures
        m.execute(InstructionsView::DIV(a, b, c)) == Err::<(Action, Machine), Error>(
            Error::DivisionByZero,
        ),
        m.execute(InstructionsView::REM(a, b, c)) == Err::<(Action, Machine), Error>(
            Error::DivisionByZero,
        ),
        m.after(m.execute(InstructionsView::DIV(a, b, c))) == m,
        m.after(m.execute(InstructionsView::REM(a, b, c))) == m,
{
}

/// An instruction that names a register which the machine does not have
/// fails with `OutOfRange`, whatever else it names, and changes nothing.
pub proof fn lemma_out_of_range(m: Machine, instruction: InstructionsView, r: usize)
    requires
        references(instruction, r),
        r >= REGISTERS,
    ensures
        m.execute(instruction) == Err::<(Action, Machine), Error>(Error::OutOfRange),
        m.after(m.execute(instruction)) == m,
{
}

/// `JUMP` to a label that the program does not declare fails with
/// `UnknownLabel`. `JUMP` to a declared label sets the instruction pointer to
/// the address of the label, and the instruction fetched next is the one at
/// that address.
pub proof fn lemma_jump(m: Machine, name: Seq<char>)
    requires
        m.wf(),
    ensures
        !m.labels.contains_key(name) ==> m.execute(InstructionsView::JUMP(name)) == Err::<
            (Action, Machine),
            Error,
        >(Error::UnknownLabel),
        m.labels.contains_key(name) ==> {
            let landed = m.goto(m.labels[name]);
            &&& m.execute(InstructionsView::JUMP(name)) == Ok::<(Action, Machine), Error>(
                (Action::Jump, landed),
            )
            &&& landed.wf()
            &&& landed.running()
            &&& landed.fetch() == m.instructions[m.labels[name] as int]
        },
        m.running() && m.fetch() == InstructionsView::JUMP(name) ==> m.step() == (match lookup(
            m.labels,
            name,
        ) {
            Some(address) => Ok::<(Action, Machine), Error>((Action::Jump, m.goto(address))),
            None => Err(Error::UnknownLabel),
        }),
{
}

/// A conditional jump whose comparison holds does what `JUMP` does; one
/// whose comparison does not hold changes nothing and goes on with the next
/// instruction, whether its label is declared or not.
pub proof fn lemma_branch(m: Machine, c: Comparison, a: usize, b: usize, name: Seq<char>)
    requires
        a < REGISTERS,
        b < REGISTERS,
    ensures
        holds(c, m.read(a), m.read(b)) ==> m.branch(
            m.labels,
            c,
            a,
            b,
            name,
        ) == m.execute(InstructionsView::JUMP(name)),
        !holds(c, m.read(a), m.read(b)) ==> m.branch(
            m.labels,
            c,
            a,
            b,
            name,
        ) == Ok::<(Action, Machine), Error>((Action::Next, m)),
{
}

/// A machine whose label table lacks the entry label does not start: the
/// result is `MainNotFound`, and a run executes nothing.
pub proof fn lemma_main_not_found(m: Machine)
    requires
        !m.labels.contains_key(entry_label()),
    ensures
        m.start() == Err::<Machine, Error>(Error::MainNotFound),
{
}

/// A program text that declares no label `MAIN` loads into a machine that
/// does not start.
pub proof fn lemma_text_without_main(m: Machine, lines: Seq<Seq<char>>)
    requires
        lines.len() <= usize::MAX,
        forall|i: int| 0 <= i < lines.len() ==> declared_label(#[trigger] lines[i]) != Some(
            entry_label(),
        ),
    ensures
        match loaded(m, lines) {
            Ok(machine) => machine.start() == Err::<Machine, Error>(Error::MainNotFound),
            Err(_) => true,
        },
{
    lemma_label_table(lines);
}

/// A program loaded from a text keeps the invariant of the machine. It has
/// one instruction for each line, at the address that is the place of the
/// line, and at the address of each label stands the placeholder of its
/// declaration.
pub proof fn lemma_loaded(m: Machine, lines: Seq<Seq<char>>)
    requires
        m.wf(),
        lines.len() <= usize::MAX,
    ensures
        match loaded(m, lines) {
            Ok(machine) => {
                &&& machine.wf()
                &&& machine.registers == m.registers
                &&& machine.instructions.len() == lines.len()
                &&& forall|i: int|
                    0 <= i < lines.len() ==> parse_line(#[trigger] lines[i]) == Ok::<
                        InstructionsView,
                        Error,
                    >(machine.instructions[i])
                &&& forall|name: Seq<char>| #[trigger]
                    machine.labels.contains_key(name) ==> {
                        &&& declared_label(lines[machine.labels[name] as int]) == Some(name)
                        &&& machine.instructions[machine.labels[name] as int]
                            == InstructionsView::LABEL
                    }
            },
            Err(_) => true,
        },
{
    lemma_assemble_lines(lines);
    lemma_label_table(lines);
}

/// A run keeps the invariant of the machine, its program and its labels.
pub proof fn lemma_run_keeps(m: Machine, fuel: nat)
    requires
        m.wf(),
    ensures
        m.run(fuel).machine.wf(),
        m.run(fuel).machine.instructions == m.instructions,
        m.run(fuel).machine.labels == m.labels,
        m.run(fuel).result == Ok::<bool, Error>(false) ==> m.run(fuel).machine.running(),
        m.run(fuel).result is Err ==> m.run(fuel).machine.running(),
    decreases fuel,
{
    if m.running() && fuel > 0 {
        lemma_step_keeps(m);
        if let Ok((_, next)) = m.step() {
            lemma_run_keeps(next, (fuel - 1) as nat);
        }
    }
}

/// A run ends with success in one of two ways: the instruction pointer has
/// left the program, or the last thing that happened was an `EXIT`, which
/// the pointer still stands at. `Exit` is never recorded before the end.
pub proof fn lemma_run_success(m: Machine, fuel: nat)
    requires
        m.wf(),
    ensures
        m.run(fuel).result == Ok::<bool, Error>(true) ==> {
            ||| !m.run(fuel).machine.running()
            ||| {
                &&& m.run(fuel).machine.fetch() == InstructionsView::EXIT
                &&& m.run(fuel).output.len() > 0
                &&& m.run(fuel).output.last() == Action::Exit
            }
        },
        forall|i: int|
            0 <= i < m.run(fuel).output.len() - 1 ==> #[trigger] m.run(fuel).output[i]
                != Action::Exit,
        forall|i: int|
            0 <= i < m.run(fuel).output.len() && m.run(fuel).result != Ok::<bool, Error>(true)
                ==> #[trigger] m.run(fuel).output[i] != Action::Exit,
    decreases fuel,
{
    if m.running() && fuel > 0 {
        lemma_step_keeps(m);
        if let Ok((action, next)) = m.step() {
            if !(action is Exit) {
                lemma_run_success(next, (fuel - 1) as nat);
                let rest = next.run((fuel - 1) as nat);
                let all = m.run(fuel).output;
                assert(all == emitted(action) + rest.output);
                assert forall|i: int| 0 <= i < all.len() - 1 implies #[trigger] all[i]
                    != Action::Exit by {
                    if i >= emitted(action).len() {
                        assert(all[i] == rest.output[i - emitted(action).len()]);
                    }
                }
                assert forall|i: int|
                    0 <= i < all.len() && m.run(fuel).result != Ok::<bool, Error>(
                        true,
                    ) implies #[trigger] all[i] != Action::Exit by {
                    if i >= emitted(action).len() {
                        assert(all[i] == rest.output[i - emitted(action).len()]);
                    }
                }
                if rest.output.len() > 0 {
                    assert(all.last() == rest.output.last());
                }
            }
        }
    }
}

/// A run that came to its end, or to an error, does not depend on the fuel
/// that was left: with more fuel it is the same run.
pub proof fn lemma_run_enough_fuel(m: Machine, fuel: nat, more: nat)
    requires
        fuel <= more,
        m.run(fuel).result != Ok::<bool, Error>(false),
    ensures
        m.run(more) == m.run(fuel),
    decreases fuel,
{
    if m.running() && fuel > 0 {
        if let Ok((action, next)) = m.step() {
            if !(action is Exit) {
                lemma_run_enough_fuel(next, (fuel - 1) as nat, (more - 1) as nat);
            }
        }
    }
}

/// A run that was cut short can be taken up again: running on from where it
/// stopped gives what one run with the fuel of both gives.
pub proof fn lemma_run_resumed(m: Machine, first: nat, second: nat)
    requires
        m.run(first).result == Ok::<bool, Error>(false),
    ensures
        m.run(first + second).machine == m.run(first).machine.run(second).machine,
        m.run(first + second).result == m.run(first).machine.run(second).result,
        m.run(first + second).output == m.run(first).output + m.run(first).machine.run(
            second,
        ).output,
    decreases first,
{
    if m.running() && first > 0 {
        if let Ok((_, next)) = m.step() {
            lemma_run_resumed(next, (first - 1) as nat, second);
        }
    }
}

/// A run with no fuel executes nothing, and a run of a machine whose
/// instruction pointer is past the program has ended.
pub proof fn lemma_run_ends(m: Machine, fuel: nat)
    ensures
        m.running() ==> m.run(0) == (Run {
            machine: m,
            output: Seq::empty(),
            result: Ok(false),
        }),
        !m.running() ==> m.run(fuel) == (Run { machine: m, output: Seq::empty(), result: Ok(true) }),
{
}

} // verus!
