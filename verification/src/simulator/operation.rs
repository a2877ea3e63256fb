//! What the machine does for each instruction.

use crate::simulator::machine::{
    compute, lemma_division, lemma_negative_divisor, magnitude, Arithmetic, Comparison, Machine,
};
use crate::simulator::{Action, Error, Instructions, Simulator, REGISTERS};
use vstd::prelude::*;

verus! {

/// Executes the instruction that the instruction pointer is at. The pointer
/// itself moves only if the instruction is a jump that is taken; an
/// instruction that fails leaves the machine as it was.
pub fn operate(sim: &mut Simulator) -> (res: Result<Action, Error>)
    requires
        old(sim).wf(),
        old(sim)@.running(),
    ensures
        final(sim).wf(),
        res == Machine::action_of(old(sim)@.execute(old(sim)@.fetch())),
        final(sim)@ == old(sim)@.after(old(sim)@.execute(old(sim)@.fetch())),
{
    let instruction = sim.instructions[sim.program_counter].duplicate();
    match instruction {
        Instructions::LI(a, b) => li_operation(sim, a, b),
        Instructions::MOVE(a, b) => move_operation(sim, a, b),
        Instructions::ADD(a, b, c) => add_operation(sim, a, b, c),
        Instructions::SUB(a, b, c) => sub_operation(sim, a, b, c),
        Instructions::MUL(a, b, c) => mul_operation(sim, a, b, c),
        Instructions::DIV(a, b, c) => div_operation(sim, a, b, c),
        Instructions::REM(a, b, c) => rem_operation(sim, a, b, c),
        Instructions::EXIT => exit_operation(),
        Instructions::SKIP => Ok(Action::Next),
        Instructions::LABEL => Ok(Action::Next),
        Instructions::JUMP(a) => jump_operation(sim, a.as_str()),
        Instructions::PRINT(a) => print_operation(sim, a),
        Instructions::BEQ(a, b, c) => beq_operation(sim, a, b, c.as_str()),
        Instructions::BNE(a, b, c) => bne_operation(sim, a, b, c.as_str()),
        Instructions::BLT(a, b, c) => blt_operation(sim, a, b, c.as_str()),
        Instructions::BLE(a, b, c) => ble_operation(sim, a, b, c.as_str()),
        Instructions::BGT(a, b, c) => bgt_operation(sim, a, b, c.as_str()),
        Instructions::BGE(a, b, c) => bge_operation(sim, a, b, c.as_str()),
    }
}

/// Does the LI instruction.
fn li_operation(sim: &mut Simulator, a: usize, b: i32) -> (res: Result<Action, Error>)
    requires
        old(sim).wf(),
    ensures
        final(sim).wf(),
        res == Machine::action_of(old(sim)@.load_immediate(a, b)),
        final(sim)@ == old(sim)@.after(old(sim)@.load_immediate(a, b)),
{
    if a >= REGISTERS {
        Err(Error::OutOfRange)
    } else {
        sim.set_int_reg(a, b);
        Ok(Action::Next)
    }
}

/// Does the MOVE instruction.
fn move_operation(sim: &mut Simulator, a: usize, b: usize) -> (res: Result<Action, Error>)
    requires
        old(sim).wf(),
    ensures
        final(sim).wf(),
        res == Machine::action_of(old(sim)@.copy(a, b)),
        final(sim)@ == old(sim)@.after(old(sim)@.copy(a, b)),
{
    if a >= REGISTERS || b >= REGISTERS {
        Err(Error::OutOfRange)
    } else {
        let value = sim.get_int_reg(b);
        sim.set_int_reg(a, value);
        Ok(Action::Next)
    }
}

/// Does the ADD instruction.
fn add_operation(sim: &mut Simulator, a: usize, b: usize, c: usize) -> (res: Result<Action, Error>)
    requires
        old(sim).wf(),
    ensures
        final(sim).wf(),
        res == Machine::action_of(old(sim)@.arithmetic(Arithmetic::Add, a, b, c)),
        final(sim)@ == old(sim)@.after(old(sim)@.arithmetic(Arithmetic::Add, a, b, c)),
{
    if a >= REGISTERS || b >= REGISTERS || c >= REGISTERS {
        Err(Error::OutOfRange)
    } else {
        let result: i32 = sim.get_int_reg(b).wrapping_add(sim.get_int_reg(c));
        sim.set_int_reg(a, result);
        Ok(Action::Next)
    }
}

/// Does the SUB instruction.
fn sub_operation(sim: &mut Simulator, a: usize, b: usize, c: usize) -> (res: Result<Action, Error>)
    requires
        old(sim).wf(),
    ensures
        final(sim).wf(),
        res == Machine::action_of(old(sim)@.arithmetic(Arithmetic::Sub, a, b, c)),
        final(sim)@ == old(sim)@.after(old(sim)@.arithmetic(Arithmetic::Sub, a, b, c)),
{
    if a >= REGISTERS || b >= REGISTERS || c >= REGISTERS {
        Err(Error::OutOfRange)
    } else {
        let result: i32 = sim.get_int_reg(b).wrapping_sub(sim.get_int_reg(c));
        sim.set_int_reg(a, result);
        Ok(Action::Next)
    }
}

/// Does the MUL instruction.
fn mul_operation(sim: &mut Simulator, a: usize, b: usize, c: usize) -> (res: Result<Action, Error>)
    requires
        old(sim).wf(),
    ensures
        final(sim).wf(),
        res == Machine::action_of(old(sim)@.arithmetic(Arithmetic::Mul, a, b, c)),
        final(sim)@ == old(sim)@.after(old(sim)@.arithmetic(Arithmetic::Mul, a, b, c)),
{
    if a >= REGISTERS || b >= REGISTERS || c >= REGISTERS {
        Err(Error::OutOfRange)
    } else {
        let result: i32 = sim.get_int_reg(b).wrapping_mul(sim.get_int_reg(c));
        sim.set_int_reg(a, result);
        Ok(Action::Next)
    }
}

/// The quotient of two register values.
pub fn wrapping_div(x: i32, y: i32) -> (q: i32)
    requires
        y != 0,
    ensures
        q == compute(Arithmetic::Div, x, y),
{
    proof {
        lemma_division(x as int, y as int);
        if y < 0 {
            lemma_negative_divisor(magnitude(x as int), magnitude(y as int));
        }
    }
    if x == i32::MIN && y == -1 {
        i32::MIN
    } else {
        x / y
    }
}

/// The remainder of two register values.
pub fn wrapping_rem(x: i32, y: i32) -> (r: i32)
    requires
        y != 0,
    ensures
        r == compute(Arithmetic::Rem, x, y),
{
    proof {
        lemma_division(x as int, y as int);
        if y < 0 {
            lemma_negative_divisor(magnitude(x as int), magnitude(y as int));
        }
    }
    if x == i32::MIN && y == -1 {
        0
    } else {
        x % y
    }
}

/// Does the DIV instruction.
fn div_operation(sim: &mut Simulator, a: usize, b: usize, c: usize) -> (res: Result<Action, Error>)
    requires
        old(sim).wf(),
    ensures
        final(sim).wf(),
        res == Machine::action_of(old(sim)@.arithmetic(Arithmetic::Div, a, b, c)),
        final(sim)@ == old(sim)@.after(old(sim)@.arithmetic(Arithmetic::Div, a, b, c)),
{
    if a >= REGISTERS || b >= REGISTERS || c >= REGISTERS {
        Err(Error::OutOfRange)
    } else if sim.get_int_reg(c) == 0 {
        Err(Error::DivisionByZero)
    } else {
        let result: i32 = wrapping_div(sim.get_int_reg(b), sim.get_int_reg(c));
        sim.set_int_reg(a, result);
        Ok(Action::Next)
    }
}

/// Does the REM instruction.
fn rem_operation(sim: &mut Simulator, a: usize, b: usize, c: usize) -> (res: Result<Action, Error>)
    requires
        old(sim).wf(),
    ensures
        final(sim).wf(),
        res == Machine::action_of(old(sim)@.arithmetic(Arithmetic::Rem, a, b, c)),
        final(sim)@ == old(sim)@.after(old(sim)@.arithmetic(Arithmetic::Rem, a, b, c)),
{
    if a >= REGISTERS || b >= REGISTERS || c >= REGISTERS {
        Err(Error::OutOfRange)
    } else if sim.get_int_reg(c) == 0 {
        Err(Error::DivisionByZero)
    } else {
        let result: i32 = wrapping_rem(sim.get_int_reg(b), sim.get_int_reg(c));
        sim.set_int_reg(a, result);
        Ok(Action::Next)
    }
}

/// Does the PRINT instruction: hands out the register and its value.
fn print_operation(sim: &Simulator, a: usize) -> (res: Result<Action, Error>)
    ensures
        res == Machine::action_of(sim@.print(a)),
{
    if a >= REGISTERS {
        Err(Error::OutOfRange)
    } else {
        Ok(Action::Print(a, sim.get_int_reg(a)))
    }
}

/// Does the EXIT instruction: asks the driver to stop.
fn exit_operation() -> (res: Result<Action, Error>)
    ensures
        res == Ok::<Action, Error>(Action::Exit),
{
    Ok(Action::Exit)
}

/// Does the unconditional JUMP instruction.
fn jump_operation(sim: &mut Simulator, a: &str) -> (res: Result<Action, Error>)
    requires
        old(sim).wf(),
    ensures
        final(sim).wf(),
        res == Machine::action_of(old(sim)@.jump(old(sim)@.labels, a@)),
        final(sim)@ == old(sim)@.after(old(sim)@.jump(old(sim)@.labels, a@)),
{
    let x = sim.labels.get(a);
    if x.is_none() {
        Err(Error::UnknownLabel)
    } else {
        sim.program_counter = x.unwrap();
        Ok(Action::Jump)
    }
}

/// Does the conditional BEQ instruction.
fn beq_operation(sim: &mut Simulator, a: usize, b: usize, c: &str) -> (res: Result<Action, Error>)
    requires
        old(sim).wf(),
    ensures
        final(sim).wf(),
        res == Machine::action_of(old(sim)@.branch(old(sim)@.labels, Comparison::Eq, a, b, c@)),
        final(sim)@ == old(sim)@.after(
            old(sim)@.branch(old(sim)@.labels, Comparison::Eq, a, b, c@),
        ),
{
    if a >= REGISTERS || b >= REGISTERS {
        Err(Error::OutOfRange)
    } else if sim.get_int_reg(a) == sim.get_int_reg(b) {
        jump_operation(sim, c)
    } else {
        Ok(Action::Next)
    }
}

/// Does the conditional BNE instruction.
fn bne_operation(sim: &mut Simulator, a: usize, b: usize, c: &str) -> (res: Result<Action, Error>)
    requires
        old(sim).wf(),
    ensures
        final(sim).wf(),
        res == Machine::action_of(old(sim)@.branch(old(sim)@.labels, Comparison::Ne, a, b, c@)),
        final(sim)@ == old(sim)@.after(
            old(sim)@.branch(old(sim)@.labels, Comparison::Ne, a, b, c@),
        ),
{
    if a >= REGISTERS || b >= REGISTERS {
        Err(Error::OutOfRange)
    } else if sim.get_int_reg(a) != sim.get_int_reg(b) {
        jump_operation(sim, c)
    } else {
        Ok(Action::Next)
    }
}

/// Does the conditional BLT instruction.
fn blt_operation(sim: &mut Simulator, a: usize, b: usize, c: &str) -> (res: Result<Action, Error>)
    requires
        old(sim).wf(),
    ensures
        final(sim).wf(),
        res == Machine::action_of(old(sim)@.branch(old(sim)@.labels, Comparison::Lt, a, b, c@)),
        final(sim)@ == old(sim)@.after(
            old(sim)@.branch(old(sim)@.labels, Comparison::Lt, a, b, c@),
        ),
{
    if a >= REGISTERS || b >= REGISTERS {
        Err(Error::OutOfRange)
    } else if sim.get_int_reg(a) < sim.get_int_reg(b) {
        jump_operation(sim, c)
    } else {
        Ok(Action::Next)
    }
}

/// Does the conditional BLE instruction.
fn ble_operation(sim: &mut Simulator, a: usize, b: usize, c: &str) -> (res: Result<Action, Error>)
    requires
        old(sim).wf(),
    ensures
        final(sim).wf(),
        res == Machine::action_of(old(sim)@.branch(old(sim)@.labels, Comparison::Le, a, b, c@)),
        final(sim)@ == old(sim)@.after(
            old(sim)@.branch(old(sim)@.labels, Comparison::Le, a, b, c@),
        ),
{
    if a >= REGISTERS || b >= REGISTERS {
        Err(Error::OutOfRange)
    } else if sim.get_int_reg(a) <= sim.get_int_reg(b) {
        jump_operation(sim, c)
    } else {
        Ok(Action::Next)
    }
}

/// Does the conditional BGT instruction.
fn bgt_operation(sim: &mut Simulator, a: usize, b: usize, c: &str) -> (res: Result<Action, Error>)
    requires
        old(sim).wf(),
    ensures
        final(sim).wf(),
        res == Machine::action_of(old(sim)@.branch(old(sim)@.labels, Comparison::Gt, a, b, c@)),
        final(sim)@ == old(sim)@.after(
            old(sim)@.branch(old(sim)@.labels, Comparison::Gt, a, b, c@),
        ),
{
    if a >= REGISTERS || b >= REGISTERS {
        Err(Error::OutOfRange)
    } else if sim.get_int_reg(a) > sim.get_int_reg(b) {
        jump_operation(sim, c)
    } else {
        Ok(Action::Next)
    }
}

/// Does the conditional BGE instruction.
fn bge_operation(sim: &mut Simulator, a: usize, b: usize, c: &str) -> (res: Result<Action, Error>)
    requires
        old(sim).wf(),
    ensures
        final(sim).wf(),
        res == Machine::action_of(old(sim)@.branch(old(sim)@.labels, Comparison::Ge, a, b, c@)),
        final(sim)@ == old(sim)@.after(
            old(sim)@.branch(old(sim)@.labels, Comparison::Ge, a, b, c@),
        ),
{
    if a >= REGISTERS || b >= REGISTERS {
        Err(Error::OutOfRange)
    } else if sim.get_int_reg(a) >= sim.get_int_reg(b) {
        jump_operation(sim, c)
    } else {
        Ok(Action::Next)
    }
}

} // verus!
