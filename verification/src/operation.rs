//! The operations of the machine as functions of their own, for a caller
//! that decodes instructions itself and keeps its own label table. Operands
//! come as tuples in the order of the source text.

use crate::simulator::labels::{lookup, Labels};
use crate::simulator::machine::{Arithmetic, Comparison, Machine, Outcome};
use crate::simulator::operation::{wrapping_div, wrapping_rem};
use crate::simulator::{Error, Instructions, InstructionsView, Simulator, REGISTERS};
use vstd::prelude::*;

verus! {

/// ADD operation. params.0 = params.1 + params.2
pub fn addition(sim: &mut Simulator, params: (usize, usize, usize)) -> (res: Result<(), Error>)
    requires
        old(sim).wf(),
    ensures
        final(sim).wf(),
        res == Machine::status_of(
            old(sim)@.arithmetic(Arithmetic::Add, params.0, params.1, params.2),
        ),
        final(sim)@ == old(sim)@.after(
            old(sim)@.arithmetic(Arithmetic::Add, params.0, params.1, params.2),
        ),
{
    if params.0 >= REGISTERS || params.1 >= REGISTERS || params.2 >= REGISTERS {
        Err(Error::OutOfRange)
    } else {
        let result: i32 = sim.get_int_reg(params.1).wrapping_add(sim.get_int_reg(params.2));
        sim.set_int_reg(params.0, result);
        Ok(())
    }
}

/// SUB operation. params.0 = params.1 - params.2
pub fn substraction(sim: &mut Simulator, params: (usize, usize, usize)) -> (res: Result<
    (),
    Error,
>)
    requires
        old(sim).wf(),
    ensures
        final(sim).wf(),
        res == Machine::status_of(
            old(sim)@.arithmetic(Arithmetic::Sub, params.0, params.1, params.2),
        ),
        final(sim)@ == old(sim)@.after(
            old(sim)@.arithmetic(Arithmetic::Sub, params.0, params.1, params.2),
        ),
{
    if params.0 >= REGISTERS || params.1 >= REGISTERS || params.2 >= REGISTERS {
        Err(Error::OutOfRange)
    } else {
        let result: i32 = sim.get_int_reg(params.1).wrapping_sub(sim.get_int_reg(params.2));
        sim.set_int_reg(params.0, result);
        Ok(())
    }
}

/// MUL operation. params.0 = params.1 * params.2
pub fn multiplication(sim: &mut Simulator, params: (usize, usize, usize)) -> (res: Result<
    (),
    Error,
>)
    requires
        old(sim).wf(),
    ensures
        final(sim).wf(),
        res == Machine::status_of(
            old(sim)@.arithmetic(Arithmetic::Mul, params.0, params.1, params.2),
        ),
        final(sim)@ == old(sim)@.after(
            old(sim)@.arithmetic(Arithmetic::Mul, params.0, params.1, params.2),
        ),
{
    if params.0 >= REGISTERS || params.1 >= REGISTERS || params.2 >= REGISTERS {
        Err(Error::OutOfRange)
    } else {
        let result: i32 = sim.get_int_reg(params.1).wrapping_mul(sim.get_int_reg(params.2));
        sim.set_int_reg(params.0, result);
        Ok(())
    }
}

/// DIV operation. params.0 = params.1 / params.2
pub fn division(sim: &mut Simulator, params: (usize, usize, usize)) -> (res: Result<(), Error>)
    requires
        old(sim).wf(),
    ensures
        final(sim).wf(),
        res == Machine::status_of(
            old(sim)@.arithmetic(Arithmetic::Div, params.0, params.1, params.2),
        ),
        final(sim)@ == old(sim)@.after(
            old(sim)@.arithmetic(Arithmetic::Div, params.0, params.1, params.2),
        ),
{
    if params.0 >= REGISTERS || params.1 >= REGISTERS || params.2 >= REGISTERS {
        Err(Error::OutOfRange)
    } else if sim.get_int_reg(params.2) == 0 {
        Err(Error::DivisionByZero)
    } else {
        let result: i32 = wrapping_div(sim.get_int_reg(params.1), sim.get_int_reg(params.2));
        sim.set_int_reg(params.0, result);
        Ok(())
    }
}

/// REM operation. params.0 = params.1 % params.2
pub fn remain(sim: &mut Simulator, params: (usize, usize, usize)) -> (res: Result<(), Error>)
    requires
        old(sim).wf(),
    ensures
        final(sim).wf(),
        res == Machine::status_of(
            old(sim)@.arithmetic(Arithmetic::Rem, params.0, params.1, params.2),
        ),
        final(sim)@ == old(sim)@.after(
            old(sim)@.arithmetic(Arithmetic::Rem, params.0, params.1, params.2),
        ),
{
    if params.0 >= REGISTERS || params.1 >= REGISTERS || params.2 >= REGISTERS {
        Err(Error::OutOfRange)
    } else if sim.get_int_reg(params.2) == 0 {
        Err(Error::DivisionByZero)
    } else {
        let result: i32 = wrapping_rem(sim.get_int_reg(params.1), sim.get_int_reg(params.2));
        sim.set_int_reg(params.0, result);
        Ok(())
    }
}

/// LI operation. params.0 = params.1 (imm)
pub fn load_integer(sim: &mut Simulator, params: (usize, i32)) -> (res: Result<(), Error>)
    requires
        old(sim).wf(),
    ensures
        final(sim).wf(),
        res == Machine::status_of(old(sim)@.load_immediate(params.0, params.1)),
        final(sim)@ == old(sim)@.after(old(sim)@.load_immediate(params.0, params.1)),
{
    if params.0 >= REGISTERS {
        Err(Error::OutOfRange)
    } else {
        sim.set_int_reg(params.0, params.1);
        Ok(())
    }
}

/// MOVE (copy) operation. params.0 = params.1
pub fn move_reg(sim: &mut Simulator, params: (usize, usize)) -> (res: Result<(), Error>)
    requires
        old(sim).wf(),
    ensures
        final(sim).wf(),
        res == Machine::status_of(old(sim)@.copy(params.0, params.1)),
        final(sim)@ == old(sim)@.after(old(sim)@.copy(params.0, params.1)),
{
    if params.0 >= REGISTERS || params.1 >= REGISTERS {
        Err(Error::OutOfRange)
    } else {
        let value = sim.get_int_reg(params.1);
        sim.set_int_reg(params.0, value);
        Ok(())
    }
}

/// PRINT operation. Hands out the value of the register `params`, for the
/// caller to print.
pub fn print_reg(sim: &Simulator, params: usize) -> (res: Result<i32, Error>)
    ensures
        res == (if params >= REGISTERS {
            Err::<i32, Error>(Error::OutOfRange)
        } else {
            Ok(sim@.read(params))
        }),
{
    if params >= REGISTERS {
        Err(Error::OutOfRange)
    } else {
        Ok(sim.get_int_reg(params))
    }
}

/// JUMP operation. Sets the instruction pointer to the address that `labels`
/// binds `params` to. That address must lie in the program of `sim`, or be
/// the one after its last instruction.
pub fn unc_jump(sim: &mut Simulator, labels: &Labels, params: &str) -> (res: Result<(), Error>)
    requires
        old(sim).wf(),
        lookup(labels@, params@) matches Some(address) ==> address <= old(
            sim,
        )@.instructions.len(),
    ensures
        final(sim).wf(),
        res == Machine::status_of(old(sim)@.jump(labels@, params@)),
        final(sim)@ == old(sim)@.after(old(sim)@.jump(labels@, params@)),
{
    let value = labels.get(params);
    if let Some(lab) = value {
        sim.set_ic(lab);
        Ok(())
    } else {
        Err(Error::UnknownLabel)
    }
}

/// The comparison that a conditional jump makes; `None` for any other
/// instruction.
pub open spec fn comparison_of(instruction: InstructionsView) -> Option<Comparison> {
    match instruction {
        InstructionsView::BEQ(_, _, _) => Some(Comparison::Eq),
        InstructionsView::BNE(_, _, _) => Some(Comparison::Ne),
        InstructionsView::BLT(_, _, _) => Some(Comparison::Lt),
        InstructionsView::BLE(_, _, _) => Some(Comparison::Le),
        InstructionsView::BGT(_, _, _) => Some(Comparison::Gt),
        InstructionsView::BGE(_, _, _) => Some(Comparison::Ge),
        _ => None,
    }
}

/// What `con_jump` does: the registers are checked first; then `instr` must
/// be a conditional jump; then the comparison decides whether to jump.
pub open spec fn conditional(
    m: Machine,
    labels: Map<Seq<char>, usize>,
    params: (usize, usize, Seq<char>),
    instr: InstructionsView,
) -> Outcome {
    if params.0 >= REGISTERS || params.1 >= REGISTERS {
        Err(Error::OutOfRange)
    } else {
        match comparison_of(instr) {
            Some(c) => m.branch(labels, c, params.0, params.1, params.2),
            None => Err(Error::InvalidParameter),
        }
    }
}

/// Conditional jump operations (BEQ, BNE, BLT, BLE, BGT, BGE). Sets the
/// instruction pointer to the address of the label `params.2` if the
/// comparison that `instr` names holds of the registers `params.0` and
/// `params.1`. Of `instr` only the kind is read: its own operands are not.
/// The address must lie in the program of `sim`, or be the one after its
/// last instruction.
pub fn con_jump(
    sim: &mut Simulator,
    lab: &Labels,
    params: (usize, usize, String),
    instr: Instructions,
) -> (res: Result<(), Error>)
    requires
        old(sim).wf(),
        lookup(lab@, params.2@) matches Some(address) ==> address <= old(
            sim,
        )@.instructions.len(),
    ensures
        final(sim).wf(),
        res == Machine::status_of(
            conditional(old(sim)@, lab@, (params.0, params.1, params.2@), instr@),
        ),
        final(sim)@ == old(sim)@.after(
            conditional(old(sim)@, lab@, (params.0, params.1, params.2@), instr@),
        ),
{
    if params.0 >= REGISTERS || params.1 >= REGISTERS {
        Err(Error::OutOfRange)
    } else {
        let a = sim.get_int_reg(params.0);
        let b = sim.get_int_reg(params.1);
        let taken = match instr {
            Instructions::BEQ(_, _, _) => a == b,
            Instructions::BNE(_, _, _) => a != b,
            Instructions::BLT(_, _, _) => a < b,
            Instructions::BLE(_, _, _) => a <= b,
            Instructions::BGT(_, _, _) => a > b,
            Instructions::BGE(_, _, _) => a >= b,
            _ => {
                return Err(Error::InvalidParameter);
            },
        };
        if taken {
            unc_jump(sim, lab, params.2.as_str())
        } else {
            Ok(())
        }
    }
}

} // verus!
