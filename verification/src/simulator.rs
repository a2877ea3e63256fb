//! The machine, its instructions and its errors.

use crate::simulator::labels::{lookup, Labels};
use crate::simulator::machine::{emitted, lemma_execute_keeps, within, Machine};
use crate::simulator::parser::{loaded, preprocess_lines, process_lines, strip, texts};
use vstd::prelude::*;

pub mod labels;
pub mod laws;
pub mod lexer;
pub mod machine;
pub mod operation;
pub mod parser;
pub mod printer;
pub mod stack;

verus! {

/// How many integer registers the machine has.
pub const REGISTERS: usize = 32;

/// Everything that can end a load or a run early.
#[derive(Clone, Copy, Debug, PartialEq, Eq, Structural)]
pub enum Error {
    /// An instruction names a register that the machine does not have.
    OutOfRange,
    /// A division or a remainder by a register that holds zero.
    DivisionByZero,
    /// The program does not declare the entry label.
    MainNotFound,
    /// A jump to a label that the program does not declare.
    UnknownLabel,
    /// The first word of a line is no mnemonic.
    InvalidInstruction,
    /// The operands of an instruction do not fit its mnemonic.
    InvalidParameter,
}

impl Error {
    /// The sentence that describes the error.
    pub open spec fn text(self) -> Seq<char> {
        match self {
            Error::OutOfRange => "the reg is out of the ranges"@,
            Error::DivisionByZero => "division by zero"@,
            Error::MainNotFound => "main label not found"@,
            Error::UnknownLabel => "trying to jump to a unknown label. Label not found"@,
            Error::InvalidInstruction => "the instruction is not valid, or doesn't exist"@,
            Error::InvalidParameter => "the parameters are not valid"@,
        }
    }

    /// The sentence that describes the error.
    pub fn message(&self) -> (s: &'static str)
        ensures
            s@ == self.text(),
    {
        match self {
            Error::OutOfRange => "the reg is out of the ranges",
            Error::DivisionByZero => "division by zero",
            Error::MainNotFound => "main label not found",
            Error::UnknownLabel => "trying to jump to a unknown label. Label not found",
            Error::InvalidInstruction => "the instruction is not valid, or doesn't exist",
            Error::InvalidParameter => "the parameters are not valid",
        }
    }
}

/// One instruction of a program, with its operands: register indices,
/// immediates, and the names of labels.
#[derive(Debug, PartialEq, Eq, Clone)]
pub enum Instructions {
    /// Load an immediate into a register.
    LI(usize, i32),
    /// Copy the second register into the first.
    MOVE(usize, usize),
    /// First register = second + third.
    ADD(usize, usize, usize),
    /// First register = second - third.
    SUB(usize, usize, usize),
    /// First register = second * third.
    MUL(usize, usize, usize),
    /// First register = second / third.
    DIV(usize, usize, usize),
    /// First register = second % third.
    REM(usize, usize, usize),
    /// Emit a register and its value.
    PRINT(usize),
    /// Stop with success.
    EXIT,
    /// Do nothing.
    SKIP,
    /// The place of a label declaration: does nothing.
    LABEL,
    /// Continue at a label.
    JUMP(String),
    /// Continue at a label if first == second.
    BEQ(usize, usize, String),
    /// Continue at a label if first != second.
    BNE(usize, usize, String),
    /// Continue at a label if first < second.
    BLT(usize, usize, String),
    /// Continue at a label if first <= second.
    BLE(usize, usize, String),
    /// Continue at a label if first > second.
    BGT(usize, usize, String),
    /// Continue at a label if first >= second.
    BGE(usize, usize, String),
}

/// An instruction as a mathematical value: label names are sequences of
/// characters.
pub enum InstructionsView {
    LI(usize, i32),
    MOVE(usize, usize),
    ADD(usize, usize, usize),
    SUB(usize, usize, usize),
    MUL(usize, usize, usize),
    DIV(usize, usize, usize),
    REM(usize, usize, usize),
    PRINT(usize),
    EXIT,
    SKIP,
    LABEL,
    JUMP(Seq<char>),
    BEQ(usize, usize, Seq<char>),
    BNE(usize, usize, Seq<char>),
    BLT(usize, usize, Seq<char>),
    BLE(usize, usize, Seq<char>),
    BGT(usize, usize, Seq<char>),
    BGE(usize, usize, Seq<char>),
}

impl View for Instructions {
    type V = InstructionsView;

    open spec fn view(&self) -> InstructionsView {
        match *self {
            Instructions::LI(a, v) => InstructionsView::LI(a, v),
            Instructions::MOVE(a, b) => InstructionsView::MOVE(a, b),
            Instructions::ADD(a, b, c) => InstructionsView::ADD(a, b, c),
            Instructions::SUB(a, b, c) => InstructionsView::SUB(a, b, c),
            Instructions::MUL(a, b, c) => InstructionsView::MUL(a, b, c),
            Instructions::DIV(a, b, c) => InstructionsView::DIV(a, b, c),
            Instructions::REM(a, b, c) => InstructionsView::REM(a, b, c),
            Instructions::PRINT(a) => InstructionsView::PRINT(a),
            Instructions::EXIT => InstructionsView::EXIT,
            Instructions::SKIP => InstructionsView::SKIP,
            Instructions::LABEL => InstructionsView::LABEL,
            Instructions::JUMP(l) => InstructionsView::JUMP(l@),
            Instructions::BEQ(a, b, l) => InstructionsView::BEQ(a, b, l@),
            Instructions::BNE(a, b, l) => InstructionsView::BNE(a, b, l@),
            Instructions::BLT(a, b, l) => InstructionsView::BLT(a, b, l@),
            Instructions::BLE(a, b, l) => InstructionsView::BLE(a, b, l@),
            Instructions::BGT(a, b, l) => InstructionsView::BGT(a, b, l@),
            Instructions::BGE(a, b, l) => InstructionsView::BGE(a, b, l@),
        }
    }
}

impl Instructions {
    /// A copy of the instruction.
    pub fn duplicate(&self) -> (copy: Instructions)
        ensures
            copy@ == self@,
    {
        match self {
            Instructions::LI(a, v) => Instructions::LI(*a, *v),
            Instructions::MOVE(a, b) => Instructions::MOVE(*a, *b),
            Instructions::ADD(a, b, c) => Instructions::ADD(*a, *b, *c),
            Instructions::SUB(a, b, c) => Instructions::SUB(*a, *b, *c),
            Instructions::MUL(a, b, c) => Instructions::MUL(*a, *b, *c),
            Instructions::DIV(a, b, c) => Instructions::DIV(*a, *b, *c),
            Instructions::REM(a, b, c) => Instructions::REM(*a, *b, *c),
            Instructions::PRINT(a) => Instructions::PRINT(*a),
            Instructions::EXIT => Instructions::EXIT,
            Instructions::SKIP => Instructions::SKIP,
            Instructions::LABEL => Instructions::LABEL,
            Instructions::JUMP(l) => Instructions::JUMP(l.clone()),
            Instructions::BEQ(a, b, l) => Instructions::BEQ(*a, *b, l.clone()),
            Instructions::BNE(a, b, l) => Instructions::BNE(*a, *b, l.clone()),
            Instructions::BLT(a, b, l) => Instructions::BLT(*a, *b, l.clone()),
            Instructions::BLE(a, b, l) => Instructions::BLE(*a, *b, l.clone()),
            Instructions::BGT(a, b, l) => Instructions::BGT(*a, *b, l.clone()),
            Instructions::BGE(a, b, l) => Instructions::BGE(*a, *b, l.clone()),
        }
    }
}

/// What executing one instruction asks of whoever drives the machine.
#[derive(Clone, Copy, Debug, PartialEq, Eq, Structural)]
pub enum Action {
    /// Go on with the instruction at the following address.
    Next,
    /// The instruction pointer was set to the address of a label: go on
    /// there.
    Jump,
    /// Emit the register and the value it holds, then go on with the
    /// following address.
    Print(usize, i32),
    /// Stop: the program asked to end.
    Exit,
}

/// The machine: its registers, its instruction pointer, and the program it
/// was loaded with.
pub struct Simulator {
    int_registers: [i32; 32],
    program_counter: usize,
    labels: Labels,
    instructions: Vec<Instructions>,
}

impl View for Simulator {
    type V = Machine;

    closed spec fn view(&self) -> Machine {
        Machine {
            registers: self.int_registers@,
            counter: self.program_counter,
            labels: self.labels@,
            instructions: self.instructions@.map_values(|i: Instructions| i@),
        }
    }
}

impl Simulator {
    /// The invariant of the simulator: that of the machine it stands for.
    pub open spec fn wf(&self) -> bool {
        self@.wf()
    }

    /// A machine with every register at zero and no program.
    pub fn new() -> (sim: Simulator)
        ensures
            sim.wf(),
            sim@ == (Machine {
                registers: Seq::new(REGISTERS as nat, |i: int| 0i32),
                counter: 0,
                labels: Map::empty(),
                instructions: Seq::empty(),
            }),
    {
        Simulator {
            int_registers: [0i32; 32],
            program_counter: 0,
            labels: Labels::new(),
            instructions: Vec::new(),
        }
    }

    /// The value of register `r`.
    pub fn get_int_reg(&self, r: usize) -> (v: i32)
        requires
            r < REGISTERS,
        ensures
            v == self@.read(r),
    {
        self.int_registers[r]
    }

    /// Writes `v` to register `r`. Register 0 stays at zero.
    pub fn set_int_reg(&mut self, r: usize, v: i32)
        requires
            old(self).wf(),
            r < REGISTERS,
        ensures
            final(self).wf(),
            final(self)@ == old(self)@.write(r, v),
    {
        if r != 0 {
            self.int_registers[r] = v;
        }
    }

    /// The address that the instruction pointer is at.
    pub fn get_ic(&self) -> (address: usize)
        ensures
            address == self@.counter,
    {
        self.program_counter
    }

    /// Sets the instruction pointer to an address of the program, or to the
    /// one after its last instruction.
    pub fn set_ic(&mut self, address: usize)
        requires
            old(self).wf(),
            address <= old(self)@.instructions.len(),
        ensures
            final(self).wf(),
            final(self)@ == old(self)@.goto(address),
    {
        self.program_counter = address;
    }

    /// How many instructions the program has.
    pub fn len(&self) -> (n: usize)
        ensures
            n == self@.instructions.len(),
    {
        self.instructions.len()
    }

    /// The instruction at `address`.
    pub fn instruction(&self, address: usize) -> (instruction: &Instructions)
        requires
            address < self@.instructions.len(),
        ensures
            instruction@ == self@.instructions[address as int],
    {
        &self.instructions[address]
    }

    /// Replaces the program and its labels, and sets the instruction pointer
    /// to the first address.
    pub fn install(&mut self, instructions: Vec<Instructions>, labels: Labels)
        requires
            old(self).wf(),
            within(labels@, instructions@.len()),
        ensures
            final(self).wf(),
            final(self)@ == (Machine {
                registers: old(self)@.registers,
                counter: 0,
                labels: labels@,
                instructions: instructions@.map_values(|i: Instructions| i@),
            }),
    {
        assert(instructions@.len() <= usize::MAX) by {
            vstd::std_specs::vec::axiom_spec_len(&instructions);
        }
        self.instructions = instructions;
        self.labels = labels;
        self.program_counter = 0;
    }

    /// Loads a program from its source text: takes out the blank lines and
    /// the comments, builds the label table, and parses what is left, line
    /// by line. At the first line that is no instruction, this fails with the
    /// error of that line and the machine keeps what it had.
    pub fn load(&mut self, raw_lines: &[String]) -> (res: Result<(), Error>)
        requires
            old(self).wf(),
        ensures
            final(self).wf(),
            match loaded(old(self)@, strip(texts(raw_lines@))) {
                Ok(machine) => res is Ok && final(self)@ == machine,
                Err(e) => res == Err::<(), Error>(e) && final(self)@ == old(self)@,
            },
    {
        let preprocess = preprocess_lines(raw_lines);
        process_lines(preprocess.as_slice(), self)
    }

    /// Makes the machine ready to run: sets the instruction pointer to the
    /// address of the entry label, `MAIN`. Without that label nothing
    /// changes.
    pub fn start(&mut self) -> (res: Result<(), Error>)
        requires
            old(self).wf(),
        ensures
            final(self).wf(),
            match old(self)@.start() {
                Ok(ready) => res is Ok && final(self)@ == ready,
                Err(e) => res == Err::<(), Error>(e) && final(self)@ == old(self)@,
            },
    {
        proof {
            reveal_strlit("MAIN");
        }
        match self.labels.get("MAIN") {
            Some(address) => {
                self.program_counter = address;
                Ok(())
            },
            None => Err(Error::MainNotFound),
        }
    }

    /// One turn of the machine: executes the instruction that the
    /// instruction pointer is at, and moves the pointer on by one unless the
    /// instruction set it or ended the run. An instruction that fails leaves
    /// the machine as it was, the pointer at that instruction.
    pub fn step(&mut self) -> (res: Result<Action, Error>)
        requires
            old(self).wf(),
            old(self)@.running(),
        ensures
            final(self).wf(),
            res == Machine::action_of(old(self)@.step()),
            final(self)@ == old(self)@.after(old(self)@.step()),
    {
        proof {
            lemma_execute_keeps(self@, self@.fetch());
        }
        let action = operation::operate(self)?;
        match action {
            Action::Next | Action::Print(_, _) => {
                assert(self@.instructions.len() == self.instructions.len());
                self.program_counter += 1;
            },
            Action::Jump | Action::Exit => {},
        }
        Ok(action)
    }

    /// Runs the program from its entry label for at most `fuel` instructions
    /// and appends to `out` what it prints, and its `Exit`, in the order of
    /// execution. The result is `Ok(true)` where the program ended, by `EXIT`
    /// or by running past its last instruction, `Ok(false)` where `fuel`
    /// instructions were executed and the program could go on, and the error
    /// where an instruction failed: the instruction pointer is then left at
    /// that instruction. Without the entry label the result is
    /// `MainNotFound` and nothing is executed.
    pub fn run(&mut self, fuel: usize, out: &mut Vec<Action>) -> (res: Result<bool, Error>)
        requires
            old(self).wf(),
        ensures
            final(self).wf(),
            match old(self)@.start() {
                Ok(ready) => {
                    &&& res == ready.run(fuel as nat).result
                    &&& final(self)@ == ready.run(fuel as nat).machine
                    &&& final(out)@ == old(out)@ + ready.run(fuel as nat).output
                },
                Err(e) => {
                    &&& res == Err::<bool, Error>(e)
                    &&& final(self)@ == old(self)@
                    &&& final(out)@ == old(out)@
                },
            },
    {
        self.start()?;
        let ghost ready = self@;
        let ghost mut done: Seq<Action> = Seq::empty();
        let mut left: usize = fuel;
        while self.program_counter < self.instructions.len() && left > 0
            invariant
                self.wf(),
                left <= fuel,
                old(self)@.start() == Ok::<Machine, Error>(ready),
                out@ == old(out)@ + done,
                ready.run(fuel as nat).result == self@.run(left as nat).result,
                ready.run(fuel as nat).machine == self@.run(left as nat).machine,
                ready.run(fuel as nat).output == done + self@.run(left as nat).output,
            decreases left,
        {
            match self.step() {
                Err(e) => {
                    return Err(e);
                },
                Ok(action) => {
                    match action {
                        Action::Print(_, _) | Action::Exit => {
                            out.push(action);
                        },
                        Action::Next | Action::Jump => {},
                    }
                    proof {
                        done = done + emitted(action);
                    }
                    if let Action::Exit = action {
                        return Ok(true);
                    }
                    left -= 1;
                },
            }
        }
        Ok(self.program_counter >= self.instructions.len())
    }

    /// The address at which the program declares the label `name`.
    pub fn label(&self, name: &str) -> (address: Option<usize>)
        ensures
            address == lookup(self@.labels, name@),
    {
        self.labels.get(name)
    }
}

impl Default for Simulator {
    fn default() -> (sim: Simulator)
        ensures
            sim.wf(),
            sim@ == (Machine {
                registers: Seq::new(REGISTERS as nat, |i: int| 0i32),
                counter: 0,
                labels: Map::empty(),
                instructions: Seq::empty(),
            }),
    {
        Simulator::new()
    }
}

} // verus!
