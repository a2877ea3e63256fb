//! The machine as a mathematical value, and what each instruction does to
//! it. The executable simulator is specified against this model.

use crate::simulator::labels::lookup;
use crate::simulator::{Action, Error, InstructionsView, REGISTERS};
use vstd::prelude::*;

verus! {

/// The signed 32-bit integer that differs from `v` by a multiple of 2^32.
pub open spec fn wrap(v: int) -> i32 {
    let low = v % 0x1_0000_0000;
    if low >= 0x8000_0000 {
        (low - 0x1_0000_0000) as i32
    } else {
        low as i32
    }
}

/// The size of `x` without its sign.
pub open spec fn magnitude(x: int) -> int {
    if x < 0 {
        -x
    } else {
        x
    }
}

/// `x` divided by `y`, rounded toward zero.
pub open spec fn quotient(x: int, y: int) -> int
    recommends
        y != 0,
{
    if (x < 0) == (y < 0) {
        magnitude(x) / magnitude(y)
    } else {
        -(magnitude(x) / magnitude(y))
    }
}

/// What is left of `x` after taking out `y` as often as `quotient` says; it
/// has the sign of `x`.
pub open spec fn remainder(x: int, y: int) -> int
    recommends
        y != 0,
{
    x - y * quotient(x, y)
}

/// Dividing by a negative number: the quotient changes its sign and the
/// remainder stays.
pub proof fn lemma_negative_divisor(a: int, b: int)
    requires
        b > 0,
    ensures
        a / (-b) == -(a / b),
        a % (-b) == a % b,
{
    let q = a / b;
    let r = a % b;
    let p = a / (-b);
    let s = a % (-b);
    assert(a == b * q + r && 0 <= r < b) by (nonlinear_arith)
        requires
            b > 0,
            q == a / b,
            r == a % b,
    ;
    assert(a == (-b) * p + s && 0 <= s < b) by (nonlinear_arith)
        requires
            b > 0,
            p == a / (-b),
            s == a % (-b),
    ;
    assert(p == -q && s == r) by (nonlinear_arith)
        requires
            b > 0,
            a == b * q + r,
            0 <= r < b,
            a == (-b) * p + s,
            0 <= s < b,
    ;
}

/// Division rounds toward zero: the quotient times the divisor is no
/// further from zero than the dividend, and what is left is smaller than the
/// divisor and has the sign of the dividend.
pub proof fn lemma_division(x: int, y: int)
    requires
        y != 0,
    ensures
        x == y * quotient(x, y) + remainder(x, y),
        magnitude(remainder(x, y)) < magnitude(y),
        x >= 0 ==> remainder(x, y) >= 0,
        x <= 0 ==> remainder(x, y) <= 0,
        magnitude(quotient(x, y)) == magnitude(x) / magnitude(y),
        magnitude(quotient(x, y)) <= magnitude(x),
        magnitude(y) == 1 ==> magnitude(quotient(x, y)) == magnitude(x),
        magnitude(y) >= 2 ==> 2 * magnitude(quotient(x, y)) <= magnitude(x),
        remainder(x, y) == (if x >= 0 {
            magnitude(x) % magnitude(y)
        } else {
            -(magnitude(x) % magnitude(y))
        }),
{
    let a = magnitude(x);
    let b = magnitude(y);
    let q = a / b;
    let r = a % b;
    assert(a == b * q + r && 0 <= r < b) by (nonlinear_arith)
        requires
            b > 0,
            q == a / b,
            r == a % b,
    ;
    assert(0 <= q <= a && (b == 1 ==> q == a) && (b >= 2 ==> 2 * q <= a)) by (nonlinear_arith)
        requires
            a >= 0,
            b > 0,
            a == b * q + r,
            0 <= r < b,
    ;
    assert(y * quotient(x, y) == (if x < 0 {
        -(b * q)
    } else {
        b * q
    })) by (nonlinear_arith)
        requires
            b == magnitude(y),
            y != 0,
            quotient(x, y) == (if (x < 0) == (y < 0) {
                q
            } else {
                -q
            }),
    ;
}

/// The five arithmetic operations of the machine.
pub enum Arithmetic {
    Add,
    Sub,
    Mul,
    Div,
    Rem,
}

/// The six comparisons that a conditional jump can make.
pub enum Comparison {
    Eq,
    Ne,
    Lt,
    Le,
    Gt,
    Ge,
}

/// The result of an arithmetic operation on two register values. Sums,
/// differences and products wrap around; a quotient is rounded toward zero.
pub open spec fn compute(op: Arithmetic, x: i32, y: i32) -> i32
    recommends
        (op is Div || op is Rem) ==> y != 0,
{
    match op {
        Arithmetic::Add => wrap(x + y),
        Arithmetic::Sub => wrap(x - y),
        Arithmetic::Mul => wrap(x * y),
        Arithmetic::Div => wrap(quotient(x as int, y as int)),
        Arithmetic::Rem => wrap(remainder(x as int, y as int)),
    }
}

/// Whether a comparison holds of two register values, taken as signed
/// numbers.
pub open spec fn holds(c: Comparison, x: i32, y: i32) -> bool {
    match c {
        Comparison::Eq => x == y,
        Comparison::Ne => x != y,
        Comparison::Lt => x < y,
        Comparison::Le => x <= y,
        Comparison::Gt => x > y,
        Comparison::Ge => x >= y,
    }
}

/// The state of a machine with its program: the register file, the
/// instruction pointer, the label table and the instructions.
#[verifier::ext_equal]
pub struct Machine {
    pub registers: Seq<i32>,
    pub counter: usize,
    pub labels: Map<Seq<char>, usize>,
    pub instructions: Seq<InstructionsView>,
}

/// What executing an instruction gives: the action for the driver and the
/// machine afterwards, or the error that stopped it.
pub type Outcome = Result<(Action, Machine), Error>;

/// Whether every address in `labels` lies within a program of `len`
/// instructions.
pub open spec fn within(labels: Map<Seq<char>, usize>, len: nat) -> bool {
    forall|name: Seq<char>| labels.contains_key(name) ==> #[trigger] labels[name] < len
}

impl Machine {
    /// The invariant of the machine: 32 registers, of which register 0 holds
    /// 0; a program whose addresses fit the machine word; an instruction
    /// pointer at an instruction or one past the last; and labels that stand
    /// at addresses of the program.
    pub open spec fn wf(self) -> bool {
        &&& self.registers.len() == REGISTERS
        &&& self.registers[0] == 0
        &&& self.instructions.len() <= usize::MAX
        &&& self.counter <= self.instructions.len()
        &&& within(self.labels, self.instructions.len())
    }

    /// The value of register `r`.
    pub open spec fn read(self, r: usize) -> i32
        recommends
            r < REGISTERS,
    {
        self.registers[r as int]
    }

    /// The machine after `v` was written to register `r`. Register 0 takes no
    /// value: a write to it changes nothing.
    pub open spec fn write(self, r: usize, v: i32) -> Machine
        recommends
            r < REGISTERS,
    {
        if r == 0 {
            self
        } else {
            Machine { registers: self.registers.update(r as int, v), ..self }
        }
    }

    /// The machine with its instruction pointer at `address`.
    pub open spec fn goto(self, address: usize) -> Machine {
        Machine { counter: address, ..self }
    }

    /// `LI`: register `a` takes the immediate `v`.
    pub open spec fn load_immediate(self, a: usize, v: i32) -> Outcome {
        if a >= REGISTERS {
            Err(Error::OutOfRange)
        } else {
            Ok((Action::Next, self.write(a, v)))
        }
    }

    /// `MOVE`: register `a` takes the value of register `b`.
    pub open spec fn copy(self, a: usize, b: usize) -> Outcome {
        if a >= REGISTERS || b >= REGISTERS {
            Err(Error::OutOfRange)
        } else {
            Ok((Action::Next, self.write(a, self.read(b))))
        }
    }

    /// `ADD`, `SUB`, `MUL`, `DIV`, `REM`: register `a` takes the result of
    /// `op` on registers `b` and `c`. The registers are checked first, then
    /// the divisor.
    pub open spec fn arithmetic(self, op: Arithmetic, a: usize, b: usize, c: usize) -> Outcome {
        if a >= REGISTERS || b >= REGISTERS || c >= REGISTERS {
            Err(Error::OutOfRange)
        } else if (op is Div || op is Rem) && self.read(c) == 0 {
            Err(Error::DivisionByZero)
        } else {
            Ok((Action::Next, self.write(a, compute(op, self.read(b), self.read(c)))))
        }
    }

    /// `PRINT`: register `a` and its value are handed out; nothing changes.
    pub open spec fn print(self, a: usize) -> Outcome {
        if a >= REGISTERS {
            Err(Error::OutOfRange)
        } else {
            Ok((Action::Print(a, self.read(a)), self))
        }
    }

    /// `JUMP`: the instruction pointer goes to the address that `labels`
    /// binds `name` to.
    pub open spec fn jump(self, labels: Map<Seq<char>, usize>, name: Seq<char>) -> Outcome {
        match lookup(labels, name) {
            Some(address) => Ok((Action::Jump, self.goto(address))),
            None => Err(Error::UnknownLabel),
        }
    }

    /// `BEQ`, `BNE`, `BLT`, `BLE`, `BGT`, `BGE`: a jump to `name` if the
    /// comparison holds of registers `a` and `b`; if not, nothing changes and
    /// the label is not looked up.
    pub open spec fn branch(
        self,
        labels: Map<Seq<char>, usize>,
        c: Comparison,
        a: usize,
        b: usize,
        name: Seq<char>,
    ) -> Outcome {
        if a >= REGISTERS || b >= REGISTERS {
            Err(Error::OutOfRange)
        } else if holds(c, self.read(a), self.read(b)) {
            self.jump(labels, name)
        } else {
            Ok((Action::Next, self))
        }
    }

    /// What `instruction` does to the machine, whatever address it stands
    /// at. The instruction pointer moves only where a jump is taken.
    pub open spec fn execute(self, instruction: InstructionsView) -> Outcome {
        match instruction {
            InstructionsView::LI(a, v) => self.load_immediate(a, v),
            InstructionsView::MOVE(a, b) => self.copy(a, b),
            InstructionsView::ADD(a, b, c) => self.arithmetic(Arithmetic::Add, a, b, c),
            InstructionsView::SUB(a, b, c) => self.arithmetic(Arithmetic::Sub, a, b, c),
            InstructionsView::MUL(a, b, c) => self.arithmetic(Arithmetic::Mul, a, b, c),
            InstructionsView::DIV(a, b, c) => self.arithmetic(Arithmetic::Div, a, b, c),
            InstructionsView::REM(a, b, c) => self.arithmetic(Arithmetic::Rem, a, b, c),
            InstructionsView::PRINT(a) => self.print(a),
            InstructionsView::EXIT => Ok((Action::Exit, self)),
            InstructionsView::SKIP => Ok((Action::Next, self)),
            InstructionsView::LABEL => Ok((Action::Next, self)),
            InstructionsView::JUMP(l) => self.jump(self.labels, l),
            InstructionsView::BEQ(a, b, l) => self.branch(self.labels, Comparison::Eq, a, b, l),
            InstructionsView::BNE(a, b, l) => self.branch(self.labels, Comparison::Ne, a, b, l),
            InstructionsView::BLT(a, b, l) => self.branch(self.labels, Comparison::Lt, a, b, l),
            InstructionsView::BLE(a, b, l) => self.branch(self.labels, Comparison::Le, a, b, l),
            InstructionsView::BGT(a, b, l) => self.branch(self.labels, Comparison::Gt, a, b, l),
            InstructionsView::BGE(a, b, l) => self.branch(self.labels, Comparison::Ge, a, b, l),
        }
    }

    /// Whether the instruction pointer is at an instruction.
    pub open spec fn running(self) -> bool {
        self.counter < self.instructions.len()
    }

    /// The instruction that the instruction pointer is at.
    pub open spec fn fetch(self) -> InstructionsView
        recommends
            self.running(),
    {
        self.instructions[self.counter as int]
    }

    /// The machine once the driver has followed `action`: the instruction
    /// pointer moves on by one unless the instruction set it or ended the
    /// run.
    pub open spec fn advance(self, action: Action) -> Machine
        recommends
            self.running(),
    {
        match action {
            Action::Next | Action::Print(_, _) => self.goto((self.counter + 1) as usize),
            Action::Jump | Action::Exit => self,
        }
    }

    /// One turn of the machine: fetch, execute, advance.
    pub open spec fn step(self) -> Outcome
        recommends
            self.running(),
    {
        match self.execute(self.fetch()) {
            Ok((action, after)) => Ok((action, after.advance(action))),
            Err(e) => Err(e),
        }
    }
}

/// The name of the label at which a run begins.
pub open spec fn entry_label() -> Seq<char> {
    "MAIN"@
}

/// What a run gives: the machine it leaves, what it emitted, in the order of
/// execution, and how it ended. `Ok(true)` says that the program ended, by
/// `EXIT` or by running past its last instruction; `Ok(false)` that the run
/// was cut short while the program could still go on.
#[verifier::ext_equal]
pub struct Run {
    pub machine: Machine,
    pub output: Seq<Action>,
    pub result: Result<bool, Error>,
}

/// What an action leaves in the output of a run: a `Print` and an `Exit` are
/// recorded, the others are not.
pub open spec fn emitted(action: Action) -> Seq<Action> {
    match action {
        Action::Print(_, _) | Action::Exit => seq![action],
        Action::Next | Action::Jump => Seq::empty(),
    }
}

impl Machine {
    /// What an executable function returns for `outcome` where it reports the
    /// action.
    pub open spec fn action_of(outcome: Outcome) -> Result<Action, Error> {
        match outcome {
            Ok((action, _)) => Ok(action),
            Err(e) => Err(e),
        }
    }

    /// What an executable function returns for `outcome` where it reports
    /// success only.
    pub open spec fn status_of(outcome: Outcome) -> Result<(), Error> {
        match outcome {
            Ok(_) => Ok(()),
            Err(e) => Err(e),
        }
    }

    /// The machine that `outcome` leaves: an instruction that fails changes
    /// nothing.
    pub open spec fn after(self, outcome: Outcome) -> Machine {
        match outcome {
            Ok((_, machine)) => machine,
            Err(_) => self,
        }
    }

    /// The machine made ready to run: its instruction pointer at the entry
    /// label. Without that label there is no start.
    pub open spec fn start(self) -> Result<Machine, Error> {
        match lookup(self.labels, entry_label()) {
            Some(address) => Ok(self.goto(address)),
            None => Err(Error::MainNotFound),
        }
    }

    /// The run of at most `fuel` instructions from where the machine stands.
    /// It ends when the instruction pointer leaves the program, when `EXIT`
    /// is executed, or at the first error; the machine is then left as the
    /// last instruction found it, or made it.
    pub open spec fn run(self, fuel: nat) -> Run
        decreases fuel,
    {
        if !self.running() {
            Run { machine: self, output: Seq::empty(), result: Ok(true) }
        } else if fuel == 0 {
            Run { machine: self, output: Seq::empty(), result: Ok(false) }
        } else {
            match self.step() {
                Err(e) => Run { machine: self, output: Seq::empty(), result: Err(e) },
                Ok((action, next)) => {
                    if action is Exit {
                        Run { machine: next, output: emitted(action), result: Ok(true) }
                    } else {
                        let rest = next.run((fuel - 1) as nat);
                        Run { output: emitted(action) + rest.output, ..rest }
                    }
                },
            }
        }
    }
}

/// An instruction keeps the invariant of the machine, its program and its
/// labels. It moves the instruction pointer only by a jump, to an address of
/// the program.
pub proof fn lemma_execute_keeps(m: Machine, instruction: InstructionsView)
    requires
        m.wf(),
    ensures
        match m.execute(instruction) {
            Ok((action, after)) => {
                &&& after.wf()
                &&& after.instructions == m.instructions
                &&& after.labels == m.labels
                &&& action is Jump ==> after.counter < m.instructions.len()
                &&& !(action is Jump) ==> after.counter == m.counter
            },
            Err(_) => true,
        },
{
}

/// A turn of a running machine keeps its invariant, its program and its
/// labels.
pub proof fn lemma_step_keeps(m: Machine)
    requires
        m.wf(),
        m.running(),
    ensures
        match m.step() {
            Ok((_, after)) => {
                &&& after.wf()
                &&& after.instructions == m.instructions
                &&& after.labels == m.labels
            },
            Err(_) => true,
        },
{
    lemma_execute_keeps(m, m.fetch());
}

} // verus!
