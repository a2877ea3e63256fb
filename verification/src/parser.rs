//! Parsing for a caller that keeps label operands as they are written, with
//! the `@` in front of the name.

use crate::simulator::parser::parse_line;
use crate::simulator::printer::{label_text, write_label};
use crate::simulator::{Error, Instructions, InstructionsView};
use vstd::prelude::*;

verus! {

/// Why a line is no instruction.
#[derive(Clone, Copy, Debug, PartialEq, Eq, Structural)]
pub enum ParsingError {
    /// The first word of the line is no mnemonic.
    InvalidInstruction,
    /// The operands do not fit the mnemonic.
    InvalidParameter,
}

impl ParsingError {
    /// The sentence that describes the error.
    pub open spec fn text(self) -> Seq<char> {
        match self {
            ParsingError::InvalidInstruction => "the instruction is not valid, or doesn't exist"@,
            ParsingError::InvalidParameter => "the parameters are not valid"@,
        }
    }

    /// The sentence that describes the error.
    pub fn message(&self) -> (s: &'static str)
        ensures
            s@ == self.text(),
    {
        match self {
            ParsingError::InvalidInstruction => "the instruction is not valid, or doesn't exist",
            ParsingError::InvalidParameter => "the parameters are not valid",
        }
    }
}

/// The instruction with its label operand, if it has one, as written.
pub open spec fn as_written(instruction: InstructionsView) -> InstructionsView {
    match instruction {
        InstructionsView::JUMP(l) => InstructionsView::JUMP(label_text(l)),
        InstructionsView::BEQ(a, b, l) => InstructionsView::BEQ(a, b, label_text(l)),
        InstructionsView::BNE(a, b, l) => InstructionsView::BNE(a, b, label_text(l)),
        InstructionsView::BLT(a, b, l) => InstructionsView::BLT(a, b, label_text(l)),
        InstructionsView::BLE(a, b, l) => InstructionsView::BLE(a, b, label_text(l)),
        InstructionsView::BGT(a, b, l) => InstructionsView::BGT(a, b, label_text(l)),
        InstructionsView::BGE(a, b, l) => InstructionsView::BGE(a, b, label_text(l)),
        other => other,
    }
}

/// What a line of source text means, with label operands as written.
pub open spec fn parse_text(s: Seq<char>) -> Result<InstructionsView, ParsingError> {
    match parse_line(s) {
        Ok(instruction) => Ok(as_written(instruction)),
        Err(Error::InvalidParameter) => Err(ParsingError::InvalidParameter),
        Err(_) => Err(ParsingError::InvalidInstruction),
    }
}

/// Reads one line of source text as an instruction. A label operand keeps
/// its `@`.
pub fn parse_instruction(line: &str) -> (res: Result<Instructions, ParsingError>)
    ensures
        match res {
            Ok(instruction) => parse_text(line@) == Ok::<InstructionsView, ParsingError>(
                instruction@,
            ),
            Err(e) => parse_text(line@) == Err::<InstructionsView, ParsingError>(e),
        },
{
    match crate::simulator::parser::parse_instruction(line) {
        Ok(Instructions::JUMP(l)) => Ok(Instructions::JUMP(write_label(l.as_str()))),
        Ok(Instructions::BEQ(a, b, l)) => Ok(Instructions::BEQ(a, b, write_label(l.as_str()))),
        Ok(Instructions::BNE(a, b, l)) => Ok(Instructions::BNE(a, b, write_label(l.as_str()))),
        Ok(Instructions::BLT(a, b, l)) => Ok(Instructions::BLT(a, b, write_label(l.as_str()))),
        Ok(Instructions::BLE(a, b, l)) => Ok(Instructions::BLE(a, b, write_label(l.as_str()))),
        Ok(Instructions::BGT(a, b, l)) => Ok(Instructions::BGT(a, b, write_label(l.as_str()))),
        Ok(Instructions::BGE(a, b, l)) => Ok(Instructions::BGE(a, b, write_label(l.as_str()))),
        Ok(other) => Ok(other),
        Err(Error::InvalidParameter) => Err(ParsingError::InvalidParameter),
        Err(_) => Err(ParsingError::InvalidInstruction),
    }
}

} // verus!
