//! A small register machine: thirty-two integer registers, a textual
//! instruction language with labels, and an interpreter whose behaviour is
//! stated over a mathematical model and proved.

pub mod operation;
pub mod parser;
pub mod simulator;
