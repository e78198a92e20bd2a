//! A small virtual machine for the eight-instruction Brainfuck language.
//!
//! Source text is lexed into positioned tokens, loops are resolved into a
//! jump table when a program is built, and an interpreter runs the program
//! against a tape of wrapping 8-bit cells.

pub mod cell;
pub mod error;
pub mod instruction;
pub mod interpreter;
pub mod lexer;
pub mod listing;
pub mod loops;
pub mod program;
pub mod tape;
pub mod token;

pub use cell::IncDec;
pub use error::{LoadError, RuntimeError, RuntimeErrorKind, TapeError};
pub use instruction::RawInstruction;
pub use interpreter::{Action, BrainfuckInterpreter, Event, RunSummary};
pub use program::BrainfuckProgram;
pub use tape::{Tape, DEFAULT_TAPE_SIZE};
pub use token::Token;
