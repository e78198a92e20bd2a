//! Positioned instructions.

use vstd::prelude::*;
use crate::instruction::{instruction_of, RawInstruction};

verus! {

/// Represents a token in a brainfuck program, which consists of
/// a line number, column number, and [`RawInstruction`].
///
/// Lines and columns are counted from one, in characters of the source text.
#[derive(Debug, PartialEq, Eq, Clone, Copy)]
pub struct Token {
    pub line_number: usize,
    pub col_number: usize,
    pub instruction: RawInstruction,
}

/// The token that character `c` yields at the given position: none for a
/// comment character.
pub open spec fn token_at(line_number: usize, col_number: usize, c: char) -> Option<Token> {
    match instruction_of(c) {
        Some(instruction) => Some(Token { line_number, col_number, instruction }),
        None => None,
    }
}

/// The instructions of a token sequence, in order, without their positions.
pub open spec fn instructions(tokens: Seq<Token>) -> Seq<RawInstruction> {
    Seq::new(tokens.len(), |i: int| tokens[i].instruction)
}

impl Token {
    /// Attempts to create a new [`Token`], returning [`Some`] if the
    /// [`char`] is a valid [`RawInstruction`] and [`None`] otherwise.
    pub fn new(line_number: usize, col_number: usize, c: char) -> (r: Option<Self>)
        ensures
            r == token_at(line_number, col_number, c),
    {
        match RawInstruction::from_char(c) {
            Some(instruction) => Some(Token { line_number, col_number, instruction }),
            None => None,
        }
    }
}

} // verus!
