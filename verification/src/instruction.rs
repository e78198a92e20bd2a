//! The instruction alphabet.

use vstd::prelude::*;

verus! {

/// Enumerates all the instructions in valid brainfuck code.
#[derive(Debug, PartialEq, Eq, Clone, Copy)]
pub enum RawInstruction {
    /// Moves the tape cursor one cell to the right.
    IncrementPointer,
    /// Moves the tape cursor one cell to the left.
    DecrementPointer,
    /// Adds one to the cell under the cursor, wrapping at the top.
    Increment,
    /// Subtracts one from the cell under the cursor, wrapping at zero.
    Decrement,
    /// Emits the cell under the cursor as one byte.
    Output,
    /// Reads one byte into the cell under the cursor.
    Input,
    /// If the cell under the cursor is zero, jumps past the matching
    /// [`RawInstruction::EndLoop`].
    StartLoop,
    /// If the cell under the cursor is not zero, jumps back to just after the
    /// matching [`RawInstruction::StartLoop`].
    EndLoop,
}

/// The instruction that a source character stands for, if any.
pub open spec fn instruction_of(c: char) -> Option<RawInstruction> {
    if c == '>' {
        Some(RawInstruction::IncrementPointer)
    } else if c == '<' {
        Some(RawInstruction::DecrementPointer)
    } else if c == '+' {
        Some(RawInstruction::Increment)
    } else if c == '-' {
        Some(RawInstruction::Decrement)
    } else if c == '.' {
        Some(RawInstruction::Output)
    } else if c == ',' {
        Some(RawInstruction::Input)
    } else if c == '[' {
        Some(RawInstruction::StartLoop)
    } else if c == ']' {
        Some(RawInstruction::EndLoop)
    } else {
        None
    }
}

/// The source character that stands for an instruction.
pub open spec fn char_of(instruction: RawInstruction) -> char {
    match instruction {
        RawInstruction::IncrementPointer => '>',
        RawInstruction::DecrementPointer => '<',
        RawInstruction::Increment => '+',
        RawInstruction::Decrement => '-',
        RawInstruction::Output => '.',
        RawInstruction::Input => ',',
        RawInstruction::StartLoop => '[',
        RawInstruction::EndLoop => ']',
    }
}

/// Whether a source character belongs to the instruction alphabet; every
/// other character is a comment.
pub open spec fn is_instruction_char(c: char) -> bool {
    instruction_of(c) is Some
}

impl RawInstruction {
    /// Decodes one source character.
    pub fn from_char(c: char) -> (r: Option<Self>)
        ensures
            r == instruction_of(c),
    {
        match c {
            '>' => Some(RawInstruction::IncrementPointer),
            '<' => Some(RawInstruction::DecrementPointer),
            '+' => Some(RawInstruction::Increment),
            '-' => Some(RawInstruction::Decrement),
            '.' => Some(RawInstruction::Output),
            ',' => Some(RawInstruction::Input),
            '[' => Some(RawInstruction::StartLoop),
            ']' => Some(RawInstruction::EndLoop),
            _ => None,
        }
    }

    /// Encodes the instruction as its source character.
    pub fn to_char(self) -> (c: char)
        ensures
            c == char_of(self),
    {
        match self {
            RawInstruction::IncrementPointer => '>',
            RawInstruction::DecrementPointer => '<',
            RawInstruction::Increment => '+',
            RawInstruction::Decrement => '-',
            RawInstruction::Output => '.',
            RawInstruction::Input => ',',
            RawInstruction::StartLoop => '[',
            RawInstruction::EndLoop => ']',
        }
    }
}

/// Encoding an instruction and decoding the character gives the instruction
/// back.
pub proof fn lemma_decode_encode(instruction: RawInstruction)
    ensures
        instruction_of(char_of(instruction)) == Some(instruction),
{
}

/// Decoding a character of the alphabet and encoding the instruction gives
/// the character back.
pub proof fn lemma_encode_decode(c: char)
    requires
        is_instruction_char(c),
    ensures
        char_of(instruction_of(c)->0) == c,
{
}

} // verus!
