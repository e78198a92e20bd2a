//! Programs: tokens in source order, with their loops resolved.
//!
//! A program exists only if its loops are balanced. Building one pairs up
//! the loop instructions once; running it never has to search for a partner.

use vstd::prelude::*;
use vstd::string::StringExecFns;
use crate::error::LoadError;
use crate::instruction::{char_of, RawInstruction};
use crate::lexer::{lex, lex_spec, render};
use crate::loops::{
    balanced, lemma_jumps_involution, lemma_offender_unique, offender, resolve_loops, resolves,
};
use crate::token::{instructions, Token};

verus! {

/// What a program is: its name, its tokens in source order, and for each
/// token the index of its partner (for a loop instruction) or its own index
/// (for any other).
pub struct ProgramModel {
    pub name: Seq<char>,
    pub tokens: Seq<Token>,
    pub jumps: Seq<usize>,
}

impl ProgramModel {
    /// The instructions of the program, in order.
    pub open spec fn code(self) -> Seq<RawInstruction> {
        instructions(self.tokens)
    }

    /// Whether the token at `index` is a loop instruction.
    pub open spec fn is_loop(self, index: int) -> bool {
        &&& 0 <= index < self.tokens.len()
        &&& (self.tokens[index].instruction == RawInstruction::StartLoop
            || self.tokens[index].instruction == RawInstruction::EndLoop)
    }

    /// The jump table: the partner of every loop instruction, by index. It
    /// has no entry for any other instruction.
    pub open spec fn jump_table(self) -> Map<int, int> {
        Map::new(|i: int| self.is_loop(i), |i: int| self.jumps[i] as int)
    }

    /// The loops are balanced and every loop instruction is linked to its
    /// partner.
    pub open spec fn wf(self) -> bool {
        &&& balanced(self.code())
        &&& resolves(self.code(), self.jumps)
    }
}

/// The error for unbalanced tokens: the position of the token to report.
pub open spec fn unbalanced_at(tokens: Seq<Token>) -> LoadError {
    let at = offender(instructions(tokens));
    LoadError::UnbalancedLoop { line: tokens[at].line_number, column: tokens[at].col_number }
}

/// A brainfuck program, ie. a list of valid brainfuck instructions.
#[derive(Debug)]
pub struct BrainfuckProgram {
    pub name: String,
    tokens: Vec<Token>,
    jumps: Vec<usize>,
}

impl View for BrainfuckProgram {
    type V = ProgramModel;

    closed spec fn view(&self) -> ProgramModel {
        ProgramModel { name: self.name@, tokens: self.tokens@, jumps: self.jumps@ }
    }
}

/// The source text of one instruction.
fn symbol(instruction: RawInstruction) -> (s: &'static str)
    ensures
        s@ == seq![char_of(instruction)],
{
    proof {
        reveal_strlit(">");
        reveal_strlit("<");
        reveal_strlit("+");
        reveal_strlit("-");
        reveal_strlit(".");
        reveal_strlit(",");
        reveal_strlit("[");
        reveal_strlit("]");
    }
    let s = match instruction {
        RawInstruction::IncrementPointer => ">",
        RawInstruction::DecrementPointer => "<",
        RawInstruction::Increment => "+",
        RawInstruction::Decrement => "-",
        RawInstruction::Output => ".",
        RawInstruction::Input => ",",
        RawInstruction::StartLoop => "[",
        RawInstruction::EndLoop => "]",
    };
    assert(s@ =~= seq![char_of(instruction)]);
    s
}

impl BrainfuckProgram {
    /// Whether the program is in a valid state. Every program that this
    /// module hands out is.
    pub open spec fn wf(&self) -> bool {
        self@.wf()
    }

    /// Creates a new [`BrainfuckProgram`] with the given file name and
    /// tokens, or fails with the position of the loop instruction that has no
    /// partner: the first loop end with no loop to close or, if there is
    /// none, the earliest loop start that is never closed.
    pub fn new(file_name: &str, tokens: Vec<Token>) -> (r: Result<BrainfuckProgram, LoadError>)
        ensures
            r is Ok <==> balanced(instructions(tokens@)),
            r matches Ok(program) ==> {
                &&& program.wf()
                &&& program@.name == file_name@
                &&& program@.tokens == tokens@
            },
            r matches Err(e) ==> e == unbalanced_at(tokens@),
    {
        match resolve_loops(tokens.as_slice()) {
            Ok(jumps) => Ok(BrainfuckProgram { name: file_name.to_owned(), tokens, jumps }),
            Err(at) => {
                proof {
                    lemma_offender_unique(instructions(tokens@), at as int, at as int);
                }
                Err(
                    LoadError::UnbalancedLoop {
                        line: tokens[at].line_number,
                        column: tokens[at].col_number,
                    },
                )
            },
        }
    }

    /// Creates a new [`BrainfuckProgram`] with the given file name from
    /// source text: everything but the eight instruction characters is a
    /// comment.
    pub fn from_string(file_name: &str, content: &str) -> (r: Result<BrainfuckProgram, LoadError>)
        ensures
            r is Ok <==> balanced(instructions(lex_spec(content@))),
            r matches Ok(program) ==> {
                &&& program.wf()
                &&& program@.name == file_name@
                &&& program@.tokens == lex_spec(content@)
            },
            r matches Err(e) ==> e == unbalanced_at(lex_spec(content@)),
    {
        BrainfuckProgram::new(file_name, lex(content))
    }

    /// The tokens of the program, in source order.
    pub fn get_tokens(&self) -> (tokens: &[Token])
        ensures
            tokens@ == self@.tokens,
    {
        self.tokens.as_slice()
    }

    /// The number of tokens.
    pub fn len(&self) -> (len: usize)
        ensures
            len == self@.tokens.len(),
    {
        self.tokens.len()
    }

    /// The index of the partner of the loop instruction at `index`, and
    /// nothing for any other instruction or an index past the end.
    pub fn jump_target(&self, index: usize) -> (target: Option<usize>)
        requires
            self.wf(),
        ensures
            target is Some <==> self@.is_loop(index as int),
            target matches Some(partner) ==> {
                &&& partner == self@.jump_table()[index as int]
                &&& self@.is_loop(partner as int)
                &&& self@.jump_table()[partner as int] == index
            },
    {
        if index >= self.tokens.len() {
            return None;
        }
        proof {
            lemma_jumps_involution(self@.code(), self@.jumps, index as int);
        }
        match self.tokens[index].instruction {
            RawInstruction::StartLoop | RawInstruction::EndLoop => Some(self.jumps[index]),
            _ => None,
        }
    }

    /// The entry of the jump table for the token at `index`: the partner of
    /// a loop instruction.
    pub(crate) fn partner(&self, index: usize) -> (partner: usize)
        requires
            self.wf(),
            self@.is_loop(index as int),
        ensures
            partner == self@.jump_table()[index as int],
            partner < self@.tokens.len(),
    {
        proof {
            lemma_jumps_involution(self@.code(), self@.jumps, index as int);
        }
        self.jumps[index]
    }

    /// The program as source text without comments: one character per token.
    pub fn to_string(&self) -> (text: String)
        ensures
            text@ == render(self@.tokens),
    {
        let mut text = String::new();
        let mut i: usize = 0;
        while i < self.tokens.len()
            invariant
                i <= self.tokens@.len(),
                text@ == render(self.tokens@.subrange(0, i as int)),
            decreases self.tokens@.len() - i,
        {
            text.append(symbol(self.tokens[i].instruction));
            i += 1;
            assert(text@ =~= render(self.tokens@.subrange(0, i as int)));
        }
        assert(self.tokens@.subrange(0, i as int) =~= self.tokens@);
        text
    }
}

/// In a program, following a jump twice leads back to where one stood, and
/// a jump from a loop start leads forward to a loop end, and the other way
/// round.
pub proof fn lemma_jump_table_involution(program: ProgramModel, i: int)
    requires
        program.wf(),
        program.is_loop(i),
    ensures
        program.is_loop(program.jump_table()[i]),
        program.jump_table()[program.jump_table()[i]] == i,
        program.tokens[i].instruction == RawInstruction::StartLoop ==> {
            &&& i < program.jump_table()[i]
            &&& program.tokens[program.jump_table()[i]].instruction == RawInstruction::EndLoop
        },
        program.tokens[i].instruction == RawInstruction::EndLoop ==> {
            &&& program.jump_table()[i] < i
            &&& program.tokens[program.jump_table()[i]].instruction == RawInstruction::StartLoop
        },
{
    lemma_jumps_involution(program.code(), program.jumps, i);
}

} // verus!
