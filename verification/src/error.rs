//! What can go wrong, at load time and while running.

use vstd::prelude::*;

verus! {

/// Why source text could not be made into a program.
#[derive(Debug, PartialEq, Eq, Clone, Copy)]
pub enum LoadError {
    /// The loop instruction at this position has no partner.
    UnbalancedLoop { line: usize, column: usize },
}

/// Why the tape cursor could not be moved.
#[derive(Debug, PartialEq, Eq, Clone, Copy)]
pub enum TapeError {
    /// The cursor stood at the first cell and was moved left.
    TapeUnderflow,
    /// The cursor stood at the last cell of a tape that cannot grow and was
    /// moved right.
    TapeOverflow,
}

/// The kinds of failure that abort a run.
#[derive(Debug, PartialEq, Eq, Clone, Copy)]
pub enum RuntimeErrorKind {
    /// The cursor was moved below the first cell.
    TapeUnderflow,
    /// The cursor was moved past the last cell of a tape that cannot grow.
    TapeOverflow,
    /// The host could not read or write a byte.
    IOError,
}

/// A failure that aborted a run, with the position of the instruction that
/// was being carried out.
#[derive(Debug, PartialEq, Eq, Clone, Copy)]
pub struct RuntimeError {
    pub kind: RuntimeErrorKind,
    pub line: usize,
    pub column: usize,
}

/// The kind of run-time failure that a tape error becomes.
pub open spec fn kind_of(e: TapeError) -> RuntimeErrorKind {
    match e {
        TapeError::TapeUnderflow => RuntimeErrorKind::TapeUnderflow,
        TapeError::TapeOverflow => RuntimeErrorKind::TapeOverflow,
    }
}

impl TapeError {
    /// The kind of run-time failure that this tape error becomes.
    pub fn kind(self) -> (k: RuntimeErrorKind)
        ensures
            k == kind_of(self),
    {
        match self {
            TapeError::TapeUnderflow => RuntimeErrorKind::TapeUnderflow,
            TapeError::TapeOverflow => RuntimeErrorKind::TapeOverflow,
        }
    }
}

} // verus!
