//! The tape: a row of byte cells with a cursor.
//!
//! A tape is never empty and its cursor always stands on a cell. It may grow
//! to the right, one zeroed cell at a time, if it was made expandable; it
//! never grows to the left.

use vstd::prelude::*;
use crate::cell::IncDec;
use crate::error::TapeError;

verus! {

/// The number of cells of a tape made with a requested size of zero.
pub const DEFAULT_TAPE_SIZE: usize = 30_000;

/// `n` cells that all hold zero.
pub open spec fn zeros(n: nat) -> Seq<u8> {
    Seq::new(n, |i: int| 0u8)
}

/// The number of cells that a tape of the requested size starts with.
pub open spec fn effective_size(requested: usize) -> usize {
    if requested == 0 {
        DEFAULT_TAPE_SIZE
    } else {
        requested
    }
}

/// What a tape is: its cells, where the cursor stands, whether it may grow,
/// and the number of cells it was made with.
pub struct TapeModel {
    pub cells: Seq<u8>,
    pub cursor: int,
    pub expandable: bool,
    pub initial_len: nat,
}

impl TapeModel {
    /// The tape is not empty, holds at least the cells it was made with (and
    /// no more unless it may grow), and the cursor stands on a cell.
    pub open spec fn wf(self) -> bool {
        &&& 1 <= self.initial_len <= self.cells.len()
        &&& 0 <= self.cursor < self.cells.len()
        &&& !self.expandable ==> self.cells.len() == self.initial_len
    }

    /// A tape as it is made: all cells zero, the cursor on the first.
    pub open spec fn fresh(requested: usize, expandable: bool) -> TapeModel {
        TapeModel {
            cells: zeros(effective_size(requested) as nat),
            cursor: 0,
            expandable,
            initial_len: effective_size(requested) as nat,
        }
    }

    /// The tape after a reset: as it was made.
    pub open spec fn cleared(self) -> TapeModel {
        TapeModel { cells: zeros(self.initial_len), cursor: 0, ..self }
    }

    /// The value of the cell under the cursor.
    pub open spec fn current(self) -> u8 {
        self.cells[self.cursor]
    }

    /// The tape with `value` in the cell under the cursor.
    pub open spec fn written(self, value: u8) -> TapeModel {
        TapeModel { cells: self.cells.update(self.cursor, value), ..self }
    }

    /// The tape with the cell under the cursor stepped up, wrapping round.
    pub open spec fn incremented(self) -> TapeModel {
        self.written(self.current().incremented())
    }

    /// The tape with the cell under the cursor stepped down, wrapping round.
    pub open spec fn decremented(self) -> TapeModel {
        self.written(self.current().decremented())
    }

    /// Whether the cursor can move left: it does not stand on the first cell.
    pub open spec fn can_move_left(self) -> bool {
        self.cursor > 0
    }

    /// The tape with the cursor one cell to the left.
    pub open spec fn moved_left(self) -> TapeModel {
        TapeModel { cursor: self.cursor - 1, ..self }
    }

    /// Whether the cursor can move right: there is a cell to its right, or
    /// the tape may grow.
    pub open spec fn can_move_right(self) -> bool {
        self.cursor + 1 < self.cells.len() || self.expandable
    }

    /// The tape with the cursor one cell to the right, on a new zeroed cell
    /// if it stood on the last.
    pub open spec fn moved_right(self) -> TapeModel {
        TapeModel {
            cells: if self.cursor + 1 < self.cells.len() {
                self.cells
            } else {
                self.cells.push(0u8)
            },
            cursor: self.cursor + 1,
            ..self
        }
    }

    /// The tape after moving the cursor right `n` times.
    pub open spec fn moved_right_by(self, n: nat) -> TapeModel
        decreases n,
    {
        if n == 0 {
            self
        } else {
            self.moved_right().moved_right_by((n - 1) as nat)
        }
    }
}

/// A growable linear memory of byte cells with a cursor.
pub struct Tape {
    cells: Vec<u8>,
    cursor: usize,
    expandable: bool,
    initial_len: usize,
}

impl View for Tape {
    type V = TapeModel;

    closed spec fn view(&self) -> TapeModel {
        TapeModel {
            cells: self.cells@,
            cursor: self.cursor as int,
            expandable: self.expandable,
            initial_len: self.initial_len as nat,
        }
    }
}

impl Tape {
    /// Whether the tape is in a valid state. Every tape that this module
    /// hands out is, and every operation keeps it so.
    pub open spec fn wf(&self) -> bool {
        self@.wf()
    }

    /// Creates a tape of `size` zeroed cells, or of [`DEFAULT_TAPE_SIZE`]
    /// cells if `size` is zero, with the cursor on the first cell.
    pub fn new(size: usize, expandable: bool) -> (tape: Tape)
        ensures
            tape.wf(),
            tape@ == TapeModel::fresh(size, expandable),
    {
        let initial_len = if size == 0 {
            DEFAULT_TAPE_SIZE
        } else {
            size
        };
        let cells = vec![0u8; initial_len];
        assert(cells@ =~= zeros(initial_len as nat));
        Tape { cells, cursor: 0, expandable, initial_len }
    }

    /// Puts the tape back as it was made: the initial number of cells, all
    /// zero, and the cursor on the first.
    pub fn reset(&mut self)
        requires
            old(self).wf(),
        ensures
            final(self).wf(),
            final(self)@ == old(self)@.cleared(),
    {
        let cells = vec![0u8; self.initial_len];
        assert(cells@ =~= zeros(self.initial_len as nat));
        self.cells = cells;
        self.cursor = 0;
    }

    /// Moves the cursor one cell to the right. On the last cell, an
    /// expandable tape grows by one zeroed cell; any other tape fails with
    /// [`TapeError::TapeOverflow`] and stays as it was.
    pub fn move_right(&mut self) -> (r: Result<(), TapeError>)
        requires
            old(self).wf(),
        ensures
            final(self).wf(),
            r is Ok <==> old(self)@.can_move_right(),
            r is Ok ==> final(self)@ == old(self)@.moved_right(),
            r matches Err(e) ==> e == TapeError::TapeOverflow && final(self)@ == old(self)@,
    {
        let len = self.cells.len();
        if self.cursor + 1 == len {
            if !self.expandable {
                return Err(TapeError::TapeOverflow);
            }
            self.cells.push(0);
        }
        self.cursor += 1;
        Ok(())
    }

    /// Moves the cursor one cell to the left. On the first cell, the tape
    /// fails with [`TapeError::TapeUnderflow`] and stays as it was.
    pub fn move_left(&mut self) -> (r: Result<(), TapeError>)
        requires
            old(self).wf(),
        ensures
            final(self).wf(),
            r is Ok <==> old(self)@.can_move_left(),
            r is Ok ==> final(self)@ == old(self)@.moved_left(),
            r matches Err(e) ==> e == TapeError::TapeUnderflow && final(self)@ == old(self)@,
    {
        if self.cursor == 0 {
            return Err(TapeError::TapeUnderflow);
        }
        self.cursor -= 1;
        Ok(())
    }

    /// Steps the cell under the cursor up by one, wrapping from the largest
    /// value to zero.
    pub fn increment(&mut self)
        requires
            old(self).wf(),
        ensures
            final(self).wf(),
            final(self)@ == old(self)@.incremented(),
    {
        let value = self.cells[self.cursor].increment();
        self.cells.set(self.cursor, value);
    }

    /// Steps the cell under the cursor down by one, wrapping from zero to
    /// the largest value.
    pub fn decrement(&mut self)
        requires
            old(self).wf(),
        ensures
            final(self).wf(),
            final(self)@ == old(self)@.decremented(),
    {
        let value = self.cells[self.cursor].decrement();
        self.cells.set(self.cursor, value);
    }

    /// The value of the cell under the cursor.
    pub fn read(&self) -> (value: u8)
        requires
            self.wf(),
        ensures
            value == self@.current(),
    {
        self.cells[self.cursor]
    }

    /// Stores `value` in the cell under the cursor.
    pub fn write(&mut self, value: u8)
        requires
            old(self).wf(),
        ensures
            final(self).wf(),
            final(self)@ == old(self)@.written(value),
    {
        self.cells.set(self.cursor, value);
    }

    /// The index of the cell under the cursor.
    pub fn cursor(&self) -> (cursor: usize)
        ensures
            cursor == self@.cursor,
    {
        self.cursor
    }

    /// The number of cells.
    pub fn len(&self) -> (len: usize)
        ensures
            len == self@.cells.len(),
    {
        self.cells.len()
    }

    /// Whether the tape may grow to the right.
    pub fn is_expandable(&self) -> (expandable: bool)
        ensures
            expandable == self@.expandable,
    {
        self.expandable
    }

    /// All cells, from the first.
    pub fn cells(&self) -> (cells: &[u8])
        ensures
            cells@ == self@.cells,
    {
        self.cells.as_slice()
    }
}

/// A cell at the largest value steps up to zero, and a cell at zero steps
/// down to the largest value.
pub proof fn lemma_cell_wraps(tape: TapeModel)
    requires
        tape.wf(),
    ensures
        tape.current() == u8::MAX ==> tape.incremented().current() == 0,
        tape.current() == 0 ==> tape.decremented().current() == u8::MAX,
        tape.incremented().decremented() == tape,
        tape.decremented().incremented() == tape,
{
    assert(tape.incremented().decremented().cells =~= tape.cells);
    assert(tape.decremented().incremented().cells =~= tape.cells);
}

/// A tape that cannot grow and has one cell cannot move right, and no tape
/// can move left from its first cell.
pub proof fn lemma_cursor_limits(tape: TapeModel)
    requires
        tape.wf(),
    ensures
        !tape.expandable && tape.cells.len() == 1 ==> !tape.can_move_right(),
        !tape.expandable && tape.cursor + 1 == tape.cells.len() ==> !tape.can_move_right(),
        tape.cursor == 0 ==> !tape.can_move_left(),
{
}

/// An expandable tape can always move right, however often: it stays
/// valid, the cursor ends `n` cells further, the tape is as long as the
/// cursor needs and no shorter than before, every cell that existed keeps
/// its value and every new cell holds zero.
pub proof fn lemma_expandable_grows(tape: TapeModel, n: nat)
    requires
        tape.wf(),
        tape.expandable,
    ensures
        ({
            let moved = tape.moved_right_by(n);
            &&& moved.wf()
            &&& moved.can_move_right()
            &&& moved.expandable
            &&& moved.initial_len == tape.initial_len
            &&& moved.cursor == tape.cursor + n
            &&& moved.cells.len() == if tape.cursor + n < tape.cells.len() {
                tape.cells.len() as int
            } else {
                tape.cursor + n + 1
            }
            &&& forall|i: int| 0 <= i < tape.cells.len() ==> moved.cells[i] == tape.cells[i]
            &&& forall|i: int| tape.cells.len() <= i < moved.cells.len() ==> moved.cells[i] == 0
        }),
    decreases n,
{
    if n > 0 {
        lemma_expandable_grows(tape.moved_right(), (n - 1) as nat);
    }
}

} // verus!
