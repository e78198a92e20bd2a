//! What a tape cell can do: step up and down, wrapping round at the ends of
//! its range.

use vstd::prelude::*;

verus! {

/// A value that can be stepped up and down by one, wrapping round at the
/// ends of its range.
pub trait IncDec: Sized {
    /// The value one step up.
    spec fn incremented(&self) -> Self;

    /// The value one step down.
    spec fn decremented(&self) -> Self;

    /// Steps the value up by one.
    fn increment(&self) -> (r: Self)
        ensures
            r == self.incremented(),
    ;

    /// Steps the value down by one.
    fn decrement(&self) -> (r: Self)
        ensures
            r == self.decremented(),
    ;
}

impl IncDec for u8 {
    open spec fn incremented(&self) -> u8 {
        if *self == u8::MAX {
            0
        } else {
            (*self + 1) as u8
        }
    }

    open spec fn decremented(&self) -> u8 {
        if *self == 0 {
            u8::MAX
        } else {
            (*self - 1) as u8
        }
    }

    fn increment(&self) -> (r: u8) {
        self.wrapping_add(1)
    }

    fn decrement(&self) -> (r: u8) {
        self.wrapping_sub(1)
    }
}

/// Stepping a byte up adds one modulo 256, and stepping it down subtracts
/// one modulo 256.
pub proof fn lemma_steps_are_modular(x: u8)
    ensures
        x.incremented() == (x + 1) % 256,
        x.decremented() == (x + 255) % 256,
{
}

/// Stepping a byte up and then down, or down and then up, gives the byte
/// back.
pub proof fn lemma_steps_are_inverse(x: u8)
    ensures
        x.incremented().decremented() == x,
        x.decremented().incremented() == x,
{
}

} // verus!
