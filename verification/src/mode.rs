//! The transpose mode of a matrix operand and its one-character code.

use vstd::prelude::*;

verus! {

/// Code of [`Mode::Normal`]: the letter `N`.
pub const NORMAL: i8 = 78;

/// Code of [`Mode::Transposed`]: the letter `T`.
pub const TRANSPOSED: i8 = 84;

/// How an operation reads a stored matrix.
#[derive(Clone, Copy, Debug, PartialEq, Eq, Structural)]
pub enum Mode {
    /// The matrix as stored.
    Normal,
    /// The transpose of the stored matrix; the buffer itself is not moved.
    Transposed,
}

impl Mode {
    /// The code of a mode, as a mathematical integer.
    pub open spec fn spec_code(self) -> int {
        match self {
            Mode::Normal => 78,
            Mode::Transposed => 84,
        }
    }

    /// The character code that the numerical kernel expects for this mode.
    pub fn code(self) -> (c: i8)
        ensures
            c == self.spec_code(),
    {
        match self {
            Mode::Normal => NORMAL,
            Mode::Transposed => TRANSPOSED,
        }
    }

    /// The mode that a code stands for, if it stands for one.
    pub open spec fn spec_from_code(c: int) -> Option<Mode> {
        if c == 78 {
            Some(Mode::Normal)
        } else if c == 84 {
            Some(Mode::Transposed)
        } else {
            None
        }
    }

    /// The mode that a code stands for; `None` for any code but the two.
    pub fn from_code(c: i8) -> (r: Option<Mode>)
        ensures
            r == Mode::spec_from_code(c as int),
    {
        if c == NORMAL {
            Some(Mode::Normal)
        } else if c == TRANSPOSED {
            Some(Mode::Transposed)
        } else {
            None
        }
    }

    /// Reading a mode's code gives the mode back, and a code that stands
    /// for a mode is that mode's code.
    pub proof fn lemma_code_round_trip(self, c: int)
        ensures
            Mode::spec_from_code(self.spec_code()) == Some(self),
            Mode::spec_from_code(c) == Some(self) ==> c == self.spec_code(),
    {
    }
}

} // verus!
