//! The state of one cell and the symbols that stand for it in text.

use vstd::prelude::*;
use vstd::string::StringExecFns;
use crate::strings::push_char;

verus! {

/// The state of one cell of the grid.
#[derive(PartialEq, Eq, Clone, Copy, Debug, Structural)]
pub enum Square {
    /// The cell is not occupied; written `.`.
    False,
    /// The cell is occupied; written `#`.
    True,
    /// The cell's state is not determined yet; written `?`.
    Unknown,
}

/// The failure of reading a symbol that stands for no cell state.
#[derive(PartialEq, Eq, Clone, Copy, Debug, Structural)]
pub struct InvalidInput {
    /// The symbol that was refused, as it was read.
    pub symbol: char,
}

/// What a symbol of a text grid stands for, if anything.
pub open spec fn square_of(c: char) -> Option<Square> {
    if c == '#' {
        Some(Square::True)
    } else if c == '.' {
        Some(Square::False)
    } else if c == '?' {
        Some(Square::Unknown)
    } else {
        None
    }
}

/// The symbol that is written for a cell state.
pub open spec fn symbol_of(s: Square) -> char {
    match s {
        Square::True => '#',
        Square::False => '.',
        Square::Unknown => '?',
    }
}

/// The text of the failure on symbol `c`: a fixed sentence, and the symbol
/// itself as its last character.
pub open spec fn invalid_input_text(c: char) -> Seq<char> {
    "Invalid square in the input: "@.push(c)
}

/// Reads one symbol of a text grid: `#` is occupied, `.` is not occupied,
/// `?` is undetermined. Every other symbol is refused, and the failure
/// carries it.
pub fn parse_square(square: &char) -> (r: Result<Square, InvalidInput>)
    ensures
        r == match square_of(*square) {
            Some(s) => Ok::<Square, InvalidInput>(s),
            None => Err(InvalidInput { symbol: *square }),
        },
{
    let c: char = *square;
    if c == '#' {
        Ok(Square::True)
    } else if c == '.' {
        Ok(Square::False)
    } else if c == '?' {
        Ok(Square::Unknown)
    } else {
        Err(InvalidInput { symbol: c })
    }
}

impl InvalidInput {
    /// The text of this failure, which ends with the symbol that was refused.
    pub fn message(&self) -> (text: String)
        ensures
            text@ == invalid_input_text(self.symbol),
    {
        let mut text = String::from_str("Invalid square in the input: ");
        push_char(&mut text, self.symbol);
        text
    }
}

impl Square {
    /// The symbol of this cell state.
    pub fn symbol(&self) -> (c: char)
        ensures
            c == symbol_of(*self),
    {
        match self {
            Square::True => '#',
            Square::False => '.',
            Square::Unknown => '?',
        }
    }
}

} // verus!
