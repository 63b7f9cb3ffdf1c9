use vstd::prelude::*;

use crate::board::Error;

verus! {

/// The two sides of a game.
#[derive(Debug, Copy, Clone, PartialEq, Eq, Structural)]
pub enum Color {
    White,
    Black,
}

/// The other side.
pub open spec fn opposite_of(c: Color) -> Color {
    match c {
        Color::White => Color::Black,
        Color::Black => Color::White,
    }
}

impl Color {
    /// Reads the side to move as FEN writes it: `"w"` or `"b"`.
    pub fn from(turn: &str) -> (r: Result<Color, Error>)
        ensures
            turn@ == seq!['w'] ==> r == Ok::<Color, Error>(Color::White),
            turn@ == seq!['b'] ==> r == Ok::<Color, Error>(Color::Black),
            turn@ != seq!['w'] && turn@ != seq!['b'] ==> (r matches Err(Error::InvalidColorStr(s))
                && s@ == turn@),
    {
        if turn.unicode_len() == 1 {
            let c = turn.get_char(0);
            if c == 'w' {
                assert(turn@ =~= seq!['w']);
                return Ok(Color::White);
            } else if c == 'b' {
                assert(turn@ =~= seq!['b']);
                return Ok(Color::Black);
            }
        }
        Err(Error::InvalidColorStr(String::from_str(turn)))
    }

    /// The other side.
    pub fn opposite(&self) -> (r: Color)
        ensures
            r == opposite_of(*self),
    {
        match self {
            Color::White => Color::Black,
            Color::Black => Color::White,
        }
    }
}

} // verus!
