use vstd::prelude::*;

use crate::board::Error;
use crate::color::Color;

verus! {

/// What a piece is, whatever its side.
#[derive(Debug, Copy, Clone, PartialEq, Eq, Structural, Hash, PartialOrd, Ord)]
pub enum Kind {
    King,
    Queen,
    Rook,
    Bishop,
    Knight,
    Pawn,
}

/// The lowercase letter that FEN uses for a kind.
pub open spec fn kind_char(k: Kind) -> char {
    match k {
        Kind::King => 'k',
        Kind::Queen => 'q',
        Kind::Rook => 'r',
        Kind::Bishop => 'b',
        Kind::Knight => 'n',
        Kind::Pawn => 'p',
    }
}

/// The kind that a lowercase FEN letter names, if any.
pub open spec fn kind_of_char(c: char) -> Option<Kind> {
    if c == 'k' {
        Some(Kind::King)
    } else if c == 'q' {
        Some(Kind::Queen)
    } else if c == 'r' {
        Some(Kind::Rook)
    } else if c == 'b' {
        Some(Kind::Bishop)
    } else if c == 'n' {
        Some(Kind::Knight)
    } else if c == 'p' {
        Some(Kind::Pawn)
    } else {
        None
    }
}

/// The uppercase form of a lowercase ASCII letter.
pub open spec fn upper(c: char) -> char {
    if 'a' <= c && c <= 'z' {
        ((c as u32) - 32) as char
    } else {
        c
    }
}

impl Kind {
    pub fn to_char(&self) -> (r: char)
        ensures
            r == kind_char(*self),
    {
        match self {
            Kind::King => 'k',
            Kind::Queen => 'q',
            Kind::Rook => 'r',
            Kind::Bishop => 'b',
            Kind::Knight => 'n',
            Kind::Pawn => 'p',
        }
    }

    /// Reads a kind from its lowercase FEN letter.
    pub fn from(char: char) -> (r: Result<Kind, Error>)
        ensures
            kind_of_char(char) matches Some(k) ==> r == Ok::<Kind, Error>(k),
            kind_of_char(char) is None ==> r == Err::<Kind, Error>(Error::InvalidPieceChar(char)),
    {
        match char {
            'k' => Ok(Kind::King),
            'q' => Ok(Kind::Queen),
            'r' => Ok(Kind::Rook),
            'b' => Ok(Kind::Bishop),
            'n' => Ok(Kind::Knight),
            'p' => Ok(Kind::Pawn),
            _ => Err(Error::InvalidPieceChar(char)),
        }
    }
}

/// A piece on the board: its kind and its side.
#[derive(Debug, Copy, Clone, PartialEq, Eq, Structural)]
pub struct Piece {
    pub kind: Kind,
    pub color: Color,
}

/// The content of one square of the board.
pub type Square = Option<Piece>;

/// The FEN letter of a square: uppercase for White, lowercase for Black, `.` when empty.
pub open spec fn square_char(s: Square) -> char {
    match s {
        Some(p) => match p.color {
            Color::White => upper(kind_char(p.kind)),
            Color::Black => kind_char(p.kind),
        },
        None => '.',
    }
}

/// Both squares hold a piece, and the two pieces are of one side.
pub open spec fn same_color(a: Square, b: Square) -> bool {
    a is Some && b is Some && a->0.color == b->0.color
}

impl Piece {
    /// The FEN letter of this piece: uppercase for White, lowercase for Black.
    pub fn to_char(&self) -> (r: char)
        ensures
            r == square_char(Some(*self)),
    {
        match self.color {
            Color::White => match self.kind {
                Kind::King => 'K',
                Kind::Queen => 'Q',
                Kind::Rook => 'R',
                Kind::Bishop => 'B',
                Kind::Knight => 'N',
                Kind::Pawn => 'P',
            },
            Color::Black => self.kind.to_char(),
        }
    }

    pub fn square_to_char(square: &Square) -> (r: char)
        ensures
            r == square_char(*square),
    {
        match square {
            Some(piece) => piece.to_char(),
            None => '.',
        }
    }

    pub fn is_same_color(square1: Square, square2: Square) -> (r: bool)
        ensures
            r == same_color(square1, square2),
    {
        match square1 {
            None => false,
            Some(piece1) => match square2 {
                Some(piece2) => piece1.color == piece2.color,
                None => false,
            },
        }
    }

    /// The piece on a square, or an error for an empty one.
    pub fn get_piece(square: Square) -> (r: Result<Piece, Error>)
        ensures
            square matches Some(p) ==> r == Ok::<Piece, Error>(p),
            square is None ==> r == Err::<Piece, Error>(Error::MoveEmptySquare),
    {
        match square {
            Some(piece) => Ok(piece),
            None => Err(Error::MoveEmptySquare),
        }
    }
}

} // verus!
