use vstd::prelude::*;

use crate::board::Error;
use crate::coordinate::{square_name, Coordinate};
use crate::piece::{Kind, Piece, Square};

verus! {

/// A move: where the piece starts, where it lands, and what a pawn becomes on the last rank.
///
/// Castling and en passant are not marked: they follow from the board the move is played on.
#[derive(Debug, Copy, Clone, PartialEq, Eq, Structural, Hash, PartialOrd, Ord)]
pub struct Move {
    pub start_index: usize,
    pub target_index: usize,
    pub promotion_kind: Option<Kind>,
}

/// Both ends of the move are squares of the board.
pub open spec fn move_on_board(m: Move) -> bool {
    m.start_index < 64 && m.target_index < 64
}

/// A king moving two files sideways: the board decides that this is castling.
pub open spec fn castling_shape(sq: Seq<Square>, m: Move) -> bool {
    &&& sq[m.start_index as int] matches Some(p)
    &&& p.kind == Kind::King
    &&& (m.target_index == m.start_index + 2 || m.start_index == m.target_index + 2)
}

/// The letter that ends the text of a promotion.
pub open spec fn promotion_text(k: Option<Kind>) -> Seq<char> {
    match k {
        Some(Kind::Queen) => seq!['q'],
        Some(Kind::Rook) => seq!['r'],
        Some(Kind::Bishop) => seq!['b'],
        Some(Kind::Knight) => seq!['n'],
        Some(_) => seq!['E'],
        None => seq![],
    }
}

/// Coordinate notation of a move, such as `e2e4` or `e7e8q`.
pub open spec fn move_text(m: Move) -> Seq<char> {
    square_name(m.start_index as int) + square_name(m.target_index as int) + promotion_text(
        m.promotion_kind,
    )
}

/// The four promotions of a pawn move, in the order rook, bishop, knight, queen.
pub open spec fn promotions(m: Move) -> Seq<Move> {
    seq![
        Move { promotion_kind: Some(Kind::Rook), ..m },
        Move { promotion_kind: Some(Kind::Bishop), ..m },
        Move { promotion_kind: Some(Kind::Knight), ..m },
        Move { promotion_kind: Some(Kind::Queen), ..m },
    ]
}

impl From<[usize; 2]> for Move {
    /// The plain move from the first index to the second.
    fn from(indices: [usize; 2]) -> (r: Move) {
        Move { start_index: indices[0], target_index: indices[1], promotion_kind: None }
    }
}

impl vstd::std_specs::convert::FromSpecImpl<[usize; 2]> for Move {
    open spec fn obeys_from_spec() -> bool {
        true
    }

    open spec fn from_spec(indices: [usize; 2]) -> Move {
        Move { start_index: indices@[0], target_index: indices@[1], promotion_kind: None }
    }
}

impl Move {
    pub fn new(start_index: usize, target_index: usize) -> (r: Move)
        ensures
            r == (Move { start_index, target_index, promotion_kind: None }),
    {
        Move { start_index, target_index, promotion_kind: None }
    }

    pub fn set_promotion_kind(self, promotion: Kind) -> (r: Move)
        ensures
            r == (Move { promotion_kind: Some(promotion), ..self }),
    {
        Move { promotion_kind: Some(promotion), ..self }
    }

    pub fn indices(&self) -> (r: (usize, usize))
        ensures
            r == (self.start_index, self.target_index),
    {
        (self.start_index, self.target_index)
    }

    /// This move once for each kind a pawn may become.
    pub fn promotion_moves(&self) -> (r: Vec<Move>)
        ensures
            r@ == promotions(*self),
    {
        let r = vec![
            Move { promotion_kind: Some(Kind::Rook), ..*self },
            Move { promotion_kind: Some(Kind::Bishop), ..*self },
            Move { promotion_kind: Some(Kind::Knight), ..*self },
            Move { promotion_kind: Some(Kind::Queen), ..*self },
        ];
        assert(r@ =~= promotions(*self));
        r
    }

    /// Whether this move, played on `squares`, is castling.
    pub fn is_castling(&self, squares: &[Option<Piece>; 64]) -> (r: Result<bool, Error>)
        requires
            move_on_board(*self),
        ensures
            squares@[self.start_index as int] is None ==> r == Err::<bool, Error>(
                Error::MoveEmptySquare,
            ),
            squares@[self.start_index as int] is Some ==> r == Ok::<bool, Error>(
                castling_shape(squares@, *self),
            ),
    {
        if let Some(piece) = squares[self.start_index] {
            if piece.kind != Kind::King {
                return Ok(false);
            }
            Ok(self.target_index == self.start_index + 2 || self.start_index
                == self.target_index + 2)
        } else {
            Err(Error::MoveEmptySquare)
        }
    }

    /// The target square of this move when it is castling from a king's home square.
    pub fn castling_move(&self, squares: &[Option<Piece>; 64]) -> (r: Result<Option<usize>, Error>)
        requires
            move_on_board(*self),
        ensures
            squares@[self.start_index as int] is None ==> r == Err::<Option<usize>, Error>(
                Error::MoveEmptySquare,
            ),
            squares@[self.start_index as int] is Some ==> r == Ok::<Option<usize>, Error>(
                if castling_shape(squares@, *self) && (self.start_index == 4
                    || self.start_index == 60) {
                    Some(self.target_index)
                } else {
                    None
                },
            ),
    {
        let start_square = squares[self.start_index];
        if let Some(piece) = start_square {
            if piece.kind != Kind::King {
                return Ok(None);
            }
            if self.target_index != self.start_index + 2 && self.start_index
                != self.target_index + 2 {
                return Ok(None);
            }
            if self.start_index != 4 && self.start_index != 60 {
                return Ok(None);
            }
            Ok(Some(self.target_index))
        } else {
            Err(Error::MoveEmptySquare)
        }
    }

    /// Coordinate notation of this move, such as `e2e4` or `e7e8q`.
    pub fn to_string(&self) -> (r: String)
        requires
            move_on_board(*self),
        ensures
            r@ == move_text(*self),
    {
        let mut s = Coordinate::from_index(self.start_index).to_string();
        let target = Coordinate::from_index(self.target_index).to_string();
        s.append(target.as_str());
        let promotion: &str = match self.promotion_kind {
            Some(Kind::Queen) => "q",
            Some(Kind::Rook) => "r",
            Some(Kind::Bishop) => "b",
            Some(Kind::Knight) => "n",
            Some(_) => "E",
            None => "",
        };
        proof {
            reveal_strlit("q");
            reveal_strlit("r");
            reveal_strlit("b");
            reveal_strlit("n");
            reveal_strlit("E");
            reveal_strlit("");
        }
        s.append(promotion);
        assert(s@ =~= move_text(*self));
        s
    }
}

} // verus!
