//! Whether squares are attacked, found by looking outwards from each square for the
//! first piece in each direction and for knights, never by listing the opponent's moves.
use vstd::prelude::*;

use crate::board::Board;
use crate::color::Color;
use crate::geometry::{edge, knight_jump, knight_square, ray_square, squares_to_edge, step_square};
use crate::piece::{Kind, Piece, Square};

verus! {

/// Directions from a king toward an enemy pawn that could take it.
pub open spec fn pawn_threat_dir(c: Color, d: int) -> bool {
    match c {
        Color::White => d == 4 || d == 6,
        Color::Black => d == 5 || d == 7,
    }
}

/// An enemy piece met first, `n + 1` steps away in direction `d`, attacks the square.
pub open spec fn threatens(p: Piece, d: int, n: int, c: Color) -> bool {
    ||| d < 4 && (p.kind == Kind::Rook || p.kind == Kind::Queen)
    ||| d >= 4 && (p.kind == Kind::Bishop || p.kind == Kind::Queen)
    ||| n == 0 && p.kind == Kind::King
    ||| n == 0 && p.kind == Kind::Pawn && pawn_threat_dir(c, d)
}

/// Walking from `s` in direction `d`, from step `n + 1` on, the first piece met is an
/// enemy of `c` that attacks `s`.
pub open spec fn ray_attacked(sq: Seq<Square>, s: int, d: int, n: int, c: Color) -> bool
    decreases edge(s, d) - n,
{
    if n >= edge(s, d) {
        false
    } else {
        match sq[ray_square(s, d, n + 1)] {
            None => ray_attacked(sq, s, d, n + 1, c),
            Some(p) => p.color != c && threatens(p, d, n, c),
        }
    }
}

/// An enemy knight of `c` stands a knight's jump away from `s`.
pub open spec fn knight_attacked(sq: Seq<Square>, s: int, c: Color) -> bool {
    exists|j: int|
        0 <= j < 8 && (#[trigger] knight_jump(s, j) matches Some(t) && (sq[t] matches Some(p)
            && p.kind == Kind::Knight && p.color != c))
}

/// The square `s` is attacked by the enemies of `c`.
pub open spec fn square_attacked(sq: Seq<Square>, s: int, c: Color) -> bool {
    knight_attacked(sq, s, c) || exists|d: int| 0 <= d < 8 && #[trigger] ray_attacked(sq, s, d, 0, c)
}

/// One of the squares `idx` is attacked by the enemies of `c`.
pub open spec fn any_attacked(sq: Seq<Square>, idx: Seq<usize>, c: Color) -> bool {
    exists|k: int| 0 <= k < idx.len() && #[trigger] square_attacked(sq, idx[k] as int, c)
}

fn piece_threatens(p: Piece, d: usize, n: usize, c: Color) -> (r: bool)
    ensures
        r == threatens(p, d as int, n as int, c),
{
    let pawn_dir = match c {
        Color::White => d == 4 || d == 6,
        Color::Black => d == 5 || d == 7,
    };
    (d < 4 && (p.kind == Kind::Rook || p.kind == Kind::Queen)) || (d >= 4 && (p.kind == Kind::Bishop
        || p.kind == Kind::Queen)) || (n == 0 && p.kind == Kind::King) || (n == 0 && p.kind
        == Kind::Pawn && pawn_dir)
}

impl Board {
    fn ray_attacked(&self, s: usize, d: usize, c: Color) -> (r: bool)
        requires
            s < 64,
            d < 8,
        ensures
            r == ray_attacked(self.squares@, s as int, d as int, 0, c),
    {
        let limit = squares_to_edge(s, d);
        let mut n: usize = 0;
        while n < limit
            invariant
                s < 64,
                d < 8,
                limit == edge(s as int, d as int),
                n <= limit,
                ray_attacked(self.squares@, s as int, d as int, 0, c) == ray_attacked(
                    self.squares@,
                    s as int,
                    d as int,
                    n as int,
                    c,
                ),
            decreases limit - n,
        {
            let t = step_square(s, d, n + 1);
            match self.squares[t] {
                None => {
                    n += 1;
                },
                Some(p) => {
                    return p.color != c && piece_threatens(p, d, n, c);
                },
            }
        }
        false
    }

    fn knight_attacked(&self, s: usize, c: Color) -> (r: bool)
        requires
            s < 64,
        ensures
            r == knight_attacked(self.squares@, s as int, c),
    {
        let mut j: usize = 0;
        while j < 8
            invariant
                s < 64,
                j <= 8,
                forall|i: int|
                    0 <= i < j ==> !(#[trigger] knight_jump(s as int, i) matches Some(t) && (
                    self.squares@[t] matches Some(p) && p.kind == Kind::Knight && p.color != c)),
            decreases 8 - j,
        {
            if let Some(t) = knight_square(s, j) {
                if let Some(p) = self.squares[t] {
                    if p.kind == Kind::Knight && p.color != c {
                        assert(knight_jump(s as int, j as int) == Some(t as int));
                        return true;
                    }
                }
            }
            j += 1;
        }
        false
    }

    /// Whether the square `s` is attacked by the enemies of `c`.
    pub fn square_attacked(&self, s: usize, c: Color) -> (r: bool)
        requires
            s < 64,
        ensures
            r == square_attacked(self.squares@, s as int, c),
    {
        if self.knight_attacked(s, c) {
            return true;
        }
        let mut d: usize = 0;
        while d < 8
            invariant
                s < 64,
                d <= 8,
                forall|i: int| 0 <= i < d ==> !#[trigger] ray_attacked(self.squares@, s as int, i, 0, c),
            decreases 8 - d,
        {
            if self.ray_attacked(s, d, c) {
                return true;
            }
            d += 1;
        }
        false
    }

    /// Whether one of `indices` is attacked by the enemies of `king_color`; stops at the
    /// first attacked square.
    pub fn is_attacked(&self, indices: &Vec<usize>, king_color: Color) -> (r: bool)
        requires
            forall|k: int| 0 <= k < indices@.len() ==> indices@[k] < 64,
        ensures
            r == any_attacked(self.squares@, indices@, king_color),
    {
        let mut k: usize = 0;
        while k < indices.len()
            invariant
                k <= indices@.len(),
                forall|i: int| 0 <= i < indices@.len() ==> indices@[i] < 64,
                forall|i: int|
                    0 <= i < k ==> !#[trigger] square_attacked(
                        self.squares@,
                        indices@[i] as int,
                        king_color,
                    ),
            decreases indices@.len() - k,
        {
            if self.square_attacked(indices[k], king_color) {
                return true;
            }
            k += 1;
        }
        false
    }
}

} // verus!
