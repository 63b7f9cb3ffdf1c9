//! Pseudo-legal moves: what each piece may do by the way it moves, before asking
//! whether the mover's king is left attacked.
use vstd::prelude::*;

use crate::board::{Board, State};
use crate::castling::{
    castle_empty, castle_rook_start, get_squares, is_castle_pair, rights_for, rights_moves,
    CastlingSquares,
};
use crate::color::Color;
use crate::geometry::{
    col, edge, knight_jump, knight_square, ray_square, row, squares_to_edge,
    step_square,
};
use crate::mov::{promotions, Move};
use crate::piece::{same_color, Kind, Piece, Square};

verus! {

/// A plain move from `s` to `t`.
pub open spec fn mv(s: int, t: int) -> Move {
    Move { start_index: s as usize, target_index: t as usize, promotion_kind: None }
}

/// The first direction a sliding piece of this kind uses.
pub open spec fn dir_start(k: Kind) -> int {
    if k == Kind::Bishop {
        4
    } else {
        0
    }
}

/// One past the last direction a sliding piece of this kind uses.
pub open spec fn dir_end(k: Kind) -> int {
    if k == Kind::Rook {
        4
    } else {
        8
    }
}

/// How many steps a piece of this kind may take in one direction at most.
pub open spec fn reach(k: Kind) -> int {
    if k == Kind::King {
        1
    } else {
        8
    }
}

/// Steps available to a piece of kind `k` from `s` in direction `d`.
pub open spec fn ray_limit(s: int, d: int, k: Kind) -> int {
    if reach(k) < edge(s, d) {
        reach(k)
    } else {
        edge(s, d)
    }
}

/// Moves along direction `d` from `s`, from step `n + 1` on: empty squares, then an enemy
/// piece to take; a friendly piece stops the ray.
pub open spec fn ray_moves(sq: Seq<Square>, s: int, d: int, n: int, limit: int) -> Seq<Move>
    decreases limit - n,
{
    if n >= limit {
        seq![]
    } else {
        let t = ray_square(s, d, n + 1);
        if same_color(sq[s], sq[t]) {
            seq![]
        } else if sq[t] is Some {
            seq![mv(s, t)]
        } else {
            seq![mv(s, t)] + ray_moves(sq, s, d, n + 1, limit)
        }
    }
}

/// Moves of a sliding piece (or king) of kind `k` on `s`, over directions `d` onwards.
pub open spec fn slider_moves(sq: Seq<Square>, s: int, k: Kind, d: int) -> Seq<Move>
    decreases 8 - d,
{
    if d >= dir_end(k) || d >= 8 {
        seq![]
    } else {
        ray_moves(sq, s, d, 0, ray_limit(s, d, k)) + slider_moves(sq, s, k, d + 1)
    }
}

/// Moves of a knight on `s`, over jumps `j` onwards.
pub open spec fn knight_moves(sq: Seq<Square>, s: int, j: int) -> Seq<Move>
    decreases 8 - j,
{
    if j >= 8 {
        seq![]
    } else {
        let here = match knight_jump(s, j) {
            Some(t) => if same_color(sq[s], sq[t]) {
                seq![]
            } else {
                seq![mv(s, t)]
            },
            None => seq![],
        };
        here + knight_moves(sq, s, j + 1)
    }
}

/// A pawn move, as the four promotions when it reaches the last rank.
pub open spec fn expand(m: Move, promote: bool) -> Seq<Move> {
    if promote {
        promotions(m)
    } else {
        seq![m]
    }
}

/// A pawn on `s` may move diagonally to `t`: an enemy stands there, or it is the en
/// passant square.
pub open spec fn pawn_capture_ok(sq: Seq<Square>, st: State, s: int, t: int) -> bool {
    (!same_color(sq[s], sq[t]) && sq[t] is Some) || st.ep_index == Some(t as usize)
}

/// How far a pawn of the piece on `s` moves in one step: up the board for White.
pub open spec fn pawn_fwd(sq: Seq<Square>, s: int) -> int {
    if sq[s]->0.color == Color::White {
        -8
    } else {
        8
    }
}

/// The pawn on `s` stands one row before its last: its moves are promotions.
pub open spec fn pawn_promotes(sq: Seq<Square>, s: int) -> bool {
    row(s) == if sq[s]->0.color == Color::White {
        1int
    } else {
        6int
    }
}

/// The pawn on `s` stands on its last row and has no move.
pub open spec fn pawn_stuck(sq: Seq<Square>, s: int) -> bool {
    row(s) == if sq[s]->0.color == Color::White {
        0int
    } else {
        7int
    }
}

/// The pawn on `s` stands on its home row.
pub open spec fn pawn_home(sq: Seq<Square>, s: int) -> bool {
    row(s) == if sq[s]->0.color == Color::White {
        6int
    } else {
        1int
    }
}

/// Forward moves of the pawn on `s`: one step onto an empty square, and two from its home
/// row over two empty squares.
pub open spec fn pawn_pushes(sq: Seq<Square>, s: int) -> Seq<Move> {
    let fwd = pawn_fwd(sq, s);
    if sq[s + fwd] is None {
        expand(mv(s, s + fwd), pawn_promotes(sq, s)) + if !pawn_promotes(sq, s) && pawn_home(sq, s)
            && sq[s + 2 * fwd] is None {
            seq![mv(s, s + 2 * fwd)]
        } else {
            seq![]
        }
    } else {
        seq![]
    }
}

/// The diagonal capture of the pawn on `s`, toward the h-file when `right`, else toward the
/// a-file.
pub open spec fn pawn_captures(sq: Seq<Square>, st: State, s: int, right: bool) -> Seq<Move> {
    let t = s + pawn_fwd(sq, s) + if right {
        1int
    } else {
        -1int
    };
    let on_board = if right {
        col(s) != 7
    } else {
        col(s) != 0
    };
    if on_board && pawn_capture_ok(sq, st, s, t) {
        expand(mv(s, t), pawn_promotes(sq, s))
    } else {
        seq![]
    }
}

/// Moves of the pawn on `s`: its forward moves, then its captures.
pub open spec fn pawn_moves(sq: Seq<Square>, st: State, s: int) -> Seq<Move> {
    if pawn_stuck(sq, s) {
        seq![]
    } else {
        pawn_pushes(sq, s) + pawn_captures(sq, st, s, false) + pawn_captures(sq, st, s, true)
    }
}

/// Moves of the piece on `i`, when it belongs to the side to move.
pub open spec fn piece_moves(sq: Seq<Square>, st: State, i: int) -> Seq<Move> {
    match sq[i] {
        Some(p) => if p.color != st.turn {
            seq![]
        } else if p.kind == Kind::Knight {
            knight_moves(sq, i, 0)
        } else if p.kind == Kind::Pawn {
            pawn_moves(sq, st, i)
        } else {
            slider_moves(sq, i, p.kind, dir_start(p.kind))
        },
        None => seq![],
    }
}

/// Moves of the pieces on squares `i` onwards, square by square.
pub open spec fn pieces_moves(sq: Seq<Square>, st: State, i: int) -> Seq<Move>
    decreases 64 - i,
{
    if i >= 64 {
        seq![]
    } else {
        piece_moves(sq, st, i) + pieces_moves(sq, st, i + 1)
    }
}

/// A castling move is open: the squares between king and rook are empty, and the king and
/// the rook of the side to move stand at home.
pub open spec fn castle_open(sq: Seq<Square>, st: State, m: Move) -> bool {
    let t = m.target_index as int;
    &&& forall|k: int| 0 <= k < castle_empty(t).len() ==> sq[(#[trigger] castle_empty(t)[k]) as int] is None
    &&& sq[m.start_index as int] == Some(Piece { kind: Kind::King, color: st.turn })
    &&& sq[castle_rook_start(t)] == Some(Piece { kind: Kind::Rook, color: st.turn })
}

/// The open moves among the castling moves `ms`, from the `i`-th on.
pub open spec fn castle_moves(sq: Seq<Square>, st: State, ms: Seq<Move>, i: int) -> Seq<Move>
    decreases ms.len() - i,
{
    if i >= ms.len() {
        seq![]
    } else {
        (if castle_open(sq, st, ms[i]) {
            seq![ms[i]]
        } else {
            seq![]
        }) + castle_moves(sq, st, ms, i + 1)
    }
}

/// The castling moves that the rights of the side to move allow.
pub open spec fn rights_castles(st: State) -> Seq<Move> {
    rights_moves(rights_for(st.castling_state, st.turn), st.turn)
}

/// All pseudo-legal moves, piece by piece from square 0, then castling.
pub open spec fn pseudo_moves(sq: Seq<Square>, st: State) -> Seq<Move> {
    pieces_moves(sq, st, 0) + castle_moves(sq, st, rights_castles(st), 0)
}

/// Pushes `mov`, or its four promotions.
fn push_expanded(moves: &mut Vec<Move>, mov: Move, promote: bool)
    ensures
        final(moves)@ == old(moves)@ + expand(mov, promote),
{
    if promote {
        let mut p = mov.promotion_moves();
        moves.append(&mut p);
    } else {
        moves.push(mov);
    }
    assert(final(moves)@ =~= old(moves)@ + expand(mov, promote));
}

impl Board {
    fn ray_gen_moves(&self, moves: &mut Vec<Move>, s: usize, d: usize, limit: usize)
        requires
            s < 64,
            d < 8,
            limit <= edge(s as int, d as int),
        ensures
            final(moves)@ == old(moves)@ + ray_moves(self.squares@, s as int, d as int, 0, limit as int),
    {
        let start_square = self.squares[s];
        let mut n: usize = 0;
        while n < limit
            invariant
                s < 64,
                d < 8,
                limit <= edge(s as int, d as int),
                n <= limit,
                start_square == self.squares@[s as int],
                moves@ + ray_moves(self.squares@, s as int, d as int, n as int, limit as int) == old(
                    moves,
                )@ + ray_moves(self.squares@, s as int, d as int, 0, limit as int),
            decreases limit - n,
        {
            let t = step_square(s, d, n + 1);
            let target_square = self.squares[t];
            let ghost before = moves@;
            if Piece::is_same_color(start_square, target_square) {
                assert(moves@ =~= moves@ + ray_moves(self.squares@, s as int, d as int, n as int, limit as int));
                return;
            }
            moves.push(Move::new(s, t));
            if target_square.is_some() {
                assert(moves@ =~= before + ray_moves(self.squares@, s as int, d as int, n as int, limit as int));
                return;
            }
            assert(moves@ + ray_moves(self.squares@, s as int, d as int, n + 1, limit as int) =~= before
                + ray_moves(self.squares@, s as int, d as int, n as int, limit as int));
            n += 1;
        }
        assert(moves@ =~= moves@ + ray_moves(self.squares@, s as int, d as int, n as int, limit as int));
    }

    fn slider_gen_moves(&self, moves: &mut Vec<Move>, start_index: usize, piece: Piece)
        requires
            start_index < 64,
        ensures
            final(moves)@ == old(moves)@ + slider_moves(
                self.squares@,
                start_index as int,
                piece.kind,
                dir_start(piece.kind),
            ),
    {
        let start_dir: usize = if piece.kind == Kind::Bishop {
            4
        } else {
            0
        };
        let end_dir: usize = if piece.kind == Kind::Rook {
            4
        } else {
            8
        };
        let max_steps: usize = if piece.kind == Kind::King {
            1
        } else {
            8
        };
        let mut d = start_dir;
        while d < end_dir
            invariant
                start_index < 64,
                start_dir == dir_start(piece.kind),
                end_dir == dir_end(piece.kind),
                end_dir <= 8,
                max_steps == reach(piece.kind),
                start_dir <= d <= end_dir,
                moves@ + slider_moves(self.squares@, start_index as int, piece.kind, d as int) == old(
                    moves,
                )@ + slider_moves(self.squares@, start_index as int, piece.kind, start_dir as int),
            decreases end_dir - d,
        {
            let edge = squares_to_edge(start_index, d);
            let limit = if max_steps < edge {
                max_steps
            } else {
                edge
            };
            let ghost before = moves@;
            self.ray_gen_moves(moves, start_index, d, limit);
            assert(moves@ + slider_moves(self.squares@, start_index as int, piece.kind, d + 1) =~= before
                + slider_moves(self.squares@, start_index as int, piece.kind, d as int));
            d += 1;
        }
        assert(moves@ =~= moves@ + slider_moves(self.squares@, start_index as int, piece.kind, d as int));
    }

    fn knight_gen_moves(&self, moves: &mut Vec<Move>, start_index: usize)
        requires
            start_index < 64,
        ensures
            final(moves)@ == old(moves)@ + knight_moves(self.squares@, start_index as int, 0),
    {
        let start_square = self.squares[start_index];
        let mut j: usize = 0;
        while j < 8
            invariant
                start_index < 64,
                j <= 8,
                start_square == self.squares@[start_index as int],
                moves@ + knight_moves(self.squares@, start_index as int, j as int) == old(moves)@
                    + knight_moves(self.squares@, start_index as int, 0),
            decreases 8 - j,
        {
            let ghost before = moves@;
            if let Some(t) = knight_square(start_index, j) {
                if !Piece::is_same_color(start_square, self.squares[t]) {
                    moves.push(Move::new(start_index, t));
                }
            }
            assert(moves@ + knight_moves(self.squares@, start_index as int, j + 1) =~= before
                + knight_moves(self.squares@, start_index as int, j as int));
            j += 1;
        }
        assert(moves@ =~= moves@ + knight_moves(self.squares@, start_index as int, j as int));
    }

    fn pawn_push_moves(&self, moves: &mut Vec<Move>, s: usize, piece: Piece)
        requires
            s < 64,
            self.squares@[s as int] == Some(piece),
            !pawn_stuck(self.squares@, s as int),
        ensures
            final(moves)@ == old(moves)@ + pawn_pushes(self.squares@, s as int),
    {
        let rank = s / 8;
        let white = piece.color == Color::White;
        let (pre, home): (usize, usize) = if white {
            (1, 6)
        } else {
            (6, 1)
        };
        let t1 = if white {
            s - 8
        } else {
            s + 8
        };
        if self.squares[t1].is_none() {
            push_expanded(moves, Move::new(s, t1), rank == pre);
            if rank != pre && rank == home {
                let t2 = if white {
                    s - 16
                } else {
                    s + 16
                };
                if self.squares[t2].is_none() {
                    moves.push(Move::new(s, t2));
                }
            }
        }
        assert(moves@ =~= old(moves)@ + pawn_pushes(self.squares@, s as int));
    }

    fn pawn_capture_moves(&self, moves: &mut Vec<Move>, s: usize, piece: Piece, right: bool)
        requires
            s < 64,
            self.squares@[s as int] == Some(piece),
            !pawn_stuck(self.squares@, s as int),
        ensures
            final(moves)@ == old(moves)@ + pawn_captures(self.squares@, self.state, s as int, right),
    {
        let file = s % 8;
        let white = piece.color == Color::White;
        let pre: usize = if white {
            1
        } else {
            6
        };
        if (right && file == 7) || (!right && file == 0) {
            assert(moves@ =~= old(moves)@ + pawn_captures(self.squares@, self.state, s as int, right));
            return;
        }
        let t = if white {
            if right {
                s - 7
            } else {
                s - 9
            }
        } else {
            if right {
                s + 9
            } else {
                s + 7
            }
        };
        let target_square = self.squares[t];
        if (!Piece::is_same_color(self.squares[s], target_square) && target_square.is_some())
            || self.state.ep_index == Some(t) {
            push_expanded(moves, Move::new(s, t), s / 8 == pre);
        }
        assert(moves@ =~= old(moves)@ + pawn_captures(self.squares@, self.state, s as int, right));
    }

    fn pawn_gen_moves(&self, moves: &mut Vec<Move>, start_index: usize, piece: Piece)
        requires
            start_index < 64,
            self.squares@[start_index as int] == Some(piece),
        ensures
            final(moves)@ == old(moves)@ + pawn_moves(self.squares@, self.state, start_index as int),
    {
        let rank = start_index / 8;
        let last: usize = if piece.color == Color::White {
            0
        } else {
            7
        };
        if rank == last {
            return;
        }
        self.pawn_push_moves(moves, start_index, piece);
        self.pawn_capture_moves(moves, start_index, piece, false);
        self.pawn_capture_moves(moves, start_index, piece, true);
        assert(moves@ =~= old(moves)@ + pawn_moves(self.squares@, self.state, start_index as int));
    }

    /// Whether the castling move with squares `cs` is open on this board.
    fn castling_open(&self, mov: &Move, cs: &CastlingSquares) -> (r: bool)
        requires
            is_castle_pair(mov.start_index as int, mov.target_index as int),
            cs.empty_indices@ == castle_empty(mov.target_index as int),
            cs.king_start_index == mov.start_index,
            cs.rook_start_index == castle_rook_start(mov.target_index as int),
        ensures
            r == castle_open(self.squares@, self.state, *mov),
    {
        let ghost t = mov.target_index as int;
        let mut k: usize = 0;
        while k < cs.empty_indices.len()
            invariant
                t == mov.target_index as int,
                cs.empty_indices@ == castle_empty(t),
                is_castle_pair(mov.start_index as int, t),
                k <= cs.empty_indices@.len(),
                forall|i: int| 0 <= i < k ==> self.squares@[(#[trigger] castle_empty(t)[i]) as int] is None,
            decreases cs.empty_indices@.len() - k,
        {
            if self.squares[cs.empty_indices[k]].is_some() {
                assert(self.squares@[castle_empty(t)[k as int] as int] is Some);
                return false;
            }
            k += 1;
        }
        let king = Piece { kind: Kind::King, color: self.state.turn };
        let rook = Piece { kind: Kind::Rook, color: self.state.turn };
        self.squares[cs.king_start_index] == Some(king) && self.squares[cs.rook_start_index] == Some(
            rook,
        )
    }

    fn gen_castling_moves(&self, moves: &mut Vec<Move>)
        ensures
            final(moves)@ == old(moves)@ + castle_moves(
                self.squares@,
                self.state,
                rights_castles(self.state),
                0,
            ),
    {
        let candidates = self.state.castling_state.get_moves(&self.state.turn);
        let ghost ms = candidates@;
        let mut i: usize = 0;
        while i < candidates.len()
            invariant
                ms == candidates@,
                ms == rights_castles(self.state),
                i <= ms.len(),
                moves@ + castle_moves(self.squares@, self.state, ms, i as int) == old(moves)@
                    + castle_moves(self.squares@, self.state, ms, 0),
            decreases ms.len() - i,
        {
            let mov = candidates[i];
            let ghost before = moves@;
            assert(is_castle_pair(mov.start_index as int, mov.target_index as int));
            match get_squares(&mov) {
                Ok(cs) => {
                    if self.castling_open(&mov, &cs) {
                        moves.push(mov);
                    }
                },
                Err(_) => {},
            }
            assert(moves@ + castle_moves(self.squares@, self.state, ms, i + 1) =~= before
                + castle_moves(self.squares@, self.state, ms, i as int));
            i += 1;
        }
        assert(moves@ =~= moves@ + castle_moves(self.squares@, self.state, ms, i as int));
    }

    /// Every pseudo-legal move of the side to move: piece by piece from square 0, then
    /// castling. Whether the mover's king is left attacked is not asked here.
    pub fn gen_pseudo_legal_moves(&self) -> (r: Vec<Move>)
        ensures
            r@ == pseudo_moves(self.squares@, self.state),
    {
        let mut moves: Vec<Move> = Vec::new();
        let mut index: usize = 0;
        while index < 64
            invariant
                index <= 64,
                moves@ + pieces_moves(self.squares@, self.state, index as int) == pieces_moves(
                    self.squares@,
                    self.state,
                    0,
                ),
            decreases 64 - index,
        {
            let ghost before = moves@;
            if let Some(piece) = self.squares[index] {
                if piece.color == self.state.turn {
                    match piece.kind {
                        Kind::Knight => self.knight_gen_moves(&mut moves, index),
                        Kind::Pawn => self.pawn_gen_moves(&mut moves, index, piece),
                        _ => self.slider_gen_moves(&mut moves, index, piece),
                    }
                }
            }
            assert(moves@ + pieces_moves(self.squares@, self.state, index + 1) =~= before
                + pieces_moves(self.squares@, self.state, index as int));
            index += 1;
        }
        assert(moves@ =~= pieces_moves(self.squares@, self.state, 0));
        self.gen_castling_moves(&mut moves);
        moves
    }
}

} // verus!
