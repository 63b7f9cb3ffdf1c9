use vstd::prelude::*;

use crate::castling::{
    self, castle_rook_start, castle_rook_target, get_squares, is_castle_pair, revoked_for, Rights,
};
use crate::color::{opposite_of, Color};
use crate::mov::{castling_shape, move_on_board, Move};
use crate::piece::{Kind, Piece, Square};

verus! {

/// Everything that can go wrong, in parsing a position or in playing on it.
#[derive(Debug, Clone, PartialEq)]
pub enum Error {
    InvalidCoordinate(String),
    InvalidFenBoardLength(String),
    InvalidHalfmoveStr(String),
    InvalidFullmoveStr(String),
    InvalidColorStr(String),
    InvalidPieceChar(char),
    PieceFromEmptySquare,
    MoveEmptySquare,
    MoveOppositeColor,
    NoKing,
    UndoFromFirstMove,
    InvalidCastlingMove(usize),
    InvalidDirectionIndex(usize),
}

/// Whether the game goes on, and how it ended.
#[derive(Debug, Copy, Clone, PartialEq, Eq, Structural)]
pub enum GameState {
    Playing,
    Draw,
    Victory(Color),
}

/// Where each king stands.
#[derive(Debug, Copy, Clone, PartialEq, Eq, Structural)]
pub struct KingIndices {
    pub white: usize,
    pub black: usize,
}

/// The king square of `color`.
pub open spec fn king_of(k: KingIndices, color: Color) -> usize {
    match color {
        Color::White => k.white,
        Color::Black => k.black,
    }
}

impl KingIndices {
    pub fn get(&self, color: Color) -> (r: usize)
        ensures
            r == king_of(*self, color),
    {
        match color {
            Color::White => self.white,
            Color::Black => self.black,
        }
    }
}

/// Everything about a position besides the pieces, with what the last move needs to be undone.
#[derive(Debug, Copy, Clone, PartialEq, Eq, Structural)]
pub struct State {
    pub turn: Color,
    pub castling_state: castling::State,
    /// The square a pawn just passed over with a double push.
    pub ep_index: Option<usize>,
    pub halfmove_clock: u32,
    pub fullmove_count: u32,
    pub game_state: GameState,
    pub king_indices: KingIndices,
    /// The last move played, and what its squares held before it.
    pub last_move: Option<Move>,
    pub last_moved_square: Square,
    pub last_captured_square: Square,
    pub last_ep_taken_index: Option<usize>,
    pub last_ep_taken_square: Square,
}

/// How legality is tested: on a copy of the position, or by playing and taking back.
#[derive(Debug, Copy, Clone, PartialEq, Eq, Structural)]
pub enum Algorithm {
    Clone,
    Unmove,
}

/// A position, the side to move and the record needed to take moves back.
#[derive(Debug, Clone, PartialEq)]
pub struct Board {
    pub squares: [Option<Piece>; 64],
    pub state: State,
    pub state_history: Vec<State>,
    pub algorithm: Algorithm,
}

/// A king move of two files that is castling.
pub open spec fn recorded_castling(moved: Square, m: Move) -> bool {
    &&& moved matches Some(p)
    &&& p.kind == Kind::King
    &&& (m.target_index == m.start_index + 2 || m.start_index == m.target_index + 2)
}

impl State {
    /// Every index the state holds is a square of the board.
    pub open spec fn wf(&self) -> bool {
        &&& self.king_indices.white < 64
        &&& self.king_indices.black < 64
        &&& self.ep_index matches Some(e) ==> e < 64
        &&& self.last_move matches Some(m) ==> {
            &&& move_on_board(m)
            &&& recorded_castling(self.last_moved_square, m) ==> is_castle_pair(
                m.start_index as int,
                m.target_index as int,
            )
        }
        &&& self.last_ep_taken_index matches Some(e) ==> e < 64
    }
}

/// The square of the pawn that `m` takes en passant, if it does.
pub open spec fn ep_taken(sq: Seq<Square>, st: State, m: Move) -> Option<int> {
    let t = m.target_index as int;
    if st.ep_index == Some(m.target_index) && (sq[m.start_index as int] matches Some(p) && p.kind
        == Kind::Pawn) {
        if st.turn == Color::White && t + 8 < 64 {
            Some(t + 8)
        } else if st.turn == Color::Black && t >= 8 {
            Some(t - 8)
        } else {
            None
        }
    } else {
        None
    }
}

/// Why `m` cannot be played, if it cannot.
pub open spec fn move_error(sq: Seq<Square>, st: State, m: Move) -> Option<Error> {
    match sq[m.start_index as int] {
        None => Some(Error::MoveEmptySquare),
        Some(p) => if p.color != st.turn {
            Some(Error::MoveOppositeColor)
        } else if castling_shape(sq, m) && !castle_ready(sq, m, p.color) {
            Some(Error::InvalidCastlingMove(m.target_index))
        } else {
            None
        },
    }
}

/// A castling move from a king's home square, with its own rook home and the rook's
/// landing square empty.
pub open spec fn castle_ready(sq: Seq<Square>, m: Move, color: Color) -> bool {
    let t = m.target_index as int;
    &&& is_castle_pair(m.start_index as int, t)
    &&& sq[castle_rook_start(t)] == Some(Piece { kind: Kind::Rook, color })
    &&& sq[castle_rook_target(t)] is None
}

/// The squares after `m` is played.
pub open spec fn squares_after(sq: Seq<Square>, st: State, m: Move) -> Seq<Square> {
    let p = sq[m.start_index as int]->0;
    let s = m.start_index as int;
    let t = m.target_index as int;
    let s1 = match ep_taken(sq, st, m) {
        Some(e) => sq.update(e, None),
        None => sq,
    };
    let landed = match m.promotion_kind {
        Some(k) => Piece { kind: k, color: p.color },
        None => p,
    };
    let s2 = s1.update(t, Some(landed)).update(s, None);
    if castling_shape(sq, m) {
        s2.update(castle_rook_target(t), Some(Piece { kind: Kind::Rook, color: p.color })).update(
            castle_rook_start(t),
            None,
        )
    } else {
        s2
    }
}

/// The rights once something happens on square `i`: a corner is a rook's home, and its
/// owner gives up the wing of that corner (a1 and h1 for White, a8 and h8 for Black).
pub open spec fn corner_revoked(cs: castling::State, i: usize) -> castling::State {
    if i == 56 {
        revoked_for(cs, Rights::Queenside, Color::White)
    } else if i == 63 {
        revoked_for(cs, Rights::Kingside, Color::White)
    } else if i == 0 {
        revoked_for(cs, Rights::Queenside, Color::Black)
    } else if i == 7 {
        revoked_for(cs, Rights::Kingside, Color::Black)
    } else {
        cs
    }
}

/// The castling rights after `m` is played: a capture on a rook's home corner and a rook
/// leaving a home corner give up that corner's wing for its owner; a king move gives up
/// both wings of the mover.
pub open spec fn castling_after(sq: Seq<Square>, st: State, m: Move) -> castling::State {
    let p = sq[m.start_index as int]->0;
    let cs0 = st.castling_state;
    let cs1 = if sq[m.target_index as int] is Some {
        corner_revoked(cs0, m.target_index)
    } else {
        cs0
    };
    if p.kind == Kind::King {
        revoked_for(cs1, Rights::Both, st.turn)
    } else if p.kind == Kind::Rook {
        corner_revoked(cs1, m.start_index)
    } else {
        cs1
    }
}

/// Gives up the wing of the corner `i`, if it is one, for the corner's owner.
fn revoke_corner(rights: &mut castling::State, i: usize)
    ensures
        *final(rights) == corner_revoked(*old(rights), i),
{
    if i == 56 {
        rights.revoke(Rights::Queenside, &Color::White);
    } else if i == 63 {
        rights.revoke(Rights::Kingside, &Color::White);
    } else if i == 0 {
        rights.revoke(Rights::Queenside, &Color::Black);
    } else if i == 7 {
        rights.revoke(Rights::Kingside, &Color::Black);
    }
}

/// One more, short of the largest value.
pub open spec fn bump(n: u32) -> u32 {
    if n < u32::MAX {
        (n + 1) as u32
    } else {
        n
    }
}

/// The halfmove clock after `m`: back to zero on a capture or a pawn move.
pub open spec fn clock_after(sq: Seq<Square>, st: State, m: Move) -> u32 {
    let p = sq[m.start_index as int]->0;
    if p.kind == Kind::Pawn || sq[m.target_index as int] is Some {
        0
    } else if ep_taken(sq, st, m) is Some {
        st.halfmove_clock
    } else {
        bump(st.halfmove_clock)
    }
}

/// The square a pawn passes over when `m` is a double push from it.
pub open spec fn ep_after(sq: Seq<Square>, m: Move) -> Option<usize> {
    let p = sq[m.start_index as int]->0;
    if p.kind == Kind::Pawn && m.target_index == m.start_index + 16 {
        Some((m.start_index + 8) as usize)
    } else if p.kind == Kind::Pawn && m.start_index == m.target_index + 16 {
        Some((m.start_index - 8) as usize)
    } else {
        None
    }
}

/// The state after `m` is played, with the record to take it back.
pub open spec fn state_after(sq: Seq<Square>, st: State, m: Move) -> State {
    let p = sq[m.start_index as int]->0;
    let clock = clock_after(sq, st, m);
    State {
        turn: opposite_of(st.turn),
        castling_state: castling_after(sq, st, m),
        ep_index: ep_after(sq, m),
        halfmove_clock: clock,
        fullmove_count: if st.turn == Color::Black {
            bump(st.fullmove_count)
        } else {
            st.fullmove_count
        },
        game_state: if clock >= 50 {
            GameState::Draw
        } else {
            st.game_state
        },
        king_indices: if p.kind == Kind::King {
            match st.turn {
                Color::White => KingIndices { white: m.target_index, ..st.king_indices },
                Color::Black => KingIndices { black: m.target_index, ..st.king_indices },
            }
        } else {
            st.king_indices
        },
        last_move: Some(m),
        last_moved_square: sq[m.start_index as int],
        last_captured_square: sq[m.target_index as int],
        last_ep_taken_index: match ep_taken(sq, st, m) {
            Some(e) => Some(e as usize),
            None => None,
        },
        last_ep_taken_square: match ep_taken(sq, st, m) {
            Some(e) => sq[e],
            None => None,
        },
    }
}

/// The squares once the last move recorded in `st` is taken back.
pub open spec fn squares_before(sq: Seq<Square>, st: State) -> Seq<Square> {
    let m = st.last_move->0;
    let moved = st.last_moved_square;
    let t = m.target_index as int;
    let s0 = if recorded_castling(moved, m) {
        sq.update(castle_rook_start(t), Some(Piece { kind: Kind::Rook, color: moved->0.color })).update(
            castle_rook_target(t),
            None,
        )
    } else {
        sq
    };
    let s1 = s0.update(m.start_index as int, moved).update(t, st.last_captured_square);
    match st.last_ep_taken_index {
        Some(e) => s1.update(e as int, st.last_ep_taken_square),
        None => s1,
    }
}

impl Board {
    /// The board's states, current and recorded, hold only squares of the board.
    pub open spec fn wf(&self) -> bool {
        &&& self.state.wf()
        &&& forall|i: int| 0 <= i < self.state_history@.len() ==> (#[trigger] self.state_history@[i]).wf()
    }

    /// The history after a move: the state before it is kept under `Unmove` only.
    pub open spec fn history_after(&self) -> Seq<State> {
        if self.algorithm == Algorithm::Unmove {
            self.state_history@.push(self.state)
        } else {
            self.state_history@
        }
    }

    /// Plays `mov`, with all its side effects: captures, en passant, castling, promotion,
    /// castling rights, clocks and the turn.
    ///
    /// Fails, changing nothing, on a move from an empty square, a move of the side not to
    /// move, and a castling move whose king or rook is not at home.
    pub fn make_move(&mut self, mov: &Move) -> (r: Result<(), Error>)
        requires
            old(self).wf(),
            move_on_board(*mov),
        ensures
            final(self).wf(),
            final(self).algorithm == old(self).algorithm,
            move_error(old(self).squares@, old(self).state, *mov) matches Some(e) ==> r == Err::<
                (),
                Error,
            >(e) && *final(self) == *old(self),
            move_error(old(self).squares@, old(self).state, *mov) is None ==> {
                &&& r is Ok
                &&& final(self).squares@ == squares_after(old(self).squares@, old(self).state, *mov)
                &&& final(self).state == state_after(old(self).squares@, old(self).state, *mov)
                &&& final(self).state_history@ == old(self).history_after()
            },
    {
        let s = mov.start_index;
        let t = mov.target_index;
        let moving_piece = match self.squares[s] {
            Some(p) => p,
            None => return Err(Error::MoveEmptySquare),
        };
        let color = self.state.turn;
        if moving_piece.color != color {
            return Err(Error::MoveOppositeColor);
        }
        let is_castling = moving_piece.kind == Kind::King && (t == s + 2 || s == t + 2);
        let mut rook_squares: Option<(usize, usize)> = None;
        if is_castling {
            match get_squares(mov) {
                Ok(cs) => {
                    let rook = Piece { kind: Kind::Rook, color };
                    if self.squares[cs.rook_start_index] != Some(rook)
                        || self.squares[cs.rook_target_index].is_some() {
                        return Err(Error::InvalidCastlingMove(t));
                    }
                    rook_squares = Some((cs.rook_start_index, cs.rook_target_index));
                },
                Err(e) => return Err(e),
            }
        }
        let ghost sq0 = self.squares@;
        let next = self.next_state(mov, moving_piece);
        if self.algorithm == Algorithm::Unmove {
            self.state_history.push(self.state);
        }
        let ep_taken_index = next.last_ep_taken_index;
        self.state = next;
        if let Some(pawn_index) = ep_taken_index {
            self.squares[pawn_index] = None;
        }
        let landed = match mov.promotion_kind {
            Some(kind) => Piece { kind, color },
            None => moving_piece,
        };
        self.squares[t] = Some(landed);
        self.squares[s] = None;
        if let Some((rook_start, rook_target)) = rook_squares {
            self.squares[rook_target] = Some(Piece { kind: Kind::Rook, color });
            self.squares[rook_start] = None;
        }
        proof {
            let st0 = old(self).state;
            assert(rook_squares matches Some(rs) ==> rs.0 == castle_rook_start(t as int) && rs.1
                == castle_rook_target(t as int));
            assert(rook_squares is Some <==> castling_shape(sq0, *mov));
            assert(self.squares@ =~= squares_after(sq0, st0, *mov));
        }
        Ok(())
    }

    /// The square of the pawn that `mov` takes en passant, if any.
    fn ep_taken_index(&self, mov: &Move, moving_piece: Piece) -> (r: Option<usize>)
        requires
            move_on_board(*mov),
            self.squares@[mov.start_index as int] == Some(moving_piece),
        ensures
            r matches Some(e) ==> ep_taken(self.squares@, self.state, *mov) == Some(e as int) && e
                < 64,
            r is None ==> ep_taken(self.squares@, self.state, *mov) is None,
    {
        let t = mov.target_index;
        match self.state.ep_index {
            Some(index) => if index == t && moving_piece.kind == Kind::Pawn {
                match self.state.turn {
                    Color::White => if t + 8 < 64 {
                        Some(t + 8)
                    } else {
                        None
                    },
                    Color::Black => if t >= 8 {
                        Some(t - 8)
                    } else {
                        None
                    },
                }
            } else {
                None
            },
            None => None,
        }
    }

    /// The castling rights after `mov`.
    fn castling_after_move(&self, mov: &Move, moving_piece: Piece) -> (r: castling::State)
        requires
            move_on_board(*mov),
            self.squares@[mov.start_index as int] == Some(moving_piece),
        ensures
            r == castling_after(self.squares@, self.state, *mov),
    {
        let mut rights = self.state.castling_state;
        if self.squares[mov.target_index].is_some() {
            revoke_corner(&mut rights, mov.target_index);
        }
        match moving_piece.kind {
            Kind::King => rights.revoke(Rights::Both, &self.state.turn),
            Kind::Rook => revoke_corner(&mut rights, mov.start_index),
            _ => (),
        }
        rights
    }

    /// The state after `mov`, with the record needed to take it back.
    fn next_state(&self, mov: &Move, moving_piece: Piece) -> (r: State)
        requires
            self.wf(),
            move_on_board(*mov),
            self.squares@[mov.start_index as int] == Some(moving_piece),
            move_error(self.squares@, self.state, *mov) is None,
        ensures
            r == state_after(self.squares@, self.state, *mov),
            r.wf(),
    {
        let s = mov.start_index;
        let t = mov.target_index;
        let color = self.state.turn;
        let ep_taken_index = self.ep_taken_index(mov, moving_piece);
        let castling_state = self.castling_after_move(mov, moving_piece);
        let is_pawn = moving_piece.kind == Kind::Pawn;
        let halfmove_clock = if is_pawn || self.squares[t].is_some() {
            0
        } else if ep_taken_index.is_some() {
            self.state.halfmove_clock
        } else {
            self.state.halfmove_clock.saturating_add(1)
        };
        let ep_index = if is_pawn && t == s + 16 {
            Some(s + 8)
        } else if is_pawn && s == t + 16 {
            Some(s - 8)
        } else {
            None
        };
        let fullmove_count = if color == Color::Black {
            self.state.fullmove_count.saturating_add(1)
        } else {
            self.state.fullmove_count
        };
        let game_state = if halfmove_clock >= 50 {
            GameState::Draw
        } else {
            self.state.game_state
        };
        let mut king_indices = self.state.king_indices;
        if moving_piece.kind == Kind::King {
            match color {
                Color::White => king_indices.white = t,
                Color::Black => king_indices.black = t,
            }
        }
        let last_ep_taken_square = match ep_taken_index {
            Some(e) => self.squares[e],
            None => None,
        };
        State {
            turn: color.opposite(),
            castling_state,
            ep_index,
            halfmove_clock,
            fullmove_count,
            game_state,
            king_indices,
            last_move: Some(*mov),
            last_moved_square: Some(moving_piece),
            last_captured_square: self.squares[t],
            last_ep_taken_index: ep_taken_index,
            last_ep_taken_square,
        }
    }

    /// Hands the move to the other side.
    pub fn change_turn(&mut self)
        ensures
            *final(self) == (Board {
                state: State { turn: opposite_of(old(self).state.turn), ..old(self).state },
                ..*old(self)
            }),
    {
        self.state.turn = self.state.turn.opposite();
    }

    /// Takes back the last move: the state before it comes back from the history, and each
    /// square the move changed gets back what it held.
    ///
    /// Fails with `UndoFromFirstMove`, changing nothing, when no move can be taken back.
    pub fn unmake_move(&mut self) -> (r: Result<(), Error>)
        requires
            old(self).wf(),
        ensures
            final(self).wf(),
            final(self).algorithm == old(self).algorithm,
            old(self).state_history@.len() == 0 || old(self).state.last_move is None ==> r == Err::<
                (),
                Error,
            >(Error::UndoFromFirstMove) && *final(self) == *old(self),
            old(self).state_history@.len() > 0 && old(self).state.last_move is Some ==> {
                &&& r is Ok
                &&& final(self).state == old(self).state_history@.last()
                &&& final(self).state_history@ == old(self).state_history@.drop_last()
                &&& final(self).squares@ == squares_before(old(self).squares@, old(self).state)
            },
    {
        let last_move = match self.state.last_move {
            Some(m) => m,
            None => return Err(Error::UndoFromFirstMove),
        };
        let ghost sq0 = self.squares@;
        let ghost st0 = self.state;
        let moved = self.state.last_moved_square;
        let captured = self.state.last_captured_square;
        let ep_taken_index = self.state.last_ep_taken_index;
        let ep_taken_square = self.state.last_ep_taken_square;
        let s = last_move.start_index;
        let t = last_move.target_index;
        let mut rook_squares: Option<(usize, usize, Color)> = None;
        if let Some(piece) = moved {
            if piece.kind == Kind::King && (t == s + 2 || s == t + 2) {
                match get_squares(&last_move) {
                    Ok(cs) => {
                        rook_squares = Some((cs.rook_start_index, cs.rook_target_index, piece.color));
                    },
                    Err(e) => return Err(e),
                }
            }
        }
        if self.state_history.len() == 0 {
            return Err(Error::UndoFromFirstMove);
        }
        let previous = match self.state_history.pop() {
            Some(state) => state,
            None => return Err(Error::UndoFromFirstMove),
        };
        proof {
            assert(old(self).state_history@[old(self).state_history@.len() - 1] == previous);
        }
        self.state = previous;

        if let Some((rook_start, rook_target, color)) = rook_squares {
            self.squares[rook_start] = Some(Piece { kind: Kind::Rook, color });
            self.squares[rook_target] = None;
        }
        self.squares[s] = moved;
        self.squares[t] = captured;
        if let Some(index) = ep_taken_index {
            self.squares[index] = ep_taken_square;
        }
        assert(self.squares@ =~= squares_before(sq0, st0));
        Ok(())
    }
}

} // verus!
