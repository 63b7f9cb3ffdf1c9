//! Legal moves, by either of two strategies, and the drivers built on them: position
//! counting and random play.
use vstd::prelude::*;

use rand::seq::SliceRandom;

use crate::attack::{any_attacked, square_attacked};
use crate::board::{
    king_of, move_error, squares_after, state_after, Algorithm, Board, Error, GameState, State,
};
use crate::castling::{castle_check, get_squares};
use crate::color::{opposite_of, Color};
use crate::laws::lemma_make_unmake;
use crate::mov::{castling_shape, move_on_board, Move};
use crate::movegen::pseudo_moves;
use crate::piece::Square;

verus! {

/// The squares that must not be attacked once `m` is played: the mover's king square, or
/// for castling the squares the king stands on, crosses and reaches.
pub open spec fn check_squares(sq: Seq<Square>, st: State, m: Move) -> Seq<usize> {
    if castling_shape(sq, m) {
        castle_check(m.target_index as int)
    } else {
        seq![king_of(state_after(sq, st, m).king_indices, st.turn)]
    }
}

/// `m` can be played and leaves none of its check squares attacked.
pub open spec fn is_legal(sq: Seq<Square>, st: State, m: Move) -> bool {
    &&& move_on_board(m)
    &&& move_error(sq, st, m) is None
    &&& !any_attacked(squares_after(sq, st, m), check_squares(sq, st, m), st.turn)
}

/// The legal moves among `ms`, from the `i`-th on, in their order.
pub open spec fn legal_filter(sq: Seq<Square>, st: State, ms: Seq<Move>, i: int) -> Seq<Move>
    decreases ms.len() - i,
{
    if i >= ms.len() {
        seq![]
    } else {
        (if is_legal(sq, st, ms[i]) {
            seq![ms[i]]
        } else {
            seq![]
        }) + legal_filter(sq, st, ms, i + 1)
    }
}

/// The legal moves of a position, in the order they are generated.
pub open spec fn legal_moves(sq: Seq<Square>, st: State) -> Seq<Move> {
    legal_filter(sq, st, pseudo_moves(sq, st), 0)
}

/// The number of positions reached after `depth` plies (1 at depth 0 or below).
pub open spec fn num_positions(sq: Seq<Square>, st: State, depth: int) -> nat
    decreases depth, 1int, 0int,
{
    if depth <= 0 {
        1
    } else {
        positions_sum(sq, st, legal_moves(sq, st), 0, depth - 1)
    }
}

/// The positions reached after `depth` more plies, summed over the moves `ms` from the
/// `i`-th on.
pub open spec fn positions_sum(sq: Seq<Square>, st: State, ms: Seq<Move>, i: int, depth: int) -> nat
    decreases depth + 1, 0int, ms.len() - i,
{
    if i >= ms.len() || depth < 0 {
        0
    } else {
        num_positions(squares_after(sq, st, ms[i]), state_after(sq, st, ms[i]), depth)
            + positions_sum(sq, st, ms, i + 1, depth)
    }
}

/// The state once the side to move, having no legal move, has lost (its king attacked) or
/// drawn.
pub open spec fn game_over(sq: Seq<Square>, st: State) -> State {
    State {
        game_state: if square_attacked(sq, king_of(st.king_indices, st.turn) as int, st.turn) {
            GameState::Victory(opposite_of(st.turn))
        } else {
            GameState::Draw
        },
        ..st
    }
}

/// One step of a game from `(sq, st)` to `(sq2, st2)`: one of the legal moves is played,
/// or, when there is none, the game is declared over and the squares stay.
pub open spec fn game_step(sq: Seq<Square>, st: State, sq2: Seq<Square>, st2: State) -> bool {
    let ms = legal_moves(sq, st);
    if ms.len() > 0 {
        exists|k: int|
            0 <= k < ms.len() && sq2 == squares_after(sq, st, #[trigger] ms[k]) && st2
                == state_after(sq, st, ms[k])
    } else {
        sq2 == sq && st2 == game_over(sq, st)
    }
}

/// `path` lists the positions of a game of `n` steps from `(sq, st)` to `(sq2, st2)`.
pub open spec fn game_path(
    path: Seq<(Seq<Square>, State)>,
    sq: Seq<Square>,
    st: State,
    sq2: Seq<Square>,
    st2: State,
    n: nat,
) -> bool {
    &&& path.len() == n + 1
    &&& path[0] == (sq, st)
    &&& path[n as int] == (sq2, st2)
    &&& forall|i: int|
        0 <= i < n ==> game_step(#[trigger] path[i].0, path[i].1, path[i + 1].0, path[i + 1].1)
}

/// Some game of `n` steps leads from `(sq, st)` to `(sq2, st2)`.
pub open spec fn game_played(sq: Seq<Square>, st: State, sq2: Seq<Square>, st2: State, n: nat) -> bool {
    exists|path: Seq<(Seq<Square>, State)>| #[trigger] game_path(path, sq, st, sq2, st2, n)
}

/// Every move the filter keeps is legal.
pub proof fn lemma_legal_filter(sq: Seq<Square>, st: State, ms: Seq<Move>, i: int)
    requires
        0 <= i,
    ensures
        forall|k: int|
            0 <= k < legal_filter(sq, st, ms, i).len() ==> is_legal(
                sq,
                st,
                #[trigger] legal_filter(sq, st, ms, i)[k],
            ),
    decreases ms.len() - i,
{
    if i < ms.len() {
        lemma_legal_filter(sq, st, ms, i + 1);
        let head: Seq<Move> = if is_legal(sq, st, ms[i]) {
            seq![ms[i]]
        } else {
            seq![]
        };
        let rest = legal_filter(sq, st, ms, i + 1);
        assert(legal_filter(sq, st, ms, i) == head + rest);
        assert forall|k: int| 0 <= k < (head + rest).len() implies is_legal(sq, st, #[trigger] (head
            + rest)[k]) by {
            if k >= head.len() {
                assert((head + rest)[k] == rest[k - head.len()]);
            }
        }
    }
}

/// Relies on rand's `SliceRandom::choose` on a thread-local generator: `None` for an empty
/// slice, otherwise one of its elements.
#[verifier::external_body]
fn choose_move(moves: &Vec<Move>) -> (r: Option<Move>)
    ensures
        moves@.len() == 0 <==> r is None,
        r matches Some(m) ==> moves@.contains(m),
{
    moves.choose(&mut rand::thread_rng()).copied()
}

impl Board {
    /// The position, history and strategy are those of `other`.
    pub open spec fn same_as(&self, other: &Board) -> bool {
        &&& self.squares@ == other.squares@
        &&& self.state == other.state
        &&& self.state_history@ == other.state_history@
        &&& self.algorithm == other.algorithm
    }

    /// A copy of the position without its history, to try moves on.
    fn scratch_copy(&self) -> (r: Board)
        requires
            self.wf(),
        ensures
            r.wf(),
            r.squares@ == self.squares@,
            r.state == self.state,
            r.state_history@.len() == 0,
            r.algorithm == Algorithm::Clone,
    {
        Board {
            squares: self.squares,
            state: self.state,
            state_history: Vec::new(),
            algorithm: Algorithm::Clone,
        }
    }

    /// The squares to test once `mov` is played on this board, by the side `color`.
    fn check_indices(&self, mov: &Move, is_castling: bool, color: Color) -> (r: Vec<usize>)
        requires
            self.wf(),
            move_on_board(*mov),
            is_castling ==> crate::castling::is_castle_pair(
                mov.start_index as int,
                mov.target_index as int,
            ),
        ensures
            is_castling ==> r@ == castle_check(mov.target_index as int),
            !is_castling ==> r@ == seq![king_of(self.state.king_indices, color)],
            forall|k: int| 0 <= k < r@.len() ==> r@[k] < 64,
    {
        if is_castling {
            match get_squares(mov) {
                Ok(cs) => cs.check_indices,
                Err(_) => vec![],
            }
        } else {
            let r = vec![self.state.king_indices.get(color)];
            assert(r@ =~= seq![king_of(self.state.king_indices, color)]);
            r
        }
    }

    /// Whether `mov` is legal here, tried by the board's strategy. The board is left as it
    /// was.
    fn is_legal_move(&mut self, mov: &Move) -> (r: bool)
        requires
            old(self).wf(),
        ensures
            r == is_legal(old(self).squares@, old(self).state, *mov),
            final(self).same_as(old(self)),
            final(self).wf(),
    {
        if mov.start_index >= 64 || mov.target_index >= 64 {
            return false;
        }
        let ghost sq0 = self.squares@;
        let ghost st0 = self.state;
        let is_castling = match mov.is_castling(&self.squares) {
            Ok(b) => b,
            Err(_) => return false,
        };
        let color = self.state.turn;
        match self.algorithm {
            Algorithm::Clone => {
                let mut board = self.scratch_copy();
                match board.make_move(mov) {
                    Ok(()) => {
                        let check = board.check_indices(mov, is_castling, color);
                        !board.is_attacked(&check, color)
                    },
                    Err(_) => false,
                }
            },
            Algorithm::Unmove => {
                let ghost h0 = self.state_history@;
                match self.make_move(mov) {
                    Ok(()) => {
                        let check = self.check_indices(mov, is_castling, color);
                        let attacked = self.is_attacked(&check, color);
                        proof {
                            lemma_make_unmake(sq0, st0, h0, *mov);
                        }
                        let _ = self.unmake_move();
                        proof {
                            assert(self.squares@ == sq0);
                            assert(self.state_history@ =~= h0);
                        }
                        !attacked
                    },
                    Err(_) => false,
                }
            },
        }
    }

    /// Every legal move of the side to move, in generation order. Under either strategy
    /// the result is the same, and the board is left as it was.
    pub fn gen_legal_moves(&mut self) -> (r: Vec<Move>)
        requires
            old(self).wf(),
        ensures
            r@ == legal_moves(old(self).squares@, old(self).state),
            final(self).same_as(old(self)),
            final(self).wf(),
    {
        let moves = self.gen_pseudo_legal_moves();
        let ghost sq0 = self.squares@;
        let ghost st0 = self.state;
        let mut legal: Vec<Move> = Vec::new();
        let mut i: usize = 0;
        while i < moves.len()
            invariant
                i <= moves@.len(),
                moves@ == pseudo_moves(sq0, st0),
                self.same_as(old(self)),
                self.wf(),
                sq0 == old(self).squares@,
                st0 == old(self).state,
                legal@ + legal_filter(sq0, st0, moves@, i as int) == legal_filter(sq0, st0, moves@, 0),
            decreases moves@.len() - i,
        {
            let mov = moves[i];
            let ghost before = legal@;
            if self.is_legal_move(&mov) {
                legal.push(mov);
            }
            assert(legal@ + legal_filter(sq0, st0, moves@, i + 1) =~= before + legal_filter(
                sq0,
                st0,
                moves@,
                i as int,
            ));
            i += 1;
        }
        assert(legal@ =~= legal@ + legal_filter(sq0, st0, moves@, i as int));
        legal
    }

    /// The number of positions reached after `depth` plies: 1 at depth 0 or below, the
    /// number of legal moves at depth 1. The board is left as it was.
    pub fn depth_num_positions(&mut self, depth: i32) -> (r: u32)
        requires
            old(self).wf(),
            num_positions(old(self).squares@, old(self).state, depth as int) <= u32::MAX,
        ensures
            r == num_positions(old(self).squares@, old(self).state, depth as int),
            final(self).same_as(old(self)),
            final(self).wf(),
        decreases depth,
    {
        if depth <= 0 {
            return 1;
        }
        let ghost sq0 = self.squares@;
        let ghost st0 = self.state;
        let moves = self.gen_legal_moves();
        proof {
            lemma_legal_filter(sq0, st0, pseudo_moves(sq0, st0), 0);
        }
        let ghost total_all = positions_sum(sq0, st0, moves@, 0, depth - 1);
        let mut total: u32 = 0;
        let mut i: usize = 0;
        while i < moves.len()
            invariant
                i <= moves@.len(),
                depth > 0,
                moves@ == legal_moves(sq0, st0),
                forall|k: int| 0 <= k < moves@.len() ==> is_legal(sq0, st0, #[trigger] moves@[k]),
                self.same_as(old(self)),
                self.wf(),
                sq0 == old(self).squares@,
                st0 == old(self).state,
                total_all == positions_sum(sq0, st0, moves@, 0, depth - 1),
                total_all <= u32::MAX,
                total + positions_sum(sq0, st0, moves@, i as int, depth - 1) == total_all,
            decreases moves@.len() - i,
        {
            let mov = moves[i];
            assert(is_legal(sq0, st0, moves@[i as int]));
            let ghost child = num_positions(
                squares_after(sq0, st0, mov),
                state_after(sq0, st0, mov),
                depth - 1,
            );
            assert(positions_sum(sq0, st0, moves@, i as int, depth - 1) == child + positions_sum(
                sq0,
                st0,
                moves@,
                i + 1,
                depth - 1,
            ));
            let n = match self.algorithm {
                Algorithm::Clone => {
                    let mut board = self.scratch_copy();
                    let _ = board.make_move(&mov);
                    board.depth_num_positions(depth - 1)
                },
                Algorithm::Unmove => {
                    let ghost h0 = self.state_history@;
                    let _ = self.make_move(&mov);
                    let n = self.depth_num_positions(depth - 1);
                    proof {
                        lemma_make_unmake(sq0, st0, h0, mov);
                    }
                    let _ = self.unmake_move();
                    proof {
                        assert(self.squares@ == sq0);
                        assert(self.state_history@ =~= h0);
                    }
                    n
                },
            };
            total = total + n;
            i += 1;
        }
        total
    }

    /// The number of positions reached after `depth` plies, or `None` when it does not fit
    /// in a `u32`. The board is left as it was.
    pub fn checked_depth_num_positions(&mut self, depth: i32) -> (r: Option<u32>)
        requires
            old(self).wf(),
        ensures
            r == (if num_positions(old(self).squares@, old(self).state, depth as int) <= u32::MAX {
                Some(num_positions(old(self).squares@, old(self).state, depth as int) as u32)
            } else {
                None
            }),
            final(self).same_as(old(self)),
            final(self).wf(),
        decreases depth,
    {
        if depth <= 0 {
            return Some(1);
        }
        let ghost sq0 = self.squares@;
        let ghost st0 = self.state;
        let moves = self.gen_legal_moves();
        proof {
            lemma_legal_filter(sq0, st0, pseudo_moves(sq0, st0), 0);
        }
        let ghost total_all = positions_sum(sq0, st0, moves@, 0, depth - 1);
        let mut total: u32 = 0;
        let mut i: usize = 0;
        while i < moves.len()
            invariant
                i <= moves@.len(),
                depth > 0,
                moves@ == legal_moves(sq0, st0),
                forall|k: int| 0 <= k < moves@.len() ==> is_legal(sq0, st0, #[trigger] moves@[k]),
                self.same_as(old(self)),
                self.wf(),
                sq0 == old(self).squares@,
                st0 == old(self).state,
                total_all == positions_sum(sq0, st0, moves@, 0, depth - 1),
                total + positions_sum(sq0, st0, moves@, i as int, depth - 1) == total_all,
            decreases moves@.len() - i,
        {
            let mov = moves[i];
            assert(is_legal(sq0, st0, moves@[i as int]));
            let ghost child = num_positions(
                squares_after(sq0, st0, mov),
                state_after(sq0, st0, mov),
                depth - 1,
            );
            assert(positions_sum(sq0, st0, moves@, i as int, depth - 1) == child + positions_sum(
                sq0,
                st0,
                moves@,
                i + 1,
                depth - 1,
            ));
            let n = match self.algorithm {
                Algorithm::Clone => {
                    let mut board = self.scratch_copy();
                    let _ = board.make_move(&mov);
                    board.checked_depth_num_positions(depth - 1)
                },
                Algorithm::Unmove => {
                    let ghost h0 = self.state_history@;
                    let _ = self.make_move(&mov);
                    let n = self.checked_depth_num_positions(depth - 1);
                    proof {
                        lemma_make_unmake(sq0, st0, h0, mov);
                    }
                    let _ = self.unmake_move();
                    proof {
                        assert(self.squares@ == sq0);
                        assert(self.state_history@ =~= h0);
                    }
                    n
                },
            };
            match n {
                Some(n) => {
                    match total.checked_add(n) {
                        Some(sum) => total = sum,
                        None => return None,
                    }
                },
                None => return None,
            }
            i += 1;
        }
        Some(total)
    }

    /// The number of positions after `depth` plies, split by first move: each legal move
    /// with the count below it. Empty at depth 0 or below. The board is left as it was.
    pub fn perft(&mut self, depth: i32) -> (r: Vec<(Move, u32)>)
        requires
            old(self).wf(),
            num_positions(old(self).squares@, old(self).state, depth as int) <= u32::MAX,
        ensures
            depth <= 0 ==> r@.len() == 0,
            depth > 0 ==> {
                let ms = legal_moves(old(self).squares@, old(self).state);
                &&& r@.len() == ms.len()
                &&& forall|k: int|
                    0 <= k < r@.len() ==> (#[trigger] r@[k]).0 == ms[k] && r@[k].1 == num_positions(
                        squares_after(old(self).squares@, old(self).state, ms[k]),
                        state_after(old(self).squares@, old(self).state, ms[k]),
                        depth - 1,
                    )
            },
            final(self).same_as(old(self)),
            final(self).wf(),
    {
        let mut counts: Vec<(Move, u32)> = Vec::new();
        if depth <= 0 {
            return counts;
        }
        let ghost sq0 = self.squares@;
        let ghost st0 = self.state;
        let moves = self.gen_legal_moves();
        proof {
            lemma_legal_filter(sq0, st0, pseudo_moves(sq0, st0), 0);
        }
        let ghost total_all = positions_sum(sq0, st0, moves@, 0, depth - 1);
        let ghost mut done: int = 0;
        let mut i: usize = 0;
        while i < moves.len()
            invariant
                i <= moves@.len(),
                depth > 0,
                moves@ == legal_moves(sq0, st0),
                forall|k: int| 0 <= k < moves@.len() ==> is_legal(sq0, st0, #[trigger] moves@[k]),
                self.same_as(old(self)),
                self.wf(),
                sq0 == old(self).squares@,
                st0 == old(self).state,
                total_all == positions_sum(sq0, st0, moves@, 0, depth - 1),
                total_all <= u32::MAX,
                done >= 0,
                done + positions_sum(sq0, st0, moves@, i as int, depth - 1) == total_all,
                counts@.len() == i,
                forall|k: int|
                    0 <= k < i ==> (#[trigger] counts@[k]).0 == moves@[k] && counts@[k].1
                        == num_positions(
                        squares_after(sq0, st0, moves@[k]),
                        state_after(sq0, st0, moves@[k]),
                        depth - 1,
                    ),
            decreases moves@.len() - i,
        {
            let mov = moves[i];
            assert(is_legal(sq0, st0, moves@[i as int]));
            let ghost child = num_positions(
                squares_after(sq0, st0, mov),
                state_after(sq0, st0, mov),
                depth - 1,
            );
            assert(positions_sum(sq0, st0, moves@, i as int, depth - 1) == child + positions_sum(
                sq0,
                st0,
                moves@,
                i + 1,
                depth - 1,
            ));
            let n = match self.algorithm {
                Algorithm::Clone => {
                    let mut board = self.scratch_copy();
                    let _ = board.make_move(&mov);
                    board.depth_num_positions(depth - 1)
                },
                Algorithm::Unmove => {
                    let ghost h0 = self.state_history@;
                    let _ = self.make_move(&mov);
                    let n = self.depth_num_positions(depth - 1);
                    proof {
                        lemma_make_unmake(sq0, st0, h0, mov);
                    }
                    let _ = self.unmake_move();
                    proof {
                        assert(self.squares@ == sq0);
                        assert(self.state_history@ =~= h0);
                    }
                    n
                },
            };
            counts.push((mov, n));
            proof {
                done = done + child;
            }
            i += 1;
        }
        counts
    }

    /// Plays `mov` when there is one; with none, the game is over: lost by the side to move
    /// when its king is attacked, drawn otherwise.
    pub fn play_legal_move(&mut self, mov: Option<&Move>) -> (r: Result<(), Error>)
        requires
            old(self).wf(),
            mov matches Some(m) ==> move_on_board(*m),
        ensures
            final(self).wf(),
            final(self).algorithm == old(self).algorithm,
            mov matches Some(m) ==> (match move_error(old(self).squares@, old(self).state, *m) {
                Some(e) => r == Err::<(), Error>(e) && *final(self) == *old(self),
                None => {
                    &&& r is Ok
                    &&& final(self).squares@ == squares_after(old(self).squares@, old(self).state, *m)
                    &&& final(self).state == state_after(old(self).squares@, old(self).state, *m)
                    &&& final(self).state_history@ == old(self).history_after()
                },
            }),
            mov is None ==> {
                let st = old(self).state;
                let lost = square_attacked(
                    old(self).squares@,
                    king_of(st.king_indices, st.turn) as int,
                    st.turn,
                );
                &&& r is Ok
                &&& final(self).squares@ == old(self).squares@
                &&& final(self).state_history@ == old(self).state_history@
                &&& final(self).state == (State {
                    game_state: if lost {
                        GameState::Victory(opposite_of(st.turn))
                    } else {
                        GameState::Draw
                    },
                    ..st
                })
            },
    {
        match mov {
            Some(mov) => self.make_move(mov),
            None => {
                let king_index = self.state.king_indices.get(self.state.turn);
                if self.square_attacked(king_index, self.state.turn) {
                    self.state.game_state = GameState::Victory(self.state.turn.opposite());
                } else {
                    self.state.game_state = GameState::Draw;
                }
                Ok(())
            },
        }
    }

    /// Plays random legal moves until the game is over or `move_limit` moves were made,
    /// and leaves the board in the last position. A side without legal moves loses when
    /// its king is attacked, and draws otherwise.
    pub fn play_random_game(&mut self, move_limit: u32) -> (r: Result<GameState, Error>)
        requires
            old(self).wf(),
        ensures
            final(self).wf(),
            r == Ok::<GameState, Error>(final(self).state.game_state),
            final(self).algorithm == old(self).algorithm,
            final(self).state_history@.len() <= old(self).state_history@.len() + move_limit,
            move_limit == 0 ==> *final(self) == *old(self),
            exists|n: nat|
                n <= move_limit && #[trigger] game_played(
                    old(self).squares@,
                    old(self).state,
                    final(self).squares@,
                    final(self).state,
                    n,
                ) && (final(self).state.game_state == GameState::Playing ==> n == move_limit),
    {
        let mut played: u32 = 0;
        let ghost mut path: Seq<(Seq<Square>, State)> = seq![(self.squares@, self.state)];
        while played < move_limit
            invariant
                self.wf(),
                self.algorithm == old(self).algorithm,
                played <= move_limit,
                self.state_history@.len() <= old(self).state_history@.len() + played,
                played == 0 ==> *self == *old(self),
                game_path(
                    path,
                    old(self).squares@,
                    old(self).state,
                    self.squares@,
                    self.state,
                    played as nat,
                ),
            ensures
                played == move_limit || self.state.game_state != GameState::Playing,
            decreases move_limit - played,
        {
            let ghost sq = self.squares@;
            let ghost st = self.state;
            let moves = self.gen_legal_moves();
            let mov = choose_move(&moves);
            match mov {
                Some(m) => {
                    proof {
                        let k = choose|k: int| 0 <= k < moves@.len() && moves@[k] == m;
                        lemma_legal_filter(sq, st, pseudo_moves(sq, st), 0);
                        assert(is_legal(sq, st, moves@[k]));
                    }
                    let _ = self.play_legal_move(Some(&m));
                    proof {
                        let k = choose|k: int| 0 <= k < moves@.len() && moves@[k] == m;
                        assert(self.squares@ == squares_after(sq, st, moves@[k]));
                        assert(game_step(sq, st, self.squares@, self.state));
                    }
                },
                None => {
                    let _ = self.play_legal_move(None);
                    proof {
                        assert(self.state == game_over(sq, st));
                        assert(game_step(sq, st, self.squares@, self.state));
                    }
                },
            }
            proof {
                let old_path = path;
                path = path.push((self.squares@, self.state));
                assert forall|i: int| 0 <= i < played + 1 implies game_step(
                    #[trigger] path[i].0,
                    path[i].1,
                    path[i + 1].0,
                    path[i + 1].1,
                ) by {
                    if i < played {
                        assert(path[i] == old_path[i] && path[i + 1] == old_path[i + 1]);
                        assert(game_step(old_path[i].0, old_path[i].1, old_path[i + 1].0, old_path[i + 1].1));
                    }
                }
            }
            played += 1;
            if self.state.game_state != GameState::Playing {
                break;
            }
        }
        assert(game_played(
            old(self).squares@,
            old(self).state,
            self.squares@,
            self.state,
            played as nat,
        ));
        Ok(self.state.game_state)
    }
}

} // verus!
