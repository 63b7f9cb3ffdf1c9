//! Building a board from a character layout, the starting position, and plain accessors.
use vstd::prelude::*;

use crate::board::{Algorithm, Board, Error, GameState, KingIndices, State};
use crate::castling::{self, Rights};
use crate::color::Color;
use crate::geometry::{col, row};
use crate::mov::{move_on_board, Move};
use crate::piece::{Kind, Piece, Square};

verus! {

/// The square that a layout character stands for: a lowercase letter is a black piece,
/// an uppercase one a white piece, a space an empty square. Any other character is
/// `None`.
pub open spec fn square_of_char(c: char) -> Option<Square> {
    let black = |k: Kind| Some(Some(Piece { kind: k, color: Color::Black }));
    let white = |k: Kind| Some(Some(Piece { kind: k, color: Color::White }));
    if c == ' ' {
        Some(None)
    } else if c == 'k' {
        black(Kind::King)
    } else if c == 'q' {
        black(Kind::Queen)
    } else if c == 'r' {
        black(Kind::Rook)
    } else if c == 'b' {
        black(Kind::Bishop)
    } else if c == 'n' {
        black(Kind::Knight)
    } else if c == 'p' {
        black(Kind::Pawn)
    } else if c == 'K' {
        white(Kind::King)
    } else if c == 'Q' {
        white(Kind::Queen)
    } else if c == 'R' {
        white(Kind::Rook)
    } else if c == 'B' {
        white(Kind::Bishop)
    } else if c == 'N' {
        white(Kind::Knight)
    } else if c == 'P' {
        white(Kind::Pawn)
    } else {
        None
    }
}

/// The first character of `chars`, from the `i`-th on, that stands for no square.
pub open spec fn first_bad_char(chars: Seq<char>, i: int) -> Option<char>
    decreases chars.len() - i,
{
    if i >= chars.len() {
        None
    } else if square_of_char(chars[i]) is None {
        Some(chars[i])
    } else {
        first_bad_char(chars, i + 1)
    }
}

/// How many kings of `c` stand on the first `n` squares.
pub open spec fn count_kings(sq: Seq<Square>, c: Color, n: int) -> nat
    decreases n,
{
    if n <= 0 {
        0
    } else {
        count_kings(sq, c, n - 1) + if sq[n - 1] == Some(Piece { kind: Kind::King, color: c }) {
            1nat
        } else {
            0nat
        }
    }
}

/// The state of a new game: White to move, all castling rights, clocks at their start.
pub open spec fn initial_state(kings: KingIndices) -> State {
    State {
        turn: Color::White,
        castling_state: castling::State { white: Rights::Both, black: Rights::Both },
        ep_index: None,
        halfmove_clock: 0,
        fullmove_count: 1,
        game_state: GameState::Playing,
        king_indices: kings,
        last_move: None,
        last_moved_square: None,
        last_captured_square: None,
        last_ep_taken_index: None,
        last_ep_taken_square: None,
    }
}

/// The piece a back row holds on file `f` at the start.
pub open spec fn back_rank(f: int) -> Kind {
    if f == 0 || f == 7 {
        Kind::Rook
    } else if f == 1 || f == 6 {
        Kind::Knight
    } else if f == 2 || f == 5 {
        Kind::Bishop
    } else if f == 3 {
        Kind::Queen
    } else {
        Kind::King
    }
}

/// The starting position.
pub open spec fn start_square(i: int) -> Square {
    if row(i) == 0 {
        Some(Piece { kind: back_rank(col(i)), color: Color::Black })
    } else if row(i) == 1 {
        Some(Piece { kind: Kind::Pawn, color: Color::Black })
    } else if row(i) == 6 {
        Some(Piece { kind: Kind::Pawn, color: Color::White })
    } else if row(i) == 7 {
        Some(Piece { kind: back_rank(col(i)), color: Color::White })
    } else {
        None
    }
}

pub(crate) fn square_from_char(c: char) -> (r: Option<Square>)
    ensures
        r == square_of_char(c),
{
    let (kind, color) = match c {
        ' ' => return Some(None),
        'k' => (Kind::King, Color::Black),
        'q' => (Kind::Queen, Color::Black),
        'r' => (Kind::Rook, Color::Black),
        'b' => (Kind::Bishop, Color::Black),
        'n' => (Kind::Knight, Color::Black),
        'p' => (Kind::Pawn, Color::Black),
        'K' => (Kind::King, Color::White),
        'Q' => (Kind::Queen, Color::White),
        'R' => (Kind::Rook, Color::White),
        'B' => (Kind::Bishop, Color::White),
        'N' => (Kind::Knight, Color::White),
        'P' => (Kind::Pawn, Color::White),
        _ => return None,
    };
    Some(Some(Piece { kind, color }))
}

impl Board {
    /// A board at the first move with the pieces of `chars`, read row by row from a8:
    /// `kqrbnp` for Black, `KQRBNP` for White, a space for an empty square.
    ///
    /// Fails on the first character that is none of these, then unless each side has
    /// exactly one king.
    pub fn from_chars(chars: &[char; 64]) -> (r: Result<Board, Error>)
        ensures
            first_bad_char(chars@, 0) matches Some(c) ==> r == Err::<Board, Error>(
                Error::InvalidPieceChar(c),
            ),
            first_bad_char(chars@, 0) is None ==> {
                let sq = Seq::new(64, |i: int| square_of_char(chars@[i])->0);
                let one_each = count_kings(sq, Color::White, 64) == 1 && count_kings(
                    sq,
                    Color::Black,
                    64,
                ) == 1;
                &&& !one_each ==> r == Err::<Board, Error>(Error::NoKing)
                &&& one_each ==> (r matches Ok(b) && {
                    &&& b.wf()
                    &&& b.squares@ == sq
                    &&& b.state == initial_state(b.state.king_indices)
                    &&& sq[b.state.king_indices.white as int] == Some(
                        Piece { kind: Kind::King, color: Color::White },
                    )
                    &&& sq[b.state.king_indices.black as int] == Some(
                        Piece { kind: Kind::King, color: Color::Black },
                    )
                    &&& b.state_history@.len() == 0
                    &&& b.algorithm == Algorithm::Clone
                })
            },
    {
        let mut squares: [Option<Piece>; 64] = [None;64];
        let mut white_kings: usize = 0;
        let mut black_kings: usize = 0;
        let mut white: usize = 0;
        let mut black: usize = 0;
        let mut i: usize = 0;
        while i < 64
            invariant
                i <= 64,
                first_bad_char(chars@, 0) == first_bad_char(chars@, i as int),
                forall|j: int| 0 <= j < i ==> squares@[j] == square_of_char(chars@[j])->0,
                white_kings == count_kings(squares@, Color::White, i as int),
                black_kings == count_kings(squares@, Color::Black, i as int),
                white < 64,
                black < 64,
                white_kings > 0 ==> squares@[white as int] == Some(
                    Piece { kind: Kind::King, color: Color::White },
                ) && white < i,
                black_kings > 0 ==> squares@[black as int] == Some(
                    Piece { kind: Kind::King, color: Color::Black },
                ) && black < i,
                white_kings <= i,
                black_kings <= i,
            decreases 64 - i,
        {
            let c = chars[i];
            let square = match square_from_char(c) {
                Some(square) => square,
                None => return Err(Error::InvalidPieceChar(c)),
            };
            let ghost before = squares@;
            squares[i] = square;
            proof {
                lemma_count_kings_frame(before, squares@, Color::White, i as int);
                lemma_count_kings_frame(before, squares@, Color::Black, i as int);
            }
            if square == Some(Piece { kind: Kind::King, color: Color::White }) {
                white_kings += 1;
                white = i;
            }
            if square == Some(Piece { kind: Kind::King, color: Color::Black }) {
                black_kings += 1;
                black = i;
            }
            i += 1;
        }
        proof {
            assert(squares@ =~= Seq::new(64, |i: int| square_of_char(chars@[i])->0));
        }
        if white_kings != 1 || black_kings != 1 {
            return Err(Error::NoKing);
        }
        Ok(
            Board {
                squares,
                state: State {
                    turn: Color::White,
                    castling_state: castling::State { white: Rights::Both, black: Rights::Both },
                    ep_index: None,
                    halfmove_clock: 0,
                    fullmove_count: 1,
                    game_state: GameState::Playing,
                    king_indices: KingIndices { white, black },
                    last_move: None,
                    last_moved_square: None,
                    last_captured_square: None,
                    last_ep_taken_index: None,
                    last_ep_taken_square: None,
                },
                state_history: Vec::new(),
                algorithm: Algorithm::Clone,
            },
        )
    }

    /// The starting position, White to move.
    pub fn new() -> (r: Board)
        ensures
            r.wf(),
            r.squares@ == Seq::new(64, |i: int| start_square(i)),
            r.state == initial_state(KingIndices { white: 60, black: 4 }),
            r.state_history@.len() == 0,
            r.algorithm == Algorithm::Clone,
    {
        let mut squares: [Option<Piece>; 64] = [None;64];
        let mut f: usize = 0;
        while f < 8
            invariant
                f <= 8,
                forall|i: int|
                    0 <= i < 64 ==> #[trigger] squares@[i] == if col(i) < f {
                        start_square(i)
                    } else {
                        None
                    },
            decreases 8 - f,
        {
            let kind = match f {
                0 | 7 => Kind::Rook,
                1 | 6 => Kind::Knight,
                2 | 5 => Kind::Bishop,
                3 => Kind::Queen,
                _ => Kind::King,
            };
            squares[f] = Some(Piece { kind, color: Color::Black });
            squares[8 + f] = Some(Piece { kind: Kind::Pawn, color: Color::Black });
            squares[48 + f] = Some(Piece { kind: Kind::Pawn, color: Color::White });
            squares[56 + f] = Some(Piece { kind, color: Color::White });
            f += 1;
        }
        assert(squares@ =~= Seq::new(64, |i: int| start_square(i)));
        Board {
            squares,
            state: State {
                turn: Color::White,
                castling_state: castling::State { white: Rights::Both, black: Rights::Both },
                ep_index: None,
                halfmove_clock: 0,
                fullmove_count: 1,
                game_state: GameState::Playing,
                king_indices: KingIndices { white: 60, black: 4 },
                last_move: None,
                last_moved_square: None,
                last_captured_square: None,
                last_ep_taken_index: None,
                last_ep_taken_square: None,
            },
            state_history: Vec::new(),
            algorithm: Algorithm::Clone,
        }
    }

    /// Chooses how legality is tested from now on.
    pub fn set_algorithm(&mut self, algorithm: Algorithm)
        ensures
            *final(self) == (Board { algorithm, ..*old(self) }),
    {
        self.algorithm = algorithm;
    }

    /// Replaces the castling rights by those of a FEN castling field.
    pub fn set_castling_state(&mut self, rights: &str)
        ensures
            *final(self) == (Board {
                state: State { castling_state: castling::state_of_text(rights@), ..old(self).state },
                ..*old(self)
            }),
    {
        self.state.castling_state = castling::State::from(rights);
    }

    /// Replaces the state.
    pub fn set_state(&mut self, state: State)
        ensures
            *final(self) == (Board { state, ..*old(self) }),
    {
        self.state = state;
    }

    pub fn squares(&self) -> (r: [Option<Piece>; 64])
        ensures
            r == self.squares,
    {
        self.squares
    }

    pub fn state(&self) -> (r: State)
        ensures
            r == self.state,
    {
        self.state
    }

    pub fn algorithm(&self) -> (r: Algorithm)
        ensures
            r == self.algorithm,
    {
        self.algorithm
    }

    /// The square of the first king of `color`, by index.
    pub fn king_index(&self, color: Color) -> (r: Result<usize, Error>)
        ensures
            r matches Ok(i) ==> i < 64 && self.squares@[i as int] == Some(
                Piece { kind: Kind::King, color },
            ) && forall|j: int| 0 <= j < i ==> self.squares@[j] != Some(
                Piece { kind: Kind::King, color },
            ),
            r is Err ==> r == Err::<usize, Error>(Error::NoKing) && forall|j: int|
                0 <= j < 64 ==> self.squares@[j] != Some(Piece { kind: Kind::King, color }),
    {
        let king = Piece { kind: Kind::King, color };
        let mut i: usize = 0;
        while i < 64
            invariant
                i <= 64,
                king == (Piece { kind: Kind::King, color }),
                forall|j: int| 0 <= j < i ==> self.squares@[j] != Some(king),
            decreases 64 - i,
        {
            if self.squares[i] == Some(king) {
                return Ok(i);
            }
            i += 1;
        }
        Err(Error::NoKing)
    }

    /// Plays the move from `start_index` to `target_index`, promoting to `promotion_kind`
    /// if given.
    pub fn dbg_play_move(
        &mut self,
        start_index: usize,
        target_index: usize,
        promotion_kind: Option<Kind>,
    ) -> (r: Result<(), Error>)
        requires
            old(self).wf(),
            start_index < 64,
            target_index < 64,
        ensures
            final(self).wf(),
            ({
                let m = Move { start_index, target_index, promotion_kind };
                match crate::board::move_error(old(self).squares@, old(self).state, m) {
                    Some(e) => r == Err::<(), Error>(e),
                    None => r is Ok && final(self).squares@ == crate::board::squares_after(
                        old(self).squares@,
                        old(self).state,
                        m,
                    ) && final(self).state == crate::board::state_after(
                        old(self).squares@,
                        old(self).state,
                        m,
                    ),
                }
            }),
    {
        let mov = match promotion_kind {
            Some(kind) => Move::new(start_index, target_index).set_promotion_kind(kind),
            None => Move::new(start_index, target_index),
        };
        assert(move_on_board(mov));
        self.make_move(&mov)
    }

    /// The number of legal moves of the side to move.
    pub fn num_legal_moves(&mut self) -> (r: usize)
        requires
            old(self).wf(),
        ensures
            r == crate::legal::legal_moves(old(self).squares@, old(self).state).len(),
            final(self).same_as(old(self)),
            final(self).wf(),
    {
        self.gen_legal_moves().len()
    }
}

/// Writing square `i` leaves the kings counted before it as they were.
proof fn lemma_count_kings_frame(a: Seq<Square>, b: Seq<Square>, c: Color, i: int)
    requires
        0 <= i,
        forall|j: int| 0 <= j < i ==> a[j] == b[j],
    ensures
        count_kings(a, c, i) == count_kings(b, c, i),
        count_kings(b, c, i + 1) == count_kings(b, c, i) + if b[i] == Some(
            Piece { kind: Kind::King, color: c },
        ) {
            1nat
        } else {
            0nat
        },
    decreases i,
{
    if i > 0 {
        lemma_count_kings_frame(a, b, c, i - 1);
    }
}

} // verus!
