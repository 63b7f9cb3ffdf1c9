use vstd::prelude::*;

use crate::board::Error;
use crate::color::Color;
use crate::mov::Move;

verus! {

/// Which ways one side may still castle.
#[derive(Debug, Copy, Clone, PartialEq, Eq, Structural)]
pub enum Rights {
    Neither,
    Kingside,
    Queenside,
    Both,
}

/// The side may still castle kingside.
pub open spec fn has_kingside(r: Rights) -> bool {
    r == Rights::Kingside || r == Rights::Both
}

/// The side may still castle queenside.
pub open spec fn has_queenside(r: Rights) -> bool {
    r == Rights::Queenside || r == Rights::Both
}

/// The rights made of the two wings.
pub open spec fn rights_of(king: bool, queen: bool) -> Rights {
    if king && queen {
        Rights::Both
    } else if king {
        Rights::Kingside
    } else if queen {
        Rights::Queenside
    } else {
        Rights::Neither
    }
}

/// What is left of `r` once the wings of `right` are taken away.
pub open spec fn revoked(r: Rights, right: Rights) -> Rights {
    rights_of(
        has_kingside(r) && !has_kingside(right),
        has_queenside(r) && !has_queenside(right),
    )
}

/// The king's castling moves of `color` that `r` allows: kingside first.
pub open spec fn rights_moves(r: Rights, color: Color) -> Seq<Move> {
    let home: usize = if color == Color::White {
        60
    } else {
        4
    };
    let kingside = Move { start_index: home, target_index: (home + 2) as usize, promotion_kind: None };
    let queenside = Move { start_index: home, target_index: (home - 2) as usize, promotion_kind: None };
    if has_kingside(r) && has_queenside(r) {
        seq![kingside, queenside]
    } else if has_kingside(r) {
        seq![kingside]
    } else if has_queenside(r) {
        seq![queenside]
    } else {
        seq![]
    }
}

/// The text of one side's rights, in lowercase.
pub open spec fn rights_text(r: Rights) -> Seq<char> {
    match r {
        Rights::Neither => seq![],
        Rights::Kingside => seq!['k'],
        Rights::Queenside => seq!['q'],
        Rights::Both => seq!['k', 'q'],
    }
}

impl Rights {
    pub fn from(king: bool, queen: bool) -> (r: Rights)
        ensures
            r == rights_of(king, queen),
    {
        match (king, queen) {
            (true, true) => Rights::Both,
            (true, false) => Rights::Kingside,
            (false, true) => Rights::Queenside,
            (false, false) => Rights::Neither,
        }
    }

    pub fn to_str(&self) -> (r: &str)
        ensures
            r@ == rights_text(*self),
    {
        proof {
            reveal_strlit("");
            reveal_strlit("k");
            reveal_strlit("q");
            reveal_strlit("kq");
        }
        match self {
            Rights::Neither => "",
            Rights::Kingside => "k",
            Rights::Queenside => "q",
            Rights::Both => "kq",
        }
    }

    /// The castling moves of the king of `color` that these rights allow.
    pub fn gen_moves(&self, color: &Color) -> (r: Vec<Move>)
        ensures
            r@ == rights_moves(*self, *color),
    {
        let home: usize = match color {
            Color::White => 60,
            Color::Black => 4,
        };
        let kingside = Move::new(home, home + 2);
        let queenside = Move::new(home, home - 2);
        let r = match self {
            Rights::Neither => vec![],
            Rights::Kingside => vec![kingside],
            Rights::Queenside => vec![queenside],
            Rights::Both => vec![kingside, queenside],
        };
        assert(r@ =~= rights_moves(*self, *color));
        r
    }

    /// Takes away the wings of `right`; rights are never given back.
    pub fn revoke(&mut self, right: Rights)
        ensures
            *final(self) == revoked(*old(self), right),
    {
        match right {
            Rights::Neither => return,
            Rights::Both => {
                *self = Rights::Neither;
                return;
            },
            _ => (),
        }
        match self {
            Rights::Neither => (),
            Rights::Kingside => if right == Rights::Kingside {
                *self = Rights::Neither;
            },
            Rights::Queenside => if right == Rights::Queenside {
                *self = Rights::Neither;
            },
            Rights::Both => match right {
                Rights::Kingside => *self = Rights::Queenside,
                Rights::Queenside => *self = Rights::Kingside,
                _ => (),
            },
        }
    }
}

/// The castling rights of both sides.
#[derive(Debug, Copy, Clone, PartialEq, Eq, Structural)]
pub struct State {
    pub white: Rights,
    pub black: Rights,
}

/// The rights that the castling field of a FEN record gives.
pub open spec fn state_of_text(s: Seq<char>) -> State {
    if s == seq!['-'] {
        State { white: Rights::Neither, black: Rights::Neither }
    } else {
        State {
            white: rights_of(s.contains('K'), s.contains('Q')),
            black: rights_of(s.contains('k'), s.contains('q')),
        }
    }
}

/// The uppercase form of a rights text.
pub open spec fn upper_text(s: Seq<char>) -> Seq<char> {
    s.map_values(|c: char| if c == 'k' { 'K' } else if c == 'q' { 'Q' } else { c })
}

/// One side's rights, for the side given.
pub open spec fn rights_for(s: State, color: Color) -> Rights {
    match color {
        Color::White => s.white,
        Color::Black => s.black,
    }
}

/// Whether `s` holds the character `c`.
fn has_char(s: &str, c: char) -> (r: bool)
    ensures
        r == s@.contains(c),
{
    let n = s.unicode_len();
    let mut i: usize = 0;
    while i < n
        invariant
            n == s@.len(),
            i <= n,
            forall|j: int| 0 <= j < i ==> s@[j] != c,
        decreases n - i,
    {
        if s.get_char(i) == c {
            return true;
        }
        i += 1;
    }
    false
}

impl State {
    /// Reads the castling field of a FEN record, such as `KQkq` or `-`.
    pub fn from(rights: &str) -> (r: State)
        ensures
            r == state_of_text(rights@),
    {
        if rights.unicode_len() == 1 && rights.get_char(0) == '-' {
            assert(rights@ =~= seq!['-']);
            return State { white: Rights::Neither, black: Rights::Neither };
        }
        assert(rights@ != seq!['-']) by {
            if rights@ == seq!['-'] {
                assert(rights@[0] == '-');
            }
        }
        let white_k = has_char(rights, 'K');
        let white_q = has_char(rights, 'Q');
        let black_k = has_char(rights, 'k');
        let black_q = has_char(rights, 'q');
        State { white: Rights::from(white_k, white_q), black: Rights::from(black_k, black_q) }
    }

    /// The castling field of a FEN record: White's wings in uppercase, then Black's.
    pub fn to_str(&self) -> (r: String)
        ensures
            r@ == upper_text(rights_text(self.white)) + rights_text(self.black),
    {
        proof {
            reveal_strlit("");
            reveal_strlit("K");
            reveal_strlit("Q");
            reveal_strlit("KQ");
        }
        let white: &str = match self.white {
            Rights::Neither => "",
            Rights::Kingside => "K",
            Rights::Queenside => "Q",
            Rights::Both => "KQ",
        };
        let mut s = String::from_str(white);
        s.append(self.black.to_str());
        assert(s@ =~= upper_text(rights_text(self.white)) + rights_text(self.black));
        s
    }

    /// The castling moves that the rights of `color` allow.
    pub fn get_moves(&self, color: &Color) -> (r: Vec<Move>)
        ensures
            r@ == rights_moves(rights_for(*self, *color), *color),
    {
        match color {
            Color::White => self.white.gen_moves(color),
            Color::Black => self.black.gen_moves(color),
        }
    }

    /// Takes away the wings of `right` from the side `color`.
    pub fn revoke(&mut self, right: Rights, color: &Color)
        ensures
            *final(self) == revoked_for(*old(self), right, *color),
    {
        match color {
            Color::White => self.white.revoke(right),
            Color::Black => self.black.revoke(right),
        }
    }
}

/// `s` with the wings of `right` taken from the side `color`.
pub open spec fn revoked_for(s: State, right: Rights, color: Color) -> State {
    match color {
        Color::White => State { white: revoked(s.white, right), ..s },
        Color::Black => State { black: revoked(s.black, right), ..s },
    }
}

/// The squares that one castling move concerns.
#[derive(Debug, Clone, PartialEq)]
pub struct CastlingSquares {
    /// Squares between king and rook, which must be empty.
    pub empty_indices: Vec<usize>,
    /// Squares the king stands on or crosses, which must not be attacked.
    pub check_indices: Vec<usize>,
    pub king_start_index: usize,
    pub rook_start_index: usize,
    pub rook_target_index: usize,
}

/// One of the four castling moves, by its start and target.
pub open spec fn is_castle_pair(start: int, target: int) -> bool {
    (start == 60 && (target == 62 || target == 58)) || (start == 4 && (target == 6 || target == 2))
}

/// Where the rook of a castling move starts, by the king's target.
pub open spec fn castle_rook_start(target: int) -> int {
    if target == 62 {
        63
    } else if target == 6 {
        7
    } else if target == 58 {
        56
    } else {
        0
    }
}

/// Where the rook of a castling move lands, by the king's target.
pub open spec fn castle_rook_target(target: int) -> int {
    if target == 62 {
        61
    } else if target == 6 {
        5
    } else if target == 58 {
        59
    } else {
        3
    }
}

/// The squares between king and rook, by the king's target.
pub open spec fn castle_empty(target: int) -> Seq<usize> {
    if target == 62 {
        seq![61, 62]
    } else if target == 6 {
        seq![5, 6]
    } else if target == 58 {
        seq![57, 58, 59]
    } else {
        seq![1, 2, 3]
    }
}

/// The squares the king stands on, crosses and reaches, by its target.
pub open spec fn castle_check(target: int) -> Seq<usize> {
    if target == 62 {
        seq![60, 61, 62]
    } else if target == 6 {
        seq![4, 5, 6]
    } else if target == 58 {
        seq![58, 59, 60]
    } else {
        seq![2, 3, 4]
    }
}

/// The squares of the castling move `mov`.
pub fn get_squares(mov: &Move) -> (r: Result<CastlingSquares, Error>)
    ensures
        is_castle_pair(mov.start_index as int, mov.target_index as int) ==> (r matches Ok(c) && {
            let t = mov.target_index as int;
            &&& c.empty_indices@ == castle_empty(t)
            &&& c.check_indices@ == castle_check(t)
            &&& c.king_start_index == mov.start_index
            &&& c.rook_start_index == castle_rook_start(t)
            &&& c.rook_target_index == castle_rook_target(t)
        }),
        !is_castle_pair(mov.start_index as int, mov.target_index as int) ==> r
            == Err::<CastlingSquares, Error>(Error::InvalidCastlingMove(mov.target_index)),
{
    let (start, target) = mov.indices();
    let r = if start == 60 && target == 62 {
        Ok(
            CastlingSquares {
                empty_indices: vec![61, 62],
                check_indices: vec![60, 61, 62],
                king_start_index: 60,
                rook_start_index: 63,
                rook_target_index: 61,
            },
        )
    } else if start == 4 && target == 6 {
        Ok(
            CastlingSquares {
                empty_indices: vec![5, 6],
                check_indices: vec![4, 5, 6],
                king_start_index: 4,
                rook_start_index: 7,
                rook_target_index: 5,
            },
        )
    } else if start == 60 && target == 58 {
        Ok(
            CastlingSquares {
                empty_indices: vec![57, 58, 59],
                check_indices: vec![58, 59, 60],
                king_start_index: 60,
                rook_start_index: 56,
                rook_target_index: 59,
            },
        )
    } else if start == 4 && target == 2 {
        Ok(
            CastlingSquares {
                empty_indices: vec![1, 2, 3],
                check_indices: vec![2, 3, 4],
                king_start_index: 4,
                rook_start_index: 0,
                rook_target_index: 3,
            },
        )
    } else {
        Err(Error::InvalidCastlingMove(mov.target_index))
    };
    proof {
        if r is Ok {
            let c = r->Ok_0;
            let t = mov.target_index as int;
            assert(c.empty_indices@ =~= castle_empty(t));
            assert(c.check_indices@ =~= castle_check(t));
        }
    }
    r
}

} // verus!
