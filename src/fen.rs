//! Reading a position from Forsyth-Edwards Notation.
use vstd::prelude::*;

use crate::board::{Board, Error, State};
use crate::castling::{self, rights_text, state_of_text, upper_text};
use crate::color::Color;
use crate::coordinate::{index_of_name, square_name, Coordinate};
use crate::piece::{square_char, Piece, Square};
use crate::setup::{count_kings, square_of_char};

verus! {

/// The pieces of `s` between spaces, from position `i` on, the current piece starting at
/// `start`: what `str::split(' ')` yields.
pub open spec fn split_spaces(s: Seq<char>, i: int, start: int) -> Seq<Seq<char>>
    decreases s.len() - i,
{
    if i >= s.len() {
        seq![s.subrange(start, s.len() as int)]
    } else if s[i] == ' ' {
        seq![s.subrange(start, i)] + split_spaces(s, i + 1, i + 1)
    } else {
        split_spaces(s, i + 1, start)
    }
}

/// The `k`-th space-separated field of a FEN record; empty when the record is shorter.
pub open spec fn fen_field(s: Seq<char>, k: int) -> Seq<char> {
    let fields = split_spaces(s, 0, 0);
    if k < fields.len() {
        fields[k]
    } else {
        seq![]
    }
}

/// The layout characters that the placement field gives from position `i` on: a digit
/// stands for that many empty squares, `/` separates rows, a piece letter stands for
/// itself. `Err` holds the first character that is none of these.
pub open spec fn placement(p: Seq<char>, i: int) -> Result<Seq<char>, char>
    decreases p.len() - i,
{
    if i >= p.len() {
        Ok(seq![])
    } else {
        let c = p[i];
        let head: Option<Seq<char>> = if c == '/' {
            Some(seq![])
        } else if '1' <= c <= '8' {
            Some(Seq::new((c as int - '0' as int) as nat, |j: int| ' '))
        } else if c != ' ' && square_of_char(c) is Some {
            Some(seq![c])
        } else {
            None
        };
        match head {
            None => Err(c),
            Some(h) => match placement(p, i + 1) {
                Ok(r) => Ok(h + r),
                Err(e) => Err(e),
            },
        }
    }
}

/// The value of a run of decimal digits.
pub open spec fn digits_value(s: Seq<char>) -> int
    decreases s.len(),
{
    if s.len() == 0 {
        0
    } else {
        digits_value(s.drop_last()) * 10 + (s.last() as int - '0' as int)
    }
}

/// A clock field without its leading `+`, if any.
pub open spec fn clock_digits(s: Seq<char>) -> Seq<char> {
    if s.len() > 0 && s[0] == '+' {
        s.subrange(1, s.len() as int)
    } else {
        s
    }
}

/// Every character is a decimal digit.
pub open spec fn all_digits(d: Seq<char>) -> bool {
    forall|i: int| 0 <= i < d.len() ==> '0' <= #[trigger] d[i] <= '9'
}

/// The number a clock field holds: an optional `+`, then at least one digit, with a value
/// that fits in 32 bits.
pub open spec fn clock_value(s: Seq<char>) -> Option<u32> {
    let d = clock_digits(s);
    if d.len() > 0 && all_digits(d) && digits_value(d) <= u32::MAX {
        Some(digits_value(d) as u32)
    } else {
        None
    }
}

/// The squares that a 64-character layout stands for.
pub open spec fn layout_squares(cs: Seq<char>) -> Seq<Square> {
    Seq::new(64, |i: int| square_of_char(cs[i])->0)
}

/// The layout has exactly one king of each side.
pub open spec fn one_king_each(sq: Seq<Square>) -> bool {
    count_kings(sq, Color::White, 64) == 1 && count_kings(sq, Color::Black, 64) == 1
}

/// The en passant square that the field names, by index.
pub open spec fn ep_of_field(s: Seq<char>) -> Option<usize> {
    match index_of_name(s) {
        Some(i) => Some(i as usize),
        None => None,
    }
}

/// `b` holds where each space-separated field of `s` starts and ends.
pub open spec fn spans_of_fields(s: Seq<char>, b: Seq<(usize, usize)>) -> bool {
    &&& b.len() == split_spaces(s, 0, 0).len()
    &&& forall|k: int|
        0 <= k < b.len() ==> b[k].0 <= b[k].1 <= s.len() && s.subrange(b[k].0 as int, b[k].1 as int)
            == #[trigger] split_spaces(s, 0, 0)[k]
}

/// The ranges of the space-separated fields of `s`.
fn field_bounds(s: &str) -> (r: Vec<(usize, usize)>)
    ensures
        spans_of_fields(s@, r@),
{
    let n = s.unicode_len();
    let mut bounds: Vec<(usize, usize)> = Vec::new();
    let mut start: usize = 0;
    let mut i: usize = 0;
    while i < n
        invariant
            n == s@.len(),
            start <= i <= n,
            bounds@.len() + split_spaces(s@, i as int, start as int).len() == split_spaces(
                s@,
                0,
                0,
            ).len(),
            forall|k: int|
                0 <= k < split_spaces(s@, 0, 0).len() ==> #[trigger] split_spaces(s@, 0, 0)[k] == if k
                    < bounds@.len() {
                    s@.subrange(bounds@[k].0 as int, bounds@[k].1 as int)
                } else {
                    split_spaces(s@, i as int, start as int)[k - bounds@.len()]
                },
            forall|k: int| 0 <= k < bounds@.len() ==> (#[trigger] bounds@[k]).0 <= bounds@[k].1 <= n,
        decreases n - i,
    {
        if s.get_char(i) == ' ' {
            bounds.push((start, i));
            start = i + 1;
        }
        i += 1;
    }
    bounds.push((start, n));
    bounds
}

/// The `k`-th field of `s`, or an empty string.
fn field<'a>(s: &'a str, bounds: &Vec<(usize, usize)>, k: usize) -> (r: &'a str)
    requires
        spans_of_fields(s@, bounds@),
    ensures
        r@ == fen_field(s@, k as int),
{
    if k < bounds.len() {
        let (a, b) = bounds[k];
        assert(s@.subrange(a as int, b as int) == split_spaces(s@, 0, 0)[k as int]);
        s.substring_char(a, b)
    } else {
        proof {
            reveal_strlit("");
        }
        ""
    }
}

/// The layout characters of a placement field.
fn expand_placement(p: &str) -> (r: Result<Vec<char>, char>)
    ensures
        match placement(p@, 0) {
            Ok(cs) => r matches Ok(v) && v@ == cs,
            Err(c) => r == Err::<Vec<char>, char>(c),
        },
{
    let n = p.unicode_len();
    let mut out: Vec<char> = Vec::new();
    let mut i: usize = 0;
    while i < n
        invariant
            n == p@.len(),
            i <= n,
            placement(p@, 0) == match placement(p@, i as int) {
                Ok(r) => Ok(out@ + r),
                Err(e) => Err::<Seq<char>, char>(e),
            },
        decreases n - i,
    {
        let c = p.get_char(i);
        let ghost before = out@;
        if c == '/' {
        } else if '1' <= c && c <= '8' {
            let count = (c as u32 - '0' as u32) as usize;
            let mut j: usize = 0;
            while j < count
                invariant
                    j <= count,
                    out@ == before + Seq::new(j as nat, |x: int| ' '),
                decreases count - j,
            {
                out.push(' ');
                proof {
                    assert(out@ =~= before + Seq::new((j + 1) as nat, |x: int| ' '));
                }
                j += 1;
            }
            proof {
                let h = Seq::new((c as int - '0' as int) as nat, |x: int| ' ');
                assert(out@ == before + h);
                match placement(p@, i + 1) {
                    Ok(r) => assert(before + (h + r) =~= out@ + r),
                    Err(e) => {},
                }
            }
        } else if c != ' ' && crate::setup::square_from_char(c).is_some() {
            out.push(c);
            proof {
                match placement(p@, i + 1) {
                    Ok(r) => assert(before + (seq![c] + r) =~= out@ + r),
                    Err(e) => {},
                }
            }
        } else {
            return Err(c);
        }
        i += 1;
    }
    assert(out@ =~= out@ + Seq::<char>::empty());
    Ok(out)
}

/// A larger number of digits never has a smaller value.
proof fn lemma_digits_step(s: Seq<char>, c: char)
    requires
        '0' <= c <= '9',
    ensures
        digits_value(s.push(c)) == digits_value(s) * 10 + (c as int - '0' as int),
{
    assert(s.push(c).drop_last() =~= s);
}

/// The value of the digits is never negative.
proof fn lemma_digits_nonneg(s: Seq<char>)
    requires
        forall|i: int| 0 <= i < s.len() ==> '0' <= #[trigger] s[i] <= '9',
    ensures
        digits_value(s) >= 0,
    decreases s.len(),
{
    if s.len() > 0 {
        lemma_digits_nonneg(s.drop_last());
    }
}

/// Reads a clock field: an optional `+`, then decimal digits, fitting in 32 bits.
fn parse_clock(s: &str) -> (r: Option<u32>)
    ensures
        r == clock_value(s@),
{
    let n = s.unicode_len();
    let mut i: usize = 0;
    if n > 0 && s.get_char(0) == '+' {
        i = 1;
    }
    let ghost first = i as int;
    let ghost d = s@.subrange(first, n as int);
    assert(d =~= clock_digits(s@));
    if i == n {
        assert(d.len() == 0);
        return None;
    }
    let cap: u64 = 0x1_0000_0000;
    let mut value: u64 = 0;
    while i < n
        invariant
            n == s@.len(),
            first <= i <= n,
            first == (if n > 0 && s@[0] == '+' { 1int } else { 0int }),
            d == s@.subrange(first, n as int),
            d == clock_digits(s@),
            forall|j: int| first <= j < i ==> '0' <= #[trigger] s@[j] <= '9',
            value == if digits_value(s@.subrange(first, i as int)) < cap {
                digits_value(s@.subrange(first, i as int))
            } else {
                cap as int
            },
            cap == 0x1_0000_0000,
        decreases n - i,
    {
        let c = s.get_char(i);
        if c < '0' || c > '9' {
            assert(d[i - first] == c);
            assert(!all_digits(d));
            return None;
        }
        let digit = (c as u32 - '0' as u32) as u64;
        proof {
            let pre = s@.subrange(first, i as int);
            assert(s@.subrange(first, i + 1) =~= pre.push(c));
            lemma_digits_step(pre, c);
            assert forall|j: int| 0 <= j < pre.len() implies '0' <= #[trigger] pre[j] <= '9' by {
                assert(pre[j] == s@[first + j]);
            }
            lemma_digits_nonneg(pre);
            if digits_value(pre) >= cap {
                assert(digits_value(pre) * 10 + digit >= cap) by (nonlinear_arith)
                    requires
                        digits_value(pre) >= cap,
                        digit >= 0,
                ;
            }
        }
        value = if value * 10 + digit < cap {
            value * 10 + digit
        } else {
            cap
        };
        i += 1;
    }
    proof {
        assert(s@.subrange(first, n as int) == d);
        assert forall|j: int| 0 <= j < d.len() implies '0' <= #[trigger] d[j] <= '9' by {
            assert(d[j] == s@[first + j]);
        }
    }
    if value < cap {
        Some(value as u32)
    } else {
        None
    }
}

impl Board {
    /// Reads a position in Forsyth-Edwards Notation: placement, side to move, castling
    /// rights, en passant square, halfmove clock and fullmove number, separated by spaces.
    /// A missing field reads as empty. The board has no history.
    ///
    /// Fails on the first field that is wrong, in that order; the placement must give
    /// 64 squares with exactly one king of each side.
    pub fn from_fen(fen: &str) -> (r: Result<Board, Error>)
        ensures
            ({
                let f = fen@;
                let turn = fen_field(f, 1);
                let ep = fen_field(f, 3);
                let half = fen_field(f, 4);
                let full = fen_field(f, 5);
                match placement(fen_field(f, 0), 0) {
                    Err(c) => r == Err::<Board, Error>(Error::InvalidPieceChar(c)),
                    Ok(cs) => if cs.len() != 64 {
                        r matches Err(Error::InvalidFenBoardLength(s)) && s@ == f
                    } else if !one_king_each(layout_squares(cs)) {
                        r == Err::<Board, Error>(Error::NoKing)
                    } else if turn != seq!['w'] && turn != seq!['b'] {
                        r matches Err(Error::InvalidColorStr(s)) && s@ == turn
                    } else if ep != seq!['-'] && index_of_name(ep) is None {
                        r matches Err(Error::InvalidCoordinate(s)) && s@ == ep
                    } else if clock_value(half) is None {
                        r matches Err(Error::InvalidHalfmoveStr(s)) && s@ == half
                    } else if clock_value(full) is None {
                        r matches Err(Error::InvalidFullmoveStr(s)) && s@ == full
                    } else {
                        r matches Ok(b) && {
                            &&& b.wf()
                            &&& b.squares@ == layout_squares(cs)
                            &&& b.state.turn == if turn == seq!['w'] {
                                Color::White
                            } else {
                                Color::Black
                            }
                            &&& b.state.castling_state == state_of_text(fen_field(f, 2))
                            &&& b.state.ep_index == ep_of_field(ep)
                            &&& b.state.halfmove_clock == clock_value(half)->0
                            &&& b.state.fullmove_count == clock_value(full)->0
                            &&& b.state == (State {
                                turn: b.state.turn,
                                castling_state: b.state.castling_state,
                                ep_index: b.state.ep_index,
                                halfmove_clock: b.state.halfmove_clock,
                                fullmove_count: b.state.fullmove_count,
                                ..crate::setup::initial_state(b.state.king_indices)
                            })
                            &&& b.state_history@.len() == 0
                            &&& b.algorithm == crate::board::Algorithm::Clone
                        }
                    },
                }
            }),
    {
        let bounds = field_bounds(fen);
        let pieces = field(fen, &bounds, 0);
        let turn = field(fen, &bounds, 1);
        let castling_rights = field(fen, &bounds, 2);
        let ep_square = field(fen, &bounds, 3);
        let halfmove_clock = field(fen, &bounds, 4);
        let fullmove_count = field(fen, &bounds, 5);

        let layout = match expand_placement(pieces) {
            Ok(v) => v,
            Err(c) => return Err(Error::InvalidPieceChar(c)),
        };
        if layout.len() != 64 {
            return Err(Error::InvalidFenBoardLength(String::from_str(fen)));
        }
        let mut chars: [char; 64] = [' ';64];
        let mut i: usize = 0;
        while i < 64
            invariant
                i <= 64,
                layout@.len() == 64,
                forall|j: int| 0 <= j < i ==> chars@[j] == layout@[j],
            decreases 64 - i,
        {
            chars[i] = layout[i];
            i += 1;
        }
        assert(chars@ =~= layout@);
        proof {
            lemma_placement_chars(fen_field(fen@, 0), 0);
            lemma_no_bad_char(chars@, 0);
        }
        let mut board = match Board::from_chars(&chars) {
            Ok(b) => b,
            Err(e) => return Err(e),
        };
        assert(layout_squares(chars@) =~= Seq::new(64, |i: int| square_of_char(chars@[i])->0));
        board.state.turn = match Color::from(turn) {
            Ok(c) => c,
            Err(e) => return Err(e),
        };
        board.state.castling_state = castling::State::from(castling_rights);
        board.state.ep_index = match Coordinate::from(ep_square) {
            Ok(Some(c)) => Some(c.into_index()),
            Ok(None) => None,
            Err(e) => return Err(e),
        };
        board.state.halfmove_clock = match parse_clock(halfmove_clock) {
            Some(v) => v,
            None => return Err(Error::InvalidHalfmoveStr(String::from_str(halfmove_clock))),
        };
        board.state.fullmove_count = match parse_clock(fullmove_count) {
            Some(v) => v,
            None => return Err(Error::InvalidFullmoveStr(String::from_str(fullmove_count))),
        };
        Ok(board)
    }
}

/// Every character the placement yields is a space or a piece letter.
proof fn lemma_placement_chars(p: Seq<char>, i: int)
    requires
        0 <= i,
    ensures
        placement(p, i) matches Ok(cs) ==> forall|j: int|
            0 <= j < cs.len() ==> #[trigger] square_of_char(cs[j]) is Some,
    decreases p.len() - i,
{
    if i < p.len() {
        lemma_placement_chars(p, i + 1);
        let c = p[i];
        if let Ok(cs) = placement(p, i) {
            if let Ok(r) = placement(p, i + 1) {
                let h = cs.subrange(0, cs.len() - r.len());
                assert forall|j: int| 0 <= j < cs.len() implies #[trigger] square_of_char(cs[j]) is Some by {
                    if j >= cs.len() - r.len() {
                        assert(cs[j] == r[j - (cs.len() - r.len())]);
                    }
                }
            }
        }
    }
}

/// A layout of spaces and piece letters has no bad character.
proof fn lemma_no_bad_char(cs: Seq<char>, i: int)
    requires
        0 <= i,
        forall|j: int| 0 <= j < cs.len() ==> #[trigger] square_of_char(cs[j]) is Some,
    ensures
        crate::setup::first_bad_char(cs, i) is None,
    decreases cs.len() - i,
{
    if i < cs.len() {
        lemma_no_bad_char(cs, i + 1);
    }
}

/// The digit that stands for `n`, below ten.
pub open spec fn digit_char(n: int) -> char {
    (('0' as int) + n) as char
}

/// The decimal text of `n`, without leading zeros.
pub open spec fn decimal_text(n: nat) -> Seq<char>
    decreases n,
{
    if n < 10 {
        seq![digit_char(n as int)]
    } else {
        decimal_text(n / 10) + seq![digit_char((n % 10) as int)]
    }
}

/// The text of row `r` from file `f` on, `run` empty squares being pending: runs of empty
/// squares as a digit, pieces as their letters.
pub open spec fn row_text(sq: Seq<Square>, r: int, f: int, run: int) -> Seq<char>
    decreases 8 - f,
{
    let pending = if run > 0 {
        seq![digit_char(run)]
    } else {
        seq![]
    };
    if f >= 8 {
        pending
    } else if sq[8 * r + f] is None {
        row_text(sq, r, f + 1, run + 1)
    } else {
        pending + seq![square_char(sq[8 * r + f])] + row_text(sq, r, f + 1, 0)
    }
}

/// The placement field from row `r` on, rows separated by `/`.
pub open spec fn placement_text(sq: Seq<Square>, r: int) -> Seq<char>
    decreases 8 - r,
{
    if r >= 8 {
        seq![]
    } else if r == 7 {
        row_text(sq, r, 0, 0)
    } else {
        row_text(sq, r, 0, 0) + seq!['/'] + placement_text(sq, r + 1)
    }
}

/// The castling field: the rights, or `-` when neither side has any.
pub open spec fn castling_text(cs: castling::State) -> Seq<char> {
    let t = upper_text(rights_text(cs.white)) + rights_text(cs.black);
    if t.len() == 0 {
        seq!['-']
    } else {
        t
    }
}

/// The full FEN record of a position.
pub open spec fn fen_text(sq: Seq<Square>, st: State) -> Seq<char> {
    placement_text(sq, 0) + seq![' '] + (if st.turn == Color::White {
        seq!['w']
    } else {
        seq!['b']
    }) + seq![' '] + castling_text(st.castling_state) + seq![' '] + (match st.ep_index {
        Some(e) => square_name(e as int),
        None => seq!['-'],
    }) + seq![' '] + decimal_text(st.halfmove_clock as nat) + seq![' '] + decimal_text(
        st.fullmove_count as nat,
    )
}

/// Relies on `String::push` of std: appends one character.
#[verifier::external_body]
fn push_char(s: &mut String, c: char)
    ensures
        final(s)@ == old(s)@.push(c),
{
    s.push(c);
}

fn digit(n: u32) -> (r: char)
    requires
        n < 10,
    ensures
        r == digit_char(n as int),
{
    match n {
        0 => '0',
        1 => '1',
        2 => '2',
        3 => '3',
        4 => '4',
        5 => '5',
        6 => '6',
        7 => '7',
        8 => '8',
        _ => '9',
    }
}

/// Appends the decimal text of `n`.
fn push_decimal(s: &mut String, n: u32)
    ensures
        final(s)@ == old(s)@ + decimal_text(n as nat),
    decreases n,
{
    if n >= 10 {
        push_decimal(s, n / 10);
    }
    push_char(s, digit(n % 10));
    assert(final(s)@ =~= old(s)@ + decimal_text(n as nat));
}

impl Board {
    /// The position and state in Forsyth-Edwards Notation.
    pub fn to_fen(&self) -> (r: String)
        requires
            self.wf(),
        ensures
            r@ == fen_text(self.squares@, self.state),
    {
        let ghost sq = self.squares@;
        let mut s = String::new();
        let mut r: usize = 0;
        while r < 8
            invariant
                r <= 8,
                sq == self.squares@,
                s@ + placement_text(sq, r as int) == placement_text(sq, 0),
            decreases 8 - r,
        {
            let ghost before = s@;
            let mut run: u32 = 0;
            let mut f: usize = 0;
            while f < 8
                invariant
                    r < 8,
                    f <= 8,
                    run <= f,
                    sq == self.squares@,
                    s@ + row_text(sq, r as int, f as int, run as int) == before + row_text(sq, r as int, 0, 0),
                decreases 8 - f,
            {
                let ghost here = s@;
                let ghost pending_run = run as int;
                let square = self.squares[8 * r + f];
                if square.is_none() {
                    run += 1;
                } else {
                    if run > 0 {
                        push_char(&mut s, digit(run));
                    }
                    push_char(&mut s, Piece::square_to_char(&square));
                    run = 0;
                    assert(s@ + row_text(sq, r as int, f + 1, 0) =~= here + row_text(
                        sq,
                        r as int,
                        f as int,
                        pending_run,
                    ));
                }
                f += 1;
            }
            let ghost here = s@;
            if run > 0 {
                push_char(&mut s, digit(run));
            }
            assert(s@ =~= here + row_text(sq, r as int, 8, run as int));
            if r < 7 {
                push_char(&mut s, '/');
            }
            assert(s@ + placement_text(sq, r + 1) =~= before + placement_text(sq, r as int));
            r += 1;
        }
        assert(s@ =~= placement_text(sq, 0));
        push_char(&mut s, ' ');
        push_char(
            &mut s,
            match self.state.turn {
                Color::White => 'w',
                Color::Black => 'b',
            },
        );
        push_char(&mut s, ' ');
        let rights = self.state.castling_state.to_str();
        if rights.as_str().unicode_len() == 0 {
            push_char(&mut s, '-');
        } else {
            s.append(rights.as_str());
        }
        push_char(&mut s, ' ');
        match self.state.ep_index {
            Some(e) => {
                let name = Coordinate::from_index(e).to_string();
                s.append(name.as_str());
            },
            None => push_char(&mut s, '-'),
        }
        push_char(&mut s, ' ');
        push_decimal(&mut s, self.state.halfmove_clock);
        push_char(&mut s, ' ');
        push_decimal(&mut s, self.state.fullmove_count);
        assert(s@ =~= fen_text(sq, self.state));
        s
    }
}

} // verus!
