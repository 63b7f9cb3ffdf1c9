//! Properties that relate several operations of the engine.
use vstd::prelude::*;

use crate::attack::{any_attacked, knight_attacked, ray_attacked, square_attacked};
use crate::board::{
    ep_taken, king_of, move_error, squares_after, squares_before, state_after, Algorithm, Board,
    State,
};
use crate::castling::{
    castle_check, castle_empty, castle_rook_start, castle_rook_target, is_castle_pair,
};
use crate::color::Color;
use crate::geometry::{dir_row, edge, knight_jump, lemma_ray_square, offset, ray_square};
use crate::legal::{
    check_squares, is_legal, lemma_legal_filter, legal_filter, legal_moves, num_positions,
};
use crate::mov::{castling_shape, move_on_board, Move};
use crate::movegen::{
    castle_moves, castle_open, dir_end, dir_start, knight_moves, pawn_captures, pawn_fwd, pawn_moves,
    pawn_pushes, pawn_stuck, piece_moves, pieces_moves, pseudo_moves, ray_limit, ray_moves,
    rights_castles, slider_moves,
};
use crate::piece::{Kind, Piece, Square};
use crate::setup::count_kings;

verus! {

/// Playing a move and taking it back gives the position back exactly: the squares, the
/// state before the move (castling rights, en passant square, clocks) and the history.
pub proof fn lemma_make_unmake(sq: Seq<Square>, st: State, history: Seq<State>, m: Move)
    requires
        sq.len() == 64,
        st.wf(),
        move_on_board(m),
        move_error(sq, st, m) is None,
    ensures
        state_after(sq, st, m).last_move is Some,
        state_after(sq, st, m).wf(),
        squares_before(squares_after(sq, st, m), state_after(sq, st, m)) == sq,
        history.push(st).last() == st,
        history.push(st).drop_last() == history,
{
    let after = squares_after(sq, st, m);
    let back = squares_before(after, state_after(sq, st, m));
    assert(back =~= sq);
    assert(history.push(st).drop_last() =~= history);
}


/// Legality is decided by the position alone: boards that differ only in their strategy
/// (and history) have the same legal moves and the same position counts, so trying moves
/// on a copy and playing them then taking them back agree.
pub proof fn lemma_algorithms_agree(a: Board, b: Board, depth: int)
    requires
        a.squares@ == b.squares@,
        a.state == b.state,
        a.algorithm == Algorithm::Clone,
        b.algorithm == Algorithm::Unmove,
    ensures
        legal_moves(a.squares@, a.state) == legal_moves(b.squares@, b.state),
        num_positions(a.squares@, a.state, depth) == num_positions(b.squares@, b.state, depth),
{
}

/// Every move along a ray starts on the ray's square; a king's step is never castling.
proof fn lemma_ray_no_castle(sq: Seq<Square>, s: int, d: int, n: int, limit: int)
    requires
        0 <= s < 64,
        0 <= d < 8,
        0 <= n,
        limit <= edge(s, d),
        sq[s] matches Some(p) && p.kind == Kind::King ==> limit <= 1,
    ensures
        forall|j: int|
            0 <= j < ray_moves(sq, s, d, n, limit).len() ==> (#[trigger] ray_moves(sq, s, d, n, limit)[j]).start_index
                == s && !castling_shape(sq, ray_moves(sq, s, d, n, limit)[j]),
    decreases limit - n,
{
    if n < limit {
        lemma_ray_no_castle(sq, s, d, n + 1, limit);
        lemma_ray_square(s, d, n + 1);
        let t = ray_square(s, d, n + 1);
        let rest = ray_moves(sq, s, d, n + 1, limit);
        let all = ray_moves(sq, s, d, n, limit);
        if sq[s] matches Some(p) && p.kind == Kind::King {
            assert(n == 0);
            assert(t == s + offset(d));
        }
        assert forall|j: int| 0 <= j < all.len() implies (#[trigger] all[j]).start_index == s
            && !castling_shape(sq, all[j]) by {
            if j > 0 {
                assert(all[j] == rest[j - 1]);
            }
        }
    }
}

/// Moves of a sliding piece or king start on its square and are never castling.
proof fn lemma_slider_no_castle(sq: Seq<Square>, s: int, k: Kind, d: int)
    requires
        0 <= s < 64,
        0 <= d,
        sq[s] matches Some(p) && p.kind == k,
    ensures
        forall|j: int|
            0 <= j < slider_moves(sq, s, k, d).len() ==> (#[trigger] slider_moves(sq, s, k, d)[j]).start_index
                == s && !castling_shape(sq, slider_moves(sq, s, k, d)[j]),
    decreases 8 - d,
{
    if d < dir_end(k) && d < 8 {
        lemma_slider_no_castle(sq, s, k, d + 1);
        lemma_ray_no_castle(sq, s, d, 0, ray_limit(s, d, k));
        let a = ray_moves(sq, s, d, 0, ray_limit(s, d, k));
        let b = slider_moves(sq, s, k, d + 1);
        assert forall|j: int| 0 <= j < (a + b).len() implies (#[trigger] (a + b)[j]).start_index
            == s && !castling_shape(sq, (a + b)[j]) by {
            if j >= a.len() {
                assert((a + b)[j] == b[j - a.len()]);
            } else {
                assert((a + b)[j] == a[j]);
            }
        }
    }
}

/// Moves of a knight start on its square.
proof fn lemma_knight_start(sq: Seq<Square>, s: int, j: int)
    requires
        0 <= s < 64,
        0 <= j,
    ensures
        forall|i: int|
            0 <= i < knight_moves(sq, s, j).len() ==> (#[trigger] knight_moves(sq, s, j)[i]).start_index
                == s,
    decreases 8 - j,
{
    if j < 8 {
        lemma_knight_start(sq, s, j + 1);
        let all = knight_moves(sq, s, j);
        let rest = knight_moves(sq, s, j + 1);
        assert forall|i: int| 0 <= i < all.len() implies (#[trigger] all[i]).start_index == s by {
            if i >= all.len() - rest.len() {
                assert(all[i] == rest[i - (all.len() - rest.len())]);
            }
        }
    }
}

/// Moves of a pawn start on its square.
proof fn lemma_pawn_start(sq: Seq<Square>, st: State, s: int)
    requires
        0 <= s < 64,
    ensures
        forall|i: int|
            0 <= i < pawn_moves(sq, st, s).len() ==> (#[trigger] pawn_moves(sq, st, s)[i]).start_index
                == s,
{
    let all = pawn_moves(sq, st, s);
    assert forall|i: int| 0 <= i < all.len() implies (#[trigger] all[i]).start_index == s by {
        if !pawn_stuck(sq, s) {
            let a = pawn_pushes(sq, s);
            let b = pawn_captures(sq, st, s, false);
            let c = pawn_captures(sq, st, s, true);
            assert(all == a + b + c);
            if i < a.len() {
                assert(all[i] == a[i]);
            } else if i < a.len() + b.len() {
                assert(all[i] == b[i - a.len()]);
            } else {
                assert(all[i] == c[i - a.len() - b.len()]);
            }
        }
    }
}

/// No move of the pieces, square by square, is castling.
proof fn lemma_pieces_no_castle(sq: Seq<Square>, st: State, i: int)
    requires
        0 <= i,
    ensures
        forall|j: int|
            0 <= j < pieces_moves(sq, st, i).len() ==> !castling_shape(
                sq,
                #[trigger] pieces_moves(sq, st, i)[j],
            ),
    decreases 64 - i,
{
    if i < 64 {
        lemma_pieces_no_castle(sq, st, i + 1);
        let a = piece_moves(sq, st, i);
        let b = pieces_moves(sq, st, i + 1);
        if let Some(p) = sq[i] {
            if p.color == st.turn {
                if p.kind == Kind::Knight {
                    lemma_knight_start(sq, i, 0);
                } else if p.kind == Kind::Pawn {
                    lemma_pawn_start(sq, st, i);
                } else {
                    lemma_slider_no_castle(sq, i, p.kind, dir_start(p.kind));
                }
            }
        }
        assert forall|j: int| 0 <= j < (a + b).len() implies !castling_shape(sq, #[trigger] (a
            + b)[j]) by {
            if j >= a.len() {
                assert((a + b)[j] == b[j - a.len()]);
            } else {
                assert((a + b)[j] == a[j]);
                assert(a[j].start_index == i);
            }
        }
    }
}

/// The castling moves kept are open.
proof fn lemma_castle_moves_open(sq: Seq<Square>, st: State, ms: Seq<Move>, i: int)
    requires
        0 <= i,
    ensures
        forall|j: int|
            0 <= j < castle_moves(sq, st, ms, i).len() ==> castle_open(
                sq,
                st,
                #[trigger] castle_moves(sq, st, ms, i)[j],
            ),
    decreases ms.len() - i,
{
    if i < ms.len() {
        lemma_castle_moves_open(sq, st, ms, i + 1);
        let all = castle_moves(sq, st, ms, i);
        let rest = castle_moves(sq, st, ms, i + 1);
        assert forall|j: int| 0 <= j < all.len() implies castle_open(sq, st, #[trigger] all[j]) by {
            if j >= all.len() - rest.len() {
                assert(all[j] == rest[j - (all.len() - rest.len())]);
            }
        }
    }
}

/// The moves the legality filter keeps are among those it was given.
proof fn lemma_legal_filter_members(sq: Seq<Square>, st: State, ms: Seq<Move>, i: int)
    requires
        0 <= i,
    ensures
        forall|j: int|
            0 <= j < legal_filter(sq, st, ms, i).len() ==> ms.contains(
                #[trigger] legal_filter(sq, st, ms, i)[j],
            ),
    decreases ms.len() - i,
{
    if i < ms.len() {
        lemma_legal_filter_members(sq, st, ms, i + 1);
        let all = legal_filter(sq, st, ms, i);
        let rest = legal_filter(sq, st, ms, i + 1);
        assert forall|j: int| 0 <= j < all.len() implies ms.contains(#[trigger] all[j]) by {
            if j >= all.len() - rest.len() {
                assert(all[j] == rest[j - (all.len() - rest.len())]);
            } else {
                assert(all[j] == ms[i]);
            }
        }
    }
}

/// A legal castling move has the squares between king and rook empty, king and rook of
/// the mover at home, and none of the squares the king stands on, crosses or reaches
/// attacked once it has castled.
pub proof fn lemma_castling_legality(sq: Seq<Square>, st: State, m: Move)
    requires
        sq.len() == 64,
        legal_moves(sq, st).contains(m),
        castling_shape(sq, m),
    ensures
        is_castle_pair(m.start_index as int, m.target_index as int),
        forall|k: int|
            0 <= k < castle_empty(m.target_index as int).len() ==> sq[(#[trigger] castle_empty(
                m.target_index as int,
            )[k]) as int] is None,
        sq[m.start_index as int] == Some(Piece { kind: Kind::King, color: st.turn }),
        sq[castle_rook_start(m.target_index as int)] == Some(
            Piece { kind: Kind::Rook, color: st.turn },
        ),
        forall|k: int|
            0 <= k < castle_check(m.target_index as int).len() ==> !square_attacked(
                squares_after(sq, st, m),
                (#[trigger] castle_check(m.target_index as int)[k]) as int,
                st.turn,
            ),
{
    let ms = pseudo_moves(sq, st);
    let legal = legal_moves(sq, st);
    let j = choose|j: int| 0 <= j < legal.len() && legal[j] == m;
    lemma_legal_filter(sq, st, ms, 0);
    lemma_legal_filter_members(sq, st, ms, 0);
    assert(is_legal(sq, st, legal[j]));
    assert(ms.contains(legal[j]));
    let a = pieces_moves(sq, st, 0);
    let b = castle_moves(sq, st, rights_castles(st), 0);
    let i = choose|i: int| 0 <= i < ms.len() && ms[i] == m;
    lemma_pieces_no_castle(sq, st, 0);
    lemma_castle_moves_open(sq, st, rights_castles(st), 0);
    if i < a.len() {
        assert(ms[i] == a[i]);
    } else {
        assert(ms[i] == b[i - a.len()]);
    }
    assert(check_squares(sq, st, m) == castle_check(m.target_index as int));
    let t = m.target_index as int;
    assert forall|k: int| 0 <= k < castle_check(t).len() implies !square_attacked(
        squares_after(sq, st, m),
        (#[trigger] castle_check(t)[k]) as int,
        st.turn,
    ) by {
        if square_attacked(squares_after(sq, st, m), castle_check(t)[k] as int, st.turn) {
            assert(any_attacked(squares_after(sq, st, m), check_squares(sq, st, m), st.turn));
        }
    }
}

/// A pawn takes en passant only right after a double push: the en passant square that a
/// move leaves is the one a pawn just passed over, and every other move leaves none.
pub proof fn lemma_en_passant_window(sq: Seq<Square>, st: State, m: Move, next: Move)
    requires
        sq.len() == 64,
        move_on_board(m),
        move_error(sq, st, m) is None,
        ep_taken(squares_after(sq, st, m), state_after(sq, st, m), next) is Some,
    ensures
        sq[m.start_index as int]->0.kind == Kind::Pawn,
        m.target_index == m.start_index + 16 || m.start_index == m.target_index + 16,
        2 * next.target_index == m.start_index + m.target_index,
        state_after(sq, st, m).ep_index == Some(next.target_index),
{
}

/// The pawn taken en passant is the one that just advanced two squares, not what stands on
/// the target square, which keeps what it held before the double push.
pub proof fn lemma_en_passant_capture(sq: Seq<Square>, st: State, m: Move, next: Move)
    requires
        sq.len() == 64,
        st.wf(),
        move_on_board(m),
        move_on_board(next),
        move_error(sq, st, m) is None,
        m.promotion_kind is None,
        st.turn == Color::White ==> m.start_index == m.target_index + 16,
        st.turn == Color::Black ==> m.target_index == m.start_index + 16,
        ep_taken(squares_after(sq, st, m), state_after(sq, st, m), next) is Some,
        move_error(squares_after(sq, st, m), state_after(sq, st, m), next) is None,
    ensures
        ({
            let sq1 = squares_after(sq, st, m);
            let st1 = state_after(sq, st, m);
            let e = ep_taken(sq1, st1, next)->0;
            &&& e == m.target_index
            &&& sq1[e] == sq[m.start_index as int]
            &&& ep_taken(sq, st, m) is None ==> sq1[next.target_index as int]
                == sq[next.target_index as int]
            &&& squares_after(sq1, st1, next)[e] is None
        }),
{
    let sq1 = squares_after(sq, st, m);
    let st1 = state_after(sq, st, m);
    let e = ep_taken(sq1, st1, next)->0;
    assert(sq1[e] == sq[m.start_index as int]);
    assert(next.start_index != e);
}

/// A pawn's diagonal move onto an empty square is generated only onto the recorded en
/// passant square.
pub proof fn lemma_en_passant_target(sq: Seq<Square>, st: State, s: int, right: bool)
    requires
        0 <= s < 64,
        !pawn_stuck(sq, s),
    ensures
        forall|j: int|
            0 <= j < pawn_captures(sq, st, s, right).len() && sq[(#[trigger] pawn_captures(
                sq,
                st,
                s,
                right,
            )[j]).target_index as int] is None ==> st.ep_index == Some(
                pawn_captures(sq, st, s, right)[j].target_index,
            ),
{
    let c = pawn_captures(sq, st, s, right);
    assert forall|j: int|
        0 <= j < c.len() && sq[(#[trigger] c[j]).target_index as int] is None implies st.ep_index
            == Some(c[j].target_index) by {
        let t = s + pawn_fwd(sq, s) + if right {
            1int
        } else {
            -1int
        };
        assert(0 <= t < 64);
        assert(c[j].target_index == t as usize);
    }
}

/// Squares that agree along a ray give the same answer for attacks along it.
proof fn lemma_ray_frame(a: Seq<Square>, b: Seq<Square>, s: int, d: int, n: int, c: Color)
    requires
        0 <= s < 64,
        0 <= d < 8,
        0 <= n,
        forall|k: int| n < k <= edge(s, d) ==> a[#[trigger] ray_square(s, d, k)] == b[ray_square(s, d, k)],
    ensures
        ray_attacked(a, s, d, n, c) == ray_attacked(b, s, d, n, c),
    decreases edge(s, d) - n,
{
    if n < edge(s, d) {
        assert(a[ray_square(s, d, n + 1)] == b[ray_square(s, d, n + 1)]);
        lemma_ray_frame(a, b, s, d, n + 1, c);
    }
}

/// Castling leaves the squares off the king's row as they were, and the king's row only
/// changes on the four squares of king and rook.
proof fn lemma_castle_changes(sq: Seq<Square>, st: State, m: Move, i: int)
    requires
        sq.len() == 64,
        castling_shape(sq, m),
        is_castle_pair(m.start_index as int, m.target_index as int),
        m.promotion_kind is None,
        0 <= i < 64,
        i != m.start_index,
        i != m.target_index,
        i != castle_rook_start(m.target_index as int),
        i != castle_rook_target(m.target_index as int),
    ensures
        squares_after(sq, st, m)[i] == sq[i],
{
}

/// Along a ray, empty squares up to a piece of the side `c` mean no attack along it.
proof fn lemma_ray_blocked(sq: Seq<Square>, x: int, d: int, n: int, k0: int, c: Color)
    requires
        0 <= x < 64,
        0 <= d < 8,
        0 <= n < k0 <= edge(x, d),
        forall|k: int| n < k < k0 ==> sq[#[trigger] ray_square(x, d, k)] is None,
        sq[ray_square(x, d, k0)] matches Some(p) && p.color == c,
    ensures
        !ray_attacked(sq, x, d, n, c),
    decreases k0 - n,
{
    if n + 1 < k0 {
        assert(sq[ray_square(x, d, n + 1)] is None);
        lemma_ray_blocked(sq, x, d, n + 1, k0, c);
    }
}

/// A castling move that is legal carries no promotion and has its squares ready: king and
/// rook at home, the squares between them empty.
proof fn lemma_castle_ready_facts(sq: Seq<Square>, st: State, m: Move)
    requires
        sq.len() == 64,
        legal_moves(sq, st).contains(m),
        castling_shape(sq, m),
    ensures
        m.promotion_kind is None,
        is_castle_pair(m.start_index as int, m.target_index as int),
        forall|k: int|
            0 <= k < castle_empty(m.target_index as int).len() ==> sq[(#[trigger] castle_empty(
                m.target_index as int,
            )[k]) as int] is None,
        sq[m.start_index as int] == Some(Piece { kind: Kind::King, color: st.turn }),
        sq[castle_rook_start(m.target_index as int)] == Some(
            Piece { kind: Kind::Rook, color: st.turn },
        ),
        forall|k: int|
            0 <= k < castle_check(m.target_index as int).len() ==> !square_attacked(
                squares_after(sq, st, m),
                (#[trigger] castle_check(m.target_index as int)[k]) as int,
                st.turn,
            ),
{
    lemma_castling_legality(sq, st, m);
    let ms = pseudo_moves(sq, st);
    let legal = legal_moves(sq, st);
    let j = choose|j: int| 0 <= j < legal.len() && legal[j] == m;
    lemma_legal_filter_members(sq, st, ms, 0);
    assert(ms.contains(legal[j]));
    let a = pieces_moves(sq, st, 0);
    let b = castle_moves(sq, st, rights_castles(st), 0);
    let i = choose|i: int| 0 <= i < ms.len() && ms[i] == m;
    lemma_pieces_no_castle(sq, st, 0);
    lemma_castle_moves_from(sq, st, rights_castles(st), 0);
    if i < a.len() {
        assert(ms[i] == a[i]);
    } else {
        assert(ms[i] == b[i - a.len()]);
    }
}

/// A square the castling king stands on, crosses or reaches, unattacked once it has
/// castled, was unattacked before.
proof fn lemma_check_square_before(sq: Seq<Square>, st: State, m: Move, x: int)
    requires
        sq.len() == 64,
        legal_moves(sq, st).contains(m),
        castling_shape(sq, m),
        castle_check(m.target_index as int).contains(x as usize),
        0 <= x < 64,
    ensures
        !square_attacked(sq, x, st.turn),
{
    lemma_castle_ready_facts(sq, st, m);
    let s = m.start_index as int;
    let t = m.target_index as int;
    let c = st.turn;
    let after = squares_after(sq, st, m);
    let kx = choose|k: int| 0 <= k < castle_check(t).len() && castle_check(t)[k] == x as usize;
    assert(!square_attacked(after, castle_check(t)[kx] as int, c));
    assert(!square_attacked(after, x, c));
    // King and rook stand at the two ends `lo` and `hi` of a stretch of the king's row;
    // everything strictly between them is empty, and castling changes nothing outside it.
    let e = castle_empty(t);
    let rs = castle_rook_start(t);
    let lo = if rs < s {
        rs
    } else {
        s
    };
    let hi = if rs < s {
        s
    } else {
        rs
    };
    assert(sq[e[0] as int] is None && sq[e[1] as int] is None);
    if e.len() > 2 {
        assert(sq[e[2] as int] is None);
    }
    assert(forall|y: int| lo < y < hi ==> sq[y] is None);
    assert(sq[lo] matches Some(p) && p.color == c);
    assert(sq[hi] matches Some(p) && p.color == c);
    assert(lo <= x <= hi && lo / 8 == x / 8 && hi / 8 == x / 8);
    let rt = castle_rook_target(t);
    assert(lo <= s <= hi && s / 8 == x / 8 && lo <= t <= hi && t / 8 == x / 8);
    assert(lo <= rs <= hi && rs / 8 == x / 8 && lo <= rt <= hi && rt / 8 == x / 8);
    assert forall|y: int| 0 <= y < 64 && !(lo <= y <= hi && y / 8 == x / 8) implies #[trigger] sq[y]
        == after[y] by {
        lemma_castle_changes(sq, st, m, y);
    }
    assert forall|jj: int| 0 <= jj < 8 implies (#[trigger] knight_jump(x, jj) matches Some(y)
        ==> sq[y] == after[y]) by {
        if let Some(y) = knight_jump(x, jj) {
            assert(y / 8 != x / 8);
        }
    }
    assert(!knight_attacked(sq, x, c)) by {
        if knight_attacked(sq, x, c) {
            let jj = choose|jj: int|
                0 <= jj < 8 && (#[trigger] knight_jump(x, jj) matches Some(y) && (sq[y] matches Some(p)
                    && p.kind == Kind::Knight && p.color != c));
            assert(knight_attacked(after, x, c));
        }
    }
    assert forall|d: int| 0 <= d < 8 implies !#[trigger] ray_attacked(sq, x, d, 0, c) by {
        assert(!ray_attacked(after, x, d, 0, c));
        if (d == 3 && x < hi) || (d == 2 && x > lo) {
            lemma_row_blocked(sq, x, d, lo, hi, c);
        } else {
            lemma_ray_outside(sq, after, x, d, lo, hi);
            lemma_ray_frame(sq, after, x, d, 0, c);
        }
    }
}

/// Along the row, from a square of a stretch whose inner squares are empty and whose two
/// ends hold pieces of `c`, no attack comes toward either end.
proof fn lemma_row_blocked(sq: Seq<Square>, x: int, d: int, lo: int, hi: int, c: Color)
    requires
        0 <= lo <= x <= hi < 64,
        lo / 8 == x / 8,
        hi / 8 == x / 8,
        forall|y: int| lo < y < hi ==> sq[y] is None,
        sq[lo] matches Some(p) && p.color == c,
        sq[hi] matches Some(p) && p.color == c,
        (d == 3 && x < hi) || (d == 2 && x > lo),
    ensures
        !ray_attacked(sq, x, d, 0, c),
{
    if d == 3 {
        assert forall|k: int| 0 < k <= hi - x implies #[trigger] ray_square(x, d, k) == x + k by {
            assert(offset(3) == 1);
        }
        assert(edge(x, 3) == 7 - x % 8);
        lemma_ray_blocked(sq, x, d, 0, hi - x, c);
    } else {
        assert forall|k: int| 0 < k <= x - lo implies #[trigger] ray_square(x, d, k) == x - k by {
            assert(offset(2) == -1);
        }
        assert(edge(x, 2) == x % 8);
        lemma_ray_blocked(sq, x, d, 0, x - lo, c);
    }
}

/// A ray from `x` that does not run inward along the row never meets the stretch
/// `lo..=hi` of `x`'s row, where two squares sequences agree outside that stretch.
proof fn lemma_ray_outside(a: Seq<Square>, b: Seq<Square>, x: int, d: int, lo: int, hi: int)
    requires
        0 <= lo <= x <= hi < 64,
        lo / 8 == x / 8,
        hi / 8 == x / 8,
        0 <= d < 8,
        !((d == 3 && x < hi) || (d == 2 && x > lo)),
        forall|y: int| 0 <= y < 64 && !(lo <= y <= hi && y / 8 == x / 8) ==> a[y] == b[y],
    ensures
        forall|k: int| 0 < k <= edge(x, d) ==> a[#[trigger] ray_square(x, d, k)] == b[ray_square(x, d, k)],
{
    assert forall|k: int| 0 < k <= edge(x, d) implies a[#[trigger] ray_square(x, d, k)] == b[ray_square(
        x,
        d,
        k,
    )] by {
        lemma_ray_square(x, d, k);
        let y = ray_square(x, d, k);
        if d == 2 {
            assert(offset(2) * k == -k);
        } else if d == 3 {
            assert(offset(3) * k == k);
        } else {
            assert(dir_row(d) != 0);
            assert(y / 8 != x / 8);
        }
    }
}

/// A legal castling move is never made out of, through or into check: none of the squares
/// the king stands on, crosses or reaches is attacked before it moves.
pub proof fn lemma_castling_not_through_check(sq: Seq<Square>, st: State, m: Move)
    requires
        sq.len() == 64,
        legal_moves(sq, st).contains(m),
        castling_shape(sq, m),
    ensures
        forall|k: int|
            0 <= k < castle_check(m.target_index as int).len() ==> !square_attacked(
                sq,
                (#[trigger] castle_check(m.target_index as int)[k]) as int,
                st.turn,
            ),
{
    lemma_castle_ready_facts(sq, st, m);
    let t = m.target_index as int;
    assert forall|k: int| 0 <= k < castle_check(t).len() implies !square_attacked(
        sq,
        (#[trigger] castle_check(t)[k]) as int,
        st.turn,
    ) by {
        assert(castle_check(t).contains(castle_check(t)[k]));
        lemma_check_square_before(sq, st, m, castle_check(t)[k] as int);
    }
}

/// The castling moves kept come from the moves they were taken from.
proof fn lemma_castle_moves_from(sq: Seq<Square>, st: State, ms: Seq<Move>, i: int)
    requires
        0 <= i,
    ensures
        forall|j: int|
            0 <= j < castle_moves(sq, st, ms, i).len() ==> ms.contains(
                #[trigger] castle_moves(sq, st, ms, i)[j],
            ),
    decreases ms.len() - i,
{
    if i < ms.len() {
        lemma_castle_moves_from(sq, st, ms, i + 1);
        let all = castle_moves(sq, st, ms, i);
        let rest = castle_moves(sq, st, ms, i + 1);
        assert forall|j: int| 0 <= j < all.len() implies ms.contains(#[trigger] all[j]) by {
            if j >= all.len() - rest.len() {
                assert(all[j] == rest[j - (all.len() - rest.len())]);
            } else {
                assert(all[j] == ms[i]);
            }
        }
    }
}

/// Two different squares holding a king of `c` count twice.
proof fn lemma_two_kings(sq: Seq<Square>, c: Color, i: int, j: int, n: int)
    requires
        0 <= i < j < n,
        sq[i] == Some(Piece { kind: Kind::King, color: c }),
        sq[j] == Some(Piece { kind: Kind::King, color: c }),
    ensures
        count_kings(sq, c, n) >= 2,
    decreases n,
{
    if j < n - 1 {
        lemma_two_kings(sq, c, i, j, n - 1);
    } else {
        lemma_one_king_counted(sq, c, i, n - 1);
    }
}

/// A king of `c` before square `n` counts once.
proof fn lemma_one_king_counted(sq: Seq<Square>, c: Color, i: int, n: int)
    requires
        0 <= i < n,
        sq[i] == Some(Piece { kind: Kind::King, color: c }),
    ensures
        count_kings(sq, c, n) >= 1,
    decreases n,
{
    if i < n - 1 {
        lemma_one_king_counted(sq, c, i, n - 1);
    }
}

/// A king in check cannot castle: when the side to move has a single king, on the square
/// the state records, and that square is attacked, no legal move is castling.
pub proof fn lemma_no_castling_in_check(sq: Seq<Square>, st: State)
    requires
        sq.len() == 64,
        count_kings(sq, st.turn, 64) == 1,
        king_of(st.king_indices, st.turn) < 64,
        sq[king_of(st.king_indices, st.turn) as int] == Some(
            Piece { kind: Kind::King, color: st.turn },
        ),
        square_attacked(sq, king_of(st.king_indices, st.turn) as int, st.turn),
    ensures
        forall|k: int|
            0 <= k < legal_moves(sq, st).len() ==> !castling_shape(
                sq,
                #[trigger] legal_moves(sq, st)[k],
            ),
{
    let kc = king_of(st.king_indices, st.turn) as int;
    assert forall|k: int| 0 <= k < legal_moves(sq, st).len() implies !castling_shape(
        sq,
        #[trigger] legal_moves(sq, st)[k],
    ) by {
        let m = legal_moves(sq, st)[k];
        if castling_shape(sq, m) {
            assert(legal_moves(sq, st).contains(m));
            lemma_castle_ready_facts(sq, st, m);
            let s = m.start_index as int;
            if s < kc {
                lemma_two_kings(sq, st.turn, s, kc, 64);
            } else if kc < s {
                lemma_two_kings(sq, st.turn, kc, s, 64);
            }
            let t = m.target_index as int;
            assert(castle_check(t).contains(m.start_index));
            lemma_check_square_before(sq, st, m, s);
        }
    }
}

/// Every move of the pieces, square by square, is among the moves of the piece on its
/// start square.
proof fn lemma_pieces_from_start(sq: Seq<Square>, st: State, i: int)
    requires
        0 <= i,
    ensures
        forall|j: int|
            0 <= j < pieces_moves(sq, st, i).len() ==> piece_moves(
                sq,
                st,
                (#[trigger] pieces_moves(sq, st, i)[j]).start_index as int,
            ).contains(pieces_moves(sq, st, i)[j]),
    decreases 64 - i,
{
    if i < 64 {
        lemma_pieces_from_start(sq, st, i + 1);
        let a = piece_moves(sq, st, i);
        let b = pieces_moves(sq, st, i + 1);
        if let Some(p) = sq[i] {
            if p.color == st.turn {
                if p.kind == Kind::Knight {
                    lemma_knight_start(sq, i, 0);
                } else if p.kind == Kind::Pawn {
                    lemma_pawn_start(sq, st, i);
                } else {
                    lemma_slider_no_castle(sq, i, p.kind, dir_start(p.kind));
                }
            }
        }
        assert forall|j: int| 0 <= j < (a + b).len() implies piece_moves(
            sq,
            st,
            (#[trigger] (a + b)[j]).start_index as int,
        ).contains((a + b)[j]) by {
            if j >= a.len() {
                assert((a + b)[j] == b[j - a.len()]);
            } else {
                assert((a + b)[j] == a[j]);
                assert(a[j].start_index == i);
                assert(a.contains(a[j]));
            }
        }
    }
}

/// A legal pawn move to another file onto an empty square is the en passant capture onto
/// the recorded square.
pub proof fn lemma_legal_en_passant_target(sq: Seq<Square>, st: State, m: Move)
    requires
        sq.len() == 64,
        legal_moves(sq, st).contains(m),
        sq[m.start_index as int] matches Some(p) && p.kind == Kind::Pawn,
        m.start_index % 8 != m.target_index % 8,
        sq[m.target_index as int] is None,
    ensures
        st.ep_index == Some(m.target_index),
{
    let ms = pseudo_moves(sq, st);
    let legal = legal_moves(sq, st);
    let j = choose|j: int| 0 <= j < legal.len() && legal[j] == m;
    lemma_legal_filter(sq, st, ms, 0);
    lemma_legal_filter_members(sq, st, ms, 0);
    assert(ms.contains(legal[j]));
    assert(is_legal(sq, st, legal[j]));
    let a = pieces_moves(sq, st, 0);
    let b = castle_moves(sq, st, rights_castles(st), 0);
    let i = choose|i: int| 0 <= i < ms.len() && ms[i] == m;
    lemma_castle_moves_open(sq, st, rights_castles(st), 0);
    lemma_pieces_from_start(sq, st, 0);
    if i >= a.len() {
        assert(ms[i] == b[i - a.len()]);
        assert(castle_open(sq, st, m));
    } else {
        assert(ms[i] == a[i]);
        let s = m.start_index as int;
        let pm = piece_moves(sq, st, s);
        assert(pm.contains(m));
        assert(pm == pawn_moves(sq, st, s));
        assert(!pawn_stuck(sq, s));
        let x = pawn_pushes(sq, s);
        let y = pawn_captures(sq, st, s, false);
        let z = pawn_captures(sq, st, s, true);
        assert(pm == x + y + z);
        let q = choose|q: int| 0 <= q < pm.len() && pm[q] == m;
        lemma_en_passant_target(sq, st, s, false);
        lemma_en_passant_target(sq, st, s, true);
        if q < x.len() {
            assert(pm[q] == x[q]);
            assert(m.target_index as int == s + pawn_fwd(sq, s) || m.target_index as int == s + 2
                * pawn_fwd(sq, s));
        } else if q < x.len() + y.len() {
            assert(pm[q] == y[q - x.len()]);
        } else {
            assert(pm[q] == z[q - x.len() - y.len()]);
        }
    }
}

} // verus!
