//! Board geometry: squares are numbered 0..64 row by row from a8 (0) to h1 (63).
//! Eight directions lead away from a square: four along ranks and files (0..4),
//! then four along diagonals (4..8).
use vstd::prelude::*;

verus! {

/// Row of a square, 0 being the eighth rank.
pub open spec fn row(i: int) -> int {
    i / 8
}

/// File of a square, 0 being the a-file.
pub open spec fn col(i: int) -> int {
    i % 8
}

/// Row step of a direction.
pub open spec fn dir_row(d: int) -> int {
    if d == 0 || d == 4 || d == 6 {
        -1
    } else if d == 1 || d == 5 || d == 7 {
        1
    } else {
        0
    }
}

/// File step of a direction.
pub open spec fn dir_col(d: int) -> int {
    if d == 2 || d == 4 || d == 7 {
        -1
    } else if d == 3 || d == 5 || d == 6 {
        1
    } else {
        0
    }
}

/// How far the index moves for one step in a direction.
pub open spec fn offset(d: int) -> int {
    8 * dir_row(d) + dir_col(d)
}

/// How many steps one can take from `i` in direction `d` without leaving the board.
pub open spec fn edge(i: int, d: int) -> int {
    let r = if dir_row(d) == -1 {
        row(i)
    } else if dir_row(d) == 1 {
        7 - row(i)
    } else {
        8
    };
    let c = if dir_col(d) == -1 {
        col(i)
    } else if dir_col(d) == 1 {
        7 - col(i)
    } else {
        8
    };
    if r < c {
        r
    } else {
        c
    }
}

/// The square `k` steps away from `i` in direction `d`.
pub open spec fn ray_square(i: int, d: int, k: int) -> int {
    i + offset(d) * k
}

/// Walking at most `edge(i, d)` steps stays on the board, on the expected row and file.
pub proof fn lemma_ray_square(i: int, d: int, k: int)
    requires
        0 <= i < 64,
        0 <= d < 8,
        0 <= k <= edge(i, d),
    ensures
        0 <= ray_square(i, d, k) < 64,
        row(ray_square(i, d, k)) == row(i) + dir_row(d) * k,
        col(ray_square(i, d, k)) == col(i) + dir_col(d) * k,
{
    let t = ray_square(i, d, k);
    let (r, c) = (row(i), col(i));
    assert(i == 8 * r + c && 0 <= c < 8 && 0 <= r < 8);
    let (dr, dc) = (dir_row(d), dir_col(d));
    assert(offset(d) * k == 8 * (dr * k) + dc * k) by (nonlinear_arith)
        requires
            offset(d) == 8 * dr + dc,
    ;
    if d == 0 || d == 4 || d == 6 {
        assert(dr * k == -k);
    } else if d == 1 || d == 5 || d == 7 {
        assert(dr * k == k);
    } else {
        assert(dr * k == 0);
    }
    if d == 2 || d == 4 || d == 7 {
        assert(dc * k == -k);
    } else if d == 3 || d == 5 || d == 6 {
        assert(dc * k == k);
    } else {
        assert(dc * k == 0);
    }
    assert(t == 8 * (r + dr * k) + (c + dc * k));
    lemma_row_col(r + dr * k, c + dc * k);
}

/// Row and file of the square on row `r` and file `c`.
pub proof fn lemma_row_col(r: int, c: int)
    requires
        0 <= r < 8,
        0 <= c < 8,
    ensures
        row(8 * r + c) == r,
        col(8 * r + c) == c,
{
    assert((8 * r + c) / 8 == r && (8 * r + c) % 8 == c) by (nonlinear_arith)
        requires
            0 <= r < 8,
            0 <= c < 8,
    ;
}

/// Row step of the `j`-th knight jump.
pub open spec fn knight_row(j: int) -> int {
    if j == 0 || j == 1 {
        -2
    } else if j == 2 || j == 3 {
        -1
    } else if j == 4 || j == 5 {
        1
    } else {
        2
    }
}

/// File step of the `j`-th knight jump.
pub open spec fn knight_col(j: int) -> int {
    if j == 2 || j == 4 {
        -2
    } else if j == 3 || j == 5 {
        2
    } else if j == 0 || j == 6 {
        -1
    } else {
        1
    }
}

/// The square that the `j`-th knight jump from `i` lands on, if it stays on the board.
pub open spec fn knight_jump(i: int, j: int) -> Option<int> {
    let r = row(i) + knight_row(j);
    let c = col(i) + knight_col(j);
    if 0 <= r < 8 && 0 <= c < 8 {
        Some(8 * r + c)
    } else {
        None
    }
}

/// Steps available from square `i` in direction `d`.
pub fn squares_to_edge(i: usize, d: usize) -> (r: usize)
    requires
        i < 64,
        d < 8,
    ensures
        r == edge(i as int, d as int),
        r <= 8,
{
    let row = i / 8;
    let col = i % 8;
    let r: usize = if d == 0 || d == 4 || d == 6 {
        row
    } else if d == 1 || d == 5 || d == 7 {
        7 - row
    } else {
        8
    };
    let c: usize = if d == 2 || d == 4 || d == 7 {
        col
    } else if d == 3 || d == 5 || d == 6 {
        7 - col
    } else {
        8
    };
    if r < c {
        r
    } else {
        c
    }
}

/// The square `k` steps from `i` in direction `d`.
pub fn step_square(i: usize, d: usize, k: usize) -> (r: usize)
    requires
        i < 64,
        d < 8,
        k <= edge(i as int, d as int),
    ensures
        r == ray_square(i as int, d as int, k as int),
        r < 64,
{
    proof {
        lemma_ray_square(i as int, d as int, k as int);
        let ii = i as int;
        assert(ii == 8 * row(ii) + col(ii));
    }
    if d == 0 {
        proof {
            assert(offset(0) * k == -8 * k);
        }
        i - 8 * k
    } else if d == 1 {
        proof {
            assert(offset(1) * k == 8 * k);
        }
        i + 8 * k
    } else if d == 2 {
        proof {
            assert(offset(2) * k == -1 * k);
        }
        i - k
    } else if d == 3 {
        proof {
            assert(offset(3) * k == 1 * k);
        }
        i + k
    } else if d == 4 {
        proof {
            assert(offset(4) * k == -9 * k);
        }
        i - 9 * k
    } else if d == 5 {
        proof {
            assert(offset(5) * k == 9 * k);
        }
        i + 9 * k
    } else if d == 6 {
        proof {
            assert(offset(6) * k == -7 * k);
        }
        i - 7 * k
    } else {
        proof {
            assert(offset(7) * k == 7 * k);
        }
        i + 7 * k
    }
}

/// The square of the `j`-th knight jump from `i`, if it stays on the board.
pub fn knight_square(i: usize, j: usize) -> (r: Option<usize>)
    requires
        i < 64,
        j < 8,
    ensures
        r matches Some(t) ==> knight_jump(i as int, j as int) == Some(t as int) && t < 64,
        r is None ==> knight_jump(i as int, j as int) is None,
{
    let row = i / 8;
    let col = i % 8;
    let (dr, dc): (i8, i8) = if j == 0 {
        (-2, -1)
    } else if j == 1 {
        (-2, 1)
    } else if j == 2 {
        (-1, -2)
    } else if j == 3 {
        (-1, 2)
    } else if j == 4 {
        (1, -2)
    } else if j == 5 {
        (1, 2)
    } else if j == 6 {
        (2, -1)
    } else {
        (2, 1)
    };
    let r = row as i8 + dr;
    let c = col as i8 + dc;
    if 0 <= r && r < 8 && 0 <= c && c < 8 {
        Some(8 * (r as usize) + c as usize)
    } else {
        None
    }
}

} // verus!
