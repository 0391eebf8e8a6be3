//! Win detection: the table of three-in-a-row lines and the per-cell checks.
//!
//! Each cell lies on its row, its column, and possibly one or both
//! diagonals.  A fresh three-in-a-row can only be completed through the
//! cell most recently filled, so the search only ever checks the lines
//! through that cell.

use crate::board::Board;
use crate::board::Piece;
use vstd::prelude::*;

verus! {

/// The three cell indices of line `j`, for `0 <= j < 8`:
/// three rows, three columns, then the two diagonals.
pub open spec fn line_cells(j: int) -> (int, int, int) {
    if j == 0 {
        (0int, 1int, 2int)
    } else if j == 1 {
        (3int, 4int, 5int)
    } else if j == 2 {
        (6int, 7int, 8int)
    } else if j == 3 {
        (0int, 3int, 6int)
    } else if j == 4 {
        (1int, 4int, 7int)
    } else if j == 5 {
        (2int, 5int, 8int)
    } else if j == 6 {
        (0int, 4int, 8int)
    } else {
        (2int, 4int, 6int)
    }
}

/// Whether cell `i` lies on line `j`.
pub open spec fn on_line(j: int, i: int) -> bool {
    line_cells(j).0 == i || line_cells(j).1 == i || line_cells(j).2 == i
}

/// Whether every cell of line `j` holds piece `p`.
pub open spec fn line_filled_with(s: Seq<Piece>, j: int, p: Piece) -> bool {
    s[line_cells(j).0] == p && s[line_cells(j).1] == p && s[line_cells(j).2] == p
}

/// Whether some line through cell `i` is filled entirely with the piece at
/// cell `i`.
pub open spec fn wins_through(s: Seq<Piece>, i: int) -> bool {
    exists|j: int| 0 <= j < 8 && on_line(j, i) && line_filled_with(s, j, s[i])
}

/// The winner as seen from cell `i`: the non-blank piece at `i` if it
/// completes some line through `i`, and blank otherwise.
pub open spec fn winner_through(s: Seq<Piece>, i: int) -> Piece {
    if s[i] != Piece::Blank && wins_through(s, i) {
        s[i]
    } else {
        Piece::Blank
    }
}

/// A line filled with one non-blank piece is detected through any of its
/// cells.
pub proof fn lemma_line_win_detected(s: Seq<Piece>, i: int, j: int, p: Piece)
    requires
        0 <= j < 8,
        on_line(j, i),
        line_filled_with(s, j, p),
        p != Piece::Blank,
    ensures
        winner_through(s, i) == p,
{
    assert(s[i] == p);
}

/// If no line through cell `i` is filled with the piece at `i`, the
/// per-cell check reports blank.
pub proof fn lemma_no_line_no_win(s: Seq<Piece>, i: int)
    requires
        forall|j: int| 0 <= j < 8 && on_line(j, i) ==> !line_filled_with(s, j, s[i]),
    ensures
        winner_through(s, i) == Piece::Blank,
{
}

/// Winner check specialized to cell 0 (corner: row 0, column 0, main
/// diagonal).
pub fn pos0_func(b: &Board) -> (r: Piece)
    ensures
        r == winner_through(b@, 0),
{
    let x: Piece = b[0];
    if (x == b[1] && x == b[2]) || (x == b[3] && x == b[6]) || (x == b[4] && x == b[8]) {
        proof {
            if x != Piece::Blank {
                if b@[1] == x && b@[2] == x {
                    assert(on_line(0, 0) && line_filled_with(b@, 0, b@[0]));
                } else if b@[3] == x && b@[6] == x {
                    assert(on_line(3, 0) && line_filled_with(b@, 3, b@[0]));
                } else {
                    assert(on_line(6, 0) && line_filled_with(b@, 6, b@[0]));
                }
            }
        }
        return x;
    }
    proof {
        assert forall|j: int| 0 <= j < 8 && on_line(j, 0) implies !line_filled_with(
            b@,
            j,
            b@[0],
        ) by {}
    }
    Piece::Blank
}

/// Winner check specialized to cell 1 (edge: row 0, column 1).
pub fn pos1_func(b: &Board) -> (r: Piece)
    ensures
        r == winner_through(b@, 1),
{
    let x: Piece = b[1];
    if (x == b[0] && x == b[2]) || (x == b[4] && x == b[7]) {
        proof {
            if x != Piece::Blank {
                if b@[0] == x && b@[2] == x {
                    assert(on_line(0, 1) && line_filled_with(b@, 0, b@[1]));
                } else {
                    assert(on_line(4, 1) && line_filled_with(b@, 4, b@[1]));
                }
            }
        }
        return x;
    }
    proof {
        assert forall|j: int| 0 <= j < 8 && on_line(j, 1) implies !line_filled_with(
            b@,
            j,
            b@[1],
        ) by {}
    }
    Piece::Blank
}

/// Winner check specialized to cell 2 (corner: row 0, column 2,
/// anti-diagonal).
pub fn pos2_func(b: &Board) -> (r: Piece)
    ensures
        r == winner_through(b@, 2),
{
    let x: Piece = b[2];
    if (x == b[0] && x == b[1]) || (x == b[5] && x == b[8]) || (x == b[4] && x == b[6]) {
        proof {
            if x != Piece::Blank {
                if b@[0] == x && b@[1] == x {
                    assert(on_line(0, 2) && line_filled_with(b@, 0, b@[2]));
                } else if b@[5] == x && b@[8] == x {
                    assert(on_line(5, 2) && line_filled_with(b@, 5, b@[2]));
                } else {
                    assert(on_line(7, 2) && line_filled_with(b@, 7, b@[2]));
                }
            }
        }
        return x;
    }
    proof {
        assert forall|j: int| 0 <= j < 8 && on_line(j, 2) implies !line_filled_with(
            b@,
            j,
            b@[2],
        ) by {}
    }
    Piece::Blank
}

/// Winner check specialized to cell 3 (edge: row 1, column 0).
pub fn pos3_func(b: &Board) -> (r: Piece)
    ensures
        r == winner_through(b@, 3),
{
    let x: Piece = b[3];
    if (x == b[4] && x == b[5]) || (x == b[0] && x == b[6]) {
        proof {
            if x != Piece::Blank {
                if b@[4] == x && b@[5] == x {
                    assert(on_line(1, 3) && line_filled_with(b@, 1, b@[3]));
                } else {
                    assert(on_line(3, 3) && line_filled_with(b@, 3, b@[3]));
                }
            }
        }
        return x;
    }
    proof {
        assert forall|j: int| 0 <= j < 8 && on_line(j, 3) implies !line_filled_with(
            b@,
            j,
            b@[3],
        ) by {}
    }
    Piece::Blank
}

/// Winner check specialized to cell 4 (center: row 1, column 1, both
/// diagonals).
pub fn pos4_func(b: &Board) -> (r: Piece)
    ensures
        r == winner_through(b@, 4),
{
    let x: Piece = b[4];
    if (x == b[0] && x == b[8]) || (x == b[2] && x == b[6]) || (x == b[1] && x == b[7]) || (x
        == b[3] && x == b[5]) {
        proof {
            if x != Piece::Blank {
                if b@[0] == x && b@[8] == x {
                    assert(on_line(6, 4) && line_filled_with(b@, 6, b@[4]));
                } else if b@[2] == x && b@[6] == x {
                    assert(on_line(7, 4) && line_filled_with(b@, 7, b@[4]));
                } else if b@[1] == x && b@[7] == x {
                    assert(on_line(4, 4) && line_filled_with(b@, 4, b@[4]));
                } else {
                    assert(on_line(1, 4) && line_filled_with(b@, 1, b@[4]));
                }
            }
        }
        return x;
    }
    proof {
        assert forall|j: int| 0 <= j < 8 && on_line(j, 4) implies !line_filled_with(
            b@,
            j,
            b@[4],
        ) by {}
    }
    Piece::Blank
}

/// Winner check specialized to cell 5 (edge: row 1, column 2).
pub fn pos5_func(b: &Board) -> (r: Piece)
    ensures
        r == winner_through(b@, 5),
{
    let x: Piece = b[5];
    if (x == b[3] && x == b[4]) || (x == b[2] && x == b[8]) {
        proof {
            if x != Piece::Blank {
                if b@[3] == x && b@[4] == x {
                    assert(on_line(1, 5) && line_filled_with(b@, 1, b@[5]));
                } else {
                    assert(on_line(5, 5) && line_filled_with(b@, 5, b@[5]));
                }
            }
        }
        return x;
    }
    proof {
        assert forall|j: int| 0 <= j < 8 && on_line(j, 5) implies !line_filled_with(
            b@,
            j,
            b@[5],
        ) by {}
    }
    Piece::Blank
}

/// Winner check specialized to cell 6 (corner: row 2, column 0,
/// anti-diagonal).
pub fn pos6_func(b: &Board) -> (r: Piece)
    ensures
        r == winner_through(b@, 6),
{
    let x: Piece = b[6];
    if (x == b[7] && x == b[8]) || (x == b[0] && x == b[3]) || (x == b[4] && x == b[2]) {
        proof {
            if x != Piece::Blank {
                if b@[7] == x && b@[8] == x {
                    assert(on_line(2, 6) && line_filled_with(b@, 2, b@[6]));
                } else if b@[0] == x && b@[3] == x {
                    assert(on_line(3, 6) && line_filled_with(b@, 3, b@[6]));
                } else {
                    assert(on_line(7, 6) && line_filled_with(b@, 7, b@[6]));
                }
            }
        }
        return x;
    }
    proof {
        assert forall|j: int| 0 <= j < 8 && on_line(j, 6) implies !line_filled_with(
            b@,
            j,
            b@[6],
        ) by {}
    }
    Piece::Blank
}

/// Winner check specialized to cell 7 (edge: row 2, column 1).
pub fn pos7_func(b: &Board) -> (r: Piece)
    ensures
        r == winner_through(b@, 7),
{
    let x: Piece = b[7];
    if (x == b[6] && x == b[8]) || (x == b[1] && x == b[4]) {
        proof {
            if x != Piece::Blank {
                if b@[6] == x && b@[8] == x {
                    assert(on_line(2, 7) && line_filled_with(b@, 2, b@[7]));
                } else {
                    assert(on_line(4, 7) && line_filled_with(b@, 4, b@[7]));
                }
            }
        }
        return x;
    }
    proof {
        assert forall|j: int| 0 <= j < 8 && on_line(j, 7) implies !line_filled_with(
            b@,
            j,
            b@[7],
        ) by {}
    }
    Piece::Blank
}

/// Winner check specialized to cell 8 (corner: row 2, column 2, main
/// diagonal).
pub fn pos8_func(b: &Board) -> (r: Piece)
    ensures
        r == winner_through(b@, 8),
{
    let x: Piece = b[8];
    if (x == b[6] && x == b[7]) || (x == b[2] && x == b[5]) || (x == b[0] && x == b[4]) {
        proof {
            if x != Piece::Blank {
                if b@[6] == x && b@[7] == x {
                    assert(on_line(2, 8) && line_filled_with(b@, 2, b@[8]));
                } else if b@[2] == x && b@[5] == x {
                    assert(on_line(5, 8) && line_filled_with(b@, 5, b@[8]));
                } else {
                    assert(on_line(6, 8) && line_filled_with(b@, 6, b@[8]));
                }
            }
        }
        return x;
    }
    proof {
        assert forall|j: int| 0 <= j < 8 && on_line(j, 8) implies !line_filled_with(
            b@,
            j,
            b@[8],
        ) by {}
    }
    Piece::Blank
}

/// Winner check through an arbitrary cell, dispatching to the check
/// specialized to that cell.
pub fn winner_through_cell(b: &Board, mov: usize) -> (r: Piece)
    requires
        mov < 9,
    ensures
        r == winner_through(b@, mov as int),
{
    match mov {
        0 => pos0_func(b),
        1 => pos1_func(b),
        2 => pos2_func(b),
        3 => pos3_func(b),
        4 => pos4_func(b),
        5 => pos5_func(b),
        6 => pos6_func(b),
        7 => pos7_func(b),
        _ => pos8_func(b),
    }
}

/// The winner of line `j`, or blank if that line is not filled by one
/// player.
pub open spec fn line_winner(s: Seq<Piece>, j: int) -> Piece {
    if s[line_cells(j).0] != Piece::Blank && line_filled_with(s, j, s[line_cells(j).0]) {
        s[line_cells(j).0]
    } else {
        Piece::Blank
    }
}

/// The order in which the full-board scan visits the eight lines.
pub open spec fn scan_line(k: int) -> int {
    if k == 0 {
        0int
    } else if k == 1 {
        3int
    } else if k == 2 {
        1int
    } else if k == 3 {
        2int
    } else if k == 4 {
        4int
    } else if k == 5 {
        5int
    } else if k == 6 {
        6int
    } else {
        7int
    }
}

/// The first winner found when scanning the lines from position `k` on.
pub open spec fn winner_scan_from(s: Seq<Piece>, k: int) -> Piece
    decreases 8 - k,
{
    if k < 0 || k >= 8 {
        Piece::Blank
    } else if line_winner(s, scan_line(k)) != Piece::Blank {
        line_winner(s, scan_line(k))
    } else {
        winner_scan_from(s, k + 1)
    }
}

/// The winner reported by a scan of all eight lines.
pub open spec fn full_winner(s: Seq<Piece>) -> Piece {
    winner_scan_from(s, 0)
}

/// The full scan reports blank exactly when no line is completed by one
/// player; a non-blank report is always the piece of some completed
/// line.
pub proof fn lemma_full_winner_characterization(s: Seq<Piece>)
    ensures
        full_winner(s) != Piece::Blank ==> exists|j: int|
            0 <= j < 8 && line_winner(s, j) == full_winner(s),
        full_winner(s) == Piece::Blank ==> forall|j: int|
            0 <= j < 8 ==> line_winner(s, j) == Piece::Blank,
{
    reveal_with_fuel(winner_scan_from, 9);
    if full_winner(s) == Piece::Blank {
        assert forall|j: int| 0 <= j < 8 implies line_winner(s, j) == Piece::Blank by {}
    }
}

/// Full-board winner check, scanning every line.
///
/// The search itself never calls this: it checks only the lines through
/// the last move, which detects a fresh win at the same ply.
pub fn look_for_winner(b: &Board) -> (r: Piece)
    ensures
        r == full_winner(b@),
{
    proof {
        reveal_with_fuel(winner_scan_from, 9);
    }
    let mut p: Piece = b[0];
    if Piece::Blank != p {
        if p == b[1] && p == b[2] {
            return p;
        }
        if p == b[3] && p == b[6] {
            return p;
        }
    }
    p = b[3];
    if Piece::Blank != p && p == b[4] && p == b[5] {
        return p;
    }
    p = b[6];
    if Piece::Blank != p && p == b[7] && p == b[8] {
        return p;
    }
    p = b[1];
    if Piece::Blank != p && p == b[4] && p == b[7] {
        return p;
    }
    p = b[2];
    if Piece::Blank != p && p == b[5] && p == b[8] {
        return p;
    }
    p = b[4];
    if Piece::Blank != p {
        if p == b[0] && p == b[8] {
            return p;
        }
        if p == b[2] && p == b[6] {
            return p;
        }
    }
    Piece::Blank
}

} // verus!
