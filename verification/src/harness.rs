//! Orchestration: the three canonical openings and the sequential phase.
//!
//! Under the board's rotational and reflective symmetry every first move
//! is equivalent to a corner, an edge or the center; the three openings
//! here are taken as representatives of those classes (a documented
//! assumption of the design, not re-derived).

use crate::board::empty_board;
use crate::board::lemma_blanks_update;
use crate::board::Board;
use crate::board::Piece;
use crate::search::lemma_minimax_range;
use crate::search::lemma_node_bound_8;
use crate::search::min_max;
use crate::search::minimax_spec;
use crate::search::node_bound;
use crate::search::SearchConfig;
use crate::search::SCORE_LOSE;
use crate::search::SCORE_MAX;
use crate::search::SCORE_MIN;
use crate::search::SCORE_WIN;
use vstd::prelude::*;

verus! {

/// The corner opening cell.
pub const CORNER_CELL: usize = 0;

/// The edge opening cell.
pub const EDGE_CELL: usize = 1;

/// The center opening cell.
pub const CENTER_CELL: usize = 4;

/// The board with X pre-placed at `cell` and every other cell blank.
pub open spec fn opening_board(cell: int) -> Seq<Piece> {
    Seq::new(9, |i: int| if i == cell { Piece::X } else { Piece::Blank })
}

/// The game-theoretic value of the opening with X pre-placed at `cell`.
///
/// This depends on the opening cell alone — not on any pruning or
/// counting configuration — so a solver returning it is deterministic.
pub open spec fn opening_value(cell: int) -> int {
    minimax_spec(opening_board(cell), 0, cell)
}

/// Scores and invocation count collected by the sequential phase.
pub struct SequentialReport {
    /// Score of the corner opening (X at cell 0).
    pub corner_score: i32,
    /// Score of the edge opening (X at cell 1).
    pub edge_score: i32,
    /// Score of the center opening (X at cell 4).
    pub center_score: i32,
    /// Search-engine invocations counted during the phase.
    pub calls: u64,
}

/// Solve one opening to completion: X pre-placed at `cell`, O to move,
/// full sentinel window.
///
/// The score is exactly the game-theoretic value of the opening,
/// whatever the pruning flags; the flags only change how many
/// invocations are added to `calls`.
pub fn solve_opening(cell: usize, cfg: &SearchConfig, calls: &mut u64) -> (score: i32)
    requires
        cell < 9,
        cfg.count_calls ==> *old(calls) <= u64::MAX - node_bound(8),
    ensures
        score == opening_value(cell as int),
        SCORE_LOSE <= score <= SCORE_WIN,
        !cfg.count_calls ==> *final(calls) == *old(calls),
        cfg.count_calls ==> *old(calls) < *final(calls) <= *old(calls) + node_bound(8),
{
    let mut b: Board = empty_board();
    let ghost eb = b@;
    b[cell] = Piece::X;
    proof {
        assert(b@ =~= opening_board(cell as int));
        lemma_blanks_update(eb, cell as int, Piece::X);
        lemma_minimax_range(b@, 0, cell as int);
    }
    min_max(&mut b, SCORE_MIN, SCORE_MAX, 0, cell, cfg, calls)
}

/// Reset the counter, then solve the three canonical openings
/// sequentially, `iterations` times each, and report the three scores
/// and the final counter value.
///
/// Every repetition returns the same three scores, so running the
/// openings in any other arrangement — concurrently, or repeated more
/// often — yields exactly the values reported here.
#[verifier::loop_isolation(false)]
pub fn run_sequential(iterations: u32, cfg: &SearchConfig) -> (rep: SequentialReport)
    requires
        1 <= iterations,
    ensures
        rep.corner_score == opening_value(CORNER_CELL as int),
        rep.edge_score == opening_value(EDGE_CELL as int),
        rep.center_score == opening_value(CENTER_CELL as int),
        !cfg.count_calls ==> rep.calls == 0,
        cfg.count_calls ==> 3 * iterations <= rep.calls <= 3 * (iterations as int) * node_bound(8),
{
    proof {
        lemma_node_bound_8();
    }
    let mut calls: u64 = 0;
    let mut corner: i32 = solve_opening(CORNER_CELL, cfg, &mut calls);
    let mut edge: i32 = solve_opening(EDGE_CELL, cfg, &mut calls);
    let mut center: i32 = solve_opening(CENTER_CELL, cfg, &mut calls);
    let mut i: u32 = 1;
    while i < iterations
        invariant
            1 <= i <= iterations,
            corner == opening_value(CORNER_CELL as int),
            edge == opening_value(EDGE_CELL as int),
            center == opening_value(CENTER_CELL as int),
            !cfg.count_calls ==> calls == 0,
            cfg.count_calls ==> 3 * i <= calls <= 3 * (i as int) * 109601,
        decreases iterations - i,
    {
        corner = solve_opening(CORNER_CELL, cfg, &mut calls);
        edge = solve_opening(EDGE_CELL, cfg, &mut calls);
        center = solve_opening(CENTER_CELL, cfg, &mut calls);
        i = i + 1;
    }
    SequentialReport { corner_score: corner, edge_score: edge, center_score: center, calls }
}

} // verus!
