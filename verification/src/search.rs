//! The minimax search engine and its specification.
//!
//! `minimax_spec` is the mathematical value of a position: the score
//! reached when both sides play perfectly, with no pruning at all.  The
//! executable search `min_max` prunes, yet is proved to return exactly
//! that value whenever it lies strictly inside the search window — so the
//! pruning flags can only change how many positions are visited, never
//! the score.

use crate::board::blanks;
use crate::board::blanks_upto;
use crate::board::lemma_blanks_update;
use crate::board::lemma_blanks_upto_exists;
use crate::board::lemma_blanks_upto_le;
use crate::board::Board;
use crate::board::Piece;
use crate::wins::winner_through;
use crate::wins::winner_through_cell;
use vstd::math::max;
use vstd::math::min;
use vstd::prelude::*;

verus! {

/// Score of a position in which X wins.
pub const SCORE_WIN: i32 = 6;

/// Score of a drawn position.
pub const SCORE_TIE: i32 = 5;

/// Score of a position in which O wins.
pub const SCORE_LOSE: i32 = 4;

/// Sentinel upper bound, wider than any real score.
pub const SCORE_MAX: i32 = 9;

/// Sentinel lower bound, wider than any real score.
pub const SCORE_MIN: i32 = 2;

/// Which optional behaviours of the search are switched on.
///
/// Neither pruning flag ever changes the score the search returns; they
/// only change how many positions it visits.
#[derive(Clone, Copy)]
pub struct SearchConfig {
    /// Cut off subtrees that cannot affect the chosen value.
    pub ab_prune: bool,
    /// Return immediately once a best-possible child score is found.
    pub win_lose_prune: bool,
    /// Count every invocation of the search engine.
    pub count_calls: bool,
}

/// Whether the side to move at this depth is the maximizer (X).
///
/// Depth counts plies already played after the pre-placed opening mark,
/// so at even depth O replies (minimizer) and at odd depth X replies
/// (maximizer).
pub open spec fn maximizing(depth: int) -> bool {
    depth % 2 == 1
}

/// The piece placed by the side to move at this depth.
pub open spec fn mover(depth: int) -> Piece {
    if maximizing(depth) {
        Piece::X
    } else {
        Piece::O
    }
}

/// The game-theoretic value of a position, with no pruning.
///
/// `depth` is the number of plies already played after the opening mark
/// and `last` the cell filled most recently.  A winner is only looked
/// for once five or more marks are down (`depth >= 4`), and only through
/// the last move; a full board with no winner is a tie; otherwise each
/// empty cell is tried in ascending order and the side to move picks the
/// best child value.
pub open spec fn minimax_spec(s: Seq<Piece>, depth: int, last: int) -> int
    decreases blanks(s), 10int,
{
    if depth >= 4 && winner_through(s, last) == Piece::X {
        6
    } else if depth >= 4 && winner_through(s, last) == Piece::O {
        4
    } else if depth == 8 {
        5
    } else {
        best_from(s, depth, 0)
    }
}

/// The best value the side to move can reach using only cells `x..9`.
///
/// With no empty cell left in the range, the sentinel (2 for the
/// maximizer, 9 for the minimizer) is returned, so that any real child
/// value replaces it.
pub open spec fn best_from(s: Seq<Piece>, depth: int, x: int) -> int
    decreases blanks(s), 9 - x,
    via best_from_decreases
{
    if x < 0 || x >= 9 {
        if maximizing(depth) {
            2int
        } else {
            9int
        }
    } else if x < s.len() && s[x] == Piece::Blank {
        let child = minimax_spec(s.update(x, mover(depth)), depth + 1, x);
        let rest = best_from(s, depth, x + 1);
        if maximizing(depth) {
            if child > rest {
                child
            } else {
                rest
            }
        } else {
            if child < rest {
                child
            } else {
                rest
            }
        }
    } else {
        best_from(s, depth, x + 1)
    }
}

#[via_fn]
proof fn best_from_decreases(s: Seq<Piece>, depth: int, x: int) {
    if 0 <= x < 9 && x < s.len() && s[x] == Piece::Blank {
        lemma_blanks_update(s, x, mover(depth));
    }
}

/// An upper bound on the number of engine invocations needed to search a
/// position with `e` empty cells: the root call plus at most `e`
/// children, each with `e - 1` empty cells.
pub open spec fn node_bound(e: nat) -> nat
    decreases e,
{
    if e == 0 {
        1
    } else {
        1 + e * node_bound((e - 1) as nat)
    }
}

/// The value of a consistent position is always a win, a tie or a loss.
///
/// Consistent means the number of blank cells matches the depth: the
/// opening mark plus `depth` plies fill `depth + 1` of the nine cells.
pub proof fn lemma_minimax_range(s: Seq<Piece>, depth: int, last: int)
    requires
        s.len() == 9,
        0 <= depth <= 8,
        blanks(s) == 8 - depth,
    ensures
        4 <= minimax_spec(s, depth, last) <= 6,
    decreases blanks(s), 10int,
{
    if depth >= 4 && winner_through(s, last) == Piece::X {
    } else if depth >= 4 && winner_through(s, last) == Piece::O {
    } else if depth == 8 {
    } else {
        lemma_blanks_upto_exists(s, 9);
        lemma_best_range(s, depth, 0);
    }
}

/// Folding over the cells from `x` on yields a real score as soon as one
/// of them is empty, and the sentinel otherwise.
pub proof fn lemma_best_range(s: Seq<Piece>, depth: int, x: int)
    requires
        s.len() == 9,
        0 <= depth <= 7,
        blanks(s) == 8 - depth,
        0 <= x <= 9,
    ensures
        (exists|i: int| x <= i < 9 && s[i] == Piece::Blank) ==> 4 <= best_from(s, depth, x) <= 6,
        !(exists|i: int| x <= i < 9 && s[i] == Piece::Blank) ==> best_from(s, depth, x) == (
        if maximizing(depth) {
            2int
        } else {
            9int
        }),
    decreases blanks(s), 9 - x,
{
    if x < 9 {
        if s[x] == Piece::Blank {
            lemma_blanks_update(s, x, mover(depth));
            lemma_minimax_range(s.update(x, mover(depth)), depth + 1, x);
            lemma_best_range(s, depth, x + 1);
            assert(x <= x < 9 && s[x] == Piece::Blank);
        } else {
            lemma_best_range(s, depth, x + 1);
            if exists|i: int| x <= i < 9 && s[i] == Piece::Blank {
                let i = choose|i: int| x <= i < 9 && s[i] == Piece::Blank;
                assert(x + 1 <= i < 9 && s[i] == Piece::Blank);
            }
        }
    }
}

/// The concrete value of the invocation bound for a fresh opening
/// position, which has eight empty cells.
pub proof fn lemma_node_bound_8()
    ensures
        node_bound(8) == 109601,
{
    assert(node_bound(0) == 1);
    assert(node_bound(1) == 2);
    assert(node_bound(2) == 5);
    assert(node_bound(3) == 16);
    assert(node_bound(4) == 65);
    assert(node_bound(5) == 326);
    assert(node_bound(6) == 1957);
    assert(node_bound(7) == 13700);
}

/// Arithmetic facts used to bound the invocation counter: visiting one
/// more child (the `k`-th of at most `e`) keeps the total below
/// `node_bound(e)`.
proof fn lemma_node_bound_step(e: nat, k: nat)
    requires
        1 <= e,
        k + 1 <= e,
    ensures
        (k + 1) * node_bound((e - 1) as nat) == k * node_bound((e - 1) as nat) + node_bound(
            (e - 1) as nat,
        ),
        1 + k * node_bound((e - 1) as nat) + node_bound((e - 1) as nat) <= node_bound(e),
{
    let nb1 = node_bound((e - 1) as nat);
    assert((k + 1) * nb1 == k * nb1 + nb1) by (nonlinear_arith);
    assert((k + 1) * nb1 <= e * nb1) by (nonlinear_arith)
        requires
            k + 1 <= e,
            nb1 >= 0,
    ;
    assert(node_bound(e) == 1 + e * nb1);
}

/// Recursive minimax over the empty cells of `b`, with in-place
/// backtracking and optional pruning.
///
/// The board is bit-identical after the call.  The score returned is the
/// game-theoretic value of the position whenever that value lies
/// strictly inside the `(alpha, beta)` window — in particular the two
/// pruning flags never change the score, only the number of positions
/// visited.  Outside the window the score is still a sound bound in the
/// fail-soft sense.  When enabled, the invocation counter grows by at
/// least one (this call) and at most `node_bound` of the number of empty
/// cells.
#[verifier::loop_isolation(false)]
pub fn min_max(
    b: &mut Board,
    alpha: i32,
    beta: i32,
    depth: i32,
    mov: usize,
    cfg: &SearchConfig,
    calls: &mut u64,
) -> (score: i32)
    requires
        0 <= depth <= 8,
        mov < 9,
        blanks(old(b)@) == 8 - depth,
        SCORE_MIN <= alpha < beta <= SCORE_MAX,
        cfg.count_calls ==> *old(calls) <= u64::MAX - node_bound((8 - depth) as nat),
    ensures
        final(b)@ == old(b)@,
        SCORE_LOSE <= score <= SCORE_WIN,
        score < beta ==> minimax_spec(old(b)@, depth as int, mov as int) <= score,
        score > alpha ==> minimax_spec(old(b)@, depth as int, mov as int) >= score,
        alpha < minimax_spec(old(b)@, depth as int, mov as int) < beta ==> score == minimax_spec(
            old(b)@,
            depth as int,
            mov as int,
        ),
        !cfg.count_calls ==> *final(calls) == *old(calls),
        cfg.count_calls ==> *old(calls) < *final(calls) <= *old(calls) + node_bound(
            (8 - depth) as nat,
        ),
    decreases 8 - depth,
{
    let ghost b0 = old(b)@;
    let ghost c0 = *old(calls);
    let ghost e: nat = blanks(b0);
    let ghost vv = minimax_spec(b0, depth as int, mov as int);

    proof {
        assert(e == (8 - depth) as nat);
        lemma_minimax_range(b0, depth as int, mov as int);
        assert(node_bound(e) >= 1);
    }

    if cfg.count_calls {
        *calls = *calls + 1;
    }

    if depth >= 4 {
        let p = winner_through_cell(b, mov);
        match p {
            Piece::X => {
                return SCORE_WIN;
            },
            Piece::O => {
                return SCORE_LOSE;
            },
            Piece::Blank => {},
        }
        if depth == 8 {
            return SCORE_TIE;
        }
    }
    proof {
        assert(depth <= 7);
        assert(vv == best_from(b0, depth as int, 0));
    }

    let maximize: bool = depth % 2 == 1;
    let piece_move: Piece = if maximize {
        Piece::X
    } else {
        Piece::O
    };
    let mut value: i32 = if maximize {
        SCORE_MIN
    } else {
        SCORE_MAX
    };
    let mut al: i32 = alpha;
    let mut be: i32 = beta;

    let ghost nb1: nat = node_bound((e - 1) as nat);
    let ghost mut m: int = if maximize {
        2int
    } else {
        9int
    };

    let mut x: usize = 0;
    while x < 9
        invariant
            b@ == b0,
            e == blanks(b0),
            e == 8 - depth,
            1 <= e,
            0 <= depth <= 7,
            mov < 9,
            0 <= x <= 9,
            4 <= vv <= 6,
            SCORE_MIN <= alpha < beta <= SCORE_MAX,
            maximize == (depth % 2 == 1),
            piece_move == mover(depth as int),
            maximize ==> vv == max(m, best_from(b0, depth as int, x as int)),
            !maximize ==> vv == min(m, best_from(b0, depth as int, x as int)),
            maximize ==> be == beta,
            !maximize ==> al == alpha,
            cfg.ab_prune && maximize ==> al as int == max(alpha as int, value as int),
            cfg.ab_prune && !maximize ==> be as int == min(beta as int, value as int),
            !cfg.ab_prune ==> al == alpha && be == beta,
            al < be,
            SCORE_MIN <= al,
            be <= SCORE_MAX,
            maximize ==> value == SCORE_MIN || SCORE_LOSE <= value <= SCORE_WIN,
            !maximize ==> value == SCORE_MAX || SCORE_LOSE <= value <= SCORE_WIN,
            maximize ==> m == 2 || 4 <= m <= 6,
            !maximize ==> m == 9 || 4 <= m <= 6,
            (exists|i: int| 0 <= i < x && b0[i] == Piece::Blank) ==> (SCORE_LOSE <= value
                <= SCORE_WIN && 4 <= m <= 6),
            (value as int) < beta ==> m <= value as int,
            (value as int) > alpha ==> m >= value as int,
            nb1 == node_bound((e - 1) as nat),
            !cfg.count_calls ==> *calls == c0,
            cfg.count_calls ==> c0 + 1 <= *calls,
            cfg.count_calls ==> *calls <= c0 + 1 + blanks_upto(b0, x as int) * nb1,
            cfg.count_calls ==> c0 <= u64::MAX - node_bound(e),
        decreases 9 - x,
    {
        if b[x] == Piece::Blank {
            b[x] = piece_move;
            let ghost k: nat = blanks_upto(b0, x as int);
            proof {
                lemma_blanks_update(b0, x as int, piece_move);
                lemma_blanks_upto_le(b0, x as int + 1, 9);
                assert(blanks_upto(b0, x as int + 1) == k + 1);
                assert(k + 1 <= e);
                if cfg.count_calls {
                    lemma_node_bound_step(e, k);
                }
            }
            let score = min_max(b, al, be, depth + 1, x, cfg, calls);
            let ghost vx = minimax_spec(
                b0.update(x as int, mover(depth as int)),
                depth as int + 1,
                x as int,
            );
            b[x] = Piece::Blank;
            proof {
                assert(b@ =~= b0);
                lemma_minimax_range(
                    b0.update(x as int, mover(depth as int)),
                    depth as int + 1,
                    x as int,
                );
                m = if maximize {
                    max(m, vx)
                } else {
                    min(m, vx)
                };
                if maximize {
                    assert(best_from(b0, depth as int, x as int) == max(
                        vx,
                        best_from(b0, depth as int, x as int + 1),
                    ));
                    assert(vv == max(m, best_from(b0, depth as int, x as int + 1)));
                } else {
                    assert(best_from(b0, depth as int, x as int) == min(
                        vx,
                        best_from(b0, depth as int, x as int + 1),
                    ));
                    assert(vv == min(m, best_from(b0, depth as int, x as int + 1)));
                }
            }
            if maximize {
                if cfg.win_lose_prune && score == SCORE_WIN {
                    return SCORE_WIN;
                }
                if score > value {
                    value = score;
                    if cfg.ab_prune {
                        if value >= be {
                            return value;
                        }
                        if value > al {
                            al = value;
                        }
                    }
                }
            } else {
                if cfg.win_lose_prune && score == SCORE_LOSE {
                    return SCORE_LOSE;
                }
                if score < value {
                    value = score;
                    if cfg.ab_prune {
                        if value <= al {
                            return value;
                        }
                        if value < be {
                            be = value;
                        }
                    }
                }
            }
        }
        x = x + 1;
    }
    proof {
        lemma_blanks_upto_exists(b0, 9);
    }
    value
}

} // verus!
