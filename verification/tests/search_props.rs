//! Properties of the search engine: optimal play, pruning independence,
//! in-place backtracking, and the invocation counter.

use ttt::harness::solve_opening;
use ttt::harness::CENTER_CELL;
use ttt::harness::CORNER_CELL;
use ttt::harness::EDGE_CELL;
use ttt::search::min_max;
use ttt::search::SCORE_MAX;
use ttt::search::SCORE_MIN;
use ttt::search::SCORE_TIE;
use ttt::Board;
use ttt::Piece;
use ttt::SearchConfig;

const CORNER_FULL_PRUNE_CALLS: u64 = 1903;

fn config(ab: bool, wl: bool) -> SearchConfig {
    SearchConfig { ab_prune: ab, win_lose_prune: wl, count_calls: true }
}

fn flag_combos() -> [SearchConfig; 4] {
    [config(true, true), config(true, false), config(false, true), config(false, false)]
}

#[test]
fn every_opening_is_a_tie_under_every_flag_combination() {
    for cfg in flag_combos() {
        for cell in [CORNER_CELL, EDGE_CELL, CENTER_CELL] {
            let mut calls: u64 = 0;
            let score = solve_opening(cell, &cfg, &mut calls);
            assert_eq!(score, SCORE_TIE);
        }
    }
}

#[test]
fn board_is_restored_after_the_search() {
    // A legal mid-game position: three plies played after no opening.
    let mut b: Board = [Piece::Blank; 9];
    b[0] = Piece::X;
    b[4] = Piece::O;
    b[8] = Piece::X;
    let before = b;
    for cfg in flag_combos() {
        let mut calls: u64 = 0;
        let score = min_max(&mut b, SCORE_MIN, SCORE_MAX, 2, 8, &cfg, &mut calls);
        assert_eq!(b, before);
        assert!((4..=6).contains(&score));
    }
}

#[test]
fn mid_game_score_is_independent_of_the_flags() {
    let mut b: Board = [Piece::Blank; 9];
    b[0] = Piece::X;
    b[4] = Piece::O;
    b[8] = Piece::X;
    let mut scores = Vec::new();
    for cfg in flag_combos() {
        let mut calls: u64 = 0;
        scores.push(min_max(&mut b, SCORE_MIN, SCORE_MAX, 2, 8, &cfg, &mut calls));
    }
    assert_eq!(scores[0], scores[1]);
    assert_eq!(scores[0], scores[2]);
    assert_eq!(scores[0], scores[3]);
}

#[test]
fn corner_opening_with_full_pruning_makes_1903_invocations() {
    let mut calls: u64 = 0;
    let score = solve_opening(CORNER_CELL, &config(true, true), &mut calls);
    assert_eq!(score, SCORE_TIE);
    assert_eq!(calls, CORNER_FULL_PRUNE_CALLS);
}

#[test]
fn disabling_either_pruning_flag_only_adds_invocations() {
    for cfg in [config(true, false), config(false, true), config(false, false)] {
        let mut calls: u64 = 0;
        let score = solve_opening(CORNER_CELL, &cfg, &mut calls);
        assert_eq!(score, SCORE_TIE);
        assert!(calls >= CORNER_FULL_PRUNE_CALLS);
    }
}

#[test]
fn counting_can_be_disabled_without_changing_the_score() {
    let cfg = SearchConfig { ab_prune: true, win_lose_prune: true, count_calls: false };
    let mut calls: u64 = 7;
    let score = solve_opening(CORNER_CELL, &cfg, &mut calls);
    assert_eq!(score, SCORE_TIE);
    assert_eq!(calls, 7);
}

#[test]
fn repeated_solves_are_deterministic() {
    for cell in [CORNER_CELL, EDGE_CELL, CENTER_CELL] {
        let cfg = config(true, true);
        let mut first_calls: u64 = 0;
        let first = solve_opening(cell, &cfg, &mut first_calls);
        for _ in 0..3 {
            let mut calls: u64 = 0;
            let score = solve_opening(cell, &cfg, &mut calls);
            assert_eq!(score, first);
            assert_eq!(calls, first_calls);
        }
    }
}

#[test]
fn search_window_bounds_are_respected() {
    // The corner opening is worth exactly a tie (5).  A window that
    // excludes the true value from above must fail high, one that
    // excludes it from below must fail low.
    let cfg = config(true, true);

    let mut b: Board = [Piece::Blank; 9];
    b[CORNER_CELL] = Piece::X;
    let mut calls: u64 = 0;
    let high = min_max(&mut b, SCORE_MIN, 5, 0, CORNER_CELL, &cfg, &mut calls);
    assert!(high >= 5);

    let low = min_max(&mut b, 5, SCORE_MAX, 0, CORNER_CELL, &cfg, &mut calls);
    assert!(low <= 5);

    let exact = min_max(&mut b, 4, 6, 0, CORNER_CELL, &cfg, &mut calls);
    assert_eq!(exact, SCORE_TIE);
}

#[test]
fn immediate_win_is_scored_from_the_last_move() {
    // X on 0 and 1, O on 3 and 4, X to move (depth 3): X completes
    // row 0 by playing cell 2, a win detected through that last move.
    let mut b: Board = [Piece::Blank; 9];
    b[0] = Piece::X;
    b[1] = Piece::X;
    b[3] = Piece::O;
    b[4] = Piece::O;
    for cfg in flag_combos() {
        let mut calls: u64 = 0;
        let score = min_max(&mut b, SCORE_MIN, SCORE_MAX, 3, 4, &cfg, &mut calls);
        assert_eq!(score, 6);
        if cfg.count_calls {
            assert!(calls >= 2);
        }
    }
}
