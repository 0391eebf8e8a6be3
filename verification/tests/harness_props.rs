//! The sequential phase: tie scores for all three openings and a
//! correct invocation total.

use ttt::board::empty_board;
use ttt::harness::run_sequential;
use ttt::harness::solve_opening;
use ttt::harness::CENTER_CELL;
use ttt::harness::CORNER_CELL;
use ttt::harness::EDGE_CELL;
use ttt::search::SCORE_TIE;
use ttt::Piece;
use ttt::SearchConfig;

fn full_config() -> SearchConfig {
    SearchConfig { ab_prune: true, win_lose_prune: true, count_calls: true }
}

#[test]
fn sequential_phase_reports_three_ties() {
    let rep = run_sequential(1, &full_config());
    assert_eq!(rep.corner_score, SCORE_TIE);
    assert_eq!(rep.edge_score, SCORE_TIE);
    assert_eq!(rep.center_score, SCORE_TIE);
    assert!(rep.calls > 0);
}

#[test]
fn sequential_total_is_the_sum_of_the_three_openings() {
    let cfg = full_config();
    let mut expected: u64 = 0;
    for cell in [CORNER_CELL, EDGE_CELL, CENTER_CELL] {
        solve_opening(cell, &cfg, &mut expected);
    }
    let rep = run_sequential(1, &cfg);
    assert_eq!(rep.calls, expected);
}

#[test]
fn iterations_scale_the_count_but_not_the_scores() {
    let cfg = full_config();
    let once = run_sequential(1, &cfg);
    let thrice = run_sequential(3, &cfg);
    assert_eq!(thrice.corner_score, once.corner_score);
    assert_eq!(thrice.edge_score, once.edge_score);
    assert_eq!(thrice.center_score, once.center_score);
    assert_eq!(thrice.calls, 3 * once.calls);
}

#[test]
fn counter_is_reset_by_the_sequential_phase() {
    // Whatever ran before (here: a prior solve) does not leak into the
    // reported sequential total.
    let cfg = full_config();
    let mut stale: u64 = 0;
    solve_opening(CORNER_CELL, &cfg, &mut stale);
    let first = run_sequential(1, &cfg);
    let second = run_sequential(1, &cfg);
    assert_eq!(first.calls, second.calls);
}

#[test]
fn counting_disabled_reports_zero_calls() {
    let cfg = SearchConfig { ab_prune: true, win_lose_prune: true, count_calls: false };
    let rep = run_sequential(1, &cfg);
    assert_eq!(rep.calls, 0);
    assert_eq!(rep.corner_score, SCORE_TIE);
    assert_eq!(rep.edge_score, SCORE_TIE);
    assert_eq!(rep.center_score, SCORE_TIE);
}

#[test]
fn empty_board_is_all_blank_and_default_is_blank() {
    let b = empty_board();
    for cell in 0..9 {
        assert_eq!(b[cell], Piece::Blank);
    }
    assert_eq!(Piece::default(), Piece::Blank);
    assert_eq!(Piece::X.glyph(), 'X');
    assert_eq!(Piece::O.glyph(), 'O');
    assert_eq!(Piece::Blank.glyph(), ' ');
}
