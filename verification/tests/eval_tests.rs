use nullptrbot::chessutil::{
    early_game_probability, end_game_probability, get_bit, popcount, PROB_ONE,
};
use nullptrbot::evaluation::{
    evaluate, evaluate_for_color, forward_pos, tdiv64, EVAL_BOUND, MATE_VALUE, SCALE,
};
use nullptrbot::prims::Color;
use std::str::FromStr;

#[test]
fn starting_position_evaluates_to_nearly_zero() {
    // The black piece-square lookup mirrors the square by 63 - idx, which
    // flips the file as well as the rank, and the tables are not
    // file-symmetric: the perfectly symmetric start is therefore worth a
    // few millionths of a pawn rather than exactly zero.
    let board = chess::Board::default();
    let w = evaluate(&board, Color::White);
    assert!(w.abs() < SCALE / 1000, "start evaluation {}", w);
    assert_eq!(evaluate(&board, Color::Black), -w);
}

#[test]
fn evaluation_is_antisymmetric() {
    let board =
        chess::Board::from_str("r1bqkbnr/pppp1ppp/2n5/4p3/4P3/5N2/PPPP1PPP/RNBQKB1R w KQkq - 2 3")
            .unwrap();
    let w = evaluate(&board, Color::White);
    let b = evaluate(&board, Color::Black);
    assert_eq!(w, -b);
    assert!(w.abs() <= EVAL_BOUND);
    assert!(w.abs() < MATE_VALUE);
}

#[test]
fn queen_up_is_roughly_nine_pawns_up() {
    // white has an extra queen on an otherwise bare board
    let board = chess::Board::from_str("4k3/8/8/8/8/8/8/3QK3 w - - 0 1").unwrap();
    let w = evaluate(&board, Color::White);
    assert!(w > 8 * SCALE);
    assert!(w < 12 * SCALE);
}

#[test]
fn per_color_split_matches_total() {
    let board =
        chess::Board::from_str("rnbqkbnr/pppppppp/8/8/4P3/8/PPPP1PPP/RNBQKBNR b KQkq - 0 1")
            .unwrap();
    let me = evaluate_for_color(&board, Color::Black);
    let opp = evaluate_for_color(&board, Color::White);
    assert_eq!(evaluate(&board, Color::Black), me - opp);
}

#[test]
fn early_game_probability_is_high_at_the_start() {
    let board = chess::Board::default();
    // sixteen pawns on their ranks: 2^12 / (2^12 + 1) in fixed point
    let expected = ((PROB_ONE as u64) * 4096 / 4097) as u32;
    assert_eq!(early_game_probability(&board), expected);
    assert!(early_game_probability(&board) > PROB_ONE / 2);
}

#[test]
fn end_game_probability_rises_as_material_falls() {
    let full = chess::Board::default();
    let sparse = chess::Board::from_str("4k3/8/8/8/8/8/8/3QK3 w - - 0 1").unwrap();
    assert_eq!(end_game_probability(&full), 0);
    assert!(end_game_probability(&sparse) > end_game_probability(&full));
    assert!(end_game_probability(&sparse) > PROB_ONE / 2);
}

#[test]
fn forward_pos_mirrors_for_black() {
    assert_eq!(forward_pos(0, Color::White), 0);
    assert_eq!(forward_pos(6, Color::White), 6);
    assert_eq!(forward_pos(0, Color::Black), 7);
    assert_eq!(forward_pos(6, Color::Black), 1);
}

#[test]
fn bit_helpers_extract_bits() {
    assert_eq!(get_bit(0b1010, 1), 1);
    assert_eq!(get_bit(0b1010, 2), 0);
    assert_eq!(popcount(0), 0);
    assert_eq!(popcount(u64::MAX), 64);
    assert_eq!(popcount(0x8000000000000001), 2);
}

#[test]
fn truncating_division_rounds_toward_zero() {
    assert_eq!(tdiv64(7, 2), 3);
    assert_eq!(tdiv64(-7, 2), -3);
    assert_eq!(tdiv64(-1, 20), 0);
}
