use nullptrbot::engine::ChessEngine;
use nullptrbot::evaluation::{MATE_VALUE, SCALE};
use nullptrbot::prims::Color;
use nullptrbot::search::{iterative_deepening_search, quiescence_search, search_alpha_beta};
use std::str::FromStr;

fn engine_with(fen: &str) -> (ChessEngine, chess::Board) {
    let board = chess::Board::from_str(fen).unwrap();
    let mut engine = ChessEngine::new();
    engine.board = board;
    (engine, board)
}

#[test]
fn mate_in_one_is_found_at_depth_two() {
    let (mut engine, board) = engine_with("4k3/8/4K3/8/8/8/8/7R w - - 0 1");
    let (score, best, done) =
        search_alpha_beta(&mut engine, &board, 2, -MATE_VALUE, MATE_VALUE, Color::White, true,
            None, None, 0);
    assert!(done);
    assert!(score >= MATE_VALUE);
    let expected = chess::ChessMove::new(chess::Square::H1, chess::Square::H8, None);
    assert_eq!(best, Some(expected));
}

#[test]
fn stalemate_trap_is_avoided() {
    // many queen moves stalemate black on the spot; the mate must win out
    let (mut engine, board) = engine_with("7k/5Q2/6K1/8/8/8/8/8 w - - 0 1");
    let (score, best, done) =
        search_alpha_beta(&mut engine, &board, 2, -MATE_VALUE, MATE_VALUE, Color::White, true,
            None, None, 0);
    assert!(done);
    assert!(score >= MATE_VALUE);
    let after = board.make_move_new(best.unwrap());
    assert_eq!(after.status(), chess::BoardStatus::Checkmate);
}

#[test]
fn stalemate_scores_exactly_zero() {
    // black to move, no legal move, not in check
    let (mut engine, board) = engine_with("k7/8/1Q6/8/8/8/8/7K b - - 0 1");
    assert_eq!(board.status(), chess::BoardStatus::Stalemate);
    let (score, best, done) =
        search_alpha_beta(&mut engine, &board, 3, -MATE_VALUE, MATE_VALUE, Color::Black, true,
            None, None, 0);
    assert!(done);
    assert_eq!(score, 0);
    assert_eq!(best, None);
}

#[test]
fn checkmate_scores_are_extremal_and_depth_sensitive() {
    // black is mated on the back rank
    let (mut engine, board) = engine_with("4k2R/8/4K3/8/8/8/8/8 b - - 0 1");
    assert_eq!(board.status(), chess::BoardStatus::Checkmate);
    let (s1, _, _) = search_alpha_beta(&mut engine, &board, 1, -MATE_VALUE, MATE_VALUE,
        Color::Black, true, None, None, 0);
    assert_eq!(s1, -MATE_VALUE - 1);
    let (s5, _, _) = search_alpha_beta(&mut engine, &board, 5, -MATE_VALUE, MATE_VALUE,
        Color::Black, true, None, None, 0);
    assert_eq!(s5, -MATE_VALUE - 5);
    // from the winner's viewpoint the nearer mate weighs more
    let (w2, _, _) = search_alpha_beta(&mut engine, &board, 2, -MATE_VALUE, MATE_VALUE,
        Color::White, false, None, None, 0);
    let (w4, _, _) = search_alpha_beta(&mut engine, &board, 4, -MATE_VALUE, MATE_VALUE,
        Color::White, false, None, None, 0);
    assert_eq!(w2, MATE_VALUE + 2);
    assert_eq!(w4, MATE_VALUE + 4);
    assert!(w4.abs() > w2.abs());
}

#[test]
fn knight_fork_is_chosen_at_depth_four() {
    let fen = "2q1k3/8/8/8/4N3/8/8/4K3 w - - 0 1";
    let (mut engine, board) = engine_with(fen);
    let (s2, _, done2) = search_alpha_beta(&mut engine, &board, 2, -MATE_VALUE, MATE_VALUE,
        Color::White, true, None, None, 0);
    assert!(done2);
    let (s4, best4, done4) = search_alpha_beta(&mut engine, &board, 4, -MATE_VALUE, MATE_VALUE,
        Color::White, true, None, None, 0);
    assert!(done4);
    let fork = chess::ChessMove::new(chess::Square::E4, chess::Square::D6, None);
    assert_eq!(best4, Some(fork));
    // the fork wins at least a queen for a knight over the shallower view
    assert!(s4 - s2 >= 5 * SCALE);
}

#[test]
fn search_is_deterministic_without_a_timer() {
    let (mut engine, board) = engine_with(
        "r1bqkbnr/pppp1ppp/2n5/4p3/4P3/5N2/PPPP1PPP/RNBQKB1R w KQkq - 2 3",
    );
    let a = search_alpha_beta(&mut engine, &board, 3, -MATE_VALUE, MATE_VALUE, Color::White, true,
        None, None, 0);
    let b = search_alpha_beta(&mut engine, &board, 3, -MATE_VALUE, MATE_VALUE, Color::White, true,
        None, None, 0);
    assert_eq!(a.0, b.0);
    assert_eq!(a.1, b.1);
    assert!(a.2 && b.2);
}

#[test]
fn root_position_survives_a_search() {
    let (mut engine, board) = engine_with("4k3/8/4K3/8/8/8/8/7R w - - 0 1");
    let before = engine.board;
    let _ = search_alpha_beta(&mut engine, &board, 3, -MATE_VALUE, MATE_VALUE, Color::White, true,
        None, None, 0);
    assert_eq!(engine.board, before);
    assert_eq!(board, before);
}

#[test]
fn quiescence_stands_pat_in_a_quiet_position() {
    let mut engine = ChessEngine::new();
    let board = chess::Board::default();
    let (score, best, done) =
        quiescence_search(&mut engine, &board, 1, -MATE_VALUE, MATE_VALUE, Color::White, true);
    assert!(done);
    // no captures exist: the static evaluation stands
    assert_eq!(score, nullptrbot::evaluation::evaluate(&board, Color::White));
    assert_eq!(best, None);
    assert!(engine.nodes_visited > 0);
}

#[test]
fn deepening_returns_a_legal_move_from_the_start() {
    let mut engine = ChessEngine::new();
    let board = chess::Board::default();
    let (_, best) = iterative_deepening_search(&mut engine, &board, 4, 10_000, Color::White, true);
    let m = best.expect("a move from the starting position");
    assert!(chess::MoveGen::new_legal(&board).any(|x| x == m));
}

#[test]
fn captures_come_first_in_the_move_order() {
    // white can capture on d5 with the e4 pawn; everything else is quiet
    let board = chess::Board::from_str(
        "rnbqkbnr/ppp1pppp/8/3p4/4P3/8/PPPP1PPP/RNBQKBNR w KQkq - 0 2",
    )
    .unwrap();
    let moves = nullptrbot::chessutil::output_sorted_move_list(&board);
    let first = moves[0];
    assert!(board.piece_on(first.get_dest()).is_some(), "first move must capture");
    assert_eq!(first.get_source(), chess::Square::E4);
    assert_eq!(first.get_dest(), chess::Square::D5);
    // every move the orderer returns is legal, and none is missing
    let legal: Vec<chess::ChessMove> = chess::MoveGen::new_legal(&board).collect();
    assert_eq!(moves.len(), legal.len());
    for m in &moves {
        assert!(legal.contains(m));
    }
}

#[test]
fn both_searchers_agree_on_a_midgame_position() {
    let (mut engine, board) = engine_with(
        "r1bqkbnr/pppp1ppp/2n5/4p3/4P3/5N2/PPPP1PPP/RNBQKB1R w KQkq - 2 3",
    );
    let (ab_score, _, done) = search_alpha_beta(&mut engine, &board, 3, -MATE_VALUE, MATE_VALUE,
        Color::White, true, None, None, 0);
    assert!(done);
    let em_score = engine.evaluate_minimax(&board, 3, -MATE_VALUE, MATE_VALUE, Color::White, true);
    assert_eq!(ab_score, em_score);
}

#[test]
fn a_doomed_side_still_proposes_a_move() {
    // black to move; both legal replies run into an immediate mate
    let (mut engine, board) = engine_with("7k/1Q6/6K1/p7/8/8/8/8 b - - 0 1");
    let (score, best, done) = search_alpha_beta(&mut engine, &board, 3, -MATE_VALUE, MATE_VALUE,
        Color::Black, true, None, None, 0);
    assert!(done);
    assert!(score <= -MATE_VALUE);
    let m = best.expect("a legal move exists, so one must be proposed");
    assert!(chess::MoveGen::new_legal(&board).any(|x| x == m));
    // the deepening driver passes it on rather than resigning to 0000
    let (_, driver_best) =
        iterative_deepening_search(&mut engine, &board, 5, 60_000, Color::Black, true);
    let dm = driver_best.expect("the driver must pass the doomed move on");
    assert!(chess::MoveGen::new_legal(&board).any(|x| x == dm));
}
