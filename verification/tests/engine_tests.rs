use nullptrbot::engine::ChessEngine;
use nullptrbot::evaluation::MATE_VALUE;
use nullptrbot::prims::Color;
use nullptrbot::ucigocommand::UCIGoCommand;
use std::str::FromStr;
use std::time::Instant;

fn tokens(line: &str) -> Vec<String> {
    line.split_whitespace().map(|t| t.to_string()).collect()
}

#[test]
fn fen_and_startpos_moves_reach_the_same_state() {
    let mut by_fen = ChessEngine::new();
    by_fen.handle_position(&tokens(
        "position fen r1bqkbnr/pppp1ppp/2n5/4p3/4P3/5N2/PPPP1PPP/RNBQKB1R w KQkq - 2 3",
    ));
    let mut by_moves = ChessEngine::new();
    by_moves.handle_position(&tokens("position startpos moves e2e4 e7e5 g1f3 b8c6"));
    assert_eq!(by_fen.board, by_moves.board);
}

#[test]
fn a_bad_fen_resets_to_the_starting_position() {
    let mut engine = ChessEngine::new();
    engine.handle_position(&tokens("position startpos moves e2e4"));
    engine.handle_position(&tokens("position fen not a real fen at all xx"));
    assert_eq!(engine.board, chess::Board::default());
}

#[test]
fn a_bad_move_token_keeps_the_partial_state() {
    let mut engine = ChessEngine::new();
    engine.handle_position(&tokens("position startpos moves e2e4 zzzz e7e5"));
    let expected = chess::Board::default()
        .make_move_new(chess::ChessMove::from_str("e2e4").unwrap());
    assert_eq!(engine.board, expected);
}

#[test]
fn startpos_alone_resets_the_board() {
    let mut engine = ChessEngine::new();
    engine.handle_position(&tokens("position startpos moves e2e4"));
    engine.handle_position(&tokens("position startpos"));
    assert_eq!(engine.board, chess::Board::default());
}

#[test]
fn think_time_uses_movetime_verbatim() {
    let engine = ChessEngine::new();
    let cmd = UCIGoCommand::new(&tokens("go movetime 200"));
    assert_eq!(engine.calculate_think_time_ms(&cmd, Color::White), 200);
}

#[test]
fn think_time_is_huge_for_infinite() {
    let engine = ChessEngine::new();
    let cmd = UCIGoCommand::new(&tokens("go infinite"));
    assert_eq!(engine.calculate_think_time_ms(&cmd, Color::White), 100000000);
}

#[test]
fn think_time_clamps_early_game_clocks() {
    let engine = ChessEngine::new();
    let cmd = UCIGoCommand::new(&tokens("go wtime 300000 btime 300000 winc 2000 binc 2000"));
    // a twentieth plus half the increment would be sixteen seconds, but the
    // opening clamp allows at most min(inc + 1500, 3000)
    assert_eq!(engine.calculate_think_time_ms(&cmd, Color::White), 3000);
}

#[test]
fn think_time_defaults_without_clocks() {
    let engine = ChessEngine::new();
    let cmd = UCIGoCommand::new(&tokens("go"));
    // default time 30000, no increment: 1500 is also under the opening clamp
    assert_eq!(engine.calculate_think_time_ms(&cmd, Color::White), 1500);
}

#[test]
fn benchmark_counts_leaves_deterministically() {
    let mut engine = ChessEngine::new();
    let (score1, best1, nodes1) = engine.run_search_benchmark(3);
    let (score2, best2, nodes2) = engine.run_search_benchmark(3);
    assert_eq!(score1, score2);
    assert_eq!(best1, best2);
    assert_eq!(nodes1, nodes2);
    assert!(nodes1 > 0);
    assert_eq!(engine.nodes_visited, nodes2);
    assert!(score1.abs() < MATE_VALUE);
}

#[test]
fn random_move_is_legal() {
    let engine = ChessEngine::new();
    let m = engine.generate_random_move().expect("the start has moves");
    assert!(chess::MoveGen::new_legal(&engine.board).any(|x| x == m));
}

#[test]
fn no_random_move_in_a_finished_game() {
    let mut engine = ChessEngine::new();
    engine.board = chess::Board::from_str("k7/8/1Q6/8/8/8/8/7K b - - 0 1").unwrap();
    assert_eq!(engine.generate_random_move(), None);
}

#[test]
fn coarse_deepening_finds_the_mate_in_one() {
    let mut engine = ChessEngine::new();
    engine.board = chess::Board::from_str("4k3/8/4K3/8/8/8/8/7R w - - 0 1").unwrap();
    let best = engine.iterative_deepening_search(5_000, 4, Color::White);
    let expected = chess::ChessMove::new(chess::Square::H1, chess::Square::H8, None);
    assert_eq!(best, Some(expected));
}

#[test]
fn legacy_best_move_finds_the_mate_in_one() {
    let mut engine = ChessEngine::new();
    engine.board = chess::Board::from_str("4k3/8/4K3/8/8/8/8/7R w - - 0 1").unwrap();
    let best = engine.generate_best_move(Color::White, 2);
    let expected = chess::ChessMove::new(chess::Square::H1, chess::Square::H8, None);
    assert_eq!(best, Some(expected));
}

#[test]
fn timed_move_respects_its_budget() {
    let mut engine = ChessEngine::new();
    let start = Instant::now();
    let best = engine.generate_move(200, Color::White);
    let elapsed = start.elapsed().as_millis();
    assert!(elapsed >= 180, "stopped too early: {} ms", elapsed);
    assert!(elapsed <= 260, "overshot the budget: {} ms", elapsed);
    let m = best.expect("the start has moves");
    assert!(chess::MoveGen::new_legal(&engine.board).any(|x| x == m));
}

#[test]
fn benchmark_counts_one_leaf_per_depth_zero_child() {
    let mut engine = ChessEngine::new();
    // at depth one every one of the twenty opening moves is a leaf
    let (_, _, nodes) = engine.run_search_benchmark(1);
    assert_eq!(nodes, 20);
    // at depth zero the root itself is the only leaf
    let (_, _, nodes0) = engine.run_search_benchmark(0);
    assert_eq!(nodes0, 1);
}
