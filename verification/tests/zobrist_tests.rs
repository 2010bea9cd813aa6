use nullptrbot::zobristhasher::ZobristHasher;
use std::str::FromStr;

#[test]
fn hashing_is_deterministic_for_one_hasher() {
    let hasher = ZobristHasher::new();
    let board = chess::Board::default();
    assert_eq!(hasher.hash_board(&board), hasher.hash_board(&board));
}

#[test]
fn different_positions_hash_differently() {
    let hasher = ZobristHasher::new();
    let start = chess::Board::default();
    let after =
        chess::Board::from_str("rnbqkbnr/pppppppp/8/8/4P3/8/PPPP1PPP/RNBQKBNR b KQkq - 0 1")
            .unwrap();
    assert_ne!(hasher.hash_board(&start), hasher.hash_board(&after));
}

#[test]
fn repetition_counts_accumulate() {
    let mut hasher = ZobristHasher::new();
    let board = chess::Board::default();
    let h = hasher.hash_board(&board);
    assert_eq!(hasher.check_table(h), 0);
    hasher.insert_board(&board);
    assert_eq!(hasher.check_table(h), 1);
    hasher.insert_board(&board);
    assert_eq!(hasher.check_table(h), 2);
}

#[test]
fn table_dump_lists_recorded_hashes() {
    let mut hasher = ZobristHasher::new();
    let board = chess::Board::default();
    let h = hasher.hash_board(&board);
    hasher.insert_board(&board);
    let dump = hasher.to_string();
    assert!(dump.starts_with("--Count-----Hash"));
    assert!(dump.contains(&format!("{}", h)));
}
