use nullptrbot::chessutil::load_book_from_bytes;

fn record(key: u64, move_bits: u16, weight: u16) -> Vec<u8> {
    let mut r = Vec::new();
    r.extend_from_slice(&key.to_be_bytes());
    r.extend_from_slice(&move_bits.to_be_bytes());
    r.extend_from_slice(&weight.to_be_bytes());
    r.extend_from_slice(&0u32.to_be_bytes());
    r
}

#[test]
fn heavy_entries_are_kept_and_grouped() {
    // e2e4 packed: source file e=4, source rank 2nd=1, dest file e=4, dest rank 4th=3
    let mv: u16 = (1 << 9) | (4 << 6) | (3 << 3) | 4;
    let mut data = Vec::new();
    data.extend_from_slice(&record(0x463b96181691fc9c, mv, 150));
    data.extend_from_slice(&record(0x463b96181691fc9c, mv, 50));
    data.extend_from_slice(&record(0x1111111111111111, mv, 101));
    let book = load_book_from_bytes(&data);
    assert_eq!(book.len(), 2);
    let entries = &book[&0x463b96181691fc9c];
    assert_eq!(entries.len(), 1);
    assert_eq!(entries[0].weight, 150);
    assert_eq!(entries[0].key, 0x463b96181691fc9c);
    assert_eq!(entries[0].chessmove.get_source(), chess::Square::E2);
    assert_eq!(entries[0].chessmove.get_dest(), chess::Square::E4);
    assert_eq!(entries[0].chessmove.get_promotion(), None);
}

#[test]
fn light_entries_and_trailing_bytes_are_dropped() {
    let mv: u16 = (6 << 9) | (6 << 6) | (5 << 3) | 5;
    let mut data = Vec::new();
    data.extend_from_slice(&record(7, mv, 100));
    data.extend_from_slice(&[1, 2, 3]);
    let book = load_book_from_bytes(&data);
    assert!(book.is_empty());
}

#[test]
fn promotion_bits_are_decoded() {
    // a7a8q packed: source file a=0, source rank 7th=6, dest file a=0,
    // dest rank 8th=7, promotion 4 = queen
    let mv: u16 = (4 << 12) | (6 << 9) | (0 << 6) | (7 << 3) | 0;
    let mut data = Vec::new();
    data.extend_from_slice(&record(42, mv, 200));
    let book = load_book_from_bytes(&data);
    let entries = &book[&42];
    assert_eq!(entries[0].chessmove.get_source(), chess::Square::A7);
    assert_eq!(entries[0].chessmove.get_dest(), chess::Square::A8);
    assert_eq!(entries[0].chessmove.get_promotion(), Some(chess::Piece::Queen));
    // knight underpromotion
    let mv_n: u16 = (1 << 12) | (6 << 9) | (1 << 6) | (7 << 3) | 1;
    let mut data_n = Vec::new();
    data_n.extend_from_slice(&record(43, mv_n, 200));
    let book_n = load_book_from_bytes(&data_n);
    assert_eq!(book_n[&43][0].chessmove.get_promotion(), Some(chess::Piece::Knight));
}
