//! The interface to the chess primitives library.
//!
//! The engine's own logic never looks inside a `chess::Board` or a
//! `chess::ChessMove`: both are opaque here.  Every fact the search and the
//! evaluator need about a position is fetched through one of the wrappers
//! below, and what a wrapper returns is pinned to a named function of the
//! opaque value (`legal_moves_of`, `make_move_of`, ...), so that the rest of
//! the crate can be verified against those names.

use vstd::prelude::*;

use rand::Rng;
use std::str::FromStr;

verus! {

/// The side to move, or the side a score is computed for.
#[derive(Clone, Copy, PartialEq, Eq, Structural, Debug)]
pub enum Color {
    White,
    Black,
}

impl Color {
    /// The opposing side.
    pub open spec fn spec_other(self) -> Color {
        match self {
            Color::White => Color::Black,
            Color::Black => Color::White,
        }
    }

    pub fn other(self) -> (r: Color)
        ensures
            r == self.spec_other(),
    {
        match self {
            Color::White => Color::Black,
            Color::Black => Color::White,
        }
    }
}

/// A piece kind, without its color.
#[derive(Clone, Copy, PartialEq, Eq, Structural, Debug)]
pub enum PieceKind {
    Pawn,
    Knight,
    Bishop,
    Rook,
    Queen,
    King,
}

/// Whether a position is still playable, drawn, or won.
#[derive(Clone, Copy, PartialEq, Eq, Structural, Debug)]
pub enum GameStatus {
    Ongoing,
    Stalemate,
    Checkmate,
}

#[verifier::external_type_specification]
#[verifier::external_body]
pub struct ExBoard(chess::Board);

#[verifier::external_type_specification]
#[verifier::external_body]
pub struct ExChessMove(chess::ChessMove);

#[verifier::external_type_specification]
#[verifier::external_body]
pub struct ExInstant(std::time::Instant);

/// The legal moves of a position, in the order the move generator yields them.
pub uninterp spec fn legal_moves_of(b: chess::Board) -> Seq<chess::ChessMove>;

/// The position that results from playing a legal move.
pub uninterp spec fn make_move_of(b: chess::Board, m: chess::ChessMove) -> chess::Board;

/// The terminal status of a position.
pub uninterp spec fn status_of(b: chess::Board) -> GameStatus;

/// The side to move.
pub uninterp spec fn side_of(b: chess::Board) -> Color;

/// The bitboard of all pieces of one color, bit `i` standing for square `i`
/// (a1 = 0, b1 = 1, ..., h8 = 63).
pub uninterp spec fn color_bb_of(b: chess::Board, c: Color) -> u64;

/// The bitboard of all pieces of one kind, either color.
pub uninterp spec fn pieces_bb_of(b: chess::Board, p: PieceKind) -> u64;

/// The bitboard of the pieces giving check to the side to move.
pub uninterp spec fn checkers_of(b: chess::Board) -> u64;

/// The piece standing on a square, if any.
pub uninterp spec fn piece_on_of(b: chess::Board, sq: u8) -> Option<PieceKind>;

/// The color of the piece standing on a square, if any.
pub uninterp spec fn color_on_of(b: chess::Board, sq: u8) -> Option<Color>;

/// The source square index of a move.
pub uninterp spec fn move_src_of(m: chess::ChessMove) -> u8;

/// The destination square index of a move.
pub uninterp spec fn move_dst_of(m: chess::ChessMove) -> u8;

/// The promotion piece of a move, if any.
pub uninterp spec fn move_promo_of(m: chess::ChessMove) -> Option<PieceKind>;

/// The position a FEN string denotes, if it is well-formed.
pub uninterp spec fn fen_parse_of(s: Seq<char>) -> Option<chess::Board>;

/// The move a long-algebraic token denotes, if it is well-formed.
pub uninterp spec fn move_parse_of(s: Seq<char>) -> Option<chess::ChessMove>;

/// The FEN of the standard starting position.
pub open spec fn spec_start_fen() -> Seq<char> {
    "rnbqkbnr/pppppppp/8/8/8/8/PPPPPPPP/RNBQKBNR w KQkq - 0 1"@
}

/// The standard starting position.
pub open spec fn spec_starting_board() -> chess::Board {
    fen_parse_of(spec_start_fen()).unwrap()
}

/// Relies on `chess::MoveGen::new_legal`: yields each legal move of the
/// position exactly once, in a fixed order determined by the position alone.
#[verifier::external_body]
pub(crate) fn legal_moves(board: &chess::Board) -> (r: Vec<chess::ChessMove>)
    ensures
        r@ == legal_moves_of(*board),
{
    chess::MoveGen::new_legal(board).collect()
}

/// Relies on `chess::Board::make_move_new`: applies a legal move to a copy of
/// the position and leaves the original untouched; the result is a function
/// of the position and the move alone.  It may panic on an illegal move,
/// which the precondition rules out.
#[verifier::external_body]
pub fn make_move_new(board: &chess::Board, cm: chess::ChessMove) -> (r: chess::Board)
    requires
        legal_moves_of(*board).contains(cm),
    ensures
        r == make_move_of(*board, cm),
{
    board.make_move_new(cm)
}

/// Relies on `chess::Board::status`: `Ongoing` exactly when a legal move
/// exists, otherwise `Stalemate` or `Checkmate` by whether the side to move
/// is in check.
#[verifier::external_body]
pub(crate) fn board_status(board: &chess::Board) -> (r: GameStatus)
    ensures
        r == status_of(*board),
{
    match board.status() {
        chess::BoardStatus::Ongoing => GameStatus::Ongoing,
        chess::BoardStatus::Stalemate => GameStatus::Stalemate,
        chess::BoardStatus::Checkmate => GameStatus::Checkmate,
    }
}

/// Relies on `chess::Board::side_to_move`.
#[verifier::external_body]
pub(crate) fn side_to_move(board: &chess::Board) -> (r: Color)
    ensures
        r == side_of(*board),
{
    match board.side_to_move() {
        chess::Color::White => Color::White,
        chess::Color::Black => Color::Black,
    }
}

/// Relies on `chess::Board::color_combined`: the bitboard of one color's
/// pieces, square `i` at bit `i`.
#[verifier::external_body]
pub(crate) fn color_bitboard(board: &chess::Board, c: Color) -> (r: u64)
    ensures
        r == color_bb_of(*board, c),
{
    let cc = match c {
        Color::White => chess::Color::White,
        Color::Black => chess::Color::Black,
    };
    board.color_combined(cc).0
}

/// Relies on `chess::Board::pieces`: the bitboard of one piece kind, both
/// colors together, square `i` at bit `i`.
#[verifier::external_body]
pub(crate) fn pieces_bitboard(board: &chess::Board, p: PieceKind) -> (r: u64)
    ensures
        r == pieces_bb_of(*board, p),
{
    let pp = match p {
        PieceKind::Pawn => chess::Piece::Pawn,
        PieceKind::Knight => chess::Piece::Knight,
        PieceKind::Bishop => chess::Piece::Bishop,
        PieceKind::Rook => chess::Piece::Rook,
        PieceKind::Queen => chess::Piece::Queen,
        PieceKind::King => chess::Piece::King,
    };
    board.pieces(pp).0
}

/// Relies on `chess::Board::checkers`: the bitboard of the pieces checking
/// the side to move; zero exactly when that side is not in check.
#[verifier::external_body]
pub(crate) fn checkers_bitboard(board: &chess::Board) -> (r: u64)
    ensures
        r == checkers_of(*board),
{
    board.checkers().0
}

/// Relies on `chess::Board::piece_on`, with the square built by
/// `chess::Square::make_square` from the rank `sq / 8` and the file `sq % 8`,
/// so that square index `i` means bit `i` of the bitboards.
#[verifier::external_body]
pub(crate) fn piece_on(board: &chess::Board, sq: u8) -> (r: Option<PieceKind>)
    requires
        sq < 64,
    ensures
        r == piece_on_of(*board, sq),
{
    let square = chess::Square::make_square(
        chess::Rank::from_index((sq >> 3) as usize),
        chess::File::from_index((sq & 7) as usize),
    );
    match board.piece_on(square) {
        None => None,
        Some(chess::Piece::Pawn) => Some(PieceKind::Pawn),
        Some(chess::Piece::Knight) => Some(PieceKind::Knight),
        Some(chess::Piece::Bishop) => Some(PieceKind::Bishop),
        Some(chess::Piece::Rook) => Some(PieceKind::Rook),
        Some(chess::Piece::Queen) => Some(PieceKind::Queen),
        Some(chess::Piece::King) => Some(PieceKind::King),
    }
}

/// Relies on `chess::Board::color_on`, with the square built as `piece_on`
/// builds it.
#[verifier::external_body]
pub(crate) fn color_on(board: &chess::Board, sq: u8) -> (r: Option<Color>)
    requires
        sq < 64,
    ensures
        r == color_on_of(*board, sq),
{
    let square = chess::Square::make_square(
        chess::Rank::from_index((sq >> 3) as usize),
        chess::File::from_index((sq & 7) as usize),
    );
    match board.color_on(square) {
        None => None,
        Some(chess::Color::White) => Some(Color::White),
        Some(chess::Color::Black) => Some(Color::Black),
    }
}

/// Relies on `chess::ChessMove::get_source` and `chess::Square::to_index`:
/// the source square as an index below 64.
#[verifier::external_body]
pub(crate) fn move_source(m: &chess::ChessMove) -> (r: u8)
    ensures
        r == move_src_of(*m),
        r < 64,
{
    m.get_source().to_index() as u8
}

/// Relies on `chess::ChessMove::get_dest` and `chess::Square::to_index`:
/// the destination square as an index below 64.
#[verifier::external_body]
pub(crate) fn move_dest(m: &chess::ChessMove) -> (r: u8)
    ensures
        r == move_dst_of(*m),
        r < 64,
{
    m.get_dest().to_index() as u8
}

/// Relies on `chess::ChessMove::get_promotion`.
#[verifier::external_body]
pub(crate) fn move_promotion(m: &chess::ChessMove) -> (r: Option<PieceKind>)
    ensures
        r == move_promo_of(*m),
{
    match m.get_promotion() {
        None => None,
        Some(chess::Piece::Pawn) => Some(PieceKind::Pawn),
        Some(chess::Piece::Knight) => Some(PieceKind::Knight),
        Some(chess::Piece::Bishop) => Some(PieceKind::Bishop),
        Some(chess::Piece::Rook) => Some(PieceKind::Rook),
        Some(chess::Piece::Queen) => Some(PieceKind::Queen),
        Some(chess::Piece::King) => Some(PieceKind::King),
    }
}

/// Relies on `chess::ChessMove::new` and `chess::Square::make_square`: the
/// move from the given source rank and file to the given destination rank
/// and file, with the given promotion; `make_square` places rank `r`, file
/// `f` at square index `8 r + f`, and `get_promotion` returns what `new`
/// was given.
#[verifier::external_body]
pub(crate) fn move_from_parts(
    src_rank: u8,
    src_file: u8,
    dst_rank: u8,
    dst_file: u8,
    promo: Option<PieceKind>,
) -> (r: chess::ChessMove)
    requires
        src_rank < 8,
        src_file < 8,
        dst_rank < 8,
        dst_file < 8,
    ensures
        move_src_of(r) == src_rank * 8 + src_file,
        move_dst_of(r) == dst_rank * 8 + dst_file,
        move_promo_of(r) == promo,
{
    let piece = match promo {
        None => None,
        Some(PieceKind::Pawn) => Some(chess::Piece::Pawn),
        Some(PieceKind::Knight) => Some(chess::Piece::Knight),
        Some(PieceKind::Bishop) => Some(chess::Piece::Bishop),
        Some(PieceKind::Rook) => Some(chess::Piece::Rook),
        Some(PieceKind::Queen) => Some(chess::Piece::Queen),
        Some(PieceKind::King) => Some(chess::Piece::King),
    };
    let sr = chess::Rank::from_index(src_rank as usize);
    let sf = chess::File::from_index(src_file as usize);
    let dr = chess::Rank::from_index(dst_rank as usize);
    let df = chess::File::from_index(dst_file as usize);
    chess::ChessMove::new(chess::Square::make_square(sr, sf), chess::Square::make_square(dr, df), piece)
}

/// Relies on `chess::ChessMove` deriving `PartialEq`: two moves are `==`
/// exactly when source, destination and promotion all agree, which is
/// structural equality of the values.
#[verifier::external_body]
pub(crate) fn moves_equal(a: &chess::ChessMove, b: &chess::ChessMove) -> (r: bool)
    ensures
        r == (*a == *b),
{
    a == b
}

/// Relies on `chess::ChessMove` being `Copy`.
#[verifier::external_body]
pub(crate) fn copy_move(m: &chess::ChessMove) -> (r: chess::ChessMove)
    ensures
        r == *m,
{
    *m
}

/// Relies on `chess::Board` being `Copy`.
#[verifier::external_body]
pub(crate) fn copy_board(b: &chess::Board) -> (r: chess::Board)
    ensures
        r == *b,
{
    *b
}

/// Relies on `<chess::Board as FromStr>::from_str`: parses the six FEN
/// fields into a position; the result is a function of the string alone.
#[verifier::external_body]
pub(crate) fn parse_fen(s: &str) -> (r: Option<chess::Board>)
    ensures
        r == fen_parse_of(s@),
{
    chess::Board::from_str(s).ok()
}

/// Relies on `<chess::ChessMove as FromStr>::from_str`: parses a
/// long-algebraic token such as `e2e4` or `a7a8q`; the result is a function
/// of the string alone.
#[verifier::external_body]
pub(crate) fn parse_move(s: &str) -> (r: Option<chess::ChessMove>)
    ensures
        r == move_parse_of(s@),
{
    chess::ChessMove::from_str(s).ok()
}

/// Relies on `chess::Board::default`, whose body parses the standard
/// starting FEN, so the same string parses to `Some` of this board.
#[verifier::external_body]
pub(crate) fn starting_board() -> (r: chess::Board)
    ensures
        Some(r) == fen_parse_of(spec_start_fen()),
{
    chess::Board::default()
}

/// Relies on `std::time::Instant::now`; no two calls need be related.
#[verifier::external_body]
pub(crate) fn now_instant() -> (r: std::time::Instant) {
    std::time::Instant::now()
}

/// Relies on `std::time::Instant::elapsed`: the wall-clock time since the
/// instant, in milliseconds; nothing is assumed of the value.
#[verifier::external_body]
pub(crate) fn elapsed_millis(t: &std::time::Instant) -> (r: u64) {
    t.elapsed().as_millis() as u64
}

/// Relies on `rand::random`: an unsigned 64-bit value; nothing is assumed of
/// it.
#[verifier::external_body]
pub(crate) fn random_u64() -> (r: u64) {
    rand::random::<u64>()
}

/// Relies on `rand::Rng::gen_range` on `rand::thread_rng`: a value drawn
/// from `0..n`, so always below `n`; nothing else is assumed of it.
#[verifier::external_body]
pub(crate) fn random_below(n: usize) -> (r: usize)
    requires
        n > 0,
    ensures
        r < n,
{
    rand::thread_rng().gen_range(0..n)
}

} // verus!
