//! Zobrist hashing of positions, for repetition counting.

use vstd::prelude::*;

use crate::prims::{self, color_on_of, piece_on_of, side_of, Color, PieceKind};

verus! {

/// A Zobrist hasher: one random 64-bit value per square and piece, one for
/// the side to move, and a table counting how often each hash was seen.
pub struct ZobristHasher {
    pub rand_arrays: [[u64; 12]; 64],
    pub black_to_move: u64,
    pub gamestate_hashmap: std::collections::HashMap<u64, u8>,
}

/// The row of the per-square table a colored piece hashes with: the six
/// white pieces first, pawn to king, then the six black ones.
pub open spec fn spec_piece_index(p: PieceKind, c: Color) -> int {
    let base: int = match p {
        PieceKind::Pawn => 0,
        PieceKind::Knight => 1,
        PieceKind::Bishop => 2,
        PieceKind::Rook => 3,
        PieceKind::Queen => 4,
        PieceKind::King => 5,
    };
    if c == Color::Black {
        base + 6
    } else {
        base
    }
}

/// The hash after folding in the first `n` squares: each occupied square
/// contributes its piece's random value by exclusive or.
pub open spec fn spec_hash_upto(arr: [[u64; 12]; 64], b: chess::Board, init: u64, n: int) -> u64
    decreases n,
{
    if n <= 0 {
        init
    } else {
        let h = spec_hash_upto(arr, b, init, n - 1);
        match piece_on_of(b, (n - 1) as u8) {
            None => h,
            Some(p) => {
                let c = match color_on_of(b, (n - 1) as u8) {
                    Some(cc) => cc,
                    None => Color::White,
                };
                h ^ arr[n - 1][spec_piece_index(p, c)]
            },
        }
    }
}

/// The Zobrist hash of a position under the hasher's tables.
pub open spec fn spec_board_hash(arr: [[u64; 12]; 64], black_to_move: u64, b: chess::Board) -> u64 {
    let init: u64 = if side_of(b) == Color::Black {
        0u64 ^ black_to_move
    } else {
        0u64
    };
    spec_hash_upto(arr, b, init, 64)
}

impl ZobristHasher {
    /// A fresh hasher with random tables and an empty repetition count.
    pub fn new() -> (r: ZobristHasher)
        ensures
            r.gamestate_hashmap@ == Map::<u64, u8>::empty(),
    {
        let mut arr: [[u64; 12]; 64] = [[0u64; 12]; 64];
        let mut i: usize = 0;
        while i < 64
            invariant
                0 <= i <= 64,
            decreases 64 - i,
        {
            let mut j: usize = 0;
            while j < 12
                invariant
                    0 <= j <= 12,
                    i < 64,
                decreases 12 - j,
            {
                let x = prims::random_u64();
                arr[i][j] = x;
                j = j + 1;
            }
            i = i + 1;
        }
        ZobristHasher {
            rand_arrays: arr,
            black_to_move: prims::random_u64(),
            gamestate_hashmap: std::collections::HashMap::new(),
        }
    }

    /// The Zobrist hash of a position: the side-to-move value when black
    /// is to move, folded with each occupied square's piece value.
    pub fn hash_board(&self, board: &chess::Board) -> (r: u64)
        ensures
            r == spec_board_hash(self.rand_arrays, self.black_to_move, *board),
    {
        let mut h: u64 = 0;
        if matches!(prims::side_to_move(board), Color::Black) {
            h = h ^ self.black_to_move;
        }
        let ghost init = h;
        let mut i: usize = 0;
        while i < 64
            invariant
                0 <= i <= 64,
                h == spec_hash_upto(self.rand_arrays, *board, init, i as int),
                init == (if side_of(*board) == Color::Black {
                    0u64 ^ self.black_to_move
                } else {
                    0u64
                }),
            decreases 64 - i,
        {
            match prims::piece_on(board, i as u8) {
                Some(piece) => {
                    let color = match prims::color_on(board, i as u8) {
                        Some(c) => c,
                        None => Color::White,
                    };
                    let mut piece_idx: usize = 0;
                    if matches!(piece, PieceKind::Pawn) {
                        piece_idx = 0;
                    } else if matches!(piece, PieceKind::Knight) {
                        piece_idx = 1;
                    } else if matches!(piece, PieceKind::Bishop) {
                        piece_idx = 2;
                    } else if matches!(piece, PieceKind::Rook) {
                        piece_idx = 3;
                    } else if matches!(piece, PieceKind::Queen) {
                        piece_idx = 4;
                    } else {
                        piece_idx = 5;
                    }
                    if matches!(color, Color::Black) {
                        piece_idx = piece_idx + 6;
                    }
                    h = h ^ self.rand_arrays[i][piece_idx];
                },
                None => {},
            }
            i = i + 1;
        }
        h
    }

    /// How often this hash has been recorded.
    pub fn check_table(&self, board_hash: u64) -> (r: u8)
        ensures
            r == (if self.gamestate_hashmap@.contains_key(board_hash) {
                self.gamestate_hashmap@[board_hash]
            } else {
                0u8
            }),
    {
        match self.gamestate_hashmap.get(&board_hash) {
            Some(count) => *count,
            None => 0,
        }
    }

    /// A diagnostic dump of the repetition table, one line per recorded
    /// hash.  Relies on `std::collections::HashMap::iter`, whose order the
    /// verifier does not model; nothing is claimed of the text.
    #[verifier::external_body]
    pub fn to_string(&mut self) -> (r: String) {
        let mut s: String = "--Count-----Hash---------------------\n".to_owned();
        for (h, count) in &self.gamestate_hashmap {
            s.push_str(&format!("--{}-------- {}\n", count, h));
        }
        s
    }

    /// Record one more sighting of this position, the count stopping at
    /// the top of its range rather than wrapping.
    pub fn insert_board(&mut self, board: &chess::Board)
        ensures
            ({
                let h = spec_board_hash(old(self).rand_arrays, old(self).black_to_move, *board);
                let prior: u8 = if old(self).gamestate_hashmap@.contains_key(h) {
                    old(self).gamestate_hashmap@[h]
                } else {
                    0u8
                };
                let next: u8 = if prior < 255 {
                    (prior + 1) as u8
                } else {
                    prior
                };
                final(self).gamestate_hashmap@ == old(self).gamestate_hashmap@.insert(h, next)
            }),
            final(self).rand_arrays == old(self).rand_arrays,
            final(self).black_to_move == old(self).black_to_move,
    {
        let h = self.hash_board(board);
        let boardcount = self.check_table(h);
        let next: u8 = if boardcount < 255 {
            boardcount + 1
        } else {
            boardcount
        };
        self.gamestate_hashmap.insert(h, next);
    }
}

} // verus!
