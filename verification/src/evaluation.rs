//! The static evaluator: material, pawn advancement, center control,
//! blended piece-square tables, doubled-pawn penalty and king pawn shield.
//!
//! Scores are fixed-point: `SCALE` score units stand for one pawn.  Every
//! value the evaluator returns is provably far below `MATE_VALUE`, so mate
//! scores never collide with positional ones.

use vstd::prelude::*;

use crate::chessutil::{
    self, lemma_bit64_le_one, lemma_pop_upto_bounds, popcount, spec_bit64, spec_early_prob,
    spec_end_prob, spec_pop64, PROB_ONE,
};
use crate::prims::{self, color_bb_of, pieces_bb_of, Color, PieceKind};

verus! {

/// One pawn, in score units.
pub const SCALE: i64 = 10_000_000;

/// The mate score base: far above any positional evaluation.
pub const MATE_VALUE: i64 = 1_000_000_000_000;

/// A bound on the absolute value of any static evaluation; well below
/// `MATE_VALUE`.
pub const EVAL_BOUND: i64 = 100_000_000_000;

/// A bound on the absolute value of a single color's evaluation.
pub const EVAL_COLOR_BOUND: i64 = 50_000_000_000;

/// A bound on the absolute value of one blended piece-square term.
pub const PST_TERM_BOUND: i64 = 40_000_000_000;

pub const QUEEN_VALUE: i64 = 90_000_000;

pub const ROOK_VALUE: i64 = 50_000_000;

pub const BISHOP_VALUE: i64 = 31_000_000;

pub const KNIGHT_VALUE: i64 = 30_000_000;

/// The four inner-center squares d4, e4, d5, e5.
pub const INNER_CENTER: u64 = (1u64 << 27) | (1u64 << 28) | (1u64 << 35) | (1u64 << 36);

/// The twelve-square ring around the inner center.
pub const OUTER_RING: u64 = (1u64 << 42) | (1u64 << 43) | (1u64 << 44) | (1u64 << 45) | (1u64
    << 34) | (1u64 << 37) | (1u64 << 26) | (1u64 << 29) | (1u64 << 18) | (1u64 << 19) | (1u64
    << 20) | (1u64 << 21);

/// Truncating division: rounds toward zero, as the machine division does.
pub open spec fn tdiv(a: int, d: int) -> int
    recommends
        d > 0,
{
    if a >= 0 {
        a / d
    } else {
        -((-a) / d)
    }
}

/// Truncating division on machine integers.
pub fn tdiv64(a: i64, d: i64) -> (r: i64)
    requires
        d > 0,
        a > i64::MIN,
    ensures
        r == tdiv(a as int, d as int),
{
    a / d
}

/// Truncating division shrinks: if `|a| <= m * d` then `|tdiv(a, d)| <= m`.
pub proof fn lemma_tdiv_range(a: int, d: int, m: int)
    requires
        d >= 1,
        0 <= m,
        -(m * d) <= a <= m * d,
    ensures
        -m <= tdiv(a, d) <= m,
{
    if a >= 0 {
        vstd::arithmetic::div_mod::lemma_div_is_ordered(a, m * d, d);
        vstd::arithmetic::div_mod::lemma_div_multiples_vanish(m, d);
        vstd::arithmetic::div_mod::lemma_div_pos_is_pos(a, d);
    } else {
        vstd::arithmetic::div_mod::lemma_div_is_ordered(-a, m * d, d);
        vstd::arithmetic::div_mod::lemma_div_multiples_vanish(m, d);
        vstd::arithmetic::div_mod::lemma_div_pos_is_pos(-a, d);
    }
}

/// The rank a pawn on row `row` has advanced to, counted from the side's
/// own back rank.
pub open spec fn spec_forward(row: int, color: Color) -> int {
    if color == Color::White {
        row
    } else {
        7 - row
    }
}

/// Mirror the row for black, so that a larger result always means more
/// advanced for the side being scored.
pub fn forward_pos(row: usize, color: Color) -> (r: usize)
    requires
        row < 8,
    ensures
        r == spec_forward(row as int, color),
        r < 8,
{
    if color == Color::White {
        row
    } else {
        7 - row
    }
}

/// `1.20^f` pawns in score units, for `f` in `0..8`.
pub open spec fn spec_pow12(f: int) -> int {
    if f == 0 {
        10000000
    } else if f == 1 {
        12000000
    } else if f == 2 {
        14400000
    } else if f == 3 {
        17280000
    } else if f == 4 {
        20736000
    } else if f == 5 {
        24883200
    } else if f == 6 {
        29859840
    } else {
        35831808
    }
}

fn pow12(f: usize) -> (r: i64)
    requires
        f < 8,
    ensures
        r == spec_pow12(f as int),
{
    if f == 0 {
        10000000
    } else if f == 1 {
        12000000
    } else if f == 2 {
        14400000
    } else if f == 3 {
        17280000
    } else if f == 4 {
        20736000
    } else if f == 5 {
        24883200
    } else if f == 6 {
        29859840
    } else {
        35831808
    }
}

pub proof fn lemma_pow12_bounds(f: int)
    ensures
        10000000 <= spec_pow12(f) <= 35831808,
{
}

/// The bitboard of one rank.
pub open spec fn spec_rank_mask(r: int) -> u64 {
    if 0 <= r < 8 {
        0xFFu64 << ((8 * r) as u64)
    } else {
        0
    }
}

/// The middlegame piece-square value of a pawn on square `i`, seen from
/// white's side with a8 at index 0 in table order.
pub open spec fn spec_mg_pawn(i: int) -> int {
    if i == 0 {
        0
    } else if i == 1 {
        0
    } else if i == 2 {
        0
    } else if i == 3 {
        0
    } else if i == 4 {
        0
    } else if i == 5 {
        0
    } else if i == 6 {
        0
    } else if i == 7 {
        0
    } else if i == 8 {
        98
    } else if i == 9 {
        134
    } else if i == 10 {
        61
    } else if i == 11 {
        95
    } else if i == 12 {
        68
    } else if i == 13 {
        126
    } else if i == 14 {
        34
    } else if i == 15 {
        -11
    } else if i == 16 {
        -6
    } else if i == 17 {
        7
    } else if i == 18 {
        26
    } else if i == 19 {
        31
    } else if i == 20 {
        65
    } else if i == 21 {
        56
    } else if i == 22 {
        25
    } else if i == 23 {
        -20
    } else if i == 24 {
        -14
    } else if i == 25 {
        13
    } else if i == 26 {
        6
    } else if i == 27 {
        21
    } else if i == 28 {
        23
    } else if i == 29 {
        12
    } else if i == 30 {
        17
    } else if i == 31 {
        -23
    } else if i == 32 {
        -27
    } else if i == 33 {
        -2
    } else if i == 34 {
        -5
    } else if i == 35 {
        12
    } else if i == 36 {
        17
    } else if i == 37 {
        6
    } else if i == 38 {
        10
    } else if i == 39 {
        -25
    } else if i == 40 {
        -26
    } else if i == 41 {
        -4
    } else if i == 42 {
        -4
    } else if i == 43 {
        -10
    } else if i == 44 {
        3
    } else if i == 45 {
        3
    } else if i == 46 {
        33
    } else if i == 47 {
        -12
    } else if i == 48 {
        -35
    } else if i == 49 {
        -1
    } else if i == 50 {
        -20
    } else if i == 51 {
        -23
    } else if i == 52 {
        -15
    } else if i == 53 {
        24
    } else if i == 54 {
        38
    } else if i == 55 {
        -22
    } else if i == 56 {
        0
    } else if i == 57 {
        0
    } else if i == 58 {
        0
    } else if i == 59 {
        0
    } else if i == 60 {
        0
    } else if i == 61 {
        0
    } else if i == 62 {
        0
    } else {
        0
    }
}

pub proof fn lemma_mg_pawn_bounds(i: int)
    ensures
        -250 <= spec_mg_pawn(i) <= 250,
{
}

fn mg_pawn(i: usize) -> (r: i64)
    requires
        i < 64,
    ensures
        r == spec_mg_pawn(i as int),
{
    if i == 0 {
        0
    } else if i == 1 {
        0
    } else if i == 2 {
        0
    } else if i == 3 {
        0
    } else if i == 4 {
        0
    } else if i == 5 {
        0
    } else if i == 6 {
        0
    } else if i == 7 {
        0
    } else if i == 8 {
        98
    } else if i == 9 {
        134
    } else if i == 10 {
        61
    } else if i == 11 {
        95
    } else if i == 12 {
        68
    } else if i == 13 {
        126
    } else if i == 14 {
        34
    } else if i == 15 {
        -11
    } else if i == 16 {
        -6
    } else if i == 17 {
        7
    } else if i == 18 {
        26
    } else if i == 19 {
        31
    } else if i == 20 {
        65
    } else if i == 21 {
        56
    } else if i == 22 {
        25
    } else if i == 23 {
        -20
    } else if i == 24 {
        -14
    } else if i == 25 {
        13
    } else if i == 26 {
        6
    } else if i == 27 {
        21
    } else if i == 28 {
        23
    } else if i == 29 {
        12
    } else if i == 30 {
        17
    } else if i == 31 {
        -23
    } else if i == 32 {
        -27
    } else if i == 33 {
        -2
    } else if i == 34 {
        -5
    } else if i == 35 {
        12
    } else if i == 36 {
        17
    } else if i == 37 {
        6
    } else if i == 38 {
        10
    } else if i == 39 {
        -25
    } else if i == 40 {
        -26
    } else if i == 41 {
        -4
    } else if i == 42 {
        -4
    } else if i == 43 {
        -10
    } else if i == 44 {
        3
    } else if i == 45 {
        3
    } else if i == 46 {
        33
    } else if i == 47 {
        -12
    } else if i == 48 {
        -35
    } else if i == 49 {
        -1
    } else if i == 50 {
        -20
    } else if i == 51 {
        -23
    } else if i == 52 {
        -15
    } else if i == 53 {
        24
    } else if i == 54 {
        38
    } else if i == 55 {
        -22
    } else if i == 56 {
        0
    } else if i == 57 {
        0
    } else if i == 58 {
        0
    } else if i == 59 {
        0
    } else if i == 60 {
        0
    } else if i == 61 {
        0
    } else if i == 62 {
        0
    } else {
        0
    }
}

/// The middlegame piece-square value of a knight on square `i`, seen from
/// white's side with a8 at index 0 in table order.
pub open spec fn spec_mg_knight(i: int) -> int {
    if i == 0 {
        -167
    } else if i == 1 {
        -89
    } else if i == 2 {
        -34
    } else if i == 3 {
        -49
    } else if i == 4 {
        61
    } else if i == 5 {
        -97
    } else if i == 6 {
        -15
    } else if i == 7 {
        -107
    } else if i == 8 {
        -73
    } else if i == 9 {
        -41
    } else if i == 10 {
        72
    } else if i == 11 {
        36
    } else if i == 12 {
        23
    } else if i == 13 {
        62
    } else if i == 14 {
        7
    } else if i == 15 {
        -17
    } else if i == 16 {
        -47
    } else if i == 17 {
        60
    } else if i == 18 {
        37
    } else if i == 19 {
        65
    } else if i == 20 {
        84
    } else if i == 21 {
        129
    } else if i == 22 {
        73
    } else if i == 23 {
        44
    } else if i == 24 {
        -9
    } else if i == 25 {
        17
    } else if i == 26 {
        19
    } else if i == 27 {
        53
    } else if i == 28 {
        37
    } else if i == 29 {
        69
    } else if i == 30 {
        18
    } else if i == 31 {
        22
    } else if i == 32 {
        -13
    } else if i == 33 {
        4
    } else if i == 34 {
        16
    } else if i == 35 {
        13
    } else if i == 36 {
        28
    } else if i == 37 {
        19
    } else if i == 38 {
        21
    } else if i == 39 {
        -8
    } else if i == 40 {
        -23
    } else if i == 41 {
        -9
    } else if i == 42 {
        12
    } else if i == 43 {
        10
    } else if i == 44 {
        19
    } else if i == 45 {
        17
    } else if i == 46 {
        25
    } else if i == 47 {
        -16
    } else if i == 48 {
        -29
    } else if i == 49 {
        -53
    } else if i == 50 {
        -12
    } else if i == 51 {
        -3
    } else if i == 52 {
        -1
    } else if i == 53 {
        18
    } else if i == 54 {
        -14
    } else if i == 55 {
        -19
    } else if i == 56 {
        -105
    } else if i == 57 {
        -21
    } else if i == 58 {
        -58
    } else if i == 59 {
        -33
    } else if i == 60 {
        -17
    } else if i == 61 {
        -28
    } else if i == 62 {
        -19
    } else {
        -23
    }
}

pub proof fn lemma_mg_knight_bounds(i: int)
    ensures
        -250 <= spec_mg_knight(i) <= 250,
{
}

fn mg_knight(i: usize) -> (r: i64)
    requires
        i < 64,
    ensures
        r == spec_mg_knight(i as int),
{
    if i == 0 {
        -167
    } else if i == 1 {
        -89
    } else if i == 2 {
        -34
    } else if i == 3 {
        -49
    } else if i == 4 {
        61
    } else if i == 5 {
        -97
    } else if i == 6 {
        -15
    } else if i == 7 {
        -107
    } else if i == 8 {
        -73
    } else if i == 9 {
        -41
    } else if i == 10 {
        72
    } else if i == 11 {
        36
    } else if i == 12 {
        23
    } else if i == 13 {
        62
    } else if i == 14 {
        7
    } else if i == 15 {
        -17
    } else if i == 16 {
        -47
    } else if i == 17 {
        60
    } else if i == 18 {
        37
    } else if i == 19 {
        65
    } else if i == 20 {
        84
    } else if i == 21 {
        129
    } else if i == 22 {
        73
    } else if i == 23 {
        44
    } else if i == 24 {
        -9
    } else if i == 25 {
        17
    } else if i == 26 {
        19
    } else if i == 27 {
        53
    } else if i == 28 {
        37
    } else if i == 29 {
        69
    } else if i == 30 {
        18
    } else if i == 31 {
        22
    } else if i == 32 {
        -13
    } else if i == 33 {
        4
    } else if i == 34 {
        16
    } else if i == 35 {
        13
    } else if i == 36 {
        28
    } else if i == 37 {
        19
    } else if i == 38 {
        21
    } else if i == 39 {
        -8
    } else if i == 40 {
        -23
    } else if i == 41 {
        -9
    } else if i == 42 {
        12
    } else if i == 43 {
        10
    } else if i == 44 {
        19
    } else if i == 45 {
        17
    } else if i == 46 {
        25
    } else if i == 47 {
        -16
    } else if i == 48 {
        -29
    } else if i == 49 {
        -53
    } else if i == 50 {
        -12
    } else if i == 51 {
        -3
    } else if i == 52 {
        -1
    } else if i == 53 {
        18
    } else if i == 54 {
        -14
    } else if i == 55 {
        -19
    } else if i == 56 {
        -105
    } else if i == 57 {
        -21
    } else if i == 58 {
        -58
    } else if i == 59 {
        -33
    } else if i == 60 {
        -17
    } else if i == 61 {
        -28
    } else if i == 62 {
        -19
    } else {
        -23
    }
}

/// The middlegame piece-square value of a bishop on square `i`, seen from
/// white's side with a8 at index 0 in table order.
pub open spec fn spec_mg_bishop(i: int) -> int {
    if i == 0 {
        -29
    } else if i == 1 {
        4
    } else if i == 2 {
        -82
    } else if i == 3 {
        -37
    } else if i == 4 {
        -25
    } else if i == 5 {
        -42
    } else if i == 6 {
        7
    } else if i == 7 {
        -8
    } else if i == 8 {
        -26
    } else if i == 9 {
        16
    } else if i == 10 {
        -18
    } else if i == 11 {
        -13
    } else if i == 12 {
        30
    } else if i == 13 {
        59
    } else if i == 14 {
        18
    } else if i == 15 {
        -47
    } else if i == 16 {
        -16
    } else if i == 17 {
        37
    } else if i == 18 {
        43
    } else if i == 19 {
        40
    } else if i == 20 {
        35
    } else if i == 21 {
        50
    } else if i == 22 {
        37
    } else if i == 23 {
        -2
    } else if i == 24 {
        -4
    } else if i == 25 {
        5
    } else if i == 26 {
        19
    } else if i == 27 {
        50
    } else if i == 28 {
        37
    } else if i == 29 {
        37
    } else if i == 30 {
        7
    } else if i == 31 {
        -2
    } else if i == 32 {
        -6
    } else if i == 33 {
        13
    } else if i == 34 {
        13
    } else if i == 35 {
        26
    } else if i == 36 {
        34
    } else if i == 37 {
        12
    } else if i == 38 {
        10
    } else if i == 39 {
        4
    } else if i == 40 {
        0
    } else if i == 41 {
        15
    } else if i == 42 {
        15
    } else if i == 43 {
        15
    } else if i == 44 {
        14
    } else if i == 45 {
        27
    } else if i == 46 {
        18
    } else if i == 47 {
        10
    } else if i == 48 {
        4
    } else if i == 49 {
        15
    } else if i == 50 {
        16
    } else if i == 51 {
        0
    } else if i == 52 {
        7
    } else if i == 53 {
        21
    } else if i == 54 {
        33
    } else if i == 55 {
        1
    } else if i == 56 {
        -33
    } else if i == 57 {
        -3
    } else if i == 58 {
        -14
    } else if i == 59 {
        -21
    } else if i == 60 {
        -13
    } else if i == 61 {
        -12
    } else if i == 62 {
        -39
    } else {
        -21
    }
}

pub proof fn lemma_mg_bishop_bounds(i: int)
    ensures
        -250 <= spec_mg_bishop(i) <= 250,
{
}

fn mg_bishop(i: usize) -> (r: i64)
    requires
        i < 64,
    ensures
        r == spec_mg_bishop(i as int),
{
    if i == 0 {
        -29
    } else if i == 1 {
        4
    } else if i == 2 {
        -82
    } else if i == 3 {
        -37
    } else if i == 4 {
        -25
    } else if i == 5 {
        -42
    } else if i == 6 {
        7
    } else if i == 7 {
        -8
    } else if i == 8 {
        -26
    } else if i == 9 {
        16
    } else if i == 10 {
        -18
    } else if i == 11 {
        -13
    } else if i == 12 {
        30
    } else if i == 13 {
        59
    } else if i == 14 {
        18
    } else if i == 15 {
        -47
    } else if i == 16 {
        -16
    } else if i == 17 {
        37
    } else if i == 18 {
        43
    } else if i == 19 {
        40
    } else if i == 20 {
        35
    } else if i == 21 {
        50
    } else if i == 22 {
        37
    } else if i == 23 {
        -2
    } else if i == 24 {
        -4
    } else if i == 25 {
        5
    } else if i == 26 {
        19
    } else if i == 27 {
        50
    } else if i == 28 {
        37
    } else if i == 29 {
        37
    } else if i == 30 {
        7
    } else if i == 31 {
        -2
    } else if i == 32 {
        -6
    } else if i == 33 {
        13
    } else if i == 34 {
        13
    } else if i == 35 {
        26
    } else if i == 36 {
        34
    } else if i == 37 {
        12
    } else if i == 38 {
        10
    } else if i == 39 {
        4
    } else if i == 40 {
        0
    } else if i == 41 {
        15
    } else if i == 42 {
        15
    } else if i == 43 {
        15
    } else if i == 44 {
        14
    } else if i == 45 {
        27
    } else if i == 46 {
        18
    } else if i == 47 {
        10
    } else if i == 48 {
        4
    } else if i == 49 {
        15
    } else if i == 50 {
        16
    } else if i == 51 {
        0
    } else if i == 52 {
        7
    } else if i == 53 {
        21
    } else if i == 54 {
        33
    } else if i == 55 {
        1
    } else if i == 56 {
        -33
    } else if i == 57 {
        -3
    } else if i == 58 {
        -14
    } else if i == 59 {
        -21
    } else if i == 60 {
        -13
    } else if i == 61 {
        -12
    } else if i == 62 {
        -39
    } else {
        -21
    }
}

/// The middlegame piece-square value of a rook on square `i`, seen from
/// white's side with a8 at index 0 in table order.
pub open spec fn spec_mg_rook(i: int) -> int {
    if i == 0 {
        32
    } else if i == 1 {
        42
    } else if i == 2 {
        32
    } else if i == 3 {
        51
    } else if i == 4 {
        63
    } else if i == 5 {
        9
    } else if i == 6 {
        31
    } else if i == 7 {
        43
    } else if i == 8 {
        27
    } else if i == 9 {
        32
    } else if i == 10 {
        58
    } else if i == 11 {
        62
    } else if i == 12 {
        80
    } else if i == 13 {
        67
    } else if i == 14 {
        26
    } else if i == 15 {
        44
    } else if i == 16 {
        -5
    } else if i == 17 {
        19
    } else if i == 18 {
        26
    } else if i == 19 {
        36
    } else if i == 20 {
        17
    } else if i == 21 {
        45
    } else if i == 22 {
        61
    } else if i == 23 {
        16
    } else if i == 24 {
        -24
    } else if i == 25 {
        -11
    } else if i == 26 {
        7
    } else if i == 27 {
        26
    } else if i == 28 {
        24
    } else if i == 29 {
        35
    } else if i == 30 {
        -8
    } else if i == 31 {
        -20
    } else if i == 32 {
        -36
    } else if i == 33 {
        -26
    } else if i == 34 {
        -12
    } else if i == 35 {
        -1
    } else if i == 36 {
        9
    } else if i == 37 {
        -7
    } else if i == 38 {
        6
    } else if i == 39 {
        -23
    } else if i == 40 {
        -45
    } else if i == 41 {
        -25
    } else if i == 42 {
        -16
    } else if i == 43 {
        -17
    } else if i == 44 {
        3
    } else if i == 45 {
        0
    } else if i == 46 {
        -5
    } else if i == 47 {
        -33
    } else if i == 48 {
        -44
    } else if i == 49 {
        -16
    } else if i == 50 {
        -20
    } else if i == 51 {
        -9
    } else if i == 52 {
        -1
    } else if i == 53 {
        11
    } else if i == 54 {
        -6
    } else if i == 55 {
        -71
    } else if i == 56 {
        -19
    } else if i == 57 {
        -13
    } else if i == 58 {
        1
    } else if i == 59 {
        17
    } else if i == 60 {
        16
    } else if i == 61 {
        7
    } else if i == 62 {
        -37
    } else {
        -26
    }
}

pub proof fn lemma_mg_rook_bounds(i: int)
    ensures
        -250 <= spec_mg_rook(i) <= 250,
{
}

fn mg_rook(i: usize) -> (r: i64)
    requires
        i < 64,
    ensures
        r == spec_mg_rook(i as int),
{
    if i == 0 {
        32
    } else if i == 1 {
        42
    } else if i == 2 {
        32
    } else if i == 3 {
        51
    } else if i == 4 {
        63
    } else if i == 5 {
        9
    } else if i == 6 {
        31
    } else if i == 7 {
        43
    } else if i == 8 {
        27
    } else if i == 9 {
        32
    } else if i == 10 {
        58
    } else if i == 11 {
        62
    } else if i == 12 {
        80
    } else if i == 13 {
        67
    } else if i == 14 {
        26
    } else if i == 15 {
        44
    } else if i == 16 {
        -5
    } else if i == 17 {
        19
    } else if i == 18 {
        26
    } else if i == 19 {
        36
    } else if i == 20 {
        17
    } else if i == 21 {
        45
    } else if i == 22 {
        61
    } else if i == 23 {
        16
    } else if i == 24 {
        -24
    } else if i == 25 {
        -11
    } else if i == 26 {
        7
    } else if i == 27 {
        26
    } else if i == 28 {
        24
    } else if i == 29 {
        35
    } else if i == 30 {
        -8
    } else if i == 31 {
        -20
    } else if i == 32 {
        -36
    } else if i == 33 {
        -26
    } else if i == 34 {
        -12
    } else if i == 35 {
        -1
    } else if i == 36 {
        9
    } else if i == 37 {
        -7
    } else if i == 38 {
        6
    } else if i == 39 {
        -23
    } else if i == 40 {
        -45
    } else if i == 41 {
        -25
    } else if i == 42 {
        -16
    } else if i == 43 {
        -17
    } else if i == 44 {
        3
    } else if i == 45 {
        0
    } else if i == 46 {
        -5
    } else if i == 47 {
        -33
    } else if i == 48 {
        -44
    } else if i == 49 {
        -16
    } else if i == 50 {
        -20
    } else if i == 51 {
        -9
    } else if i == 52 {
        -1
    } else if i == 53 {
        11
    } else if i == 54 {
        -6
    } else if i == 55 {
        -71
    } else if i == 56 {
        -19
    } else if i == 57 {
        -13
    } else if i == 58 {
        1
    } else if i == 59 {
        17
    } else if i == 60 {
        16
    } else if i == 61 {
        7
    } else if i == 62 {
        -37
    } else {
        -26
    }
}

/// The middlegame piece-square value of a queen on square `i`, seen from
/// white's side with a8 at index 0 in table order.
pub open spec fn spec_mg_queen(i: int) -> int {
    if i == 0 {
        -28
    } else if i == 1 {
        0
    } else if i == 2 {
        29
    } else if i == 3 {
        12
    } else if i == 4 {
        59
    } else if i == 5 {
        44
    } else if i == 6 {
        43
    } else if i == 7 {
        45
    } else if i == 8 {
        -24
    } else if i == 9 {
        -39
    } else if i == 10 {
        -5
    } else if i == 11 {
        1
    } else if i == 12 {
        -16
    } else if i == 13 {
        57
    } else if i == 14 {
        28
    } else if i == 15 {
        54
    } else if i == 16 {
        -13
    } else if i == 17 {
        -17
    } else if i == 18 {
        7
    } else if i == 19 {
        8
    } else if i == 20 {
        29
    } else if i == 21 {
        56
    } else if i == 22 {
        47
    } else if i == 23 {
        57
    } else if i == 24 {
        -27
    } else if i == 25 {
        -27
    } else if i == 26 {
        -16
    } else if i == 27 {
        -16
    } else if i == 28 {
        -1
    } else if i == 29 {
        17
    } else if i == 30 {
        -2
    } else if i == 31 {
        1
    } else if i == 32 {
        -9
    } else if i == 33 {
        -26
    } else if i == 34 {
        -9
    } else if i == 35 {
        -10
    } else if i == 36 {
        -2
    } else if i == 37 {
        -4
    } else if i == 38 {
        3
    } else if i == 39 {
        -3
    } else if i == 40 {
        -14
    } else if i == 41 {
        2
    } else if i == 42 {
        -11
    } else if i == 43 {
        -2
    } else if i == 44 {
        -5
    } else if i == 45 {
        2
    } else if i == 46 {
        14
    } else if i == 47 {
        5
    } else if i == 48 {
        -35
    } else if i == 49 {
        -8
    } else if i == 50 {
        11
    } else if i == 51 {
        2
    } else if i == 52 {
        8
    } else if i == 53 {
        15
    } else if i == 54 {
        -3
    } else if i == 55 {
        1
    } else if i == 56 {
        -1
    } else if i == 57 {
        -18
    } else if i == 58 {
        -9
    } else if i == 59 {
        10
    } else if i == 60 {
        -15
    } else if i == 61 {
        -25
    } else if i == 62 {
        -31
    } else {
        -50
    }
}

pub proof fn lemma_mg_queen_bounds(i: int)
    ensures
        -250 <= spec_mg_queen(i) <= 250,
{
}

fn mg_queen(i: usize) -> (r: i64)
    requires
        i < 64,
    ensures
        r == spec_mg_queen(i as int),
{
    if i == 0 {
        -28
    } else if i == 1 {
        0
    } else if i == 2 {
        29
    } else if i == 3 {
        12
    } else if i == 4 {
        59
    } else if i == 5 {
        44
    } else if i == 6 {
        43
    } else if i == 7 {
        45
    } else if i == 8 {
        -24
    } else if i == 9 {
        -39
    } else if i == 10 {
        -5
    } else if i == 11 {
        1
    } else if i == 12 {
        -16
    } else if i == 13 {
        57
    } else if i == 14 {
        28
    } else if i == 15 {
        54
    } else if i == 16 {
        -13
    } else if i == 17 {
        -17
    } else if i == 18 {
        7
    } else if i == 19 {
        8
    } else if i == 20 {
        29
    } else if i == 21 {
        56
    } else if i == 22 {
        47
    } else if i == 23 {
        57
    } else if i == 24 {
        -27
    } else if i == 25 {
        -27
    } else if i == 26 {
        -16
    } else if i == 27 {
        -16
    } else if i == 28 {
        -1
    } else if i == 29 {
        17
    } else if i == 30 {
        -2
    } else if i == 31 {
        1
    } else if i == 32 {
        -9
    } else if i == 33 {
        -26
    } else if i == 34 {
        -9
    } else if i == 35 {
        -10
    } else if i == 36 {
        -2
    } else if i == 37 {
        -4
    } else if i == 38 {
        3
    } else if i == 39 {
        -3
    } else if i == 40 {
        -14
    } else if i == 41 {
        2
    } else if i == 42 {
        -11
    } else if i == 43 {
        -2
    } else if i == 44 {
        -5
    } else if i == 45 {
        2
    } else if i == 46 {
        14
    } else if i == 47 {
        5
    } else if i == 48 {
        -35
    } else if i == 49 {
        -8
    } else if i == 50 {
        11
    } else if i == 51 {
        2
    } else if i == 52 {
        8
    } else if i == 53 {
        15
    } else if i == 54 {
        -3
    } else if i == 55 {
        1
    } else if i == 56 {
        -1
    } else if i == 57 {
        -18
    } else if i == 58 {
        -9
    } else if i == 59 {
        10
    } else if i == 60 {
        -15
    } else if i == 61 {
        -25
    } else if i == 62 {
        -31
    } else {
        -50
    }
}

/// The middlegame piece-square value of a king on square `i`, seen from
/// white's side with a8 at index 0 in table order.
pub open spec fn spec_mg_king(i: int) -> int {
    if i == 0 {
        -65
    } else if i == 1 {
        23
    } else if i == 2 {
        16
    } else if i == 3 {
        -15
    } else if i == 4 {
        -56
    } else if i == 5 {
        -34
    } else if i == 6 {
        2
    } else if i == 7 {
        13
    } else if i == 8 {
        29
    } else if i == 9 {
        -1
    } else if i == 10 {
        -20
    } else if i == 11 {
        -7
    } else if i == 12 {
        -8
    } else if i == 13 {
        -4
    } else if i == 14 {
        -38
    } else if i == 15 {
        -29
    } else if i == 16 {
        -9
    } else if i == 17 {
        24
    } else if i == 18 {
        2
    } else if i == 19 {
        -16
    } else if i == 20 {
        -20
    } else if i == 21 {
        6
    } else if i == 22 {
        22
    } else if i == 23 {
        -22
    } else if i == 24 {
        -17
    } else if i == 25 {
        -20
    } else if i == 26 {
        -12
    } else if i == 27 {
        -27
    } else if i == 28 {
        -30
    } else if i == 29 {
        -25
    } else if i == 30 {
        -14
    } else if i == 31 {
        -36
    } else if i == 32 {
        -49
    } else if i == 33 {
        -1
    } else if i == 34 {
        -27
    } else if i == 35 {
        -39
    } else if i == 36 {
        -46
    } else if i == 37 {
        -44
    } else if i == 38 {
        -33
    } else if i == 39 {
        -51
    } else if i == 40 {
        -14
    } else if i == 41 {
        -14
    } else if i == 42 {
        -22
    } else if i == 43 {
        -46
    } else if i == 44 {
        -44
    } else if i == 45 {
        -30
    } else if i == 46 {
        -15
    } else if i == 47 {
        -27
    } else if i == 48 {
        1
    } else if i == 49 {
        7
    } else if i == 50 {
        -8
    } else if i == 51 {
        -64
    } else if i == 52 {
        -43
    } else if i == 53 {
        -16
    } else if i == 54 {
        9
    } else if i == 55 {
        8
    } else if i == 56 {
        -15
    } else if i == 57 {
        36
    } else if i == 58 {
        12
    } else if i == 59 {
        -54
    } else if i == 60 {
        8
    } else if i == 61 {
        -28
    } else if i == 62 {
        24
    } else {
        14
    }
}

pub proof fn lemma_mg_king_bounds(i: int)
    ensures
        -250 <= spec_mg_king(i) <= 250,
{
}

fn mg_king(i: usize) -> (r: i64)
    requires
        i < 64,
    ensures
        r == spec_mg_king(i as int),
{
    if i == 0 {
        -65
    } else if i == 1 {
        23
    } else if i == 2 {
        16
    } else if i == 3 {
        -15
    } else if i == 4 {
        -56
    } else if i == 5 {
        -34
    } else if i == 6 {
        2
    } else if i == 7 {
        13
    } else if i == 8 {
        29
    } else if i == 9 {
        -1
    } else if i == 10 {
        -20
    } else if i == 11 {
        -7
    } else if i == 12 {
        -8
    } else if i == 13 {
        -4
    } else if i == 14 {
        -38
    } else if i == 15 {
        -29
    } else if i == 16 {
        -9
    } else if i == 17 {
        24
    } else if i == 18 {
        2
    } else if i == 19 {
        -16
    } else if i == 20 {
        -20
    } else if i == 21 {
        6
    } else if i == 22 {
        22
    } else if i == 23 {
        -22
    } else if i == 24 {
        -17
    } else if i == 25 {
        -20
    } else if i == 26 {
        -12
    } else if i == 27 {
        -27
    } else if i == 28 {
        -30
    } else if i == 29 {
        -25
    } else if i == 30 {
        -14
    } else if i == 31 {
        -36
    } else if i == 32 {
        -49
    } else if i == 33 {
        -1
    } else if i == 34 {
        -27
    } else if i == 35 {
        -39
    } else if i == 36 {
        -46
    } else if i == 37 {
        -44
    } else if i == 38 {
        -33
    } else if i == 39 {
        -51
    } else if i == 40 {
        -14
    } else if i == 41 {
        -14
    } else if i == 42 {
        -22
    } else if i == 43 {
        -46
    } else if i == 44 {
        -44
    } else if i == 45 {
        -30
    } else if i == 46 {
        -15
    } else if i == 47 {
        -27
    } else if i == 48 {
        1
    } else if i == 49 {
        7
    } else if i == 50 {
        -8
    } else if i == 51 {
        -64
    } else if i == 52 {
        -43
    } else if i == 53 {
        -16
    } else if i == 54 {
        9
    } else if i == 55 {
        8
    } else if i == 56 {
        -15
    } else if i == 57 {
        36
    } else if i == 58 {
        12
    } else if i == 59 {
        -54
    } else if i == 60 {
        8
    } else if i == 61 {
        -28
    } else if i == 62 {
        24
    } else {
        14
    }
}

/// The endgame piece-square value of a pawn on square `i`, seen from
/// white's side with a8 at index 0 in table order.
pub open spec fn spec_eg_pawn(i: int) -> int {
    if i == 0 {
        0
    } else if i == 1 {
        0
    } else if i == 2 {
        0
    } else if i == 3 {
        0
    } else if i == 4 {
        0
    } else if i == 5 {
        0
    } else if i == 6 {
        0
    } else if i == 7 {
        0
    } else if i == 8 {
        178
    } else if i == 9 {
        173
    } else if i == 10 {
        158
    } else if i == 11 {
        134
    } else if i == 12 {
        147
    } else if i == 13 {
        132
    } else if i == 14 {
        165
    } else if i == 15 {
        187
    } else if i == 16 {
        94
    } else if i == 17 {
        100
    } else if i == 18 {
        85
    } else if i == 19 {
        67
    } else if i == 20 {
        56
    } else if i == 21 {
        53
    } else if i == 22 {
        82
    } else if i == 23 {
        84
    } else if i == 24 {
        32
    } else if i == 25 {
        24
    } else if i == 26 {
        13
    } else if i == 27 {
        5
    } else if i == 28 {
        -2
    } else if i == 29 {
        4
    } else if i == 30 {
        17
    } else if i == 31 {
        17
    } else if i == 32 {
        13
    } else if i == 33 {
        9
    } else if i == 34 {
        -3
    } else if i == 35 {
        -7
    } else if i == 36 {
        -7
    } else if i == 37 {
        -8
    } else if i == 38 {
        3
    } else if i == 39 {
        -1
    } else if i == 40 {
        4
    } else if i == 41 {
        7
    } else if i == 42 {
        -6
    } else if i == 43 {
        1
    } else if i == 44 {
        0
    } else if i == 45 {
        -5
    } else if i == 46 {
        -1
    } else if i == 47 {
        -8
    } else if i == 48 {
        13
    } else if i == 49 {
        8
    } else if i == 50 {
        8
    } else if i == 51 {
        10
    } else if i == 52 {
        13
    } else if i == 53 {
        0
    } else if i == 54 {
        2
    } else if i == 55 {
        -7
    } else if i == 56 {
        0
    } else if i == 57 {
        0
    } else if i == 58 {
        0
    } else if i == 59 {
        0
    } else if i == 60 {
        0
    } else if i == 61 {
        0
    } else if i == 62 {
        0
    } else {
        0
    }
}

pub proof fn lemma_eg_pawn_bounds(i: int)
    ensures
        -250 <= spec_eg_pawn(i) <= 250,
{
}

fn eg_pawn(i: usize) -> (r: i64)
    requires
        i < 64,
    ensures
        r == spec_eg_pawn(i as int),
{
    if i == 0 {
        0
    } else if i == 1 {
        0
    } else if i == 2 {
        0
    } else if i == 3 {
        0
    } else if i == 4 {
        0
    } else if i == 5 {
        0
    } else if i == 6 {
        0
    } else if i == 7 {
        0
    } else if i == 8 {
        178
    } else if i == 9 {
        173
    } else if i == 10 {
        158
    } else if i == 11 {
        134
    } else if i == 12 {
        147
    } else if i == 13 {
        132
    } else if i == 14 {
        165
    } else if i == 15 {
        187
    } else if i == 16 {
        94
    } else if i == 17 {
        100
    } else if i == 18 {
        85
    } else if i == 19 {
        67
    } else if i == 20 {
        56
    } else if i == 21 {
        53
    } else if i == 22 {
        82
    } else if i == 23 {
        84
    } else if i == 24 {
        32
    } else if i == 25 {
        24
    } else if i == 26 {
        13
    } else if i == 27 {
        5
    } else if i == 28 {
        -2
    } else if i == 29 {
        4
    } else if i == 30 {
        17
    } else if i == 31 {
        17
    } else if i == 32 {
        13
    } else if i == 33 {
        9
    } else if i == 34 {
        -3
    } else if i == 35 {
        -7
    } else if i == 36 {
        -7
    } else if i == 37 {
        -8
    } else if i == 38 {
        3
    } else if i == 39 {
        -1
    } else if i == 40 {
        4
    } else if i == 41 {
        7
    } else if i == 42 {
        -6
    } else if i == 43 {
        1
    } else if i == 44 {
        0
    } else if i == 45 {
        -5
    } else if i == 46 {
        -1
    } else if i == 47 {
        -8
    } else if i == 48 {
        13
    } else if i == 49 {
        8
    } else if i == 50 {
        8
    } else if i == 51 {
        10
    } else if i == 52 {
        13
    } else if i == 53 {
        0
    } else if i == 54 {
        2
    } else if i == 55 {
        -7
    } else if i == 56 {
        0
    } else if i == 57 {
        0
    } else if i == 58 {
        0
    } else if i == 59 {
        0
    } else if i == 60 {
        0
    } else if i == 61 {
        0
    } else if i == 62 {
        0
    } else {
        0
    }
}

/// The endgame piece-square value of a knight on square `i`, seen from
/// white's side with a8 at index 0 in table order.
pub open spec fn spec_eg_knight(i: int) -> int {
    if i == 0 {
        -58
    } else if i == 1 {
        -38
    } else if i == 2 {
        -13
    } else if i == 3 {
        -28
    } else if i == 4 {
        -31
    } else if i == 5 {
        -27
    } else if i == 6 {
        -63
    } else if i == 7 {
        -99
    } else if i == 8 {
        -25
    } else if i == 9 {
        -8
    } else if i == 10 {
        -25
    } else if i == 11 {
        -2
    } else if i == 12 {
        -9
    } else if i == 13 {
        -25
    } else if i == 14 {
        -24
    } else if i == 15 {
        -52
    } else if i == 16 {
        -24
    } else if i == 17 {
        -20
    } else if i == 18 {
        10
    } else if i == 19 {
        9
    } else if i == 20 {
        -1
    } else if i == 21 {
        -9
    } else if i == 22 {
        -19
    } else if i == 23 {
        -41
    } else if i == 24 {
        -17
    } else if i == 25 {
        3
    } else if i == 26 {
        22
    } else if i == 27 {
        22
    } else if i == 28 {
        22
    } else if i == 29 {
        11
    } else if i == 30 {
        8
    } else if i == 31 {
        -18
    } else if i == 32 {
        -18
    } else if i == 33 {
        -6
    } else if i == 34 {
        16
    } else if i == 35 {
        25
    } else if i == 36 {
        16
    } else if i == 37 {
        17
    } else if i == 38 {
        4
    } else if i == 39 {
        -18
    } else if i == 40 {
        -23
    } else if i == 41 {
        -3
    } else if i == 42 {
        -1
    } else if i == 43 {
        15
    } else if i == 44 {
        10
    } else if i == 45 {
        -3
    } else if i == 46 {
        -20
    } else if i == 47 {
        -22
    } else if i == 48 {
        -42
    } else if i == 49 {
        -20
    } else if i == 50 {
        -10
    } else if i == 51 {
        -5
    } else if i == 52 {
        -2
    } else if i == 53 {
        -20
    } else if i == 54 {
        -23
    } else if i == 55 {
        -44
    } else if i == 56 {
        -29
    } else if i == 57 {
        -51
    } else if i == 58 {
        -23
    } else if i == 59 {
        -15
    } else if i == 60 {
        -22
    } else if i == 61 {
        -18
    } else if i == 62 {
        -50
    } else {
        -64
    }
}

pub proof fn lemma_eg_knight_bounds(i: int)
    ensures
        -250 <= spec_eg_knight(i) <= 250,
{
}

fn eg_knight(i: usize) -> (r: i64)
    requires
        i < 64,
    ensures
        r == spec_eg_knight(i as int),
{
    if i == 0 {
        -58
    } else if i == 1 {
        -38
    } else if i == 2 {
        -13
    } else if i == 3 {
        -28
    } else if i == 4 {
        -31
    } else if i == 5 {
        -27
    } else if i == 6 {
        -63
    } else if i == 7 {
        -99
    } else if i == 8 {
        -25
    } else if i == 9 {
        -8
    } else if i == 10 {
        -25
    } else if i == 11 {
        -2
    } else if i == 12 {
        -9
    } else if i == 13 {
        -25
    } else if i == 14 {
        -24
    } else if i == 15 {
        -52
    } else if i == 16 {
        -24
    } else if i == 17 {
        -20
    } else if i == 18 {
        10
    } else if i == 19 {
        9
    } else if i == 20 {
        -1
    } else if i == 21 {
        -9
    } else if i == 22 {
        -19
    } else if i == 23 {
        -41
    } else if i == 24 {
        -17
    } else if i == 25 {
        3
    } else if i == 26 {
        22
    } else if i == 27 {
        22
    } else if i == 28 {
        22
    } else if i == 29 {
        11
    } else if i == 30 {
        8
    } else if i == 31 {
        -18
    } else if i == 32 {
        -18
    } else if i == 33 {
        -6
    } else if i == 34 {
        16
    } else if i == 35 {
        25
    } else if i == 36 {
        16
    } else if i == 37 {
        17
    } else if i == 38 {
        4
    } else if i == 39 {
        -18
    } else if i == 40 {
        -23
    } else if i == 41 {
        -3
    } else if i == 42 {
        -1
    } else if i == 43 {
        15
    } else if i == 44 {
        10
    } else if i == 45 {
        -3
    } else if i == 46 {
        -20
    } else if i == 47 {
        -22
    } else if i == 48 {
        -42
    } else if i == 49 {
        -20
    } else if i == 50 {
        -10
    } else if i == 51 {
        -5
    } else if i == 52 {
        -2
    } else if i == 53 {
        -20
    } else if i == 54 {
        -23
    } else if i == 55 {
        -44
    } else if i == 56 {
        -29
    } else if i == 57 {
        -51
    } else if i == 58 {
        -23
    } else if i == 59 {
        -15
    } else if i == 60 {
        -22
    } else if i == 61 {
        -18
    } else if i == 62 {
        -50
    } else {
        -64
    }
}

/// The endgame piece-square value of a bishop on square `i`, seen from
/// white's side with a8 at index 0 in table order.
pub open spec fn spec_eg_bishop(i: int) -> int {
    if i == 0 {
        -14
    } else if i == 1 {
        -21
    } else if i == 2 {
        -11
    } else if i == 3 {
        -8
    } else if i == 4 {
        -7
    } else if i == 5 {
        -9
    } else if i == 6 {
        -17
    } else if i == 7 {
        -24
    } else if i == 8 {
        -8
    } else if i == 9 {
        -4
    } else if i == 10 {
        7
    } else if i == 11 {
        -12
    } else if i == 12 {
        -3
    } else if i == 13 {
        -13
    } else if i == 14 {
        -4
    } else if i == 15 {
        -14
    } else if i == 16 {
        2
    } else if i == 17 {
        -8
    } else if i == 18 {
        0
    } else if i == 19 {
        -1
    } else if i == 20 {
        -2
    } else if i == 21 {
        6
    } else if i == 22 {
        0
    } else if i == 23 {
        4
    } else if i == 24 {
        -3
    } else if i == 25 {
        9
    } else if i == 26 {
        12
    } else if i == 27 {
        9
    } else if i == 28 {
        14
    } else if i == 29 {
        10
    } else if i == 30 {
        3
    } else if i == 31 {
        2
    } else if i == 32 {
        -6
    } else if i == 33 {
        3
    } else if i == 34 {
        13
    } else if i == 35 {
        19
    } else if i == 36 {
        7
    } else if i == 37 {
        10
    } else if i == 38 {
        -3
    } else if i == 39 {
        -9
    } else if i == 40 {
        -12
    } else if i == 41 {
        -3
    } else if i == 42 {
        8
    } else if i == 43 {
        10
    } else if i == 44 {
        13
    } else if i == 45 {
        3
    } else if i == 46 {
        -7
    } else if i == 47 {
        -15
    } else if i == 48 {
        -14
    } else if i == 49 {
        -18
    } else if i == 50 {
        -7
    } else if i == 51 {
        -1
    } else if i == 52 {
        4
    } else if i == 53 {
        -9
    } else if i == 54 {
        -15
    } else if i == 55 {
        -27
    } else if i == 56 {
        -23
    } else if i == 57 {
        -9
    } else if i == 58 {
        -23
    } else if i == 59 {
        -5
    } else if i == 60 {
        -9
    } else if i == 61 {
        -16
    } else if i == 62 {
        -5
    } else {
        -17
    }
}

pub proof fn lemma_eg_bishop_bounds(i: int)
    ensures
        -250 <= spec_eg_bishop(i) <= 250,
{
}

fn eg_bishop(i: usize) -> (r: i64)
    requires
        i < 64,
    ensures
        r == spec_eg_bishop(i as int),
{
    if i == 0 {
        -14
    } else if i == 1 {
        -21
    } else if i == 2 {
        -11
    } else if i == 3 {
        -8
    } else if i == 4 {
        -7
    } else if i == 5 {
        -9
    } else if i == 6 {
        -17
    } else if i == 7 {
        -24
    } else if i == 8 {
        -8
    } else if i == 9 {
        -4
    } else if i == 10 {
        7
    } else if i == 11 {
        -12
    } else if i == 12 {
        -3
    } else if i == 13 {
        -13
    } else if i == 14 {
        -4
    } else if i == 15 {
        -14
    } else if i == 16 {
        2
    } else if i == 17 {
        -8
    } else if i == 18 {
        0
    } else if i == 19 {
        -1
    } else if i == 20 {
        -2
    } else if i == 21 {
        6
    } else if i == 22 {
        0
    } else if i == 23 {
        4
    } else if i == 24 {
        -3
    } else if i == 25 {
        9
    } else if i == 26 {
        12
    } else if i == 27 {
        9
    } else if i == 28 {
        14
    } else if i == 29 {
        10
    } else if i == 30 {
        3
    } else if i == 31 {
        2
    } else if i == 32 {
        -6
    } else if i == 33 {
        3
    } else if i == 34 {
        13
    } else if i == 35 {
        19
    } else if i == 36 {
        7
    } else if i == 37 {
        10
    } else if i == 38 {
        -3
    } else if i == 39 {
        -9
    } else if i == 40 {
        -12
    } else if i == 41 {
        -3
    } else if i == 42 {
        8
    } else if i == 43 {
        10
    } else if i == 44 {
        13
    } else if i == 45 {
        3
    } else if i == 46 {
        -7
    } else if i == 47 {
        -15
    } else if i == 48 {
        -14
    } else if i == 49 {
        -18
    } else if i == 50 {
        -7
    } else if i == 51 {
        -1
    } else if i == 52 {
        4
    } else if i == 53 {
        -9
    } else if i == 54 {
        -15
    } else if i == 55 {
        -27
    } else if i == 56 {
        -23
    } else if i == 57 {
        -9
    } else if i == 58 {
        -23
    } else if i == 59 {
        -5
    } else if i == 60 {
        -9
    } else if i == 61 {
        -16
    } else if i == 62 {
        -5
    } else {
        -17
    }
}

/// The endgame piece-square value of a rook on square `i`, seen from
/// white's side with a8 at index 0 in table order.
pub open spec fn spec_eg_rook(i: int) -> int {
    if i == 0 {
        13
    } else if i == 1 {
        10
    } else if i == 2 {
        18
    } else if i == 3 {
        15
    } else if i == 4 {
        12
    } else if i == 5 {
        12
    } else if i == 6 {
        8
    } else if i == 7 {
        5
    } else if i == 8 {
        11
    } else if i == 9 {
        13
    } else if i == 10 {
        13
    } else if i == 11 {
        11
    } else if i == 12 {
        -3
    } else if i == 13 {
        3
    } else if i == 14 {
        8
    } else if i == 15 {
        3
    } else if i == 16 {
        7
    } else if i == 17 {
        7
    } else if i == 18 {
        7
    } else if i == 19 {
        5
    } else if i == 20 {
        4
    } else if i == 21 {
        -3
    } else if i == 22 {
        -5
    } else if i == 23 {
        -3
    } else if i == 24 {
        4
    } else if i == 25 {
        3
    } else if i == 26 {
        13
    } else if i == 27 {
        1
    } else if i == 28 {
        2
    } else if i == 29 {
        1
    } else if i == 30 {
        -1
    } else if i == 31 {
        2
    } else if i == 32 {
        3
    } else if i == 33 {
        5
    } else if i == 34 {
        8
    } else if i == 35 {
        4
    } else if i == 36 {
        -5
    } else if i == 37 {
        -6
    } else if i == 38 {
        -8
    } else if i == 39 {
        -11
    } else if i == 40 {
        -4
    } else if i == 41 {
        0
    } else if i == 42 {
        -5
    } else if i == 43 {
        -1
    } else if i == 44 {
        -7
    } else if i == 45 {
        -12
    } else if i == 46 {
        -8
    } else if i == 47 {
        -16
    } else if i == 48 {
        -6
    } else if i == 49 {
        -6
    } else if i == 50 {
        0
    } else if i == 51 {
        2
    } else if i == 52 {
        -9
    } else if i == 53 {
        -9
    } else if i == 54 {
        -11
    } else if i == 55 {
        -3
    } else if i == 56 {
        -9
    } else if i == 57 {
        2
    } else if i == 58 {
        3
    } else if i == 59 {
        -1
    } else if i == 60 {
        -5
    } else if i == 61 {
        -13
    } else if i == 62 {
        4
    } else {
        -20
    }
}

pub proof fn lemma_eg_rook_bounds(i: int)
    ensures
        -250 <= spec_eg_rook(i) <= 250,
{
}

fn eg_rook(i: usize) -> (r: i64)
    requires
        i < 64,
    ensures
        r == spec_eg_rook(i as int),
{
    if i == 0 {
        13
    } else if i == 1 {
        10
    } else if i == 2 {
        18
    } else if i == 3 {
        15
    } else if i == 4 {
        12
    } else if i == 5 {
        12
    } else if i == 6 {
        8
    } else if i == 7 {
        5
    } else if i == 8 {
        11
    } else if i == 9 {
        13
    } else if i == 10 {
        13
    } else if i == 11 {
        11
    } else if i == 12 {
        -3
    } else if i == 13 {
        3
    } else if i == 14 {
        8
    } else if i == 15 {
        3
    } else if i == 16 {
        7
    } else if i == 17 {
        7
    } else if i == 18 {
        7
    } else if i == 19 {
        5
    } else if i == 20 {
        4
    } else if i == 21 {
        -3
    } else if i == 22 {
        -5
    } else if i == 23 {
        -3
    } else if i == 24 {
        4
    } else if i == 25 {
        3
    } else if i == 26 {
        13
    } else if i == 27 {
        1
    } else if i == 28 {
        2
    } else if i == 29 {
        1
    } else if i == 30 {
        -1
    } else if i == 31 {
        2
    } else if i == 32 {
        3
    } else if i == 33 {
        5
    } else if i == 34 {
        8
    } else if i == 35 {
        4
    } else if i == 36 {
        -5
    } else if i == 37 {
        -6
    } else if i == 38 {
        -8
    } else if i == 39 {
        -11
    } else if i == 40 {
        -4
    } else if i == 41 {
        0
    } else if i == 42 {
        -5
    } else if i == 43 {
        -1
    } else if i == 44 {
        -7
    } else if i == 45 {
        -12
    } else if i == 46 {
        -8
    } else if i == 47 {
        -16
    } else if i == 48 {
        -6
    } else if i == 49 {
        -6
    } else if i == 50 {
        0
    } else if i == 51 {
        2
    } else if i == 52 {
        -9
    } else if i == 53 {
        -9
    } else if i == 54 {
        -11
    } else if i == 55 {
        -3
    } else if i == 56 {
        -9
    } else if i == 57 {
        2
    } else if i == 58 {
        3
    } else if i == 59 {
        -1
    } else if i == 60 {
        -5
    } else if i == 61 {
        -13
    } else if i == 62 {
        4
    } else {
        -20
    }
}

/// The endgame piece-square value of a queen on square `i`, seen from
/// white's side with a8 at index 0 in table order.
pub open spec fn spec_eg_queen(i: int) -> int {
    if i == 0 {
        -9
    } else if i == 1 {
        22
    } else if i == 2 {
        22
    } else if i == 3 {
        27
    } else if i == 4 {
        27
    } else if i == 5 {
        19
    } else if i == 6 {
        10
    } else if i == 7 {
        20
    } else if i == 8 {
        -17
    } else if i == 9 {
        20
    } else if i == 10 {
        32
    } else if i == 11 {
        41
    } else if i == 12 {
        58
    } else if i == 13 {
        25
    } else if i == 14 {
        30
    } else if i == 15 {
        0
    } else if i == 16 {
        -20
    } else if i == 17 {
        6
    } else if i == 18 {
        9
    } else if i == 19 {
        49
    } else if i == 20 {
        47
    } else if i == 21 {
        35
    } else if i == 22 {
        19
    } else if i == 23 {
        9
    } else if i == 24 {
        3
    } else if i == 25 {
        22
    } else if i == 26 {
        24
    } else if i == 27 {
        45
    } else if i == 28 {
        57
    } else if i == 29 {
        40
    } else if i == 30 {
        57
    } else if i == 31 {
        36
    } else if i == 32 {
        -18
    } else if i == 33 {
        28
    } else if i == 34 {
        19
    } else if i == 35 {
        47
    } else if i == 36 {
        31
    } else if i == 37 {
        34
    } else if i == 38 {
        39
    } else if i == 39 {
        23
    } else if i == 40 {
        -16
    } else if i == 41 {
        -27
    } else if i == 42 {
        15
    } else if i == 43 {
        6
    } else if i == 44 {
        9
    } else if i == 45 {
        17
    } else if i == 46 {
        10
    } else if i == 47 {
        5
    } else if i == 48 {
        -22
    } else if i == 49 {
        -23
    } else if i == 50 {
        -30
    } else if i == 51 {
        -16
    } else if i == 52 {
        -16
    } else if i == 53 {
        -23
    } else if i == 54 {
        -36
    } else if i == 55 {
        -32
    } else if i == 56 {
        -33
    } else if i == 57 {
        -28
    } else if i == 58 {
        -22
    } else if i == 59 {
        -43
    } else if i == 60 {
        -5
    } else if i == 61 {
        -32
    } else if i == 62 {
        -20
    } else {
        -41
    }
}

pub proof fn lemma_eg_queen_bounds(i: int)
    ensures
        -250 <= spec_eg_queen(i) <= 250,
{
}

fn eg_queen(i: usize) -> (r: i64)
    requires
        i < 64,
    ensures
        r == spec_eg_queen(i as int),
{
    if i == 0 {
        -9
    } else if i == 1 {
        22
    } else if i == 2 {
        22
    } else if i == 3 {
        27
    } else if i == 4 {
        27
    } else if i == 5 {
        19
    } else if i == 6 {
        10
    } else if i == 7 {
        20
    } else if i == 8 {
        -17
    } else if i == 9 {
        20
    } else if i == 10 {
        32
    } else if i == 11 {
        41
    } else if i == 12 {
        58
    } else if i == 13 {
        25
    } else if i == 14 {
        30
    } else if i == 15 {
        0
    } else if i == 16 {
        -20
    } else if i == 17 {
        6
    } else if i == 18 {
        9
    } else if i == 19 {
        49
    } else if i == 20 {
        47
    } else if i == 21 {
        35
    } else if i == 22 {
        19
    } else if i == 23 {
        9
    } else if i == 24 {
        3
    } else if i == 25 {
        22
    } else if i == 26 {
        24
    } else if i == 27 {
        45
    } else if i == 28 {
        57
    } else if i == 29 {
        40
    } else if i == 30 {
        57
    } else if i == 31 {
        36
    } else if i == 32 {
        -18
    } else if i == 33 {
        28
    } else if i == 34 {
        19
    } else if i == 35 {
        47
    } else if i == 36 {
        31
    } else if i == 37 {
        34
    } else if i == 38 {
        39
    } else if i == 39 {
        23
    } else if i == 40 {
        -16
    } else if i == 41 {
        -27
    } else if i == 42 {
        15
    } else if i == 43 {
        6
    } else if i == 44 {
        9
    } else if i == 45 {
        17
    } else if i == 46 {
        10
    } else if i == 47 {
        5
    } else if i == 48 {
        -22
    } else if i == 49 {
        -23
    } else if i == 50 {
        -30
    } else if i == 51 {
        -16
    } else if i == 52 {
        -16
    } else if i == 53 {
        -23
    } else if i == 54 {
        -36
    } else if i == 55 {
        -32
    } else if i == 56 {
        -33
    } else if i == 57 {
        -28
    } else if i == 58 {
        -22
    } else if i == 59 {
        -43
    } else if i == 60 {
        -5
    } else if i == 61 {
        -32
    } else if i == 62 {
        -20
    } else {
        -41
    }
}

/// The endgame piece-square value of a king on square `i`, seen from
/// white's side with a8 at index 0 in table order.
pub open spec fn spec_eg_king(i: int) -> int {
    if i == 0 {
        -74
    } else if i == 1 {
        -35
    } else if i == 2 {
        -18
    } else if i == 3 {
        -18
    } else if i == 4 {
        -11
    } else if i == 5 {
        15
    } else if i == 6 {
        4
    } else if i == 7 {
        -17
    } else if i == 8 {
        -12
    } else if i == 9 {
        17
    } else if i == 10 {
        14
    } else if i == 11 {
        17
    } else if i == 12 {
        17
    } else if i == 13 {
        38
    } else if i == 14 {
        23
    } else if i == 15 {
        11
    } else if i == 16 {
        10
    } else if i == 17 {
        17
    } else if i == 18 {
        23
    } else if i == 19 {
        15
    } else if i == 20 {
        20
    } else if i == 21 {
        45
    } else if i == 22 {
        44
    } else if i == 23 {
        13
    } else if i == 24 {
        -8
    } else if i == 25 {
        22
    } else if i == 26 {
        24
    } else if i == 27 {
        27
    } else if i == 28 {
        26
    } else if i == 29 {
        33
    } else if i == 30 {
        26
    } else if i == 31 {
        3
    } else if i == 32 {
        -18
    } else if i == 33 {
        -4
    } else if i == 34 {
        21
    } else if i == 35 {
        24
    } else if i == 36 {
        27
    } else if i == 37 {
        23
    } else if i == 38 {
        9
    } else if i == 39 {
        -11
    } else if i == 40 {
        -19
    } else if i == 41 {
        -3
    } else if i == 42 {
        11
    } else if i == 43 {
        21
    } else if i == 44 {
        23
    } else if i == 45 {
        16
    } else if i == 46 {
        7
    } else if i == 47 {
        -9
    } else if i == 48 {
        -27
    } else if i == 49 {
        -11
    } else if i == 50 {
        4
    } else if i == 51 {
        13
    } else if i == 52 {
        14
    } else if i == 53 {
        4
    } else if i == 54 {
        -5
    } else if i == 55 {
        -17
    } else if i == 56 {
        -53
    } else if i == 57 {
        -34
    } else if i == 58 {
        -21
    } else if i == 59 {
        -11
    } else if i == 60 {
        -28
    } else if i == 61 {
        -14
    } else if i == 62 {
        -24
    } else {
        -43
    }
}

pub proof fn lemma_eg_king_bounds(i: int)
    ensures
        -250 <= spec_eg_king(i) <= 250,
{
}

fn eg_king(i: usize) -> (r: i64)
    requires
        i < 64,
    ensures
        r == spec_eg_king(i as int),
{
    if i == 0 {
        -74
    } else if i == 1 {
        -35
    } else if i == 2 {
        -18
    } else if i == 3 {
        -18
    } else if i == 4 {
        -11
    } else if i == 5 {
        15
    } else if i == 6 {
        4
    } else if i == 7 {
        -17
    } else if i == 8 {
        -12
    } else if i == 9 {
        17
    } else if i == 10 {
        14
    } else if i == 11 {
        17
    } else if i == 12 {
        17
    } else if i == 13 {
        38
    } else if i == 14 {
        23
    } else if i == 15 {
        11
    } else if i == 16 {
        10
    } else if i == 17 {
        17
    } else if i == 18 {
        23
    } else if i == 19 {
        15
    } else if i == 20 {
        20
    } else if i == 21 {
        45
    } else if i == 22 {
        44
    } else if i == 23 {
        13
    } else if i == 24 {
        -8
    } else if i == 25 {
        22
    } else if i == 26 {
        24
    } else if i == 27 {
        27
    } else if i == 28 {
        26
    } else if i == 29 {
        33
    } else if i == 30 {
        26
    } else if i == 31 {
        3
    } else if i == 32 {
        -18
    } else if i == 33 {
        -4
    } else if i == 34 {
        21
    } else if i == 35 {
        24
    } else if i == 36 {
        27
    } else if i == 37 {
        23
    } else if i == 38 {
        9
    } else if i == 39 {
        -11
    } else if i == 40 {
        -19
    } else if i == 41 {
        -3
    } else if i == 42 {
        11
    } else if i == 43 {
        21
    } else if i == 44 {
        23
    } else if i == 45 {
        16
    } else if i == 46 {
        7
    } else if i == 47 {
        -9
    } else if i == 48 {
        -27
    } else if i == 49 {
        -11
    } else if i == 50 {
        4
    } else if i == 51 {
        13
    } else if i == 52 {
        14
    } else if i == 53 {
        4
    } else if i == 54 {
        -5
    } else if i == 55 {
        -17
    } else if i == 56 {
        -53
    } else if i == 57 {
        -34
    } else if i == 58 {
        -21
    } else if i == 59 {
        -11
    } else if i == 60 {
        -28
    } else if i == 61 {
        -14
    } else if i == 62 {
        -24
    } else {
        -43
    }
}
/// A table entry times a single bit stays within the entry's bounds.
proof fn lemma_entry_times_bit(e: int, bit: int)
    requires
        -250 <= e <= 250,
        0 <= bit <= 1,
    ensures
        -250 <= e * bit <= 250,
{
    if bit == 0 {
        assert(e * bit == 0);
    } else {
        assert(e * bit == e);
    }
}

/// The bit index a color reads square `k` at: black mirrors the board.
pub open spec fn spec_square_index(k: int, color: Color) -> int {
    if color == Color::Black {
        63 - k
    } else {
        k
    }
}

/// The table index of nominal square `k`: the tables are written with the
/// eighth rank first, so the rank is flipped.
pub open spec fn spec_table_index(k: int) -> int {
    (7 - k / 8) * 8 + k % 8
}

/// One square's contribution to the raw middlegame piece-square sum.
pub open spec fn spec_pst_square_mg(b: chess::Board, c: Color, k: int) -> int {
    let i = spec_square_index(k, c);
    let t = spec_table_index(k);
    let mine = color_bb_of(b, c);
    spec_mg_pawn(t) * spec_bit64(mine & pieces_bb_of(b, PieceKind::Pawn), i) + spec_mg_knight(t)
        * spec_bit64(mine & pieces_bb_of(b, PieceKind::Knight), i) + spec_mg_bishop(t)
        * spec_bit64(mine & pieces_bb_of(b, PieceKind::Bishop), i) + spec_mg_rook(t) * spec_bit64(
        mine & pieces_bb_of(b, PieceKind::Rook),
        i,
    ) + spec_mg_queen(t) * spec_bit64(mine & pieces_bb_of(b, PieceKind::Queen), i) + spec_mg_king(t)
        * spec_bit64(mine & pieces_bb_of(b, PieceKind::King), i)
}

/// One square's contribution to the raw endgame piece-square sum.
pub open spec fn spec_pst_square_eg(b: chess::Board, c: Color, k: int) -> int {
    let i = spec_square_index(k, c);
    let t = spec_table_index(k);
    let mine = color_bb_of(b, c);
    spec_eg_pawn(t) * spec_bit64(mine & pieces_bb_of(b, PieceKind::Pawn), i) + spec_eg_knight(t)
        * spec_bit64(mine & pieces_bb_of(b, PieceKind::Knight), i) + spec_eg_bishop(t)
        * spec_bit64(mine & pieces_bb_of(b, PieceKind::Bishop), i) + spec_eg_rook(t) * spec_bit64(
        mine & pieces_bb_of(b, PieceKind::Rook),
        i,
    ) + spec_eg_queen(t) * spec_bit64(mine & pieces_bb_of(b, PieceKind::Queen), i) + spec_eg_king(t)
        * spec_bit64(mine & pieces_bb_of(b, PieceKind::King), i)
}

/// The raw middlegame piece-square sum over the first `n` squares.
pub open spec fn spec_pst_raw_mg(b: chess::Board, c: Color, n: int) -> int
    decreases n,
{
    if n <= 0 {
        0
    } else {
        spec_pst_raw_mg(b, c, n - 1) + spec_pst_square_mg(b, c, n - 1)
    }
}

/// The raw endgame piece-square sum over the first `n` squares.
pub open spec fn spec_pst_raw_eg(b: chess::Board, c: Color, n: int) -> int
    decreases n,
{
    if n <= 0 {
        0
    } else {
        spec_pst_raw_eg(b, c, n - 1) + spec_pst_square_eg(b, c, n - 1)
    }
}

proof fn lemma_pst_contrib_mg_bounds(b: chess::Board, c: Color, k: int)
    ensures
        -1500 <= spec_pst_square_mg(b, c, k) <= 1500,
{
    let i = spec_square_index(k, c);
    let t = spec_table_index(k);
    let mine = color_bb_of(b, c);
    lemma_mg_pawn_bounds(t);
    lemma_mg_knight_bounds(t);
    lemma_mg_bishop_bounds(t);
    lemma_mg_rook_bounds(t);
    lemma_mg_queen_bounds(t);
    lemma_mg_king_bounds(t);
    lemma_bit64_le_one(mine & pieces_bb_of(b, PieceKind::Pawn), i);
    lemma_bit64_le_one(mine & pieces_bb_of(b, PieceKind::Knight), i);
    lemma_bit64_le_one(mine & pieces_bb_of(b, PieceKind::Bishop), i);
    lemma_bit64_le_one(mine & pieces_bb_of(b, PieceKind::Rook), i);
    lemma_bit64_le_one(mine & pieces_bb_of(b, PieceKind::Queen), i);
    lemma_bit64_le_one(mine & pieces_bb_of(b, PieceKind::King), i);
    lemma_entry_times_bit(spec_mg_pawn(t), spec_bit64(mine & pieces_bb_of(b, PieceKind::Pawn), i));
    lemma_entry_times_bit(spec_mg_knight(t), spec_bit64(mine & pieces_bb_of(b, PieceKind::Knight), i));
    lemma_entry_times_bit(spec_mg_bishop(t), spec_bit64(mine & pieces_bb_of(b, PieceKind::Bishop), i));
    lemma_entry_times_bit(spec_mg_rook(t), spec_bit64(mine & pieces_bb_of(b, PieceKind::Rook), i));
    lemma_entry_times_bit(spec_mg_queen(t), spec_bit64(mine & pieces_bb_of(b, PieceKind::Queen), i));
    lemma_entry_times_bit(spec_mg_king(t), spec_bit64(mine & pieces_bb_of(b, PieceKind::King), i));
}

proof fn lemma_pst_contrib_eg_bounds(b: chess::Board, c: Color, k: int)
    ensures
        -1500 <= spec_pst_square_eg(b, c, k) <= 1500,
{
    let i = spec_square_index(k, c);
    let t = spec_table_index(k);
    let mine = color_bb_of(b, c);
    lemma_eg_pawn_bounds(t);
    lemma_eg_knight_bounds(t);
    lemma_eg_bishop_bounds(t);
    lemma_eg_rook_bounds(t);
    lemma_eg_queen_bounds(t);
    lemma_eg_king_bounds(t);
    lemma_bit64_le_one(mine & pieces_bb_of(b, PieceKind::Pawn), i);
    lemma_bit64_le_one(mine & pieces_bb_of(b, PieceKind::Knight), i);
    lemma_bit64_le_one(mine & pieces_bb_of(b, PieceKind::Bishop), i);
    lemma_bit64_le_one(mine & pieces_bb_of(b, PieceKind::Rook), i);
    lemma_bit64_le_one(mine & pieces_bb_of(b, PieceKind::Queen), i);
    lemma_bit64_le_one(mine & pieces_bb_of(b, PieceKind::King), i);
    lemma_entry_times_bit(spec_eg_pawn(t), spec_bit64(mine & pieces_bb_of(b, PieceKind::Pawn), i));
    lemma_entry_times_bit(spec_eg_knight(t), spec_bit64(mine & pieces_bb_of(b, PieceKind::Knight), i));
    lemma_entry_times_bit(spec_eg_bishop(t), spec_bit64(mine & pieces_bb_of(b, PieceKind::Bishop), i));
    lemma_entry_times_bit(spec_eg_rook(t), spec_bit64(mine & pieces_bb_of(b, PieceKind::Rook), i));
    lemma_entry_times_bit(spec_eg_queen(t), spec_bit64(mine & pieces_bb_of(b, PieceKind::Queen), i));
    lemma_entry_times_bit(spec_eg_king(t), spec_bit64(mine & pieces_bb_of(b, PieceKind::King), i));
}

proof fn lemma_pst_raw_mg_bounds(b: chess::Board, c: Color, n: int)
    requires
        0 <= n,
    ensures
        -1500 * n <= spec_pst_raw_mg(b, c, n) <= 1500 * n,
    decreases n,
{
    if n > 0 {
        lemma_pst_raw_mg_bounds(b, c, n - 1);
        lemma_pst_contrib_mg_bounds(b, c, n - 1);
    }
}

proof fn lemma_pst_raw_eg_bounds(b: chess::Board, c: Color, n: int)
    requires
        0 <= n,
    ensures
        -1500 * n <= spec_pst_raw_eg(b, c, n) <= 1500 * n,
    decreases n,
{
    if n > 0 {
        lemma_pst_raw_eg_bounds(b, c, n - 1);
        lemma_pst_contrib_eg_bounds(b, c, n - 1);
    }
}

/// The blended-weight middlegame piece-square term of one color: the raw
/// sum, faded out as the opening ends, divided by 24, in score units.
pub open spec fn spec_pst_mg_value(b: chess::Board, c: Color) -> int {
    tdiv(
        spec_pst_raw_mg(b, c, 64) * ((PROB_ONE as int) - spec_early_prob(b)) * (SCALE as int),
        24 * (PROB_ONE as int),
    )
}

/// The blended-weight endgame piece-square term of one color.
pub open spec fn spec_pst_eg_value(b: chess::Board, c: Color) -> int {
    tdiv(
        spec_pst_raw_eg(b, c, 64) * ((PROB_ONE as int) - spec_early_prob(b)) * (SCALE as int),
        24 * (PROB_ONE as int),
    )
}

pub proof fn lemma_pst_mg_value_bounds(b: chess::Board, c: Color)
    ensures
        -PST_TERM_BOUND <= spec_pst_mg_value(b, c) <= PST_TERM_BOUND,
{
    lemma_pst_raw_mg_bounds(b, c, 64);
    chessutil::lemma_early_prob_bounds(b);
    let raw = spec_pst_raw_mg(b, c, 64);
    let w = (PROB_ONE as int) - spec_early_prob(b);
    assert(-(PST_TERM_BOUND as int) * (24 * (PROB_ONE as int)) <= raw * w * (SCALE as int) <= (
    PST_TERM_BOUND as int) * (24 * (PROB_ONE as int))) by (nonlinear_arith)
        requires
            -96000 <= raw <= 96000,
            0 <= w <= PROB_ONE as int,
    ;
    lemma_tdiv_range(raw * w * (SCALE as int), 24 * (PROB_ONE as int), PST_TERM_BOUND as int);
}

pub proof fn lemma_pst_eg_value_bounds(b: chess::Board, c: Color)
    ensures
        -PST_TERM_BOUND <= spec_pst_eg_value(b, c) <= PST_TERM_BOUND,
{
    lemma_pst_raw_eg_bounds(b, c, 64);
    chessutil::lemma_early_prob_bounds(b);
    let raw = spec_pst_raw_eg(b, c, 64);
    let w = (PROB_ONE as int) - spec_early_prob(b);
    assert(-(PST_TERM_BOUND as int) * (24 * (PROB_ONE as int)) <= raw * w * (SCALE as int) <= (
    PST_TERM_BOUND as int) * (24 * (PROB_ONE as int))) by (nonlinear_arith)
        requires
            -96000 <= raw <= 96000,
            0 <= w <= PROB_ONE as int,
    ;
    lemma_tdiv_range(raw * w * (SCALE as int), 24 * (PROB_ONE as int), PST_TERM_BOUND as int);
}

/// The raw middlegame piece-square sum, weighted and scaled: the tables'
/// entries of every piece the color has on the board, faded out as the
/// opening ends, divided by 24.
#[verifier::rlimit(100)]
pub fn piece_square_table_evaluate_mg(board: &chess::Board, color: Color) -> (r: i64)
    ensures
        r == spec_pst_mg_value(*board, color),
        -PST_TERM_BOUND <= r <= PST_TERM_BOUND,
{
    let ghost b = *board;
    let mine = prims::color_bitboard(board, color);
    let bb_pawns = mine & prims::pieces_bitboard(board, PieceKind::Pawn);
    let bb_knights = mine & prims::pieces_bitboard(board, PieceKind::Knight);
    let bb_bishops = mine & prims::pieces_bitboard(board, PieceKind::Bishop);
    let bb_rooks = mine & prims::pieces_bitboard(board, PieceKind::Rook);
    let bb_queens = mine & prims::pieces_bitboard(board, PieceKind::Queen);
    let bb_kings = mine & prims::pieces_bitboard(board, PieceKind::King);
    let mut acc: i64 = 0;
    let mut k: usize = 0;
    while k < 64
        invariant
            0 <= k <= 64,
            bb_pawns == color_bb_of(b, color) & pieces_bb_of(b, PieceKind::Pawn),
            bb_knights == color_bb_of(b, color) & pieces_bb_of(b, PieceKind::Knight),
            bb_bishops == color_bb_of(b, color) & pieces_bb_of(b, PieceKind::Bishop),
            bb_rooks == color_bb_of(b, color) & pieces_bb_of(b, PieceKind::Rook),
            bb_queens == color_bb_of(b, color) & pieces_bb_of(b, PieceKind::Queen),
            bb_kings == color_bb_of(b, color) & pieces_bb_of(b, PieceKind::King),
            acc == spec_pst_raw_mg(b, color, k as int),
            -1500 * k <= acc <= 1500 * k,
        decreases 64 - k,
    {
        proof {
            lemma_pst_contrib_mg_bounds(b, color, k as int);
        }
        let idx: usize = if matches!(color, Color::Black) {
            63 - k
        } else {
            k
        };
        let sh = idx as u64;
        let t: usize = (7 - k / 8) * 8 + k % 8;
        let e_pawn = mg_pawn(t);
        let e_knight = mg_knight(t);
        let e_bishop = mg_bishop(t);
        let e_rook = mg_rook(t);
        let e_queen = mg_queen(t);
        let e_king = mg_king(t);
        let b_pawn = ((bb_pawns >> sh) & 1) as i64;
        let b_knight = ((bb_knights >> sh) & 1) as i64;
        let b_bishop = ((bb_bishops >> sh) & 1) as i64;
        let b_rook = ((bb_rooks >> sh) & 1) as i64;
        let b_queen = ((bb_queens >> sh) & 1) as i64;
        let b_king = ((bb_kings >> sh) & 1) as i64;
        proof {
            lemma_mg_pawn_bounds(t as int);
            lemma_mg_knight_bounds(t as int);
            lemma_mg_bishop_bounds(t as int);
            lemma_mg_rook_bounds(t as int);
            lemma_mg_queen_bounds(t as int);
            lemma_mg_king_bounds(t as int);
            lemma_bit64_le_one(bb_pawns, idx as int);
            lemma_bit64_le_one(bb_knights, idx as int);
            lemma_bit64_le_one(bb_bishops, idx as int);
            lemma_bit64_le_one(bb_rooks, idx as int);
            lemma_bit64_le_one(bb_queens, idx as int);
            lemma_bit64_le_one(bb_kings, idx as int);
            lemma_entry_times_bit(e_pawn as int, b_pawn as int);
            lemma_entry_times_bit(e_knight as int, b_knight as int);
            lemma_entry_times_bit(e_bishop as int, b_bishop as int);
            lemma_entry_times_bit(e_rook as int, b_rook as int);
            lemma_entry_times_bit(e_queen as int, b_queen as int);
            lemma_entry_times_bit(e_king as int, b_king as int);
        }
        let square_term: i64 = e_pawn * b_pawn + e_knight * b_knight + e_bishop * b_bishop + e_rook
            * b_rook + e_queen * b_queen + e_king * b_king;
        proof {
            assert(square_term == spec_pst_square_mg(b, color, k as int));
        }
        acc = acc + square_term;
        k = k + 1;
    }
    let w: u32 = PROB_ONE - chessutil::early_game_probability(board);
    proof {
        chessutil::lemma_early_prob_bounds(b);
        lemma_pst_mg_value_bounds(b, color);
        assert(-100663296000 <= (acc as int) * (w as int) <= 100663296000
            && -1006632960000000000 <= (acc as int) * (w as int) * (SCALE as int)
            <= 1006632960000000000) by (nonlinear_arith)
            requires
                -96000 <= acc as int <= 96000,
                0 <= w as int <= 1048576,
        ;
    }
    tdiv64(acc * (w as i64) * SCALE, 24 * (PROB_ONE as i64))
}

/// The raw endgame piece-square sum, weighted and scaled as the middlegame
/// one is.
#[verifier::rlimit(100)]
pub fn piece_square_table_evaluate_eg(board: &chess::Board, color: Color) -> (r: i64)
    ensures
        r == spec_pst_eg_value(*board, color),
        -PST_TERM_BOUND <= r <= PST_TERM_BOUND,
{
    let ghost b = *board;
    let mine = prims::color_bitboard(board, color);
    let bb_pawns = mine & prims::pieces_bitboard(board, PieceKind::Pawn);
    let bb_knights = mine & prims::pieces_bitboard(board, PieceKind::Knight);
    let bb_bishops = mine & prims::pieces_bitboard(board, PieceKind::Bishop);
    let bb_rooks = mine & prims::pieces_bitboard(board, PieceKind::Rook);
    let bb_queens = mine & prims::pieces_bitboard(board, PieceKind::Queen);
    let bb_kings = mine & prims::pieces_bitboard(board, PieceKind::King);
    let mut acc: i64 = 0;
    let mut k: usize = 0;
    while k < 64
        invariant
            0 <= k <= 64,
            bb_pawns == color_bb_of(b, color) & pieces_bb_of(b, PieceKind::Pawn),
            bb_knights == color_bb_of(b, color) & pieces_bb_of(b, PieceKind::Knight),
            bb_bishops == color_bb_of(b, color) & pieces_bb_of(b, PieceKind::Bishop),
            bb_rooks == color_bb_of(b, color) & pieces_bb_of(b, PieceKind::Rook),
            bb_queens == color_bb_of(b, color) & pieces_bb_of(b, PieceKind::Queen),
            bb_kings == color_bb_of(b, color) & pieces_bb_of(b, PieceKind::King),
            acc == spec_pst_raw_eg(b, color, k as int),
            -1500 * k <= acc <= 1500 * k,
        decreases 64 - k,
    {
        proof {
            lemma_pst_contrib_eg_bounds(b, color, k as int);
        }
        let idx: usize = if matches!(color, Color::Black) {
            63 - k
        } else {
            k
        };
        let sh = idx as u64;
        let t: usize = (7 - k / 8) * 8 + k % 8;
        let e_pawn = eg_pawn(t);
        let e_knight = eg_knight(t);
        let e_bishop = eg_bishop(t);
        let e_rook = eg_rook(t);
        let e_queen = eg_queen(t);
        let e_king = eg_king(t);
        let b_pawn = ((bb_pawns >> sh) & 1) as i64;
        let b_knight = ((bb_knights >> sh) & 1) as i64;
        let b_bishop = ((bb_bishops >> sh) & 1) as i64;
        let b_rook = ((bb_rooks >> sh) & 1) as i64;
        let b_queen = ((bb_queens >> sh) & 1) as i64;
        let b_king = ((bb_kings >> sh) & 1) as i64;
        proof {
            lemma_eg_pawn_bounds(t as int);
            lemma_eg_knight_bounds(t as int);
            lemma_eg_bishop_bounds(t as int);
            lemma_eg_rook_bounds(t as int);
            lemma_eg_queen_bounds(t as int);
            lemma_eg_king_bounds(t as int);
            lemma_bit64_le_one(bb_pawns, idx as int);
            lemma_bit64_le_one(bb_knights, idx as int);
            lemma_bit64_le_one(bb_bishops, idx as int);
            lemma_bit64_le_one(bb_rooks, idx as int);
            lemma_bit64_le_one(bb_queens, idx as int);
            lemma_bit64_le_one(bb_kings, idx as int);
            lemma_entry_times_bit(e_pawn as int, b_pawn as int);
            lemma_entry_times_bit(e_knight as int, b_knight as int);
            lemma_entry_times_bit(e_bishop as int, b_bishop as int);
            lemma_entry_times_bit(e_rook as int, b_rook as int);
            lemma_entry_times_bit(e_queen as int, b_queen as int);
            lemma_entry_times_bit(e_king as int, b_king as int);
        }
        let square_term: i64 = e_pawn * b_pawn + e_knight * b_knight + e_bishop * b_bishop + e_rook
            * b_rook + e_queen * b_queen + e_king * b_king;
        proof {
            assert(square_term == spec_pst_square_eg(b, color, k as int));
        }
        acc = acc + square_term;
        k = k + 1;
    }
    let w: u32 = PROB_ONE - chessutil::early_game_probability(board);
    proof {
        chessutil::lemma_early_prob_bounds(b);
        lemma_pst_eg_value_bounds(b, color);
        assert(-100663296000 <= (acc as int) * (w as int) <= 100663296000
            && -1006632960000000000 <= (acc as int) * (w as int) * (SCALE as int)
            <= 1006632960000000000) by (nonlinear_arith)
            requires
                -96000 <= acc as int <= 96000,
                0 <= w as int <= 1048576,
        ;
    }
    tdiv64(acc * (w as i64) * SCALE, 24 * (PROB_ONE as i64))
}

/// The pawns of one color standing on one rank.
pub open spec fn spec_pawn_row_bb(b: chess::Board, c: Color, row: int) -> u64 {
    pieces_bb_of(b, PieceKind::Pawn) & (spec_rank_mask(row) & color_bb_of(b, c))
}

/// The pawn-advancement sum over the first `n` ranks: each pawn is worth
/// `1.20^f` pawns, `f` counting ranks from the side's own back rank.
pub open spec fn spec_pawn_sum(b: chess::Board, c: Color, n: int) -> int
    decreases n,
{
    if n <= 0 {
        0
    } else {
        spec_pawn_sum(b, c, n - 1) + spec_pop64(spec_pawn_row_bb(b, c, n - 1)) * spec_pow12(
            spec_forward(n - 1, c),
        )
    }
}

pub proof fn lemma_pawn_sum_bounds(b: chess::Board, c: Color, n: int)
    requires
        0 <= n <= 8,
    ensures
        0 <= spec_pawn_sum(b, c, n) <= n * 64 * 35831808,
    decreases n,
{
    if n > 0 {
        lemma_pawn_sum_bounds(b, c, n - 1);
        lemma_pop_upto_bounds(spec_pawn_row_bb(b, c, n - 1), 64);
        lemma_pow12_bounds(spec_forward(n - 1, c));
        let p = spec_pop64(spec_pawn_row_bb(b, c, n - 1));
        let v = spec_pow12(spec_forward(n - 1, c));
        assert(0 <= p * v <= 64 * 35831808) by (nonlinear_arith)
            requires
                0 <= p <= 64,
                0 <= v <= 35831808,
        ;
    }
}

/// The material term of one color: queens, rooks, bishops and knights at
/// their values, and each pawn by its advancement.
pub open spec fn spec_material(b: chess::Board, c: Color) -> int {
    let mine = color_bb_of(b, c);
    (QUEEN_VALUE as int) * spec_pop64(pieces_bb_of(b, PieceKind::Queen) & mine) + (
    ROOK_VALUE as int) * spec_pop64(pieces_bb_of(b, PieceKind::Rook) & mine) + (BISHOP_VALUE as int)
        * spec_pop64(pieces_bb_of(b, PieceKind::Bishop) & mine) + (KNIGHT_VALUE as int)
        * spec_pop64(pieces_bb_of(b, PieceKind::Knight) & mine) + spec_pawn_sum(b, c, 8)
}

/// The center-control term of one color.
pub open spec fn spec_center_control(b: chess::Board, c: Color) -> int {
    let mine = color_bb_of(b, c);
    4000000 * spec_pop64(INNER_CENTER & mine) + 2000000 * spec_pop64(OUTER_RING & mine)
}

/// The blended piece-square term: a tenth of each phase's table value,
/// mixed by the end-game probability.
pub open spec fn spec_pst_blend(b: chess::Board, c: Color) -> int {
    let egp = spec_end_prob(b);
    let mg = tdiv(spec_pst_mg_value(b, c), 10);
    let eg = tdiv(spec_pst_eg_value(b, c), 10);
    tdiv(egp * eg + ((PROB_ONE as int) - egp) * mg, PROB_ONE as int)
}

/// The doubled pawns of one color: pawns with an own pawn directly behind
/// them on the same file.
pub open spec fn spec_doubled_bb(b: chess::Board, c: Color) -> u64 {
    let mp = color_bb_of(b, c) & pieces_bb_of(b, PieceKind::Pawn);
    if c == Color::White {
        mp & (mp << 8)
    } else {
        mp & (mp >> 8)
    }
}

/// The doubled-pawn penalty of one color.
pub open spec fn spec_doubled_penalty(b: chess::Board, c: Color) -> int {
    -4000000 * spec_pop64(spec_doubled_bb(b, c))
}

/// The own pawns directly in front of the king.
pub open spec fn spec_shield_bb(b: chess::Board, c: Color) -> u64 {
    let mine = color_bb_of(b, c);
    let mp = mine & pieces_bb_of(b, PieceKind::Pawn);
    let kb = mine & pieces_bb_of(b, PieceKind::King);
    if c == Color::White {
        (kb << 8) & mp
    } else {
        (kb >> 8) & mp
    }
}

/// The king pawn-shield bonus, fading out towards the endgame.
pub open spec fn spec_king_shield(b: chess::Board, c: Color) -> int {
    tdiv(
        12000000 * spec_pop64(spec_shield_bb(b, c)) * ((PROB_ONE as int) - spec_end_prob(b)),
        PROB_ONE as int,
    )
}

/// One color's whole evaluation: material and pawn advancement, center
/// control, blended piece-square tables, doubled-pawn penalty and king
/// pawn shield.
pub open spec fn spec_eval_color(b: chess::Board, c: Color) -> int {
    spec_material(b, c) + spec_center_control(b, c) + spec_pst_blend(b, c) + spec_doubled_penalty(
        b,
        c,
    ) + spec_king_shield(b, c)
}

/// The evaluation of a position from one side's perspective: that side's
/// score minus the opponent's.
pub open spec fn spec_evaluate(b: chess::Board, perspective: Color) -> int {
    spec_eval_color(b, perspective) - spec_eval_color(b, perspective.spec_other())
}

pub proof fn lemma_eval_color_bounds(b: chess::Board, c: Color)
    ensures
        -EVAL_COLOR_BOUND <= spec_eval_color(b, c) <= EVAL_COLOR_BOUND,
{
    let mine = color_bb_of(b, c);
    lemma_pop_upto_bounds(pieces_bb_of(b, PieceKind::Queen) & mine, 64);
    lemma_pop_upto_bounds(pieces_bb_of(b, PieceKind::Rook) & mine, 64);
    lemma_pop_upto_bounds(pieces_bb_of(b, PieceKind::Bishop) & mine, 64);
    lemma_pop_upto_bounds(pieces_bb_of(b, PieceKind::Knight) & mine, 64);
    lemma_pawn_sum_bounds(b, c, 8);
    lemma_pop_upto_bounds(INNER_CENTER & mine, 64);
    lemma_pop_upto_bounds(OUTER_RING & mine, 64);
    lemma_pst_mg_value_bounds(b, c);
    lemma_pst_eg_value_bounds(b, c);
    chessutil::lemma_end_prob_bounds(b);
    let egp = spec_end_prob(b);
    let mg = tdiv(spec_pst_mg_value(b, c), 10);
    let eg = tdiv(spec_pst_eg_value(b, c), 10);
    lemma_tdiv_range(spec_pst_mg_value(b, c), 10, 4_000_000_000);
    lemma_tdiv_range(spec_pst_eg_value(b, c), 10, 4_000_000_000);
    assert(-4_000_000_000 * (PROB_ONE as int) <= egp * eg + ((PROB_ONE as int) - egp) * mg
        <= 4_000_000_000 * (PROB_ONE as int)) by (nonlinear_arith)
        requires
            0 <= egp <= PROB_ONE as int,
            -4_000_000_000 <= mg <= 4_000_000_000,
            -4_000_000_000 <= eg <= 4_000_000_000,
    ;
    lemma_tdiv_range(egp * eg + ((PROB_ONE as int) - egp) * mg, PROB_ONE as int, 4_000_000_000);
    lemma_pop_upto_bounds(spec_doubled_bb(b, c), 64);
    lemma_pop_upto_bounds(spec_shield_bb(b, c), 64);
    let sp = spec_pop64(spec_shield_bb(b, c));
    assert(0 <= 12000000 * sp * ((PROB_ONE as int) - egp) <= 768000000 * (PROB_ONE as int))
        by (nonlinear_arith)
        requires
            0 <= sp <= 64,
            0 <= egp <= PROB_ONE as int,
    ;
    lemma_tdiv_range(12000000 * sp * ((PROB_ONE as int) - egp), PROB_ONE as int, 768000000);
}

/// No static evaluation comes close to the mate scores.
pub proof fn lemma_evaluate_bounds(b: chess::Board, perspective: Color)
    ensures
        -EVAL_BOUND <= spec_evaluate(b, perspective) <= EVAL_BOUND,
        -MATE_VALUE < spec_evaluate(b, perspective) < MATE_VALUE,
{
    lemma_eval_color_bounds(b, perspective);
    lemma_eval_color_bounds(b, perspective.spec_other());
}

/// The two sides' viewpoints are exact opposites.
pub proof fn lemma_evaluate_antisymmetric(b: chess::Board, perspective: Color)
    ensures
        spec_evaluate(b, perspective) == -spec_evaluate(b, perspective.spec_other()),
{
}

/// One color's evaluation of the position, in score units.
pub fn evaluate_for_color(board: &chess::Board, color: Color) -> (r: i64)
    ensures
        r == spec_eval_color(*board, color),
        -EVAL_COLOR_BOUND <= r <= EVAL_COLOR_BOUND,
{
    let ghost b = *board;
    proof {
        lemma_eval_color_bounds(b, color);
    }
    let mine = prims::color_bitboard(board, color);
    let all_pawns = prims::pieces_bitboard(board, PieceKind::Pawn);

    // pawn advancement
    let mut pawn_sum: i64 = 0;
    let mut row: usize = 0;
    while row < 8
        invariant
            0 <= row <= 8,
            mine == color_bb_of(b, color),
            all_pawns == pieces_bb_of(b, PieceKind::Pawn),
            pawn_sum == spec_pawn_sum(b, color, row as int),
            0 <= pawn_sum <= row * 64 * 35831808,
        decreases 8 - row,
    {
        let mask: u64 = 0xFFu64 << ((8 * row) as u64);
        let bb_row = mask & mine;
        let f = forward_pos(row, color);
        let rank_value = pow12(f);
        let pawns_on_row = popcount(all_pawns & bb_row);
        proof {
            lemma_pow12_bounds(f as int);
            let p = spec_pop64(all_pawns & bb_row);
            let v = spec_pow12(f as int);
            assert(0 <= p * v <= 64 * 35831808) by (nonlinear_arith)
                requires
                    0 <= p <= 64,
                    0 <= v <= 35831808,
            ;
        }
        pawn_sum = pawn_sum + (pawns_on_row as i64) * rank_value;
        row = row + 1;
    }

    // material
    let piece_val: i64 = QUEEN_VALUE * (popcount(prims::pieces_bitboard(board, PieceKind::Queen)
        & mine) as i64) + ROOK_VALUE * (popcount(prims::pieces_bitboard(board, PieceKind::Rook)
        & mine) as i64) + BISHOP_VALUE * (popcount(prims::pieces_bitboard(board, PieceKind::Bishop)
        & mine) as i64) + KNIGHT_VALUE * (popcount(prims::pieces_bitboard(board, PieceKind::Knight)
        & mine) as i64) + pawn_sum;

    // center control
    let control: i64 = 4000000 * (popcount(INNER_CENTER & mine) as i64) + 2000000 * (popcount(
        OUTER_RING & mine,
    ) as i64);

    // blended piece-square tables
    let pst_mg = tdiv64(piece_square_table_evaluate_mg(board, color), 10);
    let pst_eg = tdiv64(piece_square_table_evaluate_eg(board, color), 10);
    proof {
        lemma_pst_mg_value_bounds(b, color);
        lemma_pst_eg_value_bounds(b, color);
        lemma_tdiv_range(spec_pst_mg_value(b, color), 10, 4_000_000_000);
        lemma_tdiv_range(spec_pst_eg_value(b, color), 10, 4_000_000_000);
    }
    let egp = chessutil::end_game_probability(board) as i64;
    proof {
        chessutil::lemma_end_prob_bounds(b);
        assert(-4_200_000_000_000_000 <= (egp as int) * (pst_eg as int)
            <= 4_200_000_000_000_000 && -4_200_000_000_000_000 <= ((PROB_ONE as int) - egp as int)
            * (pst_mg as int) <= 4_200_000_000_000_000 && -4_000_000_000 * (PROB_ONE as int) <= (
        egp as int) * (pst_eg as int) + ((PROB_ONE as int) - egp as int) * (pst_mg as int)
            <= 4_000_000_000 * (PROB_ONE as int)) by (nonlinear_arith)
            requires
                0 <= egp as int <= PROB_ONE as int,
                -4_000_000_000 <= pst_mg as int <= 4_000_000_000,
                -4_000_000_000 <= pst_eg as int <= 4_000_000_000,
        ;
    }
    let pst_score = tdiv64(egp * pst_eg + ((PROB_ONE as i64) - egp) * pst_mg, PROB_ONE as i64);

    // doubled pawns
    let my_pawns = mine & all_pawns;
    let doubled_bb: u64 = if matches!(color, Color::White) {
        my_pawns & (my_pawns << 8u64)
    } else {
        my_pawns & (my_pawns >> 8u64)
    };
    let doubled_penalty: i64 = -4000000 * (popcount(doubled_bb) as i64);

    // king pawn shield
    let king_bb = mine & prims::pieces_bitboard(board, PieceKind::King);
    let shield_bb: u64 = if matches!(color, Color::White) {
        (king_bb << 8u64) & my_pawns
    } else {
        (king_bb >> 8u64) & my_pawns
    };
    let shield_count = popcount(shield_bb) as i64;
    proof {
        let sp = spec_pop64(spec_shield_bb(b, color));
        assert(0 <= 12000000 * sp * ((PROB_ONE as int) - egp) <= 768000000 * (PROB_ONE as int))
            by (nonlinear_arith)
            requires
                0 <= sp <= 64,
                0 <= egp as int <= PROB_ONE as int,
        ;
    }
    let king_safety = tdiv64(
        12000000 * shield_count * ((PROB_ONE as i64) - egp),
        PROB_ONE as i64,
    );

    piece_val + control + pst_score + doubled_penalty + king_safety
}

/// How good the position is from one side's perspective: that side's
/// evaluation minus the opponent's.  Always strictly between the mate
/// scores.
pub fn evaluate(board: &chess::Board, perspective: Color) -> (r: i64)
    ensures
        r == spec_evaluate(*board, perspective),
        -EVAL_BOUND <= r <= EVAL_BOUND,
{
    let eval_me = evaluate_for_color(board, perspective);
    let eval_opp = evaluate_for_color(board, perspective.other());
    eval_me - eval_opp
}

} // verus!
