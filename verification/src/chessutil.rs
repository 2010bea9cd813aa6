//! Bitboard helpers, the game-phase estimator and the move orderer.

use vstd::prelude::*;

use crate::prims::{
    self, legal_moves_of, move_dst_of, move_src_of, piece_on_of, Color, PieceKind,
};

verus! {

/// Fixed-point one for the phase probabilities: probabilities live in
/// `0 ..= PROB_ONE`.
pub const PROB_ONE: u32 = 1048576;

/// Bit `i` of a bitboard, as 0 or 1.
pub open spec fn spec_bit64(x: u64, i: int) -> int {
    if 0 <= i < 64 {
        ((x >> (i as u64)) & 1) as int
    } else {
        0
    }
}

/// The number of set bits among the low `n` bits of `x`.
pub open spec fn pop_upto(x: u64, n: int) -> int
    decreases n,
{
    if n <= 0 {
        0
    } else {
        pop_upto(x, n - 1) + spec_bit64(x, n - 1)
    }
}

/// The number of set bits of a bitboard.
pub open spec fn spec_pop64(x: u64) -> int {
    pop_upto(x, 64)
}

/// A single bit is zero or one.
pub proof fn lemma_bit64_le_one(x: u64, i: int)
    ensures
        0 <= spec_bit64(x, i) <= 1,
{
    if 0 <= i < 64 {
        let s = i as u64;
        assert((x >> s) & 1 <= 1) by (bit_vector);
    }
}

pub proof fn lemma_pop_upto_bounds(x: u64, n: int)
    requires
        0 <= n,
    ensures
        0 <= pop_upto(x, n) <= n,
    decreases n,
{
    if n > 0 {
        lemma_pop_upto_bounds(x, n - 1);
        lemma_bit64_le_one(x, n - 1);
    }
}

/// The number of set bits of a bitboard; at most 64.
pub fn popcount(x: u64) -> (r: u32)
    ensures
        r == spec_pop64(x),
        r <= 64,
{
    let mut r: u32 = 0;
    let mut i: u64 = 0;
    while i < 64
        invariant
            0 <= i <= 64,
            r == pop_upto(x, i as int),
            r <= i,
        decreases 64 - i,
    {
        proof {
            lemma_bit64_le_one(x, i as int);
        }
        r = r + ((x >> i) & 1) as u32;
        i = i + 1;
    }
    r
}

/// Extract bit `idx` of `value`, as 0 or 1.
pub fn get_bit(value: usize, idx: usize) -> (r: usize)
    requires
        idx < 64,
    ensures
        r == spec_bit64(value as u64, idx as int),
        r <= 1,
{
    let v = value as u64;
    let s = idx as u64;
    proof {
        assert((v & (1u64 << s)) >> s == (v >> s) & 1 && (v >> s) & 1 <= 1) by (bit_vector)
            requires
                s < 64,
        ;
    }
    ((v & (1u64 << s)) >> s) as usize
}

/// Two to the power `n` (and 1 for negative `n`).
pub open spec fn spec_pow2(n: int) -> int
    decreases n,
{
    if n <= 0 {
        1
    } else {
        2 * spec_pow2(n - 1)
    }
}

pub proof fn lemma_pow2_positive(n: int)
    ensures
        spec_pow2(n) >= 1,
    decreases n,
{
    if n > 0 {
        lemma_pow2_positive(n - 1);
    }
}

pub proof fn lemma_pow2_bound(n: int)
    requires
        n <= 40,
    ensures
        spec_pow2(n) <= 0x10000000000,
{
    lemma_pow2_monotone(n, 40);
    assert(spec_pow2(40) == 0x10000000000) by {
        reveal_with_fuel(spec_pow2, 41);
    }
}

/// Two to the power `n`, for small `n`.
pub fn pow2(n: u64) -> (r: u64)
    requires
        n <= 40,
    ensures
        r == spec_pow2(n as int),
        1 <= r <= 0x10000000000,
{
    proof {
        lemma_pow2_positive(n as int);
        lemma_pow2_bound(n as int);
    }
    let mut r: u64 = 1;
    let mut i: u64 = 0;
    while i < n
        invariant
            0 <= i <= n <= 40,
            r == spec_pow2(i as int),
            spec_pow2(n as int) <= 0x10000000000,
        decreases n - i,
    {
        proof {
            lemma_pow2_monotone(i as int + 1, n as int);
        }
        r = r * 2;
        i = i + 1;
    }
    r
}

pub proof fn lemma_pow2_monotone(a: int, b: int)
    requires
        a <= b,
    ensures
        spec_pow2(a) <= spec_pow2(b),
    decreases b,
{
    if a < b && b > 0 {
        lemma_pow2_monotone(a, b - 1);
        lemma_pow2_positive(b - 1);
    }
}

/// The ranks on which unmoved pawns of each side stand: the two lowest for
/// white, the two highest for black.
pub const START_RANKS_WHITE: u64 = 0xFFFF;

pub const START_RANKS_BLACK: u64 = 0xFFFF000000000000;

/// How many pawns still stand on their side's two starting ranks.
pub open spec fn spec_start_pawn_count(b: chess::Board) -> int {
    spec_pop64(
        START_RANKS_WHITE & prims::pieces_bb_of(b, PieceKind::Pawn) & prims::color_bb_of(
            b,
            Color::White,
        ),
    ) + spec_pop64(
        START_RANKS_BLACK & prims::pieces_bb_of(b, PieceKind::Pawn) & prims::color_bb_of(
            b,
            Color::Black,
        ),
    )
}

/// The logistic curve `1 - 1 / (1 + 2^(2 (p - 10)))` in fixed point.
pub open spec fn spec_early_prob_of_count(p: int) -> int {
    if p >= 10 {
        (PROB_ONE as int) * spec_pow2(2 * p - 20) / (spec_pow2(2 * p - 20) + 1)
    } else {
        (PROB_ONE as int) / (spec_pow2(20 - 2 * p) + 1)
    }
}

/// The early-game probability of a position, in fixed point.
pub open spec fn spec_early_prob(b: chess::Board) -> int {
    spec_early_prob_of_count(spec_start_pawn_count(b))
}

/// The logistic curve `1 / (1 + 2^(2 (n - 14)))` in fixed point.
pub open spec fn spec_end_prob_of_count(n: int) -> int {
    if n >= 14 {
        (PROB_ONE as int) / (spec_pow2(2 * n - 28) + 1)
    } else {
        (PROB_ONE as int) * spec_pow2(28 - 2 * n) / (spec_pow2(28 - 2 * n) + 1)
    }
}

/// The end-game probability of a position, in fixed point.
pub open spec fn spec_end_prob(b: chess::Board) -> int {
    spec_end_prob_of_count(
        spec_pop64(prims::color_bb_of(b, Color::White)) + spec_pop64(
            prims::color_bb_of(b, Color::Black),
        ),
    )
}

proof fn lemma_pow2_21_value()
    ensures
        spec_pow2(21) == 0x200000,
{
    reveal_with_fuel(spec_pow2, 22);
}

/// Once `2^e` passes the fixed-point one, the logistic saturates: the rising
/// branch sticks at `PROB_ONE - 1` and the falling branch at zero.
proof fn lemma_logistic_saturates(a: int, e: int)
    requires
        1 <= a,
        a <= spec_pow2(e),
    ensures
        a * spec_pow2(e) / (spec_pow2(e) + 1) == a - 1,
        a / (spec_pow2(e) + 1) == 0,
{
    lemma_pow2_positive(e);
    let n = spec_pow2(e);
    assert(a * n == (a - 1) * (n + 1) + (n + 1 - a)) by (nonlinear_arith);
    vstd::arithmetic::div_mod::lemma_fundamental_div_mod_converse(
        a * n,
        n + 1,
        a - 1,
        n + 1 - a,
    );
    vstd::arithmetic::div_mod::lemma_basic_div(a, n + 1);
}

proof fn lemma_logistic_bounds(a: int, e: int)
    requires
        0 <= a,
        0 <= e,
    ensures
        0 <= a * spec_pow2(e) / (spec_pow2(e) + 1) <= a,
        0 <= a / (spec_pow2(e) + 1) <= a,
{
    lemma_pow2_positive(e);
    let n = spec_pow2(e);
    assert(0 <= a * n / (n + 1) <= a) by (nonlinear_arith)
        requires
            0 <= a,
            1 <= n,
    ;
    assert(0 <= a / (n + 1) <= a) by (nonlinear_arith)
        requires
            0 <= a,
            1 <= n,
    ;
}

pub proof fn lemma_early_prob_bounds(b: chess::Board)
    ensures
        0 <= spec_early_prob(b) <= PROB_ONE,
{
    let p = spec_start_pawn_count(b);
    lemma_pop_upto_bounds(
        START_RANKS_WHITE & prims::pieces_bb_of(b, PieceKind::Pawn) & prims::color_bb_of(
            b,
            Color::White,
        ),
        64,
    );
    lemma_pop_upto_bounds(
        START_RANKS_BLACK & prims::pieces_bb_of(b, PieceKind::Pawn) & prims::color_bb_of(
            b,
            Color::Black,
        ),
        64,
    );
    if p >= 10 {
        lemma_logistic_bounds(PROB_ONE as int, 2 * p - 20);
    } else {
        lemma_logistic_bounds(PROB_ONE as int, 20 - 2 * p);
    }
}

pub proof fn lemma_end_prob_bounds(b: chess::Board)
    ensures
        0 <= spec_end_prob(b) <= PROB_ONE,
{
    let n = spec_pop64(prims::color_bb_of(b, Color::White)) + spec_pop64(
        prims::color_bb_of(b, Color::Black),
    );
    lemma_pop_upto_bounds(prims::color_bb_of(b, Color::White), 64);
    lemma_pop_upto_bounds(prims::color_bb_of(b, Color::Black), 64);
    if n >= 14 {
        lemma_logistic_bounds(PROB_ONE as int, 2 * n - 28);
    } else {
        lemma_logistic_bounds(PROB_ONE as int, 28 - 2 * n);
    }
}

/// How likely the position still belongs to the opening, as a fixed-point
/// probability in `0 ..= PROB_ONE`: near one while both sides' pawns stand
/// on their starting ranks, near zero once three or more have moved on.
pub fn early_game_probability(board: &chess::Board) -> (r: u32)
    ensures
        r == spec_early_prob(*board),
        r <= PROB_ONE,
{
    let pawns = prims::pieces_bitboard(board, PieceKind::Pawn);
    let white = prims::color_bitboard(board, Color::White);
    let black = prims::color_bitboard(board, Color::Black);
    let p = popcount(START_RANKS_WHITE & pawns & white) + popcount(
        START_RANKS_BLACK & pawns & black,
    );
    proof {
        lemma_early_prob_bounds(*board);
    }
    if p >= 10 {
        let e2 = 2 * p - 20;
        if e2 >= 21 {
            proof {
                lemma_pow2_21_value();
                lemma_pow2_monotone(21, e2 as int);
                lemma_logistic_saturates(PROB_ONE as int, e2 as int);
            }
            PROB_ONE - 1
        } else {
            let e = pow2(e2 as u64);
            (((PROB_ONE as u64) * e / (e + 1)) as u32)
        }
    } else {
        let e = pow2((20 - 2 * p) as u64);
        ((PROB_ONE as u64 / (e + 1)) as u32)
    }
}

/// How likely the position is an endgame, as a fixed-point probability in
/// `0 ..= PROB_ONE`: monotone decreasing in the number of pieces on the
/// board.
pub fn end_game_probability(board: &chess::Board) -> (r: u32)
    ensures
        r == spec_end_prob(*board),
        r <= PROB_ONE,
{
    let white = prims::color_bitboard(board, Color::White);
    let black = prims::color_bitboard(board, Color::Black);
    let n = popcount(white) + popcount(black);
    proof {
        lemma_end_prob_bounds(*board);
    }
    if n >= 14 {
        let e2 = 2 * n - 28;
        if e2 >= 21 {
            proof {
                lemma_pow2_21_value();
                lemma_pow2_monotone(21, e2 as int);
                lemma_logistic_saturates(PROB_ONE as int, e2 as int);
            }
            0
        } else {
            let e = pow2(e2 as u64);
            ((PROB_ONE as u64 / (e + 1)) as u32)
        }
    } else {
        let e = pow2((28 - 2 * n) as u64);
        (((PROB_ONE as u64) * e / (e + 1)) as u32)
    }
}

/// Whether a move lands on an occupied square of the position it is played
/// from.  (An en-passant capture lands on an empty square and therefore does
/// not count here; the move orderer treats it as quiet.)
pub open spec fn spec_is_capture(b: chess::Board, m: chess::ChessMove) -> bool {
    piece_on_of(b, move_dst_of(m)) is Some
}

/// The piece a move picks up, if any.
pub open spec fn spec_attacker(b: chess::Board, m: chess::ChessMove) -> Option<PieceKind> {
    piece_on_of(b, move_src_of(m))
}

/// The moves of `ms` that capture with the given attacker kind, in order.
pub open spec fn spec_captures_by(
    ms: Seq<chess::ChessMove>,
    b: chess::Board,
    p: PieceKind,
) -> Seq<chess::ChessMove>
    decreases ms.len(),
{
    if ms.len() == 0 {
        Seq::empty()
    } else {
        let init = spec_captures_by(ms.drop_last(), b, p);
        if spec_is_capture(b, ms.last()) && spec_attacker(b, ms.last()) == Some(p) {
            init.push(ms.last())
        } else {
            init
        }
    }
}

/// The capturing moves of `ms` whose source square reads as empty; with a
/// sound move generator there are none.
pub open spec fn spec_captures_unattributed(
    ms: Seq<chess::ChessMove>,
    b: chess::Board,
) -> Seq<chess::ChessMove>
    decreases ms.len(),
{
    if ms.len() == 0 {
        Seq::empty()
    } else {
        let init = spec_captures_unattributed(ms.drop_last(), b);
        if spec_is_capture(b, ms.last()) && spec_attacker(b, ms.last()) is None {
            init.push(ms.last())
        } else {
            init
        }
    }
}

/// The non-capturing moves of `ms`, in order.
pub open spec fn spec_quiet_moves(
    ms: Seq<chess::ChessMove>,
    b: chess::Board,
) -> Seq<chess::ChessMove>
    decreases ms.len(),
{
    if ms.len() == 0 {
        Seq::empty()
    } else {
        let init = spec_quiet_moves(ms.drop_last(), b);
        if !spec_is_capture(b, ms.last()) {
            init.push(ms.last())
        } else {
            init
        }
    }
}

/// The legal moves of a position in search-priority order: captures first,
/// grouped by the attacking piece from pawn up to king, then the quiet
/// moves, each group keeping the generator's order.
pub open spec fn spec_sorted_moves_of_list(
    ms: Seq<chess::ChessMove>,
    b: chess::Board,
) -> Seq<chess::ChessMove> {
    spec_captures_by(ms, b, PieceKind::Pawn) + spec_captures_by(ms, b, PieceKind::Knight)
        + spec_captures_by(ms, b, PieceKind::Bishop) + spec_captures_by(ms, b, PieceKind::Rook)
        + spec_captures_by(ms, b, PieceKind::Queen) + spec_captures_by(ms, b, PieceKind::King)
        + spec_captures_unattributed(ms, b) + spec_quiet_moves(ms, b)
}

/// The move orderer's output for a position.
pub open spec fn spec_sorted_moves(b: chess::Board) -> Seq<chess::ChessMove> {
    spec_sorted_moves_of_list(legal_moves_of(b), b)
}

proof fn lemma_captures_by_subset(
    ms: Seq<chess::ChessMove>,
    b: chess::Board,
    p: PieceKind,
    m: chess::ChessMove,
)
    requires
        spec_captures_by(ms, b, p).contains(m),
    ensures
        ms.contains(m),
    decreases ms.len(),
{
    if ms.len() > 0 {
        let init = spec_captures_by(ms.drop_last(), b, p);
        if m == ms.last() {
            assert(ms[ms.len() - 1] == m);
        } else {
            assert(init.contains(m)) by {
                let s = spec_captures_by(ms, b, p);
                let i = choose|i: int| 0 <= i < s.len() && s[i] == m;
                if spec_is_capture(b, ms.last()) && spec_attacker(b, ms.last()) == Some(p) {
                    assert(s == init.push(ms.last()));
                    assert(i < init.len());
                }
            }
            lemma_captures_by_subset(ms.drop_last(), b, p, m);
            let j = choose|j: int| 0 <= j < ms.drop_last().len() && ms.drop_last()[j] == m;
            assert(ms[j] == m);
        }
    }
}

proof fn lemma_captures_unattributed_subset(
    ms: Seq<chess::ChessMove>,
    b: chess::Board,
    m: chess::ChessMove,
)
    requires
        spec_captures_unattributed(ms, b).contains(m),
    ensures
        ms.contains(m),
    decreases ms.len(),
{
    if ms.len() > 0 {
        let init = spec_captures_unattributed(ms.drop_last(), b);
        if m == ms.last() {
            assert(ms[ms.len() - 1] == m);
        } else {
            assert(init.contains(m)) by {
                let s = spec_captures_unattributed(ms, b);
                let i = choose|i: int| 0 <= i < s.len() && s[i] == m;
                if spec_is_capture(b, ms.last()) && spec_attacker(b, ms.last()) is None {
                    assert(s == init.push(ms.last()));
                    assert(i < init.len());
                }
            }
            lemma_captures_unattributed_subset(ms.drop_last(), b, m);
            let j = choose|j: int| 0 <= j < ms.drop_last().len() && ms.drop_last()[j] == m;
            assert(ms[j] == m);
        }
    }
}

proof fn lemma_quiet_moves_subset(ms: Seq<chess::ChessMove>, b: chess::Board, m: chess::ChessMove)
    requires
        spec_quiet_moves(ms, b).contains(m),
    ensures
        ms.contains(m),
    decreases ms.len(),
{
    if ms.len() > 0 {
        let init = spec_quiet_moves(ms.drop_last(), b);
        if m == ms.last() {
            assert(ms[ms.len() - 1] == m);
        } else {
            assert(init.contains(m)) by {
                let s = spec_quiet_moves(ms, b);
                let i = choose|i: int| 0 <= i < s.len() && s[i] == m;
                if !spec_is_capture(b, ms.last()) {
                    assert(s == init.push(ms.last()));
                    assert(i < init.len());
                }
            }
            lemma_quiet_moves_subset(ms.drop_last(), b, m);
            let j = choose|j: int| 0 <= j < ms.drop_last().len() && ms.drop_last()[j] == m;
            assert(ms[j] == m);
        }
    }
}

/// Every move the orderer hands out is one of the moves it was given.
pub proof fn lemma_sorted_moves_subset(
    ms: Seq<chess::ChessMove>,
    b: chess::Board,
    m: chess::ChessMove,
)
    requires
        spec_sorted_moves_of_list(ms, b).contains(m),
    ensures
        ms.contains(m),
{
    let s = spec_sorted_moves_of_list(ms, b);
    let i = choose|i: int| 0 <= i < s.len() && s[i] == m;
    let s1 = spec_captures_by(ms, b, PieceKind::Pawn);
    let s2 = spec_captures_by(ms, b, PieceKind::Knight);
    let s3 = spec_captures_by(ms, b, PieceKind::Bishop);
    let s4 = spec_captures_by(ms, b, PieceKind::Rook);
    let s5 = spec_captures_by(ms, b, PieceKind::Queen);
    let s6 = spec_captures_by(ms, b, PieceKind::King);
    let s7 = spec_captures_unattributed(ms, b);
    let s8 = spec_quiet_moves(ms, b);
    if s1.contains(m) {
        lemma_captures_by_subset(ms, b, PieceKind::Pawn, m);
    } else if s2.contains(m) {
        lemma_captures_by_subset(ms, b, PieceKind::Knight, m);
    } else if s3.contains(m) {
        lemma_captures_by_subset(ms, b, PieceKind::Bishop, m);
    } else if s4.contains(m) {
        lemma_captures_by_subset(ms, b, PieceKind::Rook, m);
    } else if s5.contains(m) {
        lemma_captures_by_subset(ms, b, PieceKind::Queen, m);
    } else if s6.contains(m) {
        lemma_captures_by_subset(ms, b, PieceKind::King, m);
    } else if s7.contains(m) {
        lemma_captures_unattributed_subset(ms, b, m);
    } else {
        assert(s8.contains(m)) by {
            let l1 = s1.len();
            let l2 = l1 + s2.len();
            let l3 = l2 + s3.len();
            let l4 = l3 + s4.len();
            let l5 = l4 + s5.len();
            let l6 = l5 + s6.len();
            let l7 = l6 + s7.len();
            if i < l1 {
                assert(s1[i] == m);
            } else if i < l2 {
                assert(s2[i - l1] == m);
            } else if i < l3 {
                assert(s3[i - l2] == m);
            } else if i < l4 {
                assert(s4[i - l3] == m);
            } else if i < l5 {
                assert(s5[i - l4] == m);
            } else if i < l6 {
                assert(s6[i - l5] == m);
            } else if i < l7 {
                assert(s7[i - l6] == m);
            } else {
                assert(s8[i - l7] == m);
            }
        }
        lemma_quiet_moves_subset(ms, b, m);
    }
}

/// Is this move a capture, judged by its destination square being occupied?
pub fn move_is_capture(board: &chess::Board, m: &chess::ChessMove) -> (r: bool)
    ensures
        r == spec_is_capture(*board, *m),
{
    let dst = prims::move_dest(m);
    prims::piece_on(board, dst).is_some()
}

/// The legal moves of the position, captures first, grouped by the attacking
/// piece from pawn up to king, then the quiet moves; each group keeps the
/// move generator's order.
pub fn output_sorted_move_list(board: &chess::Board) -> (r: Vec<chess::ChessMove>)
    ensures
        r@ == spec_sorted_moves(*board),
{
    let moves = prims::legal_moves(board);
    sorted_move_list_from(board, moves)
}

/// Order an already generated move list as `output_sorted_move_list` does.
fn sorted_move_list_from(board: &chess::Board, moves: Vec<chess::ChessMove>) -> (r: Vec<
    chess::ChessMove,
>)
    ensures
        r@ == spec_sorted_moves_of_list(moves@, *board),
{
    let ghost ms = moves@;
    let mut pawn_caps: Vec<chess::ChessMove> = Vec::new();
    let mut knight_caps: Vec<chess::ChessMove> = Vec::new();
    let mut bishop_caps: Vec<chess::ChessMove> = Vec::new();
    let mut rook_caps: Vec<chess::ChessMove> = Vec::new();
    let mut queen_caps: Vec<chess::ChessMove> = Vec::new();
    let mut king_caps: Vec<chess::ChessMove> = Vec::new();
    let mut other_caps: Vec<chess::ChessMove> = Vec::new();
    let mut quiet: Vec<chess::ChessMove> = Vec::new();
    let n = moves.len();
    let mut i: usize = 0;
    while i < n
        invariant
            n == ms.len(),
            0 <= i <= n,
            moves@ == ms,
            pawn_caps@ == spec_captures_by(ms.take(i as int), *board, PieceKind::Pawn),
            knight_caps@ == spec_captures_by(ms.take(i as int), *board, PieceKind::Knight),
            bishop_caps@ == spec_captures_by(ms.take(i as int), *board, PieceKind::Bishop),
            rook_caps@ == spec_captures_by(ms.take(i as int), *board, PieceKind::Rook),
            queen_caps@ == spec_captures_by(ms.take(i as int), *board, PieceKind::Queen),
            king_caps@ == spec_captures_by(ms.take(i as int), *board, PieceKind::King),
            other_caps@ == spec_captures_unattributed(ms.take(i as int), *board),
            quiet@ == spec_quiet_moves(ms.take(i as int), *board),
        decreases n - i,
    {
        let m = prims::copy_move(&moves[i]);
        proof {
            assert(ms.take(i + 1).drop_last() == ms.take(i as int));
            assert(ms.take(i + 1).last() == ms[i as int]);
        }
        if move_is_capture(board, &m) {
            let src = prims::move_source(&m);
            match prims::piece_on(board, src) {
                Some(PieceKind::Pawn) => pawn_caps.push(m),
                Some(PieceKind::Knight) => knight_caps.push(m),
                Some(PieceKind::Bishop) => bishop_caps.push(m),
                Some(PieceKind::Rook) => rook_caps.push(m),
                Some(PieceKind::Queen) => queen_caps.push(m),
                Some(PieceKind::King) => king_caps.push(m),
                None => other_caps.push(m),
            }
        } else {
            quiet.push(m);
        }
        i = i + 1;
    }
    proof {
        assert(ms.take(n as int) == ms);
    }
    let mut out: Vec<chess::ChessMove> = pawn_caps;
    append_moves(&mut out, knight_caps);
    append_moves(&mut out, bishop_caps);
    append_moves(&mut out, rook_caps);
    append_moves(&mut out, queen_caps);
    append_moves(&mut out, king_caps);
    append_moves(&mut out, other_caps);
    append_moves(&mut out, quiet);
    out
}

/// Append every move of `src` to `dst`, in order.
fn append_moves(dst: &mut Vec<chess::ChessMove>, src: Vec<chess::ChessMove>)
    ensures
        final(dst)@ == old(dst)@ + src@,
{
    let n = src.len();
    let mut i: usize = 0;
    while i < n
        invariant
            n == src@.len(),
            0 <= i <= n,
            dst@ == old(dst)@ + src@.take(i as int),
        decreases n - i,
    {
        dst.push(prims::copy_move(&src[i]));
        proof {
            assert(src@.take(i + 1) == src@.take(i as int).push(src@[i as int]));
        }
        i = i + 1;
    }
    proof {
        assert(src@.take(n as int) == src@);
    }
}


/// One retained entry of a polyglot opening book: the position key, the
/// packed move, and its weight.
pub struct BookEntry {
    pub key: u64,
    pub chessmove: chess::ChessMove,
    pub weight: u16,
}

impl BookEntry {
    fn new(key: u64, cm: chess::ChessMove, weight: u16) -> (r: BookEntry)
        ensures
            r.key == key,
            r.chessmove == cm,
            r.weight == weight,
    {
        BookEntry { key, chessmove: cm, weight }
    }
}

/// A big-endian 16-bit value at byte offset `off`.
pub open spec fn spec_be16(d: Seq<u8>, off: int) -> int {
    d[off] * 0x100 + d[off + 1]
}

/// A big-endian 64-bit value at byte offset `off`.
pub open spec fn spec_be64(d: Seq<u8>, off: int) -> int {
    d[off] * 0x100000000000000 + d[off + 1] * 0x1000000000000 + d[off + 2] * 0x10000000000 + d[off
        + 3] * 0x100000000 + d[off + 4] * 0x1000000 + d[off + 5] * 0x10000 + d[off + 6] * 0x100
        + d[off + 7]
}

/// What one 16-byte book record holds, as plain values: the Zobrist key,
/// the source and destination squares and the promotion unpacked from the
/// move bits (three bits each of destination file, destination rank,
/// source file, source rank and promotion, low to high), and the weight.
pub ghost struct BookRec {
    pub key: int,
    pub src: int,
    pub dst: int,
    pub promo: Option<PieceKind>,
    pub weight: int,
}

/// The promotion piece a packed book move's three promotion bits denote:
/// one through four are knight, bishop, rook and queen; zero is none.
pub open spec fn spec_book_promo(bits: u64) -> Option<PieceKind> {
    if bits == 1 {
        Some(PieceKind::Knight)
    } else if bits == 2 {
        Some(PieceKind::Bishop)
    } else if bits == 3 {
        Some(PieceKind::Rook)
    } else if bits == 4 {
        Some(PieceKind::Queen)
    } else {
        None
    }
}

/// The fields of record `i` of the raw book bytes.
pub open spec fn spec_book_rec(d: Seq<u8>, i: int) -> BookRec {
    let off = 16 * i;
    let mb = spec_be16(d, off + 8) as u64;
    BookRec {
        key: spec_be64(d, off),
        src: (((mb >> 9) & 7) * 8 + ((mb >> 6) & 7)) as int,
        dst: (((mb >> 3) & 7) * 8 + (mb & 7)) as int,
        promo: spec_book_promo((mb >> 12) & 7),
        weight: spec_be16(d, off + 10),
    }
}

/// The records among the first `n` whose weight passes the cutoff, in
/// file order.
pub open spec fn spec_book_list(d: Seq<u8>, n: int) -> Seq<BookRec>
    decreases n,
{
    if n <= 0 {
        Seq::empty()
    } else {
        let init = spec_book_list(d, n - 1);
        if spec_book_rec(d, n - 1).weight > 100 {
            init.push(spec_book_rec(d, n - 1))
        } else {
            init
        }
    }
}

/// The records of `rs` with key `k`, in order.
pub open spec fn spec_recs_with_key(rs: Seq<BookRec>, k: int) -> Seq<BookRec>
    decreases rs.len(),
{
    if rs.len() == 0 {
        Seq::empty()
    } else {
        let init = spec_recs_with_key(rs.drop_last(), k);
        if rs.last().key == k {
            init.push(rs.last())
        } else {
            init
        }
    }
}

/// Does a parsed entry carry exactly what a record describes?
pub open spec fn spec_entry_matches(e: BookEntry, r: BookRec) -> bool {
    &&& e.key == r.key
    &&& e.weight == r.weight
    &&& prims::move_src_of(e.chessmove) == r.src
    &&& prims::move_dst_of(e.chessmove) == r.dst
    &&& prims::move_promo_of(e.chessmove) == r.promo
}

/// Every complete 16-byte record of the raw book bytes whose weight is
/// above the cutoff, as an entry, in file order.
pub fn parse_book_entries(data: &Vec<u8>) -> (r: Vec<BookEntry>)
    ensures
        r@.len() == spec_book_list(data@, data@.len() as int / 16).len(),
        forall|j: int|
            0 <= j < r@.len() ==> spec_entry_matches(
                #[trigger] r@[j],
                spec_book_list(data@, data@.len() as int / 16)[j],
            ),
{
    let num_entries = data.len() / 16;
    proof {
        assert(num_entries * 16 <= data@.len()) by (nonlinear_arith)
            requires
                num_entries == data@.len() as int / 16,
                data@.len() >= 0,
        ;
    }
    let mut out: Vec<BookEntry> = Vec::new();
    let mut i: usize = 0;
    while i < num_entries
        invariant
            num_entries == data@.len() as int / 16,
            num_entries * 16 <= data@.len(),
            data@.len() <= usize::MAX,
            0 <= i <= num_entries,
            out@.len() == spec_book_list(data@, i as int).len(),
            forall|j: int|
                0 <= j < out@.len() ==> spec_entry_matches(
                    #[trigger] out@[j],
                    spec_book_list(data@, i as int)[j],
                ),
        decreases num_entries - i,
    {
        proof {
            assert(i * 16 + 16 <= num_entries * 16) by (nonlinear_arith)
                requires
                    i + 1 <= num_entries,
            ;
        }
        let off = i * 16;
        let key: u64 = (data[off] as u64) * 0x100000000000000 + (data[off + 1] as u64)
            * 0x1000000000000 + (data[off + 2] as u64) * 0x10000000000 + (data[off + 3] as u64)
            * 0x100000000 + (data[off + 4] as u64) * 0x1000000 + (data[off + 5] as u64) * 0x10000
            + (data[off + 6] as u64) * 0x100 + (data[off + 7] as u64);
        let mb: u64 = (data[off + 8] as u64) * 0x100 + (data[off + 9] as u64);
        let weight_val: u64 = (data[off + 10] as u64) * 0x100 + (data[off + 11] as u64);
        let weight: u16 = weight_val as u16;
        let dst_file: u64 = mb & 7;
        let dst_rank: u64 = (mb >> 3) & 7;
        let src_file: u64 = (mb >> 6) & 7;
        let src_rank: u64 = (mb >> 9) & 7;
        let promo_bits: u64 = (mb >> 12) & 7;
        proof {
            assert(mb & 7 < 8 && (mb >> 3) & 7 < 8 && (mb >> 6) & 7 < 8 && (mb >> 9) & 7 < 8)
                by (bit_vector);
        }
        let promo: Option<PieceKind> = if promo_bits == 1 {
            Some(PieceKind::Knight)
        } else if promo_bits == 2 {
            Some(PieceKind::Bishop)
        } else if promo_bits == 3 {
            Some(PieceKind::Rook)
        } else if promo_bits == 4 {
            Some(PieceKind::Queen)
        } else {
            None
        };
        let cm = prims::move_from_parts(
            src_rank as u8,
            src_file as u8,
            dst_rank as u8,
            dst_file as u8,
            promo,
        );
        if weight > 100 {
            let entry = BookEntry::new(key, cm, weight);
            proof {
                assert(spec_book_list(data@, i + 1) == spec_book_list(data@, i as int).push(
                    spec_book_rec(data@, i as int),
                ));
                assert(spec_entry_matches(entry, spec_book_rec(data@, i as int)));
            }
            out.push(entry);
        } else {
            proof {
                assert(spec_book_list(data@, i + 1) == spec_book_list(data@, i as int));
            }
        }
        i = i + 1;
    }
    out
}

/// The entries of `es` whose key is `k`, in order.
pub open spec fn spec_entries_with_key(es: Seq<BookEntry>, k: u64) -> Seq<BookEntry>
    decreases es.len(),
{
    if es.len() == 0 {
        Seq::empty()
    } else {
        let init = spec_entries_with_key(es.drop_last(), k);
        if es.last().key == k {
            init.push(es.last())
        } else {
            init
        }
    }
}

/// Pointwise matching of entries to records survives filtering by key.
proof fn lemma_filter_matches(es: Seq<BookEntry>, rs: Seq<BookRec>, k: u64)
    requires
        es.len() == rs.len(),
        forall|j: int| 0 <= j < es.len() ==> spec_entry_matches(#[trigger] es[j], rs[j]),
    ensures
        spec_entries_with_key(es, k).len() == spec_recs_with_key(rs, k as int).len(),
        forall|j: int|
            0 <= j < spec_entries_with_key(es, k).len() ==> spec_entry_matches(
                #[trigger] spec_entries_with_key(es, k)[j],
                spec_recs_with_key(rs, k as int)[j],
            ),
    decreases es.len(),
{
    if es.len() > 0 {
        assert(forall|j: int|
            0 <= j < es.drop_last().len() ==> spec_entry_matches(
                #[trigger] es.drop_last()[j],
                rs.drop_last()[j],
            ));
        lemma_filter_matches(es.drop_last(), rs.drop_last(), k);
        assert(spec_entry_matches(es.last(), rs.last()));
    }
}

/// Group entries by their key: the map holds exactly the keys that occur,
/// each with its entries in order.
fn group_book_entries(entries: Vec<BookEntry>) -> (r: std::collections::HashMap<
    u64,
    Vec<BookEntry>,
>)
    ensures
        forall|k: u64|
            #[trigger] r@.contains_key(k) <==> spec_entries_with_key(entries@, k).len() > 0,
        forall|k: u64|
            r@.contains_key(k) ==> (#[trigger] r@[k])@ == spec_entries_with_key(entries@, k),
{
    let ghost es = entries@;
    let mut m: std::collections::HashMap<u64, Vec<BookEntry>> = std::collections::HashMap::new();
    let n = entries.len();
    let mut i: usize = 0;
    while i < n
        invariant
            n == es.len(),
            entries@ == es,
            0 <= i <= n,
            forall|k: u64|
                #[trigger] m@.contains_key(k) <==> spec_entries_with_key(
                    es.take(i as int),
                    k,
                ).len() > 0,
            forall|k: u64|
                m@.contains_key(k) ==> (#[trigger] m@[k])@ == spec_entries_with_key(
                    es.take(i as int),
                    k,
                ),
        decreases n - i,
    {
        let key = entries[i].key;
        let e = BookEntry {
            key: entries[i].key,
            chessmove: prims::copy_move(&entries[i].chessmove),
            weight: entries[i].weight,
        };
        proof {
            assert(e == es[i as int]);
            assert forall|k: u64|
                spec_entries_with_key(es.take(i + 1), k) == (if k == e.key {
                    spec_entries_with_key(es.take(i as int), k).push(e)
                } else {
                    spec_entries_with_key(es.take(i as int), k)
                }) by {
                assert(es.take(i + 1).drop_last() == es.take(i as int));
                assert(es.take(i + 1).last() == es[i as int]);
            }
        }
        if m.contains_key(&key) {
            match m.remove(&key) {
                Some(mut v) => {
                    v.push(e);
                    m.insert(key, v);
                },
                None => {},
            }
        } else {
            let mut v: Vec<BookEntry> = Vec::new();
            v.push(e);
            m.insert(key, v);
        }
        i = i + 1;
    }
    proof {
        assert(es.take(n as int) == es);
    }
    m
}

/// Load a polyglot opening book from its raw bytes: every complete
/// 16-byte record with weight above the cutoff is kept, grouped by its
/// position key, each group in file order.
pub fn load_book_from_bytes(data: &Vec<u8>) -> (r: std::collections::HashMap<u64, Vec<BookEntry>>)
    ensures
        forall|k: u64|
            #[trigger] r@.contains_key(k) <==> spec_recs_with_key(
                spec_book_list(data@, data@.len() as int / 16),
                k as int,
            ).len() > 0,
        forall|k: u64|
            r@.contains_key(k) ==> ({
                let recs = spec_recs_with_key(
                    spec_book_list(data@, data@.len() as int / 16),
                    k as int,
                );
                (#[trigger] r@[k])@.len() == recs.len() && forall|j: int|
                    0 <= j < recs.len() ==> spec_entry_matches(r@[k]@[j], recs[j])
            }),
{
    let entries = parse_book_entries(data);
    let ghost es = entries@;
    let ghost recs = spec_book_list(data@, data@.len() as int / 16);
    proof {
        assert forall|k: u64| #[trigger]
            spec_entries_with_key(es, k).len() == spec_recs_with_key(recs, k as int).len()
            && forall|j: int|
                0 <= j < spec_entries_with_key(es, k).len() ==> spec_entry_matches(
                    #[trigger] spec_entries_with_key(es, k)[j],
                    spec_recs_with_key(recs, k as int)[j],
                ) by {
            lemma_filter_matches(es, recs, k);
        }
    }
    group_book_entries(entries)
}

} // verus!
