//! A plain minimax model of the search, and the proof that the alpha-beta
//! searcher computes it: with a window wide enough to enclose every
//! reachable score, `spec_ab` returns exactly the minimax value.
//!
//! The laws about terminal scores live here too: a stalemate is worth
//! exactly zero, a checkmate is extremal with the right sign, and of two
//! mates the nearer one weighs more.

use vstd::prelude::*;

use crate::chessutil::{
    spec_captures_by, spec_captures_unattributed, spec_quiet_moves, spec_sorted_moves,
    spec_sorted_moves_of_list,
};
use crate::evaluation::{lemma_evaluate_bounds, spec_evaluate, EVAL_BOUND, MATE_VALUE};
use crate::prims::{legal_moves_of, make_move_of, side_of, status_of, Color, GameStatus, PieceKind};
use crate::search::{
    lemma_ab_best_in_moves, spec_ab, spec_ab_default, spec_ab_fold_max, spec_ab_fold_min, AbOutcome,
};

verus! {

/// The larger of two scores.
pub open spec fn spec_max(a: int, b: int) -> int {
    if a > b {
        a
    } else {
        b
    }
}

/// The smaller of two scores.
pub open spec fn spec_min(a: int, b: int) -> int {
    if a < b {
        a
    } else {
        b
    }
}

/// The maximizing player's plain fold: the best of `acc` and every child's
/// minimax value, no pruning.
pub open spec fn spec_mm_fold_max(
    b: chess::Board,
    depth: nat,
    my_color: Color,
    moves: Seq<chess::ChessMove>,
    i: int,
    acc: int,
) -> int
    decreases depth, moves.len() - i, 0int,
{
    if i < 0 || i >= moves.len() || depth == 0 {
        acc
    } else {
        let child_b = make_move_of(b, moves[i]);
        let t = spec_minimax(
            child_b,
            (depth - 1) as nat,
            my_color,
            false,
            spec_sorted_moves(child_b),
        );
        spec_mm_fold_max(b, depth, my_color, moves, i + 1, spec_max(acc, t))
    }
}

/// The minimizing player's plain fold.
pub open spec fn spec_mm_fold_min(
    b: chess::Board,
    depth: nat,
    my_color: Color,
    moves: Seq<chess::ChessMove>,
    i: int,
    acc: int,
) -> int
    decreases depth, moves.len() - i, 0int,
{
    if i < 0 || i >= moves.len() || depth == 0 {
        acc
    } else {
        let child_b = make_move_of(b, moves[i]);
        let t = spec_minimax(
            child_b,
            (depth - 1) as nat,
            my_color,
            true,
            spec_sorted_moves(child_b),
        );
        spec_mm_fold_min(b, depth, my_color, moves, i + 1, spec_min(acc, t))
    }
}

/// Plain minimax over the same move order and the same terminal scoring as
/// the searcher, without any pruning.
pub open spec fn spec_minimax(
    b: chess::Board,
    depth: nat,
    my_color: Color,
    my_move: bool,
    moves: Seq<chess::ChessMove>,
) -> int
    decreases depth, moves.len(), 1int,
{
    if depth == 0 {
        spec_evaluate(b, my_color)
    } else if moves.len() == 0 && status_of(b) == GameStatus::Stalemate {
        0
    } else if moves.len() == 0 && status_of(b) == GameStatus::Checkmate {
        if side_of(b) == my_color {
            -(MATE_VALUE as int) - depth
        } else {
            (MATE_VALUE as int) + depth
        }
    } else if my_move {
        spec_mm_fold_max(b, depth, my_color, moves, 0, -(MATE_VALUE as int) - depth - 1)
    } else {
        spec_mm_fold_min(b, depth, my_color, moves, 0, (MATE_VALUE as int) + depth + 1)
    }
}

/// Plain minimax on the move list the orderer would produce.
pub open spec fn spec_minimax_default(
    b: chess::Board,
    depth: nat,
    my_color: Color,
    my_move: bool,
) -> int {
    spec_minimax(b, depth, my_color, my_move, spec_sorted_moves(b))
}

proof fn lemma_mm_fold_max_lower(
    b: chess::Board,
    depth: nat,
    my_color: Color,
    moves: Seq<chess::ChessMove>,
    i: int,
    acc: int,
)
    ensures
        spec_mm_fold_max(b, depth, my_color, moves, i, acc) >= acc,
    decreases depth, moves.len() - i, 1int,
{
    if !(i < 0 || i >= moves.len() || depth == 0) {
        let child_b = make_move_of(b, moves[i]);
        let t = spec_minimax(
            child_b,
            (depth - 1) as nat,
            my_color,
            false,
            spec_sorted_moves(child_b),
        );
        lemma_mm_fold_max_lower(b, depth, my_color, moves, i + 1, spec_max(acc, t));
    }
}

proof fn lemma_mm_fold_min_upper(
    b: chess::Board,
    depth: nat,
    my_color: Color,
    moves: Seq<chess::ChessMove>,
    i: int,
    acc: int,
)
    ensures
        spec_mm_fold_min(b, depth, my_color, moves, i, acc) <= acc,
    decreases depth, moves.len() - i, 1int,
{
    if !(i < 0 || i >= moves.len() || depth == 0) {
        let child_b = make_move_of(b, moves[i]);
        let t = spec_minimax(
            child_b,
            (depth - 1) as nat,
            my_color,
            true,
            spec_sorted_moves(child_b),
        );
        lemma_mm_fold_min_upper(b, depth, my_color, moves, i + 1, spec_min(acc, t));
    }
}

proof fn lemma_mm_fold_max_mono(
    b: chess::Board,
    depth: nat,
    my_color: Color,
    moves: Seq<chess::ChessMove>,
    i: int,
    x: int,
    y: int,
)
    requires
        x <= y,
    ensures
        spec_mm_fold_max(b, depth, my_color, moves, i, x) <= spec_mm_fold_max(
            b,
            depth,
            my_color,
            moves,
            i,
            y,
        ),
    decreases depth, moves.len() - i, 1int,
{
    if !(i < 0 || i >= moves.len() || depth == 0) {
        let child_b = make_move_of(b, moves[i]);
        let t = spec_minimax(
            child_b,
            (depth - 1) as nat,
            my_color,
            false,
            spec_sorted_moves(child_b),
        );
        lemma_mm_fold_max_mono(b, depth, my_color, moves, i + 1, spec_max(x, t), spec_max(y, t));
    }
}

proof fn lemma_mm_fold_min_mono(
    b: chess::Board,
    depth: nat,
    my_color: Color,
    moves: Seq<chess::ChessMove>,
    i: int,
    x: int,
    y: int,
)
    requires
        x <= y,
    ensures
        spec_mm_fold_min(b, depth, my_color, moves, i, x) <= spec_mm_fold_min(
            b,
            depth,
            my_color,
            moves,
            i,
            y,
        ),
    decreases depth, moves.len() - i, 1int,
{
    if !(i < 0 || i >= moves.len() || depth == 0) {
        let child_b = make_move_of(b, moves[i]);
        let t = spec_minimax(
            child_b,
            (depth - 1) as nat,
            my_color,
            true,
            spec_sorted_moves(child_b),
        );
        lemma_mm_fold_min_mono(b, depth, my_color, moves, i + 1, spec_min(x, t), spec_min(y, t));
    }
}

/// Folding from the larger of two seeds is folding from the smaller one,
/// capped below by the larger: `fold(max(x, y)) == max(x, fold(y))` when
/// `y <= x`.
proof fn lemma_mm_fold_max_join(
    b: chess::Board,
    depth: nat,
    my_color: Color,
    moves: Seq<chess::ChessMove>,
    i: int,
    x: int,
    y: int,
)
    requires
        y <= x,
    ensures
        spec_mm_fold_max(b, depth, my_color, moves, i, x) == spec_max(
            x,
            spec_mm_fold_max(b, depth, my_color, moves, i, y),
        ),
    decreases depth, moves.len() - i, 1int,
{
    if !(i < 0 || i >= moves.len() || depth == 0) {
        let child_b = make_move_of(b, moves[i]);
        let t = spec_minimax(
            child_b,
            (depth - 1) as nat,
            my_color,
            false,
            spec_sorted_moves(child_b),
        );
        lemma_mm_fold_max_join(b, depth, my_color, moves, i + 1, spec_max(x, t), spec_max(y, t));
        lemma_mm_fold_max_lower(b, depth, my_color, moves, i + 1, spec_max(y, t));
    }
}

proof fn lemma_mm_fold_min_join(
    b: chess::Board,
    depth: nat,
    my_color: Color,
    moves: Seq<chess::ChessMove>,
    i: int,
    x: int,
    y: int,
)
    requires
        x <= y,
    ensures
        spec_mm_fold_min(b, depth, my_color, moves, i, x) == spec_min(
            x,
            spec_mm_fold_min(b, depth, my_color, moves, i, y),
        ),
    decreases depth, moves.len() - i, 1int,
{
    if !(i < 0 || i >= moves.len() || depth == 0) {
        let child_b = make_move_of(b, moves[i]);
        let t = spec_minimax(
            child_b,
            (depth - 1) as nat,
            my_color,
            true,
            spec_sorted_moves(child_b),
        );
        lemma_mm_fold_min_join(b, depth, my_color, moves, i + 1, spec_min(x, t), spec_min(y, t));
        lemma_mm_fold_min_upper(b, depth, my_color, moves, i + 1, spec_min(y, t));
    }
}

proof fn lemma_ab_fold_max_lower(
    b: chess::Board,
    depth: nat,
    alpha: int,
    beta: int,
    my_color: Color,
    moves: Seq<chess::ChessMove>,
    i: int,
    acc: int,
    best: Option<chess::ChessMove>,
    leaves: nat,
)
    ensures
        spec_ab_fold_max(b, depth, alpha, beta, my_color, moves, i, acc, best, leaves).score
            >= acc,
    decreases depth, moves.len() - i, 1int,
{
    if !(i < 0 || i >= moves.len() || depth == 0) {
        let child_b = make_move_of(b, moves[i]);
        let child = spec_ab(
            child_b,
            (depth - 1) as nat,
            alpha,
            beta,
            my_color,
            false,
            spec_sorted_moves(child_b),
        );
        let acc2 = if child.score > acc {
            child.score
        } else {
            acc
        };
        let best2 = if child.score > acc {
            Some(moves[i])
        } else {
            best
        };
        let alpha2 = if child.score > alpha {
            child.score
        } else {
            alpha
        };
        if !(beta <= alpha2) {
            lemma_ab_fold_max_lower(
                b,
                depth,
                alpha2,
                beta,
                my_color,
                moves,
                i + 1,
                acc2,
                best2,
                leaves + child.leaves,
            );
        }
    }
}

proof fn lemma_ab_fold_min_upper(
    b: chess::Board,
    depth: nat,
    alpha: int,
    beta: int,
    my_color: Color,
    moves: Seq<chess::ChessMove>,
    i: int,
    acc: int,
    best: Option<chess::ChessMove>,
    leaves: nat,
)
    ensures
        spec_ab_fold_min(b, depth, alpha, beta, my_color, moves, i, acc, best, leaves).score
            <= acc,
    decreases depth, moves.len() - i, 1int,
{
    if !(i < 0 || i >= moves.len() || depth == 0) {
        let child_b = make_move_of(b, moves[i]);
        let child = spec_ab(
            child_b,
            (depth - 1) as nat,
            alpha,
            beta,
            my_color,
            true,
            spec_sorted_moves(child_b),
        );
        let acc2 = if child.score < acc {
            child.score
        } else {
            acc
        };
        let best2 = if child.score < acc {
            Some(moves[i])
        } else {
            best
        };
        let beta2 = if child.score < beta {
            child.score
        } else {
            beta
        };
        if !(beta2 <= alpha) {
            lemma_ab_fold_min_upper(
                b,
                depth,
                alpha,
                beta2,
                my_color,
                moves,
                i + 1,
                acc2,
                best2,
                leaves + child.leaves,
            );
        }
    }
}

/// The fail-soft relation of the pruned maximizing fold to the plain one:
/// a score inside the window is exact; one at or outside a bound is a
/// bound of the plain value on that side.
proof fn lemma_ab_fold_max_sound(
    b: chess::Board,
    depth: nat,
    alpha: int,
    beta: int,
    my_color: Color,
    moves: Seq<chess::ChessMove>,
    i: int,
    acc: int,
    best: Option<chess::ChessMove>,
    leaves: nat,
)
    requires
        alpha < beta,
    ensures
        ({
            let v = spec_ab_fold_max(b, depth, alpha, beta, my_color, moves, i, acc, best, leaves).score;
            let m = spec_mm_fold_max(b, depth, my_color, moves, i, acc);
            &&& (v <= alpha ==> m <= v)
            &&& (v >= beta ==> v <= m)
            &&& (alpha < v < beta ==> v == m)
        }),
    decreases depth, moves.len() - i, 1int,
{
    let v = spec_ab_fold_max(b, depth, alpha, beta, my_color, moves, i, acc, best, leaves).score;
    let m = spec_mm_fold_max(b, depth, my_color, moves, i, acc);
    if i < 0 || i >= moves.len() || depth == 0 {
        // both are acc
    } else {
        let child_b = make_move_of(b, moves[i]);
        let sorted = spec_sorted_moves(child_b);
        let c = spec_ab(child_b, (depth - 1) as nat, alpha, beta, my_color, false, sorted).score;
        let t = spec_minimax(child_b, (depth - 1) as nat, my_color, false, sorted);
        lemma_ab_node_sound(child_b, (depth - 1) as nat, alpha, beta, my_color, false, sorted);
        let child = spec_ab(child_b, (depth - 1) as nat, alpha, beta, my_color, false, sorted);
        let acc2 = if c > acc {
            c
        } else {
            acc
        };
        let best2 = if c > acc {
            Some(moves[i])
        } else {
            best
        };
        let alpha2 = if c > alpha {
            c
        } else {
            alpha
        };
        let leaves2 = leaves + child.leaves;
        let mt = spec_max(acc, t);
        assert(m == spec_mm_fold_max(b, depth, my_color, moves, i + 1, mt));
        if c >= beta {
            // the pruned fold cuts here and returns max(acc, c)
            assert(v == acc2);
            lemma_mm_fold_max_lower(b, depth, my_color, moves, i + 1, mt);
            // t >= c by the child relation, so m >= max(acc, t) >= max(acc, c) == v
        } else if c <= alpha {
            // t <= c: this child cannot raise the window
            lemma_ab_fold_max_sound(
                b,
                depth,
                alpha,
                beta,
                my_color,
                moves,
                i + 1,
                acc2,
                best2,
                leaves2,
            );
            let v2 = spec_ab_fold_max(
                b,
                depth,
                alpha,
                beta,
                my_color,
                moves,
                i + 1,
                acc2,
                best2,
                leaves2,
            ).score;
            assert(v == v2);
            let m2 = spec_mm_fold_max(b, depth, my_color, moves, i + 1, acc2);
            lemma_mm_fold_max_mono(b, depth, my_color, moves, i + 1, mt, acc2);
            lemma_mm_fold_max_join(b, depth, my_color, moves, i + 1, acc2, mt);
            lemma_mm_fold_max_lower(b, depth, my_color, moves, i + 1, mt);
            // m2 == max(acc2, m), m <= m2, m >= max(acc, t)
        } else {
            // alpha < c < beta: the child value is exact, t == c
            lemma_ab_fold_max_sound(
                b,
                depth,
                c,
                beta,
                my_color,
                moves,
                i + 1,
                acc2,
                best2,
                leaves2,
            );
            let v2 = spec_ab_fold_max(
                b,
                depth,
                c,
                beta,
                my_color,
                moves,
                i + 1,
                acc2,
                best2,
                leaves2,
            ).score;
            assert(v == v2);
            lemma_ab_fold_max_lower(b, depth, c, beta, my_color, moves, i + 1, acc2, best2, leaves2);
            lemma_mm_fold_max_lower(b, depth, my_color, moves, i + 1, acc2);
            assert(mt == acc2);
        }
    }
}

/// The mirror relation for the pruned minimizing fold.
proof fn lemma_ab_fold_min_sound(
    b: chess::Board,
    depth: nat,
    alpha: int,
    beta: int,
    my_color: Color,
    moves: Seq<chess::ChessMove>,
    i: int,
    acc: int,
    best: Option<chess::ChessMove>,
    leaves: nat,
)
    requires
        alpha < beta,
    ensures
        ({
            let v = spec_ab_fold_min(b, depth, alpha, beta, my_color, moves, i, acc, best, leaves).score;
            let m = spec_mm_fold_min(b, depth, my_color, moves, i, acc);
            &&& (v >= beta ==> m >= v)
            &&& (v <= alpha ==> v >= m)
            &&& (alpha < v < beta ==> v == m)
        }),
    decreases depth, moves.len() - i, 1int,
{
    let v = spec_ab_fold_min(b, depth, alpha, beta, my_color, moves, i, acc, best, leaves).score;
    let m = spec_mm_fold_min(b, depth, my_color, moves, i, acc);
    if i < 0 || i >= moves.len() || depth == 0 {
        // both are acc
    } else {
        let child_b = make_move_of(b, moves[i]);
        let sorted = spec_sorted_moves(child_b);
        let c = spec_ab(child_b, (depth - 1) as nat, alpha, beta, my_color, true, sorted).score;
        let t = spec_minimax(child_b, (depth - 1) as nat, my_color, true, sorted);
        lemma_ab_node_sound(child_b, (depth - 1) as nat, alpha, beta, my_color, true, sorted);
        let child = spec_ab(child_b, (depth - 1) as nat, alpha, beta, my_color, true, sorted);
        let acc2 = if c < acc {
            c
        } else {
            acc
        };
        let best2 = if c < acc {
            Some(moves[i])
        } else {
            best
        };
        let beta2 = if c < beta {
            c
        } else {
            beta
        };
        let leaves2 = leaves + child.leaves;
        let mt = spec_min(acc, t);
        assert(m == spec_mm_fold_min(b, depth, my_color, moves, i + 1, mt));
        if c <= alpha {
            assert(v == acc2);
            lemma_mm_fold_min_upper(b, depth, my_color, moves, i + 1, mt);
        } else if c >= beta {
            lemma_ab_fold_min_sound(
                b,
                depth,
                alpha,
                beta,
                my_color,
                moves,
                i + 1,
                acc2,
                best2,
                leaves2,
            );
            let v2 = spec_ab_fold_min(
                b,
                depth,
                alpha,
                beta,
                my_color,
                moves,
                i + 1,
                acc2,
                best2,
                leaves2,
            ).score;
            assert(v == v2);
            let m2 = spec_mm_fold_min(b, depth, my_color, moves, i + 1, acc2);
            lemma_mm_fold_min_mono(b, depth, my_color, moves, i + 1, acc2, mt);
            lemma_mm_fold_min_join(b, depth, my_color, moves, i + 1, acc2, mt);
            lemma_mm_fold_min_upper(b, depth, my_color, moves, i + 1, mt);
        } else {
            lemma_ab_fold_min_sound(
                b,
                depth,
                alpha,
                c,
                my_color,
                moves,
                i + 1,
                acc2,
                best2,
                leaves2,
            );
            let v2 = spec_ab_fold_min(
                b,
                depth,
                alpha,
                c,
                my_color,
                moves,
                i + 1,
                acc2,
                best2,
                leaves2,
            ).score;
            assert(v == v2);
            lemma_ab_fold_min_upper(b, depth, alpha, c, my_color, moves, i + 1, acc2, best2, leaves2);
            lemma_mm_fold_min_upper(b, depth, my_color, moves, i + 1, acc2);
            assert(mt == acc2);
        }
    }
}

/// The fail-soft soundness of one alpha-beta node against plain minimax.
proof fn lemma_ab_node_sound(
    b: chess::Board,
    depth: nat,
    alpha: int,
    beta: int,
    my_color: Color,
    my_move: bool,
    moves: Seq<chess::ChessMove>,
)
    requires
        alpha < beta,
    ensures
        ({
            let v = spec_ab(b, depth, alpha, beta, my_color, my_move, moves).score;
            let m = spec_minimax(b, depth, my_color, my_move, moves);
            &&& (v <= alpha ==> m <= v)
            &&& (v >= beta ==> v <= m)
            &&& (alpha < v < beta ==> v == m)
        }),
    decreases depth, moves.len(), 2int,
{
    if depth == 0 {
    } else if moves.len() == 0 && status_of(b) == GameStatus::Stalemate {
    } else if moves.len() == 0 && status_of(b) == GameStatus::Checkmate {
    } else if my_move {
        lemma_ab_fold_max_sound(
            b,
            depth,
            alpha,
            beta,
            my_color,
            moves,
            0,
            -(MATE_VALUE as int) - depth - 1,
            None,
            0,
        );
    } else {
        lemma_ab_fold_min_sound(
            b,
            depth,
            alpha,
            beta,
            my_color,
            moves,
            0,
            (MATE_VALUE as int) + depth + 1,
            None,
            0,
        );
    }
}

proof fn lemma_mm_fold_max_bounds(
    b: chess::Board,
    depth: nat,
    my_color: Color,
    moves: Seq<chess::ChessMove>,
    i: int,
    acc: int,
)
    requires
        -(MATE_VALUE as int) - depth - 1 <= acc <= (MATE_VALUE as int) + depth + 1,
    ensures
        -(MATE_VALUE as int) - depth - 1 <= spec_mm_fold_max(b, depth, my_color, moves, i, acc)
            <= (MATE_VALUE as int) + depth + 1,
    decreases depth, moves.len() - i, 1int,
{
    if !(i < 0 || i >= moves.len() || depth == 0) {
        let child_b = make_move_of(b, moves[i]);
        let t = spec_minimax(
            child_b,
            (depth - 1) as nat,
            my_color,
            false,
            spec_sorted_moves(child_b),
        );
        lemma_minimax_bounds(child_b, (depth - 1) as nat, my_color, false, spec_sorted_moves(child_b));
        lemma_mm_fold_max_bounds(b, depth, my_color, moves, i + 1, spec_max(acc, t));
    }
}

proof fn lemma_mm_fold_min_bounds(
    b: chess::Board,
    depth: nat,
    my_color: Color,
    moves: Seq<chess::ChessMove>,
    i: int,
    acc: int,
)
    requires
        -(MATE_VALUE as int) - depth - 1 <= acc <= (MATE_VALUE as int) + depth + 1,
    ensures
        -(MATE_VALUE as int) - depth - 1 <= spec_mm_fold_min(b, depth, my_color, moves, i, acc)
            <= (MATE_VALUE as int) + depth + 1,
    decreases depth, moves.len() - i, 1int,
{
    if !(i < 0 || i >= moves.len() || depth == 0) {
        let child_b = make_move_of(b, moves[i]);
        let t = spec_minimax(
            child_b,
            (depth - 1) as nat,
            my_color,
            true,
            spec_sorted_moves(child_b),
        );
        lemma_minimax_bounds(child_b, (depth - 1) as nat, my_color, true, spec_sorted_moves(child_b));
        lemma_mm_fold_min_bounds(b, depth, my_color, moves, i + 1, spec_min(acc, t));
    }
}

/// Every minimax value lies within one of the mate scores for its depth.
pub proof fn lemma_minimax_bounds(
    b: chess::Board,
    depth: nat,
    my_color: Color,
    my_move: bool,
    moves: Seq<chess::ChessMove>,
)
    ensures
        -(MATE_VALUE as int) - depth - 1 <= spec_minimax(b, depth, my_color, my_move, moves) <= (
        MATE_VALUE as int) + depth + 1,
    decreases depth, moves.len(), 2int,
{
    if depth == 0 {
        lemma_evaluate_bounds(b, my_color);
    } else if moves.len() == 0 && status_of(b) == GameStatus::Stalemate {
    } else if moves.len() == 0 && status_of(b) == GameStatus::Checkmate {
    } else if my_move {
        lemma_mm_fold_max_bounds(b, depth, my_color, moves, 0, -(MATE_VALUE as int) - depth - 1);
    } else {
        lemma_mm_fold_min_bounds(b, depth, my_color, moves, 0, (MATE_VALUE as int) + depth + 1);
    }
}

/// Alpha-beta equivalence: with a window wider than every reachable score,
/// the pruned search returns exactly the plain minimax value over the same
/// move order.
pub proof fn lemma_alphabeta_equals_minimax(
    b: chess::Board,
    depth: nat,
    my_color: Color,
    my_move: bool,
    moves: Seq<chess::ChessMove>,
)
    ensures
        spec_ab(
            b,
            depth,
            -(MATE_VALUE as int) - depth - 2,
            (MATE_VALUE as int) + depth + 2,
            my_color,
            my_move,
            moves,
        ).score == spec_minimax(b, depth, my_color, my_move, moves),
{
    let alpha = -(MATE_VALUE as int) - depth - 2;
    let beta = (MATE_VALUE as int) + depth + 2;
    lemma_ab_node_sound(b, depth, alpha, beta, my_color, my_move, moves);
    lemma_minimax_bounds(b, depth, my_color, my_move, moves);
}

/// The orderer's output for a position with no legal moves is empty.
pub proof fn lemma_sorted_moves_empty(b: chess::Board)
    requires
        legal_moves_of(b).len() == 0,
    ensures
        spec_sorted_moves(b).len() == 0,
{
    let ms = legal_moves_of(b);
    assert(spec_captures_by(ms, b, PieceKind::Pawn).len() == 0);
    assert(spec_captures_by(ms, b, PieceKind::Knight).len() == 0);
    assert(spec_captures_by(ms, b, PieceKind::Bishop).len() == 0);
    assert(spec_captures_by(ms, b, PieceKind::Rook).len() == 0);
    assert(spec_captures_by(ms, b, PieceKind::Queen).len() == 0);
    assert(spec_captures_by(ms, b, PieceKind::King).len() == 0);
    assert(spec_captures_unattributed(ms, b).len() == 0);
    assert(spec_quiet_moves(ms, b).len() == 0);
}

/// A stalemate is worth exactly zero at every searched depth.
///
/// At depth zero the searcher never looks at the moves: it returns the
/// static evaluation, so the law asks for at least one ply of search.
pub proof fn lemma_stalemate_scores_zero(
    b: chess::Board,
    depth: nat,
    alpha: int,
    beta: int,
    my_color: Color,
    my_move: bool,
)
    requires
        depth >= 1,
        legal_moves_of(b).len() == 0,
        status_of(b) == GameStatus::Stalemate,
    ensures
        spec_ab_default(b, depth, alpha, beta, my_color, my_move).score == 0,
{
    lemma_sorted_moves_empty(b);
}

/// A checkmate's score is extremal: its magnitude is at least `MATE_VALUE`,
/// and its sign says whether the mated side is the searcher's viewpoint.
pub proof fn lemma_checkmate_extremal(
    b: chess::Board,
    depth: nat,
    alpha: int,
    beta: int,
    my_color: Color,
    my_move: bool,
)
    requires
        depth >= 1,
        legal_moves_of(b).len() == 0,
        status_of(b) == GameStatus::Checkmate,
    ensures
        side_of(b) == my_color ==> spec_ab_default(b, depth, alpha, beta, my_color, my_move).score
            == -(MATE_VALUE as int) - depth,
        side_of(b) != my_color ==> spec_ab_default(b, depth, alpha, beta, my_color, my_move).score
            == (MATE_VALUE as int) + depth,
        spec_ab_default(b, depth, alpha, beta, my_color, my_move).score >= MATE_VALUE || spec_ab_default(
            b,
            depth,
            alpha,
            beta,
            my_color,
            my_move,
        ).score <= -(MATE_VALUE as int),
{
    lemma_sorted_moves_empty(b);
}

/// Of two mates, the one met with more depth remaining — fewer plies from
/// the root — has the strictly larger magnitude.
pub proof fn lemma_mate_preference(
    b1: chess::Board,
    d1: nat,
    b2: chess::Board,
    d2: nat,
    alpha: int,
    beta: int,
    my_color: Color,
    my_move: bool,
)
    requires
        d1 > d2 >= 1,
        legal_moves_of(b1).len() == 0,
        status_of(b1) == GameStatus::Checkmate,
        legal_moves_of(b2).len() == 0,
        status_of(b2) == GameStatus::Checkmate,
        side_of(b1) == my_color <==> side_of(b2) == my_color,
    ensures
        side_of(b1) != my_color ==> spec_ab_default(b1, d1, alpha, beta, my_color, my_move).score
            > spec_ab_default(b2, d2, alpha, beta, my_color, my_move).score >= MATE_VALUE,
        side_of(b1) == my_color ==> spec_ab_default(b1, d1, alpha, beta, my_color, my_move).score
            < spec_ab_default(b2, d2, alpha, beta, my_color, my_move).score <= -(MATE_VALUE as int),
{
    lemma_checkmate_extremal(b1, d1, alpha, beta, my_color, my_move);
    lemma_checkmate_extremal(b2, d2, alpha, beta, my_color, my_move);
}


proof fn lemma_ab_fold_max_bounds(
    b: chess::Board,
    depth: nat,
    alpha: int,
    beta: int,
    my_color: Color,
    moves: Seq<chess::ChessMove>,
    i: int,
    acc: int,
    best: Option<chess::ChessMove>,
    leaves: nat,
)
    requires
        -(MATE_VALUE as int) - depth - 1 <= acc <= (MATE_VALUE as int) + depth + 1,
    ensures
        -(MATE_VALUE as int) - depth - 1 <= spec_ab_fold_max(
            b,
            depth,
            alpha,
            beta,
            my_color,
            moves,
            i,
            acc,
            best,
            leaves,
        ).score <= (MATE_VALUE as int) + depth + 1,
    decreases depth, moves.len() - i, 1int,
{
    if !(i < 0 || i >= moves.len() || depth == 0) {
        let child_b = make_move_of(b, moves[i]);
        let sorted = spec_sorted_moves(child_b);
        let child = spec_ab(child_b, (depth - 1) as nat, alpha, beta, my_color, false, sorted);
        lemma_ab_score_bounds(child_b, (depth - 1) as nat, alpha, beta, my_color, false, sorted);
        let acc2 = if child.score > acc {
            child.score
        } else {
            acc
        };
        let best2 = if child.score > acc {
            Some(moves[i])
        } else {
            best
        };
        let alpha2 = if child.score > alpha {
            child.score
        } else {
            alpha
        };
        if !(beta <= alpha2) {
            lemma_ab_fold_max_bounds(
                b,
                depth,
                alpha2,
                beta,
                my_color,
                moves,
                i + 1,
                acc2,
                best2,
                leaves + child.leaves,
            );
        }
    }
}

proof fn lemma_ab_fold_min_bounds(
    b: chess::Board,
    depth: nat,
    alpha: int,
    beta: int,
    my_color: Color,
    moves: Seq<chess::ChessMove>,
    i: int,
    acc: int,
    best: Option<chess::ChessMove>,
    leaves: nat,
)
    requires
        -(MATE_VALUE as int) - depth - 1 <= acc <= (MATE_VALUE as int) + depth + 1,
    ensures
        -(MATE_VALUE as int) - depth - 1 <= spec_ab_fold_min(
            b,
            depth,
            alpha,
            beta,
            my_color,
            moves,
            i,
            acc,
            best,
            leaves,
        ).score <= (MATE_VALUE as int) + depth + 1,
    decreases depth, moves.len() - i, 1int,
{
    if !(i < 0 || i >= moves.len() || depth == 0) {
        let child_b = make_move_of(b, moves[i]);
        let sorted = spec_sorted_moves(child_b);
        let child = spec_ab(child_b, (depth - 1) as nat, alpha, beta, my_color, true, sorted);
        lemma_ab_score_bounds(child_b, (depth - 1) as nat, alpha, beta, my_color, true, sorted);
        let acc2 = if child.score < acc {
            child.score
        } else {
            acc
        };
        let best2 = if child.score < acc {
            Some(moves[i])
        } else {
            best
        };
        let beta2 = if child.score < beta {
            child.score
        } else {
            beta
        };
        if !(beta2 <= alpha) {
            lemma_ab_fold_min_bounds(
                b,
                depth,
                alpha,
                beta2,
                my_color,
                moves,
                i + 1,
                acc2,
                best2,
                leaves + child.leaves,
            );
        }
    }
}

/// Every pruned-search score lies within one of the mate scores for its
/// depth.
pub proof fn lemma_ab_score_bounds(
    b: chess::Board,
    depth: nat,
    alpha: int,
    beta: int,
    my_color: Color,
    my_move: bool,
    moves: Seq<chess::ChessMove>,
)
    ensures
        -(MATE_VALUE as int) - depth - 1 <= spec_ab(
            b,
            depth,
            alpha,
            beta,
            my_color,
            my_move,
            moves,
        ).score <= (MATE_VALUE as int) + depth + 1,
    decreases depth, moves.len(), 2int,
{
    if depth == 0 {
        lemma_evaluate_bounds(b, my_color);
    } else if moves.len() == 0 && status_of(b) == GameStatus::Stalemate {
    } else if moves.len() == 0 && status_of(b) == GameStatus::Checkmate {
    } else if my_move {
        lemma_ab_fold_max_bounds(
            b,
            depth,
            alpha,
            beta,
            my_color,
            moves,
            0,
            -(MATE_VALUE as int) - depth - 1,
            None,
            0,
        );
    } else {
        lemma_ab_fold_min_bounds(
            b,
            depth,
            alpha,
            beta,
            my_color,
            moves,
            0,
            (MATE_VALUE as int) + depth + 1,
            None,
            0,
        );
    }
}

proof fn lemma_ab_fold_max_keeps_some(
    b: chess::Board,
    depth: nat,
    alpha: int,
    beta: int,
    my_color: Color,
    moves: Seq<chess::ChessMove>,
    i: int,
    acc: int,
    best: Option<chess::ChessMove>,
    leaves: nat,
)
    requires
        best is Some,
    ensures
        spec_ab_fold_max(b, depth, alpha, beta, my_color, moves, i, acc, best, leaves).best
            is Some,
    decreases moves.len() - i,
{
    if !(i < 0 || i >= moves.len() || depth == 0) {
        let child_b = make_move_of(b, moves[i]);
        let child = spec_ab(
            child_b,
            (depth - 1) as nat,
            alpha,
            beta,
            my_color,
            false,
            spec_sorted_moves(child_b),
        );
        let acc2 = if child.score > acc {
            child.score
        } else {
            acc
        };
        let best2 = if child.score > acc {
            Some(moves[i])
        } else {
            best
        };
        let alpha2 = if child.score > alpha {
            child.score
        } else {
            alpha
        };
        if !(beta <= alpha2) {
            lemma_ab_fold_max_keeps_some(
                b,
                depth,
                alpha2,
                beta,
                my_color,
                moves,
                i + 1,
                acc2,
                best2,
                leaves + child.leaves,
            );
        }
    }
}

proof fn lemma_ab_fold_min_keeps_some(
    b: chess::Board,
    depth: nat,
    alpha: int,
    beta: int,
    my_color: Color,
    moves: Seq<chess::ChessMove>,
    i: int,
    acc: int,
    best: Option<chess::ChessMove>,
    leaves: nat,
)
    requires
        best is Some,
    ensures
        spec_ab_fold_min(b, depth, alpha, beta, my_color, moves, i, acc, best, leaves).best
            is Some,
    decreases moves.len() - i,
{
    if !(i < 0 || i >= moves.len() || depth == 0) {
        let child_b = make_move_of(b, moves[i]);
        let child = spec_ab(
            child_b,
            (depth - 1) as nat,
            alpha,
            beta,
            my_color,
            true,
            spec_sorted_moves(child_b),
        );
        let acc2 = if child.score < acc {
            child.score
        } else {
            acc
        };
        let best2 = if child.score < acc {
            Some(moves[i])
        } else {
            best
        };
        let beta2 = if child.score < beta {
            child.score
        } else {
            beta
        };
        if !(beta2 <= alpha) {
            lemma_ab_fold_min_keeps_some(
                b,
                depth,
                alpha,
                beta2,
                my_color,
                moves,
                i + 1,
                acc2,
                best2,
                leaves + child.leaves,
            );
        }
    }
}

/// A search of at least one ply with any move at all proposes one of its
/// moves: the fold is seeded below (above, for the minimizer) every
/// reachable score, so the first move always displaces the seed — even
/// when every line runs into a forced mate.
pub proof fn lemma_search_proposes_move(
    b: chess::Board,
    depth: nat,
    alpha: int,
    beta: int,
    my_color: Color,
    my_move: bool,
    moves: Seq<chess::ChessMove>,
)
    requires
        depth >= 1,
        moves.len() >= 1,
    ensures
        spec_ab(b, depth, alpha, beta, my_color, my_move, moves).best is Some,
        moves.contains(spec_ab(b, depth, alpha, beta, my_color, my_move, moves).best.unwrap()),
{
    lemma_ab_best_in_moves(b, depth, alpha, beta, my_color, my_move, moves);
    let child_b = make_move_of(b, moves[0]);
    let sorted = spec_sorted_moves(child_b);
    if my_move {
        let seed = -(MATE_VALUE as int) - depth - 1;
        let child = spec_ab(child_b, (depth - 1) as nat, alpha, beta, my_color, false, sorted);
        lemma_ab_score_bounds(child_b, (depth - 1) as nat, alpha, beta, my_color, false, sorted);
        assert(child.score > seed);
        let alpha2 = if child.score > alpha {
            child.score
        } else {
            alpha
        };
        if !(beta <= alpha2) {
            lemma_ab_fold_max_keeps_some(
                b,
                depth,
                alpha2,
                beta,
                my_color,
                moves,
                1,
                child.score,
                Some(moves[0]),
                child.leaves,
            );
        }
    } else {
        let seed = (MATE_VALUE as int) + depth + 1;
        let child = spec_ab(child_b, (depth - 1) as nat, alpha, beta, my_color, true, sorted);
        lemma_ab_score_bounds(child_b, (depth - 1) as nat, alpha, beta, my_color, true, sorted);
        assert(child.score < seed);
        let beta2 = if child.score < beta {
            child.score
        } else {
            beta
        };
        if !(beta2 <= alpha) {
            lemma_ab_fold_min_keeps_some(
                b,
                depth,
                alpha,
                beta2,
                my_color,
                moves,
                1,
                child.score,
                Some(moves[0]),
                child.leaves,
            );
        }
    }
}

} // verus!
