//! The alpha-beta searcher, its quiescence extension, and the
//! iterative-deepening drivers.
//!
//! The searcher is specified against `spec_ab`, an exact mathematical model
//! of the untimed search: whenever a call reports that it completed, its
//! score, move and leaf count are the model's.  A call that ran out of time
//! says so, and promises nothing of its score.

use vstd::prelude::*;

use crate::chessutil::{
    lemma_sorted_moves_subset, move_is_capture, output_sorted_move_list, spec_sorted_moves,
};
use crate::engine::ChessEngine;
use crate::evaluation::{evaluate, spec_evaluate, MATE_VALUE};
use crate::prims::{
    self, legal_moves_of, make_move_of, side_of, status_of, Color, GameStatus,
};

verus! {

/// The deepest search any caller may ask for; keeps mate scores far from
/// the integer range's edge.
pub const MAX_SEARCH_DEPTH: usize = 1000;

/// What one node of the untimed search returns: its score, its preferred
/// move, and how many leaves were evaluated below it.
pub ghost struct AbOutcome {
    pub score: int,
    pub best: Option<chess::ChessMove>,
    pub leaves: nat,
}

/// Saturate an unbounded count at the top of the 64-bit range.
pub open spec fn sat64(x: int) -> int {
    if x > u64::MAX {
        u64::MAX as int
    } else {
        x
    }
}

proof fn lemma_sat_compose(a: int, x: int, y: int)
    requires
        0 <= a,
        0 <= x,
        0 <= y,
    ensures
        sat64(sat64(a + x) + y) == sat64(a + x + y),
{
}

/// Count one more leaf evaluation, saturating rather than wrapping.
fn bump_nodes(engine: &mut ChessEngine)
    ensures
        final(engine).board == old(engine).board,
        final(engine).nodes_visited == sat64(old(engine).nodes_visited + 1),
{
    if engine.nodes_visited < u64::MAX {
        engine.nodes_visited = engine.nodes_visited + 1;
    }
}

/// The move list a search call works on: the one it was handed, or the
/// orderer's output.
pub open spec fn spec_chosen_moves(b: chess::Board, ml: Option<Vec<chess::ChessMove>>) -> Seq<
    chess::ChessMove,
> {
    match ml {
        Some(v) => v@,
        None => spec_sorted_moves(b),
    }
}

/// The maximizing player's fold over the remaining moves `moves[i..]`:
/// recurse on each child with the window so far, keep the best score and
/// the first move that reached it, raise `alpha`, and cut as soon as the
/// window closes.  The searcher seeds `acc` below every reachable score,
/// so with any move at all the fold settles on one.
pub open spec fn spec_ab_fold_max(
    b: chess::Board,
    depth: nat,
    alpha: int,
    beta: int,
    my_color: Color,
    moves: Seq<chess::ChessMove>,
    i: int,
    acc: int,
    best: Option<chess::ChessMove>,
    leaves: nat,
) -> AbOutcome
    decreases depth, moves.len() - i, 0int,
{
    if i < 0 || i >= moves.len() || depth == 0 {
        AbOutcome { score: acc, best, leaves }
    } else {
        let child_b = make_move_of(b, moves[i]);
        let child = spec_ab(
            child_b,
            (depth - 1) as nat,
            alpha,
            beta,
            my_color,
            false,
            spec_sorted_moves(child_b),
        );
        let acc2 = if child.score > acc {
            child.score
        } else {
            acc
        };
        let best2 = if child.score > acc {
            Some(moves[i])
        } else {
            best
        };
        let alpha2 = if child.score > alpha {
            child.score
        } else {
            alpha
        };
        let leaves2 = leaves + child.leaves;
        if beta <= alpha2 {
            AbOutcome { score: acc2, best: best2, leaves: leaves2 }
        } else {
            spec_ab_fold_max(b, depth, alpha2, beta, my_color, moves, i + 1, acc2, best2, leaves2)
        }
    }
}

/// The minimizing player's fold, the mirror image of the maximizing one.
pub open spec fn spec_ab_fold_min(
    b: chess::Board,
    depth: nat,
    alpha: int,
    beta: int,
    my_color: Color,
    moves: Seq<chess::ChessMove>,
    i: int,
    acc: int,
    best: Option<chess::ChessMove>,
    leaves: nat,
) -> AbOutcome
    decreases depth, moves.len() - i, 0int,
{
    if i < 0 || i >= moves.len() || depth == 0 {
        AbOutcome { score: acc, best, leaves }
    } else {
        let child_b = make_move_of(b, moves[i]);
        let child = spec_ab(
            child_b,
            (depth - 1) as nat,
            alpha,
            beta,
            my_color,
            true,
            spec_sorted_moves(child_b),
        );
        let acc2 = if child.score < acc {
            child.score
        } else {
            acc
        };
        let best2 = if child.score < acc {
            Some(moves[i])
        } else {
            best
        };
        let beta2 = if child.score < beta {
            child.score
        } else {
            beta
        };
        let leaves2 = leaves + child.leaves;
        if beta2 <= alpha {
            AbOutcome { score: acc2, best: best2, leaves: leaves2 }
        } else {
            spec_ab_fold_min(b, depth, alpha, beta2, my_color, moves, i + 1, acc2, best2, leaves2)
        }
    }
}

/// The untimed fail-hard alpha-beta search of one node, with a fixed
/// evaluation viewpoint `my_color` and a side bit `my_move`.
///
/// At depth zero the node is a leaf and evaluates statically.  With no
/// moves, a stalemate is worth exactly zero, and a checkmate is worth the
/// mate score: `MATE_VALUE` plus the remaining depth, so a mate met higher
/// in the tree (fewer plies from the root) is worth more; the sign says
/// whose king fell.  Otherwise the node folds over its moves.
pub open spec fn spec_ab(
    b: chess::Board,
    depth: nat,
    alpha: int,
    beta: int,
    my_color: Color,
    my_move: bool,
    moves: Seq<chess::ChessMove>,
) -> AbOutcome
    decreases depth, moves.len(), 1int,
{
    if depth == 0 {
        AbOutcome { score: spec_evaluate(b, my_color), best: None, leaves: 1 }
    } else if moves.len() == 0 && status_of(b) == GameStatus::Stalemate {
        AbOutcome { score: 0, best: None, leaves: 0 }
    } else if moves.len() == 0 && status_of(b) == GameStatus::Checkmate {
        if side_of(b) == my_color {
            AbOutcome { score: -(MATE_VALUE as int) - depth, best: None, leaves: 0 }
        } else {
            AbOutcome { score: (MATE_VALUE as int) + depth, best: None, leaves: 0 }
        }
    } else if my_move {
        spec_ab_fold_max(
            b,
            depth,
            alpha,
            beta,
            my_color,
            moves,
            0,
            -(MATE_VALUE as int) - depth - 1,
            None,
            0,
        )
    } else {
        spec_ab_fold_min(
            b,
            depth,
            alpha,
            beta,
            my_color,
            moves,
            0,
            (MATE_VALUE as int) + depth + 1,
            None,
            0,
        )
    }
}

/// The searcher's model on the move list it would generate itself.
pub open spec fn spec_ab_default(
    b: chess::Board,
    depth: nat,
    alpha: int,
    beta: int,
    my_color: Color,
    my_move: bool,
) -> AbOutcome {
    spec_ab(b, depth, alpha, beta, my_color, my_move, spec_sorted_moves(b))
}

/// Fail-hard alpha-beta search with mate scoring and a polled deadline.
///
/// The result is `(score, best move, completed)`.  When `completed` holds,
/// score and move are exactly `spec_ab`'s, and the engine's node counter
/// advanced by the number of leaves the model counts (saturating at the
/// 64-bit range).  A search without a timer always completes; one whose
/// deadline passes returns `completed == false` and its partial score is
/// not to be trusted.  A completed search with any move available proposes
/// one (`lemma_search_proposes_move`), even when every line loses.  The
/// root position and the engine's board are left untouched.
pub fn search_alpha_beta(
    engine: &mut ChessEngine,
    board: &chess::Board,
    depth: usize,
    alpha: i64,
    beta: i64,
    my_color: Color,
    my_move: bool,
    movelist: Option<Vec<chess::ChessMove>>,
    timer: Option<&std::time::Instant>,
    time_limit: u64,
) -> (r: (i64, Option<chess::ChessMove>, bool))
    requires
        depth <= MAX_SEARCH_DEPTH,
        movelist matches Some(ml) ==> forall|k: int|
            0 <= k < ml@.len() ==> legal_moves_of(*board).contains(#[trigger] ml@[k]),
    ensures
        final(engine).board == old(engine).board,
        timer is None ==> r.2,
        r.2 ==> ({
            let out = spec_ab(
                *board,
                depth as nat,
                alpha as int,
                beta as int,
                my_color,
                my_move,
                spec_chosen_moves(*board, movelist),
            );
            r.0 as int == out.score && r.1 == out.best && final(engine).nodes_visited == sat64(
                old(engine).nodes_visited + out.leaves,
            )
        }),
    decreases depth,
{
    let ghost b = *board;
    let ghost nodes0 = old(engine).nodes_visited as int;

    if depth == 0 {
        let eval = evaluate(board, my_color);
        bump_nodes(engine);
        return (eval, None, true);
    }

    let ghost provided = movelist is Some;
    let moves: Vec<chess::ChessMove> = match movelist {
        Some(ml) => ml,
        None => output_sorted_move_list(board),
    };
    let ghost ms = moves@;
    proof {
        assert forall|k: int| 0 <= k < ms.len() implies legal_moves_of(b).contains(
            #[trigger] ms[k],
        ) by {
            if !provided {
                lemma_sorted_moves_subset(legal_moves_of(b), b, ms[k]);
            }
        }
    }

    if moves.len() == 0 {
        match prims::board_status(board) {
            GameStatus::Stalemate => {
                return (0, None, true);
            },
            GameStatus::Checkmate => {
                if matches!(prims::side_to_move(board), c if c == my_color) {
                    return (-MATE_VALUE - (depth as i64), None, true);
                } else {
                    return (MATE_VALUE + (depth as i64), None, true);
                }
            },
            GameStatus::Ongoing => {},
        }
    }

    let ghost d = depth as nat;
    if my_move {
        let ghost total = spec_ab_fold_max(
            b,
            d,
            alpha as int,
            beta as int,
            my_color,
            ms,
            0,
            -(MATE_VALUE as int) - (depth as int) - 1,
            None,
            0,
        );
        let mut max_eval: i64 = -MATE_VALUE - (depth as i64) - 1;
        let mut best_move: Option<chess::ChessMove> = None;
        let mut finished: bool = true;
        let mut cur_alpha: i64 = alpha;
        let ghost mut leaves_acc: nat = 0nat;
        let n = moves.len();
        let mut i: usize = 0;
        while i < n
            invariant_except_break
                n == ms.len(),
                moves@ == ms,
                0 <= i <= n,
                1 <= depth <= MAX_SEARCH_DEPTH,
                d == depth as nat,
                engine.board == old(engine).board,
                forall|k: int| 0 <= k < ms.len() ==> legal_moves_of(b).contains(#[trigger] ms[k]),
                b == *board,
                0 <= nodes0,
                timer is None ==> finished,
                finished ==> spec_ab_fold_max(
                    b,
                    d,
                    cur_alpha as int,
                    beta as int,
                    my_color,
                    ms,
                    i as int,
                    max_eval as int,
                    best_move,
                    leaves_acc,
                ) == total,
                finished ==> engine.nodes_visited == sat64(nodes0 + leaves_acc),
            ensures
                engine.board == old(engine).board,
                timer is None ==> finished,
                finished ==> total == (AbOutcome {
                    score: max_eval as int,
                    best: best_move,
                    leaves: leaves_acc,
                }),
                finished ==> engine.nodes_visited == sat64(nodes0 + leaves_acc),
            decreases n - i,
        {
            match timer {
                Some(t) => {
                    let elapsed = prims::elapsed_millis(t);
                    if elapsed >= time_limit {
                        return (max_eval, best_move, false);
                    }
                },
                None => {},
            }
            let new_board = prims::make_move_new(board, moves[i]);
            let ghost child_out = spec_ab(
                make_move_of(b, ms[i as int]),
                (d - 1) as nat,
                cur_alpha as int,
                beta as int,
                my_color,
                false,
                spec_sorted_moves(make_move_of(b, ms[i as int])),
            );
            let ghost nodes_before = engine.nodes_visited as int;
            let (eval, _, finished_this) = search_alpha_beta(
                engine,
                &new_board,
                depth - 1,
                cur_alpha,
                beta,
                my_color,
                false,
                None,
                timer,
                time_limit,
            );
            proof {
                if finished && finished_this {
                    lemma_sat_compose(nodes0, leaves_acc as int, child_out.leaves as int);
                }
            }
            finished = finished && finished_this;
            if eval > max_eval {
                max_eval = eval;
                best_move = Some(moves[i]);
            }
            proof {
                leaves_acc = leaves_acc + child_out.leaves;
            }
            if eval > cur_alpha {
                cur_alpha = eval;
            }
            if beta <= cur_alpha {
                break ;
            }
            i = i + 1;
        }
        return (max_eval, best_move, finished);
    } else {
        let ghost total = spec_ab_fold_min(
            b,
            d,
            alpha as int,
            beta as int,
            my_color,
            ms,
            0,
            (MATE_VALUE as int) + (depth as int) + 1,
            None,
            0,
        );
        let mut min_eval: i64 = MATE_VALUE + (depth as i64) + 1;
        let mut worst_move: Option<chess::ChessMove> = None;
        let mut finished: bool = true;
        let mut cur_beta: i64 = beta;
        let ghost mut leaves_acc: nat = 0nat;
        let n = moves.len();
        let mut i: usize = 0;
        while i < n
            invariant_except_break
                n == ms.len(),
                moves@ == ms,
                0 <= i <= n,
                1 <= depth <= MAX_SEARCH_DEPTH,
                d == depth as nat,
                engine.board == old(engine).board,
                forall|k: int| 0 <= k < ms.len() ==> legal_moves_of(b).contains(#[trigger] ms[k]),
                b == *board,
                0 <= nodes0,
                timer is None ==> finished,
                finished ==> spec_ab_fold_min(
                    b,
                    d,
                    alpha as int,
                    cur_beta as int,
                    my_color,
                    ms,
                    i as int,
                    min_eval as int,
                    worst_move,
                    leaves_acc,
                ) == total,
                finished ==> engine.nodes_visited == sat64(nodes0 + leaves_acc),
            ensures
                engine.board == old(engine).board,
                timer is None ==> finished,
                finished ==> total == (AbOutcome {
                    score: min_eval as int,
                    best: worst_move,
                    leaves: leaves_acc,
                }),
                finished ==> engine.nodes_visited == sat64(nodes0 + leaves_acc),
            decreases n - i,
        {
            match timer {
                Some(t) => {
                    let elapsed = prims::elapsed_millis(t);
                    if elapsed >= time_limit {
                        return (min_eval, worst_move, false);
                    }
                },
                None => {},
            }
            let new_board = prims::make_move_new(board, moves[i]);
            let ghost child_out = spec_ab(
                make_move_of(b, ms[i as int]),
                (d - 1) as nat,
                alpha as int,
                cur_beta as int,
                my_color,
                true,
                spec_sorted_moves(make_move_of(b, ms[i as int])),
            );
            let (eval, _, finished_this) = search_alpha_beta(
                engine,
                &new_board,
                depth - 1,
                alpha,
                cur_beta,
                my_color,
                true,
                None,
                timer,
                time_limit,
            );
            proof {
                if finished && finished_this {
                    lemma_sat_compose(nodes0, leaves_acc as int, child_out.leaves as int);
                }
            }
            finished = finished && finished_this;
            if eval < min_eval {
                min_eval = eval;
                worst_move = Some(moves[i]);
            }
            proof {
                leaves_acc = leaves_acc + child_out.leaves;
            }
            if eval < cur_beta {
                cur_beta = eval;
            }
            if cur_beta <= alpha {
                break ;
            }
            i = i + 1;
        }
        return (min_eval, worst_move, finished);
    }
}


/// The capturing moves of `ms`, in order.
pub open spec fn spec_captures_only(
    ms: Seq<chess::ChessMove>,
    b: chess::Board,
) -> Seq<chess::ChessMove>
    decreases ms.len(),
{
    if ms.len() == 0 {
        Seq::empty()
    } else {
        let init = spec_captures_only(ms.drop_last(), b);
        if crate::chessutil::spec_is_capture(b, ms.last()) {
            init.push(ms.last())
        } else {
            init
        }
    }
}

proof fn lemma_captures_only_subset(ms: Seq<chess::ChessMove>, b: chess::Board, m: chess::ChessMove)
    requires
        spec_captures_only(ms, b).contains(m),
    ensures
        ms.contains(m),
    decreases ms.len(),
{
    if ms.len() > 0 {
        let init = spec_captures_only(ms.drop_last(), b);
        if m == ms.last() {
            assert(ms[ms.len() - 1] == m);
        } else {
            assert(init.contains(m)) by {
                let s = spec_captures_only(ms, b);
                let i = choose|i: int| 0 <= i < s.len() && s[i] == m;
                if crate::chessutil::spec_is_capture(b, ms.last()) {
                    assert(s == init.push(ms.last()));
                    assert(i < init.len());
                }
            }
            lemma_captures_only_subset(ms.drop_last(), b, m);
            let j = choose|j: int| 0 <= j < ms.drop_last().len() && ms.drop_last()[j] == m;
            assert(ms[j] == m);
        }
    }
}

/// The capturing moves of a position, in the orderer's order.
pub open spec fn spec_captures_of(b: chess::Board) -> Seq<chess::ChessMove> {
    spec_captures_only(spec_sorted_moves(b), b)
}

/// The maximizing side of the captures-only fold: recurse on each capture,
/// return `beta` itself on a cutoff, raise `alpha` otherwise, and fall back
/// to the stand-pat score when the captures run out.
pub open spec fn spec_qs_fold_max(
    b: chess::Board,
    budget: nat,
    alpha: int,
    beta: int,
    my_color: Color,
    caps: Seq<chess::ChessMove>,
    i: int,
    stand_pat: int,
    leaves: nat,
) -> AbOutcome
    decreases budget, caps.len() - i, 0int,
{
    if i < 0 || i >= caps.len() || budget == 0 {
        AbOutcome { score: stand_pat, best: None, leaves }
    } else {
        let child = spec_qs(
            make_move_of(b, caps[i]),
            (budget - 1) as nat,
            alpha,
            beta,
            my_color,
            false,
        );
        if child.score >= beta {
            AbOutcome { score: beta, best: Some(caps[i]), leaves: leaves + child.leaves }
        } else {
            let alpha2 = if child.score > alpha {
                child.score
            } else {
                alpha
            };
            spec_qs_fold_max(
                b,
                budget,
                alpha2,
                beta,
                my_color,
                caps,
                i + 1,
                stand_pat,
                leaves + child.leaves,
            )
        }
    }
}

/// The minimizing side of the captures-only fold.
pub open spec fn spec_qs_fold_min(
    b: chess::Board,
    budget: nat,
    alpha: int,
    beta: int,
    my_color: Color,
    caps: Seq<chess::ChessMove>,
    i: int,
    stand_pat: int,
    leaves: nat,
) -> AbOutcome
    decreases budget, caps.len() - i, 0int,
{
    if i < 0 || i >= caps.len() || budget == 0 {
        AbOutcome { score: stand_pat, best: None, leaves }
    } else {
        let child = spec_qs(
            make_move_of(b, caps[i]),
            (budget - 1) as nat,
            alpha,
            beta,
            my_color,
            true,
        );
        if child.score <= alpha {
            AbOutcome { score: alpha, best: Some(caps[i]), leaves: leaves + child.leaves }
        } else {
            let beta2 = if child.score < beta {
                child.score
            } else {
                beta
            };
            spec_qs_fold_min(
                b,
                budget,
                alpha,
                beta2,
                my_color,
                caps,
                i + 1,
                stand_pat,
                leaves + child.leaves,
            )
        }
    }
}

/// The captures-only search past the horizon.  With the ply budget gone the
/// node evaluates statically; otherwise the stand-pat score may end the
/// node at once, tightens the window, and is the fallback when no capture
/// cuts.
pub open spec fn spec_qs(
    b: chess::Board,
    budget: nat,
    alpha: int,
    beta: int,
    my_color: Color,
    my_move: bool,
) -> AbOutcome
    decreases budget, spec_captures_of(b).len(), 1int,
{
    if budget == 0 {
        AbOutcome { score: spec_evaluate(b, my_color), best: None, leaves: 1 }
    } else {
        let sp = spec_evaluate(b, my_color);
        if my_move {
            if sp >= beta {
                AbOutcome { score: sp, best: None, leaves: 1 }
            } else {
                let alpha2 = if sp > alpha {
                    sp
                } else {
                    alpha
                };
                spec_qs_fold_max(b, budget, alpha2, beta, my_color, spec_captures_of(b), 0, sp, 1)
            }
        } else {
            if sp <= alpha {
                AbOutcome { score: sp, best: None, leaves: 1 }
            } else {
                let beta2 = if sp < beta {
                    sp
                } else {
                    beta
                };
                spec_qs_fold_min(b, budget, alpha, beta2, my_color, spec_captures_of(b), 0, sp, 1)
            }
        }
    }
}

/// The capturing moves of the position, in the orderer's order.
fn captures_of(board: &chess::Board) -> (r: Vec<chess::ChessMove>)
    ensures
        r@ == spec_captures_of(*board),
        forall|k: int| 0 <= k < r@.len() ==> legal_moves_of(*board).contains(#[trigger] r@[k]),
{
    let all_moves = output_sorted_move_list(board);
    let ghost ms = all_moves@;
    let mut caps: Vec<chess::ChessMove> = Vec::new();
    let n = all_moves.len();
    let mut i: usize = 0;
    while i < n
        invariant
            n == ms.len(),
            all_moves@ == ms,
            ms == spec_sorted_moves(*board),
            0 <= i <= n,
            caps@ == spec_captures_only(ms.take(i as int), *board),
        decreases n - i,
    {
        proof {
            assert(ms.take(i + 1).drop_last() == ms.take(i as int));
            assert(ms.take(i + 1).last() == ms[i as int]);
        }
        let m = prims::copy_move(&all_moves[i]);
        if move_is_capture(board, &m) {
            caps.push(m);
        }
        i = i + 1;
    }
    proof {
        assert(ms.take(n as int) == ms);
        assert forall|k: int| 0 <= k < caps@.len() implies legal_moves_of(*board).contains(
            #[trigger] caps@[k],
        ) by {
            lemma_captures_only_subset(ms, *board, caps@[k]);
            lemma_sorted_moves_subset(legal_moves_of(*board), *board, caps@[k]);
        }
    }
    caps
}

/// Captures-only search to soften the horizon effect.  The result's score,
/// move and leaf count (stand-pat evaluations included) are exactly
/// `spec_qs`'s; the completion flag is always true, since this search is
/// never timed.
pub fn quiescence_search(
    engine: &mut ChessEngine,
    board: &chess::Board,
    qs_depth_hard_limit: u32,
    alpha: i64,
    beta: i64,
    my_color: Color,
    my_move: bool,
) -> (r: (i64, Option<chess::ChessMove>, bool))
    ensures
        final(engine).board == old(engine).board,
        r.2,
        ({
            let out = spec_qs(
                *board,
                qs_depth_hard_limit as nat,
                alpha as int,
                beta as int,
                my_color,
                my_move,
            );
            r.0 as int == out.score && r.1 == out.best && final(engine).nodes_visited == sat64(
                old(engine).nodes_visited + out.leaves,
            )
        }),
    decreases qs_depth_hard_limit,
{
    let ghost b = *board;
    let ghost nodes0 = old(engine).nodes_visited as int;
    if qs_depth_hard_limit == 0 {
        let eval = evaluate(board, my_color);
        bump_nodes(engine);
        return (eval, None, true);
    }
    let stand_pat = evaluate(board, my_color);
    bump_nodes(engine);
    let ghost budget = qs_depth_hard_limit as nat;

    if my_move {
        if stand_pat >= beta {
            return (stand_pat, None, true);
        }
        let mut cur_alpha: i64 = if stand_pat > alpha {
            stand_pat
        } else {
            alpha
        };
        let caps = captures_of(board);
        let ghost cs = caps@;
        let ghost total = spec_qs_fold_max(
            b,
            budget,
            cur_alpha as int,
            beta as int,
            my_color,
            cs,
            0,
            stand_pat as int,
            1,
        );
        let ghost mut leaves_acc: nat = 1nat;
        let n = caps.len();
        let mut i: usize = 0;
        while i < n
            invariant
                n == cs.len(),
                caps@ == cs,
                0 <= i <= n,
                qs_depth_hard_limit >= 1,
                budget == qs_depth_hard_limit as nat,
                b == *board,
                0 <= nodes0,
                nodes0 == old(engine).nodes_visited as int,
                engine.board == old(engine).board,
                forall|k: int| 0 <= k < cs.len() ==> legal_moves_of(b).contains(#[trigger] cs[k]),
                my_move,
                spec_qs(b, budget, alpha as int, beta as int, my_color, true) == total,
                spec_qs_fold_max(
                    b,
                    budget,
                    cur_alpha as int,
                    beta as int,
                    my_color,
                    cs,
                    i as int,
                    stand_pat as int,
                    leaves_acc,
                ) == total,
                engine.nodes_visited == sat64(nodes0 + leaves_acc),
            decreases n - i,
        {
            let new_board = prims::make_move_new(board, caps[i]);
            let ghost child_out = spec_qs(
                make_move_of(b, cs[i as int]),
                (budget - 1) as nat,
                cur_alpha as int,
                beta as int,
                my_color,
                false,
            );
            let (eval, _, _) = quiescence_search(
                engine,
                &new_board,
                qs_depth_hard_limit - 1,
                cur_alpha,
                beta,
                my_color,
                false,
            );
            let ghost old_leaves = leaves_acc;
            proof {
                lemma_sat_compose(nodes0, leaves_acc as int, child_out.leaves as int);
                leaves_acc = leaves_acc + child_out.leaves;
            }
            if eval >= beta {
                proof {
                    assert(total == spec_qs_fold_max(
                        b,
                        budget,
                        cur_alpha as int,
                        beta as int,
                        my_color,
                        cs,
                        i as int,
                        stand_pat as int,
                        old_leaves,
                    ));
                    assert(total == (AbOutcome {
                        score: beta as int,
                        best: Some(cs[i as int]),
                        leaves: old_leaves + child_out.leaves,
                    }));
                }
                return (beta, Some(caps[i]), true);
            }
            if eval > cur_alpha {
                cur_alpha = eval;
            }
            i = i + 1;
        }
        return (stand_pat, None, true);
    } else {
        if stand_pat <= alpha {
            return (stand_pat, None, true);
        }
        let mut cur_beta: i64 = if stand_pat < beta {
            stand_pat
        } else {
            beta
        };
        let caps = captures_of(board);
        let ghost cs = caps@;
        let ghost total = spec_qs_fold_min(
            b,
            budget,
            alpha as int,
            cur_beta as int,
            my_color,
            cs,
            0,
            stand_pat as int,
            1,
        );
        let ghost mut leaves_acc: nat = 1nat;
        let n = caps.len();
        let mut i: usize = 0;
        while i < n
            invariant
                n == cs.len(),
                caps@ == cs,
                0 <= i <= n,
                qs_depth_hard_limit >= 1,
                budget == qs_depth_hard_limit as nat,
                b == *board,
                0 <= nodes0,
                nodes0 == old(engine).nodes_visited as int,
                engine.board == old(engine).board,
                forall|k: int| 0 <= k < cs.len() ==> legal_moves_of(b).contains(#[trigger] cs[k]),
                !my_move,
                spec_qs(b, budget, alpha as int, beta as int, my_color, false) == total,
                spec_qs_fold_min(
                    b,
                    budget,
                    alpha as int,
                    cur_beta as int,
                    my_color,
                    cs,
                    i as int,
                    stand_pat as int,
                    leaves_acc,
                ) == total,
                engine.nodes_visited == sat64(nodes0 + leaves_acc),
            decreases n - i,
        {
            let new_board = prims::make_move_new(board, caps[i]);
            let ghost child_out = spec_qs(
                make_move_of(b, cs[i as int]),
                (budget - 1) as nat,
                alpha as int,
                cur_beta as int,
                my_color,
                true,
            );
            let (eval, _, _) = quiescence_search(
                engine,
                &new_board,
                qs_depth_hard_limit - 1,
                alpha,
                cur_beta,
                my_color,
                true,
            );
            let ghost old_leaves = leaves_acc;
            proof {
                lemma_sat_compose(nodes0, leaves_acc as int, child_out.leaves as int);
                leaves_acc = leaves_acc + child_out.leaves;
            }
            if eval <= alpha {
                proof {
                    assert(total == spec_qs_fold_min(
                        b,
                        budget,
                        alpha as int,
                        cur_beta as int,
                        my_color,
                        cs,
                        i as int,
                        stand_pat as int,
                        old_leaves,
                    ));
                    assert(total == (AbOutcome {
                        score: alpha as int,
                        best: Some(cs[i as int]),
                        leaves: old_leaves + child_out.leaves,
                    }));
                }
                return (alpha, Some(caps[i]), true);
            }
            if eval < cur_beta {
                cur_beta = eval;
            }
            i = i + 1;
        }
        return (stand_pat, None, true);
    }
}


/// The maximizing fold of the quiescence-extended search; identical to the
/// plain one but for what a leaf is.
pub open spec fn spec_abq_fold_max(
    b: chess::Board,
    depth: nat,
    alpha: int,
    beta: int,
    my_color: Color,
    moves: Seq<chess::ChessMove>,
    i: int,
    acc: int,
    best: Option<chess::ChessMove>,
    leaves: nat,
) -> AbOutcome
    decreases depth, moves.len() - i, 0int,
{
    if i < 0 || i >= moves.len() || depth == 0 {
        AbOutcome { score: acc, best, leaves }
    } else {
        let child_b = make_move_of(b, moves[i]);
        let child = spec_abq(
            child_b,
            (depth - 1) as nat,
            alpha,
            beta,
            my_color,
            false,
            spec_sorted_moves(child_b),
        );
        let acc2 = if child.score > acc {
            child.score
        } else {
            acc
        };
        let best2 = if child.score > acc {
            Some(moves[i])
        } else {
            best
        };
        let alpha2 = if child.score > alpha {
            child.score
        } else {
            alpha
        };
        let leaves2 = leaves + child.leaves;
        if beta <= alpha2 {
            AbOutcome { score: acc2, best: best2, leaves: leaves2 }
        } else {
            spec_abq_fold_max(b, depth, alpha2, beta, my_color, moves, i + 1, acc2, best2, leaves2)
        }
    }
}

/// The minimizing fold of the quiescence-extended search.
pub open spec fn spec_abq_fold_min(
    b: chess::Board,
    depth: nat,
    alpha: int,
    beta: int,
    my_color: Color,
    moves: Seq<chess::ChessMove>,
    i: int,
    acc: int,
    best: Option<chess::ChessMove>,
    leaves: nat,
) -> AbOutcome
    decreases depth, moves.len() - i, 0int,
{
    if i < 0 || i >= moves.len() || depth == 0 {
        AbOutcome { score: acc, best, leaves }
    } else {
        let child_b = make_move_of(b, moves[i]);
        let child = spec_abq(
            child_b,
            (depth - 1) as nat,
            alpha,
            beta,
            my_color,
            true,
            spec_sorted_moves(child_b),
        );
        let acc2 = if child.score < acc {
            child.score
        } else {
            acc
        };
        let best2 = if child.score < acc {
            Some(moves[i])
        } else {
            best
        };
        let beta2 = if child.score < beta {
            child.score
        } else {
            beta
        };
        let leaves2 = leaves + child.leaves;
        if beta2 <= alpha {
            AbOutcome { score: acc2, best: best2, leaves: leaves2 }
        } else {
            spec_abq_fold_min(b, depth, alpha, beta2, my_color, moves, i + 1, acc2, best2, leaves2)
        }
    }
}

/// The untimed alpha-beta search with the quiescence extension: the same
/// tree as `spec_ab`, except that a depth-zero node runs a one-ply
/// captures-only search instead of evaluating at once.
pub open spec fn spec_abq(
    b: chess::Board,
    depth: nat,
    alpha: int,
    beta: int,
    my_color: Color,
    my_move: bool,
    moves: Seq<chess::ChessMove>,
) -> AbOutcome
    decreases depth, moves.len(), 1int,
{
    if depth == 0 {
        let q = spec_qs(b, 1, alpha, beta, my_color, my_move);
        AbOutcome { score: q.score, best: None, leaves: q.leaves }
    } else if moves.len() == 0 && status_of(b) == GameStatus::Stalemate {
        AbOutcome { score: 0, best: None, leaves: 0 }
    } else if moves.len() == 0 && status_of(b) == GameStatus::Checkmate {
        if side_of(b) == my_color {
            AbOutcome { score: -(MATE_VALUE as int) - depth, best: None, leaves: 0 }
        } else {
            AbOutcome { score: (MATE_VALUE as int) + depth, best: None, leaves: 0 }
        }
    } else if my_move {
        spec_abq_fold_max(
            b,
            depth,
            alpha,
            beta,
            my_color,
            moves,
            0,
            -(MATE_VALUE as int) - depth - 1,
            None,
            0,
        )
    } else {
        spec_abq_fold_min(
            b,
            depth,
            alpha,
            beta,
            my_color,
            moves,
            0,
            (MATE_VALUE as int) + depth + 1,
            None,
            0,
        )
    }
}

/// The quiescence-extended searcher's model on its own move list.
pub open spec fn spec_abq_default(
    b: chess::Board,
    depth: nat,
    alpha: int,
    beta: int,
    my_color: Color,
    my_move: bool,
) -> AbOutcome {
    spec_abq(b, depth, alpha, beta, my_color, my_move, spec_sorted_moves(b))
}

/// The alpha-beta searcher with the quiescence extension: at the horizon
/// it plays out captures for one more ply instead of evaluating at once.
/// The contract is the plain searcher's, against `spec_abq`.
pub fn search_alpha_beta_with_quiescence(
    engine: &mut ChessEngine,
    board: &chess::Board,
    depth: usize,
    alpha: i64,
    beta: i64,
    my_color: Color,
    my_move: bool,
    movelist: Option<Vec<chess::ChessMove>>,
    timer: Option<&std::time::Instant>,
    time_limit: u64,
) -> (r: (i64, Option<chess::ChessMove>, bool))
    requires
        depth <= MAX_SEARCH_DEPTH,
        movelist matches Some(ml) ==> forall|k: int|
            0 <= k < ml@.len() ==> legal_moves_of(*board).contains(#[trigger] ml@[k]),
    ensures
        final(engine).board == old(engine).board,
        timer is None ==> r.2,
        r.2 ==> ({
            let out = spec_abq(
                *board,
                depth as nat,
                alpha as int,
                beta as int,
                my_color,
                my_move,
                spec_chosen_moves(*board, movelist),
            );
            r.0 as int == out.score && r.1 == out.best && final(engine).nodes_visited == sat64(
                old(engine).nodes_visited + out.leaves,
            )
        }),
    decreases depth,
{
    let ghost b = *board;
    let ghost nodes0 = old(engine).nodes_visited as int;

    if depth == 0 {
        let (eval, _, _) = quiescence_search(engine, board, 1, alpha, beta, my_color, my_move);
        return (eval, None, true);
    }

    let ghost provided = movelist is Some;
    let moves: Vec<chess::ChessMove> = match movelist {
        Some(ml) => ml,
        None => output_sorted_move_list(board),
    };
    let ghost ms = moves@;
    proof {
        assert forall|k: int| 0 <= k < ms.len() implies legal_moves_of(b).contains(
            #[trigger] ms[k],
        ) by {
            if !provided {
                lemma_sorted_moves_subset(legal_moves_of(b), b, ms[k]);
            }
        }
    }

    if moves.len() == 0 {
        match prims::board_status(board) {
            GameStatus::Stalemate => {
                return (0, None, true);
            },
            GameStatus::Checkmate => {
                if matches!(prims::side_to_move(board), c if c == my_color) {
                    return (-MATE_VALUE - (depth as i64), None, true);
                } else {
                    return (MATE_VALUE + (depth as i64), None, true);
                }
            },
            GameStatus::Ongoing => {},
        }
    }

    let ghost d = depth as nat;
    if my_move {
        let ghost total = spec_abq_fold_max(
            b,
            d,
            alpha as int,
            beta as int,
            my_color,
            ms,
            0,
            -(MATE_VALUE as int) - (depth as int) - 1,
            None,
            0,
        );
        let mut max_eval: i64 = -MATE_VALUE - (depth as i64) - 1;
        let mut best_move: Option<chess::ChessMove> = None;
        let mut finished: bool = true;
        let mut cur_alpha: i64 = alpha;
        let ghost mut leaves_acc: nat = 0nat;
        let n = moves.len();
        let mut i: usize = 0;
        while i < n
            invariant_except_break
                n == ms.len(),
                moves@ == ms,
                0 <= i <= n,
                1 <= depth <= MAX_SEARCH_DEPTH,
                d == depth as nat,
                engine.board == old(engine).board,
                forall|k: int| 0 <= k < ms.len() ==> legal_moves_of(b).contains(#[trigger] ms[k]),
                b == *board,
                0 <= nodes0,
                timer is None ==> finished,
                finished ==> spec_abq_fold_max(
                    b,
                    d,
                    cur_alpha as int,
                    beta as int,
                    my_color,
                    ms,
                    i as int,
                    max_eval as int,
                    best_move,
                    leaves_acc,
                ) == total,
                finished ==> engine.nodes_visited == sat64(nodes0 + leaves_acc),
            ensures
                engine.board == old(engine).board,
                timer is None ==> finished,
                finished ==> total == (AbOutcome {
                    score: max_eval as int,
                    best: best_move,
                    leaves: leaves_acc,
                }),
                finished ==> engine.nodes_visited == sat64(nodes0 + leaves_acc),
            decreases n - i,
        {
            match timer {
                Some(t) => {
                    let elapsed = prims::elapsed_millis(t);
                    if elapsed >= time_limit {
                        return (max_eval, best_move, false);
                    }
                },
                None => {},
            }
            let new_board = prims::make_move_new(board, moves[i]);
            let ghost child_out = spec_abq(
                make_move_of(b, ms[i as int]),
                (d - 1) as nat,
                cur_alpha as int,
                beta as int,
                my_color,
                false,
                spec_sorted_moves(make_move_of(b, ms[i as int])),
            );
            let ghost nodes_before = engine.nodes_visited as int;
            let (eval, _, finished_this) = search_alpha_beta_with_quiescence(
                engine,
                &new_board,
                depth - 1,
                cur_alpha,
                beta,
                my_color,
                false,
                None,
                timer,
                time_limit,
            );
            proof {
                if finished && finished_this {
                    lemma_sat_compose(nodes0, leaves_acc as int, child_out.leaves as int);
                }
            }
            finished = finished && finished_this;
            if eval > max_eval {
                max_eval = eval;
                best_move = Some(moves[i]);
            }
            proof {
                leaves_acc = leaves_acc + child_out.leaves;
            }
            if eval > cur_alpha {
                cur_alpha = eval;
            }
            if beta <= cur_alpha {
                break ;
            }
            i = i + 1;
        }
        return (max_eval, best_move, finished);
    } else {
        let ghost total = spec_abq_fold_min(
            b,
            d,
            alpha as int,
            beta as int,
            my_color,
            ms,
            0,
            (MATE_VALUE as int) + (depth as int) + 1,
            None,
            0,
        );
        let mut min_eval: i64 = MATE_VALUE + (depth as i64) + 1;
        let mut worst_move: Option<chess::ChessMove> = None;
        let mut finished: bool = true;
        let mut cur_beta: i64 = beta;
        let ghost mut leaves_acc: nat = 0nat;
        let n = moves.len();
        let mut i: usize = 0;
        while i < n
            invariant_except_break
                n == ms.len(),
                moves@ == ms,
                0 <= i <= n,
                1 <= depth <= MAX_SEARCH_DEPTH,
                d == depth as nat,
                engine.board == old(engine).board,
                forall|k: int| 0 <= k < ms.len() ==> legal_moves_of(b).contains(#[trigger] ms[k]),
                b == *board,
                0 <= nodes0,
                timer is None ==> finished,
                finished ==> spec_abq_fold_min(
                    b,
                    d,
                    alpha as int,
                    cur_beta as int,
                    my_color,
                    ms,
                    i as int,
                    min_eval as int,
                    worst_move,
                    leaves_acc,
                ) == total,
                finished ==> engine.nodes_visited == sat64(nodes0 + leaves_acc),
            ensures
                engine.board == old(engine).board,
                timer is None ==> finished,
                finished ==> total == (AbOutcome {
                    score: min_eval as int,
                    best: worst_move,
                    leaves: leaves_acc,
                }),
                finished ==> engine.nodes_visited == sat64(nodes0 + leaves_acc),
            decreases n - i,
        {
            match timer {
                Some(t) => {
                    let elapsed = prims::elapsed_millis(t);
                    if elapsed >= time_limit {
                        return (min_eval, worst_move, false);
                    }
                },
                None => {},
            }
            let new_board = prims::make_move_new(board, moves[i]);
            let ghost child_out = spec_abq(
                make_move_of(b, ms[i as int]),
                (d - 1) as nat,
                alpha as int,
                cur_beta as int,
                my_color,
                true,
                spec_sorted_moves(make_move_of(b, ms[i as int])),
            );
            let (eval, _, finished_this) = search_alpha_beta_with_quiescence(
                engine,
                &new_board,
                depth - 1,
                alpha,
                cur_beta,
                my_color,
                true,
                None,
                timer,
                time_limit,
            );
            proof {
                if finished && finished_this {
                    lemma_sat_compose(nodes0, leaves_acc as int, child_out.leaves as int);
                }
            }
            finished = finished && finished_this;
            if eval < min_eval {
                min_eval = eval;
                worst_move = Some(moves[i]);
            }
            proof {
                leaves_acc = leaves_acc + child_out.leaves;
            }
            if eval < cur_beta {
                cur_beta = eval;
            }
            if cur_beta <= alpha {
                break ;
            }
            i = i + 1;
        }
        return (min_eval, worst_move, finished);
    }
}


// === Iterative deepening ===

proof fn lemma_ab_fold_max_best_in(
    b: chess::Board,
    depth: nat,
    alpha: int,
    beta: int,
    my_color: Color,
    moves: Seq<chess::ChessMove>,
    i: int,
    acc: int,
    best: Option<chess::ChessMove>,
    leaves: nat,
)
    requires
        best matches Some(m) ==> moves.contains(m),
    ensures
        spec_ab_fold_max(b, depth, alpha, beta, my_color, moves, i, acc, best, leaves).best
            matches Some(m2) ==> moves.contains(m2),
    decreases moves.len() - i,
{
    if !(i < 0 || i >= moves.len() || depth == 0) {
        let child_b = make_move_of(b, moves[i]);
        let child = spec_ab(
            child_b,
            (depth - 1) as nat,
            alpha,
            beta,
            my_color,
            false,
            spec_sorted_moves(child_b),
        );
        let acc2 = if child.score > acc {
            child.score
        } else {
            acc
        };
        let best2 = if child.score > acc {
            Some(moves[i])
        } else {
            best
        };
        let alpha2 = if child.score > alpha {
            child.score
        } else {
            alpha
        };
        if !(beta <= alpha2) {
            lemma_ab_fold_max_best_in(
                b,
                depth,
                alpha2,
                beta,
                my_color,
                moves,
                i + 1,
                acc2,
                best2,
                leaves + child.leaves,
            );
        }
    }
}

proof fn lemma_ab_fold_min_best_in(
    b: chess::Board,
    depth: nat,
    alpha: int,
    beta: int,
    my_color: Color,
    moves: Seq<chess::ChessMove>,
    i: int,
    acc: int,
    best: Option<chess::ChessMove>,
    leaves: nat,
)
    requires
        best matches Some(m) ==> moves.contains(m),
    ensures
        spec_ab_fold_min(b, depth, alpha, beta, my_color, moves, i, acc, best, leaves).best
            matches Some(m2) ==> moves.contains(m2),
    decreases moves.len() - i,
{
    if !(i < 0 || i >= moves.len() || depth == 0) {
        let child_b = make_move_of(b, moves[i]);
        let child = spec_ab(
            child_b,
            (depth - 1) as nat,
            alpha,
            beta,
            my_color,
            true,
            spec_sorted_moves(child_b),
        );
        let acc2 = if child.score < acc {
            child.score
        } else {
            acc
        };
        let best2 = if child.score < acc {
            Some(moves[i])
        } else {
            best
        };
        let beta2 = if child.score < beta {
            child.score
        } else {
            beta
        };
        if !(beta2 <= alpha) {
            lemma_ab_fold_min_best_in(
                b,
                depth,
                alpha,
                beta2,
                my_color,
                moves,
                i + 1,
                acc2,
                best2,
                leaves + child.leaves,
            );
        }
    }
}

/// The move the searcher prefers is one of the moves it was given.
pub proof fn lemma_ab_best_in_moves(
    b: chess::Board,
    depth: nat,
    alpha: int,
    beta: int,
    my_color: Color,
    my_move: bool,
    moves: Seq<chess::ChessMove>,
)
    ensures
        spec_ab(b, depth, alpha, beta, my_color, my_move, moves).best matches Some(m)
            ==> moves.contains(m),
{
    if depth == 0 {
    } else if moves.len() == 0 && status_of(b) == GameStatus::Stalemate {
    } else if moves.len() == 0 && status_of(b) == GameStatus::Checkmate {
    } else if my_move {
        lemma_ab_fold_max_best_in(
            b,
            depth,
            alpha,
            beta,
            my_color,
            moves,
            0,
            -(MATE_VALUE as int) - depth - 1,
            None,
            0,
        );
    } else {
        lemma_ab_fold_min_best_in(
            b,
            depth,
            alpha,
            beta,
            my_color,
            moves,
            0,
            (MATE_VALUE as int) + depth + 1,
            None,
            0,
        );
    }
}

/// `ms` with every occurrence of `cm` removed, order kept.
pub open spec fn spec_remove_move(
    ms: Seq<chess::ChessMove>,
    cm: chess::ChessMove,
) -> Seq<chess::ChessMove>
    decreases ms.len(),
{
    if ms.len() == 0 {
        Seq::empty()
    } else {
        let init = spec_remove_move(ms.drop_last(), cm);
        if ms.last() == cm {
            init
        } else {
            init.push(ms.last())
        }
    }
}

proof fn lemma_remove_move_subset(ms: Seq<chess::ChessMove>, cm: chess::ChessMove, m: chess::ChessMove)
    requires
        spec_remove_move(ms, cm).contains(m),
    ensures
        ms.contains(m),
    decreases ms.len(),
{
    if ms.len() > 0 {
        let init = spec_remove_move(ms.drop_last(), cm);
        if m == ms.last() {
            assert(ms[ms.len() - 1] == m);
        } else {
            assert(init.contains(m)) by {
                let s = spec_remove_move(ms, cm);
                let i = choose|i: int| 0 <= i < s.len() && s[i] == m;
                if ms.last() != cm {
                    assert(s == init.push(ms.last()));
                    assert(i < init.len());
                }
            }
            lemma_remove_move_subset(ms.drop_last(), cm, m);
            let j = choose|j: int| 0 <= j < ms.drop_last().len() && ms.drop_last()[j] == m;
            assert(ms[j] == m);
        }
    }
}

/// The root move list of one deepening iteration: the orderer's output,
/// with the previous iteration's best move pulled to the front if there
/// was one.
pub open spec fn spec_reordered(b: chess::Board, pb: Option<chess::ChessMove>) -> Seq<
    chess::ChessMove,
> {
    match pb {
        None => spec_sorted_moves(b),
        Some(cm) => seq![cm] + spec_remove_move(spec_sorted_moves(b), cm),
    }
}

/// Build one deepening iteration's root move list.
pub(crate) fn reordered_move_list(board: &chess::Board, prev_best: &Option<chess::ChessMove>) -> (r: Vec<
    chess::ChessMove,
>)
    requires
        *prev_best matches Some(cm) ==> legal_moves_of(*board).contains(cm),
    ensures
        r@ == spec_reordered(*board, *prev_best),
        forall|k: int| 0 <= k < r@.len() ==> legal_moves_of(*board).contains(#[trigger] r@[k]),
{
    let sorted = output_sorted_move_list(board);
    let ghost ms = sorted@;
    match prev_best {
        None => {
            proof {
                assert forall|k: int| 0 <= k < sorted@.len() implies legal_moves_of(
                    *board,
                ).contains(#[trigger] sorted@[k]) by {
                    lemma_sorted_moves_subset(legal_moves_of(*board), *board, sorted@[k]);
                }
            }
            sorted
        },
        Some(cm) => {
            let mut out: Vec<chess::ChessMove> = Vec::new();
            out.push(prims::copy_move(cm));
            let n = sorted.len();
            let mut i: usize = 0;
            while i < n
                invariant
                    n == ms.len(),
                    sorted@ == ms,
                    0 <= i <= n,
                    out@ == seq![*cm] + spec_remove_move(ms.take(i as int), *cm),
                decreases n - i,
            {
                proof {
                    assert(ms.take(i + 1).drop_last() == ms.take(i as int));
                    assert(ms.take(i + 1).last() == ms[i as int]);
                }
                let m = prims::copy_move(&sorted[i]);
                if !prims::moves_equal(&m, cm) {
                    out.push(m);
                }
                i = i + 1;
            }
            proof {
                assert(ms.take(n as int) == ms);
                assert forall|k: int| 0 <= k < out@.len() implies legal_moves_of(*board).contains(
                    #[trigger] out@[k],
                ) by {
                    if k == 0 {
                    } else {
                        assert(out@[k] == spec_remove_move(ms, *cm)[k - 1]);
                        assert(spec_remove_move(ms, *cm).contains(out@[k]));
                        lemma_remove_move_subset(ms, *cm, out@[k]);
                        lemma_sorted_moves_subset(legal_moves_of(*board), *board, out@[k]);
                    }
                }
            }
            out
        },
    }
}

/// One committed result of iterative deepening: at depth `d`, with the
/// previous best `pb` pulled to the front, the searcher over the full
/// window returned this score and chose this move.
pub open spec fn spec_id_committed(
    b: chess::Board,
    d: nat,
    pb: Option<chess::ChessMove>,
    my_color: Color,
    my_move: bool,
    score: int,
    m: chess::ChessMove,
) -> bool {
    let out = spec_ab(
        b,
        d,
        -(MATE_VALUE as int),
        MATE_VALUE as int,
        my_color,
        my_move,
        spec_reordered(b, pb),
    );
    out.score == score && out.best == Some(m)
}

/// What iterative deepening promises of its result: a returned move is
/// exactly what the full-window searcher chose, together with its score,
/// at some depth below `max_depth`, on the move order of that iteration.
pub open spec fn spec_id_result(
    b: chess::Board,
    max_depth: int,
    my_color: Color,
    my_move: bool,
    score: int,
    mo: Option<chess::ChessMove>,
) -> bool {
    mo matches Some(m) ==> exists|d: nat, pb: Option<chess::ChessMove>|
        1 <= d < max_depth && #[trigger] spec_id_committed(b, d, pb, my_color, my_move, score, m)
}

/// What iterative deepening promises of the move alone: at some depth
/// below `max_depth`, on that iteration's move order, the full-window
/// searcher chose it (with whatever score).
pub open spec fn spec_id_chosen(
    b: chess::Board,
    max_depth: int,
    my_color: Color,
    my_move: bool,
    mo: Option<chess::ChessMove>,
) -> bool {
    mo matches Some(m) ==> exists|s: int, d: nat, pb: Option<chess::ChessMove>|
        1 <= d < max_depth && #[trigger] spec_id_committed(b, d, pb, my_color, my_move, s, m)
}

/// Iterative deepening with a single flat deadline: search depth 1, 2, ...
/// until the clock runs out, keeping the last completed result.
///
/// Whatever the clock did, a returned move is a legal root move, and the
/// returned pair is exactly what the full-window searcher reports at some
/// depth below `max_depth` on that iteration's move order.  With no
/// committed iteration the pair is the initial `(-MATE_VALUE, None)`.
pub fn iterative_deepening_search(
    engine: &mut ChessEngine,
    board: &chess::Board,
    max_depth: usize,
    time_limit: u64,
    my_color: Color,
    my_move: bool,
) -> (r: (i64, Option<chess::ChessMove>))
    requires
        max_depth <= MAX_SEARCH_DEPTH,
    ensures
        final(engine).board == old(engine).board,
        r.1 is None ==> r.0 == -MATE_VALUE,
        r.1 is Some ==> legal_moves_of(*board).contains(r.1.unwrap()),
        spec_id_result(*board, max_depth as int, my_color, my_move, r.0 as int, r.1),
        spec_id_chosen(*board, max_depth as int, my_color, my_move, r.1),
{
    let ghost b = *board;
    let timer = prims::now_instant();

    let mut best_move: Option<chess::ChessMove> = None;
    let mut prev_best_move: Option<chess::ChessMove> = None;
    let mut best_score: i64 = -MATE_VALUE;
    let ghost mut committed_d: nat = 0nat;
    let ghost mut committed_pb: Option<chess::ChessMove> = None;

    let mut depth: usize = 1;
    while depth < max_depth
        invariant
            1 <= depth,
            max_depth <= MAX_SEARCH_DEPTH,
            b == *board,
            engine.board == old(engine).board,
            prev_best_move == best_move,
            best_move is None ==> best_score == -MATE_VALUE,
            best_move matches Some(m) ==> legal_moves_of(b).contains(m) && 1 <= committed_d
                < max_depth && spec_id_committed(
                b,
                committed_d,
                committed_pb,
                my_color,
                my_move,
                best_score as int,
                m,
            ),
        ensures
            engine.board == old(engine).board,
            best_move is None ==> best_score == -MATE_VALUE,
            best_move matches Some(m) ==> legal_moves_of(b).contains(m) && 1 <= committed_d
                < max_depth && spec_id_committed(
                b,
                committed_d,
                committed_pb,
                my_color,
                my_move,
                best_score as int,
                m,
            ),
        decreases max_depth - depth,
    {
        let elapsed_time = prims::elapsed_millis(&timer);
        if elapsed_time >= time_limit {
            break ;
        }

        let moves = reordered_move_list(board, &prev_best_move);
        let ghost pb0 = prev_best_move;
        let ghost ms = moves@;

        let (eval, bm, finished_ab) = search_alpha_beta(
            engine,
            board,
            depth,
            -MATE_VALUE,
            MATE_VALUE,
            my_color,
            my_move,
            Some(moves),
            Some(&timer),
            time_limit,
        );

        let mut curr_best_move: Option<chess::ChessMove> = None;
        let mut curr_best_score: i64 = i64::MIN;
        if eval > curr_best_score {
            curr_best_score = eval;
            curr_best_move = bm;
        }

        if finished_ab {
            match curr_best_move {
                Some(cbm) => {
                    proof {
                        committed_d = depth as nat;
                        committed_pb = pb0;
                        lemma_ab_best_in_moves(
                            b,
                            depth as nat,
                            -(MATE_VALUE as int),
                            MATE_VALUE as int,
                            my_color,
                            my_move,
                            ms,
                        );
                        let k = choose|k: int| 0 <= k < ms.len() && ms[k] == cbm;
                        assert(legal_moves_of(b).contains(ms[k]));
                    }
                    best_move = Some(cbm);
                    best_score = curr_best_score;
                    prev_best_move = Some(cbm);
                },
                None => {},
            }
        }
        depth = depth + 1;
    }

    proof {
        if best_move is Some {
            let m = best_move.unwrap();
            assert(1 <= committed_d < max_depth && spec_id_committed(
                b,
                committed_d,
                committed_pb,
                my_color,
                my_move,
                best_score as int,
                m,
            ));
        }
        assert(spec_id_result(b, max_depth as int, my_color, my_move, best_score as int, best_move));
        assert(spec_id_chosen(b, max_depth as int, my_color, my_move, best_move));
    }
    (best_score, best_move)
}


/// Iterative deepening with adaptive time management.
///
/// The hard limit divided by `base_time_scale_milli` (a per-mille scale
/// factor) gives the soft target; after each completed depth the target is
/// stretched by a difficulty multiplier fed by instability — a changed
/// best move, a swinging score, a check either way, a capture or a
/// promotion as the chosen move — but never past the hard limit.  The
/// committed result is exactly the plain driver's: the full-window
/// searcher's answer at some completed depth.
pub fn iterative_deepening_search_with_time(
    engine: &mut ChessEngine,
    board: &chess::Board,
    max_depth: usize,
    base_time_scale_milli: u64,
    hard_time_limit: u64,
    my_color: Color,
    my_move: bool,
) -> (r: (i64, Option<chess::ChessMove>))
    requires
        max_depth <= MAX_SEARCH_DEPTH,
        1 <= base_time_scale_milli <= 1_000_000,
        hard_time_limit <= 1_000_000_000,
    ensures
        final(engine).board == old(engine).board,
        r.1 is None ==> r.0 == -MATE_VALUE,
        r.1 is Some ==> legal_moves_of(*board).contains(r.1.unwrap()),
        spec_id_result(*board, max_depth as int, my_color, my_move, r.0 as int, r.1),
        spec_id_chosen(*board, max_depth as int, my_color, my_move, r.1),
{
    let ghost b = *board;
    let base_time: u64 = hard_time_limit * 1000 / base_time_scale_milli;
    let timer = prims::now_instant();

    let mut target_duration: u64 = base_time;
    let mut difficulty_mult: u64 = 1000;

    let mut best_move: Option<chess::ChessMove> = None;
    let mut prev_best_move: Option<chess::ChessMove> = None;
    let mut best_score: i64 = -MATE_VALUE;
    let mut score_history: Vec<i64> = Vec::new();
    let ghost mut committed_d: nat = 0nat;
    let ghost mut committed_pb: Option<chess::ChessMove> = None;

    let mut depth: usize = 1;
    while depth < max_depth
        invariant
            1 <= depth,
            max_depth <= MAX_SEARCH_DEPTH,
            1 <= base_time_scale_milli <= 1_000_000,
            base_time <= 1_000_000_000_000,
            difficulty_mult <= 1_000_000,
            b == *board,
            engine.board == old(engine).board,
            prev_best_move == best_move,
            best_move is None ==> best_score == -MATE_VALUE,
            best_move matches Some(m) ==> legal_moves_of(b).contains(m) && 1 <= committed_d
                < max_depth && spec_id_committed(
                b,
                committed_d,
                committed_pb,
                my_color,
                my_move,
                best_score as int,
                m,
            ),
        ensures
            engine.board == old(engine).board,
            best_move is None ==> best_score == -MATE_VALUE,
            best_move matches Some(m) ==> legal_moves_of(b).contains(m) && 1 <= committed_d
                < max_depth && spec_id_committed(
                b,
                committed_d,
                committed_pb,
                my_color,
                my_move,
                best_score as int,
                m,
            ),
        decreases max_depth - depth,
    {
        let elapsed_time = prims::elapsed_millis(&timer);
        if elapsed_time >= target_duration {
            break ;
        }
        if elapsed_time >= hard_time_limit {
            break ;
        }

        let moves = reordered_move_list(board, &prev_best_move);
        let ghost pb0 = prev_best_move;
        let ghost ms = moves@;

        let ab_time_limit: u64 = if target_duration < hard_time_limit {
            target_duration
        } else {
            hard_time_limit
        };
        let (eval, bm, finished_ab) = search_alpha_beta(
            engine,
            board,
            depth,
            -MATE_VALUE,
            MATE_VALUE,
            my_color,
            my_move,
            Some(moves),
            Some(&timer),
            ab_time_limit,
        );

        let mut curr_best_move: Option<chess::ChessMove> = None;
        let mut curr_best_score: i64 = i64::MIN;
        if eval > curr_best_score {
            curr_best_score = eval;
            curr_best_move = bm;
        }

        // best-move instability: did this iteration's choice differ from
        // the previous iteration's, before it is committed below?
        let moves_differ: bool = match (&curr_best_move, &prev_best_move) {
            (Some(a), Some(p)) => !prims::moves_equal(a, p),
            (Some(_), None) => true,
            (None, Some(_)) => true,
            (None, None) => false,
        };
        if prev_best_move.is_some() && moves_differ {
            difficulty_mult = difficulty_mult * 130 / 100;
        }

        if finished_ab {
            match curr_best_move {
                Some(cbm) => {
                    proof {
                        committed_d = depth as nat;
                        committed_pb = pb0;
                        lemma_ab_best_in_moves(
                            b,
                            depth as nat,
                            -(MATE_VALUE as int),
                            MATE_VALUE as int,
                            my_color,
                            my_move,
                            ms,
                        );
                        let k = choose|k: int| 0 <= k < ms.len() && ms[k] == cbm;
                        assert(legal_moves_of(b).contains(ms[k]));
                    }
                    best_move = Some(cbm);
                    best_score = curr_best_score;
                    prev_best_move = Some(cbm);
                },
                None => {},
            }
        }

        // score-history instability over the last three iterations
        score_history.push(best_score);
        let hist_len = score_history.len();
        if hist_len >= 3 {
            let s1 = score_history[hist_len - 3];
            let s2 = score_history[hist_len - 2];
            let s3 = score_history[hist_len - 1];
            let mut max_recent: i64 = s1;
            if s2 > max_recent {
                max_recent = s2;
            }
            if s3 > max_recent {
                max_recent = s3;
            }
            let mut min_recent: i64 = s1;
            if s2 < min_recent {
                min_recent = s2;
            }
            if s3 < min_recent {
                min_recent = s3;
            }
            if (max_recent as i128) - (min_recent as i128) > (10 * crate::evaluation::SCALE) as i128 {
                difficulty_mult = difficulty_mult * 125 / 100;
            }
        }

        // in check now?
        let num_checkers = crate::chessutil::popcount(prims::checkers_bitboard(board));
        if num_checkers > 0 {
            difficulty_mult = difficulty_mult * 120 / 100;
        }

        // does the chosen move give check?
        match &best_move {
            Some(bm2) => {
                let board_after = prims::make_move_new(board, prims::copy_move(bm2));
                let checkers_after = crate::chessutil::popcount(
                    prims::checkers_bitboard(&board_after),
                );
                if checkers_after > 0 {
                    difficulty_mult = difficulty_mult * 120 / 100;
                }
            },
            None => {},
        }

        // is the chosen move a capture, or a promotion?
        match &best_move {
            Some(bm2) => {
                if move_is_capture(board, bm2) {
                    difficulty_mult = difficulty_mult * 120 / 100;
                }
                let src = prims::move_source(bm2);
                let dst = prims::move_dest(bm2);
                match prims::piece_on(board, src) {
                    Some(crate::prims::PieceKind::Pawn) => {
                        if dst >= 56 || dst < 8 {
                            difficulty_mult = difficulty_mult * 120 / 100;
                        }
                    },
                    _ => {},
                }
            },
            None => {},
        }

        if difficulty_mult > base_time_scale_milli {
            difficulty_mult = base_time_scale_milli;
        }
        proof {
            assert((base_time as int) * (difficulty_mult as int) <= 1_000_000_000_000_000_000)
                by (nonlinear_arith)
                requires
                    base_time as int <= 1_000_000_000_000,
                    difficulty_mult as int <= 1_000_000,
            ;
        }
        target_duration = base_time * difficulty_mult / 1000;

        depth = depth + 1;
    }

    proof {
        if best_move is Some {
            let m = best_move.unwrap();
            assert(1 <= committed_d < max_depth && spec_id_committed(
                b,
                committed_d,
                committed_pb,
                my_color,
                my_move,
                best_score as int,
                m,
            ));
        }
        assert(spec_id_result(b, max_depth as int, my_color, my_move, best_score as int, best_move));
        assert(spec_id_chosen(b, max_depth as int, my_color, my_move, best_move));
    }
    (best_score, best_move)
}

} // verus!
