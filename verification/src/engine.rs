//! The engine state: the root position and the node counter.

use vstd::prelude::*;

use vstd::string::StringExecFns;

use crate::chessutil::{
    lemma_sorted_moves_subset, output_sorted_move_list, spec_early_prob, spec_sorted_moves,
    PROB_ONE,
};
use crate::evaluation::{evaluate, lemma_tdiv_range, spec_evaluate, tdiv, tdiv64, MATE_VALUE};
use crate::prims::{self, legal_moves_of, make_move_of, side_of, status_of, Color, GameStatus};
use crate::search::MAX_SEARCH_DEPTH;
use crate::ucigocommand::{str_eq, UCIGoCommand};

verus! {

/// The process-wide engine state: the current root position and a counter
/// of leaf evaluations, reset at the start of each move-selection request.
pub struct ChessEngine {
    pub board: chess::Board,
    pub nodes_visited: u64,
}

impl ChessEngine {
    /// A fresh engine holding the standard starting position.
    pub fn new() -> (r: ChessEngine)
        ensures
            Some(r.board) == prims::fen_parse_of(prims::spec_start_fen()),
            r.nodes_visited == 0,
    {
        ChessEngine { board: prims::starting_board(), nodes_visited: 0 }
    }
}

/// The maximizing fold of the legacy searcher's model: scores only, no
/// move and no node count.
pub open spec fn spec_em_fold_max(
    b: chess::Board,
    depth: nat,
    alpha: int,
    beta: int,
    my_color: Color,
    moves: Seq<chess::ChessMove>,
    i: int,
    acc: int,
) -> int
    decreases depth, moves.len() - i, 0int,
{
    if i < 0 || i >= moves.len() || depth == 0 {
        acc
    } else {
        let child_b = make_move_of(b, moves[i]);
        let c = spec_em(child_b, (depth - 1) as nat, alpha, beta, my_color, false);
        let acc2 = if c > acc {
            c
        } else {
            acc
        };
        let alpha2 = if c > alpha {
            c
        } else {
            alpha
        };
        if beta <= alpha2 {
            acc2
        } else {
            spec_em_fold_max(b, depth, alpha2, beta, my_color, moves, i + 1, acc2)
        }
    }
}

/// The minimizing fold of the legacy searcher's model.
pub open spec fn spec_em_fold_min(
    b: chess::Board,
    depth: nat,
    alpha: int,
    beta: int,
    my_color: Color,
    moves: Seq<chess::ChessMove>,
    i: int,
    acc: int,
) -> int
    decreases depth, moves.len() - i, 0int,
{
    if i < 0 || i >= moves.len() || depth == 0 {
        acc
    } else {
        let child_b = make_move_of(b, moves[i]);
        let c = spec_em(child_b, (depth - 1) as nat, alpha, beta, my_color, true);
        let acc2 = if c < acc {
            c
        } else {
            acc
        };
        let beta2 = if c < beta {
            c
        } else {
            beta
        };
        if beta2 <= alpha {
            acc2
        } else {
            spec_em_fold_min(b, depth, alpha, beta2, my_color, moves, i + 1, acc2)
        }
    }
}

/// The legacy searcher's model: alpha-beta over the orderer's move list,
/// scores only.  Unlike `spec_ab` it scores a terminal position that the
/// move generator calls ongoing as zero.
pub open spec fn spec_em(
    b: chess::Board,
    depth: nat,
    alpha: int,
    beta: int,
    my_color: Color,
    my_move: bool,
) -> int
    decreases depth, spec_sorted_moves(b).len(), 1int,
{
    if depth == 0 {
        spec_evaluate(b, my_color)
    } else if spec_sorted_moves(b).len() == 0 {
        match status_of(b) {
            GameStatus::Stalemate => 0,
            GameStatus::Checkmate => if side_of(b) == my_color {
                -(MATE_VALUE as int) - depth
            } else {
                (MATE_VALUE as int) + depth
            },
            GameStatus::Ongoing => 0,
        }
    } else if my_move {
        spec_em_fold_max(
            b,
            depth,
            alpha,
            beta,
            my_color,
            spec_sorted_moves(b),
            0,
            -(MATE_VALUE as int),
        )
    } else {
        spec_em_fold_min(
            b,
            depth,
            alpha,
            beta,
            my_color,
            spec_sorted_moves(b),
            0,
            MATE_VALUE as int,
        )
    }
}

impl ChessEngine {
    /// The legacy alpha-beta searcher: scores only, no timer, no node
    /// counting, the move list always the orderer's.
    pub fn evaluate_minimax(
        &self,
        board: &chess::Board,
        depth: usize,
        alpha: i64,
        beta: i64,
        my_color: Color,
        my_move: bool,
    ) -> (r: i64)
        requires
            depth <= MAX_SEARCH_DEPTH,
        ensures
            r as int == spec_em(*board, depth as nat, alpha as int, beta as int, my_color, my_move),
        decreases depth,
    {
        let ghost b = *board;
        if depth == 0 {
            return evaluate(board, my_color);
        }
        let moves = output_sorted_move_list(board);
        let ghost ms = moves@;
        proof {
            assert forall|k: int| 0 <= k < ms.len() implies legal_moves_of(b).contains(
                #[trigger] ms[k],
            ) by {
                lemma_sorted_moves_subset(legal_moves_of(b), b, ms[k]);
            }
        }
        if moves.len() == 0 {
            match prims::board_status(board) {
                GameStatus::Stalemate => {
                    return 0;
                },
                GameStatus::Checkmate => {
                    if matches!(prims::side_to_move(board), c if c == my_color) {
                        return -MATE_VALUE - (depth as i64);
                    } else {
                        return MATE_VALUE + (depth as i64);
                    }
                },
                GameStatus::Ongoing => {
                    return 0;
                },
            }
        }
        let ghost d = depth as nat;
        let n = moves.len();
        if my_move {
            let ghost total = spec_em_fold_max(
                b,
                d,
                alpha as int,
                beta as int,
                my_color,
                ms,
                0,
                -(MATE_VALUE as int),
            );
            let mut max_eval: i64 = -MATE_VALUE;
            let mut cur_alpha: i64 = alpha;
            let mut i: usize = 0;
            while i < n
                invariant_except_break
                    n == ms.len(),
                    moves@ == ms,
                    0 <= i <= n,
                    1 <= depth <= MAX_SEARCH_DEPTH,
                    d == depth as nat,
                    b == *board,
                    forall|k: int| 0 <= k < ms.len() ==> legal_moves_of(b).contains(
                        #[trigger] ms[k],
                    ),
                    spec_em_fold_max(
                        b,
                        d,
                        cur_alpha as int,
                        beta as int,
                        my_color,
                        ms,
                        i as int,
                        max_eval as int,
                    ) == total,
                ensures
                    max_eval as int == total,
                decreases n - i,
            {
                let new_board = prims::make_move_new(board, moves[i]);
                let eval = self.evaluate_minimax(
                    &new_board,
                    depth - 1,
                    cur_alpha,
                    beta,
                    my_color,
                    false,
                );
                if eval > max_eval {
                    max_eval = eval;
                }
                if eval > cur_alpha {
                    cur_alpha = eval;
                }
                if beta <= cur_alpha {
                    break ;
                }
                i = i + 1;
            }
            max_eval
        } else {
            let ghost total = spec_em_fold_min(
                b,
                d,
                alpha as int,
                beta as int,
                my_color,
                ms,
                0,
                MATE_VALUE as int,
            );
            let mut min_eval: i64 = MATE_VALUE;
            let mut cur_beta: i64 = beta;
            let mut i: usize = 0;
            while i < n
                invariant_except_break
                    n == ms.len(),
                    moves@ == ms,
                    0 <= i <= n,
                    1 <= depth <= MAX_SEARCH_DEPTH,
                    d == depth as nat,
                    b == *board,
                    forall|k: int| 0 <= k < ms.len() ==> legal_moves_of(b).contains(
                        #[trigger] ms[k],
                    ),
                    spec_em_fold_min(
                        b,
                        d,
                        alpha as int,
                        cur_beta as int,
                        my_color,
                        ms,
                        i as int,
                        min_eval as int,
                    ) == total,
                ensures
                    min_eval as int == total,
                decreases n - i,
            {
                let new_board = prims::make_move_new(board, moves[i]);
                let eval = self.evaluate_minimax(
                    &new_board,
                    depth - 1,
                    alpha,
                    cur_beta,
                    my_color,
                    true,
                );
                if eval < min_eval {
                    min_eval = eval;
                }
                if eval < cur_beta {
                    cur_beta = eval;
                }
                if cur_beta <= alpha {
                    break ;
                }
                i = i + 1;
            }
            min_eval
        }
    }
}


/// The root fold of the coarse deepening driver: each root move is scored
/// by the legacy searcher one ply shallower; the best score, its first
/// move, and a rising root alpha, cut at the mate bound.
pub open spec fn spec_em_root_fold(
    b: chess::Board,
    depth: nat,
    my_color: Color,
    moves: Seq<chess::ChessMove>,
    i: int,
    alpha: int,
    beta: int,
    acc: int,
    accm: Option<chess::ChessMove>,
) -> (int, Option<chess::ChessMove>)
    decreases moves.len() - i,
{
    if i < 0 || i >= moves.len() || depth == 0 {
        (acc, accm)
    } else {
        let score = spec_em(
            make_move_of(b, moves[i]),
            (depth - 1) as nat,
            alpha,
            beta,
            my_color,
            false,
        );
        let acc2 = if score > acc {
            score
        } else {
            acc
        };
        let accm2 = if score > acc {
            Some(moves[i])
        } else {
            accm
        };
        let alpha2 = if score > alpha {
            score
        } else {
            alpha
        };
        if alpha2 >= beta {
            (acc2, accm2)
        } else {
            spec_em_root_fold(b, depth, my_color, moves, i + 1, alpha2, beta, acc2, accm2)
        }
    }
}

proof fn lemma_em_root_best_in(
    b: chess::Board,
    depth: nat,
    my_color: Color,
    moves: Seq<chess::ChessMove>,
    i: int,
    alpha: int,
    beta: int,
    acc: int,
    accm: Option<chess::ChessMove>,
)
    requires
        accm matches Some(m) ==> moves.contains(m),
    ensures
        spec_em_root_fold(b, depth, my_color, moves, i, alpha, beta, acc, accm).1 matches Some(m2)
            ==> moves.contains(m2),
    decreases moves.len() - i,
{
    if !(i < 0 || i >= moves.len() || depth == 0) {
        let score = spec_em(
            make_move_of(b, moves[i]),
            (depth - 1) as nat,
            alpha,
            beta,
            my_color,
            false,
        );
        let acc2 = if score > acc {
            score
        } else {
            acc
        };
        let accm2 = if score > acc {
            Some(moves[i])
        } else {
            accm
        };
        let alpha2 = if score > alpha {
            score
        } else {
            alpha
        };
        if !(alpha2 >= beta) {
            lemma_em_root_best_in(b, depth, my_color, moves, i + 1, alpha2, beta, acc2, accm2);
        }
    }
}

/// One committed result of the coarse deepening driver.
pub open spec fn spec_engine_id_committed(
    b: chess::Board,
    d: nat,
    pb: Option<chess::ChessMove>,
    my_color: Color,
    score: int,
    m: chess::ChessMove,
) -> bool {
    spec_em_root_fold(
        b,
        d,
        my_color,
        crate::search::spec_reordered(b, pb),
        0,
        -(MATE_VALUE as int),
        MATE_VALUE as int,
        i64::MIN as int,
        None,
    ) == (score, Some(m))
}

/// What the coarse deepening driver promises of its move: it is the root
/// fold's choice at some completed depth, on that iteration's move order.
pub open spec fn spec_engine_id_result(
    b: chess::Board,
    max_depth: int,
    my_color: Color,
    mo: Option<chess::ChessMove>,
) -> bool {
    mo matches Some(m) ==> exists|d: nat, pb: Option<chess::ChessMove>, s: int|
        1 <= d < max_depth && #[trigger] spec_engine_id_committed(b, d, pb, my_color, s, m)
}

impl ChessEngine {
    /// The coarse iterative-deepening driver: deepen from one ply up,
    /// scoring each root move with the legacy searcher, and keep the last
    /// fully completed depth's choice.  The clock is polled between root
    /// moves only.
    pub fn iterative_deepening_search(
        &self,
        time_limit: u64,
        max_depth: usize,
        my_color: Color,
    ) -> (r: Option<chess::ChessMove>)
        requires
            max_depth <= MAX_SEARCH_DEPTH,
        ensures
            r matches Some(m) ==> legal_moves_of(self.board).contains(m),
            spec_engine_id_result(self.board, max_depth as int, my_color, r),
    {
        let ghost b = self.board;
        let timer = prims::now_instant();

        let mut best_move: Option<chess::ChessMove> = None;
        let mut prev_best_move: Option<chess::ChessMove> = None;
        let ghost mut committed_d: nat = 0nat;
        let ghost mut committed_pb: Option<chess::ChessMove> = None;
        let ghost mut committed_s: int = 0int;

        let mut depth: usize = 1;
        while depth < max_depth
            invariant
                1 <= depth,
                max_depth <= MAX_SEARCH_DEPTH,
                b == self.board,
                prev_best_move == best_move,
                best_move matches Some(m) ==> legal_moves_of(b).contains(m) && 1 <= committed_d
                    < max_depth && spec_engine_id_committed(
                    b,
                    committed_d,
                    committed_pb,
                    my_color,
                    committed_s,
                    m,
                ),
            ensures
                prev_best_move == best_move,
                best_move matches Some(m) ==> legal_moves_of(b).contains(m) && 1 <= committed_d
                    < max_depth && spec_engine_id_committed(
                    b,
                    committed_d,
                    committed_pb,
                    my_color,
                    committed_s,
                    m,
                ),
            decreases max_depth - depth,
        {
            let elapsed_time = prims::elapsed_millis(&timer);
            if elapsed_time >= time_limit {
                break ;
            }

            let moves = crate::search::reordered_move_list(&self.board, &prev_best_move);
            let ghost pb0 = prev_best_move;
            let ghost ms = moves@;
            let ghost total = spec_em_root_fold(
                b,
                depth as nat,
                my_color,
                ms,
                0,
                -(MATE_VALUE as int),
                MATE_VALUE as int,
                i64::MIN as int,
                None,
            );

            let mut curr_best_move: Option<chess::ChessMove> = None;
            let mut curr_best_score: i64 = i64::MIN;
            let mut cur_alpha: i64 = -MATE_VALUE;
            let mut stopped: bool = false;

            let n = moves.len();
            let mut i: usize = 0;
            while i < n
                invariant_except_break
                    n == ms.len(),
                    moves@ == ms,
                    0 <= i <= n,
                    1 <= depth <= MAX_SEARCH_DEPTH,
                    b == self.board,
                    forall|k: int| 0 <= k < ms.len() ==> legal_moves_of(b).contains(
                        #[trigger] ms[k],
                    ),
                    !stopped,
                    spec_em_root_fold(
                        b,
                        depth as nat,
                        my_color,
                        ms,
                        i as int,
                        cur_alpha as int,
                        MATE_VALUE as int,
                        curr_best_score as int,
                        curr_best_move,
                    ) == total,
                ensures
                    !stopped ==> total == (curr_best_score as int, curr_best_move),
                decreases n - i,
            {
                let elapsed_inner = prims::elapsed_millis(&timer);
                if elapsed_inner >= time_limit {
                    stopped = true;
                    break ;
                }

                let new_board = prims::make_move_new(&self.board, moves[i]);
                let score = self.evaluate_minimax(
                    &new_board,
                    depth - 1,
                    cur_alpha,
                    MATE_VALUE,
                    my_color,
                    false,
                );
                if score > curr_best_score {
                    curr_best_score = score;
                    curr_best_move = Some(moves[i]);
                }
                if score > cur_alpha {
                    cur_alpha = score;
                }
                if cur_alpha >= MATE_VALUE {
                    break ;
                }
                i = i + 1;
            }

            if stopped {
                break ;
            }

            match curr_best_move {
                Some(cbm) => {
                    proof {
                        committed_d = depth as nat;
                        committed_pb = pb0;
                        committed_s = curr_best_score as int;
                        lemma_em_root_best_in(
                            b,
                            depth as nat,
                            my_color,
                            ms,
                            0,
                            -(MATE_VALUE as int),
                            MATE_VALUE as int,
                            i64::MIN as int,
                            None,
                        );
                        let k = choose|k: int| 0 <= k < ms.len() && ms[k] == cbm;
                        assert(legal_moves_of(b).contains(ms[k]));
                    }
                    best_move = Some(cbm);
                    prev_best_move = Some(cbm);
                },
                None => {},
            }
            depth = depth + 1;
        }

        proof {
            if best_move is Some {
                let m = best_move.unwrap();
                assert(1 <= committed_d < max_depth && spec_engine_id_committed(
                    b,
                    committed_d,
                    committed_pb,
                    my_color,
                    committed_s,
                    m,
                ));
            }
            assert(spec_engine_id_result(b, max_depth as int, my_color, best_move));
        }
        best_move
    }
}


/// The think-time budget in milliseconds: `movetime` verbatim when given;
/// practically unbounded for `infinite`; else a twentieth of the side's
/// clock plus half its increment, clamped early in the game to at most
/// `min(increment + 1500, 3000)`.
pub open spec fn spec_think_time(b: chess::Board, cmd: UCIGoCommand) -> int {
    if cmd.movetime is Some {
        cmd.movetime.unwrap() as int
    } else if cmd.infinite == Some(true) {
        100000000
    } else {
        let mt = if side_of(b) == Color::White {
            cmd.wtime
        } else {
            cmd.btime
        };
        let mi = if side_of(b) == Color::White {
            cmd.winc
        } else {
            cmd.binc
        };
        let base = if mt is Some {
            mt.unwrap() as int
        } else {
            30000
        };
        let inc = if mi is Some {
            mi.unwrap() as int
        } else {
            0
        };
        let time_value = tdiv(base, 20) + tdiv(inc, 2);
        if spec_early_prob(b) > (PROB_ONE as int) / 2 {
            let quick0 = inc + 1500;
            let quick = if quick0 < 3000 {
                quick0
            } else {
                3000
            };
            if quick < time_value {
                quick
            } else {
                time_value
            }
        } else {
            time_value
        }
    }
}

impl ChessEngine {
    /// Translate the controller's clock state into a budget for this move.
    pub fn calculate_think_time_ms(&self, go_command: &UCIGoCommand, _my_color: Color) -> (r: i32)
        ensures
            r as int == spec_think_time(self.board, *go_command),
    {
        if let Some(movetime) = go_command.movetime {
            return movetime;
        }
        match go_command.infinite {
            Some(true) => {
                return 100000000;
            },
            _ => {},
        }
        let white = matches!(prims::side_to_move(&self.board), Color::White);
        let my_time: Option<i32> = if white {
            go_command.wtime
        } else {
            go_command.btime
        };
        let my_inc: Option<i32> = if white {
            go_command.winc
        } else {
            go_command.binc
        };
        let base_time: i64 = match my_time {
            Some(t) => t as i64,
            None => 30000,
        };
        let increment: i64 = match my_inc {
            Some(t) => t as i64,
            None => 0,
        };
        let time_value: i64 = tdiv64(base_time, 20) + tdiv64(increment, 2);
        proof {
            lemma_tdiv_range(base_time as int, 20, 0x8000_0000);
            lemma_tdiv_range(increment as int, 2, 0x4000_0000);
        }
        let egp = crate::chessutil::early_game_probability(&self.board);
        if egp > PROB_ONE / 2 {
            let quick0: i64 = increment + 1500;
            let quick: i64 = if quick0 < 3000 {
                quick0
            } else {
                3000
            };
            let out: i64 = if quick < time_value {
                quick
            } else {
                time_value
            };
            return out as i32;
        }
        time_value as i32
    }

    /// A uniformly random legal move, if the position has one.
    pub fn generate_random_move(&self) -> (r: Option<chess::ChessMove>)
        ensures
            (r is None) == (legal_moves_of(self.board).len() == 0),
            r matches Some(m) ==> legal_moves_of(self.board).contains(m),
    {
        let moves = prims::legal_moves(&self.board);
        if moves.len() == 0 {
            return None;
        }
        let idx = prims::random_below(moves.len());
        let m = prims::copy_move(&moves[idx]);
        proof {
            assert(legal_moves_of(self.board)[idx as int] == m);
        }
        Some(m)
    }

    /// Run the searcher to a fixed depth with no time limit, counting
    /// leaves from zero: the returned score, move and leaf count are
    /// exactly the model's.
    pub fn run_search_benchmark(&mut self, search_depth: usize) -> (r: (
        i64,
        Option<chess::ChessMove>,
        u64,
    ))
        requires
            search_depth <= MAX_SEARCH_DEPTH,
        ensures
            final(self).board == old(self).board,
            final(self).nodes_visited == r.2,
            ({
                let out = crate::search::spec_ab_default(
                    old(self).board,
                    search_depth as nat,
                    -(MATE_VALUE as int),
                    MATE_VALUE as int,
                    side_of(old(self).board),
                    true,
                );
                r.0 as int == out.score && r.1 == out.best && r.2 as int
                    == crate::search::sat64(out.leaves as int)
            }),
    {
        self.nodes_visited = 0;
        let board = prims::copy_board(&self.board);
        let my_color = prims::side_to_move(&board);
        let (score, best, _) = crate::search::search_alpha_beta(
            self,
            &board,
            search_depth,
            -MATE_VALUE,
            MATE_VALUE,
            my_color,
            true,
            None,
            None,
            0,
        );
        let nodes = self.nodes_visited;
        (score, best, nodes)
    }

    /// Choose a move for the side to move within the given budget, by
    /// iterative deepening with the deadline polled inside the search.
    /// The node counter restarts for this request.
    pub fn generate_move(&mut self, think_time_ms: i32, my_color: Color) -> (r: Option<
        chess::ChessMove,
    >)
        ensures
            final(self).board == old(self).board,
            r matches Some(m) ==> legal_moves_of(old(self).board).contains(m),
            crate::search::spec_id_chosen(old(self).board, 12, my_color, true, r),
    {
        self.nodes_visited = 0;
        let limit: u64 = if think_time_ms <= 0 {
            0
        } else {
            think_time_ms as u64
        };
        let board = prims::copy_board(&self.board);
        let (_, best) = crate::search::iterative_deepening_search(
            self,
            &board,
            12,
            limit,
            my_color,
            true,
        );
        best
    }
}


/// The six FEN fields at token positions 2 through 7, joined by single
/// spaces.
pub open spec fn spec_join_fen(tokens: Seq<Seq<char>>) -> Seq<char> {
    tokens[2] + " "@ + tokens[3] + " "@ + tokens[4] + " "@ + tokens[5] + " "@ + tokens[6] + " "@
        + tokens[7]
}

/// The first position at or after `i` holding the word `moves`.
pub open spec fn spec_moves_index(tokens: Seq<Seq<char>>, i: int) -> Option<int>
    decreases tokens.len() - i,
{
    if i < 0 || i >= tokens.len() {
        None
    } else if tokens[i] == "moves"@ {
        Some(i)
    } else {
        spec_moves_index(tokens, i + 1)
    }
}

/// Play the move tokens from `i` on, stopping at the first token that does
/// not parse or does not name a legal move of the position reached.
pub open spec fn spec_apply_moves(b: chess::Board, tokens: Seq<Seq<char>>, i: int) -> chess::Board
    decreases tokens.len() - i,
{
    if i < 0 || i >= tokens.len() {
        b
    } else {
        match prims::move_parse_of(tokens[i]) {
            None => b,
            Some(m) => if legal_moves_of(b).contains(m) {
                spec_apply_moves(make_move_of(b, m), tokens, i + 1)
            } else {
                b
            },
        }
    }
}

/// The root position after a `position` command: `startpos` or a FEN reset
/// the board (an unreadable FEN resets to the starting position), and any
/// trailing `moves` list is played out as far as it stays well-formed and
/// legal.
pub open spec fn spec_position_board(tokens: Seq<Seq<char>>, cur: chess::Board) -> chess::Board {
    if tokens.len() < 2 {
        cur
    } else {
        let base = if tokens[1] == "startpos"@ {
            prims::spec_starting_board()
        } else if tokens[1] == "fen"@ {
            match prims::fen_parse_of(spec_join_fen(tokens)) {
                Some(bd) => bd,
                None => prims::spec_starting_board(),
            }
        } else {
            cur
        };
        if tokens[1] == "fen"@ && tokens.len() < 8 {
            cur
        } else {
            match spec_moves_index(tokens, 0) {
                None => base,
                Some(j) => spec_apply_moves(base, tokens, j + 1),
            }
        }
    }
}

/// The keywords of a `position` command denote three different tokens.
proof fn lemma_position_keywords_distinct()
    ensures
        "startpos"@ != "fen"@,
        "startpos"@ != "moves"@,
        "fen"@ != "moves"@,
{
    reveal_strlit("startpos");
    reveal_strlit("fen");
    reveal_strlit("moves");
    assert("startpos"@.len() == 8);
    assert("fen"@.len() == 3);
    assert("moves"@.len() == 5);
}

/// Is this move legal in the position?
fn move_is_legal(board: &chess::Board, m: &chess::ChessMove) -> (r: bool)
    ensures
        r == legal_moves_of(*board).contains(*m),
{
    let moves = prims::legal_moves(board);
    let n = moves.len();
    let mut i: usize = 0;
    while i < n
        invariant
            n == legal_moves_of(*board).len(),
            moves@ == legal_moves_of(*board),
            0 <= i <= n,
            forall|k: int| 0 <= k < i ==> legal_moves_of(*board)[k] != *m,
        decreases n - i,
    {
        if prims::moves_equal(&moves[i], m) {
            return true;
        }
        i = i + 1;
    }
    proof {
        if legal_moves_of(*board).contains(*m) {
            let k = choose|k: int| 0 <= k < n && legal_moves_of(*board)[k] == *m;
        }
    }
    false
}

impl ChessEngine {
    /// Set the root position from the tokens of a `position` command.
    pub fn handle_position(&mut self, tokens: &Vec<String>)
        ensures
            final(self).board == spec_position_board(tokens.deep_view(), old(self).board),
            final(self).nodes_visited == old(self).nodes_visited,
    {
        let ghost tv = tokens.deep_view();
        proof {
            lemma_position_keywords_distinct();
        }
        let n = tokens.len();
        if n < 2 {
            return ;
        }
        let t1 = tokens[1].as_str();
        proof {
            assert(t1@ == tv[1]);
        }
        if str_eq(t1, "startpos") {
            self.board = prims::starting_board();
        } else if str_eq(t1, "fen") {
            if n < 8 {
                return ;
            }
            let mut fen: String = String::new();
            fen.append(tokens[2].as_str());
            fen.append(" ");
            fen.append(tokens[3].as_str());
            fen.append(" ");
            fen.append(tokens[4].as_str());
            fen.append(" ");
            fen.append(tokens[5].as_str());
            fen.append(" ");
            fen.append(tokens[6].as_str());
            fen.append(" ");
            fen.append(tokens[7].as_str());
            proof {
                assert(fen@ == spec_join_fen(tv));
            }
            match prims::parse_fen(fen.as_str()) {
                Some(bd) => {
                    self.board = bd;
                },
                None => {
                    self.board = prims::starting_board();
                },
            }
        }
        let ghost base = self.board;

        // find the word `moves`, if it is there
        let mut moves_index: Option<usize> = None;
        let mut j: usize = 0;
        while j < n
            invariant_except_break
                n == tokens@.len(),
                tv == tokens.deep_view(),
                tv.len() == n,
                0 <= j <= n,
                moves_index is None,
                forall|k: int| 0 <= k < n ==> tv[k] == #[trigger] tokens@[k]@,
                spec_moves_index(tv, j as int) == spec_moves_index(tv, 0),
            ensures
                tv.len() == n,
                forall|k: int| 0 <= k < n ==> tv[k] == #[trigger] tokens@[k]@,
                moves_index matches Some(mi) ==> mi < n && Some(mi as int) == spec_moves_index(
                    tv,
                    0,
                ),
                moves_index is None ==> spec_moves_index(tv, 0) is None,
            decreases n - j,
        {
            if str_eq(tokens[j].as_str(), "moves") {
                moves_index = Some(j);
                break ;
            }
            j = j + 1;
        }

        if let Some(mi) = moves_index {
            let mut k: usize = mi + 1;
            while k < n
                invariant_except_break
                    n == tokens@.len(),
                    tv == tokens.deep_view(),
                    tv.len() == n,
                    mi < k <= n,
                    forall|kk: int| 0 <= kk < n ==> tv[kk] == #[trigger] tokens@[kk]@,
                    spec_apply_moves(self.board, tv, k as int) == spec_apply_moves(
                        base,
                        tv,
                        mi + 1,
                    ),
                    self.nodes_visited == old(self).nodes_visited,
                ensures
                    self.board == spec_apply_moves(base, tv, mi + 1),
                    self.nodes_visited == old(self).nodes_visited,
                decreases n - k,
            {
                match prims::parse_move(tokens[k].as_str()) {
                    None => {
                        break ;
                    },
                    Some(chess_move) => {
                        if move_is_legal(&self.board, &chess_move) {
                            self.board = prims::make_move_new(&self.board, chess_move);
                        } else {
                            break ;
                        }
                    },
                }
                k = k + 1;
            }
        }
    }
}


/// The score bound the legacy root scan uses: ten times the mate base.
pub const WIDE_SCORE_BOUND: i64 = 10_000_000_000_000;

/// The legacy searcher's score for the `j`-th legal move of a position,
/// searched eight plies deep with an effectively unbounded window.
pub open spec fn spec_root_eval(b: chess::Board, my_color: Color, j: int) -> int {
    spec_em(
        make_move_of(b, legal_moves_of(b)[j]),
        8,
        i64::MIN as int,
        i64::MAX as int,
        my_color,
        false,
    )
}

/// What the one-shot chooser promises: its move is a legal move none of
/// whose alternatives scores higher.
pub open spec fn spec_best_scored_move(
    b: chess::Board,
    my_color: Color,
    mo: Option<chess::ChessMove>,
) -> bool {
    mo matches Some(m) ==> exists|k: int|
        0 <= k < legal_moves_of(b).len() && legal_moves_of(b)[k] == m && (forall|j: int|
            0 <= j < legal_moves_of(b).len() ==> spec_root_eval(b, my_color, j)
                <= #[trigger] spec_root_eval(b, my_color, k))
}

impl ChessEngine {
    /// Score every legal move eight plies deep and pick one of the best.
    pub fn generate_slightly_smart_move(&self, my_color: Color) -> (r: Option<chess::ChessMove>)
        ensures
            (r is None) == (legal_moves_of(self.board).len() == 0),
            r matches Some(m) ==> legal_moves_of(self.board).contains(m),
            spec_best_scored_move(self.board, my_color, r),
    {
        let ghost b = self.board;
        let moves = prims::legal_moves(&self.board);
        if moves.len() == 0 {
            return None;
        }
        let n = moves.len();
        let mut best_move: Option<chess::ChessMove> = None;
        let mut best_eval: i64 = 0;
        let ghost mut best_k: int = 0int;
        let mut i: usize = 0;
        while i < n
            invariant
                n == legal_moves_of(b).len(),
                moves@ == legal_moves_of(b),
                b == self.board,
                0 <= i <= n,
                i > 0 ==> (best_move matches Some(m) && 0 <= best_k < i && legal_moves_of(
                    b,
                )[best_k] == m && best_eval as int == spec_root_eval(b, my_color, best_k) && (
                forall|j: int|
                    0 <= j < i ==> #[trigger] spec_root_eval(b, my_color, j) <= spec_root_eval(
                        b,
                        my_color,
                        best_k,
                    ))),
                i == 0 ==> best_move is None,
            decreases n - i,
        {
            let nb = prims::make_move_new(&self.board, moves[i]);
            let eval = self.evaluate_minimax(&nb, 8, i64::MIN, i64::MAX, my_color, false);
            match best_move {
                None => {
                    best_move = Some(prims::copy_move(&moves[i]));
                    best_eval = eval;
                    proof {
                        best_k = i as int;
                    }
                },
                Some(_) => {
                    if eval > best_eval {
                        best_move = Some(prims::copy_move(&moves[i]));
                        best_eval = eval;
                        proof {
                            best_k = i as int;
                        }
                    }
                },
            }
            i = i + 1;
        }
        proof {
            assert(legal_moves_of(b)[best_k] == best_move.unwrap());
            assert(legal_moves_of(b).contains(best_move.unwrap()));
        }
        best_move
    }

    /// The legacy one-depth chooser: a root scan with the usual window,
    /// each move scored one ply shallower.
    pub fn generate_best_move(&self, my_color: Color, depth: usize) -> (r: Option<
        chess::ChessMove,
    >)
        requires
            1 <= depth <= MAX_SEARCH_DEPTH,
        ensures
            r matches Some(m) ==> legal_moves_of(self.board).contains(m),
            r == spec_em_root_fold(
                self.board,
                depth as nat,
                my_color,
                spec_sorted_moves(self.board),
                0,
                -WIDE_SCORE_BOUND as int,
                WIDE_SCORE_BOUND as int,
                -WIDE_SCORE_BOUND as int,
                None,
            ).1,
    {
        let ghost b = self.board;
        let moves = output_sorted_move_list(&self.board);
        let ghost ms = moves@;
        proof {
            assert forall|k: int| 0 <= k < ms.len() implies legal_moves_of(b).contains(
                #[trigger] ms[k],
            ) by {
                lemma_sorted_moves_subset(legal_moves_of(b), b, ms[k]);
            }
        }
        if moves.len() == 0 {
            return None;
        }
        let ghost total = spec_em_root_fold(
            b,
            depth as nat,
            my_color,
            ms,
            0,
            -WIDE_SCORE_BOUND as int,
            WIDE_SCORE_BOUND as int,
            -WIDE_SCORE_BOUND as int,
            None,
        );
        let mut best_move: Option<chess::ChessMove> = None;
        let mut best_eval: i64 = -WIDE_SCORE_BOUND;
        let mut cur_alpha: i64 = -WIDE_SCORE_BOUND;
        let n = moves.len();
        let mut i: usize = 0;
        while i < n
            invariant_except_break
                n == ms.len(),
                moves@ == ms,
                0 <= i <= n,
                1 <= depth <= MAX_SEARCH_DEPTH,
                b == self.board,
                forall|k: int| 0 <= k < ms.len() ==> legal_moves_of(b).contains(#[trigger] ms[k]),
                best_move matches Some(m) ==> ms.contains(m),
                spec_em_root_fold(
                    b,
                    depth as nat,
                    my_color,
                    ms,
                    i as int,
                    cur_alpha as int,
                    WIDE_SCORE_BOUND as int,
                    best_eval as int,
                    best_move,
                ) == total,
            ensures
                best_move == total.1,
                best_move matches Some(m) ==> ms.contains(m),
            decreases n - i,
        {
            let new_board = prims::make_move_new(&self.board, moves[i]);
            let eval = self.evaluate_minimax(
                &new_board,
                depth - 1,
                cur_alpha,
                WIDE_SCORE_BOUND,
                my_color,
                false,
            );
            if eval > best_eval {
                best_eval = eval;
                best_move = Some(prims::copy_move(&moves[i]));
            }
            if eval > cur_alpha {
                cur_alpha = eval;
            }
            if WIDE_SCORE_BOUND <= cur_alpha {
                break ;
            }
            i = i + 1;
        }
        proof {
            if best_move is Some {
                let m = best_move.unwrap();
                let k = choose|k: int| 0 <= k < ms.len() && ms[k] == m;
                assert(legal_moves_of(b).contains(ms[k]));
            }
        }
        best_move
    }
}

} // verus!
