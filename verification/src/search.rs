//! The search: exhaustive minimax as the meaning of a position's value, and
//! the alpha-beta search that computes it.
//!
//! Scores are seen from the first side: positive favours it, negative the
//! second side. A win is worth more the fewer plies it takes.

use crate::board::{
    evaluate_board, generate_moves, is_full, is_game_draw, legal_moves, outcome, TerminalStatus,
    FILLED_BOARD,
};
use crate::pruning::{agrees_on_window, lemma_alpha_beta_agrees};
use vstd::prelude::*;

verus! {

/// The score of a win before the plies it took are taken off.
pub const WIN_SCORE: i32 = 10;

/// The number of plies that a search started by `get_best_move` may look
/// ahead: enough to play any game to its end.
pub const SEARCH_DEPTH: i32 = 9;

/// The move of a result that holds none.
pub const NO_MOVE: u16 = 0;

/// The number of plies used up when `depth` of them are left, counted from
/// the depth at which `get_best_move` starts. It is negative where a search
/// was started with more plies than that.
pub open spec fn depth_consumed(depth: int) -> int {
    SEARCH_DEPTH - depth
}

/// The score of a position at which the search stops, with `depth` plies
/// left: a win counts less for each ply used, a loss less badly, and an
/// undecided position counts nothing.
pub open spec fn leaf_score(first: u16, second: u16, depth: int) -> int {
    match outcome(first, second) {
        TerminalStatus::FirstWins => WIN_SCORE - depth_consumed(depth),
        TerminalStatus::SecondWins => depth_consumed(depth) - WIN_SCORE,
        TerminalStatus::Undecided => 0,
    }
}

/// A win is worth more, and a loss costs more, the more plies are left when
/// it is found: of two wins the search prefers the faster, of two losses the
/// slower.
pub proof fn lemma_sooner_win_scores_higher(first: u16, second: u16, sooner: int, later: int)
    requires
        later < sooner,
    ensures
        outcome(first, second) == TerminalStatus::FirstWins ==> leaf_score(first, second, later)
            < leaf_score(first, second, sooner),
        outcome(first, second) == TerminalStatus::SecondWins ==> leaf_score(first, second, sooner)
            < leaf_score(first, second, later),
        outcome(first, second) == TerminalStatus::Undecided ==> leaf_score(first, second, sooner)
            == 0,
{
}

/// Whether the search stops at this position: the game is won, no ply is
/// left, or no cell is empty.
pub open spec fn is_leaf(first: u16, second: u16, depth: int) -> bool {
    outcome(first, second) != TerminalStatus::Undecided || depth <= 0 || is_full(first | second)
}

/// The position after the side to move has claimed `pos`.
pub open spec fn after_move(first: u16, second: u16, pos: u16, first_to_move: bool) -> (u16, u16) {
    if first_to_move {
        (first | pos, second)
    } else {
        (first, second | pos)
    }
}

/// The score that any real score improves on, for the side to move.
pub open spec fn worst_score(maximizing: bool) -> int {
    if maximizing {
        i32::MIN as int
    } else {
        i32::MAX as int
    }
}

/// Whether `score` is strictly better than `best` for the side to move.
pub open spec fn improves(maximizing: bool, score: int, best: int) -> bool {
    if maximizing {
        score > best
    } else {
        score < best
    }
}

/// Exhaustive minimax: the value of a position with `depth` plies left, and
/// the first move in rising cell order that reaches it. At a position where
/// the search stops the move is `NO_MOVE`.
pub open spec fn minimax_result(first: u16, second: u16, depth: int, maximizing: bool) -> (
    int,
    u16,
)
    decreases depth, legal_moves(first | second).len() + 1,
{
    if is_leaf(first, second, depth) {
        (leaf_score(first, second, depth), NO_MOVE)
    } else {
        best_of_first(first, second, depth, maximizing, legal_moves(first | second).len() as int)
    }
}

/// The best score among the first `k` moves, and the first move that has it.
pub open spec fn best_of_first(first: u16, second: u16, depth: int, maximizing: bool, k: int) -> (
    int,
    u16,
)
    decreases depth, k,
{
    let moves = legal_moves(first | second);
    if depth <= 0 || k <= 0 || k > moves.len() {
        (worst_score(maximizing), NO_MOVE)
    } else {
        let prev = best_of_first(first, second, depth, maximizing, k - 1);
        let score = move_value(first, second, depth, maximizing, moves[k - 1]);
        if improves(maximizing, score, prev.0) {
            (score, moves[k - 1])
        } else {
            prev
        }
    }
}

/// The value of the position that the side to move reaches by `pos`.
pub open spec fn move_value(first: u16, second: u16, depth: int, maximizing: bool, pos: u16) -> int
    decreases depth, 0int,
{
    if depth <= 0 {
        0
    } else {
        let next = after_move(first, second, pos, maximizing);
        minimax_result(next.0, next.1, depth - 1, !maximizing).0
    }
}

/// What the alpha-beta search returns on the window from `alpha` to `beta`.
pub open spec fn alpha_beta(
    first: u16,
    second: u16,
    alpha: int,
    beta: int,
    depth: int,
    maximizing: bool,
) -> (int, u16)
    decreases depth, legal_moves(first | second).len() + 1,
{
    if is_leaf(first, second, depth) {
        (leaf_score(first, second, depth), NO_MOVE)
    } else {
        scan_moves(
            first,
            second,
            alpha,
            beta,
            depth,
            maximizing,
            0,
            worst_score(maximizing),
            NO_MOVE,
        )
    }
}

/// The rest of a node's scan: the moves from index `k` on, with the window
/// and the best result that the moves before `k` have left. The scan ends
/// with the moves, or as soon as the window has closed.
pub open spec fn scan_moves(
    first: u16,
    second: u16,
    alpha: int,
    beta: int,
    depth: int,
    maximizing: bool,
    k: int,
    best_score: int,
    best_move: u16,
) -> (int, u16)
    decreases depth, legal_moves(first | second).len() - k,
{
    let moves = legal_moves(first | second);
    if depth <= 0 || k < 0 || k >= moves.len() {
        (best_score, best_move)
    } else {
        let next = after_move(first, second, moves[k], maximizing);
        let score = alpha_beta(next.0, next.1, alpha, beta, depth - 1, !maximizing).0;
        let best = if improves(maximizing, score, best_score) {
            (score, moves[k])
        } else {
            (best_score, best_move)
        };
        let a = if maximizing && best.0 > alpha {
            best.0
        } else {
            alpha
        };
        let b = if !maximizing && best.0 < beta {
            best.0
        } else {
            beta
        };
        if b <= a {
            best
        } else {
            scan_moves(first, second, a, b, depth, maximizing, k + 1, best.0, best.1)
        }
    }
}

/// Searches the position with `depth` plies left on the window from `alpha`
/// to `beta`, and returns the score and the move that has it. The first side
/// maximizes and the second minimizes; of equal moves the one of the lowest
/// cell is kept.
pub fn minimax(
    agent_x: u16,
    agent_o: u16,
    alpha: i32,
    beta: i32,
    depth: i32,
    maximizing_player: bool,
) -> (result: (i32, u16))
    requires
        0 <= depth < i32::MAX,
    ensures
        (result.0 as int, result.1) == alpha_beta(
            agent_x,
            agent_o,
            alpha as int,
            beta as int,
            depth as int,
            maximizing_player,
        ),
        alpha < beta ==> agrees_on_window(
            (result.0 as int, result.1),
            minimax_result(agent_x, agent_o, depth as int, maximizing_player),
            alpha as int,
            beta as int,
        ),
    decreases depth,
{
    proof {
        if alpha < beta {
            lemma_alpha_beta_agrees(
                agent_x,
                agent_o,
                alpha as int,
                beta as int,
                depth as int,
                maximizing_player,
            );
        }
    }
    let score = evaluate_board(agent_x, agent_o);
    if score > 0 {
        return (WIN_SCORE - (SEARCH_DEPTH - depth), NO_MOVE);
    }
    if score < 0 {
        return ((SEARCH_DEPTH - depth) - WIN_SCORE, NO_MOVE);
    }
    if depth == 0 || is_game_draw((agent_x | agent_o) & FILLED_BOARD) {
        return (0, NO_MOVE);
    }
    let possible_moves = generate_moves(agent_x | agent_o);
    let ghost target = alpha_beta(
        agent_x,
        agent_o,
        alpha as int,
        beta as int,
        depth as int,
        maximizing_player,
    );
    let mut alpha = alpha;
    let mut beta = beta;
    let mut best_move = NO_MOVE;
    let mut k: usize = 0;
    if maximizing_player {
        let mut best_score = i32::MIN;
        while k < possible_moves.len()
            invariant_except_break
                k <= possible_moves@.len(),
                target == scan_moves(
                    agent_x,
                    agent_o,
                    alpha as int,
                    beta as int,
                    depth as int,
                    true,
                    k as int,
                    best_score as int,
                    best_move,
                ),
            invariant
                0 < depth < i32::MAX,
                possible_moves@ == legal_moves(agent_x | agent_o),
            ensures
                target == (best_score as int, best_move),
            decreases possible_moves@.len() - k,
        {
            let pos = possible_moves[k];
            let (score, _) = minimax(agent_x | pos, agent_o, alpha, beta, depth - 1, false);
            if score > best_score {
                best_score = score;
                best_move = pos;
            }
            if best_score > alpha {
                alpha = best_score;
            }
            k += 1;
            if beta <= alpha {
                break ;
            }
        }
        (best_score, best_move)
    } else {
        let mut best_score = i32::MAX;
        while k < possible_moves.len()
            invariant_except_break
                k <= possible_moves@.len(),
                target == scan_moves(
                    agent_x,
                    agent_o,
                    alpha as int,
                    beta as int,
                    depth as int,
                    false,
                    k as int,
                    best_score as int,
                    best_move,
                ),
            invariant
                0 < depth < i32::MAX,
                possible_moves@ == legal_moves(agent_x | agent_o),
            ensures
                target == (best_score as int, best_move),
            decreases possible_moves@.len() - k,
        {
            let pos = possible_moves[k];
            let (score, _) = minimax(agent_x, agent_o | pos, alpha, beta, depth - 1, true);
            if score < best_score {
                best_score = score;
                best_move = pos;
            }
            if best_score < beta {
                beta = best_score;
            }
            k += 1;
            if beta <= alpha {
                break ;
            }
        }
        (best_score, best_move)
    }
}

} // verus!
