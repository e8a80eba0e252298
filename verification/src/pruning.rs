//! Why pruning is safe: the alpha-beta search and exhaustive minimax agree
//! wherever the value of the position lies inside the window, and the search
//! returns a bound on the right side of the window where it does not.

use crate::board::{
    cell_mask, is_legal_move, legal_moves, lemma_cell_mask, lemma_full_has_no_moves,
    lemma_legal_moves_contains, outcome, TerminalStatus,
};
use crate::search::{
    after_move, alpha_beta, best_of_first, improves, is_leaf, minimax_result, move_value,
    depth_consumed, scan_moves, worst_score, NO_MOVE, WIN_SCORE,
};
use vstd::prelude::*;

verus! {

/// Whether `found`, the result of a search on the window from `alpha` to
/// `beta`, is as good as the exact result: equal to it where the exact score
/// lies inside the window, and else a score between the exact one and the
/// side of the window that it lies beyond.
pub open spec fn agrees_on_window(
    found: (int, u16),
    exact: (int, u16),
    alpha: int,
    beta: int,
) -> bool {
    &&& alpha < exact.0 < beta ==> found == exact
    &&& exact.0 <= alpha ==> exact.0 <= found.0 <= alpha
    &&& beta <= exact.0 ==> beta <= found.0 <= exact.0
}

/// No value is better, for either side, than the score of a win found at the
/// position itself, and the value of a position that no side has won yet is
/// strictly less good than that.
pub proof fn lemma_value_bounds(first: u16, second: u16, depth: int, maximizing: bool)
    requires
        0 <= depth < i32::MAX,
    ensures
        depth_consumed(depth) - WIN_SCORE <= minimax_result(first, second, depth, maximizing).0
            <= WIN_SCORE - depth_consumed(depth),
        outcome(first, second) == TerminalStatus::Undecided ==> depth_consumed(depth) - WIN_SCORE
            < minimax_result(first, second, depth, maximizing).0 < WIN_SCORE - depth_consumed(
            depth,
        ),
    decreases depth, legal_moves(first | second).len() + 1,
{
    if !is_leaf(first, second, depth) {
        lemma_full_has_no_moves(first | second);
        lemma_best_in_range(
            first,
            second,
            depth,
            maximizing,
            legal_moves(first | second).len() as int,
        );
    }
}

/// No move is worth more, for either side, than a win on the ply that it
/// makes.
pub proof fn lemma_move_value_bounds(
    first: u16,
    second: u16,
    depth: int,
    maximizing: bool,
    pos: u16,
)
    requires
        0 < depth < i32::MAX,
    ensures
        depth_consumed(depth - 1) - WIN_SCORE <= move_value(
            first,
            second,
            depth,
            maximizing,
            pos,
        ) <= WIN_SCORE - depth_consumed(depth - 1),
    decreases depth, 0int,
{
    let next = after_move(first, second, pos, maximizing);
    lemma_value_bounds(next.0, next.1, depth - 1, !maximizing);
}

proof fn lemma_best_in_range(first: u16, second: u16, depth: int, maximizing: bool, k: int)
    requires
        0 < depth < i32::MAX,
        0 <= k <= legal_moves(first | second).len(),
    ensures
        k > 0 ==> -depth <= best_of_first(first, second, depth, maximizing, k).0 <= depth,
    decreases depth, k,
{
    if k > 0 {
        lemma_best_in_range(first, second, depth, maximizing, k - 1);
        assert(best_of_first(first, second, depth, maximizing, 0).0 == worst_score(maximizing));
        lemma_move_value_bounds(
            first,
            second,
            depth,
            maximizing,
            legal_moves(first | second)[k - 1],
        );
    }
}

/// What the best of the first `k` moves is: the first of them whose value no
/// other of them improves on.
pub proof fn lemma_best_of_first(first: u16, second: u16, depth: int, maximizing: bool, k: int)
    requires
        0 < depth < i32::MAX,
        0 < k <= legal_moves(first | second).len(),
    ensures
        exists|j: int|
            {
                &&& 0 <= j < k
                &&& best_of_first(first, second, depth, maximizing, k) == (
                    move_value(first, second, depth, maximizing, legal_moves(first | second)[j]),
                    #[trigger] legal_moves(first | second)[j],
                )
                &&& forall|i: int|
                    0 <= i < j ==> improves(
                        maximizing,
                        best_of_first(first, second, depth, maximizing, k).0,
                        move_value(
                            first,
                            second,
                            depth,
                            maximizing,
                            #[trigger] legal_moves(first | second)[i],
                        ),
                    )
            },
        forall|i: int|
            0 <= i < k ==> !improves(
                maximizing,
                move_value(
                    first,
                    second,
                    depth,
                    maximizing,
                    #[trigger] legal_moves(first | second)[i],
                ),
                best_of_first(first, second, depth, maximizing, k).0,
            ),
    decreases k,
{
    let moves = legal_moves(first | second);
    let cur = best_of_first(first, second, depth, maximizing, k);
    let score = move_value(first, second, depth, maximizing, moves[k - 1]);
    lemma_move_value_bounds(first, second, depth, maximizing, moves[k - 1]);
    if k == 1 {
        assert(best_of_first(first, second, depth, maximizing, 0) == (
            worst_score(maximizing),
            NO_MOVE,
        ));
        assert(cur == (score, moves[0]));
    } else {
        lemma_best_of_first(first, second, depth, maximizing, k - 1);
        let prev = best_of_first(first, second, depth, maximizing, k - 1);
        let j = choose|j: int|
            {
                &&& 0 <= j < k - 1
                &&& prev == (
                    move_value(first, second, depth, maximizing, moves[j]),
                    #[trigger] moves[j],
                )
                &&& forall|i: int|
                    0 <= i < j ==> improves(
                        maximizing,
                        prev.0,
                        move_value(first, second, depth, maximizing, #[trigger] moves[i]),
                    )
            };
        if improves(maximizing, score, prev.0) {
            assert(cur == (score, moves[k - 1]));
        } else {
            assert(cur == (move_value(first, second, depth, maximizing, moves[j]), moves[j]));
        }
    }
}

// What a scan has reached when it stands before move `k`: how the window and
// the best result so far relate to the window that the node was entered with,
// and to the exact best of the moves before `k`.
spec fn scan_state(
    first: u16,
    second: u16,
    alpha0: int,
    beta0: int,
    depth: int,
    maximizing: bool,
    k: int,
    alpha: int,
    beta: int,
    best: (int, u16),
) -> bool {
    let exact = best_of_first(first, second, depth, maximizing, k);
    if maximizing {
        &&& beta == beta0
        &&& alpha == if best.0 > alpha0 {
            best.0
        } else {
            alpha0
        }
        &&& alpha < beta
        &&& exact.0 > alpha0 ==> best == exact
        &&& exact.0 <= alpha0 ==> exact.0 <= best.0 <= alpha0
    } else {
        &&& alpha == alpha0
        &&& beta == if best.0 < beta0 {
            best.0
        } else {
            beta0
        }
        &&& alpha < beta
        &&& exact.0 < beta0 ==> best == exact
        &&& exact.0 >= beta0 ==> beta0 <= best.0 <= exact.0
    }
}

/// Pruning loses nothing: on any window that is not empty, the alpha-beta
/// search returns the score and the move of exhaustive minimax wherever that
/// score lies inside the window, and else a score on the same side of the
/// window, no further out than the exact one.
pub proof fn lemma_alpha_beta_agrees(
    first: u16,
    second: u16,
    alpha: int,
    beta: int,
    depth: int,
    maximizing: bool,
)
    requires
        0 <= depth < i32::MAX,
        i32::MIN <= alpha < beta <= i32::MAX,
    ensures
        agrees_on_window(
            alpha_beta(first, second, alpha, beta, depth, maximizing),
            minimax_result(first, second, depth, maximizing),
            alpha,
            beta,
        ),
    decreases depth, legal_moves(first | second).len() + 1,
{
    if !is_leaf(first, second, depth) {
        assert(best_of_first(first, second, depth, maximizing, 0) == (
            worst_score(maximizing),
            NO_MOVE,
        ));
        lemma_scan_agrees(
            first,
            second,
            alpha,
            beta,
            depth,
            maximizing,
            0,
            alpha,
            beta,
            (worst_score(maximizing), NO_MOVE),
        );
    }
}

proof fn lemma_scan_agrees(
    first: u16,
    second: u16,
    alpha0: int,
    beta0: int,
    depth: int,
    maximizing: bool,
    k: int,
    alpha: int,
    beta: int,
    best: (int, u16),
)
    requires
        0 < depth < i32::MAX,
        i32::MIN <= alpha0 < beta0 <= i32::MAX,
        0 <= k <= legal_moves(first | second).len(),
        scan_state(first, second, alpha0, beta0, depth, maximizing, k, alpha, beta, best),
    ensures
        agrees_on_window(
            scan_moves(first, second, alpha, beta, depth, maximizing, k, best.0, best.1),
            best_of_first(
                first,
                second,
                depth,
                maximizing,
                legal_moves(first | second).len() as int,
            ),
            alpha0,
            beta0,
        ),
    decreases depth, legal_moves(first | second).len() - k,
{
    let moves = legal_moves(first | second);
    let n = moves.len() as int;
    if k < n {
        let next = after_move(first, second, moves[k], maximizing);
        lemma_alpha_beta_agrees(next.0, next.1, alpha, beta, depth - 1, !maximizing);
        let found = alpha_beta(next.0, next.1, alpha, beta, depth - 1, !maximizing).0;
        let value = move_value(first, second, depth, maximizing, moves[k]);
        assert(value == minimax_result(next.0, next.1, depth - 1, !maximizing).0);
        let new_best = if improves(maximizing, found, best.0) {
            (found, moves[k])
        } else {
            best
        };
        let a = if maximizing && new_best.0 > alpha {
            new_best.0
        } else {
            alpha
        };
        let b = if !maximizing && new_best.0 < beta {
            new_best.0
        } else {
            beta
        };
        let exact = best_of_first(first, second, depth, maximizing, k);
        let exact_next = best_of_first(first, second, depth, maximizing, k + 1);
        assert(exact_next == if improves(maximizing, value, exact.0) {
            (value, moves[k])
        } else {
            exact
        });
        if b <= a {
            lemma_best_of_first(first, second, depth, maximizing, n);
            assert(!improves(
                maximizing,
                move_value(first, second, depth, maximizing, moves[k]),
                best_of_first(first, second, depth, maximizing, n).0,
            ));
        } else {
            assert(scan_state(
                first,
                second,
                alpha0,
                beta0,
                depth,
                maximizing,
                k + 1,
                a,
                b,
                new_best,
            ));
            lemma_scan_agrees(
                first,
                second,
                alpha0,
                beta0,
                depth,
                maximizing,
                k + 1,
                a,
                b,
                new_best,
            );
        }
    }
}

/// On the widest window the alpha-beta search returns exactly the score and
/// the move of exhaustive minimax, at every position and depth.
pub proof fn lemma_full_window_exact(first: u16, second: u16, depth: int, maximizing: bool)
    requires
        0 <= depth < i32::MAX,
    ensures
        alpha_beta(first, second, i32::MIN as int, i32::MAX as int, depth, maximizing)
            == minimax_result(first, second, depth, maximizing),
{
    lemma_value_bounds(first, second, depth, maximizing);
    lemma_alpha_beta_agrees(first, second, i32::MIN as int, i32::MAX as int, depth, maximizing);
}

/// Exhaustive minimax names no move where the search stops, and an open cell
/// everywhere else.
pub proof fn lemma_best_move_legal(first: u16, second: u16, depth: int, maximizing: bool)
    requires
        0 <= depth < i32::MAX,
    ensures
        is_leaf(first, second, depth) <==> minimax_result(first, second, depth, maximizing).1
            == NO_MOVE,
        !is_leaf(first, second, depth) ==> is_legal_move(
            first | second,
            minimax_result(first, second, depth, maximizing).1,
        ),
{
    lemma_cell_mask(0);
    assert forall|i: int| 0 <= i < 9 implies #[trigger] cell_mask(i) != NO_MOVE by {
        lemma_cell_mask(i);
    }
    if !is_leaf(first, second, depth) {
        let moves = legal_moves(first | second);
        lemma_full_has_no_moves(first | second);
        lemma_best_of_first(first, second, depth, maximizing, moves.len() as int);
        let best = minimax_result(first, second, depth, maximizing).1;
        assert(moves.contains(best));
        lemma_legal_moves_contains(first | second, best);
    }
}

} // verus!
