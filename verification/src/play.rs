//! What perfect play does at a position where a line can be completed at
//! once: it takes the win, and it does not walk into a loss on the next ply
//! where that can be helped.

use crate::board::{
    has_line, is_legal_move, legal_moves, lemma_full_has_no_moves, lemma_legal_moves_contains,
    lemma_moves_below, outcome, TerminalStatus,
};
use crate::pruning::{lemma_best_of_first, lemma_move_value_bounds, lemma_value_bounds};
use crate::search::{
    after_move, best_of_first, depth_consumed, improves, is_leaf, minimax_result, move_value,
    WIN_SCORE,
};
use vstd::prelude::*;

verus! {

/// Whether the side to move completes a line by claiming `pos`.
pub open spec fn wins_at_once(first: u16, second: u16, first_to_move: bool, pos: u16) -> bool {
    if first_to_move {
        has_line(first | pos)
    } else {
        has_line(second | pos)
    }
}

/// The score of a win that the side to move reaches on its next ply, when
/// `depth` plies are left before that ply: the best score that the side can
/// have at all.
pub open spec fn quick_win_score(first_to_move: bool, depth: int) -> int {
    if first_to_move {
        WIN_SCORE - depth_consumed(depth - 1)
    } else {
        depth_consumed(depth - 1) - WIN_SCORE
    }
}

/// Whether claiming `pos` loses on the next ply: it completes no line, and
/// leaves the other side a cell that completes one.
pub open spec fn loses_at_once(first: u16, second: u16, first_to_move: bool, pos: u16) -> bool {
    let next = after_move(first, second, pos, first_to_move);
    !wins_at_once(first, second, first_to_move, pos) && exists|reply: u16|
        #[trigger] is_legal_move(next.0 | next.1, reply) && wins_at_once(
            next.0,
            next.1,
            !first_to_move,
            reply,
        )
}

// Where a legal move stands in the list of moves.
proof fn lemma_index_of_move(filled: u16, pos: u16) -> (j: int)
    requires
        is_legal_move(filled, pos),
    ensures
        0 <= j < legal_moves(filled).len(),
        legal_moves(filled)[j] == pos,
        forall|i: int| 0 <= i < j ==> legal_moves(filled)[i] < pos,
        forall|i: int|
            0 <= i < legal_moves(filled).len() ==> is_legal_move(
                filled,
                #[trigger] legal_moves(filled)[i],
            ),
{
    lemma_legal_moves_contains(filled, pos);
    lemma_moves_below(filled, 9);
    let moves = legal_moves(filled);
    assert forall|i: int| 0 <= i < moves.len() implies is_legal_move(
        filled,
        #[trigger] moves[i],
    ) by {
        assert(moves.contains(moves[i]));
        lemma_legal_moves_contains(filled, moves[i]);
    }
    choose|j: int| 0 <= j < moves.len() && moves[j] == pos
}

// The value of a move on an undecided position: that of a win on this ply
// where the move completes a line, and strictly less good than that where it
// does not.
proof fn lemma_value_of_move(first: u16, second: u16, depth: int, first_to_move: bool, pos: u16)
    requires
        0 < depth < i32::MAX,
        outcome(first, second) == TerminalStatus::Undecided,
    ensures
        wins_at_once(first, second, first_to_move, pos) ==> move_value(
            first,
            second,
            depth,
            first_to_move,
            pos,
        ) == quick_win_score(first_to_move, depth),
        !wins_at_once(first, second, first_to_move, pos) ==> quick_win_score(false, depth)
            < move_value(first, second, depth, first_to_move, pos) < quick_win_score(
            true,
            depth,
        ),
        !wins_at_once(first, second, first_to_move, pos) ==> outcome(
            after_move(first, second, pos, first_to_move).0,
            after_move(first, second, pos, first_to_move).1,
        ) == TerminalStatus::Undecided,
{
    let next = after_move(first, second, pos, first_to_move);
    lemma_value_bounds(next.0, next.1, depth - 1, !first_to_move);
}

/// Taking the win: where the side to move can complete a line at once on an
/// undecided position, exhaustive minimax names the lowest cell that
/// completes one, and gives the position the score of the fastest win.
pub proof fn lemma_takes_quickest_win(
    first: u16,
    second: u16,
    depth: int,
    first_to_move: bool,
    pos: u16,
)
    requires
        0 < depth < i32::MAX,
        outcome(first, second) == TerminalStatus::Undecided,
        is_legal_move(first | second, pos),
        wins_at_once(first, second, first_to_move, pos),
        forall|m: u16|
            m < pos && #[trigger] is_legal_move(first | second, m) ==> !wins_at_once(
                first,
                second,
                first_to_move,
                m,
            ),
    ensures
        minimax_result(first, second, depth, first_to_move) == (
            quick_win_score(first_to_move, depth),
            pos,
        ),
{
    let moves = legal_moves(first | second);
    let n = moves.len() as int;
    let j = lemma_index_of_move(first | second, pos);
    lemma_full_has_no_moves(first | second);
    lemma_best_of_first(first, second, depth, first_to_move, n);
    let best = best_of_first(first, second, depth, first_to_move, n);
    let b = choose|b: int|
        {
            &&& 0 <= b < n
            &&& best == (
                move_value(first, second, depth, first_to_move, moves[b]),
                #[trigger] moves[b],
            )
            &&& forall|i: int|
                0 <= i < b ==> improves(
                    first_to_move,
                    best.0,
                    move_value(first, second, depth, first_to_move, #[trigger] moves[i]),
                )
        };
    lemma_value_of_move(first, second, depth, first_to_move, moves[j]);
    lemma_value_of_move(first, second, depth, first_to_move, moves[b]);
    lemma_move_value_bounds(first, second, depth, first_to_move, moves[b]);
    assert(!improves(
        first_to_move,
        move_value(first, second, depth, first_to_move, moves[j]),
        best.0,
    ));
    if b < j {
        assert(is_legal_move(first | second, moves[b]));
    }
}

// The value of a move that loses on the next ply: the score of the other
// side's win on that ply.
proof fn lemma_value_of_losing_move(
    first: u16,
    second: u16,
    depth: int,
    first_to_move: bool,
    pos: u16,
)
    requires
        2 <= depth < i32::MAX,
        outcome(first, second) == TerminalStatus::Undecided,
        loses_at_once(first, second, first_to_move, pos),
    ensures
        move_value(first, second, depth, first_to_move, pos) == quick_win_score(
            !first_to_move,
            depth - 1,
        ),
{
    let next = after_move(first, second, pos, first_to_move);
    lemma_value_of_move(first, second, depth, first_to_move, pos);
    let reply = choose|reply: u16|
        #[trigger] is_legal_move(next.0 | next.1, reply) && wins_at_once(
            next.0,
            next.1,
            !first_to_move,
            reply,
        );
    let moves = legal_moves(next.0 | next.1);
    let n = moves.len() as int;
    let j = lemma_index_of_move(next.0 | next.1, reply);
    lemma_full_has_no_moves(next.0 | next.1);
    lemma_best_of_first(next.0, next.1, depth - 1, !first_to_move, n);
    let best = best_of_first(next.0, next.1, depth - 1, !first_to_move, n);
    let b = choose|b: int|
        0 <= b < n && best == (
            move_value(next.0, next.1, depth - 1, !first_to_move, moves[b]),
            #[trigger] moves[b],
        );
    lemma_value_of_move(next.0, next.1, depth - 1, !first_to_move, moves[j]);
    lemma_move_value_bounds(next.0, next.1, depth - 1, !first_to_move, moves[b]);
    assert(!improves(
        !first_to_move,
        move_value(next.0, next.1, depth - 1, !first_to_move, moves[j]),
        best.0,
    ));
}

// The value of a move that does not lose on the next ply is strictly better
// for the side to move than that of one that does.
proof fn lemma_value_of_safe_move(
    first: u16,
    second: u16,
    depth: int,
    first_to_move: bool,
    pos: u16,
)
    requires
        2 <= depth < i32::MAX,
        outcome(first, second) == TerminalStatus::Undecided,
        !loses_at_once(first, second, first_to_move, pos),
    ensures
        improves(
            first_to_move,
            move_value(first, second, depth, first_to_move, pos),
            quick_win_score(!first_to_move, depth - 1),
        ),
{
    let next = after_move(first, second, pos, first_to_move);
    lemma_value_of_move(first, second, depth, first_to_move, pos);
    if !wins_at_once(first, second, first_to_move, pos) && !is_leaf(
        next.0,
        next.1,
        depth - 1,
    ) {
        let moves = legal_moves(next.0 | next.1);
        let n = moves.len() as int;
        lemma_full_has_no_moves(next.0 | next.1);
        lemma_best_of_first(next.0, next.1, depth - 1, !first_to_move, n);
        let best = best_of_first(next.0, next.1, depth - 1, !first_to_move, n);
        let b = choose|b: int|
            0 <= b < n && best == (
                move_value(next.0, next.1, depth - 1, !first_to_move, moves[b]),
                #[trigger] moves[b],
            );
        assert(moves.contains(moves[b]));
        lemma_legal_moves_contains(next.0 | next.1, moves[b]);
        assert(is_legal_move(next.0 | next.1, moves[b]));
        lemma_value_of_move(next.0, next.1, depth - 1, !first_to_move, moves[b]);
    }
}

/// Not walking into a loss: on an undecided position with two plies or
/// more left, where some open cell does not lose on the next ply, the move
/// that exhaustive minimax names does not lose on the next ply either.
pub proof fn lemma_avoids_quick_loss(
    first: u16,
    second: u16,
    depth: int,
    first_to_move: bool,
    safe: u16,
)
    requires
        2 <= depth < i32::MAX,
        outcome(first, second) == TerminalStatus::Undecided,
        is_legal_move(first | second, safe),
        !loses_at_once(first, second, first_to_move, safe),
    ensures
        is_legal_move(first | second, minimax_result(first, second, depth, first_to_move).1),
        !loses_at_once(
            first,
            second,
            first_to_move,
            minimax_result(first, second, depth, first_to_move).1,
        ),
{
    let moves = legal_moves(first | second);
    let n = moves.len() as int;
    let j = lemma_index_of_move(first | second, safe);
    lemma_full_has_no_moves(first | second);
    lemma_best_of_first(first, second, depth, first_to_move, n);
    let best = best_of_first(first, second, depth, first_to_move, n);
    let b = choose|b: int|
        0 <= b < n && best == (
            move_value(first, second, depth, first_to_move, moves[b]),
            #[trigger] moves[b],
        );
    lemma_value_of_safe_move(first, second, depth, first_to_move, safe);
    assert(!improves(
        first_to_move,
        move_value(first, second, depth, first_to_move, moves[j]),
        best.0,
    ));
    if loses_at_once(first, second, first_to_move, moves[b]) {
        lemma_value_of_losing_move(first, second, depth, first_to_move, moves[b]);
    }
}

} // verus!
