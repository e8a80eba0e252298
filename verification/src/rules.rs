//! Legal play: the positions that a game can reach, and what holds of all of
//! them.

use crate::board::{
    cell_mask, count_below, has_line, is_legal_move, is_set, lemma_cell_mask,
    lemma_full_has_no_moves, outcome, popcount, TerminalStatus, FILLED_BOARD,
};
use crate::search::after_move;
use vstd::prelude::*;

verus! {

/// Whether one legal ply leads from the position `from` to the position
/// `to`, after which it is the first side's turn if `first_moves_next`: the
/// game is not decided at `from`, and the other side claims one empty cell.
pub open spec fn is_step(from: (u16, u16), to: (u16, u16), first_moves_next: bool) -> bool {
    outcome(from.0, from.1) == TerminalStatus::Undecided && exists|pos: u16|
        #[trigger] is_legal_move(from.0 | from.1, pos) && to == after_move(
            from.0,
            from.1,
            pos,
            !first_moves_next,
        )
}

/// Whether a legal game reaches the position after `plies` plies, with
/// `first_to_move` telling whose turn it is then. A game starts on the empty
/// board, either side may open it, the sides alternate, and no ply follows a
/// completed line.
pub open spec fn reachable(first: u16, second: u16, first_to_move: bool, plies: nat) -> bool
    decreases plies,
{
    if plies == 0 {
        first == 0 && second == 0
    } else {
        exists|from: (u16, u16)|
            reachable(from.0, from.1, !first_to_move, (plies - 1) as nat) && #[trigger] is_step(
                from,
                (first, second),
                first_to_move,
            )
    }
}

proof fn lemma_claim_cell(first: u16, second: u16, pos: u16)
    by (bit_vector)
    requires
        first & second == 0,
        first | second <= 0x1ffu16,
        (first | second) & pos == 0,
        0 < pos <= 256u16,
    ensures
        (first | pos) & second == 0,
        first & (second | pos) == 0,
        (first | pos) | second <= 0x1ffu16,
        first | (second | pos) <= 0x1ffu16,
        (first | pos) | second == (first | second) | pos,
        first | (second | pos) == (first | second) | pos,
{
}

proof fn lemma_set_after_claim(filled: u16, i: u16, j: u16)
    by (bit_vector)
    requires
        i < 9,
        j < 9,
    ensures
        ((filled | (1u16 << i)) & (1u16 << j) != 0) == (filled & (1u16 << j) != 0 || i == j),
{
}

// Claiming the empty cell `i` adds one to the count of any range that holds it.
proof fn lemma_count_after_claim(filled: u16, i: int, n: int)
    requires
        0 <= i < 9,
        0 <= n <= 9,
        !is_set(filled, i),
    ensures
        count_below(filled | cell_mask(i), n) == count_below(filled, n) + if i < n {
            1int
        } else {
            0int
        },
    decreases n,
{
    if n > 0 {
        lemma_count_after_claim(filled, i, n - 1);
        lemma_set_after_claim(filled, i as u16, (n - 1) as u16);
    }
}

/// A legal move keeps a position a position: where the two sides share no
/// cell and hold none outside the grid, the same is true after either side
/// has claimed an empty cell, and one cell more is taken.
pub proof fn lemma_move_keeps_position(first: u16, second: u16, pos: u16, first_to_move: bool)
    requires
        first & second == 0,
        first | second <= FILLED_BOARD,
        is_legal_move(first | second, pos),
    ensures
        after_move(first, second, pos, first_to_move).0 & after_move(
            first,
            second,
            pos,
            first_to_move,
        ).1 == 0,
        after_move(first, second, pos, first_to_move).0 | after_move(
            first,
            second,
            pos,
            first_to_move,
        ).1 == (first | second) | pos,
        (first | second) | pos <= FILLED_BOARD,
        popcount((first | second) | pos) == popcount(first | second) + 1,
{
    let i = choose|i: int| 0 <= i < 9 && pos == #[trigger] cell_mask(i);
    lemma_cell_mask(i);
    lemma_claim_cell(first, second, pos);
    lemma_count_after_claim(first | second, i, 9);
}

/// What holds of every position of a legal game: the two sides share no
/// cell, no cell lies outside the grid, as many cells are taken as plies
/// were made, and at most one side holds a line, namely the side that moved
/// last.
pub proof fn lemma_reachable(first: u16, second: u16, first_to_move: bool, plies: nat)
    requires
        reachable(first, second, first_to_move, plies),
    ensures
        first & second == 0,
        first | second <= FILLED_BOARD,
        popcount(first | second) == plies,
        plies <= 9,
        !(has_line(first) && has_line(second)),
        has_line(first) ==> !first_to_move,
        has_line(second) ==> first_to_move,
    decreases plies,
{
    if plies == 0 {
        assert(0u16 & 0 == 0 && 0u16 | 0 == 0) by (bit_vector);
        assert(!has_line(0)) by (bit_vector);
        lemma_empty_count(9);
    } else {
        let from = choose|from: (u16, u16)|
            reachable(from.0, from.1, !first_to_move, (plies - 1) as nat) && #[trigger] is_step(
                from,
                (first, second),
                first_to_move,
            );
        lemma_reachable(from.0, from.1, !first_to_move, (plies - 1) as nat);
        let pos = choose|pos: u16|
            #[trigger] is_legal_move(from.0 | from.1, pos) && (first, second) == after_move(
                from.0,
                from.1,
                pos,
                !first_to_move,
            );
        lemma_move_keeps_position(from.0, from.1, pos, !first_to_move);
        lemma_full_has_no_moves(first | second);
    }
}

proof fn lemma_empty_count(n: int)
    requires
        0 <= n <= 9,
    ensures
        count_below(0, n) == 0,
    decreases n,
{
    if n > 0 {
        lemma_empty_count(n - 1);
        assert(0u16 & (1u16 << ((n - 1) as u16)) == 0) by (bit_vector);
    }
}

} // verus!
