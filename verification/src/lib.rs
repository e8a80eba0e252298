//! A perfect-play engine for the 3x3 game of noughts and crosses.
//!
//! A position is a pair of 9-bit occupancy masks, one for each side; bit `i`
//! stands for cell `i` of the grid, counted row by row. The first side is X
//! and maximizes the score, the second is O and minimizes it.

use crate::board::{is_finished, is_legal_move};
use crate::pruning::{lemma_best_move_legal, lemma_full_window_exact};
use crate::search::{minimax, minimax_result, NO_MOVE, SEARCH_DEPTH};
use vstd::prelude::*;

pub mod agent;
pub mod board;
pub mod error;
pub mod game;
pub mod play;
pub mod pruning;
pub mod rules;
pub mod search;

verus! {

/// The move of perfect play: the first move, in rising cell order, that
/// reaches the minimax value of the position when the game is searched to
/// its end.
pub open spec fn best_move(agent_x: u16, agent_o: u16, is_x_turn: bool) -> u16 {
    minimax_result(agent_x, agent_o, SEARCH_DEPTH as int, is_x_turn).1
}

/// Returns the best move for the side to move, as the mask of its cell. On a
/// finished position there is no move to make, and `NO_MOVE` is returned.
/// The two masks are meant to share no cell; this is not tested here.
pub fn get_best_move(agent_x: u16, agent_o: u16, is_x_turn: bool) -> (best: u16)
    ensures
        best == best_move(agent_x, agent_o, is_x_turn),
        is_finished(agent_x, agent_o) <==> best == NO_MOVE,
        !is_finished(agent_x, agent_o) ==> is_legal_move(agent_x | agent_o, best),
{
    proof {
        lemma_full_window_exact(agent_x, agent_o, SEARCH_DEPTH as int, is_x_turn);
        lemma_best_move_legal(agent_x, agent_o, SEARCH_DEPTH as int, is_x_turn);
    }
    let (_, best_move) = minimax(agent_x, agent_o, i32::MIN, i32::MAX, SEARCH_DEPTH, is_x_turn);
    best_move
}

/// The best move depends on the position and the side to move alone: any
/// two results of `get_best_move` on the same arguments are the same move.
pub proof fn lemma_best_move_repeats(
    agent_x: u16,
    agent_o: u16,
    is_x_turn: bool,
    once: u16,
    twice: u16,
)
    requires
        call_ensures(get_best_move, (agent_x, agent_o, is_x_turn), once),
        call_ensures(get_best_move, (agent_x, agent_o, is_x_turn), twice),
    ensures
        once == twice,
{
}

} // verus!
