//! A game in progress: the board, whose turn it is, and the one way to change
//! them, which is to make a legal move.

use crate::agent::Agent;
use crate::board::{
    cell_mask, evaluate, has_line, is_finished, is_game_draw, is_legal_move, is_set,
    lemma_cell_mask, validate_cell, TerminalStatus, CELLS,
};
use crate::error::{GameStateError, MoveError, TicTacToeError};
use crate::rules::{is_step, lemma_reachable, reachable};
use crate::search::after_move;
use vstd::prelude::*;

verus! {

/// What a game holds, as plain values.
pub ghost struct GameState {
    /// The cells of X.
    pub agent_x: u16,
    /// The cells of O.
    pub agent_o: u16,
    /// The side to move.
    pub turn: Agent,
    /// How many moves were made.
    pub plies: nat,
}

impl GameState {
    /// Whether the state is one of a legal game.
    pub open spec fn is_legal(self) -> bool {
        reachable(self.agent_x, self.agent_o, self.turn == Agent::X, self.plies)
    }

    /// Why the side to move cannot claim cell `cell`, if it cannot: the game
    /// is over, the cell lies outside the grid, or the cell is taken.
    pub open spec fn refusal(self, cell: u16) -> Option<TicTacToeError> {
        if is_finished(self.agent_x, self.agent_o) {
            Some(TicTacToeError::GameStateError(GameStateError::GameAlreadyOver))
        } else if cell >= 9 {
            Some(TicTacToeError::MoveError(MoveError::InvalidPosition))
        } else if is_set(self.agent_x | self.agent_o, cell as int) {
            Some(TicTacToeError::MoveError(MoveError::OccupiedCell))
        } else {
            None
        }
    }

    /// The state after the side to move has claimed cell `cell`.
    pub open spec fn after_claim(self, cell: u16) -> GameState {
        let next = after_move(
            self.agent_x,
            self.agent_o,
            cell_mask(cell as int),
            self.turn == Agent::X,
        );
        GameState {
            agent_x: next.0,
            agent_o: next.1,
            turn: self.turn.other(),
            plies: self.plies + 1,
        }
    }
}

/// A game of noughts and crosses between X and O.
pub struct TicTacToe {
    board: u16,
    agent_x: u16,
    agent_o: u16,
    turn: Agent,
    plies: Ghost<nat>,
}

impl View for TicTacToe {
    type V = GameState;

    closed spec fn view(&self) -> GameState {
        GameState {
            agent_x: self.agent_x,
            agent_o: self.agent_o,
            turn: self.turn,
            plies: self.plies@,
        }
    }
}

impl TicTacToe {
    /// Whether the game is sound: its board is the union of the two sides'
    /// cells, and its state is one of a legal game.
    pub closed spec fn wf(&self) -> bool {
        self.board == self.agent_x | self.agent_o && self@.is_legal()
    }

    /// A sound game stands at a position of legal play, so that all that
    /// holds of such positions holds of it.
    pub proof fn lemma_wf_is_legal(&self)
        requires
            self.wf(),
        ensures
            self@.is_legal(),
            self@.agent_x & self@.agent_o == 0,
            !(has_line(self@.agent_x) && has_line(self@.agent_o)),
    {
        lemma_reachable(self@.agent_x, self@.agent_o, self@.turn == Agent::X, self@.plies);
    }

    /// A new game: the board is empty and X is to move.
    pub fn new() -> (game: Self)
        ensures
            game.wf(),
            game@ == (GameState { agent_x: 0, agent_o: 0, turn: Agent::X, plies: 0 }),
    {
        proof {
            assert(0u16 | 0u16 == 0u16) by (bit_vector);
        }
        Self {
            board: 0b_000_000_000,
            agent_x: 0b_000_000_000,
            agent_o: 0b_000_000_000,
            turn: Agent::X,
            plies: Ghost(0),
        }
    }

    /// The cells of X.
    pub fn agent_x(&self) -> (mask: u16)
        ensures
            mask == self@.agent_x,
    {
        self.agent_x
    }

    /// The cells of O.
    pub fn agent_o(&self) -> (mask: u16)
        ensures
            mask == self@.agent_o,
    {
        self.agent_o
    }

    /// All taken cells.
    pub fn board(&self) -> (mask: u16)
        requires
            self.wf(),
        ensures
            mask == self@.agent_x | self@.agent_o,
    {
        self.board
    }

    /// The side to move.
    pub fn turn(&self) -> (agent: Agent)
        ensures
            agent == self@.turn,
    {
        self.turn
    }

    /// Claims cell `cell`, counted from 0 row by row, for the side to move,
    /// and hands the turn to the other side. Returns the mask of the cell.
    /// A move is refused, and the game left as it was, when the game is over,
    /// when the cell lies outside the grid, and when the cell is taken. The
    /// game keeps the turn itself, so no move is made out of turn.
    pub fn make_move(&mut self, cell: u16) -> (result: Result<u16, TicTacToeError>)
        requires
            old(self).wf(),
        ensures
            final(self).wf(),
            match old(self)@.refusal(cell) {
                Some(error) => result == Err::<u16, TicTacToeError>(error) && final(self)@ == old(
                    self,
                )@,
                None => result == Ok::<u16, TicTacToeError>(cell_mask(cell as int)) && final(self)@
                    == old(self)@.after_claim(cell),
            },
    {
        proof {
            lemma_reachable(self.agent_x, self.agent_o, self.turn == Agent::X, self.plies@);
            let board = self.board;
            assert(board <= 0x1ffu16 ==> (board & 0x1ff == 0x1ff) == (board == 0x1ff))
                by (bit_vector);
        }
        let decided = match evaluate(self.agent_x, self.agent_o) {
            TerminalStatus::Undecided => false,
            _ => true,
        };
        if decided || is_game_draw(self.board) {
            return Err(TicTacToeError::GameStateError(GameStateError::GameAlreadyOver));
        }
        if cell >= CELLS {
            return Err(TicTacToeError::MoveError(MoveError::InvalidPosition));
        }
        let mask: u16 = 1u16 << cell;
        proof {
            lemma_cell_mask(cell as int);
        }
        if !validate_cell(self.board, mask) {
            return Err(TicTacToeError::MoveError(MoveError::OccupiedCell));
        }
        let ghost before = (self.agent_x, self.agent_o);
        let ghost first_moves = self.turn == Agent::X;
        match self.turn {
            Agent::X => {
                self.agent_x = self.agent_x | mask;
            },
            Agent::O => {
                self.agent_o = self.agent_o | mask;
            },
        }
        self.board = self.board | mask;
        self.turn = self.turn.opponent();
        self.plies = Ghost((self.plies@ + 1) as nat);
        proof {
            let x = before.0;
            let o = before.1;
            assert((x | mask) | o == (x | o) | mask && x | (o | mask) == (x | o) | mask)
                by (bit_vector);
            assert(is_legal_move(before.0 | before.1, mask));
            assert((self.agent_x, self.agent_o) == after_move(
                before.0,
                before.1,
                mask,
                first_moves,
            ));
            assert(is_step(before, (self.agent_x, self.agent_o), !first_moves));
        }
        Ok(mask)
    }
}

} // verus!
