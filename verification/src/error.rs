//! What can be wrong with a request to the game.

use vstd::prelude::*;

verus! {

/// Any error of the game, by the part that it concerns.
#[derive(Clone, Copy, Debug, PartialEq, Eq)]
pub enum TicTacToeError {
    MoveError(MoveError),
    GameStateError(GameStateError),
    BoardError(BoardError),
    PlayerError(PlayerError),
}

/// A move that cannot be made on the board as it stands.
#[derive(Clone, Copy, Debug, PartialEq, Eq)]
pub enum MoveError {
    /// The cell lies outside the grid.
    InvalidPosition,
    /// The cell is taken already.
    OccupiedCell,
}

/// A move at a time when none can be made.
#[derive(Clone, Copy, Debug, PartialEq, Eq)]
pub enum GameStateError {
    GameAlreadyOver,
    NotYourTurn,
}

/// A board that is no board of the game.
#[derive(Clone, Copy, Debug, PartialEq, Eq)]
pub enum BoardError {
    OutOfBounds,
    /// The two sides' cells do not make up a position.
    InvalidConfiguration,
}

/// A player that the game does not know.
#[derive(Clone, Copy, Debug, PartialEq, Eq)]
pub enum PlayerError {
    UnknownPlayer,
    InvalidSymbol,
}

} // verus!
