use vstd::prelude::*;

verus! {

/// The state a game is in after the latest move.
#[derive(Copy, Clone, Debug, PartialEq, Eq, Structural)]
pub enum GameState {
    InProgress,
    Check,
    Checkmate,
    GameOver,
}

/// The two sides of a game.
#[derive(Copy, Clone, Debug, PartialEq, Eq, Structural)]
pub enum Colour {
    White,
    Black,
}

/// The kinds of piece. A piece has no state of its own: what it may do is a
/// function of its kind, its side and the board.
#[derive(Copy, Clone, Debug, PartialEq, Eq, Structural)]
pub enum Piece {
    King,
    Queen,
    Rook,
    Knight,
    Bishop,
    Pawn,
}

/// Which occupancy a single target square must have to be a move.
#[derive(Copy, Clone, Debug, PartialEq, Eq, Structural)]
pub enum MovementMode {
    /// Only onto an empty square.
    OnlyEmpty,
    /// Only onto a square held by the other side (a capture).
    OnlyDifferent,
    /// Onto an empty square or a capture.
    Both,
}

/// The side that is not `c`.
pub open spec fn opponent(c: Colour) -> Colour {
    match c {
        Colour::White => Colour::Black,
        Colour::Black => Colour::White,
    }
}

impl Colour {
    /// The other side.
    pub fn other(self) -> (r: Colour)
        ensures
            r == opponent(self),
    {
        match self {
            Colour::White => Colour::Black,
            Colour::Black => Colour::White,
        }
    }
}

} // verus!
