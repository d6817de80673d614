use vstd::prelude::*;

verus! {

/// Number of worlds on each board, and of card slots in the hand.
pub const WORLD_COUNT: usize = 4;

/// One of the two parallel boards.
#[derive(Clone, Copy, Debug, PartialEq, Eq, Structural)]
pub enum Board {
    Kenoma,
    Pleroma,
}

impl Board {
    /// Position of the board in storage keyed by board: Kenoma first.
    pub open spec fn spec_index(self) -> int {
        match self {
            Board::Kenoma => 0,
            Board::Pleroma => 1,
        }
    }

    pub fn index(self) -> (r: usize)
        ensures
            r == self.spec_index(),
    {
        match self {
            Board::Kenoma => 0,
            Board::Pleroma => 1,
        }
    }

    pub open spec fn spec_other(self) -> Board {
        match self {
            Board::Kenoma => Board::Pleroma,
            Board::Pleroma => Board::Kenoma,
        }
    }

    /// The board that is not `self`.
    pub fn other(self) -> (r: Board)
        ensures
            r == self.spec_other(),
            r != self,
    {
        match self {
            Board::Kenoma => Board::Pleroma,
            Board::Pleroma => Board::Kenoma,
        }
    }
}

/// Position of `(board, world)` in storage that holds one entry per world
/// and board: the four worlds of Kenoma, then the four of Pleroma.
pub open spec fn spec_cell(board: Board, world: int) -> int {
    board.spec_index() * WORLD_COUNT as int + world
}

pub fn cell(board: Board, world: usize) -> (r: usize)
    requires
        world < WORLD_COUNT,
    ensures
        r == spec_cell(board, world as int),
        r < 2 * WORLD_COUNT,
{
    board.index() * WORLD_COUNT + world
}

/// Which board is currently active.
#[derive(Clone, Copy, Debug, PartialEq, Eq, Structural)]
pub struct BoardState {
    pub active: Board,
}

impl BoardState {
    /// A game starts on Kenoma.
    pub fn new() -> (r: BoardState)
        ensures
            r.active == Board::Kenoma,
    {
        BoardState { active: Board::Kenoma }
    }

    pub fn toggle(&mut self)
        ensures
            final(self).active == old(self).active.spec_other(),
    {
        self.active = self.active.other();
    }
}

} // verus!
