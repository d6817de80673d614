use vstd::prelude::*;

use crate::board::{cell, spec_cell, Board, WORLD_COUNT};
use crate::error::GameError;
use crate::ledger::PolarityLedger;

verus! {

/// The entity that occupies a world on one board.
pub struct Dimension {
    pub name: String,
    pub board: Board,
}

/// Name of the dimension every world starts with, and of those that replace
/// claimed ones.
pub open spec fn first_dimension_name() -> Seq<char> {
    "Goemorphos"@
}

pub fn dimension_name() -> (r: String)
    ensures
        r@ == first_dimension_name(),
{
    String::from_str("Goemorphos")
}

/// The dimension of every world on both boards.
pub struct WorldRegistry {
    dimensions: Vec<Dimension>,
}

impl WorldRegistry {
    pub closed spec fn size(&self) -> int {
        self.dimensions@.len() as int
    }

    pub closed spec fn dimension(&self, board: Board, world: int) -> Dimension {
        self.dimensions@[spec_cell(board, world)]
    }

    pub open spec fn wf(&self) -> bool {
        &&& self.size() == 2 * WORLD_COUNT
        &&& forall|b: Board, w: int|
            0 <= w < WORLD_COUNT ==> (#[trigger] self.dimension(b, w)).board == b
    }

    /// `other` agrees with `self` on every world but `(board, world)`.
    pub open spec fn same_except(&self, other: &WorldRegistry, board: Board, world: int) -> bool {
        &&& other.size() == self.size()
        &&& forall|b: Board, w: int|
            0 <= w < WORLD_COUNT && !(b == board && w == world) ==> #[trigger] other.dimension(b, w)
                == self.dimension(b, w)
    }

    /// Every world of both boards holds the first dimension.
    pub fn new() -> (r: WorldRegistry)
        ensures
            r.wf(),
            forall|b: Board, w: int|
                0 <= w < WORLD_COUNT ==> (#[trigger] r.dimension(b, w)).name@ == first_dimension_name(),
    {
        let mut dimensions: Vec<Dimension> = Vec::new();
        let mut i: usize = 0;
        while i < 2 * WORLD_COUNT
            invariant
                i <= 2 * WORLD_COUNT,
                dimensions@.len() == i,
                forall|j: int|
                    0 <= j < i ==> {
                        &&& (#[trigger] dimensions@[j]).name@ == first_dimension_name()
                        &&& dimensions@[j].board == (if j < 4 {
                            Board::Kenoma
                        } else {
                            Board::Pleroma
                        })
                    },
            decreases 2 * WORLD_COUNT - i,
        {
            let board = if i < WORLD_COUNT {
                Board::Kenoma
            } else {
                Board::Pleroma
            };
            dimensions.push(Dimension { name: dimension_name(), board });
            i = i + 1;
        }
        WorldRegistry { dimensions }
    }

    pub fn get(&self, world: usize, board: Board) -> (r: &Dimension)
        requires
            world < WORLD_COUNT,
            self.wf(),
        ensures
            *r == self.dimension(board, world as int),
    {
        &self.dimensions[cell(board, world)]
    }

    /// Replaces the dimension of `(world, board)` with a new one named
    /// `new_name` and returns a copy of it. Only a world whose marker stands
    /// at zero and is flagged claimable can be claimed.
    pub fn claim(&mut self, ledger: &PolarityLedger, world: usize, board: Board, new_name: String) -> (r:
        Result<Dimension, GameError>)
        requires
            old(self).wf(),
            ledger.wf(),
        ensures
            final(self).wf(),
            world >= WORLD_COUNT ==> r is Err && r->Err_0 == GameError::OutOfRange,
            world < WORLD_COUNT && !(ledger.marker(board, world as int).polarity == 0
                && ledger.marker(board, world as int).claimable) ==> r is Err && r->Err_0
                == GameError::NotClaimable,
            r is Err ==> *final(self) == *old(self),
            world < WORLD_COUNT && ledger.marker(board, world as int).polarity == 0 && ledger.marker(
                board,
                world as int,
            ).claimable ==> {
                &&& r is Ok
                &&& r->Ok_0.name@ == new_name@
                &&& r->Ok_0.board == board
                &&& final(self).dimension(board, world as int) == r->Ok_0
                &&& old(self).same_except(&*final(self), board, world as int)
            },
    {
        if world >= WORLD_COUNT {
            return Err(GameError::OutOfRange);
        }
        if !(ledger.is_zero(world, board) && ledger.is_claimable(world, board)) {
            return Err(GameError::NotClaimable);
        }
        let c = cell(board, world);
        let copy = Dimension { name: new_name.clone(), board };
        self.dimensions.set(c, Dimension { name: new_name, board });
        assert forall|b: Board, w: int| 0 <= w < WORLD_COUNT implies {
            &&& (#[trigger] self.dimension(b, w)).board == b
            &&& !(b == board && w == world) ==> self.dimension(b, w) == old(self).dimension(b, w)
        } by {
            if !(b == board && w == world) {
                assert(spec_cell(b, w) != c);
                assert(old(self).dimension(b, w).board == b);
            }
        }
        Ok(copy)
    }
}

} // verus!
