use vstd::prelude::*;

use crate::board::{cell, spec_cell, Board, WORLD_COUNT};
use crate::error::GameError;

verus! {

/// Largest magnitude a polarity can take.
pub const POLARITY_LIMIT: i8 = 6;

pub open spec fn in_polarity_range(p: int) -> bool {
    -6 <= p <= 6
}

pub open spec fn clamp_polarity(x: int) -> int {
    if x > 6 {
        6
    } else if x < -6 {
        -6
    } else {
        x
    }
}

/// The amount a card of `value` carries onto `board`: negated on Pleroma.
pub open spec fn signed_incoming(value: int, board: Board) -> int {
    match board {
        Board::Kenoma => value,
        Board::Pleroma => -value,
    }
}

/// Polarity of a marker at `old` after a card of `value` is pushed onto it
/// while `board` is active: the incoming amount is subtracted, then clamped.
pub open spec fn pushed(old: int, value: int, board: Board) -> int {
    clamp_polarity(old - signed_incoming(value, board))
}

/// A push never leaves the polarity range, and one card moves a marker in
/// opposite directions on the two boards: never up on Kenoma, never down on
/// Pleroma. Where neither result is clamped, the two moves are exact
/// opposites of size `value`.
pub proof fn lemma_push_bounded_and_opposite(old: int, value: int)
    requires
        in_polarity_range(old),
        value >= 0,
    ensures
        forall|b: Board| in_polarity_range(#[trigger] pushed(old, value, b)),
        pushed(old, value, Board::Kenoma) - old <= 0 <= pushed(old, value, Board::Pleroma) - old,
        in_polarity_range(old - value) && in_polarity_range(old + value) ==> {
            &&& pushed(old, value, Board::Kenoma) - old == -value
            &&& pushed(old, value, Board::Pleroma) - old == value
        },
{
}

/// Display-track offset of a marker: none at zero; otherwise counted from
/// `base_pos` (positive side) or `-base_neg` (negative side) in steps.
pub open spec fn spec_slot_offset(polarity: int, base_pos: int, base_neg: int, step: int) -> int {
    if polarity == 0 {
        0
    } else if polarity > 0 {
        base_pos + (polarity - 2) * step
    } else {
        -base_neg + (polarity + 1) * step
    }
}

pub fn slot_offset(polarity: i8, base_pos: i32, base_neg: i32, step: i32) -> (r: i64)
    ensures
        r == spec_slot_offset(polarity as int, base_pos as int, base_neg as int, step as int),
{
    if polarity == 0 {
        0
    } else if polarity > 0 {
        let k = polarity as i64 - 2;
        assert(-127 * 0x8000_0000 <= k * (step as i64) <= 127 * 0x8000_0000) by (nonlinear_arith)
            requires
                -2 <= k <= 125,
                -0x8000_0000 <= step as i64 <= 0x7fff_ffff,
        ;
        base_pos as i64 + k * (step as i64)
    } else {
        let k = polarity as i64 + 1;
        assert(-127 * 0x8000_0000 <= k * (step as i64) <= 127 * 0x8000_0000) by (nonlinear_arith)
            requires
                -127 <= k <= 0,
                -0x8000_0000 <= step as i64 <= 0x7fff_ffff,
        ;
        -(base_neg as i64) + k * (step as i64)
    }
}

/// The polarity marker of one world on one board.
#[derive(Clone, Copy, Debug, PartialEq, Eq, Structural)]
pub struct Marker {
    pub polarity: i8,
    /// Set when a push brought the polarity to zero.
    pub claimable: bool,
}

/// Polarity markers of every world on both boards.
pub struct PolarityLedger {
    markers: Vec<Marker>,
}

impl PolarityLedger {
    pub closed spec fn size(&self) -> int {
        self.markers@.len() as int
    }

    pub closed spec fn marker(&self, board: Board, world: int) -> Marker {
        self.markers@[spec_cell(board, world)]
    }

    pub open spec fn wf(&self) -> bool {
        &&& self.size() == 2 * WORLD_COUNT
        &&& forall|b: Board, w: int|
            0 <= w < WORLD_COUNT ==> in_polarity_range(#[trigger] self.marker(b, w).polarity as int)
    }

    /// `other` agrees with `self` on every marker but that of `(board, world)`.
    pub open spec fn same_except(&self, other: &PolarityLedger, board: Board, world: int) -> bool {
        &&& other.size() == self.size()
        &&& forall|b: Board, w: int|
            0 <= w < WORLD_COUNT && !(b == board && w == world) ==> #[trigger] other.marker(b, w)
                == self.marker(b, w)
    }

    /// Both boards start with the same polarity on each world, none claimable.
    pub fn new(starting: &Vec<i8>) -> (r: PolarityLedger)
        requires
            starting@.len() == WORLD_COUNT,
            forall|w: int| 0 <= w < WORLD_COUNT ==> in_polarity_range(#[trigger] starting@[w] as int),
        ensures
            r.wf(),
            forall|b: Board, w: int|
                0 <= w < WORLD_COUNT ==> #[trigger] r.marker(b, w) == (Marker {
                    polarity: starting@[w],
                    claimable: false,
                }),
    {
        let mut markers: Vec<Marker> = Vec::new();
        let mut i: usize = 0;
        while i < 2 * WORLD_COUNT
            invariant
                i <= 2 * WORLD_COUNT,
                markers@.len() == i,
                starting@.len() == WORLD_COUNT,
                forall|j: int|
                    0 <= j < i ==> #[trigger] markers@[j] == (Marker {
                        polarity: starting@[j % 4],
                        claimable: false,
                    }),
            decreases 2 * WORLD_COUNT - i,
        {
            markers.push(Marker { polarity: starting[i % WORLD_COUNT], claimable: false });
            i = i + 1;
        }
        let r = PolarityLedger { markers };
        assert forall|b: Board, w: int| 0 <= w < WORLD_COUNT implies #[trigger] r.marker(b, w) == (
        Marker { polarity: starting@[w], claimable: false }) by {
            assert(spec_cell(b, w) % 4 == w);
        }
        r
    }

    pub fn get(&self, world: usize, board: Board) -> (r: Marker)
        requires
            self.wf(),
            world < WORLD_COUNT,
        ensures
            r == self.marker(board, world as int),
            in_polarity_range(r.polarity as int),
    {
        let r = self.markers[cell(board, world)];
        assert(self.marker(board, world as int) == r);
        r
    }

    pub fn polarity(&self, world: usize, board: Board) -> (r: i8)
        requires
            self.wf(),
            world < WORLD_COUNT,
        ensures
            r == self.marker(board, world as int).polarity,
            in_polarity_range(r as int),
    {
        self.get(world, board).polarity
    }

    pub fn is_zero(&self, world: usize, board: Board) -> (r: bool)
        requires
            self.wf(),
            world < WORLD_COUNT,
        ensures
            r == (self.marker(board, world as int).polarity == 0),
    {
        self.get(world, board).polarity == 0
    }

    pub fn is_claimable(&self, world: usize, board: Board) -> (r: bool)
        requires
            self.wf(),
            world < WORLD_COUNT,
        ensures
            r == self.marker(board, world as int).claimable,
    {
        self.get(world, board).claimable
    }

    fn put(&mut self, world: usize, board: Board, m: Marker)
        requires
            old(self).wf(),
            world < WORLD_COUNT,
            in_polarity_range(m.polarity as int),
        ensures
            final(self).wf(),
            final(self).marker(board, world as int) == m,
            old(self).same_except(&*final(self), board, world as int),
    {
        let c = cell(board, world);
        self.markers.set(c, m);
        assert forall|b: Board, w: int| 0 <= w < WORLD_COUNT implies {
            &&& in_polarity_range(#[trigger] self.marker(b, w).polarity as int)
            &&& !(b == board && w == world) ==> self.marker(b, w) == old(self).marker(b, w)
        } by {
            if b == board && w == world {
            } else {
                assert(spec_cell(b, w) != c);
                assert(in_polarity_range(old(self).marker(b, w).polarity as int));
            }
        }
    }

    /// Pushes a card of `value` onto `world` while `board` is active and
    /// returns the new polarity. The marker becomes claimable exactly when
    /// the new polarity is zero.
    pub fn push(&mut self, world: usize, board: Board, value: u8) -> (r: Result<i8, GameError>)
        requires
            old(self).wf(),
        ensures
            final(self).wf(),
            world >= WORLD_COUNT ==> r == Err::<i8, GameError>(GameError::OutOfRange) && *final(self)
                == *old(self),
            world < WORLD_COUNT ==> {
                let p = pushed(old(self).marker(board, world as int).polarity as int, value as int, board);
                &&& r == Ok::<i8, GameError>(p as i8)
                &&& final(self).marker(board, world as int) == (Marker {
                    polarity: p as i8,
                    claimable: p == 0,
                })
                &&& old(self).same_except(&*final(self), board, world as int)
            },
    {
        if world >= WORLD_COUNT {
            return Err(GameError::OutOfRange);
        }
        let before = self.polarity(world, board) as i16;
        let v = value as i16;
        let incoming: i16 = match board {
            Board::Kenoma => v,
            Board::Pleroma => -v,
        };
        let raw = before - incoming;
        let p: i8 = if raw > POLARITY_LIMIT as i16 {
            POLARITY_LIMIT
        } else if raw < -(POLARITY_LIMIT as i16) {
            -POLARITY_LIMIT
        } else {
            raw as i8
        };
        self.put(world, board, Marker { polarity: p, claimable: p == 0 });
        Ok(p)
    }

    /// Gives a claimed world its new polarity: that of a card of `value`
    /// pushed onto a balanced marker. The marker must stand at zero, and the
    /// result must not be zero.
    pub fn assign_new_polarity(&mut self, world: usize, board: Board, value: u8) -> (r: Result<
        i8,
        GameError,
    >)
        requires
            old(self).wf(),
        ensures
            final(self).wf(),
            world >= WORLD_COUNT ==> r == Err::<i8, GameError>(GameError::OutOfRange),
            world < WORLD_COUNT && old(self).marker(board, world as int).polarity != 0 ==> r == Err::<
                i8,
                GameError,
            >(GameError::NotClaimable),
            world < WORLD_COUNT && old(self).marker(board, world as int).polarity == 0 && value == 0
                ==> r == Err::<i8, GameError>(GameError::InvariantViolation),
            r.is_err() ==> *final(self) == *old(self),
            world < WORLD_COUNT && old(self).marker(board, world as int).polarity == 0 && value != 0
                ==> {
                let p = pushed(0, value as int, board);
                &&& r == Ok::<i8, GameError>(p as i8)
                &&& p != 0
                &&& final(self).marker(board, world as int) == (Marker {
                    polarity: p as i8,
                    claimable: false,
                })
                &&& old(self).same_except(&*final(self), board, world as int)
            },
    {
        if world >= WORLD_COUNT {
            return Err(GameError::OutOfRange);
        }
        if self.polarity(world, board) != 0 {
            return Err(GameError::NotClaimable);
        }
        let v: i8 = if value > POLARITY_LIMIT as u8 {
            POLARITY_LIMIT
        } else {
            value as i8
        };
        let p: i8 = match board {
            Board::Kenoma => -v,
            Board::Pleroma => v,
        };
        if p == 0 {
            return Err(GameError::InvariantViolation);
        }
        self.put(world, board, Marker { polarity: p, claimable: false });
        Ok(p)
    }
}

} // verus!
