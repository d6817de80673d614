use vstd::prelude::*;

use crate::hand::is_card_value;
use crate::random::random_below;

verus! {

/// Number of cards a deck starts with.
pub const DECK_SIZE: u16 = 64;

/// Number of faces a drawn card can show.
pub const CARD_FACES: u8 = 6;

/// Count left after one card is taken from a deck holding `remaining`: an
/// empty deck stays empty.
pub open spec fn consumed(remaining: int) -> int {
    if remaining == 0 {
        0
    } else {
        remaining - 1
    }
}

/// Taking a card never raises the count of a deck and never takes it below
/// zero.
pub proof fn lemma_consume_never_increases(remaining: int)
    requires
        remaining >= 0,
    ensures
        0 <= consumed(remaining) <= remaining,
        remaining > 0 ==> consumed(remaining) == remaining - 1,
{
}

/// The draw counter of one board.
#[derive(Clone, Copy, Debug, PartialEq, Eq, Structural)]
pub struct Deck {
    pub remaining: u16,
}

impl Deck {
    pub fn new() -> (r: Deck)
        ensures
            r.remaining == DECK_SIZE,
    {
        Deck { remaining: DECK_SIZE }
    }

    /// Takes one card and returns the count left; at zero nothing changes.
    pub fn consume(&mut self) -> (r: u16)
        ensures
            final(self).remaining == consumed(old(self).remaining as int),
            r == final(self).remaining,
    {
        if self.remaining > 0 {
            self.remaining = self.remaining - 1;
        }
        self.remaining
    }

    /// A card value drawn at random; the count is not touched.
    pub fn draw(&self) -> (r: u8)
        ensures
            is_card_value(r as int),
    {
        card_value(random_below(CARD_FACES as usize))
    }
}

/// The value a card shows on face `face`, counted from zero.
pub fn card_value(face: usize) -> (r: u8)
    requires
        face < CARD_FACES,
    ensures
        r == face + 1,
        is_card_value(r as int),
{
    face as u8 + 1
}

/// Number of worlds claimed on one board so far.
#[derive(Clone, Copy, Debug, PartialEq, Eq, Structural)]
pub struct BalanceCounter {
    pub claimed: u64,
}

/// Count after `n` more claims, held at the largest `u64`.
pub open spec fn recorded(claimed: int, n: int) -> int {
    if claimed + n > u64::MAX {
        u64::MAX as int
    } else {
        claimed + n
    }
}

impl BalanceCounter {
    pub fn new() -> (r: BalanceCounter)
        ensures
            r.claimed == 0,
    {
        BalanceCounter { claimed: 0 }
    }

    /// Adds the worlds claimed in one claim action.
    pub fn record(&mut self, n: u64)
        ensures
            final(self).claimed == recorded(old(self).claimed as int, n as int),
    {
        self.claimed = self.claimed.saturating_add(n);
    }
}

} // verus!
