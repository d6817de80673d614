use vstd::prelude::*;

use crate::board::WORLD_COUNT;
use crate::error::GameError;

verus! {

pub open spec fn is_card_value(v: int) -> bool {
    1 <= v <= 6
}

/// One card of the hand, as a renderer sees it.
#[derive(Clone, Copy, Debug, PartialEq, Eq, Structural)]
pub struct Card {
    pub value: u8,
    pub slot: usize,
    pub active: bool,
}

/// The four card slots. At most one card is active at a time; the active
/// slot is kept as an index, so no two cards can be active together.
pub struct Hand {
    values: Vec<u8>,
    active: Option<usize>,
}

impl Hand {
    pub closed spec fn values(&self) -> Seq<u8> {
        self.values@
    }

    pub closed spec fn active(&self) -> Option<usize> {
        self.active
    }

    pub open spec fn wf(&self) -> bool {
        &&& self.values().len() == WORLD_COUNT
        &&& forall|i: int| 0 <= i < WORLD_COUNT ==> is_card_value(#[trigger] self.values()[i] as int)
        &&& self.active() matches Some(s) ==> s < WORLD_COUNT
    }

    /// A hand of the given four values, none active.
    pub fn new(values: Vec<u8>) -> (r: Hand)
        requires
            values@.len() == WORLD_COUNT,
            forall|i: int| 0 <= i < WORLD_COUNT ==> is_card_value(#[trigger] values@[i] as int),
        ensures
            r.wf(),
            r.values() == values@,
            r.active() == None::<usize>,
    {
        Hand { values, active: None }
    }

    pub fn value(&self, slot: usize) -> (r: u8)
        requires
            self.wf(),
            slot < WORLD_COUNT,
        ensures
            r == self.values()[slot as int],
            is_card_value(r as int),
    {
        self.values[slot]
    }

    pub fn active_slot(&self) -> (r: Option<usize>)
        ensures
            r == self.active(),
    {
        self.active
    }

    pub fn card(&self, slot: usize) -> (r: Card)
        requires
            self.wf(),
            slot < WORLD_COUNT,
        ensures
            r == (Card {
                value: self.values()[slot as int],
                slot,
                active: self.active() == Some(slot),
            }),
    {
        let active = match self.active {
            Some(s) => s == slot,
            None => false,
        };
        Card { value: self.values[slot], slot, active }
    }

    /// Marks `slot` active and returns its value.
    pub fn select(&mut self, slot: usize) -> (r: Result<u8, GameError>)
        requires
            old(self).wf(),
        ensures
            final(self).wf(),
            slot >= WORLD_COUNT ==> r == Err::<u8, GameError>(GameError::InvalidSlot),
            slot < WORLD_COUNT && old(self).active() is Some ==> r == Err::<u8, GameError>(
                GameError::AlreadyActive,
            ),
            r.is_err() ==> *final(self) == *old(self),
            slot < WORLD_COUNT && old(self).active() is None ==> {
                &&& r == Ok::<u8, GameError>(old(self).values()[slot as int])
                &&& final(self).active() == Some(slot)
                &&& final(self).values() == old(self).values()
            },
    {
        if slot >= WORLD_COUNT {
            return Err(GameError::InvalidSlot);
        }
        if self.active.is_some() {
            return Err(GameError::AlreadyActive);
        }
        self.active = Some(slot);
        Ok(self.values[slot])
    }

    /// Clears the active flag and returns the value of the card that held it.
    pub fn consume_active(&mut self) -> (r: Result<u8, GameError>)
        requires
            old(self).wf(),
        ensures
            final(self).wf(),
            final(self).values() == old(self).values(),
            final(self).active() == None::<usize>,
            old(self).active() is None ==> r == Err::<u8, GameError>(GameError::NoActiveCard),
            old(self).active() matches Some(s) ==> r == Ok::<u8, GameError>(
                old(self).values()[s as int],
            ),
    {
        match self.active {
            None => Err(GameError::NoActiveCard),
            Some(s) => {
                self.active = None;
                Ok(self.values[s])
            },
        }
    }

    /// Puts a freshly drawn value in `slot`; the active flag is untouched.
    pub fn replace(&mut self, slot: usize, new_value: u8)
        requires
            old(self).wf(),
            slot < WORLD_COUNT,
            is_card_value(new_value as int),
        ensures
            final(self).wf(),
            final(self).values() == old(self).values().update(slot as int, new_value),
            final(self).active() == old(self).active(),
    {
        self.values.set(slot, new_value);
    }
}

} // verus!
