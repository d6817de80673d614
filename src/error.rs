use vstd::prelude::*;

verus! {

/// The failures the engine can report.
#[derive(Clone, Copy, Debug, PartialEq, Eq, Structural)]
pub enum GameError {
    /// An index outside `0..4` (slot or world): a programming error.
    OutOfRange,
    /// A card slot outside `0..4`.
    InvalidSlot,
    /// A world that is not balanced and flagged claimable.
    NotClaimable,
    /// No card of the hand is active.
    NoActiveCard,
    /// A card of the hand is already active.
    AlreadyActive,
    /// A polarity assigned after a claim came out as zero.
    InvariantViolation,
}

} // verus!
