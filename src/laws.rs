use vstd::prelude::*;

use crate::board::{Board, WORLD_COUNT};
use crate::controller::{balanced_at, balanced_worlds, Action, Effect, Phase, PhaseController};
use crate::deck::recorded;
use crate::error::GameError;
use crate::hand::is_card_value;
use crate::ledger::{pushed, PolarityLedger};

verus! {

/// No action ever raises the count of either deck.
pub proof fn lemma_decks_never_grow(
    pre: PhaseController,
    action: Action,
    draw: u8,
    post: PhaseController,
    r: Result<Vec<Effect>, GameError>,
)
    requires
        pre.wf(),
        pre.step(action, draw, &post, r),
    ensures
        forall|b: Board| #[trigger] post.spec_deck(b).remaining <= pre.spec_deck(b).remaining,
{
    assert forall|b: Board| #[trigger] post.spec_deck(b).remaining <= pre.spec_deck(b).remaining by {
        if b != pre.spec_board() {
            assert(b == pre.spec_board().spec_other());
        }
    }
}

/// The claim counter of a board never falls. It changes only on a claim
/// request while a target is awaited, and only for the active board, where
/// it grows by the number of worlds that request claimed (at most four),
/// held at the largest `u64`. The effects report each claimed world, then
/// the new count.
pub proof fn lemma_balance_counts_claims(
    pre: PhaseController,
    action: Action,
    draw: u8,
    post: PhaseController,
    r: Result<Vec<Effect>, GameError>,
)
    requires
        pre.wf(),
        pre.step(action, draw, &post, r),
    ensures
        forall|b: Board| #[trigger] post.spec_counter(b).claimed >= pre.spec_counter(b).claimed,
        forall|b: Board|
            #[trigger] post.spec_counter(b) != pre.spec_counter(b) ==> {
                &&& action == Action::RequestClaim
                &&& pre.spec_phase() == Phase::AwaitingTarget
                &&& b == pre.spec_board()
            },
        action == Action::RequestClaim && pre.spec_phase() == Phase::AwaitingTarget ==> {
            let b = pre.spec_board();
            let n = balanced_worlds(pre.spec_ledger(), b, WORLD_COUNT as int).len() as int;
            &&& 0 <= n <= WORLD_COUNT
            &&& post.spec_counter(b).claimed == recorded(pre.spec_counter(b).claimed as int, n)
            &&& pre.spec_counter(b).claimed + n <= u64::MAX ==> post.spec_counter(b).claimed
                == pre.spec_counter(b).claimed + n
            &&& r is Ok
            &&& forall|i: int|
                0 <= i < r->Ok_0@.len() ==> ((#[trigger] r->Ok_0@[i] is ClaimWorld) <==> i < n)
            &&& r->Ok_0@[n] == Effect::UpdateBalanceCounter {
                board: b,
                claimed: post.spec_counter(b).claimed,
            }
        },
{
    if action == Action::RequestClaim && pre.spec_phase() == Phase::AwaitingTarget {
        lemma_balanced_worlds_len(pre.spec_ledger(), pre.spec_board(), WORLD_COUNT as int);
    }
    assert forall|b: Board| #[trigger] post.spec_counter(b).claimed >= pre.spec_counter(b).claimed by {
        if b != pre.spec_board() {
            assert(b == pre.spec_board().spec_other());
        }
    }
    assert forall|b: Board| #[trigger] post.spec_counter(b) != pre.spec_counter(b) implies {
        &&& action == Action::RequestClaim
        &&& pre.spec_phase() == Phase::AwaitingTarget
        &&& b == pre.spec_board()
    } by {
        if b != pre.spec_board() {
            assert(b == pre.spec_board().spec_other());
        }
    }
}

/// At most `upto` worlds below `upto` are balanced.
proof fn lemma_balanced_worlds_len(ledger: PolarityLedger, board: Board, upto: int)
    requires
        upto >= 0,
    ensures
        balanced_worlds(ledger, board, upto).len() <= upto,
    decreases upto,
{
    if upto > 0 {
        lemma_balanced_worlds_len(ledger, board, upto - 1);
    }
}

/// A world a claim replaces stood at zero before the claim and stands away
/// from zero after it.
pub proof fn lemma_claim_rebalances(pre: PhaseController, post: PhaseController, r: Result<
    Vec<Effect>,
    GameError,
>)
    requires
        pre.wf(),
        pre.spec_phase() == Phase::AwaitingTarget,
        pre.claim_step(&post, r),
    ensures
        forall|w: int|
            0 <= w < WORLD_COUNT && balanced_at(pre.spec_ledger(), pre.spec_board(), w) ==> {
                &&& pre.spec_ledger().marker(pre.spec_board(), w).polarity == 0
                &&& #[trigger] post.spec_ledger().marker(pre.spec_board(), w).polarity != 0
            },
{
    let slot = pre.spec_hand().active()->Some_0;
    assert(is_card_value(pre.spec_hand().values()[slot as int] as int));
    assert(pushed(0, pre.active_value() as int, pre.spec_board()) != 0);
}

/// The completion of an animation under any token but the awaited one
/// changes nothing and yields no effects.
pub proof fn lemma_stale_token_is_ignored(
    pre: PhaseController,
    token: u64,
    draw: u8,
    post: PhaseController,
    r: Result<Vec<Effect>, GameError>,
)
    requires
        pre.wf(),
        pre.spec_pending() != Some(token),
        pre.step(Action::AnimationComplete(token), draw, &post, r),
    ensures
        post == pre,
        r is Ok,
        r->Ok_0@.len() == 0,
{
}

} // verus!
