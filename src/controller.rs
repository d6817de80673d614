use vstd::prelude::*;

use crate::board::{Board, BoardState, WORLD_COUNT};
use crate::deck::{consumed, recorded, BalanceCounter, Deck};
use crate::error::GameError;
use crate::hand::{is_card_value, Hand};
use crate::ledger::{in_polarity_range, pushed, Marker, PolarityLedger};
use crate::random::random_below;
use crate::registry::{dimension_name, first_dimension_name, WorldRegistry};

verus! {

/// The phases of a turn.
#[derive(Clone, Copy, Debug, PartialEq, Eq, Structural)]
pub enum Phase {
    /// Waiting for a card to be selected.
    Idle,
    /// The selected card is rising; waits for its animation.
    CardRising,
    /// Waiting for a world to push or for a claim request.
    AwaitingTarget,
    /// The active card is spent and replaced; passed through within the
    /// call that enters it.
    Resolving,
    /// Hand and labels return to rest; waits for their animation.
    ReturningToIdle,
    /// Claimed worlds are being replaced; waits for their animations.
    ClaimingWorlds,
    /// The boards are swapping; waits for the animation.
    SwappingBoard,
}

/// What the player, or the renderer, hands to the controller.
#[derive(Clone, Copy, Debug, PartialEq, Eq, Structural)]
pub enum Action {
    SelectCard(usize),
    TargetWorld(usize),
    RequestClaim,
    AnimationComplete(u64),
}

/// A visual transition the renderer is to play.
#[derive(Clone, Debug, PartialEq, Eq)]
pub enum Effect {
    RaiseCard(usize),
    MoveMarker { world: usize, board: Board, from_polarity: i8, to_polarity: i8 },
    BanishAndReplaceCard { slot: usize, new_value: u8 },
    LowerHandLabels,
    ClaimWorld { world: usize, new_name: String },
    SwapBoards,
    UpdateDeckCounter { board: Board, remaining: u16 },
    UpdateBalanceCounter { board: Board, claimed: u64 },
}

/// Token handed out after `t`.
pub open spec fn next_after(t: u64) -> u64 {
    if t == u64::MAX {
        0
    } else {
        (t + 1) as u64
    }
}

/// The phases that wait for the renderer to report an animation complete.
pub open spec fn waits(phase: Phase) -> bool {
    ||| phase == Phase::CardRising
    ||| phase == Phase::ReturningToIdle
    ||| phase == Phase::ClaimingWorlds
    ||| phase == Phase::SwappingBoard
}

/// The phases during which a card of the hand is in play.
pub open spec fn holds_card(phase: Phase) -> bool {
    ||| phase == Phase::CardRising
    ||| phase == Phase::AwaitingTarget
    ||| phase == Phase::ClaimingWorlds
    ||| phase == Phase::SwappingBoard
}

/// World `w` of `board` stands at zero and was flagged claimable.
pub open spec fn balanced_at(ledger: PolarityLedger, board: Board, w: int) -> bool {
    ledger.marker(board, w).polarity == 0 && ledger.marker(board, w).claimable
}

/// The balanced worlds of `board` below `upto`, in increasing order.
pub open spec fn balanced_worlds(ledger: PolarityLedger, board: Board, upto: int) -> Seq<int>
    decreases upto,
{
    if upto <= 0 {
        Seq::empty()
    } else {
        let below = balanced_worlds(ledger, board, upto - 1);
        if balanced_at(ledger, board, upto - 1) {
            below.push(upto - 1)
        } else {
            below
        }
    }
}

/// The polarities a world can start with, in the order they are picked by
/// index: away from zero, at most four.
pub open spec fn starting_polarities() -> Seq<i8> {
    seq![-4i8, -3i8, -2i8, 2i8, 3i8, 4i8]
}

/// The starting polarity picked by `choice`.
pub fn starting_polarity(choice: usize) -> (r: i8)
    requires
        choice < starting_polarities().len(),
    ensures
        r == starting_polarities()[choice as int],
{
    let i = choice as i8;
    if i < 3 {
        i - 4
    } else {
        i - 1
    }
}

/// One of the six starting polarities, picked at random.
pub fn random_starting_polarity() -> (r: i8)
    ensures
        starting_polarities().contains(r),
{
    let choice = random_below(6);
    let r = starting_polarity(choice);
    assert(starting_polarities()[choice as int] == r);
    r
}

/// The turn state machine, and sole owner of the game's state.
pub struct PhaseController {
    phase: Phase,
    board: BoardState,
    ledger: PolarityLedger,
    hand: Hand,
    decks: Vec<Deck>,
    counters: Vec<BalanceCounter>,
    registry: WorldRegistry,
    pending: Option<u64>,
    next_token: u64,
}

impl PhaseController {
    pub closed spec fn spec_phase(&self) -> Phase {
        self.phase
    }

    pub closed spec fn spec_board(&self) -> Board {
        self.board.active
    }

    pub closed spec fn spec_ledger(&self) -> PolarityLedger {
        self.ledger
    }

    pub closed spec fn spec_hand(&self) -> Hand {
        self.hand
    }

    pub closed spec fn spec_deck(&self, board: Board) -> Deck {
        self.decks@[board.spec_index()]
    }

    pub closed spec fn spec_counter(&self, board: Board) -> BalanceCounter {
        self.counters@[board.spec_index()]
    }

    pub closed spec fn spec_registry(&self) -> WorldRegistry {
        self.registry
    }

    /// The token whose completion the controller waits for, if any.
    pub closed spec fn spec_pending(&self) -> Option<u64> {
        self.pending
    }

    /// The token the next waiting phase will hand out.
    pub closed spec fn spec_next_token(&self) -> u64 {
        self.next_token
    }

    pub closed spec fn shape(&self) -> bool {
        self.decks@.len() == 2 && self.counters@.len() == 2
    }

    pub open spec fn wf(&self) -> bool {
        &&& self.shape()
        &&& self.spec_ledger().wf()
        &&& self.spec_hand().wf()
        &&& self.spec_registry().wf()
        &&& self.spec_phase() != Phase::Resolving
        &&& (self.spec_hand().active() is Some <==> holds_card(self.spec_phase()))
        &&& (self.spec_pending() is Some <==> waits(self.spec_phase()))
    }

    /// Value of the card in play.
    pub open spec fn active_value(&self) -> u8 {
        self.spec_hand().values()[self.spec_hand().active()->Some_0 as int]
    }

    /// Board, ledger, registry, decks and counters agree.
    pub open spec fn same_tables(&self, post: &PhaseController) -> bool {
        &&& post.spec_board() == self.spec_board()
        &&& post.spec_ledger() == self.spec_ledger()
        &&& post.spec_registry() == self.spec_registry()
        &&& forall|b: Board| #[trigger] post.spec_deck(b) == self.spec_deck(b)
        &&& forall|b: Board| #[trigger] post.spec_counter(b) == self.spec_counter(b)
    }

    /// Only the phase and the pending token differ.
    pub open spec fn moves_to(&self, post: &PhaseController, phase: Phase, pending: Option<u64>) -> bool {
        &&& self.same_tables(post)
        &&& post.spec_hand() == self.spec_hand()
        &&& post.spec_phase() == phase
        &&& post.spec_pending() == pending
        &&& post.spec_next_token() == self.spec_next_token()
    }

    /// `post` waits for the token that `self` would hand out next.
    pub open spec fn hands_out_token(&self, post: &PhaseController) -> bool {
        &&& post.spec_pending() == Some(self.spec_next_token())
        &&& post.spec_next_token() == next_after(self.spec_next_token())
    }

    /// Resolving the card in play with the replacement `draw`: the card is
    /// spent, `draw` takes its slot, the active board's deck gives one card,
    /// and the hand returns to rest. Ledger, registry and counters are left
    /// to the caller's clauses.
    pub open spec fn resolves(&self, post: &PhaseController, draw: u8, effects: Seq<Effect>) -> bool {
        let b = self.spec_board();
        let slot = self.spec_hand().active()->Some_0;
        &&& post.spec_phase() == Phase::ReturningToIdle
        &&& post.spec_board() == b
        &&& post.spec_hand().values() == self.spec_hand().values().update(slot as int, draw)
        &&& post.spec_hand().active() == None::<usize>
        &&& post.spec_deck(b).remaining == consumed(self.spec_deck(b).remaining as int)
        &&& post.spec_deck(b.spec_other()) == self.spec_deck(b.spec_other())
        &&& self.hands_out_token(post)
        &&& effects == seq![
            Effect::BanishAndReplaceCard { slot, new_value: draw },
            Effect::UpdateDeckCounter { board: b, remaining: post.spec_deck(b).remaining },
            Effect::LowerHandLabels,
        ]
    }

    /// `SelectCard(slot)`: in `Idle`, a slot in range becomes the card in
    /// play and starts rising; any other phase ignores it.
    pub open spec fn select_step(
        &self,
        slot: usize,
        post: &PhaseController,
        r: Result<Vec<Effect>, GameError>,
    ) -> bool {
        if self.spec_phase() != Phase::Idle {
            *post == *self && r is Ok && r->Ok_0@ == Seq::<Effect>::empty()
        } else if slot >= WORLD_COUNT {
            *post == *self && r is Err && r->Err_0 == GameError::InvalidSlot
        } else {
            &&& r is Ok
            &&& r->Ok_0@ == seq![Effect::RaiseCard(slot)]
            &&& self.same_tables(post)
            &&& post.spec_phase() == Phase::CardRising
            &&& post.spec_hand().values() == self.spec_hand().values()
            &&& post.spec_hand().active() == Some(slot)
            &&& self.hands_out_token(post)
        }
    }

    /// `AnimationComplete(token)`: a token other than the one awaited
    /// changes nothing. The awaited one ends the waiting phase: a risen card
    /// awaits its target, a lowered hand is idle, claimed worlds lead to the
    /// swap, and a finished swap resolves the card still in play.
    pub open spec fn complete_step(&self, token: u64, draw: u8, post: &PhaseController, effects: Seq<
        Effect,
    >) -> bool {
        if self.spec_pending() != Some(token) {
            *post == *self && effects == Seq::<Effect>::empty()
        } else {
            match self.spec_phase() {
                Phase::CardRising => self.moves_to(post, Phase::AwaitingTarget, None)
                    && effects == Seq::<Effect>::empty(),
                Phase::ReturningToIdle => self.moves_to(post, Phase::Idle, None) && effects
                    == Seq::<Effect>::empty(),
                Phase::ClaimingWorlds => {
                    &&& post.spec_board() == self.spec_board().spec_other()
                    &&& post.spec_ledger() == self.spec_ledger()
                    &&& post.spec_registry() == self.spec_registry()
                    &&& forall|b: Board| #[trigger] post.spec_deck(b) == self.spec_deck(b)
                    &&& forall|b: Board| #[trigger] post.spec_counter(b) == self.spec_counter(b)
                    &&& post.spec_hand() == self.spec_hand()
                    &&& post.spec_phase() == Phase::SwappingBoard
                    &&& self.hands_out_token(post)
                    &&& effects == seq![Effect::SwapBoards]
                },
                Phase::SwappingBoard => if self.spec_hand().active() is Some {
                    &&& self.resolves(post, draw, effects)
                    &&& post.spec_ledger() == self.spec_ledger()
                    &&& post.spec_registry() == self.spec_registry()
                    &&& forall|b: Board| #[trigger] post.spec_counter(b) == self.spec_counter(b)
                } else {
                    self.moves_to(post, Phase::Idle, None) && effects == Seq::<Effect>::empty()
                },
                _ => *post == *self && effects == Seq::<Effect>::empty(),
            }
        }
    }

    /// `TargetWorld(world)`: in `AwaitingTarget`, the card in play is pushed
    /// onto `world` of the active board and then resolved with `draw`; any
    /// other phase ignores it.
    pub open spec fn target_step(
        &self,
        world: usize,
        draw: u8,
        post: &PhaseController,
        r: Result<Vec<Effect>, GameError>,
    ) -> bool {
        if self.spec_phase() != Phase::AwaitingTarget {
            *post == *self && r is Ok && r->Ok_0@ == Seq::<Effect>::empty()
        } else if world >= WORLD_COUNT {
            *post == *self && r is Err && r->Err_0 == GameError::OutOfRange
        } else {
            let b = self.spec_board();
            let from = self.spec_ledger().marker(b, world as int).polarity;
            let to = pushed(from as int, self.active_value() as int, b);
            &&& r is Ok
            &&& r->Ok_0@.len() >= 1
            &&& r->Ok_0@[0] == Effect::MoveMarker {
                world,
                board: b,
                from_polarity: from,
                to_polarity: to as i8,
            }
            &&& self.resolves(post, draw, r->Ok_0@.skip(1))
            &&& post.spec_ledger().marker(b, world as int) == (Marker {
                polarity: to as i8,
                claimable: to == 0,
            })
            &&& self.spec_ledger().same_except(&post.spec_ledger(), b, world as int)
            &&& post.spec_registry() == self.spec_registry()
            &&& forall|bb: Board| #[trigger] post.spec_counter(bb) == self.spec_counter(bb)
        }
    }

    /// `RequestClaim`: in `AwaitingTarget`, every balanced world of the
    /// active board gets a new dimension and the polarity of the card in
    /// play, the active board's counter grows by their number, and the
    /// boards swap, at once when nothing was claimed and after the claim
    /// animations otherwise. Hand and decks are untouched. Any other phase
    /// ignores it.
    pub open spec fn claim_step(&self, post: &PhaseController, r: Result<Vec<Effect>, GameError>) -> bool {
        if self.spec_phase() != Phase::AwaitingTarget {
            *post == *self && r is Ok && r->Ok_0@ == Seq::<Effect>::empty()
        } else {
            let b = self.spec_board();
            let ws = balanced_worlds(self.spec_ledger(), b, WORLD_COUNT as int);
            let n = ws.len() as int;
            let e = r->Ok_0@;
            &&& r is Ok
            &&& forall|w: int|
                0 <= w < WORLD_COUNT && balanced_at(self.spec_ledger(), b, w) ==> {
                    &&& #[trigger] post.spec_ledger().marker(b, w) == (Marker {
                        polarity: pushed(0, self.active_value() as int, b) as i8,
                        claimable: false,
                    })
                    &&& post.spec_registry().dimension(b, w).name@ == first_dimension_name()
                    &&& post.spec_registry().dimension(b, w).board == b
                }
            &&& forall|bb: Board, w: int|
                0 <= w < WORLD_COUNT && !(bb == b && balanced_at(self.spec_ledger(), b, w)) ==> {
                    &&& #[trigger] post.spec_ledger().marker(bb, w) == self.spec_ledger().marker(bb, w)
                    &&& post.spec_registry().dimension(bb, w) == self.spec_registry().dimension(bb, w)
                }
            &&& post.spec_counter(b).claimed == recorded(self.spec_counter(b).claimed as int, n)
            &&& post.spec_counter(b.spec_other()) == self.spec_counter(b.spec_other())
            &&& forall|bb: Board| #[trigger] post.spec_deck(bb) == self.spec_deck(bb)
            &&& post.spec_hand() == self.spec_hand()
            &&& self.hands_out_token(post)
            &&& e.len() == if n == 0 {
                2
            } else {
                n + 1
            }
            &&& forall|i: int|
                0 <= i < n ==> (#[trigger] e[i] matches Effect::ClaimWorld { world, new_name } && world
                    == ws[i] && new_name@ == first_dimension_name())
            &&& e[n] == Effect::UpdateBalanceCounter { board: b, claimed: post.spec_counter(b).claimed }
            &&& n == 0 ==> e[1] == Effect::SwapBoards && post.spec_board() == b.spec_other()
                && post.spec_phase() == Phase::SwappingBoard
            &&& n > 0 ==> post.spec_board() == b && post.spec_phase() == Phase::ClaimingWorlds
        }
    }

    /// What `handle` does with `action`, the replacement card being `draw`.
    pub open spec fn step(
        &self,
        action: Action,
        draw: u8,
        post: &PhaseController,
        r: Result<Vec<Effect>, GameError>,
    ) -> bool {
        match action {
            Action::SelectCard(slot) => self.select_step(slot, post, r),
            Action::TargetWorld(world) => self.target_step(world, draw, post, r),
            Action::RequestClaim => self.claim_step(post, r),
            Action::AnimationComplete(token) => r is Ok && self.complete_step(
                token,
                draw,
                post,
                r->Ok_0@,
            ),
        }
    }

    pub fn phase(&self) -> (r: Phase)
        ensures
            r == self.spec_phase(),
    {
        self.phase
    }

    pub fn active_board(&self) -> (r: Board)
        ensures
            r == self.spec_board(),
    {
        self.board.active
    }

    pub fn ledger(&self) -> (r: &PolarityLedger)
        ensures
            *r == self.spec_ledger(),
    {
        &self.ledger
    }

    pub fn hand(&self) -> (r: &Hand)
        ensures
            *r == self.spec_hand(),
    {
        &self.hand
    }

    pub fn registry(&self) -> (r: &WorldRegistry)
        ensures
            *r == self.spec_registry(),
    {
        &self.registry
    }

    pub fn deck(&self, board: Board) -> (r: Deck)
        requires
            self.wf(),
        ensures
            r == self.spec_deck(board),
    {
        self.decks[board.index()]
    }

    pub fn balance(&self, board: Board) -> (r: BalanceCounter)
        requires
            self.wf(),
        ensures
            r == self.spec_counter(board),
    {
        self.counters[board.index()]
    }

    pub fn pending_token(&self) -> (r: Option<u64>)
        ensures
            r == self.spec_pending(),
    {
        self.pending
    }

    /// A fresh game: both boards start with `starting[w]` on world `w`, the
    /// hand holds `cards`, Kenoma is active, decks are full, nothing claimed.
    pub fn new(starting: &Vec<i8>, cards: Vec<u8>) -> (r: PhaseController)
        requires
            starting@.len() == WORLD_COUNT,
            forall|w: int| 0 <= w < WORLD_COUNT ==> in_polarity_range(#[trigger] starting@[w] as int),
            cards@.len() == WORLD_COUNT,
            forall|i: int| 0 <= i < WORLD_COUNT ==> is_card_value(#[trigger] cards@[i] as int),
        ensures
            r.wf(),
            r.spec_phase() == Phase::Idle,
            r.spec_board() == Board::Kenoma,
            forall|b: Board, w: int|
                0 <= w < WORLD_COUNT ==> #[trigger] r.spec_ledger().marker(b, w) == (Marker {
                    polarity: starting@[w],
                    claimable: false,
                }),
            r.spec_hand().values() == cards@,
            r.spec_hand().active() == None::<usize>,
            forall|b: Board, w: int|
                0 <= w < WORLD_COUNT ==> (#[trigger] r.spec_registry().dimension(b, w)).name@
                    == first_dimension_name(),
            forall|b: Board| (#[trigger] r.spec_deck(b)).remaining == 64,
            forall|b: Board| (#[trigger] r.spec_counter(b)).claimed == 0,
            r.spec_pending() == None::<u64>,
    {
        let r = PhaseController {
            phase: Phase::Idle,
            board: BoardState::new(),
            ledger: PolarityLedger::new(starting),
            hand: Hand::new(cards),
            decks: vec![Deck::new(), Deck::new()],
            counters: vec![BalanceCounter::new(), BalanceCounter::new()],
            registry: WorldRegistry::new(),
            pending: None,
            next_token: 0,
        };
        assert forall|b: Board| (#[trigger] r.spec_deck(b)).remaining == 64 by {
            assert(r.decks@[b.spec_index()] == Deck { remaining: 64 });
        }
        assert forall|b: Board| (#[trigger] r.spec_counter(b)).claimed == 0 by {
            assert(r.counters@[b.spec_index()] == BalanceCounter { claimed: 0 });
        }
        r
    }

    /// A fresh game with starting polarities and cards drawn at random; each
    /// world starts with the same polarity on both boards.
    pub fn new_random() -> (r: PhaseController)
        ensures
            r.wf(),
            r.spec_phase() == Phase::Idle,
            r.spec_board() == Board::Kenoma,
            forall|w: int|
                0 <= w < WORLD_COUNT ==> {
                    &&& starting_polarities().contains(
                        #[trigger] r.spec_ledger().marker(Board::Kenoma, w).polarity,
                    )
                    &&& r.spec_ledger().marker(Board::Pleroma, w) == r.spec_ledger().marker(
                        Board::Kenoma,
                        w,
                    )
                    &&& !r.spec_ledger().marker(Board::Kenoma, w).claimable
                },
            forall|i: int|
                0 <= i < WORLD_COUNT ==> is_card_value(#[trigger] r.spec_hand().values()[i] as int),
            r.spec_hand().active() == None::<usize>,
            forall|b: Board, w: int|
                0 <= w < WORLD_COUNT ==> {
                    &&& (#[trigger] r.spec_registry().dimension(b, w)).name@ == first_dimension_name()
                    &&& r.spec_registry().dimension(b, w).board == b
                },
            forall|b: Board| (#[trigger] r.spec_deck(b)).remaining == 64,
            forall|b: Board| (#[trigger] r.spec_counter(b)).claimed == 0,
            r.spec_pending() == None::<u64>,
    {
        let deck = Deck::new();
        let mut starting: Vec<i8> = Vec::new();
        let mut cards: Vec<u8> = Vec::new();
        let mut i: usize = 0;
        while i < WORLD_COUNT
            invariant
                i <= WORLD_COUNT,
                starting@.len() == i,
                cards@.len() == i,
                forall|j: int| 0 <= j < i ==> starting_polarities().contains(#[trigger] starting@[j]),
                forall|j: int| 0 <= j < i ==> is_card_value(#[trigger] cards@[j] as int),
            decreases WORLD_COUNT - i,
        {
            starting.push(random_starting_polarity());
            cards.push(deck.draw());
            i = i + 1;
        }
        let r = PhaseController::new(&starting, cards);
        assert forall|w: int| 0 <= w < WORLD_COUNT implies {
            &&& starting_polarities().contains(#[trigger] r.spec_ledger().marker(Board::Kenoma, w).polarity)
            &&& r.spec_ledger().marker(Board::Pleroma, w) == r.spec_ledger().marker(Board::Kenoma, w)
            &&& !r.spec_ledger().marker(Board::Kenoma, w).claimable
        } by {
            assert(r.spec_ledger().marker(Board::Pleroma, w).polarity == starting@[w]);
        }
        r
    }

    /// Enters a waiting phase under a fresh token.
    fn await_completion(&mut self, phase: Phase)
        ensures
            final(self).spec_phase() == phase,
            old(self).hands_out_token(&*final(self)),
            final(self).board == old(self).board,
            final(self).ledger == old(self).ledger,
            final(self).hand == old(self).hand,
            final(self).decks == old(self).decks,
            final(self).counters == old(self).counters,
            final(self).registry == old(self).registry,
    {
        self.phase = phase;
        self.pending = Some(self.next_token);
        self.next_token = self.next_token.wrapping_add(1);
    }

    fn select_card(&mut self, slot: usize) -> (r: Result<Vec<Effect>, GameError>)
        requires
            old(self).wf(),
        ensures
            final(self).wf(),
            old(self).select_step(slot, &*final(self), r),
    {
        if self.phase != Phase::Idle {
            return Ok(Vec::new());
        }
        if slot >= WORLD_COUNT {
            return Err(GameError::InvalidSlot);
        }
        let _ = self.hand.select(slot);
        self.await_completion(Phase::CardRising);
        let mut effects: Vec<Effect> = Vec::new();
        effects.push(Effect::RaiseCard(slot));
        Ok(effects)
    }

    /// Spends the card in play, puts `draw` in its slot, takes one card from
    /// the active board's deck, and lowers the hand.
    fn resolve(&mut self, draw: u8) -> (r: Vec<Effect>)
        requires
            old(self).shape(),
            old(self).spec_hand().wf(),
            old(self).spec_hand().active() is Some,
            is_card_value(draw as int),
        ensures
            final(self).shape(),
            final(self).spec_hand().wf(),
            old(self).resolves(&*final(self), draw, r@),
            final(self).ledger == old(self).ledger,
            final(self).registry == old(self).registry,
            final(self).counters == old(self).counters,
    {
        self.phase = Phase::Resolving;
        let slot = match self.hand.active_slot() {
            Some(s) => s,
            None => 0,
        };
        let _ = self.hand.consume_active();
        self.hand.replace(slot, draw);
        let b = self.board.active;
        let mut deck = self.decks[b.index()];
        let remaining = deck.consume();
        self.decks.set(b.index(), deck);
        self.await_completion(Phase::ReturningToIdle);
        let ghost post = *self;
        assert(post.spec_deck(b.spec_other()) == old(self).spec_deck(b.spec_other()));
        let mut effects: Vec<Effect> = Vec::new();
        effects.push(Effect::BanishAndReplaceCard { slot, new_value: draw });
        effects.push(Effect::UpdateDeckCounter { board: b, remaining });
        effects.push(Effect::LowerHandLabels);
        assert(effects@ =~= seq![
            Effect::BanishAndReplaceCard { slot, new_value: draw },
            Effect::UpdateDeckCounter { board: b, remaining: post.spec_deck(b).remaining },
            Effect::LowerHandLabels,
        ]);
        effects
    }

    /// Delivers the completion of the animation under `token`; `draw` is the
    /// replacement card used if the card in play is resolved.
    pub fn on_animation_complete(&mut self, token: u64, draw: u8) -> (r: Vec<Effect>)
        requires
            old(self).wf(),
            is_card_value(draw as int),
        ensures
            final(self).wf(),
            old(self).complete_step(token, draw, &*final(self), r@),
    {
        match self.pending {
            Some(t) => {
                if t != token {
                    return Vec::new();
                }
            },
            None => {
                return Vec::new();
            },
        }
        match self.phase {
            Phase::CardRising => {
                self.phase = Phase::AwaitingTarget;
                self.pending = None;
                Vec::new()
            },
            Phase::ReturningToIdle => {
                self.phase = Phase::Idle;
                self.pending = None;
                Vec::new()
            },
            Phase::ClaimingWorlds => {
                self.board.toggle();
                self.await_completion(Phase::SwappingBoard);
                let mut effects: Vec<Effect> = Vec::new();
                effects.push(Effect::SwapBoards);
                effects
            },
            Phase::SwappingBoard => {
                if self.hand.active_slot().is_some() {
                    self.resolve(draw)
                } else {
                    self.phase = Phase::Idle;
                    self.pending = None;
                    Vec::new()
                }
            },
            _ => Vec::new(),
        }
    }

    fn target_world(&mut self, world: usize, draw: u8) -> (r: Result<Vec<Effect>, GameError>)
        requires
            old(self).wf(),
            is_card_value(draw as int),
        ensures
            final(self).wf(),
            old(self).target_step(world, draw, &*final(self), r),
    {
        if self.phase != Phase::AwaitingTarget {
            return Ok(Vec::new());
        }
        if world >= WORLD_COUNT {
            return Err(GameError::OutOfRange);
        }
        let b = self.board.active;
        let slot = match self.hand.active_slot() {
            Some(s) => s,
            None => 0,
        };
        let value = self.hand.value(slot);
        let from = self.ledger.polarity(world, b);
        let to = match self.ledger.push(world, b, value) {
            Ok(p) => p,
            Err(e) => {
                return Err(e);
            },
        };
        let mut effects: Vec<Effect> = Vec::new();
        effects.push(Effect::MoveMarker { world, board: b, from_polarity: from, to_polarity: to });
        let mut rest = self.resolve(draw);
        let ghost tail = rest@;
        effects.append(&mut rest);
        assert(effects@.skip(1) =~= tail);
        Ok(effects)
    }

    /// Claims world `w` of `b` when it is balanced: it gets a new dimension,
    /// whose name is returned, and the polarity of a card of `value`.
    fn claim_world(&mut self, w: usize, b: Board, value: u8) -> (r: Result<Option<String>, GameError>)
        requires
            old(self).ledger.wf(),
            old(self).registry.wf(),
            w < WORLD_COUNT,
            is_card_value(value as int),
        ensures
            final(self).ledger.wf(),
            final(self).registry.wf(),
            final(self).phase == old(self).phase,
            final(self).board == old(self).board,
            final(self).hand == old(self).hand,
            final(self).decks == old(self).decks,
            final(self).counters == old(self).counters,
            final(self).pending == old(self).pending,
            final(self).next_token == old(self).next_token,
            r is Ok,
            balanced_at(old(self).ledger, b, w as int) ==> {
                &&& r->Ok_0 matches Some(name) && name@ == first_dimension_name()
                &&& final(self).ledger.marker(b, w as int) == (Marker {
                    polarity: pushed(0, value as int, b) as i8,
                    claimable: false,
                })
                &&& old(self).ledger.same_except(&final(self).ledger, b, w as int)
                &&& final(self).registry.dimension(b, w as int).name@ == first_dimension_name()
                &&& final(self).registry.dimension(b, w as int).board == b
                &&& old(self).registry.same_except(&final(self).registry, b, w as int)
            },
            !balanced_at(old(self).ledger, b, w as int) ==> {
                &&& r->Ok_0 is None
                &&& final(self).ledger == old(self).ledger
                &&& final(self).registry == old(self).registry
            },
    {
        if !(self.ledger.is_zero(w, b) && self.ledger.is_claimable(w, b)) {
            return Ok(None);
        }
        let claimed = match self.registry.claim(&self.ledger, w, b, dimension_name()) {
            Ok(d) => d,
            Err(e) => {
                return Err(e);
            },
        };
        match self.ledger.assign_new_polarity(w, b, value) {
            Ok(_) => {},
            Err(e) => {
                return Err(e);
            },
        }
        Ok(Some(claimed.name))
    }

    fn request_claim(&mut self) -> (r: Result<Vec<Effect>, GameError>)
        requires
            old(self).wf(),
        ensures
            final(self).wf(),
            old(self).claim_step(&*final(self), r),
    {
        if self.phase != Phase::AwaitingTarget {
            return Ok(Vec::new());
        }
        let ghost pre = *self;
        let b = self.board.active;
        let slot = match self.hand.active_slot() {
            Some(s) => s,
            None => 0,
        };
        let value = self.hand.value(slot);
        let mut effects: Vec<Effect> = Vec::new();
        let mut count: u64 = 0;
        let mut w: usize = 0;
        while w < WORLD_COUNT
            invariant
                w <= WORLD_COUNT,
                pre.wf(),
                pre.spec_phase() == Phase::AwaitingTarget,
                b == pre.spec_board(),
                value == pre.active_value(),
                is_card_value(value as int),
                self.ledger.wf(),
                self.registry.wf(),
                self.phase == pre.phase,
                self.board == pre.board,
                self.hand == pre.hand,
                self.decks == pre.decks,
                self.counters == pre.counters,
                self.pending == pre.pending,
                self.next_token == pre.next_token,
                count == balanced_worlds(pre.ledger, b, w as int).len(),
                count <= w,
                effects@.len() == count,
                forall|i: int|
                    0 <= i < count ==> (#[trigger] effects@[i] matches Effect::ClaimWorld {
                        world,
                        new_name,
                    } && world == balanced_worlds(pre.ledger, b, w as int)[i] && new_name@
                        == first_dimension_name()),
                forall|bb: Board, v: int|
                    0 <= v < WORLD_COUNT ==> #[trigger] self.ledger.marker(bb, v) == if bb == b && v < w
                        && balanced_at(pre.ledger, b, v) {
                        Marker { polarity: pushed(0, value as int, b) as i8, claimable: false }
                    } else {
                        pre.ledger.marker(bb, v)
                    },
                forall|bb: Board, v: int|
                    0 <= v < WORLD_COUNT ==> if bb == b && v < w && balanced_at(pre.ledger, b, v) {
                        &&& (#[trigger] self.registry.dimension(bb, v)).name@ == first_dimension_name()
                        &&& self.registry.dimension(bb, v).board == b
                    } else {
                        self.registry.dimension(bb, v) == pre.registry.dimension(bb, v)
                    },
            decreases WORLD_COUNT - w,
        {
            assert(self.ledger.marker(b, w as int) == pre.ledger.marker(b, w as int));
            let next = w + 1;
            let ghost ledger0 = self.ledger;
            let ghost registry0 = self.registry;
            let ghost effects0 = effects@;
            match self.claim_world(w, b, value) {
                Err(e) => {
                    return Err(e);
                },
                Ok(None) => {},
                Ok(Some(name)) => {
                    effects.push(Effect::ClaimWorld { world: w, new_name: name });
                    count = count + 1;
                },
            }
            assert forall|bb: Board, v: int| 0 <= v < WORLD_COUNT implies #[trigger] self.ledger.marker(
                bb,
                v,
            ) == if bb == b && v < next && balanced_at(pre.ledger, b, v) {
                Marker { polarity: pushed(0, value as int, b) as i8, claimable: false }
            } else {
                pre.ledger.marker(bb, v)
            } by {
                if !(bb == b && v == w) {
                    assert(self.ledger.marker(bb, v) == ledger0.marker(bb, v));
                }
            }
            assert forall|bb: Board, v: int| 0 <= v < WORLD_COUNT implies if bb == b && v < next
                && balanced_at(pre.ledger, b, v) {
                &&& (#[trigger] self.registry.dimension(bb, v)).name@ == first_dimension_name()
                &&& self.registry.dimension(bb, v).board == b
            } else {
                self.registry.dimension(bb, v) == pre.registry.dimension(bb, v)
            } by {
                if !(bb == b && v == w) {
                    assert(self.registry.dimension(bb, v) == registry0.dimension(bb, v));
                }
            }
            assert forall|i: int| 0 <= i < count implies (#[trigger] effects@[i] matches Effect::ClaimWorld {
                world,
                new_name,
            } && world == balanced_worlds(pre.ledger, b, next as int)[i] && new_name@
                == first_dimension_name()) by {
                if i < effects0.len() {
                    assert(effects@[i] == effects0[i]);
                }
            }
            w = next;
        }
        let mut counter = self.counters[b.index()];
        counter.record(count);
        self.counters.set(b.index(), counter);
        effects.push(Effect::UpdateBalanceCounter { board: b, claimed: counter.claimed });
        if count == 0 {
            self.board.toggle();
            effects.push(Effect::SwapBoards);
            self.await_completion(Phase::SwappingBoard);
        } else {
            self.await_completion(Phase::ClaimingWorlds);
        }
        Ok(effects)
    }

    /// Applies one action. Actions the current phase does not accept change
    /// nothing and yield no effects; an index out of range is an error and
    /// changes nothing. `draw` is the replacement card, used only where the
    /// card in play is resolved.
    pub fn handle(&mut self, action: Action, draw: u8) -> (r: Result<Vec<Effect>, GameError>)
        requires
            old(self).wf(),
            is_card_value(draw as int),
        ensures
            final(self).wf(),
            old(self).step(action, draw, &*final(self), r),
    {
        match action {
            Action::SelectCard(slot) => self.select_card(slot),
            Action::TargetWorld(world) => self.target_world(world, draw),
            Action::RequestClaim => self.request_claim(),
            Action::AnimationComplete(token) => Ok(self.on_animation_complete(token, draw)),
        }
    }

    /// Applies one action with a replacement card drawn at random from the
    /// active board's deck.
    pub fn handle_drawn(&mut self, action: Action) -> (r: Result<Vec<Effect>, GameError>)
        requires
            old(self).wf(),
        ensures
            final(self).wf(),
            exists|draw: u8| is_card_value(draw as int) && #[trigger] old(self).step(
                action,
                draw,
                &*final(self),
                r,
            ),
    {
        let draw = self.decks[self.board.active.index()].draw();
        let r = self.handle(action, draw);
        r
    }
}

} // verus!
