use pleroma_kenoma::board::{cell, Board, BoardState};
use pleroma_kenoma::controller::{
    random_starting_polarity, starting_polarity, Action, Effect, Phase, PhaseController,
};
use pleroma_kenoma::deck::{card_value, BalanceCounter, Deck};
use pleroma_kenoma::error::GameError;
use pleroma_kenoma::hand::{Card, Hand};
use pleroma_kenoma::ledger::{slot_offset, Marker, PolarityLedger};
use pleroma_kenoma::registry::{dimension_name, WorldRegistry};

fn game(starting: [i8; 4], cards: [u8; 4]) -> PhaseController {
    PhaseController::new(&starting.to_vec(), cards.to_vec())
}

fn complete(c: &mut PhaseController, draw: u8) -> Vec<Effect> {
    let token = c.pending_token().expect("a phase that waits");
    c.handle(Action::AnimationComplete(token), draw).unwrap()
}

/// Selects `slot` and lets the card rise.
fn raise(c: &mut PhaseController, slot: usize) {
    assert_eq!(c.handle(Action::SelectCard(slot), 1).unwrap(), vec![Effect::RaiseCard(slot)]);
    assert!(complete(c, 1).is_empty());
    assert_eq!(c.phase(), Phase::AwaitingTarget);
}

#[test]
fn select_card_rises_then_awaits_target() {
    let mut c = game([2, 3, 4, -2], [3, 1, 2, 5]);
    assert_eq!(c.phase(), Phase::Idle);
    let fx = c.handle(Action::SelectCard(0), 1).unwrap();
    assert_eq!(fx, vec![Effect::RaiseCard(0)]);
    assert_eq!(c.phase(), Phase::CardRising);
    assert_eq!(c.hand().active_slot(), Some(0));
    let fx = complete(&mut c, 1);
    assert!(fx.is_empty());
    assert_eq!(c.phase(), Phase::AwaitingTarget);
    assert_eq!(c.pending_token(), None);
}

#[test]
fn pleroma_push_moves_marker_up_and_clamps() {
    let mut c = game([2, 3, 4, -2], [1, 3, 2, 5]);
    raise(&mut c, 0);
    // Nothing is balanced: the claim swaps the boards at once.
    let fx = c.handle(Action::RequestClaim, 1).unwrap();
    assert_eq!(
        fx,
        vec![Effect::UpdateBalanceCounter { board: Board::Kenoma, claimed: 0 }, Effect::SwapBoards]
    );
    assert_eq!(c.phase(), Phase::SwappingBoard);
    assert_eq!(c.active_board(), Board::Pleroma);
    let fx = complete(&mut c, 6);
    assert_eq!(
        fx,
        vec![
            Effect::BanishAndReplaceCard { slot: 0, new_value: 6 },
            Effect::UpdateDeckCounter { board: Board::Pleroma, remaining: 63 },
            Effect::LowerHandLabels,
        ]
    );
    assert_eq!(c.phase(), Phase::ReturningToIdle);
    assert!(complete(&mut c, 1).is_empty());
    assert_eq!(c.phase(), Phase::Idle);

    raise(&mut c, 1);
    assert_eq!(c.ledger().polarity(2, Board::Pleroma), 4);
    let fx = c.handle(Action::TargetWorld(2), 4).unwrap();
    assert_eq!(
        fx,
        vec![
            Effect::MoveMarker { world: 2, board: Board::Pleroma, from_polarity: 4, to_polarity: 6 },
            Effect::BanishAndReplaceCard { slot: 1, new_value: 4 },
            Effect::UpdateDeckCounter { board: Board::Pleroma, remaining: 62 },
            Effect::LowerHandLabels,
        ]
    );
    assert_eq!(c.ledger().polarity(2, Board::Pleroma), 6);
    assert_eq!(c.ledger().polarity(2, Board::Kenoma), 4);
    assert_eq!(c.phase(), Phase::ReturningToIdle);
}

#[test]
fn balanced_world_is_claimed_and_counted() {
    let mut c = game([2, 3, 4, -2], [3, 2, 1, 5]);
    raise(&mut c, 0);
    let fx = c.handle(Action::TargetWorld(1), 4).unwrap();
    assert_eq!(
        fx[0],
        Effect::MoveMarker { world: 1, board: Board::Kenoma, from_polarity: 3, to_polarity: 0 }
    );
    assert_eq!(c.ledger().get(1, Board::Kenoma), Marker { polarity: 0, claimable: true });
    assert!(complete(&mut c, 1).is_empty());
    assert_eq!(c.phase(), Phase::Idle);

    raise(&mut c, 1);
    let deck_before = c.deck(Board::Kenoma);
    assert_eq!(deck_before.remaining, 63);
    let fx = c.handle(Action::RequestClaim, 1).unwrap();
    assert_eq!(
        fx,
        vec![
            Effect::ClaimWorld { world: 1, new_name: "Goemorphos".to_string() },
            Effect::UpdateBalanceCounter { board: Board::Kenoma, claimed: 1 },
        ]
    );
    assert_eq!(c.phase(), Phase::ClaimingWorlds);
    assert_eq!(c.deck(Board::Kenoma), deck_before);
    assert_eq!(c.deck(Board::Pleroma).remaining, 64);
    assert_eq!(c.hand().active_slot(), Some(1));
    assert_eq!(c.hand().value(0), 4);
    assert_eq!(c.hand().value(1), 2);
    assert_eq!(c.balance(Board::Kenoma).claimed, 1);
    assert_eq!(c.balance(Board::Pleroma).claimed, 0);
    assert_eq!(c.ledger().get(1, Board::Kenoma), Marker { polarity: -2, claimable: false });
    assert_eq!(c.registry().get(1, Board::Kenoma).name, "Goemorphos");
    assert_eq!(c.registry().get(1, Board::Kenoma).board, Board::Kenoma);

    assert_eq!(complete(&mut c, 1), vec![Effect::SwapBoards]);
    assert_eq!(c.phase(), Phase::SwappingBoard);
    assert_eq!(c.active_board(), Board::Pleroma);
    let fx = complete(&mut c, 6);
    assert_eq!(
        fx,
        vec![
            Effect::BanishAndReplaceCard { slot: 1, new_value: 6 },
            Effect::UpdateDeckCounter { board: Board::Pleroma, remaining: 63 },
            Effect::LowerHandLabels,
        ]
    );
    assert_eq!(c.hand().value(1), 6);
    assert_eq!(c.hand().active_slot(), None);
}

#[test]
fn empty_deck_consume_stays_at_zero() {
    let mut d = Deck { remaining: 0 };
    assert_eq!(d.consume(), 0);
    assert_eq!(d.remaining, 0);
}

#[test]
fn deck_counts_down_and_never_underflows() {
    let mut d = Deck::new();
    assert_eq!(d.remaining, 64);
    let mut last = d.remaining;
    for expected in (0..64u16).rev() {
        let now = d.consume();
        assert_eq!(now, expected);
        assert!(now <= last);
        last = now;
    }
    assert_eq!(d.consume(), 0);
    assert_eq!(d.consume(), 0);
}

#[test]
fn decks_only_fall_over_a_turn() {
    let mut c = game([2, 3, 4, -2], [3, 1, 2, 5]);
    raise(&mut c, 2);
    c.handle(Action::TargetWorld(0), 5).unwrap();
    assert_eq!(c.deck(Board::Kenoma).remaining, 63);
    assert_eq!(c.deck(Board::Pleroma).remaining, 64);
    complete(&mut c, 1);
    assert_eq!(c.deck(Board::Kenoma).remaining, 63);
}

#[test]
fn push_is_bounded_and_opposite_per_board() {
    let mut l = PolarityLedger::new(&vec![1, 5, -5, 0]);
    assert_eq!(l.push(0, Board::Kenoma, 2), Ok(-1));
    assert_eq!(l.push(0, Board::Pleroma, 2), Ok(3));
    // Kenoma moved down by 2, Pleroma up by 2, from the same start.
    assert_eq!(l.push(1, Board::Pleroma, 4), Ok(6));
    assert_eq!(l.push(2, Board::Kenoma, 4), Ok(-6));
    assert_eq!(l.push(3, Board::Kenoma, 6), Ok(-6));
    assert_eq!(l.push(3, Board::Pleroma, 6), Ok(6));
    for w in 0..4 {
        for b in [Board::Kenoma, Board::Pleroma] {
            let p = l.polarity(w, b);
            assert!((-6..=6).contains(&p));
        }
    }
}

#[test]
fn push_to_zero_flags_claimable() {
    let mut l = PolarityLedger::new(&vec![3, 2, 1, -1]);
    assert!(!l.is_claimable(0, Board::Kenoma));
    assert_eq!(l.push(0, Board::Kenoma, 3), Ok(0));
    assert!(l.is_zero(0, Board::Kenoma));
    assert!(l.is_claimable(0, Board::Kenoma));
    assert_eq!(l.push(0, Board::Kenoma, 1), Ok(-1));
    assert!(!l.is_claimable(0, Board::Kenoma));
    assert_eq!(l.polarity(0, Board::Pleroma), 3);
}

#[test]
fn claim_needs_zero_and_assigns_nonzero() {
    let mut l = PolarityLedger::new(&vec![2, 3, 4, -2]);
    let mut reg = WorldRegistry::new();
    assert_eq!(l.push(0, Board::Kenoma, 2), Ok(0));
    assert!(l.is_zero(0, Board::Kenoma));
    let d = reg.claim(&l, 0, Board::Kenoma, "Nova".to_string()).unwrap();
    assert_eq!(d.name, "Nova");
    assert_eq!(d.board, Board::Kenoma);
    assert_eq!(reg.get(0, Board::Kenoma).name, "Nova");
    assert_eq!(reg.get(0, Board::Pleroma).name, "Goemorphos");
    assert_eq!(l.assign_new_polarity(0, Board::Kenoma, 5), Ok(-5));
    assert_ne!(l.polarity(0, Board::Kenoma), 0);
    assert!(!l.is_claimable(0, Board::Kenoma));

    let mut p = PolarityLedger::new(&vec![0, 3, 4, -2]);
    assert_eq!(p.assign_new_polarity(0, Board::Pleroma, 2), Ok(2));
}

#[test]
fn counter_grows_by_claims() {
    let mut b = BalanceCounter::new();
    assert_eq!(b.claimed, 0);
    b.record(2);
    assert_eq!(b.claimed, 2);
    b.record(0);
    assert_eq!(b.claimed, 2);
    let mut top = BalanceCounter { claimed: u64::MAX - 1 };
    top.record(3);
    assert_eq!(top.claimed, u64::MAX);
}

#[test]
fn claim_counts_every_balanced_world() {
    let mut c = game([1, 3, 1, -2], [1, 1, 2, 5]);
    raise(&mut c, 0);
    c.handle(Action::TargetWorld(0), 3).unwrap();
    complete(&mut c, 1);
    raise(&mut c, 1);
    c.handle(Action::TargetWorld(2), 3).unwrap();
    complete(&mut c, 1);
    raise(&mut c, 2);
    let fx = c.handle(Action::RequestClaim, 1).unwrap();
    assert_eq!(
        fx,
        vec![
            Effect::ClaimWorld { world: 0, new_name: "Goemorphos".to_string() },
            Effect::ClaimWorld { world: 2, new_name: "Goemorphos".to_string() },
            Effect::UpdateBalanceCounter { board: Board::Kenoma, claimed: 2 },
        ]
    );
    assert_eq!(c.balance(Board::Kenoma).claimed, 2);
    assert_eq!(c.ledger().polarity(0, Board::Kenoma), -2);
    assert_eq!(c.ledger().polarity(2, Board::Kenoma), -2);
    assert_eq!(c.ledger().polarity(1, Board::Kenoma), 3);
}

#[test]
fn stale_token_changes_nothing() {
    let mut c = game([2, 3, 4, -2], [3, 1, 2, 5]);
    assert!(c.handle(Action::AnimationComplete(42), 1).unwrap().is_empty());
    assert_eq!(c.phase(), Phase::Idle);
    assert_eq!(c.pending_token(), None);

    c.handle(Action::SelectCard(3), 1).unwrap();
    let token = c.pending_token().unwrap();
    let stale = token.wrapping_add(1);
    assert!(c.handle(Action::AnimationComplete(stale), 1).unwrap().is_empty());
    assert!(c.on_animation_complete(stale, 1).is_empty());
    assert_eq!(c.phase(), Phase::CardRising);
    assert_eq!(c.pending_token(), Some(token));
    assert_eq!(c.hand().active_slot(), Some(3));
    assert!(complete(&mut c, 1).is_empty());
    assert_eq!(c.phase(), Phase::AwaitingTarget);
    // The token already used is stale now.
    assert!(c.handle(Action::AnimationComplete(token), 1).unwrap().is_empty());
    assert_eq!(c.phase(), Phase::AwaitingTarget);
}

#[test]
fn out_of_phase_actions_are_ignored() {
    let mut c = game([2, 3, 4, -2], [3, 1, 2, 5]);
    assert!(c.handle(Action::TargetWorld(1), 1).unwrap().is_empty());
    assert!(c.handle(Action::RequestClaim, 1).unwrap().is_empty());
    assert_eq!(c.phase(), Phase::Idle);
    c.handle(Action::SelectCard(1), 1).unwrap();
    assert!(c.handle(Action::SelectCard(2), 1).unwrap().is_empty());
    assert!(c.handle(Action::TargetWorld(1), 1).unwrap().is_empty());
    assert_eq!(c.phase(), Phase::CardRising);
    assert_eq!(c.hand().active_slot(), Some(1));
    assert_eq!(c.ledger().polarity(1, Board::Kenoma), 3);
}

#[test]
fn controller_reports_bad_indices() {
    let mut c = game([2, 3, 4, -2], [3, 1, 2, 5]);
    assert_eq!(c.handle(Action::SelectCard(4), 1), Err(GameError::InvalidSlot));
    assert_eq!(c.phase(), Phase::Idle);
    raise(&mut c, 0);
    assert_eq!(c.handle(Action::TargetWorld(9), 1), Err(GameError::OutOfRange));
    assert_eq!(c.phase(), Phase::AwaitingTarget);
    assert_eq!(c.deck(Board::Kenoma).remaining, 64);
}

#[test]
fn hand_errors() {
    let mut h = Hand::new(vec![1, 2, 3, 4]);
    assert_eq!(h.consume_active(), Err(GameError::NoActiveCard));
    assert_eq!(h.select(4), Err(GameError::InvalidSlot));
    assert_eq!(h.select(2), Ok(3));
    assert_eq!(h.select(1), Err(GameError::AlreadyActive));
    assert_eq!(h.card(2), Card { value: 3, slot: 2, active: true });
    assert_eq!(h.card(1), Card { value: 2, slot: 1, active: false });
    h.replace(2, 6);
    assert_eq!(h.active_slot(), Some(2));
    assert_eq!(h.consume_active(), Ok(6));
    assert_eq!(h.active_slot(), None);
    assert_eq!(h.value(2), 6);
}

#[test]
fn ledger_and_registry_errors() {
    let mut l = PolarityLedger::new(&vec![2, 0, 4, -2]);
    assert_eq!(l.push(4, Board::Kenoma, 1), Err(GameError::OutOfRange));
    assert_eq!(l.assign_new_polarity(7, Board::Kenoma, 1), Err(GameError::OutOfRange));
    assert_eq!(l.assign_new_polarity(0, Board::Kenoma, 1), Err(GameError::NotClaimable));
    assert_eq!(l.assign_new_polarity(1, Board::Kenoma, 0), Err(GameError::InvariantViolation));
    assert_eq!(l.polarity(1, Board::Kenoma), 0);

    let mut reg = WorldRegistry::new();
    assert!(matches!(reg.claim(&l, 4, Board::Kenoma, "X".to_string()), Err(GameError::OutOfRange)));
    assert!(matches!(reg.claim(&l, 0, Board::Kenoma, "X".to_string()), Err(GameError::NotClaimable)));
    // At zero from the start, but never pushed there: not claimable.
    assert!(matches!(reg.claim(&l, 1, Board::Kenoma, "X".to_string()), Err(GameError::NotClaimable)));
    assert_eq!(reg.get(1, Board::Kenoma).name, "Goemorphos");
}

#[test]
fn slot_offsets() {
    assert_eq!(slot_offset(0, 190, 110, 80), 0);
    assert_eq!(slot_offset(3, 190, 110, 80), 270);
    assert_eq!(slot_offset(2, 190, 110, 80), 190);
    assert_eq!(slot_offset(6, 190, 110, 80), 510);
    assert_eq!(slot_offset(-1, 190, 110, 80), -110);
    assert_eq!(slot_offset(-2, 190, 110, 80), -190);
    assert_eq!(slot_offset(-6, 190, 110, 80), -510);
}

#[test]
fn boards_and_cells() {
    assert_eq!(Board::Kenoma.other(), Board::Pleroma);
    assert_eq!(Board::Pleroma.other(), Board::Kenoma);
    assert_eq!(cell(Board::Kenoma, 3), 3);
    assert_eq!(cell(Board::Pleroma, 1), 5);
    let mut s = BoardState::new();
    assert_eq!(s.active, Board::Kenoma);
    s.toggle();
    assert_eq!(s.active, Board::Pleroma);
    s.toggle();
    assert_eq!(s.active, Board::Kenoma);
    assert_eq!(dimension_name(), "Goemorphos");
}

#[test]
fn random_draws_stay_in_range() {
    let d = Deck::new();
    let mut seen = [false; 7];
    for _ in 0..600 {
        let v = d.draw();
        assert!((1..=6).contains(&v));
        seen[v as usize] = true;
    }
    assert!(seen[1..].iter().filter(|s| **s).count() > 1);
    for _ in 0..600 {
        let p = random_starting_polarity();
        assert!([-4, -3, -2, 2, 3, 4].contains(&p));
    }
}

#[test]
fn random_game_starts_valid() {
    let mut c = PhaseController::new_random();
    assert_eq!(c.phase(), Phase::Idle);
    assert_eq!(c.active_board(), Board::Kenoma);
    for w in 0..4 {
        let p = c.ledger().polarity(w, Board::Kenoma);
        assert!([-4, -3, -2, 2, 3, 4].contains(&p));
        assert_eq!(c.ledger().polarity(w, Board::Pleroma), p);
        assert!((1..=6).contains(&c.hand().value(w)));
        for b in [Board::Kenoma, Board::Pleroma] {
            assert_eq!(c.registry().get(w, b).name, "Goemorphos");
            assert_eq!(c.registry().get(w, b).board, b);
        }
    }
    let fx = c.handle_drawn(Action::SelectCard(0)).unwrap();
    assert_eq!(fx, vec![Effect::RaiseCard(0)]);
    let token = c.pending_token().unwrap();
    c.handle_drawn(Action::AnimationComplete(token)).unwrap();
    let fx = c.handle_drawn(Action::TargetWorld(0)).unwrap();
    assert_eq!(fx.len(), 4);
    match &fx[1] {
        Effect::BanishAndReplaceCard { slot, new_value } => {
            assert_eq!(*slot, 0);
            assert!((1..=6).contains(new_value));
            assert_eq!(c.hand().value(0), *new_value);
        }
        other => panic!("unexpected effect {:?}", other),
    }
}

#[test]
fn starting_polarity_by_choice() {
    let got: Vec<i8> = (0..6).map(starting_polarity).collect();
    assert_eq!(got, vec![-4, -3, -2, 2, 3, 4]);
}

#[test]
fn card_value_by_face() {
    let got: Vec<u8> = (0..6).map(card_value).collect();
    assert_eq!(got, vec![1, 2, 3, 4, 5, 6]);
}
