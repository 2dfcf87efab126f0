use larkriver::game::{Game, PlayerAction, Stage, BIG_BLIND, SMALL_BLIND, STARTING_CHIPS};
use larkriver::poker::DeckMode;

fn add(g: &mut Game, id: &str, name: &str) {
    g.add_player(id.into(), name.into()).unwrap();
}

#[test]
fn heads_up_blinds() {
    let mut g = Game::new("c".into());
    add(&mut g, "a", "Alice");
    add(&mut g, "b", "Bob");
    g.start_hand(DeckMode::Standard).unwrap();
    // dealer is 0 (Alice) heads-up: Alice = SB, Bob = BB, Alice acts first
    assert_eq!(g.players[0].bet_in_round, SMALL_BLIND);
    assert_eq!(g.players[1].bet_in_round, BIG_BLIND);
    assert_eq!(g.current_idx, 0);
}

#[test]
fn fold_ends_hand() {
    let mut g = Game::new("c".into());
    add(&mut g, "a", "Alice");
    add(&mut g, "b", "Bob");
    g.start_hand(DeckMode::Standard).unwrap();
    let outcome = g.act("a", PlayerAction::Fold).unwrap();
    assert!(outcome.summary.is_some());
    // Bob wins the pot (5 + 10 = 15)
    assert_eq!(g.players[1].chips, STARTING_CHIPS - BIG_BLIND + (SMALL_BLIND + BIG_BLIND));
}

#[test]
fn full_hand_check_to_river() {
    let mut g = Game::new("c".into());
    add(&mut g, "a", "Alice");
    add(&mut g, "b", "Bob");
    g.start_hand(DeckMode::Standard).unwrap();
    // Alice (SB) calls 5 to match BB
    g.act("a", PlayerAction::Call).unwrap();
    // Bob (BB) checks
    let o1 = g.act("b", PlayerAction::Check).unwrap();
    assert_eq!(g.stage, Stage::Flop);
    assert_eq!(o1.stage_cards.as_ref().map(|s| s.0), Some(Stage::Flop));
    // Both check on flop
    g.act("b", PlayerAction::Check).unwrap();
    let _ = g.act("a", PlayerAction::Check).unwrap();
    assert_eq!(g.stage, Stage::Turn);
    // Both check on turn
    g.act("b", PlayerAction::Check).unwrap();
    let _ = g.act("a", PlayerAction::Check).unwrap();
    assert_eq!(g.stage, Stage::River);
    // Both check on river → showdown
    g.act("b", PlayerAction::Check).unwrap();
    let last = g.act("a", PlayerAction::Check).unwrap();
    assert_eq!(g.stage, Stage::Ended);
    assert!(last.summary.is_some());
}

#[test]
fn start_hand_rejects_mid_hand_call() {
    // Calling start_hand while a hand is in progress must error rather
    // than silently re-deal — protects against duplicate-callback storms
    // double-dealing.
    let mut g = Game::new("c".into());
    add(&mut g, "a", "Alice");
    add(&mut g, "b", "Bob");
    g.start_hand(DeckMode::Standard).unwrap();
    let err = g.start_hand(DeckMode::Standard).unwrap_err();
    assert!(
        err.message().contains("已经在牌局中"),
        "expected mid-hand error, got: {err:?}"
    );
    assert_eq!(g.hand_count, 1, "hand counter should not advance");
}

#[test]
fn raise_resets_actions() {
    let mut g = Game::new("c".into());
    add(&mut g, "a", "Alice");
    add(&mut g, "b", "Bob");
    add(&mut g, "c", "Carol");
    g.start_hand(DeckMode::Standard).unwrap();
    // first to act is Carol (UTG = dealer + 3 = 0 + 3 mod 3 = 0)
    // wait, with 3 players: dealer=0, SB=1, BB=2, first preflop = (0+3)%3 = 0 = Alice (dealer)
    // So Alice acts first.
    assert_eq!(g.current_idx, 0);
}
