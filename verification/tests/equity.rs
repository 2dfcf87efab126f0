use larkriver::poker::{equity, Card, DeckMode, Rank, Suit};

/// The win rate: half-wins over twice the number of deals.
fn rate(hole: &[Card], community: &[Card], opponents: usize, deals: u32, mode: DeckMode) -> f64 {
    equity(hole, community, opponents, deals, mode) as f64 / (2.0 * deals as f64)
}

fn c(r: u8, s: Suit) -> Card {
    Card { rank: Rank(r), suit: s }
}

#[test]
fn pocket_aces_dominates_preflop() {
    let aa = vec![c(14, Suit::Spades), c(14, Suit::Hearts)];
    let eq_heads_up = rate(&aa, &[], 1, 1000, DeckMode::Standard);
    // Pocket aces head-up vs random hand is ~85% — give wide bounds for the
    // sample variance at 1k iters.
    assert!(eq_heads_up > 0.78, "expected AA HU equity > 0.78, got {eq_heads_up}");
    assert!(eq_heads_up < 0.92);
}

#[test]
fn made_flush_on_river_is_near_certain() {
    let hole = vec![c(14, Suit::Spades), c(13, Suit::Spades)];
    let board = vec![
        c(2, Suit::Spades),
        c(7, Suit::Spades),
        c(9, Suit::Spades),
        c(11, Suit::Hearts),
        c(4, Suit::Diamonds),
    ];
    let eq = rate(&hole, &board, 1, 500, DeckMode::Standard);
    // Ace-high flush on the river — opponent can only beat us with a
    // straight flush or higher. Should be > 0.95.
    assert!(eq > 0.95, "expected near-lock equity, got {eq}");
}

#[test]
fn empty_inputs_dont_panic() {
    assert_eq!(rate(&[], &[], 1, 100, DeckMode::Standard), 0.0);
    let aa = vec![c(14, Suit::Spades), c(14, Suit::Hearts)];
    assert_eq!(rate(&aa, &[], 0, 100, DeckMode::Standard), 0.0);
}

#[test]
fn shortdeck_aa_preflop_lower_than_standard() {
    // In short deck (36-card), AA pre-flop has noticeably lower equity
    // because opponents are more likely to flop sets / straights.
    let aa = vec![c(14, Suit::Spades), c(14, Suit::Hearts)];
    let eq_std = rate(&aa, &[], 4, 1000, DeckMode::Standard);
    let eq_short = rate(&aa, &[], 4, 1000, DeckMode::ShortDeck);
    assert!(
        eq_short < eq_std,
        "short-deck AA equity should be lower: std={eq_std} short={eq_short}"
    );
}
