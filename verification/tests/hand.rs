use larkriver::poker::{evaluate, Card, DeckMode, Rank, Suit};

fn c(r: u8, s: Suit) -> Card {
    Card { rank: Rank(r), suit: s }
}

#[test]
fn royal_flush() {
    let cards = [
        c(10, Suit::Spades),
        c(11, Suit::Spades),
        c(12, Suit::Spades),
        c(13, Suit::Spades),
        c(14, Suit::Spades),
    ];
    let r = evaluate(&cards, DeckMode::Standard);
    assert_eq!(r.category, 9);
}

#[test]
fn ace_low_straight_standard() {
    let cards = [
        c(2, Suit::Spades),
        c(3, Suit::Hearts),
        c(4, Suit::Diamonds),
        c(5, Suit::Clubs),
        c(14, Suit::Spades),
    ];
    let r = evaluate(&cards, DeckMode::Standard);
    assert_eq!(r.category, 4); // straight
    assert_eq!(r.kickers[0], 5);
}

#[test]
fn full_house_beats_flush_standard() {
    let fh = [
        c(7, Suit::Spades),
        c(7, Suit::Hearts),
        c(7, Suit::Diamonds),
        c(2, Suit::Clubs),
        c(2, Suit::Spades),
    ];
    let fl = [
        c(2, Suit::Spades),
        c(5, Suit::Spades),
        c(7, Suit::Spades),
        c(9, Suit::Spades),
        c(11, Suit::Spades),
    ];
    assert!(evaluate(&fh, DeckMode::Standard) > evaluate(&fl, DeckMode::Standard));
}

#[test]
fn seven_card_eval_picks_best() {
    let cards = [
        c(10, Suit::Spades),
        c(11, Suit::Spades),
        c(12, Suit::Spades),
        c(13, Suit::Spades),
        c(14, Suit::Spades),
        c(7, Suit::Hearts),
        c(8, Suit::Diamonds),
    ];
    let r = evaluate(&cards, DeckMode::Standard);
    assert_eq!(r.category, 9, "should pick royal flush, not full house");
}

#[test]
fn pair_kicker_compare() {
    let a = [
        c(10, Suit::Spades),
        c(10, Suit::Hearts),
        c(13, Suit::Diamonds),
        c(7, Suit::Clubs),
        c(8, Suit::Spades),
    ];
    let b = [
        c(10, Suit::Spades),
        c(10, Suit::Hearts),
        c(12, Suit::Diamonds),
        c(7, Suit::Clubs),
        c(8, Suit::Spades),
    ];
    assert!(evaluate(&a, DeckMode::Standard) > evaluate(&b, DeckMode::Standard));
}

// ---------- Short-deck ranking changes ----------

#[test]
fn shortdeck_flush_beats_full_house() {
    let fh = [
        c(7, Suit::Spades),
        c(7, Suit::Hearts),
        c(7, Suit::Diamonds),
        c(8, Suit::Clubs),
        c(8, Suit::Spades),
    ];
    let fl = [
        c(8, Suit::Spades),
        c(9, Suit::Spades),
        c(11, Suit::Spades),
        c(13, Suit::Spades),
        c(14, Suit::Spades),
    ];
    assert!(evaluate(&fl, DeckMode::ShortDeck) > evaluate(&fh, DeckMode::ShortDeck));
}

#[test]
fn shortdeck_trips_beats_straight() {
    let trips = [
        c(7, Suit::Spades),
        c(7, Suit::Hearts),
        c(7, Suit::Diamonds),
        c(11, Suit::Clubs),
        c(13, Suit::Spades),
    ];
    let straight = [
        c(8, Suit::Spades),
        c(9, Suit::Hearts),
        c(10, Suit::Diamonds),
        c(11, Suit::Clubs),
        c(12, Suit::Spades),
    ];
    assert!(evaluate(&trips, DeckMode::ShortDeck) > evaluate(&straight, DeckMode::ShortDeck));
}

#[test]
fn shortdeck_low_wheel_is_a_6_7_8_9() {
    // Standard would NOT recognise 6-7-8-9-A as a straight because 2-3-4-5
    // isn't all present. ShortDeck must.
    let cards = [
        c(6, Suit::Spades),
        c(7, Suit::Hearts),
        c(8, Suit::Diamonds),
        c(9, Suit::Clubs),
        c(14, Suit::Spades),
    ];
    let std = evaluate(&cards, DeckMode::Standard);
    let short = evaluate(&cards, DeckMode::ShortDeck);
    // In ShortDeck, this is a straight (category 3 after the swap).
    assert_eq!(short.category, 3, "ShortDeck wheel should be a straight");
    // In Standard it's just an ace-high.
    assert_eq!(std.category, 0, "Standard should treat this as high card");
}

#[test]
fn seven_card_two_pair_against_flush() {
    // Cross-check that picking the best 5-of-7 hierarchy still works
    // when several categories overlap.
    let cards = [
        c(10, Suit::Spades),
        c(10, Suit::Hearts),
        c(7, Suit::Spades),
        c(7, Suit::Diamonds),
        c(2, Suit::Spades),
        c(5, Suit::Spades),
        c(9, Suit::Spades),
    ];
    let r = evaluate(&cards, DeckMode::Standard);
    // 5 spades present (10♠ 7♠ 2♠ 5♠ 9♠) → flush should beat the two-pair.
    assert_eq!(r.category, 5, "expected flush from 5 spades");
    assert_eq!(r.kickers[0], 10);
}
