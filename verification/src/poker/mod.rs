//! Playing cards, hand ranking and showdown equity.

pub mod card;
pub mod equity;
pub mod hand;
pub mod rules;
pub mod worth;

pub use card::{Card, Deck, Rank, Suit};
pub use equity::equity;
pub use hand::{best_five, category_name, evaluate, HandRank};
use vstd::prelude::*;

verus! {

/// Which deck a hand is played with.
#[derive(Debug, Clone, Copy, PartialEq, Eq, Structural)]
pub enum DeckMode {
    /// The 52-card deck.
    Standard,
    /// Six-plus hold'em: 36 cards, the twos to fives removed.
    ShortDeck,
}

impl DeckMode {
    /// The lowest rank in the deck.
    pub open spec fn low(self) -> int {
        match self {
            DeckMode::Standard => 2,
            DeckMode::ShortDeck => 6,
        }
    }

    /// How many cards the deck holds.
    pub open spec fn size(self) -> int {
        (15 - self.low()) * 4
    }

    pub fn lowest_rank(self) -> (r: u8)
        ensures
            r == self.low(),
            r == 2 || r == 6,
    {
        match self {
            DeckMode::Standard => 2u8,
            DeckMode::ShortDeck => 6u8,
        }
    }
}

} // verus!
