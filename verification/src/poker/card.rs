//! Cards and the deck they are drawn from.

use vstd::prelude::*;
use vstd::string::*;
use smallvec::SmallVec;
use super::DeckMode;
use crate::text::{decimal, decimal_text};

verus! {

#[derive(Debug, Clone, Copy, PartialEq, Eq, Hash, Structural)]
pub enum Suit {
    Spades,
    Hearts,
    Diamonds,
    Clubs,
}

impl Suit {
    /// The suit's number: 0 to 3, in the order of declaration.
    pub open spec fn number(self) -> int {
        match self {
            Suit::Spades => 0,
            Suit::Hearts => 1,
            Suit::Diamonds => 2,
            Suit::Clubs => 3,
        }
    }

    pub open spec fn glyph(self) -> Seq<char> {
        match self {
            Suit::Spades => "♠"@,
            Suit::Hearts => "♥"@,
            Suit::Diamonds => "♦"@,
            Suit::Clubs => "♣"@,
        }
    }

    pub fn symbol(self) -> (r: &'static str)
        ensures
            r@ == self.glyph(),
    {
        match self {
            Suit::Spades => "♠",
            Suit::Hearts => "♥",
            Suit::Diamonds => "♦",
            Suit::Clubs => "♣",
        }
    }

    pub fn index(self) -> (r: u8)
        ensures
            r == self.number(),
            r < 4,
    {
        match self {
            Suit::Spades => 0,
            Suit::Hearts => 1,
            Suit::Diamonds => 2,
            Suit::Clubs => 3,
        }
    }

    pub fn from_index(i: u8) -> (r: Self)
        ensures
            r.number() == i % 4,
    {
        assert(i & 0b11 == i % 4) by (bit_vector);
        match i & 0b11 {
            0 => Suit::Spades,
            1 => Suit::Hearts,
            2 => Suit::Diamonds,
            _ => Suit::Clubs,
        }
    }
}

/// A card's rank: 2 to 14, where 14 is the ace.
#[derive(Debug, Clone, Copy, PartialEq, Eq, Hash, PartialOrd, Ord, Structural)]
pub struct Rank(pub u8);

impl Rank {
    /// The rank's name: a letter for ace and court cards, else the number.
    pub open spec fn name(self) -> Seq<char> {
        if self.0 == 14 {
            "A"@
        } else if self.0 == 13 {
            "K"@
        } else if self.0 == 12 {
            "Q"@
        } else if self.0 == 11 {
            "J"@
        } else {
            decimal(self.0 as nat)
        }
    }

    pub fn label(self) -> (r: String)
        ensures
            r@ == self.name(),
    {
        match self.0 {
            14 => "A".to_owned(),
            13 => "K".to_owned(),
            12 => "Q".to_owned(),
            11 => "J".to_owned(),
            n => decimal_text(n as u64),
        }
    }
}

#[derive(Debug, Clone, Copy, PartialEq, Eq, Hash, Structural)]
pub struct Card {
    pub rank: Rank,
    pub suit: Suit,
}

impl Card {
    /// Whether the card is one of the 52.
    pub open spec fn valid(self) -> bool {
        2 <= self.rank.0 <= 14
    }

    /// The card's name: the rank's name and the suit's glyph.
    pub open spec fn name(self) -> Seq<char> {
        self.rank.name() + self.suit.glyph()
    }

    /// The card's number in the order of rank, then suit.
    pub open spec fn number(self) -> int {
        (self.rank.0 - 2) * 4 + self.suit.number()
    }

    pub fn label(self) -> (r: String)
        ensures
            r@ == self.name(),
    {
        let mut s = self.rank.label();
        s.append(self.suit.symbol());
        s
    }

    /// Pack a card into a single number: `(rank - 2) * 4 + suit`, below 52 for
    /// a card of the deck.
    pub fn packed(self) -> (r: u8)
        requires
            2 <= self.rank.0 <= 65,
        ensures
            r == self.number(),
    {
        (self.rank.0 - 2) * 4 + self.suit.index()
    }

    /// Inverse of [`Card::packed`].
    pub fn from_packed(p: u8) -> (r: Self)
        requires
            p < 52,
        ensures
            r.valid(),
            r.number() == p,
    {
        assert(p & 0b11 == p % 4) by (bit_vector);
        assert(p >> 2 == p / 4) by (bit_vector);
        let suit = Suit::from_index(p & 0b11);
        let rank = Rank(2 + (p >> 2));
        Card { rank, suit }
    }
}

/// Packing loses nothing: two cards with the same number are the same card.
pub proof fn packed_is_injective(a: Card, b: Card)
    requires
        a.number() == b.number(),
    ensures
        a == b,
{
    assert(a.suit.number() == b.suit.number());
    assert(a.suit == b.suit);
}

/// The suit with the number `n`.
pub open spec fn suit_numbered(n: int) -> Suit {
    if n == 0 {
        Suit::Spades
    } else if n == 1 {
        Suit::Hearts
    } else if n == 2 {
        Suit::Diamonds
    } else {
        Suit::Clubs
    }
}

/// The whole deck in order of rank, then suit.
pub open spec fn ordered_deck(mode: DeckMode) -> Seq<Card> {
    Seq::new(
        mode.size() as nat,
        |i: int| Card { rank: Rank((mode.low() + i / 4) as u8), suit: suit_numbered(i % 4) },
    )
}

/// `s` with the items at `i` and `j` exchanged.
pub open spec fn swapped<T>(s: Seq<T>, i: int, j: int) -> Seq<T> {
    s.update(i, s[j]).update(j, s[i])
}

/// Whether `picks` can drive a shuffle of `n` cards: pick number `k` goes with
/// the place `n - 1 - k` and lies at or below it.
pub open spec fn valid_picks(n: int, picks: Seq<usize>) -> bool {
    &&& picks.len() == n - 1
    &&& forall|k: int| 0 <= k < picks.len() ==> #[trigger] picks[k] <= n - 1 - k
}

/// The Fisher-Yates shuffle: from the last place down to the second, the card
/// there changes places with the picked one; the first `done` picks applied.
pub open spec fn fisher_yates(s: Seq<Card>, picks: Seq<usize>, done: nat) -> Seq<Card>
    decreases done,
{
    if done == 0 {
        s
    } else {
        let k = (done - 1) as nat;
        swapped(fisher_yates(s, picks, k), s.len() - 1 - k, picks[k as int] as int)
    }
}


pub proof fn swapped_keeps_items<T>(s: Seq<T>, i: int, j: int)
    requires
        0 <= i < s.len(),
        0 <= j < s.len(),
    ensures
        swapped(s, i, j).len() == s.len(),
        swapped(s, i, j).to_multiset() == s.to_multiset(),
{
    broadcast use {vstd::multiset::group_multiset_axioms, vstd::seq_lib::group_to_multiset_ensures};
    vstd::seq_lib::to_multiset_update(s, i, s[j]);
    vstd::seq_lib::to_multiset_update(s.update(i, s[j]), j, s[i]);
    if i == j {
        assert(swapped(s, i, j) =~= s);
    } else {
        assert(s.to_multiset().contains(s[i])) by { assert(s.contains(s[i])); }
        assert(swapped(s, i, j).to_multiset() =~= s.to_multiset());
    }
}

/// A shuffle moves cards and neither adds nor loses one.
pub proof fn shuffle_keeps_cards(s: Seq<Card>, picks: Seq<usize>, done: nat)
    requires
        valid_picks(s.len() as int, picks),
        done <= picks.len(),
    ensures
        fisher_yates(s, picks, done).len() == s.len(),
        fisher_yates(s, picks, done).to_multiset() == s.to_multiset(),
    decreases done,
{
    if done > 0 {
        let k = (done - 1) as nat;
        shuffle_keeps_cards(s, picks, k);
        swapped_keeps_items(fisher_yates(s, picks, k), s.len() - 1 - k, picks[k as int] as int);
    }
}

/// The ordered deck holds valid cards, no card twice, and every card from the
/// mode's lowest rank up.
pub proof fn ordered_deck_is_the_deck(mode: DeckMode)
    ensures
        ordered_deck(mode).no_duplicates(),
        forall|i: int| 0 <= i < mode.size() ==> (#[trigger] ordered_deck(mode)[i]).valid(),
        forall|c: Card| #[trigger] ordered_deck(mode).contains(c) <==> mode.low() <= c.rank.0 <= 14,
{
    let d = ordered_deck(mode);
    assert forall|i: int, j: int| 0 <= i < d.len() && 0 <= j < d.len() && i != j implies d[i] != d[j] by {
        assert(d[i].number() == (mode.low() - 2) * 4 + i);
        assert(d[j].number() == (mode.low() - 2) * 4 + j);
    }
    assert forall|c: Card| mode.low() <= c.rank.0 <= 14 implies #[trigger] d.contains(c) by {
        let i = (c.rank.0 - mode.low()) * 4 + c.suit.number();
        assert(0 <= i < d.len());
        assert(i / 4 == c.rank.0 - mode.low());
        assert(i % 4 == c.suit.number());
        assert(d[i] == c);
    }
}

/// A number drawn at random from `0..=i`, by [`fastrand::usize`]: nothing is
/// claimed of it but that it lies in that range.
#[verifier::external_body]
pub(crate) fn random_up_to(i: usize) -> (r: usize)
    ensures
        r <= i,
{
    fastrand::usize(0..=i)
}

/// The vector of the `smallvec` crate that keeps its first items inline.
#[verifier::external_type_specification]
#[verifier::external_body]
#[verifier::reject_recursive_types(T)]
pub struct ExSmallVec<T, const N: usize>(SmallVec<T, N>);

/// The cards that a small vector holds, in order.
pub uninterp spec fn held_cards(v: SmallVec<Card, 52>) -> Seq<Card>;

/// `SmallVec::with_capacity` gives a vector that holds nothing.
#[verifier::external_body]
fn small_with_capacity(capacity: usize) -> (r: SmallVec<Card, 52>)
    requires
        capacity <= 52,
    ensures
        held_cards(r) == Seq::<Card>::empty(),
{
    SmallVec::with_capacity(capacity)
}

/// `SmallVec::push` puts the card behind those that are there.
#[verifier::external_body]
fn small_push(v: &mut SmallVec<Card, 52>, c: Card)
    requires
        held_cards(*old(v)).len() < 52,
    ensures
        held_cards(*final(v)) == held_cards(*old(v)).push(c),
{
    v.push(c);
}

/// `SmallVec::len` counts what the vector holds.
#[verifier::external_body]
fn small_len(v: &SmallVec<Card, 52>) -> (r: usize)
    ensures
        r == held_cards(*v).len(),
{
    v.len()
}

/// `swap`, which a small vector has as a slice, exchanges two of its cards.
#[verifier::external_body]
fn small_swap(v: &mut SmallVec<Card, 52>, i: usize, j: usize)
    requires
        i < held_cards(*old(v)).len(),
        j < held_cards(*old(v)).len(),
    ensures
        held_cards(*final(v)) == swapped(held_cards(*old(v)), i as int, j as int),
{
    v.swap(i, j);
}

/// `SmallVec::into_vec` hands the cards out in order.
#[verifier::external_body]
fn small_into_vec(v: SmallVec<Card, 52>) -> (r: Vec<Card>)
    ensures
        r@ == held_cards(v),
{
    v.into_vec()
}

/// In-memory deck used to draw hole and community cards during a hand: a stack
/// whose top is the last card.
#[derive(Debug, Clone)]
pub struct Deck {
    cards: Vec<Card>,
}

impl View for Deck {
    type V = Seq<Card>;

    closed spec fn view(&self) -> Seq<Card> {
        self.cards@
    }
}

impl Deck {
    /// A freshly shuffled deck: some shuffle of the ordered deck, so that it
    /// holds each of the mode's cards once.
    pub fn shuffled(mode: DeckMode) -> (r: Self)
        ensures
            exists|picks: Seq<usize>| #[trigger] valid_picks(mode.size(), picks)
                && r@ == fisher_yates(ordered_deck(mode), picks, picks.len()),
            r@.len() == mode.size(),
            r@.to_multiset() == ordered_deck(mode).to_multiset(),
    {
        let n: usize = (15 - mode.lowest_rank() as usize) * 4;
        let mut picks: Vec<usize> = Vec::new();
        let mut i: usize = n - 1;
        while i > 0
            invariant
                n == mode.size(),
                i < n,
                picks@.len() == n - 1 - i,
                forall|k: int| 0 <= k < picks@.len() ==> #[trigger] picks@[k] <= n - 1 - k,
            decreases i,
        {
            picks.push(random_up_to(i));
            i = i - 1;
        }
        let deck = Deck::shuffled_by(mode, &picks);
        proof {
            assert(valid_picks(mode.size(), picks@));
            shuffle_keeps_cards(ordered_deck(mode), picks@, picks@.len());
        }
        deck
    }

    /// The deck that the given picks shuffle the ordered deck into.
    pub fn shuffled_by(mode: DeckMode, picks: &Vec<usize>) -> (r: Self)
        requires
            valid_picks(mode.size(), picks@),
        ensures
            r@ == fisher_yates(ordered_deck(mode), picks@, picks@.len()),
    {
        let low = mode.lowest_rank();
        let cap: usize = (15 - low as usize) * 4;
        let mut cards = small_with_capacity(cap);
        let mut r: u8 = low;
        while r <= 14
            invariant
                low == mode.low(),
                low <= r <= 15,
                held_cards(cards) =~= ordered_deck(mode).take((r - low) * 4),
            decreases 15 - r,
        {
            small_push(&mut cards, Card { rank: Rank(r), suit: Suit::Spades });
            small_push(&mut cards, Card { rank: Rank(r), suit: Suit::Hearts });
            small_push(&mut cards, Card { rank: Rank(r), suit: Suit::Diamonds });
            small_push(&mut cards, Card { rank: Rank(r), suit: Suit::Clubs });
            r = r + 1;
        }
        assert(held_cards(cards) =~= ordered_deck(mode));
        let n = small_len(&cards);
        let mut k: usize = 0;
        while k < n - 1
            invariant
                n == mode.size() == held_cards(cards).len(),
                k <= n - 1,
                valid_picks(mode.size(), picks@),
                held_cards(cards) == fisher_yates(ordered_deck(mode), picks@, k as nat),
            decreases n - k,
        {
            small_swap(&mut cards, n - 1 - k, picks[k]);
            k = k + 1;
        }
        Deck { cards: small_into_vec(cards) }
    }

    /// A deck with exactly these cards, the last on top.
    pub fn from_cards(cards: Vec<Card>) -> (r: Self)
        ensures
            r@ == cards@,
    {
        Deck { cards }
    }

    /// The cards left, the last on top.
    pub fn cards(&self) -> (r: &Vec<Card>)
        ensures
            r@ == self@,
    {
        &self.cards
    }

    pub fn draw(&mut self) -> (r: Option<Card>)
        ensures
            old(self)@.len() == 0 ==> r is None && final(self)@ == old(self)@,
            old(self)@.len() > 0 ==> r == Some(old(self)@.last())
                && final(self)@ == old(self)@.drop_last(),
    {
        self.cards.pop()
    }

    /// Draw `n` cards, or what is left if there are fewer, in the order in
    /// which single draws would give them.
    pub fn draw_n(&mut self, n: usize) -> (r: Vec<Card>)
        ensures
            ({
                let k = if n <= old(self)@.len() { n as int } else { old(self)@.len() as int };
                &&& final(self)@ == old(self)@.take(old(self)@.len() - k)
                &&& r@ == old(self)@.skip(old(self)@.len() - k).reverse()
            }),
    {
        let mut out: Vec<Card> = Vec::new();
        let ghost all = self@;
        let mut i: usize = 0;
        while i < n
            invariant
                all == old(self)@,
                i <= n,
                out@.len() == i <= all.len(),
                self@ == all.take(all.len() - i),
                out@ == all.skip(all.len() - i).reverse(),
            decreases n - i,
        {
            match self.cards.pop() {
                Some(c) => {
                    out.push(c);
                    i = i + 1;
                    assert(self@ =~= all.take(all.len() - i));
                    assert(out@ =~= all.skip(all.len() - i).reverse());
                },
                None => {
                    return out;
                },
            }
        }
        out
    }
}

} // verus!
