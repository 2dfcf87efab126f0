//! Monte-Carlo equity: how often a player's hole cards win at showdown.
//!
//! Given the hole cards, the revealed community cards and the number of
//! opponents still in the hand, random complete deals are played out and
//! scored. A win counts two half-wins, a tie for the best hand one. The win
//! rate is the number of half-wins over twice the number of deals.

use vstd::prelude::*;
use rand::seq::SliceRandom;
use super::card::{ordered_deck, Card, Rank, Suit};
use super::hand::{evaluate, hand_value, HandRank};
use super::DeckMode;

verus! {

/// Every card of the mode's deck, in order of rank, then suit.
pub fn full_deck(mode: DeckMode) -> (r: Vec<Card>)
    ensures
        r@ == ordered_deck(mode),
{
    let low = mode.lowest_rank();
    let mut cards: Vec<Card> = Vec::with_capacity(52);
    let mut r: u8 = low;
    while r <= 14
        invariant
            low == mode.low(),
            low <= r <= 15,
            cards@ =~= ordered_deck(mode).take((r - low) * 4),
        decreases 15 - r,
    {
        cards.push(Card { rank: Rank(r), suit: Suit::Spades });
        cards.push(Card { rank: Rank(r), suit: Suit::Hearts });
        cards.push(Card { rank: Rank(r), suit: Suit::Diamonds });
        cards.push(Card { rank: Rank(r), suit: Suit::Clubs });
        r = r + 1;
    }
    assert(cards@ =~= ordered_deck(mode));
    cards
}

/// The cards of the first sequence that are not in the second, in order.
pub open spec fn without(cards: Seq<Card>, used: Seq<Card>) -> Seq<Card>
    decreases cards.len(),
{
    if cards.len() == 0 {
        Seq::empty()
    } else if used.contains(cards.last()) {
        without(cards.drop_last(), used)
    } else {
        without(cards.drop_last(), used).push(cards.last())
    }
}

fn holds(cards: &[Card], c: Card) -> (r: bool)
    ensures
        r == cards@.contains(c),
{
    let mut i: usize = 0;
    while i < cards.len()
        invariant
            i <= cards@.len(),
            forall|j: int| 0 <= j < i ==> cards@[j] != c,
        decreases cards@.len() - i,
    {
        if cards[i] == c {
            assert(cards@[i as int] == c);
            return true;
        }
        i = i + 1;
    }
    false
}

/// The cards of the deck that are neither in the hole nor on the board.
fn unseen(hole: &[Card], community: &[Card], mode: DeckMode) -> (r: Vec<Card>)
    ensures
        r@ == without(ordered_deck(mode), hole@ + community@),
        r@.len() <= 52,
{
    let deck = full_deck(mode);
    let mut out: Vec<Card> = Vec::new();
    let mut i: usize = 0;
    while i < deck.len()
        invariant
            deck@ == ordered_deck(mode),
            i <= deck@.len() <= 52,
            out@ == without(deck@.take(i as int), hole@ + community@),
            out@.len() <= i,
        decreases deck@.len() - i,
    {
        let c = deck[i];
        let used = holds(hole, c) || holds(community, c);
        proof {
            assert((hole@ + community@).contains(c) <==> used) by {
                if hole@.contains(c) {
                    let n = choose|n: int| 0 <= n < hole@.len() && hole@[n] == c;
                    assert((hole@ + community@)[n] == c);
                }
                if community@.contains(c) {
                    let n = choose|n: int| 0 <= n < community@.len() && community@[n] == c;
                    assert((hole@ + community@)[hole@.len() + n] == c);
                }
            }
            assert(deck@.take(i + 1).drop_last() =~= deck@.take(i as int));
        }
        if !used {
            out.push(c);
        }
        i = i + 1;
    }
    assert(deck@.take(deck@.len() as int) =~= deck@);
    out
}

proof fn without_is_picked(cards: Seq<Card>, used: Seq<Card>)
    ensures
        forall|i: int| 0 <= i < without(cards, used).len() ==> cards.contains(#[trigger] without(cards, used)[i]),
    decreases cards.len(),
{
    if cards.len() > 0 {
        let rest = cards.drop_last();
        without_is_picked(rest, used);
        let w = without(cards, used);
        assert forall|i: int| 0 <= i < w.len() implies cards.contains(#[trigger] w[i]) by {
            if i < without(rest, used).len() {
                assert(w[i] == without(rest, used)[i]);
                let n = choose|n: int| 0 <= n < rest.len() && rest[n] == w[i];
                assert(cards[n] == w[i]);
            } else {
                assert(cards[cards.len() - 1] == w[i]);
            }
        }
    }
}

/// The board once the missing community cards have been dealt from behind the
/// opponents' hole cards.
pub open spec fn full_board(community: Seq<Card>, rest: Seq<Card>, n_opponents: int) -> Seq<Card> {
    let need = if community.len() < 5 { 5 - community.len() } else { 0 };
    community + rest.subrange(2 * n_opponents, 2 * n_opponents + need)
}

/// What opponent number `i` has at showdown.
pub open spec fn opponent_value(community: Seq<Card>, rest: Seq<Card>, n_opponents: int, i: int, mode: DeckMode) -> HandRank {
    hand_value(seq![rest[2 * i], rest[2 * i + 1]] + full_board(community, rest, n_opponents), mode)
}

/// The half-wins of one deal: none if some opponent has the better hand, one if
/// the best of them has an equal hand, else two.
pub open spec fn deal_points(hole: Seq<Card>, community: Seq<Card>, rest: Seq<Card>, n_opponents: int, mode: DeckMode) -> nat {
    let hero = hand_value(hole + full_board(community, rest, n_opponents), mode);
    if exists|i: int| 0 <= i < n_opponents && (#[trigger] opponent_value(community, rest, n_opponents, i, mode)).score()
        > hero.score() {
        0
    } else if exists|i: int| 0 <= i < n_opponents && (#[trigger] opponent_value(community, rest, n_opponents, i, mode)).score()
        == hero.score() {
        1
    } else {
        2
    }
}

/// Play one deal out, with the unseen cards in the order `rest`, and score it.
pub fn score_deal(hole: &[Card], community: &[Card], rest: &Vec<Card>, n_opponents: usize, mode: DeckMode) -> (r: u64)
    requires
        hole@.len() == 2,
        community@.len() <= 5,
        n_opponents >= 1,
        2 * n_opponents + 5 - community@.len() <= rest@.len(),
        forall|i: int| 0 <= i < hole@.len() ==> (#[trigger] hole@[i]).valid(),
        forall|i: int| 0 <= i < community@.len() ==> (#[trigger] community@[i]).valid(),
        forall|i: int| 0 <= i < rest@.len() ==> (#[trigger] rest@[i]).valid(),
    ensures
        r == deal_points(hole@, community@, rest@, n_opponents as int, mode),
{
    let ghost board = full_board(community@, rest@, n_opponents as int);
    let need: usize = 5usize.saturating_sub(community.len());
    let unseen: usize = rest.len();
    let mut full: Vec<Card> = Vec::with_capacity(5);
    full.extend_from_slice(community);
    let mut j: usize = 0;
    while j < need
        invariant
            j <= need <= 5,
            need == 5 - community@.len(),
            2 * n_opponents + need <= rest@.len() == unseen,
            full@ =~= community@ + rest@.subrange(2 * n_opponents, 2 * n_opponents + j),
        decreases need - j,
    {
        full.push(rest[2 * n_opponents + j]);
        j = j + 1;
    }
    assert(full@ =~= board);
    assert forall|i: int| 0 <= i < 5 implies (#[trigger] board[i]).valid() by {
        if i < community@.len() {
            assert(board[i] == community@[i]);
        } else {
            assert(board[i] == rest@[2 * n_opponents + i - community@.len()]);
        }
    }
    let mut seven: Vec<Card> = Vec::with_capacity(7);
    seven.extend_from_slice(hole);
    seven.extend_from_slice(full.as_slice());
    assert(seven@ =~= hole@ + board);
    let hero = evaluate(seven.as_slice(), mode);
    let mut best: u64 = 2;
    let mut i: usize = 0;
    while i < n_opponents
        invariant
            i <= n_opponents,
            2 * n_opponents <= rest@.len() == unseen,
            full@ == board,
            board == full_board(community@, rest@, n_opponents as int),
            board.len() == 5,
            forall|i: int| 0 <= i < 5 ==> (#[trigger] board[i]).valid(),
            forall|i: int| 0 <= i < rest@.len() ==> (#[trigger] rest@[i]).valid(),
            hero == hand_value(hole@ + board, mode),
            best <= 2,
            best == 0 ==> exists|k: int| 0 <= k < i && (#[trigger] opponent_value(community@, rest@, n_opponents as int, k, mode)).score()
                > hero.score(),
            best > 0 ==> forall|k: int| 0 <= k < i ==> (#[trigger] opponent_value(community@, rest@, n_opponents as int, k, mode)).score()
                <= hero.score(),
            best == 1 ==> exists|k: int| 0 <= k < i && (#[trigger] opponent_value(community@, rest@, n_opponents as int, k, mode)).score()
                == hero.score(),
            best == 2 ==> forall|k: int| 0 <= k < i ==> (#[trigger] opponent_value(community@, rest@, n_opponents as int, k, mode)).score()
                < hero.score(),
        decreases n_opponents - i,
    {
        seven.clear();
        seven.push(rest[2 * i]);
        seven.push(rest[2 * i + 1]);
        seven.extend_from_slice(full.as_slice());
        assert(seven@ =~= seq![rest@[2 * i], rest@[2 * i + 1]] + board);
        let r = evaluate(seven.as_slice(), mode);
        assert(r == opponent_value(community@, rest@, n_opponents as int, i as int, mode));
        if r > hero {
            best = 0;
        } else if r == hero && best == 2 {
            best = 1;
        }
        i = i + 1;
    }
    best
}

/// `SliceRandom::shuffle` with the thread's generator puts the cards into a
/// random order; it neither adds nor loses one.
#[verifier::external_body]
fn shuffle(cards: &mut Vec<Card>)
    ensures
        final(cards)@.to_multiset() == old(cards)@.to_multiset(),
        final(cards)@.len() == old(cards)@.len(),
{
    cards.shuffle(&mut rand::rng());
}

/// The half-wins of several deals together.
pub open spec fn total_points(hole: Seq<Card>, community: Seq<Card>, deals: Seq<Seq<Card>>, n_opponents: int, mode: DeckMode) -> nat
    decreases deals.len(),
{
    if deals.len() == 0 {
        0
    } else {
        total_points(hole, community, deals.drop_last(), n_opponents, mode) + deal_points(
            hole,
            community,
            deals.last(),
            n_opponents,
            mode,
        )
    }
}

/// Whether deals can be simulated: two hole cards, opponents, and enough unseen
/// cards for everyone.
pub open spec fn can_simulate(hole: Seq<Card>, community: Seq<Card>, n_opponents: int, iterations: int, mode: DeckMode) -> bool {
    &&& hole.len() == 2
    &&& n_opponents > 0
    &&& iterations > 0
    &&& 2 * n_opponents + 5 - community.len() <= without(ordered_deck(mode), hole + community).len()
}

/// The half-wins out of `iterations` random deals; the win rate is this over
/// `2 * iterations`. Without two hole cards, opponents, deals to play, or enough
/// unseen cards there is nothing to win.
pub fn equity(hole: &[Card], community: &[Card], n_opponents: usize, iterations: u32, mode: DeckMode) -> (half_wins: u64)
    requires
        hole@.len() == 2 && n_opponents > 0 && iterations > 0 ==> {
            &&& community@.len() <= 5
            &&& forall|i: int| 0 <= i < hole@.len() ==> (#[trigger] hole@[i]).valid()
            &&& forall|i: int| 0 <= i < community@.len() ==> (#[trigger] community@[i]).valid()
        },
    ensures
        !can_simulate(hole@, community@, n_opponents as int, iterations as int, mode) ==> half_wins == 0,
        can_simulate(hole@, community@, n_opponents as int, iterations as int, mode) ==> exists|deals: Seq<Seq<Card>>|
            {
                &&& deals.len() == iterations
                &&& forall|k: int| 0 <= k < deals.len() ==> (#[trigger] deals[k]).to_multiset() == without(
                    ordered_deck(mode),
                    hole@ + community@,
                ).to_multiset()
                &&& half_wins == #[trigger] total_points(hole@, community@, deals, n_opponents as int, mode)
            },
        half_wins <= 2 * iterations,
{
    if hole.len() != 2 || n_opponents == 0 || iterations == 0 {
        return 0;
    }
    let need: usize = 5usize.saturating_sub(community.len());
    let mut rest = unseen(hole, community, mode);
    if n_opponents > rest.len() || rest.len() < 2 * n_opponents + need {
        return 0;
    }
    let ghost first = rest@;
    let ghost mut deals: Seq<Seq<Card>> = Seq::empty();
    proof {
        super::card::ordered_deck_is_the_deck(mode);
        without_is_picked(ordered_deck(mode), hole@ + community@);
    }
    let mut score: u64 = 0;
    let mut k: u32 = 0;
    while k < iterations
        invariant
            k <= iterations,
            hole@.len() == 2,
            community@.len() <= 5,
            n_opponents >= 1,
            first == without(ordered_deck(mode), hole@ + community@),
            rest@.to_multiset() == first.to_multiset(),
            2 * n_opponents + 5 - community@.len() <= rest@.len(),
            forall|i: int| 0 <= i < hole@.len() ==> (#[trigger] hole@[i]).valid(),
            forall|i: int| 0 <= i < community@.len() ==> (#[trigger] community@[i]).valid(),
            forall|i: int| 0 <= i < first.len() ==> (#[trigger] first[i]).valid(),
            deals.len() == k,
            forall|k: int| 0 <= k < deals.len() ==> (#[trigger] deals[k]).to_multiset() == first.to_multiset(),
            score == total_points(hole@, community@, deals, n_opponents as int, mode),
            score <= 2 * k,
        decreases iterations - k,
    {
        shuffle(&mut rest);
        proof {
            broadcast use vstd::seq_lib::group_to_multiset_ensures;
            assert forall|i: int| 0 <= i < rest@.len() implies (#[trigger] rest@[i]).valid() by {
                assert(rest@.contains(rest@[i]));
                assert(rest@.to_multiset().count(rest@[i]) > 0);
                assert(first.contains(rest@[i]));
                let n = choose|n: int| 0 <= n < first.len() && first[n] == rest@[i];
                assert(first[n].valid());
            }
        }
        let points = score_deal(hole, community, &rest, n_opponents, mode);
        score = score + points;
        proof {
            let more = deals.push(rest@);
            assert(more.drop_last() =~= deals);
            deals = more;
        }
        k = k + 1;
    }
    score
}

} // verus!
