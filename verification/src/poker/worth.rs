//! What decks, hands and deals are worth: what a deck holds, how two hands compare,
//! and what a deal counts.

use vstd::prelude::*;
use vstd::string::*;
use super::card::{fisher_yates, ordered_deck, ordered_deck_is_the_deck, shuffle_keeps_cards, swapped, valid_picks};
use super::equity::{can_simulate, deal_points, full_board, opponent_value, total_points, without};
use super::hand::{category_title, hand_value, remapped, HandRank};
use super::{Card, DeckMode};

verus! {

// ---- decks ----

/// The standard deck holds each of the 52 cards once; the short deck has 36, none of
/// them below six.
pub proof fn what_a_deck_holds(mode: DeckMode, c: Card)
    ensures
        ordered_deck(mode).no_duplicates(),
        ordered_deck(DeckMode::Standard).len() == 52,
        ordered_deck(DeckMode::ShortDeck).len() == 36,
        ordered_deck(DeckMode::Standard).contains(c) <==> 2 <= c.rank.0 <= 14,
        ordered_deck(DeckMode::ShortDeck).contains(c) <==> 6 <= c.rank.0 <= 14,
{
    ordered_deck_is_the_deck(mode);
    ordered_deck_is_the_deck(DeckMode::Standard);
    ordered_deck_is_the_deck(DeckMode::ShortDeck);
}

/// A place that has been dealt with keeps its card.
proof fn the_top_is_settled(s: Seq<Card>, picks: Seq<usize>, k: nat, done: nat)
    requires
        valid_picks(s.len() as int, picks),
        k < done <= picks.len(),
    ensures
        fisher_yates(s, picks, done)[s.len() - 1 - k] == fisher_yates(s, picks, k)[picks[k as int] as int],
    decreases done,
{
    shuffle_keeps_cards(s, picks, (done - 1) as nat);
    let x = fisher_yates(s, picks, (done - 1) as nat);
    let i = s.len() - 1 - (done - 1);
    let j = picks[done - 1] as int;
    assert(picks[done - 1] <= s.len() - 1 - (done - 1));
    if k < done - 1 {
        the_top_is_settled(s, picks, k, (done - 1) as nat);
        assert(swapped(x, i, j)[s.len() - 1 - k] == x[s.len() - 1 - k]);
    } else {
        assert(swapped(x, i, j)[i] == x[j]);
    }
}

proof fn swapping_keeps_apart(s: Seq<Card>, i: int, j: int)
    requires
        s.no_duplicates(),
        0 <= i < s.len(),
        0 <= j < s.len(),
    ensures
        swapped(s, i, j).no_duplicates(),
{
    let t = swapped(s, i, j);
    assert forall|a: int, b: int| 0 <= a < t.len() && 0 <= b < t.len() && a != b implies t[a] != t[b] by {
        let pa = if a == i { j } else if a == j { i } else { a };
        let pb = if b == i { j } else if b == j { i } else { b };
        assert(t[a] == s[pa] && t[b] == s[pb] && pa != pb);
    }
}

proof fn shuffling_keeps_apart(s: Seq<Card>, picks: Seq<usize>, done: nat)
    requires
        s.no_duplicates(),
        valid_picks(s.len() as int, picks),
        done <= picks.len(),
    ensures
        fisher_yates(s, picks, done).no_duplicates(),
    decreases done,
{
    if done > 0 {
        let k = (done - 1) as nat;
        shuffling_keeps_apart(s, picks, k);
        shuffle_keeps_cards(s, picks, k);
        assert(picks[k as int] <= s.len() - 1 - k);
        swapping_keeps_apart(fisher_yates(s, picks, k), s.len() - 1 - k, picks[k as int] as int);
    }
}

proof fn picks_agree(s: Seq<Card>, a: Seq<usize>, b: Seq<usize>, k: nat)
    requires
        s.no_duplicates(),
        valid_picks(s.len() as int, a),
        valid_picks(s.len() as int, b),
        k <= a.len(),
        fisher_yates(s, a, a.len()) == fisher_yates(s, b, b.len()),
    ensures
        forall|j: int| 0 <= j < k ==> a[j] == b[j],
        fisher_yates(s, a, k) == fisher_yates(s, b, k),
    decreases k,
{
    if k > 0 {
        let m = (k - 1) as nat;
        picks_agree(s, a, b, m);
        the_top_is_settled(s, a, m, a.len());
        the_top_is_settled(s, b, m, b.len());
        let x = fisher_yates(s, a, m);
        shuffling_keeps_apart(s, a, m);
        shuffle_keeps_cards(s, a, m);
        assert(a[m as int] <= s.len() - 1 - m && b[m as int] <= s.len() - 1 - m);
        assert(x[a[m as int] as int] == x[b[m as int] as int]);
    }
}

/// Different picks shuffle a deck into different orders. So each order comes of one
/// series of picks, and no order is likelier than another.
pub proof fn different_picks_shuffle_differently(mode: DeckMode, a: Seq<usize>, b: Seq<usize>)
    requires
        valid_picks(mode.size(), a),
        valid_picks(mode.size(), b),
        fisher_yates(ordered_deck(mode), a, a.len()) == fisher_yates(ordered_deck(mode), b, b.len()),
    ensures
        a == b,
{
    ordered_deck_is_the_deck(mode);
    picks_agree(ordered_deck(mode), a, b, a.len());
    assert(a =~= b);
}

// ---- hands ----

/// Of two hands the one with the better category wins; between equal categories the
/// first kicker in which they differ decides.
pub open spec fn beats(a: HandRank, b: HandRank) -> bool {
    ||| a.category > b.category
    ||| a.category == b.category && exists|k: int|
        0 <= k < 5 && a.kickers[k] > b.kickers[k] && forall|j: int| 0 <= j < k ==> #[trigger] a.kickers[j] == b.kickers[j]
}

/// One hand beats another exactly when its score is higher.
pub proof fn the_first_difference_decides(a: HandRank, b: HandRank)
    ensures
        a.score() > b.score() <==> beats(a, b),
{
    let k = if a.kickers[0] != b.kickers[0] {
        0int
    } else if a.kickers[1] != b.kickers[1] {
        1
    } else if a.kickers[2] != b.kickers[2] {
        2
    } else if a.kickers[3] != b.kickers[3] {
        3
    } else {
        4
    };
    assert(forall|j: int| 0 <= j < k ==> #[trigger] a.kickers[j] == b.kickers[j]);
    if a.category == b.category && a.kickers[k] > b.kickers[k] {
        assert(beats(a, b));
    }
    if beats(a, b) && a.category == b.category {
        let m = choose|m: int|
            0 <= m < 5 && a.kickers[m] > b.kickers[m] && forall|j: int| 0 <= j < m ==> #[trigger] a.kickers[j] == b.kickers[j];
        if m > k {
            assert(a.kickers[k] == b.kickers[k]);
        }
    }
}

/// Each kind of hand has its name, whichever category it has in the deck at hand.
pub proof fn hands_are_called_by_their_names(mode: DeckMode)
    ensures
        category_title(0, mode) == "高牌"@,
        category_title(1, mode) == "对子"@,
        category_title(2, mode) == "两对"@,
        category_title(remapped(3, mode), mode) == "三条"@,
        category_title(remapped(4, mode), mode) == "顺子"@,
        category_title(remapped(5, mode), mode) == "同花"@,
        category_title(remapped(6, mode), mode) == "葫芦"@,
        category_title(7, mode) == "四条"@,
        category_title(8, mode) == "同花顺"@,
        category_title(9, mode) == "皇家同花顺"@,
{
}

/// With the standard deck a flush loses to a full house and three of a kind to a
/// straight; with the short deck it is the other way round. All other hands stand as
/// they are.
pub proof fn how_the_hands_stand(mode: DeckMode)
    ensures
        2 < remapped(3, mode) < 7 && 2 < remapped(4, mode) < 7 && 2 < remapped(5, mode) < 7 && 2 < remapped(6, mode) < 7,
        remapped(3, mode) < remapped(5, mode) && remapped(3, mode) < remapped(6, mode),
        remapped(4, mode) < remapped(5, mode) && remapped(4, mode) < remapped(6, mode),
        mode == DeckMode::Standard ==> remapped(3, mode) < remapped(4, mode) && remapped(5, mode) < remapped(6, mode),
        mode == DeckMode::ShortDeck ==> remapped(4, mode) < remapped(3, mode) && remapped(6, mode) < remapped(5, mode),
{
}

// ---- deals ----

/// The cards nobody has seen are those of the deck without the ones that were: each
/// once, and in the order of the deck.
pub proof fn what_is_unseen(cards: Seq<Card>, used: Seq<Card>, c: Card)
    ensures
        without(cards, used).contains(c) <==> cards.contains(c) && !used.contains(c),
        cards.no_duplicates() ==> without(cards, used).no_duplicates(),
        without(cards, used).len() <= cards.len(),
    decreases cards.len(),
{
    if cards.len() > 0 {
        let rest = cards.drop_last();
        what_is_unseen(rest, used, c);
        what_is_unseen(rest, used, cards.last());
        let a = without(rest, used);
        let b = without(cards, used);
        assert(cards[cards.len() - 1] == cards.last());
        if b.contains(c) {
            let k = choose|k: int| 0 <= k < b.len() && b[k] == c;
            if k < a.len() {
                assert(a[k] == c);
                assert(a.contains(c));
                let l = choose|l: int| 0 <= l < rest.len() && rest[l] == c;
                assert(cards[l] == c);
            }
        }
        if cards.contains(c) && !used.contains(c) {
            let l = choose|l: int| 0 <= l < cards.len() && cards[l] == c;
            if l < rest.len() {
                assert(rest[l] == c);
                assert(a.contains(c));
                let k = choose|k: int| 0 <= k < a.len() && a[k] == c;
                assert(b[k] == c);
            } else {
                assert(b[b.len() - 1] == c);
            }
        }
        if cards.no_duplicates() {
            assert(rest.no_duplicates()) by {
                assert forall|i: int, j: int| 0 <= i < rest.len() && 0 <= j < rest.len() && i != j implies rest[i] != rest[j] by {
                    assert(cards[i] != cards[j]);
                }
            }
            assert(!rest.contains(cards.last())) by {
                if rest.contains(cards.last()) {
                    let l = choose|l: int| 0 <= l < rest.len() && rest[l] == cards.last();
                    assert(cards[l] != cards[cards.len() - 1]);
                }
            }
            assert(!a.contains(cards.last()));
            assert forall|i: int, j: int| 0 <= i < b.len() && 0 <= j < b.len() && i != j implies b[i] != b[j] by {
                if i < a.len() {
                    assert(a.contains(a[i]));
                }
                if j < a.len() {
                    assert(a.contains(a[j]));
                }
            }
        }
    }
}

/// In a deal each opponent holds two cards of their own, and all share one board of
/// five that begins with the community cards.
pub proof fn how_a_deal_lies(community: Seq<Card>, rest: Seq<Card>, n: int, k: int)
    requires
        n >= 1,
        community.len() <= 5,
        2 * n + 5 - community.len() <= rest.len(),
        0 <= k < 5,
    ensures
        full_board(community, rest, n).len() == 5,
        k < community.len() ==> full_board(community, rest, n)[k] == community[k],
        k >= community.len() ==> full_board(community, rest, n)[k] == rest[2 * n + k - community.len()],
{
}

/// A deal counts two points where the hand beats every opponent's, none where an
/// opponent beats it, and one where it is level with the best of them.
pub proof fn what_a_deal_counts(hole: Seq<Card>, community: Seq<Card>, rest: Seq<Card>, n: int, mode: DeckMode)
    requires
        n >= 1,
    ensures
        ({
            let board = full_board(community, rest, n);
            let mine = hand_value(hole + board, mode).score();
            let points = deal_points(hole, community, rest, n, mode);
            &&& points == 2 <==> forall|i: int| 0 <= i < n ==> mine > hand_value(
                seq![#[trigger] rest[2 * i], rest[2 * i + 1]] + board,
                mode,
            ).score()
            &&& points == 0 <==> exists|i: int| 0 <= i < n && mine < hand_value(
                seq![#[trigger] rest[2 * i], rest[2 * i + 1]] + board,
                mode,
            ).score()
            &&& points <= 2
        }),
{
    let board = full_board(community, rest, n);
    let mine = hand_value(hole + board, mode).score();
    let points = deal_points(hole, community, rest, n, mode);
    if points == 2 {
        assert forall|i: int| 0 <= i < n implies mine > hand_value(seq![#[trigger] rest[2 * i], rest[2 * i + 1]] + board, mode).score() by {
            assert(opponent_value(community, rest, n, i, mode).score() <= mine);
        }
    }
    if points == 0 {
        let i = choose|i: int| 0 <= i < n && (#[trigger] opponent_value(community, rest, n, i, mode)).score() > mine;
        let first = rest[2 * i];
        assert(mine < hand_value(seq![first, rest[2 * i + 1]] + board, mode).score());
    }
    if points == 1 {
        let i = choose|i: int| 0 <= i < n && (#[trigger] opponent_value(community, rest, n, i, mode)).score() == mine;
        let first = rest[2 * i];
        assert(mine == hand_value(seq![first, rest[2 * i + 1]] + board, mode).score());
        assert forall|i: int| 0 <= i < n implies !(mine < hand_value(seq![#[trigger] rest[2 * i], rest[2 * i + 1]] + board, mode).score()) by {
            assert(opponent_value(community, rest, n, i, mode).score() <= mine);
        }
    }
}

/// Deals count together what each of them counts.
pub proof fn deals_are_added_up(hole: Seq<Card>, community: Seq<Card>, deals: Seq<Seq<Card>>, d: Seq<Card>, n: int, mode: DeckMode)
    ensures
        total_points(hole, community, Seq::empty(), n, mode) == 0,
        total_points(hole, community, deals.push(d), n, mode) == total_points(hole, community, deals, n, mode) + deal_points(
            hole,
            community,
            d,
            n,
            mode,
        ),
{
    assert(deals.push(d).drop_last() =~= deals);
}

/// Deals can be played with two hole cards, against at least one opponent, as long as the
/// deck has cards for them and for the rest of the board.
pub proof fn when_deals_can_be_played(hole: Seq<Card>, community: Seq<Card>, n: int, iterations: int, mode: DeckMode)
    requires
        (hole + community).no_duplicates(),
        forall|i: int| 0 <= i < (hole + community).len() ==> ordered_deck(mode).contains(#[trigger] (hole + community)[i]),
    ensures
        can_simulate(hole, community, n, iterations, mode) <==> hole.len() == 2 && n > 0 && iterations > 0 && 2 + 2 * n + 5
            <= if mode == DeckMode::Standard { 52int } else { 36int },
{
    let deck = ordered_deck(mode);
    let used = hole + community;
    let left = without(deck, used);
    ordered_deck_is_the_deck(mode);
    assert forall|c: Card| #[trigger] left.contains(c) <==> deck.contains(c) && !used.contains(c) by {
        what_is_unseen(deck, used, c);
    }
    if deck.len() > 0 {
        what_is_unseen(deck, used, deck[0]);
    }
    deck.unique_seq_to_set();
    used.unique_seq_to_set();
    left.unique_seq_to_set();
    assert(left.to_set().disjoint(used.to_set())) by {
        assert forall|c: Card| left.to_set().contains(c) implies !used.to_set().contains(c) by {
            assert(left.contains(c));
        }
    }
    assert(left.to_set() + used.to_set() =~= deck.to_set()) by {
        assert forall|c: Card| (left.to_set() + used.to_set()).contains(c) <==> deck.to_set().contains(c) by {
            assert(left.contains(c) <==> deck.contains(c) && !used.contains(c));
            if used.contains(c) {
                let i = choose|i: int| 0 <= i < used.len() && used[i] == c;
                assert(deck.contains(used[i]));
            }
        }
    }
    deck_sets_are_finite(deck, used, left);
    vstd::set_lib::lemma_set_disjoint_lens(left.to_set(), used.to_set());
    assert(left.len() == deck.len() - used.len());
}

proof fn deck_sets_are_finite(a: Seq<Card>, b: Seq<Card>, c: Seq<Card>)
    ensures
        a.to_set().finite(),
        b.to_set().finite(),
        c.to_set().finite(),
{
    vstd::seq_lib::seq_to_set_is_finite(a);
    vstd::seq_lib::seq_to_set_is_finite(b);
    vstd::seq_lib::seq_to_set_is_finite(c);
}

} // verus!
