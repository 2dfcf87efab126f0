//! The rules of the ranking, said of five cards at a time, and the proof that
//! [`hand_value`] is the best that any five of a hand's cards show.

use vstd::prelude::*;
use super::card::{suit_numbered, Card, Rank};
use super::hand::{
    combos, five_highest, flush_in, flush_suit, full_house_in, hand, hand_value, has_card,
    highest_run, is_last_best, pair_in, quads_in, rank_count, ranks_counted, ranks_of, remapped,
    run_to, score_is_injective, straight_flush_in, straight_high, straight_in, suit_count,
    suit_ranks, top, trips_in, two_pair_in, wheel, HandRank,
};
use super::DeckMode;

verus! {

/// Whether the five cards, in this order, run down from rank `t`; the ace may
/// stand below the lowest rank of the deck.
pub open spec fn runs_down(f: Seq<Card>, t: int, mode: DeckMode) -> bool {
    &&& f[0].rank.0 == t
    &&& f[1].rank.0 == t - 1
    &&& f[2].rank.0 == t - 2
    &&& f[3].rank.0 == t - 3
    &&& (f[4].rank.0 == t - 4 || t - 3 == mode.low() && f[4].rank.0 == 14)
}

/// Whether the five cards have one suit.
pub open spec fn one_suit(f: Seq<Card>) -> bool {
    f[1].suit == f[0].suit && f[2].suit == f[0].suit && f[3].suit == f[0].suit && f[4].suit == f[0].suit
}

/// Whether the five ranks fall from card to card.
pub open spec fn falls(f: Seq<Card>) -> bool {
    f[0].rank.0 > f[1].rank.0 > f[2].rank.0 > f[3].rank.0 > f[4].rank.0
}

/// Whether five cards, laid out in this order, show a hand of worth `v`.
pub open spec fn shows(f: Seq<Card>, v: HandRank, mode: DeckMode) -> bool {
    let r0 = f[0].rank.0 as int;
    let r1 = f[1].rank.0 as int;
    let r2 = f[2].rank.0 as int;
    let r3 = f[3].rank.0 as int;
    let r4 = f[4].rank.0 as int;
    // Royal flush and straight flush
    ||| one_suit(f) && runs_down(f, r0, mode) && v == hand(if r0 == 14 { 9 } else { 8 }, r0, 0, 0, 0, 0)
    // Four of a kind
    ||| r0 == r1 == r2 == r3 && r4 != r0 && v == hand(7, r0, r4, 0, 0, 0)
    // Full house
    ||| r0 == r1 == r2 && r3 == r4 && r3 != r0 && v == hand(remapped(6, mode) as int, r0, r3, 0, 0, 0)
    // Flush
    ||| one_suit(f) && falls(f) && v == hand(remapped(5, mode) as int, r0, r1, r2, r3, r4)
    // Straight
    ||| runs_down(f, r0, mode) && v == hand(remapped(4, mode) as int, r0, 0, 0, 0, 0)
    // Three of a kind
    ||| r0 == r1 == r2 && r3 > r4 && r3 != r0 && r4 != r0 && v == hand(remapped(3, mode) as int, r0, r3, r4, 0, 0)
    // Two pair
    ||| r0 == r1 && r2 == r3 && r0 > r2 && r4 != r0 && r4 != r2 && v == hand(2, r0, r2, r4, 0, 0)
    // Pair
    ||| r0 == r1 && r2 > r3 > r4 && r2 != r0 && r3 != r0 && r4 != r0 && v == hand(1, r0, r2, r3, r4, 0)
    // High card
    ||| falls(f) && v == hand(0, r0, r1, r2, r3, r4)
}

/// Whether `f` is five different cards out of `cards`.
pub open spec fn five_of(f: Seq<Card>, cards: Seq<Card>) -> bool {
    &&& f.len() == 5
    &&& f.no_duplicates()
    &&& forall|i: int| 0 <= i < 5 ==> cards.contains(#[trigger] f[i])
}

/// A hand that can be dealt: five to seven different cards.
pub open spec fn dealt(cards: Seq<Card>) -> bool {
    &&& 5 <= cards.len() <= 7
    &&& cards.no_duplicates()
    &&& forall|i: int| 0 <= i < cards.len() ==> (#[trigger] cards[i]).valid()
}

// ---- ranks and counts ----

proof fn top_facts(s: Set<int>, hi: int)
    ensures
        top(s, hi) == 0 || 2 <= top(s, hi) <= hi && s.contains(top(s, hi)),
        forall|x: int| 2 <= x <= hi && #[trigger] s.contains(x) ==> x <= top(s, hi),
    decreases hi,
{
    if hi >= 2 && !s.contains(hi) {
        top_facts(s, hi - 1);
    }
}

proof fn highest_run_facts(s: Set<int>, hi: int)
    ensures
        highest_run(s, hi) == 0 || 6 <= highest_run(s, hi) <= hi && run_to(s, highest_run(s, hi)),
        forall|t: int| 6 <= t <= hi && #[trigger] run_to(s, t) ==> t <= highest_run(s, hi),
    decreases hi,
{
    if hi >= 6 && !run_to(s, hi) {
        highest_run_facts(s, hi - 1);
    }
}

proof fn straight_facts(s: Set<int>, mode: DeckMode)
    ensures
        straight_high(s, mode) == 0 || 6 <= straight_high(s, mode) <= 14 && run_to(s, straight_high(s, mode))
            || wheel(s, mode) && straight_high(s, mode) == mode.low() + 3,
        forall|t: int| 6 <= t <= 14 && #[trigger] run_to(s, t) ==> t <= straight_high(s, mode),
        wheel(s, mode) ==> mode.low() + 3 <= straight_high(s, mode),
{
    highest_run_facts(s, 14);
    let t = highest_run(s, 14);
    if wheel(s, mode) && t != 0 && t < 9 && mode == DeckMode::ShortDeck {
        assert(s.contains(5));
        assert(run_to(s, 9));
    }
}

spec fn one(b: bool) -> nat {
    if b { 1 } else { 0 }
}

/// Among different cards, those of a rank are one for each suit that has it.
proof fn rank_count_by_suits(cards: Seq<Card>, r: int)
    requires
        cards.no_duplicates(),
    ensures
        rank_count(cards, r) == one(has_card(cards, r, 0)) + one(has_card(cards, r, 1)) + one(
            has_card(cards, r, 2),
        ) + one(has_card(cards, r, 3)),
    decreases cards.len(),
{
    if cards.len() > 0 {
        let rest = cards.drop_last();
        let c = cards.last();
        rank_count_by_suits(rest, r);
        assert forall|s: int| 0 <= s < 4 implies #[trigger] has_card(cards, r, s) == (has_card(rest, r, s) || (c.rank.0 == r
            && c.suit.number() == s)) by {
            has_card_step(cards, r, s);
        }
        if c.rank.0 == r {
            let s = c.suit.number();
            if has_card(rest, r, s) {
                let k = choose|k: int| 0 <= k < rest.len() && (#[trigger] rest[k]).rank.0 == r
                    && rest[k].suit.number() == s;
                assert(cards[k] == c);
            }
        }
    }
}

proof fn has_card_step(cards: Seq<Card>, r: int, s: int)
    requires
        cards.len() > 0,
    ensures
        has_card(cards, r, s) == (has_card(cards.drop_last(), r, s) || (cards.last().rank.0 == r
            && cards.last().suit.number() == s)),
{
    let rest = cards.drop_last();
    if has_card(rest, r, s) {
        let k = choose|k: int| 0 <= k < rest.len() && (#[trigger] rest[k]).rank.0 == r
            && rest[k].suit.number() == s;
        assert(cards[k] == rest[k]);
    }
    if has_card(cards, r, s) {
        let k = choose|k: int| 0 <= k < cards.len() && (#[trigger] cards[k]).rank.0 == r
            && cards[k].suit.number() == s;
        if k < rest.len() {
            assert(rest[k] == cards[k]);
        }
    }
    assert(cards[cards.len() - 1] == cards.last());
}

/// How many of the ranks 2 to `hi` are in the set.
spec fn size(s: Set<int>, hi: int) -> nat
    decreases hi,
{
    if hi < 2 {
        0
    } else {
        size(s, hi - 1) + one(s.contains(hi))
    }
}

proof fn size_insert(s: Set<int>, x: int, hi: int)
    requires
        2 <= x,
        !s.contains(x),
    ensures
        size(s.insert(x), hi) == size(s, hi) + one(x <= hi),
    decreases hi,
{
    if hi >= 2 {
        size_insert(s, x, hi - 1);
    }
}

proof fn size_below_top(s: Set<int>, hi: int)
    ensures
        size(s, hi) > 0 ==> top(s, hi) != 0,
        top(s, hi) != 0 ==> size(s, hi) == size(s, top(s, hi) - 1) + 1,
    decreases hi,
{
    if hi >= 2 && !s.contains(hi) {
        size_below_top(s, hi - 1);
    }
}

/// Among different cards, those of a suit have different ranks.
proof fn suit_count_by_ranks(cards: Seq<Card>, s: int)
    requires
        cards.no_duplicates(),
        forall|i: int| 0 <= i < cards.len() ==> (#[trigger] cards[i]).valid(),
    ensures
        suit_count(cards, s) == size(suit_ranks(cards, s), 14),
    decreases cards.len(),
{
    if cards.len() == 0 {
        assert(suit_ranks(cards, s) =~= Set::<int>::empty());
        size_empty(14);
    } else {
        let rest = cards.drop_last();
        let c = cards.last();
        assert forall|i: int| 0 <= i < rest.len() implies (#[trigger] rest[i]).valid() by {
            assert(rest[i] == cards[i]);
        }
        assert(cards[cards.len() - 1].valid());
        suit_count_by_ranks(rest, s);
        assert forall|r: int| #[trigger] has_card(cards, r, s) == (has_card(rest, r, s) || (c.rank.0 == r
            && c.suit.number() == s)) by {
            has_card_step(cards, r, s);
        }
        if c.suit.number() == s {
            let r = c.rank.0 as int;
            if has_card(rest, r, s) {
                let k = choose|k: int| 0 <= k < rest.len() && (#[trigger] rest[k]).rank.0 == r
                    && rest[k].suit.number() == s;
                assert(cards[k] == c);
            }
            assert(suit_ranks(cards, s) =~= suit_ranks(rest, s).insert(r));
            size_insert(suit_ranks(rest, s), r, 14);
        } else {
            assert(suit_ranks(cards, s) =~= suit_ranks(rest, s));
        }
    }
}

proof fn size_empty(hi: int)
    ensures
        size(Set::<int>::empty(), hi) == 0,
    decreases hi,
{
    if hi >= 2 {
        size_empty(hi - 1);
    }
}

/// How many of the cards have a rank in the set.
spec fn count_in(cards: Seq<Card>, s: Set<int>) -> nat
    decreases cards.len(),
{
    if cards.len() == 0 {
        0
    } else {
        count_in(cards.drop_last(), s) + one(s.contains(cards.last().rank.0 as int))
    }
}

proof fn count_in_insert(cards: Seq<Card>, s: Set<int>, x: int)
    requires
        !s.contains(x),
    ensures
        count_in(cards, s.insert(x)) == count_in(cards, s) + rank_count(cards, x),
    decreases cards.len(),
{
    if cards.len() > 0 {
        count_in_insert(cards.drop_last(), s, x);
    }
}

proof fn count_in_facts(cards: Seq<Card>, s: Set<int>)
    ensures
        count_in(cards, s) <= cards.len(),
        count_in(cards, Set::<int>::empty()) == 0,
        count_in(cards, s) < cards.len() ==> exists|i: int|
            0 <= i < cards.len() && !s.contains((#[trigger] cards[i]).rank.0 as int),
    decreases cards.len(),
{
    if cards.len() > 0 {
        let rest = cards.drop_last();
        count_in_facts(rest, s);
        if count_in(cards, s) < cards.len() {
            if count_in(rest, s) < rest.len() {
                let i = choose|i: int| 0 <= i < rest.len() && !s.contains((#[trigger] rest[i]).rank.0 as int);
                assert(cards[i] == rest[i]);
            } else {
                assert(cards[cards.len() - 1] == cards.last());
            }
        }
    }
}

// ---- cards of a rank ----

/// The card with rank `r` and the suit with number `s`.
spec fn card_at(r: int, s: int) -> Card {
    Card { rank: Rank(r as u8), suit: suit_numbered(s) }
}

proof fn contains_is_has_card(cards: Seq<Card>, c: Card)
    ensures
        cards.contains(c) <==> has_card(cards, c.rank.0 as int, c.suit.number()),
        c == card_at(c.rank.0 as int, c.suit.number()),
        0 <= c.suit.number() < 4,
{
    if cards.contains(c) {
        let k = choose|k: int| 0 <= k < cards.len() && cards[k] == c;
        assert(cards[k].rank.0 == c.rank.0);
    }
    if has_card(cards, c.rank.0 as int, c.suit.number()) {
        let k = choose|k: int| 0 <= k < cards.len() && (#[trigger] cards[k]).rank.0 == c.rank.0
            && cards[k].suit.number() == c.suit.number();
        assert(cards[k] == c);
    }
}

proof fn card_at_facts(cards: Seq<Card>, r: int, s: int)
    requires
        2 <= r <= 14,
        0 <= s < 4,
    ensures
        cards.contains(card_at(r, s)) <==> has_card(cards, r, s),
        card_at(r, s).rank.0 == r,
        card_at(r, s).suit.number() == s,
{
    contains_is_has_card(cards, card_at(r, s));
}

proof fn two_counted(cards: Seq<Card>, a: Card, b: Card)
    requires
        cards.no_duplicates(),
        cards.contains(a),
        cards.contains(b),
        a != b,
        a.rank == b.rank,
    ensures
        2 <= rank_count(cards, a.rank.0 as int) <= 4,
{
    rank_count_by_suits(cards, a.rank.0 as int);
    contains_is_has_card(cards, a);
    contains_is_has_card(cards, b);
}

proof fn three_counted(cards: Seq<Card>, a: Card, b: Card, c: Card)
    requires
        cards.no_duplicates(),
        cards.contains(a),
        cards.contains(b),
        cards.contains(c),
        a != b,
        a != c,
        b != c,
        a.rank == b.rank,
        a.rank == c.rank,
    ensures
        3 <= rank_count(cards, a.rank.0 as int) <= 4,
{
    rank_count_by_suits(cards, a.rank.0 as int);
    contains_is_has_card(cards, a);
    contains_is_has_card(cards, b);
    contains_is_has_card(cards, c);
}

proof fn four_counted(cards: Seq<Card>, a: Card, b: Card, c: Card, d: Card)
    requires
        cards.no_duplicates(),
        cards.contains(a),
        cards.contains(b),
        cards.contains(c),
        cards.contains(d),
        a != b,
        a != c,
        a != d,
        b != c,
        b != d,
        c != d,
        a.rank == b.rank,
        a.rank == c.rank,
        a.rank == d.rank,
    ensures
        rank_count(cards, a.rank.0 as int) == 4,
{
    rank_count_by_suits(cards, a.rank.0 as int);
    contains_is_has_card(cards, a);
    contains_is_has_card(cards, b);
    contains_is_has_card(cards, c);
    contains_is_has_card(cards, d);
}

/// A card's rank is among the ranks, and its suit holds it.
proof fn rank_present(cards: Seq<Card>, c: Card)
    requires
        cards.contains(c),
        c.valid(),
    ensures
        ranks_of(cards).contains(c.rank.0 as int),
        suit_ranks(cards, c.suit.number()).contains(c.rank.0 as int),
{
    contains_is_has_card(cards, c);
    let k = choose|k: int| 0 <= k < cards.len() && cards[k] == c;
    rank_count_of_member(cards, k);
}

proof fn rank_count_of_member(cards: Seq<Card>, k: int)
    requires
        0 <= k < cards.len(),
    ensures
        rank_count(cards, cards[k].rank.0 as int) > 0,
    decreases cards.len(),
{
    if k < cards.len() - 1 {
        rank_count_of_member(cards.drop_last(), k);
    }
}

/// The value is at least each candidate's, and is one of them.
proof fn value_facts(cards: Seq<Card>, mode: DeckMode)
    ensures
        straight_flush_in(cards, mode) matches Some(c) ==> c.score() <= hand_value(cards, mode).score(),
        flush_in(cards, mode) matches Some(c) ==> c.score() <= hand_value(cards, mode).score(),
        quads_in(cards) matches Some(c) ==> c.score() <= hand_value(cards, mode).score(),
        full_house_in(cards, mode) matches Some(c) ==> c.score() <= hand_value(cards, mode).score(),
        straight_in(cards, mode) matches Some(c) ==> c.score() <= hand_value(cards, mode).score(),
        trips_in(cards, mode) matches Some(c) ==> c.score() <= hand_value(cards, mode).score(),
        two_pair_in(cards) matches Some(c) ==> c.score() <= hand_value(cards, mode).score(),
        pair_in(cards) matches Some(c) ==> c.score() <= hand_value(cards, mode).score(),
        five_highest(0, ranks_of(cards)).score() <= hand_value(cards, mode).score(),
        ({
            let v = hand_value(cards, mode);
            ||| v == hand(0, 0, 0, 0, 0, 0)
            ||| straight_flush_in(cards, mode) == Some(v)
            ||| flush_in(cards, mode) == Some(v)
            ||| quads_in(cards) == Some(v)
            ||| full_house_in(cards, mode) == Some(v)
            ||| straight_in(cards, mode) == Some(v)
            ||| trips_in(cards, mode) == Some(v)
            ||| two_pair_in(cards) == Some(v)
            ||| pair_in(cards) == Some(v)
            ||| v == five_highest(0, ranks_of(cards))
        }),
{
    reveal(hand_value);
}

spec fn digits(c: int, k0: int, k1: int, k2: int, k3: int, k4: int) -> int {
    ((((c * 256 + k0) * 256 + k1) * 256 + k2) * 256 + k3) * 256 + k4
}

proof fn score_of_hand(c: int, k0: int, k1: int, k2: int, k3: int, k4: int)
    requires
        0 <= c < 256,
        0 <= k0 < 256,
        0 <= k1 < 256,
        0 <= k2 < 256,
        0 <= k3 < 256,
        0 <= k4 < 256,
    ensures
        hand(c, k0, k1, k2, k3, k4).score() == digits(c, k0, k1, k2, k3, k4),
{
}

// ---- no five cards show more than the value ----

proof fn quads_bound(cards: Seq<Card>, q: int, k: int, mode: DeckMode)
    requires
        2 <= q <= 14,
        rank_count(cards, q) == 4,
        k == 0 || ranks_of(cards).contains(k) && k != q,
    ensures
        digits(7, q, k, 0, 0, 0) <= hand_value(cards, mode).score(),
{
    value_facts(cards, mode);
    let s = ranks_counted(cards, 4);
    assert(s.contains(q));
    top_facts(s, 14);
    let t = top(s, 14);
    let others = ranks_of(cards).remove(t);
    top_facts(others, 14);
    score_of_hand(7, t, top(others, 14), 0, 0, 0);
    if t == q && k != 0 {
        assert(others.contains(k));
    }
}

proof fn trips_bound(cards: Seq<Card>, r: int, a: int, b: int, mode: DeckMode)
    requires
        2 <= r <= 14,
        3 <= rank_count(cards, r) <= 4,
        a == 0 && b == 0 || ranks_of(cards).contains(a) && ranks_of(cards).contains(b) && a > b && a != r && b != r,
    ensures
        digits(remapped(3, mode) as int, r, a, b, 0, 0) <= hand_value(cards, mode).score(),
{
    if rank_count(cards, r) == 4 {
        quads_bound(cards, r, 0, mode);
    } else {
        value_facts(cards, mode);
        let s = ranks_counted(cards, 3);
        assert(s.contains(r));
        top_facts(s, 14);
        let t = top(s, 14);
        let others = ranks_of(cards).remove(t);
        top_facts(others, 14);
        let x = top(others, 14);
        top_facts(others, x - 1);
        let y = top(others, x - 1);
        score_of_hand(remapped(3, mode) as int, t, x, y, 0, 0);
        if t == r && a != 0 {
            assert(others.contains(a));
            assert(others.contains(b));
        }
    }
}

proof fn pair_bound(cards: Seq<Card>, r: int, a: int, b: int, c: int, mode: DeckMode)
    requires
        2 <= r <= 14,
        2 <= rank_count(cards, r) <= 4,
        ranks_of(cards).contains(a),
        ranks_of(cards).contains(b),
        ranks_of(cards).contains(c),
        a > b > c,
        a != r,
        b != r,
        c != r,
    ensures
        digits(1, r, a, b, c, 0) <= hand_value(cards, mode).score(),
{
    if rank_count(cards, r) >= 3 {
        trips_bound(cards, r, 0, 0, mode);
    } else {
        value_facts(cards, mode);
        let s = ranks_counted(cards, 2);
        assert(s.contains(r));
        top_facts(s, 14);
        let t = top(s, 14);
        let others = ranks_of(cards).remove(t);
        top_facts(others, 14);
        let x = top(others, 14);
        top_facts(others, x - 1);
        let y = top(others, x - 1);
        top_facts(others, y - 1);
        let z = top(others, y - 1);
        score_of_hand(1, t, x, y, z, 0);
        if t == r {
            assert(others.contains(a));
            assert(others.contains(b));
            assert(others.contains(c));
        }
    }
}

proof fn two_pair_bound(cards: Seq<Card>, r: int, q: int, a: int, mode: DeckMode)
    requires
        2 <= q < r <= 14,
        2 <= rank_count(cards, r) <= 4,
        2 <= rank_count(cards, q) <= 4,
        ranks_of(cards).contains(a),
        a != r,
        a != q,
    ensures
        digits(2, r, q, a, 0, 0) <= hand_value(cards, mode).score(),
{
    if rank_count(cards, r) >= 3 {
        trips_bound(cards, r, 0, 0, mode);
    } else if rank_count(cards, q) >= 3 {
        trips_bound(cards, q, 0, 0, mode);
    } else {
        value_facts(cards, mode);
        let s = ranks_counted(cards, 2);
        assert(s.contains(r));
        assert(s.contains(q));
        top_facts(s, 14);
        let t = top(s, 14);
        top_facts(s, t - 1);
        let u = top(s, t - 1);
        let others = ranks_of(cards).remove(t).remove(u);
        top_facts(others, 14);
        let x = top(others, 14);
        score_of_hand(2, t, u, x, 0, 0);
        if t == r && u == q {
            assert(others.contains(a));
        }
    }
}

proof fn full_house_bound(cards: Seq<Card>, r: int, q: int, mode: DeckMode)
    requires
        cards.len() <= 7,
        2 <= q <= 14,
        2 <= r <= 14,
        q != r,
        3 <= rank_count(cards, r) <= 4,
        2 <= rank_count(cards, q) <= 4,
    ensures
        digits(remapped(6, mode) as int, r, q, 0, 0, 0) <= hand_value(cards, mode).score(),
{
    if rank_count(cards, r) == 4 {
        quads_bound(cards, r, 0, mode);
    } else if rank_count(cards, q) == 4 {
        quads_bound(cards, q, 0, mode);
    } else {
        value_facts(cards, mode);
        let s = ranks_counted(cards, 3);
        let d = ranks_counted(cards, 2);
        assert(s.contains(r));
        top_facts(s, 14);
        let t = top(s, 14);
        top_facts(s, t - 1);
        let u = top(s, t - 1);
        top_facts(d, 14);
        let p = if u != 0 { u } else { top(d, 14) };
        assert(rank_count(cards, q) == 3 ==> s.contains(q));
        assert(rank_count(cards, q) == 2 ==> d.contains(q));
        if u != 0 && rank_count(cards, q) == 2 {
            three_ranks(cards, t, u, q);
        }
        assert(t != 0 && p != 0);
        score_of_hand(remapped(6, mode) as int, t, p, 0, 0, 0);
    }
}

/// The cards of three different ranks are no more than all cards.
proof fn three_ranks(cards: Seq<Card>, a: int, b: int, c: int)
    requires
        a != b,
        a != c,
        b != c,
    ensures
        rank_count(cards, a) + rank_count(cards, b) + rank_count(cards, c) <= cards.len(),
{
    let e = Set::<int>::empty();
    count_in_insert(cards, e, a);
    count_in_insert(cards, e.insert(a), b);
    count_in_insert(cards, e.insert(a).insert(b), c);
    count_in_facts(cards, e.insert(a).insert(b).insert(c));
}

/// Five falling ranks of a set are no more than its five highest.
proof fn five_bound(category: int, s: Set<int>, f: Seq<Card>)
    requires
        0 <= category < 10,
        falls(f),
        2 <= f[4].rank.0,
        f[0].rank.0 <= 14,
        s.contains(f[0].rank.0 as int),
        s.contains(f[1].rank.0 as int),
        s.contains(f[2].rank.0 as int),
        s.contains(f[3].rank.0 as int),
        s.contains(f[4].rank.0 as int),
    ensures
        digits(category, f[0].rank.0 as int, f[1].rank.0 as int, f[2].rank.0 as int, f[3].rank.0 as int, f[4].rank.0 as int)
            <= five_highest(category, s).score(),
{
    let a = top(s, 14);
    let b = top(s, a - 1);
    let c = top(s, b - 1);
    let d = top(s, c - 1);
    let e = top(s, d - 1);
    top_facts(s, 14);
    top_facts(s, a - 1);
    top_facts(s, b - 1);
    top_facts(s, c - 1);
    top_facts(s, d - 1);
    score_of_hand(category, a, b, c, d, e);
}

/// With five cards of the suit of `f` there, the flush is in that suit.
proof fn flush_suit_of(cards: Seq<Card>, f: Seq<Card>)
    requires
        dealt(cards),
        five_of(f, cards),
        one_suit(f),
    ensures
        flush_suit(cards) == Some(f[0].suit.number()),
        forall|i: int| 0 <= i < 5 ==> suit_ranks(cards, f[0].suit.number()).contains((#[trigger] f[i]).rank.0 as int),
{
    let s = f[0].suit.number();
    assert forall|i: int| 0 <= i < 5 implies suit_ranks(cards, s).contains((#[trigger] f[i]).rank.0 as int) by {
        member_valid(cards, f[i]);
        rank_present(cards, f[i]);
        assert(f[i].suit == f[0].suit);
    }
    suit_count_by_ranks(cards, s);
    assert forall|i: int, j: int| 0 <= i < j < 5 implies f[i].rank.0 != f[j].rank.0 by {
        assert(f[i].suit == f[j].suit);
        assert(f[i] != f[j]);
    }
    let e = Set::<int>::empty();
    let r = Seq::new(5, |i: int| f[i].rank.0 as int);
    let s1 = e.insert(r[0]);
    let s2 = s1.insert(r[1]);
    let s3 = s2.insert(r[2]);
    let s4 = s3.insert(r[3]);
    let s5 = s4.insert(r[4]);
    assert(f[0].rank.0 != f[1].rank.0 && f[0].rank.0 != f[2].rank.0 && f[0].rank.0 != f[3].rank.0
        && f[0].rank.0 != f[4].rank.0 && f[1].rank.0 != f[2].rank.0 && f[1].rank.0 != f[3].rank.0
        && f[1].rank.0 != f[4].rank.0 && f[2].rank.0 != f[3].rank.0 && f[2].rank.0 != f[4].rank.0
        && f[3].rank.0 != f[4].rank.0);
    assert forall|i: int| 0 <= i < 5 implies 2 <= #[trigger] r[i] <= 14 by {
        member_valid(cards, f[i]);
    }
    size_empty(14);
    size_insert(e, r[0], 14);
    size_insert(s1, r[1], 14);
    size_insert(s2, r[2], 14);
    size_insert(s3, r[3], 14);
    size_insert(s4, r[4], 14);
    assert forall|x: int| s5.contains(x) implies suit_ranks(cards, s).contains(x) by {
        assert(suit_ranks(cards, s).contains(f[0].rank.0 as int));
        assert(suit_ranks(cards, s).contains(f[1].rank.0 as int));
        assert(suit_ranks(cards, s).contains(f[2].rank.0 as int));
        assert(suit_ranks(cards, s).contains(f[3].rank.0 as int));
        assert(suit_ranks(cards, s).contains(f[4].rank.0 as int));
    }
    size_subset(s5, suit_ranks(cards, s), 14);
    suit_counts_sum(cards);
}

proof fn size_subset(s: Set<int>, t: Set<int>, hi: int)
    requires
        forall|x: int| s.contains(x) ==> t.contains(x),
    ensures
        size(s, hi) <= size(t, hi),
    decreases hi,
{
    if hi >= 2 {
        size_subset(s, t, hi - 1);
    }
}

proof fn suit_counts_sum(cards: Seq<Card>)
    ensures
        suit_count(cards, 0) + suit_count(cards, 1) + suit_count(cards, 2) + suit_count(cards, 3) == cards.len(),
    decreases cards.len(),
{
    if cards.len() > 0 {
        suit_counts_sum(cards.drop_last());
    }
}

proof fn member_valid(cards: Seq<Card>, c: Card)
    requires
        dealt(cards),
        cards.contains(c),
    ensures
        c.valid(),
{
    let k = choose|k: int| 0 <= k < cards.len() && cards[k] == c;
    assert(cards[k].valid());
}

/// A run that lies in the ranks is no higher than the best straight.
proof fn run_bound(s: Set<int>, f: Seq<Card>, t: int, mode: DeckMode)
    requires
        runs_down(f, t, mode),
        forall|i: int| 0 <= i < 5 ==> 2 <= (#[trigger] f[i]).rank.0 <= 14 && s.contains(f[i].rank.0 as int),
    ensures
        t <= straight_high(s, mode) <= 14,
        straight_high(s, mode) != 0,
{
    straight_facts(s, mode);
    assert(s.contains(f[0].rank.0 as int));
    assert(s.contains(f[1].rank.0 as int));
    assert(s.contains(f[2].rank.0 as int));
    assert(s.contains(f[3].rank.0 as int));
    assert(s.contains(f[4].rank.0 as int));
    if f[4].rank.0 == t - 4 {
        assert(run_to(s, t));
    } else {
        assert(wheel(s, mode));
    }
}

proof fn shown_is_bounded(cards: Seq<Card>, f: Seq<Card>, v: HandRank, mode: DeckMode)
    requires
        dealt(cards),
        five_of(f, cards),
        shows(f, v, mode),
    ensures
        v.score() <= hand_value(cards, mode).score(),
{
    let r0 = f[0].rank.0 as int;
    let r1 = f[1].rank.0 as int;
    let r2 = f[2].rank.0 as int;
    let r3 = f[3].rank.0 as int;
    let r4 = f[4].rank.0 as int;
    assert forall|i: int| 0 <= i < 5 implies (#[trigger] f[i]).valid() && ranks_of(cards).contains(f[i].rank.0 as int) by {
        member_valid(cards, f[i]);
        rank_present(cards, f[i]);
    }
    assert(f[0].valid() && f[1].valid() && f[2].valid() && f[3].valid() && f[4].valid());
    assert(f[0] != f[1] && f[0] != f[2] && f[0] != f[3] && f[1] != f[2] && f[1] != f[3] && f[2] != f[3] && f[3] != f[4]);
    if one_suit(f) && runs_down(f, r0, mode) && v == hand(if r0 == 14 { 9 } else { 8 }, r0, 0, 0, 0, 0) {
        flush_suit_of(cards, f);
        let s = suit_ranks(cards, f[0].suit.number());
        run_bound(s, f, r0, mode);
        value_facts(cards, mode);
        let t = straight_high(s, mode);
        score_of_hand(if t == 14 { 9 } else { 8 }, t, 0, 0, 0, 0);
        score_of_hand(if r0 == 14 { 9 } else { 8 }, r0, 0, 0, 0, 0);
    } else if r0 == r1 == r2 == r3 && r4 != r0 && v == hand(7, r0, r4, 0, 0, 0) {
        four_counted(cards, f[0], f[1], f[2], f[3]);
        quads_bound(cards, r0, r4, mode);
        score_of_hand(7, r0, r4, 0, 0, 0);
    } else if r0 == r1 == r2 && r3 == r4 && r3 != r0 && v == hand(remapped(6, mode) as int, r0, r3, 0, 0, 0) {
        three_counted(cards, f[0], f[1], f[2]);
        two_counted(cards, f[3], f[4]);
        full_house_bound(cards, r0, r3, mode);
        score_of_hand(remapped(6, mode) as int, r0, r3, 0, 0, 0);
    } else if one_suit(f) && falls(f) && v == hand(remapped(5, mode) as int, r0, r1, r2, r3, r4) {
        flush_suit_of(cards, f);
        let s = suit_ranks(cards, f[0].suit.number());
        assert(s.contains(r0) && s.contains(r1) && s.contains(r2) && s.contains(r3) && s.contains(r4));
        five_bound(remapped(5, mode) as int, s, f);
        value_facts(cards, mode);
        score_of_hand(remapped(5, mode) as int, r0, r1, r2, r3, r4);
    } else if runs_down(f, r0, mode) && v == hand(remapped(4, mode) as int, r0, 0, 0, 0, 0) {
        run_bound(ranks_of(cards), f, r0, mode);
        value_facts(cards, mode);
        score_of_hand(remapped(4, mode) as int, straight_high(ranks_of(cards), mode), 0, 0, 0, 0);
        score_of_hand(remapped(4, mode) as int, r0, 0, 0, 0, 0);
    } else if r0 == r1 == r2 && r3 > r4 && r3 != r0 && r4 != r0 && v == hand(remapped(3, mode) as int, r0, r3, r4, 0, 0) {
        three_counted(cards, f[0], f[1], f[2]);
        trips_bound(cards, r0, r3, r4, mode);
        score_of_hand(remapped(3, mode) as int, r0, r3, r4, 0, 0);
    } else if r0 == r1 && r2 == r3 && r0 > r2 && r4 != r0 && r4 != r2 && v == hand(2, r0, r2, r4, 0, 0) {
        two_counted(cards, f[0], f[1]);
        two_counted(cards, f[2], f[3]);
        two_pair_bound(cards, r0, r2, r4, mode);
        score_of_hand(2, r0, r2, r4, 0, 0);
    } else if r0 == r1 && r2 > r3 > r4 && r2 != r0 && r3 != r0 && r4 != r0 && v == hand(1, r0, r2, r3, r4, 0) {
        two_counted(cards, f[0], f[1]);
        pair_bound(cards, r0, r2, r3, r4, mode);
        score_of_hand(1, r0, r2, r3, r4, 0);
    } else {
        five_bound(0, ranks_of(cards), f);
        value_facts(cards, mode);
        score_of_hand(0, r0, r1, r2, r3, r4);
    }
}

// ---- some five cards show the value ----

/// A card of a rank that occurs.
proof fn one_of(cards: Seq<Card>, r: int) -> (a: Card)
    requires
        cards.no_duplicates(),
        ranks_of(cards).contains(r),
    ensures
        cards.contains(a),
        a.rank.0 == r,
{
    rank_count_by_suits(cards, r);
    card_at_facts(cards, r, 0);
    card_at_facts(cards, r, 1);
    card_at_facts(cards, r, 2);
    card_at_facts(cards, r, 3);
    if has_card(cards, r, 0) {
        card_at(r, 0)
    } else if has_card(cards, r, 1) {
        card_at(r, 1)
    } else if has_card(cards, r, 2) {
        card_at(r, 2)
    } else {
        card_at(r, 3)
    }
}

/// Two cards of a rank that occurs at least twice.
proof fn two_of(cards: Seq<Card>, r: int) -> (p: (Card, Card))
    requires
        cards.no_duplicates(),
        2 <= r <= 14,
        rank_count(cards, r) >= 2,
    ensures
        cards.contains(p.0),
        cards.contains(p.1),
        p.0 != p.1,
        p.0.rank.0 == r,
        p.1.rank.0 == r,
{
    rank_count_by_suits(cards, r);
    card_at_facts(cards, r, 0);
    card_at_facts(cards, r, 1);
    card_at_facts(cards, r, 2);
    card_at_facts(cards, r, 3);
    if has_card(cards, r, 0) {
        if has_card(cards, r, 1) {
            (card_at(r, 0), card_at(r, 1))
        } else if has_card(cards, r, 2) {
            (card_at(r, 0), card_at(r, 2))
        } else {
            (card_at(r, 0), card_at(r, 3))
        }
    } else if has_card(cards, r, 1) {
        if has_card(cards, r, 2) {
            (card_at(r, 1), card_at(r, 2))
        } else {
            (card_at(r, 1), card_at(r, 3))
        }
    } else {
        (card_at(r, 2), card_at(r, 3))
    }
}

/// Three cards of a rank that occurs at least three times.
proof fn three_of(cards: Seq<Card>, r: int) -> (p: (Card, Card, Card))
    requires
        cards.no_duplicates(),
        2 <= r <= 14,
        rank_count(cards, r) >= 3,
    ensures
        cards.contains(p.0),
        cards.contains(p.1),
        cards.contains(p.2),
        p.0 != p.1,
        p.0 != p.2,
        p.1 != p.2,
        p.0.rank.0 == r,
        p.1.rank.0 == r,
        p.2.rank.0 == r,
{
    rank_count_by_suits(cards, r);
    card_at_facts(cards, r, 0);
    card_at_facts(cards, r, 1);
    card_at_facts(cards, r, 2);
    card_at_facts(cards, r, 3);
    if !has_card(cards, r, 0) {
        (card_at(r, 1), card_at(r, 2), card_at(r, 3))
    } else if !has_card(cards, r, 1) {
        (card_at(r, 0), card_at(r, 2), card_at(r, 3))
    } else if !has_card(cards, r, 2) {
        (card_at(r, 0), card_at(r, 1), card_at(r, 3))
    } else {
        (card_at(r, 0), card_at(r, 1), card_at(r, 2))
    }
}

/// Whether some five of the cards show `v`.
pub open spec fn shown(cards: Seq<Card>, v: HandRank, mode: DeckMode) -> bool {
    exists|f: Seq<Card>| #[trigger] five_of(f, cards) && shows(f, v, mode)
}

proof fn show(cards: Seq<Card>, a: Card, b: Card, c: Card, d: Card, e: Card, v: HandRank, mode: DeckMode)
    requires
        cards.contains(a),
        cards.contains(b),
        cards.contains(c),
        cards.contains(d),
        cards.contains(e),
        a != b,
        a != c,
        a != d,
        a != e,
        b != c,
        b != d,
        b != e,
        c != d,
        c != e,
        d != e,
        shows(seq![a, b, c, d, e], v, mode),
    ensures
        shown(cards, v, mode),
{
    let f = seq![a, b, c, d, e];
    assert(five_of(f, cards));
}

/// If the cards of some ranks are not all the cards, another rank occurs.
proof fn another_rank(cards: Seq<Card>, ex: Set<int>)
    requires
        dealt(cards),
        count_in(cards, ex) < cards.len(),
    ensures
        exists|x: int| #[trigger] ranks_of(cards).contains(x) && !ex.contains(x),
{
    count_in_facts(cards, ex);
    let i = choose|i: int| 0 <= i < cards.len() && !ex.contains((#[trigger] cards[i]).rank.0 as int);
    assert(cards[i].valid());
    assert(cards.contains(cards[i]));
    rank_present(cards, cards[i]);
    assert(ranks_of(cards).contains(cards[i].rank.0 as int));
}

proof fn shown_straight(cards: Seq<Card>, t: int, mode: DeckMode)
    requires
        dealt(cards),
        t == straight_high(ranks_of(cards), mode),
        t != 0,
    ensures
        shown(cards, hand(remapped(4, mode) as int, t, 0, 0, 0, 0), mode),
{
    let s = ranks_of(cards);
    straight_facts(s, mode);
    let last = if run_to(s, t) { t - 4 } else { 14 };
    let a = one_of(cards, t);
    let b = one_of(cards, t - 1);
    let c = one_of(cards, t - 2);
    let d = one_of(cards, t - 3);
    let e = one_of(cards, last);
    show(cards, a, b, c, d, e, hand(remapped(4, mode) as int, t, 0, 0, 0, 0), mode);
}

proof fn shown_straight_flush(cards: Seq<Card>, v: HandRank, mode: DeckMode)
    requires
        dealt(cards),
        straight_flush_in(cards, mode) == Some(v),
    ensures
        shown(cards, v, mode),
{
    let n = flush_suit(cards)->0;
    let s = suit_ranks(cards, n);
    let t = straight_high(s, mode);
    straight_facts(s, mode);
    let last = if run_to(s, t) { t - 4 } else { 14 };
    card_at_facts(cards, t, n);
    card_at_facts(cards, t - 1, n);
    card_at_facts(cards, t - 2, n);
    card_at_facts(cards, t - 3, n);
    card_at_facts(cards, last, n);
    show(cards, card_at(t, n), card_at(t - 1, n), card_at(t - 2, n), card_at(t - 3, n), card_at(last, n), v, mode);
}

proof fn shown_flush(cards: Seq<Card>, v: HandRank, mode: DeckMode)
    requires
        dealt(cards),
        flush_in(cards, mode) == Some(v),
    ensures
        shown(cards, v, mode),
{
    let n = flush_suit(cards)->0;
    let s = suit_ranks(cards, n);
    suit_count_by_ranks(cards, n);
    let a = top(s, 14);
    let b = top(s, a - 1);
    let c = top(s, b - 1);
    let d = top(s, c - 1);
    let e = top(s, d - 1);
    size_below_top(s, 14);
    size_below_top(s, a - 1);
    size_below_top(s, b - 1);
    size_below_top(s, c - 1);
    size_below_top(s, d - 1);
    top_facts(s, 14);
    top_facts(s, a - 1);
    top_facts(s, b - 1);
    top_facts(s, c - 1);
    top_facts(s, d - 1);
    card_at_facts(cards, a, n);
    card_at_facts(cards, b, n);
    card_at_facts(cards, c, n);
    card_at_facts(cards, d, n);
    card_at_facts(cards, e, n);
    show(cards, card_at(a, n), card_at(b, n), card_at(c, n), card_at(d, n), card_at(e, n), v, mode);
}

proof fn shown_quads(cards: Seq<Card>, v: HandRank, mode: DeckMode)
    requires
        dealt(cards),
        quads_in(cards) == Some(v),
    ensures
        shown(cards, v, mode),
{
    let s = ranks_counted(cards, 4);
    top_facts(s, 14);
    let q = top(s, 14);
    let others = ranks_of(cards).remove(q);
    let e = Set::<int>::empty();
    count_in_insert(cards, e, q);
    count_in_facts(cards, e);
    another_rank(cards, e.insert(q));
    let x = choose|x: int| #[trigger] ranks_of(cards).contains(x) && !e.insert(q).contains(x);
    assert(others.contains(x));
    top_facts(others, 14);
    let k = one_of(cards, top(others, 14));
    rank_count_by_suits(cards, q);
    card_at_facts(cards, q, 0);
    card_at_facts(cards, q, 1);
    card_at_facts(cards, q, 2);
    card_at_facts(cards, q, 3);
    show(cards, card_at(q, 0), card_at(q, 1), card_at(q, 2), card_at(q, 3), k, v, mode);
}

proof fn shown_full_house(cards: Seq<Card>, v: HandRank, mode: DeckMode)
    requires
        dealt(cards),
        full_house_in(cards, mode) == Some(v),
    ensures
        shown(cards, v, mode),
{
    let s = ranks_counted(cards, 3);
    let t = top(s, 14);
    top_facts(s, 14);
    top_facts(s, t - 1);
    top_facts(ranks_counted(cards, 2), 14);
    let p = if top(s, t - 1) != 0 { top(s, t - 1) } else { top(ranks_counted(cards, 2), 14) };
    let (a, b, c) = three_of(cards, t);
    let (d, e) = two_of(cards, p);
    show(cards, a, b, c, d, e, v, mode);
}

/// Without four of a kind and with no second pair, three of a kind are shown.
proof fn shown_trips(cards: Seq<Card>, v: HandRank, mode: DeckMode)
    requires
        dealt(cards),
        trips_in(cards, mode) == Some(v),
        full_house_in(cards, mode) is None,
        quads_in(cards) is None,
    ensures
        shown(cards, v, mode),
{
    let s = ranks_counted(cards, 3);
    let t = top(s, 14);
    top_facts(s, 14);
    top_facts(s, t - 1);
    top_facts(ranks_counted(cards, 2), 14);
    top_facts(ranks_counted(cards, 4), 14);
    let present = ranks_of(cards);
    let others = present.remove(t);
    let e0 = Set::<int>::empty();
    count_in_facts(cards, e0);
    count_in_insert(cards, e0, t);
    another_rank(cards, e0.insert(t));
    let x = choose|x: int| #[trigger] present.contains(x) && !e0.insert(t).contains(x);
    assert(others.contains(x));
    top_facts(others, 14);
    let a = top(others, 14);
    single_count(cards, t, a);
    count_in_insert(cards, e0.insert(t), a);
    another_rank(cards, e0.insert(t).insert(a));
    let y = choose|y: int| #[trigger] present.contains(y) && !e0.insert(t).insert(a).contains(y);
    assert(others.contains(y));
    top_facts(others, a - 1);
    let b = top(others, a - 1);
    let (c0, c1, c2) = three_of(cards, t);
    let c3 = one_of(cards, a);
    let c4 = one_of(cards, b);
    show(cards, c0, c1, c2, c3, c4, v, mode);
}

/// With three of a kind and neither four of a kind nor a full house, every
/// other rank occurs at most once.
proof fn single_count(cards: Seq<Card>, t: int, a: int)
    requires
        dealt(cards),
        quads_in(cards) is None,
        full_house_in(cards, DeckMode::Standard) is None || full_house_in(cards, DeckMode::ShortDeck) is None,
        t == top(ranks_counted(cards, 3), 14),
        t != 0,
        a != t,
        2 <= a <= 14,
    ensures
        rank_count(cards, a) <= 1,
{
    rank_count_by_suits(cards, a);
    top_facts(ranks_counted(cards, 3), 14);
    top_facts(ranks_counted(cards, 3), t - 1);
    top_facts(ranks_counted(cards, 2), 14);
    top_facts(ranks_counted(cards, 4), 14);
    assert(rank_count(cards, a) == 4 ==> ranks_counted(cards, 4).contains(a));
    assert(rank_count(cards, a) == 3 ==> ranks_counted(cards, 3).contains(a));
    assert(rank_count(cards, a) == 2 ==> ranks_counted(cards, 2).contains(a));
}

proof fn shown_two_pair(cards: Seq<Card>, v: HandRank, mode: DeckMode)
    requires
        dealt(cards),
        two_pair_in(cards) == Some(v),
    ensures
        shown(cards, v, mode),
{
    let s = ranks_counted(cards, 2);
    let p = top(s, 14);
    let q = top(s, p - 1);
    top_facts(s, 14);
    top_facts(s, p - 1);
    let present = ranks_of(cards);
    let others = present.remove(p).remove(q);
    let e0 = Set::<int>::empty();
    count_in_facts(cards, e0);
    count_in_insert(cards, e0, p);
    count_in_insert(cards, e0.insert(p), q);
    another_rank(cards, e0.insert(p).insert(q));
    let x = choose|x: int| #[trigger] present.contains(x) && !e0.insert(p).insert(q).contains(x);
    assert(others.contains(x));
    top_facts(others, 14);
    let (a, b) = two_of(cards, p);
    let (c, d) = two_of(cards, q);
    let e = one_of(cards, top(others, 14));
    show(cards, a, b, c, d, e, v, mode);
}

proof fn shown_pair(cards: Seq<Card>, v: HandRank, mode: DeckMode)
    requires
        dealt(cards),
        pair_in(cards) == Some(v),
        two_pair_in(cards) is None,
        trips_in(cards, mode) is None,
        quads_in(cards) is None,
    ensures
        shown(cards, v, mode),
{
    let s = ranks_counted(cards, 2);
    let p = top(s, 14);
    top_facts(s, 14);
    top_facts(s, p - 1);
    top_facts(ranks_counted(cards, 3), 14);
    top_facts(ranks_counted(cards, 4), 14);
    let present = ranks_of(cards);
    let others = present.remove(p);
    assert forall|x: int| #[trigger] others.contains(x) implies rank_count(cards, x) == 1 by {
        rank_count_by_suits(cards, x);
        assert(rank_count(cards, x) == 4 ==> ranks_counted(cards, 4).contains(x));
        assert(rank_count(cards, x) == 3 ==> ranks_counted(cards, 3).contains(x));
        assert(rank_count(cards, x) == 2 ==> ranks_counted(cards, 2).contains(x));
    }
    let e0 = Set::<int>::empty();
    let e1 = e0.insert(p);
    count_in_facts(cards, e0);
    count_in_insert(cards, e0, p);
    another_rank(cards, e1);
    let x = choose|x: int| #[trigger] present.contains(x) && !e1.contains(x);
    assert(others.contains(x));
    top_facts(others, 14);
    let a = top(others, 14);
    let e2 = e1.insert(a);
    count_in_insert(cards, e1, a);
    another_rank(cards, e2);
    let y = choose|y: int| #[trigger] present.contains(y) && !e2.contains(y);
    assert(others.contains(y));
    top_facts(others, a - 1);
    let b = top(others, a - 1);
    let e3 = e2.insert(b);
    count_in_insert(cards, e2, b);
    another_rank(cards, e3);
    let z = choose|z: int| #[trigger] present.contains(z) && !e3.contains(z);
    assert(others.contains(z));
    top_facts(others, b - 1);
    let c = top(others, b - 1);
    let (c0, c1) = two_of(cards, p);
    let c2 = one_of(cards, a);
    let c3 = one_of(cards, b);
    let c4 = one_of(cards, c);
    show(cards, c0, c1, c2, c3, c4, v, mode);
}

proof fn shown_high_card(cards: Seq<Card>, mode: DeckMode)
    requires
        dealt(cards),
        pair_in(cards) is None,
        trips_in(cards, mode) is None,
        quads_in(cards) is None,
    ensures
        shown(cards, five_highest(0, ranks_of(cards)), mode),
{
    top_facts(ranks_counted(cards, 2), 14);
    top_facts(ranks_counted(cards, 3), 14);
    top_facts(ranks_counted(cards, 4), 14);
    let s = ranks_of(cards);
    assert forall|x: int| #[trigger] s.contains(x) implies rank_count(cards, x) == 1 by {
        rank_count_by_suits(cards, x);
        assert(rank_count(cards, x) == 4 ==> ranks_counted(cards, 4).contains(x));
        assert(rank_count(cards, x) == 3 ==> ranks_counted(cards, 3).contains(x));
        assert(rank_count(cards, x) == 2 ==> ranks_counted(cards, 2).contains(x));
    }
    let e0 = Set::<int>::empty();
    count_in_facts(cards, e0);
    another_rank(cards, e0);
    let x0 = choose|x: int| #[trigger] s.contains(x) && !e0.contains(x);
    top_facts(s, 14);
    let a = top(s, 14);
    let e1 = e0.insert(a);
    count_in_insert(cards, e0, a);
    another_rank(cards, e1);
    let x1 = choose|x: int| #[trigger] s.contains(x) && !e1.contains(x);
    top_facts(s, a - 1);
    let b = top(s, a - 1);
    let e2 = e1.insert(b);
    count_in_insert(cards, e1, b);
    another_rank(cards, e2);
    let x2 = choose|x: int| #[trigger] s.contains(x) && !e2.contains(x);
    top_facts(s, b - 1);
    let c = top(s, b - 1);
    let e3 = e2.insert(c);
    count_in_insert(cards, e2, c);
    another_rank(cards, e3);
    let x3 = choose|x: int| #[trigger] s.contains(x) && !e3.contains(x);
    top_facts(s, c - 1);
    let d = top(s, c - 1);
    let e4 = e3.insert(d);
    count_in_insert(cards, e3, d);
    another_rank(cards, e4);
    let x4 = choose|x: int| #[trigger] s.contains(x) && !e4.contains(x);
    top_facts(s, d - 1);
    let e = top(s, d - 1);
    let c0 = one_of(cards, a);
    let c1 = one_of(cards, b);
    let c2 = one_of(cards, c);
    let c3 = one_of(cards, d);
    let c4 = one_of(cards, e);
    show(cards, c0, c1, c2, c3, c4, five_highest(0, s), mode);
}

proof fn value_is_shown(cards: Seq<Card>, mode: DeckMode)
    requires
        dealt(cards),
    ensures
        shown(cards, hand_value(cards, mode), mode),
{
    value_facts(cards, mode);
    let v = hand_value(cards, mode);
    if straight_flush_in(cards, mode) == Some(v) {
        shown_straight_flush(cards, v, mode);
    } else if flush_in(cards, mode) == Some(v) {
        shown_flush(cards, v, mode);
    } else if quads_in(cards) == Some(v) {
        shown_quads(cards, v, mode);
    } else if full_house_in(cards, mode) == Some(v) {
        shown_full_house(cards, v, mode);
    } else if straight_in(cards, mode) == Some(v) {
        shown_straight(cards, straight_high(ranks_of(cards), mode), mode);
    } else {
        categories(cards, mode);
        if trips_in(cards, mode) == Some(v) {
            shown_trips(cards, v, mode);
        } else if two_pair_in(cards) == Some(v) {
            shown_two_pair(cards, v, mode);
        } else if pair_in(cards) == Some(v) {
            shown_pair(cards, v, mode);
        } else {
            assert(v == five_highest(0, ranks_of(cards)) || v == hand(0, 0, 0, 0, 0, 0));
            shown_high_card(cards, mode);
            if v == hand(0, 0, 0, 0, 0, 0) {
                score_of_hand(0, 0, 0, 0, 0, 0);
                score_is_injective(v, five_highest(0, ranks_of(cards)));
            }
        }
    }
}

/// The categories of the candidates, as the high digit of their scores.
proof fn categories(cards: Seq<Card>, mode: DeckMode)
    ensures
        quads_in(cards) matches Some(c) ==> c.score() >= digits(7, 0, 0, 0, 0, 0),
        full_house_in(cards, mode) matches Some(c) ==> c.score() >= digits(5, 0, 0, 0, 0, 0),
        trips_in(cards, mode) matches Some(c) ==> digits(3, 0, 0, 0, 0, 0) <= c.score() < digits(5, 0, 0, 0, 0, 0),
        two_pair_in(cards) matches Some(c) ==> digits(2, 0, 0, 0, 0, 0) <= c.score() < digits(3, 0, 0, 0, 0, 0),
        pair_in(cards) matches Some(c) ==> digits(1, 0, 0, 0, 0, 0) <= c.score() < digits(2, 0, 0, 0, 0, 0),
        0 <= five_highest(0, ranks_of(cards)).score() < digits(1, 0, 0, 0, 0, 0),
{
}

// ---- laws ----

/// The value of a hand is what its best five cards show: some five of the cards
/// show it, and no five show more.
pub proof fn value_is_the_best_shown(cards: Seq<Card>, mode: DeckMode)
    requires
        dealt(cards),
    ensures
        shown(cards, hand_value(cards, mode), mode),
        forall|f: Seq<Card>, v: HandRank| five_of(f, cards) && #[trigger] shows(f, v, mode) ==> v.score()
            <= hand_value(cards, mode).score(),
{
    value_is_shown(cards, mode);
    assert forall|f: Seq<Card>, v: HandRank| five_of(f, cards) && #[trigger] shows(f, v, mode) implies v.score()
        <= hand_value(cards, mode).score() by {
        shown_is_bounded(cards, f, v, mode);
    }
}

proof fn five_are_dealt(f: Seq<Card>, cards: Seq<Card>)
    requires
        dealt(cards),
        five_of(f, cards),
    ensures
        dealt(f),
{
    assert forall|i: int| 0 <= i < f.len() implies (#[trigger] f[i]).valid() by {
        member_valid(cards, f[i]);
    }
}

/// No five of the cards are worth more than all of them together, and some five
/// are worth as much.
pub proof fn value_is_that_of_the_best_five(cards: Seq<Card>, mode: DeckMode)
    requires
        dealt(cards),
    ensures
        forall|f: Seq<Card>| #[trigger] five_of(f, cards) ==> hand_value(f, mode).score() <= hand_value(cards, mode).score(),
        exists|f: Seq<Card>| #[trigger] five_of(f, cards) && hand_value(f, mode) == hand_value(cards, mode),
{
    assert forall|f: Seq<Card>| #[trigger] five_of(f, cards) implies hand_value(f, mode).score()
        <= hand_value(cards, mode).score() by {
        five_are_dealt(f, cards);
        value_is_shown(f, mode);
        let g = choose|g: Seq<Card>| #[trigger] five_of(g, f) && shows(g, hand_value(f, mode), mode);
        assert forall|i: int| 0 <= i < 5 implies cards.contains(#[trigger] g[i]) by {
            assert(f.contains(g[i]));
        }
        assert(five_of(g, cards));
        shown_is_bounded(cards, g, hand_value(f, mode), mode);
    }
    let v = hand_value(cards, mode);
    value_is_shown(cards, mode);
    let f = choose|f: Seq<Card>| #[trigger] five_of(f, cards) && shows(f, v, mode);
    five_are_dealt(f, cards);
    assert(five_of(f, f));
    shown_is_bounded(f, f, v, mode);
    score_is_injective(hand_value(f, mode), v);
}

/// The order of the cards does not matter.
pub proof fn order_does_not_matter(a: Seq<Card>, b: Seq<Card>, mode: DeckMode)
    requires
        dealt(a),
        dealt(b),
        forall|c: Card| a.contains(c) <==> b.contains(c),
    ensures
        hand_value(a, mode) == hand_value(b, mode),
{
    no_more_from_fewer(a, b, mode);
    no_more_from_fewer(b, a, mode);
    score_is_injective(hand_value(a, mode), hand_value(b, mode));
}

/// Cards added to a hand never make it worth less.
pub proof fn no_more_from_fewer(a: Seq<Card>, b: Seq<Card>, mode: DeckMode)
    requires
        dealt(a),
        dealt(b),
        forall|c: Card| a.contains(c) ==> b.contains(c),
    ensures
        hand_value(a, mode).score() <= hand_value(b, mode).score(),
{
    value_is_shown(a, mode);
    let f = choose|f: Seq<Card>| #[trigger] five_of(f, a) && shows(f, hand_value(a, mode), mode);
    assert(five_of(f, b));
    shown_is_bounded(b, f, hand_value(a, mode), mode);
}

/// The cards out of `keep`, in their order.
spec fn kept(cards: Seq<Card>, keep: Seq<Card>) -> Seq<Card>
    decreases cards.len(),
{
    if cards.len() == 0 {
        Seq::empty()
    } else if keep.contains(cards[0]) {
        seq![cards[0]] + kept(cards.skip(1), keep)
    } else {
        kept(cards.skip(1), keep)
    }
}

proof fn kept_facts(cards: Seq<Card>, keep: Seq<Card>)
    requires
        cards.no_duplicates(),
    ensures
        kept(cards, keep).no_duplicates(),
        forall|c: Card| #[trigger] kept(cards, keep).contains(c) <==> cards.contains(c) && keep.contains(c),
    decreases cards.len(),
{
    if cards.len() > 0 {
        let rest = cards.skip(1);
        kept_facts(rest, keep);
        let k = kept(rest, keep);
        let all = kept(cards, keep);
        assert forall|c: Card| cards.contains(c) <==> c == cards[0] || rest.contains(c) by {
            if cards.contains(c) {
                let n = choose|n: int| 0 <= n < cards.len() && cards[n] == c;
                if n > 0 {
                    assert(rest[n - 1] == c);
                }
            }
            if rest.contains(c) {
                let n = choose|n: int| 0 <= n < rest.len() && rest[n] == c;
                assert(cards[n + 1] == c);
            }
            assert(cards.contains(cards[0]));
        }
        assert(!rest.contains(cards[0])) by {
            if rest.contains(cards[0]) {
                let n = choose|n: int| 0 <= n < rest.len() && rest[n] == cards[0];
                assert(cards[n + 1] == cards[0]);
            }
        }
        if keep.contains(cards[0]) {
            assert forall|c: Card| #[trigger] all.contains(c) <==> c == cards[0] || k.contains(c) by {
                if k.contains(c) {
                    let n = choose|n: int| 0 <= n < k.len() && k[n] == c;
                    assert(all[n + 1] == c);
                }
                assert(all[0] == cards[0]);
                if all.contains(c) {
                    let n = choose|n: int| 0 <= n < all.len() && all[n] == c;
                    if n > 0 {
                        assert(k[n - 1] == c);
                    }
                }
            }
            assert forall|i: int, j: int| 0 <= i < all.len() && 0 <= j < all.len() && i != j implies all[i] != all[j] by {
                if i > 0 {
                    assert(k.contains(k[i - 1]));
                }
                if j > 0 {
                    assert(k.contains(k[j - 1]));
                }
            }
        }
    }
}

proof fn kept_is_a_combo(cards: Seq<Card>, keep: Seq<Card>)
    ensures
        exists|i: int| 0 <= i < combos(cards, kept(cards, keep).len()).len()
            && #[trigger] combos(cards, kept(cards, keep).len())[i] == kept(cards, keep),
    decreases cards.len(),
{
    let k = kept(cards, keep);
    let n = k.len();
    if n == 0 {
        assert(combos(cards, n)[0] =~= k);
    } else {
        let rest = cards.skip(1);
        kept_is_a_combo(rest, keep);
        let kr = kept(rest, keep);
        let i = choose|i: int| 0 <= i < combos(rest, kr.len()).len() && #[trigger] combos(rest, kr.len())[i] == kr;
        let first = combos(rest, (n - 1) as nat).map_values(|c: Seq<Card>| seq![cards[0]] + c);
        assert(combos(cards, n) == first + combos(rest, n));
        if keep.contains(cards[0]) {
            assert(combos(cards, n)[i] == seq![cards[0]] + kr);
        } else {
            assert(combos(cards, n)[first.len() + i] == kr);
        }
    }
}

/// The best of the five-card combinations is worth what the whole hand is
/// worth: searching the combinations and evaluating the hand directly agree.
pub proof fn best_combination_has_the_value(cards: Seq<Card>, mode: DeckMode, k: int)
    requires
        dealt(cards),
        is_last_best(combos(cards, 5), mode, k),
    ensures
        hand_value(combos(cards, 5)[k], mode) == hand_value(cards, mode),
{
    let all = combos(cards, 5);
    super::hand::combos_are_picked(cards, 5, k);
    assert(five_of(all[k], cards));
    value_is_that_of_the_best_five(cards, mode);
    let f = choose|f: Seq<Card>| #[trigger] five_of(f, cards) && hand_value(f, mode) == hand_value(cards, mode);
    let g = kept(cards, f);
    kept_facts(cards, f);
    kept_is_a_combo(cards, f);
    assert forall|c: Card| g.contains(c) <==> f.contains(c) by {
        if f.contains(c) {
            let n = choose|n: int| 0 <= n < f.len() && f[n] == c;
            assert(cards.contains(f[n]));
        }
    }
    assert(g.to_set() =~= f.to_set());
    g.unique_seq_to_set();
    f.unique_seq_to_set();
    let i = choose|i: int| 0 <= i < combos(cards, g.len()).len() && #[trigger] combos(cards, g.len())[i] == g;
    assert(all[i] == g);
    five_are_dealt(f, cards);
    assert forall|i: int| 0 <= i < 5 implies cards.contains(#[trigger] g[i]) by {
        assert(g.contains(g[i]));
    }
    five_are_dealt(g, cards);
    order_does_not_matter(f, g, mode);
    score_is_injective(hand_value(all[k], mode), hand_value(cards, mode));
}

/// A better category wins, whatever the kickers are.
pub proof fn the_category_decides(a: HandRank, b: HandRank)
    requires
        a.category > b.category,
    ensures
        a.score() > b.score(),
{
}

/// Three cards of one rank and two of another, laid out in this order.
pub open spec fn is_full_house(f: Seq<Card>) -> bool {
    f[0].rank == f[1].rank && f[1].rank == f[2].rank && f[3].rank == f[4].rank && f[3].rank != f[0].rank
}

/// Three cards of one rank and two others, laid out in this order.
pub open spec fn is_trips(f: Seq<Card>) -> bool {
    f[0].rank == f[1].rank && f[1].rank == f[2].rank && f[3].rank.0 > f[4].rank.0 && f[3].rank != f[0].rank
        && f[4].rank != f[0].rank
}

/// Five cards in a row, laid out in this order.
pub open spec fn is_straight(f: Seq<Card>, mode: DeckMode) -> bool {
    runs_down(f, f[0].rank.0 as int, mode)
}

proof fn five_are_five_of_themselves(f: Seq<Card>)
    requires
        dealt(f),
        f.len() == 5,
    ensures
        five_of(f, f),
{
}

/// A full house is worth one.
proof fn full_house_category(g: Seq<Card>, mode: DeckMode)
    requires
        dealt(g),
        g.len() == 5,
        is_full_house(g),
    ensures
        hand_value(g, mode).category == remapped(6, mode),
{
    let v = hand_value(g, mode);
    value_is_shown(g, mode);
    let h = choose|h: Seq<Card>| #[trigger] five_of(h, g) && shows(h, v, mode);
    five_are_five_of_themselves(g);
    let w = hand(remapped(6, mode) as int, g[0].rank.0 as int, g[3].rank.0 as int, 0, 0, 0);
    assert(shows(g, w, mode));
    shown_is_bounded(g, g, w, mode);
    assert(g.contains(h[0]) && g.contains(h[1]) && g.contains(h[2]) && g.contains(h[3]) && g.contains(h[4]));
    assert(h[0] != h[1] && h[0] != h[2] && h[0] != h[3] && h[1] != h[2] && h[1] != h[3] && h[2] != h[3]);
    if v.category < w.category {
        the_category_decides(w, v);
    }
}

/// Three of a kind are worth that.
proof fn trips_category(g: Seq<Card>, mode: DeckMode)
    requires
        dealt(g),
        g.len() == 5,
        is_trips(g),
    ensures
        hand_value(g, mode).category == remapped(3, mode),
{
    let v = hand_value(g, mode);
    value_is_shown(g, mode);
    let h = choose|h: Seq<Card>| #[trigger] five_of(h, g) && shows(h, v, mode);
    five_are_five_of_themselves(g);
    let w = hand(
        remapped(3, mode) as int,
        g[0].rank.0 as int,
        g[3].rank.0 as int,
        g[4].rank.0 as int,
        0,
        0,
    );
    assert(shows(g, w, mode));
    shown_is_bounded(g, g, w, mode);
    assert(g.contains(h[0]) && g.contains(h[1]) && g.contains(h[2]) && g.contains(h[3]) && g.contains(h[4]));
    assert(h[0] != h[1] && h[0] != h[2] && h[0] != h[3] && h[1] != h[2] && h[1] != h[3] && h[2] != h[3]);
    assert(h[3] != h[4]);
    if v.category < w.category {
        the_category_decides(w, v);
    }
}

/// Five cards of one suit are worth a flush, or a straight flush.
proof fn flush_category(f: Seq<Card>, mode: DeckMode)
    requires
        dealt(f),
        f.len() == 5,
        one_suit(f),
        falls(f),
    ensures
        hand_value(f, mode).category == remapped(5, mode) || hand_value(f, mode).category >= 8
            && exists|h: Seq<Card>| #[trigger] five_of(h, f) && is_straight(h, mode),
{
    let v = hand_value(f, mode);
    value_is_shown(f, mode);
    let h = choose|h: Seq<Card>| #[trigger] five_of(h, f) && shows(h, v, mode);
    five_are_five_of_themselves(f);
    let w = hand(
        remapped(5, mode) as int,
        f[0].rank.0 as int,
        f[1].rank.0 as int,
        f[2].rank.0 as int,
        f[3].rank.0 as int,
        f[4].rank.0 as int,
    );
    assert(shows(f, w, mode));
    shown_is_bounded(f, f, w, mode);
    assert(f.contains(h[0]) && f.contains(h[1]) && f.contains(h[2]) && f.contains(h[3]) && f.contains(h[4]));
    assert(h[0] != h[1] && h[0] != h[2] && h[1] != h[2] && h[2] != h[3] && h[3] != h[4]);
    if v.category < w.category {
        the_category_decides(w, v);
    }
}

/// Five cards in a row that are not of one suit are worth a straight.
proof fn straight_category(f: Seq<Card>, mode: DeckMode)
    requires
        dealt(f),
        f.len() == 5,
        is_straight(f, mode),
        !one_suit(f),
    ensures
        hand_value(f, mode) == hand(remapped(4, mode) as int, f[0].rank.0 as int, 0, 0, 0, 0),
{
    let v = hand_value(f, mode);
    value_is_shown(f, mode);
    let h = choose|h: Seq<Card>| #[trigger] five_of(h, f) && shows(h, v, mode);
    five_are_five_of_themselves(f);
    let w = hand(remapped(4, mode) as int, f[0].rank.0 as int, 0, 0, 0, 0);
    assert(shows(f, w, mode));
    shown_is_bounded(f, f, w, mode);
    assert(f.contains(h[0]) && f.contains(h[1]) && f.contains(h[2]) && f.contains(h[3]) && f.contains(h[4]));
    assert(h[0] != h[1] && h[0] != h[2] && h[0] != h[3] && h[0] != h[4] && h[1] != h[2] && h[1] != h[3]);
    assert(h[1] != h[4] && h[2] != h[3] && h[2] != h[4] && h[3] != h[4]);
    if v.category < w.category {
        the_category_decides(w, v);
    }
}

/// With the short deck a flush beats a full house. With the full deck it is the
/// other way round, unless the flush is a straight too.
pub proof fn flush_against_full_house(flush: Seq<Card>, full: Seq<Card>, mode: DeckMode)
    requires
        dealt(flush),
        dealt(full),
        flush.len() == 5,
        full.len() == 5,
        one_suit(flush),
        falls(flush),
        is_full_house(full),
    ensures
        mode == DeckMode::ShortDeck ==> hand_value(flush, mode).score() > hand_value(full, mode).score(),
        mode == DeckMode::Standard && !(exists|h: Seq<Card>| #[trigger] five_of(h, flush) && is_straight(h, mode))
            ==> hand_value(full, mode).score() > hand_value(flush, mode).score(),
{
    flush_category(flush, mode);
    full_house_category(full, mode);
    let a = hand_value(flush, mode);
    let b = hand_value(full, mode);
    if a.category > b.category {
        the_category_decides(a, b);
    } else {
        the_category_decides(b, a);
    }
}

/// With the short deck three of a kind beat a straight. With the full deck it is
/// the other way round.
pub proof fn trips_against_straight(trips: Seq<Card>, straight: Seq<Card>, mode: DeckMode)
    requires
        dealt(trips),
        dealt(straight),
        trips.len() == 5,
        straight.len() == 5,
        is_trips(trips),
        is_straight(straight, mode),
        !one_suit(straight),
    ensures
        mode == DeckMode::ShortDeck ==> hand_value(trips, mode).score() > hand_value(straight, mode).score(),
        mode == DeckMode::Standard ==> hand_value(straight, mode).score() > hand_value(trips, mode).score(),
{
    trips_category(trips, mode);
    straight_category(straight, mode);
    let a = hand_value(trips, mode);
    let b = hand_value(straight, mode);
    if a.category > b.category {
        the_category_decides(a, b);
    } else {
        the_category_decides(b, a);
    }
}

/// The lowest straight of the short deck is A-6-7-8-9, that of the full deck
/// A-2-3-4-5; it counts from its highest card below the ace.
pub proof fn the_ace_ends_the_lowest_straight(f: Seq<Card>, mode: DeckMode)
    requires
        dealt(f),
        f.len() == 5,
        !one_suit(f),
        f[0].rank.0 == mode.low() + 3,
        f[1].rank.0 == mode.low() + 2,
        f[2].rank.0 == mode.low() + 1,
        f[3].rank.0 == mode.low(),
        f[4].rank.0 == 14,
    ensures
        is_straight(f, mode),
        hand_value(f, mode) == hand(remapped(4, mode) as int, mode.low() + 3, 0, 0, 0, 0),
{
    straight_category(f, mode);
}

} // verus!
