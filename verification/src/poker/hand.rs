//! Ranking of hold'em hands.
//!
//! A hand of five to seven cards is ranked in one pass over the cards: how many
//! there are of each rank, how many of each suit, and which ranks each suit
//! holds. Sets of ranks are 13-bit masks in which bit `r - 2` stands for rank
//! `r`.

use vstd::prelude::*;
use itertools::Itertools;
use super::{Card, DeckMode};

verus! {

/// The worth of a hand: first the category, then the kickers in turn.
#[derive(Debug, Clone, Copy, Eq, Ord)]
pub struct HandRank {
    pub category: u8,
    pub kickers: [u8; 5],
}

impl HandRank {
    /// Category and kickers read as the digits of one number. Hands are ordered
    /// by it.
    pub open spec fn score(self) -> int {
        ((((self.category * 256 + self.kickers[0]) * 256 + self.kickers[1]) * 256
            + self.kickers[2]) * 256 + self.kickers[3]) * 256 + self.kickers[4]
    }
}

/// The score tells hands apart: it has the category and each kicker.
pub proof fn score_is_injective(a: HandRank, b: HandRank)
    requires
        a.score() == b.score(),
    ensures
        a == b,
{
    let a0 = a.category * 256 + a.kickers[0];
    let b0 = b.category * 256 + b.kickers[0];
    let a1 = a0 * 256 + a.kickers[1];
    let b1 = b0 * 256 + b.kickers[1];
    let a2 = a1 * 256 + a.kickers[2];
    let b2 = b1 * 256 + b.kickers[2];
    let a3 = a2 * 256 + a.kickers[3];
    let b3 = b2 * 256 + b.kickers[3];
    last_digit(a3, a.kickers[4], b3, b.kickers[4]);
    last_digit(a2, a.kickers[3], b2, b.kickers[3]);
    last_digit(a1, a.kickers[2], b1, b.kickers[2]);
    last_digit(a0, a.kickers[1], b0, b.kickers[1]);
    last_digit(a.category as int, a.kickers[0], b.category as int, b.kickers[0]);
    assert(a.kickers@ =~= b.kickers@);
    assert(a.kickers =~= b.kickers);
}

proof fn last_digit(x: int, a: u8, y: int, b: u8)
    requires
        x * 256 + a == y * 256 + b,
    ensures
        x == y,
        a == b,
{
}

impl PartialEq for HandRank {
    fn eq(&self, other: &Self) -> (r: bool) {
        self.category == other.category && self.kickers[0] == other.kickers[0]
            && self.kickers[1] == other.kickers[1] && self.kickers[2] == other.kickers[2]
            && self.kickers[3] == other.kickers[3] && self.kickers[4] == other.kickers[4]
    }
}

impl vstd::std_specs::cmp::PartialEqSpecImpl for HandRank {
    open spec fn obeys_eq_spec() -> bool {
        true
    }

    open spec fn eq_spec(&self, other: &Self) -> bool {
        self.score() == other.score()
    }
}

impl PartialOrd for HandRank {
    fn partial_cmp(&self, other: &Self) -> (r: Option<core::cmp::Ordering>) {
        if self.category != other.category {
            self.category.partial_cmp(&other.category)
        } else if self.kickers[0] != other.kickers[0] {
            self.kickers[0].partial_cmp(&other.kickers[0])
        } else if self.kickers[1] != other.kickers[1] {
            self.kickers[1].partial_cmp(&other.kickers[1])
        } else if self.kickers[2] != other.kickers[2] {
            self.kickers[2].partial_cmp(&other.kickers[2])
        } else if self.kickers[3] != other.kickers[3] {
            self.kickers[3].partial_cmp(&other.kickers[3])
        } else {
            self.kickers[4].partial_cmp(&other.kickers[4])
        }
    }
}

impl vstd::std_specs::cmp::PartialOrdSpecImpl for HandRank {
    open spec fn obeys_partial_cmp_spec() -> bool {
        true
    }

    open spec fn partial_cmp_spec(&self, other: &Self) -> Option<core::cmp::Ordering> {
        if self.score() < other.score() {
            Some(core::cmp::Ordering::Less)
        } else if self.score() > other.score() {
            Some(core::cmp::Ordering::Greater)
        } else {
            Some(core::cmp::Ordering::Equal)
        }
    }
}

/// Map a category number to its Chinese name. The number's meaning depends on
/// `mode` because short-deck swaps the relative ranks of straight and
/// three-of-a-kind, and of flush and full house.
pub open spec fn category_title(cat: u8, mode: DeckMode) -> Seq<char> {
    match (mode, cat) {
        (_, 0) => "高牌"@,
        (_, 1) => "对子"@,
        (_, 2) => "两对"@,
        (DeckMode::Standard, 3) => "三条"@,
        (DeckMode::Standard, 4) => "顺子"@,
        (DeckMode::Standard, 5) => "同花"@,
        (DeckMode::Standard, 6) => "葫芦"@,
        (DeckMode::ShortDeck, 3) => "顺子"@,
        (DeckMode::ShortDeck, 4) => "三条"@,
        (DeckMode::ShortDeck, 5) => "葫芦"@,
        (DeckMode::ShortDeck, 6) => "同花"@,
        (_, 7) => "四条"@,
        (_, 8) => "同花顺"@,
        (_, 9) => "皇家同花顺"@,
        _ => "?"@,
    }
}

/// The category's name, see [`category_title`].
pub fn category_name(cat: u8, mode: DeckMode) -> (r: &'static str)
    ensures
        r@ == category_title(cat, mode),
{
    match (mode, cat) {
        (_, 0) => "高牌",
        (_, 1) => "对子",
        (_, 2) => "两对",
        // Standard: 3 trips, 4 straight, 5 flush, 6 full house
        (DeckMode::Standard, 3) => "三条",
        (DeckMode::Standard, 4) => "顺子",
        (DeckMode::Standard, 5) => "同花",
        (DeckMode::Standard, 6) => "葫芦",
        // Short deck: 3 straight, 4 trips, 5 full house, 6 flush
        (DeckMode::ShortDeck, 3) => "顺子",
        (DeckMode::ShortDeck, 4) => "三条",
        (DeckMode::ShortDeck, 5) => "葫芦",
        (DeckMode::ShortDeck, 6) => "同花",
        (_, 7) => "四条",
        (_, 8) => "同花顺",
        (_, 9) => "皇家同花顺",
        _ => "?",
    }
}

/// A standard category's number in the mode's order of categories.
pub open spec fn remapped(raw: u8, mode: DeckMode) -> u8 {
    match (mode, raw) {
        (DeckMode::ShortDeck, 3) => 4,
        (DeckMode::ShortDeck, 4) => 3,
        (DeckMode::ShortDeck, 5) => 6,
        (DeckMode::ShortDeck, 6) => 5,
        (_, c) => c,
    }
}

fn remap_category(raw: u8, mode: DeckMode) -> (r: u8)
    ensures
        r == remapped(raw, mode),
{
    match (mode, raw) {
        (DeckMode::ShortDeck, 3) => 4,
        (DeckMode::ShortDeck, 4) => 3,
        (DeckMode::ShortDeck, 5) => 6,
        (DeckMode::ShortDeck, 6) => 5,
        (_, c) => c,
    }
}

/// How many of the cards have rank `r`.
pub open spec fn rank_count(cards: Seq<Card>, r: int) -> nat
    decreases cards.len(),
{
    if cards.len() == 0 {
        0
    } else {
        rank_count(cards.drop_last(), r) + if cards.last().rank.0 == r { 1nat } else { 0nat }
    }
}

/// How many of the cards have the suit with number `s`.
pub open spec fn suit_count(cards: Seq<Card>, s: int) -> nat
    decreases cards.len(),
{
    if cards.len() == 0 {
        0
    } else {
        suit_count(cards.drop_last(), s) + if cards.last().suit.number() == s { 1nat } else { 0nat }
    }
}

/// The ranks that occur exactly `n` times among the cards.
pub open spec fn ranks_counted(cards: Seq<Card>, n: int) -> Set<int> {
    Set::new(|r: int| 2 <= r <= 14 && rank_count(cards, r) == n)
}

/// The ranks that occur among the cards.
pub open spec fn ranks_of(cards: Seq<Card>) -> Set<int> {
    Set::new(|r: int| 2 <= r <= 14 && rank_count(cards, r) > 0)
}

/// Whether a card of rank `r` and of the suit with number `s` is there.
pub open spec fn has_card(cards: Seq<Card>, r: int, s: int) -> bool {
    exists|i: int| 0 <= i < cards.len() && (#[trigger] cards[i]).rank.0 == r
        && cards[i].suit.number() == s
}

/// The ranks that the suit with number `s` holds.
pub open spec fn suit_ranks(cards: Seq<Card>, s: int) -> Set<int> {
    Set::new(|r: int| 2 <= r <= 14 && has_card(cards, r, s))
}

/// The highest rank of the set that is at most `hi`, or 0 if there is none.
pub open spec fn top(ranks: Set<int>, hi: int) -> int
    decreases hi,
{
    if hi < 2 {
        0
    } else if ranks.contains(hi) {
        hi
    } else {
        top(ranks, hi - 1)
    }
}

/// Whether the five ranks up to `t` are all in the set.
pub open spec fn run_to(ranks: Set<int>, t: int) -> bool {
    ranks.contains(t) && ranks.contains(t - 1) && ranks.contains(t - 2) && ranks.contains(t - 3)
        && ranks.contains(t - 4)
}

/// The top of the highest run of five that ends at `t` or below, or 0.
pub open spec fn highest_run(ranks: Set<int>, t: int) -> int
    decreases t,
{
    if t < 6 {
        0
    } else if run_to(ranks, t) {
        t
    } else {
        highest_run(ranks, t - 1)
    }
}

/// The ace below the four lowest ranks of the deck.
pub open spec fn wheel(ranks: Set<int>, mode: DeckMode) -> bool {
    ranks.contains(14) && ranks.contains(mode.low()) && ranks.contains(mode.low() + 1)
        && ranks.contains(mode.low() + 2) && ranks.contains(mode.low() + 3)
}

/// The top rank of the best straight in the set of ranks, or 0.
pub open spec fn straight_high(ranks: Set<int>, mode: DeckMode) -> int {
    if highest_run(ranks, 14) != 0 {
        highest_run(ranks, 14)
    } else if wheel(ranks, mode) {
        mode.low() + 3
    } else {
        0
    }
}

/// The hand rank with these numbers.
pub open spec fn hand(category: int, k0: int, k1: int, k2: int, k3: int, k4: int) -> HandRank {
    HandRank {
        category: category as u8,
        kickers: [k0 as u8, k1 as u8, k2 as u8, k3 as u8, k4 as u8],
    }
}

/// The first suit with at least five cards.
pub open spec fn flush_suit(cards: Seq<Card>) -> Option<int> {
    if suit_count(cards, 0) >= 5 {
        Some(0)
    } else if suit_count(cards, 1) >= 5 {
        Some(1)
    } else if suit_count(cards, 2) >= 5 {
        Some(2)
    } else if suit_count(cards, 3) >= 5 {
        Some(3)
    } else {
        None
    }
}

/// Straight flush or royal flush.
pub open spec fn straight_flush_in(cards: Seq<Card>, mode: DeckMode) -> Option<HandRank> {
    match flush_suit(cards) {
        Some(s) => {
            let t = straight_high(suit_ranks(cards, s), mode);
            if t == 0 {
                None
            } else {
                Some(hand(if t == 14 { 9 } else { 8 }, t, 0, 0, 0, 0))
            }
        },
        None => None,
    }
}

/// Flush, ranked by the five highest cards of the suit.
pub open spec fn flush_in(cards: Seq<Card>, mode: DeckMode) -> Option<HandRank> {
    match flush_suit(cards) {
        Some(s) => Some(five_highest(remapped(5, mode) as int, suit_ranks(cards, s))),
        None => None,
    }
}

/// The hand whose kickers are the five highest of the ranks.
pub open spec fn five_highest(category: int, ranks: Set<int>) -> HandRank {
    let a = top(ranks, 14);
    let b = top(ranks, a - 1);
    let c = top(ranks, b - 1);
    let d = top(ranks, c - 1);
    let e = top(ranks, d - 1);
    hand(category, a, b, c, d, e)
}

/// Four of a kind and the highest other card.
pub open spec fn quads_in(cards: Seq<Card>) -> Option<HandRank> {
    let q = top(ranks_counted(cards, 4), 14);
    if q == 0 {
        None
    } else {
        Some(hand(7, q, top(ranks_of(cards).remove(q), 14), 0, 0, 0))
    }
}

/// Three of a kind with a second three of a kind or a pair.
pub open spec fn full_house_in(cards: Seq<Card>, mode: DeckMode) -> Option<HandRank> {
    let t = top(ranks_counted(cards, 3), 14);
    let u = top(ranks_counted(cards, 3), t - 1);
    let p = if u != 0 { u } else { top(ranks_counted(cards, 2), 14) };
    if t == 0 || p == 0 {
        None
    } else {
        Some(hand(remapped(6, mode) as int, t, p, 0, 0, 0))
    }
}

/// Five ranks in a row.
pub open spec fn straight_in(cards: Seq<Card>, mode: DeckMode) -> Option<HandRank> {
    let t = straight_high(ranks_of(cards), mode);
    if t == 0 {
        None
    } else {
        Some(hand(remapped(4, mode) as int, t, 0, 0, 0, 0))
    }
}

/// Three of a kind and the two highest other ranks.
pub open spec fn trips_in(cards: Seq<Card>, mode: DeckMode) -> Option<HandRank> {
    let t = top(ranks_counted(cards, 3), 14);
    let others = ranks_of(cards).remove(t);
    let a = top(others, 14);
    let b = top(others, a - 1);
    if t == 0 {
        None
    } else {
        Some(hand(remapped(3, mode) as int, t, a, b, 0, 0))
    }
}

/// The two highest pairs and the highest other card.
pub open spec fn two_pair_in(cards: Seq<Card>) -> Option<HandRank> {
    let p = top(ranks_counted(cards, 2), 14);
    let q = top(ranks_counted(cards, 2), p - 1);
    if p == 0 || q == 0 {
        None
    } else {
        Some(hand(2, p, q, top(ranks_of(cards).remove(p).remove(q), 14), 0, 0))
    }
}

/// The highest pair and the three highest other ranks.
pub open spec fn pair_in(cards: Seq<Card>) -> Option<HandRank> {
    let p = top(ranks_counted(cards, 2), 14);
    let others = ranks_of(cards).remove(p);
    let a = top(others, 14);
    let b = top(others, a - 1);
    let c = top(others, b - 1);
    if p == 0 {
        None
    } else {
        Some(hand(1, p, a, b, c, 0))
    }
}

/// The better of a hand and a candidate, where there is one.
pub open spec fn better(best: HandRank, candidate: Option<HandRank>) -> HandRank {
    match candidate {
        Some(c) => if c.score() > best.score() { c } else { best },
        None => best,
    }
}

/// The best of everything that the cards hold.
#[verifier::opaque]
pub open spec fn hand_value(cards: Seq<Card>, mode: DeckMode) -> HandRank {
    let best = hand(0, 0, 0, 0, 0, 0);
    let best = better(best, straight_flush_in(cards, mode));
    let best = better(best, flush_in(cards, mode));
    let best = better(best, quads_in(cards));
    let best = better(best, full_house_in(cards, mode));
    let best = better(best, straight_in(cards, mode));
    let best = better(best, trips_in(cards, mode));
    let best = better(best, two_pair_in(cards));
    let best = better(best, pair_in(cards));
    better(best, Some(five_highest(0, ranks_of(cards))))
}

// ---- masks ----

/// Whether the bit of rank `r` is set.
spec fn mask_has(m: u16, r: int) -> bool {
    m & (1u16 << ((r - 2) as u16)) != 0
}

/// The ranks whose bits are set.
spec fn mask_ranks(m: u16) -> Set<int> {
    Set::new(|r: int| 2 <= r <= 14 && mask_has(m, r))
}

proof fn bit_facts(m: u16, n: u16, a: u16, b: u16)
    requires
        a < 13,
        b < 13,
    ensures
        ((m | (1u16 << a)) & (1u16 << b) != 0) <==> (m & (1u16 << b) != 0) || a == b,
        ((m & !(1u16 << a)) & (1u16 << b) != 0) <==> (m & (1u16 << b) != 0) && a != b,
        ((m | n) & (1u16 << b) != 0) <==> (m & (1u16 << b) != 0) || (n & (1u16 << b) != 0),
        0u16 & (1u16 << b) == 0,
        m < 0x2000 ==> (m | (1u16 << a)) < 0x2000,
        m < 0x2000 && n < 0x2000 ==> (m | n) < 0x2000,
{
    assert(((m | (1u16 << a)) & (1u16 << b) != 0) <==> ((m & (1u16 << b) != 0) || a == b)) by (bit_vector)
        requires a < 13, b < 13;
    assert(((m & !(1u16 << a)) & (1u16 << b) != 0) <==> ((m & (1u16 << b) != 0) && a != b)) by (bit_vector)
        requires a < 13, b < 13;
    assert(((m | n) & (1u16 << b) != 0) <==> ((m & (1u16 << b) != 0) || (n & (1u16 << b) != 0))) by (bit_vector);
    assert(0u16 & (1u16 << b) == 0) by (bit_vector);
    assert(m < 0x2000 ==> (m | (1u16 << a)) < 0x2000) by (bit_vector) requires a < 13;
    assert(m < 0x2000 && n < 0x2000 ==> (m | n) < 0x2000) by (bit_vector);
}

/// Setting the bit of a rank puts the rank into the set.
proof fn mask_insert(m: u16, r: u8)
    requires
        2 <= r <= 14,
    ensures
        mask_ranks(m | (1u16 << ((r - 2) as u16))) == mask_ranks(m).insert(r as int),
        m < 0x2000 ==> (m | (1u16 << ((r - 2) as u16))) < 0x2000,
{
    let n = m | (1u16 << ((r - 2) as u16));
    bit_facts(m, 0, (r - 2) as u16, 0);
    assert forall|q: int| 2 <= q <= 14 implies mask_has(n, q) == (mask_has(m, q) || q == r) by {
        bit_facts(m, 0, (r - 2) as u16, (q - 2) as u16);
    }
    assert(mask_ranks(n) =~= mask_ranks(m).insert(r as int));
}

/// Clearing the bit of a rank takes the rank out of the set.
proof fn mask_remove(m: u16, r: u8)
    requires
        2 <= r <= 14,
    ensures
        mask_ranks(m & !(1u16 << ((r - 2) as u16))) == mask_ranks(m).remove(r as int),
{
    let n = m & !(1u16 << ((r - 2) as u16));
    assert forall|q: int| 2 <= q <= 14 implies mask_has(n, q) == (mask_has(m, q) && q != r) by {
        bit_facts(m, 0, (r - 2) as u16, (q - 2) as u16);
    }
    assert(mask_ranks(n) =~= mask_ranks(m).remove(r as int));
}

proof fn mask_union(m: u16, n: u16)
    ensures
        mask_ranks(m | n) == mask_ranks(m).union(mask_ranks(n)),
        m < 0x2000 && n < 0x2000 ==> (m | n) < 0x2000,
{
    bit_facts(m, n, 0, 0);
    assert forall|q: int| 2 <= q <= 14 implies mask_has(m | n, q) == (mask_has(m, q) || mask_has(n, q)) by {
        bit_facts(m, n, 0, (q - 2) as u16);
    }
    assert(mask_ranks(m | n) =~= mask_ranks(m).union(mask_ranks(n)));
}

proof fn mask_empty()
    ensures
        mask_ranks(0) == Set::<int>::empty(),
{
    assert forall|q: int| 2 <= q <= 14 implies !mask_has(0, q) by {
        bit_facts(0, 0, 0, (q - 2) as u16);
    }
    assert(mask_ranks(0) =~= Set::<int>::empty());
}

/// The highest rank of the mask below `below`, or 0.
fn highest_rank(mask: u16, below: u8) -> (r: u8)
    requires
        below <= 15,
    ensures
        r == top(mask_ranks(mask), below - 1),
        r < below || r == 0,
        r == 0 || 2 <= r <= 14,
{
    let mut r: u8 = below;
    while r > 2
        invariant
            r <= below <= 15,
            below > 2 ==> r >= 2,
            top(mask_ranks(mask), below - 1) == top(mask_ranks(mask), r - 1),
        decreases r,
    {
        r = r - 1;
        if mask & (1u16 << ((r - 2) as u16)) != 0 {
            assert(mask_has(mask, r as int));
            return r;
        }
        assert(!mask_has(mask, r as int));
    }
    0
}

proof fn highest_run_found(ranks: Set<int>, t: int, hi: int)
    requires
        6 <= t <= hi,
        run_to(ranks, t),
        forall|k: int| t < k <= hi ==> !#[trigger] run_to(ranks, k),
    ensures
        highest_run(ranks, hi) == t,
    decreases hi,
{
    if t < hi {
        assert(!run_to(ranks, hi));
        highest_run_found(ranks, t, hi - 1);
    }
}

proof fn highest_run_missing(ranks: Set<int>, hi: int)
    requires
        forall|k: int| 6 <= k <= hi ==> !#[trigger] run_to(ranks, k),
    ensures
        highest_run(ranks, hi) == 0,
    decreases hi,
{
    if hi >= 6 {
        assert(!run_to(ranks, hi));
        highest_run_missing(ranks, hi - 1);
    }
}

/// Bit `j` of the mask met with its shifts marks a run of five from bit `j` up.
proof fn conjunction_marks_runs(m: u16, j: u16)
    requires
        j < 9,
    ensures
        ({
            let conjunction = m & (m >> 1) & (m >> 2) & (m >> 3) & (m >> 4);
            ((conjunction >> j) & 1u16 == 1) <==> run_to(mask_ranks(m), j + 6)
        }),
{
    let conjunction = m & (m >> 1) & (m >> 2) & (m >> 3) & (m >> 4);
    let a = (j + 1) as u16;
    let b = (j + 2) as u16;
    let c = (j + 3) as u16;
    let d = (j + 4) as u16;
    assert(((conjunction >> j) & 1u16 == 1) <==> (m & (1u16 << j) != 0 && m & (1u16 << a) != 0
        && m & (1u16 << b) != 0 && m & (1u16 << c) != 0 && m & (1u16 << d) != 0)) by (bit_vector)
        requires
            j < 9,
            a == j + 1,
            b == j + 2,
            c == j + 3,
            d == j + 4,
            conjunction == m & (m >> 1) & (m >> 2) & (m >> 3) & (m >> 4),
    ;
    assert(mask_has(m, j + 2) == (m & (1u16 << j) != 0));
    assert(mask_has(m, j + 3) == (m & (1u16 << a) != 0));
    assert(mask_has(m, j + 4) == (m & (1u16 << b) != 0));
    assert(mask_has(m, j + 5) == (m & (1u16 << c) != 0));
    assert(mask_has(m, j + 6) == (m & (1u16 << d) != 0));
}

/// Detect a straight in a 13-bit mask `m`: `Some(i)` where `i` is the bit of the
/// highest straight's top rank, or `None`. The straight with the ace at the
/// bottom is `low_pattern`, its top bit `low_top_idx`.
fn straight_top(m: u16, low_pattern: u16, low_top_idx: u8) -> (r: Option<u8>)
    requires
        m < 0x2000,
    ensures
        r == (if highest_run(mask_ranks(m), 14) != 0 {
            Some((highest_run(mask_ranks(m), 14) - 2) as u8)
        } else if m & low_pattern == low_pattern {
            Some(low_top_idx)
        } else {
            None
        }),
        highest_run(mask_ranks(m), 14) == 0 || 6 <= highest_run(mask_ranks(m), 14) <= 14,
{
    let conjunction = m & (m >> 1) & (m >> 2) & (m >> 3) & (m >> 4);
    assert(conjunction < 0x200) by (bit_vector)
        requires
            m < 0x2000,
            conjunction == m & (m >> 1) & (m >> 2) & (m >> 3) & (m >> 4),
    ;
    proof {
        vstd::std_specs::bits::axiom_u16_leading_zeros(conjunction);
    }
    if conjunction != 0 {
        // The highest set bit is the lowest rank of the highest run of five;
        // its top lies four above.
        let lowest_top: u32 = 15u32.saturating_sub(conjunction.leading_zeros());
        proof {
            let j = lowest_top as u16;
            assert(j < 9 && (conjunction >> j) & 1u16 == 1) by (bit_vector)
                requires
                    conjunction < 0x200,
                    j < 16,
                    (conjunction >> j) & 1u16 != 0,
            ;
            conjunction_marks_runs(m, j);
            assert forall|k: int| j + 6 < k <= 14 implies !#[trigger] run_to(mask_ranks(m), k) by {
                conjunction_marks_runs(m, (k - 6) as u16);
                assert((conjunction >> ((k - 6) as u16)) & 1u16 == 0);
            }
            highest_run_found(mask_ranks(m), j + 6, 14);
        }
        return Some(lowest_top as u8 + 4);
    }
    proof {
        assert forall|k: int| 6 <= k <= 14 implies !#[trigger] run_to(mask_ranks(m), k) by {
            let j = (k - 6) as u16;
            conjunction_marks_runs(m, j);
            assert((0u16 >> j) & 1u16 == 0) by (bit_vector);
        }
        highest_run_missing(mask_ranks(m), 14);
    }
    if (m & low_pattern) == low_pattern {
        return Some(low_top_idx);
    }
    None
}

/// The top rank of the best straight in the mask, or 0.
fn straight_rank(m: u16, mode: DeckMode) -> (r: u8)
    requires
        m < 0x2000,
    ensures
        r == straight_high(mask_ranks(m), mode),
        r <= 14,
{
    let (low_pattern, low_top_idx): (u16, u8) = match mode {
        // A-2-3-4-5
        DeckMode::Standard => (0b1_0000_0000_1111u16, 3u8),
        // A-6-7-8-9
        DeckMode::ShortDeck => (0b1_0000_1111_0000u16, 7u8),
    };
    proof {
        assert(m & 0b1_0000_0000_1111u16 == 0b1_0000_0000_1111u16 <==> (m & (1u16 << 12u16) != 0
            && m & (1u16 << 0u16) != 0 && m & (1u16 << 1u16) != 0 && m & (1u16 << 2u16) != 0
            && m & (1u16 << 3u16) != 0)) by (bit_vector);
        assert(m & 0b1_0000_1111_0000u16 == 0b1_0000_1111_0000u16 <==> (m & (1u16 << 12u16) != 0
            && m & (1u16 << 4u16) != 0 && m & (1u16 << 5u16) != 0 && m & (1u16 << 6u16) != 0
            && m & (1u16 << 7u16) != 0)) by (bit_vector);
        assert(wheel(mask_ranks(m), mode) <==> m & low_pattern == low_pattern);
    }
    match straight_top(m, low_pattern, low_top_idx) {
        Some(top) => top + 2,
        None => 0,
    }
}

/// A card more: the counts of its rank and suit grow, and its suit gets its rank.
proof fn tally_step(cards: Seq<Card>, i: int)
    requires
        0 <= i < cards.len(),
        cards[i].valid(),
    ensures
        forall|r: int| #[trigger] rank_count(cards.take(i + 1), r) == rank_count(cards.take(i), r)
            + if cards[i].rank.0 == r { 1nat } else { 0nat },
        forall|s: int| #[trigger] suit_count(cards.take(i + 1), s) == suit_count(cards.take(i), s)
            + if cards[i].suit.number() == s { 1nat } else { 0nat },
        forall|s: int| #[trigger] suit_ranks(cards.take(i + 1), s) == if cards[i].suit.number() == s {
            suit_ranks(cards.take(i), s).insert(cards[i].rank.0 as int)
        } else {
            suit_ranks(cards.take(i), s)
        },
{
    let seen = cards.take(i);
    let more = cards.take(i + 1);
    assert(more.drop_last() =~= seen);
    assert forall|s: int| #[trigger] suit_ranks(more, s) == if cards[i].suit.number() == s {
        suit_ranks(seen, s).insert(cards[i].rank.0 as int)
    } else {
        suit_ranks(seen, s)
    } by {
        assert forall|r: int| has_card(more, r, s) <==> has_card(seen, r, s) || (cards[i].rank.0 == r
            && cards[i].suit.number() == s) by {
            if has_card(seen, r, s) {
                let k = choose|k: int| 0 <= k < seen.len() && (#[trigger] seen[k]).rank.0 == r
                    && seen[k].suit.number() == s;
                assert(more[k] == seen[k]);
            }
            if has_card(more, r, s) {
                let k = choose|k: int| 0 <= k < more.len() && (#[trigger] more[k]).rank.0 == r
                    && more[k].suit.number() == s;
                if k < i {
                    assert(more[k] == seen[k]);
                }
            }
            assert(more[i] == cards[i]);
        }
        if cards[i].suit.number() == s {
            assert(suit_ranks(more, s) =~= suit_ranks(seen, s).insert(cards[i].rank.0 as int));
        } else {
            assert(suit_ranks(more, s) =~= suit_ranks(seen, s));
        }
    }
}

proof fn rank_count_positive(cards: Seq<Card>, r: int)
    ensures
        rank_count(cards, r) > 0 <==> exists|i: int| 0 <= i < cards.len() && (#[trigger] cards[i]).rank.0 == r,
        rank_count(cards, r) <= cards.len(),
    decreases cards.len(),
{
    if cards.len() > 0 {
        let rest = cards.drop_last();
        rank_count_positive(rest, r);
        if rank_count(rest, r) > 0 {
            let i = choose|i: int| 0 <= i < rest.len() && (#[trigger] rest[i]).rank.0 == r;
            assert(cards[i].rank.0 == r);
        }
        if exists|i: int| 0 <= i < cards.len() && (#[trigger] cards[i]).rank.0 == r {
            let i = choose|i: int| 0 <= i < cards.len() && (#[trigger] cards[i]).rank.0 == r;
            if i < rest.len() {
                assert(rest[i] == cards[i]);
            }
        }
    }
}

/// The ranks that occur are those of the four suits together.
proof fn ranks_of_suits(cards: Seq<Card>)
    ensures
        ranks_of(cards) == suit_ranks(cards, 0).union(suit_ranks(cards, 1)).union(suit_ranks(cards, 2)).union(
            suit_ranks(cards, 3),
        ),
{
    let u = suit_ranks(cards, 0).union(suit_ranks(cards, 1)).union(suit_ranks(cards, 2)).union(
        suit_ranks(cards, 3),
    );
    assert forall|r: int| ranks_of(cards).contains(r) implies u.contains(r) by {
        rank_count_positive(cards, r);
        let i = choose|i: int| 0 <= i < cards.len() && (#[trigger] cards[i]).rank.0 == r;
        let s = cards[i].suit.number();
        assert(has_card(cards, r, s));
        assert(suit_ranks(cards, s).contains(r));
    }
    assert forall|r: int| u.contains(r) implies ranks_of(cards).contains(r) by {
        rank_count_positive(cards, r);
    }
    assert(ranks_of(cards) =~= u);
}

/// The ranks that were counted exactly `n` times, as a mask.
fn ranks_with(counts: &[u8; 13], n: u8, Ghost(cards): Ghost<Seq<Card>>) -> (m: u16)
    requires
        forall|r: int| 2 <= r <= 14 ==> counts[r - 2] == #[trigger] rank_count(cards, r),
    ensures
        mask_ranks(m) == ranks_counted(cards, n as int),
{
    let mut m: u16 = 0;
    let mut r: u8 = 2;
    proof {
        mask_empty();
    }
    while r <= 14
        invariant
            2 <= r <= 15,
            forall|r: int| 2 <= r <= 14 ==> counts[r - 2] == #[trigger] rank_count(cards, r),
            forall|q: int| #[trigger] mask_ranks(m).contains(q) <==> q < r && ranks_counted(cards, n as int).contains(q),
        decreases 15 - r,
    {
        assert(counts[r - 2] == rank_count(cards, r as int));
        if counts[(r - 2) as usize] == n {
            proof {
                mask_insert(m, r);
            }
            m = m | (1u16 << ((r - 2) as u16));
        }
        r = r + 1;
    }
    assert(mask_ranks(m) =~= ranks_counted(cards, n as int));
    m
}

fn maybe_take(best: &mut HandRank, candidate: HandRank)
    ensures
        *final(best) == better(*old(best), Some(candidate)),
{
    if candidate > *best {
        *best = candidate;
    }
}

/// The hand with the five highest ranks of the mask as its kickers.
fn top_five(category: u8, mask: u16) -> (r: HandRank)
    ensures
        r == five_highest(category as int, mask_ranks(mask)),
{
    let a = highest_rank(mask, 15);
    let b = highest_rank(mask, a);
    let c = highest_rank(mask, b);
    let d = highest_rank(mask, c);
    let e = highest_rank(mask, d);
    rank_of(category, a, b, c, d, e)
}

fn rank_of(category: u8, a: u8, b: u8, c: u8, d: u8, e: u8) -> (r: HandRank)
    ensures
        r == hand(category as int, a as int, b as int, c as int, d as int, e as int),
{
    HandRank { category, kickers: [a, b, c, d, e] }
}

/// Evaluate a hand of five to seven cards directly, without a search over its
/// five-card subsets.
pub fn evaluate(cards: &[Card], mode: DeckMode) -> (r: HandRank)
    requires
        5 <= cards@.len() <= 7,
        forall|i: int| 0 <= i < cards@.len() ==> (#[trigger] cards@[i]).valid(),
    ensures
        r == hand_value(cards@, mode),
{
    let mut counts: [u8; 13] = [0u8; 13];
    let mut suit_counts: [u8; 4] = [0u8; 4];
    let mut suit_masks: [u16; 4] = [0u16; 4];
    let ghost all = cards@;
    proof {
        mask_empty();
        assert forall|s: int| #[trigger] suit_ranks(all.take(0), s) == Set::<int>::empty() by {
            assert(suit_ranks(all.take(0), s) =~= Set::<int>::empty());
        }
    }
    let mut i: usize = 0;
    while i < cards.len()
        invariant
            all == cards@,
            i <= all.len() <= 7,
            forall|i: int| 0 <= i < all.len() ==> (#[trigger] all[i]).valid(),
            forall|r: int| 2 <= r <= 14 ==> counts[r - 2] == #[trigger] rank_count(all.take(i as int), r) && counts[r - 2] <= i,
            forall|s: int| 0 <= s < 4 ==> suit_counts[s] == #[trigger] suit_count(all.take(i as int), s) && suit_counts[s] <= i,
            forall|s: int| 0 <= s < 4 ==> mask_ranks(suit_masks[s]) == #[trigger] suit_ranks(all.take(i as int), s) && suit_masks[s] < 0x2000,
        decreases all.len() - i,
    {
        let c = cards[i];
        let r: u8 = c.rank.0;
        let k: usize = (r - 2) as usize;
        let s: usize = c.suit.index() as usize;
        proof {
            tally_step(all, i as int);
            mask_insert(suit_masks[s as int], r);
            assert(counts[k as int] == rank_count(all.take(i as int), r as int));
            assert(mask_ranks(suit_masks[s as int]) == suit_ranks(all.take(i as int), s as int));
            assert(k as u16 == (r - 2) as u16);
            assert(suit_counts[s as int] == suit_count(all.take(i as int), s as int));
        }
        counts[k] = counts[k] + 1;
        suit_counts[s] = suit_counts[s] + 1;
        suit_masks[s] = suit_masks[s] | (1u16 << (k as u16));
        i = i + 1;
    }
    assert(all.take(all.len() as int) =~= all);
    let present: u16 = suit_masks[0] | suit_masks[1] | suit_masks[2] | suit_masks[3];
    proof {
        ranks_of_suits(all);
        mask_union(suit_masks[0], suit_masks[1]);
        mask_union(suit_masks[0] | suit_masks[1], suit_masks[2]);
        mask_union(suit_masks[0] | suit_masks[1] | suit_masks[2], suit_masks[3]);
        assert(mask_ranks(suit_masks[0]) == suit_ranks(all, 0));
        assert(mask_ranks(suit_masks[1]) == suit_ranks(all, 1));
        assert(mask_ranks(suit_masks[2]) == suit_ranks(all, 2));
        assert(mask_ranks(suit_masks[3]) == suit_ranks(all, 3));
        assert(mask_ranks(present) == ranks_of(all));
        assert(suit_counts[0] == suit_count(all, 0));
        assert(suit_counts[1] == suit_count(all, 1));
        assert(suit_counts[2] == suit_count(all, 2));
        assert(suit_counts[3] == suit_count(all, 3));
    }

    let mut best = rank_of(0, 0, 0, 0, 0, 0);

    // ---- Flush, straight flush, royal flush ----
    let flush: usize = if suit_counts[0] >= 5 {
        0
    } else if suit_counts[1] >= 5 {
        1
    } else if suit_counts[2] >= 5 {
        2
    } else if suit_counts[3] >= 5 {
        3
    } else {
        4
    };
    if flush < 4 {
        let sr = suit_masks[flush];
        let top = straight_rank(sr, mode);
        if top != 0 {
            maybe_take(&mut best, rank_of(if top == 14 { 9 } else { 8 }, top, 0, 0, 0, 0));
        }
        maybe_take(&mut best, top_five(remap_category(5, mode), sr));
    }
    let ghost v2 = best;
    assert(best == better(better(hand(0, 0, 0, 0, 0, 0), straight_flush_in(all, mode)), flush_in(all, mode)));

    // ---- Quads ----
    let quads = ranks_with(&counts, 4, Ghost(all));
    let q = highest_rank(quads, 15);
    if q != 0 {
        proof {
            mask_remove(present, q);
        }
        let kicker = highest_rank(present & !(1u16 << ((q - 2) as u16)), 15);
        maybe_take(&mut best, rank_of(7, q, kicker, 0, 0, 0));
    }
    let ghost v3 = best;
    assert(v3 == better(v2, quads_in(all)));

    // ---- Full house: a second triple counts as a pair ----
    let triples = ranks_with(&counts, 3, Ghost(all));
    let pairs = ranks_with(&counts, 2, Ghost(all));
    let t = highest_rank(triples, 15);
    let u = highest_rank(triples, t);
    let p = highest_rank(pairs, 15);
    let p2 = highest_rank(pairs, p);
    let pair_for_fh = if u != 0 { u } else { p };
    if t != 0 && pair_for_fh != 0 {
        maybe_take(&mut best, rank_of(remap_category(6, mode), t, pair_for_fh, 0, 0, 0));
    }
    let ghost v4 = best;
    assert(v4 == better(v3, full_house_in(all, mode)));

    // ---- Straight (any suit) ----
    let top = straight_rank(present, mode);
    if top != 0 {
        maybe_take(&mut best, rank_of(remap_category(4, mode), top, 0, 0, 0, 0));
    }
    let ghost v5 = best;
    assert(v5 == better(v4, straight_in(all, mode)));

    // ---- Trips ----
    if t != 0 {
        proof {
            mask_remove(present, t);
        }
        let others: u16 = present & !(1u16 << ((t - 2) as u16));
        let a = highest_rank(others, 15);
        let b = highest_rank(others, a);
        maybe_take(&mut best, rank_of(remap_category(3, mode), t, a, b, 0, 0));
    }
    let ghost v6 = best;
    assert(v6 == better(v5, trips_in(all, mode)));

    // ---- Two pair ----
    if p != 0 && p2 != 0 {
        proof {
            mask_remove(present, p);
            mask_remove(present & !(1u16 << ((p - 2) as u16)), p2);
        }
        let others: u16 = present & !(1u16 << ((p - 2) as u16)) & !(1u16 << ((p2 - 2) as u16));
        let kicker = highest_rank(others, 15);
        maybe_take(&mut best, rank_of(2, p, p2, kicker, 0, 0));
    }
    let ghost v7 = best;
    assert(v7 == better(v6, two_pair_in(all)));

    // ---- Single pair ----
    if p != 0 {
        proof {
            mask_remove(present, p);
        }
        let others: u16 = present & !(1u16 << ((p - 2) as u16));
        let a = highest_rank(others, 15);
        let b = highest_rank(others, a);
        let c = highest_rank(others, b);
        maybe_take(&mut best, rank_of(1, p, a, b, c, 0));
    }
    assert(best == better(v7, pair_in(all)));

    // ---- High card ----
    maybe_take(&mut best, top_five(0, present));
    proof {
        reveal(hand_value);
    }
    best
}

/// The ways to pick `k` of the cards, each in the cards' own order, listed by
/// the places that are picked, in lexicographic order.
pub open spec fn combos(cards: Seq<Card>, k: nat) -> Seq<Seq<Card>>
    decreases cards.len(),
{
    if k == 0 {
        seq![Seq::empty()]
    } else if cards.len() == 0 {
        Seq::empty()
    } else {
        let rest = cards.skip(1);
        combos(rest, (k - 1) as nat).map_values(|c: Seq<Card>| seq![cards[0]] + c) + combos(rest, k)
    }
}

/// `Itertools::combinations` walks through the `k`-card combinations in
/// lexicographic order of the places picked.
#[verifier::external_body]
fn combinations(cards: &[Card], k: usize) -> (r: Vec<Vec<Card>>)
    ensures
        r@.len() == combos(cards@, k as nat).len(),
        forall|i: int| 0 <= i < r@.len() ==> (#[trigger] r@[i])@ == combos(cards@, k as nat)[i],
{
    cards.iter().copied().combinations(k).collect()
}

/// Each combination has `k` cards, all of them from the cards given.
pub proof fn combos_are_picked(cards: Seq<Card>, k: nat, i: int)
    requires
        0 <= i < combos(cards, k).len(),
    ensures
        combos(cards, k)[i].len() == k,
        forall|j: int| 0 <= j < k ==> cards.contains(#[trigger] combos(cards, k)[i][j]),
        cards.no_duplicates() ==> combos(cards, k)[i].no_duplicates(),
    decreases cards.len(),
{
    if k > 0 {
        let rest = cards.skip(1);
        let with_first = combos(rest, (k - 1) as nat);
        let c = combos(cards, k)[i];
        assert(cards.no_duplicates() ==> rest.no_duplicates());
        assert forall|x: Card| rest.contains(x) implies cards.contains(x) by {
            let n = choose|n: int| 0 <= n < rest.len() && rest[n] == x;
            assert(cards[n + 1] == x);
        }
        if i < with_first.len() {
            combos_are_picked(rest, (k - 1) as nat, i);
            assert(c == seq![cards[0]] + with_first[i]);
            assert(cards.contains(cards[0]));
            assert forall|j: int| 0 <= j < k implies cards.contains(#[trigger] c[j]) by {
                if j > 0 {
                    assert(c[j] == with_first[i][j - 1]);
                }
            }
            if cards.no_duplicates() {
                assert(!rest.contains(cards[0])) by {
                    if rest.contains(cards[0]) {
                        let n = choose|n: int| 0 <= n < rest.len() && rest[n] == cards[0];
                        assert(cards[n + 1] == cards[0]);
                    }
                }
                assert forall|a: int, b: int| 0 <= a < k && 0 <= b < k && a != b implies c[a] != c[b] by {
                    if a > 0 {
                        assert(rest.contains(with_first[i][a - 1]));
                    }
                    if b > 0 {
                        assert(rest.contains(with_first[i][b - 1]));
                    }
                }
            }
        } else {
            combos_are_picked(rest, k, i - with_first.len());
            assert(c == combos(rest, k)[i - with_first.len()]);
        }
    }
}

proof fn combos_exist(cards: Seq<Card>, k: nat)
    requires
        k <= cards.len(),
    ensures
        combos(cards, k).len() > 0,
    decreases cards.len(),
{
    if k > 0 {
        combos_exist(cards.skip(1), (k - 1) as nat);
    }
}

/// Whether number `k` is the best of the hands, the last one where several
/// are equally good.
pub open spec fn is_last_best(hands: Seq<Seq<Card>>, mode: DeckMode, k: int) -> bool {
    &&& 0 <= k < hands.len()
    &&& forall|j: int| 0 <= j <= k ==> hand_value(#[trigger] hands[j], mode).score()
        <= hand_value(hands[k], mode).score()
    &&& forall|j: int| k < j < hands.len() ==> hand_value(#[trigger] hands[j], mode).score()
        < hand_value(hands[k], mode).score()
}

/// The number of the best hand, see [`is_last_best`].
pub open spec fn last_best(hands: Seq<Seq<Card>>, mode: DeckMode) -> int {
    choose|k: int| is_last_best(hands, mode, k)
}

/// The best five of the cards; where several are equally good, the last in the
/// order of [`combos`].
pub open spec fn best_cards(cards: Seq<Card>, mode: DeckMode) -> Seq<Card> {
    combos(cards, 5)[last_best(combos(cards, 5), mode)]
}

/// There is only one last best hand.
proof fn last_best_is(hands: Seq<Seq<Card>>, mode: DeckMode, k: int)
    requires
        is_last_best(hands, mode, k),
    ensures
        last_best(hands, mode) == k,
{
    let j = last_best(hands, mode);
    assert(is_last_best(hands, mode, j));
    if j < k {
        assert(hand_value(hands[k], mode).score() < hand_value(hands[j], mode).score());
    } else if k < j {
        assert(hand_value(hands[j], mode).score() < hand_value(hands[k], mode).score());
    }
}

/// Some hand is the last best of the first `n`.
proof fn some_last_best(hands: Seq<Seq<Card>>, mode: DeckMode, n: int) -> (k: int)
    requires
        0 < n <= hands.len(),
    ensures
        is_last_best(hands.take(n), mode, k),
    decreases n,
{
    let first = hands.take(n);
    if n == 1 {
        0
    } else {
        let k = some_last_best(hands, mode, n - 1);
        let rest = hands.take(n - 1);
        assert forall|j: int| 0 <= j < n - 1 implies #[trigger] first[j] == rest[j] by {}
        if hand_value(first[n - 1], mode).score() >= hand_value(rest[k], mode).score() {
            n - 1
        } else {
            k
        }
    }
}

/// Five or more cards have a best five.
pub proof fn best_cards_facts(cards: Seq<Card>, mode: DeckMode)
    requires
        5 <= cards.len(),
    ensures
        is_last_best(combos(cards, 5), mode, last_best(combos(cards, 5), mode)),
{
    let hands = combos(cards, 5);
    combos_exist(cards, 5);
    let k = some_last_best(hands, mode, hands.len() as int);
    assert(hands.take(hands.len() as int) =~= hands);
    last_best_is(hands, mode, k);
}

/// The best five of the cards, for display at showdown, and what they are worth.
pub fn best_five(cards: &[Card], mode: DeckMode) -> (r: (HandRank, Vec<Card>))
    requires
        5 <= cards@.len(),
        forall|i: int| 0 <= i < cards@.len() ==> (#[trigger] cards@[i]).valid(),
    ensures
        r.1@ == best_cards(cards@, mode),
        r.0 == hand_value(r.1@, mode),
{
    let hands = combinations(cards, 5);
    let ghost all = combos(cards@, 5);
    proof {
        combos_exist(cards@, 5);
        assert forall|i: int| 0 <= i < all.len() implies (#[trigger] all[i]).len() == 5 && forall|j: int|
            0 <= j < 5 ==> (#[trigger] all[i][j]).valid() by {
            combos_are_picked(cards@, 5, i);
        }
    }
    let mut best: usize = 0;
    let mut best_rank = evaluate(hands[0].as_slice(), mode);
    let mut i: usize = 1;
    while i < hands.len()
        invariant
            all == combos(cards@, 5),
            hands@.len() == all.len(),
            forall|i: int| 0 <= i < hands@.len() ==> (#[trigger] hands@[i])@ == all[i],
            forall|i: int| 0 <= i < all.len() ==> (#[trigger] all[i]).len() == 5 && forall|j: int|
                0 <= j < 5 ==> (#[trigger] all[i][j]).valid(),
            best < i <= all.len(),
            best_rank == hand_value(all[best as int], mode),
            forall|j: int| 0 <= j <= best ==> hand_value(#[trigger] all[j], mode).score() <= best_rank.score(),
            forall|j: int| best < j < i ==> hand_value(#[trigger] all[j], mode).score() < best_rank.score(),
        decreases all.len() - i,
    {
        assert(hands@[i as int]@ == all[i as int]);
        let rank = evaluate(hands[i].as_slice(), mode);
        if rank >= best_rank {
            best = i;
            best_rank = rank;
        }
        i = i + 1;
    }
    let mut hands = hands;
    let five = hands.swap_remove(best);
    proof {
        last_best_is(all, mode, best as int);
    }
    (best_rank, five)
}

} // verus!
