//! Starting a hand: the button moves on, cards are dealt, blinds are posted.

use vstd::prelude::*;
use vstd::multiset::Multiset;
use crate::poker::card::ordered_deck;
use crate::poker::{Card, Deck, DeckMode};
use super::table::{holes, live_seats, money, money_same, money_update};
use super::view::{GameView, PlayerView};
use super::{Game, GameError, Stage, MAX_PLAYERS};

verus! {

/// Still in the hand.
pub open spec fn wants_live() -> spec_fn(PlayerView) -> bool {
    |p: PlayerView| p.live()
}

/// The first seat after `from`, going round the table, whose player is wanted;
/// looking from the `k`-th seat after `from` on and no further than `from`
/// itself.
pub open spec fn seek(players: Seq<PlayerView>, want: spec_fn(PlayerView) -> bool, from: int, k: int) -> Option<int>
    decreases players.len() + 1 - k,
{
    if k > players.len() {
        None
    } else {
        let i = (from + k) % (players.len() as int);
        if want(players[i]) {
            Some(i)
        } else {
            seek(players, want, from, k + 1)
        }
    }
}

/// The next seat after `from` that is still in the hand, or `from`.
pub open spec fn next_active(players: Seq<PlayerView>, from: int) -> int {
    match seek(players, wants_live(), from, 1) {
        Some(i) => i,
        None => from,
    }
}

/// The place at which a search from `from` comes past seat `j`.
pub open spec fn turn_of(n: int, from: int, j: int) -> int {
    let f = from % n;
    if j > f { j - f } else { j + n - f }
}

proof fn turn_of_facts(n: int, from: int, j: int)
    requires
        0 < n,
        0 <= from,
        0 <= j < n,
    ensures
        1 <= turn_of(n, from, j) <= n,
        (from + turn_of(n, from, j)) % n == j,
        from < n && j != from ==> turn_of(n, from, j) < n,
{
    let f = from % n;
    let k = turn_of(n, from, j);
    vstd::arithmetic::div_mod::lemma_fundamental_div_mod(from, n);
    let q = from / n;
    if from < n {
        vstd::arithmetic::div_mod::lemma_small_mod(from as nat, n as nat);
    }
    assert(from + k == n * q + (f + k));
    if f + k == j {
        assert((n * q + j) % n == j) by (nonlinear_arith)
            requires
                0 <= j < n,
        ;
    } else {
        assert(n * q + (j + n) == n * (q + 1) + j) by (nonlinear_arith);
        assert((n * (q + 1) + j) % n == j) by (nonlinear_arith)
            requires
                0 <= j < n,
        ;
    }
}

/// A search ends at the first wanted seat that it comes past.
pub proof fn seek_facts(players: Seq<PlayerView>, want: spec_fn(PlayerView) -> bool, from: int, k: int)
    requires
        players.len() > 0,
        0 <= from,
        1 <= k,
    ensures
        match seek(players, want, from, k) {
            Some(i) => 0 <= i < players.len() && want(players[i]) && exists|m: int|
                {
                    &&& k <= m <= players.len()
                    &&& i == #[trigger] ((from + m) % (players.len() as int))
                    &&& forall|l: int| k <= l < m ==> !want(players[#[trigger] ((from + l) % (players.len() as int))])
                },
            None => forall|m: int| k <= m <= players.len() ==> !want(players[#[trigger] ((from + m) % (players.len() as int))]),
        },
    decreases players.len() + 1 - k,
{
    let n = players.len() as int;
    if k <= n {
        let i = (from + k) % n;
        if want(players[i]) {
            assert(i == (from + k) % n);
        } else {
            seek_facts(players, want, from, k + 1);
            match seek(players, want, from, k + 1) {
                Some(i) => {
                    let m = choose|m: int|
                        {
                            &&& k + 1 <= m <= players.len()
                            &&& i == #[trigger] ((from + m) % (players.len() as int))
                            &&& forall|l: int| k + 1 <= l < m ==> !want(players[#[trigger] ((from + l) % (players.len() as int))])
                        };
                    assert(i == (from + m) % n);
                    assert forall|l: int| k <= l < m implies !want(players[#[trigger] ((from + l) % n)]) by {
                        if l == k {
                        }
                    }
                },
                None => {},
            }
        }
    }
}

/// Searching all round finds a wanted seat if there is one, and comes back to
/// `from` only if there is no other.
pub proof fn seek_finds(players: Seq<PlayerView>, want: spec_fn(PlayerView) -> bool, from: int, j: int)
    requires
        0 <= from,
        0 <= j < players.len(),
        want(players[j]),
    ensures
        seek(players, want, from, 1) matches Some(i) && 0 <= i < players.len() && want(players[i]) && (from
            < players.len() && j != from ==> i != from),
{
    let n = players.len() as int;
    seek_facts(players, want, from, 1);
    turn_of_facts(n, from, j);
    let t = turn_of(n, from, j);
    assert(want(players[(from + t) % n]));
    let i = seek(players, want, from, 1)->0;
    let m = choose|m: int|
        {
            &&& 1 <= m <= players.len()
            &&& i == #[trigger] ((from + m) % (players.len() as int))
            &&& forall|l: int| 1 <= l < m ==> !want(players[#[trigger] ((from + l) % (players.len() as int))])
        };
    if from < n && j != from && i == from {
        assert(m <= t);
        assert((from + m) % n != from) by {
            if from + m < n {
                vstd::arithmetic::div_mod::lemma_small_mod((from + m) as nat, n as nat);
            } else {
                vstd::arithmetic::div_mod::lemma_mod_add_multiples_vanish(from + m - n, n);
                vstd::arithmetic::div_mod::lemma_small_mod((from + m - n) as nat, n as nat);
            }
        }
    }
}

/// A search that comes past seat `j` without stopping there has passed no wanted
/// seat before: it cannot have gone further than `j` if `j` is wanted.
pub proof fn seek_skips(players: Seq<PlayerView>, want: spec_fn(PlayerView) -> bool, from: int, j: int)
    requires
        0 <= from < players.len(),
        0 <= j < players.len(),
        j != from,
        want(players[j]),
    ensures
        seek(players, want, from, 1) matches Some(i) && 0 <= i < players.len() && turn_of(players.len() as int, from, i) <= turn_of(
            players.len() as int,
            from,
            j,
        ),
        turn_of(players.len() as int, from, j) == if j > from { j - from } else { j + players.len() - from },
        forall|i: int| 0 <= i < players.len() ==> #[trigger] turn_of(players.len() as int, from, i) == if i > from { i - from } else { i + players.len() - from },
{
    let n = players.len() as int;
    vstd::arithmetic::div_mod::lemma_small_mod(from as nat, n as nat);
    seek_facts(players, want, from, 1);
    turn_of_facts(n, from, j);
    let t = turn_of(n, from, j);
    assert(want(players[(from + t) % n]));
    let i = seek(players, want, from, 1)->0;
    let m = choose|m: int|
        {
            &&& 1 <= m <= players.len()
            &&& i == #[trigger] ((from + m) % (players.len() as int))
            &&& forall|l: int| 1 <= l < m ==> !want(players[#[trigger] ((from + l) % (players.len() as int))])
        };
    assert(m <= t);
    if from + m < n {
        vstd::arithmetic::div_mod::lemma_small_mod((from + m) as nat, n as nat);
    } else {
        vstd::arithmetic::div_mod::lemma_mod_add_multiples_vanish(from + m - n, n);
        vstd::arithmetic::div_mod::lemma_small_mod((from + m - n) as nat, n as nat);
    }
}

/// With a player in the hand, the next active seat is one; with another than
/// `from`, it is not `from`.
pub proof fn next_active_facts(players: Seq<PlayerView>, from: int, j: int)
    requires
        0 <= from,
        0 <= j < players.len(),
        players[j].live(),
    ensures
        0 <= next_active(players, from) < players.len(),
        players[next_active(players, from)].live(),
        from < players.len() && j != from ==> next_active(players, from) != from,
{
    seek_finds(players, wants_live(), from, j);
}

// ---- seats in the hand ----

/// The live seats are listed in rising order, each once, and no other.
pub proof fn live_seats_facts(players: Seq<PlayerView>)
    ensures
        live_seats(players).len() <= players.len(),
        forall|k: int| 0 <= k < live_seats(players).len() ==> 0 <= #[trigger] live_seats(players)[k] < players.len()
            && players[live_seats(players)[k]].live(),
        forall|k: int, l: int| 0 <= k < l < live_seats(players).len() ==> #[trigger] live_seats(players)[k]
            < #[trigger] live_seats(players)[l],
        forall|i: int| 0 <= i < players.len() && (#[trigger] players[i]).live() ==> live_seats(players).contains(i),
    decreases players.len(),
{
    if players.len() > 0 {
        let rest = players.drop_last();
        live_seats_facts(rest);
        let a = live_seats(rest);
        let b = live_seats(players);
        assert(players[players.len() - 1] == players.last());
        assert forall|k: int| 0 <= k < b.len() implies 0 <= #[trigger] b[k] < players.len() && players[b[k]].live() by {
            if k < a.len() {
                assert(b[k] == a[k]);
                assert(players[a[k]] == rest[a[k]]);
            }
        }
        assert forall|k: int, l: int| 0 <= k < l < b.len() implies #[trigger] b[k] < #[trigger] b[l] by {
            assert(b[k] == a[k]);
            if l < a.len() {
                assert(b[l] == a[l]);
            }
        }
        assert forall|i: int| 0 <= i < players.len() && (#[trigger] players[i]).live() implies b.contains(i) by {
            if i < rest.len() {
                assert(rest[i] == players[i]);
                assert(a.contains(i));
                let k = choose|k: int| 0 <= k < a.len() && a[k] == i;
                assert(b[k] == i);
            } else {
                assert(b[b.len() - 1] == i);
            }
        }
    }
}

/// The live seats depend on who sits out and who has folded alone.
pub proof fn live_seats_same(a: Seq<PlayerView>, b: Seq<PlayerView>)
    requires
        a.len() == b.len(),
        forall|i: int| 0 <= i < a.len() ==> (#[trigger] a[i]).live() == b[i].live(),
    ensures
        live_seats(a) == live_seats(b),
    decreases a.len(),
{
    if a.len() > 0 {
        assert(a[a.len() - 1].live() == b[b.len() - 1].live());
        let ra = a.drop_last();
        let rb = b.drop_last();
        assert forall|i: int| 0 <= i < ra.len() implies (#[trigger] ra[i]).live() == rb[i].live() by {
            assert(ra[i] == a[i]);
        }
        live_seats_same(ra, rb);
    }
}

/// With two players in the hand there is one besides `s`.
pub proof fn another_live(players: Seq<PlayerView>, s: int) -> (j: int)
    requires
        live_seats(players).len() >= 2,
    ensures
        0 <= j < players.len(),
        players[j].live(),
        j != s,
{
    live_seats_facts(players);
    let a = live_seats(players)[0];
    let b = live_seats(players)[1];
    if a != s { a } else { b }
}

// ---- paying ----

/// A player who pays `amount`, or all chips if they are fewer.
pub open spec fn paid_by(p: PlayerView, amount: int) -> PlayerView {
    let pay = if amount <= p.chips { amount } else { p.chips };
    PlayerView {
        chips: p.chips - pay,
        bet_in_round: p.bet_in_round + pay,
        total_bet: p.total_bet + pay,
        all_in: p.all_in || p.chips == pay,
        ..p
    }
}

impl GameView {
    /// The table after seat `idx` has paid.
    pub open spec fn paid(self, idx: int, amount: int) -> GameView {
        GameView { players: self.players.update(idx, paid_by(self.players[idx], amount)), ..self }
    }
}

// ---- dealing ----

/// A player at the start of a hand.
pub open spec fn fresh(p: PlayerView) -> PlayerView {
    PlayerView {
        hole: Seq::empty(),
        bet_in_round: 0,
        total_bet: 0,
        folded: false,
        all_in: false,
        acted_this_round: false,
        sat_out: p.chips == 0,
        ..p
    }
}

pub open spec fn all_fresh(players: Seq<PlayerView>) -> Seq<PlayerView> {
    players.map_values(|p: PlayerView| fresh(p))
}

/// A player with one more hole card.
pub open spec fn given(p: PlayerView, c: Card) -> PlayerView {
    PlayerView { hole: p.hole.push(c), ..p }
}

/// The first `n` seats in turn get the top card each, but for who sits out.
pub open spec fn deal_round(players: Seq<PlayerView>, deck: Seq<Card>, n: nat) -> (Seq<PlayerView>, Seq<Card>)
    decreases n,
{
    if n == 0 {
        (players, deck)
    } else {
        let (ps, d) = deal_round(players, deck, (n - 1) as nat);
        if !ps[n - 1].sat_out && d.len() > 0 {
            (ps.update(n - 1, given(ps[n - 1], d.last())), d.drop_last())
        } else {
            (ps, d)
        }
    }
}

impl GameView {
    /// Why no hand can start, if so.
    pub open spec fn start_error(self) -> Option<GameError> {
        if !self.stage.idle() {
            Some(GameError::HandInProgress(self.stage))
        } else if live_seats(all_fresh(self.players)).len() < 2 {
            Some(GameError::TooFewPlayers)
        } else {
            None
        }
    }

    /// The table with the cards of a new hand dealt.
    pub open spec fn hand_dealt(self, mode: DeckMode, deck: Seq<Card>) -> GameView {
        let seats = all_fresh(self.players);
        let once = deal_round(seats, deck, seats.len());
        let twice = deal_round(once.0, once.1, seats.len());
        GameView {
            players: twice.0,
            deck: twice.1,
            mode,
            community: Seq::empty(),
            action_log: Seq::empty(),
            current_bet: self.big_blind,
            min_raise: self.big_blind,
            hand_count: self.hand_count + 1,
            dealer_idx: if self.hand_count == 0 {
                live_seats(seats)[0]
            } else {
                next_active(seats, self.dealer_idx)
            },
            ..self
        }
    }

    /// Heads-up the dealer posts the small blind, else the next player.
    pub open spec fn small_blind_seat(self) -> int {
        if live_seats(self.players).len() == 2 {
            self.dealer_idx
        } else {
            next_active(self.players, self.dealer_idx)
        }
    }

    pub open spec fn big_blind_seat(self) -> int {
        next_active(self.players, self.small_blind_seat())
    }

    /// Heads-up the dealer acts first before the flop, else the player behind
    /// the big blind.
    pub open spec fn first_seat(self) -> int {
        if live_seats(self.players).len() == 2 {
            self.small_blind_seat()
        } else {
            next_active(self.players, self.big_blind_seat())
        }
    }

    /// The table after the blinds are in.
    pub open spec fn blinds_posted(self) -> GameView {
        GameView {
            current_idx: self.first_seat(),
            stage: Stage::PreFlop,
            ..self.paid(self.small_blind_seat(), self.small_blind).paid(self.big_blind_seat(), self.big_blind)
        }
    }

    /// The table at the start of a hand with this deck.
    pub open spec fn started(self, mode: DeckMode, deck: Seq<Card>) -> GameView {
        self.hand_dealt(mode, deck).blinds_posted()
    }
}

proof fn holes_update(players: Seq<PlayerView>, i: int, p: PlayerView)
    requires
        0 <= i < players.len(),
    ensures
        holes(players.update(i, p)).add(players[i].hole.to_multiset()) == holes(players).add(p.hole.to_multiset()),
    decreases players.len(),
{
    broadcast use vstd::multiset::group_multiset_axioms;

    let last = players.len() - 1;
    if i == last {
        assert(players.update(i, p).drop_last() =~= players.drop_last());
    } else {
        let rest = players.drop_last();
        holes_update(rest, i, p);
        assert(players.update(i, p).drop_last() =~= rest.update(i, p));
        assert forall|c: Card| holes(players.update(i, p)).add(players[i].hole.to_multiset()).count(c)
            == holes(players).add(p.hole.to_multiset()).count(c) by {
            assert(holes(rest.update(i, p)).add(rest[i].hole.to_multiset()).count(c) == holes(rest).add(
                p.hole.to_multiset(),
            ).count(c));
        }
    }
    assert(holes(players.update(i, p)).add(players[i].hole.to_multiset()) =~= holes(players).add(p.hole.to_multiset()));
}

pub proof fn holes_same(a: Seq<PlayerView>, b: Seq<PlayerView>)
    requires
        a.len() == b.len(),
        forall|i: int| 0 <= i < a.len() ==> (#[trigger] a[i]).hole == b[i].hole,
    ensures
        holes(a) == holes(b),
    decreases a.len(),
{
    if a.len() > 0 {
        assert(a[a.len() - 1].hole == b[b.len() - 1].hole);
        let ra = a.drop_last();
        let rb = b.drop_last();
        assert forall|i: int| 0 <= i < ra.len() implies (#[trigger] ra[i]).hole == rb[i].hole by {
            assert(ra[i] == a[i]);
        }
        holes_same(ra, rb);
    }
}

/// A dealt card moves from the deck to a player.
proof fn deal_round_facts(players: Seq<PlayerView>, deck: Seq<Card>, n: nat)
    requires
        n <= players.len(),
        n <= deck.len(),
    ensures
        ({
            let (ps, d) = deal_round(players, deck, n);
            &&& ps.len() == players.len()
            &&& deck.len() - n <= d.len() <= deck.len()
            &&& forall|i: int| 0 <= i < ps.len() ==> #[trigger] ps[i] == (PlayerView { hole: ps[i].hole, ..players[i] })
            &&& forall|i: int| 0 <= i < ps.len() ==> (#[trigger] ps[i]).hole.len() == players[i].hole.len() + if i < n && !players[i].sat_out {
                1int
            } else {
                0int
            }
            &&& holes(ps).add(d.to_multiset()) == holes(players).add(deck.to_multiset())
        }),
    decreases n,
{
    if n > 0 {
        deal_round_facts(players, deck, (n - 1) as nat);
        let (ps, d) = deal_round(players, deck, (n - 1) as nat);
        assert(ps[n - 1] == PlayerView { hole: ps[n - 1].hole, ..players[n - 1] });
        if !ps[n - 1].sat_out {
            let p = given(ps[n - 1], d.last());
            holes_update(ps, n - 1, p);
            broadcast use vstd::multiset::group_multiset_axioms, vstd::seq_lib::group_to_multiset_ensures;

            assert(d =~= d.drop_last().push(d.last()));
            let (qs, e) = deal_round(players, deck, n);
            assert(holes(qs).add(e.to_multiset()) =~= holes(ps).add(d.to_multiset())) by {
                assert forall|c: Card| holes(qs).add(e.to_multiset()).count(c) == holes(ps).add(d.to_multiset()).count(c) by {
                    let lhs = holes(qs).add(ps[n - 1].hole.to_multiset());
                    assert(lhs.count(c) == holes(ps).add(p.hole.to_multiset()).count(c));
                }
            }
        }
    }
}

proof fn deal_round_len(players: Seq<PlayerView>, deck: Seq<Card>, n: nat)
    requires
        n <= players.len(),
    ensures
        deal_round(players, deck, n).0.len() == players.len(),
    decreases n,
{
    if n > 0 {
        deal_round_len(players, deck, (n - 1) as nat);
    }
}

proof fn holes_of_nothing(players: Seq<PlayerView>)
    requires
        forall|i: int| 0 <= i < players.len() ==> (#[trigger] players[i]).hole.len() == 0,
    ensures
        holes(players) == Multiset::<Card>::empty(),
    decreases players.len(),
{
    if players.len() > 0 {
        let rest = players.drop_last();
        assert forall|i: int| 0 <= i < rest.len() implies (#[trigger] rest[i]).hole.len() == 0 by {
            assert(rest[i] == players[i]);
        }
        holes_of_nothing(rest);
        assert(players[players.len() - 1].hole.len() == 0);
        broadcast use vstd::multiset::group_multiset_axioms, vstd::seq_lib::group_to_multiset_ensures;

        assert(holes(players) =~= Multiset::<Card>::empty());
    }
}

/// The hands dealt are two cards for everybody with chips, no card twice.
pub proof fn hand_dealt_facts(g: GameView, mode: DeckMode, deck: Seq<Card>)
    requires
        g.wf(),
        g.start_error() is None,
        deck.to_multiset() == ordered_deck(mode).to_multiset(),
    ensures
        ({
            let d = g.hand_dealt(mode, deck);
            &&& d.players.len() == g.players.len() >= 2
            &&& money(d.players) == money(g.players)
            &&& live_seats(d.players) == live_seats(all_fresh(g.players))
            &&& live_seats(d.players).len() >= 2
            &&& 0 <= d.dealer_idx < d.players.len()
            &&& d.players[d.dealer_idx].live()
            &&& d.deck.len() >= 8
            &&& d.cards_wf()
            &&& forall|i: int| 0 <= i < d.players.len() ==> #[trigger] d.players[i] == (PlayerView {
                hole: d.players[i].hole,
                ..fresh(g.players[i])
            })
            &&& forall|i: int| 0 <= i < d.players.len() && d.players[i].live() ==> (#[trigger] d.players[i]).hole.len() == 2
        }),
{
    broadcast use vstd::multiset::group_multiset_axioms, vstd::seq_lib::group_to_multiset_ensures;

    let d = g.hand_dealt(mode, deck);
    let seats = all_fresh(g.players);
    let n = seats.len();
    assert(deck.len() == ordered_deck(mode).to_multiset().len());
    live_seats_facts(seats);
    deal_round_facts(seats, deck, n);
    let once = deal_round(seats, deck, n);
    deal_round_facts(once.0, once.1, n);
    assert forall|i: int| 0 <= i < n implies #[trigger] d.players[i] == (PlayerView {
        hole: d.players[i].hole,
        ..fresh(g.players[i])
    }) by {
        assert(once.0[i] == PlayerView { hole: once.0[i].hole, ..seats[i] });
    }
    assert forall|i: int| 0 <= i < n && d.players[i].live() implies (#[trigger] d.players[i]).hole.len() == 2 by {
        assert(once.0[i].hole.len() == 1);
    }
    assert forall|i: int| 0 <= i < n implies (#[trigger] d.players[i]).live() == seats[i].live() by {}
    live_seats_same(d.players, seats);
    money_same(d.players, g.players);
    holes_of_nothing(seats);
    crate::poker::card::ordered_deck_is_the_deck(mode);
    ordered_deck(mode).lemma_multiset_has_no_duplicates();
    let none: Seq<Card> = Seq::empty();
    assert(d.in_play() =~= ordered_deck(mode).to_multiset()) by {
        assert(holes(seats).add(deck.to_multiset()) =~= deck.to_multiset());
        assert(none.to_multiset() =~= Multiset::<Card>::empty());
    }
    assert forall|c: Card| #[trigger] d.in_play().count(c) <= 1 && (d.in_play().count(c) == 1 ==> mode.low()
        <= c.rank.0 <= 14) by {
        if d.in_play().count(c) > 0 {
            assert(ordered_deck(mode).to_multiset().contains(c));
            assert(ordered_deck(mode).contains(c));
        }
    }
    if g.hand_count != 0 {
        next_active_facts(seats, g.dealer_idx, live_seats(seats)[0]);
    }
}

/// Paying moves chips into the pot and nothing else.
pub proof fn paid_facts(g: GameView, idx: int, amount: int)
    requires
        0 <= idx < g.players.len(),
    ensures
        money(g.paid(idx, amount).players) == money(g.players),
        live_seats(g.paid(idx, amount).players) == live_seats(g.players),
        g.paid(idx, amount).in_play() == g.in_play(),
{
    let p = g.paid(idx, amount);
    money_update(g.players, idx, p.players[idx]);
    live_seats_same(p.players, g.players);
    holes_same(p.players, g.players);
}

/// A hand starts with the money that was there, and the table stays in order.
pub proof fn started_facts(g: GameView, mode: DeckMode, deck: Seq<Card>)
    requires
        g.wf(),
        g.start_error() is None,
        deck.to_multiset() == ordered_deck(mode).to_multiset(),
    ensures
        g.started(mode, deck).wf(),
        money(g.started(mode, deck).players) == money(g.players),
        ({
            let d = g.hand_dealt(mode, deck);
            &&& 0 <= d.small_blind_seat() < d.players.len()
            &&& 0 <= d.big_blind_seat() < d.players.len()
            &&& d.small_blind_seat() != d.big_blind_seat()
        }),
{
    let d = g.hand_dealt(mode, deck);
    hand_dealt_facts(g, mode, deck);
    let n = d.players.len();
    let other = another_live(d.players, d.dealer_idx);
    next_active_facts(d.players, d.dealer_idx, other);
    let sb = d.small_blind_seat();
    let other = another_live(d.players, sb);
    next_active_facts(d.players, sb, other);
    let bb = d.big_blind_seat();
    next_active_facts(d.players, bb, sb);
    let a = d.paid(sb, d.small_blind);
    let b = a.paid(bb, d.big_blind);
    paid_facts(d, sb, d.small_blind);
    paid_facts(a, bb, d.big_blind);
    let s = g.started(mode, deck);
    assert(s.players == b.players);
    assert forall|i: int| 0 <= i < n implies s.player_wf(#[trigger] s.players[i]) && s.players[i].chips >= 0
        && s.players[i].total_bet >= 0 && s.players[i].bet_in_round >= 0 && s.players[i].open_id == g.players[i].open_id by {
        assert(d.players[i] == PlayerView { hole: d.players[i].hole, ..fresh(g.players[i]) });
        assert(g.players[i].chips >= 0);
    }
    assert(s.in_play() == d.in_play());
    assert(s.cards_wf()) by {
        assert forall|c: Card| #[trigger] s.in_play().count(c) <= 1 && (s.in_play().count(c) == 1 ==> s.mode.low()
            <= c.rank.0 <= 14) by {
            assert(d.in_play().count(c) <= 1);
        }
    }
    assert forall|i: int, j: int| 0 <= i < j < n implies (#[trigger] s.players[i]).open_id != (#[trigger] s.players[j]).open_id by {
        assert(g.players[i].open_id != g.players[j].open_id);
    }
}

impl Game {
    fn next_active_index(&self, from: usize) -> (r: usize)
        requires
            0 < self.players@.len() <= MAX_PLAYERS,
            from < MAX_PLAYERS,
        ensures
            r == next_active(self@.players, from as int),
    {
        let n: usize = self.players.len();
        let mut k: usize = 1;
        while k <= n
            invariant
                n == self.players@.len(),
                0 < n <= MAX_PLAYERS,
                from < MAX_PLAYERS,
                1 <= k <= n + 1,
                seek(self@.players, wants_live(), from as int, 1) == seek(self@.players, wants_live(), from as int, k as int),
            decreases n + 1 - k,
        {
            let i: usize = (from + k) % n;
            let p = &self.players[i];
            assert(self@.players[i as int] == p@);
            if !p.sat_out && !p.folded {
                return i;
            }
            k = k + 1;
        }
        from
    }

    /// Move chips from a player's stack into their bets, no more than they have.
    pub(crate) fn contribute(&mut self, idx: usize, amount: u64) -> (pay: u64)
        requires
            idx < old(self).players@.len(),
            old(self).players@[idx as int].chips + old(self).players@[idx as int].total_bet <= u64::MAX,
            old(self).players@[idx as int].chips + old(self).players@[idx as int].bet_in_round <= u64::MAX,
        ensures
            final(self)@ == old(self)@.paid(idx as int, amount as int),
            pay == if amount <= old(self).players@[idx as int].chips { amount } else { old(self).players@[idx as int].chips },
    {
        let ghost before = self@;
        let chips = self.players[idx].chips;
        let pay: u64 = if amount <= chips { amount } else { chips };
        self.players[idx].chips = chips - pay;
        self.players[idx].bet_in_round = self.players[idx].bet_in_round + pay;
        self.players[idx].total_bet = self.players[idx].total_bet + pay;
        if self.players[idx].chips == 0 {
            self.players[idx].all_in = true;
        }
        assert(self@.players =~= before.paid(idx as int, amount as int).players);
        pay
    }
}

impl Game {
    /// Begin a new hand. Requires at least two players with chips.
    ///
    /// Refuses to start if a hand is already in progress — recovering in place
    /// is dangerous when callbacks are delivered at least once (a duplicated
    /// start click would silently void the just-dealt pot and deal again). If
    /// the table genuinely gets stuck, it has to be reset.
    pub fn start_hand(&mut self, mode: DeckMode) -> (r: Result<(), GameError>)
        requires
            old(self)@.wf(),
            old(self)@.hand_count < u32::MAX,
        ensures
            final(self)@.wf(),
            match old(self)@.start_error() {
                Some(e) => r == Err::<(), GameError>(e) && final(self)@ == old(self)@,
                None => r is Ok && exists|deck: Seq<Card>| #[trigger] deck.to_multiset() == ordered_deck(mode).to_multiset()
                    && final(self)@ == old(self)@.started(mode, deck),
            },
    {
        let deck = Deck::shuffled(mode);
        self.start_hand_with(mode, deck)
    }

    /// Begin a new hand with a given deck, the last card on top.
    pub fn start_hand_with(&mut self, mode: DeckMode, deck: Deck) -> (r: Result<(), GameError>)
        requires
            old(self)@.wf(),
            old(self)@.hand_count < u32::MAX,
            deck@.to_multiset() == ordered_deck(mode).to_multiset(),
        ensures
            final(self)@.wf(),
            match old(self)@.start_error() {
                Some(e) => r == Err::<(), GameError>(e) && final(self)@ == old(self)@,
                None => r is Ok && final(self)@ == old(self)@.started(mode, deck@),
            },
    {
        if !self.stage.is_idle() {
            return Err(GameError::HandInProgress(self.stage));
        }
        let ghost before = self@;
        let ghost seats = all_fresh(before.players);
        let n: usize = self.players.len();
        let mut n_active: usize = 0;
        let mut first_active: usize = 0;
        let mut i: usize = 0;
        while i < n
            invariant
                self@ == before,
                seats == all_fresh(before.players),
                n == self.players@.len() == seats.len(),
                i <= n,
                n_active <= i,
                n_active == live_seats(seats.take(i as int)).len(),
                n_active > 0 ==> first_active == live_seats(seats.take(i as int))[0],
            decreases n - i,
        {
            assert(seats.take(i + 1).drop_last() =~= seats.take(i as int));
            assert(before.players[i as int] == self.players@[i as int]@);
            assert(seats[i as int] == fresh(before.players[i as int]));
            assert(seats.take(i + 1).last() == seats[i as int]);
            if self.players[i].chips > 0 {
                if n_active == 0 {
                    first_active = i;
                }
                n_active = n_active + 1;
            }
            i = i + 1;
        }
        assert(seats.take(n as int) =~= seats);
        if n_active < 2 {
            return Err(GameError::TooFewPlayers);
        }
        proof {
            started_facts(before, mode, deck@);
            hand_dealt_facts(before, mode, deck@);
            live_seats_facts(seats);
        }

        let ghost cards = deck@;
        self.deal_new_hand(mode, deck, first_active);
        self.post_blinds(n_active);
        assert(self@ == before.started(mode, cards));
        Ok(())
    }

    /// Reset per-hand state, move the button on and deal the hole cards.
    fn deal_new_hand(&mut self, mode: DeckMode, deck: Deck, first_active: usize)
        requires
            0 < old(self)@.players.len() <= MAX_PLAYERS,
            old(self)@.dealer_idx < MAX_PLAYERS,
            old(self)@.hand_count < u32::MAX,
            first_active == live_seats(all_fresh(old(self)@.players))[0],
        ensures
            final(self)@ == old(self)@.hand_dealt(mode, deck@),
    {
        let ghost before = self@;
        let ghost seats = all_fresh(before.players);
        let ghost cards = deck@;
        self.mode = mode;
        self.deck = deck;
        self.community.clear();
        self.action_log.clear();
        self.current_bet = self.big_blind;
        self.min_raise = self.big_blind;
        self.hand_count = self.hand_count + 1;
        self.reset_players();
        assert(self@.players == seats);

        // Advance dealer button to the next active player
        if self.hand_count == 1 {
            self.dealer_idx = first_active;
        } else {
            let next = self.next_active_index(self.dealer_idx);
            self.dealer_idx = next;
        }
        assert(self@.players == seats);
        assert(self@.deck == cards);

        // Deal hole cards
        self.deal_one_each();
        let ghost once = deal_round(seats, cards, seats.len());
        assert(self@.players == once.0);
        assert(self@.deck == once.1);
        proof {
            deal_round_len(seats, cards, seats.len());
        }
        self.deal_one_each();
        assert(self@ =~= before.hand_dealt(mode, cards));
    }

    /// Post the blinds and hand over to the first to act.
    fn post_blinds(&mut self, n_active: usize)
        requires
            0 < old(self)@.players.len() <= MAX_PLAYERS,
            old(self)@.dealer_idx < old(self)@.players.len(),
            n_active == live_seats(old(self)@.players).len(),
            0 <= old(self)@.small_blind_seat() < old(self)@.players.len(),
            0 <= old(self)@.big_blind_seat() < old(self)@.players.len(),
            old(self)@.small_blind_seat() != old(self)@.big_blind_seat(),
            forall|i: int| 0 <= i < old(self)@.players.len() ==> (#[trigger] old(self)@.players[i]).bet_in_round == 0
                && old(self)@.players[i].total_bet == 0,
        ensures
            final(self)@ == old(self)@.blinds_posted(),
    {
        let ghost d = self@;
        let sb: usize = if n_active == 2 {
            // Heads-up: dealer is SB, the other is BB, dealer acts first preflop.
            self.dealer_idx
        } else {
            self.next_active_index(self.dealer_idx)
        };
        let bb = self.next_active_index(sb);
        let first = if n_active == 2 {
            sb
        } else {
            self.next_active_index(bb)
        };
        assert(d.players[sb as int] == self.players@[sb as int]@);
        self.contribute(sb, self.small_blind);
        assert(self@.players[bb as int] == d.players[bb as int]);
        assert(self@.players.len() == self.players@.len());
        assert(self@.players[bb as int] == self.players@[bb as int]@);
        self.contribute(bb, self.big_blind);
        self.current_idx = first;
        self.stage = Stage::PreFlop;
        assert(self@ =~= d.blinds_posted());
    }

    /// Clear what a player has from the last hand; who has no chips sits out.
    fn reset_players(&mut self)
        ensures
            final(self)@ == (GameView { players: all_fresh(old(self)@.players), ..old(self)@ }),
    {
        let ghost before = self@;
        let mut i: usize = 0;
        while i < self.players.len()
            invariant
                before == old(self)@,
                i <= self.players@.len() == before.players.len(),
                self@ == (GameView { players: self@.players, ..before }),
                forall|j: int| 0 <= j < i ==> #[trigger] self@.players[j] == fresh(before.players[j]),
                forall|j: int| i <= j < before.players.len() ==> #[trigger] self@.players[j] == before.players[j],
            decreases self.players@.len() - i,
        {
            let ghost cur = self@.players;
            assert(cur[i as int] == before.players[i as int]);
            self.players[i].hole.clear();
            self.players[i].bet_in_round = 0;
            self.players[i].total_bet = 0;
            self.players[i].folded = false;
            self.players[i].all_in = false;
            self.players[i].acted_this_round = false;
            self.players[i].sat_out = self.players[i].chips == 0;
            assert(self.players@[i as int]@ =~= fresh(before.players[i as int]));
            assert(self@.players =~= cur.update(i as int, fresh(before.players[i as int])));
            i = i + 1;
        }
        assert(self@.players =~= all_fresh(before.players));
    }

    /// Give every player in the hand the top card, in seat order.
    fn deal_one_each(&mut self)
        ensures
            ({
                let (ps, d) = deal_round(old(self)@.players, old(self)@.deck, old(self)@.players.len());
                final(self)@ == (GameView { players: ps, deck: d, ..old(self)@ })
            }),
    {
        let ghost before = self@;
        let mut i: usize = 0;
        while i < self.players.len()
            invariant
                before == old(self)@,
                i <= self.players@.len() == before.players.len(),
                self@ == (GameView { players: self@.players, deck: self@.deck, ..before }),
                (self@.players, self@.deck) == deal_round(before.players, before.deck, i as nat),
            decreases self.players@.len() - i,
        {
            let ghost cur = self@;
            assert(cur.players[i as int] == self.players@[i as int]@);
            if !self.players[i].sat_out {
                if let Some(c) = self.deck.draw() {
                    self.players[i].hole.push(c);
                    assert(self@.players =~= cur.players.update(i as int, given(cur.players[i as int], c)));
                }
            }
            i = i + 1;
        }
    }
}

} // verus!
