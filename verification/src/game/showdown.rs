//! The end of a hand: hands are compared and the pots paid out.

use vstd::prelude::*;
use crate::poker::hand::{
    best_cards, best_cards_facts, best_five, category_name, category_title, combos, hand_value,
    last_best,
};
use crate::poker::rules::{best_combination_has_the_value, dealt};
use crate::poker::{Card, DeckMode};
use super::pots::{
    compute_pots, pot_view, pots_are_winnable, pots_hold_the_bets, pots_of, pots_view, seats_view,
    total_of, winnable,
};
use super::table::{bets, holes, live_seats, money};
use super::view::{GameView, PayoutView, PlayerView, ShowdownView, SummaryView};
use super::{Game, HandSummary, PotPayout, ShowdownResult};

verus! {

impl GameView {
    /// What seat `i` shows: the best five of the hole cards and the board.
    pub open spec fn show_of(self, i: int) -> ShowdownView {
        let five = best_cards(self.players[i].hole + self.community, self.mode);
        ShowdownView {
            player_idx: i,
            hole: self.players[i].hole,
            best_five: five,
            rank: hand_value(five, self.mode),
        }
    }

    /// The hands of the first `n` seats that are still in, the best first;
    /// equal hands in seat order.
    pub open spec fn ranked(self, n: nat) -> Seq<ShowdownView>
        decreases n,
    {
        if n == 0 {
            Seq::empty()
        } else if self.players[n - 1].live() {
            inserted(self.ranked((n - 1) as nat), self.show_of(n - 1))
        } else {
            self.ranked((n - 1) as nat)
        }
    }
}

/// The hands with one more, behind those that are at least as good.
pub open spec fn inserted(shows: Seq<ShowdownView>, s: ShowdownView) -> Seq<ShowdownView>
    decreases shows.len(),
{
    if shows.len() == 0 || shows.last().rank.score() >= s.rank.score() {
        shows.push(s)
    } else {
        inserted(shows.drop_last(), s).push(shows.last())
    }
}

/// The hands of the given seats, in order.
pub open spec fn contenders(shows: Seq<ShowdownView>, seats: Seq<int>) -> Seq<ShowdownView>
    decreases shows.len(),
{
    if shows.len() == 0 {
        Seq::empty()
    } else if seats.contains(shows.last().player_idx) {
        contenders(shows.drop_last(), seats).push(shows.last())
    } else {
        contenders(shows.drop_last(), seats)
    }
}

/// The seats of the hands that score `score`, in order.
pub open spec fn scoring(shows: Seq<ShowdownView>, score: int) -> Seq<int>
    decreases shows.len(),
{
    if shows.len() == 0 {
        Seq::empty()
    } else if shows.last().rank.score() == score {
        scoring(shows.drop_last(), score).push(shows.last().player_idx)
    } else {
        scoring(shows.drop_last(), score)
    }
}

/// A player with `amount` more chips.
pub open spec fn enriched(p: PlayerView, amount: int) -> PlayerView {
    PlayerView { chips: p.chips + amount, ..p }
}

/// The first `n` winners get their share each, the first one the remainder too.
pub open spec fn shared_out(players: Seq<PlayerView>, winners: Seq<int>, share: int, remainder: int, n: nat) -> Seq<PlayerView>
    decreases n,
{
    if n == 0 {
        players
    } else {
        let ps = shared_out(players, winners, share, remainder, (n - 1) as nat);
        let w = winners[n - 1];
        ps.update(w, enriched(ps[w], share + if n == 1 { remainder } else { 0 }))
    }
}

/// The seats that win a pot: the best of the hands that are in it.
pub open spec fn winners_of(pot: (int, Seq<int>), shows: Seq<ShowdownView>) -> Seq<int> {
    let c = contenders(shows, pot.1);
    scoring(c, c[0].rank.score())
}

/// The players after a pot has been paid.
pub open spec fn pot_paid(players: Seq<PlayerView>, pot: (int, Seq<int>), shows: Seq<ShowdownView>) -> Seq<PlayerView> {
    if pot.0 == 0 || contenders(shows, pot.1).len() == 0 {
        players
    } else {
        let w = winners_of(pot, shows);
        let n = w.len() as int;
        shared_out(players, w, pot.0 / n, pot.0 - (pot.0 / n) * n, w.len())
    }
}

/// The payouts with that of one more pot.
pub open spec fn payout_added(payouts: Seq<PayoutView>, pot: (int, Seq<int>), shows: Seq<ShowdownView>, mode: DeckMode) -> Seq<PayoutView> {
    let c = contenders(shows, pot.1);
    if pot.0 == 0 || c.len() == 0 {
        payouts
    } else {
        payouts.push(
            PayoutView {
                amount: pot.0,
                winners: winners_of(pot, shows),
                note: category_title(c[0].rank.category, mode),
            },
        )
    }
}

/// The players after the first `n` pots have been paid.
pub open spec fn pots_paid(players: Seq<PlayerView>, pots: Seq<(int, Seq<int>)>, shows: Seq<ShowdownView>, n: nat) -> Seq<PlayerView>
    decreases n,
{
    if n == 0 {
        players
    } else {
        pot_paid(pots_paid(players, pots, shows, (n - 1) as nat), pots[n - 1], shows)
    }
}

pub open spec fn payouts_made(pots: Seq<(int, Seq<int>)>, shows: Seq<ShowdownView>, mode: DeckMode, n: nat) -> Seq<PayoutView>
    decreases n,
{
    if n == 0 {
        Seq::empty()
    } else {
        payout_added(payouts_made(pots, shows, mode, (n - 1) as nat), pots[n - 1], shows, mode)
    }
}

/// What all payouts come to.
pub open spec fn paid_out(payouts: Seq<PayoutView>) -> int
    decreases payouts.len(),
{
    if payouts.len() == 0 {
        0
    } else {
        paid_out(payouts.drop_last()) + payouts.last().amount
    }
}

/// A player whose bets are gone.
pub open spec fn bets_cleared(p: PlayerView) -> PlayerView {
    PlayerView { total_bet: 0, bet_in_round: 0, ..p }
}

pub open spec fn all_bets_cleared(players: Seq<PlayerView>) -> Seq<PlayerView> {
    players.map_values(|p: PlayerView| bets_cleared(p))
}

impl GameView {
    /// The table after the showdown.
    pub open spec fn shown_down(self) -> GameView {
        let shows = self.ranked(self.players.len());
        let pots = pots_of(self.players);
        GameView {
            players: all_bets_cleared(pots_paid(self.players, pots, shows, pots.len())),
            ..self
        }
    }

    /// What is told of the showdown.
    pub open spec fn showdown_summary(self) -> SummaryView {
        let shows = self.ranked(self.players.len());
        let pots = pots_of(self.players);
        SummaryView { showdowns: shows, payouts: payouts_made(pots, shows, self.mode, pots.len()) }
    }

    /// The table after the last player in has taken the pot.
    pub open spec fn awarded(self, winner: int) -> GameView {
        GameView {
            players: all_bets_cleared(
                self.players.update(winner, enriched(self.players[winner], bets(self.players))),
            ),
            ..self
        }
    }

    pub open spec fn award_summary(self, winner: int) -> SummaryView {
        SummaryView {
            showdowns: Seq::empty(),
            payouts: seq![PayoutView { amount: bets(self.players), winners: seq![winner], note: "未摊牌"@ }],
        }
    }
}

// ---- the cards at showdown ----

pub proof fn hole_in_play(players: Seq<PlayerView>, i: int, c: Card)
    requires
        0 <= i < players.len(),
    ensures
        holes(players).count(c) >= players[i].hole.to_multiset().count(c),
    decreases players.len(),
{
    broadcast use vstd::multiset::group_multiset_axioms;

    if i < players.len() - 1 {
        hole_in_play(players.drop_last(), i, c);
    }
}

/// A player's seven cards at showdown are different cards of the deck.
pub proof fn seven_are_dealt(g: GameView, i: int)
    requires
        g.cards_wf(),
        0 <= i < g.players.len(),
        g.players[i].hole.len() == 2,
        g.community.len() == 5,
    ensures
        dealt(g.players[i].hole + g.community),
{
    broadcast use vstd::multiset::group_multiset_axioms, vstd::seq_lib::group_to_multiset_ensures;

    let hole = g.players[i].hole;
    let seven = hole + g.community;
    vstd::seq_lib::lemma_multiset_commutative(hole, g.community);
    assert forall|c: Card| seven.to_multiset().contains(c) implies seven.to_multiset().count(c) == 1 by {
        hole_in_play(g.players, i, c);
        assert(g.in_play().count(c) <= 1);
    }
    seven.lemma_multiset_has_no_duplicates_conv();
    assert forall|k: int| 0 <= k < seven.len() implies (#[trigger] seven[k]).valid() by {
        let c = seven[k];
        assert(seven.contains(c));
        hole_in_play(g.players, i, c);
        assert(g.in_play().count(c) <= 1);
    }
}

/// What a player shows is worth what all seven cards are worth.
pub proof fn shown_rank_is_the_value(g: GameView, i: int)
    requires
        g.cards_wf(),
        0 <= i < g.players.len(),
        g.players[i].hole.len() == 2,
        g.community.len() == 5,
    ensures
        g.show_of(i).rank == hand_value(g.players[i].hole + g.community, g.mode),
{
    let seven = g.players[i].hole + g.community;
    seven_are_dealt(g, i);
    best_cards_facts(seven, g.mode);
    best_combination_has_the_value(seven, g.mode, last_best(combos(seven, 5), g.mode));
}

// ---- the money at showdown ----

/// The chips of all players together.
pub open spec fn stacks(players: Seq<PlayerView>) -> int
    decreases players.len(),
{
    if players.len() == 0 {
        0
    } else {
        stacks(players.drop_last()) + players.last().chips
    }
}

pub proof fn money_is_stacks_and_bets(players: Seq<PlayerView>)
    ensures
        money(players) == stacks(players) + bets(players),
    decreases players.len(),
{
    if players.len() > 0 {
        money_is_stacks_and_bets(players.drop_last());
    }
}

pub proof fn stacks_update(players: Seq<PlayerView>, i: int, p: PlayerView)
    requires
        0 <= i < players.len(),
    ensures
        stacks(players.update(i, p)) == stacks(players) - players[i].chips + p.chips,
    decreases players.len(),
{
    let last = players.len() - 1;
    if i == last {
        assert(players.update(i, p).drop_last() =~= players.drop_last());
    } else {
        stacks_update(players.drop_last(), i, p);
        assert(players.update(i, p).drop_last() =~= players.drop_last().update(i, p));
    }
}

pub proof fn stacks_bound(players: Seq<PlayerView>, i: int)
    requires
        0 <= i < players.len(),
        forall|k: int| 0 <= k < players.len() ==> (#[trigger] players[k]).chips >= 0,
    ensures
        players[i].chips <= stacks(players),
        0 <= stacks(players),
    decreases players.len(),
{
    let rest = players.drop_last();
    assert(players[players.len() - 1].chips >= 0);
    if rest.len() > 0 {
        assert forall|k: int| 0 <= k < rest.len() implies (#[trigger] rest[k]).chips >= 0 by {
            assert(rest[k] == players[k]);
        }
        if i < rest.len() {
            stacks_bound(rest, i);
        } else {
            stacks_bound(rest, 0);
        }
    } else {
        assert(stacks(rest) == 0);
    }
}

pub proof fn cleared_facts(players: Seq<PlayerView>)
    ensures
        stacks(all_bets_cleared(players)) == stacks(players),
        bets(all_bets_cleared(players)) == 0,
    decreases players.len(),
{
    if players.len() > 0 {
        cleared_facts(players.drop_last());
        assert(all_bets_cleared(players).drop_last() =~= all_bets_cleared(players.drop_last()));
    }
}

/// Whether two rows of players are the same but for their chips.
pub open spec fn same_but_chips(a: Seq<PlayerView>, b: Seq<PlayerView>) -> bool {
    &&& a.len() == b.len()
    &&& forall|i: int| 0 <= i < a.len() ==> #[trigger] b[i] == (PlayerView { chips: b[i].chips, ..a[i] })
}

proof fn shared_out_facts(players: Seq<PlayerView>, winners: Seq<int>, share: int, remainder: int, n: nat)
    requires
        n <= winners.len(),
        share >= 0,
        remainder >= 0,
        forall|k: int| 0 <= k < winners.len() ==> 0 <= #[trigger] winners[k] < players.len(),
        forall|k: int| 0 <= k < players.len() ==> (#[trigger] players[k]).chips >= 0,
    ensures
        ({
            let ps = shared_out(players, winners, share, remainder, n);
            &&& same_but_chips(players, ps)
            &&& forall|k: int| 0 <= k < ps.len() ==> (#[trigger] ps[k]).chips >= players[k].chips
            &&& stacks(ps) == stacks(players) + n * share + if n == 0 { 0 } else { remainder }
        }),
    decreases n,
{
    if n > 0 {
        let ps = shared_out(players, winners, share, remainder, (n - 1) as nat);
        shared_out_facts(players, winners, share, remainder, (n - 1) as nat);
        let w = winners[n - 1];
        stacks_update(ps, w, enriched(ps[w], share + if n == 1 { remainder } else { 0 }));
        assert(n * share == (n - 1) * share + share) by (nonlinear_arith);
    }
}

proof fn contenders_facts(shows: Seq<ShowdownView>, seats: Seq<int>, n: int)
    requires
        forall|k: int| 0 <= k < shows.len() ==> 0 <= (#[trigger] shows[k]).player_idx < n,
    ensures
        forall|k: int| 0 <= k < contenders(shows, seats).len() ==> 0 <= (#[trigger] contenders(shows, seats)[k]).player_idx < n
            && seats.contains(contenders(shows, seats)[k].player_idx),
        contenders(shows, seats).len() == 0 ==> forall|k: int|
            0 <= k < shows.len() ==> !seats.contains((#[trigger] shows[k]).player_idx),
    decreases shows.len(),
{
    if shows.len() > 0 {
        let rest = shows.drop_last();
        assert forall|k: int| 0 <= k < rest.len() implies 0 <= (#[trigger] rest[k]).player_idx < n by {
            assert(rest[k] == shows[k]);
        }
        assert(shows[shows.len() - 1] == shows.last());
        contenders_facts(rest, seats, n);
        let c = contenders(shows, seats);
        let d = contenders(rest, seats);
        assert forall|k: int| 0 <= k < c.len() implies 0 <= (#[trigger] c[k]).player_idx < n && seats.contains(c[k].player_idx) by {
            if k < d.len() {
                assert(c[k] == d[k]);
            }
        }
        if c.len() == 0 {
            assert forall|k: int| 0 <= k < shows.len() implies !seats.contains((#[trigger] shows[k]).player_idx) by {
                if k < rest.len() {
                    assert(rest[k] == shows[k]);
                }
            }
        }
    }
}

proof fn scoring_facts(shows: Seq<ShowdownView>, score: int, n: int)
    requires
        forall|k: int| 0 <= k < shows.len() ==> 0 <= (#[trigger] shows[k]).player_idx < n,
    ensures
        scoring(shows, score).len() <= shows.len(),
        forall|k: int| 0 <= k < scoring(shows, score).len() ==> 0 <= #[trigger] scoring(shows, score)[k] < n,
        (exists|k: int| 0 <= k < shows.len() && (#[trigger] shows[k]).rank.score() == score) ==> scoring(shows, score).len() > 0,
    decreases shows.len(),
{
    if shows.len() > 0 {
        let rest = shows.drop_last();
        assert forall|k: int| 0 <= k < rest.len() implies 0 <= (#[trigger] rest[k]).player_idx < n by {
            assert(rest[k] == shows[k]);
        }
        assert(shows[shows.len() - 1] == shows.last());
        scoring_facts(rest, score, n);
        if exists|k: int| 0 <= k < shows.len() && (#[trigger] shows[k]).rank.score() == score {
            let k = choose|k: int| 0 <= k < shows.len() && (#[trigger] shows[k]).rank.score() == score;
            if k < rest.len() {
                assert(rest[k].rank.score() == score);
            }
        }
    }
}

/// Paying a pot that somebody can win hands out all of it.
proof fn pot_paid_facts(players: Seq<PlayerView>, pot: (int, Seq<int>), shows: Seq<ShowdownView>)
    requires
        pot.0 >= 0,
        forall|k: int| 0 <= k < shows.len() ==> 0 <= (#[trigger] shows[k]).player_idx < players.len(),
        forall|k: int| 0 <= k < players.len() ==> (#[trigger] players[k]).chips >= 0,
    ensures
        ({
            let ps = pot_paid(players, pot, shows);
            &&& same_but_chips(players, ps)
            &&& forall|k: int| 0 <= k < ps.len() ==> (#[trigger] ps[k]).chips >= players[k].chips
            &&& stacks(ps) == stacks(players) + if contenders(shows, pot.1).len() == 0 { 0 } else { pot.0 }
        }),
{
    let c = contenders(shows, pot.1);
    if pot.0 > 0 && c.len() > 0 {
        contenders_facts(shows, pot.1, players.len() as int);
        assert(c[0].rank.score() == c[0].rank.score());
        scoring_facts(c, c[0].rank.score(), players.len() as int);
        let w = winners_of(pot, shows);
        let n = w.len() as int;
        let share = pot.0 / n;
        assert(share >= 0 && share * n <= pot.0) by (nonlinear_arith)
            requires
                n > 0,
                pot.0 >= 0,
                share == pot.0 / n,
        ;
        shared_out_facts(players, w, share, pot.0 - share * n, w.len());
        assert(n * share == share * n) by (nonlinear_arith);
    }
}

proof fn pots_paid_facts(players: Seq<PlayerView>, pots: Seq<(int, Seq<int>)>, shows: Seq<ShowdownView>, n: nat)
    requires
        n <= pots.len(),
        forall|k: int| 0 <= k < pots.len() ==> (#[trigger] pots[k]).0 >= 0,
        forall|k: int| 0 <= k < shows.len() ==> 0 <= (#[trigger] shows[k]).player_idx < players.len(),
        forall|k: int| 0 <= k < players.len() ==> (#[trigger] players[k]).chips >= 0,
    ensures
        ({
            let ps = pots_paid(players, pots, shows, n);
            &&& same_but_chips(players, ps)
            &&& forall|k: int| 0 <= k < ps.len() ==> (#[trigger] ps[k]).chips >= players[k].chips
            &&& stacks(ps) <= stacks(players) + total_of(pots.take(n as int))
            &&& (forall|k: int| 0 <= k < n ==> contenders(shows, (#[trigger] pots[k]).1).len() > 0) ==> stacks(ps)
                == stacks(players) + total_of(pots.take(n as int))
        }),
    decreases n,
{
    if n > 0 {
        pots_paid_facts(players, pots, shows, (n - 1) as nat);
        let ps = pots_paid(players, pots, shows, (n - 1) as nat);
        let qs = pots_paid(players, pots, shows, n);
        assert forall|k: int| 0 <= k < ps.len() implies (#[trigger] ps[k]).chips >= 0 by {
            assert(players[k].chips >= 0);
        }
        pot_paid_facts(ps, pots[n - 1], shows);
        assert(pots.take(n as int).drop_last() =~= pots.take(n - 1));
        assert forall|i: int| 0 <= i < players.len() implies #[trigger] qs[i] == (PlayerView { chips: qs[i].chips, ..players[i] })
            && qs[i].chips >= players[i].chips by {
            assert(ps[i] == PlayerView { chips: ps[i].chips, ..players[i] });
        }
    }
}

/// Where somebody contends for every pot, the payouts are all of the pots.
proof fn payouts_facts(pots: Seq<(int, Seq<int>)>, shows: Seq<ShowdownView>, mode: DeckMode, n: nat)
    requires
        n <= pots.len(),
        forall|k: int| 0 <= k < pots.len() ==> contenders(shows, (#[trigger] pots[k]).1).len() > 0,
    ensures
        paid_out(payouts_made(pots, shows, mode, n)) == total_of(pots.take(n as int)),
    decreases n,
{
    if n > 0 {
        payouts_facts(pots, shows, mode, (n - 1) as nat);
        assert(pots.take(n as int).drop_last() =~= pots.take(n - 1));
        let made = payouts_made(pots, shows, mode, n);
        if pots[n - 1].0 != 0 {
            assert(made.drop_last() =~= payouts_made(pots, shows, mode, (n - 1) as nat));
        }
    }
}

proof fn total_of_prefix(pots: Seq<(int, Seq<int>)>, n: int)
    requires
        0 <= n <= pots.len(),
        forall|k: int| 0 <= k < pots.len() ==> (#[trigger] pots[k]).0 >= 0,
    ensures
        0 <= total_of(pots.take(n)) <= total_of(pots),
    decreases pots.len(),
{
    if n == pots.len() {
        assert(pots.take(n) =~= pots);
        if n > 0 {
            total_of_prefix(pots.drop_last(), n - 1);
            assert(pots.drop_last().take(n - 1) =~= pots.drop_last());
            assert(pots[n - 1].0 >= 0);
        }
    } else {
        total_of_prefix(pots.drop_last(), n);
        assert(pots.drop_last().take(n) =~= pots.take(n));
        assert(pots[pots.len() - 1].0 >= 0);
    }
}

// ---- the order of the hands ----

proof fn inserted_facts(shows: Seq<ShowdownView>, s: ShowdownView)
    ensures
        inserted(shows, s).len() == shows.len() + 1,
        forall|x: ShowdownView| #[trigger] inserted(shows, s).contains(x) <==> x == s || shows.contains(x),
        (forall|i: int, j: int| 0 <= i < j < shows.len() ==> (#[trigger] shows[i]).rank.score() >= (#[trigger] shows[j]).rank.score())
            ==> forall|i: int, j: int| 0 <= i < j < shows.len() + 1 ==> (#[trigger] inserted(shows, s)[i]).rank.score()
                >= (#[trigger] inserted(shows, s)[j]).rank.score(),
    decreases shows.len(),
{
    let t = inserted(shows, s);
    if shows.len() == 0 || shows.last().rank.score() >= s.rank.score() {
        assert forall|x: ShowdownView| #[trigger] t.contains(x) <==> x == s || shows.contains(x) by {
            if shows.contains(x) {
                let k = choose|k: int| 0 <= k < shows.len() && shows[k] == x;
                assert(t[k] == x);
            }
            assert(t[shows.len() as int] == s);
        }
        if forall|i: int, j: int| 0 <= i < j < shows.len() ==> (#[trigger] shows[i]).rank.score() >= (#[trigger] shows[j]).rank.score() {
            assert forall|i: int, j: int| 0 <= i < j < shows.len() + 1 implies (#[trigger] t[i]).rank.score() >= (
            #[trigger] t[j]).rank.score() by {
                if j == shows.len() && i < shows.len() - 1 {
                    assert(shows[i].rank.score() >= shows[shows.len() - 1].rank.score());
                }
            }
        }
    } else {
        let rest = shows.drop_last();
        inserted_facts(rest, s);
        let u = inserted(rest, s);
        assert(shows[shows.len() - 1] == shows.last());
        assert forall|x: ShowdownView| #[trigger] t.contains(x) <==> x == s || shows.contains(x) by {
            if t.contains(x) {
                let k = choose|k: int| 0 <= k < t.len() && t[k] == x;
                if k < u.len() {
                    assert(u[k] == x);
                    assert(u.contains(x));
                    if rest.contains(x) {
                        let l = choose|l: int| 0 <= l < rest.len() && rest[l] == x;
                        assert(shows[l] == x);
                    }
                }
            }
            if x == s || shows.contains(x) {
                if x == shows.last() {
                    assert(t[t.len() - 1] == x);
                } else {
                    if x != s {
                        let l = choose|l: int| 0 <= l < shows.len() && shows[l] == x;
                        assert(rest[l] == x);
                    }
                    assert(u.contains(x));
                    let k = choose|k: int| 0 <= k < u.len() && u[k] == x;
                    assert(t[k] == x);
                }
            }
        }
        if forall|i: int, j: int| 0 <= i < j < shows.len() ==> (#[trigger] shows[i]).rank.score() >= (#[trigger] shows[j]).rank.score() {
            assert forall|i: int, j: int| 0 <= i < j < rest.len() implies (#[trigger] rest[i]).rank.score() >= (
            #[trigger] rest[j]).rank.score() by {
                assert(shows[i].rank.score() >= shows[j].rank.score());
            }
            assert forall|i: int, j: int| 0 <= i < j < shows.len() + 1 implies (#[trigger] t[i]).rank.score() >= (
            #[trigger] t[j]).rank.score() by {
                if j < u.len() {
                    assert(u[i].rank.score() >= u[j].rank.score());
                } else {
                    assert(u.contains(u[i]));
                    if u[i] != s {
                        let l = choose|l: int| 0 <= l < rest.len() && rest[l] == u[i];
                        assert(shows[l].rank.score() >= shows[shows.len() - 1].rank.score());
                    }
                }
            }
        }
    }
}

/// The hands shown are those of the players still in, the best first.
pub proof fn ranked_facts(g: GameView, n: nat)
    requires
        n <= g.players.len(),
    ensures
        forall|k: int| 0 <= k < g.ranked(n).len() ==> 0 <= (#[trigger] g.ranked(n)[k]).player_idx < n
            && g.players[g.ranked(n)[k].player_idx].live() && g.ranked(n)[k] == g.show_of(g.ranked(n)[k].player_idx),
        forall|i: int| 0 <= i < n && g.players[i].live() ==> g.ranked(n).contains(#[trigger] g.show_of(i)),
        forall|i: int, j: int| 0 <= i < j < g.ranked(n).len() ==> (#[trigger] g.ranked(n)[i]).rank.score() >= (
        #[trigger] g.ranked(n)[j]).rank.score(),
        g.ranked(n).len() <= n,
    decreases n,
{
    if n > 0 {
        let m = (n - 1) as nat;
        ranked_facts(g, m);
        let a = g.ranked(m);
        let b = g.ranked(n);
        if g.players[n - 1].live() {
            inserted_facts(a, g.show_of(n - 1));
            assert forall|k: int| 0 <= k < b.len() implies 0 <= (#[trigger] b[k]).player_idx < n && g.players[b[k].player_idx].live()
                && b[k] == g.show_of(b[k].player_idx) by {
                assert(b.contains(b[k]));
                if b[k] != g.show_of(n - 1) {
                    let l = choose|l: int| 0 <= l < a.len() && a[l] == b[k];
                    assert(a[l].player_idx < m);
                }
            }
            assert forall|i: int| 0 <= i < n && g.players[i].live() implies b.contains(#[trigger] g.show_of(i)) by {
                if i < m {
                    assert(a.contains(g.show_of(i)));
                }
            }
        } else {
            assert forall|i: int| 0 <= i < n && g.players[i].live() implies b.contains(#[trigger] g.show_of(i)) by {
                assert(i < m);
            }
        }
    }
}

/// The showdown hands out the pot: the players have as many chips after it as
/// they had chips and bets before.
pub proof fn showdown_keeps_the_money(g: GameView)
    requires
        g.table_wf(),
        g.stage is Showdown,
        g.hand_wf(),
    ensures
        money(g.shown_down().players) == money(g.players),
        bets(g.shown_down().players) == 0,
        paid_out(g.showdown_summary().payouts) == bets(g.players),
        g.shown_down().players.len() == g.players.len(),
        forall|i: int| 0 <= i < g.players.len() ==> (#[trigger] g.shown_down().players[i]).chips >= g.players[i].chips
            && g.shown_down().players[i] == bets_cleared(enriched(g.players[i], g.shown_down().players[i].chips - g.players[i].chips)),
{
    let n = g.players.len();
    let shows = g.ranked(n);
    let pots = pots_of(g.players);
    ranked_facts(g, n);
    super::deal::live_seats_facts(g.players);
    let s = live_seats(g.players)[0];
    assert(g.player_wf(g.players[s]));
    assert(!g.players[s].folded && g.players[s].total_bet > 0);
    pots_are_winnable(g.players);
    pots_hold_the_bets(g.players);
    assert forall|k: int| 0 <= k < pots.len() implies contenders(shows, (#[trigger] pots[k]).1).len() > 0 && pots[k].0 >= 0 by {
        assert(winnable(g.players, pots[k]));
        let i = pots[k].1[0];
        assert(g.player_wf(g.players[i]));
        assert(shows.contains(g.show_of(i)));
        let l = choose|l: int| 0 <= l < shows.len() && shows[l] == g.show_of(i);
        contenders_facts(shows, pots[k].1, n as int);
        assert(shows[l].player_idx == i);
        assert(pots[k].1.contains(i));
    }
    pots_paid_facts(g.players, pots, shows, pots.len());
    payouts_facts(pots, shows, g.mode, pots.len());
    assert(pots.take(pots.len() as int) =~= pots);
    let paid = pots_paid(g.players, pots, shows, pots.len());
    cleared_facts(paid);
    money_is_stacks_and_bets(g.players);
    money_is_stacks_and_bets(g.shown_down().players);
    assert forall|i: int| 0 <= i < n implies (#[trigger] g.shown_down().players[i]).chips >= g.players[i].chips
        && g.shown_down().players[i] == bets_cleared(enriched(g.players[i], g.shown_down().players[i].chips - g.players[i].chips)) by {
        assert(paid[i] == PlayerView { chips: paid[i].chips, ..g.players[i] });
    }
}

// ---- showing down ----

pub open spec fn shows_view(shows: Seq<ShowdownResult>) -> Seq<ShowdownView> {
    shows.map_values(|s: ShowdownResult| s@)
}

/// Put a hand behind those that are at least as good.
fn insert_show(shows: &mut Vec<ShowdownResult>, s: ShowdownResult)
    ensures
        shows_view(final(shows)@) == inserted(shows_view(old(shows)@), s@),
{
    let ghost before = shows_view(shows@);
    let mut pos: usize = shows.len();
    assert(before.take(pos as int) =~= before);
    assert(before.skip(pos as int) =~= Seq::empty());
    while pos > 0 && shows[pos - 1].rank < s.rank
        invariant
            before == shows_view(shows@),
            pos <= shows@.len(),
            inserted(before, s@) =~= inserted(before.take(pos as int), s@) + before.skip(pos as int),
        decreases pos,
    {
        let ghost t = before.take(pos as int);
        assert(t.last() == before[pos - 1]);
        assert(t.drop_last() =~= before.take(pos - 1));
        assert(before.skip(pos - 1) =~= seq![before[pos - 1]] + before.skip(pos as int));
        pos = pos - 1;
    }
    proof {
        let t = before.take(pos as int);
        if pos > 0 {
            assert(t.last() == before[pos - 1]);
        }
        assert(inserted(t, s@) == t.push(s@));
        assert(inserted(before, s@) =~= before.insert(pos as int, s@));
    }
    shows.insert(pos, s);
    assert(shows_view(shows@) =~= before.insert(pos as int, s@));
}

/// The hands of the given seats, in order, as places in the list.
fn find_contenders(shows: &Vec<ShowdownResult>, seats: &Vec<usize>) -> (r: Vec<usize>)
    ensures
        r@.len() == contenders(shows_view(shows@), seats_view(seats@)).len(),
        forall|k: int| 0 <= k < r@.len() ==> (#[trigger] r@[k]) < shows@.len() && shows@[r@[k] as int]@ == contenders(
            shows_view(shows@),
            seats_view(seats@),
        )[k],
{
    let ghost all = shows_view(shows@);
    let ghost sv = seats_view(seats@);
    let mut r: Vec<usize> = Vec::new();
    let mut i: usize = 0;
    while i < shows.len()
        invariant
            all == shows_view(shows@),
            sv == seats_view(seats@),
            i <= shows@.len(),
            r@.len() == contenders(all.take(i as int), sv).len(),
            forall|k: int| 0 <= k < r@.len() ==> (#[trigger] r@[k]) < shows@.len() && shows@[r@[k] as int]@ == contenders(
                all.take(i as int),
                sv,
            )[k],
        decreases shows@.len() - i,
    {
        assert(all.take(i + 1).drop_last() =~= all.take(i as int));
        assert(all.take(i + 1).last() == shows@[i as int]@);
        if has_seat(seats, shows[i].player_idx) {
            r.push(i);
        }
        i = i + 1;
    }
    assert(all.take(shows@.len() as int) =~= all);
    r
}

fn has_seat(seats: &Vec<usize>, seat: usize) -> (r: bool)
    ensures
        r == seats_view(seats@).contains(seat as int),
{
    let mut i: usize = 0;
    while i < seats.len()
        invariant
            i <= seats@.len(),
            forall|k: int| 0 <= k < i ==> seats@[k] != seat,
        decreases seats@.len() - i,
    {
        if seats[i] == seat {
            assert(seats_view(seats@)[i as int] == seat as int);
            return true;
        }
        i = i + 1;
    }
    assert forall|k: int| 0 <= k < seats@.len() implies seats_view(seats@)[k] != seat as int by {}
    false
}

/// The seats that win a pot with these contenders, and the best hand's category.
fn find_winners(shows: &Vec<ShowdownResult>, seats: &Vec<usize>) -> (r: Option<(Vec<usize>, u8)>)
    requires
        shows@.len() <= 12,
    ensures
        ({
            let c = contenders(shows_view(shows@), seats_view(seats@));
            match r {
                Some((w, category)) => c.len() > 0 && seats_view(w@) == scoring(c, c[0].rank.score())
                    && category == c[0].rank.category,
                None => c.len() == 0,
            }
        }),
{
    let places = find_contenders(shows, seats);
    let ghost c = contenders(shows_view(shows@), seats_view(seats@));
    if places.len() == 0 {
        return None;
    }
    assert(shows@[places@[0] as int]@ == c[0]);
    let best = shows[places[0]].rank;
    let mut w: Vec<usize> = Vec::new();
    let mut i: usize = 0;
    while i < places.len()
        invariant
            best == c[0].rank,
            c.len() == places@.len(),
            forall|k: int| 0 <= k < places@.len() ==> (#[trigger] places@[k]) < shows@.len() && shows@[places@[k] as int]@ == c[k],
            i <= places@.len(),
            seats_view(w@) =~= scoring(c.take(i as int), best.score()),
        decreases places@.len() - i,
    {
        assert(c.take(i + 1).drop_last() =~= c.take(i as int));
        assert(c.take(i + 1).last() == c[i as int]);
        assert(shows@[places@[i as int] as int]@ == c[i as int]);
        let s = &shows[places[i]];
        if s.rank == best {
            w.push(s.player_idx);
        }
        i = i + 1;
    }
    assert(c.take(places@.len() as int) =~= c);
    Some((w, best.category))
}

impl Game {
    /// The hands of the players still in, the best first.
    fn rank_hands(&self) -> (r: Vec<ShowdownResult>)
        requires
            self@.cards_wf(),
            self@.community.len() == 5,
            forall|i: int| 0 <= i < self@.players.len() && self@.players[i].live() ==> (#[trigger] self@.players[i]).hole.len() == 2,
        ensures
            shows_view(r@) == self@.ranked(self@.players.len()),
    {
        let mut shows: Vec<ShowdownResult> = Vec::new();
        let mut i: usize = 0;
        assert(shows_view(shows@) =~= Seq::empty());
        while i < self.players.len()
            invariant
                i <= self.players@.len() == self@.players.len(),
                self@.cards_wf(),
                self@.community.len() == 5,
                forall|i: int| 0 <= i < self@.players.len() && self@.players[i].live() ==> (#[trigger] self@.players[i]).hole.len() == 2,
                shows_view(shows@) == self@.ranked(i as nat),
            decreases self.players@.len() - i,
        {
            let p = &self.players[i];
            assert(self@.players[i as int] == p@);
            if !p.sat_out && !p.folded {
                let mut all: Vec<Card> = Vec::new();
                all.extend_from_slice(p.hole.as_slice());
                all.extend_from_slice(self.community.as_slice());
                assert(all@ =~= p@.hole + self@.community);
                proof {
                    seven_are_dealt(self@, i as int);
                }
                let (rank, five) = best_five(all.as_slice(), self.mode);
                let mut hole: Vec<Card> = Vec::new();
                hole.extend_from_slice(p.hole.as_slice());
                assert(hole@ =~= p@.hole);
                let s = ShowdownResult { player_idx: i, hole, best_five: five, rank };
                assert(s@ == self@.show_of(i as int));
                insert_show(&mut shows, s);
            }
            i = i + 1;
        }
        shows
    }

    /// Pay one pot out to the winners, the first of them gets what does not
    /// divide.
    fn pay_pot(&mut self, amount: u64, winners: &Vec<usize>)
        requires
            winners@.len() > 0,
            forall|k: int| 0 <= k < winners@.len() ==> (#[trigger] winners@[k]) < old(self).players@.len(),
            stacks(old(self)@.players) + amount <= u64::MAX,
        ensures
            ({
                let w = seats_view(winners@);
                let n = w.len() as int;
                final(self)@ == (GameView {
                    players: shared_out(old(self)@.players, w, amount as int / n, amount - (amount as int / n) * n, w.len()),
                    ..old(self)@
                })
            }),
    {
        let ghost before = self@;
        let ghost w = seats_view(winners@);
        let n: u64 = winners.len() as u64;
        let share: u64 = amount / n;
        assert(share * n <= amount) by (nonlinear_arith)
            requires
                n > 0,
                share == amount / n,
        ;
        let remainder: u64 = amount - share * n;
        let mut k: usize = 0;
        proof {
            assert forall|k: int| 0 <= k < w.len() implies 0 <= #[trigger] w[k] < before.players.len() by {
                assert(winners@[k] < self.players@.len());
            }
        }
        while k < winners.len()
            invariant
                k <= winners@.len(),
                w == seats_view(winners@),
                n == winners@.len(),
                share * n <= amount,
                remainder == amount - share * n,
                forall|k: int| 0 <= k < w.len() ==> 0 <= #[trigger] w[k] < before.players.len(),
                forall|k: int| 0 <= k < before.players.len() ==> (#[trigger] before.players[k]).chips >= 0,
                stacks(before.players) + amount <= u64::MAX,
                self.players@.len() == before.players.len(),
                self@ == (GameView { players: shared_out(before.players, w, share as int, remainder as int, k as nat), ..before }),
            decreases winners@.len() - k,
        {
            let ghost cur = self@.players;
            let extra: u64 = if k == 0 { remainder } else { 0 };
            proof {
                shared_out_facts(before.players, w, share as int, remainder as int, k as nat);
                shared_out_facts(before.players, w, share as int, remainder as int, (k + 1) as nat);
                assert((k + 1) * share <= share * n) by (nonlinear_arith)
                    requires
                        k + 1 <= n,
                        share >= 0,
                ;
                let next = shared_out(before.players, w, share as int, remainder as int, (k + 1) as nat);
                assert forall|j: int| 0 <= j < next.len() implies (#[trigger] next[j]).chips >= 0 by {
                    assert(before.players[j].chips >= 0);
                }
                stacks_bound(next, w[k as int]);
                assert(w[k as int] == winners@[k as int]);
            }
            let seat = winners[k];
            assert(cur[seat as int] == self.players@[seat as int]@);
            self.players[seat].chips = self.players[seat].chips + (share + extra);
            assert(self@.players =~= cur.update(seat as int, enriched(cur[seat as int], share + extra)));
            k = k + 1;
        }
    }

    /// Take all bets off the table.
    fn clear_bets(&mut self)
        ensures
            final(self)@ == (GameView { players: all_bets_cleared(old(self)@.players), ..old(self)@ }),
    {
        let ghost before = self@;
        let mut i: usize = 0;
        while i < self.players.len()
            invariant
                before == old(self)@,
                i <= self.players@.len() == before.players.len(),
                self@ == (GameView { players: self@.players, ..before }),
                forall|j: int| 0 <= j < i ==> #[trigger] self@.players[j] == bets_cleared(before.players[j]),
                forall|j: int| i <= j < before.players.len() ==> #[trigger] self@.players[j] == before.players[j],
            decreases self.players@.len() - i,
        {
            let ghost cur = self@.players;
            assert(cur[i as int] == before.players[i as int]);
            self.players[i].total_bet = 0;
            self.players[i].bet_in_round = 0;
            assert(self@.players =~= cur.update(i as int, bets_cleared(before.players[i as int])));
            i = i + 1;
        }
        assert(self@.players =~= all_bets_cleared(before.players));
    }
}

pub open spec fn payouts_view(payouts: Seq<PotPayout>) -> Seq<PayoutView> {
    payouts.map_values(|p: PotPayout| p@)
}

impl Game {
    /// Compare the hands of everybody still in and pay the pots out.
    pub(crate) fn showdown(&mut self) -> (r: HandSummary)
        requires
            old(self)@.table_wf(),
            old(self)@.stage is Showdown,
            old(self)@.hand_wf(),
        ensures
            final(self)@ == old(self)@.shown_down(),
            r@ == old(self)@.showdown_summary(),
    {
        let ghost before = self@;
        let ghost n = before.players.len();
        let ghost shows = before.ranked(n);
        let ghost pots = pots_of(before.players);
        assert forall|i: int| 0 <= i < n && before.players[i].live() implies (#[trigger] before.players[i]).hole.len() == 2 by {
            assert(before.player_wf(before.players[i]));
        }
        let showdowns = self.rank_hands();
        proof {
            super::table::money_bounds(before.players);
            ranked_facts(before, n);
            pots_hold_the_bets(before.players);
            money_is_stacks_and_bets(before.players);
        }
        let all = compute_pots(self.players.as_slice());
        let mut payouts: Vec<PotPayout> = Vec::new();
        let mut k: usize = 0;
        assert(payouts_view(payouts@) =~= Seq::empty());
        proof {
            assert forall|k: int| 0 <= k < pots.len() implies (#[trigger] pots[k]).0 >= 0 by {
                assert(pots[k] == pot_view(all@[k]));
            }
            assert forall|k: int| 0 <= k < n implies (#[trigger] before.players[k]).chips >= 0 by {}
        }
        while k < all.len()
            invariant
                k <= all@.len() == pots.len(),
                pots == pots_view(all@),
                n == before.players.len(),
                n <= 12,
                shows == before.ranked(n),
                shows_view(showdowns@) == shows,
                shows.len() <= n,
                forall|k: int| 0 <= k < shows.len() ==> 0 <= (#[trigger] shows[k]).player_idx < n,
                forall|k: int| 0 <= k < pots.len() ==> (#[trigger] pots[k]).0 >= 0,
                forall|k: int| 0 <= k < n ==> (#[trigger] before.players[k]).chips >= 0,
                stacks(before.players) + total_of(pots) <= u64::MAX,
                self@ == (GameView { players: pots_paid(before.players, pots, shows, k as nat), ..before }),
                payouts_view(payouts@) == payouts_made(pots, shows, before.mode, k as nat),
            decreases all@.len() - k,
        {
            let ghost cur = self@.players;
            let amount = all[k].0;
            let seats = &all[k].1;
            assert(pots[k as int] == pot_view(all@[k as int]));
            proof {
                pots_paid_facts(before.players, pots, shows, k as nat);
                total_of_prefix(pots, k + 1);
                assert(pots.take(k + 1).drop_last() =~= pots.take(k as int));
                contenders_facts(shows, pots[k as int].1, n as int);
            }
            if amount != 0 {
                if let Some((winners, category)) = find_winners(&showdowns, seats) {
                    proof {
                        let c = contenders(shows, pots[k as int].1);
                        assert(c[0].rank.score() == c[0].rank.score());
                        scoring_facts(c, c[0].rank.score(), n as int);
                        let w = seats_view(winners@);
                        assert forall|j: int| 0 <= j < winners@.len() implies (#[trigger] winners@[j]) < self.players@.len() by {
                            assert(w[j] == winners@[j]);
                            assert(self@.players.len() == self.players@.len());
                        }
                    }
                    self.pay_pot(amount, &winners);
                    let note = category_name(category, self.mode).to_owned();
                    let payout = PotPayout { amount, winners, note };
                    assert(payout@.winners =~= seats_view(winners@));
                    let ghost made = payouts_view(payouts@);
                    payouts.push(payout);
                    assert(payouts_view(payouts@) =~= made.push(payout@));
                }
            }
            assert(self@.players == pot_paid(cur, pots[k as int], shows));
            k = k + 1;
        }
        self.clear_bets();
        assert(self@ =~= before.shown_down());
        let summary = HandSummary { showdowns, payouts };
        assert(summary@ =~= before.showdown_summary());
        summary
    }

    /// The pot goes to the last player in, without a showdown.
    pub(crate) fn award_uncontested(&mut self, winner_idx: usize) -> (r: HandSummary)
        requires
            winner_idx < old(self)@.players.len(),
            old(self)@.table_wf(),
        ensures
            final(self)@ == old(self)@.awarded(winner_idx as int),
            r@ == old(self)@.award_summary(winner_idx as int),
    {
        let ghost before = self@;
        proof {
            super::table::money_bounds(before.players);
        }
        let pot = self.pot_total();
        assert(before.players[winner_idx as int] == self.players@[winner_idx as int]@);
        self.players[winner_idx].chips = self.players[winner_idx].chips + pot;
        assert(self@.players =~= before.players.update(
            winner_idx as int,
            enriched(before.players[winner_idx as int], pot as int),
        ));
        self.clear_bets();
        assert(self@ =~= before.awarded(winner_idx as int));
        let payout = PotPayout { amount: pot, winners: vec![winner_idx], note: "未摊牌".to_owned() };
        assert(payout@.winners =~= seq![winner_idx as int]);
        let summary = HandSummary { showdowns: Vec::new(), payouts: vec![payout] };
        assert(summary@ =~= before.award_summary(winner_idx as int));
        summary
    }
}

} // verus!
