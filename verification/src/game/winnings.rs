//! Who wins what at a showdown.

use vstd::prelude::*;
use crate::poker::hand::category_title;
use super::pots::{capped, capped_facts, pots_are_winnable, pots_of};
use super::shares::{each_pot_has_its_level, floor_of, levels_are_bets, split_at};
use super::showdown::{
    all_bets_cleared, bets_cleared, contenders, enriched, inserted, payout_added, payouts_made, pot_paid, pots_paid,
    ranked_facts, scoring, shared_out, winners_of,
};
use super::table::bets;
use super::view::{GameView, PayoutView, PlayerView, ShowdownView};

verus! {

/// Whether one hand stands before another: it is better, or as good and of a seat
/// further in front.
pub open spec fn before(a: ShowdownView, b: ShowdownView) -> bool {
    a.rank.score() > b.rank.score() || a.rank.score() == b.rank.score() && a.player_idx < b.player_idx
}

pub open spec fn in_order(shows: Seq<ShowdownView>) -> bool {
    forall|a: int, b: int| 0 <= a < b < shows.len() ==> before(#[trigger] shows[a], #[trigger] shows[b])
}

proof fn inserted_in_order(shows: Seq<ShowdownView>, s: ShowdownView)
    requires
        in_order(shows),
        forall|k: int| 0 <= k < shows.len() ==> (#[trigger] shows[k]).player_idx < s.player_idx,
    ensures
        in_order(inserted(shows, s)),
        inserted(shows, s).len() == shows.len() + 1,
        forall|k: int| 0 <= k < inserted(shows, s).len() ==> #[trigger] inserted(shows, s)[k] == s || shows.contains(inserted(shows, s)[k]),
    decreases shows.len(),
{
    let t = inserted(shows, s);
    if shows.len() == 0 || shows.last().rank.score() >= s.rank.score() {
        assert forall|a: int, b: int| 0 <= a < b < t.len() implies before(#[trigger] t[a], #[trigger] t[b]) by {
            if b == shows.len() {
                assert(shows[a].player_idx < s.player_idx);
                if a < shows.len() - 1 {
                    assert(before(shows[a], shows[shows.len() - 1]));
                }
            } else {
                assert(before(shows[a], shows[b]));
            }
        }
        assert forall|k: int| 0 <= k < t.len() implies #[trigger] t[k] == s || shows.contains(t[k]) by {
            if k < shows.len() {
                assert(shows[k] == t[k]);
            }
        }
    } else {
        let rest = shows.drop_last();
        assert forall|a: int, b: int| 0 <= a < b < rest.len() implies before(#[trigger] rest[a], #[trigger] rest[b]) by {
            assert(before(shows[a], shows[b]));
        }
        assert forall|k: int| 0 <= k < rest.len() implies (#[trigger] rest[k]).player_idx < s.player_idx by {
            assert(rest[k] == shows[k]);
        }
        inserted_in_order(rest, s);
        let u = inserted(rest, s);
        assert forall|k: int| 0 <= k < t.len() implies #[trigger] t[k] == s || shows.contains(t[k]) by {
            if k < u.len() {
                assert(u[k] == t[k]);
                if u[k] != s {
                    let l = choose|l: int| 0 <= l < rest.len() && rest[l] == u[k];
                    assert(shows[l] == t[k]);
                }
            } else {
                assert(shows[shows.len() - 1] == t[k]);
            }
        }
        assert forall|a: int, b: int| 0 <= a < b < t.len() implies before(#[trigger] t[a], #[trigger] t[b]) by {
            if b < u.len() {
                assert(before(u[a], u[b]));
            } else {
                assert(t[a] == u[a]);
                assert(t[b] == shows.last());
                if u[a] != s {
                    let l = choose|l: int| 0 <= l < rest.len() && rest[l] == u[a];
                    assert(before(shows[l], shows[shows.len() - 1]));
                }
            }
        }
    }
}

/// The hands are shown in order: the best first, and equal hands by seat. Everybody
/// still in shows one hand, and nobody else.
pub proof fn hands_are_shown_in_order(g: GameView, n: nat)
    requires
        n <= g.players.len(),
    ensures
        in_order(g.ranked(n)),
        forall|k: int| 0 <= k < g.ranked(n).len() ==> {
            let i = (#[trigger] g.ranked(n)[k]).player_idx;
            0 <= i < n && !g.players[i].folded && !g.players[i].sat_out && g.ranked(n)[k] == g.show_of(i)
        },
        forall|i: int| 0 <= i < n && !g.players[i].folded && !g.players[i].sat_out ==> g.ranked(n).contains(#[trigger] g.show_of(i)),
    decreases n,
{
    ranked_facts(g, n);
    if n > 0 {
        let m = (n - 1) as nat;
        hands_are_shown_in_order(g, m);
        if g.players[n - 1].live() {
            inserted_in_order(g.ranked(m), g.show_of(n - 1));
        }
    }
}

/// Whether seat `i` has a best hand among the seats of the pot that are still in.
pub open spec fn is_best(g: GameView, pot: (int, Seq<int>), i: int) -> bool {
    &&& contends(g, pot, i)
    &&& forall|j: int| #[trigger] contends(g, pot, j) ==> g.show_of(i).rank.score() >= g.show_of(j).rank.score()
}

/// Whether seat `i` can win the pot and is still in.
pub open spec fn contends(g: GameView, pot: (int, Seq<int>), i: int) -> bool {
    0 <= i < g.players.len() && pot.1.contains(i) && !g.players[i].folded && !g.players[i].sat_out
}

/// How many of the first `n` seats have a best hand.
pub open spec fn best_hands(g: GameView, pot: (int, Seq<int>), n: nat) -> nat
    decreases n,
{
    if n == 0 {
        0
    } else {
        best_hands(g, pot, (n - 1) as nat) + if is_best(g, pot, n - 1) { 1nat } else { 0nat }
    }
}

/// What seat `i` takes of a pot: the best hands share it evenly, and what does not
/// divide goes to the first of them.
pub open spec fn takes(g: GameView, pot: (int, Seq<int>), i: int) -> int {
    let n = best_hands(g, pot, g.players.len()) as int;
    if !is_best(g, pot, i) {
        0
    } else if forall|j: int| 0 <= j < i ==> !is_best(g, pot, j) {
        pot.0 / n + pot.0 % n
    } else {
        pot.0 / n
    }
}

/// What seat `i` takes of the first `n` pots.
pub open spec fn takes_of(g: GameView, pots: Seq<(int, Seq<int>)>, i: int, n: nat) -> int
    decreases n,
{
    if n == 0 {
        0
    } else {
        takes_of(g, pots, i, (n - 1) as nat) + takes(g, pots[n - 1], i)
    }
}

// ---- the winners of a pot ----

proof fn contenders_in_order(shows: Seq<ShowdownView>, seats: Seq<int>)
    requires
        in_order(shows),
    ensures
        in_order(contenders(shows, seats)),
        forall|x: ShowdownView| #[trigger] contenders(shows, seats).contains(x) <==> shows.contains(x) && seats.contains(x.player_idx),
    decreases shows.len(),
{
    if shows.len() > 0 {
        let rest = shows.drop_last();
        assert forall|a: int, b: int| 0 <= a < b < rest.len() implies before(#[trigger] rest[a], #[trigger] rest[b]) by {
            assert(before(shows[a], shows[b]));
        }
        contenders_in_order(rest, seats);
        let c = contenders(shows, seats);
        let d = contenders(rest, seats);
        assert(shows[shows.len() - 1] == shows.last());
        assert forall|x: ShowdownView| #[trigger] c.contains(x) <==> shows.contains(x) && seats.contains(x.player_idx) by {
            if c.contains(x) {
                let k = choose|k: int| 0 <= k < c.len() && c[k] == x;
                if k < d.len() {
                    assert(d[k] == x);
                    assert(d.contains(x));
                    let l = choose|l: int| 0 <= l < rest.len() && rest[l] == x;
                    assert(shows[l] == x);
                }
            }
            if shows.contains(x) && seats.contains(x.player_idx) {
                let l = choose|l: int| 0 <= l < shows.len() && shows[l] == x;
                if l < rest.len() {
                    assert(rest[l] == x);
                    assert(d.contains(x));
                    let k = choose|k: int| 0 <= k < d.len() && d[k] == x;
                    assert(c[k] == x);
                } else {
                    assert(c[c.len() - 1] == x);
                }
            }
        }
        assert forall|a: int, b: int| 0 <= a < b < c.len() implies before(#[trigger] c[a], #[trigger] c[b]) by {
            if b < d.len() {
                assert(before(d[a], d[b]));
            } else {
                assert(d[a] == c[a]);
                assert(d.contains(d[a]));
                let l = choose|l: int| 0 <= l < rest.len() && rest[l] == d[a];
                assert(before(shows[l], shows[shows.len() - 1]));
            }
        }
    }
}

proof fn scoring_in_order(shows: Seq<ShowdownView>, score: int)
    requires
        in_order(shows),
    ensures
        forall|a: int, b: int| 0 <= a < b < scoring(shows, score).len() ==> #[trigger] scoring(shows, score)[a] < #[trigger] scoring(
            shows,
            score,
        )[b],
        forall|i: int| #[trigger] scoring(shows, score).contains(i) <==> scores(shows, score, i),
    decreases shows.len(),
{
    if shows.len() > 0 {
        let rest = shows.drop_last();
        assert forall|a: int, b: int| 0 <= a < b < rest.len() implies before(#[trigger] rest[a], #[trigger] rest[b]) by {
            assert(before(shows[a], shows[b]));
        }
        scoring_in_order(rest, score);
        let c = scoring(shows, score);
        let d = scoring(rest, score);
        assert(shows[shows.len() - 1] == shows.last());
        assert forall|i: int| #[trigger] c.contains(i) <==> scores(shows, score, i) by {
            if c.contains(i) {
                let k = choose|k: int| 0 <= k < c.len() && c[k] == i;
                if k < d.len() {
                    assert(d[k] == i);
                    assert(d.contains(i));
                    let l = choose|l: int| 0 <= l < rest.len() && (#[trigger] rest[l]).player_idx == i && rest[l].rank.score() == score;
                    assert(shows[l].player_idx == i);
                } else {
                    assert(shows[shows.len() - 1].player_idx == i);
                }
            }
            if scores(shows, score, i) {
                let l = choose|l: int| 0 <= l < shows.len() && (#[trigger] shows[l]).player_idx == i && shows[l].rank.score() == score;
                if l < rest.len() {
                    assert(rest[l].player_idx == i);
                    assert(d.contains(i));
                    let k = choose|k: int| 0 <= k < d.len() && d[k] == i;
                    assert(c[k] == i);
                } else {
                    assert(c[c.len() - 1] == i);
                }
            }
        }
        assert forall|a: int, b: int| 0 <= a < b < c.len() implies #[trigger] c[a] < #[trigger] c[b] by {
            if b < d.len() {
                assert(d[a] < d[b]);
            } else {
                assert(d[a] == c[a]);
                assert(d.contains(d[a]));
                let l = choose|l: int| 0 <= l < rest.len() && (#[trigger] rest[l]).player_idx == d[a] && rest[l].rank.score() == score;
                assert(before(shows[l], shows[shows.len() - 1]));
            }
        }
    }
}

/// Whether a hand of seat `i` scores so much.
pub open spec fn scores(shows: Seq<ShowdownView>, score: int, i: int) -> bool {
    exists|l: int| 0 <= l < shows.len() && (#[trigger] shows[l]).player_idx == i && shows[l].rank.score() == score
}

/// A pot goes to the best of the hands that are in it, to all of them and to no
/// other, in seat order.
pub proof fn the_best_hands_win(g: GameView, pot: (int, Seq<int>))
    requires
        exists|i: int| contends(g, pot, i),
    ensures
        ({
            let w = winners_of(pot, g.ranked(g.players.len()));
            &&& contenders(g.ranked(g.players.len()), pot.1).len() > 0
            &&& w.len() > 0
            &&& forall|i: int| #[trigger] w.contains(i) <==> is_best(g, pot, i)
            &&& forall|a: int, b: int| 0 <= a < b < w.len() ==> #[trigger] w[a] < #[trigger] w[b]
            &&& is_best(g, pot, w[0])
            &&& contenders(g.ranked(g.players.len()), pot.1)[0] == g.show_of(w[0])
        }),
{
    let shows = g.ranked(g.players.len());
    let c = contenders(shows, pot.1);
    let w = winners_of(pot, shows);
    hands_are_shown_in_order(g, g.players.len());
    contenders_in_order(shows, pot.1);
    assert forall|j: int| #[trigger] contends(g, pot, j) implies c.contains(g.show_of(j)) by {
        assert(shows.contains(g.show_of(j)));
        assert(g.show_of(j).player_idx == j);
    }
    let one = choose|i: int| contends(g, pot, i);
    assert(c.contains(g.show_of(one)));
    let top = c[0].rank.score();
    scoring_in_order(c, top);
    assert forall|k: int| 0 <= k < c.len() implies contends(g, pot, (#[trigger] c[k]).player_idx) && c[k] == g.show_of(c[k].player_idx)
        && c[k].rank.score() <= top by {
        assert(c.contains(c[k]));
        let l = choose|l: int| 0 <= l < shows.len() && shows[l] == c[k];
        if k > 0 {
            assert(before(c[0], c[k]));
        }
    }
    assert forall|i: int| #[trigger] w.contains(i) <==> is_best(g, pot, i) by {
        if w.contains(i) {
            let l = choose|l: int| 0 <= l < c.len() && (#[trigger] c[l]).player_idx == i && c[l].rank.score() == top;
            assert forall|j: int| #[trigger] contends(g, pot, j) implies g.show_of(i).rank.score() >= g.show_of(j).rank.score() by {
                let k = choose|k: int| 0 <= k < c.len() && c[k] == g.show_of(j);
                assert(c[k].rank.score() <= top);
            }
        }
        if is_best(g, pot, i) {
            assert(contends(g, pot, c[0].player_idx));
            let k = choose|k: int| 0 <= k < c.len() && c[k] == g.show_of(i);
            assert(c[k].rank.score() == top);
            assert(scores(c, top, i));
        }
    }
    assert(c[0].rank.score() == top);
    assert(scores(c, top, c[0].player_idx));
    assert(w.contains(c[0].player_idx));
    assert(w.contains(w[0]));
    let k = choose|k: int| 0 <= k < w.len() && w[k] == c[0].player_idx;
    let l = choose|l: int| 0 <= l < c.len() && (#[trigger] c[l]).player_idx == w[0] && c[l].rank.score() == top;
    if l > 0 {
        assert(before(c[0], c[l]));
        if k > 0 {
            assert(w[0] < w[k]);
        }
    }
}

// ---- what a pot pays ----

proof fn shared_out_each(players: Seq<PlayerView>, w: Seq<int>, share: int, remainder: int, n: nat)
    requires
        n <= w.len(),
        forall|k: int| 0 <= k < w.len() ==> 0 <= #[trigger] w[k] < players.len(),
        forall|a: int, b: int| 0 <= a < b < w.len() ==> #[trigger] w[a] < #[trigger] w[b],
    ensures
        ({
            let ps = shared_out(players, w, share, remainder, n);
            &&& ps.len() == players.len()
            &&& forall|i: int| 0 <= i < ps.len() ==> #[trigger] ps[i] == enriched(
                players[i],
                if w.take(n as int).contains(i) { share } else { 0 } + if n > 0 && i == w[0] { remainder } else { 0 },
            )
        }),
    decreases n,
{
    if n > 0 {
        let m = (n - 1) as nat;
        shared_out_each(players, w, share, remainder, m);
        let ps = shared_out(players, w, share, remainder, m);
        let qs = shared_out(players, w, share, remainder, n);
        let x = w[n - 1];
        assert forall|i: int| 0 <= i < qs.len() implies #[trigger] qs[i] == enriched(
            players[i],
            if w.take(n as int).contains(i) { share } else { 0 } + if n > 0 && i == w[0] { remainder } else { 0 },
        ) by {
            if w.take(m as int).contains(i) {
                let k = choose|k: int| 0 <= k < m && w.take(m as int)[k] == i;
                assert(w.take(n as int)[k] == i);
                assert(w[k] < w[n - 1]);
            }
            if w.take(n as int).contains(i) {
                let k = choose|k: int| 0 <= k < n && w.take(n as int)[k] == i;
                if k < m {
                    assert(w.take(m as int)[k] == i);
                }
            }
            if i == x {
                assert(w.take(n as int)[n - 1] == x);
            }
            if m > 0 {
                assert(w[0] < w[n - 1]);
            }
            assert(ps[i] == enriched(
                players[i],
                if w.take(m as int).contains(i) { share } else { 0 } + if m > 0 && i == w[0] { remainder } else { 0 },
            ));
        }
    }
}

/// The winners are as many as there are best hands.
proof fn winners_counted(g: GameView, pot: (int, Seq<int>), w: Seq<int>, n: nat)
    requires
        n <= g.players.len(),
        forall|i: int| #[trigger] w.contains(i) <==> 0 <= i < n && is_best(g, pot, i),
        forall|a: int, b: int| 0 <= a < b < w.len() ==> #[trigger] w[a] < #[trigger] w[b],
    ensures
        w.len() == best_hands(g, pot, n),
    decreases n,
{
    if n == 0 {
        if w.len() > 0 {
            assert(w.contains(w[0]));
        }
    } else {
        let m = (n - 1) as nat;
        if is_best(g, pot, n - 1) {
            assert(w.contains(n - 1));
            let k = choose|k: int| 0 <= k < w.len() && w[k] == n - 1;
            if k < w.len() - 1 {
                assert(w.contains(w[w.len() - 1]));
                assert(w[k] < w[w.len() - 1]);
            }
            let v = w.drop_last();
            assert forall|i: int| #[trigger] v.contains(i) <==> 0 <= i < m && is_best(g, pot, i) by {
                if v.contains(i) {
                    let l = choose|l: int| 0 <= l < v.len() && v[l] == i;
                    assert(w[l] == i);
                    assert(w.contains(i));
                    assert(w[l] < w[w.len() - 1]);
                }
                if 0 <= i < m && is_best(g, pot, i) {
                    assert(w.contains(i));
                    let l = choose|l: int| 0 <= l < w.len() && w[l] == i;
                    assert(v[l] == i);
                }
            }
            winners_counted(g, pot, v, m);
        } else {
            assert forall|i: int| #[trigger] w.contains(i) <==> 0 <= i < m && is_best(g, pot, i) by {}
            winners_counted(g, pot, w, m);
        }
    }
}

proof fn pot_pays_each(g: GameView, players: Seq<PlayerView>, pot: (int, Seq<int>), i: int)
    requires
        players.len() == g.players.len(),
        pot.0 > 0,
        exists|j: int| contends(g, pot, j),
        0 <= i < players.len(),
    ensures
        pot_paid(players, pot, g.ranked(g.players.len())).len() == players.len(),
        pot_paid(players, pot, g.ranked(g.players.len()))[i] == enriched(players[i], takes(g, pot, i)),
{
    let shows = g.ranked(g.players.len());
    the_best_hands_win(g, pot);
    let w = winners_of(pot, shows);
    let n = w.len() as int;
    assert forall|j: int| #[trigger] w.contains(j) <==> 0 <= j < g.players.len() && is_best(g, pot, j) by {}
    winners_counted(g, pot, w, g.players.len());
    let share = pot.0 / n;
    let left = pot.0 - share * n;
    assert(left == pot.0 % n) by (nonlinear_arith)
        requires
            n > 0,
            share == pot.0 / n,
            left == pot.0 - share * n,
    ;
    assert forall|k: int| 0 <= k < w.len() implies 0 <= #[trigger] w[k] < players.len() by {
        assert(w.contains(w[k]));
    }
    shared_out_each(players, w, share, left, w.len());
    assert(w.take(n) =~= w);
    if is_best(g, pot, i) {
        assert(w.contains(i));
        let k = choose|k: int| 0 <= k < w.len() && w[k] == i;
        if k > 0 {
            assert(w[0] < w[k]);
            assert(!(forall|j: int| 0 <= j < i ==> !is_best(g, pot, j)));
        } else {
            assert forall|j: int| 0 <= j < i implies !is_best(g, pot, j) by {
                if is_best(g, pot, j) {
                    assert(w.contains(j));
                    let l = choose|l: int| 0 <= l < w.len() && w[l] == j;
                    if l > 0 {
                        assert(w[0] < w[l]);
                    }
                }
            }
        }
    }
}

/// Whether every pot holds money and has somebody still in for it.
pub open spec fn all_contested(g: GameView, pots: Seq<(int, Seq<int>)>) -> bool {
    forall|k: int| 0 <= k < pots.len() ==> contested(g, #[trigger] pots[k])
}

pub open spec fn contested(g: GameView, pot: (int, Seq<int>)) -> bool {
    pot.0 > 0 && exists|i: int| contends(g, pot, i)
}

proof fn pots_pay_each(g: GameView, pots: Seq<(int, Seq<int>)>, i: int, n: nat)
    requires
        n <= pots.len(),
        all_contested(g, pots),
        0 <= i < g.players.len(),
    ensures
        pots_paid(g.players, pots, g.ranked(g.players.len()), n).len() == g.players.len(),
        pots_paid(g.players, pots, g.ranked(g.players.len()), n)[i] == enriched(g.players[i], takes_of(g, pots, i, n)),
    decreases n,
{
    if n > 0 {
        pots_pay_each(g, pots, i, (n - 1) as nat);
        let ps = pots_paid(g.players, pots, g.ranked(g.players.len()), (n - 1) as nat);
        assert(contested(g, pots[n - 1]));
        pot_pays_each(g, ps, pots[n - 1], i);
    }
}

proof fn pots_are_contested(g: GameView)
    requires
        forall|i: int| 0 <= i < g.players.len() ==> (#[trigger] g.players[i]).sat_out ==> g.players[i].total_bet == 0,
        exists|i: int| 0 <= i < g.players.len() && !(#[trigger] g.players[i]).folded && g.players[i].total_bet > 0,
    ensures
        all_contested(g, pots_of(g.players)),
{
    let pots = pots_of(g.players);
    pots_are_winnable(g.players);
    assert forall|k: int| 0 <= k < pots.len() implies contested(g, #[trigger] pots[k]) by {
        let s = pots[k].1[0];
        assert(pots[k].1.contains(s));
        assert(contends(g, pots[k], s));
    }
}

/// At a showdown everybody gets what they take of each pot on top of their chips,
/// and nothing else changes but that the bets are gone.
pub proof fn everybody_gets_their_shares(g: GameView)
    requires
        forall|i: int| 0 <= i < g.players.len() ==> (#[trigger] g.players[i]).sat_out ==> g.players[i].total_bet == 0,
        exists|i: int| 0 <= i < g.players.len() && !(#[trigger] g.players[i]).folded && g.players[i].total_bet > 0,
    ensures
        ({
            let h = g.shown_down();
            let pots = pots_of(g.players);
            &&& h == (GameView { players: h.players, ..g })
            &&& h.players.len() == g.players.len()
            &&& forall|i: int| 0 <= i < g.players.len() ==> #[trigger] h.players[i] == (PlayerView {
                chips: g.players[i].chips + takes_of(g, pots, i, pots.len()),
                total_bet: 0,
                bet_in_round: 0,
                ..g.players[i]
            })
        }),
{
    let pots = pots_of(g.players);
    let h = g.shown_down();
    pots_are_contested(g);
    pots_pay_each(g, pots, choose|i: int| 0 <= i < g.players.len() && !(#[trigger] g.players[i]).folded && g.players[i].total_bet > 0, pots.len());
    let paid = pots_paid(g.players, pots, g.ranked(g.players.len()), pots.len());
    assert forall|i: int| 0 <= i < g.players.len() implies #[trigger] h.players[i] == (PlayerView {
        chips: g.players[i].chips + takes_of(g, pots, i, pots.len()),
        total_bet: 0,
        bet_in_round: 0,
        ..g.players[i]
    }) by {
        pots_pay_each(g, pots, i, pots.len());
        assert(all_bets_cleared(paid)[i] == bets_cleared(paid[i]));
    }
}

/// Whether a payout tells of a pot: its amount, its winners in seat order, and what
/// the winning hand is called.
pub open spec fn tells_of(g: GameView, payout: PayoutView, pot: (int, Seq<int>)) -> bool {
    &&& payout.amount == pot.0
    &&& payout.winners.len() > 0
    &&& forall|i: int| #[trigger] payout.winners.contains(i) <==> is_best(g, pot, i)
    &&& forall|a: int, b: int| 0 <= a < b < payout.winners.len() ==> #[trigger] payout.winners[a] < #[trigger] payout.winners[b]
    &&& payout.note == category_title(g.show_of(payout.winners[0]).rank.category, g.mode)
}

proof fn payouts_tell(g: GameView, pots: Seq<(int, Seq<int>)>, n: nat)
    requires
        n <= pots.len(),
        all_contested(g, pots),
    ensures
        ({
            let made = payouts_made(pots, g.ranked(g.players.len()), g.mode, n);
            &&& made.len() == n
            &&& forall|k: int| 0 <= k < n ==> tells_of(g, #[trigger] made[k], pots[k])
        }),
    decreases n,
{
    if n > 0 {
        payouts_tell(g, pots, (n - 1) as nat);
        assert(contested(g, pots[n - 1]));
        the_best_hands_win(g, pots[n - 1]);
        let shows = g.ranked(g.players.len());
        let some = payouts_made(pots, shows, g.mode, (n - 1) as nat);
        let made = payout_added(some, pots[n - 1], shows, g.mode);
        assert(tells_of(g, made[n - 1], pots[n - 1]));
        assert forall|k: int| 0 <= k < n implies tells_of(g, #[trigger] made[k], pots[k]) by {
            if k < n - 1 {
                assert(made[k] == some[k]);
            }
        }
    }
}

/// The summary of a showdown shows the hand of everybody still in, the best first, and of
/// nobody else.
pub proof fn every_hand_is_shown(g: GameView)
    ensures
        ({
            let shown = g.showdown_summary().showdowns;
            &&& in_order(shown)
            &&& forall|k: int| 0 <= k < shown.len() ==> {
                let s = #[trigger] shown[k];
                &&& 0 <= s.player_idx < g.players.len()
                &&& !g.players[s.player_idx].folded && !g.players[s.player_idx].sat_out
                &&& s.hole == g.players[s.player_idx].hole
                &&& s == g.show_of(s.player_idx)
            }
            &&& forall|i: int| 0 <= i < g.players.len() && !g.players[i].folded && !g.players[i].sat_out ==> shown.contains(
                #[trigger] g.show_of(i),
            )
        }),
{
    hands_are_shown_in_order(g, g.players.len());
}

/// The summary of a showdown tells of every pot, in order.
pub proof fn every_pot_is_told_of(g: GameView)
    requires
        forall|i: int| 0 <= i < g.players.len() ==> (#[trigger] g.players[i]).sat_out ==> g.players[i].total_bet == 0,
        exists|i: int| 0 <= i < g.players.len() && !(#[trigger] g.players[i]).folded && g.players[i].total_bet > 0,
    ensures
        ({
            let told = g.showdown_summary().payouts;
            let pots = pots_of(g.players);
            &&& told.len() == pots.len()
            &&& forall|k: int| 0 <= k < pots.len() ==> tells_of(g, #[trigger] told[k], pots[k])
        }),
{
    pots_are_contested(g);
    payouts_tell(g, pots_of(g.players), pots_of(g.players).len());
}

// ---- the bound on what one player can win ----

proof fn takes_bounds(g: GameView, pot: (int, Seq<int>), i: int)
    requires
        pot.0 >= 0,
    ensures
        0 <= takes(g, pot, i) <= pot.0,
        !pot.1.contains(i) ==> takes(g, pot, i) == 0,
{
    if is_best(g, pot, i) {
        counted(g, pot, i, g.players.len());
        let n = best_hands(g, pot, g.players.len()) as int;
        let p = pot.0;
        assert(0 <= p / n && 0 <= p % n && p / n + p % n <= p) by (nonlinear_arith)
            requires
                n > 0,
                p >= 0,
        ;
    }
}

proof fn counted(g: GameView, pot: (int, Seq<int>), i: int, n: nat)
    requires
        0 <= i < n,
        is_best(g, pot, i),
    ensures
        best_hands(g, pot, n) > 0,
    decreases n,
{
    if i < n - 1 {
        counted(g, pot, i, (n - 1) as nat);
    }
}

proof fn takes_up_to(g: GameView, levels: Seq<int>, top: int, i: int, n: nat)
    requires
        0 <= i < g.players.len(),
        n <= levels.len(),
        split_at(g.players, pots_of(g.players), levels, top),
        all_contested(g, pots_of(g.players)),
        capped(g.players, 0) == 0,
    ensures
        ({
            let pots = pots_of(g.players);
            let t = g.players[i].total_bet;
            &&& 0 <= takes_of(g, pots, i, n)
            &&& n > 0 && t >= levels[n - 1] ==> takes_of(g, pots, i, n) <= capped(
                g.players,
                if n == levels.len() { top } else { levels[n - 1] },
            )
            &&& forall|k: int| 0 <= k < n && t < #[trigger] levels[k] ==> takes_of(g, pots, i, n) <= capped(g.players, floor_of(levels, k))
            &&& n == 0 ==> takes_of(g, pots, i, n) == 0
        }),
    decreases n,
{
    if n > 0 {
        let m = (n - 1) as nat;
        let pots = pots_of(g.players);
        let t = g.players[i].total_bet;
        takes_up_to(g, levels, top, i, m);
        assert(contested(g, pots[n - 1]));
        takes_bounds(g, pots[n - 1], i);
        if m > 0 {
            assert(floor_of(levels, n - 1) == levels[n - 2]);
            assert(levels[n - 2] < levels[n - 1]);
        }
        if t < levels[n - 1] {
            assert(!pots[n - 1].1.contains(i));
        }
        assert forall|k: int| 0 <= k < n && t < #[trigger] levels[k] implies takes_of(g, pots, i, n) <= capped(
            g.players,
            floor_of(levels, k),
        ) by {
            rising(g.players, levels, top, k, n - 1);
        }
    }
}

proof fn rising(players: Seq<PlayerView>, levels: Seq<int>, top: int, a: int, b: int)
    requires
        split_at(players, pots_of(players), levels, top),
        0 <= a <= b < levels.len(),
    ensures
        levels[a] <= levels[b],
    decreases b - a,
{
    if a < b {
        rising(players, levels, top, a, b - 1);
        assert(floor_of(levels, b) == levels[b - 1]);
    }
}

/// Nobody wins more of anybody's money than they have put in themselves: with a
/// higher bet still in, the winnings are at most what everybody has bet up to one's
/// own bet. Only the highest bet that is still in can win what lies above. Whoever
/// folded wins nothing.
pub proof fn winnings_are_covered(g: GameView, i: int)
    requires
        0 <= i < g.players.len(),
        forall|k: int| 0 <= k < g.players.len() ==> (#[trigger] g.players[k]).total_bet >= 0,
        forall|k: int| 0 <= k < g.players.len() ==> (#[trigger] g.players[k]).sat_out ==> g.players[k].total_bet == 0,
        exists|k: int| 0 <= k < g.players.len() && !(#[trigger] g.players[k]).folded && g.players[k].total_bet > 0,
    ensures
        ({
            let won = g.shown_down().players[i].chips - g.players[i].chips;
            &&& 0 <= won <= bets(g.players)
            &&& g.players[i].folded ==> won == 0
            &&& (exists|k: int| 0 <= k < g.players.len() && !(#[trigger] g.players[k]).folded && g.players[k].total_bet
                > g.players[i].total_bet) ==> won <= capped(g.players, g.players[i].total_bet)
        }),
{
    let pots = pots_of(g.players);
    let t = g.players[i].total_bet;
    everybody_gets_their_shares(g);
    pots_are_contested(g);
    each_pot_has_its_level(g.players);
    let (levels, top) = choose|levels: Seq<int>, top: int|
        {
            &&& #[trigger] split_at(g.players, pots_of(g.players), levels, top)
            &&& levels_are_bets(g.players, levels, top)
            &&& capped(g.players, top) == bets(g.players)
            &&& forall|i: int| 0 <= i < g.players.len() ==> (#[trigger] g.players[i]).total_bet <= top
        };
    capped_facts(g.players, 0);
    takes_up_to(g, levels, top, i, levels.len());
    if g.players[i].folded {
        folded_takes_nothing(g, pots, i, pots.len());
    }
    assert forall|k: int| 0 <= k < levels.len() implies capped(g.players, floor_of(levels, k)) <= bets(g.players) by {
        capped_facts(g.players, floor_of(levels, k));
    }
    if levels.len() > 0 && t < levels.last() {
        assert(takes_of(g, pots, i, pots.len()) <= capped(g.players, floor_of(levels, levels.len() - 1)));
    }
    if exists|k: int| 0 <= k < g.players.len() && !(#[trigger] g.players[k]).folded && g.players[k].total_bet > t {
        let k = choose|k: int| 0 <= k < g.players.len() && !(#[trigger] g.players[k]).folded && g.players[k].total_bet > t;
        let u = g.players[k].total_bet;
        assert(levels.contains(u));
        let l = choose|l: int| 0 <= l < levels.len() && levels[l] == u;
        let m = lowest_above(g.players, levels, top, t, l);
        assert(takes_of(g, pots, i, pots.len()) <= capped(g.players, floor_of(levels, m)));
        capped_rises(g.players, floor_of(levels, m), t);
    }
}

proof fn folded_takes_nothing(g: GameView, pots: Seq<(int, Seq<int>)>, i: int, n: nat)
    requires
        0 <= i < g.players.len(),
        n <= pots.len(),
        g.players[i].folded,
    ensures
        takes_of(g, pots, i, n) == 0,
    decreases n,
{
    if n > 0 {
        folded_takes_nothing(g, pots, i, (n - 1) as nat);
    }
}

/// The first level above `t`.
proof fn lowest_above(players: Seq<PlayerView>, levels: Seq<int>, top: int, t: int, l: int) -> (m: int)
    requires
        split_at(players, pots_of(players), levels, top),
        0 <= l < levels.len(),
        levels[l] > t,
        t >= 0,
    ensures
        0 <= m <= l,
        levels[m] > t,
        floor_of(levels, m) <= t,
    decreases l,
{
    if floor_of(levels, l) <= t {
        l
    } else {
        lowest_above(players, levels, top, t, l - 1)
    }
}

proof fn capped_rises(players: Seq<PlayerView>, a: int, b: int)
    requires
        a <= b,
    ensures
        capped(players, a) <= capped(players, b),
    decreases players.len(),
{
    if players.len() > 0 {
        capped_rises(players.drop_last(), a, b);
    }
}

} // verus!
