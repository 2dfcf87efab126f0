//! Main pot and side pots.

use vstd::prelude::*;
use super::table::{bets, bets_prefix};
use super::view::{players_view, PlayerView};
use super::Player;

verus! {

/// The lowest bet above `prev`, or 0 if there is none.
pub open spec fn level_above(players: Seq<PlayerView>, prev: int) -> int
    decreases players.len(),
{
    if players.len() == 0 {
        0
    } else {
        let low = level_above(players.drop_last(), prev);
        let t = players.last().total_bet;
        if t > prev && (low == 0 || t < low) { t } else { low }
    }
}

/// What the players have bet above `prev`, up to `level`.
pub open spec fn layer(players: Seq<PlayerView>, prev: int, level: int) -> int
    decreases players.len(),
{
    if players.len() == 0 {
        0
    } else {
        let t = players.last().total_bet;
        layer(players.drop_last(), prev, level) + if t <= prev {
            0
        } else if t <= level {
            t - prev
        } else {
            level - prev
        }
    }
}

/// The seats that have bet up to `level` and not folded, in order.
pub open spec fn eligible(players: Seq<PlayerView>, level: int) -> Seq<int>
    decreases players.len(),
{
    if players.len() == 0 {
        Seq::empty()
    } else if players.last().total_bet >= level && !players.last().folded {
        eligible(players.drop_last(), level).push(players.len() - 1)
    } else {
        eligible(players.drop_last(), level)
    }
}

/// The pots with one more layer: a pot of its own if somebody can win it, else
/// part of the pot below.
pub open spec fn with_layer(pots: Seq<(int, Seq<int>)>, amount: int, seats: Seq<int>) -> Seq<(int, Seq<int>)> {
    if amount <= 0 {
        pots
    } else if seats.len() > 0 || pots.len() == 0 {
        pots.push((amount, seats))
    } else {
        pots.drop_last().push((pots.last().0 + amount, pots.last().1))
    }
}

/// How many players have bet more than `prev`.
pub open spec fn bets_above(players: Seq<PlayerView>, prev: int) -> nat
    decreases players.len(),
{
    if players.len() == 0 {
        0
    } else {
        bets_above(players.drop_last(), prev) + if players.last().total_bet > prev { 1nat } else { 0nat }
    }
}

/// The pots below `prev` followed by those for the bets above it, level by
/// level.
pub open spec fn pots_above(players: Seq<PlayerView>, prev: int, pots: Seq<(int, Seq<int>)>) -> Seq<(int, Seq<int>)>
    decreases bets_above(players, prev),
{
    let level = level_above(players, prev);
    if prev < 0 || level <= prev {
        pots
    } else {
        proof {
            level_above_facts(players, prev);
            bets_above_falls(players, prev, level);
        }
        pots_above(players, level, with_layer(pots, layer(players, prev, level), eligible(players, level)))
    }
}

/// The pots (main, then side) from each player's bets, with the seats that can
/// win them.
pub open spec fn pots_of(players: Seq<PlayerView>) -> Seq<(int, Seq<int>)> {
    pots_above(players, 0, Seq::empty())
}

pub proof fn level_above_facts(players: Seq<PlayerView>, prev: int)
    requires
        0 <= prev,
    ensures
        level_above(players, prev) == 0 ==> forall|i: int| 0 <= i < players.len() ==> (#[trigger] players[i]).total_bet <= prev,
        level_above(players, prev) != 0 ==> level_above(players, prev) > prev && exists|i: int|
            0 <= i < players.len() && (#[trigger] players[i]).total_bet == level_above(players, prev),
        forall|i: int| 0 <= i < players.len() && (#[trigger] players[i]).total_bet > prev ==> 0 < level_above(players, prev)
            <= players[i].total_bet,
    decreases players.len(),
{
    if players.len() > 0 {
        let rest = players.drop_last();
        level_above_facts(rest, prev);
        let l = level_above(players, prev);
        assert(players[players.len() - 1] == players.last());
        if l != 0 && l != players.last().total_bet {
            let i = choose|i: int| 0 <= i < rest.len() && (#[trigger] rest[i]).total_bet == l;
            assert(players[i].total_bet == l);
        }
        assert forall|i: int| 0 <= i < players.len() && (#[trigger] players[i]).total_bet > prev implies 0 < l <= players[i].total_bet by {
            if i < rest.len() {
                assert(rest[i] == players[i]);
            }
        }
        if l == 0 {
            assert forall|i: int| 0 <= i < players.len() implies (#[trigger] players[i]).total_bet <= prev by {
                if i < rest.len() {
                    assert(rest[i] == players[i]);
                }
            }
        }
    }
}

pub proof fn bets_above_falls(players: Seq<PlayerView>, prev: int, level: int)
    requires
        prev < level,
        exists|i: int| 0 <= i < players.len() && (#[trigger] players[i]).total_bet == level,
    ensures
        bets_above(players, level) < bets_above(players, prev),
    decreases players.len(),
{
    let i = choose|i: int| 0 <= i < players.len() && (#[trigger] players[i]).total_bet == level;
    let rest = players.drop_last();
    bets_above_monotone(rest, prev, level);
    if i < rest.len() {
        assert(rest[i].total_bet == level);
        bets_above_falls(rest, prev, level);
    }
}

proof fn bets_above_monotone(players: Seq<PlayerView>, prev: int, level: int)
    requires
        prev <= level,
    ensures
        bets_above(players, level) <= bets_above(players, prev),
    decreases players.len(),
{
    if players.len() > 0 {
        bets_above_monotone(players.drop_last(), prev, level);
    }
}

/// The bets of all players, none counted beyond `cap`.
pub open spec fn capped(players: Seq<PlayerView>, cap: int) -> int
    decreases players.len(),
{
    if players.len() == 0 {
        0
    } else {
        let t = players.last().total_bet;
        capped(players.drop_last(), cap) + if t <= cap { t } else { cap }
    }
}

pub proof fn layer_is_difference(players: Seq<PlayerView>, prev: int, level: int)
    requires
        prev <= level,
    ensures
        layer(players, prev, level) == capped(players, level) - capped(players, prev),
    decreases players.len(),
{
    if players.len() > 0 {
        layer_is_difference(players.drop_last(), prev, level);
    }
}

pub proof fn capped_facts(players: Seq<PlayerView>, cap: int)
    requires
        forall|i: int| 0 <= i < players.len() ==> (#[trigger] players[i]).total_bet >= 0,
    ensures
        (forall|i: int| 0 <= i < players.len() ==> (#[trigger] players[i]).total_bet <= cap) ==> capped(players, cap) == bets(players),
        capped(players, cap) <= bets(players),
        capped(players, 0) == 0,
    decreases players.len(),
{
    if players.len() > 0 {
        let rest = players.drop_last();
        assert forall|i: int| 0 <= i < rest.len() implies (#[trigger] rest[i]).total_bet >= 0 by {
            assert(rest[i] == players[i]);
        }
        capped_facts(rest, cap);
        assert(players[players.len() - 1] == players.last());
        if forall|i: int| 0 <= i < players.len() ==> (#[trigger] players[i]).total_bet <= cap {
            assert forall|i: int| 0 <= i < rest.len() implies (#[trigger] rest[i]).total_bet <= cap by {
                assert(rest[i] == players[i]);
            }
        }
    }
}

/// The money in the pots together.
pub open spec fn total_of(pots: Seq<(int, Seq<int>)>) -> int
    decreases pots.len(),
{
    if pots.len() == 0 {
        0
    } else {
        total_of(pots.drop_last()) + pots.last().0
    }
}

proof fn total_with_layer(pots: Seq<(int, Seq<int>)>, amount: int, seats: Seq<int>)
    requires
        amount >= 0,
    ensures
        total_of(with_layer(pots, amount, seats)) == total_of(pots) + amount,
{
    if amount > 0 {
        if seats.len() > 0 || pots.len() == 0 {
            assert(pots.push((amount, seats)).drop_last() =~= pots);
        } else {
            let p = pots.drop_last();
            assert(p.push((pots.last().0 + amount, pots.last().1)).drop_last() =~= p);
        }
    }
}

proof fn total_has_last(pots: Seq<(int, Seq<int>)>)
    requires
        forall|k: int| 0 <= k < pots.len() ==> (#[trigger] pots[k]).0 >= 0,
    ensures
        0 <= total_of(pots),
        pots.len() > 0 ==> pots.last().0 <= total_of(pots),
    decreases pots.len(),
{
    if pots.len() > 0 {
        let rest = pots.drop_last();
        assert forall|k: int| 0 <= k < rest.len() implies (#[trigger] rest[k]).0 >= 0 by {
            assert(rest[k] == pots[k]);
        }
        total_has_last(rest);
        assert(pots[pots.len() - 1].0 >= 0);
    }
}

proof fn total_above(players: Seq<PlayerView>, prev: int, pots: Seq<(int, Seq<int>)>)
    requires
        0 <= prev,
        forall|i: int| 0 <= i < players.len() ==> (#[trigger] players[i]).total_bet >= 0,
    ensures
        total_of(pots_above(players, prev, pots)) == total_of(pots) + bets(players) - capped(players, prev),
    decreases bets_above(players, prev),
{
    let level = level_above(players, prev);
    level_above_facts(players, prev);
    if level <= prev {
        capped_facts(players, prev);
    } else {
        bets_above_falls(players, prev, level);
        layer_is_difference(players, prev, level);
        layer_bounds(players, prev, level);
        let more = with_layer(pots, layer(players, prev, level), eligible(players, level));
        total_with_layer(pots, layer(players, prev, level), eligible(players, level));
        total_above(players, level, more);
    }
}

pub proof fn layer_bounds(players: Seq<PlayerView>, prev: int, level: int)
    requires
        prev <= level,
    ensures
        0 <= layer(players, prev, level),
        prev < level && (exists|i: int| 0 <= i < players.len() && (#[trigger] players[i]).total_bet == level) ==> layer(
            players,
            prev,
            level,
        ) > 0,
    decreases players.len(),
{
    if players.len() > 0 {
        let rest = players.drop_last();
        layer_bounds(rest, prev, level);
        if prev < level && (exists|i: int| 0 <= i < players.len() && (#[trigger] players[i]).total_bet == level) {
            let i = choose|i: int| 0 <= i < players.len() && (#[trigger] players[i]).total_bet == level;
            if i < rest.len() {
                assert(rest[i].total_bet == level);
            }
        }
    }
}

/// The pots hold the players' bets, no more and no less.
pub proof fn pots_hold_the_bets(players: Seq<PlayerView>)
    requires
        forall|i: int| 0 <= i < players.len() ==> (#[trigger] players[i]).total_bet >= 0,
    ensures
        total_of(pots_of(players)) == bets(players),
{
    total_above(players, 0, Seq::empty());
    capped_facts(players, 0);
}

/// Whether a pot holds money and has seats that can win it, all of them players
/// who have bet and not folded.
pub open spec fn winnable(players: Seq<PlayerView>, pot: (int, Seq<int>)) -> bool {
    &&& pot.0 > 0
    &&& pot.1.len() > 0
    &&& forall|j: int| 0 <= j < pot.1.len() ==> 0 <= #[trigger] pot.1[j] < players.len()
        && !players[pot.1[j]].folded && players[pot.1[j]].total_bet > 0
}

pub proof fn eligible_facts(players: Seq<PlayerView>, level: int)
    ensures
        eligible(players, level).len() <= players.len(),
        forall|j: int| 0 <= j < eligible(players, level).len() ==> 0 <= #[trigger] eligible(players, level)[j] < players.len()
            && !players[eligible(players, level)[j]].folded && players[eligible(players, level)[j]].total_bet >= level,
        forall|i: int| 0 <= i < players.len() && !(#[trigger] players[i]).folded && players[i].total_bet >= level
            ==> eligible(players, level).contains(i),
    decreases players.len(),
{
    if players.len() > 0 {
        let rest = players.drop_last();
        eligible_facts(rest, level);
        let a = eligible(rest, level);
        let b = eligible(players, level);
        assert(players[players.len() - 1] == players.last());
        assert forall|j: int| 0 <= j < b.len() implies 0 <= #[trigger] b[j] < players.len() && !players[b[j]].folded
            && players[b[j]].total_bet >= level by {
            if j < a.len() {
                assert(b[j] == a[j]);
                assert(players[a[j]] == rest[a[j]]);
            }
        }
        assert forall|i: int| 0 <= i < players.len() && !(#[trigger] players[i]).folded && players[i].total_bet >= level implies b.contains(i) by {
            if i < rest.len() {
                assert(rest[i] == players[i]);
                assert(a.contains(i));
                let k = choose|k: int| 0 <= k < a.len() && a[k] == i;
                assert(b[k] == i);
            } else {
                assert(b[b.len() - 1] == i);
            }
        }
    }
}

proof fn pots_above_winnable(players: Seq<PlayerView>, prev: int, pots: Seq<(int, Seq<int>)>)
    requires
        0 <= prev,
        forall|k: int| 0 <= k < pots.len() ==> winnable(players, #[trigger] pots[k]),
        pots.len() > 0 || prev == 0 && exists|i: int|
            0 <= i < players.len() && !(#[trigger] players[i]).folded && players[i].total_bet > 0,
    ensures
        forall|k: int| 0 <= k < pots_above(players, prev, pots).len() ==> winnable(
            players,
            #[trigger] pots_above(players, prev, pots)[k],
        ),
    decreases bets_above(players, prev),
{
    let level = level_above(players, prev);
    level_above_facts(players, prev);
    if level > prev {
        bets_above_falls(players, prev, level);
        layer_bounds(players, prev, level);
        eligible_facts(players, level);
        let seats = eligible(players, level);
        let more = with_layer(pots, layer(players, prev, level), seats);
        if pots.len() == 0 {
            let i = choose|i: int| 0 <= i < players.len() && !(#[trigger] players[i]).folded && players[i].total_bet > 0;
            assert(seats.contains(i));
        }
        assert forall|k: int| 0 <= k < more.len() implies winnable(players, #[trigger] more[k]) by {
            if k < pots.len() {
                assert(winnable(players, pots[k]));
            }
        }
        pots_above_winnable(players, level, more);
        assert(pots_above(players, prev, pots) == pots_above(players, level, more));
    } else {
        assert(pots_above(players, prev, pots) == pots);
    }
}

/// With a player in who has bet, every pot can be won.
pub proof fn pots_are_winnable(players: Seq<PlayerView>)
    requires
        exists|i: int| 0 <= i < players.len() && !(#[trigger] players[i]).folded && players[i].total_bet > 0,
    ensures
        forall|k: int| 0 <= k < pots_of(players).len() ==> winnable(players, #[trigger] pots_of(players)[k]),
{
    pots_above_winnable(players, 0, Seq::empty());
}

pub open spec fn seats_view(seats: Seq<usize>) -> Seq<int> {
    seats.map_values(|s: usize| s as int)
}

pub open spec fn pot_view(pot: (u64, Vec<usize>)) -> (int, Seq<int>) {
    (pot.0 as int, seats_view(pot.1@))
}

pub open spec fn pots_view(pots: Seq<(u64, Vec<usize>)>) -> Seq<(int, Seq<int>)> {
    pots.map_values(|p: (u64, Vec<usize>)| pot_view(p))
}

fn next_level(players: &[Player], prev: u64) -> (r: u64)
    ensures
        r == level_above(players_view(players@), prev as int),
{
    let ghost all = players_view(players@);
    let mut low: u64 = 0;
    let mut i: usize = 0;
    while i < players.len()
        invariant
            all == players_view(players@),
            i <= players@.len(),
            low == level_above(all.take(i as int), prev as int),
        decreases players@.len() - i,
    {
        assert(all.take(i + 1).drop_last() =~= all.take(i as int));
        assert(all[i as int] == players@[i as int]@);
        let t = players[i].total_bet;
        if t > prev && (low == 0 || t < low) {
            low = t;
        }
        i = i + 1;
    }
    assert(all.take(players@.len() as int) =~= all);
    low
}

proof fn layer_prefix(players: Seq<PlayerView>, n: int, prev: int, level: int)
    requires
        0 <= n <= players.len(),
        0 <= prev <= level,
        forall|i: int| 0 <= i < players.len() ==> (#[trigger] players[i]).total_bet >= 0,
    ensures
        layer(players.take(n), prev, level) <= bets(players),
{
    let first = players.take(n);
    assert forall|i: int| 0 <= i < first.len() implies (#[trigger] first[i]).total_bet >= 0 by {
        assert(first[i] == players[i]);
    }
    layer_is_difference(first, prev, level);
    capped_facts(first, level);
    capped_nonneg(first, prev);
    bets_prefix(players, n);
}

proof fn capped_nonneg(players: Seq<PlayerView>, cap: int)
    requires
        0 <= cap,
        forall|i: int| 0 <= i < players.len() ==> (#[trigger] players[i]).total_bet >= 0,
    ensures
        0 <= capped(players, cap),
    decreases players.len(),
{
    if players.len() > 0 {
        let rest = players.drop_last();
        assert forall|i: int| 0 <= i < rest.len() implies (#[trigger] rest[i]).total_bet >= 0 by {
            assert(rest[i] == players[i]);
        }
        capped_nonneg(rest, cap);
        assert(players[players.len() - 1].total_bet >= 0);
    }
}

/// Compute the pots (main + side) from each player's `total_bet`: the amounts
/// and the seats that can win them, from the main pot up.
pub fn compute_pots(players: &[Player]) -> (r: Vec<(u64, Vec<usize>)>)
    requires
        bets(players_view(players@)) <= u64::MAX,
    ensures
        pots_view(r@) == pots_of(players_view(players@)),
{
    let ghost all = players_view(players@);
    let mut pots: Vec<(u64, Vec<usize>)> = Vec::new();
    let mut prev: u64 = 0;
    let mut level: u64 = next_level(players, 0);
    proof {
        capped_facts(all, 0);
        assert(pots_view(pots@) =~= Seq::<(int, Seq<int>)>::empty());
    }
    while level > prev
        invariant
            all == players_view(players@),
            bets(all) <= u64::MAX,
            level == level_above(all, prev as int),
            pots_above(all, prev as int, pots_view(pots@)) == pots_of(all),
            total_of(pots_view(pots@)) == capped(all, prev as int),
        decreases bets_above(all, prev as int),
    {
        let mut amount: u64 = 0;
        let mut seats: Vec<usize> = Vec::new();
        let mut i: usize = 0;
        while i < players.len()
            invariant
                all == players_view(players@),
                bets(all) <= u64::MAX,
                i <= players@.len(),
                prev < level,
                amount == layer(all.take(i as int), prev as int, level as int),
                seats_view(seats@) =~= eligible(all.take(i as int), level as int),
            decreases players@.len() - i,
        {
            assert(all.take(i + 1).drop_last() =~= all.take(i as int));
            assert(all[i as int] == players@[i as int]@);
            proof {
                layer_prefix(all, i + 1, prev as int, level as int);
            }
            let t = players[i].total_bet;
            let above: u64 = t.saturating_sub(prev);
            let increment: u64 = level - prev;
            let share: u64 = if above <= increment { above } else { increment };
            amount = amount + share;
            if t >= level && !players[i].folded {
                seats.push(i);
            }
            i = i + 1;
        }
        assert(all.take(players@.len() as int) =~= all);
        let ghost old_pots = pots_view(pots@);
        let ghost el = eligible(all, level as int);
        proof {
            level_above_facts(all, prev as int);
            bets_above_falls(all, prev as int, level as int);
            layer_bounds(all, prev as int, level as int);
            layer_is_difference(all, prev as int, level as int);
            capped_facts(all, level as int);
            total_with_layer(old_pots, amount as int, el);
        }
        assert(amount > 0);
        if seats.len() > 0 || pots.len() == 0 {
            pots.push((amount, seats));
            assert(pots_view(pots@) =~= old_pots.push((amount as int, el)));
        } else {
            // No active player at this level: the money of folded players goes
            // into the pot below.
            let (last, winners) = match pots.pop() {
                Some(p) => p,
                None => (0, Vec::new()),
            };
            proof {
                total_has_last(old_pots);
            }
            pots.push((last + amount, winners));
            assert(pots_view(pots@) =~= old_pots.drop_last().push((old_pots.last().0 + amount, old_pots.last().1)));
        }
        prev = level;
        level = next_level(players, prev);
    }
    proof {
        level_above_facts(all, prev as int);
    }
    pots
}

} // verus!
