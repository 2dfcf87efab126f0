//! What a pot is: whose money it holds, up to which bet, and who can win it.

use vstd::prelude::*;
use super::pots::{
    bets_above, bets_above_falls, capped, capped_facts, eligible, eligible_facts, layer, layer_bounds, layer_is_difference,
    level_above, level_above_facts, pots_above, pots_of, with_layer,
};
use super::table::bets;
use super::view::PlayerView;

verus! {

/// Whether the seats are those, each once and in order, that have not folded and
/// have bet `level` or more.
pub open spec fn reach(players: Seq<PlayerView>, level: int, seats: Seq<int>) -> bool {
    &&& forall|i: int| #[trigger] seats.contains(i) <==> 0 <= i < players.len() && !players[i].folded && players[i].total_bet >= level
    &&& forall|a: int, b: int| 0 <= a < b < seats.len() ==> #[trigger] seats[a] < #[trigger] seats[b]
}

/// The level below the `k`th.
pub open spec fn floor_of(levels: Seq<int>, k: int) -> int {
    if k <= 0 { 0 } else { levels[k - 1] }
}

/// Whether each pot stands for one level of the bets: its seats are those that
/// have bet so much, and it holds what everybody has bet up to this level and
/// above the one below. The last one holds all that is left, up to `top`.
pub open spec fn split_at(players: Seq<PlayerView>, pots: Seq<(int, Seq<int>)>, levels: Seq<int>, top: int) -> bool {
    &&& levels.len() == pots.len()
    &&& forall|k: int| 0 <= k < levels.len() ==> 0 <= floor_of(levels, k) < #[trigger] levels[k] <= top
    &&& forall|k: int| 0 <= k < pots.len() ==> reach(players, levels[k], (#[trigger] pots[k]).1)
    &&& forall|k: int| 0 <= k < pots.len() ==> (#[trigger] pots[k]).0 == capped(players, if k == pots.len() - 1 { top } else { levels[k] })
        - capped(players, floor_of(levels, k))
}

/// Whether the levels are bets of players, and all of them up to the highest of
/// those that somebody who has not folded has reached.
pub open spec fn levels_are_bets(players: Seq<PlayerView>, levels: Seq<int>, top: int) -> bool {
    &&& forall|k: int| 0 <= k < levels.len() ==> is_bet(players, #[trigger] levels[k])
    &&& forall|i: int| 0 <= i < players.len() && 0 < (#[trigger] players[i]).total_bet <= top && (!players[i].folded
        || levels.len() > 0 && players[i].total_bet <= levels.last()) ==> levels.contains(players[i].total_bet)
}

/// Whether somebody has bet just this.
pub open spec fn is_bet(players: Seq<PlayerView>, level: int) -> bool {
    exists|i: int| 0 <= i < players.len() && (#[trigger] players[i]).total_bet == level
}

proof fn eligible_reach(players: Seq<PlayerView>, level: int)
    ensures
        reach(players, level, eligible(players, level)),
    decreases players.len(),
{
    eligible_facts(players, level);
    let b = eligible(players, level);
    assert forall|i: int| #[trigger] b.contains(i) implies 0 <= i < players.len() && !players[i].folded && players[i].total_bet >= level by {
        let j = choose|j: int| 0 <= j < b.len() && b[j] == i;
    }
    if players.len() > 0 {
        let rest = players.drop_last();
        eligible_reach(rest, level);
        eligible_facts(rest, level);
    }
}

proof fn levels_above(players: Seq<PlayerView>, prev: int, pots: Seq<(int, Seq<int>)>, levels: Seq<int>) -> (found: (Seq<int>, int))
    requires
        0 <= prev,
        split_at(players, pots, levels, prev),
        levels_are_bets(players, levels, prev),
        prev > 0 ==> levels.len() > 0,
        levels.len() > 0 && levels.last() < prev ==> forall|i: int|
            0 <= i < players.len() && !(#[trigger] players[i]).folded ==> players[i].total_bet <= levels.last(),
        exists|i: int| 0 <= i < players.len() && !(#[trigger] players[i]).folded && players[i].total_bet > 0,
    ensures
        split_at(players, pots_above(players, prev, pots), found.0, found.1),
        levels_are_bets(players, found.0, found.1),
        forall|i: int| 0 <= i < players.len() ==> (#[trigger] players[i]).total_bet <= found.1,
    decreases bets_above(players, prev),
{
    let level = level_above(players, prev);
    level_above_facts(players, prev);
    if level <= prev {
        (levels, prev)
    } else {
        bets_above_falls(players, prev, level);
        layer_bounds(players, prev, level);
        layer_is_difference(players, prev, level);
        eligible_facts(players, level);
        eligible_reach(players, level);
        let seats = eligible(players, level);
        let amount = layer(players, prev, level);
        let more = with_layer(pots, amount, seats);
        let new_levels = if seats.len() > 0 || pots.len() == 0 { levels.push(level) } else { levels };
        if pots.len() == 0 {
            assert(prev == 0);
            let i = choose|i: int| 0 <= i < players.len() && !(#[trigger] players[i]).folded && players[i].total_bet > 0;
            assert(seats.contains(i));
        }
        if seats.len() > 0 {
            let i = seats[0];
            assert(seats.contains(i));
            assert(levels.len() > 0 ==> levels.last() == prev);
            assert forall|k: int| 0 <= k < more.len() implies reach(players, new_levels[k], (#[trigger] more[k]).1) by {
                if k < pots.len() {
                    assert(more[k] == pots[k]);
                }
            }
            assert forall|k: int| 0 <= k < more.len() implies (#[trigger] more[k]).0 == capped(
                players,
                if k == more.len() - 1 { level } else { new_levels[k] },
            ) - capped(players, floor_of(new_levels, k)) by {
                if k < pots.len() {
                    assert(more[k] == pots[k]);
                } else if k > 0 {
                    assert(floor_of(new_levels, k) == prev);
                }
            }
            assert forall|k: int| 0 <= k < new_levels.len() implies 0 <= floor_of(new_levels, k) < #[trigger] new_levels[k] <= level by {
                if k < levels.len() {
                    assert(new_levels[k] == levels[k]);
                    assert(floor_of(new_levels, k) == floor_of(levels, k));
                } else if k > 0 {
                    assert(floor_of(new_levels, k) == prev);
                }
            }
            assert forall|k: int| 0 <= k < new_levels.len() implies is_bet(players, #[trigger] new_levels[k]) by {
                if k < levels.len() {
                    assert(new_levels[k] == levels[k]);
                }
            }
            assert forall|j: int| 0 <= j < players.len() && 0 < (#[trigger] players[j]).total_bet <= level && (!players[j].folded
                || new_levels.len() > 0 && players[j].total_bet <= new_levels.last()) implies new_levels.contains(players[j].total_bet) by {
                let t = players[j].total_bet;
                if t <= prev {
                    assert(levels.contains(t));
                    let k = choose|k: int| 0 <= k < levels.len() && levels[k] == t;
                    assert(new_levels[k] == t);
                } else {
                    assert(t == level);
                    assert(new_levels[new_levels.len() - 1] == t);
                }
            }
        } else {
            assert forall|i: int| 0 <= i < players.len() && !(#[trigger] players[i]).folded implies players[i].total_bet
                <= levels.last() by {
                if players[i].total_bet > levels.last() {
                    assert(players[i].total_bet > prev);
                    assert(seats.contains(i));
                }
            }
            assert forall|k: int| 0 <= k < more.len() implies reach(players, new_levels[k], (#[trigger] more[k]).1) by {
                assert(reach(players, levels[k], pots[k].1));
            }
            assert forall|k: int| 0 <= k < more.len() implies (#[trigger] more[k]).0 == capped(
                players,
                if k == more.len() - 1 { level } else { new_levels[k] },
            ) - capped(players, floor_of(new_levels, k)) by {
                assert(pots[k].0 == capped(players, if k == pots.len() - 1 { prev } else { levels[k] }) - capped(
                    players,
                    floor_of(levels, k),
                ));
            }
            assert forall|j: int| 0 <= j < players.len() && 0 < (#[trigger] players[j]).total_bet <= level && (!players[j].folded
                || new_levels.len() > 0 && players[j].total_bet <= new_levels.last()) implies new_levels.contains(players[j].total_bet) by {
                assert(players[j].total_bet <= levels.last() <= prev);
            }
        }
        assert(pots_above(players, prev, pots) == pots_above(players, level, more));
        levels_above(players, level, more, new_levels)
    }
}

/// Each pot has its level: a bet that somebody has made. Its seats are all those
/// that are still in and have bet so much. It holds of everybody what they have bet
/// up to this level and above the one below, and the last pot all that lies above.
/// Every bet of somebody still in is a level, and so is every bet below.
pub proof fn each_pot_has_its_level(players: Seq<PlayerView>)
    requires
        forall|i: int| 0 <= i < players.len() ==> (#[trigger] players[i]).total_bet >= 0,
        exists|i: int| 0 <= i < players.len() && !(#[trigger] players[i]).folded && players[i].total_bet > 0,
    ensures
        exists|levels: Seq<int>, top: int|
            {
                &&& #[trigger] split_at(players, pots_of(players), levels, top)
                &&& levels_are_bets(players, levels, top)
                &&& capped(players, top) == bets(players)
                &&& forall|i: int| 0 <= i < players.len() ==> (#[trigger] players[i]).total_bet <= top
            },
{
    let found = levels_above(players, 0, Seq::empty(), Seq::empty());
    capped_facts(players, found.1);
    assert(split_at(players, pots_of(players), found.0, found.1));
}

/// Where nobody who has bet is still in, all bets are one pot that no seat can
/// win.
pub proof fn a_pot_for_nobody(players: Seq<PlayerView>)
    requires
        forall|i: int| 0 <= i < players.len() ==> (#[trigger] players[i]).total_bet >= 0,
        forall|i: int| 0 <= i < players.len() && (#[trigger] players[i]).total_bet > 0 ==> players[i].folded,
    ensures
        pots_of(players) == (if bets(players) == 0 {
            Seq::<(int, Seq<int>)>::empty()
        } else {
            seq![(bets(players), Seq::<int>::empty())]
        }),
{
    capped_facts(players, 0);
    nobody_above(players, 0, Seq::empty());
}

proof fn nobody_above(players: Seq<PlayerView>, prev: int, pots: Seq<(int, Seq<int>)>)
    requires
        0 <= prev,
        forall|i: int| 0 <= i < players.len() ==> (#[trigger] players[i]).total_bet >= 0,
        forall|i: int| 0 <= i < players.len() && (#[trigger] players[i]).total_bet > 0 ==> players[i].folded,
        capped(players, prev) >= 0,
        pots == (if capped(players, prev) == 0 {
            Seq::<(int, Seq<int>)>::empty()
        } else {
            seq![(capped(players, prev), Seq::<int>::empty())]
        }),
    ensures
        pots_above(players, prev, pots) == (if bets(players) == 0 {
            Seq::<(int, Seq<int>)>::empty()
        } else {
            seq![(bets(players), Seq::<int>::empty())]
        }),
    decreases bets_above(players, prev),
{
    let level = level_above(players, prev);
    level_above_facts(players, prev);
    if level <= prev {
        capped_facts(players, prev);
    } else {
        bets_above_falls(players, prev, level);
        layer_bounds(players, prev, level);
        layer_is_difference(players, prev, level);
        eligible_facts(players, level);
        let seats = eligible(players, level);
        let more = with_layer(pots, layer(players, prev, level), seats);
        if seats.len() > 0 {
            assert(!players[seats[0]].folded);
        }
        assert(seats =~= Seq::<int>::empty());
        assert(more =~= seq![(capped(players, level), Seq::<int>::empty())]);
        nobody_above(players, level, more);
        assert(pots_above(players, prev, pots) == pots_above(players, level, more));
    }
}

} // verus!
