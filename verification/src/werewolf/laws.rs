//! What holds of every game.

use vstd::prelude::*;
use super::clicks::WolfMoveView;
use super::day::poll_facts;
use super::model::{
    living, living_wolves, winner, wolf_seat_facts, RecapView, SpeechesView, WolfGameView, WolfPlayerView,
};
use super::rules::{ahead, most_wanted, place, ring, shot_line, singled_out, weight};
use super::{DeathCause, Role, SeerCheck, Winner, WolfStage};

verus! {

// ---- who wins ----

/// How many live who are no wolves.
pub open spec fn living_good(players: Seq<WolfPlayerView>) -> nat
    decreases players.len(),
{
    if players.len() == 0 {
        0
    } else {
        living_good(players.drop_last()) + (if players.last().alive && !players.last().wolf() { 1nat } else { 0nat })
    }
}

proof fn sides(players: Seq<WolfPlayerView>)
    ensures
        living(players).len() == living_wolves(players).len() + living_good(players),
    decreases players.len(),
{
    if players.len() > 0 {
        sides(players.drop_last());
    }
}

/// The good side has won once no wolf lives, the wolf king counting as one; the
/// wolves have won once they are at least as many as the others; otherwise the
/// game goes on.
pub proof fn who_wins(players: Seq<WolfPlayerView>)
    ensures
        winner(players) == Some(Winner::Good) <==> living_wolves(players).len() == 0,
        winner(players) == Some(Winner::Wolves) <==> living_wolves(players).len() > 0 && living_wolves(players).len()
            >= living_good(players),
{
    sides(players);
}

// ---- the night ----

/// Protected by the guard or saved by the witch a victim lives; with neither,
/// and with both, they die.
pub proof fn two_protections_cancel_out(g: WolfGameView, victim: usize, saved: bool)
    requires
        g.night_victim == Some(victim),
    ensures
        g.struck(saved) == (if (g.guard_target == Some(victim)) != saved { None } else { Some(victim) }),
{
}

/// Whoever the guard protected in one night they cannot protect in the next.
pub proof fn nobody_is_guarded_twice_running(g: WolfGameView, h: WolfGameView, id: Seq<char>, target: Seq<char>)
    requires
        h.last_guard_target == g.night().last_guard_target,
        h.guard_result(id, target) is Ok,
    ensures
        h.guard_result(id, target)->Ok_0.guard_target is Some,
        h.guard_result(id, target)->Ok_0.guard_target != g.guard_target,
{
}

/// Once a potion has been used it cannot be used again, and no night sees both.
pub proof fn each_potion_works_once(g: WolfGameView, id: Seq<char>, save: bool, poison: Option<Seq<char>>)
    ensures
        save && poison is Some ==> g.witch_result(id, save, poison) is Err,
        g.witch_save_used && save ==> g.witch_result(id, save, poison) is Err,
        g.witch_poison_used && poison is Some ==> g.witch_result(id, save, poison) is Err,
        g.witch_result(id, save, poison) is Ok ==> {
            let h = g.witch_result(id, save, poison)->Ok_0;
            h.witch_save_used == (g.witch_save_used || save) && h.witch_poison_used == (g.witch_poison_used || poison is Some)
        },
{
}

/// The seer finds out who is on the wolves' side, the wolf king too.
pub proof fn the_seer_sees_the_side(g: WolfGameView, id: Seq<char>, target: Seq<char>)
    requires
        g.wf(),
        g.seer_result(id, target) is Ok,
    ensures
        exists|t: int| 0 <= t < g.players.len() && (#[trigger] g.players[t]).open_id == target
            && g.seer_result(id, target)->Ok_0.1 == g.players[t].wolf(),
{
    wolf_seat_facts(g.players, target, 0);
    let t = g.actor(target)->0;
    assert(g.players[t as int].open_id == target);
}

// ---- deaths ----

/// A hunter or wolf king whom the wolves or the vote killed may shoot; poison
/// takes the shot away, and so does being shot.
pub proof fn poison_takes_the_shot(g: WolfGameView, i: usize, cause: DeathCause)
    requires
        i < g.players.len(),
        g.pending_hunter is None,
    ensures
        g.killed(i, cause).pending_hunter == (if (cause == DeathCause::WolfKill || cause == DeathCause::Lynch) && (
        g.players[i as int].role == Some(Role::Hunter) || g.players[i as int].role == Some(Role::WolfKing)) {
            Some(i)
        } else {
            None
        }),
{
}

/// Whom the wolves or the vote killed has last words; whoever was poisoned or
/// shot has none.
pub proof fn the_poisoned_have_no_last_words(g: WolfGameView, i: usize, cause: DeathCause)
    requires
        i < g.players.len(),
    ensures
        g.killed(i, cause).last_words.order == (if cause == DeathCause::WolfKill || cause == DeathCause::Lynch {
            g.last_words.order.push(i)
        } else {
            g.last_words.order
        }),
{
}

/// When the sheriff dies the badge is to be handed on.
pub proof fn a_dead_sheriff_leaves_the_badge(g: WolfGameView, i: usize, cause: DeathCause)
    requires
        g.sheriff_idx == Some(i),
    ensures
        g.killed(i, cause).pending_badge == Some(i),
{
}

/// Nobody wins, no day and no night begins, before the last words have been
/// said, the shot has been fired or not, and the badge has been settled.
pub proof fn deaths_are_settled_first(g: WolfGameView)
    ensures
        g.settled().stage == WolfStage::Ended || g.settled().stage == WolfStage::GuardPick || g.settled().stage
            == WolfStage::WolvesPick || g.settled().stage == WolfStage::SheriffNominate || g.settled().stage
            == WolfStage::SheriffPickDirection || g.settled().stage == WolfStage::DayOpen ==> {
            &&& g.last_words.speaker() is None
            &&& g.pending_hunter is None
            &&& g.pending_badge is None
        },
        g.settled().stage == WolfStage::Ended ==> winner(g.players) is Some,
{
}

/// With nine players there is no sheriff; the election comes once at most.
pub proof fn the_election_comes_once(g: WolfGameView, roles: Seq<Role>)
    ensures
        g.players.len() <= 9 ==> g.started(roles).sheriff_done,
        g.players.len() > 9 ==> !g.started(roles).sheriff_done,
        g.sheriff_done ==> g.settled().stage != WolfStage::SheriffNominate,
        g.settled().sheriff_done == g.sheriff_done,
        g.sheriff_chosen(None).sheriff_done,
{
}

// ---- the vote ----

/// The sheriff's vote counts one and a half times.
pub proof fn the_sheriffs_vote_counts_more(voter: usize, other: usize)
    requires
        voter != other,
    ensures
        2 * weight(voter, Some(voter)) == 3 * weight(other, Some(voter)),
{
}

// ---- the talk ----

proof fn ring_holds(players: Seq<WolfPlayerView>, from: usize, clockwise: bool, first: nat, upto: nat, k: nat)
    requires
        first <= k < upto,
        players[place(players.len(), from, k, clockwise) as int].alive,
    ensures
        ring(players, from, clockwise, first, upto).contains(place(players.len(), from, k, clockwise)),
    decreases upto,
{
    let seat = place(players.len(), from, k, clockwise);
    let rest = ring(players, from, clockwise, first, (upto - 1) as nat);
    let all = ring(players, from, clockwise, first, upto);
    if k == upto - 1 {
        assert(all.last() == seat);
        assert(all[all.len() - 1] == seat);
    } else {
        ring_holds(players, from, clockwise, first, (upto - 1) as nat, k);
        let j = choose|j: int| 0 <= j < rest.len() && rest[j] == seat;
        assert(all[j] == seat);
    }
}

/// The distance from one seat to another round the table.
pub open spec fn distance(n: int, from: int, to: int, clockwise: bool) -> int {
    if clockwise {
        if to >= from { to - from } else { to - from + n }
    } else {
        if from >= to { from - to } else { from - to + n }
    }
}

pub proof fn distance_leads_there(n: nat, from: usize, to: usize, clockwise: bool)
    requires
        from < n,
        to < n,
        n <= 12,
    ensures
        0 <= distance(n as int, from as int, to as int, clockwise) < n,
        place(n, from, distance(n as int, from as int, to as int, clockwise) as nat, clockwise) == to,
        distance(n as int, from as int, to as int, clockwise) == 0 <==> from == to,
{
    let d = distance(n as int, from as int, to as int, clockwise);
    if clockwise {
        if to >= from {
            assert((from + d) % (n as int) == to) by (nonlinear_arith)
                requires
                    from + d == to,
                    0 <= to < n,
            ;
        } else {
            assert((from + d) % (n as int) == to) by (nonlinear_arith)
                requires
                    from + d == to + n,
                    0 <= to < n,
            ;
        }
    } else {
        if from >= to {
            assert((from + n - d) % (n as int) == to) by (nonlinear_arith)
                requires
                    from + n - d == to + n,
                    0 <= to < n,
            ;
        } else {
            assert((from + n - d) % (n as int) == to) by (nonlinear_arith)
                requires
                    from + n - d == to,
                    0 <= to < n,
            ;
        }
    }
}

/// Everybody who lives speaks before the vote, whichever way round, and the
/// sheriff speaks last.
pub proof fn the_sheriff_speaks_last(g: WolfGameView, id: Seq<char>, clockwise: bool, i: usize)
    requires
        g.wf(),
        g.direction_result(id, clockwise) is Ok,
        i < g.players.len(),
        g.players[i as int].alive,
    ensures
        g.direction_result(id, clockwise)->Ok_0.day_speech.order.contains(i),
        g.sheriff_idx == Some(g.direction_result(id, clockwise)->Ok_0.day_speech.order.last()),
{
    let s = g.sheriff_idx->0;
    wolf_seat_facts(g.players, id, 0);
    let n = g.players.len();
    let part = ring(g.players, s, clockwise, 1, n);
    let order = part.push(s);
    if i == s {
        assert(order[part.len() as int] == i);
    } else {
        distance_leads_there(n, s, i, clockwise);
        let d = distance(n as int, s as int, i as int, clockwise) as nat;
        ring_holds(g.players, s, clockwise, 1, n, d);
        let j = choose|j: int| 0 <= j < part.len() && part[j] == i;
        assert(order[j] == i);
    }
}

/// Without a sheriff everybody who lives speaks before the vote too.
pub proof fn everybody_speaks(g: WolfGameView, start: usize, i: usize)
    requires
        g.wf(),
        g.open_result(start) is Ok,
        i < g.players.len(),
        g.players[i as int].alive,
    ensures
        g.open_result(start)->Ok_0.day_speech.order.contains(i),
{
    let n = g.players.len();
    distance_leads_there(n, start, i, true);
    ring_holds(g.players, start, true, 0, n, distance(n as int, start as int, i as int, true) as nat);
}

// ---- what never changes ----

/// The same people in the same seats with the same roles, and nobody alive who
/// was not.
pub open spec fn grows_old(g: WolfGameView, h: WolfGameView) -> bool {
    &&& h.players.len() == g.players.len()
    &&& h.game_count == g.game_count
    &&& forall|i: int| 0 <= i < g.players.len() ==> {
        let (p, q) = (#[trigger] g.players[i], h.players[i]);
        p.open_id == q.open_id && p.name == q.name && p.role == q.role && p.is_ai == q.is_ai && (q.alive ==> p.alive)
    }
}

proof fn killing_grows_old(g: WolfGameView, i: usize, cause: DeathCause)
    requires
        i < g.players.len(),
    ensures
        grows_old(g, g.killed(i, cause)),
{
}

proof fn settling_grows_old(g: WolfGameView)
    ensures
        grows_old(g, g.settled()),
{
}

proof fn dawn_grows_old(g: WolfGameView, saved: bool, poisoned: Option<usize>)
    requires
        g.wf(),
        super::model::seat_in(poisoned, g.players.len()),
    ensures
        grows_old(g, g.dawn(saved, poisoned)),
{
}

proof fn night_grows_old(g: WolfGameView, id: Seq<char>, m: WolfMoveView)
    requires
        g.wf(),
        m is Guard || m is Kill || m is Say || m is Ready,
        g.moved(id, m) is Ok,
    ensures
        grows_old(g, g.moved(id, m)->Ok_0.0),
{
    reveal(WolfGameView::moved);
}

proof fn check_grows_old(g: WolfGameView, id: Seq<char>, target: Seq<char>)
    requires
        g.wf(),
        g.seer_result(id, target) is Ok,
    ensures
        grows_old(g, g.seer_result(id, target)->Ok_0.0),
{
    wolf_seat_facts(g.players, target, 0);
    let i = g.holder(id, Role::Seer)->Ok_0;
    let t = g.other_target(target, i)->Ok_0;
    let is_wolf = g.players[t as int].wolf();
    let v = WolfGameView {
        seer_history: g.seer_history.push(SeerCheck { day: g.day, target_idx: t, is_wolf }),
        ..g
    }.logged(RecapView::SeerCheck { day: g.day, target: t, is_wolf });
    assert(v.wf());
    dawn_grows_old(v, false, None);
}

proof fn witch_grows_old(g: WolfGameView, id: Seq<char>, save: bool, poison: Option<Seq<char>>)
    requires
        g.wf(),
        g.witch_result(id, save, poison) is Ok,
    ensures
        grows_old(g, g.witch_result(id, save, poison)->Ok_0),
{
    if let Some(t) = poison {
        wolf_seat_facts(g.players, t, 0);
    }
    let i = g.holder(id, Role::Witch)->Ok_0;
    let poisoned = match poison {
        Some(t) => Some(g.other_target(t, i)->Ok_0),
        None => None,
    };
    let v = WolfGameView {
        witch_save_used: g.witch_save_used || save,
        witch_poison_used: g.witch_poison_used || poisoned is Some,
        ..g
    }.logged(RecapView::WitchAct { day: g.day, saved: save, poisoned });
    assert(v.wf());
    dawn_grows_old(v, save, poisoned);
}

proof fn shot_grows_old(g: WolfGameView, i: usize, target: Option<usize>)
    requires
        super::model::seat_in(target, g.players.len()),
    ensures
        grows_old(g, g.shot(i, target)),
{
    let v = WolfGameView { pending_hunter: None, ..g }.logged(
        RecapView::HunterShot { day: g.day, shooter: i, target },
    ).told(shot_line(g.players[i as int].name, g.name_at(target)));
    match target {
        Some(t) => {
            killing_grows_old(v, t, DeathCause::Shot);
            settling_grows_old(v.killed(t, DeathCause::Shot));
        },
        None => {
            settling_grows_old(v);
        },
    }
}

proof fn aftermath_grows_old(g: WolfGameView, id: Seq<char>, m: WolfMoveView)
    requires
        g.wf(),
        m is Check || m is Witch || m is Shoot || m is Badge,
        g.moved(id, m) is Ok,
    ensures
        grows_old(g, g.moved(id, m)->Ok_0.0),
{
    reveal(WolfGameView::moved);
    match m {
        WolfMoveView::Check(t) => {
            check_grows_old(g, id, t);
        },
        WolfMoveView::Witch(save, poison) => {
            witch_grows_old(g, id, save, poison);
        },
        WolfMoveView::Shoot(target) => {
            let i = g.pending(g.pending_hunter, id)->Ok_0;
            match target {
                Some(t) => {
                    wolf_seat_facts(g.players, t, 0);
                    shot_grows_old(g, i, Some(g.other_target(t, i)->Ok_0));
                },
                None => {
                    shot_grows_old(g, i, None);
                },
            }
        },
        WolfMoveView::Badge(target) => {},
        _ => {},
    }
}

proof fn day_grows_old(g: WolfGameView, id: Seq<char>, m: WolfMoveView)
    requires
        g.wf(),
        m is Nominate || m is SheriffVote || m is Vote || m is Direction,
        g.moved(id, m) is Ok,
    ensures
        grows_old(g, g.moved(id, m)->Ok_0.0),
{
    reveal(WolfGameView::moved);
}

proof fn speech_grows_old(g: WolfGameView, id: Seq<char>, m: WolfMoveView)
    requires
        g.wf(),
        m is SheriffSpeech || m is SideSpeech || m is DaySpeech || m is LastWords,
        g.moved(id, m) is Ok,
    ensures
        grows_old(g, g.moved(id, m)->Ok_0.0),
{
    reveal(WolfGameView::moved);
}

/// Nobody rises from the dead and nobody changes sides, whatever a player does.
pub proof fn the_dead_stay_dead(g: WolfGameView, id: Seq<char>, m: WolfMoveView)
    requires
        g.wf(),
        g.moved(id, m) is Ok,
    ensures
        grows_old(g, g.moved(id, m)->Ok_0.0),
{
    if m is Guard || m is Kill || m is Say || m is Ready {
        night_grows_old(g, id, m);
    } else if m is Check || m is Witch || m is Shoot || m is Badge {
        aftermath_grows_old(g, id, m);
    } else if m is Nominate || m is SheriffVote || m is Vote || m is Direction {
        day_grows_old(g, id, m);
    } else {
        speech_grows_old(g, id, m);
    }
}

/// Nor does anybody when a stage ends.
pub proof fn the_dead_stay_dead_when_a_stage_ends(g: WolfGameView)
    requires
        g.wf(),
        g.conclusion() is Ok,
    ensures
        grows_old(g, g.conclusion()->Ok_0),
{
    match g.stage {
        WolfStage::DayVote => {
            let t = singled_out(g.day_votes, g.sheriff_idx);
            if t is Some {
                assert(ahead(g.day_votes, g.sheriff_idx, t->0));
                poll_facts(g.day_votes, g.sheriff_idx, t->0, g.players.len());
            }
            let c = g.count_result()->Ok_0;
            assert(c.players == g.players);
            let v = WolfGameView { at_dawn: false, last_words: SpeechesView::fresh(Seq::empty()), ..c };
            if t is Some {
                killing_grows_old(v, t->0, DeathCause::Lynch);
                settling_grows_old(v.killed(t->0, DeathCause::Lynch));
            } else {
                settling_grows_old(v);
            }
        },
        WolfStage::WolvesPick => {
            let t = most_wanted(g.wolf_kill_votes, g.wolf_kill_votes.len());
            most_wanted_has_a_seat(g, g.wolf_kill_votes.len());
            let v = WolfGameView { night_victim: t, ..g }.logged(RecapView::WolfTarget { day: g.day, target: t });
            assert(v.wf());
            dawn_grows_old(v, false, None);
        },
        _ => {},
    }
}

proof fn most_wanted_has_a_seat(g: WolfGameView, k: nat)
    requires
        g.wf(),
        k <= g.wolf_kill_votes.len(),
    ensures
        super::model::seat_in(most_wanted(g.wolf_kill_votes, k), g.players.len()),
    decreases k,
{
    if k > 0 {
        most_wanted_has_a_seat(g, (k - 1) as nat);
        assert(g.wolf_kill_votes[k - 1].1 < g.players.len());
    }
}

// ---- the deal ----

/// The roles that are dealt are those of the board, and everybody gets the one
/// that is theirs.
pub proof fn the_board_is_dealt(g: WolfGameView, roles: Seq<Role>, i: int)
    requires
        0 <= i < g.players.len(),
        roles.len() == g.players.len(),
    ensures
        g.started(roles).players[i].role == Some(roles[i]),
        g.started(roles).players[i].alive,
        g.started(roles).players[i].name == g.players[i].name,
        g.started(roles).day == 1,
{
}

} // verus!
