//! What holds of every night: who may do what, whom it strikes, and what follows
//! from the deaths.

use vstd::prelude::*;
use vstd::string::*;
use crate::spelling::how_texts_are_joined;
use crate::text::decimal;
use super::model::{
    living, living_wolves, role_seat, role_seat_facts, winner, wolf_seat, wolf_seat_facts, RecapView, WolfGameView,
    WolfPlayerView,
};
use super::rules::{dawn_line, most_wanted, names_of, wanted, without_wolf};
use super::{DeathCause, Role, SeerCheck, Winner, WolfError, WolfStage};

verus! {

// ---- who is who ----

/// Whether somebody is on the wolves' side, the wolf king included.
pub open spec fn of_the_pack(p: WolfPlayerView) -> bool {
    p.role == Some(Role::Werewolf) || p.role == Some(Role::WolfKing)
}

/// How many wolves live among the first `n`.
pub open spec fn wolves_alive(players: Seq<WolfPlayerView>, n: nat) -> nat
    decreases n,
{
    if n == 0 {
        0
    } else {
        wolves_alive(players, (n - 1) as nat) + if players[n - 1].alive && of_the_pack(players[n - 1]) { 1nat } else { 0nat }
    }
}

/// How many others live among the first `n`.
pub open spec fn others_alive(players: Seq<WolfPlayerView>, n: nat) -> nat
    decreases n,
{
    if n == 0 {
        0
    } else {
        others_alive(players, (n - 1) as nat) + if players[n - 1].alive && !of_the_pack(players[n - 1]) { 1nat } else { 0nat }
    }
}

/// Whether a side has won: no wolf lives, or the wolves are as many as the others.
pub open spec fn is_over(players: Seq<WolfPlayerView>) -> bool {
    wolves_alive(players, players.len()) == 0 || wolves_alive(players, players.len()) >= others_alive(players, players.len())
}

proof fn counts_are_lengths(players: Seq<WolfPlayerView>, n: nat)
    requires
        n <= players.len(),
    ensures
        living_wolves(players.take(n as int)).len() == wolves_alive(players, n),
        living(players.take(n as int)).len() == wolves_alive(players, n) + others_alive(players, n),
    decreases n,
{
    if n > 0 {
        counts_are_lengths(players, (n - 1) as nat);
        assert(players.take(n as int).drop_last() =~= players.take(n - 1));
        assert(players.take(n as int).last() == players[n - 1]);
    }
}

/// Which side has won: the good side once no wolf lives, the wolves once they are as
/// many as the others, and before that neither.
pub proof fn which_side_has_won(players: Seq<WolfPlayerView>)
    ensures
        ({
            let wolves = wolves_alive(players, players.len());
            let others = others_alive(players, players.len());
            winner(players) == (if wolves == 0 {
                Some(Winner::Good)
            } else if wolves >= others {
                Some(Winner::Wolves)
            } else {
                None
            })
        }),
{
    counts_are_lengths(players, players.len());
    assert(players.take(players.len() as int) =~= players);
}

// ---- what follows from deaths ----

/// Whether last words are still to be said.
pub open spec fn words_pending(g: WolfGameView) -> bool {
    0 <= g.last_words.next < g.last_words.order.len()
}

/// Once nothing is pending, the game has ended exactly when a side has won, the
/// wolves as well as the good side.
pub proof fn the_game_ends_when_a_side_has_won(g: WolfGameView)
    requires
        !words_pending(g),
        g.pending_hunter is None,
        g.pending_badge is None,
    ensures
        g.settled().stage == WolfStage::Ended <==> is_over(g.players),
        winner(g.players) is Some <==> is_over(g.players),
        is_over(g.players) ==> g.settled() == (WolfGameView { stage: WolfStage::Ended, ..g }),
{
    which_side_has_won(g.players);
}

/// Last words come first, the shot next, and the badge last; meanwhile nothing else
/// changes, and nobody has won.
pub proof fn what_is_pending_comes_first(g: WolfGameView)
    ensures
        words_pending(g) ==> g.settled() == (WolfGameView { stage: WolfStage::LastWords, ..g }),
        !words_pending(g) && g.pending_hunter is Some ==> g.settled() == (WolfGameView { stage: WolfStage::HunterShoot, ..g }),
        !words_pending(g) && g.pending_hunter is None && g.pending_badge is Some ==> g.settled() == (WolfGameView {
            stage: WolfStage::BadgePass,
            ..g
        }),
{
}

/// While the game goes on, the morning leads to the election where it has not been
/// held, and else to the talk: the sheriff, if there is one, says which way round.
pub proof fn what_the_morning_brings(g: WolfGameView)
    requires
        !words_pending(g),
        g.pending_hunter is None,
        g.pending_badge is None,
        !is_over(g.players),
        g.at_dawn,
    ensures
        !g.sheriff_done ==> g.settled() == (WolfGameView { stage: WolfStage::SheriffNominate, ..g }),
        g.sheriff_done ==> {
            let h = g.settled();
            &&& h.stage == (if g.sheriff_idx is Some { WolfStage::SheriffPickDirection } else { WolfStage::DayOpen })
            &&& h.day_speech.order.len() == 0
            &&& h.day_speech.said.len() == 0
            &&& h.day_votes.len() == 0
            &&& h.lynched is None
            &&& h == (WolfGameView { stage: h.stage, day_speech: h.day_speech, day_votes: h.day_votes, lynched: None, ..g })
        },
{
    which_side_has_won(g.players);
}

/// And the evening leads to the next night, a day later: nobody has chosen
/// anything yet, and whom the guard protected is remembered.
pub proof fn what_the_evening_brings(g: WolfGameView)
    requires
        g.wf(),
        !words_pending(g),
        g.pending_hunter is None,
        g.pending_badge is None,
        !is_over(g.players),
        !g.at_dawn,
        g.day < u32::MAX,
    ensures
        ({
            let h = g.settled();
            &&& h.day == g.day + 1
            &&& h.stage == (if exists|i: int| 0 <= i < g.players.len() && (#[trigger] g.players[i]).role == Some(Role::Guard) {
                WolfStage::GuardPick
            } else {
                WolfStage::WolvesPick
            })
            &&& nothing_chosen(h)
            &&& h.last_guard_target == g.guard_target
            &&& h.players == g.players
            &&& h.witch_save_used == g.witch_save_used
            &&& h.witch_poison_used == g.witch_poison_used
            &&& h.sheriff_idx == g.sheriff_idx
            &&& h.sheriff_done == g.sheriff_done
            &&& h.seer_history == g.seer_history
            &&& h.recap_log == g.recap_log
            &&& h.event_log == g.event_log
        }),
{
    which_side_has_won(g.players);
    role_seat_facts(g.players, Role::Guard, 0);
    if role_seat(g.players, Role::Guard, 0) is Some {
        let i = role_seat(g.players, Role::Guard, 0)->0;
        assert(g.players[i as int].role == Some(Role::Guard));
    }
}

/// Whether the night has just begun.
pub open spec fn nothing_chosen(g: WolfGameView) -> bool {
    &&& g.guard_target is None
    &&& g.wolf_kill_votes.len() == 0
    &&& g.wolf_chat.len() == 0
    &&& g.wolf_ready.len() == 0
    &&& g.night_victim is None
    &&& g.night_deaths.len() == 0
    &&& g.last_words.order.len() == 0
}

// ---- who acts ----

/// Whether the id holds the seat.
pub open spec fn sits(g: WolfGameView, id: Seq<char>, i: usize) -> bool {
    i < g.players.len() && g.players[i as int].open_id == id
}

pub proof fn the_seat_is_found(g: WolfGameView, id: Seq<char>, i: usize)
    requires
        g.wf(),
        sits(g, id, i),
    ensures
        wolf_seat(g.players, id, 0) == Some(i),
{
    wolf_seat_facts(g.players, id, 0);
    match wolf_seat(g.players, id, 0) {
        Some(j) => {
            if j < i {
                assert(g.players[j as int].open_id != g.players[i as int].open_id);
            } else if i < j {
                assert(g.players[i as int].open_id != g.players[j as int].open_id);
            }
        },
        None => {},
    }
}

/// Whoever is not seated can do nothing at all at night.
pub proof fn strangers_do_nothing(g: WolfGameView, id: Seq<char>, target: Seq<char>, save: bool, poison: Option<Seq<char>>)
    requires
        g.wf(),
        forall|i: usize| !sits(g, id, i),
    ensures
        g.guard_result(id, target) is Err,
        g.wolf_pick_result(id, target) is Err,
        g.wolf_say_result(id, target) is Err,
        g.wolf_ready_result(id) is Err,
        g.seer_result(id, target) is Err,
        g.witch_result(id, save, poison) is Err,
{
    wolf_seat_facts(g.players, id, 0);
    match wolf_seat(g.players, id, 0) {
        Some(i) => {
            assert(sits(g, id, i));
        },
        None => {},
    }
}

/// The guard protects one who lives, and not the one of the night before; then the
/// wolves are awake.
pub proof fn the_guard_protects(g: WolfGameView, id: Seq<char>, i: usize, target: Seq<char>, t: usize)
    requires
        g.wf(),
        sits(g, id, i),
        sits(g, target, t),
    ensures
        ({
            let r = g.guard_result(id, target);
            &&& r is Ok <==> g.stage == WolfStage::GuardPick && g.players[i as int].alive && g.players[i as int].role == Some(
                Role::Guard,
            ) && g.players[t as int].alive && g.last_guard_target != Some(t)
            &&& r is Ok ==> r->Ok_0 == (WolfGameView {
                guard_target: Some(t),
                stage: WolfStage::WolvesPick,
                recap_log: g.recap_log.push(RecapView::GuardPick { day: g.day, target: t }),
                ..g
            })
            &&& r == Err::<WolfGameView, WolfError>(WolfError::GuardedLastNight) <==> g.stage == WolfStage::GuardPick
                && g.players[i as int].alive && g.players[i as int].role == Some(Role::Guard) && g.players[t as int].alive
                && g.last_guard_target == Some(t)
            &&& g.stage != WolfStage::GuardPick ==> r == Err::<WolfGameView, WolfError>(WolfError::WrongStage)
        }),
{
    the_seat_is_found(g, id, i);
    the_seat_is_found(g, target, t);
}

/// Where the guard is dead or there is none, the night goes on without them, and
/// only so.
pub proof fn a_dead_guard_is_passed_over(g: WolfGameView, s: int)
    requires
        g.wf(),
        0 <= s < g.players.len(),
        has_role_alone(g, Role::Guard, s),
    ensures
        g.guard_skipped() is Ok <==> g.stage == WolfStage::GuardPick && !g.players[s].alive,
        g.guard_skipped() is Ok ==> g.guard_skipped()->Ok_0 == (WolfGameView { stage: WolfStage::WolvesPick, ..g }),
{
    the_role_is_found(g, Role::Guard, s);
}

/// Whether the seat is the only one with this role.
pub open spec fn has_role_alone(g: WolfGameView, role: Role, s: int) -> bool {
    forall|i: int| 0 <= i < g.players.len() ==> ((#[trigger] g.players[i]).role == Some(role) <==> i == s)
}

proof fn the_role_is_found(g: WolfGameView, role: Role, s: int)
    requires
        g.wf(),
        has_role_alone(g, role, s),
    ensures
        g.living_role(role) == (0 <= s < g.players.len() && g.players[s].alive),
{
    role_seat_facts(g.players, role, 0);
    if 0 <= s < g.players.len() {
        assert(g.players[s].role == Some(role));
    }
}

// ---- the wolves ----

proof fn without_facts(votes: Seq<(usize, usize)>, wolf: usize)
    ensures
        forall|e: (usize, usize)| #[trigger] without_wolf(votes, wolf).contains(e) <==> votes.contains(e) && e.0 != wolf,
    decreases votes.len(),
{
    if votes.len() > 0 {
        let rest = votes.drop_last();
        without_facts(rest, wolf);
        let a = without_wolf(rest, wolf);
        let b = without_wolf(votes, wolf);
        assert(votes[votes.len() - 1] == votes.last());
        assert forall|e: (usize, usize)| #[trigger] b.contains(e) <==> votes.contains(e) && e.0 != wolf by {
            if b.contains(e) {
                let k = choose|k: int| 0 <= k < b.len() && b[k] == e;
                if k < a.len() {
                    assert(a[k] == e);
                    assert(a.contains(e));
                    let l = choose|l: int| 0 <= l < rest.len() && rest[l] == e;
                    assert(votes[l] == e);
                }
            }
            if votes.contains(e) && e.0 != wolf {
                let l = choose|l: int| 0 <= l < votes.len() && votes[l] == e;
                if l < rest.len() {
                    assert(rest[l] == e);
                    assert(a.contains(e));
                    let k = choose|k: int| 0 <= k < a.len() && a[k] == e;
                    assert(b[k] == e);
                } else {
                    assert(b[b.len() - 1] == e);
                }
            }
        }
    }
}

/// A living wolf whose choice does not stand yet may choose anybody alive outside
/// the pack. The wolf's earlier choice is gone, and nobody else's is touched.
pub proof fn a_wolf_chooses(g: WolfGameView, id: Seq<char>, w: usize, target: Seq<char>, t: usize)
    requires
        g.wf(),
        sits(g, id, w),
        sits(g, target, t),
    ensures
        ({
            let r = g.wolf_pick_result(id, target);
            let votes = r->Ok_0.wolf_kill_votes;
            &&& r is Ok <==> g.stage == WolfStage::WolvesPick && g.players[w as int].alive && of_the_pack(g.players[w as int])
                && !g.wolf_ready.contains(w) && g.players[t as int].alive && !of_the_pack(g.players[t as int])
            &&& r is Ok ==> r->Ok_0 == (WolfGameView { wolf_kill_votes: votes, ..g })
            &&& r is Ok ==> votes.len() > 0 && votes.last() == (w, t)
            &&& r is Ok ==> forall|e: (usize, usize)| #[trigger] votes.contains(e) <==> e == (w, t) || g.wolf_kill_votes.contains(e)
                && e.0 != w
        }),
{
    the_seat_is_found(g, id, w);
    the_seat_is_found(g, target, t);
    without_facts(g.wolf_kill_votes, w);
    let r = g.wolf_pick_result(id, target);
    if r is Ok {
        let kept = without_wolf(g.wolf_kill_votes, w);
        let votes = r->Ok_0.wolf_kill_votes;
        assert forall|e: (usize, usize)| #[trigger] votes.contains(e) <==> e == (w, t) || g.wolf_kill_votes.contains(e) && e.0 != w by {
            if votes.contains(e) {
                let k = choose|k: int| 0 <= k < votes.len() && votes[k] == e;
                if k < kept.len() {
                    assert(kept[k] == e);
                    assert(kept.contains(e));
                }
            }
            assert(votes[votes.len() - 1] == (w, t));
            if kept.contains(e) {
                let k = choose|k: int| 0 <= k < kept.len() && kept[k] == e;
                assert(votes[k] == e);
            }
        }
    }
}

/// What a wolf says reaches the pack, and a wolf's choice stands once they say so.
pub proof fn a_wolf_speaks_and_is_ready(g: WolfGameView, id: Seq<char>, w: usize, text: Seq<char>)
    requires
        g.wf(),
        sits(g, id, w),
    ensures
        ({
            let may = g.stage == WolfStage::WolvesPick && g.players[w as int].alive && of_the_pack(g.players[w as int]);
            &&& g.wolf_say_result(id, text) is Ok <==> may
            &&& may ==> g.wolf_say_result(id, text)->Ok_0 == (WolfGameView { wolf_chat: g.wolf_chat.push((w, text)), ..g })
            &&& g.wolf_ready_result(id) is Ok <==> may
            &&& may ==> g.wolf_ready_result(id)->Ok_0.wolf_ready.contains(w)
            &&& may ==> forall|v: usize| v != w ==> (g.wolf_ready_result(id)->Ok_0.wolf_ready.contains(v) <==> #[trigger] g.wolf_ready.contains(v))
            &&& may ==> g.wolf_ready_result(id)->Ok_0 == (WolfGameView { wolf_ready: g.wolf_ready_result(id)->Ok_0.wolf_ready, ..g })
        }),
{
    the_seat_is_found(g, id, w);
    if g.wolf_ready_result(id) is Ok && !g.wolf_ready.contains(w) {
        let ready = g.wolf_ready_result(id)->Ok_0.wolf_ready;
        assert(ready[ready.len() - 1] == w);
        assert forall|v: usize| v != w implies (ready.contains(v) <==> #[trigger] g.wolf_ready.contains(v)) by {
            if ready.contains(v) {
                let k = choose|k: int| 0 <= k < ready.len() && ready[k] == v;
                assert(g.wolf_ready[k] == v);
            }
            if g.wolf_ready.contains(v) {
                let k = choose|k: int| 0 <= k < g.wolf_ready.len() && g.wolf_ready[k] == v;
                assert(ready[k] == v);
            }
        }
    }
}

/// How many of the choices are for this player.
pub open spec fn choices_for(votes: Seq<(usize, usize)>, t: usize, n: nat) -> nat
    decreases n,
{
    if n == 0 {
        0
    } else {
        choices_for(votes, t, (n - 1) as nat) + if votes[n - 1].1 == t { 1nat } else { 0nat }
    }
}

proof fn choices_counted(votes: Seq<(usize, usize)>, t: usize, n: nat)
    requires
        n <= votes.len(),
    ensures
        wanted(votes.take(n as int), t) == choices_for(votes, t, n),
    decreases n,
{
    if n > 0 {
        choices_counted(votes, t, (n - 1) as nat);
        assert(votes.take(n as int).drop_last() =~= votes.take(n - 1));
        assert(votes.take(n as int).last() == votes[n - 1]);
    }
}

/// Whether `k` is the first of the choices for whom the most have chosen.
pub open spec fn first_of_the_most(votes: Seq<(usize, usize)>, k: int, upto: int) -> bool {
    let n = votes.len();
    &&& 0 <= k < upto
    &&& forall|j: int| 0 <= j < upto ==> choices_for(votes, (#[trigger] votes[j]).1, n) <= choices_for(votes, votes[k].1, n)
    &&& forall|j: int| 0 <= j < k ==> choices_for(votes, (#[trigger] votes[j]).1, n) < choices_for(votes, votes[k].1, n)
}

proof fn most_wanted_is_first(votes: Seq<(usize, usize)>, k: nat) -> (at: int)
    requires
        0 < k <= votes.len(),
    ensures
        first_of_the_most(votes, at, k as int),
        most_wanted(votes, k) == Some(votes[at].1),
    decreases k,
{
    let n = votes.len();
    assert(votes.take(n as int) =~= votes);
    let t = votes[k - 1].1;
    choices_counted(votes, t, n);
    if k == 1 {
        assert(most_wanted(votes, 0) is None);
        0
    } else {
        let at = most_wanted_is_first(votes, (k - 1) as nat);
        choices_counted(votes, votes[at].1, n);
        if wanted(votes, t) > wanted(votes, votes[at].1) {
            assert forall|j: int| 0 <= j < k - 1 implies choices_for(votes, (#[trigger] votes[j]).1, n) < choices_for(votes, t, n) by {
                assert(choices_for(votes, votes[j].1, n) <= choices_for(votes, votes[at].1, n));
            }
            k - 1
        } else {
            at
        }
    }
}

/// The pack strikes whom most of its choices are for, and of several the one who was
/// named first. Without a choice nobody is struck.
pub proof fn whom_the_pack_strikes(g: WolfGameView)
    requires
        g.stage == WolfStage::WolvesPick,
    ensures
        g.wolves_done_result() is Ok,
        g.wolf_kill_votes.len() == 0 ==> pack_told(g, None),
        g.wolf_kill_votes.len() > 0 ==> exists|k: int| #[trigger] first_of_the_most(g.wolf_kill_votes, k, g.wolf_kill_votes.len() as int)
            && pack_told(g, Some(g.wolf_kill_votes[k].1)),
{
    let votes = g.wolf_kill_votes;
    if votes.len() > 0 {
        let k = most_wanted_is_first(votes, votes.len());
        assert(first_of_the_most(votes, k, votes.len() as int));
        chosen_is_told(g);
    } else {
        chosen_is_told(g);
    }
}

/// Whether the victim is written down once the pack is done.
pub open spec fn pack_told(g: WolfGameView, victim: Option<usize>) -> bool {
    let h = g.wolves_done_result()->Ok_0;
    &&& h.night_victim == victim
    &&& h.recap_log.len() > g.recap_log.len()
    &&& h.recap_log[g.recap_log.len() as int] == (RecapView::WolfTarget { day: g.day, target: victim })
}

proof fn chosen_is_told(g: WolfGameView)
    requires
        g.stage == WolfStage::WolvesPick,
    ensures
        pack_told(g, most_wanted(g.wolf_kill_votes, g.wolf_kill_votes.len())),
{
}

/// After the wolves a living seer is awake; after the seer a living witch; and
/// after the witch it dawns. Whoever is dead or not in the game is passed over.
pub proof fn who_wakes_next(g: WolfGameView, seer: int, witch: int)
    requires
        g.wf(),
        g.stage == WolfStage::WolvesPick,
        has_role_alone(g, Role::Seer, seer),
        has_role_alone(g, Role::Witch, witch),
        0 <= seer < g.players.len(),
        0 <= witch < g.players.len(),
    ensures
        g.players[seer].alive ==> g.wolves_done_result()->Ok_0.stage == WolfStage::SeerPick,
        !g.players[seer].alive && g.players[witch].alive ==> g.wolves_done_result()->Ok_0.stage == WolfStage::WitchAct,
        !g.players[seer].alive && !g.players[witch].alive ==> g.wolves_done_result()->Ok_0.stage == WolfStage::DayReveal,
{
    the_role_is_found(g, Role::Seer, seer);
    the_role_is_found(g, Role::Witch, witch);
}

/// A living seer looks at somebody else alive and learns whether they belong to the
/// pack. It is remembered, and a living witch wakes.
pub proof fn the_seer_looks(g: WolfGameView, id: Seq<char>, i: usize, target: Seq<char>, t: usize, witch: int)
    requires
        g.wf(),
        sits(g, id, i),
        sits(g, target, t),
        has_role_alone(g, Role::Witch, witch),
        0 <= witch < g.players.len(),
    ensures
        ({
            let r = g.seer_result(id, target);
            let (h, found) = r->Ok_0;
            let seen = of_the_pack(g.players[t as int]);
            &&& r is Ok <==> g.stage == WolfStage::SeerPick && g.players[i as int].alive && g.players[i as int].role == Some(Role::Seer)
                && g.players[t as int].alive && t != i
            &&& r is Ok ==> found == seen
            &&& r is Ok ==> h.seer_history == g.seer_history.push(SeerCheck { day: g.day, target_idx: t, is_wolf: seen })
            &&& r is Ok ==> h.stage == (if g.players[witch].alive { WolfStage::WitchAct } else { WolfStage::DayReveal })
            &&& r is Ok && g.players[witch].alive ==> h == (WolfGameView {
                stage: WolfStage::WitchAct,
                seer_history: h.seer_history,
                recap_log: g.recap_log.push(RecapView::SeerCheck { day: g.day, target: t, is_wolf: seen }),
                ..g
            })
        }),
{
    the_seat_is_found(g, id, i);
    the_seat_is_found(g, target, t);
    the_role_is_found(g, Role::Witch, witch);
}

// ---- the deaths of the night ----

/// Whom the wolves kill: their victim, unless one of the guard and the witch
/// protects them, and not the other.
pub open spec fn wolf_death(g: WolfGameView, saved: bool, k: usize) -> bool {
    g.night_victim == Some(k) && (saved <==> g.guard_target == Some(k))
}

/// Whether last words and shot are as the night leaves them: whom the wolves killed
/// speaks once more, and a hunter or wolf king among them shoots. Poison silences.
pub open spec fn leaves_words(g: WolfGameView, h: WolfGameView, k: usize) -> bool {
    let p = g.players[k as int];
    &&& h.last_words.order == seq![k]
    &&& h.pending_hunter == (if p.role == Some(Role::Hunter) || p.role == Some(Role::WolfKing) { Some(k) } else { g.pending_hunter })
}

/// Whether exactly these died.
pub open spec fn died(g: WolfGameView, h: WolfGameView, a: Option<usize>, b: Option<usize>) -> bool {
    &&& h.players.len() == g.players.len()
    &&& forall|i: int| 0 <= i < g.players.len() ==> #[trigger] h.players[i] == (WolfPlayerView {
        alive: g.players[i].alive && a != Some(i as usize) && b != Some(i as usize),
        ..g.players[i]
    })
}

/// The morning announces the dead by name, all of them and nobody else; where nobody
/// died it says so.
pub proof fn the_dead_are_announced(g: WolfGameView, saved: bool, poisoned: Option<usize>)
    requires
        g.wf(),
        poisoned is Some ==> poisoned->0 < g.players.len(),
    ensures
        ({
            let h = g.dawn(saved, poisoned);
            let dead = h.night_deaths;
            let night = "第 "@ + decimal(g.day as nat) + " 夜："@;
            let name = |k: int| g.players[dead[k] as int].name;
            &&& h.event_log.len() == g.event_log.len() + 1
            &&& h.event_log.drop_last() == g.event_log
            &&& dead.len() <= 2
            &&& dead.len() == 0 ==> h.event_log.last() == night + "平安夜"@
            &&& dead.len() == 1 ==> h.event_log.last() == night + (name(0) + " 死亡"@)
            &&& dead.len() == 2 ==> h.event_log.last() == night + (name(0) + "、"@ + name(1) + " 死亡"@)
        }),
{
    who_dies_at_night(g, saved, poisoned);
    let h = g.dawn(saved, poisoned);
    let dead = h.night_deaths;
    let names = names_of(h.players, dead);
    assert(h.event_log == g.event_log.push(dawn_line(g.day, names)));
    assert(h.event_log.drop_last() =~= g.event_log);
    if dead.len() == 1 {
        assert(names =~= seq![g.players[dead[0] as int].name]);
        how_texts_are_joined(Seq::empty(), names[0], "、"@);
    } else if dead.len() == 2 {
        assert(names =~= seq![g.players[dead[0] as int].name].push(g.players[dead[1] as int].name));
        how_texts_are_joined(Seq::empty(), names[0], "、"@);
        how_texts_are_joined(seq![names[0]], names[1], "、"@);
    }
}

/// The morning finds dead whom the wolves struck, unless they were protected, and
/// whom the witch poisoned; nobody else. A sheriff among them leaves the badge.
pub proof fn who_dies_at_night(g: WolfGameView, saved: bool, poisoned: Option<usize>)
    requires
        g.wf(),
        poisoned is Some ==> poisoned->0 < g.players.len(),
    ensures
        ({
            let h = g.dawn(saved, poisoned);
            let struck = match g.night_victim {
                Some(k) => if wolf_death(g, saved, k) && poisoned != Some(k) { Some(k) } else { None },
                None => None,
            };
            &&& h.stage == WolfStage::DayReveal
            &&& h.at_dawn
            &&& died(g, h, struck, poisoned)
            &&& h.night_deaths == (match (struck, poisoned) {
                (Some(a), Some(b)) => seq![a, b],
                (Some(a), None) => seq![a],
                (None, Some(b)) => seq![b],
                (None, None) => Seq::<usize>::empty(),
            })
            &&& struck matches Some(k) ==> leaves_words(g, h, k)
            &&& struck is None ==> h.last_words.order.len() == 0 && h.pending_hunter == g.pending_hunter
            &&& h.last_words.next == 0
            &&& h.pending_badge == (if g.sheriff_idx is Some && (struck == g.sheriff_idx || poisoned == g.sheriff_idx) {
                g.sheriff_idx
            } else {
                g.pending_badge
            })
            &&& h.sheriff_idx == g.sheriff_idx
            &&& h.day == g.day
            &&& h.recap_log == g.recap_log + (match struck {
                Some(k) => seq![RecapView::Death { day: g.day, night: true, player: k, cause: DeathCause::WolfKill }],
                None => Seq::<RecapView>::empty(),
            }) + (match poisoned {
                Some(k) => seq![RecapView::Death { day: g.day, night: true, player: k, cause: DeathCause::Poison }],
                None => Seq::<RecapView>::empty(),
            })
        }),
{
    let h = g.dawn(saved, poisoned);
    let struck = match g.night_victim {
        Some(k) => if wolf_death(g, saved, k) && poisoned != Some(k) { Some(k) } else { None },
        None => None,
    };
    assert(struck is Some ==> struck->0 < g.players.len());
    assert forall|i: int| 0 <= i < g.players.len() implies #[trigger] h.players[i] == (WolfPlayerView {
        alive: g.players[i].alive && struck != Some(i as usize) && poisoned != Some(i as usize),
        ..g.players[i]
    }) by {}
    assert(h.night_deaths =~= (match (struck, poisoned) {
        (Some(a), Some(b)) => seq![a, b],
        (Some(a), None) => seq![a],
        (None, Some(b)) => seq![b],
        (None, None) => Seq::<usize>::empty(),
    }));
    if struck is Some {
        assert(h.last_words.order =~= seq![struck->0]);
    }
    assert(h.recap_log =~= g.recap_log + (match struck {
        Some(k) => seq![RecapView::Death { day: g.day, night: true, player: k, cause: DeathCause::WolfKill }],
        None => Seq::<RecapView>::empty(),
    }) + (match poisoned {
        Some(k) => seq![RecapView::Death { day: g.day, night: true, player: k, cause: DeathCause::Poison }],
        None => Seq::<RecapView>::empty(),
    }));
}

/// The living witch may save the night's victim while that potion is left, or do
/// nothing. Then it dawns.
pub proof fn the_witch_acts(g: WolfGameView, id: Seq<char>, i: usize, save: bool)
    requires
        g.wf(),
        sits(g, id, i),
    ensures
        ({
            let r = g.witch_result(id, save, None);
            let may = g.stage == WolfStage::WitchAct && g.players[i as int].alive && g.players[i as int].role == Some(Role::Witch);
            &&& r is Ok <==> may && (save ==> !g.witch_save_used && g.night_victim is Some)
            &&& may && save && g.witch_save_used ==> r == Err::<WolfGameView, WolfError>(WolfError::NoSavePotion)
            &&& may && save && !g.witch_save_used && g.night_victim is None ==> r == Err::<WolfGameView, WolfError>(
                WolfError::NobodyToSave,
            )
            &&& r is Ok ==> r->Ok_0 == (WolfGameView {
                witch_save_used: g.witch_save_used || save,
                recap_log: g.recap_log.push(RecapView::WitchAct { day: g.day, saved: save, poisoned: None }),
                ..g
            }).dawn(save, None)
        }),
{
    the_seat_is_found(g, id, i);
}

/// The poison works once, on somebody else alive, and not in a night in which the
/// witch saves.
pub proof fn the_witch_poisons(g: WolfGameView, id: Seq<char>, i: usize, save: bool, target: Seq<char>, t: usize)
    requires
        g.wf(),
        sits(g, id, i),
        sits(g, target, t),
    ensures
        ({
            let r = g.witch_result(id, save, Some(target));
            let may = g.stage == WolfStage::WitchAct && g.players[i as int].alive && g.players[i as int].role == Some(Role::Witch);
            &&& r is Ok <==> may && !save && !g.witch_poison_used && g.players[t as int].alive && t != i
            &&& may && save ==> r == Err::<WolfGameView, WolfError>(WolfError::OnlyOnePotion)
            &&& may && !save && g.witch_poison_used ==> r == Err::<WolfGameView, WolfError>(WolfError::NoPoison)
            &&& r is Ok ==> r->Ok_0 == (WolfGameView {
                witch_poison_used: true,
                recap_log: g.recap_log.push(RecapView::WitchAct { day: g.day, saved: false, poisoned: Some(t) }),
                ..g
            }).dawn(false, Some(t))
        }),
{
    the_seat_is_found(g, id, i);
    the_seat_is_found(g, target, t);
}

} // verus!
