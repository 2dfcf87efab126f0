//! What becomes of an AI player's answer: a good one is followed, and a bad one does no
//! harm.

use vstd::prelude::*;
use vstd::string::*;
use crate::text::{lowered, trimmed};
use super::decisions::{
    checked, first_other, first_prey, guard_alone, guard_choice, listed, named, seer_alone, seer_choice, speech_text,
    unchecked, witch_choice, wolf_alone, wolf_target, WitchDecision, WolfPickReply,
};
use super::clicks::WolfMoveView;
use super::model::{living, WolfGameView, WolfPlayerView};
use super::nights::of_the_pack;
use super::prompts::{guardable, others, prey};
use super::steps::Task;
use super::turns::{a_candidate_lives, Reply};
use super::view::view_of;
use super::{Role, WolfStage};

verus! {

/// Whether the seats are listed in rising order.
pub open spec fn by_seat(list: Seq<(usize, Seq<char>)>) -> bool {
    forall|a: int, b: int| 0 <= a < b < list.len() ==> (#[trigger] list[a]).0 < (#[trigger] list[b]).0
}

/// The players as everybody sees them: seat, name, and whether they live.
pub open spec fn seen(g: WolfGameView, n: nat) -> Seq<(usize, Seq<char>, bool)> {
    Seq::new(n, |k: int| (k as usize, g.players[k].name, g.players[k].alive))
}

proof fn what_is_listed(g: WolfGameView, me: usize, last: Option<usize>, n: nat)
    requires
        n <= g.players.len() <= 12,
    ensures
        forall|t: int| #[trigger] listed(others(seen(g, n), me), t) <==> 0 <= t < n && g.players[t].alive && t != me,
        forall|t: int| #[trigger] listed(prey(seen(g, n), g), t) <==> 0 <= t < n && g.players[t].alive && !of_the_pack(g.players[t]),
        forall|t: int| #[trigger] listed(guardable(seen(g, n), last), t) <==> 0 <= t < n && g.players[t].alive && last != Some(t as usize),
        by_seat(others(seen(g, n), me)),
        by_seat(prey(seen(g, n), g)),
        by_seat(guardable(seen(g, n), last)),
    decreases n,
{
    if n > 0 {
        let m = (n - 1) as nat;
        what_is_listed(g, me, last, m);
        let all = seen(g, n);
        assert(all.drop_last() =~= seen(g, m));
        assert(all.last() == (m as usize, g.players[m as int].name, g.players[m as int].alive));
        one_more_listed(others(seen(g, m), me), others(all, me), m, g.players[m as int].alive && m != me);
        one_more_listed(prey(seen(g, m), g), prey(all, g), m, g.players[m as int].alive && !of_the_pack(g.players[m as int]));
        one_more_listed(guardable(seen(g, m), last), guardable(all, last), m, g.players[m as int].alive && last != Some(m as usize));
    }
}

/// A list to which the seat `m` may have been added.
proof fn one_more_listed(a: Seq<(usize, Seq<char>)>, b: Seq<(usize, Seq<char>)>, m: nat, added: bool)
    requires
        by_seat(a),
        m <= 12,
        forall|t: int| #[trigger] listed(a, t) ==> 0 <= t < m,
        added ==> b.len() == a.len() + 1 && b.last().0 == m && forall|k: int| 0 <= k < a.len() ==> #[trigger] b[k] == a[k],
        !added ==> b == a,
    ensures
        by_seat(b),
        forall|t: int| #[trigger] listed(b, t) <==> listed(a, t) || added && t == m,
{
    if added {
        assert forall|k: int| 0 <= k < a.len() implies (#[trigger] a[k]).0 < m && b[k] == a[k] by {
            assert(listed(a, a[k].0 as int));
        }
        assert(b[b.len() - 1].0 == m);
        assert forall|t: int| #[trigger] listed(b, t) <==> listed(a, t) || t == m by {
            if listed(b, t) {
                let k = choose|k: int| 0 <= k < b.len() && (#[trigger] b[k]).0 == t;
                if k < a.len() {
                    assert(a[k].0 == t);
                }
            }
            if listed(a, t) {
                let k = choose|k: int| 0 <= k < a.len() && (#[trigger] a[k]).0 == t;
                assert(b[k].0 == t);
            }
        }
        assert forall|x: int, y: int| 0 <= x < y < b.len() implies (#[trigger] b[x]).0 < (#[trigger] b[y]).0 by {
            assert(b[x] == a[x]);
            if y < a.len() {
                assert(b[y] == a[y]);
            }
        }
    }
}

/// Whom an AI player is asked to choose from: the other living players; for a wolf the
/// living outside the pack; for the guard the living but for the one of the night before.
pub proof fn whom_an_ai_can_choose(g: WolfGameView, me: usize, t: int)
    requires
        g.wf(),
        me < g.players.len(),
    ensures
        ({
            let v = view_of(g, me);
            let there = 0 <= t < g.players.len() && g.players[t].alive;
            &&& listed(others(v.players, v.me_idx), t) <==> there && t != me
            &&& listed(prey(v.players, g), t) <==> there && !of_the_pack(g.players[t])
            &&& listed(guardable(v.players, g.last_guard_target), t) <==> there && g.last_guard_target != Some(t as usize)
        }),
{
    assert(view_of(g, me).players =~= seen(g, g.players.len()));
    what_is_listed(g, me, g.last_guard_target, g.players.len());
}

/// An answer that names somebody who can be chosen is followed.
pub proof fn a_good_answer_is_followed(g: WolfGameView, me: usize, t: usize)
    requires
        g.wf(),
        me < g.players.len(),
        t < g.players.len(),
        g.players[t as int].alive,
    ensures
        ({
            let v = view_of(g, me);
            &&& !of_the_pack(g.players[t as int]) ==> wolf_target(prey(v.players, g), Some(t)) == t
            &&& t != me ==> seer_choice(v, Some(t)) == t
            &&& g.last_guard_target != Some(t) ==> guard_choice(v, g.last_guard_target, Some(t)) == t
            &&& t != me ==> named(others(v.players, v.me_idx), Some(t as i64)) == Some(t)
        }),
{
    whom_an_ai_can_choose(g, me, t as int);
    if t != me {
        let list = others(view_of(g, me).players, me);
        let k = choose|k: int| 0 <= k < list.len() && (#[trigger] list[k]).0 == t;
        assert(list.len() > 0);
    }
    if !of_the_pack(g.players[t as int]) {
        let list = prey(view_of(g, me).players, g);
        let k = choose|k: int| 0 <= k < list.len() && (#[trigger] list[k]).0 == t;
        assert(list.len() > 0);
    }
    if g.last_guard_target != Some(t) {
        let list = guardable(view_of(g, me).players, g.last_guard_target);
        let k = choose|k: int| 0 <= k < list.len() && (#[trigger] list[k]).0 == t;
        assert(list.len() > 0);
    }
}

/// An answer that names nobody who can be chosen counts as none: for a vote, a shot or
/// the badge nobody is named.
pub proof fn a_bad_answer_names_nobody(g: WolfGameView, me: usize, answer: Option<i64>)
    requires
        g.wf(),
        me < g.players.len(),
        answer matches Some(t) ==> !(0 <= t < g.players.len() && g.players[t as int].alive && t != me),
    ensures
        named(others(view_of(g, me).players, view_of(g, me).me_idx), answer) is None,
{
    if answer is Some {
        whom_an_ai_can_choose(g, me, answer->0 as int);
    }
}

/// Whether `t` is the first seat of which something holds.
pub open spec fn is_first(n: int, t: int, ok: spec_fn(int) -> bool) -> bool {
    0 <= t < n && ok(t) && forall|i: int| 0 <= i < t ==> !#[trigger] ok(i)
}

/// A wolf who answers badly, or not at all, strikes the first one who can be struck.
pub proof fn a_wolf_without_an_answer_strikes_the_first(g: WolfGameView, me: usize, answer: Option<usize>, t: int)
    requires
        g.wf(),
        me < g.players.len(),
        answer matches Some(a) ==> !(a < g.players.len() && g.players[a as int].alive && !of_the_pack(g.players[a as int])),
        is_first(g.players.len() as int, t, |i: int| g.players[i].alive && !of_the_pack(g.players[i])),
    ensures
        wolf_target(prey(view_of(g, me).players, g), answer) == t,
        wolf_alone(g) == t,
{
    let ok = |i: int| g.players[i].alive && !of_the_pack(g.players[i]);
    let list = prey(view_of(g, me).players, g);
    assert(ok(t));
    assert(view_of(g, me).players =~= seen(g, g.players.len()));
    what_is_listed(g, me, g.last_guard_target, g.players.len());
    assert(listed(list, t));
    let k = choose|k: int| 0 <= k < list.len() && (#[trigger] list[k]).0 == t;
    let first = list[0].0 as int;
    assert(listed(list, first));
    assert(ok(first));
    if k > 0 {
        assert(list[0].0 < list[k].0);
    }
    if answer is Some {
        assert(!listed(list, answer->0 as int));
    }
    assert forall|i: int| 0 <= i < t implies !((#[trigger] g.players[i]).alive && !of_the_pack(g.players[i])) by {
        assert(!ok(i));
    }
    first_prey_found(g.players, 0, t);
}

proof fn first_prey_found(players: Seq<WolfPlayerView>, from: int, t: int)
    requires
        0 <= from <= t < players.len() <= 12,
        players[t].alive && !of_the_pack(players[t]),
        forall|i: int| from <= i < t ==> !((#[trigger] players[i]).alive && !of_the_pack(players[i])),
    ensures
        first_prey(players, from) == Some(t as usize),
    decreases t - from,
{
    if from < t {
        assert(!(players[from].alive && !of_the_pack(players[from])));
        first_prey_found(players, from + 1, t);
    }
}

/// Without a model the seer looks at the first other who lives.
pub proof fn a_seer_without_a_model_looks_at_the_first(g: WolfGameView, me: usize, t: int)
    requires
        g.wf(),
        is_first(g.players.len() as int, t, |i: int| g.players[i].alive && i != me),
    ensures
        seer_alone(g, me) == t,
{
    let ok = |i: int| g.players[i].alive && i != me;
    assert(ok(t));
    assert forall|i: int| 0 <= i < t implies !((#[trigger] g.players[i]).alive && i != me) by {
        assert(!ok(i));
    }
    first_other_found(g.players, me, 0, t);
}

proof fn first_other_found(players: Seq<WolfPlayerView>, me: usize, from: int, t: int)
    requires
        0 <= from <= t < players.len() <= 12,
        players[t].alive && t != me,
        forall|i: int| from <= i < t ==> !((#[trigger] players[i]).alive && i != me),
    ensures
        first_other(players, me, from) == Some(t as usize),
    decreases t - from,
{
    if from < t {
        assert(!(players[from].alive && from != me));
        first_other_found(players, me, from + 1, t);
    }
}

/// A seer who answers badly, or not at all, looks at somebody whom they have not looked at
/// yet, as long as there is such a player.
pub proof fn a_seer_without_an_answer_looks_at_somebody_new(g: WolfGameView, me: usize, answer: Option<usize>, u: int)
    requires
        g.wf(),
        me < g.players.len(),
        answer matches Some(a) ==> !(a < g.players.len() && g.players[a as int].alive && a != me),
        0 <= u < g.players.len(),
        g.players[u].alive,
        u != me,
        !checked(view_of(g, me).seer_log, g.players[u].name),
    ensures
        ({
            let t = seer_choice(view_of(g, me), answer) as int;
            &&& 0 <= t < g.players.len()
            &&& g.players[t].alive
            &&& t != me
            &&& !checked(view_of(g, me).seer_log, g.players[t].name)
        }),
{
    let v = view_of(g, me);
    let list = others(v.players, me);
    assert(v.players =~= seen(g, g.players.len()));
    what_is_listed(g, me, g.last_guard_target, g.players.len());
    assert(listed(list, u));
    others_are_named(g, me, g.players.len());
    let k = choose|k: int| 0 <= k < list.len() && (#[trigger] list[k]).0 == u;
    assert(list[k].1 == g.players[u].name);
    new_one_found(list, v.seer_log, 0, k);
    let j = new_one(list, v.seer_log, 0);
    assert(listed(list, list[j].0 as int));
    if answer is Some {
        assert(!listed(list, answer->0 as int));
    }
}

proof fn others_are_named(g: WolfGameView, me: usize, n: nat)
    requires
        n <= g.players.len() <= 12,
    ensures
        forall|k: int| 0 <= k < others(seen(g, n), me).len() ==> (#[trigger] others(seen(g, n), me)[k]).0 < n && others(seen(g, n), me)[k].1
            == g.players[others(seen(g, n), me)[k].0 as int].name,
    decreases n,
{
    if n > 0 {
        let m = (n - 1) as nat;
        others_are_named(g, me, m);
        let all = seen(g, n);
        assert(all.drop_last() =~= seen(g, m));
        assert(all.last() == (m as usize, g.players[m as int].name, g.players[m as int].alive));
        let a = others(seen(g, m), me);
        let b = others(all, me);
        assert forall|k: int| 0 <= k < b.len() implies (#[trigger] b[k]).0 < n && b[k].1 == g.players[b[k].0 as int].name by {
            if k < a.len() {
                assert(b[k] == a[k]);
            }
        }
    }
}

proof fn new_one_found(list: Seq<(usize, Seq<char>)>, log: Seq<(u32, Seq<char>, bool)>, from: int, k: int)
    requires
        0 <= from <= k < list.len(),
        !checked(log, list[k].1),
    ensures
        unchecked(list, log, from) is Some,
    decreases k - from,
{
    if from < k && checked(log, list[from].1) {
        new_one_found(list, log, from + 1, k);
    }
}

proof fn new_one(list: Seq<(usize, Seq<char>)>, log: Seq<(u32, Seq<char>, bool)>, from: int) -> (j: int)
    requires
        0 <= from,
        unchecked(list, log, from) is Some,
    ensures
        from <= j < list.len(),
        unchecked(list, log, from) == Some(list[j].0),
        !checked(log, list[j].1),
    decreases list.len() - from,
{
    if checked(log, list[from].1) {
        new_one(list, log, from + 1)
    } else {
        from
    }
}

/// A guard who answers badly, or not at all, protects themselves where they may.
pub proof fn a_guard_without_an_answer_stays_home(g: WolfGameView, me: usize, answer: Option<usize>)
    requires
        g.wf(),
        me < g.players.len(),
        g.players[me as int].alive,
        g.last_guard_target != Some(me),
        answer matches Some(a) ==> !(a < g.players.len() && g.players[a as int].alive && g.last_guard_target != Some(a)),
    ensures
        guard_choice(view_of(g, me), g.last_guard_target, answer) == me,
        guard_alone(g, me) == me,
{
    whom_an_ai_can_choose(g, me, me as int);
    let list = guardable(view_of(g, me).players, g.last_guard_target);
    let k = choose|k: int| 0 <= k < list.len() && (#[trigger] list[k]).0 == me;
    assert(list.len() > 0);
    if answer is Some {
        whom_an_ai_can_choose(g, me, answer->0 as int);
    }
}

/// What the witch answers is done as far as the potions go; anything else is waiting.
pub proof fn what_the_witch_answers_is_done(g: WolfGameView, me: usize, action: Seq<char>, poison: Option<usize>)
    requires
        g.wf(),
        me < g.players.len(),
    ensures
        ({
            let r = witch_choice(view_of(g, me), g, action, poison);
            let word = lowered(action);
            &&& word == "save"@ ==> r == (if !g.witch_save_used && g.night_victim is Some { WitchDecision::Save } else { WitchDecision::Skip })
            &&& word == "poison"@ ==> (poison matches Some(t) ==> r == (if !g.witch_poison_used && t < g.players.len()
                && g.players[t as int].alive && t != me {
                WitchDecision::Poison(t)
            } else {
                WitchDecision::Skip
            }))
            &&& word == "poison"@ && poison is None ==> r == WitchDecision::Skip
            &&& word != "save"@ && word != "poison"@ ==> r == WitchDecision::Skip
        }),
{
    reveal_strlit("save");
    reveal_strlit("poison");
    assert("save"@.len() == 4 && "poison"@.len() == 6);
    if poison is Some {
        whom_an_ai_can_choose(g, me, poison->0 as int);
    }
}

/// A speech is what was answered, without the blanks around it and no longer than it may
/// be. An empty one, and one that failed, are what is said instead.
pub proof fn a_speech_is_what_was_answered(s: Seq<char>, n: nat, silent: Seq<char>, failed: Seq<char>)
    ensures
        ({
            let said = speech_text(Some(Some(s)), n, silent, failed);
            let t = trimmed(s);
            &&& t.len() == 0 ==> said == silent
            &&& 0 < t.len() <= n ==> said == t
            &&& t.len() > n ==> said == t.take(n as int)
        }),
        speech_text(Some(None), n, silent, failed) == silent,
        speech_text(None, n, silent, failed) == failed,
{
}

// ---- the move that comes of it ----

/// Whoever an answer names is struck, looked at, shot, voted for or given the badge.
pub proof fn an_answer_that_names_somebody_is_the_move(g: WolfGameView, me: usize, t: usize)
    requires
        g.wf(),
        me < g.players.len(),
        t < g.players.len(),
        g.players[t as int].alive,
        t != me,
    ensures
        ({
            let id = g.players[t as int].open_id;
            let choice = Reply::Choice(t as i64);
            &&& g.task_move(me, Task::Seer, true, Reply::Seat(t)) == Some(WolfMoveView::Check(id))
            &&& forall|model: bool| #[trigger] g.task_move(me, Task::Shot, model, choice) == Some(WolfMoveView::Shoot(Some(id)))
            &&& forall|model: bool| #[trigger] g.task_move(me, Task::Badge, model, choice) == Some(WolfMoveView::Badge(Some(id)))
            &&& forall|model: bool| #[trigger] g.task_move(me, Task::Vote, model, choice) == Some(WolfMoveView::Vote(Some(id)))
            &&& !of_the_pack(g.players[t as int]) ==> forall|a: WolfPickReply, speak: bool|
                a.target_idx == t ==> (#[trigger] g.wolf_task(me, speak, true, Reply::Wolf(a))).0 == t
        }),
{
    a_good_answer_is_followed(g, me, t);
}

/// An answer that names nobody who can be named shoots nobody, gives the badge to nobody
/// and votes for nobody.
pub proof fn an_answer_that_names_nobody_is_no_choice(g: WolfGameView, me: usize, model: bool, reply: Reply)
    requires
        g.wf(),
        me < g.players.len(),
        reply matches Reply::Choice(t) ==> !(0 <= t < g.players.len() && g.players[t as int].alive && t != me),
    ensures
        g.task_move(me, Task::Shot, model, reply) == Some(WolfMoveView::Shoot(None)),
        g.task_move(me, Task::Badge, model, reply) == Some(WolfMoveView::Badge(None)),
        g.task_move(me, Task::Vote, model, reply) == Some(WolfMoveView::Vote(None)),
{
    a_bad_answer_names_nobody(g, me, reply.choice_view());
}

/// Whoever answers that they run does, and whoever does not answer runs when they are the
/// seer. The sheriff sends the talk the way they answer, clockwise without an answer.
pub proof fn what_a_yes_or_no_becomes(g: WolfGameView, me: usize, model: bool, b: bool)
    requires
        g.wf(),
        me < g.players.len(),
    ensures
        g.task_move(me, Task::Run, model, Reply::Run(b)) == Some(WolfMoveView::Nominate(b)),
        g.task_move(me, Task::Direction, model, Reply::Clockwise(b)) == Some(WolfMoveView::Direction(b)),
        g.players[me as int].role is Some ==> g.task_move(me, Task::Run, model, Reply::Nothing) == Some(
            WolfMoveView::Nominate(g.players[me as int].role == Some(Role::Seer)),
        ),
        g.task_move(me, Task::Direction, model, Reply::Nothing) == Some(WolfMoveView::Direction(true)),
{
}

/// In the election an AI player votes for the candidate whom they name; without a model
/// they vote for the first.
pub proof fn whom_an_ai_elects(g: WolfGameView, me: usize, k: int)
    requires
        g.wf(),
        g.stage == WolfStage::SheriffVote,
        0 <= k < g.candidates().len(),
    ensures
        ({
            let c = g.candidates()[k];
            let id = g.players[c as int].open_id;
            &&& g.task_move(me, Task::SheriffVote, true, Reply::Choice(c as i64)) == Some(WolfMoveView::SheriffVote(Some(id)))
            &&& forall|reply: Reply|
                k == 0 ==> #[trigger] g.task_move(me, Task::SheriffVote, false, reply) == Some(WolfMoveView::SheriffVote(Some(id)))
        }),
{
    let c = g.candidates()[k];
    assert(g.candidates().contains(c));
    a_candidate_lives(g, c);
    let ballot = g.ballot();
    assert(ballot[k].0 == c);
    assert(listed(ballot, c as int));
}

/// What an AI player says is the speech of the stage, as far as it may be long.
pub proof fn what_an_ai_says_is_said(g: WolfGameView, me: usize, said: String)
    requires
        g.wf(),
        me < g.players.len(),
        trimmed(said@).len() > 0,
    ensures
        ({
            let t = trimmed(said@);
            let reply = Reply::Speech(Some(said));
            let upto = |n: int| if t.len() <= n { t } else { t.take(n) };
            &&& g.task_move(me, Task::LastWords, true, reply) == Some(WolfMoveView::LastWords(upto(250)))
            &&& g.task_move(me, Task::SheriffSpeech, true, reply) == Some(WolfMoveView::SheriffSpeech(upto(200)))
            &&& g.task_move(me, Task::SideSpeech, true, reply) == Some(WolfMoveView::SideSpeech(upto(150)))
            &&& g.task_move(me, Task::DaySpeech, true, reply) == Some(WolfMoveView::DaySpeech(upto(200)))
        }),
{
}

/// A turn of an AI player is their move. Where the rules refuse it nothing happens.
pub proof fn a_turn_is_the_move(g: WolfGameView, seat: usize, task: Task, speak: bool, model: bool, reply: Reply)
    requires
        task != Task::Guard && task != Task::Wolf && task != Task::Witch,
        g.task_move(seat, task, model, reply) is Some,
    ensures
        ({
            let m = g.task_move(seat, task, model, reply)->0;
            let r = g.moved(g.players[seat as int].open_id, m);
            let h = g.turn_played(seat, task, speak, model, reply);
            &&& r matches Ok((after, _)) ==> h == after
            &&& r is Err ==> h == g
        }),
{
}

/// The AI guard protects whom they chose; where that is refused, themselves; and where
/// that is refused too, nobody.
pub proof fn how_an_ai_guards(g: WolfGameView, seat: usize, speak: bool, model: bool, reply: Reply, t: usize)
    requires
        t < g.players.len(),
        g.guard_task(seat, model, reply) == t,
    ensures
        ({
            let id = g.players[seat as int].open_id;
            let r = g.guard_result(id, g.players[t as int].open_id);
            let own = g.guard_result(id, id);
            let h = g.turn_played(seat, Task::Guard, speak, model, reply);
            &&& r is Ok ==> h == r->Ok_0
            &&& r is Err && own is Ok ==> h == own->Ok_0
            &&& r is Err && own is Err ==> h == g
        }),
{
}

/// The AI witch saves or poisons as she decided; where that is refused, she waits.
pub proof fn how_an_ai_witch_acts(g: WolfGameView, seat: usize, speak: bool, model: bool, reply: Reply)
    ensures
        ({
            let id = g.players[seat as int].open_id;
            let d = g.witch_task(seat, reply);
            let h = g.turn_played(seat, Task::Witch, speak, model, reply);
            let waits = g.witch_result(id, false, None);
            let saves = g.witch_result(id, true, None);
            &&& d == WitchDecision::Save && saves is Ok ==> h == saves->Ok_0
            &&& d == WitchDecision::Save && saves is Err && waits is Ok ==> h == waits->Ok_0
            &&& d == WitchDecision::Skip && waits is Ok ==> h == waits->Ok_0
            &&& d matches WitchDecision::Poison(t) ==> t < g.players.len() ==> {
                let poisons = g.witch_result(id, false, Some(g.players[t as int].open_id));
                &&& poisons is Ok ==> h == poisons->Ok_0
                &&& poisons is Err && waits is Ok ==> h == waits->Ok_0
            }
        }),
{
}

/// An AI wolf chooses. In a pack with people they say what they have to say, and their
/// choice stands at once; in a pack of their own they only choose.
pub proof fn how_an_ai_wolf_hunts(g: WolfGameView, seat: usize, speak: bool, model: bool, reply: Reply)
    requires
        g.wolf_task(seat, speak, model, reply).0 < g.players.len(),
        g.wolf_pick_result(g.id_at(seat), g.id_at(g.wolf_task(seat, speak, model, reply).0)) is Ok,
    ensures
        ({
            let id = g.players[seat as int].open_id;
            let (t, chat) = g.wolf_task(seat, speak, model, reply);
            let chosen = g.wolf_pick_result(id, g.players[t as int].open_id)->Ok_0;
            let h = g.turn_played(seat, Task::Wolf, speak, model, reply);
            &&& !speak ==> h == chosen
            &&& speak && chat is None && chosen.wolf_ready_result(id) is Ok ==> h == chosen.wolf_ready_result(id)->Ok_0
            &&& speak && chat is Some && chosen.wolf_say_result(id, chat->0) is Ok ==> {
                let said = chosen.wolf_say_result(id, chat->0)->Ok_0;
                said.wolf_ready_result(id) is Ok ==> h == said.wolf_ready_result(id)->Ok_0
            }
        }),
{
}

} // verus!
