//! Who is asked, and who gets a card, in the stages in which all have a say.

use vstd::prelude::*;
use super::days::runners_are_those_who_run;
use super::model::{living, living_facts, living_wolves, living_wolves_facts, WolfGameView, WolfPlayerView};
use super::nights::of_the_pack;
use super::rules::{has_nominated, has_voted};
use super::steps::{has_picked, seats_of, undeclared, unpicked, unready, unvoted, Task, WolfStepView};
use super::WolfStage;

verus! {

// ---- picking seats ----

/// Whether the seats come in order, each once.
pub open spec fn ascending(s: Seq<usize>) -> bool {
    forall|a: int, b: int| 0 <= a < b < s.len() ==> #[trigger] s[a] < #[trigger] s[b]
}

/// Whether `part` holds those of `all` that are to stay, and keeps their order.
spec fn keeps(all: Seq<usize>, part: Seq<usize>, stays: spec_fn(usize) -> bool) -> bool {
    &&& forall|x: usize| #[trigger] part.contains(x) <==> all.contains(x) && stays(x)
    &&& ascending(all) ==> ascending(part)
}

proof fn keeps_one_more(all: Seq<usize>, rest: Seq<usize>, stays: spec_fn(usize) -> bool)
    requires
        all.len() > 0,
        keeps(all.drop_last(), rest, stays),
    ensures
        keeps(all, if stays(all.last()) { rest.push(all.last()) } else { rest }, stays),
{
    let init = all.drop_last();
    let part = if stays(all.last()) { rest.push(all.last()) } else { rest };
    assert forall|x: usize| #[trigger] part.contains(x) <==> all.contains(x) && stays(x) by {
        if all.contains(x) {
            let k = choose|k: int| 0 <= k < all.len() && all[k] == x;
            if k < init.len() {
                assert(init[k] == x);
                assert(init.contains(x));
                if stays(x) {
                    assert(rest.contains(x));
                    let j = choose|j: int| 0 <= j < rest.len() && rest[j] == x;
                    assert(part[j] == x);
                }
            } else if stays(x) {
                assert(part[rest.len() as int] == x);
            }
        }
        if part.contains(x) {
            let j = choose|j: int| 0 <= j < part.len() && part[j] == x;
            if j < rest.len() {
                assert(rest[j] == x);
                assert(rest.contains(x));
                let k = choose|k: int| 0 <= k < init.len() && init[k] == x;
                assert(all[k] == x);
            } else {
                assert(all[all.len() - 1] == x);
            }
        }
    }
    if ascending(all) {
        assert(ascending(init)) by {
            assert forall|a: int, b: int| 0 <= a < b < init.len() implies #[trigger] init[a] < #[trigger] init[b] by {
                assert(all[a] < all[b]);
            }
        }
        assert forall|a: int, b: int| 0 <= a < b < part.len() implies #[trigger] part[a] < #[trigger] part[b] by {
            assert(rest[a] == part[a]);
            if b < rest.len() {
                assert(rest[b] == part[b]);
            } else {
                assert(rest.contains(rest[a]));
                let k = choose|k: int| 0 <= k < init.len() && init[k] == rest[a];
                assert(all[k] < all[all.len() - 1]);
            }
        }
    }
}

proof fn kinds_kept(players: Seq<WolfPlayerView>, seats: Seq<usize>, is_ai: bool)
    ensures
        keeps(seats, seats_of(players, seats, is_ai), |x: usize| players[x as int].is_ai == is_ai),
    decreases seats.len(),
{
    if seats.len() > 0 {
        kinds_kept(players, seats.drop_last(), is_ai);
        keeps_one_more(
            seats,
            seats_of(players, seats.drop_last(), is_ai),
            |x: usize| players[x as int].is_ai == is_ai,
        );
    }
}

proof fn undeclared_kept(list: Seq<(usize, bool)>, seats: Seq<usize>)
    ensures
        keeps(seats, undeclared(list, seats), |x: usize| !has_nominated(list, x)),
    decreases seats.len(),
{
    if seats.len() > 0 {
        undeclared_kept(list, seats.drop_last());
        keeps_one_more(seats, undeclared(list, seats.drop_last()), |x: usize| !has_nominated(list, x));
    }
}

proof fn unvoted_kept(votes: Seq<(usize, Option<usize>)>, barred: Seq<usize>, seats: Seq<usize>)
    ensures
        keeps(seats, unvoted(votes, barred, seats), |x: usize| !barred.contains(x) && !has_voted(votes, x)),
    decreases seats.len(),
{
    if seats.len() > 0 {
        unvoted_kept(votes, barred, seats.drop_last());
        keeps_one_more(
            seats,
            unvoted(votes, barred, seats.drop_last()),
            |x: usize| !barred.contains(x) && !has_voted(votes, x),
        );
    }
}

proof fn unpicked_kept(votes: Seq<(usize, usize)>, seats: Seq<usize>)
    ensures
        keeps(seats, unpicked(votes, seats), |x: usize| !has_picked(votes, x)),
    decreases seats.len(),
{
    if seats.len() > 0 {
        unpicked_kept(votes, seats.drop_last());
        keeps_one_more(seats, unpicked(votes, seats.drop_last()), |x: usize| !has_picked(votes, x));
    }
}

proof fn unready_kept(ready: Seq<usize>, seats: Seq<usize>)
    ensures
        keeps(seats, unready(ready, seats), |x: usize| !ready.contains(x)),
    decreases seats.len(),
{
    if seats.len() > 0 {
        unready_kept(ready, seats.drop_last());
        keeps_one_more(seats, unready(ready, seats.drop_last()), |x: usize| !ready.contains(x));
    }
}

pub proof fn the_living_come_in_order(players: Seq<WolfPlayerView>)
    requires
        players.len() <= 12,
    ensures
        ascending(living(players)),
        forall|i: usize| #[trigger] living(players).contains(i) <==> i < players.len() && players[i as int].alive,
    decreases players.len(),
{
    living_facts(players);
    if players.len() > 0 {
        let rest = players.drop_last();
        the_living_come_in_order(rest);
        living_facts(rest);
        assert forall|a: int, b: int| 0 <= a < b < living(players).len() implies #[trigger] living(players)[a] < #[trigger] living(players)[b] by {
            assert(living(rest)[a] == living(players)[a]);
            if b < living(rest).len() {
                assert(living(rest)[b] == living(players)[b]);
            }
        }
    }
    assert forall|i: usize| #[trigger] living(players).contains(i) <==> i < players.len() && players[i as int].alive by {
        if i < players.len() && players[i as int].alive {
            assert(living(players).contains(i as int as usize));
        }
    }
}

pub proof fn the_pack_comes_in_order(players: Seq<WolfPlayerView>)
    requires
        players.len() <= 12,
    ensures
        ascending(living_wolves(players)),
        forall|i: usize| #[trigger] living_wolves(players).contains(i) <==> i < players.len() && players[i as int].alive
            && of_the_pack(players[i as int]),
    decreases players.len(),
{
    living_wolves_facts(players);
    let pack = living_wolves(players);
    if players.len() > 0 {
        let rest = players.drop_last();
        let n = (players.len() - 1) as usize;
        the_pack_comes_in_order(rest);
        living_wolves_facts(rest);
        let before = living_wolves(rest);
        assert forall|a: int, b: int| 0 <= a < b < pack.len() implies #[trigger] pack[a] < #[trigger] pack[b] by {
            assert(before[a] == pack[a]);
            if b < before.len() {
                assert(before[b] == pack[b]);
            }
        }
        assert forall|i: usize| i < players.len() && players[i as int].alive && of_the_pack(players[i as int]) implies #[trigger] pack.contains(
            i,
        ) by {
            if i < rest.len() {
                assert(rest[i as int] == players[i as int]);
                assert(before.contains(i));
                let k = choose|k: int| 0 <= k < before.len() && before[k] == i;
                assert(pack[k] == i);
            } else {
                assert(pack[before.len() as int] == n);
            }
        }
    }
}

// ---- stages of all ----

/// Whether the player at `i` still has to move in the stage: they live, and have not
/// said if they run, or have not voted; candidates do not vote for a sheriff.
pub open spec fn still_to_move(g: WolfGameView, i: usize) -> bool {
    &&& i < g.players.len()
    &&& g.players[i as int].alive
    &&& match g.stage {
        WolfStage::SheriffNominate => forall|run: bool| !#[trigger] g.sheriff_nominations.contains((i, run)),
        WolfStage::SheriffVote => !g.sheriff_nominations.contains((i, true)) && forall|t: Option<usize>|
            !#[trigger] g.sheriff_votes.contains((i, t)),
        WolfStage::DayVote => forall|t: Option<usize>| !#[trigger] g.day_votes.contains((i, t)),
        _ => false,
    }
}

/// Whether these are the AI players, or the people, who still have to move, in the order
/// of their seats.
pub open spec fn those_to_move(g: WolfGameView, seats: Seq<usize>, is_ai: bool) -> bool {
    &&& ascending(seats)
    &&& forall|i: usize| #[trigger] seats.contains(i) <==> still_to_move(g, i) && g.players[i as int].is_ai == is_ai
}

/// Where all have a say, the AI players who still have to move are asked, once. Then
/// every person who still has to gets a card, and when nobody has to the stage ends.
pub proof fn everybody_still_to_move_is_turned_to(g: WolfGameView, asked: bool)
    requires
        g.wf(),
        g.stage == WolfStage::SheriffNominate || g.stage == WolfStage::SheriffVote || g.stage == WolfStage::DayVote,
    ensures
        ({
            let task = match g.stage {
                WolfStage::SheriffNominate => Task::Run,
                WolfStage::SheriffVote => Task::SheriffVote,
                _ => Task::Vote,
            };
            let an_ai = exists|i: usize| #[trigger] still_to_move(g, i) && g.players[i as int].is_ai;
            let anybody = exists|i: usize| #[trigger] still_to_move(g, i);
            if !asked && an_ai {
                g.step(asked) matches WolfStepView::AskAll(seats, t) && t == task && those_to_move(g, seats, true)
            } else if anybody {
                g.step(asked) matches WolfStepView::PromptAll(seats, t) && t == task && those_to_move(g, seats, false)
            } else {
                g.step(asked) == WolfStepView::Conclude
            }
        }),
{
    let pending = pending_of(g);
    those_pending(g);
    kinds_kept(g.players, pending, true);
    kinds_kept(g.players, pending, false);
    let ais = seats_of(g.players, pending, true);
    let people = seats_of(g.players, pending, false);
    assert(those_to_move(g, ais, true)) by {
        assert forall|i: usize| #[trigger] ais.contains(i) <==> still_to_move(g, i) && g.players[i as int].is_ai by {
            assert(ais.contains(i) <==> pending.contains(i) && g.players[i as int].is_ai == true);
        }
    }
    assert(those_to_move(g, people, false)) by {
        assert forall|i: usize| #[trigger] people.contains(i) <==> still_to_move(g, i) && !g.players[i as int].is_ai by {
            assert(people.contains(i) <==> pending.contains(i) && g.players[i as int].is_ai == false);
        }
    }
    if ais.len() > 0 {
        assert(ais.contains(ais[0]));
    }
    if exists|i: usize| #[trigger] still_to_move(g, i) && g.players[i as int].is_ai {
        let i = choose|i: usize| #[trigger] still_to_move(g, i) && g.players[i as int].is_ai;
        assert(ais.contains(i));
    }
}

/// Who is pending in a stage of all.
spec fn pending_of(g: WolfGameView) -> Seq<usize> {
    match g.stage {
        WolfStage::SheriffNominate => undeclared(g.sheriff_nominations, living(g.players)),
        WolfStage::SheriffVote => unvoted(g.sheriff_votes, g.candidates(), living(g.players)),
        _ => unvoted(g.day_votes, Seq::empty(), living(g.players)),
    }
}

proof fn those_pending(g: WolfGameView)
    requires
        g.wf(),
        g.stage == WolfStage::SheriffNominate || g.stage == WolfStage::SheriffVote || g.stage == WolfStage::DayVote,
    ensures
        ascending(pending_of(g)),
        forall|i: usize| #[trigger] pending_of(g).contains(i) <==> still_to_move(g, i),
        (g.stage == WolfStage::SheriffNominate && g.all_nominated()) || (g.stage == WolfStage::SheriffVote
            && g.all_sheriff_votes()) || (g.stage == WolfStage::DayVote && g.all_voted()) <==> forall|i: usize|
            !#[trigger] still_to_move(g, i),
{
    the_living_come_in_order(g.players);
    let all = living(g.players);
    match g.stage {
        WolfStage::SheriffNominate => undeclared_kept(g.sheriff_nominations, all),
        WolfStage::SheriffVote => unvoted_kept(g.sheriff_votes, g.candidates(), all),
        _ => unvoted_kept(g.day_votes, Seq::empty(), all),
    }
    runners_are_those_who_run(g.sheriff_nominations);
    assert forall|i: usize| #[trigger] pending_of(g).contains(i) <==> still_to_move(g, i) by {
        said_or_not(g.sheriff_nominations, i);
        voted_or_not(g.sheriff_votes, i);
        voted_or_not(g.day_votes, i);
        assert(g.candidates().contains(i) <==> g.sheriff_nominations.contains((i, true)));
        assert(!Seq::<usize>::empty().contains(i));
    }
    assert forall|j: int| 0 <= j < g.players.len() && (#[trigger] g.players[j]).alive implies (still_to_move(g, j as usize)
        <==> match g.stage {
        WolfStage::SheriffNominate => !has_nominated(g.sheriff_nominations, j as usize),
        WolfStage::SheriffVote => !g.candidates().contains(j as usize) && !has_voted(g.sheriff_votes, j as usize),
        _ => !has_voted(g.day_votes, j as usize),
    }) by {
        let i = j as usize;
        said_or_not(g.sheriff_nominations, i);
        voted_or_not(g.sheriff_votes, i);
        voted_or_not(g.day_votes, i);
        assert(g.candidates().contains(i) <==> g.sheriff_nominations.contains((i, true)));
    }
    assert forall|i: usize| #[trigger] still_to_move(g, i) implies g.players[i as int].alive && i as int as usize == i by {
    }
}

proof fn said_or_not(list: Seq<(usize, bool)>, i: usize)
    ensures
        has_nominated(list, i) <==> exists|run: bool| #[trigger] list.contains((i, run)),
{
    if has_nominated(list, i) {
        let k = choose|k: int| 0 <= k < list.len() && (#[trigger] list[k]).0 == i;
        assert(list.contains((i, list[k].1)));
    }
    if exists|run: bool| #[trigger] list.contains((i, run)) {
        let run = choose|run: bool| #[trigger] list.contains((i, run));
        let k = choose|k: int| 0 <= k < list.len() && list[k] == (i, run);
        assert(list[k].0 == i);
    }
}

proof fn voted_or_not(votes: Seq<(usize, Option<usize>)>, i: usize)
    ensures
        has_voted(votes, i) <==> exists|t: Option<usize>| #[trigger] votes.contains((i, t)),
{
    if has_voted(votes, i) {
        let k = choose|k: int| 0 <= k < votes.len() && (#[trigger] votes[k]).0 == i;
        assert(votes.contains((i, votes[k].1)));
    }
    if exists|t: Option<usize>| #[trigger] votes.contains((i, t)) {
        let t = choose|t: Option<usize>| #[trigger] votes.contains((i, t));
        let k = choose|k: int| 0 <= k < votes.len() && votes[k] == (i, t);
        assert(votes[k].0 == i);
    }
}

// ---- the pack ----

/// Whether the player at `i` is a living wolf.
pub open spec fn hunts(g: WolfGameView, i: usize) -> bool {
    i < g.players.len() && g.players[i as int].alive && of_the_pack(g.players[i as int])
}

/// Whether the wolf at `i` has named somebody.
pub open spec fn has_named(g: WolfGameView, i: usize) -> bool {
    exists|t: usize| #[trigger] g.wolf_kill_votes.contains((i, t))
}

/// A pack of AI players is asked, those who have named nobody, and is done.
pub proof fn an_ai_pack_is_asked(g: WolfGameView, asked: bool)
    requires
        g.wf(),
        g.stage == WolfStage::WolvesPick,
        forall|i: usize| #[trigger] hunts(g, i) ==> g.players[i as int].is_ai,
    ensures
        if !asked && exists|i: usize| #[trigger] hunts(g, i) && !has_named(g, i) {
            &&& g.step(asked) matches WolfStepView::AskAll(seats, t)
            &&& t == Task::Wolf
            &&& ascending(seats)
            &&& forall|i: usize| #[trigger] seats.contains(i) <==> hunts(g, i) && !has_named(g, i)
        } else {
            g.step(asked) == WolfStepView::Conclude
        },
{
    let pack = living_wolves(g.players);
    the_pack_comes_in_order(g.players);
    kinds_kept(g.players, pack, false);
    unpicked_kept(g.wolf_kill_votes, pack);
    let people = seats_of(g.players, pack, false);
    if people.len() > 0 {
        assert(people.contains(people[0]));
        assert(hunts(g, people[0]));
    }
    let pending = unpicked(g.wolf_kill_votes, pack);
    assert forall|i: usize| #[trigger] pending.contains(i) <==> hunts(g, i) && !has_named(g, i) by {
        picked_or_not(g, i);
    }
    if pending.len() > 0 {
        assert(pending.contains(pending[0]));
    }
    if exists|i: usize| #[trigger] hunts(g, i) && !has_named(g, i) {
        let i = choose|i: usize| #[trigger] hunts(g, i) && !has_named(g, i);
        assert(pending.contains(i));
    }
}

proof fn picked_or_not(g: WolfGameView, i: usize)
    ensures
        has_picked(g.wolf_kill_votes, i) <==> has_named(g, i),
{
    let votes = g.wolf_kill_votes;
    if has_picked(votes, i) {
        let k = choose|k: int| 0 <= k < votes.len() && (#[trigger] votes[k]).0 == i;
        assert(votes.contains((i, votes[k].1)));
    }
    if has_named(g, i) {
        let t = choose|t: usize| #[trigger] votes.contains((i, t));
        let k = choose|k: int| 0 <= k < votes.len() && votes[k] == (i, t);
        assert(votes[k].0 == i);
    }
}

/// With a person among the wolves, every such person is shown how things stand and the
/// AI wolves who are not ready are asked. Then the pack is done when every wolf is ready,
/// and not before.
pub proof fn a_pack_with_people_waits_for_all(g: WolfGameView, asked: bool)
    requires
        g.wf(),
        g.stage == WolfStage::WolvesPick,
        exists|i: usize| #[trigger] hunts(g, i) && !g.players[i as int].is_ai,
    ensures
        if !asked {
            &&& g.step(asked) matches WolfStepView::Pack(people, ais)
            &&& ascending(people)
            &&& ascending(ais)
            &&& forall|i: usize| #[trigger] people.contains(i) <==> hunts(g, i) && !g.players[i as int].is_ai
            &&& forall|i: usize| #[trigger] ais.contains(i) <==> hunts(g, i) && g.players[i as int].is_ai && !g.wolf_ready.contains(i)
        } else if forall|i: usize| #[trigger] hunts(g, i) ==> g.wolf_ready.contains(i) {
            g.step(asked) == WolfStepView::Conclude
        } else {
            g.step(asked) == WolfStepView::Rest
        },
{
    let pack = living_wolves(g.players);
    the_pack_comes_in_order(g.players);
    kinds_kept(g.players, pack, false);
    unready_kept(g.wolf_ready, pack);
    let waiting = unready(g.wolf_ready, pack);
    kinds_kept(g.players, waiting, true);
    let people = seats_of(g.players, pack, false);
    let i = choose|i: usize| #[trigger] hunts(g, i) && !g.players[i as int].is_ai;
    assert(people.contains(i) <==> pack.contains(i) && g.players[i as int].is_ai == false);
    assert(pack.contains(i));
    let ais = seats_of(g.players, waiting, true);
    assert forall|i: usize| #[trigger] ais.contains(i) <==> hunts(g, i) && g.players[i as int].is_ai && !g.wolf_ready.contains(i) by {
        assert(ais.contains(i) <==> waiting.contains(i) && g.players[i as int].is_ai == true);
        assert(waiting.contains(i) <==> pack.contains(i) && !g.wolf_ready.contains(i));
    }
    if g.pack_ready() {
        assert forall|i: usize| #[trigger] hunts(g, i) implies g.wolf_ready.contains(i) by {
            assert(pack.contains(i));
            let k = choose|k: int| 0 <= k < pack.len() && pack[k] == i;
            assert(g.wolf_ready.contains(living_wolves(g.players)[k]));
        }
    } else {
        let k = choose|k: int| 0 <= k < pack.len() && !g.wolf_ready.contains(#[trigger] living_wolves(g.players)[k]);
        assert(pack.contains(pack[k]));
        assert(hunts(g, pack[k]));
    }
}

} // verus!
