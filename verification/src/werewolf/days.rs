//! What holds of every day: the talk, the elections and the votes.

use vstd::prelude::*;
use vstd::string::*;
use crate::text::decimal;
use super::laws::{distance, distance_leads_there};
use super::model::{living, RecapView, SpeechesView, WolfGameView, WolfPlayerView};
use super::nights::{sits, the_seat_is_found};
use super::rules::{
    ahead, apart, badge_line, has_nominated, has_voted, lynch_line, place, poll, ring, runners, shot_line, singled_out,
};
use super::{DeathCause, Role, WolfError, WolfStage};

verus! {

// ---- speeches ----

/// Whether it is the seat's turn to speak.
pub open spec fn has_the_floor(s: SpeechesView, i: usize) -> bool {
    0 <= s.next < s.order.len() && s.order[s.next] == i
}

/// Whether the seat has spoken and the next one has the floor.
pub open spec fn spoke(before: SpeechesView, after: SpeechesView, i: usize, text: Seq<char>) -> bool {
    &&& after.order == before.order
    &&& after.next == before.next + 1
    &&& after.said == before.said.push((i, text))
}

/// The recap with what was said, if anything was.
pub open spec fn recapped(log: Seq<RecapView>, text: Seq<char>, e: RecapView) -> Seq<RecapView> {
    if text.len() > 0 { log.push(e) } else { log }
}

/// Only whoever has the floor speaks, in any stage of speeches, and then the next
/// one has it. What is said is written down unless it is nothing.
pub proof fn one_speaks_after_the_other(g: WolfGameView, id: Seq<char>, i: usize, text: Seq<char>)
    requires
        g.wf(),
        sits(g, id, i),
    ensures
        ({
            let r = g.last_words_result(id, text);
            let s = r->Ok_0.last_words;
            &&& r is Ok <==> g.stage == WolfStage::LastWords && has_the_floor(g.last_words, i)
            &&& r is Ok ==> spoke(g.last_words, s, i, text) && r->Ok_0 == (WolfGameView {
                last_words: s,
                recap_log: recapped(g.recap_log, text, RecapView::LastWords { day: g.day, night: g.at_dawn, player: i, text }),
                ..g
            })
        }),
        ({
            let r = g.sheriff_speech_result(id, text);
            let s = r->Ok_0.sheriff_speech;
            &&& r is Ok <==> g.stage == WolfStage::SheriffSpeech && has_the_floor(g.sheriff_speech, i)
            &&& r is Ok ==> spoke(g.sheriff_speech, s, i, text) && r->Ok_0 == (WolfGameView {
                sheriff_speech: s,
                recap_log: recapped(g.recap_log, text, RecapView::SheriffSpeech { player: i, text }),
                ..g
            })
        }),
        ({
            let r = g.side_speech_result(id, text);
            let s = r->Ok_0.side_speech;
            &&& r is Ok <==> g.stage == WolfStage::SheriffSideSpeech && has_the_floor(g.side_speech, i)
            &&& r is Ok ==> spoke(g.side_speech, s, i, text) && r->Ok_0 == (WolfGameView {
                side_speech: s,
                recap_log: recapped(g.recap_log, text, RecapView::SheriffSideSpeech { player: i, text }),
                ..g
            })
        }),
        ({
            let r = g.day_speech_result(id, text);
            let s = r->Ok_0.day_speech;
            &&& r is Ok <==> g.stage == WolfStage::DaySpeech && has_the_floor(g.day_speech, i)
            &&& r is Ok ==> spoke(g.day_speech, s, i, text) && r->Ok_0 == (WolfGameView {
                day_speech: s,
                recap_log: recapped(g.recap_log, text, RecapView::DaySpeech { day: g.day, player: i, text }),
                ..g
            })
        }),
{
    the_seat_is_found(g, id, i);
}

/// A stage of speeches is over when everybody in it has spoken, and not before. Then
/// deaths are settled, or the others speak, or the vote begins without any vote.
pub proof fn speeches_end_when_all_have_spoken(g: WolfGameView)
    requires
        g.wf(),
    ensures
        g.last_words_done_result() is Ok <==> g.stage == WolfStage::LastWords && g.last_words.next == g.last_words.order.len(),
        g.last_words_done_result() is Ok ==> g.last_words_done_result()->Ok_0 == g.settled(),
        g.sheriff_speeches_done_result() is Ok <==> g.stage == WolfStage::SheriffSpeech && g.sheriff_speech.next
            == g.sheriff_speech.order.len(),
        g.sheriff_speeches_done_result() is Ok ==> g.sheriff_speeches_done_result()->Ok_0.stage == WolfStage::SheriffSideSpeech,
        g.side_speeches_done_result() is Ok <==> g.stage == WolfStage::SheriffSideSpeech && g.side_speech.next
            == g.side_speech.order.len(),
        g.side_speeches_done_result() is Ok ==> g.side_speeches_done_result()->Ok_0 == (WolfGameView {
            sheriff_votes: Seq::empty(),
            stage: WolfStage::SheriffVote,
            ..g
        }),
        g.day_speeches_done_result() is Ok <==> g.stage == WolfStage::DaySpeech && g.day_speech.next == g.day_speech.order.len(),
        g.day_speeches_done_result() is Ok ==> g.day_speeches_done_result()->Ok_0 == (WolfGameView {
            day_votes: Seq::empty(),
            stage: WolfStage::DayVote,
            ..g
        }),
        g.reveal_result() is Ok <==> g.stage == WolfStage::DayReveal,
        g.reveal_result() is Ok ==> g.reveal_result()->Ok_0 == g.settled(),
{
}

// ---- the shot and the badge ----

/// The one whose shot is pending takes somebody else alive with them, or nobody.
pub proof fn the_shot_is_fired(g: WolfGameView, id: Seq<char>, i: usize, target: Option<Seq<char>>, t: usize)
    requires
        g.wf(),
        sits(g, id, i),
        target matches Some(name) ==> sits(g, name, t),
    ensures
        ({
            let r = g.hunter_result(id, target);
            let hit = if target is Some { Some(t) } else { None };
            &&& r is Ok <==> g.stage == WolfStage::HunterShoot && g.pending_hunter == Some(i) && (target is Some ==> t != i
                && g.players[t as int].alive)
            &&& r is Ok ==> r->Ok_0.1 == hit && r->Ok_0.0 == shot_fired(g, i, hit).settled()
        }),
{
    the_seat_is_found(g, id, i);
    if target is Some {
        the_seat_is_found(g, target->0, t);
        fired(g, i, Some(t));
    } else {
        fired(g, i, None);
    }
}

/// The table once the shot has been fired: the one hit is dead without last words and
/// without a shot; if they were the sheriff, the badge is pending.
pub open spec fn shot_fired(g: WolfGameView, i: usize, hit: Option<usize>) -> WolfGameView {
    let log = g.recap_log.push(RecapView::HunterShot { day: g.day, shooter: i, target: hit });
    let name = g.players[i as int].name;
    match hit {
        Some(t) => WolfGameView {
            players: g.players.update(t as int, WolfPlayerView { alive: false, ..g.players[t as int] }),
            pending_hunter: None,
            pending_badge: if g.sheriff_idx == Some(t) { Some(t) } else { g.pending_badge },
            recap_log: log.push(RecapView::Death { day: g.day, night: g.at_dawn, player: t, cause: DeathCause::Shot }),
            event_log: g.event_log.push(shot_line(name, Some(g.players[t as int].name))),
            ..g
        },
        None => WolfGameView { pending_hunter: None, recap_log: log, event_log: g.event_log.push(shot_line(name, None)), ..g },
    }
}

proof fn fired(g: WolfGameView, i: usize, hit: Option<usize>)
    ensures
        g.shot(i, hit) == shot_fired(g, i, hit).settled(),
{
    let v = WolfGameView { pending_hunter: None, ..g }.logged(
        RecapView::HunterShot { day: g.day, shooter: i, target: hit },
    ).told(shot_line(g.players[i as int].name, g.name_at(hit)));
    match hit {
        Some(t) => {
            assert(v.killed(t, DeathCause::Shot) == shot_fired(g, i, hit));
        },
        None => {
            assert(v == shot_fired(g, i, hit));
        },
    }
}

/// A dead sheriff hands the badge to somebody else alive, or to nobody: then nobody
/// is sheriff.
pub proof fn the_badge_is_handed_on(g: WolfGameView, id: Seq<char>, i: usize, target: Option<Seq<char>>, t: usize)
    requires
        g.wf(),
        sits(g, id, i),
        target matches Some(name) ==> sits(g, name, t),
    ensures
        ({
            let r = g.badge_result(id, target);
            let heir = if target is Some { Some(t) } else { None };
            let heir_name = if target is Some { Some(g.players[t as int].name) } else { None };
            &&& r is Ok <==> g.stage == WolfStage::BadgePass && g.pending_badge == Some(i) && (target is Some ==> t != i
                && g.players[t as int].alive)
            &&& r is Ok ==> r->Ok_0.1 == heir && r->Ok_0.0 == (WolfGameView {
                pending_badge: None,
                sheriff_idx: heir,
                recap_log: g.recap_log.push(RecapView::BadgePass { day: g.day, from: i, to: heir }),
                event_log: g.event_log.push(badge_line(g.players[i as int].name, heir_name)),
                ..g
            }).settled()
        }),
{
    the_seat_is_found(g, id, i);
    if target is Some {
        the_seat_is_found(g, target->0, t);
    }
}

// ---- the election ----

/// Whether the seat has said if it runs.
pub open spec fn has_said(list: Seq<(usize, bool)>, i: usize) -> bool {
    list.contains((i, true)) || list.contains((i, false))
}

proof fn said_is_nominated(list: Seq<(usize, bool)>, i: usize)
    ensures
        has_said(list, i) <==> has_nominated(list, i),
{
    if has_nominated(list, i) {
        let k = choose|k: int| 0 <= k < list.len() && (#[trigger] list[k]).0 == i;
        assert(list[k] == (i, list[k].1));
        assert(list.contains(list[k]));
    }
    if list.contains((i, true)) {
        let k = choose|k: int| 0 <= k < list.len() && list[k] == (i, true);
        assert(list[k].0 == i);
    }
    if list.contains((i, false)) {
        let k = choose|k: int| 0 <= k < list.len() && list[k] == (i, false);
        assert(list[k].0 == i);
    }
}

/// Everybody alive says once whether they run.
pub proof fn everybody_says_once_if_they_run(g: WolfGameView, id: Seq<char>, i: usize, run: bool)
    requires
        g.wf(),
        sits(g, id, i),
    ensures
        ({
            let r = g.nominate_result(id, run);
            &&& r is Ok <==> g.stage == WolfStage::SheriffNominate && g.players[i as int].alive && !has_said(g.sheriff_nominations, i)
            &&& r is Ok ==> r->Ok_0 == (WolfGameView { sheriff_nominations: g.sheriff_nominations.push((i, run)), ..g })
        }),
{
    the_seat_is_found(g, id, i);
    said_is_nominated(g.sheriff_nominations, i);
}

pub proof fn runners_are_those_who_run(list: Seq<(usize, bool)>)
    ensures
        forall|i: usize| #[trigger] runners(list).contains(i) <==> list.contains((i, true)),
        runners(list).len() <= list.len(),
    decreases list.len(),
{
    if list.len() > 0 {
        let rest = list.drop_last();
        runners_are_those_who_run(rest);
        let a = runners(rest);
        let b = runners(list);
        assert(list[list.len() - 1] == list.last());
        assert forall|i: usize| #[trigger] b.contains(i) <==> list.contains((i, true)) by {
            if b.contains(i) {
                let k = choose|k: int| 0 <= k < b.len() && b[k] == i;
                if k < a.len() {
                    assert(a[k] == i);
                    assert(a.contains(i));
                    let l = choose|l: int| 0 <= l < rest.len() && rest[l] == (i, true);
                    assert(list[l] == (i, true));
                }
            }
            if list.contains((i, true)) {
                let l = choose|l: int| 0 <= l < list.len() && list[l] == (i, true);
                if l < rest.len() {
                    assert(rest[l] == (i, true));
                    assert(a.contains(i));
                    let k = choose|k: int| 0 <= k < a.len() && a[k] == i;
                    assert(b[k] == i);
                } else {
                    assert(b[b.len() - 1] == i);
                }
            }
        }
    }
}

/// Whether everybody alive has said whether they run.
pub open spec fn all_have_said(g: WolfGameView) -> bool {
    forall|i: usize| i < g.players.len() && (#[trigger] g.players[i as int]).alive ==> has_said(g.sheriff_nominations, i)
}

/// Whether the election is over with this outcome, and the day's talk is next.
pub open spec fn elected(g: WolfGameView, h: WolfGameView, sheriff: Option<usize>) -> bool {
    &&& h.sheriff_idx == sheriff
    &&& h.sheriff_done
    &&& h.stage == (if sheriff is Some { WolfStage::SheriffPickDirection } else { WolfStage::DayOpen })
    &&& h.players == g.players
    &&& h.day_speech.order.len() == 0
    &&& h.day_votes.len() == 0
    &&& h.lynched is None
    &&& h.day == g.day
    &&& h.recap_log == g.recap_log
}

/// Once all have said whether they run: nobody runs and there is no sheriff; one runs
/// and is the sheriff; or several run and make speeches.
pub proof fn who_stands_for_sheriff(g: WolfGameView)
    requires
        g.wf(),
    ensures
        ({
            let r = g.nominated_result();
            &&& r is Ok <==> g.stage == WolfStage::SheriffNominate && all_have_said(g)
            &&& g.stage == WolfStage::SheriffNominate && !all_have_said(g) ==> r == Err::<WolfGameView, WolfError>(WolfError::Unfinished)
            &&& r is Ok && g.candidates().len() == 0 ==> elected(g, r->Ok_0, None)
            &&& r is Ok && g.candidates().len() == 1 ==> elected(g, r->Ok_0, Some(g.candidates()[0]))
            &&& r is Ok && g.candidates().len() >= 2 ==> r->Ok_0 == (WolfGameView {
                stage: WolfStage::SheriffSpeech,
                sheriff_speech: SpeechesView { order: g.candidates(), next: 0, said: Seq::empty() },
                ..g
            })
            &&& forall|i: usize| #[trigger] g.candidates().contains(i) <==> g.sheriff_nominations.contains((i, true))
        }),
{
    runners_are_those_who_run(g.sheriff_nominations);
    assert(all_have_said(g) <==> g.all_nominated()) by {
        if all_have_said(g) {
            assert forall|i: int| 0 <= i < g.players.len() && (#[trigger] g.players[i]).alive implies has_nominated(
                g.sheriff_nominations,
                i as usize,
            ) by {
                let j = i as usize;
                assert(g.players[j as int].alive);
                said_is_nominated(g.sheriff_nominations, j);
            }
        }
        if g.all_nominated() {
            assert forall|i: usize| i < g.players.len() && (#[trigger] g.players[i as int]).alive implies has_said(g.sheriff_nominations, i) by {
                said_is_nominated(g.sheriff_nominations, i);
            }
        }
    }
}

pub proof fn apart_facts(seats: Seq<usize>, from: Seq<usize>)
    requires
        forall|a: int, b: int| 0 <= a < b < seats.len() ==> #[trigger] seats[a] < #[trigger] seats[b],
    ensures
        forall|i: usize| #[trigger] apart(seats, from).contains(i) <==> seats.contains(i) && !from.contains(i),
        forall|a: int, b: int| 0 <= a < b < apart(seats, from).len() ==> #[trigger] apart(seats, from)[a] < #[trigger] apart(seats, from)[b],
    decreases seats.len(),
{
    if seats.len() > 0 {
        let rest = seats.drop_last();
        assert forall|a: int, b: int| 0 <= a < b < rest.len() implies #[trigger] rest[a] < #[trigger] rest[b] by {
            assert(seats[a] < seats[b]);
        }
        apart_facts(rest, from);
        let c = apart(rest, from);
        let d = apart(seats, from);
        assert(seats[seats.len() - 1] == seats.last());
        assert forall|i: usize| #[trigger] d.contains(i) <==> seats.contains(i) && !from.contains(i) by {
            if d.contains(i) {
                let k = choose|k: int| 0 <= k < d.len() && d[k] == i;
                if k < c.len() {
                    assert(c[k] == i);
                    assert(c.contains(i));
                    let l = choose|l: int| 0 <= l < rest.len() && rest[l] == i;
                    assert(seats[l] == i);
                }
            }
            if seats.contains(i) && !from.contains(i) {
                let l = choose|l: int| 0 <= l < seats.len() && seats[l] == i;
                if l < rest.len() {
                    assert(rest[l] == i);
                    assert(c.contains(i));
                    let k = choose|k: int| 0 <= k < c.len() && c[k] == i;
                    assert(d[k] == i);
                } else {
                    assert(d[d.len() - 1] == i);
                }
            }
        }
        assert forall|a: int, b: int| 0 <= a < b < d.len() implies #[trigger] d[a] < #[trigger] d[b] by {
            if b < c.len() {
                assert(c[a] < c[b]);
            } else {
                assert(c[a] == d[a]);
                assert(c.contains(c[a]));
                let l = choose|l: int| 0 <= l < rest.len() && rest[l] == c[a];
                assert(seats[l] < seats[seats.len() - 1]);
            }
        }
    }
}

proof fn living_in_order(players: Seq<WolfPlayerView>)
    requires
        players.len() <= 12,
    ensures
        forall|i: usize| #[trigger] living(players).contains(i) <==> i < players.len() && players[i as int].alive,
        forall|a: int, b: int| 0 <= a < b < living(players).len() ==> #[trigger] living(players)[a] < #[trigger] living(players)[b],
    decreases players.len(),
{
    if players.len() > 0 {
        let rest = players.drop_last();
        living_in_order(rest);
        let c = living(rest);
        let d = living(players);
        let last = (players.len() - 1) as usize;
        assert(players[last as int] == players.last());
        assert forall|i: usize| #[trigger] d.contains(i) <==> i < players.len() && players[i as int].alive by {
            if d.contains(i) {
                let k = choose|k: int| 0 <= k < d.len() && d[k] == i;
                if k < c.len() {
                    assert(c[k] == i);
                    assert(c.contains(i));
                }
            }
            if i < players.len() && players[i as int].alive {
                if i < rest.len() {
                    assert(rest[i as int] == players[i as int]);
                    assert(c.contains(i));
                    let k = choose|k: int| 0 <= k < c.len() && c[k] == i;
                    assert(d[k] == i);
                } else {
                    assert(d[d.len() - 1] == i);
                }
            }
        }
        assert forall|a: int, b: int| 0 <= a < b < d.len() implies #[trigger] d[a] < #[trigger] d[b] by {
            if b < c.len() {
                assert(c[a] < c[b]);
            } else {
                assert(c[a] == d[a]);
                assert(c.contains(c[a]));
            }
        }
    }
}

/// After the candidates all others who live speak, each once and in seat order.
pub proof fn the_others_speak_too(g: WolfGameView)
    requires
        g.wf(),
        g.sheriff_speeches_done_result() is Ok,
    ensures
        ({
            let h = g.sheriff_speeches_done_result()->Ok_0;
            let order = h.side_speech.order;
            &&& h == (WolfGameView { stage: WolfStage::SheriffSideSpeech, side_speech: h.side_speech, ..g })
            &&& h.side_speech.next == 0
            &&& h.side_speech.said.len() == 0
            &&& forall|i: usize| #[trigger] order.contains(i) <==> i < g.players.len() && g.players[i as int].alive
                && !g.sheriff_nominations.contains((i, true))
            &&& forall|a: int, b: int| 0 <= a < b < order.len() ==> #[trigger] order[a] < #[trigger] order[b]
        }),
{
    living_in_order(g.players);
    apart_facts(living(g.players), g.candidates());
    runners_are_those_who_run(g.sheriff_nominations);
}

// ---- votes ----

/// Whether the voter has voted.
pub open spec fn voted_by(votes: Seq<(usize, Option<usize>)>, i: usize) -> bool {
    exists|k: int| 0 <= k < votes.len() && (#[trigger] votes[k]).0 == i
}

/// Everybody alive who does not run votes once, for somebody who runs and lives or for
/// nobody.
pub proof fn who_votes_for_a_sheriff(g: WolfGameView, id: Seq<char>, i: usize, target: Option<Seq<char>>, t: usize)
    requires
        g.wf(),
        sits(g, id, i),
        target matches Some(name) ==> sits(g, name, t),
    ensures
        ({
            let r = g.sheriff_vote_result(id, target);
            &&& r is Ok <==> g.stage == WolfStage::SheriffVote && g.players[i as int].alive && !g.sheriff_nominations.contains((i, true))
                && !voted_by(g.sheriff_votes, i) && (target is Some ==> g.players[t as int].alive && g.sheriff_nominations.contains((t, true)))
            &&& r is Ok ==> r->Ok_0 == (WolfGameView {
                sheriff_votes: g.sheriff_votes.push((i, if target is Some { Some(t) } else { None })),
                ..g
            })
        }),
{
    the_seat_is_found(g, id, i);
    runners_are_those_who_run(g.sheriff_nominations);
    if target is Some {
        the_seat_is_found(g, target->0, t);
    }
}

/// Everybody alive votes once by day, for somebody else alive or for nobody.
pub proof fn who_votes_by_day(g: WolfGameView, id: Seq<char>, i: usize, target: Option<Seq<char>>, t: usize)
    requires
        g.wf(),
        sits(g, id, i),
        target matches Some(name) ==> sits(g, name, t),
    ensures
        ({
            let r = g.vote_result(id, target);
            let choice = if target is Some { Some(t) } else { None };
            &&& r is Ok <==> g.stage == WolfStage::DayVote && g.players[i as int].alive && !voted_by(g.day_votes, i) && (target is Some
                ==> g.players[t as int].alive && t != i)
            &&& r is Ok ==> r->Ok_0 == (WolfGameView {
                day_votes: g.day_votes.push((i, choice)),
                recap_log: g.recap_log.push(RecapView::DayVoteCast { day: g.day, voter: i, target: choice }),
                ..g
            })
        }),
{
    the_seat_is_found(g, id, i);
    if target is Some {
        the_seat_is_found(g, target->0, t);
    }
}

/// Twice what the votes for somebody count together: the sheriff's vote counts one
/// and a half.
pub open spec fn tally(votes: Seq<(usize, Option<usize>)>, sheriff: Option<usize>, t: usize, n: nat) -> nat
    decreases n,
{
    if n == 0 {
        0
    } else {
        tally(votes, sheriff, t, (n - 1) as nat) + if votes[n - 1].1 != Some(t) {
            0nat
        } else if sheriff == Some(votes[n - 1].0) {
            3nat
        } else {
            2nat
        }
    }
}

proof fn poll_is_tally(votes: Seq<(usize, Option<usize>)>, sheriff: Option<usize>, t: usize, n: nat)
    requires
        n <= votes.len(),
    ensures
        poll(votes.take(n as int), sheriff, t) == tally(votes, sheriff, t, n),
    decreases n,
{
    if n > 0 {
        poll_is_tally(votes, sheriff, t, (n - 1) as nat);
        assert(votes.take(n as int).drop_last() =~= votes.take(n - 1));
        assert(votes.take(n as int).last() == votes[n - 1]);
    }
}

/// Whether somebody has votes, and more than anybody else.
pub open spec fn leads(votes: Seq<(usize, Option<usize>)>, sheriff: Option<usize>, t: usize) -> bool {
    let n = votes.len();
    &&& tally(votes, sheriff, t, n) > 0
    &&& forall|u: usize| u != t ==> #[trigger] tally(votes, sheriff, u, n) < tally(votes, sheriff, t, n)
}

/// Whether this is what comes of the votes: whoever leads, or nobody where nobody
/// does.
pub open spec fn outvoted(votes: Seq<(usize, Option<usize>)>, sheriff: Option<usize>, r: Option<usize>) -> bool {
    match r {
        Some(t) => leads(votes, sheriff, t),
        None => forall|t: usize| !leads(votes, sheriff, t),
    }
}

proof fn singled_out_leads(votes: Seq<(usize, Option<usize>)>, sheriff: Option<usize>)
    ensures
        outvoted(votes, sheriff, singled_out(votes, sheriff)),
{
    assert(votes.take(votes.len() as int) =~= votes);
    assert forall|t: usize| ahead(votes, sheriff, t) <==> #[trigger] leads(votes, sheriff, t) by {
        assert forall|u: usize| #[trigger] poll(votes, sheriff, u) == tally(votes, sheriff, u, votes.len()) by {
            poll_is_tally(votes, sheriff, u, votes.len());
        }
        if ahead(votes, sheriff, t) {
            assert forall|u: usize| u != t implies #[trigger] tally(votes, sheriff, u, votes.len()) < tally(votes, sheriff, t, votes.len()) by {
                assert(poll(votes, sheriff, u) < poll(votes, sheriff, t));
            }
        }
        if leads(votes, sheriff, t) {
            assert forall|u: usize| u != t implies poll(votes, sheriff, u) < poll(votes, sheriff, t) by {
                assert(tally(votes, sheriff, u, votes.len()) < tally(votes, sheriff, t, votes.len()));
            }
        }
    }
    if exists|t: usize| ahead(votes, sheriff, t) {
        let t = choose|t: usize| ahead(votes, sheriff, t);
        assert(leads(votes, sheriff, t));
    }
}

/// Two cannot both lead, so what comes of the votes is one outcome.
pub proof fn one_outcome(votes: Seq<(usize, Option<usize>)>, sheriff: Option<usize>, a: Option<usize>, b: Option<usize>)
    requires
        outvoted(votes, sheriff, a),
        outvoted(votes, sheriff, b),
    ensures
        a == b,
{
    if a is Some && b is Some && a != b {
        assert(tally(votes, sheriff, a->0, votes.len()) < tally(votes, sheriff, b->0, votes.len()));
    }
}

/// Once everybody who does not run has voted, whoever leads is the sheriff; where two
/// are level there is none.
pub proof fn who_becomes_sheriff(g: WolfGameView)
    requires
        g.wf(),
    ensures
        ({
            let r = g.sheriff_votes_done_result();
            let all = forall|i: usize| i < g.players.len() && (#[trigger] g.players[i as int]).alive && !g.sheriff_nominations.contains((i, true))
                ==> voted_by(g.sheriff_votes, i);
            &&& r is Ok <==> g.stage == WolfStage::SheriffVote && all
            &&& g.stage == WolfStage::SheriffVote && !all ==> r == Err::<WolfGameView, WolfError>(WolfError::Unfinished)
            &&& r is Ok ==> elected(g, r->Ok_0, r->Ok_0.sheriff_idx) && outvoted(g.sheriff_votes, None, r->Ok_0.sheriff_idx)
        }),
{
    runners_are_those_who_run(g.sheriff_nominations);
    singled_out_leads(g.sheriff_votes, None);
    let all = forall|i: usize| i < g.players.len() && (#[trigger] g.players[i as int]).alive && !g.sheriff_nominations.contains((i, true))
        ==> voted_by(g.sheriff_votes, i);
    if all {
        assert forall|i: int| 0 <= i < g.players.len() && (#[trigger] g.players[i]).alive && !g.candidates().contains(i as usize) implies has_voted(
            g.sheriff_votes,
            i as usize,
        ) by {
            let j = i as usize;
            assert(g.players[j as int].alive);
        }
    }
    if g.all_sheriff_votes() {
        assert forall|i: usize| i < g.players.len() && (#[trigger] g.players[i as int]).alive && !g.sheriff_nominations.contains((i, true)) implies voted_by(
            g.sheriff_votes,
            i,
        ) by {
            assert(has_voted(g.sheriff_votes, (i as int) as usize));
        }
    }
}

/// Whether everybody alive has voted.
pub open spec fn all_have_voted(g: WolfGameView) -> bool {
    forall|i: usize| i < g.players.len() && (#[trigger] g.players[i as int]).alive ==> voted_by(g.day_votes, i)
}

proof fn voting_is_done(g: WolfGameView)
    requires
        g.wf(),
    ensures
        all_have_voted(g) <==> g.all_voted(),
{
    if all_have_voted(g) {
        assert forall|i: int| 0 <= i < g.players.len() && (#[trigger] g.players[i]).alive implies has_voted(g.day_votes, i as usize) by {
            let j = i as usize;
            assert(g.players[j as int].alive);
        }
    }
    if g.all_voted() {
        assert forall|i: usize| i < g.players.len() && (#[trigger] g.players[i as int]).alive implies voted_by(g.day_votes, i) by {
            assert(has_voted(g.day_votes, (i as int) as usize));
        }
    }
}

/// Once everybody alive has voted, whoever leads is voted out, the sheriff's vote
/// counting one and a half; where two are level nobody is. It is announced.
pub proof fn who_is_voted_out(g: WolfGameView)
    requires
        g.wf(),
    ensures
        ({
            let r = g.count_result();
            let out = r->Ok_0.lynched;
            let name = match out {
                Some(t) => Some(g.players[t as int].name),
                None => None,
            };
            &&& r is Ok <==> g.stage == WolfStage::DayVote && all_have_voted(g)
            &&& r is Ok ==> outvoted(g.day_votes, g.sheriff_idx, out)
            &&& r is Ok ==> r->Ok_0 == (WolfGameView {
                lynched: out,
                recap_log: g.recap_log.push(RecapView::DayLynch { day: g.day, target: out }),
                event_log: g.event_log.push(lynch_line(g.day, name)),
                ..g
            })
        }),
{
    voting_is_done(g);
    singled_out_leads(g.day_votes, g.sheriff_idx);
}

/// Then whoever was voted out is dead, has last words, shoots if they are the hunter
/// or the wolf king, and leaves the badge if they are the sheriff. Nobody else dies.
pub proof fn the_evening_follows_the_vote(g: WolfGameView)
    requires
        g.wf(),
    ensures
        ({
            let r = g.evening_result();
            let role = g.players[g.lynched->0 as int].role;
            &&& r is Ok <==> g.stage == WolfStage::DayVote && all_have_voted(g)
            &&& r is Ok && g.lynched is None ==> r->Ok_0 == (WolfGameView {
                at_dawn: false,
                last_words: SpeechesView { order: Seq::empty(), next: 0, said: Seq::empty() },
                ..g
            }).settled()
            &&& r is Ok ==> (g.lynched matches Some(t) ==> r->Ok_0 == (WolfGameView {
                at_dawn: false,
                last_words: SpeechesView { order: seq![t], next: 0, said: Seq::empty() },
                players: g.players.update(t as int, WolfPlayerView { alive: false, ..g.players[t as int] }),
                pending_hunter: if role == Some(Role::Hunter) || role == Some(Role::WolfKing) { Some(t) } else { g.pending_hunter },
                pending_badge: if g.sheriff_idx == Some(t) { Some(t) } else { g.pending_badge },
                recap_log: g.recap_log.push(RecapView::Death { day: g.day, night: false, player: t, cause: DeathCause::Lynch }),
                ..g
            }).settled())
        }),
{
    voting_is_done(g);
    let v = WolfGameView { at_dawn: false, last_words: SpeechesView::fresh(Seq::empty()), ..g };
    if g.lynched is Some {
        let t = g.lynched->0;
        let none: Seq<usize> = Seq::empty();
        assert(none.push(t) =~= seq![t]);
    }
}

// ---- the order of the talk ----

/// Whether the seats are those alive, but for `from` where `first` is 1, each once, by
/// their distance from `from` going that way round.
pub open spec fn round_the_table(g: WolfGameView, order: Seq<usize>, from: usize, clockwise: bool, first: int) -> bool {
    let n = g.players.len() as int;
    &&& forall|i: usize| #[trigger] order.contains(i) <==> i < n && g.players[i as int].alive && distance(n, from as int, i as int, clockwise) >= first
    &&& forall|a: int, b: int| 0 <= a < b < order.len() ==> distance(n, from as int, (#[trigger] order[a]) as int, clockwise) < distance(
        n,
        from as int,
        (#[trigger] order[b]) as int,
        clockwise,
    )
}

proof fn place_is_distant(n: nat, from: usize, k: nat, clockwise: bool)
    requires
        from < n <= 12,
        k < n,
    ensures
        place(n, from, k, clockwise) < n,
        distance(n as int, from as int, place(n, from, k, clockwise) as int, clockwise) == k,
{
    let m = n as int;
    if clockwise {
        if from + k < m {
            assert((from + k) % m == from + k) by (nonlinear_arith)
                requires
                    0 <= from + k < m,
            ;
        } else {
            assert((from + k) % m == from + k - m) by (nonlinear_arith)
                requires
                    m <= from + k < 2 * m,
            ;
        }
    } else {
        if from >= k {
            assert((from + m - k) % m == from - k) by (nonlinear_arith)
                requires
                    0 <= from - k < m,
            ;
        } else {
            assert((from + m - k) % m == from + m - k) by (nonlinear_arith)
                requires
                    0 <= from + m - k < m,
            ;
        }
    }
}

proof fn ring_goes_round(g: WolfGameView, from: usize, clockwise: bool, first: nat, upto: nat)
    requires
        g.wf(),
        from < g.players.len(),
        upto <= g.players.len(),
    ensures
        ({
            let n = g.players.len() as int;
            let order = ring(g.players, from, clockwise, first, upto);
            &&& forall|i: usize| #[trigger] order.contains(i) <==> i < n && g.players[i as int].alive && first <= distance(
                n,
                from as int,
                i as int,
                clockwise,
            ) < upto
            &&& forall|a: int, b: int| 0 <= a < b < order.len() ==> distance(n, from as int, (#[trigger] order[a]) as int, clockwise) < distance(
                n,
                from as int,
                (#[trigger] order[b]) as int,
                clockwise,
            )
        }),
    decreases upto,
{
    let n = g.players.len() as int;
    let order = ring(g.players, from, clockwise, first, upto);
    if upto > first {
        let m = (upto - 1) as nat;
        let rest = ring(g.players, from, clockwise, first, m);
        let seat = place(g.players.len(), from, m, clockwise);
        ring_goes_round(g, from, clockwise, first, m);
        place_is_distant(g.players.len(), from, m, clockwise);
        assert forall|i: usize| #[trigger] order.contains(i) <==> i < n && g.players[i as int].alive && first <= distance(
            n,
            from as int,
            i as int,
            clockwise,
        ) < upto by {
            if order.contains(i) {
                let k = choose|k: int| 0 <= k < order.len() && order[k] == i;
                if k < rest.len() {
                    assert(rest[k] == i);
                    assert(rest.contains(i));
                }
            }
            if i < n && g.players[i as int].alive && first <= distance(n, from as int, i as int, clockwise) < upto {
                if distance(n, from as int, i as int, clockwise) < m {
                    assert(rest.contains(i));
                    let k = choose|k: int| 0 <= k < rest.len() && rest[k] == i;
                    assert(order[k] == i);
                } else {
                    distance_leads_there(g.players.len(), from, i, clockwise);
                    assert(seat == i);
                    assert(order[order.len() - 1] == i);
                }
            }
        }
        assert forall|a: int, b: int| 0 <= a < b < order.len() implies distance(n, from as int, (#[trigger] order[a]) as int, clockwise) < distance(
            n,
            from as int,
            (#[trigger] order[b]) as int,
            clockwise,
        ) by {
            assert(rest[a] == order[a]);
            if b < rest.len() {
                assert(rest[b] == order[b]);
            } else {
                assert(rest.contains(rest[a]));
            }
        }
    }
}

/// The sheriff says which way round: the living speak in that order from the
/// sheriff's neighbour on, and the sheriff last.
pub proof fn the_talk_goes_round(g: WolfGameView, id: Seq<char>, i: usize, clockwise: bool)
    requires
        g.wf(),
        sits(g, id, i),
    ensures
        ({
            let r = g.direction_result(id, clockwise);
            let order = r->Ok_0.day_speech.order;
            &&& r is Ok <==> g.stage == WolfStage::SheriffPickDirection && g.sheriff_idx == Some(i)
            &&& r is Ok ==> r->Ok_0 == (WolfGameView {
                stage: WolfStage::DaySpeech,
                day_speech: SpeechesView { order, next: 0, said: Seq::empty() },
                ..g
            })
            &&& r is Ok ==> order.len() > 0 && order.last() == i && round_the_table(g, order.drop_last(), i, clockwise, 1)
        }),
{
    the_seat_is_found(g, id, i);
    let n = g.players.len();
    ring_goes_round(g, i, clockwise, 1, n);
    let part = ring(g.players, i, clockwise, 1, n);
    assert(part.push(i).drop_last() =~= part);
    within_the_table(g, i, clockwise);
}

proof fn within_the_table(g: WolfGameView, from: usize, clockwise: bool)
    requires
        g.wf(),
        from < g.players.len(),
    ensures
        forall|i: usize| i < g.players.len() ==> 0 <= #[trigger] distance(g.players.len() as int, from as int, i as int, clockwise) < g.players.len(),
{
    assert forall|i: usize| i < g.players.len() implies 0 <= #[trigger] distance(g.players.len() as int, from as int, i as int, clockwise)
        < g.players.len() by {
        distance_leads_there(g.players.len(), from, i, clockwise);
    }
}

/// Without a sheriff the living speak clockwise from the seat that was drawn.
pub proof fn the_talk_starts_somewhere(g: WolfGameView, start: usize)
    requires
        g.wf(),
    ensures
        ({
            let r = g.open_result(start);
            let order = r->Ok_0.day_speech.order;
            &&& r is Ok <==> g.stage == WolfStage::DayOpen && start < g.players.len()
            &&& r is Ok ==> r->Ok_0 == (WolfGameView {
                stage: WolfStage::DaySpeech,
                day_speech: SpeechesView { order, next: 0, said: Seq::empty() },
                ..g
            })
            &&& r is Ok ==> round_the_table(g, order, start, true, 0)
        }),
{
    if start < g.players.len() {
        ring_goes_round(g, start, true, 0, g.players.len());
        within_the_table(g, start, true);
    }
}

// ---- what is announced ----

/// Who shot comes first and whom they took comes last; so it is with who had the badge and
/// who has it now. Nobody else is named where nobody was chosen.
pub proof fn how_the_lines_name_people(a: Seq<char>, b: Seq<char>, day: u32)
    ensures
        ({
            let shot = shot_line(a, Some(b));
            let badge = badge_line(a, Some(b));
            &&& shot.len() > a.len() + b.len() && shot.take(a.len() as int) == a && shot.skip(shot.len() - b.len()) == b
            &&& badge.len() > a.len() + b.len() && badge.take(a.len() as int) == a && badge.skip(badge.len() - b.len()) == b
            &&& shot_line(a, None) == a + " 选择不开枪"@
            &&& badge_line(a, None) == a + " 撕毁了警徽"@
            &&& lynch_line(day, Some(b)) == "第 "@ + decimal(day as nat) + " 天："@ + (b + " 被放逐"@)
            &&& lynch_line(day, None) == "第 "@ + decimal(day as nat) + " 天："@ + "无人被放逐"@
        }),
{
    reveal_strlit(" 临死前开枪带走 ");
    reveal_strlit(" 把警徽移交给 ");
    let shot = shot_line(a, Some(b));
    let badge = badge_line(a, Some(b));
    assert(shot.take(a.len() as int) =~= a);
    assert(shot.skip(shot.len() - b.len()) =~= b);
    assert(badge.take(a.len() as int) =~= a);
    assert(badge.skip(badge.len() - b.len()) =~= b);
}

} // verus!
