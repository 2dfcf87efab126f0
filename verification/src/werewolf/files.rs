//! What the players have on file about each other, and what one is told of oneself.

use vstd::prelude::*;
use vstd::string::*;
use crate::text::decimal;
use super::model::{RecapView, WolfGameView};
use super::view::{cause_text, death_text, seat_text, statements, view_of, PublicModel};
use super::{DeathCause, Role};

verus! {

/// Whether a text ends with another.
pub open spec fn ends_with(s: Seq<char>, tail: Seq<char>) -> bool {
    s.len() >= tail.len() && s.skip(s.len() - tail.len()) == tail
}

/// Whether one more line came behind the others, and ends like this.
pub open spec fn one_line_more(before: Seq<Seq<char>>, after: Seq<Seq<char>>, tail: Seq<char>) -> bool {
    after.len() == before.len() + 1 && after.drop_last() == before && ends_with(after.last(), tail)
}

proof fn ends_behind(a: Seq<char>, tail: Seq<char>)
    ensures
        ends_with(a + tail, tail),
{
    assert((a + tail).skip(a.len() as int) =~= tail);
}

proof fn a_seat_ends_with_its_name(a: Seq<char>, seat: usize, name: Seq<char>)
    ensures
        ends_with(a + seat_text(seat, name), name),
{
    ends_behind(a + (decimal(seat as nat) + " 号 "@), name);
    assert(a + seat_text(seat, name) =~= a + (decimal(seat as nat) + " 号 "@) + name);
}

/// The file on a player holds what they said in public, in order and in full, and nobody
/// else's words.
pub proof fn speeches_are_put_on_file(v: PublicModel, log: Seq<RecapView>, day: u32, night: bool, player: usize, text: Seq<char>, seat: usize)
    ensures
        ({
            let before = v.lines_on(log, seat);
            let with = |e: RecapView| v.lines_on(log.push(e), seat);
            let put = |after: Seq<Seq<char>>| if player == seat { one_line_more(before, after, text) } else { after == before };
            &&& put(with(RecapView::SheriffSpeech { player, text }))
            &&& put(with(RecapView::SheriffSideSpeech { player, text }))
            &&& put(with(RecapView::DaySpeech { day, player, text }))
            &&& put(with(RecapView::LastWords { day, night, player, text }))
        }),
{
    one_more_event(v, log, RecapView::SheriffSpeech { player, text }, seat);
    one_more_event(v, log, RecapView::SheriffSideSpeech { player, text }, seat);
    one_more_event(v, log, RecapView::DaySpeech { day, player, text }, seat);
    one_more_event(v, log, RecapView::LastWords { day, night, player, text }, seat);
    ends_behind("【上警发言】"@, text);
    ends_behind("【警下发言】"@, text);
    ends_behind("【D"@ + decimal(day as nat) + " 发言】"@, text);
    ends_behind("【D"@ + decimal(day as nat) + (if night { " 夜遗言"@ } else { " 放逐遗言"@ }) + "】"@, text);
}

proof fn one_more_event(v: PublicModel, log: Seq<RecapView>, e: RecapView, seat: usize)
    ensures
        v.lines_on(log.push(e), seat) == (match v.public_line(e) {
            Some((s, line)) => if s == seat { v.lines_on(log, seat).push(line) } else { v.lines_on(log, seat) },
            None => v.lines_on(log, seat),
        }),
        v.public_line(e) matches Some((s, line)) ==> v.lines_on(log, seat).push(line).drop_last() == v.lines_on(log, seat),
        v.deaths_of(log.push(e), seat) == (match e {
            RecapView::Death { day, night, player, cause } => if player == seat {
                seq![death_text(day, night, cause)] + v.deaths_of(log, seat)
            } else {
                v.deaths_of(log, seat)
            },
            _ => v.deaths_of(log, seat),
        }),
{
    assert(log.push(e).drop_last() =~= log);
    if let Some((s, line)) = v.public_line(e) {
        assert(v.lines_on(log, seat).push(line).drop_last() =~= v.lines_on(log, seat));
    }
}

/// A vote is put on the voter's file, with the name of whoever it went to, once the votes
/// of that day have been counted and not before. A shot and the badge are put on the file
/// of whoever gave them.
pub proof fn choices_are_put_on_file(v: PublicModel, log: Seq<RecapView>, day: u32, who: usize, target: Option<usize>, seat: usize)
    ensures
        ({
            let before = v.lines_on(log, seat);
            let with = |e: RecapView| v.lines_on(log.push(e), seat);
            let put = |after: Seq<Seq<char>>, none: Seq<char>|
                if who == seat {
                    one_line_more(before, after, match target {
                        Some(t) => v.name(t),
                        None => none,
                    })
                } else {
                    after == before
                };
            let votes = with(RecapView::DayVoteCast { day, voter: who, target });
            let known = exists|t: Option<usize>| v.recap_log.contains(#[trigger] day_lynch(day, t));
            &&& known ==> put(votes, "弃权"@)
            &&& !known ==> votes == before
            &&& put(with(RecapView::HunterShot { day, shooter: who, target }), "选择不开枪"@)
            &&& put(with(RecapView::BadgePass { day, from: who, to: target }), "撕毁"@)
        }),
{
    one_more_event(v, log, RecapView::DayVoteCast { day, voter: who, target }, seat);
    one_more_event(v, log, RecapView::HunterShot { day, shooter: who, target }, seat);
    one_more_event(v, log, RecapView::BadgePass { day, from: who, to: target }, seat);
    let d = "【D"@ + decimal(day as nat);
    match target {
        Some(t) => {
            a_seat_ends_with_its_name(d + " 投票 →】"@, t, v.name(t));
            a_seat_ends_with_its_name(d + " 临死开枪】"@ + "带走 "@, t, v.name(t));
            a_seat_ends_with_its_name(d + " 警徽】"@ + "传给 "@, t, v.name(t));
            assert(d + " 临死开枪】"@ + ("带走 "@ + v.seat(t)) =~= d + " 临死开枪】"@ + "带走 "@ + v.seat(t));
            assert(d + " 警徽】"@ + ("传给 "@ + v.seat(t)) =~= d + " 警徽】"@ + "传给 "@ + v.seat(t));
        },
        None => {
            ends_behind(d + " 投票 →】"@, "弃权"@);
            ends_behind(d + " 临死开枪】"@, "选择不开枪"@);
            ends_behind(d + " 警徽】"@, "撕毁"@);
        },
    }
    if super::view::counted(v.recap_log, day) {
        let k = choose|k: int|
            0 <= k < v.recap_log.len() && (#[trigger] v.recap_log[k] matches RecapView::DayLynch { day: d, .. } && d == day);
        let t = v.recap_log[k]->DayLynch_target;
        assert(v.recap_log[k] == day_lynch(day, t));
        assert(v.recap_log.contains(day_lynch(day, t)));
    }
    if exists|t: Option<usize>| v.recap_log.contains(#[trigger] day_lynch(day, t)) {
        let t = choose|t: Option<usize>| v.recap_log.contains(#[trigger] day_lynch(day, t));
        let k = choose|k: int| 0 <= k < v.recap_log.len() && v.recap_log[k] == day_lynch(day, t);
        assert(v.recap_log[k] matches RecapView::DayLynch { day: d, .. } && d == day);
    }
}

/// The count of a day's votes.
pub open spec fn day_lynch(day: u32, target: Option<usize>) -> RecapView {
    RecapView::DayLynch { day, target }
}

/// A death is put on the file of whoever died, and on nobody else's. It does not tell the
/// wolves' victims of a night from the witch's; by day and by a shot the cause is told.
pub proof fn deaths_are_put_on_file(v: PublicModel, log: Seq<RecapView>, day: u32, night: bool, player: usize, cause: DeathCause, seat: usize)
    ensures
        ({
            let before = v.deaths_of(log, seat);
            let after = v.deaths_of(log.push(RecapView::Death { day, night, player, cause }), seat);
            &&& player == seat ==> after == seq![death_text(day, night, cause)] + before
            &&& player != seat ==> after == before
        }),
        death_text(day, true, DeathCause::WolfKill) == death_text(day, true, DeathCause::Poison),
        !night || cause == DeathCause::Shot || cause == DeathCause::Lynch ==> cause_text(cause, night) == cause.title(),
{
    one_more_event(v, log, RecapView::Death { day, night, player, cause }, seat);
}

/// What a player has said in public they are told, in order and in full, and nothing that
/// another said.
pub proof fn ones_own_words_are_kept(log: Seq<RecapView>, day: u32, night: bool, player: usize, text: Seq<char>, me: usize)
    ensures
        ({
            let before = statements(log, me);
            let with = |e: RecapView| statements(log.push(e), me);
            let put = |after: Seq<Seq<char>>| if player == me { one_line_more(before, after, text) } else { after == before };
            &&& put(with(RecapView::SheriffSpeech { player, text }))
            &&& put(with(RecapView::SheriffSideSpeech { player, text }))
            &&& put(with(RecapView::DaySpeech { day, player, text }))
            &&& put(with(RecapView::LastWords { day, night, player, text }))
        }),
{
    one_more_word(log, RecapView::SheriffSpeech { player, text }, me);
    one_more_word(log, RecapView::SheriffSideSpeech { player, text }, me);
    one_more_word(log, RecapView::DaySpeech { day, player, text }, me);
    one_more_word(log, RecapView::LastWords { day, night, player, text }, me);
    ends_behind("[上警发言] "@, text);
    ends_behind("[警下发言] "@, text);
    ends_behind("[第 "@ + decimal(day as nat) + " 天发言] "@, text);
    ends_behind("[遗言] "@, text);
}

proof fn one_more_word(log: Seq<RecapView>, e: RecapView, me: usize)
    ensures
        statements(log.push(e), me) == (match super::view::statement(e, me) {
            Some(s) => statements(log, me).push(s),
            None => statements(log, me),
        }),
        super::view::statement(e, me) matches Some(s) ==> statements(log, me).push(s).drop_last() == statements(log, me),
{
    assert(log.push(e).drop_last() =~= log);
    if let Some(s) = super::view::statement(e, me) {
        assert(statements(log, me).push(s).drop_last() =~= statements(log, me));
    }
}

/// A view tells the stage, the day and everybody's name and whether they live. Only the
/// seer sees the seer's checks, and only wolves see who else is one.
pub proof fn what_a_view_tells(g: WolfGameView, me: usize, k: int)
    requires
        g.wf(),
        me < g.players.len(),
        0 <= k < g.players.len(),
    ensures
        ({
            let v = view_of(g, me);
            let p = g.players[me as int];
            &&& v.day == g.day && v.stage_label == g.stage.title() && v.me_idx == me && v.me_name == p.name && v.persona == p.persona
            &&& v.players.len() == g.players.len()
            &&& v.players[k] == (k as usize, g.players[k].name, g.players[k].alive)
            &&& p.role is Some ==> v.me_role == p.role->0
            &&& p.role is Some && p.role != Some(Role::Seer) ==> v.seer_log.len() == 0
            &&& p.role == Some(Role::Seer) ==> v.seer_log.len() == g.seer_history.len() && forall|j: int|
                0 <= j < g.seer_history.len() ==> #[trigger] v.seer_log[j] == (
                    g.seer_history[j].day,
                    g.players[g.seer_history[j].target_idx as int].name,
                    g.seer_history[j].is_wolf,
                )
            &&& p.role is Some && p.role != Some(Role::Werewolf) && p.role != Some(Role::WolfKing) ==> v.teammates.len() == 0
            &&& v.event_log == g.event_log
        }),
{
}

} // verus!
