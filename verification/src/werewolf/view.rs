//! What an AI player is told of the game: what everybody knows, and of what is
//! secret only what is their own.

use vstd::prelude::*;
use vstd::string::*;
use crate::game::Persona;
use crate::text::{
    append_text, decimal, join, joined, no_texts, plus, plus_number, texts,
};
use super::model::{recap_view, RecapView, WolfGameView, WolfPlayerView};
use super::{DeathCause, RecapEvent, Role, SeerCheck, WolfGame};

verus! {

/// The game as one AI player sees it. It does not hold what the others are,
/// unless the player is a wolf and they are too.
pub struct PublicView<'a> {
    pub day: u32,
    pub stage_label: &'a str,
    pub me_idx: usize,
    pub me_name: &'a str,
    pub me_role: Role,
    pub persona: Option<Persona>,
    /// Seat, name, and whether they live.
    pub players: Vec<(usize, String, bool)>,
    /// The other wolves, for a wolf: seat, name and role.
    pub teammates: Vec<(usize, String, &'static str)>,
    /// The seer's own checks: day, name, and whether it was a wolf.
    pub seer_log: Vec<(u32, String, bool)>,
    /// What everybody has been told.
    pub event_log: &'a [String],
    /// All that this player has said in public, in order.
    pub my_statements: Vec<String>,
    /// All events, secret ones too; only the public ones are shown.
    pub recap_log: &'a [RecapEvent],
}

#[verifier::ext_equal]
pub struct PublicModel {
    pub day: u32,
    pub stage_label: Seq<char>,
    pub me_idx: usize,
    pub me_name: Seq<char>,
    pub me_role: Role,
    pub persona: Option<Persona>,
    pub players: Seq<(usize, Seq<char>, bool)>,
    pub teammates: Seq<(usize, Seq<char>, Seq<char>)>,
    pub seer_log: Seq<(u32, Seq<char>, bool)>,
    pub event_log: Seq<Seq<char>>,
    pub my_statements: Seq<Seq<char>>,
    pub recap_log: Seq<RecapView>,
}

pub open spec fn people_view(s: Seq<(usize, String, bool)>) -> Seq<(usize, Seq<char>, bool)> {
    s.map_values(|p: (usize, String, bool)| (p.0, p.1@, p.2))
}

pub open spec fn mates_view(s: Seq<(usize, String, &'static str)>) -> Seq<(usize, Seq<char>, Seq<char>)> {
    s.map_values(|p: (usize, String, &'static str)| (p.0, p.1@, p.2@))
}

pub open spec fn checks_view(s: Seq<(u32, String, bool)>) -> Seq<(u32, Seq<char>, bool)> {
    s.map_values(|p: (u32, String, bool)| (p.0, p.1@, p.2))
}

impl<'a> View for PublicView<'a> {
    type V = PublicModel;

    open spec fn view(&self) -> PublicModel {
        PublicModel {
            day: self.day,
            stage_label: self.stage_label@,
            me_idx: self.me_idx,
            me_name: self.me_name@,
            me_role: self.me_role,
            persona: self.persona,
            players: people_view(self.players@),
            teammates: mates_view(self.teammates@),
            seer_log: checks_view(self.seer_log@),
            event_log: texts(self.event_log@),
            my_statements: texts(self.my_statements@),
            recap_log: recap_view(self.recap_log@),
        }
    }
}

/// `3 号 Alice`.
pub open spec fn seat_text(seat: usize, name: Seq<char>) -> Seq<char> {
    decimal(seat as nat) + " 号 "@ + name
}

fn seat_label(seat: usize, name: &str) -> (r: String)
    ensures
        r@ == seat_text(seat, name@),
{
    plus(plus(plus_number(String::new(), seat as u64), " 号 "), name)
}

/// The players who live, or those who do not.
pub open spec fn roll(players: Seq<(usize, Seq<char>, bool)>, alive: bool) -> Seq<Seq<char>>
    decreases players.len(),
{
    if players.len() == 0 {
        Seq::empty()
    } else {
        let rest = roll(players.drop_last(), alive);
        if players.last().2 == alive { rest.push(seat_text(players.last().0, players.last().1)) } else { rest }
    }
}

fn call_roll(players: &Vec<(usize, String, bool)>, alive: bool) -> (r: Vec<String>)
    ensures
        texts(r@) == roll(people_view(players@), alive),
{
    let ghost all = people_view(players@);
    let mut out = no_texts();
    let mut i: usize = 0;
    assert(all.take(0) =~= Seq::empty());
    while i < players.len()
        invariant
            all == people_view(players@),
            i <= players@.len() == all.len(),
            texts(out@) == roll(all.take(i as int), alive),
        decreases players@.len() - i,
    {
        assert(all.take(i + 1).drop_last() =~= all.take(i as int));
        assert(all.take(i + 1).last() == all[i as int]);
        if players[i].2 == alive {
            append_text(&mut out, seat_label(players[i].0, players[i].1.as_str()));
        }
        i = i + 1;
    }
    assert(all.take(i as int) =~= all);
    out
}

pub open spec fn mate_text(m: (usize, Seq<char>, Seq<char>)) -> Seq<char> {
    seat_text(m.0, m.1) + " ("@ + m.2 + ")"@
}

fn mate_labels(mates: &Vec<(usize, String, &'static str)>) -> (r: Vec<String>)
    ensures
        texts(r@) == mates_view(mates@).map_values(|m: (usize, Seq<char>, Seq<char>)| mate_text(m)),
{
    let ghost want = mates_view(mates@).map_values(|m: (usize, Seq<char>, Seq<char>)| mate_text(m));
    let mut out = no_texts();
    let mut i: usize = 0;
    while i < mates.len()
        invariant
            want == mates_view(mates@).map_values(|m: (usize, Seq<char>, Seq<char>)| mate_text(m)),
            i <= mates@.len() == want.len(),
            texts(out@) =~= want.take(i as int),
        decreases mates@.len() - i,
    {
        let s = plus(seat_label(mates[i].0, mates[i].1.as_str()), " (");
        let s = plus(plus(s, mates[i].2), ")");
        assert(want.take(i + 1) =~= want.take(i as int).push(want[i as int]));
        append_text(&mut out, s);
        i = i + 1;
    }
    assert(want.take(i as int) =~= want);
    out
}

pub open spec fn side_text(is_wolf: bool) -> Seq<char> {
    if is_wolf { "狼人"@ } else { "好人"@ }
}

pub open spec fn check_text(c: (u32, Seq<char>, bool)) -> Seq<char> {
    "第 "@ + decimal(c.0 as nat) + " 夜 · "@ + c.1 + " → **"@ + side_text(c.2) + "**"@
}

fn check_labels(checks: &Vec<(u32, String, bool)>) -> (r: Vec<String>)
    ensures
        texts(r@) == checks_view(checks@).map_values(|c: (u32, Seq<char>, bool)| check_text(c)),
{
    let ghost want = checks_view(checks@).map_values(|c: (u32, Seq<char>, bool)| check_text(c));
    let mut out = no_texts();
    let mut i: usize = 0;
    while i < checks.len()
        invariant
            want == checks_view(checks@).map_values(|c: (u32, Seq<char>, bool)| check_text(c)),
            i <= checks@.len() == want.len(),
            texts(out@) =~= want.take(i as int),
        decreases checks@.len() - i,
    {
        let s = plus_number("第 ".to_owned(), checks[i].0 as u64);
        let s = plus(plus(plus(s, " 夜 · "), checks[i].1.as_str()), " → **");
        let s = plus(plus(s, if checks[i].2 { "狼人" } else { "好人" }), "**");
        assert(want.take(i + 1) =~= want.take(i as int).push(want[i as int]));
        append_text(&mut out, s);
        i = i + 1;
    }
    assert(want.take(i as int) =~= want);
    out
}

/// The lines, each indented and ended.
pub open spec fn indented(lines: Seq<Seq<char>>) -> Seq<char>
    decreases lines.len(),
{
    if lines.len() == 0 {
        Seq::empty()
    } else {
        indented(lines.drop_last()) + "  "@ + lines.last() + "\n"@
    }
}

fn indent(out: String, lines: &[String]) -> (r: String)
    ensures
        r@ == out@ + indented(texts(lines@)),
{
    let ghost all = texts(lines@);
    let ghost start = out@;
    let mut out = out;
    let mut i: usize = 0;
    assert(start + indented(all.take(0)) =~= start);
    while i < lines.len()
        invariant
            all == texts(lines@),
            i <= lines@.len() == all.len(),
            out@ == start + indented(all.take(i as int)),
        decreases lines@.len() - i,
    {
        assert(all.take(i + 1).drop_last() =~= all.take(i as int));
        assert(all.take(i + 1).last() == lines@[i as int]@);
        out = plus(plus(plus(out, "  "), lines[i].as_str()), "\n");
        assert(out@ =~= start + indented(all.take(i + 1)));
        i = i + 1;
    }
    assert(all.take(i as int) =~= all);
    out
}

/// The name at this seat.
pub open spec fn name_from(players: Seq<(usize, Seq<char>, bool)>, seat: usize, from: int) -> Option<Seq<char>>
    decreases players.len() - from,
{
    if from < 0 || from >= players.len() {
        None
    } else if players[from].0 == seat {
        Some(players[from].1)
    } else {
        name_from(players, seat, from + 1)
    }
}

/// Whether the vote of this day has been counted.
pub open spec fn counted(log: Seq<RecapView>, day: u32) -> bool {
    exists|k: int| 0 <= k < log.len() && (#[trigger] log[k] matches RecapView::DayLynch { day: d, .. } && d == day)
}

impl PublicModel {
    pub open spec fn name(self, seat: usize) -> Seq<char> {
        match name_from(self.players, seat, 0) {
            Some(n) => n,
            None => "?"@,
        }
    }

    pub open spec fn seat(self, seat: usize) -> Seq<char> {
        seat_text(seat, self.name(seat))
    }

    /// The line that an event adds to somebody's file, if it is public: who
    /// that is, and the line. What happens at night stays secret, and so do
    /// votes that have not been counted.
    pub open spec fn public_line(self, e: RecapView) -> Option<(usize, Seq<char>)> {
        match e {
            RecapView::SheriffSpeech { player, text } => Some((player, "【上警发言】"@ + text)),
            RecapView::SheriffSideSpeech { player, text } => Some((player, "【警下发言】"@ + text)),
            RecapView::DaySpeech { day, player, text } =>
                Some((player, "【D"@ + decimal(day as nat) + " 发言】"@ + text)),
            RecapView::DayVoteCast { day, voter, target } => if counted(self.recap_log, day) {
                let whom = match target {
                    Some(t) => self.seat(t),
                    None => "弃权"@,
                };
                Some((voter, "【D"@ + decimal(day as nat) + " 投票 →】"@ + whom))
            } else {
                None
            },
            RecapView::LastWords { day, night, player, text } => Some((
                player,
                "【D"@ + decimal(day as nat) + (if night { " 夜遗言"@ } else { " 放逐遗言"@ }) + "】"@ + text,
            )),
            RecapView::HunterShot { day, shooter, target } => {
                let whom = match target {
                    Some(t) => "带走 "@ + self.seat(t),
                    None => "选择不开枪"@,
                };
                Some((shooter, "【D"@ + decimal(day as nat) + " 临死开枪】"@ + whom))
            },
            RecapView::BadgePass { day, from, to } => {
                let whom = match to {
                    Some(t) => "传给 "@ + self.seat(t),
                    None => "撕毁"@,
                };
                Some((from, "【D"@ + decimal(day as nat) + " 警徽】"@ + whom))
            },
            _ => None,
        }
    }

    /// The public lines on one seat, from these events.
    pub open spec fn lines_on(self, log: Seq<RecapView>, seat: usize) -> Seq<Seq<char>>
        decreases log.len(),
    {
        if log.len() == 0 {
            Seq::empty()
        } else {
            let rest = self.lines_on(log.drop_last(), seat);
            match self.public_line(log.last()) {
                Some((s, line)) => if s == seat { rest.push(line) } else { rest },
                None => rest,
            }
        }
    }

    /// What is told of the deaths of one seat, the latest first.
    pub open spec fn deaths_of(self, log: Seq<RecapView>, seat: usize) -> Seq<Seq<char>>
        decreases log.len(),
    {
        if log.len() == 0 {
            Seq::empty()
        } else {
            let rest = self.deaths_of(log.drop_last(), seat);
            match log.last() {
                RecapView::Death { day, night, player, cause } => if player == seat {
                    seq![death_text(day, night, cause)] + rest
                } else {
                    rest
                },
                _ => rest,
            }
        }
    }

    /// The file on a seat: that they died comes first.
    pub open spec fn file(self, seat: usize) -> Seq<Seq<char>> {
        self.deaths_of(self.recap_log, seat) + self.lines_on(self.recap_log, seat)
    }

    /// Whether an earlier entry of the list is of the same seat as the `k`-th.
    pub open spec fn listed_before(self, k: int) -> bool {
        exists|j: int| 0 <= j < k && (#[trigger] self.players[j]).0 == self.players[k].0
    }

    /// What there is on the `k`-th player of the list: seat, name, whether they
    /// live, and the file on the seat, which the seat's first entry has.
    pub open spec fn dossier(self, k: int) -> (usize, Seq<char>, bool, Seq<Seq<char>>) {
        let p = self.players[k];
        (p.0, p.1, p.2, if self.listed_before(k) { Seq::empty() } else { self.file(p.0) })
    }

    /// What there is on the first `n` players of the list, by seat.
    pub open spec fn dossiers(self, n: nat) -> Seq<(usize, Seq<char>, bool, Seq<Seq<char>>)>
        decreases n,
    {
        if n == 0 {
            Seq::empty()
        } else {
            filed(self.dossiers((n - 1) as nat), self.dossier(n - 1))
        }
    }

    pub open spec fn dossier_text(self, d: (usize, Seq<char>, bool, Seq<Seq<char>>)) -> Seq<char> {
        if d.3.len() == 0 {
            Seq::empty()
        } else {
            "\n### "@ + seat_text(d.0, d.1) + "（"@ + (if d.2 { "存活"@ } else { "出局"@ }) + "）"@
                + (if d.0 == self.me_idx { "  ← 你"@ } else { ""@ }) + "\n"@ + indented(d.3)
        }
    }

    /// The dossiers as they are shown, one after the other.
    pub open spec fn files_text(self, all: Seq<(usize, Seq<char>, bool, Seq<Seq<char>>)>) -> Seq<char>
        decreases all.len(),
    {
        if all.len() == 0 {
            Seq::empty()
        } else {
            self.files_text(all.drop_last()) + self.dossier_text(all.last())
        }
    }

    pub open spec fn head_text(self) -> Seq<char> {
        "## 局面\n第 "@ + decimal(self.day as nat) + " 天 · 阶段："@ + self.stage_label + "\n你是 **"@
            + decimal(self.me_idx as nat) + " 号位 "@ + self.me_name + "**，身份 **"@ + self.me_role.title() + "**\n"@
            + "存活："@ + joined(roll(self.players, true), " · "@) + "\n"@
    }

    pub open spec fn out_text(self) -> Seq<char> {
        if roll(self.players, false).len() == 0 {
            Seq::empty()
        } else {
            "出局："@ + joined(roll(self.players, false), " · "@) + "\n"@
        }
    }

    pub open spec fn mates_text(self) -> Seq<char> {
        if self.teammates.len() == 0 {
            Seq::empty()
        } else {
            "【狼队友】"@ + joined(
                self.teammates.map_values(|m: (usize, Seq<char>, Seq<char>)| mate_text(m)),
                "、"@,
            ) + "\n"@
        }
    }

    pub open spec fn checks_text(self) -> Seq<char> {
        if self.seer_log.len() == 0 {
            Seq::empty()
        } else {
            "\n## 🔮 你的查验记录\n"@ + indented(self.seer_log.map_values(|c: (u32, Seq<char>, bool)| check_text(c)))
        }
    }

    pub open spec fn own_text(self) -> Seq<char> {
        if self.my_statements.len() == 0 {
            Seq::empty()
        } else {
            "\n## ⚡ 你之前的公开发言（保持一致！前后矛盾会暴露你）\n"@ + indented(self.my_statements)
        }
    }

    pub open spec fn dossiers_text(self) -> Seq<char> {
        let all = self.dossiers(self.players.len());
        if any_lines(all) {
            "\n## 📒 玩家档案（每人公开发言 + 投票轨迹，是判读真假的核心信号）\n"@ + self.files_text(all)
        } else {
            Seq::empty()
        }
    }

    pub open spec fn events_text(self) -> Seq<char> {
        if self.event_log.len() == 0 {
            Seq::empty()
        } else {
            "\n## 📜 事件历史（按时间）\n"@ + indented(self.event_log)
        }
    }

    /// All that the player is told.
    pub open spec fn text(self) -> Seq<char> {
        self.head_text() + self.out_text() + self.mates_text() + self.checks_text() + self.own_text()
            + self.dossiers_text() + self.events_text()
    }
}

/// The dossiers with one more, behind those of the same and of earlier seats.
pub open spec fn filed(
    all: Seq<(usize, Seq<char>, bool, Seq<Seq<char>>)>,
    d: (usize, Seq<char>, bool, Seq<Seq<char>>),
) -> Seq<(usize, Seq<char>, bool, Seq<Seq<char>>)>
    decreases all.len(),
{
    if all.len() == 0 || all.last().0 <= d.0 {
        all.push(d)
    } else {
        filed(all.drop_last(), d).push(all.last())
    }
}

/// Whether there is anything on anybody.
pub open spec fn any_lines(all: Seq<(usize, Seq<char>, bool, Seq<Seq<char>>)>) -> bool {
    exists|i: int| 0 <= i < all.len() && (#[trigger] all[i]).3.len() > 0
}

pub open spec fn dossier_view(d: (usize, String, bool, Vec<String>)) -> (usize, Seq<char>, bool, Seq<Seq<char>>) {
    (d.0, d.1@, d.2, texts(d.3@))
}

pub open spec fn dossiers_view(
    all: Seq<(usize, String, bool, Vec<String>)>,
) -> Seq<(usize, Seq<char>, bool, Seq<Seq<char>>)> {
    all.map_values(|d: (usize, String, bool, Vec<String>)| dossier_view(d))
}

/// Put a dossier behind those of the same and of earlier seats.
fn file_dossier(all: &mut Vec<(usize, String, bool, Vec<String>)>, d: (usize, String, bool, Vec<String>))
    ensures
        dossiers_view(final(all)@) == filed(dossiers_view(old(all)@), dossier_view(d)),
{
    let ghost before = dossiers_view(all@);
    let ghost view = dossier_view(d);
    let mut pos: usize = all.len();
    assert(before.take(pos as int) =~= before);
    assert(before.skip(pos as int) =~= Seq::empty());
    while pos > 0 && all[pos - 1].0 > d.0
        invariant
            before == dossiers_view(all@),
            view == dossier_view(d),
            pos <= all@.len(),
            filed(before, view) =~= filed(before.take(pos as int), view) + before.skip(pos as int),
        decreases pos,
    {
        let ghost t = before.take(pos as int);
        assert(t.last() == before[pos - 1]);
        assert(t.drop_last() =~= before.take(pos - 1));
        assert(before.skip(pos - 1) =~= seq![before[pos - 1]] + before.skip(pos as int));
        pos = pos - 1;
    }
    proof {
        if pos > 0 {
            assert(before.take(pos as int).last() == before[pos - 1]);
        }
        assert(filed(before.take(pos as int), view) =~= before.take(pos as int).push(view));
    }
    all.insert(pos, d);
    assert(dossiers_view(all@) =~= before.take(pos as int).push(view) + before.skip(pos as int));
}

/// What is said of a cause of death. Whether the wolves or the witch struck at
/// night is not told.
pub open spec fn cause_text(cause: DeathCause, night: bool) -> Seq<char> {
    if night && (cause == DeathCause::WolfKill || cause == DeathCause::Poison) {
        "夜里死亡"@
    } else {
        cause.title()
    }
}

pub open spec fn death_text(day: u32, night: bool, cause: DeathCause) -> Seq<char> {
    "☠ 【D"@ + decimal(day as nat) + (if night { " 夜"@ } else { " 白天"@ }) + "】"@ + cause_text(cause, night)
}

/// What is said of a cause of death. Deaths by the vote and by a shot are
/// public, by day and by night; who struck at night is not.
pub fn cause_label_for_view(cause: DeathCause, night: bool) -> (r: &'static str)
    ensures
        r@ == cause_text(cause, night),
{
    if night {
        match cause {
            DeathCause::WolfKill | DeathCause::Poison => "夜里死亡",
            _ => cause.label(),
        }
    } else {
        cause.label()
    }
}

impl<'a> PublicView<'a> {
    /// The name at this seat.
    pub fn player_name(&self, seat: usize) -> (r: Option<&str>)
        ensures
            match r {
                Some(n) => name_from(self@.players, seat, 0) == Some(n@),
                None => name_from(self@.players, seat, 0) is None,
            },
    {
        let mut i: usize = 0;
        while i < self.players.len()
            invariant
                i <= self.players@.len(),
                name_from(self@.players, seat, 0) == name_from(self@.players, seat, i as int),
            decreases self.players@.len() - i,
        {
            assert(self@.players[i as int].1 == self.players@[i as int].1@);
            if self.players[i].0 == seat {
                return Some(self.players[i].1.as_str());
            }
            i = i + 1;
        }
        None
    }

    fn seat_name(&self, seat: usize) -> (r: String)
        ensures
            r@ == self@.seat(seat),
    {
        match self.player_name(seat) {
            Some(n) => seat_label(seat, n),
            None => seat_label(seat, "?"),
        }
    }

    /// Whether the vote of this day has been counted.
    fn is_counted(&self, day: u32) -> (r: bool)
        ensures
            r == counted(self@.recap_log, day),
    {
        let mut i: usize = 0;
        while i < self.recap_log.len()
            invariant
                i <= self.recap_log@.len(),
                forall|k: int| 0 <= k < i ==> !(#[trigger] self@.recap_log[k] matches RecapView::DayLynch { day: d, .. } && d == day),
            decreases self.recap_log@.len() - i,
        {
            assert(self@.recap_log[i as int] == self.recap_log@[i as int]@);
            if let RecapEvent::DayLynch { day: d, .. } = &self.recap_log[i] {
                if *d == day {
                    return true;
                }
            }
            i = i + 1;
        }
        false
    }

    /// The line that an event adds to somebody's file, if it is public.
    fn event_line(&self, e: &RecapEvent) -> (r: Option<(usize, String)>)
        ensures
            match r {
                Some((s, line)) => self@.public_line(e@) == Some((s, line@)),
                None => self@.public_line(e@) is None,
            },
    {
        match e {
            RecapEvent::SheriffSpeech { player, text } => Some((*player, plus("【上警发言】".to_owned(), text.as_str()))),
            RecapEvent::SheriffSideSpeech { player, text } => Some((*player, plus("【警下发言】".to_owned(), text.as_str()))),
            RecapEvent::DaySpeech { day, player, text } => {
                let s = plus_number("【D".to_owned(), *day as u64);
                Some((*player, plus(plus(s, " 发言】"), text.as_str())))
            },
            RecapEvent::DayVoteCast { day, voter, target } => {
                if !self.is_counted(*day) {
                    // The votes of the day are still secret.
                    return None;
                }
                let whom = match target {
                    Some(t) => self.seat_name(*t),
                    None => "弃权".to_owned(),
                };
                let s = plus_number("【D".to_owned(), *day as u64);
                Some((*voter, plus(plus(s, " 投票 →】"), whom.as_str())))
            },
            RecapEvent::LastWords { day, night, player, text } => {
                let s = plus_number("【D".to_owned(), *day as u64);
                let s = plus(s, if *night { " 夜遗言" } else { " 放逐遗言" });
                Some((*player, plus(plus(s, "】"), text.as_str())))
            },
            RecapEvent::HunterShot { day, shooter, target } => {
                let whom = match target {
                    Some(t) => plus("带走 ".to_owned(), self.seat_name(*t).as_str()),
                    None => "选择不开枪".to_owned(),
                };
                let s = plus_number("【D".to_owned(), *day as u64);
                Some((*shooter, plus(plus(s, " 临死开枪】"), whom.as_str())))
            },
            RecapEvent::BadgePass { day, from, to } => {
                let whom = match to {
                    Some(t) => plus("传给 ".to_owned(), self.seat_name(*t).as_str()),
                    None => "撕毁".to_owned(),
                };
                let s = plus_number("【D".to_owned(), *day as u64);
                Some((*from, plus(plus(s, " 警徽】"), whom.as_str())))
            },
            // What the guard, the wolves, the seer and the witch do is secret.
            _ => None,
        }
    }

    /// The file on one seat.
    fn build_file(&self, seat: usize) -> (r: Vec<String>)
        ensures
            texts(r@) == self@.file(seat),
    {
        let ghost all = self@.recap_log;
        let mut lines = no_texts();
        let mut i: usize = 0;
        assert(all.take(0) =~= Seq::empty());
        while i < self.recap_log.len()
            invariant
                all == self@.recap_log,
                i <= self.recap_log@.len() == all.len(),
                texts(lines@) == self@.lines_on(all.take(i as int), seat),
            decreases self.recap_log@.len() - i,
        {
            assert(all.take(i + 1).drop_last() =~= all.take(i as int));
            assert(all.take(i + 1).last() == self.recap_log@[i as int]@);
            if let Some((s, line)) = self.event_line(&self.recap_log[i]) {
                if s == seat {
                    append_text(&mut lines, line);
                }
            }
            i = i + 1;
        }
        assert(all.take(i as int) =~= all);
        let ghost on = self@.lines_on(all, seat);
        let mut i: usize = 0;
        assert(self@.deaths_of(all.take(0), seat) + on =~= on);
        while i < self.recap_log.len()
            invariant
                all == self@.recap_log,
                i <= self.recap_log@.len() == all.len(),
                texts(lines@) == self@.deaths_of(all.take(i as int), seat) + on,
            decreases self.recap_log@.len() - i,
        {
            assert(all.take(i + 1).drop_last() =~= all.take(i as int));
            assert(all.take(i + 1).last() == self.recap_log@[i as int]@);
            if let RecapEvent::Death { day, night, player, cause } = &self.recap_log[i] {
                if *player == seat {
                    let s = plus_number("☠ 【D".to_owned(), *day as u64);
                    let s = plus(s, if *night { " 夜" } else { " 白天" });
                    let s = plus(plus(s, "】"), cause_label_for_view(*cause, *night));
                    let ghost before = texts(lines@);
                    let ghost line = s@;
                    lines.insert(0, s);
                    proof {
                        assert(line == death_text(*day, *night, *cause));
                        assert(texts(lines@) =~= seq![line] + before);
                        assert(texts(lines@) =~= self@.deaths_of(all.take(i + 1), seat) + on);
                    }
                }
            }
            i = i + 1;
        }
        assert(all.take(i as int) =~= all);
        lines
    }

    /// Whether an earlier entry of the list is of the same seat as the `k`-th.
    fn is_listed_before(&self, k: usize) -> (r: bool)
        requires
            k < self@.players.len(),
        ensures
            r == self@.listed_before(k as int),
    {
        let mut j: usize = 0;
        while j < k
            invariant
                j <= k < self.players@.len() == self@.players.len(),
                forall|l: int| 0 <= l < j ==> (#[trigger] self@.players[l]).0 != self@.players[k as int].0,
            decreases k - j,
        {
            if self.players[j].0 == self.players[k].0 {
                assert(self@.players[j as int].0 == self@.players[k as int].0);
                return true;
            }
            j = j + 1;
        }
        false
    }

    /// The files on all seats, by seat: what each has said and voted in public,
    /// that they died, passed the badge or shot.
    pub fn build_dossiers(&self) -> (r: Vec<(usize, String, bool, Vec<String>)>)
        ensures
            dossiers_view(r@) == self@.dossiers(self@.players.len()),
    {
        let mut out: Vec<(usize, String, bool, Vec<String>)> = Vec::new();
        let mut i: usize = 0;
        assert(dossiers_view(out@) =~= Seq::empty());
        while i < self.players.len()
            invariant
                i <= self.players@.len() == self@.players.len(),
                dossiers_view(out@) == self@.dossiers(i as nat),
            decreases self.players@.len() - i,
        {
            let seat = self.players[i].0;
            let lines = if self.is_listed_before(i) { no_texts() } else { self.build_file(seat) };
            let d = (seat, self.players[i].1.clone(), self.players[i].2, lines);
            assert(dossier_view(d) == self@.dossier(i as int));
            file_dossier(&mut out, d);
            i = i + 1;
        }
        out
    }

    fn render_file(&self, out: String, d: &(usize, String, bool, Vec<String>)) -> (r: String)
        ensures
            r@ == out@ + self@.dossier_text(dossier_view(*d)),
    {
        assert(texts(d.3@).len() == d.3@.len());
        let s = if d.3.len() > 0 {
            let s = plus("\n### ".to_owned(), seat_label(d.0, d.1.as_str()).as_str());
            let s = plus(plus(plus(s, "（"), if d.2 { "存活" } else { "出局" }), "）");
            let s = plus(plus(s, if d.0 == self.me_idx { "  ← 你" } else { "" }), "\n");
            indent(s, d.3.as_slice())
        } else {
            String::new()
        };
        assert(s@ =~= self@.dossier_text(dossier_view(*d)));
        plus(out, s.as_str())
    }

    fn render_dossiers(&self, out: String) -> (r: String)
        ensures
            r@ == out@ + self@.dossiers_text(),
    {
        let dossiers = self.build_dossiers();
        let ghost all = dossiers_view(dossiers@);
        let mut any = false;
        let mut i: usize = 0;
        while i < dossiers.len()
            invariant
                all == dossiers_view(dossiers@),
                i <= dossiers@.len() == all.len(),
                any == any_lines(all.take(i as int)),
            decreases dossiers@.len() - i,
        {
            assert(texts(dossiers@[i as int].3@).len() == dossiers@[i as int].3@.len());
            let ghost had = any;
            let ghost now = all.take(i + 1);
            assert(now[i as int] == dossier_view(dossiers@[i as int]));
            if dossiers[i].3.len() > 0 {
                any = true;
                assert(now[i as int].3.len() > 0);
            }
            proof {
                if had {
                    let k = choose|k: int| 0 <= k < i && (#[trigger] all.take(i as int)[k]).3.len() > 0;
                    assert(now[k].3.len() > 0);
                }
                if any_lines(now) && !had {
                    let k = choose|k: int| 0 <= k < now.len() && (#[trigger] now[k]).3.len() > 0;
                    if k < i {
                        assert(all.take(i as int)[k].3.len() > 0);
                    }
                }
            }
            i = i + 1;
        }
        assert(all.take(i as int) =~= all);
        if !any {
            assert(out@ + self@.dossiers_text() =~= out@);
            return out;
        }
        let ghost start = out@ + "\n## 📒 玩家档案（每人公开发言 + 投票轨迹，是判读真假的核心信号）\n"@;
        let mut out = plus(out, "\n## 📒 玩家档案（每人公开发言 + 投票轨迹，是判读真假的核心信号）\n");
        let mut i: usize = 0;
        assert(start + self@.files_text(all.take(0)) =~= start);
        while i < dossiers.len()
            invariant
                all == dossiers_view(dossiers@),
                i <= dossiers@.len() == all.len(),
                out@ == start + self@.files_text(all.take(i as int)),
            decreases dossiers@.len() - i,
        {
            let ghost before = out@;
            out = self.render_file(out, &dossiers[i]);
            assert(all.take(i + 1).drop_last() =~= all.take(i as int));
            assert(all.take(i + 1).last() == dossier_view(dossiers@[i as int]));
            assert(out@ =~= start + self@.files_text(all.take(i + 1)));
            i = i + 1;
        }
        assert(all.take(i as int) =~= all);
        assert(out@ =~= start + self@.files_text(all));
        out
    }

    fn render_head(&self) -> (r: String)
        ensures
            r@ == self@.head_text() + self@.out_text() + self@.mates_text(),
    {
        let s = plus_number("## 局面\n第 ".to_owned(), self.day as u64);
        let s = plus(plus(plus(s, " 天 · 阶段："), self.stage_label), "\n你是 **");
        let s = plus(plus(plus_number(s, self.me_idx as u64), " 号位 "), self.me_name);
        let s = plus(plus(plus(s, "**，身份 **"), self.me_role.label()), "**\n");
        let alive = call_roll(&self.players, true);
        let dead = call_roll(&self.players, false);
        let mut s = plus(plus(plus(s, "存活："), join(&alive, " · ").as_str()), "\n");
        assert(s@ =~= self@.head_text());
        assert(texts(dead@).len() == dead@.len());
        if dead.len() > 0 {
            s = plus(plus(plus(s, "出局："), join(&dead, " · ").as_str()), "\n");
        }
        assert(s@ =~= self@.head_text() + self@.out_text());
        if self.teammates.len() > 0 {
            let names = mate_labels(&self.teammates);
            s = plus(plus(plus(s, "【狼队友】"), join(&names, "、").as_str()), "\n");
        }
        assert(s@ =~= self@.head_text() + self@.out_text() + self@.mates_text());
        s
    }

    /// All that the player is told.
    pub fn render(&self) -> (r: String)
        ensures
            r@ == self@.text(),
    {
        let mut out = self.render_head();
        let ghost g0 = out@;
        if self.seer_log.len() > 0 {
            out = plus(out, "\n## 🔮 你的查验记录\n");
            let checks = check_labels(&self.seer_log);
            out = indent(out, checks.as_slice());
        }
        assert(out@ =~= g0 + self@.checks_text());
        let ghost g1 = out@;
        assert(texts(self.my_statements@).len() == self.my_statements@.len());
        if self.my_statements.len() > 0 {
            out = plus(out, "\n## ⚡ 你之前的公开发言（保持一致！前后矛盾会暴露你）\n");
            out = indent(out, self.my_statements.as_slice());
        }
        assert(out@ =~= g1 + self@.own_text());
        out = self.render_dossiers(out);
        let ghost g2 = out@;
        assert(texts(self.event_log@).len() == self.event_log@.len());
        if self.event_log.len() > 0 {
            out = plus(out, "\n## 📜 事件历史（按时间）\n");
            out = indent(out, self.event_log);
        }
        assert(out@ =~= g2 + self@.events_text());
        out
    }
}

/// The wolves but for the one at `me`.
pub open spec fn mates_of(players: Seq<WolfPlayerView>, me: usize) -> Seq<(usize, Seq<char>, Seq<char>)>
    decreases players.len(),
{
    if players.len() == 0 {
        Seq::empty()
    } else {
        let rest = mates_of(players.drop_last(), me);
        let p = players.last();
        if p.wolf() && players.len() - 1 != me {
            rest.push(((players.len() - 1) as usize, p.name, p.role->0.title()))
        } else {
            rest
        }
    }
}

/// What the player at `me` has said in public.
pub open spec fn statements(log: Seq<RecapView>, me: usize) -> Seq<Seq<char>>
    decreases log.len(),
{
    if log.len() == 0 {
        Seq::empty()
    } else {
        let rest = statements(log.drop_last(), me);
        match statement(log.last(), me) {
            Some(s) => rest.push(s),
            None => rest,
        }
    }
}

pub open spec fn statement(e: RecapView, me: usize) -> Option<Seq<char>> {
    match e {
        RecapView::SheriffSpeech { player, text } => if player == me { Some("[上警发言] "@ + text) } else { None },
        RecapView::SheriffSideSpeech { player, text } => if player == me { Some("[警下发言] "@ + text) } else { None },
        RecapView::DaySpeech { day, player, text } => if player == me {
            Some("[第 "@ + decimal(day as nat) + " 天发言] "@ + text)
        } else {
            None
        },
        RecapView::LastWords { player, text, .. } => if player == me { Some("[遗言] "@ + text) } else { None },
        _ => None,
    }
}

/// The game as the player at `me` sees it.
pub open spec fn view_of(g: WolfGameView, me: usize) -> PublicModel {
    let p = g.players[me as int];
    let role = p.role->0;
    PublicModel {
        day: g.day,
        stage_label: g.stage.title(),
        me_idx: me,
        me_name: p.name,
        me_role: role,
        persona: p.persona,
        players: Seq::new(g.players.len(), |k: int| (k as usize, g.players[k].name, g.players[k].alive)),
        teammates: if role.wolf() { mates_of(g.players, me) } else { Seq::empty() },
        seer_log: if role == Role::Seer {
            g.seer_history.map_values(|c: SeerCheck| (c.day, g.players[c.target_idx as int].name, c.is_wolf))
        } else {
            Seq::empty()
        },
        event_log: g.event_log,
        my_statements: statements(g.recap_log, me),
        recap_log: g.recap_log,
    }
}

fn read_statement(e: &RecapEvent, me: usize) -> (r: Option<String>)
    ensures
        match r {
            Some(s) => statement(e@, me) == Some(s@),
            None => statement(e@, me) is None,
        },
{
    match e {
        RecapEvent::SheriffSpeech { player, text } => if *player == me {
            Some(plus("[上警发言] ".to_owned(), text.as_str()))
        } else {
            None
        },
        RecapEvent::SheriffSideSpeech { player, text } => if *player == me {
            Some(plus("[警下发言] ".to_owned(), text.as_str()))
        } else {
            None
        },
        RecapEvent::DaySpeech { day, player, text } => if *player == me {
            let s = plus_number("[第 ".to_owned(), *day as u64);
            Some(plus(plus(s, " 天发言] "), text.as_str()))
        } else {
            None
        },
        RecapEvent::LastWords { player, text, .. } => if *player == me {
            Some(plus("[遗言] ".to_owned(), text.as_str()))
        } else {
            None
        },
        _ => None,
    }
}

fn list_players(game: &WolfGame) -> (r: Vec<(usize, String, bool)>)
    requires
        game@.wf(),
    ensures
        people_view(r@) == Seq::new(
            game@.players.len(),
            |k: int| (k as usize, game@.players[k].name, game@.players[k].alive),
        ),
{
    let ghost want = Seq::new(
        game@.players.len(),
        |k: int| (k as usize, game@.players[k].name, game@.players[k].alive),
    );
    let mut out: Vec<(usize, String, bool)> = Vec::new();
    let mut i: usize = 0;
    while i < game.players.len()
        invariant
            want == Seq::new(
                game@.players.len(),
                |k: int| (k as usize, game@.players[k].name, game@.players[k].alive),
            ),
            i <= game.players@.len() == game@.players.len(),
            people_view(out@) =~= want.take(i as int),
        decreases game.players@.len() - i,
    {
        assert(want.take(i + 1) =~= want.take(i as int).push(want[i as int]));
        let ghost before = out@;
        out.push((i, game.players[i].name.clone(), game.players[i].alive));
        assert(people_view(out@) =~= people_view(before).push(want[i as int]));
        i = i + 1;
    }
    assert(want.take(i as int) =~= want);
    out
}

fn list_mates(game: &WolfGame, me: usize) -> (r: Vec<(usize, String, &'static str)>)
    requires
        game@.wf(),
    ensures
        mates_view(r@) == mates_of(game@.players, me),
{
    let ghost all = game@.players;
    let mut out: Vec<(usize, String, &'static str)> = Vec::new();
    let mut i: usize = 0;
    assert(mates_view(out@) =~= mates_of(all.take(0), me));
    while i < game.players.len()
        invariant
            all == game@.players,
            i <= game.players@.len() == all.len(),
            mates_view(out@) == mates_of(all.take(i as int), me),
        decreases game.players@.len() - i,
    {
        assert(all.take(i + 1).drop_last() =~= all.take(i as int));
        assert(all.take(i + 1).last() == game.players@[i as int]@);
        if let Some(role) = game.players[i].role {
            if role.is_wolf() && i != me {
                let ghost before = out@;
                out.push((i, game.players[i].name.clone(), role.label()));
                assert(mates_view(out@) =~= mates_view(before).push((i, all[i as int].name, role.title())));
            }
        }
        i = i + 1;
    }
    assert(all.take(i as int) =~= all);
    out
}

fn list_checks(game: &WolfGame) -> (r: Vec<(u32, String, bool)>)
    requires
        game@.wf(),
    ensures
        checks_view(r@) == game@.seer_history.map_values(
            |c: SeerCheck| (c.day, game@.players[c.target_idx as int].name, c.is_wolf),
        ),
{
    let ghost want = game@.seer_history.map_values(
        |c: SeerCheck| (c.day, game@.players[c.target_idx as int].name, c.is_wolf),
    );
    let mut out: Vec<(u32, String, bool)> = Vec::new();
    let mut i: usize = 0;
    while i < game.seer_history.len()
        invariant
            game@.wf(),
            want == game@.seer_history.map_values(
                |c: SeerCheck| (c.day, game@.players[c.target_idx as int].name, c.is_wolf),
            ),
            i <= game.seer_history@.len() == want.len(),
            checks_view(out@) =~= want.take(i as int),
        decreases game.seer_history@.len() - i,
    {
        let c = game.seer_history[i];
        assert(game@.seer_history[i as int].target_idx < game@.players.len());
        assert(want.take(i + 1) =~= want.take(i as int).push(want[i as int]));
        let ghost before = out@;
        out.push((c.day, game.players[c.target_idx].name.clone(), c.is_wolf));
        assert(checks_view(out@) =~= checks_view(before).push(want[i as int]));
        i = i + 1;
    }
    assert(want.take(i as int) =~= want);
    out
}

fn list_statements(log: &Vec<RecapEvent>, me: usize) -> (r: Vec<String>)
    ensures
        texts(r@) == statements(recap_view(log@), me),
{
    let ghost all = recap_view(log@);
    let mut out = no_texts();
    let mut i: usize = 0;
    assert(all.take(0) =~= Seq::empty());
    while i < log.len()
        invariant
            all == recap_view(log@),
            i <= log@.len() == all.len(),
            texts(out@) == statements(all.take(i as int), me),
        decreases log@.len() - i,
    {
        assert(all.take(i + 1).drop_last() =~= all.take(i as int));
        assert(all.take(i + 1).last() == log@[i as int]@);
        if let Some(s) = read_statement(&log[i], me) {
            append_text(&mut out, s);
        }
        i = i + 1;
    }
    assert(all.take(i as int) =~= all);
    out
}

/// The game as the AI player at `ai_idx` sees it.
pub fn build_view<'a>(game: &'a WolfGame, ai_idx: usize) -> (r: PublicView<'a>)
    requires
        game@.wf(),
        ai_idx < game@.players.len(),
        game@.players[ai_idx as int].role is Some,
    ensures
        r@ == view_of(game@, ai_idx),
{
    let p = &game.players[ai_idx];
    assert(game@.players[ai_idx as int] == p@);
    let role = match p.role {
        Some(r) => r,
        None => Role::Villager,
    };
    let view = PublicView {
        day: game.day,
        stage_label: game.stage.label(),
        me_idx: ai_idx,
        me_name: p.name.as_str(),
        me_role: role,
        persona: p.persona,
        players: list_players(game),
        teammates: if role.is_wolf() { list_mates(game, ai_idx) } else { Vec::new() },
        seer_log: if role == Role::Seer { list_checks(game) } else { Vec::new() },
        event_log: game.event_log.as_slice(),
        my_statements: list_statements(&game.recap_log, ai_idx),
        recap_log: game.recap_log.as_slice(),
    };
    assert(view@ =~= view_of(game@, ai_idx));
    view
}

/// What only those who did it know.
pub open spec fn secret(e: RecapView) -> bool {
    match e {
        RecapView::GuardPick { .. } => true,
        RecapView::WolfTarget { .. } => true,
        RecapView::SeerCheck { .. } => true,
        RecapView::WitchAct { .. } => true,
        _ => false,
    }
}

/// Two views that have the same on every seat and differ in nothing else that
/// is told tell the same.
proof fn same_dossiers(v: PublicModel, w: PublicModel, n: nat)
    requires
        w == (PublicModel { recap_log: w.recap_log, ..v }),
        forall|seat: usize| #[trigger] w.file(seat) == v.file(seat),
        n <= v.players.len(),
    ensures
        w.dossiers(n) == v.dossiers(n),
    decreases n,
{
    if n > 0 {
        same_dossiers(v, w, (n - 1) as nat);
        assert(w.listed_before(n - 1) == v.listed_before(n - 1));
        assert(w.file(w.players[n - 1].0) == v.file(v.players[n - 1].0));
    }
}

proof fn same_files_text(v: PublicModel, w: PublicModel, all: Seq<(usize, Seq<char>, bool, Seq<Seq<char>>)>)
    requires
        w.me_idx == v.me_idx,
    ensures
        w.files_text(all) == v.files_text(all),
    decreases all.len(),
{
    if all.len() > 0 {
        same_files_text(v, w, all.drop_last());
    }
}

proof fn same_text_told(v: PublicModel, w: PublicModel)
    requires
        w == (PublicModel { recap_log: w.recap_log, ..v }),
        forall|seat: usize| #[trigger] w.file(seat) == v.file(seat),
    ensures
        w.text() == v.text(),
{
    same_dossiers(v, w, v.players.len());
    same_files_text(v, w, v.dossiers(v.players.len()));
}

/// What there is on the players is told by seat.
pub proof fn dossiers_come_by_seat(v: PublicModel, n: nat)
    requires
        n <= v.players.len(),
    ensures
        v.dossiers(n).len() == n,
        forall|i: int, j: int| 0 <= i < j < n ==> (#[trigger] v.dossiers(n)[i]).0 <= (#[trigger] v.dossiers(n)[j]).0,
        forall|k: int| 0 <= k < n ==> v.dossiers(n).contains(#[trigger] v.dossier(k)),
    decreases n,
{
    if n > 0 {
        let before = v.dossiers((n - 1) as nat);
        dossiers_come_by_seat(v, (n - 1) as nat);
        filed_facts(before, v.dossier(n - 1));
        assert forall|k: int| 0 <= k < n implies v.dossiers(n).contains(#[trigger] v.dossier(k)) by {
            if k < n - 1 {
                assert(before.contains(v.dossier(k)));
            }
        }
    }
}

proof fn filed_facts(
    all: Seq<(usize, Seq<char>, bool, Seq<Seq<char>>)>,
    d: (usize, Seq<char>, bool, Seq<Seq<char>>),
)
    requires
        forall|i: int, j: int| 0 <= i < j < all.len() ==> (#[trigger] all[i]).0 <= (#[trigger] all[j]).0,
    ensures
        filed(all, d).len() == all.len() + 1,
        forall|x: (usize, Seq<char>, bool, Seq<Seq<char>>)| all.contains(x) || x == d <==> #[trigger] filed(all, d).contains(x),
        forall|i: int, j: int| 0 <= i < j < filed(all, d).len() ==> (#[trigger] filed(all, d)[i]).0 <= (#[trigger] filed(all, d)[j]).0,
    decreases all.len(),
{
    let after = filed(all, d);
    if all.len() == 0 || all.last().0 <= d.0 {
        assert(after[all.len() as int] == d);
        assert forall|x: (usize, Seq<char>, bool, Seq<Seq<char>>)| all.contains(x) || x == d implies #[trigger] after.contains(x) by {
            if x != d {
                let k = choose|k: int| 0 <= k < all.len() && all[k] == x;
                assert(after[k] == x);
            }
        }
        assert forall|i: int, j: int| 0 <= i < j < after.len() implies (#[trigger] after[i]).0 <= (#[trigger] after[j]).0 by {
            if j == all.len() {
                assert(all[i].0 <= all[all.len() - 1].0 || i == all.len() - 1);
            }
        }
    } else {
        let rest = all.drop_last();
        filed_facts(rest, d);
        let inner = filed(rest, d);
        assert(after[inner.len() as int] == all.last());
        assert(all.last() == all[all.len() - 1]);
        assert forall|x: (usize, Seq<char>, bool, Seq<Seq<char>>)| all.contains(x) || x == d <==> #[trigger] after.contains(x) by {
            if all.contains(x) || x == d {
                if x != all.last() {
                    if x != d {
                        let k = choose|k: int| 0 <= k < all.len() && all[k] == x;
                        assert(rest[k] == x);
                    }
                    assert(inner.contains(x));
                    let k = choose|k: int| 0 <= k < inner.len() && inner[k] == x;
                    assert(after[k] == x);
                }
            }
            if after.contains(x) {
                let k = choose|k: int| 0 <= k < after.len() && after[k] == x;
                if k < inner.len() {
                    assert(inner[k] == x);
                    assert(inner.contains(x));
                    if x != d {
                        let l = choose|l: int| 0 <= l < rest.len() && rest[l] == x;
                        assert(all[l] == x);
                    }
                }
            }
        }
        assert forall|i: int, j: int| 0 <= i < j < after.len() implies (#[trigger] after[i]).0 <= (#[trigger] after[j]).0 by {
            assert(after[i] == inner[i]);
            if j < inner.len() {
                assert(after[j] == inner[j]);
            } else {
                assert(inner.contains(inner[i]));
                if inner[i] != d {
                    let l = choose|l: int| 0 <= l < rest.len() && rest[l] == inner[i];
                    assert(all[l].0 <= all[all.len() - 1].0);
                }
            }
        }
    }
}

/// What the guard, the wolves, the seer and the witch do at night shows in
/// nobody's file, and nobody is told anything else for it.
pub proof fn the_night_is_secret(v: PublicModel, e: RecapView)
    requires
        secret(e),
    ensures
        ({
            let w = PublicModel { recap_log: v.recap_log.push(e), ..v };
            &&& forall|seat: usize| #[trigger] w.file(seat) == v.file(seat)
            &&& w.text() == v.text()
        }),
{
    let w = PublicModel { recap_log: v.recap_log.push(e), ..v };
    assert(w.recap_log.drop_last() =~= v.recap_log);
    assert forall|day: u32| #[trigger] counted(w.recap_log, day) == counted(v.recap_log, day) by {
        if counted(v.recap_log, day) {
            let k = choose|k: int| 0 <= k < v.recap_log.len() && (#[trigger] v.recap_log[k] matches RecapView::DayLynch { day: d, .. } && d == day);
            assert(w.recap_log[k] == v.recap_log[k]);
        }
        if counted(w.recap_log, day) {
            let k = choose|k: int| 0 <= k < w.recap_log.len() && (#[trigger] w.recap_log[k] matches RecapView::DayLynch { day: d, .. } && d == day);
            assert(k < v.recap_log.len());
            assert(w.recap_log[k] == v.recap_log[k]);
        }
    }
    assert forall|seat: usize| #[trigger] w.file(seat) == v.file(seat) by {
        same_lines(v, w, v.recap_log, seat);
        assert(w.lines_on(w.recap_log, seat) == w.lines_on(v.recap_log, seat));
        assert(w.deaths_of(w.recap_log, seat) == w.deaths_of(v.recap_log, seat));
    }
    same_text_told(v, w);
}

proof fn same_lines(v: PublicModel, w: PublicModel, log: Seq<RecapView>, seat: usize)
    requires
        v.players == w.players,
        forall|day: u32| #[trigger] counted(w.recap_log, day) == counted(v.recap_log, day),
    ensures
        w.lines_on(log, seat) == v.lines_on(log, seat),
        w.deaths_of(log, seat) == v.deaths_of(log, seat),
    decreases log.len(),
{
    if log.len() > 0 {
        same_lines(v, w, log.drop_last(), seat);
        assert(w.public_line(log.last()) == v.public_line(log.last()));
    }
}

/// A vote of a day that has not been counted shows in nobody's file, and nobody
/// is told anything else for it: who votes later cannot look at it.
pub proof fn a_vote_is_secret_until_it_counts(v: PublicModel, day: u32, voter: usize, target: Option<usize>)
    requires
        !counted(v.recap_log, day),
    ensures
        ({
            let e = RecapView::DayVoteCast { day, voter, target };
            let w = PublicModel { recap_log: v.recap_log.push(e), ..v };
            &&& forall|seat: usize| #[trigger] w.file(seat) == v.file(seat)
            &&& w.text() == v.text()
        }),
{
    let e = RecapView::DayVoteCast { day, voter, target };
    let w = PublicModel { recap_log: v.recap_log.push(e), ..v };
    assert(w.recap_log.drop_last() =~= v.recap_log);
    assert forall|day: u32| #[trigger] counted(w.recap_log, day) == counted(v.recap_log, day) by {
        if counted(v.recap_log, day) {
            let k = choose|k: int| 0 <= k < v.recap_log.len() && (#[trigger] v.recap_log[k] matches RecapView::DayLynch { day: d, .. } && d == day);
            assert(w.recap_log[k] == v.recap_log[k]);
        }
        if counted(w.recap_log, day) {
            let k = choose|k: int| 0 <= k < w.recap_log.len() && (#[trigger] w.recap_log[k] matches RecapView::DayLynch { day: d, .. } && d == day);
            assert(k < v.recap_log.len());
            assert(w.recap_log[k] == v.recap_log[k]);
        }
    }
    assert forall|seat: usize| #[trigger] w.file(seat) == v.file(seat) by {
        same_lines(v, w, v.recap_log, seat);
        assert(w.lines_on(w.recap_log, seat) == w.lines_on(v.recap_log, seat));
        assert(w.deaths_of(w.recap_log, seat) == w.deaths_of(v.recap_log, seat));
    }
    same_text_told(v, w);
}

/// Of a death at night it is not told whether the wolves or the witch struck.
pub proof fn who_struck_is_secret(day: u32)
    ensures
        death_text(day, true, DeathCause::WolfKill) == death_text(day, true, DeathCause::Poison),
{
}

/// Whether an event of this log is not shown: what was done at night, and votes
/// that have not been counted.
pub open spec fn hidden(log: Seq<RecapView>, e: RecapView) -> bool {
    secret(e) || (e matches RecapView::DayVoteCast { day, .. } && !counted(log, day))
}

/// The events of `part` that are shown, `log` being all that happened.
pub open spec fn shown(log: Seq<RecapView>, part: Seq<RecapView>) -> Seq<RecapView>
    decreases part.len(),
{
    if part.len() == 0 {
        Seq::empty()
    } else {
        let rest = shown(log, part.drop_last());
        if hidden(log, part.last()) { rest } else { rest.push(part.last()) }
    }
}

proof fn lines_are_shown(v: PublicModel, part: Seq<RecapView>, seat: usize)
    ensures
        v.lines_on(shown(v.recap_log, part), seat) == v.lines_on(part, seat),
        v.deaths_of(shown(v.recap_log, part), seat) == v.deaths_of(part, seat),
        statements(shown(v.recap_log, part), seat) == statements(part, seat),
    decreases part.len(),
{
    if part.len() > 0 {
        let rest = part.drop_last();
        let all = shown(v.recap_log, part);
        lines_are_shown(v, rest, seat);
        if !hidden(v.recap_log, part.last()) {
            assert(all.drop_last() =~= shown(v.recap_log, rest));
            assert(all.last() == part.last());
        }
    }
}

proof fn counts_are_shown(log: Seq<RecapView>, part: Seq<RecapView>, day: u32)
    ensures
        counted(shown(log, part), day) == counted(part, day),
    decreases part.len(),
{
    if part.len() > 0 {
        let rest = part.drop_last();
        let some = shown(log, rest);
        let all = shown(log, part);
        counts_are_shown(log, rest, day);
        if counted(part, day) {
            let k = choose|k: int| 0 <= k < part.len() && (#[trigger] part[k] matches RecapView::DayLynch { day: d, .. } && d == day);
            if k < rest.len() {
                assert(rest[k] == part[k]);
                assert(counted(rest, day));
                let j = choose|j: int| 0 <= j < some.len() && (#[trigger] some[j] matches RecapView::DayLynch { day: d, .. } && d == day);
                assert(all[j] == some[j]);
            } else {
                assert(all[some.len() as int] == part[k]);
            }
        }
        if counted(all, day) {
            let j = choose|j: int| 0 <= j < all.len() && (#[trigger] all[j] matches RecapView::DayLynch { day: d, .. } && d == day);
            if j < some.len() {
                assert(some[j] == all[j]);
                assert(counted(some, day));
                let k = choose|k: int| 0 <= k < rest.len() && (#[trigger] rest[k] matches RecapView::DayLynch { day: d, .. } && d == day);
                assert(part[k] == rest[k]);
            } else {
                assert(part[part.len() - 1] == all[j]);
            }
        }
    }
}

/// Two views tell the same if they differ in nothing but what was done at night
/// and in votes that have not been counted.
pub proof fn what_is_hidden_does_not_show(v: PublicModel, w: PublicModel)
    requires
        w == (PublicModel { recap_log: w.recap_log, ..v }),
        shown(v.recap_log, v.recap_log) == shown(w.recap_log, w.recap_log),
    ensures
        forall|seat: usize| #[trigger] w.file(seat) == v.file(seat),
        w.text() == v.text(),
{
    let log = shown(v.recap_log, v.recap_log);
    assert forall|day: u32| #[trigger] counted(w.recap_log, day) == counted(v.recap_log, day) by {
        counts_are_shown(v.recap_log, v.recap_log, day);
        counts_are_shown(w.recap_log, w.recap_log, day);
    }
    assert forall|seat: usize| #[trigger] w.file(seat) == v.file(seat) by {
        lines_are_shown(v, v.recap_log, seat);
        lines_are_shown(w, w.recap_log, seat);
        same_lines(v, w, log, seat);
    }
    same_text_told(v, w);
}

/// A player who is neither a wolf nor the seer is told the same whatever the
/// others are: two games that differ only in the roles of the others, in what
/// the seer found out, in what was done at night and in votes that have not been
/// counted look alike to them.
pub proof fn a_view_hides_the_roles(g: WolfGameView, h: WolfGameView, me: usize)
    requires
        g.wf(),
        h.wf(),
        me < g.players.len(),
        g.players[me as int] == h.players[me as int],
        g.players[me as int].role is Some,
        !g.players[me as int].role->0.wolf(),
        g.players[me as int].role->0 != Role::Seer,
        g.players.len() == h.players.len(),
        forall|i: int| 0 <= i < g.players.len() ==> (#[trigger] g.players[i]).name == h.players[i].name
            && g.players[i].alive == h.players[i].alive,
        g.day == h.day,
        g.stage == h.stage,
        g.event_log == h.event_log,
        shown(g.recap_log, g.recap_log) == shown(h.recap_log, h.recap_log),
    ensures
        view_of(g, me).text() == view_of(h, me).text(),
{
    let v = view_of(g, me);
    let w = view_of(h, me);
    assert(v.players =~= w.players);
    lines_are_shown(v, v.recap_log, me);
    lines_are_shown(w, w.recap_log, me);
    assert(w =~= PublicModel { recap_log: w.recap_log, ..v });
    what_is_hidden_does_not_show(v, w);
}

/// A wolf is shown every other wolf, the wolf king too.
pub proof fn wolves_know_each_other(players: Seq<WolfPlayerView>, me: usize, i: int)
    requires
        players.len() <= 12,
        0 <= i < players.len(),
        i != me,
        players[i].wolf(),
    ensures
        mates_of(players, me).contains((i as usize, players[i].name, players[i].role->0.title())),
    decreases players.len(),
{
    let want = (i as usize, players[i].name, players[i].role->0.title());
    let rest = players.drop_last();
    if i < rest.len() {
        assert(rest[i] == players[i]);
        wolves_know_each_other(rest, me, i);
        let k = choose|k: int| 0 <= k < mates_of(rest, me).len() && mates_of(rest, me)[k] == want;
        assert(mates_of(players, me)[k] == want);
    } else {
        assert(mates_of(players, me).last() == want);
    }
}

} // verus!
