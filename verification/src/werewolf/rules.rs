//! The rules of the werewolf game: what each move does to it.

use vstd::prelude::*;
use crate::text::{decimal, joined};
use super::model::{
    living, living_wolves, role_seat, winner, wolf_seat, RecapView, SpeechesView, WolfGameView, WolfPlayerView,
};
use super::{DeathCause, Role, SeerCheck, WolfError, WolfStage};

verus! {

// ---- votes ----

/// How many wolves want this player dead.
pub open spec fn wanted(votes: Seq<(usize, usize)>, target: usize) -> nat
    decreases votes.len(),
{
    if votes.len() == 0 {
        0
    } else {
        wanted(votes.drop_last(), target) + (if votes.last().1 == target { 1nat } else { 0nat })
    }
}

/// Whom the most wolves want dead, counting the choices in `votes` and looking
/// at the first `k` of them; of several the one who was named first.
pub open spec fn most_wanted(votes: Seq<(usize, usize)>, k: nat) -> Option<usize>
    decreases k,
{
    if k == 0 || k > votes.len() {
        None
    } else {
        let t = votes[k - 1].1;
        match most_wanted(votes, (k - 1) as nat) {
            Some(best) => if wanted(votes, t) > wanted(votes, best) { Some(t) } else { Some(best) },
            None => Some(t),
        }
    }
}

/// The choices but for those of one wolf.
pub open spec fn without_wolf(votes: Seq<(usize, usize)>, wolf: usize) -> Seq<(usize, usize)>
    decreases votes.len(),
{
    if votes.len() == 0 {
        Seq::empty()
    } else {
        let rest = without_wolf(votes.drop_last(), wolf);
        if votes.last().0 != wolf { rest.push(votes.last()) } else { rest }
    }
}

/// What a vote counts: one and a half times as much if it is the sheriff's.
pub open spec fn weight(voter: usize, sheriff: Option<usize>) -> nat {
    if sheriff == Some(voter) { 3 } else { 2 }
}

/// What the votes for this player count together.
pub open spec fn poll(votes: Seq<(usize, Option<usize>)>, sheriff: Option<usize>, target: usize) -> nat
    decreases votes.len(),
{
    if votes.len() == 0 {
        0
    } else {
        poll(votes.drop_last(), sheriff, target) + (if votes.last().1 == Some(target) {
            weight(votes.last().0, sheriff)
        } else {
            0nat
        })
    }
}

/// Whether the player has votes, and more than anybody else.
pub open spec fn ahead(votes: Seq<(usize, Option<usize>)>, sheriff: Option<usize>, target: usize) -> bool {
    &&& poll(votes, sheriff, target) > 0
    &&& forall|u: usize| u != target ==> poll(votes, sheriff, u) < poll(votes, sheriff, target)
}

/// Whom the votes single out: nobody where two are level.
pub open spec fn singled_out(votes: Seq<(usize, Option<usize>)>, sheriff: Option<usize>) -> Option<usize> {
    if exists|t: usize| ahead(votes, sheriff, t) {
        Some(choose|t: usize| ahead(votes, sheriff, t))
    } else {
        None
    }
}

/// Whether the voter has voted.
pub open spec fn has_voted(votes: Seq<(usize, Option<usize>)>, voter: usize) -> bool {
    exists|k: int| 0 <= k < votes.len() && (#[trigger] votes[k]).0 == voter
}

/// Whether the player has said if they run.
pub open spec fn has_nominated(list: Seq<(usize, bool)>, seat: usize) -> bool {
    exists|k: int| 0 <= k < list.len() && (#[trigger] list[k]).0 == seat
}

/// Who runs, in the order in which they said so.
pub open spec fn runners(list: Seq<(usize, bool)>) -> Seq<usize>
    decreases list.len(),
{
    if list.len() == 0 {
        Seq::empty()
    } else if list.last().1 {
        runners(list.drop_last()).push(list.last().0)
    } else {
        runners(list.drop_last())
    }
}

/// Those of the seats that are not among the others.
pub open spec fn apart(seats: Seq<usize>, from: Seq<usize>) -> Seq<usize>
    decreases seats.len(),
{
    if seats.len() == 0 {
        Seq::empty()
    } else if !from.contains(seats.last()) {
        apart(seats.drop_last(), from).push(seats.last())
    } else {
        apart(seats.drop_last(), from)
    }
}

/// The seat `k` places on from `from` in a room of `n`, the one way round or
/// the other.
pub open spec fn place(n: nat, from: usize, k: nat, clockwise: bool) -> usize {
    if clockwise { ((from + k) % (n as int)) as usize } else { ((from + n - k) % (n as int)) as usize }
}

/// The living among the places `from + first` to `from + upto - 1`.
pub open spec fn ring(players: Seq<WolfPlayerView>, from: usize, clockwise: bool, first: nat, upto: nat) -> Seq<usize>
    decreases upto,
{
    if upto <= first {
        Seq::empty()
    } else {
        let rest = ring(players, from, clockwise, first, (upto - 1) as nat);
        let seat = place(players.len(), from, (upto - 1) as nat, clockwise);
        if players[seat as int].alive { rest.push(seat) } else { rest }
    }
}

// ---- what is announced ----

pub open spec fn names_of(players: Seq<WolfPlayerView>, seats: Seq<usize>) -> Seq<Seq<char>> {
    seats.map_values(|s: usize| players[s as int].name)
}

pub open spec fn dawn_line(day: u32, names: Seq<Seq<char>>) -> Seq<char> {
    "第 "@ + decimal(day as nat) + " 夜："@ + (if names.len() == 0 {
        "平安夜"@
    } else {
        joined(names, "、"@) + " 死亡"@
    })
}

pub open spec fn lynch_line(day: u32, name: Option<Seq<char>>) -> Seq<char> {
    "第 "@ + decimal(day as nat) + " 天："@ + (match name {
        Some(n) => n + " 被放逐"@,
        None => "无人被放逐"@,
    })
}

pub open spec fn shot_line(shooter: Seq<char>, target: Option<Seq<char>>) -> Seq<char> {
    match target {
        Some(t) => shooter + " 临死前开枪带走 "@ + t,
        None => shooter + " 选择不开枪"@,
    }
}

pub open spec fn badge_line(from: Seq<char>, to: Option<Seq<char>>) -> Seq<char> {
    match to {
        Some(t) => from + " 把警徽移交给 "@ + t,
        None => from + " 撕毁了警徽"@,
    }
}

impl WolfGameView {
    pub open spec fn name_at(self, seat: Option<usize>) -> Option<Seq<char>> {
        match seat {
            Some(i) => Some(self.players[i as int].name),
            None => None,
        }
    }

    pub open spec fn logged(self, e: RecapView) -> WolfGameView {
        WolfGameView { recap_log: self.recap_log.push(e), ..self }
    }

    pub open spec fn told(self, line: Seq<char>) -> WolfGameView {
        WolfGameView { event_log: self.event_log.push(line), ..self }
    }

    /// The seat that holds this role, if they live.
    pub open spec fn living_role(self, role: Role) -> bool {
        match role_seat(self.players, role, 0) {
            Some(i) => self.players[i as int].alive,
            None => false,
        }
    }

    /// Who acts under this id: they are seated and live.
    pub open spec fn player(self, id: Seq<char>) -> Result<usize, WolfError> {
        match wolf_seat(self.players, id, 0) {
            Some(i) => if self.players[i as int].alive { Ok(i) } else { Err(WolfError::NotYours) },
            None => Err(WolfError::NotSeated),
        }
    }

    /// Who acts in this role under this id.
    pub open spec fn holder(self, id: Seq<char>, role: Role) -> Result<usize, WolfError> {
        match self.player(id) {
            Ok(i) => if self.players[i as int].role == Some(role) { Ok(i) } else { Err(WolfError::NotYours) },
            Err(e) => Err(e),
        }
    }

    /// Which wolf acts under this id.
    pub open spec fn wolf_holder(self, id: Seq<char>) -> Result<usize, WolfError> {
        match self.player(id) {
            Ok(i) => if self.players[i as int].wolf() { Ok(i) } else { Err(WolfError::NotYours) },
            Err(e) => Err(e),
        }
    }

    /// Which living player is meant, where it may not be the one at `me`.
    pub open spec fn other_target(self, target: Seq<char>, me: usize) -> Result<usize, WolfError> {
        match self.actor(target) {
            Some(t) => if t != me { Ok(t) } else { Err(WolfError::BadTarget) },
            None => Err(WolfError::BadTarget),
        }
    }

    // ---- deaths ----

    /// A death. Those whom the wolves or the vote killed have last words, and a
    /// hunter or wolf king among them may shoot; a dead sheriff leaves the badge.
    pub open spec fn killed(self, i: usize, cause: DeathCause) -> WolfGameView {
        let open_death = cause == DeathCause::WolfKill || cause == DeathCause::Lynch;
        let p = self.players[i as int];
        let shooter = p.role == Some(Role::Hunter) || p.role == Some(Role::WolfKing);
        WolfGameView {
            players: self.players.update(i as int, WolfPlayerView { alive: false, ..p }),
            last_words: if open_death {
                SpeechesView { order: self.last_words.order.push(i), ..self.last_words }
            } else {
                self.last_words
            },
            pending_hunter: if open_death && shooter { Some(i) } else { self.pending_hunter },
            pending_badge: if self.sheriff_idx == Some(i) { Some(i) } else { self.pending_badge },
            recap_log: self.recap_log.push(
                RecapView::Death { day: self.day, night: self.at_dawn, player: i, cause },
            ),
            ..self
        }
    }

    /// Where the game goes once nothing more happens at night: nobody spoke
    /// yet, the dead are named, and it is dawn.
    pub open spec fn dawned(self) -> WolfGameView {
        WolfGameView { stage: WolfStage::DayReveal, ..self }.told(
            dawn_line(self.day, names_of(self.players, self.night_deaths)),
        )
    }

    pub open spec fn night_death(self, i: usize, cause: DeathCause) -> WolfGameView {
        let v = self.killed(i, cause);
        WolfGameView { night_deaths: v.night_deaths.push(i), ..v }
    }

    /// Whom the wolves kill in the end: their victim, unless either the guard
    /// or the witch protects them. Both at once cancel out.
    pub open spec fn struck(self, saved: bool) -> Option<usize> {
        match self.night_victim {
            Some(t) => if (self.guard_target == Some(t)) == saved { Some(t) } else { None },
            None => None,
        }
    }

    /// The night's deaths. Who is both struck and poisoned died of the poison.
    pub open spec fn dawn(self, saved: bool, poisoned: Option<usize>) -> WolfGameView {
        let v = WolfGameView {
            at_dawn: true,
            night_deaths: Seq::empty(),
            last_words: SpeechesView::fresh(Seq::empty()),
            ..self
        };
        let v = match self.struck(saved) {
            Some(t) => if poisoned != Some(t) { v.night_death(t, DeathCause::WolfKill) } else { v },
            None => v,
        };
        let v = match poisoned {
            Some(p) => v.night_death(p, DeathCause::Poison),
            None => v,
        };
        v.dawned()
    }

    // ---- what comes next ----

    /// The day's talk begins: the sheriff says which way round, or, where there
    /// is none, who starts is drawn.
    pub open spec fn daybreak(self) -> WolfGameView {
        WolfGameView {
            stage: if self.sheriff_idx is Some { WolfStage::SheriffPickDirection } else { WolfStage::DayOpen },
            day_speech: SpeechesView::fresh(Seq::empty()),
            day_votes: Seq::empty(),
            lynched: None,
            ..self
        }
    }

    /// What comes after deaths: last words, the shot, the badge; then somebody
    /// may have won; then the election or the day's talk in the morning, and
    /// the next night in the evening.
    pub open spec fn settled(self) -> WolfGameView {
        if self.last_words.speaker() is Some {
            WolfGameView { stage: WolfStage::LastWords, ..self }
        } else if self.pending_hunter is Some {
            WolfGameView { stage: WolfStage::HunterShoot, ..self }
        } else if self.pending_badge is Some {
            WolfGameView { stage: WolfStage::BadgePass, ..self }
        } else if winner(self.players) is Some {
            WolfGameView { stage: WolfStage::Ended, ..self }
        } else if self.at_dawn {
            if self.sheriff_done {
                self.daybreak()
            } else {
                WolfGameView { stage: WolfStage::SheriffNominate, ..self }
            }
        } else {
            WolfGameView { day: if self.day < u32::MAX { (self.day + 1) as u32 } else { self.day }, ..self }.night()
        }
    }

    // ---- the night's moves ----

    pub open spec fn guard_result(self, id: Seq<char>, target: Seq<char>) -> Result<WolfGameView, WolfError> {
        if self.stage != WolfStage::GuardPick {
            Err(WolfError::WrongStage)
        } else {
            match self.holder(id, Role::Guard) {
                Err(e) => Err(e),
                Ok(i) => match self.actor(target) {
                    None => Err(WolfError::BadTarget),
                    Some(t) => if self.last_guard_target == Some(t) {
                        Err(WolfError::GuardedLastNight)
                    } else {
                        Ok(
                            WolfGameView { guard_target: Some(t), stage: WolfStage::WolvesPick, ..self }.logged(
                                RecapView::GuardPick { day: self.day, target: t },
                            ),
                        )
                    },
                },
            }
        }
    }

    /// A dead guard protects nobody.
    pub open spec fn guard_skipped(self) -> Result<WolfGameView, WolfError> {
        if self.stage != WolfStage::GuardPick || self.living_role(Role::Guard) {
            Err(WolfError::WrongStage)
        } else {
            Ok(WolfGameView { stage: WolfStage::WolvesPick, ..self })
        }
    }

    pub open spec fn wolf_pick_result(self, id: Seq<char>, target: Seq<char>) -> Result<WolfGameView, WolfError> {
        if self.stage != WolfStage::WolvesPick {
            Err(WolfError::WrongStage)
        } else {
            match self.wolf_holder(id) {
                Err(e) => Err(e),
                Ok(w) => if self.wolf_ready.contains(w) {
                    Err(WolfError::Locked)
                } else {
                    match self.actor(target) {
                        None => Err(WolfError::BadTarget),
                        Some(t) => if self.players[t as int].wolf() {
                            Err(WolfError::BadTarget)
                        } else {
                            Ok(
                                WolfGameView {
                                    wolf_kill_votes: without_wolf(self.wolf_kill_votes, w).push((w, t)),
                                    ..self
                                },
                            )
                        },
                    }
                },
            }
        }
    }

    pub open spec fn wolf_say_result(self, id: Seq<char>, text: Seq<char>) -> Result<WolfGameView, WolfError> {
        if self.stage != WolfStage::WolvesPick {
            Err(WolfError::WrongStage)
        } else {
            match self.wolf_holder(id) {
                Err(e) => Err(e),
                Ok(w) => Ok(WolfGameView { wolf_chat: self.wolf_chat.push((w, text)), ..self }),
            }
        }
    }

    pub open spec fn wolf_ready_result(self, id: Seq<char>) -> Result<WolfGameView, WolfError> {
        if self.stage != WolfStage::WolvesPick {
            Err(WolfError::WrongStage)
        } else {
            match self.wolf_holder(id) {
                Err(e) => Err(e),
                Ok(w) => if self.wolf_ready.contains(w) {
                    Ok(self)
                } else {
                    Ok(WolfGameView { wolf_ready: self.wolf_ready.push(w), ..self })
                },
            }
        }
    }

    /// Every living wolf's choice stands.
    pub open spec fn pack_ready(self) -> bool {
        forall|k: int| 0 <= k < living_wolves(self.players).len() ==> self.wolf_ready.contains(
            #[trigger] living_wolves(self.players)[k],
        )
    }

    /// After the seer: the witch, if she lives.
    pub open spec fn after_seer(self) -> WolfGameView {
        if self.living_role(Role::Witch) {
            WolfGameView { stage: WolfStage::WitchAct, ..self }
        } else {
            self.dawn(false, None)
        }
    }

    pub open spec fn wolves_done_result(self) -> Result<WolfGameView, WolfError> {
        if self.stage != WolfStage::WolvesPick {
            Err(WolfError::WrongStage)
        } else {
            let t = most_wanted(self.wolf_kill_votes, self.wolf_kill_votes.len());
            let v = WolfGameView { night_victim: t, ..self }.logged(
                RecapView::WolfTarget { day: self.day, target: t },
            );
            if v.living_role(Role::Seer) {
                Ok(WolfGameView { stage: WolfStage::SeerPick, ..v })
            } else {
                Ok(v.after_seer())
            }
        }
    }

    pub open spec fn seer_result(self, id: Seq<char>, target: Seq<char>) -> Result<(WolfGameView, bool), WolfError> {
        if self.stage != WolfStage::SeerPick {
            Err(WolfError::WrongStage)
        } else {
            match self.holder(id, Role::Seer) {
                Err(e) => Err(e),
                Ok(i) => match self.other_target(target, i) {
                    Err(e) => Err(e),
                    Ok(t) => {
                        let is_wolf = self.players[t as int].wolf();
                        let v = WolfGameView {
                            seer_history: self.seer_history.push(SeerCheck { day: self.day, target_idx: t, is_wolf }),
                            ..self
                        }.logged(RecapView::SeerCheck { day: self.day, target: t, is_wolf });
                        Ok((v.after_seer(), is_wolf))
                    },
                },
            }
        }
    }

    pub open spec fn witch_result(self, id: Seq<char>, save: bool, poison: Option<Seq<char>>) -> Result<
        WolfGameView,
        WolfError,
    > {
        if self.stage != WolfStage::WitchAct {
            Err(WolfError::WrongStage)
        } else {
            match self.holder(id, Role::Witch) {
                Err(e) => Err(e),
                Ok(i) => if save && poison is Some {
                    Err(WolfError::OnlyOnePotion)
                } else if save {
                    if self.witch_save_used {
                        Err(WolfError::NoSavePotion)
                    } else if self.night_victim is None {
                        Err(WolfError::NobodyToSave)
                    } else {
                        Ok(self.witch_done(true, None))
                    }
                } else {
                    match poison {
                        None => Ok(self.witch_done(false, None)),
                        Some(target) => if self.witch_poison_used {
                            Err(WolfError::NoPoison)
                        } else {
                            match self.other_target(target, i) {
                                Err(e) => Err(e),
                                Ok(t) => Ok(self.witch_done(false, Some(t))),
                            }
                        },
                    }
                },
            }
        }
    }

    pub open spec fn witch_done(self, saved: bool, poisoned: Option<usize>) -> WolfGameView {
        WolfGameView {
            witch_save_used: self.witch_save_used || saved,
            witch_poison_used: self.witch_poison_used || poisoned is Some,
            ..self
        }.logged(RecapView::WitchAct { day: self.day, saved, poisoned }).dawn(saved, poisoned)
    }

    // ---- after deaths ----

    pub open spec fn reveal_result(self) -> Result<WolfGameView, WolfError> {
        if self.stage != WolfStage::DayReveal { Err(WolfError::WrongStage) } else { Ok(self.settled()) }
    }

    pub open spec fn last_words_result(self, id: Seq<char>, text: Seq<char>) -> Result<WolfGameView, WolfError> {
        if self.stage != WolfStage::LastWords {
            Err(WolfError::WrongStage)
        } else {
            match self.turn(self.last_words, id) {
                Err(e) => Err(e),
                Ok(i) => {
                    let v = WolfGameView { last_words: self.last_words.spoken(text), ..self };
                    Ok(
                        if text.len() > 0 {
                            v.logged(RecapView::LastWords { day: self.day, night: self.at_dawn, player: i, text })
                        } else {
                            v
                        },
                    )
                },
            }
        }
    }

    /// Whether it is the id's turn to speak.
    pub open spec fn turn(self, s: SpeechesView, id: Seq<char>) -> Result<usize, WolfError> {
        match wolf_seat(self.players, id, 0) {
            None => Err(WolfError::NotSeated),
            Some(i) => if s.speaker() == Some(i) { Ok(i) } else { Err(WolfError::NotYourTurn) },
        }
    }

    pub open spec fn last_words_done_result(self) -> Result<WolfGameView, WolfError> {
        if self.stage != WolfStage::LastWords {
            Err(WolfError::WrongStage)
        } else if self.last_words.speaker() is Some {
            Err(WolfError::Unfinished)
        } else {
            Ok(self.settled())
        }
    }

    /// Whether the thing to be settled is the id's.
    pub open spec fn pending(self, who: Option<usize>, id: Seq<char>) -> Result<usize, WolfError> {
        match wolf_seat(self.players, id, 0) {
            None => Err(WolfError::NotSeated),
            Some(i) => if who == Some(i) { Ok(i) } else { Err(WolfError::NotYours) },
        }
    }

    pub open spec fn shot(self, i: usize, target: Option<usize>) -> WolfGameView {
        let v = WolfGameView { pending_hunter: None, ..self }.logged(
            RecapView::HunterShot { day: self.day, shooter: i, target },
        ).told(shot_line(self.players[i as int].name, self.name_at(target)));
        (match target {
            Some(t) => v.killed(t, DeathCause::Shot),
            None => v,
        }).settled()
    }

    pub open spec fn hunter_result(self, id: Seq<char>, target: Option<Seq<char>>) -> Result<
        (WolfGameView, Option<usize>),
        WolfError,
    > {
        if self.stage != WolfStage::HunterShoot {
            Err(WolfError::WrongStage)
        } else {
            match self.pending(self.pending_hunter, id) {
                Err(e) => Err(e),
                Ok(i) => match target {
                    None => Ok((self.shot(i, None), None)),
                    Some(target) => match self.other_target(target, i) {
                        Err(e) => Err(e),
                        Ok(t) => Ok((self.shot(i, Some(t)), Some(t))),
                    },
                },
            }
        }
    }

    pub open spec fn badge_passed(self, i: usize, target: Option<usize>) -> WolfGameView {
        WolfGameView { pending_badge: None, sheriff_idx: target, ..self }.logged(
            RecapView::BadgePass { day: self.day, from: i, to: target },
        ).told(badge_line(self.players[i as int].name, self.name_at(target))).settled()
    }

    pub open spec fn badge_result(self, id: Seq<char>, target: Option<Seq<char>>) -> Result<
        (WolfGameView, Option<usize>),
        WolfError,
    > {
        if self.stage != WolfStage::BadgePass {
            Err(WolfError::WrongStage)
        } else {
            match self.pending(self.pending_badge, id) {
                Err(e) => Err(e),
                Ok(i) => match target {
                    None => Ok((self.badge_passed(i, None), None)),
                    Some(target) => match self.other_target(target, i) {
                        Err(e) => Err(e),
                        Ok(t) => Ok((self.badge_passed(i, Some(t)), Some(t))),
                    },
                },
            }
        }
    }

    // ---- the sheriff ----

    pub open spec fn nominate_result(self, id: Seq<char>, run: bool) -> Result<WolfGameView, WolfError> {
        if self.stage != WolfStage::SheriffNominate {
            Err(WolfError::WrongStage)
        } else {
            match self.player(id) {
                Err(e) => Err(e),
                Ok(i) => if has_nominated(self.sheriff_nominations, i) {
                    Err(WolfError::AlreadyChosen)
                } else {
                    Ok(WolfGameView { sheriff_nominations: self.sheriff_nominations.push((i, run)), ..self })
                },
            }
        }
    }

    pub open spec fn all_nominated(self) -> bool {
        forall|i: int| 0 <= i < self.players.len() && (#[trigger] self.players[i]).alive ==> has_nominated(
            self.sheriff_nominations,
            i as usize,
        )
    }

    pub open spec fn candidates(self) -> Seq<usize> {
        runners(self.sheriff_nominations)
    }

    /// The election is over.
    pub open spec fn sheriff_chosen(self, sheriff: Option<usize>) -> WolfGameView {
        WolfGameView { sheriff_idx: sheriff, sheriff_done: true, ..self }.daybreak()
    }

    /// A single candidate is the sheriff; several make speeches.
    pub open spec fn nominated_result(self) -> Result<WolfGameView, WolfError> {
        if self.stage != WolfStage::SheriffNominate {
            Err(WolfError::WrongStage)
        } else if !self.all_nominated() {
            Err(WolfError::Unfinished)
        } else if self.candidates().len() == 0 {
            Ok(self.sheriff_chosen(None))
        } else if self.candidates().len() == 1 {
            Ok(self.sheriff_chosen(Some(self.candidates()[0])))
        } else {
            Ok(
                WolfGameView {
                    sheriff_speech: SpeechesView::fresh(self.candidates()),
                    stage: WolfStage::SheriffSpeech,
                    ..self
                },
            )
        }
    }

    pub open spec fn sheriff_speech_result(self, id: Seq<char>, text: Seq<char>) -> Result<WolfGameView, WolfError> {
        if self.stage != WolfStage::SheriffSpeech {
            Err(WolfError::WrongStage)
        } else {
            match self.turn(self.sheriff_speech, id) {
                Err(e) => Err(e),
                Ok(i) => {
                    let v = WolfGameView { sheriff_speech: self.sheriff_speech.spoken(text), ..self };
                    Ok(if text.len() > 0 { v.logged(RecapView::SheriffSpeech { player: i, text }) } else { v })
                },
            }
        }
    }

    pub open spec fn sheriff_speeches_done_result(self) -> Result<WolfGameView, WolfError> {
        if self.stage != WolfStage::SheriffSpeech {
            Err(WolfError::WrongStage)
        } else if self.sheriff_speech.speaker() is Some {
            Err(WolfError::Unfinished)
        } else {
            Ok(
                WolfGameView {
                    side_speech: SpeechesView::fresh(apart(living(self.players), self.candidates())),
                    stage: WolfStage::SheriffSideSpeech,
                    ..self
                },
            )
        }
    }

    pub open spec fn side_speech_result(self, id: Seq<char>, text: Seq<char>) -> Result<WolfGameView, WolfError> {
        if self.stage != WolfStage::SheriffSideSpeech {
            Err(WolfError::WrongStage)
        } else {
            match self.turn(self.side_speech, id) {
                Err(e) => Err(e),
                Ok(i) => {
                    let v = WolfGameView { side_speech: self.side_speech.spoken(text), ..self };
                    Ok(if text.len() > 0 { v.logged(RecapView::SheriffSideSpeech { player: i, text }) } else { v })
                },
            }
        }
    }

    pub open spec fn side_speeches_done_result(self) -> Result<WolfGameView, WolfError> {
        if self.stage != WolfStage::SheriffSideSpeech {
            Err(WolfError::WrongStage)
        } else if self.side_speech.speaker() is Some {
            Err(WolfError::Unfinished)
        } else {
            Ok(WolfGameView { sheriff_votes: Seq::empty(), stage: WolfStage::SheriffVote, ..self })
        }
    }

    pub open spec fn sheriff_vote_result(self, id: Seq<char>, target: Option<Seq<char>>) -> Result<
        WolfGameView,
        WolfError,
    > {
        if self.stage != WolfStage::SheriffVote {
            Err(WolfError::WrongStage)
        } else {
            match self.player(id) {
                Err(e) => Err(e),
                Ok(i) => if self.candidates().contains(i) {
                    Err(WolfError::NotYours)
                } else if has_voted(self.sheriff_votes, i) {
                    Err(WolfError::AlreadyChosen)
                } else {
                    match target {
                        None => Ok(WolfGameView { sheriff_votes: self.sheriff_votes.push((i, None)), ..self }),
                        Some(target) => match self.actor(target) {
                            Some(t) => if self.candidates().contains(t) {
                                Ok(WolfGameView { sheriff_votes: self.sheriff_votes.push((i, Some(t))), ..self })
                            } else {
                                Err(WolfError::BadTarget)
                            },
                            None => Err(WolfError::BadTarget),
                        },
                    }
                },
            }
        }
    }

    pub open spec fn all_sheriff_votes(self) -> bool {
        forall|i: int| 0 <= i < self.players.len() && (#[trigger] self.players[i]).alive && !self.candidates().contains(
            i as usize,
        ) ==> has_voted(self.sheriff_votes, i as usize)
    }

    pub open spec fn sheriff_votes_done_result(self) -> Result<WolfGameView, WolfError> {
        if self.stage != WolfStage::SheriffVote {
            Err(WolfError::WrongStage)
        } else if !self.all_sheriff_votes() {
            Err(WolfError::Unfinished)
        } else {
            Ok(self.sheriff_chosen(singled_out(self.sheriff_votes, None)))
        }
    }

    // ---- the day ----

    /// The day's speeches in this order.
    pub open spec fn talk(self, order: Seq<usize>) -> WolfGameView {
        WolfGameView { day_speech: SpeechesView::fresh(order), stage: WolfStage::DaySpeech, ..self }
    }

    /// The sheriff says which way round the table speaks, and speaks last.
    pub open spec fn direction_result(self, id: Seq<char>, clockwise: bool) -> Result<WolfGameView, WolfError> {
        if self.stage != WolfStage::SheriffPickDirection {
            Err(WolfError::WrongStage)
        } else {
            match self.pending(self.sheriff_idx, id) {
                Err(e) => Err(e),
                Ok(i) => Ok(self.talk(ring(self.players, i, clockwise, 1, self.players.len()).push(i))),
            }
        }
    }

    /// Without a sheriff the table speaks clockwise from some seat.
    pub open spec fn open_result(self, start: usize) -> Result<WolfGameView, WolfError> {
        if self.stage != WolfStage::DayOpen {
            Err(WolfError::WrongStage)
        } else if start >= self.players.len() {
            Err(WolfError::BadTarget)
        } else {
            Ok(self.talk(ring(self.players, start, true, 0, self.players.len())))
        }
    }

    pub open spec fn day_speech_result(self, id: Seq<char>, text: Seq<char>) -> Result<WolfGameView, WolfError> {
        if self.stage != WolfStage::DaySpeech {
            Err(WolfError::WrongStage)
        } else {
            match self.turn(self.day_speech, id) {
                Err(e) => Err(e),
                Ok(i) => {
                    let v = WolfGameView { day_speech: self.day_speech.spoken(text), ..self };
                    Ok(
                        if text.len() > 0 {
                            v.logged(RecapView::DaySpeech { day: self.day, player: i, text })
                        } else {
                            v
                        },
                    )
                },
            }
        }
    }

    pub open spec fn day_speeches_done_result(self) -> Result<WolfGameView, WolfError> {
        if self.stage != WolfStage::DaySpeech {
            Err(WolfError::WrongStage)
        } else if self.day_speech.speaker() is Some {
            Err(WolfError::Unfinished)
        } else {
            Ok(WolfGameView { day_votes: Seq::empty(), stage: WolfStage::DayVote, ..self })
        }
    }

    pub open spec fn vote_result(self, id: Seq<char>, target: Option<Seq<char>>) -> Result<WolfGameView, WolfError> {
        if self.stage != WolfStage::DayVote {
            Err(WolfError::WrongStage)
        } else {
            match self.player(id) {
                Err(e) => Err(e),
                Ok(i) => if has_voted(self.day_votes, i) {
                    Err(WolfError::AlreadyChosen)
                } else {
                    match target {
                        None => Ok(self.voted(i, None)),
                        Some(target) => match self.other_target(target, i) {
                            Err(e) => Err(e),
                            Ok(t) => Ok(self.voted(i, Some(t))),
                        },
                    }
                },
            }
        }
    }

    pub open spec fn voted(self, i: usize, target: Option<usize>) -> WolfGameView {
        WolfGameView { day_votes: self.day_votes.push((i, target)), ..self }.logged(
            RecapView::DayVoteCast { day: self.day, voter: i, target },
        )
    }

    pub open spec fn all_voted(self) -> bool {
        forall|i: int| 0 <= i < self.players.len() && (#[trigger] self.players[i]).alive ==> has_voted(
            self.day_votes,
            i as usize,
        )
    }

    pub open spec fn count_result(self) -> Result<WolfGameView, WolfError> {
        if self.stage != WolfStage::DayVote {
            Err(WolfError::WrongStage)
        } else if !self.all_voted() {
            Err(WolfError::Unfinished)
        } else {
            let t = singled_out(self.day_votes, self.sheriff_idx);
            Ok(
                WolfGameView { lynched: t, ..self }.logged(RecapView::DayLynch { day: self.day, target: t }).told(
                    lynch_line(self.day, self.name_at(t)),
                ),
            )
        }
    }

    pub open spec fn evening_result(self) -> Result<WolfGameView, WolfError> {
        if self.stage != WolfStage::DayVote {
            Err(WolfError::WrongStage)
        } else if !self.all_voted() {
            Err(WolfError::Unfinished)
        } else {
            let v = WolfGameView {
                at_dawn: false,
                last_words: SpeechesView::fresh(Seq::empty()),
                ..self
            };
            Ok(
                (match self.lynched {
                    Some(t) => v.killed(t, DeathCause::Lynch),
                    None => v,
                }).settled(),
            )
        }
    }
}

} // verus!
