//! The night's moves.

use vstd::prelude::*;
use vstd::string::*;
use crate::text::{append_text, join, no_texts, plus, plus_number, texts};
use super::model::{RecapView, SpeechesView, WolfGameView, WolfPlayerView};
use super::rules::{dawn_line, most_wanted, names_of, wanted, without_wolf};
use super::{
    DeathCause, RecapEvent, Role, SeerCheck, Speeches, WolfError, WolfGame, WolfStage,
};

verus! {

/// How many wolves want this player dead.
fn count_wanted(votes: &Vec<(usize, usize)>, target: usize) -> (r: usize)
    ensures
        r == wanted(votes@, target),
        r <= votes@.len(),
{
    let mut n: usize = 0;
    let mut i: usize = 0;
    assert(votes@.take(0) =~= Seq::empty());
    while i < votes.len()
        invariant
            i <= votes@.len(),
            n <= i,
            n == wanted(votes@.take(i as int), target),
        decreases votes@.len() - i,
    {
        assert(votes@.take(i + 1).drop_last() =~= votes@.take(i as int));
        assert(votes@.take(i + 1).last() == votes@[i as int]);
        if votes[i].1 == target {
            n = n + 1;
        }
        i = i + 1;
    }
    assert(votes@.take(i as int) =~= votes@);
    n
}

/// Whom the most wolves want dead; of several the one who was named first.
fn find_most_wanted(votes: &Vec<(usize, usize)>) -> (r: Option<usize>)
    ensures
        r == most_wanted(votes@, votes@.len()),
        r is Some ==> exists|k: int| 0 <= k < votes@.len() && (#[trigger] votes@[k]).1 == r->0,
{
    let mut best: Option<usize> = None;
    let mut i: usize = 0;
    while i < votes.len()
        invariant
            i <= votes@.len(),
            best == most_wanted(votes@, i as nat),
            best is Some ==> exists|k: int| 0 <= k < votes@.len() && (#[trigger] votes@[k]).1 == best->0,
        decreases votes@.len() - i,
    {
        let t = votes[i].1;
        assert(votes@[i as int].1 == t);
        best = match best {
            Some(b) => if count_wanted(votes, t) > count_wanted(votes, b) {
                Some(t)
            } else {
                Some(b)
            },
            None => Some(t),
        };
        i = i + 1;
    }
    best
}

fn drop_wolf(votes: &Vec<(usize, usize)>, wolf: usize) -> (r: Vec<(usize, usize)>)
    ensures
        r@ == without_wolf(votes@, wolf),
        forall|k: int| 0 <= k < r@.len() ==> votes@.contains(#[trigger] r@[k]),
{
    let mut out: Vec<(usize, usize)> = Vec::new();
    let mut i: usize = 0;
    assert(votes@.take(0) =~= Seq::empty());
    while i < votes.len()
        invariant
            i <= votes@.len(),
            out@ == without_wolf(votes@.take(i as int), wolf),
            forall|k: int| 0 <= k < out@.len() ==> votes@.contains(#[trigger] out@[k]),
        decreases votes@.len() - i,
    {
        assert(votes@.take(i + 1).drop_last() =~= votes@.take(i as int));
        assert(votes@.take(i + 1).last() == votes@[i as int]);
        if votes[i].0 != wolf {
            assert(votes@.contains(votes@[i as int]));
            out.push(votes[i]);
        }
        i = i + 1;
    }
    assert(votes@.take(i as int) =~= votes@);
    out
}

/// Whether the seat is among these.
pub(crate) fn has_seat(seats: &Vec<usize>, seat: usize) -> (r: bool)
    ensures
        r == seats@.contains(seat),
{
    let mut i: usize = 0;
    while i < seats.len()
        invariant
            i <= seats@.len(),
            forall|k: int| 0 <= k < i ==> seats@[k] != seat,
        decreases seats@.len() - i,
    {
        if seats[i] == seat {
            return true;
        }
        i = i + 1;
    }
    false
}

impl WolfGame {
    /// The living player under this id.
    pub(crate) fn actor_seat(&self, id: &str) -> (r: Option<usize>)
        requires
            self@.wf(),
        ensures
            r == self@.actor(id@),
            r is Some ==> r->0 < self@.players.len() && self@.players[r->0 as int].alive,
    {
        match self.find_player(id) {
            Some(i) => {
                assert(self@.players[i as int] == self.players@[i as int]@);
                if self.players[i].alive {
                    Some(i)
                } else {
                    None
                }
            },
            None => None,
        }
    }

    /// Who acts under this id.
    pub(crate) fn read_player(&self, id: &str) -> (r: Result<usize, WolfError>)
        requires
            self@.wf(),
        ensures
            r == self@.player(id@),
            r is Ok ==> r->Ok_0 < self@.players.len(),
    {
        match self.find_player(id) {
            Some(i) => {
                assert(self@.players[i as int] == self.players@[i as int]@);
                if self.players[i].alive {
                    Ok(i)
                } else {
                    Err(WolfError::NotYours)
                }
            },
            None => Err(WolfError::NotSeated),
        }
    }

    fn read_holder(&self, id: &str, role: Role) -> (r: Result<usize, WolfError>)
        requires
            self@.wf(),
        ensures
            r == self@.holder(id@, role),
            r is Ok ==> r->Ok_0 < self@.players.len(),
    {
        match self.read_player(id) {
            Ok(i) => {
                assert(self@.players[i as int] == self.players@[i as int]@);
                match self.players[i].role {
                    Some(r) => if r == role {
                        Ok(i)
                    } else {
                        Err(WolfError::NotYours)
                    },
                    None => Err(WolfError::NotYours),
                }
            },
            Err(e) => Err(e),
        }
    }

    fn read_wolf(&self, id: &str) -> (r: Result<usize, WolfError>)
        requires
            self@.wf(),
        ensures
            r == self@.wolf_holder(id@),
            r is Ok ==> r->Ok_0 < self@.players.len(),
    {
        match self.read_player(id) {
            Ok(i) => if self.is_wolf(i) {
                Ok(i)
            } else {
                Err(WolfError::NotYours)
            },
            Err(e) => Err(e),
        }
    }

    pub(crate) fn read_other(&self, target: &str, me: usize) -> (r: Result<usize, WolfError>)
        requires
            self@.wf(),
        ensures
            r == self@.other_target(target@, me),
            r is Ok ==> r->Ok_0 < self@.players.len(),
    {
        match self.actor_seat(target) {
            Some(t) => if t != me {
                Ok(t)
            } else {
                Err(WolfError::BadTarget)
            },
            None => Err(WolfError::BadTarget),
        }
    }

    /// Whether somebody with this role lives.
    pub(crate) fn role_lives(&self, role: Role) -> (r: bool)
        requires
            self@.wf(),
        ensures
            r == self@.living_role(role),
    {
        match self.role_idx(role) {
            Some(i) => {
                assert(self@.players[i as int] == self.players@[i as int]@);
                self.players[i].alive
            },
            None => false,
        }
    }

    pub(crate) fn log_event(&mut self, e: RecapEvent)
        ensures
            final(self)@ == old(self)@.logged(e@),
    {
        let ghost before = self@;
        self.recap_log.push(e);
        assert(self@.recap_log =~= before.recap_log.push(e@));
        assert(self@ =~= before.logged(e@));
    }

    pub(crate) fn tell(&mut self, line: String)
        ensures
            final(self)@ == old(self)@.told(line@),
    {
        let ghost before = self@;
        append_text(&mut self.event_log, line);
        assert(self@ =~= before.told(line@));
    }

    /// A death.
    pub(crate) fn kill(&mut self, i: usize, cause: DeathCause)
        requires
            old(self)@.wf(),
            !old(self)@.in_election(),
            i < old(self)@.players.len(),
            cause == DeathCause::Shot || old(self)@.last_words.order.len() < 12,
        ensures
            final(self)@ == old(self)@.killed(i, cause),
            final(self)@.wf(),
    {
        let ghost before = self@;
        assert(self@.players[i as int] == self.players@[i as int]@);
        let open_death = match cause {
            DeathCause::WolfKill | DeathCause::Lynch => true,
            _ => false,
        };
        let shooter = match self.players[i].role {
            Some(Role::Hunter) | Some(Role::WolfKing) => true,
            _ => false,
        };
        self.players[i].alive = false;
        assert(self@.players =~= before.players.update(
            i as int,
            WolfPlayerView { alive: false, ..before.players[i as int] },
        ));
        if open_death {
            self.last_words.order.push(i);
            if shooter {
                self.pending_hunter = Some(i);
            }
        }
        if let Some(s) = self.sheriff_idx {
            if s == i {
                self.pending_badge = Some(i);
            }
        }
        let e = RecapEvent::Death { day: self.day, night: self.at_dawn, player: i, cause };
        self.log_event(e);
        proof {
            assert(self@ =~= before.killed(i, cause));
            assert forall|k: int, j: int| 0 <= k < j < self@.players.len() implies (#[trigger] self@.players[k]).open_id
                != (#[trigger] self@.players[j]).open_id by {
                assert(before.players[k].open_id != before.players[j].open_id);
            }
        }
    }

    fn kill_at_night(&mut self, i: usize, cause: DeathCause)
        requires
            old(self)@.wf(),
            !old(self)@.in_election(),
            i < old(self)@.players.len(),
            old(self)@.last_words.order.len() < 12,
        ensures
            final(self)@ == old(self)@.night_death(i, cause),
            final(self)@.wf(),
    {
        let ghost before = self@;
        self.kill(i, cause);
        self.night_deaths.push(i);
        assert(self@ =~= before.night_death(i, cause));
    }

    fn night_names(&self) -> (r: Vec<String>)
        requires
            self@.wf(),
        ensures
            texts(r@) == names_of(self@.players, self@.night_deaths),
    {
        let ghost want = names_of(self@.players, self@.night_deaths);
        let mut out = no_texts();
        let mut i: usize = 0;
        while i < self.night_deaths.len()
            invariant
                self@.wf(),
                want == names_of(self@.players, self@.night_deaths),
                i <= self.night_deaths@.len() == want.len(),
                texts(out@) =~= want.take(i as int),
            decreases want.len() - i,
        {
            let s = self.night_deaths[i];
            assert(self@.night_deaths[i as int] < self@.players.len());
            assert(self@.players[s as int] == self.players@[s as int]@);
            assert(want.take(i + 1) =~= want.take(i as int).push(want[i as int]));
            append_text(&mut out, self.players[s].name.clone());
            i = i + 1;
        }
        assert(want.take(i as int) =~= want);
        out
    }

    /// The night is over.
    fn break_dawn(&mut self, saved: bool, poisoned: Option<usize>)
        requires
            old(self)@.wf(),
            !old(self)@.in_election(),
            old(self)@.stage != WolfStage::Lobby,
            match poisoned {
                Some(p) => p < old(self)@.players.len(),
                None => true,
            },
        ensures
            final(self)@ == old(self)@.dawn(saved, poisoned),
            final(self)@.wf(),
    {
        let ghost before = self@;
        let struck = match self.night_victim {
            Some(t) => {
                let guarded = match self.guard_target {
                    Some(g) => g == t,
                    None => false,
                };
                if guarded == saved {
                    Some(t)
                } else {
                    None
                }
            },
            None => None,
        };
        assert(struck == before.struck(saved));
        self.at_dawn = true;
        self.night_deaths = Vec::new();
        self.last_words = Speeches::fresh(Vec::new());
        let ghost cleared = WolfGameView {
            at_dawn: true,
            night_deaths: Seq::empty(),
            last_words: SpeechesView::fresh(Seq::empty()),
            ..before
        };
        assert(self@ =~= cleared);
        if let Some(t) = struck {
            let both = match poisoned {
                Some(p) => p == t,
                None => false,
            };
            if !both {
                self.kill_at_night(t, DeathCause::WolfKill);
            }
        }
        if let Some(p) = poisoned {
            self.kill_at_night(p, DeathCause::Poison);
        }
        let ghost done = self@;
        let names = self.night_names();
        assert(texts(names@).len() == names@.len());
        let s = plus(plus_number("第 ".to_owned(), self.day as u64), " 夜：");
        let s = if names.len() == 0 {
            plus(s, "平安夜")
        } else {
            plus(plus(s, join(&names, "、").as_str()), " 死亡")
        };
        assert(s@ =~= dawn_line(done.day, names_of(done.players, done.night_deaths)));
        self.stage = WolfStage::DayReveal;
        self.tell(s);
        assert(self@ =~= done.dawned());
    }

    /// After the seer: the witch, if she lives.
    fn go_after_seer(&mut self)
        requires
            old(self)@.wf(),
            !old(self)@.in_election(),
            old(self)@.stage != WolfStage::Lobby,
        ensures
            final(self)@ == old(self)@.after_seer(),
            final(self)@.wf(),
    {
        let ghost before = self@;
        if self.role_lives(Role::Witch) {
            self.stage = WolfStage::WitchAct;
            assert(self@ =~= before.after_seer());
        } else {
            self.break_dawn(false, None);
        }
    }

    /// The guard protects somebody, themselves too, but nobody two nights
    /// running.
    pub fn guard_pick(&mut self, id: &str, target: &str) -> (r: Result<(), WolfError>)
        requires
            old(self)@.wf(),
        ensures
            final(self)@.wf(),
            match old(self)@.guard_result(id@, target@) {
                Err(e) => r == Err::<(), WolfError>(e) && final(self)@ == old(self)@,
                Ok(g) => r is Ok && final(self)@ == g,
            },
    {
        let ghost before = self@;
        if self.stage != WolfStage::GuardPick {
            return Err(WolfError::WrongStage);
        }
        if let Err(e) = self.read_holder(id, Role::Guard) {
            return Err(e);
        }
        let t: usize = match self.actor_seat(target) {
            Some(t) => t,
            None => {
                return Err(WolfError::BadTarget);
            },
        };
        if let Some(l) = self.last_guard_target {
            if l == t {
                return Err(WolfError::GuardedLastNight);
            }
        }
        self.guard_target = Some(t);
        self.stage = WolfStage::WolvesPick;
        let e = RecapEvent::GuardPick { day: self.day, target: t };
        self.log_event(e);
        assert(Ok::<WolfGameView, WolfError>(self@) =~= before.guard_result(id@, target@));
        Ok(())
    }

    /// A dead guard protects nobody.
    pub fn skip_guard(&mut self) -> (r: Result<(), WolfError>)
        requires
            old(self)@.wf(),
        ensures
            final(self)@.wf(),
            match old(self)@.guard_skipped() {
                Err(e) => r == Err::<(), WolfError>(e) && final(self)@ == old(self)@,
                Ok(g) => r is Ok && final(self)@ == g,
            },
    {
        let ghost before = self@;
        if self.stage != WolfStage::GuardPick || self.role_lives(Role::Guard) {
            return Err(WolfError::WrongStage);
        }
        self.stage = WolfStage::WolvesPick;
        assert(self@ =~= before.guard_skipped()->Ok_0);
        Ok(())
    }

    /// A wolf says whom to kill, or changes their mind. The choice stands once
    /// they have said so.
    pub fn wolf_pick(&mut self, id: &str, target: &str) -> (r: Result<(), WolfError>)
        requires
            old(self)@.wf(),
        ensures
            final(self)@.wf(),
            match old(self)@.wolf_pick_result(id@, target@) {
                Err(e) => r == Err::<(), WolfError>(e) && final(self)@ == old(self)@,
                Ok(g) => r is Ok && final(self)@ == g,
            },
    {
        let ghost before = self@;
        if self.stage != WolfStage::WolvesPick {
            return Err(WolfError::WrongStage);
        }
        let w: usize = match self.read_wolf(id) {
            Ok(w) => w,
            Err(e) => {
                return Err(e);
            },
        };
        if has_seat(&self.wolf_ready, w) {
            return Err(WolfError::Locked);
        }
        let t: usize = match self.actor_seat(target) {
            Some(t) => t,
            None => {
                return Err(WolfError::BadTarget);
            },
        };
        if self.is_wolf(t) {
            return Err(WolfError::BadTarget);
        }
        let mut votes = drop_wolf(&self.wolf_kill_votes, w);
        votes.push((w, t));
        self.wolf_kill_votes = votes;
        proof {
            assert(self@ =~= before.wolf_pick_result(id@, target@)->Ok_0);
            assert forall|i: int| 0 <= i < self@.wolf_kill_votes.len() implies (#[trigger] self@.wolf_kill_votes[i]).0
                < self@.players.len() && self@.wolf_kill_votes[i].1 < self@.players.len() by {
                if i < self@.wolf_kill_votes.len() - 1 {
                    let v = self@.wolf_kill_votes[i];
                    assert(before.wolf_kill_votes.contains(v));
                    let k = choose|k: int| 0 <= k < before.wolf_kill_votes.len() && before.wolf_kill_votes[k] == v;
                    assert(before.wolf_kill_votes[k].0 < before.players.len());
                }
            }
        }
        Ok(())
    }

    /// A wolf says something to the pack.
    pub fn wolf_say(&mut self, id: &str, text: String) -> (r: Result<(), WolfError>)
        requires
            old(self)@.wf(),
        ensures
            final(self)@.wf(),
            match old(self)@.wolf_say_result(id@, text@) {
                Err(e) => r == Err::<(), WolfError>(e) && final(self)@ == old(self)@,
                Ok(g) => r is Ok && final(self)@ == g,
            },
    {
        let ghost before = self@;
        if self.stage != WolfStage::WolvesPick {
            return Err(WolfError::WrongStage);
        }
        let w: usize = match self.read_wolf(id) {
            Ok(w) => w,
            Err(e) => {
                return Err(e);
            },
        };
        self.wolf_chat.push((w, text));
        assert(self@.wolf_chat =~= before.wolf_chat.push((w, text@)));
        assert(self@ =~= before.wolf_say_result(id@, text@)->Ok_0);
        Ok(())
    }

    /// A wolf's choice stands.
    pub fn wolf_mark_ready(&mut self, id: &str) -> (r: Result<(), WolfError>)
        requires
            old(self)@.wf(),
        ensures
            final(self)@.wf(),
            match old(self)@.wolf_ready_result(id@) {
                Err(e) => r == Err::<(), WolfError>(e) && final(self)@ == old(self)@,
                Ok(g) => r is Ok && final(self)@ == g,
            },
    {
        let ghost before = self@;
        if self.stage != WolfStage::WolvesPick {
            return Err(WolfError::WrongStage);
        }
        let w: usize = match self.read_wolf(id) {
            Ok(w) => w,
            Err(e) => {
                return Err(e);
            },
        };
        if !has_seat(&self.wolf_ready, w) {
            self.wolf_ready.push(w);
        }
        assert(self@ =~= before.wolf_ready_result(id@)->Ok_0);
        Ok(())
    }

    /// Whether the wolf's choice stands.
    pub fn is_wolf_ready(&self, w: usize) -> (r: bool)
        ensures
            r == self@.wolf_ready.contains(w),
    {
        has_seat(&self.wolf_ready, w)
    }

    /// Whether every living wolf's choice stands.
    pub fn all_alive_wolves_ready(&self) -> (r: bool)
        requires
            self@.wf(),
        ensures
            r == self@.pack_ready(),
    {
        let wolves = self.alive_wolves();
        let mut i: usize = 0;
        while i < wolves.len()
            invariant
                wolves@ == super::model::living_wolves(self@.players),
                i <= wolves@.len(),
                forall|k: int| 0 <= k < i ==> self@.wolf_ready.contains(#[trigger] wolves@[k]),
            decreases wolves@.len() - i,
        {
            if !self.is_wolf_ready(wolves[i]) {
                assert(!self@.wolf_ready.contains(wolves@[i as int]));
                return false;
            }
            i = i + 1;
        }
        true
    }

    /// The wolves are done: whom the most of them want dead is the night's
    /// victim.
    pub fn advance_after_wolves(&mut self) -> (r: Result<(), WolfError>)
        requires
            old(self)@.wf(),
        ensures
            final(self)@.wf(),
            match old(self)@.wolves_done_result() {
                Err(e) => r == Err::<(), WolfError>(e) && final(self)@ == old(self)@,
                Ok(g) => r is Ok && final(self)@ == g,
            },
    {
        let ghost before = self@;
        if self.stage != WolfStage::WolvesPick {
            return Err(WolfError::WrongStage);
        }
        let t = find_most_wanted(&self.wolf_kill_votes);
        proof {
            if t is Some {
                let k = choose|k: int| 0 <= k < self.wolf_kill_votes@.len() && (#[trigger] self.wolf_kill_votes@[k]).1 == t->0;
                assert(self@.wolf_kill_votes[k].1 < self@.players.len());
            }
        }
        self.night_victim = t;
        let e = RecapEvent::WolfTarget { day: self.day, target: t };
        self.log_event(e);
        let ghost v = self@;
        assert(v =~= (WolfGameView { night_victim: t, ..before }).logged(RecapView::WolfTarget { day: before.day, target: t }));
        if self.role_lives(Role::Seer) {
            self.stage = WolfStage::SeerPick;
            assert(self@ =~= before.wolves_done_result()->Ok_0);
        } else {
            self.go_after_seer();
        }
        Ok(())
    }

    /// The seer looks at somebody: are they on the wolves' side?
    pub fn seer_check(&mut self, id: &str, target: &str) -> (r: Result<bool, WolfError>)
        requires
            old(self)@.wf(),
        ensures
            final(self)@.wf(),
            match old(self)@.seer_result(id@, target@) {
                Err(e) => r == Err::<bool, WolfError>(e) && final(self)@ == old(self)@,
                Ok((g, is_wolf)) => r == Ok::<bool, WolfError>(is_wolf) && final(self)@ == g,
            },
    {
        let ghost before = self@;
        if self.stage != WolfStage::SeerPick {
            return Err(WolfError::WrongStage);
        }
        let i: usize = match self.read_holder(id, Role::Seer) {
            Ok(i) => i,
            Err(e) => {
                return Err(e);
            },
        };
        let t: usize = match self.read_other(target, i) {
            Ok(t) => t,
            Err(e) => {
                return Err(e);
            },
        };
        let is_wolf = self.is_wolf(t);
        self.seer_history.push(SeerCheck { day: self.day, target_idx: t, is_wolf });
        let e = RecapEvent::SeerCheck { day: self.day, target: t, is_wolf };
        self.log_event(e);
        assert(self@ =~= (WolfGameView {
            seer_history: before.seer_history.push(SeerCheck { day: before.day, target_idx: t, is_wolf }),
            ..before
        }).logged(RecapView::SeerCheck { day: before.day, target: t, is_wolf }));
        self.go_after_seer();
        Ok(is_wolf)
    }

    fn finish_witch(&mut self, saved: bool, poisoned: Option<usize>)
        requires
            old(self)@.wf(),
            !old(self)@.in_election(),
            old(self)@.stage != WolfStage::Lobby,
            match poisoned {
                Some(p) => p < old(self)@.players.len(),
                None => true,
            },
        ensures
            final(self)@ == old(self)@.witch_done(saved, poisoned),
            final(self)@.wf(),
    {
        let ghost before = self@;
        self.witch_save_used = self.witch_save_used || saved;
        self.witch_poison_used = self.witch_poison_used || poisoned.is_some();
        let e = RecapEvent::WitchAct { day: self.day, saved, poisoned };
        self.log_event(e);
        assert(self@ =~= (WolfGameView {
            witch_save_used: before.witch_save_used || saved,
            witch_poison_used: before.witch_poison_used || poisoned is Some,
            ..before
        }).logged(RecapView::WitchAct { day: before.day, saved, poisoned }));
        self.break_dawn(saved, poisoned);
    }

    /// The witch saves the victim, poisons somebody, or waits. She has one of
    /// each potion, and uses at most one a night.
    pub fn witch_act(&mut self, id: &str, save: bool, poison: Option<&str>) -> (r: Result<(), WolfError>)
        requires
            old(self)@.wf(),
        ensures
            final(self)@.wf(),
            match old(self)@.witch_result(
                id@,
                save,
                match poison {
                    Some(p) => Some(p@),
                    None => None,
                },
            ) {
                Err(e) => r == Err::<(), WolfError>(e) && final(self)@ == old(self)@,
                Ok(g) => r is Ok && final(self)@ == g,
            },
    {
        if self.stage != WolfStage::WitchAct {
            return Err(WolfError::WrongStage);
        }
        let i: usize = match self.read_holder(id, Role::Witch) {
            Ok(i) => i,
            Err(e) => {
                return Err(e);
            },
        };
        if save && poison.is_some() {
            return Err(WolfError::OnlyOnePotion);
        }
        if save {
            if self.witch_save_used {
                return Err(WolfError::NoSavePotion);
            }
            if self.night_victim.is_none() {
                return Err(WolfError::NobodyToSave);
            }
            self.finish_witch(true, None);
            return Ok(());
        }
        match poison {
            None => {
                self.finish_witch(false, None);
            },
            Some(target) => {
                if self.witch_poison_used {
                    return Err(WolfError::NoPoison);
                }
                let t: usize = match self.read_other(target, i) {
                    Ok(t) => t,
                    Err(e) => {
                        return Err(e);
                    },
                };
                self.finish_witch(false, Some(t));
            },
        }
        Ok(())
    }
}

} // verus!
