//! What happens by day: last words, shots and the badge, the election of a
//! sheriff, the talk and the vote.

use vstd::prelude::*;
use vstd::string::*;
use crate::poker::card::random_up_to;
use crate::text::{plus, plus_number};
use super::model::{seats_in, RecapView, SpeechesView, WolfGameView};
use super::night::has_seat;
use super::rules::{
    ahead, apart, badge_line, has_nominated, has_voted, lynch_line, place, poll, ring, runners, shot_line,
    singled_out, weight,
};
use super::{DeathCause, RecapEvent, Speeches, WolfError, WolfGame, WolfStage};

verus! {

// ---- votes ----

/// What the votes for this player count together.
fn count_poll(votes: &Vec<(usize, Option<usize>)>, sheriff: Option<usize>, target: usize) -> (r: u128)
    ensures
        r == poll(votes@, sheriff, target),
{
    let mut n: u128 = 0;
    let mut i: usize = 0;
    assert(votes@.take(0) =~= Seq::empty());
    while i < votes.len()
        invariant
            i <= votes@.len(),
            n <= 3 * i,
            n == poll(votes@.take(i as int), sheriff, target),
        decreases votes@.len() - i,
    {
        assert(votes@.take(i + 1).drop_last() =~= votes@.take(i as int));
        assert(votes@.take(i + 1).last() == votes@[i as int]);
        let (voter, choice) = votes[i];
        if let Some(t) = choice {
            if t == target {
                let w: u128 = match sheriff {
                    Some(s) => if s == voter {
                        3
                    } else {
                        2
                    },
                    None => 2,
                };
                assert(w == weight(voter, sheriff));
                n = n + w;
            }
        }
        i = i + 1;
    }
    assert(votes@.take(i as int) =~= votes@);
    n
}

/// Whoever has votes has a seat.
pub proof fn poll_facts(votes: Seq<(usize, Option<usize>)>, sheriff: Option<usize>, target: usize, n: nat)
    requires
        super::model::votes_in(votes, n),
        poll(votes, sheriff, target) > 0,
    ensures
        target < n,
    decreases votes.len(),
{
    if votes.len() > 0 {
        assert(votes[votes.len() - 1] == votes.last());
        if votes.last().1 != Some(target) {
            let rest = votes.drop_last();
            assert forall|i: int| 0 <= i < rest.len() implies (#[trigger] rest[i]).0 < n && super::model::seat_in(rest[i].1, n) by {
                assert(rest[i] == votes[i]);
            }
            poll_facts(rest, sheriff, target, n);
        }
    }
}

/// Whom the votes single out.
fn single_out(votes: &Vec<(usize, Option<usize>)>, sheriff: Option<usize>, n: usize) -> (r: Option<usize>)
    requires
        super::model::votes_in(votes@, n as nat),
    ensures
        r == singled_out(votes@, sheriff),
        r is Some ==> r->0 < n,
{
    let mut best: usize = 0;
    let mut top: u128 = 0;
    let mut tied = true;
    let mut i: usize = 0;
    while i < n
        invariant
            super::model::votes_in(votes@, n as nat),
            i <= n,
            forall|u: usize| u < i ==> #[trigger] poll(votes@, sheriff, u) <= top,
            top > 0 ==> best < i && poll(votes@, sheriff, best) == top,
            top == 0 ==> tied,
            top > 0 && !tied ==> forall|u: usize| u < i && u != best ==> #[trigger] poll(votes@, sheriff, u) < top,
            top > 0 && tied ==> exists|u: usize| u < i && u != best && #[trigger] poll(votes@, sheriff, u) == top,
        decreases n - i,
    {
        let c = count_poll(votes, sheriff, i);
        if c > top {
            best = i;
            top = c;
            tied = false;
        } else if c == top && top > 0 {
            tied = true;
            assert(poll(votes@, sheriff, i) == top);
        }
        i = i + 1;
    }
    proof {
        assert forall|u: usize| u >= n implies #[trigger] poll(votes@, sheriff, u) == 0 by {
            if poll(votes@, sheriff, u) > 0 {
                poll_facts(votes@, sheriff, u, n as nat);
            }
        }
        if tied {
            assert forall|t: usize| !ahead(votes@, sheriff, t) by {
                if ahead(votes@, sheriff, t) {
                    assert(poll(votes@, sheriff, t) <= top);
                    if top > 0 {
                        let u = choose|u: usize| u < n && u != best && #[trigger] poll(votes@, sheriff, u) == top;
                        if t != best {
                            assert(poll(votes@, sheriff, best) < poll(votes@, sheriff, t));
                        } else {
                            assert(poll(votes@, sheriff, u) < poll(votes@, sheriff, t));
                        }
                    }
                }
            }
        } else {
            assert(ahead(votes@, sheriff, best));
            let c = choose|t: usize| ahead(votes@, sheriff, t);
            assert(ahead(votes@, sheriff, c));
            if c != best {
                assert(poll(votes@, sheriff, best) < poll(votes@, sheriff, c));
            }
        }
    }
    if tied {
        None
    } else {
        Some(best)
    }
}

/// Whether the voter has voted.
pub fn voted(votes: &Vec<(usize, Option<usize>)>, voter: usize) -> (r: bool)
    ensures
        r == has_voted(votes@, voter),
{
    let mut i: usize = 0;
    while i < votes.len()
        invariant
            i <= votes@.len(),
            forall|k: int| 0 <= k < i ==> (#[trigger] votes@[k]).0 != voter,
        decreases votes@.len() - i,
    {
        if votes[i].0 == voter {
            return true;
        }
        i = i + 1;
    }
    false
}

/// Whether the player has said if they run.
pub fn nominated(list: &Vec<(usize, bool)>, seat: usize) -> (r: bool)
    ensures
        r == has_nominated(list@, seat),
{
    let mut i: usize = 0;
    while i < list.len()
        invariant
            i <= list@.len(),
            forall|k: int| 0 <= k < i ==> (#[trigger] list@[k]).0 != seat,
        decreases list@.len() - i,
    {
        if list[i].0 == seat {
            return true;
        }
        i = i + 1;
    }
    false
}

pub(crate) fn list_apart(seats: &Vec<usize>, from: &Vec<usize>, n: usize) -> (r: Vec<usize>)
    requires
        seats_in(seats@, n as nat),
    ensures
        r@ == apart(seats@, from@),
        seats_in(r@, n as nat),
{
    let mut out: Vec<usize> = Vec::new();
    let mut i: usize = 0;
    assert(seats@.take(0) =~= Seq::empty());
    while i < seats.len()
        invariant
            seats_in(seats@, n as nat),
            i <= seats@.len(),
            out@ == apart(seats@.take(i as int), from@),
            seats_in(out@, n as nat),
        decreases seats@.len() - i,
    {
        assert(seats@.take(i + 1).drop_last() =~= seats@.take(i as int));
        assert(seats@.take(i + 1).last() == seats@[i as int]);
        if !has_seat(from, seats[i]) {
            out.push(seats[i]);
        }
        i = i + 1;
    }
    assert(seats@.take(i as int) =~= seats@);
    out
}

impl Speeches {
    /// The speaker has said this.
    fn speak(&mut self, seat: usize, text: String)
        requires
            old(self)@.speaker() == Some(seat),
        ensures
            final(self)@ == old(self)@.spoken(text@),
    {
        let ghost before = self@;
        self.said.push((seat, text));
        assert(self.next < self.order.len());
        self.next = self.next + 1;
        assert(self@.said =~= before.said.push((seat, text@)));
        assert(self@ =~= before.spoken(text@));
    }
}

impl WolfGame {
    // ---- what comes next ----

    fn break_day(&mut self)
        requires
            old(self)@.wf(),
            old(self)@.sheriff_done || !old(self)@.in_election(),
            old(self)@.stage != WolfStage::Lobby,
        ensures
            final(self)@ == old(self)@.daybreak(),
            final(self)@.wf(),
    {
        let ghost before = self@;
        self.stage = if self.sheriff_idx.is_some() { WolfStage::SheriffPickDirection } else { WolfStage::DayOpen };
        self.day_speech = Speeches::fresh(Vec::new());
        self.day_votes = Vec::new();
        self.lynched = None;
        assert(self@ =~= before.daybreak());
    }

    fn settle(&mut self)
        requires
            old(self)@.wf(),
            !old(self)@.in_election(),
            old(self)@.stage != WolfStage::Lobby,
        ensures
            final(self)@ == old(self)@.settled(),
            final(self)@.wf(),
    {
        let ghost before = self@;
        if self.last_words.speaker().is_some() {
            self.stage = WolfStage::LastWords;
            assert(self@ =~= before.settled());
        } else if self.pending_hunter.is_some() {
            self.stage = WolfStage::HunterShoot;
            assert(self@ =~= before.settled());
        } else if self.pending_badge.is_some() {
            self.stage = WolfStage::BadgePass;
            assert(self@ =~= before.settled());
        } else if self.victory().is_some() {
            self.stage = WolfStage::Ended;
            assert(self@ =~= before.settled());
        } else if self.at_dawn {
            if self.sheriff_done {
                self.break_day();
            } else {
                self.stage = WolfStage::SheriffNominate;
                assert(self@ =~= before.settled());
            }
        } else {
            self.day = if self.day < u32::MAX { self.day + 1 } else { self.day };
            let ghost next = self@;
            assert(next =~= WolfGameView {
                day: if before.day < u32::MAX { (before.day + 1) as u32 } else { before.day },
                ..before
            });
            self.fall_night();
        }
    }

    /// The night's deaths are out: what comes next?
    pub fn enter_day_discuss(&mut self) -> (r: Result<(), WolfError>)
        requires
            old(self)@.wf(),
        ensures
            final(self)@.wf(),
            match old(self)@.reveal_result() {
                Err(e) => r == Err::<(), WolfError>(e) && final(self)@ == old(self)@,
                Ok(g) => r is Ok && final(self)@ == g,
            },
    {
        if self.stage != WolfStage::DayReveal {
            return Err(WolfError::WrongStage);
        }
        self.settle();
        Ok(())
    }

    /// Whether it is the id's turn to speak.
    fn read_turn(&self, s: &Speeches, id: &str) -> (r: Result<usize, WolfError>)
        requires
            self@.wf(),
        ensures
            r == self@.turn(s@, id@),
            r is Ok ==> s@.speaker() == Some(r->Ok_0) && r->Ok_0 < self@.players.len(),
    {
        match self.find_player(id) {
            None => Err(WolfError::NotSeated),
            Some(i) => match s.speaker() {
                Some(k) => if k == i {
                    Ok(i)
                } else {
                    Err(WolfError::NotYourTurn)
                },
                None => Err(WolfError::NotYourTurn),
            },
        }
    }

    /// Whether the thing to be settled is the id's.
    fn read_pending(&self, who: Option<usize>, id: &str) -> (r: Result<usize, WolfError>)
        requires
            self@.wf(),
        ensures
            r == self@.pending(who, id@),
            r is Ok ==> who == Some(r->Ok_0) && r->Ok_0 < self@.players.len(),
    {
        match self.find_player(id) {
            None => Err(WolfError::NotSeated),
            Some(i) => match who {
                Some(k) => if k == i {
                    Ok(i)
                } else {
                    Err(WolfError::NotYours)
                },
                None => Err(WolfError::NotYours),
            },
        }
    }

    /// Whose last words are next.
    pub fn current_last_words_speaker(&self) -> (r: Option<usize>)
        ensures
            r == self@.last_words.speaker(),
    {
        self.last_words.speaker()
    }

    /// Last words; an empty text is silence.
    pub fn submit_last_words(&mut self, id: &str, text: String) -> (r: Result<(), WolfError>)
        requires
            old(self)@.wf(),
        ensures
            final(self)@.wf(),
            match old(self)@.last_words_result(id@, text@) {
                Err(e) => r == Err::<(), WolfError>(e) && final(self)@ == old(self)@,
                Ok(g) => r is Ok && final(self)@ == g,
            },
    {
        let ghost before = self@;
        if self.stage != WolfStage::LastWords {
            return Err(WolfError::WrongStage);
        }
        let i: usize = match self.read_turn(&self.last_words, id) {
            Ok(i) => i,
            Err(e) => {
                return Err(e);
            },
        };
        let copy = text.clone();
        self.last_words.speak(i, copy);
        if text.as_str().unicode_len() > 0 {
            let e = RecapEvent::LastWords { day: self.day, night: self.at_dawn, player: i, text };
            self.log_event(e);
        }
        assert(self@ =~= before.last_words_result(id@, text@)->Ok_0);
        Ok(())
    }

    /// All last words have been said.
    pub fn finish_last_words(&mut self) -> (r: Result<(), WolfError>)
        requires
            old(self)@.wf(),
        ensures
            final(self)@.wf(),
            match old(self)@.last_words_done_result() {
                Err(e) => r == Err::<(), WolfError>(e) && final(self)@ == old(self)@,
                Ok(g) => r is Ok && final(self)@ == g,
            },
    {
        if self.stage != WolfStage::LastWords {
            return Err(WolfError::WrongStage);
        }
        if self.last_words.speaker().is_some() {
            return Err(WolfError::Unfinished);
        }
        self.settle();
        Ok(())
    }

    fn shoot(&mut self, i: usize, target: Option<usize>)
        requires
            old(self)@.wf(),
            !old(self)@.in_election(),
            old(self)@.stage != WolfStage::Lobby,
            i < old(self)@.players.len(),
            super::model::seat_in(target, old(self)@.players.len()),
        ensures
            final(self)@ == old(self)@.shot(i, target),
            final(self)@.wf(),
    {
        let ghost before = self@;
        self.pending_hunter = None;
        let e = RecapEvent::HunterShot { day: self.day, shooter: i, target };
        self.log_event(e);
        let name = self.players[i].name.clone();
        let line = match target {
            Some(t) => plus(plus(name, " 临死前开枪带走 "), self.players[t].name.as_str()),
            None => plus(name, " 选择不开枪"),
        };
        assert(line@ =~= shot_line(before.players[i as int].name, before.name_at(target)));
        self.tell(line);
        let ghost v = self@;
        assert(v =~= (WolfGameView { pending_hunter: None, ..before }).logged(
            RecapView::HunterShot { day: before.day, shooter: i, target },
        ).told(shot_line(before.players[i as int].name, before.name_at(target))));
        if let Some(t) = target {
            self.kill(t, DeathCause::Shot);
        }
        self.settle();
    }

    /// A dying hunter or wolf king takes somebody along, or not. Who was shot is
    /// returned.
    pub fn hunter_shoot(&mut self, id: &str, target: Option<&str>) -> (r: Result<Option<usize>, WolfError>)
        requires
            old(self)@.wf(),
        ensures
            final(self)@.wf(),
            match old(self)@.hunter_result(
                id@,
                match target {
                    Some(t) => Some(t@),
                    None => None,
                },
            ) {
                Err(e) => r == Err::<Option<usize>, WolfError>(e) && final(self)@ == old(self)@,
                Ok((g, t)) => r == Ok::<Option<usize>, WolfError>(t) && final(self)@ == g,
            },
    {
        if self.stage != WolfStage::HunterShoot {
            return Err(WolfError::WrongStage);
        }
        let i: usize = match self.read_pending(self.pending_hunter, id) {
            Ok(i) => i,
            Err(e) => {
                return Err(e);
            },
        };
        match target {
            None => {
                self.shoot(i, None);
                Ok(None)
            },
            Some(target) => match self.read_other(target, i) {
                Ok(t) => {
                    self.shoot(i, Some(t));
                    Ok(Some(t))
                },
                Err(e) => Err(e),
            },
        }
    }

    fn hand_badge(&mut self, i: usize, target: Option<usize>)
        requires
            old(self)@.wf(),
            !old(self)@.in_election(),
            old(self)@.stage != WolfStage::Lobby,
            i < old(self)@.players.len(),
            super::model::seat_in(target, old(self)@.players.len()),
        ensures
            final(self)@ == old(self)@.badge_passed(i, target),
            final(self)@.wf(),
    {
        let ghost before = self@;
        self.pending_badge = None;
        self.sheriff_idx = target;
        let e = RecapEvent::BadgePass { day: self.day, from: i, to: target };
        self.log_event(e);
        let name = self.players[i].name.clone();
        let line = match target {
            Some(t) => plus(plus(name, " 把警徽移交给 "), self.players[t].name.as_str()),
            None => plus(name, " 撕毁了警徽"),
        };
        assert(line@ =~= badge_line(before.players[i as int].name, before.name_at(target)));
        self.tell(line);
        assert(self@ =~= (WolfGameView { pending_badge: None, sheriff_idx: target, ..before }).logged(
            RecapView::BadgePass { day: before.day, from: i, to: target },
        ).told(badge_line(before.players[i as int].name, before.name_at(target))));
        self.settle();
    }

    /// A dead sheriff hands the badge to somebody who lives, or tears it up. Who
    /// has it now is returned.
    pub fn transfer_badge(&mut self, id: &str, target: Option<&str>) -> (r: Result<Option<usize>, WolfError>)
        requires
            old(self)@.wf(),
        ensures
            final(self)@.wf(),
            match old(self)@.badge_result(
                id@,
                match target {
                    Some(t) => Some(t@),
                    None => None,
                },
            ) {
                Err(e) => r == Err::<Option<usize>, WolfError>(e) && final(self)@ == old(self)@,
                Ok((g, t)) => r == Ok::<Option<usize>, WolfError>(t) && final(self)@ == g,
            },
    {
        if self.stage != WolfStage::BadgePass {
            return Err(WolfError::WrongStage);
        }
        let i: usize = match self.read_pending(self.pending_badge, id) {
            Ok(i) => i,
            Err(e) => {
                return Err(e);
            },
        };
        match target {
            None => {
                self.hand_badge(i, None);
                Ok(None)
            },
            Some(target) => match self.read_other(target, i) {
                Ok(t) => {
                    self.hand_badge(i, Some(t));
                    Ok(Some(t))
                },
                Err(e) => Err(e),
            },
        }
    }

    // ---- the sheriff ----

    /// A player says whether they run for sheriff.
    pub fn nominate_sheriff(&mut self, id: &str, running: bool) -> (r: Result<(), WolfError>)
        requires
            old(self)@.wf(),
        ensures
            final(self)@.wf(),
            match old(self)@.nominate_result(id@, running) {
                Err(e) => r == Err::<(), WolfError>(e) && final(self)@ == old(self)@,
                Ok(g) => r is Ok && final(self)@ == g,
            },
    {
        let ghost before = self@;
        if self.stage != WolfStage::SheriffNominate {
            return Err(WolfError::WrongStage);
        }
        let i: usize = match self.read_player(id) {
            Ok(i) => i,
            Err(e) => {
                return Err(e);
            },
        };
        if nominated(&self.sheriff_nominations, i) {
            return Err(WolfError::AlreadyChosen);
        }
        self.sheriff_nominations.push((i, running));
        assert(self@ =~= before.nominate_result(id@, running)->Ok_0);
        Ok(())
    }

    /// Whether everybody who lives has said if they run.
    pub fn all_alive_nominated(&self) -> (r: bool)
        ensures
            r == self@.all_nominated(),
    {
        let mut i: usize = 0;
        while i < self.players.len()
            invariant
                i <= self.players@.len() == self@.players.len(),
                forall|k: int| 0 <= k < i && (#[trigger] self@.players[k]).alive ==> has_nominated(
                    self@.sheriff_nominations,
                    k as usize,
                ),
            decreases self.players@.len() - i,
        {
            assert(self@.players[i as int].alive == self.players@[i as int].alive);
            if self.players[i].alive && !nominated(&self.sheriff_nominations, i) {
                return false;
            }
            i = i + 1;
        }
        true
    }

    /// Who runs, in the order in which they said so.
    pub fn sheriff_candidates(&self) -> (r: Vec<usize>)
        requires
            self@.wf(),
        ensures
            r@ == self@.candidates(),
            seats_in(r@, self@.players.len()),
    {
        let ghost all = self@.sheriff_nominations;
        let mut out: Vec<usize> = Vec::new();
        let mut i: usize = 0;
        assert(all.take(0) =~= Seq::empty());
        while i < self.sheriff_nominations.len()
            invariant
                self@.wf(),
                all == self@.sheriff_nominations,
                i <= self.sheriff_nominations@.len() == all.len(),
                out@ == runners(all.take(i as int)),
                seats_in(out@, self@.players.len()),
            decreases all.len() - i,
        {
            assert(all.take(i + 1).drop_last() =~= all.take(i as int));
            assert(all.take(i + 1).last() == all[i as int]);
            assert(all[i as int].0 < self@.players.len());
            if self.sheriff_nominations[i].1 {
                out.push(self.sheriff_nominations[i].0);
            }
            i = i + 1;
        }
        assert(all.take(i as int) =~= all);
        out
    }

    fn choose_sheriff(&mut self, sheriff: Option<usize>)
        requires
            old(self)@.wf(),
            old(self)@.stage != WolfStage::Lobby,
            super::model::seat_in(sheriff, old(self)@.players.len()),
        ensures
            final(self)@ == old(self)@.sheriff_chosen(sheriff),
            final(self)@.wf(),
    {
        let ghost before = self@;
        self.sheriff_idx = sheriff;
        self.sheriff_done = true;
        assert(self@ =~= (WolfGameView { sheriff_idx: sheriff, sheriff_done: true, ..before }));
        self.break_day();
    }

    /// Everybody has said if they run.
    pub fn finish_sheriff_nominate(&mut self) -> (r: Result<(), WolfError>)
        requires
            old(self)@.wf(),
        ensures
            final(self)@.wf(),
            match old(self)@.nominated_result() {
                Err(e) => r == Err::<(), WolfError>(e) && final(self)@ == old(self)@,
                Ok(g) => r is Ok && final(self)@ == g,
            },
    {
        let ghost before = self@;
        if self.stage != WolfStage::SheriffNominate {
            return Err(WolfError::WrongStage);
        }
        if !self.all_alive_nominated() {
            return Err(WolfError::Unfinished);
        }
        let candidates = self.sheriff_candidates();
        if candidates.len() == 0 {
            self.choose_sheriff(None);
        } else if candidates.len() == 1 {
            self.choose_sheriff(Some(candidates[0]));
        } else {
            self.sheriff_speech = Speeches::fresh(candidates);
            self.stage = WolfStage::SheriffSpeech;
            assert(self@ =~= before.nominated_result()->Ok_0);
        }
        Ok(())
    }

    /// Which candidate speaks next.
    pub fn current_sheriff_speaker(&self) -> (r: Option<usize>)
        ensures
            r == self@.sheriff_speech.speaker(),
    {
        self.sheriff_speech.speaker()
    }

    /// A candidate's speech; an empty text is silence.
    pub fn submit_sheriff_speech(&mut self, id: &str, text: String) -> (r: Result<(), WolfError>)
        requires
            old(self)@.wf(),
        ensures
            final(self)@.wf(),
            match old(self)@.sheriff_speech_result(id@, text@) {
                Err(e) => r == Err::<(), WolfError>(e) && final(self)@ == old(self)@,
                Ok(g) => r is Ok && final(self)@ == g,
            },
    {
        let ghost before = self@;
        if self.stage != WolfStage::SheriffSpeech {
            return Err(WolfError::WrongStage);
        }
        let i: usize = match self.read_turn(&self.sheriff_speech, id) {
            Ok(i) => i,
            Err(e) => {
                return Err(e);
            },
        };
        let copy = text.clone();
        self.sheriff_speech.speak(i, copy);
        if text.as_str().unicode_len() > 0 {
            let e = RecapEvent::SheriffSpeech { player: i, text };
            self.log_event(e);
        }
        assert(self@ =~= before.sheriff_speech_result(id@, text@)->Ok_0);
        Ok(())
    }

    /// The candidates have spoken; now the others do.
    pub fn finish_sheriff_speeches(&mut self) -> (r: Result<(), WolfError>)
        requires
            old(self)@.wf(),
        ensures
            final(self)@.wf(),
            match old(self)@.sheriff_speeches_done_result() {
                Err(e) => r == Err::<(), WolfError>(e) && final(self)@ == old(self)@,
                Ok(g) => r is Ok && final(self)@ == g,
            },
    {
        let ghost before = self@;
        if self.stage != WolfStage::SheriffSpeech {
            return Err(WolfError::WrongStage);
        }
        if self.sheriff_speech.speaker().is_some() {
            return Err(WolfError::Unfinished);
        }
        let alive = self.alive_indices();
        let candidates = self.sheriff_candidates();
        let n = self.players.len();
        let order = list_apart(&alive, &candidates, n);
        self.side_speech = Speeches::fresh(order);
        self.stage = WolfStage::SheriffSideSpeech;
        assert(self@ =~= before.sheriff_speeches_done_result()->Ok_0);
        Ok(())
    }

    /// Which of those who do not run speaks next.
    pub fn current_sheriff_side_speaker(&self) -> (r: Option<usize>)
        ensures
            r == self@.side_speech.speaker(),
    {
        self.side_speech.speaker()
    }

    /// What one who does not run says; an empty text is silence.
    pub fn submit_sheriff_side_speech(&mut self, id: &str, text: String) -> (r: Result<(), WolfError>)
        requires
            old(self)@.wf(),
        ensures
            final(self)@.wf(),
            match old(self)@.side_speech_result(id@, text@) {
                Err(e) => r == Err::<(), WolfError>(e) && final(self)@ == old(self)@,
                Ok(g) => r is Ok && final(self)@ == g,
            },
    {
        let ghost before = self@;
        if self.stage != WolfStage::SheriffSideSpeech {
            return Err(WolfError::WrongStage);
        }
        let i: usize = match self.read_turn(&self.side_speech, id) {
            Ok(i) => i,
            Err(e) => {
                return Err(e);
            },
        };
        let copy = text.clone();
        self.side_speech.speak(i, copy);
        if text.as_str().unicode_len() > 0 {
            let e = RecapEvent::SheriffSideSpeech { player: i, text };
            self.log_event(e);
        }
        assert(self@ =~= before.side_speech_result(id@, text@)->Ok_0);
        Ok(())
    }

    /// All have spoken; now those who do not run vote.
    pub fn finish_sheriff_side_speeches(&mut self) -> (r: Result<(), WolfError>)
        requires
            old(self)@.wf(),
        ensures
            final(self)@.wf(),
            match old(self)@.side_speeches_done_result() {
                Err(e) => r == Err::<(), WolfError>(e) && final(self)@ == old(self)@,
                Ok(g) => r is Ok && final(self)@ == g,
            },
    {
        let ghost before = self@;
        if self.stage != WolfStage::SheriffSideSpeech {
            return Err(WolfError::WrongStage);
        }
        if self.side_speech.speaker().is_some() {
            return Err(WolfError::Unfinished);
        }
        self.sheriff_votes = Vec::new();
        self.stage = WolfStage::SheriffVote;
        assert(self@ =~= before.side_speeches_done_result()->Ok_0);
        Ok(())
    }

    /// A vote for sheriff; candidates have none.
    pub fn cast_sheriff_vote(&mut self, id: &str, target: Option<&str>) -> (r: Result<(), WolfError>)
        requires
            old(self)@.wf(),
        ensures
            final(self)@.wf(),
            match old(self)@.sheriff_vote_result(
                id@,
                match target {
                    Some(t) => Some(t@),
                    None => None,
                },
            ) {
                Err(e) => r == Err::<(), WolfError>(e) && final(self)@ == old(self)@,
                Ok(g) => r is Ok && final(self)@ == g,
            },
    {
        let ghost before = self@;
        if self.stage != WolfStage::SheriffVote {
            return Err(WolfError::WrongStage);
        }
        let i: usize = match self.read_player(id) {
            Ok(i) => i,
            Err(e) => {
                return Err(e);
            },
        };
        let candidates = self.sheriff_candidates();
        if has_seat(&candidates, i) {
            return Err(WolfError::NotYours);
        }
        if voted(&self.sheriff_votes, i) {
            return Err(WolfError::AlreadyChosen);
        }
        let choice: Option<usize> = match target {
            None => None,
            Some(target) => match self.actor_seat(target) {
                Some(t) => {
                    if !has_seat(&candidates, t) {
                        return Err(WolfError::BadTarget);
                    }
                    Some(t)
                },
                None => {
                    return Err(WolfError::BadTarget);
                },
            },
        };
        self.sheriff_votes.push((i, choice));
        assert(self@ =~= (WolfGameView { sheriff_votes: before.sheriff_votes.push((i, choice)), ..before }));
        Ok(())
    }

    /// Whether everybody who may vote for sheriff has.
    pub fn all_sheriff_voters_cast(&self) -> (r: bool)
        requires
            self@.wf(),
        ensures
            r == self@.all_sheriff_votes(),
    {
        let candidates = self.sheriff_candidates();
        let mut i: usize = 0;
        while i < self.players.len()
            invariant
                candidates@ == self@.candidates(),
                i <= self.players@.len() == self@.players.len(),
                forall|k: int| 0 <= k < i && (#[trigger] self@.players[k]).alive && !self@.candidates().contains(
                    k as usize,
                ) ==> has_voted(self@.sheriff_votes, k as usize),
            decreases self.players@.len() - i,
        {
            assert(self@.players[i as int].alive == self.players@[i as int].alive);
            if self.players[i].alive && !has_seat(&candidates, i) && !voted(&self.sheriff_votes, i) {
                return false;
            }
            i = i + 1;
        }
        true
    }

    /// The votes for sheriff are counted; nobody is elected where two are level.
    pub fn resolve_sheriff_vote(&mut self) -> (r: Result<(), WolfError>)
        requires
            old(self)@.wf(),
        ensures
            final(self)@.wf(),
            match old(self)@.sheriff_votes_done_result() {
                Err(e) => r == Err::<(), WolfError>(e) && final(self)@ == old(self)@,
                Ok(g) => r is Ok && final(self)@ == g,
            },
    {
        if self.stage != WolfStage::SheriffVote {
            return Err(WolfError::WrongStage);
        }
        if !self.all_sheriff_voters_cast() {
            return Err(WolfError::Unfinished);
        }
        let n = self.players.len();
        assert(n == self@.players.len());
        let s = single_out(&self.sheriff_votes, None, n);
        self.choose_sheriff(s);
        Ok(())
    }

    // ---- the talk ----

    fn list_ring(&self, from: usize, clockwise: bool, first: usize) -> (r: Vec<usize>)
        requires
            self@.wf(),
            from < self@.players.len(),
            first <= self@.players.len(),
        ensures
            r@ == ring(self@.players, from, clockwise, first as nat, self@.players.len()),
            seats_in(r@, self@.players.len()),
    {
        let n = self.players.len();
        let mut out: Vec<usize> = Vec::new();
        let mut k: usize = first;
        while k < n
            invariant
                n == self.players@.len() == self@.players.len(),
                n <= 12,
                from < n,
                first <= k <= n,
                out@ == ring(self@.players, from, clockwise, first as nat, k as nat),
                seats_in(out@, n as nat),
            decreases n - k,
        {
            let seat: usize = if clockwise { (from + k) % n } else { (from + n - k) % n };
            assert(seat == place(n as nat, from, k as nat, clockwise));
            assert(self@.players[seat as int].alive == self.players@[seat as int].alive);
            if self.players[seat].alive {
                out.push(seat);
            }
            k = k + 1;
        }
        out
    }

    fn start_talk(&mut self, order: Vec<usize>)
        requires
            old(self)@.wf(),
            !old(self)@.in_election(),
            old(self)@.stage != WolfStage::Lobby,
            seats_in(order@, old(self)@.players.len()),
        ensures
            final(self)@ == old(self)@.talk(order@),
            final(self)@.wf(),
    {
        let ghost before = self@;
        self.day_speech = Speeches::fresh(order);
        self.stage = WolfStage::DaySpeech;
        assert(self@ =~= before.talk(order@));
    }

    /// The sheriff says which way round the table speaks; they speak last.
    pub fn pick_sheriff_direction(&mut self, id: &str, clockwise: bool) -> (r: Result<(), WolfError>)
        requires
            old(self)@.wf(),
        ensures
            final(self)@.wf(),
            match old(self)@.direction_result(id@, clockwise) {
                Err(e) => r == Err::<(), WolfError>(e) && final(self)@ == old(self)@,
                Ok(g) => r is Ok && final(self)@ == g,
            },
    {
        if self.stage != WolfStage::SheriffPickDirection {
            return Err(WolfError::WrongStage);
        }
        let i: usize = match self.read_pending(self.sheriff_idx, id) {
            Ok(i) => i,
            Err(e) => {
                return Err(e);
            },
        };
        let mut order = self.list_ring(i, clockwise, 1);
        order.push(i);
        self.start_talk(order);
        Ok(())
    }

    /// Without a sheriff the table speaks clockwise from this seat on.
    pub fn open_speeches(&mut self, start: usize) -> (r: Result<(), WolfError>)
        requires
            old(self)@.wf(),
        ensures
            final(self)@.wf(),
            match old(self)@.open_result(start) {
                Err(e) => r == Err::<(), WolfError>(e) && final(self)@ == old(self)@,
                Ok(g) => r is Ok && final(self)@ == g,
            },
    {
        if self.stage != WolfStage::DayOpen {
            return Err(WolfError::WrongStage);
        }
        assert(self.players@.len() == self@.players.len());
        if start >= self.players.len() {
            return Err(WolfError::BadTarget);
        }
        let order = self.list_ring(start, true, 0);
        self.start_talk(order);
        Ok(())
    }

    /// Without a sheriff the table speaks from a seat drawn at random.
    pub fn draw_first_speaker(&mut self) -> (r: Result<(), WolfError>)
        requires
            old(self)@.wf(),
        ensures
            final(self)@.wf(),
            old(self)@.stage != WolfStage::DayOpen ==> r == Err::<(), WolfError>(WolfError::WrongStage)
                && final(self)@ == old(self)@,
            old(self)@.stage == WolfStage::DayOpen ==> r is Ok && exists|start: usize|
                start < old(self)@.players.len() && Ok::<WolfGameView, WolfError>(final(self)@)
                    == #[trigger] old(self)@.open_result(start),
    {
        if self.stage != WolfStage::DayOpen {
            return Err(WolfError::WrongStage);
        }
        assert(self.players@.len() == self@.players.len());
        let start: usize = random_up_to(self.players.len() - 1);
        self.open_speeches(start)
    }

    /// Who speaks next by day.
    pub fn current_day_speaker(&self) -> (r: Option<usize>)
        ensures
            r == self@.day_speech.speaker(),
    {
        self.day_speech.speaker()
    }

    /// A speech of the day; an empty text is silence.
    pub fn submit_day_speech(&mut self, id: &str, text: String) -> (r: Result<(), WolfError>)
        requires
            old(self)@.wf(),
        ensures
            final(self)@.wf(),
            match old(self)@.day_speech_result(id@, text@) {
                Err(e) => r == Err::<(), WolfError>(e) && final(self)@ == old(self)@,
                Ok(g) => r is Ok && final(self)@ == g,
            },
    {
        let ghost before = self@;
        if self.stage != WolfStage::DaySpeech {
            return Err(WolfError::WrongStage);
        }
        let i: usize = match self.read_turn(&self.day_speech, id) {
            Ok(i) => i,
            Err(e) => {
                return Err(e);
            },
        };
        let copy = text.clone();
        self.day_speech.speak(i, copy);
        if text.as_str().unicode_len() > 0 {
            let e = RecapEvent::DaySpeech { day: self.day, player: i, text };
            self.log_event(e);
        }
        assert(self@ =~= before.day_speech_result(id@, text@)->Ok_0);
        Ok(())
    }

    /// All have spoken; now all vote.
    pub fn enter_day_vote(&mut self) -> (r: Result<(), WolfError>)
        requires
            old(self)@.wf(),
        ensures
            final(self)@.wf(),
            match old(self)@.day_speeches_done_result() {
                Err(e) => r == Err::<(), WolfError>(e) && final(self)@ == old(self)@,
                Ok(g) => r is Ok && final(self)@ == g,
            },
    {
        let ghost before = self@;
        if self.stage != WolfStage::DaySpeech {
            return Err(WolfError::WrongStage);
        }
        if self.day_speech.speaker().is_some() {
            return Err(WolfError::Unfinished);
        }
        self.day_votes = Vec::new();
        self.stage = WolfStage::DayVote;
        assert(self@ =~= before.day_speeches_done_result()->Ok_0);
        Ok(())
    }

    // ---- the vote ----

    /// A vote on whom to send out; nobody votes for themselves.
    pub fn cast_vote(&mut self, id: &str, target: Option<&str>) -> (r: Result<(), WolfError>)
        requires
            old(self)@.wf(),
        ensures
            final(self)@.wf(),
            match old(self)@.vote_result(
                id@,
                match target {
                    Some(t) => Some(t@),
                    None => None,
                },
            ) {
                Err(e) => r == Err::<(), WolfError>(e) && final(self)@ == old(self)@,
                Ok(g) => r is Ok && final(self)@ == g,
            },
    {
        let ghost before = self@;
        if self.stage != WolfStage::DayVote {
            return Err(WolfError::WrongStage);
        }
        let i: usize = match self.read_player(id) {
            Ok(i) => i,
            Err(e) => {
                return Err(e);
            },
        };
        if voted(&self.day_votes, i) {
            return Err(WolfError::AlreadyChosen);
        }
        let choice: Option<usize> = match target {
            None => None,
            Some(target) => match self.read_other(target, i) {
                Ok(t) => Some(t),
                Err(e) => {
                    return Err(e);
                },
            },
        };
        self.day_votes.push((i, choice));
        let e = RecapEvent::DayVoteCast { day: self.day, voter: i, target: choice };
        self.log_event(e);
        assert(self@ =~= before.voted(i, choice));
        Ok(())
    }

    /// Whether everybody who lives has voted.
    pub fn all_alive_voted(&self) -> (r: bool)
        ensures
            r == self@.all_voted(),
    {
        let mut i: usize = 0;
        while i < self.players.len()
            invariant
                i <= self.players@.len() == self@.players.len(),
                forall|k: int| 0 <= k < i && (#[trigger] self@.players[k]).alive ==> has_voted(
                    self@.day_votes,
                    k as usize,
                ),
            decreases self.players@.len() - i,
        {
            assert(self@.players[i as int].alive == self.players@[i as int].alive);
            if self.players[i].alive && !voted(&self.day_votes, i) {
                return false;
            }
            i = i + 1;
        }
        true
    }

    /// The votes are counted, the sheriff's one and a half times; nobody goes
    /// where two are level.
    pub fn resolve_lynch(&mut self) -> (r: Result<Option<usize>, WolfError>)
        requires
            old(self)@.wf(),
        ensures
            final(self)@.wf(),
            match old(self)@.count_result() {
                Err(e) => r == Err::<Option<usize>, WolfError>(e) && final(self)@ == old(self)@,
                Ok(g) => r == Ok::<Option<usize>, WolfError>(g.lynched) && final(self)@ == g,
            },
    {
        let ghost before = self@;
        if self.stage != WolfStage::DayVote {
            return Err(WolfError::WrongStage);
        }
        if !self.all_alive_voted() {
            return Err(WolfError::Unfinished);
        }
        let n = self.players.len();
        assert(n == self@.players.len());
        let t = single_out(&self.day_votes, self.sheriff_idx, n);
        self.lynched = t;
        let e = RecapEvent::DayLynch { day: self.day, target: t };
        self.log_event(e);
        let s = plus(plus_number("第 ".to_owned(), self.day as u64), " 天：");
        let s = match t {
            Some(i) => plus(plus(s, self.players[i].name.as_str()), " 被放逐"),
            None => plus(s, "无人被放逐"),
        };
        assert(s@ =~= lynch_line(before.day, before.name_at(t)));
        self.tell(s);
        assert(self@ =~= before.count_result()->Ok_0);
        Ok(t)
    }

    /// Whom the vote sends out is gone: what comes next?
    pub fn advance_after_vote(&mut self) -> (r: Result<(), WolfError>)
        requires
            old(self)@.wf(),
        ensures
            final(self)@.wf(),
            match old(self)@.evening_result() {
                Err(e) => r == Err::<(), WolfError>(e) && final(self)@ == old(self)@,
                Ok(g) => r is Ok && final(self)@ == g,
            },
    {
        let ghost before = self@;
        if self.stage != WolfStage::DayVote {
            return Err(WolfError::WrongStage);
        }
        if !self.all_alive_voted() {
            return Err(WolfError::Unfinished);
        }
        self.at_dawn = false;
        self.last_words = Speeches::fresh(Vec::new());
        assert(self@ =~= WolfGameView {
            at_dawn: false,
            last_words: SpeechesView::fresh(Seq::empty()),
            ..before
        });
        if let Some(t) = self.lynched {
            self.kill(t, DeathCause::Lynch);
        }
        self.settle();
        Ok(())
    }
}

} // verus!
