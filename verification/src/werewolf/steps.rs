//! Who is to move next. The game is driven by asking, again and again, what to
//! do now: AI players are asked for their moves, people get a card and are
//! waited for, and what is complete is concluded.

use vstd::prelude::*;
use vstd::string::*;
use super::day::{nominated, voted};
use super::model::{living, living_wolves, role_seat, seats_in, SpeechesView, WolfGameView, WolfPlayerView};
use super::night::has_seat;
use super::rules::{has_nominated, has_voted};
use super::{Role, Speeches, WolfError, WolfGame, WolfStage};

verus! {

/// What a player is asked for.
#[derive(Debug, Clone, Copy, PartialEq, Eq, Structural)]
pub enum Task {
    Guard,
    Wolf,
    Seer,
    Witch,
    LastWords,
    Shot,
    Badge,
    Run,
    SheriffSpeech,
    SideSpeech,
    SheriffVote,
    Direction,
    DaySpeech,
    Vote,
}

/// What is to be done now.
#[derive(Debug)]
pub enum WolfStep {
    /// Nothing; people are waited for, or the game is over.
    Rest,
    /// The guard is dead: go on without them.
    SkipGuard,
    /// Send this person a card, and wait.
    Prompt(usize, Task),
    /// Ask this AI player.
    Ask(usize, Task),
    /// Ask these AI players one after the other.
    AskAll(Vec<usize>, Task),
    /// Send these people a card, and wait.
    PromptAll(Vec<usize>, Task),
    /// There are people among the wolves: show them how things stand, and ask
    /// the AI wolves, who may speak to the pack.
    Pack(Vec<usize>, Vec<usize>),
    /// Draw who speaks first.
    Draw,
    /// The stage is complete.
    Conclude,
}

#[verifier::ext_equal]
pub enum WolfStepView {
    Rest,
    SkipGuard,
    Prompt(usize, Task),
    Ask(usize, Task),
    AskAll(Seq<usize>, Task),
    PromptAll(Seq<usize>, Task),
    Pack(Seq<usize>, Seq<usize>),
    Draw,
    Conclude,
}

impl View for WolfStep {
    type V = WolfStepView;

    open spec fn view(&self) -> WolfStepView {
        match *self {
            WolfStep::Rest => WolfStepView::Rest,
            WolfStep::SkipGuard => WolfStepView::SkipGuard,
            WolfStep::Prompt(i, t) => WolfStepView::Prompt(i, t),
            WolfStep::Ask(i, t) => WolfStepView::Ask(i, t),
            WolfStep::AskAll(s, t) => WolfStepView::AskAll(s@, t),
            WolfStep::PromptAll(s, t) => WolfStepView::PromptAll(s@, t),
            WolfStep::Pack(p, a) => WolfStepView::Pack(p@, a@),
            WolfStep::Draw => WolfStepView::Draw,
            WolfStep::Conclude => WolfStepView::Conclude,
        }
    }
}

/// Those of the seats that an AI player holds, or those that a person does.
pub open spec fn seats_of(players: Seq<WolfPlayerView>, seats: Seq<usize>, is_ai: bool) -> Seq<usize>
    decreases seats.len(),
{
    if seats.len() == 0 {
        Seq::empty()
    } else {
        let rest = seats_of(players, seats.drop_last(), is_ai);
        if players[seats.last() as int].is_ai == is_ai { rest.push(seats.last()) } else { rest }
    }
}

/// Those of the seats who have not said if they run.
pub open spec fn undeclared(list: Seq<(usize, bool)>, seats: Seq<usize>) -> Seq<usize>
    decreases seats.len(),
{
    if seats.len() == 0 {
        Seq::empty()
    } else {
        let rest = undeclared(list, seats.drop_last());
        if !has_nominated(list, seats.last()) { rest.push(seats.last()) } else { rest }
    }
}

/// Those of the seats who have not voted and are not in the way of it.
pub open spec fn unvoted(votes: Seq<(usize, Option<usize>)>, barred: Seq<usize>, seats: Seq<usize>) -> Seq<usize>
    decreases seats.len(),
{
    if seats.len() == 0 {
        Seq::empty()
    } else {
        let rest = unvoted(votes, barred, seats.drop_last());
        if !barred.contains(seats.last()) && !has_voted(votes, seats.last()) {
            rest.push(seats.last())
        } else {
            rest
        }
    }
}

/// Whether the wolf has chosen.
pub open spec fn has_picked(votes: Seq<(usize, usize)>, wolf: usize) -> bool {
    exists|k: int| 0 <= k < votes.len() && (#[trigger] votes[k]).0 == wolf
}

/// Those of the wolves who have not chosen.
pub open spec fn unpicked(votes: Seq<(usize, usize)>, seats: Seq<usize>) -> Seq<usize>
    decreases seats.len(),
{
    if seats.len() == 0 {
        Seq::empty()
    } else {
        let rest = unpicked(votes, seats.drop_last());
        if !has_picked(votes, seats.last()) { rest.push(seats.last()) } else { rest }
    }
}

/// Those of the wolves whose choice does not stand yet.
pub open spec fn unready(ready: Seq<usize>, seats: Seq<usize>) -> Seq<usize>
    decreases seats.len(),
{
    if seats.len() == 0 {
        Seq::empty()
    } else {
        let rest = unready(ready, seats.drop_last());
        if !ready.contains(seats.last()) { rest.push(seats.last()) } else { rest }
    }
}

impl WolfGameView {
    /// A single player's move: an AI player is asked, a person gets a card.
    pub open spec fn step_for(self, seat: Option<usize>, task: Task) -> WolfStepView {
        match seat {
            None => WolfStepView::Rest,
            Some(i) => if self.players[i as int].is_ai {
                WolfStepView::Ask(i, task)
            } else {
                WolfStepView::Prompt(i, task)
            },
        }
    }

    /// Speeches: the speaker's turn, or the end of them.
    pub open spec fn speech_step(self, s: SpeechesView, task: Task) -> WolfStepView {
        match s.speaker() {
            None => WolfStepView::Conclude,
            Some(i) => self.step_for(Some(i), task),
        }
    }

    /// Moves of all: the AI players are asked first, once, then people get a
    /// card until the moves are complete.
    pub open spec fn step_for_all(self, pending: Seq<usize>, complete: bool, task: Task, asked: bool) -> WolfStepView {
        let ais = seats_of(self.players, pending, true);
        if !asked && ais.len() > 0 {
            WolfStepView::AskAll(ais, task)
        } else if complete {
            WolfStepView::Conclude
        } else {
            WolfStepView::PromptAll(seats_of(self.players, pending, false), task)
        }
    }

    pub open spec fn guard_step(self) -> WolfStepView {
        match role_seat(self.players, Role::Guard, 0) {
            None => WolfStepView::Rest,
            Some(i) => if !self.players[i as int].alive {
                WolfStepView::SkipGuard
            } else {
                self.step_for(Some(i), Task::Guard)
            },
        }
    }

    /// A pack of AI players is asked and is done. With people among the wolves
    /// it is not done before every choice stands.
    pub open spec fn wolves_step(self, asked: bool) -> WolfStepView {
        let pack = living_wolves(self.players);
        let people = seats_of(self.players, pack, false);
        if people.len() == 0 {
            let pending = unpicked(self.wolf_kill_votes, pack);
            if !asked && pending.len() > 0 {
                WolfStepView::AskAll(pending, Task::Wolf)
            } else {
                WolfStepView::Conclude
            }
        } else if !asked {
            WolfStepView::Pack(people, seats_of(self.players, unready(self.wolf_ready, pack), true))
        } else if self.pack_ready() {
            WolfStepView::Conclude
        } else {
            WolfStepView::Rest
        }
    }

    /// What is to be done now; `asked` says that the AI players have just been
    /// asked.
    pub open spec fn step(self, asked: bool) -> WolfStepView {
        match self.stage {
            WolfStage::Lobby => WolfStepView::Rest,
            WolfStage::Ended => WolfStepView::Rest,
            WolfStage::GuardPick => self.guard_step(),
            WolfStage::WolvesPick => self.wolves_step(asked),
            WolfStage::SeerPick => self.step_for(role_seat(self.players, Role::Seer, 0), Task::Seer),
            WolfStage::WitchAct => self.step_for(role_seat(self.players, Role::Witch, 0), Task::Witch),
            WolfStage::DayReveal => WolfStepView::Conclude,
            WolfStage::LastWords => self.speech_step(self.last_words, Task::LastWords),
            WolfStage::HunterShoot => self.step_for(self.pending_hunter, Task::Shot),
            WolfStage::BadgePass => self.step_for(self.pending_badge, Task::Badge),
            WolfStage::SheriffNominate => self.step_for_all(
                undeclared(self.sheriff_nominations, living(self.players)),
                self.all_nominated(),
                Task::Run,
                asked,
            ),
            WolfStage::SheriffSpeech => self.speech_step(self.sheriff_speech, Task::SheriffSpeech),
            WolfStage::SheriffSideSpeech => self.speech_step(self.side_speech, Task::SideSpeech),
            WolfStage::SheriffVote => self.step_for_all(
                unvoted(self.sheriff_votes, self.candidates(), living(self.players)),
                self.all_sheriff_votes(),
                Task::SheriffVote,
                asked,
            ),
            WolfStage::SheriffPickDirection => self.step_for(self.sheriff_idx, Task::Direction),
            WolfStage::DayOpen => WolfStepView::Draw,
            WolfStage::DaySpeech => self.speech_step(self.day_speech, Task::DaySpeech),
            WolfStage::DayVote => self.step_for_all(
                unvoted(self.day_votes, Seq::empty(), living(self.players)),
                self.all_voted(),
                Task::Vote,
                asked,
            ),
        }
    }

    /// The end of a stage that is complete.
    pub open spec fn conclusion(self) -> Result<WolfGameView, WolfError> {
        match self.stage {
            WolfStage::WolvesPick => self.wolves_done_result(),
            WolfStage::DayReveal => self.reveal_result(),
            WolfStage::LastWords => self.last_words_done_result(),
            WolfStage::SheriffNominate => self.nominated_result(),
            WolfStage::SheriffSpeech => self.sheriff_speeches_done_result(),
            WolfStage::SheriffSideSpeech => self.side_speeches_done_result(),
            WolfStage::SheriffVote => self.sheriff_votes_done_result(),
            WolfStage::DaySpeech => self.day_speeches_done_result(),
            WolfStage::DayVote => match self.count_result() {
                Ok(v) => v.evening_result(),
                Err(e) => Err(e),
            },
            _ => Err(WolfError::WrongStage),
        }
    }
}

// ---- the same, computed ----

fn keep_kind(game: &WolfGame, seats: &Vec<usize>, is_ai: bool) -> (r: Vec<usize>)
    requires
        seats_in(seats@, game@.players.len()),
    ensures
        r@ == seats_of(game@.players, seats@, is_ai),
        seats_in(r@, game@.players.len()),
{
    let mut out: Vec<usize> = Vec::new();
    let mut i: usize = 0;
    assert(seats@.take(0) =~= Seq::empty());
    while i < seats.len()
        invariant
            seats_in(seats@, game@.players.len()),
            i <= seats@.len(),
            out@ == seats_of(game@.players, seats@.take(i as int), is_ai),
            seats_in(out@, game@.players.len()),
        decreases seats@.len() - i,
    {
        assert(seats@.take(i + 1).drop_last() =~= seats@.take(i as int));
        assert(seats@.take(i + 1).last() == seats@[i as int]);
        let s = seats[i];
        assert(seats@[i as int] < game@.players.len());
        assert(game@.players[s as int].is_ai == game.players@[s as int].is_ai);
        if game.players[s].is_ai == is_ai {
            out.push(s);
        }
        i = i + 1;
    }
    assert(seats@.take(i as int) =~= seats@);
    out
}

fn keep_undeclared(list: &Vec<(usize, bool)>, seats: &Vec<usize>, n: usize) -> (r: Vec<usize>)
    requires
        seats_in(seats@, n as nat),
    ensures
        r@ == undeclared(list@, seats@),
        seats_in(r@, n as nat),
{
    let mut out: Vec<usize> = Vec::new();
    let mut i: usize = 0;
    assert(seats@.take(0) =~= Seq::empty());
    while i < seats.len()
        invariant
            seats_in(seats@, n as nat),
            i <= seats@.len(),
            out@ == undeclared(list@, seats@.take(i as int)),
            seats_in(out@, n as nat),
        decreases seats@.len() - i,
    {
        assert(seats@.take(i + 1).drop_last() =~= seats@.take(i as int));
        assert(seats@.take(i + 1).last() == seats@[i as int]);
        if !nominated(list, seats[i]) {
            out.push(seats[i]);
        }
        i = i + 1;
    }
    assert(seats@.take(i as int) =~= seats@);
    out
}

fn keep_unvoted(votes: &Vec<(usize, Option<usize>)>, barred: &Vec<usize>, seats: &Vec<usize>, n: usize) -> (r: Vec<usize>)
    requires
        seats_in(seats@, n as nat),
    ensures
        r@ == unvoted(votes@, barred@, seats@),
        seats_in(r@, n as nat),
{
    let mut out: Vec<usize> = Vec::new();
    let mut i: usize = 0;
    assert(seats@.take(0) =~= Seq::empty());
    while i < seats.len()
        invariant
            seats_in(seats@, n as nat),
            i <= seats@.len(),
            out@ == unvoted(votes@, barred@, seats@.take(i as int)),
            seats_in(out@, n as nat),
        decreases seats@.len() - i,
    {
        assert(seats@.take(i + 1).drop_last() =~= seats@.take(i as int));
        assert(seats@.take(i + 1).last() == seats@[i as int]);
        if !has_seat(barred, seats[i]) && !voted(votes, seats[i]) {
            out.push(seats[i]);
        }
        i = i + 1;
    }
    assert(seats@.take(i as int) =~= seats@);
    out
}

fn picked(votes: &Vec<(usize, usize)>, wolf: usize) -> (r: bool)
    ensures
        r == has_picked(votes@, wolf),
{
    let mut i: usize = 0;
    while i < votes.len()
        invariant
            i <= votes@.len(),
            forall|k: int| 0 <= k < i ==> (#[trigger] votes@[k]).0 != wolf,
        decreases votes@.len() - i,
    {
        if votes[i].0 == wolf {
            return true;
        }
        i = i + 1;
    }
    false
}

fn keep_unpicked(votes: &Vec<(usize, usize)>, seats: &Vec<usize>) -> (r: Vec<usize>)
    ensures
        r@ == unpicked(votes@, seats@),
{
    let mut out: Vec<usize> = Vec::new();
    let mut i: usize = 0;
    assert(seats@.take(0) =~= Seq::empty());
    while i < seats.len()
        invariant
            i <= seats@.len(),
            out@ == unpicked(votes@, seats@.take(i as int)),
        decreases seats@.len() - i,
    {
        assert(seats@.take(i + 1).drop_last() =~= seats@.take(i as int));
        assert(seats@.take(i + 1).last() == seats@[i as int]);
        if !picked(votes, seats[i]) {
            out.push(seats[i]);
        }
        i = i + 1;
    }
    assert(seats@.take(i as int) =~= seats@);
    out
}

fn keep_unready(ready: &Vec<usize>, seats: &Vec<usize>, n: usize) -> (r: Vec<usize>)
    requires
        seats_in(seats@, n as nat),
    ensures
        r@ == unready(ready@, seats@),
        seats_in(r@, n as nat),
{
    let mut out: Vec<usize> = Vec::new();
    let mut i: usize = 0;
    assert(seats@.take(0) =~= Seq::empty());
    while i < seats.len()
        invariant
            seats_in(seats@, n as nat),
            i <= seats@.len(),
            out@ == unready(ready@, seats@.take(i as int)),
            seats_in(out@, n as nat),
        decreases seats@.len() - i,
    {
        assert(seats@.take(i + 1).drop_last() =~= seats@.take(i as int));
        assert(seats@.take(i + 1).last() == seats@[i as int]);
        if !has_seat(ready, seats[i]) {
            out.push(seats[i]);
        }
        i = i + 1;
    }
    assert(seats@.take(i as int) =~= seats@);
    out
}

impl WolfGame {
    fn one_step(&self, seat: Option<usize>, task: Task) -> (r: WolfStep)
        requires
            super::model::seat_in(seat, self@.players.len()),
        ensures
            r@ == self@.step_for(seat, task),
    {
        match seat {
            None => WolfStep::Rest,
            Some(i) => {
                assert(self@.players[i as int].is_ai == self.players@[i as int].is_ai);
                if self.players[i].is_ai {
                    WolfStep::Ask(i, task)
                } else {
                    WolfStep::Prompt(i, task)
                }
            },
        }
    }

    fn talk_step(&self, s: &Speeches, task: Task) -> (r: WolfStep)
        requires
            s@.wf(self@.players.len()),
        ensures
            r@ == self@.speech_step(s@, task),
    {
        match s.speaker() {
            None => WolfStep::Conclude,
            Some(i) => {
                assert(s@.order[s@.next] < self@.players.len());
                self.one_step(Some(i), task)
            },
        }
    }

    fn common_step(&self, pending: &Vec<usize>, complete: bool, task: Task, asked: bool) -> (r: WolfStep)
        requires
            seats_in(pending@, self@.players.len()),
        ensures
            r@ == self@.step_for_all(pending@, complete, task, asked),
    {
        let ais = keep_kind(self, pending, true);
        if !asked && ais.len() > 0 {
            WolfStep::AskAll(ais, task)
        } else if complete {
            WolfStep::Conclude
        } else {
            WolfStep::PromptAll(keep_kind(self, pending, false), task)
        }
    }

    fn pack_step(&self, asked: bool) -> (r: WolfStep)
        requires
            self@.wf(),
        ensures
            r@ == self@.wolves_step(asked),
    {
        let pack = self.alive_wolves();
        let people = keep_kind(self, &pack, false);
        let n = self.players.len();
        assert(n == self@.players.len());
        if people.len() == 0 {
            let pending = keep_unpicked(&self.wolf_kill_votes, &pack);
            if !asked && pending.len() > 0 {
                WolfStep::AskAll(pending, Task::Wolf)
            } else {
                WolfStep::Conclude
            }
        } else if !asked {
            let pending = keep_unready(&self.wolf_ready, &pack, n);
            WolfStep::Pack(people, keep_kind(self, &pending, true))
        } else if self.all_alive_wolves_ready() {
            WolfStep::Conclude
        } else {
            WolfStep::Rest
        }
    }

    /// What is to be done now; `asked` says that the AI players have just been
    /// asked.
    pub fn next_step(&self, asked: bool) -> (r: WolfStep)
        requires
            self@.wf(),
        ensures
            r@ == self@.step(asked),
    {
        let n = self.players.len();
        assert(n == self@.players.len());
        match self.stage {
            WolfStage::Lobby | WolfStage::Ended => WolfStep::Rest,
            WolfStage::GuardPick => match self.role_idx(Role::Guard) {
                None => WolfStep::Rest,
                Some(i) => {
                    assert(self@.players[i as int].alive == self.players@[i as int].alive);
                    if !self.players[i].alive {
                        WolfStep::SkipGuard
                    } else {
                        self.one_step(Some(i), Task::Guard)
                    }
                },
            },
            WolfStage::WolvesPick => self.pack_step(asked),
            WolfStage::SeerPick => self.one_step(self.role_idx(Role::Seer), Task::Seer),
            WolfStage::WitchAct => self.one_step(self.role_idx(Role::Witch), Task::Witch),
            WolfStage::DayReveal => WolfStep::Conclude,
            WolfStage::LastWords => self.talk_step(&self.last_words, Task::LastWords),
            WolfStage::HunterShoot => self.one_step(self.pending_hunter, Task::Shot),
            WolfStage::BadgePass => self.one_step(self.pending_badge, Task::Badge),
            WolfStage::SheriffNominate => {
                let alive = self.alive_indices();
                let pending = keep_undeclared(&self.sheriff_nominations, &alive, n);
                self.common_step(&pending, self.all_alive_nominated(), Task::Run, asked)
            },
            WolfStage::SheriffSpeech => self.talk_step(&self.sheriff_speech, Task::SheriffSpeech),
            WolfStage::SheriffSideSpeech => self.talk_step(&self.side_speech, Task::SideSpeech),
            WolfStage::SheriffVote => {
                let alive = self.alive_indices();
                let candidates = self.sheriff_candidates();
                let pending = keep_unvoted(&self.sheriff_votes, &candidates, &alive, n);
                self.common_step(&pending, self.all_sheriff_voters_cast(), Task::SheriffVote, asked)
            },
            WolfStage::SheriffPickDirection => self.one_step(self.sheriff_idx, Task::Direction),
            WolfStage::DayOpen => WolfStep::Draw,
            WolfStage::DaySpeech => self.talk_step(&self.day_speech, Task::DaySpeech),
            WolfStage::DayVote => {
                let alive = self.alive_indices();
                let nobody: Vec<usize> = Vec::new();
                assert(nobody@ =~= Seq::empty());
                let pending = keep_unvoted(&self.day_votes, &nobody, &alive, n);
                self.common_step(&pending, self.all_alive_voted(), Task::Vote, asked)
            },
        }
    }

    /// End a stage that is complete.
    pub fn conclude(&mut self) -> (r: Result<(), WolfError>)
        requires
            old(self)@.wf(),
        ensures
            final(self)@.wf(),
            match old(self)@.conclusion() {
                Err(e) => r == Err::<(), WolfError>(e) && final(self)@ == old(self)@,
                Ok(g) => r is Ok && final(self)@ == g,
            },
    {
        match self.stage {
            WolfStage::WolvesPick => self.advance_after_wolves(),
            WolfStage::DayReveal => self.enter_day_discuss(),
            WolfStage::LastWords => self.finish_last_words(),
            WolfStage::SheriffNominate => self.finish_sheriff_nominate(),
            WolfStage::SheriffSpeech => self.finish_sheriff_speeches(),
            WolfStage::SheriffSideSpeech => self.finish_sheriff_side_speeches(),
            WolfStage::SheriffVote => self.resolve_sheriff_vote(),
            WolfStage::DaySpeech => self.enter_day_vote(),
            WolfStage::DayVote => match self.resolve_lynch() {
                Ok(_) => self.advance_after_vote(),
                Err(e) => Err(e),
            },
            _ => Err(WolfError::WrongStage),
        }
    }
}

/// How many stages the game is taken on in one go at most.
pub const MAX_STAGES: u32 = 50;

/// How much further the game may be taken in one go, and whether AI players have
/// just been asked.
#[derive(Debug, Clone, Copy, PartialEq, Eq, Structural)]
pub struct Drive {
    pub stages_left: u32,
    pub asked: bool,
}

impl Drive {
    /// The next step, and whether it comes after AI players were asked; nothing
    /// where the limit is reached. What concludes a stage in which they were
    /// asked belongs to that stage.
    pub open spec fn moved_on(self) -> (Drive, Option<bool>) {
        if self.asked {
            (Drive { asked: false, ..self }, Some(true))
        } else if self.stages_left > 0 {
            (Drive { stages_left: (self.stages_left - 1) as u32, ..self }, Some(false))
        } else {
            (self, None)
        }
    }

    /// The drive once a step has been taken.
    pub open spec fn noted(self, step: WolfStepView) -> Drive {
        Drive { asked: step is AskAll || step is Pack, ..self }
    }

    /// Nothing has been done yet.
    pub fn new() -> (r: Self)
        ensures
            r == (Drive { stages_left: MAX_STAGES, asked: false }),
    {
        Drive { stages_left: MAX_STAGES, asked: false }
    }

    /// Go on to the next step, if there may be one. Gives whether AI players have
    /// just been asked.
    pub fn go_on(&mut self) -> (r: Option<bool>)
        ensures
            (*final(self), r) == old(self).moved_on(),
    {
        if self.asked {
            self.asked = false;
            Some(true)
        } else if self.stages_left > 0 {
            self.stages_left = self.stages_left - 1;
            Some(false)
        } else {
            None
        }
    }

    /// Note the step that is being taken.
    pub fn note(&mut self, step: &WolfStep)
        ensures
            *final(self) == old(self).noted(step@),
    {
        self.asked = match step {
            WolfStep::AskAll(_, _) | WolfStep::Pack(_, _) => true,
            _ => false,
        };
    }
}

/// A drive ends: whatever the game is at each step, a step brings the limit
/// nearer.
pub proof fn a_drive_ends(d: Drive, g: WolfGameView)
    ensures
        d.moved_on().1 matches Some(asked) ==> {
            let after = d.moved_on().0.noted(g.step(asked));
            2 * after.stages_left + (if after.asked { 1int } else { 0int }) < 2 * d.stages_left + (if d.asked { 1int } else {
                0int
            })
        },
{
    nobody_is_asked_twice_running(g);
}

/// Those who have just been asked are not asked again before the stage is
/// concluded or people have acted.
pub proof fn nobody_is_asked_twice_running(g: WolfGameView)
    ensures
        !(g.step(true) is AskAll),
        !(g.step(true) is Pack),
{
}

/// What is to be concluded can be: no stage is declared complete that is not.
pub proof fn what_is_complete_ends(g: WolfGameView, asked: bool)
    requires
        g.step(asked) == WolfStepView::Conclude,
    ensures
        g.conclusion() is Ok,
{
}

/// A stage ends only when nobody is left who has something to do in it: the
/// night of a pack with people when every choice stands, speeches when everybody
/// has spoken, and a vote when everybody has voted.
pub proof fn nobody_is_passed_over(g: WolfGameView, asked: bool)
    requires
        g.step(asked) == WolfStepView::Conclude,
    ensures
        g.stage == WolfStage::WolvesPick && seats_of(g.players, living_wolves(g.players), false).len() > 0 ==> g.pack_ready(),
        g.stage == WolfStage::LastWords ==> g.last_words.speaker() is None,
        g.stage == WolfStage::SheriffNominate ==> g.all_nominated(),
        g.stage == WolfStage::SheriffSpeech ==> g.sheriff_speech.speaker() is None,
        g.stage == WolfStage::SheriffSideSpeech ==> g.side_speech.speaker() is None,
        g.stage == WolfStage::SheriffVote ==> g.all_sheriff_votes(),
        g.stage == WolfStage::DaySpeech ==> g.day_speech.speaker() is None,
        g.stage == WolfStage::DayVote ==> g.all_voted(),
{
}

/// Nobody is waited for who is not a person, and no AI player is asked who is
/// not one.
pub proof fn the_right_ones_are_asked(g: WolfGameView, asked: bool, i: usize, task: Task)
    ensures
        g.step(asked) == WolfStepView::Ask(i, task) ==> g.players[i as int].is_ai,
        g.step(asked) == WolfStepView::Prompt(i, task) ==> !g.players[i as int].is_ai,
{
}

} // verus!
