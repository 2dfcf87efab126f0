//! The turn of an AI player: what the model is asked for a task, and what is done
//! with its answer.

use vstd::prelude::*;
use vstd::string::*;
use super::autoplay::ones_own_seat;
use super::clicks::{WolfMove, WolfMoveView};
use super::decisions::{
    a_wolf_strikes_no_wolf, badge_pass, checked, clipped, day_speech, first_other, first_prey, guard_alone, guard_choice,
    guard_pick, guard_without_model, hunter_pick, last_words, listed, named, option_view, others_facts, seer_alone,
    seer_choice, seer_default, seer_pick, sheriff_direction, sheriff_run, sheriff_side_speech, sheriff_speech,
    sheriff_vote, sheriff_vote_without_model, speech_text, unchecked, vote_pick, witch_choice, witch_decide, wolf_alone,
    wolf_default, wolf_pick, wolf_target, WitchDecision, WitchReply, WolfPickDecision, WolfPickReply,
    SPEECH_WITHOUT_MODEL,
};
use super::model::{
    living, living_facts, living_wolves, living_wolves_facts, role_seat_facts, said_view, WolfGameView, WolfPlayerView,
};
use super::prompts::{
    badge_question, badge_user_text, conversation, day_speech_question, direction_question, guard_question,
    guard_user_text, guardable, hunter_question, hunter_user_text, last_words_question, others, pairs_view, prey,
    role_task_text, run_question, seer_question, seer_user_text, sheriff_speech_question, sheriff_vote_question,
    sheriff_vote_system_text, sheriff_vote_user_text, side_speech_question, task_text, voice_task_text, vote_question,
    vote_user_text, witch_question, witch_user_text, wolf_question, wolf_system_text, wolf_user_text, AttemptHistory,
    BADGE_SYSTEM, DAY_SPEECH_SYSTEM, DIRECTION_SYSTEM, GUARD_SYSTEM, HUNTER_SYSTEM, LAST_WORDS_SYSTEM, RUN_SYSTEM,
    SEER_SYSTEM, SHERIFF_SPEECH_SYSTEM, SIDE_SPEECH_SYSTEM, VOTE_SYSTEM, WITCH_SYSTEM,
};
use super::rules::{has_nominated, has_voted, runners};
use super::steps::{seats_of, undeclared, unpicked, unready, unvoted, Task, WolfStepView};
use super::view::{build_view, view_of};
use super::{Role, WolfError, WolfGame, WolfStage};

verus! {

/// A model's answer, read for a task.
#[derive(Debug)]
pub enum Reply {
    /// There is none, or it cannot be read.
    Nothing,
    Wolf(WolfPickReply),
    Witch(WitchReply),
    /// Whom the guard protects, or whom the seer checks.
    Seat(usize),
    /// A seat, or a negative number for nobody.
    Choice(i64),
    Run(bool),
    Clockwise(bool),
    Speech(Option<String>),
}

impl Reply {
    pub open spec fn seat_view(self) -> Option<usize> {
        match self {
            Reply::Seat(t) => Some(t),
            _ => None,
        }
    }

    pub open spec fn choice_view(self) -> Option<i64> {
        match self {
            Reply::Choice(t) => Some(t),
            _ => None,
        }
    }

    pub open spec fn speech_view(self) -> Option<Option<Seq<char>>> {
        match self {
            Reply::Speech(s) => Some(option_view(s)),
            _ => None,
        }
    }

    fn seat(&self) -> (r: Option<usize>)
        ensures
            r == self.seat_view(),
    {
        match self {
            Reply::Seat(t) => Some(*t),
            _ => None,
        }
    }

    fn choice(&self) -> (r: Option<i64>)
        ensures
            r == self.choice_view(),
    {
        match self {
            Reply::Choice(t) => Some(*t),
            _ => None,
        }
    }

    fn speech(&self) -> (r: Option<Option<String>>)
        ensures
            super::decisions::reply_view(r) == self.speech_view(),
    {
        match self {
            Reply::Speech(Some(s)) => Some(Some(s.clone())),
            Reply::Speech(None) => Some(None),
            _ => None,
        }
    }
}

/// Whether the player at `seat` can be asked: they are there and have a role.
pub open spec fn askable(g: WolfGameView, seat: usize) -> bool {
    seat < g.players.len() && g.players[seat as int].role is Some
}

impl WolfGameView {
    /// The id of the player whom a choice names.
    pub open spec fn id_chosen(self, t: Option<usize>) -> Option<Seq<char>> {
        match t {
            Some(i) => if i < self.players.len() { Some(self.id_at(i)) } else { None },
            None => None,
        }
    }

    /// The candidates with their names.
    pub open spec fn ballot(self) -> Seq<(usize, Seq<char>)> {
        self.candidates().map_values(|c: usize| (c, self.players[c as int].name))
    }

    /// The move that an AI player makes for a task of the day, or at which the
    /// seer looks at somebody.
    pub open spec fn task_move(self, seat: usize, task: Task, model: bool, reply: Reply) -> Option<WolfMoveView> {
        let v = view_of(self, seat);
        let said = reply.speech_view();
        let chosen = self.id_chosen(named(others(v.players, v.me_idx), reply.choice_view()));
        match task {
            Task::Seer => match self.id_chosen(
                Some(if model { seer_choice(v, reply.seat_view()) } else { seer_alone(self, seat) }),
            ) {
                Some(id) => Some(WolfMoveView::Check(id)),
                None => None,
            },
            Task::LastWords => Some(WolfMoveView::LastWords(speech_text(said, 250, ""@, ""@))),
            Task::Shot => Some(WolfMoveView::Shoot(chosen)),
            Task::Badge => Some(WolfMoveView::Badge(chosen)),
            Task::Run => Some(
                WolfMoveView::Nominate(
                    match reply {
                        Reply::Run(b) => b,
                        _ => v.me_role == Role::Seer,
                    },
                ),
            ),
            Task::SheriffSpeech => Some(
                WolfMoveView::SheriffSpeech(
                    if model {
                        speech_text(said, 200, "我支持平和过渡，先听其他玩家。"@, "我先表态。"@)
                    } else {
                        SPEECH_WITHOUT_MODEL@
                    },
                ),
            ),
            Task::SideSpeech => Some(WolfMoveView::SideSpeech(speech_text(said, 150, ""@, ""@))),
            Task::SheriffVote => Some(
                WolfMoveView::SheriffVote(
                    self.id_chosen(
                        if model {
                            named(self.ballot(), reply.choice_view())
                        } else if self.candidates().len() > 0 {
                            Some(self.candidates()[0])
                        } else {
                            None
                        },
                    ),
                ),
            ),
            Task::Direction => Some(
                WolfMoveView::Direction(
                    match reply {
                        Reply::Clockwise(b) => b,
                        _ => true,
                    },
                ),
            ),
            Task::DaySpeech => Some(WolfMoveView::DaySpeech(speech_text(said, 200, ""@, ""@))),
            Task::Vote => Some(WolfMoveView::Vote(chosen)),
            Task::Guard | Task::Wolf | Task::Witch => None,
        }
    }

    /// Whom the AI guard protects.
    pub open spec fn guard_task(self, seat: usize, model: bool, reply: Reply) -> usize {
        if model {
            guard_choice(view_of(self, seat), self.last_guard_target, reply.seat_view())
        } else {
            guard_alone(self, seat)
        }
    }

    /// Whom the AI wolf kills, and what they say to the pack.
    pub open spec fn wolf_task(self, seat: usize, speak: bool, model: bool, reply: Reply) -> (usize, Option<Seq<char>>) {
        let list = prey(view_of(self, seat).players, self);
        if model {
            match reply {
                Reply::Wolf(a) => (
                    wolf_target(list, Some(a.target_idx)),
                    if speak && list.len() > 0 { clipped(option_view(a.chat), 60) } else { None },
                ),
                _ => (wolf_target(list, None), None),
            }
        } else {
            (wolf_alone(self), None)
        }
    }

    /// What the AI witch does.
    pub open spec fn witch_task(self, seat: usize, reply: Reply) -> WitchDecision {
        match reply {
            Reply::Witch(a) => witch_choice(view_of(self, seat), self, a.action@, a.poison_target_idx),
            _ => WitchDecision::Skip,
        }
    }

    /// The game after the turn of the AI player at `seat`. What the rules refuse
    /// leaves the game as it was.
    pub open spec fn turn_played(self, seat: usize, task: Task, speak: bool, model: bool, reply: Reply) -> WolfGameView {
        match task {
            Task::Guard => {
                let t = self.guard_task(seat, model, reply);
                if t < self.players.len() { self.guard_played(seat, t) } else { self }
            },
            Task::Wolf => {
                let (t, chat) = self.wolf_task(seat, speak, model, reply);
                if t < self.players.len() { self.wolf_played(seat, t, chat, speak) } else { self }
            },
            Task::Witch => {
                let d = self.witch_task(seat, reply);
                if d is Poison && d->Poison_0 >= self.players.len() {
                    self.witch_played(seat, WitchDecision::Skip)
                } else {
                    self.witch_played(seat, d)
                }
            },
            _ => match self.task_move(seat, task, model, reply) {
                Some(m) => match self.moved(self.id_at(seat), m) {
                    Ok((g, _)) => g,
                    Err(_) => self,
                },
                None => self,
            },
        }
    }
}

/// What the model is asked for a task, where there is anything to choose.
pub open spec fn task_question(g: WolfGameView, seat: usize, task: Task, speak: bool) -> Option<Seq<(Seq<char>, Seq<char>)>> {
    let v = view_of(g, seat);
    let rest = others(v.players, v.me_idx);
    let none: Seq<(Seq<char>, Seq<char>)> = Seq::empty();
    match task {
        Task::Guard => if guardable(v.players, g.last_guard_target).len() == 0 {
            None
        } else {
            Some(conversation(task_text(GUARD_SYSTEM@, v), guard_user_text(v, g), none))
        },
        Task::Wolf => if prey(v.players, g).len() == 0 {
            None
        } else {
            Some(conversation(wolf_system_text(v, speak), wolf_user_text(v, g), none))
        },
        Task::Seer => if rest.len() == 0 {
            None
        } else {
            Some(conversation(task_text(SEER_SYSTEM@, v), seer_user_text(v), none))
        },
        Task::Witch => Some(conversation(task_text(WITCH_SYSTEM@, v), witch_user_text(v, g), none)),
        Task::LastWords => Some(conversation(voice_task_text(LAST_WORDS_SYSTEM@, v), v.text(), none)),
        Task::Shot => if rest.len() == 0 {
            None
        } else {
            Some(conversation(role_task_text(HUNTER_SYSTEM@, v), hunter_user_text(v), none))
        },
        Task::Badge => if rest.len() == 0 {
            None
        } else {
            Some(conversation(role_task_text(BADGE_SYSTEM@, v), badge_user_text(v), none))
        },
        Task::Run => Some(conversation(role_task_text(RUN_SYSTEM@, v), v.text(), none)),
        Task::SheriffSpeech => Some(conversation(voice_task_text(SHERIFF_SPEECH_SYSTEM@, v), v.text(), none)),
        Task::SideSpeech => Some(conversation(voice_task_text(SIDE_SPEECH_SYSTEM@, v), v.text(), none)),
        Task::SheriffVote => if g.candidates().len() == 0 {
            None
        } else {
            Some(conversation(sheriff_vote_system_text(v), sheriff_vote_user_text(v, g.ballot()), none))
        },
        Task::Direction => Some(conversation(role_task_text(DIRECTION_SYSTEM@, v), v.text(), none)),
        Task::DaySpeech => Some(conversation(voice_task_text(DAY_SPEECH_SYSTEM@, v), v.text(), none)),
        Task::Vote => Some(conversation(voice_task_text(VOTE_SYSTEM@, v), vote_user_text(v), none)),
    }
}

impl WolfGame {
    /// What the model is asked for a task of the player at `seat`.
    pub fn question_for(&self, seat: usize, task: Task, speak: bool) -> (r: Option<Vec<(String, String)>>)
        requires
            self@.wf(),
            askable(self@, seat),
        ensures
            match r {
                Some(q) => task_question(self@, seat, task, speak) == Some(pairs_view(q@)),
                None => task_question(self@, seat, task, speak) is None,
            },
    {
        let v = build_view(self, seat);
        let none: AttemptHistory = Vec::new();
        assert(pairs_view(none@) =~= Seq::empty());
        match task {
            Task::Guard => guard_question(&v, self, &none),
            Task::Wolf => wolf_question(&v, self, speak, &none),
            Task::Seer => seer_question(&v, &none),
            Task::Witch => Some(witch_question(&v, self, &none)),
            Task::LastWords => Some(last_words_question(&v)),
            Task::Shot => hunter_question(&v, &none),
            Task::Badge => badge_question(&v, &none),
            Task::Run => Some(run_question(&v)),
            Task::SheriffSpeech => Some(sheriff_speech_question(&v)),
            Task::SideSpeech => Some(side_speech_question(&v)),
            Task::SheriffVote => {
                let list = self.list_candidates();
                assert(list@.len() == self@.ballot().len());
                sheriff_vote_question(&v, &list, &none)
            },
            Task::Direction => Some(direction_question(&v)),
            Task::DaySpeech => Some(day_speech_question(&v)),
            Task::Vote => Some(vote_question(&v, &none)),
        }
    }

    /// Whether the player at `seat` can be asked.
    pub fn can_ask(&self, seat: usize) -> (r: bool)
        ensures
            r == askable(self@, seat),
    {
        assert(self.players@.len() == self@.players.len());
        if seat < self.players.len() {
            assert(self@.players[seat as int] == self.players@[seat as int]@);
            self.players[seat].role.is_some()
        } else {
            false
        }
    }

    fn id_for(&self, t: Option<usize>) -> (r: Option<String>)
        ensures
            option_view(r) == self@.id_chosen(t),
    {
        match t {
            Some(i) => {
                assert(self.players@.len() == self@.players.len());
                if i < self.players.len() {
                    assert(self@.players[i as int] == self.players@[i as int]@);
                    Some(self.players[i].open_id.clone())
                } else {
                    None
                }
            },
            None => None,
        }
    }

    /// The candidates with their names.
    pub fn list_candidates(&self) -> (r: Vec<(usize, String)>)
        requires
            self@.wf(),
        ensures
            said_view(r@) == self@.ballot(),
    {
        let seats = self.sheriff_candidates();
        let ghost want = self@.ballot();
        let mut out: Vec<(usize, String)> = Vec::new();
        let mut i: usize = 0;
        assert(said_view(out@) =~= want.take(0));
        while i < seats.len()
            invariant
                seats@ == self@.candidates(),
                super::model::seats_in(seats@, self@.players.len()),
                want == self@.ballot(),
                i <= seats@.len() == want.len(),
                self.players@.len() == self@.players.len(),
                said_view(out@) == want.take(i as int),
            decreases want.len() - i,
        {
            let c = seats[i];
            assert(seats@[i as int] < self@.players.len());
            assert(self@.players[c as int] == self.players@[c as int]@);
            let ghost before = said_view(out@);
            out.push((c, self.players[c].name.clone()));
            assert(said_view(out@) =~= before.push(want[i as int]));
            assert(want.take(i + 1) =~= before.push(want[i as int]));
            i = i + 1;
        }
        assert(want.take(i as int) =~= want);
        out
    }

    fn decide_move(&self, seat: usize, task: Task, model: bool, reply: &Reply) -> (r: Option<WolfMove>)
        requires
            self@.wf(),
            askable(self@, seat),
        ensures
            match r {
                Some(m) => self@.task_move(seat, task, model, *reply) == Some(m@),
                None => self@.task_move(seat, task, model, *reply) is None,
            },
    {
        let v = build_view(self, seat);
        let said = reply.speech();
        match task {
            Task::Seer => {
                let t = if model { seer_pick(&v, reply.seat()) } else { seer_default(self, seat) };
                match self.id_for(Some(t)) {
                    Some(id) => Some(WolfMove::Check(id)),
                    None => None,
                }
            },
            Task::LastWords => Some(WolfMove::LastWords(last_words(&said))),
            Task::Shot => Some(WolfMove::Shoot(self.id_for(hunter_pick(&v, reply.choice())))),
            Task::Badge => Some(WolfMove::Badge(self.id_for(badge_pass(&v, reply.choice())))),
            Task::Run => {
                let run = match reply {
                    Reply::Run(b) => Some(*b),
                    _ => None,
                };
                Some(WolfMove::Nominate(sheriff_run(&v, run)))
            },
            Task::SheriffSpeech => Some(
                WolfMove::SheriffSpeech(if model { sheriff_speech(&said) } else { SPEECH_WITHOUT_MODEL.to_owned() }),
            ),
            Task::SideSpeech => Some(WolfMove::SideSpeech(sheriff_side_speech(&said))),
            Task::SheriffVote => {
                let list = self.list_candidates();
                proof {
                    assert(list@.len() == self@.ballot().len());
                    if list@.len() > 0 {
                        assert(said_view(list@)[0].0 == list@[0].0);
                        assert(self@.ballot()[0].0 == self@.candidates()[0]);
                    }
                }
                let t = if model { sheriff_vote(&list, reply.choice()) } else { sheriff_vote_without_model(&list) };
                Some(WolfMove::SheriffVote(self.id_for(t)))
            },
            Task::Direction => {
                let clockwise = match reply {
                    Reply::Clockwise(b) => Some(*b),
                    _ => None,
                };
                Some(WolfMove::Direction(sheriff_direction(clockwise)))
            },
            Task::DaySpeech => Some(WolfMove::DaySpeech(day_speech(&said))),
            Task::Vote => Some(WolfMove::Vote(self.id_for(vote_pick(&v, reply.choice()).target_idx))),
            Task::Guard | Task::Wolf | Task::Witch => None,
        }
    }

    fn decide_guard(&self, seat: usize, model: bool, reply: &Reply) -> (r: usize)
        requires
            self@.wf(),
            askable(self@, seat),
        ensures
            r == self@.guard_task(seat, model, *reply),
    {
        if model {
            let v = build_view(self, seat);
            guard_pick(&v, self, reply.seat())
        } else {
            guard_without_model(self, seat)
        }
    }

    fn decide_wolf(&self, seat: usize, speak: bool, model: bool, reply: &Reply) -> (r: WolfPickDecision)
        requires
            self@.wf(),
            askable(self@, seat),
        ensures
            (r.target_idx, option_view(r.chat)) == self@.wolf_task(seat, speak, model, *reply),
    {
        if model {
            let v = build_view(self, seat);
            let answer = match reply {
                Reply::Wolf(a) => Some(
                    WolfPickReply {
                        target_idx: a.target_idx,
                        chat: match &a.chat {
                            Some(s) => Some(s.clone()),
                            None => None,
                        },
                    },
                ),
                _ => None,
            };
            wolf_pick(&v, self, speak, &answer)
        } else {
            WolfPickDecision { target_idx: wolf_default(self), chat: None }
        }
    }

    fn decide_witch(&self, seat: usize, reply: &Reply) -> (r: WitchDecision)
        requires
            self@.wf(),
            askable(self@, seat),
        ensures
            r == self@.witch_task(seat, *reply),
    {
        let v = build_view(self, seat);
        let answer = match reply {
            Reply::Witch(a) => Some(WitchReply { action: a.action.clone(), poison_target_idx: a.poison_target_idx }),
            _ => None,
        };
        witch_decide(&v, self, &answer)
    }

    /// The turn of the AI player at `seat`. Without a model there is no reply,
    /// and the simplest thing is done.
    pub fn play_turn(&mut self, seat: usize, task: Task, speak: bool, model: bool, reply: &Reply)
        requires
            old(self)@.wf(),
            askable(old(self)@, seat),
        ensures
            final(self)@.wf(),
            final(self)@ == old(self)@.turn_played(seat, task, speak, model, *reply),
    {
        let n = self.players.len();
        assert(n == self@.players.len());
        match task {
            Task::Guard => {
                let t = self.decide_guard(seat, model, reply);
                if t < n {
                    self.play_guard(seat, t);
                }
            },
            Task::Wolf => {
                let d = self.decide_wolf(seat, speak, model, reply);
                if d.target_idx < n {
                    self.play_wolf(seat, d, speak);
                }
            },
            Task::Witch => {
                let d = match self.decide_witch(seat, reply) {
                    WitchDecision::Poison(t) => if t < n {
                        WitchDecision::Poison(t)
                    } else {
                        WitchDecision::Skip
                    },
                    d => d,
                };
                self.play_witch(seat, d);
            },
            _ => {
                let id = self.id_for(Some(seat));
                let wanted = self.decide_move(seat, task, model, reply);
                if let (Some(id), Some(m)) = (id, wanted) {
                    let _ = self.make_move(id.as_str(), m);
                }
            },
        }
    }
}

/// Who is seen as a living other is one, and is found under their id.
proof fn a_living_other_is_a_target(g: WolfGameView, seat: usize, t: usize)
    requires
        g.wf(),
        askable(g, seat),
        listed(others(view_of(g, seat).players, seat), t as int),
    ensures
        t != seat,
        t < g.players.len(),
        g.other_target(g.id_at(t), seat) == Ok::<usize, WolfError>(t),
{
    let v = view_of(g, seat);
    others_facts(v.players, seat, t as int);
    let i = choose|i: int| 0 <= i < v.players.len() && (#[trigger] v.players[i]).0 == t && v.players[i].2;
    assert(v.players[i].0 == i as usize);
    ones_own_seat(g, t);
}

proof fn unchecked_facts(list: Seq<(usize, Seq<char>)>, log: Seq<(u32, Seq<char>, bool)>, from: int)
    requires
        0 <= from,
    ensures
        unchecked(list, log, from) matches Some(i) ==> listed(list, i as int),
    decreases list.len() - from,
{
    if from < list.len() {
        if !checked(log, list[from].1) {
            assert(list[from].0 == list[from].0);
        } else {
            unchecked_facts(list, log, from + 1);
        }
    }
}

proof fn first_other_facts(players: Seq<WolfPlayerView>, me: usize, from: int)
    requires
        0 <= from,
        players.len() <= usize::MAX,
    ensures
        match first_other(players, me, from) {
            Some(i) => i < players.len() && players[i as int].alive && i != me,
            None => forall|i: int| from <= i < players.len() ==> !(#[trigger] players[i]).alive || i == me,
        },
    decreases players.len() - from,
{
    if from < players.len() && !(players[from].alive && from != me) {
        first_other_facts(players, me, from + 1);
    }
}

/// The seer looks at a living other if there is one.
proof fn the_seer_finds_somebody(g: WolfGameView, seat: usize, model: bool, reply: Reply)
    requires
        g.wf(),
        askable(g, seat),
        others(view_of(g, seat).players, seat).len() > 0,
    ensures
        ({
            let t = if model { seer_choice(view_of(g, seat), reply.seat_view()) } else { seer_alone(g, seat) };
            t < g.players.len() && g.other_target(g.id_at(t), seat) == Ok::<usize, WolfError>(t)
        }),
{
    let v = view_of(g, seat);
    let list = others(v.players, seat);
    assert(listed(list, list[0].0 as int));
    if model {
        unchecked_facts(list, v.seer_log, 0);
        a_living_other_is_a_target(g, seat, seer_choice(v, reply.seat_view()));
    } else {
        a_living_other_is_a_target(g, seat, list[0].0);
        others_facts(v.players, seat, list[0].0 as int);
        first_other_facts(g.players, seat, 0);
        let i = choose|i: int| 0 <= i < v.players.len() && (#[trigger] v.players[i]).0 == list[0].0 && v.players[i].2;
        assert(g.players[i].alive);
        ones_own_seat(g, seer_alone(g, seat));
    }
}

/// Whatever the model answers, and without a model too, what an AI player does
/// when it is their turn to look at somebody, speak, shoot, give the badge away
/// or choose a direction is not refused: the game never waits for them. The
/// seer must be alive and have somebody to look at.
pub proof fn an_ai_turn_is_not_refused(g: WolfGameView, seat: usize, task: Task, model: bool, reply: Reply, asked: bool)
    requires
        g.wf(),
        askable(g, seat),
        g.step(asked) == WolfStepView::Ask(seat, task),
        !(task is Guard || task is Wolf || task is Witch),
        task is Seer ==> g.players[seat as int].alive && others(view_of(g, seat).players, seat).len() > 0,
    ensures
        g.task_move(seat, task, model, reply) matches Some(m) && g.moved(g.id_at(seat), m) is Ok,
{
    reveal(WolfGameView::moved);
    ones_own_seat(g, seat);
    let v = view_of(g, seat);
    let list = others(v.players, seat);
    if let Some(t) = named(list, reply.choice_view()) {
        a_living_other_is_a_target(g, seat, t);
    }
    if task is Seer {
        role_seat_facts(g.players, Role::Seer, 0);
        the_seer_finds_somebody(g, seat, model, reply);
    }
}

/// Who is among those of a kind is among all, and is of the kind.
proof fn seats_of_facts(players: Seq<WolfPlayerView>, seats: Seq<usize>, is_ai: bool, seat: usize)
    requires
        seats_of(players, seats, is_ai).contains(seat),
    ensures
        seats.contains(seat),
        players[seat as int].is_ai == is_ai,
    decreases seats.len(),
{
    if seats.len() > 0 {
        let all = seats_of(players, seats, is_ai);
        let some = seats_of(players, seats.drop_last(), is_ai);
        let k = choose|k: int| 0 <= k < all.len() && all[k] == seat;
        if k < some.len() {
            assert(some[k] == seat);
            seats_of_facts(players, seats.drop_last(), is_ai, seat);
            let j = choose|j: int| 0 <= j < seats.drop_last().len() && seats.drop_last()[j] == seat;
            assert(seats[j] == seat);
        } else {
            assert(seats[seats.len() - 1] == seat);
        }
    }
}

proof fn undeclared_facts(list: Seq<(usize, bool)>, seats: Seq<usize>, seat: usize)
    requires
        undeclared(list, seats).contains(seat),
    ensures
        seats.contains(seat),
        !has_nominated(list, seat),
    decreases seats.len(),
{
    if seats.len() > 0 {
        let all = undeclared(list, seats);
        let some = undeclared(list, seats.drop_last());
        let k = choose|k: int| 0 <= k < all.len() && all[k] == seat;
        if k < some.len() {
            assert(some[k] == seat);
            undeclared_facts(list, seats.drop_last(), seat);
            let j = choose|j: int| 0 <= j < seats.drop_last().len() && seats.drop_last()[j] == seat;
            assert(seats[j] == seat);
        } else {
            assert(seats[seats.len() - 1] == seat);
        }
    }
}

proof fn unvoted_facts(votes: Seq<(usize, Option<usize>)>, barred: Seq<usize>, seats: Seq<usize>, seat: usize)
    requires
        unvoted(votes, barred, seats).contains(seat),
    ensures
        seats.contains(seat),
        !barred.contains(seat),
        !has_voted(votes, seat),
    decreases seats.len(),
{
    if seats.len() > 0 {
        let all = unvoted(votes, barred, seats);
        let some = unvoted(votes, barred, seats.drop_last());
        let k = choose|k: int| 0 <= k < all.len() && all[k] == seat;
        if k < some.len() {
            assert(some[k] == seat);
            unvoted_facts(votes, barred, seats.drop_last(), seat);
            let j = choose|j: int| 0 <= j < seats.drop_last().len() && seats.drop_last()[j] == seat;
            assert(seats[j] == seat);
        } else {
            assert(seats[seats.len() - 1] == seat);
        }
    }
}

proof fn unready_facts(ready: Seq<usize>, seats: Seq<usize>, seat: usize)
    requires
        unready(ready, seats).contains(seat),
    ensures
        seats.contains(seat),
        !ready.contains(seat),
    decreases seats.len(),
{
    if seats.len() > 0 {
        let all = unready(ready, seats);
        let some = unready(ready, seats.drop_last());
        let k = choose|k: int| 0 <= k < all.len() && all[k] == seat;
        if k < some.len() {
            assert(some[k] == seat);
            unready_facts(ready, seats.drop_last(), seat);
            let j = choose|j: int| 0 <= j < seats.drop_last().len() && seats.drop_last()[j] == seat;
            assert(seats[j] == seat);
        } else {
            assert(seats[seats.len() - 1] == seat);
        }
    }
}

proof fn unpicked_facts(votes: Seq<(usize, usize)>, seats: Seq<usize>, seat: usize)
    requires
        unpicked(votes, seats).contains(seat),
    ensures
        seats.contains(seat),
    decreases seats.len(),
{
    if seats.len() > 0 {
        let all = unpicked(votes, seats);
        let some = unpicked(votes, seats.drop_last());
        let k = choose|k: int| 0 <= k < all.len() && all[k] == seat;
        if k < some.len() {
            assert(some[k] == seat);
            unpicked_facts(votes, seats.drop_last(), seat);
            let j = choose|j: int| 0 <= j < seats.drop_last().len() && seats.drop_last()[j] == seat;
            assert(seats[j] == seat);
        } else {
            assert(seats[seats.len() - 1] == seat);
        }
    }
}

proof fn runners_facts(list: Seq<(usize, bool)>, seat: usize)
    requires
        runners(list).contains(seat),
    ensures
        exists|k: int| 0 <= k < list.len() && (#[trigger] list[k]).0 == seat,
    decreases list.len(),
{
    if list.len() > 0 {
        let all = runners(list);
        let some = runners(list.drop_last());
        let k = choose|k: int| 0 <= k < all.len() && all[k] == seat;
        if k < some.len() {
            assert(some[k] == seat);
            runners_facts(list.drop_last(), seat);
            let j = choose|j: int| 0 <= j < list.drop_last().len() && (#[trigger] list.drop_last()[j]).0 == seat;
            assert(list[j].0 == seat);
        } else {
            assert(list[list.len() - 1].0 == seat);
        }
    }
}

/// A candidate lives while the sheriff is being elected, and is found under
/// their id.
pub proof fn a_candidate_lives(g: WolfGameView, c: usize)
    requires
        g.wf(),
        g.in_election(),
        g.candidates().contains(c),
    ensures
        c < g.players.len(),
        g.actor(g.id_at(c)) == Some(c),
{
    runners_facts(g.sheriff_nominations, c);
    let k = choose|k: int| 0 <= k < g.sheriff_nominations.len() && (#[trigger] g.sheriff_nominations[k]).0 == c;
    assert(g.players[g.sheriff_nominations[k].0 as int].alive);
    ones_own_seat(g, c);
}

/// Whom the AI wolf strikes can be struck, if anybody can.
proof fn a_wolf_finds_prey(g: WolfGameView, seat: usize, speak: bool, model: bool, reply: Reply)
    requires
        g.wf(),
        askable(g, seat),
        prey(view_of(g, seat).players, g).len() > 0,
    ensures
        ({
            let t = g.wolf_task(seat, speak, model, reply).0;
            t < g.players.len() && g.actor(g.id_at(t)) == Some(t) && !g.players[t as int].wolf()
        }),
{
    let v = view_of(g, seat);
    let list = prey(v.players, g);
    let t = g.wolf_task(seat, speak, model, reply).0;
    if model {
        let answer = match reply {
            Reply::Wolf(a) => Some(a.target_idx),
            _ => None,
        };
        a_wolf_strikes_no_wolf(v, g, answer);
        let i = choose|i: int| 0 <= i < v.players.len() && (#[trigger] v.players[i]).0 == wolf_target(list, answer) && v.players[i].2;
        assert(v.players[i].0 == i as usize);
        ones_own_seat(g, t);
    } else {
        a_wolf_strikes_no_wolf(v, g, None);
        let i = choose|i: int| 0 <= i < v.players.len() && (#[trigger] v.players[i]).0 == wolf_target(list, None) && v.players[i].2;
        assert(g.players[i].alive && !g.players[i].wolf());
        first_prey_facts(g.players, 0);
        ones_own_seat(g, t);
    }
}

proof fn first_prey_facts(players: Seq<WolfPlayerView>, from: int)
    requires
        0 <= from,
        players.len() <= usize::MAX,
    ensures
        match first_prey(players, from) {
            Some(i) => i < players.len() && players[i as int].alive && !players[i as int].wolf(),
            None => forall|i: int| from <= i < players.len() ==> !(#[trigger] players[i]).alive || players[i].wolf(),
        },
    decreases players.len() - from,
{
    if from < players.len() && !(players[from].alive && !players[from].wolf()) {
        first_prey_facts(players, from + 1);
    }
}

/// Whether the AI player at `seat` is among those who are asked for the task.
pub open spec fn asked_for(step: WolfStepView, seat: usize, task: Task) -> bool {
    match step {
        WolfStepView::AskAll(seats, t) => t == task && seats.contains(seat),
        WolfStepView::Pack(_, seats) => task == Task::Wolf && seats.contains(seat),
        _ => false,
    }
}

/// What an AI player does where all are asked is not refused either, whatever
/// the model answers, and without a model too: to run or not, to vote in the
/// election and by day. A wolf's choice is not refused where there is anybody to
/// strike and the choice has not been settled.
pub proof fn an_ai_move_of_all_is_not_refused(
    g: WolfGameView,
    seat: usize,
    task: Task,
    speak: bool,
    model: bool,
    reply: Reply,
    asked: bool,
)
    requires
        g.wf(),
        asked_for(g.step(asked), seat, task),
    ensures
        askable(g, seat),
        task != Task::Wolf ==> (g.task_move(seat, task, model, reply) matches Some(m) && g.moved(g.id_at(seat), m) is Ok),
        task == Task::Wolf && prey(view_of(g, seat).players, g).len() > 0 && !g.wolf_ready.contains(seat) ==> {
            let t = g.wolf_task(seat, speak, model, reply).0;
            t < g.players.len() && g.wolf_pick_result(g.id_at(seat), g.id_at(t)) is Ok
        },
        g.step(asked) is Pack ==> !g.wolf_ready.contains(seat),
{
    reveal(WolfGameView::moved);
    living_facts(g.players);
    living_wolves_facts(g.players);
    match g.stage {
        WolfStage::WolvesPick => {
            let pack = living_wolves(g.players);
            if g.step(asked) is Pack {
                seats_of_facts(g.players, unready(g.wolf_ready, pack), true, seat);
                unready_facts(g.wolf_ready, pack, seat);
            } else {
                unpicked_facts(g.wolf_kill_votes, pack, seat);
            }
            let k = choose|k: int| 0 <= k < pack.len() && pack[k] == seat;
            assert(g.players[pack[k] as int].alive && g.players[pack[k] as int].wolf());
        },
        WolfStage::SheriffNominate => {
            let pending = undeclared(g.sheriff_nominations, living(g.players));
            seats_of_facts(g.players, pending, true, seat);
            undeclared_facts(g.sheriff_nominations, living(g.players), seat);
        },
        WolfStage::SheriffVote => {
            let pending = unvoted(g.sheriff_votes, g.candidates(), living(g.players));
            seats_of_facts(g.players, pending, true, seat);
            unvoted_facts(g.sheriff_votes, g.candidates(), living(g.players), seat);
        },
        _ => {
            let pending = unvoted(g.day_votes, Seq::empty(), living(g.players));
            seats_of_facts(g.players, pending, true, seat);
            unvoted_facts(g.day_votes, Seq::empty(), living(g.players), seat);
        },
    }
    if task != Task::Wolf {
        let alive = living(g.players);
        let k = choose|k: int| 0 <= k < alive.len() && alive[k] == seat;
        assert(g.players[alive[k] as int].alive);
    }
    ones_own_seat(g, seat);
    if task == Task::Wolf {
        if prey(view_of(g, seat).players, g).len() > 0 {
            a_wolf_finds_prey(g, seat, speak, model, reply);
        }
    } else if task == Task::Vote {
        if let Some(t) = named(others(view_of(g, seat).players, seat), reply.choice_view()) {
            a_living_other_is_a_target(g, seat, t);
        }
    } else if task == Task::SheriffVote {
        let ballot = g.ballot();
        let c = g.candidates();
        if model {
            if let Some(t) = named(ballot, reply.choice_view()) {
                let k = choose|k: int| 0 <= k < ballot.len() && (#[trigger] ballot[k]).0 == t;
                assert(c[k] == t);
                a_candidate_lives(g, t);
            }
        } else if c.len() > 0 {
            assert(c.contains(c[0]));
            a_candidate_lives(g, c[0]);
        }
    }
}

} // verus!
