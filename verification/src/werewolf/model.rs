//! The werewolf game as a mathematical value: what the contracts speak of.

use vstd::prelude::*;
use crate::game::Persona;
use super::{
    DeathCause, RecapEvent, Role, SeerCheck, Speeches, Winner, WolfGame, WolfPlayer, WolfStage,
};

verus! {

#[verifier::ext_equal]
pub struct WolfPlayerView {
    pub open_id: Seq<char>,
    pub name: Seq<char>,
    pub is_ai: bool,
    pub persona: Option<Persona>,
    pub alive: bool,
    pub role: Option<Role>,
}

impl WolfPlayerView {
    pub open spec fn wolf(self) -> bool {
        match self.role {
            Some(r) => r.wolf(),
            None => false,
        }
    }
}

impl View for WolfPlayer {
    type V = WolfPlayerView;

    open spec fn view(&self) -> WolfPlayerView {
        WolfPlayerView {
            open_id: self.open_id@,
            name: self.name@,
            is_ai: self.is_ai,
            persona: self.persona,
            alive: self.alive,
            role: self.role,
        }
    }
}

#[verifier::ext_equal]
pub enum RecapView {
    GuardPick { day: u32, target: usize },
    WolfTarget { day: u32, target: Option<usize> },
    SeerCheck { day: u32, target: usize, is_wolf: bool },
    WitchAct { day: u32, saved: bool, poisoned: Option<usize> },
    SheriffSpeech { player: usize, text: Seq<char> },
    SheriffSideSpeech { player: usize, text: Seq<char> },
    DaySpeech { day: u32, player: usize, text: Seq<char> },
    DayVoteCast { day: u32, voter: usize, target: Option<usize> },
    DayLynch { day: u32, target: Option<usize> },
    LastWords { day: u32, night: bool, player: usize, text: Seq<char> },
    HunterShot { day: u32, shooter: usize, target: Option<usize> },
    BadgePass { day: u32, from: usize, to: Option<usize> },
    Death { day: u32, night: bool, player: usize, cause: DeathCause },
}

impl View for RecapEvent {
    type V = RecapView;

    open spec fn view(&self) -> RecapView {
        match *self {
            RecapEvent::GuardPick { day, target } => RecapView::GuardPick { day, target },
            RecapEvent::WolfTarget { day, target } => RecapView::WolfTarget { day, target },
            RecapEvent::SeerCheck { day, target, is_wolf } => RecapView::SeerCheck { day, target, is_wolf },
            RecapEvent::WitchAct { day, saved, poisoned } => RecapView::WitchAct { day, saved, poisoned },
            RecapEvent::SheriffSpeech { player, text } => RecapView::SheriffSpeech { player, text: text@ },
            RecapEvent::SheriffSideSpeech { player, text } => RecapView::SheriffSideSpeech { player, text: text@ },
            RecapEvent::DaySpeech { day, player, text } => RecapView::DaySpeech { day, player, text: text@ },
            RecapEvent::DayVoteCast { day, voter, target } => RecapView::DayVoteCast { day, voter, target },
            RecapEvent::DayLynch { day, target } => RecapView::DayLynch { day, target },
            RecapEvent::LastWords { day, night, player, text } => RecapView::LastWords { day, night, player, text: text@ },
            RecapEvent::HunterShot { day, shooter, target } => RecapView::HunterShot { day, shooter, target },
            RecapEvent::BadgePass { day, from, to } => RecapView::BadgePass { day, from, to },
            RecapEvent::Death { day, night, player, cause } => RecapView::Death { day, night, player, cause },
        }
    }
}

/// Who said what.
pub open spec fn said_view(said: Seq<(usize, String)>) -> Seq<(usize, Seq<char>)> {
    said.map_values(|s: (usize, String)| (s.0, s.1@))
}

#[verifier::ext_equal]
pub struct SpeechesView {
    pub order: Seq<usize>,
    pub next: int,
    pub said: Seq<(usize, Seq<char>)>,
}

impl View for Speeches {
    type V = SpeechesView;

    open spec fn view(&self) -> SpeechesView {
        SpeechesView { order: self.order@, next: self.next as int, said: said_view(self.said@) }
    }
}

impl SpeechesView {
    /// Nobody has spoken yet.
    pub open spec fn fresh(order: Seq<usize>) -> SpeechesView {
        SpeechesView { order, next: 0, said: Seq::empty() }
    }

    /// Whose turn it is.
    pub open spec fn speaker(self) -> Option<usize> {
        if 0 <= self.next < self.order.len() { Some(self.order[self.next]) } else { None }
    }

    /// The speaker has said this.
    pub open spec fn spoken(self, text: Seq<char>) -> SpeechesView {
        SpeechesView {
            order: self.order,
            next: self.next + 1,
            said: self.said.push((self.order[self.next], text)),
        }
    }

    pub open spec fn wf(self, n: nat) -> bool {
        &&& 0 <= self.next <= self.order.len()
        &&& self.order.len() <= usize::MAX
        &&& seats_in(self.order, n)
        &&& forall|i: int| 0 <= i < self.said.len() ==> (#[trigger] self.said[i]).0 < n
    }
}

#[verifier::ext_equal]
pub struct WolfGameView {
    pub chat_id: Seq<char>,
    pub players: Seq<WolfPlayerView>,
    pub stage: WolfStage,
    pub game_count: u32,
    pub day: u32,
    pub guard_target: Option<usize>,
    pub last_guard_target: Option<usize>,
    pub wolf_kill_votes: Seq<(usize, usize)>,
    pub wolf_chat: Seq<(usize, Seq<char>)>,
    pub wolf_ready: Seq<usize>,
    pub night_victim: Option<usize>,
    pub witch_save_used: bool,
    pub witch_poison_used: bool,
    pub seer_history: Seq<SeerCheck>,
    pub night_deaths: Seq<usize>,
    pub at_dawn: bool,
    pub last_words: SpeechesView,
    pub pending_hunter: Option<usize>,
    pub pending_badge: Option<usize>,
    pub sheriff_idx: Option<usize>,
    pub sheriff_done: bool,
    pub sheriff_nominations: Seq<(usize, bool)>,
    pub sheriff_speech: SpeechesView,
    pub side_speech: SpeechesView,
    pub sheriff_votes: Seq<(usize, Option<usize>)>,
    pub day_speech: SpeechesView,
    pub day_votes: Seq<(usize, Option<usize>)>,
    pub lynched: Option<usize>,
    pub event_log: Seq<Seq<char>>,
    pub recap_log: Seq<RecapView>,
}

pub open spec fn wolf_players_view(players: Seq<WolfPlayer>) -> Seq<WolfPlayerView> {
    players.map_values(|p: WolfPlayer| p@)
}

pub open spec fn recap_view(log: Seq<RecapEvent>) -> Seq<RecapView> {
    log.map_values(|e: RecapEvent| e@)
}

impl View for WolfGame {
    type V = WolfGameView;

    open spec fn view(&self) -> WolfGameView {
        WolfGameView {
            chat_id: self.chat_id@,
            players: wolf_players_view(self.players@),
            stage: self.stage,
            game_count: self.game_count,
            day: self.day,
            guard_target: self.guard_target,
            last_guard_target: self.last_guard_target,
            wolf_kill_votes: self.wolf_kill_votes@,
            wolf_chat: said_view(self.wolf_chat@),
            wolf_ready: self.wolf_ready@,
            night_victim: self.night_victim,
            witch_save_used: self.witch_save_used,
            witch_poison_used: self.witch_poison_used,
            seer_history: self.seer_history@,
            night_deaths: self.night_deaths@,
            at_dawn: self.at_dawn,
            last_words: self.last_words@,
            pending_hunter: self.pending_hunter,
            pending_badge: self.pending_badge,
            sheriff_idx: self.sheriff_idx,
            sheriff_done: self.sheriff_done,
            sheriff_nominations: self.sheriff_nominations@,
            sheriff_speech: self.sheriff_speech@,
            side_speech: self.side_speech@,
            sheriff_votes: self.sheriff_votes@,
            day_speech: self.day_speech@,
            day_votes: self.day_votes@,
            lynched: self.lynched,
            event_log: crate::text::texts(self.event_log@),
            recap_log: recap_view(self.recap_log@),
        }
    }
}

/// All of these are seats of a room of `n`.
pub open spec fn seats_in(seats: Seq<usize>, n: nat) -> bool {
    forall|i: int| 0 <= i < seats.len() ==> #[trigger] seats[i] < n
}

pub open spec fn seat_in(seat: Option<usize>, n: nat) -> bool {
    match seat {
        Some(i) => i < n,
        None => true,
    }
}

/// Each vote is a seat's, for a seat or nobody.
pub open spec fn votes_in(votes: Seq<(usize, Option<usize>)>, n: nat) -> bool {
    forall|i: int| 0 <= i < votes.len() ==> (#[trigger] votes[i]).0 < n && seat_in(votes[i].1, n)
}

/// The first seat from `from` on that the id holds.
pub open spec fn wolf_seat(players: Seq<WolfPlayerView>, id: Seq<char>, from: int) -> Option<usize>
    decreases players.len() - from,
{
    if from < 0 || from >= players.len() {
        None
    } else if players[from].open_id == id {
        Some(from as usize)
    } else {
        wolf_seat(players, id, from + 1)
    }
}

/// The first seat from `from` on with this role.
pub open spec fn role_seat(players: Seq<WolfPlayerView>, role: Role, from: int) -> Option<usize>
    decreases players.len() - from,
{
    if from < 0 || from >= players.len() {
        None
    } else if players[from].role == Some(role) {
        Some(from as usize)
    } else {
        role_seat(players, role, from + 1)
    }
}

/// The seats of the living, in order.
pub open spec fn living(players: Seq<WolfPlayerView>) -> Seq<usize>
    decreases players.len(),
{
    if players.len() == 0 {
        Seq::empty()
    } else if players.last().alive {
        living(players.drop_last()).push((players.len() - 1) as usize)
    } else {
        living(players.drop_last())
    }
}

/// The seats of the living wolves, in order.
pub open spec fn living_wolves(players: Seq<WolfPlayerView>) -> Seq<usize>
    decreases players.len(),
{
    if players.len() == 0 {
        Seq::empty()
    } else if players.last().alive && players.last().wolf() {
        living_wolves(players.drop_last()).push((players.len() - 1) as usize)
    } else {
        living_wolves(players.drop_last())
    }
}

/// Who has won: the good side when no wolf lives, the wolves when they are at
/// least as many as the others.
pub open spec fn winner(players: Seq<WolfPlayerView>) -> Option<Winner> {
    let wolves = living_wolves(players).len();
    if wolves == 0 {
        Some(Winner::Good)
    } else if 2 * wolves >= living(players).len() {
        Some(Winner::Wolves)
    } else {
        None
    }
}

impl WolfGameView {
    /// The game holds together: every seat that it speaks of exists, no id has
    /// two seats, and once the game is on everybody has a role.
    pub open spec fn wf(self) -> bool {
        let n = self.players.len();
        &&& n <= 12
        &&& forall|i: int, j: int| 0 <= i < j < n ==> (#[trigger] self.players[i]).open_id != (#[trigger] self.players[j]).open_id
        &&& self.stage != WolfStage::Lobby ==> n >= 9 && forall|i: int| 0 <= i < n ==> (#[trigger] self.players[i]).role is Some
        &&& seat_in(self.guard_target, n)
        &&& seat_in(self.last_guard_target, n)
        &&& forall|i: int| 0 <= i < self.wolf_kill_votes.len() ==> (#[trigger] self.wolf_kill_votes[i]).0 < n && self.wolf_kill_votes[i].1 < n
        &&& forall|i: int| 0 <= i < self.wolf_chat.len() ==> (#[trigger] self.wolf_chat[i]).0 < n
        &&& seats_in(self.wolf_ready, n)
        &&& seat_in(self.night_victim, n)
        &&& forall|i: int| 0 <= i < self.seer_history.len() ==> (#[trigger] self.seer_history[i]).target_idx < n
        &&& seats_in(self.night_deaths, n)
        &&& self.last_words.wf(n)
        &&& seat_in(self.pending_hunter, n)
        &&& seat_in(self.pending_badge, n)
        &&& seat_in(self.sheriff_idx, n)
        &&& forall|i: int| 0 <= i < self.sheriff_nominations.len() ==> (#[trigger] self.sheriff_nominations[i]).0 < n
        &&& self.sheriff_speech.wf(n)
        &&& self.side_speech.wf(n)
        &&& votes_in(self.sheriff_votes, n)
        &&& self.day_speech.wf(n)
        &&& votes_in(self.day_votes, n)
        &&& seat_in(self.lynched, n)
        &&& self.election_wf()
    }

    /// Whether the sheriff is being elected.
    pub open spec fn in_election(self) -> bool {
        self.stage == WolfStage::SheriffNominate || self.stage == WolfStage::SheriffSpeech || self.stage
            == WolfStage::SheriffSideSpeech || self.stage == WolfStage::SheriffVote
    }

    /// Nobody has said that they run before the election, and nobody dies during
    /// it.
    pub open spec fn election_wf(self) -> bool {
        &&& self.in_election() ==> forall|i: int| 0 <= i < self.sheriff_nominations.len() ==> self.players[(
        #[trigger] self.sheriff_nominations[i]).0 as int].alive
        &&& !self.sheriff_done && !self.in_election() ==> self.sheriff_nominations.len() == 0
    }

    /// Alive, and seated under this id.
    pub open spec fn actor(self, id: Seq<char>) -> Option<usize> {
        match wolf_seat(self.players, id, 0) {
            Some(i) => if self.players[i as int].alive { Some(i) } else { None },
            None => None,
        }
    }
}

pub proof fn wolf_seat_facts(players: Seq<WolfPlayerView>, id: Seq<char>, from: int)
    requires
        0 <= from <= players.len() <= 12,
    ensures
        match wolf_seat(players, id, from) {
            Some(i) => from <= i < players.len() && players[i as int].open_id == id,
            None => forall|j: int| from <= j < players.len() ==> (#[trigger] players[j]).open_id != id,
        },
    decreases players.len() - from,
{
    if from < players.len() && players[from].open_id != id {
        wolf_seat_facts(players, id, from + 1);
    }
}

pub proof fn role_seat_facts(players: Seq<WolfPlayerView>, role: Role, from: int)
    requires
        0 <= from <= players.len() <= 12,
    ensures
        match role_seat(players, role, from) {
            Some(i) => from <= i < players.len() && players[i as int].role == Some(role),
            None => forall|j: int| from <= j < players.len() ==> (#[trigger] players[j]).role != Some(role),
        },
    decreases players.len() - from,
{
    if from < players.len() && players[from].role != Some(role) {
        role_seat_facts(players, role, from + 1);
    }
}

pub proof fn living_facts(players: Seq<WolfPlayerView>)
    requires
        players.len() <= 12,
    ensures
        living(players).len() <= players.len(),
        forall|k: int| 0 <= k < living(players).len() ==> #[trigger] living(players)[k] < players.len(),
        forall|k: int| 0 <= k < living(players).len() ==> players[(#[trigger] living(players)[k]) as int].alive,
        forall|i: int| 0 <= i < players.len() && (#[trigger] players[i]).alive ==> living(players).contains(i as usize),
    decreases players.len(),
{
    if players.len() > 0 {
        let rest = players.drop_last();
        living_facts(rest);
        let n = (players.len() - 1) as usize;
        assert forall|k: int| 0 <= k < living(players).len() implies players[(#[trigger] living(players)[k]) as int].alive by {
            if k < living(rest).len() {
                let s = living(rest)[k];
                assert(rest[s as int] == players[s as int]);
            }
        }
        assert forall|i: int| 0 <= i < players.len() && (#[trigger] players[i]).alive implies living(players).contains(i as usize) by {
            if i < rest.len() {
                assert(rest[i] == players[i]);
                let k = choose|k: int| 0 <= k < living(rest).len() && living(rest)[k] == i as usize;
                assert(living(players)[k] == i as usize);
            } else {
                assert(living(players)[living(rest).len() as int] == n);
            }
        }
    }
}

pub proof fn living_wolves_facts(players: Seq<WolfPlayerView>)
    requires
        players.len() <= 12,
    ensures
        living_wolves(players).len() <= living(players).len(),
        forall|k: int| 0 <= k < living_wolves(players).len() ==> #[trigger] living_wolves(players)[k] < players.len(),
        forall|k: int| 0 <= k < living_wolves(players).len() ==> players[(#[trigger] living_wolves(players)[k]) as int].alive
            && players[living_wolves(players)[k] as int].wolf(),
    decreases players.len(),
{
    if players.len() > 0 {
        let rest = players.drop_last();
        living_wolves_facts(rest);
        assert forall|k: int| 0 <= k < living_wolves(players).len() implies players[(#[trigger] living_wolves(players)[k]) as int].alive
            && players[living_wolves(players)[k] as int].wolf() by {
            if k < living_wolves(rest).len() {
                let s = living_wolves(rest)[k];
                assert(rest[s as int] == players[s as int]);
            }
        }
    }
}

} // verus!
