//! Who plays, which roles are dealt, and who has won.

use vstd::prelude::*;
use vstd::string::*;
use crate::game::Persona;
use crate::poker::card::{random_up_to, swapped, swapped_keeps_items};
use crate::text::same_text;
use super::model::{
    living, living_facts, living_wolves, living_wolves_facts, role_seat, seats_in, winner, wolf_seat,
    wolf_seat_facts, SpeechesView, WolfGameView, WolfPlayerView,
};
use super::{Role, Speeches, Winner, WolfError, WolfGame, WolfPlayer, WolfStage};

verus! {

/// Fewest players of a game.
pub const MIN_WOLF_PLAYERS: usize = 9;

/// Most players of a game.
pub const MAX_WOLF_PLAYERS: usize = 12;

/// The roles of a game of `n`.
pub open spec fn board(n: nat) -> Seq<Role> {
    if n <= 9 {
        seq![
            Role::Werewolf,
            Role::Werewolf,
            Role::Werewolf,
            Role::Seer,
            Role::Witch,
            Role::Hunter,
            Role::Villager,
            Role::Villager,
            Role::Villager,
        ]
    } else {
        let ten = seq![
            Role::Werewolf,
            Role::Werewolf,
            Role::WolfKing,
            Role::Seer,
            Role::Witch,
            Role::Hunter,
            Role::Guard,
            Role::Villager,
            Role::Villager,
            Role::Villager,
        ];
        if n == 10 {
            ten
        } else if n == 11 {
            ten.push(Role::Villager)
        } else {
            ten.push(Role::Villager).push(Role::Werewolf)
        }
    }
}

/// The roles of a game of `n`.
pub fn roles_for(n: usize) -> (r: Vec<Role>)
    ensures
        r@ == board(n as nat),
{
    let mut roles: Vec<Role> = Vec::new();
    roles.push(Role::Werewolf);
    roles.push(Role::Werewolf);
    if n <= 9 {
        roles.push(Role::Werewolf);
    } else {
        roles.push(Role::WolfKing);
    }
    roles.push(Role::Seer);
    roles.push(Role::Witch);
    roles.push(Role::Hunter);
    if n > 9 {
        roles.push(Role::Guard);
    }
    roles.push(Role::Villager);
    roles.push(Role::Villager);
    roles.push(Role::Villager);
    if n > 10 {
        roles.push(Role::Villager);
    }
    if n > 11 {
        roles.push(Role::Werewolf);
    }
    assert(roles@ =~= board(n as nat));
    roles
}

/// The roles of a game of `n`, in a random order.
pub fn shuffled_roles(n: usize) -> (r: Vec<Role>)
    ensures
        r@.len() == board(n as nat).len(),
        r@.to_multiset() == board(n as nat).to_multiset(),
{
    let mut roles = roles_for(n);
    let mut i: usize = roles.len() - 1;
    while i > 0
        invariant
            roles@.len() == board(n as nat).len(),
            i < roles@.len(),
            roles@.to_multiset() == board(n as nat).to_multiset(),
        decreases i,
    {
        let j: usize = random_up_to(i);
        let ghost before = roles@;
        let a = roles[i];
        let b = roles[j];
        roles.set(i, b);
        roles.set(j, a);
        proof {
            swapped_keeps_items(before, i as int, j as int);
            assert(roles@ =~= swapped(before, i as int, j as int));
        }
        i = i - 1;
    }
    roles
}

/// A player who has just sat down.
pub open spec fn wolf_newcomer(
    open_id: Seq<char>,
    name: Seq<char>,
    is_ai: bool,
    persona: Option<Persona>,
) -> WolfPlayerView {
    WolfPlayerView { open_id, name, is_ai, persona, alive: true, role: None }
}

/// The players with their roles, all alive.
pub open spec fn dealt_roles(players: Seq<WolfPlayerView>, roles: Seq<Role>) -> Seq<WolfPlayerView> {
    Seq::new(
        players.len(),
        |i: int| WolfPlayerView { alive: true, role: Some(roles[i]), ..players[i] },
    )
}

impl WolfGameView {
    pub open spec fn idle(self) -> bool {
        self.stage == WolfStage::Lobby || self.stage == WolfStage::Ended
    }

    /// Why the id cannot sit down.
    pub open spec fn join_error(self, open_id: Seq<char>) -> Option<WolfError> {
        if self.stage != WolfStage::Lobby {
            Some(WolfError::InPlay)
        } else if wolf_seat(self.players, open_id, 0) is Some {
            Some(WolfError::AlreadySeated)
        } else if self.players.len() >= MAX_WOLF_PLAYERS {
            Some(WolfError::RoomFull)
        } else {
            None
        }
    }

    pub open spec fn joined(
        self,
        open_id: Seq<char>,
        name: Seq<char>,
        is_ai: bool,
        persona: Option<Persona>,
    ) -> WolfGameView {
        WolfGameView { players: self.players.push(wolf_newcomer(open_id, name, is_ai, persona)), ..self }
    }

    /// Why no game can start.
    pub open spec fn start_error(self) -> Option<WolfError> {
        if !self.idle() {
            Some(WolfError::InPlay)
        } else if self.players.len() < MIN_WOLF_PLAYERS || self.players.len() > MAX_WOLF_PLAYERS {
            Some(WolfError::WrongHeadcount)
        } else {
            None
        }
    }

    /// Night falls: what was chosen in the last one is forgotten, but for whom
    /// the guard protected.
    pub open spec fn night(self) -> WolfGameView {
        WolfGameView {
            stage: if role_seat(self.players, Role::Guard, 0) is Some {
                WolfStage::GuardPick
            } else {
                WolfStage::WolvesPick
            },
            guard_target: None,
            last_guard_target: self.guard_target,
            wolf_kill_votes: Seq::empty(),
            wolf_chat: Seq::empty(),
            wolf_ready: Seq::empty(),
            night_victim: None,
            night_deaths: Seq::empty(),
            last_words: SpeechesView::fresh(Seq::empty()),
            ..self
        }
    }

    /// The first night of a new game with these roles.
    pub open spec fn started(self, roles: Seq<Role>) -> WolfGameView {
        WolfGameView {
            chat_id: self.chat_id,
            players: dealt_roles(self.players, roles),
            stage: WolfStage::Lobby,
            game_count: if self.game_count < u32::MAX { (self.game_count + 1) as u32 } else { self.game_count },
            day: 1,
            guard_target: None,
            last_guard_target: None,
            wolf_kill_votes: Seq::empty(),
            wolf_chat: Seq::empty(),
            wolf_ready: Seq::empty(),
            night_victim: None,
            witch_save_used: false,
            witch_poison_used: false,
            seer_history: Seq::empty(),
            night_deaths: Seq::empty(),
            at_dawn: true,
            last_words: SpeechesView::fresh(Seq::empty()),
            pending_hunter: None,
            pending_badge: None,
            sheriff_idx: None,
            sheriff_done: self.players.len() <= 9,
            sheriff_nominations: Seq::empty(),
            sheriff_speech: SpeechesView::fresh(Seq::empty()),
            side_speech: SpeechesView::fresh(Seq::empty()),
            sheriff_votes: Seq::empty(),
            day_speech: SpeechesView::fresh(Seq::empty()),
            day_votes: Seq::empty(),
            lynched: None,
            event_log: Seq::empty(),
            recap_log: Seq::empty(),
        }.night()
    }

    /// An empty room.
    pub open spec fn empty(chat_id: Seq<char>) -> WolfGameView {
        WolfGameView {
            chat_id,
            players: Seq::empty(),
            stage: WolfStage::Lobby,
            game_count: 0,
            day: 0,
            guard_target: None,
            last_guard_target: None,
            wolf_kill_votes: Seq::empty(),
            wolf_chat: Seq::empty(),
            wolf_ready: Seq::empty(),
            night_victim: None,
            witch_save_used: false,
            witch_poison_used: false,
            seer_history: Seq::empty(),
            night_deaths: Seq::empty(),
            at_dawn: true,
            last_words: SpeechesView::fresh(Seq::empty()),
            pending_hunter: None,
            pending_badge: None,
            sheriff_idx: None,
            sheriff_done: false,
            sheriff_nominations: Seq::empty(),
            sheriff_speech: SpeechesView::fresh(Seq::empty()),
            side_speech: SpeechesView::fresh(Seq::empty()),
            sheriff_votes: Seq::empty(),
            day_speech: SpeechesView::fresh(Seq::empty()),
            day_votes: Seq::empty(),
            lynched: None,
            event_log: Seq::empty(),
            recap_log: Seq::empty(),
        }
    }
}

impl Speeches {
    /// Nobody has spoken yet.
    pub fn fresh(order: Vec<usize>) -> (r: Self)
        ensures
            r@ == SpeechesView::fresh(order@),
            order@.len() <= usize::MAX,
    {
        assert(order.len() <= usize::MAX);
        let s = Speeches { order, next: 0, said: Vec::new() };
        assert(s@ =~= SpeechesView::fresh(order@));
        s
    }

    /// Whose turn it is.
    pub fn speaker(&self) -> (r: Option<usize>)
        ensures
            r == self@.speaker(),
    {
        if self.next < self.order.len() {
            Some(self.order[self.next])
        } else {
            None
        }
    }
}

impl WolfGame {
    pub fn new(chat_id: String) -> (r: Self)
        ensures
            r@ == WolfGameView::empty(chat_id@),
            r@.wf(),
    {
        let g = WolfGame {
            chat_id,
            players: Vec::new(),
            stage: WolfStage::Lobby,
            game_count: 0,
            day: 0,
            guard_target: None,
            last_guard_target: None,
            wolf_kill_votes: Vec::new(),
            wolf_chat: Vec::new(),
            wolf_ready: Vec::new(),
            night_victim: None,
            witch_save_used: false,
            witch_poison_used: false,
            seer_history: Vec::new(),
            night_deaths: Vec::new(),
            at_dawn: true,
            last_words: Speeches::fresh(Vec::new()),
            pending_hunter: None,
            pending_badge: None,
            sheriff_idx: None,
            sheriff_done: false,
            sheriff_nominations: Vec::new(),
            sheriff_speech: Speeches::fresh(Vec::new()),
            side_speech: Speeches::fresh(Vec::new()),
            sheriff_votes: Vec::new(),
            day_speech: Speeches::fresh(Vec::new()),
            day_votes: Vec::new(),
            lynched: None,
            event_log: Vec::new(),
            recap_log: Vec::new(),
        };
        assert(g@ =~= WolfGameView::empty(chat_id@));
        g
    }

    /// The seat that the id holds.
    pub fn find_player(&self, open_id: &str) -> (r: Option<usize>)
        requires
            self@.wf(),
        ensures
            r == wolf_seat(self@.players, open_id@, 0),
            r is Some ==> r->0 < self.players@.len(),
    {
        let mut i: usize = 0;
        assert(self@.players.len() == self.players@.len());
        while i < self.players.len()
            invariant
                i <= self.players@.len() == self@.players.len(),
                wolf_seat(self@.players, open_id@, 0) == wolf_seat(self@.players, open_id@, i as int),
            decreases self.players@.len() - i,
        {
            assert(self@.players[i as int] == self.players@[i as int]@);
            if same_text(self.players[i].open_id.as_str(), open_id) {
                return Some(i);
            }
            i = i + 1;
        }
        None
    }

    /// The seat with this role.
    pub fn role_idx(&self, role: Role) -> (r: Option<usize>)
        requires
            self@.wf(),
        ensures
            r == role_seat(self@.players, role, 0),
            r is Some ==> r->0 < self.players@.len(),
    {
        let mut i: usize = 0;
        assert(self@.players.len() == self.players@.len());
        while i < self.players.len()
            invariant
                i <= self.players@.len() == self@.players.len(),
                role_seat(self@.players, role, 0) == role_seat(self@.players, role, i as int),
            decreases self.players@.len() - i,
        {
            assert(self@.players[i as int] == self.players@[i as int]@);
            if let Some(r) = self.players[i].role {
                if r == role {
                    return Some(i);
                }
            }
            i = i + 1;
        }
        None
    }

    /// Whether the seat is on the wolves' side.
    pub fn is_wolf(&self, i: usize) -> (r: bool)
        ensures
            r == (i < self@.players.len() && self@.players[i as int].wolf()),
    {
        if i < self.players.len() {
            match self.players[i].role {
                Some(r) => r.is_wolf(),
                None => false,
            }
        } else {
            false
        }
    }

    /// The seats of the living, in order.
    pub fn alive_indices(&self) -> (r: Vec<usize>)
        requires
            self@.wf(),
        ensures
            r@ == living(self@.players),
            seats_in(r@, self@.players.len()),
    {
        let ghost all = self@.players;
        let mut out: Vec<usize> = Vec::new();
        let mut i: usize = 0;
        while i < self.players.len()
            invariant
                all == self@.players,
                i <= self.players@.len() == all.len(),
                all.len() <= 12,
                out@ == living(all.take(i as int)),
            decreases self.players@.len() - i,
        {
            assert(all.take(i + 1).drop_last() =~= all.take(i as int));
            assert(all.take(i + 1).last() == self.players@[i as int]@);
            if self.players[i].alive {
                out.push(i);
            }
            i = i + 1;
        }
        proof {
            assert(all.take(i as int) =~= all);
            living_facts(all);
        }
        out
    }

    /// The seats of the living wolves, in order.
    pub fn alive_wolves(&self) -> (r: Vec<usize>)
        requires
            self@.wf(),
        ensures
            r@ == living_wolves(self@.players),
            seats_in(r@, self@.players.len()),
    {
        let ghost all = self@.players;
        let mut out: Vec<usize> = Vec::new();
        let mut i: usize = 0;
        while i < self.players.len()
            invariant
                all == self@.players,
                i <= self.players@.len() == all.len(),
                all.len() <= 12,
                out@ == living_wolves(all.take(i as int)),
            decreases self.players@.len() - i,
        {
            assert(all.take(i + 1).drop_last() =~= all.take(i as int));
            assert(all.take(i + 1).last() == self.players@[i as int]@);
            if self.players[i].alive && self.is_wolf(i) {
                out.push(i);
            }
            i = i + 1;
        }
        proof {
            assert(all.take(i as int) =~= all);
            living_wolves_facts(all);
        }
        out
    }

    /// Who has won, if anybody has.
    pub fn victory(&self) -> (r: Option<Winner>)
        requires
            self@.wf(),
        ensures
            r == winner(self@.players),
    {
        let wolves = self.alive_wolves().len();
        let alive = self.alive_indices().len();
        proof {
            living_wolves_facts(self@.players);
            living_facts(self@.players);
        }
        if wolves == 0 {
            Some(Winner::Good)
        } else if 2 * wolves >= alive {
            Some(Winner::Wolves)
        } else {
            None
        }
    }

    /// Whether no game is being played.
    pub fn is_idle(&self) -> (r: bool)
        ensures
            r == self@.idle(),
    {
        self.stage == WolfStage::Lobby || self.stage == WolfStage::Ended
    }

    fn sit_down(&mut self, open_id: String, name: String, is_ai: bool, persona: Option<Persona>) -> (r: Result<(), WolfError>)
        requires
            old(self)@.wf(),
        ensures
            final(self)@.wf(),
            match old(self)@.join_error(open_id@) {
                Some(e) => r == Err::<(), WolfError>(e) && final(self)@ == old(self)@,
                None => r is Ok && final(self)@ == old(self)@.joined(open_id@, name@, is_ai, persona),
            },
    {
        if self.stage != WolfStage::Lobby {
            return Err(WolfError::InPlay);
        }
        let seat = self.find_player(open_id.as_str());
        proof {
            wolf_seat_facts(self@.players, open_id@, 0);
        }
        if seat.is_some() {
            return Err(WolfError::AlreadySeated);
        }
        if self.players.len() >= MAX_WOLF_PLAYERS {
            return Err(WolfError::RoomFull);
        }
        let ghost before = self@;
        self.players.push(WolfPlayer { open_id, name, is_ai, persona, alive: true, role: None });
        proof {
            let p = wolf_newcomer(open_id@, name@, is_ai, persona);
            assert(self@.players =~= before.players.push(p));
            assert(self@ =~= before.joined(open_id@, name@, is_ai, persona));
        }
        Ok(())
    }

    /// Seat a person.
    pub fn add_player(&mut self, open_id: String, name: String) -> (r: Result<(), WolfError>)
        requires
            old(self)@.wf(),
        ensures
            final(self)@.wf(),
            match old(self)@.join_error(open_id@) {
                Some(e) => r == Err::<(), WolfError>(e) && final(self)@ == old(self)@,
                None => r is Ok && final(self)@ == old(self)@.joined(open_id@, name@, false, None),
            },
    {
        self.sit_down(open_id, name, false, None)
    }

    /// Seat an AI player.
    pub fn add_ai_player(&mut self, open_id: String, name: String, persona: Persona) -> (r: Result<(), WolfError>)
        requires
            old(self)@.wf(),
        ensures
            final(self)@.wf(),
            match old(self)@.join_error(open_id@) {
                Some(e) => r == Err::<(), WolfError>(e) && final(self)@ == old(self)@,
                None => r is Ok && final(self)@ == old(self)@.joined(open_id@, name@, true, Some(persona)),
            },
    {
        self.sit_down(open_id, name, true, Some(persona))
    }

    /// Let night fall.
    pub(crate) fn fall_night(&mut self)
        requires
            old(self)@.players.len() <= 12,
            old(self)@.wf(),
        ensures
            final(self)@ == old(self)@.night(),
    {
        let ghost before = self@;
        let guard = self.role_idx(Role::Guard);
        self.stage = if guard.is_some() { WolfStage::GuardPick } else { WolfStage::WolvesPick };
        self.last_guard_target = self.guard_target;
        self.guard_target = None;
        self.wolf_kill_votes = Vec::new();
        self.wolf_chat = Vec::new();
        self.wolf_ready = Vec::new();
        self.night_victim = None;
        self.night_deaths = Vec::new();
        self.last_words = Speeches::fresh(Vec::new());
        assert(self@ =~= before.night());
    }

    /// Start a game with these roles, the first for the first seat.
    pub fn start_with(&mut self, roles: &Vec<Role>) -> (r: Result<(), WolfError>)
        requires
            old(self)@.wf(),
            old(self)@.start_error() is None ==> roles@.len() == old(self)@.players.len(),
        ensures
            final(self)@.wf(),
            match old(self)@.start_error() {
                Some(e) => r == Err::<(), WolfError>(e) && final(self)@ == old(self)@,
                None => r is Ok && final(self)@ == old(self)@.started(roles@),
            },
    {
        if self.stage != WolfStage::Lobby && self.stage != WolfStage::Ended {
            return Err(WolfError::InPlay);
        }
        let n = self.players.len();
        assert(n == self@.players.len());
        if n < MIN_WOLF_PLAYERS || n > MAX_WOLF_PLAYERS {
            return Err(WolfError::WrongHeadcount);
        }
        let ghost before = self@;
        let ghost dealt = dealt_roles(before.players, roles@);
        let mut i: usize = 0;
        while i < n
            invariant
                n == self.players@.len() == before.players.len() == roles@.len(),
                i <= n,
                dealt == dealt_roles(before.players, roles@),
                self@ == (WolfGameView { players: self@.players, ..before }),
                forall|k: int| 0 <= k < i ==> (#[trigger] self@.players[k]) == dealt[k],
                forall|k: int| i <= k < n ==> (#[trigger] self@.players[k]) == before.players[k],
            decreases n - i,
        {
            let ghost now = self@.players;
            assert(now[i as int] == before.players[i as int]);
            self.players[i].alive = true;
            self.players[i].role = Some(roles[i]);
            proof {
                assert(self@.players[i as int] =~= dealt[i as int]);
                assert(self@.players =~= now.update(i as int, dealt[i as int]));
            }
            i = i + 1;
        }
        assert(self@.players =~= dealt);
        self.stage = WolfStage::Lobby;
        self.game_count = if self.game_count < u32::MAX { self.game_count + 1 } else { self.game_count };
        self.day = 1;
        self.guard_target = None;
        self.last_guard_target = None;
        self.wolf_kill_votes = Vec::new();
        self.wolf_chat = Vec::new();
        self.wolf_ready = Vec::new();
        self.night_victim = None;
        self.witch_save_used = false;
        self.witch_poison_used = false;
        self.seer_history = Vec::new();
        self.night_deaths = Vec::new();
        self.at_dawn = true;
        self.last_words = Speeches::fresh(Vec::new());
        self.pending_hunter = None;
        self.pending_badge = None;
        self.sheriff_idx = None;
        self.sheriff_done = n <= 9;
        self.sheriff_nominations = Vec::new();
        self.sheriff_speech = Speeches::fresh(Vec::new());
        self.side_speech = Speeches::fresh(Vec::new());
        self.sheriff_votes = Vec::new();
        self.day_speech = Speeches::fresh(Vec::new());
        self.day_votes = Vec::new();
        self.lynched = None;
        self.event_log = Vec::new();
        self.recap_log = Vec::new();
        proof {
            assert forall|k: int, j: int| 0 <= k < j < n implies (#[trigger] self@.players[k]).open_id
                != (#[trigger] self@.players[j]).open_id by {
                assert(before.players[k].open_id != before.players[j].open_id);
            }
        }
        self.fall_night();
        assert(self@ =~= before.started(roles@));
        Ok(())
    }

    /// Start a game: the roles of the board are dealt at random.
    pub fn start_game(&mut self) -> (r: Result<(), WolfError>)
        requires
            old(self)@.wf(),
        ensures
            final(self)@.wf(),
            match old(self)@.start_error() {
                Some(e) => r == Err::<(), WolfError>(e) && final(self)@ == old(self)@,
                None => r is Ok && exists|roles: Seq<Role>|
                    #![trigger old(self)@.started(roles)]
                    roles.len() == old(self)@.players.len() && roles.to_multiset() == board(
                        old(self)@.players.len(),
                    ).to_multiset() && final(self)@ == old(self)@.started(roles),
            },
    {
        let roles = shuffled_roles(self.players.len());
        assert(self.players@.len() == self@.players.len());
        self.start_with(&roles)
    }
}

} // verus!
