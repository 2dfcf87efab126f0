//! Seats, and what always holds of a table.

use vstd::prelude::*;
use vstd::multiset::Multiset;
use crate::poker::card::ordered_deck;
use crate::poker::{Card, Deck, DeckMode};
use crate::text::same_text;
use super::view::{GameView, PlayerView};
use super::{
    Game, GameError, Persona, Player, Stage, BIG_BLIND, MAX_PLAYERS, SMALL_BLIND, STARTING_CHIPS,
};

verus! {

impl PlayerView {
    /// Still in the hand.
    pub open spec fn live(self) -> bool {
        !self.sat_out && !self.folded
    }

    /// Still in the hand and with chips to bet.
    pub open spec fn can_bet(self) -> bool {
        self.live() && !self.all_in
    }
}

/// Chips and bets of all players together.
pub open spec fn money(players: Seq<PlayerView>) -> int
    decreases players.len(),
{
    if players.len() == 0 {
        0
    } else {
        money(players.drop_last()) + players.last().chips + players.last().total_bet
    }
}

/// The bets of all players together.
pub open spec fn bets(players: Seq<PlayerView>) -> int
    decreases players.len(),
{
    if players.len() == 0 {
        0
    } else {
        bets(players.drop_last()) + players.last().total_bet
    }
}

/// The hole cards of all players together.
pub open spec fn holes(players: Seq<PlayerView>) -> Multiset<Card>
    decreases players.len(),
{
    if players.len() == 0 {
        Multiset::empty()
    } else {
        holes(players.drop_last()).add(players.last().hole.to_multiset())
    }
}

/// The seats of the players still in the hand, in order.
pub open spec fn live_seats(players: Seq<PlayerView>) -> Seq<int>
    decreases players.len(),
{
    if players.len() == 0 {
        Seq::empty()
    } else if players.last().live() {
        live_seats(players.drop_last()).push(players.len() - 1)
    } else {
        live_seats(players.drop_last())
    }
}

/// How many players can still bet.
pub open spec fn bettors(players: Seq<PlayerView>) -> nat
    decreases players.len(),
{
    if players.len() == 0 {
        0
    } else {
        bettors(players.drop_last()) + if players.last().can_bet() { 1nat } else { 0nat }
    }
}

impl GameView {
    /// Every card that is in somebody's hand, on the board or still to come.
    pub open spec fn in_play(self) -> Multiset<Card> {
        holes(self.players).add(self.community.to_multiset()).add(self.deck.to_multiset())
    }

    /// No card is there twice, and all of them belong to the mode's deck.
    pub open spec fn cards_wf(self) -> bool {
        forall|c: Card| #[trigger] self.in_play().count(c) <= 1 && (self.in_play().count(c) == 1
            ==> self.mode.low() <= c.rank.0 <= 14)
    }

    /// What holds of each player during a hand.
    pub open spec fn player_wf(self, p: PlayerView) -> bool {
        &&& p.sat_out ==> p.total_bet == 0
        &&& p.can_bet() ==> p.chips > 0
        &&& p.live() && p.all_in ==> p.chips == 0 && p.total_bet > 0
        &&& p.live() ==> p.hole.len() == 2
        &&& p.live() && !(self.stage is PreFlop) ==> p.total_bet > 0
        &&& p.bet_in_round <= p.total_bet
        &&& p.bet_in_round <= self.current_bet
    }

    /// How many community cards lie open in the stage.
    pub open spec fn board_size(self) -> int {
        match self.stage {
            Stage::Flop => 3,
            Stage::Turn => 4,
            Stage::River => 5,
            Stage::Showdown => 5,
            _ => 0,
        }
    }

    /// How many cards the rest of the hand takes from the deck.
    pub open spec fn cards_to_come(self) -> int {
        match self.stage {
            Stage::PreFlop => 8,
            Stage::Flop => 4,
            Stage::Turn => 2,
            _ => 0,
        }
    }

    /// What holds while a hand is being played: at least two are still in.
    pub open spec fn hand_wf(self) -> bool {
        self.in_hand_wf() && live_seats(self.players).len() >= 2
    }

    /// What holds while a hand is being played, though all but one may just have
    /// folded.
    pub open spec fn in_hand_wf(self) -> bool {
        &&& self.dealer_idx < self.players.len()
        &&& self.current_idx < self.players.len()
        &&& self.stage is PreFlop ==> self.current_bet >= self.big_blind
        &&& self.community.len() == self.board_size()
        &&& self.deck.len() >= self.cards_to_come()
        &&& self.cards_wf()
        &&& forall|i: int| 0 <= i < self.players.len() ==> self.player_wf(#[trigger] self.players[i])
    }

    /// What holds of every table at any moment.
    pub open spec fn table_wf(self) -> bool {
        &&& self.players.len() <= MAX_PLAYERS
        &&& 0 <= self.dealer_idx < MAX_PLAYERS
        &&& 0 <= self.current_idx < MAX_PLAYERS
        &&& 0 < self.big_blind
        &&& 0 < self.min_raise
        &&& 0 <= self.small_blind <= self.big_blind
        &&& money(self.players) <= u64::MAX
        &&& forall|i: int| 0 <= i < self.players.len() ==> (#[trigger] self.players[i]).chips >= 0
            && self.players[i].total_bet >= 0 && self.players[i].bet_in_round >= 0
        &&& forall|i: int, j: int|
            0 <= i < j < self.players.len() ==> (#[trigger] self.players[i]).open_id != (
            #[trigger] self.players[j]).open_id
    }

    /// What holds of every table between requests: nobody has bets left between
    /// hands, and a hand in play is in order.
    pub open spec fn wf(self) -> bool {
        &&& self.table_wf()
        &&& self.stage.idle() || self.stage.betting()
        &&& self.stage.idle() ==> forall|i: int|
            0 <= i < self.players.len() ==> (#[trigger] self.players[i]).total_bet == 0
                && self.players[i].bet_in_round == 0
        &&& self.stage.betting() ==> self.hand_wf()
    }

    /// Whether somebody with this id has a seat.
    pub open spec fn seated(self, open_id: Seq<char>) -> bool {
        exists|i: int| 0 <= i < self.players.len() && (#[trigger] self.players[i]).open_id == open_id
    }

    /// Why the id may not take a seat, if so.
    pub open spec fn join_error(self, open_id: Seq<char>) -> Option<GameError> {
        if !self.stage.idle() {
            Some(GameError::JoinDuringHand)
        } else if self.seated(open_id) {
            Some(GameError::AlreadySeated)
        } else if self.players.len() >= MAX_PLAYERS {
            Some(GameError::TableFull)
        } else {
            None
        }
    }

    /// The table with a new player behind the others.
    pub open spec fn joined(
        self,
        open_id: Seq<char>,
        name: Seq<char>,
        is_ai: bool,
        persona: Option<Persona>,
    ) -> GameView {
        GameView {
            players: self.players.push(newcomer(open_id, name, is_ai, persona)),
            ..self
        }
    }

    /// Why the id may not leave, if so.
    pub open spec fn leave_error(self, open_id: Seq<char>) -> Option<GameError> {
        if !self.stage.idle() {
            Some(GameError::LeaveDuringHand)
        } else if !self.seated(open_id) {
            Some(GameError::NotSeated)
        } else {
            None
        }
    }

    /// The table without the id's seat.
    pub open spec fn left(self, open_id: Seq<char>) -> GameView {
        GameView { players: without_id(self.players, open_id), ..self }
    }

    /// Why no AI seat can be removed, if so.
    pub open spec fn remove_ai_error(self) -> Option<GameError> {
        if !self.stage.idle() {
            Some(GameError::RemoveAiDuringHand)
        } else if last_ai(self.players) < 0 {
            Some(GameError::NoAi)
        } else {
            None
        }
    }

    /// The table without its last AI seat.
    pub open spec fn ai_removed(self) -> GameView {
        GameView { players: self.players.remove(last_ai(self.players)), ..self }
    }
}

/// A player who has just sat down.
pub open spec fn newcomer(open_id: Seq<char>, name: Seq<char>, is_ai: bool, persona: Option<Persona>) -> PlayerView {
    PlayerView {
        open_id,
        name,
        chips: STARTING_CHIPS as int,
        hole: Seq::empty(),
        bet_in_round: 0,
        total_bet: 0,
        folded: false,
        all_in: false,
        acted_this_round: false,
        sat_out: false,
        is_ai,
        persona,
    }
}

/// The players with another id, in order.
pub open spec fn without_id(players: Seq<PlayerView>, open_id: Seq<char>) -> Seq<PlayerView>
    decreases players.len(),
{
    if players.len() == 0 {
        Seq::empty()
    } else if players.last().open_id == open_id {
        without_id(players.drop_last(), open_id)
    } else {
        without_id(players.drop_last(), open_id).push(players.last())
    }
}

/// The last AI seat, or -1.
pub open spec fn last_ai(players: Seq<PlayerView>) -> int
    decreases players.len(),
{
    if players.len() == 0 {
        -1
    } else if players.last().is_ai {
        players.len() - 1
    } else {
        last_ai(players.drop_last())
    }
}

/// The first seat with this id.
pub open spec fn seat_of(players: Seq<PlayerView>, open_id: Seq<char>, from: int) -> Option<int>
    decreases players.len() - from,
{
    if from >= players.len() {
        None
    } else if players[from].open_id == open_id {
        Some(from)
    } else {
        seat_of(players, open_id, from + 1)
    }
}

// ---- sums over players ----

pub proof fn money_push(players: Seq<PlayerView>, p: PlayerView)
    ensures
        money(players.push(p)) == money(players) + p.chips + p.total_bet,
        bets(players.push(p)) == bets(players) + p.total_bet,
{
    assert(players.push(p).drop_last() =~= players);
}

pub proof fn money_update(players: Seq<PlayerView>, i: int, p: PlayerView)
    requires
        0 <= i < players.len(),
    ensures
        money(players.update(i, p)) == money(players) - players[i].chips - players[i].total_bet + p.chips
            + p.total_bet,
        bets(players.update(i, p)) == bets(players) - players[i].total_bet + p.total_bet,
    decreases players.len(),
{
    let last = players.len() - 1;
    if i == last {
        assert(players.update(i, p).drop_last() =~= players.drop_last());
    } else {
        money_update(players.drop_last(), i, p);
        assert(players.update(i, p).drop_last() =~= players.drop_last().update(i, p));
    }
}

pub proof fn money_bounds(players: Seq<PlayerView>)
    requires
        forall|i: int| 0 <= i < players.len() ==> (#[trigger] players[i]).chips >= 0 && players[i].total_bet >= 0,
    ensures
        0 <= bets(players) <= money(players),
        forall|i: int| 0 <= i < players.len() ==> (#[trigger] players[i]).chips + players[i].total_bet <= money(players)
            && players[i].total_bet <= bets(players) && players[i].chips + bets(players) <= money(players),
    decreases players.len(),
{
    if players.len() > 0 {
        let rest = players.drop_last();
        assert forall|i: int| 0 <= i < rest.len() implies (#[trigger] rest[i]).chips >= 0 && rest[i].total_bet >= 0 by {
            assert(rest[i] == players[i]);
        }
        money_bounds(rest);
        assert(players[players.len() - 1] == players.last());
        assert forall|i: int| 0 <= i < players.len() implies (#[trigger] players[i]).chips + players[i].total_bet <= money(players)
            && players[i].total_bet <= bets(players) && players[i].chips + bets(players) <= money(players) by {
            if i < rest.len() {
                assert(rest[i] == players[i]);
            }
        }
    }
}

/// Two rows of players with equal money at each seat hold equal sums.
pub proof fn money_same(a: Seq<PlayerView>, b: Seq<PlayerView>)
    requires
        a.len() == b.len(),
        forall|i: int| 0 <= i < a.len() ==> (#[trigger] a[i]).chips + a[i].total_bet == b[i].chips + b[i].total_bet,
    ensures
        money(a) == money(b),
    decreases a.len(),
{
    if a.len() > 0 {
        assert(a[a.len() - 1] == a.last());
        let ra = a.drop_last();
        let rb = b.drop_last();
        assert forall|i: int| 0 <= i < ra.len() implies (#[trigger] ra[i]).chips + ra[i].total_bet == rb[i].chips + rb[i].total_bet by {
            assert(ra[i] == a[i]);
        }
        money_same(ra, rb);
    }
}

/// Two rows of players with equal bets hold equal sums of them.
pub proof fn bets_same(a: Seq<PlayerView>, b: Seq<PlayerView>)
    requires
        a.len() == b.len(),
        forall|i: int| 0 <= i < a.len() ==> (#[trigger] b[i]).total_bet == a[i].total_bet,
    ensures
        bets(a) == bets(b),
    decreases a.len(),
{
    if a.len() > 0 {
        let ra = a.drop_last();
        let rb = b.drop_last();
        assert forall|i: int| 0 <= i < ra.len() implies (#[trigger] rb[i]).total_bet == ra[i].total_bet by {
            assert(b[i].total_bet == a[i].total_bet);
        }
        bets_same(ra, rb);
        assert(b[b.len() - 1].total_bet == a[a.len() - 1].total_bet);
    }
}

pub proof fn without_id_facts(players: Seq<PlayerView>, open_id: Seq<char>)
    requires
        forall|i: int| 0 <= i < players.len() ==> (#[trigger] players[i]).chips >= 0 && players[i].total_bet >= 0,
    ensures
        without_id(players, open_id).len() <= players.len(),
        money(without_id(players, open_id)) <= money(players),
        forall|i: int| 0 <= i < without_id(players, open_id).len() ==> players.contains(#[trigger] without_id(players, open_id)[i])
            && without_id(players, open_id)[i].open_id != open_id,
        (forall|i: int, j: int| 0 <= i < j < players.len() ==> (#[trigger] players[i]).open_id != (#[trigger] players[j]).open_id)
            ==> forall|i: int, j: int| 0 <= i < j < without_id(players, open_id).len() ==>
                (#[trigger] without_id(players, open_id)[i]).open_id != (#[trigger] without_id(players, open_id)[j]).open_id,
        without_id(players, open_id).len() == players.len() <==> (forall|i: int|
            0 <= i < players.len() ==> (#[trigger] players[i]).open_id != open_id),
        without_id(players, open_id).len() == players.len() ==> without_id(players, open_id) == players,
    decreases players.len(),
{
    if players.len() > 0 {
        let rest = players.drop_last();
        let last = players.last();
        assert(last == players[players.len() - 1]);
        assert forall|i: int| 0 <= i < rest.len() implies (#[trigger] rest[i]).chips >= 0 && rest[i].total_bet >= 0 by {
            assert(rest[i] == players[i]);
        }
        without_id_facts(rest, open_id);
        let w = without_id(players, open_id);
        let v = without_id(rest, open_id);
        assert forall|i: int| 0 <= i < v.len() implies players.contains(#[trigger] v[i]) by {
            let n = choose|n: int| 0 <= n < rest.len() && rest[n] == v[i];
            assert(players[n] == v[i]);
        }
        if last.open_id != open_id {
            money_push(v, last);
            assert(players.contains(last));
            assert forall|i: int| 0 <= i < w.len() implies players.contains(#[trigger] w[i]) && w[i].open_id != open_id by {
                if i < v.len() {
                    assert(w[i] == v[i]);
                }
            }
            if forall|i: int, j: int| 0 <= i < j < players.len() ==> (#[trigger] players[i]).open_id != (#[trigger] players[j]).open_id {
                assert forall|i: int, j: int| 0 <= i < j < w.len() implies (#[trigger] w[i]).open_id != (#[trigger] w[j]).open_id by {
                    assert(w[i] == v[i]);
                    if j == v.len() {
                        let n = choose|n: int| 0 <= n < rest.len() && rest[n] == v[i];
                        assert(players[n].open_id != players[players.len() - 1].open_id);
                    } else {
                        assert(w[j] == v[j]);
                    }
                }
            }
        }
        if forall|i: int| 0 <= i < players.len() ==> (#[trigger] players[i]).open_id != open_id {
            assert forall|i: int| 0 <= i < rest.len() implies (#[trigger] rest[i]).open_id != open_id by {
                assert(rest[i] == players[i]);
            }
            assert(w =~= players);
        }
        if w.len() == players.len() {
            assert(w =~= players);
            assert forall|i: int| 0 <= i < players.len() implies (#[trigger] players[i]).open_id != open_id by {
                if i < rest.len() {
                    assert(rest[i] == players[i]);
                }
            }
        }
    }
}

pub proof fn last_ai_facts(players: Seq<PlayerView>)
    ensures
        -1 <= last_ai(players) < players.len(),
        last_ai(players) >= 0 ==> players[last_ai(players)].is_ai,
        forall|i: int| last_ai(players) < i < players.len() ==> !(#[trigger] players[i]).is_ai,
    decreases players.len(),
{
    if players.len() > 0 {
        let rest = players.drop_last();
        last_ai_facts(rest);
        assert forall|i: int| last_ai(players) < i < players.len() implies !(#[trigger] players[i]).is_ai by {
            if i < rest.len() {
                assert(rest[i] == players[i]);
            }
        }
    }
}

proof fn money_remove(players: Seq<PlayerView>, k: int)
    requires
        0 <= k < players.len(),
    ensures
        money(players.remove(k)) == money(players) - players[k].chips - players[k].total_bet,
    decreases players.len(),
{
    let last = players.len() - 1;
    if k == last {
        assert(players.remove(k) =~= players.drop_last());
    } else {
        money_remove(players.drop_last(), k);
        assert(players.remove(k).drop_last() =~= players.drop_last().remove(k));
    }
}

pub proof fn seat_of_facts(players: Seq<PlayerView>, open_id: Seq<char>, from: int)
    requires
        0 <= from,
    ensures
        match seat_of(players, open_id, from) {
            Some(i) => from <= i < players.len() && players[i].open_id == open_id,
            None => forall|i: int| from <= i < players.len() ==> (#[trigger] players[i]).open_id != open_id,
        },
    decreases players.len() - from,
{
    if from < players.len() && players[from].open_id != open_id {
        seat_of_facts(players, open_id, from + 1);
    }
}

// ---- the seats of a game ----

impl Game {
    /// A table without players.
    pub fn new(chat_id: String) -> (r: Self)
        ensures
            r@.wf(),
            r@.deck.to_multiset() == ordered_deck(DeckMode::Standard).to_multiset(),
            r@ == (GameView {
                chat_id: chat_id@,
                players: Seq::empty(),
                stage: Stage::Lobby,
                deck: r@.deck,
                community: Seq::empty(),
                current_bet: 0,
                min_raise: BIG_BLIND as int,
                small_blind: SMALL_BLIND as int,
                big_blind: BIG_BLIND as int,
                dealer_idx: 0,
                current_idx: 0,
                hand_count: 0,
                action_log: Seq::empty(),
                last_action_msg_id: None,
                lobby_msg_id: None,
                mode: DeckMode::Standard,
            }),
    {
        Game {
            chat_id,
            players: Vec::new(),
            stage: Stage::Lobby,
            deck: Deck::shuffled(DeckMode::Standard),
            community: Vec::new(),
            current_bet: 0,
            min_raise: BIG_BLIND,
            small_blind: SMALL_BLIND,
            big_blind: BIG_BLIND,
            dealer_idx: 0,
            current_idx: 0,
            hand_count: 0,
            action_log: Vec::new(),
            last_action_msg_id: None,
            lobby_msg_id: None,
            mode: DeckMode::Standard,
        }
    }

    /// Seat a person.
    pub fn add_player(&mut self, open_id: String, name: String) -> (r: Result<(), GameError>)
        ensures
            old(self)@.wf() && money(old(self)@.players) + STARTING_CHIPS <= u64::MAX ==> final(self)@.wf(),
            match old(self)@.join_error(open_id@) {
                Some(e) => r == Err::<(), GameError>(e) && final(self)@ == old(self)@,
                None => r is Ok && final(self)@ == old(self)@.joined(open_id@, name@, false, None),
            },
    {
        self.add_player_inner(open_id, name, false, None)
    }

    /// Like `add_player` but flags the seat as LLM-driven and tags it with a
    /// persona. The id is synthetic (`ai:...`) and only used to look the seat up.
    pub fn add_ai_player(&mut self, open_id: String, name: String, persona: Persona) -> (r: Result<(), GameError>)
        ensures
            old(self)@.wf() && money(old(self)@.players) + STARTING_CHIPS <= u64::MAX ==> final(self)@.wf(),
            match old(self)@.join_error(open_id@) {
                Some(e) => r == Err::<(), GameError>(e) && final(self)@ == old(self)@,
                None => r is Ok && final(self)@ == old(self)@.joined(open_id@, name@, true, Some(persona)),
            },
    {
        self.add_player_inner(open_id, name, true, Some(persona))
    }

    fn add_player_inner(
        &mut self,
        open_id: String,
        name: String,
        is_ai: bool,
        persona: Option<Persona>,
    ) -> (r: Result<(), GameError>)
        ensures
            old(self)@.wf() && money(old(self)@.players) + STARTING_CHIPS <= u64::MAX ==> final(self)@.wf(),
            match old(self)@.join_error(open_id@) {
                Some(e) => r == Err::<(), GameError>(e) && final(self)@ == old(self)@,
                None => r is Ok && final(self)@ == old(self)@.joined(open_id@, name@, is_ai, persona),
            },
    {
        if !self.stage.is_idle() {
            return Err(GameError::JoinDuringHand);
        }
        let seat = self.find_player(open_id.as_str());
        proof {
            seat_of_facts(self@.players, open_id@, 0);
        }
        if seat.is_some() {
            return Err(GameError::AlreadySeated);
        }
        if self.players.len() >= MAX_PLAYERS {
            return Err(GameError::TableFull);
        }
        let ghost before = self@;
        self.players.push(
            Player {
                open_id,
                name,
                chips: STARTING_CHIPS,
                hole: Vec::new(),
                bet_in_round: 0,
                total_bet: 0,
                folded: false,
                all_in: false,
                acted_this_round: false,
                sat_out: false,
                is_ai,
                persona,
            },
        );
        proof {
            let p = newcomer(open_id@, name@, is_ai, persona);
            money_push(before.players, p);
            assert(self@.players =~= before.players.push(p));
            assert(self@ =~= before.joined(open_id@, name@, is_ai, persona));
        }
        Ok(())
    }

    /// Give the id's seat up.
    pub fn remove_player(&mut self, open_id: &str) -> (r: Result<(), GameError>)
        ensures
            old(self)@.wf() ==> final(self)@.wf(),
            match old(self)@.leave_error(open_id@) {
                Some(e) => r == Err::<(), GameError>(e) && final(self)@ == old(self)@,
                None => r is Ok && final(self)@ == old(self)@.left(open_id@),
            },
    {
        if !self.stage.is_idle() {
            return Err(GameError::LeaveDuringHand);
        }
        let ghost before = self@;
        let before_len: usize = self.players.len();
        assert forall|k: int| 0 <= k < before.players.len() implies (#[trigger] before.players[k]).chips >= 0
            && before.players[k].total_bet >= 0 by {
            assert(before.players[k] == self.players@[k]@);
        }
        let mut i: usize = 0;
        let mut seen: Ghost<int> = Ghost(0);
        while i < self.players.len()
            invariant
                i <= self.players@.len() <= before.players.len(),
                0 <= seen@ <= before.players.len(),
                self.players@.len() - i == before.players.len() - seen@,
                self@.players =~= without_id(before.players.take(seen@), open_id@) + before.players.skip(seen@),
                without_id(before.players.take(seen@), open_id@).len() == i,
                self@ == (GameView { players: self@.players, ..before }),
            decreases self.players@.len() - i,
        {
            let ghost cur = self@.players;
            assert(before.players.take(seen@ + 1).drop_last() =~= before.players.take(seen@));
            assert(cur[i as int] == before.players[seen@]);
            if same_text(self.players[i].open_id.as_str(), open_id) {
                self.players.remove(i);
                assert(self@.players =~= cur.remove(i as int));
            } else {
                i = i + 1;
            }
            proof {
                seen@ = seen@ + 1;
            }
        }
        proof {
            assert(before.players.take(seen@) =~= before.players);
            assert(self@.players =~= without_id(before.players, open_id@));
            without_id_facts(before.players, open_id@);
            if before.wf() {
                assert forall|k: int| 0 <= k < self@.players.len() implies (#[trigger] self@.players[k]).chips >= 0
                    && self@.players[k].total_bet == 0 && self@.players[k].bet_in_round == 0 by {
                    let n = choose|n: int| 0 <= n < before.players.len() && before.players[n] == self@.players[k];
                    assert(before.players[n].total_bet == 0);
                }
            }
        }
        if self.players.len() == before_len {
            assert(self@ =~= before);
            return Err(GameError::NotSeated);
        }
        assert(self@ =~= before.left(open_id@));
        Ok(())
    }

    /// Remove the most recently added AI seat. Returns the removed player's
    /// display name. Refuses mid-hand to keep state consistent.
    pub fn remove_last_ai(&mut self) -> (r: Result<String, GameError>)
        ensures
            old(self)@.wf() ==> final(self)@.wf(),
            match old(self)@.remove_ai_error() {
                Some(e) => r is Err && r->Err_0 == e && final(self)@ == old(self)@,
                None => r is Ok && r->Ok_0@ == old(self)@.players[last_ai(old(self)@.players)].name
                    && final(self)@ == old(self)@.ai_removed(),
            },
    {
        if !self.stage.is_idle() {
            return Err(GameError::RemoveAiDuringHand);
        }
        let ghost before = self@;
        let mut i: usize = self.players.len();
        assert(before.players.take(i as int) =~= before.players);
        while i > 0
            invariant
                i <= self.players@.len(),
                self@ == before,
                last_ai(before.players) == last_ai(before.players.take(i as int)),
            ensures
                self@ == before,
                i <= self.players@.len(),
                last_ai(before.players) == i - 1,
            decreases i,
        {
            assert(before.players.take(i as int).drop_last() =~= before.players.take(i - 1));
            if self.players[i - 1].is_ai {
                assert(before.players[i - 1].is_ai);
                break;
            }
            i = i - 1;
        }
        proof {
            last_ai_facts(before.players);
        }
        if i == 0 {
            return Err(GameError::NoAi);
        }
        let gone = self.players.remove(i - 1);
        proof {
            money_remove(before.players, i - 1);
            assert(self@.players =~= before.players.remove(i - 1));
            assert(self@ =~= before.ai_removed());
        }
        Ok(gone.name)
    }

    /// The seat of the player with this id.
    pub fn find_player(&self, open_id: &str) -> (r: Option<usize>)
        ensures
            match r {
                Some(i) => seat_of(self@.players, open_id@, 0) == Some(i as int) && i < self.players@.len(),
                None => seat_of(self@.players, open_id@, 0) is None,
            },
    {
        let mut i: usize = 0;
        while i < self.players.len()
            invariant
                i <= self.players@.len(),
                seat_of(self@.players, open_id@, 0) == seat_of(self@.players, open_id@, i as int),
            decreases self.players@.len() - i,
        {
            assert(self@.players[i as int] == self.players@[i as int]@);
            if same_text(self.players[i].open_id.as_str(), open_id) {
                return Some(i);
            }
            i = i + 1;
        }
        None
    }

    /// The pot: the bets of all players together.
    pub fn pot_total(&self) -> (r: u64)
        requires
            bets(self@.players) <= u64::MAX,
        ensures
            r == bets(self@.players),
    {
        let mut sum: u64 = 0;
        let mut i: usize = 0;
        assert forall|k: int| 0 <= k < self@.players.len() implies (#[trigger] self@.players[k]).total_bet >= 0 by {
            assert(self@.players[k] == self.players@[k]@);
        }
        while i < self.players.len()
            invariant
                i <= self.players@.len(),
                forall|k: int| 0 <= k < self@.players.len() ==> (#[trigger] self@.players[k]).total_bet >= 0,
                bets(self@.players) <= u64::MAX,
                sum == bets(self@.players.take(i as int)),
            decreases self.players@.len() - i,
        {
            proof {
                assert(self@.players.take(i + 1).drop_last() =~= self@.players.take(i as int));
                assert(self@.players[i as int] == self.players@[i as int]@);
                bets_prefix(self@.players, i + 1);
            }
            sum = sum + self.players[i].total_bet;
            i = i + 1;
        }
        assert(self@.players.take(self.players@.len() as int) =~= self@.players);
        sum
    }

    /// The id of the player whose turn it is.
    pub fn current_player_open_id(&self) -> (r: Option<&str>)
        ensures
            match r {
                Some(id) => self@.current_idx < self@.players.len() && id@ == self@.players[self@.current_idx].open_id,
                None => self@.current_idx >= self@.players.len(),
            },
    {
        if self.current_idx < self.players.len() {
            assert(self@.players[self.current_idx as int] == self.players@[self.current_idx as int]@);
            Some(self.players[self.current_idx].open_id.as_str())
        } else {
            None
        }
    }
}

/// The first players bet no more than all of them.
pub proof fn bets_prefix(players: Seq<PlayerView>, n: int)
    requires
        0 <= n <= players.len(),
        forall|i: int| 0 <= i < players.len() ==> (#[trigger] players[i]).total_bet >= 0,
    ensures
        0 <= bets(players.take(n)) <= bets(players),
    decreases players.len(),
{
    if n == players.len() {
        assert(players.take(n) =~= players);
        if players.len() > 0 {
            bets_prefix(players.drop_last(), players.len() - 1);
            assert(players.drop_last().take(players.len() - 1) =~= players.drop_last());
            assert(players[players.len() - 1].total_bet >= 0);
        }
    } else {
        bets_prefix(players.drop_last(), n);
        assert(players.drop_last().take(n) =~= players.take(n));
        assert(players[players.len() - 1].total_bet >= 0);
    }
}

} // verus!
