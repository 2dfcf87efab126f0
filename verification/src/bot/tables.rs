//! The poker tables of all chats, one for each chat.

use vstd::prelude::*;
use vstd::string::*;
use crate::feishu::events::{InboundMessage, InboundView};
use crate::game::recovery::{a_called_off_hand_is_refunded, a_table_in_order_is_refundable, the_next_hand_can_start};
use crate::game::table::{last_ai, money};
use crate::game::view::{GameView, PlayerView};
use crate::game::{Game, GameError, Persona, STARTING_CHIPS};
use crate::poker::card::ordered_deck;
use crate::poker::{Card, DeckMode};
use crate::text::{append_text, no_texts, same_text, texts};
use super::commands::{addressed, cleaned, command_in, mentioned, parse_command, Command};
use crate::text::lowered;

verus! {

/// Why a request was refused.
#[derive(Debug, Clone, Copy, PartialEq, Eq, Structural)]
pub enum RoomError {
    /// The chat has no table.
    NoTable,
    /// The chat has no table to start a hand at.
    NoTableToStart,
    /// Nobody sits at the table.
    NoPlayers,
    /// The table refused.
    Table(GameError),
}

impl RoomError {
    pub open spec fn text(self) -> Seq<char> {
        match self {
            RoomError::NoTable => "当前没有牌局"@,
            RoomError::NoTableToStart => "当前没有牌局, 先 join"@,
            RoomError::NoPlayers => "还没有玩家加入"@,
            RoomError::Table(e) => e.text(),
        }
    }

    pub fn message(&self) -> (r: String)
        ensures
            r@ == self.text(),
    {
        match self {
            RoomError::NoTable => "当前没有牌局".to_owned(),
            RoomError::NoTableToStart => "当前没有牌局, 先 join".to_owned(),
            RoomError::NoPlayers => "还没有玩家加入".to_owned(),
            RoomError::Table(e) => e.message(),
        }
    }
}

/// The tables of all chats, and the chats whose hand was in play when their table
/// came back from the store.
#[derive(Debug)]
pub struct Tables {
    games: Vec<Game>,
    broken_off: Vec<String>,
}

#[verifier::ext_equal]
pub struct TablesView {
    pub games: Seq<GameView>,
    pub broken_off: Set<Seq<char>>,
}

/// The place of the table of a chat.
pub open spec fn table_at(games: Seq<GameView>, chat_id: Seq<char>, from: int) -> Option<int>
    decreases games.len() - from,
{
    if from >= games.len() {
        None
    } else if games[from].chat_id == chat_id {
        Some(from)
    } else {
        table_at(games, chat_id, from + 1)
    }
}

proof fn table_at_facts(games: Seq<GameView>, chat_id: Seq<char>, from: int)
    requires
        0 <= from,
    ensures
        match table_at(games, chat_id, from) {
            Some(i) => from <= i < games.len() && games[i].chat_id == chat_id,
            None => forall|i: int| from <= i < games.len() ==> (#[trigger] games[i]).chat_id != chat_id,
        },
    decreases games.len() - from,
{
    if from < games.len() && games[from].chat_id != chat_id {
        table_at_facts(games, chat_id, from + 1);
    }
}

impl View for Tables {
    type V = TablesView;

    closed spec fn view(&self) -> TablesView {
        TablesView {
            games: self.games@.map_values(|g: Game| g@),
            broken_off: texts(self.broken_off@).to_set(),
        }
    }
}

/// Whether the `k`-th table is the chat's and has a hand in play.
spec fn of_a_hand_at(games: Seq<GameView>, k: int, chat_id: Seq<char>) -> bool {
    games[k].chat_id == chat_id && !games[k].stage.idle()
}

/// Whether one of the first `n` tables is the chat's and has a hand in play.
spec fn of_a_hand(games: Seq<GameView>, n: int, chat_id: Seq<char>) -> bool {
    exists|k: int| 0 <= k < n && of_a_hand_at(games, k, chat_id)
}

/// No chat has two tables.
pub open spec fn tables_wf(games: Seq<GameView>) -> bool {
    forall|i: int, j: int| 0 <= i < j < games.len() ==> (#[trigger] games[i]).chat_id != (#[trigger] games[j]).chat_id
}

/// The chat's table, if there is one, is in order.
pub open spec fn in_order(games: Seq<GameView>, chat_id: Seq<char>) -> bool {
    table_at(games, chat_id, 0) matches Some(i) ==> games[i].wf()
}

/// The chat's table, if there is one, can pay one more player.
pub open spec fn can_pay(games: Seq<GameView>, chat_id: Seq<char>) -> bool {
    table_at(games, chat_id, 0) matches Some(i) ==> money(games[i].players) + STARTING_CHIPS <= u64::MAX
}

/// The tables with this one put in place of the chat's, or added.
pub open spec fn with_table(games: Seq<GameView>, g: GameView) -> Seq<GameView> {
    match table_at(games, g.chat_id, 0) {
        Some(i) => games.update(i, g),
        None => games.push(g),
    }
}

proof fn table_at_found(games: Seq<GameView>, chat_id: Seq<char>, from: int, i: int)
    requires
        0 <= from <= i < games.len(),
        games[i].chat_id == chat_id,
        forall|k: int| from <= k < i ==> (#[trigger] games[k]).chat_id != chat_id,
    ensures
        table_at(games, chat_id, from) == Some(i),
    decreases i - from,
{
    if from < i {
        table_at_found(games, chat_id, from + 1, i);
    }
}

proof fn table_at_first(games: Seq<GameView>, chat_id: Seq<char>, from: int)
    requires
        0 <= from,
        table_at(games, chat_id, from) is Some,
    ensures
        forall|k: int| from <= k < table_at(games, chat_id, from)->Some_0 ==> (#[trigger] games[k]).chat_id != chat_id,
    decreases games.len() - from,
{
    if from < games.len() && games[from].chat_id != chat_id {
        table_at_first(games, chat_id, from + 1);
    }
}

/// Where no chat has two tables, each is the one that is found for its chat.
proof fn only_table_of_chat(games: Seq<GameView>, k: int)
    requires
        tables_wf(games),
        0 <= k < games.len(),
    ensures
        table_at(games, games[k].chat_id, 0) == Some(k),
{
    assert forall|j: int| 0 <= j < k implies (#[trigger] games[j]).chat_id != games[k].chat_id by {}
    table_at_found(games, games[k].chat_id, 0, k);
}

/// A table that is put in its place is found there, and no chat has two.
proof fn with_table_facts(games: Seq<GameView>, g: GameView)
    ensures
        ({
            let after = with_table(games, g);
            &&& table_at(after, g.chat_id, 0) == match table_at(games, g.chat_id, 0) {
                Some(i) => Some(i),
                None => Some(games.len() as int),
            }
            &&& table_at(after, g.chat_id, 0) matches Some(i) && 0 <= i < after.len() && after[i] == g
            &&& tables_wf(games) ==> tables_wf(after)
        }),
{
    let after = with_table(games, g);
    table_at_facts(games, g.chat_id, 0);
    match table_at(games, g.chat_id, 0) {
        Some(i) => {
            table_at_first(games, g.chat_id, 0);
            assert forall|k: int| 0 <= k < i implies (#[trigger] after[k]).chat_id != g.chat_id by {
                assert(after[k] == games[k]);
            }
            table_at_found(after, g.chat_id, 0, i);
            if tables_wf(games) {
                assert forall|j: int, k: int| 0 <= j < k < after.len() implies (#[trigger] after[j]).chat_id != (
                #[trigger] after[k]).chat_id by {
                    assert(games[j].chat_id != games[k].chat_id);
                }
            }
        },
        None => {
            assert forall|k: int| 0 <= k < games.len() implies (#[trigger] after[k]).chat_id != g.chat_id by {
                assert(after[k] == games[k]);
            }
            table_at_found(after, g.chat_id, 0, games.len() as int);
            if tables_wf(games) {
                assert forall|j: int, k: int| 0 <= j < k < after.len() implies (#[trigger] after[j]).chat_id != (
                #[trigger] after[k]).chat_id by {
                    assert(after[j] == games[j]);
                    if k < games.len() {
                        assert(games[j].chat_id != games[k].chat_id);
                    }
                }
            }
        },
    }
}

/// The tables that were stored, one for each chat.
pub open spec fn restored_tables(games: Seq<GameView>) -> Seq<GameView>
    decreases games.len(),
{
    if games.len() == 0 {
        Seq::empty()
    } else {
        with_table(restored_tables(games.drop_last()), games.last())
    }
}

/// The chats with a hand in play.
pub open spec fn in_hand(games: Seq<GameView>) -> Set<Seq<char>> {
    Set::new(|chat_id: Seq<char>| table_at(games, chat_id, 0) matches Some(i) && !games[i].stage.idle())
}

/// Every stored table comes back as it was.
pub proof fn every_table_comes_back(games: Seq<GameView>)
    requires
        tables_wf(games),
    ensures
        restored_tables(games) == games,
    decreases games.len(),
{
    if games.len() > 0 {
        let rest = games.drop_last();
        assert forall|i: int, j: int| 0 <= i < j < rest.len() implies (#[trigger] rest[i]).chat_id != (
        #[trigger] rest[j]).chat_id by {
            assert(games[i].chat_id != games[j].chat_id);
        }
        every_table_comes_back(rest);
        let last = games.last();
        table_at_facts(rest, last.chat_id, 0);
        if let Some(i) = table_at(rest, last.chat_id, 0) {
            assert(games[i].chat_id != games[games.len() - 1].chat_id);
        }
    }
    assert(restored_tables(games) =~= games);
}

impl TablesView {
    /// The tables without the chat's.
    pub open spec fn given_up(self, chat_id: Seq<char>) -> TablesView {
        TablesView {
            games: match table_at(self.games, chat_id, 0) {
                Some(i) => self.games.remove(i),
                None => self.games,
            },
            broken_off: self.broken_off.remove(chat_id),
        }
    }

    /// What comes of somebody's leaving the chat's table.
    pub open spec fn left_by(self, chat_id: Seq<char>, open_id: Seq<char>) -> (TablesView, Result<(), RoomError>) {
        match table_at(self.games, chat_id, 0) {
            Some(i) => match self.games[i].leave_error(open_id) {
                Some(e) => (self, Err(RoomError::Table(e))),
                None => (TablesView { games: self.games.update(i, self.games[i].left(open_id)), ..self }, Ok(())),
            },
            None => (self, Err(RoomError::NoTable)),
        }
    }

    /// What comes of removing an AI player from the chat's table, and their name.
    pub open spec fn ai_gone(self, chat_id: Seq<char>) -> (TablesView, Result<Seq<char>, RoomError>) {
        match table_at(self.games, chat_id, 0) {
            Some(i) => match self.games[i].remove_ai_error() {
                Some(e) => (self, Err(RoomError::Table(e))),
                None => (
                    TablesView { games: self.games.update(i, self.games[i].ai_removed()), ..self },
                    Ok(self.games[i].players[last_ai(self.games[i].players)].name),
                ),
            },
            None => (self, Err(RoomError::NoTable)),
        }
    }

    /// The `i`-th table as the next hand is to start at it: a hand that a restart
    /// broke off is called off.
    pub open spec fn to_start(self, i: int) -> GameView {
        if self.broken_off.contains(self.games[i].chat_id) { self.games[i].called_off() } else { self.games[i] }
    }
}

/// Whether this is the chat's table.
pub open spec fn has_table(games: Seq<GameView>, chat_id: Seq<char>, g: GameView) -> bool {
    g.chat_id == chat_id && games.contains(g)
}

/// Whether the tables of all other chats are the same.
pub open spec fn others_keep_theirs(before: Seq<GameView>, after: Seq<GameView>, chat_id: Seq<char>) -> bool {
    forall|g: GameView| g.chat_id != chat_id ==> (#[trigger] after.contains(g) <==> before.contains(g))
}

proof fn one_replaced(games: Seq<GameView>, i: int, g: GameView)
    requires
        tables_wf(games),
        0 <= i < games.len(),
        games[i].chat_id == g.chat_id,
    ensures
        others_keep_theirs(games, games.update(i, g), g.chat_id),
        has_table(games.update(i, g), g.chat_id, g),
        forall|h: GameView| has_table(games.update(i, g), g.chat_id, h) ==> h == g,
{
    let after = games.update(i, g);
    assert(after[i] == g);
    assert forall|h: GameView| h.chat_id != g.chat_id implies (#[trigger] after.contains(h) <==> games.contains(h)) by {
        if after.contains(h) {
            let k = choose|k: int| 0 <= k < after.len() && after[k] == h;
            assert(games[k] == h);
        }
        if games.contains(h) {
            let k = choose|k: int| 0 <= k < games.len() && games[k] == h;
            assert(after[k] == h);
        }
    }
    assert forall|h: GameView| has_table(after, g.chat_id, h) implies h == g by {
        let k = choose|k: int| 0 <= k < after.len() && after[k] == h;
        if k < i {
            assert(games[k].chat_id != games[i].chat_id);
        } else if i < k {
            assert(games[i].chat_id != games[k].chat_id);
        }
    }
}

/// A reset takes the chat's table away, and no other chat's; the next hand finds nothing
/// that was broken off.
pub proof fn a_reset_gives_up_one_table(t: TablesView, chat_id: Seq<char>)
    requires
        tables_wf(t.games),
    ensures
        ({
            let u = t.given_up(chat_id);
            &&& forall|g: GameView| !has_table(u.games, chat_id, g)
            &&& others_keep_theirs(t.games, u.games, chat_id)
            &&& !u.broken_off.contains(chat_id)
            &&& forall|c: Seq<char>| c != chat_id ==> (#[trigger] u.broken_off.contains(c) <==> t.broken_off.contains(c))
        }),
{
    let u = t.given_up(chat_id);
    table_at_facts(t.games, chat_id, 0);
    match table_at(t.games, chat_id, 0) {
        Some(i) => {
            assert forall|g: GameView| !has_table(u.games, chat_id, g) by {
                if has_table(u.games, chat_id, g) {
                    let k = choose|k: int| 0 <= k < u.games.len() && u.games[k] == g;
                    if k < i {
                        assert(t.games[k].chat_id != t.games[i].chat_id);
                    } else {
                        assert(t.games[i].chat_id != t.games[k + 1].chat_id);
                    }
                }
            }
            assert forall|g: GameView| g.chat_id != chat_id implies (#[trigger] u.games.contains(g) <==> t.games.contains(g)) by {
                if u.games.contains(g) {
                    let k = choose|k: int| 0 <= k < u.games.len() && u.games[k] == g;
                    let l = if k < i { k } else { k + 1 };
                    assert(t.games[l] == g);
                }
                if t.games.contains(g) {
                    let k = choose|k: int| 0 <= k < t.games.len() && t.games[k] == g;
                    let l = if k < i { k } else { k - 1 };
                    assert(u.games[l] == g);
                }
            }
        },
        None => {
            assert forall|g: GameView| !has_table(u.games, chat_id, g) by {
                if has_table(u.games, chat_id, g) {
                    let k = choose|k: int| 0 <= k < u.games.len() && u.games[k] == g;
                    assert(t.games[k].chat_id != chat_id);
                }
            }
        },
    }
}

/// Sitting down happens at the chat's own table, which is set up where there is none,
/// and touches no other. Where the table refuses, nothing changes.
pub proof fn one_sits_down_at_the_chats_table(
    before: Seq<GameView>,
    after: Seq<GameView>,
    g: GameView,
    open_id: Seq<char>,
    name: Seq<char>,
    persona: Option<Persona>,
    r: Result<(), RoomError>,
)
    requires
        tables_wf(before),
        seated(before, after, g.chat_id, open_id, name, persona, r),
        before.contains(g),
    ensures
        others_keep_theirs(before, after, g.chat_id),
        g.join_error(open_id) matches Some(e) ==> r == Err::<(), RoomError>(RoomError::Table(e)) && after == before,
        g.join_error(open_id) is None ==> r is Ok && has_table(after, g.chat_id, g.joined(open_id, name, persona is Some, persona)),
{
    let k = choose|k: int| 0 <= k < before.len() && before[k] == g;
    only_table_of_chat(before, k);
    if g.join_error(open_id) is None {
        one_replaced(before, k, g.joined(open_id, name, persona is Some, persona));
    }
}

/// The first one to sit down in a chat gets a table of its own.
pub proof fn the_first_one_opens_the_table(
    before: Seq<GameView>,
    after: Seq<GameView>,
    chat_id: Seq<char>,
    open_id: Seq<char>,
    name: Seq<char>,
    persona: Option<Persona>,
    r: Result<(), RoomError>,
)
    requires
        seated(before, after, chat_id, open_id, name, persona, r),
        forall|g: GameView| !has_table(before, chat_id, g),
    ensures
        r is Ok,
        after.len() == before.len() + 1,
        forall|i: int| 0 <= i < before.len() ==> #[trigger] after[i] == before[i],
        after.last().chat_id == chat_id,
        after.last().players.len() == 1,
        after.last().players[0].open_id == open_id,
        after.last().players[0].name == name,
        after.last().players[0].is_ai == (persona is Some),
        after.last().stage == crate::game::Stage::Lobby,
        after.last().hand_count == 0,
{
    table_at_facts(before, chat_id, 0);
    if let Some(i) = table_at(before, chat_id, 0) {
        assert(before.contains(before[i]));
        assert(has_table(before, chat_id, before[i]));
    }
}

/// Leaving and removing an AI happen at the chat's own table and touch no other. Where
/// there is no table, or it refuses, nothing changes.
pub proof fn one_leaves_the_chats_table(t: TablesView, g: GameView, open_id: Seq<char>)
    requires
        tables_wf(t.games),
        t.games.contains(g),
    ensures
        ({
            let (u, r) = t.left_by(g.chat_id, open_id);
            &&& others_keep_theirs(t.games, u.games, g.chat_id)
            &&& g.leave_error(open_id) matches Some(e) ==> r == Err::<(), RoomError>(RoomError::Table(e)) && u == t
            &&& g.leave_error(open_id) is None ==> r is Ok && has_table(u.games, g.chat_id, g.left(open_id))
        }),
        ({
            let (u, r) = t.ai_gone(g.chat_id);
            &&& others_keep_theirs(t.games, u.games, g.chat_id)
            &&& g.remove_ai_error() matches Some(e) ==> r == Err::<Seq<char>, RoomError>(RoomError::Table(e)) && u == t
            &&& g.remove_ai_error() is None ==> r is Ok && has_table(u.games, g.chat_id, g.ai_removed())
        }),
{
    let k = choose|k: int| 0 <= k < t.games.len() && t.games[k] == g;
    only_table_of_chat(t.games, k);
    if g.leave_error(open_id) is None {
        one_replaced(t.games, k, g.left(open_id));
    }
    if g.remove_ai_error() is None {
        one_replaced(t.games, k, g.ai_removed());
    }
}

/// In a chat without a table there is nothing to leave.
pub proof fn nothing_to_leave(t: TablesView, chat_id: Seq<char>, open_id: Seq<char>)
    requires
        forall|g: GameView| !has_table(t.games, chat_id, g),
    ensures
        t.left_by(chat_id, open_id) == (t, Err::<(), RoomError>(RoomError::NoTable)),
        t.ai_gone(chat_id) == (t, Err::<Seq<char>, RoomError>(RoomError::NoTable)),
{
    table_at_facts(t.games, chat_id, 0);
    if let Some(i) = table_at(t.games, chat_id, 0) {
        assert(t.games.contains(t.games[i]));
        assert(has_table(t.games, chat_id, t.games[i]));
    }
}

/// A table that is put back is the chat's, in place of the one that it had, and no other
/// changes.
pub proof fn a_table_is_put_back(games: Seq<GameView>, g: GameView)
    requires
        tables_wf(games),
    ensures
        has_table(with_table(games, g), g.chat_id, g),
        forall|h: GameView| has_table(with_table(games, g), g.chat_id, h) ==> h == g,
        others_keep_theirs(games, with_table(games, g), g.chat_id),
{
    table_at_facts(games, g.chat_id, 0);
    match table_at(games, g.chat_id, 0) {
        Some(i) => {
            one_replaced(games, i, g);
        },
        None => {
            let after = games.push(g);
            assert(after[games.len() as int] == g);
            assert forall|h: GameView| h.chat_id != g.chat_id implies (#[trigger] after.contains(h) <==> games.contains(h)) by {
                if after.contains(h) {
                    let k = choose|k: int| 0 <= k < after.len() && after[k] == h;
                    assert(games[k] == h);
                }
                if games.contains(h) {
                    let k = choose|k: int| 0 <= k < games.len() && games[k] == h;
                    assert(after[k] == h);
                }
            }
            assert forall|h: GameView| has_table(after, g.chat_id, h) implies h == g by {
                let k = choose|k: int| 0 <= k < after.len() && after[k] == h;
                if k < games.len() {
                    assert(games[k].chat_id != g.chat_id);
                }
            }
        },
    }
}

/// A hand that a restart broke off does not stand in the way of the next: the
/// bets go back, and the next start deals anew.
pub proof fn a_broken_off_hand_gives_way(t: TablesView, i: int)
    requires
        0 <= i < t.games.len(),
        t.games[i].wf(),
        t.games[i].stage.betting(),
        t.broken_off.contains(t.games[i].chat_id),
    ensures
        t.to_start(i).wf(),
        t.to_start(i).start_error() is None,
        money(t.to_start(i).players) == money(t.games[i].players),
        forall|k: int| 0 <= k < t.games[i].players.len() ==> (#[trigger] t.to_start(i).players[k]).chips
            == t.games[i].players[k].chips + t.games[i].players[k].total_bet,
{
    a_called_off_hand_is_refunded(t.games[i]);
    the_next_hand_can_start(t.games[i]);
}

/// Only a hand that a restart broke off gives way; any other table is as it was.
pub proof fn a_hand_that_goes_on_is_kept(t: TablesView, i: int)
    requires
        0 <= i < t.games.len(),
        !t.broken_off.contains(t.games[i].chat_id),
    ensures
        t.to_start(i) == t.games[i],
        t.games[i].stage.betting() ==> t.to_start(i).start_error() == Some(GameError::HandInProgress(t.games[i].stage)),
{
}

/// A table at which nobody has sat yet.
pub open spec fn empty_table(chat_id: Seq<char>, deck: Seq<Card>) -> GameView {
    GameView {
        chat_id,
        players: Seq::empty(),
        stage: crate::game::Stage::Lobby,
        deck,
        community: Seq::empty(),
        current_bet: 0,
        min_raise: crate::game::BIG_BLIND as int,
        small_blind: crate::game::SMALL_BLIND as int,
        big_blind: crate::game::BIG_BLIND as int,
        dealer_idx: 0,
        current_idx: 0,
        hand_count: 0,
        action_log: Seq::empty(),
        last_action_msg_id: None,
        lobby_msg_id: None,
        mode: DeckMode::Standard,
    }
}

/// What comes of somebody's asking for a seat: the table refuses, or they sit at
/// it. A chat without a table gets one.
pub open spec fn seated(
    before: Seq<GameView>,
    after: Seq<GameView>,
    chat_id: Seq<char>,
    open_id: Seq<char>,
    name: Seq<char>,
    persona: Option<Persona>,
    r: Result<(), RoomError>,
) -> bool {
    match table_at(before, chat_id, 0) {
        Some(i) => match before[i].join_error(open_id) {
            Some(e) => r == Err::<(), RoomError>(RoomError::Table(e)) && after == before,
            None => r is Ok && after == before.update(i, before[i].joined(open_id, name, persona is Some, persona)),
        },
        None => r is Ok && exists|deck: Seq<Card>|
            after == before.push(#[trigger] empty_table(chat_id, deck).joined(open_id, name, persona is Some, persona)),
    }
}

impl Tables {
    /// No chat has a table.
    pub fn new() -> (r: Self)
        ensures
            r@ == (TablesView { games: Seq::empty(), broken_off: Set::empty() }),
    {
        let r = Tables { games: Vec::new(), broken_off: Vec::new() };
        assert(r@.games =~= Seq::<GameView>::empty());
        assert(r@.broken_off =~= Set::<Seq<char>>::empty());
        r
    }

    /// The tables that were stored. A hand that was in play is called off when
    /// the chat next starts one.
    pub fn restored(games: Vec<Game>) -> (r: Self)
        ensures
            r@.games == restored_tables(games@.map_values(|g: Game| g@)),
            r@.broken_off == in_hand(r@.games),
            tables_wf(r@.games),
    {
        let ghost all = games@.map_values(|g: Game| g@);
        let mut games = games;
        let mut back: Vec<Game> = Vec::new();
        let mut r = Tables::new();
        while games.len() > 0
            invariant
                all.len() == games@.len() + back@.len(),
                forall|k: int| 0 <= k < games@.len() ==> (#[trigger] games@[k])@ == all[k],
                forall|k: int| 0 <= k < back@.len() ==> (#[trigger] back@[k])@ == all[all.len() - 1 - k],
            decreases games@.len(),
        {
            let n = games.len();
            let g = games.remove(n - 1);
            back.push(g);
        }
        assert(all.take(0) =~= Seq::empty());
        while back.len() > 0
            invariant
                back@.len() <= all.len(),
                forall|k: int| 0 <= k < back@.len() ==> (#[trigger] back@[k])@ == all[all.len() - 1 - k],
                r@.games == restored_tables(all.take(all.len() - back@.len())),
                tables_wf(r@.games),
            decreases back@.len(),
        {
            let n = back.len();
            let ghost done = all.take(all.len() - n);
            let ghost more = all.take(all.len() - n + 1);
            assert(more.drop_last() =~= done);
            let g = back.remove(n - 1);
            assert(more.last() == g@);
            r.put(g);
            assert(r@.games == restored_tables(more));
        }
        assert(all.take(all.len() as int) =~= all);
        r.note_hands();
        r
    }

    /// Write down which chats have a hand in play.
    fn note_hands(&mut self)
        requires
            tables_wf(old(self)@.games),
        ensures
            final(self)@ == (TablesView { broken_off: in_hand(old(self)@.games), ..old(self)@ }),
    {
        let ghost games = self@.games;
        let mut chats = no_texts();
        let mut i: usize = 0;
        while i < self.games.len()
            invariant
                games == self@.games,
                i <= self.games@.len() == games.len(),
                forall|k: int| 0 <= k < i && !games[k].stage.idle() ==> texts(chats@).contains((#[trigger] games[k]).chat_id),
                forall|j: int| 0 <= j < texts(chats@).len() ==> of_a_hand(games, i as int, #[trigger] texts(chats@)[j]),
            decreases self.games@.len() - i,
        {
            let ghost before = texts(chats@);
            assert(games[i as int] == self.games@[i as int]@);
            if !self.games[i].stage.is_idle() {
                append_text(&mut chats, self.games[i].chat_id.clone());
                assert(texts(chats@)[before.len() as int] == games[i as int].chat_id);
                assert(of_a_hand_at(games, i as int, games[i as int].chat_id));
            }
            proof {
                let after = texts(chats@);
                assert forall|k: int| 0 <= k < i + 1 && !games[k].stage.idle() implies after.contains((#[trigger] games[k]).chat_id) by {
                    if k < i {
                        let j = choose|j: int| 0 <= j < before.len() && before[j] == games[k].chat_id;
                        assert(after[j] == games[k].chat_id);
                    }
                }
                assert forall|j: int| 0 <= j < after.len() implies of_a_hand(games, i + 1, #[trigger] after[j]) by {
                    if j < before.len() {
                        assert(after[j] == before[j]);
                        let k = choose|k: int| 0 <= k < i && of_a_hand_at(games, k, before[j]);
                        assert(of_a_hand_at(games, k, after[j]));
                    }
                }
            }
            i = i + 1;
        }
        proof {
            let noted = texts(chats@);
            assert forall|c: Seq<char>| noted.to_set().contains(c) <==> in_hand(games).contains(c) by {
                if noted.contains(c) {
                    let j = choose|j: int| 0 <= j < noted.len() && noted[j] == c;
                    assert(of_a_hand(games, i as int, noted[j]));
                    let k = choose|k: int| 0 <= k < i && of_a_hand_at(games, k, c);
                    only_table_of_chat(games, k);
                }
                if in_hand(games).contains(c) {
                    table_at_facts(games, c, 0);
                    let k = table_at(games, c, 0)->Some_0;
                    assert(noted.contains(games[k].chat_id));
                }
            }
            assert(noted.to_set() =~= in_hand(games));
        }
        self.broken_off = chats;
        assert(self@.games =~= games);
    }

    /// Whether the chat's hand was in play when its table came back.
    fn is_broken_off(&self, chat_id: &str) -> (r: bool)
        ensures
            r == self@.broken_off.contains(chat_id@),
    {
        let mut i: usize = 0;
        while i < self.broken_off.len()
            invariant
                i <= self.broken_off@.len() == texts(self.broken_off@).len(),
                forall|k: int| 0 <= k < i ==> (#[trigger] texts(self.broken_off@)[k]) != chat_id@,
            decreases self.broken_off@.len() - i,
        {
            assert(texts(self.broken_off@)[i as int] == self.broken_off@[i as int]@);
            if same_text(self.broken_off[i].as_str(), chat_id) {
                assert(texts(self.broken_off@).contains(chat_id@));
                return true;
            }
            i = i + 1;
        }
        assert(!texts(self.broken_off@).contains(chat_id@));
        false
    }

    /// The chat's hand is no longer one that a restart broke off.
    fn forget_broken_off(&mut self, chat_id: &str)
        ensures
            final(self)@ == (TablesView { broken_off: old(self)@.broken_off.remove(chat_id@), ..old(self)@ }),
            final(self).games == old(self).games,
    {
        let ghost all = texts(self.broken_off@);
        let mut kept = no_texts();
        let mut i: usize = 0;
        while i < self.broken_off.len()
            invariant
                all == texts(self.broken_off@),
                i <= self.broken_off@.len() == all.len(),
                *self == *old(self),
                forall|k: int| 0 <= k < i && all[k] != chat_id@ ==> texts(kept@).contains(#[trigger] all[k]),
                forall|j: int| 0 <= j < texts(kept@).len() ==> all.contains(#[trigger] texts(kept@)[j]) && texts(kept@)[j] != chat_id@,
            decreases self.broken_off@.len() - i,
        {
            let ghost before = texts(kept@);
            assert(all[i as int] == self.broken_off@[i as int]@);
            if !same_text(self.broken_off[i].as_str(), chat_id) {
                append_text(&mut kept, self.broken_off[i].clone());
                assert(texts(kept@)[before.len() as int] == all[i as int]);
            }
            proof {
                let after = texts(kept@);
                assert forall|k: int| 0 <= k < i + 1 && all[k] != chat_id@ implies after.contains(#[trigger] all[k]) by {
                    if k < i {
                        let j = choose|j: int| 0 <= j < before.len() && before[j] == all[k];
                        assert(after[j] == all[k]);
                    }
                }
            }
            i = i + 1;
        }
        proof {
            let left = texts(kept@);
            assert forall|c: Seq<char>| left.to_set().contains(c) <==> all.to_set().remove(chat_id@).contains(c) by {
                if left.contains(c) {
                    let j = choose|j: int| 0 <= j < left.len() && left[j] == c;
                    assert(all.contains(left[j]));
                }
                if all.contains(c) && c != chat_id@ {
                    let k = choose|k: int| 0 <= k < all.len() && all[k] == c;
                    assert(left.contains(all[k]));
                }
            }
            assert(left.to_set() =~= all.to_set().remove(chat_id@));
        }
        self.broken_off = kept;
    }

    fn position(&self, chat_id: &str) -> (r: Option<usize>)
        ensures
            match r {
                Some(i) => table_at(self@.games, chat_id@, 0) == Some(i as int) && i < self.games@.len(),
                None => table_at(self@.games, chat_id@, 0) is None,
            },
    {
        let mut i: usize = 0;
        while i < self.games.len()
            invariant
                i <= self.games@.len(),
                self@.games.len() == self.games@.len(),
                table_at(self@.games, chat_id@, 0) == table_at(self@.games, chat_id@, i as int),
            decreases self.games@.len() - i,
        {
            assert(self@.games[i as int] == self.games@[i as int]@);
            if same_text(self.games[i].chat_id.as_str(), chat_id) {
                return Some(i);
            }
            i = i + 1;
        }
        None
    }

    /// The table of a chat.
    pub fn find(&self, chat_id: &str) -> (r: Option<&Game>)
        ensures
            match r {
                Some(g) => table_at(self@.games, chat_id@, 0) matches Some(i) && 0 <= i < self@.games.len() && g@ == self@.games[i],
                None => table_at(self@.games, chat_id@, 0) is None,
            },
    {
        match self.position(chat_id) {
            Some(i) => {
                assert(self@.games[i as int] == self.games@[i as int]@);
                Some(&self.games[i])
            },
            None => None,
        }
    }

    /// Put a table back after it has been changed, or add it.
    pub fn put(&mut self, game: Game)
        ensures
            final(self)@ == (TablesView { games: with_table(old(self)@.games, game@), ..old(self)@ }),
            tables_wf(old(self)@.games) ==> tables_wf(final(self)@.games),
    {
        let ghost before = self@.games;
        let ghost view = game@;
        proof {
            with_table_facts(before, view);
        }
        match self.position(game.chat_id.as_str()) {
            Some(i) => {
                self.games[i] = game;
                assert(self@.games =~= before.update(i as int, view));
            },
            None => {
                self.games.push(game);
                assert(self@.games =~= before.push(view));
            },
        }
    }

    /// Give the chat's table up.
    pub fn reset(&mut self, chat_id: &str)
        ensures
            final(self)@ == old(self)@.given_up(chat_id@),
            tables_wf(old(self)@.games) ==> tables_wf(final(self)@.games),
    {
        let ghost before = self@.games;
        self.forget_broken_off(chat_id);
        if let Some(i) = self.position(chat_id) {
            self.games.remove(i);
            assert(self@.games =~= before.remove(i as int));
            assert forall|j: int, k: int| tables_wf(before) && 0 <= j < k < self@.games.len() implies (
            #[trigger] self@.games[j]).chat_id != (#[trigger] self@.games[k]).chat_id by {
                let a = if j < i { j } else { j + 1 };
                let b = if k < i { k } else { k + 1 };
                assert(before[a].chat_id != before[b].chat_id);
            }
        }
    }

    /// Give somebody a seat at the chat's table, which is set up if there is none.
    fn seat(&mut self, chat_id: &str, open_id: &str, name: &str, persona: Option<Persona>) -> (r: Result<(), RoomError>)
        ensures
            tables_wf(old(self)@.games) ==> tables_wf(final(self)@.games),
            in_order(old(self)@.games, chat_id@) && can_pay(old(self)@.games, chat_id@) ==> in_order(final(self)@.games, chat_id@),
            seated(old(self)@.games, final(self)@.games, chat_id@, open_id@, name@, persona, r),
            final(self)@.broken_off == old(self)@.broken_off,
    {
        let ghost before = self@.games;
        proof {
            table_at_facts(before, chat_id@, 0);
        }
        match self.position(chat_id) {
            Some(i) => {
                assert(before[i as int] == self.games@[i as int]@);
                let res = match persona {
                    Some(p) => self.games[i].add_ai_player(open_id.to_owned(), name.to_owned(), p),
                    None => self.games[i].add_player(open_id.to_owned(), name.to_owned()),
                };
                assert(self@.games =~= before.update(i as int, self.games@[i as int]@));
                proof {
                    with_table_facts(before, self.games@[i as int]@);
                }
                match res {
                    Ok(()) => Ok(()),
                    Err(e) => {
                        assert(self@.games =~= before);
                        Err(RoomError::Table(e))
                    },
                }
            },
            None => {
                let mut g = Game::new(chat_id.to_owned());
                let ghost deck = g@.deck;
                assert(g@ =~= empty_table(chat_id@, deck));
                assert(money(g@.players) == 0);
                let res = match persona {
                    Some(p) => g.add_ai_player(open_id.to_owned(), name.to_owned(), p),
                    None => g.add_player(open_id.to_owned(), name.to_owned()),
                };
                let ghost view = g@;
                self.games.push(g);
                assert(self@.games =~= before.push(view));
                proof {
                    with_table_facts(before, view);
                }
                assert(view == empty_table(chat_id@, deck).joined(open_id@, name@, persona is Some, persona));
                assert(res is Ok);
                Ok(())
            },
        }
    }

    /// Seat a user at the chat's table, which is set up if there is none.
    pub fn join(&mut self, chat_id: &str, open_id: &str, name: &str) -> (r: Result<(), RoomError>)
        ensures
            tables_wf(old(self)@.games) ==> tables_wf(final(self)@.games),
            in_order(old(self)@.games, chat_id@) && can_pay(old(self)@.games, chat_id@) ==> in_order(final(self)@.games, chat_id@),
            seated(old(self)@.games, final(self)@.games, chat_id@, open_id@, name@, None, r),
            final(self)@.broken_off == old(self)@.broken_off,
    {
        self.seat(chat_id, open_id, name, None)
    }

    /// Seat an AI player at the chat's table, which is set up if there is none.
    pub fn add_ai(&mut self, chat_id: &str, open_id: &str, name: &str, persona: Persona) -> (r: Result<(), RoomError>)
        ensures
            tables_wf(old(self)@.games) ==> tables_wf(final(self)@.games),
            in_order(old(self)@.games, chat_id@) && can_pay(old(self)@.games, chat_id@) ==> in_order(final(self)@.games, chat_id@),
            seated(old(self)@.games, final(self)@.games, chat_id@, open_id@, name@, Some(persona), r),
            final(self)@.broken_off == old(self)@.broken_off,
    {
        self.seat(chat_id, open_id, name, Some(persona))
    }

    /// Remove the AI player who came last from the chat's table. Returns their
    /// name.
    pub fn remove_ai(&mut self, chat_id: &str) -> (r: Result<String, RoomError>)
        ensures
            tables_wf(old(self)@.games) ==> tables_wf(final(self)@.games),
            in_order(old(self)@.games, chat_id@) ==> in_order(final(self)@.games, chat_id@),
            final(self)@ == old(self)@.ai_gone(chat_id@).0,
            match old(self)@.ai_gone(chat_id@).1 {
                Ok(name) => r is Ok && r->Ok_0@ == name,
                Err(e) => r is Err && r->Err_0 == e,
            },
    {
        let ghost before = self@.games;
        proof {
            table_at_facts(before, chat_id@, 0);
        }
        match self.position(chat_id) {
            Some(i) => {
                assert(before[i as int] == self.games@[i as int]@);
                let res = self.games[i].remove_last_ai();
                assert(self@.games =~= before.update(i as int, self.games@[i as int]@));
                proof {
                    with_table_facts(before, self.games@[i as int]@);
                }
                match res {
                    Ok(name) => Ok(name),
                    Err(e) => {
                        assert(self@.games =~= before);
                        Err(RoomError::Table(e))
                    },
                }
            },
            None => Err(RoomError::NoTable),
        }
    }

    /// Let a user leave the chat's table.
    pub fn leave(&mut self, chat_id: &str, open_id: &str) -> (r: Result<(), RoomError>)
        ensures
            tables_wf(old(self)@.games) ==> tables_wf(final(self)@.games),
            in_order(old(self)@.games, chat_id@) ==> in_order(final(self)@.games, chat_id@),
            (final(self)@, r) == old(self)@.left_by(chat_id@, open_id@),
    {
        let ghost before = self@.games;
        proof {
            table_at_facts(before, chat_id@, 0);
        }
        match self.position(chat_id) {
            Some(i) => {
                assert(before[i as int] == self.games@[i as int]@);
                let res = self.games[i].remove_player(open_id);
                assert(self@.games =~= before.update(i as int, self.games@[i as int]@));
                proof {
                    with_table_facts(before, self.games@[i as int]@);
                }
                match res {
                    Ok(()) => Ok(()),
                    Err(e) => {
                        assert(self@.games =~= before);
                        Err(RoomError::Table(e))
                    },
                }
            },
            None => Err(RoomError::NoTable),
        }
    }

    /// Start a hand at the chat's table. A hand that a restart broke off is called
    /// off first.
    pub fn start(&mut self, chat_id: &str, mode: DeckMode) -> (r: Result<(), RoomError>)
        requires
            in_order(old(self)@.games, chat_id@),
            table_at(old(self)@.games, chat_id@, 0) matches Some(i) ==> old(self)@.games[i].hand_count < u32::MAX,
        ensures
            tables_wf(old(self)@.games) ==> tables_wf(final(self)@.games),
            in_order(final(self)@.games, chat_id@),
            match table_at(old(self)@.games, chat_id@, 0) {
                Some(i) => match old(self)@.to_start(i).start_error() {
                    Some(e) => r == Err::<(), RoomError>(RoomError::Table(e)) && final(self)@ == (TablesView {
                        games: old(self)@.games.update(i, old(self)@.to_start(i)),
                        ..old(self)@
                    }),
                    None => r is Ok && exists|deck: Seq<Card>| #[trigger] deck.to_multiset() == ordered_deck(mode).to_multiset()
                        && final(self)@ == (TablesView {
                        games: old(self)@.games.update(i, old(self)@.to_start(i).started(mode, deck)),
                        broken_off: old(self)@.broken_off.remove(chat_id@),
                    }),
                },
                None => r == Err::<(), RoomError>(RoomError::NoTableToStart) && final(self)@ == old(self)@,
            },
    {
        let ghost before = self@;
        proof {
            table_at_facts(before.games, chat_id@, 0);
        }
        match self.position(chat_id) {
            Some(i) => {
                assert(before.games[i as int] == self.games@[i as int]@);
                if self.is_broken_off(chat_id) {
                    proof {
                        a_table_in_order_is_refundable(before.games[i as int]);
                    }
                    self.games[i].call_off();
                }
                let ghost ready = self.games@[i as int]@;
                assert(ready == before.to_start(i as int));
                let res = self.games[i].start_hand(mode);
                let ghost now = self.games@[i as int]@;
                assert(self@.games =~= before.games.update(i as int, now));
                proof {
                    with_table_facts(before.games, now);
                }
                match res {
                    Ok(()) => {
                        self.forget_broken_off(chat_id);
                        Ok(())
                    },
                    Err(e) => Err(RoomError::Table(e)),
                }
            },
            None => Err(RoomError::NoTableToStart),
        }
    }
}

/// The hands to show to their players: one for everybody who does not sit out.
pub open spec fn hands_dealt(players: Seq<PlayerView>) -> Seq<(Seq<char>, Seq<Card>)>
    decreases players.len(),
{
    if players.len() == 0 {
        Seq::empty()
    } else if players.last().sat_out {
        hands_dealt(players.drop_last())
    } else {
        hands_dealt(players.drop_last()).push((players.last().open_id, players.last().hole))
    }
}

pub open spec fn hands_view(hands: Seq<(String, Vec<Card>)>) -> Seq<(Seq<char>, Seq<Card>)> {
    hands.map_values(|h: (String, Vec<Card>)| (h.0@, h.1@))
}

/// The hands to show to their players.
pub fn dealt_hands(g: &Game) -> (r: Vec<(String, Vec<Card>)>)
    ensures
        hands_view(r@) == hands_dealt(g@.players),
{
    let ghost all = g@.players;
    let mut out: Vec<(String, Vec<Card>)> = Vec::new();
    let mut i: usize = 0;
    assert(hands_view(out@) =~= Seq::empty());
    while i < g.players.len()
        invariant
            i <= g.players@.len(),
            all == g@.players,
            all.len() == g.players@.len(),
            hands_view(out@) == hands_dealt(all.take(i as int)),
        decreases g.players@.len() - i,
    {
        assert(all.take(i + 1).drop_last() =~= all.take(i as int));
        assert(all.take(i + 1).last() == g.players@[i as int]@);
        let p = &g.players[i];
        if !p.sat_out {
            let mut hole: Vec<Card> = Vec::new();
            hole.extend_from_slice(p.hole.as_slice());
            assert(hole@ =~= p@.hole);
            let ghost before = hands_view(out@);
            out.push((p.open_id.clone(), hole));
            assert(hands_view(out@) =~= before.push((p@.open_id, p@.hole)));
        }
        i = i + 1;
    }
    assert(all.take(all.len() as int) =~= all);
    out
}

/// Everybody who is dealt in is shown their own hand, and nobody another's.
pub proof fn everybody_is_shown_their_own_hand(players: Seq<PlayerView>, id: Seq<char>, hole: Seq<Card>)
    ensures
        hands_dealt(players).contains((id, hole)) <==> is_dealt(players, id, hole),
    decreases players.len(),
{
    if players.len() > 0 {
        let rest = players.drop_last();
        everybody_is_shown_their_own_hand(rest, id, hole);
        let a = hands_dealt(rest);
        let b = hands_dealt(players);
        assert(players[players.len() - 1] == players.last());
        if b.contains((id, hole)) {
            let k = choose|k: int| 0 <= k < b.len() && b[k] == (id, hole);
            if k < a.len() {
                assert(a[k] == (id, hole));
                let i = choose|i: int| 0 <= i < rest.len() && !(#[trigger] rest[i]).sat_out && rest[i].open_id == id && rest[i].hole == hole;
                assert(players[i] == rest[i]);
            }
        }
        if is_dealt(players, id, hole) {
            let i = choose|i: int|
                0 <= i < players.len() && !(#[trigger] players[i]).sat_out && players[i].open_id == id && players[i].hole == hole;
            if i < rest.len() {
                assert(rest[i] == players[i]);
                assert(a.contains((id, hole)));
                let k = choose|k: int| 0 <= k < a.len() && a[k] == (id, hole);
                assert(b[k] == (id, hole));
            } else {
                assert(b[b.len() - 1] == (id, hole));
            }
        }
    }
}

/// Whether a player with this id was dealt these cards.
pub open spec fn is_dealt(players: Seq<PlayerView>, id: Seq<char>, hole: Seq<Card>) -> bool {
    exists|i: int| 0 <= i < players.len() && !(#[trigger] players[i]).sat_out && players[i].open_id == id && players[i].hole == hole
}

/// Which messages are read: texts, from the allowed chat or from any where none is
/// named, and whatever is said in private.
pub proof fn which_messages_are_read(msg: InboundView, allowed: Option<Seq<char>>)
    ensures
        msg.message_type != "text"@ ==> !is_read(msg, allowed),
        msg.message_type == "text"@ && msg.chat_type == "p2p"@ ==> is_read(msg, allowed),
        msg.message_type == "text"@ && msg.chat_type != "p2p"@ ==> (is_read(msg, allowed) <==> allowed is None || allowed == Some(msg.chat_id)),
{
}

/// Whether the bot listens to a chat: to the allowed one, or to all if none is
/// named.
pub open spec fn listens_to(allowed: Option<Seq<char>>, chat_id: Seq<char>) -> bool {
    match allowed {
        Some(id) => id == chat_id,
        None => true,
    }
}

pub open spec fn option_text(t: Option<&str>) -> Option<Seq<char>> {
    match t {
        Some(s) => Some(s@),
        None => None,
    }
}

/// Whether the bot listens to a chat.
pub fn chat_allowed(allowed: Option<&str>, chat_id: &str) -> (r: bool)
    ensures
        r == listens_to(option_text(allowed), chat_id@),
{
    match allowed {
        Some(id) => same_text(id, chat_id),
        None => true,
    }
}

/// Whether a message is one that the bot reads: a text, from a chat that it
/// listens to or a private one.
pub open spec fn is_read(msg: InboundView, allowed: Option<Seq<char>>) -> bool {
    msg.message_type == "text"@ && (listens_to(allowed, msg.chat_id) || msg.chat_type == "p2p"@)
}

/// The command in a message, if the bot reads the message and it holds one.
pub fn command_of(msg: &InboundMessage, allowed: Option<&str>, bot_open_id: &str) -> (r: Option<Command>)
    ensures
        !is_read(msg@, option_text(allowed)) ==> r is None,
        is_read(msg@, option_text(allowed)) ==> ({
            let ms = msg@.mentions;
            let for_bot = msg@.chat_type == "p2p"@ || mentioned(ms, bot_open_id@);
            match addressed(cleaned(msg@.text, ms, ms.len()), for_bot) {
                Some((namespace, body)) => r == command_in(namespace, lowered(body)),
                None => r is None,
            }
        }),
{
    if !same_text(msg.message_type.as_str(), "text") {
        return None;
    }
    let is_p2p = same_text(msg.chat_type.as_str(), "p2p");
    if !chat_allowed(allowed, msg.chat_id.as_str()) && !is_p2p {
        return None;
    }
    parse_command(msg.text.as_str(), msg.mentions.as_slice(), bot_open_id, is_p2p)
}

} // verus!
